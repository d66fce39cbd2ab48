//! The merged view that is current, by generated identifier.

use crate::project::{Project, ProjectView};
use std::collections::HashMap;
use vstd::prelude::*;
use vstd::std_specs::iter::IteratorSpec;

verus! {

/// Whether `id` has the shape of a random identifier: its version is four
/// and its variant the common one.
pub open spec fn is_random_id(id: u128) -> bool {
    id & 0x0000_0000_0000_f000_c000_0000_0000_0000u128
        == 0x0000_0000_0000_4000_8000_0000_0000_0000u128
}

/// Draws an identifier with `uuid::Uuid::new_v4` and hands it back as the
/// number that `Uuid::as_u128` gives for it. The identifier is random; all
/// that is claimed of it is the version and variant that `new_v4` sets in
/// every identifier it makes.
#[verifier::external_body]
fn fresh_id() -> (id: u128)
    ensures
        is_random_id(id),
{
    uuid::Uuid::new_v4().as_u128()
}

/// The projects of the merged view that is current, each under an
/// identifier of its own.
#[derive(Debug)]
pub struct Projects {
    projects: HashMap<u128, Project>,
}

impl View for Projects {
    type V = Map<u128, ProjectView>;

    closed spec fn view(&self) -> Map<u128, ProjectView> {
        self.projects@.map_values(|project: Project| project@)
    }
}

/// What a store holds once `projects` have been put into it one after the
/// other, each under the identifier at its position. A project put under an
/// identifier that is taken replaces what was there.
pub open spec fn stored(
    before: Map<u128, ProjectView>,
    ids: Seq<u128>,
    projects: Seq<ProjectView>,
) -> Map<u128, ProjectView>
    decreases projects.len(),
{
    if projects.len() == 0 || ids.len() == 0 {
        before
    } else {
        stored(before, ids.drop_last(), projects.drop_last()).insert(ids.last(), projects.last())
    }
}

impl Default for Projects {
    fn default() -> (store: Self)
        ensures
            store@ == Map::<u128, ProjectView>::empty(),
    {
        Projects::new()
    }
}

impl Clone for Projects {
    fn clone(&self) -> (copy: Self)
        ensures
            copy@ == self@,
    {
        let ids = self.ids();
        let mut copy = Projects::new();
        let mut i: usize = 0;
        assert(ids@.take(0).to_set() =~= Set::<u128>::empty());
        while i < ids.len()
            invariant
                i <= ids@.len(),
                ids@.to_set() == self@.dom(),
                copy@.dom() == ids@.take(i as int).to_set(),
                forall|id: u128| #[trigger] copy@.contains_key(id) ==> copy@[id] == self@[id],
            decreases ids@.len() - i,
        {
            let id = ids[i];
            let ghost seen = ids@.take(i as int);
            let ghost before = copy@;
            proof {
                assert(ids@.contains(id));
                assert(self@.dom().contains(id));
                assert(ids@.take(i + 1) =~= seen.push(id));
                seen.lemma_push_to_set_commute(id);
            }
            match self.get(id) {
                Some(project) => {
                    copy.insert(id, project.clone());
                },
                None => {},
            }
            assert(copy@ == before.insert(id, self@[id]));
            assert(copy@.dom() =~= before.dom().insert(id));
            i += 1;
        }
        proof {
            assert(ids@.take(ids@.len() as int) =~= ids@);
            assert(copy@ =~= self@);
        }
        copy
    }
}

impl Projects {
    /// A store that holds nothing.
    pub fn new() -> (store: Self)
        ensures
            store@ == Map::<u128, ProjectView>::empty(),
    {
        let store = Projects { projects: HashMap::new() };
        assert(store@ =~= Map::<u128, ProjectView>::empty());
        store
    }

    /// The project that is held under `id`, if one is.
    pub fn get(&self, id: u128) -> (project: Option<&Project>)
        ensures
            match project {
                Some(p) => self@.contains_key(id) && p@ == self@[id] && p@.well_formed(),
                None => !self@.contains_key(id),
            },
    {
        broadcast use vstd::std_specs::hash::group_hash_axioms;

        match self.projects.get(&id) {
            Some(project) => {
                let _ = project.local();
                Some(project)
            },
            None => None,
        }
    }

    /// Empties the store.
    pub fn clear(&mut self)
        ensures
            final(self)@ == Map::<u128, ProjectView>::empty(),
    {
        self.projects.clear();
        assert(self@ =~= Map::<u128, ProjectView>::empty());
    }

    /// Puts `project` under `id`, in place of what was held there.
    pub fn insert(&mut self, id: u128, project: Project)
        ensures
            final(self)@ == old(self)@.insert(id, project@),
    {
        broadcast use vstd::std_specs::hash::group_hash_axioms;

        self.projects.insert(id, project);
        assert(self@ =~= old(self)@.insert(id, project@));
    }

    /// Puts each of `projects` into the store under an identifier that is
    /// drawn for it. The identifiers are random: whatever is drawn, the store
    /// then holds what [`stored`] names for them.
    pub fn extend(&mut self, projects: Vec<Project>)
        ensures
            exists|ids: Seq<u128>|
                ids.len() == projects@.len() && (forall|i: int|
                    0 <= i < ids.len() ==> is_random_id(#[trigger] ids[i])) && final(self)@
                    == #[trigger] stored(old(self)@, ids, projects.deep_view()),
    {
        let ghost before = self@;
        let ghost all = projects.deep_view();
        let ghost mut ids: Seq<u128> = Seq::empty();
        assert(all.take(0) =~= Seq::empty());
        for project in it: projects
            invariant
                it.seq() == projects@,
                all == projects.deep_view(),
                ids.len() == it.index(),
                forall|i: int| 0 <= i < ids.len() ==> is_random_id(#[trigger] ids[i]),
                self@ == stored(before, ids, all.take(it.index() as int)),
        {
            let ghost at = it.index() as int;
            let id = fresh_id();
            proof {
                assert(all.take(at + 1).drop_last() =~= all.take(at));
                assert(all.take(at + 1).last() == project@);
                assert(ids.push(id).drop_last() =~= ids);
                ids = ids.push(id);
            }
            self.insert(id, project);
        }
        assert(all.take(all.len() as int) =~= all);
    }

    /// Replaces what the store holds by `projects`, each under an identifier
    /// that is drawn for it.
    pub fn replace_all(&mut self, projects: Vec<Project>)
        ensures
            exists|ids: Seq<u128>|
                ids.len() == projects@.len() && (forall|i: int|
                    0 <= i < ids.len() ==> is_random_id(#[trigger] ids[i])) && final(self)@
                    == #[trigger] stored(Map::empty(), ids, projects.deep_view()),
    {
        self.clear();
        self.extend(projects);
    }

    /// The identifiers under which projects are held, each once, in no
    /// particular order.
    pub fn ids(&self) -> (ids: Vec<u128>)
        ensures
            ids@.no_duplicates(),
            ids@.to_set() == self@.dom(),
            ids@.len() == self@.dom().len(),
    {
        broadcast use vstd::std_specs::hash::group_hash_axioms;

        let ghost keys = self.projects.keys().remaining();
        let mut ids: Vec<u128> = Vec::new();
        for id in it: self.projects.keys()
            invariant
                keys == it.seq(),
                ids@ == keys.take(it.index() as int).unref(),
        {
            ids.push(*id);
            assert(ids@ =~= keys.take(it.index() + 1).unref());
        }
        assert(keys.take(keys.len() as int) =~= keys);
        assert(self@.dom() =~= self.projects@.dom());
        ids
    }

    /// How many projects are held.
    pub fn len(&self) -> (count: usize)
        ensures
            count == self@.dom().len(),
    {
        broadcast use vstd::std_specs::hash::group_hash_axioms;

        assert(self@.dom() =~= self.projects@.dom());
        self.projects.len()
    }
}

/// Where the identifiers are all different and none of them is taken, each
/// project is held under the identifier at its position, what was held
/// before is held still, and nothing else is held.
pub proof fn lemma_stored_one_id_each(
    before: Map<u128, ProjectView>,
    ids: Seq<u128>,
    projects: Seq<ProjectView>,
)
    requires
        ids.len() == projects.len(),
        ids.no_duplicates(),
        forall|i: int| 0 <= i < ids.len() ==> !before.contains_key(#[trigger] ids[i]),
    ensures
        stored(before, ids, projects).dom() == before.dom().union(ids.to_set()),
        forall|i: int|
            0 <= i < ids.len() ==> stored(before, ids, projects)[#[trigger] ids[i]] == projects[i],
        forall|id: u128| #[trigger]
            before.contains_key(id) ==> stored(before, ids, projects)[id] == before[id],
    decreases projects.len(),
{
    if projects.len() == 0 {
        assert(before.dom().union(ids.to_set()) =~= before.dom());
    } else {
        let fewer = ids.drop_last();
        let rest = projects.drop_last();
        let last = ids.len() - 1;
        assert forall|i: int| 0 <= i < fewer.len() implies !before.contains_key(
            #[trigger] fewer[i],
        ) by {
            assert(fewer[i] == ids[i]);
        }
        lemma_stored_one_id_each(before, fewer, rest);
        let held = stored(before, fewer, rest);
        let after = stored(before, ids, projects);
        assert(after == held.insert(ids[last], projects[last]));
        assert(ids =~= fewer.push(ids[last]));
        fewer.lemma_push_to_set_commute(ids[last]);
        assert(after.dom() =~= before.dom().union(ids.to_set()));
        assert forall|i: int| 0 <= i < ids.len() implies after[#[trigger] ids[i]]
            == projects[i] by {
            if i < last {
                assert(fewer[i] == ids[i]);
                assert(rest[i] == projects[i]);
                assert(ids[i] != ids[last]);
            }
        }
        assert forall|id: u128| #[trigger] before.contains_key(id) implies after[id]
            == before[id] by {
            assert(id != ids[last]);
        }
    }
}

/// A store that was emptied and then filled under identifiers that are all
/// different holds exactly one identifier for each project.
pub proof fn lemma_refreshed_one_id_each(ids: Seq<u128>, projects: Seq<ProjectView>)
    requires
        ids.len() == projects.len(),
        ids.no_duplicates(),
    ensures
        stored(Map::empty(), ids, projects).dom() == ids.to_set(),
        stored(Map::empty(), ids, projects).dom().finite(),
        stored(Map::empty(), ids, projects).dom().len() == projects.len(),
        forall|i: int|
            0 <= i < ids.len() ==> stored(Map::empty(), ids, projects)[#[trigger] ids[i]]
                == projects[i],
{
    lemma_stored_one_id_each(Map::empty(), ids, projects);
    assert(Map::<u128, ProjectView>::empty().dom().union(ids.to_set()) =~= ids.to_set());
    ids.unique_seq_to_set();
    vstd::seq_lib::seq_to_set_is_finite(ids);
}

} // verus!
