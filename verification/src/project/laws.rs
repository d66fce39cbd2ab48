//! What holds of every merged view: it is a partition of the local projects
//! and the remote repositories it was made from.

use crate::github::user::RepositoryView;
use crate::project::{
    assigned, claimed_after, first_match, is_first_match, lemma_claimed_step, local_entry,
    points_at, reconciled, remote_entry, target, unclaimed, LocalProjectView, ProjectView,
};
use vstd::prelude::*;

verus! {

/// Whether no two repositories share an id.
pub open spec fn distinct_ids(repositories: Seq<RepositoryView>) -> bool {
    forall|i: int, j: int|
        0 <= i < j < repositories.len() ==> (#[trigger] repositories[i]).id != (
        #[trigger] repositories[j]).id
}

/// How many of the projects hold both a local and a remote side.
pub open spec fn matched_count(projects: Seq<ProjectView>) -> nat
    decreases projects.len(),
{
    if projects.len() == 0 {
        0
    } else if projects.last().is_matched() {
        matched_count(projects.drop_last()) + 1
    } else {
        matched_count(projects.drop_last())
    }
}

/// The projects that the local projects become, in their order.
pub open spec fn local_part(
    locals: Seq<LocalProjectView>,
    repositories: Seq<RepositoryView>,
) -> Seq<ProjectView> {
    Seq::new(locals.len(), |at: int| local_entry(locals, repositories, at))
}

/// The projects that the unclaimed repositories become, in their order.
pub open spec fn remote_part(
    locals: Seq<LocalProjectView>,
    repositories: Seq<RepositoryView>,
) -> Seq<ProjectView> {
    unclaimed(
        repositories,
        claimed_after(locals, repositories, locals.len() as int),
    ).map_values(|repository: RepositoryView| remote_entry(repository))
}

/// A position that a local project points at is the first match of its
/// primary remote, and so a position among the repositories.
proof fn lemma_target_in_range(
    locals: Seq<LocalProjectView>,
    repositories: Seq<RepositoryView>,
    at: int,
)
    ensures
        target(locals[at], repositories) matches Some(j) ==> 0 <= j < repositories.len(),
{
    match target(locals[at], repositories) {
        Some(j) => {
            let remote = crate::project::primary_remote(locals[at]).unwrap();
            assert(first_match(repositories, remote) == Some(j));
            assert(is_first_match(repositories, remote, j));
        },
        None => {},
    }
}

/// What is left unclaimed is made of repositories that were given and whose
/// id is not claimed.
proof fn lemma_unclaimed_members(repositories: Seq<RepositoryView>, claimed: Set<u64>)
    ensures
        unclaimed(repositories, claimed).len() <= repositories.len(),
        forall|k: int|
            0 <= k < unclaimed(repositories, claimed).len() ==> repositories.contains(
                #[trigger] unclaimed(repositories, claimed)[k],
            ) && !claimed.contains(unclaimed(repositories, claimed)[k].id),
    decreases repositories.len(),
{
    if repositories.len() > 0 {
        let rest = repositories.drop_last();
        lemma_unclaimed_members(rest, claimed);
        let left = unclaimed(repositories, claimed);
        assert forall|k: int| 0 <= k < left.len() implies repositories.contains(#[trigger] left[k])
            && !claimed.contains(left[k].id) by {
            if k < unclaimed(rest, claimed).len() {
                let r = unclaimed(rest, claimed)[k];
                assert(left[k] == r);
                assert(rest.contains(r));
                let j = choose|j: int| 0 <= j < rest.len() && rest[j] == r;
                assert(repositories[j] == r);
            } else {
                assert(left[k] == repositories.last());
                assert(repositories[repositories.len() - 1] == left[k]);
            }
        }
    }
}

/// Every repository whose id is not claimed is left unclaimed.
proof fn lemma_unclaimed_complete(repositories: Seq<RepositoryView>, claimed: Set<u64>, j: int)
    requires
        0 <= j < repositories.len(),
        !claimed.contains(repositories[j].id),
    ensures
        unclaimed(repositories, claimed).contains(repositories[j]),
    decreases repositories.len(),
{
    let rest = repositories.drop_last();
    let left = unclaimed(repositories, claimed);
    if j == repositories.len() - 1 {
        assert(left[left.len() - 1] == repositories[j]);
    } else {
        lemma_unclaimed_complete(rest, claimed, j);
        let k = choose|k: int|
            0 <= k < unclaimed(rest, claimed).len() && unclaimed(rest, claimed)[k] == rest[j];
        assert(left[k] == repositories[j]);
    }
}

/// Among repositories of distinct ids, what is left unclaimed has distinct
/// ids too.
proof fn lemma_unclaimed_distinct(repositories: Seq<RepositoryView>, claimed: Set<u64>)
    requires
        distinct_ids(repositories),
    ensures
        distinct_ids(unclaimed(repositories, claimed)),
    decreases repositories.len(),
{
    if repositories.len() > 0 {
        let rest = repositories.drop_last();
        assert(distinct_ids(rest)) by {
            assert forall|i: int, j: int| 0 <= i < j < rest.len() implies (#[trigger] rest[i]).id
                != (#[trigger] rest[j]).id by {
                assert(rest[i] == repositories[i]);
                assert(rest[j] == repositories[j]);
            }
        }
        lemma_unclaimed_distinct(rest, claimed);
        lemma_unclaimed_members(rest, claimed);
        let left = unclaimed(repositories, claimed);
        let inner = unclaimed(rest, claimed);
        assert forall|i: int, j: int| 0 <= i < j < left.len() implies (#[trigger] left[i]).id != (
        #[trigger] left[j]).id by {
            if j < inner.len() {
                assert(left[i] == inner[i]);
                assert(left[j] == inner[j]);
            } else {
                assert(left[j] == repositories.last());
                assert(left[i] == inner[i]);
                assert(rest.contains(inner[i]));
                let at = choose|at: int| 0 <= at < rest.len() && rest[at] == inner[i];
                assert(repositories[at] == inner[i]);
                assert(repositories[at].id != repositories[repositories.len() - 1].id);
            }
        }
    }
}

/// Claiming an id that no repository has changes nothing of what is left.
proof fn lemma_unclaimed_same(repositories: Seq<RepositoryView>, claimed: Set<u64>, id: u64)
    requires
        forall|j: int| 0 <= j < repositories.len() ==> (#[trigger] repositories[j]).id != id,
    ensures
        unclaimed(repositories, claimed.insert(id)) == unclaimed(repositories, claimed),
    decreases repositories.len(),
{
    if repositories.len() > 0 {
        let rest = repositories.drop_last();
        assert forall|j: int| 0 <= j < rest.len() implies (#[trigger] rest[j]).id != id by {
            assert(rest[j] == repositories[j]);
        }
        lemma_unclaimed_same(rest, claimed, id);
        assert(repositories[repositories.len() - 1].id != id);
    }
}

/// Among repositories of distinct ids, claiming the id of one that was
/// unclaimed leaves exactly one fewer.
proof fn lemma_unclaimed_insert(repositories: Seq<RepositoryView>, claimed: Set<u64>, j: int)
    requires
        distinct_ids(repositories),
        0 <= j < repositories.len(),
        !claimed.contains(repositories[j].id),
    ensures
        unclaimed(repositories, claimed.insert(repositories[j].id)).len() + 1 == unclaimed(
            repositories,
            claimed,
        ).len(),
    decreases repositories.len(),
{
    let rest = repositories.drop_last();
    let id = repositories[j].id;
    let last = repositories.len() - 1;
    if j == last {
        assert forall|k: int| 0 <= k < rest.len() implies (#[trigger] rest[k]).id != id by {
            assert(rest[k] == repositories[k]);
            assert(repositories[k].id != repositories[last].id);
        }
        lemma_unclaimed_same(rest, claimed, id);
    } else {
        assert(distinct_ids(rest)) by {
            assert forall|a: int, b: int| 0 <= a < b < rest.len() implies (#[trigger] rest[a]).id
                != (#[trigger] rest[b]).id by {
                assert(rest[a] == repositories[a]);
                assert(rest[b] == repositories[b]);
            }
        }
        assert(rest[j] == repositories[j]);
        lemma_unclaimed_insert(rest, claimed, j);
        assert(repositories[j].id != repositories[last].id);
    }
}

/// Where nothing is claimed, every repository is left.
proof fn lemma_unclaimed_nothing(repositories: Seq<RepositoryView>)
    ensures
        unclaimed(repositories, Set::empty()) == repositories,
    decreases repositories.len(),
{
    if repositories.len() > 0 {
        lemma_unclaimed_nothing(repositories.drop_last());
        assert(repositories.drop_last().push(repositories.last()) =~= repositories);
    } else {
        assert(repositories =~= Seq::empty());
    }
}

/// The matched projects of two lists set end to end are those of the one
/// and those of the other.
proof fn lemma_matched_count_sum(front: Seq<ProjectView>, back: Seq<ProjectView>)
    ensures
        matched_count(front + back) == matched_count(front) + matched_count(back),
    decreases back.len(),
{
    if back.len() == 0 {
        assert(front + back =~= front);
    } else {
        lemma_matched_count_sum(front, back.drop_last());
        assert((front + back).drop_last() =~= front + back.drop_last());
        assert((front + back).last() == back.last());
    }
}

/// Among repositories of distinct ids, each local project that is given a
/// repository takes one away from those that are left: after `count` local
/// projects, the matched and the unclaimed together are all repositories.
proof fn lemma_claims_counted(
    locals: Seq<LocalProjectView>,
    repositories: Seq<RepositoryView>,
    count: int,
)
    requires
        distinct_ids(repositories),
        0 <= count <= locals.len(),
    ensures
        matched_count(local_part(locals, repositories).take(count)) + unclaimed(
            repositories,
            claimed_after(locals, repositories, count),
        ).len() == repositories.len(),
    decreases count,
{
    let part = local_part(locals, repositories);
    if count == 0 {
        assert(claimed_after(locals, repositories, 0) =~= Set::<u64>::empty());
        lemma_unclaimed_nothing(repositories);
        assert(part.take(0) =~= Seq::empty());
    } else {
        let n = count - 1;
        lemma_claims_counted(locals, repositories, n);
        lemma_claimed_step(locals, repositories, n);
        lemma_target_in_range(locals, repositories, n);
        assert(part.take(count).drop_last() =~= part.take(n));
        assert(part.take(count).last() == local_entry(locals, repositories, n));
        match assigned(locals, repositories, n) {
            Some(j) => {
                lemma_unclaimed_insert(
                    repositories,
                    claimed_after(locals, repositories, n),
                    j,
                );
            },
            None => {
                match target(locals[n], repositories) {
                    Some(j) => {
                        let before = claimed_after(locals, repositories, n);
                        assert(before.insert(repositories[j].id) =~= before);
                    },
                    None => {},
                }
            },
        }
    }
}

/// Every project of a merged view holds at least one side.
pub proof fn lemma_merged_projects_well_formed(
    locals: Seq<LocalProjectView>,
    repositories: Seq<RepositoryView>,
)
    ensures
        forall|k: int|
            0 <= k < reconciled(locals, repositories).len() ==> (#[trigger] reconciled(
                locals,
                repositories,
            )[k]).well_formed(),
{
}

/// Every local project appears in exactly one project of the merged view:
/// the one at its own position. The projects that follow hold no local
/// side, and each holds a remote one.
pub proof fn lemma_locals_appear_once(
    locals: Seq<LocalProjectView>,
    repositories: Seq<RepositoryView>,
)
    ensures
        reconciled(locals, repositories).len() >= locals.len(),
        forall|i: int|
            0 <= i < locals.len() ==> (#[trigger] reconciled(locals, repositories)[i]).local
                == Some(locals[i]),
        forall|k: int|
            locals.len() <= k < reconciled(locals, repositories).len() ==> (#[trigger] reconciled(
                locals,
                repositories,
            )[k]).local is None && reconciled(locals, repositories)[k].remote is Some,
{
}

/// Among repositories of distinct ids, every repository appears in exactly
/// one project of the merged view: there is a project that holds it, and no
/// two projects hold it.
pub proof fn lemma_remotes_appear_once(
    locals: Seq<LocalProjectView>,
    repositories: Seq<RepositoryView>,
    j: int,
)
    requires
        distinct_ids(repositories),
        0 <= j < repositories.len(),
    ensures
        exists|k: int|
            0 <= k < reconciled(locals, repositories).len() && (#[trigger] reconciled(
                locals,
                repositories,
            )[k]).remote == Some(repositories[j]),
        forall|a: int, b: int|
            0 <= a < reconciled(locals, repositories).len() && 0 <= b < reconciled(
                locals,
                repositories,
            ).len() && (#[trigger] reconciled(locals, repositories)[a]).remote == Some(
                repositories[j],
            ) && (#[trigger] reconciled(locals, repositories)[b]).remote == Some(repositories[j])
                ==> a == b,
{
    let merged = reconciled(locals, repositories);
    let count = locals.len() as int;
    let claimed = claimed_after(locals, repositories, count);
    let left = unclaimed(repositories, claimed);
    let wanted = repositories[j];
    lemma_unclaimed_members(repositories, claimed);
    lemma_unclaimed_distinct(repositories, claimed);
    // There is a project that holds it.
    if claimed.contains(wanted.id) {
        let first = lemma_first_claim(locals, repositories, count, wanted.id);
        lemma_target_in_range(locals, repositories, first);
        let at = target(locals[first], repositories).unwrap();
        if at < j {
            assert(repositories[at].id != repositories[j].id);
        }
        if j < at {
            assert(repositories[j].id != repositories[at].id);
        }
        assert(!claimed_after(locals, repositories, first).contains(wanted.id)) by {
            if claimed_after(locals, repositories, first).contains(wanted.id) {
                let earlier = choose|earlier: int|
                    0 <= earlier < first && #[trigger] points_at(
                        locals,
                        repositories,
                        earlier,
                        wanted.id,
                    );
                assert(false);
            }
        }
        assert(merged[first].remote == Some(wanted));
    } else {
        lemma_unclaimed_complete(repositories, claimed, j);
        let k = choose|k: int| 0 <= k < left.len() && left[k] == wanted;
        assert(merged[count + k].remote == Some(wanted));
    }
    // No two projects hold it.
    assert forall|a: int, b: int|
        0 <= a < merged.len() && 0 <= b < merged.len() && (#[trigger] merged[a]).remote == Some(
            wanted,
        ) && (#[trigger] merged[b]).remote == Some(wanted) implies a == b by {
        if a != b {
            let low = if a < b {
                a
            } else {
                b
            };
            let high = if a < b {
                b
            } else {
                a
            };
            if high < count {
                // Two local projects were given it: the later was not.
                assert(merged[low] == local_entry(locals, repositories, low));
                assert(merged[high] == local_entry(locals, repositories, high));
                let given = assigned(locals, repositories, low).unwrap();
                assert(repositories[given] == wanted);
                assert(points_at(locals, repositories, low, wanted.id));
                assert(claimed_after(locals, repositories, high).contains(wanted.id));
                assert(false);
            } else if low < count {
                // A local project was given it: it was not left unclaimed.
                assert(merged[low] == local_entry(locals, repositories, low));
                let given = assigned(locals, repositories, low).unwrap();
                assert(repositories[given] == wanted);
                assert(points_at(locals, repositories, low, wanted.id));
                assert(claimed.contains(wanted.id));
                assert(merged[high] == remote_entry(left[high - count]));
                assert(left[high - count] == wanted);
                assert(false);
            } else {
                // It was left unclaimed twice: ids are distinct there.
                assert(merged[low] == remote_entry(left[low - count]));
                assert(merged[high] == remote_entry(left[high - count]));
                assert(left[low - count].id != left[high - count].id);
                assert(false);
            }
        }
    }
}

/// The first local project among the first `count` that points at a
/// claimed id.
proof fn lemma_first_claim(
    locals: Seq<LocalProjectView>,
    repositories: Seq<RepositoryView>,
    count: int,
    id: u64,
) -> (first: int)
    requires
        claimed_after(locals, repositories, count).contains(id),
    ensures
        0 <= first < count,
        points_at(locals, repositories, first, id),
        forall|earlier: int|
            0 <= earlier < first ==> !#[trigger] points_at(locals, repositories, earlier, id),
    decreases count,
{
    let at = choose|at: int| 0 <= at < count && #[trigger] points_at(locals, repositories, at, id);
    if exists|earlier: int|
        0 <= earlier < at && #[trigger] points_at(locals, repositories, earlier, id) {
        assert(claimed_after(locals, repositories, at).contains(id));
        lemma_first_claim(locals, repositories, at, id)
    } else {
        at
    }
}

/// Among repositories of distinct ids, a merged view holds as many projects
/// as there are local projects and repositories together, less the matched
/// pairs, which hold one of each.
pub proof fn lemma_merged_length(locals: Seq<LocalProjectView>, repositories: Seq<RepositoryView>)
    requires
        distinct_ids(repositories),
    ensures
        reconciled(locals, repositories).len() == locals.len() + repositories.len()
            - matched_count(reconciled(locals, repositories)),
        matched_count(reconciled(locals, repositories)) <= locals.len(),
        matched_count(reconciled(locals, repositories)) <= repositories.len(),
{
    let head = local_part(locals, repositories);
    let tail = remote_part(locals, repositories);
    assert(reconciled(locals, repositories) == head + tail);
    lemma_matched_count_sum(head, tail);
    lemma_none_matched(tail);
    lemma_claims_counted(locals, repositories, locals.len() as int);
    assert(head.take(locals.len() as int) =~= head);
    lemma_matched_count_bound(head);
}

/// Projects without a local side are not matched.
proof fn lemma_none_matched(projects: Seq<ProjectView>)
    requires
        forall|k: int| 0 <= k < projects.len() ==> (#[trigger] projects[k]).local is None,
    ensures
        matched_count(projects) == 0,
    decreases projects.len(),
{
    if projects.len() > 0 {
        let rest = projects.drop_last();
        assert forall|k: int| 0 <= k < rest.len() implies (#[trigger] rest[k]).local is None by {
            assert(rest[k] == projects[k]);
        }
        lemma_none_matched(rest);
        assert(projects[projects.len() - 1].local is None);
    }
}

/// There are no more matched projects than projects.
proof fn lemma_matched_count_bound(projects: Seq<ProjectView>)
    ensures
        matched_count(projects) <= projects.len(),
    decreases projects.len(),
{
    if projects.len() > 0 {
        lemma_matched_count_bound(projects.drop_last());
    }
}

} // verus!
