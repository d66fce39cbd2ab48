//! The head commit of each local branch, by branch name.

use vstd::prelude::*;

verus! {

/// A branch name with the id of the commit its head points at.
#[derive(Debug)]
pub struct BranchHead {
    pub branch: String,
    pub commit: String,
}

impl Clone for BranchHead {
    fn clone(&self) -> (copy: Self)
        ensures
            copy.branch@ == self.branch@,
            copy.commit@ == self.commit@,
    {
        BranchHead { branch: self.branch.clone(), commit: self.commit.clone() }
    }
}

/// A mapping from branch names to commit ids in which no name occurs twice.
#[derive(Debug)]
pub struct BranchCommits {
    entries: Vec<BranchHead>,
}

/// Whether no branch name occurs twice among `entries`.
pub open spec fn distinct_branches(entries: Seq<BranchHead>) -> bool {
    forall|i: int, j: int|
        0 <= i < j < entries.len() ==> (#[trigger] entries[i]).branch@ != (
        #[trigger] entries[j]).branch@
}

/// Whether `entries` holds an entry for `branch`.
pub open spec fn has_branch(entries: Seq<BranchHead>, branch: Seq<char>) -> bool {
    exists|i: int| 0 <= i < entries.len() && (#[trigger] entries[i]).branch@ == branch
}

/// The position of an entry for `branch` among `entries`.
pub open spec fn branch_index(entries: Seq<BranchHead>, branch: Seq<char>) -> int {
    choose|i: int| 0 <= i < entries.len() && (#[trigger] entries[i]).branch@ == branch
}

/// The mapping that a list of entries with distinct names stands for.
pub open spec fn mapping_of(entries: Seq<BranchHead>) -> Map<Seq<char>, Seq<char>> {
    Map::new(
        |branch: Seq<char>| has_branch(entries, branch),
        |branch: Seq<char>| entries[branch_index(entries, branch)].commit@,
    )
}

impl View for BranchCommits {
    type V = Map<Seq<char>, Seq<char>>;

    closed spec fn view(&self) -> Map<Seq<char>, Seq<char>> {
        mapping_of(self.entries@)
    }
}

impl DeepView for BranchCommits {
    type V = Map<Seq<char>, Seq<char>>;

    open spec fn deep_view(&self) -> Map<Seq<char>, Seq<char>> {
        self@
    }
}

/// Among distinct names, the entry at a position is the one found for its
/// name.
proof fn lemma_entry_found(entries: Seq<BranchHead>, i: int)
    requires
        distinct_branches(entries),
        0 <= i < entries.len(),
    ensures
        has_branch(entries, entries[i].branch@),
        branch_index(entries, entries[i].branch@) == i,
        mapping_of(entries)[entries[i].branch@] == entries[i].commit@,
{
    let j = branch_index(entries, entries[i].branch@);
    assert(0 <= j < entries.len() && entries[j].branch@ == entries[i].branch@);
    if j < i {
        assert(entries[j].branch@ != entries[i].branch@);
    }
    if i < j {
        assert(entries[i].branch@ != entries[j].branch@);
    }
}

impl BranchCommits {
    #[verifier::type_invariant]
    spec fn well_formed(&self) -> bool {
        distinct_branches(self.entries@)
    }

    /// The empty mapping.
    pub fn new() -> (commits: Self)
        ensures
            commits@ == Map::<Seq<char>, Seq<char>>::empty(),
    {
        let commits = BranchCommits { entries: Vec::new() };
        assert(commits@ =~= Map::<Seq<char>, Seq<char>>::empty());
        commits
    }

    /// The position of the entry for `branch`, if there is one.
    fn position(&self, branch: &str) -> (at: Option<usize>)
        ensures
            match at {
                Some(i) => i < self.entries@.len() && self.entries@[i as int].branch@ == branch@,
                None => !has_branch(self.entries@, branch@),
            },
    {
        let wanted: String = branch.to_string();
        let mut i: usize = 0;
        while i < self.entries.len()
            invariant
                wanted@ == branch@,
                i <= self.entries@.len(),
                forall|k: int| 0 <= k < i ==> (#[trigger] self.entries@[k]).branch@ != branch@,
            decreases self.entries@.len() - i,
        {
            if self.entries[i].branch == wanted {
                return Some(i);
            }
            i += 1;
        }
        None
    }

    /// The commit recorded for `branch`, if one is.
    pub fn get(&self, branch: &str) -> (commit: Option<&String>)
        ensures
            match commit {
                Some(c) => self@.contains_key(branch@) && c@ == self@[branch@],
                None => !self@.contains_key(branch@),
            },
    {
        proof {
            use_type_invariant(self);
        }
        match self.position(branch) {
            Some(i) => {
                proof {
                    lemma_entry_found(self.entries@, i as int);
                }
                Some(&self.entries[i].commit)
            },
            None => None,
        }
    }

    /// Whether a commit is recorded for `branch`.
    pub fn contains_key(&self, branch: &str) -> (found: bool)
        ensures
            found == self@.contains_key(branch@),
    {
        self.position(branch).is_some()
    }

    /// Records `commit` as the head of `branch`, in place of what was
    /// recorded for it before.
    pub fn insert(&mut self, branch: String, commit: String)
        ensures
            final(self)@ == old(self)@.insert(branch@, commit@),
    {
        proof {
            use_type_invariant(&*self);
        }
        let ghost before = self.entries@;
        let ghost key = branch@;
        let ghost value = commit@;
        let at = self.position(branch.as_str());
        let mut entries: Vec<BranchHead> = Vec::new();
        std::mem::swap(&mut entries, &mut self.entries);
        match at {
            Some(i) => {
                entries.set(i, BranchHead { branch, commit });
                proof {
                    let after = entries@;
                    assert(distinct_branches(after)) by {
                        assert forall|a: int, b: int| 0 <= a < b < after.len() implies (
                        #[trigger] after[a]).branch@ != (#[trigger] after[b]).branch@ by {
                            assert(after[a].branch@ == before[a].branch@);
                            assert(after[b].branch@ == before[b].branch@);
                        }
                    }
                    assert forall|k: Seq<char>| has_branch(after, k) == (has_branch(before, k) || k
                        == key) by {
                        if has_branch(after, k) {
                            let j = branch_index(after, k);
                            assert(before[j].branch@ == k);
                        }
                        if has_branch(before, k) {
                            let j = branch_index(before, k);
                            assert(after[j].branch@ == k);
                        }
                        if k == key {
                            assert(after[i as int].branch@ == k);
                        }
                    }
                    assert forall|k: Seq<char>| has_branch(after, k) implies mapping_of(after)[k]
                        == before_or(before, key, value, k) by {
                        let j = branch_index(after, k);
                        lemma_entry_found(after, j);
                        if j != i {
                            assert(before[j] == after[j]);
                            lemma_entry_found(before, j);
                        }
                    }
                    assert(mapping_of(after) =~= mapping_of(before).insert(key, value));
                }
            },
            None => {
                entries.push(BranchHead { branch, commit });
                proof {
                    let after = entries@;
                    let last = before.len() as int;
                    assert(distinct_branches(after)) by {
                        assert forall|a: int, b: int| 0 <= a < b < after.len() implies (
                        #[trigger] after[a]).branch@ != (#[trigger] after[b]).branch@ by {
                            assert(after[a] == before[a]);
                            if b < last {
                                assert(after[b] == before[b]);
                            }
                        }
                    }
                    assert forall|k: Seq<char>| has_branch(after, k) == (has_branch(before, k) || k
                        == key) by {
                        if has_branch(after, k) {
                            let j = branch_index(after, k);
                            if j < last {
                                assert(before[j].branch@ == k);
                            }
                        }
                        if has_branch(before, k) {
                            let j = branch_index(before, k);
                            assert(after[j].branch@ == k);
                        }
                        if k == key {
                            assert(after[last].branch@ == k);
                        }
                    }
                    assert forall|k: Seq<char>| has_branch(after, k) implies mapping_of(after)[k]
                        == before_or(before, key, value, k) by {
                        let j = branch_index(after, k);
                        lemma_entry_found(after, j);
                        if j < last {
                            assert(before[j] == after[j]);
                            lemma_entry_found(before, j);
                        }
                    }
                    assert(mapping_of(after) =~= mapping_of(before).insert(key, value));
                }
            },
        }
        self.entries = entries;
    }

    /// The entries of the mapping, one for each branch.
    pub fn entries(&self) -> (entries: &Vec<BranchHead>)
        ensures
            distinct_branches(entries@),
            mapping_of(entries@) == self@,
    {
        proof {
            use_type_invariant(self);
        }
        &self.entries
    }
}

/// What `key` maps to once `value` is recorded for `changed` over `before`.
spec fn before_or(
    before: Seq<BranchHead>,
    changed: Seq<char>,
    value: Seq<char>,
    key: Seq<char>,
) -> Seq<char> {
    if key == changed {
        value
    } else {
        mapping_of(before)[key]
    }
}

impl Clone for BranchCommits {
    fn clone(&self) -> (copy: Self)
        ensures
            copy@ == self@,
    {
        proof {
            use_type_invariant(self);
        }
        let entries = self.entries.clone();
        proof {
            let before = self.entries@;
            let after = entries@;
            assert forall|i: int| 0 <= i < after.len() implies (#[trigger] after[i]).branch@
                == before[i].branch@ && after[i].commit@ == before[i].commit@ by {
                assert(cloned::<BranchHead>(before[i], after[i]));
            }
            assert(distinct_branches(after));
            assert forall|k: Seq<char>| has_branch(after, k) == has_branch(before, k) by {
                if has_branch(after, k) {
                    let j = branch_index(after, k);
                    assert(before[j].branch@ == k);
                }
                if has_branch(before, k) {
                    let j = branch_index(before, k);
                    assert(after[j].branch@ == k);
                }
            }
            assert forall|k: Seq<char>| has_branch(after, k) implies mapping_of(after)[k]
                == mapping_of(before)[k] by {
                let j = branch_index(after, k);
                lemma_entry_found(after, j);
                lemma_entry_found(before, j);
            }
            assert(mapping_of(after) =~= mapping_of(before));
        }
        BranchCommits { entries }
    }
}

} // verus!
