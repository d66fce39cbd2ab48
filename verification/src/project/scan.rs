//! Turning what was read from the directories of a root into local projects.

use crate::project::branches::BranchCommits;
use crate::project::status::FileStatus;
use crate::project::url::starts_with;
use crate::project::{
    Error, FileInfo, FileInfoView, GitInfo, GitInfoView, LocalProject, LocalProjectView,
    RemoteInfo, RemoteInfoView, RemoteUrlType,
};
use std::path::PathBuf;
use vstd::prelude::*;
use vstd::string::*;

verus! {

/// A remote by name, with its URL where git could give one.
#[derive(Debug)]
pub struct RemoteScan {
    pub name: String,
    pub url: Option<String>,
}

/// What a [`RemoteScan`] holds.
pub struct RemoteScanView {
    pub name: Seq<char>,
    pub url: Option<Seq<char>>,
}

impl View for RemoteScan {
    type V = RemoteScanView;

    open spec fn view(&self) -> RemoteScanView {
        RemoteScanView { name: self.name@, url: self.url.deep_view() }
    }
}

impl DeepView for RemoteScan {
    type V = RemoteScanView;

    open spec fn deep_view(&self) -> RemoteScanView {
        self@
    }
}

/// One entry of the status list, with the flag word git gave for it.
#[derive(Debug)]
pub struct StatusScan {
    pub path: Option<String>,
    pub status: u32,
}

/// What a [`StatusScan`] holds.
pub struct StatusScanView {
    pub path: Option<Seq<char>>,
    pub status: u32,
}

impl View for StatusScan {
    type V = StatusScanView;

    open spec fn view(&self) -> StatusScanView {
        StatusScanView { path: self.path.deep_view(), status: self.status }
    }
}

impl DeepView for StatusScan {
    type V = StatusScanView;

    open spec fn deep_view(&self) -> StatusScanView {
        self@
    }
}

/// A local branch by name, with the id of its head commit where the name
/// could be resolved.
#[derive(Debug)]
pub struct BranchScan {
    pub name: String,
    pub commit: Option<String>,
}

/// What a [`BranchScan`] holds.
pub struct BranchScanView {
    pub name: Seq<char>,
    pub commit: Option<Seq<char>>,
}

impl View for BranchScan {
    type V = BranchScanView;

    open spec fn view(&self) -> BranchScanView {
        BranchScanView { name: self.name@, commit: self.commit.deep_view() }
    }
}

impl DeepView for BranchScan {
    type V = BranchScanView;

    open spec fn deep_view(&self) -> BranchScanView {
        self@
    }
}

/// What was read from an opened repository. A part that could not be read
/// is `None`.
#[derive(Debug)]
pub struct RepositoryScan {
    pub remotes: Option<Vec<RemoteScan>>,
    pub statuses: Option<Vec<StatusScan>>,
    pub branches: Option<Vec<BranchScan>>,
}

/// What a [`RepositoryScan`] holds.
pub struct RepositoryScanView {
    pub remotes: Option<Seq<RemoteScanView>>,
    pub statuses: Option<Seq<StatusScanView>>,
    pub branches: Option<Seq<BranchScanView>>,
}

impl View for RepositoryScan {
    type V = RepositoryScanView;

    open spec fn view(&self) -> RepositoryScanView {
        RepositoryScanView {
            remotes: self.remotes.deep_view(),
            statuses: self.statuses.deep_view(),
            branches: self.branches.deep_view(),
        }
    }
}

impl DeepView for RepositoryScan {
    type V = RepositoryScanView;

    open spec fn deep_view(&self) -> RepositoryScanView {
        self@
    }
}

/// One child of a root directory: whether it is a directory, whether it
/// holds a `.git` directory, and what was read from the repository where it
/// could be opened.
#[derive(Debug)]
pub struct DirectoryEntry {
    pub path: PathBuf,
    pub is_dir: bool,
    pub has_git_dir: bool,
    pub repository: Option<RepositoryScan>,
}

/// What a [`DirectoryEntry`] holds.
pub struct DirectoryEntryView {
    pub path: PathBuf,
    pub is_dir: bool,
    pub has_git_dir: bool,
    pub repository: Option<RepositoryScanView>,
}

impl View for DirectoryEntry {
    type V = DirectoryEntryView;

    open spec fn view(&self) -> DirectoryEntryView {
        DirectoryEntryView {
            path: self.path,
            is_dir: self.is_dir,
            has_git_dir: self.has_git_dir,
            repository: self.repository.deep_view(),
        }
    }
}

impl DeepView for DirectoryEntry {
    type V = DirectoryEntryView;

    open spec fn deep_view(&self) -> DirectoryEntryView {
        self@
    }
}

/// The first four characters of a web URL: `http`.
pub open spec fn web_prefix() -> Seq<char> {
    seq!['h', 't', 't', 'p']
}

/// The first four characters of an SSH URL: `git@`.
pub open spec fn ssh_prefix() -> Seq<char> {
    seq!['g', 'i', 't', '@']
}

/// How a URL is written, told by its first four characters; `None` where
/// they are neither `http` nor `git@`.
pub open spec fn url_type_of(url: Seq<char>) -> Option<RemoteUrlType> {
    if web_prefix().is_prefix_of(url) {
        Some(RemoteUrlType::HTTP)
    } else if ssh_prefix().is_prefix_of(url) {
        Some(RemoteUrlType::SSH)
    } else {
        None
    }
}

/// The remote that a scanned remote gives: none without a URL, and none
/// where the URL is of neither kind.
pub open spec fn remote_of(scan: RemoteScanView) -> Option<RemoteInfoView> {
    match scan.url {
        Some(url) => match url_type_of(url) {
            Some(url_type) => Some(RemoteInfoView { name: scan.name, url, url_type }),
            None => None,
        },
        None => None,
    }
}

/// The remotes that scanned remotes give, in their order.
pub open spec fn remotes_of(scans: Seq<RemoteScanView>) -> Seq<RemoteInfoView>
    decreases scans.len(),
{
    if scans.len() == 0 {
        Seq::empty()
    } else {
        match remote_of(scans.last()) {
            Some(remote) => remotes_of(scans.drop_last()).push(remote),
            None => remotes_of(scans.drop_last()),
        }
    }
}

/// Whether every flag word of a status list stands for a state.
pub open spec fn statuses_known(statuses: Seq<StatusScanView>) -> bool {
    forall|i: int|
        0 <= i < statuses.len() ==> FileStatus::of_bits((#[trigger] statuses[i]).status) is Some
}

/// The status list that scanned statuses give: entry by entry, the same
/// path with the state of the flag word.
pub open spec fn changes_of(statuses: Seq<StatusScanView>) -> Seq<FileInfoView> {
    statuses.map_values(
        |scan: StatusScanView|
            FileInfoView { path: scan.path, status: FileStatus::of_bits(scan.status).unwrap() },
    )
}

/// The head commits that scanned branches give: each resolved branch maps
/// to its commit, a later one of the same name in place of an earlier one.
pub open spec fn commits_of(branches: Seq<BranchScanView>) -> Map<Seq<char>, Seq<char>>
    decreases branches.len(),
{
    if branches.len() == 0 {
        Map::empty()
    } else {
        match branches.last().commit {
            Some(commit) => commits_of(branches.drop_last()).insert(branches.last().name, commit),
            None => commits_of(branches.drop_last()),
        }
    }
}

/// What is recorded of a repository: a part that could not be read counts
/// as empty.
pub open spec fn git_info_of(
    scan: RepositoryScanView,
    branches: Seq<BranchScanView>,
) -> GitInfoView {
    GitInfoView {
        changes: match scan.statuses {
            Some(statuses) => changes_of(statuses),
            None => Seq::empty(),
        },
        remotes: match scan.remotes {
            Some(remotes) => remotes_of(remotes),
            None => Seq::empty(),
        },
        branch_commit: commits_of(branches),
    }
}

/// The local project that a child of the root gives. A child that is no
/// directory gives none; a directory without `.git` gives a project without
/// git information; a repository that could not be opened, or whose branches
/// could not be listed, gives none.
pub open spec fn project_of(entry: DirectoryEntryView) -> Option<LocalProjectView> {
    if !entry.is_dir {
        None
    } else if !entry.has_git_dir {
        Some(LocalProjectView { path: entry.path, git: None })
    } else {
        match entry.repository {
            Some(scan) => match scan.branches {
                Some(branches) => Some(
                    LocalProjectView { path: entry.path, git: Some(git_info_of(scan, branches)) },
                ),
                None => None,
            },
            None => None,
        }
    }
}

/// The local projects that the children of a root give, in their order.
pub open spec fn projects_of(entries: Seq<DirectoryEntryView>) -> Seq<LocalProjectView>
    decreases entries.len(),
{
    if entries.len() == 0 {
        Seq::empty()
    } else {
        match project_of(entries.last()) {
            Some(project) => projects_of(entries.drop_last()).push(project),
            None => projects_of(entries.drop_last()),
        }
    }
}

/// Whether the status list of this child is read, and so has to be known.
pub open spec fn statuses_read(entry: DirectoryEntryView) -> bool {
    entry.is_dir && entry.has_git_dir && entry.repository is Some
        && entry.repository.unwrap().statuses is Some
}

/// Whether every status list that is read among `entries` holds known flag
/// words only.
pub open spec fn scan_known(entries: Seq<DirectoryEntryView>) -> bool {
    forall|i: int|
        0 <= i < entries.len() && statuses_read(#[trigger] entries[i]) ==> statuses_known(
            entries[i].repository.unwrap().statuses.unwrap(),
        )
}

/// The names among the entries of a branch listing, in their order. An
/// entry without a name is one that could not be read.
pub open spec fn names_of(listing: Seq<Option<Seq<char>>>) -> Seq<Seq<char>>
    decreases listing.len(),
{
    if listing.len() == 0 {
        Seq::empty()
    } else {
        match listing.last() {
            Some(name) => names_of(listing.drop_last()).push(name),
            None => names_of(listing.drop_last()),
        }
    }
}

/// How `url` is written: `HTTP` where it begins with `http`, `SSH` where it
/// begins with `git@`, `None` otherwise.
pub fn remote_url_type(url: &str) -> (url_type: Option<RemoteUrlType>)
    ensures
        url_type == url_type_of(url@),
{
    proof {
        reveal_strlit("http");
        reveal_strlit("git@");
        assert("http"@ =~= web_prefix());
        assert("git@"@ =~= ssh_prefix());
    }
    if starts_with(url, "http") {
        Some(RemoteUrlType::HTTP)
    } else if starts_with(url, "git@") {
        Some(RemoteUrlType::SSH)
    } else {
        None
    }
}

/// The remotes of a repository, from what was read of them.
fn remotes_from(scans: &Vec<RemoteScan>) -> (remotes: Vec<RemoteInfo>)
    ensures
        remotes.deep_view() == remotes_of(scans.deep_view()),
{
    let mut remotes: Vec<RemoteInfo> = Vec::new();
    let mut i: usize = 0;
    assert(scans.deep_view().take(0) =~= Seq::empty());
    while i < scans.len()
        invariant
            i <= scans@.len(),
            remotes.deep_view() == remotes_of(scans.deep_view().take(i as int)),
        decreases scans@.len() - i,
    {
        let ghost before = remotes.deep_view();
        let scan = &scans[i];
        proof {
            let taken = scans.deep_view().take(i + 1);
            assert(taken.drop_last() =~= scans.deep_view().take(i as int));
            assert(taken.last() == scan@);
        }
        match &scan.url {
            Some(url) => match remote_url_type(url.as_str()) {
                Some(url_type) => {
                    let remote = RemoteInfo { name: scan.name.clone(), url: url.clone(), url_type };
                    remotes.push(remote);
                    assert(remotes.deep_view() =~= before.push(remote@));
                },
                None => {},
            },
            None => {},
        }
        i += 1;
    }
    assert(scans.deep_view().take(scans@.len() as int) =~= scans.deep_view());
    remotes
}

/// The status list of a repository, from what was read of it.
fn changes_from(statuses: &Vec<StatusScan>) -> (changes: Vec<FileInfo>)
    requires
        statuses_known(statuses.deep_view()),
    ensures
        changes.deep_view() == changes_of(statuses.deep_view()),
{
    let mut changes: Vec<FileInfo> = Vec::new();
    let mut i: usize = 0;
    while i < statuses.len()
        invariant
            i <= statuses@.len(),
            statuses_known(statuses.deep_view()),
            changes@.len() == i,
            forall|k: int|
                0 <= k < i ==> (#[trigger] changes@[k])@ == changes_of(statuses.deep_view())[k],
        decreases statuses@.len() - i,
    {
        let scan = &statuses[i];
        assert(statuses.deep_view()[i as int] == scan@);
        changes.push(FileInfo { path: scan.path.clone(), status: FileStatus::from(scan.status) });
        i += 1;
    }
    assert(changes.deep_view() =~= changes_of(statuses.deep_view()));
    changes
}

/// The head commits of a repository, from what was read of its branches.
fn commits_from(branches: &Vec<BranchScan>) -> (commits: BranchCommits)
    ensures
        commits@ == commits_of(branches.deep_view()),
{
    let mut commits = BranchCommits::new();
    let mut i: usize = 0;
    assert(branches.deep_view().take(0) =~= Seq::empty());
    while i < branches.len()
        invariant
            i <= branches@.len(),
            commits@ == commits_of(branches.deep_view().take(i as int)),
        decreases branches@.len() - i,
    {
        let scan = &branches[i];
        proof {
            let taken = branches.deep_view().take(i + 1);
            assert(taken.drop_last() =~= branches.deep_view().take(i as int));
            assert(taken.last() == scan@);
        }
        match &scan.commit {
            Some(commit) => {
                commits.insert(scan.name.clone(), commit.clone());
            },
            None => {},
        }
        i += 1;
    }
    assert(branches.deep_view().take(branches@.len() as int) =~= branches.deep_view());
    commits
}

/// The local project of one child of the root, if it gives one.
fn project_from(entry: &DirectoryEntry) -> (project: Option<LocalProject>)
    requires
        statuses_read(entry@) ==> statuses_known(entry@.repository.unwrap().statuses.unwrap()),
    ensures
        project.deep_view() == project_of(entry@),
{
    if !entry.is_dir {
        return None;
    }
    if !entry.has_git_dir {
        return Some(LocalProject { path: entry.path.clone(), git: None });
    }
    let scan = match &entry.repository {
        Some(scan) => scan,
        None => {
            return None;
        },
    };
    let remotes = match &scan.remotes {
        Some(remotes) => remotes_from(remotes),
        None => Vec::new(),
    };
    let changes = match &scan.statuses {
        Some(statuses) => changes_from(statuses),
        None => Vec::new(),
    };
    let branches = match &scan.branches {
        Some(branches) => branches,
        None => {
            return None;
        },
    };
    let branch_commit = commits_from(branches);
    assert(scan.remotes is None ==> remotes.deep_view() =~= Seq::empty());
    assert(scan.statuses is None ==> changes.deep_view() =~= Seq::empty());
    let git = GitInfo { changes, remotes, branch_commit };
    Some(LocalProject { path: entry.path.clone(), git: Some(git) })
}

/// The names of the local branches: those of the entries of the listing
/// that have one, in the listing's order. It never fails.
pub fn all_branch_names(branches: Vec<Option<String>>) -> (names: Result<Vec<String>, Error>)
    ensures
        names matches Ok(found) && found.deep_view() == names_of(branches.deep_view()),
{
    let mut found: Vec<String> = Vec::new();
    let mut i: usize = 0;
    assert(branches.deep_view().take(0) =~= Seq::empty());
    while i < branches.len()
        invariant
            i <= branches@.len(),
            found.deep_view() == names_of(branches.deep_view().take(i as int)),
        decreases branches@.len() - i,
    {
        let ghost before = found.deep_view();
        proof {
            let taken = branches.deep_view().take(i + 1);
            assert(taken.drop_last() =~= branches.deep_view().take(i as int));
            assert(taken.last() == branches@[i as int].deep_view());
        }
        match &branches[i] {
            Some(name) => {
                found.push(name.clone());
                assert(found.deep_view() =~= before.push(name@));
            },
            None => {},
        }
        i += 1;
    }
    assert(branches.deep_view().take(branches@.len() as int) =~= branches.deep_view());
    Ok(found)
}

/// The local projects under one root, from what was read of its children.
///
/// A root that could not be read fails with the cause. Otherwise every child
/// gives the project that [`project_of`] names, in the order of the
/// children. A flag word that stands for no state is a broken promise of the
/// caller, who has to rule it out for every status list that is read.
pub fn list_local_projects(listing: Result<Vec<DirectoryEntry>, String>) -> (projects: Result<
    Vec<LocalProject>,
    Error,
>)
    requires
        listing matches Ok(entries) ==> scan_known(entries.deep_view()),
    ensures
        match listing {
            Ok(entries) => projects matches Ok(found) && found.deep_view() == projects_of(
                entries.deep_view(),
            ),
            Err(cause) => projects matches Err(e) && e == Error::IoError(cause),
        },
{
    let entries = match listing {
        Ok(entries) => entries,
        Err(cause) => {
            return Err(Error::IoError(cause));
        },
    };
    let mut found: Vec<LocalProject> = Vec::new();
    let mut i: usize = 0;
    assert(entries.deep_view().take(0) =~= Seq::empty());
    while i < entries.len()
        invariant
            i <= entries@.len(),
            scan_known(entries.deep_view()),
            found.deep_view() == projects_of(entries.deep_view().take(i as int)),
        decreases entries@.len() - i,
    {
        let ghost before = found.deep_view();
        proof {
            let taken = entries.deep_view().take(i + 1);
            assert(taken.drop_last() =~= entries.deep_view().take(i as int));
            assert(taken.last() == entries@[i as int]@);
            assert(entries.deep_view()[i as int] == entries@[i as int]@);
        }
        match project_from(&entries[i]) {
            Some(project) => {
                found.push(project);
                assert(found.deep_view() =~= before.push(project@));
            },
            None => {},
        }
        i += 1;
    }
    assert(entries.deep_view().take(entries@.len() as int) =~= entries.deep_view());
    Ok(found)
}

} // verus!
