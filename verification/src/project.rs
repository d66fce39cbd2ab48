//! Local projects, remote repositories and their merged view.

pub mod branches;
pub mod laws;
pub mod scan;
pub mod status;
pub mod store;
pub mod url;

use crate::github::user;
use crate::github::user::{
    list_repos, repositories_of, Repository, RepositoryListing, RepositoryView,
};
use crate::project::branches::BranchCommits;
use crate::project::scan::{list_local_projects, projects_of, scan_known, DirectoryEntry};
use crate::project::status::FileStatus;
use crate::project::url::{match_remote_url, urls_match};
use std::collections::HashSet;
use std::path::PathBuf;
use vstd::prelude::*;

verus! {

/// `std::path::PathBuf`, carried through as an opaque value.
#[verifier::external_type_specification]
#[verifier::external_body]
pub struct ExPathBuf(PathBuf);

/// `PathBuf::clone` hands back a path equal to the one it was called on.
pub assume_specification[ <PathBuf as Clone>::clone ](path: &PathBuf) -> (copy: PathBuf)
    ensures
        copy == *path,
;

/// The last part of a path as text: what `Path::file_name` gives for it,
/// where that is valid Unicode; `None` for a path without a last part, and
/// for one whose last part is no valid Unicode.
pub uninterp spec fn last_part(path: PathBuf) -> Option<Seq<char>>;

/// Takes the last part of `path` with `Path::file_name` and turns it into
/// text with `OsStr::to_str`. The result is read from the path alone; what
/// it is for a given path is left to those two functions.
#[verifier::external_body]
fn file_name_of(path: &PathBuf) -> (name: Option<String>)
    ensures
        name.deep_view() == last_part(*path),
{
    match path.file_name() {
        Some(name) => match name.to_str() {
            Some(text) => Some(text.to_string()),
            None => None,
        },
        None => None,
    }
}

/// How the URL of a remote is written.
#[derive(Debug, Clone, Copy, PartialEq, Eq, Structural)]
pub enum RemoteUrlType {
    HTTP,
    SSH,
}

/// One entry of a working tree's status list.
#[derive(Debug)]
pub struct FileInfo {
    pub path: Option<String>,
    pub status: FileStatus,
}

/// What a [`FileInfo`] holds.
pub struct FileInfoView {
    pub path: Option<Seq<char>>,
    pub status: FileStatus,
}

impl View for FileInfo {
    type V = FileInfoView;

    open spec fn view(&self) -> FileInfoView {
        FileInfoView { path: self.path.deep_view(), status: self.status }
    }
}

impl DeepView for FileInfo {
    type V = FileInfoView;

    open spec fn deep_view(&self) -> FileInfoView {
        self@
    }
}

impl Clone for FileInfo {
    fn clone(&self) -> (copy: Self)
        ensures
            copy@ == self@,
    {
        FileInfo { path: self.path.clone(), status: self.status }
    }
}

/// A remote of a local repository.
#[derive(Debug)]
pub struct RemoteInfo {
    pub name: String,
    pub url: String,
    pub url_type: RemoteUrlType,
}

/// What a [`RemoteInfo`] holds.
pub struct RemoteInfoView {
    pub name: Seq<char>,
    pub url: Seq<char>,
    pub url_type: RemoteUrlType,
}

impl View for RemoteInfo {
    type V = RemoteInfoView;

    open spec fn view(&self) -> RemoteInfoView {
        RemoteInfoView { name: self.name@, url: self.url@, url_type: self.url_type }
    }
}

impl DeepView for RemoteInfo {
    type V = RemoteInfoView;

    open spec fn deep_view(&self) -> RemoteInfoView {
        self@
    }
}

impl Clone for RemoteInfo {
    fn clone(&self) -> (copy: Self)
        ensures
            copy@ == self@,
    {
        RemoteInfo { name: self.name.clone(), url: self.url.clone(), url_type: self.url_type }
    }
}

/// What was read from one local repository.
#[derive(Debug)]
pub struct GitInfo {
    pub changes: Vec<FileInfo>,
    pub remotes: Vec<RemoteInfo>,
    pub branch_commit: BranchCommits,
}

/// What a [`GitInfo`] holds.
pub struct GitInfoView {
    pub changes: Seq<FileInfoView>,
    pub remotes: Seq<RemoteInfoView>,
    pub branch_commit: Map<Seq<char>, Seq<char>>,
}

impl View for GitInfo {
    type V = GitInfoView;

    open spec fn view(&self) -> GitInfoView {
        GitInfoView {
            changes: self.changes.deep_view(),
            remotes: self.remotes.deep_view(),
            branch_commit: self.branch_commit@,
        }
    }
}

impl DeepView for GitInfo {
    type V = GitInfoView;

    open spec fn deep_view(&self) -> GitInfoView {
        self@
    }
}

impl Clone for GitInfo {
    fn clone(&self) -> (copy: Self)
        ensures
            copy@ == self@,
    {
        let changes = self.changes.clone();
        let remotes = self.remotes.clone();
        assert(changes.deep_view() =~= self.changes.deep_view());
        assert(remotes.deep_view() =~= self.remotes.deep_view());
        GitInfo { changes, remotes, branch_commit: self.branch_commit.clone() }
    }
}

/// A directory found by a scan, with what git knows of it.
#[derive(Debug)]
pub struct LocalProject {
    pub path: PathBuf,
    pub git: Option<GitInfo>,
}

/// What a [`LocalProject`] holds.
pub struct LocalProjectView {
    pub path: PathBuf,
    pub git: Option<GitInfoView>,
}

impl View for LocalProject {
    type V = LocalProjectView;

    open spec fn view(&self) -> LocalProjectView {
        LocalProjectView { path: self.path, git: self.git.deep_view() }
    }
}

impl DeepView for LocalProject {
    type V = LocalProjectView;

    open spec fn deep_view(&self) -> LocalProjectView {
        self@
    }
}

impl Clone for LocalProject {
    fn clone(&self) -> (copy: Self)
        ensures
            copy@ == self@,
    {
        LocalProject { path: self.path.clone(), git: self.git.clone() }
    }
}

/// A project of the merged view: a local project, a remote repository, or
/// one of each that were matched. It always holds at least one of them.
#[derive(Debug)]
pub struct Project {
    local: Option<LocalProject>,
    remote: Option<Repository>,
}

/// What a [`Project`] holds.
pub struct ProjectView {
    pub local: Option<LocalProjectView>,
    pub remote: Option<RepositoryView>,
}

impl ProjectView {
    /// Whether at least one side is present.
    pub open spec fn well_formed(self) -> bool {
        self.local is Some || self.remote is Some
    }

    /// Whether both sides are present.
    pub open spec fn is_matched(self) -> bool {
        self.local is Some && self.remote is Some
    }
}

impl View for Project {
    type V = ProjectView;

    closed spec fn view(&self) -> ProjectView {
        ProjectView { local: self.local.deep_view(), remote: self.remote.deep_view() }
    }
}

impl DeepView for Project {
    type V = ProjectView;

    open spec fn deep_view(&self) -> ProjectView {
        self@
    }
}

impl Clone for Project {
    fn clone(&self) -> (copy: Self)
        ensures
            copy@ == self@,
    {
        proof {
            use_type_invariant(self);
        }
        Project { local: self.local.clone(), remote: self.remote.clone() }
    }
}

impl Project {
    #[verifier::type_invariant]
    spec fn one_side_present(&self) -> bool {
        self.local is Some || self.remote is Some
    }

    /// The project of the two sides given, unless both are absent.
    pub fn new(local: Option<LocalProject>, remote: Option<Repository>) -> (project: Option<
        Project,
    >)
        ensures
            match project {
                Some(p) => p@ == (ProjectView {
                    local: local.deep_view(),
                    remote: remote.deep_view(),
                }) && p@.well_formed(),
                None => local is None && remote is None,
            },
    {
        if local.is_none() && remote.is_none() {
            None
        } else {
            Some(Project { local, remote })
        }
    }

    /// A project that is known on disk only.
    pub fn local_only(local: LocalProject) -> (project: Project)
        ensures
            project@ == (ProjectView { local: Some(local@), remote: None }),
    {
        Project { local: Some(local), remote: None }
    }

    /// A project that is known on the hosting service only.
    pub fn remote_only(remote: Repository) -> (project: Project)
        ensures
            project@ == (ProjectView { local: None, remote: Some(remote@) }),
    {
        Project { local: None, remote: Some(remote) }
    }

    /// A local project with the remote repository it was matched to.
    pub fn matched(local: LocalProject, remote: Repository) -> (project: Project)
        ensures
            project@ == (ProjectView { local: Some(local@), remote: Some(remote@) }),
    {
        Project { local: Some(local), remote: Some(remote) }
    }

    /// The local side.
    pub fn local(&self) -> (local: &Option<LocalProject>)
        ensures
            local.deep_view() == self@.local,
            self@.well_formed(),
    {
        proof {
            use_type_invariant(self);
        }
        &self.local
    }

    /// The remote side.
    pub fn remote(&self) -> (remote: &Option<Repository>)
        ensures
            remote.deep_view() == self@.remote,
            self@.well_formed(),
    {
        proof {
            use_type_invariant(self);
        }
        &self.remote
    }

    /// The name of the local project: the last part of its path, as text.
    /// A project without a local side has no local name, and neither has one
    /// whose path has no last part or one that is no valid Unicode.
    pub fn local_name(&self) -> (name: Option<String>)
        ensures
            name.deep_view() == match self@.local {
                Some(local) => last_part(local.path),
                None => None,
            },
    {
        match &self.local {
            Some(local) => file_name_of(&local.path),
            None => None,
        }
    }

    /// How many entries the status list of the local side holds; `None`
    /// where there is no local side, or no git information for it.
    pub fn number_of_changes(&self) -> (count: Option<usize>)
        ensures
            count == match self@.local {
                Some(local) => match local.git {
                    Some(git) => Some(git.changes.len() as usize),
                    None => None,
                },
                None => None,
            },
    {
        match &self.local {
            Some(local) => match &local.git {
                Some(git) => Some(git.changes.len()),
                None => None,
            },
            None => None,
        }
    }

    /// The name of the remote repository, where there is one.
    pub fn remote_name(&self) -> (name: Option<String>)
        ensures
            name.deep_view() == match self@.remote {
                Some(remote) => Some(remote.name),
                None => None,
            },
    {
        match &self.remote {
            Some(remote) => Some(remote.name.clone()),
            None => None,
        }
    }

    /// The head commits of the local branches, where git information was
    /// read for the local side.
    pub fn local_commits(&self) -> (commits: Option<BranchCommits>)
        ensures
            commits.deep_view() == match self@.local {
                Some(local) => match local.git {
                    Some(git) => Some(git.branch_commit),
                    None => None,
                },
                None => None,
            },
    {
        match &self.local {
            Some(local) => match &local.git {
                Some(git) => Some(git.branch_commit.clone()),
                None => None,
            },
            None => None,
        }
    }
}

/// The remote of a local project that takes part in matching: the first
/// one, where git information was read and holds a remote.
pub open spec fn primary_remote(local: LocalProjectView) -> Option<RemoteInfoView> {
    match local.git {
        Some(git) => if git.remotes.len() > 0 {
            Some(git.remotes[0])
        } else {
            None
        },
        None => None,
    }
}

/// The URL of a repository that a remote of the given kind is held against:
/// the web URL for `HTTP`, the SSH URL for `SSH`.
pub open spec fn candidate_url(repository: RepositoryView, url_type: RemoteUrlType) -> Option<
    Seq<char>,
> {
    match url_type {
        RemoteUrlType::HTTP => repository.url,
        RemoteUrlType::SSH => repository.ssh_url,
    }
}

/// Whether `repository` is what `remote` points at: it has a URL of the
/// remote's kind, and that URL matches the remote's.
pub open spec fn remote_matches(repository: RepositoryView, remote: RemoteInfoView) -> bool {
    match candidate_url(repository, remote.url_type) {
        Some(url) => urls_match(url, remote.url),
        None => false,
    }
}

/// Whether the repository at `at` matches `remote` and none before it does.
pub open spec fn is_first_match(
    repositories: Seq<RepositoryView>,
    remote: RemoteInfoView,
    at: int,
) -> bool {
    &&& 0 <= at < repositories.len()
    &&& remote_matches(repositories[at], remote)
    &&& forall|k: int| 0 <= k < at ==> !remote_matches(#[trigger] repositories[k], remote)
}

/// The position of the first repository that matches `remote`, if one does.
pub open spec fn first_match(repositories: Seq<RepositoryView>, remote: RemoteInfoView) -> Option<
    int,
> {
    if exists|at: int| is_first_match(repositories, remote, at) {
        Some(choose|at: int| is_first_match(repositories, remote, at))
    } else {
        None
    }
}

/// The position of the repository that a local project points at: the first
/// match of its primary remote.
pub open spec fn target(local: LocalProjectView, repositories: Seq<RepositoryView>) -> Option<
    int,
> {
    match primary_remote(local) {
        Some(remote) => first_match(repositories, remote),
        None => None,
    }
}

/// Whether the local project at `at` points at a repository with this id.
pub open spec fn points_at(
    locals: Seq<LocalProjectView>,
    repositories: Seq<RepositoryView>,
    at: int,
    id: u64,
) -> bool {
    target(locals[at], repositories) matches Some(j) && repositories[j].id == id
}

/// The ids that are claimed once the first `count` local projects have been
/// gone through: those that one of them points at.
pub open spec fn claimed_after(
    locals: Seq<LocalProjectView>,
    repositories: Seq<RepositoryView>,
    count: int,
) -> Set<u64> {
    Set::new(
        |id: u64|
            exists|at: int| 0 <= at < count && #[trigger] points_at(locals, repositories, at, id),
    )
}

/// The position of the repository that the local project at `at` is given:
/// the one it points at, unless an earlier local project points at that id
/// too.
pub open spec fn assigned(
    locals: Seq<LocalProjectView>,
    repositories: Seq<RepositoryView>,
    at: int,
) -> Option<int> {
    match target(locals[at], repositories) {
        Some(j) => if claimed_after(locals, repositories, at).contains(repositories[j].id) {
            None
        } else {
            Some(j)
        },
        None => None,
    }
}

/// The project that the local project at `at` becomes.
pub open spec fn local_entry(
    locals: Seq<LocalProjectView>,
    repositories: Seq<RepositoryView>,
    at: int,
) -> ProjectView {
    ProjectView {
        local: Some(locals[at]),
        remote: match assigned(locals, repositories, at) {
            Some(j) => Some(repositories[j]),
            None => None,
        },
    }
}

/// The project that a repository without a local project becomes.
pub open spec fn remote_entry(repository: RepositoryView) -> ProjectView {
    ProjectView { local: None, remote: Some(repository) }
}

/// The repositories whose id is not among `claimed`, in their order.
pub open spec fn unclaimed(repositories: Seq<RepositoryView>, claimed: Set<u64>) -> Seq<
    RepositoryView,
>
    decreases repositories.len(),
{
    if repositories.len() == 0 {
        Seq::empty()
    } else if claimed.contains(repositories.last().id) {
        unclaimed(repositories.drop_last(), claimed)
    } else {
        unclaimed(repositories.drop_last(), claimed).push(repositories.last())
    }
}

/// The merged view of local projects and remote repositories: one project
/// for each local project, in their order, followed by one for each
/// repository that no local project claimed, in their order.
pub open spec fn reconciled(
    locals: Seq<LocalProjectView>,
    repositories: Seq<RepositoryView>,
) -> Seq<ProjectView> {
    Seq::new(locals.len(), |at: int| local_entry(locals, repositories, at)) + unclaimed(
        repositories,
        claimed_after(locals, repositories, locals.len() as int),
    ).map_values(|repository: RepositoryView| remote_entry(repository))
}

/// Going through one more local project claims the id it points at, and
/// nothing else.
pub proof fn lemma_claimed_step(
    locals: Seq<LocalProjectView>,
    repositories: Seq<RepositoryView>,
    count: int,
)
    requires
        0 <= count,
    ensures
        claimed_after(locals, repositories, count + 1) == match target(
            locals[count],
            repositories,
        ) {
            Some(j) => claimed_after(locals, repositories, count).insert(repositories[j].id),
            None => claimed_after(locals, repositories, count),
        },
{
    let before = claimed_after(locals, repositories, count);
    let after = claimed_after(locals, repositories, count + 1);
    let stepped = match target(locals[count], repositories) {
        Some(j) => before.insert(repositories[j].id),
        None => before,
    };
    assert forall|id: u64| after.contains(id) == stepped.contains(id) by {
        if after.contains(id) {
            let at = choose|at: int|
                0 <= at < count + 1 && #[trigger] points_at(locals, repositories, at, id);
            if at < count {
                assert(before.contains(id));
            }
        }
        if before.contains(id) {
            let at = choose|at: int|
                0 <= at < count && #[trigger] points_at(locals, repositories, at, id);
            assert(points_at(locals, repositories, at, id));
        }
        if stepped.contains(id) && !before.contains(id) {
            assert(points_at(locals, repositories, count, id));
        }
    }
    assert(after =~= stepped);
}

/// A first match is the only first match.
pub proof fn lemma_first_match_unique(
    repositories: Seq<RepositoryView>,
    remote: RemoteInfoView,
    at: int,
)
    requires
        is_first_match(repositories, remote, at),
    ensures
        first_match(repositories, remote) == Some(at),
{
    let other = choose|at: int| is_first_match(repositories, remote, at);
    assert(is_first_match(repositories, remote, other));
    if other < at {
        assert(!remote_matches(repositories[other], remote));
    }
    if at < other {
        assert(!remote_matches(repositories[at], remote));
    }
}

/// The position of the first repository that `remote` points at, if there
/// is one.
fn find_match(repositories: &Vec<Repository>, remote: &RemoteInfo) -> (found: Option<usize>)
    ensures
        match found {
            Some(j) => first_match(repositories.deep_view(), remote@) == Some(j as int),
            None => first_match(repositories.deep_view(), remote@) is None,
        },
{
    let mut j: usize = 0;
    while j < repositories.len()
        invariant
            j <= repositories@.len(),
            forall|k: int|
                0 <= k < j ==> !remote_matches(#[trigger] repositories.deep_view()[k], remote@),
        decreases repositories@.len() - j,
    {
        let repository = &repositories[j];
        assert(repositories.deep_view()[j as int] == repository@);
        let candidate = match remote.url_type {
            RemoteUrlType::HTTP => &repository.url,
            RemoteUrlType::SSH => &repository.ssh_url,
        };
        let matches = match candidate {
            Some(url) => match_remote_url(url.as_str(), remote.url.as_str()),
            None => false,
        };
        if matches {
            proof {
                lemma_first_match_unique(repositories.deep_view(), remote@, j as int);
            }
            return Some(j);
        }
        j += 1;
    }
    None
}

/// Merges local projects with remote repositories.
///
/// Each local project becomes one project, in the order given. It is paired
/// with the first repository whose URL matches that of its primary remote,
/// unless an earlier local project points at a repository of the same id:
/// then, and where nothing matches, it stays alone. Every repository whose
/// id no local project points at follows as a project of its own, in the
/// order given.
pub fn reconcile(
    local_projects: &Vec<LocalProject>,
    remote_projects: &Vec<Repository>,
) -> (projects: Vec<Project>)
    ensures
        projects.deep_view() == reconciled(
            local_projects.deep_view(),
            remote_projects.deep_view(),
        ),
{
    broadcast use vstd::std_specs::hash::group_hash_axioms;

    let ghost locals = local_projects.deep_view();
    let ghost repositories = remote_projects.deep_view();
    let mut claimed: HashSet<u64> = HashSet::new();
    let mut projects: Vec<Project> = Vec::new();
    let mut i: usize = 0;
    assert(claimed@ =~= claimed_after(locals, repositories, 0));
    while i < local_projects.len()
        invariant
            locals == local_projects.deep_view(),
            repositories == remote_projects.deep_view(),
            i <= local_projects@.len(),
            claimed@ == claimed_after(locals, repositories, i as int),
            projects@.len() == i,
            forall|k: int|
                0 <= k < i ==> (#[trigger] projects@[k])@ == local_entry(locals, repositories, k),
        decreases local_projects@.len() - i,
    {
        let local = &local_projects[i];
        assert(locals[i as int] == local@);
        let found: Option<usize> = match &local.git {
            Some(git) => if git.remotes.len() > 0 {
                assert(git.remotes.deep_view()[0] == git.remotes@[0]@);
                find_match(remote_projects, &git.remotes[0])
            } else {
                None
            },
            None => None,
        };
        assert(match found {
            Some(j) => target(locals[i as int], repositories) == Some(j as int),
            None => target(locals[i as int], repositories) is None,
        });
        let ghost before = claimed@;
        let project = match found {
            Some(j) => {
                let repository = &remote_projects[j];
                assert(repositories[j as int] == repository@);
                assert(points_at(locals, repositories, i as int, repository.id));
                if claimed.contains(&repository.id) {
                    Project::local_only(local.clone())
                } else {
                    claimed.insert(repository.id);
                    Project::matched(local.clone(), repository.clone())
                }
            },
            None => Project::local_only(local.clone()),
        };
        assert(project@ == local_entry(locals, repositories, i as int));
        proof {
            lemma_claimed_step(locals, repositories, i as int);
            assert(claimed@ =~= claimed_after(locals, repositories, i + 1));
        }
        projects.push(project);
        i += 1;
    }
    let ghost head = projects.deep_view();
    let ghost taken = claimed@;
    assert(head =~= Seq::new(locals.len(), |at: int| local_entry(locals, repositories, at)));
    let mut j: usize = 0;
    assert(repositories.take(0) =~= Seq::empty());
    while j < remote_projects.len()
        invariant
            repositories == remote_projects.deep_view(),
            j <= remote_projects@.len(),
            taken == claimed@,
            projects.deep_view() == head + unclaimed(repositories.take(j as int), taken).map_values(
                |repository: RepositoryView| remote_entry(repository),
            ),
        decreases remote_projects@.len() - j,
    {
        let repository = &remote_projects[j];
        let ghost before = projects.deep_view();
        proof {
            assert(repositories[j as int] == repository@);
            assert(repositories.take(j + 1).drop_last() =~= repositories.take(j as int));
            assert(repositories.take(j + 1).last() == repository@);
        }
        if !claimed.contains(&repository.id) {
            let project = Project::remote_only(repository.clone());
            projects.push(project);
            assert(projects.deep_view() =~= before.push(remote_entry(repository@)));
            assert(projects.deep_view() =~= head + unclaimed(
                repositories.take(j + 1),
                taken,
            ).map_values(|repository: RepositoryView| remote_entry(repository)));
        }
        j += 1;
    }
    assert(repositories.take(remote_projects@.len() as int) =~= repositories);
    projects
}

/// The local projects of all roots, root after root. A root that could not
/// be read gives none.
pub open spec fn scanned(roots: Seq<Result<Vec<DirectoryEntry>, String>>) -> Seq<LocalProjectView>
    decreases roots.len(),
{
    if roots.len() == 0 {
        Seq::empty()
    } else {
        scanned(roots.drop_last()) + match roots.last() {
            Ok(entries) => projects_of(entries.deep_view()),
            Err(_) => Seq::empty(),
        }
    }
}

/// Whether every status list that is read under a root that could be read
/// holds known flag words only.
pub open spec fn roots_known(roots: Seq<Result<Vec<DirectoryEntry>, String>>) -> bool {
    forall|i: int|
        0 <= i < roots.len() ==> ((#[trigger] roots[i]) matches Ok(entries) ==> scan_known(
            entries.deep_view(),
        ))
}

/// Lists the projects of the merged view, from what was read under each
/// root and from the answer of the hosting service.
///
/// The local projects are those of the roots that could be read, root after
/// root. Where the service did not answer, the listing fails with that
/// cause. Otherwise the result is the merged view of these local projects
/// and the repositories of the answer.
pub fn list_projects(
    roots: Vec<Result<Vec<DirectoryEntry>, String>>,
    page: Result<Vec<RepositoryListing>, String>,
) -> (listed: Result<Vec<Project>, Error>)
    requires
        roots_known(roots@),
    ensures
        match page {
            Ok(listings) => listed matches Ok(projects) && projects.deep_view() == reconciled(
                scanned(roots@),
                repositories_of(listings.deep_view()),
            ),
            Err(cause) => listed matches Err(e) && e == Error::GithubError(
                user::Error::OctocrabError(cause),
            ),
        },
{
    let ghost all = roots@;
    let mut local_projects: Vec<LocalProject> = Vec::new();
    assert(all.take(0) =~= Seq::empty());
    for root in it: roots
        invariant
            all == it.seq(),
            roots_known(all),
            local_projects.deep_view() == scanned(all.take(it.index() as int)),
    {
        let ghost before = local_projects.deep_view();
        let ghost at = it.index() as int;
        proof {
            assert(all.take(at + 1).drop_last() =~= all.take(at));
            assert(all.take(at + 1).last() == root);
            assert(all[at] == root);
        }
        match list_local_projects(root) {
            Ok(mut found) => {
                let ghost added = found.deep_view();
                local_projects.append(&mut found);
                assert(local_projects.deep_view() =~= before + added);
            },
            Err(_) => {
                assert(before + Seq::<LocalProjectView>::empty() =~= before);
            },
        }
    }
    assert(all.take(all.len() as int) =~= all);
    match list_repos(page) {
        Ok(remote_projects) => Ok(reconcile(&local_projects, &remote_projects)),
        Err(e) => Err(Error::GithubError(e)),
    }
}

/// Why projects could not be listed.
#[derive(Debug)]
pub enum Error {
    /// A directory could not be read; the text says why.
    IoError(String),
    /// The hosting service could not be asked.
    GithubError(user::Error),
    /// Git refused; the text says why.
    GitError(String),
}

impl Error {
    /// The text of the error: that of its cause.
    pub fn message(&self) -> (text: String)
        ensures
            text@ == match *self {
                Error::IoError(cause) => cause@,
                Error::GithubError(user::Error::OctocrabError(cause)) => cause@,
                Error::GitError(cause) => cause@,
            },
    {
        match self {
            Error::IoError(cause) => cause.clone(),
            Error::GithubError(cause) => cause.message(),
            Error::GitError(cause) => cause.clone(),
        }
    }
}

} // verus!
