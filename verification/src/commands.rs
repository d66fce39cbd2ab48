//! The queries and commands that callers issue against the project store.

use crate::github::repos;
use crate::github::repos::{remote_branch_relation, started, Evaluation, Relation};
use crate::github::user::{repositories_of, ListParameters, RepositoryListing};
use crate::project::branches::BranchCommits;
use crate::project::scan::DirectoryEntry;
use crate::project::store::{is_random_id, stored, Projects};
use crate::project::{last_part, list_projects, reconciled, roots_known, scanned, Project};
use vstd::prelude::*;
use vstd::string::*;

verus! {

/// Why a query or command failed.
#[derive(Debug, Clone, Copy, PartialEq, Eq, Structural)]
pub enum Error {
    QueryReposError,
    NoTokenError,
    AcquireProjectsError,
    UuidParseError,
    UuidNoMatch,
    PathParseError,
    InvalidPathError,
    RemoteCommitsError,
    ChangesError,
}

impl Error {
    /// The sentence that stands for the error.
    pub open spec fn text(self) -> Seq<char> {
        match self {
            Error::QueryReposError => "Error occured while querying repos"@,
            Error::NoTokenError => "No personal access token was provided"@,
            Error::AcquireProjectsError => "Error occured while acquiring projects"@,
            Error::UuidParseError => "Error occured when parsing uuid"@,
            Error::UuidNoMatch => "Error occured when matching uuid to project"@,
            Error::PathParseError => "Could not parse path to string"@,
            Error::InvalidPathError => "Invalid path"@,
            Error::RemoteCommitsError => "Error occured while listing remote commits"@,
            Error::ChangesError => "Error occured while getting changes"@,
        }
    }

    /// The sentence that stands for the error.
    pub fn message(&self) -> (text: String)
        ensures
            text@ == self.text(),
    {
        match self {
            Error::QueryReposError => "Error occured while querying repos".to_string(),
            Error::NoTokenError => "No personal access token was provided".to_string(),
            Error::AcquireProjectsError => "Error occured while acquiring projects".to_string(),
            Error::UuidParseError => "Error occured when parsing uuid".to_string(),
            Error::UuidNoMatch => "Error occured when matching uuid to project".to_string(),
            Error::PathParseError => "Could not parse path to string".to_string(),
            Error::InvalidPathError => "Invalid path".to_string(),
            Error::RemoteCommitsError => "Error occured while listing remote commits".to_string(),
            Error::ChangesError => "Error occured while getting changes".to_string(),
        }
    }
}

/// The identifier that a text spells, as `uuid::Uuid::try_parse` reads it;
/// `None` for a text that it refuses.
pub uninterp spec fn parsed_id(text: Seq<char>) -> Option<u128>;

/// Reads an identifier with `uuid::Uuid::try_parse` and hands it back as
/// the number that `Uuid::as_u128` gives for it; `None` where the text is
/// refused. The result depends on the text alone.
#[verifier::external_body]
fn parse_id(text: &str) -> (id: Option<u128>)
    ensures
        id == parsed_id(text@),
{
    match uuid::Uuid::try_parse(text) {
        Ok(id) => Some(id.as_u128()),
        Err(_) => None,
    }
}

/// The visibility that a refresh asks for: `all`.
pub open spec fn refresh_visibility() -> Seq<char> {
    "all"@
}

/// The access token, where one is configured.
pub fn require_token(token: &Option<String>) -> (found: Result<String, Error>)
    ensures
        match *token {
            Some(t) => found matches Ok(copy) && copy@ == t@,
            None => found == Err::<String, Error>(Error::NoTokenError),
        },
{
    match token {
        Some(t) => Ok(t.clone()),
        None => Err(Error::NoTokenError),
    }
}

/// The filters that a refresh lists repositories with: every visibility, a
/// hundred to the page, and nothing else set.
pub fn refresh_parameters() -> (params: ListParameters)
    ensures
        params.visibility matches Some(v) && v@ == refresh_visibility(),
        params.affiliation is None,
        params.repo_type is None,
        params.sort is None,
        params.direction is None,
        params.per_page == Some(100u32),
        params.page is None,
        params.since is None,
        params.before is None,
{
    ListParameters {
        visibility: Some("all".to_string()),
        affiliation: None,
        repo_type: None,
        sort: None,
        direction: None,
        per_page: Some(100),
        page: None,
        since: None,
        before: None,
    }
}

/// Refreshes the store from what was read under the roots and from the
/// answer of the hosting service.
///
/// Without a token, and where the service did not answer, the refresh fails
/// and the store is left as it was. Otherwise the store is emptied and
/// holds the merged view, each project under an identifier drawn for it.
pub fn update_projects(
    projects: &mut Projects,
    token: &Option<String>,
    roots: Vec<Result<Vec<DirectoryEntry>, String>>,
    page: Result<Vec<RepositoryListing>, String>,
) -> (done: Result<(), Error>)
    requires
        *token is Some ==> roots_known(roots@),
    ensures
        match (*token, page) {
            (None, _) => done == Err::<(), Error>(Error::NoTokenError)
                && final(projects)@ == old(projects)@,
            (Some(_), Err(_)) => done == Err::<(), Error>(Error::AcquireProjectsError)
                && final(projects)@ == old(projects)@,
            (Some(_), Ok(listings)) => done == Ok::<(), Error>(()) && exists|ids: Seq<u128>|
                ids.len() == reconciled(
                    scanned(roots@),
                    repositories_of(listings.deep_view()),
                ).len() && (forall|i: int| 0 <= i < ids.len() ==> is_random_id(#[trigger] ids[i]))
                    && final(projects)@ == #[trigger] stored(
                    Map::empty(),
                    ids,
                    reconciled(scanned(roots@), repositories_of(listings.deep_view())),
                ),
        },
{
    if token.is_none() {
        return Err(Error::NoTokenError);
    }
    match list_projects(roots, page) {
        Ok(new_projects) => {
            projects.replace_all(new_projects);
            Ok(())
        },
        Err(_) => Err(Error::AcquireProjectsError),
    }
}

/// The identifiers of the projects that the store holds, each once.
pub fn project_ids(projects: &Projects) -> (ids: Result<Vec<u128>, Error>)
    ensures
        ids matches Ok(found) && found@.no_duplicates() && found@.to_set() == projects@.dom()
            && found@.len() == projects@.dom().len(),
{
    Ok(projects.ids())
}

/// The project that a parsed identifier names: a text that was refused
/// fails as a parse error, an identifier that the store does not hold as a
/// missing match.
pub fn lookup(projects: &Projects, key: Option<u128>) -> (found: Result<&Project, Error>)
    ensures
        match key {
            None => found == Err::<&Project, Error>(Error::UuidParseError),
            Some(id) => if projects@.contains_key(id) {
                found matches Ok(project) && project@ == projects@[id]
            } else {
                found == Err::<&Project, Error>(Error::UuidNoMatch)
            },
        },
{
    match key {
        None => Err(Error::UuidParseError),
        Some(id) => match projects.get(id) {
            Some(project) => Ok(project),
            None => Err(Error::UuidNoMatch),
        },
    }
}

/// The project that the text `id` names.
pub fn find_project<'a>(projects: &'a Projects, id: &str) -> (found: Result<&'a Project, Error>)
    ensures
        match parsed_id(id@) {
            None => found == Err::<&Project, Error>(Error::UuidParseError),
            Some(key) => if projects@.contains_key(key) {
                found matches Ok(project) && project@ == projects@[key]
            } else {
                found == Err::<&Project, Error>(Error::UuidNoMatch)
            },
        },
{
    lookup(projects, parse_id(id))
}

/// The name of the remote repository of the project that `id` names, where
/// it has one.
pub fn project_remote_name(projects: &Projects, id: &str) -> (name: Result<Option<String>, Error>)
    ensures
        match parsed_id(id@) {
            None => name == Err::<Option<String>, Error>(Error::UuidParseError),
            Some(key) => if projects@.contains_key(key) {
                name matches Ok(found) && found.deep_view() == match projects@[key].remote {
                    Some(remote) => Some(remote.name),
                    None => None,
                }
            } else {
                name == Err::<Option<String>, Error>(Error::UuidNoMatch)
            },
        },
{
    match find_project(projects, id) {
        Ok(project) => Ok(project.remote_name()),
        Err(e) => Err(e),
    }
}

/// The name of the local side of the project that `id` names: the last
/// part of its path as text, where it has a local side and that has one.
pub fn project_local_name(projects: &Projects, id: &str) -> (name: Result<Option<String>, Error>)
    ensures
        match parsed_id(id@) {
            None => name == Err::<Option<String>, Error>(Error::UuidParseError),
            Some(key) => if projects@.contains_key(key) {
                name matches Ok(found) && found.deep_view() == match projects@[key].local {
                    Some(local) => last_part(local.path),
                    None => None,
                }
            } else {
                name == Err::<Option<String>, Error>(Error::UuidNoMatch)
            },
        },
{
    match find_project(projects, id) {
        Ok(project) => Ok(project.local_name()),
        Err(e) => Err(e),
    }
}

/// The head commits of the local branches of the project that `id` names,
/// where git information was read for it.
pub fn project_local_commits(projects: &Projects, id: &str) -> (commits: Result<
    Option<BranchCommits>,
    Error,
>)
    ensures
        match parsed_id(id@) {
            None => commits matches Err(e) && e == Error::UuidParseError,
            Some(key) => if projects@.contains_key(key) {
                commits matches Ok(found) && found.deep_view() == match projects@[key].local {
                    Some(local) => match local.git {
                        Some(git) => Some(git.branch_commit),
                        None => None,
                    },
                    None => None,
                }
            } else {
                commits matches Err(e) && e == Error::UuidNoMatch
            },
        },
{
    match find_project(projects, id) {
        Ok(project) => Ok(project.local_commits()),
        Err(e) => Err(e),
    }
}

/// How many entries the status list of the project that `id` names holds.
/// A project without git information on its local side has no status list,
/// and the query fails.
pub fn project_changes(projects: &Projects, id: &str) -> (count: Result<usize, Error>)
    ensures
        match parsed_id(id@) {
            None => count == Err::<usize, Error>(Error::UuidParseError),
            Some(key) => if !projects@.contains_key(key) {
                count == Err::<usize, Error>(Error::UuidNoMatch)
            } else {
                match projects@[key].local {
                    Some(local) => match local.git {
                        Some(git) => count == Ok::<usize, Error>(git.changes.len() as usize),
                        None => count == Err::<usize, Error>(Error::ChangesError),
                    },
                    None => count == Err::<usize, Error>(Error::ChangesError),
                }
            },
        },
{
    match find_project(projects, id) {
        Ok(project) => match project.number_of_changes() {
            Some(count) => Ok(count),
            None => Err(Error::ChangesError),
        },
        Err(e) => Err(e),
    }
}

/// What a branch relation query comes to before the service is asked.
#[derive(Debug)]
pub enum BranchQuery {
    /// The relation is known without asking.
    Answered(Relation),
    /// The service has to be asked, with this token, what the evaluation
    /// requests.
    Pending { token: String, evaluation: Evaluation },
}

/// Begins the query for how the commit `current` relates to the branch
/// `branch` of the project that `id` names.
///
/// A project without a remote side answers `Null` at once, token or not.
/// Otherwise a token is needed, and the evaluation starts for the remote
/// repository of the project.
pub fn branch_relation(
    token: &Option<String>,
    projects: &Projects,
    id: &str,
    branch: &str,
    current: &str,
) -> (query: Result<BranchQuery, Error>)
    ensures
        match parsed_id(id@) {
            None => query matches Err(e) && e == Error::UuidParseError,
            Some(key) => if !projects@.contains_key(key) {
                query matches Err(e) && e == Error::UuidNoMatch
            } else {
                match projects@[key].remote {
                    None => query matches Ok(BranchQuery::Answered(Relation::Null)),
                    Some(remote) => match *token {
                        None => query matches Err(e) && e == Error::NoTokenError,
                        Some(t) => query matches Ok(
                            BranchQuery::Pending { token: copy, evaluation },
                        ) && copy@ == t@ && evaluation@ == started(
                            remote.owner,
                            remote.name,
                            branch@,
                            current@,
                        ),
                    },
                }
            },
        },
{
    let project = match find_project(projects, id) {
        Ok(project) => project,
        Err(e) => {
            return Err(e);
        },
    };
    let repository = match project.remote() {
        Some(repository) => repository,
        None => {
            return Ok(BranchQuery::Answered(Relation::Null));
        },
    };
    let token = match token {
        Some(t) => t.clone(),
        None => {
            return Err(Error::NoTokenError);
        },
    };
    let evaluation = remote_branch_relation(repository, branch, current);
    Ok(BranchQuery::Pending { token, evaluation })
}

/// Ends a branch relation query: the relation that the evaluation found,
/// or, where it failed, the error that stands for every such failure.
pub fn branch_relation_outcome(outcome: Result<Relation, repos::Error>) -> (relation: Result<
    Relation,
    Error,
>)
    ensures
        relation == match outcome {
            Ok(found) => Ok::<Relation, Error>(found),
            Err(_) => Err::<Relation, Error>(Error::RemoteCommitsError),
        },
{
    match outcome {
        Ok(found) => Ok(found),
        Err(_) => Err(Error::RemoteCommitsError),
    }
}

} // verus!
