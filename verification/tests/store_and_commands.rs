use repo_reconcile::commands::{
    branch_relation, branch_relation_outcome, find_project, lookup, project_changes, project_ids,
    project_local_commits, project_local_name, project_remote_name, refresh_parameters,
    require_token, update_projects, BranchQuery, Error,
};
use repo_reconcile::github::repos::{Error as ReposError, Relation, Request};
use repo_reconcile::github::user::{Repository, RepositoryListing};
use repo_reconcile::project::scan::{
    BranchScan, DirectoryEntry, RemoteScan, RepositoryScan, StatusScan,
};
use repo_reconcile::project::store::Projects;
use repo_reconcile::project::{LocalProject, Project};
use std::collections::HashSet;
use std::path::PathBuf;
use uuid::Uuid;

fn remote(id: u64, name: &str, owner: Option<&str>) -> Repository {
    Repository {
        id,
        name: name.to_string(),
        url: Some(format!("github.com/octo/{}", name)),
        owner: owner.map(|o| o.to_string()),
        description: None,
        ssh_url: None,
        visibility: None,
        created_at: None,
        updated_at: None,
    }
}

fn bare(path: &str) -> LocalProject {
    LocalProject { path: PathBuf::from(path), git: None }
}

fn text_of(id: u128) -> String {
    Uuid::from_u128(id).to_string()
}

fn listing(id: u64, name: &str) -> RepositoryListing {
    RepositoryListing {
        id,
        name: name.to_string(),
        full_name: Some(format!("octo/{}", name)),
        owner: Some("octo".to_string()),
        description: None,
        ssh_url: Some(format!("git@github.com:octo/{}.git", name)),
        visibility: None,
        created_at: None,
        updated_at: None,
    }
}

fn scanned(path: &str, url: &str) -> DirectoryEntry {
    DirectoryEntry {
        path: PathBuf::from(path),
        is_dir: true,
        has_git_dir: true,
        repository: Some(RepositoryScan {
            remotes: Some(vec![RemoteScan { name: "origin".to_string(), url: Some(url.to_string()) }]),
            statuses: Some(vec![
                StatusScan { path: Some("a".to_string()), status: 128 },
                StatusScan { path: Some("b".to_string()), status: 256 },
            ]),
            branches: Some(vec![BranchScan {
                name: "main".to_string(),
                commit: Some("c1".to_string()),
            }]),
        }),
    }
}

fn roots() -> Vec<Result<Vec<DirectoryEntry>, String>> {
    vec![Ok(vec![
        scanned("/p/a", "https://github.com/octo/a"),
        DirectoryEntry {
            path: PathBuf::from("/p/plain"),
            is_dir: true,
            has_git_dir: false,
            repository: None,
        },
    ])]
}

fn refreshed() -> Projects {
    let mut store = Projects::new();
    let token = Some("t0ken".to_string());
    let page = Ok(vec![listing(1, "a"), listing(2, "b")]);
    assert_eq!(update_projects(&mut store, &token, roots(), page), Ok(()));
    store
}

fn id_where(store: &Projects, wanted: impl Fn(&Project) -> bool) -> u128 {
    let ids = store.ids();
    let found: Vec<u128> = ids.into_iter().filter(|id| wanted(store.get(*id).unwrap())).collect();
    assert_eq!(found.len(), 1);
    found[0]
}

#[test]
fn a_new_store_holds_nothing() {
    let store = Projects::new();
    assert!(store.ids().is_empty());
    assert_eq!(store.len(), 0);
    assert!(store.get(7).is_none());
    assert!(Projects::default().ids().is_empty());
}

#[test]
fn a_project_is_held_under_the_identifier_it_was_put_under() {
    let mut store = Projects::new();
    store.insert(7, Project::remote_only(remote(1, "a", None)));
    store.insert(9, Project::local_only(bare("/p/b")));
    assert_eq!(store.len(), 2);
    assert_eq!(store.get(7).unwrap().remote_name(), Some("a".to_string()));
    assert_eq!(store.get(9).unwrap().local_name(), Some("b".to_string()));
    assert!(store.get(8).is_none());
    let ids: HashSet<u128> = store.ids().into_iter().collect();
    assert_eq!(ids, HashSet::from([7, 9]));
}

#[test]
fn a_project_put_under_a_taken_identifier_replaces_the_other() {
    let mut store = Projects::new();
    store.insert(7, Project::remote_only(remote(1, "a", None)));
    store.insert(7, Project::remote_only(remote(2, "b", None)));
    assert_eq!(store.len(), 1);
    assert_eq!(store.get(7).unwrap().remote_name(), Some("b".to_string()));
}

#[test]
fn extending_draws_one_identifier_for_each_project() {
    let mut store = Projects::new();
    store.insert(7, Project::local_only(bare("/p/kept")));
    store.extend(vec![
        Project::remote_only(remote(1, "a", None)),
        Project::remote_only(remote(2, "b", None)),
        Project::remote_only(remote(3, "c", None)),
    ]);
    assert_eq!(store.len(), 4);
    let ids = store.ids();
    assert_eq!(ids.len(), 4);
    let distinct: HashSet<u128> = ids.iter().copied().collect();
    assert_eq!(distinct.len(), 4);
    let mut names: Vec<String> =
        ids.iter().filter_map(|id| store.get(*id).unwrap().remote_name()).collect();
    names.sort();
    assert_eq!(names, vec!["a".to_string(), "b".to_string(), "c".to_string()]);
    assert_eq!(store.get(7).unwrap().local_name(), Some("kept".to_string()));
}

#[test]
fn drawn_identifiers_are_random_ones() {
    let mut store = Projects::new();
    store.extend(vec![
        Project::remote_only(remote(1, "a", None)),
        Project::remote_only(remote(2, "b", None)),
    ]);
    for id in store.ids() {
        assert_eq!(Uuid::from_u128(id).get_version_num(), 4);
        assert_eq!(
            id & 0x0000_0000_0000_f000_c000_0000_0000_0000,
            0x0000_0000_0000_4000_8000_0000_0000_0000
        );
    }
}

#[test]
fn clearing_empties_the_store() {
    let mut store = refreshed();
    assert_eq!(store.len(), 3);
    store.clear();
    assert_eq!(store.len(), 0);
    assert!(store.ids().is_empty());
}

#[test]
fn replacing_drops_what_was_held() {
    let mut store = Projects::new();
    store.insert(7, Project::local_only(bare("/p/old")));
    store.replace_all(vec![Project::remote_only(remote(1, "a", None))]);
    assert_eq!(store.len(), 1);
    assert!(store.get(7).is_none());
    let id = store.ids()[0];
    assert_eq!(store.get(id).unwrap().remote_name(), Some("a".to_string()));
}

#[test]
fn a_refresh_holds_one_identifier_for_each_project() {
    let store = refreshed();
    let ids = project_ids(&store).unwrap();
    assert_eq!(ids.len(), 3);
    let distinct: HashSet<u128> = ids.iter().copied().collect();
    assert_eq!(distinct.len(), 3);
    let matched = id_where(&store, |p| p.local().is_some() && p.remote().is_some());
    let plain = id_where(&store, |p| p.local().is_some() && p.remote().is_none());
    let remote_only = id_where(&store, |p| p.local().is_none());
    assert_eq!(store.get(matched).unwrap().remote_name(), Some("a".to_string()));
    assert_eq!(store.get(plain).unwrap().local_name(), Some("plain".to_string()));
    assert_eq!(store.get(remote_only).unwrap().remote_name(), Some("b".to_string()));
}

#[test]
fn a_second_refresh_draws_new_identifiers() {
    let mut store = refreshed();
    let first: HashSet<u128> = store.ids().into_iter().collect();
    let token = Some("t0ken".to_string());
    let page = Ok(vec![listing(1, "a"), listing(2, "b")]);
    assert_eq!(update_projects(&mut store, &token, roots(), page), Ok(()));
    let second: HashSet<u128> = store.ids().into_iter().collect();
    assert_eq!(second.len(), 3);
    assert!(first.is_disjoint(&second));
}

#[test]
fn a_refresh_without_token_fails_and_changes_nothing() {
    let mut store = Projects::new();
    store.insert(7, Project::local_only(bare("/p/kept")));
    let page = Ok(vec![listing(1, "a")]);
    assert_eq!(update_projects(&mut store, &None, roots(), page), Err(Error::NoTokenError));
    assert_eq!(store.ids(), vec![7]);
}

#[test]
fn a_refresh_fails_where_the_service_did_not_answer() {
    let mut store = Projects::new();
    store.insert(7, Project::local_only(bare("/p/kept")));
    let token = Some("t0ken".to_string());
    let done = update_projects(&mut store, &token, roots(), Err("offline".to_string()));
    assert_eq!(done, Err(Error::AcquireProjectsError));
    assert_eq!(store.ids(), vec![7]);
}

#[test]
fn a_token_is_asked_for() {
    assert_eq!(require_token(&Some("t0ken".to_string())), Ok("t0ken".to_string()));
    assert_eq!(require_token(&None), Err(Error::NoTokenError));
}

#[test]
fn a_refresh_lists_every_visibility_a_hundred_to_the_page() {
    let params = refresh_parameters();
    assert_eq!(params.visibility, Some("all".to_string()));
    assert_eq!(params.per_page, Some(100));
    assert_eq!(params.affiliation, None);
    assert_eq!(params.repo_type, None);
    assert_eq!(params.sort, None);
    assert_eq!(params.direction, None);
    assert_eq!(params.page, None);
    assert_eq!(params.since, None);
    assert_eq!(params.before, None);
}

#[test]
fn an_identifier_text_finds_its_project() {
    let store = refreshed();
    let matched = id_where(&store, |p| p.local().is_some() && p.remote().is_some());
    let found = find_project(&store, &text_of(matched)).unwrap();
    assert_eq!(found.remote_name(), Some("a".to_string()));
    // The same identifier in another spelling.
    let simple = Uuid::from_u128(matched).simple().to_string();
    let found = find_project(&store, &simple).unwrap();
    assert_eq!(found.remote_name(), Some("a".to_string()));
    assert!(lookup(&store, Some(matched)).is_ok());
}

#[test]
fn a_text_that_is_no_identifier_is_a_parse_error() {
    let store = refreshed();
    assert_eq!(find_project(&store, "not-an-id").err(), Some(Error::UuidParseError));
    assert_eq!(find_project(&store, "").err(), Some(Error::UuidParseError));
    assert_eq!(project_remote_name(&store, "zz"), Err(Error::UuidParseError));
    assert_eq!(project_local_name(&store, "zz"), Err(Error::UuidParseError));
    assert_eq!(project_changes(&store, "zz"), Err(Error::UuidParseError));
    assert_eq!(project_local_commits(&store, "zz").err(), Some(Error::UuidParseError));
    assert_eq!(lookup(&store, None).err(), Some(Error::UuidParseError));
}

#[test]
fn an_identifier_that_is_not_held_is_no_match() {
    let store = refreshed();
    let absent = "00000000-0000-0000-0000-000000000000";
    assert_eq!(find_project(&store, absent).err(), Some(Error::UuidNoMatch));
    assert_eq!(project_remote_name(&store, absent), Err(Error::UuidNoMatch));
    assert_eq!(project_local_name(&store, absent), Err(Error::UuidNoMatch));
    assert_eq!(project_changes(&store, absent), Err(Error::UuidNoMatch));
    assert_eq!(project_local_commits(&store, absent).err(), Some(Error::UuidNoMatch));
    assert_eq!(lookup(&store, Some(0)).err(), Some(Error::UuidNoMatch));
}

#[test]
fn names_commits_and_changes_are_answered_by_identifier() {
    let store = refreshed();
    let matched = text_of(id_where(&store, |p| p.local().is_some() && p.remote().is_some()));
    let plain = text_of(id_where(&store, |p| p.local().is_some() && p.remote().is_none()));
    let remote_only = text_of(id_where(&store, |p| p.local().is_none()));

    assert_eq!(project_remote_name(&store, &matched), Ok(Some("a".to_string())));
    assert_eq!(project_local_name(&store, &matched), Ok(Some("a".to_string())));
    assert_eq!(project_changes(&store, &matched), Ok(2));
    let commits = project_local_commits(&store, &matched).unwrap().unwrap();
    assert_eq!(commits.get("main"), Some(&"c1".to_string()));

    assert_eq!(project_remote_name(&store, &plain), Ok(None));
    assert_eq!(project_local_name(&store, &plain), Ok(Some("plain".to_string())));
    assert_eq!(project_changes(&store, &plain), Err(Error::ChangesError));
    assert!(project_local_commits(&store, &plain).unwrap().is_none());

    assert_eq!(project_remote_name(&store, &remote_only), Ok(Some("b".to_string())));
    assert_eq!(project_local_name(&store, &remote_only), Ok(None));
    assert_eq!(project_changes(&store, &remote_only), Err(Error::ChangesError));
    assert!(project_local_commits(&store, &remote_only).unwrap().is_none());
}

#[test]
fn a_project_without_remote_has_no_relation_even_without_token() {
    let store = refreshed();
    let plain = text_of(id_where(&store, |p| p.local().is_some() && p.remote().is_none()));
    match branch_relation(&None, &store, &plain, "main", "c1") {
        Ok(BranchQuery::Answered(Relation::Null)) => {}
        other => panic!("unexpected {:?}", other),
    }
}

#[test]
fn a_relation_query_needs_a_token() {
    let store = refreshed();
    let matched = text_of(id_where(&store, |p| p.local().is_some() && p.remote().is_some()));
    match branch_relation(&None, &store, &matched, "main", "c1") {
        Err(Error::NoTokenError) => {}
        other => panic!("unexpected {:?}", other),
    }
}

#[test]
fn a_relation_query_checks_the_identifier_first() {
    let store = refreshed();
    match branch_relation(&None, &store, "zz", "main", "c1") {
        Err(Error::UuidParseError) => {}
        other => panic!("unexpected {:?}", other),
    }
    let absent = "00000000-0000-0000-0000-000000000000";
    match branch_relation(&None, &store, absent, "main", "c1") {
        Err(Error::UuidNoMatch) => {}
        other => panic!("unexpected {:?}", other),
    }
}

#[test]
fn a_relation_query_starts_an_evaluation() {
    let store = refreshed();
    let matched = text_of(id_where(&store, |p| p.local().is_some() && p.remote().is_some()));
    let token = Some("t0ken".to_string());
    match branch_relation(&token, &store, &matched, "main", "c1") {
        Ok(BranchQuery::Pending { token, evaluation }) => {
            assert_eq!(token, "t0ken");
            match evaluation.request() {
                Some(Request::Branches { owner, name, per_page, page }) => {
                    assert_eq!(owner, "octo");
                    assert_eq!(name, "a");
                    assert_eq!(per_page, 100);
                    assert_eq!(page, 1);
                }
                other => panic!("unexpected {:?}", other),
            }
        }
        other => panic!("unexpected {:?}", other),
    }
}

#[test]
fn a_failed_evaluation_is_a_remote_commits_error() {
    assert_eq!(branch_relation_outcome(Ok(Relation::Behind)), Ok(Relation::Behind));
    assert_eq!(branch_relation_outcome(Ok(Relation::Null)), Ok(Relation::Null));
    assert_eq!(
        branch_relation_outcome(Err(ReposError::NoOwnerError)),
        Err(Error::RemoteCommitsError)
    );
    assert_eq!(
        branch_relation_outcome(Err(ReposError::OctocrabError("x".to_string()))),
        Err(Error::RemoteCommitsError)
    );
}

#[test]
fn every_error_has_its_sentence() {
    assert_eq!(Error::QueryReposError.message(), "Error occured while querying repos");
    assert_eq!(Error::NoTokenError.message(), "No personal access token was provided");
    assert_eq!(Error::AcquireProjectsError.message(), "Error occured while acquiring projects");
    assert_eq!(Error::UuidParseError.message(), "Error occured when parsing uuid");
    assert_eq!(Error::UuidNoMatch.message(), "Error occured when matching uuid to project");
    assert_eq!(Error::PathParseError.message(), "Could not parse path to string");
    assert_eq!(Error::InvalidPathError.message(), "Invalid path");
    assert_eq!(Error::RemoteCommitsError.message(), "Error occured while listing remote commits");
    assert_eq!(Error::ChangesError.message(), "Error occured while getting changes");
}

#[test]
fn a_copy_of_the_store_holds_the_same_projects() {
    let mut store = Projects::new();
    store.insert(7, Project::remote_only(remote(1, "a", None)));
    store.insert(9, Project::local_only(bare("/p/b")));
    let copy = store.clone();
    store.clear();
    assert_eq!(copy.len(), 2);
    assert_eq!(copy.get(7).unwrap().remote_name(), Some("a".to_string()));
    assert_eq!(copy.get(9).unwrap().local_name(), Some("b".to_string()));
    assert_eq!(store.len(), 0);
}
