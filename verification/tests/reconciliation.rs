use repo_reconcile::github::user::{Error as UserError, Repository, RepositoryListing};
use repo_reconcile::project::branches::BranchCommits;
use repo_reconcile::project::scan::{BranchScan, DirectoryEntry, RemoteScan, RepositoryScan};
use repo_reconcile::project::{
    list_projects, reconcile, Error, GitInfo, LocalProject, Project, RemoteInfo, RemoteUrlType,
};
use std::path::PathBuf;

fn local(path: &str, remotes: Vec<(&str, RemoteUrlType)>) -> LocalProject {
    LocalProject {
        path: PathBuf::from(path),
        git: Some(GitInfo {
            changes: Vec::new(),
            remotes: remotes
                .into_iter()
                .map(|(url, url_type)| RemoteInfo {
                    name: "origin".to_string(),
                    url: url.to_string(),
                    url_type,
                })
                .collect(),
            branch_commit: BranchCommits::new(),
        }),
    }
}

fn bare(path: &str) -> LocalProject {
    LocalProject { path: PathBuf::from(path), git: None }
}

fn remote(id: u64, name: &str) -> Repository {
    Repository {
        id,
        name: name.to_string(),
        url: Some(format!("github.com/octo/{}", name)),
        owner: Some("octo".to_string()),
        description: None,
        ssh_url: Some(format!("git@github.com:octo/{}.git", name)),
        visibility: None,
        created_at: None,
        updated_at: None,
    }
}

fn local_path(project: &Project) -> Option<PathBuf> {
    project.local().as_ref().map(|l| l.path.clone())
}

fn remote_id(project: &Project) -> Option<u64> {
    project.remote().as_ref().map(|r| r.id)
}

fn matched_pairs(projects: &[Project]) -> usize {
    projects.iter().filter(|p| p.local().is_some() && p.remote().is_some()).count()
}

#[test]
fn nothing_gives_nothing() {
    assert!(reconcile(&Vec::new(), &Vec::new()).is_empty());
}

#[test]
fn a_local_project_without_git_stays_alone() {
    let merged = reconcile(&vec![bare("/p/a")], &vec![remote(1, "a")]);
    assert_eq!(merged.len(), 2);
    assert_eq!(local_path(&merged[0]), Some(PathBuf::from("/p/a")));
    assert_eq!(remote_id(&merged[0]), None);
    assert_eq!(local_path(&merged[1]), None);
    assert_eq!(remote_id(&merged[1]), Some(1));
}

#[test]
fn a_local_project_without_remotes_stays_alone() {
    let merged = reconcile(&vec![local("/p/a", Vec::new())], &vec![remote(1, "a")]);
    assert_eq!(merged.len(), 2);
    assert_eq!(remote_id(&merged[0]), None);
    assert_eq!(remote_id(&merged[1]), Some(1));
}

#[test]
fn a_web_remote_is_held_against_the_web_url() {
    let locals = vec![local("/p/a", vec![("https://github.com/octo/a.git", RemoteUrlType::HTTP)])];
    let merged = reconcile(&locals, &vec![remote(2, "b"), remote(1, "a")]);
    assert_eq!(merged.len(), 2);
    assert_eq!(local_path(&merged[0]), Some(PathBuf::from("/p/a")));
    assert_eq!(remote_id(&merged[0]), Some(1));
    assert_eq!(local_path(&merged[1]), None);
    assert_eq!(remote_id(&merged[1]), Some(2));
}

#[test]
fn an_ssh_remote_is_held_against_the_ssh_url() {
    let locals = vec![local("/p/b", vec![("git@github.com:octo/b", RemoteUrlType::SSH)])];
    let merged = reconcile(&locals, &vec![remote(1, "a"), remote(2, "b")]);
    assert_eq!(merged.len(), 2);
    assert_eq!(remote_id(&merged[0]), Some(2));
    assert_eq!(remote_id(&merged[1]), Some(1));
}

#[test]
fn the_kind_of_the_remote_picks_the_url_that_is_compared() {
    // A web URL marked as an SSH remote is held against the SSH URL, and fails.
    let locals = vec![local("/p/a", vec![("https://github.com/octo/a", RemoteUrlType::SSH)])];
    let merged = reconcile(&locals, &vec![remote(1, "a")]);
    assert_eq!(merged.len(), 2);
    assert_eq!(remote_id(&merged[0]), None);
}

#[test]
fn a_repository_without_the_url_of_that_kind_never_matches() {
    let mut repository = remote(1, "a");
    repository.url = None;
    let locals = vec![local("/p/a", vec![("https://github.com/octo/a", RemoteUrlType::HTTP)])];
    let merged = reconcile(&locals, &vec![repository]);
    assert_eq!(merged.len(), 2);
    assert_eq!(remote_id(&merged[0]), None);
    assert_eq!(remote_id(&merged[1]), Some(1));
}

#[test]
fn only_the_first_remote_takes_part() {
    let locals = vec![local(
        "/p/a",
        vec![
            ("https://example.org/elsewhere", RemoteUrlType::HTTP),
            ("https://github.com/octo/a", RemoteUrlType::HTTP),
        ],
    )];
    let merged = reconcile(&locals, &vec![remote(1, "a")]);
    assert_eq!(merged.len(), 2);
    assert_eq!(remote_id(&merged[0]), None);
    assert_eq!(remote_id(&merged[1]), Some(1));
}

#[test]
fn the_first_matching_repository_wins() {
    let mut twin = remote(9, "a-copy");
    twin.url = Some("github.com/octo/a".to_string());
    let locals = vec![local("/p/a", vec![("https://github.com/octo/a", RemoteUrlType::HTTP)])];
    let merged = reconcile(&locals, &vec![remote(5, "x"), twin, remote(1, "a")]);
    assert_eq!(merged.len(), 3);
    assert_eq!(remote_id(&merged[0]), Some(9));
    assert_eq!(remote_id(&merged[1]), Some(5));
    assert_eq!(remote_id(&merged[2]), Some(1));
}

#[test]
fn two_local_projects_with_one_remote_give_one_match() {
    let locals = vec![
        local("/p/first", vec![("https://github.com/octo/a", RemoteUrlType::HTTP)]),
        local("/p/second", vec![("http://github.com/octo/a.git", RemoteUrlType::HTTP)]),
    ];
    let merged = reconcile(&locals, &vec![remote(1, "a")]);
    assert_eq!(merged.len(), 2);
    assert_eq!(local_path(&merged[0]), Some(PathBuf::from("/p/first")));
    assert_eq!(remote_id(&merged[0]), Some(1));
    assert_eq!(local_path(&merged[1]), Some(PathBuf::from("/p/second")));
    assert_eq!(remote_id(&merged[1]), None);
    assert_eq!(matched_pairs(&merged), 1);
}

#[test]
fn a_scheme_in_capitals_does_not_match() {
    let locals = vec![
        local("/p/first", vec![("https://github.com/octo/a", RemoteUrlType::HTTP)]),
        local("/p/second", vec![("HTTPS://github.com/octo/a", RemoteUrlType::HTTP)]),
    ];
    let merged = reconcile(&locals, &vec![remote(1, "a")]);
    assert_eq!(merged.len(), 2);
    assert_eq!(remote_id(&merged[0]), Some(1));
    assert_eq!(remote_id(&merged[1]), None);
    assert_eq!(matched_pairs(&merged), 1);
}

#[test]
fn a_later_local_project_does_not_fall_back_to_a_second_match() {
    let mut twin = remote(9, "a-copy");
    twin.url = Some("github.com/octo/a".to_string());
    let locals = vec![
        local("/p/first", vec![("https://github.com/octo/a", RemoteUrlType::HTTP)]),
        local("/p/second", vec![("https://github.com/octo/a", RemoteUrlType::HTTP)]),
    ];
    let merged = reconcile(&locals, &vec![remote(1, "a"), twin]);
    assert_eq!(merged.len(), 3);
    assert_eq!(remote_id(&merged[0]), Some(1));
    assert_eq!(remote_id(&merged[1]), None);
    assert_eq!(remote_id(&merged[2]), Some(9));
}

#[test]
fn the_merged_view_is_a_partition() {
    let locals = vec![
        local("/p/a", vec![("https://github.com/octo/a", RemoteUrlType::HTTP)]),
        bare("/p/plain"),
        local("/p/c", vec![("git@github.com:octo/c.git", RemoteUrlType::SSH)]),
        local("/p/a2", vec![("github.com/octo/a", RemoteUrlType::HTTP)]),
        local("/p/none", vec![("https://example.org/x", RemoteUrlType::HTTP)]),
    ];
    let remotes = vec![remote(1, "a"), remote(2, "b"), remote(3, "c"), remote(4, "d")];
    let merged = reconcile(&locals, &remotes);
    let pairs = matched_pairs(&merged);
    assert_eq!(pairs, 2);
    assert_eq!(merged.len(), locals.len() + remotes.len() - pairs);
    for (i, l) in locals.iter().enumerate() {
        assert_eq!(local_path(&merged[i]), Some(l.path.clone()));
    }
    for project in &merged[locals.len()..] {
        assert!(project.local().is_none());
        assert!(project.remote().is_some());
    }
    for r in &remotes {
        let holders = merged.iter().filter(|p| remote_id(p) == Some(r.id)).count();
        assert_eq!(holders, 1);
    }
    let ids: Vec<Option<u64>> = merged.iter().map(remote_id).collect();
    assert_eq!(ids, vec![Some(1), None, Some(3), None, None, Some(2), Some(4)]);
}

#[test]
fn repositories_whose_ids_agree_in_their_low_bits_are_claimed_apart() {
    let locals = vec![local("/p/a", vec![("https://github.com/octo/a", RemoteUrlType::HTTP)])];
    let remotes = vec![remote(5, "a"), remote(0x1_0000_0005, "b")];
    let merged = reconcile(&locals, &remotes);
    assert_eq!(merged.len(), 2);
    assert_eq!(remote_id(&merged[0]), Some(5));
    assert_eq!(remote_id(&merged[1]), Some(0x1_0000_0005));
}

#[test]
fn repositories_that_share_an_id_are_claimed_together() {
    let mut twin = remote(1, "other");
    twin.url = Some("github.com/octo/other".to_string());
    let locals = vec![local("/p/a", vec![("https://github.com/octo/a", RemoteUrlType::HTTP)])];
    let merged = reconcile(&locals, &vec![remote(1, "a"), twin]);
    assert_eq!(merged.len(), 1);
    assert_eq!(remote_id(&merged[0]), Some(1));
}

#[test]
fn a_project_holds_at_least_one_side() {
    assert!(Project::new(None, None).is_none());
    let only_local = Project::new(Some(bare("/p/a")), None).unwrap();
    assert!(only_local.local().is_some() && only_local.remote().is_none());
    let only_remote = Project::new(None, Some(remote(1, "a"))).unwrap();
    assert!(only_remote.local().is_none() && only_remote.remote().is_some());
    let both = Project::matched(bare("/p/a"), remote(1, "a"));
    assert!(both.local().is_some() && both.remote().is_some());
    let copy = both.clone();
    assert_eq!(local_path(&copy), Some(PathBuf::from("/p/a")));
    assert_eq!(remote_id(&copy), Some(1));
}

#[test]
fn names_commits_and_changes_of_a_project() {
    let mut with_git = local("/p/work/tool", Vec::new());
    if let Some(git) = with_git.git.as_mut() {
        git.branch_commit.insert("main".to_string(), "c1".to_string());
    }
    let both = Project::matched(with_git, remote(1, "a"));
    assert_eq!(both.local_name(), Some("tool".to_string()));
    assert_eq!(both.remote_name(), Some("a".to_string()));
    assert_eq!(both.local_commits().unwrap().get("main"), Some(&"c1".to_string()));
    assert_eq!(both.number_of_changes(), Some(0));

    let only_remote = Project::remote_only(remote(2, "b"));
    assert_eq!(only_remote.local_name(), None);
    assert_eq!(only_remote.remote_name(), Some("b".to_string()));
    assert!(only_remote.local_commits().is_none());
    assert_eq!(only_remote.number_of_changes(), None);

    let plain = Project::local_only(bare("/p/plain"));
    assert_eq!(plain.local_name(), Some("plain".to_string()));
    assert_eq!(plain.remote_name(), None);
    assert!(plain.local_commits().is_none());
    assert_eq!(plain.number_of_changes(), None);

    let parent = Project::local_only(bare("/p/.."));
    assert_eq!(parent.local_name(), None);
}

fn listing(id: u64, name: &str) -> RepositoryListing {
    RepositoryListing {
        id,
        name: name.to_string(),
        full_name: Some(format!("octo/{}", name)),
        owner: Some("octo".to_string()),
        description: None,
        ssh_url: Some(format!("git@github.com:octo/{}.git", name)),
        visibility: None,
        created_at: None,
        updated_at: None,
    }
}

fn scanned_repository(path: &str, url: &str) -> DirectoryEntry {
    DirectoryEntry {
        path: PathBuf::from(path),
        is_dir: true,
        has_git_dir: true,
        repository: Some(RepositoryScan {
            remotes: Some(vec![RemoteScan { name: "origin".to_string(), url: Some(url.to_string()) }]),
            statuses: Some(Vec::new()),
            branches: Some(vec![BranchScan {
                name: "main".to_string(),
                commit: Some("c1".to_string()),
            }]),
        }),
    }
}

#[test]
fn projects_are_listed_from_roots_and_a_page() {
    let roots = vec![
        Ok(vec![scanned_repository("/one/a", "https://github.com/octo/a")]),
        Err("unreadable".to_string()),
        Ok(vec![scanned_repository("/two/b", "git@github.com:octo/b.git")]),
    ];
    let page = Ok(vec![listing(3, "c"), listing(2, "b"), listing(1, "a")]);
    let listed = list_projects(roots, page).unwrap();
    assert_eq!(listed.len(), 3);
    assert_eq!(local_path(&listed[0]), Some(PathBuf::from("/one/a")));
    assert_eq!(remote_id(&listed[0]), Some(1));
    assert_eq!(local_path(&listed[1]), Some(PathBuf::from("/two/b")));
    assert_eq!(remote_id(&listed[1]), Some(2));
    assert_eq!(local_path(&listed[2]), None);
    assert_eq!(remote_id(&listed[2]), Some(3));
}

#[test]
fn listing_fails_where_the_service_did_not_answer() {
    let roots = vec![Ok(vec![scanned_repository("/one/a", "https://github.com/octo/a")])];
    match list_projects(roots, Err("timeout".to_string())) {
        Err(Error::GithubError(UserError::OctocrabError(cause))) => {
            assert_eq!(cause, "timeout");
            let error = Error::GithubError(UserError::OctocrabError(cause));
            assert_eq!(error.message(), "timeout");
        }
        other => panic!("unexpected {:?}", other),
    }
}

#[test]
fn listing_goes_on_where_every_root_failed() {
    let roots = vec![Err("a".to_string()), Err("b".to_string())];
    let listed = list_projects(roots, Ok(vec![listing(1, "a")])).unwrap();
    assert_eq!(listed.len(), 1);
    assert_eq!(remote_id(&listed[0]), Some(1));
}

#[test]
fn errors_carry_the_text_of_their_cause() {
    assert_eq!(Error::IoError("no such directory".to_string()).message(), "no such directory");
    assert_eq!(Error::GitError("bad object".to_string()).message(), "bad object");
}
