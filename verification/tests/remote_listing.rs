use repo_reconcile::github::user::{
    list_query, list_repos, Error, ListParameters, Repository, RepositoryListing, Timestamp,
};

fn listing(id: u64, name: &str, full_name: Option<&str>) -> RepositoryListing {
    RepositoryListing {
        id,
        name: name.to_string(),
        full_name: full_name.map(|n| n.to_string()),
        owner: Some("octo".to_string()),
        description: Some("a repository".to_string()),
        ssh_url: Some(format!("git@github.com:octo/{}.git", name)),
        visibility: Some("public".to_string()),
        created_at: Some(Timestamp { seconds: 1_600_000_000, nanoseconds: 5 }),
        updated_at: None,
    }
}

#[test]
fn a_listed_repository_gets_its_web_url_from_its_full_name() {
    let repository = Repository::from_listing(&listing(7, "cat", Some("octo/cat")));
    assert_eq!(repository.id, 7);
    assert_eq!(repository.name, "cat");
    assert_eq!(repository.url, Some("github.com/octo/cat".to_string()));
    assert_eq!(repository.owner, Some("octo".to_string()));
    assert_eq!(repository.description, Some("a repository".to_string()));
    assert_eq!(repository.ssh_url, Some("git@github.com:octo/cat.git".to_string()));
    assert_eq!(repository.visibility, Some("public".to_string()));
    assert_eq!(
        repository.created_at,
        Some(Timestamp { seconds: 1_600_000_000, nanoseconds: 5 })
    );
    assert_eq!(repository.updated_at, None);
}

#[test]
fn a_listed_repository_without_a_full_name_has_no_web_url() {
    let repository = Repository::from_listing(&listing(7, "cat", None));
    assert_eq!(repository.url, None);
}

#[test]
fn the_id_is_kept_as_listed() {
    assert_eq!(Repository::from_listing(&listing(0, "a", None)).id, 0);
    assert_eq!(Repository::from_listing(&listing(0xffff_ffff, "a", None)).id, 0xffff_ffff);
    assert_eq!(Repository::from_listing(&listing(0x1_0000_0000, "a", None)).id, 0x1_0000_0000);
    assert_eq!(Repository::from_listing(&listing(0x1_0000_0007, "a", None)).id, 0x1_0000_0007);
    assert_eq!(Repository::from_listing(&listing(u64::MAX, "a", None)).id, u64::MAX);
}

#[test]
fn ids_that_agree_in_their_low_bits_stay_apart() {
    let page = vec![listing(5, "a", Some("octo/a")), listing(0x1_0000_0005, "b", Some("octo/b"))];
    let repositories = list_repos(Ok(page)).unwrap();
    assert_eq!(repositories[0].id, 5);
    assert_eq!(repositories[1].id, 0x1_0000_0005);
    assert_ne!(repositories[0].id, repositories[1].id);
}

#[test]
fn a_page_gives_its_repositories_in_order() {
    let page = vec![listing(3, "c", Some("octo/c")), listing(1, "a", Some("octo/a"))];
    let repositories = list_repos(Ok(page)).unwrap();
    assert_eq!(repositories.len(), 2);
    assert_eq!(repositories[0].id, 3);
    assert_eq!(repositories[0].url, Some("github.com/octo/c".to_string()));
    assert_eq!(repositories[1].id, 1);
    assert_eq!(repositories[1].name, "a");
    assert!(list_repos(Ok(Vec::new())).unwrap().is_empty());
}

#[test]
fn a_failed_listing_fails_with_its_cause() {
    match list_repos(Err("bad credentials".to_string())) {
        Err(Error::OctocrabError(cause)) => {
            assert_eq!(cause, "bad credentials");
            assert_eq!(Error::OctocrabError(cause).message(), "bad credentials");
        }
        other => panic!("unexpected {:?}", other),
    }
}

#[test]
fn unset_filters_stay_unset() {
    let query = list_query(&ListParameters::default());
    assert_eq!(query.visibility, None);
    assert_eq!(query.affiliation, None);
    assert_eq!(query.repo_type, None);
    assert_eq!(query.sort, None);
    assert_eq!(query.direction, None);
    assert_eq!(query.per_page, None);
    assert_eq!(query.page, None);
    assert_eq!(query.since, None);
    assert_eq!(query.before, None);
}

#[test]
fn set_filters_are_handed_on() {
    let params = ListParameters {
        visibility: Some("all".to_string()),
        affiliation: Some("owner".to_string()),
        repo_type: Some("private".to_string()),
        sort: Some("updated".to_string()),
        direction: Some("desc".to_string()),
        per_page: Some(100),
        page: Some(2),
        since: Some(Timestamp { seconds: 10, nanoseconds: 1 }),
        before: Some(Timestamp { seconds: 20, nanoseconds: 2 }),
    };
    let query = list_query(&params);
    assert_eq!(query.visibility, Some("all".to_string()));
    assert_eq!(query.affiliation, Some("owner".to_string()));
    assert_eq!(query.repo_type, Some("private".to_string()));
    assert_eq!(query.sort, Some("updated".to_string()));
    assert_eq!(query.direction, Some("desc".to_string()));
    assert_eq!(query.per_page, Some(100));
    assert_eq!(query.page, Some(2));
    assert_eq!(query.since, Some(Timestamp { seconds: 10, nanoseconds: 1 }));
    assert_eq!(query.before, Some(Timestamp { seconds: 20, nanoseconds: 2 }));
    let copy = params.clone();
    assert_eq!(copy.per_page, Some(100));
    assert_eq!(copy.sort, Some("updated".to_string()));
}

#[test]
fn page_numbers_and_sizes_keep_their_lowest_byte() {
    let mut params = ListParameters::default();
    params.per_page = Some(255);
    params.page = Some(256);
    let query = list_query(&params);
    assert_eq!(query.per_page, Some(255));
    assert_eq!(query.page, Some(0));
    params.per_page = Some(300);
    params.page = Some(u32::MAX);
    let query = list_query(&params);
    assert_eq!(query.per_page, Some(44));
    assert_eq!(query.page, Some(255));
}
