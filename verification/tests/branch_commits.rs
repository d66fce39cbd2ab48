use repo_reconcile::project::branches::BranchCommits;

#[test]
fn a_new_mapping_holds_nothing() {
    let commits = BranchCommits::new();
    assert!(commits.get("main").is_none());
    assert!(!commits.contains_key("main"));
    assert!(commits.entries().is_empty());
}

#[test]
fn a_recorded_commit_is_found_again() {
    let mut commits = BranchCommits::new();
    commits.insert("main".to_string(), "c1".to_string());
    commits.insert("dev".to_string(), "c2".to_string());
    assert_eq!(commits.get("main"), Some(&"c1".to_string()));
    assert_eq!(commits.get("dev"), Some(&"c2".to_string()));
    assert!(commits.get("mai").is_none());
    assert!(commits.contains_key("dev"));
    assert_eq!(commits.entries().len(), 2);
}

#[test]
fn a_later_commit_replaces_an_earlier_one_of_the_same_branch() {
    let mut commits = BranchCommits::new();
    commits.insert("main".to_string(), "c1".to_string());
    commits.insert("dev".to_string(), "c2".to_string());
    commits.insert("main".to_string(), "c3".to_string());
    assert_eq!(commits.get("main"), Some(&"c3".to_string()));
    assert_eq!(commits.get("dev"), Some(&"c2".to_string()));
    assert_eq!(commits.entries().len(), 2);
    assert_eq!(commits.entries()[0].branch, "main");
    assert_eq!(commits.entries()[0].commit, "c3");
}

#[test]
fn a_copy_holds_the_same_commits() {
    let mut commits = BranchCommits::new();
    commits.insert("main".to_string(), "c1".to_string());
    let copy = commits.clone();
    commits.insert("main".to_string(), "c2".to_string());
    assert_eq!(copy.get("main"), Some(&"c1".to_string()));
    assert_eq!(commits.get("main"), Some(&"c2".to_string()));
}
