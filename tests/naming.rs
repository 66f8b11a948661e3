use git_prompt::naming::{
    abbreviated_remote_branch_name, candidate_names, commit_display_name, find_best_branch_name,
    short_branch_name, BranchRef,
};

fn names(list: &[&str]) -> Vec<String> {
    list.iter().map(|s| s.to_string()).collect()
}

#[test]
fn abbreviates_remote_names() {
    let a = |s: &str| abbreviated_remote_branch_name(&s.to_string());
    assert_eq!(a("refs/remotes/origin/master"), Some("origin/master".to_string()));
    assert_eq!(a("refs/remotes/origin/feature/x"), Some("origin/feature/x".to_string()));
    assert_eq!(a("refs/remotes/origin"), Some("origin".to_string()));
    assert_eq!(a("refs/remotes/origin/HEAD"), None);
    assert_eq!(a("refs/remotes/"), None);
    assert_eq!(a("refs/remotes"), None);
    assert_eq!(a("refs/heads/master"), None);
    assert_eq!(a(""), None);
}

#[test]
fn candidates_drop_head_pointers() {
    let c = candidate_names(&names(&[
        "refs/remotes/origin/HEAD",
        "refs/remotes/HEAD",
        "refs/remotes/origin/dev",
        "refs/heads/dev",
    ]));
    assert_eq!(c, names(&["origin/dev"]));
}

#[test]
fn first_of_equal_depth_wins() {
    let list = names(&["refs/remotes/origin/feature/x", "refs/remotes/other/feature/x"]);
    let first = find_best_branch_name(&list);
    assert_eq!(first, "origin/feature/x");
    assert_eq!(find_best_branch_name(&list), first);
    let swapped = names(&["refs/remotes/other/feature/x", "refs/remotes/origin/feature/x"]);
    assert_eq!(find_best_branch_name(&swapped), "other/feature/x");
}

#[test]
fn origin_master_wins_ties() {
    let list = names(&["refs/remotes/origin/dev", "refs/remotes/origin/master"]);
    assert_eq!(find_best_branch_name(&list), "origin/master");
    let list = names(&["refs/remotes/origin/master", "refs/remotes/origin/dev"]);
    assert_eq!(find_best_branch_name(&list), "origin/master");
}

#[test]
fn shallower_name_wins_over_origin_master() {
    let list = names(&["refs/remotes/origin/master", "refs/remotes/up"]);
    assert_eq!(find_best_branch_name(&list), "up");
}

#[test]
fn first_release_branch_wins() {
    let list = names(&[
        "refs/remotes/other/a/b",
        "refs/remotes/origin/release/1",
        "refs/remotes/origin/release/2",
    ]);
    assert_eq!(find_best_branch_name(&list), "origin/release/1");
}

#[test]
fn commit_named_by_matching_remote_branch() {
    let commit = "0123456789abcdef0123456789abcdef01234567".to_string();
    let other = "fedcba9876543210fedcba9876543210fedcba98".to_string();
    let refs = vec![
        BranchRef { name: Some("refs/remotes/origin/dev".to_string()), commit: Some(other.clone()) },
        BranchRef { name: Some("refs/remotes/origin/topic/a".to_string()), commit: Some(commit.clone()) },
        BranchRef { name: Some("refs/remotes/origin/HEAD".to_string()), commit: Some(commit.clone()) },
        BranchRef { name: None, commit: Some(commit.clone()) },
    ];
    assert_eq!(commit_display_name(&refs, &commit), "origin/topic/a");
    assert_eq!(commit_display_name(&refs, &other), "origin/dev");
}

#[test]
fn unmatched_commit_falls_back_to_short_id() {
    let commit = "0123456789abcdef0123456789abcdef01234567".to_string();
    let refs = vec![
        BranchRef { name: Some("refs/remotes/origin/HEAD".to_string()), commit: Some(commit.clone()) },
        BranchRef { name: Some("refs/remotes/origin/dev".to_string()), commit: None },
    ];
    assert_eq!(commit_display_name(&refs, &commit), "01234567");
    assert_eq!(commit_display_name(&Vec::new(), &"abc".to_string()), "abc");
}

#[test]
fn strips_local_branch_prefix() {
    assert_eq!(short_branch_name("refs/heads/master"), "master");
    assert_eq!(short_branch_name("refs/heads/feature/x"), "feature/x");
    assert_eq!(short_branch_name("refs/heads/refs/heads/x"), "refs/heads/x");
    assert_eq!(short_branch_name("refs/remotes/origin/x"), "refs/remotes/origin/x");
    assert_eq!(short_branch_name("HEAD"), "HEAD");
}
