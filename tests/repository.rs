use git2::{Oid, Repository, Signature, Time};
use git_prompt::repo::{head_state_of, HeadState};
use git_prompt::GitPromptRepo;
use std::path::Path;

fn commit(repo: &Repository, parents: &[Oid], msg: &str) -> Oid {
    let sig = Signature::new("Tester", "tester@example.com", &Time::new(0, 0)).unwrap();
    let tree_id = repo.treebuilder(None).unwrap().write().unwrap();
    let tree = repo.find_tree(tree_id).unwrap();
    let parents: Vec<git2::Commit> = parents.iter().map(|p| repo.find_commit(*p).unwrap()).collect();
    let parent_refs: Vec<&git2::Commit> = parents.iter().collect();
    repo.commit(None, &sig, &sig, msg, &tree, &parent_refs).unwrap()
}

#[test]
fn outside_any_repository_all_empty() {
    let prompt = GitPromptRepo::new(Path::new("/"));
    assert_eq!(prompt.ref_name_head(), "");
    assert_eq!(prompt.ahead_behind(), "");
    assert_eq!(prompt.upstream_name(), "");
    assert_eq!(prompt.status(), "");
}

#[test]
fn fresh_repository_is_unborn() {
    let dir = "/tmp/git_prompt_tests/unborn";
    Repository::init(dir).unwrap();
    let prompt = GitPromptRepo::new(Path::new(dir));
    assert_eq!(prompt.ref_name_head(), "[Unborn]");
    assert_eq!(prompt.ahead_behind(), "");
    assert_eq!(prompt.upstream_name(), "");
    assert_eq!(prompt.status(), "\x1b[36m√\x1b[m");
}

#[test]
fn named_branch_without_upstream() {
    let dir = "/tmp/git_prompt_tests/branch";
    let repo = Repository::init(dir).unwrap();
    let c0 = commit(&repo, &[], "root");
    repo.reference("refs/heads/feature/x", c0, true, "test").unwrap();
    repo.set_head("refs/heads/feature/x").unwrap();
    let prompt = GitPromptRepo::new(Path::new(dir));
    assert_eq!(prompt.ref_name_head(), "feature/x");
    assert_eq!(prompt.ahead_behind(), "");
    assert_eq!(prompt.upstream_name(), "");
}

#[test]
fn named_branch_ahead_and_behind_upstream() {
    let dir = "/tmp/git_prompt_tests/diverged";
    let repo = Repository::init(dir).unwrap();
    let c0 = commit(&repo, &[], "root");
    let u1 = commit(&repo, &[c0], "upstream one");
    let m1 = commit(&repo, &[c0], "local one");
    let m2 = commit(&repo, &[m1], "local two");
    let m3 = commit(&repo, &[m2], "local three");
    repo.reference("refs/remotes/origin/main", u1, true, "test").unwrap();
    repo.reference("refs/heads/main", m3, true, "test").unwrap();
    if repo.find_remote("origin").is_err() {
        repo.remote("origin", "https://example.invalid/project.git").unwrap();
    }
    let mut config = repo.config().unwrap();
    config.set_str("branch.main.remote", "origin").unwrap();
    config.set_str("branch.main.merge", "refs/heads/main").unwrap();
    repo.set_head("refs/heads/main").unwrap();
    let prompt = GitPromptRepo::new(Path::new(dir));
    assert_eq!(prompt.ref_name_head(), "main");
    assert_eq!(prompt.ahead_behind(), "↓·1↑·3");
    assert_eq!(prompt.upstream_name(), "origin/main");
}

#[test]
fn detached_head_without_remote_match() {
    let dir = "/tmp/git_prompt_tests/detached";
    let repo = Repository::init(dir).unwrap();
    let c0 = commit(&repo, &[], "root");
    let c1 = commit(&repo, &[c0], "second");
    repo.reference("refs/remotes/origin/master", c0, true, "test").unwrap();
    repo.set_head_detached(c1).unwrap();
    let prompt = GitPromptRepo::new(Path::new(dir));
    assert_eq!(prompt.ref_name_head(), c1.to_string()[..8].to_string());
    assert_eq!(prompt.ahead_behind(), "");
    assert_eq!(prompt.upstream_name(), "");
}

#[test]
fn detached_head_named_by_remote_branch() {
    let dir = "/tmp/git_prompt_tests/detached_remote";
    let repo = Repository::init(dir).unwrap();
    let c0 = commit(&repo, &[], "root");
    repo.reference("refs/remotes/origin/dev", c0, true, "test").unwrap();
    repo.reference("refs/remotes/origin/master", c0, true, "test").unwrap();
    repo.reference("refs/remotes/origin/deep/topic", c0, true, "test").unwrap();
    repo.set_head_detached(c0).unwrap();
    let prompt = GitPromptRepo::new(Path::new(dir));
    assert_eq!(prompt.ref_name_head(), "origin/master");
}

#[test]
fn bare_repository_has_no_change_summary() {
    let dir = "/tmp/git_prompt_tests/bare.git";
    let repo = Repository::init_bare(dir).unwrap();
    let c0 = commit(&repo, &[], "root");
    repo.reference("refs/heads/main", c0, true, "test").unwrap();
    repo.set_head("refs/heads/main").unwrap();
    let prompt = GitPromptRepo::new(Path::new(dir));
    assert_eq!(prompt.ref_name_head(), "main");
    assert_eq!(prompt.status(), "");
}

#[test]
fn branch_named_like_a_prefix_keeps_its_name() {
    let dir = "/tmp/git_prompt_tests/nested_prefix";
    let repo = Repository::init(dir).unwrap();
    let c0 = commit(&repo, &[], "root");
    repo.reference("refs/heads/refs/heads/x", c0, true, "test").unwrap();
    repo.reference("refs/heads/x", c0, true, "test").unwrap();
    repo.set_head("refs/heads/refs/heads/x").unwrap();
    let prompt = GitPromptRepo::new(Path::new(dir));
    assert_eq!(prompt.ref_name_head(), "refs/heads/x");
    assert_eq!(prompt.ahead_behind(), "");
    assert_eq!(prompt.upstream_name(), "");
}

#[test]
fn head_state_from_name() {
    assert!(matches!(head_state_of(Some("refs/heads/main".to_string())), HeadState::Named(n) if n == "refs/heads/main"));
    assert!(matches!(head_state_of(Some("HEAD".to_string())), HeadState::Named(n) if n == "HEAD"));
    assert!(matches!(head_state_of(Some("refs/heads/".to_string())), HeadState::Missing));
    assert!(matches!(head_state_of(Some(String::new())), HeadState::Missing));
    assert!(matches!(head_state_of(None), HeadState::Missing));
}
