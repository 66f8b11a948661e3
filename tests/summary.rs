use git_prompt::summary::{
    change_summary, divergence_token, prompt_line, CONFLICTED, INDEX_DELETED, INDEX_MODIFIED, INDEX_NEW,
    WT_DELETED, WT_MODIFIED, WT_NEW,
};
use git_prompt::text::decimal_string;

#[test]
fn behind_comes_before_ahead() {
    assert_eq!(divergence_token(3, 1), "↓·1↑·3");
}

#[test]
fn zero_segments_are_left_out() {
    assert_eq!(divergence_token(0, 0), "");
    assert_eq!(divergence_token(5, 0), "↑·5");
    assert_eq!(divergence_token(0, 12), "↓·12");
}

#[test]
fn decimal_notation() {
    assert_eq!(decimal_string(0), "0");
    assert_eq!(decimal_string(7), "7");
    assert_eq!(decimal_string(10), "10");
    assert_eq!(decimal_string(1203), "1203");
    assert_eq!(decimal_string(usize::MAX), usize::MAX.to_string());
}

#[test]
fn one_untracked_file() {
    assert_eq!(change_summary(&vec![WT_NEW]), "\x1b[34m…1\x1b[m");
}

#[test]
fn clean_tree() {
    assert_eq!(change_summary(&Vec::new()), "\x1b[36m√\x1b[m");
    // ignored (1 << 14) and renamed-in-index (1 << 3) paths are no category of their own
    assert_eq!(change_summary(&vec![1 << 14, 1 << 3]), "\x1b[36m√\x1b[m");
}

#[test]
fn categories_in_fixed_order() {
    let entries = vec![
        WT_DELETED,
        WT_MODIFIED | INDEX_MODIFIED,
        WT_MODIFIED,
        CONFLICTED,
        INDEX_NEW,
        INDEX_DELETED,
        WT_NEW,
        WT_NEW,
    ];
    assert_eq!(
        change_summary(&entries),
        "∂1\x1b[m…1\x1b[m✖1\x1b[m\x1b[31;1m≠1\x1b[m\x1b[34m∂2\x1b[m\x1b[34m…2\x1b[m\x1b[34m✖1\x1b[m"
    );
}

#[test]
fn status_bits_match_git2() {
    assert_eq!(INDEX_NEW, git2::Status::INDEX_NEW.bits());
    assert_eq!(INDEX_MODIFIED, git2::Status::INDEX_MODIFIED.bits());
    assert_eq!(INDEX_DELETED, git2::Status::INDEX_DELETED.bits());
    assert_eq!(WT_NEW, git2::Status::WT_NEW.bits());
    assert_eq!(WT_MODIFIED, git2::Status::WT_MODIFIED.bits());
    assert_eq!(WT_DELETED, git2::Status::WT_DELETED.bits());
    assert_eq!(CONFLICTED, git2::Status::CONFLICTED.bits());
}

#[test]
fn prompt_line_layout() {
    let s = |x: &str| x.to_string();
    assert_eq!(prompt_line(&s("main"), &s("↓·1↑·3"), &s("∂1"), &s("origin/main")), "[main ↓·1↑·3|∂1]:origin/main");
    assert_eq!(prompt_line(&s("main"), &s(""), &s(""), &s("")), "[main]");
    assert_eq!(prompt_line(&s(""), &s("↑·2"), &s("∂1"), &s("")), "");
    assert_eq!(prompt_line(&s(""), &s(""), &s(""), &s("up")), ":up");
}
