use git_prompt::state::{classify, rebase_label, state_label, OperationState, RepoState};

#[test]
fn classifies_every_state() {
    let cases = [
        (RepoState::Clean, OperationState::Clean),
        (RepoState::Merge, OperationState::Merging),
        (RepoState::Revert, OperationState::Reverting),
        (RepoState::RevertSequence, OperationState::Reverting),
        (RepoState::CherryPick, OperationState::CherryPicking),
        (RepoState::CherryPickSequence, OperationState::CherryPicking),
        (RepoState::Bisect, OperationState::Bisecting),
        (RepoState::Rebase, OperationState::Rebasing),
        (RepoState::RebaseInteractive, OperationState::Rebasing),
        (RepoState::RebaseMerge, OperationState::Rebasing),
        (RepoState::ApplyMailbox, OperationState::ApplyingMailbox),
        (RepoState::ApplyMailboxOrRebase, OperationState::ApplyingMailbox),
    ];
    for (raw, op) in cases {
        assert_eq!(classify(raw, false), op);
        assert_eq!(classify(raw, true), OperationState::Unborn);
    }
}

#[test]
fn fixed_labels() {
    assert_eq!(state_label(OperationState::Unborn), Some("[Unborn]".to_string()));
    assert_eq!(state_label(OperationState::Reverting), Some("Reverting".to_string()));
    assert_eq!(state_label(OperationState::CherryPicking), Some("Cherry-picking".to_string()));
    assert_eq!(state_label(OperationState::ApplyingMailbox), Some("Applying".to_string()));
    assert_eq!(state_label(OperationState::Merging), Some("Merging".to_string()));
    assert_eq!(state_label(OperationState::Bisecting), Some("Bisecting".to_string()));
    assert_eq!(state_label(OperationState::Clean), None);
    assert_eq!(state_label(OperationState::Rebasing), None);
}

#[test]
fn rebase_labels() {
    let named = rebase_label(Some(("origin/dev".to_string(), "0123abcd".to_string())), false);
    assert_eq!(named, "\x1b[1;35m...rebasing\x1b[0m origin/dev \x1b[1;35monto\x1b[0m 0123abcd");
    assert_eq!(rebase_label(None, true), "worktree rebase");
    assert_eq!(rebase_label(None, false), "unhandled rebase case");
}
