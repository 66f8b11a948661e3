use vstd::prelude::*;

verus! {

/// The operation in progress as the repository reports it.
#[derive(PartialEq, Eq, Structural, Clone, Copy, Debug)]
pub enum RepoState {
    Clean,
    Merge,
    Revert,
    RevertSequence,
    CherryPick,
    CherryPickSequence,
    Bisect,
    Rebase,
    RebaseInteractive,
    RebaseMerge,
    ApplyMailbox,
    ApplyMailboxOrRebase,
}

/// The operation in progress, as far as the prompt tells them apart.
#[derive(PartialEq, Eq, Structural, Clone, Copy, Debug)]
pub enum OperationState {
    Clean,
    Rebasing,
    Merging,
    CherryPicking,
    Reverting,
    Bisecting,
    ApplyingMailbox,
    Unborn,
}

/// An unborn head comes first; every other state maps one to one onto its kind.
pub open spec fn operation_of(raw: RepoState, unborn: bool) -> OperationState {
    if unborn {
        OperationState::Unborn
    } else {
        match raw {
            RepoState::Rebase | RepoState::RebaseInteractive | RepoState::RebaseMerge => {
                OperationState::Rebasing
            },
            RepoState::Revert | RepoState::RevertSequence => OperationState::Reverting,
            RepoState::CherryPick | RepoState::CherryPickSequence => {
                OperationState::CherryPicking
            },
            RepoState::ApplyMailbox | RepoState::ApplyMailboxOrRebase => {
                OperationState::ApplyingMailbox
            },
            RepoState::Merge => OperationState::Merging,
            RepoState::Bisect => OperationState::Bisecting,
            RepoState::Clean => OperationState::Clean,
        }
    }
}

/// Classifies the repository's state; `unborn` tells that the head names a branch
/// with no commit yet.
pub fn classify(raw: RepoState, unborn: bool) -> (r: OperationState)
    ensures
        r == operation_of(raw, unborn),
{
    if unborn {
        return OperationState::Unborn;
    }
    match raw {
        RepoState::Rebase | RepoState::RebaseInteractive | RepoState::RebaseMerge => {
            OperationState::Rebasing
        },
        RepoState::Revert | RepoState::RevertSequence => OperationState::Reverting,
        RepoState::CherryPick | RepoState::CherryPickSequence => OperationState::CherryPicking,
        RepoState::ApplyMailbox | RepoState::ApplyMailboxOrRebase => {
            OperationState::ApplyingMailbox
        },
        RepoState::Merge => OperationState::Merging,
        RepoState::Bisect => OperationState::Bisecting,
        RepoState::Clean => OperationState::Clean,
    }
}

pub open spec fn unborn_label() -> Seq<char> {
    "[Unborn]"@
}

/// The label of a state that shows as fixed text; none for a clean checkout and for a
/// rebase, whose labels are built from names.
pub open spec fn fixed_label(op: OperationState) -> Option<Seq<char>> {
    match op {
        OperationState::Unborn => Some(unborn_label()),
        OperationState::Reverting => Some("Reverting"@),
        OperationState::CherryPicking => Some("Cherry-picking"@),
        OperationState::ApplyingMailbox => Some("Applying"@),
        OperationState::Merging => Some("Merging"@),
        OperationState::Bisecting => Some("Bisecting"@),
        OperationState::Clean | OperationState::Rebasing => None,
    }
}

/// The fixed label of a state, where it has one.
pub fn state_label(op: OperationState) -> (r: Option<String>)
    ensures
        r matches Some(s) ==> fixed_label(op) == Some(s@),
        r is None ==> fixed_label(op) is None,
        r matches Some(s) ==> s@.len() > 0,
{
    proof {
        reveal_strlit("[Unborn]");
        reveal_strlit("Reverting");
        reveal_strlit("Cherry-picking");
        reveal_strlit("Applying");
        reveal_strlit("Merging");
        reveal_strlit("Bisecting");
    }
    match op {
        OperationState::Unborn => Some(String::from_str("[Unborn]")),
        OperationState::Reverting => Some(String::from_str("Reverting")),
        OperationState::CherryPicking => Some(String::from_str("Cherry-picking")),
        OperationState::ApplyingMailbox => Some(String::from_str("Applying")),
        OperationState::Merging => Some(String::from_str("Merging")),
        OperationState::Bisecting => Some(String::from_str("Bisecting")),
        OperationState::Clean | OperationState::Rebasing => None,
    }
}

/// The label of a rebase in progress: the display names of the commit being replayed
/// and of the one it goes onto where both were found, else a note that depends on
/// whether the repository is a linked worktree.
pub open spec fn rebase_text(names: Option<(Seq<char>, Seq<char>)>, in_worktree: bool) -> Seq<
    char,
> {
    match names {
        Some((a, b)) => "\x1b[1;35m...rebasing\x1b[0m "@ + a + " \x1b[1;35monto\x1b[0m "@ + b,
        None => if in_worktree {
            "worktree rebase"@
        } else {
            "unhandled rebase case"@
        },
    }
}

/// Builds the label of a rebase in progress from the display names of the commit being
/// replayed and of the one it goes onto.
pub fn rebase_label(names: Option<(String, String)>, in_worktree: bool) -> (r: String)
    ensures
        r@ == rebase_text(
            match names {
                Some(p) => Some((p.0@, p.1@)),
                None => None,
            },
            in_worktree,
        ),
        r@.len() > 0,
{
    proof {
        reveal_strlit("\x1b[1;35m...rebasing\x1b[0m ");
        reveal_strlit("worktree rebase");
        reveal_strlit("unhandled rebase case");
    }
    match names {
        Some((a, b)) => {
            let mut s = String::from_str("\x1b[1;35m...rebasing\x1b[0m ");
            s.append(a.as_str());
            s.append(" \x1b[1;35monto\x1b[0m ");
            s.append(b.as_str());
            s
        },
        None => if in_worktree {
            String::from_str("worktree rebase")
        } else {
            String::from_str("unhandled rebase case")
        },
    }
}

} // verus!
