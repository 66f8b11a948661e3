use vstd::prelude::*;

use std::path::Path;

use crate::naming::{
    commit_display_name, commit_name, head_word, short_branch_name, strip_heads, BranchRef,
};
use crate::state::{
    classify, fixed_label, operation_of, rebase_label, rebase_text, state_label, OperationState, RepoState,
};
use crate::summary::{change_summary, change_text, divergence, divergence_token};
use crate::text::same_text;

verus! {

#[verifier::external_type_specification]
#[verifier::external_body]
pub struct ExPath(Path);

#[verifier::external_type_specification]
#[verifier::external_body]
pub struct ExRepository(git2::Repository);

#[verifier::external_type_specification]
#[verifier::external_body]
pub struct ExReference<'repo>(git2::Reference<'repo>);

#[verifier::external_type_specification]
#[verifier::external_body]
pub struct ExBranch<'repo>(git2::Branch<'repo>);

/// What looking up the head gave.
enum HeadLookup<'repo> {
    Found(git2::Reference<'repo>),
    /// The head names a branch that has no commit yet.
    Unborn,
    Failed,
}

/// Relies on git2::Repository::discover: the repository that holds `path`, if any.
#[verifier::external_body]
fn discover(path: &Path) -> (r: Option<git2::Repository>) {
    git2::Repository::discover(path).ok()
}

/// Relies on git2::Repository::state: the operation in progress, variant for variant.
#[verifier::external_body]
fn repository_state(repo: &git2::Repository) -> (r: RepoState) {
    match repo.state() {
        git2::RepositoryState::Clean => RepoState::Clean,
        git2::RepositoryState::Merge => RepoState::Merge,
        git2::RepositoryState::Revert => RepoState::Revert,
        git2::RepositoryState::RevertSequence => RepoState::RevertSequence,
        git2::RepositoryState::CherryPick => RepoState::CherryPick,
        git2::RepositoryState::CherryPickSequence => RepoState::CherryPickSequence,
        git2::RepositoryState::Bisect => RepoState::Bisect,
        git2::RepositoryState::Rebase => RepoState::Rebase,
        git2::RepositoryState::RebaseInteractive => RepoState::RebaseInteractive,
        git2::RepositoryState::RebaseMerge => RepoState::RebaseMerge,
        git2::RepositoryState::ApplyMailbox => RepoState::ApplyMailbox,
        git2::RepositoryState::ApplyMailboxOrRebase => RepoState::ApplyMailboxOrRebase,
    }
}

/// Relies on git2::Repository::head, and on git2::Error::code to tell an unborn
/// branch from other failures.
#[verifier::external_body]
fn head(repo: &git2::Repository) -> (r: HeadLookup<'_>) {
    match repo.head() {
        Ok(r) => HeadLookup::Found(r),
        Err(e) if e.code() == git2::ErrorCode::UnbornBranch => HeadLookup::Unborn,
        Err(_) => HeadLookup::Failed,
    }
}

/// Relies on git2::Repository::is_bare: whether the repository has no working tree.
#[verifier::external_body]
fn is_bare(repo: &git2::Repository) -> (r: bool) {
    repo.is_bare()
}

/// Relies on git2::Repository::is_worktree: whether the repository is a linked worktree.
#[verifier::external_body]
fn is_worktree(repo: &git2::Repository) -> (r: bool) {
    repo.is_worktree()
}

/// Relies on git2::Repository::find_reference: the reference of that name, if any.
#[verifier::external_body]
fn find_reference<'repo>(repo: &'repo git2::Repository, name: &str) -> (r: Option<
    git2::Reference<'repo>,
>) {
    repo.find_reference(name).ok()
}

/// Relies on git2::Reference::name: the full name, where it is valid UTF-8.
#[verifier::external_body]
fn reference_name(reference: &git2::Reference) -> (r: Option<String>) {
    reference.name().map(|n| n.to_string())
}

/// Relies on git2::Reference::peel to a commit and on git2::Oid's hexadecimal
/// `Display`: the identifier of the commit the reference leads to.
/// An object id prints as its 40 hexadecimal digits.
#[verifier::external_body]
fn reference_commit(reference: &git2::Reference) -> (r: Option<String>)
    ensures
        r matches Some(s) ==> s@.len() == 40,
{
    reference.peel(git2::ObjectType::Commit).ok().map(|o| o.id().to_string())
}

/// Relies on git2::Repository::branches: the remote-tracking branches that could be read.
#[verifier::external_body]
fn remote_branches(repo: &git2::Repository) -> (r: Vec<git2::Branch<'_>>) {
    match repo.branches(Some(git2::BranchType::Remote)) {
        Ok(it) => it.filter_map(|b| b.ok()).map(|b| b.0).collect(),
        Err(_) => Vec::new(),
    }
}

/// Relies on git2::Repository::find_branch: the local branch of that short name, if any.
#[verifier::external_body]
fn find_local_branch<'repo>(repo: &'repo git2::Repository, name: &str) -> (r: Option<
    git2::Branch<'repo>,
>) {
    repo.find_branch(name, git2::BranchType::Local).ok()
}

/// Relies on git2::Branch::get: the reference behind a branch.
#[verifier::external_body]
fn branch_reference<'a, 'repo>(branch: &'a git2::Branch<'repo>) -> (r: &'a git2::Reference<
    'repo,
>) {
    branch.get()
}

/// Relies on git2::Branch::upstream: the branch's configured upstream, if any.
#[verifier::external_body]
fn branch_upstream<'repo>(branch: &git2::Branch<'repo>) -> (r: Option<git2::Branch<'repo>>) {
    branch.upstream().ok()
}

/// Relies on git2::Branch::name: the branch's short name, where it is valid UTF-8.
#[verifier::external_body]
fn branch_name(branch: &git2::Branch) -> (r: Option<String>) {
    match branch.name() {
        Ok(Some(n)) => Some(n.to_string()),
        _ => None,
    }
}

/// Relies on git2::Oid::from_str and git2::Repository::graph_ahead_behind: the commits
/// that `local` has and `upstream` lacks, then those that `upstream` has and `local` lacks.
#[verifier::external_body]
fn graph_ahead_behind(repo: &git2::Repository, local: &String, upstream: &String) -> (r: Option<
    (usize, usize),
>) {
    let local = git2::Oid::from_str(local).ok()?;
    let upstream = git2::Oid::from_str(upstream).ok()?;
    repo.graph_ahead_behind(local, upstream).ok()
}

/// Relies on git2::Repository::statuses, with the index refreshed and untracked files
/// included, recursing into untracked directories, and on git2::Status::bits: the status
/// bits of each path.
#[verifier::external_body]
fn status_entries(repo: &git2::Repository) -> (r: Option<Vec<u32>>) {
    let mut opts = git2::StatusOptions::new();
    opts.update_index(true).include_untracked(true).recurse_untracked_dirs(true);
    let statuses = repo.statuses(Some(&mut opts)).ok()?;
    Some(statuses.iter().map(|e| e.status().bits()).collect())
}

/// The remote-tracking branches of `repo`, each with its full reference name and the
/// commit it leads to.
fn remote_branch_refs(repo: &git2::Repository) -> (r: Vec<BranchRef>) {
    let branches = remote_branches(repo);
    let n = branches.len();
    let mut out: Vec<BranchRef> = Vec::new();
    let mut i: usize = 0;
    while i < n
        invariant
            n == branches@.len(),
            i <= n,
        decreases n - i,
    {
        let reference = branch_reference(&branches[i]);
        out.push(BranchRef { name: reference_name(reference), commit: reference_commit(reference) });
        i = i + 1;
    }
    out
}

/// The head as read when the repository was opened.
pub enum HeadState {
    /// The full name of the reference the head points at (`refs/heads/<branch>`, or
    /// `HEAD` when detached).
    Named(String),
    /// The head names a branch that has no commit yet.
    Unborn,
    /// No repository, or the head could not be read, or its name is not valid UTF-8
    /// or has nothing past `refs/heads/`.
    Missing,
}

/// The head state for a head that was read, from its full name where that is valid
/// UTF-8: named where something is left past `refs/heads/`, else missing.
pub fn head_state_of(name: Option<String>) -> (r: HeadState)
    ensures
        match name {
            Some(n) => if strip_heads(n@).len() > 0 {
                r matches HeadState::Named(m) && m@ == n@
            } else {
                r is Missing
            },
            None => r is Missing,
        },
{
    match name {
        Some(n) => {
            let short = short_branch_name(n.as_str());
            if short.unicode_len() > 0 {
                HeadState::Named(n)
            } else {
                HeadState::Missing
            }
        },
        None => HeadState::Missing,
    }
}

/// The state of the repository that holds a path, summarised for a shell prompt.
pub struct GitPromptRepo {
    lg2_repo: Option<git2::Repository>,
    state: OperationState,
    head: HeadState,
    has_checkout: bool,
}

impl GitPromptRepo {
    /// Whether a repository was found.
    pub closed spec fn in_repository(&self) -> bool {
        self.lg2_repo is Some
    }

    /// The operation in progress, read once when the repository was opened.
    pub closed spec fn operation(&self) -> OperationState {
        self.state
    }

    /// The head, read once when the repository was opened.
    pub closed spec fn head_state(&self) -> HeadState {
        self.head
    }

    /// Whether the repository has a working tree.
    pub closed spec fn has_checkout(&self) -> bool {
        self.has_checkout
    }

    /// Outside a repository nothing was read; the head is unborn exactly when the
    /// operation is; a named head has a non-empty short name.
    pub open spec fn wf(&self) -> bool {
        &&& !self.in_repository() ==> {
            &&& self.head_state() is Missing
            &&& self.operation() == OperationState::Clean
            &&& !self.has_checkout()
        }
        &&& (self.operation() == OperationState::Unborn <==> self.head_state() is Unborn)
        &&& self.head_state() matches HeadState::Named(n) ==> strip_heads(n@).len() > 0
    }

    /// Opens the repository that holds `path_spec`, if any, and reads its state and head.
    pub fn new(path_spec: &Path) -> (r: GitPromptRepo)
        ensures
            r.wf(),
            exists|raw: RepoState| r.operation() == #[trigger] operation_of(raw, r.head_state() is Unborn),
    {
        let lg2_repo = discover(path_spec);
        let mut state = OperationState::Clean;
        let mut head_state = HeadState::Missing;
        let mut has_checkout = false;
        let ghost mut raw_read = RepoState::Clean;
        if let Some(repo) = &lg2_repo {
            let raw = repository_state(repo);
            let unborn = match head(repo) {
                HeadLookup::Found(r) => {
                    head_state = head_state_of(reference_name(&r));
                    false
                },
                HeadLookup::Unborn => {
                    head_state = HeadState::Unborn;
                    true
                },
                HeadLookup::Failed => false,
            };
            state = classify(raw, unborn);
            proof {
                raw_read = raw;
            }
            has_checkout = !is_bare(repo);
        }
        assert(state == operation_of(raw_read, head_state is Unborn));
        GitPromptRepo { lg2_repo, state, head: head_state, has_checkout }
    }

    /// The local branch that the head names, if it names one.
    fn head_to_branch(&self) -> (r: Option<git2::Branch<'_>>)
        requires
            self.wf(),
        ensures
            !(self.head_state() is Named) ==> r is None,
            self.head_state() matches HeadState::Named(n) && strip_heads(n@) == head_word() ==> r is None,
    {
        match (&self.lg2_repo, &self.head) {
            (Some(repo), HeadState::Named(full)) => {
                let short = short_branch_name(full.as_str());
                if same_text(short.as_str(), "HEAD") {
                    return None;
                }
                find_local_branch(repo, short.as_str())
            },
            _ => None,
        }
    }

    /// The position label: the fixed label of an operation in progress, the rebase
    /// label, the short name of the checked-out branch, or, when detached, the display
    /// name of the checked-out commit. Empty outside a repository, and where the head
    /// could not be read.
    pub fn ref_name_head(&self) -> (r: String)
        requires
            self.wf(),
        ensures
            !self.in_repository() ==> r@ == Seq::<char>::empty(),
            fixed_label(self.operation()) matches Some(l) ==> r@ == l,
            self.operation() == OperationState::Rebasing ==> (exists|w: bool|
                r@ == rebase_text(None, w)) || (exists|
                refs: Seq<BranchRef>,
                a: Seq<char>,
                b: Seq<char>,
                w: bool,
            | r@ == rebase_text(Some((commit_name(refs, a), commit_name(refs, b))), w)),
            self.in_repository() && !(self.head_state() is Missing) ==> r@.len() > 0,
            self.operation() == OperationState::Clean ==> match self.head_state() {
                HeadState::Named(n) => if strip_heads(n@) != head_word() {
                    r@ == strip_heads(n@)
                } else {
                    r@ == head_word() || exists|refs: Seq<BranchRef>, c: Seq<char>|
                        c.len() == 40 && r@ == #[trigger] commit_name(refs, c)
                },
                _ => r@ == Seq::<char>::empty(),
            },
    {
        let repo = match &self.lg2_repo {
            Some(repo) => repo,
            None => return String::new(),
        };
        if let Some(label) = state_label(self.state) {
            return label;
        }
        if self.state == OperationState::Rebasing {
            let replayed = find_reference(repo, "rebase-apply/orig-head");
            let onto = find_reference(repo, "rebase-apply/onto");
            let commits = match (replayed, onto) {
                (Some(a), Some(b)) => (reference_commit(&a), reference_commit(&b)),
                _ => (None, None),
            };
            let in_worktree = is_worktree(repo);
            if let (Some(a), Some(b)) = commits {
                let refs = remote_branch_refs(repo);
                let x = commit_display_name(&refs, &a);
                let y = commit_display_name(&refs, &b);
                let label = rebase_label(Some((x, y)), in_worktree);
                assert(label@ == rebase_text(
                    Some((commit_name(refs@, a@), commit_name(refs@, b@))),
                    in_worktree,
                ));
                return label;
            }
            let label = rebase_label(None, in_worktree);
            assert(label@ == rebase_text(None, in_worktree));
            return label;
        }
        match &self.head {
            HeadState::Named(full) => {
                let short = short_branch_name(full.as_str());
                if !same_text(short.as_str(), "HEAD") {
                    return short;
                }
                match head(repo) {
                    HeadLookup::Found(reference) => match reference_commit(&reference) {
                        Some(c) => {
                            let refs = remote_branch_refs(repo);
                            commit_display_name(&refs, &c)
                        },
                        None => short,
                    },
                    _ => short,
                }
            },
            _ => String::new(),
        }
    }

    /// The short name of the checked-out branch's upstream; empty where there is none.
    pub fn upstream_name(&self) -> (r: String)
        requires
            self.wf(),
        ensures
            !self.in_repository() ==> r@ == Seq::<char>::empty(),
            !(self.head_state() is Named) ==> r@ == Seq::<char>::empty(),
            self.head_state() matches HeadState::Named(n) && strip_heads(n@) == head_word() ==> r@
                == Seq::<char>::empty(),
    {
        if let Some(branch) = self.head_to_branch() {
            if let Some(upstream) = branch_upstream(&branch) {
                if let Some(name) = branch_name(&upstream) {
                    return name;
                }
            }
        }
        String::new()
    }

    /// How far the checked-out branch has diverged from its upstream, as `↓·<behind>`
    /// then `↑·<ahead>`; empty where there is no upstream or it cannot be compared.
    pub fn ahead_behind(&self) -> (r: String)
        requires
            self.wf(),
        ensures
            !self.in_repository() ==> r@ == Seq::<char>::empty(),
            !(self.head_state() is Named) ==> r@ == Seq::<char>::empty(),
            self.head_state() matches HeadState::Named(n) && strip_heads(n@) == head_word() ==> r@
                == Seq::<char>::empty(),
            r@ == Seq::<char>::empty() || exists|a: nat, b: nat| r@ == divergence(a, b),
    {
        let repo = match &self.lg2_repo {
            Some(repo) => repo,
            None => return String::new(),
        };
        if let Some(branch) = self.head_to_branch() {
            if let Some(upstream) = branch_upstream(&branch) {
                let local_tip = reference_commit(branch_reference(&branch));
                let upstream_tip = reference_commit(branch_reference(&upstream));
                if let (Some(l), Some(u)) = (local_tip, upstream_tip) {
                    if let Some((ahead, behind)) = graph_ahead_behind(repo, &l, &u) {
                        return divergence_token(ahead, behind);
                    }
                }
            }
        }
        String::new()
    }

    /// The change summary of the working tree; empty for a bare repository or outside
    /// one. A status query that fails counts as no change.
    pub fn status(&self) -> (r: String)
        requires
            self.wf(),
        ensures
            !self.in_repository() ==> r@ == Seq::<char>::empty(),
            !self.has_checkout() ==> r@ == Seq::<char>::empty(),
            self.has_checkout() ==> exists|e: Seq<u32>| r@ == change_text(e),
    {
        if !self.has_checkout {
            return String::new();
        }
        let repo = match &self.lg2_repo {
            Some(repo) => repo,
            None => return String::new(),
        };
        let entries = match status_entries(repo) {
            Some(e) => e,
            None => Vec::new(),
        };
        change_summary(&entries)
    }
}

} // verus!
