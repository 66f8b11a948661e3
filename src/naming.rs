use vstd::prelude::*;

use crate::text::{count_char, count_occurrences, is_prefix, same_text, starts_with};

verus! {

pub open spec fn remotes_prefix() -> Seq<char> {
    "refs/remotes/"@
}

pub open spec fn heads_prefix() -> Seq<char> {
    "refs/heads/"@
}

pub open spec fn head_word() -> Seq<char> {
    "HEAD"@
}

pub open spec fn slash_head() -> Seq<char> {
    "/HEAD"@
}

pub open spec fn origin_master() -> Seq<char> {
    "origin/master"@
}

pub open spec fn origin_release() -> Seq<char> {
    "origin/release/"@
}

/// The contents of a `Vec<String>` or `[String]` as character sequences.
pub open spec fn views(v: Seq<String>) -> Seq<Seq<char>> {
    v.map_values(|s: String| s@)
}

/// Whether a name with `refs/remotes/` taken off is `<remote>/HEAD`, the pointer
/// to a remote's default branch.
pub open spec fn is_remote_head(rest: Seq<char>) -> bool {
    &&& rest.len() >= slash_head().len()
    &&& rest.subrange(rest.len() - slash_head().len(), rest.len() as int) == slash_head()
    &&& count_char(rest.subrange(0, rest.len() - slash_head().len()), '/') == 0
}

/// `refs/remotes/<remote>/<path>` shortened to `<remote>/<path>`; nothing for a name
/// outside `refs/remotes/`, for a remote's `HEAD` pointer and for an empty remainder.
pub open spec fn abbreviated(full: Seq<char>) -> Option<Seq<char>> {
    if is_prefix(remotes_prefix(), full) {
        let rest = full.subrange(remotes_prefix().len() as int, full.len() as int);
        if rest.len() == 0 || is_remote_head(rest) {
            None
        } else {
            Some(rest)
        }
    } else {
        None
    }
}

/// The display candidate that a full remote-tracking reference name yields, if any.
pub open spec fn candidate_name(full: Seq<char>) -> Option<Seq<char>> {
    match abbreviated(full) {
        Some(a) => if a == head_word() {
            None
        } else {
            Some(a)
        },
        None => None,
    }
}

/// The display candidates of a list of full reference names, in their order.
pub open spec fn candidates(names: Seq<Seq<char>>) -> Seq<Seq<char>>
    decreases names.len(),
{
    if names.len() == 0 {
        Seq::empty()
    } else {
        let init = candidates(names.drop_last());
        match candidate_name(names.last()) {
            Some(c) => init.push(c),
            None => init,
        }
    }
}

/// Namespace depth: the number of `/` in a name.
pub open spec fn depth(s: Seq<char>) -> nat {
    count_char(s, '/')
}

/// The least depth among a non-empty list of names.
pub open spec fn min_depth(c: Seq<Seq<char>>) -> nat
    decreases c.len(),
{
    if c.len() <= 1 {
        depth(c[0])
    } else {
        let m = min_depth(c.drop_last());
        if depth(c.last()) < m {
            depth(c.last())
        } else {
            m
        }
    }
}

/// The names at the least depth, in their order.
pub open spec fn shallowest(c: Seq<Seq<char>>) -> Seq<Seq<char>> {
    c.filter(|x: Seq<char>| depth(x) == min_depth(c))
}

pub open spec fn is_release(s: Seq<char>) -> bool {
    is_prefix(origin_release(), s)
}

/// The index of the first name from `i` on that starts with `origin/release/`, or the
/// length of `s` where there is none.
pub open spec fn release_from(s: Seq<Seq<char>>, i: int) -> int
    decreases s.len() - i,
{
    if i >= s.len() {
        s.len() as int
    } else if is_release(s[i]) {
        i
    } else {
        release_from(s, i + 1)
    }
}

/// The preferred name among non-empty ties: `origin/master`, else the first
/// `origin/release/...`, else the first.
pub open spec fn preferred(s: Seq<Seq<char>>) -> Seq<char> {
    if s.contains(origin_master()) {
        origin_master()
    } else if release_from(s, 0) < s.len() {
        s[release_from(s, 0)]
    } else {
        s[0]
    }
}

/// The best display name for a list of full remote-tracking reference names.
pub open spec fn best_name(names: Seq<Seq<char>>) -> Seq<char> {
    preferred(shallowest(candidates(names)))
}

/// The remote-tracking branches that point at `commit`: each one's full reference name
/// and the commit identifier that it resolves to, where either could be read.
pub struct BranchRef {
    pub name: Option<String>,
    pub commit: Option<String>,
}

/// The names of the references in `refs` that resolve to `commit`, in their order.
pub open spec fn matching_names(refs: Seq<BranchRef>, commit: Seq<char>) -> Seq<Seq<char>>
    decreases refs.len(),
{
    if refs.len() == 0 {
        Seq::empty()
    } else {
        let init = matching_names(refs.drop_last(), commit);
        let b = refs.last();
        if b.name is Some && b.commit is Some && b.commit->0@ == commit {
            init.push(b.name->0@)
        } else {
            init
        }
    }
}

/// A commit identifier cut to its first eight characters.
pub open spec fn short_id(commit: Seq<char>) -> Seq<char> {
    if commit.len() <= 8 {
        commit
    } else {
        commit.subrange(0, 8)
    }
}

/// The display name of a commit: the best remote-tracking branch name among `refs`
/// that point at it, or its short identifier where none fits.
pub open spec fn commit_name(refs: Seq<BranchRef>, commit: Seq<char>) -> Seq<char> {
    let m = matching_names(refs, commit);
    if candidates(m).len() == 0 {
        short_id(commit)
    } else {
        best_name(m)
    }
}

/// `s` with the local-branch prefix `refs/heads/` removed, where it has it.
pub open spec fn strip_heads(s: Seq<char>) -> Seq<char> {
    if is_prefix(heads_prefix(), s) {
        s.subrange(heads_prefix().len() as int, s.len() as int)
    } else {
        s
    }
}

/// Whether a name with `refs/remotes/` taken off is `<remote>/HEAD`.
fn remote_head(rest: &str) -> (r: bool)
    ensures
        r == is_remote_head(rest@),
{
    let tail: &str = "/HEAD";
    proof {
        reveal_strlit("/HEAD");
    }
    let n = rest.unicode_len();
    if n < 5 {
        return false;
    }
    let end = rest.substring_char(n - 5, n);
    let remote = rest.substring_char(0, n - 5);
    same_text(end, tail) && count_occurrences(remote, '/') == 0
}

/// Shortens a full remote-tracking reference name `refs/remotes/<remote>/<path>` to
/// `<remote>/<path>`. Gives `None` for a name outside `refs/remotes/`, for a remote's
/// `HEAD` pointer and where nothing is left.
pub fn abbreviated_remote_branch_name(full_name: &String) -> (r: Option<String>)
    ensures
        r matches Some(s) ==> abbreviated(full_name@) == Some(s@),
        r is None ==> abbreviated(full_name@) is None,
{
    let prefix: &str = "refs/remotes/";
    proof {
        reveal_strlit("refs/remotes/");
    }
    let full = full_name.as_str();
    if !starts_with(full, prefix) {
        return None;
    }
    let n = full.unicode_len();
    let rest = full.substring_char(13, n);
    if n == 13 || remote_head(rest) {
        None
    } else {
        Some(String::from_str(rest))
    }
}

/// The display candidates of full reference names, in their order.
pub fn candidate_names(branch_names: &[String]) -> (r: Vec<String>)
    ensures
        views(r@) == candidates(views(branch_names@)),
{
    let head: &str = "HEAD";
    let n = branch_names.len();
    let mut out: Vec<String> = Vec::new();
    let mut i: usize = 0;
    while i < n
        invariant
            n == branch_names@.len(),
            i <= n,
            head@ == head_word(),
            views(out@) == candidates(views(branch_names@).subrange(0, i as int)),
        decreases n - i,
    {
        let ghost before = out@;
        let ghost seen = views(branch_names@).subrange(0, i + 1);
        assert(seen.drop_last() =~= views(branch_names@).subrange(0, i as int));
        assert(seen.last() == branch_names@[i as int]@);
        let a = abbreviated_remote_branch_name(&branch_names[i]);
        if let Some(s) = a {
            if !same_text(s.as_str(), head) {
                out.push(s);
                assert(views(out@) =~= views(before).push(out@.last()@));
            }
        }
        i = i + 1;
    }
    assert(views(branch_names@).subrange(0, n as int) =~= views(branch_names@));
    out
}

/// The least depth is a lower bound of the depths and is reached.
pub proof fn lemma_min_depth(c: Seq<Seq<char>>)
    requires
        c.len() > 0,
    ensures
        forall|i: int| 0 <= i < c.len() ==> depth(#[trigger] c[i]) >= min_depth(c),
        exists|i: int| 0 <= i < c.len() && depth(#[trigger] c[i]) == min_depth(c),
    decreases c.len(),
{
    if c.len() > 1 {
        let d = c.drop_last();
        lemma_min_depth(d);
        let j = choose|j: int| 0 <= j < d.len() && depth(#[trigger] d[j]) == min_depth(d);
        if depth(c.last()) < min_depth(d) {
            assert(depth(c[c.len() - 1]) == min_depth(c));
        } else {
            assert(c[j] == d[j]);
            assert(depth(c[j]) == min_depth(c));
        }
        assert forall|i: int| 0 <= i < c.len() implies depth(#[trigger] c[i]) >= min_depth(c) by {
            if i < c.len() - 1 {
                assert(c[i] == d[i]);
            }
        }
    } else {
        assert(depth(c[0]) == min_depth(c));
    }
}

/// Some candidate is at the least depth, so ties are never empty.
pub proof fn lemma_shallowest_nonempty(c: Seq<Seq<char>>)
    requires
        c.len() > 0,
    ensures
        shallowest(c).len() > 0,
{
    lemma_min_depth(c);
    let i = choose|i: int| 0 <= i < c.len() && depth(#[trigger] c[i]) == min_depth(c);
    c.lemma_filter_contains(|x: Seq<char>| depth(x) == min_depth(c), i);
}

/// Picks the display name for a set of full remote-tracking reference names: keep the
/// candidates at the least namespace depth, then prefer `origin/master`, then the first
/// `origin/release/...`, then the first candidate.
pub fn find_best_branch_name(branch_names: &[String]) -> (r: String)
    requires
        candidates(views(branch_names@)).len() > 0,
    ensures
        r@ == best_name(views(branch_names@)),
{
    let cands = candidate_names(branch_names);
    let ghost c = views(cands@);
    let n = cands.len();
    let mut m = count_occurrences(cands[0].as_str(), '/');
    let mut i: usize = 1;
    while i < n
        invariant
            n == c.len(),
            1 <= i <= n,
            c == views(cands@),
            m == min_depth(c.subrange(0, i as int)),
        decreases n - i,
    {
        assert(c.subrange(0, i + 1).drop_last() =~= c.subrange(0, i as int));
        let d = count_occurrences(cands[i].as_str(), '/');
        if d < m {
            m = d;
        }
        i = i + 1;
    }
    assert(c.subrange(0, n as int) =~= c);
    let mut sifted: Vec<String> = Vec::new();
    i = 0;
    while i < n
        invariant
            n == c.len(),
            i <= n,
            c == views(cands@),
            m == min_depth(c),
            views(sifted@) == c.subrange(0, i as int).filter(
                |x: Seq<char>| depth(x) == min_depth(c),
            ),
        decreases n - i,
    {
        let ghost pred = |x: Seq<char>| depth(x) == min_depth(c);
        let ghost seen = c.subrange(0, i + 1);
        assert(seen.drop_last() =~= c.subrange(0, i as int));
        assert(seen.last() == c[i as int]);
        assert(c[i as int] == cands@[i as int]@);
        reveal(Seq::filter);
        assert(seen.filter(pred) == if pred(c[i as int]) {
            c.subrange(0, i as int).filter(pred).push(c[i as int])
        } else {
            c.subrange(0, i as int).filter(pred)
        });
        let ghost before = sifted@;
        let d = count_occurrences(cands[i].as_str(), '/');
        if d == m {
            sifted.push(cands[i].clone());
            assert(views(sifted@) =~= views(before).push(c[i as int]));
        }
        i = i + 1;
    }
    assert(c.subrange(0, n as int) =~= c);
    let ghost s = views(sifted@);
    assert(s == shallowest(c));
    proof {
        lemma_shallowest_nonempty(c);
    }
    let k = sifted.len();
    let om: &str = "origin/master";
    i = 0;
    while i < k
        invariant
            k == s.len(),
            i <= k,
            s == views(sifted@),
            s == shallowest(c),
            c == candidates(views(branch_names@)),
            om@ == origin_master(),
            forall|j: int| 0 <= j < i ==> s[j] != origin_master(),
        decreases k - i,
    {
        if same_text(sifted[i].as_str(), om) {
            assert(s[i as int] == origin_master());
            return sifted[i].clone();
        }
        i = i + 1;
    }
    let rel: &str = "origin/release/";
    i = 0;
    while i < k
        invariant
            k == s.len(),
            i <= k,
            s == views(sifted@),
            s == shallowest(c),
            c == candidates(views(branch_names@)),
            rel@ == origin_release(),
            !s.contains(origin_master()),
            release_from(s, 0) == release_from(s, i as int),
        decreases k - i,
    {
        if starts_with(sifted[i].as_str(), rel) {
            return sifted[i].clone();
        }
        i = i + 1;
    }
    sifted[0].clone()
}

proof fn lemma_candidates_nonempty(names: Seq<Seq<char>>)
    ensures
        forall|i: int|
            0 <= i < candidates(names).len() ==> (#[trigger] candidates(names)[i]).len() > 0,
    decreases names.len(),
{
    if names.len() > 0 {
        let init = candidates(names.drop_last());
        lemma_candidates_nonempty(names.drop_last());
        assert forall|i: int|
            0 <= i < candidates(names).len() implies (#[trigger] candidates(names)[i]).len() > 0 by {
            if i < init.len() {
                assert(candidates(names)[i] == init[i]);
            }
        }
    }
}

proof fn lemma_filter_nonempty(c: Seq<Seq<char>>, pred: spec_fn(Seq<char>) -> bool)
    requires
        forall|i: int| 0 <= i < c.len() ==> (#[trigger] c[i]).len() > 0,
    ensures
        forall|i: int| 0 <= i < c.filter(pred).len() ==> (#[trigger] c.filter(pred)[i]).len() > 0,
    decreases c.len(),
{
    reveal(Seq::filter);
    if c.len() > 0 {
        let d = c.drop_last();
        assert forall|i: int| 0 <= i < d.len() implies (#[trigger] d[i]).len() > 0 by {
            assert(d[i] == c[i]);
        }
        lemma_filter_nonempty(d, pred);
        let sub = d.filter(pred);
        assert forall|i: int|
            0 <= i < c.filter(pred).len() implies (#[trigger] c.filter(pred)[i]).len() > 0 by {
            if i < sub.len() {
                assert(c.filter(pred)[i] == sub[i]);
            } else {
                assert(c.filter(pred)[i] == c.last());
            }
        }
    }
}

/// The name chosen among candidates is never empty.
pub proof fn lemma_best_name_nonempty(names: Seq<Seq<char>>)
    requires
        candidates(names).len() > 0,
    ensures
        best_name(names).len() > 0,
{
    let c = candidates(names);
    lemma_candidates_nonempty(names);
    lemma_shallowest_nonempty(c);
    lemma_filter_nonempty(c, |x: Seq<char>| depth(x) == min_depth(c));
    reveal_strlit("origin/master");
    let s = shallowest(c);
    if !s.contains(origin_master()) && release_from(s, 0) < s.len() {
        lemma_release_in_range(s, 0);
    }
}

proof fn lemma_release_in_range(s: Seq<Seq<char>>, i: int)
    requires
        0 <= i,
    ensures
        i <= release_from(s, i) <= s.len() || i > s.len(),
        release_from(s, i) >= 0,
    decreases s.len() - i,
{
    if i < s.len() && !is_release(s[i]) {
        lemma_release_in_range(s, i + 1);
    }
}

/// Names a commit for display: the best remote-tracking branch name among the
/// references in `refs` that resolve to it, else its first eight characters.
pub fn commit_display_name(refs: &Vec<BranchRef>, commit: &String) -> (r: String)
    ensures
        r@ == commit_name(refs@, commit@),
        candidates(matching_names(refs@, commit@)).len() == 0 ==> r@ == short_id(commit@),
        commit@.len() > 0 ==> r@.len() > 0,
{
    let n = refs.len();
    let mut matching: Vec<String> = Vec::new();
    let mut i: usize = 0;
    while i < n
        invariant
            n == refs@.len(),
            i <= n,
            views(matching@) == matching_names(refs@.subrange(0, i as int), commit@),
        decreases n - i,
    {
        let ghost seen = refs@.subrange(0, i + 1);
        assert(seen.drop_last() =~= refs@.subrange(0, i as int));
        let ghost before = matching@;
        let b = &refs[i];
        if let Some(name) = &b.name {
            if let Some(c) = &b.commit {
                if same_text(c.as_str(), commit.as_str()) {
                    matching.push(name.clone());
                    assert(views(matching@) =~= views(before).push(name@));
                }
            }
        }
        i = i + 1;
    }
    assert(refs@.subrange(0, n as int) =~= refs@);
    let found = candidate_names(matching.as_slice());
    if found.len() == 0 {
        let len = commit.as_str().unicode_len();
        let cut = if len <= 8 {
            len
        } else {
            8
        };
        let short = commit.as_str().substring_char(0, cut);
        assert(len <= 8 ==> commit@.subrange(0, len as int) =~= commit@);
        String::from_str(short)
    } else {
        proof {
            lemma_best_name_nonempty(views(matching@));
        }
        find_best_branch_name(matching.as_slice())
    }
}

/// A reference name with the prefix `refs/heads/` removed: a local branch's short name.
pub fn short_branch_name(full: &str) -> (r: String)
    ensures
        r@ == strip_heads(full@),
{
    let prefix: &str = "refs/heads/";
    proof {
        reveal_strlit("refs/heads/");
    }
    if starts_with(full, prefix) {
        let n = full.unicode_len();
        String::from_str(full.substring_char(11, n))
    } else {
        String::from_str(full)
    }
}

proof fn lemma_filter_keeps_all(c: Seq<Seq<char>>, pred: spec_fn(Seq<char>) -> bool)
    requires
        forall|i: int| 0 <= i < c.len() ==> pred(#[trigger] c[i]),
    ensures
        c.filter(pred) == c,
    decreases c.len(),
{
    reveal(Seq::filter);
    if c.len() > 0 {
        let d = c.drop_last();
        assert forall|i: int| 0 <= i < d.len() implies pred(#[trigger] d[i]) by {
            assert(d[i] == c[i]);
        }
        lemma_filter_keeps_all(d, pred);
        assert(d.push(c.last()) =~= c);
    }
}

proof fn lemma_no_release(s: Seq<Seq<char>>, i: int)
    requires
        0 <= i <= s.len(),
        forall|j: int| i <= j < s.len() ==> !is_release(#[trigger] s[j]),
    ensures
        release_from(s, i) == s.len(),
    decreases s.len() - i,
{
    if i < s.len() {
        lemma_no_release(s, i + 1);
    }
}

/// When `origin/master` is a candidate and no candidate has fewer `/` than it, it is
/// the name chosen, whatever the other candidates are.
pub proof fn lemma_origin_master_preferred(names: Seq<Seq<char>>)
    requires
        candidates(names).contains(origin_master()),
        forall|i: int|
            0 <= i < candidates(names).len() ==> depth(#[trigger] candidates(names)[i]) >= depth(
                origin_master(),
            ),
    ensures
        best_name(names) == origin_master(),
{
    let c = candidates(names);
    lemma_min_depth(c);
    let k = choose|k: int| 0 <= k < c.len() && c[k] == origin_master();
    let j = choose|j: int| 0 <= j < c.len() && depth(#[trigger] c[j]) == min_depth(c);
    assert(depth(c[k]) >= min_depth(c));
    assert(depth(c[j]) >= depth(origin_master()));
    c.lemma_filter_contains(|x: Seq<char>| depth(x) == min_depth(c), k);
}

/// A name is a candidate exactly when some full name yields it.
proof fn lemma_candidate_members(names: Seq<Seq<char>>, x: Seq<char>)
    ensures
        candidates(names).contains(x) <==> exists|i: int|
            0 <= i < names.len() && #[trigger] candidate_name(names[i]) == Some(x),
    decreases names.len(),
{
    if names.len() > 0 {
        let d = names.drop_last();
        let init = candidates(d);
        lemma_candidate_members(d, x);
        if candidates(names).contains(x) {
            let k = choose|k: int| 0 <= k < candidates(names).len() && candidates(names)[k] == x;
            if k < init.len() {
                assert(init[k] == x);
                let i = choose|i: int| 0 <= i < d.len() && #[trigger] candidate_name(d[i]) == Some(x);
                assert(names[i] == d[i]);
            } else {
                assert(candidate_name(names[names.len() - 1]) == Some(x));
            }
        }
        if exists|i: int| 0 <= i < names.len() && #[trigger] candidate_name(names[i]) == Some(x) {
            let i = choose|i: int| 0 <= i < names.len() && #[trigger] candidate_name(names[i]) == Some(x);
            if i < d.len() {
                assert(d[i] == names[i]);
                assert(candidate_name(d[i]) == Some(x));
                let k = choose|k: int| 0 <= k < init.len() && init[k] == x;
                assert(candidates(names)[k] == x);
            } else {
                assert(candidates(names)[candidates(names).len() - 1] == x);
            }
        }
    }
}

/// Two lists holding the same full names have the same candidates, whatever their order.
proof fn lemma_candidates_same_members(xs: Seq<Seq<char>>, ys: Seq<Seq<char>>, x: Seq<char>)
    requires
        xs.to_multiset() == ys.to_multiset(),
        candidates(xs).contains(x),
    ensures
        candidates(ys).contains(x),
{
    lemma_candidate_members(xs, x);
    lemma_candidate_members(ys, x);
    let i = choose|i: int| 0 <= i < xs.len() && #[trigger] candidate_name(xs[i]) == Some(x);
    xs.to_multiset_ensures();
    ys.to_multiset_ensures();
    assert(xs.contains(xs[i]));
    assert(ys.to_multiset().count(xs[i]) > 0);
    let j = choose|j: int| 0 <= j < ys.len() && ys[j] == xs[i];
    assert(candidate_name(ys[j]) == Some(x));
}

/// The preference for `origin/master` does not depend on the order of the names: for
/// any reordering `ys` of `xs` in which `origin/master` is a candidate and no candidate
/// has fewer `/` than it, the name chosen from `ys` is `origin/master`.
pub proof fn lemma_origin_master_preferred_any_order(xs: Seq<Seq<char>>, ys: Seq<Seq<char>>)
    requires
        xs.to_multiset() == ys.to_multiset(),
        candidates(xs).contains(origin_master()),
        forall|i: int|
            0 <= i < candidates(xs).len() ==> depth(#[trigger] candidates(xs)[i]) >= depth(
                origin_master(),
            ),
    ensures
        best_name(ys) == origin_master(),
{
    lemma_candidates_same_members(xs, ys, origin_master());
    assert forall|k: int| 0 <= k < candidates(ys).len() implies depth(
        #[trigger] candidates(ys)[k],
    ) >= depth(origin_master()) by {
        let y = candidates(ys)[k];
        assert(candidates(ys).contains(y));
        lemma_candidates_same_members(ys, xs, y);
        let i = choose|i: int| 0 <= i < candidates(xs).len() && candidates(xs)[i] == y;
        assert(depth(candidates(xs)[i]) >= depth(origin_master()));
    }
    lemma_origin_master_preferred(ys);
}

/// When all candidates share one depth and none is `origin/master` or starts with
/// `origin/release/`, the name chosen is the first candidate in the order given: the
/// same list always yields the same name.
pub proof fn lemma_first_candidate_wins(names: Seq<Seq<char>>)
    requires
        candidates(names).len() > 0,
        forall|i: int, j: int|
            0 <= i < candidates(names).len() && 0 <= j < candidates(names).len() ==> depth(
                #[trigger] candidates(names)[i],
            ) == depth(#[trigger] candidates(names)[j]),
        forall|i: int|
            0 <= i < candidates(names).len() ==> #[trigger] candidates(names)[i] != origin_master()
                && !is_release(candidates(names)[i]),
    ensures
        best_name(names) == candidates(names)[0],
{
    let c = candidates(names);
    lemma_min_depth(c);
    let j = choose|j: int| 0 <= j < c.len() && depth(#[trigger] c[j]) == min_depth(c);
    let pred = |x: Seq<char>| depth(x) == min_depth(c);
    assert forall|i: int| 0 <= i < c.len() implies pred(#[trigger] c[i]) by {
        assert(depth(c[i]) == depth(c[j]));
    }
    lemma_filter_keeps_all(c, pred);
    assert(shallowest(c) == c);
    lemma_no_release(c, 0);
}

} // verus!
