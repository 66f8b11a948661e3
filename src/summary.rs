use vstd::prelude::*;

use crate::text::{decimal, decimal_string};

verus! {

/// Status bits of a path, as libgit2 numbers them (`git2::Status`).
pub const INDEX_NEW: u32 = 1;

pub const INDEX_MODIFIED: u32 = 2;

pub const INDEX_DELETED: u32 = 4;

pub const WT_NEW: u32 = 128;

pub const WT_MODIFIED: u32 = 256;

pub const WT_DELETED: u32 = 512;

pub const CONFLICTED: u32 = 32768;

/// Divergence from the upstream: `↓·<behind>` then `↑·<ahead>`, each left out when zero.
pub open spec fn divergence(ahead: nat, behind: nat) -> Seq<char> {
    (if behind > 0 {
        "↓·"@ + decimal(behind)
    } else {
        Seq::empty()
    }) + (if ahead > 0 {
        "↑·"@ + decimal(ahead)
    } else {
        Seq::empty()
    })
}

/// Formats the commits that the local branch has (`ahead`) and lacks (`behind`)
/// against its upstream.
pub fn divergence_token(ahead: usize, behind: usize) -> (r: String)
    ensures
        r@ == divergence(ahead as nat, behind as nat),
{
    let mut s = String::new();
    if behind > 0 {
        s.append("↓·");
        let d = decimal_string(behind);
        s.append(d.as_str());
    }
    let ghost first = s@;
    if ahead > 0 {
        s.append("↑·");
        let d = decimal_string(ahead);
        s.append(d.as_str());
        assert(s@ =~= first + ("↑·"@ + decimal(ahead as nat)));
    } else {
        assert(s@ =~= first + Seq::empty());
    }
    s
}

pub open spec fn has_flag(e: u32, flag: u32) -> bool {
    e & flag == flag
}

/// The number of entries that carry `flag`.
pub open spec fn count_flag(entries: Seq<u32>, flag: u32) -> nat
    decreases entries.len(),
{
    if entries.len() == 0 {
        0
    } else {
        count_flag(entries.drop_last(), flag) + if has_flag(entries.last(), flag) {
            1nat
        } else {
            0nat
        }
    }
}

/// `<glyph><count>` and a colour reset, or nothing for a count of zero.
pub open spec fn token(glyph: Seq<char>, n: nat) -> Seq<char> {
    if n == 0 {
        Seq::empty()
    } else {
        glyph + decimal(n) + "\x1b[m"@
    }
}

/// The tokens of the seven kinds of change, in their fixed order.
pub open spec fn tally(e: Seq<u32>) -> Seq<char> {
    token("∂"@, count_flag(e, INDEX_MODIFIED)) + token("…"@, count_flag(e, INDEX_NEW)) + token(
        "✖"@,
        count_flag(e, INDEX_DELETED),
    ) + token("\x1b[31;1m≠"@, count_flag(e, CONFLICTED)) + token(
        "\x1b[34m∂"@,
        count_flag(e, WT_MODIFIED),
    ) + token("\x1b[34m…"@, count_flag(e, WT_NEW)) + token("\x1b[34m✖"@, count_flag(e, WT_DELETED))
}

pub open spec fn clean_glyph() -> Seq<char> {
    "\x1b[36m√\x1b[m"@
}

/// The change summary of a working tree whose paths carry the status bits `e`.
pub open spec fn change_text(e: Seq<u32>) -> Seq<char> {
    if tally(e).len() == 0 {
        clean_glyph()
    } else {
        tally(e)
    }
}

/// Counts the entries that carry `flag`.
fn count_with(entries: &Vec<u32>, flag: u32) -> (r: usize)
    ensures
        r == count_flag(entries@, flag),
{
    let n = entries.len();
    let mut k: usize = 0;
    let mut i: usize = 0;
    while i < n
        invariant
            n == entries@.len(),
            i <= n,
            k == count_flag(entries@.subrange(0, i as int), flag),
            k <= i,
        decreases n - i,
    {
        assert(entries@.subrange(0, i + 1).drop_last() =~= entries@.subrange(0, i as int));
        if entries[i] & flag == flag {
            k = k + 1;
        }
        i = i + 1;
    }
    assert(entries@.subrange(0, n as int) =~= entries@);
    k
}

/// Appends the token of one kind of change to `out`.
fn push_token(out: &mut String, entries: &Vec<u32>, flag: u32, glyph: &str)
    ensures
        final(out)@ == old(out)@ + token(glyph@, count_flag(entries@, flag)),
{
    let count = count_with(entries, flag);
    if count > 0 {
        out.append(glyph);
        let d = decimal_string(count);
        out.append(d.as_str());
        out.append("\x1b[m");
    } else {
        assert(out@ =~= out@ + Seq::<char>::empty());
    }
}

/// Summarises the status bits of a working tree's paths: one token per kind of change
/// present, or the clean glyph where there is none.
pub fn change_summary(entries: &Vec<u32>) -> (r: String)
    ensures
        r@ == change_text(entries@),
        entries@.len() == 0 ==> r@ == clean_glyph(),
{
    let mut s = String::new();
    push_token(&mut s, entries, INDEX_MODIFIED, "∂");
    push_token(&mut s, entries, INDEX_NEW, "…");
    push_token(&mut s, entries, INDEX_DELETED, "✖");
    push_token(&mut s, entries, CONFLICTED, "\x1b[31;1m≠");
    push_token(&mut s, entries, WT_MODIFIED, "\x1b[34m∂");
    push_token(&mut s, entries, WT_NEW, "\x1b[34m…");
    push_token(&mut s, entries, WT_DELETED, "\x1b[34m✖");
    assert(s@ =~= tally(entries@));
    if s.unicode_len() == 0 {
        String::from_str("\x1b[36m√\x1b[m")
    } else {
        s
    }
}

/// `s` behind `sep`, or nothing where `s` is empty.
pub open spec fn segment(sep: Seq<char>, s: Seq<char>) -> Seq<char> {
    if s.len() == 0 {
        Seq::empty()
    } else {
        sep + s
    }
}

/// The prompt line `[position divergence|changes]:upstream`; the bracketed part is left
/// out where the position is empty, and each other part where it is empty.
pub open spec fn prompt_text(
    position: Seq<char>,
    divergence: Seq<char>,
    changes: Seq<char>,
    upstream: Seq<char>,
) -> Seq<char> {
    (if position.len() == 0 {
        Seq::empty()
    } else {
        "["@ + position + segment(" "@, divergence) + segment("|"@, changes) + "]"@
    }) + segment(":"@, upstream)
}

fn push_segment(out: &mut String, sep: &str, s: &String)
    ensures
        final(out)@ == old(out)@ + segment(sep@, s@),
{
    if s.unicode_len() > 0 {
        out.append(sep);
        out.append(s.as_str());
    } else {
        assert(out@ =~= out@ + Seq::<char>::empty());
    }
}

/// Joins the four outputs into one prompt line.
pub fn prompt_line(position: &String, divergence: &String, changes: &String, upstream: &String) -> (r:
    String)
    ensures
        r@ == prompt_text(position@, divergence@, changes@, upstream@),
{
    let mut s = String::new();
    if position.unicode_len() > 0 {
        s.append("[");
        s.append(position.as_str());
        push_segment(&mut s, " ", divergence);
        push_segment(&mut s, "|", changes);
        s.append("]");
    }
    let ghost front = s@;
    push_segment(&mut s, ":", upstream);
    assert(front =~= (if position@.len() == 0 {
        Seq::empty()
    } else {
        "["@ + position@ + segment(" "@, divergence@) + segment("|"@, changes@) + "]"@
    }));
    s
}

} // verus!
