//! Reading git's output: the current branch, and the totals of the
//! `git diff --numstat` listing (lines added and removed over all files).

use vstd::prelude::*;
use crate::text::chars_of;
use crate::args::{is_white_space, white_space, parse_u64, parse_u64_spec, trim, trim_range};
use crate::format::strs_view;

verus! {

/// The pieces of `s` between `\n` separators, `cur` being the piece read so
/// far; empty pieces are kept.
pub open spec fn line_pieces_from(s: Seq<char>, cur: Seq<char>) -> Seq<Seq<char>>
    decreases s.len(),
{
    if s.len() == 0 {
        seq![cur]
    } else if s[0] == '\n' {
        seq![cur] + line_pieces_from(s.drop_first(), Seq::empty())
    } else {
        line_pieces_from(s.drop_first(), cur.push(s[0]))
    }
}

/// The lines of `s`: the pieces between `\n` separators.
pub open spec fn lines_of(s: Seq<char>) -> Seq<Seq<char>> {
    line_pieces_from(s, Seq::empty())
}

/// The words of `s` (its maximal runs of characters that are not white
/// space), `cur` being the word read so far.
pub open spec fn words_from(s: Seq<char>, cur: Seq<char>) -> Seq<Seq<char>>
    decreases s.len(),
{
    let done = if cur.len() > 0 { seq![cur] } else { Seq::<Seq<char>>::empty() };
    if s.len() == 0 {
        done
    } else if is_white_space(s[0]) {
        done + words_from(s.drop_first(), Seq::empty())
    } else {
        words_from(s.drop_first(), cur.push(s[0]))
    }
}

/// The words of `s`, as `str::split_whitespace` gives them.
pub open spec fn words_of(s: Seq<char>) -> Seq<Seq<char>> {
    words_from(s, Seq::empty())
}

/// The count a numstat field stands for: its number, or zero when it is
/// missing or not a number (binary files show `-`).
pub open spec fn field_count(ws: Seq<Seq<char>>, k: int) -> nat {
    if 0 <= k < ws.len() {
        match parse_u64_spec(ws[k]) {
            Some(v) => v as nat,
            None => 0,
        }
    } else {
        0
    }
}

/// Lines added and removed over the numstat lines `ls`: the first and the
/// second word of each line.
pub open spec fn numstat_sums(ls: Seq<Seq<char>>) -> (nat, nat)
    decreases ls.len(),
{
    if ls.len() == 0 {
        (0, 0)
    } else {
        let prev = numstat_sums(ls.drop_last());
        let ws = words_of(ls.last());
        (prev.0 + field_count(ws, 0), prev.1 + field_count(ws, 1))
    }
}

/// Lines added and removed in a numstat listing. (Reading it by
/// `str::lines` gives the same totals: the `\r` it drops is white space, and
/// the empty last piece it leaves out counts nothing.)
pub open spec fn numstat_totals(s: Seq<char>) -> (nat, nat) {
    numstat_sums(lines_of(s))
}

fn split_lines(s: &Vec<char>) -> (res: Vec<String>)
    ensures
        strs_view(res@) == lines_of(s@),
{
    let mut out: Vec<String> = Vec::new();
    let mut cur = String::new();
    let mut i: usize = 0;
    assert(s@.skip(0) =~= s@);
    while i < s.len()
        invariant
            i <= s@.len(),
            strs_view(out@) + line_pieces_from(s@.skip(i as int), cur@) == lines_of(s@),
        decreases s@.len() - i,
    {
        let ghost rest = s@.skip(i as int);
        assert(rest.drop_first() =~= s@.skip(i + 1));
        let c = s[i];
        if c == '\n' {
            let ghost prev = out@;
            out.push(cur);
            assert(strs_view(out@) =~= strs_view(prev).push(cur@));
            assert(strs_view(out@) + line_pieces_from(s@.skip(i + 1), Seq::empty())
                =~= strs_view(prev) + line_pieces_from(rest, cur@));
            cur = String::new();
        } else {
            cur.push(c);
        }
        i = i + 1;
    }
    let ghost prev = out@;
    out.push(cur);
    assert(strs_view(out@) =~= strs_view(prev).push(cur@));
    assert(strs_view(out@) =~= strs_view(prev) + line_pieces_from(s@.skip(i as int), cur@));
    out
}

fn split_words(s: &Vec<char>) -> (res: Vec<String>)
    ensures
        strs_view(res@) == words_of(s@),
{
    let mut out: Vec<String> = Vec::new();
    let mut cur = String::new();
    let mut i: usize = 0;
    assert(s@.skip(0) =~= s@);
    while i < s.len()
        invariant
            i <= s@.len(),
            strs_view(out@) + words_from(s@.skip(i as int), cur@) == words_of(s@),
        decreases s@.len() - i,
    {
        let ghost rest = s@.skip(i as int);
        assert(rest.drop_first() =~= s@.skip(i + 1));
        let c = s[i];
        if white_space(c) {
            if cur.unicode_len() > 0 {
                let ghost prev = out@;
                out.push(cur);
                assert(strs_view(out@) =~= strs_view(prev).push(cur@));
                assert(strs_view(out@) + words_from(s@.skip(i + 1), Seq::empty())
                    =~= strs_view(prev) + words_from(rest, cur@));
            } else {
                assert(strs_view(out@) + words_from(s@.skip(i + 1), Seq::empty())
                    =~= strs_view(out@) + words_from(rest, cur@));
            }
            cur = String::new();
        } else {
            cur.push(c);
        }
        i = i + 1;
    }
    if cur.unicode_len() > 0 {
        let ghost prev = out@;
        out.push(cur);
        assert(strs_view(out@) =~= strs_view(prev).push(cur@));
        assert(strs_view(out@) =~= strs_view(prev) + words_from(s@.skip(i as int), cur@));
    } else {
        assert(strs_view(out@) =~= strs_view(out@) + words_from(s@.skip(i as int), cur@));
    }
    out
}

fn field_count_exec(ws: &Vec<String>, k: usize) -> (res: u64)
    ensures
        res == field_count(strs_view(ws@), k as int),
{
    if k < ws.len() {
        assert(strs_view(ws@)[k as int] == ws@[k as int]@);
        match parse_u64(ws[k].as_str()) {
            Some(v) => v,
            None => 0,
        }
    } else {
        0
    }
}

proof fn lemma_sums_prefix(ls: Seq<Seq<char>>, k: int)
    requires
        0 <= k <= ls.len(),
    ensures
        numstat_sums(ls.take(k)).0 <= numstat_sums(ls).0,
        numstat_sums(ls.take(k)).1 <= numstat_sums(ls).1,
    decreases ls.len() - k,
{
    if k < ls.len() {
        lemma_sums_prefix(ls, k + 1);
        assert(ls.take(k + 1).drop_last() =~= ls.take(k));
    } else {
        assert(ls.take(k) =~= ls);
    }
}

/// Lines added and removed in the output of `git diff --numstat`; see
/// [`numstat_totals`]. None when a total does not fit in `u64`.
pub fn diff_totals(numstat: &str) -> (res: Option<(u64, u64)>)
    ensures
        match res {
            Some((a, d)) => a == numstat_totals(numstat@).0 && d == numstat_totals(numstat@).1,
            None => numstat_totals(numstat@).0 > u64::MAX || numstat_totals(numstat@).1 > u64::MAX,
        },
{
    let cs = chars_of(numstat);
    let lines = split_lines(&cs);
    let ghost ls = strs_view(lines@);
    let mut add: u64 = 0;
    let mut del: u64 = 0;
    let mut i: usize = 0;
    assert(ls.take(0) =~= Seq::<Seq<char>>::empty());
    while i < lines.len()
        invariant
            ls == strs_view(lines@),
            ls == lines_of(numstat@),
            i <= ls.len(),
            add == numstat_sums(ls.take(i as int)).0,
            del == numstat_sums(ls.take(i as int)).1,
        decreases ls.len() - i,
    {
        assert(ls.take(i + 1).drop_last() =~= ls.take(i as int));
        assert(ls.take(i + 1).last() == lines@[i as int]@);
        let lc = chars_of(lines[i].as_str());
        let ws = split_words(&lc);
        let a = field_count_exec(&ws, 0);
        let d = field_count_exec(&ws, 1);
        match (add.checked_add(a), del.checked_add(d)) {
            (Some(x), Some(y)) => {
                add = x;
                del = y;
            },
            _ => {
                proof { lemma_sums_prefix(ls, i + 1); }
                return None;
            },
        }
        i = i + 1;
    }
    assert(ls.take(i as int) =~= ls);
    Some((add, del))
}

/// The branch named by the output of `git rev-parse --abbrev-ref HEAD`:
/// the output without surrounding white space, none when nothing is left.
pub fn branch(rev_parse: &str) -> (res: Option<String>)
    ensures
        match res {
            Some(b) => b@ == trim(rev_parse@) && b@.len() > 0,
            None => trim(rev_parse@).len() == 0,
        },
{
    let cs = chars_of(rev_parse);
    let n = cs.len();
    let (a, b) = trim_range(&cs, 0, n);
    assert(cs@.subrange(0, n as int) =~= rev_parse@);
    if a == b {
        return None;
    }
    let mut out = String::new();
    let mut k = a;
    while k < b
        invariant
            a <= k <= b <= cs@.len(),
            out@ == cs@.subrange(a as int, k as int),
        decreases b - k,
    {
        out.push(cs[k]);
        k = k + 1;
        assert(out@ =~= cs@.subrange(a as int, k as int));
    }
    Some(out)
}

} // verus!
