//! The format-string language: parsing a format line into segments, and
//! rendering segments into output lines once their tokens have values.
//!
//! Syntax: `%name` or `%name:style:...` is a token, `%[styles content]` a
//! styled group (which may nest), `%%` a literal `%`, and the two characters
//! `\n` a line break. Anything else is literal text.

use vstd::prelude::*;
use crate::text::chars_of;
use crate::color::{apply_styles, styled};

verus! {

/// One piece of a parsed format line.
#[derive(Debug)]
pub enum Seg {
    /// Literal text.
    Lit(String),
    /// A token to be replaced by its value, with the styles written after it.
    Tok { name: String, styles: Vec<String> },
    /// A styled span holding literal text and tokens.
    Group { styles: Vec<String>, inner: Vec<Seg> },
    /// A line break.
    LineBreak,
}

/// The mathematical value of a [`Seg`].
pub enum SegModel {
    Lit(Seq<char>),
    Tok { name: Seq<char>, styles: Seq<Seq<char>> },
    Group { styles: Seq<Seq<char>>, inner: Seq<SegModel> },
    LineBreak,
}

/// The views of a sequence of strings.
pub open spec fn strs_view(v: Seq<String>) -> Seq<Seq<char>> {
    v.map_values(|t: String| t@)
}

/// The model of a segment.
pub open spec fn seg_model(s: Seg) -> SegModel
    decreases s, 0int,
{
    match s {
        Seg::Lit(t) => SegModel::Lit(t@),
        Seg::Tok { name, styles } => SegModel::Tok { name: name@, styles: strs_view(styles@) },
        Seg::Group { styles, inner } => {
            proof { assert(decreases_to!(inner => inner@)); }
            SegModel::Group { styles: strs_view(styles@), inner: segs_model(inner@) }
        },
        Seg::LineBreak => SegModel::LineBreak,
    }
}

/// The models of a sequence of segments.
pub open spec fn segs_model(v: Seq<Seg>) -> Seq<SegModel>
    decreases v, 0int,
{
    if v.len() == 0 {
        Seq::empty()
    } else {
        segs_model(v.drop_last()).push(seg_model(v.last()))
    }
}

impl View for Seg {
    type V = SegModel;

    open spec fn view(&self) -> SegModel {
        seg_model(*self)
    }
}

// ------------------------------------------------------------------
// Parsing, stated over the characters of the format line.
// ------------------------------------------------------------------

/// Characters that may form a token or style name: ASCII letters, digits, `_`.
pub open spec fn is_ident_char(c: char) -> bool {
    ('a' <= c && c <= 'z') || ('A' <= c && c <= 'Z') || ('0' <= c && c <= '9') || c == '_'
}

/// The end of the run of name characters that starts at `i`.
pub open spec fn ident_end(cs: Seq<char>, i: int) -> int
    decreases cs.len() - i,
{
    if 0 <= i < cs.len() && is_ident_char(cs[i]) {
        ident_end(cs, i + 1)
    } else {
        i
    }
}

/// The styles `:a:b...` that start at `i`, and where they end. An empty name
/// after a `:` ends the chain (the `:` is consumed).
pub open spec fn styles_at(cs: Seq<char>, i: int) -> (Seq<Seq<char>>, int)
    decreases cs.len() - i,
{
    if 0 <= i < cs.len() && cs[i] == ':' {
        let j = ident_end(cs, i + 1);
        if i + 1 < j <= cs.len() {
            let rest = styles_at(cs, j);
            (seq![cs.subrange(i + 1, j)] + rest.0, rest.1)
        } else {
            (Seq::empty(), i + 1)
        }
    } else {
        (Seq::empty(), i)
    }
}

/// The end of the word that starts at `i` (up to a space or `]`).
pub open spec fn word_end(cs: Seq<char>, i: int) -> int
    decreases cs.len() - i,
{
    if 0 <= i < cs.len() && cs[i] != ' ' && cs[i] != ']' {
        word_end(cs, i + 1)
    } else {
        i
    }
}

/// The non-empty pieces of `s` between `:` separators, `cur` being the piece
/// read so far.
pub open spec fn colon_pieces_from(s: Seq<char>, cur: Seq<char>) -> Seq<Seq<char>>
    decreases s.len(),
{
    let done = if cur.len() > 0 { seq![cur] } else { Seq::<Seq<char>>::empty() };
    if s.len() == 0 {
        done
    } else if s[0] == ':' {
        done + colon_pieces_from(s.drop_first(), Seq::empty())
    } else {
        colon_pieces_from(s.drop_first(), cur.push(s[0]))
    }
}

/// The non-empty pieces of `s` between `:` separators.
pub open spec fn colon_pieces(s: Seq<char>) -> Seq<Seq<char>> {
    colon_pieces_from(s, Seq::empty())
}

/// The styles of a group whose style chain starts at `i` (just after `%[`),
/// and where the chain ends.
pub open spec fn group_styles(cs: Seq<char>, i: int) -> (Seq<Seq<char>>, int) {
    if 0 <= i < cs.len() && cs[i] == ':' {
        styles_at(cs, i)
    } else {
        let k = word_end(cs, i);
        (colon_pieces(cs.subrange(i, k)), k)
    }
}

proof fn lemma_ident_end(cs: Seq<char>, i: int)
    requires
        0 <= i <= cs.len(),
    ensures
        i <= ident_end(cs, i) <= cs.len(),
        forall|k: int| i <= k < ident_end(cs, i) ==> is_ident_char(#[trigger] cs[k]),
        ident_end(cs, i) < cs.len() ==> !is_ident_char(cs[ident_end(cs, i)]),
    decreases cs.len() - i,
{
    if i < cs.len() && is_ident_char(cs[i]) {
        lemma_ident_end(cs, i + 1);
    }
}

proof fn lemma_word_end(cs: Seq<char>, i: int)
    requires
        0 <= i <= cs.len(),
    ensures
        i <= word_end(cs, i) <= cs.len(),
        forall|k: int| i <= k < word_end(cs, i) ==> #[trigger] cs[k] != ' ' && cs[k] != ']',
        word_end(cs, i) < cs.len() ==> (cs[word_end(cs, i)] == ' ' || cs[word_end(cs, i)] == ']'),
    decreases cs.len() - i,
{
    if i < cs.len() && cs[i] != ' ' && cs[i] != ']' {
        lemma_word_end(cs, i + 1);
    }
}

proof fn lemma_styles_at(cs: Seq<char>, i: int)
    requires
        0 <= i <= cs.len(),
    ensures
        i <= styles_at(cs, i).1 <= cs.len(),
    decreases cs.len() - i,
{
    if i < cs.len() && cs[i] == ':' {
        lemma_ident_end(cs, i + 1);
        let j = ident_end(cs, i + 1);
        if i + 1 < j {
            lemma_styles_at(cs, j);
        }
    }
}

/// Reads the name that starts at `*i`; `*i` moves past it.
fn read_ident(chars: &Vec<char>, i: &mut usize) -> (res: String)
    requires
        *old(i) <= chars@.len(),
    ensures
        *final(i) == ident_end(chars@, *old(i) as int),
        res@ == chars@.subrange(*old(i) as int, *final(i) as int),
{
    let ghost start = *i as int;
    let mut s = String::new();
    proof { lemma_ident_end(chars@, start); }
    let mut done = false;
    while !done && *i < chars.len()
        invariant
            0 <= start <= *i <= chars@.len(),
            ident_end(chars@, *i as int) == ident_end(chars@, start),
            done ==> ident_end(chars@, *i as int) == *i as int,
            s@ == chars@.subrange(start, *i as int),
        decreases chars@.len() - *i, (if done { 0int } else { 1int }),
    {
        let c = chars[*i];
        if ('a' <= c && c <= 'z') || ('A' <= c && c <= 'Z') || ('0' <= c && c <= '9') || c == '_' {
            let ghost prev = s@;
            s.push(c);
            let ghost old_i = *i as int;
            assert(s@ == prev.push(c));
            assert(c == chars@[old_i]);
            assert(prev == chars@.subrange(start, old_i));
            assert(chars@.subrange(start, old_i + 1) =~= chars@.subrange(start, old_i).push(chars@[old_i]));
            *i = *i + 1;
            assert(*i as int == old_i + 1);
        } else {
            done = true;
        }
    }
    s
}

/// Reads the style chain `:a:b...` that starts at `*i`; `*i` moves past it.
fn read_styles(chars: &Vec<char>, i: &mut usize) -> (res: Vec<String>)
    requires
        *old(i) <= chars@.len(),
    ensures
        *final(i) == styles_at(chars@, *old(i) as int).1,
        strs_view(res@) == styles_at(chars@, *old(i) as int).0,
{
    let ghost start = *i as int;
    let mut out: Vec<String> = Vec::new();
    loop
        invariant
            0 <= start <= *i <= chars@.len(),
            start == *old(i) as int,
            styles_at(chars@, start).0 == strs_view(out@) + styles_at(chars@, *i as int).0,
            styles_at(chars@, start).1 == styles_at(chars@, *i as int).1,
        decreases chars@.len() - *i,
    {
        if !(*i < chars.len() && chars[*i] == ':') {
            assert(styles_at(chars@, *i as int).0 =~= Seq::<Seq<char>>::empty());
            assert(strs_view(out@) + Seq::<Seq<char>>::empty() =~= strs_view(out@));
            return out;
        }
        let ghost before = *i as int;
        *i = *i + 1;
        proof { lemma_ident_end(chars@, *i as int); }
        let st = read_ident(chars, i);
        if st.unicode_len() == 0 {
            assert(styles_at(chars@, before) == (Seq::<Seq<char>>::empty(), before + 1));
            assert(strs_view(out@) + Seq::<Seq<char>>::empty() =~= strs_view(out@));
            return out;
        }
        let ghost prev = out@;
        out.push(st);
        proof {
            assert(strs_view(out@) =~= strs_view(prev).push(st@));
            assert(strs_view(prev) + styles_at(chars@, before).0 =~= strs_view(out@)
                + styles_at(chars@, *i as int).0);
            assert(styles_at(chars@, before).1 == styles_at(chars@, *i as int).1);
        }
    }
}

/// Splits `s` at `:` and keeps the non-empty pieces.
fn colon_split(s: &Vec<char>) -> (res: Vec<String>)
    ensures
        strs_view(res@) == colon_pieces(s@),
{
    let mut out: Vec<String> = Vec::new();
    let mut cur = String::new();
    let mut i: usize = 0;
    assert(s@.skip(0) =~= s@);
    while i < s.len()
        invariant
            i <= s@.len(),
            strs_view(out@) + colon_pieces_from(s@.skip(i as int), cur@) == colon_pieces(s@),
        decreases s@.len() - i,
    {
        let ghost rest = s@.skip(i as int);
        assert(rest.drop_first() =~= s@.skip(i + 1));
        let c = s[i];
        if c == ':' {
            if cur.unicode_len() > 0 {
                let ghost prev = out@;
                out.push(cur);
                assert(strs_view(out@) =~= strs_view(prev).push(cur@));
                assert(strs_view(out@) + colon_pieces_from(s@.skip(i + 1), Seq::empty())
                    =~= strs_view(prev) + colon_pieces_from(rest, cur@));
            } else {
                assert(strs_view(out@) + colon_pieces_from(s@.skip(i + 1), Seq::empty())
                    =~= strs_view(out@) + colon_pieces_from(rest, cur@));
            }
            cur = String::new();
        } else {
            cur.push(c);
        }
        i = i + 1;
    }
    if cur.unicode_len() > 0 {
        let ghost prev = out@;
        out.push(cur);
        assert(strs_view(out@) =~= strs_view(prev).push(cur@));
        assert(strs_view(out@) =~= strs_view(prev) + colon_pieces_from(s@.skip(i as int), cur@));
    } else {
        assert(strs_view(out@) =~= strs_view(out@) + colon_pieces_from(s@.skip(i as int), cur@));
    }
    out
}

/// `out` followed by the pending literal text `lit`, if there is any.
pub open spec fn flushed(out: Seq<SegModel>, lit: Seq<char>) -> Seq<SegModel> {
    if lit.len() > 0 {
        out.push(SegModel::Lit(lit))
    } else {
        out
    }
}

/// Parses `cs` from position `i` until the terminator `term` (if any) or the
/// end, with literal text `lit` pending and segments `out` already read.
/// Returns the segments, the position after the last character consumed, and
/// whether the terminator was found.
pub open spec fn parse_from(
    cs: Seq<char>,
    i: int,
    term: Option<char>,
    lit: Seq<char>,
    out: Seq<SegModel>,
) -> (Seq<SegModel>, int, bool)
    decreases cs.len() - i,
{
    if !(0 <= i < cs.len()) {
        (flushed(out, lit), i, false)
    } else if term == Some(cs[i]) {
        (flushed(out, lit), i + 1, true)
    } else if cs[i] == '%' && i + 1 < cs.len() && cs[i + 1] == '%' {
        parse_from(cs, i + 2, term, lit.push('%'), out)
    } else if cs[i] == '%' && i + 1 < cs.len() && cs[i + 1] == '[' {
        let g = group_styles(cs, i + 2);
        let k = if 0 <= g.1 < cs.len() && cs[g.1] == ' ' { g.1 + 1 } else { g.1 };
        if i + 2 <= k <= cs.len() {
            let inner = parse_from(cs, k, Some(']'), Seq::empty(), Seq::empty());
            let out2 = flushed(out, lit).push(SegModel::Group { styles: g.0, inner: inner.0 });
            if k <= inner.1 <= cs.len() {
                parse_from(cs, inner.1, term, Seq::empty(), out2)
            } else {
                (out2, inner.1, false)
            }
        } else {
            (flushed(out, lit), k, false)
        }
    } else if cs[i] == '%' {
        let j = ident_end(cs, i + 1);
        if j == i + 1 {
            parse_from(cs, i + 1, term, lit.push('%'), out)
        } else if i + 1 < j <= cs.len() {
            let st = styles_at(cs, j);
            let tok = SegModel::Tok { name: cs.subrange(i + 1, j), styles: st.0 };
            if j <= st.1 <= cs.len() {
                parse_from(cs, st.1, term, Seq::empty(), flushed(out, lit).push(tok))
            } else {
                (flushed(out, lit), st.1, false)
            }
        } else {
            (flushed(out, lit), j, false)
        }
    } else if cs[i] == '\\' && i + 1 < cs.len() && cs[i + 1] == 'n' {
        parse_from(cs, i + 2, term, Seq::empty(), flushed(out, lit).push(SegModel::LineBreak))
    } else {
        parse_from(cs, i + 1, term, lit.push(cs[i]), out)
    }
}

/// The segments of a format line.
pub open spec fn parsed(s: Seq<char>) -> Seq<SegModel> {
    parse_from(s, 0, None, Seq::empty(), Seq::empty()).0
}

proof fn lemma_segs_model_push(v: Seq<Seg>, x: Seg)
    ensures
        segs_model(v.push(x)) == segs_model(v).push(seg_model(x)),
{
    assert(v.push(x).drop_last() =~= v);
}

proof fn lemma_group_styles(cs: Seq<char>, i: int)
    requires
        0 <= i <= cs.len(),
    ensures
        i <= group_styles(cs, i).1 <= cs.len(),
{
    if i < cs.len() && cs[i] == ':' {
        lemma_styles_at(cs, i);
    } else {
        lemma_word_end(cs, i);
    }
}

/// Parses from `*i` until `term` or the end of `chars`; `*i` moves past what
/// was consumed. Returns the segments and whether `term` was found.
#[verifier::loop_isolation(false)]
fn parse_inner(chars: &Vec<char>, i: &mut usize, term: Option<char>) -> (res: (Vec<Seg>, bool))
    requires
        *old(i) <= chars@.len(),
    ensures
        segs_model(res.0@) == parse_from(chars@, *old(i) as int, term, Seq::empty(), Seq::empty()).0,
        *final(i) == parse_from(chars@, *old(i) as int, term, Seq::empty(), Seq::empty()).1,
        res.1 == parse_from(chars@, *old(i) as int, term, Seq::empty(), Seq::empty()).2,
        *old(i) <= *final(i) <= chars@.len(),
    decreases chars@.len() - *old(i),
{
    let ghost cs = chars@;
    let ghost start = *i as int;
    let ghost goal = parse_from(cs, start, term, Seq::empty(), Seq::empty());
    let mut out: Vec<Seg> = Vec::new();
    let mut lit = String::new();
    let n = chars.len();
    assert(segs_model(out@) =~= Seq::<SegModel>::empty());
    while *i < n
        invariant
            cs == chars@,
            n == cs.len(),
            0 <= start <= *i <= n,
            parse_from(cs, *i as int, term, lit@, segs_model(out@)) == goal,
        decreases n - *i,
    {
        let c = chars[*i];
        let ghost at = *i as int;
        let ghost lit0 = lit@;
        let ghost out0 = segs_model(out@);
        if term == Some(c) {
            assert(goal == (flushed(out0, lit0), at + 1, true));
            *i = *i + 1;
            if lit.unicode_len() > 0 {
                proof { lemma_segs_model_push(out@, Seg::Lit(lit)); }
                out.push(Seg::Lit(lit));
            }
            assert(segs_model(out@) == flushed(out0, lit0));
            return (out, true);
        }
        if c == '%' {
            if *i + 1 < n && chars[*i + 1] == '%' {
                *i = *i + 2;
                lit.push('%');
                continue;
            }
            if *i + 1 < n && chars[*i + 1] == '[' {
                *i = *i + 2;
                proof { lemma_group_styles(cs, *i as int); }
                let styles = if *i < n && chars[*i] == ':' {
                    read_styles(chars, i)
                } else {
                    let mut raw: Vec<char> = Vec::new();
                    let ghost w = *i as int;
                    proof { lemma_word_end(cs, w); }
                    while *i < n && chars[*i] != ' ' && chars[*i] != ']'
                        invariant
                            cs == chars@,
                            n == cs.len(),
                            0 <= w <= *i <= n,
                            word_end(cs, *i as int) == word_end(cs, w),
                            raw@ == cs.subrange(w, *i as int),
                        decreases n - *i,
                    {
                        raw.push(chars[*i]);
                        *i = *i + 1;
                        assert(raw@ =~= cs.subrange(w, *i as int));
                    }
                    colon_split(&raw)
                };
                if *i < n && chars[*i] == ' ' {
                    *i = *i + 1;
                }
                if lit.unicode_len() > 0 {
                    proof { lemma_segs_model_push(out@, Seg::Lit(lit)); }
                    out.push(Seg::Lit(lit));
                    lit = String::new();
                }
                assert(lit@ =~= Seq::<char>::empty());
                assert(segs_model(out@) == flushed(out0, lit0));
                let (inner, _) = parse_inner(chars, i, Some(']'));
                let ghost g = Seg::Group { styles, inner };
                proof { lemma_segs_model_push(out@, g); }
                out.push(Seg::Group { styles, inner });
                continue;
            }
            *i = *i + 1;
            proof { lemma_ident_end(cs, *i as int); }
            let name = read_ident(chars, i);
            if name.unicode_len() == 0 {
                lit.push('%');
                continue;
            }
            proof { lemma_styles_at(cs, *i as int); }
            let styles = read_styles(chars, i);
            if lit.unicode_len() > 0 {
                proof { lemma_segs_model_push(out@, Seg::Lit(lit)); }
                out.push(Seg::Lit(lit));
                lit = String::new();
            }
            assert(lit@ =~= Seq::<char>::empty());
            assert(segs_model(out@) == flushed(out0, lit0));
            let ghost t = Seg::Tok { name, styles };
            proof {
                lemma_segs_model_push(out@, t);
                assert(seg_model(t) == SegModel::Tok { name: cs.subrange(at + 1, ident_end(cs, at + 1)),
                    styles: styles_at(cs, ident_end(cs, at + 1)).0 });
                assert(goal == parse_from(cs, *i as int, term, Seq::empty(),
                    flushed(out0, lit0).push(seg_model(t))));
            }
            out.push(Seg::Tok { name, styles });
            continue;
        }
        if c == '\\' && *i + 1 < n && chars[*i + 1] == 'n' {
            *i = *i + 2;
            if lit.unicode_len() > 0 {
                proof { lemma_segs_model_push(out@, Seg::Lit(lit)); }
                out.push(Seg::Lit(lit));
                lit = String::new();
            }
            assert(lit@ =~= Seq::<char>::empty());
            assert(segs_model(out@) == flushed(out0, lit0));
            proof { lemma_segs_model_push(out@, Seg::LineBreak); }
            out.push(Seg::LineBreak);
            continue;
        }
        lit.push(c);
        *i = *i + 1;
    }
    if lit.unicode_len() > 0 {
        proof { lemma_segs_model_push(out@, Seg::Lit(lit)); }
        out.push(Seg::Lit(lit));
    }
    (out, false)
}

/// Parses a format line into segments.
pub fn parse(input: &str) -> (res: Vec<Seg>)
    ensures
        segs_model(res@) == parsed(input@),
{
    let chars = chars_of(input);
    let mut i: usize = 0;
    let (segs, _) = parse_inner(&chars, &mut i, None);
    segs
}

// ------------------------------------------------------------------
// Rendering, stated over segment models and the values of their tokens.
// ------------------------------------------------------------------

/// The view of an optional string.
pub open spec fn opt_view(o: Option<String>) -> Option<Seq<char>> {
    match o {
        Some(s) => Some(s@),
        None => None,
    }
}

/// The views of a sequence of optional strings.
pub open spec fn opts_view(v: Seq<Option<String>>) -> Seq<Option<Seq<char>>> {
    v.map_values(|o: Option<String>| opt_view(o))
}

/// Whether every character of `s` is a space.
pub open spec fn all_spaces(s: Seq<char>) -> bool {
    forall|j: int| 0 <= j < s.len() ==> s[j] == ' '
}

/// `s` without its trailing spaces.
pub open spec fn trimmed(s: Seq<char>) -> Seq<char>
    decreases s.len(),
{
    if s.len() > 0 && s.last() == ' ' {
        trimmed(s.drop_last())
    } else {
        s
    }
}

/// The lines joined with `\n` between them.
pub open spec fn joined(ls: Seq<Seq<char>>) -> Seq<char>
    decreases ls.len(),
{
    if ls.len() == 0 {
        Seq::empty()
    } else if ls.len() == 1 {
        ls[0]
    } else {
        joined(ls.drop_last()) + seq!['\n'] + ls.last()
    }
}

/// Lines being rendered: the lines so far (the last one still open), whether
/// the latest token came out empty, and the index of the next token value.
pub struct RenderState {
    pub lines: Seq<Seq<char>>,
    pub last_empty: bool,
    pub next: int,
}

/// `s` appended to the last line.
pub open spec fn append_last(lines: Seq<Seq<char>>, s: Seq<char>) -> Seq<Seq<char>> {
    lines.update(lines.len() - 1, lines.last() + s)
}

/// The value of the token at index `k`, none past the end of `vals`.
pub open spec fn value_at(vals: Seq<Option<Seq<char>>>, k: int) -> Option<Seq<char>> {
    if 0 <= k < vals.len() {
        vals[k]
    } else {
        None
    }
}

/// The index of the token value after `k`.
pub open spec fn next_index(vals: Seq<Option<Seq<char>>>, k: int) -> int {
    if k < vals.len() {
        k + 1
    } else {
        k
    }
}

/// Renders one segment onto the state. After a token that came out empty, a
/// following all-space literal is dropped and a following literal loses one
/// leading space, so that the empty token does not leave a double space.
pub open spec fn render_step(
    seg: SegModel,
    st: RenderState,
    vals: Seq<Option<Seq<char>>>,
    no_color: bool,
) -> RenderState
    decreases seg, 0int,
{
    match seg {
        SegModel::Lit(s) => {
            if st.last_empty && all_spaces(s) {
                st
            } else {
                let t = if st.last_empty && s.len() > 0 && s[0] == ' ' { s.drop_first() } else { s };
                if t.len() > 0 {
                    RenderState { lines: append_last(st.lines, t), last_empty: false, next: st.next }
                } else {
                    st
                }
            }
        },
        SegModel::Tok { name, styles } => {
            let k = next_index(vals, st.next);
            match value_at(vals, st.next) {
                Some(v) => if v.len() > 0 {
                    RenderState { lines: append_last(st.lines, v), last_empty: false, next: k }
                } else {
                    RenderState { lines: st.lines, last_empty: true, next: k }
                },
                None => RenderState { lines: st.lines, last_empty: true, next: k },
            }
        },
        SegModel::Group { styles, inner } => {
            let r = render_run(inner, vals, st.next, no_color);
            let text = styled(joined(r.0), styles, no_color);
            if text.len() > 0 {
                RenderState { lines: append_last(st.lines, text), last_empty: false, next: r.1 }
            } else {
                RenderState { lines: st.lines, last_empty: st.last_empty, next: r.1 }
            }
        },
        SegModel::LineBreak => RenderState {
            lines: st.lines.push(Seq::empty()),
            last_empty: false,
            next: st.next,
        },
    }
}

/// Renders the segments in order from one empty line, the first token taking
/// the value at index `next`.
pub open spec fn render_fold(
    segs: Seq<SegModel>,
    vals: Seq<Option<Seq<char>>>,
    next: int,
    no_color: bool,
) -> RenderState
    decreases segs, 0int,
{
    if segs.len() == 0 {
        RenderState { lines: seq![Seq::empty()], last_empty: false, next: next }
    } else {
        render_step(segs.last(), render_fold(segs.drop_last(), vals, next, no_color), vals, no_color)
    }
}

/// The rendered lines, each without trailing spaces, and the index of the
/// first token value not used.
pub open spec fn render_run(
    segs: Seq<SegModel>,
    vals: Seq<Option<Seq<char>>>,
    next: int,
    no_color: bool,
) -> (Seq<Seq<char>>, int)
    decreases segs, 1int,
{
    let f = render_fold(segs, vals, next, no_color);
    (f.lines.map_values(|l: Seq<char>| trimmed(l)), f.next)
}

/// The lines of the rendered segments, given the values of their tokens in
/// order of appearance.
pub open spec fn rendered(
    segs: Seq<SegModel>,
    vals: Seq<Option<Seq<char>>>,
    no_color: bool,
) -> Seq<Seq<char>> {
    render_run(segs, vals, 0, no_color).0
}

fn all_spaces_exec(s: &str) -> (res: bool)
    ensures
        res == all_spaces(s@),
{
    let n = s.unicode_len();
    let mut i: usize = 0;
    while i < n
        invariant
            n == s@.len(),
            i <= n,
            forall|j: int| 0 <= j < i ==> s@[j] == ' ',
        decreases n - i,
    {
        if s.get_char(i) != ' ' {
            return false;
        }
        i = i + 1;
    }
    true
}

fn trim_spaces(s: &str) -> (res: String)
    ensures
        res@ == trimmed(s@),
{
    let cs = chars_of(s);
    let mut k = cs.len();
    assert(s@.take(k as int) =~= s@);
    while k > 0 && cs[k - 1] == ' '
        invariant
            cs@ == s@,
            k <= s@.len(),
            trimmed(s@.take(k as int)) == trimmed(s@),
        decreases k,
    {
        assert(s@.take(k as int).drop_last() =~= s@.take(k - 1));
        k = k - 1;
    }
    let mut out = String::new();
    let mut j: usize = 0;
    while j < k
        invariant
            cs@ == s@,
            j <= k <= s@.len(),
            out@ == s@.take(j as int),
        decreases k - j,
    {
        out.push(cs[j]);
        j = j + 1;
        assert(out@ =~= s@.take(j as int));
    }
    out
}

fn join_lines(ls: &Vec<String>) -> (res: String)
    ensures
        res@ == joined(strs_view(ls@)),
{
    let mut out = String::new();
    let mut i: usize = 0;
    while i < ls.len()
        invariant
            i <= ls@.len(),
            out@ == joined(strs_view(ls@).take(i as int)),
        decreases ls@.len() - i,
    {
        assert(strs_view(ls@).take(i + 1).drop_last() =~= strs_view(ls@).take(i as int));
        if i > 0 {
            out.push('\n');
        }
        out.append(ls[i].as_str());
        i = i + 1;
    }
    assert(strs_view(ls@).take(ls@.len() as int) =~= strs_view(ls@));
    out
}

/// Renders `segs` taking token values from `vals` starting at `*next`;
/// `*next` moves past the values used.
fn render_into(segs: &[Seg], vals: &[Option<String>], next: &mut usize, no_color: bool) -> (res: Vec<String>)
    requires
        *old(next) <= vals@.len(),
    ensures
        strs_view(res@) == render_run(segs_model(segs@), opts_view(vals@), *old(next) as int, no_color).0,
        *final(next) == render_run(segs_model(segs@), opts_view(vals@), *old(next) as int, no_color).1,
        *final(next) <= vals@.len(),
    decreases segs@,
{
    let ghost sm = segs_model(segs@);
    let ghost vs = opts_view(vals@);
    let ghost start = *next as int;
    let mut done: Vec<String> = Vec::new();
    let mut cur = String::new();
    let mut last_empty = false;
    let mut k: usize = 0;
    assert(segs@.take(0) =~= Seq::<Seg>::empty());
    assert(strs_view(done@).push(cur@) =~= seq![Seq::<char>::empty()]);
    while k < segs.len()
        invariant
            sm == segs_model(segs@),
            vs == opts_view(vals@),
            k <= segs@.len(),
            *next <= vals@.len(),
            render_fold(segs_model(segs@.take(k as int)), vs, start, no_color) == (RenderState {
                lines: strs_view(done@).push(cur@),
                last_empty: last_empty,
                next: *next as int,
            }),
        decreases segs@.len() - k,
    {
        let ghost before = render_fold(segs_model(segs@.take(k as int)), vs, start, no_color);
        proof {
            assert(segs@.take(k + 1) =~= segs@.take(k as int).push(segs@[k as int]));
            lemma_segs_model_push(segs@.take(k as int), segs@[k as int]);
            assert(segs_model(segs@.take(k + 1)).drop_last() =~= segs_model(segs@.take(k as int)));
        }
        let ghost lines0 = strs_view(done@).push(cur@);
        let ghost seg = seg_model(segs@[k as int]);
        assert(render_fold(segs_model(segs@.take(k + 1)), vs, start, no_color)
            == render_step(seg, before, vs, no_color));
        match &segs[k] {
            Seg::Lit(s) => {
                if last_empty && all_spaces_exec(s.as_str()) {
                } else {
                    let n = s.unicode_len();
                    let t: &str = if last_empty && n > 0 && s.as_str().get_char(0) == ' ' {
                        s.as_str().substring_char(1, n)
                    } else {
                        s.as_str()
                    };
                    if t.unicode_len() > 0 {
                        cur.append(t);
                        last_empty = false;
                        assert(strs_view(done@).push(cur@) =~= append_last(lines0, t@));
                    }
                }
            },
            Seg::Tok { name, styles } => {
                let ghost kk = next_index(vs, *next as int);
                if *next < vals.len() {
                    match &vals[*next] {
                        Some(v) => {
                            if v.unicode_len() > 0 {
                                cur.append(v.as_str());
                                last_empty = false;
                                assert(strs_view(done@).push(cur@) =~= append_last(lines0, v@));
                            } else {
                                last_empty = true;
                            }
                        },
                        None => {
                            last_empty = true;
                        },
                    }
                    *next = *next + 1;
                } else {
                    last_empty = true;
                }
            },
            Seg::Group { styles, inner } => {
                proof {
                    assert(decreases_to!(segs@ => segs@[k as int]));
                    assert(decreases_to!(segs@[k as int] => *inner));
                    assert(decreases_to!(*inner => inner@));
                }
                let ghost n0 = *next as int;
                let lines = render_into(inner.as_slice(), vals, next, no_color);
                let text = join_lines(&lines);
                let st = apply_styles(text.as_str(), styles.as_slice(), no_color);
                proof {
                    assert(seg_model(segs@[k as int]) == SegModel::Group {
                        styles: strs_view(styles@), inner: segs_model(inner@) });
                }
                if st.unicode_len() > 0 {
                    cur.append(st.as_str());
                    last_empty = false;
                    assert(strs_view(done@).push(cur@) =~= append_last(lines0, st@));
                }
            },
            Seg::LineBreak => {
                let ghost prev = done@;
                done.push(cur);
                cur = String::new();
                last_empty = false;
                assert(strs_view(done@).push(cur@) =~= lines0.push(Seq::empty()));
            },
        }
        assert(render_step(seg, before, vs, no_color) == (RenderState {
            lines: strs_view(done@).push(cur@), last_empty: last_empty, next: *next as int }));
        k = k + 1;
    }
    let ghost f = render_fold(segs_model(segs@.take(k as int)), vs, start, no_color);
    assert(segs@.take(k as int) =~= segs@);
    done.push(cur);
    let mut out: Vec<String> = Vec::new();
    let mut j: usize = 0;
    while j < done.len()
        invariant
            j <= done@.len(),
            strs_view(done@) == f.lines,
            strs_view(out@) == f.lines.take(j as int).map_values(|l: Seq<char>| trimmed(l)),
        decreases done@.len() - j,
    {
        let t = trim_spaces(done[j].as_str());
        let ghost prev = out@;
        out.push(t);
        assert(done@[j as int]@ == f.lines[j as int]);
        assert(strs_view(out@) =~= strs_view(prev).push(t@));
        assert(strs_view(out@) =~= f.lines.take(j + 1).map_values(|l: Seq<char>| trimmed(l)));
        j = j + 1;
    }
    assert(f.lines.take(j as int) =~= f.lines);
    out
}

/// The rendered lines of `segs`: `vals` holds the values of their tokens in
/// order of appearance (groups included); a missing value counts as none.
pub fn render_segs(segs: &[Seg], vals: &[Option<String>], no_color: bool) -> (res: Vec<String>)
    ensures
        strs_view(res@) == rendered(segs_model(segs@), opts_view(vals@), no_color),
{
    let mut next: usize = 0;
    render_into(segs, vals, &mut next, no_color)
}

/// The most lines a statusline shows.
pub const MAX_LINES: usize = 3;

/// The lines shown of the rendered lines: the first [`MAX_LINES`].
pub open spec fn shown_lines(ls: Seq<Seq<char>>) -> Seq<Seq<char>> {
    if ls.len() > MAX_LINES { ls.take(MAX_LINES as int) } else { ls }
}

/// The statusline output: the shown lines joined with `\n` and ended by
/// one, or nothing when there is no line.
pub open spec fn screen_text(ls: Seq<Seq<char>>) -> Seq<char> {
    let shown = shown_lines(ls);
    if shown.len() == 0 { Seq::empty() } else { joined(shown) + seq!['\n'] }
}

/// The statusline output of the rendered lines of all format lines; see
/// [`screen_text`].
pub fn screen_output(lines: &[String]) -> (res: String)
    ensures
        res@ == screen_text(strs_view(lines@)),
{
    let ghost all = strs_view(lines@);
    let n = if lines.len() > MAX_LINES { MAX_LINES } else { lines.len() };
    let ghost shown = shown_lines(all);
    assert(shown =~= all.take(n as int));
    let mut out = String::new();
    let mut i: usize = 0;
    while i < n
        invariant
            n <= lines@.len(),
            all == strs_view(lines@),
            shown == all.take(n as int),
            i <= n,
            out@ == joined(shown.take(i as int)),
        decreases n - i,
    {
        assert(lines@[i as int]@ == shown[i as int]);
        if i > 0 {
            out.push('\n');
        }
        out.append(lines[i].as_str());
        assert(shown.take(i + 1).drop_last() =~= shown.take(i as int));
        proof {
            if i == 0 {
                assert(shown.take(1)[0] == shown[0]);
            }
        }
        i = i + 1;
    }
    assert(shown.take(n as int) =~= shown);
    if n > 0 {
        out.push('\n');
    }
    out
}

/// The tokens of the segments, `(name, styles)`, in order of appearance,
/// those inside groups included.
pub open spec fn token_list(segs: Seq<SegModel>) -> Seq<(Seq<char>, Seq<Seq<char>>)>
    decreases segs, 1int,
{
    if segs.len() == 0 {
        Seq::empty()
    } else {
        token_list(segs.drop_last()) + seg_tokens(segs.last())
    }
}

/// The tokens of one segment.
pub open spec fn seg_tokens(seg: SegModel) -> Seq<(Seq<char>, Seq<Seq<char>>)>
    decreases seg, 0int,
{
    match seg {
        SegModel::Tok { name, styles } => seq![(name, styles)],
        SegModel::Group { styles, inner } => token_list(inner),
        _ => Seq::empty(),
    }
}

/// The view of a token request.
pub open spec fn request_view(r: (String, Vec<String>)) -> (Seq<char>, Seq<Seq<char>>) {
    (r.0@, strs_view(r.1@))
}

/// The views of token requests.
pub open spec fn requests_view(v: Seq<(String, Vec<String>)>) -> Seq<(Seq<char>, Seq<Seq<char>>)> {
    v.map_values(|r: (String, Vec<String>)| request_view(r))
}

fn copy_strs(v: &Vec<String>) -> (res: Vec<String>)
    ensures
        strs_view(res@) == strs_view(v@),
{
    let mut out: Vec<String> = Vec::new();
    let mut i: usize = 0;
    while i < v.len()
        invariant
            i <= v@.len(),
            strs_view(out@) == strs_view(v@).take(i as int),
        decreases v@.len() - i,
    {
        let ghost prev = out@;
        let c = v[i].clone();
        assert(c@ == v@[i as int]@);
        out.push(c);
        assert(strs_view(out@) =~= strs_view(prev).push(c@));
        assert(strs_view(out@) =~= strs_view(v@).take(i + 1));
        i = i + 1;
    }
    assert(strs_view(v@).take(v@.len() as int) =~= strs_view(v@));
    out
}

fn tokens_into(segs: &[Seg], out: &mut Vec<(String, Vec<String>)>)
    ensures
        requests_view(final(out)@) == requests_view(old(out)@) + token_list(segs_model(segs@)),
    decreases segs@,
{
    let ghost base = requests_view(out@);
    let mut k: usize = 0;
    assert(segs@.take(0) =~= Seq::<Seg>::empty());
    assert(base + token_list(segs_model(segs@.take(0))) =~= base);
    while k < segs.len()
        invariant
            k <= segs@.len(),
            requests_view(out@) == base + token_list(segs_model(segs@.take(k as int))),
        decreases segs@.len() - k,
    {
        proof {
            assert(segs@.take(k + 1) =~= segs@.take(k as int).push(segs@[k as int]));
            lemma_segs_model_push(segs@.take(k as int), segs@[k as int]);
            assert(segs_model(segs@.take(k + 1)).drop_last() =~= segs_model(segs@.take(k as int)));
        }
        let ghost seg = seg_model(segs@[k as int]);
        let ghost before = requests_view(out@);
        match &segs[k] {
            Seg::Tok { name, styles } => {
                let r = (name.clone(), copy_strs(styles));
                out.push(r);
                assert(requests_view(out@) =~= before + seg_tokens(seg));
            },
            Seg::Group { styles, inner } => {
                proof {
                    assert(decreases_to!(segs@ => segs@[k as int]));
                    assert(decreases_to!(segs@[k as int] => *inner));
                    assert(decreases_to!(*inner => inner@));
                }
                tokens_into(inner.as_slice(), out);
            },
            _ => {
                assert(before + seg_tokens(seg) =~= before);
            },
        }
        assert(requests_view(out@) == before + seg_tokens(seg));
        assert(requests_view(out@) =~= base + token_list(segs_model(segs@.take(k + 1))));
        k = k + 1;
    }
    assert(segs@.take(k as int) =~= segs@);
}

/// The tokens of `segs`, `(name, styles)`, in the order in which
/// [`render_segs`] takes their values.
pub fn tokens_in(segs: &[Seg]) -> (res: Vec<(String, Vec<String>)>)
    ensures
        requests_view(res@) == token_list(segs_model(segs@)),
{
    let mut out: Vec<(String, Vec<String>)> = Vec::new();
    assert(requests_view(out@) =~= Seq::<(Seq<char>, Seq<Seq<char>>)>::empty());
    tokens_into(segs, &mut out);
    assert(Seq::<(Seq<char>, Seq<Seq<char>>)>::empty() + token_list(segs_model(segs@))
        =~= token_list(segs_model(segs@)));
    out
}

// ------------------------------------------------------------------
// Laws.
// ------------------------------------------------------------------

/// Text that the parser reads as plain characters: no `%` is followed by
/// `%`, `[` or a name character, and no backslash is followed by `n`.
pub open spec fn plain_format_text(s: Seq<char>) -> bool {
    &&& forall|j: int| 0 <= j < s.len() && #[trigger] s[j] == '%' && j + 1 < s.len()
        ==> s[j + 1] != '%' && s[j + 1] != '[' && !is_ident_char(s[j + 1])
    &&& forall|j: int| 0 <= j < s.len() && #[trigger] s[j] == '\\' && j + 1 < s.len()
        ==> s[j + 1] != 'n'
}

proof fn lemma_plain_from(s: Seq<char>, i: int, lit: Seq<char>, out: Seq<SegModel>)
    requires
        0 <= i <= s.len(),
        plain_format_text(s),
    ensures
        parse_from(s, i, None, lit, out) == (flushed(out, lit + s.skip(i)), s.len() as int, false),
    decreases s.len() - i,
{
    if i < s.len() {
        if s[i] == '%' {
            if i + 1 < s.len() {
                assert(!is_ident_char(s[i + 1]));
            }
            assert(ident_end(s, i + 1) == i + 1);
        }
        lemma_plain_from(s, i + 1, lit.push(s[i]), out);
        assert(lit.push(s[i]) + s.skip(i + 1) =~= lit + s.skip(i));
    } else {
        assert(lit + s.skip(i) =~= lit);
    }
}

/// Text that the parser reads as plain characters (see
/// [`plain_format_text`]; a lone `%` such as in `50% off` stays, as does a
/// backslash not followed by `n`) is one literal segment, none when empty.
pub proof fn law_plain_text_is_literal(s: Seq<char>)
    requires
        plain_format_text(s),
    ensures
        parsed(s) == (if s.len() > 0 { seq![SegModel::Lit(s)] } else { Seq::<SegModel>::empty() }),
{
    lemma_plain_from(s, 0, Seq::empty(), Seq::empty());
    assert(Seq::<char>::empty() + s.skip(0) =~= s);
    if s.len() == 0 {
        assert(s =~= Seq::<char>::empty());
    }
}

/// A `%` that is followed by none of `%`, `[` or a name character (or by
/// nothing) stays a literal `%`: put between two plain texts, as in `50% off`,
/// the whole text is one literal segment.
pub proof fn law_lone_percent_is_literal(a: Seq<char>, b: Seq<char>)
    requires
        plain_format_text(a),
        plain_format_text(b),
        a.len() == 0 || a.last() != '%',
        b.len() == 0 || (b[0] != '%' && b[0] != '[' && !is_ident_char(b[0])),
    ensures
        parsed(a + seq!['%'] + b) == seq![SegModel::Lit(a + seq!['%'] + b)],
{
    let s = a + seq!['%'] + b;
    let n = a.len() as int;
    assert forall|j: int| 0 <= j < s.len() && #[trigger] s[j] == '%' && j + 1 < s.len()
        implies s[j + 1] != '%' && s[j + 1] != '[' && !is_ident_char(s[j + 1]) by {
        if j < n {
            assert(s[j] == a[j]);
            if j + 1 < n {
                assert(s[j + 1] == a[j + 1]);
            } else {
                assert(a.last() == a[j]);
            }
        } else if j == n {
            assert(s[j + 1] == b[0]);
        } else {
            assert(s[j] == b[j - n - 1]);
            assert(s[j + 1] == b[j - n]);
        }
    }
    assert forall|j: int| 0 <= j < s.len() && #[trigger] s[j] == '\\' && j + 1 < s.len()
        implies s[j + 1] != 'n' by {
        if j < n {
            assert(s[j] == a[j]);
            if j + 1 < n {
                assert(s[j + 1] == a[j + 1]);
            } else {
                assert(s[j + 1] == '%');
            }
        } else if j > n {
            assert(s[j] == b[j - n - 1]);
            assert(s[j + 1] == b[j - n]);
        }
    }
    law_plain_text_is_literal(s);
}

/// A token or style name: non-empty, of name characters only.
pub open spec fn is_name(s: Seq<char>) -> bool {
    s.len() > 0 && forall|j: int| 0 <= j < s.len() ==> is_ident_char(#[trigger] s[j])
}

/// Whether every entry is a name.
pub open spec fn all_names(ss: Seq<Seq<char>>) -> bool {
    forall|k: int| 0 <= k < ss.len() ==> is_name(#[trigger] ss[k])
}

/// Whether every entry is non-empty.
pub open spec fn all_nonempty(ss: Seq<Seq<char>>) -> bool {
    forall|k: int| 0 <= k < ss.len() ==> (#[trigger] ss[k]).len() > 0
}

/// A well-formed segment: a non-empty literal; a token whose name and
/// styles are names; a group whose styles are non-empty and whose segments
/// are well formed; a line break.
pub open spec fn seg_well_formed(seg: SegModel) -> bool
    decreases seg, 0int,
{
    match seg {
        SegModel::Lit(t) => t.len() > 0,
        SegModel::Tok { name, styles } => is_name(name) && all_names(styles),
        SegModel::Group { styles, inner } => all_nonempty(styles) && segs_well_formed(inner),
        SegModel::LineBreak => true,
    }
}

/// Well-formed segments: each well formed, and no two literals side by side.
pub open spec fn segs_well_formed(segs: Seq<SegModel>) -> bool
    decreases segs, 1int,
{
    if segs.len() == 0 {
        true
    } else {
        &&& segs_well_formed(segs.drop_last())
        &&& seg_well_formed(segs.last())
        &&& !(segs.last() is Lit && segs.len() >= 2 && segs.drop_last().last() is Lit)
    }
}

/// Segments that may take more literal text: well formed, and not ending in a
/// literal.
pub open spec fn open_for_text(out: Seq<SegModel>) -> bool {
    segs_well_formed(out) && (out.len() == 0 || !(out.last() is Lit))
}

proof fn lemma_push_wf(segs: Seq<SegModel>, x: SegModel)
    requires
        segs_well_formed(segs),
        seg_well_formed(x),
        !(x is Lit) || segs.len() == 0 || !(segs.last() is Lit),
    ensures
        segs_well_formed(segs.push(x)),
{
    assert(segs.push(x).drop_last() =~= segs);
}

proof fn lemma_flushed_wf(out: Seq<SegModel>, lit: Seq<char>)
    requires
        open_for_text(out),
    ensures
        segs_well_formed(flushed(out, lit)),
{
    if lit.len() > 0 {
        lemma_push_wf(out, SegModel::Lit(lit));
    }
}

proof fn lemma_styles_names(cs: Seq<char>, i: int)
    requires
        0 <= i <= cs.len(),
    ensures
        all_names(styles_at(cs, i).0),
    decreases cs.len() - i,
{
    if i < cs.len() && cs[i] == ':' {
        lemma_ident_end(cs, i + 1);
        let j = ident_end(cs, i + 1);
        if i + 1 < j {
            lemma_styles_names(cs, j);
            let name = cs.subrange(i + 1, j);
            assert(is_name(name));
            let rest = styles_at(cs, j).0;
            let all = seq![name] + rest;
            assert forall|k: int| 0 <= k < all.len() implies is_name(#[trigger] all[k]) by {
                if k > 0 {
                    assert(all[k] == rest[k - 1]);
                }
            }
        }
    }
}

proof fn lemma_colon_nonempty(s: Seq<char>, cur: Seq<char>)
    ensures
        all_nonempty(colon_pieces_from(s, cur)),
    decreases s.len(),
{
    let done = if cur.len() > 0 { seq![cur] } else { Seq::<Seq<char>>::empty() };
    if s.len() > 0 {
        if s[0] == ':' {
            lemma_colon_nonempty(s.drop_first(), Seq::empty());
            let rest = colon_pieces_from(s.drop_first(), Seq::empty());
            let all = done + rest;
            assert forall|k: int| 0 <= k < all.len() implies (#[trigger] all[k]).len() > 0 by {
                if k >= done.len() {
                    assert(all[k] == rest[k - done.len()]);
                }
            }
        } else {
            lemma_colon_nonempty(s.drop_first(), cur.push(s[0]));
        }
    }
}

proof fn lemma_parse_wf(cs: Seq<char>, i: int, term: Option<char>, lit: Seq<char>, out: Seq<SegModel>)
    requires
        0 <= i,
        open_for_text(out),
    ensures
        segs_well_formed(parse_from(cs, i, term, lit, out).0),
    decreases cs.len() - i,
{
    if !(0 <= i < cs.len()) || term == Some(cs[i]) {
        lemma_flushed_wf(out, lit);
    } else if cs[i] == '%' && i + 1 < cs.len() && cs[i + 1] == '%' {
        lemma_parse_wf(cs, i + 2, term, lit.push('%'), out);
    } else if cs[i] == '%' && i + 1 < cs.len() && cs[i + 1] == '[' {
        let g = group_styles(cs, i + 2);
        lemma_group_styles(cs, i + 2);
        let k = if 0 <= g.1 < cs.len() && cs[g.1] == ' ' { g.1 + 1 } else { g.1 };
        lemma_flushed_wf(out, lit);
        if i + 2 <= k <= cs.len() {
            let inner = parse_from(cs, k, Some(']'), Seq::empty(), Seq::empty());
            lemma_parse_wf(cs, k, Some(']'), Seq::empty(), Seq::empty());
            if 0 <= i + 2 < cs.len() && cs[i + 2] == ':' {
                lemma_styles_names(cs, i + 2);
                assert(all_nonempty(g.0)) by {
                    assert forall|t: int| 0 <= t < g.0.len() implies (#[trigger] g.0[t]).len() > 0 by {
                        assert(is_name(g.0[t]));
                    }
                }
            } else {
                lemma_colon_nonempty(cs.subrange(i + 2, word_end(cs, i + 2)), Seq::empty());
            }
            let grp = SegModel::Group { styles: g.0, inner: inner.0 };
            assert(seg_well_formed(grp));
            let out2 = flushed(out, lit).push(grp);
            lemma_push_wf(flushed(out, lit), grp);
            if k <= inner.1 <= cs.len() {
                lemma_parse_wf(cs, inner.1, term, Seq::empty(), out2);
            }
        }
    } else if cs[i] == '%' {
        let j = ident_end(cs, i + 1);
        lemma_ident_end(cs, i + 1);
        if j == i + 1 {
            lemma_parse_wf(cs, i + 1, term, lit.push('%'), out);
        } else if i + 1 < j <= cs.len() {
            lemma_flushed_wf(out, lit);
            lemma_styles_at(cs, j);
            lemma_styles_names(cs, j);
            let st = styles_at(cs, j);
            let name = cs.subrange(i + 1, j);
            assert(is_name(name));
            let tok = SegModel::Tok { name: name, styles: st.0 };
            lemma_push_wf(flushed(out, lit), tok);
            if j <= st.1 <= cs.len() {
                lemma_parse_wf(cs, st.1, term, Seq::empty(), flushed(out, lit).push(tok));
            }
        } else {
            lemma_flushed_wf(out, lit);
        }
    } else if cs[i] == '\\' && i + 1 < cs.len() && cs[i + 1] == 'n' {
        lemma_flushed_wf(out, lit);
        lemma_push_wf(flushed(out, lit), SegModel::LineBreak);
        lemma_parse_wf(cs, i + 2, term, Seq::empty(), flushed(out, lit).push(SegModel::LineBreak));
    } else {
        lemma_parse_wf(cs, i + 1, term, lit.push(cs[i]), out);
    }
}

/// Every parse is well formed, groups included: literals are non-empty and
/// never side by side, token names and token styles are names, group styles
/// are non-empty (see [`segs_well_formed`]).
pub proof fn law_parse_well_formed(s: Seq<char>)
    ensures
        segs_well_formed(parsed(s)),
{
    lemma_parse_wf(s, 0, None, Seq::empty(), Seq::empty());
}

proof fn lemma_trimmed(s: Seq<char>)
    ensures
        trimmed(s).len() == 0 || trimmed(s).last() != ' ',
    decreases s.len(),
{
    if s.len() > 0 && s.last() == ' ' {
        lemma_trimmed(s.drop_last());
    }
}

/// No rendered line ends with a space.
pub proof fn law_no_trailing_space(segs: Seq<SegModel>, vals: Seq<Option<Seq<char>>>, no_color: bool)
    ensures
        forall|k: int| 0 <= k < rendered(segs, vals, no_color).len() ==> {
            let l = #[trigger] rendered(segs, vals, no_color)[k];
            l.len() == 0 || l.last() != ' '
        },
{
    let f = render_fold(segs, vals, 0, no_color);
    assert forall|k: int| 0 <= k < rendered(segs, vals, no_color).len() implies {
        let l = #[trigger] rendered(segs, vals, no_color)[k];
        l.len() == 0 || l.last() != ' '
    } by {
        lemma_trimmed(f.lines[k]);
    }
}

/// The number of line breaks among the segments (not inside groups).
pub open spec fn line_breaks(segs: Seq<SegModel>) -> nat
    decreases segs.len(),
{
    if segs.len() == 0 {
        0
    } else {
        line_breaks(segs.drop_last()) + if segs.last() is LineBreak { 1nat } else { 0nat }
    }
}

proof fn lemma_fold_lines(segs: Seq<SegModel>, vals: Seq<Option<Seq<char>>>, next: int, no_color: bool)
    ensures
        render_fold(segs, vals, next, no_color).lines.len() == 1 + line_breaks(segs),
    decreases segs.len(),
{
    if segs.len() > 0 {
        lemma_fold_lines(segs.drop_last(), vals, next, no_color);
        let prev = render_fold(segs.drop_last(), vals, next, no_color);
        assert(render_fold(segs, vals, next, no_color) == render_step(segs.last(), prev, vals, no_color));
        assert(prev.lines.len() >= 1);
        match segs.last() {
            SegModel::Lit(t) => {
                assert(render_step(segs.last(), prev, vals, no_color).lines.len() == prev.lines.len());
            },
            SegModel::Tok { name, styles } => {
                assert(render_step(segs.last(), prev, vals, no_color).lines.len() == prev.lines.len());
            },
            SegModel::Group { styles, inner } => {
                assert(render_step(segs.last(), prev, vals, no_color).lines.len() == prev.lines.len());
            },
            SegModel::LineBreak => {},
        }
    }
}

/// Each line break outside groups starts a new line, and nothing else does:
/// the output has one line more than there are such line breaks.
pub proof fn law_line_count(segs: Seq<SegModel>, vals: Seq<Option<Seq<char>>>, no_color: bool)
    ensures
        rendered(segs, vals, no_color).len() == 1 + line_breaks(segs),
{
    lemma_fold_lines(segs, vals, 0, no_color);
}

/// The smaller of two integers.
pub open spec fn min_int(a: int, b: int) -> int {
    if a < b { a } else { b }
}

proof fn lemma_step_next(seg: SegModel, st: RenderState, vals: Seq<Option<Seq<char>>>, no_color: bool)
    requires
        0 <= st.next <= vals.len(),
    ensures
        render_step(seg, st, vals, no_color).next == min_int(st.next + seg_tokens(seg).len(), vals.len() as int),
    decreases seg, 0int,
{
    match seg {
        SegModel::Group { styles, inner } => {
            lemma_fold_next(inner, vals, st.next, no_color);
        },
        _ => {},
    }
}

proof fn lemma_fold_next(segs: Seq<SegModel>, vals: Seq<Option<Seq<char>>>, next: int, no_color: bool)
    requires
        0 <= next <= vals.len(),
    ensures
        render_fold(segs, vals, next, no_color).next == min_int(next + token_list(segs).len(), vals.len() as int),
    decreases segs, 1int,
{
    if segs.len() > 0 {
        lemma_fold_next(segs.drop_last(), vals, next, no_color);
        let prev = render_fold(segs.drop_last(), vals, next, no_color);
        lemma_step_next(segs.last(), prev, vals, no_color);
    }
}

/// Rendering takes one value per token, in the order of [`token_list`]: it
/// uses as many values as there are tokens, or all of them if there are fewer.
pub proof fn law_one_value_per_token(segs: Seq<SegModel>, vals: Seq<Option<Seq<char>>>, no_color: bool)
    ensures
        render_run(segs, vals, 0, no_color).1 == min_int(token_list(segs).len() as int, vals.len() as int),
{
    lemma_fold_next(segs, vals, 0, no_color);
}

/// The output shows at most [`MAX_LINES`] lines, the first ones rendered,
/// in order; with at most that many, all of them.
pub proof fn law_at_most_three_lines(ls: Seq<Seq<char>>)
    ensures
        shown_lines(ls).len() <= MAX_LINES,
        shown_lines(ls) == ls.take(shown_lines(ls).len() as int),
        ls.len() <= MAX_LINES ==> shown_lines(ls) == ls,
{
    assert(ls.take(ls.len() as int) =~= ls);
}

/// Text that the parser reads as plain characters (see
/// [`plain_format_text`]) renders as itself, on one line, without its
/// trailing spaces.
pub proof fn law_plain_text_renders_as_is(s: Seq<char>, vals: Seq<Option<Seq<char>>>, no_color: bool)
    requires
        plain_format_text(s),
    ensures
        rendered(parsed(s), vals, no_color) == seq![trimmed(s)],
{
    law_plain_text_is_literal(s);
    let start = RenderState { lines: seq![Seq::<char>::empty()], last_empty: false, next: 0 };
    if s.len() > 0 {
        let segs = seq![SegModel::Lit(s)];
        assert(segs.drop_last() =~= Seq::<SegModel>::empty());
        assert(render_fold(segs.drop_last(), vals, 0, no_color) == start);
        let f = render_fold(segs, vals, 0, no_color);
        assert(segs.last() == SegModel::Lit(s));
        assert(f == render_step(SegModel::Lit(s), start, vals, no_color));
        assert(render_step(SegModel::Lit(s), start, vals, no_color).lines == append_last(start.lines, s));
        assert(f.lines == append_last(start.lines, s));
        assert(append_last(start.lines, s) =~= seq![s]) by {
            assert(Seq::<char>::empty() + s =~= s);
        }
        assert(f.lines.map_values(|l: Seq<char>| trimmed(l)) =~= seq![trimmed(s)]);
    } else {
        assert(s =~= Seq::<char>::empty());
        let f = render_fold(Seq::<SegModel>::empty(), vals, 0, no_color);
        assert(f.lines.map_values(|l: Seq<char>| trimmed(l)) =~= seq![trimmed(s)]);
    }
}

/// The text a token value shows: the value, or nothing for a missing one.
pub open spec fn shown(w: Option<Seq<char>>) -> Seq<char> {
    match w {
        Some(x) => x,
        None => Seq::empty(),
    }
}

proof fn lemma_fold_three(a: SegModel, b: SegModel, c: SegModel, vals: Seq<Option<Seq<char>>>, no_color: bool)
    ensures
        render_fold(seq![a, b, c], vals, 0, no_color) == render_step(c,
            render_step(b, render_step(a, RenderState { lines: seq![Seq::<char>::empty()], last_empty: false, next: 0 },
                vals, no_color), vals, no_color), vals, no_color),
{
    let s3 = seq![a, b, c];
    assert(s3.drop_last() =~= seq![a, b]);
    assert(seq![a, b].drop_last() =~= seq![a]);
    assert(seq![a].drop_last() =~= Seq::<SegModel>::empty());
    assert(render_fold(Seq::<SegModel>::empty(), vals, 0, no_color)
        == RenderState { lines: seq![Seq::<char>::empty()], last_empty: false, next: 0 });
    assert(render_fold(seq![a], vals, 0, no_color) == render_step(a,
        render_fold(Seq::<SegModel>::empty(), vals, 0, no_color), vals, no_color));
    assert(render_fold(seq![a, b], vals, 0, no_color) == render_step(b,
        render_fold(seq![a], vals, 0, no_color), vals, no_color));
}

/// Text after a token that shows a value is kept whole, whatever came
/// before the token: a token with a value `v` (after one with any value or
/// none), then a literal `t`, render as the first value, `v` and `t` side by
/// side.
pub proof fn law_text_after_value_kept(
    a: SegModel,
    b: SegModel,
    w: Option<Seq<char>>,
    v: Seq<char>,
    t: Seq<char>,
    no_color: bool,
)
    requires
        a is Tok,
        b is Tok,
        v.len() > 0,
    ensures
        rendered(seq![a, b, SegModel::Lit(t)], seq![w, Some(v)], no_color) == seq![trimmed(shown(w) + v + t)],
{
    let vals = seq![w, Some(v)];
    lemma_fold_three(a, b, SegModel::Lit(t), vals, no_color);
    let s0 = RenderState { lines: seq![Seq::<char>::empty()], last_empty: false, next: 0 };
    let s1 = render_step(a, s0, vals, no_color);
    assert(value_at(vals, 0) == w);
    assert(s1.next == 1);
    assert(s1.lines =~= seq![shown(w)]) by {
        match w {
            Some(x) => {
                if x.len() > 0 {
                    assert(append_last(s0.lines, x) =~= seq![x]);
                } else {
                    assert(x =~= Seq::<char>::empty());
                }
            },
            None => {},
        }
    }
    let s2 = render_step(b, s1, vals, no_color);
    assert(value_at(vals, 1) == Some(v));
    assert(s2.lines =~= seq![shown(w) + v]);
    assert(!s2.last_empty);
    let s3 = render_step(SegModel::Lit(t), s2, vals, no_color);
    if t.len() > 0 {
        assert(s3.lines =~= seq![shown(w) + v + t]);
    } else {
        assert(shown(w) + v + t =~= shown(w) + v);
    }
    assert(s3.lines.map_values(|l: Seq<char>| trimmed(l)) =~= seq![trimmed(shown(w) + v + t)]);
}

/// A token that shows nothing takes one space with it: after a literal `p`,
/// a token without a value (or with an empty one) followed by a literal `t`
/// renders as `p` and `t` without its first space; a `t` of spaces only is
/// dropped.
pub proof fn law_empty_value_collapses_space(
    p: Seq<char>,
    a: SegModel,
    w: Option<Seq<char>>,
    t: Seq<char>,
    no_color: bool,
)
    requires
        a is Tok,
        p.len() > 0,
        shown(w).len() == 0,
    ensures
        rendered(seq![SegModel::Lit(p), a, SegModel::Lit(t)], seq![w], no_color) == seq![trimmed(
            if all_spaces(t) { p } else if t.len() > 0 && t[0] == ' ' { p + t.drop_first() } else { p + t })],
{
    let vals = seq![w];
    lemma_fold_three(SegModel::Lit(p), a, SegModel::Lit(t), vals, no_color);
    let s0 = RenderState { lines: seq![Seq::<char>::empty()], last_empty: false, next: 0 };
    let s1 = render_step(SegModel::Lit(p), s0, vals, no_color);
    assert(s1.lines =~= seq![p]);
    assert(!s1.last_empty && s1.next == 0);
    let s2 = render_step(a, s1, vals, no_color);
    assert(value_at(vals, 0) == w);
    assert(s2.lines == s1.lines && s2.last_empty);
    let s3 = render_step(SegModel::Lit(t), s2, vals, no_color);
    let expect = if all_spaces(t) { p } else if t.len() > 0 && t[0] == ' ' { p + t.drop_first() } else { p + t };
    if all_spaces(t) {
    } else if t.len() > 0 && t[0] == ' ' {
        if t.drop_first().len() > 0 {
            assert(s3.lines =~= seq![expect]);
        } else {
            assert(all_spaces(t));
        }
    } else {
        assert(t.len() > 0);
        assert(s3.lines =~= seq![expect]);
    }
    assert(s3.lines =~= seq![expect]);
    assert(s3.lines.map_values(|l: Seq<char>| trimmed(l)) =~= seq![trimmed(expect)]);
}

/// Text that reads as plain characters inside a group too: no `%`, no
/// backslash and no `]`.
pub open spec fn simple_text(x: Seq<char>) -> bool {
    forall|j: int| 0 <= j < x.len() ==> #[trigger] x[j] != '%' && x[j] != '\\' && x[j] != ']'
}

proof fn lemma_simple_run(
    cs: Seq<char>,
    i: int,
    j: int,
    term: Option<char>,
    lit: Seq<char>,
    out: Seq<SegModel>,
)
    requires
        0 <= i <= j <= cs.len(),
        simple_text(cs.subrange(i, j)),
        term is None || term == Some(']'),
    ensures
        parse_from(cs, i, term, lit, out) == parse_from(cs, j, term, lit + cs.subrange(i, j), out),
    decreases j - i,
{
    if i == j {
        assert(lit + cs.subrange(i, j) =~= lit);
    } else {
        assert(cs[i] == cs.subrange(i, j)[0]);
        assert(simple_text(cs.subrange(i + 1, j))) by {
            assert forall|k: int| 0 <= k < cs.subrange(i + 1, j).len()
                implies #[trigger] cs.subrange(i + 1, j)[k] != '%' && cs.subrange(i + 1, j)[k] != '\\'
                    && cs.subrange(i + 1, j)[k] != ']' by {
                assert(cs.subrange(i + 1, j)[k] == cs.subrange(i, j)[k + 1]);
            }
        }
        lemma_simple_run(cs, i + 1, j, term, lit.push(cs[i]), out);
        assert(lit.push(cs[i]) + cs.subrange(i + 1, j) =~= lit + cs.subrange(i, j));
    }
}

proof fn lemma_colon_single(s: Seq<char>, cur: Seq<char>)
    requires
        cur.len() + s.len() > 0,
        forall|j: int| 0 <= j < s.len() ==> #[trigger] s[j] != ':',
    ensures
        colon_pieces_from(s, cur) == seq![cur + s],
    decreases s.len(),
{
    if s.len() == 0 {
        assert(cur + s =~= cur);
    } else {
        assert(s[0] != ':');
        lemma_colon_single(s.drop_first(), cur.push(s[0]));
        assert(cur.push(s[0]) + s.drop_first() =~= cur + s);
    }
}

/// The styles and the end of the group opened at `i` by `%[` followed by the
/// name `s` and a space: the style `s`, and the position after the space.
proof fn lemma_group_head(cs: Seq<char>, i: int, s: Seq<char>)
    requires
        0 <= i,
        i + 3 + s.len() <= cs.len(),
        is_name(s),
        cs[i] == '%',
        cs[i + 1] == '[',
        cs.subrange(i + 2, i + 2 + s.len()) == s,
        cs[i + 2 + s.len()] == ' ',
    ensures
        group_styles(cs, i + 2) == (seq![s], i + 2 + s.len()),
{
    let e: int = i + 2 + s.len();
    assert(cs[i + 2] == s[0]);
    assert(is_ident_char(s[0]));
    lemma_word_end(cs, i + 2);
    assert forall|k: int| i + 2 <= k < e implies #[trigger] cs[k] != ' ' && cs[k] != ']' by {
        assert(cs[k] == s[k - i - 2]);
        assert(is_ident_char(s[k - i - 2]));
    }
    lemma_word_end_at(cs, i + 2, e);
    assert forall|j: int| 0 <= j < s.len() implies #[trigger] s[j] != ':' by {
        assert(is_ident_char(s[j]));
    }
    lemma_colon_single(s, Seq::empty());
    assert(Seq::<char>::empty() + s =~= s);
}

proof fn lemma_word_end_at(cs: Seq<char>, i: int, e: int)
    requires
        0 <= i <= e < cs.len(),
        forall|k: int| i <= k < e ==> #[trigger] cs[k] != ' ' && cs[k] != ']',
        cs[e] == ' ',
    ensures
        word_end(cs, i) == e,
    decreases e - i,
{
    if i < e {
        lemma_word_end_at(cs, i + 1, e);
    }
}

proof fn lemma_piece(pre: Seq<char>, piece: Seq<char>, post: Seq<char>)
    ensures
        (pre + piece + post).subrange(pre.len() as int, pre.len() + piece.len() as int) == piece,
        (pre + piece + post).len() == pre.len() + piece.len() + post.len(),
{
    assert((pre + piece + post).subrange(pre.len() as int, pre.len() + piece.len() as int) =~= piece);
}

/// The format text `%[s A%[t B]C]D`.
pub open spec fn nested_text(s: Seq<char>, t: Seq<char>, a: Seq<char>, b: Seq<char>, c: Seq<char>, d: Seq<char>) -> Seq<char> {
    seq!['%', '['] + s + seq![' '] + a + seq!['%', '['] + t + seq![' '] + b + seq![']'] + c + seq![']'] + d
}

/// Where the pieces of [`nested_text`] stand.
pub open spec fn nested_layout(cs: Seq<char>, s: Seq<char>, t: Seq<char>, a: Seq<char>, b: Seq<char>, c: Seq<char>, d: Seq<char>) -> bool {
    let p1: int = 2 + s.len() as int;
    let p2: int = p1 + 1 + a.len();
    let p3: int = p2 + 2 + t.len();
    let p4: int = p3 + 1 + b.len();
    let p5: int = p4 + 1 + c.len();
    &&& cs.len() == p5 + 1 + d.len()
    &&& cs.subrange(0, 2) == seq!['%', '[']
    &&& cs.subrange(2, p1) == s
    &&& cs.subrange(p1, p1 + 1) == seq![' ']
    &&& cs.subrange(p1 + 1, p2) == a
    &&& cs.subrange(p2, p2 + 2) == seq!['%', '[']
    &&& cs.subrange(p2 + 2, p3) == t
    &&& cs.subrange(p3, p3 + 1) == seq![' ']
    &&& cs.subrange(p3 + 1, p4) == b
    &&& cs.subrange(p4, p4 + 1) == seq![']']
    &&& cs.subrange(p4 + 1, p5) == c
    &&& cs.subrange(p5, p5 + 1) == seq![']']
    &&& cs.subrange(p5 + 1, cs.len() as int) == d
}

#[verifier::rlimit(50)]
proof fn lemma_nested_layout(s: Seq<char>, t: Seq<char>, a: Seq<char>, b: Seq<char>, c: Seq<char>, d: Seq<char>)
    ensures
        nested_layout(nested_text(s, t, a, b, c, d), s, t, a, b, c, d),
{
    let o = seq!['%', '['];
    let sp = seq![' '];
    let cl = seq![']'];
    let x1 = o;
    let x2 = x1 + s;
    let x3 = x2 + sp;
    let x4 = x3 + a;
    let x5 = x4 + o;
    let x6 = x5 + t;
    let x7 = x6 + sp;
    let x8 = x7 + b;
    let x9 = x8 + cl;
    let x10 = x9 + c;
    let x11 = x10 + cl;
    let cs = x11 + d;
    assert(cs == nested_text(s, t, a, b, c, d));
    let r1 = s + sp + a + o + t + sp + b + cl + c + cl + d;
    assert(cs =~= seq![] + o + r1);
    lemma_piece(seq![], o, r1);
    let r2 = sp + a + o + t + sp + b + cl + c + cl + d;
    assert(cs =~= x1 + s + r2);
    lemma_piece(x1, s, r2);
    let r3 = a + o + t + sp + b + cl + c + cl + d;
    assert(cs =~= x2 + sp + r3);
    lemma_piece(x2, sp, r3);
    let r4 = o + t + sp + b + cl + c + cl + d;
    assert(cs =~= x3 + a + r4);
    lemma_piece(x3, a, r4);
    let r5 = t + sp + b + cl + c + cl + d;
    assert(cs =~= x4 + o + r5);
    lemma_piece(x4, o, r5);
    let r6 = sp + b + cl + c + cl + d;
    assert(cs =~= x5 + t + r6);
    lemma_piece(x5, t, r6);
    let r7 = b + cl + c + cl + d;
    assert(cs =~= x6 + sp + r7);
    lemma_piece(x6, sp, r7);
    let r8 = cl + c + cl + d;
    assert(cs =~= x7 + b + r8);
    lemma_piece(x7, b, r8);
    let r9 = c + cl + d;
    assert(cs =~= x8 + cl + r9);
    lemma_piece(x8, cl, r9);
    let r10 = cl + d;
    assert(cs =~= x9 + c + r10);
    lemma_piece(x9, c, r10);
    assert(cs =~= x10 + cl + d);
    lemma_piece(x10, cl, d);
    assert(cs =~= x11 + d + seq![]);
    lemma_piece(x11, d, seq![]);
}

/// Groups nest: in `%[s A%[t B]C]D`, with style names `s`, `t` and texts
/// `A`, `B`, `C`, `D` free of `%`, backslashes and `]`, the outer group holds
/// the literal `A`, the inner group (holding `B`) and the literal `C`, up to
/// its own `]`; `D` follows it.
pub proof fn law_groups_nest(s: Seq<char>, t: Seq<char>, a: Seq<char>, b: Seq<char>, c: Seq<char>, d: Seq<char>)
    requires
        is_name(s),
        is_name(t),
        simple_text(a),
        simple_text(b),
        simple_text(c),
        simple_text(d),
        a.len() > 0,
        b.len() > 0,
        c.len() > 0,
        d.len() > 0,
    ensures
        parsed(nested_text(s, t, a, b, c, d)) == seq![
            SegModel::Group {
                styles: seq![s],
                inner: seq![
                    SegModel::Lit(a),
                    SegModel::Group { styles: seq![t], inner: seq![SegModel::Lit(b)] },
                    SegModel::Lit(c),
                ],
            },
            SegModel::Lit(d),
        ],
{
    let cs = nested_text(s, t, a, b, c, d);
    lemma_nested_layout(s, t, a, b, c, d);
    lemma_nested_parse(cs, s, t, a, b, c, d);
}

#[verifier::rlimit(50)]
proof fn lemma_nested_parse(cs: Seq<char>, s: Seq<char>, t: Seq<char>, a: Seq<char>, b: Seq<char>, c: Seq<char>, d: Seq<char>)
    requires
        nested_layout(cs, s, t, a, b, c, d),
        is_name(s),
        is_name(t),
        simple_text(a),
        simple_text(b),
        simple_text(c),
        simple_text(d),
        a.len() > 0,
        b.len() > 0,
        c.len() > 0,
        d.len() > 0,
    ensures
        parsed(cs) == seq![
            SegModel::Group {
                styles: seq![s],
                inner: seq![
                    SegModel::Lit(a),
                    SegModel::Group { styles: seq![t], inner: seq![SegModel::Lit(b)] },
                    SegModel::Lit(c),
                ],
            },
            SegModel::Lit(d),
        ],
{
    let p1: int = 2 + s.len() as int;
    let p2: int = p1 + 1 + a.len();
    let p3: int = p2 + 2 + t.len();
    let p4: int = p3 + 1 + b.len();
    let p5: int = p4 + 1 + c.len();
    let n: int = p5 + 1 + d.len();
    assert(cs[0] == cs.subrange(0, 2)[0] && cs[1] == cs.subrange(0, 2)[1]);
    assert(cs[p1] == cs.subrange(p1, p1 + 1)[0]);
    assert(cs[p2] == cs.subrange(p2, p2 + 2)[0] && cs[p2 + 1] == cs.subrange(p2, p2 + 2)[1]);
    assert(cs[p3] == cs.subrange(p3, p3 + 1)[0]);
    assert(cs[p4] == cs.subrange(p4, p4 + 1)[0]);
    assert(cs[p5] == cs.subrange(p5, p5 + 1)[0]);

    // The inner group.
    lemma_group_head(cs, p2, t);
    lemma_simple_run(cs, p3 + 1, p4, Some(']'), Seq::empty(), Seq::empty());
    assert(Seq::<char>::empty() + b =~= b);
    let inner2 = parse_from(cs, p3 + 1, Some(']'), Seq::empty(), Seq::empty());
    assert(parse_from(cs, p4, Some(']'), b, Seq::empty()) == (seq![SegModel::Lit(b)], p4 + 1, true));
    assert(inner2 == (seq![SegModel::Lit(b)], p4 + 1, true));
    let g2 = SegModel::Group { styles: seq![t], inner: seq![SegModel::Lit(b)] };

    // The outer group's contents.
    lemma_simple_run(cs, p1 + 1, p2, Some(']'), Seq::empty(), Seq::empty());
    assert(Seq::<char>::empty() + a =~= a);
    let out2 = flushed(Seq::empty(), a).push(g2);
    assert(parse_from(cs, p2, Some(']'), a, Seq::empty()) == parse_from(cs, p4 + 1, Some(']'), Seq::empty(), out2));
    lemma_simple_run(cs, p4 + 1, p5, Some(']'), Seq::empty(), out2);
    assert(Seq::<char>::empty() + c =~= c);
    let inner_segs = seq![SegModel::Lit(a), g2, SegModel::Lit(c)];
    assert(flushed(out2, c) =~= inner_segs);
    assert(parse_from(cs, p5, Some(']'), c, out2) == (inner_segs, p5 + 1, true));
    let inner = parse_from(cs, p1 + 1, Some(']'), Seq::empty(), Seq::empty());
    assert(inner == (inner_segs, p5 + 1, true));

    // The top level.
    lemma_group_head(cs, 0, s);
    let g1 = SegModel::Group { styles: seq![s], inner: inner_segs };
    let top = flushed(Seq::<SegModel>::empty(), Seq::empty()).push(g1);
    assert(parse_from(cs, 0, None, Seq::empty(), Seq::empty()) == parse_from(cs, p5 + 1, None, Seq::empty(), top));
    lemma_simple_run(cs, p5 + 1, n, None, Seq::empty(), top);
    assert(Seq::<char>::empty() + d =~= d);
    assert(flushed(top, d) =~= seq![g1, SegModel::Lit(d)]);
}

} // verus!
