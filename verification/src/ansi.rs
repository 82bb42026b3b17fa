//! Reading ANSI-styled terminal output back into styled spans, and the SVG
//! pieces of a preview image: terminal colors, text escaping, span styles.

use vstd::prelude::*;
use crate::text::{chars_of, replaced, replace_all, decimal, digit_char};
use crate::args::{parse_u32_in, parse_u32_spec, all_digits, digits_value, without_plus};
use crate::color::{RESET, style_code, wrapped};

verus! {

/// The display style of a span of terminal text.
pub struct Style {
    pub fg: Option<&'static str>,
    pub bold: bool,
    pub dim: bool,
    pub italic: bool,
    pub underline: bool,
}

impl Style {
    /// The unstyled style.
    pub fn plain() -> (res: Style)
        ensures
            res.fg is None && !res.bold && !res.dim && !res.italic && !res.underline,
    {
        Style { fg: None, bold: false, dim: false, italic: false, underline: false }
    }
}

/// A run of text in one style.
pub struct Span {
    pub text: String,
    pub style: Style,
}

/// The mathematical value of a [`Style`].
pub struct StyleModel {
    pub fg: Option<Seq<char>>,
    pub bold: bool,
    pub dim: bool,
    pub italic: bool,
    pub underline: bool,
}

/// The model of a style.
pub open spec fn style_model(s: Style) -> StyleModel {
    StyleModel {
        fg: match s.fg { Some(c) => Some(c@), None => None },
        bold: s.bold,
        dim: s.dim,
        italic: s.italic,
        underline: s.underline,
    }
}

/// The unstyled style.
pub open spec fn plain_style() -> StyleModel {
    StyleModel { fg: None, bold: false, dim: false, italic: false, underline: false }
}

/// The model of a span: its text and style.
pub open spec fn span_model(s: Span) -> (Seq<char>, StyleModel) {
    (s.text@, style_model(s.style))
}

/// The models of spans.
pub open spec fn spans_model(v: Seq<Span>) -> Seq<(Seq<char>, StyleModel)> {
    v.map_values(|s: Span| span_model(s))
}

/// The preview color of a terminal color code (30 to 37, 90 to 97).
pub open spec fn svg_color(code: u32) -> Option<Seq<char>> {
    if code == 30 { Some("#2e3436"@) }
    else if code == 31 { Some("#cc0000"@) }
    else if code == 32 { Some("#4e9a06"@) }
    else if code == 33 { Some("#c4a000"@) }
    else if code == 34 { Some("#3465a4"@) }
    else if code == 35 { Some("#75507b"@) }
    else if code == 36 { Some("#06989a"@) }
    else if code == 37 { Some("#d3d7cf"@) }
    else if code == 90 { Some("#555753"@) }
    else if code == 91 { Some("#ef2929"@) }
    else if code == 92 { Some("#8ae234"@) }
    else if code == 93 { Some("#fce94f"@) }
    else if code == 94 { Some("#729fcf"@) }
    else if code == 95 { Some("#ad7fa8"@) }
    else if code == 96 { Some("#34e2e2"@) }
    else if code == 97 { Some("#eeeeec"@) }
    else { None }
}

/// The preview color of a terminal color code.
pub fn color_for(code: u32) -> (res: Option<&'static str>)
    ensures
        match res {
            Some(c) => svg_color(code) == Some(c@),
            None => svg_color(code) is None,
        },
{
    if code == 30 { Some("#2e3436") }
    else if code == 31 { Some("#cc0000") }
    else if code == 32 { Some("#4e9a06") }
    else if code == 33 { Some("#c4a000") }
    else if code == 34 { Some("#3465a4") }
    else if code == 35 { Some("#75507b") }
    else if code == 36 { Some("#06989a") }
    else if code == 37 { Some("#d3d7cf") }
    else if code == 90 { Some("#555753") }
    else if code == 91 { Some("#ef2929") }
    else if code == 92 { Some("#8ae234") }
    else if code == 93 { Some("#fce94f") }
    else if code == 94 { Some("#729fcf") }
    else if code == 95 { Some("#ad7fa8") }
    else if code == 96 { Some("#34e2e2") }
    else if code == 97 { Some("#eeeeec") }
    else { None }
}

/// The style after one SGR parameter: 0 resets; 1 to 4 set bold, dim,
/// italic, underline; 22 clears bold and dim; 23 and 24 clear italic and
/// underline; 39 clears the color; 30 to 37 and 90 to 97 set it; anything
/// else changes nothing.
pub open spec fn sgr_applied(st: StyleModel, p: u32) -> StyleModel {
    if p == 0 { plain_style() }
    else if p == 1 { StyleModel { bold: true, ..st } }
    else if p == 2 { StyleModel { dim: true, ..st } }
    else if p == 3 { StyleModel { italic: true, ..st } }
    else if p == 4 { StyleModel { underline: true, ..st } }
    else if p == 22 { StyleModel { bold: false, dim: false, ..st } }
    else if p == 23 { StyleModel { italic: false, ..st } }
    else if p == 24 { StyleModel { underline: false, ..st } }
    else if p == 39 { StyleModel { fg: None, ..st } }
    else if (30 <= p <= 37) || (90 <= p <= 97) { StyleModel { fg: svg_color(p), ..st } }
    else { st }
}

/// The style after the parameters `ps`, in order.
pub open spec fn sgr_all(st: StyleModel, ps: Seq<u32>) -> StyleModel
    decreases ps.len(),
{
    if ps.len() == 0 {
        st
    } else {
        sgr_applied(sgr_all(st, ps.drop_last()), ps.last())
    }
}

/// The numbers among the `;`-separated pieces of `s` (pieces that are not
/// numbers are skipped), `cur` being the piece read so far.
pub open spec fn sgr_params_from(s: Seq<char>, cur: Seq<char>) -> Seq<u32>
    decreases s.len(),
{
    let done = match parse_u32_spec(cur) { Some(v) => seq![v], None => Seq::<u32>::empty() };
    if s.len() == 0 {
        done
    } else if s[0] == ';' {
        done + sgr_params_from(s.drop_first(), Seq::empty())
    } else {
        sgr_params_from(s.drop_first(), cur.push(s[0]))
    }
}

/// The parameters of an SGR sequence body: a lone 0 when it is empty.
pub open spec fn sgr_params(s: Seq<char>) -> Seq<u32> {
    if s.len() == 0 { seq![0u32] } else { sgr_params_from(s, Seq::empty()) }
}

/// The first `m` at or after `j`, or the end.
pub open spec fn m_index(cs: Seq<char>, j: int) -> int
    decreases cs.len() - j,
{
    if 0 <= j < cs.len() && cs[j] != 'm' { m_index(cs, j + 1) } else { j }
}

/// `spans` followed by the pending text `buf` in style `st`, if any.
pub open spec fn flush_span(
    spans: Seq<(Seq<char>, StyleModel)>,
    buf: Seq<char>,
    st: StyleModel,
) -> Seq<(Seq<char>, StyleModel)> {
    if buf.len() > 0 { spans.push((buf, st)) } else { spans }
}

/// Reads `cs` from `i` with the spans `spans` so far, text `buf` pending in
/// style `st`: an escape followed by `[` starts an SGR sequence running to
/// the next `m`; every other character is text.
pub open spec fn ansi_from(
    cs: Seq<char>,
    i: int,
    spans: Seq<(Seq<char>, StyleModel)>,
    st: StyleModel,
    buf: Seq<char>,
) -> Seq<(Seq<char>, StyleModel)>
    decreases cs.len() - i,
{
    if !(0 <= i < cs.len()) {
        flush_span(spans, buf, st)
    } else if cs[i] == '\x1b' && i + 1 < cs.len() && cs[i + 1] == '[' {
        let k = m_index(cs, i + 2);
        let body = cs.subrange(i + 2, k);
        let next = if k < cs.len() { k + 1 } else { k };
        if i < next <= cs.len() {
            ansi_from(cs, next, flush_span(spans, buf, st), sgr_all(st, sgr_params(body)), Seq::empty())
        } else {
            flush_span(spans, buf, st)
        }
    } else {
        ansi_from(cs, i + 1, spans, st, buf.push(cs[i]))
    }
}

/// The styled spans of a line of terminal output.
pub open spec fn ansi_spans(s: Seq<char>) -> Seq<(Seq<char>, StyleModel)> {
    ansi_from(s, 0, Seq::empty(), plain_style(), Seq::empty())
}

proof fn lemma_m_index(cs: Seq<char>, j: int)
    requires
        0 <= j <= cs.len(),
    ensures
        j <= m_index(cs, j) <= cs.len(),
        forall|t: int| j <= t < m_index(cs, j) ==> #[trigger] cs[t] != 'm',
        m_index(cs, j) < cs.len() ==> cs[m_index(cs, j)] == 'm',
    decreases cs.len() - j,
{
    if j < cs.len() && cs[j] != 'm' {
        lemma_m_index(cs, j + 1);
    }
}

fn sgr_apply_exec(st: Style, p: u32) -> (res: Style)
    ensures
        style_model(res) == sgr_applied(style_model(st), p),
{
    let mut cur = st;
    if p == 0 {
        cur = Style::plain();
    } else if p == 1 {
        cur.bold = true;
    } else if p == 2 {
        cur.dim = true;
    } else if p == 3 {
        cur.italic = true;
    } else if p == 4 {
        cur.underline = true;
    } else if p == 22 {
        cur.bold = false;
        cur.dim = false;
    } else if p == 23 {
        cur.italic = false;
    } else if p == 24 {
        cur.underline = false;
    } else if p == 39 {
        cur.fg = None;
    } else if (30 <= p && p <= 37) || (90 <= p && p <= 97) {
        cur.fg = color_for(p);
    }
    cur
}

/// Applies the parameters of the SGR body `cs[j..k]` to `st`.
fn apply_sgr_body(cs: &Vec<char>, j: usize, k: usize, st: Style) -> (res: Style)
    requires
        j <= k <= cs@.len(),
    ensures
        style_model(res) == sgr_all(style_model(st), sgr_params(cs@.subrange(j as int, k as int))),
{
    let ghost body = cs@.subrange(j as int, k as int);
    if j == k {
        assert(sgr_params(body) =~= seq![0u32]);
        assert(seq![0u32].drop_last() =~= Seq::<u32>::empty());
        return sgr_apply_exec(st, 0);
    }
    let mut cur = st;
    let mut start = j;
    let mut t = j;
    let ghost done: Seq<u32> = Seq::empty();
    assert(body.skip(0) =~= body);
    assert(cs@.subrange(j as int, j as int) =~= Seq::<char>::empty());
    while t < k
        invariant
            j <= start <= t <= k <= cs@.len(),
            body == cs@.subrange(j as int, k as int),
            body.len() > 0,
            done + sgr_params_from(body.skip(t - j), cs@.subrange(start as int, t as int)) == sgr_params(body),
            style_model(cur) == sgr_all(style_model(st), done),
        decreases k - t,
    {
        let ghost piece = cs@.subrange(start as int, t as int);
        assert(body.skip(t - j)[0] == cs@[t as int]);
        assert(body.skip(t - j).drop_first() =~= body.skip(t - j + 1));
        if cs[t] == ';' {
            let ghost before = done;
            match parse_u32_in(cs, start, t) {
                Some(v) => {
                    cur = sgr_apply_exec(cur, v);
                    proof {
                        done = done.push(v);
                        assert(done.drop_last() =~= before);
                    }
                },
                None => {},
            }
            assert(cs@.subrange((t + 1) as int, (t + 1) as int) =~= Seq::<char>::empty());
            assert(done + sgr_params_from(body.skip(t - j + 1), Seq::empty())
                =~= before + sgr_params_from(body.skip(t - j), piece));
            t = t + 1;
            start = t;
        } else {
            assert(cs@.subrange(start as int, t + 1) =~= piece.push(cs@[t as int]));
            t = t + 1;
        }
    }
    assert(body.skip(k - j) =~= Seq::<char>::empty());
    let ghost before = done;
    match parse_u32_in(cs, start, k) {
        Some(v) => {
            cur = sgr_apply_exec(cur, v);
            proof {
                done = done.push(v);
                assert(done.drop_last() =~= before);
            }
        },
        None => {},
    }
    assert(done =~= sgr_params(body));
    cur
}

/// Splits a line of terminal output into styled spans: SGR sequences
/// (`ESC [ params m`) change the style, everything else is text.
pub fn parse_ansi(line: &str) -> (res: Vec<Span>)
    ensures
        spans_model(res@) == ansi_spans(line@),
{
    let cs = chars_of(line);
    let n = cs.len();
    let ghost goal = ansi_spans(line@);
    let mut out: Vec<Span> = Vec::new();
    let mut cur = Style::plain();
    let mut buf = String::new();
    let mut i: usize = 0;
    assert(spans_model(out@) =~= Seq::<(Seq<char>, StyleModel)>::empty());
    while i < n
        invariant
            cs@ == line@,
            n == cs@.len(),
            i <= n,
            ansi_from(cs@, i as int, spans_model(out@), style_model(cur), buf@) == goal,
        decreases n - i,
    {
        let c = cs[i];
        if c == '\x1b' && i + 1 < n && cs[i + 1] == '[' {
            let ghost before = spans_model(out@);
            let ghost st0 = style_model(cur);
            if buf.unicode_len() > 0 {
                let sp = Span { text: buf, style: Style { fg: cur.fg, bold: cur.bold, dim: cur.dim, italic: cur.italic, underline: cur.underline } };
                out.push(sp);
                buf = String::new();
                assert(spans_model(out@) =~= flush_span(before, sp.text@, st0));
            } else {
                assert(spans_model(out@) =~= flush_span(before, buf@, st0));
            }
            proof { lemma_m_index(cs@, i + 2); }
            let mut k = i + 2;
            while k < n && cs[k] != 'm'
                invariant
                    cs@ == line@,
                    n == cs@.len(),
                    i + 2 <= k <= n,
                    m_index(cs@, k as int) == m_index(cs@, i + 2),
                decreases n - k,
            {
                k = k + 1;
            }
            cur = apply_sgr_body(&cs, i + 2, k, cur);
            i = if k < n { k + 1 } else { k };
            assert(buf@ =~= Seq::<char>::empty());
        } else {
            buf.push(c);
            i = i + 1;
        }
    }
    if buf.unicode_len() > 0 {
        let ghost before = spans_model(out@);
        let ghost st0 = style_model(cur);
        let sp = Span { text: buf, style: cur };
        out.push(sp);
        assert(spans_model(out@) =~= flush_span(before, sp.text@, st0));
    } else {
        assert(spans_model(out@) =~= flush_span(spans_model(out@), buf@, style_model(cur)));
    }
    out
}

/// `s` with `&`, `<` and `>` written as XML entities.
pub open spec fn xml_escaped(s: Seq<char>) -> Seq<char> {
    replaced(replaced(replaced(s, "&"@, "&amp;"@), "<"@, "&lt;"@), ">"@, "&gt;"@)
}

/// Escapes `&`, `<` and `>` for XML text.
pub fn xml_escape(s: &str) -> (res: String)
    ensures
        res@ == xml_escaped(s@),
{
    proof {
        reveal_strlit("&");
        reveal_strlit("<");
        reveal_strlit(">");
    }
    let a = replace_all(s, "&", "&amp;");
    let b = replace_all(a.as_str(), "<", "&lt;");
    replace_all(b.as_str(), ">", "&gt;")
}

/// The SVG style of a span: its fill color (the preview's light gray when it
/// has none), then bold, dimmed, italic and underlined as set.
pub open spec fn span_css_text(st: StyleModel) -> Seq<char> {
    (match st.fg { Some(fg) => "fill:"@ + fg + ";"@, None => "fill:#eeeeec;"@ })
        + (if st.bold { "font-weight:bold;"@ } else { Seq::empty() })
        + (if st.dim { "opacity:0.55;"@ } else { Seq::empty() })
        + (if st.italic { "font-style:italic;"@ } else { Seq::empty() })
        + (if st.underline { "text-decoration:underline;"@ } else { Seq::empty() })
}

/// The SVG style attribute of a span in style `st`.
pub fn span_css(st: &Style) -> (res: String)
    ensures
        res@ == span_css_text(style_model(*st)),
{
    let mut out = String::new();
    match st.fg {
        Some(fg) => {
            out.append("fill:");
            out.append(fg);
            out.append(";");
        },
        None => out.append("fill:#eeeeec;"),
    }
    if st.bold {
        out.append("font-weight:bold;");
    }
    if st.dim {
        out.append("opacity:0.55;");
    }
    if st.italic {
        out.append("font-style:italic;");
    }
    if st.underline {
        out.append("text-decoration:underline;");
    }
    assert(out@ =~= span_css_text(style_model(*st)));
    out
}

/// The number of characters in all the spans.
pub open spec fn visible_chars(v: Seq<(Seq<char>, StyleModel)>) -> nat
    decreases v.len(),
{
    if v.len() == 0 { 0 } else { visible_chars(v.drop_last()) + v.last().0.len() }
}

/// The number of characters the spans show; none if it does not fit in a
/// `usize`.
pub fn visible_len(spans: &[Span]) -> (res: Option<usize>)
    ensures
        match res {
            Some(n) => n == visible_chars(spans_model(spans@)),
            None => visible_chars(spans_model(spans@)) > usize::MAX,
        },
{
    let mut total: usize = 0;
    let mut i: usize = 0;
    assert(spans_model(spans@).take(0) =~= Seq::<(Seq<char>, StyleModel)>::empty());
    while i < spans.len()
        invariant
            i <= spans@.len(),
            total == visible_chars(spans_model(spans@).take(i as int)),
        decreases spans@.len() - i,
    {
        assert(spans_model(spans@).take(i + 1).drop_last() =~= spans_model(spans@).take(i as int));
        let n = spans[i].text.unicode_len();
        match total.checked_add(n) {
            Some(t) => total = t,
            None => {
                proof { lemma_visible_prefix(spans_model(spans@), i + 1); }
                return None;
            },
        }
        i = i + 1;
    }
    assert(spans_model(spans@).take(i as int) =~= spans_model(spans@));
    Some(total)
}

proof fn lemma_visible_prefix(v: Seq<(Seq<char>, StyleModel)>, k: int)
    requires
        0 <= k <= v.len(),
    ensures
        visible_chars(v.take(k)) <= visible_chars(v),
    decreases v.len() - k,
{
    if k < v.len() {
        lemma_visible_prefix(v, k + 1);
        assert(v.take(k + 1).drop_last() =~= v.take(k));
    } else {
        assert(v.take(k) =~= v);
    }
}

// ------------------------------------------------------------------
// Reading back what the color module writes.
// ------------------------------------------------------------------

/// The SGR sequence that sets parameter `p`: escape, `[`, the decimal
/// digits of `p`, `m`.
pub open spec fn sgr_code(p: nat) -> Seq<char> {
    seq!['\x1b', '['] + decimal(p) + seq!['m']
}

/// The SGR parameter of a style name, if the name is known.
pub open spec fn style_sgr(name: Seq<char>) -> Option<nat> {
    if name == "black"@ { Some(30) }
    else if name == "red"@ { Some(31) }
    else if name == "green"@ { Some(32) }
    else if name == "yellow"@ { Some(33) }
    else if name == "blue"@ { Some(34) }
    else if name == "magenta"@ { Some(35) }
    else if name == "cyan"@ { Some(36) }
    else if name == "white"@ { Some(37) }
    else if name == "gray"@ || name == "grey"@ || name == "bright_black"@ { Some(90) }
    else if name == "bright_red"@ { Some(91) }
    else if name == "bright_green"@ { Some(92) }
    else if name == "bright_yellow"@ { Some(93) }
    else if name == "bright_blue"@ { Some(94) }
    else if name == "bright_magenta"@ { Some(95) }
    else if name == "bright_cyan"@ { Some(96) }
    else if name == "bright_white"@ { Some(97) }
    else if name == "bold"@ { Some(1) }
    else if name == "dim"@ { Some(2) }
    else if name == "italic"@ { Some(3) }
    else if name == "underline"@ { Some(4) }
    else { None }
}

/// Whether `s` holds no escape character.
pub open spec fn no_escape(s: Seq<char>) -> bool {
    forall|j: int| 0 <= j < s.len() ==> s[j] != '\x1b'
}

proof fn lemma_decimal_digits(n: nat)
    ensures
        decimal(n).len() >= 1,
        all_digits(decimal(n)),
        digits_value(decimal(n)) == n,
    decreases n,
{
    let c = digit_char(n % 10);
    assert(c as int == 48 + n % 10);
    if n >= 10 {
        lemma_decimal_digits(n / 10);
        let d = decimal(n / 10);
        assert(decimal(n) == d.push(c));
        assert(decimal(n).drop_last() =~= d);
        assert(forall|j: int| 0 <= j < d.len() ==> decimal(n)[j] == d[j]);
        assert(n == (n / 10) * 10 + n % 10) by (nonlinear_arith);
        assert(decimal(n).last() == c);
        assert(digits_value(decimal(n)) == digits_value(decimal(n).drop_last()) * 10
            + ((decimal(n).last() as int - 48) as nat));
        assert(digits_value(decimal(n)) == digits_value(d) * 10 + (n % 10));
    } else {
        assert(decimal(n) == seq![c]);
        assert(decimal(n).drop_last() =~= Seq::<char>::empty());
        assert(decimal(n).last() == c);
        assert(digits_value(Seq::<char>::empty()) == 0);
        assert(digits_value(decimal(n)) == digits_value(decimal(n).drop_last()) * 10
            + ((decimal(n).last() as int - 48) as nat));
    }
}

proof fn lemma_text_run(
    cs: Seq<char>,
    i: int,
    j: int,
    spans: Seq<(Seq<char>, StyleModel)>,
    st: StyleModel,
    buf: Seq<char>,
)
    requires
        0 <= i <= j <= cs.len(),
        forall|t: int| i <= t < j ==> #[trigger] cs[t] != '\x1b',
    ensures
        ansi_from(cs, i, spans, st, buf) == ansi_from(cs, j, spans, st, buf + cs.subrange(i, j)),
    decreases j - i,
{
    if i == j {
        assert(buf + cs.subrange(i, j) =~= buf);
    } else {
        assert(cs[i] != '\x1b');
        lemma_text_run(cs, i + 1, j, spans, st, buf.push(cs[i]));
        assert(buf.push(cs[i]) + cs.subrange(i + 1, j) =~= buf + cs.subrange(i, j));
    }
}

proof fn lemma_m_index_at(cs: Seq<char>, j: int, t: int)
    requires
        0 <= j <= t < cs.len(),
        forall|u: int| j <= u < t ==> #[trigger] cs[u] != 'm',
        cs[t] == 'm',
    ensures
        m_index(cs, j) == t,
    decreases t - j,
{
    if j < t {
        lemma_m_index_at(cs, j + 1, t);
    }
}

proof fn lemma_sgr_params_digits(s: Seq<char>, cur: Seq<char>)
    requires
        all_digits(s),
    ensures
        sgr_params_from(s, cur) == sgr_params_from(Seq::empty(), cur + s),
    decreases s.len(),
{
    if s.len() == 0 {
        assert(cur + s =~= cur);
    } else {
        assert(s[0] != ';');
        let rest = s.drop_first();
        assert(all_digits(rest)) by {
            assert forall|j: int| 0 <= j < rest.len() implies '0' <= #[trigger] rest[j] && rest[j] <= '9' by {
                assert(rest[j] == s[j + 1]);
            }
        }
        lemma_sgr_params_digits(rest, cur.push(s[0]));
        assert(cur.push(s[0]) + rest =~= cur + s);
    }
}

/// Reading an SGR sequence: the pending text is closed into a span and the
/// style takes the parameter.
proof fn lemma_read_code(
    cs: Seq<char>,
    i: int,
    p: nat,
    spans: Seq<(Seq<char>, StyleModel)>,
    st: StyleModel,
    buf: Seq<char>,
)
    requires
        p <= u32::MAX,
        0 <= i,
        i + sgr_code(p).len() <= cs.len(),
        cs.subrange(i, i + sgr_code(p).len()) == sgr_code(p),
    ensures
        ansi_from(cs, i, spans, st, buf) == ansi_from(
            cs,
            i + sgr_code(p).len(),
            flush_span(spans, buf, st),
            sgr_applied(st, p as u32),
            Seq::empty(),
        ),
{
    let d = decimal(p);
    lemma_decimal_digits(p);
    let code = sgr_code(p);
    let n = code.len() as int;
    assert(n == d.len() + 3);
    assert(cs[i] == code[0]);
    assert(cs[i + 1] == code[1]);
    assert(cs[i + n - 1] == code[n - 1]);
    assert forall|u: int| i + 2 <= u < i + n - 1 implies #[trigger] cs[u] != 'm' by {
        assert(cs[u] == code[u - i]);
        assert(code[u - i] == d[u - i - 2]);
    }
    lemma_m_index_at(cs, i + 2, i + n - 1);
    assert(cs.subrange(i + 2, i + n - 1) =~= d) by {
        assert forall|u: int| 0 <= u < d.len() implies cs.subrange(i + 2, i + n - 1)[u] == d[u] by {
            assert(cs[i + 2 + u] == code[2 + u]);
        }
    }
    lemma_sgr_params_digits(d, Seq::empty());
    assert(Seq::<char>::empty() + d =~= d);
    assert(d[0] != '+');
    assert(without_plus(d) == d);
    assert(parse_u32_spec(d) == Some(p as u32));
    assert(sgr_params_from(d, Seq::empty()) == sgr_params_from(Seq::empty(), d));
    assert(sgr_params(d) =~= seq![p as u32]);
    assert(seq![p as u32].drop_last() =~= Seq::<u32>::empty());
    assert(sgr_all(st, Seq::<u32>::empty()) == st);
    assert(sgr_all(st, seq![p as u32]) == sgr_applied(st, p as u32));
    let k = m_index(cs, i + 2);
    assert(k == i + n - 1);
    assert(cs[i] == '\x1b' && i + 1 < cs.len() && cs[i + 1] == '[');
    let next = if k < cs.len() { k + 1 } else { k };
    assert(next == i + n);
    assert(ansi_from(cs, i, spans, st, buf) == ansi_from(cs, next, flush_span(spans, buf, st),
        sgr_all(st, sgr_params(cs.subrange(i + 2, k))), Seq::empty()));
}

/// Text without escapes, put between the SGR sequence of parameter `p` and
/// a reset, reads back as one span of that text in the style `p` sets (no
/// span for empty text).
pub proof fn law_code_then_text_reads_back(s: Seq<char>, p: nat)
    requires
        p <= u32::MAX,
        no_escape(s),
    ensures
        ansi_spans(sgr_code(p) + s + sgr_code(0)) == (if s.len() > 0 {
            seq![(s, sgr_applied(plain_style(), p as u32))]
        } else {
            Seq::empty()
        }),
{
    let a = sgr_code(p);
    let b = sgr_code(0);
    let cs = a + s + b;
    let st = sgr_applied(plain_style(), p as u32);
    assert(cs.subrange(0, a.len() as int) =~= a);
    lemma_read_code(cs, 0, p, Seq::empty(), plain_style(), Seq::empty());
    assert(flush_span(Seq::empty(), Seq::empty(), plain_style()) =~= Seq::<(Seq<char>, StyleModel)>::empty());
    let i = a.len() as int;
    let j = i + s.len();
    assert forall|t: int| i <= t < j implies #[trigger] cs[t] != '\x1b' by {
        assert(cs[t] == s[t - i]);
    }
    lemma_text_run(cs, i, j, Seq::empty(), st, Seq::empty());
    assert(Seq::<char>::empty() + cs.subrange(i, j) =~= s);
    assert(cs.subrange(j, j + b.len()) =~= b);
    lemma_read_code(cs, j, 0, Seq::empty(), st, s);
    assert(sgr_applied(st, 0u32) == plain_style());
    assert(j + b.len() == cs.len());
    let out = flush_span(Seq::empty(), s, st);
    assert(ansi_from(cs, cs.len() as int, out, plain_style(), Seq::empty()) == flush_span(out, Seq::empty(), plain_style()));
    if s.len() > 0 {
        assert(out =~= seq![(s, st)]);
    } else {
        assert(out =~= Seq::<(Seq<char>, StyleModel)>::empty());
    }
}

proof fn lemma_style_code_is_sgr(name: Seq<char>)
    ensures
        style_code(name) == match style_sgr(name) {
            Some(p) => Some(sgr_code(p)),
            None => None,
        },
{
    reveal_with_fuel(decimal, 2);
    reveal_strlit("\x1b[1m");
    assert(sgr_code(1) =~= "\x1b[1m"@);
    reveal_strlit("\x1b[2m");
    assert(sgr_code(2) =~= "\x1b[2m"@);
    reveal_strlit("\x1b[3m");
    assert(sgr_code(3) =~= "\x1b[3m"@);
    reveal_strlit("\x1b[4m");
    assert(sgr_code(4) =~= "\x1b[4m"@);
    reveal_strlit("\x1b[30m");
    assert(sgr_code(30) =~= "\x1b[30m"@);
    reveal_strlit("\x1b[31m");
    assert(sgr_code(31) =~= "\x1b[31m"@);
    reveal_strlit("\x1b[32m");
    assert(sgr_code(32) =~= "\x1b[32m"@);
    reveal_strlit("\x1b[33m");
    assert(sgr_code(33) =~= "\x1b[33m"@);
    reveal_strlit("\x1b[34m");
    assert(sgr_code(34) =~= "\x1b[34m"@);
    reveal_strlit("\x1b[35m");
    assert(sgr_code(35) =~= "\x1b[35m"@);
    reveal_strlit("\x1b[36m");
    assert(sgr_code(36) =~= "\x1b[36m"@);
    reveal_strlit("\x1b[37m");
    assert(sgr_code(37) =~= "\x1b[37m"@);
    reveal_strlit("\x1b[90m");
    assert(sgr_code(90) =~= "\x1b[90m"@);
    reveal_strlit("\x1b[91m");
    assert(sgr_code(91) =~= "\x1b[91m"@);
    reveal_strlit("\x1b[92m");
    assert(sgr_code(92) =~= "\x1b[92m"@);
    reveal_strlit("\x1b[93m");
    assert(sgr_code(93) =~= "\x1b[93m"@);
    reveal_strlit("\x1b[94m");
    assert(sgr_code(94) =~= "\x1b[94m"@);
    reveal_strlit("\x1b[95m");
    assert(sgr_code(95) =~= "\x1b[95m"@);
    reveal_strlit("\x1b[96m");
    assert(sgr_code(96) =~= "\x1b[96m"@);
    reveal_strlit("\x1b[97m");
    assert(sgr_code(97) =~= "\x1b[97m"@);
}

/// The reset sequence is the SGR sequence of parameter 0.
proof fn lemma_reset_is_sgr()
    ensures
        RESET@ == sgr_code(0),
{
    reveal_strlit("\x1b[0m");
    assert(sgr_code(0) =~= "\x1b[0m"@);
}

/// Text without escapes reads back as one unstyled span (none when empty).
pub proof fn law_plain_text_reads_back(s: Seq<char>)
    requires
        no_escape(s),
    ensures
        ansi_spans(s) == (if s.len() > 0 { seq![(s, plain_style())] } else { Seq::empty() }),
{
    assert forall|t: int| 0 <= t < s.len() implies #[trigger] s[t] != '\x1b' by {}
    lemma_text_run(s, 0, s.len() as int, Seq::empty(), plain_style(), Seq::empty());
    assert(Seq::<char>::empty() + s.subrange(0, s.len() as int) =~= s);
    if s.len() > 0 {
        assert(flush_span(Seq::empty(), s, plain_style()) =~= seq![(s, plain_style())]);
    }
}

/// What the color module writes, the ANSI reader gives back: text without
/// escapes wrapped in a known style reads as one span of that text in the
/// style the name's SGR parameter sets; under an unknown name, as plain text.
pub proof fn law_styled_text_reads_back(s: Seq<char>, name: Seq<char>)
    requires
        no_escape(s),
    ensures
        ansi_spans(wrapped(s, name, false)) == match style_sgr(name) {
            Some(p) => if s.len() > 0 {
                seq![(s, sgr_applied(plain_style(), p as u32))]
            } else {
                Seq::empty()
            },
            None => if s.len() > 0 { seq![(s, plain_style())] } else { Seq::empty() },
        },
{
    lemma_style_code_is_sgr(name);
    lemma_reset_is_sgr();
    match style_sgr(name) {
        Some(p) => {
            assert(p <= 97);
            law_code_then_text_reads_back(s, p);
        },
        None => {
            law_plain_text_reads_back(s);
        },
    }
}

} // verus!
