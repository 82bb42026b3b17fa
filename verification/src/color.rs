//! ANSI SGR styling: the named styles, wrapping a text in one style, and
//! applying a chain of styles to a span that may itself hold styled parts.
//!
//! Every function takes `no_color`: when it is set, texts come back unstyled.

use vstd::prelude::*;
use crate::text::{str_eq, replaced, replace_all};

verus! {

/// The SGR sequence that resets every attribute.
pub const RESET: &'static str = "\x1b[0m";

/// The escape sequence of a style name, if the name is known.
pub open spec fn style_code(name: Seq<char>) -> Option<Seq<char>> {
    if name == "black"@ { Some("\x1b[30m"@) }
    else if name == "red"@ { Some("\x1b[31m"@) }
    else if name == "green"@ { Some("\x1b[32m"@) }
    else if name == "yellow"@ { Some("\x1b[33m"@) }
    else if name == "blue"@ { Some("\x1b[34m"@) }
    else if name == "magenta"@ { Some("\x1b[35m"@) }
    else if name == "cyan"@ { Some("\x1b[36m"@) }
    else if name == "white"@ { Some("\x1b[37m"@) }
    else if name == "gray"@ || name == "grey"@ || name == "bright_black"@ { Some("\x1b[90m"@) }
    else if name == "bright_red"@ { Some("\x1b[91m"@) }
    else if name == "bright_green"@ { Some("\x1b[92m"@) }
    else if name == "bright_yellow"@ { Some("\x1b[93m"@) }
    else if name == "bright_blue"@ { Some("\x1b[94m"@) }
    else if name == "bright_magenta"@ { Some("\x1b[95m"@) }
    else if name == "bright_cyan"@ { Some("\x1b[96m"@) }
    else if name == "bright_white"@ { Some("\x1b[97m"@) }
    else if name == "bold"@ { Some("\x1b[1m"@) }
    else if name == "dim"@ { Some("\x1b[2m"@) }
    else if name == "italic"@ { Some("\x1b[3m"@) }
    else if name == "underline"@ { Some("\x1b[4m"@) }
    else { None }
}

/// `s` wrapped in the style `style`: unchanged when colors are off or the
/// style is unknown.
pub open spec fn wrapped(s: Seq<char>, style: Seq<char>, no_color: bool) -> Seq<char> {
    if no_color {
        s
    } else {
        match style_code(style) {
            Some(code) => code + s + RESET@,
            None => s,
        }
    }
}

/// The concatenated codes of the known styles of `styles`, in order.
pub open spec fn style_prefix(styles: Seq<Seq<char>>) -> Seq<char>
    decreases styles.len(),
{
    if styles.len() == 0 {
        Seq::empty()
    } else {
        let prev = style_prefix(styles.drop_last());
        match style_code(styles.last()) {
            Some(code) => prev + code,
            None => prev,
        }
    }
}

/// `s` with the styles `styles` applied: their codes in front, a reset at the
/// end, and the codes repeated after each inner reset so that an inner styled
/// part does not end the outer style.
pub open spec fn styled(s: Seq<char>, styles: Seq<Seq<char>>, no_color: bool) -> Seq<char> {
    let prefix = style_prefix(styles);
    if no_color || styles.len() == 0 || prefix.len() == 0 {
        s
    } else {
        prefix + replaced(s, RESET@, RESET@ + prefix) + RESET@
    }
}

/// The escape sequence of a style name.
pub fn code_for(name: &str) -> (res: Option<&'static str>)
    ensures
        match res {
            Some(c) => style_code(name@) == Some(c@),
            None => style_code(name@) is None,
        },
{
    if str_eq(name, "black") { Some("\x1b[30m") }
    else if str_eq(name, "red") { Some("\x1b[31m") }
    else if str_eq(name, "green") { Some("\x1b[32m") }
    else if str_eq(name, "yellow") { Some("\x1b[33m") }
    else if str_eq(name, "blue") { Some("\x1b[34m") }
    else if str_eq(name, "magenta") { Some("\x1b[35m") }
    else if str_eq(name, "cyan") { Some("\x1b[36m") }
    else if str_eq(name, "white") { Some("\x1b[37m") }
    else if str_eq(name, "gray") || str_eq(name, "grey") || str_eq(name, "bright_black") {
        Some("\x1b[90m")
    }
    else if str_eq(name, "bright_red") { Some("\x1b[91m") }
    else if str_eq(name, "bright_green") { Some("\x1b[92m") }
    else if str_eq(name, "bright_yellow") { Some("\x1b[93m") }
    else if str_eq(name, "bright_blue") { Some("\x1b[94m") }
    else if str_eq(name, "bright_magenta") { Some("\x1b[95m") }
    else if str_eq(name, "bright_cyan") { Some("\x1b[96m") }
    else if str_eq(name, "bright_white") { Some("\x1b[97m") }
    else if str_eq(name, "bold") { Some("\x1b[1m") }
    else if str_eq(name, "dim") { Some("\x1b[2m") }
    else if str_eq(name, "italic") { Some("\x1b[3m") }
    else if str_eq(name, "underline") { Some("\x1b[4m") }
    else { None }
}

/// `s` in the style `style` (code, text, reset), or `s` itself when colors
/// are off or the style is unknown.
pub fn wrap(s: &str, style: &str, no_color: bool) -> (res: String)
    ensures
        res@ == wrapped(s@, style@, no_color),
{
    if no_color {
        return s.to_owned();
    }
    match code_for(style) {
        Some(code) => {
            let mut out = code.to_owned();
            out.append(s);
            out.append(RESET);
            out
        },
        None => s.to_owned(),
    }
}

/// `s` in red.
pub fn red(s: &str, no_color: bool) -> (res: String)
    ensures
        res@ == wrapped(s@, "red"@, no_color),
{
    wrap(s, "red", no_color)
}

/// `s` in green.
pub fn green(s: &str, no_color: bool) -> (res: String)
    ensures
        res@ == wrapped(s@, "green"@, no_color),
{
    wrap(s, "green", no_color)
}

/// `s` with `styles` applied; see [`styled`].
pub fn apply_styles(s: &str, styles: &[String], no_color: bool) -> (res: String)
    ensures
        res@ == styled(s@, styles@.map_values(|t: String| t@), no_color),
{
    let ghost names = styles@.map_values(|t: String| t@);
    if no_color || styles.len() == 0 {
        return s.to_owned();
    }
    let mut prefix = String::new();
    let mut i: usize = 0;
    while i < styles.len()
        invariant
            names == styles@.map_values(|t: String| t@),
            i <= styles@.len(),
            prefix@ == style_prefix(names.take(i as int)),
        decreases styles.len() - i,
    {
        assert(names.take(i + 1).drop_last() =~= names.take(i as int));
        match code_for(styles[i].as_str()) {
            Some(c) => prefix.append(c),
            None => {},
        }
        i = i + 1;
    }
    assert(names.take(styles.len() as int) =~= names);
    if prefix.unicode_len() == 0 {
        return s.to_owned();
    }
    proof { reveal_strlit("\x1b[0m"); }
    let mut reapply = RESET.to_owned();
    reapply.append(prefix.as_str());
    let replaced_text = replace_all(s, RESET, reapply.as_str());
    let mut out = prefix;
    out.append(replaced_text.as_str());
    out.append(RESET);
    out
}

/// With colors off, styling leaves every text as it is: wrapping in any
/// style and applying any chain of styles.
pub proof fn law_no_color_leaves_text(s: Seq<char>, style: Seq<char>, styles: Seq<Seq<char>>)
    ensures
        wrapped(s, style, true) == s,
        styled(s, styles, true) == s,
{
}

/// Unknown style names add nothing: wrapping in one leaves the text, and a
/// chain made only of them leaves it too.
pub proof fn law_unknown_styles_leave_text(s: Seq<char>, style: Seq<char>, styles: Seq<Seq<char>>, no_color: bool)
    requires
        style_code(style) is None,
        forall|i: int| 0 <= i < styles.len() ==> style_code(#[trigger] styles[i]) is None,
    ensures
        wrapped(s, style, no_color) == s,
        styled(s, styles, no_color) == s,
{
    lemma_prefix_of_unknown(styles);
}

proof fn lemma_prefix_of_unknown(styles: Seq<Seq<char>>)
    requires
        forall|i: int| 0 <= i < styles.len() ==> style_code(#[trigger] styles[i]) is None,
    ensures
        style_prefix(styles).len() == 0,
    decreases styles.len(),
{
    if styles.len() > 0 {
        let init = styles.drop_last();
        assert forall|i: int| 0 <= i < init.len() implies style_code(#[trigger] init[i]) is None by {
            assert(init[i] == styles[i]);
        }
        lemma_prefix_of_unknown(init);
        assert(style_code(styles[styles.len() - 1]) is None);
    }
}

} // verus!
