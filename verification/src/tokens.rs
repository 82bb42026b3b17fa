//! The token names of the format language, and the text of the tokens
//! whose values are whole numbers or plain text.

use vstd::prelude::*;
use crate::text::{str_eq, chars_of, push_decimal, decimal};
use crate::color::{wrap, wrapped, apply_styles, styled};
use crate::rate::RateParts;
use crate::format::strs_view;

verus! {

/// A rate-limit window.
#[derive(Debug, Clone, Copy, PartialEq, Eq, Structural)]
pub enum Window {
    /// The five-hour window.
    FiveHour,
    /// The seven-day window.
    SevenDay,
}

/// A piece of a rate-limit window.
#[derive(Debug, Clone, Copy, PartialEq, Eq, Structural)]
pub enum RatePiece {
    /// Bar, percent, delta and reset together.
    Composite,
    /// The percent used.
    Pct,
    /// The bar.
    Bar,
    /// The time to the reset.
    Reset,
    /// The difference from the expected usage.
    Delta,
    /// The difference from the expected time to the reset.
    TimeDelta,
}

/// What a token name stands for.
#[derive(Debug, Clone, Copy, PartialEq, Eq, Structural)]
pub enum TokenKind {
    /// `%m`, `%model`: the model's display name.
    Model,
    /// `%mid`, `%model_id`: the model's identifier.
    ModelId,
    /// `%e`, `%effort`: the configured effort level.
    Effort,
    /// `%f`, `%fast`: `fast` in fast mode.
    Fast,
    /// `%cu`, `%ctx`, `%context`: bar, tokens and percent of the window.
    Context,
    /// `%cuu`, `%ctx_usable`: the same against the usable budget.
    ContextUsable,
    /// `%cup`, `%ctx_pct`: percent of the window used.
    CtxPct,
    /// `%cub`, `%ctx_bar`: the context bar.
    CtxBar,
    /// `%ct`, `%ctx_tokens`: used and maximum tokens.
    CtxTokens,
    /// `%ctu`, `%ctx_tokens_used`: used tokens.
    CtxTokensUsed,
    /// `%ctm`, `%ctx_tokens_max`: maximum tokens.
    CtxTokensMax,
    /// `%cpu`, `%ctx_pct_usable`: percent of the usable budget.
    CtxPctUsable,
    /// `%cubu`, `%ctx_bar_usable`: the bar against the usable budget.
    CtxBarUsable,
    /// `%ctpu`, `%ctx_tokens_usable`: used and usable tokens.
    CtxTokensUsable,
    /// `%tt`, `%tokens_total`: tokens over all segments of the session.
    TokensTotal,
    /// `%ts`, `%total_speed`: tokens per API second.
    TotalSpeed,
    /// `%pk`, `%peak`: the peak label.
    Peak,
    /// `%b`, `%branch`: the git branch with its glyph.
    Branch,
    /// `%bn`, `%branch_name`: the git branch.
    BranchName,
    /// `%d`, `%diff`: lines added and removed in the work tree.
    Diff,
    /// `%cwd`: the working directory, the home directory as `~`.
    Cwd,
    /// `%cwdb`, `%cwd_base`: the last part of the working directory.
    CwdBase,
    /// `%c`, `%cost`: this chat's cost.
    Cost,
    /// `%cd`, `%cost_day`: today's cost over all chats.
    CostDay,
    /// `%ca`, `%cost_all`: all-time cost over all chats.
    CostAll,
    /// `%cm`, `%cost_month`: this month's cost over all chats.
    CostMonth,
    /// `%la`, `%lines_added`: lines added.
    LinesAdded,
    /// `%lr`, `%lines_removed`: lines removed.
    LinesRemoved,
    /// `%dur`, `%duration`: session duration.
    Duration,
    /// `%apidur`, `%api_duration`: time spent in API calls.
    ApiDuration,
    /// `%os`, `%output_style`: the output style.
    OutputStyle,
    /// `%v`, `%version`: the client version.
    Version,
    /// `%sid`, `%session_id`: the first eight characters of the session id.
    SessionId,
    /// `%vim`: the editor mode from the environment.
    Vim,
    /// A piece of a rate-limit window.
    Rate(Window, RatePiece),
}

/// The meaning of a token name, if it has one (short and long names alike).
pub open spec fn token_kind_of(name: Seq<char>) -> Option<TokenKind> {
    if name == "m"@ || name == "model"@ { Some(TokenKind::Model) }
    else if name == "mid"@ || name == "model_id"@ { Some(TokenKind::ModelId) }
    else if name == "e"@ || name == "effort"@ { Some(TokenKind::Effort) }
    else if name == "f"@ || name == "fast"@ { Some(TokenKind::Fast) }
    else if name == "cu"@ || name == "ctx"@ || name == "context"@ { Some(TokenKind::Context) }
    else if name == "cuu"@ || name == "ctx_usable"@ { Some(TokenKind::ContextUsable) }
    else if name == "cup"@ || name == "ctx_pct"@ { Some(TokenKind::CtxPct) }
    else if name == "cub"@ || name == "ctx_bar"@ { Some(TokenKind::CtxBar) }
    else if name == "ct"@ || name == "ctx_tokens"@ { Some(TokenKind::CtxTokens) }
    else if name == "ctu"@ || name == "ctx_tokens_used"@ { Some(TokenKind::CtxTokensUsed) }
    else if name == "ctm"@ || name == "ctx_tokens_max"@ { Some(TokenKind::CtxTokensMax) }
    else if name == "cpu"@ || name == "ctx_pct_usable"@ { Some(TokenKind::CtxPctUsable) }
    else if name == "cubu"@ || name == "ctx_bar_usable"@ { Some(TokenKind::CtxBarUsable) }
    else if name == "ctpu"@ || name == "ctx_tokens_usable"@ { Some(TokenKind::CtxTokensUsable) }
    else if name == "tt"@ || name == "tokens_total"@ { Some(TokenKind::TokensTotal) }
    else if name == "ts"@ || name == "total_speed"@ { Some(TokenKind::TotalSpeed) }
    else if name == "rl5"@ || name == "rate5h"@ { Some(TokenKind::Rate(Window::FiveHour, RatePiece::Composite)) }
    else if name == "rl5p"@ || name == "rate5h_pct"@ { Some(TokenKind::Rate(Window::FiveHour, RatePiece::Pct)) }
    else if name == "rl5b"@ || name == "rate5h_bar"@ { Some(TokenKind::Rate(Window::FiveHour, RatePiece::Bar)) }
    else if name == "rl5r"@ || name == "rate5h_reset"@ { Some(TokenKind::Rate(Window::FiveHour, RatePiece::Reset)) }
    else if name == "rl5d"@ || name == "rate5h_delta"@ { Some(TokenKind::Rate(Window::FiveHour, RatePiece::Delta)) }
    else if name == "rl5td"@ || name == "rate5h_time_delta"@ { Some(TokenKind::Rate(Window::FiveHour, RatePiece::TimeDelta)) }
    else if name == "rl7"@ || name == "rate7d"@ { Some(TokenKind::Rate(Window::SevenDay, RatePiece::Composite)) }
    else if name == "rl7p"@ || name == "rate7d_pct"@ { Some(TokenKind::Rate(Window::SevenDay, RatePiece::Pct)) }
    else if name == "rl7b"@ || name == "rate7d_bar"@ { Some(TokenKind::Rate(Window::SevenDay, RatePiece::Bar)) }
    else if name == "rl7r"@ || name == "rate7d_reset"@ { Some(TokenKind::Rate(Window::SevenDay, RatePiece::Reset)) }
    else if name == "rl7d"@ || name == "rate7d_delta"@ { Some(TokenKind::Rate(Window::SevenDay, RatePiece::Delta)) }
    else if name == "rl7td"@ || name == "rate7d_time_delta"@ { Some(TokenKind::Rate(Window::SevenDay, RatePiece::TimeDelta)) }
    else if name == "pk"@ || name == "peak"@ { Some(TokenKind::Peak) }
    else if name == "b"@ || name == "branch"@ { Some(TokenKind::Branch) }
    else if name == "bn"@ || name == "branch_name"@ { Some(TokenKind::BranchName) }
    else if name == "d"@ || name == "diff"@ { Some(TokenKind::Diff) }
    else if name == "cwd"@ { Some(TokenKind::Cwd) }
    else if name == "cwdb"@ || name == "cwd_base"@ { Some(TokenKind::CwdBase) }
    else if name == "c"@ || name == "cost"@ { Some(TokenKind::Cost) }
    else if name == "cd"@ || name == "cost_day"@ { Some(TokenKind::CostDay) }
    else if name == "ca"@ || name == "cost_all"@ { Some(TokenKind::CostAll) }
    else if name == "cm"@ || name == "cost_month"@ { Some(TokenKind::CostMonth) }
    else if name == "la"@ || name == "lines_added"@ { Some(TokenKind::LinesAdded) }
    else if name == "lr"@ || name == "lines_removed"@ { Some(TokenKind::LinesRemoved) }
    else if name == "dur"@ || name == "duration"@ { Some(TokenKind::Duration) }
    else if name == "apidur"@ || name == "api_duration"@ { Some(TokenKind::ApiDuration) }
    else if name == "os"@ || name == "output_style"@ { Some(TokenKind::OutputStyle) }
    else if name == "v"@ || name == "version"@ { Some(TokenKind::Version) }
    else if name == "sid"@ || name == "session_id"@ { Some(TokenKind::SessionId) }
    else if name == "vim"@ { Some(TokenKind::Vim) }
    else { None }
}

/// The meaning of a token name; see [`token_kind_of`].
pub fn token_kind(name: &str) -> (res: Option<TokenKind>)
    ensures
        res == token_kind_of(name@),
{
    if str_eq(name, "m") || str_eq(name, "model") { Some(TokenKind::Model) }
    else if str_eq(name, "mid") || str_eq(name, "model_id") { Some(TokenKind::ModelId) }
    else if str_eq(name, "e") || str_eq(name, "effort") { Some(TokenKind::Effort) }
    else if str_eq(name, "f") || str_eq(name, "fast") { Some(TokenKind::Fast) }
    else if str_eq(name, "cu") || str_eq(name, "ctx") || str_eq(name, "context") { Some(TokenKind::Context) }
    else if str_eq(name, "cuu") || str_eq(name, "ctx_usable") { Some(TokenKind::ContextUsable) }
    else if str_eq(name, "cup") || str_eq(name, "ctx_pct") { Some(TokenKind::CtxPct) }
    else if str_eq(name, "cub") || str_eq(name, "ctx_bar") { Some(TokenKind::CtxBar) }
    else if str_eq(name, "ct") || str_eq(name, "ctx_tokens") { Some(TokenKind::CtxTokens) }
    else if str_eq(name, "ctu") || str_eq(name, "ctx_tokens_used") { Some(TokenKind::CtxTokensUsed) }
    else if str_eq(name, "ctm") || str_eq(name, "ctx_tokens_max") { Some(TokenKind::CtxTokensMax) }
    else if str_eq(name, "cpu") || str_eq(name, "ctx_pct_usable") { Some(TokenKind::CtxPctUsable) }
    else if str_eq(name, "cubu") || str_eq(name, "ctx_bar_usable") { Some(TokenKind::CtxBarUsable) }
    else if str_eq(name, "ctpu") || str_eq(name, "ctx_tokens_usable") { Some(TokenKind::CtxTokensUsable) }
    else if str_eq(name, "tt") || str_eq(name, "tokens_total") { Some(TokenKind::TokensTotal) }
    else if str_eq(name, "ts") || str_eq(name, "total_speed") { Some(TokenKind::TotalSpeed) }
    else if str_eq(name, "rl5") || str_eq(name, "rate5h") { Some(TokenKind::Rate(Window::FiveHour, RatePiece::Composite)) }
    else if str_eq(name, "rl5p") || str_eq(name, "rate5h_pct") { Some(TokenKind::Rate(Window::FiveHour, RatePiece::Pct)) }
    else if str_eq(name, "rl5b") || str_eq(name, "rate5h_bar") { Some(TokenKind::Rate(Window::FiveHour, RatePiece::Bar)) }
    else if str_eq(name, "rl5r") || str_eq(name, "rate5h_reset") { Some(TokenKind::Rate(Window::FiveHour, RatePiece::Reset)) }
    else if str_eq(name, "rl5d") || str_eq(name, "rate5h_delta") { Some(TokenKind::Rate(Window::FiveHour, RatePiece::Delta)) }
    else if str_eq(name, "rl5td") || str_eq(name, "rate5h_time_delta") { Some(TokenKind::Rate(Window::FiveHour, RatePiece::TimeDelta)) }
    else if str_eq(name, "rl7") || str_eq(name, "rate7d") { Some(TokenKind::Rate(Window::SevenDay, RatePiece::Composite)) }
    else if str_eq(name, "rl7p") || str_eq(name, "rate7d_pct") { Some(TokenKind::Rate(Window::SevenDay, RatePiece::Pct)) }
    else if str_eq(name, "rl7b") || str_eq(name, "rate7d_bar") { Some(TokenKind::Rate(Window::SevenDay, RatePiece::Bar)) }
    else if str_eq(name, "rl7r") || str_eq(name, "rate7d_reset") { Some(TokenKind::Rate(Window::SevenDay, RatePiece::Reset)) }
    else if str_eq(name, "rl7d") || str_eq(name, "rate7d_delta") { Some(TokenKind::Rate(Window::SevenDay, RatePiece::Delta)) }
    else if str_eq(name, "rl7td") || str_eq(name, "rate7d_time_delta") { Some(TokenKind::Rate(Window::SevenDay, RatePiece::TimeDelta)) }
    else if str_eq(name, "pk") || str_eq(name, "peak") { Some(TokenKind::Peak) }
    else if str_eq(name, "b") || str_eq(name, "branch") { Some(TokenKind::Branch) }
    else if str_eq(name, "bn") || str_eq(name, "branch_name") { Some(TokenKind::BranchName) }
    else if str_eq(name, "d") || str_eq(name, "diff") { Some(TokenKind::Diff) }
    else if str_eq(name, "cwd") { Some(TokenKind::Cwd) }
    else if str_eq(name, "cwdb") || str_eq(name, "cwd_base") { Some(TokenKind::CwdBase) }
    else if str_eq(name, "c") || str_eq(name, "cost") { Some(TokenKind::Cost) }
    else if str_eq(name, "cd") || str_eq(name, "cost_day") { Some(TokenKind::CostDay) }
    else if str_eq(name, "ca") || str_eq(name, "cost_all") { Some(TokenKind::CostAll) }
    else if str_eq(name, "cm") || str_eq(name, "cost_month") { Some(TokenKind::CostMonth) }
    else if str_eq(name, "la") || str_eq(name, "lines_added") { Some(TokenKind::LinesAdded) }
    else if str_eq(name, "lr") || str_eq(name, "lines_removed") { Some(TokenKind::LinesRemoved) }
    else if str_eq(name, "dur") || str_eq(name, "duration") { Some(TokenKind::Duration) }
    else if str_eq(name, "apidur") || str_eq(name, "api_duration") { Some(TokenKind::ApiDuration) }
    else if str_eq(name, "os") || str_eq(name, "output_style") { Some(TokenKind::OutputStyle) }
    else if str_eq(name, "v") || str_eq(name, "version") { Some(TokenKind::Version) }
    else if str_eq(name, "sid") || str_eq(name, "session_id") { Some(TokenKind::SessionId) }
    else if str_eq(name, "vim") { Some(TokenKind::Vim) }
    else { None }
}

/// Text that shows nothing while empty.
pub open spec fn nonempty(s: Seq<char>) -> Option<Seq<char>> {
    if s.len() == 0 { None } else { Some(s) }
}

/// The text a rate-limit token shows of a window's pieces: the reset and
/// time-difference pieces show nothing while the reset time is unknown.
pub open spec fn rate_piece_text(parts: RateParts, piece: RatePiece) -> Option<Seq<char>> {
    match piece {
        RatePiece::Composite => Some(parts.composite@),
        RatePiece::Pct => Some(parts.used_percent_str@),
        RatePiece::Bar => Some(parts.bar@),
        RatePiece::Reset => nonempty(parts.reset_only@),
        RatePiece::Delta => Some(parts.percent_delta@),
        RatePiece::TimeDelta => nonempty(parts.time_delta_only@),
    }
}

/// The text a rate-limit token shows; see [`rate_piece_text`].
pub fn rate_piece(parts: &RateParts, piece: RatePiece) -> (res: Option<String>)
    ensures
        match res {
            Some(t) => rate_piece_text(*parts, piece) == Some(t@),
            None => rate_piece_text(*parts, piece) is None,
        },
{
    match piece {
        RatePiece::Composite => Some(parts.composite.clone()),
        RatePiece::Pct => Some(parts.used_percent_str.clone()),
        RatePiece::Bar => Some(parts.bar.clone()),
        RatePiece::Reset => {
            if parts.reset_only.unicode_len() == 0 { None } else { Some(parts.reset_only.clone()) }
        },
        RatePiece::Delta => Some(parts.percent_delta.clone()),
        RatePiece::TimeDelta => {
            if parts.time_delta_only.unicode_len() == 0 {
                None
            } else {
                Some(parts.time_delta_only.clone())
            }
        },
    }
}

/// `c` followed by the decimal digits of `v`.
pub open spec fn signed_count(c: char, v: u64) -> Seq<char> {
    seq![c] + decimal(v as nat)
}

fn signed_count_exec(c: char, v: u64) -> (res: String)
    ensures
        res@ == signed_count(c, v),
{
    let mut out = String::new();
    out.push(c);
    push_decimal(&mut out, v);
    out
}

/// The lines-added token: `+` and the count.
pub fn lines_added_text(v: u64) -> (res: String)
    ensures
        res@ == signed_count('+', v),
{
    signed_count_exec('+', v)
}

/// The lines-removed token: `-` and the count.
pub fn lines_removed_text(v: u64) -> (res: String)
    ensures
        res@ == signed_count('-', v),
{
    signed_count_exec('-', v)
}

/// A token count below a million: the number itself below a thousand,
/// otherwise the nearest whole thousand (halves rounded up) and `k`.
pub open spec fn small_count_text(n: nat) -> Seq<char> {
    if n >= 1000 { decimal((n + 500) / 1000) + seq!['k'] } else { decimal(n) }
}

/// A token count below a million as the statusline shows it; see
/// [`small_count_text`]. (Counts of a million and more are shown with a
/// fraction of millions.)
pub fn small_count(n: u64) -> (res: String)
    requires
        n < 1_000_000,
    ensures
        res@ == small_count_text(n as nat),
{
    let mut out = String::new();
    if n >= 1000 {
        push_decimal(&mut out, (n + 500) / 1000);
        out.push('k');
    } else {
        push_decimal(&mut out, n);
    }
    assert(out@ =~= small_count_text(n as nat));
    out
}

/// The diff token: nothing without changes; otherwise `(+added,-removed)`,
/// with the counts in green and red when `colored`.
pub open spec fn diff_text(diff: Option<(u64, u64)>, colored: bool, no_color: bool) -> Option<Seq<char>> {
    match diff {
        None => None,
        Some((a, r)) => if a == 0 && r == 0 {
            None
        } else if colored {
            Some(seq!['('] + wrapped(signed_count('+', a), "green"@, no_color) + seq![',']
                + wrapped(signed_count('-', r), "red"@, no_color) + seq![')'])
        } else {
            Some(seq!['('] + signed_count('+', a) + seq![','] + signed_count('-', r) + seq![')'])
        },
    }
}

/// The diff token; see [`diff_text`].
pub fn diff_token(diff: Option<(u64, u64)>, colored: bool, no_color: bool) -> (res: Option<String>)
    ensures
        match res {
            Some(t) => diff_text(diff, colored, no_color) == Some(t@),
            None => diff_text(diff, colored, no_color) is None,
        },
{
    match diff {
        None => None,
        Some((a, r)) => {
            if a == 0 && r == 0 {
                return None;
            }
            let plus = signed_count_exec('+', a);
            let minus = signed_count_exec('-', r);
            let mut out = String::new();
            out.push('(');
            if colored {
                let g = wrap(plus.as_str(), "green", no_color);
                let rd = wrap(minus.as_str(), "red", no_color);
                out.append(g.as_str());
                out.push(',');
                out.append(rd.as_str());
            } else {
                out.append(plus.as_str());
                out.push(',');
                out.append(minus.as_str());
            }
            out.push(')');
            assert(Some(out@) == diff_text(diff, colored, no_color));
            Some(out)
        },
    }
}

/// The default style of the effort level: green for `low`, `minimal` and
/// `none`, yellow for `medium`, red for `high`, bright red for any other.
pub open spec fn effort_style_of(effort: Option<Seq<char>>) -> Option<Seq<char>> {
    match effort {
        None => None,
        Some(e) => if e == "low"@ || e == "minimal"@ || e == "none"@ {
            Some("green"@)
        } else if e == "medium"@ {
            Some("yellow"@)
        } else if e == "high"@ {
            Some("red"@)
        } else {
            Some("bright_red"@)
        },
    }
}

/// The default style of the effort level; see [`effort_style_of`].
pub fn effort_style(effort: Option<&str>) -> (res: Option<&'static str>)
    ensures
        match res {
            Some(s) => effort_style_of(match effort { Some(e) => Some(e@), None => None }) == Some(s@),
            None => effort is None,
        },
{
    match effort {
        None => None,
        Some(e) => {
            if str_eq(e, "low") || str_eq(e, "minimal") || str_eq(e, "none") {
                Some("green")
            } else if str_eq(e, "medium") {
                Some("yellow")
            } else if str_eq(e, "high") {
                Some("red")
            } else {
                Some("bright_red")
            }
        },
    }
}

/// The color of the used-token count: red once the client reports more than
/// 200k tokens in context, green otherwise.
pub fn used_color(exceeds: bool) -> (res: &'static str)
    ensures
        res@ == (if exceeds { "red"@ } else { "green"@ }),
{
    if exceeds { "red" } else { "green" }
}

/// The branch token: the branch glyph, a space and the branch name.
pub fn branch_text(branch: &str) -> (res: String)
    ensures
        res@ == "⎇ "@ + branch@,
{
    let mut out = "⎇ ".to_owned();
    out.append(branch);
    out
}

/// The fast-mode token: `fast` when fast mode is on.
pub fn fast_text(fast_mode: Option<bool>) -> (res: Option<String>)
    ensures
        match res {
            Some(t) => fast_mode == Some(true) && t@ == "fast"@,
            None => fast_mode != Some(true),
        },
{
    match fast_mode {
        Some(true) => Some("fast".to_owned()),
        _ => None,
    }
}

/// The text of an unknown token: `%` and its name.
pub fn unknown_token_text(name: &str) -> (res: String)
    ensures
        res@ == seq!['%'] + name@,
{
    let mut out = String::new();
    out.push('%');
    out.append(name);
    assert(out@ =~= seq!['%'] + name@);
    out
}

/// The first eight characters of a session id (all of it when shorter).
pub fn short_session_id(s: &str) -> (res: String)
    ensures
        res@ == s@.take(if s@.len() < 8 { s@.len() as int } else { 8 }),
{
    let n = s.unicode_len();
    let take = if n < 8 { n } else { 8 };
    let head = s.substring_char(0, take);
    assert(head@ =~= s@.take(take as int));
    head.to_owned()
}

/// Whether `s` starts with `p`.
pub open spec fn has_prefix(s: Seq<char>, p: Seq<char>) -> bool {
    p.len() <= s.len() && s.take(p.len() as int) == p
}

/// Whether the path `p` lies in the directory `h`: it is `h` itself, or
/// it starts with `h` and a path separator follows (or ends) `h`.
pub open spec fn in_directory(p: Seq<char>, h: Seq<char>) -> bool {
    has_prefix(p, h) && (p.len() == h.len() || p[h.len() as int] == '/'
        || (h.len() > 0 && h.last() == '/'))
}

/// A path with the home directory at its start written as `~`; a path that
/// merely shares a prefix with it (`/home/user2` beside `/home/u`) is left.
pub open spec fn tilde_text(home: Option<Seq<char>>, p: Seq<char>) -> Seq<char> {
    match home {
        Some(h) => if in_directory(p, h) { seq!['~'] + p.skip(h.len() as int) } else { p },
        None => p,
    }
}

/// The path `p` with the home directory `home` at its start written as `~`.
pub fn tilde(home: Option<&str>, p: &str) -> (res: String)
    ensures
        res@ == tilde_text(match home { Some(h) => Some(h@), None => None }, p@),
{
    match home {
        None => p.to_owned(),
        Some(h) => {
            let n = p.unicode_len();
            let m = h.unicode_len();
            if m > n {
                return p.to_owned();
            }
            let mut k: usize = 0;
            while k < m
                invariant
                    home == Some(h),
                    n == p@.len(),
                    m == h@.len(),
                    m <= n,
                    k <= m,
                    forall|j: int| 0 <= j < k ==> p@[j] == h@[j],
                decreases m - k,
            {
                if p.get_char(k) != h.get_char(k) {
                    assert(p@.take(m as int)[k as int] != h@[k as int]);
                    assert(p@.take(m as int) != h@);
                    assert(!has_prefix(p@, h@));
                    return p.to_owned();
                }
                k = k + 1;
            }
            assert(p@.take(m as int) =~= h@);
            let boundary = m == n || p.get_char(m) == '/' || (m > 0 && h.get_char(m - 1) == '/');
            if !boundary {
                return p.to_owned();
            }
            let rest = p.substring_char(m, n);
            let mut out = String::new();
            out.push('~');
            out.append(rest);
            assert(out@ =~= seq!['~'] + p@.skip(m as int));
            out
        },
    }
}

/// The pieces of `p` between `/` separators, `cur` being the piece read so
/// far; empty pieces are kept.
pub open spec fn path_pieces_from(p: Seq<char>, cur: Seq<char>) -> Seq<Seq<char>>
    decreases p.len(),
{
    if p.len() == 0 {
        seq![cur]
    } else if p[0] == '/' {
        seq![cur] + path_pieces_from(p.drop_first(), Seq::empty())
    } else {
        path_pieces_from(p.drop_first(), cur.push(p[0]))
    }
}

/// The name of the last component among the path pieces `ps`: empty and `.`
/// pieces are skipped; none when nothing is left or the last component is
/// `..`.
pub open spec fn last_name(ps: Seq<Seq<char>>) -> Option<Seq<char>>
    decreases ps.len(),
{
    if ps.len() == 0 {
        None
    } else if ps.last().len() == 0 || ps.last() == seq!['.'] {
        last_name(ps.drop_last())
    } else if ps.last() == seq!['.', '.'] {
        None
    } else {
        Some(ps.last())
    }
}

/// The final component of a path, as `Path::file_name` gives it on Unix:
/// trailing separators and `.` components are skipped; none for a path that
/// ends in `..`, the root or nothing.
pub open spec fn base_name_of(p: Seq<char>) -> Option<Seq<char>> {
    last_name(path_pieces_from(p, Seq::empty()))
}

fn path_pieces(s: &Vec<char>) -> (res: Vec<String>)
    ensures
        strs_view(res@) == path_pieces_from(s@, Seq::empty()),
{
    let mut out: Vec<String> = Vec::new();
    let mut cur = String::new();
    let mut i: usize = 0;
    assert(s@.skip(0) =~= s@);
    while i < s.len()
        invariant
            i <= s@.len(),
            strs_view(out@) + path_pieces_from(s@.skip(i as int), cur@) == path_pieces_from(s@, Seq::empty()),
        decreases s@.len() - i,
    {
        let ghost rest = s@.skip(i as int);
        assert(rest.drop_first() =~= s@.skip(i + 1));
        let c = s[i];
        if c == '/' {
            let ghost prev = out@;
            out.push(cur);
            assert(strs_view(out@) =~= strs_view(prev).push(cur@));
            assert(strs_view(out@) + path_pieces_from(s@.skip(i + 1), Seq::empty())
                =~= strs_view(prev) + path_pieces_from(rest, cur@));
            cur = String::new();
        } else {
            cur.push(c);
        }
        i = i + 1;
    }
    let ghost prev = out@;
    out.push(cur);
    assert(strs_view(out@) =~= strs_view(prev).push(cur@));
    assert(strs_view(out@) =~= strs_view(prev) + path_pieces_from(s@.skip(i as int), cur@));
    out
}

/// The `%cwdb` token: the final component of the working directory; see
/// [`base_name_of`].
pub fn base_name(p: &str) -> (res: Option<String>)
    ensures
        match res {
            Some(b) => base_name_of(p@) == Some(b@),
            None => base_name_of(p@) is None,
        },
{
    let cs = chars_of(p);
    let pieces = path_pieces(&cs);
    let ghost ps = strs_view(pieces@);
    let mut k = pieces.len();
    assert(ps.take(k as int) =~= ps);
    while k > 0
        invariant
            ps == strs_view(pieces@),
            k <= ps.len(),
            last_name(ps.take(k as int)) == base_name_of(p@),
        decreases k,
    {
        let piece = pieces[k - 1].as_str();
        assert(ps.take(k as int).last() == piece@);
        assert(ps.take(k as int).drop_last() =~= ps.take(k - 1));
        let n = piece.unicode_len();
        let is_dot = n == 1 && piece.get_char(0) == '.';
        let is_dot_dot = n == 2 && piece.get_char(0) == '.' && piece.get_char(1) == '.';
        proof {
            if n == 1 && piece@[0] == '.' { assert(piece@ =~= seq!['.']); }
            if n == 2 && piece@[0] == '.' && piece@[1] == '.' { assert(piece@ =~= seq!['.', '.']); }
        }
        if n == 0 || is_dot {
            k = k - 1;
        } else if is_dot_dot {
            return None;
        } else {
            return Some(piece.to_owned());
        }
    }
    assert(ps.take(0) =~= Seq::<Seq<char>>::empty());
    None
}

/// The `%tt` count: the session's persisted total when there is one, else
/// the live context count; none when that is missing or zero.
pub fn tokens_total(session: Option<u64>, live: Option<u64>) -> (res: Option<u64>)
    ensures
        res == (match (match session { Some(v) => Some(v), None => live }) {
            Some(v) => if v > 0 { Some(v) } else { None },
            None => None,
        }),
{
    let chosen = match session {
        Some(v) => Some(v),
        None => live,
    };
    match chosen {
        Some(v) => if v > 0 { Some(v) } else { None },
        None => None,
    }
}

/// A token's value in its styles: the styles written after it, or its
/// default style when none are written.
pub open spec fn token_styled(raw: Seq<char>, styles: Seq<Seq<char>>, default: Option<Seq<char>>, no_color: bool) -> Seq<char> {
    match default {
        Some(d) => if styles.len() == 0 { styled(raw, seq![d], no_color) } else { styled(raw, styles, no_color) },
        None => styled(raw, styles, no_color),
    }
}

/// Styles a token's value; see [`token_styled`].
pub fn style_token(raw: &str, styles: &[String], default: Option<&str>, no_color: bool) -> (res: String)
    ensures
        res@ == token_styled(raw@, strs_view(styles@), match default { Some(d) => Some(d@), None => None }, no_color),
{
    match default {
        Some(d) => {
            if styles.len() == 0 {
                let mut v: Vec<String> = Vec::new();
                v.push(d.to_owned());
                assert(v@.map_values(|t: String| t@) =~= seq![d@]);
                apply_styles(raw, v.as_slice(), no_color)
            } else {
                apply_styles(raw, styles, no_color)
            }
        },
        None => apply_styles(raw, styles, no_color),
    }
}

/// The names the help text documents for each kind of token, the short
/// name first.
pub open spec fn documented_name(kind: TokenKind, n: Seq<char>) -> bool {
    match kind {
        TokenKind::Model => n == "m"@ || n == "model"@,
        TokenKind::ModelId => n == "mid"@ || n == "model_id"@,
        TokenKind::Effort => n == "e"@ || n == "effort"@,
        TokenKind::Fast => n == "f"@ || n == "fast"@,
        TokenKind::Context => n == "cu"@ || n == "ctx"@ || n == "context"@,
        TokenKind::ContextUsable => n == "cuu"@ || n == "ctx_usable"@,
        TokenKind::CtxPct => n == "cup"@ || n == "ctx_pct"@,
        TokenKind::CtxBar => n == "cub"@ || n == "ctx_bar"@,
        TokenKind::CtxTokens => n == "ct"@ || n == "ctx_tokens"@,
        TokenKind::CtxTokensUsed => n == "ctu"@ || n == "ctx_tokens_used"@,
        TokenKind::CtxTokensMax => n == "ctm"@ || n == "ctx_tokens_max"@,
        TokenKind::CtxPctUsable => n == "cpu"@ || n == "ctx_pct_usable"@,
        TokenKind::CtxBarUsable => n == "cubu"@ || n == "ctx_bar_usable"@,
        TokenKind::CtxTokensUsable => n == "ctpu"@ || n == "ctx_tokens_usable"@,
        TokenKind::TokensTotal => n == "tt"@ || n == "tokens_total"@,
        TokenKind::TotalSpeed => n == "ts"@ || n == "total_speed"@,
        TokenKind::Peak => n == "pk"@ || n == "peak"@,
        TokenKind::Branch => n == "b"@ || n == "branch"@,
        TokenKind::BranchName => n == "bn"@ || n == "branch_name"@,
        TokenKind::Diff => n == "d"@ || n == "diff"@,
        TokenKind::Cwd => n == "cwd"@,
        TokenKind::CwdBase => n == "cwdb"@ || n == "cwd_base"@,
        TokenKind::Cost => n == "c"@ || n == "cost"@,
        TokenKind::CostDay => n == "cd"@ || n == "cost_day"@,
        TokenKind::CostAll => n == "ca"@ || n == "cost_all"@,
        TokenKind::CostMonth => n == "cm"@ || n == "cost_month"@,
        TokenKind::LinesAdded => n == "la"@ || n == "lines_added"@,
        TokenKind::LinesRemoved => n == "lr"@ || n == "lines_removed"@,
        TokenKind::Duration => n == "dur"@ || n == "duration"@,
        TokenKind::ApiDuration => n == "apidur"@ || n == "api_duration"@,
        TokenKind::OutputStyle => n == "os"@ || n == "output_style"@,
        TokenKind::Version => n == "v"@ || n == "version"@,
        TokenKind::SessionId => n == "sid"@ || n == "session_id"@,
        TokenKind::Vim => n == "vim"@,
        TokenKind::Rate(w, piece) => {
            let (short, long) = match w { Window::FiveHour => ("rl5"@, "rate5h"@), Window::SevenDay => ("rl7"@, "rate7d"@) };
            match piece {
                RatePiece::Composite => n == short || n == long,
                RatePiece::Pct => n == short + "p"@ || n == long + "_pct"@,
                RatePiece::Bar => n == short + "b"@ || n == long + "_bar"@,
                RatePiece::Reset => n == short + "r"@ || n == long + "_reset"@,
                RatePiece::Delta => n == short + "d"@ || n == long + "_delta"@,
                RatePiece::TimeDelta => n == short + "td"@ || n == long + "_time_delta"@,
            }
        },
    }
}

/// Each token name means exactly the kind the help text documents it for:
/// a name is understood as a kind if and only if it is one of that kind's
/// documented names, so two names documented for different tokens never
/// mean the same thing, and an undocumented name means nothing.
#[verifier::rlimit(100)]
pub proof fn law_token_names_documented(n: Seq<char>, kind: TokenKind)
    ensures
        token_kind_of(n) == Some(kind) <==> documented_name(kind, n),
{
    reveal_strlit("m");
    reveal_strlit("model");
    reveal_strlit("mid");
    reveal_strlit("model_id");
    reveal_strlit("e");
    reveal_strlit("effort");
    reveal_strlit("f");
    reveal_strlit("fast");
    reveal_strlit("cu");
    reveal_strlit("ctx");
    reveal_strlit("context");
    reveal_strlit("cuu");
    reveal_strlit("ctx_usable");
    reveal_strlit("cup");
    reveal_strlit("ctx_pct");
    reveal_strlit("cub");
    reveal_strlit("ctx_bar");
    reveal_strlit("ct");
    reveal_strlit("ctx_tokens");
    reveal_strlit("ctu");
    reveal_strlit("ctx_tokens_used");
    reveal_strlit("ctm");
    reveal_strlit("ctx_tokens_max");
    reveal_strlit("cpu");
    reveal_strlit("ctx_pct_usable");
    reveal_strlit("cubu");
    reveal_strlit("ctx_bar_usable");
    reveal_strlit("ctpu");
    reveal_strlit("ctx_tokens_usable");
    reveal_strlit("tt");
    reveal_strlit("tokens_total");
    reveal_strlit("ts");
    reveal_strlit("total_speed");
    reveal_strlit("rl5");
    reveal_strlit("rate5h");
    reveal_strlit("rl5p");
    reveal_strlit("rate5h_pct");
    reveal_strlit("rl5b");
    reveal_strlit("rate5h_bar");
    reveal_strlit("rl5r");
    reveal_strlit("rate5h_reset");
    reveal_strlit("rl5d");
    reveal_strlit("rate5h_delta");
    reveal_strlit("rl5td");
    reveal_strlit("rate5h_time_delta");
    reveal_strlit("rl7");
    reveal_strlit("rate7d");
    reveal_strlit("rl7p");
    reveal_strlit("rate7d_pct");
    reveal_strlit("rl7b");
    reveal_strlit("rate7d_bar");
    reveal_strlit("rl7r");
    reveal_strlit("rate7d_reset");
    reveal_strlit("rl7d");
    reveal_strlit("rate7d_delta");
    reveal_strlit("rl7td");
    reveal_strlit("rate7d_time_delta");
    reveal_strlit("pk");
    reveal_strlit("peak");
    reveal_strlit("b");
    reveal_strlit("branch");
    reveal_strlit("bn");
    reveal_strlit("branch_name");
    reveal_strlit("d");
    reveal_strlit("diff");
    reveal_strlit("cwd");
    reveal_strlit("cwdb");
    reveal_strlit("cwd_base");
    reveal_strlit("c");
    reveal_strlit("cost");
    reveal_strlit("cd");
    reveal_strlit("cost_day");
    reveal_strlit("ca");
    reveal_strlit("cost_all");
    reveal_strlit("cm");
    reveal_strlit("cost_month");
    reveal_strlit("la");
    reveal_strlit("lines_added");
    reveal_strlit("lr");
    reveal_strlit("lines_removed");
    reveal_strlit("dur");
    reveal_strlit("duration");
    reveal_strlit("apidur");
    reveal_strlit("api_duration");
    reveal_strlit("os");
    reveal_strlit("output_style");
    reveal_strlit("v");
    reveal_strlit("version");
    reveal_strlit("sid");
    reveal_strlit("session_id");
    reveal_strlit("vim");
    reveal_strlit("p");
    reveal_strlit("b");
    reveal_strlit("r");
    reveal_strlit("d");
    reveal_strlit("td");
    reveal_strlit("_pct");
    reveal_strlit("_bar");
    reveal_strlit("_reset");
    reveal_strlit("_delta");
    reveal_strlit("_time_delta");
    assert("m"@.len() == 1 && "m"@[0] == 'm');
    assert("model"@.len() == 5 && "model"@[0] == 'm' && "model"@[1] == 'o' && "model"@[2] == 'd' && "model"@[3] == 'e' && "model"@[4] == 'l');
    assert("mid"@.len() == 3 && "mid"@[0] == 'm' && "mid"@[1] == 'i' && "mid"@[2] == 'd');
    assert("model_id"@.len() == 8 && "model_id"@[0] == 'm' && "model_id"@[1] == 'o' && "model_id"@[2] == 'd' && "model_id"@[3] == 'e' && "model_id"@[4] == 'l' && "model_id"@[5] == '_' && "model_id"@[6] == 'i' && "model_id"@[7] == 'd');
    assert("e"@.len() == 1 && "e"@[0] == 'e');
    assert("effort"@.len() == 6 && "effort"@[0] == 'e' && "effort"@[1] == 'f' && "effort"@[2] == 'f' && "effort"@[3] == 'o' && "effort"@[4] == 'r' && "effort"@[5] == 't');
    assert("f"@.len() == 1 && "f"@[0] == 'f');
    assert("fast"@.len() == 4 && "fast"@[0] == 'f' && "fast"@[1] == 'a' && "fast"@[2] == 's' && "fast"@[3] == 't');
    assert("cu"@.len() == 2 && "cu"@[0] == 'c' && "cu"@[1] == 'u');
    assert("ctx"@.len() == 3 && "ctx"@[0] == 'c' && "ctx"@[1] == 't' && "ctx"@[2] == 'x');
    assert("context"@.len() == 7 && "context"@[0] == 'c' && "context"@[1] == 'o' && "context"@[2] == 'n' && "context"@[3] == 't' && "context"@[4] == 'e' && "context"@[5] == 'x' && "context"@[6] == 't');
    assert("cuu"@.len() == 3 && "cuu"@[0] == 'c' && "cuu"@[1] == 'u' && "cuu"@[2] == 'u');
    assert("ctx_usable"@.len() == 10 && "ctx_usable"@[0] == 'c' && "ctx_usable"@[1] == 't' && "ctx_usable"@[2] == 'x' && "ctx_usable"@[3] == '_' && "ctx_usable"@[4] == 'u' && "ctx_usable"@[5] == 's' && "ctx_usable"@[6] == 'a' && "ctx_usable"@[7] == 'b' && "ctx_usable"@[8] == 'l' && "ctx_usable"@[9] == 'e');
    assert("cup"@.len() == 3 && "cup"@[0] == 'c' && "cup"@[1] == 'u' && "cup"@[2] == 'p');
    assert("ctx_pct"@.len() == 7 && "ctx_pct"@[0] == 'c' && "ctx_pct"@[1] == 't' && "ctx_pct"@[2] == 'x' && "ctx_pct"@[3] == '_' && "ctx_pct"@[4] == 'p' && "ctx_pct"@[5] == 'c' && "ctx_pct"@[6] == 't');
    assert("cub"@.len() == 3 && "cub"@[0] == 'c' && "cub"@[1] == 'u' && "cub"@[2] == 'b');
    assert("ctx_bar"@.len() == 7 && "ctx_bar"@[0] == 'c' && "ctx_bar"@[1] == 't' && "ctx_bar"@[2] == 'x' && "ctx_bar"@[3] == '_' && "ctx_bar"@[4] == 'b' && "ctx_bar"@[5] == 'a' && "ctx_bar"@[6] == 'r');
    assert("ct"@.len() == 2 && "ct"@[0] == 'c' && "ct"@[1] == 't');
    assert("ctx_tokens"@.len() == 10 && "ctx_tokens"@[0] == 'c' && "ctx_tokens"@[1] == 't' && "ctx_tokens"@[2] == 'x' && "ctx_tokens"@[3] == '_' && "ctx_tokens"@[4] == 't' && "ctx_tokens"@[5] == 'o' && "ctx_tokens"@[6] == 'k' && "ctx_tokens"@[7] == 'e' && "ctx_tokens"@[8] == 'n' && "ctx_tokens"@[9] == 's');
    assert("ctu"@.len() == 3 && "ctu"@[0] == 'c' && "ctu"@[1] == 't' && "ctu"@[2] == 'u');
    assert("ctx_tokens_used"@.len() == 15 && "ctx_tokens_used"@[0] == 'c' && "ctx_tokens_used"@[1] == 't' && "ctx_tokens_used"@[2] == 'x' && "ctx_tokens_used"@[3] == '_' && "ctx_tokens_used"@[4] == 't' && "ctx_tokens_used"@[5] == 'o' && "ctx_tokens_used"@[6] == 'k' && "ctx_tokens_used"@[7] == 'e' && "ctx_tokens_used"@[8] == 'n' && "ctx_tokens_used"@[9] == 's' && "ctx_tokens_used"@[10] == '_' && "ctx_tokens_used"@[11] == 'u' && "ctx_tokens_used"@[12] == 's' && "ctx_tokens_used"@[13] == 'e' && "ctx_tokens_used"@[14] == 'd');
    assert("ctm"@.len() == 3 && "ctm"@[0] == 'c' && "ctm"@[1] == 't' && "ctm"@[2] == 'm');
    assert("ctx_tokens_max"@.len() == 14 && "ctx_tokens_max"@[0] == 'c' && "ctx_tokens_max"@[1] == 't' && "ctx_tokens_max"@[2] == 'x' && "ctx_tokens_max"@[3] == '_' && "ctx_tokens_max"@[4] == 't' && "ctx_tokens_max"@[5] == 'o' && "ctx_tokens_max"@[6] == 'k' && "ctx_tokens_max"@[7] == 'e' && "ctx_tokens_max"@[8] == 'n' && "ctx_tokens_max"@[9] == 's' && "ctx_tokens_max"@[10] == '_' && "ctx_tokens_max"@[11] == 'm' && "ctx_tokens_max"@[12] == 'a' && "ctx_tokens_max"@[13] == 'x');
    assert("cpu"@.len() == 3 && "cpu"@[0] == 'c' && "cpu"@[1] == 'p' && "cpu"@[2] == 'u');
    assert("ctx_pct_usable"@.len() == 14 && "ctx_pct_usable"@[0] == 'c' && "ctx_pct_usable"@[1] == 't' && "ctx_pct_usable"@[2] == 'x' && "ctx_pct_usable"@[3] == '_' && "ctx_pct_usable"@[4] == 'p' && "ctx_pct_usable"@[5] == 'c' && "ctx_pct_usable"@[6] == 't' && "ctx_pct_usable"@[7] == '_' && "ctx_pct_usable"@[8] == 'u' && "ctx_pct_usable"@[9] == 's' && "ctx_pct_usable"@[10] == 'a' && "ctx_pct_usable"@[11] == 'b' && "ctx_pct_usable"@[12] == 'l' && "ctx_pct_usable"@[13] == 'e');
    assert("cubu"@.len() == 4 && "cubu"@[0] == 'c' && "cubu"@[1] == 'u' && "cubu"@[2] == 'b' && "cubu"@[3] == 'u');
    assert("ctx_bar_usable"@.len() == 14 && "ctx_bar_usable"@[0] == 'c' && "ctx_bar_usable"@[1] == 't' && "ctx_bar_usable"@[2] == 'x' && "ctx_bar_usable"@[3] == '_' && "ctx_bar_usable"@[4] == 'b' && "ctx_bar_usable"@[5] == 'a' && "ctx_bar_usable"@[6] == 'r' && "ctx_bar_usable"@[7] == '_' && "ctx_bar_usable"@[8] == 'u' && "ctx_bar_usable"@[9] == 's' && "ctx_bar_usable"@[10] == 'a' && "ctx_bar_usable"@[11] == 'b' && "ctx_bar_usable"@[12] == 'l' && "ctx_bar_usable"@[13] == 'e');
    assert("ctpu"@.len() == 4 && "ctpu"@[0] == 'c' && "ctpu"@[1] == 't' && "ctpu"@[2] == 'p' && "ctpu"@[3] == 'u');
    assert("ctx_tokens_usable"@.len() == 17 && "ctx_tokens_usable"@[0] == 'c' && "ctx_tokens_usable"@[1] == 't' && "ctx_tokens_usable"@[2] == 'x' && "ctx_tokens_usable"@[3] == '_' && "ctx_tokens_usable"@[4] == 't' && "ctx_tokens_usable"@[5] == 'o' && "ctx_tokens_usable"@[6] == 'k' && "ctx_tokens_usable"@[7] == 'e' && "ctx_tokens_usable"@[8] == 'n' && "ctx_tokens_usable"@[9] == 's' && "ctx_tokens_usable"@[10] == '_' && "ctx_tokens_usable"@[11] == 'u' && "ctx_tokens_usable"@[12] == 's' && "ctx_tokens_usable"@[13] == 'a' && "ctx_tokens_usable"@[14] == 'b' && "ctx_tokens_usable"@[15] == 'l' && "ctx_tokens_usable"@[16] == 'e');
    assert("tt"@.len() == 2 && "tt"@[0] == 't' && "tt"@[1] == 't');
    assert("tokens_total"@.len() == 12 && "tokens_total"@[0] == 't' && "tokens_total"@[1] == 'o' && "tokens_total"@[2] == 'k' && "tokens_total"@[3] == 'e' && "tokens_total"@[4] == 'n' && "tokens_total"@[5] == 's' && "tokens_total"@[6] == '_' && "tokens_total"@[7] == 't' && "tokens_total"@[8] == 'o' && "tokens_total"@[9] == 't' && "tokens_total"@[10] == 'a' && "tokens_total"@[11] == 'l');
    assert("ts"@.len() == 2 && "ts"@[0] == 't' && "ts"@[1] == 's');
    assert("total_speed"@.len() == 11 && "total_speed"@[0] == 't' && "total_speed"@[1] == 'o' && "total_speed"@[2] == 't' && "total_speed"@[3] == 'a' && "total_speed"@[4] == 'l' && "total_speed"@[5] == '_' && "total_speed"@[6] == 's' && "total_speed"@[7] == 'p' && "total_speed"@[8] == 'e' && "total_speed"@[9] == 'e' && "total_speed"@[10] == 'd');
    assert("rl5"@.len() == 3 && "rl5"@[0] == 'r' && "rl5"@[1] == 'l' && "rl5"@[2] == '5');
    assert("rate5h"@.len() == 6 && "rate5h"@[0] == 'r' && "rate5h"@[1] == 'a' && "rate5h"@[2] == 't' && "rate5h"@[3] == 'e' && "rate5h"@[4] == '5' && "rate5h"@[5] == 'h');
    assert("rl5p"@.len() == 4 && "rl5p"@[0] == 'r' && "rl5p"@[1] == 'l' && "rl5p"@[2] == '5' && "rl5p"@[3] == 'p');
    assert("rate5h_pct"@.len() == 10 && "rate5h_pct"@[0] == 'r' && "rate5h_pct"@[1] == 'a' && "rate5h_pct"@[2] == 't' && "rate5h_pct"@[3] == 'e' && "rate5h_pct"@[4] == '5' && "rate5h_pct"@[5] == 'h' && "rate5h_pct"@[6] == '_' && "rate5h_pct"@[7] == 'p' && "rate5h_pct"@[8] == 'c' && "rate5h_pct"@[9] == 't');
    assert("rl5b"@.len() == 4 && "rl5b"@[0] == 'r' && "rl5b"@[1] == 'l' && "rl5b"@[2] == '5' && "rl5b"@[3] == 'b');
    assert("rate5h_bar"@.len() == 10 && "rate5h_bar"@[0] == 'r' && "rate5h_bar"@[1] == 'a' && "rate5h_bar"@[2] == 't' && "rate5h_bar"@[3] == 'e' && "rate5h_bar"@[4] == '5' && "rate5h_bar"@[5] == 'h' && "rate5h_bar"@[6] == '_' && "rate5h_bar"@[7] == 'b' && "rate5h_bar"@[8] == 'a' && "rate5h_bar"@[9] == 'r');
    assert("rl5r"@.len() == 4 && "rl5r"@[0] == 'r' && "rl5r"@[1] == 'l' && "rl5r"@[2] == '5' && "rl5r"@[3] == 'r');
    assert("rate5h_reset"@.len() == 12 && "rate5h_reset"@[0] == 'r' && "rate5h_reset"@[1] == 'a' && "rate5h_reset"@[2] == 't' && "rate5h_reset"@[3] == 'e' && "rate5h_reset"@[4] == '5' && "rate5h_reset"@[5] == 'h' && "rate5h_reset"@[6] == '_' && "rate5h_reset"@[7] == 'r' && "rate5h_reset"@[8] == 'e' && "rate5h_reset"@[9] == 's' && "rate5h_reset"@[10] == 'e' && "rate5h_reset"@[11] == 't');
    assert("rl5d"@.len() == 4 && "rl5d"@[0] == 'r' && "rl5d"@[1] == 'l' && "rl5d"@[2] == '5' && "rl5d"@[3] == 'd');
    assert("rate5h_delta"@.len() == 12 && "rate5h_delta"@[0] == 'r' && "rate5h_delta"@[1] == 'a' && "rate5h_delta"@[2] == 't' && "rate5h_delta"@[3] == 'e' && "rate5h_delta"@[4] == '5' && "rate5h_delta"@[5] == 'h' && "rate5h_delta"@[6] == '_' && "rate5h_delta"@[7] == 'd' && "rate5h_delta"@[8] == 'e' && "rate5h_delta"@[9] == 'l' && "rate5h_delta"@[10] == 't' && "rate5h_delta"@[11] == 'a');
    assert("rl5td"@.len() == 5 && "rl5td"@[0] == 'r' && "rl5td"@[1] == 'l' && "rl5td"@[2] == '5' && "rl5td"@[3] == 't' && "rl5td"@[4] == 'd');
    assert("rate5h_time_delta"@.len() == 17 && "rate5h_time_delta"@[0] == 'r' && "rate5h_time_delta"@[1] == 'a' && "rate5h_time_delta"@[2] == 't' && "rate5h_time_delta"@[3] == 'e' && "rate5h_time_delta"@[4] == '5' && "rate5h_time_delta"@[5] == 'h' && "rate5h_time_delta"@[6] == '_' && "rate5h_time_delta"@[7] == 't' && "rate5h_time_delta"@[8] == 'i' && "rate5h_time_delta"@[9] == 'm' && "rate5h_time_delta"@[10] == 'e' && "rate5h_time_delta"@[11] == '_' && "rate5h_time_delta"@[12] == 'd' && "rate5h_time_delta"@[13] == 'e' && "rate5h_time_delta"@[14] == 'l' && "rate5h_time_delta"@[15] == 't' && "rate5h_time_delta"@[16] == 'a');
    assert("rl7"@.len() == 3 && "rl7"@[0] == 'r' && "rl7"@[1] == 'l' && "rl7"@[2] == '7');
    assert("rate7d"@.len() == 6 && "rate7d"@[0] == 'r' && "rate7d"@[1] == 'a' && "rate7d"@[2] == 't' && "rate7d"@[3] == 'e' && "rate7d"@[4] == '7' && "rate7d"@[5] == 'd');
    assert("rl7p"@.len() == 4 && "rl7p"@[0] == 'r' && "rl7p"@[1] == 'l' && "rl7p"@[2] == '7' && "rl7p"@[3] == 'p');
    assert("rate7d_pct"@.len() == 10 && "rate7d_pct"@[0] == 'r' && "rate7d_pct"@[1] == 'a' && "rate7d_pct"@[2] == 't' && "rate7d_pct"@[3] == 'e' && "rate7d_pct"@[4] == '7' && "rate7d_pct"@[5] == 'd' && "rate7d_pct"@[6] == '_' && "rate7d_pct"@[7] == 'p' && "rate7d_pct"@[8] == 'c' && "rate7d_pct"@[9] == 't');
    assert("rl7b"@.len() == 4 && "rl7b"@[0] == 'r' && "rl7b"@[1] == 'l' && "rl7b"@[2] == '7' && "rl7b"@[3] == 'b');
    assert("rate7d_bar"@.len() == 10 && "rate7d_bar"@[0] == 'r' && "rate7d_bar"@[1] == 'a' && "rate7d_bar"@[2] == 't' && "rate7d_bar"@[3] == 'e' && "rate7d_bar"@[4] == '7' && "rate7d_bar"@[5] == 'd' && "rate7d_bar"@[6] == '_' && "rate7d_bar"@[7] == 'b' && "rate7d_bar"@[8] == 'a' && "rate7d_bar"@[9] == 'r');
    assert("rl7r"@.len() == 4 && "rl7r"@[0] == 'r' && "rl7r"@[1] == 'l' && "rl7r"@[2] == '7' && "rl7r"@[3] == 'r');
    assert("rate7d_reset"@.len() == 12 && "rate7d_reset"@[0] == 'r' && "rate7d_reset"@[1] == 'a' && "rate7d_reset"@[2] == 't' && "rate7d_reset"@[3] == 'e' && "rate7d_reset"@[4] == '7' && "rate7d_reset"@[5] == 'd' && "rate7d_reset"@[6] == '_' && "rate7d_reset"@[7] == 'r' && "rate7d_reset"@[8] == 'e' && "rate7d_reset"@[9] == 's' && "rate7d_reset"@[10] == 'e' && "rate7d_reset"@[11] == 't');
    assert("rl7d"@.len() == 4 && "rl7d"@[0] == 'r' && "rl7d"@[1] == 'l' && "rl7d"@[2] == '7' && "rl7d"@[3] == 'd');
    assert("rate7d_delta"@.len() == 12 && "rate7d_delta"@[0] == 'r' && "rate7d_delta"@[1] == 'a' && "rate7d_delta"@[2] == 't' && "rate7d_delta"@[3] == 'e' && "rate7d_delta"@[4] == '7' && "rate7d_delta"@[5] == 'd' && "rate7d_delta"@[6] == '_' && "rate7d_delta"@[7] == 'd' && "rate7d_delta"@[8] == 'e' && "rate7d_delta"@[9] == 'l' && "rate7d_delta"@[10] == 't' && "rate7d_delta"@[11] == 'a');
    assert("rl7td"@.len() == 5 && "rl7td"@[0] == 'r' && "rl7td"@[1] == 'l' && "rl7td"@[2] == '7' && "rl7td"@[3] == 't' && "rl7td"@[4] == 'd');
    assert("rate7d_time_delta"@.len() == 17 && "rate7d_time_delta"@[0] == 'r' && "rate7d_time_delta"@[1] == 'a' && "rate7d_time_delta"@[2] == 't' && "rate7d_time_delta"@[3] == 'e' && "rate7d_time_delta"@[4] == '7' && "rate7d_time_delta"@[5] == 'd' && "rate7d_time_delta"@[6] == '_' && "rate7d_time_delta"@[7] == 't' && "rate7d_time_delta"@[8] == 'i' && "rate7d_time_delta"@[9] == 'm' && "rate7d_time_delta"@[10] == 'e' && "rate7d_time_delta"@[11] == '_' && "rate7d_time_delta"@[12] == 'd' && "rate7d_time_delta"@[13] == 'e' && "rate7d_time_delta"@[14] == 'l' && "rate7d_time_delta"@[15] == 't' && "rate7d_time_delta"@[16] == 'a');
    assert("pk"@.len() == 2 && "pk"@[0] == 'p' && "pk"@[1] == 'k');
    assert("peak"@.len() == 4 && "peak"@[0] == 'p' && "peak"@[1] == 'e' && "peak"@[2] == 'a' && "peak"@[3] == 'k');
    assert("b"@.len() == 1 && "b"@[0] == 'b');
    assert("branch"@.len() == 6 && "branch"@[0] == 'b' && "branch"@[1] == 'r' && "branch"@[2] == 'a' && "branch"@[3] == 'n' && "branch"@[4] == 'c' && "branch"@[5] == 'h');
    assert("bn"@.len() == 2 && "bn"@[0] == 'b' && "bn"@[1] == 'n');
    assert("branch_name"@.len() == 11 && "branch_name"@[0] == 'b' && "branch_name"@[1] == 'r' && "branch_name"@[2] == 'a' && "branch_name"@[3] == 'n' && "branch_name"@[4] == 'c' && "branch_name"@[5] == 'h' && "branch_name"@[6] == '_' && "branch_name"@[7] == 'n' && "branch_name"@[8] == 'a' && "branch_name"@[9] == 'm' && "branch_name"@[10] == 'e');
    assert("d"@.len() == 1 && "d"@[0] == 'd');
    assert("diff"@.len() == 4 && "diff"@[0] == 'd' && "diff"@[1] == 'i' && "diff"@[2] == 'f' && "diff"@[3] == 'f');
    assert("cwd"@.len() == 3 && "cwd"@[0] == 'c' && "cwd"@[1] == 'w' && "cwd"@[2] == 'd');
    assert("cwdb"@.len() == 4 && "cwdb"@[0] == 'c' && "cwdb"@[1] == 'w' && "cwdb"@[2] == 'd' && "cwdb"@[3] == 'b');
    assert("cwd_base"@.len() == 8 && "cwd_base"@[0] == 'c' && "cwd_base"@[1] == 'w' && "cwd_base"@[2] == 'd' && "cwd_base"@[3] == '_' && "cwd_base"@[4] == 'b' && "cwd_base"@[5] == 'a' && "cwd_base"@[6] == 's' && "cwd_base"@[7] == 'e');
    assert("c"@.len() == 1 && "c"@[0] == 'c');
    assert("cost"@.len() == 4 && "cost"@[0] == 'c' && "cost"@[1] == 'o' && "cost"@[2] == 's' && "cost"@[3] == 't');
    assert("cd"@.len() == 2 && "cd"@[0] == 'c' && "cd"@[1] == 'd');
    assert("cost_day"@.len() == 8 && "cost_day"@[0] == 'c' && "cost_day"@[1] == 'o' && "cost_day"@[2] == 's' && "cost_day"@[3] == 't' && "cost_day"@[4] == '_' && "cost_day"@[5] == 'd' && "cost_day"@[6] == 'a' && "cost_day"@[7] == 'y');
    assert("ca"@.len() == 2 && "ca"@[0] == 'c' && "ca"@[1] == 'a');
    assert("cost_all"@.len() == 8 && "cost_all"@[0] == 'c' && "cost_all"@[1] == 'o' && "cost_all"@[2] == 's' && "cost_all"@[3] == 't' && "cost_all"@[4] == '_' && "cost_all"@[5] == 'a' && "cost_all"@[6] == 'l' && "cost_all"@[7] == 'l');
    assert("cm"@.len() == 2 && "cm"@[0] == 'c' && "cm"@[1] == 'm');
    assert("cost_month"@.len() == 10 && "cost_month"@[0] == 'c' && "cost_month"@[1] == 'o' && "cost_month"@[2] == 's' && "cost_month"@[3] == 't' && "cost_month"@[4] == '_' && "cost_month"@[5] == 'm' && "cost_month"@[6] == 'o' && "cost_month"@[7] == 'n' && "cost_month"@[8] == 't' && "cost_month"@[9] == 'h');
    assert("la"@.len() == 2 && "la"@[0] == 'l' && "la"@[1] == 'a');
    assert("lines_added"@.len() == 11 && "lines_added"@[0] == 'l' && "lines_added"@[1] == 'i' && "lines_added"@[2] == 'n' && "lines_added"@[3] == 'e' && "lines_added"@[4] == 's' && "lines_added"@[5] == '_' && "lines_added"@[6] == 'a' && "lines_added"@[7] == 'd' && "lines_added"@[8] == 'd' && "lines_added"@[9] == 'e' && "lines_added"@[10] == 'd');
    assert("lr"@.len() == 2 && "lr"@[0] == 'l' && "lr"@[1] == 'r');
    assert("lines_removed"@.len() == 13 && "lines_removed"@[0] == 'l' && "lines_removed"@[1] == 'i' && "lines_removed"@[2] == 'n' && "lines_removed"@[3] == 'e' && "lines_removed"@[4] == 's' && "lines_removed"@[5] == '_' && "lines_removed"@[6] == 'r' && "lines_removed"@[7] == 'e' && "lines_removed"@[8] == 'm' && "lines_removed"@[9] == 'o' && "lines_removed"@[10] == 'v' && "lines_removed"@[11] == 'e' && "lines_removed"@[12] == 'd');
    assert("dur"@.len() == 3 && "dur"@[0] == 'd' && "dur"@[1] == 'u' && "dur"@[2] == 'r');
    assert("duration"@.len() == 8 && "duration"@[0] == 'd' && "duration"@[1] == 'u' && "duration"@[2] == 'r' && "duration"@[3] == 'a' && "duration"@[4] == 't' && "duration"@[5] == 'i' && "duration"@[6] == 'o' && "duration"@[7] == 'n');
    assert("apidur"@.len() == 6 && "apidur"@[0] == 'a' && "apidur"@[1] == 'p' && "apidur"@[2] == 'i' && "apidur"@[3] == 'd' && "apidur"@[4] == 'u' && "apidur"@[5] == 'r');
    assert("api_duration"@.len() == 12 && "api_duration"@[0] == 'a' && "api_duration"@[1] == 'p' && "api_duration"@[2] == 'i' && "api_duration"@[3] == '_' && "api_duration"@[4] == 'd' && "api_duration"@[5] == 'u' && "api_duration"@[6] == 'r' && "api_duration"@[7] == 'a' && "api_duration"@[8] == 't' && "api_duration"@[9] == 'i' && "api_duration"@[10] == 'o' && "api_duration"@[11] == 'n');
    assert("os"@.len() == 2 && "os"@[0] == 'o' && "os"@[1] == 's');
    assert("output_style"@.len() == 12 && "output_style"@[0] == 'o' && "output_style"@[1] == 'u' && "output_style"@[2] == 't' && "output_style"@[3] == 'p' && "output_style"@[4] == 'u' && "output_style"@[5] == 't' && "output_style"@[6] == '_' && "output_style"@[7] == 's' && "output_style"@[8] == 't' && "output_style"@[9] == 'y' && "output_style"@[10] == 'l' && "output_style"@[11] == 'e');
    assert("v"@.len() == 1 && "v"@[0] == 'v');
    assert("version"@.len() == 7 && "version"@[0] == 'v' && "version"@[1] == 'e' && "version"@[2] == 'r' && "version"@[3] == 's' && "version"@[4] == 'i' && "version"@[5] == 'o' && "version"@[6] == 'n');
    assert("sid"@.len() == 3 && "sid"@[0] == 's' && "sid"@[1] == 'i' && "sid"@[2] == 'd');
    assert("session_id"@.len() == 10 && "session_id"@[0] == 's' && "session_id"@[1] == 'e' && "session_id"@[2] == 's' && "session_id"@[3] == 's' && "session_id"@[4] == 'i' && "session_id"@[5] == 'o' && "session_id"@[6] == 'n' && "session_id"@[7] == '_' && "session_id"@[8] == 'i' && "session_id"@[9] == 'd');
    assert("vim"@.len() == 3 && "vim"@[0] == 'v' && "vim"@[1] == 'i' && "vim"@[2] == 'm');
    assert("p"@.len() == 1 && "p"@[0] == 'p');
    assert("b"@.len() == 1 && "b"@[0] == 'b');
    assert("r"@.len() == 1 && "r"@[0] == 'r');
    assert("d"@.len() == 1 && "d"@[0] == 'd');
    assert("td"@.len() == 2 && "td"@[0] == 't' && "td"@[1] == 'd');
    assert("_pct"@.len() == 4 && "_pct"@[0] == '_' && "_pct"@[1] == 'p' && "_pct"@[2] == 'c' && "_pct"@[3] == 't');
    assert("_bar"@.len() == 4 && "_bar"@[0] == '_' && "_bar"@[1] == 'b' && "_bar"@[2] == 'a' && "_bar"@[3] == 'r');
    assert("_reset"@.len() == 6 && "_reset"@[0] == '_' && "_reset"@[1] == 'r' && "_reset"@[2] == 'e' && "_reset"@[3] == 's' && "_reset"@[4] == 'e' && "_reset"@[5] == 't');
    assert("_delta"@.len() == 6 && "_delta"@[0] == '_' && "_delta"@[1] == 'd' && "_delta"@[2] == 'e' && "_delta"@[3] == 'l' && "_delta"@[4] == 't' && "_delta"@[5] == 'a');
    assert("_time_delta"@.len() == 11 && "_time_delta"@[0] == '_' && "_time_delta"@[1] == 't' && "_time_delta"@[2] == 'i' && "_time_delta"@[3] == 'm' && "_time_delta"@[4] == 'e' && "_time_delta"@[5] == '_' && "_time_delta"@[6] == 'd' && "_time_delta"@[7] == 'e' && "_time_delta"@[8] == 'l' && "_time_delta"@[9] == 't' && "_time_delta"@[10] == 'a');
    let r5 = "rl5"@;
    let r7 = "rl7"@;
    let l5 = "rate5h"@;
    let l7 = "rate7d"@;
    assert(r5 + "p"@ =~= "rl5p"@);
    assert(r5 + "b"@ =~= "rl5b"@);
    assert(r5 + "r"@ =~= "rl5r"@);
    assert(r5 + "d"@ =~= "rl5d"@);
    assert(r5 + "td"@ =~= "rl5td"@);
    assert(r7 + "p"@ =~= "rl7p"@);
    assert(r7 + "b"@ =~= "rl7b"@);
    assert(r7 + "r"@ =~= "rl7r"@);
    assert(r7 + "d"@ =~= "rl7d"@);
    assert(r7 + "td"@ =~= "rl7td"@);
    assert(l5 + "_pct"@ =~= "rate5h_pct"@);
    assert(l5 + "_bar"@ =~= "rate5h_bar"@);
    assert(l5 + "_reset"@ =~= "rate5h_reset"@);
    assert(l5 + "_delta"@ =~= "rate5h_delta"@);
    assert(l5 + "_time_delta"@ =~= "rate5h_time_delta"@);
    assert(l7 + "_pct"@ =~= "rate7d_pct"@);
    assert(l7 + "_bar"@ =~= "rate7d_bar"@);
    assert(l7 + "_reset"@ =~= "rate7d_reset"@);
    assert(l7 + "_delta"@ =~= "rate7d_delta"@);
    assert(l7 + "_time_delta"@ =~= "rate7d_time_delta"@);
    assert(token_kind_of("m"@) == Some(TokenKind::Model));
    assert(token_kind_of("model"@) == Some(TokenKind::Model));
    assert(token_kind_of("mid"@) == Some(TokenKind::ModelId));
    assert(token_kind_of("model_id"@) == Some(TokenKind::ModelId));
    assert(token_kind_of("e"@) == Some(TokenKind::Effort));
    assert(token_kind_of("effort"@) == Some(TokenKind::Effort));
    assert(token_kind_of("f"@) == Some(TokenKind::Fast));
    assert(token_kind_of("fast"@) == Some(TokenKind::Fast));
    assert(token_kind_of("cu"@) == Some(TokenKind::Context));
    assert(token_kind_of("ctx"@) == Some(TokenKind::Context));
    assert(token_kind_of("context"@) == Some(TokenKind::Context));
    assert(token_kind_of("cuu"@) == Some(TokenKind::ContextUsable));
    assert(token_kind_of("ctx_usable"@) == Some(TokenKind::ContextUsable));
    assert(token_kind_of("cup"@) == Some(TokenKind::CtxPct));
    assert(token_kind_of("ctx_pct"@) == Some(TokenKind::CtxPct));
    assert(token_kind_of("cub"@) == Some(TokenKind::CtxBar));
    assert(token_kind_of("ctx_bar"@) == Some(TokenKind::CtxBar));
    assert(token_kind_of("ct"@) == Some(TokenKind::CtxTokens));
    assert(token_kind_of("ctx_tokens"@) == Some(TokenKind::CtxTokens));
    assert(token_kind_of("ctu"@) == Some(TokenKind::CtxTokensUsed));
    assert(token_kind_of("ctx_tokens_used"@) == Some(TokenKind::CtxTokensUsed));
    assert(token_kind_of("ctm"@) == Some(TokenKind::CtxTokensMax));
    assert(token_kind_of("ctx_tokens_max"@) == Some(TokenKind::CtxTokensMax));
    assert(token_kind_of("cpu"@) == Some(TokenKind::CtxPctUsable));
    assert(token_kind_of("ctx_pct_usable"@) == Some(TokenKind::CtxPctUsable));
    assert(token_kind_of("cubu"@) == Some(TokenKind::CtxBarUsable));
    assert(token_kind_of("ctx_bar_usable"@) == Some(TokenKind::CtxBarUsable));
    assert(token_kind_of("ctpu"@) == Some(TokenKind::CtxTokensUsable));
    assert(token_kind_of("ctx_tokens_usable"@) == Some(TokenKind::CtxTokensUsable));
    assert(token_kind_of("tt"@) == Some(TokenKind::TokensTotal));
    assert(token_kind_of("tokens_total"@) == Some(TokenKind::TokensTotal));
    assert(token_kind_of("ts"@) == Some(TokenKind::TotalSpeed));
    assert(token_kind_of("total_speed"@) == Some(TokenKind::TotalSpeed));
    assert(token_kind_of("rl5"@) == Some(TokenKind::Rate(Window::FiveHour, RatePiece::Composite)));
    assert(token_kind_of("rate5h"@) == Some(TokenKind::Rate(Window::FiveHour, RatePiece::Composite)));
    assert(token_kind_of("rl5p"@) == Some(TokenKind::Rate(Window::FiveHour, RatePiece::Pct)));
    assert(token_kind_of("rate5h_pct"@) == Some(TokenKind::Rate(Window::FiveHour, RatePiece::Pct)));
    assert(token_kind_of("rl5b"@) == Some(TokenKind::Rate(Window::FiveHour, RatePiece::Bar)));
    assert(token_kind_of("rate5h_bar"@) == Some(TokenKind::Rate(Window::FiveHour, RatePiece::Bar)));
    assert(token_kind_of("rl5r"@) == Some(TokenKind::Rate(Window::FiveHour, RatePiece::Reset)));
    assert(token_kind_of("rate5h_reset"@) == Some(TokenKind::Rate(Window::FiveHour, RatePiece::Reset)));
    assert(token_kind_of("rl5d"@) == Some(TokenKind::Rate(Window::FiveHour, RatePiece::Delta)));
    assert(token_kind_of("rate5h_delta"@) == Some(TokenKind::Rate(Window::FiveHour, RatePiece::Delta)));
    assert(token_kind_of("rl5td"@) == Some(TokenKind::Rate(Window::FiveHour, RatePiece::TimeDelta)));
    assert(token_kind_of("rate5h_time_delta"@) == Some(TokenKind::Rate(Window::FiveHour, RatePiece::TimeDelta)));
    assert(token_kind_of("rl7"@) == Some(TokenKind::Rate(Window::SevenDay, RatePiece::Composite)));
    assert(token_kind_of("rate7d"@) == Some(TokenKind::Rate(Window::SevenDay, RatePiece::Composite)));
    assert(token_kind_of("rl7p"@) == Some(TokenKind::Rate(Window::SevenDay, RatePiece::Pct)));
    assert(token_kind_of("rate7d_pct"@) == Some(TokenKind::Rate(Window::SevenDay, RatePiece::Pct)));
    assert(token_kind_of("rl7b"@) == Some(TokenKind::Rate(Window::SevenDay, RatePiece::Bar)));
    assert(token_kind_of("rate7d_bar"@) == Some(TokenKind::Rate(Window::SevenDay, RatePiece::Bar)));
    assert(token_kind_of("rl7r"@) == Some(TokenKind::Rate(Window::SevenDay, RatePiece::Reset)));
    assert(token_kind_of("rate7d_reset"@) == Some(TokenKind::Rate(Window::SevenDay, RatePiece::Reset)));
    assert(token_kind_of("rl7d"@) == Some(TokenKind::Rate(Window::SevenDay, RatePiece::Delta)));
    assert(token_kind_of("rate7d_delta"@) == Some(TokenKind::Rate(Window::SevenDay, RatePiece::Delta)));
    assert(token_kind_of("rl7td"@) == Some(TokenKind::Rate(Window::SevenDay, RatePiece::TimeDelta)));
    assert(token_kind_of("rate7d_time_delta"@) == Some(TokenKind::Rate(Window::SevenDay, RatePiece::TimeDelta)));
    assert(token_kind_of("pk"@) == Some(TokenKind::Peak));
    assert(token_kind_of("peak"@) == Some(TokenKind::Peak));
    assert(token_kind_of("b"@) == Some(TokenKind::Branch));
    assert(token_kind_of("branch"@) == Some(TokenKind::Branch));
    assert(token_kind_of("bn"@) == Some(TokenKind::BranchName));
    assert(token_kind_of("branch_name"@) == Some(TokenKind::BranchName));
    assert(token_kind_of("d"@) == Some(TokenKind::Diff));
    assert(token_kind_of("diff"@) == Some(TokenKind::Diff));
    assert(token_kind_of("cwd"@) == Some(TokenKind::Cwd));
    assert(token_kind_of("cwdb"@) == Some(TokenKind::CwdBase));
    assert(token_kind_of("cwd_base"@) == Some(TokenKind::CwdBase));
    assert(token_kind_of("c"@) == Some(TokenKind::Cost));
    assert(token_kind_of("cost"@) == Some(TokenKind::Cost));
    assert(token_kind_of("cd"@) == Some(TokenKind::CostDay));
    assert(token_kind_of("cost_day"@) == Some(TokenKind::CostDay));
    assert(token_kind_of("ca"@) == Some(TokenKind::CostAll));
    assert(token_kind_of("cost_all"@) == Some(TokenKind::CostAll));
    assert(token_kind_of("cm"@) == Some(TokenKind::CostMonth));
    assert(token_kind_of("cost_month"@) == Some(TokenKind::CostMonth));
    assert(token_kind_of("la"@) == Some(TokenKind::LinesAdded));
    assert(token_kind_of("lines_added"@) == Some(TokenKind::LinesAdded));
    assert(token_kind_of("lr"@) == Some(TokenKind::LinesRemoved));
    assert(token_kind_of("lines_removed"@) == Some(TokenKind::LinesRemoved));
    assert(token_kind_of("dur"@) == Some(TokenKind::Duration));
    assert(token_kind_of("duration"@) == Some(TokenKind::Duration));
    assert(token_kind_of("apidur"@) == Some(TokenKind::ApiDuration));
    assert(token_kind_of("api_duration"@) == Some(TokenKind::ApiDuration));
    assert(token_kind_of("os"@) == Some(TokenKind::OutputStyle));
    assert(token_kind_of("output_style"@) == Some(TokenKind::OutputStyle));
    assert(token_kind_of("v"@) == Some(TokenKind::Version));
    assert(token_kind_of("version"@) == Some(TokenKind::Version));
    assert(token_kind_of("sid"@) == Some(TokenKind::SessionId));
    assert(token_kind_of("session_id"@) == Some(TokenKind::SessionId));
    assert(token_kind_of("vim"@) == Some(TokenKind::Vim));
}

} // verus!
