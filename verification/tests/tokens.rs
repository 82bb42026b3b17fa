use cc_statusline::git::{branch, diff_totals};
use cc_statusline::input::CurrentUsage;
use cc_statusline::rate::RateParts;
use cc_statusline::tokens::{
    base_name, branch_text, diff_token, effort_style, fast_text, lines_added_text, lines_removed_text,
    rate_piece, short_session_id, small_count, style_token, tilde, token_kind, tokens_total, unknown_token_text, used_color,
    RatePiece, TokenKind, Window,
};

#[test]
fn token_kind_short_and_long_names() {
    assert_eq!(token_kind("m"), Some(TokenKind::Model));
    assert_eq!(token_kind("model"), Some(TokenKind::Model));
    assert_eq!(token_kind("cu"), Some(TokenKind::Context));
    assert_eq!(token_kind("ctx"), Some(TokenKind::Context));
    assert_eq!(token_kind("context"), Some(TokenKind::Context));
    assert_eq!(token_kind("cpu"), Some(TokenKind::CtxPctUsable));
    assert_eq!(token_kind("rl5"), Some(TokenKind::Rate(Window::FiveHour, RatePiece::Composite)));
    assert_eq!(token_kind("rate7d_time_delta"), Some(TokenKind::Rate(Window::SevenDay, RatePiece::TimeDelta)));
    assert_eq!(token_kind("pk"), Some(TokenKind::Peak));
    assert_eq!(token_kind("cwdb"), Some(TokenKind::CwdBase));
    assert_eq!(token_kind("vim"), Some(TokenKind::Vim));
    assert_eq!(token_kind("nope"), None);
    assert_eq!(token_kind(""), None);
    assert_eq!(token_kind("M"), None);
}

#[test]
fn lines_added_and_removed() {
    assert_eq!(lines_added_text(42), "+42");
    assert_eq!(lines_removed_text(7), "-7");
    assert_eq!(lines_added_text(0), "+0");
    assert_eq!(lines_removed_text(u64::MAX), "-18446744073709551615");
}

#[test]
fn diff_token_shapes() {
    assert_eq!(diff_token(None, true, false), None);
    assert_eq!(diff_token(Some((0, 0)), true, false), None);
    assert_eq!(diff_token(Some((3, 1)), false, false), Some("(+3,-1)".to_string()));
    assert_eq!(diff_token(Some((3, 1)), true, true), Some("(+3,-1)".to_string()));
    assert_eq!(
        diff_token(Some((3, 0)), true, false),
        Some("(\x1b[32m+3\x1b[0m,\x1b[31m-0\x1b[0m)".to_string())
    );
}

#[test]
fn effort_default_styles() {
    assert_eq!(effort_style(None), None);
    assert_eq!(effort_style(Some("low")), Some("green"));
    assert_eq!(effort_style(Some("minimal")), Some("green"));
    assert_eq!(effort_style(Some("none")), Some("green"));
    assert_eq!(effort_style(Some("medium")), Some("yellow"));
    assert_eq!(effort_style(Some("high")), Some("red"));
    assert_eq!(effort_style(Some("max")), Some("bright_red"));
}

#[test]
fn small_token_texts() {
    assert_eq!(used_color(true), "red");
    assert_eq!(used_color(false), "green");
    assert_eq!(branch_text("main"), "⎇ main");
    assert_eq!(fast_text(Some(true)), Some("fast".to_string()));
    assert_eq!(fast_text(Some(false)), None);
    assert_eq!(fast_text(None), None);
    assert_eq!(unknown_token_text("bogus"), "%bogus");
}

#[test]
fn session_id_short() {
    assert_eq!(short_session_id("d6486277-1d9a-4634-8f1c-b410dc89e3c1"), "d6486277");
    assert_eq!(short_session_id("0123456789abcdef"), "01234567");
    assert_eq!(short_session_id("abc"), "abc");
    assert_eq!(short_session_id(""), "");
    // Characters, not bytes.
    assert_eq!(short_session_id("éééééééééé"), "éééééééé");
    assert_eq!(short_session_id("日本語のセッションID"), "日本語のセッショ");
}

#[test]
fn tilde_abbreviates_home() {
    assert_eq!(tilde(Some("/home/u"), "/home/u/Projects/foo"), "~/Projects/foo");
    assert_eq!(tilde(Some("/home/u"), "/home/u"), "~");
    assert_eq!(tilde(Some("/home/u"), "/srv/x"), "/srv/x");
    assert_eq!(tilde(Some("/home/u/longer"), "/home/u"), "/home/u");
    assert_eq!(tilde(None, "/home/u/x"), "/home/u/x");
    // Only the home directory itself is abbreviated, not a longer name.
    assert_eq!(tilde(Some("/home/u"), "/home/user2/x"), "/home/user2/x");
    assert_eq!(tilde(Some("/home/u/"), "/home/u/x"), "~x");
    assert_eq!(tilde(Some("/home/u"), "/etc/x"), "/etc/x");
}

#[test]
fn style_token_default_and_written_styles() {
    assert_eq!(style_token("x", &[], Some("green"), false), "\x1b[32mx\x1b[0m");
    assert_eq!(style_token("x", &["cyan".to_string()], Some("green"), false), "\x1b[36mx\x1b[0m");
    assert_eq!(style_token("x", &[], None, false), "x");
    assert_eq!(style_token("x", &[], Some("green"), true), "x");
}

fn parts(reset: Option<(&str, &str)>) -> RateParts {
    RateParts::assemble(
        "███".to_string(),
        "28%".to_string(),
        "+3%".to_string(),
        reset.map(|(d, t)| (d.to_string(), t.to_string())),
    )
}

#[test]
fn rate_parts_composite_with_reset() {
    let p = parts(Some(("2h10m", "-15m")));
    assert_eq!(p.composite, "[███] 28%(+3%) 2h10m(-15m)");
    assert_eq!(p.reset_str, " 2h10m(-15m)");
    assert_eq!(p.reset_only, "2h10m");
    assert_eq!(p.time_delta_only, "-15m");
    assert_eq!(p.bar, "███");
    assert_eq!(rate_piece(&p, RatePiece::Reset), Some("2h10m".to_string()));
    assert_eq!(rate_piece(&p, RatePiece::TimeDelta), Some("-15m".to_string()));
    assert_eq!(rate_piece(&p, RatePiece::Pct), Some("28%".to_string()));
    assert_eq!(rate_piece(&p, RatePiece::Delta), Some("+3%".to_string()));
    assert_eq!(rate_piece(&p, RatePiece::Bar), Some("███".to_string()));
}

#[test]
fn rate_parts_without_reset() {
    let p = parts(None);
    assert_eq!(p.composite, "[███] 28%(+3%)");
    assert_eq!(p.reset_str, "");
    assert_eq!(rate_piece(&p, RatePiece::Reset), None);
    assert_eq!(rate_piece(&p, RatePiece::TimeDelta), None);
    assert_eq!(rate_piece(&p, RatePiece::Composite), Some("[███] 28%(+3%)".to_string()));
}

#[test]
fn current_usage_total_sums_counts() {
    let u = CurrentUsage {
        input_tokens: Some(10),
        output_tokens: Some(20),
        cache_creation_input_tokens: None,
        cache_read_input_tokens: Some(5),
    };
    assert_eq!(u.total(), Some(35));
    let big = CurrentUsage {
        input_tokens: Some(u64::MAX),
        output_tokens: Some(1),
        cache_creation_input_tokens: None,
        cache_read_input_tokens: None,
    };
    assert_eq!(big.total(), None);
    let none = CurrentUsage {
        input_tokens: None,
        output_tokens: None,
        cache_creation_input_tokens: None,
        cache_read_input_tokens: None,
    };
    assert_eq!(none.total(), Some(0));
}

#[test]
fn diff_totals_sums_numstat_columns() {
    assert_eq!(diff_totals(""), Some((0, 0)));
    assert_eq!(diff_totals("3\t1\tsrc/a.rs\n10\t0\tREADME.md\n"), Some((13, 1)));
    // Binary files show `-`; a short line counts what it has.
    assert_eq!(diff_totals("-\t-\timg.png\n2\t5\tb.rs"), Some((2, 5)));
    assert_eq!(diff_totals("7\n\n  4   9  x\r\n"), Some((11, 9)));
    assert_eq!(diff_totals("+3\t-2\tf"), Some((3, 0)));
    assert_eq!(diff_totals("18446744073709551615\t0\ta\n1\t0\tb\n"), None);
}

#[test]
fn small_count_rounds_to_thousands() {
    assert_eq!(small_count(0), "0");
    assert_eq!(small_count(999), "999");
    assert_eq!(small_count(1000), "1k");
    assert_eq!(small_count(1499), "1k");
    assert_eq!(small_count(1500), "2k");
    assert_eq!(small_count(50_000), "50k");
    assert_eq!(small_count(200_000), "200k");
    assert_eq!(small_count(999_999), "1000k");
}

#[test]
fn branch_is_trimmed_output() {
    assert_eq!(branch("main\n"), Some("main".to_string()));
    assert_eq!(branch("  feature/x \r\n"), Some("feature/x".to_string()));
    assert_eq!(branch(" \n"), None);
    assert_eq!(branch(""), None);
}

#[test]
fn cwd_base_only_basename() {
    assert_eq!(base_name("/tmp/some/project"), Some("project".to_string()));
}

#[test]
fn base_name_agrees_with_path_file_name() {
    for p in [
        "/tmp/some/project", "project", "a/b/", "a//b", "a/b/.", "a/..", "/", "", ".", "./", "..",
        "./x", "x/./y", "/x/../y", "a/b/../", "a/.../", "..a", "a.b/c.d", "//", "/./.",
    ] {
        let expected = std::path::Path::new(p)
            .file_name()
            .map(|s| s.to_string_lossy().to_string());
        assert_eq!(base_name(p), expected, "path {:?}", p);
    }
}

#[test]
fn tokens_total_prefers_session_and_drops_zero() {
    assert_eq!(tokens_total(Some(5), Some(9)), Some(5));
    assert_eq!(tokens_total(None, Some(9)), Some(9));
    assert_eq!(tokens_total(Some(0), Some(9)), None);
    assert_eq!(tokens_total(None, Some(0)), None);
    assert_eq!(tokens_total(None, None), None);
}
