use cc_statusline::color::{apply_styles, code_for, green, red, wrap};

#[test]
fn code_for_known_and_unknown_names() {
    assert_eq!(code_for("red"), Some("\x1b[31m"));
    assert_eq!(code_for("grey"), Some("\x1b[90m"));
    assert_eq!(code_for("gray"), Some("\x1b[90m"));
    assert_eq!(code_for("bright_black"), Some("\x1b[90m"));
    assert_eq!(code_for("bright_yellow"), Some("\x1b[93m"));
    assert_eq!(code_for("underline"), Some("\x1b[4m"));
    assert_eq!(code_for("purple"), None);
    assert_eq!(code_for(""), None);
}

#[test]
fn wrap_styles_text() {
    assert_eq!(wrap("hi", "cyan", false), "\x1b[36mhi\x1b[0m");
    assert_eq!(red("x", false), "\x1b[31mx\x1b[0m");
    assert_eq!(green("y", false), "\x1b[32my\x1b[0m");
}

#[test]
fn wrap_leaves_text_when_disabled_or_unknown() {
    assert_eq!(wrap("hi", "cyan", true), "hi");
    assert_eq!(wrap("hi", "nope", false), "hi");
    assert_eq!(red("x", true), "x");
}

#[test]
fn apply_styles_chains_codes() {
    let styles = vec!["bold".to_string(), "red".to_string()];
    assert_eq!(apply_styles("a", &styles, false), "\x1b[1m\x1b[31ma\x1b[0m");
    assert_eq!(apply_styles("a", &styles, true), "a");
    assert_eq!(apply_styles("a", &[], false), "a");
}

#[test]
fn apply_styles_skips_unknown_names() {
    let styles = vec!["nope".to_string(), "dim".to_string()];
    assert_eq!(apply_styles("a", &styles, false), "\x1b[2ma\x1b[0m");
    let only_unknown = vec!["nope".to_string()];
    assert_eq!(apply_styles("a", &only_unknown, false), "a");
}

#[test]
fn apply_styles_reapplies_after_inner_reset() {
    let styles = vec!["dim".to_string()];
    let inner = format!("x{}y", red("z", false));
    assert_eq!(
        apply_styles(&inner, &styles, false),
        "\x1b[2mx\x1b[31mz\x1b[0m\x1b[2my\x1b[0m"
    );
}
