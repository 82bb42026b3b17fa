use cc_statusline::args::{parse_args, parse_duration, parse_i64, parse_u64, ArgsOutcome};

#[test]
fn parse_duration_suffixes_and_bare_seconds() {
    assert_eq!(parse_duration("30d"), Some(2_592_000));
    assert_eq!(parse_duration("12h"), Some(43_200));
    assert_eq!(parse_duration("4w"), Some(2_419_200));
    assert_eq!(parse_duration("90m"), Some(5_400));
    assert_eq!(parse_duration("45s"), Some(45));
    assert_eq!(parse_duration("604800"), Some(604_800));
}

#[test]
fn parse_duration_rejects_junk() {
    assert_eq!(parse_duration(""), None);
    assert_eq!(parse_duration("abc"), None);
    assert_eq!(parse_duration("d"), None);
    assert_eq!(parse_duration("1.5h"), None);
}

#[test]
fn parse_duration_trims_and_overflows() {
    assert_eq!(parse_duration("  2h "), Some(7_200));
    assert_eq!(parse_duration("3 d"), Some(259_200));
    assert_eq!(parse_duration("+5s"), Some(5));
    assert_eq!(parse_duration("-5s"), None);
    assert_eq!(parse_duration("18446744073709551615w"), None);
    assert_eq!(parse_duration("18446744073709551615"), Some(u64::MAX));
}

#[test]
fn parse_integers_like_std() {
    assert_eq!(parse_u64("42"), Some(42));
    assert_eq!(parse_u64("+42"), Some(42));
    assert_eq!(parse_u64("-0"), None);
    assert_eq!(parse_u64("+"), None);
    assert_eq!(parse_u64(" 1"), None);
    assert_eq!(parse_u64("18446744073709551616"), None);
    assert_eq!(parse_i64("-9223372036854775808"), Some(i64::MIN));
    assert_eq!(parse_i64("9223372036854775807"), Some(i64::MAX));
    assert_eq!(parse_i64("9223372036854775808"), None);
    assert_eq!(parse_i64("-"), None);
    assert_eq!(parse_i64("+17"), Some(17));
    assert_eq!(parse_i64("-17"), Some(-17));
}

fn strings(v: &[&str]) -> Vec<String> {
    v.iter().map(|s| s.to_string()).collect()
}

#[test]
fn parse_args_flags_and_lines() {
    match parse_args(&strings(&["%m", "--no-color", "--now", "1776940000", "%cu", "--prune=7d"])) {
        ArgsOutcome::Run(a) => {
            assert_eq!(a.lines, strings(&["%m", "%cu"]));
            assert!(a.no_color);
            assert!(!a.debug);
            assert!(!a.passthrough);
            assert_eq!(a.now, Some(1_776_940_000));
            assert_eq!(a.prune, Some(604_800));
        }
        _ => panic!("expected a run"),
    }
}

#[test]
fn parse_args_help_and_version_stop_early() {
    assert!(matches!(parse_args(&strings(&["%m", "-h"])), ArgsOutcome::Help));
    assert!(matches!(parse_args(&strings(&["--help", "-V"])), ArgsOutcome::Help));
    assert!(matches!(parse_args(&strings(&["--version"])), ArgsOutcome::Version));
    assert!(matches!(parse_args(&strings(&["-V", "--help"])), ArgsOutcome::Version));
}

#[test]
fn parse_args_bad_values_and_missing_values() {
    match parse_args(&strings(&["--now=abc", "--debug", "--passthrough", "--prune"])) {
        ArgsOutcome::Run(a) => {
            assert_eq!(a.now, None);
            assert!(a.debug);
            assert!(a.passthrough);
            assert_eq!(a.prune, None);
            assert!(a.lines.is_empty());
        }
        _ => panic!("expected a run"),
    }
    match parse_args(&strings(&["--prune", "12h", "--now", "-5"])) {
        ArgsOutcome::Run(a) => {
            assert_eq!(a.prune, Some(43_200));
            assert_eq!(a.now, Some(-5));
        }
        _ => panic!("expected a run"),
    }
}

#[test]
fn parse_args_empty_runs_with_defaults() {
    match parse_args(&[]) {
        ArgsOutcome::Run(a) => {
            assert!(a.lines.is_empty());
            assert_eq!(a.now, None);
            assert!(!a.no_color && !a.debug && !a.passthrough);
            assert_eq!(a.prune, None);
        }
        _ => panic!("expected a run"),
    }
}
