use cc_statusline::duration::format_secs;

#[test]
fn format_secs_units() {
    assert_eq!(format_secs(0), "0s");
    assert_eq!(format_secs(60), "1m");
    assert_eq!(format_secs(5400), "1h30m");
    assert_eq!(format_secs(86400), "1d");
    assert_eq!(format_secs(90000), "1d01h");
    assert_eq!(format_secs(12), "12s");
}

#[test]
fn format_secs_minutes_and_seconds() {
    assert_eq!(format_secs(852), "14m12s");
    assert_eq!(format_secs(77), "1m17s");
    assert_eq!(format_secs(3605), "1h");
    assert_eq!(format_secs(3660), "1h01m");
}

#[test]
fn format_secs_negative_is_zero() {
    assert_eq!(format_secs(-5), "0s");
    assert_eq!(format_secs(i64::MIN), "0s");
}

#[test]
fn format_secs_large_values() {
    assert_eq!(format_secs(3 * 86400 + 5 * 3600), "3d05h");
    assert_eq!(format_secs(i64::MAX), "106751991167300d15h");
}

