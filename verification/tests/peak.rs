use cc_statusline::peak::{peak_from_clock, peak_part};
use chrono::{TimeZone, Utc};

fn unix(y: i32, m: u32, d: u32, h: u32, mi: u32) -> i64 {
    Utc.with_ymd_and_hms(y, m, d, h, mi, 0).unwrap().timestamp()
}

#[test]
fn user_scenario_thursday_afternoon() {
    // 2026-04-23 13:41 UTC is 06:41 PDT on a Thursday: peak, ending at 11:00 PDT.
    let out = peak_part(unix(2026, 4, 23, 13, 41), false);
    assert!(out.starts_with("\x1b[31mpeak\x1b[0m"), "got: {}", out);
    assert!(out.contains("4h19m"), "got: {}", out);
}

#[test]
fn weekend_is_off_peak_until_monday() {
    // 2026-04-25 is a Saturday; 12:00 UTC is 05:00 PDT.
    let out = peak_part(unix(2026, 4, 25, 12, 0), false);
    assert!(out.starts_with("\x1b[32moff-peak\x1b[0m"), "got: {}", out);
    assert!(out.contains("2d"), "got: {}", out);
    // Monday 05:00 PDT is exactly 48 hours away.
    assert_eq!(peak_part(unix(2026, 4, 25, 12, 0), false), "\x1b[32moff-peak\x1b[0m 2d");
}

#[test]
fn pdt_offset_in_summer() {
    // 2026-07-15 Wednesday 12:00 UTC is 05:00 PDT (UTC-7): peak starts.
    let out = peak_part(unix(2026, 7, 15, 12, 0), false);
    assert!(out.starts_with("\x1b[31mpeak\x1b[0m"), "got: {}", out);
}

#[test]
fn pst_offset_after_dst_ends() {
    // Monday 2026-11-02 is on PST (UTC-8): 13:00 UTC is 05:00 local.
    let out = peak_part(unix(2026, 11, 2, 13, 0), false);
    assert!(out.starts_with("\x1b[31mpeak\x1b[0m"), "got: {}", out);
    let out2 = peak_part(unix(2026, 11, 2, 12, 0), false);
    assert!(out2.starts_with("\x1b[32moff-peak\x1b[0m"), "got: {}", out2);
}

#[test]
fn peak_exact_text_on_thursday_morning() {
    // Thursday 06:41:00 local: 4h19m left in peak time.
    assert_eq!(peak_from_clock(Some((4, 6 * 3600 + 41 * 60)), false), "\x1b[31mpeak\x1b[0m 4h19m");
    assert_eq!(peak_from_clock(Some((4, 6 * 3600 + 41 * 60)), true), "peak 4h19m");
}

#[test]
fn peak_countdown_before_and_after_window() {
    // Tuesday 04:00: one hour to peak.
    assert_eq!(peak_from_clock(Some((2, 4 * 3600)), true), "off-peak 1h");
    // Tuesday 11:00 sharp: peak has ended; 18 hours to Wednesday 05:00.
    assert_eq!(peak_from_clock(Some((2, 11 * 3600)), true), "off-peak 18h");
    // Friday 12:00: to Monday 05:00.
    assert_eq!(peak_from_clock(Some((5, 12 * 3600)), true), "off-peak 2d17h");
    // Saturday 00:00 and 05:00: to Monday 05:00.
    assert_eq!(peak_from_clock(Some((6, 0)), true), "off-peak 2d05h");
    assert_eq!(peak_from_clock(Some((6, 5 * 3600)), true), "off-peak 2d");
    // Sunday 23:00: six hours to Monday 05:00.
    assert_eq!(peak_from_clock(Some((0, 23 * 3600)), true), "off-peak 6h");
}

#[test]
fn peak_without_clock_is_plain_off_peak() {
    assert_eq!(peak_from_clock(None, false), "\x1b[32moff-peak\x1b[0m");
    assert_eq!(peak_from_clock(None, true), "off-peak");
}

#[test]
fn peak_plain_when_colour_disabled() {
    let out = peak_part(unix(2026, 4, 23, 13, 41), true);
    assert_eq!(out, "peak 4h19m");
}

#[test]
fn peak_hours() {
    // 2024-01-02 15:00 UTC is a Tuesday, 07:00 PST.
    let out = peak_part(1704207600, true);
    assert!(out.starts_with("peak "), "got: {}", out);
}

#[test]
fn off_peak_hours() {
    // 2024-01-02 08:00 UTC is a Tuesday, 00:00 PST.
    let out = peak_part(1704182400, true);
    assert!(out.starts_with("off-peak "), "got: {}", out);
    assert_eq!(out, "off-peak 5h");
}
