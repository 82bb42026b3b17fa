//! Peak hours: 5:00 to 11:00 in US/Pacific time, Monday to Friday. The label
//! says whether it is peak time and counts down to the next change.

use vstd::prelude::*;
use chrono::{Datelike, TimeZone, Timelike};
use chrono::offset::LocalResult;
use chrono_tz::America::Los_Angeles;
use crate::color::{red, green, wrapped};
use crate::duration::{format_secs, duration_text};

verus! {

/// Seconds after midnight at which peak time starts (5:00).
pub const PEAK_START: i64 = 18000;
/// Seconds after midnight at which peak time ends (11:00).
pub const PEAK_END: i64 = 39600;
/// Seconds in a day.
pub const SECS_DAY: i64 = 86400;

/// The US/Pacific clock at a unix time: the day of the week counted from
/// Sunday = 0, and the seconds since local midnight; none when the time is out
/// of the calendar's range.
pub uninterp spec fn pacific_clock_of(unix: i64) -> Option<(u32, u32)>;

/// Calls `chrono_tz::America::Los_Angeles.timestamp_opt(unix, 0)` and reads the
/// weekday (`Weekday::num_days_from_sunday`) and `num_seconds_from_midnight`
/// of the instant, taking the earlier of two readings. The contract claims
/// that the result is a function of `unix` alone (the time-zone data is built
/// into `chrono_tz`), that the weekday is below 7 and the seconds below 86400,
/// as chrono documents.
#[verifier::external_body]
fn pacific_clock(unix: i64) -> (res: Option<(u32, u32)>)
    ensures
        res == pacific_clock_of(unix),
        res matches Some((wd, secs)) ==> wd < 7 && secs < 86400,
{
    match Los_Angeles.timestamp_opt(unix, 0) {
        LocalResult::Single(dt) => Some((dt.weekday().num_days_from_sunday(), dt.num_seconds_from_midnight())),
        LocalResult::Ambiguous(dt, _) => Some((dt.weekday().num_days_from_sunday(), dt.num_seconds_from_midnight())),
        LocalResult::None => None,
    }
}

/// Monday to Friday.
pub open spec fn is_weekday(wd: int) -> bool {
    1 <= wd <= 5
}

/// Whether the local weekday `wd` and time of day `secs` are in peak time.
pub open spec fn in_peak(wd: int, secs: int) -> bool {
    is_weekday(wd) && PEAK_START <= secs < PEAK_END
}

/// Days from weekday `wd` to the next weekday (Monday to Friday).
pub open spec fn days_to_next_weekday(wd: int) -> int {
    if wd == 5 { 3 } else if wd == 6 { 2 } else { 1 }
}

/// The countdown: to the end of peak time while in it; otherwise to the
/// start of the next peak time, 5:00 on the same weekday morning or on the
/// next weekday.
pub open spec fn secs_until_change(wd: int, secs: int) -> int {
    if in_peak(wd, secs) {
        PEAK_END - secs
    } else if is_weekday(wd) && secs < PEAK_START {
        PEAK_START - secs
    } else {
        days_to_next_weekday(wd) * SECS_DAY + PEAK_START - secs
    }
}

/// The peak label of a clock reading: `peak` in red or `off-peak` in green,
/// then a space and the countdown; a lone green `off-peak` without a reading.
pub open spec fn peak_text(clock: Option<(u32, u32)>, no_color: bool) -> Seq<char> {
    match clock {
        None => wrapped("off-peak"@, "green"@, no_color),
        Some((wd, secs)) => {
            let label = if in_peak(wd as int, secs as int) {
                wrapped("peak"@, "red"@, no_color)
            } else {
                wrapped("off-peak"@, "green"@, no_color)
            };
            label + seq![' '] + duration_text(secs_until_change(wd as int, secs as int))
        },
    }
}

/// The peak label of a US/Pacific clock reading (weekday from Sunday = 0,
/// seconds since midnight).
pub fn peak_from_clock(clock: Option<(u32, u32)>, no_color: bool) -> (res: String)
    requires
        clock matches Some((wd, secs)) ==> wd < 7 && secs < 86400,
    ensures
        res@ == peak_text(clock, no_color),
{
    match clock {
        None => green("off-peak", no_color),
        Some((wd, secs)) => {
            let secs_today = secs as i64;
            let is_weekday = 1 <= wd && wd <= 5;
            let is_peak = is_weekday && secs_today >= PEAK_START && secs_today < PEAK_END;
            let until: i64 = if is_peak {
                PEAK_END - secs_today
            } else if is_weekday && secs_today < PEAK_START {
                PEAK_START - secs_today
            } else {
                let days: i64 = if wd == 5 { 3 } else if wd == 6 { 2 } else { 1 };
                days * SECS_DAY + PEAK_START - secs_today
            };
            let mut out = if is_peak { red("peak", no_color) } else { green("off-peak", no_color) };
            out.push(' ');
            let d = format_secs(until);
            out.append(d.as_str());
            out
        },
    }
}

/// The peak label at a unix time.
pub fn peak_part(unix: i64, no_color: bool) -> (res: String)
    ensures
        res@ == peak_text(pacific_clock_of(unix), no_color),
{
    let clock = pacific_clock(unix);
    peak_from_clock(clock, no_color)
}

/// The countdown ends exactly at the next change: at 11:00 the same day
/// while in peak time; at 5:00 the same day on a weekday morning before it;
/// otherwise at 5:00 on the next weekday (Monday after Friday, Saturday and
/// Sunday). It is always positive and at most three days.
pub proof fn law_countdown(wd: int, secs: int)
    requires
        0 <= wd < 7,
        0 <= secs < 86400,
    ensures
        in_peak(wd, secs) ==> secs + secs_until_change(wd, secs) == PEAK_END,
        !in_peak(wd, secs) && is_weekday(wd) && secs < PEAK_START
            ==> secs + secs_until_change(wd, secs) == PEAK_START,
        !in_peak(wd, secs) && !(is_weekday(wd) && secs < PEAK_START)
            ==> secs + secs_until_change(wd, secs) == days_to_next_weekday(wd) * SECS_DAY + PEAK_START,
        !in_peak(wd, secs) && !(is_weekday(wd) && secs < PEAK_START)
            ==> is_weekday((wd + days_to_next_weekday(wd)) % 7)
            && forall|d: int| 0 < d < days_to_next_weekday(wd) ==> !is_weekday(#[trigger] ((wd + d) % 7)),
        0 < secs_until_change(wd, secs) <= 3 * SECS_DAY,
{
}

} // verus!
