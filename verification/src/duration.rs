//! Compact durations such as `1d02h`, `2h36m`, `14m12s` or `45s`.

use vstd::prelude::*;
use crate::text::{decimal, decimal_padded, push_decimal, push_decimal_padded};

verus! {

/// A duration of `total` seconds (none when negative): days and hours, or
/// hours and minutes, or minutes and seconds, whichever leading unit is not
/// zero; the second unit is two-digit and left out when it is zero.
pub open spec fn duration_text(total: int) -> Seq<char> {
    let t: nat = if total < 0 { 0 } else { total as nat };
    let d = t / 86400;
    let h = (t % 86400) / 3600;
    let m = (t % 3600) / 60;
    let s = t % 60;
    if d > 0 && h > 0 {
        decimal(d) + seq!['d'] + decimal_padded(h, 2) + seq!['h']
    } else if d > 0 {
        decimal(d) + seq!['d']
    } else if h > 0 && m > 0 {
        decimal(h) + seq!['h'] + decimal_padded(m, 2) + seq!['m']
    } else if h > 0 {
        decimal(h) + seq!['h']
    } else if m > 0 && s > 0 {
        decimal(m) + seq!['m'] + decimal_padded(s, 2) + seq!['s']
    } else if m > 0 {
        decimal(m) + seq!['m']
    } else {
        decimal(s) + seq!['s']
    }
}

/// The duration of `total_s` seconds; see [`duration_text`].
pub fn format_secs(total_s: i64) -> (res: String)
    ensures
        res@ == duration_text(total_s as int),
{
    let t: u64 = if total_s < 0 { 0 } else { total_s as u64 };
    let d = t / 86400;
    let h = (t % 86400) / 3600;
    let m = (t % 3600) / 60;
    let s = t % 60;
    let mut out = String::new();
    if d > 0 && h > 0 {
        push_decimal(&mut out, d);
        out.push('d');
        push_decimal_padded(&mut out, h, 2);
        out.push('h');
    } else if d > 0 {
        push_decimal(&mut out, d);
        out.push('d');
    } else if h > 0 && m > 0 {
        push_decimal(&mut out, h);
        out.push('h');
        push_decimal_padded(&mut out, m, 2);
        out.push('m');
    } else if h > 0 {
        push_decimal(&mut out, h);
        out.push('h');
    } else if m > 0 && s > 0 {
        push_decimal(&mut out, m);
        out.push('m');
        push_decimal_padded(&mut out, s, 2);
        out.push('s');
    } else if m > 0 {
        push_decimal(&mut out, m);
        out.push('m');
    } else {
        push_decimal(&mut out, s);
        out.push('s');
    }
    assert(out@ =~= duration_text(total_s as int));
    out
}

} // verus!
