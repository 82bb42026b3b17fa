//! The integer bookkeeping of persisted sessions: safe session keys, token
//! segments across compactions, which sessions a prune keeps, and the local
//! day key of a timestamp.

use vstd::prelude::*;
use chrono::{Datelike, Local, TimeZone};
use chrono::offset::LocalResult;
use crate::text::{chars_of, decimal_padded, push_decimal_padded};
use crate::args::is_white_space;

verus! {

/// Whether a character is alphabetic or numeric in Unicode.
pub uninterp spec fn unicode_alphanumeric(c: char) -> bool;

/// Whether `c` is an ASCII letter or digit.
pub open spec fn ascii_alphanumeric(c: char) -> bool {
    ('a' <= c && c <= 'z') || ('A' <= c && c <= 'Z') || ('0' <= c && c <= '9')
}

/// Whether `c` is an ASCII character.
pub open spec fn is_ascii_char(c: char) -> bool {
    (c as u32) < 128
}

/// Calls `char::is_alphanumeric`. The contract claims that the result is a
/// function of `c`, that among ASCII characters exactly the letters and
/// digits are alphanumeric, and that no white-space character is, as the
/// standard library documents (alphabetic or numeric in Unicode: the ASCII
/// members of these classes are the letters and digits, and they share no
/// character with `White_Space`).
#[verifier::external_body]
fn is_alphanumeric(c: char) -> (res: bool)
    ensures
        res == unicode_alphanumeric(c),
        is_ascii_char(c) ==> (res <==> ascii_alphanumeric(c)),
        is_white_space(c) ==> !res,
{
    c.is_alphanumeric()
}

/// Characters kept in a session key: the alphanumeric ones (as
/// `char::is_alphanumeric` has it), `-` and `_`.
pub open spec fn key_char(c: char) -> bool {
    unicode_alphanumeric(c) || c == '-' || c == '_'
}

/// The characters of `s` that may stand in a session key, in order.
pub open spec fn key_chars(s: Seq<char>) -> Seq<char>
    decreases s.len(),
{
    if s.len() == 0 {
        s
    } else {
        key_chars(s.drop_last()) + if key_char(s.last()) { seq![s.last()] } else { Seq::empty() }
    }
}

/// A session id reduced to the characters that are safe in a key (see
/// [`key_char`]: alphanumeric, `-`, `_`); none when nothing is left. Of the
/// id's characters, the ASCII ones kept are exactly the letters, digits, `-`
/// and `_`, and no white space is kept (so a key holds no `.`, `/` or
/// space).
pub fn sanitize(session_id: &str) -> (res: Option<String>)
    ensures
        match res {
            Some(k) => k@ == key_chars(session_id@) && k@.len() > 0,
            None => key_chars(session_id@).len() == 0,
        },
        forall|j: int| 0 <= j < session_id@.len() ==> {
            let c = #[trigger] session_id@[j];
            &&& is_ascii_char(c) ==> (key_char(c) <==> ascii_alphanumeric(c) || c == '-' || c == '_')
            &&& is_white_space(c) ==> !key_char(c)
        },
{
    let cs = chars_of(session_id);
    let mut safe = String::new();
    let mut i: usize = 0;
    assert(session_id@.take(0) =~= Seq::<char>::empty());
    while i < cs.len()
        invariant
            cs@ == session_id@,
            i <= cs@.len(),
            safe@ == key_chars(session_id@.take(i as int)),
            forall|j: int| 0 <= j < i ==> {
                let c = #[trigger] session_id@[j];
                &&& is_ascii_char(c) ==> (key_char(c) <==> ascii_alphanumeric(c) || c == '-' || c == '_')
                &&& is_white_space(c) ==> !key_char(c)
            },
        decreases cs@.len() - i,
    {
        let c = cs[i];
        assert(session_id@.take(i + 1).drop_last() =~= session_id@.take(i as int));
        if is_alphanumeric(c) || c == '-' || c == '_' {
            safe.push(c);
        } else {
            assert(safe@ + Seq::<char>::empty() =~= safe@);
        }
        i = i + 1;
    }
    assert(session_id@.take(cs@.len() as int) =~= session_id@);
    if safe.unicode_len() == 0 {
        None
    } else {
        Some(safe)
    }
}

/// The token segments after observing a context of `cur` tokens: nothing
/// changes for zero tokens; the first observation opens a segment; a drop
/// below half the last peak (a compaction) opens a new segment; a rise
/// raises the last peak.
pub open spec fn segments_after(segs: Seq<u64>, cur: u64) -> Seq<u64> {
    if cur == 0 {
        segs
    } else if segs.len() == 0 {
        seq![cur]
    } else if cur < segs.last() / 2 {
        segs.push(cur)
    } else if cur > segs.last() {
        segs.update(segs.len() - 1, cur)
    } else {
        segs
    }
}

/// The sum of the segments.
pub open spec fn seq_sum(s: Seq<u64>) -> nat
    decreases s.len(),
{
    if s.len() == 0 {
        0
    } else {
        seq_sum(s.drop_last()) + (s.last() as nat)
    }
}

/// Records a context of `cur` tokens into the segment peaks; see
/// [`segments_after`]. Returns whether the segments changed.
pub fn update_segments(segments: &mut Vec<u64>, cur: u64) -> (changed: bool)
    ensures
        final(segments)@ == segments_after(old(segments)@, cur),
        changed == (segments_after(old(segments)@, cur) != old(segments)@),
{
    if cur == 0 {
        return false;
    }
    let n = segments.len();
    if n == 0 {
        segments.push(cur);
        assert(segments@ =~= seq![cur]);
        assert(segments@.len() != old(segments)@.len());
        return true;
    }
    let last = segments[n - 1];
    if cur < last / 2 {
        segments.push(cur);
        assert(segments@.len() != old(segments)@.len());
        true
    } else if cur > last {
        segments[n - 1] = cur;
        assert(segments@[n - 1] != old(segments)@[n - 1]);
        true
    } else {
        false
    }
}

/// The total of the segments; none when it does not fit in `u64`.
pub fn segments_total(segments: &[u64]) -> (res: Option<u64>)
    ensures
        match res {
            Some(t) => t == seq_sum(segments@),
            None => seq_sum(segments@) > u64::MAX,
        },
{
    let mut total: u64 = 0;
    let mut i: usize = 0;
    assert(segments@.take(0) =~= Seq::<u64>::empty());
    while i < segments.len()
        invariant
            i <= segments@.len(),
            total == seq_sum(segments@.take(i as int)),
        decreases segments@.len() - i,
    {
        assert(segments@.take(i + 1).drop_last() =~= segments@.take(i as int));
        let s = segments[i];
        match total.checked_add(s) {
            Some(t) => {
                total = t;
            },
            None => {
                proof { lemma_sum_prefix(segments@, i + 1); }
                return None;
            },
        }
        i = i + 1;
    }
    assert(segments@.take(i as int) =~= segments@);
    Some(total)
}

proof fn lemma_sum_prefix(s: Seq<u64>, k: int)
    requires
        0 <= k <= s.len(),
    ensures
        seq_sum(s.take(k)) <= seq_sum(s),
    decreases s.len() - k,
{
    if k < s.len() {
        lemma_sum_prefix(s, k + 1);
        assert(s.take(k + 1).drop_last() =~= s.take(k));
    } else {
        assert(s.take(k) =~= s);
    }
}

/// The token bookkeeping of one session after a statusline update: the
/// context size when one is reported, and the segments when the usage is
/// known (a missing usage counts as zero tokens).
pub struct TokenTrack {
    pub segments: Seq<u64>,
    pub updated_at: u64,
    pub context_window_size: Option<u64>,
}

/// The bookkeeping after observing `size` and `cur` tokens at time `now`:
/// `updated_at` moves to `now` only when the segments change.
pub open spec fn track_after(t: TokenTrack, size: Option<u64>, cur: u64, now: u64) -> TokenTrack {
    let segs = segments_after(t.segments, cur);
    TokenTrack {
        segments: segs,
        updated_at: if segs != t.segments { now } else { t.updated_at },
        context_window_size: match size {
            Some(s) => Some(s),
            None => t.context_window_size,
        },
    }
}

/// Records one observation of a session's context window: its size (if
/// reported) and its current usage `cur`, at time `now`. Returns whether
/// anything changed.
pub fn observe_context_window(
    segments: &mut Vec<u64>,
    updated_at: &mut u64,
    context_window_size: &mut Option<u64>,
    size: Option<u64>,
    cur: u64,
    now: u64,
) -> (changed: bool)
    ensures
        track_after(TokenTrack {
            segments: old(segments)@,
            updated_at: *old(updated_at),
            context_window_size: *old(context_window_size),
        }, size, cur, now) == (TokenTrack {
            segments: final(segments)@,
            updated_at: *final(updated_at),
            context_window_size: *final(context_window_size),
        }),
        changed == (final(segments)@ != old(segments)@
            || *final(context_window_size) != *old(context_window_size)),
{
    let mut changed = false;
    match size {
        Some(s) => {
            let differs = match *context_window_size {
                Some(t) => t != s,
                None => true,
            };
            if differs {
                *context_window_size = Some(s);
                changed = true;
            }
        },
        None => {},
    }
    if cur > 0 {
        let seg_changed = update_segments(segments, cur);
        if seg_changed {
            *updated_at = now;
            changed = true;
        }
    }
    changed
}

/// The time of a statusline update as an unsigned count: negative times
/// count as zero.
pub fn unsigned_now(now: i64) -> (res: u64)
    ensures
        res == (if now >= 0 { now as int } else { 0 }),
{
    if now >= 0 { now as u64 } else { 0 }
}

/// Whether a prune keeps a session: the current session always, any other
/// while it was updated no more than `ttl` seconds before `now`.
pub open spec fn kept(sid: Seq<char>, updated_at: u64, now: u64, ttl: u64, keep: Option<Seq<char>>) -> bool {
    keep == Some(sid) || (if now >= updated_at { now - updated_at } else { 0 }) <= ttl
}

/// Whether a prune at `now` with time-to-live `ttl` keeps the session `sid`
/// last updated at `updated_at`, `keep` being the current session.
pub fn session_kept(sid: &str, updated_at: u64, now: u64, ttl: u64, keep: Option<&str>) -> (res: bool)
    ensures
        res == kept(sid@, updated_at, now, ttl, match keep { Some(k) => Some(k@), None => None }),
{
    match keep {
        Some(k) => {
            if crate::text::str_eq(sid, k) {
                return true;
            }
        },
        None => {},
    }
    now.saturating_sub(updated_at) <= ttl
}

/// Whether `k` is where the latest update stands in `updated` (the update
/// times of sessions in key order): no time is later, and none after it is
/// as late, so that of equal latest times the last one counts.
pub open spec fn is_latest(updated: Seq<u64>, k: int) -> bool {
    &&& 0 <= k < updated.len()
    &&& forall|j: int| 0 <= j < updated.len() ==> updated[j] <= updated[k]
    &&& forall|j: int| k < j < updated.len() ==> updated[j] < updated[k]
}

/// The position of the most recently updated session among sessions listed
/// in key order (the last of equal latest times, as `max_by_key` picks);
/// none when there is no session.
pub fn latest_index(updated: &[u64]) -> (res: Option<usize>)
    ensures
        match res {
            Some(k) => is_latest(updated@, k as int),
            None => updated@.len() == 0,
        },
{
    if updated.len() == 0 {
        return None;
    }
    let mut best: usize = 0;
    let mut i: usize = 1;
    while i < updated.len()
        invariant
            1 <= i <= updated@.len(),
            best < i,
            forall|j: int| 0 <= j < i ==> updated@[j] <= updated@[best as int],
            forall|j: int| best < j < i ==> updated@[j] < updated@[best as int],
        decreases updated@.len() - i,
    {
        if updated[i] >= updated[best] {
            best = i;
        }
        i = i + 1;
    }
    Some(best)
}

/// Whether a unix time falls within the years 1 to 9999 (UTC).
pub open spec fn common_era_time(now: i64) -> bool {
    -62_135_596_800 <= now <= 253_402_300_799
}

/// The proleptic Gregorian date `(year, month, day)` of the day `days`
/// counted from 1970-01-01 (day 0).
pub open spec fn civil_date(days: int) -> (int, int, int) {
    let z = days + 719_468;
    let era = z / 146_097;
    let doe = z - era * 146_097;
    let yoe = (doe - doe / 1460 + doe / 36_524 - doe / 146_096) / 365;
    let doy = doe - (365 * yoe + yoe / 4 - yoe / 100);
    let mp = (5 * doy + 2) / 153;
    let d = doy - (153 * mp + 2) / 5 + 1;
    let m = if mp < 10 { mp + 3 } else { mp - 9 };
    let y = yoe + era * 400 + if m <= 2 { 1int } else { 0int };
    (y, m, d)
}

/// The calendar date of the unix time `now` shifted by `off` seconds.
pub open spec fn date_at_offset(now: int, off: int) -> (int, int, int) {
    civil_date((now + off) / 86_400)
}

/// Whether `(y, m, d)` is the date of `now` in some time zone: the calendar
/// date of `now` shifted by less than a day either way.
pub open spec fn near_date(now: int, y: int, m: int, d: int) -> bool {
    exists|off: int| -86_400 < off < 86_400 && #[trigger] date_at_offset(now, off) == (y, m, d)
}

/// Calls `chrono::Local.timestamp_opt(now, 0)` and reads `year`, `month` and
/// `day` of the instant when the mapping is single. The result depends on
/// the local time zone, so the contract claims only what chrono documents of
/// every outcome: the month is 1 to 12 and the day 1 to 31; the date is
/// that of `now` shifted by the local offset, which chrono holds to less than
/// a day (`FixedOffset::east_opt`); and, as chrono documents that
/// `timestamp_opt` gives a single reading for every time in its range (which
/// spans far more than the years 1 to 9999), a date for those years. Which
/// offset applies, is left unsaid.
#[verifier::external_body]
fn local_date(now: i64) -> (res: Option<(i32, u32, u32)>)
    ensures
        res matches Some((y, m, d)) ==> 1 <= m <= 12 && 1 <= d <= 31,
        res matches Some((y, m, d)) ==> near_date(now as int, y as int, m as int, d as int),
        common_era_time(now) ==> res is Some,
{
    match Local.timestamp_opt(now, 0) {
        LocalResult::Single(dt) => Some((dt.year(), dt.month(), dt.day())),
        LocalResult::Ambiguous(_, _) => None,
        LocalResult::None => None,
    }
}

/// A year written with at least four characters, the sign counting as one.
pub open spec fn year_text(y: int) -> Seq<char> {
    if y >= 0 {
        decimal_padded(y as nat, 4)
    } else {
        seq!['-'] + decimal_padded((-y) as nat, 3)
    }
}

/// The day key `YYYY-MM-DD` of a local date, or `0000-00-00` without one.
pub open spec fn day_key_text(date: Option<(i32, u32, u32)>) -> Seq<char> {
    match date {
        Some((y, m, d)) => year_text(y as int) + seq!['-'] + decimal_padded(m as nat, 2)
            + seq!['-'] + decimal_padded(d as nat, 2),
        None => seq!['0', '0', '0', '0', '-', '0', '0', '-', '0', '0'],
    }
}

/// The day key of a local date; see [`day_key_text`].
pub fn day_key_of(date: Option<(i32, u32, u32)>) -> (res: String)
    ensures
        res@ == day_key_text(date),
        res@.len() >= 10,
{
    proof {
        match date {
            Some((y, m, d)) => {
                crate::text::lemma_decimal_padded_len(m as nat, 2);
                crate::text::lemma_decimal_padded_len(d as nat, 2);
                if y >= 0 {
                    crate::text::lemma_decimal_padded_len(y as nat, 4);
                } else {
                    crate::text::lemma_decimal_padded_len((-y) as nat, 3);
                }
            },
            None => {},
        }
    }
    match date {
        Some((y, m, d)) => {
            let mut out = String::new();
            if y >= 0 {
                push_decimal_padded(&mut out, y as u64, 4);
            } else {
                out.push('-');
                let a: u64 = (-(y as i64)) as u64;
                push_decimal_padded(&mut out, a, 3);
            }
            out.push('-');
            push_decimal_padded(&mut out, m as u64, 2);
            out.push('-');
            push_decimal_padded(&mut out, d as u64, 2);
            assert(out@ =~= day_key_text(date));
            out
        },
        None => {
            let mut out = String::new();
            out.push('0'); out.push('0'); out.push('0'); out.push('0');
            out.push('-');
            out.push('0'); out.push('0');
            out.push('-');
            out.push('0'); out.push('0');
            assert(out@ =~= day_key_text(date));
            out
        },
    }
}

/// The local-calendar day key `YYYY-MM-DD` of a unix time (in the local time
/// zone: the date of `now` shifted by less than a day), or `0000-00-00` when
/// the time has no single local reading (never in the years 1 to 9999).
pub fn day_key(now: i64) -> (res: String)
    ensures
        exists|date: Option<(i32, u32, u32)>|
            (date matches Some((y, m, d)) ==> 1 <= m <= 12 && 1 <= d <= 31)
            && (date matches Some((y, m, d)) ==> near_date(now as int, y as int, m as int, d as int))
            && (common_era_time(now) ==> date is Some)
            && res@ == #[trigger] day_key_text(date),
        res@.len() >= 10,
{
    let date = local_date(now);
    day_key_of(date)
}

/// The month prefix `YYYY-MM` of a day key: its first seven characters.
pub fn month_prefix(day_key: &str) -> (res: String)
    requires
        day_key@.len() >= 7,
    ensures
        res@ == day_key@.take(7),
{
    let cs = chars_of(day_key);
    let mut out = String::new();
    let mut i: usize = 0;
    while i < 7
        invariant
            cs@ == day_key@,
            day_key@.len() >= 7,
            i <= 7,
            out@ == day_key@.take(i as int),
        decreases 7 - i,
    {
        out.push(cs[i]);
        i = i + 1;
        assert(out@ =~= day_key@.take(i as int));
    }
    out
}

/// The total of a session's segments never decreases with an observation.
pub proof fn law_total_never_decreases(segs: Seq<u64>, cur: u64)
    ensures
        seq_sum(segments_after(segs, cur)) >= seq_sum(segs),
{
    if cur > 0 && segs.len() > 0 {
        if cur < segs.last() / 2 {
            assert(segs.push(cur).drop_last() =~= segs);
        } else if cur > segs.last() {
            assert(segs.update(segs.len() - 1, cur).drop_last() =~= segs.drop_last());
        }
    } else if cur > 0 {
        assert(seq![cur].drop_last() =~= Seq::<u64>::empty());
    }
}

/// Segment peaks are positive: observing keeps every segment above zero.
pub proof fn law_segments_positive(segs: Seq<u64>, cur: u64)
    requires
        forall|i: int| 0 <= i < segs.len() ==> segs[i] > 0,
    ensures
        forall|i: int| 0 <= i < segments_after(segs, cur).len() ==> segments_after(segs, cur)[i] > 0,
{
}

/// An observation without a compaction keeps the number of segments and
/// leaves the last segment at the larger of its peak and the observation.
pub proof fn law_peak_tracks_maximum(segs: Seq<u64>, cur: u64)
    requires
        segs.len() > 0,
        cur > 0,
        cur >= segs.last() / 2,
    ensures
        segments_after(segs, cur).len() == segs.len(),
        segments_after(segs, cur).last() == if cur > segs.last() { cur } else { segs.last() },
{
}

/// A session key holds only key characters, and reducing a key again
/// changes nothing: a sanitized id sanitizes to itself.
pub proof fn law_sanitize_idempotent(s: Seq<char>)
    ensures
        key_chars(key_chars(s)) == key_chars(s),
        forall|i: int| 0 <= i < key_chars(s).len() ==> key_char(#[trigger] key_chars(s)[i]),
    decreases s.len(),
{
    if s.len() > 0 {
        let init = s.drop_last();
        law_sanitize_idempotent(init);
        let k = key_chars(init);
        if key_char(s.last()) {
            assert(key_chars(s) == k.push(s.last()));
            assert(k.push(s.last()).drop_last() =~= k);
            assert(key_chars(s) =~= k + seq![s.last()]);
        } else {
            assert(key_chars(s) =~= k);
        }
    }
}

/// A prune always keeps the current session, keeps any session updated no
/// more than `ttl` seconds before `now` (or after it), and drops the others.
pub proof fn law_prune_keeps_current_and_fresh(
    sid: Seq<char>,
    updated_at: u64,
    now: u64,
    ttl: u64,
    keep: Option<Seq<char>>,
)
    ensures
        kept(sid, updated_at, now, ttl, Some(sid)),
        now <= updated_at + ttl ==> kept(sid, updated_at, now, ttl, keep),
        keep != Some(sid) && now > updated_at + ttl ==> !kept(sid, updated_at, now, ttl, keep),
{
}

/// Observing the same context size twice in a row changes nothing the
/// second time.
pub proof fn law_observation_idempotent(segs: Seq<u64>, cur: u64)
    ensures
        segments_after(segments_after(segs, cur), cur) == segments_after(segs, cur),
{
}

} // verus!
