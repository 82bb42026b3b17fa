use cc_statusline::state::{
    day_key, day_key_of, latest_index, month_prefix, observe_context_window, sanitize, segments_total,
    session_kept, unsigned_now, update_segments,
};

#[test]
fn sanitize_keeps_safe_characters() {
    assert_eq!(sanitize("abc-123_XY"), Some("abc-123_XY".to_string()));
    assert_eq!(sanitize("../etc/passwd"), Some("etcpasswd".to_string()));
    assert_eq!(sanitize("a b.c"), Some("abc".to_string()));
    assert_eq!(sanitize("ünï"), Some("ünï".to_string()));
    assert_eq!(sanitize("/.."), None);
    assert_eq!(sanitize(""), None);
}

#[test]
fn update_segments_tracks_peaks_and_compactions() {
    let mut segs: Vec<u64> = Vec::new();
    assert!(!update_segments(&mut segs, 0));
    assert!(segs.is_empty());
    assert!(update_segments(&mut segs, 100));
    assert_eq!(segs, vec![100]);
    assert!(update_segments(&mut segs, 150));
    assert_eq!(segs, vec![150]);
    assert!(!update_segments(&mut segs, 120));
    assert!(!update_segments(&mut segs, 75));
    assert_eq!(segs, vec![150]);
    // Below half the peak: a compaction opens a new segment.
    assert!(update_segments(&mut segs, 74));
    assert_eq!(segs, vec![150, 74]);
    assert_eq!(segments_total(&segs), Some(224));
}

#[test]
fn tokens_total_accumulates_across_compaction_segments() {
    let mut segs: Vec<u64> = Vec::new();
    for cur in [50_000u64, 180_000, 30_000, 90_000] {
        update_segments(&mut segs, cur);
    }
    assert_eq!(segs, vec![180_000, 90_000]);
    assert_eq!(segments_total(&segs), Some(270_000));
}

#[test]
fn segments_total_overflow_is_none() {
    assert_eq!(segments_total(&[]), Some(0));
    assert_eq!(segments_total(&[u64::MAX]), Some(u64::MAX));
    assert_eq!(segments_total(&[u64::MAX, 1]), None);
}

#[test]
fn observe_context_window_records_size_and_usage() {
    let mut segs: Vec<u64> = Vec::new();
    let mut updated_at = 5u64;
    let mut size: Option<u64> = None;
    assert!(observe_context_window(&mut segs, &mut updated_at, &mut size, Some(200_000), 0, 10));
    assert_eq!(size, Some(200_000));
    assert_eq!(updated_at, 5);
    assert!(segs.is_empty());
    assert!(observe_context_window(&mut segs, &mut updated_at, &mut size, Some(200_000), 1_000, 20));
    assert_eq!(segs, vec![1_000]);
    assert_eq!(updated_at, 20);
    assert!(!observe_context_window(&mut segs, &mut updated_at, &mut size, None, 900, 30));
    assert_eq!(updated_at, 20);
    assert_eq!(size, Some(200_000));
}

#[test]
fn unsigned_now_clamps_negative() {
    assert_eq!(unsigned_now(-1), 0);
    assert_eq!(unsigned_now(0), 0);
    assert_eq!(unsigned_now(1_776_940_000), 1_776_940_000);
}

#[test]
fn prune_drops_entries_older_than_ttl() {
    // Entries updated at 900 ("fresh") and 100 ("stale"), pruned at 1000 with ttl 500.
    assert!(session_kept("fresh", 900, 1000, 500, None));
    assert!(!session_kept("stale", 100, 1000, 500, None));
}

#[test]
fn prune_never_removes_current_session() {
    assert!(session_kept("current", 0, 1_000_000, 100, Some("current")));
    assert!(!session_kept("stale", 0, 1_000_000, 100, Some("current")));
}

#[test]
fn prune_returns_false_when_nothing_stale() {
    let entries = [("a", 900u64), ("b", 950u64)];
    let kept = entries
        .iter()
        .filter(|(sid, at)| session_kept(sid, *at, 1000, 500, None))
        .count();
    assert_eq!(kept, 2);
}

#[test]
fn prune_keeps_entries_from_the_future() {
    assert!(session_kept("x", 2000, 1000, 0, None));
    assert!(session_kept("x", 500, 1000, 500, None));
    assert!(!session_kept("x", 499, 1000, 500, None));
}

#[test]
fn day_key_of_formats_dates() {
    assert_eq!(day_key_of(Some((1970, 1, 1))), "1970-01-01");
    assert_eq!(day_key_of(Some((2026, 12, 31))), "2026-12-31");
    assert_eq!(day_key_of(Some((12, 3, 4))), "0012-03-04");
    assert_eq!(day_key_of(Some((-5, 3, 4))), "-005-03-04");
    assert_eq!(day_key_of(None), "0000-00-00");
}

#[test]
fn day_key_and_month_prefix_under_utc() {
    // Under UTC the epoch is 1970-01-01; the month prefix is its first seven characters.
    let k = day_key_of(Some((1970, 1, 1)));
    assert_eq!(k, "1970-01-01");
    assert_eq!(month_prefix(&k), "1970-01");
    // Whatever the local zone, the epoch falls on the last day of 1969 or the first of 1970.
    let local = day_key(0);
    assert!(local == "1970-01-01" || local == "1969-12-31", "got {}", local);
    assert_eq!(month_prefix(&local), local[..7].to_string());
}

#[test]
fn pick_session_defaults_to_most_recent() {
    // Sessions in key order: "new" (updated at 200), then "old" (100).
    let updated = [200u64, 100];
    assert_eq!(latest_index(&updated), Some(0));
}

#[test]
fn latest_index_takes_last_of_equal_times() {
    assert_eq!(latest_index(&[]), None);
    assert_eq!(latest_index(&[5]), Some(0));
    assert_eq!(latest_index(&[3, 9, 9, 1]), Some(2));
    assert_eq!(latest_index(&[1, 2, 3]), Some(2));
}

#[test]
fn sanitize_twice_is_sanitize_once() {
    for id in ["a/b c", "ünï-_x", "../..//x"] {
        let once = sanitize(id).unwrap();
        assert_eq!(sanitize(&once), Some(once.clone()));
    }
}

#[test]
fn observing_the_same_usage_twice_changes_nothing() {
    let mut segs = vec![150u64];
    assert!(update_segments(&mut segs, 60));
    assert!(!update_segments(&mut segs, 60));
    assert_eq!(segs, vec![150, 60]);
}

#[test]
fn sanitize_drops_dots_slashes_and_spaces() {
    assert_eq!(sanitize("../a b"), Some("ab".to_string()));
    assert_eq!(sanitize("../"), None);
    assert_eq!(sanitize("x\ty\nz"), Some("xyz".to_string()));
}

#[test]
fn day_key_is_within_a_day_of_utc() {
    // 2024-01-02 12:00 UTC: any zone (offset under a day) gives Jan 1, 2 or 3.
    let k = day_key(1704196800);
    assert!(k == "2024-01-01" || k == "2024-01-02" || k == "2024-01-03", "got {}", k);
    assert_eq!(k.len(), 10);
}
