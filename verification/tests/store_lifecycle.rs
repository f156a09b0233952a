//! The event store's dedup, lifecycle and bucketing behavior.

use show_scrape::models::{Event, ExtMap};
use show_scrape::store::{bucket_for, bucket_keys, Store, StoreError};

fn sample_event(id: &str, start_utc: &str) -> Event {
    Event {
        id: id.to_string(),
        source: "test".to_string(),
        venue_id: "test".to_string(),
        venue_name: Some("Test Venue".to_string()),
        venue_url: None,
        start_local: None,
        start_utc: start_utc.to_string(),
        doors_local: None,
        artists: vec!["Sample Artist".to_string()],
        is_all_ages: None,
        ticket_url: None,
        event_url: None,
        price_min_cents: None,
        price_max_cents: None,
        currency: None,
        tags: Vec::new(),
        scraped_at_utc: "2025-01-01T00:00:00+00:00".to_string(),
        extra: ExtMap { entries: Vec::new() },
    }
}

#[test]
fn upsert_dedup_keeps_one_row_and_the_first_seen() {
    let mut store = Store::new();
    let ev = sample_event("id-1", "2026-03-10T12:00:00+00:00");
    store.upsert_event(ev.clone(), "2025-01-01T00:00:00+00:00");
    store.upsert_event(ev.clone(), "2025-01-02T00:00:00+00:00");
    store.upsert_event(ev.clone(), "2025-01-03T00:00:00+00:00");
    assert_eq!(store.len(), 1);
    let row = store.get_row("id-1").expect("stored row");
    assert_eq!(row.first_seen_utc, "2025-01-01T00:00:00+00:00");
    assert_eq!(row.last_seen_utc, "2025-01-03T00:00:00+00:00");
    assert!(row.posted_at_utc.is_none());
}

#[test]
fn upsert_replaces_the_payload_on_conflict() {
    let mut store = Store::new();
    let mut ev = sample_event("id-1", "2026-03-10T12:00:00+00:00");
    store.upsert_event(ev.clone(), "t1");
    ev.artists = vec!["Replacement".to_string()];
    store.upsert_event(ev.clone(), "t2");
    let row = store.get_row("id-1").expect("stored row");
    assert_eq!(row.event.artists, vec!["Replacement".to_string()]);
}

#[test]
fn upsert_many_counts_the_batch() {
    let mut store = Store::new();
    let events = vec![
        sample_event("a", "2026-03-10T12:00:00+00:00"),
        sample_event("b", "2026-03-11T12:00:00+00:00"),
        sample_event("a", "2026-03-10T12:00:00+00:00"),
    ];
    let n = store.upsert_many(events, "t1");
    assert_eq!(n, 3);
    assert_eq!(store.len(), 2);
}

#[test]
fn get_event_distinguishes_not_found() {
    let mut store = Store::new();
    store.upsert_event(sample_event("here", "2026-03-10T12:00:00+00:00"), "t1");
    assert!(store.get_event("here").is_ok());
    assert_eq!(store.get_event("absent").unwrap_err(), StoreError::NotFound);
}

#[test]
fn mark_posted_is_one_way_and_the_log_appends() {
    let mut store = Store::new();
    store.upsert_event(sample_event("id-1", "2026-03-10T12:00:00+00:00"), "t0");
    store.mark_posted("id-1", "post-100", "t1");
    store.mark_posted("id-1", "post-200", "t2");
    let row = store.get_row("id-1").expect("stored row");
    assert_eq!(row.posted_at_utc.as_deref(), Some("t1"));
    assert_eq!(store.post_log_len(), 2);
}

#[test]
fn posted_mark_survives_rescrape() {
    let mut store = Store::new();
    store.upsert_event(sample_event("id-1", "2026-03-10T12:00:00+00:00"), "t0");
    store.mark_posted("id-1", "post-100", "t1");
    store.upsert_event(sample_event("id-1", "2026-03-10T12:00:00+00:00"), "t2");
    let row = store.get_row("id-1").expect("stored row");
    assert_eq!(row.posted_at_utc.as_deref(), Some("t1"));
    assert_eq!(row.first_seen_utc, "t0");
    assert_eq!(row.last_seen_utc, "t2");
}

#[test]
fn posted_identity_never_appears_pending_again() {
    let mut store = Store::new();
    store.upsert_event(sample_event("keep", "2026-03-10T12:00:00+00:00"), "t0");
    store.upsert_event(sample_event("posted", "2026-03-10T13:00:00+00:00"), "t0");
    store.mark_posted("posted", "post-1", "t1");

    let pending = store.list_pending_events();
    assert_eq!(pending.len(), 1);
    assert_eq!(pending[0].id, "keep");

    let base = chrono::DateTime::parse_from_rfc3339("2026-03-10T12:00:00+00:00")
        .unwrap()
        .timestamp();
    for now in [base - 86400 * 40, base - 3600, base, base + 3600] {
        let buckets = store.list_pending_bucketed(now);
        for bucket in &buckets.buckets {
            for item in bucket {
                assert_ne!(item.event.id, "posted");
            }
        }
    }
}

#[test]
fn bucket_for_names_the_ranges() {
    assert_eq!(bucket_for(0), "DAY_OF");
    assert_eq!(bucket_for(-3), "DAY_OF");
    assert_eq!(bucket_for(1), "LT_1W");
    assert_eq!(bucket_for(6), "LT_1W");
    assert_eq!(bucket_for(7), "LT_2W");
    assert_eq!(bucket_for(13), "LT_2W");
    assert_eq!(bucket_for(14), "LT_1M");
    assert_eq!(bucket_for(29), "LT_1M");
    assert_eq!(bucket_for(30), "LT_2M");
    assert_eq!(bucket_for(59), "LT_2M");
    assert_eq!(bucket_for(60), "GTE_2M");
    assert_eq!(
        bucket_keys(),
        vec!["DAY_OF", "LT_1W", "LT_2W", "LT_1M", "LT_2M", "GTE_2M"]
    );
}

#[test]
fn bucket_boundaries_place_events_exactly() {
    let t = chrono::DateTime::parse_from_rfc3339("2026-03-10T12:00:00+00:00").unwrap();
    let now = t.timestamp();
    let at = |d: chrono::Duration| (t + d).to_rfc3339();

    let mut store = Store::new();
    store.upsert_event(sample_event("at-now", &at(chrono::Duration::zero())), "s");
    store.upsert_event(
        sample_event(
            "six-days-23h",
            &at(chrono::Duration::days(7) - chrono::Duration::hours(1)),
        ),
        "s",
    );
    store.upsert_event(sample_event("thirteen-days", &at(chrono::Duration::days(13))), "s");
    store.upsert_event(
        sample_event("already-started", &at(-chrono::Duration::seconds(1))),
        "s",
    );

    let buckets = store.list_pending_bucketed(now);
    let ids = |k: usize| -> Vec<String> {
        buckets.buckets[k].iter().map(|i| i.event.id.clone()).collect()
    };
    assert_eq!(ids(0), vec!["at-now"]);
    assert_eq!(ids(1), vec!["six-days-23h"]);
    assert_eq!(ids(2), vec!["thirteen-days"]);
    let all: Vec<String> = (0..6).flat_map(ids).collect();
    assert!(!all.contains(&"already-started".to_string()));
}

#[test]
fn buckets_are_sorted_by_start_ascending() {
    let t = chrono::DateTime::parse_from_rfc3339("2026-03-10T12:00:00+00:00").unwrap();
    let now = t.timestamp();
    let at = |h: i64| (t + chrono::Duration::hours(h)).to_rfc3339();

    let mut store = Store::new();
    store.upsert_event(sample_event("later", &at(30)), "s");
    store.upsert_event(sample_event("sooner", &at(26)), "s");
    store.upsert_event(sample_event("middle", &at(28)), "s");

    let buckets = store.list_pending_bucketed(now);
    let day_bucket: Vec<&str> = buckets.buckets[1]
        .iter()
        .map(|i| i.event.id.as_str())
        .collect();
    assert_eq!(day_bucket, vec!["sooner", "middle", "later"]);
}

#[test]
fn unreadable_starts_are_excluded_from_buckets() {
    let mut store = Store::new();
    store.upsert_event(sample_event("bad-start", "not a timestamp"), "s");
    let buckets = store.list_pending_bucketed(0);
    assert!(buckets.buckets.iter().all(|b| b.is_empty()));
}
