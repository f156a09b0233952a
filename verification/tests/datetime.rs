//! Dates, times, zone resolution and the content identity.

use show_scrape::dates::{
    epoch_seconds, parse_naive_date, parse_rfc3339_epoch, to_rfc3339, CivilDate, CivilTime,
    LocalStamp,
};
use show_scrape::models::{build_event, empty_extra, ExtMap};
use show_scrape::timezone::parse_datetime;
use sha2::Digest;

const TODAY: CivilDate = CivilDate { year: 2025, month: 6, day: 15 };

fn date(y: i32, m: u32, d: u32) -> CivilDate {
    CivilDate { year: y, month: m, day: d }
}

#[test]
fn parse_naive_date_accepts_the_fixed_formats() {
    assert_eq!(parse_naive_date("10/8/2025", TODAY), Some(date(2025, 10, 8)));
    assert_eq!(parse_naive_date("10/08/25", TODAY), Some(date(2025, 10, 8)));
    assert_eq!(parse_naive_date("Wednesday 10/8/2025", TODAY), Some(date(2025, 10, 8)));
    assert_eq!(parse_naive_date("Wed 10/8/2025", TODAY), Some(date(2025, 10, 8)));
    assert_eq!(parse_naive_date("October 5, 2025", TODAY), Some(date(2025, 10, 5)));
    assert_eq!(parse_naive_date("Oct 5, 2025", TODAY), Some(date(2025, 10, 5)));
    assert_eq!(parse_naive_date("not a date", TODAY), None);
    assert_eq!(parse_naive_date("2/30/2025", TODAY), None);
}

#[test]
fn two_digit_years_pivot_like_the_reference() {
    assert_eq!(parse_naive_date("12/31/68", TODAY), Some(date(2068, 12, 31)));
    assert_eq!(parse_naive_date("1/1/69", TODAY), Some(date(1969, 1, 1)));
}

#[test]
fn leap_days_are_validated() {
    assert_eq!(parse_naive_date("2/29/2024", TODAY), Some(date(2024, 2, 29)));
    assert_eq!(parse_naive_date("2/29/2025", TODAY), None);
    // Year-less February 29 in a non-leap current year resolves to nothing.
    assert_eq!(parse_naive_date("February 29", TODAY), None);
}

#[test]
fn weekday_prefix_must_agree_with_the_date() {
    // 2025-10-08 is a Wednesday.
    assert_eq!(parse_naive_date("Tuesday 10/8/2025", TODAY), None);
}

#[test]
fn yearless_dates_assume_the_current_year_and_roll_forward() {
    // After June 15: an August date stays in the current year.
    assert_eq!(parse_naive_date("August 2", TODAY), Some(date(2025, 8, 2)));
    // A February date has already passed and rolls into the next year.
    assert_eq!(parse_naive_date("February 2", TODAY), Some(date(2026, 2, 2)));
    // The same day is not rolled.
    assert_eq!(parse_naive_date("June 15", TODAY), Some(date(2025, 6, 15)));
}

#[test]
fn rfc3339_rendering_matches_the_reference_parser() {
    let ls = LocalStamp {
        date: date(2025, 10, 5),
        time: CivilTime { hour: 19, minute: 0, second: 0 },
        offset_seconds: -6 * 3600,
    };
    let s = to_rfc3339(&ls);
    assert_eq!(s, "2025-10-05T19:00:00-06:00");
    let reference = chrono::DateTime::parse_from_rfc3339(&s).expect("reference parse");
    assert_eq!(reference.timestamp(), epoch_seconds(&ls));
}

#[test]
fn rfc3339_parsing_agrees_with_the_reference() {
    for s in [
        "2025-10-05T19:00:00-06:00",
        "2025-10-05T19:00:00+00:00",
        "2026-02-28T23:59:59Z",
        "2024-02-29T00:00:00Z",
        "2025-07-01T12:30:45.123456789+05:30",
    ] {
        let reference = chrono::DateTime::parse_from_rfc3339(s).expect("reference parse");
        assert_eq!(parse_rfc3339_epoch(s), Some(reference.timestamp()), "on {s}");
    }
    assert_eq!(parse_rfc3339_epoch("2025-13-05T19:00:00Z"), None);
    assert_eq!(parse_rfc3339_epoch("2025-02-30T19:00:00Z"), None);
    assert_eq!(parse_rfc3339_epoch("garbage"), None);
    assert_eq!(parse_rfc3339_epoch("2025-10-05T19:00:00"), None);
}

#[test]
fn ambiguous_fallback_time_resolves_to_the_earlier_instant() {
    // America/Boise leaves daylight time on 2025-11-02: 01:30 occurs twice.
    let resolved = parse_datetime("11/2/2025", Some("1:30 AM"), "America/Boise", TODAY)
        .expect("ambiguous time resolves");
    assert_eq!(resolved.offset_seconds, -6 * 3600, "the earlier instant is still on daylight time");
    assert_eq!(to_rfc3339(&resolved), "2025-11-02T01:30:00-06:00");
}

#[test]
fn gap_time_produces_no_event() {
    // America/Boise enters daylight time on 2025-03-09: 02:30 never occurs.
    assert_eq!(
        parse_datetime("3/9/2025", Some("2:30 AM"), "America/Boise", TODAY),
        None
    );
    // The same clock time the day before is fine.
    assert!(parse_datetime("3/8/2025", Some("2:30 AM"), "America/Boise", TODAY).is_some());
}

#[test]
fn unknown_zone_produces_no_event() {
    assert_eq!(
        parse_datetime("10/8/2025", Some("7:00 PM"), "Nowhere/Special", TODAY),
        None
    );
}

#[test]
fn identity_is_deterministic_across_differing_other_fields() {
    let start = LocalStamp {
        date: date(2025, 10, 8),
        time: CivilTime { hour: 19, minute: 0, second: 0 },
        offset_seconds: -6 * 3600,
    };
    let e1 = build_event(
        "treefort",
        "Treefort Music Hall",
        "https://treefortmusichall.com/shows/",
        &start,
        vec!["PUP".to_string(), "Chase Petra".to_string()],
        Some("https://tickets.example.com/a".to_string()),
        None,
        Some(true),
        None,
        empty_extra(),
        "2025-10-01T00:00:00+00:00".to_string(),
    );
    let e2 = build_event(
        "treefort",
        "Treefort Music Hall",
        "https://treefortmusichall.com/shows/",
        &start,
        vec!["PUP".to_string()],
        None,
        Some("https://elsewhere.example.com/b".to_string()),
        None,
        Some("2025-10-08T18:00:00-06:00".to_string()),
        empty_extra(),
        "2025-11-01T00:00:00+00:00".to_string(),
    );
    assert_eq!(e1.id, e2.id, "same venue, start and headliner collapse to one identity");

    let other_headliner = build_event(
        "treefort",
        "Treefort Music Hall",
        "https://treefortmusichall.com/shows/",
        &start,
        vec!["Someone Else".to_string()],
        None,
        None,
        None,
        None,
        empty_extra(),
        "2025-10-01T00:00:00+00:00".to_string(),
    );
    assert_ne!(e1.id, other_headliner.id);
}

#[test]
fn build_event_fills_the_canonical_fields() {
    let start = LocalStamp {
        date: date(2025, 10, 8),
        time: CivilTime { hour: 19, minute: 0, second: 0 },
        offset_seconds: -6 * 3600,
    };
    let e = build_event(
        "treefort",
        "Treefort Music Hall",
        "https://treefortmusichall.com/shows/",
        &start,
        Vec::new(),
        Some("https://tickets.example.com/a".to_string()),
        None,
        None,
        None,
        ExtMap { entries: Vec::new() },
        "2025-10-01T00:00:00+00:00".to_string(),
    );
    assert_eq!(e.start_utc, "2025-10-09T01:00:00+00:00");
    assert_eq!(e.start_local.as_deref(), Some("2025-10-08T19:00:00-06:00"));
    assert_eq!(
        e.event_url.as_deref(),
        Some("https://tickets.example.com/a"),
        "the event URL defaults to the ticket URL"
    );
    // The reference hash of "treefort|2025-10-09T01:00:00+00:00|unknown".
    assert_eq!(e.id.len(), 64);
    let expected = {
        let mut h = sha2::Sha256::new();
        h.update(b"treefort|2025-10-09T01:00:00+00:00|unknown");
        let out = h.finalize();
        out.iter().map(|b| format!("{:02x}", b)).collect::<String>()
    };
    assert_eq!(e.id, expected);
}

#[test]
fn event_title_falls_back_when_no_headliner() {
    let mut e = build_event(
        "treefort",
        "Treefort Music Hall",
        "https://treefortmusichall.com/shows/",
        &LocalStamp {
            date: date(2025, 10, 8),
            time: CivilTime { hour: 19, minute: 0, second: 0 },
            offset_seconds: -6 * 3600,
        },
        vec!["PUP".to_string()],
        None,
        None,
        None,
        None,
        empty_extra(),
        "2025-10-01T00:00:00+00:00".to_string(),
    );
    assert_eq!(e.title(), "PUP");
    e.artists = Vec::new();
    assert_eq!(e.title(), "Untitled Event");
}
