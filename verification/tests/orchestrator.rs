//! The run-all aggregation policy, the run-one path, and the thin
//! configuration and posting validators.

use show_scrape::config::{AppConfig, ConfigStore};
use show_scrape::dates::CivilDate;
use show_scrape::facebook::{facebook_status_from, FacebookError, FbPoster};
use show_scrape::models::{Event, ExtMap};
use show_scrape::scrape::{fail_if_empty, find_scraper, run_all, run_single, ScrapeError};

const TODAY: CivilDate = CivilDate { year: 2025, month: 1, day: 1 };

fn sample_event(id: &str) -> Event {
    Event {
        id: id.to_string(),
        source: "a".to_string(),
        venue_id: "a".to_string(),
        venue_name: None,
        venue_url: None,
        start_local: None,
        start_utc: "2026-03-10T12:00:00+00:00".to_string(),
        doors_local: None,
        artists: vec!["Act".to_string()],
        is_all_ages: None,
        ticket_url: None,
        event_url: None,
        price_min_cents: None,
        price_max_cents: None,
        currency: None,
        tags: Vec::new(),
        scraped_at_utc: "2025-01-01T00:00:00+00:00".to_string(),
        extra: ExtMap { entries: Vec::new() },
    }
}

#[test]
fn one_success_carries_the_run_and_failures_are_traced() {
    let results = vec![
        (
            "a".to_string(),
            Ok(vec![sample_event("e1"), sample_event("e2"), sample_event("e3")]),
        ),
        (
            "b".to_string(),
            Err(ScrapeError::Http("connection refused".to_string())),
        ),
    ];
    let outcome = run_all(results).expect("one adapter succeeded");
    assert_eq!(outcome.events.len(), 3);
    assert_eq!(outcome.failures.len(), 1);
    assert_eq!(outcome.failures[0].0, "b");
    assert_eq!(outcome.failures[0].1, "connection refused");
}

#[test]
fn all_empty_is_success_not_failure() {
    let results: Vec<(String, Result<Vec<Event>, ScrapeError>)> = vec![
        ("a".to_string(), Ok(Vec::new())),
        ("b".to_string(), Ok(Vec::new())),
    ];
    let outcome = run_all(results).expect("nothing scheduled is not a failure");
    assert!(outcome.events.is_empty());
    assert!(outcome.failures.is_empty());
}

#[test]
fn only_a_run_where_every_adapter_failed_is_an_error() {
    let results: Vec<(String, Result<Vec<Event>, ScrapeError>)> = vec![
        ("a".to_string(), Err(ScrapeError::Http("timeout".to_string()))),
        (
            "b".to_string(),
            Err(ScrapeError::NoEvents("no events scraped for b".to_string())),
        ),
    ];
    let err = run_all(results).expect_err("every adapter failed");
    assert_eq!(
        err.message(),
        "scrapers failed: a: timeout; b: no events scraped for b"
    );
}

#[test]
fn empty_registry_runs_to_an_empty_success() {
    let outcome = run_all(Vec::new()).expect("no adapters, no failure");
    assert!(outcome.events.is_empty());
    assert!(outcome.failures.is_empty());
}

#[test]
fn run_single_propagates_the_adapter_outcome() {
    let err = run_single("nowhere", Ok(String::new()), TODAY, "t").expect_err("unknown id");
    assert_eq!(err.message(), "unknown venue id: nowhere");

    let err = run_single(
        "treefort",
        Err("dns failure".to_string()),
        TODAY,
        "t",
    )
    .expect_err("fetch failed");
    assert_eq!(err.message(), "dns failure");

    let events = run_single("treefort", Ok("<html></html>".to_string()), TODAY, "t")
        .expect("fetch succeeded");
    assert!(events.is_empty());

    assert!(find_scraper("revolution").is_some());
    assert!(find_scraper("venus").is_none());
}

#[test]
fn fail_if_empty_flags_a_broken_scraper() {
    let err = fail_if_empty::<u32>("treefort", Vec::new()).expect_err("zero extracted");
    assert_eq!(err.message(), "no events scraped for treefort");
    let ok = fail_if_empty("treefort", vec![1u32, 2u32]).expect("events extracted");
    assert_eq!(ok, vec![1, 2]);
}

#[test]
fn config_store_reads_and_updates_in_memory() {
    let mut store = ConfigStore::load(None);
    assert!(store.read().facebook_access_token.is_none());

    let mut cfg = AppConfig::default();
    cfg.facebook_access_token = Some("SECRET-REDACTED".to_string());
    cfg.facebook_group_id = Some("g-1".to_string());
    let updated = store.update(cfg);
    assert_eq!(updated.facebook_group_id.as_deref(), Some("g-1"));
    assert_eq!(store.read().facebook_group_id.as_deref(), Some("g-1"));

    let reloaded = ConfigStore::load(Some(store.read().clone()));
    assert_eq!(reloaded.read().facebook_group_id.as_deref(), Some("g-1"));
}

#[test]
fn poster_validation_reports_the_missing_piece() {
    let mut cfg = AppConfig::default();
    assert!(matches!(
        FbPoster::from_config(&cfg),
        Err(FacebookError::MissingToken)
    ));

    cfg.facebook_access_token = Some("   ".to_string());
    assert!(matches!(
        FbPoster::from_config(&cfg),
        Err(FacebookError::MissingToken)
    ));

    cfg.facebook_access_token = Some(" SECRET-REDACTED ".to_string());
    assert!(matches!(
        FbPoster::from_config(&cfg),
        Err(FacebookError::MissingGroup)
    ));

    cfg.facebook_group_id = Some(" g-1 ".to_string());
    let poster = FbPoster::from_config(&cfg).expect("complete configuration");
    assert_eq!(poster.token(), "SECRET-REDACTED");
    assert_eq!(poster.group_id(), "g-1");
}

#[test]
fn poster_trims_ends_only_never_the_content() {
    let mut cfg = AppConfig::default();
    cfg.facebook_access_token = Some(" SECRET-REDACTED  WITH  SPACES ".to_string());
    cfg.facebook_group_id = Some("g-1".to_string());
    let poster = FbPoster::from_config(&cfg).expect("complete configuration");
    assert_eq!(poster.token(), "SECRET-REDACTED  WITH  SPACES");
}

#[test]
fn status_projection_reflects_the_connection() {
    let mut cfg = AppConfig::default();
    let status = facebook_status_from(&cfg);
    assert!(!status.connected);
    assert!(status.group_id.is_none());

    cfg.facebook_access_token = Some("SECRET-REDACTED".to_string());
    cfg.facebook_user_name = Some("Sam".to_string());
    let status = facebook_status_from(&cfg);
    assert!(status.connected);
    assert_eq!(status.user_name.as_deref(), Some("Sam"));
}
