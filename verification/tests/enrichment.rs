//! The enrichment cache protocol, normalization, tag merging and the
//! rate-limit gate.

use show_scrape::enrich::{
    artist_key, enrich_event, extract_genres, profile_from_doc, ArtistDoc, ArtistProfile,
    EnrichmentCache, RateGate, RATE_LIMIT_WINDOW_MS,
};
use show_scrape::models::{Event, ExtMap, ExtScalar, ExtValue};

fn doc(genres: &[&str], tags: &[&str]) -> ArtistDoc {
    ArtistDoc {
        id: "mbid-1".to_string(),
        name: "Sample Artist".to_string(),
        disambiguation: None,
        genres: genres.iter().map(|s| s.to_string()).collect(),
        tags: tags.iter().map(|s| s.to_string()).collect(),
    }
}

fn event_with_tags(tags: &[&str]) -> Event {
    Event {
        id: "id-1".to_string(),
        source: "test".to_string(),
        venue_id: "test".to_string(),
        venue_name: None,
        venue_url: None,
        start_local: None,
        start_utc: "2026-03-10T12:00:00+00:00".to_string(),
        doors_local: None,
        artists: vec!["Sample Artist".to_string()],
        is_all_ages: None,
        ticket_url: None,
        event_url: None,
        price_min_cents: None,
        price_max_cents: None,
        currency: None,
        tags: tags.iter().map(|s| s.to_string()).collect(),
        scraped_at_utc: "2025-01-01T00:00:00+00:00".to_string(),
        extra: ExtMap { entries: Vec::new() },
    }
}

/// One protocol step as the surrounding application drives it: volatile
/// tier, then durable tier, then the remote lookup, every outcome written
/// back to both tiers.
fn lookup(
    cache: &mut EnrichmentCache,
    durable: &mut Vec<(String, Option<ArtistProfile>)>,
    name: &str,
    remote: &mut dyn FnMut() -> ArtistDoc,
    remote_calls: &mut u32,
) -> Option<ArtistProfile> {
    let key = artist_key(name);
    if let Some(hit) = cache.get(&key) {
        return hit.clone();
    }
    if let Some((_, stored)) = durable.iter().find(|(k, _)| *k == key) {
        let stored = stored.clone();
        cache.put(&key, stored.clone());
        return stored;
    }
    *remote_calls += 1;
    let profile = profile_from_doc(remote());
    cache.put(&key, profile.clone());
    durable.push((key, profile.clone()));
    profile
}

#[test]
fn zero_tag_match_is_normalized_to_no_match() {
    assert!(profile_from_doc(doc(&[], &[])).is_none());
    assert!(profile_from_doc(doc(&[], &["   "])).is_none());
    let some = profile_from_doc(doc(&["metal"], &[])).expect("match with taxonomy");
    assert_eq!(some.genres, vec!["metal"]);
}

#[test]
fn negative_result_is_cached_and_never_refetched() {
    let mut cache = EnrichmentCache::new();
    let mut durable: Vec<(String, Option<ArtistProfile>)> = Vec::new();
    let mut remote_calls: u32 = 0;
    let mut remote = || doc(&[], &[]);

    let first = lookup(&mut cache, &mut durable, "Obscure Act", &mut remote, &mut remote_calls);
    assert!(first.is_none());
    assert_eq!(remote_calls, 1);

    let second = lookup(&mut cache, &mut durable, "Obscure Act", &mut remote, &mut remote_calls);
    assert!(second.is_none());
    assert_eq!(remote_calls, 1, "a confirmed no-match must not be re-fetched");
}

#[test]
fn durable_hit_promotes_into_the_volatile_tier() {
    let mut cache = EnrichmentCache::new();
    let key = artist_key("Sample Artist");
    let mut durable = vec![(key.clone(), profile_from_doc(doc(&["metal"], &[])))];
    let mut remote_calls: u32 = 0;
    let mut remote = || doc(&["wrong"], &[]);

    let hit = lookup(&mut cache, &mut durable, "Sample Artist", &mut remote, &mut remote_calls);
    assert_eq!(hit.expect("durable hit").genres, vec!["metal"]);
    assert_eq!(remote_calls, 0);
    assert!(cache.get(&key).is_some(), "the durable hit was promoted");
}

#[test]
fn storing_again_replaces_the_cached_value_for_the_key() {
    let mut cache = EnrichmentCache::new();
    let key = artist_key("Sample Artist");
    cache.put(&key, None);
    assert!(cache.get(&key).expect("cached no-match").is_none());
    let profile = profile_from_doc(doc(&["metal"], &[]));
    cache.put(&key, profile.clone());
    let hit = cache.get(&key).expect("cached").clone().expect("profile");
    assert_eq!(hit.genres, vec!["metal"]);
}

#[test]
fn artist_key_is_trimmed_and_lowercased() {
    assert_eq!(artist_key("  In This  Moment "), "in this  moment");
    assert_eq!(artist_key("PUP"), "pup");
    assert_eq!(artist_key(" MØL "), "møl");
}

#[test]
fn extract_genres_deduplicates_case_insensitively() {
    let d = doc(&["Rock ", "metal"], &["rock", "Metal", "", "doom"]);
    assert_eq!(extract_genres(&d), vec!["Rock", "metal", "doom"]);
}

#[test]
fn enrich_merges_tags_without_duplicates() {
    let event = event_with_tags(&["Rock"]);
    let profile = ArtistProfile {
        id: "mbid-1".to_string(),
        name: "Sample Artist".to_string(),
        disambiguation: Some("the one from Boise".to_string()),
        genres: vec!["rock".to_string(), "metal".to_string()],
    };
    let enriched = enrich_event(event, Some(&profile));
    assert_eq!(enriched.tags, vec!["Rock", "metal"]);

    let (key, value) = &enriched.extra.entries[0];
    assert_eq!(key, "musicbrainz");
    match value {
        ExtValue::Object(fields) => {
            assert_eq!(fields[0].0, "id");
            match &fields[0].1 {
                ExtScalar::Text(s) => assert_eq!(s, "mbid-1"),
                other => panic!("unexpected id field: {:?}", other),
            }
            match &fields[3].1 {
                ExtScalar::TextList(g) => assert_eq!(g, &vec!["rock".to_string(), "metal".to_string()]),
                other => panic!("unexpected genres field: {:?}", other),
            }
        },
        other => panic!("unexpected extension value: {:?}", other),
    }
}

#[test]
fn enrichment_without_a_profile_leaves_the_event_unchanged() {
    let event = event_with_tags(&["Rock"]);
    let enriched = enrich_event(event.clone(), None);
    assert_eq!(enriched.tags, event.tags);
    assert!(enriched.extra.entries.is_empty());
    assert_eq!(enriched.id, event.id);
}

#[test]
fn rate_gate_enforces_the_spacing_floor() {
    let mut gate = RateGate::new();
    assert_eq!(gate.delay_before(5000), 0);

    gate.record(10_000);
    let d = gate.delay_before(10_400);
    assert_eq!(d, 700);
    assert!(10_400 + d >= 10_000 + RATE_LIMIT_WINDOW_MS);

    assert_eq!(gate.delay_before(11_100), 0);
    assert_eq!(gate.delay_before(11_099), 1);
    assert_eq!(gate.delay_before(20_000), 0);
}

#[test]
fn rate_gate_spacing_between_two_queued_callers() {
    let mut gate = RateGate::new();
    let t1: u64 = 50_000;
    gate.record(t1);
    let now: u64 = 50_010;
    let start2 = now + gate.delay_before(now);
    assert!(start2 - t1 >= RATE_LIMIT_WINDOW_MS);
    gate.record(start2);
    let now3 = start2 + 5;
    let start3 = now3 + gate.delay_before(now3);
    assert!(start3 - start2 >= RATE_LIMIT_WINDOW_MS);
}
