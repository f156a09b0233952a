//! The normalization helpers on concrete text.

use show_scrape::htmlq::absolute_url;
use show_scrape::dates::extract_date_from_url;
use show_scrape::revolution::normalize_date;
use show_scrape::text::{clean_text, find_first_time, parse_age_flag, parse_named_time, split_artists};

#[test]
fn clean_text_collapses_and_trims() {
    assert_eq!(clean_text("  In   This\tMoment \n"), "In This Moment");
    assert_eq!(clean_text(""), "");
    assert_eq!(clean_text(" \t\n "), "");
    assert_eq!(clean_text("already clean"), "already clean");
}

#[test]
fn clean_text_is_idempotent_on_samples() {
    for raw in ["  a   b ", "x", "", "  mixed \u{a0} spaces  "] {
        let once = clean_text(raw);
        assert_eq!(clean_text(&once), once);
    }
}

#[test]
fn split_artists_handles_the_fixed_separators() {
    assert_eq!(split_artists("Nile, Cryptopsy"), vec!["Nile", "Cryptopsy"]);
    assert_eq!(split_artists("A / B & C + D"), vec!["A", "B", "C", "D"]);
    assert_eq!(split_artists("Alpha with Beta"), vec!["Alpha", "Beta"]);
    assert_eq!(split_artists("Alpha w/ Beta"), vec!["Alpha", "Beta"]);
    assert_eq!(split_artists("Alpha feat. Beta"), vec!["Alpha", "Beta"]);
    assert_eq!(split_artists("Alpha FT. Beta"), vec!["Alpha", "Beta"]);
    assert_eq!(split_artists("Alpha Featuring Beta"), vec!["Alpha", "Beta"]);
    assert_eq!(split_artists("  "), Vec::<String>::new());
    assert_eq!(split_artists("Solo"), vec!["Solo"]);
    assert_eq!(split_artists(",,A,,"), vec!["A"]);
}

#[test]
fn split_artists_keeps_order_and_headliner_first() {
    let r = split_artists("Headliner, Opener One / Opener Two");
    assert_eq!(r[0], "Headliner");
    assert_eq!(r, vec!["Headliner", "Opener One", "Opener Two"]);
}

#[test]
fn parse_age_flag_reads_the_markers() {
    assert_eq!(parse_age_flag("All Ages welcome"), Some(true));
    assert_eq!(parse_age_flag("this show is all-ages"), Some(true));
    assert_eq!(parse_age_flag("21+ only"), Some(false));
    assert_eq!(parse_age_flag("18+"), Some(false));
    assert_eq!(parse_age_flag("21 and over"), Some(false));
    assert_eq!(parse_age_flag("21 & Over"), Some(false));
    assert_eq!(parse_age_flag("no info"), None);
}

#[test]
fn find_first_time_normalizes_the_leftmost_pattern() {
    assert_eq!(find_first_time("Doors 7pm").as_deref(), Some("07:00 PM"));
    assert_eq!(find_first_time("doors: 7:30 PM").as_deref(), Some("07:30 PM"));
    assert_eq!(find_first_time("10/8/2025 8 pm").as_deref(), Some("08:00 PM"));
    assert_eq!(find_first_time("11:15am start").as_deref(), Some("11:15 AM"));
    assert_eq!(find_first_time("nothing here"), None);
    assert_eq!(find_first_time("6pm then 9pm").as_deref(), Some("06:00 PM"));
}

#[test]
fn parse_named_time_scans_labeled_segments() {
    assert_eq!(
        parse_named_time("Doors: 6pm | Show: 7pm", "show").as_deref(),
        Some("07:00 PM")
    );
    assert_eq!(
        parse_named_time("Doors: 6pm | Show: 7pm", "doors").as_deref(),
        Some("06:00 PM")
    );
    assert_eq!(parse_named_time("Show: 7pm", "doors"), None);
    assert_eq!(parse_named_time("doors open early", "doors"), None);
}

#[test]
fn absolute_url_passes_through_and_resolves() {
    assert_eq!(
        absolute_url("https://example.com/shows/", Some("https://tickets.example.com/a".to_string()))
            .as_deref(),
        Some("https://tickets.example.com/a")
    );
    assert_eq!(
        absolute_url("https://example.com/shows/", Some("/shows/pup".to_string())).as_deref(),
        Some("https://example.com/shows/pup")
    );
    assert_eq!(
        absolute_url("https://example.com/shows/", Some("pup".to_string())).as_deref(),
        Some("https://example.com/shows/pup")
    );
    assert_eq!(absolute_url("https://example.com/", None), None);
    assert_eq!(absolute_url("not a base", Some("x".to_string())), None);
}

#[test]
fn normalize_date_drops_a_weekday_prefix() {
    assert_eq!(normalize_date("Tue Oct 7, 2025"), "Oct 7, 2025");
    assert_eq!(normalize_date("October 5, 2025"), "October 5, 2025");
    assert_eq!(normalize_date("  October 5  "), "October 5");
}

#[test]
fn extract_date_from_url_reads_the_first_group() {
    assert_eq!(
        extract_date_from_url(
            "https://www.ticketmaster.com/nile-cryptopsy-boise-idaho-10-05-2025/event/1E0062C2C6801E4A"
        ),
        Some((10, 5, 2025))
    );
    assert_eq!(extract_date_from_url("https://example.com/event/12345"), None);
}
