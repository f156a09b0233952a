//! The venue adapters parsed against captured listing markup.

use show_scrape::dates::CivilDate;
use show_scrape::knitting_factory::KnittingFactoryBoise;
use show_scrape::revolution::Revolution;
use show_scrape::scrape;
use show_scrape::treefort::Treefort;

const TODAY: CivilDate = CivilDate { year: 2025, month: 1, day: 1 };
const SCRAPED_AT: &str = "2025-10-01T00:00:00+00:00";

const TREEFORT_HTML: &str = r#"
    <div class="mh-show-wrapper">
        <div class="mh-show-body group">
            <div class="mh-show-col mh-show-date">
                <div id="dat">10/8/2025</div>
                <div id="doo">DOORS: 7pm</div>
                <div id="age">All Ages</div>
            </div>
            <div class="mh-show-col mh-show-artist" data-link="/shows/pup">
                <a href="/shows/pup">
                    <div class="mh-h1">PUP</div>
                    <div class="mh-s1">Chase Petra</div>
                </a>
            </div>
            <div class="mh-show-col mh-show-ticket">
                <div class="mh-sp-tickets">
                    <a class="fun-button" href="https://link.dice.fm/Ia9b62fa0126">Tickets</a>
                </div>
                <div class="mh-sp-rsvp">
                    <a class="fun-button rsvp" href="https://www.facebook.com/events/1035975867866154">RSVP</a>
                </div>
            </div>
        </div>
    </div>
    <div class="mh-show-wrapper">
        <div class="mh-show-body group">
            <div class="mh-show-col mh-show-date">
                <div id="dat">10/17/2025</div>
                <div id="doo">DOORS: 8pm</div>
                <div id="age">18+</div>
            </div>
            <div class="mh-show-col mh-show-artist" data-link="/shows/desert-dwellers">
                <a href="/shows/desert-dwellers">
                    <div class="mh-h1">Desert Dwellers</div>
                    <div class="mh-s1">David Starfire<br>Deeveaux</div>
                </a>
            </div>
            <div class="mh-show-col mh-show-ticket">
                <div class="mh-sp-tickets">
                    <a class="fun-button" href="https://link.dice.fm/ebc9fcc10bf9">Tickets</a>
                </div>
            </div>
        </div>
    </div>
    "#;

#[test]
fn parses_treefort_events() {
    let scraper = Treefort;
    let events = scraper.parse_document(TREEFORT_HTML, TODAY, SCRAPED_AT);
    assert_eq!(events.len(), 2);

    let first = &events[0];
    assert_eq!(
        first.artists,
        vec!["PUP".to_string(), "Chase Petra".to_string()]
    );
    assert_eq!(
        first.ticket_url.as_deref(),
        Some("https://link.dice.fm/Ia9b62fa0126")
    );
    assert_eq!(
        first.event_url.as_deref(),
        Some("https://treefortmusichall.com/shows/pup")
    );
    assert_eq!(first.is_all_ages, Some(true));
    let start_local =
        chrono::DateTime::parse_from_rfc3339(first.start_local.as_ref().expect("local time"))
            .expect("parse first time");
    assert_eq!(chrono::Timelike::hour(&start_local), 19);

    let second = &events[1];
    assert_eq!(second.artists[0], "Desert Dwellers");
    assert_eq!(second.is_all_ages, Some(false));
    let start_local =
        chrono::DateTime::parse_from_rfc3339(second.start_local.as_ref().expect("local time"))
            .expect("parse second time");
    assert_eq!(chrono::Timelike::hour(&start_local), 20);
}

const REVOLUTION_HTML: &str = r#"
    <div class="tw-section">
        <div class="list-view-item event-container">
            <div class="event-details">
                <div class="tw-name"><a href="https://cttouringid.com/tm-event/in-this-moment-2/">In This Moment</a></div>
                <div class="tw-venue-details">
                    <span class="tw-venue-name">Revolution Concert House and Event Center</span>
                </div>
                <div class="tw-date-time">
                    <span class="tw-event-date">Tue Oct 7, 2025</span>
                </div>
                <div class="tw-event-time">
                    <span class="tw-event-door-time">Doors: 5:30 pm</span>
                    <span class="tw-event-time">Show: 6:30 pm</span>
                </div>
            </div>
            <section class="ticket-price">
                <a class="button tw-buy-tix-btn" href="https://www.ticketmaster.com/event/1E0062D4A10A4465">Buy Tickets</a>
            </section>
        </div>
    </div>
    <div class="tw-section">
        <div class="list-view-item event-container">
            <div class="event-details">
                <div class="tw-name"><a href="https://cttouringid.com/tm-event/skydxddy/">SkyDxddy</a></div>
                <div class="tw-venue-details">
                    <span class="tw-venue-name">Revolution Concert House and Event Center</span>
                </div>
                <div class="tw-date-time">
                    <span class="tw-event-date">Wed Oct 8, 2025</span>
                </div>
                <div class="tw-event-time">
                    <span class="tw-event-door-time">Doors: 7:00 pm</span>
                    <span class="tw-event-time">Show: 8:00 pm</span>
                </div>
            </div>
            <section class="ticket-price">
                <a class="button tw-buy-tix-btn" href="https://www.ticketmaster.com/event/1E0062F205FE6291">Buy Tickets</a>
            </section>
        </div>
    </div>
    <div class="tw-section">
        <div class="list-view-item event-container">
            <div class="event-details">
                <div class="tw-name"><a href="https://cttouringid.com/tm-event/story-pirates/">Story Pirates</a></div>
                <div class="tw-venue-details">
                    <span class="tw-venue-name">Another Venue</span>
                </div>
                <div class="tw-date-time">
                    <span class="tw-event-date">Tue Oct 21, 2025</span>
                </div>
                <div class="tw-event-time"><span class="tw-event-time">Show: 6:00 pm</span></div>
            </div>
            <section class="ticket-price">
                <a class="button tw-buy-tix-btn" href="https://www.ticketmaster.com/event/1E0062EAE1D15A9F">Buy Tickets</a>
            </section>
        </div>
    </div>
    "#;

#[test]
fn parses_revolution_events() {
    let scraper = Revolution;
    let events = scraper.parse_document(REVOLUTION_HTML, TODAY, SCRAPED_AT);
    assert_eq!(
        events.len(),
        2,
        "should capture only Revolution Concert House events"
    );

    let first = &events[0];
    assert_eq!(first.artists, vec!["In This Moment".to_string()]);
    assert_eq!(
        first.ticket_url.as_deref(),
        Some("https://www.ticketmaster.com/event/1E0062D4A10A4465")
    );
    let start_str = first.start_local.as_ref().expect("has local time");
    let start_local = chrono::DateTime::parse_from_rfc3339(start_str).expect("parse local time");
    assert_eq!(chrono::Datelike::year(&start_local), 2025);
    assert_eq!(chrono::Datelike::month(&start_local), 10);
    assert_eq!(chrono::Datelike::day(&start_local), 7);
    assert_eq!(chrono::Timelike::hour(&start_local), 18);
    assert_eq!(chrono::Timelike::minute(&start_local), 30);

    let second = &events[1];
    assert_eq!(second.artists, vec!["SkyDxddy".to_string()]);
    let second_start = chrono::DateTime::parse_from_rfc3339(
        second.start_local.as_ref().expect("has local time"),
    )
    .expect("parse second local time");
    assert_eq!(chrono::Timelike::hour(&second_start), 20);
    assert_eq!(chrono::Timelike::minute(&second_start), 0);
}

const KNITTING_HTML: &str = r#"
    <div class="tw-section">
        <div class="row">
            <div class="five columns"></div>
            <div class="seven columns">
                <div class="tw-name"><a href="https://bo.knittingfactory.com/tm-event/nile/">Nile, Cryptopsy</a></div>
                <div class="tw-date-time">
                    <span class="tw-event-date-complete">
                        <span class="tw-event-date">October 5</span>
                        <span class="tw-venue-name"> / Knitting Factory - Boise </span>
                    </span>
                    <div class="event-timings">
                        <span class="tw-event-time"> Show: 7:00 pm </span>
                    </div>
                </div>
                <div class="tw-info-price-buy-tix">
                    <a class="button tw-more-info-btn" href="https://bo.knittingfactory.com/tm-event/nile/">Info</a>
                    <a class="button tw-buy-tix-btn" href="https://www.ticketmaster.com/nile-cryptopsy-boise-idaho-10-05-2025/event/1E0062C2C6801E4A">Buy Tickets</a>
                </div>
            </div>
        </div>
    </div>
    <div class="tw-section">
        <div class="row">
            <div class="five columns"></div>
            <div class="seven columns">
                <div class="tw-name"><a href="https://bo.knittingfactory.com/tm-event/oddisee/">Oddisee</a></div>
                <div class="tw-date-time">
                    <span class="tw-event-date-complete">
                        <span class="tw-event-date">October 7</span>
                        <span class="tw-venue-name"> / Neurolux Lounge </span>
                    </span>
                    <div class="event-timings">
                        <span class="tw-event-time"> Show: 8:00 pm </span>
                    </div>
                </div>
                <div class="tw-info-price-buy-tix">
                    <a class="button tw-more-info-btn" href="https://bo.knittingfactory.com/tm-event/oddisee/">Info</a>
                    <a class="button tw-buy-tix-btn" href="https://www.ticketmaster.com/oddisee-boise-idaho-10-07-2025/event/1E0062DECE4A4EC2">Buy Tickets</a>
                </div>
            </div>
        </div>
    </div>
    "#;

#[test]
fn parses_knitting_factory_events() {
    let scraper = KnittingFactoryBoise;
    let events = scraper.parse_document(KNITTING_HTML, TODAY, SCRAPED_AT);
    assert_eq!(
        events.len(),
        1,
        "only knitting factory events should be captured"
    );

    let event = &events[0];
    assert_eq!(
        event.artists,
        vec!["Nile".to_string(), "Cryptopsy".to_string()]
    );
    assert_eq!(event.venue_name.as_deref(), Some("Knitting Factory Boise"));
    assert_eq!(event.ticket_url.as_deref(), Some("https://www.ticketmaster.com/nile-cryptopsy-boise-idaho-10-05-2025/event/1E0062C2C6801E4A"));

    let start_local = event.start_local.as_ref().expect("local time");
    assert!(start_local.starts_with("2025-10-05T19:00:00"));
}

#[test]
fn adapter_identity_fields_are_stamped() {
    let scraper = Treefort;
    let events = scraper.parse_document(TREEFORT_HTML, TODAY, SCRAPED_AT);
    for e in &events {
        assert_eq!(e.venue_id, "treefort");
        assert_eq!(e.source, "treefort");
        assert_eq!(e.venue_name.as_deref(), Some("Treefort Music Hall"));
        assert_eq!(e.id.len(), 64);
        assert!(e.id.chars().all(|c| c.is_ascii_hexdigit()));
    }
}

#[test]
fn parse_card_reads_one_card_or_nothing() {
    let scraper = Treefort;
    let cards: Vec<&str> = TREEFORT_HTML.split("</div>\n    <div class=\"mh-show-wrapper\">").collect();
    // A full card yields the same event parse_document emits first.
    let from_doc = scraper.parse_document(TREEFORT_HTML, TODAY, SCRAPED_AT);
    let first_card = format!("{}</div>", cards[0]);
    let from_card = scraper
        .parse_card(&first_card, TODAY, SCRAPED_AT)
        .expect("recognizable card");
    assert_eq!(from_card.id, from_doc[0].id);
    assert_eq!(from_card.artists, from_doc[0].artists);
    // A card without a date line yields nothing.
    assert!(scraper
        .parse_card("<div class=\"mh-show-wrapper\"><p>no date</p></div>", TODAY, SCRAPED_AT)
        .is_none());
}

#[test]
fn unrecognized_markup_yields_empty_list() {
    let scraper = Treefort;
    let events = scraper.parse_document("<html><body><p>maintenance</p></body></html>", TODAY, SCRAPED_AT);
    assert!(events.is_empty());
}

#[test]
fn list_scrapers_names_the_active_adapters() {
    let infos = scrape::list_scrapers();
    let ids: Vec<&str> = infos.iter().map(|i| i.id.as_str()).collect();
    assert_eq!(ids, vec!["treefort", "revolution", "knitboise"]);
    assert_eq!(infos[0].name, "Treefort Music Hall");
    assert_eq!(infos[2].url, "https://bo.knittingfactory.com/");
}
