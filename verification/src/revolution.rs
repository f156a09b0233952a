//! The Revolution Concert House adapter: a touring-company listing page
//! that aggregates several venues, so each card's venue label is matched
//! before the card is accepted. What each card yields is pinned exactly
//! over the named selection results.

use vstd::prelude::*;
use crate::dates::{self, CivilDate, LocalStamp, rfc3339_of, utc_of};
use crate::htmlq;
use crate::models::{
    adapter_event_ok, build_event, ensure_extra, extra_matches, headliner_spec, identity_of,
    text_entry_ok, Event, ExtScalar, ExtValue,
};
use crate::text;
use crate::timezone;

verus! {

/// Index of the first space at or after `i`, or the length.
pub open spec fn first_space_idx(t: Seq<char>, i: int) -> int
    decreases t.len() - i,
{
    if i < 0 || i >= t.len() {
        t.len() as int
    } else if t[i] == ' ' {
        i
    } else {
        first_space_idx(t, i + 1)
    }
}

pub open spec fn count_spaces(t: Seq<char>) -> int
    decreases t.len(),
{
    if t.len() == 0 {
        0
    } else {
        (if t.last() == ' ' {
            1int
        } else {
            0int
        }) + count_spaces(t.drop_last())
    }
}

/// What `normalize_date` yields: the cleaned date text with its first
/// token dropped whenever that token is exactly three characters and at
/// least two more tokens follow. (On this venue's labels the dropped
/// token is a weekday abbreviation, but any three-letter first token is
/// dropped — `Oct 7, 2025` loses its month too.)
pub open spec fn normalize_date_spec(s: Seq<char>) -> Seq<char> {
    let t = text::clean_text_spec(s);
    if t.len() >= 4 && count_spaces(t) >= 2 && first_space_idx(t, 0) == 3 {
        t.skip(4)
    } else {
        t
    }
}

/// Drops a three-letter first token from a date label when at least two
/// more tokens follow.
pub fn normalize_date(input: &str) -> (r: String)
    ensures
        r@ == normalize_date_spec(input@),
{
    let cs = text::chars_of(input);
    let t = text::clean_chars(&cs);
    let mut fs: usize = 0;
    while fs < t.len() && t[fs] != ' '
        invariant
            0 <= fs <= t.len(),
            first_space_idx(t@, 0) == first_space_idx(t@, fs as int),
        decreases t.len() - fs,
    {
        fs = fs + 1;
    }
    proof {
        assert(fs as int == first_space_idx(t@, 0));
    }
    let mut spaces: usize = 0;
    let mut i: usize = 0;
    while i < t.len()
        invariant
            0 <= i <= t.len(),
            spaces == count_spaces(t@.take(i as int)),
            spaces <= i,
        decreases t.len() - i,
    {
        proof {
            assert(t@.take(i + 1 as int).drop_last() =~= t@.take(i as int));
            assert(t@.take(i + 1 as int).last() == t@[i as int]);
        }
        if t[i] == ' ' {
            spaces = spaces + 1;
        }
        i = i + 1;
    }
    proof {
        assert(t@.take(t@.len() as int) =~= t@);
    }
    if t.len() >= 4 && spaces >= 2 && fs == 3 {
        let rest = dates::sub_vec(&t, 4);
        text::string_from(&rest)
    } else {
        text::string_from(&t)
    }
}

pub open spec fn rv_url() -> Seq<char> {
    "https://cttouringid.com/tm-venue/revolution-concert-house-and-event-center/"@
}

pub open spec fn rv_venue_ok(card: Seq<char>) -> bool {
    match htmlq::first_text_spec(card, ".tw-venue-name"@) {
        Some(label) => text::contains_sub(text::lower_seq(label), "revolution concert house"@),
        None => false,
    }
}

pub open spec fn rv_artists(card: Seq<char>) -> Seq<Seq<char>> {
    match htmlq::first_text_spec(card, ".tw-name a"@) {
        Some(t) => text::split_artists_spec(t),
        None => Seq::empty(),
    }
}

pub open spec fn rv_date(card: Seq<char>) -> Option<Seq<char>> {
    htmlq::first_text_spec(card, ".tw-event-date"@)
}

pub open spec fn rv_show_block(card: Seq<char>) -> Option<Seq<char>> {
    htmlq::first_text_spec(card, "span.tw-event-time"@)
}

/// The show time: the block's first time pattern, else the time of its
/// `show`-labeled segment.
pub open spec fn rv_show(card: Seq<char>) -> Option<Seq<char>> {
    match rv_show_block(card) {
        Some(b) => match text::first_time_spec(b) {
            Some(t) => Some(t),
            None => text::parse_named_time_spec(b, "show"@),
        },
        None => None,
    }
}

pub open spec fn rv_ticket(card: Seq<char>) -> Option<Seq<char>> {
    htmlq::absolute_url_spec(rv_url(), htmlq::first_attr_of(card, "a.tw-buy-tix-btn"@, "href"@))
}

pub open spec fn rv_link(card: Seq<char>) -> Option<Seq<char>> {
    htmlq::absolute_url_spec(rv_url(), htmlq::first_attr_of(card, ".tw-name a"@, "href"@))
}

pub open spec fn rv_start(card: Seq<char>, today: CivilDate) -> Option<LocalStamp> {
    match rv_date(card) {
        None => None,
        Some(d) => timezone::start_with_url_year(
            normalize_date_spec(d),
            rv_show(card),
            rv_ticket(card),
            "America/Boise"@,
            today,
        ),
    }
}

/// The doors time: the door line's first time pattern, else the time of
/// its `door`-labeled segment.
pub open spec fn rv_door(card: Seq<char>) -> Option<Seq<char>> {
    match htmlq::first_text_spec(card, "span.tw-event-door-time"@) {
        Some(t) => match text::first_time_spec(t) {
            Some(ft) => Some(ft),
            None => text::parse_named_time_spec(t, "door"@),
        },
        None => None,
    }
}

pub open spec fn rv_doors_local(card: Seq<char>, start: LocalStamp) -> Option<Seq<char>> {
    match rv_door(card) {
        Some(d) => timezone::combine_spec(start, d, "America/Boise"@),
        None => None,
    }
}

/// The card's raw-text extension entries, in order: the raw and
/// normalized date labels, then the show block and doors text when
/// present.
pub open spec fn rv_extra(card: Seq<char>) -> Seq<(Seq<char>, Seq<char>)> {
    seq![
        ("date_text"@, rv_date(card)->Some_0),
        ("normalized_date"@, normalize_date_spec(rv_date(card)->Some_0)),
    ] + (match rv_show_block(card) {
        Some(b) => seq![("show_block"@, b)],
        None => Seq::empty(),
    }) + (match rv_door(card) {
        Some(d) => seq![("doors_text"@, d)],
        None => Seq::empty(),
    })
}

/// A card yields an event exactly when its venue label names this
/// concert house, it has an artist line with a nonempty lineup and a
/// date label, and its start resolves.
pub open spec fn rv_accepts(card: Seq<char>, today: CivilDate) -> bool {
    &&& rv_venue_ok(card)
    &&& rv_artists(card).len() > 0
    &&& rv_date(card) is Some
    &&& rv_start(card, today) is Some
}

/// The event an accepted card yields, field by field.
pub open spec fn rv_event_matches(
    e: Event,
    card: Seq<char>,
    today: CivilDate,
    scraped_at: Seq<char>,
) -> bool {
    let start = rv_start(card, today)->Some_0;
    &&& e.id@ == identity_of("revolution"@, rfc3339_of(utc_of(start)), headliner_spec(
        rv_artists(card),
    ))
    &&& e.source@ == "revolution"@
    &&& e.venue_id@ == "revolution"@
    &&& e.venue_name.deep_view() == Some("Revolution Concert House"@)
    &&& e.venue_url.deep_view() == Some(rv_url())
    &&& e.start_local.deep_view() == Some(rfc3339_of(start))
    &&& e.start_utc@ == rfc3339_of(utc_of(start))
    &&& e.doors_local.deep_view() == rv_doors_local(card, start)
    &&& e.artists.deep_view() == rv_artists(card)
    &&& e.is_all_ages is None
    &&& e.ticket_url.deep_view() == rv_ticket(card)
    &&& e.event_url.deep_view() == (match rv_link(card) {
        Some(u) => Some(u),
        None => rv_ticket(card),
    })
    &&& e.price_min_cents is None
    &&& e.price_max_cents is None
    &&& e.currency is None
    &&& e.tags@.len() == 0
    &&& e.scraped_at_utc@ == scraped_at
    &&& extra_matches(e.extra.entries@, rv_extra(card))
}

/// `evs` is exactly the accepted cards' events among cards `0..i`, in
/// card order.
pub open spec fn rv_events_for(
    evs: Seq<Event>,
    cards: Seq<Seq<char>>,
    i: int,
    today: CivilDate,
    scraped_at: Seq<char>,
) -> bool
    decreases i,
{
    if i <= 0 {
        evs.len() == 0
    } else if rv_accepts(cards[i - 1], today) {
        evs.len() > 0 && rv_event_matches(evs.last(), cards[i - 1], today, scraped_at)
            && rv_events_for(evs.drop_last(), cards, i - 1, today, scraped_at)
    } else {
        rv_events_for(evs, cards, i - 1, today, scraped_at)
    }
}

pub struct Revolution;

impl Revolution {
    pub fn venue_id(&self) -> (r: &'static str)
        ensures
            r@ == "revolution"@,
    {
        "revolution"
    }

    pub fn venue_name(&self) -> (r: &'static str)
        ensures
            r@ == "Revolution Concert House"@,
    {
        "Revolution Concert House"
    }

    pub fn venue_url(&self) -> (r: &'static str)
        ensures
            r@ == rv_url(),
    {
        "https://cttouringid.com/tm-venue/revolution-concert-house-and-event-center/"
    }

    /// Reads one show card: the event it yields, or nothing exactly when
    /// the venue label does not match, the lineup or date is missing, or
    /// the start does not resolve.
    pub fn parse_card(&self, card_html: &str, today: CivilDate, scraped_at: &str) -> (r: Option<
        Event,
    >)
        requires
            today.wf(),
        ensures
            match r {
                Some(e) => rv_accepts(card_html@, today) && rv_event_matches(
                    e,
                    card_html@,
                    today,
                    scraped_at@,
                ) && adapter_event_ok(e, "revolution"@, "Revolution Concert House"@, rv_url()),
                None => !rv_accepts(card_html@, today),
            },
    {
        let ghost card = card_html@;
        let venue_label = match htmlq::first_text(card_html, ".tw-venue-name") {
            Some(t) => t,
            None => {
                return None;
            },
        };
        let label_cs = text::chars_of(venue_label.as_str());
        let label_low = text::lower_vec(&label_cs);
        let frag: Vec<char> = text::chars_of("revolution concert house");
        if !text::contains_vec(&label_low, &frag) {
            return None;
        }
        let artists_text = match htmlq::first_text(card_html, ".tw-name a") {
            Some(t) => t,
            None => {
                return None;
            },
        };
        let artists = text::split_artists(artists_text.as_str());
        proof {
            assert(artists.deep_view() == rv_artists(card));
        }
        if artists.len() == 0 {
            return None;
        }
        let date_text = match htmlq::first_text(card_html, ".tw-event-date") {
            Some(t) => t,
            None => {
                return None;
            },
        };
        let normalized_date = normalize_date(date_text.as_str());
        let show_block = htmlq::first_text(card_html, "span.tw-event-time");
        let show_time: Option<String> = match &show_block {
            Some(b) => match text::find_first_time(b.as_str()) {
                Some(t) => Some(t),
                None => text::parse_named_time(b.as_str(), "show"),
            },
            None => None,
        };
        proof {
            assert(show_time.deep_view() == rv_show(card));
        }
        let ticket_url = htmlq::absolute_url(
            self.venue_url(),
            htmlq::first_attr(card_html, "a.tw-buy-tix-btn", "href"),
        );
        let event_url = htmlq::absolute_url(
            self.venue_url(),
            htmlq::first_attr(card_html, ".tw-name a", "href"),
        );
        let show_ref: Option<&str> = match &show_time {
            Some(s) => Some(s.as_str()),
            None => None,
        };
        let ticket_ref: Option<&str> = match &ticket_url {
            Some(s) => Some(s.as_str()),
            None => None,
        };
        let start_local = match timezone::resolve_start_with_url(
            normalized_date.as_str(),
            show_ref,
            ticket_ref,
            "America/Boise",
            today,
        ) {
            Some(ls) => ls,
            None => {
                proof {
                    assert(rv_start(card, today) is None);
                }
                return None;
            },
        };
        proof {
            assert(rv_start(card, today) == Some(start_local));
        }
        let door_time: Option<String> = match htmlq::first_text(
            card_html,
            "span.tw-event-door-time",
        ) {
            Some(t) => match text::find_first_time(t.as_str()) {
                Some(ft) => Some(ft),
                None => text::parse_named_time(t.as_str(), "door"),
            },
            None => None,
        };
        proof {
            assert(door_time.deep_view() == rv_door(card));
        }
        let doors_local: Option<String> = match &door_time {
            Some(d) => timezone::combine_with_date(&start_local, d.as_str(), "America/Boise"),
            None => None,
        };
        let mut extra: Vec<(String, ExtValue)> = Vec::new();
        let ghost mut expected: Seq<(Seq<char>, Seq<char>)> = seq![
            ("date_text"@, date_text@),
            ("normalized_date"@, normalized_date@),
        ];
        extra.push(
            (
                <String as vstd::string::StringExecFns>::from_str("date_text"),
                ExtValue::Scalar(ExtScalar::Text(date_text.clone())),
            ),
        );
        extra.push(
            (
                <String as vstd::string::StringExecFns>::from_str("normalized_date"),
                ExtValue::Scalar(ExtScalar::Text(normalized_date.clone())),
            ),
        );
        proof {
            assert(extra_matches(extra@, expected));
        }
        if let Some(b) = &show_block {
            extra.push(
                (
                    <String as vstd::string::StringExecFns>::from_str("show_block"),
                    ExtValue::Scalar(ExtScalar::Text(b.clone())),
                ),
            );
            proof {
                expected = expected + seq![("show_block"@, b@)];
                assert(extra_matches(extra@, expected));
            }
        }
        if let Some(d) = &door_time {
            extra.push(
                (
                    <String as vstd::string::StringExecFns>::from_str("doors_text"),
                    ExtValue::Scalar(ExtScalar::Text(d.clone())),
                ),
            );
            proof {
                expected = expected + seq![("doors_text"@, d@)];
                assert(extra_matches(extra@, expected));
            }
        }
        proof {
            assert(expected =~= rv_extra(card));
        }
        let ev = build_event(
            self.venue_id(),
            self.venue_name(),
            self.venue_url(),
            &start_local,
            artists,
            ticket_url,
            event_url,
            None,
            doors_local,
            ensure_extra(extra),
            scraped_at.to_owned(),
        );
        proof {
            assert(rv_event_matches(ev, card, today, scraped_at@));
            assert(adapter_event_ok(ev, "revolution"@, "Revolution Concert House"@, rv_url()));
        }
        Some(ev)
    }

    /// Reads the venue's show cards out of fetched markup: exactly the
    /// accepted cards' events, in card order.
    #[verifier::rlimit(90)]
    pub fn parse_document(&self, html: &str, today: CivilDate, scraped_at: &str) -> (r: Vec<Event>)
        requires
            today.wf(),
        ensures
            rv_events_for(
                r@,
                htmlq::outer_htmls_of(html@, "div.tw-section"@),
                htmlq::outer_htmls_of(html@, "div.tw-section"@).len() as int,
                today,
                scraped_at@,
            ),
            forall|i: int|
                0 <= i < r@.len() ==> adapter_event_ok(
                    #[trigger] r@[i],
                    "revolution"@,
                    "Revolution Concert House"@,
                    rv_url(),
                ),
    {
        let cards = htmlq::outer_htmls(html, "div.tw-section");
        let ghost cdv = cards.deep_view();
        let mut events: Vec<Event> = Vec::new();
        let mut c: usize = 0;
        while c < cards.len()
            invariant
                0 <= c <= cards.len(),
                cdv == cards.deep_view(),
                cdv.len() == cards@.len(),
                forall|j: int| 0 <= j < cards@.len() ==> cdv[j] == #[trigger] cards@[j]@,
                today.wf(),
                rv_events_for(events@, cdv, c as int, today, scraped_at@),
                forall|i: int|
                    0 <= i < events@.len() ==> adapter_event_ok(
                        #[trigger] events@[i],
                        "revolution"@,
                        "Revolution Concert House"@,
                        rv_url(),
                    ),
            decreases cards.len() - c,
        {
            match self.parse_card(cards[c].as_str(), today, scraped_at) {
                Some(ev) => {
                    let ghost before = events@;
                    events.push(ev);
                    proof {
                        assert(events@.last() == ev);
                        assert(events@.drop_last() =~= before);
                    }
                },
                None => {},
            }
            c = c + 1;
        }
        events
    }
}

} // verus!
