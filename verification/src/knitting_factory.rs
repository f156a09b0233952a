//! The Knitting Factory Boise adapter: the chain's listing page carries
//! shows for several rooms, so each card's venue label is matched before
//! the card is accepted. What each card yields is pinned exactly over
//! the named selection results.

use vstd::prelude::*;
use crate::dates::{CivilDate, LocalStamp, rfc3339_of, utc_of};
use crate::htmlq;
use crate::models::{
    adapter_event_ok, build_event, ensure_extra, extra_matches, headliner_spec, identity_of,
    text_entry_ok, Event, ExtScalar, ExtValue,
};
use crate::text;
use crate::timezone;

verus! {

pub open spec fn kf_url() -> Seq<char> {
    "https://bo.knittingfactory.com/"@
}

pub open spec fn kf_venue_ok(card: Seq<char>) -> bool {
    match htmlq::first_text_spec(card, ".tw-venue-name"@) {
        Some(label) => text::contains_sub(text::lower_seq(label), "knitting factory"@),
        None => false,
    }
}

pub open spec fn kf_artists(card: Seq<char>) -> Seq<Seq<char>> {
    match htmlq::first_text_spec(card, ".tw-name a"@) {
        Some(t) => text::split_artists_spec(t),
        None => Seq::empty(),
    }
}

pub open spec fn kf_date(card: Seq<char>) -> Option<Seq<char>> {
    htmlq::first_text_spec(card, ".tw-event-date"@)
}

pub open spec fn kf_time_block(card: Seq<char>) -> Option<Seq<char>> {
    htmlq::first_text_spec(card, ".tw-event-time"@)
}

/// The show time: the time of the block's `show`-labeled segment, else
/// the block's first time pattern.
pub open spec fn kf_show(card: Seq<char>) -> Option<Seq<char>> {
    match kf_time_block(card) {
        Some(b) => match text::parse_named_time_spec(b, "show"@) {
            Some(t) => Some(t),
            None => text::first_time_spec(b),
        },
        None => None,
    }
}

pub open spec fn kf_ticket(card: Seq<char>) -> Option<Seq<char>> {
    htmlq::absolute_url_spec(kf_url(), htmlq::first_attr_of(card, "a.tw-buy-tix-btn"@, "href"@))
}

pub open spec fn kf_link(card: Seq<char>) -> Option<Seq<char>> {
    htmlq::absolute_url_spec(kf_url(), htmlq::first_attr_of(card, "a.tw-more-info-btn"@, "href"@))
}

pub open spec fn kf_start(card: Seq<char>, today: CivilDate) -> Option<LocalStamp> {
    match kf_date(card) {
        None => None,
        Some(d) => timezone::start_with_url_year(
            d,
            kf_show(card),
            kf_ticket(card),
            "America/Boise"@,
            today,
        ),
    }
}

/// The doors time: the time of the block's `door`-labeled segment.
pub open spec fn kf_door(card: Seq<char>) -> Option<Seq<char>> {
    match kf_time_block(card) {
        Some(b) => text::parse_named_time_spec(b, "door"@),
        None => None,
    }
}

pub open spec fn kf_doors_local(card: Seq<char>, start: LocalStamp) -> Option<Seq<char>> {
    match kf_door(card) {
        Some(d) => timezone::combine_spec(start, d, "America/Boise"@),
        None => None,
    }
}

/// The card's raw-text extension entries, in order: the raw date label,
/// the time block when present, and the resolved doors instant when one
/// was derived.
pub open spec fn kf_extra(card: Seq<char>, start: LocalStamp) -> Seq<(Seq<char>, Seq<char>)> {
    seq![("date_text"@, kf_date(card)->Some_0)] + (match kf_time_block(card) {
        Some(b) => seq![("time_block"@, b)],
        None => Seq::empty(),
    }) + (match kf_doors_local(card, start) {
        Some(d) => seq![("doors_iso"@, d)],
        None => Seq::empty(),
    })
}

/// A card yields an event exactly when its venue label names the
/// Knitting Factory, it has an artist line with a nonempty lineup and a
/// date label, and its start resolves.
pub open spec fn kf_accepts(card: Seq<char>, today: CivilDate) -> bool {
    &&& kf_venue_ok(card)
    &&& kf_artists(card).len() > 0
    &&& kf_date(card) is Some
    &&& kf_start(card, today) is Some
}

/// The event an accepted card yields, field by field.
pub open spec fn kf_event_matches(
    e: Event,
    card: Seq<char>,
    today: CivilDate,
    scraped_at: Seq<char>,
) -> bool {
    let start = kf_start(card, today)->Some_0;
    &&& e.id@ == identity_of("knitboise"@, rfc3339_of(utc_of(start)), headliner_spec(
        kf_artists(card),
    ))
    &&& e.source@ == "knitboise"@
    &&& e.venue_id@ == "knitboise"@
    &&& e.venue_name.deep_view() == Some("Knitting Factory Boise"@)
    &&& e.venue_url.deep_view() == Some(kf_url())
    &&& e.start_local.deep_view() == Some(rfc3339_of(start))
    &&& e.start_utc@ == rfc3339_of(utc_of(start))
    &&& e.doors_local.deep_view() == kf_doors_local(card, start)
    &&& e.artists.deep_view() == kf_artists(card)
    &&& e.is_all_ages is None
    &&& e.ticket_url.deep_view() == kf_ticket(card)
    &&& e.event_url.deep_view() == (match kf_link(card) {
        Some(u) => Some(u),
        None => kf_ticket(card),
    })
    &&& e.price_min_cents is None
    &&& e.price_max_cents is None
    &&& e.currency is None
    &&& e.tags@.len() == 0
    &&& e.scraped_at_utc@ == scraped_at
    &&& extra_matches(e.extra.entries@, kf_extra(card, start))
}

/// `evs` is exactly the accepted cards' events among cards `0..i`, in
/// card order.
pub open spec fn kf_events_for(
    evs: Seq<Event>,
    cards: Seq<Seq<char>>,
    i: int,
    today: CivilDate,
    scraped_at: Seq<char>,
) -> bool
    decreases i,
{
    if i <= 0 {
        evs.len() == 0
    } else if kf_accepts(cards[i - 1], today) {
        evs.len() > 0 && kf_event_matches(evs.last(), cards[i - 1], today, scraped_at)
            && kf_events_for(evs.drop_last(), cards, i - 1, today, scraped_at)
    } else {
        kf_events_for(evs, cards, i - 1, today, scraped_at)
    }
}

pub struct KnittingFactoryBoise;

impl KnittingFactoryBoise {
    pub fn venue_id(&self) -> (r: &'static str)
        ensures
            r@ == "knitboise"@,
    {
        "knitboise"
    }

    pub fn venue_name(&self) -> (r: &'static str)
        ensures
            r@ == "Knitting Factory Boise"@,
    {
        "Knitting Factory Boise"
    }

    pub fn venue_url(&self) -> (r: &'static str)
        ensures
            r@ == kf_url(),
    {
        "https://bo.knittingfactory.com/"
    }

    /// Reads one show card: the event it yields, or nothing exactly when
    /// the venue label does not match, the lineup or date is missing, or
    /// the start does not resolve.
    pub fn parse_card(&self, card_html: &str, today: CivilDate, scraped_at: &str) -> (r: Option<
        Event,
    >)
        requires
            today.wf(),
        ensures
            match r {
                Some(e) => kf_accepts(card_html@, today) && kf_event_matches(
                    e,
                    card_html@,
                    today,
                    scraped_at@,
                ) && adapter_event_ok(e, "knitboise"@, "Knitting Factory Boise"@, kf_url()),
                None => !kf_accepts(card_html@, today),
            },
    {
        let ghost card = card_html@;
        let venue_label = match htmlq::first_text(card_html, ".tw-venue-name") {
            Some(t) => t,
            None => {
                return None;
            },
        };
        let label_cs = text::chars_of(venue_label.as_str());
        let label_low = text::lower_vec(&label_cs);
        let frag: Vec<char> = text::chars_of("knitting factory");
        if !text::contains_vec(&label_low, &frag) {
            return None;
        }
        let artists_text = match htmlq::first_text(card_html, ".tw-name a") {
            Some(t) => t,
            None => {
                return None;
            },
        };
        let artists = text::split_artists(artists_text.as_str());
        proof {
            assert(artists.deep_view() == kf_artists(card));
        }
        if artists.len() == 0 {
            return None;
        }
        let date_text = match htmlq::first_text(card_html, ".tw-event-date") {
            Some(t) => t,
            None => {
                return None;
            },
        };
        let time_block = htmlq::first_text(card_html, ".tw-event-time");
        let show_time: Option<String> = match &time_block {
            Some(b) => match text::parse_named_time(b.as_str(), "show") {
                Some(t) => Some(t),
                None => text::find_first_time(b.as_str()),
            },
            None => None,
        };
        proof {
            assert(show_time.deep_view() == kf_show(card));
        }
        let ticket_url = htmlq::absolute_url(
            self.venue_url(),
            htmlq::first_attr(card_html, "a.tw-buy-tix-btn", "href"),
        );
        let event_url = htmlq::absolute_url(
            self.venue_url(),
            htmlq::first_attr(card_html, "a.tw-more-info-btn", "href"),
        );
        let show_ref: Option<&str> = match &show_time {
            Some(s) => Some(s.as_str()),
            None => None,
        };
        let ticket_ref: Option<&str> = match &ticket_url {
            Some(s) => Some(s.as_str()),
            None => None,
        };
        let start_local = match timezone::resolve_start_with_url(
            date_text.as_str(),
            show_ref,
            ticket_ref,
            "America/Boise",
            today,
        ) {
            Some(ls) => ls,
            None => {
                proof {
                    assert(kf_start(card, today) is None);
                }
                return None;
            },
        };
        proof {
            assert(kf_start(card, today) == Some(start_local));
        }
        let door_named: Option<String> = match &time_block {
            Some(b) => text::parse_named_time(b.as_str(), "door"),
            None => None,
        };
        proof {
            assert(door_named.deep_view() == kf_door(card));
        }
        let doors_local: Option<String> = match &door_named {
            Some(d) => timezone::combine_with_date(&start_local, d.as_str(), "America/Boise"),
            None => None,
        };
        proof {
            assert(doors_local.deep_view() == kf_doors_local(card, start_local));
        }
        let mut extra: Vec<(String, ExtValue)> = Vec::new();
        let ghost mut expected: Seq<(Seq<char>, Seq<char>)> = seq![("date_text"@, date_text@)];
        extra.push(
            (
                <String as vstd::string::StringExecFns>::from_str("date_text"),
                ExtValue::Scalar(ExtScalar::Text(date_text.clone())),
            ),
        );
        proof {
            assert(extra_matches(extra@, expected));
        }
        if let Some(b) = &time_block {
            extra.push(
                (
                    <String as vstd::string::StringExecFns>::from_str("time_block"),
                    ExtValue::Scalar(ExtScalar::Text(b.clone())),
                ),
            );
            proof {
                expected = expected + seq![("time_block"@, b@)];
                assert(extra_matches(extra@, expected));
            }
        }
        if let Some(d) = &doors_local {
            extra.push(
                (
                    <String as vstd::string::StringExecFns>::from_str("doors_iso"),
                    ExtValue::Scalar(ExtScalar::Text(d.clone())),
                ),
            );
            proof {
                expected = expected + seq![("doors_iso"@, d@)];
                assert(extra_matches(extra@, expected));
            }
        }
        proof {
            assert(expected =~= kf_extra(card, start_local));
        }
        let ev = build_event(
            self.venue_id(),
            self.venue_name(),
            self.venue_url(),
            &start_local,
            artists,
            ticket_url,
            event_url,
            None,
            doors_local,
            ensure_extra(extra),
            scraped_at.to_owned(),
        );
        proof {
            assert(kf_event_matches(ev, card, today, scraped_at@));
            assert(adapter_event_ok(ev, "knitboise"@, "Knitting Factory Boise"@, kf_url()));
        }
        Some(ev)
    }

    /// Reads the venue's show cards out of fetched markup: exactly the
    /// accepted cards' events, in card order.
    #[verifier::rlimit(90)]
    pub fn parse_document(&self, html: &str, today: CivilDate, scraped_at: &str) -> (r: Vec<Event>)
        requires
            today.wf(),
        ensures
            kf_events_for(
                r@,
                htmlq::outer_htmls_of(html@, "div.tw-section"@),
                htmlq::outer_htmls_of(html@, "div.tw-section"@).len() as int,
                today,
                scraped_at@,
            ),
            forall|i: int|
                0 <= i < r@.len() ==> adapter_event_ok(
                    #[trigger] r@[i],
                    "knitboise"@,
                    "Knitting Factory Boise"@,
                    kf_url(),
                ),
    {
        let cards = htmlq::outer_htmls(html, "div.tw-section");
        let ghost cdv = cards.deep_view();
        let mut events: Vec<Event> = Vec::new();
        let mut c: usize = 0;
        while c < cards.len()
            invariant
                0 <= c <= cards.len(),
                cdv == cards.deep_view(),
                cdv.len() == cards@.len(),
                forall|j: int| 0 <= j < cards@.len() ==> cdv[j] == #[trigger] cards@[j]@,
                today.wf(),
                kf_events_for(events@, cdv, c as int, today, scraped_at@),
                forall|i: int|
                    0 <= i < events@.len() ==> adapter_event_ok(
                        #[trigger] events@[i],
                        "knitboise"@,
                        "Knitting Factory Boise"@,
                        kf_url(),
                    ),
            decreases cards.len() - c,
        {
            match self.parse_card(cards[c].as_str(), today, scraped_at) {
                Some(ev) => {
                    let ghost before = events@;
                    events.push(ev);
                    proof {
                        assert(events@.last() == ev);
                        assert(events@.drop_last() =~= before);
                    }
                },
                None => {},
            }
            c = c + 1;
        }
        events
    }
}

} // verus!
