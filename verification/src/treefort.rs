//! The Treefort Music Hall adapter: show cards with a date line, a doors
//! time, an age note, a headliner with optional openers, and ticket and
//! RSVP links. What each card yields, and which cards yield anything,
//! is pinned exactly over the named selection results.

use vstd::prelude::*;
use vstd::string::StringExecFns;
use crate::dates::{CivilDate, LocalStamp, rfc3339_of, utc_of};
use crate::htmlq;
use crate::models::{
    adapter_event_ok, build_event, ensure_extra, extra_matches, headliner_spec, identity_of,
    text_entry_ok, Event, ExtScalar, ExtValue,
};
use crate::text;
use crate::timezone;

verus! {

pub open spec fn tf_date(card: Seq<char>) -> Option<Seq<char>> {
    htmlq::first_text_spec(card, "div.mh-show-col.mh-show-date #dat"@)
}

/// The doors time: the first time pattern of the doors line, else the
/// time of its `doors`-labeled segment.
pub open spec fn tf_door(card: Seq<char>) -> Option<Seq<char>> {
    match htmlq::first_text_spec(card, "div.mh-show-col.mh-show-date #doo"@) {
        None => None,
        Some(t) => match text::first_time_spec(t) {
            Some(ft) => Some(ft),
            None => text::parse_named_time_spec(t, "doors"@),
        },
    }
}

pub open spec fn tf_start(card: Seq<char>, today: CivilDate) -> Option<LocalStamp> {
    match tf_date(card) {
        None => None,
        Some(d) => timezone::start_of(
            d,
            Some(timezone::fallback_time(tf_door(card))),
            "America/Boise"@,
            today,
        ),
    }
}

pub open spec fn br_pat() -> Seq<char> {
    seq!['<', 'b', 'r', '>']
}

/// The lineup: the headliner line split, the raw line itself when the
/// split drops everything, then the opener lines (their HTML breaks read
/// as separators).
pub open spec fn tf_artists(card: Seq<char>) -> Seq<Seq<char>> {
    let primary = match htmlq::first_text_spec(card, "div.mh-show-col.mh-show-artist .mh-h1"@) {
        Some(p) => p,
        None => Seq::empty(),
    };
    let base = text::split_artists_spec(primary);
    let base2 = if base.len() == 0 && primary.len() > 0 {
        seq![primary]
    } else {
        base
    };
    let openers = match htmlq::first_inner_html_of(
        card,
        "div.mh-show-col.mh-show-artist .mh-s1"@,
    ) {
        Some(oh) => text::split_artists_spec(text::replace_all(oh, br_pat(), seq![','], false)),
        None => Seq::empty(),
    };
    base2 + openers
}

pub open spec fn tf_url() -> Seq<char> {
    "https://treefortmusichall.com/shows/"@
}

pub open spec fn tf_ticket(card: Seq<char>) -> Option<Seq<char>> {
    htmlq::absolute_url_spec(tf_url(), htmlq::first_attr_of(card, "div.mh-sp-tickets a"@, "href"@))
}

pub open spec fn tf_rsvp(card: Seq<char>) -> Option<Seq<char>> {
    htmlq::absolute_url_spec(tf_url(), htmlq::first_attr_of(card, "div.mh-sp-rsvp a"@, "href"@))
}

pub open spec fn tf_link(card: Seq<char>) -> Option<Seq<char>> {
    htmlq::absolute_url_spec(
        tf_url(),
        htmlq::first_attr_of(card, "div.mh-show-col.mh-show-artist a"@, "href"@),
    )
}

pub open spec fn tf_age(card: Seq<char>) -> Option<Seq<char>> {
    htmlq::first_text_spec(card, "div.mh-show-col.mh-show-date #age"@)
}

pub open spec fn tf_age_flag(card: Seq<char>) -> Option<bool> {
    match tf_age(card) {
        Some(a) => text::parse_age_flag_spec(a),
        None => None,
    }
}

pub open spec fn tf_doors_local(card: Seq<char>, start: LocalStamp) -> Option<Seq<char>> {
    match tf_door(card) {
        Some(d) => timezone::combine_spec(start, d, "America/Boise"@),
        None => None,
    }
}

/// The card's raw-text extension entries, in order: the raw date line,
/// then the doors text, age note and RSVP link when present.
pub open spec fn tf_extra(card: Seq<char>) -> Seq<(Seq<char>, Seq<char>)> {
    seq![("raw_date"@, tf_date(card)->Some_0)] + (match tf_door(card) {
        Some(d) => seq![("doors_text"@, d)],
        None => Seq::empty(),
    }) + (match tf_age(card) {
        Some(a) => seq![("age_raw"@, a)],
        None => Seq::empty(),
    }) + (match tf_rsvp(card) {
        Some(r) => seq![("rsvp_url"@, r)],
        None => Seq::empty(),
    })
}

/// A card yields an event exactly when it has a date line, its start
/// resolves, and its lineup is nonempty.
pub open spec fn tf_accepts(card: Seq<char>, today: CivilDate) -> bool {
    &&& tf_date(card) is Some
    &&& tf_start(card, today) is Some
    &&& tf_artists(card).len() > 0
}

/// The event an accepted card yields, field by field.
pub open spec fn tf_event_matches(
    e: Event,
    card: Seq<char>,
    today: CivilDate,
    scraped_at: Seq<char>,
) -> bool {
    let start = tf_start(card, today)->Some_0;
    &&& e.id@ == identity_of("treefort"@, rfc3339_of(utc_of(start)), headliner_spec(
        tf_artists(card),
    ))
    &&& e.source@ == "treefort"@
    &&& e.venue_id@ == "treefort"@
    &&& e.venue_name.deep_view() == Some("Treefort Music Hall"@)
    &&& e.venue_url.deep_view() == Some(tf_url())
    &&& e.start_local.deep_view() == Some(rfc3339_of(start))
    &&& e.start_utc@ == rfc3339_of(utc_of(start))
    &&& e.doors_local.deep_view() == tf_doors_local(card, start)
    &&& e.artists.deep_view() == tf_artists(card)
    &&& e.is_all_ages == tf_age_flag(card)
    &&& e.ticket_url.deep_view() == tf_ticket(card)
    &&& e.event_url.deep_view() == (match tf_link(card) {
        Some(u) => Some(u),
        None => tf_ticket(card),
    })
    &&& e.price_min_cents is None
    &&& e.price_max_cents is None
    &&& e.currency is None
    &&& e.tags@.len() == 0
    &&& e.scraped_at_utc@ == scraped_at
    &&& extra_matches(e.extra.entries@, tf_extra(card))
}

/// Events are exactly the accepted cards' events, in card order:
/// `evs` matches cards `0..i`.
pub open spec fn tf_events_for(
    evs: Seq<Event>,
    cards: Seq<Seq<char>>,
    i: int,
    today: CivilDate,
    scraped_at: Seq<char>,
) -> bool
    decreases i,
{
    if i <= 0 {
        evs.len() == 0
    } else if tf_accepts(cards[i - 1], today) {
        evs.len() > 0 && tf_event_matches(evs.last(), cards[i - 1], today, scraped_at)
            && tf_events_for(evs.drop_last(), cards, i - 1, today, scraped_at)
    } else {
        tf_events_for(evs, cards, i - 1, today, scraped_at)
    }
}

pub struct Treefort;

impl Treefort {
    pub fn venue_id(&self) -> (r: &'static str)
        ensures
            r@ == "treefort"@,
    {
        "treefort"
    }

    pub fn venue_name(&self) -> (r: &'static str)
        ensures
            r@ == "Treefort Music Hall"@,
    {
        "Treefort Music Hall"
    }

    pub fn venue_url(&self) -> (r: &'static str)
        ensures
            r@ == tf_url(),
    {
        "https://treefortmusichall.com/shows/"
    }

    /// Reads one show card: the event it yields, or nothing exactly when
    /// the card lacks a date line, its start does not resolve, or its
    /// lineup is empty.
    pub fn parse_card(&self, card_html: &str, today: CivilDate, scraped_at: &str) -> (r: Option<
        Event,
    >)
        requires
            today.wf(),
        ensures
            match r {
                Some(e) => tf_accepts(card_html@, today) && tf_event_matches(
                    e,
                    card_html@,
                    today,
                    scraped_at@,
                ) && adapter_event_ok(e, "treefort"@, "Treefort Music Hall"@, tf_url()),
                None => !tf_accepts(card_html@, today),
            },
    {
        let ghost card = card_html@;
        let date_text = match htmlq::first_text(card_html, "div.mh-show-col.mh-show-date #dat") {
            Some(t) => t,
            None => {
                return None;
            },
        };
        let door_time: Option<String> = match htmlq::first_text(
            card_html,
            "div.mh-show-col.mh-show-date #doo",
        ) {
            Some(t) => match text::find_first_time(t.as_str()) {
                Some(ft) => Some(ft),
                None => text::parse_named_time(t.as_str(), "doors"),
            },
            None => None,
        };
        proof {
            assert(door_time.deep_view() == tf_door(card));
        }
        let ticket_url = htmlq::absolute_url(
            self.venue_url(),
            htmlq::first_attr(card_html, "div.mh-sp-tickets a", "href"),
        );
        let rsvp_url = htmlq::absolute_url(
            self.venue_url(),
            htmlq::first_attr(card_html, "div.mh-sp-rsvp a", "href"),
        );
        let event_url = htmlq::absolute_url(
            self.venue_url(),
            htmlq::first_attr(card_html, "div.mh-show-col.mh-show-artist a", "href"),
        );
        let door_ref: Option<&str> = match &door_time {
            Some(d) => Some(d.as_str()),
            None => None,
        };
        let start_local = match determine_start(date_text.as_str(), door_ref, today) {
            Some(ls) => ls,
            None => {
                proof {
                    assert(tf_start(card, today) is None);
                }
                return None;
            },
        };
        proof {
            assert(tf_start(card, today) == Some(start_local));
        }
        let primary = match htmlq::first_text(card_html, "div.mh-show-col.mh-show-artist .mh-h1") {
            Some(p) => p,
            None => String::new(),
        };
        let mut artists = text::split_artists(primary.as_str());
        if artists.len() == 0 && !primary.as_str().is_empty() {
            artists.push(primary.clone());
            proof {
                assert(artists.deep_view() =~= seq![primary@]);
            }
        }
        let ghost base2 = artists.deep_view();
        if let Some(openers_html) = htmlq::first_inner_html(
            card_html,
            "div.mh-show-col.mh-show-artist .mh-s1",
        ) {
            let ocs = text::chars_of(openers_html.as_str());
            let br: Vec<char> = vec!['<', 'b', 'r', '>'];
            let comma: Vec<char> = vec![','];
            proof {
                assert(br@ =~= br_pat());
                assert(comma@ =~= seq![',']);
            }
            let replaced = text::replace_vec(&ocs, &br, &comma, false);
            let replaced_str = text::string_from(&replaced);
            let openers = text::split_artists(replaced_str.as_str());
            let ghost odv = openers.deep_view();
            let mut oi: usize = 0;
            while oi < openers.len()
                invariant
                    0 <= oi <= openers.len(),
                    odv == openers.deep_view(),
                    odv.len() == openers@.len(),
                    forall|j: int| 0 <= j < openers@.len() ==> odv[j] == #[trigger] openers@[j]@,
                    artists.deep_view() == base2 + odv.take(oi as int),
                decreases openers.len() - oi,
            {
                let ghost adv0 = artists.deep_view();
                artists.push(openers[oi].clone());
                proof {
                    assert(artists.deep_view() =~~= adv0.push(odv[oi as int]));
                    assert(adv0.push(odv[oi as int]) =~= base2 + odv.take(oi + 1));
                }
                oi = oi + 1;
            }
            proof {
                assert(odv.take(odv.len() as int) =~= odv);
            }
        } else {
            proof {
                assert(artists.deep_view() =~= base2 + Seq::<Seq<char>>::empty());
            }
        }
        proof {
            assert(artists.deep_view() == tf_artists(card));
        }
        if artists.len() == 0 {
            return None;
        }
        let age_text = htmlq::first_text(card_html, "div.mh-show-col.mh-show-date #age");
        let mut extra: Vec<(String, ExtValue)> = Vec::new();
        let ghost mut expected: Seq<(Seq<char>, Seq<char>)> = seq![("raw_date"@, date_text@)];
        extra.push(
            (
                <String as StringExecFns>::from_str("raw_date"),
                ExtValue::Scalar(ExtScalar::Text(date_text.clone())),
            ),
        );
        proof {
            assert(extra_matches(extra@, expected));
        }
        if let Some(d) = &door_time {
            extra.push(
                (
                    <String as StringExecFns>::from_str("doors_text"),
                    ExtValue::Scalar(ExtScalar::Text(d.clone())),
                ),
            );
            proof {
                expected = expected + seq![("doors_text"@, d@)];
                assert(extra_matches(extra@, expected));
            }
        }
        if let Some(a) = &age_text {
            extra.push(
                (
                    <String as StringExecFns>::from_str("age_raw"),
                    ExtValue::Scalar(ExtScalar::Text(a.clone())),
                ),
            );
            proof {
                expected = expected + seq![("age_raw"@, a@)];
                assert(extra_matches(extra@, expected));
            }
        }
        if let Some(rv) = &rsvp_url {
            extra.push(
                (
                    <String as StringExecFns>::from_str("rsvp_url"),
                    ExtValue::Scalar(ExtScalar::Text(rv.clone())),
                ),
            );
            proof {
                expected = expected + seq![("rsvp_url"@, rv@)];
                assert(extra_matches(extra@, expected));
            }
        }
        proof {
            assert(expected =~= tf_extra(card));
        }
        let doors_local: Option<String> = match &door_time {
            Some(d) => timezone::combine_with_date(&start_local, d.as_str(), "America/Boise"),
            None => None,
        };
        let age_flag: Option<bool> = match &age_text {
            Some(a) => text::parse_age_flag(a.as_str()),
            None => None,
        };
        let ev = build_event(
            self.venue_id(),
            self.venue_name(),
            self.venue_url(),
            &start_local,
            artists,
            ticket_url,
            event_url,
            age_flag,
            doors_local,
            ensure_extra(extra),
            scraped_at.to_owned(),
        );
        proof {
            assert(tf_event_matches(ev, card, today, scraped_at@));
            assert(adapter_event_ok(ev, "treefort"@, "Treefort Music Hall"@, tf_url()));
        }
        Some(ev)
    }

    /// Reads the show cards out of fetched markup: exactly the accepted
    /// cards' events, in card order. Markup this adapter does not
    /// recognize yields an empty list, never a failure.
    #[verifier::rlimit(90)]
    pub fn parse_document(&self, html: &str, today: CivilDate, scraped_at: &str) -> (r: Vec<Event>)
        requires
            today.wf(),
        ensures
            tf_events_for(
                r@,
                htmlq::outer_htmls_of(html@, "div.mh-show-wrapper"@),
                htmlq::outer_htmls_of(html@, "div.mh-show-wrapper"@).len() as int,
                today,
                scraped_at@,
            ),
            forall|i: int|
                0 <= i < r@.len() ==> adapter_event_ok(
                    #[trigger] r@[i],
                    "treefort"@,
                    "Treefort Music Hall"@,
                    tf_url(),
                ),
    {
        let cards = htmlq::outer_htmls(html, "div.mh-show-wrapper");
        let ghost cdv = cards.deep_view();
        let mut events: Vec<Event> = Vec::new();
        let mut c: usize = 0;
        while c < cards.len()
            invariant
                0 <= c <= cards.len(),
                cdv == cards.deep_view(),
                cdv.len() == cards@.len(),
                forall|j: int| 0 <= j < cards@.len() ==> cdv[j] == #[trigger] cards@[j]@,
                today.wf(),
                tf_events_for(events@, cdv, c as int, today, scraped_at@),
                forall|i: int|
                    0 <= i < events@.len() ==> adapter_event_ok(
                        #[trigger] events@[i],
                        "treefort"@,
                        "Treefort Music Hall"@,
                        tf_url(),
                    ),
            decreases cards.len() - c,
        {
            match self.parse_card(cards[c].as_str(), today, scraped_at) {
                Some(ev) => {
                    let ghost before = events@;
                    events.push(ev);
                    proof {
                        assert(events@.last() == ev);
                        assert(events@.drop_last() =~= before);
                    }
                },
                None => {},
            }
            c = c + 1;
        }
        events
    }
}

/// The start instant: the doors time (its first time pattern, or the text
/// as given) or seven in the evening, on the card's date.
fn determine_start(date_text: &str, door_time: Option<&str>, today: CivilDate) -> (r: Option<
    LocalStamp,
>)
    requires
        today.wf(),
    ensures
        r == timezone::start_of(
            date_text@,
            Some(timezone::fallback_time(timezone::opt_str_view(door_time))),
            "America/Boise"@,
            today,
        ),
        r matches Some(ls) ==> ls.wf(),
{
    let time_str: String = match door_time {
        Some(v) => match text::find_first_time(v) {
            Some(t) => t,
            None => v.to_owned(),
        },
        None => <String as StringExecFns>::from_str("7:00 PM"),
    };
    proof {
        assert(time_str@ == timezone::fallback_time(timezone::opt_str_view(door_time)));
    }
    timezone::parse_datetime(date_text, Some(time_str.as_str()), "America/Boise", today)
}

} // verus!
