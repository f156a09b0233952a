//! The ingestion orchestrator: the registry of active venue adapters,
//! running one adapter or all of them, and the partial-failure policy —
//! one success carries the run, and only a run in which every adapter
//! failed is itself a failure.

use vstd::prelude::*;
use vstd::string::StringExecFns;
use crate::dates::CivilDate;
use crate::knitting_factory::KnittingFactoryBoise;
use crate::models::{adapter_event_ok, Event};
use crate::revolution::Revolution;
use crate::text;
use crate::treefort::Treefort;

verus! {

/// The scraping error taxonomy: a transient remote failure, a structural
/// parse failure (markup found but nothing usable in it), an unknown
/// venue id, and an aggregate run failure.
#[derive(Debug)]
pub enum ScrapeError {
    Http(String),
    NoEvents(String),
    UnknownVenue(String),
    Aggregate(String),
}

pub open spec fn err_message(e: ScrapeError) -> Seq<char> {
    match e {
        ScrapeError::Http(s) => s@,
        ScrapeError::NoEvents(s) => s@,
        ScrapeError::UnknownVenue(s) => s@,
        ScrapeError::Aggregate(s) => s@,
    }
}

impl ScrapeError {
    /// The failure's diagnostic text.
    pub fn message(&self) -> (r: String)
        ensures
            r@ == err_message(*self),
    {
        match self {
            ScrapeError::Http(s) => s.clone(),
            ScrapeError::NoEvents(s) => s.clone(),
            ScrapeError::UnknownVenue(s) => s.clone(),
            ScrapeError::Aggregate(s) => s.clone(),
        }
    }
}

/// Guards an adapter that found its markup container: extracting zero
/// usable events there means the markup changed, which is a structural
/// failure, distinct from a page that legitimately lists nothing.
pub fn fail_if_empty<T>(venue_id: &str, events: Vec<T>) -> (r: Result<Vec<T>, ScrapeError>)
    ensures
        match r {
            Ok(v) => events@.len() > 0 && v == events,
            Err(e) => events@.len() == 0 && e is NoEvents && err_message(e)
                == "no events scraped for "@ + venue_id@,
        },
{
    if events.len() == 0 {
        let msg = <String as StringExecFns>::from_str("no events scraped for ").concat(venue_id);
        Err(ScrapeError::NoEvents(msg))
    } else {
        Ok(events)
    }
}

/// A venue adapter's public identity.
#[derive(Debug)]
pub struct ScraperInfo {
    pub id: String,
    pub name: String,
    pub url: String,
}

/// The closed set of active venue adapters.
#[derive(Clone, Copy, PartialEq, Eq, Structural, Debug)]
pub enum AdapterKind {
    Treefort,
    Revolution,
    KnittingFactory,
}

pub open spec fn kind_venue_id(k: AdapterKind) -> Seq<char> {
    match k {
        AdapterKind::Treefort => "treefort"@,
        AdapterKind::Revolution => "revolution"@,
        AdapterKind::KnittingFactory => "knitboise"@,
    }
}

pub open spec fn kind_venue_name(k: AdapterKind) -> Seq<char> {
    match k {
        AdapterKind::Treefort => "Treefort Music Hall"@,
        AdapterKind::Revolution => "Revolution Concert House"@,
        AdapterKind::KnittingFactory => "Knitting Factory Boise"@,
    }
}

pub open spec fn kind_venue_url(k: AdapterKind) -> Seq<char> {
    match k {
        AdapterKind::Treefort => "https://treefortmusichall.com/shows/"@,
        AdapterKind::Revolution => (
        "https://cttouringid.com/tm-venue/revolution-concert-house-and-event-center/"@),
        AdapterKind::KnittingFactory => "https://bo.knittingfactory.com/"@,
    }
}

/// Lists the active adapters' identities, in registry order.
pub fn list_scrapers() -> (r: Vec<ScraperInfo>)
    ensures
        r@.len() == 3,
        r@[0].id@ == "treefort"@ && r@[0].name@ == "Treefort Music Hall"@ && r@[0].url@
            == "https://treefortmusichall.com/shows/"@,
        r@[1].id@ == "revolution"@ && r@[1].name@ == "Revolution Concert House"@ && r@[1].url@
            == "https://cttouringid.com/tm-venue/revolution-concert-house-and-event-center/"@,
        r@[2].id@ == "knitboise"@ && r@[2].name@ == "Knitting Factory Boise"@ && r@[2].url@
            == "https://bo.knittingfactory.com/"@,
{
    let tf = Treefort;
    let rv = Revolution;
    let kf = KnittingFactoryBoise;
    let mut r: Vec<ScraperInfo> = Vec::new();
    r.push(
        ScraperInfo {
            id: tf.venue_id().to_owned(),
            name: tf.venue_name().to_owned(),
            url: tf.venue_url().to_owned(),
        },
    );
    r.push(
        ScraperInfo {
            id: rv.venue_id().to_owned(),
            name: rv.venue_name().to_owned(),
            url: rv.venue_url().to_owned(),
        },
    );
    r.push(
        ScraperInfo {
            id: kf.venue_id().to_owned(),
            name: kf.venue_name().to_owned(),
            url: kf.venue_url().to_owned(),
        },
    );
    r
}

pub open spec fn find_scraper_spec(id: Seq<char>) -> Option<AdapterKind> {
    if id == "treefort"@ {
        Some(AdapterKind::Treefort)
    } else if id == "revolution"@ {
        Some(AdapterKind::Revolution)
    } else if id == "knitboise"@ {
        Some(AdapterKind::KnittingFactory)
    } else {
        None
    }
}

/// Looks an active adapter up by its stable venue id.
pub fn find_scraper(id: &str) -> (r: Option<AdapterKind>)
    ensures
        r == find_scraper_spec(id@),
{
    if text::str_eq(id, "treefort") {
        Some(AdapterKind::Treefort)
    } else if text::str_eq(id, "revolution") {
        Some(AdapterKind::Revolution)
    } else if text::str_eq(id, "knitboise") {
        Some(AdapterKind::KnittingFactory)
    } else {
        None
    }
}

/// The card selector each adapter reads its page with.
pub open spec fn kind_card_css(k: AdapterKind) -> Seq<char> {
    match k {
        AdapterKind::Treefort => "div.mh-show-wrapper"@,
        AdapterKind::Revolution => "div.tw-section"@,
        AdapterKind::KnittingFactory => "div.tw-section"@,
    }
}

/// The events are exactly what the adapter's card-by-card reading of the
/// markup yields, in card order.
pub open spec fn kind_events_match(
    k: AdapterKind,
    evs: Seq<Event>,
    html: Seq<char>,
    today: CivilDate,
    scraped_at: Seq<char>,
) -> bool {
    let cards = crate::htmlq::outer_htmls_of(html, kind_card_css(k));
    match k {
        AdapterKind::Treefort => crate::treefort::tf_events_for(
            evs,
            cards,
            cards.len() as int,
            today,
            scraped_at,
        ),
        AdapterKind::Revolution => crate::revolution::rv_events_for(
            evs,
            cards,
            cards.len() as int,
            today,
            scraped_at,
        ),
        AdapterKind::KnittingFactory => crate::knitting_factory::kf_events_for(
            evs,
            cards,
            cards.len() as int,
            today,
            scraped_at,
        ),
    }
}

/// Runs one adapter's parser over fetched markup.
pub fn parse_for(kind: AdapterKind, html: &str, today: CivilDate, scraped_at: &str) -> (r: Vec<
    Event,
>)
    requires
        today.wf(),
    ensures
        kind_events_match(kind, r@, html@, today, scraped_at@),
        forall|i: int|
            0 <= i < r@.len() ==> adapter_event_ok(
                #[trigger] r@[i],
                kind_venue_id(kind),
                kind_venue_name(kind),
                kind_venue_url(kind),
            ),
{
    match kind {
        AdapterKind::Treefort => {
            let a = Treefort;
            a.parse_document(html, today, scraped_at)
        },
        AdapterKind::Revolution => {
            let a = Revolution;
            a.parse_document(html, today, scraped_at)
        },
        AdapterKind::KnittingFactory => {
            let a = KnittingFactoryBoise;
            a.parse_document(html, today, scraped_at)
        },
    }
}

/// Runs one adapter by id over the outcome of its fetch: an unknown id is
/// an error, a failed fetch propagates as a transient remote failure, and
/// otherwise exactly the adapter's reading of the fetched markup is
/// returned.
pub fn run_single(id: &str, fetch: Result<String, String>, today: CivilDate, scraped_at: &str) -> (r:
    Result<Vec<Event>, ScrapeError>)
    requires
        today.wf(),
    ensures
        match r {
            Ok(evs) => {
                &&& find_scraper_spec(id@) is Some
                &&& (fetch matches Ok(h) && kind_events_match(
                    find_scraper_spec(id@)->Some_0,
                    evs@,
                    h@,
                    today,
                    scraped_at@,
                ))
                &&& forall|i: int|
                    0 <= i < evs@.len() ==> adapter_event_ok(
                        #[trigger] evs@[i],
                        kind_venue_id(find_scraper_spec(id@)->Some_0),
                        kind_venue_name(find_scraper_spec(id@)->Some_0),
                        kind_venue_url(find_scraper_spec(id@)->Some_0),
                    )
            },
            Err(e) => match e {
                ScrapeError::UnknownVenue(_) => find_scraper_spec(id@) is None && err_message(e)
                    == "unknown venue id: "@ + id@,
                ScrapeError::Http(_) => find_scraper_spec(id@) is Some && (fetch matches Err(m)
                    && err_message(e) == m@),
                _ => false,
            },
        },
{
    match find_scraper(id) {
        None => {
            let msg = <String as StringExecFns>::from_str("unknown venue id: ").concat(id);
            Err(ScrapeError::UnknownVenue(msg))
        },
        Some(kind) => match fetch {
            Err(m) => Err(ScrapeError::Http(m)),
            Ok(html) => Ok(parse_for(kind, html.as_str(), today, scraped_at)),
        },
    }
}

// ----- the aggregation policy -----
/// The union of successful adapters' events, in run order.
pub open spec fn ok_events(results: Seq<(String, Result<Vec<Event>, ScrapeError>)>) -> Seq<Event>
    decreases results.len(),
{
    if results.len() == 0 {
        Seq::empty()
    } else {
        ok_events(results.drop_last()) + (match results.last().1 {
            Ok(v) => v@,
            Err(_) => Seq::empty(),
        })
    }
}

/// The per-venue failures, in run order: venue id and diagnostic text.
pub open spec fn failures_of(results: Seq<(String, Result<Vec<Event>, ScrapeError>)>) -> Seq<
    (Seq<char>, Seq<char>),
>
    decreases results.len(),
{
    if results.len() == 0 {
        Seq::empty()
    } else {
        failures_of(results.drop_last()) + (match results.last().1 {
            Ok(_) => Seq::empty(),
            Err(e) => seq![(results.last().0@, err_message(e))],
        })
    }
}

pub open spec fn any_ok(results: Seq<(String, Result<Vec<Event>, ScrapeError>)>) -> bool {
    exists|i: int| 0 <= i < results.len() && (#[trigger] results[i].1) is Ok
}

/// Every failure joined as `id: message`, separated by `; `.
pub open spec fn joined_failures(fails: Seq<(Seq<char>, Seq<char>)>) -> Seq<char>
    decreases fails.len(),
{
    if fails.len() == 0 {
        Seq::empty()
    } else if fails.len() == 1 {
        fails[0].0 + ": "@ + fails[0].1
    } else {
        joined_failures(fails.drop_last()) + "; "@ + fails.last().0 + ": "@ + fails.last().1
    }
}

/// The outcome of a full run: the union of events, plus the diagnostic
/// trace naming each adapter that failed.
#[derive(Debug)]
pub struct RunOutcome {
    pub events: Vec<Event>,
    pub failures: Vec<(String, String)>,
}

pub open spec fn failures_view(fails: Seq<(String, String)>) -> Seq<(Seq<char>, Seq<char>)> {
    fails.map_values(|p: (String, String)| (p.0@, p.1@))
}

/// Aggregates per-adapter outcomes. If at least one adapter succeeded —
/// even with zero events — the run succeeds with the union of events and
/// the failures as a diagnostic trace; only when every adapter failed is
/// the run itself a failure, naming every venue's reason.
pub fn run_all(results: Vec<(String, Result<Vec<Event>, ScrapeError>)>) -> (r: Result<
    RunOutcome,
    ScrapeError,
>)
    ensures
        match r {
            Ok(out) => {
                &&& (any_ok(results@) || results@.len() == 0)
                &&& out.events@ == ok_events(results@)
                &&& failures_view(out.failures@) == failures_of(results@)
            },
            Err(e) => {
                &&& !any_ok(results@)
                &&& results@.len() > 0
                &&& e is Aggregate
                &&& err_message(e) == "scrapers failed: "@ + joined_failures(failures_of(results@))
            },
        },
{
    let ghost all = results@;
    let n = results.len();
    let mut rest = results;
    let mut events: Vec<Event> = Vec::new();
    let mut failures: Vec<(String, String)> = Vec::new();
    let mut saw_ok: bool = false;
    let mut i: usize = 0;
    proof {
        assert(rest@.skip(0) =~= rest@);
        assert(all.take(0) =~= Seq::<(String, Result<Vec<Event>, ScrapeError>)>::empty());
        assert(events@ =~= ok_events(all.take(0)));
        assert(failures_view(failures@) =~= failures_of(all.take(0)));
    }
    while i < n
        invariant
            0 <= i <= n,
            n == all.len(),
            rest@ == all.skip(i as int),
            events@ == ok_events(all.take(i as int)),
            failures_view(failures@) == failures_of(all.take(i as int)),
            saw_ok == any_ok(all.take(i as int)),
        decreases n - i,
    {
        let (vid, res) = rest.remove(0);
        proof {
            assert(all.take(i + 1).drop_last() =~= all.take(i as int));
            assert(all.take(i + 1).last() == all[i as int]);
            assert(rest@ =~= all.skip(i + 1));
        }
        match res {
            Ok(mut v) => {
                proof {
                    assert(all[i as int].1 is Ok);
                }
                events.append(&mut v);
                saw_ok = true;
                proof {
                    assert(any_ok(all.take(i + 1)));
                }
            },
            Err(e) => {
                let msg = e.message();
                failures.push((vid, msg));
                proof {
                    assert(failures_view(failures@) =~= failures_of(all.take(i + 1)));
                    assert(any_ok(all.take(i + 1)) == any_ok(all.take(i as int))) by {
                        assert(forall|j: int|
                            0 <= j < i ==> all.take(i + 1)[j] == all.take(i as int)[j]);
                        if any_ok(all.take(i + 1)) {
                            let w = choose|w: int|
                                0 <= w < all.take(i + 1).len() && (#[trigger] all.take(i + 1)[w].1)
                                    is Ok;
                            assert(w != i);
                            assert(all.take(i as int)[w].1 is Ok);
                        }
                    }
                }
            },
        }
        i = i + 1;
    }
    proof {
        assert(all.take(n as int) =~= all);
    }
    if saw_ok || n == 0 {
        Ok(RunOutcome { events, failures })
    } else {
        let mut msg = <String as StringExecFns>::from_str("scrapers failed: ");
        let ghost fv = failures_view(failures@);
        let m = failures.len();
        let mut k: usize = 0;
        let mut joined = String::new();
        while k < m
            invariant
                0 <= k <= m,
                m == failures@.len(),
                fv == failures_view(failures@),
                fv.len() == m,
                joined@ == joined_failures(fv.take(k as int)),
            decreases m - k,
        {
            proof {
                assert(fv.take(k + 1).drop_last() =~= fv.take(k as int));
                assert(fv.take(k + 1).last() == fv[k as int]);
                assert(fv[k as int].0 == failures@[k as int].0@);
                assert(fv[k as int].1 == failures@[k as int].1@);
            }
            if k > 0 {
                joined = joined.concat("; ");
            }
            joined = joined.concat(failures[k].0.as_str());
            joined = joined.concat(": ");
            joined = joined.concat(failures[k].1.as_str());
            k = k + 1;
        }
        proof {
            assert(fv.take(m as int) =~= fv);
        }
        let full = msg.concat(joined.as_str());
        Err(ScrapeError::Aggregate(full))
    }
}

} // verus!
