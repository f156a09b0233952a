//! The event store: content-addressed rows with idempotent upsert, a
//! one-way posted lifecycle, an append-only post log, and the pending
//! projection bucketed by days until start.

use vstd::prelude::*;
use crate::models::Event;
use vstd::multiset::Multiset;

verus! {

/// A stored event row: the payload plus its lifecycle timestamps.
#[derive(Clone, Debug)]
pub struct StoredEvent {
    pub event: Event,
    pub first_seen_utc: String,
    pub last_seen_utc: String,
    pub posted_at_utc: Option<String>,
}

/// One append-only log entry recording an external post reference.
#[derive(Clone, Debug)]
pub struct PostRecord {
    pub event_id: String,
    pub external_ref: String,
    pub created_at_utc: String,
}

/// The spec-level image of a row: strings as character sequences.
pub struct RowModel {
    pub id: Seq<char>,
    pub event: Event,
    pub first_seen: Seq<char>,
    pub last_seen: Seq<char>,
    pub posted_at: Option<Seq<char>>,
}

pub open spec fn row_model(r: StoredEvent) -> RowModel {
    RowModel {
        id: r.event.id@,
        event: r.event,
        first_seen: r.first_seen_utc@,
        last_seen: r.last_seen_utc@,
        posted_at: match r.posted_at_utc {
            Some(s) => Some(s@),
            None => None,
        },
    }
}

/// First index holding `id`, or the length if none does.
pub open spec fn idx_of(rows: Seq<RowModel>, id: Seq<char>) -> int
    decreases rows.len(),
{
    if rows.len() == 0 {
        0
    } else if rows[0].id == id {
        0
    } else {
        1 + idx_of(rows.drop_first(), id)
    }
}

pub open spec fn has_id(rows: Seq<RowModel>, id: Seq<char>) -> bool {
    exists|i: int| 0 <= i < rows.len() && rows[i].id == id
}

/// How many rows hold `id`.
pub open spec fn count_id(rows: Seq<RowModel>, id: Seq<char>) -> int
    decreases rows.len(),
{
    if rows.len() == 0 {
        0
    } else {
        (if rows[0].id == id {
            1int
        } else {
            0int
        }) + count_id(rows.drop_first(), id)
    }
}

/// Rows keyed uniquely: no identity occurs twice.
pub open spec fn unique_ids(rows: Seq<RowModel>) -> bool {
    forall|i: int, j: int| 0 <= i < j < rows.len() ==> rows[i].id != rows[j].id
}

/// What one upsert does to the rows: replace the payload and advance
/// `last_seen` on the existing row, keeping `first_seen` and the posted
/// mark; or append a fresh unposted row with both timestamps at `now`.
pub open spec fn upsert_model(rows: Seq<RowModel>, ev: Event, now: Seq<char>) -> Seq<RowModel> {
    if has_id(rows, ev.id@) {
        let i = idx_of(rows, ev.id@);
        rows.update(
            i,
            RowModel {
                id: ev.id@,
                event: ev,
                first_seen: rows[i].first_seen,
                last_seen: now,
                posted_at: rows[i].posted_at,
            },
        )
    } else {
        rows.push(
            RowModel { id: ev.id@, event: ev, first_seen: now, last_seen: now, posted_at: None },
        )
    }
}

/// What `mark_posted` does to the rows: on the row holding `id` (if any)
/// the posted timestamp is set only if it was unset — the transition is
/// one-way — and `last_seen` advances; other rows are untouched.
pub open spec fn mark_posted_model(rows: Seq<RowModel>, id: Seq<char>, now: Seq<char>) -> Seq<
    RowModel,
> {
    if has_id(rows, id) {
        let i = idx_of(rows, id);
        rows.update(
            i,
            RowModel {
                id: rows[i].id,
                event: rows[i].event,
                first_seen: rows[i].first_seen,
                last_seen: now,
                posted_at: match rows[i].posted_at {
                    Some(t) => Some(t),
                    None => Some(now),
                },
            },
        )
    } else {
        rows
    }
}

/// The identities still pending: stored and without a posted timestamp.
pub open spec fn pending_ids(rows: Seq<RowModel>) -> Set<Seq<char>> {
    Set::new(
        |id: Seq<char>|
            exists|i: int| 0 <= i < rows.len() && rows[i].id == id && rows[i].posted_at is None,
    )
}

pub open spec fn is_posted(rows: Seq<RowModel>, id: Seq<char>) -> bool {
    exists|i: int| 0 <= i < rows.len() && rows[i].id == id && rows[i].posted_at is Some
}

/// Pending/posted exclusivity: with uniquely keyed rows, a posted
/// identity is never pending, so no later projection (for any `now`)
/// can surface it again.
pub proof fn lemma_posted_never_pending(rows: Seq<RowModel>, id: Seq<char>)
    requires
        unique_ids(rows),
        is_posted(rows, id),
    ensures
        !pending_ids(rows).contains(id),
{
    let i = choose|i: int| 0 <= i < rows.len() && rows[i].id == id && rows[i].posted_at is Some;
    assert forall|j: int|
        0 <= j < rows.len() && rows[j].id == id implies rows[j].posted_at is Some by {
        if j < i {
            assert(rows[j].id != rows[i].id);
        } else if j > i {
            assert(rows[i].id != rows[j].id);
        }
    }
}

/// Marking posted is one-way: after `mark_posted` the identity is posted,
/// and stays posted under any further upsert or marking.
pub proof fn lemma_mark_posted_one_way(rows: Seq<RowModel>, id: Seq<char>, now: Seq<char>)
    requires
        has_id(rows, id),
    ensures
        is_posted(mark_posted_model(rows, id, now), id),
{
    lemma_idx_of_props(rows, id);
    let i = idx_of(rows, id);
    let r2 = mark_posted_model(rows, id, now);
    assert(r2[i].id == id && r2[i].posted_at is Some);
}

/// A posted mark survives upserts: re-scraping an identity preserves its
/// posted timestamp.
pub proof fn lemma_upsert_keeps_posted(rows: Seq<RowModel>, ev: Event, now: Seq<char>)
    requires
        unique_ids(rows),
        is_posted(rows, ev.id@),
    ensures
        is_posted(upsert_model(rows, ev, now), ev.id@),
{
    lemma_idx_of_props(rows, ev.id@);
    let i = idx_of(rows, ev.id@);
    let r2 = upsert_model(rows, ev, now);
    if rows[i].posted_at is Some {
        assert(r2[i].id == ev.id@ && r2[i].posted_at is Some);
    } else {
        let j = choose|j: int|
            0 <= j < rows.len() && rows[j].id == ev.id@ && rows[j].posted_at is Some;
        assert(rows[j].id == rows[i].id);
        assert(j == i);
    }
}

/// `idx_of` finds the first occurrence: in range exactly when the id is
/// present, and pointing at it.
pub proof fn lemma_idx_of_props(rows: Seq<RowModel>, id: Seq<char>)
    ensures
        0 <= idx_of(rows, id) <= rows.len(),
        has_id(rows, id) <==> idx_of(rows, id) < rows.len(),
        idx_of(rows, id) < rows.len() ==> rows[idx_of(rows, id)].id == id,
        forall|j: int| 0 <= j < idx_of(rows, id) ==> rows[j].id != id,
    decreases rows.len(),
{
    if rows.len() == 0 {
    } else if rows[0].id == id {
    } else {
        lemma_idx_of_props(rows.drop_first(), id);
        let rest = rows.drop_first();
        assert(forall|i: int| 0 <= i < rest.len() ==> rest[i] == rows[i + 1]);
        assert forall|j: int| 0 <= j < idx_of(rows, id) implies rows[j].id != id by {
            if j >= 1 {
                assert(rest[j - 1] == rows[j]);
                assert(j - 1 < idx_of(rest, id));
            }
        }
        if has_id(rest, id) {
            let i = choose|i: int| 0 <= i < rest.len() && rest[i].id == id;
            assert(rows[i + 1].id == id);
        }
        if has_id(rows, id) {
            let i = choose|i: int| 0 <= i < rows.len() && rows[i].id == id;
            assert(i != 0);
            assert(rest[i - 1].id == id);
        }
    }
}

/// Counting an id across uniquely keyed rows gives at most one.
pub proof fn lemma_unique_count(rows: Seq<RowModel>, id: Seq<char>)
    requires
        unique_ids(rows),
    ensures
        count_id(rows, id) <= 1,
        has_id(rows, id) ==> count_id(rows, id) == 1,
        !has_id(rows, id) ==> count_id(rows, id) == 0,
    decreases rows.len(),
{
    if rows.len() == 0 {
    } else {
        let rest = rows.drop_first();
        assert(forall|i: int| 0 <= i < rest.len() ==> rest[i] == rows[i + 1]);
        assert(unique_ids(rest));
        lemma_unique_count(rest, id);
        if rows[0].id == id {
            assert(forall|i: int| 0 <= i < rest.len() ==> rest[i].id != id);
            assert(!has_id(rest, id));
        } else {
            if has_id(rows, id) {
                let i = choose|i: int| 0 <= i < rows.len() && rows[i].id == id;
                assert(rest[i - 1].id == id);
                assert(has_id(rest, id));
            }
            if has_id(rest, id) {
                let i = choose|i: int| 0 <= i < rest.len() && rest[i].id == id;
                assert(rows[i + 1].id == id);
            }
        }
    }
}

/// Dedup idempotence, fresh side: the first upsert of an identity adds
/// exactly one row, with both timestamps at that upsert's time and no
/// posted mark.
pub proof fn lemma_upsert_new(rows: Seq<RowModel>, ev: Event, now: Seq<char>)
    requires
        unique_ids(rows),
        !has_id(rows, ev.id@),
    ensures
        ({
            let r2 = upsert_model(rows, ev, now);
            &&& r2.len() == rows.len() + 1
            &&& unique_ids(r2)
            &&& count_id(r2, ev.id@) == 1
            &&& r2[idx_of(r2, ev.id@)].first_seen == now
            &&& r2[idx_of(r2, ev.id@)].last_seen == now
            &&& r2[idx_of(r2, ev.id@)].event == ev
            &&& r2[idx_of(r2, ev.id@)].posted_at is None
        }),
{
    let r2 = upsert_model(rows, ev, now);
    assert(unique_ids(r2)) by {
        assert(forall|i: int| 0 <= i < rows.len() ==> r2[i] == rows[i]);
        assert(forall|i: int| 0 <= i < rows.len() ==> rows[i].id != ev.id@);
    }
    lemma_unique_count(r2, ev.id@);
    lemma_idx_of_props(r2, ev.id@);
    assert(r2[rows.len() as int].id == ev.id@);
    let k = idx_of(r2, ev.id@);
    assert(r2[k].id == ev.id@);
    if k < rows.len() {
        assert(rows[k] == r2[k]);
        assert(false);
    }
}

/// Dedup idempotence, replacing side: upserting an identity already
/// stored keeps exactly one row for it, preserves `first_seen` and the
/// posted mark, replaces the payload, and advances `last_seen`.
pub proof fn lemma_upsert_existing(rows: Seq<RowModel>, ev: Event, now: Seq<char>)
    requires
        unique_ids(rows),
        has_id(rows, ev.id@),
    ensures
        ({
            let r2 = upsert_model(rows, ev, now);
            let i = idx_of(rows, ev.id@);
            &&& r2.len() == rows.len()
            &&& unique_ids(r2)
            &&& count_id(r2, ev.id@) == 1
            &&& idx_of(r2, ev.id@) == i
            &&& r2[i].first_seen == rows[i].first_seen
            &&& r2[i].last_seen == now
            &&& r2[i].event == ev
            &&& r2[i].posted_at == rows[i].posted_at
            &&& forall|j: int| 0 <= j < rows.len() && j != i ==> r2[j] == rows[j]
        }),
{
    lemma_idx_of_props(rows, ev.id@);
    let i = idx_of(rows, ev.id@);
    let r2 = upsert_model(rows, ev, now);
    assert(r2[i].id == ev.id@);
    assert(unique_ids(r2)) by {
        assert(forall|j: int| 0 <= j < rows.len() && j != i ==> r2[j] == rows[j]);
        assert(forall|j: int| 0 <= j < r2.len() ==> r2[j].id == rows[j].id);
    }
    lemma_unique_count(r2, ev.id@);
    lemma_idx_of_props(r2, ev.id@);
    assert(forall|j: int| 0 <= j < i ==> r2[j].id != ev.id@);
}

/// The rows after upserting events `0..i` in order, each at its own time.
pub open spec fn upsert_iter_model(
    rows: Seq<RowModel>,
    evs: Seq<Event>,
    times: Seq<Seq<char>>,
    i: int,
) -> Seq<RowModel>
    decreases i,
{
    if i <= 0 {
        rows
    } else {
        upsert_model(upsert_iter_model(rows, evs, times, i - 1), evs[i - 1], times[i - 1])
    }
}

/// Dedup idempotence in general: upserting any number of events that all
/// share one new identity, in order and each at its own time, leaves
/// exactly one row for that identity — its payload the last event's
/// (last writer wins), its `first_seen` the first upsert's time, its
/// `last_seen` the most recent's, no posted mark, and the row count
/// grown by exactly one. Each upsert is total, so none can fail.
pub proof fn lemma_dedup_idempotent_general(
    rows: Seq<RowModel>,
    evs: Seq<Event>,
    times: Seq<Seq<char>>,
    n: int,
)
    requires
        unique_ids(rows),
        1 <= n <= evs.len(),
        n <= times.len(),
        forall|i: int| 0 <= i < n ==> (#[trigger] evs[i]).id@ == evs[0].id@,
        !has_id(rows, evs[0].id@),
    ensures
        ({
            let r = upsert_iter_model(rows, evs, times, n);
            let k = idx_of(r, evs[0].id@);
            &&& unique_ids(r)
            &&& r.len() == rows.len() + 1
            &&& count_id(r, evs[0].id@) == 1
            &&& 0 <= k < r.len()
            &&& r[k].event == evs[n - 1]
            &&& r[k].first_seen == times[0]
            &&& r[k].last_seen == times[n - 1]
            &&& r[k].posted_at is None
        }),
    decreases n,
{
    let id = evs[0].id@;
    if n == 1 {
        assert(upsert_iter_model(rows, evs, times, 0) == rows);
        assert(upsert_iter_model(rows, evs, times, 1) == upsert_model(rows, evs[0], times[0]));
        lemma_upsert_new(rows, evs[0], times[0]);
    } else {
        lemma_dedup_idempotent_general(rows, evs, times, n - 1);
        let r1 = upsert_iter_model(rows, evs, times, n - 1);
        assert(upsert_iter_model(rows, evs, times, n) == upsert_model(
            r1,
            evs[n - 1],
            times[n - 1],
        ));
        lemma_unique_count(r1, id);
        lemma_idx_of_props(r1, id);
        assert(evs[n - 1].id@ == id);
        lemma_upsert_existing(r1, evs[n - 1], times[n - 1]);
    }
    let r = upsert_iter_model(rows, evs, times, n);
    lemma_unique_count(r, id);
    lemma_idx_of_props(r, id);
}

/// The store's error taxonomy for point lookups: an absent identity is
/// not the same as a stored payload that cannot be decoded.
#[derive(Clone, Copy, PartialEq, Eq, Structural, Debug)]
pub enum StoreError {
    NotFound,
    Corrupt,
}

impl StoreError {
    pub fn message(&self) -> (r: String)
        ensures
            *self is NotFound ==> r@ == "event not found"@,
            *self is Corrupt ==> r@ == "stored payload failed to decode"@,
    {
        match self {
            StoreError::NotFound => <String as vstd::string::StringExecFns>::from_str(
                "event not found",
            ),
            StoreError::Corrupt => <String as vstd::string::StringExecFns>::from_str(
                "stored payload failed to decode",
            ),
        }
    }
}

/// The event store: rows keyed by identity, plus the append-only post log.
#[derive(Debug)]
pub struct Store {
    entries: Vec<StoredEvent>,
    posts: Vec<PostRecord>,
}

impl Store {
    /// The rows, as spec-level models, in storage order.
    pub closed spec fn rows(self) -> Seq<RowModel> {
        self.entries@.map_values(|r: StoredEvent| row_model(r))
    }

    /// The append-only post log.
    pub closed spec fn post_log(self) -> Seq<PostRecord> {
        self.posts@
    }

    /// Well-formed: identities are unique, so each content hash owns one row.
    pub open spec fn wf(self) -> bool {
        unique_ids(self.rows())
    }

    pub fn new() -> (r: Store)
        ensures
            r.wf(),
            r.rows() == Seq::<RowModel>::empty(),
            r.post_log() == Seq::<PostRecord>::empty(),
    {
        let r = Store { entries: Vec::new(), posts: Vec::new() };
        proof {
            assert(r.rows() =~= Seq::<RowModel>::empty());
        }
        r
    }

    /// First row index holding `id`, or the row count.
    fn find_idx(&self, id: &str) -> (r: usize)
        ensures
            r as int == idx_of(self.rows(), id@),
    {
        proof {
            lemma_idx_of_props(self.rows(), id@);
        }
        let mut i: usize = 0;
        while i < self.entries.len()
            invariant
                0 <= i <= self.entries.len(),
                forall|j: int| 0 <= j < i ==> self.rows()[j].id != id@,
            decreases self.entries.len() - i,
        {
            if crate::text::str_eq(self.entries[i].event.id.as_str(), id) {
                proof {
                    lemma_idx_of_props(self.rows(), id@);
                    assert(self.rows()[i as int].id == id@);
                }
                return i;
            }
            i = i + 1;
        }
        proof {
            lemma_idx_of_props(self.rows(), id@);
        }
        i
    }

    /// Insert-or-replace by identity: on conflict the payload is replaced
    /// and `last_seen` advances, while `first_seen` and the posted mark
    /// are preserved; a new identity gets a fresh unposted row. Never
    /// fails on re-scraping the same identity.
    pub fn upsert_event(&mut self, event: Event, now: &str)
        requires
            old(self).wf(),
        ensures
            final(self).wf(),
            final(self).rows() == upsert_model(old(self).rows(), event, now@),
            final(self).post_log() == old(self).post_log(),
    {
        proof {
            lemma_idx_of_props(self.rows(), event.id@);
        }
        let i = self.find_idx(event.id.as_str());
        if i < self.entries.len() {
            self.entries[i].event = event;
            self.entries[i].last_seen_utc = now.to_owned();
            proof {
                assert(self.rows() =~= upsert_model(old(self).rows(), event, now@));
                lemma_upsert_existing(old(self).rows(), event, now@);
            }
        } else {
            let row = StoredEvent {
                event,
                first_seen_utc: now.to_owned(),
                last_seen_utc: now.to_owned(),
                posted_at_utc: None,
            };
            self.entries.push(row);
            proof {
                assert(self.rows() =~= upsert_model(old(self).rows(), event, now@));
                lemma_upsert_new(old(self).rows(), event, now@);
            }
        }
    }

    /// Upserts a batch in order and reports how many were stored.
    pub fn upsert_many(&mut self, events: Vec<Event>, now: &str) -> (r: usize)
        requires
            old(self).wf(),
        ensures
            final(self).wf(),
            r == events@.len(),
            final(self).rows() == upsert_fold(old(self).rows(), events@, now@),
            final(self).post_log() == old(self).post_log(),
    {
        let n = events.len();
        let mut i: usize = 0;
        let mut rest = events;
        proof {
            assert(rest@.skip(0) =~= rest@);
        }
        let ghost all = rest@;
        while i < n
            invariant
                0 <= i <= n,
                n == all.len(),
                rest@ == all.skip(i as int),
                self.wf(),
                self.rows() == upsert_fold(old(self).rows(), all.take(i as int), now@),
                self.post_log() == old(self).post_log(),
            decreases n - i,
        {
            let ev = rest.remove(0);
            proof {
                assert(all.take(i + 1 as int).drop_last() =~= all.take(i as int));
                assert(all.take(i + 1 as int).last() == all[i as int]);
                assert(rest@ =~= all.skip(i + 1 as int));
            }
            self.upsert_event(ev, now);
            i = i + 1;
        }
        proof {
            assert(all.take(n as int) =~= all);
        }
        n
    }

    /// One-way posting: sets the posted timestamp if the identity is
    /// stored and not yet posted (a second call leaves the first
    /// timestamp standing), and always appends one log entry.
    pub fn mark_posted(&mut self, event_id: &str, external_ref: &str, now: &str)
        requires
            old(self).wf(),
        ensures
            final(self).wf(),
            final(self).rows() == mark_posted_model(old(self).rows(), event_id@, now@),
            final(self).post_log().len() == old(self).post_log().len() + 1,
            final(self).post_log().take(old(self).post_log().len() as int) == old(
                self,
            ).post_log(),
            final(self).post_log().last().event_id@ == event_id@,
            final(self).post_log().last().external_ref@ == external_ref@,
            final(self).post_log().last().created_at_utc@ == now@,
    {
        proof {
            lemma_idx_of_props(self.rows(), event_id@);
        }
        let i = self.find_idx(event_id);
        if i < self.entries.len() {
            let already = match &self.entries[i].posted_at_utc {
                Some(_) => true,
                None => false,
            };
            if !already {
                self.entries[i].posted_at_utc = Some(now.to_owned());
            }
            self.entries[i].last_seen_utc = now.to_owned();
            proof {
                assert(self.rows() =~= mark_posted_model(old(self).rows(), event_id@, now@));
            }
        } else {
            proof {
                assert(self.rows() =~= mark_posted_model(old(self).rows(), event_id@, now@));
            }
        }
        self.posts.push(
            PostRecord {
                event_id: event_id.to_owned(),
                external_ref: external_ref.to_owned(),
                created_at_utc: now.to_owned(),
            },
        );
        proof {
            assert(self.post_log().take(old(self).post_log().len() as int) =~= old(
                self,
            ).post_log());
            assert(unique_ids(self.rows())) by {
                assert(forall|j: int|
                    0 <= j < self.rows().len() ==> self.rows()[j].id == old(self).rows()[j].id);
            }
        }
    }

    /// Point lookup by identity; an absent identity is a `NotFound`,
    /// distinct from payload corruption.
    pub fn get_event(&self, id: &str) -> (r: Result<&Event, StoreError>)
        ensures
            match r {
                Ok(e) => has_id(self.rows(), id@) && *e == self.rows()[idx_of(self.rows(), id@)].event,
                Err(err) => err is NotFound && !has_id(self.rows(), id@),
            },
    {
        proof {
            lemma_idx_of_props(self.rows(), id@);
        }
        let i = self.find_idx(id);
        if i < self.entries.len() {
            Ok(&self.entries[i].event)
        } else {
            Err(StoreError::NotFound)
        }
    }

    /// Restores one durable row as read back: payload, both lifecycle
    /// timestamps, and the posted mark, without touching the post log.
    pub fn restore_row(
        &mut self,
        event: Event,
        first_seen: &str,
        last_seen: &str,
        posted_at: Option<&str>,
    )
        requires
            old(self).wf(),
            !has_id(old(self).rows(), event.id@),
        ensures
            final(self).wf(),
            final(self).rows() == old(self).rows().push(
                RowModel {
                    id: event.id@,
                    event,
                    first_seen: first_seen@,
                    last_seen: last_seen@,
                    posted_at: match posted_at {
                        Some(t) => Some(t@),
                        None => None,
                    },
                },
            ),
            final(self).post_log() == old(self).post_log(),
    {
        let posted: Option<String> = match posted_at {
            Some(t) => Some(t.to_owned()),
            None => None,
        };
        let row = StoredEvent {
            event,
            first_seen_utc: first_seen.to_owned(),
            last_seen_utc: last_seen.to_owned(),
            posted_at_utc: posted,
        };
        self.entries.push(row);
        proof {
            assert(self.rows() =~= old(self).rows().push(
                RowModel {
                    id: event.id@,
                    event,
                    first_seen: first_seen@,
                    last_seen: last_seen@,
                    posted_at: match posted_at {
                        Some(t) => Some(t@),
                        None => None,
                    },
                },
            ));
            assert(unique_ids(self.rows())) by {
                assert(forall|i: int|
                    0 <= i < old(self).rows().len() ==> self.rows()[i] == old(self).rows()[i]);
                assert(forall|i: int|
                    0 <= i < old(self).rows().len() ==> old(self).rows()[i].id != event.id@);
            }
        }
    }

    /// How many identities are stored.
    pub fn len(&self) -> (r: usize)
        ensures
            r == self.rows().len(),
    {
        self.entries.len()
    }

    /// How many entries the append-only post log holds.
    pub fn post_log_len(&self) -> (r: usize)
        ensures
            r == self.post_log().len(),
    {
        self.posts.len()
    }

    /// The stored row for an identity, with its lifecycle timestamps.
    pub fn get_row(&self, id: &str) -> (r: Option<&StoredEvent>)
        ensures
            match r {
                Some(row) => has_id(self.rows(), id@) && row_model(*row) == self.rows()[idx_of(
                    self.rows(),
                    id@,
                )],
                None => !has_id(self.rows(), id@),
            },
    {
        proof {
            lemma_idx_of_props(self.rows(), id@);
        }
        let i = self.find_idx(id);
        if i < self.entries.len() {
            Some(&self.entries[i])
        } else {
            None
        }
    }

    /// Every stored event whose posted timestamp is unset, in storage
    /// order (ordering is the caller's concern).
    pub fn list_pending_events(&self) -> (r: Vec<&Event>)
        ensures
            r@.len() == pending_rows(self.rows()).len(),
            forall|k: int|
                0 <= k < r@.len() ==> *r@[k] == pending_rows(self.rows())[k].event,
    {
        let ghost keep = |rm: RowModel| rm.posted_at is None;
        let mut out: Vec<&Event> = Vec::new();
        let mut i: usize = 0;
        while i < self.entries.len()
            invariant
                0 <= i <= self.entries.len(),
                keep == (|rm: RowModel| rm.posted_at is None),
                out@.map_values(|e: &Event| *e) == self.rows().take(i as int).filter(keep).map_values(
                    |rm: RowModel| rm.event,
                ),
            decreases self.entries.len() - i,
        {
            let ghost prefix = self.rows().take(i as int);
            let is_pending = match &self.entries[i].posted_at_utc {
                Some(_) => false,
                None => true,
            };
            if is_pending {
                out.push(&self.entries[i].event);
            }
            proof {
                broadcast use vstd::seq_lib::group_seq_properties;

                assert(self.rows().take(i + 1 as int) =~= prefix + seq![
                    self.rows()[i as int],
                ]);
                Seq::filter_distributes_over_add(prefix, seq![self.rows()[i as int]], keep);
                reveal(Seq::filter);
                assert(seq![self.rows()[i as int]].drop_last() =~= Seq::<RowModel>::empty());
                if is_pending {
                    assert((prefix.filter(keep) + seq![self.rows()[i as int]]).map_values(
                        |rm: RowModel| rm.event,
                    ) =~= prefix.filter(keep).map_values(|rm: RowModel| rm.event).push(
                        self.rows()[i as int].event,
                    ));
                    assert(out@.map_values(|e: &Event| *e) =~= prefix.filter(keep).map_values(
                        |rm: RowModel| rm.event,
                    ).push(self.rows()[i as int].event));
                } else {
                    assert(self.rows().take(i + 1 as int).filter(keep) =~= prefix.filter(keep));
                }
            }
            i = i + 1;
        }
        proof {
            assert(self.rows().take(self.rows().len() as int) =~= self.rows());
            assert(forall|k: int|
                0 <= k < out@.len() ==> *out@[k] == out@.map_values(|e: &Event| *e)[k]);
        }
        out
    }
}

/// The pending rows, in storage order.
pub open spec fn pending_rows(rows: Seq<RowModel>) -> Seq<RowModel> {
    rows.filter(|rm: RowModel| rm.posted_at is None)
}

/// The rows after upserting a batch of events in order.
pub open spec fn upsert_fold(rows: Seq<RowModel>, evs: Seq<Event>, now: Seq<char>) -> Seq<RowModel>
    decreases evs.len(),
{
    if evs.len() == 0 {
        rows
    } else {
        upsert_model(upsert_fold(rows, evs.drop_last(), now), evs.last(), now)
    }
}

// ----- the pending projection, bucketed -----
/// Bucket indices by whole days until start: same-day, under one week,
/// under two weeks, under one month, under two months, two months or more.
pub open spec fn bucket_index_spec(days: int) -> int {
    if days <= 0 {
        0
    } else if days < 7 {
        1
    } else if days < 14 {
        2
    } else if days < 30 {
        3
    } else if days < 60 {
        4
    } else {
        5
    }
}

pub open spec fn bucket_name_spec(idx: int) -> Seq<char> {
    if idx == 0 {
        "DAY_OF"@
    } else if idx == 1 {
        "LT_1W"@
    } else if idx == 2 {
        "LT_2W"@
    } else if idx == 3 {
        "LT_1M"@
    } else if idx == 4 {
        "LT_2M"@
    } else {
        "GTE_2M"@
    }
}

/// Names a bucket by whole days until start.
pub fn bucket_for(days_until: i64) -> (r: &'static str)
    ensures
        r@ == bucket_name_spec(bucket_index_spec(days_until as int)),
{
    if days_until <= 0 {
        "DAY_OF"
    } else if days_until < 7 {
        "LT_1W"
    } else if days_until < 14 {
        "LT_2W"
    } else if days_until < 30 {
        "LT_1M"
    } else if days_until < 60 {
        "LT_2M"
    } else {
        "GTE_2M"
    }
}

/// The six bucket names, in bucket-index order.
pub fn bucket_keys() -> (r: Vec<&'static str>)
    ensures
        r@.len() == 6,
        forall|k: int| 0 <= k < 6 ==> #[trigger] r@[k]@ == bucket_name_spec(k),
{
    let mut r: Vec<&'static str> = Vec::new();
    r.push("DAY_OF");
    r.push("LT_1W");
    r.push("LT_2W");
    r.push("LT_1M");
    r.push("LT_2M");
    r.push("GTE_2M");
    r
}

/// Where an event falls relative to `now`: its bucket index, or nothing
/// when it already started in the past.
pub open spec fn classify(start: int, now: int) -> Option<int> {
    if start < now {
        None
    } else {
        Some(bucket_index_spec((start - now) / 86400))
    }
}

/// Bucket boundaries: an event starting exactly at `now` is same-day; one
/// second short of seven days out is still under one week; thirteen whole
/// days out is under two weeks; and one already started is in no bucket.
pub proof fn lemma_bucket_boundaries(t: int)
    ensures
        classify(t, t) == Some(0int),
        classify(t + 601200, t) == Some(1int),
        classify(t + 13 * 86400, t) == Some(2int),
        classify(t - 1, t) is None,
{
    assert(601200int / 86400 == 6);
    assert((13int * 86400) / 86400 == 13);
}

/// Where an event's canonical start places it: the parsed start classified
/// against `now`; an unparseable start is in no bucket.
pub open spec fn classify_event(e: Event, now: int) -> Option<int> {
    match crate::dates::parse_rfc3339_spec(e.start_utc@) {
        Some(t) => classify(t, now),
        None => None,
    }
}

/// The pending events belonging in bucket `k`, in storage order.
pub open spec fn bucket_source(rows: Seq<RowModel>, now: int, k: int) -> Seq<Event> {
    pending_rows(rows).map_values(|rm: RowModel| rm.event).filter(
        |e: Event| classify_event(e, now) == Some(k),
    )
}

/// Row models carry their event's own identity.
pub open spec fn rows_coherent(rows: Seq<RowModel>) -> bool {
    forall|i: int| 0 <= i < rows.len() ==> (#[trigger] rows[i]).id == rows[i].event.id@
}

impl Store {
    /// The store's rows always carry their event's own identity.
    pub proof fn lemma_rows_coherent(self)
        ensures
            rows_coherent(self.rows()),
    {
    }
}

/// Pending/posted exclusivity over the projection: a posted identity
/// appears in no bucket's source, whatever `now` is.
pub proof fn lemma_posted_excluded_from_buckets(
    rows: Seq<RowModel>,
    id: Seq<char>,
    now: int,
    k: int,
)
    requires
        unique_ids(rows),
        rows_coherent(rows),
        is_posted(rows, id),
    ensures
        forall|j: int|
            0 <= j < bucket_source(rows, now, k).len() ==> (#[trigger] bucket_source(
                rows,
                now,
                k,
            )[j]).id@ != id,
{
    lemma_posted_never_pending(rows, id);
    let keep_pending = |rm: RowModel| rm.posted_at is None;
    let src = pending_rows(rows);
    let mapped = src.map_values(|rm: RowModel| rm.event);
    let keep_bucket = |e: Event| classify_event(e, now) == Some(k);
    let out = mapped.filter(keep_bucket);
    assert forall|j: int| 0 <= j < out.len() implies (#[trigger] out[j]).id@ != id by {
        assert(out.contains(out[j]));
        mapped.lemma_filter_contains_rev(keep_bucket, out[j]);
        let w = choose|w: int| 0 <= w < mapped.len() && mapped[w] == out[j];
        assert(src[w].event == out[j]);
        assert(src.contains(src[w]));
        rows.lemma_filter_contains_rev(keep_pending, src[w]);
        let v = choose|v: int| 0 <= v < rows.len() && rows[v] == src[w];
        assert(rows[v].posted_at is None) by {
            rows.lemma_filter_pred(keep_pending, w);
        }
        if rows[v].id == id {
            assert(pending_ids(rows).contains(id));
        }
        assert(rows[v].event.id@ == rows[v].id);
    }
}

/// A pending event placed in a bucket, with its parsed start and the
/// whole days until it.
pub struct BucketItem<'a> {
    pub start_epoch: i64,
    pub days_until: i64,
    pub event: &'a Event,
}

/// The bucketed pending projection: six buckets, in bucket-index order.
pub struct Buckets<'a> {
    pub buckets: Vec<Vec<BucketItem<'a>>>,
}

/// Every item of the bucket belongs there: its start parses to its
/// `start_epoch`, has not passed, classifies into bucket `k`, and
/// `days_until` is the whole days from `now`.
pub open spec fn items_in_bucket(items: Seq<BucketItem>, now: int, k: int) -> bool {
    forall|i: int|
        0 <= i < items.len() ==> {
            &&& crate::dates::parse_rfc3339_spec((#[trigger] items[i]).event.start_utc@) == Some(
                items[i].start_epoch as int,
            )
            &&& items[i].start_epoch >= now
            &&& classify(items[i].start_epoch as int, now) == Some(k)
            &&& items[i].days_until == (items[i].start_epoch - now) / 86400
        }
}

/// Ascending start order.
pub open spec fn sorted_items(items: Seq<BucketItem>) -> bool {
    forall|i: int, j: int|
        0 <= i < j < items.len() ==> (#[trigger] items[i]).start_epoch <= (
        #[trigger] items[j]).start_epoch
}

pub open spec fn items_events(items: Seq<BucketItem>) -> Seq<Event> {
    items.map_values(|b: BucketItem| *b.event)
}

/// Selection sort by parsed start, ascending; the items are a permutation
/// of the input.
fn sort_items<'a>(v: Vec<BucketItem<'a>>) -> (r: Vec<BucketItem<'a>>)
    ensures
        sorted_items(r@),
        items_events(r@).to_multiset() == items_events(v@).to_multiset(),
        forall|i: int| 0 <= i < r@.len() ==> v@.contains(#[trigger] r@[i]),
        r@.len() == v@.len(),
{
    broadcast use vstd::seq_lib::group_to_multiset_ensures;
    broadcast use vstd::multiset::group_multiset_axioms;
    broadcast use vstd::multiset::lemma_multiset_empty_len;

    let ghost orig = v@;
    let mut rem = v;
    let mut out: Vec<BucketItem<'a>> = Vec::new();
    while rem.len() > 0
        invariant
            sorted_items(out@),
            forall|i: int, j: int|
                0 <= i < out@.len() && 0 <= j < rem@.len() ==> (#[trigger] out@[i]).start_epoch <= (
                #[trigger] rem@[j]).start_epoch,
            out@.to_multiset().add(rem@.to_multiset()) =~= orig.to_multiset(),
            forall|i: int| 0 <= i < out@.len() ==> orig.contains(#[trigger] out@[i]),
            forall|i: int| 0 <= i < rem@.len() ==> orig.contains(#[trigger] rem@[i]),
            out@.len() + rem@.len() == orig.len(),
        decreases rem.len(),
    {
        let mut min: usize = 0;
        let mut j: usize = 1;
        while j < rem.len()
            invariant
                0 <= min < rem@.len(),
                min < j <= rem@.len() || (j <= rem@.len() && min == 0),
                forall|i: int|
                    0 <= i < j ==> (#[trigger] rem@[min as int]).start_epoch <= rem@[i].start_epoch,
            decreases rem.len() - j,
        {
            if rem[j].start_epoch < rem[min].start_epoch {
                min = j;
            }
            j = j + 1;
        }
        let ghost rem0 = rem@;
        let x = rem.remove(min);
        let ghost out0 = out@;
        out.push(x);
        proof {
            assert(rem0.contains(x));
            assert(forall|i: int|
                0 <= i < rem@.len() ==> rem0.contains(#[trigger] rem@[i])) by {
                assert(forall|i: int|
                    0 <= i < rem@.len() ==> rem@[i] == (if i < min {
                        rem0[i]
                    } else {
                        rem0[i + 1]
                    }));
            }
            assert(forall|i: int|
                0 <= i < rem@.len() ==> x.start_epoch <= (#[trigger] rem@[i]).start_epoch) by {
                assert(forall|i: int|
                    0 <= i < rem@.len() ==> rem@[i] == (if i < min {
                        rem0[i]
                    } else {
                        rem0[i + 1]
                    }));
            }
            assert(out@.to_multiset().add(rem@.to_multiset()) =~= orig.to_multiset()) by {
                rem0.to_multiset_ensures();
                out0.to_multiset_ensures();
                assert(rem@ == rem0.remove(min as int));
                assert(rem0.remove(min as int).to_multiset() =~= rem0.to_multiset().remove(
                    rem0[min as int],
                ));
                assert(out@ == out0.push(x));
                assert(out0.push(x).to_multiset() =~= out0.to_multiset().insert(x));
                assert(rem0.to_multiset().count(x) > 0);
            }
        }
    }
    proof {
        assert(rem@.to_multiset() =~= Multiset::<BucketItem>::empty());
        assert(out@.to_multiset() =~= orig.to_multiset());
        lemma_items_events_multiset(out@, orig);
    }
    out
}

fn bucket_index(days: i64) -> (r: usize)
    ensures
        r as int == bucket_index_spec(days as int),
        r < 6,
{
    if days <= 0 {
        0
    } else if days < 7 {
        1
    } else if days < 14 {
        2
    } else if days < 30 {
        3
    } else if days < 60 {
        4
    } else {
        5
    }
}

impl Store {
    /// The pending projection bucketed by days until start, each bucket in
    /// ascending start order. An event already started, or whose canonical
    /// start cannot be read back, appears in no bucket; each bucket holds
    /// exactly the pending events that classify into it.
    pub fn list_pending_bucketed(&self, now: i64) -> (r: Buckets<'_>)
        requires
            -0x4000_0000_0000_0000 < now < 0x4000_0000_0000_0000,
        ensures
            r.buckets@.len() == 6,
            forall|k: int|
                0 <= k < 6 ==> items_in_bucket((#[trigger] r.buckets@[k])@, now as int, k),
            forall|k: int| 0 <= k < 6 ==> sorted_items((#[trigger] r.buckets@[k])@),
            forall|k: int|
                0 <= k < 6 ==> items_events((#[trigger] r.buckets@[k])@).to_multiset()
                    == bucket_source(self.rows(), now as int, k).to_multiset(),
    {
        let pending = self.list_pending_events();
        let ghost pend: Seq<Event> = pending@.map_values(|e: &Event| *e);
        proof {
            assert(pend =~= pending_rows(self.rows()).map_values(|rm: RowModel| rm.event));
        }
        let mut buckets: Vec<Vec<BucketItem<'_>>> = Vec::new();
        let mut z: usize = 0;
        while z < 6
            invariant
                0 <= z <= 6,
                buckets@.len() == z,
                forall|k: int| 0 <= k < z ==> (#[trigger] buckets@[k])@.len() == 0,
            decreases 6 - z,
        {
            buckets.push(Vec::new());
            z = z + 1;
        }
        proof {
            assert(pend.take(0) =~= Seq::<Event>::empty());
            reveal_with_fuel(Seq::filter, 2);
            assert forall|k: int| 0 <= k < 6 implies items_events(
                (#[trigger] buckets@[k])@,
            ).to_multiset() == pend.take(0).filter(
                |e: Event| classify_event(e, now as int) == Some(k),
            ).to_multiset() by {
                assert(buckets@[k]@ =~= Seq::<BucketItem>::empty());
                assert(items_events(buckets@[k]@) =~= Seq::<Event>::empty());
                assert(pend.take(0).filter(|e: Event| classify_event(e, now as int) == Some(k))
                    =~= Seq::<Event>::empty());
            }
        }
        let mut i: usize = 0;
        while i < pending.len()
            invariant
                0 <= i <= pending.len(),
                buckets@.len() == 6,
                pend.len() == pending@.len(),
                forall|j: int| 0 <= j < pend.len() ==> pend[j] == *(#[trigger] pending@[j]),
                forall|k: int|
                    0 <= k < 6 ==> items_in_bucket((#[trigger] buckets@[k])@, now as int, k),
                forall|k: int|
                    0 <= k < 6 ==> items_events((#[trigger] buckets@[k])@).to_multiset()
                        == pend.take(i as int).filter(
                        |e: Event| classify_event(e, now as int) == Some(k),
                    ).to_multiset(),
                -0x4000_0000_0000_0000 < now < 0x4000_0000_0000_0000,
            decreases pending.len() - i,
        {
            let e: &Event = pending[i];
            let parsed = crate::dates::parse_rfc3339_epoch(e.start_utc.as_str());
            let ghost bs0 = buckets@;
            let mut placed: usize = 6;
            let ghost placed_item: BucketItem = BucketItem {
                start_epoch: 0,
                days_until: 0,
                event: e,
            };
            let ghost mut placed_item = placed_item;
            if let Some(t) = parsed {
                if t >= now {
                    let days: i64 = ((t - now) as u64 / 86400) as i64;
                    let k = bucket_index(days);
                    let item = BucketItem { start_epoch: t, days_until: days, event: e };
                    proof {
                        placed_item = item;
                        assert(0 <= (t - now) as u64 / 86400 < 0x8000_0000_0000_0000u64);
                        assert(days as int == (t as int - now as int) / 86400);
                        assert(classify_event(*e, now as int) == Some(bucket_index_spec(
                            days as int,
                        )));
                    }
                    let slot = &mut buckets[k];
                    let ghost slot0 = slot@;
                    slot.push(item);
                    placed = k;
                    proof {
                        slot0.to_multiset_ensures();
                        assert(items_events(slot0.push(item)) =~= items_events(slot0).push(*e));
                        items_events(slot0).to_multiset_ensures();
                        assert(items_events(slot0.push(item)).to_multiset() =~= items_events(
                            slot0,
                        ).to_multiset().insert(*e));
                    }
                }
            }
            proof {
                let ghost now_i = now as int;
                assert(buckets@.len() == 6);
                if placed < 6 {
                    assert(forall|k: int|
                        0 <= k < 6 && k != placed ==> buckets@[k] == bs0[k]);
                    assert(buckets@[placed as int]@ =~= bs0[placed as int]@.push(placed_item));
                } else {
                    assert(buckets@ == bs0);
                    assert(classify_event(pend[i as int], now_i) is None || false ==> true);
                }
                assert forall|k: int| 0 <= k < 6 implies items_events(
                    (#[trigger] buckets@[k])@,
                ).to_multiset() == pend.take(i + 1).filter(
                    |e2: Event| classify_event(e2, now_i) == Some(k),
                ).to_multiset() by {
                    let keepk = |e2: Event| classify_event(e2, now_i) == Some(k);
                    let prefix = pend.take(i as int);
                    assert(pend.take(i + 1) =~= prefix + seq![pend[i as int]]);
                    Seq::filter_distributes_over_add(prefix, seq![pend[i as int]], keepk);
                    reveal_with_fuel(Seq::filter, 3);
                    assert(seq![pend[i as int]].drop_last() =~= Seq::<Event>::empty());
                    assert(Seq::<Event>::empty().filter(keepk) =~= Seq::<Event>::empty());
                    assert(seq![pend[i as int]].filter(keepk) =~= (if keepk(pend[i as int]) {
                        seq![pend[i as int]]
                    } else {
                        Seq::<Event>::empty()
                    }));
                    prefix.filter(keepk).to_multiset_ensures();
                    assert(pend[i as int] == *e);
                    if placed < 6 && k == placed {
                        assert(classify_event(pend[i as int], now_i) == Some(k));
                        assert(prefix.filter(keepk) + seq![pend[i as int]] =~= prefix.filter(
                            keepk,
                        ).push(pend[i as int]));
                    } else {
                        assert(!keepk(pend[i as int]));
                        assert(prefix.filter(keepk) + seq![pend[i as int]].filter(keepk)
                            =~= prefix.filter(keepk));
                    }
                }
            }
            i = i + 1;
        }
        proof {
            assert(pend.take(pend.len() as int) =~= pend);
        }
        let mut sorted_buckets: Vec<Vec<BucketItem<'_>>> = Vec::new();
        let mut k: usize = 0;
        let ghost unsorted = buckets@;
        while k < 6
            invariant
                0 <= k <= 6,
                unsorted.len() == 6,
                buckets@ =~= unsorted.skip(k as int),
                sorted_buckets@.len() == k,
                forall|j: int|
                    0 <= j < k ==> sorted_items((#[trigger] sorted_buckets@[j])@),
                forall|j: int|
                    0 <= j < k ==> items_events((#[trigger] sorted_buckets@[j])@).to_multiset()
                        == items_events(unsorted[j]@).to_multiset(),
                forall|j: int, i2: int|
                    0 <= j < k && 0 <= i2 < sorted_buckets@[j]@.len() ==> unsorted[j]@.contains(
                        #[trigger] sorted_buckets@[j]@[i2],
                    ),
            decreases 6 - k,
        {
            let b = buckets.remove(0);
            proof {
                assert(b == unsorted[k as int]);
                assert(buckets@ =~= unsorted.skip(k + 1));
            }
            let sorted = sort_items(b);
            sorted_buckets.push(sorted);
            k = k + 1;
        }
        let ghost final_bs = sorted_buckets@;
        proof {
            assert forall|k2: int| 0 <= k2 < 6 implies items_in_bucket(
                (#[trigger] final_bs[k2])@,
                now as int,
                k2,
            ) by {
                let items = final_bs[k2]@;
                assert(items_in_bucket(unsorted[k2]@, now as int, k2));
                assert forall|i2: int| #![trigger items[i2]] 0 <= i2 < items.len() implies {
                    &&& crate::dates::parse_rfc3339_spec(items[i2].event.start_utc@) == Some(
                        items[i2].start_epoch as int,
                    )
                    &&& items[i2].start_epoch >= now
                    &&& classify(items[i2].start_epoch as int, now as int) == Some(k2)
                    &&& items[i2].days_until == (items[i2].start_epoch - now) / 86400
                } by {
                    let it = items[i2];
                    assert(unsorted[k2]@.contains(it));
                    let j = choose|j: int|
                        0 <= j < unsorted[k2]@.len() && unsorted[k2]@[j] == it;
                    assert(unsorted[k2]@[j] == it);
                }
            }
        }
        Buckets { buckets: sorted_buckets }
    }
}

/// Equal item multisets carry equal event multisets.
proof fn lemma_items_events_multiset(a: Seq<BucketItem>, b: Seq<BucketItem>)
    requires
        a.to_multiset() == b.to_multiset(),
    ensures
        items_events(a).to_multiset() == items_events(b).to_multiset(),
    decreases a.len(),
{
    broadcast use vstd::seq_lib::group_to_multiset_ensures;
    broadcast use vstd::multiset::group_multiset_axioms;
    broadcast use vstd::multiset::lemma_multiset_empty_len;

    if a.len() == 0 {
        assert(b.to_multiset().len() == 0);
        assert(b.len() == 0);
        assert(items_events(a) =~= Seq::<Event>::empty());
        assert(items_events(b) =~= Seq::<Event>::empty());
    } else {
        let x = a.last();
        assert(a.to_multiset().count(x) > 0) by {
            assert(a.contains(x));
        }
        assert(b.contains(x)) by {
            assert(b.to_multiset().count(x) > 0);
        }
        let j = choose|j: int| 0 <= j < b.len() && b[j] == x;
        let a1 = a.drop_last();
        let b1 = b.remove(j);
        assert(a1.to_multiset() =~= b1.to_multiset()) by {
            assert(a =~= a1.push(x));
            assert(a.to_multiset() =~= a1.to_multiset().insert(x));
            assert(b1.to_multiset() =~= b.to_multiset().remove(x));
        }
        lemma_items_events_multiset(a1, b1);
        assert(items_events(a).to_multiset() =~= items_events(a1).to_multiset().insert(*x.event))
            by {
            assert(items_events(a) =~= items_events(a1).push(*x.event));
        }
        assert(items_events(b).to_multiset() =~= items_events(b1).to_multiset().insert(*x.event))
            by {
            assert(items_events(b1) =~= items_events(b).remove(j));
            assert(items_events(b)[j] == *x.event);
        }
    }
}

} // verus!
