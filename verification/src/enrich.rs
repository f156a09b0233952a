//! Enrichment of stored events with external artist taxonomy: the
//! volatile cache tier and its lookup protocol, normalization of remote
//! matches (zero tags is a confirmed "no match"), case-insensitive tag
//! merging, and the serialized rate-limit gate's arithmetic.

use vstd::prelude::*;
use crate::models::{Event, ExtScalar, ExtValue};
use crate::text;

verus! {

/// A resolved external artist profile.
#[derive(Clone, Debug)]
pub struct ArtistProfile {
    pub id: String,
    pub name: String,
    pub disambiguation: Option<String>,
    pub genres: Vec<String>,
}

/// A raw best-match document from the remote lookup, before
/// normalization: genre and tag names as returned.
#[derive(Clone, Debug)]
pub struct ArtistDoc {
    pub id: String,
    pub name: String,
    pub disambiguation: Option<String>,
    pub genres: Vec<String>,
    pub tags: Vec<String>,
}

/// The enrichment error taxonomy.
#[derive(Debug)]
pub enum MusicBrainzError {
    Http(String),
    Parse(String),
    Cache(String),
}

impl MusicBrainzError {
    pub fn message(&self) -> (r: String)
        ensures
            match *self {
                MusicBrainzError::Http(ref s) => r@ == s@,
                MusicBrainzError::Parse(ref s) => r@ == s@,
                MusicBrainzError::Cache(ref s) => r@ == s@,
            },
    {
        match self {
            MusicBrainzError::Http(s) => s.clone(),
            MusicBrainzError::Parse(s) => s.clone(),
            MusicBrainzError::Cache(s) => s.clone(),
        }
    }
}

// ----- genre extraction and normalization -----
/// Appends a name unless it is empty or already present
/// case-insensitively.
pub open spec fn dedup_ci_insert(acc: Seq<Seq<char>>, x: Seq<char>) -> Seq<Seq<char>> {
    if x.len() == 0 || exists|j: int|
        0 <= j < acc.len() && text::lower_seq(#[trigger] acc[j]) == text::lower_seq(x) {
        acc
    } else {
        acc.push(x)
    }
}

/// Folds trimmed names into the accumulator, deduplicating
/// case-insensitively and dropping empties, in order.
pub open spec fn genres_fold(items: Seq<Seq<char>>, i: int, acc: Seq<Seq<char>>) -> Seq<Seq<char>>
    decreases items.len() - i,
{
    if i < 0 || i >= items.len() {
        acc
    } else {
        genres_fold(items, i + 1, dedup_ci_insert(acc, text::trim_spec(items[i])))
    }
}

/// What `extract_genres` returns: genre names first, then tag names, each
/// trimmed, empties dropped, first spelling wins case-insensitively.
pub open spec fn extract_genres_spec(genres: Seq<Seq<char>>, tags: Seq<Seq<char>>) -> Seq<
    Seq<char>,
> {
    genres_fold(tags, 0, genres_fold(genres, 0, Seq::empty()))
}

/// No two entries are equal case-insensitively.
pub open spec fn distinct_ci(xs: Seq<Seq<char>>) -> bool {
    forall|i: int, j: int|
        0 <= i < j < xs.len() ==> text::lower_seq(#[trigger] xs[i]) != text::lower_seq(
            #[trigger] xs[j],
        )
}

proof fn lemma_genres_fold_distinct(items: Seq<Seq<char>>, i: int, acc: Seq<Seq<char>>)
    requires
        distinct_ci(acc),
    ensures
        distinct_ci(genres_fold(items, i, acc)),
    decreases items.len() - i,
{
    if i < 0 || i >= items.len() {
    } else {
        let acc2 = dedup_ci_insert(acc, text::trim_spec(items[i]));
        assert(distinct_ci(acc2)) by {
            let x = text::trim_spec(items[i]);
            if !(x.len() == 0 || exists|j: int|
                0 <= j < acc.len() && text::lower_seq(#[trigger] acc[j]) == text::lower_seq(x)) {
                assert(forall|j: int|
                    0 <= j < acc.len() ==> text::lower_seq(#[trigger] acc.push(x)[j])
                        == text::lower_seq(acc[j]));
            }
        }
        lemma_genres_fold_distinct(items, i + 1, acc2);
    }
}

fn fold_names_into(items: &Vec<String>, acc: Vec<String>) -> (r: Vec<String>)
    ensures
        r.deep_view() == genres_fold(items.deep_view(), 0, acc.deep_view()),
{
    let ghost idv = items.deep_view();
    let ghost acc0 = acc.deep_view();
    let mut out = acc;
    let mut i: usize = 0;
    while i < items.len()
        invariant
            0 <= i <= items.len(),
            idv == items.deep_view(),
            idv.len() == items@.len(),
            forall|j: int| 0 <= j < items@.len() ==> idv[j] == #[trigger] items@[j]@,
            genres_fold(idv, 0, acc0) == genres_fold(idv, i as int, out.deep_view()),
        decreases items.len() - i,
    {
        let cs = text::chars_of(items[i].as_str());
        let trimmed = text::trim_chars(&cs);
        let trimmed_low = text::lower_vec(&trimmed);
        let mut found: bool = trimmed.len() == 0;
        let mut j: usize = 0;
        while j < out.len()
            invariant
                0 <= j <= out.len(),
                trimmed_low@ == text::lower_seq(trimmed@),
                found == (trimmed@.len() == 0 || exists|q: int|
                    0 <= q < j && text::lower_seq(#[trigger] out.deep_view()[q])
                        == text::lower_seq(trimmed@)),
            decreases out.len() - j,
        {
            let e_cs = text::chars_of(out[j].as_str());
            let e_low = text::lower_vec(&e_cs);
            if text::chars_eq(&e_low, &trimmed_low) {
                proof {
                    assert(text::lower_seq(out.deep_view()[j as int]) == text::lower_seq(
                        trimmed@,
                    ));
                }
                found = true;
            }
            j = j + 1;
        }
        let ghost out0 = out.deep_view();
        if !found {
            out.push(text::string_from(&trimmed));
            proof {
                assert(out.deep_view() =~= out0.push(trimmed@));
            }
        }
        proof {
            assert(out.deep_view() == dedup_ci_insert(out0, text::trim_spec(idv[i as int])));
        }
        i = i + 1;
    }
    out
}

/// Collects a document's genre and tag names into one trimmed,
/// case-insensitively deduplicated list, genre names first, order kept.
pub fn extract_genres(doc: &ArtistDoc) -> (r: Vec<String>)
    ensures
        r.deep_view() == extract_genres_spec(doc.genres.deep_view(), doc.tags.deep_view()),
        distinct_ci(r.deep_view()),
{
    proof {
        lemma_genres_fold_distinct(
            doc.genres.deep_view(),
            0,
            Seq::empty(),
        );
        lemma_genres_fold_distinct(
            doc.tags.deep_view(),
            0,
            genres_fold(doc.genres.deep_view(), 0, Seq::empty()),
        );
    }
    let empty_acc: Vec<String> = Vec::new();
    proof {
        assert(empty_acc.deep_view() =~= Seq::<Seq<char>>::empty());
    }
    let first = fold_names_into(&doc.genres, empty_acc);
    fold_names_into(&doc.tags, first)
}

/// The full lower-casing of a string: a function of its characters alone.
pub uninterp spec fn lower_of(s: Seq<char>) -> Seq<char>;

/// Relies on `str::to_lowercase`: the result depends on the characters
/// alone, and an empty string stays empty.
#[verifier::external_body]
fn lowercase(s: &str) -> (r: String)
    ensures
        r@ == lower_of(s@),
        s@.len() == 0 ==> r@.len() == 0,
{
    s.to_lowercase()
}

/// The cache key for an artist: the name trimmed and lower-cased.
pub fn artist_key(name: &str) -> (r: String)
    ensures
        r@ == lower_of(text::trim_spec(name@)),
{
    let cs = text::chars_of(name);
    let trimmed = text::trim_chars(&cs);
    let trimmed_str = text::string_from(&trimmed);
    lowercase(trimmed_str.as_str())
}

/// Which artist an event is enriched by: its headliner's cache key, or
/// nothing when there is no headliner or the name trims to nothing.
pub fn enrichment_key(event: &Event) -> (r: Option<String>)
    ensures
        match r {
            Some(k) => event.artists@.len() > 0 && text::trim_spec(event.artists@[0]@).len() > 0
                && k@ == lower_of(text::trim_spec(event.artists@[0]@)),
            None => event.artists@.len() == 0 || text::trim_spec(event.artists@[0]@).len() == 0,
        },
{
    if event.artists.len() == 0 {
        return None;
    }
    let cs = text::chars_of(event.artists[0].as_str());
    let trimmed = text::trim_chars(&cs);
    if trimmed.len() == 0 {
        return None;
    }
    let trimmed_str = text::string_from(&trimmed);
    Some(lowercase(trimmed_str.as_str()))
}

// ----- the volatile cache tier -----
/// The first cached value for `key`, if any: an entry may itself be a
/// confirmed "no match".
pub open spec fn cache_lookup(
    m: Seq<(Seq<char>, Option<ArtistProfile>)>,
    key: Seq<char>,
) -> Option<Option<ArtistProfile>>
    decreases m.len(),
{
    if m.len() == 0 {
        None
    } else if m[0].0 == key {
        Some(m[0].1)
    } else {
        cache_lookup(m.drop_first(), key)
    }
}

/// What storing a result does: the first entry for the key is replaced,
/// else a fresh entry is appended.
pub open spec fn cache_put_model(
    m: Seq<(Seq<char>, Option<ArtistProfile>)>,
    key: Seq<char>,
    value: Option<ArtistProfile>,
) -> Seq<(Seq<char>, Option<ArtistProfile>)>
    decreases m.len(),
{
    if m.len() == 0 {
        seq![(key, value)]
    } else if m[0].0 == key {
        seq![(key, value)] + m.drop_first()
    } else {
        seq![m[0]] + cache_put_model(m.drop_first(), key, value)
    }
}

/// Negative-cache correctness: once a result for a key is stored — even
/// an explicit "no match" — a later lookup for that key hits, so the
/// protocol, which consults the remote service only on a double cache
/// miss, never re-fetches that artist.
pub proof fn lemma_negative_cache(
    m: Seq<(Seq<char>, Option<ArtistProfile>)>,
    key: Seq<char>,
    value: Option<ArtistProfile>,
)
    ensures
        cache_lookup(cache_put_model(m, key, value), key) == Some(value),
    decreases m.len(),
{
    if m.len() == 0 {
    } else if m[0].0 == key {
        assert(cache_put_model(m, key, value)[0] == (key, value));
    } else {
        lemma_negative_cache(m.drop_first(), key, value);
        let r = cache_put_model(m, key, value);
        assert(r[0] == m[0]);
        assert(r.drop_first() =~= cache_put_model(m.drop_first(), key, value));
    }
}

/// The in-process cache tier, keyed by trimmed lower-cased artist name.
/// Entries holding `None` are confirmed "no match" results.
#[derive(Debug)]
pub struct EnrichmentCache {
    entries: Vec<(String, Option<ArtistProfile>)>,
}

impl EnrichmentCache {
    pub closed spec fn model(self) -> Seq<(Seq<char>, Option<ArtistProfile>)> {
        self.entries@.map_values(|p: (String, Option<ArtistProfile>)| (p.0@, p.1))
    }

    pub fn new() -> (r: EnrichmentCache)
        ensures
            r.model() == Seq::<(Seq<char>, Option<ArtistProfile>)>::empty(),
    {
        let r = EnrichmentCache { entries: Vec::new() };
        proof {
            assert(r.model() =~= Seq::<(Seq<char>, Option<ArtistProfile>)>::empty());
        }
        r
    }

    /// The volatile tier's answer for a key: a hit short-circuits the
    /// durable tier and the remote gate entirely.
    pub fn get(&self, key: &str) -> (r: Option<&Option<ArtistProfile>>)
        ensures
            match r {
                Some(v) => cache_lookup(self.model(), key@) == Some(*v),
                None => cache_lookup(self.model(), key@) is None,
            },
    {
        proof {
            assert(self.model().skip(0) =~= self.model());
        }
        let mut i: usize = 0;
        while i < self.entries.len()
            invariant
                0 <= i <= self.entries.len(),
                cache_lookup(self.model(), key@) == cache_lookup(
                    self.model().skip(i as int),
                    key@,
                ),
            decreases self.entries.len() - i,
        {
            proof {
                assert(self.model().skip(i as int)[0] == self.model()[i as int]);
                assert(self.model().skip(i as int).drop_first() =~= self.model().skip(i + 1));
            }
            if text::str_eq(self.entries[i].0.as_str(), key) {
                return Some(&self.entries[i].1);
            }
            i = i + 1;
        }
        proof {
            assert(self.model().skip(self.entries@.len() as int).len() == 0);
        }
        None
    }

    /// Stores a result (a profile, or a confirmed "no match") under the
    /// key, replacing any earlier entry.
    pub fn put(&mut self, key: &str, value: Option<ArtistProfile>)
        ensures
            final(self).model() == cache_put_model(old(self).model(), key@, value),
    {
        let mut i: usize = 0;
        while i < self.entries.len()
            invariant
                0 <= i <= self.entries.len(),
                self == old(self),
                forall|j: int| 0 <= j < i ==> (#[trigger] self.model()[j]).0 != key@,
            decreases self.entries.len() - i,
        {
            if text::str_eq(self.entries[i].0.as_str(), key) {
                self.entries[i] = (key.to_owned(), value);
                proof {
                    lemma_cache_put_at(old(self).model(), key@, value, i as int);
                    assert(self.model() =~= old(self).model().update(
                        i as int,
                        (key@, value),
                    ));
                }
                return ;
            }
            i = i + 1;
        }
        self.entries.push((key.to_owned(), value));
        proof {
            lemma_cache_put_append(old(self).model(), key@, value);
            assert(self.model() =~= old(self).model().push((key@, value)));
        }
    }
}

/// Storing at the first matching index is the put model.
proof fn lemma_cache_put_at(
    m: Seq<(Seq<char>, Option<ArtistProfile>)>,
    key: Seq<char>,
    value: Option<ArtistProfile>,
    i: int,
)
    requires
        0 <= i < m.len(),
        m[i].0 == key,
        forall|j: int| 0 <= j < i ==> (#[trigger] m[j]).0 != key,
    ensures
        cache_put_model(m, key, value) == m.update(i, (key, value)),
    decreases m.len(),
{
    if i == 0 {
        assert(cache_put_model(m, key, value) =~= m.update(0, (key, value)));
    } else {
        let rest = m.drop_first();
        assert(forall|j: int| 0 <= j < rest.len() ==> rest[j] == m[j + 1]);
        assert(forall|j: int| 0 <= j < i - 1 ==> (#[trigger] rest[j]).0 != key);
        lemma_cache_put_at(rest, key, value, i - 1);
        assert(cache_put_model(m, key, value) =~= m.update(i, (key, value)));
    }
}

/// Appending a fresh key is the put model.
proof fn lemma_cache_put_append(
    m: Seq<(Seq<char>, Option<ArtistProfile>)>,
    key: Seq<char>,
    value: Option<ArtistProfile>,
)
    requires
        forall|j: int| 0 <= j < m.len() ==> (#[trigger] m[j]).0 != key,
    ensures
        cache_put_model(m, key, value) == m.push((key, value)),
    decreases m.len(),
{
    if m.len() == 0 {
        assert(cache_put_model(m, key, value) =~= m.push((key, value)));
    } else {
        let rest = m.drop_first();
        assert(forall|j: int| 0 <= j < rest.len() ==> rest[j] == m[j + 1]);
        lemma_cache_put_append(rest, key, value);
        assert(cache_put_model(m, key, value) =~= m.push((key, value)));
    }
}

// ----- the rate-limit gate -----
/// Minimum spacing between remote lookups, in milliseconds: slightly
/// over one second.
pub const RATE_LIMIT_WINDOW_MS: u64 = 1100;

pub open spec fn delay_spec(last: Option<u64>, now: int) -> int {
    match last {
        None => 0,
        Some(t) => if now >= t + 1100 {
            0
        } else {
            t + 1100 - now
        },
    }
}

/// The serialized rate-limit gate's state: when the previous remote
/// request started. The surrounding critical section computes the wait,
/// sleeps it, records the new start, and only then performs the call.
#[derive(Clone, Copy, Debug)]
pub struct RateGate {
    pub last_request_ms: Option<u64>,
}

impl RateGate {
    pub open spec fn wf(self) -> bool {
        match self.last_request_ms {
            None => true,
            Some(t) => t < 0x4000_0000_0000_0000,
        }
    }

    pub fn new() -> (r: RateGate)
        ensures
            r.last_request_ms is None,
            r.wf(),
    {
        RateGate { last_request_ms: None }
    }

    /// How long a caller at `now_ms` must still wait before its remote
    /// request may start: after the delay, the start is at least the
    /// spacing window after the previous request's start.
    pub fn delay_before(&self, now_ms: u64) -> (r: u64)
        requires
            self.wf(),
            now_ms < 0x4000_0000_0000_0000,
        ensures
            r == delay_spec(self.last_request_ms, now_ms as int),
            match self.last_request_ms {
                None => r == 0,
                Some(t) => now_ms + r >= t + RATE_LIMIT_WINDOW_MS,
            },
    {
        match self.last_request_ms {
            None => 0,
            Some(t) => {
                if now_ms >= t + 1100 {
                    0
                } else {
                    t + 1100 - now_ms
                }
            },
        }
    }

    /// Records the start of a remote request.
    pub fn record(&mut self, start_ms: u64)
        requires
            start_ms < 0x4000_0000_0000_0000,
        ensures
            final(self).last_request_ms == Some(start_ms),
            final(self).wf(),
    {
        self.last_request_ms = Some(start_ms);
    }
}

/// The rate-limiting floor: when the previous remote request began at
/// `t`, a caller at `now` that first sleeps the delay this limiter hands it
/// cannot begin before the spacing window after `t` has passed, so
/// consecutive remote calls through the serialized limiter stay at least
/// the window apart.
pub proof fn lemma_rate_spacing(t: u64, now: u64)
    requires
        t < 0x4000_0000_0000_0000,
        now < 0x4000_0000_0000_0000,
    ensures
        now + delay_spec(Some(t), now as int) >= t + RATE_LIMIT_WINDOW_MS,
{
}

// ----- applying a profile to an event -----
/// Appends a genre unless an equal tag (ASCII-case-insensitively) is
/// already present.
pub open spec fn merge_step(acc: Seq<Seq<char>>, g: Seq<char>) -> Seq<Seq<char>> {
    if exists|j: int|
        0 <= j < acc.len() && text::lower_seq(#[trigger] acc[j]) == text::lower_seq(g) {
        acc
    } else {
        acc.push(g)
    }
}

/// The event's tags with the profile's genres folded in, in order,
/// without duplicating existing tags.
pub open spec fn merge_tags_spec(tags: Seq<Seq<char>>, genres: Seq<Seq<char>>, i: int) -> Seq<
    Seq<char>,
>
    decreases genres.len() - i,
{
    if i < 0 || i >= genres.len() {
        tags
    } else {
        merge_tags_spec(merge_step(tags, genres[i]), genres, i + 1)
    }
}

/// The key an enrichment profile is attached under in the extension map.
pub open spec fn mb_key() -> Seq<char> {
    "musicbrainz"@
}

/// The attached profile object: id, name, disambiguation and genres.
pub open spec fn mb_value_ok(v: ExtValue, p: ArtistProfile) -> bool {
    &&& v matches ExtValue::Object(m) && m@.len() == 4
    &&& (v matches ExtValue::Object(m) ==> {
        &&& m@[0].0@ == "id"@ && (m@[0].1 matches ExtScalar::Text(s) && s == p.id)
        &&& m@[1].0@ == "name"@ && (m@[1].1 matches ExtScalar::Text(s) && s == p.name)
        &&& m@[2].0@ == "disambiguation"@ && (match p.disambiguation {
            Some(d) => m@[2].1 matches ExtScalar::Text(s) && s == d,
            None => m@[2].1 is Null,
        })
        &&& m@[3].0@ == "genres"@ && (m@[3].1 matches ExtScalar::TextList(g) && g.deep_view()
            == p.genres.deep_view())
    })
}

fn mb_value(p: &ArtistProfile) -> (v: ExtValue)
    ensures
        mb_value_ok(v, *p),
{
    let mut m: Vec<(String, ExtScalar)> = Vec::new();
    m.push(
        (
            <String as vstd::string::StringExecFns>::from_str("id"),
            ExtScalar::Text(p.id.clone()),
        ),
    );
    m.push(
        (
            <String as vstd::string::StringExecFns>::from_str("name"),
            ExtScalar::Text(p.name.clone()),
        ),
    );
    match &p.disambiguation {
        Some(d) => {
            m.push(
                (
                    <String as vstd::string::StringExecFns>::from_str("disambiguation"),
                    ExtScalar::Text(d.clone()),
                ),
            );
        },
        None => {
            m.push(
                (
                    <String as vstd::string::StringExecFns>::from_str("disambiguation"),
                    ExtScalar::Null,
                ),
            );
        },
    }
    let genres_copy = p.genres.clone();
    proof {
        broadcast use vstd::std_specs::vec::vec_clone_deep_view_proof;

        assert(genres_copy.deep_view() =~= p.genres.deep_view());
    }
    m.push(
        (
            <String as vstd::string::StringExecFns>::from_str("genres"),
            ExtScalar::TextList(genres_copy),
        ),
    );
    ExtValue::Object(m)
}

/// `ext_key_idx` finds the first occurrence of a key.
proof fn lemma_ext_key_idx(m: Seq<(String, ExtValue)>, key: Seq<char>)
    ensures
        0 <= ext_key_idx(m, key) <= m.len(),
        ext_key_idx(m, key) < m.len() ==> m[ext_key_idx(m, key)].0@ == key,
        forall|j: int| 0 <= j < ext_key_idx(m, key) ==> (#[trigger] m[j]).0@ != key,
        (exists|j: int| 0 <= j < m.len() && (#[trigger] m[j]).0@ == key) <==> ext_key_idx(m, key)
            < m.len(),
    decreases m.len(),
{
    if m.len() == 0 {
    } else if m[0].0@ == key {
    } else {
        let rest = m.drop_first();
        lemma_ext_key_idx(rest, key);
        assert(forall|j: int| 0 <= j < rest.len() ==> rest[j] == m[j + 1]);
        assert forall|j: int| 0 <= j < ext_key_idx(m, key) implies (#[trigger] m[j]).0@
            != key by {
            if j >= 1 {
                assert(rest[j - 1] == m[j]);
                assert(j - 1 < ext_key_idx(rest, key));
            }
        }
        if exists|j: int| 0 <= j < m.len() && (#[trigger] m[j]).0@ == key {
            let j = choose|j: int| 0 <= j < m.len() && (#[trigger] m[j]).0@ == key;
            assert(j != 0);
            assert(rest[j - 1].0@ == key);
        }
        if exists|j: int| 0 <= j < rest.len() && (#[trigger] rest[j]).0@ == key {
            let j = choose|j: int| 0 <= j < rest.len() && (#[trigger] rest[j]).0@ == key;
            assert(m[j + 1].0@ == key);
        }
    }
}

/// Sets the namespaced profile object in the extension entries,
/// replacing an earlier one in place or appending.
fn set_mb_entry(entries: Vec<(String, ExtValue)>, profile: &ArtistProfile) -> (r: Vec<
    (String, ExtValue),
>)
    ensures
        ext_set_ok(entries@, r@, *profile),
{
    let value = mb_value(profile);
    let mut out = entries;
    let ghost m0 = out@;
    let n = out.len();
    let mut i: usize = 0;
    let mut idx: usize = n;
    while i < n
        invariant
            0 <= i <= n,
            n == m0.len(),
            out@ == m0,
            idx <= n,
            idx == n ==> forall|j: int| 0 <= j < i ==> (#[trigger] m0[j]).0@ != "musicbrainz"@,
            idx < n ==> idx as int == ext_key_idx(m0, "musicbrainz"@),
        decreases n - i,
    {
        if idx == n && text::str_eq(out[i].0.as_str(), "musicbrainz") {
            proof {
                lemma_ext_key_idx(m0, "musicbrainz"@);
                assert(ext_key_idx(m0, "musicbrainz"@) == i);
            }
            idx = i;
        }
        i = i + 1;
    }
    let key = <String as vstd::string::StringExecFns>::from_str("musicbrainz");
    proof {
        lemma_ext_key_idx(m0, "musicbrainz"@);
    }
    if idx < n {
        out[idx] = (key, value);
        proof {
            assert(out@ =~= m0.update(idx as int, out@[idx as int]));
            assert(out@.len() == m0.len());
        }
    } else {
        out.push((key, value));
    }
    proof {
        assert(ext_key_idx(m0, mb_key()) < m0.len() ==> out@.len() == m0.len());
    }
    out
}

fn merge_tags(tags: Vec<String>, genres: &Vec<String>) -> (r: Vec<String>)
    ensures
        r.deep_view() == merge_tags_spec(tags.deep_view(), genres.deep_view(), 0),
{
    let ghost gdv = genres.deep_view();
    let ghost t0 = tags.deep_view();
    let mut out = tags;
    let mut i: usize = 0;
    while i < genres.len()
        invariant
            0 <= i <= genres.len(),
            gdv == genres.deep_view(),
            gdv.len() == genres@.len(),
            forall|j: int| 0 <= j < genres@.len() ==> gdv[j] == #[trigger] genres@[j]@,
            merge_tags_spec(t0, gdv, 0) == merge_tags_spec(out.deep_view(), gdv, i as int),
        decreases genres.len() - i,
    {
        let g_cs = text::chars_of(genres[i].as_str());
        let g_low = text::lower_vec(&g_cs);
        let mut found: bool = false;
        let mut j: usize = 0;
        while j < out.len()
            invariant
                0 <= j <= out.len(),
                g_low@ == text::lower_seq(genres@[i as int]@),
                i < genres@.len(),
                found == exists|q: int|
                    0 <= q < j && text::lower_seq(#[trigger] out.deep_view()[q])
                        == text::lower_seq(genres@[i as int]@),
            decreases out.len() - j,
        {
            let e_cs = text::chars_of(out[j].as_str());
            let e_low = text::lower_vec(&e_cs);
            if text::chars_eq(&e_low, &g_low) {
                proof {
                    assert(text::lower_seq(out.deep_view()[j as int]) == text::lower_seq(
                        genres@[i as int]@,
                    ));
                }
                found = true;
            }
            j = j + 1;
        }
        let ghost out0 = out.deep_view();
        if !found {
            out.push(genres[i].clone());
            proof {
                assert(out.deep_view() =~= out0.push(gdv[i as int]));
            }
        }
        proof {
            assert(out.deep_view() == merge_step(out0, gdv[i as int]));
        }
        i = i + 1;
    }
    out
}

/// Merges a resolved profile into an event: its genres extend the tag
/// list without duplicating existing tags (case-insensitively), and the
/// raw profile is attached under the namespaced extension key. Every
/// other field is untouched.
pub fn enrich_apply(event: Event, profile: &ArtistProfile) -> (r: Event)
    ensures
        r.tags.deep_view() == merge_tags_spec(
            event.tags.deep_view(),
            profile.genres.deep_view(),
            0,
        ),
        ext_set_ok(event.extra.entries@, r.extra.entries@, *profile),
        r.id == event.id,
        r.source == event.source,
        r.venue_id == event.venue_id,
        r.venue_name == event.venue_name,
        r.venue_url == event.venue_url,
        r.start_local == event.start_local,
        r.start_utc == event.start_utc,
        r.doors_local == event.doors_local,
        r.artists == event.artists,
        r.is_all_ages == event.is_all_ages,
        r.ticket_url == event.ticket_url,
        r.event_url == event.event_url,
        r.price_min_cents == event.price_min_cents,
        r.price_max_cents == event.price_max_cents,
        r.currency == event.currency,
        r.scraped_at_utc == event.scraped_at_utc,
{
    let Event {
        id,
        source,
        venue_id,
        venue_name,
        venue_url,
        start_local,
        start_utc,
        doors_local,
        artists,
        is_all_ages,
        ticket_url,
        event_url,
        price_min_cents,
        price_max_cents,
        currency,
        tags,
        scraped_at_utc,
        extra,
    } = event;
    let new_tags = merge_tags(tags, &profile.genres);
    let new_entries = set_mb_entry(extra.entries, profile);
    Event {
        id,
        source,
        venue_id,
        venue_name,
        venue_url,
        start_local,
        start_utc,
        doors_local,
        artists,
        is_all_ages,
        ticket_url,
        event_url,
        price_min_cents,
        price_max_cents,
        currency,
        tags: new_tags,
        scraped_at_utc,
        extra: crate::models::ExtMap { entries: new_entries },
    }
}

/// Enrichment's outcome for an event: a resolved profile is merged in;
/// no match — or any failure the caller degraded to "no profile" —
/// leaves the event exactly as it was. Enrichment never fails the
/// caller's broader workflow.
pub fn enrich_event(event: Event, profile: Option<&ArtistProfile>) -> (r: Event)
    ensures
        match profile {
            Some(p) => {
                &&& r.tags.deep_view() == merge_tags_spec(
                    event.tags.deep_view(),
                    p.genres.deep_view(),
                    0,
                )
                &&& ext_set_ok(event.extra.entries@, r.extra.entries@, *p)
                &&& r.id == event.id
                &&& r.source == event.source
                &&& r.venue_id == event.venue_id
                &&& r.venue_name == event.venue_name
                &&& r.venue_url == event.venue_url
                &&& r.start_local == event.start_local
                &&& r.start_utc == event.start_utc
                &&& r.doors_local == event.doors_local
                &&& r.artists == event.artists
                &&& r.is_all_ages == event.is_all_ages
                &&& r.ticket_url == event.ticket_url
                &&& r.event_url == event.event_url
                &&& r.price_min_cents == event.price_min_cents
                &&& r.price_max_cents == event.price_max_cents
                &&& r.currency == event.currency
                &&& r.scraped_at_utc == event.scraped_at_utc
            },
            None => r == event,
        },
{
    match profile {
        Some(p) => enrich_apply(event, p),
        None => event,
    }
}

/// First index of the key in the extension entries, or their count.
pub open spec fn ext_key_idx(m: Seq<(String, ExtValue)>, key: Seq<char>) -> int
    decreases m.len(),
{
    if m.len() == 0 {
        0
    } else if m[0].0@ == key {
        0
    } else {
        1 + ext_key_idx(m.drop_first(), key)
    }
}

/// The extension entries gained (or replaced) the namespaced profile
/// object, all other entries untouched, in place.
pub open spec fn ext_set_ok(
    old_m: Seq<(String, ExtValue)>,
    new_m: Seq<(String, ExtValue)>,
    p: ArtistProfile,
) -> bool {
    let i = ext_key_idx(old_m, mb_key());
    if i < old_m.len() {
        &&& new_m.len() == old_m.len()
        &&& (forall|j: int| 0 <= j < old_m.len() && j != i ==> new_m[j] == old_m[j])
        &&& new_m[i].0@ == mb_key()
        &&& mb_value_ok(new_m[i].1, p)
    } else {
        &&& new_m.len() == old_m.len() + 1
        &&& (forall|j: int| 0 <= j < old_m.len() ==> new_m[j] == old_m[j])
        &&& new_m[old_m.len() as int].0@ == mb_key()
        &&& mb_value_ok(new_m[old_m.len() as int].1, p)
    }
}

/// Normalizes a remote best match: a document whose taxonomy is empty is
/// a confirmed "no match" — the negative result is cacheable and must
/// not be re-fetched.
pub fn profile_from_doc(doc: ArtistDoc) -> (r: Option<ArtistProfile>)
    ensures
        match r {
            Some(p) => {
                &&& extract_genres_spec(doc.genres.deep_view(), doc.tags.deep_view()).len() > 0
                &&& p.genres.deep_view() == extract_genres_spec(
                    doc.genres.deep_view(),
                    doc.tags.deep_view(),
                )
                &&& p.id == doc.id
                &&& p.name == doc.name
                &&& p.disambiguation == doc.disambiguation
            },
            None => extract_genres_spec(doc.genres.deep_view(), doc.tags.deep_view()).len() == 0,
        },
{
    let genres = extract_genres(&doc);
    if genres.len() == 0 {
        None
    } else {
        Some(
            ArtistProfile {
                id: doc.id,
                name: doc.name,
                disambiguation: doc.disambiguation,
                genres,
            },
        )
    }
}

} // verus!
