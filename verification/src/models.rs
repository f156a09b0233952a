//! The canonical event record, its open-ended extension map, and the
//! deterministic content identity that deduplication keys on.

use vstd::prelude::*;
use vstd::string::StringExecFns;
use crate::dates::{LocalStamp, rfc3339_of, utc_of};
use crate::dates;
use crate::text;

verus! {

/// A scalar of the extension map.
#[derive(Clone, Debug)]
pub enum ExtScalar {
    Null,
    Bool(bool),
    Int(i64),
    Text(String),
    TextList(Vec<String>),
}

/// An extension-map entry's value: a scalar, or one nested object of
/// scalars (such as an enrichment profile under its namespaced key).
#[derive(Clone, Debug)]
pub enum ExtValue {
    Scalar(ExtScalar),
    Object(Vec<(String, ExtScalar)>),
}

/// The extension map itself: keyed entries in insertion order.
#[derive(Clone, Debug)]
pub struct ExtMap {
    pub entries: Vec<(String, ExtValue)>,
}

/// The keys of the extension map, as character sequences, in order.
pub open spec fn ext_keys(m: ExtMap) -> Seq<Seq<char>> {
    m.entries@.map_values(|p: (String, ExtValue)| p.0@)
}

/// An empty extension map.
pub fn empty_extra() -> (r: ExtMap)
    ensures
        r.entries@.len() == 0,
{
    ExtMap { entries: Vec::new() }
}

/// Wraps collected entries as an extension map.
pub fn ensure_extra(extra: Vec<(String, ExtValue)>) -> (r: ExtMap)
    ensures
        r.entries == extra,
{
    ExtMap { entries: extra }
}

/// The canonical event record.
#[derive(Clone, Debug)]
pub struct Event {
    pub id: String,
    pub source: String,
    pub venue_id: String,
    pub venue_name: Option<String>,
    pub venue_url: Option<String>,
    pub start_local: Option<String>,
    pub start_utc: String,
    pub doors_local: Option<String>,
    pub artists: Vec<String>,
    pub is_all_ages: Option<bool>,
    pub ticket_url: Option<String>,
    pub event_url: Option<String>,
    pub price_min_cents: Option<i64>,
    pub price_max_cents: Option<i64>,
    pub currency: Option<String>,
    pub tags: Vec<String>,
    pub scraped_at_utc: String,
    pub extra: ExtMap,
}

impl Event {
    /// The display title: the headliner, or a fixed fallback without one.
    pub fn title(&self) -> (r: String)
        ensures
            r@ == self.title_spec(),
    {
        if self.artists.len() > 0 {
            self.artists[0].clone()
        } else {
            String::from_str("Untitled Event")
        }
    }

    pub open spec fn title_spec(self) -> Seq<char> {
        if self.artists@.len() > 0 {
            self.artists@[0]@
        } else {
            "Untitled Event"@
        }
    }
}

/// The entry holds the key and a plain text scalar of the given value.
pub open spec fn text_entry_ok(p: (String, ExtValue), k: Seq<char>, v: Seq<char>) -> bool {
    p.0@ == k && (p.1 matches ExtValue::Scalar(s) && (s matches ExtScalar::Text(t) && t@ == v))
}

/// The extension entries are exactly the expected keyed texts, in order.
pub open spec fn extra_matches(
    m: Seq<(String, ExtValue)>,
    expected: Seq<(Seq<char>, Seq<char>)>,
) -> bool {
    m.len() == expected.len() && forall|k: int|
        0 <= k < m.len() ==> text_entry_ok(#[trigger] m[k], expected[k].0, expected[k].1)
}

/// What every event a venue adapter emits satisfies: it carries the
/// adapter's identity fields, a nonempty lineup, and a canonical UTC
/// start derived from a well-formed resolved local instant, with the
/// content identity computed over it.
pub open spec fn adapter_event_ok(
    e: Event,
    venue_id: Seq<char>,
    venue_name: Seq<char>,
    venue_url: Seq<char>,
) -> bool {
    &&& e.venue_id@ == venue_id
    &&& e.source@ == venue_id
    &&& e.venue_name.deep_view() == Some(venue_name)
    &&& e.venue_url.deep_view() == Some(venue_url)
    &&& e.artists@.len() > 0
    &&& exists|ls: LocalStamp|
        ls.wf() && #[trigger] rfc3339_of(utc_of(ls)) == e.start_utc@ && e.id@ == identity_of(
            venue_id,
            rfc3339_of(utc_of(ls)),
            e.artists@[0]@,
        )
}

// ----- the content identity -----
/// The SHA-256 digest of a byte sequence: a pure function of the bytes.
pub uninterp spec fn sha256_of(input: Seq<u8>) -> Seq<u8>;

/// Relies on `sha2::Sha256` (via the `digest` traits): the SHA-256
/// digest of the input, 32 bytes, a function of the bytes alone.
#[verifier::external_body]
fn sha256_bytes(input: &Vec<u8>) -> (r: Vec<u8>)
    ensures
        r@ == sha256_of(input@),
        r@.len() == 32,
{
    let mut h = <sha2::Sha256 as sha2::digest::Digest>::new();
    sha2::digest::Digest::update(&mut h, input.as_slice());
    sha2::digest::Digest::finalize(h).to_vec()
}

pub open spec fn hex_digit(v: int) -> char {
    if v < 10 {
        text::digit_char(v)
    } else if v == 10 {
        'a'
    } else if v == 11 {
        'b'
    } else if v == 12 {
        'c'
    } else if v == 13 {
        'd'
    } else if v == 14 {
        'e'
    } else {
        'f'
    }
}

/// Lower-case hex, two digits per byte, in order.
pub open spec fn hex_of(bytes: Seq<u8>) -> Seq<char>
    decreases bytes.len(),
{
    if bytes.len() == 0 {
        Seq::empty()
    } else {
        hex_of(bytes.drop_last()) + seq![
            hex_digit(bytes.last() as int / 16),
            hex_digit(bytes.last() as int % 16),
        ]
    }
}

fn hex_digit_x(v: u8) -> (r: char)
    requires
        v < 16,
    ensures
        r == hex_digit(v as int),
{
    if v < 10 {
        text::digit_ch(v as u32)
    } else if v == 10 {
        'a'
    } else if v == 11 {
        'b'
    } else if v == 12 {
        'c'
    } else if v == 13 {
        'd'
    } else if v == 14 {
        'e'
    } else {
        'f'
    }
}

fn to_hex(bytes: &Vec<u8>) -> (r: Vec<char>)
    ensures
        r@ == hex_of(bytes@),
{
    let mut out: Vec<char> = Vec::new();
    let mut i: usize = 0;
    while i < bytes.len()
        invariant
            0 <= i <= bytes.len(),
            out@ == hex_of(bytes@.take(i as int)),
        decreases bytes.len() - i,
    {
        let b = bytes[i];
        out.push(hex_digit_x(b / 16));
        out.push(hex_digit_x(b % 16));
        proof {
            assert(bytes@.take(i + 1 as int).drop_last() =~= bytes@.take(i as int));
            assert(bytes@.take(i + 1 as int).last() == bytes@[i as int]);
        }
        i = i + 1;
    }
    proof {
        assert(bytes@.take(bytes@.len() as int) =~= bytes@);
    }
    out
}

/// The bytes hashed for an identity: UTF-8 of the venue id, the canonical
/// UTC start, and the headliner, separated by `|`.
pub open spec fn identity_input(
    venue_id: Seq<char>,
    start_utc: Seq<char>,
    headliner: Seq<char>,
) -> Seq<u8> {
    vstd::utf8::encode_utf8(venue_id) + seq![124u8] + vstd::utf8::encode_utf8(start_utc) + seq![
        124u8,
    ] + vstd::utf8::encode_utf8(headliner)
}

/// The identity: lower-case hex of the SHA-256 of the identity input.
pub open spec fn identity_of(
    venue_id: Seq<char>,
    start_utc: Seq<char>,
    headliner: Seq<char>,
) -> Seq<char> {
    hex_of(sha256_of(identity_input(venue_id, start_utc, headliner)))
}

/// Identity determinism: the identity depends on the venue id, the
/// canonical UTC start and the headliner alone, so identical triples
/// always collapse to the same identity, whatever the other fields.
pub proof fn lemma_identity_deterministic(
    v1: Seq<char>,
    s1: Seq<char>,
    h1: Seq<char>,
    v2: Seq<char>,
    s2: Seq<char>,
    h2: Seq<char>,
)
    requires
        v1 == v2,
        s1 == s2,
        h1 == h2,
    ensures
        identity_of(v1, s1, h1) == identity_of(v2, s2, h2),
{
}

fn push_bytes(out: &mut Vec<u8>, s: &[u8])
    ensures
        final(out)@ == old(out)@ + s@,
{
    let mut i: usize = 0;
    while i < s.len()
        invariant
            0 <= i <= s.len(),
            out@ == old(out)@ + s@.take(i as int),
        decreases s.len() - i,
    {
        out.push(s[i]);
        proof {
            assert(old(out)@ + s@.take(i + 1 as int) =~= (old(out)@ + s@.take(i as int)).push(
                s@[i as int],
            ));
        }
        i = i + 1;
    }
    proof {
        assert(s@.take(s@.len() as int) =~= s@);
    }
}

pub open spec fn headliner_spec(artists: Seq<Seq<char>>) -> Seq<char> {
    if artists.len() > 0 {
        artists[0]
    } else {
        "unknown"@
    }
}

/// Assembles the canonical record from adapter-supplied fields. The
/// identity is the SHA-256 over `venue_id | start_utc | headliner`,
/// hex-encoded; the event URL defaults to the ticket URL.
pub fn build_event(
    venue_id: &str,
    venue_name: &str,
    venue_url: &str,
    start_local: &LocalStamp,
    artists: Vec<String>,
    ticket_url: Option<String>,
    event_url: Option<String>,
    is_all_ages: Option<bool>,
    doors_local: Option<String>,
    extra: ExtMap,
    scraped_at_utc: String,
) -> (r: Event)
    requires
        start_local.wf(),
    ensures
        r.id@ == identity_of(
            venue_id@,
            rfc3339_of(utc_of(*start_local)),
            headliner_spec(artists.deep_view()),
        ),
        r.source@ == venue_id@,
        r.venue_id@ == venue_id@,
        r.venue_name.deep_view() == Some(venue_name@),
        r.venue_url.deep_view() == Some(venue_url@),
        r.start_local.deep_view() == Some(rfc3339_of(*start_local)),
        r.start_utc@ == rfc3339_of(utc_of(*start_local)),
        r.doors_local == doors_local,
        r.artists == artists,
        r.is_all_ages == is_all_ages,
        r.ticket_url == ticket_url,
        (match event_url {
            Some(u) => r.event_url == Some(u),
            None => r.event_url == ticket_url,
        }),
        r.price_min_cents is None,
        r.price_max_cents is None,
        r.currency is None,
        r.tags@.len() == 0,
        r.scraped_at_utc == scraped_at_utc,
        r.extra == extra,
{
    let utc = dates::to_utc(*start_local);
    let start_utc_str = dates::to_rfc3339(&utc);
    let start_local_str = dates::to_rfc3339(start_local);
    let headliner: String = if artists.len() > 0 {
        artists[0].clone()
    } else {
        String::from_str("unknown")
    };
    let mut input: Vec<u8> = Vec::new();
    push_bytes(&mut input, venue_id.as_bytes());
    input.push(124);
    push_bytes(&mut input, start_utc_str.as_str().as_bytes());
    input.push(124);
    push_bytes(&mut input, headliner.as_str().as_bytes());
    proof {
        assert(input@ =~= identity_input(
            venue_id@,
            rfc3339_of(utc_of(*start_local)),
            headliner_spec(artists.deep_view()),
        ));
    }
    let digest = sha256_bytes(&input);
    let id_chars = to_hex(&digest);
    let id = text::string_from(&id_chars);
    let event_url_final: Option<String> = match event_url {
        Some(u) => Some(u),
        None => match &ticket_url {
            Some(t) => Some(t.clone()),
            None => None,
        },
    };
    Event {
        id,
        source: venue_id.to_owned(),
        venue_id: venue_id.to_owned(),
        venue_name: Some(venue_name.to_owned()),
        venue_url: Some(venue_url.to_owned()),
        start_local: Some(start_local_str),
        start_utc: start_utc_str,
        doors_local,
        artists,
        is_all_ages,
        ticket_url,
        event_url: event_url_final,
        price_min_cents: None,
        price_max_cents: None,
        currency: None,
        tags: Vec::new(),
        scraped_at_utc,
        extra,
    }
}

} // verus!
