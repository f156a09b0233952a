//! Access to fetched markup. The HTML parser's selections are pure
//! functions of the markup and selector text, so each is carried by a
//! named result: the verified extraction helpers and the adapters'
//! contracts are exact over those names.

use vstd::prelude::*;
use crate::text;

verus! {

/// The serialized HTML of each element of the parsed document matching
/// the selector, in document order; an invalid selector matches nothing.
/// A pure function of the markup and selector text.
pub uninterp spec fn outer_htmls_of(html: Seq<char>, css: Seq<char>) -> Seq<Seq<char>>;

/// Relies on `scraper::Html::parse_document`, `Selector::parse` and
/// `ElementRef::html`: serializes every element of the parsed document
/// matching the selector, in document order.
#[verifier::external_body]
fn select_outer_htmls(html: &str, css: &str) -> (r: Vec<String>)
    ensures
        r.deep_view() == outer_htmls_of(html@, css@),
{
    let sel = match scraper::Selector::parse(css) {
        Ok(s) => s,
        Err(_) => return Vec::new(),
    };
    scraper::Html::parse_document(html).select(&sel).map(|el| el.html()).collect()
}

/// The descendant text chunks, in order, of the parsed fragment's first
/// element matching the selector; none when nothing matches or the
/// selector is invalid. A pure function of the fragment and selector text.
pub uninterp spec fn first_text_parts_of(html: Seq<char>, css: Seq<char>) -> Option<Seq<Seq<char>>>;

/// Relies on `scraper::Html::parse_fragment`, `Selector::parse`,
/// `Html::select` and `ElementRef::text`: the first matching element's
/// descendant text chunks, in order.
#[verifier::external_body]
fn select_first_text_parts(html: &str, css: &str) -> (r: Option<Vec<String>>)
    ensures
        r.deep_view() == first_text_parts_of(html@, css@),
{
    let sel = scraper::Selector::parse(css).ok()?;
    scraper::Html::parse_fragment(html)
        .select(&sel)
        .next()
        .map(|el| el.text().map(|t| t.to_string()).collect())
}

/// The inner HTML of the parsed fragment's first element matching the
/// selector. A pure function of the fragment and selector text.
pub uninterp spec fn first_inner_html_of(html: Seq<char>, css: Seq<char>) -> Option<Seq<char>>;

/// Relies on `scraper::Html::parse_fragment`, `Selector::parse`,
/// `Html::select` and `ElementRef::inner_html`.
#[verifier::external_body]
fn select_first_inner_html(html: &str, css: &str) -> (r: Option<String>)
    ensures
        r.deep_view() == first_inner_html_of(html@, css@),
{
    let sel = scraper::Selector::parse(css).ok()?;
    scraper::Html::parse_fragment(html).select(&sel).next().map(|el| el.inner_html())
}

/// The value of the attribute on the parsed fragment's first element
/// matching the selector. A pure function of the three strings.
pub uninterp spec fn first_attr_of(html: Seq<char>, css: Seq<char>, attr: Seq<char>) -> Option<
    Seq<char>,
>;

/// Relies on `scraper::Html::parse_fragment`, `Selector::parse`,
/// `Html::select` and `ElementRef::attr`.
#[verifier::external_body]
fn select_first_attr(html: &str, css: &str, attr: &str) -> (r: Option<String>)
    ensures
        r.deep_view() == first_attr_of(html@, css@, attr@),
{
    let sel = scraper::Selector::parse(css).ok()?;
    scraper::Html::parse_fragment(html)
        .select(&sel)
        .next()
        .and_then(|el| el.attr(attr))
        .map(|s| s.to_string())
}

/// Text chunks joined by single spaces, in order.
pub open spec fn join_parts_spec(parts: Seq<Seq<char>>, i: int) -> Seq<char>
    decreases parts.len() - i,
{
    if i < 0 || i >= parts.len() {
        Seq::empty()
    } else {
        (if i > 0 {
            seq![' ']
        } else {
            Seq::empty()
        }) + parts[i] + join_parts_spec(parts, i + 1)
    }
}

fn join_parts(parts: &Vec<String>) -> (r: Vec<char>)
    ensures
        r@ == join_parts_spec(parts.deep_view(), 0),
{
    let ghost pdv = parts.deep_view();
    let mut out: Vec<char> = Vec::new();
    let mut i: usize = 0;
    while i < parts.len()
        invariant
            0 <= i <= parts.len(),
            pdv == parts.deep_view(),
            pdv.len() == parts@.len(),
            forall|j: int| 0 <= j < parts@.len() ==> pdv[j] == #[trigger] parts@[j]@,
            join_parts_spec(pdv, 0) == out@ + join_parts_spec(pdv, i as int),
        decreases parts.len() - i,
    {
        if i > 0 {
            out.push(' ');
        }
        let cs = text::chars_of(parts[i].as_str());
        let mut j: usize = 0;
        let ghost out_mid = out@;
        while j < cs.len()
            invariant
                0 <= j <= cs.len(),
                out@ == out_mid + cs@.take(j as int),
            decreases cs.len() - j,
        {
            out.push(cs[j]);
            proof {
                assert(cs@.take(j + 1 as int) =~= cs@.take(j as int).push(cs@[j as int]));
            }
            j = j + 1;
        }
        proof {
            assert(cs@.take(cs@.len() as int) =~= cs@);
        }
        i = i + 1;
    }
    out
}

/// What `first_text` yields: the first matching element's text chunks
/// joined and cleaned; nothing when no element matches or the text
/// cleans to nothing.
pub open spec fn first_text_spec(html: Seq<char>, css: Seq<char>) -> Option<Seq<char>> {
    match first_text_parts_of(html, css) {
        None => None,
        Some(parts) => {
            let c = text::clean_text_spec(join_parts_spec(parts, 0));
            if c.len() == 0 {
                None
            } else {
                Some(c)
            }
        },
    }
}

/// The first matching element's text, cleaned; nothing when no element
/// matches or its text cleans to nothing.
pub fn first_text(html: &str, css: &str) -> (r: Option<String>)
    ensures
        r.deep_view() == first_text_spec(html@, css@),
        r matches Some(s) ==> s@.len() > 0 && text::clean_text_spec(s@) == s@,
{
    match select_first_text_parts(html, css) {
        None => None,
        Some(parts) => {
            let joined = join_parts(&parts);
            let cleaned = text::clean_chars(&joined);
            proof {
                text::lemma_clean_text_idempotent(joined@);
            }
            if cleaned.len() == 0 {
                None
            } else {
                Some(text::string_from(&cleaned))
            }
        },
    }
}

/// What `inner_text` yields: the whole fragment's text, cleaned.
pub open spec fn inner_text_spec(html: Seq<char>) -> Seq<char> {
    match first_text_parts_of(html, "html"@) {
        None => Seq::empty(),
        Some(parts) => text::clean_text_spec(join_parts_spec(parts, 0)),
    }
}

/// The whole parsed markup's text, cleaned.
pub fn inner_text(html: &str) -> (r: String)
    ensures
        r@ == inner_text_spec(html@),
        text::clean_text_spec(r@) == r@,
{
    match select_first_text_parts(html, "html") {
        None => {
            let empty: Vec<char> = Vec::new();
            proof {
                text::lemma_clean_text_idempotent(Seq::empty());
                assert(text::clean_text_spec(Seq::<char>::empty()) =~= Seq::<char>::empty());
            }
            text::string_from(&empty)
        },
        Some(parts) => {
            let joined = join_parts(&parts);
            let cleaned = text::clean_chars(&joined);
            proof {
                text::lemma_clean_text_idempotent(joined@);
            }
            text::string_from(&cleaned)
        },
    }
}

/// The first matching element's value for an attribute.
pub fn first_attr(html: &str, css: &str, attr: &str) -> (r: Option<String>)
    ensures
        r.deep_view() == first_attr_of(html@, css@, attr@),
{
    select_first_attr(html, css, attr)
}

/// The serialized matches of a selector over a whole page.
pub fn outer_htmls(html: &str, css: &str) -> (r: Vec<String>)
    ensures
        r.deep_view() == outer_htmls_of(html@, css@),
{
    select_outer_htmls(html, css)
}

/// The first matching element's inner HTML.
pub fn first_inner_html(html: &str, css: &str) -> (r: Option<String>)
    ensures
        r.deep_view() == first_inner_html_of(html@, css@),
{
    select_first_inner_html(html, css)
}

// ----- URL resolution -----
/// What resolving `href` against `base` yields under the URL standard:
/// a pure function of the two strings; nothing when `base` does not
/// parse or the join is invalid.
pub uninterp spec fn url_join(base: Seq<char>, href: Seq<char>) -> Option<Seq<char>>;

/// Relies on `reqwest::Url::parse` and `Url::join` (the `url` crate):
/// resolves a reference against a base URL per the URL standard.
#[verifier::external_body]
fn join_url(base: &str, href: &str) -> (r: Option<String>)
    ensures
        match r {
            Some(s) => url_join(base@, href@) == Some(s@),
            None => url_join(base@, href@) is None,
        },
{
    let parsed = match reqwest::Url::parse(base) {
        Ok(u) => u,
        Err(_) => return None,
    };
    match parsed.join(href) {
        Ok(u) => Some(u.to_string()),
        Err(_) => None,
    }
}

pub open spec fn http_prefix() -> Seq<char> {
    seq!['h', 't', 't', 'p', ':', '/', '/']
}

pub open spec fn https_prefix() -> Seq<char> {
    seq!['h', 't', 't', 'p', 's', ':', '/', '/']
}

pub open spec fn is_absolute_http(h: Seq<char>) -> bool {
    text::match_here(h, http_prefix(), 0, false) || text::match_here(h, https_prefix(), 0, false)
}

/// What `absolute_url` yields: an already-absolute reference passes
/// through; a relative one resolves against the base.
pub open spec fn absolute_url_spec(base: Seq<char>, href: Option<Seq<char>>) -> Option<Seq<char>> {
    match href {
        None => None,
        Some(h) => if is_absolute_http(h) {
            Some(h)
        } else {
            url_join(base, h)
        },
    }
}

/// Passes absolute URLs through and resolves relative references against
/// the supplied base.
pub fn absolute_url(base: &str, href: Option<String>) -> (r: Option<String>)
    ensures
        r.deep_view() == absolute_url_spec(base@, href.deep_view()),
{
    match href {
        None => None,
        Some(h) => {
            let cs = text::chars_of(h.as_str());
            let p1: Vec<char> = vec!['h', 't', 't', 'p', ':', '/', '/'];
            let p2: Vec<char> = vec!['h', 't', 't', 'p', 's', ':', '/', '/'];
            proof {
                assert(p1@ =~= http_prefix());
                assert(p2@ =~= https_prefix());
            }
            if text::is_match_at(&cs, &p1, 0, false) || text::is_match_at(&cs, &p2, 0, false) {
                Some(h)
            } else {
                join_url(base, h.as_str())
            }
        },
    }
}

} // verus!
