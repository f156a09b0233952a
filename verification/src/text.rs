//! Text normalization: whitespace cleanup, case folding, substring search
//! and replacement, separator splitting, and the time-of-day scanner that
//! the venue adapters share.

use vstd::prelude::*;

verus! {

/// The whitespace class used throughout normalization: the Unicode
/// whitespace characters (the same class `char::is_whitespace` accepts).
pub open spec fn is_space_char(c: char) -> bool {
    ||| c == ' '
    ||| c == '\t'
    ||| c == '\n'
    ||| c == '\r'
    ||| c == '\u{b}'
    ||| c == '\u{c}'
    ||| c == '\u{85}'
    ||| c == '\u{a0}'
    ||| c == '\u{1680}'
    ||| ('\u{2000}' <= c && c <= '\u{200a}')
    ||| c == '\u{2028}'
    ||| c == '\u{2029}'
    ||| c == '\u{202f}'
    ||| c == '\u{205f}'
    ||| c == '\u{3000}'
}

pub fn is_space(c: char) -> (r: bool)
    ensures
        r == is_space_char(c),
{
    c == ' ' || c == '\t' || c == '\n' || c == '\r' || c == '\u{b}' || c == '\u{c}'
        || c == '\u{85}' || c == '\u{a0}' || c == '\u{1680}' || ('\u{2000}' <= c && c
        <= '\u{200a}') || c == '\u{2028}' || c == '\u{2029}' || c == '\u{202f}' || c == '\u{205f}'
        || c == '\u{3000}'
}

/// ASCII lower-casing of a single character; non-ASCII characters are kept.
pub open spec fn lower_char(c: char) -> char {
    match c {
        'A' => 'a',
        'B' => 'b',
        'C' => 'c',
        'D' => 'd',
        'E' => 'e',
        'F' => 'f',
        'G' => 'g',
        'H' => 'h',
        'I' => 'i',
        'J' => 'j',
        'K' => 'k',
        'L' => 'l',
        'M' => 'm',
        'N' => 'n',
        'O' => 'o',
        'P' => 'p',
        'Q' => 'q',
        'R' => 'r',
        'S' => 's',
        'T' => 't',
        'U' => 'u',
        'V' => 'v',
        'W' => 'w',
        'X' => 'x',
        'Y' => 'y',
        'Z' => 'z',
        _ => c,
    }
}

pub fn lower(c: char) -> (r: char)
    ensures
        r == lower_char(c),
{
    match c {
        'A' => 'a',
        'B' => 'b',
        'C' => 'c',
        'D' => 'd',
        'E' => 'e',
        'F' => 'f',
        'G' => 'g',
        'H' => 'h',
        'I' => 'i',
        'J' => 'j',
        'K' => 'k',
        'L' => 'l',
        'M' => 'm',
        'N' => 'n',
        'O' => 'o',
        'P' => 'p',
        'Q' => 'q',
        'R' => 'r',
        'S' => 's',
        'T' => 't',
        'U' => 'u',
        'V' => 'v',
        'W' => 'w',
        'X' => 'x',
        'Y' => 'y',
        'Z' => 'z',
        _ => c,
    }
}

pub open spec fn lower_seq(s: Seq<char>) -> Seq<char> {
    s.map_values(|c: char| lower_char(c))
}

pub fn lower_vec(cs: &Vec<char>) -> (r: Vec<char>)
    ensures
        r@ == lower_seq(cs@),
{
    let mut out: Vec<char> = Vec::new();
    let mut i: usize = 0;
    while i < cs.len()
        invariant
            0 <= i <= cs.len(),
            out@ == lower_seq(cs@.take(i as int)),
        decreases cs.len() - i,
    {
        out.push(lower(cs[i]));
        proof {
            assert(cs@.take(i + 1 as int).drop_last() =~= cs@.take(i as int));
            assert(lower_seq(cs@.take(i + 1 as int)) =~= lower_seq(cs@.take(i as int)).push(
                lower_char(cs@[i as int]),
            ));
        }
        i = i + 1;
    }
    proof {
        assert(cs@.take(cs@.len() as int) =~= cs@);
    }
    out
}

/// Relies on `str::chars`: yields exactly the characters of the string,
/// in order (the string's view).
#[verifier::external_body]
pub fn chars_of(s: &str) -> (r: Vec<char>)
    ensures
        r@ == s@,
{
    s.chars().collect()
}

/// Relies on `String`'s `FromIterator<char>`: builds the string holding
/// exactly these characters, in order.
#[verifier::external_body]
pub fn string_from(cs: &Vec<char>) -> (r: String)
    ensures
        r@ == cs@,
{
    cs.iter().collect()
}

/// Equality of two character vectors, decided element by element.
pub fn chars_eq(a: &Vec<char>, b: &Vec<char>) -> (r: bool)
    ensures
        r == (a@ == b@),
{
    if a.len() != b.len() {
        return false;
    }
    let mut i: usize = 0;
    while i < a.len()
        invariant
            0 <= i <= a.len(),
            a.len() == b.len(),
            forall|j: int| 0 <= j < i ==> a@[j] == b@[j],
        decreases a.len() - i,
    {
        if a[i] != b[i] {
            return false;
        }
        i = i + 1;
    }
    proof {
        assert(a@ =~= b@);
    }
    true
}

/// Equality of two string slices, decided character by character.
pub fn str_eq(a: &str, b: &str) -> (r: bool)
    ensures
        r == (a@ == b@),
{
    let ca = chars_of(a);
    let cb = chars_of(b);
    if ca.len() != cb.len() {
        return false;
    }
    let mut i: usize = 0;
    while i < ca.len()
        invariant
            0 <= i <= ca.len(),
            ca.len() == cb.len(),
            ca@ == a@,
            cb@ == b@,
            forall|j: int| 0 <= j < i ==> ca@[j] == cb@[j],
        decreases ca.len() - i,
    {
        if ca[i] != cb[i] {
            return false;
        }
        i = i + 1;
    }
    proof {
        assert(a@ =~= b@);
    }
    true
}

// ----- whitespace cleanup -----
/// One left-to-right pass over the text: whitespace runs become single
/// spaces between words, and leading/trailing whitespace is dropped.
/// `in_word` says the previous character was kept; `emitted` says some
/// word has already been produced.
pub open spec fn clean_rest(s: Seq<char>, i: int, in_word: bool, emitted: bool) -> Seq<char>
    decreases s.len() - i,
{
    if i < 0 || i >= s.len() {
        Seq::empty()
    } else if is_space_char(s[i]) {
        clean_rest(s, i + 1, false, emitted)
    } else if in_word {
        seq![s[i]] + clean_rest(s, i + 1, true, emitted)
    } else if emitted {
        seq![' ', s[i]] + clean_rest(s, i + 1, true, true)
    } else {
        seq![s[i]] + clean_rest(s, i + 1, true, true)
    }
}

/// What `clean_text` returns: internal whitespace runs collapsed to single
/// spaces, ends trimmed.
pub open spec fn clean_text_spec(s: Seq<char>) -> Seq<char> {
    clean_rest(s, 0, false, false)
}

pub fn clean_chars(cs: &Vec<char>) -> (r: Vec<char>)
    ensures
        r@ == clean_text_spec(cs@),
{
    let mut out: Vec<char> = Vec::new();
    let mut i: usize = 0;
    let mut in_word: bool = false;
    while i < cs.len()
        invariant
            0 <= i <= cs.len(),
            out@ + clean_rest(cs@, i as int, in_word, out@.len() > 0) == clean_text_spec(cs@),
            in_word ==> out@.len() > 0,
        decreases cs.len() - i,
    {
        let c = cs[i];
        if is_space(c) {
            in_word = false;
        } else {
            if !in_word && out.len() > 0 {
                out.push(' ');
            }
            out.push(c);
            in_word = true;
        }
        i = i + 1;
    }
    out
}

/// Collapses internal whitespace runs to single spaces and trims both ends.
pub fn clean_text(input: &str) -> (r: String)
    ensures
        r@ == clean_text_spec(input@),
{
    let cs = chars_of(input);
    let cleaned = clean_chars(&cs);
    string_from(&cleaned)
}

/// `clean_text` is idempotent: cleaning cleaned text changes nothing.
pub proof fn lemma_clean_text_idempotent(s: Seq<char>)
    ensures
        clean_text_spec(clean_text_spec(s)) == clean_text_spec(s),
{
    let r = clean_text_spec(s);
    lemma_clean_reclean(s, 0, false, false);
    lemma_clean_first_nonspace(s, 0);
    if r.len() > 0 {
        assert(clean_rest(r, 0, false, false) == seq![r[0]] + clean_rest(r, 1, true, true));
        assert(clean_rest(r, 0, true, true) == seq![r[0]] + clean_rest(r, 1, true, true));
    }
}

/// Re-cleaning a cleaned tail, continuing an already-open word, keeps
/// every character: the pass never produced two adjacent spaces nor a
/// trailing space.
proof fn lemma_clean_reclean(s: Seq<char>, i: int, in_word: bool, emitted: bool)
    ensures
        clean_rest(clean_rest(s, i, in_word, emitted), 0, true, true) == clean_rest(
            s,
            i,
            in_word,
            emitted,
        ),
    decreases s.len() - i,
{
    if i < 0 || i >= s.len() {
    } else if is_space_char(s[i]) {
        lemma_clean_reclean(s, i + 1, false, emitted);
    } else if in_word {
        let t = clean_rest(s, i + 1, true, emitted);
        lemma_clean_reclean(s, i + 1, true, emitted);
        let r = seq![s[i]] + t;
        assert(r[0] == s[i]);
        assert(r.skip(1) =~= t);
        lemma_clean_rest_shift(r, t, 1, 0, true, true);
    } else if emitted {
        let t = clean_rest(s, i + 1, true, true);
        lemma_clean_reclean(s, i + 1, true, true);
        let r = seq![' ', s[i]] + t;
        assert(r[0] == ' ' && r[1] == s[i]);
        assert(r.skip(2) =~= t);
        lemma_clean_rest_shift(r, t, 2, 0, true, true);
        assert(clean_rest(r, 0, true, true) == clean_rest(r, 1, false, true));
        assert(clean_rest(r, 1, false, true) == seq![' ', s[i]] + clean_rest(r, 2, true, true));
    } else {
        let t = clean_rest(s, i + 1, true, true);
        lemma_clean_reclean(s, i + 1, true, true);
        let r = seq![s[i]] + t;
        assert(r[0] == s[i]);
        assert(r.skip(1) =~= t);
        lemma_clean_rest_shift(r, t, 1, 0, true, true);
    }
}

/// Before anything is emitted the pass drops leading whitespace, so the
/// result never starts with a space.
proof fn lemma_clean_first_nonspace(s: Seq<char>, i: int)
    ensures
        clean_rest(s, i, false, false).len() > 0 ==> !is_space_char(
            clean_rest(s, i, false, false)[0],
        ),
    decreases s.len() - i,
{
    if 0 <= i && i < s.len() && is_space_char(s[i]) {
        lemma_clean_first_nonspace(s, i + 1);
    }
}

/// Cleaning from position `i + k` of `s` equals cleaning from position `i`
/// of the suffix `t = s.skip(k)`.
proof fn lemma_clean_rest_shift(
    s: Seq<char>,
    t: Seq<char>,
    k: int,
    i: int,
    in_word: bool,
    emitted: bool,
)
    requires
        0 <= k <= s.len(),
        t == s.skip(k),
        0 <= i,
    ensures
        clean_rest(s, i + k, in_word, emitted) == clean_rest(t, i, in_word, emitted),
    decreases s.len() - i - k,
{
    if i + k >= s.len() {
        assert(i >= t.len());
    } else {
        assert(t[i] == s[i + k]);
        if is_space_char(s[i + k]) {
            lemma_clean_rest_shift(s, t, k, i + 1, false, emitted);
        } else if in_word {
            lemma_clean_rest_shift(s, t, k, i + 1, true, emitted);
        } else {
            lemma_clean_rest_shift(s, t, k, i + 1, true, true);
        }
    }
}

/// Index just past the last non-whitespace character of `s.take(i)`:
/// zero when there is none.
pub open spec fn trim_end_idx(s: Seq<char>, i: int) -> int
    decreases i,
{
    if i <= 0 {
        0
    } else if is_space_char(s[i - 1]) {
        trim_end_idx(s, i - 1)
    } else {
        i
    }
}

/// The text without leading and trailing whitespace.
pub open spec fn trim_spec(s: Seq<char>) -> Seq<char> {
    let a = skip_ws_idx(s, 0);
    let b = trim_end_idx(s, s.len() as int);
    if a < b {
        s.subrange(a, b)
    } else {
        Seq::empty()
    }
}

/// Trims whitespace from both ends.
pub fn trim_chars(cs: &Vec<char>) -> (r: Vec<char>)
    ensures
        r@ == trim_spec(cs@),
{
    let n = cs.len();
    let mut a: usize = 0;
    while a < n && is_space(cs[a])
        invariant
            0 <= a <= n,
            n == cs@.len(),
            skip_ws_idx(cs@, 0) == skip_ws_idx(cs@, a as int),
        decreases n - a,
    {
        a = a + 1;
    }
    proof {
        assert(a as int == skip_ws_idx(cs@, 0));
    }
    let mut b: usize = n;
    while b > 0 && is_space(cs[b - 1])
        invariant
            0 <= b <= n,
            n == cs@.len(),
            trim_end_idx(cs@, n as int) == trim_end_idx(cs@, b as int),
        decreases b,
    {
        b = b - 1;
    }
    proof {
        assert(b as int == trim_end_idx(cs@, n as int));
    }
    let mut out: Vec<char> = Vec::new();
    if a >= b {
        proof {
            assert(out@ =~= trim_spec(cs@));
        }
        return out;
    }
    let mut i: usize = a;
    while i < b
        invariant
            a <= i <= b <= n,
            n == cs@.len(),
            out@ == cs@.subrange(a as int, i as int),
        decreases b - i,
    {
        out.push(cs[i]);
        proof {
            assert(cs@.subrange(a as int, i + 1 as int) =~= cs@.subrange(a as int, i as int).push(
                cs@[i as int],
            ));
        }
        i = i + 1;
    }
    out
}

/// Trims whitespace from both ends of a string.
pub fn trim(input: &str) -> (r: String)
    ensures
        r@ == trim_spec(input@),
{
    let cs = chars_of(input);
    let trimmed = trim_chars(&cs);
    string_from(&trimmed)
}

// ----- substring search -----
/// `pat` occurs in `s` starting at `i`; `ci` compares ASCII-case-insensitively.
pub open spec fn match_here(s: Seq<char>, pat: Seq<char>, i: int, ci: bool) -> bool {
    &&& 0 <= i
    &&& i + pat.len() <= s.len()
    &&& forall|k: int|
        0 <= k < pat.len() ==> (if ci {
            lower_char(s[i + k]) == lower_char(pat[k])
        } else {
            s[i + k] == pat[k]
        })
}

/// `pat` occurs somewhere in `s` (exact comparison).
pub open spec fn contains_sub(s: Seq<char>, pat: Seq<char>) -> bool {
    exists|i: int| match_here(s, pat, i, false)
}

pub fn is_match_at(cs: &Vec<char>, pat: &Vec<char>, i: usize, ci: bool) -> (r: bool)
    requires
        i <= cs.len(),
    ensures
        r == match_here(cs@, pat@, i as int, ci),
{
    if pat.len() > cs.len() - i {
        return false;
    }
    let mut k: usize = 0;
    while k < pat.len()
        invariant
            0 <= k <= pat.len(),
            i + pat.len() <= cs.len(),
            forall|j: int|
                0 <= j < k ==> (if ci {
                    lower_char(cs@[i + j]) == lower_char(pat@[j])
                } else {
                    cs@[i + j] == pat@[j]
                }),
        decreases pat.len() - k,
    {
        let a = cs[i + k];
        let b = pat[k];
        let same = if ci {
            lower(a) == lower(b)
        } else {
            a == b
        };
        if !same {
            return false;
        }
        k = k + 1;
    }
    true
}

pub fn contains_vec(cs: &Vec<char>, pat: &Vec<char>) -> (r: bool)
    ensures
        r == contains_sub(cs@, pat@),
{
    if pat.len() > cs.len() {
        assert(forall|i: int| !match_here(cs@, pat@, i, false));
        return false;
    }
    let mut i: usize = 0;
    while i <= cs.len() - pat.len()
        invariant
            0 <= i <= cs.len() - pat.len() + 1,
            pat.len() <= cs.len(),
            forall|j: int| 0 <= j < i ==> !match_here(cs@, pat@, j, false),
        decreases cs.len() - i,
    {
        if is_match_at(cs, pat, i, false) {
            return true;
        }
        i = i + 1;
    }
    assert(forall|j: int| !match_here(cs@, pat@, j, false));
    false
}

// ----- substring replacement -----
/// One left-to-right pass: at each position, if `pat` matches there, emit
/// `rep` and jump past the match, else keep the character. This is the
/// non-overlapping leftmost replacement `str::replace` performs.
pub open spec fn replace_from(s: Seq<char>, pat: Seq<char>, rep: Seq<char>, i: int, ci: bool) -> Seq<char>
    decreases s.len() - i,
        when pat.len() > 0
{
    if i < 0 || i >= s.len() {
        Seq::empty()
    } else if match_here(s, pat, i, ci) {
        rep + replace_from(s, pat, rep, i + pat.len() as int, ci)
    } else {
        seq![s[i]] + replace_from(s, pat, rep, i + 1, ci)
    }
}

pub open spec fn replace_all(s: Seq<char>, pat: Seq<char>, rep: Seq<char>, ci: bool) -> Seq<char> {
    replace_from(s, pat, rep, 0, ci)
}

pub fn replace_vec(cs: &Vec<char>, pat: &Vec<char>, rep: &Vec<char>, ci: bool) -> (r: Vec<char>)
    requires
        pat.len() > 0,
    ensures
        r@ == replace_all(cs@, pat@, rep@, ci),
{
    let mut out: Vec<char> = Vec::new();
    let mut i: usize = 0;
    while i < cs.len()
        invariant
            0 <= i <= cs.len(),
            pat.len() > 0,
            out@ + replace_from(cs@, pat@, rep@, i as int, ci) == replace_all(cs@, pat@, rep@, ci),
        decreases cs.len() - i,
    {
        if is_match_at(cs, pat, i, ci) {
            let ghost out_before = out@;
            let mut k: usize = 0;
            while k < rep.len()
                invariant
                    0 <= k <= rep.len(),
                    out@ == out_before + rep@.take(k as int),
                decreases rep.len() - k,
            {
                out.push(rep[k]);
                proof {
                    assert(rep@.take(k + 1 as int) =~= rep@.take(k as int).push(rep@[k as int]));
                }
                k = k + 1;
            }
            proof {
                assert(rep@.take(rep@.len() as int) =~= rep@);
            }
            i = i + pat.len();
        } else {
            out.push(cs[i]);
            i = i + 1;
        }
    }
    out
}

// ----- separator splitting -----
/// Splits `s` from position `i` at any character of `seps`, `cur` being the
/// token read so far. Empty tokens are kept.
pub open spec fn split_from(s: Seq<char>, seps: Seq<char>, i: int, cur: Seq<char>) -> Seq<Seq<char>>
    decreases s.len() - i,
{
    if i < 0 || i >= s.len() {
        seq![cur]
    } else if seps.contains(s[i]) {
        seq![cur] + split_from(s, seps, i + 1, Seq::empty())
    } else {
        split_from(s, seps, i + 1, cur + seq![s[i]])
    }
}

pub open spec fn split_chars(s: Seq<char>, seps: Seq<char>) -> Seq<Seq<char>> {
    split_from(s, seps, 0, Seq::empty())
}

pub fn split_vec(cs: &Vec<char>, seps: &Vec<char>) -> (r: Vec<Vec<char>>)
    ensures
        r.deep_view() == split_chars(cs@, seps@),
{
    let mut done: Vec<Vec<char>> = Vec::new();
    let mut cur: Vec<char> = Vec::new();
    let mut i: usize = 0;
    while i < cs.len()
        invariant
            0 <= i <= cs.len(),
            done.deep_view() + split_from(cs@, seps@, i as int, cur@) == split_chars(cs@, seps@),
        decreases cs.len() - i,
    {
        let c = cs[i];
        let mut is_sep: bool = false;
        let mut k: usize = 0;
        while k < seps.len()
            invariant
                0 <= k <= seps.len(),
                is_sep == exists|j: int| 0 <= j < k && seps@[j] == c,
            decreases seps.len() - k,
        {
            if seps[k] == c {
                is_sep = true;
            }
            k = k + 1;
        }
        assert(is_sep == seps@.contains(c));
        if is_sep {
            let ghost dv0 = done.deep_view();
            let ghost cur0 = cur@;
            done.push(cur);
            cur = Vec::new();
            proof {
                assert(done.deep_view() =~~= dv0.push(cur0));
                assert(dv0 + (seq![cur0] + split_from(cs@, seps@, i + 1, Seq::<char>::empty()))
                    =~~= dv0.push(cur0) + split_from(cs@, seps@, i + 1, Seq::<char>::empty()));
            }
        } else {
            let ghost cur0 = cur@;
            cur.push(c);
            proof {
                assert(cur@ =~= cur0 + seq![c]);
            }
        }
        i = i + 1;
    }
    let ghost dv0 = done.deep_view();
    let ghost cur0 = cur@;
    done.push(cur);
    proof {
        assert(done.deep_view() =~~= dv0.push(cur0));
        assert(dv0 + seq![cur0] =~~= dv0.push(cur0));
    }
    done
}

// ----- digits -----
pub open spec fn is_digit_char(c: char) -> bool {
    '0' <= c && c <= '9'
}

pub open spec fn digit_val(c: char) -> int {
    match c {
        '0' => 0,
        '1' => 1,
        '2' => 2,
        '3' => 3,
        '4' => 4,
        '5' => 5,
        '6' => 6,
        '7' => 7,
        '8' => 8,
        '9' => 9,
        _ => 0,
    }
}

pub open spec fn digit_char(v: int) -> char {
    if v == 0 {
        '0'
    } else if v == 1 {
        '1'
    } else if v == 2 {
        '2'
    } else if v == 3 {
        '3'
    } else if v == 4 {
        '4'
    } else if v == 5 {
        '5'
    } else if v == 6 {
        '6'
    } else if v == 7 {
        '7'
    } else if v == 8 {
        '8'
    } else {
        '9'
    }
}

pub fn is_digit(c: char) -> (r: bool)
    ensures
        r == is_digit_char(c),
{
    '0' <= c && c <= '9'
}

pub fn digit(c: char) -> (r: u32)
    requires
        is_digit_char(c),
    ensures
        r == digit_val(c),
        r <= 9,
{
    match c {
        '0' => 0,
        '1' => 1,
        '2' => 2,
        '3' => 3,
        '4' => 4,
        '5' => 5,
        '6' => 6,
        '7' => 7,
        '8' => 8,
        _ => 9,
    }
}

pub fn digit_ch(v: u32) -> (r: char)
    requires
        v <= 9,
    ensures
        r == digit_char(v as int),
{
    match v {
        0 => '0',
        1 => '1',
        2 => '2',
        3 => '3',
        4 => '4',
        5 => '5',
        6 => '6',
        7 => '7',
        8 => '8',
        _ => '9',
    }
}

/// A value below 100 printed as exactly two decimal digits.
pub open spec fn two_digits(v: int) -> Seq<char> {
    seq![digit_char(v / 10), digit_char(v % 10)]
}

// ----- the time-of-day scanner -----
/// Index of the first non-whitespace character at or after `i`.
pub open spec fn skip_ws_idx(s: Seq<char>, i: int) -> int
    decreases s.len() - i,
{
    if i < 0 || i >= s.len() {
        s.len() as int
    } else if is_space_char(s[i]) {
        skip_ws_idx(s, i + 1)
    } else {
        i
    }
}

/// After optional whitespace at `i`, the letters `am` or `pm` in either
/// case; yields whether it read `pm`.
pub open spec fn ampm_at(s: Seq<char>, i: int) -> Option<bool> {
    let j = skip_ws_idx(s, i);
    if j + 2 <= s.len() && lower_char(s[j + 1]) == 'm' && (lower_char(s[j]) == 'a' || lower_char(
        s[j],
    ) == 'p') {
        Some(lower_char(s[j]) == 'p')
    } else {
        None
    }
}

/// After the hour digits: an optional `:MM` group (tried first), then
/// whitespace and the meridiem. Yields (hour, minute, pm).
pub open spec fn time_tail(s: Seq<char>, i: int, h: int) -> Option<(int, int, bool)> {
    if i + 3 <= s.len() && s[i] == ':' && is_digit_char(s[i + 1]) && is_digit_char(s[i + 2])
        && ampm_at(s, i + 3) is Some {
        Some((h, digit_val(s[i + 1]) * 10 + digit_val(s[i + 2]), ampm_at(s, i + 3)->Some_0))
    } else if ampm_at(s, i) is Some {
        Some((h, 0, ampm_at(s, i)->Some_0))
    } else {
        None
    }
}

/// A time pattern `H(:MM)? (am|pm)` starting exactly at `i`; two hour
/// digits are preferred over one, as the scanner is greedy.
pub open spec fn time_at(s: Seq<char>, i: int) -> Option<(int, int, bool)> {
    if 0 <= i && i < s.len() && is_digit_char(s[i]) {
        if i + 1 < s.len() && is_digit_char(s[i + 1]) {
            if time_tail(s, i + 2, digit_val(s[i]) * 10 + digit_val(s[i + 1])) is Some {
                time_tail(s, i + 2, digit_val(s[i]) * 10 + digit_val(s[i + 1]))
            } else {
                time_tail(s, i + 1, digit_val(s[i]))
            }
        } else {
            time_tail(s, i + 1, digit_val(s[i]))
        }
    } else {
        None
    }
}

/// The leftmost time pattern at or after `i`.
pub open spec fn find_time_from(s: Seq<char>, i: int) -> Option<(int, int, bool)>
    decreases s.len() - i,
{
    if i < 0 || i >= s.len() {
        None
    } else if time_at(s, i) is Some {
        time_at(s, i)
    } else {
        find_time_from(s, i + 1)
    }
}

/// The normalized rendering `HH:MM AM` / `HH:MM PM`.
pub open spec fn fmt_time(h: int, m: int, pm: bool) -> Seq<char> {
    two_digits(h) + seq![':'] + two_digits(m) + seq![' '] + (if pm {
        seq!['P', 'M']
    } else {
        seq!['A', 'M']
    })
}

/// What `find_first_time` returns: the leftmost time pattern of the
/// cleaned text, normalized.
pub open spec fn first_time_spec(s: Seq<char>) -> Option<Seq<char>> {
    match find_time_from(clean_text_spec(s), 0) {
        Some((h, m, pm)) => Some(fmt_time(h, m, pm)),
        None => None,
    }
}

pub open spec fn opt_time_view(o: Option<(u32, u32, bool)>) -> Option<(int, int, bool)> {
    match o {
        Some((h, m, pm)) => Some((h as int, m as int, pm)),
        None => None,
    }
}

fn skip_ws(cs: &Vec<char>, i: usize) -> (r: usize)
    requires
        i <= cs.len(),
    ensures
        r == skip_ws_idx(cs@, i as int),
        i <= r <= cs.len(),
{
    let mut j: usize = i;
    while j < cs.len() && is_space(cs[j])
        invariant
            i <= j <= cs.len(),
            skip_ws_idx(cs@, i as int) == skip_ws_idx(cs@, j as int),
        decreases cs.len() - j,
    {
        j = j + 1;
    }
    j
}

fn ampm_check(cs: &Vec<char>, i: usize) -> (r: Option<bool>)
    requires
        i <= cs.len(),
    ensures
        r == ampm_at(cs@, i as int),
{
    let j = skip_ws(cs, i);
    if cs.len() >= 2 && j <= cs.len() - 2 && lower(cs[j + 1]) == 'm' && (lower(cs[j]) == 'a'
        || lower(cs[j]) == 'p') {
        Some(lower(cs[j]) == 'p')
    } else {
        None
    }
}

fn time_tail_check(cs: &Vec<char>, i: usize, h: u32) -> (r: Option<(u32, u32, bool)>)
    requires
        i <= cs.len(),
        h <= 99,
    ensures
        opt_time_view(r) == time_tail(cs@, i as int, h as int),
{
    if cs.len() >= 3 && i <= cs.len() - 3 && cs[i] == ':' && is_digit(cs[i + 1]) && is_digit(
        cs[i + 2],
    ) {
        if let Some(pm) = ampm_check(cs, i + 3) {
            return Some((h, digit(cs[i + 1]) * 10 + digit(cs[i + 2]), pm));
        }
    }
    match ampm_check(cs, i) {
        Some(pm) => Some((h, 0, pm)),
        None => None,
    }
}

fn time_at_check(cs: &Vec<char>, i: usize) -> (r: Option<(u32, u32, bool)>)
    requires
        i <= cs.len(),
    ensures
        opt_time_view(r) == time_at(cs@, i as int),
{
    if i < cs.len() && is_digit(cs[i]) {
        if i + 1 < cs.len() && is_digit(cs[i + 1]) {
            let wide = time_tail_check(cs, i + 2, digit(cs[i]) * 10 + digit(cs[i + 1]));
            if wide.is_some() {
                return wide;
            }
            return time_tail_check(cs, i + 1, digit(cs[i]));
        }
        return time_tail_check(cs, i + 1, digit(cs[i]));
    }
    None
}

fn format_time(h: u32, m: u32, pm: bool) -> (r: Vec<char>)
    requires
        h <= 99,
        m <= 99,
    ensures
        r@ == fmt_time(h as int, m as int, pm),
{
    let mut out: Vec<char> = Vec::new();
    out.push(digit_ch(h / 10));
    out.push(digit_ch(h % 10));
    out.push(':');
    out.push(digit_ch(m / 10));
    out.push(digit_ch(m % 10));
    out.push(' ');
    if pm {
        out.push('P');
    } else {
        out.push('A');
    }
    out.push('M');
    proof {
        assert(out@ =~= fmt_time(h as int, m as int, pm));
    }
    out
}

/// Every hour and minute the scanner yields came from at most two digits.
proof fn lemma_time_bounds(s: Seq<char>, i: int)
    ensures
        find_time_from(s, i) matches Some((h, m, pm)) ==> 0 <= h <= 99 && 0 <= m <= 99,
    decreases s.len() - i,
{
    assert(forall|c: char| 0 <= digit_val(c) && digit_val(c) <= 9);
    if i < 0 || i >= s.len() {
    } else if time_at(s, i) is Some {
    } else {
        lemma_time_bounds(s, i + 1);
    }
}

/// Scans the cleaned chars for the leftmost time pattern.
pub fn find_time_chars(cs: &Vec<char>) -> (r: Option<(u32, u32, bool)>)
    ensures
        opt_time_view(r) == find_time_from(cs@, 0),
        r matches Some((h, m, pm)) ==> h <= 99 && m <= 99,
{
    proof {
        lemma_time_bounds(cs@, 0);
    }
    let mut i: usize = 0;
    while i < cs.len()
        invariant
            0 <= i <= cs.len(),
            find_time_from(cs@, 0) == find_time_from(cs@, i as int),
        decreases cs.len() - i,
    {
        let hit = time_at_check(cs, i);
        if hit.is_some() {
            return hit;
        }
        i = i + 1;
    }
    None
}

/// Locates the first `H(:MM)? (am|pm)` pattern (case-insensitive) in the
/// text and returns it normalized as `HH:MM AM/PM`.
pub fn find_first_time(text: &str) -> (r: Option<String>)
    ensures
        r.deep_view() == first_time_spec(text@),
{
    let cs = chars_of(text);
    let cleaned = clean_chars(&cs);
    match find_time_chars(&cleaned) {
        Some((h, m, pm)) => {
            let fmt = format_time(h, m, pm);
            Some(string_from(&fmt))
        },
        None => None,
    }
}

// ----- keyword-scoped times -----
/// Scans segments in order for one whose cleaned form is nonempty and
/// contains the keyword (case-insensitively) and holds a time pattern;
/// yields that segment's normalized first time.
pub open spec fn named_time_from(segs: Seq<Seq<char>>, kw: Seq<char>, idx: int) -> Option<
    Seq<char>,
>
    decreases segs.len() - idx,
{
    if idx < 0 || idx >= segs.len() {
        None
    } else {
        let c = clean_text_spec(segs[idx]);
        if c.len() > 0 && contains_sub(lower_seq(c), lower_seq(kw)) && find_time_from(c, 0)
            is Some {
            match find_time_from(c, 0) {
                Some((h, m, pm)) => Some(fmt_time(h, m, pm)),
                None => None,
            }
        } else {
            named_time_from(segs, kw, idx + 1)
        }
    }
}

pub open spec fn named_time_seps() -> Seq<char> {
    seq!['|', '/', ';']
}

/// What `parse_named_time` returns: the text is split on `|`, `/`, `;`,
/// and the first matching segment's time wins.
pub open spec fn parse_named_time_spec(s: Seq<char>, kw: Seq<char>) -> Option<Seq<char>> {
    named_time_from(split_chars(s, named_time_seps()), kw, 0)
}

/// Scans text split on `|`, `/`, `;` for a segment naming the keyword
/// (for instance `doors` or `show`) and returns the first time pattern
/// found in such a segment, normalized.
pub fn parse_named_time(text: &str, keyword: &str) -> (r: Option<String>)
    ensures
        r.deep_view() == parse_named_time_spec(text@, keyword@),
{
    let cs = chars_of(text);
    let kw = chars_of(keyword);
    let kw_low = lower_vec(&kw);
    let mut seps: Vec<char> = Vec::new();
    seps.push('|');
    seps.push('/');
    seps.push(';');
    proof {
        assert(seps@ =~= named_time_seps());
    }
    let segs = split_vec(&cs, &seps);
    let ghost sdv = segs.deep_view();
    let mut i: usize = 0;
    while i < segs.len()
        invariant
            0 <= i <= segs.len(),
            sdv == segs.deep_view(),
            sdv.len() == segs.len(),
            forall|j: int| 0 <= j < segs.len() ==> sdv[j] == #[trigger] segs@[j]@,
            named_time_from(sdv, keyword@, 0) == named_time_from(sdv, keyword@, i as int),
            kw_low@ == lower_seq(keyword@),
            sdv == split_chars(text@, named_time_seps()),
        decreases segs.len() - i,
    {
        let c = clean_chars(&segs[i]);
        let c_low = lower_vec(&c);
        if c.len() > 0 && contains_vec(&c_low, &kw_low) {
            if let Some((h, m, pm)) = find_time_chars(&c) {
                let fmt = format_time(h, m, pm);
                return Some(string_from(&fmt));
            }
        }
        i = i + 1;
    }
    None
}

// ----- lineup splitting -----
pub open spec fn pat_with() -> Seq<char> {
    seq![' ', 'w', 'i', 't', 'h', ' ']
}

pub open spec fn pat_w_slash() -> Seq<char> {
    seq![' ', 'w', '/']
}

pub open spec fn pat_feat() -> Seq<char> {
    seq![' ', 'f', 'e', 'a', 't', '.', ' ']
}

pub open spec fn pat_ft() -> Seq<char> {
    seq![' ', 'f', 't', '.', ' ']
}

pub open spec fn pat_featuring() -> Seq<char> {
    seq![' ', 'f', 'e', 'a', 't', 'u', 'r', 'i', 'n', 'g', ' ']
}

pub open spec fn is_artist_sep_char(c: char) -> bool {
    c == ',' || c == '/' || c == '&' || c == '+'
}

/// The separator-word passes: each joining word (case-insensitive), then
/// each separator character, becomes a comma.
pub open spec fn artist_commas(s: Seq<char>) -> Seq<char> {
    let s1 = replace_all(s, pat_with(), seq![','], true);
    let s2 = replace_all(s1, pat_w_slash(), seq![','], true);
    let s3 = replace_all(s2, pat_feat(), seq![','], true);
    let s4 = replace_all(s3, pat_ft(), seq![','], true);
    let s5 = replace_all(s4, pat_featuring(), seq![','], true);
    s5.map_values(|c: char| if is_artist_sep_char(c) { ',' } else { c })
}

/// What `split_artists` returns: the comma-normalized text split on
/// commas, each token cleaned, empty tokens dropped, order preserved.
pub open spec fn split_artists_spec(s: Seq<char>) -> Seq<Seq<char>> {
    split_chars(artist_commas(s), seq![',']).map_values(|t: Seq<char>| clean_text_spec(t)).filter(
        |t: Seq<char>| t.len() > 0,
    )
}

fn comma_map(cs: &Vec<char>) -> (r: Vec<char>)
    ensures
        r@ == cs@.map_values(|c: char| if is_artist_sep_char(c) { ',' } else { c }),
{
    let ghost f = |c: char| if is_artist_sep_char(c) { ',' } else { c };
    let mut out: Vec<char> = Vec::new();
    let mut i: usize = 0;
    while i < cs.len()
        invariant
            0 <= i <= cs.len(),
            f == (|c: char| if is_artist_sep_char(c) { ',' } else { c }),
            out@ == cs@.take(i as int).map_values(f),
        decreases cs.len() - i,
    {
        let c = cs[i];
        if c == ',' || c == '/' || c == '&' || c == '+' {
            out.push(',');
        } else {
            out.push(c);
        }
        proof {
            assert(cs@.take(i + 1 as int).map_values(f) =~= cs@.take(i as int).map_values(f).push(
                f(cs@[i as int]),
            ));
        }
        i = i + 1;
    }
    proof {
        assert(cs@.take(cs@.len() as int) =~= cs@);
    }
    out
}

/// Splits a free-text lineup on the fixed separators (comma, slash,
/// ampersand, plus, and the words `with` / `w/` / `feat.` / `ft.` /
/// `featuring`, case-insensitively), cleans each token, and drops empty
/// tokens. Order is preserved; the first surviving token is the headliner.
pub fn split_artists(text: &str) -> (r: Vec<String>)
    ensures
        r.deep_view() == split_artists_spec(text@),
{
    let cs = chars_of(text);
    let comma: Vec<char> = vec![','];
    proof {
        assert(comma@ =~= seq![',']);
    }
    let p1: Vec<char> = vec![' ', 'w', 'i', 't', 'h', ' '];
    let p2: Vec<char> = vec![' ', 'w', '/'];
    let p3: Vec<char> = vec![' ', 'f', 'e', 'a', 't', '.', ' '];
    let p4: Vec<char> = vec![' ', 'f', 't', '.', ' '];
    let p5: Vec<char> = vec![' ', 'f', 'e', 'a', 't', 'u', 'r', 'i', 'n', 'g', ' '];
    proof {
        assert(p1@ =~= pat_with());
        assert(p2@ =~= pat_w_slash());
        assert(p3@ =~= pat_feat());
        assert(p4@ =~= pat_ft());
        assert(p5@ =~= pat_featuring());
    }
    let s1 = replace_vec(&cs, &p1, &comma, true);
    let s2 = replace_vec(&s1, &p2, &comma, true);
    let s3 = replace_vec(&s2, &p3, &comma, true);
    let s4 = replace_vec(&s3, &p4, &comma, true);
    let s5 = replace_vec(&s4, &p5, &comma, true);
    let mapped = comma_map(&s5);
    let segs = split_vec(&mapped, &comma);
    let ghost sdv = segs.deep_view();
    let ghost cleaner = |t: Seq<char>| clean_text_spec(t);
    let ghost keep = |t: Seq<char>| t.len() > 0;
    let mut out: Vec<String> = Vec::new();
    let mut i: usize = 0;
    while i < segs.len()
        invariant
            0 <= i <= segs.len(),
            sdv == segs.deep_view(),
            sdv.len() == segs.len(),
            forall|j: int| 0 <= j < segs.len() ==> sdv[j] == #[trigger] segs@[j]@,
            cleaner == (|t: Seq<char>| clean_text_spec(t)),
            keep == (|t: Seq<char>| t.len() > 0),
            out.deep_view() == sdv.take(i as int).map_values(cleaner).filter(keep),
        decreases segs.len() - i,
    {
        let cleaned = clean_chars(&segs[i]);
        let ghost out0 = out.deep_view();
        let ghost prefix = sdv.take(i as int).map_values(cleaner);
        if cleaned.len() > 0 {
            out.push(string_from(&cleaned));
            proof {
                assert(out.deep_view() =~~= out0.push(cleaned@));
            }
        }
        proof {
            broadcast use vstd::seq_lib::group_seq_properties;

            assert(sdv.take(i + 1 as int) =~= sdv.take(i as int) + seq![sdv[i as int]]);
            assert(sdv.take(i + 1 as int).map_values(cleaner) =~= prefix + seq![
                clean_text_spec(sdv[i as int]),
            ]);
            Seq::filter_distributes_over_add(
                prefix,
                seq![clean_text_spec(sdv[i as int])],
                keep,
            );
            reveal(Seq::filter);
            assert(seq![clean_text_spec(sdv[i as int])].drop_last() =~= Seq::<Seq<char>>::empty());
            if cleaned.len() > 0 {
                assert(out0.push(cleaned@) =~~= out0 + seq![cleaned@]);
            }
        }
        i = i + 1;
    }
    proof {
        assert(sdv.take(sdv.len() as int) =~= sdv);
    }
    out
}

// ----- age restriction -----
pub open spec fn pat_all_ages() -> Seq<char> {
    seq!['a', 'l', 'l', ' ', 'a', 'g', 'e', 's']
}

pub open spec fn pat_all_ages_dash() -> Seq<char> {
    seq!['a', 'l', 'l', '-', 'a', 'g', 'e', 's']
}

pub open spec fn pat_21_plus() -> Seq<char> {
    seq!['2', '1', '+']
}

pub open spec fn pat_18_plus() -> Seq<char> {
    seq!['1', '8', '+']
}

pub open spec fn pat_21_and_over() -> Seq<char> {
    seq!['2', '1', ' ', 'a', 'n', 'd', ' ', 'o', 'v', 'e', 'r']
}

pub open spec fn pat_21_amp_over() -> Seq<char> {
    seq!['2', '1', ' ', '&', ' ', 'o', 'v', 'e', 'r']
}

/// What `parse_age_flag` returns over the lower-cased text: `Some(true)`
/// for an all-ages marker, else `Some(false)` for a restriction marker,
/// else `None`.
pub open spec fn parse_age_flag_spec(s: Seq<char>) -> Option<bool> {
    let low = lower_seq(s);
    if contains_sub(low, pat_all_ages()) || contains_sub(low, pat_all_ages_dash()) {
        Some(true)
    } else if contains_sub(low, pat_21_plus()) || contains_sub(low, pat_18_plus()) || contains_sub(
        low,
        pat_21_and_over(),
    ) || contains_sub(low, pat_21_amp_over()) {
        Some(false)
    } else {
        None
    }
}

/// Reads an age-restriction marker out of free text: all-ages phrasing
/// yields `Some(true)`, 21+/18+ phrasing yields `Some(false)`, anything
/// else `None`.
pub fn parse_age_flag(text: &str) -> (r: Option<bool>)
    ensures
        r == parse_age_flag_spec(text@),
{
    let cs = chars_of(text);
    let low = lower_vec(&cs);
    let a1: Vec<char> = vec!['a', 'l', 'l', ' ', 'a', 'g', 'e', 's'];
    let a2: Vec<char> = vec!['a', 'l', 'l', '-', 'a', 'g', 'e', 's'];
    let r1: Vec<char> = vec!['2', '1', '+'];
    let r2: Vec<char> = vec!['1', '8', '+'];
    let r3: Vec<char> = vec!['2', '1', ' ', 'a', 'n', 'd', ' ', 'o', 'v', 'e', 'r'];
    let r4: Vec<char> = vec!['2', '1', ' ', '&', ' ', 'o', 'v', 'e', 'r'];
    proof {
        assert(a1@ =~= pat_all_ages());
        assert(a2@ =~= pat_all_ages_dash());
        assert(r1@ =~= pat_21_plus());
        assert(r2@ =~= pat_18_plus());
        assert(r3@ =~= pat_21_and_over());
        assert(r4@ =~= pat_21_amp_over());
    }
    if contains_vec(&low, &a1) || contains_vec(&low, &a2) {
        Some(true)
    } else if contains_vec(&low, &r1) || contains_vec(&low, &r2) || contains_vec(&low, &r3)
        || contains_vec(&low, &r4) {
        Some(false)
    } else {
        None
    }
}

} // verus!

