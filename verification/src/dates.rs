//! Civil dates and times: calendar validity, epoch-day arithmetic, the
//! accepted listing date formats, and RFC 3339 rendering and parsing.

use vstd::prelude::*;
use crate::text;

verus! {

/// A calendar date in the proleptic Gregorian calendar, year 1 through 9999.
#[derive(Clone, Copy, PartialEq, Eq, Structural, Debug)]
pub struct CivilDate {
    pub year: i32,
    pub month: u32,
    pub day: u32,
}

/// A time of day with seconds.
#[derive(Clone, Copy, PartialEq, Eq, Structural, Debug)]
pub struct CivilTime {
    pub hour: u32,
    pub minute: u32,
    pub second: u32,
}

/// A civil instant with its UTC offset in seconds (local minus UTC).
#[derive(Clone, Copy, PartialEq, Eq, Structural, Debug)]
pub struct LocalStamp {
    pub date: CivilDate,
    pub time: CivilTime,
    pub offset_seconds: i32,
}

pub open spec fn is_leap_year(y: int) -> bool {
    y % 4 == 0 && (y % 100 != 0 || y % 400 == 0)
}

pub open spec fn days_in_month(y: int, m: int) -> int {
    if m == 1 {
        31
    } else if m == 2 {
        if is_leap_year(y) {
            29
        } else {
            28
        }
    } else if m == 3 {
        31
    } else if m == 4 {
        30
    } else if m == 5 {
        31
    } else if m == 6 {
        30
    } else if m == 7 {
        31
    } else if m == 8 {
        31
    } else if m == 9 {
        30
    } else if m == 10 {
        31
    } else if m == 11 {
        30
    } else {
        31
    }
}

pub open spec fn valid_date(y: int, m: int, d: int) -> bool {
    &&& 1 <= y <= 9999
    &&& 1 <= m <= 12
    &&& 1 <= d <= days_in_month(y, m)
}

pub open spec fn valid_time(h: int, min: int, s: int) -> bool {
    0 <= h < 24 && 0 <= min < 60 && 0 <= s < 60
}

impl CivilDate {
    pub open spec fn wf(self) -> bool {
        valid_date(self.year as int, self.month as int, self.day as int)
    }
}

impl CivilTime {
    pub open spec fn wf(self) -> bool {
        valid_time(self.hour as int, self.minute as int, self.second as int)
    }
}

impl LocalStamp {
    /// Well-formed: valid calendar fields, an offset under a day, and not
    /// on the first supported day (so shifting to UTC stays in range).
    pub open spec fn wf(self) -> bool {
        &&& self.date.wf()
        &&& self.time.wf()
        &&& -86400 < self.offset_seconds < 86400
        &&& self.date.year <= 9998
        &&& !(self.date.year == 1 && self.date.month == 1 && self.date.day == 1)
    }

    pub open spec fn secs_of_day(self) -> int {
        self.time.hour * 3600 + self.time.minute * 60 + self.time.second
    }

    /// Seconds since 1970-01-01T00:00:00 UTC.
    pub open spec fn epoch_seconds_spec(self) -> int {
        days_from_epoch(self.date.year as int, self.date.month as int, self.date.day as int)
            * 86400 + self.secs_of_day() - self.offset_seconds
    }
}

pub fn leap_year(y: i32) -> (r: bool)
    ensures
        r == is_leap_year(y as int),
{
    y % 4 == 0 && (y % 100 != 0 || y % 400 == 0)
}

pub fn month_len(y: i32, m: u32) -> (r: u32)
    requires
        1 <= m <= 12,
    ensures
        r == days_in_month(y as int, m as int),
{
    if m == 1 {
        31
    } else if m == 2 {
        if leap_year(y) {
            29
        } else {
            28
        }
    } else if m == 3 {
        31
    } else if m == 4 {
        30
    } else if m == 5 {
        31
    } else if m == 6 {
        30
    } else if m == 7 {
        31
    } else if m == 8 {
        31
    } else if m == 9 {
        30
    } else if m == 10 {
        31
    } else if m == 11 {
        30
    } else {
        31
    }
}

/// Day count of `y-m-d` from 0000-03-01 of the shifted (March-first)
/// calendar; nonnegative over the supported range.
pub open spec fn absolute_days(y: int, m: int, d: int) -> int {
    let yy = if m <= 2 {
        y - 1
    } else {
        y
    };
    let era = yy / 400;
    let yoe = yy - era * 400;
    let mp = if m > 2 {
        m - 3
    } else {
        m + 9
    };
    let doy = (153 * mp + 2) / 5 + d - 1;
    let doe = yoe * 365 + yoe / 4 - yoe / 100 + doy;
    era * 146097 + doe
}

/// Days since 1970-01-01 (which is day 719468 of the shifted calendar).
pub open spec fn days_from_epoch(y: int, m: int, d: int) -> int {
    absolute_days(y, m, d) - 719468
}

/// Day of week, 0 = Sunday .. 6 = Saturday.
pub open spec fn day_of_week(y: int, m: int, d: int) -> int {
    (absolute_days(y, m, d) + 3) % 7
}

pub fn absolute_days_x(y: i32, m: u32, d: u32) -> (r: u64)
    requires
        valid_date(y as int, m as int, d as int),
    ensures
        r == absolute_days(y as int, m as int, d as int),
        r <= 3652364,
{
    let yy: u64 = if m <= 2 {
        (y - 1) as u64
    } else {
        y as u64
    };
    let era: u64 = yy / 400;
    let yoe: u64 = yy - era * 400;
    let mp: u64 = if m > 2 {
        (m - 3) as u64
    } else {
        (m + 9) as u64
    };
    let doy: u64 = (153 * mp + 2) / 5 + (d - 1) as u64;
    let doe: u64 = yoe * 365 + yoe / 4 - yoe / 100 + doy;
    era * 146097 + doe
}

pub fn epoch_days(y: i32, m: u32, d: u32) -> (r: i64)
    requires
        valid_date(y as int, m as int, d as int),
    ensures
        r == days_from_epoch(y as int, m as int, d as int),
{
    let g = absolute_days_x(y, m, d);
    (g as i64) - 719468
}

pub fn weekday(y: i32, m: u32, d: u32) -> (r: u32)
    requires
        valid_date(y as int, m as int, d as int),
    ensures
        r == day_of_week(y as int, m as int, d as int),
        r < 7,
{
    let g = absolute_days_x(y, m, d);
    ((g + 3) % 7) as u32
}

/// The following calendar day.
pub open spec fn next_day(y: int, m: int, d: int) -> (int, int, int) {
    if d < days_in_month(y, m) {
        (y, m, d + 1)
    } else if m < 12 {
        (y, m + 1, 1)
    } else {
        (y + 1, 1, 1)
    }
}

/// The preceding calendar day.
pub open spec fn prev_day(y: int, m: int, d: int) -> (int, int, int) {
    if d > 1 {
        (y, m, d - 1)
    } else if m > 1 {
        (y, m - 1, days_in_month(y, m - 1))
    } else {
        (y - 1, 12, 31)
    }
}

pub fn next_day_x(date: CivilDate) -> (r: CivilDate)
    requires
        date.wf(),
        date.year <= 9998,
    ensures
        (r.year as int, r.month as int, r.day as int) == next_day(
            date.year as int,
            date.month as int,
            date.day as int,
        ),
        r.wf(),
{
    if date.day < month_len(date.year, date.month) {
        CivilDate { year: date.year, month: date.month, day: date.day + 1 }
    } else if date.month < 12 {
        CivilDate { year: date.year, month: date.month + 1, day: 1 }
    } else {
        CivilDate { year: date.year + 1, month: 1, day: 1 }
    }
}

pub fn prev_day_x(date: CivilDate) -> (r: CivilDate)
    requires
        date.wf(),
        !(date.year == 1 && date.month == 1 && date.day == 1),
    ensures
        (r.year as int, r.month as int, r.day as int) == prev_day(
            date.year as int,
            date.month as int,
            date.day as int,
        ),
        r.wf(),
{
    if date.day > 1 {
        CivilDate { year: date.year, month: date.month, day: date.day - 1 }
    } else if date.month > 1 {
        CivilDate { year: date.year, month: date.month - 1, day: month_len(date.year, date.month - 1) }
    } else {
        CivilDate { year: date.year - 1, month: 12, day: 31 }
    }
}

/// The UTC civil fields of a local stamp: the day shifts by at most one.
pub open spec fn utc_of(ls: LocalStamp) -> LocalStamp {
    let t = ls.secs_of_day() - ls.offset_seconds;
    let y = ls.date.year as int;
    let m = ls.date.month as int;
    let d = ls.date.day as int;
    if t < 0 {
        let (py, pm, pd) = prev_day(y, m, d);
        LocalStamp {
            date: CivilDate { year: py as i32, month: pm as u32, day: pd as u32 },
            time: decompose_secs(t + 86400),
            offset_seconds: 0,
        }
    } else if t >= 86400 {
        let (ny, nm, nd) = next_day(y, m, d);
        LocalStamp {
            date: CivilDate { year: ny as i32, month: nm as u32, day: nd as u32 },
            time: decompose_secs(t - 86400),
            offset_seconds: 0,
        }
    } else {
        LocalStamp { date: ls.date, time: decompose_secs(t), offset_seconds: 0 }
    }
}

pub open spec fn decompose_secs(t: int) -> CivilTime {
    CivilTime { hour: (t / 3600) as u32, minute: ((t % 3600) / 60) as u32, second: (t % 60) as u32 }
}

fn decompose_secs_x(t: u32) -> (r: CivilTime)
    requires
        t < 86400,
    ensures
        r == decompose_secs(t as int),
        r.wf(),
{
    CivilTime { hour: t / 3600, minute: (t % 3600) / 60, second: t % 60 }
}

/// Shifts a local stamp to UTC (offset zero, same instant).
pub fn to_utc(ls: LocalStamp) -> (r: LocalStamp)
    requires
        ls.wf(),
    ensures
        r == utc_of(ls),
        r.date.wf(),
        r.time.wf(),
        r.offset_seconds == 0,
        r.epoch_seconds_spec() == ls.epoch_seconds_spec(),
{
    let secs: i64 = ls.time.hour as i64 * 3600 + ls.time.minute as i64 * 60 + ls.time.second as i64;
    let t: i64 = secs - ls.offset_seconds as i64;
    let r = if t < 0 {
        LocalStamp {
            date: prev_day_x(ls.date),
            time: decompose_secs_x((t + 86400) as u32),
            offset_seconds: 0,
        }
    } else if t >= 86400 {
        LocalStamp {
            date: next_day_x(ls.date),
            time: decompose_secs_x((t - 86400) as u32),
            offset_seconds: 0,
        }
    } else {
        LocalStamp { date: ls.date, time: decompose_secs_x(t as u32), offset_seconds: 0 }
    };
    proof {
        lemma_utc_same_instant(ls);
    }
    r
}

/// Splitting seconds of a day into hour, minute and second is exact.
proof fn lemma_decompose(t: int)
    requires
        0 <= t < 86400,
    ensures
        decompose_secs(t).wf(),
        (decompose_secs(t).hour as int) * 3600 + (decompose_secs(t).minute as int) * 60
            + decompose_secs(t).second as int == t,
{
    let h = t / 3600;
    let r = t % 3600;
    let mi = r / 60;
    let s2 = r % 60;
    vstd::arithmetic::div_mod::lemma_fundamental_div_mod(t, 3600);
    vstd::arithmetic::div_mod::lemma_fundamental_div_mod(r, 60);
    assert(t % 60 == r % 60) by {
        vstd::arithmetic::div_mod::lemma_mod_multiples_vanish(60 * h, r, 60);
    }
}

/// Shifting to UTC keeps the instant: the day step compensates the
/// seconds carried over midnight.
proof fn lemma_utc_same_instant(ls: LocalStamp)
    requires
        ls.wf(),
    ensures
        utc_of(ls).epoch_seconds_spec() == ls.epoch_seconds_spec(),
        utc_of(ls).date.wf(),
        utc_of(ls).time.wf(),
{
    let y = ls.date.year as int;
    let m = ls.date.month as int;
    let d = ls.date.day as int;
    let days = days_from_epoch(y, m, d);
    let t = ls.secs_of_day() - ls.offset_seconds;
    if t < 0 {
        lemma_prev_day_epoch(y, m, d);
        lemma_decompose(t + 86400);
        let (py, pm, pd) = prev_day(y, m, d);
        assert(days_from_epoch(py, pm, pd) == days - 1);
        assert((days - 1) * 86400 == days * 86400 - 86400) by (nonlinear_arith);
    } else if t >= 86400 {
        lemma_next_day_epoch(y, m, d);
        lemma_decompose(t - 86400);
        let (ny, nm, nd) = next_day(y, m, d);
        assert(days_from_epoch(ny, nm, nd) == days + 1);
        assert((days + 1) * 86400 == days * 86400 + 86400) by (nonlinear_arith);
    } else {
        lemma_decompose(t);
    }
}

/// The next calendar day is one epoch day later.
proof fn lemma_next_day_epoch(y: int, m: int, d: int)
    requires
        valid_date(y, m, d),
        y <= 9998,
    ensures
        ({
            let (ny, nm, nd) = next_day(y, m, d);
            &&& valid_date(ny, nm, nd)
            &&& absolute_days(ny, nm, nd) == absolute_days(y, m, d) + 1
        }),
{
}

/// The previous calendar day is one epoch day earlier.
proof fn lemma_prev_day_epoch(y: int, m: int, d: int)
    requires
        valid_date(y, m, d),
        !(y == 1 && m == 1 && d == 1),
    ensures
        ({
            let (py, pm, pd) = prev_day(y, m, d);
            &&& valid_date(py, pm, pd)
            &&& absolute_days(py, pm, pd) == absolute_days(y, m, d) - 1
        }),
{
}

/// Epoch seconds of a well-formed stamp, as an `i64`.
pub fn epoch_seconds(ls: &LocalStamp) -> (r: i64)
    requires
        ls.wf(),
    ensures
        r == ls.epoch_seconds_spec(),
{
    let days: i64 = epoch_days(ls.date.year, ls.date.month, ls.date.day);
    let secs: i64 = ls.time.hour as i64 * 3600 + ls.time.minute as i64 * 60 + ls.time.second as i64;
    days * 86400 + secs - ls.offset_seconds as i64
}

// ----- RFC 3339 rendering -----
pub open spec fn four_digits(v: int) -> Seq<char> {
    seq![
        text::digit_char(v / 1000),
        text::digit_char((v / 100) % 10),
        text::digit_char((v / 10) % 10),
        text::digit_char(v % 10),
    ]
}

/// The `+HH:MM` / `-HH:MM` suffix; offsets are rendered to whole minutes.
pub open spec fn fmt_offset(off: int) -> Seq<char> {
    if off >= 0 {
        seq!['+'] + text::two_digits(off / 3600) + seq![':'] + text::two_digits((off % 3600) / 60)
    } else {
        seq!['-'] + text::two_digits((-off) / 3600) + seq![':'] + text::two_digits(
            ((-off) % 3600) / 60,
        )
    }
}

/// The RFC 3339 rendering `YYYY-MM-DDTHH:MM:SS+HH:MM` of a stamp.
pub open spec fn rfc3339_of(ls: LocalStamp) -> Seq<char> {
    four_digits(ls.date.year as int) + seq!['-'] + text::two_digits(ls.date.month as int)
        + seq!['-'] + text::two_digits(ls.date.day as int) + seq!['T'] + text::two_digits(
        ls.time.hour as int,
    ) + seq![':'] + text::two_digits(ls.time.minute as int) + seq![':'] + text::two_digits(
        ls.time.second as int,
    ) + fmt_offset(ls.offset_seconds as int)
}

#[verifier::rlimit(60)]
pub fn to_rfc3339(ls: &LocalStamp) -> (r: String)
    requires
        ls.date.wf(),
        ls.time.wf(),
        -86400 < ls.offset_seconds < 86400,
    ensures
        r@ == rfc3339_of(*ls),
{
    let mut out: Vec<char> = Vec::new();
    let y: u32 = ls.date.year as u32;
    out.push(text::digit_ch(y / 1000));
    out.push(text::digit_ch((y / 100) % 10));
    out.push(text::digit_ch((y / 10) % 10));
    out.push(text::digit_ch(y % 10));
    out.push('-');
    proof {
        assert(out@ =~= four_digits(ls.date.year as int) + seq!['-']);
    }
    let ghost part1 = out@;
    out.push(text::digit_ch(ls.date.month / 10));
    out.push(text::digit_ch(ls.date.month % 10));
    out.push('-');
    out.push(text::digit_ch(ls.date.day / 10));
    out.push(text::digit_ch(ls.date.day % 10));
    out.push('T');
    proof {
        assert(out@ =~= part1 + text::two_digits(ls.date.month as int) + seq!['-']
            + text::two_digits(ls.date.day as int) + seq!['T']);
    }
    let ghost part2 = out@;
    out.push(text::digit_ch(ls.time.hour / 10));
    out.push(text::digit_ch(ls.time.hour % 10));
    out.push(':');
    out.push(text::digit_ch(ls.time.minute / 10));
    out.push(text::digit_ch(ls.time.minute % 10));
    out.push(':');
    out.push(text::digit_ch(ls.time.second / 10));
    out.push(text::digit_ch(ls.time.second % 10));
    proof {
        assert(out@ =~= part2 + text::two_digits(ls.time.hour as int) + seq![':']
            + text::two_digits(ls.time.minute as int) + seq![':'] + text::two_digits(
            ls.time.second as int,
        ));
    }
    let ghost part3 = out@;
    let off: i32 = ls.offset_seconds;
    let abs: u32 = if off >= 0 {
        out.push('+');
        off as u32
    } else {
        out.push('-');
        (-off) as u32
    };
    out.push(text::digit_ch(abs / 3600 / 10));
    out.push(text::digit_ch(abs / 3600 % 10));
    out.push(':');
    out.push(text::digit_ch((abs % 3600) / 60 / 10));
    out.push(text::digit_ch((abs % 3600) / 60 % 10));
    proof {
        assert((abs / 3600) as int == (abs as int) / 3600);
        assert(((abs % 3600) / 60) as int == ((abs as int) % 3600) / 60);
        assert(out@ =~= part3 + fmt_offset(ls.offset_seconds as int));
        assert(out@ =~= rfc3339_of(*ls));
    }
    text::string_from(&out)
}

// ----- RFC 3339 parsing -----
pub open spec fn digits2_ok(s: Seq<char>, i: int) -> bool {
    0 <= i && i + 2 <= s.len() && text::is_digit_char(s[i]) && text::is_digit_char(s[i + 1])
}

pub open spec fn d2(s: Seq<char>, i: int) -> int {
    text::digit_val(s[i]) * 10 + text::digit_val(s[i + 1])
}

pub open spec fn digits4_ok(s: Seq<char>, i: int) -> bool {
    digits2_ok(s, i) && digits2_ok(s, i + 2)
}

pub open spec fn d4(s: Seq<char>, i: int) -> int {
    d2(s, i) * 100 + d2(s, i + 2)
}

/// Index just past a run of fraction digits.
pub open spec fn frac_end(s: Seq<char>, i: int) -> int
    decreases s.len() - i,
{
    if 0 <= i && i < s.len() && text::is_digit_char(s[i]) {
        frac_end(s, i + 1)
    } else {
        i
    }
}

/// The trailing offset: `Z`/`z`, or a sign with `HH:MM`, ending the text.
pub open spec fn offset_at(s: Seq<char>, j: int) -> Option<int> {
    if 0 <= j && j + 1 == s.len() && (s[j] == 'Z' || s[j] == 'z') {
        Some(0)
    } else if 0 <= j && j + 6 == s.len() && (s[j] == '+' || s[j] == '-') && digits2_ok(s, j + 1)
        && s[j + 3] == ':' && digits2_ok(s, j + 4) && d2(s, j + 1) < 24 && d2(s, j + 4) < 60 {
        if s[j] == '-' {
            Some(-(d2(s, j + 1) * 3600 + d2(s, j + 4) * 60))
        } else {
            Some(d2(s, j + 1) * 3600 + d2(s, j + 4) * 60)
        }
    } else {
        None
    }
}

pub open spec fn rfc_shape_ok(s: Seq<char>) -> bool {
    &&& s.len() >= 20
    &&& digits4_ok(s, 0)
    &&& s[4] == '-'
    &&& digits2_ok(s, 5)
    &&& s[7] == '-'
    &&& digits2_ok(s, 8)
    &&& (s[10] == 'T' || s[10] == 't' || s[10] == ' ')
    &&& digits2_ok(s, 11)
    &&& s[13] == ':'
    &&& digits2_ok(s, 14)
    &&& s[16] == ':'
    &&& digits2_ok(s, 17)
}

/// Start of the offset: past the optional `.digits` fraction (which needs
/// at least one digit), else right after the seconds.
pub open spec fn rfc_offset_start(s: Seq<char>) -> int {
    if 20 < s.len() && s[19] == '.' && text::is_digit_char(s[20]) {
        frac_end(s, 20)
    } else {
        19
    }
}

/// What `parse_rfc3339_epoch` accepts: a full date-time with an offset,
/// fraction digits ignored; the result is the instant in epoch seconds.
pub open spec fn parse_rfc3339_spec(s: Seq<char>) -> Option<int> {
    if rfc_shape_ok(s) {
        let y = d4(s, 0);
        let m = d2(s, 5);
        let d = d2(s, 8);
        let h = d2(s, 11);
        let mi = d2(s, 14);
        let sec = d2(s, 17);
        match offset_at(s, rfc_offset_start(s)) {
            Some(off) => if valid_date(y, m, d) && h < 24 && mi < 60 && sec < 60 {
                Some(days_from_epoch(y, m, d) * 86400 + h * 3600 + mi * 60 + sec - off)
            } else {
                None
            },
            None => None,
        }
    } else {
        None
    }
}

fn d2x(cs: &Vec<char>, i: usize) -> (r: u32)
    requires
        digits2_ok(cs@, i as int),
    ensures
        r == d2(cs@, i as int),
        r <= 99,
{
    let len = cs.len();
    proof {
        assert(i + 2 <= len);
    }
    text::digit(cs[i]) * 10 + text::digit(cs[i + 1])
}

/// Parses an RFC 3339 date-time (offset or `Z`, optional fraction) into
/// epoch seconds.
pub fn parse_rfc3339_epoch(text_in: &str) -> (r: Option<i64>)
    ensures
        match r {
            Some(v) => parse_rfc3339_spec(text_in@) == Some(v as int),
            None => parse_rfc3339_spec(text_in@) is None,
        },
{
    let cs = text::chars_of(text_in);
    let n = cs.len();
    if n < 20 {
        return None;
    }
    let shape_ok = text::is_digit(cs[0]) && text::is_digit(cs[1]) && text::is_digit(cs[2])
        && text::is_digit(cs[3]) && cs[4] == '-' && text::is_digit(cs[5]) && text::is_digit(cs[6])
        && cs[7] == '-' && text::is_digit(cs[8]) && text::is_digit(cs[9]) && (cs[10] == 'T'
        || cs[10] == 't' || cs[10] == ' ') && text::is_digit(cs[11]) && text::is_digit(cs[12])
        && cs[13] == ':' && text::is_digit(cs[14]) && text::is_digit(cs[15]) && cs[16] == ':'
        && text::is_digit(cs[17]) && text::is_digit(cs[18]);
    if !shape_ok {
        return None;
    }
    let y: u32 = d2x(&cs, 0) * 100 + d2x(&cs, 2);
    let m: u32 = d2x(&cs, 5);
    let d: u32 = d2x(&cs, 8);
    let h: u32 = d2x(&cs, 11);
    let mi: u32 = d2x(&cs, 14);
    let sec: u32 = d2x(&cs, 17);
    let mut j: usize = 19;
    if 20 < n && cs[19] == '.' && text::is_digit(cs[20]) {
        j = 20;
        while j < n && text::is_digit(cs[j])
            invariant
                20 <= j <= n,
                n == cs@.len(),
                frac_end(cs@, 20) == frac_end(cs@, j as int),
            decreases n - j,
        {
            j = j + 1;
        }
    }
    let off: i32 = if n - j == 1 && (cs[j] == 'Z' || cs[j] == 'z') {
        0
    } else if n - j == 6 && (cs[j] == '+' || cs[j] == '-') && text::is_digit(cs[j + 1])
        && text::is_digit(cs[j + 2]) && cs[j + 3] == ':' && text::is_digit(cs[j + 4])
        && text::is_digit(cs[j + 5]) {
        let hh = d2x(&cs, j + 1);
        let mm = d2x(&cs, j + 4);
        if hh < 24 && mm < 60 {
            let v: i32 = (hh * 3600 + mm * 60) as i32;
            if cs[j] == '-' {
                -v
            } else {
                v
            }
        } else {
            return None;
        }
    } else {
        return None;
    };
    if !(1 <= m && m <= 12 && 1 <= y && y <= 9999) {
        return None;
    }
    if !(1 <= d && d <= month_len(y as i32, m)) {
        return None;
    }
    if !(h < 24 && mi < 60 && sec < 60) {
        return None;
    }
    let days: i64 = epoch_days(y as i32, m, d);
    Some(days * 86400 + h as i64 * 3600 + mi as i64 * 60 + sec as i64 - off as i64)
}

// ----- listing date formats -----
/// Lower-case full month names; abbreviations are their first three letters.
pub open spec fn month_name_full(m: int) -> Seq<char> {
    if m == 1 {
        seq!['j', 'a', 'n', 'u', 'a', 'r', 'y']
    } else if m == 2 {
        seq!['f', 'e', 'b', 'r', 'u', 'a', 'r', 'y']
    } else if m == 3 {
        seq!['m', 'a', 'r', 'c', 'h']
    } else if m == 4 {
        seq!['a', 'p', 'r', 'i', 'l']
    } else if m == 5 {
        seq!['m', 'a', 'y']
    } else if m == 6 {
        seq!['j', 'u', 'n', 'e']
    } else if m == 7 {
        seq!['j', 'u', 'l', 'y']
    } else if m == 8 {
        seq!['a', 'u', 'g', 'u', 's', 't']
    } else if m == 9 {
        seq!['s', 'e', 'p', 't', 'e', 'm', 'b', 'e', 'r']
    } else if m == 10 {
        seq!['o', 'c', 't', 'o', 'b', 'e', 'r']
    } else if m == 11 {
        seq!['n', 'o', 'v', 'e', 'm', 'b', 'e', 'r']
    } else {
        seq!['d', 'e', 'c', 'e', 'm', 'b', 'e', 'r']
    }
}

pub open spec fn month_name_abbr(m: int) -> Seq<char> {
    month_name_full(m).take(3)
}

/// Lower-case full weekday names, indexed 0 = Sunday .. 6 = Saturday.
pub open spec fn weekday_name_full(w: int) -> Seq<char> {
    if w == 0 {
        seq!['s', 'u', 'n', 'd', 'a', 'y']
    } else if w == 1 {
        seq!['m', 'o', 'n', 'd', 'a', 'y']
    } else if w == 2 {
        seq!['t', 'u', 'e', 's', 'd', 'a', 'y']
    } else if w == 3 {
        seq!['w', 'e', 'd', 'n', 'e', 's', 'd', 'a', 'y']
    } else if w == 4 {
        seq!['t', 'h', 'u', 'r', 's', 'd', 'a', 'y']
    } else if w == 5 {
        seq!['f', 'r', 'i', 'd', 'a', 'y']
    } else {
        seq!['s', 'a', 't', 'u', 'r', 'd', 'a', 'y']
    }
}

pub open spec fn weekday_name_abbr(w: int) -> Seq<char> {
    weekday_name_full(w).take(3)
}

/// One or two digits starting at `i`, read greedily: value and next index.
pub open spec fn num2_at(s: Seq<char>, i: int) -> Option<(int, int)> {
    if 0 <= i && i < s.len() && text::is_digit_char(s[i]) {
        if i + 1 < s.len() && text::is_digit_char(s[i + 1]) {
            Some((text::digit_val(s[i]) * 10 + text::digit_val(s[i + 1]), i + 2))
        } else {
            Some((text::digit_val(s[i]), i + 1))
        }
    } else {
        None
    }
}

/// The numeric `M/D/YYYY` form, filling the whole text.
pub open spec fn parse_mdy4(s: Seq<char>) -> Option<(int, int, int)> {
    match num2_at(s, 0) {
        None => None,
        Some((m, p1)) => if p1 < s.len() && s[p1] == '/' {
            match num2_at(s, p1 + 1) {
                None => None,
                Some((d, p2)) => if p2 < s.len() && s[p2] == '/' && digits4_ok(s, p2 + 1) && p2 + 5
                    == s.len() {
                    Some((d4(s, p2 + 1), m, d))
                } else {
                    None
                },
            }
        } else {
            None
        },
    }
}

/// The numeric `M/D/YY` form; `00`-`68` mean 2000s, `69`-`99` mean 1900s.
pub open spec fn parse_mdy2(s: Seq<char>) -> Option<(int, int, int)> {
    match num2_at(s, 0) {
        None => None,
        Some((m, p1)) => if p1 < s.len() && s[p1] == '/' {
            match num2_at(s, p1 + 1) {
                None => None,
                Some((d, p2)) => if p2 < s.len() && s[p2] == '/' && digits2_ok(s, p2 + 1) && p2 + 3
                    == s.len() {
                    Some((if d2(s, p2 + 1) < 69 {
                        2000 + d2(s, p2 + 1)
                    } else {
                        1900 + d2(s, p2 + 1)
                    }, m, d))
                } else {
                    None
                },
            }
        } else {
            None
        },
    }
}

/// A weekday name (full or three-letter, case-insensitive) at `i`:
/// weekday index and next position. Full names are tried first.
pub open spec fn weekday_full_at(s: Seq<char>, i: int, w: int) -> Option<(int, int)>
    decreases 7 - w,
{
    if w < 0 || w > 6 {
        None
    } else if text::match_here(s, weekday_name_full(w), i, true) {
        Some((w, i + weekday_name_full(w).len()))
    } else {
        weekday_full_at(s, i, w + 1)
    }
}

pub open spec fn weekday_abbr_at(s: Seq<char>, i: int, w: int) -> Option<(int, int)>
    decreases 7 - w,
{
    if w < 0 || w > 6 {
        None
    } else if text::match_here(s, weekday_name_abbr(w), i, true) {
        Some((w, i + 3))
    } else {
        weekday_abbr_at(s, i, w + 1)
    }
}

pub open spec fn weekday_at(s: Seq<char>, i: int) -> Option<(int, int)> {
    if weekday_full_at(s, i, 0) is Some {
        weekday_full_at(s, i, 0)
    } else {
        weekday_abbr_at(s, i, 0)
    }
}

/// A month name (full or three-letter, case-insensitive) at `i`: month
/// number and next position. Full names are tried first.
pub open spec fn month_full_at(s: Seq<char>, i: int, m: int) -> Option<(int, int)>
    decreases 13 - m,
{
    if m < 1 || m > 12 {
        None
    } else if text::match_here(s, month_name_full(m), i, true) {
        Some((m, i + month_name_full(m).len()))
    } else {
        month_full_at(s, i, m + 1)
    }
}

pub open spec fn month_abbr_at(s: Seq<char>, i: int, m: int) -> Option<(int, int)>
    decreases 13 - m,
{
    if m < 1 || m > 12 {
        None
    } else if text::match_here(s, month_name_abbr(m), i, true) {
        Some((m, i + 3))
    } else {
        month_abbr_at(s, i, m + 1)
    }
}

pub open spec fn month_at(s: Seq<char>, i: int) -> Option<(int, int)> {
    if month_full_at(s, i, 1) is Some {
        month_full_at(s, i, 1)
    } else {
        month_abbr_at(s, i, 1)
    }
}

/// The weekday-prefixed numeric form `Weekday M/D/YYYY`; the weekday must
/// agree with the date.
pub open spec fn parse_wd_mdy(s: Seq<char>) -> Option<(int, int, int)> {
    match weekday_at(s, 0) {
        None => None,
        Some((w, p)) => if p < s.len() && s[p] == ' ' {
            match parse_mdy4(s.skip(p + 1)) {
                None => None,
                Some((y, m, d)) => if valid_date(y, m, d) && day_of_week(y, m, d) == w {
                    Some((y, m, d))
                } else {
                    None
                },
            }
        } else {
            None
        },
    }
}

/// The month-name form `Month D, YYYY` (an optional single space after
/// the comma), filling the whole text.
pub open spec fn parse_name_dy(s: Seq<char>) -> Option<(int, int, int)> {
    match month_at(s, 0) {
        None => None,
        Some((m, p)) => if p < s.len() && s[p] == ' ' {
            match num2_at(s, p + 1) {
                None => None,
                Some((d, q)) => if q < s.len() && s[q] == ',' {
                    let y0 = if q + 1 < s.len() && s[q + 1] == ' ' {
                        q + 2
                    } else {
                        q + 1
                    };
                    if digits4_ok(s, y0) && y0 + 4 == s.len() {
                        Some((d4(s, y0), m, d))
                    } else {
                        None
                    }
                } else {
                    None
                },
            }
        } else {
            None
        },
    }
}

/// The year-less month-name form `Month D`, filling the whole text.
pub open spec fn parse_name_d(s: Seq<char>) -> Option<(int, int)> {
    match month_at(s, 0) {
        None => None,
        Some((m, p)) => if p < s.len() && s[p] == ' ' {
            match num2_at(s, p + 1) {
                None => None,
                Some((d, q)) => if q == s.len() {
                    Some((m, d))
                } else {
                    None
                },
            }
        } else {
            None
        },
    }
}

pub open spec fn date_before(y: int, m: int, d: int, t: CivilDate) -> bool {
    ||| y < t.year as int
    ||| (y == t.year as int && m < t.month as int)
    ||| (y == t.year as int && m == t.month as int && d < t.day as int)
}

/// The year-less form resolved against `today`: the current year is
/// assumed, and a date strictly before today rolls forward one year.
/// A day invalid in the chosen year (February 29) yields nothing.
pub open spec fn yearless_spec(s: Seq<char>, today: CivilDate) -> Option<(int, int, int)> {
    match parse_name_d(s) {
        None => None,
        Some((m, d)) => {
            let y = today.year as int;
            if !valid_date(y, m, d) {
                None
            } else if date_before(y, m, d, today) {
                if valid_date(y + 1, m, d) {
                    Some((y + 1, m, d))
                } else {
                    None
                }
            } else {
                Some((y, m, d))
            }
        },
    }
}

pub open spec fn valid_opt(o: Option<(int, int, int)>) -> bool {
    o matches Some((y, m, d)) && valid_date(y, m, d)
}

/// What `parse_naive_date` accepts: the fixed ordered list of formats,
/// each tried in turn, a shape match with an invalid date falling through
/// to the next format.
pub open spec fn parse_date_spec(s: Seq<char>, today: CivilDate) -> Option<(int, int, int)> {
    if valid_opt(parse_mdy4(s)) {
        parse_mdy4(s)
    } else if valid_opt(parse_mdy2(s)) {
        parse_mdy2(s)
    } else if valid_opt(parse_wd_mdy(s)) {
        parse_wd_mdy(s)
    } else if valid_opt(parse_name_dy(s)) {
        parse_name_dy(s)
    } else {
        yearless_spec(s, today)
    }
}

/// A `MM-DD-YYYY` group starting exactly at `i`.
pub open spec fn url_date_at(s: Seq<char>, i: int) -> Option<(int, int, int)> {
    if digits2_ok(s, i) && i + 10 <= s.len() && s[i + 2] == '-' && digits2_ok(s, i + 3) && s[i + 5]
        == '-' && digits4_ok(s, i + 6) {
        Some((d2(s, i), d2(s, i + 3), d4(s, i + 6)))
    } else {
        None
    }
}

/// The leftmost `MM-DD-YYYY` group at or after `i`: month, day, year.
pub open spec fn find_url_date(s: Seq<char>, i: int) -> Option<(int, int, int)>
    decreases s.len() - i,
{
    if i < 0 || i >= s.len() {
        None
    } else if url_date_at(s, i) is Some {
        url_date_at(s, i)
    } else {
        find_url_date(s, i + 1)
    }
}

/// Reads the first `MM-DD-YYYY` group out of a ticket URL: month, day,
/// year.
pub fn extract_date_from_url(url: &str) -> (r: Option<(u32, u32, i32)>)
    ensures
        match r {
            Some((m, d, y)) => find_url_date(url@, 0) == Some((m as int, d as int, y as int)) && m
                <= 99 && d <= 99 && 0 <= y <= 9999,
            None => find_url_date(url@, 0) is None,
        },
{
    let cs = text::chars_of(url);
    let n = cs.len();
    let mut i: usize = 0;
    while i < n
        invariant
            0 <= i <= n,
            n == cs@.len(),
            cs@ == url@,
            find_url_date(cs@, 0) == find_url_date(cs@, i as int),
        decreases n - i,
    {
        if n >= 10 && i <= n - 10 && text::is_digit(cs[i]) && text::is_digit(cs[i + 1]) && cs[i + 2]
            == '-' && text::is_digit(cs[i + 3]) && text::is_digit(cs[i + 4]) && cs[i + 5] == '-'
            && text::is_digit(cs[i + 6]) && text::is_digit(cs[i + 7]) && text::is_digit(cs[i + 8])
            && text::is_digit(cs[i + 9]) {
            let m = d2x(&cs, i);
            let d = d2x(&cs, i + 3);
            let y = d2x(&cs, i + 6) * 100 + d2x(&cs, i + 8);
            proof {
                assert(url_date_at(cs@, i as int) == Some((m as int, d as int, y as int)));
                assert(find_url_date(cs@, i as int) == url_date_at(cs@, i as int));
            }
            return Some((m, d, y as i32));
        }
        proof {
            assert(url_date_at(cs@, i as int) is None);
        }
        i = i + 1;
    }
    None
}

pub fn check_valid(y: i32, m: u32, d: u32) -> (r: bool)
    ensures
        r == valid_date(y as int, m as int, d as int),
{
    if 1 <= y && y <= 9999 && 1 <= m && m <= 12 {
        1 <= d && d <= month_len(y, m)
    } else {
        false
    }
}

fn month_pat(m: u32) -> (r: Vec<char>)
    requires
        1 <= m <= 12,
    ensures
        r@ == month_name_full(m as int),
{
    let r: Vec<char> = match m {
        1 => vec!['j', 'a', 'n', 'u', 'a', 'r', 'y'],
        2 => vec!['f', 'e', 'b', 'r', 'u', 'a', 'r', 'y'],
        3 => vec!['m', 'a', 'r', 'c', 'h'],
        4 => vec!['a', 'p', 'r', 'i', 'l'],
        5 => vec!['m', 'a', 'y'],
        6 => vec!['j', 'u', 'n', 'e'],
        7 => vec!['j', 'u', 'l', 'y'],
        8 => vec!['a', 'u', 'g', 'u', 's', 't'],
        9 => vec!['s', 'e', 'p', 't', 'e', 'm', 'b', 'e', 'r'],
        10 => vec!['o', 'c', 't', 'o', 'b', 'e', 'r'],
        11 => vec!['n', 'o', 'v', 'e', 'm', 'b', 'e', 'r'],
        _ => vec!['d', 'e', 'c', 'e', 'm', 'b', 'e', 'r'],
    };
    proof {
        assert(r@ =~= month_name_full(m as int));
    }
    r
}

fn weekday_pat(w: u32) -> (r: Vec<char>)
    requires
        w <= 6,
    ensures
        r@ == weekday_name_full(w as int),
{
    let r: Vec<char> = match w {
        0 => vec!['s', 'u', 'n', 'd', 'a', 'y'],
        1 => vec!['m', 'o', 'n', 'd', 'a', 'y'],
        2 => vec!['t', 'u', 'e', 's', 'd', 'a', 'y'],
        3 => vec!['w', 'e', 'd', 'n', 'e', 's', 'd', 'a', 'y'],
        4 => vec!['t', 'h', 'u', 'r', 's', 'd', 'a', 'y'],
        5 => vec!['f', 'r', 'i', 'd', 'a', 'y'],
        _ => vec!['s', 'a', 't', 'u', 'r', 'd', 'a', 'y'],
    };
    proof {
        assert(r@ =~= weekday_name_full(w as int));
    }
    r
}

fn take3(v: &Vec<char>) -> (r: Vec<char>)
    requires
        v.len() >= 3,
    ensures
        r@ == v@.take(3),
{
    let mut r: Vec<char> = Vec::new();
    r.push(v[0]);
    r.push(v[1]);
    r.push(v[2]);
    proof {
        assert(r@ =~= v@.take(3));
    }
    r
}

pub open spec fn opt_pos_view(o: Option<(u32, usize)>) -> Option<(int, int)> {
    match o {
        Some((a, b)) => Some((a as int, b as int)),
        None => None,
    }
}

fn month_at_x(cs: &Vec<char>, i: usize) -> (r: Option<(u32, usize)>)
    requires
        i <= cs.len(),
    ensures
        opt_pos_view(r) == month_at(cs@, i as int),
        r matches Some((m, p)) ==> 1 <= m <= 12 && i <= p <= cs.len(),
{
    let mut m: u32 = 1;
    while m <= 12
        invariant
            1 <= m <= 13,
            i <= cs.len(),
            month_full_at(cs@, i as int, 1) == month_full_at(cs@, i as int, m as int),
        decreases 13 - m,
    {
        let pat = month_pat(m);
        if text::is_match_at(cs, &pat, i, true) {
            return Some((m, i + pat.len()));
        }
        m = m + 1;
    }
    let mut w: u32 = 1;
    while w <= 12
        invariant
            1 <= w <= 13,
            i <= cs.len(),
            month_full_at(cs@, i as int, 1) is None,
            month_abbr_at(cs@, i as int, 1) == month_abbr_at(cs@, i as int, w as int),
        decreases 13 - w,
    {
        let pat = take3(&month_pat(w));
        if text::is_match_at(cs, &pat, i, true) {
            return Some((w, i + 3));
        }
        w = w + 1;
    }
    None
}

fn weekday_at_x(cs: &Vec<char>, i: usize) -> (r: Option<(u32, usize)>)
    requires
        i <= cs.len(),
    ensures
        opt_pos_view(r) == weekday_at(cs@, i as int),
        r matches Some((w, p)) ==> w <= 6 && i <= p <= cs.len(),
{
    let mut w: u32 = 0;
    while w <= 6
        invariant
            0 <= w <= 7,
            i <= cs.len(),
            weekday_full_at(cs@, i as int, 0) == weekday_full_at(cs@, i as int, w as int),
        decreases 7 - w,
    {
        let pat = weekday_pat(w);
        if text::is_match_at(cs, &pat, i, true) {
            return Some((w, i + pat.len()));
        }
        w = w + 1;
    }
    let mut v: u32 = 0;
    while v <= 6
        invariant
            0 <= v <= 7,
            i <= cs.len(),
            weekday_full_at(cs@, i as int, 0) is None,
            weekday_abbr_at(cs@, i as int, 0) == weekday_abbr_at(cs@, i as int, v as int),
        decreases 7 - v,
    {
        let pat = take3(&weekday_pat(v));
        if text::is_match_at(cs, &pat, i, true) {
            return Some((v, i + 3));
        }
        v = v + 1;
    }
    None
}

fn num2_at_x(cs: &Vec<char>, i: usize) -> (r: Option<(u32, usize)>)
    requires
        i <= cs.len(),
    ensures
        opt_pos_view(r) == num2_at(cs@, i as int),
        r matches Some((v, p)) ==> v <= 99 && i < p <= cs.len(),
{
    if i < cs.len() && text::is_digit(cs[i]) {
        if i + 1 < cs.len() && text::is_digit(cs[i + 1]) {
            Some((text::digit(cs[i]) * 10 + text::digit(cs[i + 1]), i + 2))
        } else {
            Some((text::digit(cs[i]), i + 1))
        }
    } else {
        None
    }
}

pub open spec fn opt_date_view(o: Option<(i32, u32, u32)>) -> Option<(int, int, int)> {
    match o {
        Some((y, m, d)) => Some((y as int, m as int, d as int)),
        None => None,
    }
}

fn parse_mdy4_x(cs: &Vec<char>) -> (r: Option<(i32, u32, u32)>)
    ensures
        opt_date_view(r) == parse_mdy4(cs@),
        r matches Some((y, m, d)) ==> 0 <= y <= 9999 && m <= 99 && d <= 99,
{
    let n = cs.len();
    match num2_at_x(cs, 0) {
        None => None,
        Some((m, p1)) => if p1 < n && cs[p1] == '/' {
            match num2_at_x(cs, p1 + 1) {
                None => None,
                Some((d, p2)) => if p2 < n && cs[p2] == '/' && n - p2 == 5 && text::is_digit(
                    cs[p2 + 1],
                ) && text::is_digit(cs[p2 + 2]) && text::is_digit(cs[p2 + 3]) && text::is_digit(
                    cs[p2 + 4],
                ) {
                    let y = d2x(cs, p2 + 1) * 100 + d2x(cs, p2 + 3);
                    Some((y as i32, m, d))
                } else {
                    None
                },
            }
        } else {
            None
        },
    }
}

fn parse_mdy2_x(cs: &Vec<char>) -> (r: Option<(i32, u32, u32)>)
    ensures
        opt_date_view(r) == parse_mdy2(cs@),
        r matches Some((y, m, d)) ==> 1900 <= y <= 2068 && m <= 99 && d <= 99,
{
    let n = cs.len();
    match num2_at_x(cs, 0) {
        None => None,
        Some((m, p1)) => if p1 < n && cs[p1] == '/' {
            match num2_at_x(cs, p1 + 1) {
                None => None,
                Some((d, p2)) => if p2 < n && cs[p2] == '/' && n - p2 == 3 && text::is_digit(
                    cs[p2 + 1],
                ) && text::is_digit(cs[p2 + 2]) {
                    let yy = d2x(cs, p2 + 1);
                    let y: i32 = if yy < 69 {
                        2000 + yy as i32
                    } else {
                        1900 + yy as i32
                    };
                    Some((y, m, d))
                } else {
                    None
                },
            }
        } else {
            None
        },
    }
}

pub fn sub_vec(cs: &Vec<char>, start: usize) -> (r: Vec<char>)
    requires
        start <= cs.len(),
    ensures
        r@ == cs@.skip(start as int),
{
    let mut r: Vec<char> = Vec::new();
    let mut i: usize = start;
    while i < cs.len()
        invariant
            start <= i <= cs.len(),
            r@ == cs@.subrange(start as int, i as int),
        decreases cs.len() - i,
    {
        r.push(cs[i]);
        proof {
            assert(cs@.subrange(start as int, i + 1 as int) =~= cs@.subrange(
                start as int,
                i as int,
            ).push(cs@[i as int]));
        }
        i = i + 1;
    }
    proof {
        assert(cs@.subrange(start as int, cs@.len() as int) =~= cs@.skip(start as int));
    }
    r
}

fn parse_wd_mdy_x(cs: &Vec<char>) -> (r: Option<(i32, u32, u32)>)
    ensures
        opt_date_view(r) == parse_wd_mdy(cs@),
        r matches Some((y, m, d)) ==> valid_date(y as int, m as int, d as int),
{
    match weekday_at_x(cs, 0) {
        None => None,
        Some((w, p)) => if p < cs.len() && cs[p] == ' ' {
            let rest = sub_vec(cs, p + 1);
            match parse_mdy4_x(&rest) {
                None => None,
                Some((y, m, d)) => if check_valid(y, m, d) && weekday(y, m, d) == w {
                    Some((y, m, d))
                } else {
                    None
                },
            }
        } else {
            None
        },
    }
}

fn parse_name_dy_x(cs: &Vec<char>) -> (r: Option<(i32, u32, u32)>)
    ensures
        opt_date_view(r) == parse_name_dy(cs@),
        r matches Some((y, m, d)) ==> 0 <= y <= 9999 && 1 <= m <= 12 && d <= 99,
{
    let n = cs.len();
    match month_at_x(cs, 0) {
        None => None,
        Some((m, p)) => if p < n && cs[p] == ' ' {
            match num2_at_x(cs, p + 1) {
                None => None,
                Some((d, q)) => if q < n && cs[q] == ',' {
                    let y0: usize = if q + 1 < n && cs[q + 1] == ' ' {
                        q + 2
                    } else {
                        q + 1
                    };
                    if y0 <= n && n - y0 == 4 && text::is_digit(cs[y0]) && text::is_digit(
                        cs[y0 + 1],
                    ) && text::is_digit(cs[y0 + 2]) && text::is_digit(cs[y0 + 3]) {
                        let y = d2x(cs, y0) * 100 + d2x(cs, y0 + 2);
                        Some((y as i32, m, d))
                    } else {
                        None
                    }
                } else {
                    None
                },
            }
        } else {
            None
        },
    }
}

fn parse_name_d_x(cs: &Vec<char>) -> (r: Option<(u32, u32)>)
    ensures
        match r {
            Some((m, d)) => parse_name_d(cs@) == Some((m as int, d as int)) && 1 <= m <= 12 && d
                <= 99,
            None => parse_name_d(cs@) is None,
        },
{
    match month_at_x(cs, 0) {
        None => None,
        Some((m, p)) => if p < cs.len() && cs[p] == ' ' {
            match num2_at_x(cs, p + 1) {
                None => None,
                Some((d, q)) => if q == cs.len() {
                    Some((m, d))
                } else {
                    None
                },
            }
        } else {
            None
        },
    }
}

/// Parses a listing date in the accepted formats: numeric `M/D/YYYY` and
/// `M/D/YY`, weekday-prefixed numeric, `Month D, YYYY` with a full or
/// abbreviated month name, and year-less `Month D` resolved against
/// `today` (rolling forward one year when the date has already passed).
pub fn parse_naive_date(input: &str, today: CivilDate) -> (r: Option<CivilDate>)
    requires
        today.wf(),
    ensures
        match r {
            Some(cd) => parse_date_spec(input@, today) == Some(
                (cd.year as int, cd.month as int, cd.day as int),
            ) && cd.wf(),
            None => parse_date_spec(input@, today) is None,
        },
{
    let cs = text::chars_of(input);
    if let Some((y, m, d)) = parse_mdy4_x(&cs) {
        if check_valid(y, m, d) {
            return Some(CivilDate { year: y, month: m, day: d });
        }
    }
    if let Some((y, m, d)) = parse_mdy2_x(&cs) {
        if check_valid(y, m, d) {
            return Some(CivilDate { year: y, month: m, day: d });
        }
    }
    if let Some((y, m, d)) = parse_wd_mdy_x(&cs) {
        if check_valid(y, m, d) {
            return Some(CivilDate { year: y, month: m, day: d });
        }
    }
    if let Some((y, m, d)) = parse_name_dy_x(&cs) {
        if check_valid(y, m, d) {
            return Some(CivilDate { year: y, month: m, day: d });
        }
    }
    match parse_name_d_x(&cs) {
        None => None,
        Some((m, d)) => {
            let y: i32 = today.year;
            if !check_valid(y, m, d) {
                return None;
            }
            let before = y < today.year || (y == today.year && (m < today.month || (m
                == today.month && d < today.day)));
            if before {
                if check_valid(y + 1, m, d) {
                    Some(CivilDate { year: y + 1, month: m, day: d })
                } else {
                    None
                }
            } else {
                Some(CivilDate { year: y, month: m, day: d })
            }
        },
    }
}

} // verus!
