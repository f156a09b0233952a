//! Resolution of local civil times in a named time zone: the zone lookup
//! itself is the time-zone database's job; choosing among its answers
//! (unique, ambiguous through a fallback transition, or nonexistent in a
//! gap) is decided and verified here.

use vstd::prelude::*;
use crate::dates::{CivilDate, CivilTime, LocalStamp, valid_date, days_from_epoch};
use crate::text;

verus! {

/// The UTC offsets (local minus UTC, seconds) with which the zone realizes
/// the given wall-clock time: none for an unknown zone; else an empty
/// sequence for a gap, one offset normally, two through a fallback.
/// A pure function of its arguments: the zone data is compiled in.
pub uninterp spec fn tz_local_offsets(
    tz: Seq<char>,
    y: int,
    m: int,
    d: int,
    h: int,
    min: int,
) -> Option<Seq<int>>;

/// Relies on `chrono_tz::Tz::from_str` and `chrono::TimeZone::
/// from_local_datetime`: maps a wall-clock time to the offsets the zone
/// admits for it; `chrono::FixedOffset` keeps offsets under one day.
#[verifier::external_body]
fn resolve_local_offsets(tz: &str, y: i32, m: u32, d: u32, h: u32, min: u32) -> (r: Option<
    Vec<i32>,
>)
    requires
        valid_date(y as int, m as int, d as int),
        h < 24,
        min < 60,
    ensures
        match r {
            Some(v) => {
                &&& tz_local_offsets(tz@, y as int, m as int, d as int, h as int, min as int)
                    == Some(v@.map_values(|x: i32| x as int))
                &&& v@.len() <= 2
                &&& forall|k: int| 0 <= k < v@.len() ==> -86400 < #[trigger] v@[k] < 86400
            },
            None => tz_local_offsets(tz@, y as int, m as int, d as int, h as int, min as int)
                is None,
        },
{
    let zone: chrono_tz::Tz = tz.parse().ok()?;
    let date = chrono::NaiveDate::from_ymd_opt(y, m, d)?;
    let time = chrono::NaiveTime::from_hms_opt(h, min, 0)?;
    match chrono::TimeZone::from_local_datetime(&zone, &date.and_time(time)) {
        chrono::LocalResult::None => Some(vec![]),
        chrono::LocalResult::Single(a) => Some(vec![chrono::Offset::fix(a.offset()).local_minus_utc()]),
        chrono::LocalResult::Ambiguous(a, b) => Some(vec![
            chrono::Offset::fix(a.offset()).local_minus_utc(),
            chrono::Offset::fix(b.offset()).local_minus_utc(),
        ]),
    }
}

/// The offset this library picks for a wall-clock time: the unique one,
/// or through a fallback the larger one — the earlier of the two
/// instants. A gap or an unknown zone picks none.
pub open spec fn tz_resolve_spec(tz: Seq<char>, date: CivilDate, h: int, min: int) -> Option<int> {
    match tz_local_offsets(tz, date.year as int, date.month as int, date.day as int, h, min) {
        None => None,
        Some(offs) => if offs.len() == 1 {
            Some(offs[0])
        } else if offs.len() == 2 {
            Some(
                if offs[0] >= offs[1] {
                    offs[0]
                } else {
                    offs[1]
                },
            )
        } else {
            None
        },
    }
}

/// Epoch seconds of a wall-clock time read as UTC (offset not yet applied).
pub open spec fn base_secs(date: CivilDate, h: int, min: int) -> int {
    days_from_epoch(date.year as int, date.month as int, date.day as int) * 86400 + h * 3600 + min
        * 60
}

/// Resolves a wall-clock time in a named zone. An ambiguous time (the
/// clock fallback) resolves to the earlier of the two instants; a time
/// inside a gap, an unknown zone, or a date at the supported calendar's
/// edge resolves to nothing.
pub fn to_timezone_datetime(date: CivilDate, h: u32, min: u32, tz: &str) -> (r: Option<LocalStamp>)
    requires
        date.wf(),
        h < 24,
        min < 60,
    ensures
        match r {
            Some(ls) => {
                &&& ls.date == date
                &&& ls.time == (CivilTime { hour: h, minute: min, second: 0 })
                &&& tz_resolve_spec(tz@, date, h as int, min as int) == Some(
                    ls.offset_seconds as int,
                )
                &&& ls.wf()
                &&& (match tz_local_offsets(
                    tz@,
                    date.year as int,
                    date.month as int,
                    date.day as int,
                    h as int,
                    min as int,
                ) {
                    Some(offs) => forall|k: int|
                        0 <= k < offs.len() ==> ls.epoch_seconds_spec() <= base_secs(
                            date,
                            h as int,
                            min as int,
                        ) - #[trigger] offs[k],
                    None => true,
                })
            },
            None => tz_resolve_spec(tz@, date, h as int, min as int) is None || date.year > 9998
                || (date.year == 1 && date.month == 1 && date.day == 1),
        },
{
    if date.year > 9998 || (date.year == 1 && date.month == 1 && date.day == 1) {
        return None;
    }
    match resolve_local_offsets(tz, date.year, date.month, date.day, h, min) {
        None => None,
        Some(offs) => {
            if offs.len() == 1 {
                Some(
                    LocalStamp {
                        date,
                        time: CivilTime { hour: h, minute: min, second: 0 },
                        offset_seconds: offs[0],
                    },
                )
            } else if offs.len() == 2 {
                let off: i32 = if offs[0] >= offs[1] {
                    offs[0]
                } else {
                    offs[1]
                };
                Some(
                    LocalStamp {
                        date,
                        time: CivilTime { hour: h, minute: min, second: 0 },
                        offset_seconds: off,
                    },
                )
            } else {
                None
            }
        },
    }
}

/// The stamp of a wall-clock time the zone admits exactly one offset
/// for: both a gap and an ambiguous time, an unknown zone, and a date at
/// the supported calendar's edge yield nothing.
pub open spec fn single_of(date: CivilDate, h: int, min: int, tz: Seq<char>) -> Option<LocalStamp> {
    if date.year > 9998 || (date.year == 1 && date.month == 1 && date.day == 1) {
        None
    } else {
        match tz_local_offsets(tz, date.year as int, date.month as int, date.day as int, h, min) {
            Some(v) => if v.len() == 1 {
                Some(
                    LocalStamp {
                        date,
                        time: CivilTime { hour: h as u32, minute: min as u32, second: 0 },
                        offset_seconds: v[0] as i32,
                    },
                )
            } else {
                None
            },
            None => None,
        }
    }
}

/// Resolves a wall-clock time only when the zone admits exactly one
/// offset for it: both a gap and an ambiguous time resolve to nothing.
pub fn resolve_single(date: CivilDate, h: u32, min: u32, tz: &str) -> (r: Option<LocalStamp>)
    requires
        date.wf(),
        h < 24,
        min < 60,
    ensures
        r == single_of(date, h as int, min as int, tz@),
        r matches Some(ls) ==> ls.wf(),
{
    if date.year > 9998 || (date.year == 1 && date.month == 1 && date.day == 1) {
        return None;
    }
    match resolve_local_offsets(tz, date.year, date.month, date.day, h, min) {
        None => None,
        Some(offs) => {
            if offs.len() == 1 {
                Some(
                    LocalStamp {
                        date,
                        time: CivilTime { hour: h, minute: min, second: 0 },
                        offset_seconds: offs[0],
                    },
                )
            } else {
                None
            }
        },
    }
}

/// A normalized scanned time accepted as a clock time: hour 1 through 12
/// with minutes under 60, converted to the 24-hour clock.
pub open spec fn naive_time_spec(s: Seq<char>) -> Option<(int, int)> {
    match text::find_time_from(text::clean_text_spec(s), 0) {
        Some((h, m, pm)) => if 1 <= h <= 12 && m <= 59 {
            Some(
                (
                    if pm {
                        if h == 12 {
                            12
                        } else {
                            h + 12
                        }
                    } else {
                        if h == 12 {
                            0
                        } else {
                            h
                        }
                    },
                    m,
                ),
            )
        } else {
            None
        },
        None => None,
    }
}

/// Reads the first time pattern of the text as a clock time, on the
/// 24-hour clock; an hour outside 1 to 12 or minutes above 59 are not a
/// clock time.
pub fn parse_naive_time(s: &str) -> (r: Option<(u32, u32)>)
    ensures
        match r {
            Some((h, m)) => naive_time_spec(s@) == Some((h as int, m as int)) && h < 24 && m < 60,
            None => naive_time_spec(s@) is None,
        },
{
    let cs = text::chars_of(s);
    let cleaned = text::clean_chars(&cs);
    match text::find_time_chars(&cleaned) {
        Some((h, m, pm)) => if 1 <= h && h <= 12 && m <= 59 {
            let h24: u32 = if pm {
                if h == 12 {
                    12
                } else {
                    h + 12
                }
            } else {
                if h == 12 {
                    0
                } else {
                    h
                }
            };
            Some((h24, m))
        } else {
            None
        },
        None => None,
    }
}

/// The civil reading of a listing's date and optional time text: the
/// cleaned date text parsed against the accepted formats, the time taken
/// from the time text first, falling back to a time pattern inside the
/// date text itself.
pub open spec fn parse_datetime_civil_spec(
    date_text: Seq<char>,
    time_text: Option<Seq<char>>,
    today: CivilDate,
) -> Option<(int, int, int, int, int)> {
    let cd = text::clean_text_spec(date_text);
    if cd.len() == 0 {
        None
    } else {
        match crate::dates::parse_date_spec(cd, today) {
            None => None,
            Some((y, m, d)) => {
                let t = match time_text {
                    Some(ts) => if naive_time_spec(ts) is Some {
                        naive_time_spec(ts)
                    } else {
                        naive_time_spec(cd)
                    },
                    None => naive_time_spec(cd),
                };
                match t {
                    None => None,
                    Some((h, mi)) => Some((y, m, d, h, mi)),
                }
            },
        }
    }
}

/// The instant this library reads out of a civil reading in the named
/// zone: the resolved stamp, or nothing when the date or time cannot be
/// read, the zone is unknown, the time falls in a gap, or the date sits
/// at the supported calendar's edge.
pub open spec fn start_of(
    date_text: Seq<char>,
    time_text: Option<Seq<char>>,
    tz: Seq<char>,
    today: CivilDate,
) -> Option<LocalStamp> {
    match parse_datetime_civil_spec(date_text, time_text, today) {
        None => None,
        Some((y, m, d, h, mi)) => {
            let date = CivilDate { year: y as i32, month: m as u32, day: d as u32 };
            if y > 9998 || (y == 1 && m == 1 && d == 1) {
                None
            } else {
                match tz_resolve_spec(tz, date, h, mi) {
                    None => None,
                    Some(off) => Some(
                        LocalStamp {
                            date,
                            time: CivilTime { hour: h as u32, minute: mi as u32, second: 0 },
                            offset_seconds: off as i32,
                        },
                    ),
                }
            }
        },
    }
}

/// Composes a date text and an optional time text into an instant in the
/// named zone, resolving a clock fallback to the earlier instant and
/// failing on a clock gap.
pub fn parse_datetime(date_text: &str, time_text: Option<&str>, tz: &str, today: CivilDate) -> (r:
    Option<LocalStamp>)
    requires
        today.wf(),
    ensures
        r == start_of(date_text@, opt_str_view(time_text), tz@, today),
        r matches Some(ls) ==> ls.wf(),
{
    let cs = text::chars_of(date_text);
    let cleaned = text::clean_chars(&cs);
    if cleaned.len() == 0 {
        return None;
    }
    let cleaned_str = text::string_from(&cleaned);
    let date = match crate::dates::parse_naive_date(cleaned_str.as_str(), today) {
        Some(d) => d,
        None => {
            return None;
        },
    };
    let time: Option<(u32, u32)> = match time_text {
        Some(ts) => {
            let first = parse_naive_time(ts);
            if first.is_some() {
                first
            } else {
                parse_naive_time(cleaned_str.as_str())
            }
        },
        None => parse_naive_time(cleaned_str.as_str()),
    };
    match time {
        None => None,
        Some((h, mi)) => {
            let r = to_timezone_datetime(date, h, mi, tz);
            proof {
                let civil = parse_datetime_civil_spec(date_text@, opt_str_view(time_text), today);
                assert(civil == Some(
                    (
                        date.year as int,
                        date.month as int,
                        date.day as int,
                        h as int,
                        mi as int,
                    ),
                ));
                match r {
                    Some(ls) => {
                        assert(ls == start_of(
                            date_text@,
                            opt_str_view(time_text),
                            tz@,
                            today,
                        )->Some_0);
                    },
                    None => {
                        assert(start_of(date_text@, opt_str_view(time_text), tz@, today) is None);
                    },
                }
            }
            r
        },
    }
}

pub open spec fn opt_str_view(o: Option<&str>) -> Option<Seq<char>> {
    match o {
        Some(s) => Some(s@),
        None => None,
    }
}

/// The time text an adapter hands the resolver: the given text's first
/// time pattern, the text itself when none is found, or seven in the
/// evening when there is no text at all.
pub open spec fn fallback_time(t: Option<Seq<char>>) -> Seq<char> {
    match t {
        Some(v) => match text::first_time_spec(v) {
            Some(x) => x,
            None => v,
        },
        None => "7:00 PM"@,
    }
}

/// The start instant when a ticket URL may carry the year the date label
/// lacks: the date with that year appended is tried first, then the
/// URL's own calendar date with the scanned clock time, then the date
/// label alone.
pub open spec fn start_with_url_year(
    date_text: Seq<char>,
    time_text: Option<Seq<char>>,
    ticket_url: Option<Seq<char>>,
    tz: Seq<char>,
    today: CivilDate,
) -> Option<LocalStamp> {
    let ts = fallback_time(time_text);
    match ticket_url {
        Some(u) => match crate::dates::find_url_date(u, 0) {
            Some((m, d, y)) => {
                let full = date_text + seq![',', ' '] + crate::dates::four_digits(y);
                match start_of(full, Some(ts), tz, today) {
                    Some(ls) => Some(ls),
                    None => match naive_time_spec(ts) {
                        Some((h, mi)) => if crate::dates::valid_date(y, m, d) {
                            single_of(
                                CivilDate { year: y as i32, month: m as u32, day: d as u32 },
                                h,
                                mi,
                                tz,
                            )
                        } else {
                            None
                        },
                        None => start_of(date_text, Some(ts), tz, today),
                    },
                }
            },
            None => start_of(date_text, Some(ts), tz, today),
        },
        None => start_of(date_text, Some(ts), tz, today),
    }
}

/// Resolves a listing's start, borrowing the year from a `MM-DD-YYYY`
/// group in the ticket URL when the date label carries none.
pub fn resolve_start_with_url(
    date_text: &str,
    time_text: Option<&str>,
    ticket_url: Option<&str>,
    tz: &str,
    today: CivilDate,
) -> (r: Option<LocalStamp>)
    requires
        today.wf(),
    ensures
        r == start_with_url_year(
            date_text@,
            opt_str_view(time_text),
            opt_str_view(ticket_url),
            tz@,
            today,
        ),
        r matches Some(ls) ==> ls.wf(),
{
    let formatted: String = match time_text {
        Some(v) => match text::find_first_time(v) {
            Some(t) => t,
            None => v.to_owned(),
        },
        None => <String as vstd::string::StringExecFns>::from_str("7:00 PM"),
    };
    proof {
        assert(formatted@ == fallback_time(opt_str_view(time_text)));
    }
    if let Some(url) = ticket_url {
        if let Some((m, d, y)) = crate::dates::extract_date_from_url(url) {
            let mut full: Vec<char> = text::chars_of(date_text);
            full.push(',');
            full.push(' ');
            let yu: u32 = y as u32;
            full.push(text::digit_ch(yu / 1000));
            full.push(text::digit_ch((yu / 100) % 10));
            full.push(text::digit_ch((yu / 10) % 10));
            full.push(text::digit_ch(yu % 10));
            proof {
                assert(full@ =~= date_text@ + seq![',', ' '] + crate::dates::four_digits(y as int));
            }
            let full_str = text::string_from(&full);
            if let Some(ls) = parse_datetime(full_str.as_str(), Some(formatted.as_str()), tz, today)
                {
                return Some(ls);
            }
            if let Some((h, mi)) = parse_naive_time(formatted.as_str()) {
                if crate::dates::check_valid(y, m, d) {
                    return resolve_single(CivilDate { year: y, month: m, day: d }, h, mi, tz);
                }
                return None;
            }
        }
    }
    parse_datetime(date_text, Some(formatted.as_str()), tz, today)
}

/// What reusing a resolved date with a different time text yields: the
/// scanned clock time resolved in the zone on the same calendar day,
/// rendered as RFC 3339.
pub open spec fn combine_spec(reference: LocalStamp, time_str: Seq<char>, tz: Seq<char>) -> Option<
    Seq<char>,
> {
    match naive_time_spec(time_str) {
        None => None,
        Some((h, mi)) => match tz_resolve_spec(tz, reference.date, h, mi) {
            None => None,
            Some(off) => Some(
                crate::dates::rfc3339_of(
                    LocalStamp {
                        date: reference.date,
                        time: CivilTime { hour: h as u32, minute: mi as u32, second: 0 },
                        offset_seconds: off as i32,
                    },
                ),
            ),
        },
    }
}

/// Reuses an already-resolved date with a different time text (doors
/// time on the show's calendar day), rendered as RFC 3339 in the zone.
pub fn combine_with_date(reference: &LocalStamp, time_str: &str, tz: &str) -> (r: Option<String>)
    requires
        reference.wf(),
    ensures
        r.deep_view() == combine_spec(*reference, time_str@, tz@),
{
    match parse_naive_time(time_str) {
        None => None,
        Some((h, mi)) => match to_timezone_datetime(reference.date, h, mi, tz) {
            None => None,
            Some(ls) => {
                let out = crate::dates::to_rfc3339(&ls);
                proof {
                    assert(ls == (LocalStamp {
                        date: reference.date,
                        time: CivilTime { hour: h, minute: mi, second: 0 },
                        offset_seconds: ls.offset_seconds,
                    }));
                    assert(out@ == crate::dates::rfc3339_of(ls));
                }
                Some(out)
            },
        },
    }
}

} // verus!
