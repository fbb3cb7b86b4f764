//! Dates and times. Calendar parsing and formatting is done by `chrono`,
//! called through the trusted wrappers below; what the library derives from
//! their results (timestamps, minute of day, date arithmetic) is verified.
use chrono::{DateTime, Datelike, Local, NaiveDate, NaiveDateTime, NaiveTime, TimeZone, Timelike, Utc};
use vstd::prelude::*;

verus! {

/// A point in time: whole seconds since the Unix epoch (UTC) and the
/// nanoseconds past that second.
#[derive(Clone, Copy, Debug, PartialEq, Eq)]
pub struct Instant {
    pub secs: i64,
    pub nanos: u32,
}

/// Days from 0001-01-01 (day 1) to 1970-01-01.
pub open spec fn unix_epoch_day() -> int {
    719_163
}

/// Seconds since the Unix epoch of a calendar day and a second of that day,
/// read as UTC.
pub open spec fn utc_seconds_spec(days_from_ce: int, seconds_from_midnight: int) -> int {
    (days_from_ce - unix_epoch_day()) * 86_400 + seconds_from_midnight
}

/// Milliseconds since the Unix epoch of an instant (`timestamp_millis`).
pub open spec fn instant_millis_spec(t: Instant) -> int {
    t.secs * 1000 + (t.nanos / 1_000_000) as int
}

/// Whole seconds from `a` to `b` when `b` is not before `a`, else 0:
/// `(b - a).num_seconds().max(0)`.
pub open spec fn seconds_between_spec(a: Instant, b: Instant) -> int {
    if b.secs > a.secs || (b.secs == a.secs && b.nanos >= a.nanos) {
        if b.nanos >= a.nanos {
            b.secs - a.secs
        } else {
            b.secs - a.secs - 1
        }
    } else {
        0
    }
}

/// Whether an instant lies in `chrono`'s range: its `DateTime` covers the
/// years -262144 to 262143, well inside ±2^43 seconds around the epoch, and
/// its nanoseconds stay below two seconds (a leap second is kept there).
pub open spec fn in_chrono_range(t: Instant) -> bool {
    -8_796_093_022_208 < t.secs < 8_796_093_022_208 && t.nanos < 2_000_000_000
}

/// `chrono`'s parse of `text` as a date in the format `fmt`, as days from the
/// Common Era (0001-01-01 is day 1), or its error text.
pub uninterp spec fn naive_date_parse_result(text: Seq<char>, fmt: Seq<char>) -> Result<int, Seq<char>>;

/// `chrono`'s parse of `text` as a date-time in the format `fmt`: days from
/// the Common Era and seconds from midnight, or its error text.
pub uninterp spec fn naive_datetime_parse_result(text: Seq<char>, fmt: Seq<char>) -> Result<(int, int), Seq<char>>;

/// The text `chrono` writes for a date (days from the Common Era) and a second
/// of that day in the format `fmt`; none when the date is out of its range.
pub uninterp spec fn naive_format_result(days: int, secs: int, fmt: Seq<char>) -> Option<Seq<char>>;

/// `chrono`'s RFC 3339 parse of `text` as an instant, or its error text.
pub uninterp spec fn rfc3339_parse_result(text: Seq<char>) -> Result<(int, int), Seq<char>>;

/// The RFC 3339 text `chrono` writes for an instant in UTC; none when out of range.
pub uninterp spec fn rfc3339_format_result(secs: int, nanos: int) -> Option<Seq<char>>;

/// The formats the library hands to `chrono`'s formatter; all of them are
/// valid `strftime` strings.
pub open spec fn known_format(fmt: Seq<char>) -> bool {
    ||| fmt == seq!['%', 'Y', '-', '%', 'm', '-', '%', 'd']
    ||| fmt == seq!['%', 'Y', '%', 'm', '%', 'd', 'T', '%', 'H', '%', 'M', '%', 'S']
    ||| fmt == seq!['%', 'Y', '%', 'm', '%', 'd', 'T', '%', 'H', '%', 'M', '%', 'S', 'Z']
    ||| fmt == seq!['%', 'Y', '%', 'm', '%', 'd', 'T', '0', '0', '0', '0', '0', '0', 'Z']
    ||| fmt == seq!['%', 'Y', '%', 'm', '%', 'd', 'T', '2', '3', '5', '9', '5', '9', 'Z']
    ||| fmt == seq!['%', 'H', ':', '%', 'M']
}

/// `YYYY-MM-DD` with a four-digit year: the text `chrono` writes in the
/// format `%Y-%m-%d` for a date of the years 0 to 9999.
pub open spec fn iso_date_shape(s: Seq<char>) -> bool {
    &&& s.len() == 10
    &&& forall|i: int|
        0 <= i < 10 ==> if i == 4 || i == 7 {
            s[i] == '-'
        } else {
            crate::text::is_digit(#[trigger] s[i])
        }
}

/// `YYYYMMDDTHHMMSS`: the text `chrono` writes in the format
/// `%Y%m%dT%H%M%S` for a date-time of the years 0 to 9999.
pub open spec fn ics_local_shape(s: Seq<char>) -> bool {
    &&& s.len() == 15
    &&& forall|i: int|
        0 <= i < 15 ==> if i == 8 {
            s[i] == 'T'
        } else {
            crate::text::is_digit(#[trigger] s[i])
        }
}

/// The text `chrono` writes in the format `%Y-%m-%d`: `YYYY-MM-DD` for the
/// years 0 to 9999, and a text that starts with the year's sign otherwise.
pub open spec fn written_date_shape(s: Seq<char>) -> bool {
    iso_date_shape(s) || (s.len() > 0 && (s[0] == '+' || s[0] == '-'))
}

/// The format `%Y-%m-%d`.
pub open spec fn ymd_format() -> Seq<char> {
    seq!['%', 'Y', '-', '%', 'm', '-', '%', 'd']
}

/// The format `%Y%m%dT%H%M%S`.
pub open spec fn ymd_hms_format() -> Seq<char> {
    seq!['%', 'Y', '%', 'm', '%', 'd', 'T', '%', 'H', '%', 'M', '%', 'S']
}

/// The first and last day (from the Common Era) of the years 0 to 9999.
pub open spec fn four_digit_year_day(days: int) -> bool {
    -365 <= days <= 3_652_059
}

/// Parses `text` as a date in the format `fmt` (`NaiveDate::parse_from_str`)
/// and gives its day number from the Common Era (`num_days_from_ce`). The
/// contract names the result, and states what the `strftime` table of
/// `chrono` gives of `%Y-%m-%d`: a four-digit `YYYY-MM-DD` text is written
/// back as it was read.
#[verifier::external_body]
pub(crate) fn naive_date_parse(text: &str, fmt: &str) -> (r: Result<i32, String>)
    ensures
        naive_date_parse_result(text@, fmt@) == match r {
            Ok(d) => Ok::<int, Seq<char>>(d as int),
            Err(e) => Err::<int, Seq<char>>(e@),
        },
        // a parsed date is within chrono's range, so it can be formatted again
        r matches Ok(d) ==> forall|f: Seq<char>|
            known_format(f) ==> (#[trigger] naive_format_result(d as int, 0, f)) is Some,
        // `%Y-%m-%d` reads at most four digits of an unsigned year and two of
        // the month and the day; the formatter writes such a date back with
        // the year zero-padded to four digits and the month and day to two
        r matches Ok(d) ==> (fmt@ == ymd_format() && iso_date_shape(text@) ==> four_digit_year_day(d as int)
            && naive_format_result(d as int, 0, fmt@) == Some(text@)),
{
    match NaiveDate::parse_from_str(text, fmt) {
        Ok(d) => Ok(d.num_days_from_ce()),
        Err(e) => Err(e.to_string()),
    }
}

/// Parses `text` as a date-time in the format `fmt`
/// (`NaiveDateTime::parse_from_str`) and gives its day number from the Common
/// Era and its second of the day (`num_seconds_from_midnight`, which the
/// `chrono` documentation gives as a count of non-leap seconds, so below 86400).
#[verifier::external_body]
pub(crate) fn naive_datetime_parse(text: &str, fmt: &str) -> (r: Result<(i32, u32), String>)
    ensures
        naive_datetime_parse_result(text@, fmt@) == match r {
            Ok(p) => Ok::<(int, int), Seq<char>>((p.0 as int, p.1 as int)),
            Err(e) => Err::<(int, int), Seq<char>>(e@),
        },
        r matches Ok(p) ==> p.1 < 86_400,
        // a parsed date-time is within chrono's range, so it can be formatted again
        r matches Ok(p) ==> forall|f: Seq<char>|
            known_format(f) ==> (#[trigger] naive_format_result(p.0 as int, p.1 as int, f)) is Some,
{
    match NaiveDateTime::parse_from_str(text, fmt) {
        Ok(d) => Ok((d.date().num_days_from_ce(), d.time().num_seconds_from_midnight())),
        Err(e) => Err(e.to_string()),
    }
}

/// `chrono`'s parse of `text` as a time of day in the format `fmt`, as
/// seconds from midnight, or its error text.
pub uninterp spec fn naive_time_parse_result(text: Seq<char>, fmt: Seq<char>) -> Result<int, Seq<char>>;

/// Parses `text` as a time of day in the format `fmt`
/// (`NaiveTime::parse_from_str`) and gives its second of the day
/// (`num_seconds_from_midnight`, a count of non-leap seconds, so below 86400).
#[verifier::external_body]
pub(crate) fn naive_time_parse(text: &str, fmt: &str) -> (r: Result<u32, String>)
    ensures
        naive_time_parse_result(text@, fmt@) == match r {
            Ok(s) => Ok::<int, Seq<char>>(s as int),
            Err(e) => Err::<int, Seq<char>>(e@),
        },
        r matches Ok(s) ==> s < 86_400,
{
    match NaiveTime::parse_from_str(text, fmt) {
        Ok(t) => Ok(t.num_seconds_from_midnight()),
        Err(e) => Err(e.to_string()),
    }
}

/// Formats the date with day number `days` from the Common Era at second
/// `secs` of the day in the format `fmt` (`NaiveDate::from_num_days_from_ce_opt`,
/// `NaiveTime::from_num_seconds_from_midnight_opt`, `format`); none when either
/// is out of range. The formats allowed by `requires` are valid, so the
/// formatting itself does not fail. Of `%Y-%m-%d` and `%Y%m%dT%H%M%S` the
/// contract states what `chrono`'s `strftime` table gives: the fields written
/// zero-padded, which the parser reads back with the same widths.
#[verifier::external_body]
pub(crate) fn naive_format(days: i32, secs: u32, fmt: &str) -> (r: Option<String>)
    requires
        known_format(fmt@),
    ensures
        naive_format_result(days as int, secs as int, fmt@) == match r {
            Some(s) => Some(s@),
            None => None::<Seq<char>>,
        },
        // whether the date exists does not depend on the format or the second
        r is Some <==> (naive_format_result(days as int, 0, fmt@) is Some && secs < 86_400),
        // the formats write numbers and their own literal characters only
        r matches Some(s) ==> crate::text::plain_line(s@),
        // `%Y-%m-%d` writes the date alone (a year outside 0 to 9999 with its
        // sign), and the parser reads it back as the same date
        r matches Some(s) ==> (fmt@ == ymd_format() ==> naive_date_parse_result(s@, fmt@) == Ok::<
            int,
            Seq<char>,
        >(days as int) && naive_format_result(days as int, 0, fmt@) == Some(s@)),
        // `%Y-%m-%d` writes a date of the years 0 to 9999 as `YYYY-MM-DD`, and
        // any other year with its sign first
        r matches Some(s) ==> (fmt@ == ymd_format() ==> (if four_digit_year_day(days as int) {
            iso_date_shape(s@)
        } else {
            s@.len() > 0 && (s@[0] == '+' || s@[0] == '-')
        })),
        // for the years 0 to 9999, `%Y%m%dT%H%M%S` writes four digits of the
        // year and two of each other field, which the parser reads back
        r matches Some(s) ==> (fmt@ == ymd_hms_format() && four_digit_year_day(days as int) ==> ics_local_shape(
            s@,
        ) && naive_datetime_parse_result(s@, fmt@) == Ok::<(int, int), Seq<char>>((days as int, secs as int))),
{
    let date = NaiveDate::from_num_days_from_ce_opt(days)?;
    let time = NaiveTime::from_num_seconds_from_midnight_opt(secs, 0)?;
    Some(NaiveDateTime::new(date, time).format(fmt).to_string())
}

/// Parses `text` as RFC 3339 (`DateTime::parse_from_rfc3339`) and gives the
/// instant's Unix seconds (`timestamp`) and nanoseconds (`timestamp_subsec_nanos`).
/// A parsed instant is a `chrono` date-time, so it lies in `chrono`'s range.
#[verifier::external_body]
pub(crate) fn rfc3339_parse(text: &str) -> (r: Result<Instant, String>)
    ensures
        rfc3339_parse_result(text@) == match r {
            Ok(t) => Ok::<(int, int), Seq<char>>((t.secs as int, t.nanos as int)),
            Err(e) => Err::<(int, int), Seq<char>>(e@),
        },
        r matches Ok(t) ==> in_chrono_range(t),
{
    match DateTime::parse_from_rfc3339(text) {
        Ok(d) => Ok(Instant { secs: d.timestamp(), nanos: d.timestamp_subsec_nanos() }),
        Err(e) => Err(e.to_string()),
    }
}

/// The RFC 3339 text of an instant in UTC (`DateTime::from_timestamp`,
/// `to_rfc3339`); none when the instant is out of `chrono`'s range.
#[verifier::external_body]
pub(crate) fn rfc3339_format(t: Instant) -> (r: Option<String>)
    ensures
        rfc3339_format_result(t.secs as int, t.nanos as int) == match r {
            Some(s) => Some(s@),
            None => None::<Seq<char>>,
        },
{
    let d = DateTime::<Utc>::from_timestamp(t.secs, t.nanos)?;
    Some(d.to_rfc3339())
}

/// The current time (`Utc::now`): a `chrono` date-time, so in its range;
/// nothing else is promised of the value.
#[verifier::external_body]
pub(crate) fn utc_now() -> (r: Instant)
    ensures
        in_chrono_range(r),
        // its date (`div_euclid` of the seconds by a day, from the Common
        // Era) is a `chrono` date, so it can be formatted
        forall|f: Seq<char>|
            known_format(f) ==> (#[trigger] naive_format_result(r.secs / 86400 + 719_163, 0, f)) is Some,
{
    let now = Utc::now();
    Instant { secs: now.timestamp(), nanos: now.timestamp_subsec_nanos() }
}

/// Today's date in the machine's time zone (`Local::now().date_naive()`), as
/// days from the Common Era. Which day it is depends on the clock; the date is
/// a `chrono` date, so it can be formatted.
#[verifier::external_body]
pub(crate) fn local_today_days() -> (r: i32)
    ensures
        forall|f: Seq<char>| known_format(f) ==> (#[trigger] naive_format_result(r as int, 0, f)) is Some,
{
    Local::now().date_naive().num_days_from_ce()
}

/// The current hour in the machine's time zone (`Local::now().hour()`), which
/// `chrono` gives in 0..24.
#[verifier::external_body]
pub(crate) fn local_now_hour() -> (r: u32)
    ensures
        r < 24,
{
    Local::now().hour()
}

/// The Unix timestamp of a local date-time in the machine's time zone
/// (`Local.from_local_datetime(..).earliest()`, which is the single mapping or,
/// for an ambiguous local time, the earlier one); none when
/// the date, the time or the local time does not exist. The value depends on
/// the machine's time zone, so nothing more is promised of it.
#[verifier::external_body]
pub(crate) fn local_timestamp(days: i32, secs: u32) -> (r: Option<i64>)
    ensures
        // the instant is a `chrono` date-time, so its UTC form can be written
        r matches Some(t) ==> rfc3339_format_result(t as int, 0) is Some,
        // and it lies in `chrono`'s range
        r matches Some(t) ==> in_chrono_range(Instant { secs: t, nanos: 0 }),
{
    let date = NaiveDate::from_num_days_from_ce_opt(days)?;
    let time = NaiveTime::from_num_seconds_from_midnight_opt(secs, 0)?;
    let local = Local.from_local_datetime(&NaiveDateTime::new(date, time)).earliest()?;
    Some(local.timestamp())
}

/// Whether `chrono` has a date-time for a Unix timestamp: from
/// -262143-01-01 to 262142-12-31 (UTC), the range of its `NaiveDate`.
pub open spec fn chrono_utc_range(t: int) -> bool {
    -8_334_601_228_800 <= t <= 8_210_266_876_799
}

/// Whether a Unix timestamp lies a day or more inside that range, so that its
/// local date-time (shifted by an offset of less than a day) is in it too.
pub open spec fn local_convertible(t: int) -> bool {
    -8_334_601_142_400 <= t <= 8_210_266_790_399
}

/// A local date (days from the Common Era) and second of the day that read a
/// Unix timestamp in some time zone: less than a day away from its UTC
/// reading.
pub open spec fn local_reading(t: int, days: int, secs: int) -> bool {
    &&& 0 <= secs < 86_400
    &&& t - 86_400 < (days - 719_163) * 86_400 + secs < t + 86_400
}

/// The local date (days from the Common Era) and second of the day of a Unix
/// timestamp in the machine's time zone (`Local.timestamp_opt(..).single()`,
/// then the local date-time with `checked_add_offset`). `timestamp_opt` gives
/// a single date-time for every timestamp in `chrono`'s range and none
/// outside it; the local offset is a `FixedOffset`, less than a day, so the
/// local date-time exists a day inside the range. Seconds of the day are
/// non-leap, so below 86400. Which date it is depends on the time zone.
#[verifier::external_body]
pub(crate) fn local_date_secs(timestamp: i64) -> (r: Option<(i32, u32)>)
    ensures
        local_convertible(timestamp as int) ==> r is Some,
        !chrono_utc_range(timestamp as int) ==> r is None,
        r matches Some(p) ==> p.1 < 86_400,
        // the date is a `chrono` date, so it can be formatted
        r matches Some(p) ==> forall|f: Seq<char>|
            known_format(f) ==> (#[trigger] naive_format_result(p.0 as int, 0, f)) is Some,
        // the local date-time is the UTC one moved by the zone's offset, which
        // `FixedOffset` keeps strictly within a day
        r matches Some(p) ==> local_reading(timestamp as int, p.0 as int, p.1 as int),
{
    let d = Local.timestamp_opt(timestamp, 0).single()?;
    let local = d.naive_utc().checked_add_offset(*d.offset())?;
    Some((local.date().num_days_from_ce(), local.time().num_seconds_from_midnight()))
}

/// Milliseconds since the Unix epoch of `t`.
pub fn instant_millis(t: Instant) -> (r: Option<i64>)
    ensures
        r matches Some(m) ==> m == instant_millis_spec(t),
        r is None ==> !(i64::MIN <= instant_millis_spec(t) <= i64::MAX),
{
    let total: i128 = (t.secs as i128) * 1000 + ((t.nanos / 1_000_000) as i128);
    if i64::MIN as i128 <= total && total <= i64::MAX as i128 {
        Some(total as i64)
    } else {
        None
    }
}

/// Whole seconds from `a` to `b`, 0 when `b` is before `a`.
pub fn seconds_between(a: Instant, b: Instant) -> (r: i64)
    requires
        in_chrono_range(a),
        in_chrono_range(b),
    ensures
        r == seconds_between_spec(a, b),
        r >= 0,
{
    if b.secs > a.secs || (b.secs == a.secs && b.nanos >= a.nanos) {
        if b.nanos >= a.nanos {
            b.secs - a.secs
        } else {
            b.secs - a.secs - 1
        }
    } else {
        0
    }
}

/// The instant `secs` seconds after `t`.
pub fn instant_plus_seconds(t: Instant, secs: i64) -> (r: Option<Instant>)
    ensures
        r matches Some(x) ==> x.secs == t.secs + secs && x.nanos == t.nanos,
        r is None ==> !(i64::MIN <= t.secs + secs <= i64::MAX),
{
    match t.secs.checked_add(secs) {
        None => None,
        Some(s) => Some(Instant { secs: s, nanos: t.nanos }),
    }
}

} // verus!
