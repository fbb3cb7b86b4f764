//! The iCalendar text the library writes for a schedule block: a new event,
//! an update of an existing remote event (keeping its UID and everything it
//! does not own), and the sync marker added to an imported event.
use crate::caldav::{
    opt_view, rewrite_first_vevent_properties, rewrite_first_vevent_spec, fields_view,
    LocalCalendarBlock,
};
use crate::caldav::{ics_date_minute_spec, ics_naive_spec, parse_ics_event_spec, RemoteEventView};
use crate::ics_roundtrip::{
    carries_marker, lemma_built_event_is_block, lemma_marker_write_reads_back, lemma_update_reads_back,
    foldable_remote_object, reads_back_as_block, round_trip_block,
};
use crate::clock::{
    ics_local_shape, iso_date_shape, known_format, naive_date_parse, naive_date_parse_result, naive_datetime_parse_result, naive_format,
    naive_format_result, utc_now, ymd_format, ymd_hms_format, Instant,
};
use crate::text::{is_digit, is_ws, lemma_trim_no_ws, trim_end_char_spec};
use vstd::utf8::{is_ascii_chars, is_ascii_chars_encode_utf8};
use crate::ics::{body_with_marker, body_with_marker_spec, escape_ics_spec, escape_ics_text, has_no_cr};
use crate::text::{join_spec, join_strings, plain_line, push_str, strings_view};
use vstd::prelude::*;
use vstd::string::*;

verus! {

/// Second of the day of a minute of the day, as `local_date_minute_to_ics`
/// reads it: the hour clamped to 0..=23 and the minute to 0..=59.
pub open spec fn clamped_day_seconds(minute: int) -> int {
    let hour = if minute < 0 {
        0
    } else if minute / 60 > 23 {
        23
    } else {
        minute / 60
    };
    let min = if minute < 0 {
        0
    } else {
        minute % 60
    };
    hour * 3600 + min * 60
}

pub open spec fn ics_local_format() -> Seq<char> {
    seq!['%', 'Y', '%', 'm', '%', 'd', 'T', '%', 'H', '%', 'M', '%', 'S']
}

pub open spec fn ics_utc_format() -> Seq<char> {
    seq!['%', 'Y', '%', 'm', '%', 'd', 'T', '%', 'H', '%', 'M', '%', 'S', 'Z']
}

pub open spec fn iso_date_format() -> Seq<char> {
    seq!['%', 'Y', '-', '%', 'm', '-', '%', 'd']
}

/// The floating local date-time `YYYYMMDDTHHMMSS` of a minute of a date
/// written `YYYY-MM-DD`; the date parser's error when the date is invalid.
pub open spec fn local_date_minute_to_ics_spec(date: Seq<char>, minute: int) -> Result<
    Seq<char>,
    Seq<char>,
> {
    match naive_date_parse_result(date, iso_date_format()) {
        Err(e) => Err(e),
        Ok(d) => match naive_format_result(d, clamped_day_seconds(minute), ics_local_format()) {
            Some(s) => Ok(s),
            None => Err("日历时间无效。"@),
        },
    }
}

/// A written time of a canonical `YYYY-MM-DD` date (years 0 to 9999) and a
/// minute of the day reads back as that date and minute.
pub open spec fn time_reads_back(date: Seq<char>, minute: int) -> bool {
    iso_date_shape(date) && 0 <= minute < 1440 ==> match local_date_minute_to_ics_spec(date, minute) {
        Ok(t) => ics_date_minute_spec(t) == Ok::<(Seq<char>, int), Seq<char>>((date, minute)),
        Err(_) => true,
    }
}

/// A `YYYYMMDDTHHMMSS` text that parses in that format is read as that
/// local date-time.
proof fn lemma_ics_local_read(t: Seq<char>)
    requires
        ics_local_shape(t),
        naive_datetime_parse_result(t, ics_local_format()) is Ok,
    ensures
        ics_naive_spec(t) == naive_datetime_parse_result(t, ics_local_format()),
{
    reveal_strlit("%Y%m%dT%H%M%S");
    assert("%Y%m%dT%H%M%S"@ =~= ics_local_format());
    assert(is_digit(t[0]));
    assert(is_digit(t[14]));
    assert(!is_ws(t[0]) && !is_ws(t.last()));
    lemma_trim_no_ws(t);
    assert(trim_end_char_spec(t, 'Z') == t);
    assert(is_ascii_chars(t)) by {
        assert forall|i: int| 0 <= i < t.len() implies '\0' <= #[trigger] t[i] <= '\u{7f}' by {
            if i != 8 {
                assert(is_digit(t[i]));
            }
        }
    }
    is_ascii_chars_encode_utf8(t);
}

/// The second of the day of a minute in 0..1440 is sixty times the minute.
proof fn lemma_clamped_day_seconds(minute: int)
    requires
        0 <= minute < 1440,
    ensures
        clamped_day_seconds(minute) / 60 == minute,
        0 <= clamped_day_seconds(minute) < 86_400,
{
    assert(minute / 60 <= 23);
    assert(clamped_day_seconds(minute) == (minute / 60) * 3600 + (minute % 60) * 60);
    assert(((minute / 60) * 3600 + (minute % 60) * 60) / 60 == (minute / 60) * 60 + minute % 60)
        by (nonlinear_arith);
}

/// `YYYYMMDDTHHMMSS` of the given minute of the given date.
pub fn local_date_minute_to_ics(date: &str, minute: i64) -> (r: Result<String, String>)
    ensures
        match r {
            Ok(s) => local_date_minute_to_ics_spec(date@, minute as int) == Ok::<
                Seq<char>,
                Seq<char>,
            >(s@),
            Err(e) => local_date_minute_to_ics_spec(date@, minute as int) == Err::<
                Seq<char>,
                Seq<char>,
            >(e@),
        },
        r matches Ok(s) ==> plain_line(s@),
        time_reads_back(date@, minute as int),
{
    let date_fmt = "%Y-%m-%d";
    let fmt = "%Y%m%dT%H%M%S";
    proof {
        reveal_strlit("%Y-%m-%d");
        reveal_strlit("%Y%m%dT%H%M%S");
        assert(date_fmt@ =~= iso_date_format());
        assert(fmt@ =~= ics_local_format());
    }
    let days = match naive_date_parse(date, date_fmt) {
        Ok(d) => d,
        Err(e) => {
            return Err(e);
        },
    };
    let hour: i64 = if minute < 0 {
        0
    } else if minute / 60 > 23 {
        23
    } else {
        minute / 60
    };
    let min: i64 = if minute < 0 {
        0
    } else {
        minute % 60
    };
    let secs: u32 = (hour * 3600 + min * 60) as u32;
    proof {
        assert(date_fmt@ =~= ymd_format());
        assert(fmt@ =~= ymd_hms_format());
        reveal_strlit("%Y-%m-%d");
        assert("%Y-%m-%d"@ =~= ymd_format());
        assert(secs == clamped_day_seconds(minute as int));
    }
    match naive_format(days, secs, fmt) {
        Some(s) => {
            proof {
                if iso_date_shape(date@) && 0 <= minute < 1440 {
                    lemma_clamped_day_seconds(minute as int);
                    lemma_ics_local_read(s@);
                    assert(ics_naive_spec(s@) == Ok::<(int, int), Seq<char>>((days as int, secs as int)));
                }
            }
            Ok(s)
        },
        None => Err(String::from_str("日历时间无效。")),
    }
}

/// The UTC stamp `YYYYMMDDTHHMMSSZ` of an instant: its day (counted from the
/// Common Era) and second of the day handed to the formatter. None outside
/// `chrono`'s range of instants or where the day does not fit the
/// formatter's range.
pub fn utc_stamp(t: Instant) -> (r: Option<String>)
    ensures
        -8_796_093_022_208 < t.secs < 8_796_093_022_208 ==> match r {
            Some(s) => naive_format_result(
                t.secs / 86400 + 719_163,
                (t.secs % 86400) as int,
                ics_utc_format(),
            ) == Some(s@),
            None => naive_format_result(t.secs / 86400 + 719_163, (t.secs % 86400) as int, ics_utc_format())
                is None,
        },
        !(-8_796_093_022_208 < t.secs < 8_796_093_022_208) ==> r is None,
        // within that range, the stamp exists exactly when the day does
        -8_796_093_022_208 < t.secs < 8_796_093_022_208 ==> (r is Some <==> naive_format_result(
            t.secs / 86400 + 719_163,
            0,
            ics_utc_format(),
        ) is Some),
        r matches Some(s) ==> plain_line(s@),
{
    let fmt = "%Y%m%dT%H%M%SZ";
    proof {
        reveal_strlit("%Y%m%dT%H%M%SZ");
        assert(fmt@ =~= ics_utc_format());
    }
    if t.secs <= -8_796_093_022_208 || t.secs >= 8_796_093_022_208 {
        return None;
    }
    // shifted by whole days so that it is not negative
    let shifted: u64 = (t.secs + 101_900_000 * 86400) as u64;
    let q: u64 = shifted / 86400;
    let secs: u32 = (shifted % 86400) as u32;
    proof {
        let k: int = (t.secs as int) / 86400;
        let m: int = (t.secs as int) % 86400;
        assert(t.secs == 86400 * k + m && 0 <= m < 86400);
        assert(shifted == 86400 * (k + 101_900_000) + m);
        vstd::arithmetic::div_mod::lemma_div_multiples_vanish_fancy(k + 101_900_000, m, 86400);
        vstd::arithmetic::div_mod::lemma_fundamental_div_mod(shifted as int, 86400);
        assert(q == k + 101_900_000);
        assert(secs == m);
    }
    let day: i64 = q as i64 - 101_900_000 + 719_163;
    naive_format(day as i32, secs, fmt)
}

/// The text of a string that starts with `prefix` and goes on with `value`.
pub fn prefixed(prefix: &str, value: &str) -> (r: String)
    ensures
        r@ == prefix@ + value@,
{
    let mut s = String::from_str(prefix);
    push_str(&mut s, value);
    s
}

/// `STATUS` of the event: confirmed for a completed block, tentative otherwise.
pub open spec fn ics_status_spec(status: Seq<char>) -> Seq<char> {
    if status == "completed"@ {
        "CONFIRMED"@
    } else {
        "TENTATIVE"@
    }
}

/// The description written for a block: its note and the sync marker.
pub open spec fn block_description_spec(block: LocalCalendarBlock) -> Seq<char> {
    body_with_marker_spec(opt_view(block.note), block.sync_id@)
}

/// The lines of the calendar object written for a new event.
pub open spec fn ics_event_lines_spec(
    block: LocalCalendarBlock,
    start: Seq<char>,
    end: Seq<char>,
    stamp: Seq<char>,
) -> Seq<Seq<char>> {
    seq![
        "BEGIN:VCALENDAR"@,
        "VERSION:2.0"@,
        "PRODID:-//kaoyan-focus//calendar//ZH-CN"@,
        "CALSCALE:GREGORIAN"@,
        "BEGIN:VEVENT"@,
        "UID:"@ + escape_ics_spec(block.sync_id@) + "@kaoyan-focus"@,
        "DTSTAMP:"@ + stamp,
        "DTSTART:"@ + start,
        "DTEND:"@ + end,
        "SUMMARY:"@ + escape_ics_spec(block.title@),
        "DESCRIPTION:"@ + escape_ics_spec(block_description_spec(block)),
        "X-KAOYAN-FOCUS-SYNC-ID:"@ + escape_ics_spec(block.sync_id@),
        "STATUS:"@ + ics_status_spec(block.status@),
        "END:VEVENT"@,
        "END:VCALENDAR"@,
        Seq::<char>::empty(),
    ]
}

/// A complete calendar object for a new event of the block, with the given
/// `DTSTAMP`, lines ended by CRLF.
pub open spec fn build_ics_event_spec(block: LocalCalendarBlock, stamp: Seq<char>) -> Result<
    Seq<char>,
    Seq<char>,
> {
    match local_date_minute_to_ics_spec(block.schedule_date@, block.start_minute as int) {
        Err(e) => Err(e),
        Ok(start) => match local_date_minute_to_ics_spec(
            block.schedule_date@,
            block.end_minute as int,
        ) {
            Err(e) => Err(e),
            Ok(end) => Ok(join_spec(ics_event_lines_spec(block, start, end, stamp), "\r\n"@)),
        },
    }
}

/// The start and end times written for a block hold no backslash or line
/// break (the formatter writes numbers and `T`).
pub open spec fn times_written_plain(block: LocalCalendarBlock) -> bool {
    &&& local_date_minute_to_ics_spec(block.schedule_date@, block.start_minute as int) matches Ok(s)
        ==> plain_line(s)
    &&& local_date_minute_to_ics_spec(block.schedule_date@, block.end_minute as int) matches Ok(s)
        ==> plain_line(s)
}

/// The block's status word for the `STATUS` property.
fn ics_status(status: &String) -> (r: String)
    ensures
        r@ == ics_status_spec(status@),
{
    let completed = String::from_str("completed");
    if *status == completed {
        String::from_str("CONFIRMED")
    } else {
        String::from_str("TENTATIVE")
    }
}

/// The description of the block with its sync marker.
fn block_description(block: &LocalCalendarBlock) -> (r: String)
    ensures
        r@ == block_description_spec(*block),
{
    match &block.note {
        Some(n) => body_with_marker(Some(n.as_str()), block.sync_id.as_str()),
        None => body_with_marker(None, block.sync_id.as_str()),
    }
}

/// The calendar object of a new remote event for the block, stamped `stamp`.
pub fn build_ics_event_with_stamp(block: &LocalCalendarBlock, stamp: &str) -> (r: Result<
    String,
    String,
>)
    ensures
        match r {
            Ok(s) => build_ics_event_spec(*block, stamp@) == Ok::<Seq<char>, Seq<char>>(s@),
            Err(e) => build_ics_event_spec(*block, stamp@) == Err::<Seq<char>, Seq<char>>(e@),
        },
        r is Ok ==> times_written_plain(*block),
        r is Ok ==> time_reads_back(block.schedule_date@, block.start_minute as int) && time_reads_back(
            block.schedule_date@,
            block.end_minute as int,
        ),
{
    let start = match local_date_minute_to_ics(block.schedule_date.as_str(), block.start_minute) {
        Ok(s) => s,
        Err(e) => {
            return Err(e);
        },
    };
    let end = match local_date_minute_to_ics(block.schedule_date.as_str(), block.end_minute) {
        Ok(s) => s,
        Err(e) => {
            return Err(e);
        },
    };
    let sync_id = escape_ics_text(block.sync_id.as_str());
    let description = block_description(block);
    let mut lines: Vec<String> = Vec::new();
    lines.push(String::from_str("BEGIN:VCALENDAR"));
    lines.push(String::from_str("VERSION:2.0"));
    lines.push(String::from_str("PRODID:-//kaoyan-focus//calendar//ZH-CN"));
    lines.push(String::from_str("CALSCALE:GREGORIAN"));
    lines.push(String::from_str("BEGIN:VEVENT"));
    let mut uid = prefixed("UID:", sync_id.as_str());
    push_str(&mut uid, "@kaoyan-focus");
    lines.push(uid);
    lines.push(prefixed("DTSTAMP:", stamp));
    lines.push(prefixed("DTSTART:", start.as_str()));
    lines.push(prefixed("DTEND:", end.as_str()));
    lines.push(prefixed("SUMMARY:", escape_ics_text(block.title.as_str()).as_str()));
    lines.push(prefixed("DESCRIPTION:", escape_ics_text(description.as_str()).as_str()));
    lines.push(prefixed("X-KAOYAN-FOCUS-SYNC-ID:", sync_id.as_str()));
    lines.push(prefixed("STATUS:", ics_status(&block.status).as_str()));
    lines.push(String::from_str("END:VEVENT"));
    lines.push(String::from_str("END:VCALENDAR"));
    lines.push(String::new());
    assert(strings_view(lines@) =~= ics_event_lines_spec(*block, start@, end@, stamp@));
    Ok(join_strings(lines.as_slice(), "\r\n"))
}

/// The calendar object of a new remote event for the block, stamped now:
/// what `build_ics_event_with_stamp` gives for the current UTC stamp, which
/// the clock's date always has. The times are written as floating local
/// times, so the time zone argument is not used.
pub fn build_ics_event(block: &LocalCalendarBlock, _timezone: &str) -> (r: Result<String, String>)
    ensures
        exists|stamp: Seq<char>|
            plain_line(stamp) && match r {
                Ok(s) => #[trigger] build_ics_event_spec(*block, stamp) == Ok::<Seq<char>, Seq<char>>(s@),
                Err(e) => build_ics_event_spec(*block, stamp) == Err::<Seq<char>, Seq<char>>(e@),
            },
        r is Ok ==> times_written_plain(*block),
        // the event written for a block reads back as the block
        r matches Ok(ics) ==> (round_trip_block(*block) ==> forall|url: Seq<char>, etag: Option<Seq<char>>|
            reads_back_as_block(*block, url, etag, #[trigger] parse_ics_event_spec(url, etag, ics@))),
{
    let now = utc_now();
    proof {
        assert(known_format(ics_utc_format()));
    }
    match utc_stamp(now) {
        Some(stamp) => {
            let r = build_ics_event_with_stamp(block, stamp.as_str());
            proof {
                if r is Ok && round_trip_block(*block) {
                    assert forall|url: Seq<char>, etag: Option<Seq<char>>|
                        reads_back_as_block(*block, url, etag, #[trigger] parse_ics_event_spec(url, etag, r->Ok_0@)) by {
                        lemma_built_event_is_block(*block, stamp@, r->Ok_0@, url, etag);
                    }
                }
            }
            r
        },
        None => Err(String::from_str("日历时间无效。")),
    }
}

/// The properties of the block that an update writes over an existing
/// remote event.
pub open spec fn block_properties_spec(
    block: LocalCalendarBlock,
    start: Seq<char>,
    end: Seq<char>,
    stamp: Seq<char>,
) -> Seq<(Seq<char>, Seq<char>)> {
    seq![
        ("DTSTAMP"@, stamp),
        ("DTSTART"@, start),
        ("DTEND"@, end),
        ("SUMMARY"@, escape_ics_spec(block.title@)),
        ("DESCRIPTION"@, escape_ics_spec(block_description_spec(block))),
        ("X-KAOYAN-FOCUS-SYNC-ID"@, escape_ics_spec(block.sync_id@)),
        ("STATUS"@, ics_status_spec(block.status@)),
    ]
}

/// The existing remote calendar object with the block's properties written
/// over those of its first event.
pub open spec fn build_ics_update_spec(
    raw_ics: Seq<char>,
    block: LocalCalendarBlock,
    stamp: Seq<char>,
) -> Result<Seq<char>, Seq<char>> {
    match local_date_minute_to_ics_spec(block.schedule_date@, block.start_minute as int) {
        Err(e) => Err(e),
        Ok(start) => match local_date_minute_to_ics_spec(
            block.schedule_date@,
            block.end_minute as int,
        ) {
            Err(e) => Err(e),
            Ok(end) => rewrite_first_vevent_spec(
                raw_ics,
                block_properties_spec(block, start, end, stamp),
            ),
        },
    }
}

/// Updates an existing remote calendar object with the block, stamped `stamp`.
pub fn build_ics_event_from_existing_remote_with_stamp(
    raw_ics: &str,
    block: &LocalCalendarBlock,
    stamp: &str,
) -> (r: Result<String, String>)
    ensures
        match r {
            Ok(s) => build_ics_update_spec(raw_ics@, *block, stamp@) == Ok::<
                Seq<char>,
                Seq<char>,
            >(s@),
            Err(e) => build_ics_update_spec(raw_ics@, *block, stamp@) == Err::<
                Seq<char>,
                Seq<char>,
            >(e@),
        },
        r is Ok ==> times_written_plain(*block) && time_reads_back(block.schedule_date@, block.start_minute as int)
            && time_reads_back(block.schedule_date@, block.end_minute as int),
{
    let start = match local_date_minute_to_ics(block.schedule_date.as_str(), block.start_minute) {
        Ok(s) => s,
        Err(e) => {
            return Err(e);
        },
    };
    let end = match local_date_minute_to_ics(block.schedule_date.as_str(), block.end_minute) {
        Ok(s) => s,
        Err(e) => {
            return Err(e);
        },
    };
    let description = block_description(block);
    let mut props: Vec<(String, String)> = Vec::new();
    props.push((String::from_str("DTSTAMP"), String::from_str(stamp)));
    props.push((String::from_str("DTSTART"), start));
    props.push((String::from_str("DTEND"), end));
    props.push((String::from_str("SUMMARY"), escape_ics_text(block.title.as_str())));
    props.push((String::from_str("DESCRIPTION"), escape_ics_text(description.as_str())));
    props.push(
        (String::from_str("X-KAOYAN-FOCUS-SYNC-ID"), escape_ics_text(block.sync_id.as_str())),
    );
    props.push((String::from_str("STATUS"), ics_status(&block.status)));
    assert(fields_view(props@) =~= block_properties_spec(*block, start@, end@, stamp@));
    rewrite_first_vevent_properties(raw_ics, &props)
}

/// Updates an existing remote calendar object with the block, stamped now.
/// The times are written as floating local times, so the time zone argument
/// is not used.
pub fn build_ics_event_from_existing_remote(raw_ics: &str, block: &LocalCalendarBlock, _timezone: &str) -> (r:
    Result<String, String>)
    ensures
        exists|stamp: Seq<char>|
            plain_line(stamp) && match r {
                Ok(s) => #[trigger] build_ics_update_spec(raw_ics@, *block, stamp) == Ok::<Seq<char>, Seq<char>>(s@),
                Err(e) => build_ics_update_spec(raw_ics@, *block, stamp) == Err::<Seq<char>, Seq<char>>(e@),
            },
        // the block written over a remote object folded only inside property
        // values reads back as the block
        r matches Ok(ics) ==> (round_trip_block(*block) && foldable_remote_object(raw_ics@) ==> forall|
            url: Seq<char>,
            etag: Option<Seq<char>>,
        | reads_back_as_block(*block, url, etag, #[trigger] parse_ics_event_spec(url, etag, ics@))),
{
    let now = utc_now();
    proof {
        assert(known_format(ics_utc_format()));
    }
    match utc_stamp(now) {
        Some(stamp) => {
            let r = build_ics_event_from_existing_remote_with_stamp(raw_ics, block, stamp.as_str());
            proof {
                if r is Ok && round_trip_block(*block) && foldable_remote_object(raw_ics@) {
                    let start = local_date_minute_to_ics_spec(block.schedule_date@, block.start_minute as int)->Ok_0;
                    let end = local_date_minute_to_ics_spec(block.schedule_date@, block.end_minute as int)->Ok_0;
                    assert forall|url: Seq<char>, etag: Option<Seq<char>>|
                        reads_back_as_block(*block, url, etag, #[trigger] parse_ics_event_spec(url, etag, r->Ok_0@)) by {
                        lemma_update_reads_back(*block, start, end, stamp@, raw_ics@, r->Ok_0@, url, etag);
                    }
                }
            }
            r
        },
        None => Err(String::from_str("日历时间无效。")),
    }
}

/// The property that ties a remote event to a local block.
pub open spec fn sync_marker_properties(sync_id: Seq<char>) -> Seq<(Seq<char>, Seq<char>)> {
    seq![("X-KAOYAN-FOCUS-SYNC-ID"@, escape_ics_spec(sync_id))]
}

/// Adds (or replaces) the sync marker property of the first event of an
/// imported remote calendar object.
pub fn mark_remote_ics_with_sync_marker(raw_ics: &str, sync_id: &str) -> (r: Result<
    String,
    String,
>)
    ensures
        match r {
            Ok(s) => rewrite_first_vevent_spec(raw_ics@, sync_marker_properties(sync_id@)) == Ok::<
                Seq<char>,
                Seq<char>,
            >(s@),
            Err(e) => rewrite_first_vevent_spec(raw_ics@, sync_marker_properties(sync_id@))
                == Err::<Seq<char>, Seq<char>>(e@),
        },
        // written into a remote object folded only inside property values, the
        // marker reads back as the marker of its event
        r matches Ok(s) ==> (foldable_remote_object(raw_ics@) && has_no_cr(sync_id@) ==> forall|
            url: Seq<char>,
            etag: Option<Seq<char>>,
        | carries_marker(sync_id@, #[trigger] parse_ics_event_spec(url, etag, s@))
            && parse_ics_event_spec(url, etag, s@) != Ok::<Option<RemoteEventView>, Seq<char>>(None)),
{
    let mut props: Vec<(String, String)> = Vec::new();
    props.push((String::from_str("X-KAOYAN-FOCUS-SYNC-ID"), escape_ics_text(sync_id)));
    assert(fields_view(props@) =~= sync_marker_properties(sync_id@));
    let r = rewrite_first_vevent_properties(raw_ics, &props);
    proof {
        if r is Ok && foldable_remote_object(raw_ics@) && has_no_cr(sync_id@) {
            assert forall|url: Seq<char>, etag: Option<Seq<char>>|
                carries_marker(sync_id@, #[trigger] parse_ics_event_spec(url, etag, r->Ok_0@))
                    && parse_ics_event_spec(url, etag, r->Ok_0@) != Ok::<Option<RemoteEventView>, Seq<char>>(
                    None,
                ) by {
                lemma_marker_write_reads_back(raw_ics@, sync_id@, r->Ok_0@, url, etag);
            }
        }
    }
    r
}

} // verus!
