//! Alarms: the records and the checks that turn a submitted alarm into the
//! stored one (title, local date and time, and the UTC instant it rings at).
use crate::caldav::opt_view;
use crate::checklist::{normalize_optional_spec, normalize_optional_string};
use crate::clock::{
    known_format, local_timestamp, naive_date_parse, naive_date_parse_result, naive_format,
    naive_format_result, naive_time_parse, naive_time_parse_result, rfc3339_format,
    rfc3339_format_result, Instant,
};
use crate::text::{trim, trim_spec};
use vstd::prelude::*;
use vstd::string::*;

verus! {

/// An alarm as stored.
#[derive(Clone, Debug)]
pub struct Alarm {
    pub id: i64,
    pub title: String,
    pub note: Option<String>,
    pub alarm_date: String,
    pub alarm_time: String,
    pub alarm_at: String,
    pub enabled: bool,
    pub status: String,
    pub fired_at: Option<String>,
    pub dismissed_at: Option<String>,
    pub created_at: String,
    pub updated_at: String,
}

/// An alarm as the user submits it.
#[derive(Clone, Debug)]
pub struct AlarmDraft {
    pub title: String,
    pub note: Option<String>,
    pub alarm_date: String,
    pub alarm_time: String,
    pub enabled: bool,
}

/// A submitted alarm whose title, date and time have been checked: the local
/// day (counted from the Common Era) and second of the day it rings at, and
/// their canonical texts.
#[derive(Clone, Debug)]
pub struct ParsedAlarm {
    pub title: String,
    pub note: Option<String>,
    pub day: i32,
    pub second: u32,
    pub alarm_date: String,
    pub alarm_time: String,
    pub enabled: bool,
}

/// An alarm ready to store.
#[derive(Clone, Debug)]
pub struct NormalizedAlarmDraft {
    pub title: String,
    pub note: Option<String>,
    pub alarm_date: String,
    pub alarm_time: String,
    pub alarm_at: String,
    pub enabled: bool,
}

/// `%Y-%m-%d`.
pub open spec fn alarm_date_fmt() -> Seq<char> {
    seq!['%', 'Y', '-', '%', 'm', '-', '%', 'd']
}

/// `%H:%M`.
pub open spec fn alarm_time_fmt() -> Seq<char> {
    seq!['%', 'H', ':', '%', 'M']
}

pub open spec fn empty_title_error() -> Seq<char> {
    "闹钟标题不能为空。"@
}

pub open spec fn bad_date_error() -> Seq<char> {
    "闹钟日期必须使用 YYYY-MM-DD。"@
}

pub open spec fn bad_time_error() -> Seq<char> {
    "闹钟时间必须使用 HH:MM。"@
}

pub open spec fn unknown_local_time_error() -> Seq<char> {
    "无法识别这个本地闹钟时间。"@
}

/// The checks of a submitted alarm, in order: a title that is not blank, a
/// date `YYYY-MM-DD` and a time `HH:MM` (each read without surrounding white
/// space). On success: the trimmed title, the day and second, and the date
/// and time written back in canonical form.
pub open spec fn parse_alarm_spec(title: Seq<char>, date: Seq<char>, time: Seq<char>)
    -> Result<(Seq<char>, int, int, Seq<char>, Seq<char>), Seq<char>>
{
    if trim_spec(title).len() == 0 {
        Err(empty_title_error())
    } else {
        match naive_date_parse_result(trim_spec(date), alarm_date_fmt()) {
            Err(_) => Err(bad_date_error()),
            Ok(d) => match naive_time_parse_result(trim_spec(time), alarm_time_fmt()) {
                Err(_) => Err(bad_time_error()),
                Ok(t) => Ok((
                    trim_spec(title),
                    d,
                    t,
                    naive_format_result(d, 0, alarm_date_fmt())->Some_0,
                    naive_format_result(d, t, alarm_time_fmt())->Some_0,
                )),
            },
        }
    }
}

/// Checks a submitted alarm's title, date and time (see `parse_alarm_spec`);
/// the note is trimmed, and dropped when blank.
pub fn parse_alarm_draft(draft: AlarmDraft) -> (r: Result<ParsedAlarm, String>)
    ensures
        match parse_alarm_spec(draft.title@, draft.alarm_date@, draft.alarm_time@) {
            Ok(p) => r matches Ok(a) && {
                &&& a.title@ == p.0
                &&& a.day as int == p.1
                &&& a.second as int == p.2
                &&& a.alarm_date@ == p.3
                &&& a.alarm_time@ == p.4
                &&& opt_view(a.note) == normalize_optional_spec(opt_view(draft.note))
                &&& a.enabled == draft.enabled
                &&& a.second < 86_400
            },
            Err(e) => r matches Err(m) && m@ == e,
        },
{
    let title = trim(draft.title.as_str());
    if title.as_str().is_empty() {
        return Err(String::from_str("闹钟标题不能为空。"));
    }
    let date_fmt = "%Y-%m-%d";
    let time_fmt = "%H:%M";
    proof {
        reveal_strlit("%Y-%m-%d");
        reveal_strlit("%H:%M");
        assert(date_fmt@ =~= alarm_date_fmt());
        assert(time_fmt@ =~= alarm_time_fmt());
        assert(known_format(alarm_date_fmt()));
        assert(known_format(alarm_time_fmt()));
    }
    let date_text = trim(draft.alarm_date.as_str());
    let day = match naive_date_parse(date_text.as_str(), date_fmt) {
        Ok(d) => d,
        Err(_) => return Err(String::from_str("闹钟日期必须使用 YYYY-MM-DD。")),
    };
    let time_text = trim(draft.alarm_time.as_str());
    let second = match naive_time_parse(time_text.as_str(), time_fmt) {
        Ok(t) => t,
        Err(_) => return Err(String::from_str("闹钟时间必须使用 HH:MM。")),
    };
    let alarm_date = match naive_format(day, 0, date_fmt) {
        Some(s) => s,
        None => return Err(String::from_str("闹钟日期必须使用 YYYY-MM-DD。")),
    };
    let alarm_time = match naive_format(day, second, time_fmt) {
        Some(s) => s,
        None => return Err(String::from_str("闹钟时间必须使用 HH:MM。")),
    };
    Ok(ParsedAlarm {
        title,
        note: normalize_optional_string(draft.note),
        day,
        second,
        alarm_date,
        alarm_time,
        enabled: draft.enabled,
    })
}

/// A checked alarm completed with the Unix timestamp of its local date and
/// time (none when the machine's time zone has no such local time): the
/// alarm with its instant in RFC 3339, or the error of an unknown local time.
pub fn finish_alarm(parsed: ParsedAlarm, local: Option<i64>) -> (r: Result<NormalizedAlarmDraft, String>)
    requires
        local matches Some(t) ==> rfc3339_format_result(t as int, 0) is Some,
    ensures
        match local {
            Some(t) => r matches Ok(n) && {
                &&& n.title@ == parsed.title@
                &&& opt_view(n.note) == opt_view(parsed.note)
                &&& n.alarm_date@ == parsed.alarm_date@
                &&& n.alarm_time@ == parsed.alarm_time@
                &&& Some(n.alarm_at@) == rfc3339_format_result(t as int, 0)
                &&& n.enabled == parsed.enabled
            },
            None => r matches Err(m) && m@ == unknown_local_time_error(),
        },
{
    match local {
        Some(t) => {
            let at = match rfc3339_format(Instant { secs: t, nanos: 0 }) {
                Some(s) => s,
                None => return Err(String::from_str("无法识别这个本地闹钟时间。")),
            };
            Ok(NormalizedAlarmDraft {
                title: parsed.title,
                note: parsed.note,
                alarm_date: parsed.alarm_date,
                alarm_time: parsed.alarm_time,
                alarm_at: at,
                enabled: parsed.enabled,
            })
        },
        None => Err(String::from_str("无法识别这个本地闹钟时间。")),
    }
}

/// Checks a submitted alarm and fixes the instant it rings at: its local date
/// and time read in the machine's time zone (the earlier instant where the
/// local time is ambiguous). The title, date and time checks come first and
/// decide alone; whatever the time zone gives, the instant is one that
/// `finish_alarm` accepts for it.
pub fn normalize_alarm_draft(draft: AlarmDraft) -> (r: Result<NormalizedAlarmDraft, String>)
    ensures
        match parse_alarm_spec(draft.title@, draft.alarm_date@, draft.alarm_time@) {
            Err(e) => r matches Err(m) && m@ == e,
            Ok(p) => match r {
                Ok(n) => {
                    &&& n.title@ == p.0
                    &&& n.alarm_date@ == p.3
                    &&& n.alarm_time@ == p.4
                    &&& opt_view(n.note) == normalize_optional_spec(opt_view(draft.note))
                    &&& n.enabled == draft.enabled
                    &&& exists|t: i64| Some(n.alarm_at@) == rfc3339_format_result(t as int, 0)
                },
                Err(m) => m@ == unknown_local_time_error(),
            },
        },
{
    let parsed = match parse_alarm_draft(draft) {
        Ok(p) => p,
        Err(e) => return Err(e),
    };
    let local = local_timestamp(parsed.day, parsed.second);
    finish_alarm(parsed, local)
}

} // verus!
