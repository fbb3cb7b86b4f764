//! Feishu calendar events: reading them, the local time they map to, the
//! body written for a schedule block, and the decisions of a calendar sync.
use crate::caldav::{calendar_fingerprint, calendar_fingerprint_spec, opt_str_view, opt_view};
use crate::caldav_sync::{parse_rfc3339_millis, rfc3339_millis_spec};
use crate::clock::{
    chrono_utc_range, local_convertible, local_date_secs, local_timestamp, local_today_days, naive_date_parse, naive_date_parse_result,
    local_reading, naive_format, naive_format_result, utc_now, written_date_shape, ymd_format,
};
use crate::feishu_rules::{
    body_with_marker, feishu_body_spec, first_marker_line, lines_spec, marker_in_lines,
    normalize_millis_spec, normalize_seconds_spec, normalize_timestamp_millis,
    normalize_timestamp_seconds, strip_marker, kept_lines,
};
use crate::text::{i64_to_string, int_decimal, join_spec, parse_i64, parse_i64_spec, push_str, trim, trim_is_empty, trim_spec};
use vstd::prelude::*;
use vstd::string::*;

verus! {

/// A schedule block as the Feishu sync reads it.
#[derive(Clone, Debug)]
pub struct LocalScheduleBlock {
    pub id: i64,
    pub sync_id: String,
    pub schedule_date: String,
    pub title: String,
    pub note: Option<String>,
    pub start_minute: i64,
    pub end_minute: i64,
    pub status: String,
    pub updated_at: String,
    pub deleted_at: Option<i64>,
}

/// A Feishu calendar event.
#[derive(Clone, Debug)]
pub struct RemoteEvent {
    pub id: String,
    pub title: String,
    pub note: Option<String>,
    pub schedule_date: String,
    pub start_minute: i64,
    pub end_minute: i64,
    pub updated_millis: Option<i64>,
    pub marker_sync_id: Option<String>,
}

/// A scalar read from a JSON field: missing, an integer, a string, or
/// anything else.
#[derive(Clone, Debug)]
pub enum JsonScalar {
    Missing,
    Int(i64),
    Str(String),
    Other,
}

/// The fields of a Feishu event object the sync reads.
#[derive(Clone, Debug)]
pub struct FeishuEventJson {
    pub event_id: JsonScalar,
    pub id: JsonScalar,
    pub summary: JsonScalar,
    pub description: JsonScalar,
    pub start_timestamp: JsonScalar,
    pub end_timestamp: JsonScalar,
    pub updated_time: JsonScalar,
    pub updated_at: JsonScalar,
}

/// A field as a string (`Value::as_str`).
pub open spec fn scalar_str(v: JsonScalar) -> Option<Seq<char>> {
    match v {
        JsonScalar::Str(s) => Some(s@),
        _ => None,
    }
}

/// A field as an integer: a JSON integer, or a string that reads as one.
pub open spec fn scalar_i64(v: JsonScalar) -> Option<i64> {
    match v {
        JsonScalar::Int(i) => Some(i),
        JsonScalar::Str(s) => parse_i64_spec(s@),
        _ => None,
    }
}

pub fn value_to_i64(value: &JsonScalar) -> (r: Option<i64>)
    ensures
        r == scalar_i64(*value),
{
    match value {
        JsonScalar::Int(i) => Some(*i),
        JsonScalar::Str(s) => parse_i64(s.as_str()),
        _ => None,
    }
}

fn scalar_string(value: &JsonScalar) -> (r: Option<String>)
    ensures
        match r {
            Some(s) => scalar_str(*value) == Some(s@),
            None => scalar_str(*value) is None,
        },
{
    match value {
        JsonScalar::Str(s) => Some(s.clone()),
        _ => None,
    }
}

// ---------------------------------------------------------------------------
// Local time (the machine's time zone)
// ---------------------------------------------------------------------------

/// `YYYY-MM-DD` of a day counted from the Common Era (empty past the range).
fn day_text(days: i32) -> (r: String)
    ensures
        naive_format_result(days as int, 0, "%Y-%m-%d"@) matches Some(s) ==> r@ == s && written_date_shape(s),
{
    let fmt = "%Y-%m-%d";
    proof {
        reveal_strlit("%Y-%m-%d");
        assert(fmt@ =~= seq!['%', 'Y', '-', '%', 'm', '-', '%', 'd']);
        assert(fmt@ =~= ymd_format());
    }
    match naive_format(days, 0, fmt) {
        Some(s) => s,
        None => String::new(),
    }
}

/// Whether `t` is a Unix timestamp inside `chrono`'s range of date-times.
pub open spec fn chrono_timestamp(t: int) -> bool {
    -8_796_093_022_208 < t < 8_796_093_022_208
}

/// Whether `s` is the `YYYY-MM-DD` text `chrono` writes for some date.
pub open spec fn is_date_text(s: Seq<char>) -> bool {
    exists|days: int| naive_format_result(days, 0, "%Y-%m-%d"@) == Some(s)
}

/// The local date and minute of the day of a timestamp (seconds or
/// milliseconds): there is one a day or more inside `chrono`'s range and none
/// outside it. Which date it is depends on the machine's time zone.
pub fn timestamp_to_local_date_minute(timestamp: i64) -> (r: Option<(String, i64)>)
    ensures
        local_convertible(normalize_seconds_spec(timestamp as int)) ==> r is Some,
        !chrono_utc_range(normalize_seconds_spec(timestamp as int)) ==> r is None,
        r matches Some(p) ==> 0 <= p.1 < 1440 && is_date_text(p.0@) && written_date_shape(p.0@),
        // the date and minute read the timestamp in the machine's time zone
        r matches Some(p) ==> exists|days: int, secs: int|
            #![trigger local_reading(normalize_seconds_spec(timestamp as int), days, secs)]
            local_reading(normalize_seconds_spec(timestamp as int), days, secs) && naive_format_result(
                days,
                0,
                "%Y-%m-%d"@,
            ) == Some(p.0@) && p.1 == secs / 60,
{
    let seconds = normalize_timestamp_seconds(timestamp);
    match local_date_secs(seconds) {
        None => None,
        Some((days, secs)) => {
            proof {
                reveal_strlit("%Y-%m-%d");
                assert("%Y-%m-%d"@ =~= seq!['%', 'Y', '-', '%', 'm', '-', '%', 'd']);
            }
            let text = day_text(days);
            assert(naive_format_result(days as int, 0, "%Y-%m-%d"@) is Some);
            Some((text, (secs / 60) as i64))
        },
    }
}

/// The local date (`YYYY-MM-DD`) of a timestamp (seconds or milliseconds),
/// today's when the time zone has none.
pub fn millis_to_local_date_string(value: i64) -> (r: String)
    ensures
        is_date_text(r@),
        written_date_shape(r@),
        // a timestamp a day inside `chrono`'s range gives its own local date
        local_convertible(normalize_seconds_spec(value as int)) ==> exists|days: int, secs: int|
            #![trigger local_reading(normalize_seconds_spec(value as int), days, secs)]
            local_reading(normalize_seconds_spec(value as int), days, secs) && naive_format_result(
                days,
                0,
                "%Y-%m-%d"@,
            ) == Some(r@),
{
    proof {
        reveal_strlit("%Y-%m-%d");
        assert("%Y-%m-%d"@ =~= seq!['%', 'Y', '-', '%', 'm', '-', '%', 'd']);
    }
    let seconds = normalize_timestamp_seconds(value);
    let days = match local_date_secs(seconds) {
        Some((days, _)) => days,
        None => local_today_days(),
    };
    let text = day_text(days);
    assert(naive_format_result(days as int, 0, "%Y-%m-%d"@) is Some);
    text
}

/// The second of the day that a minute of the day stands for: the minute is
/// clamped to 0..=1440, and 1440 stands for 23:59:59.
pub open spec fn minute_seconds_spec(minute: int) -> int {
    let c = if minute < 0 {
        0
    } else if minute > 1440 {
        1440
    } else {
        minute
    };
    if c >= 1440 {
        86_399
    } else {
        (c / 60) * 3600 + (c % 60) * 60
    }
}

/// The second of the day of a (clamped) minute of the day.
pub fn minute_seconds(minute: i64) -> (r: u32)
    ensures
        r == minute_seconds_spec(minute as int),
        r < 86_400,
{
    let clamped: i64 = if minute < 0 {
        0
    } else if minute > 1440 {
        1440
    } else {
        minute
    };
    if clamped >= 1440 {
        23 * 3600 + 59 * 60 + 59
    } else {
        ((clamped / 60) * 3600 + (clamped % 60) * 60) as u32
    }
}

/// What a minute of a local date hands to the local clock: the day of the
/// date (days from the Common Era) when it parses as `YYYY-MM-DD`, and the
/// second of the day of the clamped minute (see `minute_seconds`).
pub fn local_instant_inputs(date: &str, minute: i64) -> (r: (Option<i32>, u32))
    ensures
        r.0 == (match naive_date_parse_result(date@, "%Y-%m-%d"@) {
            Ok(d) => Some(d as i32),
            Err(_) => None::<i32>,
        }),
        r.1 == minute_seconds_spec(minute as int),
{
    let day = match naive_date_parse(date, "%Y-%m-%d") {
        Ok(d) => Some(d),
        Err(_) => None,
    };
    (day, minute_seconds(minute))
}

/// The Unix timestamp of a minute of a local date (`YYYY-MM-DD`; today
/// when it does not parse), the minute clamped to 0..=1440: the local time
/// of the day and second that `local_instant_inputs` gives, or now when the
/// time zone has no such local time. The instant depends on the time zone
/// (and on the clock when the date does not parse or the local time does not
/// exist), so the contract states its range.
pub fn local_date_minute_to_timestamp(date: &str, minute: i64) -> (r: i64)
    ensures
        chrono_timestamp(r as int),
{
    let (parsed, secs) = local_instant_inputs(date, minute);
    let day = match parsed {
        Some(d) => d,
        None => local_today_days(),
    };
    match local_timestamp(day, secs) {
        Some(t) => t,
        None => utc_now().secs,
    }
}

/// The timestamp of a block's minute on its date.
pub fn minute_to_timestamp(date: &str, minute: i64) -> (r: i64)
    ensures
        chrono_timestamp(r as int),
{
    local_date_minute_to_timestamp(date, minute)
}

/// Today's local date.
pub fn today_date_string() -> (r: String)
    ensures
        exists|day: i32| naive_format_result(day as int, 0, "%Y-%m-%d"@) == Some(r@),
{
    proof {
        reveal_strlit("%Y-%m-%d");
        assert("%Y-%m-%d"@ =~= seq!['%', 'Y', '-', '%', 'm', '-', '%', 'd']);
    }
    day_text(local_today_days())
}

/// The sync window as timestamps: 30 days back at midnight to 180 days on
/// at the day's last minute.
pub fn calendar_sync_range() -> (r: (i64, i64))
    ensures
        chrono_timestamp(r.0 as int),
        chrono_timestamp(r.1 as int),
{
    let today = local_today_days() as i64;
    let start = if today - 30 >= i32::MIN as i64 {
        (today - 30) as i32
    } else {
        i32::MIN
    };
    let end = if today + 180 <= i32::MAX as i64 {
        (today + 180) as i32
    } else {
        i32::MAX
    };
    (
        local_date_minute_to_timestamp(day_text(start).as_str(), 0),
        local_date_minute_to_timestamp(day_text(end).as_str(), 1439),
    )
}

// ---------------------------------------------------------------------------
// Reading events
// ---------------------------------------------------------------------------

/// A trimmed, non-empty summary, else empty.
pub open spec fn title_spec(summary: JsonScalar) -> Seq<char> {
    match scalar_str(summary) {
        Some(s) => trim_spec(s),
        None => Seq::empty(),
    }
}

/// The note of a description: without its marker lines, none when blank.
pub open spec fn note_spec(description: Seq<char>) -> Option<Seq<char>> {
    let stripped = trim_spec(join_spec(kept_lines(lines_spec(description)), seq!['\n']));
    if trim_spec(stripped).len() == 0 {
        None
    } else {
        Some(stripped)
    }
}

/// The event's id: `event_id` when present (it must then be a string),
/// else `id`.
pub open spec fn event_id_spec(ev: FeishuEventJson) -> Option<Seq<char>> {
    match ev.event_id {
        JsonScalar::Missing => scalar_str(ev.id),
        other => scalar_str(other),
    }
}

/// The change time in milliseconds: `updated_time`, else `updated_at`
/// (when present), seconds read as milliseconds.
pub open spec fn event_updated_spec(ev: FeishuEventJson) -> Option<int> {
    let field = match ev.updated_time {
        JsonScalar::Missing => ev.updated_at,
        other => other,
    };
    match scalar_i64(field) {
        Some(v) => if v >= -9_223_372_036_854_775 {
            Some(normalize_millis_spec(v as int))
        } else {
            None
        },
        None => None,
    }
}

fn description_text(ev: &FeishuEventJson) -> (r: String)
    ensures
        r@ == match scalar_str(ev.description) {
            Some(s) => s,
            None => Seq::<char>::empty(),
        },
{
    match scalar_string(&ev.description) {
        Some(s) => s,
        None => String::new(),
    }
}

/// An event read from its fields: none without an id or without both
/// timestamps; the date and minutes come from the local time of its start
/// and end (an end on another day ends the block at midnight, and an end
/// not after the start is an hour after it, within the day).
pub fn parse_remote_event(ev: &FeishuEventJson) -> (r: Option<RemoteEvent>)
    ensures
        event_id_spec(*ev) is None ==> r is None,
        scalar_i64(ev.start_timestamp) is None || scalar_i64(ev.end_timestamp) is None ==> r is None,
        // an event with an id and both times a day inside `chrono`'s range is read
        (match (scalar_i64(ev.start_timestamp), scalar_i64(ev.end_timestamp)) {
            (Some(st), Some(en)) => event_id_spec(*ev) is Some && local_convertible(
                normalize_seconds_spec(st as int),
            ) && local_convertible(normalize_seconds_spec(en as int)),
            _ => false,
        }) ==> r is Some,
        // one with a time outside it is not
        (match scalar_i64(ev.start_timestamp) {
            Some(st) => !chrono_utc_range(normalize_seconds_spec(st as int)),
            None => false,
        }) ==> r is None,
        (match scalar_i64(ev.end_timestamp) {
            Some(en) => !chrono_utc_range(normalize_seconds_spec(en as int)),
            None => false,
        }) ==> r is None,
        r matches Some(e) ==> {
            &&& event_id_spec(*ev) == Some(e.id@)
            &&& e.title@ == title_spec(ev.summary)
            &&& opt_view(e.note) == note_spec(match scalar_str(ev.description) {
                Some(s) => s,
                None => Seq::<char>::empty(),
            })
            &&& match first_marker_line(lines_spec(match scalar_str(ev.description) {
                Some(s) => s,
                None => Seq::<char>::empty(),
            })) {
                Some(m) => opt_view(e.marker_sync_id) == Some(m.1),
                None => e.marker_sync_id is None,
            }
            &&& match event_updated_spec(*ev) {
                Some(m) => e.updated_millis == Some(m as i64),
                None => e.updated_millis is None,
            }
            &&& 0 <= e.start_minute < 1440
            &&& e.start_minute < e.end_minute <= 1440
        },
{
    let id = match &ev.event_id {
        JsonScalar::Missing => scalar_string(&ev.id),
        other => scalar_string(other),
    };
    let id = match id {
        Some(i) => i,
        None => {
            return None;
        },
    };
    let title = match scalar_string(&ev.summary) {
        Some(s) => trim(s.as_str()),
        None => String::new(),
    };
    let raw_note = description_text(ev);
    let marker = marker_in_lines(raw_note.as_str());
    let stripped = strip_marker(raw_note.as_str());
    let note = if trim_is_empty(stripped.as_str()) {
        None
    } else {
        Some(stripped)
    };
    let start_ts = match value_to_i64(&ev.start_timestamp) {
        Some(t) => t,
        None => {
            return None;
        },
    };
    let end_ts = match value_to_i64(&ev.end_timestamp) {
        Some(t) => t,
        None => {
            return None;
        },
    };
    let (schedule_date, start_minute) = match timestamp_to_local_date_minute(start_ts) {
        Some(p) => p,
        None => {
            return None;
        },
    };
    let (end_date, end_raw) = match timestamp_to_local_date_minute(end_ts) {
        Some(p) => p,
        None => {
            return None;
        },
    };
    let mut end_minute = end_raw;
    if end_date != schedule_date {
        end_minute = 1440;
    }
    if end_minute <= start_minute {
        end_minute = if start_minute + 60 < 1440 {
            start_minute + 60
        } else {
            1440
        };
    }
    let updated_field = match &ev.updated_time {
        JsonScalar::Missing => &ev.updated_at,
        other => other,
    };
    let updated_millis = match value_to_i64(updated_field) {
        Some(v) => if v >= -9_223_372_036_854_775 {
            Some(normalize_timestamp_millis(v))
        } else {
            None
        },
        None => None,
    };
    Some(
        RemoteEvent {
            id,
            title,
            note,
            schedule_date,
            start_minute,
            end_minute,
            updated_millis,
            marker_sync_id: match marker {
                Some(m) => Some(m.1),
                None => None,
            },
        },
    )
}

/// A remote event may be imported when it has a title.
pub fn is_importable_remote_event(remote: &RemoteEvent) -> (b: bool)
    ensures
        b == (trim_spec(remote.title@).len() != 0),
{
    !trim_is_empty(remote.title.as_str())
}

} // verus!

verus! {

// ---------------------------------------------------------------------------
// Linked events
// ---------------------------------------------------------------------------

/// What to do with a block linked to a Feishu event.
#[derive(Clone, Copy, Debug, PartialEq, Eq, Structural)]
pub enum LinkedCalendarAction {
    PushLocal,
    PullRemote,
    RefreshLink,
}

/// The decision for a linked Feishu event. When the event's change time is
/// known it decides, with a tolerance of one second, and equal times only
/// refresh the link; without it, content changes since the last sync
/// decide, and when both sides changed the side that triggered the sync wins.
pub open spec fn feishu_calendar_action_spec(
    local_updated: int,
    remote_updated: Option<int>,
    local_changed: bool,
    remote_changed: bool,
    prefer_local: bool,
) -> LinkedCalendarAction {
    match remote_updated {
        Some(r) => if local_updated > r + 1000 {
            LinkedCalendarAction::PushLocal
        } else if r > local_updated + 1000 {
            LinkedCalendarAction::PullRemote
        } else {
            LinkedCalendarAction::RefreshLink
        },
        None => if !local_changed && !remote_changed {
            LinkedCalendarAction::RefreshLink
        } else if local_changed && !remote_changed {
            LinkedCalendarAction::PushLocal
        } else if remote_changed && !local_changed {
            LinkedCalendarAction::PullRemote
        } else if prefer_local {
            LinkedCalendarAction::PushLocal
        } else {
            LinkedCalendarAction::PullRemote
        },
    }
}

/// The other side's view of an action: pushing the block is pulling the
/// event, and the other way round.
pub open spec fn mirrored_feishu_action(a: LinkedCalendarAction) -> LinkedCalendarAction {
    match a {
        LinkedCalendarAction::PushLocal => LinkedCalendarAction::PullRemote,
        LinkedCalendarAction::PullRemote => LinkedCalendarAction::PushLocal,
        LinkedCalendarAction::RefreshLink => LinkedCalendarAction::RefreshLink,
    }
}

/// With the event's change time known, the clocks decide whatever the
/// change flags say: a block edited more than a second after the event is
/// pushed, an event edited more than a second after the block is pulled,
/// and only times within a second of each other refresh the link. Without
/// a change time, one side alone changed wins, nothing changed refreshes
/// the link, and when both changed the side that triggered the sync wins.
pub proof fn lemma_feishu_action_rules(
    local_updated: int,
    remote_updated: Option<int>,
    local_changed: bool,
    remote_changed: bool,
    prefer_local: bool,
)
    ensures
        ({
            let a = feishu_calendar_action_spec(
                local_updated,
                remote_updated,
                local_changed,
                remote_changed,
                prefer_local,
            );
            &&& remote_updated matches Some(r) ==> (local_updated > r + 1000 ==> a
                == LinkedCalendarAction::PushLocal)
            &&& remote_updated matches Some(r) ==> (r > local_updated + 1000 ==> a
                == LinkedCalendarAction::PullRemote)
            &&& remote_updated matches Some(r) ==> (local_updated - 1000 <= r <= local_updated + 1000 ==> a
                == LinkedCalendarAction::RefreshLink)
            &&& remote_updated is None ==> (local_changed && !remote_changed ==> a
                == LinkedCalendarAction::PushLocal)
            &&& remote_updated is None ==> (!local_changed && remote_changed ==> a
                == LinkedCalendarAction::PullRemote)
            &&& remote_updated is None ==> (!local_changed && !remote_changed ==> a
                == LinkedCalendarAction::RefreshLink)
            &&& remote_updated is None ==> (local_changed && remote_changed ==> a == if prefer_local {
                LinkedCalendarAction::PushLocal
            } else {
                LinkedCalendarAction::PullRemote
            })
        }),
{
}

/// The decision does not favour a side: with the two change times swapped
/// it is the mirrored action.
pub proof fn lemma_feishu_action_mirror(
    local_updated: int,
    remote_updated: int,
    local_changed: bool,
    remote_changed: bool,
    prefer_local: bool,
)
    ensures
        feishu_calendar_action_spec(remote_updated, Some(local_updated), remote_changed, local_changed, !prefer_local)
            == mirrored_feishu_action(
            feishu_calendar_action_spec(local_updated, Some(remote_updated), local_changed, remote_changed, prefer_local),
        ),
{
}

/// Decides what to do with a linked Feishu event.
pub fn linked_calendar_action(
    local_updated: i64,
    remote_updated: Option<i64>,
    local_changed_since_sync: bool,
    remote_changed_since_sync: bool,
    prefer_local_changes: bool,
) -> (r: LinkedCalendarAction)
    ensures
        r == feishu_calendar_action_spec(
            local_updated as int,
            match remote_updated {
                Some(x) => Some(x as int),
                None => None,
            },
            local_changed_since_sync,
            remote_changed_since_sync,
            prefer_local_changes,
        ),
        // without a remote change time, nothing changed means nothing moves
        remote_updated is None && !local_changed_since_sync && !remote_changed_since_sync ==> r
            == LinkedCalendarAction::RefreshLink,
{
    match remote_updated {
        Some(remote) => {
            let l: i128 = local_updated as i128;
            let r: i128 = remote as i128;
            if l > r + 1000 {
                LinkedCalendarAction::PushLocal
            } else if r > l + 1000 {
                LinkedCalendarAction::PullRemote
            } else {
                LinkedCalendarAction::RefreshLink
            }
        },
        None => {
            if !local_changed_since_sync && !remote_changed_since_sync {
                LinkedCalendarAction::RefreshLink
            } else if local_changed_since_sync && !remote_changed_since_sync {
                LinkedCalendarAction::PushLocal
            } else if remote_changed_since_sync && !local_changed_since_sync {
                LinkedCalendarAction::PullRemote
            } else if prefer_local_changes {
                LinkedCalendarAction::PushLocal
            } else {
                LinkedCalendarAction::PullRemote
            }
        },
    }
}

/// The trimmed note, or empty.
pub fn normalize_note(value: Option<&str>) -> (r: String)
    ensures
        r@ == match value {
            Some(v) => trim_spec(v@),
            None => Seq::<char>::empty(),
        },
{
    match value {
        Some(v) => trim(v),
        None => String::new(),
    }
}

pub open spec fn block_fp_spec(b: LocalScheduleBlock) -> Seq<char> {
    calendar_fingerprint_spec(
        b.schedule_date@,
        b.start_minute as int,
        b.end_minute as int,
        b.title@,
        opt_view(b.note),
    )
}

pub open spec fn event_fp_spec(e: RemoteEvent) -> Seq<char> {
    calendar_fingerprint_spec(
        e.schedule_date@,
        e.start_minute as int,
        e.end_minute as int,
        e.title@,
        opt_view(e.note),
    )
}

fn opt_as_str(o: &Option<String>) -> (r: Option<&str>)
    ensures
        opt_str_view(r) == opt_view(*o),
{
    match o {
        Some(s) => Some(s.as_str()),
        None => None,
    }
}

/// The content fingerprint of a local block.
pub fn local_schedule_block_fingerprint(block: &LocalScheduleBlock) -> (r: String)
    ensures
        r@ == block_fp_spec(*block),
{
    calendar_fingerprint(
        block.schedule_date.as_str(),
        block.start_minute,
        block.end_minute,
        block.title.as_str(),
        opt_as_str(&block.note),
    )
}

/// The content fingerprint of a Feishu event.
pub fn remote_event_fingerprint(remote: &RemoteEvent) -> (r: String)
    ensures
        r@ == event_fp_spec(*remote),
{
    calendar_fingerprint(
        remote.schedule_date.as_str(),
        remote.start_minute,
        remote.end_minute,
        remote.title.as_str(),
        opt_as_str(&remote.note),
    )
}

/// Whether a block and an event differ in content.
pub fn calendar_event_content_differs(local: &LocalScheduleBlock, remote: &RemoteEvent) -> (b: bool)
    ensures
        b == (block_fp_spec(*local) != event_fp_spec(*remote)),
{
    local_schedule_block_fingerprint(local) != remote_event_fingerprint(remote)
}

/// A stored link between a local entity and a Feishu object.
#[derive(Clone, Debug)]
pub struct FeishuLink {
    pub id: i64,
    pub remote_kind: String,
    pub remote_id: String,
    pub remote_parent_id: Option<String>,
    pub remote_etag: Option<String>,
    pub remote_change_key: Option<String>,
    pub remote_last_modified: Option<String>,
}

/// Milliseconds of an RFC 3339 time; an error naming the text otherwise.
pub fn parse_rfc3339_millis_or_error(value: &str) -> (r: Result<i64, String>)
    ensures
        r matches Ok(m) ==> rfc3339_millis_spec(value@) == Ok::<int, Seq<char>>(m as int),
        r matches Err(e) ==> e@ == "时间格式不正确："@ + value@,
        rfc3339_millis_spec(value@) matches Ok(m) && i64::MIN <= m <= i64::MAX ==> r is Ok,
{
    match parse_rfc3339_millis(value) {
        Ok(m) => Ok(m),
        Err(_) => {
            let mut e = String::from_str("时间格式不正确：");
            push_str(&mut e, value);
            Err(e)
        },
    }
}

/// What to do with a linked pair and the fingerprints that go with it.
#[derive(Clone, Debug)]
pub struct FeishuLinkedPlan {
    pub action: LinkedCalendarAction,
    pub local_fingerprint: String,
    pub remote_fingerprint: String,
    pub remote_updated: Option<i64>,
}

/// The change time of the event: its own, else the one stored with the link.
pub open spec fn feishu_remote_updated_spec(remote: RemoteEvent, link: FeishuLink) -> Option<int> {
    match remote.updated_millis {
        Some(m) => Some(m as int),
        None => match link.remote_last_modified {
            Some(s) => crate::feishu_rules::link_millis_spec(s@),
            None => None,
        },
    }
}

/// Reconciles a linked pair: the local change time is the block's
/// `updated_at`; the local side changed when its fingerprint differs from
/// the one stored as the link's etag (without one, when the two sides
/// differ); the remote side changed when its fingerprint differs from the
/// stored change key.
pub fn plan_linked_event(
    local: &LocalScheduleBlock,
    remote: &RemoteEvent,
    link: &FeishuLink,
    prefer_local: bool,
) -> (r: Result<FeishuLinkedPlan, String>)
    ensures
        r matches Err(e) ==> e@ == "时间格式不正确："@ + local.updated_at@,
        // a plan is owed exactly when the block's change time reads as
        // milliseconds that fit `i64`
        r is Ok <==> (rfc3339_millis_spec(local.updated_at@) matches Ok(m) && i64::MIN <= m <= i64::MAX),
        r matches Ok(p) ==> {
            let lfp = block_fp_spec(*local);
            let rfp = event_fp_spec(*remote);
            let lc = match link.remote_etag {
                Some(f) => f@ != lfp,
                None => lfp != rfp,
            };
            let rc = match link.remote_change_key {
                Some(f) => f@ != rfp,
                None => false,
            };
            &&& rfc3339_millis_spec(local.updated_at@) matches Ok(m)
            &&& p.local_fingerprint@ == lfp
            &&& p.remote_fingerprint@ == rfp
            &&& match p.remote_updated {
                Some(x) => Some(x as int),
                None => None::<int>,
            } == feishu_remote_updated_spec(*remote, *link)
            &&& p.action == feishu_calendar_action_spec(
                rfc3339_millis_spec(local.updated_at@)->Ok_0,
                match p.remote_updated {
                    Some(x) => Some(x as int),
                    None => None,
                },
                lc,
                rc,
                prefer_local,
            )
        },
{
    let local_updated = match parse_rfc3339_millis_or_error(local.updated_at.as_str()) {
        Ok(m) => m,
        Err(e) => {
            return Err(e);
        },
    };
    let remote_updated = match remote.updated_millis {
        Some(m) => Some(m),
        None => match &link.remote_last_modified {
            Some(s) => crate::feishu_rules::parse_link_millis(s.as_str()),
            None => None,
        },
    };
    let local_fingerprint = local_schedule_block_fingerprint(local);
    let remote_fingerprint = remote_event_fingerprint(remote);
    let local_changed = match &link.remote_etag {
        Some(f) => *f != local_fingerprint,
        None => local_fingerprint != remote_fingerprint,
    };
    let remote_changed = match &link.remote_change_key {
        Some(f) => *f != remote_fingerprint,
        None => false,
    };
    let action = linked_calendar_action(
        local_updated,
        remote_updated,
        local_changed,
        remote_changed,
        prefer_local,
    );
    Ok(FeishuLinkedPlan { action, local_fingerprint, remote_fingerprint, remote_updated })
}

// ---------------------------------------------------------------------------
// Sync steps
// ---------------------------------------------------------------------------

/// The step for a local block in a Feishu calendar sync.
#[derive(Clone, Copy, Debug, PartialEq, Eq, Structural)]
pub enum FeishuBlockStep {
    /// Deleted locally while its event is listed: delete the event and the link.
    DeleteRemote,
    /// Reconcile the linked pair.
    SyncLinked,
    /// Its event is gone from Feishu: delete the block and the link.
    DeleteLocal,
    /// A deleted block whose event is gone: drop the link.
    DropLink,
    /// Create its event.
    CreateRemote,
    Skip,
}

pub open spec fn feishu_block_step_spec(deleted: bool, linked: bool, linked_listed: bool, in_range: bool) -> FeishuBlockStep {
    if linked {
        if linked_listed {
            if deleted {
                FeishuBlockStep::DeleteRemote
            } else {
                FeishuBlockStep::SyncLinked
            }
        } else if !deleted && in_range {
            FeishuBlockStep::DeleteLocal
        } else if deleted {
            FeishuBlockStep::DropLink
        } else {
            FeishuBlockStep::Skip
        }
    } else if !deleted && in_range {
        FeishuBlockStep::CreateRemote
    } else {
        FeishuBlockStep::Skip
    }
}

/// Decides the step for a local block: whether it is deleted, linked,
/// whether its event was listed, and whether its date is in the window.
pub fn feishu_block_step(deleted: bool, linked: bool, linked_listed: bool, in_range: bool) -> (r:
    FeishuBlockStep)
    ensures
        r == feishu_block_step_spec(deleted, linked, linked_listed, in_range),
        deleted ==> r != FeishuBlockStep::CreateRemote && r != FeishuBlockStep::SyncLinked,
{
    if linked {
        if linked_listed {
            if deleted {
                FeishuBlockStep::DeleteRemote
            } else {
                FeishuBlockStep::SyncLinked
            }
        } else if !deleted && in_range {
            FeishuBlockStep::DeleteLocal
        } else if deleted {
            FeishuBlockStep::DropLink
        } else {
            FeishuBlockStep::Skip
        }
    } else if !deleted && in_range {
        FeishuBlockStep::CreateRemote
    } else {
        FeishuBlockStep::Skip
    }
}

/// The step for a listed Feishu event after the local blocks.
#[derive(Clone, Copy, Debug, PartialEq, Eq, Structural)]
pub enum FeishuEventStep {
    AlreadyLinked,
    /// Its marker names a local block: link them (and reconcile when the
    /// block is live).
    Adopt { local_id: i64, live: bool },
    Import,
    Skip,
}

pub open spec fn feishu_event_step_spec(
    linked: bool,
    has_marker: bool,
    marked_local: Option<(i64, Option<i64>)>,
    importable: bool,
) -> FeishuEventStep {
    if linked {
        FeishuEventStep::AlreadyLinked
    } else if has_marker && marked_local is Some {
        match marked_local {
            Some((id, deleted)) => FeishuEventStep::Adopt { local_id: id, live: deleted is None },
            None => FeishuEventStep::Skip,
        }
    } else if importable {
        FeishuEventStep::Import
    } else {
        FeishuEventStep::Skip
    }
}

pub fn feishu_event_step(
    linked: bool,
    has_marker: bool,
    marked_local: Option<(i64, Option<i64>)>,
    importable: bool,
) -> (r: FeishuEventStep)
    ensures
        r == feishu_event_step_spec(linked, has_marker, marked_local, importable),
        linked ==> r == FeishuEventStep::AlreadyLinked,
{
    if linked {
        return FeishuEventStep::AlreadyLinked;
    }
    if has_marker {
        if let Some((id, deleted)) = marked_local {
            return FeishuEventStep::Adopt { local_id: id, live: deleted.is_none() };
        }
    }
    if importable {
        FeishuEventStep::Import
    } else {
        FeishuEventStep::Skip
    }
}

/// A stored calendar link with what its local side looks like.
#[derive(Clone, Debug)]
pub struct CalendarLinkCandidate {
    pub entity_type: String,
    pub remote_kind: String,
    pub remote_id: String,
    pub link_deleted: bool,
    pub block_exists: bool,
    pub block_deleted: bool,
}

/// A live schedule-block event link whose block is gone or deleted.
pub open spec fn is_orphan_spec(c: CalendarLinkCandidate) -> bool {
    c.entity_type@ == "schedule_block"@ && c.remote_kind@ == "feishu_calendar_event"@
        && !c.link_deleted && (!c.block_exists || c.block_deleted)
}

pub open spec fn orphan_ids_spec(cs: Seq<CalendarLinkCandidate>) -> Seq<Seq<char>>
    decreases cs.len(),
{
    if cs.len() == 0 {
        Seq::empty()
    } else if is_orphan_spec(cs.last()) {
        orphan_ids_spec(cs.drop_last()).push(cs.last().remote_id@)
    } else {
        orphan_ids_spec(cs.drop_last())
    }
}

/// The remote ids of the orphan event links, in order.
pub fn orphan_calendar_event_links(candidates: &Vec<CalendarLinkCandidate>) -> (r: Vec<String>)
    ensures
        crate::text::strings_view(r@) == orphan_ids_spec(candidates@),
{
    let mut out: Vec<String> = Vec::new();
    let mut i: usize = 0;
    let block = String::from_str("schedule_block");
    let kind = String::from_str("feishu_calendar_event");
    assert(crate::text::strings_view(out@) =~= Seq::<Seq<char>>::empty());
    while i < candidates.len()
        invariant
            i <= candidates@.len(),
            block@ == "schedule_block"@,
            kind@ == "feishu_calendar_event"@,
            crate::text::strings_view(out@) == orphan_ids_spec(candidates@.subrange(0, i as int)),
        decreases candidates.len() - i,
    {
        assert(candidates@.subrange(0, i + 1).drop_last() =~= candidates@.subrange(0, i as int));
        let c = &candidates[i];
        if c.entity_type == block && c.remote_kind == kind && !c.link_deleted && (!c.block_exists
            || c.block_deleted) {
            let ghost before = crate::text::strings_view(out@);
            out.push(c.remote_id.clone());
            assert(crate::text::strings_view(out@) =~= before.push(c.remote_id@));
        }
        i += 1;
    }
    assert(candidates@.subrange(0, candidates@.len() as int) =~= candidates@);
    out
}

// ---------------------------------------------------------------------------
// The event body
// ---------------------------------------------------------------------------

/// The JSON object written for a block's event.
pub open spec fn event_body_spec(b: LocalScheduleBlock, start_ts: int, end_ts: int) -> Seq<char> {
    let q = |s: Seq<char>| crate::feishu_json::json_quote_spec(s);
    seq!['{'] + crate::feishu_json::json_member(
        "description"@,
        q(feishu_body_spec(opt_view(b.note), "schedule_block"@, b.sync_id@)),
    ) + seq![','] + crate::feishu_json::json_member(
        "end_time"@,
        seq!['{'] + crate::feishu_json::json_member("timestamp"@, q(int_decimal(end_ts))) + seq![
            ',',
        ] + crate::feishu_json::json_member("timezone"@, q("Asia/Shanghai"@)) + seq!['}'],
    ) + seq![','] + crate::feishu_json::json_member(
        "free_busy_status"@,
        q(if b.status@ == "completed"@ { "free"@ } else { "busy"@ }),
    ) + seq![','] + crate::feishu_json::json_member(
        "start_time"@,
        seq!['{'] + crate::feishu_json::json_member("timestamp"@, q(int_decimal(start_ts))) + seq![
            ',',
        ] + crate::feishu_json::json_member("timezone"@, q("Asia/Shanghai"@)) + seq!['}'],
    ) + seq![','] + crate::feishu_json::json_member("summary"@, q(b.title@)) + seq![','] + crate::feishu_json::json_member(
        "visibility"@,
        q("default"@),
    ) + seq!['}']
}

fn push_time_object(out: &mut String, ts: i64)
    ensures
        final(out)@ == old(out)@ + seq!['{'] + crate::feishu_json::json_member(
            "timestamp"@,
            crate::feishu_json::json_quote_spec(int_decimal(ts as int)),
        ) + seq![','] + crate::feishu_json::json_member(
            "timezone"@,
            crate::feishu_json::json_quote_spec("Asia/Shanghai"@),
        ) + seq!['}'],
{
    let ghost start = out@;
    crate::text::push_char(out, '{');
    crate::feishu_json::push_member_key(out, "timestamp");
    push_str(out, crate::feishu_json::json_quote(i64_to_string(ts).as_str()).as_str());
    crate::text::push_char(out, ',');
    crate::feishu_json::push_member_key(out, "timezone");
    push_str(out, crate::feishu_json::json_quote("Asia/Shanghai").as_str());
    crate::text::push_char(out, '}');
    assert(final(out)@ =~= start + seq!['{'] + crate::feishu_json::json_member(
        "timestamp"@,
        crate::feishu_json::json_quote_spec(int_decimal(ts as int)),
    ) + seq![','] + crate::feishu_json::json_member(
        "timezone"@,
        crate::feishu_json::json_quote_spec("Asia/Shanghai"@),
    ) + seq!['}']);
}

/// The JSON text of a block's event with the given start and end times.
#[verifier::rlimit(40)]
pub fn feishu_event_body_at(block: &LocalScheduleBlock, start_ts: i64, end_ts: i64) -> (r: String)
    ensures
        r@ == event_body_spec(*block, start_ts as int, end_ts as int),
{
    let description = body_with_marker(opt_as_str(&block.note), "schedule_block", block.sync_id.as_str());
    let mut out = String::new();
    crate::text::push_char(&mut out, '{');
    crate::feishu_json::push_member_key(&mut out, "description");
    push_str(&mut out, crate::feishu_json::json_quote(description.as_str()).as_str());
    crate::text::push_char(&mut out, ',');
    crate::feishu_json::push_member_key(&mut out, "end_time");
    push_time_object(&mut out, end_ts);
    crate::text::push_char(&mut out, ',');
    crate::feishu_json::push_member_key(&mut out, "free_busy_status");
    let busy = if block.status == String::from_str("completed") {
        crate::feishu_json::json_quote("free")
    } else {
        crate::feishu_json::json_quote("busy")
    };
    push_str(&mut out, busy.as_str());
    crate::text::push_char(&mut out, ',');
    crate::feishu_json::push_member_key(&mut out, "start_time");
    push_time_object(&mut out, start_ts);
    crate::text::push_char(&mut out, ',');
    crate::feishu_json::push_member_key(&mut out, "summary");
    push_str(&mut out, crate::feishu_json::json_quote(block.title.as_str()).as_str());
    crate::text::push_char(&mut out, ',');
    crate::feishu_json::push_member_key(&mut out, "visibility");
    push_str(&mut out, crate::feishu_json::json_quote("default").as_str());
    crate::text::push_char(&mut out, '}');
    assert(out@ =~= event_body_spec(*block, start_ts as int, end_ts as int));
    out
}

/// The JSON text of a block's event, its times in the local time zone.
pub fn feishu_event_body(block: &LocalScheduleBlock) -> (r: String)
    ensures
        exists|start_ts: i64, end_ts: i64|
            chrono_timestamp(start_ts as int) && chrono_timestamp(end_ts as int) && r@ == event_body_spec(
                *block,
                start_ts as int,
                end_ts as int,
            ),
{
    let start = minute_to_timestamp(block.schedule_date.as_str(), block.start_minute);
    let end = minute_to_timestamp(block.schedule_date.as_str(), block.end_minute);
    let r = feishu_event_body_at(block, start, end);
    assert(chrono_timestamp(start as int) && chrono_timestamp(end as int));
    r
}

} // verus!
