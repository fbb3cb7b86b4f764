//! CalDAV calendar synchronisation: the events read from a remote calendar,
//! the fingerprints that detect changes, and the rule that decides which side
//! of a linked event wins.
use crate::clock::{
    naive_date_parse, naive_date_parse_result, naive_datetime_parse, naive_datetime_parse_result,
    known_format, naive_format, naive_format_result, utc_seconds_spec,
};
use crate::ics::{
    is_continuation_spec, is_ics_continuation_line, ics_property_name, ics_property_name_spec,
    normalize_ics_lines, normalize_ics_lines_spec, split_ics_lines, split_ics_lines_spec,
    extract_marker, extract_marker_spec, strip_marker, strip_marker_spec, unescape_ics_spec,
    unescape_ics_text, unfold_ics_lines, unfold_ics_lines_spec, property_key, property_key_spec,
};
use crate::text::{
    push_str, to_ascii_uppercase, upper_spec,
    strings_view,
    i64_to_string, int_decimal, is_digit, join_spec, nat_decimal, join_strings, push_char, split_once_char,
    split_once_spec, trim, trim_end_char, trim_end_char_spec, trim_is_empty, trim_spec,
};
use vstd::prelude::*;
use vstd::string::*;
use vstd::utf8::encode_utf8;

verus! {

/// A schedule block of the local database, as the calendar sync reads it.
#[derive(Clone, Debug)]
pub struct LocalCalendarBlock {
    pub id: i64,
    pub sync_id: String,
    pub schedule_date: String,
    pub title: String,
    pub note: Option<String>,
    pub start_minute: i64,
    pub end_minute: i64,
    pub status: String,
    pub updated_at: String,
    pub deleted_at: Option<i64>,
}

/// An event read from the remote calendar.
#[derive(Clone, Debug)]
pub struct RemoteCalendarEvent {
    pub id: String,
    pub etag: Option<String>,
    pub title: String,
    pub note: Option<String>,
    pub schedule_date: String,
    pub start_minute: i64,
    pub end_minute: i64,
    pub updated_millis: Option<i64>,
    pub marker_sync_id: Option<String>,
    pub raw_ics: String,
}

/// The abstract value of a remote event.
pub struct RemoteEventView {
    pub id: Seq<char>,
    pub etag: Option<Seq<char>>,
    pub title: Seq<char>,
    pub note: Option<Seq<char>>,
    pub schedule_date: Seq<char>,
    pub start_minute: int,
    pub end_minute: int,
    pub updated_millis: Option<int>,
    pub marker_sync_id: Option<Seq<char>>,
    pub raw_ics: Seq<char>,
}

pub open spec fn opt_view(o: Option<String>) -> Option<Seq<char>> {
    match o {
        Some(s) => Some(s@),
        None => None,
    }
}

pub open spec fn opt_str_view(o: Option<&str>) -> Option<Seq<char>> {
    match o {
        Some(s) => Some(s@),
        None => None,
    }
}

impl View for RemoteCalendarEvent {
    type V = RemoteEventView;

    open spec fn view(&self) -> RemoteEventView {
        RemoteEventView {
            id: self.id@,
            etag: opt_view(self.etag),
            title: self.title@,
            note: opt_view(self.note),
            schedule_date: self.schedule_date@,
            start_minute: self.start_minute as int,
            end_minute: self.end_minute as int,
            updated_millis: match self.updated_millis {
                Some(m) => Some(m as int),
                None => None,
            },
            marker_sync_id: opt_view(self.marker_sync_id),
            raw_ics: self.raw_ics@,
        }
    }
}

/// What to do with a schedule block that is linked to a remote event.
#[derive(Clone, Copy, Debug, PartialEq, Eq, Structural)]
pub enum LinkedCalendarAction {
    PushLocal,
    PullRemote,
    RefreshLink,
}

/// Milliseconds by which one side's change time must lead to win.
pub open spec fn skew_millis() -> int {
    1000
}

/// The decision for a linked event. Content changes, as seen through the
/// fingerprints stored at the last sync, decide first: a side that alone
/// changed wins, and when neither changed the link is only refreshed. Only
/// when both changed do the modification times decide, with a tolerance of
/// one second, and on a tie the side that triggered the sync wins.
pub open spec fn linked_calendar_action_spec(
    local_updated: int,
    remote_updated: Option<int>,
    local_changed: bool,
    remote_changed: bool,
    prefer_local: bool,
) -> LinkedCalendarAction {
    if local_changed && !remote_changed {
        LinkedCalendarAction::PushLocal
    } else if !local_changed && remote_changed {
        LinkedCalendarAction::PullRemote
    } else if !local_changed && !remote_changed {
        LinkedCalendarAction::RefreshLink
    } else if remote_updated is Some && local_updated > remote_updated->0 + skew_millis() {
        LinkedCalendarAction::PushLocal
    } else if remote_updated is Some && remote_updated->0 > local_updated + skew_millis() {
        LinkedCalendarAction::PullRemote
    } else if prefer_local {
        LinkedCalendarAction::PushLocal
    } else {
        LinkedCalendarAction::PullRemote
    }
}

/// The other side's view of an action: pushing the local block is pulling
/// the remote event, and the other way round.
pub open spec fn mirrored_action(a: LinkedCalendarAction) -> LinkedCalendarAction {
    match a {
        LinkedCalendarAction::PushLocal => LinkedCalendarAction::PullRemote,
        LinkedCalendarAction::PullRemote => LinkedCalendarAction::PushLocal,
        LinkedCalendarAction::RefreshLink => LinkedCalendarAction::RefreshLink,
    }
}

/// When both sides changed since the last sync and the remote change time is
/// known, the side edited more than a second later wins: a local edit newer
/// by more than 1 000 ms is pushed, a remote edit newer by more than
/// 1 000 ms is pulled, and only within that second does the side that
/// triggered the sync win. One side alone changed always wins, and nothing
/// changed only refreshes the link.
pub proof fn lemma_linked_action_rules(
    local_updated: int,
    remote_updated: int,
    local_changed: bool,
    remote_changed: bool,
    prefer_local: bool,
)
    ensures
        ({
            let a = linked_calendar_action_spec(
                local_updated,
                Some(remote_updated),
                local_changed,
                remote_changed,
                prefer_local,
            );
            &&& local_changed && remote_changed && local_updated > remote_updated + 1000 ==> a
                == LinkedCalendarAction::PushLocal
            &&& local_changed && remote_changed && remote_updated > local_updated + 1000 ==> a
                == LinkedCalendarAction::PullRemote
            &&& local_changed && remote_changed && local_updated - 1000 <= remote_updated
                <= local_updated + 1000 ==> a == if prefer_local {
                LinkedCalendarAction::PushLocal
            } else {
                LinkedCalendarAction::PullRemote
            }
            &&& local_changed && !remote_changed ==> a == LinkedCalendarAction::PushLocal
            &&& !local_changed && remote_changed ==> a == LinkedCalendarAction::PullRemote
            &&& !local_changed && !remote_changed ==> a == LinkedCalendarAction::RefreshLink
        }),
{
}

/// The decision does not favour a side: seen from the other side (the two
/// change times, the two change flags and the preferred side swapped) it is
/// the mirrored action.
pub proof fn lemma_linked_action_mirror(
    local_updated: int,
    remote_updated: int,
    local_changed: bool,
    remote_changed: bool,
    prefer_local: bool,
)
    ensures
        linked_calendar_action_spec(remote_updated, Some(local_updated), remote_changed, local_changed, !prefer_local)
            == mirrored_action(
            linked_calendar_action_spec(local_updated, Some(remote_updated), local_changed, remote_changed, prefer_local),
        ),
{
}

/// Decides what to do with a linked event (see `linked_calendar_action_spec`).
pub fn linked_calendar_action(
    local_updated: i64,
    remote_updated: Option<i64>,
    local_changed_since_sync: bool,
    remote_changed_since_sync: bool,
    prefer_local_changes: bool,
) -> (r: LinkedCalendarAction)
    ensures
        r == linked_calendar_action_spec(
            local_updated as int,
            match remote_updated {
                Some(x) => Some(x as int),
                None => None,
            },
            local_changed_since_sync,
            remote_changed_since_sync,
            prefer_local_changes,
        ),
        // a side that alone changed wins whatever the clocks say
        local_changed_since_sync && !remote_changed_since_sync ==> r
            == LinkedCalendarAction::PushLocal,
        !local_changed_since_sync && remote_changed_since_sync ==> r
            == LinkedCalendarAction::PullRemote,
        // no change on either side never moves data
        !local_changed_since_sync && !remote_changed_since_sync ==> r
            == LinkedCalendarAction::RefreshLink,
{
    match (local_changed_since_sync, remote_changed_since_sync) {
        (true, false) => LinkedCalendarAction::PushLocal,
        (false, true) => LinkedCalendarAction::PullRemote,
        (false, false) => LinkedCalendarAction::RefreshLink,
        (true, true) => {
            if let Some(remote_updated) = remote_updated {
                let local_wide: i128 = local_updated as i128;
                let remote_wide: i128 = remote_updated as i128;
                if local_wide > remote_wide + 1000 {
                    return LinkedCalendarAction::PushLocal;
                }
                if remote_wide > local_wide + 1000 {
                    return LinkedCalendarAction::PullRemote;
                }
            }
            if prefer_local_changes {
                LinkedCalendarAction::PushLocal
            } else {
                LinkedCalendarAction::PullRemote
            }
        },
    }
}

/// The unit separator that joins fingerprint fields.
pub open spec fn fingerprint_separator() -> Seq<char> {
    seq!['\u{1f}']
}

/// The content fingerprint of a calendar entry: date, start and end minute,
/// title and note, trimmed, joined by U+001F.
pub open spec fn calendar_fingerprint_spec(
    schedule_date: Seq<char>,
    start_minute: int,
    end_minute: int,
    title: Seq<char>,
    note: Option<Seq<char>>,
) -> Seq<char> {
    let note_text = match note {
        Some(n) => n,
        None => Seq::<char>::empty(),
    };
    join_spec(
        seq![
            trim_spec(schedule_date),
            int_decimal(start_minute),
            int_decimal(end_minute),
            trim_spec(title),
            trim_spec(note_text),
        ],
        fingerprint_separator(),
    )
}

/// Whether a text holds no fingerprint separator.
pub open spec fn lacks_separator(s: Seq<char>) -> bool {
    forall|i: int| 0 <= i < s.len() ==> s[i] != '\u{1f}'
}

proof fn lemma_decimal_lacks_separator(n: int)
    ensures
        lacks_separator(int_decimal(n)),
{
    let m: nat = if n < 0 { (-n) as nat } else { n as nat };
    crate::text::lemma_nat_decimal_digits(m);
    let x = int_decimal(n);
    assert forall|i: int| 0 <= i < x.len() implies x[i] != '\u{1f}' by {
        if n < 0 {
            if i > 0 {
                assert(x[i] == nat_decimal(m)[i - 1]);
                assert(is_digit(nat_decimal(m)[i - 1]));
            }
        } else {
            assert(is_digit(nat_decimal(m)[i]));
        }
    }
}

/// Two calendar entries have the same fingerprint exactly when their
/// trimmed dates, minutes, trimmed titles and trimmed notes (a missing note
/// counting as empty) are the same, for texts without the separator U+001F.
pub proof fn lemma_fingerprint_injective(
    d1: Seq<char>,
    s1: int,
    e1: int,
    t1: Seq<char>,
    n1: Option<Seq<char>>,
    d2: Seq<char>,
    s2: int,
    e2: int,
    t2: Seq<char>,
    n2: Option<Seq<char>>,
)
    requires
        lacks_separator(d1) && lacks_separator(t1),
        lacks_separator(d2) && lacks_separator(t2),
        n1 matches Some(n) ==> lacks_separator(n),
        n2 matches Some(n) ==> lacks_separator(n),
    ensures
        calendar_fingerprint_spec(d1, s1, e1, t1, n1) == calendar_fingerprint_spec(d2, s2, e2, t2, n2) <==> (
        trim_spec(d1) == trim_spec(d2) && s1 == s2 && e1 == e2 && trim_spec(t1) == trim_spec(t2)
            && trim_spec(note_text(n1)) == trim_spec(note_text(n2))),
{
    let p1 = seq![trim_spec(d1), int_decimal(s1), int_decimal(e1), trim_spec(t1), trim_spec(note_text(n1))];
    let p2 = seq![trim_spec(d2), int_decimal(s2), int_decimal(e2), trim_spec(t2), trim_spec(note_text(n2))];
    assert(calendar_fingerprint_spec(d1, s1, e1, t1, n1) == join_spec(p1, seq!['\u{1f}']));
    assert(calendar_fingerprint_spec(d2, s2, e2, t2, n2) == join_spec(p2, seq!['\u{1f}']));
    lemma_parts_lack_separator(d1, s1, e1, t1, n1);
    lemma_parts_lack_separator(d2, s2, e2, t2, n2);
    if join_spec(p1, seq!['\u{1f}']) == join_spec(p2, seq!['\u{1f}']) {
        crate::text::lemma_split_join_char(p1, '\u{1f}');
        crate::text::lemma_split_join_char(p2, '\u{1f}');
        assert(p1 == p2);
        assert(p1[1] == p2[1] && p1[2] == p2[2]);
        crate::text::lemma_int_decimal_injective(s1, s2);
        crate::text::lemma_int_decimal_injective(e1, e2);
    }
}

/// The note text a fingerprint reads: empty for a missing note.
pub open spec fn note_text(n: Option<Seq<char>>) -> Seq<char> {
    match n {
        Some(t) => t,
        None => Seq::<char>::empty(),
    }
}

proof fn lemma_parts_lack_separator(d: Seq<char>, s: int, e: int, t: Seq<char>, n: Option<Seq<char>>)
    requires
        lacks_separator(d) && lacks_separator(t),
        n matches Some(x) ==> lacks_separator(x),
    ensures
        ({
            let p = seq![trim_spec(d), int_decimal(s), int_decimal(e), trim_spec(t), trim_spec(note_text(n))];
            forall|i: int, j: int| 0 <= i < p.len() && 0 <= j < p[i].len() ==> p[i][j] != '\u{1f}'
        }),
{
    crate::text::lemma_trim_keeps_absent(d, '\u{1f}');
    crate::text::lemma_trim_keeps_absent(t, '\u{1f}');
    crate::text::lemma_trim_keeps_absent(note_text(n), '\u{1f}');
    lemma_decimal_lacks_separator(s);
    lemma_decimal_lacks_separator(e);
    let p = seq![trim_spec(d), int_decimal(s), int_decimal(e), trim_spec(t), trim_spec(note_text(n))];
    assert forall|i: int, j: int| 0 <= i < p.len() && 0 <= j < p[i].len() implies p[i][j] != '\u{1f}' by {
        if i == 0 {
            assert(p[0] == trim_spec(d));
        } else if i == 1 {
            assert(p[1] == int_decimal(s));
        } else if i == 2 {
            assert(p[2] == int_decimal(e));
        } else if i == 3 {
            assert(p[3] == trim_spec(t));
        } else {
            assert(p[4] == trim_spec(note_text(n)));
        }
    }
}

/// The content fingerprint of a calendar entry.
pub fn calendar_fingerprint(
    schedule_date: &str,
    start_minute: i64,
    end_minute: i64,
    title: &str,
    note: Option<&str>,
) -> (r: String)
    ensures
        r@ == calendar_fingerprint_spec(
            schedule_date@,
            start_minute as int,
            end_minute as int,
            title@,
            opt_str_view(note),
        ),
{
    let mut parts: Vec<String> = Vec::new();
    parts.push(trim(schedule_date));
    parts.push(i64_to_string(start_minute));
    parts.push(i64_to_string(end_minute));
    parts.push(trim(title));
    let n = match note {
        Some(n) => trim(n),
        None => {
            let e = String::new();
            assert(trim_spec(Seq::<char>::empty()) =~= Seq::<char>::empty());
            e
        },
    };
    parts.push(n);
    let mut sep = String::new();
    push_char(&mut sep, '\u{1f}');
    assert(sep@ =~= fingerprint_separator());
    let r = join_strings(&parts, sep.as_str());
    let ghost note_text = match opt_str_view(note) {
        Some(n) => n,
        None => Seq::empty(),
    };
    assert(n@ == trim_spec(note_text));
    assert(strings_view(parts@) =~= seq![
        trim_spec(schedule_date@),
        int_decimal(start_minute as int),
        int_decimal(end_minute as int),
        trim_spec(title@),
        trim_spec(note_text),
    ]);
    r
}

/// The fingerprint of a local schedule block.
pub fn local_calendar_block_fingerprint(block: &LocalCalendarBlock) -> (r: String)
    ensures
        r@ == calendar_fingerprint_spec(
            block.schedule_date@,
            block.start_minute as int,
            block.end_minute as int,
            block.title@,
            opt_view(block.note),
        ),
{
    let note = match &block.note {
        Some(n) => Some(n.as_str()),
        None => None,
    };
    calendar_fingerprint(
        block.schedule_date.as_str(),
        block.start_minute,
        block.end_minute,
        block.title.as_str(),
        note,
    )
}

/// The fingerprint of a remote event.
pub fn remote_event_fingerprint(remote: &RemoteCalendarEvent) -> (r: String)
    ensures
        r@ == calendar_fingerprint_spec(
            remote.schedule_date@,
            remote.start_minute as int,
            remote.end_minute as int,
            remote.title@,
            opt_view(remote.note),
        ),
{
    let note = match &remote.note {
        Some(n) => Some(n.as_str()),
        None => None,
    };
    calendar_fingerprint(
        remote.schedule_date.as_str(),
        remote.start_minute,
        remote.end_minute,
        remote.title.as_str(),
        note,
    )
}

} // verus!

verus! {

/// Property fields of the first VEVENT, in the order they were read; a later
/// field of the same name replaces an earlier one.
pub open spec fn field_lookup(fields: Seq<(Seq<char>, Seq<char>)>, key: Seq<char>) -> Option<
    Seq<char>,
>
    decreases fields.len(),
{
    if fields.len() == 0 {
        None
    } else if fields.last().0 == key {
        Some(fields.last().1)
    } else {
        field_lookup(fields.drop_last(), key)
    }
}

/// The state of the scan for the first VEVENT's properties.
pub struct FieldScan {
    pub in_event: bool,
    pub done: bool,
    pub fields: Seq<(Seq<char>, Seq<char>)>,
}

/// One line of the scan: `BEGIN:VEVENT` opens the event, `END:VEVENT` ends
/// the scan, property lines inside the event are recorded with their name
/// upper-cased and their value unescaped.
pub open spec fn field_scan_step(st: FieldScan, raw: Seq<char>) -> FieldScan {
    let line = trim_end_char_spec(raw, '\r');
    if st.done {
        st
    } else if line == "BEGIN:VEVENT"@ {
        FieldScan { in_event: true, ..st }
    } else if line == "END:VEVENT"@ {
        FieldScan { done: true, ..st }
    } else if !st.in_event {
        st
    } else {
        match split_once_spec(line, ':') {
            None => st,
            Some(p) => FieldScan {
                fields: st.fields.push((property_key_spec(p.0), unescape_ics_spec(p.1))),
                ..st
            },
        }
    }
}

pub open spec fn field_scan(st: FieldScan, lines: Seq<Seq<char>>) -> FieldScan
    decreases lines.len(),
{
    if lines.len() == 0 {
        st
    } else {
        field_scan(field_scan_step(st, lines[0]), lines.drop_first())
    }
}

/// The properties of the first VEVENT of an ICS text.
pub open spec fn ics_fields_spec(ics: Seq<char>) -> Seq<(Seq<char>, Seq<char>)> {
    field_scan(
        FieldScan { in_event: false, done: false, fields: Seq::empty() },
        unfold_ics_lines_spec(ics),
    ).fields
}

/// An ICS date or date-time value read as a day number from the Common Era and
/// a second of the day: surrounding white space and a trailing `Z` are
/// dropped, an 8-byte value is a date (`%Y%m%d`) at midnight, anything else is
/// read as `%Y%m%dT%H%M%S` or else `%Y%m%dT%H%M`.
pub open spec fn ics_naive_spec(value: Seq<char>) -> Result<(int, int), Seq<char>> {
    let normalized = trim_end_char_spec(trim_spec(value), 'Z');
    if encode_utf8(normalized).len() == 8 {
        match naive_date_parse_result(normalized, "%Y%m%d"@) {
            Ok(d) => Ok((d, 0)),
            Err(e) => Err(e),
        }
    } else {
        match naive_datetime_parse_result(normalized, "%Y%m%dT%H%M%S"@) {
            Ok(p) => Ok(p),
            Err(_) => naive_datetime_parse_result(normalized, "%Y%m%dT%H%M"@),
        }
    }
}

/// An ICS date-time as a `YYYY-MM-DD` date and a minute of the day.
pub open spec fn ics_date_minute_spec(value: Seq<char>) -> Result<(Seq<char>, int), Seq<char>> {
    match ics_naive_spec(value) {
        Err(e) => Err(e),
        Ok(p) => match naive_format_result(p.0, 0, "%Y-%m-%d"@) {
            Some(date) => Ok((date, p.1 / 60)),
            None => Err(Seq::empty()),
        },
    }
}

/// An ICS date-time read as UTC, in milliseconds since the Unix epoch.
pub open spec fn ics_utc_millis_spec(value: Seq<char>) -> Option<int> {
    match ics_naive_spec(value) {
        Err(_) => None,
        Ok(p) => Some(utc_seconds_spec(p.0, p.1) * 1000),
    }
}

/// The end minute of an event: an end on another day than the start ends the
/// block at midnight, and an end not after the start becomes one hour after
/// the start, at most midnight.
pub open spec fn event_end_minute_spec(
    start_date: Seq<char>,
    start_minute: int,
    end_date: Seq<char>,
    end_minute: int,
) -> int {
    let e = if end_date != start_date {
        1440
    } else {
        end_minute
    };
    if e <= start_minute {
        if start_minute + 60 < 1440 {
            start_minute + 60
        } else {
            1440
        }
    } else {
        e
    }
}

/// The event read from the first VEVENT of an ICS text fetched from
/// `event_url`: none when the text has no VEVENT property, an error when
/// DTSTART or DTEND is missing or unreadable.
pub open spec fn parse_ics_event_spec(
    event_url: Seq<char>,
    etag: Option<Seq<char>>,
    ics: Seq<char>,
) -> Result<Option<RemoteEventView>, Seq<char>> {
    let fields = ics_fields_spec(ics);
    let title = match field_lookup(fields, "SUMMARY"@) {
        Some(t) => t,
        None => Seq::<char>::empty(),
    };
    let description = match field_lookup(fields, "DESCRIPTION"@) {
        Some(t) => t,
        None => Seq::<char>::empty(),
    };
    let marker = match field_lookup(fields, "X-KAOYAN-FOCUS-SYNC-ID"@) {
        Some(m) => Some(m),
        None => extract_marker_spec(description),
    };
    let stripped = strip_marker_spec(description);
    let note = if trim_spec(stripped).len() > 0 {
        Some(stripped)
    } else {
        None
    };
    let updated = match field_lookup(fields, "LAST-MODIFIED"@) {
        Some(v) => ics_utc_millis_spec(v),
        None => match field_lookup(fields, "DTSTAMP"@) {
            Some(v) => ics_utc_millis_spec(v),
            None => None,
        },
    };
    if fields.len() == 0 {
        Ok(None)
    } else {
        match field_lookup(fields, "DTSTART"@) {
            None => Err("VEVENT 缺少 DTSTART。"@),
            Some(start_raw) => match field_lookup(fields, "DTEND"@) {
                None => Err("VEVENT 缺少 DTEND。"@),
                Some(end_raw) => match ics_date_minute_spec(start_raw) {
                    Err(e) => Err(e),
                    Ok(s) => match ics_date_minute_spec(end_raw) {
                        Err(e) => Err(e),
                        Ok(e) => Ok(
                            Some(
                                RemoteEventView {
                                    id: event_url,
                                    etag: etag,
                                    title: title,
                                    note: note,
                                    schedule_date: s.0,
                                    start_minute: s.1,
                                    end_minute: event_end_minute_spec(s.0, s.1, e.0, e.1),
                                    updated_millis: updated,
                                    marker_sync_id: marker,
                                    raw_ics: ics,
                                },
                            ),
                        ),
                    },
                },
            },
        }
    }
}

/// Looks a property up; the last field of that name wins.
pub fn lookup_field(fields: &Vec<(String, String)>, key: &str) -> (r: Option<String>)
    ensures
        r matches Some(v) ==> field_lookup(fields_view(fields@), key@) == Some(v@),
        r is None ==> field_lookup(fields_view(fields@), key@) is None,
{
    let k = String::from_str(key);
    let mut i = fields.len();
    assert(fields_view(fields@).subrange(0, i as int) =~= fields_view(fields@));
    while i > 0
        invariant
            i <= fields@.len(),
            k@ == key@,
            field_lookup(fields_view(fields@), key@) == field_lookup(
                fields_view(fields@).subrange(0, i as int),
                key@,
            ),
        decreases i,
    {
        let ghost pre = fields_view(fields@).subrange(0, i as int);
        assert(pre.drop_last() =~= fields_view(fields@).subrange(0, i - 1));
        if fields[i - 1].0 == k {
            return Some(fields[i - 1].1.clone());
        }
        i -= 1;
    }
    None
}

/// The views of a list of property fields.
pub open spec fn fields_view(v: Seq<(String, String)>) -> Seq<(Seq<char>, Seq<char>)> {
    v.map_values(|p: (String, String)| (p.0@, p.1@))
}

/// The properties of the first VEVENT of an ICS text.
pub fn ics_fields(ics: &str) -> (r: Vec<(String, String)>)
    ensures
        fields_view(r@) == ics_fields_spec(ics@),
{
    let lines = unfold_ics_lines(ics);
    let ghost lv = strings_view(lines@);
    let begin = String::from_str("BEGIN:VEVENT");
    let end = String::from_str("END:VEVENT");
    let mut fields: Vec<(String, String)> = Vec::new();
    let mut in_event = false;
    let mut i: usize = 0;
    assert(lv.skip(0) =~= lv);
    assert(fields_view(fields@) =~= Seq::<(Seq<char>, Seq<char>)>::empty());
    while i < lines.len()
        invariant
            i <= lines@.len(),
            lv == strings_view(lines@),
            lv == unfold_ics_lines_spec(ics@),
            begin@ == "BEGIN:VEVENT"@,
            end@ == "END:VEVENT"@,
            field_scan(
                FieldScan { in_event: in_event, done: false, fields: fields_view(fields@) },
                lv.skip(i as int),
            ).fields == ics_fields_spec(ics@),
        decreases lines.len() - i,
    {
        let ghost st = FieldScan { in_event: in_event, done: false, fields: fields_view(fields@) };
        assert(lv.skip(i as int).drop_first() =~= lv.skip(i + 1));
        assert(lv.skip(i as int)[0] == lines@[i as int]@);
        let line = trim_end_char(lines[i].as_str(), '\r');
        if line == begin {
            in_event = true;
        } else if line == end {
            proof {
                lemma_field_scan_done(
                    FieldScan { in_event: in_event, done: true, fields: fields_view(fields@) },
                    lv.skip(i + 1),
                );
            }
            return fields;
        } else if in_event {
            match split_once_char(line.as_str(), ':') {
                None => {},
                Some((name, value)) => {
                    let key = property_key(name.as_str());
                    let text = unescape_ics_text(value.as_str());
                    let ghost before = fields_view(fields@);
                    fields.push((key, text));
                    assert(fields_view(fields@) =~= before.push(
                        (property_key_spec(name@), unescape_ics_spec(value@)),
                    ));
                },
            }
        }
        i += 1;
    }
    proof {
        assert(lv.skip(i as int) =~= Seq::<Seq<char>>::empty());
    }
    fields
}

proof fn lemma_field_scan_done(st: FieldScan, lines: Seq<Seq<char>>)
    requires
        st.done,
    ensures
        field_scan(st, lines) == st,
    decreases lines.len(),
{
    if lines.len() > 0 {
        lemma_field_scan_done(field_scan_step(st, lines[0]), lines.drop_first());
    }
}

} // verus!

verus! {

/// An ICS date or date-time value as a day number and a second of the day
/// (see `ics_naive_spec`).
pub fn parse_ics_date_time_naive(value: &str) -> (r: Result<(i32, u32), String>)
    ensures
        match r {
            Ok(p) => ics_naive_spec(value@) == Ok::<(int, int), Seq<char>>(
                (p.0 as int, p.1 as int),
            ),
            Err(e) => ics_naive_spec(value@) == Err::<(int, int), Seq<char>>(e@),
        },
        r matches Ok(p) ==> p.1 < 86_400 && forall|f: Seq<char>|
            known_format(f) ==> (#[trigger] naive_format_result(p.0 as int, p.1 as int, f)) is Some,
{
    let t = trim(value);
    let normalized = trim_end_char(t.as_str(), 'Z');
    let n = normalized.as_str();
    let byte_len = n.as_bytes().len();
    if byte_len == 8 {
        match naive_date_parse(n, "%Y%m%d") {
            Ok(d) => Ok((d, 0)),
            Err(e) => Err(e),
        }
    } else {
        match naive_datetime_parse(normalized.as_str(), "%Y%m%dT%H%M%S") {
            Ok(p) => Ok(p),
            Err(_) => naive_datetime_parse(normalized.as_str(), "%Y%m%dT%H%M"),
        }
    }
}

/// An ICS date-time as a `YYYY-MM-DD` date and a minute of the day.
pub fn parse_ics_date_time(value: &str) -> (r: Result<(String, i64), String>)
    ensures
        match r {
            Ok(p) => ics_date_minute_spec(value@) == Ok::<(Seq<char>, int), Seq<char>>(
                (p.0@, p.1 as int),
            ),
            Err(e) => ics_date_minute_spec(value@) == Err::<(Seq<char>, int), Seq<char>>(e@),
        },
        r matches Ok(p) ==> 0 <= p.1 < 1440,
        r matches Ok(p) ==> crate::clock::written_date_shape(p.0@),
{
    let (days, secs) = parse_ics_date_time_naive(value)?;
    proof {
        reveal_strlit("%Y-%m-%d");
        assert("%Y-%m-%d"@ =~= seq!['%', 'Y', '-', '%', 'm', '-', '%', 'd']);
        assert(known_format("%Y-%m-%d"@));
        assert("%Y-%m-%d"@ =~= crate::clock::ymd_format());
    }
    match naive_format(days, secs, "%Y-%m-%d") {
        Some(date) => Ok((date, (secs / 60) as i64)),
        None => Err(String::new()),
    }
}

/// An ICS date-time read as UTC, in milliseconds since the Unix epoch.
pub fn parse_ics_utc_millis(value: &str) -> (r: Option<i64>)
    ensures
        r matches Some(m) ==> ics_utc_millis_spec(value@) == Some(m as int),
        r is None ==> ics_utc_millis_spec(value@) is None,
{
    match parse_ics_date_time_naive(value) {
        Err(_) => None,
        Ok((days, secs)) => {
            let d = days as i64 - 719_163;
            Some(d * 86_400_000 + (secs as i64) * 1000)
        },
    }
}

/// The end minute of an event (see `event_end_minute_spec`).
pub fn event_end_minute(start_date: &String, start_minute: i64, end_date: &String, end_minute: i64) -> (r: i64)
    requires
        0 <= start_minute < 1440,
    ensures
        r == event_end_minute_spec(start_date@, start_minute as int, end_date@, end_minute as int),
{
    let e = if *end_date != *start_date {
        1440
    } else {
        end_minute
    };
    if e <= start_minute {
        if start_minute + 60 < 1440 {
            start_minute + 60
        } else {
            1440
        }
    } else {
        e
    }
}

/// Reads the first VEVENT of an ICS text fetched from `event_url` (see
/// `parse_ics_event_spec`).
pub fn parse_ics_event(event_url: &str, etag: Option<&str>, ics: &str) -> (r: Result<
    Option<RemoteCalendarEvent>,
    String,
>)
    ensures
        match r {
            Ok(Some(ev)) => parse_ics_event_spec(event_url@, opt_str_view(etag), ics@) == Ok::<
                Option<RemoteEventView>,
                Seq<char>,
            >(Some(ev@)),
            Ok(None) => parse_ics_event_spec(event_url@, opt_str_view(etag), ics@) == Ok::<
                Option<RemoteEventView>,
                Seq<char>,
            >(None),
            Err(e) => parse_ics_event_spec(event_url@, opt_str_view(etag), ics@) == Err::<
                Option<RemoteEventView>,
                Seq<char>,
            >(e@),
        },
        // an event read is a block of one day, named by its address
        r matches Ok(Some(ev)) ==> {
            &&& 0 <= ev.start_minute < 1440
            &&& ev.start_minute < ev.end_minute <= 1440
            &&& ev.id@ == event_url@
            &&& opt_view(ev.etag) == opt_str_view(etag)
            &&& ev.raw_ics@ == ics@
            &&& exists|d: int, s: int| naive_format_result(d, s, "%Y-%m-%d"@) == Some(ev.schedule_date@)
            // `YYYY-MM-DD`, unless the year lies outside 0 to 9999
            &&& crate::clock::written_date_shape(ev.schedule_date@)
        },
{
    let fields = ics_fields(ics);
    if fields.len() == 0 {
        return Ok(None);
    }
    let title = match lookup_field(&fields, "SUMMARY") {
        Some(t) => t,
        None => String::new(),
    };
    let description = match lookup_field(&fields, "DESCRIPTION") {
        Some(t) => t,
        None => String::new(),
    };
    let marker_sync_id = match lookup_field(&fields, "X-KAOYAN-FOCUS-SYNC-ID") {
        Some(m) => Some(m),
        None => extract_marker(description.as_str()),
    };
    let stripped = strip_marker(description.as_str());
    let note = if !trim_is_empty(stripped.as_str()) {
        Some(stripped)
    } else {
        None
    };
    let start_raw = match lookup_field(&fields, "DTSTART") {
        Some(v) => v,
        None => return Err(String::from_str("VEVENT 缺少 DTSTART。")),
    };
    let end_raw = match lookup_field(&fields, "DTEND") {
        Some(v) => v,
        None => return Err(String::from_str("VEVENT 缺少 DTEND。")),
    };
    let (schedule_date, start_minute) = parse_ics_date_time(start_raw.as_str())?;
    let (end_date, end_minute_raw) = parse_ics_date_time(end_raw.as_str())?;
    let end_minute = event_end_minute(&schedule_date, start_minute, &end_date, end_minute_raw);
    let updated_millis = match lookup_field(&fields, "LAST-MODIFIED") {
        Some(v) => parse_ics_utc_millis(v.as_str()),
        None => match lookup_field(&fields, "DTSTAMP") {
            Some(v) => parse_ics_utc_millis(v.as_str()),
            None => None,
        },
    };
    let etag_owned = match etag {
        Some(e) => Some(String::from_str(e)),
        None => None,
    };
    Ok(
        Some(
            RemoteCalendarEvent {
                id: String::from_str(event_url),
                etag: etag_owned,
                title,
                note,
                schedule_date,
                start_minute,
                end_minute,
                updated_millis,
                marker_sync_id,
                raw_ics: String::from_str(ics),
            },
        ),
    )
}

} // verus!

verus! {

/// The state of a property rewrite of the first VEVENT.
pub struct RewriteScan {
    pub result: Seq<Seq<char>>,
    pub in_event: bool,
    pub event_done: bool,
    pub skipping: bool,
    pub saw_uid: bool,
    pub inserted: bool,
}

/// The content line `NAME:value` of a property, with the name upper-cased.
pub open spec fn property_line_spec(p: (Seq<char>, Seq<char>)) -> Seq<char> {
    upper_spec(p.0) + seq![':'] + p.1
}

/// The content lines of all `props`, in order.
pub open spec fn property_lines(props: Seq<(Seq<char>, Seq<char>)>) -> Seq<Seq<char>> {
    props.map_values(|p: (Seq<char>, Seq<char>)| property_line_spec(p))
}

/// Whether `name` is one of the (upper-cased) property names being replaced.
pub open spec fn replaces_name(props: Seq<(Seq<char>, Seq<char>)>, name: Seq<char>) -> bool {
    exists|i: int| 0 <= i < props.len() && upper_spec(#[trigger] props[i].0) == name
}

/// One line of the rewrite: inside the first VEVENT, lines of replaced
/// properties (with their continuation lines) are dropped and the new
/// property lines are written just before `END:VEVENT`; every other line is
/// kept. A `UID` property inside the event is noted.
pub open spec fn rewrite_step(
    props: Seq<(Seq<char>, Seq<char>)>,
    st: RewriteScan,
    line: Seq<char>,
) -> RewriteScan {
    let t = trim_end_char_spec(line, '\r');
    if st.skipping && is_continuation_spec(line) {
        st
    } else if !st.event_done && t == "BEGIN:VEVENT"@ {
        RewriteScan { result: st.result.push(line), in_event: true, skipping: false, ..st }
    } else if st.in_event && t == "END:VEVENT"@ {
        RewriteScan {
            result: (st.result + property_lines(props)).push(line),
            in_event: false,
            event_done: true,
            skipping: false,
            inserted: true,
            ..st
        }
    } else if st.in_event && ics_property_name_spec(line) is Some {
        let name = ics_property_name_spec(line)->0;
        let saw = st.saw_uid || name == "UID"@;
        if replaces_name(props, name) {
            RewriteScan { skipping: true, saw_uid: saw, ..st }
        } else {
            RewriteScan { result: st.result.push(line), skipping: false, saw_uid: saw, ..st }
        }
    } else {
        RewriteScan { result: st.result.push(line), skipping: false, ..st }
    }
}

pub open spec fn rewrite_fold(
    props: Seq<(Seq<char>, Seq<char>)>,
    st: RewriteScan,
    lines: Seq<Seq<char>>,
) -> RewriteScan
    decreases lines.len(),
{
    if lines.len() == 0 {
        st
    } else {
        rewrite_fold(props, rewrite_step(props, st, lines[0]), lines.drop_first())
    }
}

pub open spec fn rewrite_initial() -> RewriteScan {
    RewriteScan {
        result: Seq::empty(),
        in_event: false,
        event_done: false,
        skipping: false,
        saw_uid: false,
        inserted: false,
    }
}

/// The ICS text with the given properties of its first VEVENT replaced; an
/// error when the event is not closed or has no UID (writing it back could
/// then duplicate the remote event).
pub open spec fn rewrite_first_vevent_spec(
    raw_ics: Seq<char>,
    props: Seq<(Seq<char>, Seq<char>)>,
) -> Result<Seq<char>, Seq<char>> {
    let st = rewrite_fold(props, rewrite_initial(), split_ics_lines_spec(raw_ics));
    if !st.inserted {
        Err("VEVENT 缺少 END:VEVENT，无法安全写入 CalDAV 同步标记。"@)
    } else if !st.saw_uid {
        Err("VEVENT 缺少 UID，拒绝覆盖远端事件以避免产生重复日程。"@)
    } else {
        Ok(normalize_ics_lines_spec(st.result))
    }
}

/// Whether `name` is the upper-cased name of one of `props`.
fn replaces_name_exec(props: &Vec<(String, String)>, name: &String) -> (b: bool)
    ensures
        b == replaces_name(fields_view(props@), name@),
{
    let mut i: usize = 0;
    while i < props.len()
        invariant
            i <= props@.len(),
            forall|j: int| 0 <= j < i ==> upper_spec(fields_view(props@)[j].0) != name@,
        decreases props.len() - i,
    {
        let upper = to_ascii_uppercase(props[i].0.as_str());
        if upper == *name {
            assert(upper_spec(fields_view(props@)[i as int].0) == name@);
            return true;
        }
        i += 1;
    }
    false
}

/// Rewrites the given properties of the first VEVENT of an ICS text (see
/// `rewrite_first_vevent_spec`).
pub fn rewrite_first_vevent_properties(raw_ics: &str, properties: &Vec<(String, String)>) -> (r:
    Result<String, String>)
    ensures
        match r {
            Ok(s) => rewrite_first_vevent_spec(raw_ics@, fields_view(properties@)) == Ok::<
                Seq<char>,
                Seq<char>,
            >(s@),
            Err(e) => rewrite_first_vevent_spec(raw_ics@, fields_view(properties@)) == Err::<
                Seq<char>,
                Seq<char>,
            >(e@),
        },
{
    let ghost props = fields_view(properties@);
    let lines = split_ics_lines(raw_ics);
    let ghost lv = strings_view(lines@);
    let begin = String::from_str("BEGIN:VEVENT");
    let end = String::from_str("END:VEVENT");
    let uid = String::from_str("UID");
    let mut result: Vec<String> = Vec::new();
    let mut in_event = false;
    let mut event_done = false;
    let mut skipping = false;
    let mut saw_uid = false;
    let mut inserted = false;
    let mut i: usize = 0;
    assert(lv.skip(0) =~= lv);
    assert(strings_view(result@) =~= Seq::<Seq<char>>::empty());
    while i < lines.len()
        invariant
            i <= lines@.len(),
            lv == strings_view(lines@),
            lv == split_ics_lines_spec(raw_ics@),
            props == fields_view(properties@),
            begin@ == "BEGIN:VEVENT"@,
            end@ == "END:VEVENT"@,
            uid@ == "UID"@,
            rewrite_fold(
                props,
                RewriteScan {
                    result: strings_view(result@),
                    in_event: in_event,
                    event_done: event_done,
                    skipping: skipping,
                    saw_uid: saw_uid,
                    inserted: inserted,
                },
                lv.skip(i as int),
            ) == rewrite_fold(props, rewrite_initial(), lv),
        decreases lines.len() - i,
    {
        assert(lv.skip(i as int).drop_first() =~= lv.skip(i + 1));
        assert(lv.skip(i as int)[0] == lines@[i as int]@);
        let line = &lines[i];
        let ghost before = strings_view(result@);
        let cont = is_ics_continuation_line(line.as_str());
        if skipping && cont {
            i += 1;
            continue;
        }
        skipping = false;
        let t = trim_end_char(line.as_str(), '\r');
        if !event_done && t == begin {
            in_event = true;
            result.push(line.clone());
            assert(strings_view(result@) =~= before.push(line@));
        } else if in_event && t == end {
            let mut k: usize = 0;
            while k < properties.len()
                invariant
                    k <= properties@.len(),
                    props == fields_view(properties@),
                    strings_view(result@) == before + property_lines(props.subrange(0, k as int)),
                decreases properties.len() - k,
            {
                let mut prop_line = to_ascii_uppercase(properties[k].0.as_str());
                push_char(&mut prop_line, ':');
                push_str(&mut prop_line, properties[k].1.as_str());
                let ghost b2 = strings_view(result@);
                assert(props[k as int] == (properties@[k as int].0@, properties@[k as int].1@));
                assert(prop_line@ =~= property_line_spec(props[k as int]));
                result.push(prop_line);
                assert(strings_view(result@) =~= b2.push(property_line_spec(props[k as int])));
                assert(property_lines(props.subrange(0, k + 1)) =~= property_lines(
                    props.subrange(0, k as int),
                ).push(property_line_spec(props[k as int])));
                k += 1;
            }
            assert(props.subrange(0, props.len() as int) =~= props);
            let ghost b3 = strings_view(result@);
            result.push(line.clone());
            assert(strings_view(result@) =~= b3.push(line@));
            inserted = true;
            in_event = false;
            event_done = true;
        } else if in_event {
            match ics_property_name(line.as_str()) {
                Some(name) => {
                    if name == uid {
                        saw_uid = true;
                    }
                    if replaces_name_exec(properties, &name) {
                        skipping = true;
                    } else {
                        result.push(line.clone());
                        assert(strings_view(result@) =~= before.push(line@));
                    }
                },
                None => {
                    result.push(line.clone());
                    assert(strings_view(result@) =~= before.push(line@));
                },
            }
        } else {
            result.push(line.clone());
            assert(strings_view(result@) =~= before.push(line@));
        }
        i += 1;
    }
    assert(lv.skip(i as int) =~= Seq::<Seq<char>>::empty());
    if !inserted {
        return Err(String::from_str("VEVENT 缺少 END:VEVENT，无法安全写入 CalDAV 同步标记。"));
    }
    if !saw_uid {
        return Err(String::from_str("VEVENT 缺少 UID，拒绝覆盖远端事件以避免产生重复日程。"));
    }
    Ok(normalize_ics_lines(result))
}

} // verus!
