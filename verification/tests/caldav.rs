use kaoyan_focus::caldav_sync::basic_auth_header;
use kaoyan_focus::caldav::{linked_calendar_action, parse_ics_event, LinkedCalendarAction, LocalCalendarBlock};
use kaoyan_focus::caldav_ics::{build_ics_event, build_ics_event_from_existing_remote, mark_remote_ics_with_sync_marker};
use kaoyan_focus::caldav_multistatus::{parse_calendar_discovery_response, parse_calendar_query_response};

fn sample_block() -> LocalCalendarBlock {
    LocalCalendarBlock {
        id: 7,
        sync_id: "schedule_block-7".to_string(),
        schedule_date: "2026-06-18".to_string(),
        title: "数学真题".to_string(),
        note: Some("2008 第一套".to_string()),
        start_minute: 8 * 60 + 30,
        end_minute: 10 * 60,
        status: "planned".to_string(),
        updated_at: "2026-06-18T00:00:00Z".to_string(),
        deleted_at: None,
    }
}

#[test]
fn ics_roundtrip_preserves_schedule_block_fields_and_marker() {
    let block = sample_block();
    let ics = build_ics_event(&block, "Asia/Shanghai").expect("build ics");

    assert!(ics.contains("BEGIN:VEVENT"));
    assert!(ics.contains("UID:schedule_block-7@kaoyan-focus"));
    assert!(ics.contains("SUMMARY:数学真题"));
    assert!(ics.contains("X-KAOYAN-FOCUS-SYNC-ID:schedule_block-7"));

    let parsed = parse_ics_event("https://cal.example/cal/7.ics", Some("\"etag-7\""), &ics)
        .expect("parse event")
        .expect("has event");
    assert_eq!(parsed.id, "https://cal.example/cal/7.ics");
    assert_eq!(parsed.title, "数学真题");
    assert_eq!(parsed.note.as_deref(), Some("2008 第一套"));
    assert_eq!(parsed.schedule_date, "2026-06-18");
    assert_eq!(parsed.start_minute, 510);
    assert_eq!(parsed.end_minute, 600);
    assert_eq!(parsed.marker_sync_id.as_deref(), Some("schedule_block-7"));
    assert_eq!(parsed.etag.as_deref(), Some("\"etag-7\""));
}

#[test]
fn marker_writeback_preserves_remote_uid_for_imported_event() {
    let remote_ics = [
        "BEGIN:VCALENDAR",
        "VERSION:2.0",
        "PRODID:-//Example//Calendar//EN",
        "BEGIN:VEVENT",
        "UID:iphone-event-1",
        "DTSTAMP:20260618T000000Z",
        "DTSTART:20260618T083000",
        "DTEND:20260618T093000",
        "SUMMARY:iPhone 修改的日程",
        "DESCRIPTION:从手机创建",
        "END:VEVENT",
        "END:VCALENDAR",
        "",
    ]
    .join("\r\n");

    let marked = mark_remote_ics_with_sync_marker(&remote_ics, "schedule_block-42").expect("mark ics");

    assert!(marked.contains("UID:iphone-event-1"));
    assert!(!marked.contains("UID:schedule_block-42@kaoyan-focus"));
    assert!(marked.contains("X-KAOYAN-FOCUS-SYNC-ID:schedule_block-42"));

    let parsed = parse_ics_event("https://cal.example/cal/plain.ics", None, &marked)
        .expect("parse marked event")
        .expect("has event");
    assert_eq!(parsed.marker_sync_id.as_deref(), Some("schedule_block-42"));
    assert_eq!(parsed.note.as_deref(), Some("从手机创建"));
}

#[test]
fn local_push_to_imported_event_preserves_remote_uid() {
    let remote_ics = [
        "BEGIN:VCALENDAR",
        "VERSION:2.0",
        "PRODID:-//Example//Calendar//EN",
        "BEGIN:VEVENT",
        "UID:iphone-event-1",
        "DTSTAMP:20260618T000000Z",
        "DTSTART:20260618T083000",
        "DTEND:20260618T093000",
        "SUMMARY:旧标题",
        "DESCRIPTION:旧备注",
        "END:VEVENT",
        "END:VCALENDAR",
        "",
    ]
    .join("\r\n");
    let block = sample_block();

    let updated = build_ics_event_from_existing_remote(&remote_ics, &block, "Asia/Shanghai")
        .expect("build existing event update");

    assert!(updated.contains("UID:iphone-event-1"));
    assert!(!updated.contains("UID:schedule_block-7@kaoyan-focus"));
    assert!(updated.contains("SUMMARY:数学真题"));
    assert!(updated.contains("X-KAOYAN-FOCUS-SYNC-ID:schedule_block-7"));

    let parsed = parse_ics_event("https://cal.example/cal/plain.ics", None, &updated)
        .expect("parse updated event")
        .expect("has event");
    assert_eq!(parsed.marker_sync_id.as_deref(), Some("schedule_block-7"));
    assert_eq!(parsed.title, "数学真题");
    assert_eq!(parsed.note.as_deref(), Some("2008 第一套"));
    assert_eq!(parsed.schedule_date, "2026-06-18");
    assert_eq!(parsed.start_minute, 510);
    assert_eq!(parsed.end_minute, 600);
}

#[test]
fn parses_caldav_calendar_discovery_multistatus() {
    let xml = r#"<?xml version="1.0" encoding="utf-8"?>
        <d:multistatus xmlns:d="DAV:" xmlns:cs="http://calendarserver.org/ns/" xmlns:cal="urn:ietf:params:xml:ns:caldav">
          <d:response>
            <d:href>/calendars/user/study/</d:href>
            <d:propstat>
              <d:prop>
                <d:displayname>考研专注</d:displayname>
                <d:resourcetype><d:collection/><cal:calendar/></d:resourcetype>
                <cal:supported-calendar-component-set>
                  <cal:comp name="VEVENT"/>
                </cal:supported-calendar-component-set>
                <d:current-user-privilege-set>
                  <d:privilege><d:read/></d:privilege>
                  <d:privilege><d:write/></d:privilege>
                </d:current-user-privilege-set>
              </d:prop>
              <d:status>HTTP/1.1 200 OK</d:status>
            </d:propstat>
          </d:response>
          <d:response>
            <d:href>/calendars/user/birthdays/</d:href>
            <d:propstat>
              <d:prop>
                <d:displayname>Birthdays</d:displayname>
                <d:resourcetype><d:collection/><cal:calendar/></d:resourcetype>
                <cal:supported-calendar-component-set><cal:comp name="VTODO"/></cal:supported-calendar-component-set>
              </d:prop>
              <d:status>HTTP/1.1 200 OK</d:status>
            </d:propstat>
          </d:response>
          <d:response>
            <d:href>/calendars/user/readonly/</d:href>
            <d:propstat>
              <d:prop>
                <d:displayname>Read Only</d:displayname>
                <d:resourcetype><d:collection/><cal:calendar/></d:resourcetype>
                <cal:supported-calendar-component-set><cal:comp name="VEVENT"/></cal:supported-calendar-component-set>
                <d:current-user-privilege-set>
                  <d:privilege><d:read/></d:privilege>
                </d:current-user-privilege-set>
              </d:prop>
              <d:status>HTTP/1.1 200 OK</d:status>
            </d:propstat>
          </d:response>
        </d:multistatus>"#;

    let calendars = parse_calendar_discovery_response("https://cal.example", xml).expect("parse calendars");
    assert_eq!(calendars.len(), 1);
    assert_eq!(calendars[0].name, "考研专注");
    assert_eq!(calendars[0].url, "https://cal.example/calendars/user/study/");
    assert!(calendars[0].writable);
}

#[test]
fn discovery_accepts_common_caldav_writable_privileges_and_missing_component_set() {
    let xml = r#"<?xml version="1.0" encoding="utf-8"?>
        <d:multistatus xmlns:d="DAV:" xmlns:cal="urn:ietf:params:xml:ns:caldav">
          <d:response>
            <d:href>/calendars/user/icloud-style/</d:href>
            <d:propstat>
              <d:prop>
                <d:displayname>iCloud Style</d:displayname>
                <d:resourcetype><d:collection/><cal:calendar/></d:resourcetype>
                <d:current-user-privilege-set>
                  <d:privilege><d:read/></d:privilege>
                  <d:privilege><d:all/></d:privilege>
                </d:current-user-privilege-set>
              </d:prop>
              <d:status>HTTP/1.1 200 OK</d:status>
            </d:propstat>
          </d:response>
          <d:response>
            <d:href>/calendars/user/bind-style/</d:href>
            <d:propstat>
              <d:prop>
                <d:displayname>Bind Style</d:displayname>
                <d:resourcetype><d:collection/><cal:calendar/></d:resourcetype>
                <cal:supported-calendar-component-set><cal:comp name="VEVENT"/></cal:supported-calendar-component-set>
                <d:current-user-privilege-set>
                  <d:privilege><d:read/></d:privilege>
                  <d:privilege><d:bind/></d:privilege>
                </d:current-user-privilege-set>
              </d:prop>
              <d:status>HTTP/1.1 200 OK</d:status>
            </d:propstat>
          </d:response>
        </d:multistatus>"#;

    let calendars = parse_calendar_discovery_response("https://cal.example", xml).expect("parse calendars");
    assert_eq!(calendars.len(), 2);
    assert_eq!(calendars[0].name, "iCloud Style");
    assert_eq!(calendars[1].name, "Bind Style");
    assert!(calendars.iter().all(|calendar| calendar.writable));
}

#[test]
fn parses_calendar_query_events_with_etags() {
    let xml = r#"<?xml version="1.0" encoding="utf-8"?>
        <d:multistatus xmlns:d="DAV:" xmlns:cal="urn:ietf:params:xml:ns:caldav">
          <d:response>
            <d:href>/calendars/user/study/event-1.ics</d:href>
            <d:propstat>
              <d:prop>
                <d:getetag>"event-1"</d:getetag>
                <cal:calendar-data>BEGIN:VCALENDAR&#13;
VERSION:2.0&#13;
BEGIN:VEVENT&#13;
UID:remote-1&#13;
DTSTAMP:20260618T000000Z&#13;
DTSTART:20260618T083000&#13;
DTEND:20260618T093000&#13;
SUMMARY:英语阅读&#13;
DESCRIPTION:Text 1&#13;
END:VEVENT&#13;
END:VCALENDAR&#13;
</cal:calendar-data>
              </d:prop>
              <d:status>HTTP/1.1 200 OK</d:status>
            </d:propstat>
          </d:response>
        </d:multistatus>"#;

    let events = parse_calendar_query_response("https://cal.example", xml).expect("events");
    assert_eq!(events.len(), 1);
    assert_eq!(events[0].id, "https://cal.example/calendars/user/study/event-1.ics");
    assert_eq!(events[0].etag.as_deref(), Some("\"event-1\""));
    assert_eq!(events[0].title, "英语阅读");
    assert_eq!(events[0].schedule_date, "2026-06-18");
    assert_eq!(events[0].start_minute, 510);
    assert_eq!(events[0].end_minute, 570);
    assert!(events[0].marker_sync_id.is_none());
}

#[test]
fn linked_calendar_action_uses_fingerprints_before_timestamps() {
    assert_eq!(linked_calendar_action(1_000, Some(9_000), true, false, false), LinkedCalendarAction::PushLocal);
    assert_eq!(linked_calendar_action(9_000, Some(1_000), false, true, false), LinkedCalendarAction::PullRemote);
    assert_eq!(linked_calendar_action(1_000, Some(9_000), true, true, false), LinkedCalendarAction::PullRemote);
    assert_eq!(linked_calendar_action(5_000, Some(5_000), true, true, true), LinkedCalendarAction::PushLocal);
}

#[test]
fn basic_auth_header_is_padded_standard_base64() {
    assert_eq!(basic_auth_header("user", "pass"), "Basic dXNlcjpwYXNz");
    assert_eq!(basic_auth_header("a", ""), "Basic YTo=");
    assert_eq!(basic_auth_header("ab", "c+/"), "Basic YWI6Yysv");
}

#[test]
fn ics_roundtrip_keeps_early_years_and_the_whole_day() {
    let mut block = sample_block();
    block.schedule_date = "0099-02-28".to_string();
    block.start_minute = 0;
    block.end_minute = 1439;
    block.note = Some("   ".to_string());
    let ics = build_ics_event(&block, "Asia/Shanghai").expect("build ics");
    assert!(ics.contains("DTSTART:00990228T000000"));
    let parsed = parse_ics_event("https://cal.example/cal/early.ics", None, &ics)
        .expect("parse event")
        .expect("has event");
    assert_eq!(parsed.schedule_date, "0099-02-28");
    assert_eq!(parsed.start_minute, 0);
    assert_eq!(parsed.end_minute, 1439);
    assert_eq!(parsed.note, None);
    assert_eq!(parsed.etag, None);
    assert_eq!(parsed.marker_sync_id.as_deref(), Some("schedule_block-7"));
}

#[test]
fn update_of_a_remote_event_reads_back_as_the_block_whatever_else_it_holds() {
    let remote_ics = [
        "BEGIN:VCALENDAR",
        "VERSION:2.0",
        "BEGIN:VEVENT",
        "UID:remote-2",
        "SUMMARY:old",
        "DTSTART;TZID=Asia/Shanghai:20260101T080000",
        "DTEND:20260101T090000",
        "X-REMOTE:keep",
        "BEGIN:VALARM",
        "DESCRIPTION:alarm",
        "END:VALARM",
        "END:VEVENT",
        "BEGIN:VEVENT",
        "UID:other",
        "SUMMARY:second",
        "END:VEVENT",
        "END:VCALENDAR",
        "",
    ]
    .join("\r\n");
    let block = sample_block();
    let updated = build_ics_event_from_existing_remote(&remote_ics, &block, "Asia/Shanghai").expect("update");
    assert!(updated.contains("UID:remote-2"));
    assert!(updated.contains("X-REMOTE:keep"));
    assert!(updated.contains("SUMMARY:second"));
    assert!(!updated.contains("DTSTART;TZID"));
    let parsed = parse_ics_event("https://cal.example/cal/remote-2.ics", Some("\"e2\""), &updated)
        .expect("parse updated event")
        .expect("has event");
    assert_eq!(parsed.id, "https://cal.example/cal/remote-2.ics");
    assert_eq!(parsed.etag.as_deref(), Some("\"e2\""));
    assert_eq!(parsed.title, "数学真题");
    assert_eq!(parsed.note.as_deref(), Some("2008 第一套"));
    assert_eq!(parsed.schedule_date, "2026-06-18");
    assert_eq!(parsed.start_minute, 510);
    assert_eq!(parsed.end_minute, 600);
    assert_eq!(parsed.marker_sync_id.as_deref(), Some("schedule_block-7"));
}

#[test]
fn update_reads_back_through_folded_remote_lines() {
    let remote_ics = [
        "BEGIN:VCALENDAR",
        "BEGIN:VEVENT",
        "UID:remote-3",
        "DESCRIPTION:a long remote description that the server folded over",
        "  two lines",
        "X-REMOTE-NOTE:kept and",
        " folded",
        "DTSTART:20260101T080000",
        "DTEND:20260101T090000",
        "END:VEVENT",
        "END:VCALENDAR",
        "",
    ]
    .join("\r\n");
    let block = sample_block();
    let updated = build_ics_event_from_existing_remote(&remote_ics, &block, "Asia/Shanghai").expect("update");
    assert!(updated.contains("X-REMOTE-NOTE:kept and\r\n folded"));
    assert!(!updated.contains("two lines"));
    let parsed = parse_ics_event("https://cal.example/cal/remote-3.ics", None, &updated)
        .expect("parse updated event")
        .expect("has event");
    assert_eq!(parsed.title, "数学真题");
    assert_eq!(parsed.note.as_deref(), Some("2008 第一套"));
    assert_eq!(parsed.schedule_date, "2026-06-18");
    assert_eq!(parsed.start_minute, 510);
    assert_eq!(parsed.end_minute, 600);
    assert_eq!(parsed.marker_sync_id.as_deref(), Some("schedule_block-7"));
}

#[test]
fn event_dates_outside_four_digit_years_keep_their_sign() {
    let ics = [
        "BEGIN:VCALENDAR",
        "BEGIN:VEVENT",
        "UID:signed",
        "DTSTART:-20 0101",
        "DTEND:-20 0101",
        "END:VEVENT",
        "END:VCALENDAR",
        "",
    ]
    .join("\r\n");
    let parsed = parse_ics_event("https://cal.example/cal/signed.ics", None, &ics)
        .expect("parse event")
        .expect("has event");
    assert_eq!(parsed.schedule_date, "-0020-01-01");
    assert_eq!(parsed.start_minute, 0);
}
