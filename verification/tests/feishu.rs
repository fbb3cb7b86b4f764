use kaoyan_focus::feishu_calendar::{plan_linked_event, FeishuLink};
use kaoyan_focus::feishu_calendar::{
    is_importable_remote_event, linked_calendar_action, local_schedule_block_fingerprint,
    orphan_calendar_event_links, parse_remote_event, remote_event_fingerprint, CalendarLinkCandidate,
    FeishuEventJson, JsonScalar, LinkedCalendarAction, LocalScheduleBlock, RemoteEvent,
};
use kaoyan_focus::feishu_rules::is_feishu_deleted_event_error;

fn blank_title_event() -> FeishuEventJson {
    FeishuEventJson {
        event_id: JsonScalar::Str("remote-blank-title".to_string()),
        id: JsonScalar::Missing,
        summary: JsonScalar::Missing,
        description: JsonScalar::Str(String::new()),
        start_timestamp: JsonScalar::Str("1779235200".to_string()),
        end_timestamp: JsonScalar::Str("1779238800".to_string()),
        updated_time: JsonScalar::Str("1779235200000".to_string()),
        updated_at: JsonScalar::Missing,
    }
}

fn link(entity_type: &str, remote_id: &str, link_deleted: bool, block_exists: bool, block_deleted: bool) -> CalendarLinkCandidate {
    CalendarLinkCandidate {
        entity_type: entity_type.to_string(),
        remote_kind: "feishu_calendar_event".to_string(),
        remote_id: remote_id.to_string(),
        link_deleted,
        block_exists,
        block_deleted,
    }
}

/// The links of the fixture: block 1 live, block 2 deleted in its sync
/// metadata, block 3 missing, link 4 already deleted, link 5 of another entity.
fn fixture_links() -> Vec<CalendarLinkCandidate> {
    vec![
        link("schedule_block", "live", false, true, false),
        link("schedule_block", "tombstone", false, true, true),
        link("schedule_block", "missing-local", false, false, false),
        link("schedule_block", "already-deleted", true, false, false),
        link("checklist_task", "other-entity", false, false, false),
    ]
}

fn fingerprint_pair() -> (LocalScheduleBlock, RemoteEvent) {
    let local = LocalScheduleBlock {
        id: 1,
        sync_id: "schedule_block-1".to_string(),
        schedule_date: "2026-05-20".to_string(),
        title: "Math".to_string(),
        note: Some("chapter 3".to_string()),
        start_minute: 600,
        end_minute: 660,
        status: "planned".to_string(),
        updated_at: "2026-05-20T00:00:00Z".to_string(),
        deleted_at: None,
    };
    let remote = RemoteEvent {
        id: "event-1".to_string(),
        title: "Math".to_string(),
        note: Some("chapter 3".to_string()),
        schedule_date: "2026-05-20".to_string(),
        start_minute: 630,
        end_minute: 690,
        updated_millis: None,
        marker_sync_id: Some("schedule_block-1".to_string()),
    };
    (local, remote)
}

#[test]
fn feishu_recognizes_deleted_calendar_event_error() {
    assert!(is_feishu_deleted_event_error("Feishu returned status 403 / code 193003: event is deleted"));
    assert!(!is_feishu_deleted_event_error("Feishu returned status 403 / code 193004: permission denied"));
}

#[test]
fn tests_recognizes_deleted_calendar_event_error() {
    assert!(is_feishu_deleted_event_error("Feishu returned status 403 / code 193003: event is deleted"));
    assert!(!is_feishu_deleted_event_error("Feishu returned status 403 / code 193004: permission denied"));
}

#[test]
fn feishu_skips_untitled_remote_calendar_imports() {
    let event = parse_remote_event(&blank_title_event()).expect("event parses");
    assert_eq!(event.title, "");
    assert!(!is_importable_remote_event(&event));
}

#[test]
fn tests_skips_untitled_remote_calendar_imports() {
    let event = parse_remote_event(&blank_title_event()).expect("event parses");
    assert_eq!(event.title, "");
    assert!(!is_importable_remote_event(&event));
}

#[test]
fn feishu_finds_orphan_calendar_event_links() {
    let remote_ids = orphan_calendar_event_links(&fixture_links());
    assert_eq!(remote_ids, vec!["tombstone", "missing-local"]);
}

#[test]
fn tests_finds_orphan_calendar_event_links() {
    let remote_ids = orphan_calendar_event_links(&fixture_links());
    assert_eq!(remote_ids, vec!["tombstone", "missing-local"]);
}

#[test]
fn feishu_local_calendar_change_pushes_when_remote_timestamp_is_missing() {
    assert_eq!(linked_calendar_action(2_000, None, true, false, true), LinkedCalendarAction::PushLocal);
    assert_eq!(linked_calendar_action(6_500, None, true, false, false), LinkedCalendarAction::PushLocal);
    assert_eq!(linked_calendar_action(2_000, None, false, true, false), LinkedCalendarAction::PullRemote);
    assert_eq!(linked_calendar_action(2_000, None, false, false, true), LinkedCalendarAction::RefreshLink);
}

#[test]
fn tests_local_calendar_change_pushes_when_remote_timestamp_is_missing() {
    assert_eq!(linked_calendar_action(2_000, None, true, false, true), LinkedCalendarAction::PushLocal);
    assert_eq!(linked_calendar_action(6_500, None, true, false, false), LinkedCalendarAction::PushLocal);
    assert_eq!(linked_calendar_action(2_000, None, false, true, false), LinkedCalendarAction::PullRemote);
    assert_eq!(linked_calendar_action(2_000, None, false, false, true), LinkedCalendarAction::RefreshLink);
}

#[test]
fn feishu_calendar_fingerprint_tracks_block_time_changes() {
    let (local, remote) = fingerprint_pair();
    assert_ne!(local_schedule_block_fingerprint(&local), remote_event_fingerprint(&remote));
}

#[test]
fn tests_calendar_fingerprint_tracks_block_time_changes() {
    let (local, remote) = fingerprint_pair();
    assert_ne!(local_schedule_block_fingerprint(&local), remote_event_fingerprint(&remote));
}

#[test]
fn marker_json_escapes_quotes_backslashes_and_controls() {
    let text = kaoyan_focus::feishu_json::marker_json("a\"b\\c", "x\ny\u{1}");
    assert_eq!(
        text,
        "{\"entity_type\":\"a\\\"b\\\\c\",\"source\":\"kaoyan-focus\",\"sync_id\":\"x\\ny\\u0001\"}"
    );
}

#[test]
fn a_linked_task_moves_only_when_its_tasklist_changed() {
    assert!(kaoyan_focus::feishu_tasks::needs_tasklist_move("list-a", "list-b"));
    assert!(!kaoyan_focus::feishu_tasks::needs_tasklist_move("list-a", "list-a"));
}

#[test]
fn linked_event_plan_falls_back_on_the_links_change_time() {
    let local = LocalScheduleBlock {
        id: 1,
        sync_id: "schedule_block-1".to_string(),
        schedule_date: "2026-05-20".to_string(),
        title: "Math".to_string(),
        note: None,
        start_minute: 600,
        end_minute: 660,
        status: "planned".to_string(),
        updated_at: "2026-05-20T00:00:00Z".to_string(),
        deleted_at: None,
    };
    let remote = RemoteEvent {
        id: "evt-1".to_string(),
        title: "Math".to_string(),
        note: None,
        schedule_date: "2026-05-20".to_string(),
        start_minute: 600,
        end_minute: 660,
        updated_millis: None,
        marker_sync_id: Some("schedule_block-1".to_string()),
    };
    let mut link = FeishuLink {
        id: 9,
        remote_kind: "feishu_calendar_event".to_string(),
        remote_id: "evt-1".to_string(),
        remote_parent_id: None,
        remote_etag: None,
        remote_change_key: None,
        remote_last_modified: Some("1779235200".to_string()),
    };
    let plan = plan_linked_event(&local, &remote, &link, false).expect("plan");
    assert_eq!(plan.remote_updated, Some(1_779_235_200_000));
    link.remote_last_modified = None;
    let plan = plan_linked_event(&local, &remote, &link, false).expect("plan");
    assert_eq!(plan.remote_updated, None);
    let mut broken = local.clone();
    broken.updated_at = "yesterday".to_string();
    assert_eq!(
        plan_linked_event(&broken, &remote, &link, false).err(),
        Some("时间格式不正确：yesterday".to_string())
    );
}
