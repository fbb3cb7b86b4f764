use kaoyan_focus::checklist::{build_checklist_page_data, TaskRecord};
use kaoyan_focus::email::{nothing_pending_result, reminder_precheck, EmailReminderSettings};
use kaoyan_focus::feishu_api::oauth_login_bind_addr;
use kaoyan_focus::feishu_rules::{
    app_tasklist_guids, body_with_marker, feishu_tasklist_keys, find_tasklist_guid, marker_in_lines, rebuild_result,
    strip_marker, tasklist_status, FeishuSyncSettings,
};
use kaoyan_focus::feishu_tasks::{is_rebuild_upload, LocalTask};
use kaoyan_focus::focus_machine::ensure_device_can_start_study_mode;

fn listed(name: Option<&str>, guid: Option<&str>) -> (Option<String>, Option<String>) {
    (name.map(str::to_string), guid.map(str::to_string))
}

#[test]
fn feishu_marker_reads_back_and_strips_away() {
    let body = body_with_marker(Some("  第一行\n第二行  "), "checklist_task", "checklist_task-3");
    assert_eq!(body, "第一行\n第二行\n\n[kaoyan-focus:checklist_task:checklist_task-3]");
    assert_eq!(
        marker_in_lines(&body),
        Some(("checklist_task".to_string(), "checklist_task-3".to_string()))
    );
    assert_eq!(strip_marker(&body), "第一行\n第二行");
    let bare = body_with_marker(None, "schedule_block", "schedule_block-9");
    assert_eq!(marker_in_lines(&bare), Some(("schedule_block".to_string(), "schedule_block-9".to_string())));
    assert_eq!(strip_marker(&bare), "");
}

#[test]
fn tasklists_are_found_by_name_and_bridge_ownership() {
    let existing = vec![
        listed(Some("考研专注 - 数学"), None),
        listed(Some("其他"), Some("g-0")),
        listed(Some("考研专注 - 数学"), Some("g-1")),
        listed(Some("考研专注"), Some("g-2")),
        listed(None, Some("g-3")),
    ];
    assert_eq!(find_tasklist_guid(&existing, "考研专注 - 数学"), Some("g-1".to_string()));
    assert_eq!(find_tasklist_guid(&existing, "考研专注 - 英语"), None);
    assert_eq!(app_tasklist_guids(&existing), vec!["g-1".to_string(), "g-2".to_string()]);
}

#[test]
fn tasklist_statuses_follow_stored_guids() {
    let keys = feishu_tasklist_keys();
    assert_eq!(keys, vec!["politics", "english", "math", "major", "general", "today"]);
    let ready = tasklist_status("math", "  guid-7 ");
    assert_eq!(ready.label, "数学");
    assert_eq!(ready.guid.as_deref(), Some("guid-7"));
    assert!(ready.ready);
    let missing = tasklist_status("today", "   ");
    assert_eq!(missing.label, "今日任务");
    assert_eq!(missing.guid, None);
    assert!(!missing.ready);
}

#[test]
fn rebuild_reports_its_counts() {
    let result = rebuild_result(2, 15, 6, "/backup/tasklists.json".to_string(), "2024-05-01T00:00:00+00:00".to_string());
    assert_eq!(result.status, "rebuilt");
    assert_eq!(result.message, "飞书任务清单已按本地数据重建：删除旧清单 2 个，上传任务 15 条。");
    assert_eq!(result.backup_path, "");
    assert_eq!(result.remote_backup_path, "/backup/tasklists.json");
    let mut task = LocalTask {
        entity_type: "checklist_task".to_string(),
        id: 1,
        sync_id: "checklist_task-1".to_string(),
        tasklist_key: "math".to_string(),
        title: "  ".to_string(),
        note: None,
        due_date: None,
        completed: false,
        updated_at: "2024-05-01T00:00:00Z".to_string(),
        deleted_at: None,
    };
    assert!(!is_rebuild_upload(&task));
    task.title = "真题".to_string();
    assert!(is_rebuild_upload(&task));
    task.deleted_at = Some(5);
    assert!(!is_rebuild_upload(&task));
}

#[test]
fn oauth_login_needs_app_credentials_and_a_local_callback() {
    let mut settings = FeishuSyncSettings {
        enabled: true,
        app_id: String::new(),
        app_secret: "secret".to_string(),
        redirect_uri: "http://127.0.0.1:39781/feishu/callback".to_string(),
    };
    assert_eq!(oauth_login_bind_addr(&settings), Err("请先填写飞书 App ID 和 App Secret。".to_string()));
    settings.app_id = "cli_x".to_string();
    assert_eq!(oauth_login_bind_addr(&settings), Ok("127.0.0.1:39781".to_string()));
}

#[test]
fn only_the_primary_device_starts_study_mode() {
    assert!(ensure_device_can_start_study_mode(None, "device-a").is_ok());
    assert!(ensure_device_can_start_study_mode(Some("  "), "device-a").is_ok());
    assert!(ensure_device_can_start_study_mode(Some(" device-a "), "device-a").is_ok());
    assert_eq!(
        ensure_device_can_start_study_mode(Some("device-b"), "device-a"),
        Err("当前设备不是主控端，请先切换为主控设备后再开始新的专注。".to_string())
    );
}

#[test]
fn reminders_are_checked_before_reading_tasks() {
    let mut settings = EmailReminderSettings::default();
    let off = reminder_precheck(&settings, 22).expect("skipped").expect("result");
    assert_eq!(off.message, "邮件提醒未开启。");
    settings.enabled = true;
    let early = reminder_precheck(&settings, 20).expect("skipped").expect("result");
    assert_eq!(early.message, "还没到 21:00，暂不发送。");
    assert_eq!(reminder_precheck(&settings, 21).unwrap_err(), "SMTP 配置不完整。");
    settings.smtp_host = "smtp.example.com".to_string();
    settings.username = "user".to_string();
    settings.password = "pw".to_string();
    settings.from = "not a mailbox".to_string();
    settings.to = "me@example.com".to_string();
    assert_eq!(reminder_precheck(&settings, 21).unwrap_err(), "发件人邮箱格式不正确。");
    settings.from = "考研专注 <bot@example.com>".to_string();
    assert!(reminder_precheck(&settings, 23).expect("ready").is_none());
    let none = nothing_pending_result();
    assert_eq!(none.status, "skipped");
    assert_eq!(none.sent_count, 0);
}

fn task(id: i64, board_scope: &str, completed: bool) -> TaskRecord {
    TaskRecord {
        id,
        board_scope: board_scope.to_string(),
        subject_id: None,
        title: format!("task {id}"),
        note: None,
        due_date: None,
        sort_order: id,
        completed,
        created_at: "2024-05-01T00:00:00Z".to_string(),
        updated_at: "2024-05-01T00:00:00Z".to_string(),
    }
}

#[test]
fn every_task_is_shown_once_on_the_checklist_page() {
    let tasks = vec![
        task(1, "checklist:math", false),
        task(2, "checklist:math", true),
        task(3, "checklist:english", false),
        task(4, "general", false),
        task(5, "something else", true),
    ];
    let page = build_checklist_page_data("2024-05-01", Some(3), "{}", &tasks, Vec::new());
    assert_eq!(page.categories.len(), 5);
    let shown: usize = page
        .categories
        .iter()
        .map(|c| c.pending_tasks.len() + c.completed_tasks.len())
        .sum();
    assert_eq!(shown, tasks.len());
    assert_eq!(page.active_category_key, "math");
    let math = &page.categories[2];
    assert_eq!(math.key, "math");
    assert_eq!(math.pending_tasks.len(), 1);
    assert_eq!(math.completed_tasks.len(), 1);
    assert!(math.highlighted);
    assert_eq!(math.pending_tasks[0].subject_id, Some(3));
}
