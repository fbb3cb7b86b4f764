use kaoyan_focus::focus_stats::shanghai_month_start;
use kaoyan_focus::alarm::{finish_alarm, parse_alarm_draft, AlarmDraft};
use kaoyan_focus::clock::Instant;
use kaoyan_focus::feishu_api::{callback_bind_addr, feishu_value_error_message, parse_feishu_response, FeishuPayload};
use kaoyan_focus::feishu_calendar::{
    local_date_minute_to_timestamp, millis_to_local_date_string, minute_seconds, timestamp_to_local_date_minute,
};
use kaoyan_focus::feishu_rules::if_empty;
use kaoyan_focus::feishu_tasks::due_date_to_millis;
use kaoyan_focus::focus::{break_kind_for_cycle, StudyModeRecord};
use kaoyan_focus::focus_machine::{decide_advance, AdvanceStep};
use kaoyan_focus::ics::{body_with_marker, escape_ics_text, extract_marker, strip_marker, unescape_ics_text};
use kaoyan_focus::monitor::{
    blocked_window_record, close_outcome, legacy_specific_url, non_enforcing_reason, plan_active_mode_check,
    plan_session_check, study_mode_enforces_whitelist, subject_switch_target, MonitorPlan,
};
use kaoyan_focus::review::{
    clamp_mood_score, normalize_daily_review_draft, normalize_weekly_review_draft, parse_date_or_today_at,
    parse_week_start_or_current_at, review_sync_key, shift_iso_date, validate_date, week_start_monday,
    DailyReviewDraft, WeeklyReviewDraft,
};

const DATE_ERROR: &str = "日期格式应为 YYYY-MM-DD。";
/// 2024-05-01 counted from the Common Era (0001-01-01 is day 1).
const DAY_2024_05_01: i32 = 739_007;

#[test]
fn validate_date_accepts_iso_dates_and_rejects_others() {
    assert_eq!(validate_date("2024-05-01"), Ok("2024-05-01".to_string()));
    assert_eq!(validate_date("2024-02-30"), Err(DATE_ERROR.to_string()));
    assert_eq!(validate_date("May 1st"), Err(DATE_ERROR.to_string()));
}

#[test]
fn week_start_is_the_monday_of_the_week() {
    assert_eq!(week_start_monday("2024-05-01"), Ok("2024-04-29".to_string()));
    assert_eq!(week_start_monday("2024-04-29"), Ok("2024-04-29".to_string()));
    assert_eq!(week_start_monday("2024-05-05"), Ok("2024-04-29".to_string()));
    assert_eq!(week_start_monday("0001-01-01"), Ok("0001-01-01".to_string()));
    assert_eq!(week_start_monday("not a date"), Err(DATE_ERROR.to_string()));
}

#[test]
fn shifting_dates_crosses_months_and_leap_days() {
    assert_eq!(shift_iso_date("2024-02-28", 1), Ok("2024-02-29".to_string()));
    assert_eq!(shift_iso_date("2024-02-28", 2), Ok("2024-03-01".to_string()));
    assert_eq!(shift_iso_date("2024-04-29", 6), Ok("2024-05-05".to_string()));
    assert_eq!(shift_iso_date("2024-13-01", 1), Err(DATE_ERROR.to_string()));
}

#[test]
fn review_page_dates_fall_back_to_the_given_day() {
    assert_eq!(parse_date_or_today_at(None, DAY_2024_05_01), Ok("2024-05-01".to_string()));
    assert_eq!(parse_date_or_today_at(Some("   "), DAY_2024_05_01), Ok("2024-05-01".to_string()));
    assert_eq!(parse_date_or_today_at(Some(" 2024-06-18 "), DAY_2024_05_01), Ok("2024-06-18".to_string()));
    assert_eq!(parse_date_or_today_at(Some("18/06/2024"), DAY_2024_05_01), Err(DATE_ERROR.to_string()));
    assert_eq!(parse_week_start_or_current_at(None, DAY_2024_05_01), Ok("2024-04-29".to_string()));
    assert_eq!(parse_week_start_or_current_at(Some("2024-06-20"), DAY_2024_05_01), Ok("2024-06-17".to_string()));
}

#[test]
fn review_drafts_are_normalized() {
    assert_eq!(clamp_mood_score(9), 5);
    assert_eq!(clamp_mood_score(-3), 1);
    assert_eq!(clamp_mood_score(3), 3);
    let daily = normalize_daily_review_draft(DailyReviewDraft {
        review_date: "2024-05-01".to_string(),
        summary: Some("  done  ".to_string()),
        blockers: Some("   ".to_string()),
        tomorrow_focus: None,
        mood_score: 0,
    })
    .expect("valid draft");
    assert_eq!(daily.summary.as_deref(), Some("done"));
    assert_eq!(daily.blockers, None);
    assert_eq!(daily.mood_score, 1);
    let weekly = normalize_weekly_review_draft(WeeklyReviewDraft {
        week_start_date: "2024-05-03".to_string(),
        summary: None,
        blockers: None,
        next_week_focus: Some(" math ".to_string()),
        mood_score: 7,
    })
    .expect("valid draft");
    assert_eq!(weekly.week_start_date, "2024-04-29");
    assert_eq!(weekly.next_week_focus.as_deref(), Some("math"));
    assert_eq!(weekly.mood_score, 5);
    assert_eq!(review_sync_key("daily_review", "2024-05-01"), "daily_review:2024-05-01");
}

fn alarm(title: &str, date: &str, time: &str) -> AlarmDraft {
    AlarmDraft {
        title: title.to_string(),
        note: Some("  ".to_string()),
        alarm_date: date.to_string(),
        alarm_time: time.to_string(),
        enabled: true,
    }
}

#[test]
fn alarm_drafts_are_checked_in_order() {
    assert_eq!(parse_alarm_draft(alarm("  ", "bad", "bad")).unwrap_err(), "闹钟标题不能为空。");
    assert_eq!(parse_alarm_draft(alarm("起床", "2024/05/01", "bad")).unwrap_err(), "闹钟日期必须使用 YYYY-MM-DD。");
    assert_eq!(parse_alarm_draft(alarm("起床", "2024-05-01", "7am")).unwrap_err(), "闹钟时间必须使用 HH:MM。");
    let parsed = parse_alarm_draft(alarm(" 起床 ", " 2024-05-01 ", " 07:30 ")).expect("valid alarm");
    assert_eq!(parsed.title, "起床");
    assert_eq!(parsed.note, None);
    assert_eq!(parsed.alarm_date, "2024-05-01");
    assert_eq!(parsed.alarm_time, "07:30");
    assert_eq!(parsed.day, DAY_2024_05_01);
    assert_eq!(parsed.second, 7 * 3600 + 30 * 60);
}

#[test]
fn alarm_instant_is_written_in_utc() {
    let parsed = parse_alarm_draft(alarm("起床", "2024-05-01", "07:30")).expect("valid alarm");
    let done = finish_alarm(parsed.clone(), Some(1_714_519_800)).expect("known local time");
    assert_eq!(done.alarm_at, "2024-04-30T23:30:00+00:00");
    assert_eq!(done.alarm_time, "07:30");
    assert_eq!(finish_alarm(parsed, None).unwrap_err(), "无法识别这个本地闹钟时间。");
}

#[test]
fn whitelist_is_enforced_only_while_focusing() {
    assert!(study_mode_enforces_whitelist("strict", false, "focus"));
    assert!(study_mode_enforces_whitelist("normal", true, "awaiting_break"));
    assert!(!study_mode_enforces_whitelist("normal", false, "focus"));
    assert!(!study_mode_enforces_whitelist("strict", true, "break"));
    assert_eq!(non_enforcing_reason("normal", false), "白名单已关闭");
    assert_eq!(non_enforcing_reason("strict", false), "白名单未执行");
}

#[test]
fn monitor_plans_follow_the_active_mode() {
    assert_eq!(plan_session_check(7, None), MonitorPlan::CheckSession { session_id: 7 });
    assert_eq!(
        plan_session_check(7, Some(("normal", false, "focus"))),
        MonitorPlan::NotEnforcing { session_id: Some(7), reason: "白名单已关闭".to_string() }
    );
    assert_eq!(plan_active_mode_check(None).unwrap_err(), "No active study mode to monitor.");
    assert_eq!(
        plan_active_mode_check(Some((3, None, "strict", false, "focus"))),
        Ok(MonitorPlan::CheckWithoutSession { dedupe_scope_id: -3 })
    );
    assert_eq!(
        plan_active_mode_check(Some((3, Some(9), "strict", false, "focus"))),
        Ok(MonitorPlan::CheckSession { session_id: 9 })
    );
    assert_eq!(
        plan_active_mode_check(Some((3, Some(9), "strict", false, "break"))),
        Ok(MonitorPlan::NotEnforcing { session_id: Some(9), reason: "白名单未执行".to_string() })
    );
}

#[test]
fn repeated_blocks_of_one_program_count_once() {
    let (first, last) = blocked_window_record(None, 5, "Game.EXE");
    assert!(first);
    assert_eq!(last, (5, "game.exe".to_string()));
    let (again, _) = blocked_window_record(Some(last.clone()), 5, "GAME.exe");
    assert!(!again);
    let (other_scope, _) = blocked_window_record(Some(last), 6, "game.exe");
    assert!(other_scope);
}

#[test]
fn monitor_small_rules() {
    assert_eq!(legacy_specific_url("  example.com/course  "), Some("example.com/course".to_string()));
    assert_eq!(legacy_specific_url("example.com"), None);
    assert_eq!(close_outcome(Ok(())), ("close_window".to_string(), None));
    assert_eq!(
        close_outcome(Err("denied".to_string())),
        ("close_window_failed".to_string(), Some("denied".to_string()))
    );
    assert_eq!(subject_switch_target(Some(2), Some(2)), None);
    assert_eq!(subject_switch_target(Some(2), Some(1)), Some(2));
    assert_eq!(subject_switch_target(Some(2), None), Some(2));
    assert_eq!(subject_switch_target(None, Some(1)), None);
}

#[test]
fn feishu_answers_are_read() {
    assert_eq!(
        feishu_value_error_message(400, r#"{"code":99991663,"msg":"token invalid"}"#),
        "飞书返回状态 400 / code 99991663：token invalid"
    );
    assert_eq!(
        feishu_value_error_message(401, r#"{"error":"invalid_grant","error_description":"expired"}"#),
        "飞书返回状态 401 / code 0：expired"
    );
    assert_eq!(parse_feishu_response(200, r#"{"code":0,"data":{"items":[]}}"#), Ok(FeishuPayload::Data));
    assert_eq!(parse_feishu_response(200, r#"{"code":0}"#), Ok(FeishuPayload::Whole));
    assert_eq!(parse_feishu_response(200, r#"{"access_token":"t","code":5}"#), Ok(FeishuPayload::Whole));
    assert_eq!(
        parse_feishu_response(200, r#"{"code":193003,"msg":"deleted"}"#),
        Err("飞书返回状态 200 / code 193003：deleted".to_string())
    );
    assert_eq!(parse_feishu_response(500, "{}"), Err("飞书返回状态 500 / code 0：未知错误".to_string()));
    assert!(parse_feishu_response(200, "not json").is_err());
}

#[test]
fn oauth_callback_listens_locally() {
    assert_eq!(callback_bind_addr("http://127.0.0.1:39781/feishu/callback"), Ok("127.0.0.1:39781".to_string()));
    assert_eq!(callback_bind_addr("http://localhost/feishu/callback"), Ok("127.0.0.1:80".to_string()));
    assert_eq!(
        callback_bind_addr("http://example.com/callback"),
        Err("飞书本地回调地址必须使用 127.0.0.1 或 localhost。".to_string())
    );
    assert!(callback_bind_addr("not a url").unwrap_err().starts_with("飞书回调地址不正确："));
    assert_eq!(if_empty(String::new(), "fallback"), "fallback");
    assert_eq!(if_empty("x".to_string(), "fallback"), "x");
}

#[test]
fn ics_escaping_round_trips() {
    let text = "a;b,c\\d\ne";
    let escaped = escape_ics_text(text);
    assert_eq!(escaped, "a\\;b\\,c\\\\d\\ne");
    assert_eq!(unescape_ics_text(&escaped), text);
}

#[test]
fn ics_marker_round_trips() {
    let body = body_with_marker(Some("  2008 第一套  "), "schedule_block-7");
    assert_eq!(body, "2008 第一套\n\n[kaoyan-focus:schedule_block:schedule_block-7]");
    assert_eq!(extract_marker(&body).as_deref(), Some("schedule_block-7"));
    assert_eq!(strip_marker(&body), "2008 第一套");
    let bare = body_with_marker(None, "schedule_block-8");
    assert_eq!(extract_marker(&bare).as_deref(), Some("schedule_block-8"));
    assert_eq!(strip_marker(&bare), "");
}

fn focus_record() -> StudyModeRecord {
    StudyModeRecord {
        id: 1,
        state_revision: 1,
        mode: "strict".to_string(),
        subject_id: None,
        planned_seconds: 7200,
        focus_seconds: 1500,
        break_seconds: 300,
        long_break_seconds: 900,
        long_break_interval: 4,
        whitelist_enabled: true,
        phase: "focus".to_string(),
        cycle_index: 1,
        started_at: "2024-05-01T08:00:00+00:00".to_string(),
        phase_started_at: "2024-05-01T08:00:00+00:00".to_string(),
        paused_at: None,
        accumulated_study_seconds: 0,
        total_paused_seconds: 0,
        phase_paused_seconds: 0,
        paused_stage_elapsed_seconds: 0,
        ended_at: None,
        current_session_id: Some(11),
        schedule_block_id: None,
        today_plan_item_id: None,
        status: "active".to_string(),
    }
}

#[test]
fn long_breaks_come_every_interval() {
    assert_eq!(break_kind_for_cycle(4, 4), "long");
    assert_eq!(break_kind_for_cycle(8, 4), "long");
    assert_eq!(break_kind_for_cycle(3, 4), "short");
    assert_eq!(break_kind_for_cycle(4, 0), "short");
}

#[test]
fn a_finished_pomodoro_waits_for_its_break() {
    let start = 1_714_550_400;
    let record = focus_record();
    let step = decide_advance(&record, Instant { secs: start + 1600, nanos: 0 }).expect("tick");
    match step {
        AdvanceStep::AwaitBreak { phase_started_at, accumulated } => {
            assert_eq!(phase_started_at.secs, start + 1500);
            assert_eq!(accumulated, 1500);
        }
        other => panic!("unexpected step {other:?}"),
    }
    let early = decide_advance(&record, Instant { secs: start + 600, nanos: 0 }).expect("tick");
    assert!(matches!(early, AdvanceStep::Wait));
    let mut paused = focus_record();
    paused.paused_at = Some("2024-05-01T08:05:00+00:00".to_string());
    assert!(matches!(decide_advance(&paused, Instant { secs: start + 9000, nanos: 0 }), Ok(AdvanceStep::Paused)));
}

#[test]
fn minutes_of_the_day_map_to_clamped_seconds() {
    assert_eq!(minute_seconds(-5), 0);
    assert_eq!(minute_seconds(0), 0);
    assert_eq!(minute_seconds(61), 3660);
    assert_eq!(minute_seconds(1439), 86_340);
    assert_eq!(minute_seconds(1440), 86_399);
    assert_eq!(minute_seconds(5000), 86_399);
}

#[test]
fn local_times_of_a_date_are_ordered_and_whole() {
    let start = local_date_minute_to_timestamp("2024-05-01", 0);
    let later = local_date_minute_to_timestamp("2024-05-01", 90);
    assert_eq!(later - start, 90 * 60);
    assert_eq!(local_date_minute_to_timestamp("2024-05-01", -30), start);
    let due = due_date_to_millis("2024-05-01");
    assert_eq!(due, start * 1000);
}

#[test]
fn local_dates_of_timestamps_are_iso_dates() {
    let start = local_date_minute_to_timestamp("2024-05-01", 600);
    assert_eq!(timestamp_to_local_date_minute(start), Some(("2024-05-01".to_string(), 600)));
    assert_eq!(timestamp_to_local_date_minute(start * 1000), Some(("2024-05-01".to_string(), 600)));
    assert_eq!(millis_to_local_date_string(start * 1000), "2024-05-01");
}

#[test]
fn timestamps_outside_the_calendar_range_have_no_local_date() {
    assert_eq!(timestamp_to_local_date_minute(i64::MAX), None);
    assert_eq!(timestamp_to_local_date_minute(-9_000_000_000_000), None);
    assert!(timestamp_to_local_date_minute(0).is_some());
}

#[test]
fn local_dates_end_where_chronos_calendar_ends() {
    assert_eq!(timestamp_to_local_date_minute(-8_334_601_228_801), None);
    assert!(timestamp_to_local_date_minute(-8_334_601_142_400).is_some());
}

#[test]
fn beijing_month_start_is_midnight_of_the_first() {
    let now = Instant { secs: 1_781_755_200, nanos: 0 };
    assert_eq!(shanghai_month_start(now), Ok(Instant { secs: 1_780_243_200, nanos: 0 }));
}
