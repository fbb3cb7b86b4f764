//! Verified core of a study-focus desktop application: calendar (CalDAV / ICS)
//! parsing and synchronisation decisions, Feishu bridge rules, the study-mode
//! (pomodoro) state machine, checklist organisation and e-mail reminders.
pub mod text;
pub mod ics;
pub mod ics_roundtrip;
pub mod clock;
pub mod caldav;
pub mod caldav_ics;
pub mod caldav_sync;
pub mod caldav_xml;
pub mod caldav_multistatus;
pub mod focus;
pub mod focus_machine;
pub mod focus_stats;
pub mod feishu_codec;
pub mod feishu_rules;
pub mod feishu_calendar;
pub mod feishu_json;
pub mod feishu_api;
pub mod feishu_tasks;
pub mod checklist;
pub mod email;
pub mod review;
pub mod alarm;
pub mod monitor;
