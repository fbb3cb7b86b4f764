//! E-mail reminders of tasks due tomorrow: the SMTP settings, the checks
//! before sending, and the reminder text.
use crate::text::{
    i64_to_string, int_decimal, join_spec, join_strings, lower_spec, push_str, strings_view,
    to_ascii_lowercase, trim, trim_spec,
};
use lettre::message::Mailbox;
use vstd::prelude::*;
use vstd::string::*;

verus! {

/// The SMTP settings of the reminders.
#[derive(Clone, Debug)]
pub struct EmailReminderSettings {
    pub enabled: bool,
    pub smtp_host: String,
    pub smtp_port: i64,
    pub smtp_security: String,
    pub username: String,
    pub password: String,
    pub from: String,
    pub to: String,
}

/// The outcome of a reminder run.
#[derive(Clone, Debug)]
pub struct EmailReminderResult {
    pub status: String,
    pub message: String,
    pub sent_count: i64,
}

/// A task due on the reminder's day.
#[derive(Clone, Debug)]
pub struct DueTask {
    pub entity_type: String,
    pub entity_id: i64,
    pub title: String,
    pub due_date: String,
}

impl Default for EmailReminderSettings {
    /// Reminders off, port 465 with TLS, everything else empty.
    fn default() -> (r: Self)
        ensures
            !r.enabled,
            r.smtp_port == 465,
            r.smtp_security@ == "tls"@,
            r.smtp_host@.len() == 0 && r.username@.len() == 0 && r.password@.len() == 0
                && r.from@.len() == 0 && r.to@.len() == 0,
    {
        EmailReminderSettings {
            enabled: false,
            smtp_host: String::new(),
            smtp_port: 465,
            smtp_security: String::from_str("tls"),
            username: String::new(),
            password: String::new(),
            from: String::new(),
            to: String::new(),
        }
    }
}

/// `none`, `starttls`, or (for anything else) `tls`, read without case and
/// surrounding white space.
pub open spec fn security_spec(value: Seq<char>) -> Seq<char> {
    let v = lower_spec(trim_spec(value));
    if v == "none"@ {
        "none"@
    } else if v == "starttls"@ {
        "starttls"@
    } else {
        "tls"@
    }
}

pub fn normalize_security(value: &str) -> (r: String)
    ensures
        r@ == security_spec(value@),
{
    let t = trim(value);
    let v = to_ascii_lowercase(t.as_str());
    if v == String::from_str("none") {
        String::from_str("none")
    } else if v == String::from_str("starttls") {
        String::from_str("starttls")
    } else {
        String::from_str("tls")
    }
}

/// A port clamped to 1..=65535.
pub open spec fn port_spec(port: int) -> int {
    if port < 1 {
        1
    } else if port > 65535 {
        65535
    } else {
        port
    }
}

/// The settings as stored: text fields trimmed (not the password), the port
/// clamped, the security mode normalised.
pub fn normalize_settings(settings: EmailReminderSettings) -> (r: Result<EmailReminderSettings, String>)
    ensures
        r matches Ok(s) && {
            &&& s.enabled == settings.enabled
            &&& s.smtp_host@ == trim_spec(settings.smtp_host@)
            &&& s.smtp_port == port_spec(settings.smtp_port as int)
            &&& s.smtp_security@ == security_spec(settings.smtp_security@)
            &&& s.username@ == trim_spec(settings.username@)
            &&& s.password@ == settings.password@
            &&& s.from@ == trim_spec(settings.from@)
            &&& s.to@ == trim_spec(settings.to@)
        },
{
    let port = if settings.smtp_port < 1 {
        1
    } else if settings.smtp_port > 65535 {
        65535
    } else {
        settings.smtp_port
    };
    Ok(
        EmailReminderSettings {
            enabled: settings.enabled,
            smtp_host: trim(settings.smtp_host.as_str()),
            smtp_port: port,
            smtp_security: normalize_security(settings.smtp_security.as_str()),
            username: trim(settings.username.as_str()),
            from: trim(settings.from.as_str()),
            to: trim(settings.to.as_str()),
            password: settings.password,
        },
    )
}

/// Whether `lettre` reads a text as a mailbox (`str::parse::<Mailbox>`).
pub uninterp spec fn mailbox_parse_ok(text: Seq<char>) -> bool;

/// Parses a mailbox (`"..".parse::<lettre::message::Mailbox>()`) and says
/// whether it succeeded. The contract names the result.
#[verifier::external_body]
fn mailbox_parses(text: &str) -> (b: bool)
    ensures
        b == mailbox_parse_ok(text@),
{
    text.parse::<Mailbox>().is_ok()
}

/// Whether a reminder can be sent: host, user, password, sender and
/// recipient given (else `SMTP 配置不完整。`), then the sender and the
/// recipient readable as mailboxes, in that order.
pub open spec fn send_settings_check(settings: EmailReminderSettings) -> Result<(), Seq<char>> {
    if settings.smtp_host@.len() == 0 || settings.username@.len() == 0 || settings.password@.len() == 0
        || settings.from@.len() == 0 || settings.to@.len() == 0 {
        Err("SMTP 配置不完整。"@)
    } else if !mailbox_parse_ok(settings.from@) {
        Err("发件人邮箱格式不正确。"@)
    } else if !mailbox_parse_ok(settings.to@) {
        Err("收件人邮箱格式不正确。"@)
    } else {
        Ok(())
    }
}

pub fn validate_send_settings(settings: &EmailReminderSettings) -> (r: Result<(), String>)
    ensures
        match send_settings_check(*settings) {
            Ok(()) => r is Ok,
            Err(m) => r matches Err(e) && e@ == m,
        },
{
    if settings.smtp_host.as_str().is_empty() || settings.username.as_str().is_empty()
        || settings.password.as_str().is_empty() || settings.from.as_str().is_empty()
        || settings.to.as_str().is_empty() {
        return Err(String::from_str("SMTP 配置不完整。"));
    }
    if !mailbox_parses(settings.from.as_str()) {
        return Err(String::from_str("发件人邮箱格式不正确。"));
    }
    if !mailbox_parses(settings.to.as_str()) {
        return Err(String::from_str("收件人邮箱格式不正确。"));
    }
    Ok(())
}

/// The line of a due task: its source (today plan or checklist) and title.
pub open spec fn due_line_spec(t: DueTask) -> Seq<char> {
    "- ["@ + (if t.entity_type@ == "today_plan_item"@ {
        "今日任务"@
    } else {
        "清单任务"@
    }) + "] "@ + t.title@
}

pub open spec fn due_lines_spec(tasks: Seq<DueTask>) -> Seq<Seq<char>>
    decreases tasks.len(),
{
    if tasks.len() == 0 {
        Seq::empty()
    } else {
        due_lines_spec(tasks.drop_last()).push(due_line_spec(tasks.last()))
    }
}

/// The reminder: a heading with the due date, a blank line, a line per
/// task, a blank line and the signature, joined by newlines.
pub open spec fn email_body_spec(due_date: Seq<char>, tasks: Seq<DueTask>) -> Seq<char> {
    join_spec(
        seq!["以下任务将在 "@ + due_date + " 到期："@, Seq::<char>::empty()] + due_lines_spec(tasks)
            + seq![Seq::<char>::empty(), "来自考研专注。"@],
        seq!['\n'],
    )
}

pub fn build_due_task_email_body(due_date: &str, tasks: &Vec<DueTask>) -> (r: String)
    ensures
        r@ == email_body_spec(due_date@, tasks@),
{
    let mut lines: Vec<String> = Vec::new();
    let mut head = String::from_str("以下任务将在 ");
    push_str(&mut head, due_date);
    push_str(&mut head, " 到期：");
    lines.push(head);
    lines.push(String::new());
    let ghost start = strings_view(lines@);
    let mut i: usize = 0;
    while i < tasks.len()
        invariant
            i <= tasks@.len(),
            strings_view(lines@) == start + due_lines_spec(tasks@.subrange(0, i as int)),
            start == seq!["以下任务将在 "@ + due_date@ + " 到期："@, Seq::<char>::empty()],
        decreases tasks.len() - i,
    {
        assert(tasks@.subrange(0, i + 1).drop_last() =~= tasks@.subrange(0, i as int));
        assert(tasks@.subrange(0, i + 1).last() == tasks@[i as int]);
        let t = &tasks[i];
        let mut line = String::from_str("- [");
        if t.entity_type == String::from_str("today_plan_item") {
            push_str(&mut line, "今日任务");
        } else {
            push_str(&mut line, "清单任务");
        }
        push_str(&mut line, "] ");
        push_str(&mut line, t.title.as_str());
        let ghost before = strings_view(lines@);
        let ghost lv = line@;
        lines.push(line);
        assert(strings_view(lines@) =~= before.push(lv));
        assert(lv == due_line_spec(tasks@[i as int]));
        i += 1;
    }
    assert(tasks@.subrange(0, tasks@.len() as int) =~= tasks@);
    let ghost mid = strings_view(lines@);
    lines.push(String::new());
    lines.push(String::from_str("来自考研专注。"));
    assert(strings_view(lines@) =~= seq!["以下任务将在 "@ + due_date@ + " 到期："@, Seq::<char>::empty()]
        + due_lines_spec(tasks@) + seq![Seq::<char>::empty(), "来自考研专注。"@]);
    let mut nl = String::new();
    crate::text::push_char(&mut nl, '\n');
    assert(nl@ =~= seq!['\n']);
    join_strings(lines.as_slice(), nl.as_str())
}

/// The reminders are sent from 21:00 on.
pub fn is_after_reminder_time_at(hour: u32) -> (b: bool)
    ensures
        b == (hour >= 21),
{
    hour >= 21
}

/// Whether it is 21:00 or later now (local time).
pub fn is_after_reminder_time() -> (b: bool) {
    is_after_reminder_time_at(crate::clock::local_now_hour())
}

/// A reminder run before any task is read, at local hour `hour`: skipped
/// when reminders are off or before 21:00 (none meaning: go on and read the
/// tasks), failing when the settings cannot send.
pub open spec fn reminder_precheck_spec(settings: EmailReminderSettings, hour: int) -> Result<
    Option<Seq<char>>,
    Seq<char>,
> {
    if !settings.enabled {
        Ok(Some("邮件提醒未开启。"@))
    } else if hour < 21 {
        Ok(Some("还没到 21:00，暂不发送。"@))
    } else {
        match send_settings_check(settings) {
            Ok(()) => Ok(None),
            Err(e) => Err(e),
        }
    }
}

/// The checks of a reminder run before any task is read: the skipped result,
/// none to go on, or the settings error.
pub fn reminder_precheck(settings: &EmailReminderSettings, hour: u32) -> (r: Result<
    Option<EmailReminderResult>,
    String,
>)
    ensures
        match reminder_precheck_spec(*settings, hour as int) {
            Ok(Some(m)) => r matches Ok(Some(x)) && x.status@ == "skipped"@ && x.message@ == m
                && x.sent_count == 0,
            Ok(None) => r matches Ok(None),
            Err(e) => r matches Err(m) && m@ == e,
        },
{
    if !settings.enabled {
        return Ok(Some(skipped("邮件提醒未开启。")));
    }
    if !is_after_reminder_time_at(hour) {
        return Ok(Some(skipped("还没到 21:00，暂不发送。")));
    }
    match validate_send_settings(settings) {
        Ok(()) => Ok(None),
        Err(e) => Err(e),
    }
}

/// The result when every task due tomorrow was already reminded of, or none is due.
pub fn nothing_pending_result() -> (r: EmailReminderResult)
    ensures
        r.status@ == "skipped"@ && r.message@ == "没有需要发送的明日到期任务，或已经发送过。"@ && r.sent_count
            == 0,
{
    skipped("没有需要发送的明日到期任务，或已经发送过。")
}

/// A run that sent nothing.
pub fn skipped(message: &str) -> (r: EmailReminderResult)
    ensures
        r.status@ == "skipped"@ && r.message@ == message@ && r.sent_count == 0,
{
    EmailReminderResult {
        status: String::from_str("skipped"),
        message: String::from_str(message),
        sent_count: 0,
    }
}

/// A run that sent reminders for `count` tasks.
pub fn sent_result(count: i64) -> (r: EmailReminderResult)
    ensures
        r.status@ == "sent"@,
        r.message@ == "已发送 "@ + int_decimal(count as int) + " 个明日到期任务提醒。"@,
        r.sent_count == count,
{
    let mut m = String::from_str("已发送 ");
    push_str(&mut m, i64_to_string(count).as_str());
    push_str(&mut m, " 个明日到期任务提醒。");
    EmailReminderResult { status: String::from_str("sent"), message: m, sent_count: count }
}

/// The subject of the reminder of tasks due on a date.
pub fn reminder_subject(due_date: &str) -> (r: String)
    ensures
        r@ == "明天到期任务提醒（"@ + due_date@ + "）"@,
{
    let mut s = String::from_str("明天到期任务提醒（");
    push_str(&mut s, due_date);
    push_str(&mut s, "）");
    s
}

} // verus!
