//! The foreground-window monitor of study mode: when the whitelist is
//! enforced, what a check reports when it is not, which blocked window counts
//! as a new interruption, and when the study subject follows the window.
use crate::text::{lower_spec, str_contains, contains_spec, to_ascii_lowercase, trim, trim_spec};
use vstd::prelude::*;
use vstd::string::*;

verus! {

/// The window in the foreground, as the platform layer reports it.
#[derive(Clone, Debug)]
pub struct ForegroundApp {
    pub process_name: String,
    pub process_path: Option<String>,
    pub window_title: Option<String>,
}

/// The whitelist's verdict on a foreground window.
#[derive(Clone, Debug)]
pub struct WhitelistMatchResult {
    pub allowed: bool,
    pub reason: String,
    pub matched_process_name: Option<String>,
    pub detected_domain: Option<String>,
    pub matched_subject_id: Option<i64>,
}

/// What one check of the foreground window found and did.
#[derive(Clone, Debug)]
pub struct FocusAppCheck {
    pub foreground_app: ForegroundApp,
    pub match_result: WhitelistMatchResult,
    pub interruption_count: i64,
    pub action_taken: Option<String>,
    pub close_error: Option<String>,
}

/// The interruptions by one program: its latest blocked window and how often
/// it was blocked.
#[derive(Clone, Debug)]
pub struct InterruptionSummary {
    pub process_name: String,
    pub process_path: Option<String>,
    pub window_title: Option<String>,
    pub interruption_count: i64,
    pub last_interrupted_at: String,
}

/// The whitelist is enforced in strict mode or when it is switched on, and
/// only while focusing or waiting for a break.
pub open spec fn enforces_whitelist_spec(mode: Seq<char>, whitelist_enabled: bool, phase: Seq<char>) -> bool {
    (mode == "strict"@ || whitelist_enabled) && (phase == "focus"@ || phase == "awaiting_break"@)
}

pub fn study_mode_enforces_whitelist(mode: &str, whitelist_enabled: bool, phase: &str) -> (r: bool)
    ensures
        r == enforces_whitelist_spec(mode@, whitelist_enabled, phase@),
{
    let strict = String::from_str(mode) == String::from_str("strict");
    let focus = String::from_str(phase) == String::from_str("focus");
    let awaiting = String::from_str(phase) == String::from_str("awaiting_break");
    (strict || whitelist_enabled) && (focus || awaiting)
}

/// Why a check did not enforce the whitelist: switched off (not strict and
/// not enabled), or not enforced in the current phase.
pub open spec fn non_enforcing_reason_spec(mode: Seq<char>, whitelist_enabled: bool) -> Seq<char> {
    if mode != "strict"@ && !whitelist_enabled {
        "白名单已关闭"@
    } else {
        "白名单未执行"@
    }
}

pub fn non_enforcing_reason(mode: &str, whitelist_enabled: bool) -> (r: String)
    ensures
        r@ == non_enforcing_reason_spec(mode@, whitelist_enabled),
{
    if !(String::from_str(mode) == String::from_str("strict")) && !whitelist_enabled {
        String::from_str("白名单已关闭")
    } else {
        String::from_str("白名单未执行")
    }
}

/// The verdict a check reports when the whitelist is not enforced: allowed,
/// with the reason, and nothing matched.
pub fn non_enforcing_match_result(mode: &str, whitelist_enabled: bool) -> (r: WhitelistMatchResult)
    ensures
        r.allowed,
        r.reason@ == non_enforcing_reason_spec(mode@, whitelist_enabled),
        r.matched_process_name is None,
        r.detected_domain is None,
        r.matched_subject_id is None,
{
    WhitelistMatchResult {
        allowed: true,
        reason: non_enforcing_reason(mode, whitelist_enabled),
        matched_process_name: None,
        detected_domain: None,
        matched_subject_id: None,
    }
}

/// A whitelisted website stored before launch addresses had their own field:
/// a domain entry holding a `/` is itself the address to open.
pub open spec fn legacy_url_spec(value: Seq<char>) -> Option<Seq<char>> {
    if contains_spec(trim_spec(value), seq!['/']) {
        Some(trim_spec(value))
    } else {
        None
    }
}

pub fn legacy_specific_url(value: &str) -> (r: Option<String>)
    ensures
        match r {
            Some(s) => legacy_url_spec(value@) == Some(s@),
            None => legacy_url_spec(value@) is None,
        },
{
    let t = trim(value);
    let slash = "/";
    proof {
        reveal_strlit("/");
        assert(slash@ =~= seq!['/']);
    }
    if str_contains(t.as_str(), slash) {
        Some(t)
    } else {
        None
    }
}

/// Where a monitor check goes once the study mode row is read.
#[derive(Clone, Debug, PartialEq, Eq)]
pub enum MonitorPlan {
    /// Report the window without enforcing, with the interruptions of this
    /// session (if any) and the reason.
    NotEnforcing { session_id: Option<i64>, reason: String },
    /// Check the window against the whitelist for this session.
    CheckSession { session_id: i64 },
    /// Check the window against the whitelist with no session, counting
    /// repeated blocks of one program once within this scope.
    CheckWithoutSession { dedupe_scope_id: i64 },
}

/// The check of a focus session: when an active study mode runs this session
/// and does not enforce the whitelist, report without enforcing; otherwise
/// check against the whitelist.
pub fn plan_session_check(session_id: i64, active: Option<(&str, bool, &str)>) -> (r: MonitorPlan)
    ensures
        match active {
            Some((mode, wl, phase)) => if !enforces_whitelist_spec(mode@, wl, phase@) {
                r matches MonitorPlan::NotEnforcing { session_id: s, reason }
                    && s == Some(session_id) && reason@ == non_enforcing_reason_spec(mode@, wl)
            } else {
                r == MonitorPlan::CheckSession { session_id }
            },
            None => r == MonitorPlan::CheckSession { session_id },
        },
{
    match active {
        Some((mode, wl, phase)) => {
            if !study_mode_enforces_whitelist(mode, wl, phase) {
                MonitorPlan::NotEnforcing { session_id: Some(session_id), reason: non_enforcing_reason(mode, wl) }
            } else {
                MonitorPlan::CheckSession { session_id }
            }
        },
        None => MonitorPlan::CheckSession { session_id },
    }
}

/// The check of the active study mode (its id, its session if any, mode,
/// whitelist switch and phase): none without an active mode; report without
/// enforcing when the whitelist is not enforced; else check for its session,
/// or without one, scoping repeated blocks by the negated mode id.
pub fn plan_active_mode_check(active: Option<(i64, Option<i64>, &str, bool, &str)>) -> (r: Result<MonitorPlan, String>)
    requires
        active matches Some(a) ==> a.0 > i64::MIN,
    ensures
        match active {
            None => r matches Err(e) && e@ == "No active study mode to monitor."@,
            Some((id, session, mode, wl, phase)) => if !enforces_whitelist_spec(mode@, wl, phase@) {
                r matches Ok(MonitorPlan::NotEnforcing { session_id: s, reason })
                    && s == session && reason@ == non_enforcing_reason_spec(mode@, wl)
            } else {
                match session {
                    Some(s) => r == Ok::<MonitorPlan, String>(MonitorPlan::CheckSession { session_id: s }),
                    None => r == Ok::<MonitorPlan, String>(MonitorPlan::CheckWithoutSession { dedupe_scope_id: (-id) as i64 }),
                }
            },
        },
{
    match active {
        None => Err(String::from_str("No active study mode to monitor.")),
        Some((id, session, mode, wl, phase)) => {
            if !study_mode_enforces_whitelist(mode, wl, phase) {
                Ok(MonitorPlan::NotEnforcing { session_id: session, reason: non_enforcing_reason(mode, wl) })
            } else {
                match session {
                    Some(s) => Ok(MonitorPlan::CheckSession { session_id: s }),
                    None => Ok(MonitorPlan::CheckWithoutSession { dedupe_scope_id: -id }),
                }
            }
        },
    }
}

/// A blocked window counts as a new interruption unless the last one blocked
/// in the same scope came from the same program (names compared without
/// ASCII case; the last entry keeps the lower-cased name).
pub open spec fn counts_as_new(last: Option<(i64, Seq<char>)>, scope: i64, process_name: Seq<char>) -> bool {
    match last {
        Some((s, name)) => !(s == scope && name == lower_spec(process_name)),
        None => true,
    }
}

pub open spec fn last_view(last: Option<(i64, String)>) -> Option<(i64, Seq<char>)> {
    match last {
        Some((s, name)) => Some((s, name@)),
        None => None,
    }
}

/// Whether a blocked window counts as a new interruption, and the new
/// last-blocked entry: the scope and the lower-cased program name.
pub fn blocked_window_record(last: Option<(i64, String)>, scope: i64, process_name: &str) -> (r: (bool, (i64, String)))
    ensures
        r.0 == counts_as_new(last_view(last), scope, process_name@),
        r.1.0 == scope,
        r.1.1@ == lower_spec(process_name@),
{
    let current = to_ascii_lowercase(process_name);
    let record = match last {
        Some((s, name)) => !(s == scope && name == current),
        None => true,
    };
    (record, (scope, current))
}

/// Right after a block is noted, the same program blocked again in the same
/// scope is not counted a second time, even when its name differs in ASCII
/// case; in another scope, or from a program of another name, it is counted.
pub proof fn lemma_repeated_block_counted_once(scope: i64, first: Seq<char>, second: Seq<char>, other_scope: i64)
    ensures
        lower_spec(first) == lower_spec(second) ==> !counts_as_new(Some((scope, lower_spec(first))), scope, second),
        lower_spec(first) != lower_spec(second) ==> counts_as_new(Some((scope, lower_spec(first))), scope, second),
        other_scope != scope ==> counts_as_new(Some((other_scope, lower_spec(first))), scope, second),
{
}

/// What the close attempt on a blocked window leaves in the check: the action
/// taken and, when closing failed, its error.
pub fn close_outcome(closed: Result<(), String>) -> (r: (String, Option<String>))
    ensures
        match closed {
            Ok(()) => r.0@ == "close_window"@ && r.1 is None,
            Err(e) => r.0@ == "close_window_failed"@ && r.1 == Some(e),
        },
{
    match closed {
        Ok(()) => (String::from_str("close_window"), None),
        Err(e) => (String::from_str("close_window_failed"), Some(e)),
    }
}

/// The subject a study mode switches to when an allowed window belongs to a
/// subject: that subject, unless the mode already studies it.
pub fn subject_switch_target(matched_subject_id: Option<i64>, current_subject_id: Option<i64>) -> (r: Option<i64>)
    ensures
        r == match matched_subject_id {
            Some(s) => if current_subject_id == Some(s) {
                None::<i64>
            } else {
                Some(s)
            },
            None => None::<i64>,
        },
{
    match matched_subject_id {
        Some(s) => match current_subject_id {
            Some(c) => if c == s {
                None
            } else {
                Some(s)
            },
            None => Some(s),
        },
        None => None,
    }
}

} // verus!
