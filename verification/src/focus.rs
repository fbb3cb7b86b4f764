//! The study mode: a planned stretch of study cut into pomodoro focus runs
//! and short or long breaks. Each record keeps how much study time has been
//! banked; every step of the state machine below is decided from the record
//! and the current time, and the application stores what the step says.
use crate::clock::{
    in_chrono_range, rfc3339_parse, rfc3339_parse_result, seconds_between, seconds_between_spec,
    Instant,
};
use vstd::prelude::*;
use vstd::string::*;

verus! {

// ---------------------------------------------------------------------------
// Records and views
// ---------------------------------------------------------------------------

/// A focus session row.
#[derive(Clone, Debug)]
pub struct FocusSession {
    pub id: i64,
    pub mode: String,
    pub subject_id: Option<i64>,
    pub planned_seconds: i64,
    pub actual_seconds: i64,
    pub started_at: String,
    pub ended_at: Option<String>,
    pub status: String,
    pub end_reason: Option<String>,
    pub interruption_count: i64,
    pub emergency_exit_count: i64,
    pub created_at: String,
    pub updated_at: String,
}

/// A study subject.
#[derive(Clone, Debug)]
pub struct Subject {
    pub id: i64,
    pub name: String,
    pub color: String,
    pub enabled: bool,
    pub created_at: String,
    pub updated_at: String,
}

/// Focus time totals.
#[derive(Clone, Debug)]
pub struct FocusStatsSummary {
    pub today_seconds: i64,
    pub week_seconds: i64,
    pub month_seconds: i64,
    pub interruption_count: i64,
    pub subjects: Vec<SubjectStats>,
}

/// Focus time of one subject.
#[derive(Clone, Debug)]
pub struct SubjectStats {
    pub subject: Subject,
    pub total_seconds: i64,
}

/// A running session found at start-up.
#[derive(Clone, Debug)]
pub struct FocusSessionRecovery {
    pub recovery_status: String,
    pub session: FocusSession,
    pub elapsed_seconds: i64,
    pub remaining_seconds: i64,
}

/// The plan items a study mode was started from.
#[derive(Clone, Copy, Debug, Default)]
pub struct StudyModeLinks {
    pub schedule_block_id: Option<i64>,
    pub today_plan_item_id: Option<i64>,
}

/// A stored study mode.
#[derive(Clone, Debug)]
pub struct StudyModeRecord {
    pub id: i64,
    pub state_revision: i64,
    pub mode: String,
    pub subject_id: Option<i64>,
    pub planned_seconds: i64,
    pub focus_seconds: i64,
    pub break_seconds: i64,
    pub long_break_seconds: i64,
    pub long_break_interval: i64,
    pub whitelist_enabled: bool,
    pub phase: String,
    pub cycle_index: i64,
    pub started_at: String,
    pub phase_started_at: String,
    pub paused_at: Option<String>,
    pub accumulated_study_seconds: i64,
    pub total_paused_seconds: i64,
    pub phase_paused_seconds: i64,
    pub paused_stage_elapsed_seconds: i64,
    pub ended_at: Option<String>,
    pub current_session_id: Option<i64>,
    pub schedule_block_id: Option<i64>,
    pub today_plan_item_id: Option<i64>,
    pub status: String,
}

/// The study mode as the interface shows it.
#[derive(Clone, Debug)]
pub struct StudyModeState {
    pub id: Option<i64>,
    pub state_revision: Option<i64>,
    pub phase: String,
    pub status: String,
    pub mode: String,
    pub subject_id: Option<i64>,
    pub planned_seconds: i64,
    pub focus_seconds: i64,
    pub break_seconds: i64,
    pub long_break_seconds: i64,
    pub long_break_interval: i64,
    pub effective_break_seconds: i64,
    pub break_kind: String,
    pub cycle_index: i64,
    pub started_at: Option<String>,
    pub phase_started_at: Option<String>,
    pub paused_at: Option<String>,
    pub ended_at: Option<String>,
    pub current_session: Option<FocusSession>,
    pub study_elapsed_seconds: i64,
    pub study_remaining_seconds: i64,
    pub phase_elapsed_seconds: i64,
    pub phase_remaining_seconds: i64,
    pub focus_enforcement_active: bool,
    pub whitelist_enabled: bool,
    pub is_paused: bool,
}

/// What a background tick compares to know whether the study mode moved.
#[derive(Clone, Debug)]
pub struct StudyRuntimeSyncMarker {
    pub id: Option<i64>,
    pub state_revision: i64,
    pub phase: String,
    pub status: String,
    pub subject_id: Option<i64>,
    pub cycle_index: i64,
    pub paused_at: Option<String>,
    pub current_session_id: Option<i64>,
    pub break_kind: String,
}

/// The in-memory flags the focus monitor reads.
#[derive(Clone, Copy, Debug)]
pub struct StudyRuntime {
    pub study_mode_active: bool,
    pub active_session_id: Option<i64>,
}

// ---------------------------------------------------------------------------
// Breaks
// ---------------------------------------------------------------------------

/// Every `interval`-th cycle ends with a long break.
pub open spec fn is_long_break_spec(cycle_index: int, interval: int) -> bool {
    interval > 0 && cycle_index > 0 && cycle_index % interval == 0
}

/// `long` or `short`: the break that ends the given cycle.
pub fn break_kind_for_cycle(cycle_index: i64, long_break_interval: i64) -> (r: String)
    ensures
        r@ == (if is_long_break_spec(cycle_index as int, long_break_interval as int) {
            "long"@
        } else {
            "short"@
        }),
{
    if long_break_interval > 0 && cycle_index > 0 && cycle_index % long_break_interval == 0 {
        String::from_str("long")
    } else {
        String::from_str("short")
    }
}

pub open spec fn effective_break_spec(r: StudyModeRecord) -> int {
    if is_long_break_spec(r.cycle_index as int, r.long_break_interval as int) {
        r.long_break_seconds as int
    } else {
        r.break_seconds as int
    }
}

/// The length of the break that ends the record's current cycle.
pub fn effective_break_seconds(record: &StudyModeRecord) -> (r: i64)
    ensures
        r == effective_break_spec(*record),
{
    if record.long_break_interval > 0 && record.cycle_index > 0 && record.cycle_index
        % record.long_break_interval == 0 {
        record.long_break_seconds
    } else {
        record.break_seconds
    }
}

/// A long break comes back every `interval` cycles.
pub proof fn lemma_long_break_periodic(cycle_index: int, interval: int)
    requires
        interval > 0,
        cycle_index > 0,
    ensures
        is_long_break_spec(cycle_index, interval) == is_long_break_spec(
            cycle_index + interval,
            interval,
        ),
        is_long_break_spec(interval, interval),
{
    assert((cycle_index + interval) % interval == cycle_index % interval) by (nonlinear_arith)
        requires
            interval > 0,
    {
        vstd::arithmetic::div_mod::lemma_mod_add_multiples_vanish(cycle_index, interval);
    }
    vstd::arithmetic::div_mod::lemma_mod_self_0(interval);
}

// ---------------------------------------------------------------------------
// Elapsed time
// ---------------------------------------------------------------------------

/// Whole seconds from an instant given by its parts to `now`, 0 before it.
pub open spec fn since_spec(start: (int, int), now: Instant) -> int {
    seconds_between_spec(Instant { secs: start.0 as i64, nanos: start.1 as u32 }, now)
}

/// Seconds since an RFC 3339 time, or the parser's error.
pub open spec fn seconds_since_spec(started_at: Seq<char>, now: Instant) -> Result<int, Seq<char>> {
    match rfc3339_parse_result(started_at) {
        Err(e) => Err(e),
        Ok(p) => Ok(since_spec(p, now)),
    }
}

/// Whole seconds from `started_at` to `now`; 0 when `started_at` is later.
pub fn seconds_since(started_at: &str, now: Instant) -> (r: Result<i64, String>)
    requires
        in_chrono_range(now),
    ensures
        match r {
            Ok(s) => seconds_since_spec(started_at@, now) == Ok::<int, Seq<char>>(s as int) && s
                >= 0,
            Err(e) => seconds_since_spec(started_at@, now) == Err::<int, Seq<char>>(e@),
        },
{
    match rfc3339_parse(started_at) {
        Err(e) => Err(e),
        Ok(t) => Ok(seconds_between(t, now)),
    }
}

pub open spec fn max0(x: int) -> int {
    if x < 0 {
        0
    } else {
        x
    }
}

pub open spec fn min_int(a: int, b: int) -> int {
    if a < b {
        a
    } else {
        b
    }
}

/// Seconds spent in the current phase: frozen while paused, else counted
/// from the phase's start.
pub open spec fn phase_elapsed_spec(r: StudyModeRecord, now: Instant) -> Result<int, Seq<char>> {
    if r.paused_at is Some {
        Ok(max0(r.paused_stage_elapsed_seconds as int))
    } else {
        seconds_since_spec(r.phase_started_at@, now)
    }
}

/// Seconds spent in the current phase.
pub fn phase_elapsed_seconds(record: &StudyModeRecord, now: Instant) -> (r: Result<i64, String>)
    requires
        in_chrono_range(now),
    ensures
        match r {
            Ok(s) => phase_elapsed_spec(*record, now) == Ok::<int, Seq<char>>(s as int) && s >= 0,
            Err(e) => phase_elapsed_spec(*record, now) == Err::<int, Seq<char>>(e@),
        },
{
    if record.paused_at.is_some() {
        return Ok(
            if record.paused_stage_elapsed_seconds < 0 {
                0
            } else {
                record.paused_stage_elapsed_seconds
            },
        );
    }
    seconds_since(record.phase_started_at.as_str(), now)
}

/// Whether the phase counts as study time.
pub open spec fn is_study_phase(phase: Seq<char>) -> bool {
    phase == "focus"@ || phase == "awaiting_break"@
}

fn is_study_phase_exec(phase: &String) -> (b: bool)
    ensures
        b == is_study_phase(phase@),
{
    *phase == String::from_str("focus") || *phase == String::from_str("awaiting_break")
}

/// Study time banked so far: the banked seconds plus, in a study phase, the
/// current phase's, capped at the plan and at least 0.
pub open spec fn study_elapsed_spec(r: StudyModeRecord, now: Instant) -> Result<int, Seq<char>> {
    if is_study_phase(r.phase@) {
        match phase_elapsed_spec(r, now) {
            Err(e) => Err(e),
            Ok(p) => Ok(max0(min_int(r.accumulated_study_seconds + p, r.planned_seconds as int))),
        }
    } else {
        Ok(max0(min_int(r.accumulated_study_seconds as int, r.planned_seconds as int)))
    }
}

/// `max(min(x, cap), 0)` of a wide value, which then fits 64 bits.
fn clamp_to_plan(x: i128, cap: i64) -> (r: i64)
    ensures
        r == max0(min_int(x as int, cap as int)),
{
    let m: i128 = if x < cap as i128 {
        x
    } else {
        cap as i128
    };
    if m < 0 {
        0
    } else {
        m as i64
    }
}

/// Study time banked so far (see `study_elapsed_spec`).
pub fn study_elapsed_seconds(record: &StudyModeRecord, now: Instant) -> (r: Result<i64, String>)
    requires
        in_chrono_range(now),
    ensures
        match r {
            Ok(s) => study_elapsed_spec(*record, now) == Ok::<int, Seq<char>>(s as int),
            Err(e) => study_elapsed_spec(*record, now) == Err::<int, Seq<char>>(e@),
        },
        // within the plan, banked time never goes back
        r matches Ok(s) ==> 0 <= record.accumulated_study_seconds <= record.planned_seconds
            ==> record.accumulated_study_seconds <= s <= record.planned_seconds,
{
    let current: i64 = if is_study_phase_exec(&record.phase) {
        match phase_elapsed_seconds(record, now) {
            Ok(p) => p,
            Err(e) => {
                return Err(e);
            },
        }
    } else {
        0
    };
    Ok(
        clamp_to_plan(
            record.accumulated_study_seconds as i128 + current as i128,
            record.planned_seconds,
        ),
    )
}

/// Study time left in the plan (never negative, saturating at `i64::MAX`).
pub open spec fn remaining_study_spec(r: StudyModeRecord) -> int {
    max0(min_int(r.planned_seconds - r.accumulated_study_seconds, i64::MAX as int))
}

/// `planned.saturating_sub(accumulated).max(0)`.
pub fn remaining_study_seconds(record: &StudyModeRecord) -> (r: i64)
    ensures
        r == remaining_study_spec(*record),
{
    let d: i128 = record.planned_seconds as i128 - record.accumulated_study_seconds as i128;
    clamp_to_plan(d, i64::MAX)
}

/// The length of the current focus run: a pomodoro, or what is left of the
/// plan when that is shorter.
pub open spec fn focus_run_spec(r: StudyModeRecord) -> int {
    min_int(r.focus_seconds as int, remaining_study_spec(r))
}

pub fn focus_run_seconds(record: &StudyModeRecord) -> (r: i64)
    ensures
        r == focus_run_spec(*record),
{
    let remaining = remaining_study_seconds(record);
    if record.focus_seconds < remaining {
        record.focus_seconds
    } else {
        remaining
    }
}

/// Seconds to record for the running focus session: in a focus phase the
/// phase's time up to a pomodoro and the plan's remainder; once a pomodoro
/// is over and the break awaits, the pomodoro plus the time since, up to the
/// remainder. At most `i64::MAX`.
pub open spec fn session_actual_spec(r: StudyModeRecord, now: Instant) -> Result<int, Seq<char>> {
    match phase_elapsed_spec(r, now) {
        Err(e) => Err(e),
        Ok(p) => {
            let rem = remaining_study_spec(r);
            let v = if r.phase@ == "awaiting_break"@ {
                r.focus_seconds + min_int(p, rem)
            } else {
                min_int(min_int(p, r.focus_seconds as int), rem)
            };
            Ok(max0(min_int(v, i64::MAX as int)))
        },
    }
}

/// The seconds to record for the running session (see `session_actual_spec`).
pub fn focus_session_actual_seconds(record: &StudyModeRecord, now: Instant) -> (r: Result<
    i64,
    String,
>)
    requires
        in_chrono_range(now),
    ensures
        match r {
            Ok(s) => session_actual_spec(*record, now) == Ok::<int, Seq<char>>(s as int),
            Err(e) => session_actual_spec(*record, now) == Err::<int, Seq<char>>(e@),
        },
{
    let remaining_total = remaining_study_seconds(record);
    let phase_elapsed = match phase_elapsed_seconds(record, now) {
        Ok(p) => p,
        Err(e) => {
            return Err(e);
        },
    };
    let awaiting = record.phase == String::from_str("awaiting_break");
    let v: i128 = if awaiting {
        let m = if phase_elapsed < remaining_total {
            phase_elapsed
        } else {
            remaining_total
        };
        record.focus_seconds as i128 + m as i128
    } else {
        let a = if phase_elapsed < record.focus_seconds {
            phase_elapsed
        } else {
            record.focus_seconds
        };
        let b = if a < remaining_total {
            a
        } else {
            remaining_total
        };
        b as i128
    };
    Ok(clamp_to_plan(v, i64::MAX))
}

} // verus!
