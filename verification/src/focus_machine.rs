//! The study-mode state machine: the step a tick takes, breaks, pause and
//! resume, exits, and the state shown to the user. Each function decides
//! from the stored record and the current time; the application performs
//! the database update the step names.
use crate::clock::{in_chrono_range, rfc3339_parse, rfc3339_parse_result, seconds_between_spec, Instant};
use crate::focus::{
    break_kind_for_cycle, effective_break_seconds, effective_break_spec, focus_run_seconds,
    focus_run_spec, focus_session_actual_seconds, is_long_break_spec, is_study_phase, max0,
    min_int, phase_elapsed_seconds, phase_elapsed_spec, remaining_study_seconds,
    remaining_study_spec, seconds_since, seconds_since_spec, session_actual_spec, study_elapsed_seconds, study_elapsed_spec, FocusSession, FocusSessionRecovery, StudyModeRecord,
    StudyModeState, StudyRuntime, StudyRuntimeSyncMarker,
};
use vstd::prelude::*;
use vstd::string::*;

verus! {

/// Well-formed banked time: between 0 and the plan.
pub open spec fn banked_in_plan(r: StudyModeRecord) -> bool {
    0 <= r.accumulated_study_seconds <= r.planned_seconds
}

/// The instant `secs` seconds after `t`, when it stays in `chrono`'s range.
pub open spec fn shifted_spec(t: (int, int), secs: int) -> Option<Instant> {
    let s = t.0 + secs;
    if -8_796_093_022_208 < s < 8_796_093_022_208 && t.1 < 2_000_000_000 {
        Some(Instant { secs: s as i64, nanos: t.1 as u32 })
    } else {
        None
    }
}

/// `t` moved by `secs` seconds; an error past `chrono`'s range.
fn shift_instant(t: Instant, secs: i64) -> (r: Result<Instant, String>)
    requires
        in_chrono_range(t),
    ensures
        match r {
            Ok(x) => shifted_spec((t.secs as int, t.nanos as int), secs as int) == Some(x)
                && in_chrono_range(x),
            Err(e) => shifted_spec((t.secs as int, t.nanos as int), secs as int) is None && e@
                == "时间超出范围。"@,
        },
{
    let s: i128 = t.secs as i128 + secs as i128;
    if -8_796_093_022_208 < s && s < 8_796_093_022_208 {
        Ok(Instant { secs: s as i64, nanos: t.nanos })
    } else {
        Err(String::from_str("时间超出范围。"))
    }
}

/// The phase's start moved by `secs`, or the error of reading it or of
/// leaving the range.
pub open spec fn phase_start_plus_spec(r: StudyModeRecord, secs: int) -> Result<Instant, Seq<char>> {
    match rfc3339_parse_result(r.phase_started_at@) {
        Err(e) => Err(e),
        Ok(p) => match shifted_spec(p, secs) {
            Some(x) => Ok(x),
            None => Err("时间超出范围。"@),
        },
    }
}

fn phase_start_plus(record: &StudyModeRecord, secs: i64) -> (r: Result<Instant, String>)
    ensures
        match r {
            Ok(x) => phase_start_plus_spec(*record, secs as int) == Ok::<Instant, Seq<char>>(x)
                && in_chrono_range(x),
            Err(e) => phase_start_plus_spec(*record, secs as int) == Err::<Instant, Seq<char>>(
                e@,
            ),
        },
{
    match rfc3339_parse(record.phase_started_at.as_str()) {
        Err(e) => Err(e),
        Ok(t) => shift_instant(t, secs),
    }
}

/// The step a tick takes on the active study mode.
#[derive(Clone, Copy, Debug)]
pub enum AdvanceStep {
    /// Paused: nothing moves.
    Paused,
    /// A focus phase without a session: open one now; the phase restarts now.
    StartSession,
    /// The plan is done: finish at `at`, with `accumulated` banked and the
    /// running session (if any) closed with `session_seconds`.
    Finish { at: Instant, accumulated: i64, session_seconds: i64 },
    /// The pomodoro is over: wait for the break from `phase_started_at`,
    /// with `accumulated` banked.
    AwaitBreak { phase_started_at: Instant, accumulated: i64 },
    /// The break is over: the next cycle's focus session starts at `started_at`.
    NextFocus { started_at: Instant },
    /// Nothing is due yet.
    Wait,
}

/// The finish at `at` of the record with `accumulated` banked.
pub open spec fn finish_at_spec(r: StudyModeRecord, at: Instant, accumulated: int) -> Result<
    AdvanceStep,
    Seq<char>,
> {
    match session_actual_spec(r, at) {
        Err(e) => Err(e),
        Ok(s) => Ok(
            AdvanceStep::Finish {
                at,
                accumulated: max0(min_int(accumulated, r.planned_seconds as int)) as i64,
                session_seconds: s as i64,
            },
        ),
    }
}

/// The step of a tick:
/// - paused: nothing moves;
/// - focus without a session: start one;
/// - focus whose run (a pomodoro, or the plan's remainder) is used up:
///   finish when nothing is left, else bank the run and wait for the
///   break from the moment the run ended — or finish there when that
///   completes the plan;
/// - awaiting a break once the plan's remainder has passed: finish;
/// - a break that has lasted its length: the next cycle's focus starts
///   when the break ended;
/// - otherwise nothing.
pub open spec fn advance_spec(r: StudyModeRecord, now: Instant) -> Result<AdvanceStep, Seq<char>> {
    if r.paused_at is Some {
        Ok(AdvanceStep::Paused)
    } else if r.phase@ == "focus"@ {
        if r.current_session_id is None {
            Ok(AdvanceStep::StartSession)
        } else {
            match phase_elapsed_spec(r, now) {
                Err(e) => Err(e),
                Ok(pe) => {
                    let run = focus_run_spec(r);
                    if run <= 0 {
                        let acc = match study_elapsed_spec(r, now) {
                            Ok(s) => s,
                            Err(_) => r.accumulated_study_seconds as int,
                        };
                        finish_at_spec(r, now, acc)
                    } else if pe >= run {
                        match phase_start_plus_spec(r, run) {
                            Err(e) => Err(e),
                            Ok(end) => {
                                let next = min_int(
                                    r.accumulated_study_seconds + run,
                                    r.planned_seconds as int,
                                );
                                if next >= r.planned_seconds {
                                    finish_at_spec(r, end, next)
                                } else {
                                    Ok(
                                        AdvanceStep::AwaitBreak {
                                            phase_started_at: end,
                                            accumulated: next as i64,
                                        },
                                    )
                                }
                            },
                        }
                    } else {
                        Ok(AdvanceStep::Wait)
                    }
                },
            }
        }
    } else if r.phase@ == "awaiting_break"@ {
        match phase_elapsed_spec(r, now) {
            Err(e) => Err(e),
            Ok(pe) => {
                let rem = remaining_study_spec(r);
                if rem <= 0 || pe >= rem {
                    match phase_start_plus_spec(r, rem) {
                        Err(e) => Err(e),
                        Ok(at) => finish_at_spec(r, at, r.planned_seconds as int),
                    }
                } else {
                    Ok(AdvanceStep::Wait)
                }
            },
        }
    } else if r.phase@ == "break"@ {
        match phase_elapsed_spec(r, now) {
            Err(e) => Err(e),
            Ok(pe) => if pe >= effective_break_spec(r) {
                match phase_start_plus_spec(r, effective_break_spec(r)) {
                    Err(e) => Err(e),
                    Ok(at) => Ok(AdvanceStep::NextFocus { started_at: at }),
                }
            } else {
                Ok(AdvanceStep::Wait)
            },
        }
    } else {
        Ok(AdvanceStep::Wait)
    }
}

/// A break ends once it has lasted its length: the long break when the
/// cycle index is a positive multiple of a positive `long_break_interval`,
/// the short break otherwise. The next focus then starts exactly that long
/// after the break began; before that, a tick waits.
pub proof fn lemma_break_tick(r: StudyModeRecord, now: Instant, start: (int, int))
    requires
        r.paused_at is None,
        r.phase@ == "break"@,
        rfc3339_parse_result(r.phase_started_at@) == Ok::<(int, int), Seq<char>>(start),
    ensures
        ({
            let length: int = if r.long_break_interval > 0 && r.cycle_index > 0 && r.cycle_index
                % r.long_break_interval == 0 {
                r.long_break_seconds as int
            } else {
                r.break_seconds as int
            };
            let elapsed = seconds_between_spec(Instant { secs: start.0 as i64, nanos: start.1 as u32 }, now);
            let fits = -8_796_093_022_208 < start.0 + length < 8_796_093_022_208 && start.1 < 2_000_000_000;
            &&& elapsed < length ==> advance_spec(r, now) == Ok::<AdvanceStep, Seq<char>>(AdvanceStep::Wait)
            &&& elapsed >= length && fits && 0 <= start.1 ==> (advance_spec(r, now) matches Ok(AdvanceStep::NextFocus { started_at })
                && started_at.secs == start.0 + length && started_at.nanos == start.1)
            &&& elapsed >= length && !fits ==> advance_spec(r, now) is Err
        }),
{
    reveal_strlit("break");
    reveal_strlit("focus");
    reveal_strlit("awaiting_break");
    assert("break"@ != "focus"@) by {
        assert("break"@[0] != "focus"@[0]);
    }
    assert("break"@ != "awaiting_break"@) by {
        assert("break"@[0] != "awaiting_break"@[0]);
    }
}

/// A pomodoro that does not finish the plan ends once it has lasted
/// `focus_seconds`: the run is banked and the break is awaited from exactly
/// that moment; before that, a tick waits.
pub proof fn lemma_focus_tick(r: StudyModeRecord, now: Instant, start: (int, int))
    requires
        r.paused_at is None,
        r.phase@ == "focus"@,
        r.current_session_id is Some,
        0 < r.focus_seconds,
        r.accumulated_study_seconds + r.focus_seconds < r.planned_seconds,
        0 <= r.accumulated_study_seconds,
        rfc3339_parse_result(r.phase_started_at@) == Ok::<(int, int), Seq<char>>(start),
    ensures
        ({
            let elapsed = seconds_between_spec(Instant { secs: start.0 as i64, nanos: start.1 as u32 }, now);
            let fits = -8_796_093_022_208 < start.0 + r.focus_seconds < 8_796_093_022_208 && start.1
                < 2_000_000_000;
            &&& elapsed < r.focus_seconds ==> advance_spec(r, now) == Ok::<AdvanceStep, Seq<char>>(
                AdvanceStep::Wait,
            )
            &&& elapsed >= r.focus_seconds && fits && 0 <= start.1 ==> (advance_spec(r, now) matches Ok(
                AdvanceStep::AwaitBreak { phase_started_at, accumulated },
            ) && phase_started_at.secs == start.0 + r.focus_seconds && phase_started_at.nanos == start.1
                && accumulated == r.accumulated_study_seconds + r.focus_seconds)
        }),
{
    reveal_strlit("focus");
}

/// The finish of the record at `at` with `accumulated` banked.
fn finish_at(record: &StudyModeRecord, at: Instant, accumulated: i64) -> (r: Result<
    AdvanceStep,
    String,
>)
    requires
        in_chrono_range(at),
    ensures
        match r {
            Ok(s) => finish_at_spec(*record, at, accumulated as int) == Ok::<AdvanceStep, Seq<char>>(
                s,
            ),
            Err(e) => finish_at_spec(*record, at, accumulated as int) == Err::<
                AdvanceStep,
                Seq<char>,
            >(e@),
        },
{
    let session_seconds = match focus_session_actual_seconds(record, at) {
        Ok(s) => s,
        Err(e) => {
            return Err(e);
        },
    };
    let capped = if accumulated < record.planned_seconds {
        accumulated
    } else {
        record.planned_seconds
    };
    let banked = if capped < 0 {
        0
    } else {
        capped
    };
    Ok(AdvanceStep::Finish { at, accumulated: banked, session_seconds })
}

/// Decides a tick's step (see `advance_spec`).
pub fn decide_advance(record: &StudyModeRecord, now: Instant) -> (r: Result<AdvanceStep, String>)
    requires
        in_chrono_range(now),
    ensures
        match r {
            Ok(s) => advance_spec(*record, now) == Ok::<AdvanceStep, Seq<char>>(s),
            Err(e) => advance_spec(*record, now) == Err::<AdvanceStep, Seq<char>>(e@),
        },
        // banked study time stays within the plan and never goes back
        banked_in_plan(*record) ==> match r {
            Ok(AdvanceStep::Finish { accumulated, .. }) => record.accumulated_study_seconds
                <= accumulated <= record.planned_seconds,
            Ok(AdvanceStep::AwaitBreak { accumulated, .. }) => record.accumulated_study_seconds
                < accumulated < record.planned_seconds,
            _ => true,
        },
        // which phases each step leaves from
        r matches Ok(AdvanceStep::NextFocus { .. }) ==> record.phase@ == "break"@,
        r matches Ok(AdvanceStep::AwaitBreak { .. }) ==> record.phase@ == "focus"@,
        r matches Ok(AdvanceStep::Finish { .. }) ==> is_study_phase(record.phase@),
        r matches Ok(AdvanceStep::StartSession) ==> record.phase@ == "focus"@
            && record.current_session_id is None,
        record.paused_at is Some ==> r matches Ok(AdvanceStep::Paused),
{
    if record.paused_at.is_some() {
        return Ok(AdvanceStep::Paused);
    }
    if record.phase == String::from_str("focus") {
        if record.current_session_id.is_none() {
            return Ok(AdvanceStep::StartSession);
        }
        let pe = match phase_elapsed_seconds(record, now) {
            Ok(p) => p,
            Err(e) => {
                return Err(e);
            },
        };
        let run = focus_run_seconds(record);
        if run <= 0 {
            let acc = match study_elapsed_seconds(record, now) {
                Ok(s) => s,
                Err(_) => record.accumulated_study_seconds,
            };
            return finish_at(record, now, acc);
        }
        if pe >= run {
            let end = match phase_start_plus(record, run) {
                Ok(t) => t,
                Err(e) => {
                    return Err(e);
                },
            };
            let sum: i128 = record.accumulated_study_seconds as i128 + run as i128;
            let next: i64 = if sum < record.planned_seconds as i128 {
                sum as i64
            } else {
                record.planned_seconds
            };
            if next >= record.planned_seconds {
                return finish_at(record, end, next);
            }
            return Ok(AdvanceStep::AwaitBreak { phase_started_at: end, accumulated: next });
        }
        return Ok(AdvanceStep::Wait);
    }
    if record.phase == String::from_str("awaiting_break") {
        let pe = match phase_elapsed_seconds(record, now) {
            Ok(p) => p,
            Err(e) => {
                return Err(e);
            },
        };
        let rem = remaining_study_seconds(record);
        if rem <= 0 || pe >= rem {
            let at = match phase_start_plus(record, rem) {
                Ok(t) => t,
                Err(e) => {
                    return Err(e);
                },
            };
            return finish_at(record, at, record.planned_seconds);
        }
        return Ok(AdvanceStep::Wait);
    }
    if record.phase == String::from_str("break") {
        let pe = match phase_elapsed_seconds(record, now) {
            Ok(p) => p,
            Err(e) => {
                return Err(e);
            },
        };
        let length = effective_break_seconds(record);
        if pe >= length {
            return match phase_start_plus(record, length) {
                Ok(t) => Ok(AdvanceStep::NextFocus { started_at: t }),
                Err(e) => Err(e),
            };
        }
        return Ok(AdvanceStep::Wait);
    }
    Ok(AdvanceStep::Wait)
}

} // verus!

verus! {

// ---------------------------------------------------------------------------
// User controls
// ---------------------------------------------------------------------------

/// What a break request does, decided from the state a tick left.
#[derive(Clone, Debug)]
pub enum BreakGate {
    /// The study mode is no longer active: answer with the state as it is.
    ReturnState,
    /// Go on to the record.
    Proceed,
    /// Refuse with this message.
    Reject(String),
}

/// A requested break (`manual`: the user starts one early; otherwise the
/// user confirms the due break). Only an active study mode in a study phase
/// may break; a confirmation needs the break to be due.
pub fn break_request_gate(state: &StudyModeState, manual: bool) -> (r: BreakGate)
    ensures
        state.status@ != "active"@ ==> r matches BreakGate::ReturnState,
        state.status@ == "active"@ && manual ==> (if is_study_phase(state.phase@) {
            r matches BreakGate::Proceed
        } else {
            r matches BreakGate::Reject(m) && m@ == "当前阶段不能开始休息"@
        }),
        state.status@ == "active"@ && !manual ==> (if state.phase@ == "awaiting_break"@ {
            r matches BreakGate::Proceed
        } else {
            r matches BreakGate::Reject(m) && m@ == "当前还没有到休息确认时间"@
        }),
{
    if state.status != String::from_str("active") {
        return BreakGate::ReturnState;
    }
    if manual {
        if state.phase == String::from_str("focus") || state.phase == String::from_str(
            "awaiting_break",
        ) {
            BreakGate::Proceed
        } else {
            BreakGate::Reject(String::from_str("当前阶段不能开始休息"))
        }
    } else if state.phase == String::from_str("awaiting_break") {
        BreakGate::Proceed
    } else {
        BreakGate::Reject(String::from_str("当前还没有到休息确认时间"))
    }
}

/// A pause request: only in a study phase of an active study mode.
pub fn pause_request_gate(state: &StudyModeState) -> (r: BreakGate)
    ensures
        state.status@ != "active"@ ==> r matches BreakGate::ReturnState,
        state.status@ == "active"@ ==> (if is_study_phase(state.phase@) {
            r matches BreakGate::Proceed
        } else {
            r matches BreakGate::Reject(m) && m@ == "休息阶段不能暂停"@
        }),
{
    if state.status != String::from_str("active") {
        return BreakGate::ReturnState;
    }
    if state.phase == String::from_str("focus") || state.phase == String::from_str(
        "awaiting_break",
    ) {
        BreakGate::Proceed
    } else {
        BreakGate::Reject(String::from_str("休息阶段不能暂停"))
    }
}

/// What a break request does to the record.
#[derive(Clone, Copy, Debug)]
pub enum BreakStep {
    /// The plan is done: finish now.
    Finish { at: Instant, accumulated: i64, session_seconds: i64 },
    /// Enter the break now with `accumulated` banked; the running session,
    /// if any, is closed with `session_seconds`.
    EnterBreak { at: Instant, accumulated: i64, session_seconds: Option<i64> },
}

pub open spec fn break_step_spec(r: StudyModeRecord, now: Instant, manual: bool) -> Result<
    BreakStep,
    Seq<char>,
> {
    if r.paused_at is Some {
        Err("学习模式暂停中，请先继续再开始休息"@)
    } else {
        match study_elapsed_spec(r, now) {
            Err(e) => Err(e),
            Ok(done) => if !manual && done >= r.planned_seconds {
                match session_actual_spec(r, now) {
                    Err(e) => Err(e),
                    Ok(s) => Ok(
                        BreakStep::Finish {
                            at: now,
                            accumulated: max0(min_int(done, r.planned_seconds as int)) as i64,
                            session_seconds: s as i64,
                        },
                    ),
                }
            } else if r.current_session_id is Some {
                match session_actual_spec(r, now) {
                    Err(e) => Err(e),
                    Ok(s) => Ok(
                        BreakStep::EnterBreak {
                            at: now,
                            accumulated: done as i64,
                            session_seconds: Some(s as i64),
                        },
                    ),
                }
            } else {
                Ok(BreakStep::EnterBreak { at: now, accumulated: done as i64, session_seconds: None })
            },
        }
    }
}

/// Decides a break request on the active record (see `break_step_spec`).
/// A confirmed break that finds the plan done finishes instead.
pub fn decide_break(record: &StudyModeRecord, now: Instant, manual: bool) -> (r: Result<
    BreakStep,
    String,
>)
    requires
        in_chrono_range(now),
    ensures
        match r {
            Ok(s) => break_step_spec(*record, now, manual) == Ok::<BreakStep, Seq<char>>(s),
            Err(e) => break_step_spec(*record, now, manual) == Err::<BreakStep, Seq<char>>(e@),
        },
        banked_in_plan(*record) ==> match r {
            Ok(BreakStep::Finish { accumulated, .. }) => accumulated == record.planned_seconds,
            Ok(BreakStep::EnterBreak { accumulated, .. }) => record.accumulated_study_seconds
                <= accumulated <= record.planned_seconds,
            _ => true,
        },
{
    if record.paused_at.is_some() {
        return Err(String::from_str("学习模式暂停中，请先继续再开始休息"));
    }
    let done = match study_elapsed_seconds(record, now) {
        Ok(s) => s,
        Err(e) => {
            return Err(e);
        },
    };
    if !manual && done >= record.planned_seconds {
        let s = match focus_session_actual_seconds(record, now) {
            Ok(s) => s,
            Err(e) => {
                return Err(e);
            },
        };
        let capped = if done < record.planned_seconds {
            done
        } else {
            record.planned_seconds
        };
        let banked = if capped < 0 {
            0
        } else {
            capped
        };
        return Ok(BreakStep::Finish { at: now, accumulated: banked, session_seconds: s });
    }
    if record.current_session_id.is_some() {
        match focus_session_actual_seconds(record, now) {
            Ok(s) => Ok(BreakStep::EnterBreak { at: now, accumulated: done, session_seconds: Some(s) }),
            Err(e) => Err(e),
        }
    } else {
        Ok(BreakStep::EnterBreak { at: now, accumulated: done, session_seconds: None })
    }
}

/// The phase time frozen by a pause at `now`.
pub fn pause_stage_elapsed(record: &StudyModeRecord, now: Instant) -> (r: Result<i64, String>)
    requires
        in_chrono_range(now),
    ensures
        match r {
            Ok(s) => phase_elapsed_spec(*record, now) == Ok::<int, Seq<char>>(s as int) && s >= 0,
            Err(e) => phase_elapsed_spec(*record, now) == Err::<int, Seq<char>>(e@),
        },
{
    phase_elapsed_seconds(record, now)
}

/// What a resume writes: the pause's length, added to the paused total, and
/// the phase's new start, set back by the frozen phase time.
#[derive(Clone, Copy, Debug)]
pub struct ResumeUpdate {
    pub paused_seconds: i64,
    pub phase_started_at: Instant,
}

pub open spec fn resume_spec(r: StudyModeRecord, paused_at: Seq<char>, now: Instant) -> Result<
    ResumeUpdate,
    Seq<char>,
> {
    match seconds_since_spec(paused_at, now) {
        Err(e) => Err(e),
        Ok(p) => match shifted_spec(
            (now.secs as int, now.nanos as int),
            -max0(r.paused_stage_elapsed_seconds as int),
        ) {
            None => Err("时间超出范围。"@),
            Some(start) => Ok(ResumeUpdate { paused_seconds: p as i64, phase_started_at: start }),
        },
    }
}

/// Decides a resume of the record paused at `paused_at`.
pub fn decide_resume(record: &StudyModeRecord, paused_at: &str, now: Instant) -> (r: Result<
    ResumeUpdate,
    String,
>)
    requires
        in_chrono_range(now),
    ensures
        match r {
            Ok(u) => resume_spec(*record, paused_at@, now) == Ok::<ResumeUpdate, Seq<char>>(u),
            Err(e) => resume_spec(*record, paused_at@, now) == Err::<ResumeUpdate, Seq<char>>(e@),
        },
{
    let paused_seconds = match seconds_since(paused_at, now) {
        Ok(s) => s,
        Err(e) => {
            return Err(e);
        },
    };
    let frozen: i64 = if record.paused_stage_elapsed_seconds < 0 {
        0
    } else {
        record.paused_stage_elapsed_seconds
    };
    match shift_instant(now, -frozen) {
        Ok(start) => Ok(ResumeUpdate { paused_seconds, phase_started_at: start }),
        Err(e) => Err(e),
    }
}

/// Resuming undoes a pause: a phase paused with `frozen` seconds on it and
/// resumed at `now` (its start set back by `frozen`) shows `frozen` seconds
/// again at the moment of the resume.
pub proof fn lemma_resume_restores_phase_time(now: Instant, frozen: int)
    requires
        in_chrono_range(now),
        frozen >= 0,
        shifted_spec((now.secs as int, now.nanos as int), -frozen) is Some,
    ensures
        seconds_between_spec(shifted_spec((now.secs as int, now.nanos as int), -frozen)->0, now)
            == frozen,
{
}

/// The banked time written when the study mode ends early (emergency exit or
/// reset): the study time so far, within the plan.
pub fn exit_accumulated(record: &StudyModeRecord, now: Instant) -> (r: Result<i64, String>)
    requires
        in_chrono_range(now),
    ensures
        match r {
            Ok(s) => study_elapsed_spec(*record, now) == Ok::<int, Seq<char>>(
                max0(min_int(s as int, i64::MAX as int)),
            ) && 0 <= s && s <= max0(record.planned_seconds as int),
            Err(e) => study_elapsed_spec(*record, now) == Err::<int, Seq<char>>(e@),
        },
{
    match study_elapsed_seconds(record, now) {
        Ok(s) => {
            let capped = if s < record.planned_seconds {
                s
            } else {
                record.planned_seconds
            };
            Ok(
                if capped < 0 {
                    0
                } else {
                    capped
                },
            )
        },
        Err(e) => Err(e),
    }
}

/// An emergency exit is only for strict mode.
pub fn emergency_exit_allowed(record: &StudyModeRecord) -> (r: Result<(), String>)
    ensures
        r is Ok <==> record.mode@ == "strict"@,
        r matches Err(m) ==> m@ == "只有严格模式支持应急退出"@,
{
    if record.mode == String::from_str("strict") {
        Ok(())
    } else {
        Err(String::from_str("只有严格模式支持应急退出"))
    }
}

/// Whether this device may start a study mode: any device when no primary
/// owner is recorded (or the record is blank), else only the owner itself.
pub open spec fn may_start_spec(owner: Option<Seq<char>>, device_id: Seq<char>) -> bool {
    match owner {
        None => true,
        Some(o) => crate::text::trim_spec(o).len() == 0 || crate::text::trim_spec(o) == device_id,
    }
}

/// Checks that this device (`device_id`) may start a study mode, given the
/// stored primary owner device.
pub fn ensure_device_can_start_study_mode(owner: Option<&str>, device_id: &str) -> (r: Result<(), String>)
    ensures
        r is Ok <==> may_start_spec(crate::caldav::opt_str_view(owner), device_id@),
        r matches Err(m) ==> m@ == "当前设备不是主控端，请先切换为主控设备后再开始新的专注。"@,
{
    match owner {
        None => Ok(()),
        Some(o) => {
            let t = crate::text::trim(o);
            if t.as_str().is_empty() || t == String::from_str(device_id) {
                Ok(())
            } else {
                Err(String::from_str("当前设备不是主控端，请先切换为主控设备后再开始新的专注。"))
            }
        },
    }
}

/// Checks the settings of a new study mode: every length positive, and the
/// mode `normal` or `strict`.
pub fn validate_study_mode_start(
    planned_seconds: i64,
    focus_seconds: i64,
    break_seconds: i64,
    long_break_seconds: i64,
    long_break_interval: i64,
    mode: &str,
) -> (r: Result<(), String>)
    ensures
        r is Ok <==> (planned_seconds > 0 && focus_seconds > 0 && break_seconds > 0
            && long_break_seconds > 0 && long_break_interval > 0 && (mode@ == "normal"@ || mode@
            == "strict"@)),
        planned_seconds <= 0 ==> (r matches Err(m) && m@ == "学习模式时长必须大于 0 秒"@),
        planned_seconds > 0 && focus_seconds <= 0 ==> (r matches Err(m) && m@ == "番茄钟时长必须大于 0 秒"@),
        planned_seconds > 0 && focus_seconds > 0 && break_seconds <= 0 ==> (r matches Err(m) && m@ == "短休息时长必须大于 0 秒"@),
        planned_seconds > 0 && focus_seconds > 0 && break_seconds > 0 && long_break_seconds <= 0
            ==> (r matches Err(m) && m@ == "长休息时长必须大于 0 秒"@),
        planned_seconds > 0 && focus_seconds > 0 && break_seconds > 0 && long_break_seconds > 0
            && long_break_interval <= 0 ==> (r matches Err(m) && m@ == "长休息间隔必须大于 0"@),
        planned_seconds > 0 && focus_seconds > 0 && break_seconds > 0 && long_break_seconds > 0
            && long_break_interval > 0 && !(mode@ == "normal"@ || mode@ == "strict"@) ==> (r matches Err(m) && m@ == "未知的专注模式"@),
{
    if planned_seconds <= 0 {
        return Err(String::from_str("学习模式时长必须大于 0 秒"));
    }
    if focus_seconds <= 0 {
        return Err(String::from_str("番茄钟时长必须大于 0 秒"));
    }
    if break_seconds <= 0 {
        return Err(String::from_str("短休息时长必须大于 0 秒"));
    }
    if long_break_seconds <= 0 {
        return Err(String::from_str("长休息时长必须大于 0 秒"));
    }
    if long_break_interval <= 0 {
        return Err(String::from_str("长休息间隔必须大于 0"));
    }
    let m = String::from_str(mode);
    if m != String::from_str("normal") && m != String::from_str("strict") {
        return Err(String::from_str("未知的专注模式"));
    }
    Ok(())
}

/// Strict mode always enforces the allowlist; otherwise the user's choice,
/// on by default.
pub fn study_whitelist_enabled(mode: &str, whitelist_enabled: Option<bool>) -> (b: bool)
    ensures
        b == (mode@ == "strict"@ || match whitelist_enabled {
            Some(w) => w,
            None => true,
        }),
{
    String::from_str(mode) == String::from_str("strict") || match whitelist_enabled {
        Some(w) => w,
        None => true,
    }
}

// ---------------------------------------------------------------------------
// The state shown, and the runtime flags
// ---------------------------------------------------------------------------

/// The state shown when no study mode was ever started.
pub fn idle_study_mode_state() -> (s: StudyModeState)
    ensures
        s.id is None,
        s.state_revision is None,
        s.phase@ == "idle"@,
        s.status@ == "idle"@,
        s.mode@ == "normal"@,
        s.planned_seconds == 0 && s.study_elapsed_seconds == 0 && s.study_remaining_seconds == 0,
        s.long_break_interval == 4,
        s.break_kind@ == "short"@,
        s.current_session is None,
        !s.focus_enforcement_active && s.whitelist_enabled && !s.is_paused,
{
    StudyModeState {
        id: None,
        state_revision: None,
        phase: String::from_str("idle"),
        status: String::from_str("idle"),
        mode: String::from_str("normal"),
        subject_id: None,
        planned_seconds: 0,
        focus_seconds: 0,
        break_seconds: 0,
        long_break_seconds: 0,
        long_break_interval: 4,
        effective_break_seconds: 0,
        break_kind: String::from_str("short"),
        cycle_index: 0,
        started_at: None,
        phase_started_at: None,
        paused_at: None,
        ended_at: None,
        current_session: None,
        study_elapsed_seconds: 0,
        study_remaining_seconds: 0,
        phase_elapsed_seconds: 0,
        phase_remaining_seconds: 0,
        focus_enforcement_active: false,
        whitelist_enabled: true,
        is_paused: false,
    }
}

pub open spec fn opt_string_view(o: Option<String>) -> Option<Seq<char>> {
    match o {
        Some(s) => Some(s@),
        None => None,
    }
}

fn clone_opt_string(o: &Option<String>) -> (r: Option<String>)
    ensures
        opt_string_view(r) == opt_string_view(*o),
{
    match o {
        Some(s) => Some(s.clone()),
        None => None,
    }
}

/// The state shown for a record: for an active one, the study and phase
/// time up to `now`; for an ended one, the banked time and no phase time.
/// Remaining times never go below 0; the allowlist is enforced in strict
/// mode or when enabled, while an active mode is in a study phase.
pub fn study_mode_record_to_state(
    record: &StudyModeRecord,
    now: Instant,
    current_session: Option<FocusSession>,
) -> (r: Result<StudyModeState, String>)
    requires
        in_chrono_range(now),
    ensures
        r is Err ==> record.status@ == "active"@,
        r matches Ok(s) ==> {
            let active = record.status@ == "active"@;
            &&& s.id == Some(record.id)
            &&& s.state_revision == Some(max0(record.state_revision as int) as i64)
            &&& s.phase@ == record.phase@ && s.status@ == record.status@ && s.mode@ == record.mode@
            &&& s.subject_id == record.subject_id && s.cycle_index == record.cycle_index
            &&& s.planned_seconds == record.planned_seconds
            &&& (active ==> study_elapsed_spec(*record, now) == Ok::<int, Seq<char>>(
                s.study_elapsed_seconds as int,
            ))
            &&& (!active ==> s.study_elapsed_seconds == max0(record.accumulated_study_seconds as int))
            &&& s.study_remaining_seconds == max0(
                record.planned_seconds - s.study_elapsed_seconds,
            )
            &&& (active ==> phase_elapsed_spec(*record, now) == Ok::<int, Seq<char>>(
                s.phase_elapsed_seconds as int,
            ))
            &&& (!active ==> s.phase_elapsed_seconds == 0)
            &&& s.effective_break_seconds == effective_break_spec(*record)
            &&& s.break_kind@ == (if is_long_break_spec(
                record.cycle_index as int,
                record.long_break_interval as int,
            ) {
                "long"@
            } else {
                "short"@
            })
            &&& s.phase_remaining_seconds == (if record.phase@ == "focus"@ {
                max0(focus_run_spec(*record) - s.phase_elapsed_seconds)
            } else if record.phase@ == "break"@ {
                max0(effective_break_spec(*record) - s.phase_elapsed_seconds)
            } else {
                0
            })
            &&& s.whitelist_enabled == (record.mode@ == "strict"@ || record.whitelist_enabled)
            &&& s.focus_enforcement_active == (s.whitelist_enabled && active && is_study_phase(
                record.phase@,
            ))
            &&& s.is_paused == (record.paused_at is Some)
            &&& opt_string_view(s.paused_at) == opt_string_view(record.paused_at)
            &&& opt_string_view(s.ended_at) == opt_string_view(record.ended_at)
            &&& s.started_at matches Some(t) && t@ == record.started_at@
            &&& s.phase_started_at matches Some(t) && t@ == record.phase_started_at@
            &&& s.current_session == current_session
            // with banked time in the plan, elapsed and remaining add up to the plan
            &&& (0 <= s.study_elapsed_seconds <= record.planned_seconds ==> s.study_elapsed_seconds
                + s.study_remaining_seconds == record.planned_seconds)
        },
{
    let active = record.status == String::from_str("active");
    let study_elapsed = if active {
        match study_elapsed_seconds(record, now) {
            Ok(s) => s,
            Err(e) => {
                return Err(e);
            },
        }
    } else if record.accumulated_study_seconds < 0 {
        0
    } else {
        record.accumulated_study_seconds
    };
    let phase_elapsed = if active {
        match phase_elapsed_seconds(record, now) {
            Ok(s) => s,
            Err(e) => {
                return Err(e);
            },
        }
    } else {
        0
    };
    let break_kind = break_kind_for_cycle(record.cycle_index, record.long_break_interval);
    let effective_break = effective_break_seconds(record);
    let focus_run = focus_run_seconds(record);
    let phase_remaining: i64 = if record.phase == String::from_str("focus") {
        let d: i128 = focus_run as i128 - phase_elapsed as i128;
        if d < 0 {
            0
        } else {
            d as i64
        }
    } else if record.phase == String::from_str("break") {
        let d: i128 = effective_break as i128 - phase_elapsed as i128;
        if d < 0 {
            0
        } else {
            d as i64
        }
    } else {
        0
    };
    let remaining: i128 = record.planned_seconds as i128 - study_elapsed as i128;
    let study_remaining: i64 = if remaining < 0 {
        0
    } else if remaining > i64::MAX as i128 {
        i64::MAX
    } else {
        remaining as i64
    };
    let whitelist_enabled = record.mode == String::from_str("strict") || record.whitelist_enabled;
    let study_phase = record.phase == String::from_str("focus") || record.phase == String::from_str(
        "awaiting_break",
    );
    Ok(
        StudyModeState {
            id: Some(record.id),
            state_revision: Some(
                if record.state_revision < 0 {
                    0
                } else {
                    record.state_revision
                },
            ),
            phase: record.phase.clone(),
            status: record.status.clone(),
            mode: record.mode.clone(),
            subject_id: record.subject_id,
            planned_seconds: record.planned_seconds,
            focus_seconds: record.focus_seconds,
            break_seconds: record.break_seconds,
            long_break_seconds: record.long_break_seconds,
            long_break_interval: record.long_break_interval,
            effective_break_seconds: effective_break,
            break_kind,
            cycle_index: record.cycle_index,
            started_at: Some(record.started_at.clone()),
            phase_started_at: Some(record.phase_started_at.clone()),
            paused_at: clone_opt_string(&record.paused_at),
            ended_at: clone_opt_string(&record.ended_at),
            current_session,
            study_elapsed_seconds: study_elapsed,
            study_remaining_seconds: study_remaining,
            phase_elapsed_seconds: phase_elapsed,
            phase_remaining_seconds: phase_remaining,
            focus_enforcement_active: whitelist_enabled && active && study_phase,
            whitelist_enabled,
            is_paused: record.paused_at.is_some(),
        },
    )
}

/// The marker a background tick compares: none for the idle state.
pub fn study_runtime_marker(state: &StudyModeState) -> (r: Option<StudyRuntimeSyncMarker>)
    ensures
        (state.id is None && state.status@ == "idle"@) <==> r is None,
        r matches Some(m) ==> {
            &&& m.id == state.id
            &&& m.state_revision == max0(
                match state.state_revision {
                    Some(v) => v as int,
                    None => 0,
                },
            )
            &&& m.phase@ == state.phase@ && m.status@ == state.status@
            &&& m.subject_id == state.subject_id && m.cycle_index == state.cycle_index
            &&& opt_string_view(m.paused_at) == opt_string_view(state.paused_at)
            &&& m.current_session_id == match state.current_session {
                Some(s) => Some(s.id),
                None => None,
            }
            &&& m.break_kind@ == state.break_kind@
        },
{
    if state.id.is_none() && state.status == String::from_str("idle") {
        return None;
    }
    let revision = match state.state_revision {
        Some(v) => v,
        None => 0,
    };
    Some(
        StudyRuntimeSyncMarker {
            id: state.id,
            state_revision: if revision < 0 {
                0
            } else {
                revision
            },
            phase: state.phase.clone(),
            status: state.status.clone(),
            subject_id: state.subject_id,
            cycle_index: state.cycle_index,
            paused_at: clone_opt_string(&state.paused_at),
            current_session_id: match &state.current_session {
                Some(s) => Some(s.id),
                None => None,
            },
            break_kind: state.break_kind.clone(),
        },
    )
}

/// Sets the runtime flags.
pub fn set_runtime_state(
    runtime: &mut StudyRuntime,
    study_mode_active: bool,
    active_session_id: Option<i64>,
)
    ensures
        final(runtime).study_mode_active == study_mode_active,
        final(runtime).active_session_id == active_session_id,
{
    runtime.study_mode_active = study_mode_active;
    runtime.active_session_id = active_session_id;
}

/// Brings the runtime flags in line with the active study mode (if any),
/// and says whether study time is running (active and not paused).
pub fn sync_study_runtime_state(active: Option<&StudyModeRecord>, runtime: &mut StudyRuntime) -> (r:
    bool)
    ensures
        match active {
            Some(record) => final(runtime).study_mode_active && final(runtime).active_session_id
                == record.current_session_id && r == (record.paused_at is None),
            None => !final(runtime).study_mode_active && final(runtime).active_session_id is None
                && !r,
        },
{
    match active {
        Some(record) => {
            set_runtime_state(runtime, true, record.current_session_id);
            record.paused_at.is_none()
        },
        None => {
            set_runtime_state(runtime, false, None);
            false
        },
    }
}

/// The recovery of a session found running at `now`: its time so far and
/// what is left of its plan.
pub fn recover_focus_session(session: FocusSession, now: Instant) -> (r: Result<
    FocusSessionRecovery,
    String,
>)
    requires
        in_chrono_range(now),
    ensures
        match r {
            Ok(rec) => {
                &&& rec.recovery_status@ == "resumed"@
                &&& seconds_since_spec(session.started_at@, now) == Ok::<int, Seq<char>>(
                    rec.elapsed_seconds as int,
                )
                &&& rec.remaining_seconds == max0(session.planned_seconds - rec.elapsed_seconds)
                &&& rec.session.id == session.id
            },
            Err(e) => seconds_since_spec(session.started_at@, now) == Err::<int, Seq<char>>(e@),
        },
{
    let elapsed = match seconds_since(session.started_at.as_str(), now) {
        Ok(s) => s,
        Err(e) => {
            return Err(e);
        },
    };
    let d: i128 = session.planned_seconds as i128 - elapsed as i128;
    let remaining: i64 = if d < 0 {
        0
    } else {
        d as i64
    };
    Ok(
        FocusSessionRecovery {
            recovery_status: String::from_str("resumed"),
            session,
            elapsed_seconds: elapsed,
            remaining_seconds: remaining,
        },
    )
}

} // verus!
