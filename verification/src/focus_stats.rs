//! Focus statistics: how many seconds each session counts for, how much of
//! it falls in a day, week or month window (Beijing time, UTC+8), and the
//! totals per subject.
use crate::clock::{in_chrono_range, rfc3339_parse, rfc3339_parse_result, seconds_between, seconds_between_spec, Instant};
use crate::focus::{focus_session_actual_seconds, max0, session_actual_spec, StudyModeRecord};
use chrono::{Datelike, NaiveDate};
use vstd::prelude::*;
use vstd::string::*;

verus! {

/// A session as the statistics read it.
#[derive(Clone, Debug)]
pub struct FocusSessionStatsRow {
    pub id: i64,
    pub subject_id: Option<i64>,
    pub actual_seconds: i64,
    pub started_at: String,
    pub ended_at: Option<String>,
    pub status: String,
}

/// Whether the session is the one the active study mode is running.
pub open spec fn is_live_session(session: FocusSessionStatsRow, active: Option<StudyModeRecord>) -> bool {
    session.status@ == "running"@ && match active {
        Some(r) => r.current_session_id == Some(session.id),
        None => false,
    }
}

fn is_live_session_exec(session: &FocusSessionStatsRow, active: Option<&StudyModeRecord>) -> (b: bool)
    ensures
        b == is_live_session(*session, match active {
            Some(r) => Some(*r),
            None => None,
        }),
{
    session.status == String::from_str("running") && match active {
        Some(r) => r.current_session_id == Some(session.id),
        None => false,
    }
}

/// The seconds a session counts for: the live session its time so far, any
/// other running session nothing, a closed one its recorded time.
pub open spec fn session_seconds_spec(
    session: FocusSessionStatsRow,
    active: Option<StudyModeRecord>,
    now: Instant,
) -> Result<int, Seq<char>> {
    if session.status@ == "running"@ {
        if is_live_session(session, active) {
            session_actual_spec(active->0, now)
        } else {
            Ok(0)
        }
    } else {
        Ok(max0(session.actual_seconds as int))
    }
}

/// The seconds a session counts for (see `session_seconds_spec`).
pub fn effective_session_seconds(
    session: &FocusSessionStatsRow,
    active: Option<&StudyModeRecord>,
    now: Instant,
) -> (r: Result<i64, String>)
    requires
        in_chrono_range(now),
    ensures
        match r {
            Ok(s) => session_seconds_spec(*session, match active {
                Some(a) => Some(*a),
                None => None,
            }, now) == Ok::<int, Seq<char>>(s as int),
            Err(e) => session_seconds_spec(*session, match active {
                Some(a) => Some(*a),
                None => None,
            }, now) == Err::<int, Seq<char>>(e@),
        },
{
    if session.status == String::from_str("running") {
        if is_live_session_exec(session, active) {
            match active {
                Some(record) => focus_session_actual_seconds(record, now),
                None => Ok(0),
            }
        } else {
            Ok(0)
        }
    } else {
        Ok(
            if session.actual_seconds < 0 {
                0
            } else {
                session.actual_seconds
            },
        )
    }
}

/// The end of a session's interval: now for the live session, else its end
/// time, else its start plus its recorded time.
pub open spec fn session_end_spec(
    session: FocusSessionStatsRow,
    active: Option<StudyModeRecord>,
    now: Instant,
) -> Result<(int, int), Seq<char>> {
    if is_live_session(session, active) {
        Ok((now.secs as int, now.nanos as int))
    } else {
        match session.ended_at {
            Some(e) => rfc3339_parse_result(e@),
            None => match rfc3339_parse_result(session.started_at@) {
                Err(e) => Err(e),
                Ok(p) => {
                    let s = p.0 + max0(session.actual_seconds as int);
                    if -8_796_093_022_208 < s < 8_796_093_022_208 {
                        Ok((s, p.1))
                    } else {
                        Err("时间超出范围。"@)
                    }
                },
            },
        }
    }
}

/// The end of a session's interval (see `session_end_spec`).
pub fn effective_session_end(
    session: &FocusSessionStatsRow,
    active: Option<&StudyModeRecord>,
    now: Instant,
) -> (r: Result<Instant, String>)
    requires
        in_chrono_range(now),
    ensures
        match r {
            Ok(t) => session_end_spec(*session, match active {
                Some(a) => Some(*a),
                None => None,
            }, now) == Ok::<(int, int), Seq<char>>((t.secs as int, t.nanos as int))
                && in_chrono_range(t),
            Err(e) => session_end_spec(*session, match active {
                Some(a) => Some(*a),
                None => None,
            }, now) == Err::<(int, int), Seq<char>>(e@),
        },
{
    if is_live_session_exec(session, active) {
        return Ok(now);
    }
    match &session.ended_at {
        Some(e) => rfc3339_parse(e.as_str()),
        None => match rfc3339_parse(session.started_at.as_str()) {
            Err(e) => Err(e),
            Ok(t) => {
                let extra: i64 = if session.actual_seconds < 0 {
                    0
                } else {
                    session.actual_seconds
                };
                let s: i128 = t.secs as i128 + extra as i128;
                if -8_796_093_022_208 < s && s < 8_796_093_022_208 {
                    Ok(Instant { secs: s as i64, nanos: t.nanos })
                } else {
                    Err(String::from_str("时间超出范围。"))
                }
            },
        },
    }
}

/// Whether `a` is strictly before `b`.
pub open spec fn before(a: Instant, b: Instant) -> bool {
    a.secs < b.secs || (a.secs == b.secs && a.nanos < b.nanos)
}

fn is_before(a: Instant, b: Instant) -> (r: bool)
    ensures
        r == before(a, b),
{
    a.secs < b.secs || (a.secs == b.secs && a.nanos < b.nanos)
}

/// How much of a session falls in a window.
#[derive(Clone, Copy, Debug)]
pub enum WindowShare {
    /// None of it.
    Zero,
    /// All of its seconds.
    Whole(i64),
    /// The part `overlap_seconds / wall_seconds` of its `seconds`, rounded
    /// (the application scales it).
    Part { seconds: i64, overlap_seconds: i64, wall_seconds: i64 },
}

/// The share of a session in the window `[window_start, window_end)`: none
/// when it counts for nothing or its interval misses the window; all of it
/// when the overlap is as long as its interval (taken as at least a
/// second); else the part of its seconds that the overlap is of it.
pub open spec fn window_share_spec(
    seconds: int,
    start: Instant,
    end: Instant,
    window_start: Instant,
    window_end: Instant,
) -> WindowShare {
    if seconds <= 0 || !before(start, end) || !before(window_start, end) || !before(
        start,
        window_end,
    ) {
        WindowShare::Zero
    } else {
        let overlap_start = if before(start, window_start) {
            window_start
        } else {
            start
        };
        let overlap_end = if before(end, window_end) {
            end
        } else {
            window_end
        };
        let wall = {
            let w = seconds_between_spec(start, end);
            if w < 1 {
                1
            } else {
                w
            }
        };
        let overlap = seconds_between_spec(overlap_start, overlap_end);
        if overlap >= wall {
            WindowShare::Whole(seconds as i64)
        } else {
            WindowShare::Part {
                seconds: seconds as i64,
                overlap_seconds: overlap as i64,
                wall_seconds: wall as i64,
            }
        }
    }
}

/// A window that holds a whole session of at least a second counts all of
/// its seconds.
pub proof fn lemma_window_holding_session(
    seconds: int,
    start: Instant,
    end: Instant,
    window_start: Instant,
    window_end: Instant,
)
    requires
        seconds > 0,
        seconds_between_spec(start, end) >= 1,
        !before(start, window_start),
        !before(window_end, end),
    ensures
        window_share_spec(seconds, start, end, window_start, window_end) == WindowShare::Whole(seconds as i64),
{
}

/// A session that counts for nothing, or whose interval misses the window,
/// has no share in it.
pub proof fn lemma_window_missed(
    seconds: int,
    start: Instant,
    end: Instant,
    window_start: Instant,
    window_end: Instant,
)
    requires
        seconds <= 0 || !before(window_start, end) || !before(start, window_end) || !before(start, end),
    ensures
        window_share_spec(seconds, start, end, window_start, window_end) == WindowShare::Zero,
{
}

/// The instant at a whole second.
pub open spec fn at_second(s: int) -> Instant {
    Instant { secs: s as i64, nanos: 0 }
}

/// A session cut by a window boundary at a whole second counts, in each of
/// the two windows on either side, only the seconds it spent there, out of
/// its whole length: the two parts add up to the session.
pub proof fn lemma_window_split(seconds: int, a: int, s: int, m: int, e: int, b: int)
    requires
        seconds > 0,
        -8_796_093_022_208 < a <= s < m < e <= b < 8_796_093_022_208,
    ensures
        window_share_spec(seconds, at_second(s), at_second(e), at_second(a), at_second(m)) == (WindowShare::Part {
            seconds: seconds as i64,
            overlap_seconds: (m - s) as i64,
            wall_seconds: (e - s) as i64,
        }),
        window_share_spec(seconds, at_second(s), at_second(e), at_second(m), at_second(b)) == (WindowShare::Part {
            seconds: seconds as i64,
            overlap_seconds: (e - m) as i64,
            wall_seconds: (e - s) as i64,
        }),
        (m - s) + (e - m) == e - s,
{
}

/// The share of a session with the given seconds and interval in a window
/// (see `window_share_spec`).
pub fn window_share(
    seconds: i64,
    start: Instant,
    end: Instant,
    window_start: Instant,
    window_end: Instant,
) -> (r: WindowShare)
    requires
        in_chrono_range(start),
        in_chrono_range(end),
        in_chrono_range(window_start),
        in_chrono_range(window_end),
    ensures
        r == window_share_spec(seconds as int, start, end, window_start, window_end),
{
    if seconds <= 0 || !is_before(start, end) || !is_before(window_start, end) || !is_before(
        start,
        window_end,
    ) {
        return WindowShare::Zero;
    }
    let overlap_start = if is_before(start, window_start) {
        window_start
    } else {
        start
    };
    let overlap_end = if is_before(end, window_end) {
        end
    } else {
        window_end
    };
    let w = seconds_between(start, end);
    let wall = if w < 1 {
        1
    } else {
        w
    };
    let overlap = seconds_between(overlap_start, overlap_end);
    if overlap >= wall {
        WindowShare::Whole(seconds)
    } else {
        WindowShare::Part { seconds, overlap_seconds: overlap, wall_seconds: wall }
    }
}

/// The instant of a pair of seconds and nanoseconds.
pub open spec fn instant_of(p: (int, int)) -> Instant {
    Instant { secs: p.0 as i64, nanos: p.1 as u32 }
}

/// The share of a session in a window: the seconds it counts for (none when
/// they are not positive), between its start and the end of its interval.
pub open spec fn session_window_share_spec(
    session: FocusSessionStatsRow,
    active: Option<StudyModeRecord>,
    window_start: Instant,
    window_end: Instant,
    now: Instant,
) -> Result<WindowShare, Seq<char>> {
    match session_seconds_spec(session, active, now) {
        Err(e) => Err(e),
        Ok(seconds) => if seconds <= 0 {
            Ok(WindowShare::Zero)
        } else {
            match rfc3339_parse_result(session.started_at@) {
                Err(e) => Err(e),
                Ok(start) => match session_end_spec(session, active, now) {
                    Err(e) => Err(e),
                    Ok(end) => Ok(
                        window_share_spec(seconds, instant_of(start), instant_of(end), window_start, window_end),
                    ),
                },
            }
        },
    }
}

/// The share of a session in a window, read from its row and the active
/// study mode.
pub fn session_window_share(
    session: &FocusSessionStatsRow,
    active: Option<&StudyModeRecord>,
    window_start: Instant,
    window_end: Instant,
    now: Instant,
) -> (r: Result<WindowShare, String>)
    requires
        in_chrono_range(now),
        in_chrono_range(window_start),
        in_chrono_range(window_end),
    ensures
        match r {
            Ok(w) => session_window_share_spec(*session, match active {
                Some(a) => Some(*a),
                None => None,
            }, window_start, window_end, now) == Ok::<WindowShare, Seq<char>>(w),
            Err(e) => session_window_share_spec(*session, match active {
                Some(a) => Some(*a),
                None => None,
            }, window_start, window_end, now) == Err::<WindowShare, Seq<char>>(e@),
        },
{
    let seconds = match effective_session_seconds(session, active, now) {
        Ok(s) => s,
        Err(e) => {
            return Err(e);
        },
    };
    if seconds <= 0 {
        return Ok(WindowShare::Zero);
    }
    let start = match rfc3339_parse(session.started_at.as_str()) {
        Ok(t) => t,
        Err(e) => {
            return Err(e);
        },
    };
    let end = match effective_session_end(session, active, now) {
        Ok(t) => t,
        Err(e) => {
            return Err(e);
        },
    };
    Ok(window_share(seconds, start, end, window_start, window_end))
}

// ---------------------------------------------------------------------------
// Beijing-time windows
// ---------------------------------------------------------------------------

/// Seconds east of UTC of Beijing time.
pub open spec fn beijing_offset() -> int {
    28_800
}

/// The days since the epoch of the Beijing date of an instant.
pub open spec fn beijing_day_spec(now: Instant) -> int {
    (now.secs + beijing_offset()) / 86_400
}

/// The instant Beijing midnight starts a day (counted from the epoch).
pub open spec fn beijing_midnight_spec(day: int) -> int {
    day * 86_400 - beijing_offset()
}

fn beijing_day(now: Instant) -> (d: i64)
    requires
        in_chrono_range(now),
    ensures
        d == beijing_day_spec(now),
{
    let local: i64 = now.secs + 28_800;
    let mut q: i64 = local / 86_400;
    let r: i64 = local % 86_400;
    if r < 0 {
        q = q - 1;
    }
    assert(q == (now.secs + 28_800) / 86_400) by {
        assert(local == (local / 86_400) * 86_400 + local % 86_400);
    }
    q
}

fn midnight_instant(day: i64) -> (r: Result<Instant, String>)
    requires
        -200_000_000 < day < 200_000_000,
    ensures
        match r {
            Ok(t) => t.secs == beijing_midnight_spec(day as int) && t.nanos == 0 && in_chrono_range(t),
            Err(_) => !(-8_796_093_022_208 < beijing_midnight_spec(day as int) < 8_796_093_022_208),
        },
{
    let s: i64 = day * 86_400 - 28_800;
    if -8_796_093_022_208 < s && s < 8_796_093_022_208 {
        Ok(Instant { secs: s, nanos: 0 })
    } else {
        Err(String::from_str("Unable to calculate Beijing day start."))
    }
}

/// The start (UTC) of the Beijing day of `now`.
pub fn shanghai_day_start(now: Instant) -> (r: Result<Instant, String>)
    requires
        in_chrono_range(now),
    ensures
        r matches Ok(t) ==> t.secs == beijing_midnight_spec(beijing_day_spec(now)) && t.nanos == 0,
        r matches Ok(t) ==> t.secs <= now.secs < t.secs + 86_400,
        r is Err <==> !(-8_796_093_022_208 < beijing_midnight_spec(beijing_day_spec(now)) < 8_796_093_022_208),
{
    let day = beijing_day(now);
    midnight_instant(day)
}

/// Days since Monday of a day counted from the epoch (1970-01-01 was a
/// Thursday).
pub open spec fn days_from_monday_spec(day: int) -> int {
    (day + 3) % 7
}

/// The start (UTC) of the Beijing week (from Monday) of `now`.
pub fn shanghai_week_start(now: Instant) -> (r: Result<Instant, String>)
    requires
        in_chrono_range(now),
    ensures
        r matches Ok(t) ==> t.secs == beijing_midnight_spec(
            beijing_day_spec(now) - days_from_monday_spec(beijing_day_spec(now)),
        ) && t.nanos == 0,
        r is Err <==> !(-8_796_093_022_208 < beijing_midnight_spec(
            beijing_day_spec(now) - days_from_monday_spec(beijing_day_spec(now)),
        ) < 8_796_093_022_208),
{
    let day = beijing_day(now);
    let shifted: i64 = day + 3;
    let mut m: i64 = shifted % 7;
    if m < 0 {
        m = m + 7;
    }
    assert(m == (day + 3) % 7) by {
        assert(shifted == (shifted / 7) * 7 + shifted % 7);
    }
    midnight_instant(day - m)
}

/// The day of the month of a date of the proleptic Gregorian calendar given
/// as days from the Common Era (0001-01-01 is day 1). Counted from 0000-03-01,
/// the calendar repeats every 400 years (146 097 days); within such a cycle a
/// year from March has 365 days plus a leap day every fourth year but the
/// hundredth ones (`yoe`, `doy`), and its months from March have the lengths
/// 31, 30, 31, 30, 31, 31, 30, 31, 30, 31, 31 and the rest, which
/// `(153 * m + 2) / 5` adds up.
pub open spec fn civil_day_of_month(days_from_ce: int) -> int {
    let doe = (days_from_ce + 305) % 146_097;
    let yoe = (doe - doe / 1460 + doe / 36_524 - doe / 146_096) / 365;
    let doy = doe - (365 * yoe + yoe / 4 - yoe / 100);
    let mp = (5 * doy + 2) / 153;
    doy - (153 * mp + 2) / 5 + 1
}

/// Whether `chrono` has a date for a day count from the Common Era: from
/// -262143-01-01 (day -95 746 129) to 262142-12-31 (day 95 745 399).
pub open spec fn chrono_day_range(days_from_ce: int) -> bool {
    -95_746_129 <= days_from_ce <= 95_745_399
}

/// What `chrono` gives as the day of the month of a day count from the
/// Common Era: none outside its range.
pub open spec fn day_of_month_spec(days_from_ce: int) -> Option<int> {
    if chrono_day_range(days_from_ce) {
        Some(civil_day_of_month(days_from_ce))
    } else {
        None
    }
}

/// `NaiveDate::from_num_days_from_ce_opt(days)?.day()`: the day of the
/// month of the date, or none outside `chrono`'s range.
#[verifier::external_body]
fn day_of_month(days_from_ce: i32) -> (r: Option<u32>)
    ensures
        day_of_month_spec(days_from_ce as int) == match r {
            Some(d) => Some(d as int),
            None => None::<int>,
        },
{
    Some(NaiveDate::from_num_days_from_ce_opt(days_from_ce)?.day())
}

/// The start (UTC) of the Beijing month of `now`.
pub fn shanghai_month_start(now: Instant) -> (r: Result<Instant, String>)
    requires
        in_chrono_range(now),
    ensures
        r matches Ok(t) ==> day_of_month_spec(beijing_day_spec(now) + 719_163) matches Some(dom)
            && t.secs == beijing_midnight_spec(beijing_day_spec(now) - (dom - 1)) && t.nanos == 0,
        r is Err <==> match day_of_month_spec(beijing_day_spec(now) + 719_163) {
            Some(dom) => !(-8_796_093_022_208 < beijing_midnight_spec(beijing_day_spec(now) - (dom - 1))
                < 8_796_093_022_208),
            None => true,
        },
{
    let day = beijing_day(now);
    let ce: i64 = day + 719_163;
    if ce < i32::MIN as i64 || ce > i32::MAX as i64 {
        return Err(String::from_str("Unable to calculate Beijing month start."));
    }
    match day_of_month(ce as i32) {
        None => Err(String::from_str("Unable to calculate Beijing month start.")),
        Some(dom) => midnight_instant(day - (dom as i64 - 1)),
    }
}

// ---------------------------------------------------------------------------
// Totals
// ---------------------------------------------------------------------------

/// The seconds counted for a subject: the positive counts of its sessions.
pub open spec fn subject_total_spec(rows: Seq<(Option<i64>, i64)>, subject_id: i64) -> int
    decreases rows.len(),
{
    if rows.len() == 0 {
        0
    } else {
        subject_total_spec(rows.drop_last(), subject_id) + if rows.last().0 == Some(subject_id)
            && rows.last().1 > 0 {
            rows.last().1 as int
        } else {
            0
        }
    }
}

proof fn lemma_subject_total_monotone(rows: Seq<(Option<i64>, i64)>, subject_id: i64)
    ensures
        subject_total_spec(rows, subject_id) >= 0,
    decreases rows.len(),
{
    if rows.len() > 0 {
        lemma_subject_total_monotone(rows.drop_last(), subject_id);
    }
}

/// The total seconds of a subject over (subject, seconds) counts, capped at
/// `i64::MAX`.
pub fn subject_total_seconds(rows: &Vec<(Option<i64>, i64)>, subject_id: i64) -> (r: i64)
    ensures
        r == if subject_total_spec(rows@, subject_id) > i64::MAX {
            i64::MAX as int
        } else {
            subject_total_spec(rows@, subject_id)
        },
{
    let mut total: i64 = 0;
    let mut i: usize = 0;
    while i < rows.len()
        invariant
            i <= rows@.len(),
            total == if subject_total_spec(rows@.subrange(0, i as int), subject_id) > i64::MAX {
                i64::MAX as int
            } else {
                subject_total_spec(rows@.subrange(0, i as int), subject_id)
            },
        decreases rows.len() - i,
    {
        assert(rows@.subrange(0, i + 1).drop_last() =~= rows@.subrange(0, i as int));
        proof {
            lemma_subject_total_monotone(rows@.subrange(0, i as int), subject_id);
        }
        let (sid, secs) = rows[i];
        if sid == Some(subject_id) && secs > 0 {
            let wide: i128 = total as i128 + secs as i128;
            total = if wide > i64::MAX as i128 {
                i64::MAX
            } else {
                wide as i64
            };
        }
        i += 1;
    }
    assert(rows@.subrange(0, rows@.len() as int) =~= rows@);
    total
}

} // verus!
