//! Daily and weekly reviews: the records, the checks on a draft before it is
//! stored, and the date arithmetic of the review pages (ISO dates, the Monday
//! that starts a week).
use crate::caldav::{opt_str_view, opt_view};
use crate::checklist::{normalize_optional_spec, normalize_optional_string};
use crate::clock::{known_format, local_today_days, naive_date_parse, naive_date_parse_result, naive_format, naive_format_result};
use crate::text::{trim, trim_spec};
use vstd::prelude::*;
use vstd::string::*;

verus! {

/// A daily review as stored.
#[derive(Clone, Debug)]
pub struct DailyReview {
    pub id: i64,
    pub review_date: String,
    pub summary: Option<String>,
    pub blockers: Option<String>,
    pub tomorrow_focus: Option<String>,
    pub mood_score: i64,
    pub created_at: String,
    pub updated_at: String,
}

/// What a day's study records add up to.
#[derive(Clone, Debug)]
pub struct DailyReviewSummary {
    pub study_seconds: i64,
    pub focus_session_count: i64,
    pub interruption_count: i64,
    pub schedule_total: i64,
    pub schedule_completed: i64,
    pub today_total: i64,
    pub today_completed: i64,
}

/// A weekly review as stored.
#[derive(Clone, Debug)]
pub struct WeeklyReview {
    pub id: i64,
    pub week_start_date: String,
    pub summary: Option<String>,
    pub blockers: Option<String>,
    pub next_week_focus: Option<String>,
    pub mood_score: i64,
    pub created_at: String,
    pub updated_at: String,
}

/// What a week's study records add up to.
#[derive(Clone, Debug)]
pub struct WeeklyReviewSummary {
    pub study_seconds: i64,
    pub focus_session_count: i64,
    pub interruption_count: i64,
}

/// The weekly review page: the week, its review if any, its totals.
#[derive(Clone, Debug)]
pub struct WeeklyReviewPageData {
    pub week_start_date: String,
    pub week_end_date: String,
    pub review: Option<WeeklyReview>,
    pub summary: WeeklyReviewSummary,
}

/// The daily review page: the day, its review if any, its totals.
#[derive(Clone, Debug)]
pub struct DailyReviewPageData {
    pub review_date: String,
    pub review: Option<DailyReview>,
    pub summary: DailyReviewSummary,
}

/// A daily review as the user submits it.
#[derive(Clone, Debug)]
pub struct DailyReviewDraft {
    pub review_date: String,
    pub summary: Option<String>,
    pub blockers: Option<String>,
    pub tomorrow_focus: Option<String>,
    pub mood_score: i64,
}

/// A weekly review as the user submits it.
#[derive(Clone, Debug)]
pub struct WeeklyReviewDraft {
    pub week_start_date: String,
    pub summary: Option<String>,
    pub blockers: Option<String>,
    pub next_week_focus: Option<String>,
    pub mood_score: i64,
}

/// The ISO date format `%Y-%m-%d`.
pub open spec fn iso_date_fmt() -> Seq<char> {
    seq!['%', 'Y', '-', '%', 'm', '-', '%', 'd']
}

/// The error of a malformed date.
pub open spec fn date_error() -> Seq<char> {
    "日期格式应为 YYYY-MM-DD。"@
}

/// The ISO text of a day counted from the Common Era; none when the day is out
/// of the calendar's range.
pub open spec fn iso_day_text(days: int) -> Option<Seq<char>> {
    if i32::MIN <= days <= i32::MAX {
        naive_format_result(days, 0, iso_date_fmt())
    } else {
        None
    }
}

/// Days since the last Monday: 0001-01-01, day 1 of the Common Era, is a Monday.
pub open spec fn days_from_monday(days: int) -> int {
    (days - 1) % 7
}

/// The Monday of the week (Monday to Sunday) that holds a day.
pub open spec fn monday_of(days: int) -> int {
    days - days_from_monday(days)
}

/// The Monday of a day's week is a Monday, lies at most six days before the
/// day, and is its own week's Monday.
pub proof fn lemma_monday_of(days: int)
    ensures
        monday_of(days) <= days < monday_of(days) + 7,
        days_from_monday(monday_of(days)) == 0,
        monday_of(monday_of(days)) == monday_of(days),
{
}

/// Two days share a Monday exactly when they lie in the same Monday-to-Sunday week.
pub proof fn lemma_same_week(a: int, b: int)
    ensures
        monday_of(a) == monday_of(b) <==> (monday_of(a) <= b < monday_of(a) + 7),
{
}

/// The ISO text of a day, as `chrono` formats it.
fn iso_day(days: i64) -> (r: Option<String>)
    ensures
        opt_view(r) == iso_day_text(days as int),
        r matches Some(t) ==> naive_date_parse_result(t@, iso_date_fmt()) == Ok::<int, Seq<char>>(days as int),
{
    if days < i32::MIN as i64 || days > i32::MAX as i64 {
        return None;
    }
    let fmt = "%Y-%m-%d";
    proof {
        reveal_strlit("%Y-%m-%d");
        assert(fmt@ =~= iso_date_fmt());
    }
    proof {
        assert(iso_date_fmt() =~= crate::clock::ymd_format());
    }
    naive_format(days as i32, 0, fmt)
}

/// The day number of an ISO date, as `chrono` parses it.
fn parse_iso_day(value: &str) -> (r: Option<i32>)
    ensures
        match naive_date_parse_result(value@, iso_date_fmt()) {
            Ok(d) => r == Some(d as i32) && iso_day_text(d) is Some,
            Err(_) => r is None,
        },
{
    let fmt = "%Y-%m-%d";
    proof {
        reveal_strlit("%Y-%m-%d");
        assert(fmt@ =~= iso_date_fmt());
    }
    match naive_date_parse(value, fmt) {
        Ok(d) => {
            proof {
                assert(known_format(iso_date_fmt()));
                assert(naive_format_result(d as int, 0, iso_date_fmt()) is Some);
            }
            Some(d)
        },
        Err(_) => None,
    }
}

/// The date written back in canonical ISO form, or the date error.
pub open spec fn validate_date_spec(value: Seq<char>) -> Result<Seq<char>, Seq<char>> {
    match naive_date_parse_result(value, iso_date_fmt()) {
        Ok(d) => match iso_day_text(d) {
            Some(s) => Ok(s),
            None => Err(date_error()),
        },
        Err(_) => Err(date_error()),
    }
}

/// The Monday of the date's week, in ISO form, or the date error.
pub open spec fn week_start_spec(value: Seq<char>) -> Result<Seq<char>, Seq<char>> {
    match naive_date_parse_result(value, iso_date_fmt()) {
        Ok(d) => match iso_day_text(monday_of(d)) {
            Some(s) => Ok(s),
            None => Err(date_error()),
        },
        Err(_) => Err(date_error()),
    }
}

/// The date `days` days after the given one, in ISO form, or the date error.
pub open spec fn shift_date_spec(value: Seq<char>, days: int) -> Result<Seq<char>, Seq<char>> {
    match naive_date_parse_result(value, iso_date_fmt()) {
        Ok(d) => match iso_day_text(d + days) {
            Some(s) => Ok(s),
            None => Err(date_error()),
        },
        Err(_) => Err(date_error()),
    }
}

/// A `Result` of strings by its views.
pub open spec fn res_view(r: Result<String, String>) -> Result<Seq<char>, Seq<char>> {
    match r {
        Ok(s) => Ok(s@),
        Err(e) => Err(e@),
    }
}

/// Checks that `value` is an ISO date and writes it back in canonical form.
pub fn validate_date(value: &str) -> (r: Result<String, String>)
    ensures
        res_view(r) == validate_date_spec(value@),
        naive_date_parse_result(value@, iso_date_fmt()) is Ok ==> r is Ok,
        // the canonical form is its own canonical form
        r matches Ok(w) ==> validate_date_spec(w@) == Ok::<Seq<char>, Seq<char>>(w@),
{
    match parse_iso_day(value) {
        Some(d) => match iso_day(d as i64) {
            Some(s) => Ok(s),
            None => Err(String::from_str("日期格式应为 YYYY-MM-DD。")),
        },
        None => Err(String::from_str("日期格式应为 YYYY-MM-DD。")),
    }
}

/// The ISO date of the Monday that starts the week of `value`.
pub fn week_start_monday(value: &str) -> (r: Result<String, String>)
    ensures
        res_view(r) == week_start_spec(value@),
        // the Monday written is a canonical date, and the start of its own week
        r matches Ok(w) ==> validate_date_spec(w@) == Ok::<Seq<char>, Seq<char>>(w@) && week_start_spec(w@)
            == Ok::<Seq<char>, Seq<char>>(w@),
        // the date written is a Monday at most six days before the given one
        r matches Ok(w) ==> (naive_date_parse_result(value@, iso_date_fmt()) matches Ok(d)
            && naive_date_parse_result(w@, iso_date_fmt()) == Ok::<int, Seq<char>>(monday_of(d))
            && days_from_monday(monday_of(d)) == 0 && monday_of(d) <= d <= monday_of(d) + 6),
{
    match parse_iso_day(value) {
        Some(d) => {
            let dd = d as i64;
            let offset = ((dd - 1) % 7 + 7) % 7;
            proof {
                assert(offset == days_from_monday(dd as int));
            }
            match iso_day(dd - offset) {
                Some(s) => {
                    proof {
                        lemma_monday_of(dd as int);
                        lemma_monday_of(dd - offset);
                    }
                    Ok(s)
                },
                None => Err(String::from_str("日期格式应为 YYYY-MM-DD。")),
            }
        },
        None => Err(String::from_str("日期格式应为 YYYY-MM-DD。")),
    }
}

/// The ISO date `days` days after `value`. `chrono` refuses a shift of more
/// whole days than its time span holds, hence the bound.
pub fn shift_iso_date(value: &str, days: i64) -> (r: Result<String, String>)
    requires
        -106_751_991_167 <= days <= 106_751_991_167,
    ensures
        res_view(r) == shift_date_spec(value@, days as int),
{
    match parse_iso_day(value) {
        Some(d) => match iso_day(d as i64 + days) {
            Some(s) => Ok(s),
            None => Err(String::from_str("日期格式应为 YYYY-MM-DD。")),
        },
        None => Err(String::from_str("日期格式应为 YYYY-MM-DD。")),
    }
}

/// A trimmed, non-empty value, if any.
pub open spec fn given_value(value: Option<Seq<char>>) -> Option<Seq<char>> {
    match value {
        Some(v) => if trim_spec(v).len() > 0 {
            Some(trim_spec(v))
        } else {
            None
        },
        None => None,
    }
}

/// The date asked for, checked, or else the day `today` (a day counted from
/// the Common Era).
pub open spec fn date_or_today_spec(value: Option<Seq<char>>, today: int) -> Result<Seq<char>, Seq<char>> {
    match given_value(value) {
        Some(v) => validate_date_spec(v),
        None => match iso_day_text(today) {
            Some(s) => Ok(s),
            None => Err(date_error()),
        },
    }
}

/// The trimmed value when it is not empty.
fn given(value: Option<&str>) -> (r: Option<String>)
    ensures
        opt_view(r) == given_value(opt_str_view(value)),
{
    match value {
        Some(v) => {
            let t = trim(v);
            if t.as_str().is_empty() {
                None
            } else {
                Some(t)
            }
        },
        None => None,
    }
}

/// The date of a daily review page: the date asked for, checked, or else
/// `today` (a day counted from the Common Era).
pub fn parse_date_or_today_at(value: Option<&str>, today: i32) -> (r: Result<String, String>)
    ensures
        res_view(r) == date_or_today_spec(
            opt_str_view(value),
            today as int,
        ),
{
    match given(value) {
        Some(v) => validate_date(v.as_str()),
        None => match iso_day(today as i64) {
            Some(s) => Ok(s),
            None => Err(String::from_str("日期格式应为 YYYY-MM-DD。")),
        },
    }
}

/// The date of a daily review page: the date asked for, checked, or else
/// today's local date. Whatever day the clock gives, the result is what
/// `parse_date_or_today_at` gives for it.
pub fn parse_date_or_today(value: Option<&str>) -> (r: Result<String, String>)
    ensures
        exists|today: i32|
            res_view(r) == date_or_today_spec(
                opt_str_view(value),
                today as int,
            ),
        given_value(opt_str_view(value)) is None ==> r is Ok,
{
    let today = local_today_days();
    proof {
        assert(known_format(iso_date_fmt()));
    }
    parse_date_or_today_at(value, today)
}

/// The Monday of the week asked for, or else of the week of `today`.
pub open spec fn week_or_current_spec(value: Option<Seq<char>>, today: int) -> Result<Seq<char>, Seq<char>> {
    match date_or_today_spec(value, today) {
        Ok(date) => week_start_spec(date),
        Err(e) => Err(e),
    }
}

/// The Monday of the week of a weekly review page: of the date asked for, or
/// else of `today` (a day counted from the Common Era).
pub fn parse_week_start_or_current_at(value: Option<&str>, today: i32) -> (r: Result<String, String>)
    ensures
        res_view(r) == week_or_current_spec(
            opt_str_view(value),
            today as int,
        ),
{
    match parse_date_or_today_at(value, today) {
        Ok(date) => week_start_monday(date.as_str()),
        Err(e) => Err(e),
    }
}

/// The Monday of the week of a weekly review page: of the date asked for, or
/// else of the current local week.
pub fn parse_week_start_or_current(value: Option<&str>) -> (r: Result<String, String>)
    ensures
        exists|today: i32|
            res_view(r) == week_or_current_spec(
                opt_str_view(value),
                today as int,
            ),
{
    let today = local_today_days();
    parse_week_start_or_current_at(value, today)
}

/// A mood score clamped to 1..=5.
pub open spec fn mood_spec(score: int) -> int {
    if score < 1 {
        1
    } else if score > 5 {
        5
    } else {
        score
    }
}

/// A mood score clamped to 1..=5.
pub fn clamp_mood_score(score: i64) -> (r: i64)
    ensures
        r == mood_spec(score as int),
        1 <= r <= 5,
{
    if score < 1 {
        1
    } else if score > 5 {
        5
    } else {
        score
    }
}

/// A daily review draft ready to store: its date in canonical ISO form, its
/// texts trimmed (empty ones dropped), its mood clamped; or the date error.
pub fn normalize_daily_review_draft(draft: DailyReviewDraft) -> (r: Result<DailyReviewDraft, String>)
    ensures
        match validate_date_spec(draft.review_date@) {
            Ok(date) => r matches Ok(d) && {
                &&& d.review_date@ == date
                &&& opt_view(d.summary) == normalize_optional_spec(opt_view(draft.summary))
                &&& opt_view(d.blockers) == normalize_optional_spec(opt_view(draft.blockers))
                &&& opt_view(d.tomorrow_focus) == normalize_optional_spec(opt_view(draft.tomorrow_focus))
                &&& d.mood_score == mood_spec(draft.mood_score as int)
            },
            Err(e) => r matches Err(m) && m@ == e,
        },
{
    match validate_date(draft.review_date.as_str()) {
        Ok(date) => Ok(DailyReviewDraft {
            review_date: date,
            summary: normalize_optional_string(draft.summary),
            blockers: normalize_optional_string(draft.blockers),
            tomorrow_focus: normalize_optional_string(draft.tomorrow_focus),
            mood_score: clamp_mood_score(draft.mood_score),
        }),
        Err(e) => Err(e),
    }
}

/// A weekly review draft ready to store: its date moved to the Monday of its
/// week in ISO form, its texts trimmed (empty ones dropped), its mood clamped;
/// or the date error.
pub fn normalize_weekly_review_draft(draft: WeeklyReviewDraft) -> (r: Result<WeeklyReviewDraft, String>)
    ensures
        match validate_date_spec(draft.week_start_date@) {
            Ok(date) => match week_start_spec(date) {
                Ok(monday) => r matches Ok(d) && {
                    &&& d.week_start_date@ == monday
                    &&& opt_view(d.summary) == normalize_optional_spec(opt_view(draft.summary))
                    &&& opt_view(d.blockers) == normalize_optional_spec(opt_view(draft.blockers))
                    &&& opt_view(d.next_week_focus) == normalize_optional_spec(opt_view(draft.next_week_focus))
                    &&& d.mood_score == mood_spec(draft.mood_score as int)
                },
                Err(e) => r matches Err(m) && m@ == e,
            },
            Err(e) => r matches Err(m) && m@ == e,
        },
{
    let date = match validate_date(draft.week_start_date.as_str()) {
        Ok(date) => date,
        Err(e) => return Err(e),
    };
    match week_start_monday(date.as_str()) {
        Ok(monday) => Ok(WeeklyReviewDraft {
            week_start_date: monday,
            summary: normalize_optional_string(draft.summary),
            blockers: normalize_optional_string(draft.blockers),
            next_week_focus: normalize_optional_string(draft.next_week_focus),
            mood_score: clamp_mood_score(draft.mood_score),
        }),
        Err(e) => Err(e),
    }
}

/// The key under which a review is known to the shared sync: the entity kind,
/// a colon and the review's date (`daily_review:2024-05-01`).
pub fn review_sync_key(entity: &str, date: &str) -> (r: String)
    ensures
        r@ == entity@ + seq![':'] + date@,
{
    let mut s = String::from_str(entity);
    crate::text::push_char(&mut s, ':');
    crate::text::push_str(&mut s, date);
    s
}

} // verus!
