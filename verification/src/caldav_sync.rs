//! CalDAV settings, addresses and the decisions of a calendar sync run: what
//! happens to each local block and to each remote event, and how a linked
//! pair is reconciled. The run itself (database and HTTP) is driven by the
//! application, which performs the step each decision names.
use crate::caldav::{
    calendar_fingerprint_spec, linked_calendar_action, linked_calendar_action_spec,
    local_calendar_block_fingerprint, opt_view, remote_event_fingerprint, LinkedCalendarAction,
    LocalCalendarBlock, RemoteCalendarEvent,
};
use crate::clock::{
    instant_millis, local_today_days, naive_date_parse,
    naive_date_parse_result, naive_format, naive_format_result, rfc3339_format,
    rfc3339_format_result, rfc3339_parse, rfc3339_parse_result, Instant,
};
use crate::text::{
    contains_spec, ends_with_spec, i64_to_string, int_decimal, parse_i64, parse_i64_spec, push_char,
    push_str, str_contains, str_ends_with, str_to_chars, trim, trim_is_empty, trim_spec,
};
use base64::Engine;
use reqwest::Url;
use vstd::prelude::*;
use vstd::string::*;
use vstd::utf8::encode_utf8;

verus! {

// ---------------------------------------------------------------------------
// Settings and results
// ---------------------------------------------------------------------------

/// The CalDAV connection settings.
#[derive(Clone, Debug)]
pub struct CalDavSettings {
    pub enabled: bool,
    pub server_url: String,
    pub username: String,
    pub password: String,
    pub password_configured: bool,
    pub selected_calendar_url: String,
    pub selected_calendar_name: String,
}

/// A calendar found on the server.
#[derive(Clone, Debug)]
pub struct CalDavCalendar {
    pub url: String,
    pub name: String,
    pub writable: bool,
}

/// The answer to a connection test.
#[derive(Clone, Debug)]
pub struct CalDavStatus {
    pub configured: bool,
    pub calendar_url: String,
    pub calendar_name: String,
    pub message: String,
}

/// The outcome of a sync run.
#[derive(Clone, Debug)]
pub struct CalDavSyncResult {
    pub status: String,
    pub message: String,
    pub pushed_count: i64,
    pub pulled_count: i64,
    pub deleted_count: i64,
    pub conflict_count: i64,
    pub event_count: i64,
    pub synced_at: String,
}

/// The counts a sync run keeps.
#[derive(Clone, Copy, Debug)]
pub struct SyncCounters {
    pub pushed_count: i64,
    pub pulled_count: i64,
    pub deleted_count: i64,
    pub conflict_count: i64,
    pub event_count: i64,
}

/// The stored link between a local block and a remote event.
#[derive(Clone, Debug)]
pub struct CalendarSyncLink {
    pub id: i64,
    pub remote_id: String,
    pub remote_etag: Option<String>,
    pub remote_fingerprint: Option<String>,
    pub remote_last_modified: Option<String>,
}

// ---------------------------------------------------------------------------
// Trusted calls: url, base64, the clock
// ---------------------------------------------------------------------------

/// What `url` makes of a text: the URL's scheme and its serialisation, or the
/// parse error's text.
pub uninterp spec fn url_parse_result(text: Seq<char>) -> Result<(Seq<char>, Seq<char>), Seq<char>>;

/// What `url` makes of resolving `reference` against the URL `base`: the
/// serialisation of the joined URL, or the error's text (of parsing `base`
/// or of the join).
pub uninterp spec fn url_join_result(base: Seq<char>, reference: Seq<char>) -> Result<
    Seq<char>,
    Seq<char>,
>;

/// What `url` makes of the URL `base` with its path replaced by `path` and
/// its query removed: the serialisation, or the parse error's text.
pub uninterp spec fn url_with_path_result(base: Seq<char>, path: Seq<char>) -> Result<
    Seq<char>,
    Seq<char>,
>;

/// A digit of the standard base64 alphabet (`A`-`Z`, `a`-`z`, `0`-`9`, `+`,
/// `/`).
pub open spec fn base64_digit(v: int) -> char {
    if v < 26 {
        ('A' as int + v) as char
    } else if v < 52 {
        ('a' as int + v - 26) as char
    } else if v < 62 {
        ('0' as int + v - 52) as char
    } else if v == 62 {
        '+'
    } else {
        '/'
    }
}

/// The standard, padded base64 text of some bytes: each three bytes give four
/// digits of six bits each; a last one or two bytes give two or three digits
/// and `=` up to four.
pub open spec fn base64_standard(bytes: Seq<u8>) -> Seq<char>
    decreases bytes.len(),
{
    if bytes.len() == 0 {
        Seq::empty()
    } else if bytes.len() == 1 {
        let a = bytes[0] as int;
        seq![base64_digit(a / 4), base64_digit((a % 4) * 16), '=', '=']
    } else if bytes.len() == 2 {
        let a = bytes[0] as int;
        let b = bytes[1] as int;
        seq![base64_digit(a / 4), base64_digit((a % 4) * 16 + b / 16), base64_digit((b % 16) * 4), '=']
    } else {
        let a = bytes[0] as int;
        let b = bytes[1] as int;
        let c = bytes[2] as int;
        seq![
            base64_digit(a / 4),
            base64_digit((a % 4) * 16 + b / 16),
            base64_digit((b % 16) * 4 + c / 64),
            base64_digit(c % 64),
        ] + base64_standard(bytes.subrange(3, bytes.len() as int))
    }
}

/// Parses a URL (`reqwest::Url::parse`) and gives its scheme and
/// serialisation. The contract names the result.
#[verifier::external_body]
fn parse_url_parts(text: &str) -> (r: Result<(String, String), String>)
    ensures
        url_parse_result(text@) == match r {
            Ok(p) => Ok::<(Seq<char>, Seq<char>), Seq<char>>((p.0@, p.1@)),
            Err(e) => Err::<(Seq<char>, Seq<char>), Seq<char>>(e@),
        },
{
    match Url::parse(text) {
        Ok(url) => Ok((url.scheme().to_string(), url.to_string())),
        Err(error) => Err(error.to_string()),
    }
}

/// Resolves `reference` against `base` (`Url::parse`, then `Url::join`).
/// The contract names the result.
#[verifier::external_body]
fn join_url(base: &str, reference: &str) -> (r: Result<String, String>)
    ensures
        url_join_result(base@, reference@) == match r {
            Ok(s) => Ok::<Seq<char>, Seq<char>>(s@),
            Err(e) => Err::<Seq<char>, Seq<char>>(e@),
        },
{
    match Url::parse(base) {
        Ok(url) => match url.join(reference) {
            Ok(joined) => Ok(joined.to_string()),
            Err(error) => Err(error.to_string()),
        },
        Err(error) => Err(error.to_string()),
    }
}

/// The URL `base` with its path set to `path` and no query (`Url::parse`,
/// `set_path`, `set_query(None)`). The contract names the result.
#[verifier::external_body]
fn url_with_path(base: &str, path: &str) -> (r: Result<String, String>)
    ensures
        url_with_path_result(base@, path@) == match r {
            Ok(s) => Ok::<Seq<char>, Seq<char>>(s@),
            Err(e) => Err::<Seq<char>, Seq<char>>(e@),
        },
{
    match Url::parse(base) {
        Ok(mut url) => {
            url.set_path(path);
            url.set_query(None);
            Ok(url.to_string())
        },
        Err(error) => Err(error.to_string()),
    }
}

/// Standard padded base64 (`base64::engine::general_purpose::STANDARD.encode`):
/// the standard alphabet with `=` padding.
#[verifier::external_body]
fn base64_encode(bytes: &[u8]) -> (r: String)
    ensures
        r@ == base64_standard(bytes@),
{
    base64::engine::general_purpose::STANDARD.encode(bytes)
}

/// The current time in RFC 3339 (`Utc::now().to_rfc3339()`). Nothing is
/// promised of the value.
#[verifier::external_body]
pub(crate) fn utc_now_rfc3339() -> (r: String) {
    chrono::Utc::now().to_rfc3339()
}

// ---------------------------------------------------------------------------
// Addresses and credentials
// ---------------------------------------------------------------------------

pub open spec fn url_scheme_error() -> Seq<char> {
    "CalDAV 地址必须是完整的 http(s) URL。"@
}

pub open spec fn url_http_only_error() -> Seq<char> {
    "CalDAV 地址只支持 http 或 https。"@
}

/// A CalDAV address as stored: empty stays empty; otherwise the trimmed text
/// must parse as an http or https URL, kept in its serialised form.
pub open spec fn normalize_url_spec(value: Seq<char>) -> Result<Seq<char>, Seq<char>> {
    let t = trim_spec(value);
    if t.len() == 0 {
        Ok(Seq::empty())
    } else {
        match url_parse_result(t) {
            Err(_) => Err(url_scheme_error()),
            Ok(p) => if p.0 != "https"@ && p.0 != "http"@ {
                Err(url_http_only_error())
            } else {
                Ok(p.1)
            },
        }
    }
}

pub open spec fn result_view(r: Result<String, String>) -> Result<Seq<char>, Seq<char>> {
    match r {
        Ok(s) => Ok(s@),
        Err(e) => Err(e@),
    }
}

/// Normalises a CalDAV address (see `normalize_url_spec`).
pub fn normalize_url(value: &str) -> (r: Result<String, String>)
    ensures
        result_view(r) == normalize_url_spec(value@),
{
    let trimmed = trim(value);
    if trimmed.as_str().is_empty() {
        return Ok(String::new());
    }
    proof {
        assert(trimmed@.len() != 0);
    }
    match parse_url_parts(trimmed.as_str()) {
        Err(_) => Err(String::from_str("CalDAV 地址必须是完整的 http(s) URL。")),
        Ok(parts) => {
            let https = String::from_str("https");
            let http = String::from_str("http");
            if parts.0 != https && parts.0 != http {
                Err(String::from_str("CalDAV 地址只支持 http 或 https。"))
            } else {
                Ok(parts.1)
            }
        },
    }
}

/// The server address, normalised.
pub fn normalized_server_url(value: &str) -> (r: Result<String, String>)
    ensures
        result_view(r) == normalize_url_spec(value@),
{
    normalize_url(value)
}

/// The settings as stored: addresses normalised (a blank calendar address
/// stays empty), user and calendar name trimmed, and the password marked as
/// configured when one is given.
pub fn normalize_settings(settings: CalDavSettings) -> (r: Result<CalDavSettings, String>)
    ensures
        normalize_url_spec(settings.server_url@) is Err ==> r is Err && r->Err_0@
            == normalize_url_spec(settings.server_url@)->Err_0,
        normalize_url_spec(settings.server_url@) is Ok && trim_spec(
            settings.selected_calendar_url@,
        ).len() != 0 && normalize_url_spec(settings.selected_calendar_url@) is Err ==> r is Err
            && r->Err_0@ == normalize_url_spec(settings.selected_calendar_url@)->Err_0,
        r is Ok <==> (normalize_url_spec(settings.server_url@) is Ok && (trim_spec(
            settings.selected_calendar_url@,
        ).len() == 0 || normalize_url_spec(settings.selected_calendar_url@) is Ok)),
        r matches Ok(s) ==> {
            &&& s.enabled == settings.enabled
            &&& s.server_url@ == normalize_url_spec(settings.server_url@)->Ok_0
            &&& s.username@ == trim_spec(settings.username@)
            &&& s.password@ == settings.password@
            &&& s.password_configured == (settings.password_configured || settings.password@.len()
                != 0)
            &&& s.selected_calendar_url@ == (if trim_spec(settings.selected_calendar_url@).len()
                == 0 {
                Seq::<char>::empty()
            } else {
                normalize_url_spec(settings.selected_calendar_url@)->Ok_0
            })
            &&& s.selected_calendar_name@ == trim_spec(settings.selected_calendar_name@)
        },
{
    let server_url = match normalize_url(settings.server_url.as_str()) {
        Ok(u) => u,
        Err(e) => {
            return Err(e);
        },
    };
    let selected_calendar_url = if trim_is_empty(settings.selected_calendar_url.as_str()) {
        String::new()
    } else {
        match normalize_url(settings.selected_calendar_url.as_str()) {
            Ok(u) => u,
            Err(e) => {
                return Err(e);
            },
        }
    };
    let password_configured = settings.password_configured || !settings.password.as_str().is_empty();
    Ok(
        CalDavSettings {
            enabled: settings.enabled,
            server_url,
            username: trim(settings.username.as_str()),
            password_configured,
            selected_calendar_name: trim(settings.selected_calendar_name.as_str()),
            selected_calendar_url,
            password: settings.password,
        },
    )
}

/// The settings as shown: no password, but whether one is configured.
pub fn redact_settings(settings: CalDavSettings) -> (r: CalDavSettings)
    ensures
        r.password@.len() == 0,
        r.password_configured == (settings.password_configured || settings.password@.len() != 0),
        r.enabled == settings.enabled,
        r.server_url@ == settings.server_url@,
        r.username@ == settings.username@,
        r.selected_calendar_url@ == settings.selected_calendar_url@,
        r.selected_calendar_name@ == settings.selected_calendar_name@,
{
    let password_configured = settings.password_configured || !settings.password.as_str().is_empty();
    CalDavSettings {
        password: String::new(),
        password_configured,
        enabled: settings.enabled,
        server_url: settings.server_url,
        username: settings.username,
        selected_calendar_url: settings.selected_calendar_url,
        selected_calendar_name: settings.selected_calendar_name,
    }
}

/// Whether a sync can run: server, user, password and calendar are all given.
pub fn settings_configured(settings: &CalDavSettings) -> (b: bool)
    ensures
        b == (trim_spec(settings.server_url@).len() != 0 && trim_spec(settings.username@).len() != 0
            && settings.password@.len() != 0 && trim_spec(settings.selected_calendar_url@).len()
            != 0),
{
    !trim_is_empty(settings.server_url.as_str()) && !trim_is_empty(settings.username.as_str())
        && !settings.password.as_str().is_empty() && !trim_is_empty(
        settings.selected_calendar_url.as_str(),
    )
}

/// The address of the selected calendar; an error when none is selected.
pub fn selected_calendar_url(settings: &CalDavSettings) -> (r: Result<String, String>)
    ensures
        trim_spec(settings.selected_calendar_url@).len() == 0 ==> result_view(r) == Err::<
            Seq<char>,
            Seq<char>,
        >("请先发现并选择一个 CalDAV 日历。"@),
        trim_spec(settings.selected_calendar_url@).len() != 0 ==> result_view(r)
            == normalize_url_spec(settings.selected_calendar_url@),
{
    if trim_is_empty(settings.selected_calendar_url.as_str()) {
        Err(String::from_str("请先发现并选择一个 CalDAV 日历。"))
    } else {
        normalize_url(settings.selected_calendar_url.as_str())
    }
}

/// `Basic` authorisation of a user and password: base64 of `user:password`
/// in UTF-8.
pub fn basic_auth_header(username: &str, password: &str) -> (r: String)
    ensures
        r@ == "Basic "@ + base64_standard(encode_utf8(username@ + seq![':'] + password@)),
{
    let mut credentials = String::from_str(username);
    push_char(&mut credentials, ':');
    push_str(&mut credentials, password);
    assert(credentials@ =~= username@ + seq![':'] + password@);
    let encoded = base64_encode(credentials.as_str().as_bytes());
    let mut r = String::from_str("Basic ");
    push_str(&mut r, encoded.as_str());
    r
}

/// The well-known CalDAV discovery address of a server.
pub fn well_known_caldav_url(base: &str) -> (r: Result<String, String>)
    ensures
        result_view(r) == url_with_path_result(base@, "/.well-known/caldav"@),
{
    url_with_path(base, "/.well-known/caldav")
}

/// A reference from a server answer resolved against the address it came
/// from (surrounding white space ignored).
pub fn resolve_url(base_url: &str, href: &str) -> (r: Result<String, String>)
    ensures
        result_view(r) == url_join_result(base_url@, trim_spec(href@)),
{
    let h = trim(href);
    join_url(base_url, h.as_str())
}

/// A character kept in an event file name; others become `-`.
pub open spec fn safe_name_char(c: char) -> char {
    if ('a' <= c && c <= 'z') || ('A' <= c && c <= 'Z') || ('0' <= c && c <= '9') || c == '-'
        || c == '_' {
        c
    } else {
        '-'
    }
}

/// The file name of the remote event of a block: its sync id with every
/// character but ASCII letters, digits, `-` and `_` replaced by `-`, and `.ics`.
pub open spec fn event_file_name_spec(sync_id: Seq<char>) -> Seq<char> {
    sync_id.map_values(|c: char| safe_name_char(c)) + ".ics"@
}

/// The address of the remote event written for a block.
pub fn event_url_for_sync_id(calendar_url: &str, sync_id: &str) -> (r: Result<String, String>)
    ensures
        result_view(r) == url_join_result(calendar_url@, event_file_name_spec(sync_id@)),
{
    let chars = str_to_chars(sync_id);
    let mut name = String::new();
    let mut i: usize = 0;
    while i < chars.len()
        invariant
            i <= chars@.len(),
            chars@ == sync_id@,
            name@ == sync_id@.subrange(0, i as int).map_values(|c: char| safe_name_char(c)),
        decreases chars.len() - i,
    {
        let c = chars[i];
        let keep = ('a' <= c && c <= 'z') || ('A' <= c && c <= 'Z') || ('0' <= c && c <= '9')
            || c == '-' || c == '_';
        if keep {
            push_char(&mut name, c);
        } else {
            push_char(&mut name, '-');
        }
        assert(sync_id@.subrange(0, i + 1).map_values(|c: char| safe_name_char(c))
            =~= sync_id@.subrange(0, i as int).map_values(|c: char| safe_name_char(c)).push(
            safe_name_char(c),
        ));
        i += 1;
    }
    assert(sync_id@.subrange(0, sync_id@.len() as int) =~= sync_id@);
    push_str(&mut name, ".ics");
    join_url(calendar_url, name.as_str())
}

// ---------------------------------------------------------------------------
// Times
// ---------------------------------------------------------------------------

/// Milliseconds since the epoch of an RFC 3339 text, or the parser's error.
pub open spec fn rfc3339_millis_spec(value: Seq<char>) -> Result<int, Seq<char>> {
    match rfc3339_parse_result(value) {
        Err(e) => Err(e),
        Ok(p) => Ok(p.0 * 1000 + p.1 / 1_000_000),
    }
}

/// Milliseconds since the epoch of an RFC 3339 text. Fails with the parser's
/// error, or when the value does not fit 64 bits.
pub fn parse_rfc3339_millis(value: &str) -> (r: Result<i64, String>)
    ensures
        r matches Ok(m) ==> rfc3339_millis_spec(value@) == Ok::<int, Seq<char>>(m as int),
        r matches Err(e) ==> match rfc3339_millis_spec(value@) {
            Err(pe) => pe == e@,
            Ok(m) => !(i64::MIN <= m <= i64::MAX),
        },
        rfc3339_millis_spec(value@) matches Ok(m) && i64::MIN <= m <= i64::MAX ==> r is Ok,
{
    match rfc3339_parse(value) {
        Err(e) => Err(e),
        Ok(t) => match instant_millis(t) {
            Some(m) => Ok(m),
            None => Err(String::from_str("时间超出范围。")),
        },
    }
}

/// The instant of a millisecond timestamp.
pub open spec fn millis_instant_spec(value: int) -> (int, int) {
    (value / 1000, (value % 1000) * 1_000_000)
}

/// The RFC 3339 text (UTC) of a millisecond timestamp; when the timestamp is
/// out of the formatter's range, the current time's.
pub fn millis_to_rfc3339(value: i64) -> (r: String)
    ensures
        rfc3339_format_result(millis_instant_spec(value as int).0, millis_instant_spec(
            value as int,
        ).1) matches Some(s) ==> r@ == s,
{
    let mut secs: i64 = value / 1000;
    let mut rem: i64 = value % 1000;
    if rem < 0 {
        secs = secs - 1;
        rem = rem + 1000;
    }
    assert(secs == value as int / 1000 && rem == value as int % 1000) by {
        assert(value == secs * 1000 + rem);
    }
    let nanos: u32 = (rem * 1_000_000) as u32;
    match rfc3339_format(Instant { secs, nanos }) {
        Some(s) => s,
        None => utc_now_rfc3339(),
    }
}

/// Days (from the Common Era) of a `YYYY-MM-DD` date; none when invalid.
pub open spec fn iso_day_spec(date: Seq<char>) -> Option<int> {
    match naive_date_parse_result(date, "%Y-%m-%d"@) {
        Ok(d) => Some(d),
        Err(_) => None,
    }
}

/// Whether a date lies in the sync window: from 30 days before `today` to
/// 180 days after it.
pub open spec fn date_in_sync_range_spec(date: Seq<char>, today: int) -> bool {
    match iso_day_spec(date) {
        Some(d) => today - 30 <= d <= today + 180,
        None => false,
    }
}

/// Whether a date lies in the sync window around the given day.
pub fn date_in_sync_range_at(date: &str, today: i32) -> (b: bool)
    ensures
        b == date_in_sync_range_spec(date@, today as int),
{
    match naive_date_parse(date, "%Y-%m-%d") {
        Ok(d) => {
            let d64 = d as i64;
            let t64 = today as i64;
            t64 - 30 <= d64 && d64 <= t64 + 180
        },
        Err(_) => false,
    }
}

/// Whether a date lies in the sync window around today (local time).
pub fn date_in_sync_range(date: &str) -> (b: bool)
    ensures
        exists|today: i32| b == date_in_sync_range_spec(date@, today as int),
        b ==> iso_day_spec(date@) is Some,
{
    let today = local_today_days();
    let b = date_in_sync_range_at(date, today);
    assert(b == date_in_sync_range_spec(date@, today as int));
    b
}

/// The bounds of the sync window around `today` (30 days back at midnight,
/// 180 days on at 23:59:59, UTC) as written in a calendar query, where the
/// formatter can write those days.
pub open spec fn utc_range_strings_spec(today: int, start: Seq<char>, end: Seq<char>) -> bool {
    &&& (i32::MIN <= today - 30 ==> (naive_format_result(today - 30, 0, "%Y%m%dT000000Z"@) matches Some(s)
        ==> start == s))
    &&& (today + 180 <= i32::MAX ==> (naive_format_result(today + 180, 0, "%Y%m%dT235959Z"@) matches Some(s)
        ==> end == s))
}

/// The UTC bounds of the sync window around `today`, as written in a
/// calendar query.
pub fn calendar_sync_range_utc_strings_at(today: i32) -> (r: (String, String))
    ensures
        utc_range_strings_spec(today as int, r.0@, r.1@),
{
    let start_fmt = "%Y%m%dT000000Z";
    let end_fmt = "%Y%m%dT235959Z";
    proof {
        reveal_strlit("%Y%m%dT000000Z");
        reveal_strlit("%Y%m%dT235959Z");
        assert(start_fmt@ =~= seq!['%', 'Y', '%', 'm', '%', 'd', 'T', '0', '0', '0', '0', '0', '0', 'Z']);
        assert(end_fmt@ =~= seq!['%', 'Y', '%', 'm', '%', 'd', 'T', '2', '3', '5', '9', '5', '9', 'Z']);
    }
    let start = if today as i64 - 30 >= i32::MIN as i64 {
        naive_format((today as i64 - 30) as i32, 0, start_fmt)
    } else {
        None
    };
    let end = if today as i64 + 180 <= i32::MAX as i64 {
        naive_format((today as i64 + 180) as i32, 0, end_fmt)
    } else {
        None
    };
    let s = match start {
        Some(s) => s,
        None => String::new(),
    };
    let e = match end {
        Some(e) => e,
        None => String::new(),
    };
    (s, e)
}

/// The UTC bounds of the sync window around today.
pub fn calendar_sync_range_utc_strings() -> (r: (String, String))
    ensures
        exists|today: i32| #[trigger] utc_range_strings_spec(today as int, r.0@, r.1@),
{
    calendar_sync_range_utc_strings_at(local_today_days())
}

/// Whether a remote event not yet linked may be imported: it has a title
/// and lies in the sync window around `today`.
pub open spec fn importable_spec(remote: RemoteCalendarEvent, today: int) -> bool {
    trim_spec(remote.title@).len() != 0 && date_in_sync_range_spec(remote.schedule_date@, today)
}

/// Whether a remote event may be imported around `today` (see `importable_spec`).
pub fn is_importable_remote_event_at(remote: &RemoteCalendarEvent, today: i32) -> (b: bool)
    ensures
        b == importable_spec(*remote, today as int),
{
    !trim_is_empty(remote.title.as_str()) && date_in_sync_range_at(
        remote.schedule_date.as_str(),
        today,
    )
}

/// Whether a remote event may be imported, around today.
pub fn is_importable_remote_event(remote: &RemoteCalendarEvent) -> (b: bool)
    ensures
        exists|today: i32| b == #[trigger] importable_spec(*remote, today as int),
        b ==> trim_spec(remote.title@).len() != 0,
{
    let today = local_today_days();
    let b = is_importable_remote_event_at(remote, today);
    assert(b == importable_spec(*remote, today as int));
    b
}

// ---------------------------------------------------------------------------
// Sync decisions
// ---------------------------------------------------------------------------

/// Whether a sync started by `trigger` was caused by a local change, so that
/// local edits win ties.
pub fn prefer_local_changes(trigger: &str) -> (b: bool)
    ensures
        b == (ends_with_spec(trigger@, "_change"@) || contains_spec(trigger@, "local"@)),
{
    str_ends_with(trigger, "_change") || str_contains(trigger, "local")
}

/// The remote change time used for a linked pair: the event's own, else the
/// one stored with the link (when it reads as an integer).
pub open spec fn remote_updated_spec(remote: RemoteCalendarEvent, link: CalendarSyncLink) -> Option<
    int,
> {
    match remote.updated_millis {
        Some(m) => Some(m as int),
        None => match link.remote_last_modified {
            Some(s) => match parse_i64_spec(s@) {
                Some(v) => Some(v as int),
                None => None,
            },
            None => None,
        },
    }
}

/// Whether the local block changed since the last sync: against the stored
/// fingerprint, or, with none stored, against the remote event.
pub open spec fn local_changed_spec(
    local_fp: Seq<char>,
    remote_fp: Seq<char>,
    link: CalendarSyncLink,
) -> bool {
    match link.remote_fingerprint {
        Some(f) => f@ != local_fp,
        None => local_fp != remote_fp,
    }
}

/// Whether the remote event changed since the last sync: its fingerprint
/// differs from the stored one, or its etag from the stored etag.
pub open spec fn remote_changed_spec(
    remote_fp: Seq<char>,
    link: CalendarSyncLink,
    remote: RemoteCalendarEvent,
) -> bool {
    (match link.remote_fingerprint {
        Some(f) => f@ != remote_fp,
        None => false,
    }) || (match (link.remote_etag, remote.etag) {
        (Some(a), Some(b)) => a@ != b@,
        _ => false,
    })
}

/// What to do with a linked pair, and what to store with the link after.
#[derive(Clone, Debug)]
pub struct LinkedEventPlan {
    pub action: LinkedCalendarAction,
    pub link_fingerprint: String,
    pub link_last_modified: Option<String>,
}

pub open spec fn local_fp_spec(local: LocalCalendarBlock) -> Seq<char> {
    calendar_fingerprint_spec(
        local.schedule_date@,
        local.start_minute as int,
        local.end_minute as int,
        local.title@,
        opt_view(local.note),
    )
}

pub open spec fn remote_fp_spec(remote: RemoteCalendarEvent) -> Seq<char> {
    calendar_fingerprint_spec(
        remote.schedule_date@,
        remote.start_minute as int,
        remote.end_minute as int,
        remote.title@,
        opt_view(remote.note),
    )
}

/// Reconciles a linked pair. The block's change time is its `updated_at`;
/// the action follows `linked_calendar_action_spec`; the link then stores the
/// fingerprint of the side that now holds the content (the remote one after
/// a pull, the local one otherwise) and the remote change time.
pub fn plan_linked_event(
    local: &LocalCalendarBlock,
    remote: &RemoteCalendarEvent,
    link: &CalendarSyncLink,
    prefer_local: bool,
) -> (r: Result<LinkedEventPlan, String>)
    ensures
        r is Err <==> !(rfc3339_millis_spec(local.updated_at@) matches Ok(m) && i64::MIN <= m
            <= i64::MAX),
        r matches Ok(plan) ==> {
            let local_updated = rfc3339_millis_spec(local.updated_at@)->Ok_0;
            let lfp = local_fp_spec(*local);
            let rfp = remote_fp_spec(*remote);
            &&& plan.action == linked_calendar_action_spec(
                local_updated,
                remote_updated_spec(*remote, *link),
                local_changed_spec(lfp, rfp, *link),
                remote_changed_spec(rfp, *link, *remote),
                prefer_local,
            )
            &&& plan.link_fingerprint@ == (if plan.action == LinkedCalendarAction::PullRemote {
                rfp
            } else {
                lfp
            })
            &&& match remote_updated_spec(*remote, *link) {
                Some(v) => plan.link_last_modified matches Some(s) && s@ == int_decimal(v),
                None => plan.link_last_modified is None,
            }
        },
{
    let local_updated = match parse_rfc3339_millis(local.updated_at.as_str()) {
        Ok(m) => m,
        Err(e) => {
            return Err(e);
        },
    };
    let remote_updated: Option<i64> = match remote.updated_millis {
        Some(m) => Some(m),
        None => match &link.remote_last_modified {
            Some(s) => parse_i64(s.as_str()),
            None => None,
        },
    };
    let local_fp = local_calendar_block_fingerprint(local);
    let remote_fp = remote_event_fingerprint(remote);
    let local_changed = match &link.remote_fingerprint {
        Some(f) => *f != local_fp,
        None => local_fp != remote_fp,
    };
    let fp_changed = match &link.remote_fingerprint {
        Some(f) => *f != remote_fp,
        None => false,
    };
    let etag_changed = match (&link.remote_etag, &remote.etag) {
        (Some(a), Some(b)) => *a != *b,
        _ => false,
    };
    let remote_changed = fp_changed || etag_changed;
    let action = linked_calendar_action(
        local_updated,
        remote_updated,
        local_changed,
        remote_changed,
        prefer_local,
    );
    let link_fingerprint = match action {
        LinkedCalendarAction::PullRemote => remote_fp,
        _ => local_fp,
    };
    let link_last_modified = match remote_updated {
        Some(v) => Some(i64_to_string(v)),
        None => None,
    };
    Ok(LinkedEventPlan { action, link_fingerprint, link_last_modified })
}

/// The step taken for a local block during a sync run.
#[derive(Clone, Copy, Debug, PartialEq, Eq, Structural)]
pub enum LocalBlockStep {
    /// The block was deleted locally: delete its remote event and the link.
    DeleteRemote,
    /// Its linked event was listed: reconcile the pair.
    SyncLinked,
    /// Its linked event was not listed: ask the server whether it is gone,
    /// and if so delete the block and the link.
    ProbeRemoteDeleted,
    /// Not linked, but a listed event carries its marker: link the two.
    AdoptMarkedRemote,
    /// Not linked: write a new remote event and link it.
    PushNew,
    /// Nothing to do.
    Skip,
}

/// The step for a local block.
pub open spec fn local_block_step_spec(
    deleted: bool,
    linked: bool,
    linked_remote_listed: bool,
    in_range: bool,
    marked_remote_listed: bool,
) -> LocalBlockStep {
    if linked {
        if deleted {
            LocalBlockStep::DeleteRemote
        } else if linked_remote_listed {
            LocalBlockStep::SyncLinked
        } else if in_range {
            LocalBlockStep::ProbeRemoteDeleted
        } else {
            LocalBlockStep::Skip
        }
    } else if !deleted && in_range {
        if marked_remote_listed {
            LocalBlockStep::AdoptMarkedRemote
        } else {
            LocalBlockStep::PushNew
        }
    } else {
        LocalBlockStep::Skip
    }
}

/// Decides the step for a local block: whether it is deleted (a tombstone),
/// whether it has a link, whether the linked event was listed, whether its
/// date is in the sync window, and whether a listed event carries its marker.
pub fn local_block_step(
    deleted: bool,
    linked: bool,
    linked_remote_listed: bool,
    in_range: bool,
    marked_remote_listed: bool,
) -> (r: LocalBlockStep)
    ensures
        r == local_block_step_spec(deleted, linked, linked_remote_listed, in_range, marked_remote_listed),
        // a tombstone is never pushed or adopted
        deleted ==> r == LocalBlockStep::DeleteRemote || r == LocalBlockStep::Skip,
{
    if linked {
        if deleted {
            LocalBlockStep::DeleteRemote
        } else if linked_remote_listed {
            LocalBlockStep::SyncLinked
        } else if in_range {
            LocalBlockStep::ProbeRemoteDeleted
        } else {
            LocalBlockStep::Skip
        }
    } else if !deleted && in_range {
        if marked_remote_listed {
            LocalBlockStep::AdoptMarkedRemote
        } else {
            LocalBlockStep::PushNew
        }
    } else {
        LocalBlockStep::Skip
    }
}

/// The step taken for a listed remote event after the local blocks.
#[derive(Clone, Copy, Debug, PartialEq, Eq, Structural)]
pub enum RemoteEventStep {
    /// Already linked to a block.
    AlreadyLinked,
    /// Its marker names a live local block: link the two.
    LinkLocal(i64),
    /// Its marker names a deleted local block: leave it.
    KeepDeleted,
    /// Import it as a new block; when it carries no marker, write one back.
    Import { write_marker: bool },
    /// Nothing to do.
    Skip,
}

/// The step for a remote event.
pub open spec fn remote_event_step_spec(
    linked: bool,
    has_marker: bool,
    marked_local: Option<(i64, Option<i64>)>,
    importable: bool,
) -> RemoteEventStep {
    if linked {
        RemoteEventStep::AlreadyLinked
    } else if has_marker && marked_local is Some {
        match marked_local {
            Some((local_id, None)) => RemoteEventStep::LinkLocal(local_id),
            _ => RemoteEventStep::KeepDeleted,
        }
    } else if importable {
        RemoteEventStep::Import { write_marker: !has_marker }
    } else {
        RemoteEventStep::Skip
    }
}

/// Decides the step for a remote event: whether it is linked, whether it
/// carries a marker, the local block (id, deletion time) its marker names,
/// and whether it is importable.
pub fn remote_event_step(
    linked: bool,
    has_marker: bool,
    marked_local: Option<(i64, Option<i64>)>,
    importable: bool,
) -> (r: RemoteEventStep)
    ensures
        r == remote_event_step_spec(linked, has_marker, marked_local, importable),
        // an event already known is never imported a second time
        linked ==> r == RemoteEventStep::AlreadyLinked,
{
    if linked {
        return RemoteEventStep::AlreadyLinked;
    }
    if has_marker {
        if let Some(meta) = marked_local {
            if meta.1.is_none() {
                return RemoteEventStep::LinkLocal(meta.0);
            }
            return RemoteEventStep::KeepDeleted;
        }
    }
    if importable {
        RemoteEventStep::Import { write_marker: !has_marker }
    } else {
        RemoteEventStep::Skip
    }
}

/// The counts at the start of a run over `event_count` listed events.
pub fn new_sync_counters(event_count: i64) -> (c: SyncCounters)
    ensures
        c.pushed_count == 0 && c.pulled_count == 0 && c.deleted_count == 0 && c.conflict_count
            == 0 && c.event_count == event_count,
{
    SyncCounters {
        pushed_count: 0,
        pulled_count: 0,
        deleted_count: 0,
        conflict_count: 0,
        event_count,
    }
}

/// The result of a run that did not sync.
pub fn skipped_sync_at(message: &str, synced_at: String) -> (r: CalDavSyncResult)
    ensures
        r.status@ == "skipped"@,
        r.message@ == message@,
        r.pushed_count == 0 && r.pulled_count == 0 && r.deleted_count == 0 && r.conflict_count
            == 0 && r.event_count == 0,
        r.synced_at@ == synced_at@,
{
    CalDavSyncResult {
        status: String::from_str("skipped"),
        message: String::from_str(message),
        pushed_count: 0,
        pulled_count: 0,
        deleted_count: 0,
        conflict_count: 0,
        event_count: 0,
        synced_at,
    }
}

/// The result of a run that did not sync, stamped now.
pub fn skipped_sync(message: &str) -> (r: CalDavSyncResult)
    ensures
        r.status@ == "skipped"@,
        r.message@ == message@,
        r.pushed_count == 0 && r.pulled_count == 0 && r.deleted_count == 0 && r.conflict_count
            == 0 && r.event_count == 0,
{
    skipped_sync_at(message, utc_now_rfc3339())
}

/// The result of a completed run.
pub fn synced_result(counters: SyncCounters, synced_at: String) -> (r: CalDavSyncResult)
    ensures
        r.status@ == "synced"@,
        r.message@ == "CalDAV 日历同步完成。"@,
        r.pushed_count == counters.pushed_count,
        r.pulled_count == counters.pulled_count,
        r.deleted_count == counters.deleted_count,
        r.conflict_count == counters.conflict_count,
        r.event_count == counters.event_count,
        r.synced_at@ == synced_at@,
{
    CalDavSyncResult {
        status: String::from_str("synced"),
        message: String::from_str("CalDAV 日历同步完成。"),
        pushed_count: counters.pushed_count,
        pulled_count: counters.pulled_count,
        deleted_count: counters.deleted_count,
        conflict_count: counters.conflict_count,
        event_count: counters.event_count,
        synced_at,
    }
}

// ---------------------------------------------------------------------------
// HTTP answers
// ---------------------------------------------------------------------------

/// A PROPFIND or REPORT answer is read only with status 200 or 207.
pub fn response_status_ok(status: u16) -> (b: bool)
    ensures
        b == (status == 200 || status == 207),
{
    status == 200 || status == 207
}

/// A PUT succeeded: any 2xx status.
pub fn put_succeeded(status: u16) -> (b: bool)
    ensures
        b == (200 <= status <= 299),
{
    200 <= status && status <= 299
}

/// A DELETE succeeded: any 2xx status, or 404 (already gone).
pub fn delete_succeeded(status: u16) -> (b: bool)
    ensures
        b == (200 <= status <= 299 || status == 404),
{
    (200 <= status && status <= 299) || status == 404
}

/// A probe of a linked event shows it deleted: 404 or 410.
pub fn remote_event_gone(status: u16) -> (b: bool)
    ensures
        b == (status == 404 || status == 410),
{
    status == 404 || status == 410
}

/// The answer to a connection test with the given HTTP status.
pub fn connection_test_result(status: u16, calendar_url: String, calendar_name: String) -> (r:
    Result<CalDavStatus, String>)
    ensures
        (status == 200 || status == 207) <==> r is Ok,
        r matches Ok(s) ==> s.configured && s.calendar_url@ == calendar_url@ && s.calendar_name@
            == calendar_name@ && s.message@ == "CalDAV 日历连接成功。"@,
        r matches Err(e) ==> e@ == "CalDAV 连接失败，HTTP 状态："@ + int_decimal(status as int),
{
    if response_status_ok(status) {
        Ok(
            CalDavStatus {
                configured: true,
                calendar_url,
                calendar_name,
                message: String::from_str("CalDAV 日历连接成功。"),
            },
        )
    } else {
        let mut e = String::from_str("CalDAV 连接失败，HTTP 状态：");
        push_str(&mut e, i64_to_string(status as i64).as_str());
        Err(e)
    }
}

} // verus!
