//! Rules of the Feishu bridge that need no network: addresses, tasklist
//! names and keys, timestamps, the sync marker in task and event texts, the
//! OAuth callback, and the decision for a linked calendar event.
use crate::caldav::{opt_str_view, opt_view};
use crate::caldav_sync::{parse_rfc3339_millis, rfc3339_millis_spec, utc_now_rfc3339};
use crate::clock::{in_chrono_range, rfc3339_parse, rfc3339_parse_result, Instant};
use crate::feishu_codec::{encode_form_bytes, encode_form_component, percent_decode, percent_decode_spec};
use crate::text::{
    contains_spec, ends_with_spec, find_char_spec, join_spec, join_strings,
    parse_i64, parse_i64_spec, push_char, push_str, split_char, split_char_spec, split_once_char,
    split_once_spec, starts_with_spec, str_contains, str_ends_with, str_starts_with, str_to_chars,
    strings_view, trim, trim_spec, trim_start, trim_start_spec,
    chars_range_to_string, is_whitespace, is_ws,
};
use vstd::prelude::*;
use vstd::string::*;
use vstd::utf8::encode_utf8;

verus! {

// ---------------------------------------------------------------------------
// Settings and results
// ---------------------------------------------------------------------------

/// The Feishu bridge settings.
#[derive(Clone, Debug)]
pub struct FeishuSyncSettings {
    pub enabled: bool,
    pub app_id: String,
    pub app_secret: String,
    pub redirect_uri: String,
}

/// A tasklist of the bridge and whether it exists.
#[derive(Clone, Debug)]
pub struct FeishuTasklistStatus {
    pub key: String,
    pub label: String,
    pub guid: Option<String>,
    pub ready: bool,
}

/// A recorded sync run.
#[derive(Clone, Debug)]
pub struct FeishuSyncRunSummary {
    pub id: i64,
    pub run_id: String,
    pub trigger: String,
    pub status: String,
    pub started_at: String,
    pub finished_at: String,
    pub duration_ms: i64,
    pub pushed_count: i64,
    pub pulled_count: i64,
    pub deleted_count: i64,
    pub conflict_count: i64,
    pub task_count: i64,
    pub calendar_count: i64,
    pub message: String,
    pub error_message: Option<String>,
}

/// The state of the bridge as shown.
#[derive(Clone, Debug)]
pub struct FeishuSyncStatus {
    pub enabled: bool,
    pub configured: bool,
    pub authenticated: bool,
    pub expires_at: Option<String>,
    pub tasklist_guid: Option<String>,
    pub tasklist_count: usize,
    pub tasklists: Vec<FeishuTasklistStatus>,
    pub calendar_id: Option<String>,
    pub redirect_uri: String,
    pub pending_authorization_url: Option<String>,
    pub pending_message: Option<String>,
    pub required_scopes: String,
    pub last_run: Option<FeishuSyncRunSummary>,
}

/// A started OAuth login.
#[derive(Clone, Debug)]
pub struct FeishuOAuthLogin {
    pub status: String,
    pub authorization_url: String,
    pub redirect_uri: String,
    pub message: String,
}

/// The answer to a login poll.
#[derive(Clone, Debug)]
pub struct FeishuLoginPollResult {
    pub status: String,
    pub message: String,
    pub authenticated: bool,
}

/// The outcome of a sync run.
#[derive(Clone, Debug)]
pub struct FeishuSyncResult {
    pub status: String,
    pub message: String,
    pub pushed_count: i64,
    pub pulled_count: i64,
    pub deleted_count: i64,
    pub conflict_count: i64,
    pub task_count: i64,
    pub calendar_count: i64,
    pub synced_at: String,
}

/// The outcome of rebuilding the tasklists.
#[derive(Clone, Debug)]
pub struct FeishuRebuildResult {
    pub status: String,
    pub message: String,
    pub backup_path: String,
    pub remote_backup_path: String,
    pub deleted_tasklist_count: i64,
    pub uploaded_task_count: i64,
    pub tasklist_count: i64,
    pub synced_at: String,
}

/// The text itself, or the fallback when the text is empty.
pub fn if_empty(value: String, fallback: &str) -> (r: String)
    ensures
        r@ == (if value@.len() == 0 {
            fallback@
        } else {
            value@
        }),
{
    if value.as_str().is_empty() {
        String::from_str(fallback)
    } else {
        value
    }
}

pub open spec fn default_redirect_uri() -> Seq<char> {
    "http://127.0.0.1:39781/feishu/callback"@
}

/// The settings as stored: fields trimmed, an empty redirect address
/// replaced by the local default.
pub fn normalize_settings(settings: FeishuSyncSettings) -> (r: FeishuSyncSettings)
    ensures
        r.enabled == settings.enabled,
        r.app_id@ == trim_spec(settings.app_id@),
        r.app_secret@ == trim_spec(settings.app_secret@),
        r.redirect_uri@ == (if trim_spec(settings.redirect_uri@).len() == 0 {
            default_redirect_uri()
        } else {
            trim_spec(settings.redirect_uri@)
        }),
{
    let redirect_uri = if_empty(trim(settings.redirect_uri.as_str()), "http://127.0.0.1:39781/feishu/callback");
    FeishuSyncSettings {
        enabled: settings.enabled,
        app_id: trim(settings.app_id.as_str()),
        app_secret: trim(settings.app_secret.as_str()),
        redirect_uri,
    }
}

/// The settings as shown: without the secret.
pub fn redact_feishu_settings(settings: FeishuSyncSettings) -> (r: FeishuSyncSettings)
    ensures
        r.app_secret@.len() == 0,
        r.enabled == settings.enabled,
        r.app_id@ == settings.app_id@,
        r.redirect_uri@ == settings.redirect_uri@,
{
    FeishuSyncSettings {
        enabled: settings.enabled,
        app_id: settings.app_id,
        app_secret: String::new(),
        redirect_uri: settings.redirect_uri,
    }
}

/// The result of a run that did not sync, stamped `synced_at`.
pub fn skipped_result_at(message: &str, synced_at: String) -> (r: FeishuSyncResult)
    ensures
        r.status@ == "skipped"@,
        r.message@ == message@,
        r.pushed_count == 0 && r.pulled_count == 0 && r.deleted_count == 0 && r.conflict_count
            == 0 && r.task_count == 0 && r.calendar_count == 0,
        r.synced_at@ == synced_at@,
{
    FeishuSyncResult {
        status: String::from_str("skipped"),
        message: String::from_str(message),
        pushed_count: 0,
        pulled_count: 0,
        deleted_count: 0,
        conflict_count: 0,
        task_count: 0,
        calendar_count: 0,
        synced_at,
    }
}

/// The result of a run that did not sync, stamped now.
pub fn skipped_result(message: &str) -> (r: FeishuSyncResult)
    ensures
        r.status@ == "skipped"@,
        r.message@ == message@,
        r.pushed_count == 0 && r.pulled_count == 0 && r.deleted_count == 0 && r.conflict_count
            == 0 && r.task_count == 0 && r.calendar_count == 0,
{
    skipped_result_at(message, utc_now_rfc3339())
}

/// A sync caused by a local change (its trigger ends in `_change`).
pub fn is_local_change_trigger(trigger: &str) -> (b: bool)
    ensures
        b == ends_with_spec(trigger@, "_change"@),
{
    str_ends_with(trigger, "_change")
}

/// Whether an error names Feishu's "event deleted" code 193003.
pub fn is_feishu_deleted_event_error(error: &str) -> (b: bool)
    ensures
        b == contains_spec(error@, "193003"@),
{
    str_contains(error, "193003")
}

/// A Feishu API address: a full `https://` address as given, else a path on
/// the Feishu open platform.
pub fn feishu_url(path_or_url: &str) -> (r: String)
    ensures
        r@ == (if starts_with_spec(path_or_url@, "https://"@) {
            path_or_url@
        } else {
            "https://open.feishu.cn"@ + path_or_url@
        }),
{
    if str_starts_with(path_or_url, "https://") {
        String::from_str(path_or_url)
    } else {
        let mut s = String::from_str("https://open.feishu.cn");
        push_str(&mut s, path_or_url);
        s
    }
}

/// `url` with `key=value` appended as a query parameter, the value form-encoded.
pub fn append_query_param(url: &str, key: &str, value: &str) -> (r: String)
    ensures
        r@ == url@ + seq![if contains_spec(url@, "?"@) {
            '&'
        } else {
            '?'
        }] + key@ + seq!['='] + encode_form_bytes(encode_utf8(value@)),
{
    let mut s = String::from_str(url);
    if str_contains(url, "?") {
        push_char(&mut s, '&');
    } else {
        push_char(&mut s, '?');
    }
    push_str(&mut s, key);
    push_char(&mut s, '=');
    let encoded = encode_form_component(value);
    push_str(&mut s, encoded.as_str());
    s
}

/// The scopes the bridge asks for.
pub open spec fn oauth_scope() -> Seq<char> {
    "offline_access task:task:read task:task:write task:tasklist:read task:tasklist:write calendar:calendar calendar:calendar:readonly"@
}

/// The address the user opens to authorise the app.
pub fn feishu_authorization_url(app_id: &str, redirect_uri: &str, state: &str) -> (r: String)
    ensures
        r@ == "https://open.feishu.cn/open-apis/authen/v1/index?app_id="@ + encode_form_bytes(
            encode_utf8(app_id@),
        ) + "&redirect_uri="@ + encode_form_bytes(encode_utf8(redirect_uri@)) + "&state="@
            + encode_form_bytes(encode_utf8(state@)) + "&scope="@ + encode_form_bytes(
            encode_utf8(oauth_scope()),
        ),
{
    let mut s = String::from_str("https://open.feishu.cn/open-apis/authen/v1/index?app_id=");
    push_str(&mut s, encode_form_component(app_id).as_str());
    push_str(&mut s, "&redirect_uri=");
    push_str(&mut s, encode_form_component(redirect_uri).as_str());
    push_str(&mut s, "&state=");
    push_str(&mut s, encode_form_component(state).as_str());
    push_str(&mut s, "&scope=");
    let scope = "offline_access task:task:read task:task:write task:tasklist:read task:tasklist:write calendar:calendar calendar:calendar:readonly";
    push_str(&mut s, encode_form_component(scope).as_str());
    s
}

// ---------------------------------------------------------------------------
// Tasklists
// ---------------------------------------------------------------------------

/// The setting that stores the tasklist id of a key.
pub fn feishu_tasklist_setting_key(key: &str) -> (r: String)
    ensures
        r@ == "feishu_tasklist_guid_"@ + key@,
{
    let mut s = String::from_str("feishu_tasklist_guid_");
    push_str(&mut s, key);
    s
}

/// The tasklist title of a key; unknown keys are the general list.
pub open spec fn tasklist_title_spec(key: Seq<char>) -> Seq<char> {
    if key == "politics"@ {
        "考研专注 - 政治"@
    } else if key == "english"@ {
        "考研专注 - 英语"@
    } else if key == "math"@ {
        "考研专注 - 数学"@
    } else if key == "major"@ {
        "考研专注 - 专业课"@
    } else if key == "today"@ {
        "考研专注 - 今日任务"@
    } else {
        "考研专注 - 通用"@
    }
}

pub fn tasklist_title_for_key(key: &str) -> (r: String)
    ensures
        r@ == tasklist_title_spec(key@),
{
    let k = String::from_str(key);
    if k == String::from_str("politics") {
        String::from_str("考研专注 - 政治")
    } else if k == String::from_str("english") {
        String::from_str("考研专注 - 英语")
    } else if k == String::from_str("math") {
        String::from_str("考研专注 - 数学")
    } else if k == String::from_str("major") {
        String::from_str("考研专注 - 专业课")
    } else if k == String::from_str("today") {
        String::from_str("考研专注 - 今日任务")
    } else {
        String::from_str("考研专注 - 通用")
    }
}

/// The label of a tasklist key; unknown keys are the general list.
pub open spec fn tasklist_label_spec(key: Seq<char>) -> Seq<char> {
    if key == "politics"@ {
        "政治"@
    } else if key == "english"@ {
        "英语"@
    } else if key == "math"@ {
        "数学"@
    } else if key == "major"@ {
        "专业课"@
    } else if key == "today"@ {
        "今日任务"@
    } else {
        "通用"@
    }
}

pub fn tasklist_label_for_key(key: &str) -> (r: String)
    ensures
        r@ == tasklist_label_spec(key@),
{
    let k = String::from_str(key);
    if k == String::from_str("politics") {
        String::from_str("政治")
    } else if k == String::from_str("english") {
        String::from_str("英语")
    } else if k == String::from_str("math") {
        String::from_str("数学")
    } else if k == String::from_str("major") {
        String::from_str("专业课")
    } else if k == String::from_str("today") {
        String::from_str("今日任务")
    } else {
        String::from_str("通用")
    }
}

/// The tasklist key of a checklist board scope; anything else is general.
pub open spec fn tasklist_key_for_scope_spec(scope: Seq<char>) -> Seq<char> {
    if scope == "checklist:politics"@ {
        "politics"@
    } else if scope == "checklist:english"@ {
        "english"@
    } else if scope == "checklist:math"@ {
        "math"@
    } else if scope == "checklist:major"@ {
        "major"@
    } else {
        "general"@
    }
}

pub fn tasklist_key_for_board_scope(board_scope: &str) -> (r: String)
    ensures
        r@ == tasklist_key_for_scope_spec(board_scope@),
{
    let s = String::from_str(board_scope);
    if s == String::from_str("checklist:politics") {
        String::from_str("politics")
    } else if s == String::from_str("checklist:english") {
        String::from_str("english")
    } else if s == String::from_str("checklist:math") {
        String::from_str("math")
    } else if s == String::from_str("checklist:major") {
        String::from_str("major")
    } else {
        String::from_str("general")
    }
}

/// The checklist board scope of a tasklist key; anything else is general.
pub open spec fn scope_for_tasklist_key_spec(key: Seq<char>) -> Seq<char> {
    if key == "politics"@ {
        "checklist:politics"@
    } else if key == "english"@ {
        "checklist:english"@
    } else if key == "math"@ {
        "checklist:math"@
    } else if key == "major"@ {
        "checklist:major"@
    } else {
        "checklist:general"@
    }
}

pub fn board_scope_for_tasklist_key(key: &str) -> (r: String)
    ensures
        r@ == scope_for_tasklist_key_spec(key@),
{
    let k = String::from_str(key);
    if k == String::from_str("politics") {
        String::from_str("checklist:politics")
    } else if k == String::from_str("english") {
        String::from_str("checklist:english")
    } else if k == String::from_str("math") {
        String::from_str("checklist:math")
    } else if k == String::from_str("major") {
        String::from_str("checklist:major")
    } else {
        String::from_str("checklist:general")
    }
}

/// The keys of the tasklists the bridge keeps, in order.
pub open spec fn tasklist_keys() -> Seq<Seq<char>> {
    seq!["politics"@, "english"@, "math"@, "major"@, "general"@, "today"@]
}

/// The keys of the tasklists the bridge keeps, in order.
pub fn feishu_tasklist_keys() -> (r: Vec<String>)
    ensures
        strings_view(r@) == tasklist_keys(),
{
    let mut v: Vec<String> = Vec::new();
    v.push(String::from_str("politics"));
    v.push(String::from_str("english"));
    v.push(String::from_str("math"));
    v.push(String::from_str("major"));
    v.push(String::from_str("general"));
    v.push(String::from_str("today"));
    assert(strings_view(v@) =~= tasklist_keys());
    v
}

/// The status of a tasklist from its stored guid: the trimmed guid when not
/// blank, ready exactly when there is one, and the key's label.
pub fn tasklist_status(key: &str, stored_guid: &str) -> (r: FeishuTasklistStatus)
    ensures
        r.key@ == key@,
        r.label@ == tasklist_label_spec(key@),
        opt_view(r.guid) == (if trim_spec(stored_guid@).len() == 0 {
            None::<Seq<char>>
        } else {
            Some(trim_spec(stored_guid@))
        }),
        r.ready == (trim_spec(stored_guid@).len() != 0),
{
    let t = trim(stored_guid);
    let guid = if t.as_str().is_empty() {
        None
    } else {
        Some(t)
    };
    let ready = guid.is_some();
    FeishuTasklistStatus {
        key: String::from_str(key),
        label: tasklist_label_for_key(key),
        guid,
        ready,
    }
}

/// The checklist tasklist keys.
pub open spec fn is_checklist_tasklist_key(key: Seq<char>) -> bool {
    key == "politics"@ || key == "english"@ || key == "math"@ || key == "major"@ || key
        == "general"@
}

/// A checklist tasklist key goes to its board scope and back unchanged;
/// so does a subject board scope.
pub proof fn lemma_tasklist_scope_roundtrip(key: Seq<char>, scope: Seq<char>)
    requires
        is_checklist_tasklist_key(key),
        scope == "checklist:politics"@ || scope == "checklist:english"@ || scope
            == "checklist:math"@ || scope == "checklist:major"@ || scope == "checklist:general"@,
    ensures
        tasklist_key_for_scope_spec(scope_for_tasklist_key_spec(key)) == key,
        scope_for_tasklist_key_spec(tasklist_key_for_scope_spec(scope)) == scope,
{
    reveal_strlit("politics");
    reveal_strlit("english");
    reveal_strlit("math");
    reveal_strlit("major");
    reveal_strlit("general");
    reveal_strlit("checklist:politics");
    reveal_strlit("checklist:english");
    reveal_strlit("checklist:math");
    reveal_strlit("checklist:major");
    reveal_strlit("checklist:general");
    assert("politics"@.len() == 8 && "english"@.len() == 7 && "math"@.len() == 4 && "major"@.len() == 5 && "general"@.len() == 7);
    assert("english"@[0] != "general"@[0]);
    assert("checklist:politics"@.len() == 18 && "checklist:english"@.len() == 17 && "checklist:math"@.len() == 14);
    assert("checklist:major"@.len() == 15 && "checklist:general"@.len() == 17);
    assert("checklist:english"@[10] != "checklist:general"@[10]);
}

/// Whether a tasklist or calendar name belongs to the bridge.
pub fn is_app_tasklist_name(name: &str) -> (b: bool)
    ensures
        b == (name@ == "考研专注"@ || starts_with_spec(name@, "考研专注 - "@)),
{
    String::from_str(name) == String::from_str("考研专注") || str_starts_with(name, "考研专注 - ")
}

// ---------------------------------------------------------------------------
// Timestamps
// ---------------------------------------------------------------------------

/// Feishu gives seconds or milliseconds; values past 9999999999 are
/// milliseconds.
pub open spec fn normalize_seconds_spec(value: int) -> int {
    if value > 9_999_999_999 {
        value / 1000
    } else {
        value
    }
}

pub open spec fn normalize_millis_spec(value: int) -> int {
    if value < 9_999_999_999 {
        value * 1000
    } else {
        value
    }
}

/// A timestamp in seconds (see `normalize_seconds_spec`).
pub fn normalize_timestamp_seconds(value: i64) -> (r: i64)
    ensures
        r == normalize_seconds_spec(value as int),
{
    if value > 9_999_999_999 {
        value / 1000
    } else {
        value
    }
}

/// A timestamp in milliseconds: values below 9999999999 are seconds.
pub fn normalize_timestamp_millis(value: i64) -> (r: i64)
    requires
        value >= -9_223_372_036_854_775,
    ensures
        r == normalize_millis_spec(value as int),
{
    if value < 9_999_999_999 {
        value * 1000
    } else {
        value
    }
}

/// A timestamp given in seconds (from 1970-04-26 on, where the two units
/// cannot be confused) keeps its second through the millisecond form and
/// back, and the millisecond form is left as it is.
pub proof fn lemma_timestamp_units(seconds: int)
    requires
        10_000_000 <= seconds < 9_999_999_999,
    ensures
        normalize_seconds_spec(normalize_millis_spec(seconds)) == seconds,
        normalize_millis_spec(normalize_millis_spec(seconds)) == normalize_millis_spec(seconds),
{
}

/// A link's stored change time in milliseconds: an integer (seconds or
/// milliseconds; none for seconds so far before the epoch that their
/// milliseconds leave `i64`), else an RFC 3339 time.
pub open spec fn link_millis_spec(value: Seq<char>) -> Option<int> {
    match parse_i64_spec(value) {
        Some(v) => if v >= -9_223_372_036_854_775 {
            Some(normalize_millis_spec(v as int))
        } else {
            None
        },
        None => match rfc3339_millis_spec(value) {
            Ok(m) => if i64::MIN <= m <= i64::MAX {
                Some(m)
            } else {
                None
            },
            Err(_) => None,
        },
    }
}

pub fn parse_link_millis(value: &str) -> (r: Option<i64>)
    ensures
        match parse_i64_spec(value@) {
            Some(v) => r == if v >= -9_223_372_036_854_775 {
                Some(normalize_millis_spec(v as int) as i64)
            } else {
                None::<i64>
            },
            None => true,
        },
        match r {
            Some(m) => link_millis_spec(value@) == Some(m as int),
            None => link_millis_spec(value@) is None,
        },
{
    match parse_i64(value) {
        Some(v) => {
            if v >= -9_223_372_036_854_775 {
                Some(normalize_timestamp_millis(v))
            } else {
                None
            }
        },
        None => match parse_rfc3339_millis(value) {
            Ok(m) => Some(m),
            Err(_) => None,
        },
    }
}

/// Whether an access token can be used at `now`: it is not empty and, when
/// its expiry reads as a time, that is more than a minute away.
pub open spec fn token_usable_spec(access_token: Seq<char>, expires_at: Option<Seq<char>>, now: Instant) -> bool {
    access_token.len() != 0 && match expires_at {
        None => true,
        Some(e) => match rfc3339_parse_result(e) {
            Err(_) => true,
            Ok(p) => p.0 > now.secs + 60 || (p.0 == now.secs + 60 && p.1 > now.nanos),
        },
    }
}

/// Whether an access token can be used at `now` (see `token_usable_spec`).
pub fn is_feishu_access_token_usable_at(
    access_token: &str,
    expires_at: Option<&str>,
    now: Instant,
) -> (b: bool)
    requires
        in_chrono_range(now),
    ensures
        b == token_usable_spec(access_token@, opt_str_view(expires_at), now),
{
    if access_token.is_empty() {
        return false;
    }
    match expires_at {
        None => true,
        Some(e) => match rfc3339_parse(e) {
            Err(_) => true,
            Ok(t) => t.secs > now.secs + 60 || (t.secs == now.secs + 60 && t.nanos > now.nanos),
        },
    }
}

/// Whether an access token can be used now (see
/// `is_feishu_access_token_usable_at`); whatever the clock reads, the
/// answer is the one for that time.
pub fn is_feishu_access_token_usable(access_token: &str, expires_at: Option<&str>) -> (b: bool)
    ensures
        exists|now: Instant| in_chrono_range(now) && b == token_usable_spec(access_token@, opt_str_view(expires_at), now),
        access_token@.len() == 0 ==> !b,
        access_token@.len() != 0 && expires_at is None ==> b,
{
    let now = crate::clock::utc_now();
    let b = is_feishu_access_token_usable_at(access_token, expires_at, now);
    assert(in_chrono_range(now) && b == token_usable_spec(access_token@, opt_str_view(expires_at), now));
    b
}

/// The guid of the first listed tasklist named `title` that has a guid.
pub open spec fn find_tasklist_guid_spec(existing: Seq<(Option<Seq<char>>, Option<Seq<char>>)>, title: Seq<char>) -> Option<
    Seq<char>,
>
    decreases existing.len(),
{
    if existing.len() == 0 {
        None
    } else if existing[0].0 == Some(title) && existing[0].1 is Some {
        existing[0].1
    } else {
        find_tasklist_guid_spec(existing.drop_first(), title)
    }
}

pub open spec fn name_guid_view(v: Seq<(Option<String>, Option<String>)>) -> Seq<(Option<Seq<char>>, Option<Seq<char>>)> {
    v.map_values(|p: (Option<String>, Option<String>)| (opt_view(p.0), opt_view(p.1)))
}

/// The guid of the first tasklist named `title` among the listed tasklists
/// (their names and guids, each where the listing has a string).
pub fn find_tasklist_guid(existing: &Vec<(Option<String>, Option<String>)>, title: &str) -> (r: Option<String>)
    ensures
        opt_view(r) == find_tasklist_guid_spec(name_guid_view(existing@), title@),
{
    let mut i: usize = 0;
    let t = String::from_str(title);
    let ghost all = name_guid_view(existing@);
    assert(all.skip(0) =~= all);
    while i < existing.len()
        invariant
            i <= existing@.len(),
            t@ == title@,
            all == name_guid_view(existing@),
            find_tasklist_guid_spec(all, title@) == find_tasklist_guid_spec(all.skip(i as int), title@),
        decreases existing.len() - i,
    {
        let ghost rest = all.skip(i as int);
        assert(rest[0] == all[i as int]);
        assert(rest.drop_first() =~= all.skip(i + 1));
        let (name, guid) = &existing[i];
        let named = match name {
            Some(n) => *n == t,
            None => false,
        };
        if named {
            match guid {
                Some(g) => {
                    return Some(g.clone());
                },
                None => {},
            }
        }
        i += 1;
    }
    assert(all.skip(i as int).len() == 0);
    None
}

/// Whether a listed name belongs to the bridge.
pub open spec fn is_app_name_spec(name: Seq<char>) -> bool {
    name == "考研专注"@ || starts_with_spec(name, "考研专注 - "@)
}

/// The guids of the listed tasklists that belong to the bridge, in order
/// (those with a bridge name and a guid).
pub open spec fn app_tasklist_guids_spec(listed: Seq<(Option<Seq<char>>, Option<Seq<char>>)>) -> Seq<Seq<char>>
    decreases listed.len(),
{
    if listed.len() == 0 {
        Seq::empty()
    } else {
        let last = listed.last();
        let rest = app_tasklist_guids_spec(listed.drop_last());
        match (last.0, last.1) {
            (Some(n), Some(g)) => if is_app_name_spec(n) {
                rest.push(g)
            } else {
                rest
            },
            _ => rest,
        }
    }
}

/// The guids of the bridge's own tasklists among the listed ones (names and
/// guids, each where the listing has a string).
pub fn app_tasklist_guids(listed: &Vec<(Option<String>, Option<String>)>) -> (r: Vec<String>)
    ensures
        strings_view(r@) == app_tasklist_guids_spec(name_guid_view(listed@)),
{
    let ghost all = name_guid_view(listed@);
    let mut out: Vec<String> = Vec::new();
    let mut i: usize = 0;
    assert(strings_view(out@) =~= Seq::<Seq<char>>::empty());
    while i < listed.len()
        invariant
            i <= listed@.len(),
            all == name_guid_view(listed@),
            strings_view(out@) == app_tasklist_guids_spec(all.subrange(0, i as int)),
        decreases listed.len() - i,
    {
        assert(all.subrange(0, i + 1).drop_last() =~= all.subrange(0, i as int));
        assert(all.subrange(0, i + 1).last() == all[i as int]);
        let (name, guid) = &listed[i];
        match (name, guid) {
            (Some(n), Some(g)) => {
                if is_app_tasklist_name(n.as_str()) {
                    let ghost before = strings_view(out@);
                    out.push(g.clone());
                    assert(strings_view(out@) =~= before.push(g@));
                }
            },
            _ => {},
        }
        i += 1;
    }
    assert(all.subrange(0, listed@.len() as int) =~= all);
    out
}

/// The outcome of rebuilding the tasklists: how many old tasklists were
/// removed and tasks uploaded, where the remote backup went, and when.
pub fn rebuild_result(
    deleted_tasklist_count: i64,
    uploaded_task_count: i64,
    tasklist_count: i64,
    remote_backup_path: String,
    synced_at: String,
) -> (r: FeishuRebuildResult)
    ensures
        r.status@ == "rebuilt"@,
        r.message@ == "飞书任务清单已按本地数据重建：删除旧清单 "@ + crate::text::int_decimal(
            deleted_tasklist_count as int,
        ) + " 个，上传任务 "@ + crate::text::int_decimal(uploaded_task_count as int) + " 条。"@,
        r.backup_path@.len() == 0,
        r.remote_backup_path@ == remote_backup_path@,
        r.deleted_tasklist_count == deleted_tasklist_count,
        r.uploaded_task_count == uploaded_task_count,
        r.tasklist_count == tasklist_count,
        r.synced_at@ == synced_at@,
{
    let mut m = String::from_str("飞书任务清单已按本地数据重建：删除旧清单 ");
    push_str(&mut m, crate::text::i64_to_string(deleted_tasklist_count).as_str());
    push_str(&mut m, " 个，上传任务 ");
    push_str(&mut m, crate::text::i64_to_string(uploaded_task_count).as_str());
    push_str(&mut m, " 条。");
    FeishuRebuildResult {
        status: String::from_str("rebuilt"),
        message: m,
        backup_path: String::new(),
        remote_backup_path,
        deleted_tasklist_count,
        uploaded_task_count,
        tasklist_count,
        synced_at,
    }
}

// ---------------------------------------------------------------------------
// Lines and the sync marker
// ---------------------------------------------------------------------------

/// A line with one `\r` before its newline removed.
pub open spec fn strip_cr(line: Seq<char>) -> Seq<char> {
    if line.len() > 0 && line.last() == '\r' {
        line.drop_last()
    } else {
        line
    }
}

/// The lines of a text as `str::lines` gives them: split at `\n`, a `\r`
/// before a `\n` dropped, and no empty line after a final newline.
pub open spec fn lines_spec(s: Seq<char>) -> Seq<Seq<char>> {
    if s.len() == 0 {
        Seq::empty()
    } else {
        let pieces = split_char_spec(s, '\n');
        let n = if s.last() == '\n' {
            pieces.len() - 1
        } else {
            pieces.len() as int
        };
        Seq::new(
            n as nat,
            |i: int|
                if i < pieces.len() - 1 {
                    strip_cr(pieces[i])
                } else {
                    pieces[i]
                },
        )
    }
}

fn strip_cr_exec(line: &String) -> (r: String)
    ensures
        r@ == strip_cr(line@),
{
    let chars = str_to_chars(line.as_str());
    if chars.len() > 0 && chars[chars.len() - 1] == '\r' {
        let r = chars_range_to_string(chars.as_slice(), 0, chars.len() - 1);
        assert(r@ =~= line@.drop_last());
        r
    } else {
        line.clone()
    }
}

proof fn lemma_split_nonempty(s: Seq<char>, c: char)
    ensures
        split_char_spec(s, c).len() >= 1,
        s.len() > 0 && s.last() == c ==> split_char_spec(s, c).last().len() == 0,
    decreases s.len(),
{
    crate::text::lemma_find_char_from_range(s, c, 0);
    match find_char_spec(s, c) {
        None => {
            if s.len() > 0 && s.last() == c {
                assert(s[s.len() - 1] == c);
            }
        },
        Some(i) => {
            if 0 <= i < s.len() {
                let rest = s.subrange(i + 1, s.len() as int);
                lemma_split_nonempty(rest, c);
                if s.len() > 0 && s.last() == c && rest.len() > 0 {
                    assert(rest.last() == s.last());
                }
                if rest.len() == 0 {
                    assert(split_char_spec(rest, c) =~= seq![rest]) by {
                        crate::text::lemma_find_char_from_range(rest, c, 0);
                    }
                }
            }
        },
    }
}

/// The lines of a text (see `lines_spec`).
pub fn str_lines(s: &str) -> (r: Vec<String>)
    ensures
        strings_view(r@) == lines_spec(s@),
{
    let mut out: Vec<String> = Vec::new();
    if s.is_empty() {
        assert(strings_view(out@) =~= lines_spec(s@));
        return out;
    }
    let pieces = split_char(s, '\n');
    let ghost pv = strings_view(pieces@);
    proof {
        lemma_split_nonempty(s@, '\n');
    }
    let all = str_to_chars(s);
    let ends_nl = all[all.len() - 1] == '\n';
    let n: usize = if ends_nl {
        pieces.len() - 1
    } else {
        pieces.len()
    };
    let mut i: usize = 0;
    while i < n
        invariant
            i <= n,
            n <= pieces@.len(),
            pieces@.len() >= 1,
            pv == strings_view(pieces@),
            pv == split_char_spec(s@, '\n'),
            n == (if s@.last() == '\n' {
                pv.len() - 1
            } else {
                pv.len() as int
            }),
            s@.len() > 0,
            strings_view(out@) =~= lines_spec(s@).subrange(0, i as int),
        decreases n - i,
    {
        let line = if i < pieces.len() - 1 {
            strip_cr_exec(&pieces[i])
        } else {
            pieces[i].clone()
        };
        let ghost before = strings_view(out@);
        out.push(line);
        assert(strings_view(out@) =~= before.push(line@));
        assert(lines_spec(s@).subrange(0, i + 1) =~= lines_spec(s@).subrange(0, i as int).push(
            lines_spec(s@)[i as int],
        ));
        i += 1;
    }
    assert(lines_spec(s@).subrange(0, n as int) =~= lines_spec(s@));
    out
}

pub open spec fn marker_prefix_spec() -> Seq<char> {
    "[kaoyan-focus:"@
}

/// The entity and sync id of a marker line `[kaoyan-focus:<entity>:<id>]`
/// (surrounding white space ignored).
pub open spec fn marker_line_spec(line: Seq<char>) -> Option<(Seq<char>, Seq<char>)> {
    let t = trim_spec(line);
    let p = marker_prefix_spec();
    if starts_with_spec(t, p) && t.len() > p.len() && t.last() == ']' {
        split_once_spec(t.subrange(p.len() as int, t.len() - 1), ':')
    } else {
        None
    }
}

/// The first marker line among `lines`.
pub open spec fn first_marker_line(lines: Seq<Seq<char>>) -> Option<(Seq<char>, Seq<char>)>
    decreases lines.len(),
{
    if lines.len() == 0 {
        None
    } else {
        match marker_line_spec(lines[0]) {
            Some(m) => Some(m),
            None => first_marker_line(lines.drop_first()),
        }
    }
}

/// Reads a marker line.
pub fn marker_in_line(line: &str) -> (r: Option<(String, String)>)
    ensures
        match r {
            Some(m) => marker_line_spec(line@) == Some((m.0@, m.1@)),
            None => marker_line_spec(line@) is None,
        },
{
    let t = trim(line);
    let prefix = "[kaoyan-focus:";
    proof {
        reveal_strlit("[kaoyan-focus:");
    }
    let chars = str_to_chars(t.as_str());
    let p: usize = 14;
    assert(prefix@.len() == 14);
    if str_starts_with(t.as_str(), prefix) && chars.len() > p && chars[chars.len() - 1] == ']' {
        let body = chars_range_to_string(chars.as_slice(), p, chars.len() - 1);
        assert(body@ =~= t@.subrange(14, t@.len() - 1));
        split_once_char(body.as_str(), ':')
    } else {
        None
    }
}

/// The marker of the first marker line of a text.
pub fn marker_in_lines(raw: &str) -> (r: Option<(String, String)>)
    ensures
        match r {
            Some(m) => first_marker_line(lines_spec(raw@)) == Some((m.0@, m.1@)),
            None => first_marker_line(lines_spec(raw@)) is None,
        },
{
    let lines = str_lines(raw);
    let ghost lv = strings_view(lines@);
    let mut i: usize = 0;
    assert(lv.skip(0) =~= lv);
    while i < lines.len()
        invariant
            i <= lines@.len(),
            lv == strings_view(lines@),
            lv == lines_spec(raw@),
            first_marker_line(lv) == first_marker_line(lv.skip(i as int)),
        decreases lines.len() - i,
    {
        assert(lv.skip(i as int).drop_first() =~= lv.skip(i + 1));
        assert(lv.skip(i as int)[0] == lines@[i as int]@);
        match marker_in_line(lines[i].as_str()) {
            Some(m) => {
                return Some(m);
            },
            None => {},
        }
        i += 1;
    }
    None
}

/// The text without its marker lines (lines that start, after white space,
/// with the marker prefix), joined by newlines and trimmed.
pub open spec fn strip_marker_lines_spec(raw: Seq<char>) -> Seq<char> {
    trim_spec(
        join_spec(
            lines_spec(raw).filter(
                |l: Seq<char>| !starts_with_spec(trim_start_spec(l), marker_prefix_spec()),
            ),
            seq!['\n'],
        ),
    )
}

pub open spec fn is_marker_line(l: Seq<char>) -> bool {
    starts_with_spec(trim_start_spec(l), marker_prefix_spec())
}

/// The lines that are not marker lines.
pub open spec fn kept_lines(lines: Seq<Seq<char>>) -> Seq<Seq<char>>
    decreases lines.len(),
{
    if lines.len() == 0 {
        Seq::empty()
    } else if is_marker_line(lines.last()) {
        kept_lines(lines.drop_last())
    } else {
        kept_lines(lines.drop_last()).push(lines.last())
    }
}

/// A note without the marker lines, trimmed.
pub fn strip_marker(raw: &str) -> (r: String)
    ensures
        r@ == trim_spec(join_spec(kept_lines(lines_spec(raw@)), seq!['\n'])),
{
    let lines = str_lines(raw);
    let ghost lv = strings_view(lines@);
    let mut kept: Vec<String> = Vec::new();
    let mut i: usize = 0;
    assert(strings_view(kept@) =~= Seq::<Seq<char>>::empty());
    while i < lines.len()
        invariant
            i <= lines@.len(),
            lv == strings_view(lines@),
            lv == lines_spec(raw@),
            strings_view(kept@) == kept_lines(lv.subrange(0, i as int)),
        decreases lines.len() - i,
    {
        assert(lv.subrange(0, i + 1).drop_last() =~= lv.subrange(0, i as int));
        assert(lv.subrange(0, i + 1).last() == lines@[i as int]@);
        let start = trim_start(lines[i].as_str());
        if !str_starts_with(start.as_str(), "[kaoyan-focus:") {
            let ghost before = strings_view(kept@);
            kept.push(lines[i].clone());
            assert(strings_view(kept@) =~= before.push(lines@[i as int]@));
        }
        i += 1;
    }
    assert(lv.subrange(0, lv.len() as int) =~= lv);
    let mut nl = String::new();
    push_char(&mut nl, '\n');
    assert(nl@ =~= seq!['\n']);
    let joined = join_strings(kept.as_slice(), nl.as_str());
    trim(joined.as_str())
}

/// A task or event description: the trimmed note, a blank line when there
/// is one, and the marker of the entity.
pub open spec fn feishu_body_spec(note: Option<Seq<char>>, entity_type: Seq<char>, sync_id: Seq<char>) -> Seq<char> {
    let content = match note {
        Some(n) => trim_spec(n),
        None => Seq::<char>::empty(),
    };
    let sep = if content.len() > 0 {
        seq!['\n', '\n']
    } else {
        Seq::<char>::empty()
    };
    content + sep + marker_prefix_spec() + entity_type + seq![':'] + sync_id + seq![']']
}

pub fn body_with_marker(note: Option<&str>, entity_type: &str, sync_id: &str) -> (r: String)
    ensures
        r@ == feishu_body_spec(opt_str_view(note), entity_type@, sync_id@),
{
    let mut content = match note {
        Some(n) => trim(n),
        None => {
            let e = String::new();
            e
        },
    };
    let ghost c0 = content@;
    if !content.as_str().is_empty() {
        push_char(&mut content, '\n');
        push_char(&mut content, '\n');
    }
    push_str(&mut content, "[kaoyan-focus:");
    push_str(&mut content, entity_type);
    push_char(&mut content, ':');
    push_str(&mut content, sync_id);
    push_char(&mut content, ']');
    proof {
        let note_v = match note {
            Some(n) => trim_spec(n@),
            None => Seq::<char>::empty(),
        };
        assert(c0 == note_v);
        assert(content@ =~= feishu_body_spec(opt_str_view(note), entity_type@, sync_id@));
    }
    content
}

/// The trimmed note written before the marker (empty without a note).
pub open spec fn note_content(note: Option<Seq<char>>) -> Seq<char> {
    match note {
        Some(n) => trim_spec(n),
        None => Seq::<char>::empty(),
    }
}

/// A note the marker can be read back from: its trimmed text has no carriage
/// return and none of its lines is itself a marker line.
pub open spec fn markable_note(note: Option<Seq<char>>) -> bool {
    let c = note_content(note);
    &&& forall|j: int| 0 <= j < c.len() ==> c[j] != '\r'
    &&& forall|i: int| 0 <= i < split_char_spec(c, '\n').len() ==> !is_marker_line(
        #[trigger] split_char_spec(c, '\n')[i],
    )
}

/// A part of the marker: no line break.
pub open spec fn marker_token(s: Seq<char>) -> bool {
    forall|j: int| 0 <= j < s.len() ==> s[j] != '\n' && s[j] != '\r'
}

/// The first marker line of two runs of lines: the first run's, else the second's.
proof fn lemma_first_marker_concat(a: Seq<Seq<char>>, b: Seq<Seq<char>>)
    requires
        forall|i: int| 0 <= i < a.len() ==> marker_line_spec(#[trigger] a[i]) is None,
    ensures
        first_marker_line(a + b) == first_marker_line(b),
    decreases a.len(),
{
    if a.len() == 0 {
        assert(a + b =~= b);
    } else {
        assert((a + b)[0] == a[0]);
        assert(marker_line_spec(a[0]) is None);
        assert((a + b).drop_first() =~= a.drop_first() + b);
        assert forall|i: int| 0 <= i < a.drop_first().len() implies marker_line_spec(
            #[trigger] a.drop_first()[i],
        ) is None by {
            assert(a.drop_first()[i] == a[i + 1]);
        }
        lemma_first_marker_concat(a.drop_first(), b);
    }
}

/// Lines that are not marker lines are all kept.
proof fn lemma_kept_all(lines: Seq<Seq<char>>)
    requires
        forall|i: int| 0 <= i < lines.len() ==> !is_marker_line(#[trigger] lines[i]),
    ensures
        kept_lines(lines) == lines,
    decreases lines.len(),
{
    if lines.len() > 0 {
        let d = lines.drop_last();
        assert(!is_marker_line(lines[lines.len() - 1]));
        assert forall|i: int| 0 <= i < d.len() implies !is_marker_line(#[trigger] d[i]) by {
            assert(d[i] == lines[i]);
        }
        lemma_kept_all(d);
        assert(d.push(lines.last()) =~= lines);
    }
}

/// A line that is not a marker line in the stripping sense is not read as a
/// marker either.
proof fn lemma_not_marker_line(l: Seq<char>)
    requires
        !is_marker_line(l),
    ensures
        marker_line_spec(l) is None,
{
    let p = marker_prefix_spec();
    let ts = trim_start_spec(l);
    let t = trim_spec(l);
    crate::text::lemma_trim_end_prefix(ts);
    if starts_with_spec(t, p) {
        assert(t == ts.subrange(0, t.len() as int));
        assert(ts.subrange(0, p.len() as int) =~= t.subrange(0, p.len() as int));
        assert(starts_with_spec(ts, p));
    }
}

/// The marker line written for an entity and id.
pub open spec fn marker_text(entity_type: Seq<char>, sync_id: Seq<char>) -> Seq<char> {
    marker_prefix_spec() + entity_type + seq![':'] + sync_id + seq![']']
}

proof fn lemma_marker_text_shape(entity_type: Seq<char>, sync_id: Seq<char>)
    requires
        marker_token(entity_type),
        marker_token(sync_id),
    ensures
        is_marker_line(marker_text(entity_type, sync_id)),
        marker_token(marker_text(entity_type, sync_id)),
        marker_text(entity_type, sync_id).last() == ']',
{
    reveal_strlit("[kaoyan-focus:");
    let p = marker_prefix_spec();
    let m = marker_text(entity_type, sync_id);
    assert(p.len() == 14);
    assert(m[0] == '[');
    assert(m.last() == ']');
    assert(!is_ws(m[0]) && !is_ws(m.last()));
    crate::text::lemma_trim_no_ws(m);
    assert(trim_start_spec(m) == m);
    assert(m.subrange(0, p.len() as int) =~= p);
    assert forall|j: int| 0 <= j < m.len() implies m[j] != '\n' && m[j] != '\r' by {
        if j < p.len() {
            assert(m[j] == p[j]);
        } else if j < p.len() + entity_type.len() {
            assert(m[j] == entity_type[j - p.len()]);
        } else if j == p.len() + entity_type.len() {
        } else if j < m.len() - 1 {
            assert(m[j] == sync_id[j - p.len() - entity_type.len() - 1]);
        }
    }
}

/// Removing the marker from a Feishu description gives back the trimmed
/// note: for entity and sync id without line breaks, and a note without
/// carriage returns none of whose lines is itself a marker line.
pub proof fn lemma_feishu_strip_roundtrip(note: Option<Seq<char>>, entity_type: Seq<char>, sync_id: Seq<char>)
    requires
        markable_note(note),
        marker_token(entity_type),
        marker_token(sync_id),
    ensures
        trim_spec(join_spec(kept_lines(lines_spec(feishu_body_spec(note, entity_type, sync_id))), seq!['\n']))
            == note_content(note),
{
    let c = note_content(note);
    let m = marker_text(entity_type, sync_id);
    lemma_marker_text_shape(entity_type, sync_id);
    let body = feishu_body_spec(note, entity_type, sync_id);
    if c.len() > 0 {
        assert(body =~= c + seq!['\n', '\n'] + m);
        lemma_lines_of_note_body(c, m);
        let sc = split_char_spec(c, '\n');
        let lines = sc + seq![Seq::<char>::empty(), m];
        assert(lines.drop_last() =~= sc.push(Seq::<char>::empty()));
        assert(!is_marker_line(Seq::<char>::empty())) by {
            reveal_strlit("[kaoyan-focus:");
        }
        let kept_src = sc.push(Seq::<char>::empty());
        assert forall|i: int| 0 <= i < kept_src.len() implies !is_marker_line(#[trigger] kept_src[i]) by {
            if i < sc.len() {
                assert(kept_src[i] == sc[i]);
            }
        }
        lemma_kept_all(kept_src);
        assert(kept_lines(lines) == kept_src);
        crate::text::lemma_split_nonempty_parts(c, '\n');
        crate::text::lemma_join_split(c, '\n');
        assert(kept_src.drop_last() =~= sc);
        assert(join_spec(kept_src, seq!['\n']) == join_spec(sc, seq!['\n']) + seq!['\n'] + Seq::<char>::empty());
        assert(c + seq!['\n'] + Seq::<char>::empty() =~= c + seq!['\n']);
        let n = match note {
            Some(n) => n,
            None => Seq::<char>::empty(),
        };
        crate::text::lemma_trim_ends(n);
        assert(is_ws('\n'));
        crate::text::lemma_trim_trailing_ws(c, seq!['\n']);
    } else {
        assert(body =~= m);
        crate::text::lemma_find_char_none(m, '\n', 0);
        assert(split_char_spec(m, '\n') == seq![m]);
        assert(lines_spec(m) =~= seq![m]);
        assert(seq![m].drop_last() =~= Seq::<Seq<char>>::empty());
        assert(kept_lines(seq![m]) == kept_lines(Seq::<Seq<char>>::empty()));
        assert(trim_start_spec(Seq::<char>::empty()) == Seq::<char>::empty());
    }
}

proof fn lemma_marker_text_reads(entity_type: Seq<char>, sync_id: Seq<char>)
    requires
        marker_token(entity_type),
        marker_token(sync_id),
        forall|j: int| 0 <= j < entity_type.len() ==> entity_type[j] != ':',
    ensures
        marker_line_spec(marker_text(entity_type, sync_id)) == Some((entity_type, sync_id)),
        is_marker_line(marker_text(entity_type, sync_id)),
        marker_token(marker_text(entity_type, sync_id)),
        marker_text(entity_type, sync_id).last() == ']',
{
    reveal_strlit("[kaoyan-focus:");
    let p = marker_prefix_spec();
    let m = marker_text(entity_type, sync_id);
    assert(p.len() == 14);
    assert(m[0] == '[');
    assert(m.last() == ']');
    assert(!is_ws(m[0]) && !is_ws(m.last()));
    crate::text::lemma_trim_no_ws(m);
    assert(trim_start_spec(m) == m);
    assert(m.subrange(0, p.len() as int) =~= p);
    assert(m.subrange(p.len() as int, m.len() - 1) =~= entity_type + seq![':'] + sync_id);
    crate::text::lemma_split_once_at(entity_type, ':', sync_id);
    assert forall|j: int| 0 <= j < m.len() implies m[j] != '\n' && m[j] != '\r' by {
        if j < p.len() {
            assert(m[j] == p[j]);
        } else if j < p.len() + entity_type.len() {
            assert(m[j] == entity_type[j - p.len()]);
        } else if j == p.len() + entity_type.len() {
        } else if j < m.len() - 1 {
            assert(m[j] == sync_id[j - p.len() - entity_type.len() - 1]);
        }
    }
}

/// The lines of a text made of `c`, a line feed and `rest`.
proof fn lemma_lines_of_note_body(c: Seq<char>, m: Seq<char>)
    requires
        c.len() > 0,
        forall|j: int| 0 <= j < c.len() ==> c[j] != '\r',
        marker_token(m),
        m.len() > 0,
        m.last() != '\n',
    ensures
        lines_spec(c + seq!['\n', '\n'] + m) == split_char_spec(c, '\n') + seq![Seq::<char>::empty(), m],
{
    let body = c + seq!['\n', '\n'] + m;
    let tail = seq!['\n'] + m;
    assert(body =~= c + seq!['\n'] + tail);
    crate::text::lemma_split_concat(c, '\n', tail);
    assert(tail =~= Seq::<char>::empty() + seq!['\n'] + m);
    crate::text::lemma_split_concat(Seq::<char>::empty(), '\n', m);
    crate::text::lemma_find_char_none(Seq::<char>::empty(), '\n', 0);
    crate::text::lemma_find_char_none(m, '\n', 0);
    assert(split_char_spec(Seq::<char>::empty(), '\n') == seq![Seq::<char>::empty()]);
    assert(split_char_spec(m, '\n') == seq![m]);
    let pieces = split_char_spec(body, '\n');
    let sc = split_char_spec(c, '\n');
    assert(pieces =~= sc + seq![Seq::<char>::empty(), m]);
    assert(body.last() == m.last());
    crate::text::lemma_split_parts_lack(c, '\n', '\r');
    let ls = lines_spec(body);
    assert(ls.len() == pieces.len());
    assert forall|i: int| 0 <= i < ls.len() implies ls[i] == pieces[i] by {
        if i < pieces.len() - 1 {
            if i < sc.len() {
                assert(pieces[i] == sc[i]);
                if sc[i].len() > 0 {
                    assert(sc[i][sc[i].len() - 1] != '\r');
                }
            } else {
                assert(pieces[i] == Seq::<char>::empty());
            }
            assert(strip_cr(pieces[i]) == pieces[i]);
        }
    }
    assert(ls =~= pieces);
}

/// The marker written into a Feishu description reads back as its entity and
/// sync id, and removing it gives back the trimmed note: for an entity
/// without `:`, entity and id without line breaks, and a note none of whose
/// lines is itself a marker line (and without carriage returns).
pub proof fn lemma_feishu_marker_roundtrip(note: Option<Seq<char>>, entity_type: Seq<char>, sync_id: Seq<char>)
    requires
        markable_note(note),
        marker_token(entity_type),
        marker_token(sync_id),
        forall|j: int| 0 <= j < entity_type.len() ==> entity_type[j] != ':',
    ensures
        first_marker_line(lines_spec(feishu_body_spec(note, entity_type, sync_id))) == Some(
            (entity_type, sync_id),
        ),
        trim_spec(join_spec(kept_lines(lines_spec(feishu_body_spec(note, entity_type, sync_id))), seq!['\n']))
            == note_content(note),
{
    let c = note_content(note);
    let m = marker_text(entity_type, sync_id);
    lemma_marker_text_reads(entity_type, sync_id);
    let body = feishu_body_spec(note, entity_type, sync_id);
    if c.len() > 0 {
        assert(body =~= c + seq!['\n', '\n'] + m);
        lemma_lines_of_note_body(c, m);
        let sc = split_char_spec(c, '\n');
        let lines = sc + seq![Seq::<char>::empty(), m];
        assert forall|i: int| 0 <= i < sc.len() implies marker_line_spec(#[trigger] sc[i]) is None by {
            lemma_not_marker_line(sc[i]);
        }
        lemma_first_marker_concat(sc, seq![Seq::<char>::empty(), m]);
        reveal_strlit("[kaoyan-focus:");
        assert(marker_line_spec(Seq::<char>::empty()) is None) by {
            crate::text::lemma_trim_no_ws(Seq::<char>::empty());
        }
        assert(seq![Seq::<char>::empty(), m].drop_first() =~= seq![m]);
        assert(seq![m].drop_first() =~= Seq::<Seq<char>>::empty());
        assert(first_marker_line(seq![m]) == Some((entity_type, sync_id)));
        // stripping: the marker line goes, the empty line and the note's lines stay
        assert(lines.drop_last() =~= sc.push(Seq::<char>::empty()));
        assert(!is_marker_line(Seq::<char>::empty()));
        let kept_src = sc.push(Seq::<char>::empty());
        assert forall|i: int| 0 <= i < kept_src.len() implies !is_marker_line(#[trigger] kept_src[i]) by {
            if i < sc.len() {
                assert(kept_src[i] == sc[i]);
            }
        }
        lemma_kept_all(kept_src);
        assert(kept_lines(lines) == kept_src);
        crate::text::lemma_split_nonempty_parts(c, '\n');
        crate::text::lemma_join_split(c, '\n');
        assert(kept_src.drop_last() =~= sc);
        assert(join_spec(kept_src, seq!['\n']) == join_spec(sc, seq!['\n']) + seq!['\n'] + Seq::<char>::empty());
        assert(c + seq!['\n'] + Seq::<char>::empty() =~= c + seq!['\n']);
        let n = match note {
            Some(n) => n,
            None => Seq::<char>::empty(),
        };
        crate::text::lemma_trim_ends(n);
        assert(is_ws('\n'));
        crate::text::lemma_trim_trailing_ws(c, seq!['\n']);
    } else {
        assert(body =~= m);
        crate::text::lemma_find_char_none(m, '\n', 0);
        assert(split_char_spec(m, '\n') == seq![m]);
        assert(lines_spec(m) =~= seq![m]);
        assert(seq![m].drop_first() =~= Seq::<Seq<char>>::empty());
        assert(seq![m].drop_last() =~= Seq::<Seq<char>>::empty());
        assert(kept_lines(seq![m]) == kept_lines(Seq::<Seq<char>>::empty()));
        assert(trim_start_spec(Seq::<char>::empty()) == Seq::<char>::empty());
    }
}

// ---------------------------------------------------------------------------
// OAuth callback
// ---------------------------------------------------------------------------

pub open spec fn query_pair_spec(pair: Seq<char>) -> Option<(Seq<char>, Seq<char>)> {
    let kv = match split_once_spec(pair, '=') {
        Some(p) => p,
        None => (pair, Seq::<char>::empty()),
    };
    match (percent_decode_spec(kv.0), percent_decode_spec(kv.1)) {
        (Some(k), Some(v)) => Some((k, v)),
        _ => None,
    }
}

/// The decoded `key=value` pairs of a query, in order; a pair that does not
/// decode is left out.
pub open spec fn query_params_spec(pairs: Seq<Seq<char>>) -> Seq<(Seq<char>, Seq<char>)>
    decreases pairs.len(),
{
    if pairs.len() == 0 {
        Seq::empty()
    } else {
        match query_pair_spec(pairs.last()) {
            Some(kv) => query_params_spec(pairs.drop_last()).push(kv),
            None => query_params_spec(pairs.drop_last()),
        }
    }
}

pub open spec fn pairs_view(v: Seq<(String, String)>) -> Seq<(Seq<char>, Seq<char>)> {
    v.map_values(|p: (String, String)| (p.0@, p.1@))
}

/// The decoded parameters of a query string.
pub fn parse_query_params(query: &str) -> (r: Vec<(String, String)>)
    ensures
        pairs_view(r@) == query_params_spec(split_char_spec(query@, '&')),
{
    let pairs = split_char(query, '&');
    let ghost pv = strings_view(pairs@);
    let mut out: Vec<(String, String)> = Vec::new();
    let mut i: usize = 0;
    assert(pairs_view(out@) =~= Seq::<(Seq<char>, Seq<char>)>::empty());
    while i < pairs.len()
        invariant
            i <= pairs@.len(),
            pv == strings_view(pairs@),
            pv == split_char_spec(query@, '&'),
            pairs_view(out@) == query_params_spec(pv.subrange(0, i as int)),
        decreases pairs.len() - i,
    {
        assert(pv.subrange(0, i + 1).drop_last() =~= pv.subrange(0, i as int));
        assert(pv.subrange(0, i + 1).last() == pairs@[i as int]@);
        let (key, value) = match split_once_char(pairs[i].as_str(), '=') {
            Some(kv) => kv,
            None => (pairs[i].clone(), String::new()),
        };
        match (percent_decode(key.as_str()), percent_decode(value.as_str())) {
            (Some(k), Some(v)) => {
                let ghost before = pairs_view(out@);
                let ghost kv = (k@, v@);
                out.push((k, v));
                assert(pairs_view(out@) =~= before.push(kv));
            },
            _ => {},
        }
        i += 1;
    }
    assert(pv.subrange(0, pv.len() as int) =~= pv);
    out
}

/// The value of a parameter; with repeats, the last one.
pub open spec fn param_spec(params: Seq<(Seq<char>, Seq<char>)>, key: Seq<char>) -> Option<Seq<char>>
    decreases params.len(),
{
    if params.len() == 0 {
        None
    } else if params.last().0 == key {
        Some(params.last().1)
    } else {
        param_spec(params.drop_last(), key)
    }
}

pub fn query_param(params: &Vec<(String, String)>, key: &str) -> (r: Option<String>)
    ensures
        match r {
            Some(v) => param_spec(pairs_view(params@), key@) == Some(v@),
            None => param_spec(pairs_view(params@), key@) is None,
        },
{
    let ghost pv = pairs_view(params@);
    let k = String::from_str(key);
    let mut i: usize = params.len();
    assert(pv.subrange(0, pv.len() as int) =~= pv);
    while i > 0
        invariant
            i <= params@.len(),
            pv == pairs_view(params@),
            k@ == key@,
            param_spec(pv, key@) == param_spec(pv.subrange(0, i as int), key@),
        decreases i,
    {
        assert(pv.subrange(0, i as int).drop_last() =~= pv.subrange(0, i - 1));
        assert(pv.subrange(0, i as int).last() == (params@[i - 1].0@, params@[i - 1].1@));
        if params[i - 1].0 == k {
            return Some(params[i - 1].1.clone());
        }
        i -= 1;
    }
    None
}

/// The words read so far and the word being read, scanning `s` with
/// Unicode white space as separator.
pub open spec fn words_state(s: Seq<char>) -> (Seq<Seq<char>>, Seq<char>)
    decreases s.len(),
{
    if s.len() == 0 {
        (Seq::empty(), Seq::empty())
    } else {
        let st = words_state(s.drop_last());
        if is_ws(s.last()) {
            (
                if st.1.len() > 0 {
                    st.0.push(st.1)
                } else {
                    st.0
                },
                Seq::empty(),
            )
        } else {
            (st.0, st.1.push(s.last()))
        }
    }
}

/// The white-space separated words of `s` (`split_whitespace`).
pub open spec fn words_spec(s: Seq<char>) -> Seq<Seq<char>> {
    let st = words_state(s);
    if st.1.len() > 0 {
        st.0.push(st.1)
    } else {
        st.0
    }
}

/// The words of a text.
pub fn split_words(s: &str) -> (r: Vec<String>)
    ensures
        strings_view(r@) == words_spec(s@),
{
    let chars = str_to_chars(s);
    let mut words: Vec<String> = Vec::new();
    let mut cur = String::new();
    let mut i: usize = 0;
    while i < chars.len()
        invariant
            i <= chars@.len(),
            chars@ == s@,
            (strings_view(words@), cur@) == words_state(chars@.subrange(0, i as int)),
        decreases chars.len() - i,
    {
        assert(chars@.subrange(0, i + 1).drop_last() =~= chars@.subrange(0, i as int));
        let c = chars[i];
        if is_whitespace(c) {
            if !cur.as_str().is_empty() {
                let ghost before = strings_view(words@);
                let ghost cv = cur@;
                words.push(cur);
                assert(strings_view(words@) =~= before.push(cv));
            }
            cur = String::new();
        } else {
            push_char(&mut cur, c);
        }
        i += 1;
    }
    assert(chars@.subrange(0, chars@.len() as int) =~= chars@);
    if !cur.as_str().is_empty() {
        let ghost before = strings_view(words@);
        let ghost cv = cur@;
        words.push(cur);
        assert(strings_view(words@) =~= before.push(cv));
    }
    words
}

/// The query of an HTTP request: the part after `?` of the second word of
/// its first line.
pub open spec fn request_query_spec(request: Seq<char>) -> Seq<char> {
    let first = if lines_spec(request).len() > 0 {
        lines_spec(request)[0]
    } else {
        Seq::empty()
    };
    let target = if words_spec(first).len() > 1 {
        words_spec(first)[1]
    } else {
        Seq::empty()
    };
    match split_once_spec(target, '?') {
        Some(p) => p.1,
        None => Seq::empty(),
    }
}

pub fn request_query(request: &str) -> (r: String)
    ensures
        r@ == request_query_spec(request@),
{
    let lines = str_lines(request);
    let first = if lines.len() > 0 {
        lines[0].clone()
    } else {
        String::new()
    };
    let words = split_words(first.as_str());
    let target = if words.len() > 1 {
        words[1].clone()
    } else {
        String::new()
    };
    match split_once_char(target.as_str(), '?') {
        Some(p) => p.1,
        None => String::new(),
    }
}

/// What the OAuth callback request says: the authorisation error it
/// reports, a state that is not the one expected, the authorisation code,
/// or no code.
pub open spec fn oauth_callback_spec(request: Seq<char>, expected_state: Seq<char>) -> Result<
    Seq<char>,
    Seq<char>,
> {
    let params = query_params_spec(split_char_spec(request_query_spec(request), '&'));
    match param_spec(params, "error"@) {
        Some(e) => Err("飞书授权失败："@ + e),
        None => if param_spec(params, "state"@) != Some(expected_state) {
            Err("飞书授权 state 不匹配，请重新登录。"@)
        } else {
            match param_spec(params, "code"@) {
                Some(c) => if c.len() > 0 {
                    Ok(c)
                } else {
                    Err("飞书回调未包含授权 code。"@)
                },
                None => Err("飞书回调未包含授权 code。"@),
            }
        },
    }
}

/// Reads the authorisation code from the OAuth callback request.
pub fn oauth_callback_result(request: &str, expected_state: &str) -> (r: Result<String, String>)
    ensures
        match r {
            Ok(c) => oauth_callback_spec(request@, expected_state@) == Ok::<Seq<char>, Seq<char>>(c@),
            Err(e) => oauth_callback_spec(request@, expected_state@) == Err::<Seq<char>, Seq<char>>(
                e@,
            ),
        },
{
    let query = request_query(request);
    let params = parse_query_params(query.as_str());
    match query_param(&params, "error") {
        Some(e) => {
            let mut m = String::from_str("飞书授权失败：");
            push_str(&mut m, e.as_str());
            Err(m)
        },
        None => {
            let state_ok = match query_param(&params, "state") {
                Some(s) => s == String::from_str(expected_state),
                None => false,
            };
            if !state_ok {
                return Err(String::from_str("飞书授权 state 不匹配，请重新登录。"));
            }
            match query_param(&params, "code") {
                Some(c) => if !c.as_str().is_empty() {
                    Ok(c)
                } else {
                    Err(String::from_str("飞书回调未包含授权 code。"))
                },
                None => Err(String::from_str("飞书回调未包含授权 code。")),
            }
        },
    }
}

} // verus!
