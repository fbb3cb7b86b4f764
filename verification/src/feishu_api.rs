//! Reading the Feishu open API's answers and the local OAuth callback
//! address: which answers succeed, what part of a successful answer is the
//! payload, and the error text of a refused one.
use crate::feishu_json::{
    json_has_key, json_has_key_result, json_i64_field, json_i64_field_result, json_parse_error,
    json_parse_error_result, json_string_field, json_string_field_result,
};
use crate::feishu_rules::FeishuSyncSettings;
use crate::text::{i64_to_string, int_decimal, push_str};
use reqwest::Url;
use vstd::prelude::*;
use vstd::string::*;

verus! {

/// The string value of a key of a JSON text, if it has one.
pub open spec fn str_field(raw: Seq<char>, key: Seq<char>) -> Option<Seq<char>> {
    match json_string_field_result(raw, key) {
        Some(Some(s)) => Some(s),
        _ => None,
    }
}

/// The text of a Feishu error: the first of `msg`, `message`,
/// `error_description` and `error` that is a string, else `未知错误`.
pub open spec fn feishu_error_text(raw: Seq<char>) -> Seq<char> {
    match str_field(raw, "msg"@) {
        Some(m) => m,
        None => match str_field(raw, "message"@) {
            Some(m) => m,
            None => match str_field(raw, "error_description"@) {
                Some(m) => m,
                None => match str_field(raw, "error"@) {
                    Some(m) => m,
                    None => "未知错误"@,
                },
            },
        },
    }
}

/// The `code` of a Feishu answer, 0 when it has none.
pub open spec fn feishu_code(raw: Seq<char>) -> int {
    match json_i64_field_result(raw, "code"@) {
        Some(Some(c)) => c as int,
        _ => 0,
    }
}

/// `飞书返回状态 <status> / code <code>：<text>`.
pub open spec fn feishu_error_message_spec(status: int, raw: Seq<char>) -> Seq<char> {
    "飞书返回状态 "@ + int_decimal(status) + " / code "@ + int_decimal(feishu_code(raw)) + "："@
        + feishu_error_text(raw)
}

/// The first string among the error fields of a JSON text.
fn error_text(raw: &str) -> (r: String)
    ensures
        r@ == feishu_error_text(raw@),
{
    proof {
        reveal_strlit("msg");
        reveal_strlit("message");
        reveal_strlit("error_description");
        reveal_strlit("error");
    }
    if let Some(Some(m)) = json_string_field(raw, "msg") {
        return m;
    }
    if let Some(Some(m)) = json_string_field(raw, "message") {
        return m;
    }
    if let Some(Some(m)) = json_string_field(raw, "error_description") {
        return m;
    }
    if let Some(Some(m)) = json_string_field(raw, "error") {
        return m;
    }
    String::from_str("未知错误")
}

/// The error text of a Feishu answer with HTTP status `status` and body `raw`.
pub fn feishu_value_error_message(status: u16, raw: &str) -> (r: String)
    ensures
        r@ == feishu_error_message_spec(status as int, raw@),
{
    let code: i64 = match json_i64_field(raw, "code") {
        Some(Some(c)) => c,
        _ => 0,
    };
    let mut s = String::from_str("飞书返回状态 ");
    push_str(&mut s, i64_to_string(status as i64).as_str());
    push_str(&mut s, " / code ");
    push_str(&mut s, i64_to_string(code).as_str());
    push_str(&mut s, "：");
    push_str(&mut s, error_text(raw).as_str());
    s
}

/// Which part of a successful Feishu answer is its payload.
#[derive(Clone, Copy, Debug, PartialEq, Eq)]
pub enum FeishuPayload {
    /// The whole answer (a token answer, or one without `data`).
    Whole,
    /// Its `data` member.
    Data,
}

/// What a Feishu answer gives: a body that is not JSON fails with the
/// parser's error; a status outside 200..=299 fails with the error text; a
/// token answer (`access_token` or `user_access_token`) is taken whole; else a
/// `code` of 0 (or none) gives `data` when present, the whole answer when
/// not, and any other code fails with the error text.
pub open spec fn feishu_response_spec(status: int, raw: Seq<char>) -> Result<FeishuPayload, Seq<char>> {
    match json_parse_error_result(raw) {
        Some(e) => Err(e),
        None => if !(200 <= status <= 299) {
            Err(feishu_error_message_spec(status, raw))
        } else if json_has_key_result(raw, "access_token"@) == Some(true)
            || json_has_key_result(raw, "user_access_token"@) == Some(true) {
            Ok(FeishuPayload::Whole)
        } else if feishu_code(raw) == 0 {
            if json_has_key_result(raw, "data"@) == Some(true) {
                Ok(FeishuPayload::Data)
            } else {
                Ok(FeishuPayload::Whole)
            }
        } else {
            Err(feishu_error_message_spec(status, raw))
        },
    }
}

/// Reads a Feishu answer with HTTP status `status` and body `raw`.
pub fn parse_feishu_response(status: u16, raw: &str) -> (r: Result<FeishuPayload, String>)
    ensures
        match feishu_response_spec(status as int, raw@) {
            Ok(p) => r == Ok::<FeishuPayload, String>(p),
            Err(e) => r matches Err(m) && m@ == e,
        },
{
    proof {
        reveal_strlit("access_token");
        reveal_strlit("user_access_token");
        reveal_strlit("code");
        reveal_strlit("data");
    }
    if let Some(e) = json_parse_error(raw) {
        return Err(e);
    }
    if !(200 <= status && status <= 299) {
        return Err(feishu_value_error_message(status, raw));
    }
    let token = json_has_key(raw, "access_token");
    let user_token = json_has_key(raw, "user_access_token");
    if token == Some(true) || user_token == Some(true) {
        return Ok(FeishuPayload::Whole);
    }
    let code: i64 = match json_i64_field(raw, "code") {
        Some(Some(c)) => c,
        _ => 0,
    };
    if code == 0 {
        if json_has_key(raw, "data") == Some(true) {
            Ok(FeishuPayload::Data)
        } else {
            Ok(FeishuPayload::Whole)
        }
    } else {
        Err(feishu_value_error_message(status, raw))
    }
}

/// What `url` makes of a text: the URL's host (as text) and its explicit port,
/// or the parse error's text.
pub uninterp spec fn url_host_port_result(text: Seq<char>) -> Result<(Option<Seq<char>>, Option<u16>), Seq<char>>;

/// Parses a URL (`reqwest::Url::parse`) and gives its host (`host_str`) and
/// its port (`port`, none when it is the scheme's default or absent). The
/// contract names the result.
#[verifier::external_body]
fn url_host_port(text: &str) -> (r: Result<(Option<String>, Option<u16>), String>)
    ensures
        url_host_port_result(text@) == match r {
            Ok(p) => Ok::<(Option<Seq<char>>, Option<u16>), Seq<char>>((
                match p.0 {
                    Some(h) => Some(h@),
                    None => None::<Seq<char>>,
                },
                p.1,
            )),
            Err(e) => Err::<(Option<Seq<char>>, Option<u16>), Seq<char>>(e@),
        },
{
    match Url::parse(text) {
        Ok(url) => {
            let host = match url.host_str() {
                Some(h) => Some(h.to_string()),
                None => None,
            };
            Ok((host, url.port()))
        },
        Err(error) => Err(error.to_string()),
    }
}

/// The local address the OAuth callback listens on: the redirect address
/// must be a URL (else `飞书回调地址不正确：` and the parser's error) whose host
/// is `127.0.0.1` or `localhost` (else an error saying so); the address is
/// `127.0.0.1:` and its port, 80 when it names none.
pub open spec fn callback_bind_addr_spec(redirect_uri: Seq<char>) -> Result<Seq<char>, Seq<char>> {
    match url_host_port_result(redirect_uri) {
        Err(e) => Err("飞书回调地址不正确："@ + e),
        Ok((host, port)) => {
            let h = match host {
                Some(h) => h,
                None => Seq::<char>::empty(),
            };
            if h != "127.0.0.1"@ && h != "localhost"@ {
                Err("飞书本地回调地址必须使用 127.0.0.1 或 localhost。"@)
            } else {
                Ok("127.0.0.1:"@ + int_decimal(match port {
                    Some(p) => p as int,
                    None => 80,
                }))
            }
        },
    }
}

pub fn callback_bind_addr(redirect_uri: &str) -> (r: Result<String, String>)
    ensures
        match callback_bind_addr_spec(redirect_uri@) {
            Ok(a) => r matches Ok(s) && s@ == a,
            Err(e) => r matches Err(m) && m@ == e,
        },
{
    match url_host_port(redirect_uri) {
        Err(e) => {
            let mut m = String::from_str("飞书回调地址不正确：");
            push_str(&mut m, e.as_str());
            Err(m)
        },
        Ok((host, port)) => {
            let h = match host {
                Some(h) => h,
                None => String::new(),
            };
            if !(h == String::from_str("127.0.0.1")) && !(h == String::from_str("localhost")) {
                return Err(String::from_str("飞书本地回调地址必须使用 127.0.0.1 或 localhost。"));
            }
            let p: u16 = match port {
                Some(p) => p,
                None => 80,
            };
            let mut s = String::from_str("127.0.0.1:");
            push_str(&mut s, i64_to_string(p as i64).as_str());
            Ok(s)
        },
    }
}

/// Before a browser login starts: the app's id and secret must be set, and
/// the callback address must be local; gives the address to listen on.
pub fn oauth_login_bind_addr(settings: &FeishuSyncSettings) -> (r: Result<String, String>)
    ensures
        settings.app_id@.len() == 0 || settings.app_secret@.len() == 0 ==> (r matches Err(m) && m@
            == "请先填写飞书 App ID 和 App Secret。"@),
        settings.app_id@.len() != 0 && settings.app_secret@.len() != 0 ==> match callback_bind_addr_spec(
            settings.redirect_uri@,
        ) {
            Ok(a) => r matches Ok(s) && s@ == a,
            Err(e) => r matches Err(m) && m@ == e,
        },
{
    if settings.app_id.as_str().is_empty() || settings.app_secret.as_str().is_empty() {
        return Err(String::from_str("请先填写飞书 App ID 和 App Secret。"));
    }
    callback_bind_addr(settings.redirect_uri.as_str())
}

} // verus!
