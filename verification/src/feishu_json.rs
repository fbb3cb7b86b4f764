//! JSON texts of the Feishu bridge: quoting strings with `serde_json`, the
//! marker object stored with a task, and reading a marker back.
use crate::feishu_rules::{first_marker_line, lines_spec, marker_in_lines};
use vstd::prelude::*;
use vstd::string::*;

verus! {

/// A lowercase hexadecimal digit.
pub open spec fn hex_digit_lower(d: int) -> char {
    if d < 10 {
        ('0' as int + d) as char
    } else {
        ('a' as int + d - 10) as char
    }
}

/// How `serde_json` writes one character inside a string literal: `"` and
/// `\` behind a backslash, the five controls with a short escape by their
/// letter, the other controls below U+0020 as `\u00` and two lowercase hex
/// digits, everything else as it is.
pub open spec fn json_escape_char(c: char) -> Seq<char> {
    if c == '"' {
        seq!['\\', '"']
    } else if c == '\\' {
        seq!['\\', '\\']
    } else if c == '\u{8}' {
        seq!['\\', 'b']
    } else if c == '\t' {
        seq!['\\', 't']
    } else if c == '\n' {
        seq!['\\', 'n']
    } else if c == '\u{c}' {
        seq!['\\', 'f']
    } else if c == '\r' {
        seq!['\\', 'r']
    } else if (c as int) < 0x20 {
        seq!['\\', 'u', '0', '0', hex_digit_lower(c as int / 16), hex_digit_lower(c as int % 16)]
    } else {
        seq![c]
    }
}

/// The characters of a text, each escaped as `serde_json` writes it.
pub open spec fn json_escape(s: Seq<char>) -> Seq<char>
    decreases s.len(),
{
    if s.len() == 0 {
        Seq::empty()
    } else {
        json_escape(s.drop_last()) + json_escape_char(s.last())
    }
}

/// The JSON string literal `serde_json` writes for a text: the escaped
/// characters between double quotes.
pub open spec fn json_quote_spec(s: Seq<char>) -> Seq<char> {
    seq!['"'] + json_escape(s) + seq!['"']
}

/// What `serde_json` reads from a text: when it is JSON, the string value
/// of a key of it (none for a key that is missing or not a string, or when
/// the value is not an object).
pub uninterp spec fn json_string_field_result(raw: Seq<char>, key: Seq<char>) -> Option<
    Option<Seq<char>>,
>;

/// What `serde_json` says of a text that is not JSON: its error's text;
/// none for a JSON text.
pub uninterp spec fn json_parse_error_result(raw: Seq<char>) -> Option<Seq<char>>;

/// What `serde_json` reads from a text: when it is JSON, the value of a key
/// of it as an `i64` (none for a key that is missing or not such a number, or
/// when the value is not an object).
pub uninterp spec fn json_i64_field_result(raw: Seq<char>, key: Seq<char>) -> Option<Option<i64>>;

/// What `serde_json` reads from a text: when it is JSON, whether it is an
/// object with the key.
pub uninterp spec fn json_has_key_result(raw: Seq<char>, key: Seq<char>) -> Option<bool>;

/// Parses `raw` as JSON (`serde_json::from_str::<Value>`) and gives the
/// error's text when that fails. The contract names the result.
#[verifier::external_body]
pub(crate) fn json_parse_error(raw: &str) -> (r: Option<String>)
    ensures
        json_parse_error_result(raw@) == match r {
            Some(e) => Some(e@),
            None => None::<Seq<char>>,
        },
{
    match serde_json::from_str::<serde_json::Value>(raw) {
        Ok(_) => None,
        Err(error) => Some(error.to_string()),
    }
}

/// Parses `raw` as JSON (`serde_json::from_str::<Value>`) and reads the
/// value of a key as an `i64` (`get`, `as_i64`). The contract names the
/// result; it is none exactly when the text is not JSON.
#[verifier::external_body]
pub(crate) fn json_i64_field(raw: &str, key: &str) -> (r: Option<Option<i64>>)
    ensures
        json_i64_field_result(raw@, key@) == r,
        r is None <==> json_parse_error_result(raw@) is Some,
{
    let value: serde_json::Value = serde_json::from_str(raw).ok()?;
    Some(value.get(key).and_then(serde_json::Value::as_i64))
}

/// Parses `raw` as JSON (`serde_json::from_str::<Value>`) and tells whether
/// it has a key (`get(..).is_some()`). The contract names the result; it is
/// none exactly when the text is not JSON.
#[verifier::external_body]
pub(crate) fn json_has_key(raw: &str, key: &str) -> (r: Option<bool>)
    ensures
        json_has_key_result(raw@, key@) == r,
        r is None <==> json_parse_error_result(raw@) is Some,
{
    let value: serde_json::Value = serde_json::from_str(raw).ok()?;
    Some(value.get(key).is_some())
}

/// `serde_json::to_string` of a text: its JSON string literal, with the
/// escapes of `serde_json`'s compact formatter.
#[verifier::external_body]
pub(crate) fn json_quote(s: &str) -> (r: String)
    ensures
        r@ == json_quote_spec(s@),
{
    serde_json::Value::String(s.to_string()).to_string()
}

/// Parses `raw` as JSON (`serde_json::from_str::<Value>`) and reads the
/// string value of a key (`get`, `as_str`). The contract names the result;
/// it is none exactly when the text is not JSON.
#[verifier::external_body]
pub(crate) fn json_string_field(raw: &str, key: &str) -> (r: Option<Option<String>>)
    ensures
        json_string_field_result(raw@, key@) == match r {
            Some(Some(s)) => Some(Some(s@)),
            Some(None) => Some(None::<Seq<char>>),
            None => None::<Option<Seq<char>>>,
        },
        r is None <==> json_parse_error_result(raw@) is Some,
{
    let value: serde_json::Value = serde_json::from_str(raw).ok()?;
    Some(value.get(key).and_then(serde_json::Value::as_str).map(str::to_string))
}

/// `"key":value` with the key quoted as written (keys are plain ASCII).
pub open spec fn json_member(key: Seq<char>, value: Seq<char>) -> Seq<char> {
    seq!['"'] + key + seq!['"', ':'] + value
}

/// The marker object stored with a task (keys in `serde_json`'s order).
pub open spec fn marker_json_spec(entity_type: Seq<char>, sync_id: Seq<char>) -> Seq<char> {
    seq!['{'] + json_member("entity_type"@, json_quote_spec(entity_type)) + seq![','] + json_member(
        "source"@,
        json_quote_spec("kaoyan-focus"@),
    ) + seq![','] + json_member("sync_id"@, json_quote_spec(sync_id)) + seq!['}']
}

/// Appends `"key":` to a JSON text.
pub(crate) fn push_member_key(out: &mut String, key: &str)
    ensures
        final(out)@ == old(out)@ + seq!['"'] + key@ + seq!['"', ':'],
{
    crate::text::push_char(out, '"');
    crate::text::push_str(out, key);
    crate::text::push_char(out, '"');
    crate::text::push_char(out, ':');
    assert(final(out)@ =~= old(out)@ + seq!['"'] + key@ + seq!['"', ':']);
}

/// The marker object of an entity.
pub fn marker_json(entity_type: &str, sync_id: &str) -> (r: String)
    ensures
        r@ == marker_json_spec(entity_type@, sync_id@),
{
    let mut out = String::new();
    crate::text::push_char(&mut out, '{');
    push_member_key(&mut out, "entity_type");
    crate::text::push_str(&mut out, json_quote(entity_type).as_str());
    crate::text::push_char(&mut out, ',');
    push_member_key(&mut out, "source");
    crate::text::push_str(&mut out, json_quote("kaoyan-focus").as_str());
    crate::text::push_char(&mut out, ',');
    push_member_key(&mut out, "sync_id");
    crate::text::push_str(&mut out, json_quote(sync_id).as_str());
    crate::text::push_char(&mut out, '}');
    assert(out@ =~= marker_json_spec(entity_type@, sync_id@));
    out
}

/// The marker of a text: a JSON marker object from the app (source
/// `kaoyan-focus`), whose entity type and sync id must both be strings; or,
/// when the text is not such an object, its first marker line.
pub open spec fn extract_marker_spec(raw: Seq<char>) -> Option<(Seq<char>, Seq<char>)> {
    if json_string_field_result(raw, "source"@) == Some(Some("kaoyan-focus"@)) {
        match (json_string_field_result(raw, "entity_type"@), json_string_field_result(raw, "sync_id"@)) {
            (Some(Some(e)), Some(Some(s))) => Some((e, s)),
            _ => None,
        }
    } else {
        first_marker_line(lines_spec(raw))
    }
}

/// Reads the marker of a text (see `extract_marker_spec`).
pub fn extract_marker(raw: &str) -> (r: Option<(String, String)>)
    ensures
        match r {
            Some(m) => extract_marker_spec(raw@) == Some((m.0@, m.1@)),
            None => extract_marker_spec(raw@) is None,
        },
{
    let from_app = match json_string_field(raw, "source") {
        Some(Some(s)) => s == String::from_str("kaoyan-focus"),
        _ => false,
    };
    if from_app {
        return match (json_string_field(raw, "entity_type"), json_string_field(raw, "sync_id")) {
            (Some(Some(e)), Some(Some(s))) => Some((e, s)),
            _ => None,
        };
    }
    marker_in_lines(raw)
}

} // verus!
