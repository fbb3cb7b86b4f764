//! The iCalendar (RFC 5545) text handling used for CalDAV events: line
//! splitting and unfolding, property names, text escaping and the sync marker
//! that ties a remote event to a local schedule block.
use crate::text::{
    strings_view, occurs_at, is_ws,
    before_char, before_char_spec, chars_range_to_string, chars_to_string, find_char_exec,
    find_char_spec, find_exec, find_from, find_spec, join_spec, join_strings, lemma_find_char_from_range,
    lemma_find_from_range, push_char, push_str, split_char, split_char_spec, split_once_char,
    split_once_spec, str_to_chars, to_ascii_uppercase, trim, trim_spec, trim_start,
    trim_start_spec, upper_spec,
};
use vstd::prelude::*;
use vstd::string::*;

verus! {

/// `\r\n` and lone `\r` turned into `\n`.
pub open spec fn normalize_newlines_spec(s: Seq<char>) -> Seq<char>
    decreases s.len(),
{
    if s.len() == 0 {
        Seq::empty()
    } else if s.len() >= 2 && s[0] == '\r' && s[1] == '\n' {
        seq!['\n'] + normalize_newlines_spec(s.skip(2))
    } else if s[0] == '\r' {
        seq!['\n'] + normalize_newlines_spec(s.skip(1))
    } else {
        seq![s[0]] + normalize_newlines_spec(s.skip(1))
    }
}

/// The non-empty lines of an ICS text, whatever its line endings.
pub open spec fn split_ics_lines_spec(s: Seq<char>) -> Seq<Seq<char>> {
    split_char_spec(normalize_newlines_spec(s), '\n').filter(|l: Seq<char>| l.len() > 0)
}

/// A folded continuation line starts with a space or a tab.
pub open spec fn is_continuation_spec(line: Seq<char>) -> bool {
    line.len() > 0 && (line[0] == ' ' || line[0] == '\t')
}

/// One step of unfolding: a continuation is appended (without its leading
/// white space) to the previous line, other non-empty lines start a new line.
pub open spec fn unfold_step(lines: Seq<Seq<char>>, raw: Seq<char>) -> Seq<Seq<char>> {
    if is_continuation_spec(raw) {
        if lines.len() > 0 {
            lines.update(lines.len() - 1, lines.last() + trim_start_spec(raw))
        } else {
            lines
        }
    } else if raw.len() > 0 {
        lines.push(raw)
    } else {
        lines
    }
}

pub open spec fn unfold_fold(lines: Seq<Seq<char>>, raws: Seq<Seq<char>>) -> Seq<Seq<char>>
    decreases raws.len(),
{
    if raws.len() == 0 {
        lines
    } else {
        unfold_fold(unfold_step(lines, raws[0]), raws.drop_first())
    }
}

/// The logical lines of an ICS text with folded lines joined.
pub open spec fn unfold_ics_lines_spec(s: Seq<char>) -> Seq<Seq<char>> {
    unfold_fold(Seq::empty(), split_char_spec(normalize_newlines_spec(s), '\n'))
}

/// The upper-cased property name of a content line, without parameters.
pub open spec fn property_key_spec(name: Seq<char>) -> Seq<char> {
    upper_spec(trim_spec(before_char_spec(name, ';')))
}

/// The property name of an ICS content line (none for continuations and lines
/// without `:`).
pub open spec fn ics_property_name_spec(line: Seq<char>) -> Option<Seq<char>> {
    if is_continuation_spec(line) {
        None
    } else {
        match split_once_spec(line, ':') {
            None => None,
            Some(p) => Some(property_key_spec(p.0)),
        }
    }
}

/// Lines joined with CRLF, with a final CRLF.
pub open spec fn normalize_ics_lines_spec(lines: Seq<Seq<char>>) -> Seq<char> {
    join_spec(lines.push(Seq::empty()), seq!['\r', '\n'])
}

/// ICS TEXT escaping: backslash, `;` and `,` are escaped, line breaks become `\n`.
pub open spec fn escape_ics_spec(s: Seq<char>) -> Seq<char>
    decreases s.len(),
{
    if s.len() == 0 {
        Seq::empty()
    } else if s.len() >= 2 && s[0] == '\r' && s[1] == '\n' {
        seq!['\\', 'n'] + escape_ics_spec(s.skip(2))
    } else {
        let c = s[0];
        let head = if c == '\\' {
            seq!['\\', '\\']
        } else if c == ';' {
            seq!['\\', ';']
        } else if c == ',' {
            seq!['\\', ',']
        } else if c == '\n' {
            seq!['\\', 'n']
        } else {
            seq![c]
        };
        head + escape_ics_spec(s.skip(1))
    }
}

/// ICS TEXT unescaping: `\n`/`\N` is a line break, `\x` is `x`, a final lone
/// backslash stays.
pub open spec fn unescape_ics_spec(s: Seq<char>) -> Seq<char>
    decreases s.len(),
{
    if s.len() == 0 {
        Seq::empty()
    } else if s[0] == '\\' {
        if s.len() >= 2 {
            let n = s[1];
            let out = if n == 'n' || n == 'N' {
                '\n'
            } else {
                n
            };
            seq![out] + unescape_ics_spec(s.skip(2))
        } else {
            seq!['\\']
        }
    } else {
        seq![s[0]] + unescape_ics_spec(s.skip(1))
    }
}

pub open spec fn marker_prefix() -> Seq<char> {
    seq!['[', 'k', 'a', 'o', 'y', 'a', 'n', '-', 'f', 'o', 'c', 'u', 's', ':']
}

pub open spec fn schedule_block_entity() -> Seq<char> {
    seq!['s', 'c', 'h', 'e', 'd', 'u', 'l', 'e', '_', 'b', 'l', 'o', 'c', 'k']
}

/// The marker that names a schedule block inside an event description.
pub open spec fn block_marker_spec(sync_id: Seq<char>) -> Seq<char> {
    marker_prefix() + schedule_block_entity() + seq![':'] + sync_id + seq![']']
}

/// The event description: the trimmed note (when not blank), a blank line and
/// the marker.
pub open spec fn body_with_marker_spec(note: Option<Seq<char>>, sync_id: Seq<char>) -> Seq<char> {
    let marker = block_marker_spec(sync_id);
    match note {
        Some(n) => if trim_spec(n).len() > 0 {
            trim_spec(n) + seq!['\n', '\n'] + marker
        } else {
            marker
        },
        None => marker,
    }
}

/// The schedule block sync id named by the first marker in `value`.
pub open spec fn extract_marker_spec(value: Seq<char>) -> Option<Seq<char>> {
    match find_spec(value, marker_prefix()) {
        None => None,
        Some(start) => {
            let rest = value.subrange(start + marker_prefix().len(), value.len() as int);
            match find_char_spec(rest, ']') {
                None => None,
                Some(end) => match split_once_spec(rest.subrange(0, end), ':') {
                    None => None,
                    Some(p) => if p.0 == schedule_block_entity() {
                        Some(p.1)
                    } else {
                        None
                    },
                },
            }
        },
    }
}

/// `value` with its first complete marker removed, trimmed.
pub open spec fn strip_marker_spec(value: Seq<char>) -> Seq<char> {
    match find_spec(value, marker_prefix()) {
        None => trim_spec(value),
        Some(start) => {
            let rest = value.subrange(start, value.len() as int);
            match find_char_spec(rest, ']') {
                None => trim_spec(value),
                Some(end) => trim_spec(
                    value.subrange(0, start) + rest.subrange(end + 1, rest.len() as int),
                ),
            }
        },
    }
}

/// The marker prefix `[kaoyan-focus:` as a `String`.
pub fn marker_prefix_string() -> (s: String)
    ensures
        s@ == marker_prefix(),
{
    let mut s = String::new();
    push_char(&mut s, '[');
    push_char(&mut s, 'k');
    push_char(&mut s, 'a');
    push_char(&mut s, 'o');
    push_char(&mut s, 'y');
    push_char(&mut s, 'a');
    push_char(&mut s, 'n');
    push_char(&mut s, '-');
    push_char(&mut s, 'f');
    push_char(&mut s, 'o');
    push_char(&mut s, 'c');
    push_char(&mut s, 'u');
    push_char(&mut s, 's');
    push_char(&mut s, ':');
    assert(s@ =~= marker_prefix());
    s
}

/// The entity name `schedule_block` as a `String`.
pub fn schedule_block_entity_string() -> (s: String)
    ensures
        s@ == schedule_block_entity(),
{
    let mut s = String::new();
    push_char(&mut s, 's');
    push_char(&mut s, 'c');
    push_char(&mut s, 'h');
    push_char(&mut s, 'e');
    push_char(&mut s, 'd');
    push_char(&mut s, 'u');
    push_char(&mut s, 'l');
    push_char(&mut s, 'e');
    push_char(&mut s, '_');
    push_char(&mut s, 'b');
    push_char(&mut s, 'l');
    push_char(&mut s, 'o');
    push_char(&mut s, 'c');
    push_char(&mut s, 'k');
    assert(s@ =~= schedule_block_entity());
    s
}

/// `\r\n` and `\r` replaced by `\n`, as a character vector.
fn normalize_newlines(v: &[char]) -> (r: Vec<char>)
    ensures
        r@ == normalize_newlines_spec(v@),
{
    let mut r: Vec<char> = Vec::new();
    let mut i: usize = 0;
    assert(v@.skip(0) == v@);
    while i < v.len()
        invariant
            i <= v@.len(),
            r@ + normalize_newlines_spec(v@.skip(i as int)) == normalize_newlines_spec(v@),
        decreases v.len() - i,
    {
        let ghost rest = v@.skip(i as int);
        if v[i] == '\r' && i + 1 < v.len() && v[i + 1] == '\n' {
            assert(rest.skip(2) =~= v@.skip(i + 2));
            r.push('\n');
            i += 2;
        } else if v[i] == '\r' {
            assert(rest.skip(1) =~= v@.skip(i + 1));
            r.push('\n');
            i += 1;
        } else {
            assert(rest.skip(1) =~= v@.skip(i + 1));
            r.push(v[i]);
            i += 1;
        }
        assert(r@ + normalize_newlines_spec(v@.skip(i as int)) =~= normalize_newlines_spec(v@));
    }
    assert(v@.skip(i as int) =~= Seq::<char>::empty());
    assert(r@ + Seq::<char>::empty() =~= r@);
    r
}

/// The non-empty lines of an ICS text.
pub fn split_ics_lines(ics: &str) -> (r: Vec<String>)
    ensures
        strings_view(r@) == split_ics_lines_spec(ics@),
{
    let v = str_to_chars(ics);
    let n = normalize_newlines(&v);
    let s = chars_to_string(&n);
    let parts = split_char(s.as_str(), '\n');
    let ghost pv = strings_view(parts@);
    let mut r: Vec<String> = Vec::new();
    let mut i: usize = 0;
    while i < parts.len()
        invariant
            i <= parts@.len(),
            pv == strings_view(parts@),
            pv == split_char_spec(normalize_newlines_spec(ics@), '\n'),
            strings_view(r@) == pv.subrange(0, i as int).filter(
                |l: Seq<char>| l.len() > 0,
            ),
        decreases parts.len() - i,
    {
        let ghost before = pv.subrange(0, i as int);
        assert(pv.subrange(0, i + 1).drop_last() =~= before);
        let ghost old_r = strings_view(r@);
        if !parts[i].as_str().is_empty() {
            r.push(parts[i].clone());
            assert(strings_view(r@) =~= old_r.push(parts@[i as int]@));
        }
        proof {
            assert(pv[i as int] == parts@[i as int]@);
            reveal(Seq::filter);
            assert(pv.subrange(0, i + 1).last() == pv[i as int]);
        }
        i += 1;
    }
    assert(pv.subrange(0, pv.len() as int) =~= pv);
    r
}

/// Whether `line` is a folded continuation line.
pub fn is_ics_continuation_line(line: &str) -> (b: bool)
    ensures
        b == is_continuation_spec(line@),
{
    let v = str_to_chars(line);
    v.len() > 0 && (v[0] == ' ' || v[0] == '\t')
}

/// The upper-cased name of a property, parameters and surrounding white space removed.
pub fn property_key(name: &str) -> (r: String)
    ensures
        r@ == property_key_spec(name@),
{
    let base = before_char(name, ';');
    let t = trim(base.as_str());
    to_ascii_uppercase(t.as_str())
}

/// The property name of an ICS content line.
pub fn ics_property_name(line: &str) -> (r: Option<String>)
    ensures
        r matches Some(x) ==> ics_property_name_spec(line@) == Some(x@),
        r is None ==> ics_property_name_spec(line@) is None,
{
    if is_ics_continuation_line(line) {
        return None;
    }
    match split_once_char(line, ':') {
        None => None,
        Some((name, _value)) => Some(property_key(name.as_str())),
    }
}

/// Lines joined with CRLF and a final CRLF.
pub fn normalize_ics_lines(lines: Vec<String>) -> (r: String)
    ensures
        r@ == normalize_ics_lines_spec(strings_view(lines@)),
{
    let mut lines = lines;
    let ghost before = strings_view(lines@);
    lines.push(String::new());
    assert(strings_view(lines@) =~= before.push(Seq::empty()));
    let mut sep = String::new();
    push_char(&mut sep, '\r');
    push_char(&mut sep, '\n');
    assert(sep@ =~= seq!['\r', '\n']);
    join_strings(&lines, sep.as_str())
}

/// ICS lines with folded continuation lines joined to the line before.
pub fn unfold_ics_lines(ics: &str) -> (r: Vec<String>)
    ensures
        strings_view(r@) == unfold_ics_lines_spec(ics@),
{
    let v = str_to_chars(ics);
    let n = normalize_newlines(&v);
    let s = chars_to_string(&n);
    let raws = split_char(s.as_str(), '\n');
    let ghost rv = strings_view(raws@);
    let mut lines: Vec<String> = Vec::new();
    let mut i: usize = 0;
    assert(rv.skip(0) =~= rv);
    assert(strings_view(lines@) =~= Seq::<Seq<char>>::empty());
    while i < raws.len()
        invariant
            i <= raws@.len(),
            rv == strings_view(raws@),
            rv == split_char_spec(normalize_newlines_spec(ics@), '\n'),
            unfold_fold(strings_view(lines@), rv.skip(i as int))
                == unfold_ics_lines_spec(ics@),
        decreases raws.len() - i,
    {
        let ghost lv = strings_view(lines@);
        let raw = &raws[i];
        assert(rv[i as int] == raw@);
        assert(rv.skip(i as int).drop_first() =~= rv.skip(i + 1));
        if is_ics_continuation_line(raw.as_str()) {
            if lines.len() > 0 {
                let last_index = lines.len() - 1;
                let tail = trim_start(raw.as_str());
                let mut joined = lines[last_index].clone();
                push_str(&mut joined, tail.as_str());
                lines.set(last_index, joined);
                assert(strings_view(lines@) =~= lv.update(
                    lv.len() - 1,
                    lv.last() + trim_start_spec(raw@),
                ));
            }
        } else if !raw.as_str().is_empty() {
            lines.push(raw.clone());
            assert(strings_view(lines@) =~= lv.push(raw@));
        }
        i += 1;
    }
    lines
}

/// ICS TEXT escaping of `value`.
pub fn escape_ics_text(value: &str) -> (r: String)
    ensures
        r@ == escape_ics_spec(value@),
{
    let v = str_to_chars(value);
    let mut r = String::new();
    let mut i: usize = 0;
    assert(v@.skip(0) == v@);
    while i < v.len()
        invariant
            i <= v@.len(),
            v@ == value@,
            r@ + escape_ics_spec(v@.skip(i as int)) == escape_ics_spec(v@),
        decreases v.len() - i,
    {
        let ghost rest = v@.skip(i as int);
        let c = v[i];
        if c == '\r' && i + 1 < v.len() && v[i + 1] == '\n' {
            assert(rest.skip(2) =~= v@.skip(i + 2));
            push_char(&mut r, '\\');
            push_char(&mut r, 'n');
            i += 2;
        } else {
            assert(rest.skip(1) =~= v@.skip(i + 1));
            if c == '\\' {
                push_char(&mut r, '\\');
                push_char(&mut r, '\\');
            } else if c == ';' {
                push_char(&mut r, '\\');
                push_char(&mut r, ';');
            } else if c == ',' {
                push_char(&mut r, '\\');
                push_char(&mut r, ',');
            } else if c == '\n' {
                push_char(&mut r, '\\');
                push_char(&mut r, 'n');
            } else {
                push_char(&mut r, c);
            }
            i += 1;
        }
        assert(r@ + escape_ics_spec(v@.skip(i as int)) =~= escape_ics_spec(v@));
    }
    assert(v@.skip(i as int) =~= Seq::<char>::empty());
    assert(r@ + Seq::<char>::empty() =~= r@);
    r
}

/// ICS TEXT unescaping of `value`.
pub fn unescape_ics_text(value: &str) -> (r: String)
    ensures
        r@ == unescape_ics_spec(value@),
{
    let v = str_to_chars(value);
    let mut r = String::new();
    let mut i: usize = 0;
    assert(v@.skip(0) == v@);
    while i < v.len()
        invariant
            i <= v@.len(),
            v@ == value@,
            r@ + unescape_ics_spec(v@.skip(i as int)) == unescape_ics_spec(v@),
        decreases v.len() - i,
    {
        let ghost rest = v@.skip(i as int);
        let c = v[i];
        if c == '\\' {
            if i + 1 < v.len() {
                let n = v[i + 1];
                assert(rest.skip(2) =~= v@.skip(i + 2));
                if n == 'n' || n == 'N' {
                    push_char(&mut r, '\n');
                } else {
                    push_char(&mut r, n);
                }
                i += 2;
            } else {
                push_char(&mut r, '\\');
                i += 1;
                assert(v@.skip(i as int) =~= Seq::<char>::empty());
            }
        } else {
            assert(rest.skip(1) =~= v@.skip(i + 1));
            push_char(&mut r, c);
            i += 1;
        }
        assert(r@ + unescape_ics_spec(v@.skip(i as int)) =~= unescape_ics_spec(v@));
    }
    assert(v@.skip(i as int) =~= Seq::<char>::empty());
    assert(r@ + Seq::<char>::empty() =~= r@);
    r
}

/// The description text for a schedule block: its note and the sync marker.
pub fn body_with_marker(note: Option<&str>, sync_id: &str) -> (r: String)
    ensures
        r@ == body_with_marker_spec(
            match note {
                Some(n) => Some(n@),
                None => None,
            },
            sync_id@,
        ),
{
    let mut marker = marker_prefix_string();
    let entity = schedule_block_entity_string();
    push_str(&mut marker, entity.as_str());
    push_char(&mut marker, ':');
    push_str(&mut marker, sync_id);
    push_char(&mut marker, ']');
    assert(marker@ =~= block_marker_spec(sync_id@));
    match note {
        Some(n) => {
            let t = trim(n);
            if !t.as_str().is_empty() {
                let mut r = t;
                push_char(&mut r, '\n');
                push_char(&mut r, '\n');
                push_str(&mut r, marker.as_str());
                assert(r@ =~= trim_spec(n@) + seq!['\n', '\n'] + marker@);
                r
            } else {
                marker
            }
        },
        None => marker,
    }
}

/// The schedule block sync id named by the first marker in `value`.
pub fn extract_marker(value: &str) -> (r: Option<String>)
    ensures
        r matches Some(x) ==> extract_marker_spec(value@) == Some(x@),
        r is None ==> extract_marker_spec(value@) is None,
{
    let v = str_to_chars(value);
    let prefix = str_to_chars(marker_prefix_string().as_str());
    let start = match find_exec(&v, &prefix) {
        None => return None,
        Some(k) => k,
    };
    proof {
        lemma_find_from_range(v@, prefix@, 0);
    }
    assert(find_from(v@, prefix@, 0) == Some(start as int));
    let plen = prefix.len();
    assert(start + plen <= v.len());
    let rest_start = start + plen;
    let rest = chars_range_to_string(&v, rest_start, v.len());
    let rv = str_to_chars(rest.as_str());
    let end = match find_char_exec(&rv, ']') {
        None => return None,
        Some(k) => k,
    };
    proof {
        lemma_find_char_from_range(rv@, ']', 0);
    }
    let marker = chars_range_to_string(&rv, 0, end);
    match split_once_char(marker.as_str(), ':') {
        None => None,
        Some((entity, sync_id)) => {
            let expected = schedule_block_entity_string();
            if entity == expected {
                Some(sync_id)
            } else {
                None
            }
        },
    }
}

/// `value` with its first complete marker removed, trimmed.
pub fn strip_marker(value: &str) -> (r: String)
    ensures
        r@ == strip_marker_spec(value@),
{
    let v = str_to_chars(value);
    let prefix = str_to_chars(marker_prefix_string().as_str());
    let start = match find_exec(&v, &prefix) {
        None => return trim(value),
        Some(k) => k,
    };
    proof {
        lemma_find_from_range(v@, prefix@, 0);
    }
    let rest = chars_range_to_string(&v, start, v.len());
    let rv = str_to_chars(rest.as_str());
    let end = match find_char_exec(&rv, ']') {
        None => return trim(value),
        Some(k) => k,
    };
    proof {
        lemma_find_char_from_range(rv@, ']', 0);
    }
    let mut joined = chars_range_to_string(&v, 0, start);
    let tail = chars_range_to_string(&rv, end + 1, rv.len());
    push_str(&mut joined, tail.as_str());
    trim(joined.as_str())
}


/// No carriage return in the text.
pub open spec fn has_no_cr(s: Seq<char>) -> bool {
    forall|i: int| 0 <= i < s.len() ==> s[i] != '\r'
}

/// Unescaping undoes escaping for text without carriage returns (a lone
/// carriage return is written as it is, and then reads as a line break).
pub proof fn lemma_escape_roundtrip(s: Seq<char>)
    requires
        has_no_cr(s),
    ensures
        unescape_ics_spec(escape_ics_spec(s)) == s,
    decreases s.len(),
{
    if s.len() > 0 {
        let c = s[0];
        let rest = s.skip(1);
        assert forall|i: int| 0 <= i < rest.len() implies rest[i] != '\r' by {
            assert(rest[i] == s[i + 1]);
        }
        lemma_escape_roundtrip(rest);
        let e = escape_ics_spec(rest);
        if c == '\\' || c == ';' || c == ',' || c == '\n' {
            let x = if c == '\n' {
                'n'
            } else {
                c
            };
            assert(escape_ics_spec(s) == seq!['\\', x] + e);
            assert((seq!['\\', x] + e).skip(2) =~= e);
        } else {
            assert(escape_ics_spec(s) == seq![c] + e);
            assert((seq![c] + e).skip(1) =~= e);
        }
        assert(seq![c] + rest =~= s);
    }
}

/// Escaped text without carriage returns holds no line break at all.
pub proof fn lemma_escape_single_line(s: Seq<char>)
    requires
        has_no_cr(s),
    ensures
        forall|i: int| 0 <= i < escape_ics_spec(s).len() ==> #[trigger] escape_ics_spec(s)[i] != '\r'
            && escape_ics_spec(s)[i] != '\n',
    decreases s.len(),
{
    if s.len() > 0 {
        let rest = s.skip(1);
        assert forall|i: int| 0 <= i < rest.len() implies rest[i] != '\r' by {
            assert(rest[i] == s[i + 1]);
        }
        lemma_escape_single_line(rest);
        let e = escape_ics_spec(rest);
        let c = s[0];
        let head = if c == '\\' {
            seq!['\\', '\\']
        } else if c == ';' {
            seq!['\\', ';']
        } else if c == ',' {
            seq!['\\', ',']
        } else if c == '\n' {
            seq!['\\', 'n']
        } else {
            seq![c]
        };
        assert(escape_ics_spec(s) == head + e);
        assert forall|i: int| 0 <= i < (head + e).len() implies (head + e)[i] != '\r' && (head
            + e)[i] != '\n' by {
            if i >= head.len() {
                assert((head + e)[i] == e[i - head.len()]);
            }
        }
    }
}

/// Text without backslashes reads as it is written.
pub proof fn lemma_unescape_plain(s: Seq<char>)
    requires
        forall|i: int| 0 <= i < s.len() ==> s[i] != '\\',
    ensures
        unescape_ics_spec(s) == s,
    decreases s.len(),
{
    if s.len() > 0 {
        let rest = s.skip(1);
        assert forall|i: int| 0 <= i < rest.len() implies rest[i] != '\\' by {
            assert(rest[i] == s[i + 1]);
        }
        lemma_unescape_plain(rest);
        assert(seq![s[0]] + rest =~= s);
    }
}

/// Neither the marker prefix, the entity name nor `:` holds `]`, a line break
/// or white space where it matters.
pub proof fn lemma_marker_chars()
    ensures
        forall|i: int| 0 <= i < marker_prefix().len() ==> #[trigger] marker_prefix()[i] != ']'
            && marker_prefix()[i] != '\n',
        forall|i: int| 0 <= i < schedule_block_entity().len() ==> #[trigger] schedule_block_entity()[i]
            != ']' && schedule_block_entity()[i] != ':',
        marker_prefix().len() == 14,
        marker_prefix()[0] == '[',
{
}

/// The marker of `sync_id` read back: its entity and id, and where its `]` is.
proof fn lemma_marker_reads_back(sync_id: Seq<char>)
    requires
        forall|i: int| 0 <= i < sync_id.len() ==> sync_id[i] != ']',
    ensures
        ({
            let m = block_marker_spec(sync_id);
            let rest = m.subrange(marker_prefix().len() as int, m.len() as int);
            &&& find_char_spec(m, ']') == Some(m.len() - 1)
            &&& find_char_spec(rest, ']') == Some(rest.len() - 1)
            &&& split_once_spec(rest.subrange(0, rest.len() - 1), ':') == Some(
                (schedule_block_entity(), sync_id),
            )
        }),
{
    lemma_marker_chars();
    let m = block_marker_spec(sync_id);
    let p = marker_prefix();
    let e = schedule_block_entity();
    let rest = m.subrange(p.len() as int, m.len() as int);
    assert(rest =~= e + seq![':'] + sync_id + seq![']']);
    assert forall|j: int| 0 <= j < m.len() - 1 implies m[j] != ']' by {
        if j < p.len() {
            assert(m[j] == p[j]);
        } else if j < p.len() + e.len() {
            assert(m[j] == e[j - p.len()]);
        } else if j == p.len() + e.len() {
        } else {
            assert(m[j] == sync_id[j - p.len() - e.len() - 1]);
        }
    }
    crate::text::lemma_find_char_first(m, ']', 0, m.len() - 1);
    assert forall|j: int| 0 <= j < rest.len() - 1 implies rest[j] != ']' by {
        assert(rest[j] == m[j + p.len()]);
    }
    crate::text::lemma_find_char_first(rest, ']', 0, rest.len() - 1);
    assert(rest.subrange(0, rest.len() - 1) =~= e + seq![':'] + sync_id);
    crate::text::lemma_split_once_at(e, ':', sync_id);
}

/// The description text written for a block: `note`, a blank line, the marker.
proof fn lemma_marker_found_after(t: Seq<char>, sync_id: Seq<char>)
    requires
        find_spec(t, marker_prefix()) is None,
    ensures
        find_spec(t + seq!['\n', '\n'] + block_marker_spec(sync_id), marker_prefix()) == Some(
            t.len() as int + 2,
        ),
{
    lemma_marker_chars();
    let p = marker_prefix();
    let m = block_marker_spec(sync_id);
    let body = t + seq!['\n', '\n'] + m;
    let k: int = t.len() as int + 2;
    assert(body.subrange(k, k + p.len() as int) =~= p);
    crate::text::lemma_find_from_range(t, p, 0);
    assert forall|j: int| 0 <= j < k implies !occurs_at(body, p, j) by {
        if occurs_at(body, p, j) {
            if j + p.len() <= t.len() {
                assert(body.subrange(j, j + p.len()) =~= t.subrange(j, j + p.len()));
                assert(occurs_at(t, p, j));
            } else if j <= t.len() {
                let off = t.len() - j;
                assert(body[t.len() as int] == '\n');
                assert(body.subrange(j, j + p.len())[off] == body[t.len() as int]);
                assert(p[off] == '\n');
            } else {
                assert(body[j] == '\n');
                assert(body.subrange(j, j + p.len())[0] == body[j]);
            }
        }
    }
    crate::text::lemma_find_from_first(body, p, 0, k);
}

/// The marker written into a description names the block again, and removing
/// it gives back the trimmed note: for a sync id without `]` and a note whose
/// trimmed text holds no marker of its own. A blank or missing note leaves
/// nothing once the marker is removed.
pub proof fn lemma_marker_roundtrip(note: Option<Seq<char>>, sync_id: Seq<char>)
    requires
        forall|i: int| 0 <= i < sync_id.len() ==> sync_id[i] != ']',
        note matches Some(n) ==> find_spec(trim_spec(n), marker_prefix()) is None,
    ensures
        extract_marker_spec(body_with_marker_spec(note, sync_id)) == Some(sync_id),
        strip_marker_spec(body_with_marker_spec(note, sync_id)) == match note {
            Some(n) => trim_spec(n),
            None => Seq::<char>::empty(),
        },
{
    lemma_marker_chars();
    lemma_marker_reads_back(sync_id);
    let p = marker_prefix();
    let m = block_marker_spec(sync_id);
    let body = body_with_marker_spec(note, sync_id);
    let t = match note {
        Some(n) => trim_spec(n),
        None => Seq::<char>::empty(),
    };
    if t.len() > 0 {
        lemma_marker_found_after(t, sync_id);
        let k: int = t.len() as int + 2;
        assert(body.subrange(k + p.len() as int, body.len() as int) =~= m.subrange(p.len() as int, m.len() as int));
        assert(body.subrange(k, body.len() as int) =~= m);
        assert(m.subrange(m.len() as int, m.len() as int) =~= Seq::<char>::empty());
        assert(body.subrange(0, k) + Seq::<char>::empty() =~= t + seq!['\n', '\n']);
        crate::text::lemma_trim_ends(match note {
            Some(n) => n,
            None => Seq::<char>::empty(),
        });
        assert(is_ws('\n'));
        crate::text::lemma_trim_trailing_ws(t, seq!['\n', '\n']);
    } else {
        assert(body == m);
        assert(m.subrange(0, p.len() as int) =~= p);
        crate::text::lemma_find_from_first(m, p, 0, 0);
        assert(m.subrange(0, m.len() as int) =~= m);
        assert(m.subrange(0, 0) + m.subrange(m.len() as int, m.len() as int) =~= Seq::<char>::empty());
        assert(trim_start_spec(Seq::<char>::empty()) == Seq::<char>::empty());
    }
}

} // verus!
