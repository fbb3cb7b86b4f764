//! The calendar object written for a schedule block reads back as the block:
//! the laws that tie `build_ics_event` and the update of a remote event
//! (`build_ics_event_from_existing_remote`, `mark_remote_ics_with_sync_marker`)
//! to `parse_ics_event`, with the facts about line endings, line splitting,
//! unfolding and the rewrite of an event's properties that they rest on.
use crate::caldav::{
    property_line_spec, property_lines, replaces_name, rewrite_first_vevent_spec, rewrite_fold,
    rewrite_initial, rewrite_step, RewriteScan, event_end_minute_spec, field_lookup, field_scan, field_scan_step, ics_date_minute_spec,
    ics_fields_spec, ics_utc_millis_spec, opt_view, parse_ics_event_spec, FieldScan,
    LocalCalendarBlock, RemoteEventView,
};
use crate::caldav_ics::{
    block_description_spec, block_properties_spec, build_ics_event_spec, ics_event_lines_spec, ics_status_spec,
    local_date_minute_to_ics_spec, sync_marker_properties, time_reads_back, times_written_plain,
};
use crate::clock::iso_date_shape;
use crate::checklist::normalize_optional_spec;
use crate::ics::{
    ics_property_name_spec, normalize_ics_lines_spec, split_ics_lines_spec, block_marker_spec, lemma_escape_roundtrip, lemma_escape_single_line,
    lemma_marker_chars, lemma_marker_roundtrip, lemma_unescape_plain, marker_prefix,
    schedule_block_entity, escape_ics_spec, has_no_cr, normalize_newlines_spec, property_key_spec, unescape_ics_spec,
    unfold_fold, unfold_ics_lines_spec, unfold_step, is_continuation_spec,
};
use crate::text::{
    trim_start_spec, find_char_from, find_char_spec, find_spec, lemma_find_char_none, lemma_join_front_parts, lemma_trim_idempotent, lemma_trim_keeps_absent,
    plain_line, before_char_spec, is_ws, join_spec, lemma_find_char_first,
    lemma_split_once_at, lemma_trim_no_ws, split_char_spec, trim_end_char_spec,
    trim_spec, upper_char, upper_spec,
};
use vstd::prelude::*;

verus! {

/// No line feed in the text.
pub open spec fn has_no_lf(s: Seq<char>) -> bool {
    forall|i: int| 0 <= i < s.len() ==> s[i] != '\n'
}


proof fn lemma_normalize_no_cr(s: Seq<char>)
    requires
        has_no_cr(s),
    ensures
        normalize_newlines_spec(s) == s,
    decreases s.len(),
{
    if s.len() > 0 {
        assert(s[0] != '\r');
        assert(has_no_cr(s.skip(1))) by {
            assert forall|i: int| 0 <= i < s.skip(1).len() implies s.skip(1)[i] != '\r' by {
                assert(s.skip(1)[i] == s[i + 1]);
            }
        }
        lemma_normalize_no_cr(s.skip(1));
        assert(seq![s[0]] + s.skip(1) =~= s);
    }
}

proof fn lemma_normalize_append(a: Seq<char>, b: Seq<char>)
    requires
        a.len() == 0 || a.last() != '\r',
    ensures
        normalize_newlines_spec(a + b) == normalize_newlines_spec(a) + normalize_newlines_spec(b),
    decreases a.len(),
{
    if a.len() == 0 {
        assert(a + b =~= b);
        assert(normalize_newlines_spec(a) =~= Seq::<char>::empty());
        assert(Seq::<char>::empty() + normalize_newlines_spec(b) =~= normalize_newlines_spec(b));
    } else {
        let s = a + b;
        assert(s[0] == a[0]);
        if a.len() >= 2 && a[0] == '\r' && a[1] == '\n' {
            assert(s[1] == a[1]);
            assert(s.skip(2) =~= a.skip(2) + b);
            lemma_normalize_append(a.skip(2), b);
            assert(a.skip(2).len() == 0 || a.skip(2).last() == a.last());
        } else if a[0] == '\r' {
            assert(a.len() >= 2);
            assert(s[1] == a[1]);
            assert(s.skip(1) =~= a.skip(1) + b);
            lemma_normalize_append(a.skip(1), b);
        } else {
            assert(s.skip(1) =~= a.skip(1) + b);
            if a.len() >= 2 {
                assert(a.skip(1).last() == a.last());
            }
            lemma_normalize_append(a.skip(1), b);
        }
    }
}

/// Lines without carriage returns joined with CRLF read as the same lines
/// joined with LF.
pub proof fn lemma_normalize_join(lines: Seq<Seq<char>>)
    requires
        forall|i: int| 0 <= i < lines.len() ==> has_no_cr(#[trigger] lines[i]),
    ensures
        normalize_newlines_spec(join_spec(lines, seq!['\r', '\n'])) == join_spec(lines, seq!['\n']),
        join_spec(lines, seq!['\r', '\n']).len() == 0 || join_spec(lines, seq!['\r', '\n']).last()
            != '\r',
    decreases lines.len(),
{
    let crlf = seq!['\r', '\n'];
    if lines.len() == 0 {
    } else if lines.len() == 1 {
        assert(has_no_cr(lines[0]));
        lemma_normalize_no_cr(lines[0]);
    } else {
        let d = lines.drop_last();
        let last = lines.last();
        assert forall|i: int| 0 <= i < d.len() implies has_no_cr(#[trigger] d[i]) by {
            assert(d[i] == lines[i]);
        }
        assert(has_no_cr(last));
        lemma_normalize_join(d);
        let jd = join_spec(d, crlf);
        assert(join_spec(lines, crlf) == jd + crlf + last);
        assert(jd + crlf + last =~= jd + (crlf + last));
        lemma_normalize_append(jd, crlf + last);
        let t = crlf + last;
        assert(t.skip(2) =~= last);
        lemma_normalize_no_cr(last);
        assert(normalize_newlines_spec(t) == seq!['\n'] + last);
        assert(join_spec(lines, seq!['\n']) == join_spec(d, seq!['\n']) + seq!['\n'] + last);
        assert(join_spec(d, seq!['\n']) + (seq!['\n'] + last) =~= join_spec(d, seq!['\n'])
            + seq!['\n'] + last);
        if last.len() > 0 {
            assert((jd + crlf + last).last() == last.last());
        } else {
            assert((jd + crlf + last).last() == '\n');
        }
    }
}

/// Lines without line feeds joined with LF split into the same lines.
pub proof fn lemma_split_join(lines: Seq<Seq<char>>)
    requires
        lines.len() >= 1,
        forall|i: int| 0 <= i < lines.len() ==> has_no_lf(#[trigger] lines[i]),
    ensures
        split_char_spec(join_spec(lines, seq!['\n']), '\n') == lines,
    decreases lines.len(),
{
    let lf = seq!['\n'];
    assert(has_no_lf(lines[0]));
    if lines.len() == 1 {
        lemma_find_char_none(lines[0], '\n', 0);
        assert(split_char_spec(lines[0], '\n') == seq![lines[0]]);
        assert(seq![lines[0]] =~= lines);
    } else {
        lemma_join_front_parts(lines, lf);
        let rest = lines.drop_first();
        assert forall|i: int| 0 <= i < rest.len() implies has_no_lf(#[trigger] rest[i]) by {
            assert(rest[i] == lines[i + 1]);
        }
        lemma_split_join(rest);
        let s = join_spec(lines, lf);
        let k = lines[0].len() as int;
        assert(s == lines[0] + lf + join_spec(rest, lf));
        lemma_find_char_first(s, '\n', 0, k);
        assert(s.subrange(0, k) =~= lines[0]);
        assert(s.subrange(k + 1, s.len() as int) =~= join_spec(rest, lf));
        assert(seq![lines[0]] + rest =~= lines);
    }
}

/// Unfolding lines that are not empty and not continuations keeps them.
proof fn lemma_unfold_plain(acc: Seq<Seq<char>>, raws: Seq<Seq<char>>)
    requires
        forall|i: int| 0 <= i < raws.len() ==> (#[trigger] raws[i]).len() > 0 && !is_continuation_spec(raws[i]),
    ensures
        unfold_fold(acc, raws) == acc + raws,
    decreases raws.len(),
{
    if raws.len() == 0 {
        assert(acc + raws =~= acc);
    } else {
        assert(raws[0].len() > 0 && !is_continuation_spec(raws[0]));
        assert(unfold_step(acc, raws[0]) == acc.push(raws[0]));
        let rest = raws.drop_first();
        assert forall|i: int| 0 <= i < rest.len() implies (#[trigger] rest[i]).len() > 0
            && !is_continuation_spec(rest[i]) by {
            assert(rest[i] == raws[i + 1]);
        }
        lemma_unfold_plain(acc.push(raws[0]), rest);
        assert(acc.push(raws[0]) + rest =~= acc + raws);
    }
}

/// An empty last line is dropped by unfolding.
proof fn lemma_unfold_drops_empty_last(acc: Seq<Seq<char>>, raws: Seq<Seq<char>>)
    requires
        forall|i: int| 0 <= i < raws.len() ==> (#[trigger] raws[i]).len() > 0 && !is_continuation_spec(raws[i]),
    ensures
        unfold_fold(acc, raws.push(Seq::<char>::empty())) == acc + raws,
    decreases raws.len(),
{
    if raws.len() == 0 {
        assert(raws.push(Seq::<char>::empty()) =~= seq![Seq::<char>::empty()]);
        assert(unfold_step(acc, Seq::<char>::empty()) == acc);
        assert(seq![Seq::<char>::empty()].drop_first() =~= Seq::<Seq<char>>::empty());
        assert(unfold_fold(acc, Seq::<Seq<char>>::empty()) == acc);
        assert(unfold_fold(acc, seq![Seq::<char>::empty()]) == unfold_fold(
            unfold_step(acc, Seq::<char>::empty()),
            seq![Seq::<char>::empty()].drop_first(),
        ));
        assert(acc + raws =~= acc);
    } else {
        let all = raws.push(Seq::<char>::empty());
        assert(all[0] == raws[0]);
        assert(raws[0].len() > 0 && !is_continuation_spec(raws[0]));
        let rest = raws.drop_first();
        assert(all.drop_first() =~= rest.push(Seq::<char>::empty()));
        assert forall|i: int| 0 <= i < rest.len() implies (#[trigger] rest[i]).len() > 0
            && !is_continuation_spec(rest[i]) by {
            assert(rest[i] == raws[i + 1]);
        }
        lemma_unfold_drops_empty_last(acc.push(raws[0]), rest);
        assert(acc.push(raws[0]) + rest =~= acc + raws);
    }
}

/// The logical lines of text written as lines joined by CRLF with a final
/// CRLF: the lines themselves, when none is empty, none starts with white
/// space, and none holds a line break.
pub proof fn lemma_written_lines_read_back(lines: Seq<Seq<char>>)
    requires
        forall|i: int| 0 <= i < lines.len() ==> {
            &&& (#[trigger] lines[i]).len() > 0
            &&& !is_continuation_spec(lines[i])
            &&& has_no_cr(lines[i])
            &&& has_no_lf(lines[i])
        },
    ensures
        unfold_ics_lines_spec(join_spec(lines.push(Seq::<char>::empty()), seq!['\r', '\n'])) == lines,
{
    let all = lines.push(Seq::<char>::empty());
    assert forall|i: int| 0 <= i < all.len() implies has_no_cr(#[trigger] all[i]) && has_no_lf(all[i]) by {
        if i < lines.len() {
            assert(all[i] == lines[i]);
        } else {
            assert(all[i] == Seq::<char>::empty());
        }
    }
    lemma_normalize_join(all);
    lemma_split_join(all);
    lemma_unfold_drops_empty_last(Seq::empty(), lines);
    assert(Seq::<Seq<char>>::empty() + lines =~= lines);
}


/// A property name as the library writes it: upper-case ASCII letters and `-`.
pub open spec fn plain_name(name: Seq<char>) -> bool {
    &&& name.len() > 0
    &&& forall|i: int| 0 <= i < name.len() ==> ('A' <= #[trigger] name[i] <= 'Z' || name[i] == '-')
}

/// A plain property name is its own key.
proof fn lemma_plain_name_key(name: Seq<char>)
    requires
        plain_name(name),
    ensures
        property_key_spec(name) == name,
{
    lemma_find_char_none(name, ';', 0);
    assert(before_char_spec(name, ';') == name);
    assert(!is_ws(name[0]));
    assert(!is_ws(name.last()));
    lemma_trim_no_ws(name);
    assert(upper_spec(name) =~= name) by {
        assert forall|i: int| 0 <= i < name.len() implies upper_spec(name)[i] == name[i] by {
            assert(upper_spec(name)[i] == upper_char(name[i]));
        }
    }
}

/// A content line `name:value`.
pub open spec fn prop_line(p: (Seq<char>, Seq<char>)) -> Seq<char> {
    p.0 + seq![':'] + p.1
}

pub open spec fn prop_lines(ps: Seq<(Seq<char>, Seq<char>)>) -> Seq<Seq<char>> {
    Seq::new(ps.len(), |i: int| prop_line(ps[i]))
}

/// The fields the scan records for content lines: name and unescaped value.
pub open spec fn prop_fields(ps: Seq<(Seq<char>, Seq<char>)>) -> Seq<(Seq<char>, Seq<char>)> {
    Seq::new(ps.len(), |i: int| (ps[i].0, unescape_ics_spec(ps[i].1)))
}

/// A property line the scan records as it is.
pub open spec fn recordable(p: (Seq<char>, Seq<char>)) -> bool {
    &&& plain_name(p.0)
    &&& p.0 != seq!['B', 'E', 'G', 'I', 'N']
    &&& p.0 != seq!['E', 'N', 'D']
    &&& has_no_cr(p.1)
}

proof fn lemma_trim_cr_noop(s: Seq<char>)
    requires
        s.len() == 0 || s.last() != '\r',
    ensures
        trim_end_char_spec(s, '\r') == s,
{
}

/// The scan records one property line inside the event.
proof fn lemma_scan_prop(st: FieldScan, p: (Seq<char>, Seq<char>))
    requires
        st.in_event,
        !st.done,
        recordable(p),
    ensures
        field_scan_step(st, prop_line(p)) == (FieldScan {
            fields: st.fields.push((p.0, unescape_ics_spec(p.1))),
            ..st
        }),
{
    let line = prop_line(p);
    assert(forall|j: int| 0 <= j < p.0.len() ==> p.0[j] != ':') by {
        assert forall|j: int| 0 <= j < p.0.len() implies p.0[j] != ':' by {
            assert('A' <= p.0[j] <= 'Z' || p.0[j] == '-');
        }
    }
    if p.1.len() > 0 {
        assert(line.last() == p.1.last());
        assert(p.1[p.1.len() - 1] != '\r');
    } else {
        assert(line.last() == ':');
    }
    lemma_trim_cr_noop(line);
    lemma_split_once_at(p.0, ':', p.1);
    let begin = seq!['B', 'E', 'G', 'I', 'N', ':', 'V', 'E', 'V', 'E', 'N', 'T'];
    let end = seq!['E', 'N', 'D', ':', 'V', 'E', 'V', 'E', 'N', 'T'];
    lemma_split_once_at(seq!['B', 'E', 'G', 'I', 'N'], ':', seq!['V', 'E', 'V', 'E', 'N', 'T']);
    lemma_split_once_at(seq!['E', 'N', 'D'], ':', seq!['V', 'E', 'V', 'E', 'N', 'T']);
    assert(seq!['B', 'E', 'G', 'I', 'N'] + seq![':'] + seq!['V', 'E', 'V', 'E', 'N', 'T'] =~= begin);
    assert(seq!['E', 'N', 'D'] + seq![':'] + seq!['V', 'E', 'V', 'E', 'N', 'T'] =~= end);
    reveal_strlit("BEGIN:VEVENT");
    reveal_strlit("END:VEVENT");
    assert("BEGIN:VEVENT"@ =~= begin);
    assert("END:VEVENT"@ =~= end);
    lemma_plain_name_key(p.0);
}

/// The scan records property lines inside the event, one field each.
pub proof fn lemma_scan_props(st: FieldScan, ps: Seq<(Seq<char>, Seq<char>)>)
    requires
        st.in_event,
        !st.done,
        forall|i: int| 0 <= i < ps.len() ==> recordable(#[trigger] ps[i]),
    ensures
        field_scan(st, prop_lines(ps)) == (FieldScan { fields: st.fields + prop_fields(ps), ..st }),
    decreases ps.len(),
{
    if ps.len() == 0 {
        assert(prop_lines(ps) =~= Seq::<Seq<char>>::empty());
        assert(st.fields + prop_fields(ps) =~= st.fields);
    } else {
        assert(recordable(ps[0]));
        lemma_scan_prop(st, ps[0]);
        let st1 = FieldScan { fields: st.fields.push((ps[0].0, unescape_ics_spec(ps[0].1))), ..st };
        let rest = ps.drop_first();
        assert forall|i: int| 0 <= i < rest.len() implies recordable(#[trigger] rest[i]) by {
            assert(rest[i] == ps[i + 1]);
        }
        lemma_scan_props(st1, rest);
        assert(prop_lines(ps)[0] == prop_line(ps[0]));
        assert(prop_lines(ps).drop_first() =~= prop_lines(rest));
        assert(st1.fields + prop_fields(rest) =~= st.fields + prop_fields(ps));
    }
}

/// The scan over a concatenation is the scan of the second part from where
/// the first part left it.
pub proof fn lemma_scan_append(st: FieldScan, a: Seq<Seq<char>>, b: Seq<Seq<char>>)
    ensures
        field_scan(st, a + b) == field_scan(field_scan(st, a), b),
    decreases a.len(),
{
    if a.len() == 0 {
        assert(a + b =~= b);
    } else {
        assert((a + b)[0] == a[0]);
        assert((a + b).drop_first() =~= a.drop_first() + b);
        lemma_scan_append(field_scan_step(st, a[0]), a.drop_first(), b);
    }
}

/// Looking a key up in the recorded fields: the last field with that name.
pub proof fn lemma_lookup_at(fields: Seq<(Seq<char>, Seq<char>)>, key: Seq<char>, k: int)
    requires
        0 <= k < fields.len(),
        fields[k].0 == key,
        forall|j: int| k < j < fields.len() ==> (#[trigger] fields[j]).0 != key,
    ensures
        field_lookup(fields, key) == Some(fields[k].1),
    decreases fields.len(),
{
    if k < fields.len() - 1 {
        assert(fields.last() == fields[fields.len() - 1]);
        assert(fields.last().0 != key);
        let d = fields.drop_last();
        assert forall|j: int| k < j < d.len() implies (#[trigger] d[j]).0 != key by {
            assert(d[j] == fields[j]);
        }
        lemma_lookup_at(d, key, k);
    }
}

/// A key no field has is not found.
pub proof fn lemma_lookup_missing(fields: Seq<(Seq<char>, Seq<char>)>, key: Seq<char>)
    requires
        forall|j: int| 0 <= j < fields.len() ==> (#[trigger] fields[j]).0 != key,
    ensures
        field_lookup(fields, key) is None,
    decreases fields.len(),
{
    if fields.len() > 0 {
        assert(fields.last() == fields[fields.len() - 1]);
        let d = fields.drop_last();
        assert forall|j: int| 0 <= j < d.len() implies (#[trigger] d[j]).0 != key by {
            assert(d[j] == fields[j]);
        }
        lemma_lookup_missing(d, key);
    }
}


/// The properties written inside the VEVENT of a new event, in order.
pub open spec fn event_props(
    block: LocalCalendarBlock,
    start: Seq<char>,
    end: Seq<char>,
    stamp: Seq<char>,
) -> Seq<(Seq<char>, Seq<char>)> {
    seq![
        ("UID"@, escape_ics_spec(block.sync_id@) + "@kaoyan-focus"@),
        ("DTSTAMP"@, stamp),
        ("DTSTART"@, start),
        ("DTEND"@, end),
        ("SUMMARY"@, escape_ics_spec(block.title@)),
        ("DESCRIPTION"@, escape_ics_spec(block_description_spec(block))),
        ("X-KAOYAN-FOCUS-SYNC-ID"@, escape_ics_spec(block.sync_id@)),
        ("STATUS"@, ics_status_spec(block.status@)),
    ]
}

/// What a block written as a new event reads back as: its title, its trimmed
/// note, its sync id, the date and minutes of the written start and end
/// times, and the stamp as its change time.
pub open spec fn read_back_spec(
    block: LocalCalendarBlock,
    start: Seq<char>,
    end: Seq<char>,
    stamp: Seq<char>,
    url: Seq<char>,
    etag: Option<Seq<char>>,
) -> Result<Option<RemoteEventView>, Seq<char>> {
    let ics = join_spec(ics_event_lines_spec(block, start, end, stamp), "\r\n"@);
    match ics_date_minute_spec(start) {
        Err(e) => Err(e),
        Ok(s) => match ics_date_minute_spec(end) {
            Err(e) => Err(e),
            Ok(e) => Ok(Some(RemoteEventView {
                id: url,
                etag: etag,
                title: block.title@,
                note: normalize_optional_spec(opt_view(block.note)),
                schedule_date: s.0,
                start_minute: s.1,
                end_minute: event_end_minute_spec(s.0, s.1, e.0, e.1),
                updated_millis: ics_utc_millis_spec(stamp),
                marker_sync_id: Some(block.sync_id@),
                raw_ics: ics,
            })),
        },
    }
}

/// What the library writes for a block and may read back: a title, note and
/// sync id without carriage returns (a lone one would read as a line break),
/// a sync id without `]` (it closes the marker in the description), and a
/// note whose trimmed text holds no marker of its own.
pub open spec fn writable_block(block: LocalCalendarBlock) -> bool {
    &&& has_no_cr(block.title@)
    &&& has_no_cr(block.sync_id@)
    &&& forall|i: int| 0 <= i < block.sync_id@.len() ==> block.sync_id@[i] != ']'
    &&& block.note matches Some(n) ==> has_no_cr(n@) && find_spec(trim_spec(n@), marker_prefix()) is None
}

proof fn lemma_literals()
    ensures
        plain_name("UID"@),
        plain_name("DTSTAMP"@),
        plain_name("DTSTART"@),
        plain_name("DTEND"@),
        plain_name("SUMMARY"@),
        plain_name("DESCRIPTION"@),
        plain_name("X-KAOYAN-FOCUS-SYNC-ID"@),
        plain_name("STATUS"@),
        "UID:"@ == "UID"@ + seq![':'],
        "DTSTAMP:"@ == "DTSTAMP"@ + seq![':'],
        "DTSTART:"@ == "DTSTART"@ + seq![':'],
        "DTEND:"@ == "DTEND"@ + seq![':'],
        "SUMMARY:"@ == "SUMMARY"@ + seq![':'],
        "DESCRIPTION:"@ == "DESCRIPTION"@ + seq![':'],
        "X-KAOYAN-FOCUS-SYNC-ID:"@ == "X-KAOYAN-FOCUS-SYNC-ID"@ + seq![':'],
        "STATUS:"@ == "STATUS"@ + seq![':'],
{
    reveal_strlit("UID");
    reveal_strlit("DTSTAMP");
    reveal_strlit("DTSTART");
    reveal_strlit("DTEND");
    reveal_strlit("SUMMARY");
    reveal_strlit("DESCRIPTION");
    reveal_strlit("X-KAOYAN-FOCUS-SYNC-ID");
    reveal_strlit("STATUS");
    reveal_strlit("UID:");
    reveal_strlit("DTSTAMP:");
    reveal_strlit("DTSTART:");
    reveal_strlit("DTEND:");
    reveal_strlit("SUMMARY:");
    reveal_strlit("DESCRIPTION:");
    reveal_strlit("X-KAOYAN-FOCUS-SYNC-ID:");
    reveal_strlit("STATUS:");
    assert("UID:"@ =~= "UID"@ + seq![':']);
    assert("DTSTAMP:"@ =~= "DTSTAMP"@ + seq![':']);
    assert("DTSTART:"@ =~= "DTSTART"@ + seq![':']);
    assert("DTEND:"@ =~= "DTEND"@ + seq![':']);
    assert("SUMMARY:"@ =~= "SUMMARY"@ + seq![':']);
    assert("DESCRIPTION:"@ =~= "DESCRIPTION"@ + seq![':']);
    assert("X-KAOYAN-FOCUS-SYNC-ID:"@ =~= "X-KAOYAN-FOCUS-SYNC-ID"@ + seq![':']);
    assert("STATUS:"@ =~= "STATUS"@ + seq![':']);
}


/// Text on one line: no carriage return and no line feed.
pub open spec fn single_line(s: Seq<char>) -> bool {
    has_no_cr(s) && has_no_lf(s)
}

proof fn lemma_single_line_concat(a: Seq<char>, b: Seq<char>)
    requires
        single_line(a),
        single_line(b),
    ensures
        single_line(a + b),
{
    assert forall|i: int| 0 <= i < (a + b).len() implies (a + b)[i] != '\r' && (a + b)[i] != '\n' by {
        if i < a.len() {
            assert((a + b)[i] == a[i]);
        } else {
            assert((a + b)[i] == b[i - a.len()]);
        }
    }
}

/// A content line the unfolding keeps as it is.
pub open spec fn kept_line(line: Seq<char>) -> bool {
    &&& line.len() > 0
    &&& !is_continuation_spec(line)
    &&& single_line(line)
}

proof fn lemma_prop_line_kept(p: (Seq<char>, Seq<char>))
    requires
        plain_name(p.0),
        single_line(p.1),
    ensures
        kept_line(prop_line(p)),
        recordable(p) <== (p.0 != seq!['B', 'E', 'G', 'I', 'N'] && p.0 != seq!['E', 'N', 'D']),
{
    assert('A' <= p.0[0] <= 'Z' || p.0[0] == '-');
    assert(prop_line(p)[0] == p.0[0]);
    assert(single_line(p.0)) by {
        assert forall|i: int| 0 <= i < p.0.len() implies p.0[i] != '\r' && p.0[i] != '\n' by {
            assert('A' <= p.0[i] <= 'Z' || p.0[i] == '-');
        }
    }
    assert(single_line(seq![':'])) by {
        assert forall|i: int| 0 <= i < seq![':'].len() implies seq![':'][i] != '\r' && seq![':'][i]
            != '\n' by {
            assert(seq![':'][i] == ':');
        }
    }
    lemma_single_line_concat(p.0, seq![':']);
    lemma_single_line_concat(p.0 + seq![':'], p.1);
}

/// A literal line of the calendar object.
proof fn lemma_literal_kept(line: Seq<char>)
    requires
        line.len() > 0,
        'A' <= line[0] <= 'Z',
        forall|i: int| 0 <= i < line.len() ==> ' ' < #[trigger] line[i] <= '~',
    ensures
        kept_line(line),
{
    assert forall|i: int| 0 <= i < line.len() implies line[i] != '\r' && line[i] != '\n' by {
        assert(' ' < line[i]);
    }
}

/// The description written for a block fits on one line once escaped.
proof fn lemma_description_single_line(block: LocalCalendarBlock)
    requires
        writable_block(block),
    ensures
        has_no_cr(block_description_spec(block)),
{
    lemma_marker_chars();
    let m = block_marker_spec(block.sync_id@);
    let p = marker_prefix();
    let e = schedule_block_entity();
    assert forall|i: int| 0 <= i < m.len() implies m[i] != '\r' by {
        if i < p.len() {
            assert(m[i] == p[i]);
        } else if i < p.len() + e.len() {
            assert(m[i] == e[i - p.len()]);
        } else if i == p.len() + e.len() {
        } else if i < m.len() - 1 {
            assert(m[i] == block.sync_id@[i - p.len() - e.len() - 1]);
        }
    }
    match block.note {
        Some(n) => {
            lemma_trim_keeps_absent(n@, '\r');
            let t = trim_spec(n@);
            if t.len() > 0 {
                let d = t + seq!['\n', '\n'] + m;
                assert forall|i: int| 0 <= i < d.len() implies d[i] != '\r' by {
                    if i < t.len() {
                        assert(d[i] == t[i]);
                    } else if i < t.len() + 2 {
                    } else {
                        assert(d[i] == m[i - t.len() - 2]);
                    }
                }
            }
        },
        None => {},
    }
}


/// The property values written for a block are on one line, and each
/// property line is recorded by the scan.
proof fn lemma_event_props_ok(block: LocalCalendarBlock, start: Seq<char>, end: Seq<char>, stamp: Seq<char>)
    requires
        writable_block(block),
        plain_line(start),
        plain_line(end),
        plain_line(stamp),
    ensures
        forall|i: int| 0 <= i < 8 ==> #[trigger] recordable(event_props(block, start, end, stamp)[i])
            && kept_line(prop_line(event_props(block, start, end, stamp)[i])),
{
    let ps = event_props(block, start, end, stamp);
    lemma_literals();
    lemma_escape_single_line(block.sync_id@);
    lemma_escape_single_line(block.title@);
    lemma_description_single_line(block);
    lemma_escape_single_line(block_description_spec(block));
    reveal_strlit("@kaoyan-focus");
    reveal_strlit("CONFIRMED");
    reveal_strlit("TENTATIVE");
    reveal_strlit("UID");
    reveal_strlit("DTSTAMP");
    reveal_strlit("DTSTART");
    reveal_strlit("DTEND");
    reveal_strlit("SUMMARY");
    reveal_strlit("DESCRIPTION");
    reveal_strlit("X-KAOYAN-FOCUS-SYNC-ID");
    reveal_strlit("STATUS");
    let at = "@kaoyan-focus"@;
    assert(single_line(at)) by {
        assert forall|i: int| 0 <= i < at.len() implies at[i] != '\r' && at[i] != '\n' by {}
    }
    lemma_single_line_concat(escape_ics_spec(block.sync_id@), at);
    assert(single_line(ics_status_spec(block.status@))) by {
        let w = ics_status_spec(block.status@);
        assert forall|i: int| 0 <= i < w.len() implies w[i] != '\r' && w[i] != '\n' by {}
    }
    assert forall|i: int| 0 <= i < 8 implies #[trigger] recordable(ps[i]) && kept_line(prop_line(ps[i])) by {
        assert(plain_name(ps[i].0));
        assert(single_line(ps[i].1));
        assert(ps[i].0 != seq!['B', 'E', 'G', 'I', 'N'] && ps[i].0 != seq!['E', 'N', 'D']) by {
            if ps[i].0 == seq!['B', 'E', 'G', 'I', 'N'] {
                assert(ps[i].0[0] == 'B');
            }
            if ps[i].0 == seq!['E', 'N', 'D'] {
                assert(ps[i].0[0] == 'E');
            }
        }
        lemma_prop_line_kept(ps[i]);
    }
}


/// The lines before the VEVENT.
pub open spec fn header_lines() -> Seq<Seq<char>> {
    seq!["BEGIN:VCALENDAR"@, "VERSION:2.0"@, "PRODID:-//kaoyan-focus//calendar//ZH-CN"@, "CALSCALE:GREGORIAN"@]
}

/// The lines after the VEVENT's properties.
pub open spec fn trailer_lines() -> Seq<Seq<char>> {
    seq!["END:VEVENT"@, "END:VCALENDAR"@]
}

/// The calendar object written for a block, without its final empty line:
/// header, `BEGIN:VEVENT`, the properties, the trailer.
proof fn lemma_event_lines_shape(block: LocalCalendarBlock, start: Seq<char>, end: Seq<char>, stamp: Seq<char>)
    ensures
        ics_event_lines_spec(block, start, end, stamp) == (header_lines() + seq!["BEGIN:VEVENT"@]
            + prop_lines(event_props(block, start, end, stamp)) + trailer_lines()).push(
            Seq::<char>::empty(),
        ),
{
    lemma_literals();
    let ps = event_props(block, start, end, stamp);
    let pl = prop_lines(ps);
    let rhs = (header_lines() + seq!["BEGIN:VEVENT"@] + pl + trailer_lines()).push(Seq::<char>::empty());
    let lhs = ics_event_lines_spec(block, start, end, stamp);
    assert(pl.len() == 8);
    assert(pl[0] == "UID"@ + seq![':'] + (escape_ics_spec(block.sync_id@) + "@kaoyan-focus"@));
    assert(lhs[5] =~= pl[0]);
    assert(lhs[6] =~= pl[1]);
    assert(lhs[7] =~= pl[2]);
    assert(lhs[8] =~= pl[3]);
    assert(lhs[9] =~= pl[4]);
    assert(lhs[10] =~= pl[5]);
    assert(lhs[11] =~= pl[6]);
    assert(lhs[12] =~= pl[7]);
    assert(lhs =~= rhs) by {
        assert forall|i: int| 0 <= i < lhs.len() implies lhs[i] == rhs[i] by {
            if 5 <= i < 13 {
                assert(rhs[i] == pl[i - 5]);
            }
        }
    }
}

/// The header and trailer lines are kept as they are by the unfolding, and
/// the scan passes over the header.
proof fn lemma_frame_lines()
    ensures
        forall|i: int| 0 <= i < header_lines().len() ==> kept_line(#[trigger] header_lines()[i]),
        forall|i: int| 0 <= i < trailer_lines().len() ==> kept_line(#[trigger] trailer_lines()[i]),
        kept_line("BEGIN:VEVENT"@),
        field_scan(FieldScan { in_event: false, done: false, fields: Seq::empty() }, header_lines())
            == (FieldScan { in_event: false, done: false, fields: Seq::empty() }),
{
    reveal_strlit("BEGIN:VCALENDAR");
    reveal_strlit("VERSION:2.0");
    reveal_strlit("PRODID:-//kaoyan-focus//calendar//ZH-CN");
    reveal_strlit("CALSCALE:GREGORIAN");
    reveal_strlit("END:VEVENT");
    reveal_strlit("END:VCALENDAR");
    reveal_strlit("BEGIN:VEVENT");
    lemma_literal_kept("BEGIN:VCALENDAR"@);
    lemma_literal_kept("VERSION:2.0"@);
    lemma_literal_kept("PRODID:-//kaoyan-focus//calendar//ZH-CN"@);
    lemma_literal_kept("CALSCALE:GREGORIAN"@);
    lemma_literal_kept("END:VEVENT"@);
    lemma_literal_kept("END:VCALENDAR"@);
    lemma_literal_kept("BEGIN:VEVENT"@);
    let h = header_lines();
    let st0 = FieldScan { in_event: false, done: false, fields: Seq::<(Seq<char>, Seq<char>)>::empty() };
    assert forall|i: int| 0 <= i < h.len() implies field_scan_step(st0, #[trigger] h[i]) == st0 by {
        lemma_trim_cr_noop(h[i]);
    }
    assert(field_scan(st0, h) == st0) by {
        let h1 = h.drop_first();
        let h2 = h1.drop_first();
        let h3 = h2.drop_first();
        let h4 = h3.drop_first();
        assert(h1[0] == h[1]);
        assert(h2[0] == h[2]);
        assert(h3[0] == h[3]);
        assert(h4.len() == 0);
        assert(field_scan(st0, h4) == st0);
        assert(field_scan(st0, h3) == field_scan(field_scan_step(st0, h3[0]), h4));
        assert(field_scan(st0, h2) == field_scan(field_scan_step(st0, h2[0]), h3));
        assert(field_scan(st0, h1) == field_scan(field_scan_step(st0, h1[0]), h2));
        assert(field_scan(st0, h) == field_scan(field_scan_step(st0, h[0]), h1));
    }
}


/// The fields read from the calendar object written for a block are its
/// properties, in order, with their values unescaped.
pub proof fn lemma_event_fields(block: LocalCalendarBlock, start: Seq<char>, end: Seq<char>, stamp: Seq<char>)
    requires
        writable_block(block),
        plain_line(start),
        plain_line(end),
        plain_line(stamp),
    ensures
        ics_fields_spec(join_spec(ics_event_lines_spec(block, start, end, stamp), "\r\n"@))
            == prop_fields(event_props(block, start, end, stamp)),
{
    let ps = event_props(block, start, end, stamp);
    let pl = prop_lines(ps);
    let begin = seq!["BEGIN:VEVENT"@];
    let content = header_lines() + begin + pl + trailer_lines();
    lemma_event_lines_shape(block, start, end, stamp);
    lemma_event_props_ok(block, start, end, stamp);
    lemma_frame_lines();
    reveal_strlit("\r\n");
    assert("\r\n"@ =~= seq!['\r', '\n']);
    assert forall|i: int| 0 <= i < content.len() implies kept_line(#[trigger] content[i]) by {
        if i < 4 {
            assert(content[i] == header_lines()[i]);
        } else if i == 4 {
            assert(content[i] == "BEGIN:VEVENT"@);
        } else if i < 13 {
            assert(content[i] == pl[i - 5]);
            assert(pl[i - 5] == prop_line(ps[i - 5]));
            assert(recordable(ps[i - 5]));
        } else {
            assert(content[i] == trailer_lines()[i - 13]);
        }
    }
    lemma_written_lines_read_back(content);
    let st0 = FieldScan { in_event: false, done: false, fields: Seq::<(Seq<char>, Seq<char>)>::empty() };
    let st1 = FieldScan { in_event: true, done: false, fields: Seq::<(Seq<char>, Seq<char>)>::empty() };
    let st2 = FieldScan { in_event: true, done: false, fields: prop_fields(ps) };
    let st3 = FieldScan { in_event: true, done: true, fields: prop_fields(ps) };
    reveal_strlit("BEGIN:VEVENT");
    reveal_strlit("END:VEVENT");
    reveal_strlit("END:VCALENDAR");
    lemma_scan_append(st0, header_lines() + begin + pl, trailer_lines());
    lemma_scan_append(st0, header_lines() + begin, pl);
    lemma_scan_append(st0, header_lines(), begin);
    lemma_trim_cr_noop("BEGIN:VEVENT"@);
    assert(field_scan(st0, begin) == field_scan(field_scan_step(st0, begin[0]), begin.drop_first()));
    assert(begin.drop_first().len() == 0);
    assert(field_scan(st0, begin) == st1);
    lemma_scan_props(st1, ps);
    assert(st1.fields + prop_fields(ps) =~= prop_fields(ps));
    let t = trailer_lines();
    lemma_trim_cr_noop("END:VEVENT"@);
    assert(field_scan(st2, t) == field_scan(field_scan_step(st2, t[0]), t.drop_first()));
    assert(field_scan_step(st2, t[0]) == st3);
    assert(t.drop_first().drop_first().len() == 0);
    assert(field_scan(st3, t.drop_first()) == field_scan(field_scan_step(st3, t.drop_first()[0]), t.drop_first().drop_first()));
}


proof fn lemma_names_distinct()
    ensures
        "DTSTAMP"@ != "DTSTART"@,
        "DTSTAMP"@ != "SUMMARY"@,
        "DTSTART"@ != "SUMMARY"@,
        "DTSTAMP"@ != "DTEND"@,
        "DTSTAMP"@ != "DESCRIPTION"@,
        "DTSTAMP"@ != "X-KAOYAN-FOCUS-SYNC-ID"@,
        "DTSTAMP"@ != "STATUS"@,
        "DTSTART"@ != "DTEND"@,
        "DTSTART"@ != "DESCRIPTION"@,
        "DTSTART"@ != "X-KAOYAN-FOCUS-SYNC-ID"@,
        "DTSTART"@ != "STATUS"@,
        "DTEND"@ != "SUMMARY"@,
        "DTEND"@ != "DESCRIPTION"@,
        "DTEND"@ != "X-KAOYAN-FOCUS-SYNC-ID"@,
        "DTEND"@ != "STATUS"@,
        "SUMMARY"@ != "DESCRIPTION"@,
        "SUMMARY"@ != "X-KAOYAN-FOCUS-SYNC-ID"@,
        "SUMMARY"@ != "STATUS"@,
        "DESCRIPTION"@ != "X-KAOYAN-FOCUS-SYNC-ID"@,
        "DESCRIPTION"@ != "STATUS"@,
        "X-KAOYAN-FOCUS-SYNC-ID"@ != "STATUS"@,
        "LAST-MODIFIED"@ != "UID"@,
        "LAST-MODIFIED"@ != "DTSTAMP"@,
        "LAST-MODIFIED"@ != "DTSTART"@,
        "LAST-MODIFIED"@ != "DTEND"@,
        "LAST-MODIFIED"@ != "SUMMARY"@,
        "LAST-MODIFIED"@ != "DESCRIPTION"@,
        "LAST-MODIFIED"@ != "X-KAOYAN-FOCUS-SYNC-ID"@,
        "LAST-MODIFIED"@ != "STATUS"@,
{
    reveal_strlit("UID");
    reveal_strlit("DTSTAMP");
    reveal_strlit("DTSTART");
    reveal_strlit("DTEND");
    reveal_strlit("SUMMARY");
    reveal_strlit("DESCRIPTION");
    reveal_strlit("X-KAOYAN-FOCUS-SYNC-ID");
    reveal_strlit("STATUS");
    reveal_strlit("LAST-MODIFIED");
    assert("DTSTAMP"@[5] != "DTSTART"@[5]);
    assert("DTEND"@.len() == 5);
    assert("DTSTAMP"@.len() == 7);
    assert("DTSTART"@.len() == 7);
    assert("UID"@.len() == 3);
    assert("SUMMARY"@.len() == 7);
    assert("DESCRIPTION"@.len() == 11);
    assert("X-KAOYAN-FOCUS-SYNC-ID"@.len() == 22);
    assert("STATUS"@.len() == 6);
    assert("LAST-MODIFIED"@.len() == 13);
    assert("DTSTAMP"@[0] != "SUMMARY"@[0]);
    assert("DTSTART"@[0] != "SUMMARY"@[0]);
}

/// A block written as a new event reads back as the block: its title, its
/// trimmed note (none when blank), its sync id, the date and minutes of the
/// written DTSTART and DTEND values and the stamp as the change time, for a
/// block the library can write (`writable_block`) and times written as
/// plain text. The times themselves go through `chrono`: the written start
/// and end are what `local_date_minute_to_ics` formats, and what they read
/// back as is `chrono`'s parse of them.
pub proof fn lemma_ics_event_roundtrip(
    block: LocalCalendarBlock,
    start: Seq<char>,
    end: Seq<char>,
    stamp: Seq<char>,
    url: Seq<char>,
    etag: Option<Seq<char>>,
)
    requires
        writable_block(block),
        plain_line(start),
        plain_line(end),
        plain_line(stamp),
    ensures
        parse_ics_event_spec(url, etag, join_spec(ics_event_lines_spec(block, start, end, stamp), "\r\n"@))
            == read_back_spec(block, start, end, stamp, url, etag),
{
    let ics = join_spec(ics_event_lines_spec(block, start, end, stamp), "\r\n"@);
    let ps = event_props(block, start, end, stamp);
    let fields = prop_fields(ps);
    lemma_event_fields(block, start, end, stamp);
    lemma_names_distinct();
    lemma_literals();
    assert(fields.len() == 8);
    assert forall|j: int| 0 <= j < 8 implies (#[trigger] fields[j]).0 == ps[j].0 by {}
    lemma_lookup_at(fields, "SUMMARY"@, 4);
    lemma_lookup_at(fields, "DESCRIPTION"@, 5);
    lemma_lookup_at(fields, "X-KAOYAN-FOCUS-SYNC-ID"@, 6);
    lemma_lookup_at(fields, "DTSTAMP"@, 1);
    lemma_lookup_at(fields, "DTSTART"@, 2);
    lemma_lookup_at(fields, "DTEND"@, 3);
    lemma_lookup_missing(fields, "LAST-MODIFIED"@);
    lemma_escape_roundtrip(block.title@);
    lemma_escape_roundtrip(block.sync_id@);
    lemma_description_single_line(block);
    lemma_escape_roundtrip(block_description_spec(block));
    lemma_unescape_plain(stamp);
    lemma_unescape_plain(start);
    lemma_unescape_plain(end);
    lemma_marker_roundtrip(opt_view(block.note), block.sync_id@);
    match block.note {
        Some(n) => {
            lemma_trim_idempotent(n@);
        },
        None => {},
    }
}

/// A block whose event reads back whole: writable text, a canonical date of
/// the years 0 to 9999, and a start before its end within the day.
pub open spec fn round_trip_block(block: LocalCalendarBlock) -> bool {
    &&& writable_block(block)
    &&& iso_date_shape(block.schedule_date@)
    &&& 0 <= block.start_minute < block.end_minute < 1440
}

/// A parsed calendar object that is the block's event, as fetched from `url`
/// with `etag`: its title, trimmed note (none when blank), date, minutes and
/// sync marker are the block's.
pub open spec fn reads_back_as_block(
    block: LocalCalendarBlock,
    url: Seq<char>,
    etag: Option<Seq<char>>,
    parsed: Result<Option<RemoteEventView>, Seq<char>>,
) -> bool {
    &&& parsed matches Ok(Some(ev))
    &&& parsed->Ok_0->Some_0.id == url
    &&& parsed->Ok_0->Some_0.etag == etag
    &&& parsed->Ok_0->Some_0.title == block.title@
    &&& parsed->Ok_0->Some_0.note == normalize_optional_spec(opt_view(block.note))
    &&& parsed->Ok_0->Some_0.schedule_date == block.schedule_date@
    &&& parsed->Ok_0->Some_0.start_minute == block.start_minute as int
    &&& parsed->Ok_0->Some_0.end_minute == block.end_minute as int
    &&& parsed->Ok_0->Some_0.marker_sync_id == Some(block.sync_id@)
}

/// The times a block's event is written with read back as its date and
/// minutes (see `time_reads_back`), so the event reads back as the block.
pub proof fn lemma_built_event_is_block(
    block: LocalCalendarBlock,
    stamp: Seq<char>,
    ics: Seq<char>,
    url: Seq<char>,
    etag: Option<Seq<char>>,
)
    requires
        build_ics_event_spec(block, stamp) == Ok::<Seq<char>, Seq<char>>(ics),
        round_trip_block(block),
        plain_line(stamp),
        times_written_plain(block),
        time_reads_back(block.schedule_date@, block.start_minute as int),
        time_reads_back(block.schedule_date@, block.end_minute as int),
    ensures
        reads_back_as_block(block, url, etag, parse_ics_event_spec(url, etag, ics)),
{
    lemma_built_event_reads_back(block, stamp, ics, url, etag);
}

/// The calendar object `build_ics_event` writes for a block reads back as the
/// block (see `lemma_ics_event_roundtrip`): title, trimmed note, sync id, and
/// the date and minutes `chrono` reads from the times it wrote. The library
/// writes plain times and stamps (`build_ics_event_with_stamp` and
/// `build_ics_event` ensure `times_written_plain` and a plain stamp).
pub proof fn lemma_built_event_reads_back(
    block: LocalCalendarBlock,
    stamp: Seq<char>,
    ics: Seq<char>,
    url: Seq<char>,
    etag: Option<Seq<char>>,
)
    requires
        build_ics_event_spec(block, stamp) == Ok::<Seq<char>, Seq<char>>(ics),
        writable_block(block),
        plain_line(stamp),
        times_written_plain(block),
    ensures
        parse_ics_event_spec(url, etag, ics) == read_back_spec(
            block,
            local_date_minute_to_ics_spec(block.schedule_date@, block.start_minute as int)->Ok_0,
            local_date_minute_to_ics_spec(block.schedule_date@, block.end_minute as int)->Ok_0,
            stamp,
            url,
            etag,
        ),
{
    let start = local_date_minute_to_ics_spec(block.schedule_date@, block.start_minute as int)->Ok_0;
    let end = local_date_minute_to_ics_spec(block.schedule_date@, block.end_minute as int)->Ok_0;
    lemma_ics_event_roundtrip(block, start, end, stamp, url, etag);
}


/// Normalised text holds no carriage return.
proof fn lemma_normalize_drops_cr(s: Seq<char>)
    ensures
        has_no_cr(normalize_newlines_spec(s)),
    decreases s.len(),
{
    if s.len() > 0 {
        let head = if s.len() >= 2 && s[0] == '\r' && s[1] == '\n' {
            lemma_normalize_drops_cr(s.skip(2));
            seq!['\n']
        } else if s[0] == '\r' {
            lemma_normalize_drops_cr(s.skip(1));
            seq!['\n']
        } else {
            lemma_normalize_drops_cr(s.skip(1));
            seq![s[0]]
        };
        let rest = if s.len() >= 2 && s[0] == '\r' && s[1] == '\n' {
            normalize_newlines_spec(s.skip(2))
        } else {
            normalize_newlines_spec(s.skip(1))
        };
        assert(normalize_newlines_spec(s) == head + rest);
        assert forall|i: int| 0 <= i < (head + rest).len() implies (head + rest)[i] != '\r' by {
            if i >= head.len() {
                assert((head + rest)[i] == rest[i - head.len()]);
            }
        }
    }
}

/// The lines of an ICS text are not empty and hold no line break.
pub proof fn lemma_split_lines_plain(s: Seq<char>)
    ensures
        forall|i: int| 0 <= i < split_ics_lines_spec(s).len() ==> (#[trigger] split_ics_lines_spec(s)[i]).len() > 0
            && single_line(split_ics_lines_spec(s)[i]),
{
    let n = normalize_newlines_spec(s);
    lemma_normalize_drops_cr(s);
    let parts = split_char_spec(n, '\n');
    crate::text::lemma_split_parts_lack(n, '\n', '\r');
    crate::text::lemma_split_parts_lack_sep(n, '\n');
    let pred = |l: Seq<char>| l.len() > 0;
    assert forall|i: int| 0 <= i < split_ics_lines_spec(s).len() implies (#[trigger] split_ics_lines_spec(
        s,
    )[i]).len() > 0 && single_line(split_ics_lines_spec(s)[i]) by {
        let l = split_ics_lines_spec(s)[i];
        parts.lemma_filter_pred(pred, i);
        parts.lemma_filter_contains_rev(pred, l);
        assert(parts.filter(pred).contains(l));
        let k = choose|k: int| 0 <= k < parts.len() && parts[k] == l;
        assert forall|j: int| 0 <= j < l.len() implies l[j] != '\r' && l[j] != '\n' by {
            assert(parts[k][j] == l[j]);
        }
    }
}

/// Lines that are not empty and hold no line break, written with CRLF,
/// read back as the same lines.
pub proof fn lemma_normalized_lines_read_back(lines: Seq<Seq<char>>)
    requires
        forall|i: int| 0 <= i < lines.len() ==> (#[trigger] lines[i]).len() > 0 && single_line(lines[i]),
    ensures
        split_ics_lines_spec(normalize_ics_lines_spec(lines)) == lines,
    decreases lines.len(),
{
    let all = lines.push(Seq::<char>::empty());
    assert forall|i: int| 0 <= i < all.len() implies has_no_cr(#[trigger] all[i]) && has_no_lf(all[i]) by {
        if i < lines.len() {
            assert(all[i] == lines[i]);
        } else {
            assert(all[i] == Seq::<char>::empty());
        }
    }
    lemma_normalize_join(all);
    lemma_split_join(all);
    lemma_filter_nonempty(lines);
}

proof fn lemma_filter_nonempty(lines: Seq<Seq<char>>)
    requires
        forall|i: int| 0 <= i < lines.len() ==> (#[trigger] lines[i]).len() > 0,
    ensures
        lines.push(Seq::<char>::empty()).filter(|l: Seq<char>| l.len() > 0) == lines,
    decreases lines.len(),
{
    let pred = |l: Seq<char>| l.len() > 0;
    reveal(Seq::filter);
    let all = lines.push(Seq::<char>::empty());
    assert(all.drop_last() =~= lines);
    assert(all.filter(pred) == lines.filter(pred));
    lemma_filter_all(lines);
}

proof fn lemma_filter_all(lines: Seq<Seq<char>>)
    requires
        forall|i: int| 0 <= i < lines.len() ==> (#[trigger] lines[i]).len() > 0,
    ensures
        lines.filter(|l: Seq<char>| l.len() > 0) == lines,
    decreases lines.len(),
{
    reveal(Seq::filter);
    if lines.len() > 0 {
        let d = lines.drop_last();
        assert forall|i: int| 0 <= i < d.len() implies (#[trigger] d[i]).len() > 0 by {
            assert(d[i] == lines[i]);
        }
        lemma_filter_all(d);
        assert(lines.last().len() > 0);
        assert(d.push(lines.last()) =~= lines);
    }
}

/// Some written line is a UID line that came from the source lines.
pub open spec fn keeps_uid_line(result: Seq<Seq<char>>, source: Seq<Seq<char>>) -> bool {
    exists|j: int|
        0 <= j < result.len() && ics_property_name_spec(#[trigger] result[j]) == Some("UID"@)
            && source.contains(result[j])
}

proof fn lemma_uid_witness_grows(result: Seq<Seq<char>>, more: Seq<Seq<char>>, source: Seq<Seq<char>>)
    requires
        keeps_uid_line(result, source),
    ensures
        keeps_uid_line(result + more, source),
{
    let j = choose|j: int|
        0 <= j < result.len() && ics_property_name_spec(#[trigger] result[j]) == Some("UID"@)
            && source.contains(result[j]);
    assert((result + more)[j] == result[j]);
}

/// One line of the rewrite keeps a UID line once one was seen, when no UID
/// property is replaced.
proof fn lemma_rewrite_step_keeps_uid(
    props: Seq<(Seq<char>, Seq<char>)>,
    st: RewriteScan,
    line: Seq<char>,
    source: Seq<Seq<char>>,
)
    requires
        !replaces_name(props, "UID"@),
        source.contains(line),
        st.saw_uid ==> keeps_uid_line(st.result, source),
    ensures
        rewrite_step(props, st, line).saw_uid ==> keeps_uid_line(rewrite_step(props, st, line).result, source),
        rewrite_step(props, st, line).saw_uid == (st.saw_uid || (st.in_event && !(st.skipping && is_continuation_spec(line))
            && ics_property_name_spec(line) == Some("UID"@) && !(trim_end_char_spec(line, '\r')
            == "BEGIN:VEVENT"@ && !st.event_done) && !(trim_end_char_spec(line, '\r') == "END:VEVENT"@))),
{
    let next = rewrite_step(props, st, line);
    if st.saw_uid {
        if next.result != st.result {
            if next.result == st.result.push(line) {
                lemma_uid_witness_grows(st.result, seq![line], source);
                assert(st.result + seq![line] =~= st.result.push(line));
            } else {
                let more = property_lines(props).push(line);
                lemma_uid_witness_grows(st.result, more, source);
                assert(st.result + more =~= (st.result + property_lines(props)).push(line));
            }
        }
    }
    if next.saw_uid && !st.saw_uid {
        assert(next.result == st.result.push(line));
        let r = st.result.push(line);
        assert(r[st.result.len() as int] == line);
    }
}

proof fn lemma_rewrite_fold_keeps_uid(
    props: Seq<(Seq<char>, Seq<char>)>,
    st: RewriteScan,
    lines: Seq<Seq<char>>,
    source: Seq<Seq<char>>,
)
    requires
        !replaces_name(props, "UID"@),
        forall|i: int| 0 <= i < lines.len() ==> source.contains(#[trigger] lines[i]),
        st.saw_uid ==> keeps_uid_line(st.result, source),
    ensures
        rewrite_fold(props, st, lines).saw_uid ==> keeps_uid_line(rewrite_fold(props, st, lines).result, source),
    decreases lines.len(),
{
    if lines.len() > 0 {
        assert(source.contains(lines[0]));
        lemma_rewrite_step_keeps_uid(props, st, lines[0], source);
        let rest = lines.drop_first();
        assert forall|i: int| 0 <= i < rest.len() implies source.contains(#[trigger] rest[i]) by {
            assert(rest[i] == lines[i + 1]);
        }
        lemma_rewrite_fold_keeps_uid(props, rewrite_step(props, st, lines[0]), rest, source);
    }
}

/// Rewriting the properties of an existing event (an update from the local
/// block, or the sync marker written into an imported event) keeps the
/// event's UID: when the rewrite succeeds and replaces no UID property, one
/// of the lines of the result is a UID line of the remote object, so the
/// server keeps seeing the same event. The new property lines must be single
/// lines for the result to read back line by line.
pub proof fn lemma_rewrite_keeps_uid(raw: Seq<char>, props: Seq<(Seq<char>, Seq<char>)>, out: Seq<char>)
    requires
        rewrite_first_vevent_spec(raw, props) == Ok::<Seq<char>, Seq<char>>(out),
        !replaces_name(props, "UID"@),
        forall|i: int| 0 <= i < props.len() ==> single_line(#[trigger] props[i].0) && single_line(props[i].1),
    ensures
        keeps_uid_line(split_ics_lines_spec(out), split_ics_lines_spec(raw)),
{
    let source = split_ics_lines_spec(raw);
    assert forall|i: int| 0 <= i < source.len() implies source.contains(#[trigger] source[i]) by {}
    lemma_rewrite_fold_keeps_uid(props, rewrite_initial(), source, source);
    let st = rewrite_fold(props, rewrite_initial(), source);
    assert(st.saw_uid);
    assert(keeps_uid_line(st.result, source));
    lemma_split_lines_plain(raw);
    lemma_result_lines_plain(props, rewrite_initial(), source);
    lemma_normalized_lines_read_back(st.result);
}

/// The written lines are all single, non-empty lines: those kept from the
/// source and the new property lines.
proof fn lemma_result_lines_plain(
    props: Seq<(Seq<char>, Seq<char>)>,
    st: RewriteScan,
    lines: Seq<Seq<char>>,
)
    requires
        forall|i: int| 0 <= i < props.len() ==> single_line(#[trigger] props[i].0) && single_line(props[i].1),
        forall|i: int| 0 <= i < lines.len() ==> (#[trigger] lines[i]).len() > 0 && single_line(lines[i]),
        forall|i: int| 0 <= i < st.result.len() ==> (#[trigger] st.result[i]).len() > 0 && single_line(st.result[i]),
    ensures
        ({
            let r = rewrite_fold(props, st, lines).result;
            forall|i: int| 0 <= i < r.len() ==> (#[trigger] r[i]).len() > 0 && single_line(r[i])
        }),
    decreases lines.len(),
{
    if lines.len() > 0 {
        let line = lines[0];
        assert(line.len() > 0 && single_line(line));
        let next = rewrite_step(props, st, line);
        let pl = property_lines(props);
        assert forall|i: int| 0 <= i < pl.len() implies (#[trigger] pl[i]).len() > 0 && single_line(pl[i]) by {
            let p = props[i];
            assert(pl[i] == property_line_spec(p));
            assert(single_line(p.0) && single_line(p.1));
            let u = upper_spec(p.0);
            assert forall|j: int| 0 <= j < u.len() implies u[j] != '\r' && u[j] != '\n' by {
                assert(u[j] == upper_char(p.0[j]));
            }
            assert(single_line(seq![':'])) by {
                assert forall|j: int| 0 <= j < seq![':'].len() implies seq![':'][j] != '\r' && seq![':'][j]
                    != '\n' by {
                    assert(seq![':'][j] == ':');
                }
            }
            lemma_single_line_concat(u, seq![':']);
            lemma_single_line_concat(u + seq![':'], p.1);
        }
        assert forall|i: int| 0 <= i < next.result.len() implies (#[trigger] next.result[i]).len() > 0
            && single_line(next.result[i]) by {
            if i < st.result.len() {
                if next.result == st.result.push(line) {
                    assert(next.result[i] == st.result[i]);
                } else if next.result != st.result {
                    assert(next.result == (st.result + pl).push(line));
                    assert(next.result[i] == st.result[i]);
                }
            } else if next.result == st.result.push(line) {
                assert(next.result[i] == line);
            } else if next.result != st.result {
                assert(next.result == (st.result + pl).push(line));
                if i < st.result.len() + pl.len() {
                    assert(next.result[i] == pl[i - st.result.len()]);
                } else {
                    assert(next.result[i] == line);
                }
            }
        }
        let rest = lines.drop_first();
        assert forall|i: int| 0 <= i < rest.len() implies (#[trigger] rest[i]).len() > 0 && single_line(rest[i]) by {
            assert(rest[i] == lines[i + 1]);
        }
        lemma_result_lines_plain(props, next, rest);
        assert(rewrite_fold(props, st, lines) == rewrite_fold(props, next, rest));
        let r = rewrite_fold(props, st, lines).result;
        assert forall|i: int| 0 <= i < r.len() implies (#[trigger] r[i]).len() > 0 && single_line(r[i]) by {
            assert(r[i] == rewrite_fold(props, next, rest).result[i]);
        }
    }
}

/// The scan of a text's logical lines starts outside any event.
pub open spec fn scan_start() -> FieldScan {
    FieldScan { in_event: false, done: false, fields: Seq::empty() }
}

/// `fields` ends with `tail`.
pub open spec fn ends_with_fields(fields: Seq<(Seq<char>, Seq<char>)>, tail: Seq<(Seq<char>, Seq<char>)>) -> bool {
    &&& fields.len() >= tail.len()
    &&& fields.subrange(fields.len() - tail.len(), fields.len() as int) == tail
}

/// Lines in which no `END:VEVENT` comes before the first `BEGIN:VEVENT`.
pub open spec fn no_end_before_begin(lines: Seq<Seq<char>>) -> bool
    decreases lines.len(),
{
    if lines.len() == 0 {
        true
    } else if lines[0] == "BEGIN:VEVENT"@ {
        true
    } else if lines[0] == "END:VEVENT"@ {
        false
    } else {
        no_end_before_begin(lines.drop_first())
    }
}


/// Properties the scan records as written, each on a plain content line.
pub open spec fn props_ok(props: Seq<(Seq<char>, Seq<char>)>) -> bool {
    forall|i: int| 0 <= i < props.len() ==> recordable(#[trigger] props[i]) && kept_line(prop_line(props[i]))
}

/// How the scan of the lines the rewrite has written so far follows the
/// rewrite: before the first event neither has started, inside it the scan
/// records, and once the new properties are written the scan has stopped
/// right after recording them. Every written line is a plain content line.
pub open spec fn scan_follows(props: Seq<(Seq<char>, Seq<char>)>, st: RewriteScan) -> bool {
    let fs = field_scan(scan_start(), st.result);
    &&& (!st.in_event && !st.event_done) ==> (!fs.in_event && !fs.done)
    &&& st.in_event ==> (fs.in_event && !fs.done && !st.event_done)
    &&& st.event_done ==> (fs.done && !st.in_event && ends_with_fields(fs.fields, prop_fields(props)))
    &&& st.inserted ==> st.event_done
    &&& forall|j: int| 0 <= j < st.result.len() ==> kept_line(#[trigger] st.result[j])
}

proof fn lemma_plain_upper(name: Seq<char>)
    requires
        plain_name(name),
    ensures
        upper_spec(name) == name,
{
    assert(upper_spec(name) =~= name) by {
        assert forall|i: int| 0 <= i < name.len() implies upper_spec(name)[i] == name[i] by {
            assert(upper_spec(name)[i] == upper_char(name[i]));
            assert('A' <= name[i] <= 'Z' || name[i] == '-');
        }
    }
}

/// The scan of lines with one more line is one more step.
proof fn lemma_scan_push(st: FieldScan, r: Seq<Seq<char>>, line: Seq<char>)
    ensures
        field_scan(st, r.push(line)) == field_scan_step(field_scan(st, r), line),
{
    lemma_scan_append(st, r, seq![line]);
    assert(r.push(line) =~= r + seq![line]);
    let x = field_scan(st, r);
    assert(seq![line].drop_first() =~= Seq::<Seq<char>>::empty());
    assert(field_scan(x, seq![line]) == field_scan(field_scan_step(x, line), seq![line].drop_first()));
}

/// One line of the rewrite keeps the scan following it.
proof fn lemma_rewrite_scan_step(props: Seq<(Seq<char>, Seq<char>)>, st: RewriteScan, line: Seq<char>)
    requires
        props_ok(props),
        scan_follows(props, st),
        kept_line(line),
        !st.in_event && !st.event_done ==> line != "END:VEVENT"@,
    ensures
        scan_follows(props, rewrite_step(props, st, line)),
{
    let fs = field_scan(scan_start(), st.result);
    let next = rewrite_step(props, st, line);
    assert(line.last() != '\r');
    lemma_trim_cr_noop(line);
    let pl = property_lines(props);
    assert(pl =~= prop_lines(props)) by {
        assert forall|i: int| 0 <= i < props.len() implies pl[i] == prop_lines(props)[i] by {
            assert(recordable(props[i]));
            lemma_plain_upper(props[i].0);
        }
    }
    if !st.event_done && line == "BEGIN:VEVENT"@ {
        lemma_scan_push(scan_start(), st.result, line);
    } else if st.in_event && line == "END:VEVENT"@ {
        lemma_scan_append(scan_start(), st.result, pl);
        lemma_scan_props(fs, props);
        let fs1 = FieldScan { fields: fs.fields + prop_fields(props), ..fs };
        lemma_scan_push(scan_start(), st.result + pl, line);
        assert(next.result == (st.result + pl).push(line));
        let f = fs1.fields;
        assert(f.subrange(f.len() - prop_fields(props).len(), f.len() as int) =~= prop_fields(props));
        assert forall|j: int| 0 <= j < next.result.len() implies kept_line(#[trigger] next.result[j]) by {
            if j < st.result.len() {
                assert(next.result[j] == st.result[j]);
            } else if j < st.result.len() + pl.len() {
                assert(next.result[j] == pl[j - st.result.len()]);
                assert(kept_line(prop_line(props[j - st.result.len()])));
            } else {
                assert(next.result[j] == line);
            }
        }
    } else if st.in_event && ics_property_name_spec(line) is Some {
        if !replaces_name(props, ics_property_name_spec(line)->0) {
            lemma_scan_push(scan_start(), st.result, line);
            assert forall|j: int| 0 <= j < next.result.len() implies kept_line(#[trigger] next.result[j]) by {
                if j < st.result.len() {
                    assert(next.result[j] == st.result[j]);
                }
            }
        }
    } else {
        lemma_scan_push(scan_start(), st.result, line);
        assert forall|j: int| 0 <= j < next.result.len() implies kept_line(#[trigger] next.result[j]) by {
            if j < st.result.len() {
                assert(next.result[j] == st.result[j]);
            }
        }
    }
}

/// A block written over an existing remote object (`build_ics_update_spec`)
/// reads back as the block: title, trimmed note (none when blank), sync id,
/// date and minutes, whatever else the remote object holds, for a remote
/// object folded only inside property values (`foldable_remote_object`) and
/// written times that read back as the block's date and minutes.
pub proof fn lemma_update_reads_back(
    block: LocalCalendarBlock,
    start: Seq<char>,
    end: Seq<char>,
    stamp: Seq<char>,
    raw: Seq<char>,
    out: Seq<char>,
    url: Seq<char>,
    etag: Option<Seq<char>>,
)
    requires
        rewrite_first_vevent_spec(raw, block_properties_spec(block, start, end, stamp)) == Ok::<
            Seq<char>,
            Seq<char>,
        >(out),
        foldable_remote_object(raw),
        writable_block(block),
        plain_line(start),
        plain_line(end),
        plain_line(stamp),
        ics_date_minute_spec(start) == Ok::<(Seq<char>, int), Seq<char>>(
            (block.schedule_date@, block.start_minute as int),
        ),
        ics_date_minute_spec(end) == Ok::<(Seq<char>, int), Seq<char>>(
            (block.schedule_date@, block.end_minute as int),
        ),
        block.start_minute < block.end_minute,
    ensures
        reads_back_as_block(block, url, etag, parse_ics_event_spec(url, etag, out)),
{
    let ps = event_props(block, start, end, stamp);
    let bp = block_properties_spec(block, start, end, stamp);
    assert(bp =~= ps.drop_first());
    lemma_event_props_ok(block, start, end, stamp);
    assert(props_ok(bp)) by {
        assert forall|i: int| 0 <= i < bp.len() implies recordable(#[trigger] bp[i]) && kept_line(
            prop_line(bp[i]),
        ) by {
            assert(bp[i] == ps[i + 1]);
        }
    }
    lemma_update_fields(raw, bp, out);
    let fields = ics_fields_spec(out);
    let pf = prop_fields(bp);
    let n = fields.len() as int;
    let b = n - 7;
    assert(pf.len() == 7);
    assert forall|j: int| b <= j < n implies #[trigger] fields[j] == pf[j - b] by {
        assert(fields.subrange(b, n)[j - b] == fields[j]);
    }
    lemma_names_distinct();
    lemma_literals();
    assert forall|k: int| 0 <= k < 7 implies (#[trigger] pf[k]).0 == bp[k].0 by {}
    lemma_lookup_at(fields, "SUMMARY"@, b + 3);
    lemma_lookup_at(fields, "DESCRIPTION"@, b + 4);
    lemma_lookup_at(fields, "X-KAOYAN-FOCUS-SYNC-ID"@, b + 5);
    lemma_lookup_at(fields, "DTSTART"@, b + 1);
    lemma_lookup_at(fields, "DTEND"@, b + 2);
    lemma_escape_roundtrip(block.title@);
    lemma_escape_roundtrip(block.sync_id@);
    lemma_description_single_line(block);
    lemma_escape_roundtrip(block_description_spec(block));
    lemma_unescape_plain(start);
    lemma_unescape_plain(end);
    lemma_marker_roundtrip(opt_view(block.note), block.sync_id@);
    match block.note {
        Some(n) => {
            lemma_trim_idempotent(n@);
        },
        None => {},
    }
}

/// A parsed calendar object, when it is an event, carries the sync marker.
pub open spec fn carries_marker(sync_id: Seq<char>, parsed: Result<Option<RemoteEventView>, Seq<char>>) -> bool {
    parsed matches Ok(Some(ev)) ==> ev.marker_sync_id == Some(sync_id)
}

/// The sync marker written into an imported remote object folded only
/// inside property values reads back as the marker of its event, and the object still has an
/// event to read.
pub proof fn lemma_marker_write_reads_back(
    raw: Seq<char>,
    sync_id: Seq<char>,
    out: Seq<char>,
    url: Seq<char>,
    etag: Option<Seq<char>>,
)
    requires
        rewrite_first_vevent_spec(raw, sync_marker_properties(sync_id)) == Ok::<Seq<char>, Seq<char>>(out),
        foldable_remote_object(raw),
        has_no_cr(sync_id),
    ensures
        carries_marker(sync_id, parse_ics_event_spec(url, etag, out)),
        parse_ics_event_spec(url, etag, out) != Ok::<Option<RemoteEventView>, Seq<char>>(None),
{
    let props = sync_marker_properties(sync_id);
    let p = props[0];
    lemma_literals();
    lemma_escape_single_line(sync_id);
    assert(single_line(p.1));
    lemma_prop_line_kept(p);
    reveal_strlit("X-KAOYAN-FOCUS-SYNC-ID");
    assert(p.0 != seq!['B', 'E', 'G', 'I', 'N']) by {
        assert(p.0.len() != 5);
    }
    assert(p.0 != seq!['E', 'N', 'D']) by {
        assert(p.0.len() != 3);
    }
    assert(props_ok(props));
    lemma_update_fields(raw, props, out);
    let fields = ics_fields_spec(out);
    let n = fields.len() as int;
    assert(fields.subrange(n - 1, n)[0] == fields[n - 1]);
    assert(fields[n - 1] == prop_fields(props)[0]);
    lemma_lookup_at(fields, "X-KAOYAN-FOCUS-SYNC-ID"@, n - 1);
    lemma_escape_roundtrip(sync_id);
}

/// `a` is a prefix of `b`.
pub open spec fn prefix_of(a: Seq<char>, b: Seq<char>) -> bool {
    a.len() <= b.len() && b.subrange(0, a.len() as int) == a
}

/// A content line whose folding keeps its meaning: it holds the `:` that
/// ends its name, and no continuation can make it `BEGIN:VEVENT` or
/// `END:VEVENT`.
pub open spec fn fold_stable(line: Seq<char>) -> bool {
    &&& find_char_spec(line, ':') is Some
    &&& !prefix_of(line, "BEGIN:VEVENT"@)
    &&& !prefix_of(line, "END:VEVENT"@)
}

/// Lines folded only inside property values: a line that a continuation
/// line follows is itself a continuation or is `fold_stable`.
pub open spec fn folds_in_values(lines: Seq<Seq<char>>) -> bool {
    forall|i: int|
        0 <= i < lines.len() - 1 && is_continuation_spec(#[trigger] lines[i + 1]) ==> is_continuation_spec(lines[i])
            || fold_stable(lines[i])
}

/// A remote calendar object whose update reads back through its folded
/// lines: folded only inside property values, and no `END:VEVENT` before its
/// first `BEGIN:VEVENT`.
pub open spec fn foldable_remote_object(raw: Seq<char>) -> bool {
    &&& folds_in_values(split_ics_lines_spec(raw))
    &&& no_end_before_begin(split_ics_lines_spec(raw))
}

proof fn lemma_find_char_bounds(s: Seq<char>, c: char, i: int)
    requires
        find_char_from(s, c, i) is Some,
    ensures
        i <= find_char_from(s, c, i)->0 < s.len(),
        s[find_char_from(s, c, i)->0] == c,
    decreases s.len() - i,
{
    if 0 <= i < s.len() && s[i] != c {
        lemma_find_char_bounds(s, c, i + 1);
    }
}

proof fn lemma_find_char_extend(s: Seq<char>, t: Seq<char>, c: char, i: int)
    requires
        0 <= i,
        find_char_from(s, c, i) is Some,
    ensures
        find_char_from(s + t, c, i) == find_char_from(s, c, i),
    decreases s.len() - i,
{
    if i < s.len() {
        assert((s + t)[i] == s[i]);
        if s[i] != c {
            lemma_find_char_extend(s, t, c, i + 1);
        }
    }
}

/// Extending a stable line keeps it stable, its name, and its first
/// character.
proof fn lemma_fold_stable_extend(line: Seq<char>, more: Seq<char>)
    requires
        fold_stable(line),
        line.len() > 0,
    ensures
        fold_stable(line + more),
        ics_property_name_spec(line + more) == ics_property_name_spec(line),
        is_continuation_spec(line + more) == is_continuation_spec(line),
{
    let e = line + more;
    lemma_find_char_extend(line, more, ':', 0);
    let k = find_char_spec(line, ':')->0;
    lemma_find_char_bounds(line, ':', 0);
    assert(e[0] == line[0]);
    assert(e.subrange(0, k) =~= line.subrange(0, k));
    if prefix_of(e, "BEGIN:VEVENT"@) {
        assert("BEGIN:VEVENT"@.subrange(0, line.len() as int) =~= line) by {
            assert forall|j: int| 0 <= j < line.len() implies "BEGIN:VEVENT"@.subrange(0, line.len() as int)[j]
                == line[j] by {
                assert("BEGIN:VEVENT"@.subrange(0, e.len() as int)[j] == e[j]);
            }
        }
    }
    if prefix_of(e, "END:VEVENT"@) {
        assert("END:VEVENT"@.subrange(0, line.len() as int) =~= line) by {
            assert forall|j: int| 0 <= j < line.len() implies "END:VEVENT"@.subrange(0, line.len() as int)[j]
                == line[j] by {
                assert("END:VEVENT"@.subrange(0, e.len() as int)[j] == e[j]);
            }
        }
    }
}

/// A stable line is neither `BEGIN:VEVENT` nor `END:VEVENT`.
proof fn lemma_fold_stable_not_frame(line: Seq<char>)
    requires
        fold_stable(line),
    ensures
        line != "BEGIN:VEVENT"@,
        line != "END:VEVENT"@,
{
    if line == "BEGIN:VEVENT"@ {
        assert("BEGIN:VEVENT"@.subrange(0, line.len() as int) =~= line);
    }
    if line == "END:VEVENT"@ {
        assert("END:VEVENT"@.subrange(0, line.len() as int) =~= line);
    }
}

/// The rewrite treats a stable line and any extension of it alike: both are
/// dropped, or each is written as it is, with the same flags.
proof fn lemma_rewrite_step_extend(
    props: Seq<(Seq<char>, Seq<char>)>,
    st: RewriteScan,
    line: Seq<char>,
    more: Seq<char>,
)
    requires
        fold_stable(line),
        kept_line(line),
        single_line(more),
    ensures
        ({
            let a = rewrite_step(props, st, line);
            let b = rewrite_step(props, st, line + more);
            &&& a.in_event == b.in_event
            &&& a.event_done == b.event_done
            &&& a.skipping == b.skipping
            &&& a.saw_uid == b.saw_uid
            &&& a.inserted == b.inserted
            &&& (a.result == st.result && b.result == st.result) || (a.result == st.result.push(line)
                && b.result == st.result.push(line + more))
            &&& a.skipping <==> a.result == st.result
        }),
{
    let e = line + more;
    lemma_fold_stable_extend(line, more);
    lemma_fold_stable_not_frame(line);
    lemma_fold_stable_not_frame(e);
    lemma_single_line_concat(line, more);
    assert(line.last() != '\r');
    assert(e.last() != '\r');
    lemma_trim_cr_noop(line);
    lemma_trim_cr_noop(e);
}

proof fn lemma_trim_start_single(s: Seq<char>)
    requires
        single_line(s),
    ensures
        single_line(trim_start_spec(s)),
    decreases s.len(),
{
    if s.len() > 0 && is_ws(s[0]) {
        let t = s.drop_first();
        assert forall|i: int| 0 <= i < t.len() implies t[i] != '\r' && t[i] != '\n' by {
            assert(t[i] == s[i + 1]);
        }
        lemma_trim_start_single(t);
    }
}

proof fn lemma_unfold_append(acc: Seq<Seq<char>>, a: Seq<Seq<char>>, b: Seq<Seq<char>>)
    ensures
        unfold_fold(acc, a + b) == unfold_fold(unfold_fold(acc, a), b),
    decreases a.len(),
{
    if a.len() > 0 {
        assert((a + b)[0] == a[0]);
        assert((a + b).drop_first() =~= a.drop_first() + b);
        lemma_unfold_append(unfold_step(acc, a[0]), a.drop_first(), b);
    } else {
        assert(a + b =~= b);
    }
}

proof fn lemma_unfold_push(acc: Seq<Seq<char>>, a: Seq<Seq<char>>, x: Seq<char>)
    ensures
        unfold_fold(acc, a.push(x)) == unfold_step(unfold_fold(acc, a), x),
{
    lemma_unfold_append(acc, a, seq![x]);
    assert(a.push(x) =~= a + seq![x]);
    let u = unfold_fold(acc, a);
    assert(seq![x].drop_first() =~= Seq::<Seq<char>>::empty());
    assert(unfold_fold(u, seq![x]) == unfold_fold(unfold_step(u, x), seq![x].drop_first()));
}

/// The rewrite state on the logical lines: the state before the pending
/// (still growing) logical line, and that line's step.
pub open spec fn current_state(props: Seq<(Seq<char>, Seq<char>)>, before: RewriteScan, pending: Option<Seq<char>>) -> RewriteScan {
    match pending {
        None => before,
        Some(l) => rewrite_step(props, before, l),
    }
}

/// The rewrite of the raw lines, read through unfolding, is the rewrite of
/// the logical lines, with the same flags, and the scan follows the latter.
pub open spec fn unfolded_rewrite(
    props: Seq<(Seq<char>, Seq<char>)>,
    raw_state: RewriteScan,
    before: RewriteScan,
    pending: Option<Seq<char>>,
) -> bool {
    let cur = current_state(props, before, pending);
    &&& unfold_fold(Seq::empty(), raw_state.result) == cur.result
    &&& raw_state.in_event == cur.in_event
    &&& raw_state.event_done == cur.event_done
    &&& raw_state.skipping == cur.skipping
    &&& raw_state.saw_uid == cur.saw_uid
    &&& raw_state.inserted == cur.inserted
    &&& scan_follows(props, cur)
    &&& pending is None ==> before == rewrite_initial()
    &&& pending matches Some(l) ==> kept_line(l) && scan_follows(props, before)
}

proof fn lemma_unfolded_rewrite(
    props: Seq<(Seq<char>, Seq<char>)>,
    raw_state: RewriteScan,
    before: RewriteScan,
    pending: Option<Seq<char>>,
    rest: Seq<Seq<char>>,
)
    requires
        props_ok(props),
        unfolded_rewrite(props, raw_state, before, pending),
        forall|i: int| 0 <= i < rest.len() ==> (#[trigger] rest[i]).len() > 0 && single_line(rest[i]),
        folds_in_values(rest),
        !raw_state.in_event && !raw_state.event_done ==> no_end_before_begin(rest),
        pending matches Some(l) ==> (rest.len() > 0 && is_continuation_spec(rest[0]) ==> fold_stable(l)),
    ensures
        exists|b: RewriteScan, p: Option<Seq<char>>|
            unfolded_rewrite(props, rewrite_fold(props, raw_state, rest), b, p),
    decreases rest.len(),
{
    reveal_strlit("BEGIN:VEVENT");
    reveal_strlit("END:VEVENT");
    assert("BEGIN:VEVENT"@ != "END:VEVENT"@) by {
        assert("BEGIN:VEVENT"@[0] != "END:VEVENT"@[0]);
    }
    if rest.len() == 0 {
        assert(unfolded_rewrite(props, rewrite_fold(props, raw_state, rest), before, pending));
    } else {
        let x = rest[0];
        let tail = rest.drop_first();
        let cur = current_state(props, before, pending);
        let next_raw = rewrite_step(props, raw_state, x);
        assert(rewrite_fold(props, raw_state, rest) == rewrite_fold(props, next_raw, tail));
        assert forall|i: int| 0 <= i < tail.len() implies (#[trigger] tail[i]).len() > 0 && single_line(tail[i]) by {
            assert(tail[i] == rest[i + 1]);
        }
        assert(folds_in_values(tail)) by {
            assert forall|i: int|
                0 <= i < tail.len() - 1 && is_continuation_spec(#[trigger] tail[i + 1]) implies is_continuation_spec(
                tail[i],
            ) || fold_stable(tail[i]) by {
                assert(tail[i] == rest[i + 1]);
                assert(tail[i + 1] == rest[i + 2]);
            }
        }
        assert(x.last() != '\r');
        lemma_trim_cr_noop(x);
        lemma_unfold_push(Seq::empty(), raw_state.result, x);
        if is_continuation_spec(x) {
            assert(x != "BEGIN:VEVENT"@ && x != "END:VEVENT"@) by {
                assert(x[0] == ' ' || x[0] == '\t');
            }
            assert(ics_property_name_spec(x) is None);
            match pending {
                None => {
                    assert(!raw_state.skipping);
                    assert(next_raw.result == raw_state.result.push(x));
                    assert(unfolded_rewrite(props, next_raw, before, pending));
                    lemma_unfolded_rewrite(props, next_raw, before, pending, tail);
                },
                Some(l) => {
                    let more = trim_start_spec(x);
                    lemma_trim_start_single(x);
                    lemma_rewrite_step_extend(props, before, l, more);
                    let l2 = l + more;
                    lemma_fold_stable_extend(l, more);
                    lemma_fold_stable_not_frame(l2);
                    lemma_single_line_concat(l, more);
                    assert(kept_line(l2)) by {
                        assert(l2[0] == l[0]);
                    }
                    lemma_rewrite_scan_step(props, before, l2);
                    if raw_state.skipping {
                        assert(next_raw == raw_state);
                    } else {
                        assert(next_raw.result == raw_state.result.push(x));
                        assert(cur.result == before.result.push(l));
                        assert(unfold_step(cur.result, x) =~= before.result.push(l2));
                    }
                    assert(unfolded_rewrite(props, next_raw, before, Some(l2)));
                    lemma_unfolded_rewrite(props, next_raw, before, Some(l2), tail);
                },
            }
        } else {
            assert(kept_line(x));
            assert(!cur.in_event && !cur.event_done ==> x != "END:VEVENT"@);
            lemma_rewrite_scan_step(props, cur, x);
            let next_cur = rewrite_step(props, cur, x);
            let pl = property_lines(props);
            if !raw_state.event_done && x == "BEGIN:VEVENT"@ {
                assert(unfold_step(cur.result, x) == cur.result.push(x));
            } else if raw_state.in_event && x == "END:VEVENT"@ {
                assert(next_raw.result == (raw_state.result + pl).push(x));
                assert(pl =~= prop_lines(props)) by {
                    assert forall|i: int| 0 <= i < props.len() implies pl[i] == prop_lines(props)[i] by {
                        assert(recordable(props[i]));
                        lemma_plain_upper(props[i].0);
                    }
                }
                let b = pl.push(x);
                assert forall|i: int| 0 <= i < b.len() implies (#[trigger] b[i]).len() > 0 && !is_continuation_spec(
                    b[i],
                ) by {
                    if i < pl.len() {
                        assert(b[i] == pl[i]);
                        assert(kept_line(prop_line(props[i])));
                    } else {
                        assert(b[i] == x);
                    }
                }
                assert((raw_state.result + pl).push(x) =~= raw_state.result + b);
                lemma_unfold_append(Seq::empty(), raw_state.result, b);
                lemma_unfold_plain(cur.result, b);
                assert(cur.result + b =~= (cur.result + pl).push(x));
            } else if raw_state.in_event && ics_property_name_spec(x) is Some {
                if !replaces_name(props, ics_property_name_spec(x)->0) {
                    assert(unfold_step(cur.result, x) == cur.result.push(x));
                }
            } else {
                assert(unfold_step(cur.result, x) == cur.result.push(x));
            }
            assert(unfolded_rewrite(props, next_raw, cur, Some(x)));
            assert(!next_raw.in_event && !next_raw.event_done ==> no_end_before_begin(tail));
            if tail.len() > 0 && is_continuation_spec(tail[0]) {
                assert(rest[1] == tail[0]);
                assert(is_continuation_spec(rest[0int + 1]));
            }
            lemma_unfolded_rewrite(props, next_raw, cur, Some(x), tail);
        }
    }
}

/// The fields read from an updated remote object end with the properties
/// written into it, for an object folded only inside property values.
pub proof fn lemma_update_fields(raw: Seq<char>, props: Seq<(Seq<char>, Seq<char>)>, out: Seq<char>)
    requires
        rewrite_first_vevent_spec(raw, props) == Ok::<Seq<char>, Seq<char>>(out),
        foldable_remote_object(raw),
        props_ok(props),
    ensures
        ends_with_fields(ics_fields_spec(out), prop_fields(props)),
{
    let source = split_ics_lines_spec(raw);
    lemma_split_lines_plain(raw);
    let init = rewrite_initial();
    assert(field_scan(scan_start(), init.result) == scan_start());
    assert(unfold_fold(Seq::<Seq<char>>::empty(), init.result) == init.result);
    assert(unfolded_rewrite(props, init, init, None));
    lemma_unfolded_rewrite(props, init, init, None, source);
    let st = rewrite_fold(props, init, source);
    let (b, p) = choose|b: RewriteScan, p: Option<Seq<char>>| unfolded_rewrite(props, st, b, p);
    let cur = current_state(props, b, p);
    assert(st.inserted);
    assert(cur.event_done);
    assert forall|i: int| 0 <= i < props.len() implies single_line(#[trigger] props[i].0) && single_line(
        props[i].1,
    ) by {
        let q = props[i];
        assert(recordable(q) && kept_line(prop_line(q)));
        let line = prop_line(q);
        assert forall|j: int| 0 <= j < q.0.len() implies q.0[j] != '\r' && q.0[j] != '\n' by {
            assert(line[j] == q.0[j]);
        }
        assert forall|j: int| 0 <= j < q.1.len() implies q.1[j] != '\r' && q.1[j] != '\n' by {
            assert(line[q.0.len() + 1 + j] == q.1[j]);
        }
    }
    lemma_result_lines_plain(props, init, source);
    let all = st.result.push(Seq::<char>::empty());
    assert forall|i: int| 0 <= i < all.len() implies has_no_cr(#[trigger] all[i]) && has_no_lf(all[i]) by {
        if i < st.result.len() {
            assert(all[i] == st.result[i]);
            assert(single_line(st.result[i]));
        } else {
            assert(all[i] == Seq::<char>::empty());
        }
    }
    lemma_normalize_join(all);
    lemma_split_join(all);
    lemma_unfold_push(Seq::empty(), st.result, Seq::<char>::empty());
    assert(unfold_step(cur.result, Seq::<char>::empty()) == cur.result);
    assert(unfold_ics_lines_spec(out) == cur.result);
}

} // verus!
