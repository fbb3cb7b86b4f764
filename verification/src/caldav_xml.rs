//! Reading WebDAV multistatus answers. `quick_xml` tokenises the answer; the
//! library turns its events into a flat list of `<response>` records (the
//! tags they hold and the texts under them) and answers the questions the
//! calendar discovery and query ask of them.
use crate::text::{lower_spec, push_char, push_str, str_to_chars, to_ascii_lowercase, trim};
use quick_xml::events::attributes::Attributes;
use quick_xml::events::Event;
use quick_xml::Reader;
use vstd::prelude::*;
use vstd::string::*;

verus! {

// ---------------------------------------------------------------------------
// quick_xml, behind unverified wrappers
// ---------------------------------------------------------------------------

#[verifier::external_type_specification]
#[verifier::external_body]
#[verifier::reject_recursive_types(R)]
pub struct ExXmlReader<R>(Reader<R>);

/// An event of the XML reader as plain values: a start tag (from `<a ...>`,
/// or `<a .../>` when it closes at once) with its raw content (name and
/// attributes), an end tag with its raw name, the raw content of a text or
/// CDATA event, the raw name of a general reference, the end of input, any
/// other event, or the reader's error.
pub enum RawXmlEvent {
    /// Raw content, and whether the tag closes at once.
    Start(Vec<u8>, bool),
    /// Raw name.
    End(Vec<u8>),
    Text(Vec<u8>),
    GeneralRef(Vec<u8>),
    Eof,
    Other,
    Error(String),
}

pub enum RawEventView {
    Start { content: Seq<u8>, is_empty: bool },
    End { name: Seq<u8> },
    Text(Seq<u8>),
    GeneralRef(Seq<u8>),
    Eof,
    Other,
    Error(Seq<char>),
}

impl View for RawXmlEvent {
    type V = RawEventView;

    open spec fn view(&self) -> RawEventView {
        match self {
            RawXmlEvent::Start(content, is_empty) => RawEventView::Start { content: content@, is_empty: *is_empty },
            RawXmlEvent::End(name) => RawEventView::End { name: name@ },
            RawXmlEvent::Text(b) => RawEventView::Text(b@),
            RawXmlEvent::GeneralRef(b) => RawEventView::GeneralRef(b@),
            RawXmlEvent::Eof => RawEventView::Eof,
            RawXmlEvent::Other => RawEventView::Other,
            RawXmlEvent::Error(e) => RawEventView::Error(e@),
        }
    }
}

/// The event that the `index`-th call (counting from 0) of `read_event`
/// gives on `Reader::from_str(text)` configured with `trim_text(true)`, as
/// plain values (see `RawXmlEvent`). It depends on the text and the index
/// alone.
pub uninterp spec fn xml_event_result(text: Seq<char>, index: nat) -> RawEventView;

/// The attributes (raw key and value bytes, malformed ones skipped) that
/// `quick_xml` reads from the content of a start tag after its name, which
/// takes the first `name_len` bytes.
pub uninterp spec fn xml_attributes_result(content: Seq<u8>, name_len: nat) -> Seq<(Seq<u8>, Seq<u8>)>;

/// A `quick_xml` reader over a text, with the text it reads and how many
/// events it has given so far. Its fields are private: only the functions
/// below make one and read from it.
pub struct XmlCursor<'a> {
    reader: Reader<&'a [u8]>,
    text: Ghost<Seq<char>>,
    reads: Ghost<nat>,
}

impl<'a> XmlCursor<'a> {
    /// The text the reader reads.
    pub closed spec fn text(&self) -> Seq<char> {
        self.text@
    }

    /// How many events it has given.
    pub closed spec fn reads(&self) -> nat {
        self.reads@
    }
}

/// A reader over the text (`Reader::from_str`) that trims white space
/// around text (`config_mut().trim_text(true)`); it has given no event yet.
#[verifier::external_body]
pub(crate) fn xml_cursor<'a>(xml: &'a str) -> (c: XmlCursor<'a>)
    ensures
        c.text() == xml@,
        c.reads() == 0,
{
    let mut reader = Reader::from_str(xml);
    reader.config_mut().trim_text(true);
    XmlCursor { reader, text: Ghost(xml@), reads: Ghost(0) }
}

/// The next event of the reader (`Reader::read_event`) as plain values, one
/// arm per kind, each event's bytes copied out; declarations, comments and
/// the like are `Other`, a reader error its text.
#[verifier::external_body]
pub(crate) fn read_raw_event<'a>(cursor: &mut XmlCursor<'a>) -> (r: RawXmlEvent)
    ensures
        r@ == xml_event_result(old(cursor).text(), old(cursor).reads()),
        final(cursor).text() == old(cursor).text(),
        final(cursor).reads() == old(cursor).reads() + 1,
{
    cursor.reads = Ghost(cursor.reads@ + 1);
    match cursor.reader.read_event() {
        Ok(Event::Start(e)) => RawXmlEvent::Start(e.to_vec(), false),
        Ok(Event::Empty(e)) => RawXmlEvent::Start(e.to_vec(), true),
        Ok(Event::End(e)) => RawXmlEvent::End(e.to_vec()),
        Ok(Event::Text(e)) => RawXmlEvent::Text(e.to_vec()),
        Ok(Event::CData(e)) => RawXmlEvent::Text(e.to_vec()),
        Ok(Event::GeneralRef(e)) => RawXmlEvent::GeneralRef(e.to_vec()),
        Ok(Event::Eof) => RawXmlEvent::Eof,
        Ok(_) => RawXmlEvent::Other,
        Err(error) => RawXmlEvent::Error(error.to_string()),
    }
}

/// Whether a byte is XML white space (`quick_xml::utils::is_whitespace`).
pub open spec fn is_xml_space(b: u8) -> bool {
    b == 32 || b == 13 || b == 10 || b == 9
}

/// The length of the name at the start of a tag's content: up to the first
/// XML white space, or all of it.
pub open spec fn name_len_spec(content: Seq<u8>) -> nat
    decreases content.len(),
{
    if content.len() == 0 || is_xml_space(content[0]) {
        0
    } else {
        1 + name_len_spec(content.drop_first())
    }
}

/// The length of a tag's name in its content (`quick_xml::utils::name_len`,
/// documented as the first word of the content, words being separated by
/// XML white space).
#[verifier::external_body]
pub(crate) fn xml_name_len(content: &[u8]) -> (r: usize)
    ensures
        r == name_len_spec(content@),
{
    quick_xml::utils::name_len(content)
}

/// What the reader's decoder (`Decoder::decode`) makes of the raw content of
/// a text or CDATA event: its text, or the error's text.
pub uninterp spec fn xml_decode_result(bytes: Seq<u8>) -> Result<Seq<char>, Seq<char>>;

/// Decodes the raw content of a text or CDATA event with the reader's
/// decoder (`reader.decoder().decode(..)`, as `BytesText::decode` does).
#[verifier::external_body]
pub(crate) fn decode_xml_text<'a>(cursor: &XmlCursor<'a>, bytes: &[u8]) -> (r: Result<String, String>)
    ensures
        match r {
            Ok(t) => xml_decode_result(bytes@) == Ok::<Seq<char>, Seq<char>>(t@),
            Err(e) => xml_decode_result(bytes@) == Err::<Seq<char>, Seq<char>>(e@),
        },
{
    cursor.reader.decoder().decode(bytes).map(String::from).map_err(|x| x.to_string())
}

/// The attributes of a start tag given by its content and the length of
/// its name (`Attributes::new` over the content, `with_checks(false)`,
/// malformed ones skipped). The content comes from a reader over a `str`,
/// split at ASCII marks, so it is UTF-8 and the lossy reading keeps it.
#[verifier::external_body]
pub(crate) fn start_attribute_bytes(content: &[u8], name_len: usize) -> (r: Vec<(Vec<u8>, Vec<u8>)>)
    requires
        name_len <= content@.len(),
    ensures
        attrs_view(r@) == xml_attributes_result(content@, name_len as nat),
{
    let text = String::from_utf8_lossy(content);
    Attributes::new(&text, name_len).with_checks(false).flatten().map(|a| (a.key.as_ref().to_vec(), a.value.to_vec())).collect()
}

// ---------------------------------------------------------------------------
// std, behind unverified wrappers
// ---------------------------------------------------------------------------

/// What `String::from_utf8_lossy` makes of some bytes.
pub uninterp spec fn utf8_lossy_spec(bytes: Seq<u8>) -> Seq<char>;

/// Whether all bytes are ASCII.
pub open spec fn all_ascii(bytes: Seq<u8>) -> bool {
    forall|i: int| 0 <= i < bytes.len() ==> bytes[i] < 128
}

/// `String::from_utf8_lossy`. ASCII bytes are valid UTF-8, each byte one
/// character, which std gives back unchanged.
#[verifier::external_body]
pub(crate) fn utf8_lossy(bytes: &[u8]) -> (r: String)
    ensures
        r@ == utf8_lossy_spec(bytes@),
        all_ascii(bytes@) ==> r@ == bytes@.map_values(|b: u8| b as char),
{
    String::from_utf8_lossy(bytes).into_owned()
}

/// Whether a number is a Unicode scalar value.
pub open spec fn is_scalar_value(v: u32) -> bool {
    v < 0xD800 || (0xE000 <= v && v <= 0x10FFFF)
}

/// `char::from_u32`: the character of a scalar value, none otherwise.
#[verifier::external_body]
pub(crate) fn char_from_u32(v: u32) -> (r: Option<char>)
    ensures
        is_scalar_value(v) ==> r == Some(v as char),
        !is_scalar_value(v) ==> r is None,
{
    char::from_u32(v)
}

// ---------------------------------------------------------------------------
// Names and references
// ---------------------------------------------------------------------------

/// The part of a name after its last `:` (the whole name without one).
pub open spec fn local_name_spec(s: Seq<char>) -> Seq<char>
    decreases s.len(),
{
    if s.len() == 0 {
        s
    } else if s.last() == ':' {
        Seq::empty()
    } else {
        local_name_spec(s.drop_last()).push(s.last())
    }
}

/// The local part of a name in text.
pub fn local_name_of(name: &str) -> (r: String)
    ensures
        r@ == local_name_spec(name@),
{
    let chars = str_to_chars(name);
    let mut r = String::new();
    let mut i: usize = 0;
    while i < chars.len()
        invariant
            i <= chars@.len(),
            chars@ == name@,
            r@ == local_name_spec(chars@.subrange(0, i as int)),
        decreases chars.len() - i,
    {
        assert(chars@.subrange(0, i + 1).drop_last() =~= chars@.subrange(0, i as int));
        if chars[i] == ':' {
            r = String::new();
        } else {
            push_char(&mut r, chars[i]);
        }
        i += 1;
    }
    assert(chars@.subrange(0, chars@.len() as int) =~= chars@);
    r
}

/// The local part of a raw XML name (read as UTF-8, lossily).
pub fn xml_local_name(bytes: &[u8]) -> (r: String)
    ensures
        r@ == local_name_spec(utf8_lossy_spec(bytes@)),
{
    let name = utf8_lossy(bytes);
    local_name_of(name.as_str())
}

/// Whether two texts are equal ignoring ASCII case.
pub fn eq_ignore_ascii_case(a: &str, b: &str) -> (r: bool)
    ensures
        r == (lower_spec(a@) == lower_spec(b@)),
{
    let la = to_ascii_lowercase(a);
    let lb = to_ascii_lowercase(b);
    la == lb
}

/// Whether some attribute has the local name `name` and, ignoring ASCII
/// case, the value `expected`.
pub open spec fn has_attribute_spec(
    attrs: Seq<(Seq<u8>, Seq<u8>)>,
    name: Seq<char>,
    expected: Seq<char>,
) -> bool {
    exists|i: int|
        0 <= i < attrs.len() && local_name_spec(utf8_lossy_spec(#[trigger] attrs[i].0)) == name
            && lower_spec(utf8_lossy_spec(attrs[i].1)) == lower_spec(expected)
}

pub open spec fn attrs_view(attrs: Seq<(Vec<u8>, Vec<u8>)>) -> Seq<(Seq<u8>, Seq<u8>)> {
    attrs.map_values(|a: (Vec<u8>, Vec<u8>)| (a.0@, a.1@))
}

/// Whether the attributes hold `name="expected"` (see `has_attribute_spec`).
pub fn start_has_case_insensitive_attribute(
    attrs: &Vec<(Vec<u8>, Vec<u8>)>,
    name: &str,
    expected: &str,
) -> (r: bool)
    ensures
        r == has_attribute_spec(attrs_view(attrs@), name@, expected@),
{
    let ghost av = attrs_view(attrs@);
    let mut i: usize = 0;
    while i < attrs.len()
        invariant
            i <= attrs@.len(),
            av == attrs_view(attrs@),
            forall|j: int|
                0 <= j < i ==> !(local_name_spec(utf8_lossy_spec(#[trigger] av[j].0)) == name@
                    && lower_spec(utf8_lossy_spec(av[j].1)) == lower_spec(expected@)),
        decreases attrs.len() - i,
    {
        let key = xml_local_name(attrs[i].0.as_slice());
        let value = utf8_lossy(attrs[i].1.as_slice());
        let name_s = String::from_str(name);
        if key == name_s && eq_ignore_ascii_case(value.as_str(), expected) {
            assert(local_name_spec(utf8_lossy_spec(av[i as int].0)) == name@);
            return true;
        }
        i += 1;
    }
    false
}

/// The value of a digit in the given radix (10 or 16), if it is one.
pub open spec fn radix_digit(c: char, radix: u32) -> Option<int> {
    if '0' <= c && c <= '9' {
        Some(c as int - '0' as int)
    } else if radix == 16 && 'a' <= c && c <= 'f' {
        Some(c as int - 'a' as int + 10)
    } else if radix == 16 && 'A' <= c && c <= 'F' {
        Some(c as int - 'A' as int + 10)
    } else {
        None
    }
}

/// The value of a string of digits in a radix; none when a character is
/// not a digit.
pub open spec fn radix_value(s: Seq<char>, radix: u32) -> Option<int>
    decreases s.len(),
{
    if s.len() == 0 {
        Some(0)
    } else {
        match (radix_value(s.drop_last(), radix), radix_digit(s.last(), radix)) {
            (Some(v), Some(d)) => Some(v * radix + d),
            _ => None,
        }
    }
}

/// `u32::from_str_radix` for radix 10 or 16: an optional `+`, then at least
/// one digit, with the value in range.
pub open spec fn parse_u32_radix_spec(s: Seq<char>, radix: u32) -> Option<u32> {
    let body = if s.len() > 0 && s[0] == '+' {
        s.drop_first()
    } else {
        s
    };
    if body.len() == 0 {
        None
    } else {
        match radix_value(body, radix) {
            Some(v) => if v <= u32::MAX {
                Some(v as u32)
            } else {
                None
            },
            None => None,
        }
    }
}

proof fn lemma_radix_value_nonneg(s: Seq<char>, radix: u32)
    requires
        radix == 10 || radix == 16,
    ensures
        radix_value(s, radix) matches Some(v) ==> v >= 0,
    decreases s.len(),
{
    if s.len() > 0 {
        lemma_radix_value_nonneg(s.drop_last(), radix);
    }
}

/// Parses digits in radix 10 or 16 as `u32::from_str_radix` does.
pub fn parse_u32_radix(s: &str, radix: u32) -> (r: Option<u32>)
    requires
        radix == 10 || radix == 16,
    ensures
        r == parse_u32_radix_spec(s@, radix),
{
    let chars = str_to_chars(s);
    let start: usize = if chars.len() > 0 && chars[0] == '+' {
        1
    } else {
        0
    };
    let ghost body = if s@.len() > 0 && s@[0] == '+' {
        s@.drop_first()
    } else {
        s@
    };
    assert(body =~= chars@.subrange(start as int, chars@.len() as int));
    if start >= chars.len() {
        return None;
    }
    let mut value: u64 = 0;
    let mut i: usize = start;
    while i < chars.len()
        invariant
            start <= i <= chars@.len(),
            chars@ == s@,
            body =~= chars@.subrange(start as int, chars@.len() as int),
            body == (if s@.len() > 0 && s@[0] == '+' {
                s@.drop_first()
            } else {
                s@
            }),
            body.len() > 0,
            radix == 10 || radix == 16,
            radix_value(chars@.subrange(start as int, i as int), radix) == Some(value as int),
            value <= u32::MAX,
        decreases chars.len() - i,
    {
        let ghost pre = chars@.subrange(start as int, i + 1);
        let ghost whole = chars@.subrange(start as int, chars@.len() as int);
        assert(pre.drop_last() =~= chars@.subrange(start as int, i as int));
        assert(pre =~= whole.subrange(0, pre.len() as int));
        let c = chars[i];
        assert(pre.last() == c);
        let d: u64 = if '0' <= c && c <= '9' {
            (c as u32 - '0' as u32) as u64
        } else if radix == 16 && 'a' <= c && c <= 'f' {
            (c as u32 - 'a' as u32 + 10) as u64
        } else if radix == 16 && 'A' <= c && c <= 'F' {
            (c as u32 - 'A' as u32 + 10) as u64
        } else {
            proof {
                assert(radix_digit(c, radix) is None);
                assert(radix_value(pre, radix) is None);
                lemma_radix_none_extends(pre, whole, radix);
                assert(whole == body);
                assert(radix_value(body, radix) is None);
            }
            return None;
        };
        assert(radix_digit(c, radix) == Some(d as int));
        assert(radix_value(pre, radix) == Some(value * radix + d));
        let next: u64 = value * (radix as u64) + d;
        if next > u32::MAX as u64 {
            proof {
                lemma_radix_big_extends(pre, whole, radix);
                assert(whole == body);
            }
            return None;
        }
        value = next;
        i += 1;
    }
    assert(chars@.subrange(start as int, chars@.len() as int) =~= body);
    Some(value as u32)
}

/// A prefix with a non-digit makes the whole text a non-number.
proof fn lemma_radix_none_extends(pre: Seq<char>, s: Seq<char>, radix: u32)
    requires
        pre.len() <= s.len(),
        pre =~= s.subrange(0, pre.len() as int),
        radix_value(pre, radix) is None,
    ensures
        radix_value(s, radix) is None,
    decreases s.len(),
{
    if s.len() > pre.len() {
        assert(s.drop_last().subrange(0, pre.len() as int) =~= pre);
        lemma_radix_none_extends(pre, s.drop_last(), radix);
    } else {
        assert(s =~= pre);
    }
}

/// A prefix whose value is past `u32::MAX` makes the whole value so.
proof fn lemma_radix_big_extends(pre: Seq<char>, s: Seq<char>, radix: u32)
    requires
        radix == 10 || radix == 16,
        pre.len() <= s.len(),
        pre =~= s.subrange(0, pre.len() as int),
        radix_value(pre, radix) matches Some(v) && v > u32::MAX,
    ensures
        !(radix_value(s, radix) matches Some(v) && v <= u32::MAX),
    decreases s.len(),
{
    if s.len() > pre.len() {
        assert(s.drop_last().subrange(0, pre.len() as int) =~= pre);
        lemma_radix_big_extends(pre, s.drop_last(), radix);
        lemma_radix_value_nonneg(s.drop_last(), radix);
        if radix_value(s, radix) is Some {
            let v = radix_value(s.drop_last(), radix)->0;
            let d = radix_digit(s.last(), radix)->0;
            assert(v * radix >= v) by (nonlinear_arith)
                requires
                    v >= 0,
                    radix >= 1,
            ;
        }
    } else {
        assert(s =~= pre);
    }
}

/// The character of a numeric reference body in a radix, if it names one.
pub open spec fn numeric_ref_spec(value: Seq<char>, radix: u32) -> Option<Seq<char>> {
    match parse_u32_radix_spec(value, radix) {
        Some(v) => if is_scalar_value(v) {
            Some(seq![v as char])
        } else {
            None
        },
        None => None,
    }
}

/// Decodes the body of a numeric character reference.
pub fn decode_numeric_xml_ref(value: &str, radix: u32) -> (r: Option<String>)
    requires
        radix == 10 || radix == 16,
    ensures
        match r {
            Some(s) => numeric_ref_spec(value@, radix) == Some(s@),
            None => numeric_ref_spec(value@, radix) is None,
        },
{
    let codepoint = match parse_u32_radix(value, radix) {
        Some(v) => v,
        None => {
            return None;
        },
    };
    match char_from_u32(codepoint) {
        Some(c) => {
            let mut s = String::new();
            push_char(&mut s, c);
            assert(s@ =~= seq![codepoint as char]);
            Some(s)
        },
        None => None,
    }
}

/// The text `&value;`, as written.
pub open spec fn raw_ref_spec(value: Seq<char>) -> Seq<char> {
    seq!['&'] + value + seq![';']
}

/// The text of a general reference: the five predefined entities, numeric
/// character references (decimal, or hexadecimal after `#x`/`#X`), and any
/// other reference kept as written.
pub open spec fn decode_xml_general_ref_spec(value: Seq<char>) -> Seq<char> {
    if value == "amp"@ {
        seq!['&']
    } else if value == "lt"@ {
        seq!['<']
    } else if value == "gt"@ {
        seq!['>']
    } else if value == "quot"@ {
        seq!['"']
    } else if value == "apos"@ {
        seq!['\'']
    } else if value.len() >= 2 && value[0] == '#' && (value[1] == 'x' || value[1] == 'X') {
        match numeric_ref_spec(value.skip(2), 16) {
            Some(s) => s,
            None => raw_ref_spec(value),
        }
    } else if value.len() >= 1 && value[0] == '#' {
        match numeric_ref_spec(value.skip(1), 10) {
            Some(s) => s,
            None => raw_ref_spec(value),
        }
    } else {
        raw_ref_spec(value)
    }
}

fn char_string(c: char) -> (s: String)
    ensures
        s@ == seq![c],
{
    let mut s = String::new();
    push_char(&mut s, c);
    assert(s@ =~= seq![c]);
    s
}

fn raw_ref(value: &str) -> (r: String)
    ensures
        r@ == raw_ref_spec(value@),
{
    let mut s = String::new();
    push_char(&mut s, '&');
    push_str(&mut s, value);
    push_char(&mut s, ';');
    assert(s@ =~= raw_ref_spec(value@));
    s
}

/// Decodes a general reference (see `decode_xml_general_ref_spec`).
pub fn decode_xml_general_ref(value: &str) -> (r: String)
    ensures
        r@ == decode_xml_general_ref_spec(value@),
{
    let v = String::from_str(value);
    if v == String::from_str("amp") {
        return char_string('&');
    }
    if v == String::from_str("lt") {
        return char_string('<');
    }
    if v == String::from_str("gt") {
        return char_string('>');
    }
    if v == String::from_str("quot") {
        return char_string('"');
    }
    if v == String::from_str("apos") {
        return char_string('\'');
    }
    let chars = str_to_chars(value);
    if chars.len() >= 2 && chars[0] == '#' && (chars[1] == 'x' || chars[1] == 'X') {
        let mut body = String::new();
        let mut i: usize = 2;
        while i < chars.len()
            invariant
                2 <= i <= chars@.len(),
                chars@ == value@,
                body@ == chars@.subrange(2, i as int),
            decreases chars.len() - i,
        {
            push_char(&mut body, chars[i]);
            assert(chars@.subrange(2, i + 1) =~= chars@.subrange(2, i as int).push(chars@[i as int]));
            i += 1;
        }
        assert(body@ =~= value@.skip(2));
        return match decode_numeric_xml_ref(body.as_str(), 16) {
            Some(s) => s,
            None => raw_ref(value),
        };
    }
    if chars.len() >= 1 && chars[0] == '#' {
        let mut body = String::new();
        let mut i: usize = 1;
        while i < chars.len()
            invariant
                1 <= i <= chars@.len(),
                chars@ == value@,
                body@ == chars@.subrange(1, i as int),
            decreases chars.len() - i,
        {
            push_char(&mut body, chars[i]);
            assert(chars@.subrange(1, i + 1) =~= chars@.subrange(1, i as int).push(chars@[i as int]));
            i += 1;
        }
        assert(body@ =~= value@.skip(1));
        return match decode_numeric_xml_ref(body.as_str(), 10) {
            Some(s) => s,
            None => raw_ref(value),
        };
    }
    raw_ref(value)
}

} // verus!
