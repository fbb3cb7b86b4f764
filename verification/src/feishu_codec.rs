//! Percent-encoding for Feishu URLs and forms, and its decoding for the
//! OAuth callback. Encoding a form value and decoding it gives the value
//! back (`lemma_form_roundtrip`).
use crate::text::{push_char};
use vstd::prelude::*;
use vstd::string::*;
use vstd::utf8::{decode_utf8, encode_utf8, valid_utf8};

verus! {

/// Bytes kept as they are: ASCII letters and digits, `-`, `_`, `.`, `~`.
pub open spec fn is_unreserved(b: u8) -> bool {
    (65 <= b <= 90) || (97 <= b <= 122) || (48 <= b <= 57) || b == 45 || b == 95 || b == 46 || b
        == 126
}

/// The upper-case hexadecimal digit of a value below 16.
pub open spec fn hex_upper(v: int) -> char {
    if v < 10 {
        (v + 48) as char
    } else {
        (v - 10 + 65) as char
    }
}

/// `%XX`, upper-case.
pub open spec fn percent_escape(b: u8) -> Seq<char> {
    seq!['%', hex_upper(b as int / 16), hex_upper(b as int % 16)]
}

/// How a byte is written in a path segment.
pub open spec fn path_piece(b: u8) -> Seq<char> {
    if is_unreserved(b) {
        seq![b as char]
    } else {
        percent_escape(b)
    }
}

/// How a byte is written in a form value: a space becomes `+`.
pub open spec fn form_piece(b: u8) -> Seq<char> {
    if is_unreserved(b) {
        seq![b as char]
    } else if b == 32 {
        seq!['+']
    } else {
        percent_escape(b)
    }
}

pub open spec fn encode_path_bytes(bs: Seq<u8>) -> Seq<char>
    decreases bs.len(),
{
    if bs.len() == 0 {
        Seq::empty()
    } else {
        path_piece(bs[0]) + encode_path_bytes(bs.skip(1))
    }
}

pub open spec fn encode_form_bytes(bs: Seq<u8>) -> Seq<char>
    decreases bs.len(),
{
    if bs.len() == 0 {
        Seq::empty()
    } else {
        form_piece(bs[0]) + encode_form_bytes(bs.skip(1))
    }
}

proof fn lemma_encode_path_push(bs: Seq<u8>, b: u8)
    ensures
        encode_path_bytes(bs.push(b)) == encode_path_bytes(bs) + path_piece(b),
    decreases bs.len(),
{
    if bs.len() == 0 {
        assert(bs.push(b).skip(1) =~= Seq::<u8>::empty());
        assert(encode_path_bytes(bs.push(b).skip(1)) =~= Seq::<char>::empty());
        assert(bs.push(b)[0] == b);
        assert(encode_path_bytes(bs) =~= Seq::<char>::empty());
        assert(encode_path_bytes(bs.push(b)) =~= path_piece(b));
    } else {
        assert(bs.push(b).skip(1) =~= bs.skip(1).push(b));
        lemma_encode_path_push(bs.skip(1), b);
        assert(encode_path_bytes(bs.push(b)) =~= encode_path_bytes(bs) + path_piece(b));
    }
}

proof fn lemma_encode_form_push(bs: Seq<u8>, b: u8)
    ensures
        encode_form_bytes(bs.push(b)) == encode_form_bytes(bs) + form_piece(b),
    decreases bs.len(),
{
    if bs.len() == 0 {
        assert(bs.push(b).skip(1) =~= Seq::<u8>::empty());
        assert(encode_form_bytes(bs.push(b).skip(1)) =~= Seq::<char>::empty());
        assert(bs.push(b)[0] == b);
        assert(encode_form_bytes(bs) =~= Seq::<char>::empty());
        assert(encode_form_bytes(bs.push(b)) =~= form_piece(b));
    } else {
        assert(bs.push(b).skip(1) =~= bs.skip(1).push(b));
        lemma_encode_form_push(bs.skip(1), b);
        assert(encode_form_bytes(bs.push(b)) =~= encode_form_bytes(bs) + form_piece(b));
    }
}

fn hex_upper_exec(v: u8) -> (c: char)
    requires
        v < 16,
    ensures
        c == hex_upper(v as int),
{
    if v < 10 {
        (v + 48) as char
    } else {
        (v - 10 + 65) as char
    }
}

fn push_escape(s: &mut String, b: u8)
    ensures
        final(s)@ == old(s)@ + percent_escape(b),
{
    push_char(s, '%');
    push_char(s, hex_upper_exec(b / 16));
    push_char(s, hex_upper_exec(b % 16));
    assert(final(s)@ =~= old(s)@ + percent_escape(b));
}

fn unreserved(b: u8) -> (r: bool)
    ensures
        r == is_unreserved(b),
{
    (65 <= b && b <= 90) || (97 <= b && b <= 122) || (48 <= b && b <= 57) || b == 45 || b == 95
        || b == 46 || b == 126
}

/// A value escaped for a URL path segment (bytes of its UTF-8).
pub fn encode_path_segment(value: &str) -> (r: String)
    ensures
        r@ == encode_path_bytes(encode_utf8(value@)),
{
    let bytes = value.as_bytes();
    let mut out = String::new();
    let mut i: usize = 0;
    assert(bytes@.subrange(0, 0) =~= Seq::<u8>::empty());
    while i < bytes.len()
        invariant
            i <= bytes@.len(),
            bytes@ == encode_utf8(value@),
            out@ == encode_path_bytes(bytes@.subrange(0, i as int)),
        decreases bytes.len() - i,
    {
        let b = bytes[i];
        proof {
            assert(bytes@.subrange(0, i + 1) =~= bytes@.subrange(0, i as int).push(b));
            lemma_encode_path_push(bytes@.subrange(0, i as int), b);
        }
        if unreserved(b) {
            push_char(&mut out, b as char);
            assert(out@ =~= encode_path_bytes(bytes@.subrange(0, i as int)) + seq![b as char]);
        } else {
            push_escape(&mut out, b);
        }
        i += 1;
    }
    assert(bytes@.subrange(0, bytes@.len() as int) =~= bytes@);
    out
}

/// A value escaped for a form body or query (`+` for space).
pub fn encode_form_component(value: &str) -> (r: String)
    ensures
        r@ == encode_form_bytes(encode_utf8(value@)),
{
    let bytes = value.as_bytes();
    let mut out = String::new();
    let mut i: usize = 0;
    assert(bytes@.subrange(0, 0) =~= Seq::<u8>::empty());
    while i < bytes.len()
        invariant
            i <= bytes@.len(),
            bytes@ == encode_utf8(value@),
            out@ == encode_form_bytes(bytes@.subrange(0, i as int)),
        decreases bytes.len() - i,
    {
        let b = bytes[i];
        proof {
            assert(bytes@.subrange(0, i + 1) =~= bytes@.subrange(0, i as int).push(b));
            lemma_encode_form_push(bytes@.subrange(0, i as int), b);
        }
        if unreserved(b) {
            push_char(&mut out, b as char);
            assert(out@ =~= encode_form_bytes(bytes@.subrange(0, i as int)) + seq![b as char]);
        } else if b == 32 {
            push_char(&mut out, '+');
            assert(out@ =~= encode_form_bytes(bytes@.subrange(0, i as int)) + seq!['+']);
        } else {
            push_escape(&mut out, b);
        }
        i += 1;
    }
    assert(bytes@.subrange(0, bytes@.len() as int) =~= bytes@);
    out
}

// ---------------------------------------------------------------------------
// Decoding
// ---------------------------------------------------------------------------

pub open spec fn is_hex_byte(b: u8) -> bool {
    (48 <= b <= 57) || (65 <= b <= 70) || (97 <= b <= 102)
}

pub open spec fn hex_byte_value(b: u8) -> int {
    if 48 <= b <= 57 {
        b - 48
    } else if 65 <= b <= 70 {
        b - 55
    } else {
        b - 87
    }
}

/// The value of two bytes after `%` as `u8::from_str_radix(.., 16)` reads
/// their text: two hex digits, or `+` and one hex digit; anything else
/// (including bytes that are not ASCII) is no number.
pub open spec fn hex_pair(a: u8, b: u8) -> Option<u8> {
    if a == 43 && is_hex_byte(b) {
        Some(hex_byte_value(b) as u8)
    } else if is_hex_byte(a) && is_hex_byte(b) {
        Some((hex_byte_value(a) * 16 + hex_byte_value(b)) as u8)
    } else {
        None
    }
}

/// The bytes a percent-encoded text stands for: `+` is a space, `%` with at
/// least two bytes after it reads them as a hex number (none when they are
/// not one), every other byte stands for itself.
pub open spec fn decode_percent_bytes(bs: Seq<u8>) -> Option<Seq<u8>>
    decreases bs.len(),
{
    if bs.len() == 0 {
        Some(Seq::empty())
    } else if bs[0] == 43 {
        match decode_percent_bytes(bs.skip(1)) {
            Some(r) => Some(seq![32u8] + r),
            None => None,
        }
    } else if bs[0] == 37 && 2 < bs.len() {
        match hex_pair(bs[1], bs[2]) {
            None => None,
            Some(v) => match decode_percent_bytes(bs.skip(3)) {
                Some(r) => Some(seq![v] + r),
                None => None,
            },
        }
    } else {
        match decode_percent_bytes(bs.skip(1)) {
            Some(r) => Some(seq![bs[0]] + r),
            None => None,
        }
    }
}

/// The text a percent-encoded value stands for, when its bytes are UTF-8.
pub open spec fn percent_decode_spec(value: Seq<char>) -> Option<Seq<char>> {
    match decode_percent_bytes(encode_utf8(value)) {
        Some(bs) => if valid_utf8(bs) {
            Some(decode_utf8(bs))
        } else {
            None
        },
        None => None,
    }
}

/// `String::from_utf8`: the text of the bytes when they are valid UTF-8.
#[verifier::external_body]
fn string_from_utf8(bytes: Vec<u8>) -> (r: Option<String>)
    ensures
        r is Some <==> valid_utf8(bytes@),
        r matches Some(s) ==> s@ == decode_utf8(bytes@),
{
    String::from_utf8(bytes).ok()
}

fn hex_value_exec(b: u8) -> (v: u8)
    requires
        is_hex_byte(b),
    ensures
        v == hex_byte_value(b),
{
    if 48 <= b && b <= 57 {
        b - 48
    } else if 65 <= b && b <= 70 {
        b - 55
    } else {
        b - 87
    }
}

fn hex_pair_exec(a: u8, b: u8) -> (r: Option<u8>)
    ensures
        r == hex_pair(a, b),
{
    let hb = (48 <= b && b <= 57) || (65 <= b && b <= 70) || (97 <= b && b <= 102);
    let ha = (48 <= a && a <= 57) || (65 <= a && a <= 70) || (97 <= a && a <= 102);
    if a == 43 && hb {
        Some(hex_value_exec(b))
    } else if ha && hb {
        Some(hex_value_exec(a) * 16 + hex_value_exec(b))
    } else {
        None
    }
}

/// Decodes a percent-encoded value (see `percent_decode_spec`).
pub fn percent_decode(value: &str) -> (r: Option<String>)
    ensures
        match r {
            Some(s) => percent_decode_spec(value@) == Some(s@),
            None => percent_decode_spec(value@) is None,
        },
{
    let bytes = value.as_bytes();
    let ghost bs = bytes@;
    let mut decoded: Vec<u8> = Vec::new();
    let mut index: usize = 0;
    assert(bs.skip(0) =~= bs);
    assert(Seq::<u8>::empty() + bs =~= bs);
    while index < bytes.len()
        invariant
            index <= bs.len(),
            bs == bytes@,
            bs == encode_utf8(value@),
            decode_percent_bytes(bs) == match decode_percent_bytes(bs.skip(index as int)) {
                Some(r) => Some(decoded@ + r),
                None => None::<Seq<u8>>,
            },
        decreases bytes.len() - index,
    {
        let ghost rest = bs.skip(index as int);
        let b = bytes[index];
        assert(rest[0] == b);
        if b == 43 {
            assert(rest.skip(1) =~= bs.skip(index + 1));
            decoded.push(32);
            proof {
                if decode_percent_bytes(rest.skip(1)) is Some {
                    let r = decode_percent_bytes(rest.skip(1))->0;
                    assert(decoded@ + r =~= (decoded@.drop_last()) + (seq![32u8] + r));
                }
            }
            index += 1;
        } else if b == 37 && bytes.len() - index > 2 {
            assert(rest[1] == bytes@[index + 1]);
            assert(rest[2] == bytes@[index + 2]);
            match hex_pair_exec(bytes[index + 1], bytes[index + 2]) {
                None => {
                    return None;
                },
                Some(v) => {
                    assert(rest.skip(3) =~= bs.skip(index + 3));
                    decoded.push(v);
                    proof {
                        if decode_percent_bytes(rest.skip(3)) is Some {
                            let r = decode_percent_bytes(rest.skip(3))->0;
                            assert(decoded@ + r =~= (decoded@.drop_last()) + (seq![v] + r));
                        }
                    }
                    index += 3;
                },
            }
        } else {
            assert(rest.skip(1) =~= bs.skip(index + 1));
            decoded.push(b);
            proof {
                if decode_percent_bytes(rest.skip(1)) is Some {
                    let r = decode_percent_bytes(rest.skip(1))->0;
                    assert(decoded@ + r =~= (decoded@.drop_last()) + (seq![b] + r));
                }
            }
            index += 1;
        }
    }
    assert(bs.skip(index as int) =~= Seq::<u8>::empty());
    assert(decoded@ + Seq::<u8>::empty() =~= decoded@);
    string_from_utf8(decoded)
}

// ---------------------------------------------------------------------------
// The round trip
// ---------------------------------------------------------------------------

/// Every character a form encoding writes is ASCII.
proof fn lemma_form_encoding_ascii(bs: Seq<u8>)
    ensures
        vstd::utf8::is_ascii_chars(encode_form_bytes(bs)),
    decreases bs.len(),
{
    if bs.len() > 0 {
        lemma_form_encoding_ascii(bs.skip(1));
        let p = form_piece(bs[0]);
        let rest = encode_form_bytes(bs.skip(1));
        assert forall|i: int| 0 <= i < p.len() implies '\0' <= #[trigger] p[i] <= '\u{7f}' by {
            if is_unreserved(bs[0]) {
            } else if bs[0] == 32 {
            } else {
                assert(bs[0] as int / 16 < 16);
            }
        }
        assert forall|i: int|
            0 <= i < encode_form_bytes(bs).len() implies '\0' <= #[trigger] encode_form_bytes(bs)[i] <= '\u{7f}' by {
            if i < p.len() {
                assert(encode_form_bytes(bs)[i] == p[i]);
            } else {
                assert(encode_form_bytes(bs)[i] == rest[i - p.len()]);
            }
        }
    }
}

/// The bytes of the ASCII characters a form encoding writes.
pub open spec fn ascii_bytes(cs: Seq<char>) -> Seq<u8> {
    cs.map_values(|c: char| c as u8)
}

proof fn lemma_hex_upper_roundtrip(b: u8)
    ensures
        hex_pair(hex_upper(b as int / 16) as u8, hex_upper(b as int % 16) as u8) == Some(b),
{
    let hi = b as int / 16;
    let lo = b as int % 16;
    assert(0 <= hi < 16 && 0 <= lo < 16);
    assert(hex_upper(hi) as u8 as int == if hi < 10 { hi + 48 } else { hi + 55 });
    assert(hex_upper(lo) as u8 as int == if lo < 10 { lo + 48 } else { lo + 55 });
    assert(hi * 16 + lo == b);
}

/// Decoding the bytes of a form encoding gives the encoded bytes back.
proof fn lemma_decode_encode_form_bytes(bs: Seq<u8>)
    ensures
        decode_percent_bytes(ascii_bytes(encode_form_bytes(bs))) == Some(bs),
    decreases bs.len(),
{
    if bs.len() == 0 {
        assert(ascii_bytes(encode_form_bytes(bs)) =~= Seq::<u8>::empty());
    } else {
        lemma_decode_encode_form_bytes(bs.skip(1));
        let b = bs[0];
        let p = form_piece(b);
        let rest = encode_form_bytes(bs.skip(1));
        let all = ascii_bytes(encode_form_bytes(bs));
        assert(encode_form_bytes(bs) == p + rest);
        assert(all =~= ascii_bytes(p) + ascii_bytes(rest));
        if is_unreserved(b) {
            assert(all[0] == b);
            assert(all.skip(1) =~= ascii_bytes(rest));
            assert(seq![b] + bs.skip(1) =~= bs);
        } else if b == 32 {
            assert(all[0] == 43);
            assert(all.skip(1) =~= ascii_bytes(rest));
            assert(seq![32u8] + bs.skip(1) =~= bs);
        } else {
            lemma_hex_upper_roundtrip(b);
            assert(all[0] == 37);
            assert(all[1] == hex_upper(b as int / 16) as u8);
            assert(all[2] == hex_upper(b as int % 16) as u8);
            assert(all.skip(3) =~= ascii_bytes(rest));
            assert(seq![b] + bs.skip(1) =~= bs);
        }
    }
}

/// The form encoding of a text, as a text.
pub open spec fn encode_form_spec(value: Seq<char>) -> Seq<char> {
    encode_form_bytes(encode_utf8(value))
}

/// Decoding what `encode_form_component` wrote gives the value back.
pub proof fn lemma_form_roundtrip(value: Seq<char>)
    ensures
        percent_decode_spec(encode_form_spec(value)) == Some(value),
{
    let bs = encode_utf8(value);
    let e = encode_form_bytes(bs);
    lemma_form_encoding_ascii(bs);
    vstd::utf8::is_ascii_chars_encode_utf8(e);
    assert(encode_utf8(e) =~= ascii_bytes(e));
    lemma_decode_encode_form_bytes(bs);
    vstd::utf8::encode_utf8_valid_utf8(value);
    vstd::utf8::encode_utf8_decode_utf8(value);
}

/// A character an encoded form value may hold: an unreserved ASCII
/// character, `+` for a space, or `%` and the hex digits of an escape.
pub open spec fn form_char(c: char) -> bool {
    ||| ('A' <= c && c <= 'Z')
    ||| ('a' <= c && c <= 'z')
    ||| ('0' <= c && c <= '9')
    ||| c == '-'
    ||| c == '_'
    ||| c == '.'
    ||| c == '~'
    ||| c == '+'
    ||| c == '%'
}

proof fn lemma_form_bytes_chars(bs: Seq<u8>)
    ensures
        forall|i: int| 0 <= i < encode_form_bytes(bs).len() ==> form_char(#[trigger] encode_form_bytes(bs)[i]),
    decreases bs.len(),
{
    if bs.len() > 0 {
        lemma_form_bytes_chars(bs.skip(1));
        let b = bs[0];
        let p = form_piece(b);
        let rest = encode_form_bytes(bs.skip(1));
        assert forall|i: int| 0 <= i < p.len() implies form_char(#[trigger] p[i]) by {
            if is_unreserved(b) {
                assert(p[i] == b as char);
            } else if b == 32 {
            } else {
                assert(b as int / 16 < 16);
                assert(b as int % 16 < 16);
            }
        }
        assert forall|i: int| 0 <= i < encode_form_bytes(bs).len() implies form_char(
            #[trigger] encode_form_bytes(bs)[i],
        ) by {
            if i < p.len() {
                assert(encode_form_bytes(bs)[i] == p[i]);
            } else {
                assert(encode_form_bytes(bs)[i] == rest[i - p.len()]);
            }
        }
    }
}

proof fn lemma_form_bytes_concat(a: Seq<u8>, b: Seq<u8>)
    ensures
        encode_form_bytes(a + b) == encode_form_bytes(a) + encode_form_bytes(b),
    decreases a.len(),
{
    if a.len() == 0 {
        assert(a + b =~= b);
    } else {
        assert((a + b)[0] == a[0]);
        assert((a + b).skip(1) =~= a.skip(1) + b);
        lemma_form_bytes_concat(a.skip(1), b);
        assert(form_piece(a[0]) + (encode_form_bytes(a.skip(1)) + encode_form_bytes(b)) =~= form_piece(a[0])
            + encode_form_bytes(a.skip(1)) + encode_form_bytes(b));
    }
}

proof fn lemma_utf8_concat(a: Seq<char>, b: Seq<char>)
    ensures
        encode_utf8(a + b) == encode_utf8(a) + encode_utf8(b),
    decreases a.len(),
{
    if a.len() == 0 {
        assert(a + b =~= b);
        assert(encode_utf8(a) =~= Seq::<u8>::empty());
        assert(encode_utf8(a) + encode_utf8(b) =~= encode_utf8(b));
    } else {
        assert((a + b)[0] == a[0]);
        assert((a + b).drop_first() =~= a.drop_first() + b);
        lemma_utf8_concat(a.drop_first(), b);
        let h = vstd::utf8::encode_scalar(a[0] as u32);
        assert(h + (encode_utf8(a.drop_first()) + encode_utf8(b)) =~= h + encode_utf8(a.drop_first()) + encode_utf8(
            b,
        ));
    }
}

/// An encoded form value uses only unreserved characters, `+` and `%`
/// escapes; a space is written `+`; and the value is encoded piece by piece,
/// so every space of the value becomes a `+` in place.
pub proof fn lemma_form_encoding_shape(value: Seq<char>, a: Seq<char>, b: Seq<char>)
    ensures
        forall|i: int| 0 <= i < encode_form_spec(value).len() ==> form_char(#[trigger] encode_form_spec(value)[i]),
        encode_form_spec(seq![' ']) == seq!['+'],
        encode_form_spec(a + b) == encode_form_spec(a) + encode_form_spec(b),
{
    lemma_form_bytes_chars(encode_utf8(value));
    lemma_utf8_concat(a, b);
    lemma_form_bytes_concat(encode_utf8(a), encode_utf8(b));
    let sp = seq![' '];
    assert(sp.drop_first() =~= Seq::<char>::empty());
    assert(encode_utf8(sp.drop_first()) =~= Seq::<u8>::empty());
    assert(vstd::utf8::encode_scalar(' ' as u32) =~= seq![32u8]) by {
        vstd::utf8::is_ascii_chars_encode_utf8(sp);
    }
    assert(encode_utf8(sp) =~= seq![32u8]);
    let one = seq![32u8];
    assert(one.skip(1) =~= Seq::<u8>::empty());
    assert(encode_form_bytes(one.skip(1)) =~= Seq::<char>::empty());
    assert(one[0] == 32u8);
    assert(!is_unreserved(one[0]));
    assert(form_piece(one[0]) == seq!['+']);
    assert(encode_form_bytes(one) == form_piece(one[0]) + encode_form_bytes(one.skip(1)));
    assert(encode_form_bytes(one) =~= seq!['+']);
}

} // verus!
