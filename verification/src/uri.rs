//! Percent-encoding of text for use inside a URI.
//!
//! A byte is either kept as the ASCII character it stands for or written as
//! `%` and two upper-case hexadecimal digits. Two sets of kept bytes are in
//! use: the narrow one for a single query value, and the wide one for a whole
//! URI, which also keeps the delimiters.

use crate::text::chars_of;
use vstd::prelude::*;
use vstd::string::*;

verus! {

/// Which bytes an encoder leaves unescaped.
#[derive(Clone, Copy, Debug, PartialEq, Eq, Structural)]
pub enum Escaping {
    /// Letters, digits and `- _ . ! ~ * ' ( )`.
    Component,
    /// What `Component` keeps, and the delimiters `; , / ? : @ & = + $ #`.
    Uri,
}

/// ASCII letters and digits.
pub open spec fn is_alphanumeric(b: u8) -> bool {
    (0x30 <= b <= 0x39) || (0x41 <= b <= 0x5a) || (0x61 <= b <= 0x7a)
}

/// The punctuation that is safe anywhere in a URI: `- _ . ! ~ * ' ( )`.
pub open spec fn is_mark(b: u8) -> bool {
    b == 0x2d || b == 0x5f || b == 0x2e || b == 0x21 || b == 0x7e || b == 0x2a || b == 0x27
        || b == 0x28 || b == 0x29
}

/// The characters that structure a URI: `; , / ? : @ & = + $ #`.
pub open spec fn is_delimiter(b: u8) -> bool {
    b == 0x3b || b == 0x2c || b == 0x2f || b == 0x3f || b == 0x3a || b == 0x40 || b == 0x26
        || b == 0x3d || b == 0x2b || b == 0x24 || b == 0x23
}

impl Escaping {
    /// Whether byte `b` is written as it is.
    pub open spec fn keeps(self, b: u8) -> bool {
        is_alphanumeric(b) || is_mark(b) || (self == Escaping::Uri && is_delimiter(b))
    }
}

/// The upper-case hexadecimal digit for a value below sixteen.
pub open spec fn hex_digit(n: u8) -> char {
    if n < 10 {
        (0x30 + n) as u8 as char
    } else {
        (0x37 + n) as u8 as char
    }
}

/// How one byte is written.
pub open spec fn escape(b: u8, mode: Escaping) -> Seq<char> {
    if mode.keeps(b) {
        seq![b as char]
    } else {
        seq!['%', hex_digit(b / 16), hex_digit(b % 16)]
    }
}

/// The percent-encoding of a byte string: each byte's escape, in order.
pub open spec fn percent_encode(bytes: Seq<u8>, mode: Escaping) -> Seq<char>
    decreases bytes.len(),
{
    if bytes.len() == 0 {
        Seq::empty()
    } else {
        percent_encode(bytes.drop_last(), mode) + escape(bytes.last(), mode)
    }
}

fn keeps_byte(b: u8, mode: Escaping) -> (kept: bool)
    ensures
        kept == mode.keeps(b),
{
    let alphanumeric = (0x30 <= b && b <= 0x39) || (0x41 <= b && b <= 0x5a) || (0x61 <= b && b
        <= 0x7a);
    let mark = b == 0x2d || b == 0x5f || b == 0x2e || b == 0x21 || b == 0x7e || b == 0x2a || b
        == 0x27 || b == 0x28 || b == 0x29;
    let delimiter = b == 0x3b || b == 0x2c || b == 0x2f || b == 0x3f || b == 0x3a || b == 0x40
        || b == 0x26 || b == 0x3d || b == 0x2b || b == 0x24 || b == 0x23;
    match mode {
        Escaping::Component => alphanumeric || mark,
        Escaping::Uri => alphanumeric || mark || delimiter,
    }
}

fn hex_char(n: u8) -> (c: char)
    requires
        n < 16,
    ensures
        c == hex_digit(n),
{
    if n < 10 {
        (0x30 + n) as char
    } else {
        (0x37 + n) as char
    }
}

/// Percent-encodes the UTF-8 bytes of `text`.
pub fn percent_encode_text(text: &str, mode: Escaping) -> (out: String)
    ensures
        out@ == percent_encode(text.spec_bytes(), mode),
{
    let bytes = text.as_bytes();
    let n: usize = bytes.len();
    let mut out = String::new();
    let mut i: usize = 0;
    while i < n
        invariant
            i <= n,
            n == bytes@.len(),
            out@ == percent_encode(bytes@.take(i as int), mode),
        decreases n - i,
    {
        let b: u8 = bytes[i];
        proof {
            let next = bytes@.take(i + 1);
            assert(next.drop_last() == bytes@.take(i as int));
            assert(next.last() == b);
        }
        if keeps_byte(b, mode) {
            out.push(b as char);
        } else {
            out.push('%');
            out.push(hex_char(b / 16));
            out.push(hex_char(b % 16));
        }
        i += 1;
    }
    proof {
        assert(bytes@.take(n as int) == bytes@);
    }
    out
}

/// Encodes `text` as one URI component: everything but letters, digits and
/// `- _ . ! ~ * ' ( )` is escaped, a space as `%20`.
pub fn encode_uri_component(text: &str) -> (out: String)
    ensures
        out@ == percent_encode(text.spec_bytes(), Escaping::Component),
{
    percent_encode_text(text, Escaping::Component)
}

/// Encodes `text` as a whole URI: as `encode_uri_component`, but the
/// delimiters `; , / ? : @ & = + $ #` are kept.
pub fn encode_uri(text: &str) -> (out: String)
    ensures
        out@ == percent_encode(text.spec_bytes(), Escaping::Uri),
{
    percent_encode_text(text, Escaping::Uri)
}

/// The value of a hexadecimal digit, in either case.
pub open spec fn hex_value(c: char) -> Option<u8> {
    let v = c as u32;
    if 0x30 <= v <= 0x39 {
        Some((v - 0x30) as u8)
    } else if 0x41 <= v <= 0x46 {
        Some((v - 0x37) as u8)
    } else if 0x61 <= v <= 0x66 {
        Some((v - 0x57) as u8)
    } else {
        None
    }
}

/// `byte` in front of what `rest` decoded to, if it decoded at all.
pub open spec fn prepend(byte: u8, rest: Option<Seq<u8>>) -> Option<Seq<u8>> {
    match rest {
        Some(bytes) => Some(seq![byte] + bytes),
        None => None,
    }
}

/// The bytes that a percent-encoded text stands for: `%` and two hexadecimal
/// digits give one byte, any other ASCII character gives itself. There is no
/// decoding where a `%` lacks its two digits or a character is not ASCII.
pub open spec fn percent_decode(text: Seq<char>) -> Option<Seq<u8>>
    decreases text.len(),
{
    if text.len() == 0 {
        Some(Seq::empty())
    } else if text[0] == '%' {
        if text.len() >= 3 && hex_value(text[1]) is Some && hex_value(text[2]) is Some {
            prepend(
                (16 * hex_value(text[1])->0 + hex_value(text[2])->0) as u8,
                percent_decode(text.skip(3)),
            )
        } else {
            None
        }
    } else if (text[0] as u32) < 0x80 {
        prepend(text[0] as u8, percent_decode(text.skip(1)))
    } else {
        None
    }
}

/// `front` followed by what `rest` decoded to, if it decoded at all.
pub open spec fn extend(front: Seq<u8>, rest: Option<Seq<u8>>) -> Option<Seq<u8>> {
    match rest {
        Some(bytes) => Some(front + bytes),
        None => None,
    }
}

fn hex_number(c: char) -> (value: Option<u8>)
    ensures
        value == hex_value(c),
{
    let v: u32 = c as u32;
    if 0x30 <= v && v <= 0x39 {
        Some((v - 0x30) as u8)
    } else if 0x41 <= v && v <= 0x46 {
        Some((v - 0x37) as u8)
    } else if 0x61 <= v && v <= 0x66 {
        Some((v - 0x57) as u8)
    } else {
        None
    }
}

/// Decodes a percent-encoded text into the bytes it stands for. There is no
/// result where a `%` lacks its two hexadecimal digits or a character is not
/// ASCII.
pub fn percent_decode_text(text: &str) -> (r: Option<Vec<u8>>)
    ensures
        match r {
            Some(bytes) => percent_decode(text@) == Some(bytes@),
            None => percent_decode(text@) is None,
        },
{
    let chars = chars_of(text);
    let n: usize = chars.len();
    let mut out: Vec<u8> = Vec::new();
    let mut i: usize = 0;
    proof {
        assert(text@.skip(0) == text@);
        assert(Seq::<u8>::empty() + percent_decode(text@)->0 == percent_decode(text@)->0);
    }
    while i < n
        invariant
            i <= n,
            n == chars@.len(),
            chars@ == text@,
            percent_decode(text@) == extend(out@, percent_decode(text@.skip(i as int))),
        decreases n - i,
    {
        let ghost rest = text@.skip(i as int);
        let c: char = chars[i];
        proof {
            assert(rest[0] == c);
        }
        if c == '%' {
            if n - i < 3 {
                return None;
            }
            proof {
                assert(rest[1] == text@[i + 1]);
                assert(rest[2] == text@[i + 2]);
                assert(rest.skip(3) == text@.skip(i + 3));
            }
            let hi = match hex_number(chars[i + 1]) {
                Some(v) => v,
                None => { return None; },
            };
            let lo = match hex_number(chars[i + 2]) {
                Some(v) => v,
                None => { return None; },
            };
            let byte: u8 = 16 * hi + lo;
            proof {
                let tail = percent_decode(text@.skip(i + 3));
                if tail is Some {
                    assert(out@ + (seq![byte] + tail->0) == out@.push(byte) + tail->0);
                }
            }
            out.push(byte);
            i += 3;
        } else if (c as u32) < 0x80 {
            let byte: u8 = c as u8;
            proof {
                assert(rest.skip(1) == text@.skip(i + 1));
                let tail = percent_decode(text@.skip(i + 1));
                if tail is Some {
                    assert(out@ + (seq![byte] + tail->0) == out@.push(byte) + tail->0);
                }
            }
            out.push(byte);
            i += 1;
        } else {
            return None;
        }
    }
    proof {
        assert(out@ + Seq::<u8>::empty() == out@);
    }
    Some(out)
}

/// A character that cannot end or split a query value: a letter, a digit, one
/// of `- _ . ! ~ * ' ( )`, or the `%` that starts an escape.
pub open spec fn is_query_safe(c: char) -> bool {
    c == '%' || ((c as u32) < 0x80 && (is_alphanumeric(c as u8) || is_mark(c as u8)))
}

proof fn lemma_encode_concat(a: Seq<u8>, b: Seq<u8>, mode: Escaping)
    ensures
        percent_encode(a + b, mode) == percent_encode(a, mode) + percent_encode(b, mode),
    decreases b.len(),
{
    if b.len() == 0 {
        assert(a + b == a);
        assert(percent_encode(a, mode) + percent_encode(b, mode) == percent_encode(a, mode));
    } else {
        lemma_encode_concat(a, b.drop_last(), mode);
        assert((a + b).drop_last() == a + b.drop_last());
        assert((a + b).last() == b.last());
        assert(percent_encode(a + b, mode) == (percent_encode(a, mode) + percent_encode(
            b.drop_last(),
            mode,
        )) + escape(b.last(), mode));
        assert(percent_encode(a + b, mode) == percent_encode(a, mode) + (percent_encode(
            b.drop_last(),
            mode,
        ) + escape(b.last(), mode)));
    }
}

proof fn lemma_encode_first(bytes: Seq<u8>, mode: Escaping)
    requires
        bytes.len() > 0,
    ensures
        percent_encode(bytes, mode) == escape(bytes[0], mode) + percent_encode(
            bytes.skip(1),
            mode,
        ),
{
    let head = seq![bytes[0]];
    assert(bytes == head + bytes.skip(1));
    lemma_encode_concat(head, bytes.skip(1), mode);
    assert(head.drop_last().len() == 0);
    assert(percent_encode(head.drop_last(), mode) == Seq::<char>::empty());
    assert(head.last() == bytes[0]);
    assert(percent_encode(head, mode) == Seq::<char>::empty() + escape(bytes[0], mode));
    assert(percent_encode(head, mode) == escape(bytes[0], mode));
}

proof fn lemma_hex_round_trip(n: u8)
    requires
        n < 16,
    ensures
        hex_value(hex_digit(n)) == Some(n),
{
}

proof fn lemma_decode_escape(b: u8, mode: Escaping, tail: Seq<char>)
    ensures
        percent_decode(escape(b, mode) + tail) == prepend(b, percent_decode(tail)),
{
    let text = escape(b, mode) + tail;
    if mode.keeps(b) {
        assert(text[0] == b as char);
        assert(text.skip(1) == tail);
    } else {
        let hi: u8 = b / 16;
        let lo: u8 = b % 16;
        lemma_hex_round_trip(hi);
        lemma_hex_round_trip(lo);
        assert(text[0] == '%');
        assert(text[1] == hex_digit(hi));
        assert(text[2] == hex_digit(lo));
        assert(text.skip(3) == tail);
        assert((16 * hi + lo) as u8 == b);
    }
}

/// Decoding undoes encoding: whatever bytes went in come out again, under
/// either set of kept characters.
pub proof fn percent_decode_inverts_encode(bytes: Seq<u8>, mode: Escaping)
    ensures
        percent_decode(percent_encode(bytes, mode)) == Some(bytes),
    decreases bytes.len(),
{
    if bytes.len() > 0 {
        let rest = bytes.skip(1);
        lemma_encode_first(bytes, mode);
        lemma_decode_escape(bytes[0], mode, percent_encode(rest, mode));
        percent_decode_inverts_encode(rest, mode);
        assert(seq![bytes[0]] + rest == bytes);
    }
}

/// An encoded component holds only letters, digits, `- _ . ! ~ * ' ( )` and
/// `%`: no space, and none of `& / = + ? #`, is left in it.
pub proof fn component_encoding_is_query_safe(bytes: Seq<u8>)
    ensures
        forall|i: int|
            0 <= i < percent_encode(bytes, Escaping::Component).len() ==> is_query_safe(
                #[trigger] percent_encode(bytes, Escaping::Component)[i],
            ),
    decreases bytes.len(),
{
    if bytes.len() > 0 {
        component_encoding_is_query_safe(bytes.drop_last());
        let b = bytes.last();
        let piece = escape(b, Escaping::Component);
        let init = percent_encode(bytes.drop_last(), Escaping::Component);
        let whole = percent_encode(bytes, Escaping::Component);
        assert(whole == init + piece);
        assert forall|i: int| 0 <= i < whole.len() implies is_query_safe(#[trigger] whole[i]) by {
            if i < init.len() {
                assert(whole[i] == init[i]);
            } else {
                assert(whole[i] == piece[i - init.len()]);
                if !Escaping::Component.keeps(b) {
                    assert(is_query_safe(hex_digit(b / 16)));
                    assert(is_query_safe(hex_digit(b % 16)));
                }
            }
        }
    }
}

/// A character that is safe in a query value is no space and none of
/// `& / = + ? #`.
pub proof fn query_safe_is_no_delimiter(c: char)
    requires
        is_query_safe(c),
    ensures
        c != ' ',
        c != '&',
        c != '/',
        c != '=',
        c != '+',
        c != '?',
        c != '#',
{
}

/// Nothing but the empty byte string encodes to the empty text.
pub proof fn encoding_is_empty_only_for_empty(bytes: Seq<u8>, mode: Escaping)
    ensures
        percent_encode(bytes, mode).len() == 0 <==> bytes.len() == 0,
{
    if bytes.len() > 0 {
        assert(escape(bytes.last(), mode).len() > 0);
    }
}

} // verus!
