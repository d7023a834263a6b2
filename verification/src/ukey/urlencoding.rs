//! Percent-encoding of text (RFC 3986 unreserved characters kept).

use vstd::prelude::*;
use vstd::string::StringSliceAdditionalSpecFns;
use vstd::utf8::encode_utf8;
use crate::text::push_char;

verus! {

/// Letters, digits and `-._~` stay as they are.
pub open spec fn is_unreserved(b: u8) -> bool {
    ||| 0x41 <= b <= 0x5A
    ||| 0x61 <= b <= 0x7A
    ||| 0x30 <= b <= 0x39
    ||| b == 0x2D
    ||| b == 0x2E
    ||| b == 0x5F
    ||| b == 0x7E
}

/// Upper-case hex digit of a value below 16.
pub open spec fn hex_upper(n: u8) -> char {
    if n < 10 {
        (48 + n) as char
    } else {
        (55 + n) as char
    }
}

/// Encoding of one byte.
pub open spec fn encode_byte(b: u8) -> Seq<char> {
    if is_unreserved(b) {
        seq![b as char]
    } else {
        seq!['%', hex_upper(b / 16), hex_upper(b % 16)]
    }
}

/// Encoding of a byte string.
pub open spec fn url_encoded_bytes(b: Seq<u8>) -> Seq<char>
    decreases b.len(),
{
    if b.len() == 0 {
        Seq::empty()
    } else {
        url_encoded_bytes(b.drop_last()) + encode_byte(b.last())
    }
}

/// Encoding of a text: of its UTF-8 bytes.
pub open spec fn url_encoded(s: Seq<char>) -> Seq<char> {
    url_encoded_bytes(encode_utf8(s))
}

fn hex_upper_exec(n: u8) -> (c: char)
    requires
        n < 16,
    ensures
        c == hex_upper(n),
{
    if n < 10 {
        (48 + n) as char
    } else {
        (55 + n) as char
    }
}

/// Percent-encode `s`: each UTF-8 byte outside `A-Z a-z 0-9 - . _ ~` becomes
/// `%` and two upper-case hex digits.
pub fn encode(s: &str) -> (r: String)
    ensures
        r@ == url_encoded(s@),
        percent_decoded(r@) == Some(encode_utf8(s@)),
{
    proof {
        lemma_encoded_decodes(s@);
    }
    let bytes = s.as_bytes();
    let mut result = String::new();
    let mut i: usize = 0;
    while i < bytes.len()
        invariant
            i <= bytes@.len(),
            bytes@ == encode_utf8(s@),
            result@ == url_encoded_bytes(bytes@.take(i as int)),
        decreases bytes@.len() - i,
    {
        let b: u8 = bytes[i];
        assert(bytes@.take(i + 1).drop_last() =~= bytes@.take(i as int));
        let unreserved = (0x41 <= b && b <= 0x5A) || (0x61 <= b && b <= 0x7A) || (0x30 <= b && b <= 0x39)
            || b == 0x2D || b == 0x2E || b == 0x5F || b == 0x7E;
        if unreserved {
            push_char(&mut result, b as char);
            assert(result@ =~= url_encoded_bytes(bytes@.take(i as int)) + encode_byte(b));
        } else {
            push_char(&mut result, '%');
            push_char(&mut result, hex_upper_exec(b / 16));
            push_char(&mut result, hex_upper_exec(b % 16));
            assert(result@ =~= url_encoded_bytes(bytes@.take(i as int)) + encode_byte(b));
        }
        i = i + 1;
    }
    assert(bytes@.take(bytes@.len() as int) =~= bytes@);
    result
}


// ------------------------------------------------------------
// Decoding
// ------------------------------------------------------------

/// Whether a character may stand for itself in a percent-encoded text:
/// `A-Z a-z 0-9 - . _ ~`.
pub open spec fn plain_char(c: char) -> bool {
    let v = c as u32;
    ||| 65 <= v <= 90
    ||| 97 <= v <= 122
    ||| 48 <= v <= 57
    ||| v == 45
    ||| v == 46
    ||| v == 95
    ||| v == 126
}

/// Value of an upper-case hex digit.
pub open spec fn upper_hex_value(c: char) -> Option<u8> {
    let v = c as u32;
    if 48 <= v <= 57 {
        Some((v - 48) as u8)
    } else if 65 <= v <= 70 {
        Some((v - 55) as u8)
    } else {
        None
    }
}

/// The byte of the escape `%XY` whose hex digits are `x` and `y`.
pub open spec fn escaped_byte(x: char, y: char) -> u8 {
    (upper_hex_value(x)->Some_0 * 16 + upper_hex_value(y)->Some_0) as u8
}

/// Percent-decoding: the bytes a text stands for, where each character is
/// a plain character (standing for its own byte) or the start of an escape
/// `%XY` (upper-case hex digits) of a byte that is not a plain character;
/// `None` for any other text.
pub open spec fn percent_decoded(s: Seq<char>) -> Option<Seq<u8>>
    decreases s.len(),
{
    if s.len() == 0 {
        Some(Seq::empty())
    } else if plain_char(s[0]) {
        match percent_decoded(s.skip(1)) {
            Some(t) => Some(seq![s[0] as u8] + t),
            None => None,
        }
    } else if s[0] == '%' && s.len() >= 3 && upper_hex_value(s[1]) is Some && upper_hex_value(s[2]) is Some
        && !plain_char(escaped_byte(s[1], s[2]) as char) {
        match percent_decoded(s.skip(3)) {
            Some(t) => Some(seq![escaped_byte(s[1], s[2])] + t),
            None => None,
        }
    } else {
        None
    }
}

proof fn lemma_decoded_concat(p: Seq<char>, q: Seq<char>)
    requires
        percent_decoded(p) is Some,
        percent_decoded(q) is Some,
    ensures
        percent_decoded(p + q) == Some(percent_decoded(p)->Some_0 + percent_decoded(q)->Some_0),
    decreases p.len(),
{
    if p.len() == 0 {
        assert(p + q =~= q);
        assert(percent_decoded(p)->Some_0 + percent_decoded(q)->Some_0 =~= percent_decoded(q)->Some_0);
    } else if plain_char(p[0]) {
        assert((p + q)[0] == p[0]);
        assert((p + q).skip(1) =~= p.skip(1) + q);
        lemma_decoded_concat(p.skip(1), q);
        assert(seq![p[0] as u8] + (percent_decoded(p.skip(1))->Some_0 + percent_decoded(q)->Some_0) =~= seq![
            p[0] as u8,
        ] + percent_decoded(p.skip(1))->Some_0 + percent_decoded(q)->Some_0);
    } else {
        assert((p + q)[0] == p[0]);
        assert((p + q)[1] == p[1]);
        assert((p + q)[2] == p[2]);
        assert((p + q).skip(3) =~= p.skip(3) + q);
        lemma_decoded_concat(p.skip(3), q);
        let b = escaped_byte(p[1], p[2]);
        assert(seq![b] + (percent_decoded(p.skip(3))->Some_0 + percent_decoded(q)->Some_0) =~= seq![b]
            + percent_decoded(p.skip(3))->Some_0 + percent_decoded(q)->Some_0);
    }
}

proof fn lemma_hex_digit_back(n: u8)
    requires
        n < 16,
    ensures
        upper_hex_value(hex_upper(n)) == Some(n),
{
}

proof fn lemma_byte_decoded(x: u8)
    ensures
        percent_decoded(encode_byte(x)) == Some(seq![x]),
{
    let e = encode_byte(x);
    assert((x as char) as u32 == x as u32);
    if is_unreserved(x) {
        assert(plain_char(x as char));
        assert(e.skip(1) =~= Seq::<char>::empty());
        assert(percent_decoded(e.skip(1)) == Some(Seq::<u8>::empty()));
        assert(seq![(x as char) as u8] + Seq::<u8>::empty() =~= seq![x]);
    } else {
        lemma_hex_digit_back(x / 16);
        lemma_hex_digit_back(x % 16);
        assert(escaped_byte(e[1], e[2]) == x);
        assert(!plain_char(x as char));
        assert(!plain_char(e[0]));
        assert(e.skip(3) =~= Seq::<char>::empty());
        assert(percent_decoded(e.skip(3)) == Some(Seq::<u8>::empty()));
        assert(seq![x] + Seq::<u8>::empty() =~= seq![x]);
    }
}

proof fn lemma_bytes_decoded(b: Seq<u8>)
    ensures
        percent_decoded(url_encoded_bytes(b)) == Some(b),
    decreases b.len(),
{
    if b.len() == 0 {
    } else {
        lemma_bytes_decoded(b.drop_last());
        lemma_byte_decoded(b.last());
        lemma_decoded_concat(url_encoded_bytes(b.drop_last()), encode_byte(b.last()));
        assert(b.drop_last() + seq![b.last()] =~= b);
    }
}

/// Percent-encoding is undone by percent-decoding: the encoded text holds
/// only `A-Z a-z 0-9 - . _ ~` and `%XY` escapes (upper-case hex) of the other
/// bytes, and decoding it gives back the UTF-8 bytes of the text.
pub proof fn lemma_encoded_decodes(s: Seq<char>)
    ensures
        percent_decoded(url_encoded(s)) == Some(encode_utf8(s)),
{
    lemma_bytes_decoded(encode_utf8(s));
}

} // verus!
