//! Minimal ASN.1 DER encoder for the structures used by electronic seals.
//!
//! Supported: SEQUENCE, SET, INTEGER, OBJECT IDENTIFIER, BIT STRING,
//! OCTET STRING, NULL, BOOLEAN, UTF8String, PrintableString, IA5String,
//! UTCTime, GeneralizedTime and context-specific tags [0]..[15].

pub mod oids;

use vstd::prelude::*;
use vstd::arithmetic::div_mod::*;
use vstd::string::StringSliceAdditionalSpecFns;
use crate::text::{chars_of, parse_u64, parse_u64_trimmed, trim};

verus! {

pub const TAG_BOOLEAN: u8 = 0x01;
pub const TAG_INTEGER: u8 = 0x02;
pub const TAG_BIT_STRING: u8 = 0x03;
pub const TAG_OCTET_STRING: u8 = 0x04;
pub const TAG_NULL: u8 = 0x05;
pub const TAG_OID: u8 = 0x06;
pub const TAG_UTF8STRING: u8 = 0x0C;
pub const TAG_PRINTABLE_STRING: u8 = 0x13;
pub const TAG_IA5STRING: u8 = 0x16;
pub const TAG_UTCTIME: u8 = 0x17;
pub const TAG_GENERALIZED_TIME: u8 = 0x18;
pub const TAG_SEQUENCE: u8 = 0x30;
pub const TAG_SET: u8 = 0x31;

/// 256 raised to `n`.
pub open spec fn pow256(n: nat) -> nat
    decreases n,
{
    if n == 0 {
        1
    } else {
        256 * pow256((n - 1) as nat)
    }
}

/// Number of bytes needed to write `x` in base 256 without leading zeros (0 for 0).
pub open spec fn byte_len(x: nat) -> nat
    decreases x,
{
    if x == 0 {
        0
    } else {
        1 + byte_len(x / 256)
    }
}

/// The low `n` base-256 digits of `x`, most significant first.
pub open spec fn be_bytes(x: nat, n: nat) -> Seq<u8> {
    Seq::new(n, |i: int| ((x / pow256((n - 1 - i) as nat)) % 256) as u8)
}

/// DER length field of a value of `len` bytes (short form below 128, long form otherwise).
pub open spec fn spec_length(len: nat) -> Seq<u8> {
    if len < 128 {
        seq![len as u8]
    } else {
        seq![(0x80 + byte_len(len)) as u8] + be_bytes(len, byte_len(len))
    }
}

/// Tag, length and value.
pub open spec fn spec_tlv(tag: u8, value: Seq<u8>) -> Seq<u8> {
    seq![tag] + spec_length(value.len()) + value
}

pub proof fn lemma_pow256_positive(n: nat)
    ensures
        pow256(n) >= 1,
    decreases n,
{
    if n > 0 {
        lemma_pow256_positive((n - 1) as nat);
    }
}

pub proof fn lemma_pow256_eight()
    ensures
        pow256(8) == 0x1_0000_0000_0000_0000,
{
    reveal_with_fuel(pow256, 9);
}

/// A value below `256^n` needs at most `n` bytes.
pub proof fn lemma_byte_len_bound(x: nat, n: nat)
    requires
        x < pow256(n),
    ensures
        byte_len(x) <= n,
    decreases n,
{
    if x > 0 {
        assert(n > 0);
        lemma_fundamental_div_mod(x as int, 256);
        lemma_byte_len_bound(x / 256, (n - 1) as nat);
    }
}

/// A value is below 256 to the power of its byte length.
pub proof fn lemma_byte_len_fits(x: nat)
    ensures
        x < pow256(byte_len(x)),
    decreases x,
{
    if x > 0 {
        lemma_fundamental_div_mod(x as int, 256);
        lemma_byte_len_fits(x / 256);
    }
}

proof fn lemma_div_pow256_step(x: nat, j: nat)
    ensures
        (x / pow256(j)) / 256 == x / pow256(j + 1),
{
    lemma_pow256_positive(j);
    lemma_div_denominator(x as int, pow256(j) as int, 256);
    assert(pow256(j + 1) == 256 * pow256(j));
}

/// The header of a TLV takes at most ten bytes.
pub proof fn lemma_tlv_len_bound(tag: u8, v: Seq<u8>)
    requires
        v.len() < 0x1_0000_0000_0000_0000,
    ensures
        spec_tlv(tag, v).len() <= v.len() + 10,
        spec_tlv(tag, v).len() >= v.len() + 2,
{
    if v.len() >= 128 {
        lemma_pow256_eight();
        lemma_byte_len_bound(v.len(), 8);
    }
}

/// Encode a DER length field.
pub fn encode_length(len: usize) -> (r: Vec<u8>)
    ensures
        r@ == spec_length(len as nat),
{
    if len < 0x80 {
        let mut v: Vec<u8> = Vec::new();
        v.push(len as u8);
        return v;
    }
    let ghost x: nat = len as nat;
    let ghost n: nat = byte_len(x);
    proof {
        lemma_pow256_eight();
        lemma_byte_len_bound(x, 8);
    }
    let mut result: Vec<u8> = Vec::new();
    result.push(0x80u8);
    let mut tmp: usize = len;
    let mut j: usize = 0;
    assert(x / pow256(0nat) == x) by {
        assert(pow256(0nat) == 1);
    }
    while tmp > 0
        invariant
            n == byte_len(x),
            n <= 8,
            x == len as nat,
            tmp as nat == x / pow256(j as nat),
            n == j + byte_len(tmp as nat),
            result@.len() == j + 1,
            result@[0] == 0x80u8,
            result@.subrange(1, j + 1) == be_bytes(x, n).subrange(n - j, n as int),
        decreases tmp,
    {
        let b: u8 = (tmp % 256) as u8;
        proof {
            lemma_div_pow256_step(x, j as nat);
            assert(be_bytes(x, n)[n - 1 - j] == b);
        }
        let ghost old_result = result@;
        result.insert(1, b);
        assert(result@.subrange(1, j + 2) =~= be_bytes(x, n).subrange(n - j - 1, n as int)) by {
            assert(result@ == old_result.subrange(0, 1).push(b) + old_result.subrange(1, j + 1));
        }
        tmp = tmp / 256;
        j = j + 1;
    }
    assert(byte_len(0) == 0);
    assert(j == n);
    let tag: u8 = 0x80u8 + j as u8;
    let ghost before = result@;
    result.set(0, tag);
    assert(be_bytes(x, n).subrange(0, n as int) =~= be_bytes(x, n));
    assert(result@ =~= seq![tag] + before.subrange(1, j + 1));
    assert(result@ =~= spec_length(x));
    result
}


/// Append `s` to `out`.
pub fn extend_bytes(out: &mut Vec<u8>, s: &[u8])
    ensures
        final(out)@ == old(out)@ + s@,
{
    let ghost start = out@;
    let mut i: usize = 0;
    while i < s.len()
        invariant
            i <= s@.len(),
            out@ == start + s@.take(i as int),
        decreases s@.len() - i,
    {
        out.push(s[i]);
        assert(s@.take(i + 1) =~= s@.take(i as int).push(s@[i as int]));
        i = i + 1;
    }
    assert(s@.take(s@.len() as int) =~= s@);
}

/// Assemble tag, length and value.
pub fn tlv(tag: u8, value: &[u8]) -> (r: Vec<u8>)
    ensures
        r@ == spec_tlv(tag, value@),
{
    let mut result: Vec<u8> = Vec::new();
    result.push(tag);
    let len_bytes = encode_length(value.len());
    extend_bytes(&mut result, len_bytes.as_slice());
    extend_bytes(&mut result, value);
    assert(result@ =~= spec_tlv(tag, value@));
    result
}

// ------------------------------------------------------------
// Primitive types
// ------------------------------------------------------------

pub open spec fn spec_boolean(val: bool) -> Seq<u8> {
    spec_tlv(TAG_BOOLEAN, seq![if val { 0xFFu8 } else { 0x00u8 }])
}

/// Encode a BOOLEAN.
pub fn boolean(val: bool) -> (r: Vec<u8>)
    ensures
        r@ == spec_boolean(val),
{
    let content: [u8; 1] = [if val { 0xFFu8 } else { 0x00u8 }];
    let r = tlv(TAG_BOOLEAN, &content);
    assert(content@ =~= seq![if val { 0xFFu8 } else { 0x00u8 }]);
    r
}

/// Smallest number of bytes whose two's complement range holds `v`.
pub open spec fn signed_len(v: int) -> nat
    decreases (if v < 0 { -v } else { v }),
{
    if -128 <= v < 128 {
        1
    } else {
        proof {
            lemma_fundamental_div_mod(v, 256);
        }
        1 + signed_len(v / 256)
    }
}

/// `v` written as an `n`-byte big-endian two's complement number.
pub open spec fn twos_complement(v: int, n: nat) -> Seq<u8> {
    be_bytes((v % (pow256(n) as int)) as nat, n)
}

/// Content octets of an INTEGER: the minimal two's complement form.
pub open spec fn spec_integer_content(v: int) -> Seq<u8> {
    twos_complement(v, signed_len(v))
}

pub open spec fn spec_integer(v: int) -> Seq<u8> {
    spec_tlv(TAG_INTEGER, spec_integer_content(v))
}

/// `v` lies in the range of an `n`-byte two's complement number (`n >= 1`).
pub open spec fn fits_signed(v: int, n: nat) -> bool {
    -(128 * pow256((n - 1) as nat)) <= v < 128 * pow256((n - 1) as nat)
}

proof fn lemma_fits_signed_step(v: int, n: nat)
    requires
        n >= 1,
    ensures
        fits_signed(v, n + 1) == fits_signed(v / 256, n),
{
    lemma_fundamental_div_mod(v, 256);
    assert(pow256(n) == 256 * pow256((n - 1) as nat));
}

/// `signed_len(v)` is the least `n >= 1` with `fits_signed(v, n)`.
proof fn lemma_signed_len_least(v: int)
    ensures
        signed_len(v) >= 1,
        fits_signed(v, signed_len(v)),
        forall|m: nat| 1 <= m < signed_len(v) ==> !fits_signed(v, m),
    decreases (if v < 0 { -v } else { v }),
{
    reveal_with_fuel(pow256, 2);
    if -128 <= v < 128 {
    } else {
        lemma_fundamental_div_mod(v, 256);
        let w = v / 256;
        lemma_signed_len_least(w);
        let k = signed_len(w);
        lemma_fits_signed_step(v, k);
        assert forall|m: nat| 1 <= m < signed_len(v) implies !fits_signed(v, m) by {
            if m == 1 {
                assert(!fits_signed(v, 1));
            } else {
                lemma_fits_signed_step(v, (m - 1) as nat);
                assert(!fits_signed(w, (m - 1) as nat));
            }
        }
    }
}

proof fn lemma_fits_signed_eight(v: int)
    requires
        i64::MIN <= v <= i64::MAX,
    ensures
        fits_signed(v, 8),
{
    reveal_with_fuel(pow256, 8);
}

/// `256^m <= 256^n` for `m <= n`.
pub proof fn lemma_pow256_mono(m: nat, n: nat)
    requires
        m <= n,
    ensures
        pow256(m) <= pow256(n),
    decreases n,
{
    if m < n {
        lemma_pow256_mono(m, (n - 1) as nat);
    }
}

proof fn lemma_pow256_step(n: nat)
    ensures
        pow256(n + 1) == 256 * pow256(n),
{
}

/// The low `n` bytes of `x`, most significant first.
pub fn be_bytes_vec(x: u64, n: usize) -> (r: Vec<u8>)
    requires
        n <= 8,
    ensures
        r@ == be_bytes(x as nat, n as nat),
{
    let ghost xx: nat = x as nat;
    let ghost nn: nat = n as nat;
    let mut r: Vec<u8> = Vec::new();
    let mut tmp: u64 = x;
    let mut j: usize = 0;
    assert(pow256(0) == 1);
    assert(xx / 1 == xx);
    while j < n
        invariant
            j <= n <= 8,
            xx == x as nat,
            nn == n as nat,
            tmp as nat == xx / pow256(j as nat),
            r@ == be_bytes(xx, nn).subrange(nn - j, nn as int),
        decreases n - j,
    {
        let b: u8 = (tmp % 256) as u8;
        proof {
            lemma_div_pow256_step(xx, j as nat);
            assert(be_bytes(xx, nn)[nn - 1 - j] == b);
        }
        let ghost old_r = r@;
        r.insert(0, b);
        assert(r@ =~= be_bytes(xx, nn).subrange(nn - j - 1, nn as int));
        tmp = tmp / 256;
        j = j + 1;
    }
    assert(r@ =~= be_bytes(xx, nn));
    r
}

/// Encode an INTEGER from a signed 64-bit value (minimal two's complement form).
pub fn integer(val: i64) -> (r: Vec<u8>)
    ensures
        r@ == spec_integer(val as int),
{
    proof {
        lemma_signed_len_least(val as int);
        lemma_fits_signed_eight(val as int);
    }
    // Find the least byte count n whose two's complement range holds val;
    // half = 128 * 256^(n-1) is the upper end of that range.
    let mut n: usize = 1;
    let mut half: i128 = 128;
    assert(pow256(0) == 1);
    while !(-half <= val as i128 && (val as i128) < half)
        invariant
            1 <= n <= 8,
            half as int == 128 * pow256((n - 1) as nat),
            0 < half <= 0x8000_0000_0000_0000,
            forall|m: nat| 1 <= m < n ==> !fits_signed(val as int, m),
            fits_signed(val as int, 8),
            signed_len(val as int) >= 1,
            fits_signed(val as int, signed_len(val as int)),
            forall|m: nat| 1 <= m < signed_len(val as int) ==> !fits_signed(val as int, m),
        decreases 8 - n,
    {
        assert(!fits_signed(val as int, n as nat));
        proof {
            lemma_pow256_step((n - 1) as nat);
            lemma_pow256_mono(n as nat, 7);
            reveal_with_fuel(pow256, 8);
        }
        n = n + 1;
        half = half * 256;
    }
    assert(n == signed_len(val as int)) by {
        if n < signed_len(val as int) {
            assert(!fits_signed(val as int, n as nat));
        }
        if n > signed_len(val as int) {
            assert(!fits_signed(val as int, signed_len(val as int)));
        }
    }
    // val mod 256^n as an unsigned number
    let modulus: i128 = half * 2;
    proof {
        lemma_pow256_step((n - 1) as nat);
    }
    assert(modulus as int == pow256(n as nat));
    let x: i128 = if val >= 0 { val as i128 } else { modulus + val as i128 };
    proof {
        if val >= 0 {
            lemma_small_mod(val as nat, pow256(n as nat));
        } else {
            lemma_small_mod(x as nat, pow256(n as nat));
            lemma_mod_add_multiples_vanish(val as int, pow256(n as nat) as int);
        }
        lemma_pow256_eight();
    }
    assert(x as int == (val as int) % (pow256(n as nat) as int));
    proof {
        lemma_pow256_mono(n as nat, 8);
    }
    assert(0 <= x < 0x1_0000_0000_0000_0000);
    let content = be_bytes_vec(x as u64, n);
    tlv(TAG_INTEGER, content.as_slice())
}

pub open spec fn spec_unsigned_integer_content(bytes: Seq<u8>) -> Seq<u8> {
    if bytes.len() == 0 {
        seq![0u8]
    } else if bytes[0] >= 0x80 {
        seq![0u8] + bytes
    } else {
        bytes
    }
}

/// Encode an INTEGER from big-endian magnitude bytes; a zero byte is put in front
/// when the top bit is set, and an empty input gives zero.
pub fn integer_bytes(bytes: &[u8]) -> (r: Vec<u8>)
    ensures
        r@ == spec_tlv(TAG_INTEGER, spec_unsigned_integer_content(bytes@)),
{
    let mut padded: Vec<u8> = Vec::new();
    if bytes.len() == 0 {
        padded.push(0);
    } else {
        let first: u8 = bytes[0];
        if first & 0x80 != 0 {
            padded.push(0);
        }
        extend_bytes(&mut padded, bytes);
        assert(first & 0x80 != 0 <==> first >= 0x80) by (bit_vector);
    }
    assert(padded@ =~= spec_unsigned_integer_content(bytes@));
    tlv(TAG_INTEGER, padded.as_slice())
}


// ------------------------------------------------------------
// OBJECT IDENTIFIER
// ------------------------------------------------------------

/// `s` cut at every `.` (like `str::split('.')`: always at least one piece).
pub open spec fn split_dots(s: Seq<char>) -> Seq<Seq<char>>
    decreases s.len(),
{
    if s.len() == 0 {
        seq![Seq::<char>::empty()]
    } else {
        let p = split_dots(s.drop_last());
        if s.last() == '.' {
            p.push(Seq::<char>::empty())
        } else {
            p.update(p.len() - 1, p.last().push(s.last()))
        }
    }
}

/// The pieces that parse as `u64` after trimming, in order; the others are skipped.
pub open spec fn collect_arcs(pieces: Seq<Seq<char>>) -> Seq<u64>
    decreases pieces.len(),
{
    if pieces.len() == 0 {
        Seq::<u64>::empty()
    } else {
        let rest = collect_arcs(pieces.drop_last());
        match parse_u64(trim(pieces.last())) {
            Some(v) => rest.push(v),
            None => rest,
        }
    }
}

/// The numeric arcs of a dotted OID text such as "1.2.156.10197.1.301".
pub open spec fn spec_oid_arcs(s: Seq<char>) -> Seq<u64> {
    collect_arcs(split_dots(s))
}

/// Base-128 groups above the lowest one, each with the continuation bit set.
pub open spec fn arc_high(m: nat) -> Seq<u8>
    decreases m,
{
    if m == 0 {
        Seq::<u8>::empty()
    } else {
        arc_high(m / 128) + seq![(0x80 + m % 128) as u8]
    }
}

/// Base-128 encoding of one arc.
pub open spec fn arc_bytes(n: nat) -> Seq<u8> {
    arc_high(n / 128) + seq![(n % 128) as u8]
}

pub open spec fn arcs_bytes(arcs: Seq<u64>) -> Seq<u8>
    decreases arcs.len(),
{
    if arcs.len() == 0 {
        Seq::<u8>::empty()
    } else {
        arcs_bytes(arcs.drop_last()) + arc_bytes(arcs.last() as nat)
    }
}

/// Content octets: `40 * a0 + a1` in one byte (kept to its low 8 bits), then the
/// remaining arcs in base 128; empty when fewer than two arcs are given.
pub open spec fn spec_oid_content(arcs: Seq<u64>) -> Seq<u8> {
    if arcs.len() < 2 {
        Seq::<u8>::empty()
    } else {
        seq![((arcs[0] * 40 + arcs[1]) % 256) as u8] + arcs_bytes(arcs.subrange(2, arcs.len() as int))
    }
}

pub open spec fn spec_oid(s: Seq<char>) -> Seq<u8> {
    spec_tlv(TAG_OID, spec_oid_content(spec_oid_arcs(s)))
}

fn push_arc_high(out: &mut Vec<u8>, m: u64)
    ensures
        final(out)@ == old(out)@ + arc_high(m as nat),
    decreases m,
{
    if m > 0 {
        push_arc_high(out, m / 128);
        out.push((0x80 + m % 128) as u8);
    }
}

fn push_arc(out: &mut Vec<u8>, n: u64)
    ensures
        final(out)@ == old(out)@ + arc_bytes(n as nat),
{
    push_arc_high(out, n / 128);
    out.push((n % 128) as u8);
}

proof fn lemma_first_arc_byte(a: u64, b: u64)
    ensures
        (((a % 256) * 40 + b % 256) % 256) == ((a * 40 + b) % 256) as int,
{
    lemma_add_mod_noop((a * 40) as int, b as int, 256);
    lemma_mul_mod_noop_left(a as int, 40, 256);
    lemma_add_mod_noop(((a % 256) * 40) as int, b as int, 256);
    lemma_mod_twice(b as int, 256);
    lemma_add_mod_noop(((a % 256) * 40) as int, (b % 256) as int, 256);
}

/// Encode an OBJECT IDENTIFIER from its dotted text.
///
/// Pieces that do not parse as numbers are skipped; with fewer than two arcs the
/// content is empty.
pub fn oid(oid_str: &str) -> (r: Vec<u8>)
    ensures
        r@ == spec_oid(oid_str@),
{
    let cs = chars_of(oid_str);
    let mut arcs: Vec<u64> = Vec::new();
    let mut start: usize = 0;
    let mut i: usize = 0;
    assert(cs@.take(0) =~= Seq::<char>::empty());
    assert(split_dots(Seq::<char>::empty()).drop_last() =~= Seq::<Seq<char>>::empty());
    while i < cs.len()
        invariant
            start <= i <= cs@.len(),
            split_dots(cs@.take(i as int)).len() > 0,
            split_dots(cs@.take(i as int)).last() == cs@.subrange(start as int, i as int),
            collect_arcs(split_dots(cs@.take(i as int)).drop_last()) == arcs@,
        decreases cs@.len() - i,
    {
        let ghost p = split_dots(cs@.take(i as int));
        assert(cs@.take(i + 1).drop_last() =~= cs@.take(i as int));
        if cs[i] == '.' {
            let piece = parse_u64_trimmed(&cs, start, i);
            match piece {
                Some(v) => arcs.push(v),
                None => {},
            }
            start = i + 1;
            assert(split_dots(cs@.take(i + 1)).drop_last() =~= p);
            assert(cs@.subrange(start as int, i + 1) =~= Seq::<char>::empty());
        } else {
            assert(split_dots(cs@.take(i + 1)).drop_last() =~= p.drop_last());
            assert(cs@.subrange(start as int, i + 1) =~= cs@.subrange(start as int, i as int).push(cs@[i as int]));
        }
        i = i + 1;
    }
    let last_piece = parse_u64_trimmed(&cs, start, cs.len());
    match last_piece {
        Some(v) => arcs.push(v),
        None => {},
    }
    assert(cs@.take(cs@.len() as int) =~= cs@);
    assert(arcs@ == spec_oid_arcs(oid_str@));
    let mut content: Vec<u8> = Vec::new();
    if arcs.len() >= 2 {
        let first: u8 = (((arcs[0] % 256) * 40 + arcs[1] % 256) % 256) as u8;
        proof {
            lemma_first_arc_byte(arcs@[0], arcs@[1]);
        }
        content.push(first);
        let mut k: usize = 2;
        while k < arcs.len()
            invariant
                2 <= k <= arcs@.len(),
                content@ == seq![first] + arcs_bytes(arcs@.subrange(2, k as int)),
            decreases arcs@.len() - k,
        {
            push_arc(&mut content, arcs[k]);
            assert(arcs@.subrange(2, k + 1).drop_last() =~= arcs@.subrange(2, k as int));
            k = k + 1;
        }
    }
    assert(content@ =~= spec_oid_content(arcs@));
    tlv(TAG_OID, content.as_slice())
}

/// Encode NULL.
pub fn null() -> (r: Vec<u8>)
    ensures
        r@ == seq![TAG_NULL, 0x00u8],
{
    let mut v: Vec<u8> = Vec::new();
    v.push(TAG_NULL);
    v.push(0x00);
    assert(v@ =~= seq![TAG_NULL, 0x00u8]);
    v
}

/// Encode an OCTET STRING.
pub fn octet_string(data: &[u8]) -> (r: Vec<u8>)
    ensures
        r@ == spec_tlv(TAG_OCTET_STRING, data@),
{
    tlv(TAG_OCTET_STRING, data)
}

pub open spec fn spec_bit_string(data: Seq<u8>, unused_bits: u8) -> Seq<u8> {
    spec_tlv(TAG_BIT_STRING, seq![unused_bits] + data)
}

/// Encode a BIT STRING whose first content byte counts the unused bits.
pub fn bit_string(data: &[u8], unused_bits: u8) -> (r: Vec<u8>)
    ensures
        r@ == spec_bit_string(data@, unused_bits),
{
    let mut content: Vec<u8> = Vec::new();
    content.push(unused_bits);
    extend_bytes(&mut content, data);
    assert(content@ =~= seq![unused_bits] + data@);
    tlv(TAG_BIT_STRING, content.as_slice())
}

/// Encode a UTF8String.
pub fn utf8_string(s: &str) -> (r: Vec<u8>)
    ensures
        r@ == spec_tlv(TAG_UTF8STRING, s.spec_bytes()),
{
    tlv(TAG_UTF8STRING, s.as_bytes())
}

/// Encode a PrintableString (the bytes of `s` as given).
pub fn printable_string(s: &str) -> (r: Vec<u8>)
    ensures
        r@ == spec_tlv(TAG_PRINTABLE_STRING, s.spec_bytes()),
{
    tlv(TAG_PRINTABLE_STRING, s.as_bytes())
}

/// Encode an IA5String (the bytes of `s` as given).
pub fn ia5_string(s: &str) -> (r: Vec<u8>)
    ensures
        r@ == spec_tlv(TAG_IA5STRING, s.spec_bytes()),
{
    tlv(TAG_IA5STRING, s.as_bytes())
}

// ------------------------------------------------------------
// Time types
// ------------------------------------------------------------

/// Decimal digits of `n` as ASCII, without leading zeros.
pub open spec fn spec_dec(n: nat) -> Seq<u8>
    decreases n,
{
    if n < 10 {
        seq![(48 + n) as u8]
    } else {
        spec_dec(n / 10) + seq![(48 + n % 10) as u8]
    }
}

/// Decimal digits of `n`, zero-padded on the left to at least `w` characters
/// (what `format!("{:0w$}", n)` writes).
pub open spec fn spec_pad_dec(n: nat, w: nat) -> Seq<u8> {
    let d = spec_dec(n);
    if d.len() < w {
        Seq::new((w - d.len()) as nat, |i: int| 48u8) + d
    } else {
        d
    }
}

/// Append `n` in decimal (ASCII digits, no leading zeros).
pub fn push_dec(out: &mut Vec<u8>, n: u64)
    ensures
        final(out)@ == old(out)@ + spec_dec(n as nat),
    decreases n,
{
    if n < 10 {
        out.push((48 + n) as u8);
    } else {
        push_dec(out, n / 10);
        out.push((48 + n % 10) as u8);
    }
}

/// Append `n` in decimal, zero-padded to `w` characters.
pub fn push_dec_padded(out: &mut Vec<u8>, n: u32, w: usize)
    ensures
        final(out)@ == old(out)@ + spec_pad_dec(n as nat, w as nat),
{
    let mut digits: Vec<u8> = Vec::new();
    push_dec(&mut digits, n as u64);
    assert(digits@ =~= spec_dec(n as nat));
    let ghost start = out@;
    if digits.len() < w {
        let pad: usize = w - digits.len();
        let mut i: usize = 0;
        while i < pad
            invariant
                i <= pad,
                out@ == start + Seq::new(i as nat, |k: int| 48u8),
            decreases pad - i,
        {
            out.push(48u8);
            assert(Seq::new((i + 1) as nat, |k: int| 48u8) =~= Seq::new(i as nat, |k: int| 48u8).push(48u8));
            i = i + 1;
        }
    }
    extend_bytes(out, digits.as_slice());
    assert(out@ =~= start + spec_pad_dec(n as nat, w as nat));
}

/// Text of a UTCTime: YYMMDDHHMMSSZ (two-digit year).
pub open spec fn spec_utc_time_text(year: u32, month: u32, day: u32, hour: u32, min: u32, sec: u32) -> Seq<u8> {
    spec_pad_dec((year % 100) as nat, 2) + spec_pad_dec(month as nat, 2) + spec_pad_dec(day as nat, 2)
        + spec_pad_dec(hour as nat, 2) + spec_pad_dec(min as nat, 2) + spec_pad_dec(sec as nat, 2)
        + seq![0x5Au8]
}

/// Text of a GeneralizedTime: YYYYMMDDHHMMSSZ.
pub open spec fn spec_generalized_time_text(year: u32, month: u32, day: u32, hour: u32, min: u32, sec: u32) -> Seq<u8> {
    spec_pad_dec(year as nat, 4) + spec_pad_dec(month as nat, 2) + spec_pad_dec(day as nat, 2)
        + spec_pad_dec(hour as nat, 2) + spec_pad_dec(min as nat, 2) + spec_pad_dec(sec as nat, 2)
        + seq![0x5Au8]
}

pub open spec fn spec_utc_time(year: u32, month: u32, day: u32, hour: u32, min: u32, sec: u32) -> Seq<u8> {
    spec_tlv(TAG_UTCTIME, spec_utc_time_text(year, month, day, hour, min, sec))
}

/// Encode a UTCTime (YYMMDDHHMMSSZ).
pub fn utc_time(year: u32, month: u32, day: u32, hour: u32, min: u32, sec: u32) -> (r: Vec<u8>)
    ensures
        r@ == spec_utc_time(year, month, day, hour, min, sec),
{
    let mut s: Vec<u8> = Vec::new();
    push_dec_padded(&mut s, year % 100, 2);
    push_dec_padded(&mut s, month, 2);
    push_dec_padded(&mut s, day, 2);
    push_dec_padded(&mut s, hour, 2);
    push_dec_padded(&mut s, min, 2);
    push_dec_padded(&mut s, sec, 2);
    s.push(0x5A);
    assert(s@ =~= spec_utc_time_text(year, month, day, hour, min, sec));
    tlv(TAG_UTCTIME, s.as_slice())
}

/// Encode a GeneralizedTime (YYYYMMDDHHMMSSZ).
pub fn generalized_time(year: u32, month: u32, day: u32, hour: u32, min: u32, sec: u32) -> (r: Vec<u8>)
    ensures
        r@ == spec_tlv(TAG_GENERALIZED_TIME, spec_generalized_time_text(year, month, day, hour, min, sec)),
{
    let mut s: Vec<u8> = Vec::new();
    push_dec_padded(&mut s, year, 4);
    push_dec_padded(&mut s, month, 2);
    push_dec_padded(&mut s, day, 2);
    push_dec_padded(&mut s, hour, 2);
    push_dec_padded(&mut s, min, 2);
    push_dec_padded(&mut s, sec, 2);
    s.push(0x5A);
    assert(s@ =~= spec_generalized_time_text(year, month, day, hour, min, sec));
    tlv(TAG_GENERALIZED_TIME, s.as_slice())
}

// ------------------------------------------------------------
// Constructed types
// ------------------------------------------------------------

/// The encoded elements written one after the other.
pub open spec fn spec_concat(es: Seq<Vec<u8>>) -> Seq<u8>
    decreases es.len(),
{
    if es.len() == 0 {
        Seq::<u8>::empty()
    } else {
        spec_concat(es.drop_last()) + es.last()@
    }
}

/// Concatenate already encoded elements.
pub fn concat_elements(elements: &[Vec<u8>]) -> (r: Vec<u8>)
    ensures
        r@ == spec_concat(elements@),
{
    let mut content: Vec<u8> = Vec::new();
    let mut i: usize = 0;
    while i < elements.len()
        invariant
            i <= elements@.len(),
            content@ == spec_concat(elements@.take(i as int)),
        decreases elements@.len() - i,
    {
        extend_bytes(&mut content, elements[i].as_slice());
        assert(elements@.take(i + 1).drop_last() =~= elements@.take(i as int));
        i = i + 1;
    }
    assert(elements@.take(elements@.len() as int) =~= elements@);
    content
}

pub open spec fn spec_sequence(es: Seq<Vec<u8>>) -> Seq<u8> {
    spec_tlv(TAG_SEQUENCE, spec_concat(es))
}

pub open spec fn spec_set(es: Seq<Vec<u8>>) -> Seq<u8> {
    spec_tlv(TAG_SET, spec_concat(es))
}

/// Encode a SEQUENCE of already encoded elements.
pub fn sequence(elements: &[Vec<u8>]) -> (r: Vec<u8>)
    ensures
        r@ == spec_sequence(elements@),
{
    let content = concat_elements(elements);
    tlv(TAG_SEQUENCE, content.as_slice())
}

/// Encode a SET of already encoded elements, in the order given.
pub fn set(elements: &[Vec<u8>]) -> (r: Vec<u8>)
    ensures
        r@ == spec_set(elements@),
{
    let content = concat_elements(elements);
    tlv(TAG_SET, content.as_slice())
}

pub open spec fn explicit_tag(n: u8) -> u8 {
    0xA0u8 | (n & 0x0Fu8)
}

pub open spec fn implicit_tag(n: u8) -> u8 {
    0x80u8 | (n & 0x0Fu8)
}

/// Encode CONTEXT [n] EXPLICIT around one encoded element.
pub fn context_explicit(n: u8, element: &[u8]) -> (r: Vec<u8>)
    ensures
        r@ == spec_tlv(explicit_tag(n), element@),
{
    let tag: u8 = 0xA0 | (n & 0x0F);
    tlv(tag, element)
}

/// Encode CONTEXT [n] IMPLICIT (primitive) content.
pub fn context_implicit(n: u8, content: &[u8]) -> (r: Vec<u8>)
    ensures
        r@ == spec_tlv(implicit_tag(n), content@),
{
    let tag: u8 = 0x80 | (n & 0x0F);
    tlv(tag, content)
}

/// Encode CONTEXT [n] IMPLICIT constructed content.
pub fn context_implicit_constructed(n: u8, elements: &[Vec<u8>]) -> (r: Vec<u8>)
    ensures
        r@ == spec_tlv(explicit_tag(n), spec_concat(elements@)),
{
    let tag: u8 = 0xA0 | (n & 0x0F);
    let content = concat_elements(elements);
    tlv(tag, content.as_slice())
}

pub open spec fn spec_algorithm_identifier(oid_text: Seq<char>) -> Seq<u8> {
    spec_tlv(TAG_SEQUENCE, spec_oid(oid_text) + seq![TAG_NULL, 0x00u8])
}

/// Encode an AlgorithmIdentifier: the algorithm OID followed by NULL parameters.
pub fn algorithm_identifier(oid_str: &str) -> (r: Vec<u8>)
    ensures
        r@ == spec_algorithm_identifier(oid_str@),
{
    let mut elements: Vec<Vec<u8>> = Vec::new();
    let o = oid(oid_str);
    let ghost ov = o@;
    elements.push(o);
    let nl = null();
    let ghost nv = nl@;
    elements.push(nl);
    let r = sequence(elements.as_slice());
    proof {
        reveal_with_fuel(spec_concat, 3);
        assert(elements@.drop_last().drop_last() =~= Seq::<Vec<u8>>::empty());
    }
    assert(spec_concat(elements@) =~= ov + nv);
    r
}

} // verus!
