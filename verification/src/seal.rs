//! Seal placement and the byte-level part of PDF signing: finding the
//! signature's `/Contents` placeholder, settling its `/ByteRange`, and
//! writing the PKCS#7 value into the placeholder.

use vstd::prelude::*;
use vstd::string::StringSliceAdditionalSpecFns;
use crate::crypto::{hex_digit, hex_encode, hex_lower, Sm2KeyStore};
use crate::der::{extend_bytes, push_dec, spec_dec};
use crate::font_embed::find_from;
use crate::pkcs7::{build_mock_pkcs7, spec_auth_attr_list, spec_pkcs7_signed_data};
use crate::ses::{
    build_mock_ses_signature, digest, digest_of, mock_cert, mock_signature_of, params_from_seal,
    ses_params_from_seal_info, spec_ses_signature, spec_tbs_sign, SealAlgorithm,
};
use crate::der::spec_tlv;
use crate::text::{
    dec_chars, decimal_string, has_prefix, parse_u32, parse_u32_str, push_decimal, push_str, split_char, split_on,
    starts_with, string_of, texts,
};
use crate::types::{PlacedSeal, SealInfo};

verus! {

/// Size of the `/Contents` placeholder, in hex characters.
pub const SIGNATURE_CONTENTS_SIZE: usize = 16384;

/// Most rounds spent settling a `/ByteRange`.
pub const MAX_BYTERANGE_ROUNDS: usize = 64;

// ------------------------------------------------------------
// Searching bytes
// ------------------------------------------------------------

/// Whether `pat` occurs in `data` at `i`.
pub open spec fn occurs(data: Seq<u8>, pat: Seq<u8>, i: int) -> bool {
    0 <= i && i + pat.len() <= data.len() && data.subrange(i, i + pat.len()) == pat
}

/// First position in `from..` where `pat` occurs and ends by `to`.
pub open spec fn first_occurrence(data: Seq<u8>, pat: Seq<u8>, from: nat, to: nat) -> Option<nat>
    decreases to + 1 - from,
{
    if from + pat.len() > to || to > data.len() {
        None
    } else if occurs(data, pat, from as int) {
        Some(from)
    } else {
        first_occurrence(data, pat, from + 1, to)
    }
}

proof fn lemma_first_occurrence_found(data: Seq<u8>, pat: Seq<u8>, from: nat, to: nat)
    ensures
        first_occurrence(data, pat, from, to) matches Some(p) ==> from <= p && p + pat.len() <= to
            && occurs(data, pat, p as int),
    decreases to + 1 - from,
{
    if !(from + pat.len() > to || to > data.len()) && !occurs(data, pat, from as int) {
        lemma_first_occurrence_found(data, pat, from + 1, to);
    }
}

pub(crate) fn occurs_exec(data: &[u8], pat: &[u8], i: usize) -> (r: bool)
    requires
        i + pat@.len() <= data@.len(),
    ensures
        r == occurs(data@, pat@, i as int),
{
    let n: usize = data.len();
    let mut k: usize = 0;
    while k < pat.len()
        invariant
            k <= pat@.len(),
            n == data@.len(),
            i + pat@.len() <= data@.len(),
            forall|j: int| 0 <= j < k ==> data@[i + j] == pat@[j],
        decreases pat@.len() - k,
    {
        if data[i + k] != pat[k] {
            assert(data@.subrange(i as int, i + pat@.len())[k as int] != pat@[k as int]);
            return false;
        }
        k = k + 1;
    }
    assert(data@.subrange(i as int, i + pat@.len()) =~= pat@);
    true
}

/// First position in `from..` where `pat` occurs and ends by `to`.
pub fn find_bytes(data: &[u8], pat: &[u8], from: usize, to: usize) -> (r: Option<usize>)
    ensures
        match r {
            Some(p) => first_occurrence(data@, pat@, from as nat, to as nat) == Some(p as nat),
            None => first_occurrence(data@, pat@, from as nat, to as nat) is None,
        },
{
    if to > data.len() {
        return None;
    }
    if pat.len() == 0 {
        if from <= to {
            assert(data@.subrange(from as int, from as int) =~= pat@);
            return Some(from);
        }
        return None;
    }
    let mut i: usize = from;
    while i <= to && pat.len() <= to - i
        invariant
            from <= i,
            to <= data@.len(),
            pat@.len() > 0,
            first_occurrence(data@, pat@, from as nat, to as nat) == first_occurrence(
                data@,
                pat@,
                i as nat,
                to as nat,
            ),
        decreases to - i,
    {
        if occurs_exec(data, pat, i) {
            return Some(i);
        }
        i = i + 1;
    }
    None
}

// ------------------------------------------------------------
// The signature dictionary in the saved PDF
// ------------------------------------------------------------

/// `N 0 obj`, the header of object `N`.
pub open spec fn obj_header(id: u32) -> Seq<u8> {
    spec_dec(id as nat) + seq![0x20u8, 0x30, 0x20, 0x6F, 0x62, 0x6A]
}

/// Whether `b` ends a PDF token: white space or a delimiter.
pub open spec fn token_boundary(b: u8) -> bool {
    b == 0x00 || b == 0x09 || b == 0x0A || b == 0x0C || b == 0x0D || b == 0x20 || b == 0x28 || b == 0x29
        || b == 0x3C || b == 0x3E || b == 0x5B || b == 0x5D || b == 0x7B || b == 0x7D || b == 0x2F || b == 0x25
}

/// Whether the header of object `id` stands at `i` as a whole token: at the
/// start of the file or after a boundary, so `5 0 obj` is not read inside
/// `15 0 obj`.
pub open spec fn header_at(data: Seq<u8>, id: u32, i: nat) -> bool {
    occurs(data, obj_header(id), i as int) && (i == 0 || token_boundary(data[i - 1]))
}

/// First position at or after `from` where the header of object `id` stands.
pub open spec fn first_header(data: Seq<u8>, id: u32, from: nat) -> Option<nat>
    decreases data.len() + 1 - from,
{
    if from + obj_header(id).len() > data.len() {
        None
    } else if header_at(data, id, from) {
        Some(from)
    } else {
        first_header(data, id, from + 1)
    }
}

proof fn lemma_first_header_found(data: Seq<u8>, id: u32, from: nat)
    ensures
        first_header(data, id, from) matches Some(p) ==> from <= p && header_at(data, id, p)
            && p + obj_header(id).len() <= data.len(),
    decreases data.len() + 1 - from,
{
    if !(from + obj_header(id).len() > data.len()) && !header_at(data, id, from) {
        lemma_first_header_found(data, id, from + 1);
    }
}

/// Where two files agree up to the end of the first header in the first,
/// the second has its first header there too.
proof fn lemma_first_header_agree(a: Seq<u8>, b: Seq<u8>, id: u32, from: nat, p: nat)
    requires
        first_header(a, id, from) == Some(p),
        p + obj_header(id).len() <= b.len(),
        a.subrange(0, (p + obj_header(id).len()) as int) == b.subrange(0, (p + obj_header(id).len()) as int),
    ensures
        first_header(b, id, from) == Some(p),
    decreases p - from,
{
    lemma_first_header_found(a, id, from);
    let h = obj_header(id).len();
    let e = (p + h) as int;
    assert(a.subrange(from as int, (from + h) as int) =~= a.subrange(0, e).subrange(from as int, (from + h) as int));
    assert(b.subrange(from as int, (from + h) as int) =~= b.subrange(0, e).subrange(from as int, (from + h) as int));
    if from > 0 {
        assert(a[from - 1] == a.subrange(0, e)[from - 1]);
        assert(b[from - 1] == b.subrange(0, e)[from - 1]);
    }
    if from < p {
        lemma_first_header_agree(a, b, id, from + 1, p);
    }
}

/// `/Contents <`.
pub open spec fn contents_marker() -> Seq<u8> {
    seq![0x2Fu8, 0x43, 0x6F, 0x6E, 0x74, 0x65, 0x6E, 0x74, 0x73, 0x20, 0x3C]
}

/// `/ByteRange`.
pub open spec fn byterange_marker() -> Seq<u8> {
    seq![0x2Fu8, 0x42, 0x79, 0x74, 0x65, 0x52, 0x61, 0x6E, 0x67, 0x65]
}

/// Range of the hex digits of the `/Contents <...>` that follows the first
/// `N 0 obj`: from the first digit to the closing `>`.
pub open spec fn contents_range(data: Seq<u8>, id: u32) -> Option<(nat, nat)> {
    match first_header(data, id, 0) {
        None => None,
        Some(obj) => {
            let from = obj + obj_header(id).len();
            match first_occurrence(data, contents_marker(), from, data.len()) {
                None => None,
                Some(c) => {
                    let hs = c + 11;
                    let he = find_from(data, hs, 0x3E);
                    if he >= data.len() {
                        None
                    } else {
                        Some((hs, he))
                    }
                },
            }
        },
    }
}

fn obj_header_bytes(id: u32) -> (r: Vec<u8>)
    ensures
        r@ == obj_header(id),
{
    let mut v: Vec<u8> = Vec::new();
    push_dec(&mut v, id as u64);
    v.push(0x20);
    v.push(0x30);
    v.push(0x20);
    v.push(0x6F);
    v.push(0x62);
    v.push(0x6A);
    assert(v@ =~= obj_header(id));
    v
}

fn contents_marker_bytes() -> (r: Vec<u8>)
    ensures
        r@ == contents_marker(),
{
    let v: Vec<u8> = vec![0x2Fu8, 0x43, 0x6F, 0x6E, 0x74, 0x65, 0x6E, 0x74, 0x73, 0x20, 0x3C];
    assert(v@ =~= contents_marker());
    v
}

fn byterange_marker_bytes() -> (r: Vec<u8>)
    ensures
        r@ == byterange_marker(),
{
    let v: Vec<u8> = vec![0x2Fu8, 0x42, 0x79, 0x74, 0x65, 0x52, 0x61, 0x6E, 0x67, 0x65];
    assert(v@ =~= byterange_marker());
    v
}

fn token_boundary_exec(b: u8) -> (r: bool)
    ensures
        r == token_boundary(b),
{
    b == 0x00 || b == 0x09 || b == 0x0A || b == 0x0C || b == 0x0D || b == 0x20 || b == 0x28 || b == 0x29
        || b == 0x3C || b == 0x3E || b == 0x5B || b == 0x5D || b == 0x7B || b == 0x7D || b == 0x2F || b == 0x25
}

/// Position of the header of object `id`, matched as a whole token.
fn find_obj_header(data: &[u8], id: u32) -> (r: Option<usize>)
    ensures
        match r {
            Some(p) => first_header(data@, id, 0) == Some(p as nat),
            None => first_header(data@, id, 0) is None,
        },
{
    let prefix = obj_header_bytes(id);
    let n: usize = data.len();
    let mut i: usize = 0;
    while i <= n && prefix.len() <= n - i
        invariant
            n == data@.len(),
            prefix@ == obj_header(id),
            first_header(data@, id, 0) == first_header(data@, id, i as nat),
        decreases n - i,
    {
        if occurs_exec(data, prefix.as_slice(), i) && (i == 0 || token_boundary_exec(data[i - 1])) {
            return Some(i);
        }
        i = i + 1;
    }
    None
}

/// Find the hex digits of the signature dictionary's `/Contents <...>`:
/// `(first digit, position of '>')`.
pub fn find_contents_hex_range(data: &[u8], sig_obj_id: u32) -> (r: Option<(usize, usize)>)
    ensures
        match r {
            Some((hs, he)) => contents_range(data@, sig_obj_id) == Some((hs as nat, he as nat)),
            None => contents_range(data@, sig_obj_id) is None,
        },
{
    let prefix = obj_header_bytes(sig_obj_id);
    let n: usize = data.len();
    let obj_pos = match find_obj_header(data, sig_obj_id) {
        Some(p) => p,
        None => {
            return None;
        },
    };
    proof {
        lemma_first_header_found(data@, sig_obj_id, 0);
    }
    let search_start: usize = obj_pos + prefix.len();
    let marker = contents_marker_bytes();
    let cpos = match find_bytes(data, marker.as_slice(), search_start, n) {
        Some(p) => p,
        None => {
            return None;
        },
    };
    proof {
        lemma_first_occurrence_found(data@, marker@, search_start as nat, n as nat);
    }
    let hex_start: usize = cpos + 11;
    let mut hex_end: usize = hex_start;
    while hex_end < n && data[hex_end] != 0x3E
        invariant
            hex_start <= hex_end,
            n == data@.len(),
            find_from(data@, hex_start as nat, 0x3E) == find_from(data@, hex_end as nat, 0x3E),
        decreases n - hex_end,
    {
        hex_end = hex_end + 1;
    }
    if hex_end >= n {
        return None;
    }
    Some((hex_start, hex_end))
}

/// Position after the spaces, newlines, carriage returns and tabs at `p`.
pub open spec fn skip_blanks(data: Seq<u8>, p: nat) -> nat
    decreases data.len() - p,
{
    if p < data.len() && (data[p as int] == 0x20 || data[p as int] == 0x0A || data[p as int] == 0x0D
        || data[p as int] == 0x09) {
        skip_blanks(data, p + 1)
    } else {
        p
    }
}

/// `data` with the `/ByteRange [...]` found within 2000 bytes of the first
/// `N 0 obj` replaced by `/ByteRange ` and `new_range`; or the error met.
pub open spec fn byterange_replaced(data: Seq<u8>, id: u32, new_range: Seq<u8>) -> Result<Seq<u8>, Seq<char>> {
    match first_header(data, id, 0) {
        None => Err("未找到签名字典对象"@),
        Some(obj) => {
            let end = if obj + 2000 < data.len() { obj + 2000 } else { data.len() };
            match first_occurrence(data, byterange_marker(), obj, end) {
                None => Err("未找到 /ByteRange"@),
                Some(br) => {
                    let p = skip_blanks(data, br + 10);
                    if p >= data.len() || data[p as int] != 0x5B {
                        Err("/ByteRange 后未找到 ["@)
                    } else {
                        let be = find_from(data, p + 1, 0x5D);
                        if be >= data.len() {
                            Err("/ByteRange 未找到 ]"@)
                        } else {
                            Ok(data.subrange(0, br as int) + byterange_marker() + seq![0x20u8] + new_range
                                + data.subrange(be + 1int, data.len() as int))
                        }
                    }
                },
            }
        },
    }
}

/// Replace the signature dictionary's `/ByteRange` array by `new_range`.
pub fn replace_byterange_in_bytes(data: &mut Vec<u8>, sig_obj_id: u32, new_range: &[u8]) -> (r: Result<(), String>)
    ensures
        match byterange_replaced(old(data)@, sig_obj_id, new_range@) {
            Ok(d) => r is Ok && final(data)@ == d,
            Err(e) => r is Err && r->Err_0@ == e && final(data)@ == old(data)@,
        },
{
    let n: usize = data.len();
    let obj_pos = match find_obj_header(data.as_slice(), sig_obj_id) {
        Some(p) => p,
        None => {
            return Err(string_of("未找到签名字典对象"));
        },
    };
    proof {
        lemma_first_header_found(data@, sig_obj_id, 0);
    }
    let search_end: usize = if n - obj_pos > 2000 { obj_pos + 2000 } else { n };
    let marker = byterange_marker_bytes();
    let br_pos = match find_bytes(data.as_slice(), marker.as_slice(), obj_pos, search_end) {
        Some(p) => p,
        None => {
            return Err(string_of("未找到 /ByteRange"));
        },
    };
    proof {
        lemma_first_occurrence_found(data@, marker@, obj_pos as nat, search_end as nat);
    }
    let mut p: usize = br_pos + 10;
    while p < n && (data[p] == 0x20 || data[p] == 0x0A || data[p] == 0x0D || data[p] == 0x09)
        invariant
            br_pos + 10 <= p,
            n == data@.len(),
            skip_blanks(data@, (br_pos + 10) as nat) == skip_blanks(data@, p as nat),
        decreases n - p,
    {
        p = p + 1;
    }
    if p >= n || data[p] != 0x5B {
        return Err(string_of("/ByteRange 后未找到 ["));
    }
    let mut be: usize = p + 1;
    while be < n && data[be] != 0x5D
        invariant
            p + 1 <= be,
            n == data@.len(),
            find_from(data@, (p + 1) as nat, 0x5D) == find_from(data@, be as nat, 0x5D),
        decreases n - be,
    {
        be = be + 1;
    }
    if be >= n {
        return Err(string_of("/ByteRange 未找到 ]"));
    }
    let mut out: Vec<u8> = Vec::new();
    extend_bytes(&mut out, &data.as_slice()[0..br_pos]);
    extend_bytes(&mut out, marker.as_slice());
    out.push(0x20);
    extend_bytes(&mut out, new_range);
    extend_bytes(&mut out, &data.as_slice()[be + 1..n]);
    assert(out@ =~= data@.subrange(0, br_pos as int) + byterange_marker() + seq![0x20u8] + new_range@
        + data@.subrange(be + 1, n as int));
    *data = out;
    Ok(())
}


// ------------------------------------------------------------
// Settling the /ByteRange and filling /Contents
// ------------------------------------------------------------

/// `[0 a b c]` for the byte range around the `/Contents` hex digits at
/// `hs..he` of a `len`-byte file: everything before the `<`, everything after
/// the `>`.
pub open spec fn byterange_text(hs: nat, he: nat, len: nat) -> Seq<u8> {
    seq![0x5Bu8] + spec_dec(0) + seq![0x20u8] + spec_dec((hs - 1) as nat) + seq![0x20u8] + spec_dec(he + 1)
        + seq![0x20u8] + spec_dec((len - (he + 1)) as nat) + seq![0x5Du8]
}

fn byterange_bytes(hs: usize, he: usize, len: usize) -> (r: Vec<u8>)
    requires
        1 <= hs,
        he < len,
    ensures
        r@ == byterange_text(hs as nat, he as nat, len as nat),
{
    let mut v: Vec<u8> = Vec::new();
    v.push(0x5B);
    push_dec(&mut v, 0);
    v.push(0x20);
    push_dec(&mut v, (hs - 1) as u64);
    v.push(0x20);
    push_dec(&mut v, (he + 1) as u64);
    v.push(0x20);
    push_dec(&mut v, (len - (he + 1)) as u64);
    v.push(0x5D);
    assert(v@ =~= byterange_text(hs as nat, he as nat, len as nat));
    v
}

fn bytes_eq(a: &Vec<u8>, b: &Vec<u8>) -> (r: bool)
    ensures
        r == (a@ == b@),
{
    if a.len() != b.len() {
        return false;
    }
    let mut i: usize = 0;
    while i < a.len()
        invariant
            i <= a@.len(),
            a@.len() == b@.len(),
            forall|j: int| 0 <= j < i ==> a@[j] == b@[j],
        decreases a@.len() - i,
    {
        if a[i] != b[i] {
            return false;
        }
        i = i + 1;
    }
    assert(a@ =~= b@);
    true
}

/// Whether `settled` is `before` with its `/ByteRange` set to the range that
/// `settled`'s own `/Contents` at `hs..he` calls for.
#[verifier::opaque]
pub open spec fn byterange_settled(before: Seq<u8>, settled: Seq<u8>, id: u32, hs: nat, he: nat) -> bool {
    &&& contents_range(settled, id) == Some((hs, he))
    &&& byterange_replaced(before, id, byterange_text(hs, he, settled.len())) == Ok::<Seq<u8>, Seq<char>>(
        settled,
    )
}

/// Text of the error when the `/Contents` of object `id` is missing.
pub open spec fn contents_missing(id: u32) -> Seq<char> {
    "未找到签名字典 "@ + dec_chars(id as nat) + " 的 /Contents"@
}

/// Rewrite the `/ByteRange` until it matches the position of `/Contents` in
/// the rewritten file (each rewrite can move `/Contents`); at most
/// `MAX_BYTERANGE_ROUNDS` rewrites. On success the file is the one given with
/// its `/ByteRange` set to the range of its own `/Contents`.
fn settle_byterange(data: &mut Vec<u8>, id: u32) -> (r: Result<(usize, usize), String>)
    ensures
        match r {
            Ok((hs, he)) => byterange_settled(old(data)@, final(data)@, id, hs as nat, he as nat)
                && 1 <= hs <= he < final(data)@.len(),
            Err(_) => true,
        },
        contents_range(old(data)@, id) is None ==> r is Err && r->Err_0@ == contents_missing(id),
        contents_range(old(data)@, id) is Some && byterange_replaced(old(data)@, id, seq![]) is Err ==> r is Err
            && r->Err_0@ == byterange_replaced(old(data)@, id, seq![])->Err_0,
{
    let mut prev: Vec<u8> = Vec::new();
    let ghost start: Seq<u8> = data@;
    let mut rounds: usize = 0;
    loop
        invariant
            rounds <= MAX_BYTERANGE_ROUNDS,
            start == old(data)@,
            rounds > 0 ==> byterange_replaced(start, id, prev@) == Ok::<Seq<u8>, Seq<char>>(data@)
                && bracketed(prev@),
            rounds == 0 ==> prev@.len() == 0 && data@ == start,
            rounds > 0 ==> contents_range(start, id) is Some && byterange_replaced(start, id, seq![]) is Ok,
        decreases MAX_BYTERANGE_ROUNDS - rounds,
    {
        let (hs, he) = match find_contents_hex_range(data.as_slice(), id) {
            Some(range) => range,
            None => {
                let mut msg = string_of("未找到签名字典 ");
                push_decimal(&mut msg, id as u64);
                push_str(&mut msg, " 的 /Contents");
                return Err(msg);
            },
        };
        proof {
            lemma_contents_range_bounds(data@, id);
            lemma_byterange_text_bracketed(hs as nat, he as nat, data@.len());
        }
        let br = byterange_bytes(hs, he, data.len());
        if bytes_eq(&br, &prev) {
            assert(rounds > 0);
            assert(byterange_settled(start, data@, id, hs as nat, he as nat)) by {
                reveal(byterange_settled);
            }
            return Ok((hs, he));
        }
        if rounds == MAX_BYTERANGE_ROUNDS {
            return Err(string_of("/ByteRange 未能收敛"));
        }
        let ghost here = data@;
        match replace_byterange_in_bytes(data, id, br.as_slice()) {
            Ok(()) => {},
            Err(e) => {
                assert(byterange_replaced(here, id, br@)->Err_0 == byterange_replaced(here, id, seq![])->Err_0);
                return Err(e);
            },
        }
        assert(byterange_replaced(here, id, seq![]) is Ok);
        proof {
            if rounds > 0 {
                lemma_byterange_replace_twice(start, id, prev@, br@);
            }
        }
        prev = br;
        rounds = rounds + 1;
    }
}

proof fn lemma_contents_range_bounds(data: Seq<u8>, id: u32)
    ensures
        contents_range(data, id) matches Some((hs, he)) ==> 1 <= hs <= he < data.len(),
{
    if let Some(obj) = first_header(data, id, 0) {
        let from = obj + obj_header(id).len();
        lemma_first_occurrence_found(data, contents_marker(), from, data.len());
        if let Some(c) = first_occurrence(data, contents_marker(), from, data.len()) {
            lemma_find_from_ge(data, c + 11, 0x3E);
        }
    }
}

proof fn lemma_find_from_ge(data: Seq<u8>, from: nat, b: u8)
    ensures
        find_from(data, from, b) >= from,
    decreases data.len() - from,
{
    if from < data.len() && data[from as int] != b {
        lemma_find_from_ge(data, from + 1, b);
    }
}


// ------------------------------------------------------------
// Rewriting the /ByteRange twice
// ------------------------------------------------------------

/// Whether no byte of `s` is `b`.
pub open spec fn lacks(s: Seq<u8>, b: u8) -> bool {
    forall|i: int| 0 <= i < s.len() ==> #[trigger] s[i] != b
}

/// Whether `r` is a bracketed array text `[...]` with no `]` inside.
pub open spec fn bracketed(r: Seq<u8>) -> bool {
    &&& r.len() >= 2
    &&& r[0] == 0x5B
    &&& r[r.len() - 1] == 0x5D
    &&& lacks(r.subrange(1, r.len() - 1), 0x5D)
}

proof fn lemma_dec_digits(n: nat)
    ensures
        forall|i: int| 0 <= i < spec_dec(n).len() ==> 0x30 <= #[trigger] spec_dec(n)[i] <= 0x39,
    decreases n,
{
    if n >= 10 {
        lemma_dec_digits(n / 10);
        let d = spec_dec(n);
        let t = spec_dec(n / 10);
        assert forall|i: int| 0 <= i < d.len() implies 0x30 <= #[trigger] d[i] <= 0x39 by {
            if i < t.len() {
                assert(d[i] == t[i]);
            }
        }
    }
}

proof fn lemma_byterange_text_bracketed(hs: nat, he: nat, len: nat)
    ensures
        bracketed(byterange_text(hs, he, len)),
{
    let a = spec_dec(0);
    let b = spec_dec((hs - 1) as nat);
    let c = spec_dec(he + 1);
    let d = spec_dec((len - (he + 1)) as nat);
    lemma_dec_digits(0);
    lemma_dec_digits((hs - 1) as nat);
    lemma_dec_digits(he + 1);
    lemma_dec_digits((len - (he + 1)) as nat);
    let sp = seq![0x20u8];
    let body = a + sp + b + sp + c + sp + d;
    let r = byterange_text(hs, he, len);
    assert(r =~= seq![0x5Bu8] + body + seq![0x5Du8]);
    assert(r.subrange(1, r.len() - 1) =~= body);
    assert forall|i: int| 0 <= i < body.len() implies #[trigger] body[i] != 0x5D by {
        if i < a.len() {
            assert(body[i] == a[i]);
        } else if i < a.len() + 1 {
        } else if i < a.len() + 1 + b.len() {
            assert(body[i] == b[i - a.len() - 1]);
        } else if i < a.len() + 2 + b.len() {
        } else if i < a.len() + 2 + b.len() + c.len() {
            assert(body[i] == c[i - a.len() - 2 - b.len()]);
        } else if i < a.len() + 3 + b.len() + c.len() {
        } else {
            assert(body[i] == d[i - a.len() - 3 - b.len() - c.len()]);
        }
    }
}

/// Where two files agree up to the end of the first match of `pat` in the
/// first, the second has its first match there too.
proof fn lemma_first_occurrence_agree(a: Seq<u8>, b: Seq<u8>, pat: Seq<u8>, from: nat, to_a: nat, to_b: nat, p: nat)
    requires
        first_occurrence(a, pat, from, to_a) == Some(p),
        p + pat.len() <= to_b <= b.len(),
        p + pat.len() <= a.len(),
        a.subrange(0, (p + pat.len()) as int) == b.subrange(0, (p + pat.len()) as int),
    ensures
        first_occurrence(b, pat, from, to_b) == Some(p),
    decreases p - from,
{
    lemma_first_occurrence_found(a, pat, from, to_a);
    let k = (from + pat.len()) as int;
    let e = (p + pat.len()) as int;
    assert(a.subrange(from as int, k) =~= a.subrange(0, e).subrange(from as int, k));
    assert(b.subrange(from as int, k) =~= b.subrange(0, e).subrange(from as int, k));
    if from < p {
        lemma_first_occurrence_agree(a, b, pat, from + 1, to_a, to_b, p);
    }
}

proof fn lemma_find_from_at(data: Seq<u8>, from: nat, to: nat, b: u8)
    requires
        from <= to < data.len(),
        data[to as int] == b,
        forall|i: int| from <= i < to ==> data[i] != b,
    ensures
        find_from(data, from, b) == to,
    decreases to - from,
{
    if from < to {
        lemma_find_from_at(data, from + 1, to, b);
    }
}

/// The bytes of an object header are digits, spaces and `0 obj`: never `/`.
proof fn lemma_obj_header_no_slash(id: u32)
    ensures
        lacks(obj_header(id), 0x2F),
{
    lemma_dec_digits(id as nat);
    let h = obj_header(id);
    let d = spec_dec(id as nat);
    assert forall|i: int| 0 <= i < h.len() implies #[trigger] h[i] != 0x2F by {
        if i < d.len() {
            assert(h[i] == d[i]);
        }
    }
}

/// Writing the `/ByteRange` twice is writing it once with the second value.
pub proof fn lemma_byterange_replace_twice(a: Seq<u8>, id: u32, r1: Seq<u8>, r2: Seq<u8>)
    requires
        byterange_replaced(a, id, r1) is Ok,
        bracketed(r1),
    ensures
        byterange_replaced(byterange_replaced(a, id, r1)->Ok_0, id, r2) == byterange_replaced(a, id, r2),
{
    let b = byterange_replaced(a, id, r1)->Ok_0;
    let hdr = obj_header(id);
    let m = byterange_marker();
    let obj = first_header(a, id, 0)->Some_0;
    lemma_first_header_found(a, id, 0);
    let end_a = if obj + 2000 < a.len() { obj + 2000 } else { a.len() };
    let br = first_occurrence(a, m, obj, end_a)->Some_0;
    lemma_first_occurrence_found(a, m, obj, end_a);
    let pa = skip_blanks(a, br + 10);
    let be_a = find_from(a, pa + 1, 0x5D);
    assert(b == a.subrange(0, br as int) + m + seq![0x20u8] + r1 + a.subrange(be_a + 1int, a.len() as int));
    // The marker starts with '/', so it lies past the header.
    lemma_obj_header_no_slash(id);
    if br < obj + hdr.len() {
        assert(a.subrange(br as int, br + 10int)[0] == a[br as int]);
        assert(a.subrange(obj as int, (obj + hdr.len()) as int)[br - obj] == a[br as int]);
        assert(false);
    }
    assert(a.subrange(0, br + 10int) =~= b.subrange(0, br + 10int));
    assert(a.subrange(0, (obj + hdr.len()) as int) =~= b.subrange(0, (obj + hdr.len()) as int));
    lemma_first_header_agree(a, b, id, 0, obj);
    let end_b = if obj + 2000 < b.len() { obj + 2000 } else { b.len() };
    lemma_first_occurrence_agree(a, b, m, obj, end_a, end_b, br);
    // After the marker: one space, then r1's '['.
    assert(b[br + 10int] == 0x20);
    assert(b[br + 11int] == r1[0]);
    assert(skip_blanks(b, br + 11) == br + 11);
    assert(skip_blanks(b, br + 10) == br + 11);
    // r1 holds no ']' before its last byte.
    let be_b = br + 10 + r1.len();
    assert forall|i: int| br + 12 <= i < be_b implies b[i] != 0x5D by {
        assert(b[i] == r1[i - br - 11]);
        assert(r1.subrange(1, r1.len() - 1)[i - br - 12] == r1[i - br - 11]);
    }
    assert(b[be_b as int] == r1[r1.len() - 1]);
    lemma_find_from_at(b, br + 12, be_b, 0x5D);
    assert(b.subrange(be_b + 1int, b.len() as int) =~= a.subrange(be_a + 1int, a.len() as int));
    assert(b.subrange(0, br as int) =~= a.subrange(0, br as int));
}

/// What the seal embedding records of each signature dictionary it adds.
pub struct SealEmbedMeta {
    /// Object number of the signature dictionary.
    pub sig_dict_id: u32,
    /// Object id of the widget annotation (number, generation).
    pub widget_id: (u32, u16),
    /// Object id of the page (number, generation).
    pub page_obj_id: (u32, u16),
    pub seal: PlacedSeal,
    pub algorithm: SealAlgorithm,
}

/// The bytes covered by the byte range: all but `<hex>`.
pub open spec fn signed_region(settled: Seq<u8>, hs: nat, he: nat) -> Seq<u8> {
    settled.subrange(0, hs - 1) + settled.subrange(he + 1int, settled.len() as int)
}

/// Whether `ses` is an SES_Signature the mock signer may make of `doc`.
pub open spec fn mock_ses_signature_of(info: SealInfo, alg: SealAlgorithm, doc: Seq<u8>, ses: Seq<u8>) -> bool {
    let p = params_from_seal(info, alg);
    exists|sig: Seq<u8>|
        ses == spec_ses_signature(p, digest_of(alg, doc), sig) && mock_signature_of(
            alg,
            spec_tbs_sign(p, digest_of(alg, doc)),
            sig,
        )
}

/// Whether `pkcs7` is a PKCS#7 value the mock signer may make around `ses`.
pub open spec fn mock_pkcs7_of(
    alg: SealAlgorithm,
    ses: Seq<u8>,
    doc_hash: Seq<u8>,
    t: (u32, u32, u32, u32, u32, u32),
    pkcs7: Seq<u8>,
) -> bool {
    exists|sig: Seq<u8>|
        pkcs7 == spec_pkcs7_signed_data(alg, mock_cert(alg), ses, doc_hash, t, sig) && mock_signature_of(
            alg,
            digest_of(alg, spec_tlv(0x31, spec_auth_attr_list(doc_hash, t))),
            sig,
        )
}

/// ASCII bytes of the lower-case hex text of `b`.
pub open spec fn hex_ascii(b: Seq<u8>) -> Seq<u8> {
    Seq::new(hex_lower(b).len(), |i: int| hex_lower(b)[i] as u8)
}

/// Whether `hex` is the hex text of a PKCS#7 value that the mock signer may
/// make for the seal `info` over `region`: an SES_Signature over `region`,
/// wrapped in SignedData.
pub open spec fn signed_hex(info: SealInfo, alg: SealAlgorithm, region: Seq<u8>, hex: Seq<u8>) -> bool {
    exists|ses: Seq<u8>, pkcs7: Seq<u8>|
        #![trigger mock_ses_signature_of(info, alg, region, ses), mock_pkcs7_of(alg, ses, digest_of(alg, region), params_from_seal(info, alg).sign_time, pkcs7)]
        mock_ses_signature_of(info, alg, region, ses) && mock_pkcs7_of(
            alg,
            ses,
            digest_of(alg, region),
            params_from_seal(info, alg).sign_time,
            pkcs7,
        ) && hex == hex_ascii(pkcs7)
}

/// Whether `out` is `settled` with the PKCS#7 value of the seal written, as
/// hex, at the start of the `/Contents` placeholder `hs..he`, the value being
/// made over the bytes that the byte range covers.
pub open spec fn contents_filled(settled: Seq<u8>, hs: nat, he: nat, info: SealInfo, alg: SealAlgorithm, out: Seq<u8>) -> bool {
    exists|hex: Seq<u8>|
        #[trigger] signed_hex(info, alg, signed_region(settled, hs, he), hex) && hex.len()
            <= SIGNATURE_CONTENTS_SIZE && hs + hex.len() <= settled.len() && out == settled.subrange(
            0,
            hs as int,
        ) + hex + settled.subrange((hs + hex.len()) as int, settled.len() as int)
}

proof fn lemma_hex_lower_ascii(b: Seq<u8>)
    ensures
        vstd::utf8::is_ascii_chars(hex_lower(b)),
    decreases b.len(),
{
    if b.len() > 0 {
        lemma_hex_lower_ascii(b.drop_last());
        let h = hex_lower(b);
        let t = hex_lower(b.drop_last());
        assert forall|i: int| 0 <= i < h.len() implies '\0' <= #[trigger] h[i] <= '\u{7f}' by {
            if i >= t.len() {
                assert(h[i] == hex_digit(b.last() / 16) || h[i] == hex_digit(b.last() % 16));
            } else {
                assert(h[i] == t[i]);
            }
        }
    }
}

/// Overwrite `data[pos..pos + bytes.len()]` with `bytes`.
fn write_at(data: &mut Vec<u8>, pos: usize, bytes: &[u8])
    requires
        pos + bytes@.len() <= old(data)@.len(),
    ensures
        final(data)@ == old(data)@.subrange(0, pos as int) + bytes@ + old(data)@.subrange(
            pos + bytes@.len(),
            old(data)@.len() as int,
        ),
{
    let ghost before = data@;
    let n: usize = data.len();
    let mut i: usize = 0;
    while i < bytes.len()
        invariant
            i <= bytes@.len(),
            n == before.len(),
            pos + bytes@.len() <= before.len(),
            data@.len() == before.len(),
            forall|j: int| 0 <= j < pos ==> #[trigger] data@[j] == before[j],
            forall|j: int| pos + i <= j < before.len() ==> #[trigger] data@[j] == before[j],
            forall|j: int| 0 <= j < i ==> #[trigger] data@[pos + j] == bytes@[j],
        decreases bytes@.len() - i,
    {
        data.set(pos + i, bytes[i]);
        i = i + 1;
    }
    let ghost want = before.subrange(0, pos as int) + bytes@ + before.subrange(
        pos + bytes@.len(),
        before.len() as int,
    );
    assert forall|k: int| 0 <= k < want.len() implies #[trigger] want[k] == data@[k] by {
        if pos <= k < pos + bytes@.len() {
            assert(data@[pos + (k - pos)] == bytes@[k - pos]);
        }
    }
    assert(data@ =~= before.subrange(0, pos as int) + bytes@ + before.subrange(
        pos + bytes@.len(),
        before.len() as int,
    ));
}

/// The PKCS#7 value (as hex text bytes) that signs `region` for the seal
/// `info`: an SES_Signature over `region`, wrapped in SignedData.
fn seal_pkcs7_hex(info: &SealInfo, alg: SealAlgorithm, region: &[u8], store: &mut Sm2KeyStore) -> (r: Vec<u8>)
    ensures
        signed_hex(*info, alg, region@, r@),
{
    let ses_params = ses_params_from_seal_info(info, alg);
    let doc_hash = digest(alg, region);
    let ses_sig_der = build_mock_ses_signature(&ses_params, region, store);
    let pkcs7_der = build_mock_pkcs7(alg, ses_sig_der.as_slice(), doc_hash.as_slice(), ses_params.sign_time, store);
    let pkcs7_hex = hex_encode(pkcs7_der.as_slice());
    let hex_str = pkcs7_hex.as_str();
    let hex_bytes = hex_str.as_bytes();
    proof {
        lemma_hex_lower_ascii(pkcs7_der@);
        vstd::string::is_ascii_spec_bytes(hex_str);
        assert(hex_bytes@ =~= hex_ascii(pkcs7_der@));
        assert(mock_ses_signature_of(*info, alg, region@, ses_sig_der@));
        assert(mock_pkcs7_of(alg, ses_sig_der@, digest_of(alg, region@), ses_params.sign_time, pkcs7_der@));
    }
    let mut out: Vec<u8> = Vec::new();
    extend_bytes(&mut out, hex_bytes);
    assert(out@ =~= hex_bytes@);
    out
}

/// Whether the `/ByteRange` of object `id` in `d` is the range of its own
/// `/Contents`: rewriting it with that range leaves `d` as it is.
#[verifier::opaque]
pub open spec fn range_settled(d: Seq<u8>, id: u32) -> bool {
    match contents_range(d, id) {
        Some((hs, he)) => byterange_replaced(d, id, byterange_text(hs, he, d.len())) == Ok::<Seq<u8>, Seq<char>>(
            d,
        ),
        None => false,
    }
}

/// `data` with the `/ByteRange` of object `steps[i].0` set to `steps[i].1`,
/// for each step in turn; `None` where a step fails.
pub open spec fn rewritten_by(data: Seq<u8>, steps: Seq<(u32, Seq<u8>)>) -> Option<Seq<u8>>
    decreases steps.len(),
{
    if steps.len() == 0 {
        Some(data)
    } else {
        match rewritten_by(data, steps.drop_last()) {
            Some(d) => match byterange_replaced(d, steps.last().0, steps.last().1) {
                Ok(d2) => Some(d2),
                Err(_) => None,
            },
            None => None,
        }
    }
}

/// Whether every step rewrites the dictionary of one of the seals.
pub open spec fn steps_on_seals(steps: Seq<(u32, Seq<u8>)>, metas: Seq<SealEmbedMeta>) -> bool {
    forall|i: int|
        0 <= i < steps.len() ==> exists|k: int| 0 <= k < metas.len() && #[trigger] steps[i].0 == metas[k].sig_dict_id
}

/// Whether every seal's `/ByteRange` in `d` is the range of its own `/Contents`.
pub open spec fn all_settled(d: Seq<u8>, metas: Seq<SealEmbedMeta>) -> bool {
    forall|k: int| 0 <= k < metas.len() ==> #[trigger] range_settled(d, metas[k].sig_dict_id)
}

/// Whether `out` is `s` with the PKCS#7 value of the seal of `meta` written
/// into its `/Contents`, made over the bytes that its byte range covers.
#[verifier::opaque]
pub open spec fn contents_signed(s: Seq<u8>, meta: SealEmbedMeta, out: Seq<u8>) -> bool {
    match contents_range(s, meta.sig_dict_id) {
        Some((hs, he)) => contents_filled(s, hs, he, meta.seal.seal_info, meta.algorithm, out),
        None => false,
    }
}

/// Whether `out` is `data` signed for the seals of `metas`: first the
/// `/ByteRange` of the seals' dictionaries rewritten until each is the range
/// of its own `/Contents` (`steps`, giving `states[0]`); then each seal's
/// `/Contents` filled in turn (`states`); and in `out` every seal's
/// `/ByteRange` still is the range of its `/Contents`.
#[verifier::opaque]
pub open spec fn seals_signed(data: Seq<u8>, metas: Seq<SealEmbedMeta>, out: Seq<u8>) -> bool {
    exists|steps: Seq<(u32, Seq<u8>)>, states: Seq<Seq<u8>>|
        #![trigger rewritten_by(data, steps), states.len()]
        {
            &&& rewritten_by(data, steps) == Some(states[0])
            &&& steps_on_seals(steps, metas)
            &&& states.len() == metas.len() + 1
            &&& all_settled(states[0], metas)
            &&& forall|k: int| 0 <= k < metas.len() ==> #[trigger] contents_signed(states[k], metas[k], states[k + 1])
            &&& states[metas.len() as int] == out
            &&& all_settled(out, metas)
        }
}

/// Whether the `/ByteRange` of object `id` is the range of its own
/// `/Contents` (see `range_settled`).
fn is_settled(data: &Vec<u8>, id: u32) -> (r: bool)
    ensures
        r == range_settled(data@, id),
{
    reveal(range_settled);
    match find_contents_hex_range(data.as_slice(), id) {
        None => false,
        Some((hs, he)) => {
            proof {
                lemma_contents_range_bounds(data@, id);
            }
            let br = byterange_bytes(hs, he, data.len());
            let mut copy: Vec<u8> = Vec::new();
            extend_bytes(&mut copy, data.as_slice());
            assert(copy@ =~= data@);
            match replace_byterange_in_bytes(&mut copy, id, br.as_slice()) {
                Ok(()) => bytes_eq(&copy, data),
                Err(_) => false,
            }
        },
    }
}

/// Rewrite the seals' `/ByteRange`s, each settled in turn, until a whole
/// pass finds every one the range of its own `/Contents` (settling one seal
/// can move another's `/Contents`); at most `MAX_BYTERANGE_ROUNDS` passes.
#[verifier::spinoff_prover]
#[verifier::rlimit(40)]
fn settle_all(data: &mut Vec<u8>, metas: &[SealEmbedMeta]) -> (r: Result<(), String>)
    ensures
        r is Ok ==> exists|steps: Seq<(u32, Seq<u8>)>|
            #[trigger] rewritten_by(old(data)@, steps) == Some(final(data)@) && steps_on_seals(steps, metas@),
        r is Ok ==> all_settled(final(data)@, metas@),
        metas@.len() == 0 ==> r is Ok && final(data)@ == old(data)@,
        metas@.len() > 0 && contents_range(old(data)@, metas@[0].sig_dict_id) is None ==> r is Err
            && r->Err_0@ == contents_missing(metas@[0].sig_dict_id),
        metas@.len() > 0 && contents_range(old(data)@, metas@[0].sig_dict_id) is Some && byterange_replaced(
            old(data)@,
            metas@[0].sig_dict_id,
            seq![],
        ) is Err ==> r is Err && r->Err_0@ == byterange_replaced(old(data)@, metas@[0].sig_dict_id, seq![])->Err_0,
{
    let ghost start = data@;
    let ghost mut steps: Seq<(u32, Seq<u8>)> = Seq::empty();
    let mut rounds: usize = 0;
    loop
        invariant
            start == old(data)@,
            rounds <= MAX_BYTERANGE_ROUNDS,
            rewritten_by(start, steps) == Some(data@),
            steps_on_seals(steps, metas@),
            rounds == 0 ==> data@ == start,
            rounds > 0 && metas@.len() > 0 ==> contents_range(start, metas@[0].sig_dict_id) is Some
                && byterange_replaced(start, metas@[0].sig_dict_id, seq![]) is Ok,
        decreases MAX_BYTERANGE_ROUNDS - rounds,
    {
        let mut clean = true;
        let mut k: usize = 0;
        while k < metas.len()
            invariant
                start == old(data)@,
                k <= metas@.len(),
                rewritten_by(start, steps) == Some(data@),
                steps_on_seals(steps, metas@),
                clean ==> forall|j: int| 0 <= j < k ==> #[trigger] range_settled(data@, metas@[j].sig_dict_id),
                !clean ==> metas@.len() > 0,
                rounds == 0 && k == 0 ==> data@ == start,
                (rounds > 0 || k > 0) && metas@.len() > 0 ==> contents_range(start, metas@[0].sig_dict_id) is Some
                    && byterange_replaced(start, metas@[0].sig_dict_id, seq![]) is Ok,
            decreases metas@.len() - k,
        {
            let id = metas[k].sig_dict_id;
            if !is_settled(data, id) {
                let ghost before = data@;
                match settle_byterange(data, id) {
                    Ok((hs, he)) => {
                        proof {
                            reveal(byterange_settled);
                            reveal(range_settled);
                            let t = byterange_text(hs as nat, he as nat, data@.len());
                            let ns = steps.push((id, t));
                            assert(ns.drop_last() =~= steps);
                            assert forall|i: int| 0 <= i < ns.len() implies exists|q: int|
                                0 <= q < metas@.len() && #[trigger] ns[i].0 == metas@[q].sig_dict_id by {
                                if i < steps.len() {
                                    assert(ns[i] == steps[i]);
                                } else {
                                    assert(ns[i].0 == metas@[k as int].sig_dict_id);
                                }
                            }
                            steps = ns;
                        }
                        clean = false;
                    },
                    Err(e) => {
                        return Err(e);
                    },
                }
            } else {
                proof {
                    reveal(range_settled);
                }
                assert(range_settled(data@, metas@[k as int].sig_dict_id));
            }
            k = k + 1;
        }
        if clean {
            return Ok(());
        }
        if rounds == MAX_BYTERANGE_ROUNDS {
            return Err(string_of("/ByteRange 未能收敛"));
        }
        rounds = rounds + 1;
    }
}

/// Write the PKCS#7 value (hex) of the seal of `meta` into its `/Contents`,
/// made over the bytes its byte range covers.
#[verifier::rlimit(60)]
#[verifier::spinoff_prover]
fn fill_contents(data: &mut Vec<u8>, meta: &SealEmbedMeta, store: &mut Sm2KeyStore) -> (r: Result<(), String>)
    ensures
        r is Ok ==> contents_signed(old(data)@, *meta, final(data)@),
{
    let (hex_start, hex_end) = match find_contents_hex_range(data.as_slice(), meta.sig_dict_id) {
        Some(range) => range,
        None => {
            return Err(string_of("最终未找到 /Contents"));
        },
    };
    proof {
        lemma_contents_range_bounds(data@, meta.sig_dict_id);
    }
    let ghost settled = data@;
    let n: usize = data.len();
    let mut hash_data: Vec<u8> = Vec::new();
    extend_bytes(&mut hash_data, &data.as_slice()[0..hex_start - 1]);
    extend_bytes(&mut hash_data, &data.as_slice()[hex_end + 1..n]);
    assert(hash_data@ =~= signed_region(settled, hex_start as nat, hex_end as nat));
    let hex_bytes = seal_pkcs7_hex(&meta.seal.seal_info, meta.algorithm, hash_data.as_slice(), store);
    if hex_bytes.len() > SIGNATURE_CONTENTS_SIZE {
        let mut msg = string_of("PKCS#7 签名值过大 (");
        push_decimal(&mut msg, hex_bytes.len() as u64);
        push_str(&mut msg, " hex chars), 超过预留空间 (");
        push_decimal(&mut msg, SIGNATURE_CONTENTS_SIZE as u64);
        push_str(&mut msg, " chars)");
        return Err(msg);
    }
    if hex_bytes.len() > n - hex_start {
        return Err(string_of("/Contents 空间不足"));
    }
    write_at(data, hex_start, hex_bytes.as_slice());
    assert(contents_filled(settled, hex_start as nat, hex_end as nat, meta.seal.seal_info, meta.algorithm, data@));
    proof {
        reveal(contents_signed);
    }
    Ok(())
}

/// Second pass over the saved PDF: settle every signature's `/ByteRange`
/// on the range of its own `/Contents`, then write each signature's PKCS#7
/// value into its `/Contents`, and check that every `/ByteRange` still
/// covers the file.
#[verifier::spinoff_prover]
#[verifier::rlimit(40)]
pub fn finalize_pdf_signatures(data: &mut Vec<u8>, seal_metas: &[SealEmbedMeta], store: &mut Sm2KeyStore) -> (r: Result<(), String>)
    ensures
        r is Ok ==> seals_signed(old(data)@, seal_metas@, final(data)@),
        seal_metas@.len() == 0 ==> r is Ok && final(data)@ == old(data)@,
        seal_metas@.len() > 0 && contents_range(old(data)@, seal_metas@[0].sig_dict_id) is None ==> r is Err
            && r->Err_0@ == contents_missing(seal_metas@[0].sig_dict_id),
        seal_metas@.len() > 0 && contents_range(old(data)@, seal_metas@[0].sig_dict_id) is Some
            && byterange_replaced(old(data)@, seal_metas@[0].sig_dict_id, seq![]) is Err ==> r is Err
            && r->Err_0@ == byterange_replaced(old(data)@, seal_metas@[0].sig_dict_id, seq![])->Err_0,
{
    match settle_all(data, seal_metas) {
        Ok(()) => {},
        Err(e) => {
            return Err(e);
        },
    }
    let ghost steps = choose|steps: Seq<(u32, Seq<u8>)>|
        #[trigger] rewritten_by(old(data)@, steps) == Some(data@) && steps_on_seals(steps, seal_metas@);
    let ghost first_ok = seal_metas@.len() > 0 ==> contents_range(old(data)@, seal_metas@[0].sig_dict_id) is Some
        && byterange_replaced(old(data)@, seal_metas@[0].sig_dict_id, seq![]) is Ok;
    assert(first_ok);
    let ghost mut states: Seq<Seq<u8>> = seq![data@];
    let mut k: usize = 0;
    while k < seal_metas.len()
        invariant
            k <= seal_metas@.len(),
            states.len() == k + 1,
            rewritten_by(old(data)@, steps) == Some(states[0]),
            all_settled(states[0], seal_metas@),
            states[k as int] == data@,
            forall|i: int| 0 <= i < k ==> #[trigger] contents_signed(states[i], seal_metas@[i], states[i + 1]),
            first_ok == (seal_metas@.len() > 0 ==> contents_range(old(data)@, seal_metas@[0].sig_dict_id) is Some
                && byterange_replaced(old(data)@, seal_metas@[0].sig_dict_id, seq![]) is Ok),
            first_ok,
        decreases seal_metas@.len() - k,
    {
        match fill_contents(data, &seal_metas[k], store) {
            Ok(()) => {},
            Err(e) => {
                return Err(e);
            },
        }
        proof {
            states = states.push(data@);
        }
        k = k + 1;
    }
    let mut j: usize = 0;
    while j < seal_metas.len()
        invariant
            j <= seal_metas@.len(),
            forall|i: int| 0 <= i < j ==> #[trigger] range_settled(data@, seal_metas@[i].sig_dict_id),
            first_ok == (seal_metas@.len() > 0 ==> contents_range(old(data)@, seal_metas@[0].sig_dict_id) is Some
                && byterange_replaced(old(data)@, seal_metas@[0].sig_dict_id, seq![]) is Ok),
            first_ok,
        decreases seal_metas@.len() - j,
    {
        if !is_settled(data, seal_metas[j].sig_dict_id) {
            return Err(string_of("/ByteRange 与 /Contents 不一致"));
        }
        j = j + 1;
    }
    proof {
        reveal(seals_signed);
        assert(all_settled(data@, seal_metas@));
        assert(states.len() == seal_metas@.len() + 1);
    }
    assert(seals_signed(old(data)@, seal_metas@, data@));
    Ok(())
}


// ------------------------------------------------------------
// Placing seals
// ------------------------------------------------------------

/// Seal placement and embedding.
pub struct SealEngine;

/// Where `AddSeal` puts a seal: the page, and the x and y fields as given
/// (the host turns them into points).
pub struct SealPosition {
    pub page: u32,
    pub x_text: String,
    pub y_text: String,
}

/// Page, x field and y field of an `AddSeal` position list
/// `page,x,_,_,y,...`, or the error for a keyword request or a short list.
pub open spec fn seal_position_of(c_pages: Seq<char>) -> Result<(u32, Seq<char>, Seq<char>), Seq<char>> {
    let parts = split_char(c_pages, ',');
    if has_prefix(c_pages, "AUTO_ADD:"@) {
        Err("关键字自动落章需先搜索关键字位置"@)
    } else if parts.len() < 5 {
        Err("AddSeal参数格式错误"@)
    } else {
        Ok(
            (
                match parse_u32(parts[0]) {
                    Some(p) => p,
                    None => 0,
                },
                parts[1],
                parts[4],
            ),
        )
    }
}

/// Side of a placed seal: 120 points, as the bits of an `f64`.
pub const SEAL_SIZE_BITS: u64 = 0x405E_0000_0000_0000;

impl SealEngine {
    /// Read the position list of an `AddSeal` request.
    pub fn parse_seal_position(c_pages: &str) -> (r: Result<SealPosition, String>)
        ensures
            match seal_position_of(c_pages@) {
                Ok((page, x, y)) => r is Ok && r->Ok_0.page == page && r->Ok_0.x_text@ == x
                    && r->Ok_0.y_text@ == y,
                Err(e) => r is Err && r->Err_0@ == e,
            },
    {
        if starts_with(c_pages, "AUTO_ADD:") {
            return Err(string_of("关键字自动落章需先搜索关键字位置"));
        }
        let parts = split_on(c_pages, ',');
        if parts.len() < 5 {
            return Err(string_of("AddSeal参数格式错误"));
        }
        let page = match parse_u32_str(parts[0].as_str()) {
            Some(p) => p,
            None => 0,
        };
        assert(parts@[0]@ == texts(parts@)[0]);
        assert(parts@[1]@ == texts(parts@)[1]);
        assert(parts@[4]@ == texts(parts@)[4]);
        Ok(SealPosition { page, x_text: parts[1].clone(), y_text: parts[4].clone() })
    }

    /// Place a 120-point seal at `x`, `y` (bits of `f64` points) on `page`;
    /// returns the number of seals placed.
    pub fn add_seal(placed_seals: &mut Vec<PlacedSeal>, page: u32, x_bits: u64, y_bits: u64, seal_info: SealInfo) -> (r: usize)
        requires
            old(placed_seals)@.len() < usize::MAX,
        ensures
            r == final(placed_seals)@.len(),
            r == old(placed_seals)@.len() + 1,
            final(placed_seals)@.drop_last() == old(placed_seals)@,
            final(placed_seals)@.last() == (PlacedSeal {
                id: old(placed_seals)@.len() as usize,
                page_index: page,
                x_bits,
                y_bits,
                width_bits: SEAL_SIZE_BITS,
                height_bits: SEAL_SIZE_BITS,
                seal_info,
                signature: None,
                signed: false,
            }),
    {
        let seal = PlacedSeal {
            id: placed_seals.len(),
            page_index: page,
            x_bits,
            y_bits,
            width_bits: SEAL_SIZE_BITS,
            height_bits: SEAL_SIZE_BITS,
            seal_info,
            signature: None,
            signed: false,
        };
        placed_seals.push(seal);
        assert(placed_seals@.drop_last() =~= old(placed_seals)@);
        placed_seals.len()
    }

    /// Id of the last seal placed, in decimal.
    pub fn get_last_seal(placed_seals: &[PlacedSeal]) -> (r: Option<String>)
        ensures
            placed_seals@.len() == 0 ==> r is None,
            placed_seals@.len() > 0 ==> r is Some && r->Some_0@ == dec_chars(placed_seals@.last().id as nat),
    {
        if placed_seals.len() == 0 {
            None
        } else {
            Some(decimal_string(placed_seals[placed_seals.len() - 1].id as u64))
        }
    }

    /// The cursor shown while placing a seal: the seal picture itself.
    pub fn prepare_seal_cursor(seal_image_base64: &str) -> (r: String)
        ensures
            r@ == seal_image_base64@,
    {
        string_of(seal_image_base64)
    }
}

} // verus!
