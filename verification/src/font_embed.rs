//! Re-encoding of text shown with Chinese fonts that a PDF does not embed.
//!
//! Character codes go to Unicode (through the source font's encoding, its
//! embedded TrueType `cmap`, or its ToUnicode CMap), and Unicode goes to the
//! CIDs of the font that is embedded instead (from a unicode -> CID table).
//! This module holds the byte-level parts: the tables, the parsers and the
//! string re-encoding. Walking the PDF objects is done around it.

use vstd::prelude::*;
use std::collections::HashMap;
use crate::text::{contains, contains_str};

pub mod tounicode;
pub mod cmap_readback;
pub mod content;

verus! {

broadcast use vstd::std_specs::hash::group_hash_axioms;

/// How the character codes of a shown string are to be read.
#[derive(Debug, Clone, Copy, PartialEq, Eq, Structural)]
pub enum CodeEncoding {
    /// Two-byte Unicode (UCS-2 / UTF-16BE), as in UniGB-UCS2-H.
    Unicode2Byte,
    /// One-byte WinAnsi (cp1252).
    WinAnsi1Byte,
    /// Identity-H/V: the code is the CID; Unicode comes from a map.
    IdentityCid,
}

// ------------------------------------------------------------
// Byte readers
// ------------------------------------------------------------

/// Big-endian u16 at `i`.
pub open spec fn be16(b: Seq<u8>, i: int) -> u16 {
    ((b[i] as u16) * 256 + b[i + 1] as u16) as u16
}

/// Big-endian u32 at `i`.
pub open spec fn be32(b: Seq<u8>, i: int) -> u32 {
    ((((b[i] as u32) * 256 + b[i + 1] as u32) * 256 + b[i + 2] as u32) * 256 + b[i + 3] as u32) as u32
}

/// Little-endian u32 at `i`.
pub open spec fn le32(b: Seq<u8>, i: int) -> u32 {
    ((((b[i + 3] as u32) * 256 + b[i + 2] as u32) * 256 + b[i + 1] as u32) * 256 + b[i] as u32) as u32
}

fn read_be16(b: &[u8], i: usize) -> (r: u16)
    requires
        i + 2 <= b.len(),
    ensures
        r == be16(b@, i as int),
{
    (b[i] as u16) * 256 + b[i + 1] as u16
}

pub(crate) fn read_be32(b: &[u8], i: usize) -> (r: u32)
    requires
        i + 4 <= b.len(),
    ensures
        r == be32(b@, i as int),
{
    (((b[i] as u32) * 256 + b[i + 1] as u32) * 256 + b[i + 2] as u32) * 256 + b[i + 3] as u32
}

fn read_le32(b: &[u8], i: usize) -> (r: u32)
    requires
        i + 4 <= b.len(),
    ensures
        r == le32(b@, i as int),
{
    (((b[i + 3] as u32) * 256 + b[i + 2] as u32) * 256 + b[i + 1] as u32) * 256 + b[i] as u32
}

// ------------------------------------------------------------
// Unicode -> CID table
// ------------------------------------------------------------

/// The map after reading `k` more entries of a unicode -> CID table from
/// offset `off` (each entry: u32 unicode, u32 CID, little-endian); reading
/// stops early at the end of the table.
pub open spec fn uni2cid_entries(table: Seq<u8>, off: nat, k: nat, m: Map<u32, u32>) -> Map<u32, u32>
    decreases k,
{
    if k == 0 || off + 8 > table.len() {
        m
    } else {
        uni2cid_entries(
            table,
            off + 8,
            (k - 1) as nat,
            m.insert(le32(table, off as int), le32(table, off + 4int)),
        )
    }
}

/// The unicode -> CID map of a table: a little-endian u32 count, then that
/// many entries (later entries win); empty when the table is shorter than 4
/// bytes.
pub open spec fn uni2cid_map(table: Seq<u8>) -> Map<u32, u32> {
    if table.len() < 4 {
        Map::empty()
    } else {
        uni2cid_entries(table, 4, le32(table, 0) as nat, Map::empty())
    }
}

/// Load the unicode -> CID map from its binary table.
pub fn build_unicode_to_cid(table: &[u8]) -> (r: HashMap<u32, u32>)
    ensures
        r@ == uni2cid_map(table@),
{
    let mut map: HashMap<u32, u32> = HashMap::new();
    if table.len() < 4 {
        return map;
    }
    let count: u32 = read_le32(table, 0);
    let mut off: usize = 4;
    let mut k: u32 = 0;
    while k < count
        invariant
            4 <= off <= table@.len(),
            k <= count,
            count == le32(table@, 0),
            off == 4 + 8 * k,
            uni2cid_map(table@) == uni2cid_entries(table@, off as nat, (count - k) as nat, map@),
            table@.len() >= 4,
        decreases count - k,
    {
        if table.len() - off < 8 {
            return map;
        }
        let u = read_le32(table, off);
        let cid = read_le32(table, off + 4);
        map.insert(u, cid);
        off = off + 8;
        k = k + 1;
    }
    map
}

// ------------------------------------------------------------
// WinAnsi and the priority of code points
// ------------------------------------------------------------

/// Unicode of a WinAnsi (cp1252) byte; undefined bytes give U+FFFD.
pub open spec fn winansi_unicode(b: u8) -> u32 {
    if b <= 0x7F {
        b as u32
    } else if b >= 0xA0 {
        b as u32
    } else {
        match b {
            0x80u8 => 0x20ACu32,
            0x82u8 => 0x201Au32,
            0x83u8 => 0x0192u32,
            0x84u8 => 0x201Eu32,
            0x85u8 => 0x2026u32,
            0x86u8 => 0x2020u32,
            0x87u8 => 0x2021u32,
            0x88u8 => 0x02C6u32,
            0x89u8 => 0x2030u32,
            0x8Au8 => 0x0160u32,
            0x8Bu8 => 0x2039u32,
            0x8Cu8 => 0x0152u32,
            0x8Eu8 => 0x017Du32,
            0x91u8 => 0x2018u32,
            0x92u8 => 0x2019u32,
            0x93u8 => 0x201Cu32,
            0x94u8 => 0x201Du32,
            0x95u8 => 0x2022u32,
            0x96u8 => 0x2013u32,
            0x97u8 => 0x2014u32,
            0x98u8 => 0x02DCu32,
            0x99u8 => 0x2122u32,
            0x9Au8 => 0x0161u32,
            0x9Bu8 => 0x203Au32,
            0x9Cu8 => 0x0153u32,
            0x9Eu8 => 0x017Eu32,
            0x9Fu8 => 0x0178u32,
            _ => 0xFFFDu32,
        }
    }
}

/// WinAnsi (cp1252) byte to Unicode.
pub fn winansi_byte_to_unicode(b: u8) -> (r: u32)
    ensures
        r == winansi_unicode(b),
{
    if b <= 0x7F {
        b as u32
    } else if b >= 0xA0 {
        0x00A0 + (b as u32 - 0xA0)
    } else {
        match b {
            0x80 => 0x20AC,
            0x82 => 0x201A,
            0x83 => 0x0192,
            0x84 => 0x201E,
            0x85 => 0x2026,
            0x86 => 0x2020,
            0x87 => 0x2021,
            0x88 => 0x02C6,
            0x89 => 0x2030,
            0x8A => 0x0160,
            0x8B => 0x2039,
            0x8C => 0x0152,
            0x8E => 0x017D,
            0x91 => 0x2018,
            0x92 => 0x2019,
            0x93 => 0x201C,
            0x94 => 0x201D,
            0x95 => 0x2022,
            0x96 => 0x2013,
            0x97 => 0x2014,
            0x98 => 0x02DC,
            0x99 => 0x2122,
            0x9A => 0x0161,
            0x9B => 0x203A,
            0x9C => 0x0153,
            0x9E => 0x017E,
            0x9F => 0x0178,
            _ => 0xFFFD,
        }
    }
}

/// How standard a code point is (lower is more standard): unified ideographs
/// and everything outside the blocks below 0, compatibility ideographs 1, CJK
/// radicals supplement 2, Kangxi radicals 3, compatibility supplement 4.
pub open spec fn priority_of(u: u32) -> u8 {
    if 0x3400 <= u <= 0x9FFF {
        0
    } else if 0xF900 <= u <= 0xFAFF {
        1
    } else if 0x2E80 <= u <= 0x2EFF {
        2
    } else if 0x2F00 <= u <= 0x2FDF {
        3
    } else if 0x2F800 <= u <= 0x2FA1F {
        4
    } else {
        0
    }
}

/// Priority of a code point for the ToUnicode CMap (see `priority_of`).
pub fn unicode_priority(u: u32) -> (r: u8)
    ensures
        r == priority_of(u),
{
    if 0x3400 <= u && u <= 0x9FFF {
        0
    } else if 0xF900 <= u && u <= 0xFAFF {
        1
    } else if 0x2E80 <= u && u <= 0x2EFF {
        2
    } else if 0x2F00 <= u && u <= 0x2FDF {
        3
    } else if 0x2F800 <= u && u <= 0x2FA1F {
        4
    } else {
        0
    }
}

// ------------------------------------------------------------
// Re-encoding a shown string
// ------------------------------------------------------------

/// Value of `m` at `k`, 0 when absent.
pub open spec fn get_or_zero(m: Map<u32, u32>, k: u32) -> u32 {
    if m.contains_key(k) {
        m[k]
    } else {
        0
    }
}

/// Two bytes of a CID (its low 16 bits, high byte first).
pub open spec fn cid_bytes(cid: u32) -> Seq<u8> {
    seq![((cid / 256) % 256) as u8, (cid % 256) as u8]
}

/// Unicode of the character code starting at `i` (two bytes, or one final
/// byte taken as the high byte).
pub open spec fn code_at(s: Seq<u8>, i: int) -> u32 {
    if i + 1 < s.len() {
        ((s[i] as u32) * 256 + s[i + 1] as u32) as u32
    } else {
        ((s[i] as u32) * 256) as u32
    }
}

/// Re-encoding of two-byte codes from `i` on: each code goes through `to_uni`
/// (or is Unicode itself when `to_uni` is `None`), then through `uni2cid`.
pub open spec fn remap_pairs(s: Seq<u8>, i: nat, to_uni: Option<Map<u32, u32>>, uni2cid: Map<u32, u32>) -> Seq<u8>
    decreases s.len() + 1 - i,
{
    if i >= s.len() {
        Seq::empty()
    } else {
        let code = code_at(s, i as int);
        let u = match to_uni {
            Some(m) => get_or_zero(m, code),
            None => code,
        };
        cid_bytes(get_or_zero(uni2cid, u)) + remap_pairs(s, i + 2, to_uni, uni2cid)
    }
}

/// Re-encoding of one-byte WinAnsi codes.
pub open spec fn remap_bytes(s: Seq<u8>, uni2cid: Map<u32, u32>) -> Seq<u8>
    decreases s.len(),
{
    if s.len() == 0 {
        Seq::empty()
    } else {
        remap_bytes(s.drop_last(), uni2cid) + cid_bytes(get_or_zero(uni2cid, winansi_unicode(s.last())))
    }
}

/// A shown string re-encoded as two-byte CIDs of the embedded font.
pub open spec fn remapped(s: Seq<u8>, enc: CodeEncoding, code_to_unicode: Map<u32, u32>, uni2cid: Map<u32, u32>) -> Seq<u8> {
    match enc {
        CodeEncoding::Unicode2Byte => remap_pairs(s, 0, None, uni2cid),
        CodeEncoding::WinAnsi1Byte => remap_bytes(s, uni2cid),
        CodeEncoding::IdentityCid => remap_pairs(s, 0, Some(code_to_unicode), uni2cid),
    }
}

/// The value of the two bytes at `2k`, `2k + 1` of `b`, high byte first.
pub open spec fn pair_value(b: Seq<u8>, k: int) -> int {
    b[2 * k] as int * 256 + b[2 * k + 1] as int
}

/// The `k`-th two-byte character code of `s`: bytes `2k` and `2k + 1`,
/// high byte first, a missing last byte read as 0.
pub open spec fn two_byte_code(s: Seq<u8>, k: int) -> int {
    s[2 * k] as int * 256 + (if 2 * k + 1 < s.len() {
        s[2 * k + 1] as int
    } else {
        0
    })
}

/// What `m` holds at `k`, 0 where it holds nothing.
pub open spec fn entry_or_zero(m: Map<u32, u32>, k: int) -> int {
    if 0 <= k <= u32::MAX && m.contains_key(k as u32) {
        m[k as u32] as int
    } else {
        0
    }
}

proof fn lemma_cid_pair(c: u32)
    ensures
        cid_bytes(c)[0] as int * 256 + cid_bytes(c)[1] as int == c as int % 65536,
{
    vstd::arithmetic::div_mod::lemma_breakdown(c as int, 256, 256);
}

proof fn lemma_remap_pairs_at(s: Seq<u8>, j: nat, to_uni: Option<Map<u32, u32>>, uni2cid: Map<u32, u32>)
    requires
        2 * j <= s.len() + 1,
    ensures
        remap_pairs(s, 2 * j, to_uni, uni2cid).len() == 2 * ((s.len() + 1) / 2 - j),
        forall|k: int|
            0 <= k < (s.len() + 1) / 2 - j ==> #[trigger] pair_value(remap_pairs(s, 2 * j, to_uni, uni2cid), k)
                == get_or_zero(
                uni2cid,
                match to_uni {
                    Some(m) => get_or_zero(m, code_at(s, 2 * (j + k))),
                    None => code_at(s, 2 * (j + k)),
                },
            ) as int % 65536,
    decreases s.len() + 1 - 2 * j,
{
    let r = remap_pairs(s, 2 * j, to_uni, uni2cid);
    if 2 * j >= s.len() {
    } else {
        lemma_remap_pairs_at(s, j + 1, to_uni, uni2cid);
        let code = code_at(s, (2 * j) as int);
        let u = match to_uni {
            Some(m) => get_or_zero(m, code),
            None => code,
        };
        let c = get_or_zero(uni2cid, u);
        let rest = remap_pairs(s, (2 * (j + 1)) as nat, to_uni, uni2cid);
        assert(r == cid_bytes(c) + rest);
        lemma_cid_pair(c);
        assert forall|k: int| 0 <= k < (s.len() + 1) / 2 - j implies #[trigger] pair_value(r, k) == get_or_zero(
            uni2cid,
            match to_uni {
                Some(m) => get_or_zero(m, code_at(s, 2 * (j + k))),
                None => code_at(s, 2 * (j + k)),
            },
        ) as int % 65536 by {
            if k > 0 {
                assert(r[2 * k] == rest[2 * (k - 1)]);
                assert(r[2 * k + 1] == rest[2 * (k - 1) + 1]);
                assert(pair_value(r, k) == pair_value(rest, k - 1));
                assert(j + 1 + (k - 1) == j + k);
            }
        }
    }
}

proof fn lemma_code_at_pair(s: Seq<u8>, k: int)
    requires
        0 <= 2 * k < s.len(),
    ensures
        code_at(s, 2 * k) as int == two_byte_code(s, k),
{
}

/// Re-encoding Identity-H/V strings: the result holds one CID per two-byte
/// character code of the string (a last odd byte read as a code with low
/// byte 0), two bytes each, high byte first; the CID is the one `uni2cid`
/// gives for the Unicode that `code_to_unicode` gives for the code, 0 where
/// either map has no entry.
pub proof fn lemma_remap_identity(s: Seq<u8>, code_to_unicode: Map<u32, u32>, uni2cid: Map<u32, u32>)
    ensures
        remapped(s, CodeEncoding::IdentityCid, code_to_unicode, uni2cid).len() == 2 * ((s.len() + 1) / 2),
        forall|k: int|
            0 <= k < (s.len() + 1) / 2 ==> #[trigger] pair_value(
                remapped(s, CodeEncoding::IdentityCid, code_to_unicode, uni2cid),
                k,
            ) == entry_or_zero(uni2cid, entry_or_zero(code_to_unicode, two_byte_code(s, k))) % 65536,
{
    lemma_remap_pairs_at(s, 0, Some(code_to_unicode), uni2cid);
    assert forall|k: int| 0 <= k < (s.len() + 1) / 2 implies #[trigger] pair_value(
        remapped(s, CodeEncoding::IdentityCid, code_to_unicode, uni2cid),
        k,
    ) == entry_or_zero(uni2cid, entry_or_zero(code_to_unicode, two_byte_code(s, k))) % 65536 by {
        lemma_code_at_pair(s, k);
        assert(2 * (0 + k) == 2 * k);
    }
}

/// Re-encoding two-byte Unicode strings: one CID per two-byte code, two
/// bytes each, high byte first; the CID is the one `uni2cid` gives for the
/// code read as Unicode, 0 where it has no entry.
pub proof fn lemma_remap_unicode(s: Seq<u8>, code_to_unicode: Map<u32, u32>, uni2cid: Map<u32, u32>)
    ensures
        remapped(s, CodeEncoding::Unicode2Byte, code_to_unicode, uni2cid).len() == 2 * ((s.len() + 1) / 2),
        forall|k: int|
            0 <= k < (s.len() + 1) / 2 ==> #[trigger] pair_value(
                remapped(s, CodeEncoding::Unicode2Byte, code_to_unicode, uni2cid),
                k,
            ) == entry_or_zero(uni2cid, two_byte_code(s, k)) % 65536,
{
    lemma_remap_pairs_at(s, 0, None, uni2cid);
    assert forall|k: int| 0 <= k < (s.len() + 1) / 2 implies #[trigger] pair_value(
        remapped(s, CodeEncoding::Unicode2Byte, code_to_unicode, uni2cid),
        k,
    ) == entry_or_zero(uni2cid, two_byte_code(s, k)) % 65536 by {
        lemma_code_at_pair(s, k);
        assert(2 * (0 + k) == 2 * k);
    }
}

fn lookup(m: &HashMap<u32, u32>, k: u32) -> (r: u32)
    ensures
        r == get_or_zero(m@, k),
{
    match m.get(&k) {
        Some(v) => *v,
        None => 0,
    }
}

fn push_cid(out: &mut Vec<u8>, cid: u32)
    ensures
        final(out)@ == old(out)@ + cid_bytes(cid),
{
    out.push(((cid / 256) % 256) as u8);
    out.push((cid % 256) as u8);
}

/// Re-encode the character codes of a shown string as two-byte CIDs.
pub fn remap_string(
    s: &[u8],
    enc: CodeEncoding,
    code_to_unicode: &HashMap<u32, u32>,
    uni2cid: &HashMap<u32, u32>,
) -> (r: Vec<u8>)
    ensures
        r@ == remapped(s@, enc, code_to_unicode@, uni2cid@),
        enc == CodeEncoding::IdentityCid ==> r@.len() == 2 * ((s@.len() + 1) / 2) && forall|k: int|
            0 <= k < (s@.len() + 1) / 2 ==> #[trigger] pair_value(r@, k) == entry_or_zero(
                uni2cid@,
                entry_or_zero(code_to_unicode@, two_byte_code(s@, k)),
            ) % 65536,
        enc == CodeEncoding::Unicode2Byte ==> r@.len() == 2 * ((s@.len() + 1) / 2) && forall|k: int|
            0 <= k < (s@.len() + 1) / 2 ==> #[trigger] pair_value(r@, k) == entry_or_zero(
                uni2cid@,
                two_byte_code(s@, k),
            ) % 65536,
{
    proof {
        lemma_remap_identity(s@, code_to_unicode@, uni2cid@);
        lemma_remap_unicode(s@, code_to_unicode@, uni2cid@);
    }
    let mut out: Vec<u8> = Vec::new();
    match enc {
        CodeEncoding::WinAnsi1Byte => {
            let mut i: usize = 0;
            while i < s.len()
                invariant
                    i <= s@.len(),
                    out@ == remap_bytes(s@.take(i as int), uni2cid@),
                decreases s@.len() - i,
            {
                assert(s@.take(i + 1).drop_last() =~= s@.take(i as int));
                let u = winansi_byte_to_unicode(s[i]);
                push_cid(&mut out, lookup(uni2cid, u));
                i = i + 1;
            }
            assert(s@.take(s@.len() as int) =~= s@);
        },
        _ => {
            let ghost to_uni: Option<Map<u32, u32>> = if enc == CodeEncoding::IdentityCid {
                Some(code_to_unicode@)
            } else {
                None
            };
            let n: usize = s.len();
            let mut i: usize = 0;
            while i < n
                invariant
                    n == s@.len(),
                    i <= n,
                    enc != CodeEncoding::WinAnsi1Byte,
                    to_uni == (if enc == CodeEncoding::IdentityCid {
                        Some(code_to_unicode@)
                    } else {
                        None::<Map<u32, u32>>
                    }),
                    out@ + remap_pairs(s@, i as nat, to_uni, uni2cid@) == remap_pairs(s@, 0, to_uni, uni2cid@),
                decreases n - i,
            {
                let code: u32 = if i + 1 < n {
                    (s[i] as u32) * 256 + s[i + 1] as u32
                } else {
                    (s[i] as u32) * 256
                };
                let u = if enc == CodeEncoding::IdentityCid {
                    lookup(code_to_unicode, code)
                } else {
                    code
                };
                let ghost before = out@;
                push_cid(&mut out, lookup(uni2cid, u));
                assert(out@ + remap_pairs(s@, (i + 2) as nat, to_uni, uni2cid@) =~= before
                    + remap_pairs(s@, i as nat, to_uni, uni2cid@));
                if i + 1 < n {
                    i = i + 2;
                } else {
                    assert(remap_pairs(s@, (i + 2) as nat, to_uni, uni2cid@) =~= Seq::<u8>::empty());
                    assert(remap_pairs(s@, n as nat, to_uni, uni2cid@) =~= Seq::<u8>::empty());
                    i = n;
                }
            }
            assert(remap_pairs(s@, i as nat, to_uni, uni2cid@) =~= Seq::<u8>::empty());
            assert(out@ + Seq::<u8>::empty() =~= out@);
        },
    }
    out
}


// ------------------------------------------------------------
// Hex strings of a CMap
// ------------------------------------------------------------

/// First index from `from` on that holds `b`, or an index past the end.
pub open spec fn find_from(data: Seq<u8>, from: nat, b: u8) -> nat
    decreases data.len() - from,
{
    if from >= data.len() {
        from
    } else if data[from as int] == b {
        from
    } else {
        find_from(data, from + 1, b)
    }
}

/// Whether a byte is an ASCII hex digit.
pub open spec fn is_hex_digit(c: u8) -> bool {
    (0x30 <= c <= 0x39) || (0x41 <= c <= 0x46) || (0x61 <= c <= 0x66)
}

/// Value of an ASCII hex digit.
pub open spec fn hex_digit_value(c: u8) -> nat {
    if 0x30 <= c <= 0x39 {
        (c - 0x30) as nat
    } else if 0x41 <= c <= 0x46 {
        (c - 0x41 + 10) as nat
    } else {
        (c - 0x61 + 10) as nat
    }
}

/// Value of a string of hex digits.
pub open spec fn hex_number(d: Seq<u8>) -> nat
    decreases d.len(),
{
    if d.len() == 0 {
        0
    } else {
        hex_number(d.drop_last()) * 16 + hex_digit_value(d.last())
    }
}

/// The digits of a number text: after an optional leading `+`.
pub open spec fn digits_part(b: Seq<u8>) -> Seq<u8> {
    if b.len() > 0 && b[0] == 0x2B {
        b.drop_first()
    } else {
        b
    }
}

/// Whether every byte is a hex digit.
pub open spec fn all_hex(d: Seq<u8>) -> bool {
    forall|i: int| 0 <= i < d.len() ==> is_hex_digit(#[trigger] d[i])
}

/// Value of one or more hex digits, when it fits in 32 bits.
pub open spec fn hex_digits_value(d: Seq<u8>) -> Option<u32> {
    if d.len() == 0 || !all_hex(d) {
        None
    } else if hex_number(d) <= u32::MAX {
        Some(hex_number(d) as u32)
    } else {
        None
    }
}

/// What `u32::from_str_radix(text, 16)` gives for the bytes of a text: an
/// optional `+`, then one or more hex digits whose value fits in 32 bits.
pub open spec fn parse_hex_u32(b: Seq<u8>) -> Option<u32> {
    hex_digits_value(digits_part(b))
}

/// The next `<hex>` from `start` on: its value (when it parses) and the index
/// after the `>`; `(None, len)` when no complete `<...>` follows.
pub open spec fn read_hex_spec(data: Seq<u8>, start: nat) -> (Option<u32>, nat) {
    let open = find_from(data, start, 0x3C);
    if open >= data.len() {
        (None, data.len())
    } else {
        let close = find_from(data, open + 1, 0x3E);
        if close >= data.len() {
            (None, data.len())
        } else {
            (parse_hex_u32(data.subrange(open + 1int, close as int)), close + 1)
        }
    }
}

proof fn lemma_find_from_bound(data: Seq<u8>, from: nat, b: u8)
    ensures
        find_from(data, from, b) >= from,
        find_from(data, from, b) < data.len() ==> data[find_from(data, from, b) as int] == b,
    decreases data.len() - from,
{
    if from < data.len() && data[from as int] != b {
        lemma_find_from_bound(data, from + 1, b);
    }
}

proof fn lemma_hex_number_grows(d: Seq<u8>, i: int)
    requires
        0 <= i <= d.len(),
    ensures
        hex_number(d.take(i)) <= hex_number(d),
    decreases d.len() - i,
{
    if i < d.len() {
        lemma_hex_number_grows(d, i + 1);
        assert(d.take(i + 1).drop_last() =~= d.take(i));
    } else {
        assert(d.take(i) =~= d);
    }
}

/// Parse hex digits `data[lo..hi]` as `u32::from_str_radix(_, 16)` does.
fn parse_hex_range(data: &[u8], lo: usize, hi: usize) -> (r: Option<u32>)
    requires
        lo <= hi <= data@.len(),
    ensures
        r == parse_hex_u32(data@.subrange(lo as int, hi as int)),
{
    let ghost b = data@.subrange(lo as int, hi as int);
    let mut p: usize = lo;
    if p < hi && data[p] == 0x2B {
        p = p + 1;
    }
    let ghost d = data@.subrange(p as int, hi as int);
    assert(d =~= digits_part(b));
    if p == hi {
        assert(d.len() == 0);
        return None;
    }
    let mut k: usize = p;
    while k < hi
        invariant
            p <= k <= hi <= data@.len(),
            d == data@.subrange(p as int, hi as int),
            b == data@.subrange(lo as int, hi as int),
            d == digits_part(b),
            d.len() > 0,
            forall|j: int| 0 <= j < k - p ==> is_hex_digit(#[trigger] d[j]),
        decreases hi - k,
    {
        let c = data[k];
        if !((0x30 <= c && c <= 0x39) || (0x41 <= c && c <= 0x46) || (0x61 <= c && c <= 0x66)) {
            assert(!is_hex_digit(d[k - p]));
            assert(!all_hex(d));
            return None;
        }
        k = k + 1;
    }
    let mut v: u32 = 0;
    let mut q: usize = p;
    while q < hi
        invariant
            p <= q <= hi <= data@.len(),
            d == data@.subrange(p as int, hi as int),
            b == data@.subrange(lo as int, hi as int),
            d == digits_part(b),
            d.len() > 0,
            forall|j: int| 0 <= j < d.len() ==> is_hex_digit(#[trigger] d[j]),
            v as nat == hex_number(d.take(q - p)),
        decreases hi - q,
    {
        let c = data[q];
        assert(is_hex_digit(d[q - p]));
        let digit: u32 = if c <= 0x39 {
            (c - 0x30) as u32
        } else if c <= 0x46 {
            (c - 0x41 + 10) as u32
        } else {
            (c - 0x61 + 10) as u32
        };
        assert(d.take(q - p + 1).drop_last() =~= d.take(q - p));
        assert(d.take(q - p + 1).last() == c);
        assert(digit as nat == hex_digit_value(c));
        match v.checked_mul(16) {
            Some(m) => match m.checked_add(digit) {
                Some(w) => {
                    v = w;
                },
                None => {
                    proof {
                        lemma_hex_number_grows(d, q - p + 1);
                    }
                    return None;
                },
            },
            None => {
                proof {
                    lemma_hex_number_grows(d, q - p + 1);
                }
                return None;
            },
        }
        q = q + 1;
    }
    assert(d.take(d.len() as int) =~= d);
    Some(v)
}

/// Read the next `<hex>` string from `data[start..]`: its value (when it
/// parses as a hex number) and the absolute index after its `>`.
pub fn read_hex(data: &[u8], start: usize) -> (r: (Option<u32>, usize))
    ensures
        (r.0, r.1 as nat) == read_hex_spec(data@, start as nat),
{
    let n: usize = data.len();
    let mut i: usize = start;
    while i < n && data[i] != 0x3C
        invariant
            start <= i,
            n == data@.len(),
            find_from(data@, start as nat, 0x3C) == find_from(data@, i as nat, 0x3C),
        decreases n - i,
    {
        i = i + 1;
    }
    if i >= n {
        return (None, n);
    }
    i = i + 1;
    let s: usize = i;
    while i < n && data[i] != 0x3E
        invariant
            s <= i,
            n == data@.len(),
            find_from(data@, s as nat, 0x3E) == find_from(data@, i as nat, 0x3E),
        decreases n - i,
    {
        i = i + 1;
    }
    if i >= n {
        return (None, n);
    }
    let v = parse_hex_range(data, s, i);
    (v, i + 1)
}

// ------------------------------------------------------------
// TrueType cmap format 12
// ------------------------------------------------------------

/// Distance from `c` up to `end`, counting round past the largest u32.
pub open spec fn wrap_distance(c: u32, end: u32) -> nat {
    if end >= c {
        (end - c) as nat
    } else {
        (end + 0x1_0000_0000 - c) as nat
    }
}

/// The next u32, wrapping to 0.
pub open spec fn succ32(c: u32) -> u32 {
    if c == u32::MAX {
        0
    } else {
        (c + 1) as u32
    }
}

/// Glyph -> code entries of one sequential group: `g -> c` for `c` from the
/// start code to `end` (wrapping), glyphs counting up with the codes.
pub open spec fn insert_run(m: Map<u32, u32>, c: u32, g: u32, end: u32) -> Map<u32, u32>
    decreases wrap_distance(c, end),
{
    let m1 = m.insert(g, c);
    if c == end {
        m1
    } else {
        insert_run(m1, succ32(c), succ32(g), end)
    }
}

/// The map after `k` more sequential groups from offset `p` (12 bytes each:
/// start code, end code, start glyph); it stops at the end of the data.
pub open spec fn cmap12_groups(ttf: Seq<u8>, p: nat, k: nat, m: Map<u32, u32>) -> Map<u32, u32>
    decreases k,
{
    if k == 0 || p + 12 > ttf.len() {
        m
    } else {
        cmap12_groups(
            ttf,
            p + 12,
            (k - 1) as nat,
            insert_run(m, be32(ttf, p as int), be32(ttf, p + 8int), be32(ttf, p + 4int)),
        )
    }
}

/// What a format 12 subtable at `base` adds to the map: its group count is
/// at `base + 12`, its groups follow from `base + 16`.
pub open spec fn cmap12(ttf: Seq<u8>, base: nat, m: Map<u32, u32>) -> Map<u32, u32> {
    if base + 16 > ttf.len() {
        m
    } else {
        cmap12_groups(ttf, base + 16, be32(ttf, base + 12int) as nat, m)
    }
}

/// Add the glyph -> code entries of a format 12 `cmap` subtable at `base`.
pub fn parse_cmap12(ttf: &[u8], base: usize, map: &mut HashMap<u32, u32>)
    ensures
        final(map)@ == cmap12(ttf@, base as nat, old(map)@),
{
    let n: usize = ttf.len();
    if base > n || n - base < 16 {
        return;
    }
    let ngroups: u32 = read_be32(ttf, base + 12);
    let mut p: usize = base + 16;
    let mut k: u32 = 0;
    while k < ngroups
        invariant
            n == ttf@.len(),
            p <= n,
            k <= ngroups,
            cmap12(ttf@, base as nat, old(map)@) == cmap12_groups(ttf@, p as nat, (ngroups - k) as nat, map@),
        decreases ngroups - k,
    {
        if n - p < 12 {
            return;
        }
        let startc = read_be32(ttf, p);
        let endc = read_be32(ttf, p + 4);
        let startg = read_be32(ttf, p + 8);
        let ghost before = map@;
        let mut c: u32 = startc;
        let mut g: u32 = startg;
        loop
            invariant
                insert_run(before, startc, startg, endc) == insert_run(map@, c, g, endc),
            ensures
                map@ == insert_run(before, startc, startg, endc),
            decreases wrap_distance(c, endc),
        {
            let ghost m0 = map@;
            map.insert(g, c);
            if c == endc {
                assert(insert_run(m0, c, g, endc) == map@);
                break;
            }
            assert(insert_run(m0, c, g, endc) == insert_run(map@, succ32(c), succ32(g), endc));
            c = c.wrapping_add(1);
            g = g.wrapping_add(1);
        }
        p = p + 12;
        k = k + 1;
    }
}


// ------------------------------------------------------------
// Normalising code points
// ------------------------------------------------------------

/// NFKC normalisation (`unicode-normalization`) of the character with the
/// given scalar value.
pub uninterp spec fn nfkc_of(code: u32) -> Seq<char>;

/// Whether a u32 is a Unicode scalar value.
pub open spec fn is_scalar(u: u32) -> bool {
    u < 0xD800 || (0xE000 <= u <= 0x10FFFF)
}

/// `char::from_u32`: the character with that scalar value, if it is one.
#[verifier::external_body]
fn char_from_u32(u: u32) -> (r: Option<char>)
    ensures
        is_scalar(u) ==> r is Some && r->0 as u32 == u,
        !is_scalar(u) ==> r is None,
{
    char::from_u32(u)
}

/// NFKC normalisation of one character, as a string
/// (`UnicodeNormalization::nfkc` collected).
#[verifier::external_body]
fn nfkc_string(c: char) -> (r: String)
    ensures
        r@ == nfkc_of(c as u32),
{
    unicode_normalization::UnicodeNormalization::nfkc(c).collect()
}

/// The ideograph a listed radical stands for.
pub open spec fn radical_target(u: u32) -> Option<u32> {
    if u == 0x2EA0 {
        Some(0x6C11u32)
    } else if u == 0x2ED3 {
        Some(0x957Fu32)
    } else if u == 0x2E96 {
        Some(0x624Bu32)
    } else if u == 0x2E9F {
        Some(0x6708u32)
    } else if u == 0x2EA1 {
        Some(0x6C34u32)
    } else if u == 0x2EB3 {
        Some(0x706Bu32)
    } else if u == 0x2EC8 {
        Some(0x6728u32)
    } else if u == 0x2EE0 {
        Some(0x91D1u32)
    } else if u == 0x2EE3 {
        Some(0x571Fu32)
    } else if u == 0x2EAA {
        Some(0x65E5u32)
    } else {
        None
    }
}

/// Kangxi radicals and the compatibility ideograph blocks, where NFKC gives
/// the unified ideograph.
pub open spec fn in_nfkc_range(u: u32) -> bool {
    (0x2F00 <= u <= 0x2FDF) || (0xF900 <= u <= 0xFAFF) || (0x2F800 <= u <= 0x2FA1F)
}

/// The standard code point for `u`: NFKC of Kangxi radicals and compatibility
/// ideographs when that is a single character; the listed radicals
/// supplement characters mapped to their ideographs; everything else as is.
pub open spec fn normalized(u: u32) -> u32 {
    if in_nfkc_range(u) && is_scalar(u) && nfkc_of(u).len() == 1 {
        nfkc_of(u)[0] as u32
    } else if 0x2E80 <= u <= 0x2EFF && radical_target(u) is Some {
        radical_target(u)->0
    } else {
        u
    }
}

/// Normalise a code point (see `normalized`).
pub fn normalize_unicode(u: u32) -> (r: u32)
    ensures
        r == normalized(u),
{
    let nfkc_range = (0x2F00 <= u && u <= 0x2FDF) || (0xF900 <= u && u <= 0xFAFF) || (0x2F800 <= u
        && u <= 0x2FA1F);
    if nfkc_range {
        match char_from_u32(u) {
            Some(c) => {
                let s = nfkc_string(c);
                let cs = crate::text::chars_of(s.as_str());
                if cs.len() == 1 {
                    return cs[0] as u32;
                }
            },
            None => {},
        }
    }
    if 0x2E80 <= u && u <= 0x2EFF {
        let target: u32 = if u == 0x2EA0 {
            0x6C11
        } else if u == 0x2ED3 {
            0x957F
        } else if u == 0x2E96 {
            0x624B
        } else if u == 0x2E9F {
            0x6708
        } else if u == 0x2EA1 {
            0x6C34
        } else if u == 0x2EB3 {
            0x706B
        } else if u == 0x2EC8 {
            0x6728
        } else if u == 0x2EE0 {
            0x91D1
        } else if u == 0x2EE3 {
            0x571F
        } else if u == 0x2EAA {
            0x65E5
        } else {
            0
        };
        if target != 0 {
            return target;
        }
    }
    u
}

// ------------------------------------------------------------
// Which fonts to replace
// ------------------------------------------------------------

/// Lower-case form of a text (`str::to_lowercase`).
pub uninterp spec fn lowercase_of(s: Seq<char>) -> Seq<char>;

/// Text of some bytes with invalid UTF-8 replaced (`String::from_utf8_lossy`).
pub uninterp spec fn utf8_lossy_of(b: Seq<u8>) -> Seq<char>;

/// `str::to_lowercase`.
#[verifier::external_body]
pub(crate) fn to_lowercase(s: &str) -> (r: String)
    ensures
        r@ == lowercase_of(s@),
{
    s.to_lowercase()
}

/// `String::from_utf8_lossy`.
#[verifier::external_body]
pub(crate) fn utf8_lossy(b: &[u8]) -> (r: String)
    ensures
        r@ == utf8_lossy_of(b@),
{
    String::from_utf8_lossy(b).to_string()
}

/// Whether a lower-case font name suggests a Chinese (or other CJK) font.
pub open spec fn cjk_name_hint(l: Seq<char>) -> bool {
    ||| contains_str(l, "song"@)
    ||| contains_str(l, "hei"@)
    ||| contains_str(l, "kai"@)
    ||| contains_str(l, "fang"@)
    ||| contains_str(l, "ming"@)
    ||| contains_str(l, "noto"@)
    ||| contains_str(l, "stsong"@)
    ||| contains_str(l, "simsun"@)
    ||| contains_str(l, "cjk"@)
    ||| contains_str(l, "gb"@)
    ||| contains_str(l, "sc"@)
    ||| contains_str(l, "tc"@)
    ||| contains_str(l, "jp"@)
    ||| contains_str(l, "kr"@)
    ||| contains_str(l, "chinese"@)
}

/// CJK ideographs (unified, compatibility, and the supplementary planes).
pub open spec fn is_cjk_code(u: u32) -> bool {
    (0x3400 <= u <= 0x9FFF) || (0xF900 <= u <= 0xFAFF) || (0x20000 <= u <= 0x2FA1F)
}

/// Whether a font is worth replacing: its name suggests CJK, its codes are
/// two-byte Unicode, or its code map reaches a CJK ideograph.
pub open spec fn cjk_font(name: Seq<char>, code_to_unicode: Map<u32, u32>, enc: CodeEncoding) -> bool {
    ||| cjk_name_hint(lowercase_of(name))
    ||| enc == CodeEncoding::Unicode2Byte
    ||| exists|k: u32| code_to_unicode.contains_key(k) && is_cjk_code(#[trigger] code_to_unicode[k])
}

fn name_hint(l: &str) -> (r: bool)
    ensures
        r == cjk_name_hint(l@),
{
    contains(l, "song") || contains(l, "hei") || contains(l, "kai") || contains(l, "fang") || contains(
        l,
        "ming",
    ) || contains(l, "noto") || contains(l, "stsong") || contains(l, "simsun") || contains(l, "cjk")
        || contains(l, "gb") || contains(l, "sc") || contains(l, "tc") || contains(l, "jp") || contains(
        l,
        "kr",
    ) || contains(l, "chinese")
}

/// Whether the font should be replaced by the embedded CJK font.
pub fn is_cjk_font(name: &str, code_to_unicode: &HashMap<u32, u32>, enc: CodeEncoding) -> (r: bool)
    ensures
        r == cjk_font(name@, code_to_unicode@, enc),
{
    let lower = to_lowercase(name);
    if name_hint(lower.as_str()) {
        return true;
    }
    if enc == CodeEncoding::Unicode2Byte {
        return true;
    }
    let mut found = false;
    let ghost mut seen: Seq<u32> = Seq::empty();
    for k in it: code_to_unicode.keys()
        invariant
            it.seq().unref().to_set() == code_to_unicode@.dom(),
            seen == it.seq().unref().take(it.index() as int),
            it.index() == it.seq().len() ==> seen.to_set() == code_to_unicode@.dom(),
            found == exists|j: int| 0 <= j < seen.len() && is_cjk_code(#[trigger] code_to_unicode@[seen[j]]),
    {
        let u = lookup(code_to_unicode, *k);
        proof {
            seen = seen.push(*k);
        }
        assert(it.seq().unref()[it.index() as int] == *k);
        assert(seen =~= it.seq().unref().take(it.index() + 1));
        assert(seen[seen.len() - 1] == *k);
        assert(it.index() + 1 == it.seq().len() ==> seen =~= it.seq().unref());
        if (0x3400 <= u && u <= 0x9FFF) || (0xF900 <= u && u <= 0xFAFF) || (0x20000 <= u && u <= 0x2FA1F) {
            found = true;
        }
    }
    proof {
        if exists|k: u32| code_to_unicode@.contains_key(k) && is_cjk_code(#[trigger] code_to_unicode@[k]) {
            let k = choose|k: u32| code_to_unicode@.contains_key(k) && is_cjk_code(#[trigger] code_to_unicode@[k]);
            assert(seen.to_set().contains(k));
            let j = choose|j: int| 0 <= j < seen.len() && seen[j] == k;
            assert(is_cjk_code(code_to_unicode@[seen[j]]));
        }
        if found {
            let j = choose|j: int| 0 <= j < seen.len() && is_cjk_code(#[trigger] code_to_unicode@[seen[j]]);
            assert(seen.to_set().contains(seen[j]));
        }
    }
    found
}


// ------------------------------------------------------------
// TrueType cmap format 4
// ------------------------------------------------------------

/// Signed big-endian u16 at `i`.
pub open spec fn be16_signed(b: Seq<u8>, i: int) -> int {
    let v = be16(b, i) as int;
    if v >= 0x8000 {
        v - 0x10000
    } else {
        v
    }
}

/// `(x + delta) & 0xFFFF`.
pub open spec fn add_delta(x: int, delta: int) -> u16 {
    ((x + delta) % 0x10000) as u16
}

/// Number of segments of a format 4 subtable at `base`.
pub open spec fn seg_count(ttf: Seq<u8>, base: nat) -> nat {
    (be16(ttf, base + 6int) / 2) as nat
}

/// Whether the four segment arrays of a format 4 subtable at `base` lie
/// inside the data (they are read without bounds checks).
pub open spec fn cmap4_fits(ttf: Seq<u8>, base: nat) -> bool {
    base + 14 > ttf.len() || seg_count(ttf, base) == 0 || base + 16 + 8 * seg_count(ttf, base) <= ttf.len()
}

/// Glyph for code `c` of a segment whose `idRangeOffset` word is at `ro_at`;
/// `None` when the glyph index array entry lies beyond the data.
pub open spec fn seg_glyph(ttf: Seq<u8>, ro_at: nat, start: u16, delta: int, ro: u16, c: u16) -> Option<u16> {
    if ro == 0 {
        Some(add_delta(c as int, delta))
    } else {
        let idx: int = ro_at + 2 * (c - start) + ro;
        if idx + 2 > ttf.len() {
            None
        } else {
            let g = be16(ttf, idx);
            if g == 0 {
                Some(0u16)
            } else {
                Some(add_delta(g as int, delta))
            }
        }
    }
}

/// Entries of one segment from code `c` up to its end code: nonzero glyphs
/// map to their codes; it stops where a glyph index lies beyond the data.
pub open spec fn run4(
    m: Map<u32, u32>,
    ttf: Seq<u8>,
    ro_at: nat,
    start: u16,
    delta: int,
    ro: u16,
    c: u16,
    end: u16,
) -> Map<u32, u32>
    decreases 0xFFFF - c,
{
    if c > end {
        m
    } else {
        match seg_glyph(ttf, ro_at, start, delta, ro, c) {
            None => m,
            Some(g) => {
                let m1 = if g != 0 {
                    m.insert(g as u32, c as u32)
                } else {
                    m
                };
                if c == end {
                    m1
                } else {
                    run4(m1, ttf, ro_at, start, delta, ro, (c + 1) as u16, end)
                }
            },
        }
    }
}

/// Entries of segments `i..` of a format 4 subtable at `base`.
pub open spec fn segs4(m: Map<u32, u32>, ttf: Seq<u8>, base: nat, i: nat) -> Map<u32, u32>
    decreases seg_count(ttf, base) - i,
{
    let n = seg_count(ttf, base);
    if i >= n {
        m
    } else {
        let e = base + 14;
        let st = e + 2 * n + 2;
        let id = st + 2 * n;
        let ir = id + 2 * n;
        let end = be16(ttf, (e + 2 * i) as int);
        let start = be16(ttf, (st + 2 * i) as int);
        let delta = be16_signed(ttf, (id + 2 * i) as int);
        let ro = be16(ttf, (ir + 2 * i) as int);
        let m1 = if start == 0xFFFF && end == 0xFFFF {
            m
        } else {
            run4(m, ttf, (ir + 2 * i) as nat, start, delta, ro, start, end)
        };
        segs4(m1, ttf, base, i + 1)
    }
}

/// What a format 4 subtable at `base` adds to the map. Every segment is
/// followed from its start code to its end code.
pub open spec fn cmap4(ttf: Seq<u8>, base: nat, m: Map<u32, u32>) -> Map<u32, u32> {
    if base + 14 > ttf.len() || seg_count(ttf, base) == 0 {
        m
    } else {
        segs4(m, ttf, base, 0)
    }
}

/// Add the glyph -> code entries of a format 4 `cmap` subtable at `base`.
pub fn parse_cmap4(ttf: &[u8], base: usize, map: &mut HashMap<u32, u32>)
    requires
        cmap4_fits(ttf@, base as nat),
    ensures
        final(map)@ == cmap4(ttf@, base as nat, old(map)@),
{
    let n: usize = ttf.len();
    if base > n || n - base < 14 {
        return;
    }
    let segcount: usize = (read_be16(ttf, base + 6) / 2) as usize;
    if segcount == 0 {
        return;
    }
    let e: usize = base + 14;
    let st: usize = e + 2 * segcount + 2;
    let id: usize = st + 2 * segcount;
    let ir: usize = id + 2 * segcount;
    let mut i: usize = 0;
    while i < segcount
        invariant
            n == ttf@.len(),
            segcount == seg_count(ttf@, base as nat),
            base + 16 + 8 * segcount <= n,
            e == base + 14,
            st == e + 2 * segcount + 2,
            id == st + 2 * segcount,
            ir == id + 2 * segcount,
            i <= segcount,
            cmap4(ttf@, base as nat, old(map)@) == segs4(map@, ttf@, base as nat, i as nat),
        decreases segcount - i,
    {
        let end = read_be16(ttf, e + 2 * i);
        let start = read_be16(ttf, st + 2 * i);
        let delta_raw = read_be16(ttf, id + 2 * i);
        let delta: i32 = if delta_raw >= 0x8000 { delta_raw as i32 - 0x10000 } else { delta_raw as i32 };
        let ro = read_be16(ttf, ir + 2 * i);
        let ro_at: usize = ir + 2 * i;
        let ghost before = map@;
        if !(start == 0xFFFF && end == 0xFFFF) && start <= end {
            let mut c: u16 = start;
            loop
                invariant
                    n == ttf@.len(),
                    start <= c <= end,
                    ro_at <= n,
                    delta == be16_signed(ttf@, id + 2 * i),
                    run4(before, ttf@, ro_at as nat, start, delta as int, ro, start, end) == run4(
                        map@,
                        ttf@,
                        ro_at as nat,
                        start,
                        delta as int,
                        ro,
                        c,
                        end,
                    ),
                ensures
                    map@ == run4(before, ttf@, ro_at as nat, start, delta as int, ro, start, end),
                decreases 0xFFFF - c,
            {
                let ghost m0 = map@;
                let glyph: u16 = if ro == 0 {
                    ((c as i32 + delta) & 0xFFFF) as u16
                } else {
                    let rel: usize = 2 * ((c - start) as usize) + ro as usize;
                    if rel > n - ro_at || n - ro_at - rel < 2 {
                        assert(seg_glyph(ttf@, ro_at as nat, start, delta as int, ro, c) is None);
                        break;
                    }
                    let idx: usize = ro_at + rel;
                    let g = read_be16(ttf, idx);
                    if g == 0 {
                        0
                    } else {
                        ((g as i32 + delta) & 0xFFFF) as u16
                    }
                };
                proof {
                    lemma_add_delta_mask(c as int, delta as int);
                    assert(seg_glyph(ttf@, ro_at as nat, start, delta as int, ro, c) == Some(glyph)) by {
                        if ro != 0 {
                            let g = be16(ttf@, ro_at + 2 * (c - start) + ro);
                            lemma_add_delta_mask(g as int, delta as int);
                        }
                    }
                }
                if glyph != 0 {
                    map.insert(glyph as u32, c as u32);
                }
                if c == end {
                    break;
                }
                c = c + 1;
            }
        }
        i = i + 1;
    }
}

proof fn lemma_add_delta_mask(x: int, delta: int)
    requires
        0 <= x < 0x10000,
        -0x8000 <= delta < 0x8000,
    ensures
        ((x + delta) as i32 & 0xFFFF) as u16 == add_delta(x, delta),
{
    let v = (x + delta) as i32;
    assert(v as int == x + delta);
    assert((v & 0xFFFF) as u16 == (v as int % 0x10000) as u16) by (bit_vector)
        requires
            -0x8000 <= v < 0x18000,
    ;
}


// ------------------------------------------------------------
// TrueType cmap: glyph -> Unicode
// ------------------------------------------------------------

/// Offset of the `cmap` table, from the table records `i..n`.
pub open spec fn find_cmap(ttf: Seq<u8>, i: nat, n: nat) -> Option<nat>
    decreases n - i,
{
    if i >= n {
        None
    } else {
        let rec = 12 + 16 * i;
        if rec + 16 > ttf.len() {
            None
        } else if ttf[rec as int] == 0x63 && ttf[rec + 1int] == 0x6D && ttf[rec + 2int] == 0x61 && ttf[rec + 3int] == 0x70 {
            Some(be32(ttf, rec + 8int) as nat)
        } else {
            find_cmap(ttf, i + 1, n)
        }
    }
}

/// Whether an encoding record is a Unicode one: platform 0, or Windows (3)
/// with encoding 1 or 10.
pub open spec fn is_unicode_record(plat: u16, enc: u16) -> bool {
    plat == 0 || (plat == 3 && (enc == 1 || enc == 10))
}

/// The subtable chosen among encoding records `i..n`: the first Unicode one,
/// replaced by any later platform-0 one.
pub open spec fn choose_subtable(ttf: Seq<u8>, cmap_off: nat, i: nat, n: nat, chosen: Option<nat>) -> Option<nat>
    decreases n - i,
{
    if i >= n {
        chosen
    } else {
        let e = cmap_off + 4 + 8 * i;
        if e + 8 > ttf.len() {
            chosen
        } else {
            let plat = be16(ttf, e as int);
            let enc = be16(ttf, e + 2int);
            let off = be32(ttf, e + 4int);
            let next = if is_unicode_record(plat, enc) && (chosen is None || plat == 0) {
                Some((cmap_off + off) as nat)
            } else {
                chosen
            };
            choose_subtable(ttf, cmap_off, i + 1, n, next)
        }
    }
}

/// Offset of the Unicode subtable of a TrueType font, if there is one.
pub open spec fn unicode_subtable(ttf: Seq<u8>) -> Option<nat> {
    if ttf.len() < 12 {
        None
    } else {
        match find_cmap(ttf, 0, be16(ttf, 4) as nat) {
            None => None,
            Some(cmap_off) => if cmap_off + 4 > ttf.len() {
                None
            } else {
                choose_subtable(ttf, cmap_off, 0, be16(ttf, cmap_off + 2int) as nat, None)
            },
        }
    }
}

/// Glyph -> Unicode map of a TrueType font: from its Unicode `cmap`
/// subtable when that is format 4 or 12, else empty.
pub open spec fn gid_to_unicode(ttf: Seq<u8>) -> Map<u32, u32> {
    match unicode_subtable(ttf) {
        None => Map::empty(),
        Some(sub) => if sub + 2 > ttf.len() {
            Map::empty()
        } else if be16(ttf, sub as int) == 4 {
            cmap4(ttf, sub, Map::empty())
        } else if be16(ttf, sub as int) == 12 {
            cmap12(ttf, sub, Map::empty())
        } else {
            Map::empty()
        },
    }
}

/// A font whose chosen subtable, when it is format 4, has its segment arrays
/// inside the data.
pub open spec fn truetype_readable(ttf: Seq<u8>) -> bool {
    match unicode_subtable(ttf) {
        Some(sub) => sub + 2 <= ttf.len() && be16(ttf, sub as int) == 4 ==> cmap4_fits(ttf, sub),
        None => true,
    }
}

/// Glyph -> Unicode map of an embedded TrueType font.
/// The Unicode `cmap` subtable of a TrueType font, where there is one (see
/// `unicode_subtable`).
fn find_unicode_subtable(ttf: &[u8]) -> (r: Option<u128>)
    ensures
        match r {
            Some(c) => unicode_subtable(ttf@) == Some(c as nat) && c <= 0x2_0000_0000_0000_0000,
            None => unicode_subtable(ttf@) is None,
        },
{
    let n: usize = ttf.len();
    if n < 12 {
        return None;
    }
    let num_tables: usize = read_be16(ttf, 4) as usize;
    let mut cmap_off: Option<usize> = None;
    let mut i: usize = 0;
    while i < num_tables
        invariant_except_break
            cmap_off is None,
            find_cmap(ttf@, 0, num_tables as nat) == find_cmap(ttf@, i as nat, num_tables as nat),
        invariant
            n == ttf@.len(),
            n >= 12,
            num_tables == be16(ttf@, 4),
            i <= num_tables,
        ensures
            match cmap_off {
                Some(o) => find_cmap(ttf@, 0, num_tables as nat) == Some(o as nat),
                None => find_cmap(ttf@, 0, num_tables as nat) is None,
            },
        decreases num_tables - i,
    {
        if 16 * i > n || n - 16 * i < 28 {
            break;
        }
        let rec: usize = 12 + 16 * i;
        if ttf[rec] == 0x63 && ttf[rec + 1] == 0x6D && ttf[rec + 2] == 0x61 && ttf[rec + 3] == 0x70 {
            cmap_off = Some(read_be32(ttf, rec + 8) as usize);
            break;
        }
        i = i + 1;
    }
    let ghost found = find_cmap(ttf@, 0, num_tables as nat);
    assert(match cmap_off {
        Some(o) => found == Some(o as nat),
        None => found is None,
    });
    let cmap_off: usize = match cmap_off {
        Some(o) => o,
        None => {
            return None;
        },
    };
    if cmap_off > n || n - cmap_off < 4 {
        return None;
    }
    let num_sub: usize = read_be16(ttf, cmap_off + 2) as usize;
    let mut chosen: Option<u128> = None;
    let mut j: usize = 0;
    while j < num_sub
        invariant_except_break
            choose_subtable(ttf@, cmap_off as nat, 0, num_sub as nat, None) == choose_subtable(
                ttf@,
                cmap_off as nat,
                j as nat,
                num_sub as nat,
                match chosen {
                    Some(c) => Some(c as nat),
                    None => None,
                },
            ),
        invariant
            n == ttf@.len(),
            cmap_off + 4 <= n,
            num_sub == be16(ttf@, cmap_off + 2),
            j <= num_sub,
            match chosen {
                Some(c) => c <= cmap_off + 0xFFFF_FFFF,
                None => true,
            },
        ensures
            choose_subtable(ttf@, cmap_off as nat, 0, num_sub as nat, None) == match chosen {
                Some(c) => Some(c as nat),
                None => None,
            },
        decreases num_sub - j,
    {
        if 8 * j > n - cmap_off - 4 || n - cmap_off - 4 - 8 * j < 8 {
            break;
        }
        let e: usize = cmap_off + 4 + 8 * j;
        let plat = read_be16(ttf, e);
        let enc = read_be16(ttf, e + 2);
        let off = read_be32(ttf, e + 4);
        let is_unicode = plat == 0 || (plat == 3 && (enc == 1 || enc == 10));
        if is_unicode {
            if chosen.is_none() || plat == 0 {
                chosen = Some(cmap_off as u128 + off as u128);
            }
        }
        j = j + 1;
    }
    chosen
}

/// Whether a font's chosen `cmap` subtable, when it is format 4, has its
/// segment arrays inside the data (see `truetype_readable`).
pub fn truetype_is_readable(ttf: &[u8]) -> (r: bool)
    ensures
        r == truetype_readable(ttf@),
{
    let n: usize = ttf.len();
    match find_unicode_subtable(ttf) {
        None => true,
        Some(c) => {
            if c + 2 > n as u128 {
                return true;
            }
            let base: usize = c as usize;
            if read_be16(ttf, base) != 4 {
                return true;
            }
            if n - base < 14 {
                return true;
            }
            let segcount: usize = (read_be16(ttf, base + 6) / 2) as usize;
            segcount == 0 || (n - base >= 16 && segcount <= (n - base - 16) / 8)
        },
    }
}

pub fn parse_truetype_gid_to_unicode(ttf: &[u8]) -> (r: HashMap<u32, u32>)
    requires
        truetype_readable(ttf@),
    ensures
        r@ == gid_to_unicode(ttf@),
{
    let mut map: HashMap<u32, u32> = HashMap::new();
    let n: usize = ttf.len();
    let chosen = find_unicode_subtable(ttf);
    let sub: usize = match chosen {
        Some(c) => {
            if c + 2 > n as u128 {
                return map;
            }
            c as usize
        },
        None => {
            return map;
        },
    };
    let fmt = read_be16(ttf, sub);
    if fmt == 4 {
        parse_cmap4(ttf, sub, &mut map);
    } else if fmt == 12 {
        parse_cmap12(ttf, sub, &mut map);
    }
    map
}

// ------------------------------------------------------------
// Encoding of a source font
// ------------------------------------------------------------

/// The `/Encoding` entry of a font dictionary, as far as it matters here.
#[derive(Debug, Clone)]
pub enum FontEncodingEntry {
    /// A name, such as /Identity-H or /UniGB-UCS2-H (its bytes).
    Name(Vec<u8>),
    /// A CMap dictionary, with its /Ordering string when that is a string.
    Dictionary(Option<Vec<u8>>),
    /// Absent, or anything else.
    Other,
}

/// Encoding of the codes of a font: Type0 fonts are Identity when the
/// encoding name says "identity", two-byte Unicode when it says "ucs2",
/// "utf16" or "ucs", not handled when their CMap's ordering is a GB, CNS,
/// Japan or Korea one, and two-byte Unicode otherwise; other fonts are
/// WinAnsi.
pub open spec fn detected_encoding(is_type0: bool, enc_name_lower: Seq<char>, ordering_lower: Option<Seq<char>>) -> Option<CodeEncoding> {
    if !is_type0 {
        Some(CodeEncoding::WinAnsi1Byte)
    } else if contains_str(enc_name_lower, "identity"@) {
        Some(CodeEncoding::IdentityCid)
    } else if contains_str(enc_name_lower, "ucs2"@) || contains_str(enc_name_lower, "utf16"@)
        || contains_str(enc_name_lower, "ucs"@) {
        Some(CodeEncoding::Unicode2Byte)
    } else {
        match ordering_lower {
            Some(o) => if contains_str(o, "gb"@) || contains_str(o, "cns"@) || contains_str(o, "japan"@)
                || contains_str(o, "korea"@) {
                None
            } else {
                Some(CodeEncoding::Unicode2Byte)
            },
            None => Some(CodeEncoding::Unicode2Byte),
        }
    }
}

/// Lower-case text of an encoding name, empty for anything but a name.
pub open spec fn encoding_name_lower(entry: FontEncodingEntry) -> Seq<char> {
    match entry {
        FontEncodingEntry::Name(n) => lowercase_of(utf8_lossy_of(n@)),
        _ => Seq::empty(),
    }
}

/// Lower-case text of a CMap's ordering, if it has one.
pub open spec fn ordering_lower(entry: FontEncodingEntry) -> Option<Seq<char>> {
    match entry {
        FontEncodingEntry::Dictionary(Some(o)) => Some(lowercase_of(utf8_lossy_of(o@))),
        _ => None,
    }
}

/// How to read the codes of a font, from whether its /Subtype is Type0 and
/// its /Encoding entry; `None` for CJK CMaps that are not Unicode.
pub fn detect_encoding(is_type0: bool, encoding: &FontEncodingEntry) -> (r: Option<CodeEncoding>)
    ensures
        r == detected_encoding(is_type0, encoding_name_lower(*encoding), ordering_lower(*encoding)),
{
    let enc_lower: String = match encoding {
        FontEncodingEntry::Name(n) => {
            let text = utf8_lossy(n.as_slice());
            to_lowercase(text.as_str())
        },
        _ => String::new(),
    };
    if !is_type0 {
        return Some(CodeEncoding::WinAnsi1Byte);
    }
    let l = enc_lower.as_str();
    if contains(l, "identity") {
        return Some(CodeEncoding::IdentityCid);
    }
    if contains(l, "ucs2") || contains(l, "utf16") || contains(l, "ucs") {
        return Some(CodeEncoding::Unicode2Byte);
    }
    match encoding {
        FontEncodingEntry::Dictionary(Some(o)) => {
            let text = utf8_lossy(o.as_slice());
            let ol = to_lowercase(text.as_str());
            let os = ol.as_str();
            if contains(os, "gb") || contains(os, "cns") || contains(os, "japan") || contains(os, "korea") {
                return None;
            }
        },
        _ => {},
    }
    Some(CodeEncoding::Unicode2Byte)
}


// ------------------------------------------------------------
// Reading a ToUnicode CMap
// ------------------------------------------------------------

/// Most entries read from one ToUnicode CMap.
pub const MAX_TOUNICODE_ENTRIES: u32 = 500000;

/// `beginbfchar`.
pub open spec fn begin_bfchar() -> Seq<u8> {
    seq![0x62u8, 0x65, 0x67, 0x69, 0x6E, 0x62, 0x66, 0x63, 0x68, 0x61, 0x72]
}

/// `endbfchar`.
pub open spec fn end_bfchar() -> Seq<u8> {
    seq![0x65u8, 0x6E, 0x64, 0x62, 0x66, 0x63, 0x68, 0x61, 0x72]
}

/// Whether `pat` occurs in `d` at `i`.
pub open spec fn bytes_at(d: Seq<u8>, pat: Seq<u8>, i: nat) -> bool {
    i + pat.len() <= d.len() && d.subrange(i as int, (i + pat.len()) as int) == pat
}

/// The `<code> <unicode>` pairs of a `bfchar` section from `i` on, read into
/// `m` (unicode normalised), until `endbfchar`, fewer than 11 bytes left,
/// or the entry limit: the position reached and the map.
pub open spec fn bfchar_pairs(d: Seq<u8>, i: nat, m: Map<u32, u32>) -> (nat, Map<u32, u32>)
    decreases d.len() - i,
{
    if !(i + 11 <= d.len() && !bytes_at(d, end_bfchar(), i)) || m.len() >= MAX_TOUNICODE_ENTRIES {
        (i, m)
    } else {
        let (cid, ni) = read_hex_spec(d, i);
        let (uni, ni2) = read_hex_spec(d, ni);
        if cid is Some && uni is Some && ni2 > i {
            bfchar_pairs(d, ni2, m.insert(cid->Some_0, normalized(uni->Some_0)))
        } else {
            bfchar_pairs(d, i + 1, m)
        }
    }
}

/// `beginbfrange`.
pub open spec fn begin_bfrange() -> Seq<u8> {
    seq![0x62u8, 0x65, 0x67, 0x69, 0x6E, 0x62, 0x66, 0x72, 0x61, 0x6E, 0x67, 0x65]
}

/// `endbfrange`.
pub open spec fn end_bfrange() -> Seq<u8> {
    seq![0x65u8, 0x6E, 0x64, 0x62, 0x66, 0x72, 0x61, 0x6E, 0x67, 0x65]
}

/// Whether no section (`beginbfchar` or `beginbfrange`) starts at `x`.
pub open spec fn no_section_at(d: Seq<u8>, x: nat) -> bool {
    !bytes_at(d, begin_bfchar(), x) && !bytes_at(d, begin_bfrange(), x)
}

/// Most codes that one range entry fills, past its first.
pub const MAX_RANGE_STEPS: u32 = 200000;

/// A `<start> <end> <unicode>` range entry read into `m`: code `c` and each
/// following code up to `ec` map to `u` plus the code's offset (unicode
/// normalised); the fill stops after code `u32::MAX` or `MAX_RANGE_STEPS`
/// steps.
pub open spec fn range_fill(m: Map<u32, u32>, c: u32, ec: u32, u: u32, steps: nat) -> Map<u32, u32>
    decreases 0x1_0000_0000 - c,
{
    if c > ec {
        m
    } else if c == 0xFFFF_FFFF || steps >= MAX_RANGE_STEPS {
        m.insert(c, normalized(u))
    } else {
        range_fill(m.insert(c, normalized(u)), (c + 1) as u32, ec, u.wrapping_add(1), steps + 1)
    }
}

/// A `<start> <end> [<u1> <u2> ...]` array entry read into `m` from `j` on:
/// code `c` and the codes after it map to the listed values in turn, until
/// `]`, the code `ec`, or `MAX_RANGE_STEPS` values: the position reached and
/// the map.
pub open spec fn array_fill(d: Seq<u8>, j: nat, c: u32, ec: u32, steps: nat, m: Map<u32, u32>) -> (nat, Map<u32, u32>)
    decreases d.len() - j,
{
    if !(j < d.len() && d[j as int] != 0x5D) || steps >= MAX_RANGE_STEPS {
        (j, m)
    } else {
        let (u, nj) = read_hex_spec(d, j);
        if u is Some {
            let m2 = m.insert(c, normalized(u->Some_0));
            if c == ec || nj <= j {
                (j, m2)
            } else {
                array_fill(d, nj, c.wrapping_add(1), ec, steps + 1, m2)
            }
        } else {
            array_fill(d, j + 1, c, ec, steps, m)
        }
    }
}

/// The entries of a `bfrange` section from `i` on, read into `m`, until
/// `endbfrange`, fewer than 11 bytes left, or the entry limit: the position
/// reached and the map. An entry is `<start> <end>` followed by either a
/// `<unicode>` (see `range_fill`) or, right after, a `[...]` array (see
/// `array_fill`).
pub open spec fn range_pairs(d: Seq<u8>, i: nat, m: Map<u32, u32>) -> (nat, Map<u32, u32>)
    decreases d.len() - i,
{
    if !(i + 11 <= d.len() && !bytes_at(d, end_bfrange(), i)) || m.len() >= MAX_TOUNICODE_ENTRIES {
        (i, m)
    } else {
        let (sc, ni) = read_hex_spec(d, i);
        let (ec, ni2) = read_hex_spec(d, ni);
        if sc is Some && ec is Some {
            let (su, ni3) = read_hex_spec(d, ni2);
            if su is Some {
                if ni3 > i {
                    range_pairs(d, ni3, range_fill(m, sc->Some_0, ec->Some_0, su->Some_0, 0))
                } else {
                    (i, m)
                }
            } else if ni2 < d.len() && d[ni2 as int] == 0x5B {
                let (j, m2) = array_fill(d, ni2 + 1, sc->Some_0, ec->Some_0, 0, m);
                if i < j + 1 && j < d.len() {
                    range_pairs(d, j + 1, m2)
                } else {
                    (j, m2)
                }
            } else {
                range_pairs(d, i + 1, m)
            }
        } else {
            range_pairs(d, i + 1, m)
        }
    }
}

/// The CID -> Unicode map read from a ToUnicode CMap from `i` on: the pairs
/// of every `beginbfchar` section and the entries of every `beginbfrange`
/// section.
pub open spec fn tounicode_from(d: Seq<u8>, i: nat, m: Map<u32, u32>) -> Map<u32, u32>
    decreases d.len() - i,
{
    if i + 11 > d.len() || m.len() >= MAX_TOUNICODE_ENTRIES {
        m
    } else if bytes_at(d, begin_bfchar(), i) {
        let (j, m2) = bfchar_pairs(d, i + 11, m);
        if i < j <= d.len() {
            tounicode_from(d, j, m2)
        } else {
            m2
        }
    } else if bytes_at(d, begin_bfrange(), i) {
        let (j, m2) = range_pairs(d, i + 12, m);
        if i < j <= d.len() {
            tounicode_from(d, j, m2)
        } else {
            m2
        }
    } else {
        tounicode_from(d, i + 1, m)
    }
}

proof fn lemma_bfchar_pairs_ge(d: Seq<u8>, i: nat, m: Map<u32, u32>)
    ensures
        bfchar_pairs(d, i, m).0 >= i,
    decreases d.len() - i,
{
    if !(!(i + 11 <= d.len() && !bytes_at(d, end_bfchar(), i)) || m.len() >= MAX_TOUNICODE_ENTRIES) {
        let (cid, ni) = read_hex_spec(d, i);
        let (uni, ni2) = read_hex_spec(d, ni);
        if cid is Some && uni is Some && ni2 > i {
            lemma_bfchar_pairs_ge(d, ni2, m.insert(cid->Some_0, normalized(uni->Some_0)));
        } else {
            lemma_bfchar_pairs_ge(d, i + 1, m);
        }
    }
}

fn bytes_at_exec(d: &[u8], pat: &[u8], i: usize) -> (r: bool)
    ensures
        r == bytes_at(d@, pat@, i as nat),
{
    let n: usize = d.len();
    if pat.len() > n || i > n - pat.len() {
        return false;
    }
    let mut k: usize = 0;
    while k < pat.len()
        invariant
            n == d@.len(),
            k <= pat@.len(),
            i + pat@.len() <= d@.len(),
            forall|j: int| 0 <= j < k ==> d@[i + j] == pat@[j],
        decreases pat@.len() - k,
    {
        if d[i + k] != pat[k] {
            assert(d@.subrange(i as int, i + pat@.len())[k as int] != pat@[k as int]);
            return false;
        }
        k = k + 1;
    }
    assert(d@.subrange(i as int, i + pat@.len()) =~= pat@);
    true
}

proof fn lemma_read_hex_after(d: Seq<u8>, start: nat)
    ensures
        read_hex_spec(d, start).0 is Some ==> read_hex_spec(d, start).1 > start,
{
    let open = find_from(d, start, 0x3C);
    if open < d.len() {
        lemma_find_from_ge_local(d, start, 0x3C);
        lemma_find_from_ge_local(d, open + 1, 0x3E);
    }
}

proof fn lemma_find_from_ge_local(data: Seq<u8>, from: nat, b: u8)
    ensures
        find_from(data, from, b) >= from,
    decreases data.len() - from,
{
    if from < data.len() && data[from as int] != b {
        lemma_find_from_ge_local(data, from + 1, b);
    }
}

proof fn lemma_read_hex_le(d: Seq<u8>, start: nat)
    ensures
        read_hex_spec(d, start).1 <= d.len(),
{
    let open = find_from(d, start, 0x3C);
    if open < d.len() {
        let close = find_from(d, open + 1, 0x3E);
        if close < d.len() {
            assert(close + 1 <= d.len());
        }
    }
}

/// Fill the codes of a `<start> <end> <unicode>` range entry into `map`.
fn fill_range(map: &mut HashMap<u32, u32>, sc: u32, ec: u32, su: u32)
    ensures
        final(map)@ == range_fill(old(map)@, sc, ec, su, 0),
        final(map)@.len() <= old(map)@.len() + MAX_RANGE_STEPS + 1,
{
    let ghost start = map@;
    let mut c: u32 = sc;
    let mut u: u32 = su;
    let mut steps: u32 = 0;
    while c <= ec
        invariant_except_break
            range_fill(start, sc, ec, su, 0) == range_fill(map@, c, ec, u, steps as nat),
            map@.len() <= start.len() + steps,
            steps <= MAX_RANGE_STEPS,
            start == old(map)@,
        ensures
            map@ == range_fill(start, sc, ec, su, 0),
            map@.len() <= start.len() + MAX_RANGE_STEPS + 1,
        decreases 0x1_0000_0000 - c,
    {
        proof {
            vstd::std_specs::hash::axiom_hashmap_view_finite_dom(*map);
        }
        map.insert(c, normalize_unicode(u));
        if c == 0xFFFF_FFFF || steps >= MAX_RANGE_STEPS {
            break;
        }
        c = c + 1;
        u = u.wrapping_add(1);
        steps = steps + 1;
    }
}

/// Fill the codes of a `<start> <end> [...]` array entry into `map`, reading
/// the array from `start`; the position reached.
fn fill_array(map: &mut HashMap<u32, u32>, d: &[u8], start: usize, sc: u32, ec: u32) -> (j: usize)
    requires
        start <= d@.len(),
    ensures
        array_fill(d@, start as nat, sc, ec, 0, old(map)@) == (j as nat, final(map)@),
        start <= j <= d@.len(),
        final(map)@.len() <= old(map)@.len() + MAX_RANGE_STEPS + 1,
{
    let ghost m0 = map@;
    let n: usize = d.len();
    let mut j: usize = start;
    let mut c: u32 = sc;
    let mut steps: u32 = 0;
    while j < n && d[j] != 0x5D
        invariant_except_break
            array_fill(d@, start as nat, sc, ec, 0, m0) == array_fill(d@, j as nat, c, ec, steps as nat, map@),
            map@.len() <= m0.len() + steps,
            steps <= MAX_RANGE_STEPS,
        invariant
            n == d@.len(),
            start <= j <= n,
            m0 == old(map)@,
        ensures
            array_fill(d@, start as nat, sc, ec, 0, m0) == (j as nat, map@),
            start <= j <= n,
            map@.len() <= m0.len() + MAX_RANGE_STEPS + 1,
        decreases n - j,
    {
        if steps >= MAX_RANGE_STEPS {
            break;
        }
        let (u, nj) = read_hex(d, j);
        proof {
            lemma_read_hex_after(d@, j as nat);
            lemma_read_hex_le(d@, j as nat);
            vstd::std_specs::hash::axiom_hashmap_view_finite_dom(*map);
        }
        match u {
            Some(v) => {
                map.insert(c, normalize_unicode(v));
                if c == ec {
                    break;
                }
                c = c.wrapping_add(1);
                j = nj;
                steps = steps + 1;
                continue;
            },
            None => {},
        }
        j = j + 1;
    }
    j
}

/// The CID -> Unicode map of a ToUnicode CMap (see `tounicode_from`).
pub fn parse_tounicode_cid_to_unicode(cm: &[u8]) -> (r: HashMap<u32, u32>)
    ensures
        r@ == tounicode_from(cm@, 0, Map::empty()),
{
    let mut map: HashMap<u32, u32> = HashMap::new();
    let begin: Vec<u8> = vec![0x62u8, 0x65, 0x67, 0x69, 0x6E, 0x62, 0x66, 0x63, 0x68, 0x61, 0x72];
    let end: Vec<u8> = vec![0x65u8, 0x6E, 0x64, 0x62, 0x66, 0x63, 0x68, 0x61, 0x72];
    let rbegin: Vec<u8> = vec![0x62u8, 0x65, 0x67, 0x69, 0x6E, 0x62, 0x66, 0x72, 0x61, 0x6E, 0x67, 0x65];
    let rend: Vec<u8> = vec![0x65u8, 0x6E, 0x64, 0x62, 0x66, 0x72, 0x61, 0x6E, 0x67, 0x65];
    assert(begin@ =~= begin_bfchar());
    assert(end@ =~= end_bfchar());
    assert(rbegin@ =~= begin_bfrange());
    assert(rend@ =~= end_bfrange());
    let n: usize = cm.len();
    let mut i: usize = 0;
    assert(map@ =~= Map::<u32, u32>::empty());
    while i <= n && 11 <= n - i
        invariant
            i <= n + 1,
            n == cm@.len(),
            begin@ == begin_bfchar(),
            end@ == end_bfchar(),
            rbegin@ == begin_bfrange(),
            rend@ == end_bfrange(),
            tounicode_from(cm@, 0, Map::empty()) == tounicode_from(cm@, i as nat, map@),
            map@.len() <= MAX_TOUNICODE_ENTRIES + MAX_RANGE_STEPS + 1,
        ensures
            map@ == tounicode_from(cm@, 0, Map::empty()),
        decreases n + 1 - i,
    {
        if map.len() as u32 >= MAX_TOUNICODE_ENTRIES {
            break;
        }
        if bytes_at_exec(cm, begin.as_slice(), i) {
            let ghost outer = i;
            i = i + 11;
            let ghost i0 = i;
            let ghost m0 = map@;
            while i <= n && 11 <= n - i && !bytes_at_exec(cm, end.as_slice(), i)
                invariant
                    outer + 11 == i0,
                    i0 <= i <= n,
                    n == cm@.len(),
                    end@ == end_bfchar(),
                    bfchar_pairs(cm@, i0 as nat, m0) == bfchar_pairs(cm@, i as nat, map@),
                    map@.len() <= MAX_TOUNICODE_ENTRIES,
                    tounicode_from(cm@, 0, Map::empty()) == tounicode_from(cm@, outer as nat, m0),
                    bytes_at(cm@, begin_bfchar(), outer as nat),
                    m0.len() < MAX_TOUNICODE_ENTRIES,
                ensures
                    i0 <= i <= n,
                    bfchar_pairs(cm@, i0 as nat, m0) == (i as nat, map@),
                    map@.len() <= MAX_TOUNICODE_ENTRIES,
                    tounicode_from(cm@, 0, Map::empty()) == tounicode_from(cm@, outer as nat, m0),
                    bytes_at(cm@, begin_bfchar(), outer as nat),
                    m0.len() < MAX_TOUNICODE_ENTRIES,
                decreases n - i,
            {
                if map.len() as u32 >= MAX_TOUNICODE_ENTRIES {
                    break;
                }
                let (cid, ni) = read_hex(cm, i);
                proof {
                    lemma_read_hex_after(cm@, i as nat);
                }
                match cid {
                    Some(c) => {
                        let (uni, ni2) = read_hex(cm, ni);
                        proof {
                            lemma_read_hex_after(cm@, ni as nat);
                        }
                        match uni {
                            Some(u) => {
                                map.insert(c, normalize_unicode(u));
                                i = ni2;
                                continue;
                            },
                            None => {},
                        }
                    },
                    None => {},
                }
                i = i + 1;
            }
        } else if bytes_at_exec(cm, rbegin.as_slice(), i) {
            let ghost outer = i;
            i = i + 12;
            let ghost i0 = i;
            let ghost m0 = map@;
            while i <= n && 11 <= n - i && !bytes_at_exec(cm, rend.as_slice(), i)
                invariant
                    outer + 12 == i0,
                    i0 <= i <= n + 1,
                    n == cm@.len(),
                    rend@ == end_bfrange(),
                    range_pairs(cm@, i0 as nat, m0) == range_pairs(cm@, i as nat, map@),
                    map@.len() <= MAX_TOUNICODE_ENTRIES + MAX_RANGE_STEPS + 1,
                    tounicode_from(cm@, 0, Map::empty()) == tounicode_from(cm@, outer as nat, m0),
                    bytes_at(cm@, begin_bfrange(), outer as nat),
                    !bytes_at(cm@, begin_bfchar(), outer as nat),
                    m0.len() < MAX_TOUNICODE_ENTRIES,
                ensures
                    i0 <= i <= n + 1,
                    range_pairs(cm@, i0 as nat, m0) == (i as nat, map@),
                    map@.len() <= MAX_TOUNICODE_ENTRIES + MAX_RANGE_STEPS + 1,
                    tounicode_from(cm@, 0, Map::empty()) == tounicode_from(cm@, outer as nat, m0),
                    bytes_at(cm@, begin_bfrange(), outer as nat),
                    !bytes_at(cm@, begin_bfchar(), outer as nat),
                    m0.len() < MAX_TOUNICODE_ENTRIES,
                decreases n + 1 - i,
            {
                if map.len() as u32 >= MAX_TOUNICODE_ENTRIES {
                    break;
                }
                let (sc, ni) = read_hex(cm, i);
                proof {
                    lemma_read_hex_after(cm@, i as nat);
                }
                match sc {
                    Some(s) => {
                        let (ec, ni2) = read_hex(cm, ni);
                        proof {
                            lemma_read_hex_after(cm@, ni as nat);
                            lemma_read_hex_le(cm@, ni as nat);
                        }
                        match ec {
                            Some(e) => {
                                let (su, ni3) = read_hex(cm, ni2);
                                proof {
                                    lemma_read_hex_after(cm@, ni2 as nat);
                                    lemma_read_hex_le(cm@, ni2 as nat);
                                }
                                match su {
                                    Some(u) => {
                                        fill_range(&mut map, s, e, u);
                                        i = ni3;
                                        continue;
                                    },
                                    None => {
                                        if ni2 < n && cm[ni2] == 0x5B {
                                            let j = fill_array(&mut map, cm, ni2 + 1, s, e);
                                            if j < n {
                                                i = j + 1;
                                                continue;
                                            }
                                            i = j;
                                            break;
                                        }
                                    },
                                }
                            },
                            None => {},
                        }
                    },
                    None => {},
                }
                i = i + 1;
            }
        } else {
            i = i + 1;
        }
    }
    map
}

} // verus!
