//! Reading back a written ToUnicode CMap: the bytes that
//! `tounicode_cmap_bytes` writes, laid out as pairs between gaps, and what
//! `parse_tounicode_cid_to_unicode` reads from them.

use vstd::prelude::*;
use vstd::utf8::{encode_utf8, is_ascii_chars};
use crate::font_embed::{
    all_hex, begin_bfchar, begin_bfrange, bfchar_pairs, no_section_at, bytes_at, digits_part, end_bfchar, find_from, hex_digit_value,
    hex_digits_value, hex_number, is_hex_digit, normalized, parse_hex_u32, read_hex_spec, tounicode_from,
    MAX_TOUNICODE_ENTRIES,
};
use crate::font_embed::tounicode::{
    best_unicode_for, cid_listing, cids_increasing, has_cid, lemma_listing_entries,
    bfchar_block, bfchar_blocks, bfchar_line, bfchar_lines, cmap_footer, cmap_header, hex_upper_digit, hex_upper_w,
    tounicode_text,
};
use crate::text::dec_chars;

verus! {

/// The bytes of an ASCII text.
pub open spec fn asc(s: Seq<char>) -> Seq<u8> {
    s.map_values(|c: char| c as u8)
}

proof fn lemma_asc_add(a: Seq<char>, b: Seq<char>)
    ensures
        asc(a + b) == asc(a) + asc(b),
{
    assert(asc(a + b) =~= asc(a) + asc(b));
}

/// Digits of `hex_upper_w`: ASCII hex digits whose value is the number.
proof fn lemma_hex_digits(n: nat, w: nat)
    ensures
        is_ascii_chars(hex_upper_w(n, w)),
        hex_upper_w(n, w).len() >= 1,
        all_hex(asc(hex_upper_w(n, w))),
        hex_number(asc(hex_upper_w(n, w))) == n,
    decreases n + w,
{
    let h = hex_upper_w(n, w);
    if n < 16 && w <= 1 {
        assert(asc(h) =~= seq![hex_upper_digit(n) as u8]);
        assert(asc(h).drop_last() =~= Seq::<u8>::empty());
        assert(hex_digit_value(hex_upper_digit(n) as u8) == n);
        assert(asc(h).last() == hex_upper_digit(n) as u8);
        assert(hex_number(asc(h).drop_last()) == 0);
        assert(hex_number(asc(h)) == hex_number(asc(h).drop_last()) * 16 + hex_digit_value(asc(h).last()));
    } else {
        let w2: nat = if w > 0 { (w - 1) as nat } else { 0 };
        lemma_hex_digits(n / 16, w2);
        let s = hex_upper_w(n / 16, w2);
        let c = hex_upper_digit(n % 16);
        assert(h == s.push(c));
        assert(asc(h) =~= asc(s).push(c as u8));
        assert(asc(h).drop_last() =~= asc(s));
        assert(hex_number(asc(h)) == hex_number(asc(s)) * 16 + hex_digit_value(c as u8));
        assert(hex_digit_value(c as u8) == n % 16);
        assert((n / 16) * 16 + n % 16 == n);
    }
}


/// Decimal digits are ASCII digits.
proof fn lemma_dec_digits(n: nat)
    ensures
        is_ascii_chars(dec_chars(n)),
        forall|i: int| 0 <= i < dec_chars(n).len() ==> 0x30 <= #[trigger] asc(dec_chars(n))[i] <= 0x39,
    decreases n,
{
    if n >= 10 {
        lemma_dec_digits(n / 10);
        let p = dec_chars(n / 10);
        assert(dec_chars(n) =~= p + seq![(48 + n % 10) as char]);
        assert forall|i: int| 0 <= i < dec_chars(n).len() implies 0x30 <= #[trigger] asc(dec_chars(n))[i] <= 0x39 by {
            if i < p.len() {
                assert(asc(dec_chars(n))[i] == asc(p)[i]);
            }
        }
    } else {
        assert(dec_chars(n) =~= seq![(48 + n) as char]);
    }
}

/// A pair as written in a `bfchar` line, without the line end.
pub open spec fn pair_bytes(p: (u32, u32)) -> Seq<u8> {
    seq![0x3Cu8] + asc(hex_upper_w(p.0 as nat, 4)) + seq![0x3Eu8, 0x20, 0x3C] + asc(hex_upper_w(p.1 as nat, 4))
        + seq![0x3Eu8]
}

/// Each pair after a line feed.
pub open spec fn gap_lines(ch: Seq<(u32, u32)>) -> Seq<u8>
    decreases ch.len(),
{
    if ch.len() == 0 {
        Seq::empty()
    } else {
        seq![0x0Au8] + pair_bytes(ch[0]) + gap_lines(ch.drop_first())
    }
}

proof fn lemma_line_bytes(p: (u32, u32))
    ensures
        asc(bfchar_line(p)) == pair_bytes(p) + seq![0x0Au8],
        is_ascii_chars(bfchar_line(p)),
{
    reveal_strlit("<");
    reveal_strlit("> <");
    reveal_strlit(">\n");
    lemma_hex_digits(p.0 as nat, 4);
    lemma_hex_digits(p.1 as nat, 4);
    let a = hex_upper_w(p.0 as nat, 4);
    let b = hex_upper_w(p.1 as nat, 4);
    assert(bfchar_line(p) == "<"@ + a + "> <"@ + b + ">\n"@);
    assert(asc(bfchar_line(p)) =~= pair_bytes(p) + seq![0x0Au8]);
    assert forall|i: int| 0 <= i < bfchar_line(p).len() implies '\0' <= #[trigger] bfchar_line(p)[i] <= '\u{7f}' by {
        let l = bfchar_line(p);
        if i < 1 {
        } else if i < 1 + a.len() {
            assert(l[i] == a[i - 1]);
        } else if i < 4 + a.len() {
        } else if i < 4 + a.len() + b.len() {
            assert(l[i] == b[i - 4 - a.len()]);
        }
    }
}

proof fn lemma_gap_lines_push(s: Seq<(u32, u32)>, x: (u32, u32))
    ensures
        gap_lines(s.push(x)) == gap_lines(s) + seq![0x0Au8] + pair_bytes(x),
    decreases s.len(),
{
    if s.len() == 0 {
        assert(s.push(x).drop_first() =~= Seq::<(u32, u32)>::empty());
        assert(gap_lines(Seq::<(u32, u32)>::empty()) == Seq::<u8>::empty());
        assert(gap_lines(s.push(x)) == seq![0x0Au8] + pair_bytes(x) + gap_lines(s.push(x).drop_first()));
        assert(gap_lines(s.push(x)) =~= seq![0x0Au8] + pair_bytes(x));
    } else {
        lemma_gap_lines_push(s.drop_first(), x);
        assert(s.push(x).drop_first() =~= s.drop_first().push(x));
        assert(gap_lines(s.push(x)) =~= gap_lines(s) + seq![0x0Au8] + pair_bytes(x));
    }
}

proof fn lemma_lines_bytes(ch: Seq<(u32, u32)>)
    ensures
        seq![0x0Au8] + asc(bfchar_lines(ch)) == gap_lines(ch) + seq![0x0Au8],
        is_ascii_chars(bfchar_lines(ch)),
    decreases ch.len(),
{
    if ch.len() == 0 {
        assert(asc(bfchar_lines(ch)) =~= Seq::<u8>::empty());
        assert(seq![0x0Au8] + asc(bfchar_lines(ch)) =~= gap_lines(ch) + seq![0x0Au8]);
    } else {
        let s = ch.drop_last();
        lemma_lines_bytes(s);
        lemma_line_bytes(ch.last());
        lemma_asc_add(bfchar_lines(s), bfchar_line(ch.last()));
        lemma_gap_lines_push(s, ch.last());
        assert(s.push(ch.last()) =~= ch);
        assert(seq![0x0Au8] + asc(bfchar_lines(ch)) =~= gap_lines(ch) + seq![0x0Au8]);
        vstd::utf8::is_ascii_chars_concat(bfchar_lines(ch), bfchar_lines(s), bfchar_line(ch.last()));
    }
}

/// A block as bytes: count, ` beginbfchar`, the pairs, `\nendbfchar\n`.
pub open spec fn block_bytes(ch: Seq<(u32, u32)>) -> Seq<u8> {
    asc(dec_chars(ch.len())) + seq![0x20u8] + begin_bfchar() + gap_lines(ch) + seq![0x0Au8] + end_bfchar() + seq![
        0x0Au8,
    ]
}

proof fn lemma_block_bytes(ch: Seq<(u32, u32)>)
    ensures
        asc(bfchar_block(ch)) == block_bytes(ch),
        is_ascii_chars(bfchar_block(ch)),
{
    reveal_strlit(" beginbfchar\n");
    reveal_strlit("endbfchar\n");
    lemma_lines_bytes(ch);
    lemma_dec_digits(ch.len());
    let d = dec_chars(ch.len());
    let l = bfchar_lines(ch);
    assert(asc(" beginbfchar\n"@) =~= seq![0x20u8] + begin_bfchar() + seq![0x0Au8]);
    assert(asc("endbfchar\n"@) =~= end_bfchar() + seq![0x0Au8]);
    lemma_asc_add(d, " beginbfchar\n"@);
    lemma_asc_add(d + " beginbfchar\n"@, l);
    lemma_asc_add(d + " beginbfchar\n"@ + l, "endbfchar\n"@);
    let a = asc(d);
    let b = seq![0x20u8] + begin_bfchar();
    let e = end_bfchar() + seq![0x0Au8];
    assert(asc(bfchar_block(ch)) == a + (b + seq![0x0Au8]) + asc(l) + e);
    assert(a + (b + seq![0x0Au8]) + asc(l) + e =~= a + b + (seq![0x0Au8] + asc(l)) + e);
    assert(a + b + (gap_lines(ch) + seq![0x0Au8]) + e =~= block_bytes(ch));
    assert(is_ascii_chars(" beginbfchar\n"@));
    assert(is_ascii_chars("endbfchar\n"@));
    vstd::utf8::is_ascii_chars_concat(d + " beginbfchar\n"@, d, " beginbfchar\n"@);
    vstd::utf8::is_ascii_chars_concat(d + " beginbfchar\n"@ + l, d + " beginbfchar\n"@, l);
    vstd::utf8::is_ascii_chars_concat(bfchar_block(ch), d + " beginbfchar\n"@ + l, "endbfchar\n"@);
}


/// Pairs, each after its gap.
pub open spec fn items_bytes(items: Seq<(Seq<u8>, (u32, u32))>) -> Seq<u8>
    decreases items.len(),
{
    if items.len() == 0 {
        Seq::empty()
    } else {
        items[0].0 + pair_bytes(items[0].1) + items_bytes(items.drop_first())
    }
}

proof fn lemma_items_bytes_add(a: Seq<(Seq<u8>, (u32, u32))>, b: Seq<(Seq<u8>, (u32, u32))>)
    ensures
        items_bytes(a + b) == items_bytes(a) + items_bytes(b),
    decreases a.len(),
{
    if a.len() == 0 {
        assert(a + b =~= b);
        assert(items_bytes(a) == Seq::<u8>::empty());
        assert(items_bytes(a + b) =~= items_bytes(a) + items_bytes(b));
    } else {
        lemma_items_bytes_add(a.drop_first(), b);
        assert((a + b).drop_first() =~= a.drop_first() + b);
        assert((a + b)[0] == a[0]);
        assert(items_bytes(a + b) =~= items_bytes(a) + items_bytes(b));
    }
}

/// The pairs of one block, the first after `g0`, the others after a line feed.
pub open spec fn chunk_items(ch: Seq<(u32, u32)>, g0: Seq<u8>) -> Seq<(Seq<u8>, (u32, u32))> {
    Seq::new(ch.len(), |i: int| (if i == 0 { g0 } else { seq![0x0Au8] }, ch[i]))
}

proof fn lemma_plain_items(ch: Seq<(u32, u32)>)
    ensures
        items_bytes(chunk_items(ch, seq![0x0Au8])) == gap_lines(ch),
    decreases ch.len(),
{
    let it = chunk_items(ch, seq![0x0Au8]);
    if ch.len() == 0 {
        assert(items_bytes(it) == Seq::<u8>::empty());
    } else {
        lemma_plain_items(ch.drop_first());
        assert(it.drop_first() =~= chunk_items(ch.drop_first(), seq![0x0Au8]));
        assert(it[0] == (seq![0x0Au8], ch[0]));
    }
}

proof fn lemma_chunk_items_bytes(ch: Seq<(u32, u32)>, g0: Seq<u8>)
    requires
        ch.len() > 0,
    ensures
        items_bytes(chunk_items(ch, g0)) == g0 + pair_bytes(ch[0]) + gap_lines(ch.drop_first()),
{
    let it = chunk_items(ch, g0);
    lemma_plain_items(ch.drop_first());
    assert(it.drop_first() =~= chunk_items(ch.drop_first(), seq![0x0Au8]));
    assert(it[0] == (g0, ch[0]));
}

/// Line feed, `endbfchar`, line feed: what closes a block.
pub open spec fn block_end() -> Seq<u8> {
    seq![0x0Au8] + end_bfchar() + seq![0x0Au8]
}

/// Number of pairs in the next block.
pub open spec fn chunk_len(n: nat) -> nat {
    if n > 100 {
        100
    } else {
        n
    }
}

/// What lies before the first pair of a block that follows another.
pub open spec fn block_gap(k: nat) -> Seq<u8> {
    block_end() + asc(dec_chars(k)) + seq![0x20u8] + begin_bfchar() + seq![0x0Au8]
}

/// All pairs of the blocks with their gaps.
pub open spec fn blocks_items(s: Seq<(u32, u32)>, first: bool) -> Seq<(Seq<u8>, (u32, u32))>
    decreases s.len(),
{
    if s.len() == 0 {
        Seq::empty()
    } else {
        let k = chunk_len(s.len());
        let g0 = if first {
            seq![0x0Au8]
        } else {
            block_gap(k)
        };
        chunk_items(s.take(k as int), g0) + blocks_items(s.skip(k as int), false)
    }
}

#[verifier::spinoff_prover]
proof fn lemma_blocks_items(s: Seq<(u32, u32)>)
    requires
        s.len() > 0,
    ensures
        asc(bfchar_blocks(s)) == asc(dec_chars(chunk_len(s.len()))) + seq![0x20u8] + begin_bfchar() + items_bytes(
            blocks_items(s, true),
        ) + block_end(),
        block_end() + asc(bfchar_blocks(s)) == items_bytes(blocks_items(s, false)) + block_end(),
        is_ascii_chars(bfchar_blocks(s)),
    decreases s.len(),
{
    let k = chunk_len(s.len());
    let ch = s.take(k as int);
    let rest = s.skip(k as int);
    lemma_block_bytes(ch);
    lemma_chunk_items_bytes(ch, seq![0x0Au8]);
    lemma_chunk_items_bytes(ch, block_gap(k));
    assert(gap_lines(ch) == seq![0x0Au8] + pair_bytes(ch[0]) + gap_lines(ch.drop_first()));
    let a = asc(dec_chars(k)) + seq![0x20u8] + begin_bfchar();
    assert(ch.len() == k);
    assert(block_bytes(ch) =~= a + gap_lines(ch) + block_end());
    assert(items_bytes(chunk_items(ch, seq![0x0Au8])) == gap_lines(ch));
    assert(block_end() + block_bytes(ch) =~= items_bytes(chunk_items(ch, block_gap(k))) + block_end());
    if rest.len() == 0 {
        assert(ch =~= s);
        assert(bfchar_blocks(s) == bfchar_block(s));
        assert(blocks_items(rest, false) == Seq::<(Seq<u8>, (u32, u32))>::empty());
        assert(blocks_items(s, true) =~= chunk_items(ch, seq![0x0Au8]));
        assert(blocks_items(s, false) =~= chunk_items(ch, block_gap(k)));
    } else {
        lemma_blocks_items(rest);
        assert(s.len() > 100);
        assert(bfchar_blocks(s) == bfchar_block(ch) + bfchar_blocks(rest));
        lemma_asc_add(bfchar_block(ch), bfchar_blocks(rest));
        lemma_items_bytes_add(chunk_items(ch, seq![0x0Au8]), blocks_items(rest, false));
        lemma_items_bytes_add(chunk_items(ch, block_gap(k)), blocks_items(rest, false));
        let r = asc(bfchar_blocks(rest));
        let ir = items_bytes(blocks_items(rest, false));
        assert(block_end() + r == ir + block_end());
        assert(asc(bfchar_blocks(s)) =~= a + gap_lines(ch) + (block_end() + r));
        assert(asc(bfchar_blocks(s)) =~= a + items_bytes(blocks_items(s, true)) + block_end());
        assert(block_end() + asc(bfchar_blocks(s)) =~= (block_end() + block_bytes(ch)) + r);
        assert(block_end() + asc(bfchar_blocks(s)) =~= items_bytes(blocks_items(s, false)) + block_end());
        vstd::utf8::is_ascii_chars_concat(bfchar_blocks(s), bfchar_block(ch), bfchar_blocks(rest));
    }
}


/// Whether some bytes hold no `<`.
pub open spec fn no_lt(b: Seq<u8>) -> bool {
    forall|j: int| 0 <= j < b.len() ==> b[j] != 0x3C
}

/// Whether every gap starts with a line feed and holds no `<`.
pub open spec fn gaps_ok(items: Seq<(Seq<u8>, (u32, u32))>) -> bool {
    forall|i: int|
        0 <= i < items.len() ==> (#[trigger] items[i]).0.len() > 0 && items[i].0[0] == 0x0A && no_lt(items[i].0)
}

/// The map after reading the pairs into `m`.
pub open spec fn read_map(items: Seq<(Seq<u8>, (u32, u32))>, m: Map<u32, u32>) -> Map<u32, u32>
    decreases items.len(),
{
    if items.len() == 0 {
        m
    } else {
        read_map(items.drop_first(), m.insert(items[0].1.0, normalized(items[0].1.1)))
    }
}

proof fn lemma_find_at(d: Seq<u8>, from: nat, to: nat, b: u8)
    requires
        from <= to <= d.len(),
        forall|x: int| from <= x < to ==> d[x] != b,
        to < d.len() ==> d[to as int] == b,
    ensures
        find_from(d, from, b) == to,
    decreases to - from,
{
    if from < to {
        lemma_find_at(d, from + 1, to, b);
    }
}

proof fn lemma_hex_parses(n: u32)
    ensures
        parse_hex_u32(asc(hex_upper_w(n as nat, 4))) == Some(n),
        asc(hex_upper_w(n as nat, 4)).len() >= 1,
        forall|j: int|
            0 <= j < asc(hex_upper_w(n as nat, 4)).len() ==> #[trigger] asc(hex_upper_w(n as nat, 4))[j] != 0x3C
                && asc(hex_upper_w(n as nat, 4))[j] != 0x3E,
{
    lemma_hex_digits(n as nat, 4);
    let h = asc(hex_upper_w(n as nat, 4));
    assert(is_hex_digit(h[0]));
    assert(digits_part(h) == h);
    assert forall|j: int| 0 <= j < h.len() implies #[trigger] h[j] != 0x3C && h[j] != 0x3E by {
        assert(is_hex_digit(h[j]));
    }
}

#[verifier::spinoff_prover]
proof fn lemma_read_items(d: Seq<u8>, p: nat, items: Seq<(Seq<u8>, (u32, u32))>, m: Map<u32, u32>)
    requires
        p + items_bytes(items).len() + 11 <= d.len(),
        d.subrange(p as int, (p + items_bytes(items).len()) as int) == items_bytes(items),
        d[(p + items_bytes(items).len()) as int] == 0x0A,
        bytes_at(d, end_bfchar(), (p + items_bytes(items).len() + 1) as nat),
        no_lt(d.skip((p + items_bytes(items).len()) as int)),
        gaps_ok(items),
        m.dom().finite(),
        m.len() + items.len() < MAX_TOUNICODE_ENTRIES,
    ensures
        bfchar_pairs(d, p, m) == ((p + items_bytes(items).len() + 1) as nat, read_map(items, m)),
    decreases items.len(),
{
    let x = items_bytes(items);
    let pi: int = p as int;
    let q: int = pi + x.len();
    assert(end_bfchar()[0] == 0x65);
    if items.len() == 0 {
        assert(x.len() == 0);
        assert(!bytes_at(d, end_bfchar(), p)) by {
            if bytes_at(d, end_bfchar(), p) {
                assert(d.subrange(pi, pi + 9)[0] == d[pi]);
            }
        }
        assert forall|y: int| pi <= y < d.len() implies d[y] != 0x3C by {
            assert(d.skip(pi)[y - pi] == d[y]);
        }
        lemma_find_at(d, p, d.len(), 0x3C);
        assert(read_hex_spec(d, p).0 is None);
        assert(bfchar_pairs(d, (p + 1) as nat, m) == ((p + 1) as nat, m));
        assert(bfchar_pairs(d, p, m) == bfchar_pairs(d, (p + 1) as nat, m));
    } else {
        let g = items[0].0;
        let pr = items[0].1;
        let rest = items.drop_first();
        let hc = asc(hex_upper_w(pr.0 as nat, 4));
        let hu = asc(hex_upper_w(pr.1 as nat, 4));
        lemma_hex_parses(pr.0);
        lemma_hex_parses(pr.1);
        assert(items[0].0.len() > 0 && items[0].0[0] == 0x0A && no_lt(items[0].0));
        let pb = pair_bytes(pr);
        assert(pb =~= seq![0x3Cu8] + hc + seq![0x3Eu8, 0x20, 0x3C] + hu + seq![0x3Eu8]);
        assert(x == g + pb + items_bytes(rest));
        let o1: int = pi + g.len();
        let c1: int = o1 + 1 + hc.len();
        let o2: int = c1 + 2;
        let c2: int = o2 + 1 + hu.len();
        let p2: int = c2 + 1;
        assert(p2 == pi + g.len() + pb.len());
        assert forall|j: int| 0 <= j < x.len() implies d[pi + j] == #[trigger] x[j] by {
            assert(d.subrange(pi, q)[j] == d[pi + j]);
        }
        assert(d[pi] == 0x0A) by {
            assert(x[0] == g[0]);
        }
        assert(!bytes_at(d, end_bfchar(), p)) by {
            if bytes_at(d, end_bfchar(), p) {
                assert(d.subrange(pi, pi + 9)[0] == d[pi]);
            }
        }
        // the CID
        assert forall|y: int| pi <= y < o1 implies d[y] != 0x3C by {
            assert(x[y - pi] == g[y - pi]);
        }
        assert(d[o1] == 0x3C) by {
            assert(x[g.len() as int] == pb[0]);
        }
        lemma_find_at(d, p, o1 as nat, 0x3C);
        assert forall|y: int| o1 + 1 <= y < c1 implies d[y] != 0x3E by {
            assert(x[y - pi] == pb[y - o1]);
            assert(pb[y - o1] == hc[y - o1 - 1]);
        }
        assert(d[c1] == 0x3E) by {
            assert(x[c1 - pi] == pb[1 + hc.len() as int]);
        }
        lemma_find_at(d, (o1 + 1) as nat, c1 as nat, 0x3E);
        assert(d.subrange(o1 + 1, c1) =~= hc) by {
            assert forall|j: int| 0 <= j < hc.len() implies d.subrange(o1 + 1, c1)[j] == hc[j] by {
                assert(x[o1 + 1 + j - pi] == pb[1 + j]);
            }
        }
        assert(read_hex_spec(d, p) == (Some(pr.0), (c1 + 1) as nat));
        // the code point
        assert(d[c1 + 1] == 0x20) by {
            assert(x[c1 + 1 - pi] == pb[2 + hc.len() as int]);
        }
        assert(d[o2] == 0x3C) by {
            assert(x[o2 - pi] == pb[3 + hc.len() as int]);
        }
        lemma_find_at(d, (c1 + 1) as nat, o2 as nat, 0x3C);
        assert forall|y: int| o2 + 1 <= y < c2 implies d[y] != 0x3E by {
            assert(x[y - pi] == pb[y - o1]);
            assert(pb[y - o1] == hu[y - o2 - 1]);
        }
        assert(d[c2] == 0x3E) by {
            assert(x[c2 - pi] == pb[pb.len() - 1]);
        }
        lemma_find_at(d, (o2 + 1) as nat, c2 as nat, 0x3E);
        assert(d.subrange(o2 + 1, c2) =~= hu) by {
            assert forall|j: int| 0 <= j < hu.len() implies d.subrange(o2 + 1, c2)[j] == hu[j] by {
                assert(x[o2 + 1 + j - pi] == pb[4 + hc.len() + j]);
            }
        }
        assert(read_hex_spec(d, (c1 + 1) as nat) == (Some(pr.1), p2 as nat));
        let m2 = m.insert(pr.0, normalized(pr.1));
        assert(m2.len() <= m.len() + 1);
        assert(gaps_ok(rest)) by {
            assert forall|i: int| 0 <= i < rest.len() implies (#[trigger] rest[i]).0.len() > 0 && rest[i].0[0] == 0x0A
                && no_lt(rest[i].0) by {
                assert(rest[i] == items[i + 1]);
            }
        }
        let y = items_bytes(rest);
        assert(d.subrange(p2, p2 + y.len()) =~= y) by {
            assert forall|j: int| 0 <= j < y.len() implies d.subrange(p2, p2 + y.len())[j] == y[j] by {
                assert(x[p2 - pi + j] == y[j]);
            }
        }
        lemma_read_items(d, p2 as nat, rest, m2);
        assert(bfchar_pairs(d, p, m) == bfchar_pairs(d, p2 as nat, m2));
        assert(read_map(items, m) == read_map(rest, m2));
        assert(x.len() == g.len() + pb.len() + y.len());
    }
}


proof fn lemma_scan_skip(d: Seq<u8>, i: nat, j: nat, m: Map<u32, u32>)
    requires
        i <= j,
        j + 11 <= d.len(),
        m.dom().finite(),
        m.len() < MAX_TOUNICODE_ENTRIES,
        forall|x: nat| i <= x < j ==> no_section_at(d, x),
    ensures
        tounicode_from(d, i, m) == tounicode_from(d, j, m),
    decreases j - i,
{
    if i < j {
        assert(no_section_at(d, i));
        lemma_scan_skip(d, i + 1, j, m);
    }
}

proof fn lemma_scan_end(d: Seq<u8>, i: nat, m: Map<u32, u32>)
    requires
        forall|x: nat| i <= x ==> no_section_at(d, x),
    ensures
        tounicode_from(d, i, m) == m,
    decreases d.len() - i,
{
    if i + 11 <= d.len() && m.len() < MAX_TOUNICODE_ENTRIES {
        assert(no_section_at(d, i));
        lemma_scan_end(d, i + 1, m);
    }
}

/// The header's `b`s are never five apart, and none is among its last five
/// characters; it is ASCII.
proof fn lemma_header_facts()
    ensures
        cmap_header().len() > 5,
        is_ascii_chars(cmap_header()),
        forall|x: int| 0 <= x < cmap_header().len() - 5 ==> !(#[trigger] cmap_header()[x] == 'b' && cmap_header()[x + 5] == 'b'),
        forall|x: int| cmap_header().len() - 5 <= x < cmap_header().len() ==> #[trigger] cmap_header()[x] != 'b',
{
    reveal_strlit("/CIDInit /ProcSet findresource begin\n12 dict begin\nbegincmap\n/CIDSystemInfo << /Registry (Adobe) /Ordering (UCS) /Supplement 0 >> def\n/CMapName /Adobe-Identity-UCS def\n/CMapType 2 def\n1 begincodespacerange\n<0000> <FFFF>\nendcodespacerange\n");
}

/// The footer holds no `b` and no `<`; it is ASCII.
proof fn lemma_footer_facts()
    ensures
        cmap_footer().len() > 0,
        is_ascii_chars(cmap_footer()),
        forall|x: int| 0 <= x < cmap_footer().len() ==> #[trigger] cmap_footer()[x] != 'b' && cmap_footer()[x] != '<',
{
    reveal_strlit("endcmap\nCMapName currentdict /CMap defineresource pop\nend end\n");
}

proof fn lemma_items_len(s: Seq<(u32, u32)>, first: bool)
    ensures
        blocks_items(s, first).len() == s.len(),
        forall|i: int| 0 <= i < s.len() ==> #[trigger] blocks_items(s, first)[i].1 == s[i],
        gaps_ok(blocks_items(s, first)),
    decreases s.len(),
{
    if s.len() > 0 {
        let k = chunk_len(s.len());
        let ch = s.take(k as int);
        let rest = s.skip(k as int);
        lemma_items_len(rest, false);
        let g0 = if first { seq![0x0Au8] } else { block_gap(k) };
        let a = chunk_items(ch, g0);
        let b = blocks_items(rest, false);
        assert(blocks_items(s, first) == a + b);
        assert forall|i: int| 0 <= i < s.len() implies #[trigger] blocks_items(s, first)[i].1 == s[i] by {
            if i < k {
                assert((a + b)[i] == a[i]);
            } else {
                assert((a + b)[i] == b[i - k]);
                assert(rest[i - k] == s[i]);
            }
        }
        assert(no_lt(block_gap(k))) by {
            lemma_dec_digits(k);
            let g = block_gap(k);
            let dd = asc(dec_chars(k));
            assert(g =~= seq![0x0Au8] + end_bfchar() + seq![0x0Au8] + dd + seq![0x20u8] + begin_bfchar() + seq![0x0Au8]);
            assert forall|j: int| 0 <= j < g.len() implies g[j] != 0x3C by {
                if 11 <= j < 11 + dd.len() {
                    assert(g[j] == dd[j - 11]);
                }
            }
        }
        assert(block_gap(k)[0] == 0x0A);
        assert forall|i: int| 0 <= i < (a + b).len() implies (#[trigger] (a + b)[i]).0.len() > 0 && (a + b)[i].0[0] == 0x0A
            && no_lt((a + b)[i].0) by {
            if i < a.len() {
                assert((a + b)[i] == a[i]);
            } else {
                assert((a + b)[i] == b[i - a.len()]);
            }
        }
    }
}

/// Whether some item is for CID `c`.
pub open spec fn has_item_cid(items: Seq<(Seq<u8>, (u32, u32))>, c: u32) -> bool {
    exists|i: int| 0 <= i < items.len() && items[i].1.0 == c
}

proof fn lemma_read_map_dom(items: Seq<(Seq<u8>, (u32, u32))>, m: Map<u32, u32>, c: u32)
    ensures
        read_map(items, m).contains_key(c) <==> (m.contains_key(c) || has_item_cid(items, c)),
    decreases items.len(),
{
    if items.len() > 0 {
        let rest = items.drop_first();
        let m2 = m.insert(items[0].1.0, normalized(items[0].1.1));
        lemma_read_map_dom(rest, m2, c);
        if has_item_cid(rest, c) {
            let i = choose|i: int| 0 <= i < rest.len() && rest[i].1.0 == c;
            assert(items[i + 1] == rest[i]);
        }
        if has_item_cid(items, c) {
            let i = choose|i: int| 0 <= i < items.len() && items[i].1.0 == c;
            if i > 0 {
                assert(rest[i - 1] == items[i]);
            }
        }
    }
}

proof fn lemma_read_map_val(items: Seq<(Seq<u8>, (u32, u32))>, m: Map<u32, u32>, i: int)
    requires
        0 <= i < items.len(),
        forall|j: int| i < j < items.len() ==> (#[trigger] items[j]).1.0 != items[i].1.0,
    ensures
        read_map(items, m)[items[i].1.0] == normalized(items[i].1.1),
    decreases items.len(),
{
    let rest = items.drop_first();
    let m2 = m.insert(items[0].1.0, normalized(items[0].1.1));
    if i == 0 {
        assert forall|j: int| 0 <= j < rest.len() implies rest[j].1.0 != items[0].1.0 by {
            assert(rest[j] == items[j + 1]);
        }
        lemma_read_map_keeps(rest, m2, items[0].1.0);
    } else {
        assert(rest[i - 1] == items[i]);
        assert forall|j: int| i - 1 < j < rest.len() implies (#[trigger] rest[j]).1.0 != rest[i - 1].1.0 by {
            assert(rest[j] == items[j + 1]);
        }
        lemma_read_map_val(rest, m2, i - 1);
    }
}

proof fn lemma_read_map_keeps(items: Seq<(Seq<u8>, (u32, u32))>, m: Map<u32, u32>, c: u32)
    requires
        !(exists|i: int| 0 <= i < items.len() && items[i].1.0 == c),
    ensures
        read_map(items, m).contains_key(c) == m.contains_key(c),
        read_map(items, m)[c] == m[c],
    decreases items.len(),
{
    if items.len() > 0 {
        let rest = items.drop_first();
        assert(items[0].1.0 != c);
        assert forall|i: int| 0 <= i < rest.len() implies rest[i].1.0 != c by {
            assert(rest[i] == items[i + 1]);
        }
        lemma_read_map_keeps(rest, m.insert(items[0].1.0, normalized(items[0].1.1)), c);
    }
}


proof fn lemma_char_byte(c: char)
    requires
        '\0' <= c <= '\u{7f}',
    ensures
        (c as u8 == 0x62) == (c == 'b'),
        (c as u8 == 0x3C) == (c == '<'),
{
}

/// `begin_bfchar` does not start at `x` when `d[x]` is not `b`, or `d[(x + 5) as int]` is not `b`.
proof fn lemma_not_begin(d: Seq<u8>, x: nat)
    requires
        x + 11 <= d.len() ==> (d[x as int] != 0x62 || d[(x + 5) as int] != 0x62 || d[(x + 1) as int] != 0x65),
    ensures
        no_section_at(d, x),
{
    if bytes_at(d, begin_bfchar(), x) {
        let w = d.subrange(x as int, (x + 11) as int);
        assert(w[0] == d[x as int]);
        assert(w[1] == d[(x + 1) as int]);
        assert(w[5] == d[(x + 5) as int]);
    }
    if bytes_at(d, begin_bfrange(), x) {
        let w = d.subrange(x as int, (x + 12) as int);
        assert(w[0] == d[x as int]);
        assert(w[1] == d[(x + 1) as int]);
        assert(w[5] == d[(x + 5) as int]);
    }
}

proof fn lemma_text_bytes(sel: Seq<(u32, u32)>)
    ensures
        encode_utf8(tounicode_text(sel)) == asc(cmap_header()) + asc(bfchar_blocks(sel)) + asc(cmap_footer()),
{
    let h = cmap_header();
    let f = cmap_footer();
    let bl = bfchar_blocks(sel);
    let t = tounicode_text(sel);
    lemma_header_facts();
    lemma_footer_facts();
    if sel.len() > 0 {
        lemma_blocks_items(sel);
    } else {
        assert(bl == Seq::<char>::empty());
        assert(is_ascii_chars(bl));
    }
    vstd::utf8::is_ascii_chars_concat(h + bl, h, bl);
    vstd::utf8::is_ascii_chars_concat(t, h + bl, f);
    vstd::utf8::is_ascii_chars_encode_utf8(t);
    assert(encode_utf8(t) =~= asc(t));
    lemma_asc_add(h, bl);
    lemma_asc_add(h + bl, f);
}

proof fn lemma_header_no_begin(d: Seq<u8>)
    requires
        asc(cmap_header()).len() <= d.len(),
        forall|x: int| 0 <= x < asc(cmap_header()).len() ==> d[x] == #[trigger] asc(cmap_header())[x],
    ensures
        forall|x: nat| x < asc(cmap_header()).len() ==> no_section_at(d, x),
{
    let h = cmap_header();
    let ah = asc(h);
    lemma_header_facts();
    assert forall|x: nat| x < ah.len() implies no_section_at(d, x) by {
        assert(d[x as int] == ah[x as int]);
        lemma_char_byte(h[x as int]);
        if h[x as int] == 'b' {
            assert(x + 5 < ah.len());
            assert(d[(x + 5) as int] == ah[(x + 5) as int]);
            lemma_char_byte(h[(x + 5) as int]);
        }
        lemma_not_begin(d, x);
    }
}

proof fn lemma_footer_bytes()
    ensures
        forall|x: int| 0 <= x < asc(cmap_footer()).len() ==> #[trigger] asc(cmap_footer())[x] != 0x62 && asc(cmap_footer())[x] != 0x3C,
{
    let f = cmap_footer();
    lemma_footer_facts();
    assert forall|x: int| 0 <= x < asc(f).len() implies #[trigger] asc(f)[x] != 0x62 && asc(f)[x] != 0x3C by {
        lemma_char_byte(f[x]);
    }
}

proof fn lemma_readback_empty()
    ensures
        tounicode_from(encode_utf8(tounicode_text(Seq::empty())), 0, Map::empty()) == Map::<u32, u32>::empty(),
{
    let sel = Seq::<(u32, u32)>::empty();
    lemma_text_bytes(sel);
    let d = encode_utf8(tounicode_text(sel));
    let ah = asc(cmap_header());
    let af = asc(cmap_footer());
    assert(bfchar_blocks(sel) == Seq::<char>::empty());
    assert(asc(bfchar_blocks(sel)) =~= Seq::<u8>::empty());
    assert(d =~= ah + af);
    lemma_header_no_begin(d);
    lemma_footer_bytes();
    assert forall|x: nat| 0 <= x implies no_section_at(d, x) by {
        if x >= ah.len() {
            if x < d.len() {
                assert(d[x as int] == af[x - ah.len()]);
            }
            lemma_not_begin(d, x);
        }
    }
    lemma_scan_end(d, 0, Map::empty());
}

#[verifier::spinoff_prover]
proof fn lemma_layout_prefix(d: Seq<u8>, a0: Seq<u8>, rest: Seq<u8>)
    requires
        d == asc(cmap_header()) + a0 + begin_bfchar() + rest,
        forall|j: int| 0 <= j < a0.len() ==> a0[j] != 0x62,
        rest.len() >= 11,
    ensures
        tounicode_from(d, 0, Map::empty()) == tounicode_from(d, (asc(cmap_header()).len() + a0.len()) as nat, Map::empty()),
        bytes_at(d, begin_bfchar(), (asc(cmap_header()).len() + a0.len()) as nat),
{
    let ah = asc(cmap_header());
    let b1 = ah.len() + a0.len();
    lemma_header_no_begin(d);
    assert forall|x: nat| x < b1 implies no_section_at(d, x) by {
        if x >= ah.len() {
            assert(d[x as int] == a0[x - ah.len()]);
            lemma_not_begin(d, x);
        }
    }
    lemma_scan_skip(d, 0, b1, Map::empty());
    assert(d.subrange(b1 as int, (b1 + 11) as int) =~= begin_bfchar());
}

proof fn lemma_block_end_b(k: int)
    requires
        0 <= k < 11,
        block_end()[k] == 0x62,
    ensures
        k == 4,
        block_end()[5] == 0x66,
{
    let e = block_end();
    assert(e =~= seq![0x0Au8, 0x65, 0x6E, 0x64, 0x62, 0x66, 0x63, 0x68, 0x61, 0x72, 0x0A]);
    if k == 0 {
    } else if k == 1 {
    } else if k == 2 {
    } else if k == 3 {
    } else if k == 4 {
    } else if k == 5 {
    } else if k == 6 {
    } else if k == 7 {
    } else if k == 8 {
    } else if k == 9 {
    } else {
    }
}

#[verifier::spinoff_prover]
proof fn lemma_layout_tail(d: Seq<u8>, q: nat, af: Seq<u8>, m: Map<u32, u32>)
    requires
        d.skip(q as int) == block_end() + af,
        q <= d.len(),
        forall|j: int| 0 <= j < af.len() ==> af[j] != 0x62,
    ensures
        tounicode_from(d, q + 1, m) == m,
{
    let tail = block_end() + af;
    assert(block_end().len() == 11);
    assert(d.len() == q + tail.len());
    assert forall|x: nat| q + 1 <= x implies no_section_at(d, x) by {
        if x + 11 <= d.len() {
            let k: int = x - q;
            assert(d[x as int] == tail[k]);
            assert(d[(x + 1) as int] == tail[k + 1]);
            if k < 11 {
                assert(tail[k] == block_end()[k]);
                if tail[k] == 0x62 {
                    lemma_block_end_b(k);
                    assert(tail[k + 1] == block_end()[5]);
                }
            } else {
                assert(tail[k] == af[k - 11]);
            }
        }
        lemma_not_begin(d, x);
    }
    lemma_scan_end(d, q + 1, m);
}

proof fn lemma_layout_pairs(d: Seq<u8>, pre: Seq<u8>, ib: Seq<u8>, af: Seq<u8>)
    requires
        d == pre + ib + block_end() + af,
        forall|j: int| 0 <= j < af.len() ==> af[j] != 0x3C,
    ensures
        d.subrange(pre.len() as int, (pre.len() + ib.len()) as int) == ib,
        d.skip((pre.len() + ib.len()) as int) == block_end() + af,
        d[(pre.len() + ib.len()) as int] == 0x0A,
        bytes_at(d, end_bfchar(), (pre.len() + ib.len() + 1) as nat),
        no_lt(d.skip((pre.len() + ib.len()) as int)),
        pre.len() + ib.len() + 11 <= d.len(),
{
    let p = pre.len();
    let q = p + ib.len();
    let tail = block_end() + af;
    assert(block_end() =~= seq![0x0Au8, 0x65, 0x6E, 0x64, 0x62, 0x66, 0x63, 0x68, 0x61, 0x72, 0x0A]);
    assert(d.subrange(p as int, q as int) =~= ib);
    assert(d.skip(q as int) =~= tail);
    assert(d[q as int] == tail[0]);
    assert(d.subrange((q + 1) as int, (q + 10) as int) =~= end_bfchar());
    assert forall|j: int| 0 <= j < tail.len() implies tail[j] != 0x3C by {
        if j >= 11 {
            assert(tail[j] == af[j - 11]);
        }
    }
}

#[verifier::spinoff_prover]
proof fn lemma_layout_read(d: Seq<u8>, a0: Seq<u8>, items: Seq<(Seq<u8>, (u32, u32))>, af: Seq<u8>)
    requires
        d == asc(cmap_header()) + a0 + begin_bfchar() + items_bytes(items) + block_end() + af,
        forall|j: int| 0 <= j < a0.len() ==> a0[j] != 0x62,
        forall|j: int| 0 <= j < af.len() ==> af[j] != 0x62 && af[j] != 0x3C,
        gaps_ok(items),
        items.len() < MAX_TOUNICODE_ENTRIES,
    ensures
        tounicode_from(d, 0, Map::empty()) == read_map(items, Map::empty()),
{
    let ah = asc(cmap_header());
    let ib = items_bytes(items);
    let m0 = Map::<u32, u32>::empty();
    let pre = ah + a0 + begin_bfchar();
    let b1 = ah.len() + a0.len();
    let q = pre.len() + ib.len();
    assert(pre.len() == b1 + 11);
    assert(d =~= ah + a0 + begin_bfchar() + (ib + block_end() + af));
    lemma_layout_prefix(d, a0, ib + block_end() + af);
    assert(d =~= pre + ib + block_end() + af);
    lemma_layout_pairs(d, pre, ib, af);
    lemma_read_items(d, (b1 + 11) as nat, items, m0);
    let m2 = read_map(items, m0);
    lemma_layout_tail(d, q as nat, af, m2);
    assert(tounicode_from(d, b1 as nat, m0) == tounicode_from(d, (q + 1) as nat, m2));
}

#[verifier::spinoff_prover]
proof fn lemma_readback_blocks(sel: Seq<(u32, u32)>)
    requires
        sel.len() > 0,
        sel.len() < MAX_TOUNICODE_ENTRIES,
    ensures
        tounicode_from(encode_utf8(tounicode_text(sel)), 0, Map::empty()) == read_map(blocks_items(sel, true), Map::empty()),
{
    lemma_text_bytes(sel);
    lemma_blocks_items(sel);
    lemma_items_len(sel, true);
    lemma_footer_bytes();
    let d = encode_utf8(tounicode_text(sel));
    let ah = asc(cmap_header());
    let af = asc(cmap_footer());
    let k0 = chunk_len(sel.len());
    lemma_dec_digits(k0);
    let dd = asc(dec_chars(k0));
    let a0 = dd + seq![0x20u8];
    let items = blocks_items(sel, true);
    assert(d =~= ah + a0 + begin_bfchar() + items_bytes(items) + block_end() + af);
    assert forall|j: int| 0 <= j < a0.len() implies a0[j] != 0x62 by {
        if j < dd.len() {
            assert(a0[j] == dd[j]);
        }
    }
    lemma_layout_read(d, a0, items, af);
}

/// Reading back the ToUnicode CMap written for entries with increasing CIDs
/// gives each of their CIDs, and nothing else, its code point normalised.
#[verifier::spinoff_prover]
pub proof fn lemma_tounicode_readback(sel: Seq<(u32, u32)>)
    requires
        cids_increasing(sel),
        sel.len() < MAX_TOUNICODE_ENTRIES,
    ensures
        forall|c: u32|
            #[trigger] tounicode_from(encode_utf8(tounicode_text(sel)), 0, Map::empty()).contains_key(c) <==> has_cid(
                sel,
                c,
            ),
        forall|i: int|
            0 <= i < sel.len() ==> tounicode_from(encode_utf8(tounicode_text(sel)), 0, Map::empty())[#[trigger] sel[i].0]
                == normalized(sel[i].1),
{
    let r = tounicode_from(encode_utf8(tounicode_text(sel)), 0, Map::empty());
    if sel.len() == 0 {
        lemma_readback_empty();
        assert(sel =~= Seq::<(u32, u32)>::empty());
    } else {
        lemma_readback_blocks(sel);
        lemma_items_len(sel, true);
        let items = blocks_items(sel, true);
        let m0 = Map::<u32, u32>::empty();
        assert forall|c: u32| #[trigger] r.contains_key(c) <==> has_cid(sel, c) by {
            lemma_read_map_dom(items, m0, c);
            if has_item_cid(items, c) {
                let i = choose|i: int| 0 <= i < items.len() && items[i].1.0 == c;
                assert(items[i].1 == sel[i]);
            }
            if has_cid(sel, c) {
                let i = choose|i: int| 0 <= i < sel.len() && sel[i].0 == c;
                assert(items[i].1 == sel[i]);
            }
        }
        assert forall|i: int| 0 <= i < sel.len() implies r[#[trigger] sel[i].0] == normalized(sel[i].1) by {
            assert(items[i].1 == sel[i]);
            assert forall|j: int| i < j < items.len() implies (#[trigger] items[j]).1.0 != items[i].1.0 by {
                assert(items[j].1 == sel[j]);
            }
            lemma_read_map_val(items, m0, i);
        }
    }
}


/// Reading back the ToUnicode CMap that `build_to_unicode_cmap` writes for
/// a unicode -> CID table (its listing `sel`, see `cid_listing`) gives every
/// CID of the table, and nothing else, its most standard code point,
/// normalised.
pub proof fn lemma_cmap_roundtrip(m: Map<u32, u32>, sel: Seq<(u32, u32)>)
    requires
        cid_listing(m, sel),
        sel.len() < MAX_TOUNICODE_ENTRIES,
    ensures
        forall|c: u32|
            #[trigger] tounicode_from(encode_utf8(tounicode_text(sel)), 0, Map::empty()).contains_key(c) <==> (exists|
                u: u32,
            | m.contains_key(u) && m[u] == c),
        forall|c: u32|
            #[trigger] tounicode_from(encode_utf8(tounicode_text(sel)), 0, Map::empty()).contains_key(c) ==> exists|
                u: u32,
            | best_unicode_for(m, c, u) && tounicode_from(encode_utf8(tounicode_text(sel)), 0, Map::empty())[c]
                == normalized(u),
{
    let r = tounicode_from(encode_utf8(tounicode_text(sel)), 0, Map::empty());
    lemma_listing_entries(m, sel);
    lemma_tounicode_readback(sel);
    assert forall|c: u32| #[trigger] r.contains_key(c) <==> (exists|u: u32| m.contains_key(u) && m[u] == c) by {
        if r.contains_key(c) {
            assert(has_cid(sel, c));
            let i = choose|i: int| 0 <= i < sel.len() && sel[i].0 == c;
            assert(best_unicode_for(m, sel[i].0, sel[i].1));
            assert(m.contains_key(sel[i].1) && m[sel[i].1] == c);
        }
        if exists|u: u32| m.contains_key(u) && m[u] == c {
            let u = choose|u: u32| m.contains_key(u) && m[u] == c;
            reveal(cid_listing);
            assert(m.contains_key(u));
            assert(has_cid(sel, m[u]));
        }
    }
    assert forall|c: u32| #[trigger] r.contains_key(c) implies exists|u: u32| best_unicode_for(m, c, u) && r[c] == normalized(u) by {
        assert(has_cid(sel, c));
        let i = choose|i: int| 0 <= i < sel.len() && sel[i].0 == c;
        assert(best_unicode_for(m, sel[i].0, sel[i].1));
        assert(r[sel[i].0] == normalized(sel[i].1));
    }
}

} // verus!
