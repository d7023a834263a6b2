//! The ToUnicode CMap written for an embedded CID font: for each CID of the
//! unicode -> CID table, the most standard code point mapped to it.

use vstd::prelude::*;
use vstd::string::StrSliceExecFns;
use std::collections::BTreeMap;
use std::collections::HashMap;
use vstd::utf8::encode_utf8;
use crate::font_embed::{priority_of, unicode_priority};
use crate::text::{dec_chars, push_char, push_decimal, push_str};

verus! {

broadcast use vstd::std_specs::hash::group_hash_axioms;

/// Upper-case hex digit of `d < 16`.
pub open spec fn hex_upper_digit(d: nat) -> char {
    if d < 10 {
        (48 + d) as char
    } else {
        (55 + d) as char
    }
}

/// `n` in upper-case hex, zero-padded to at least `w` digits (`{:0w$X}`).
pub open spec fn hex_upper_w(n: nat, w: nat) -> Seq<char>
    decreases n + w,
{
    if n < 16 && w <= 1 {
        seq![hex_upper_digit(n)]
    } else {
        hex_upper_w(n / 16, if w > 0 { (w - 1) as nat } else { 0 }).push(hex_upper_digit(n % 16))
    }
}

/// One `bfchar` line: `<CID> <UNICODE>`.
pub open spec fn bfchar_line(p: (u32, u32)) -> Seq<char> {
    "<"@ + hex_upper_w(p.0 as nat, 4) + "> <"@ + hex_upper_w(p.1 as nat, 4) + ">\n"@
}

/// The lines of some entries.
pub open spec fn bfchar_lines(s: Seq<(u32, u32)>) -> Seq<char>
    decreases s.len(),
{
    if s.len() == 0 {
        Seq::empty()
    } else {
        bfchar_lines(s.drop_last()) + bfchar_line(s.last())
    }
}

/// One `beginbfchar` ... `endbfchar` block.
pub open spec fn bfchar_block(s: Seq<(u32, u32)>) -> Seq<char> {
    dec_chars(s.len()) + " beginbfchar\n"@ + bfchar_lines(s) + "endbfchar\n"@
}

/// The entries in blocks of at most 100.
pub open spec fn bfchar_blocks(s: Seq<(u32, u32)>) -> Seq<char>
    decreases s.len(),
{
    if s.len() == 0 {
        Seq::empty()
    } else if s.len() <= 100 {
        bfchar_block(s)
    } else {
        bfchar_block(s.take(100)) + bfchar_blocks(s.skip(100))
    }
}

/// What comes before the blocks.
pub open spec fn cmap_header() -> Seq<char> {
    "/CIDInit /ProcSet findresource begin\n12 dict begin\nbegincmap\n/CIDSystemInfo << /Registry (Adobe) /Ordering (UCS) /Supplement 0 >> def\n/CMapName /Adobe-Identity-UCS def\n/CMapType 2 def\n1 begincodespacerange\n<0000> <FFFF>\nendcodespacerange\n"@
}

/// What comes after the blocks.
pub open spec fn cmap_footer() -> Seq<char> {
    "endcmap\nCMapName currentdict /CMap defineresource pop\nend end\n"@
}

/// The CMap text for entries `(CID, code point)`.
pub open spec fn tounicode_text(s: Seq<(u32, u32)>) -> Seq<char> {
    cmap_header() + bfchar_blocks(s) + cmap_footer()
}

fn push_cmap_header(out: &mut String)
    ensures
        final(out)@ == old(out)@ + cmap_header(),
{
    push_str(
        out,
        "/CIDInit /ProcSet findresource begin\n12 dict begin\nbegincmap\n/CIDSystemInfo << /Registry (Adobe) /Ordering (UCS) /Supplement 0 >> def\n/CMapName /Adobe-Identity-UCS def\n/CMapType 2 def\n1 begincodespacerange\n<0000> <FFFF>\nendcodespacerange\n",
    );
}

fn push_cmap_footer(out: &mut String)
    ensures
        final(out)@ == old(out)@ + cmap_footer(),
{
    push_str(out, "endcmap\nCMapName currentdict /CMap defineresource pop\nend end\n");
}

fn hex_digit_upper(d: u32) -> (r: char)
    requires
        d < 16,
    ensures
        r == hex_upper_digit(d as nat),
{
    if d < 10 {
        ((d as u8) + 48) as char
    } else {
        ((d as u8) + 55) as char
    }
}

/// Append `n` in upper-case hex, zero-padded to `w` digits.
fn push_hex_upper(s: &mut String, n: u32, w: usize)
    ensures
        final(s)@ == old(s)@ + hex_upper_w(n as nat, w as nat),
    decreases n + w,
{
    if n < 16 && w <= 1 {
        push_char(s, hex_digit_upper(n));
    } else {
        let w2: usize = if w > 0 { w - 1 } else { 0 };
        push_hex_upper(s, n / 16, w2);
        push_char(s, hex_digit_upper(n % 16));
    }
}

fn push_bfchar_line(s: &mut String, p: (u32, u32))
    ensures
        final(s)@ == old(s)@ + bfchar_line(p),
{
    push_str(s, "<");
    push_hex_upper(s, p.0, 4);
    push_str(s, "> <");
    push_hex_upper(s, p.1, 4);
    push_str(s, ">\n");
    assert(final(s)@ =~= old(s)@ + bfchar_line(p));
}

/// The CMap text for entries `(CID, code point)`, as bytes.
pub fn tounicode_cmap_bytes(sel: &Vec<(u32, u32)>) -> (r: Vec<u8>)
    ensures
        r@ == encode_utf8(tounicode_text(sel@)),
{
    let mut out = String::new();
    push_cmap_header(&mut out);
    let ghost start = out@;
    let n: usize = sel.len();
    let mut i: usize = 0;
    assert(sel@.skip(0) =~= sel@);
    while i < n
        invariant
            i <= n == sel@.len(),
            out@ + bfchar_blocks(sel@.skip(i as int)) == start + bfchar_blocks(sel@),
        decreases n - i,
    {
        let k: usize = if n - i > 100 { 100 } else { n - i };
        let ghost before = out@;
        let ghost rest = sel@.skip(i as int);
        push_decimal(&mut out, k as u64);
        push_str(&mut out, " beginbfchar\n");
        let ghost head = out@;
        let mut j: usize = i;
        assert(sel@.subrange(i as int, i as int) =~= Seq::<(u32, u32)>::empty());
        while j < i + k
            invariant
                i <= j <= i + k <= n == sel@.len(),
                out@ == head + bfchar_lines(sel@.subrange(i as int, j as int)),
            decreases i + k - j,
        {
            push_bfchar_line(&mut out, sel[j]);
            assert(sel@.subrange(i as int, j + 1).drop_last() =~= sel@.subrange(i as int, j as int));
            j = j + 1;
        }
        push_str(&mut out, "endbfchar\n");
        let ghost chunk = sel@.subrange(i as int, (i + k) as int);
        assert(out@ =~= before + bfchar_block(chunk));
        if n - i > 100 {
            assert(rest.take(100) =~= chunk);
            assert(rest.skip(100) =~= sel@.skip((i + k) as int));
        } else {
            assert(rest =~= chunk);
            assert(sel@.skip((i + k) as int) =~= Seq::<(u32, u32)>::empty());
        }
        i = i + k;
    }
    push_cmap_footer(&mut out);
    assert(out@ =~= tounicode_text(sel@));
    out.as_str().as_bytes_vec()
}


/// Whether code point `u` is more standard than `v`: lower priority first,
/// then the lower code point.
pub open spec fn more_standard(u: u32, v: u32) -> bool {
    priority_of(u) < priority_of(v) || (priority_of(u) == priority_of(v) && u < v)
}

/// Whether `u` is the most standard of the code points that `m` maps to `cid`.
pub open spec fn best_unicode_for(m: Map<u32, u32>, cid: u32, u: u32) -> bool {
    &&& m.contains_key(u)
    &&& m[u] == cid
    &&& forall|v: u32| #[trigger] m.contains_key(v) && m[v] == cid && v != u ==> more_standard(u, v)
}

/// Whether `sel` lists every CID of the unicode -> CID table `m` once, by
/// increasing CID, each with its most standard code point.
#[verifier::opaque]
pub open spec fn cid_listing(m: Map<u32, u32>, sel: Seq<(u32, u32)>) -> bool {
    &&& forall|i: int, j: int| 0 <= i < j < sel.len() ==> sel[i].0 < sel[j].0
    &&& forall|i: int| 0 <= i < sel.len() ==> best_unicode_for(m, sel[i].0, sel[i].1)
    &&& forall|u: u32| #[trigger] m.contains_key(u) ==> exists|i: int| 0 <= i < sel.len() && sel[i].0 == m[u]
}

fn is_more_standard(u: u32, v: u32) -> (r: bool)
    ensures
        r == more_standard(u, v),
{
    let pu = unicode_priority(u);
    let pv = unicode_priority(v);
    pu < pv || (pu == pv && u < v)
}

fn cid_of(m: &HashMap<u32, u32>, k: u32) -> (r: u32)
    requires
        m@.contains_key(k),
    ensures
        r == m@[k],
{
    match m.get(&k) {
        Some(v) => *v,
        None => 0,
    }
}

/// `u32` keys are totally ordered as `BTreeMap` expects.
proof fn lemma_u32_keys_ordered()
    ensures
        vstd::laws_cmp::obeys_cmp::<u32>(),
{
    broadcast use vstd::laws_cmp::group_laws_cmp;
}

/// `u` is the most standard code point for `c` among the keys `seen`.
pub open spec fn best_among(m: Map<u32, u32>, seen: Seq<u32>, c: u32, u: u32) -> bool {
    &&& seen.contains(u)
    &&& m.contains_key(u)
    &&& m[u] == c
    &&& forall|v: u32| #[trigger] seen.contains(v) && m[v] == c && v != u ==> more_standard(u, v)
}

/// `best` holds, for each CID of the keys `seen`, the most standard of them.
pub open spec fn best_so_far(m: Map<u32, u32>, seen: Seq<u32>, best: Map<u32, u32>) -> bool {
    &&& forall|c: u32| #[trigger] best.contains_key(c) ==> best_among(m, seen, c, best[c])
    &&& forall|j: int| 0 <= j < seen.len() ==> best.contains_key(m[#[trigger] seen[j]])
}

proof fn lemma_best_step(
    m: Map<u32, u32>,
    seen: Seq<u32>,
    old_best: Map<u32, u32>,
    new_best: Map<u32, u32>,
    k: u32,
    replaced: bool,
)
    requires
        best_so_far(m, seen, old_best),
        forall|j: int| 0 <= j < seen.len() ==> m.contains_key(#[trigger] seen[j]),
        m.contains_key(k),
        replaced ==> new_best == old_best.insert(m[k], k),
        replaced ==> old_best.contains_key(m[k]) ==> more_standard(k, old_best[m[k]]),
        !replaced ==> new_best == old_best,
        !replaced ==> old_best.contains_key(m[k]) && !more_standard(k, old_best[m[k]]),
    ensures
        best_so_far(m, seen.push(k), new_best),
{
    let c = m[k];
    let s2 = seen.push(k);
    assert forall|v: u32| #[trigger] s2.contains(v) && v != k implies seen.contains(v) by {
        let j = choose|j: int| 0 <= j < s2.len() && s2[j] == v;
        assert(j < seen.len());
        assert(seen[j] == v);
    }
    assert forall|x: u32| #[trigger] seen.contains(x) implies s2.contains(x) by {
        let j = choose|j: int| 0 <= j < seen.len() && seen[j] == x;
        assert(s2[j] == x);
    }
    assert(s2[seen.len() as int] == k);
    assert forall|cc: u32| #[trigger] new_best.contains_key(cc) implies best_among(m, s2, cc, new_best[cc]) by {
        let u = new_best[cc];
        assert forall|v: u32| #[trigger] s2.contains(v) && m[v] == cc && v != u implies more_standard(u, v) by {
            if v != k {
                assert(seen.contains(v));
                let j = choose|j: int| 0 <= j < seen.len() && seen[j] == v;
                assert(old_best.contains_key(m[seen[j]]));
                if cc == c && replaced && v != old_best[c] {
                    assert(best_among(m, seen, c, old_best[c]));
                }
            } else {
                if cc == c && !replaced {
                    assert(best_among(m, seen, c, old_best[c]));
                }
            }
        }
        if cc != c || !replaced {
            assert(best_among(m, seen, cc, old_best[cc]));
        }
    }
    assert forall|j: int| 0 <= j < s2.len() implies new_best.contains_key(m[#[trigger] s2[j]]) by {
        if j < seen.len() {
            assert(s2[j] == seen[j]);
        }
    }
}

/// For each CID of the table, its most standard code point.
fn best_by_cid(uni2cid: &HashMap<u32, u32>) -> (r: BTreeMap<u32, u32>)
    ensures
        forall|c: u32| #[trigger] r@.contains_key(c) ==> best_unicode_for(uni2cid@, c, r@[c]),
        forall|u: u32| #[trigger] uni2cid@.contains_key(u) ==> r@.contains_key(uni2cid@[u]),
{
    broadcast use vstd::std_specs::btree::group_btree_axioms;
    proof {
        lemma_u32_keys_ordered();
    }
    let ghost m = uni2cid@;
    let mut best: BTreeMap<u32, u32> = BTreeMap::new();
    let ghost mut seen: Seq<u32> = Seq::empty();
    for k in it: uni2cid.keys()
        invariant
            m == uni2cid@,
            it.seq().unref().to_set() == m.dom(),
            seen == it.seq().unref().take(it.index() as int),
            it.index() == it.seq().len() ==> seen =~= it.seq().unref(),
            best_so_far(m, seen, best@),
            forall|j: int| 0 <= j < seen.len() ==> m.contains_key(#[trigger] seen[j]),
    {
        assert(it.seq().unref()[it.index() as int] == *k);
        assert(it.seq().unref().to_set().contains(*k));
        let c = cid_of(uni2cid, *k);
        let ghost old_best = best@;
        let replace = match best.get(&c) {
            Some(v) => is_more_standard(*k, *v),
            None => true,
        };
        if replace {
            best.insert(c, *k);
        }
        proof {
            lemma_best_step(m, seen, old_best, best@, *k, replace);
            seen = seen.push(*k);
            assert(seen =~= it.seq().unref().take(it.index() + 1));
            assert(it.index() + 1 == it.seq().len() ==> seen =~= it.seq().unref());
        }
    }
    proof {
        assert forall|u: u32| #[trigger] m.contains_key(u) implies best@.contains_key(m[u]) by {
            assert(seen.to_set().contains(u));
            let j = choose|j: int| 0 <= j < seen.len() && seen[j] == u;
            assert(best@.contains_key(m[seen[j]]));
        }
        assert forall|c: u32| #[trigger] best@.contains_key(c) implies best_unicode_for(m, c, best@[c]) by {
            assert(best_among(m, seen, c, best@[c]));
            assert forall|v: u32| #[trigger] m.contains_key(v) && m[v] == c && v != best@[c] implies more_standard(best@[c], v) by {
                assert(seen.to_set().contains(v));
                assert(seen.contains(v));
            }
        }
    }
    best
}

/// The entries of `best` by increasing CID.
fn cid_entries(best: &BTreeMap<u32, u32>) -> (r: Vec<(u32, u32)>)
    ensures
        forall|i: int, j: int| 0 <= i < j < r@.len() ==> r@[i].0 < r@[j].0,
        forall|i: int| 0 <= i < r@.len() ==> best@.contains_key(#[trigger] r@[i].0) && best@[r@[i].0] == r@[i].1,
        forall|c: u32| #[trigger] best@.contains_key(c) ==> exists|i: int| 0 <= i < r@.len() && r@[i].0 == c,
{
    broadcast use vstd::std_specs::btree::group_btree_axioms;
    proof {
        lemma_u32_keys_ordered();
    }
    let ghost all = vstd::std_specs::btree::spec_btree_map_iter(best);
    let mut out: Vec<(u32, u32)> = Vec::new();
    for kv in it: best.iter()
        invariant
            out@.len() == it.index(),
            it.seq() == vstd::std_specs::iter::IteratorSpec::remaining(&all),
            forall|i: int| 0 <= i < it.index() ==> #[trigger] out@[i] == (*it.seq()[i].0, *it.seq()[i].1),
    {
        let (c, u) = kv;
        out.push((*c, *u));
    }
    let ghost items = vstd::std_specs::iter::IteratorSpec::remaining(&all);
    let ghost keys = items.map_values(|kv: (&u32, &u32)| *kv.0);
    assert(out@.len() == items.len());
    assert(vstd::std_specs::btree::increasing_seq(keys));
    assert forall|i: int, j: int| 0 <= i < j < out@.len() implies out@[i].0 < out@[j].0 by {
        assert(keys[i] == out@[i].0);
        assert(keys[j] == out@[j].0);
        assert(vstd::std_specs::cmp::OrdSpec::cmp_spec(&keys[i], &keys[j]) is Less);
    }
    assert forall|c: u32| #[trigger] best@.contains_key(c) implies exists|i: int| 0 <= i < out@.len() && out@[i].0 == c by {
        assert(items.contains((&c, &best@[c])));
        let i = choose|i: int| 0 <= i < items.len() && items[i] == (&c, &best@[c]);
        assert(out@[i].0 == c);
    }
    out
}

/// The ToUnicode CMap of an embedded font, from its unicode -> CID table:
/// each CID once, by increasing CID, with its most standard code point
/// (see `cid_listing`), in blocks of at most 100 `bfchar` entries.
pub fn build_to_unicode_cmap(uni2cid: &HashMap<u32, u32>) -> (r: Vec<u8>)
    ensures
        exists|sel: Seq<(u32, u32)>| cid_listing(uni2cid@, sel) && r@ == encode_utf8(tounicode_text(sel)),
{
    let best = best_by_cid(uni2cid);
    let sel = cid_entries(&best);
    let r = tounicode_cmap_bytes(&sel);
    assert(cid_listing(uni2cid@, sel@)) by {
        reveal(cid_listing);
        assert forall|u: u32| #[trigger] uni2cid@.contains_key(u) implies exists|i: int| 0 <= i < sel@.len() && sel@[i].0 == uni2cid@[u] by {
            assert(best@.contains_key(uni2cid@[u]));
        }
        assert forall|i: int| 0 <= i < sel@.len() implies best_unicode_for(uni2cid@, sel@[i].0, sel@[i].1) by {
            assert(best@.contains_key(sel@[i].0));
        }
    }
    r
}


/// Entries strictly increasing by CID.
pub open spec fn cids_increasing(s: Seq<(u32, u32)>) -> bool {
    forall|i: int, j: int| 0 <= i < j < s.len() ==> s[i].0 < s[j].0
}

/// Whether some entry of `s` is for `c`.
pub open spec fn has_cid(s: Seq<(u32, u32)>, c: u32) -> bool {
    exists|j: int| 0 <= j < s.len() && s[j].0 == c
}

/// Every CID of `a` is a CID of `b`.
pub open spec fn cids_within(a: Seq<(u32, u32)>, b: Seq<(u32, u32)>) -> bool {
    forall|i: int| 0 <= i < a.len() ==> has_cid(b, #[trigger] a[i].0)
}

proof fn lemma_same_cids(a: Seq<(u32, u32)>, b: Seq<(u32, u32)>)
    requires
        cids_increasing(a),
        cids_increasing(b),
        cids_within(a, b),
        cids_within(b, a),
    ensures
        a.len() == b.len(),
        forall|i: int| 0 <= i < a.len() ==> a[i].0 == b[i].0,
    decreases a.len(),
{
    if a.len() == 0 {
        if b.len() > 0 {
            assert(has_cid(a, b[0].0));
        }
    } else if b.len() == 0 {
        assert(has_cid(b, a[0].0));
    } else {
        assert(has_cid(b, a[0].0));
        assert(has_cid(a, b[0].0));
        let j0 = choose|j: int| 0 <= j < b.len() && b[j].0 == a[0].0;
        let i0 = choose|i: int| 0 <= i < a.len() && a[i].0 == b[0].0;
        assert(j0 == 0 || b[j0].0 > b[0].0);
        assert(i0 == 0 || a[i0].0 > a[0].0);
        assert(a[0].0 == b[0].0);
        let a1 = a.drop_first();
        let b1 = b.drop_first();
        assert forall|i: int| 0 <= i < a1.len() implies has_cid(b1, #[trigger] a1[i].0) by {
            assert(a1[i] == a[i + 1]);
            assert(has_cid(b, a[i + 1].0));
            let j = choose|j: int| 0 <= j < b.len() && b[j].0 == a[i + 1].0;
            assert(a[i + 1].0 > a[0].0);
            assert(j != 0);
            assert(b1[j - 1] == b[j]);
        }
        assert forall|j: int| 0 <= j < b1.len() implies has_cid(a1, #[trigger] b1[j].0) by {
            assert(b1[j] == b[j + 1]);
            assert(has_cid(a, b[j + 1].0));
            let i = choose|i: int| 0 <= i < a.len() && a[i].0 == b[j + 1].0;
            assert(b[j + 1].0 > b[0].0);
            assert(i != 0);
            assert(a1[i - 1] == a[i]);
        }
        lemma_same_cids(a1, b1);
        assert forall|i: int| 0 <= i < a.len() implies a[i].0 == b[i].0 by {
            if i > 0 {
                assert(a1[i - 1] == a[i]);
                assert(b1[i - 1] == b[i]);
            }
        }
    }
}

proof fn lemma_listing_within(m: Map<u32, u32>, a: Seq<(u32, u32)>, b: Seq<(u32, u32)>)
    requires
        cid_listing(m, a),
        cid_listing(m, b),
    ensures
        cids_within(a, b),
{
    reveal(cid_listing);
    assert forall|i: int| 0 <= i < a.len() implies has_cid(b, #[trigger] a[i].0) by {
        let u = a[i].1;
        assert(best_unicode_for(m, a[i].0, u));
        assert(m.contains_key(u));
        assert(exists|j: int| 0 <= j < b.len() && b[j].0 == m[u]);
    }
}

pub(crate) proof fn lemma_listing_entries(m: Map<u32, u32>, a: Seq<(u32, u32)>)
    requires
        cid_listing(m, a),
    ensures
        cids_increasing(a),
        forall|i: int| 0 <= i < a.len() ==> best_unicode_for(m, #[trigger] a[i].0, a[i].1),
{
    reveal(cid_listing);
}

proof fn lemma_best_unique(m: Map<u32, u32>, c: u32, u: u32, v: u32)
    requires
        best_unicode_for(m, c, u),
        best_unicode_for(m, c, v),
    ensures
        u == v,
{
    if u != v {
        assert(m.contains_key(v) && m[v] == c);
        assert(more_standard(u, v));
        assert(m.contains_key(u) && m[u] == c);
        assert(more_standard(v, u));
    }
}

/// A unicode -> CID table has one listing of its CIDs with their most
/// standard code points: the ToUnicode CMap written for it is determined by
/// the table alone.
pub proof fn lemma_cid_listing_unique(m: Map<u32, u32>, a: Seq<(u32, u32)>, b: Seq<(u32, u32)>)
    requires
        cid_listing(m, a),
        cid_listing(m, b),
    ensures
        a == b,
{
    lemma_listing_within(m, a, b);
    lemma_listing_within(m, b, a);
    lemma_listing_entries(m, a);
    lemma_listing_entries(m, b);
    lemma_same_cids(a, b);
    assert forall|i: int| 0 <= i < a.len() implies a[i] == b[i] by {
        assert(best_unicode_for(m, a[i].0, a[i].1));
        assert(best_unicode_for(m, b[i].0, b[i].1));
        lemma_best_unique(m, a[i].0, a[i].1, b[i].1);
    }
    assert(a =~= b);
}

} // verus!
