//! Small string helpers shared by the other modules.

use vstd::prelude::*;
use vstd::string::StrSliceExecFns;
use vstd::string::StringExecFns;

verus! {

/// The characters of `s`, in order.
pub fn chars_of(s: &str) -> (v: Vec<char>)
    ensures
        v@ == s@,
{
    let mut v: Vec<char> = Vec::new();
    for c in it: s.chars()
        invariant
            v@ == it.seq().take(it.index() as int),
            it.seq() == s@,
    {
        v.push(c);
    }
    v
}


/// Unicode `White_Space` characters (what `char::is_whitespace` accepts).
pub open spec fn is_unicode_whitespace(c: char) -> bool {
    ||| '\t' <= c <= '\r'
    ||| c == ' '
    ||| c == '\u{85}'
    ||| c == '\u{A0}'
    ||| c == '\u{1680}'
    ||| '\u{2000}' <= c <= '\u{200A}'
    ||| c == '\u{2028}'
    ||| c == '\u{2029}'
    ||| c == '\u{202F}'
    ||| c == '\u{205F}'
    ||| c == '\u{3000}'
}

/// Whether `c` is Unicode white space.
pub fn is_whitespace(c: char) -> (r: bool)
    ensures
        r == is_unicode_whitespace(c),
{
    ('\t' <= c && c <= '\r') || c == ' ' || c == '\u{85}' || c == '\u{A0}' || c == '\u{1680}'
        || ('\u{2000}' <= c && c <= '\u{200A}') || c == '\u{2028}' || c == '\u{2029}'
        || c == '\u{202F}' || c == '\u{205F}' || c == '\u{3000}'
}

/// `s` without leading white space.
pub open spec fn trim_start(s: Seq<char>) -> Seq<char>
    decreases s.len(),
{
    if s.len() > 0 && is_unicode_whitespace(s[0]) {
        trim_start(s.drop_first())
    } else {
        s
    }
}

/// `s` without trailing white space.
pub open spec fn trim_end(s: Seq<char>) -> Seq<char>
    decreases s.len(),
{
    if s.len() > 0 && is_unicode_whitespace(s.last()) {
        trim_end(s.drop_last())
    } else {
        s
    }
}

/// `s` without leading and trailing white space.
pub open spec fn trim(s: Seq<char>) -> Seq<char> {
    trim_end(trim_start(s))
}

pub open spec fn is_ascii_digit(c: char) -> bool {
    '0' <= c <= '9'
}

/// Decimal value of a string of ASCII digits.
pub open spec fn dec_value(d: Seq<char>) -> nat
    decreases d.len(),
{
    if d.len() == 0 {
        0
    } else {
        dec_value(d.drop_last()) * 10 + ((d.last() as int) - 48) as nat
    }
}

/// The digit part of an unsigned number: the text after an optional leading `+`.
pub open spec fn unsigned_digits(s: Seq<char>) -> Seq<char> {
    if s.len() > 0 && s[0] == '+' {
        s.drop_first()
    } else {
        s
    }
}

/// What `u64::from_str` gives: an optional `+`, then one or more ASCII digits whose
/// value fits in 64 bits.
pub open spec fn parse_u64(s: Seq<char>) -> Option<u64> {
    let d = unsigned_digits(s);
    if d.len() == 0 || !(forall|i: int| 0 <= i < d.len() ==> is_ascii_digit(#[trigger] d[i])) {
        None
    } else if dec_value(d) <= u64::MAX {
        Some(dec_value(d) as u64)
    } else {
        None
    }
}

proof fn lemma_dec_value_grows(d: Seq<char>, i: int)
    requires
        0 <= i <= d.len(),
        forall|k: int| 0 <= k < d.len() ==> is_ascii_digit(#[trigger] d[k]),
    ensures
        dec_value(d.take(i)) <= dec_value(d),
    decreases d.len() - i,
{
    if i < d.len() {
        lemma_dec_value_grows(d, i + 1);
        assert(d.take(i + 1).drop_last() =~= d.take(i));
    } else {
        assert(d.take(i) =~= d);
    }
}

/// Trim `cs[lo..hi]` and parse it as `u64`.
pub fn parse_u64_trimmed(cs: &Vec<char>, lo: usize, hi: usize) -> (r: Option<u64>)
    requires
        lo <= hi <= cs@.len(),
    ensures
        r == parse_u64(trim(cs@.subrange(lo as int, hi as int))),
{
    let ghost whole = cs@.subrange(lo as int, hi as int);
    let mut a: usize = lo;
    while a < hi && is_whitespace(cs[a])
        invariant
            lo <= a <= hi <= cs@.len(),
            trim_start(whole) == trim_start(cs@.subrange(a as int, hi as int)),
        decreases hi - a,
    {
        assert(cs@.subrange(a as int, hi as int).drop_first() =~= cs@.subrange(a + 1, hi as int));
        a = a + 1;
    }
    let ghost started = cs@.subrange(a as int, hi as int);
    assert(trim_start(started) == started);
    let mut b: usize = hi;
    while b > a && is_whitespace(cs[b - 1])
        invariant
            lo <= a <= b <= hi <= cs@.len(),
            trim_end(started) == trim_end(cs@.subrange(a as int, b as int)),
        decreases b - a,
    {
        assert(cs@.subrange(a as int, b as int).drop_last() =~= cs@.subrange(a as int, b - 1));
        b = b - 1;
    }
    let ghost t = cs@.subrange(a as int, b as int);
    assert(trim_end(t) == t);
    assert(trim(whole) == t);
    parse_u64_range(cs, a, b)
}

/// `s.trim().to_string()`.
pub fn trim_string(s: &str) -> (r: String)
    ensures
        r@ == trim(s@),
{
    let cs = chars_of(s);
    let hi: usize = cs.len();
    let mut a: usize = 0;
    assert(cs@.subrange(0, hi as int) =~= s@);
    while a < hi && is_whitespace(cs[a])
        invariant
            a <= hi == cs@.len(),
            cs@ == s@,
            trim_start(s@) == trim_start(cs@.subrange(a as int, hi as int)),
        decreases hi - a,
    {
        assert(cs@.subrange(a as int, hi as int).drop_first() =~= cs@.subrange(a + 1, hi as int));
        a = a + 1;
    }
    let ghost started = cs@.subrange(a as int, hi as int);
    assert(trim_start(started) == started);
    let mut b: usize = hi;
    while b > a && is_whitespace(cs[b - 1])
        invariant
            a <= b <= hi == cs@.len(),
            trim_end(started) == trim_end(cs@.subrange(a as int, b as int)),
        decreases b - a,
    {
        assert(cs@.subrange(a as int, b as int).drop_last() =~= cs@.subrange(a as int, b - 1));
        b = b - 1;
    }
    let ghost t = cs@.subrange(a as int, b as int);
    assert(trim_end(t) == t);
    string_from_chars(cs.as_slice(), a, b)
}

/// Parse `cs[a..b]` as `u64` (`u64::from_str`: an optional `+`, then digits).
pub fn parse_u64_range(cs: &Vec<char>, a: usize, b: usize) -> (r: Option<u64>)
    requires
        a <= b <= cs@.len(),
    ensures
        r == parse_u64(cs@.subrange(a as int, b as int)),
{
    let ghost t = cs@.subrange(a as int, b as int);
    let mut p: usize = a;
    if p < b && cs[p] == '+' {
        p = p + 1;
    }
    let ghost d = cs@.subrange(p as int, b as int);
    assert(d =~= unsigned_digits(t));
    if p == b {
        return None;
    }
    let mut k: usize = p;
    while k < b
        invariant
            p <= k <= b <= cs@.len(),
            d == cs@.subrange(p as int, b as int),
            d == unsigned_digits(t),
            t == cs@.subrange(a as int, b as int),
            forall|j: int| 0 <= j < k - p ==> is_ascii_digit(#[trigger] d[j]),
        decreases b - k,
    {
        if !('0' <= cs[k] && cs[k] <= '9') {
            assert(!is_ascii_digit(d[k - p]));
            return None;
        }
        k = k + 1;
    }
    let mut v: u64 = 0;
    let mut q: usize = p;
    while q < b
        invariant
            p <= q <= b <= cs@.len(),
            d == cs@.subrange(p as int, b as int),
            d == unsigned_digits(t),
            t == cs@.subrange(a as int, b as int),
            forall|j: int| 0 <= j < d.len() ==> is_ascii_digit(#[trigger] d[j]),
            v as nat == dec_value(d.take(q - p)),
        decreases b - q,
    {
        assert(is_ascii_digit(d[q - p]));
        let digit: u64 = (cs[q] as u32 - 48) as u64;
        assert(d.take(q - p + 1).drop_last() =~= d.take(q - p));
        assert(d.take(q - p + 1).last() == cs@[q as int]);
        match v.checked_mul(10) {
            Some(m) => match m.checked_add(digit) {
                Some(w) => {
                    v = w;
                },
                None => {
                    proof {
                        lemma_dec_value_grows(d, q - p + 1);
                    }
                    return None;
                },
            },
            None => {
                proof {
                    lemma_dec_value_grows(d, q - p + 1);
                }
                return None;
            },
        }
        q = q + 1;
    }
    assert(d.take(d.len() as int) =~= d);
    Some(v)
}


/// What `usize::from_str` gives: `parse_u64` where the value fits a `usize`.
pub open spec fn parse_usize(s: Seq<char>) -> Option<usize> {
    match parse_u64(s) {
        Some(v) => if v <= usize::MAX { Some(v as usize) } else { None },
        None => None,
    }
}

/// `usize::from_str` on `s[from..]`.
pub fn parse_usize_from(s: &str, from: usize) -> (r: Option<usize>)
    requires
        from <= s@.len(),
    ensures
        r == parse_usize(s@.subrange(from as int, s@.len() as int)),
{
    let cs = chars_of(s);
    match parse_u64_range(&cs, from, cs.len()) {
        Some(v) => if v <= usize::MAX as u64 { Some(v as usize) } else { None },
        None => None,
    }
}


/// The pieces of `s` between occurrences of `sep` (`str::split` on a char).
pub open spec fn split_char(s: Seq<char>, sep: char) -> Seq<Seq<char>>
    decreases s.len(),
{
    if s.len() == 0 {
        seq![Seq::<char>::empty()]
    } else {
        let rest = split_char(s.drop_last(), sep);
        if s.last() == sep {
            rest.push(Seq::<char>::empty())
        } else {
            rest.update(rest.len() - 1, rest.last().push(s.last()))
        }
    }
}

proof fn lemma_split_char_nonempty(s: Seq<char>, sep: char)
    ensures
        split_char(s, sep).len() >= 1,
    decreases s.len(),
{
    if s.len() > 0 {
        lemma_split_char_nonempty(s.drop_last(), sep);
    }
}

/// Views of some strings.
pub open spec fn texts(v: Seq<String>) -> Seq<Seq<char>> {
    v.map_values(|x: String| x@)
}

/// `s.split(sep)`, collected.
pub fn split_on(s: &str, sep: char) -> (r: Vec<String>)
    ensures
        texts(r@) == split_char(s@, sep),
{
    let cs = chars_of(s);
    let n: usize = cs.len();
    let mut parts: Vec<String> = Vec::new();
    let mut start: usize = 0;
    let mut i: usize = 0;
    assert(cs@.take(0) =~= Seq::<char>::empty());
    assert(texts(parts@).push(cs@.subrange(0, 0)) =~= seq![Seq::<char>::empty()]);
    while i < n
        invariant
            n == cs@.len(),
            start <= i <= n,
            split_char(cs@.take(i as int), sep) == texts(parts@).push(cs@.subrange(start as int, i as int)),
        decreases n - i,
    {
        let ghost before = cs@.take(i as int);
        assert(cs@.take(i + 1).drop_last() =~= before);
        assert(cs@.take(i + 1).last() == cs@[i as int]);
        if cs[i] == sep {
            let piece = string_from_chars(cs.as_slice(), start, i);
            parts.push(piece);
            assert(texts(parts@) =~= texts(parts@.drop_last()).push(piece@));
            start = i + 1;
            assert(cs@.subrange(start as int, (i + 1) as int) =~= Seq::<char>::empty());
        } else {
            assert(cs@.subrange(start as int, i + 1) =~= cs@.subrange(start as int, i as int).push(cs@[i as int]));
            assert(texts(parts@).push(cs@.subrange(start as int, i + 1)) =~= texts(parts@).push(
                cs@.subrange(start as int, i as int),
            ).update(texts(parts@).len() as int, cs@.subrange(start as int, i as int).push(cs@[i as int])));
        }
        i = i + 1;
    }
    let last = string_from_chars(cs.as_slice(), start, n);
    parts.push(last);
    assert(cs@.take(n as int) =~= cs@);
    assert(texts(parts@) =~= texts(parts@.drop_last()).push(last@));
    parts
}

/// What `u32::from_str` gives (an optional `+`, then digits that fit).
pub open spec fn parse_u32(s: Seq<char>) -> Option<u32> {
    match parse_u64(s) {
        Some(v) => if v <= u32::MAX { Some(v as u32) } else { None },
        None => None,
    }
}

/// `u32::from_str`.
pub fn parse_u32_str(s: &str) -> (r: Option<u32>)
    ensures
        r == parse_u32(s@),
{
    let cs = chars_of(s);
    assert(cs@.subrange(0, cs@.len() as int) =~= cs@);
    match parse_u64_range(&cs, 0, cs.len()) {
        Some(v) => if v <= 0xFFFF_FFFF { Some(v as u32) } else { None },
        None => None,
    }
}

/// Whether `suffix` is a suffix of `s`.
pub open spec fn has_suffix(s: Seq<char>, suffix: Seq<char>) -> bool {
    suffix.len() <= s.len() && s.subrange(s.len() - suffix.len(), s.len() as int) == suffix
}

/// `str::ends_with` for a string suffix.
pub fn ends_with(s: &str, suffix: &str) -> (r: bool)
    ensures
        r == has_suffix(s@, suffix@),
{
    let a = chars_of(s);
    let b = chars_of(suffix);
    if b.len() > a.len() {
        return false;
    }
    let n: usize = a.len();
    let off: usize = n - b.len();
    let mut i: usize = 0;
    while i < b.len()
        invariant
            n == a@.len(),
            i <= b@.len() <= a@.len(),
            off == a@.len() - b@.len(),
            a@ == s@,
            b@ == suffix@,
            forall|k: int| 0 <= k < i ==> a@[off + k] == b@[k],
        decreases b@.len() - i,
    {
        if a[off + i] != b[i] {
            assert(a@.subrange(off as int, a@.len() as int)[i as int] != b@[i as int]);
            return false;
        }
        i = i + 1;
    }
    assert(a@.subrange(off as int, a@.len() as int) =~= b@);
    true
}

/// Append one character (`String::push`).
#[verifier::external_body]
pub fn push_char(s: &mut String, c: char)
    ensures
        final(s)@ == old(s)@.push(c),
{
    s.push(c);
}

/// Append a string slice.
pub fn push_str(s: &mut String, t: &str)
    ensures
        final(s)@ == old(s)@ + t@,
{
    s.append(t);
}

/// A string holding `s`.
pub fn string_of(s: &str) -> (r: String)
    ensures
        r@ == s@,
{
    String::from_str(s)
}

/// The string made of the characters `cs[lo..hi]`.
pub fn string_from_chars(cs: &[char], lo: usize, hi: usize) -> (r: String)
    requires
        lo <= hi <= cs@.len(),
    ensures
        r@ == cs@.subrange(lo as int, hi as int),
{
    let mut r = String::new();
    let mut i: usize = lo;
    while i < hi
        invariant
            lo <= i <= hi <= cs@.len(),
            r@ == cs@.subrange(lo as int, i as int),
        decreases hi - i,
    {
        push_char(&mut r, cs[i]);
        assert(cs@.subrange(lo as int, i + 1) =~= cs@.subrange(lo as int, i as int).push(cs@[i as int]));
        i = i + 1;
    }
    r
}

/// Whether two string slices hold the same characters.
pub fn str_eq(a: &str, b: &str) -> (r: bool)
    ensures
        r == (a@ == b@),
{
    let x = String::from_str(a);
    let y = String::from_str(b);
    x == y
}

/// Whether `prefix` is a prefix of `s`.
pub open spec fn has_prefix(s: Seq<char>, prefix: Seq<char>) -> bool {
    prefix.len() <= s.len() && s.subrange(0, prefix.len() as int) == prefix
}

/// `str::starts_with` for a string prefix.
pub fn starts_with(s: &str, prefix: &str) -> (r: bool)
    ensures
        r == has_prefix(s@, prefix@),
{
    let a = chars_of(s);
    let b = chars_of(prefix);
    if b.len() > a.len() {
        return false;
    }
    let mut i: usize = 0;
    while i < b.len()
        invariant
            i <= b@.len() <= a@.len(),
            a@ == s@,
            b@ == prefix@,
            forall|k: int| 0 <= k < i ==> a@[k] == b@[k],
        decreases b@.len() - i,
    {
        if a[i] != b[i] {
            assert(a@.subrange(0, b@.len() as int)[i as int] != b@[i as int]);
            return false;
        }
        i = i + 1;
    }
    assert(a@.subrange(0, b@.len() as int) =~= b@);
    true
}

/// Whether `needle` occurs in `s` starting at `i`.
pub open spec fn occurs_at(s: Seq<char>, needle: Seq<char>, i: int) -> bool {
    0 <= i && i + needle.len() <= s.len() && s.subrange(i, i + needle.len()) == needle
}

/// `str::contains` for a string needle.
pub open spec fn contains_str(s: Seq<char>, needle: Seq<char>) -> bool {
    exists|i: int| occurs_at(s, needle, i)
}

/// Whether `needle` occurs in `s` at `i` (characters given as vectors).
fn occurs_at_exec(s: &Vec<char>, needle: &Vec<char>, i: usize) -> (r: bool)
    requires
        i + needle@.len() <= s@.len(),
    ensures
        r == occurs_at(s@, needle@, i as int),
{
    let n: usize = s.len();
    let mut k: usize = 0;
    while k < needle.len()
        invariant
            k <= needle@.len(),
            i + needle@.len() <= s@.len(),
            n == s@.len(),
            forall|j: int| 0 <= j < k ==> s@[i + j] == needle@[j],
        decreases needle@.len() - k,
    {
        if s[i + k] != needle[k] {
            assert(s@.subrange(i as int, i + needle@.len())[k as int] != needle@[k as int]);
            return false;
        }
        k = k + 1;
    }
    assert(s@.subrange(i as int, i + needle@.len()) =~= needle@);
    true
}

/// `str::contains` for a string needle.
pub fn contains(s: &str, needle: &str) -> (r: bool)
    ensures
        r == contains_str(s@, needle@),
{
    let a = chars_of(s);
    let b = chars_of(needle);
    if b.len() == 0 {
        assert(a@.subrange(0, 0) =~= b@);
        assert(occurs_at(a@, b@, 0));
        return true;
    }
    if b.len() > a.len() {
        return false;
    }
    let n: usize = a.len();
    let last: usize = n - b.len();
    let mut i: usize = 0;
    while i <= last
        invariant
            n == a@.len(),
            a@ == s@,
            b@ == needle@,
            b@.len() >= 1,
            last == a@.len() - b@.len(),
            i <= last + 1,
            forall|j: int| 0 <= j < i ==> !occurs_at(a@, b@, j),
        decreases last + 1 - i,
    {
        if occurs_at_exec(&a, &b, i) {
            return true;
        }
        i = i + 1;
    }
    assert forall|j: int| !occurs_at(a@, b@, j) by {
        if 0 <= j && j + b@.len() <= a@.len() {
            assert(j < i);
        }
    }
    false
}

/// Decimal digits of `n`, without leading zeros.
pub open spec fn dec_chars(n: nat) -> Seq<char>
    decreases n,
{
    if n < 10 {
        seq![(48 + n) as char]
    } else {
        dec_chars(n / 10) + seq![(48 + n % 10) as char]
    }
}

/// Append `n` in decimal.
pub fn push_decimal(s: &mut String, n: u64)
    ensures
        final(s)@ == old(s)@ + dec_chars(n as nat),
    decreases n,
{
    if n < 10 {
        let c: char = if n == 0 { '0' } else if n == 1 { '1' } else if n == 2 { '2' } else if n == 3 {
            '3'
        } else if n == 4 { '4' } else if n == 5 { '5' } else if n == 6 { '6' } else if n == 7 {
            '7'
        } else if n == 8 { '8' } else { '9' };
        push_char(s, c);
    } else {
        push_decimal(s, n / 10);
        let d: u64 = n % 10;
        let c: char = if d == 0 { '0' } else if d == 1 { '1' } else if d == 2 { '2' } else if d == 3 {
            '3'
        } else if d == 4 { '4' } else if d == 5 { '5' } else if d == 6 { '6' } else if d == 7 {
            '7'
        } else if d == 8 { '8' } else { '9' };
        push_char(s, c);
    }
}

/// `n` in decimal.
pub fn decimal_string(n: u64) -> (r: String)
    ensures
        r@ == dec_chars(n as nat),
{
    let mut s = String::new();
    push_decimal(&mut s, n);
    s
}

/// Signed decimal text of `n` (what `i64::to_string` writes).
pub open spec fn signed_dec_chars(n: int) -> Seq<char> {
    if n < 0 {
        seq!['-'] + dec_chars((-n) as nat)
    } else {
        dec_chars(n as nat)
    }
}

/// `n` in signed decimal.
pub fn signed_decimal_string(n: i64) -> (r: String)
    ensures
        r@ == signed_dec_chars(n as int),
{
    let mut s = String::new();
    if n < 0 {
        push_char(&mut s, '-');
        let m: u64 = if n == i64::MIN { 9223372036854775808u64 } else { (-n) as u64 };
        push_decimal(&mut s, m);
    } else {
        push_decimal(&mut s, n as u64);
    }
    s
}


/// `s` without the copies of `c` at its end.
pub open spec fn trim_end_char(s: Seq<char>, c: char) -> Seq<char>
    decreases s.len(),
{
    if s.len() > 0 && s.last() == c {
        trim_end_char(s.drop_last(), c)
    } else {
        s
    }
}

/// `str::trim_end_matches(c).to_string()` for one character.
pub fn trim_end_matches_char(s: &str, c: char) -> (r: String)
    ensures
        r@ == trim_end_char(s@, c),
{
    let cs = chars_of(s);
    let mut end: usize = cs.len();
    assert(cs@.subrange(0, end as int) =~= cs@);
    while end > 0 && cs[end - 1] == c
        invariant
            end <= cs@.len(),
            cs@ == s@,
            trim_end_char(s@, c) == trim_end_char(cs@.subrange(0, end as int), c),
        decreases end,
    {
        assert(cs@.subrange(0, end as int).drop_last() =~= cs@.subrange(0, end - 1));
        end = end - 1;
    }
    string_from_chars(cs.as_slice(), 0, end)
}


/// `s` with every leading copy of `p` removed (`str::trim_start_matches`).
pub open spec fn strip_prefixes(s: Seq<char>, p: Seq<char>) -> Seq<char>
    decreases s.len(),
{
    if p.len() > 0 && has_prefix(s, p) {
        strip_prefixes(s.subrange(p.len() as int, s.len() as int), p)
    } else {
        s
    }
}

/// `s.trim_start_matches(p).to_string()`.
pub fn trim_start_matches_str(s: &str, p: &str) -> (r: String)
    ensures
        r@ == strip_prefixes(s@, p@),
{
    let a = chars_of(s);
    let b = chars_of(p);
    let n: usize = a.len();
    let mut i: usize = 0;
    assert(a@.subrange(0, n as int) =~= a@);
    if b.len() > 0 {
        while b.len() <= n - i && occurs_at_exec(&a, &b, i)
            invariant
                i <= n,
                n == a@.len(),
                a@ == s@,
                b@ == p@,
                b@.len() > 0,
                strip_prefixes(s@, p@) == strip_prefixes(a@.subrange(i as int, n as int), p@),
            decreases n - i,
        {
            let ghost rest = a@.subrange(i as int, n as int);
            assert(rest.subrange(0, b@.len() as int) =~= a@.subrange(i as int, i + b@.len()));
            assert(rest.subrange(b@.len() as int, rest.len() as int) =~= a@.subrange(i + b@.len(), n as int));
            i = i + b.len();
        }
        proof {
            let rest = a@.subrange(i as int, n as int);
            if i + b@.len() <= n {
                assert(rest.subrange(0, b@.len() as int) =~= a@.subrange(i as int, i + b@.len()));
            }
        }
    }
    string_from_chars(a.as_slice(), i, n)
}


/// First position at or after `from` where `needle` occurs in `s`.
pub open spec fn find_chars(s: Seq<char>, needle: Seq<char>, from: nat) -> Option<nat>
    decreases s.len() + 1 - from,
{
    if from + needle.len() > s.len() {
        None
    } else if occurs_at(s, needle, from as int) {
        Some(from)
    } else {
        find_chars(s, needle, from + 1)
    }
}

pub proof fn lemma_find_chars(s: Seq<char>, needle: Seq<char>, from: nat)
    ensures
        find_chars(s, needle, from) matches Some(p) ==> from <= p && p + needle.len() <= s.len()
            && occurs_at(s, needle, p as int),
    decreases s.len() + 1 - from,
{
    if from + needle.len() <= s.len() && !occurs_at(s, needle, from as int) {
        lemma_find_chars(s, needle, from + 1);
    }
}

/// First position at or after `from` where `needle` occurs in `s`.
pub fn find_in(s: &Vec<char>, needle: &Vec<char>, from: usize) -> (r: Option<usize>)
    ensures
        match r {
            Some(p) => find_chars(s@, needle@, from as nat) == Some(p as nat),
            None => find_chars(s@, needle@, from as nat) is None,
        },
{
    let n: usize = s.len();
    if needle.len() == 0 {
        if from <= n {
            assert(s@.subrange(from as int, from as int) =~= needle@);
            return Some(from);
        }
        return None;
    }
    let mut i: usize = from;
    while i < n && needle.len() <= n - i
        invariant
            from <= i,
            n == s@.len(),
            needle@.len() > 0,
            find_chars(s@, needle@, from as nat) == find_chars(s@, needle@, i as nat),
        decreases n - i,
    {
        if occurs_at_exec(s, needle, i) {
            return Some(i);
        }
        i = i + 1;
    }
    None
}

/// `s` with each match of `from` at or after `i`, left to right and not
/// overlapping, replaced by `to` (`str::replace` for a non-empty pattern).
pub open spec fn replace_from(s: Seq<char>, from: Seq<char>, to: Seq<char>, i: nat) -> Seq<char>
    decreases s.len() - i,
{
    if i >= s.len() {
        Seq::empty()
    } else if from.len() > 0 && occurs_at(s, from, i as int) {
        to + replace_from(s, from, to, i + from.len())
    } else {
        seq![s[i as int]] + replace_from(s, from, to, i + 1)
    }
}

/// `s.replace(from, to)`, for a non-empty `from`.
pub fn replace_all(s: &str, from: &str, to: &str) -> (r: String)
    requires
        from@.len() > 0,
    ensures
        r@ == replace_from(s@, from@, to@, 0),
{
    let a = chars_of(s);
    let b = chars_of(from);
    let n: usize = a.len();
    let mut out = String::new();
    let mut i: usize = 0;
    while i < n
        invariant
            i <= n,
            n == a@.len(),
            a@ == s@,
            b@ == from@,
            b@.len() > 0,
            out@ + replace_from(s@, from@, to@, i as nat) == replace_from(s@, from@, to@, 0),
        decreases n - i,
    {
        if b.len() <= n - i && occurs_at_exec(&a, &b, i) {
            push_str(&mut out, to);
            i = i + b.len();
        } else {
            push_char(&mut out, a[i]);
            i = i + 1;
        }
    }
    assert(out@ + replace_from(s@, from@, to@, i as nat) =~= out@);
    out
}

/// `s.trim_end().to_string()`.
pub fn trim_end_string(s: &str) -> (r: String)
    ensures
        r@ == trim_end(s@),
{
    let cs = chars_of(s);
    let mut end: usize = cs.len();
    assert(cs@.subrange(0, end as int) =~= cs@);
    while end > 0 && is_whitespace(cs[end - 1])
        invariant
            end <= cs@.len(),
            cs@ == s@,
            trim_end(s@) == trim_end(cs@.subrange(0, end as int)),
        decreases end,
    {
        assert(cs@.subrange(0, end as int).drop_last() =~= cs@.subrange(0, end - 1));
        end = end - 1;
    }
    string_from_chars(cs.as_slice(), 0, end)
}

/// `s` with every trailing copy of `p` removed (`str::trim_end_matches`).
pub open spec fn strip_suffixes(s: Seq<char>, p: Seq<char>) -> Seq<char>
    decreases s.len(),
{
    if p.len() > 0 && has_suffix(s, p) {
        strip_suffixes(s.subrange(0, s.len() - p.len()), p)
    } else {
        s
    }
}

/// `s.trim_end_matches(p).to_string()`.
pub fn trim_end_matches_str(s: &str, p: &str) -> (r: String)
    ensures
        r@ == strip_suffixes(s@, p@),
{
    let a = chars_of(s);
    let b = chars_of(p);
    let mut end: usize = a.len();
    assert(a@.subrange(0, end as int) =~= a@);
    if b.len() > 0 {
        while b.len() <= end && occurs_at_exec(&a, &b, end - b.len())
            invariant
                end <= a@.len(),
                a@ == s@,
                b@ == p@,
                b@.len() > 0,
                strip_suffixes(s@, p@) == strip_suffixes(a@.subrange(0, end as int), p@),
            decreases end,
        {
            let ghost rest = a@.subrange(0, end as int);
            assert(rest.subrange(rest.len() - b@.len(), rest.len() as int) =~= a@.subrange(
                end - b@.len(),
                end as int,
            ));
            assert(rest.subrange(0, rest.len() - b@.len()) =~= a@.subrange(0, end - b@.len()));
            end = end - b.len();
        }
        proof {
            let rest = a@.subrange(0, end as int);
            if b@.len() <= end {
                assert(rest.subrange(rest.len() - b@.len(), rest.len() as int) =~= a@.subrange(
                    end - b@.len(),
                    end as int,
                ));
            }
        }
    }
    string_from_chars(a.as_slice(), 0, end)
}

/// Decimal digits of `n`, zero-padded on the left to `w` characters.
pub open spec fn pad_dec_chars(n: nat, w: nat) -> Seq<char> {
    if dec_chars(n).len() < w {
        Seq::new((w - dec_chars(n).len()) as nat, |i: int| '0') + dec_chars(n)
    } else {
        dec_chars(n)
    }
}

/// Append `n` in decimal, zero-padded to `w` characters (`{:0w$}`).
pub fn push_decimal_padded(s: &mut String, n: u64, w: usize)
    ensures
        final(s)@ == old(s)@ + pad_dec_chars(n as nat, w as nat),
{
    let d = decimal_string(n);
    let len: usize = d.as_str().unicode_len();
    let ghost start = s@;
    if len < w {
        let mut i: usize = 0;
        while i < w - len
            invariant
                i <= w - len,
                len < w,
                len == dec_chars(n as nat).len(),
                s@ == start + Seq::new(i as nat, |k: int| '0'),
            decreases w - len - i,
        {
            push_char(s, '0');
            assert(start + Seq::new((i + 1) as nat, |k: int| '0') =~= start + Seq::new(i as nat, |k: int| '0') + seq!['0']);
            i = i + 1;
        }
    }
    push_str(s, d.as_str());
    assert(s@ =~= start + pad_dec_chars(n as nat, w as nat));
}

} // verus!
