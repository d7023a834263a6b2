//! File-name and base64 helpers.

use vstd::prelude::*;
use crate::crypto::{b64_decode, b64_encode, base64_bytes, base64_text};
use crate::ofd_parser::last_index_of;
use crate::text::{chars_of, push_str, string_from_chars, string_of};

verus! {

/// Extension of a file name: after its last `.` (empty when it has none).
pub open spec fn extension_of(name: Seq<char>) -> Seq<char> {
    match last_index_of(name, '.', name.len()) {
        Some(k) => name.subrange(k + 1int, name.len() as int),
        None => Seq::empty(),
    }
}

/// A file name without its extension: before its last `.`.
pub open spec fn stem_of(name: Seq<char>) -> Seq<char> {
    match last_index_of(name, '.', name.len()) {
        Some(k) => name.take(k as int),
        None => name,
    }
}

fn last_dot(cs: &Vec<char>) -> (r: Option<usize>)
    ensures
        match r {
            Some(k) => last_index_of(cs@, '.', cs@.len()) == Some(k as nat) && k < cs@.len(),
            None => last_index_of(cs@, '.', cs@.len()) is None,
        },
{
    let mut end: usize = cs.len();
    while end > 0
        invariant
            end <= cs@.len(),
            last_index_of(cs@, '.', cs@.len()) == last_index_of(cs@, '.', end as nat),
        decreases end,
    {
        if cs[end - 1] == '.' {
            return Some(end - 1);
        }
        end = end - 1;
    }
    None
}

/// Extension of a file name (see `extension_of`).
pub fn file_extension(file_name: &str) -> (r: String)
    ensures
        r@ == extension_of(file_name@),
{
    let cs = chars_of(file_name);
    let n: usize = cs.len();
    match last_dot(&cs) {
        Some(k) => string_from_chars(cs.as_slice(), k + 1, n),
        None => String::new(),
    }
}

/// A file name without its extension (see `stem_of`).
pub fn file_stem(file_name: &str) -> (r: String)
    ensures
        r@ == stem_of(file_name@),
{
    let cs = chars_of(file_name);
    match last_dot(&cs) {
        Some(k) => {
            let r = string_from_chars(cs.as_slice(), 0, k);
            assert(r@ =~= cs@.take(k as int));
            r
        },
        None => string_of(file_name),
    }
}

/// Standard base64 text of some bytes.
pub fn bytes_to_base64(data: &[u8]) -> (r: String)
    ensures
        r@ == base64_text(data@),
        base64_bytes(r@) == Some(data@),
{
    b64_encode(data)
}

/// Bytes of a standard base64 text; the error says decoding failed and why.
pub fn base64_to_bytes(s: &str) -> (r: Result<Vec<u8>, String>)
    ensures
        match base64_bytes(s@) {
            Some(v) => r is Ok && r->Ok_0@ == v,
            None => r is Err && exists|why: Seq<char>| r->Err_0@ == "base64 解码失败: "@ + why,
        },
{
    match b64_decode(s) {
        Ok(v) => Ok(v),
        Err(e) => {
            let mut msg = string_of("base64 解码失败: ");
            push_str(&mut msg, e.as_str());
            Err(msg)
        },
    }
}

} // verus!
