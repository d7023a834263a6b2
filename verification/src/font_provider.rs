//! Which registered font stands in for a Chinese font that a PDF names.

use vstd::prelude::*;
use crate::font_embed::{lowercase_of, to_lowercase};
use crate::text::{contains, contains_str, str_eq, string_of};

verus! {

/// The family (`song`, `hei` or `kai`) registered for a font name, by its
/// lower-case form: known names first, then keywords.
pub open spec fn substitute_family(font_face: Seq<char>) -> Option<Seq<char>> {
    let l = lowercase_of(font_face);
    if l == "stsong-light"@ || l == "stsong-light-regular"@ || l == "stsong"@ || l == "simsun"@
        || l == "simsun-extb"@ || l == "nsimsun"@ || l == "songti-sc"@ || l == "songti-sc-regular"@
        || l == "fangsong"@ || l == "fangsong-regular"@ || l == "stfangsong"@ {
        Some("song"@)
    } else if l == "stheiti"@ || l == "stheiti-regular"@ || l == "stheiti-light"@ || l == "simhei"@
        || l == "heiiti-sc"@ || l == "heiiti-sc-medium"@ || l == "microsoftyahei"@ || l
        == "microsoftyaheiui"@ {
        Some("hei"@)
    } else if l == "stkaiti"@ || l == "stkaiti-regular"@ || l == "kaiti-sc"@ || l == "kaiti-sc-regular"@
        || l == "kaiti"@ {
        Some("kai"@)
    } else if l == "notosanssc"@ || l == "notosanssc-regular"@ || l == "notoserifsc"@ || l
        == "sourcehansanssc"@ || l == "sourcehansanssc-regular"@ || l == "wenquanyimicrohei"@ || l
        == "wenquanyizenhei"@ {
        Some("song"@)
    } else if contains_str(l, "song"@) {
        Some("song"@)
    } else if contains_str(l, "hei"@) {
        Some("hei"@)
    } else if contains_str(l, "kai"@) {
        Some("kai"@)
    } else if contains_str(l, "cjk"@) || contains_str(l, "gb"@) || contains_str(l, "big5"@)
        || contains_str(l, "cn"@) || contains_str(l, "chinese"@) {
        Some("song"@)
    } else {
        None
    }
}

fn is_any(l: &str, names: &[&str]) -> (r: bool)
    ensures
        r == exists|i: int| 0 <= i < names@.len() && l@ == #[trigger] names@[i]@,
{
    let mut i: usize = 0;
    while i < names.len()
        invariant
            i <= names@.len(),
            forall|j: int| 0 <= j < i ==> l@ != #[trigger] names@[j]@,
        decreases names@.len() - i,
    {
        if str_eq(l, names[i]) {
            return true;
        }
        i = i + 1;
    }
    false
}

/// The family registered for a font name (see `substitute_family`).
pub fn map_font_name(font_face: &str) -> (r: Option<String>)
    ensures
        match substitute_family(font_face@) {
            Some(f) => r is Some && r->Some_0@ == f,
            None => r is None,
        },
{
    let lower = to_lowercase(font_face);
    let l = lower.as_str();
    let song = ["stsong-light", "stsong-light-regular", "stsong", "simsun", "simsun-extb", "nsimsun", "songti-sc",
        "songti-sc-regular", "fangsong", "fangsong-regular", "stfangsong"];
    let hei = ["stheiti", "stheiti-regular", "stheiti-light", "simhei", "heiiti-sc", "heiiti-sc-medium",
        "microsoftyahei", "microsoftyaheiui"];
    let kai = ["stkaiti", "stkaiti-regular", "kaiti-sc", "kaiti-sc-regular", "kaiti"];
    let generic = ["notosanssc", "notosanssc-regular", "notoserifsc", "sourcehansanssc", "sourcehansanssc-regular",
        "wenquanyimicrohei", "wenquanyizenhei"];
    if is_any(l, song.as_slice()) {
        return Some(string_of("song"));
    }
    if is_any(l, hei.as_slice()) {
        return Some(string_of("hei"));
    }
    if is_any(l, kai.as_slice()) {
        return Some(string_of("kai"));
    }
    if is_any(l, generic.as_slice()) {
        return Some(string_of("song"));
    }
    if contains(l, "song") {
        return Some(string_of("song"));
    }
    if contains(l, "hei") {
        return Some(string_of("hei"));
    }
    if contains(l, "kai") {
        return Some(string_of("kai"));
    }
    if contains(l, "cjk") || contains(l, "gb") || contains(l, "big5") || contains(l, "cn") || contains(
        l,
        "chinese",
    ) {
        return Some(string_of("song"));
    }
    None
}

} // verus!
