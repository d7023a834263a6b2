//! The parts of an OFD document model that are plain data: document info,
//! fonts and their CSS families, colours, and the path helpers used while
//! reading the package.

use vstd::prelude::*;
use crate::font_embed::{utf8_lossy, utf8_lossy_of};
use crate::text::{chars_of, dec_chars, push_char, push_decimal, push_str, str_eq, string_from_chars, string_of};

pub mod alpha;
pub mod xml;
pub mod manifest;

use crate::ofd_parser::alpha::{alpha_str, alpha_text};

verus! {

/// Document information.
#[derive(Debug, Clone)]
pub struct OfdDocInfo {
    pub title: String,
    pub author: String,
    pub creator: String,
}

impl Default for OfdDocInfo {
    fn default() -> (r: Self)
        ensures
            r.title@.len() == 0,
            r.author@.len() == 0,
            r.creator@.len() == 0,
    {
        OfdDocInfo { title: String::new(), author: String::new(), creator: String::new() }
    }
}

/// A font resource: its id and family name.
#[derive(Debug, Clone)]
pub struct OfdFont {
    pub id: String,
    pub family: String,
}

/// An RGBA colour.
#[derive(Debug, Clone, Copy, PartialEq, Eq, Structural)]
pub struct OfdColor {
    pub r: u8,
    pub g: u8,
    pub b: u8,
    pub a: u8,
}

/// CSS text of a colour: `rgb(r,g,b)` when opaque, else
/// `rgba(r,g,b,alpha)` with `alpha = a / 255`.
pub open spec fn css_of(c: OfdColor) -> Seq<char> {
    if c.a == 255 {
        "rgb("@ + dec_chars(c.r as nat) + ","@ + dec_chars(c.g as nat) + ","@ + dec_chars(c.b as nat) + ")"@
    } else {
        "rgba("@ + dec_chars(c.r as nat) + ","@ + dec_chars(c.g as nat) + ","@ + dec_chars(c.b as nat) + ","@
            + alpha_text(c.a) + ")"@
    }
}

impl OfdColor {
    /// Opaque black.
    pub fn black() -> (r: OfdColor)
        ensures
            r == (OfdColor { r: 0, g: 0, b: 0, a: 255 }),
    {
        OfdColor { r: 0, g: 0, b: 0, a: 255 }
    }

    /// Opaque white.
    pub fn white() -> (r: OfdColor)
        ensures
            r == (OfdColor { r: 255, g: 255, b: 255, a: 255 }),
    {
        OfdColor { r: 255, g: 255, b: 255, a: 255 }
    }

    /// Opaque red.
    pub fn red() -> (r: OfdColor)
        ensures
            r == (OfdColor { r: 255, g: 0, b: 0, a: 255 }),
    {
        OfdColor { r: 255, g: 0, b: 0, a: 255 }
    }

    /// CSS text of the colour (see `css_of`).
    pub fn to_css(&self) -> (r: String)
        ensures
            r@ == css_of(*self),
    {
        let mut s = if self.a == 255 {
            string_of("rgb(")
        } else {
            string_of("rgba(")
        };
        push_decimal(&mut s, self.r as u64);
        push_str(&mut s, ",");
        push_decimal(&mut s, self.g as u64);
        push_str(&mut s, ",");
        push_decimal(&mut s, self.b as u64);
        if self.a != 255 {
            push_str(&mut s, ",");
            push_str(&mut s, alpha_str(self.a));
        }
        push_str(&mut s, ")");
        s
    }
}

/// CSS font stack for an OFD font name; unknown names are used as given.
pub open spec fn font_stack(f: Seq<char>) -> Seq<char> {
    if f == "SimSun"@ || f == "宋体"@ || f == "simsun"@ {
        "\"SimSun\", \"Songti SC\", \"Noto Serif CJK SC\", serif"@
    } else if f == "SimHei"@ || f == "黑体"@ || f == "simhei"@ {
        "\"SimHei\", \"Heiti SC\", \"Noto Sans CJK SC\", sans-serif"@
    } else if f == "KaiTi"@ || f == "楷体"@ || f == "kaiti"@ {
        "\"KaiTi\", \"Kaiti SC\", \"STKaiti\", serif"@
    } else if f == "FangSong"@ || f == "仿宋"@ || f == "fangsong"@ {
        "\"FangSong\", \"Fangsong SC\", \"STFangsong\", serif"@
    } else if f == "SimLi"@ || f == "隶书"@ {
        "\"SimLi\", \"LiSu\", \"STLiti\", serif"@
    } else if f == "SimYou"@ || f == "幼圆"@ {
        "\"SimYou\", \"YouYuan\", cursive"@
    } else if f == "Microsoft YaHei"@ || f == "微软雅黑"@ {
        "\"Microsoft YaHei\", \"PingFang SC\", \"Noto Sans CJK SC\", sans-serif"@
    } else if f == "Arial"@ {
        "\"Arial\", sans-serif"@
    } else if f == "Times New Roman"@ {
        "\"Times New Roman\", serif"@
    } else if f == "Courier New"@ {
        "\"Courier New\", monospace"@
    } else {
        f
    }
}

/// CSS font stack for an OFD font name (see `font_stack`).
pub fn map_font_family(ofd_font: &str) -> (r: String)
    ensures
        r@ == font_stack(ofd_font@),
{
    let f = ofd_font;
    let mapped: &str = if str_eq(f, "SimSun") || str_eq(f, "宋体") || str_eq(f, "simsun") {
        "\"SimSun\", \"Songti SC\", \"Noto Serif CJK SC\", serif"
    } else if str_eq(f, "SimHei") || str_eq(f, "黑体") || str_eq(f, "simhei") {
        "\"SimHei\", \"Heiti SC\", \"Noto Sans CJK SC\", sans-serif"
    } else if str_eq(f, "KaiTi") || str_eq(f, "楷体") || str_eq(f, "kaiti") {
        "\"KaiTi\", \"Kaiti SC\", \"STKaiti\", serif"
    } else if str_eq(f, "FangSong") || str_eq(f, "仿宋") || str_eq(f, "fangsong") {
        "\"FangSong\", \"Fangsong SC\", \"STFangsong\", serif"
    } else if str_eq(f, "SimLi") || str_eq(f, "隶书") {
        "\"SimLi\", \"LiSu\", \"STLiti\", serif"
    } else if str_eq(f, "SimYou") || str_eq(f, "幼圆") {
        "\"SimYou\", \"YouYuan\", cursive"
    } else if str_eq(f, "Microsoft YaHei") || str_eq(f, "微软雅黑") {
        "\"Microsoft YaHei\", \"PingFang SC\", \"Noto Sans CJK SC\", sans-serif"
    } else if str_eq(f, "Arial") {
        "\"Arial\", sans-serif"
    } else if str_eq(f, "Times New Roman") {
        "\"Times New Roman\", serif"
    } else if str_eq(f, "Courier New") {
        "\"Courier New\", monospace"
    } else {
        f
    };
    string_of(mapped)
}

// ------------------------------------------------------------
// Names and paths in the package
// ------------------------------------------------------------

/// Position of the last `c` in `s` before `end`, if any.
pub open spec fn last_index_of(s: Seq<char>, c: char, end: nat) -> Option<nat>
    decreases end,
{
    if end == 0 {
        None
    } else if s[end - 1] == c {
        Some((end - 1) as nat)
    } else {
        last_index_of(s, c, (end - 1) as nat)
    }
}

fn last_index_exec(cs: &Vec<char>, c: char) -> (r: Option<usize>)
    ensures
        match r {
            Some(k) => last_index_of(cs@, c, cs@.len()) == Some(k as nat) && k < cs@.len(),
            None => last_index_of(cs@, c, cs@.len()) is None,
        },
{
    let mut end: usize = cs.len();
    while end > 0
        invariant
            end <= cs@.len(),
            last_index_of(cs@, c, cs@.len()) == last_index_of(cs@, c, end as nat),
        decreases end,
    {
        if cs[end - 1] == c {
            return Some(end - 1);
        }
        end = end - 1;
    }
    None
}

/// Local part of an XML name: what follows its last `:`.
pub open spec fn local_part(s: Seq<char>) -> Seq<char> {
    match last_index_of(s, ':', s.len()) {
        Some(k) => s.subrange(k + 1int, s.len() as int),
        None => s,
    }
}

/// Local name of an XML element or attribute name (its bytes read as UTF-8,
/// invalid sequences replaced).
pub fn local_name(name: &[u8]) -> (r: String)
    ensures
        r@ == local_part(utf8_lossy_of(name@)),
{
    let s = utf8_lossy(name);
    let cs = chars_of(s.as_str());
    let n: usize = cs.len();
    match last_index_exec(&cs, ':') {
        Some(k) => string_from_chars(cs.as_slice(), k + 1, n),
        None => s,
    }
}

/// Directory of a path: before its last `/` (empty when it has none).
pub open spec fn parent_of(path: Seq<char>) -> Seq<char> {
    match last_index_of(path, '/', path.len()) {
        Some(k) => path.take(k as int),
        None => Seq::empty(),
    }
}

/// Directory of a package path (see `parent_of`).
pub fn parent_dir(path: &str) -> (r: String)
    ensures
        r@ == parent_of(path@),
{
    let cs = chars_of(path);
    match last_index_exec(&cs, '/') {
        Some(k) => {
            let r = string_from_chars(cs.as_slice(), 0, k);
            assert(r@ =~= cs@.take(k as int));
            r
        },
        None => String::new(),
    }
}

/// A page reference resolved against the document's directory: absolute
/// references lose their leading `/`.
pub open spec fn resolved_path(base_dir: Seq<char>, page_ref: Seq<char>) -> Seq<char> {
    if page_ref.len() > 0 && page_ref[0] == '/' {
        page_ref.drop_first()
    } else if base_dir.len() == 0 {
        page_ref
    } else {
        base_dir + "/"@ + page_ref
    }
}

/// Resolve a page reference (see `resolved_path`).
pub fn resolve_page_path(base_dir: &str, page_ref: &str) -> (r: String)
    ensures
        r@ == resolved_path(base_dir@, page_ref@),
{
    let pcs = chars_of(page_ref);
    if pcs.len() > 0 && pcs[0] == '/' {
        let r = string_from_chars(pcs.as_slice(), 1, pcs.len());
        assert(r@ =~= pcs@.drop_first());
        return r;
    }
    let bcs = chars_of(base_dir);
    if bcs.len() == 0 {
        return string_of(page_ref);
    }
    let mut r = string_of(base_dir);
    push_char(&mut r, '/');
    push_str(&mut r, page_ref);
    proof {
        reveal_strlit("/");
    }
    assert(r@ =~= base_dir@ + "/"@ + page_ref@);
    r
}

} // verus!
