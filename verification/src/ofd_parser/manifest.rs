//! What an OFD package's XML parts list: the pages of a document, the fonts
//! and media of a resource file, and where each page keeps its annotations.
//! Each reader runs over the part's XML events as a small state machine.

use vstd::prelude::*;
use vstd::string::StrSliceExecFns;
use crate::ofd_parser::{parent_dir, parent_of, OfdFont};
use crate::ofd_parser::xml::{
    attr_of, attr_val, end_name_of, is_error, items_of, lemma_read_len, opt_chars, readable, tag_name, tag_name_of,
    xml_event_items, xml_events,
    XmlEvent, XmlItem,
};
use crate::ofd_parser::local_name;
use crate::text::{parse_u32, parse_u32_str, push_str, str_eq, string_of, trim, trim_string};

verus! {

/// A string, or `d` where there is none.
pub open spec fn or_default(o: Option<Seq<char>>, d: Seq<char>) -> Seq<char> {
    match o {
        Some(s) => s,
        None => d,
    }
}

/// `name` inside the directory `base` (just `name` when `base` is empty).
pub open spec fn in_dir(base: Seq<char>, name: Seq<char>) -> Seq<char> {
    if base.len() == 0 {
        name
    } else {
        base + "/"@ + name
    }
}

// ------------------------------------------------------------------
// Document.xml: pages, resource file, annotation index
// ------------------------------------------------------------------

/// What has been read of a document's manifest.
pub struct ManifestState {
    pub pages: Seq<(u32, Seq<char>)>,
    pub in_pages: bool,
    pub in_common: bool,
    /// The element whose text is awaited: 1 `PublicRes`, 2 `DocumentRes`,
    /// 3 `Annotations`, 0 none.
    pub current: u8,
    pub document_res: Option<Seq<char>>,
    pub annotations: Option<Seq<char>>,
}

/// Nothing read yet.
pub open spec fn manifest_start() -> ManifestState {
    ManifestState {
        pages: Seq::empty(),
        in_pages: false,
        in_common: false,
        current: 0,
        document_res: None,
        annotations: None,
    }
}

/// Id of a `Page` tag: its `ID` read as `u32`, else 0.
pub open spec fn page_id_of(c: Seq<u8>, n: usize) -> u32 {
    match attr_of(c, n, "ID"@) {
        Some(s) => match parse_u32(s) {
            Some(v) => v,
            None => 0,
        },
        None => 0,
    }
}

/// A `Page` tag adds its id and `BaseLoc`, where it has a `BaseLoc`.
pub open spec fn with_page(s: ManifestState, c: Seq<u8>, n: usize) -> ManifestState {
    match attr_of(c, n, "BaseLoc"@) {
        Some(loc) => ManifestState { pages: s.pages.push((page_id_of(c, n), loc)), ..s },
        None => s,
    }
}

/// One event of Document.xml.
pub open spec fn manifest_step(s: ManifestState, e: XmlItem) -> ManifestState {
    match e {
        XmlItem::Start(c, n) => {
            let t = tag_name_of(c, n);
            if t == "Pages"@ {
                ManifestState { in_pages: true, ..s }
            } else if t == "CommonData"@ {
                ManifestState { in_common: true, ..s }
            } else if t == "Page"@ && s.in_pages {
                with_page(s, c, n)
            } else if t == "PublicRes"@ && s.in_common {
                ManifestState { current: 1, ..s }
            } else if t == "DocumentRes"@ && s.in_common {
                ManifestState { current: 2, ..s }
            } else if t == "Annotations"@ {
                ManifestState { current: 3, ..s }
            } else {
                s
            }
        },
        XmlItem::Empty(c, n) => {
            if tag_name_of(c, n) == "Page"@ && s.in_pages {
                with_page(s, c, n)
            } else {
                s
            }
        },
        XmlItem::Text(t) => {
            if s.current == 2 {
                ManifestState { document_res: Some(trim(t)), ..s }
            } else if s.current == 3 {
                ManifestState { annotations: Some(trim(t)), ..s }
            } else {
                s
            }
        },
        XmlItem::End(b) => {
            let t = end_name_of(b);
            if t == "Pages"@ {
                ManifestState { in_pages: false, ..s }
            } else if t == "CommonData"@ {
                ManifestState { in_common: false, ..s }
            } else if t == "PublicRes"@ || t == "DocumentRes"@ || t == "Annotations"@ {
                ManifestState { current: 0, ..s }
            } else {
                s
            }
        },
        XmlItem::Other | XmlItem::Error => s,
    }
}

/// The state after a list of events.
pub open spec fn manifest_scan(items: Seq<XmlItem>) -> ManifestState
    decreases items.len(),
{
    if items.len() == 0 {
        manifest_start()
    } else {
        manifest_step(manifest_scan(items.drop_last()), items.last())
    }
}

/// What a document's manifest gives: its pages (id, location) in order, the
/// resource file (the `DocumentRes` named, else `DocumentRes.xml` beside
/// Document.xml) and the annotation index named, if any.
pub open spec fn document_manifest(doc_root: Seq<char>, items: Seq<XmlItem>) -> (
    Seq<(u32, Seq<char>)>,
    Option<Seq<char>>,
    Option<Seq<char>>,
) {
    let s = manifest_scan(readable(items));
    (s.pages, Some(or_default(s.document_res, in_dir(parent_of(doc_root), "DocumentRes.xml"@))), s.annotations)
}

/// Pages as plain values.
pub open spec fn page_items(v: Seq<(u32, String)>) -> Seq<(u32, Seq<char>)> {
    v.map_values(|p: (u32, String)| (p.0, p.1@))
}

/// A manifest as plain values.
pub open spec fn manifest_items(r: (Vec<(u32, String)>, Option<String>, Option<String>)) -> (
    Seq<(u32, Seq<char>)>,
    Option<Seq<char>>,
    Option<Seq<char>>,
) {
    (page_items(r.0@), opt_chars(r.1), opt_chars(r.2))
}

struct ManifestScan {
    pages: Vec<(u32, String)>,
    in_pages: bool,
    in_common: bool,
    current: u8,
    document_res: Option<String>,
    annotations: Option<String>,
}

impl View for ManifestScan {
    type V = ManifestState;

    closed spec fn view(&self) -> ManifestState {
        ManifestState {
            pages: page_items(self.pages@),
            in_pages: self.in_pages,
            in_common: self.in_common,
            current: self.current,
            document_res: opt_chars(self.document_res),
            annotations: opt_chars(self.annotations),
        }
    }
}

/// The entry a `Page` tag adds, if any (see `with_page`).
fn page_of(c: &Vec<u8>, n: usize) -> (r: Option<(u32, String)>)
    ensures
        match r {
            Some(p) => attr_of(c@, n, "BaseLoc"@) == Some(p.1@) && p.0 == page_id_of(c@, n),
            None => attr_of(c@, n, "BaseLoc"@) is None,
        },
{
    match attr_val(c, n, "BaseLoc") {
        Some(loc) => {
            let id: u32 = match attr_val(c, n, "ID") {
                Some(s) => match parse_u32_str(s.as_str()) {
                    Some(v) => v,
                    None => 0,
                },
                None => 0,
            };
            Some((id, loc))
        },
        None => None,
    }
}

fn manifest_step_exec(st: &mut ManifestScan, e: &XmlEvent)
    ensures
        final(st)@ == manifest_step(old(st)@, e@),
{
    match e {
        XmlEvent::Start(c, n) => {
            let t = tag_name(c, *n);
            let t = t.as_str();
            if str_eq(t, "Pages") {
                st.in_pages = true;
            } else if str_eq(t, "CommonData") {
                st.in_common = true;
            } else if str_eq(t, "Page") && st.in_pages {
                if let Some(p) = page_of(c, *n) {
                    st.pages.push(p);
                    assert(page_items(st.pages@) =~= page_items(old(st).pages@).push((p.0, p.1@)));
                }
            } else if str_eq(t, "PublicRes") && st.in_common {
                st.current = 1;
            } else if str_eq(t, "DocumentRes") && st.in_common {
                st.current = 2;
            } else if str_eq(t, "Annotations") {
                st.current = 3;
            }
        },
        XmlEvent::Empty(c, n) => {
            let t = tag_name(c, *n);
            if str_eq(t.as_str(), "Page") && st.in_pages {
                if let Some(p) = page_of(c, *n) {
                    st.pages.push(p);
                    assert(page_items(st.pages@) =~= page_items(old(st).pages@).push((p.0, p.1@)));
                }
            }
        },
        XmlEvent::Text(x) => {
            if st.current == 2 {
                st.document_res = Some(trim_string(x.as_str()));
            } else if st.current == 3 {
                st.annotations = Some(trim_string(x.as_str()));
            }
        },
        XmlEvent::End(b) => {
            let t = local_name(b.as_slice());
            let t = t.as_str();
            if str_eq(t, "Pages") {
                st.in_pages = false;
            } else if str_eq(t, "CommonData") {
                st.in_common = false;
            } else if str_eq(t, "PublicRes") || str_eq(t, "DocumentRes") || str_eq(t, "Annotations") {
                st.current = 0;
            }
        },
        _ => {},
    }
}

/// `dir/name`, or `name` when `dir` is empty (see `in_dir`).
fn join_dir(dir: &str, name: &str) -> (r: String)
    ensures
        r@ == in_dir(dir@, name@),
{
    if dir.unicode_len() == 0 {
        return string_of(name);
    }
    let mut r = string_of(dir);
    push_str(&mut r, "/");
    push_str(&mut r, name);
    r
}

/// Read a document's manifest from its events (see `document_manifest`).
pub fn scan_document_manifest(doc_root: &str, events: &Vec<XmlEvent>) -> (r: (
    Vec<(u32, String)>,
    Option<String>,
    Option<String>,
))
    ensures
        manifest_items(r) == document_manifest(doc_root@, items_of(events@)),
{
    let ghost items = items_of(events@);
    let mut st = ManifestScan {
        pages: Vec::new(),
        in_pages: false,
        in_common: false,
        current: 0,
        document_res: None,
        annotations: None,
    };
    assert(page_items(st.pages@) =~= Seq::empty());
    assert(items.take(0) =~= Seq::<XmlItem>::empty());
    let mut i: usize = 0;
    while i < events.len()
        invariant
            i <= events@.len(),
            items == items_of(events@),
            st@ == manifest_scan(items.take(i as int)),
            forall|j: int| 0 <= j < i ==> !(#[trigger] items[j] is Error),
        ensures
            i <= events@.len(),
            st@ == manifest_scan(items.take(i as int)),
            forall|j: int| 0 <= j < i ==> !(#[trigger] items[j] is Error),
            i == items.len() || items[i as int] is Error,
        decreases events.len() - i,
    {
        if is_error(&events[i]) {
            break;
        }
        manifest_step_exec(&mut st, &events[i]);
        assert(items.take(i + 1).drop_last() =~= items.take(i as int));
        i = i + 1;
    }
    proof {
        lemma_read_len(items, i as nat);
    }
    assert(items.take(i as int) =~= readable(items));
    let document_res = match st.document_res {
        Some(d) => d,
        None => {
            let base = parent_dir(doc_root);
            join_dir(base.as_str(), "DocumentRes.xml")
        },
    };
    (st.pages, Some(document_res), st.annotations)
}

/// Read a document's manifest from Document.xml's text.
pub fn read_document_manifest(doc_root: &str, xml: &str) -> (r: (
    Vec<(u32, String)>,
    Option<String>,
    Option<String>,
))
    ensures
        manifest_items(r) == document_manifest(doc_root@, xml_event_items(xml@)),
{
    let events = xml_events(xml);
    scan_document_manifest(doc_root, &events)
}


// ------------------------------------------------------------------
// Resource files: fonts and media
// ------------------------------------------------------------------

/// A media entry: id, type, file.
pub type MediaItem = (Seq<char>, Seq<char>, Seq<char>);

/// What has been read of a resource file.
pub struct ResState {
    pub base_loc: Seq<char>,
    pub entries: Seq<MediaItem>,
    pub in_media: bool,
    pub current: Option<MediaItem>,
    /// Fonts in order: the key they are filed under, the font's id (left
    /// empty) and its family.
    pub fonts: Seq<(Seq<char>, Seq<char>, Seq<char>)>,
}

pub open spec fn res_start() -> ResState {
    ResState { base_loc: Seq::empty(), entries: Seq::empty(), in_media: false, current: None, fonts: Seq::empty() }
}

/// A `Font` tag: filed under its `ID`, its family from `FamilyName`, else
/// `FontName`, else `sans-serif`.
pub open spec fn font_item_of(c: Seq<u8>, n: usize) -> (Seq<char>, Seq<char>, Seq<char>) {
    let family = match attr_of(c, n, "FamilyName"@) {
        Some(f) => f,
        None => or_default(attr_of(c, n, "FontName"@), "sans-serif"@),
    };
    (or_default(attr_of(c, n, "ID"@), Seq::empty()), Seq::empty(), family)
}

/// A `MultiMedia` tag opens an entry: its `ID`, its `Type` (else `Image`),
/// no file yet.
pub open spec fn media_item_of(c: Seq<u8>, n: usize) -> MediaItem {
    (or_default(attr_of(c, n, "ID"@), Seq::empty()), or_default(attr_of(c, n, "Type"@), "Image"@), Seq::empty())
}

/// `Res` sets the base location where it names one.
pub open spec fn with_base_loc(s: ResState, c: Seq<u8>, n: usize) -> ResState {
    match attr_of(c, n, "BaseLoc"@) {
        Some(bl) => ResState { base_loc: bl, ..s },
        None => s,
    }
}

/// One event of a resource file.
pub open spec fn res_step(s: ResState, e: XmlItem) -> ResState {
    match e {
        XmlItem::Start(c, n) => {
            let t = tag_name_of(c, n);
            if t == "Res"@ {
                with_base_loc(s, c, n)
            } else if t == "Font"@ {
                ResState { fonts: s.fonts.push(font_item_of(c, n)), ..s }
            } else if t == "MultiMedia"@ {
                ResState { in_media: true, current: Some(media_item_of(c, n)), ..s }
            } else {
                s
            }
        },
        XmlItem::Empty(c, n) => {
            let t = tag_name_of(c, n);
            if t == "Res"@ {
                with_base_loc(s, c, n)
            } else if t == "Font"@ {
                ResState { fonts: s.fonts.push(font_item_of(c, n)), ..s }
            } else if t == "MultiMedia"@ {
                if media_item_of(c, n).0.len() == 0 {
                    s
                } else {
                    ResState { current: Some(media_item_of(c, n)), ..s }
                }
            } else if t == "MediaFile"@ && s.current is Some {
                let m = s.current->Some_0;
                match attr_of(c, n, "FilePath"@) {
                    Some(fp) => ResState { current: Some((m.0, m.1, fp)), ..s },
                    None => s,
                }
            } else {
                s
            }
        },
        XmlItem::Text(x) => {
            if s.in_media && s.current is Some {
                let m = s.current->Some_0;
                if m.2.len() == 0 && trim(x).len() > 0 {
                    ResState { current: Some((m.0, m.1, trim(x))), ..s }
                } else {
                    s
                }
            } else {
                s
            }
        },
        XmlItem::End(b) => {
            if end_name_of(b) == "MultiMedia"@ {
                let entries = match s.current {
                    Some(m) => if m.0.len() > 0 && m.2.len() > 0 {
                        s.entries.push(m)
                    } else {
                        s.entries
                    },
                    None => s.entries,
                };
                ResState { in_media: false, current: None, entries: entries, ..s }
            } else {
                s
            }
        },
        XmlItem::Other | XmlItem::Error => s,
    }
}

/// The state after a list of events.
pub open spec fn res_scan(items: Seq<XmlItem>) -> ResState
    decreases items.len(),
{
    if items.len() == 0 {
        res_start()
    } else {
        res_step(res_scan(items.drop_last()), items.last())
    }
}

/// The directory media files are found in: the resource file's directory,
/// then the base location, each followed by `/`.
pub open spec fn res_base_dir(file_dir: Seq<char>, base_loc: Seq<char>) -> Seq<char> {
    if base_loc.len() == 0 {
        if file_dir.len() == 0 {
            Seq::empty()
        } else {
            file_dir + "/"@
        }
    } else if file_dir.len() == 0 {
        base_loc + "/"@
    } else {
        file_dir + "/"@ + base_loc + "/"@
    }
}

/// Where a media file lies: absolute paths lose their `/`, others are
/// relative to `base`.
pub open spec fn media_path(base: Seq<char>, file: Seq<char>) -> Seq<char> {
    if file.len() > 0 && file[0] == '/' {
        file.drop_first()
    } else {
        base + file
    }
}

/// ASCII lower case of a character.
pub open spec fn ascii_lower(c: char) -> char {
    if 'A' <= c <= 'Z' {
        ((c as u32) + 32) as char
    } else {
        c
    }
}

/// Whether a media type is `image`, ASCII case ignored.
pub open spec fn is_image_type(t: Seq<char>) -> bool {
    &&& t.len() == 5
    &&& ascii_lower(t[0]) == 'i'
    &&& ascii_lower(t[1]) == 'm'
    &&& ascii_lower(t[2]) == 'a'
    &&& ascii_lower(t[3]) == 'g'
    &&& ascii_lower(t[4]) == 'e'
}

/// The images among the entries, in order: (id, path).
pub open spec fn image_refs(entries: Seq<MediaItem>, base: Seq<char>) -> Seq<(Seq<char>, Seq<char>)>
    decreases entries.len(),
{
    if entries.len() == 0 {
        Seq::empty()
    } else {
        let rest = image_refs(entries.drop_last(), base);
        let m = entries.last();
        if is_image_type(m.1) {
            rest.push((m.0, media_path(base, m.2)))
        } else {
            rest
        }
    }
}

/// What a resource file gives: its fonts in order, and the images it lists
/// with the paths they are read from.
pub open spec fn common_resources(path: Seq<char>, items: Seq<XmlItem>) -> (
    Seq<(Seq<char>, Seq<char>, Seq<char>)>,
    Seq<(Seq<char>, Seq<char>)>,
) {
    let s = res_scan(readable(items));
    (s.fonts, image_refs(s.entries, res_base_dir(parent_of(path), s.base_loc)))
}

/// The fonts and images of a resource file.
pub struct CommonResources {
    /// Fonts in order, each with the key it is filed under.
    pub fonts: Vec<(String, OfdFont)>,
    /// Images in order: resource id and package path.
    pub images: Vec<(String, String)>,
}

pub open spec fn font_items(v: Seq<(String, OfdFont)>) -> Seq<(Seq<char>, Seq<char>, Seq<char>)> {
    v.map_values(|p: (String, OfdFont)| (p.0@, p.1.id@, p.1.family@))
}

pub open spec fn pair_items(v: Seq<(String, String)>) -> Seq<(Seq<char>, Seq<char>)> {
    v.map_values(|p: (String, String)| (p.0@, p.1@))
}

pub open spec fn media_items(v: Seq<(String, String, String)>) -> Seq<MediaItem> {
    v.map_values(|m: (String, String, String)| (m.0@, m.1@, m.2@))
}

pub open spec fn opt_media(o: Option<(String, String, String)>) -> Option<MediaItem> {
    match o {
        Some(m) => Some((m.0@, m.1@, m.2@)),
        None => None,
    }
}

/// A resource list as plain values.
pub open spec fn resources_items(r: CommonResources) -> (
    Seq<(Seq<char>, Seq<char>, Seq<char>)>,
    Seq<(Seq<char>, Seq<char>)>,
) {
    (font_items(r.fonts@), pair_items(r.images@))
}

struct ResScan {
    base_loc: String,
    entries: Vec<(String, String, String)>,
    in_media: bool,
    current: Option<(String, String, String)>,
    fonts: Vec<(String, OfdFont)>,
}

impl View for ResScan {
    type V = ResState;

    closed spec fn view(&self) -> ResState {
        ResState {
            base_loc: self.base_loc@,
            entries: media_items(self.entries@),
            in_media: self.in_media,
            current: opt_media(self.current),
            fonts: font_items(self.fonts@),
        }
    }
}

/// An attribute, or `d` where it is missing.
fn attr_or(c: &Vec<u8>, n: usize, name: &str, d: &str) -> (r: String)
    ensures
        r@ == or_default(attr_of(c@, n, name@), d@),
{
    match attr_val(c, n, name) {
        Some(v) => v,
        None => string_of(d),
    }
}

/// The font a `Font` tag files (see `font_item_of`).
fn font_of(c: &Vec<u8>, n: usize) -> (r: (String, OfdFont))
    ensures
        (r.0@, r.1.id@, r.1.family@) == font_item_of(c@, n),
{
    let family = match attr_val(c, n, "FamilyName") {
        Some(f) => f,
        None => attr_or(c, n, "FontName", "sans-serif"),
    };
    let id = attr_or(c, n, "ID", "");
    proof {
        reveal_strlit("");
    }
    (id, OfdFont { id: String::new(), family })
}

/// The entry a `MultiMedia` tag opens (see `media_item_of`).
fn media_of(c: &Vec<u8>, n: usize) -> (r: (String, String, String))
    ensures
        (r.0@, r.1@, r.2@) == media_item_of(c@, n),
{
    let id = attr_or(c, n, "ID", "");
    let kind = attr_or(c, n, "Type", "Image");
    proof {
        reveal_strlit("");
    }
    (id, kind, String::new())
}

fn res_step_exec(st: &mut ResScan, e: &XmlEvent)
    ensures
        final(st)@ == res_step(old(st)@, e@),
{
    match e {
        XmlEvent::Start(c, n) => {
            let t = tag_name(c, *n);
            let t = t.as_str();
            if str_eq(t, "Res") {
                if let Some(bl) = attr_val(c, *n, "BaseLoc") {
                    st.base_loc = bl;
                }
            } else if str_eq(t, "Font") {
                let f = font_of(c, *n);
                st.fonts.push(f);
                assert(font_items(st.fonts@) =~= font_items(old(st).fonts@).push(font_item_of(c@, *n)));
            } else if str_eq(t, "MultiMedia") {
                st.in_media = true;
                st.current = Some(media_of(c, *n));
            }
        },
        XmlEvent::Empty(c, n) => {
            let t = tag_name(c, *n);
            let t = t.as_str();
            if str_eq(t, "Res") {
                if let Some(bl) = attr_val(c, *n, "BaseLoc") {
                    st.base_loc = bl;
                }
            } else if str_eq(t, "Font") {
                let f = font_of(c, *n);
                st.fonts.push(f);
                assert(font_items(st.fonts@) =~= font_items(old(st).fonts@).push(font_item_of(c@, *n)));
            } else if str_eq(t, "MultiMedia") {
                let m = media_of(c, *n);
                if m.0.unicode_len() > 0 {
                    st.current = Some(m);
                }
            } else if str_eq(t, "MediaFile") && st.current.is_some() {
                if let Some(fp) = attr_val(c, *n, "FilePath") {
                    let cur = st.current.take();
                    if let Some(m) = cur {
                        st.current = Some((m.0, m.1, fp));
                    }
                }
            }
        },
        XmlEvent::Text(x) => {
            if st.in_media && st.current.is_some() {
                let text = trim_string(x.as_str());
                let cur = st.current.take();
                if let Some(m) = cur {
                    if m.2.unicode_len() == 0 && text.unicode_len() > 0 {
                        st.current = Some((m.0, m.1, text));
                    } else {
                        st.current = Some(m);
                    }
                }
            }
        },
        XmlEvent::End(b) => {
            let t = local_name(b.as_slice());
            if str_eq(t.as_str(), "MultiMedia") {
                st.in_media = false;
                let cur = st.current.take();
                if let Some(m) = cur {
                    if m.0.unicode_len() > 0 && m.2.unicode_len() > 0 {
                        let ghost mv = (m.0@, m.1@, m.2@);
                        st.entries.push(m);
                        assert(media_items(st.entries@) =~= media_items(old(st).entries@).push(mv));
                    }
                }
            }
        },
        _ => {},
    }
}

/// The media directory (see `res_base_dir`).
fn res_base(file_dir: &str, base_loc: &str) -> (r: String)
    ensures
        r@ == res_base_dir(file_dir@, base_loc@),
{
    proof {
        reveal_strlit("/");
    }
    let mut r = String::new();
    if base_loc.unicode_len() == 0 {
        if file_dir.unicode_len() > 0 {
            push_str(&mut r, file_dir);
            push_str(&mut r, "/");
        }
    } else {
        if file_dir.unicode_len() > 0 {
            push_str(&mut r, file_dir);
            push_str(&mut r, "/");
        }
        push_str(&mut r, base_loc);
        push_str(&mut r, "/");
    }
    assert(r@ =~= res_base_dir(file_dir@, base_loc@));
    r
}

/// ASCII lower case of a character.
fn to_ascii_lower(c: char) -> (r: char)
    ensures
        r == ascii_lower(c),
{
    if 'A' <= c && c <= 'Z' {
        ((c as u8) + 32) as char
    } else {
        c
    }
}

/// Whether a media type is `image`, ASCII case ignored (`eq_ignore_ascii_case`).
fn is_image(t: &str) -> (r: bool)
    ensures
        r == is_image_type(t@),
{
    if t.unicode_len() != 5 {
        return false;
    }
    to_ascii_lower(t.get_char(0)) == 'i' && to_ascii_lower(t.get_char(1)) == 'm'
        && to_ascii_lower(t.get_char(2)) == 'a' && to_ascii_lower(t.get_char(3)) == 'g'
        && to_ascii_lower(t.get_char(4)) == 'e'
}

/// Where a media file lies (see `media_path`).
fn media_file_path(base: &str, file: &str) -> (r: String)
    ensures
        r@ == media_path(base@, file@),
{
    let n = file.unicode_len();
    if n > 0 && file.get_char(0) == '/' {
        let cs = crate::text::chars_of(file);
        let r = crate::text::string_from_chars(cs.as_slice(), 1, n);
        assert(r@ =~= file@.drop_first());
        r
    } else {
        let mut r = string_of(base);
        push_str(&mut r, file);
        r
    }
}

/// Read a resource file from its events (see `common_resources`).
pub fn scan_common_resources(path: &str, events: &Vec<XmlEvent>) -> (r: CommonResources)
    ensures
        resources_items(r) == common_resources(path@, items_of(events@)),
{
    let ghost items = items_of(events@);
    let mut st = ResScan {
        base_loc: String::new(),
        entries: Vec::new(),
        in_media: false,
        current: None,
        fonts: Vec::new(),
    };
    assert(media_items(st.entries@) =~= Seq::empty());
    assert(font_items(st.fonts@) =~= Seq::empty());
    assert(items.take(0) =~= Seq::<XmlItem>::empty());
    let mut i: usize = 0;
    while i < events.len()
        invariant
            i <= events@.len(),
            items == items_of(events@),
            st@ == res_scan(items.take(i as int)),
            forall|j: int| 0 <= j < i ==> !(#[trigger] items[j] is Error),
        ensures
            i <= events@.len(),
            st@ == res_scan(items.take(i as int)),
            forall|j: int| 0 <= j < i ==> !(#[trigger] items[j] is Error),
            i == items.len() || items[i as int] is Error,
        decreases events.len() - i,
    {
        if is_error(&events[i]) {
            break;
        }
        res_step_exec(&mut st, &events[i]);
        assert(items.take(i + 1).drop_last() =~= items.take(i as int));
        i = i + 1;
    }
    proof {
        lemma_read_len(items, i as nat);
    }
    assert(items.take(i as int) =~= readable(items));
    let dir = parent_dir(path);
    let base = res_base(dir.as_str(), st.base_loc.as_str());
    let ghost entries = media_items(st.entries@);
    let mut images: Vec<(String, String)> = Vec::new();
    let mut k: usize = 0;
    assert(entries.take(0) =~= Seq::<MediaItem>::empty());
    while k < st.entries.len()
        invariant
            k <= st.entries@.len(),
            entries == media_items(st.entries@),
            pair_items(images@) == image_refs(entries.take(k as int), base@),
        decreases st.entries.len() - k,
    {
        let m = &st.entries[k];
        assert(entries.take(k + 1).drop_last() =~= entries.take(k as int));
        if is_image(m.1.as_str()) {
            let p = media_file_path(base.as_str(), m.2.as_str());
            let id = string_of(m.0.as_str());
            let ghost pv = (id@, p@);
            images.push((id, p));
            assert(pair_items(images@) =~= image_refs(entries.take(k as int), base@).push(pv));
        }
        k = k + 1;
    }
    assert(entries.take(k as int) =~= entries);
    CommonResources { fonts: st.fonts, images }
}

/// Read a resource file from its text.
pub fn parse_common_resources(path: &str, xml: &str) -> (r: CommonResources)
    ensures
        resources_items(r) == common_resources(path@, xml_event_items(xml@)),
{
    let events = xml_events(xml);
    scan_common_resources(path, &events)
}

// ------------------------------------------------------------------
// Annotations.xml: page id -> annotation file
// ------------------------------------------------------------------

/// What has been read of an annotation index.
pub struct AnnotIndexState {
    pub page: Option<u32>,
    pub in_file_loc: bool,
    pub entries: Seq<(u32, Seq<char>)>,
}

/// `PageID` of a `Page` tag read as `u32`.
pub open spec fn page_ref_of(c: Seq<u8>, n: usize) -> Option<u32> {
    match attr_of(c, n, "PageID"@) {
        Some(s) => parse_u32(s),
        None => None,
    }
}

/// One event of an annotation index.
pub open spec fn annot_index_step(s: AnnotIndexState, e: XmlItem) -> AnnotIndexState {
    match e {
        XmlItem::Start(c, n) => {
            let t = tag_name_of(c, n);
            if t == "Page"@ {
                AnnotIndexState { page: page_ref_of(c, n), in_file_loc: false, ..s }
            } else if t == "FileLoc"@ {
                AnnotIndexState { in_file_loc: true, ..s }
            } else {
                s
            }
        },
        XmlItem::Empty(c, n) => {
            if tag_name_of(c, n) == "Page"@ {
                AnnotIndexState { page: page_ref_of(c, n), ..s }
            } else {
                s
            }
        },
        XmlItem::Text(x) => {
            if s.in_file_loc && s.page is Some && trim(x).len() > 0 {
                AnnotIndexState { entries: s.entries.push((s.page->Some_0, trim(x))), ..s }
            } else {
                s
            }
        },
        XmlItem::End(b) => {
            let t = end_name_of(b);
            if t == "Page"@ {
                AnnotIndexState { page: None, in_file_loc: false, ..s }
            } else if t == "FileLoc"@ {
                AnnotIndexState { in_file_loc: false, ..s }
            } else {
                s
            }
        },
        XmlItem::Other | XmlItem::Error => s,
    }
}

/// The state after a list of events.
pub open spec fn annot_index_scan(items: Seq<XmlItem>) -> AnnotIndexState
    decreases items.len(),
{
    if items.len() == 0 {
        AnnotIndexState { page: None, in_file_loc: false, entries: Seq::empty() }
    } else {
        annot_index_step(annot_index_scan(items.drop_last()), items.last())
    }
}

/// Read an annotation index from its events: each page id with the file of
/// its annotations, in order (a later entry for a page replaces an earlier).
pub fn scan_annotations_index(events: &Vec<XmlEvent>) -> (r: Vec<(u32, String)>)
    ensures
        page_items(r@) == annot_index_scan(readable(items_of(events@))).entries,
{
    let ghost items = items_of(events@);
    let mut page: Option<u32> = None;
    let mut in_file_loc = false;
    let mut out: Vec<(u32, String)> = Vec::new();
    assert(items.take(0) =~= Seq::<XmlItem>::empty());
    assert(page_items(out@) =~= Seq::empty());
    let mut i: usize = 0;
    while i < events.len()
        invariant
            i <= events@.len(),
            items == items_of(events@),
            annot_index_scan(items.take(i as int)) == (AnnotIndexState {
                page,
                in_file_loc,
                entries: page_items(out@),
            }),
            forall|j: int| 0 <= j < i ==> !(#[trigger] items[j] is Error),
        ensures
            i <= events@.len(),
            annot_index_scan(items.take(i as int)) == (AnnotIndexState {
                page,
                in_file_loc,
                entries: page_items(out@),
            }),
            forall|j: int| 0 <= j < i ==> !(#[trigger] items[j] is Error),
            i == items.len() || items[i as int] is Error,
        decreases events.len() - i,
    {
        if is_error(&events[i]) {
            break;
        }
        let ghost before = out@;
        match &events[i] {
            XmlEvent::Start(c, n) => {
                let t = tag_name(c, *n);
                if str_eq(t.as_str(), "Page") {
                    page = match attr_val(c, *n, "PageID") {
                        Some(s) => parse_u32_str(s.as_str()),
                        None => None,
                    };
                    in_file_loc = false;
                } else if str_eq(t.as_str(), "FileLoc") {
                    in_file_loc = true;
                }
            },
            XmlEvent::Empty(c, n) => {
                let t = tag_name(c, *n);
                if str_eq(t.as_str(), "Page") {
                    page = match attr_val(c, *n, "PageID") {
                        Some(s) => parse_u32_str(s.as_str()),
                        None => None,
                    };
                }
            },
            XmlEvent::Text(x) => {
                if in_file_loc {
                    if let Some(p) = page {
                        let text = trim_string(x.as_str());
                        if text.unicode_len() > 0 {
                            let ghost tv = text@;
                            out.push((p, text));
                            assert(page_items(out@) =~= page_items(before).push((p, tv)));
                        }
                    }
                }
            },
            XmlEvent::End(b) => {
                let t = local_name(b.as_slice());
                if str_eq(t.as_str(), "Page") {
                    page = None;
                    in_file_loc = false;
                } else if str_eq(t.as_str(), "FileLoc") {
                    in_file_loc = false;
                }
            },
            _ => {},
        }
        assert(items.take(i + 1).drop_last() =~= items.take(i as int));
        i = i + 1;
    }
    proof {
        lemma_read_len(items, i as nat);
    }
    assert(items.take(i as int) =~= readable(items));
    out
}

/// Read an annotation index from its text.
pub fn parse_annotations_index(xml: &str) -> (r: Vec<(u32, String)>)
    ensures
        page_items(r@) == annot_index_scan(readable(xml_event_items(xml@))).entries,
{
    let events = xml_events(xml);
    scan_annotations_index(&events)
}

} // verus!
