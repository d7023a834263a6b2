//! XML events of an OFD part as quick-xml reads them, and the names and
//! attributes of their tags.

use vstd::prelude::*;
use quick_xml::events::Event::{Empty, End, Eof, Start, Text};
use quick_xml::Reader;
use crate::font_embed::utf8_lossy_of;
use crate::ofd_parser::{local_name, local_part};
use crate::text::{str_eq, string_of};

verus! {

/// One XML event, read with text trimming on.
pub enum XmlEvent {
    /// An opening tag: its content (name, then attributes) and the length of
    /// its name in bytes.
    Start(Vec<u8>, usize),
    /// A self-closing tag, held as `Start`.
    Empty(Vec<u8>, usize),
    /// Character data, unescaped (empty where unescaping failed).
    Text(String),
    /// A closing tag: its name.
    End(Vec<u8>),
    /// Any other event (comment, declaration, CDATA, ...).
    Other,
    /// The reader met an error here; nothing follows.
    Error,
}

/// An XML event as plain values.
pub enum XmlItem {
    Start(Seq<u8>, usize),
    Empty(Seq<u8>, usize),
    Text(Seq<char>),
    End(Seq<u8>),
    Other,
    Error,
}

impl View for XmlEvent {
    type V = XmlItem;

    open spec fn view(&self) -> XmlItem {
        match self {
            XmlEvent::Start(c, n) => XmlItem::Start(c@, *n),
            XmlEvent::Empty(c, n) => XmlItem::Empty(c@, *n),
            XmlEvent::Text(t) => XmlItem::Text(t@),
            XmlEvent::End(b) => XmlItem::End(b@),
            XmlEvent::Other => XmlItem::Other,
            XmlEvent::Error => XmlItem::Error,
        }
    }
}

/// How many events come before the first error (all, if there is none).
pub open spec fn read_len(items: Seq<XmlItem>) -> nat
    decreases items.len(),
{
    if items.len() == 0 || items[0] is Error {
        0
    } else {
        1 + read_len(items.drop_first())
    }
}

/// The events before the first error: what a scan reads.
pub open spec fn readable(items: Seq<XmlItem>) -> Seq<XmlItem> {
    items.take(read_len(items) as int)
}

/// Where no error comes before `i`, and `i` is the end or an error, the
/// events before the first error are the first `i`.
pub proof fn lemma_read_len(items: Seq<XmlItem>, i: nat)
    requires
        i <= items.len(),
        forall|j: int| 0 <= j < i ==> !(#[trigger] items[j] is Error),
        i == items.len() || items[i as int] is Error,
    ensures
        read_len(items) == i,
    decreases i,
{
    if i > 0 {
        let t = items.drop_first();
        assert forall|j: int| 0 <= j < i - 1 implies !(#[trigger] t[j] is Error) by {
            assert(t[j] == items[j + 1]);
        }
        lemma_read_len(t, (i - 1) as nat);
    }
}

/// Whether an event is the error marker.
pub fn is_error(e: &XmlEvent) -> (r: bool)
    ensures
        r == (e@ is Error),
{
    match e {
        XmlEvent::Error => true,
        _ => false,
    }
}

/// A list of events as plain values.
pub open spec fn items_of(v: Seq<XmlEvent>) -> Seq<XmlItem> {
    v.map_values(|e: XmlEvent| e@)
}

/// An optional string as its characters.
pub open spec fn opt_chars(o: Option<String>) -> Option<Seq<char>> {
    match o {
        Some(s) => Some(s@),
        None => None,
    }
}

/// Attributes as plain values.
pub open spec fn attr_items(v: Seq<(Vec<u8>, Option<String>)>) -> Seq<(Seq<u8>, Option<Seq<char>>)> {
    v.map_values(|p: (Vec<u8>, Option<String>)| (p.0@, opt_chars(p.1)))
}

/// The events that quick-xml's reader yields for `xml` with text trimming
/// on, up to the end of the text; where it meets an error, the events before
/// it and an `Error` last.
pub uninterp spec fn xml_event_items(xml: Seq<char>) -> Seq<XmlItem>;

/// The attributes that quick-xml reads in a tag's content from `name_len`
/// on: each key and its unescaped value (`None` where unescaping failed).
pub uninterp spec fn xml_attribute_items(content: Seq<u8>, name_len: usize) -> Seq<(Seq<u8>, Option<Seq<char>>)>;

/// `quick_xml::Reader::read_event`, called with text trimming on until the
/// end of `xml` or an error: every event it yields, each converted (events
/// other than tags and text as `Other`), and an `Error` marker where it
/// fails. The contract names the events.
#[verifier::external_body]
pub(crate) fn xml_events(xml: &str) -> (r: Vec<XmlEvent>)
    ensures
        items_of(r@) == xml_event_items(xml@),
{
    let mut rd = Reader::from_str(xml);
    rd.config_mut().trim_text(true);
    let mut out = Vec::new();
    loop {
        let ev = match rd.read_event() {
            Ok(Start(e)) => XmlEvent::Start(e.to_vec(), e.name().0.len()),
            Ok(Empty(e)) => XmlEvent::Empty(e.to_vec(), e.name().0.len()),
            Ok(Text(t)) => XmlEvent::Text(t.unescape().unwrap_or_default().into_owned()),
            Ok(End(e)) => XmlEvent::End(e.to_vec()),
            Ok(Eof) => return out,
            Ok(_) => XmlEvent::Other,
            Err(_) => { out.push(XmlEvent::Error); return out; },
        };
        out.push(ev);
    }
}

/// `quick_xml::events::attributes::Attributes` over a tag's content from
/// `name_len` on: the well-formed attributes, each value unescaped. The
/// contract names them.
#[verifier::external_body]
fn tag_attributes(content: &[u8], name_len: usize) -> (r: Vec<(Vec<u8>, Option<String>)>)
    requires
        name_len <= content@.len(),
    ensures
        attr_items(r@) == xml_attribute_items(content@, name_len),
{
    let s = String::from_utf8_lossy(content);
    quick_xml::events::attributes::Attributes::new(&s, name_len).flatten()
        .map(|a| (a.key.0.to_vec(), a.unescape_value().ok().map(|c| c.into_owned()))).collect()
}

/// The bytes of a tag's name: the first `name_len` bytes of its content.
pub open spec fn name_bytes(content: Seq<u8>, name_len: usize) -> Seq<u8> {
    if name_len <= content.len() {
        content.take(name_len as int)
    } else {
        content
    }
}

/// Local name of a tag.
pub open spec fn tag_name_of(content: Seq<u8>, name_len: usize) -> Seq<char> {
    local_part(utf8_lossy_of(name_bytes(content, name_len)))
}

/// Local name of a closing tag.
pub open spec fn end_name_of(name: Seq<u8>) -> Seq<char> {
    local_part(utf8_lossy_of(name))
}

/// The attributes of a tag.
pub open spec fn tag_attrs(content: Seq<u8>, name_len: usize) -> Seq<(Seq<u8>, Option<Seq<char>>)> {
    if name_len <= content.len() {
        xml_attribute_items(content, name_len)
    } else {
        Seq::empty()
    }
}

/// Value of the first attribute whose local name is `name`.
pub open spec fn find_attr(attrs: Seq<(Seq<u8>, Option<Seq<char>>)>, name: Seq<char>) -> Option<Seq<char>>
    decreases attrs.len(),
{
    if attrs.len() == 0 {
        None
    } else if local_part(utf8_lossy_of(attrs[0].0)) == name {
        attrs[0].1
    } else {
        find_attr(attrs.drop_first(), name)
    }
}

/// Value of a tag's attribute `name`.
pub open spec fn attr_of(content: Seq<u8>, name_len: usize, name: Seq<char>) -> Option<Seq<char>> {
    find_attr(tag_attrs(content, name_len), name)
}

/// Local name of a tag (see `tag_name_of`).
pub fn tag_name(content: &Vec<u8>, name_len: usize) -> (r: String)
    ensures
        r@ == tag_name_of(content@, name_len),
{
    if name_len <= content.len() {
        let mut b: Vec<u8> = Vec::new();
        let mut i: usize = 0;
        while i < name_len
            invariant
                i <= name_len <= content@.len(),
                b@ == content@.take(i as int),
            decreases name_len - i,
        {
            b.push(content[i]);
            assert(content@.take(i + 1) =~= content@.take(i as int).push(content@[i as int]));
            i = i + 1;
        }
        local_name(b.as_slice())
    } else {
        local_name(content.as_slice())
    }
}

/// Value of a tag's attribute `name` (see `attr_of`).
pub fn attr_val(content: &Vec<u8>, name_len: usize, name: &str) -> (r: Option<String>)
    ensures
        opt_chars(r) == attr_of(content@, name_len, name@),
{
    if name_len > content.len() {
        return None;
    }
    let attrs = tag_attributes(content.as_slice(), name_len);
    let ghost all = attr_items(attrs@);
    let mut i: usize = 0;
    assert(all.skip(0) =~= all);
    while i < attrs.len()
        invariant
            i <= attrs@.len(),
            all == attr_items(attrs@),
            all == xml_attribute_items(content@, name_len),
            name_len <= content@.len(),
            find_attr(all, name@) == find_attr(all.skip(i as int), name@),
        decreases attrs.len() - i,
    {
        let key = local_name(attrs[i].0.as_slice());
        assert(all.skip(i as int)[0] == all[i as int]);
        if str_eq(key.as_str(), name) {
            return match &attrs[i].1 {
                Some(v) => Some(string_of(v.as_str())),
                None => None,
            };
        }
        assert(all.skip(i as int).drop_first() =~= all.skip(i + 1));
        i = i + 1;
    }
    None
}

} // verus!
