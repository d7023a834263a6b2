//! Re-encoding the strings that a page's content stream shows with the
//! fonts being replaced: the operations are followed in order, `Tf` sets the
//! font in effect, and the strings of `Tj`, `'`, `TJ` and `"` shown with a
//! font being replaced are re-encoded as CIDs.

use vstd::prelude::*;
use std::collections::HashMap;
use crate::font_embed::{
    cjk_font, gid_to_unicode, is_cjk_font, parse_tounicode_cid_to_unicode, parse_truetype_gid_to_unicode, remap_string,
    remapped, tounicode_from, truetype_readable, utf8_lossy, utf8_lossy_of, CodeEncoding,
};
use crate::text::str_eq;
use vstd::string::StrSliceExecFns;

verus! {

broadcast use vstd::std_specs::hash::group_hash_axioms;

/// An item of an array operand.
pub enum ArrayItem {
    /// A string: its bytes, and whether it is written in hex.
    Str(Vec<u8>, bool),
    /// Anything else, kept by the caller under this number.
    Other(usize),
}

/// An operand of a content-stream operation.
pub enum OpArg {
    /// A name, without its `/`.
    Name(Vec<u8>),
    /// A string: its bytes, and whether it is written in hex.
    Str(Vec<u8>, bool),
    /// An array.
    Array(Vec<ArrayItem>),
    /// Anything else, kept by the caller under this number.
    Other(usize),
}

/// A content-stream operation: its operator and operands.
pub struct ContentOp {
    pub operator: String,
    pub operands: Vec<OpArg>,
}

/// A font whose strings are re-encoded: its resource name, how its codes
/// are read, and its code -> Unicode map.
pub struct FontRecode {
    pub name: String,
    pub encoding: CodeEncoding,
    pub code_to_unicode: HashMap<u32, u32>,
}

/// An array item as plain values.
pub enum ItemV {
    Str(Seq<u8>, bool),
    Other(usize),
}

/// An operand as plain values.
pub enum ArgV {
    Name(Seq<u8>),
    Str(Seq<u8>, bool),
    Array(Seq<ItemV>),
    Other(usize),
}

/// An operation as plain values.
pub struct OpV {
    pub operator: Seq<char>,
    pub operands: Seq<ArgV>,
}

impl View for ArrayItem {
    type V = ItemV;

    open spec fn view(&self) -> ItemV {
        match self {
            ArrayItem::Str(s, h) => ItemV::Str(s@, *h),
            ArrayItem::Other(k) => ItemV::Other(*k),
        }
    }
}

impl View for OpArg {
    type V = ArgV;

    open spec fn view(&self) -> ArgV {
        match self {
            OpArg::Name(n) => ArgV::Name(n@),
            OpArg::Str(s, h) => ArgV::Str(s@, *h),
            OpArg::Array(v) => ArgV::Array(v@.map_values(|x: ArrayItem| x@)),
            OpArg::Other(k) => ArgV::Other(*k),
        }
    }
}

impl View for ContentOp {
    type V = OpV;

    open spec fn view(&self) -> OpV {
        OpV { operator: self.operator@, operands: self.operands@.map_values(|a: OpArg| a@) }
    }
}

/// Operations as plain values.
pub open spec fn ops_view(v: Seq<ContentOp>) -> Seq<OpV> {
    v.map_values(|o: ContentOp| o@)
}

/// How the font named `name` is re-encoded, if it is: the first entry of
/// that name.
pub open spec fn recode_of(fonts: Seq<FontRecode>, name: Seq<char>) -> Option<(CodeEncoding, Map<u32, u32>)>
    decreases fonts.len(),
{
    if fonts.len() == 0 {
        None
    } else if fonts[0].name@ == name {
        Some((fonts[0].encoding, fonts[0].code_to_unicode@))
    } else {
        recode_of(fonts.drop_first(), name)
    }
}

/// Whether an operation is `Tf` with a name first.
pub open spec fn sets_font(op: OpV) -> bool {
    op.operator == "Tf"@ && op.operands.len() > 0 && op.operands[0] is Name
}

/// The font in effect after some operations: the name of the last `Tf`.
pub open spec fn font_after(ops: Seq<OpV>) -> Option<Seq<char>>
    decreases ops.len(),
{
    if ops.len() == 0 {
        None
    } else if sets_font(ops.last()) {
        Some(utf8_lossy_of(ops.last().operands[0]->Name_0))
    } else {
        font_after(ops.drop_last())
    }
}

/// A string operand re-encoded (its hex flag given).
pub open spec fn recoded_item(it: ItemV, r: (CodeEncoding, Map<u32, u32>), uni2cid: Map<u32, u32>) -> ItemV {
    match it {
        ItemV::Str(s, h) => ItemV::Str(remapped(s, r.0, r.1, uni2cid), h),
        ItemV::Other(k) => ItemV::Other(k),
    }
}

/// An operation shown with a re-encoded font, its strings re-encoded:
/// `Tj` and `'` re-encode their first operand and write it in hex; `TJ`
/// re-encodes the strings of its array; `"` re-encodes its last operand.
pub open spec fn recoded_op(op: OpV, r: (CodeEncoding, Map<u32, u32>), uni2cid: Map<u32, u32>) -> OpV {
    let args = op.operands;
    if op.operator == "Tj"@ || op.operator == "'"@ {
        if args.len() > 0 && args[0] is Str {
            OpV { operands: args.update(0, ArgV::Str(remapped(args[0]->Str_0, r.0, r.1, uni2cid), true)), ..op }
        } else {
            op
        }
    } else if op.operator == "TJ"@ {
        if args.len() > 0 && args[0] is Array {
            let items = args[0]->Array_0;
            OpV {
                operands: args.update(0, ArgV::Array(items.map_values(|it: ItemV| recoded_item(it, r, uni2cid)))),
                ..op
            }
        } else {
            op
        }
    } else if op.operator == "\""@ {
        if args.len() > 0 && args.last() is Str {
            let last = args.last();
            OpV {
                operands: args.update(args.len() - 1, ArgV::Str(remapped(last->Str_0, r.0, r.1, uni2cid), last->Str_1)),
                ..op
            }
        } else {
            op
        }
    } else {
        op
    }
}

/// What becomes of an operation after `before`: `Tf` stays; others are
/// re-encoded when the font in effect is.
pub open spec fn op_after(before: Seq<OpV>, op: OpV, fonts: Seq<FontRecode>, uni2cid: Map<u32, u32>) -> OpV {
    if op.operator == "Tf"@ {
        op
    } else {
        match font_after(before) {
            Some(f) => match recode_of(fonts, f) {
                Some(r) => recoded_op(op, r, uni2cid),
                None => op,
            },
            None => op,
        }
    }
}

/// The operations re-encoded.
pub open spec fn rewritten_ops(ops: Seq<OpV>, fonts: Seq<FontRecode>, uni2cid: Map<u32, u32>) -> Seq<OpV>
    decreases ops.len(),
{
    if ops.len() == 0 {
        Seq::empty()
    } else {
        rewritten_ops(ops.drop_last(), fonts, uni2cid).push(op_after(ops.drop_last(), ops.last(), fonts, uni2cid))
    }
}

/// Re-encoding keeps the operations one for one: as many as before, each with
/// its operator. The `k`-th becomes what `op_after` makes of it after the
/// operations before it; so it is unchanged when it is `Tf`, when no `Tf` came
/// before it, or when the font last set is not re-encoded.
pub proof fn lemma_rewrite_pointwise(ops: Seq<OpV>, fonts: Seq<FontRecode>, uni2cid: Map<u32, u32>)
    ensures
        rewritten_ops(ops, fonts, uni2cid).len() == ops.len(),
        forall|k: int|
            0 <= k < ops.len() ==> #[trigger] rewritten_ops(ops, fonts, uni2cid)[k] == op_after(
                ops.take(k),
                ops[k],
                fonts,
                uni2cid,
            ),
        forall|k: int|
            0 <= k < ops.len() ==> (#[trigger] rewritten_ops(ops, fonts, uni2cid)[k]).operator == ops[k].operator,
        forall|k: int|
            0 <= k < ops.len() && (ops[k].operator == "Tf"@ || font_after(ops.take(k)) is None || recode_of(
                fonts,
                font_after(ops.take(k))->Some_0,
            ) is None) ==> #[trigger] rewritten_ops(ops, fonts, uni2cid)[k] == ops[k],
    decreases ops.len(),
{
    if ops.len() > 0 {
        let p = ops.drop_last();
        lemma_rewrite_pointwise(p, fonts, uni2cid);
        assert forall|k: int| 0 <= k < ops.len() implies #[trigger] rewritten_ops(ops, fonts, uni2cid)[k] == op_after(
            ops.take(k),
            ops[k],
            fonts,
            uni2cid,
        ) by {
            if k < p.len() {
                assert(ops.take(k) =~= p.take(k));
            } else {
                assert(ops.take(k) =~= p);
            }
        }
    }
}

fn find_recode(fonts: &Vec<FontRecode>, name: &str) -> (r: Option<usize>)
    ensures
        match r {
            Some(i) => i < fonts@.len() && recode_of(fonts@, name@) == Some(
                (fonts@[i as int].encoding, fonts@[i as int].code_to_unicode@),
            ),
            None => recode_of(fonts@, name@) is None,
        },
{
    let mut i: usize = 0;
    assert(fonts@.skip(0) =~= fonts@);
    while i < fonts.len()
        invariant
            i <= fonts@.len(),
            recode_of(fonts@, name@) == recode_of(fonts@.skip(i as int), name@),
        decreases fonts.len() - i,
    {
        assert(fonts@.skip(i as int)[0] == fonts@[i as int]);
        if str_eq(fonts[i].name.as_str(), name) {
            return Some(i);
        }
        assert(fonts@.skip(i as int).drop_first() =~= fonts@.skip(i + 1));
        i = i + 1;
    }
    None
}

fn recode_items(items: &Vec<ArrayItem>, f: &FontRecode, uni2cid: &HashMap<u32, u32>) -> (r: Vec<ArrayItem>)
    ensures
        r@.map_values(|x: ArrayItem| x@) == items@.map_values(|x: ArrayItem| x@).map_values(
            |it: ItemV| recoded_item(it, (f.encoding, f.code_to_unicode@), uni2cid@),
        ),
{
    let ghost rc = (f.encoding, f.code_to_unicode@);
    let mut out: Vec<ArrayItem> = Vec::new();
    let mut i: usize = 0;
    while i < items.len()
        invariant
            i <= items@.len(),
            rc == (f.encoding, f.code_to_unicode@),
            out@.len() == i,
            forall|j: int| 0 <= j < i ==> #[trigger] out@[j]@ == recoded_item(items@[j]@, rc, uni2cid@),
        decreases items.len() - i,
    {
        let it = match &items[i] {
            ArrayItem::Str(s, h) => ArrayItem::Str(remap_string(s.as_slice(), f.encoding, &f.code_to_unicode, uni2cid), *h),
            ArrayItem::Other(k) => ArrayItem::Other(*k),
        };
        out.push(it);
        i = i + 1;
    }
    assert(out@.map_values(|x: ArrayItem| x@) =~= items@.map_values(|x: ArrayItem| x@).map_values(
        |it: ItemV| recoded_item(it, rc, uni2cid@),
    ));
    out
}

/// Re-encode one operation shown with font `f` (see `recoded_op`).
fn recode_op(op: ContentOp, f: &FontRecode, uni2cid: &HashMap<u32, u32>) -> (r: ContentOp)
    ensures
        r@ == recoded_op(op@, (f.encoding, f.code_to_unicode@), uni2cid@),
{
    let mut op = op;
    let ghost old_op = op@;
    let ghost rc = (f.encoding, f.code_to_unicode@);
    let n = op.operands.len();
    if str_eq(op.operator.as_str(), "Tj") || str_eq(op.operator.as_str(), "'") {
        if n > 0 {
            let new_arg = match &op.operands[0] {
                OpArg::Str(s, _) => Some(OpArg::Str(remap_string(s.as_slice(), f.encoding, &f.code_to_unicode, uni2cid), true)),
                _ => None,
            };
            if let Some(a) = new_arg {
                op.operands.set(0, a);
                assert(op@.operands =~= old_op.operands.update(0, a@));
            }
        }
    } else if str_eq(op.operator.as_str(), "TJ") {
        if n > 0 {
            let new_arg = match &op.operands[0] {
                OpArg::Array(items) => Some(OpArg::Array(recode_items(items, f, uni2cid))),
                _ => None,
            };
            if let Some(a) = new_arg {
                op.operands.set(0, a);
                assert(op@.operands =~= old_op.operands.update(0, a@));
            }
        }
    } else if str_eq(op.operator.as_str(), "\"") {
        if n > 0 {
            let new_arg = match &op.operands[n - 1] {
                OpArg::Str(s, h) => Some(OpArg::Str(remap_string(s.as_slice(), f.encoding, &f.code_to_unicode, uni2cid), *h)),
                _ => None,
            };
            if let Some(a) = new_arg {
                op.operands.set(n - 1, a);
                assert(op@.operands =~= old_op.operands.update(n - 1, a@));
            }
        }
    }
    op
}

/// Re-encode the strings that a content stream shows with the fonts in
/// `fonts` (see `rewritten_ops`).
pub fn rewrite_operations(ops: Vec<ContentOp>, fonts: &Vec<FontRecode>, uni2cid: &HashMap<u32, u32>) -> (r: Vec<
    ContentOp,
>)
    ensures
        ops_view(r@) == rewritten_ops(ops_view(ops@), fonts@, uni2cid@),
{
    let ghost src = ops@;
    let ghost all = ops_view(ops@);
    let mut out: Vec<ContentOp> = Vec::new();
    let mut current: Option<String> = None;
    assert(ops_view(out@) =~= rewritten_ops(all.take(0), fonts@, uni2cid@));
    let ghost total = src.len();
    for op in it: ops.into_iter()
        invariant
            it.seq() == src,
            total == src.len(),
            all == ops_view(src),
            out@.len() == it.index(),
            ops_view(out@) == rewritten_ops(all.take(out@.len() as int), fonts@, uni2cid@),
            match current {
                Some(c) => font_after(all.take(out@.len() as int)) == Some(c@),
                None => font_after(all.take(out@.len() as int)) is None,
            },
    {
        let k = out.len();
        assert(op == src[k as int]);
        assert(op@ == all[k as int]);
        let ghost before = all.take(k as int);
        assert(all.take(k + 1).drop_last() =~= before);
        assert(all.take(k + 1).last() == op@);
        let new_op = if str_eq(op.operator.as_str(), "Tf") {
            if op.operands.len() > 0 {
                if let OpArg::Name(n) = &op.operands[0] {
                    current = Some(utf8_lossy(n.as_slice()));
                }
            }
            op
        } else {
            let found = match &current {
                Some(c) => find_recode(fonts, c.as_str()),
                None => None,
            };
            match found {
                Some(i) => recode_op(op, &fonts[i], uni2cid),
                None => op,
            }
        };
        let ghost nv = new_op@;
        out.push(new_op);
        assert(ops_view(out@) =~= ops_view(out@.drop_last()).push(nv));
        assert(out@.drop_last() =~= out@.take(k as int));
    }
    let ghost total = src.len();
    assert(all.take(total as int) =~= all);
    out
}


/// Bytes that may be missing, as plain values.
pub open spec fn opt_bytes_view(o: Option<&[u8]>) -> Option<Seq<u8>> {
    match o {
        Some(b) => Some(b@),
        None => None,
    }
}

/// The code -> Unicode map of an Identity-H font: its embedded TrueType
/// `cmap` when that maps anything, else its ToUnicode CMap, else nothing.
pub open spec fn identity_code_map(embedded: Option<Seq<u8>>, tounicode: Option<Seq<u8>>) -> Map<u32, u32> {
    let g = match embedded {
        Some(e) => gid_to_unicode(e),
        None => Map::empty(),
    };
    if !g.is_empty() {
        g
    } else {
        match tounicode {
            Some(t) => tounicode_from(t, 0, Map::empty()),
            None => Map::empty(),
        }
    }
}

/// The code -> Unicode map a font is re-encoded with.
pub open spec fn font_code_map(enc: CodeEncoding, embedded: Option<Seq<u8>>, tounicode: Option<Seq<u8>>) -> Map<u32, u32> {
    if enc == CodeEncoding::IdentityCid {
        identity_code_map(embedded, tounicode)
    } else {
        Map::empty()
    }
}

/// Whether a page's font is replaced by the embedded one: a Chinese font
/// (judged by its `/BaseFont`, else its resource name), unless it is an
/// Identity-H font whose codes cannot be read as Unicode.
pub open spec fn font_replaced(
    name: Seq<char>,
    base_font: Seq<char>,
    enc: CodeEncoding,
    embedded: Option<Seq<u8>>,
    tounicode: Option<Seq<u8>>,
) -> bool {
    let codes = font_code_map(enc, embedded, tounicode);
    let judged = if base_font.len() == 0 {
        name
    } else {
        base_font
    };
    cjk_font(judged, codes, enc) && !(enc == CodeEncoding::IdentityCid && codes.is_empty())
}

/// How a page's font named `name` is re-encoded, or `None` when it is kept
/// (see `font_replaced`); `embedded` and `tounicode` are its embedded font
/// program and its ToUnicode CMap, where it has them.
pub fn font_recode_for(
    name: &str,
    base_font: &str,
    enc: CodeEncoding,
    embedded: Option<&[u8]>,
    tounicode: Option<&[u8]>,
) -> (r: Option<FontRecode>)
    requires
        enc == CodeEncoding::IdentityCid ==> match embedded {
            Some(e) => truetype_readable(e@),
            None => true,
        },
    ensures
        match r {
            Some(f) => font_replaced(name@, base_font@, enc, opt_bytes_view(embedded), opt_bytes_view(tounicode))
                && f.name@ == name@ && f.encoding == enc && f.code_to_unicode@ == font_code_map(
                enc,
                opt_bytes_view(embedded),
                opt_bytes_view(tounicode),
            ),
            None => !font_replaced(name@, base_font@, enc, opt_bytes_view(embedded), opt_bytes_view(tounicode)),
        },
{
    let mut codes: HashMap<u32, u32> = HashMap::new();
    if enc == CodeEncoding::IdentityCid {
        if let Some(e) = embedded {
            let g = parse_truetype_gid_to_unicode(e);
            if !g.is_empty() {
                codes = g;
            }
        }
        if codes.is_empty() {
            if let Some(t) = tounicode {
                codes = parse_tounicode_cid_to_unicode(t);
            }
        }
    }
    assert(codes@ == font_code_map(enc, opt_bytes_view(embedded), opt_bytes_view(tounicode)));
    let judged = if base_font.unicode_len() == 0 { name } else { base_font };
    if !is_cjk_font(judged, &codes, enc) {
        return None;
    }
    if enc == CodeEncoding::IdentityCid && codes.is_empty() {
        return None;
    }
    Some(FontRecode { name: crate::text::string_of(name), encoding: enc, code_to_unicode: codes })
}

} // verus!
