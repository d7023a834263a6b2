//! Signing an OFD package: the ZIP archive read into its files, the
//! signature files of each seal added, `OFD.xml` updated, and the files
//! packed again.

use vstd::prelude::*;
use std::io::{Read, Write};
use crate::crypto::Sm2KeyStore;
use crate::der::extend_bytes;
use crate::font_embed::{utf8_lossy, utf8_lossy_of};
use crate::ofd_sign::{
    doc_root_of, find_doc_root, mock_ses_seal_of, ofd_seal_files, ofd_xml_updated, opt_bytes, sign_dir_text,
    sign_xml_text, signed_value_of, update_ofd_xml, OfdSealFiles,
};
use vstd::utf8::encode_utf8;
use crate::ses::{params_from_seal, SealAlgorithm};
use crate::crypto::sm3_digest;
use crate::text::{dec_chars, push_decimal, push_str, str_eq, string_of, texts};
use crate::types::PlacedSeal;

verus! {

/// Where reading a ZIP archive failed: opening it, getting an entry, or
/// reading an entry's bytes; each with the `zip` crate's message.
pub enum ZipFault {
    Open(String),
    Entry(String),
    Read(String),
}

/// A `ZipFault` as plain values.
pub enum ZipFaultV {
    Open(Seq<char>),
    Entry(Seq<char>),
    Read(Seq<char>),
}

impl View for ZipFault {
    type V = ZipFaultV;

    open spec fn view(&self) -> ZipFaultV {
        match self {
            ZipFault::Open(s) => ZipFaultV::Open(s@),
            ZipFault::Entry(s) => ZipFaultV::Entry(s@),
            ZipFault::Read(s) => ZipFaultV::Read(s@),
        }
    }
}

/// Where writing a ZIP archive failed: a file, or the end of the archive;
/// each with the `zip` crate's message.
pub enum ZipWriteFault {
    Write(String),
    Finish(String),
}

/// A `ZipWriteFault` as plain values.
pub enum ZipWriteFaultV {
    Write(Seq<char>),
    Finish(Seq<char>),
}

impl View for ZipWriteFault {
    type V = ZipWriteFaultV;

    open spec fn view(&self) -> ZipWriteFaultV {
        match self {
            ZipWriteFault::Write(s) => ZipWriteFaultV::Write(s@),
            ZipWriteFault::Finish(s) => ZipWriteFaultV::Finish(s@),
        }
    }
}

/// Files (name, bytes) as plain values.
pub open spec fn files_view(v: Seq<(String, Vec<u8>)>) -> Seq<(Seq<char>, Seq<u8>)> {
    v.map_values(|p: (String, Vec<u8>)| (p.0@, p.1@))
}

/// What reading an archive gave, as plain values.
pub open spec fn read_view(r: Result<Vec<(String, Vec<u8>)>, ZipFault>) -> Result<Seq<(Seq<char>, Seq<u8>)>, ZipFaultV> {
    match r {
        Ok(v) => Ok(files_view(v@)),
        Err(f) => Err(f@),
    }
}

/// What writing an archive gave, as plain values.
pub open spec fn pack_view(r: Result<Vec<u8>, ZipWriteFault>) -> Result<Seq<u8>, ZipWriteFaultV> {
    match r {
        Ok(v) => Ok(v@),
        Err(f) => Err(f@),
    }
}

/// The files, in archive order, that the `zip` crate reads from the archive
/// `data`, or where it fails.
pub uninterp spec fn zip_files_of(data: Seq<u8>) -> Result<Seq<(Seq<char>, Seq<u8>)>, ZipFaultV>;

/// The archive that the `zip` crate writes for `files`, in order, each
/// Deflate-compressed with default options, or where it fails.
pub uninterp spec fn zip_packed_of(files: Seq<(Seq<char>, Seq<u8>)>) -> Result<Seq<u8>, ZipWriteFaultV>;

/// `zip::ZipArchive::new` over `data`, then each entry's name and bytes
/// (`by_index`, `read_to_end`) in order. The contract names the result.
#[verifier::external_body]
fn zip_files(data: &[u8]) -> (r: Result<Vec<(String, Vec<u8>)>, ZipFault>)
    ensures
        read_view(r) == zip_files_of(data@),
{
    let mut a = zip::ZipArchive::new(std::io::Cursor::new(data.to_vec())).map_err(|e| ZipFault::Open(e.to_string()))?;
    let mut out = Vec::new();
    for i in 0..a.len() {
        let mut f = a.by_index(i).map_err(|e| ZipFault::Entry(e.to_string()))?;
        let mut content = Vec::new();
        f.read_to_end(&mut content).map_err(|e| ZipFault::Read(e.to_string()))?;
        out.push((f.name().to_string(), content));
    }
    Ok(out)
}

/// `zip::ZipWriter` over a buffer in memory: each file started (Deflate,
/// default options) and written in order, then `finish`. The contract names
/// the result.
#[verifier::external_body]
fn zip_pack(files: &Vec<(String, Vec<u8>)>) -> (r: Result<Vec<u8>, ZipWriteFault>)
    ensures
        pack_view(r) == zip_packed_of(files_view(files@)),
{
    let mut out = Vec::new();
    {
        let mut w = zip::ZipWriter::new(std::io::Cursor::new(&mut out));
        let opts = zip::write::FileOptions::default().compression_method(zip::CompressionMethod::Deflated);
        for (name, content) in files {
            w.start_file(name.as_str(), opts).map_err(|e| ZipWriteFault::Write(e.to_string()))?;
            w.write_all(content).map_err(|e| ZipWriteFault::Write(e.to_string()))?;
        }
        w.finish().map_err(|e| ZipWriteFault::Finish(e.to_string()))?;
    }
    Ok(out)
}

// ------------------------------------------------------------------
// The package's files, filed by name
// ------------------------------------------------------------------

/// The bytes filed under `name`: those of the first entry of that name.
pub open spec fn file_of(store: Seq<(Seq<char>, Seq<u8>)>, name: Seq<char>) -> Option<Seq<u8>>
    decreases store.len(),
{
    if store.len() == 0 {
        None
    } else if store[0].0 == name {
        Some(store[0].1)
    } else {
        file_of(store.drop_first(), name)
    }
}

/// `store` with `content` filed under `name`: the first entry of that name
/// replaced, or a new entry last.
pub open spec fn with_file(store: Seq<(Seq<char>, Seq<u8>)>, name: Seq<char>, content: Seq<u8>) -> Seq<
    (Seq<char>, Seq<u8>),
>
    decreases store.len(),
{
    if store.len() == 0 {
        seq![(name, content)]
    } else if store[0].0 == name {
        store.update(0, (name, content))
    } else {
        seq![store[0]] + with_file(store.drop_first(), name, content)
    }
}

/// The files of an archive filed by name, in order, a later file replacing
/// an earlier one of the same name.
pub open spec fn filed(files: Seq<(Seq<char>, Seq<u8>)>) -> Seq<(Seq<char>, Seq<u8>)>
    decreases files.len(),
{
    if files.len() == 0 {
        Seq::empty()
    } else {
        with_file(filed(files.drop_last()), files.last().0, files.last().1)
    }
}

/// Index of the first entry named `name`, if any.
pub open spec fn index_of_name(store: Seq<(Seq<char>, Seq<u8>)>, name: Seq<char>, from: int) -> Option<int>
    decreases store.len() - from,
{
    if from < 0 || from >= store.len() {
        None
    } else if store[from].0 == name {
        Some(from)
    } else {
        index_of_name(store, name, from + 1)
    }
}

proof fn lemma_file_of_index(store: Seq<(Seq<char>, Seq<u8>)>, name: Seq<char>, from: int)
    requires
        0 <= from <= store.len(),
    ensures
        file_of(store.skip(from), name) == match index_of_name(store, name, from) {
            Some(i) => Some(store[i].1),
            None => None,
        },
        index_of_name(store, name, from) matches Some(i) ==> from <= i < store.len() && store[i].0 == name,
    decreases store.len() - from,
{
    if from < store.len() {
        assert(store.skip(from)[0] == store[from]);
        assert(store.skip(from).drop_first() =~= store.skip(from + 1));
        lemma_file_of_index(store, name, from + 1);
    }
}

proof fn lemma_with_file_index(store: Seq<(Seq<char>, Seq<u8>)>, name: Seq<char>, content: Seq<u8>, from: int)
    requires
        0 <= from <= store.len(),
    ensures
        with_file(store.skip(from), name, content) == match index_of_name(store, name, from) {
            Some(i) => store.update(i, (name, content)).skip(from),
            None => store.skip(from).push((name, content)),
        },
    decreases store.len() - from,
{
    if from < store.len() {
        let s = store.skip(from);
        assert(s[0] == store[from]);
        assert(s.drop_first() =~= store.skip(from + 1));
        lemma_with_file_index(store, name, content, from + 1);
        match index_of_name(store, name, from) {
            Some(i) => {
                lemma_file_of_index(store, name, from);
                if store[from].0 == name {
                    assert(s.update(0, (name, content)) =~= store.update(i, (name, content)).skip(from));
                } else {
                    assert(seq![s[0]] + store.update(i, (name, content)).skip(from + 1) =~= store.update(
                        i,
                        (name, content),
                    ).skip(from));
                }
            },
            None => {
                assert(seq![s[0]] + store.skip(from + 1).push((name, content)) =~= s.push((name, content)));
            },
        }
    } else {
        assert(store.skip(from) =~= Seq::<(Seq<char>, Seq<u8>)>::empty());
        assert(store.skip(from).push((name, content)) =~= seq![(name, content)]);
    }
}

/// The bytes filed under `name` (see `file_of`).
#[verifier::spinoff_prover]
fn file_lookup(store: &Vec<(String, Vec<u8>)>, name: &str) -> (r: Option<usize>)
    ensures
        match r {
            Some(i) => index_of_name(files_view(store@), name@, 0) == Some(i as int),
            None => index_of_name(files_view(store@), name@, 0) is None,
        },
        r matches Some(i) ==> i < store@.len(),
{
    let ghost v = files_view(store@);
    let mut i: usize = 0;
    while i < store.len()
        invariant
            i <= store@.len(),
            v == files_view(store@),
            index_of_name(v, name@, 0) == index_of_name(v, name@, i as int),
        decreases store.len() - i,
    {
        if str_eq(store[i].0.as_str(), name) {
            return Some(i);
        }
        i = i + 1;
    }
    None
}

/// File `content` under `name` (see `with_file`).
#[verifier::spinoff_prover]
fn file_set(store: &mut Vec<(String, Vec<u8>)>, name: String, content: Vec<u8>)
    ensures
        files_view(final(store)@) == with_file(files_view(old(store)@), name@, content@),
{
    let ghost v = files_view(store@);
    let ghost nv = name@;
    let ghost cv = content@;
    proof {
        lemma_with_file_index(v, nv, cv, 0);
        lemma_file_of_index(v, nv, 0);
        assert(v.skip(0) =~= v);
    }
    match file_lookup(store, name.as_str()) {
        Some(i) => {
            assert(index_of_name(v, nv, 0) == Some(i as int));
            store.set(i, (name, content));
            assert(files_view(store@) =~= v.update(i as int, (nv, cv)));
            assert(v.update(i as int, (nv, cv)).skip(0) =~= v.update(i as int, (nv, cv)));
            assert(with_file(v, nv, cv) == v.update(i as int, (nv, cv)));
        },
        None => {
            store.push((name, content));
            assert(files_view(store@) =~= v.push((nv, cv)));
            assert(with_file(v, nv, cv) == v.push((nv, cv)));
        },
    }
}

// ------------------------------------------------------------------
// Signing the package
// ------------------------------------------------------------------

/// The names of files, in order.
pub open spec fn names_of(files: Seq<(Seq<char>, Seq<u8>)>) -> Seq<Seq<char>> {
    files.map_values(|f: (Seq<char>, Seq<u8>)| f.0)
}

/// The files a seal adds, as plain values: `Seal.esl`, `SignedValue.dat`
/// and `Sign_N.xml`, each with its path.
pub struct SealFilesV {
    pub esl_path: Seq<char>,
    pub esl: Seq<u8>,
    pub sv_path: Seq<char>,
    pub sv: Seq<u8>,
    pub xml_path: Seq<char>,
    pub xml: Seq<u8>,
}

pub open spec fn seal_files_view(o: OfdSealFiles) -> SealFilesV {
    SealFilesV {
        esl_path: o.seal_esl_path@,
        esl: o.seal_esl@,
        sv_path: o.signed_value_path@,
        sv: o.signed_value@,
        xml_path: o.sign_xml_path@,
        xml: o.sign_xml@,
    }
}

/// Path of the document's `Document.xml`.
pub open spec fn doc_xml_path(root: Seq<char>) -> Seq<char> {
    root + "/Document.xml"@
}

/// Path of a page's content.
pub open spec fn page_xml_path(root: Seq<char>, page: u32) -> Seq<char> {
    root + "/Pages/Page_"@ + dec_chars(page as nat) + "/Content.xml"@
}

/// Whether `o` holds files that the `idx`-th seal may add over the
/// `Document.xml` and page content filed in `store` (see `ofd_seal_files`).
#[verifier::opaque]
pub open spec fn seal_files_for(
    o: SealFilesV,
    root: Seq<char>,
    seal: PlacedSeal,
    idx: nat,
    store: Seq<(Seq<char>, Seq<u8>)>,
    boundary: Seq<char>,
) -> bool {
    match file_of(store, doc_xml_path(root)) {
        None => false,
        Some(d) => {
            &&& o.esl_path == sign_dir_text(root, idx) + "/Seal.esl"@
            &&& o.sv_path == sign_dir_text(root, idx) + "/SignedValue.dat"@
            &&& o.xml_path == sign_dir_text(root, idx) + "/Sign_"@ + dec_chars(idx) + ".xml"@
            &&& o.xml == encode_utf8(
                sign_xml_text(
                    sign_dir_text(root, idx),
                    root,
                    seal.page_index,
                    idx,
                    sm3_digest(d),
                    match file_of(store, page_xml_path(root, seal.page_index)) {
                        Some(p) => sm3_digest(p),
                        None => Seq::<u8>::empty(),
                    },
                    SealAlgorithm::Sm2,
                    params_from_seal(seal.seal_info, SealAlgorithm::Sm2).sign_time,
                    boundary,
                ),
            )
            &&& mock_ses_seal_of(seal.seal_info, SealAlgorithm::Sm2, o.esl)
            &&& signed_value_of(seal.seal_info, o.xml, o.sv)
        },
    }
}

/// `store` with a seal's files filed.
pub open spec fn with_seal_files(store: Seq<(Seq<char>, Seq<u8>)>, o: SealFilesV) -> Seq<(Seq<char>, Seq<u8>)> {
    with_file(with_file(with_file(store, o.esl_path, o.esl), o.sv_path, o.sv), o.xml_path, o.xml)
}

/// `added` with `p` last, unless `p` is a name of the archive or was added.
pub open spec fn note_added(names: Seq<Seq<char>>, added: Seq<Seq<char>>, p: Seq<char>) -> Seq<Seq<char>> {
    if names.contains(p) || added.contains(p) {
        added
    } else {
        added.push(p)
    }
}

/// `added` with the paths of a seal's files noted.
pub open spec fn note_seal(names: Seq<Seq<char>>, added: Seq<Seq<char>>, o: SealFilesV) -> Seq<Seq<char>> {
    note_added(names, note_added(names, note_added(names, added, o.esl_path), o.sv_path), o.xml_path)
}

/// The files filed after the seals' files `outs`.
pub open spec fn store_after(store: Seq<(Seq<char>, Seq<u8>)>, outs: Seq<SealFilesV>) -> Seq<(Seq<char>, Seq<u8>)>
    decreases outs.len(),
{
    if outs.len() == 0 {
        store
    } else {
        with_seal_files(store_after(store, outs.drop_last()), outs.last())
    }
}

/// The new paths, in the order first filed, after the seals' files `outs`.
pub open spec fn added_after(names: Seq<Seq<char>>, outs: Seq<SealFilesV>) -> Seq<Seq<char>>
    decreases outs.len(),
{
    if outs.len() == 0 {
        Seq::empty()
    } else {
        note_seal(names, added_after(names, outs.drop_last()), outs.last())
    }
}

/// Whether `outs` holds, for each seal in turn, files it may add.
pub open spec fn seals_files_ok(
    outs: Seq<SealFilesV>,
    root: Seq<char>,
    seals: Seq<PlacedSeal>,
    boundaries: Seq<Seq<char>>,
    store: Seq<(Seq<char>, Seq<u8>)>,
) -> bool {
    &&& outs.len() == seals.len()
    &&& forall|k: int|
        0 <= k < seals.len() ==> #[trigger] seal_files_for(
            outs[k],
            root,
            seals[k],
            k as nat,
            store_after(store, outs.take(k)),
            boundaries[k],
        )
}

/// `store` with `OFD.xml`, where there is one, listing the `n` signatures.
pub open spec fn with_ofd_xml(store: Seq<(Seq<char>, Seq<u8>)>, root: Seq<char>, n: nat) -> Seq<(Seq<char>, Seq<u8>)> {
    match file_of(store, "OFD.xml"@) {
        Some(x) => with_file(store, "OFD.xml"@, encode_utf8(ofd_xml_updated(utf8_lossy_of(x), root, n))),
        None => store,
    }
}

/// The files written for `names`: each name with the bytes filed under it.
pub open spec fn written(names: Seq<Seq<char>>, store: Seq<(Seq<char>, Seq<u8>)>) -> Seq<(Seq<char>, Seq<u8>)>
    decreases names.len(),
{
    if names.len() == 0 {
        Seq::empty()
    } else {
        let rest = written(names.drop_last(), store);
        match file_of(store, names.last()) {
            Some(c) => rest.push((names.last(), c)),
            None => rest,
        }
    }
}

/// The files of the signed package: the archive's files in their order,
/// then the new ones, each with its final bytes; `OFD.xml` lists the `n`
/// signatures.
pub open spec fn signed_package(
    files: Seq<(Seq<char>, Seq<u8>)>,
    root: Seq<char>,
    n: nat,
    outs: Seq<SealFilesV>,
) -> Seq<(Seq<char>, Seq<u8>)> {
    let names = names_of(files);
    written(names + added_after(names, outs), with_ofd_xml(store_after(filed(files), outs), root, n))
}

/// The message for a failed read of the archive.
pub open spec fn zip_read_message(f: ZipFaultV) -> Seq<char> {
    match f {
        ZipFaultV::Open(m) => "OFD ZIP解析失败: "@ + m,
        ZipFaultV::Entry(m) => "读取ZIP条目失败: "@ + m,
        ZipFaultV::Read(m) => "读取文件内容失败: "@ + m,
    }
}

#[verifier::spinoff_prover]
fn bytes_copy(b: &[u8]) -> (r: Vec<u8>)
    ensures
        r@ == b@,
{
    let mut v: Vec<u8> = Vec::new();
    extend_bytes(&mut v, b);
    assert(v@ =~= b@);
    v
}

/// The bytes filed under `name` (see `file_of`).
#[verifier::spinoff_prover]
fn lookup_bytes<'a>(store: &'a Vec<(String, Vec<u8>)>, name: &str) -> (r: Option<&'a [u8]>)
    ensures
        opt_bytes(r) == file_of(files_view(store@), name@),
{
    proof {
        lemma_file_of_index(files_view(store@), name@, 0);
        assert(files_view(store@).skip(0) =~= files_view(store@));
    }
    match file_lookup(store, name) {
        Some(i) => Some(store[i].1.as_slice()),
        None => None,
    }
}

/// Whether `p` is among `v`.
#[verifier::spinoff_prover]
fn has_text(v: &Vec<String>, p: &str) -> (r: bool)
    ensures
        r == texts(v@).contains(p@),
{
    let mut i: usize = 0;
    while i < v.len()
        invariant
            i <= v@.len(),
            forall|j: int| 0 <= j < i ==> texts(v@)[j] != p@,
        decreases v.len() - i,
    {
        if str_eq(v[i].as_str(), p) {
            assert(texts(v@)[i as int] == p@);
            return true;
        }
        i = i + 1;
    }
    false
}

/// Note `p` as added (see `note_added`).
#[verifier::spinoff_prover]
fn note_path(names: &Vec<String>, added: &mut Vec<String>, p: &str)
    ensures
        texts(final(added)@) == note_added(texts(names@), texts(old(added)@), p@),
{
    if !has_text(names, p) && !has_text(added, p) {
        added.push(string_of(p));
        assert(texts(added@) =~= texts(old(added)@).push(p@));
    }
}

/// The archive's names, in order, and its files filed by name.
#[verifier::spinoff_prover]
fn file_all(files: &Vec<(String, Vec<u8>)>) -> (r: (Vec<String>, Vec<(String, Vec<u8>)>))
    ensures
        texts(r.0@) == names_of(files_view(files@)),
        files_view(r.1@) == filed(files_view(files@)),
{
    let ghost fv = files_view(files@);
    let mut names: Vec<String> = Vec::new();
    let mut store: Vec<(String, Vec<u8>)> = Vec::new();
    let mut i: usize = 0;
    assert(fv.take(0) =~= Seq::<(Seq<char>, Seq<u8>)>::empty());
    while i < files.len()
        invariant
            i <= files@.len(),
            fv == files_view(files@),
            texts(names@) == names_of(fv.take(i as int)),
            files_view(store@) == filed(fv.take(i as int)),
        decreases files.len() - i,
    {
        let ghost before = names@;
        let name = string_of(files[i].0.as_str());
        names.push(string_of(files[i].0.as_str()));
        file_set(&mut store, name, bytes_copy(files[i].1.as_slice()));
        assert(fv.take(i + 1).drop_last() =~= fv.take(i as int));
        assert(names_of(fv.take(i + 1)) =~= names_of(fv.take(i as int)).push(fv[i as int].0));
        assert(texts(names@) =~= texts(before).push(fv[i as int].0));
        i = i + 1;
    }
    assert(fv.take(i as int) =~= fv);
    (names, store)
}

/// File a seal's files, noting the new paths (see `with_seal_files`,
/// `note_seal`).
#[verifier::spinoff_prover]
fn file_seal(store: &mut Vec<(String, Vec<u8>)>, names: &Vec<String>, added: &mut Vec<String>, out: OfdSealFiles)
    ensures
        files_view(final(store)@) == with_seal_files(files_view(old(store)@), seal_files_view(out)),
        texts(final(added)@) == note_seal(texts(names@), texts(old(added)@), seal_files_view(out)),
{
    note_path(names, added, out.seal_esl_path.as_str());
    file_set(store, out.seal_esl_path, out.seal_esl);
    note_path(names, added, out.signed_value_path.as_str());
    file_set(store, out.signed_value_path, out.signed_value);
    note_path(names, added, out.sign_xml_path.as_str());
    file_set(store, out.sign_xml_path, out.sign_xml);
}

/// The files of the `idx`-th seal over the `Document.xml` and page content
/// filed in `store` (see `ofd_seal_files`).
#[verifier::spinoff_prover]
#[verifier::rlimit(40)]
fn seal_files_at(
    store: &Vec<(String, Vec<u8>)>,
    root: &str,
    seal: &PlacedSeal,
    idx: usize,
    boundary: &str,
    keys: &mut Sm2KeyStore,
) -> (r: Result<OfdSealFiles, String>)
    ensures
        r is Ok ==> seal_files_for(seal_files_view(r->Ok_0), root@, *seal, idx as nat, files_view(store@), boundary@),
        file_of(files_view(store@), doc_xml_path(root@)) is None ==> r is Err && r->Err_0@ == "未找到 "@ + root@
            + "/Document.xml"@,
        file_of(files_view(store@), doc_xml_path(root@)) is Some ==> r is Ok,
{
    let mut dp = string_of(root);
    push_str(&mut dp, "/Document.xml");
    let mut pp = string_of(root);
    push_str(&mut pp, "/Pages/Page_");
    push_decimal(&mut pp, seal.page_index as u64);
    push_str(&mut pp, "/Content.xml");
    let doc = lookup_bytes(store, dp.as_str());
    let page = lookup_bytes(store, pp.as_str());
    let r = ofd_seal_files(root, seal, idx, doc, page, boundary, keys);
    proof {
        reveal(seal_files_for);
    }
    r
}

/// File each seal's signature files in turn (see `ofd_seal_files`), the new
/// paths noted in `added`.
#[verifier::rlimit(40)]
#[verifier::spinoff_prover]
fn add_seal_files(
    store: &mut Vec<(String, Vec<u8>)>,
    names: &Vec<String>,
    added: &mut Vec<String>,
    root: &str,
    seals: &[PlacedSeal],
    boundaries: &[String],
    keys: &mut Sm2KeyStore,
) -> (r: Result<(), String>)
    requires
        seals@.len() == boundaries@.len(),
        old(added)@.len() == 0,
    ensures
        r is Ok ==> exists|outs: Seq<SealFilesV>|
            #[trigger] seals_files_ok(outs, root@, seals@, texts(boundaries@), files_view(old(store)@))
                && files_view(final(store)@) == store_after(files_view(old(store)@), outs) && texts(final(added)@)
                == added_after(texts(names@), outs),
        seals@.len() > 0 && file_of(files_view(old(store)@), doc_xml_path(root@)) is None ==> r is Err
            && r->Err_0@ == "未找到 "@ + root@ + "/Document.xml"@,
{
    let ghost s0 = files_view(store@);
    let ghost mut outs: Seq<SealFilesV> = Seq::empty();
    assert(texts(added@) =~= Seq::<Seq<char>>::empty());
    let mut k: usize = 0;
    while k < seals.len()
        invariant
            k <= seals@.len(),
            seals@.len() == boundaries@.len(),
            outs.len() == k,
            s0 == files_view(old(store)@),
            k > 0 ==> file_of(s0, doc_xml_path(root@)) is Some,
            files_view(store@) == store_after(s0, outs),
            texts(added@) == added_after(texts(names@), outs),
            forall|j: int|
                0 <= j < k ==> #[trigger] seal_files_for(
                    outs[j],
                    root@,
                    seals@[j],
                    j as nat,
                    store_after(s0, outs.take(j)),
                    texts(boundaries@)[j],
                ),
        decreases seals@.len() - k,
    {
        let ghost st = files_view(store@);
        assert(k == 0 ==> st == s0);
        let out = match seal_files_at(store, root, &seals[k], k, boundaries[k].as_str(), keys) {
            Ok(o) => o,
            Err(e) => {
                return Err(e);
            },
        };
        let ghost o = seal_files_view(out);
        assert(texts(boundaries@)[k as int] == boundaries@[k as int]@);
        file_seal(store, names, added, out);
        proof {
            let no = outs.push(o);
            assert(no.drop_last() =~= outs);
            assert(no.take(k as int) =~= outs);
            assert forall|j: int| 0 <= j < k + 1 implies #[trigger] seal_files_for(
                no[j],
                root@,
                seals@[j],
                j as nat,
                store_after(s0, no.take(j)),
                texts(boundaries@)[j],
            ) by {
                if j < k {
                    assert(no.take(j) =~= outs.take(j));
                }
            }
            outs = no;
        }
        k = k + 1;
    }
    assert(seals_files_ok(outs, root@, seals@, texts(boundaries@), s0));
    Ok(())
}

/// The files written for `all` (see `written`).
#[verifier::spinoff_prover]
fn write_list(all: &Vec<String>, store: &Vec<(String, Vec<u8>)>) -> (r: Vec<(String, Vec<u8>)>)
    ensures
        files_view(r@) == written(texts(all@), files_view(store@)),
{
    let ghost nv = texts(all@);
    let mut out: Vec<(String, Vec<u8>)> = Vec::new();
    let mut i: usize = 0;
    assert(nv.take(0) =~= Seq::<Seq<char>>::empty());
    assert(files_view(out@) =~= Seq::<(Seq<char>, Seq<u8>)>::empty());
    while i < all.len()
        invariant
            i <= all@.len(),
            nv == texts(all@),
            files_view(out@) == written(nv.take(i as int), files_view(store@)),
        decreases all.len() - i,
    {
        let ghost before = files_view(out@);
        assert(nv.take(i + 1).drop_last() =~= nv.take(i as int));
        assert(nv.take(i + 1).last() == all@[i as int]@);
        match lookup_bytes(store, all[i].as_str()) {
            Some(c) => {
                out.push((string_of(all[i].as_str()), bytes_copy(c)));
                assert(files_view(out@) =~= before.push((all@[i as int]@, c@)));
            },
            None => {},
        }
        i = i + 1;
    }
    assert(nv.take(i as int) =~= nv);
    out
}

/// `a` then `b`, copied.
#[verifier::spinoff_prover]
fn concat_texts(a: &Vec<String>, b: &Vec<String>) -> (r: Vec<String>)
    ensures
        texts(r@) == texts(a@) + texts(b@),
{
    let mut out: Vec<String> = Vec::new();
    let mut i: usize = 0;
    while i < a.len()
        invariant
            i <= a@.len(),
            texts(out@) == texts(a@).take(i as int),
        decreases a.len() - i,
    {
        out.push(string_of(a[i].as_str()));
        assert(texts(a@).take(i + 1) =~= texts(a@).take(i as int).push(a@[i as int]@));
        assert(texts(out@) =~= texts(a@).take(i + 1));
        i = i + 1;
    }
    let mut j: usize = 0;
    while j < b.len()
        invariant
            i == a@.len(),
            j <= b@.len(),
            texts(out@) == texts(a@) + texts(b@).take(j as int),
        decreases b.len() - j,
    {
        let ghost before = out@;
        out.push(string_of(b[j].as_str()));
        assert(texts(out@) =~= texts(before).push(b@[j as int]@));
        assert(texts(b@).take(j + 1) =~= texts(b@).take(j as int).push(b@[j as int]@));
        assert(texts(out@) =~= texts(a@) + texts(b@).take(j + 1));
        j = j + 1;
    }
    assert(texts(a@).take(i as int) =~= texts(a@));
    assert(texts(b@).take(j as int) =~= texts(b@));
    out
}

#[verifier::spinoff_prover]
fn zip_read_text(f: ZipFault) -> (r: String)
    ensures
        r@ == zip_read_message(f@),
{
    match f {
        ZipFault::Open(m) => {
            let mut s = string_of("OFD ZIP解析失败: ");
            push_str(&mut s, m.as_str());
            s
        },
        ZipFault::Entry(m) => {
            let mut s = string_of("读取ZIP条目失败: ");
            push_str(&mut s, m.as_str());
            s
        },
        ZipFault::Read(m) => {
            let mut s = string_of("读取文件内容失败: ");
            push_str(&mut s, m.as_str());
            s
        },
    }
}

/// Add one signature per seal to an OFD package: the archive's files are
/// read, each seal's `Seal.esl`, `SignedValue.dat` and `Sign_N.xml` filed
/// (`boundaries[k]` is the `k`-th stamp's boundary attributes), `OFD.xml`
/// made to list the signatures, and the files packed again: the archive's
/// own in their order, then the new ones.
#[verifier::rlimit(60)]
#[verifier::spinoff_prover]
pub fn embed_seals_to_ofd(data: &[u8], seals: &[PlacedSeal], boundaries: &[String], keys: &mut Sm2KeyStore) -> (r:
    Result<Vec<u8>, String>)
    requires
        seals@.len() == boundaries@.len(),
    ensures
        seals@.len() == 0 ==> r is Ok && r->Ok_0@ == data@,
        seals@.len() > 0 ==> match zip_files_of(data@) {
            Err(f) => r is Err && r->Err_0@ == zip_read_message(f),
            Ok(files) => match doc_root_of(file_of(filed(files), "OFD.xml"@), names_of(files)) {
                Err(e) => r is Err && r->Err_0@ == e,
                Ok(root) => {
                    &&& file_of(filed(files), doc_xml_path(root)) is None ==> r is Err && r->Err_0@ == "未找到 "@ + root
                        + "/Document.xml"@
                    &&& r is Ok ==> exists|outs: Seq<SealFilesV>|
                        #[trigger] seals_files_ok(outs, root, seals@, texts(boundaries@), filed(files)) && zip_packed_of(
                            signed_package(files, root, seals@.len(), outs),
                        ) == Ok::<Seq<u8>, ZipWriteFaultV>(r->Ok_0@)
                },
            },
        },
{
    if seals.len() == 0 {
        return Ok(bytes_copy(data));
    }
    let files = match zip_files(data) {
        Ok(f) => f,
        Err(f) => {
            return Err(zip_read_text(f));
        },
    };
    let ghost fv = files_view(files@);
    let (names, mut store) = file_all(&files);
    let root = match find_doc_root(lookup_bytes(&store, "OFD.xml"), names.as_slice()) {
        Ok(r) => r,
        Err(e) => {
            return Err(e);
        },
    };
    let mut added: Vec<String> = Vec::new();
    match add_seal_files(&mut store, &names, &mut added, root.as_str(), seals, boundaries, keys) {
        Ok(()) => {},
        Err(e) => {
            return Err(e);
        },
    }
    let ghost outs = choose|outs: Seq<SealFilesV>|
        #[trigger] seals_files_ok(outs, root@, seals@, texts(boundaries@), filed(fv))
            && files_view(store@) == store_after(filed(fv), outs) && texts(added@) == added_after(
            names_of(fv),
            outs,
        );
    let ghost before_ofd = files_view(store@);
    let ofd = match lookup_bytes(&store, "OFD.xml") {
        Some(x) => Some(utf8_lossy(x)),
        None => None,
    };
    match ofd {
        Some(text) => {
            let updated = update_ofd_xml(text.as_str(), root.as_str(), seals.len());
            let b = bytes_copy(updated.as_str().as_bytes());
            file_set(&mut store, string_of("OFD.xml"), b);
        },
        None => {},
    }
    assert(files_view(store@) == with_ofd_xml(before_ofd, root@, seals@.len()));
    let all = concat_texts(&names, &added);
    let list = write_list(&all, &store);
    assert(files_view(list@) == signed_package(fv, root@, seals@.len(), outs));
    match zip_pack(&list) {
        Ok(b) => Ok(b),
        Err(ZipWriteFault::Write(m)) => {
            let mut s = string_of("ZIP写入失败: ");
            push_str(&mut s, m.as_str());
            Err(s)
        },
        Err(ZipWriteFault::Finish(m)) => {
            let mut s = string_of("ZIP打包失败: ");
            push_str(&mut s, m.as_str());
            Err(s)
        },
    }
}

} // verus!
