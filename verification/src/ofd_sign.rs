//! Signing OFD documents (GB/T 33190-2016): the signature description
//! `Sign_N.xml`, the files each seal adds under `Doc_N/Signs/Sign_N/`, and
//! the `Signs` references in `OFD.xml`.

use vstd::prelude::*;
use vstd::string::StringSliceAdditionalSpecFns;
use crate::der::extend_bytes;
use crate::crypto::{b64_encode, base64_text, sm3_digest, sm3_hash, Sm2KeyStore};
use crate::font_embed::{utf8_lossy, utf8_lossy_of};
use crate::pkcs7::build_mock_pkcs7;
use crate::seal::{mock_pkcs7_of, mock_ses_signature_of};
use crate::ses::{
    build_mock_ses_seal, build_mock_ses_signature, mock_signature_of, params_from_seal, ses_params_from_seal_info,
    signature_oid_text, spec_ses_seal, spec_ses_seal_info, SealAlgorithm, SesParams,
};
use crate::text::{
    chars_of, contains, contains_str, dec_chars, find_chars, find_in, has_suffix, lemma_find_chars, pad_dec_chars,
    push_decimal, push_decimal_padded, push_str, replace_all, replace_from, str_eq, string_from_chars, string_of,
    strip_suffixes, texts, trim_end, trim_end_matches_str, trim_end_string, ends_with,
};
use crate::types::{PlacedSeal, SealInfo};

verus! {

// ------------------------------------------------------------
// The document root
// ------------------------------------------------------------

/// The directory part of a `DocRoot` path: up to its first `/`.
pub open spec fn root_dir(path: Seq<char>) -> Seq<char> {
    match find_chars(path, seq!['/'], 0) {
        Some(k) => path.take(k as int),
        None => path,
    }
}

/// Directory of the path between the first `open` tag and the next `close`.
pub open spec fn tagged_root(text: Seq<char>, open: Seq<char>, close: Seq<char>) -> Option<Seq<char>> {
    match find_chars(text, open, 0) {
        None => None,
        Some(st) => match find_chars(text, close, st + open.len()) {
            None => None,
            Some(e) => Some(root_dir(text.subrange((st + open.len()) as int, e as int))),
        },
    }
}

/// Directory of the first name, at or after `i`, of a `Doc_*/…/Document.xml`.
pub open spec fn root_from_names(names: Seq<Seq<char>>, i: nat) -> Result<Seq<char>, Seq<char>>
    decreases names.len() - i,
{
    if i >= names.len() {
        Err("未找到OFD文档根路径"@)
    } else if has_suffix(names[i as int], "/Document.xml"@) && contains_str(names[i as int], "Doc_"@) {
        Ok(root_dir(names[i as int]))
    } else {
        root_from_names(names, i + 1)
    }
}

/// Root directory of an OFD package: the `DocRoot` that `OFD.xml` names
/// (with or without the `ofd:` prefix), else that of the first
/// `Doc_*/…/Document.xml` among `names`.
pub open spec fn doc_root_of(ofd_xml: Option<Seq<u8>>, names: Seq<Seq<char>>) -> Result<Seq<char>, Seq<char>> {
    let from_xml: Option<Seq<char>> = match ofd_xml {
        Some(b) => match tagged_root(utf8_lossy_of(b), "<ofd:DocRoot>"@, "</ofd:DocRoot>"@) {
            Some(r) => Some(r),
            None => tagged_root(utf8_lossy_of(b), "<DocRoot>"@, "</DocRoot>"@),
        },
        None => None,
    };
    match from_xml {
        Some(r) => Ok(r),
        None => root_from_names(names, 0),
    }
}

fn root_dir_exec(cs: &Vec<char>, lo: usize, hi: usize) -> (r: String)
    requires
        lo <= hi <= cs@.len(),
    ensures
        r@ == root_dir(cs@.subrange(lo as int, hi as int)),
{
    let piece = string_from_chars(cs.as_slice(), lo, hi);
    let pcs = chars_of(piece.as_str());
    let slash: Vec<char> = vec!['/'];
    assert(slash@ =~= seq!['/']);
    match find_in(&pcs, &slash, 0) {
        Some(k) => {
            proof {
                lemma_find_chars(pcs@, slash@, 0);
            }
            let r = string_from_chars(pcs.as_slice(), 0, k);
            assert(r@ =~= pcs@.take(k as int));
            r
        },
        None => piece,
    }
}

fn tagged_root_exec(text: &Vec<char>, open: &str, close: &str) -> (r: Option<String>)
    ensures
        match r {
            Some(s) => tagged_root(text@, open@, close@) == Some(s@),
            None => tagged_root(text@, open@, close@) is None,
        },
{
    let o = chars_of(open);
    let c = chars_of(close);
    match find_in(text, &o, 0) {
        None => None,
        Some(st) => {
            proof {
                lemma_find_chars(text@, o@, 0);
            }
            let n: usize = text.len();
            let cs: usize = st + o.len();
            match find_in(text, &c, cs) {
                None => None,
                Some(e) => {
                    proof {
                        lemma_find_chars(text@, c@, cs as nat);
                    }
                    Some(root_dir_exec(text, cs, e))
                },
            }
        },
    }
}

/// The bytes of an optional slice.
pub open spec fn opt_bytes(o: Option<&[u8]>) -> Option<Seq<u8>> {
    match o {
        Some(b) => Some(b@),
        None => None,
    }
}

/// Root directory of an OFD package (see `doc_root_of`); the names are
/// tried in the order given.
pub fn find_doc_root(ofd_xml: Option<&[u8]>, names: &[String]) -> (r: Result<String, String>)
    ensures
        match doc_root_of(opt_bytes(ofd_xml), texts(names@)) {
            Ok(root) => r is Ok && r->Ok_0@ == root,
            Err(e) => r is Err && r->Err_0@ == e,
        },
{
    match ofd_xml {
        Some(b) => {
            let text = utf8_lossy(b);
            let tcs = chars_of(text.as_str());
            match tagged_root_exec(&tcs, "<ofd:DocRoot>", "</ofd:DocRoot>") {
                Some(r) => {
                    return Ok(r);
                },
                None => {},
            }
            match tagged_root_exec(&tcs, "<DocRoot>", "</DocRoot>") {
                Some(r) => {
                    return Ok(r);
                },
                None => {},
            }
        },
        None => {},
    }
    let ghost xml_view: Option<Seq<u8>> = opt_bytes(ofd_xml);
    assert(doc_root_of(xml_view, texts(names@)) == root_from_names(texts(names@), 0));
    let mut i: usize = 0;
    while i < names.len()
        invariant
            i <= names@.len(),
            xml_view == opt_bytes(ofd_xml),
            doc_root_of(xml_view, texts(names@)) == root_from_names(texts(names@), i as nat),
        decreases names@.len() - i,
    {
        let name = names[i].as_str();
        assert(name@ == texts(names@)[i as int]);
        assert(texts(names@).len() == names@.len());
        if ends_with(name, "/Document.xml") && contains(name, "Doc_") {
            let ncs = chars_of(name);
            let r = root_dir_exec(&ncs, 0, ncs.len());
            assert(ncs@.subrange(0, ncs@.len() as int) =~= ncs@);
            return Ok(r);
        }
        i = i + 1;
    }
    Err(string_of("未找到OFD文档根路径"))
}

// ------------------------------------------------------------
// OFD.xml
// ------------------------------------------------------------

/// `SignID` lines for signatures `0..n` under `root`.
pub open spec fn sign_ids(root: Seq<char>, n: nat) -> Seq<char>
    decreases n,
{
    if n == 0 {
        Seq::empty()
    } else {
        sign_ids(root, (n - 1) as nat) + "    <ofd:SignID>"@ + root + "/Signs/Sign_"@ + dec_chars((n - 1) as nat)
            + "/Sign_"@ + dec_chars((n - 1) as nat) + ".xml</ofd:SignID>\n"@
    }
}

/// `OFD.xml` with references to `n` signatures under `root`: appended to an
/// existing `Signs` element, else a `Signs` element put before the end of
/// `DocBody`, else a new `DocBody` at the end.
pub open spec fn ofd_xml_updated(xml: Seq<char>, root: Seq<char>, n: nat) -> Seq<char> {
    let ids = trim_end(sign_ids(root, n));
    if contains_str(xml, "<ofd:Signs>"@) || contains_str(xml, "<Signs>"@) {
        let a = replace_from(xml, "</ofd:Signs>"@, ids + "\n  </ofd:Signs>"@, 0);
        replace_from(a, "</Signs>"@, ids + "\n  </Signs>"@, 0)
    } else {
        let block = "    <ofd:Signs>\n"@ + ids + "\n    </ofd:Signs>\n  "@;
        let a = replace_from(xml, "</ofd:DocBody>"@, block + "  </ofd:DocBody>"@, 0);
        let b = replace_from(a, "</DocBody>"@, block + "  </DocBody>"@, 0);
        if b != xml {
            b
        } else {
            strip_suffixes(xml, "</ofd:OFD>"@) + "\n  <ofd:DocBody>\n    <ofd:Signs>\n"@ + ids
                + "\n    </ofd:Signs>\n  </ofd:DocBody>\n"@ + "</ofd:OFD>"@
        }
    }
}

/// Add references to `seal_count` signatures to `OFD.xml`.
pub fn update_ofd_xml(ofd_xml: &str, doc_root: &str, seal_count: usize) -> (r: String)
    ensures
        r@ == ofd_xml_updated(ofd_xml@, doc_root@, seal_count as nat),
{
    let mut signs_xml = String::new();
    let mut i: usize = 0;
    while i < seal_count
        invariant
            i <= seal_count,
            signs_xml@ == sign_ids(doc_root@, i as nat),
        decreases seal_count - i,
    {
        push_str(&mut signs_xml, "    <ofd:SignID>");
        push_str(&mut signs_xml, doc_root);
        push_str(&mut signs_xml, "/Signs/Sign_");
        push_decimal(&mut signs_xml, i as u64);
        push_str(&mut signs_xml, "/Sign_");
        push_decimal(&mut signs_xml, i as u64);
        push_str(&mut signs_xml, ".xml</ofd:SignID>\n");
        i = i + 1;
    }
    let ids = trim_end_string(signs_xml.as_str());
    proof {
        reveal_strlit("</ofd:Signs>");
        reveal_strlit("</Signs>");
        reveal_strlit("</ofd:DocBody>");
        reveal_strlit("</DocBody>");
    }
    if contains(ofd_xml, "<ofd:Signs>") || contains(ofd_xml, "<Signs>") {
        let mut to1 = string_of(ids.as_str());
        push_str(&mut to1, "\n  </ofd:Signs>");
        let a = replace_all(ofd_xml, "</ofd:Signs>", to1.as_str());
        let mut to2 = string_of(ids.as_str());
        push_str(&mut to2, "\n  </Signs>");
        return replace_all(a.as_str(), "</Signs>", to2.as_str());
    }
    let mut block = string_of("    <ofd:Signs>\n");
    push_str(&mut block, ids.as_str());
    push_str(&mut block, "\n    </ofd:Signs>\n  ");
    let mut to1 = string_of(block.as_str());
    push_str(&mut to1, "  </ofd:DocBody>");
    let a = replace_all(ofd_xml, "</ofd:DocBody>", to1.as_str());
    let mut to2 = string_of(block.as_str());
    push_str(&mut to2, "  </DocBody>");
    let b = replace_all(a.as_str(), "</DocBody>", to2.as_str());
    if !str_eq(b.as_str(), ofd_xml) {
        return b;
    }
    let mut out = trim_end_matches_str(ofd_xml, "</ofd:OFD>");
    push_str(&mut out, "\n  <ofd:DocBody>\n    <ofd:Signs>\n");
    push_str(&mut out, ids.as_str());
    push_str(&mut out, "\n    </ofd:Signs>\n  </ofd:DocBody>\n");
    push_str(&mut out, "</ofd:OFD>");
    out
}


// ------------------------------------------------------------
// Sign_N.xml
// ------------------------------------------------------------

/// `YYYY-MM-DDThh:mm:ss+08:00`.
pub open spec fn ofd_time_text(t: (u32, u32, u32, u32, u32, u32)) -> Seq<char> {
    pad_dec_chars(t.0 as nat, 4) + "-"@ + pad_dec_chars(t.1 as nat, 2) + "-"@ + pad_dec_chars(t.2 as nat, 2) + "T"@
        + pad_dec_chars(t.3 as nat, 2) + ":"@ + pad_dec_chars(t.4 as nat, 2) + ":"@ + pad_dec_chars(t.5 as nat, 2)
        + "+08:00"@
}

/// Path of the content of page `page` under `root`.
pub open spec fn page_content_path(root: Seq<char>, page: u32) -> Seq<char> {
    root + "/Pages/Page_"@ + dec_chars(page as nat) + "/Content.xml"@
}

/// The signature description `Sign_N.xml` (GB/T 33190-2016, clause 18):
/// references with the base64 digests of `Document.xml` and of the page
/// content, the stamp annotation with its boundary attributes, and the
/// paths of `SignedValue.dat` and of the seal.
#[verifier::opaque]
pub open spec fn sign_xml_text(
    sign_dir: Seq<char>,
    doc_root: Seq<char>,
    page: u32,
    idx: nat,
    doc_hash: Seq<u8>,
    page_hash: Seq<u8>,
    alg: SealAlgorithm,
    time: (u32, u32, u32, u32, u32, u32),
    boundary: Seq<char>,
) -> Seq<char> {
    let page_ref = page_content_path(doc_root, page);
    "<?xml version=\"1.0\" encoding=\"UTF-8\"?>\n<ofd:Signatures xmlns:ofd=\"http://www.ofdspec.org/2016\">\n  <ofd:Signature ID=\"s"@
        + dec_chars(idx) + "\" Type=\"Seal\">\n    <ofd:SignedData>\n      <ofd:Provider ProviderName=\"DianJu WASM Seal Engine\" Version=\"1.0\"/>\n      <ofd:SignatureMethod Algorithm=\""@
        + signature_oid_text(alg) + "\"/>\n      <ofd:SignatureDateTime>"@ + ofd_time_text(time)
        + "</ofd:SignatureDateTime>\n      <ofd:References>\n        <ofd:Ref ID=\"r1\" Type=\"OFD\" FileRef=\""@
        + doc_root + "/Document.xml"@ + "\">\n          <ofd:CheckValue>"@ + base64_text(doc_hash)
        + "</ofd:CheckValue>\n        </ofd:Ref>\n        <ofd:Ref ID=\"r2\" Type=\"OFD\" FileRef=\""@ + page_ref
        + "\">\n          <ofd:CheckValue>"@ + base64_text(page_hash)
        + "</ofd:CheckValue>\n        </ofd:Ref>\n      </ofd:References>\n      <ofd:StampAnnot>\n        <ofd:PageRef PageRef=\""@
        + dec_chars(page as nat) + "\"/>\n        <ofd:ID>stamp-"@ + pad_dec_chars(idx, 3)
        + "</ofd:ID>\n        <ofd:Boundary "@ + boundary
        + "/>\n        <ofd:RefType>OFD</ofd:RefType>\n        <ofd:FileRef>"@ + page_ref
        + "</ofd:FileRef>\n      </ofd:StampAnnot>\n    </ofd:SignedData>\n    <ofd:SignedValue FileRef=\"SignedValue.dat\"/>\n    <ofd:Seal>\n      <ofd:SealObj Type=\"OFD\" BaseLoc=\""@
        + sign_dir + "/Seal.esl"@ + "\"/>\n    </ofd:Seal>\n  </ofd:Signature>\n</ofd:Signatures>\n"@
}

/// Build `Sign_N.xml` for `seal`; `boundary` holds the stamp's `x`, `y`,
/// `w` and `h` attributes in millimetres.
pub fn build_sign_xml(
    sign_dir: &str,
    doc_root: &str,
    seal: &PlacedSeal,
    sign_index: usize,
    doc_xml_hash: &[u8],
    page_xml_hash: &[u8],
    ses_params: &SesParams,
    boundary: &str,
) -> (r: String)
    ensures
        r@ == sign_xml_text(
            sign_dir@,
            doc_root@,
            seal.page_index,
            sign_index as nat,
            doc_xml_hash@,
            page_xml_hash@,
            ses_params.algorithm,
            ses_params.sign_time,
            boundary@,
        ),
{
    let t = ses_params.sign_time;
    let mut time = String::new();
    push_decimal_padded(&mut time, t.0 as u64, 4);
    push_str(&mut time, "-");
    push_decimal_padded(&mut time, t.1 as u64, 2);
    push_str(&mut time, "-");
    push_decimal_padded(&mut time, t.2 as u64, 2);
    push_str(&mut time, "T");
    push_decimal_padded(&mut time, t.3 as u64, 2);
    push_str(&mut time, ":");
    push_decimal_padded(&mut time, t.4 as u64, 2);
    push_str(&mut time, ":");
    push_decimal_padded(&mut time, t.5 as u64, 2);
    push_str(&mut time, "+08:00");
    assert(time@ =~= ofd_time_text(t));
    let mut page_ref = string_of(doc_root);
    push_str(&mut page_ref, "/Pages/Page_");
    push_decimal(&mut page_ref, seal.page_index as u64);
    push_str(&mut page_ref, "/Content.xml");
    assert(page_ref@ =~= page_content_path(doc_root@, seal.page_index));
    let doc_hash_b64 = b64_encode(doc_xml_hash);
    let page_hash_b64 = b64_encode(page_xml_hash);
    let mut x = string_of(
        "<?xml version=\"1.0\" encoding=\"UTF-8\"?>\n<ofd:Signatures xmlns:ofd=\"http://www.ofdspec.org/2016\">\n  <ofd:Signature ID=\"s",
    );
    push_decimal(&mut x, sign_index as u64);
    push_str(&mut x, "\" Type=\"Seal\">\n    <ofd:SignedData>\n      <ofd:Provider ProviderName=\"DianJu WASM Seal Engine\" Version=\"1.0\"/>\n      <ofd:SignatureMethod Algorithm=\"");
    push_str(&mut x, ses_params.algorithm.signature_oid());
    push_str(&mut x, "\"/>\n      <ofd:SignatureDateTime>");
    push_str(&mut x, time.as_str());
    push_str(&mut x, "</ofd:SignatureDateTime>\n      <ofd:References>\n        <ofd:Ref ID=\"r1\" Type=\"OFD\" FileRef=\"");
    push_str(&mut x, doc_root);
    push_str(&mut x, "/Document.xml");
    push_str(&mut x, "\">\n          <ofd:CheckValue>");
    push_str(&mut x, doc_hash_b64.as_str());
    push_str(&mut x, "</ofd:CheckValue>\n        </ofd:Ref>\n        <ofd:Ref ID=\"r2\" Type=\"OFD\" FileRef=\"");
    push_str(&mut x, page_ref.as_str());
    push_str(&mut x, "\">\n          <ofd:CheckValue>");
    push_str(&mut x, page_hash_b64.as_str());
    push_str(&mut x, "</ofd:CheckValue>\n        </ofd:Ref>\n      </ofd:References>\n      <ofd:StampAnnot>\n        <ofd:PageRef PageRef=\"");
    push_decimal(&mut x, seal.page_index as u64);
    push_str(&mut x, "\"/>\n        <ofd:ID>stamp-");
    push_decimal_padded(&mut x, sign_index as u64, 3);
    push_str(&mut x, "</ofd:ID>\n        <ofd:Boundary ");
    push_str(&mut x, boundary);
    push_str(&mut x, "/>\n        <ofd:RefType>OFD</ofd:RefType>\n        <ofd:FileRef>");
    push_str(&mut x, page_ref.as_str());
    push_str(&mut x, "</ofd:FileRef>\n      </ofd:StampAnnot>\n    </ofd:SignedData>\n    <ofd:SignedValue FileRef=\"SignedValue.dat\"/>\n    <ofd:Seal>\n      <ofd:SealObj Type=\"OFD\" BaseLoc=\"");
    push_str(&mut x, sign_dir);
    push_str(&mut x, "/Seal.esl");
    push_str(&mut x, "\"/>\n    </ofd:Seal>\n  </ofd:Signature>\n</ofd:Signatures>\n");
    reveal(sign_xml_text);
    assert(x@ =~= sign_xml_text(
        sign_dir@,
        doc_root@,
        seal.page_index,
        sign_index as nat,
        doc_xml_hash@,
        page_xml_hash@,
        ses_params.algorithm,
        ses_params.sign_time,
        boundary@,
    ));
    x
}


// ------------------------------------------------------------
// The files of one seal
// ------------------------------------------------------------

/// `root/Signs/Sign_N`.
pub open spec fn sign_dir_text(root: Seq<char>, idx: nat) -> Seq<char> {
    root + "/Signs/Sign_"@ + dec_chars(idx)
}

/// Whether `esl` is an SES_Seal the mock signer may make for the seal `info`.
pub open spec fn mock_ses_seal_of(info: SealInfo, alg: SealAlgorithm, esl: Seq<u8>) -> bool {
    exists|sig: Seq<u8>|
        esl == spec_ses_seal(params_from_seal(info, alg), sig) && mock_signature_of(
            alg,
            spec_ses_seal_info(params_from_seal(info, alg)),
            sig,
        )
}

/// Whether `sv` is a PKCS#7 value the mock signer may make (SM2) around an
/// SES_Signature over `xml` for the seal `info`.
pub open spec fn signed_value_of(info: SealInfo, xml: Seq<u8>, sv: Seq<u8>) -> bool {
    exists|ses: Seq<u8>|
        mock_ses_signature_of(info, SealAlgorithm::Sm2, xml, ses) && #[trigger] mock_pkcs7_of(
            SealAlgorithm::Sm2,
            ses,
            sm3_digest(xml),
            params_from_seal(info, SealAlgorithm::Sm2).sign_time,
            sv,
        )
}

fn ofd_signed_value(info: &SealInfo, xml: &[u8], store: &mut Sm2KeyStore) -> (r: Vec<u8>)
    ensures
        signed_value_of(*info, xml@, r@),
{
    let params = ses_params_from_seal_info(info, SealAlgorithm::Sm2);
    let xml_hash = sm3_hash(xml);
    let ses_sig_der = build_mock_ses_signature(&params, xml, store);
    let pkcs7_der = build_mock_pkcs7(SealAlgorithm::Sm2, ses_sig_der.as_slice(), xml_hash.as_slice(), params.sign_time, store);
    assert(mock_ses_signature_of(*info, SealAlgorithm::Sm2, xml@, ses_sig_der@));
    assert(mock_pkcs7_of(SealAlgorithm::Sm2, ses_sig_der@, sm3_digest(xml@), params.sign_time, pkcs7_der@));
    pkcs7_der
}

/// The files one seal adds to an OFD package, with their paths.
pub struct OfdSealFiles {
    pub seal_esl_path: String,
    pub seal_esl: Vec<u8>,
    pub signed_value_path: String,
    pub signed_value: Vec<u8>,
    pub sign_xml_path: String,
    pub sign_xml: Vec<u8>,
}

/// The files of the `idx`-th seal (SM2): `Seal.esl` (SES_Seal),
/// `Sign_N.xml` over the digests of `Document.xml` and of the page content
/// (empty when the page has none), and `SignedValue.dat`, a PKCS#7 value
/// around an SES_Signature over `Sign_N.xml`.
pub fn ofd_seal_files(
    doc_root: &str,
    seal: &PlacedSeal,
    idx: usize,
    doc_xml: Option<&[u8]>,
    page_xml: Option<&[u8]>,
    boundary: &str,
    store: &mut Sm2KeyStore,
) -> (r: Result<OfdSealFiles, String>)
    ensures
        doc_xml is None ==> r is Err && r->Err_0@ == "未找到 "@ + doc_root@ + "/Document.xml"@,
        doc_xml matches Some(d) ==> {
            &&& r is Ok
            &&& r->Ok_0.seal_esl_path@ == sign_dir_text(doc_root@, idx as nat) + "/Seal.esl"@
            &&& r->Ok_0.signed_value_path@ == sign_dir_text(doc_root@, idx as nat) + "/SignedValue.dat"@
            &&& r->Ok_0.sign_xml_path@ == sign_dir_text(doc_root@, idx as nat) + "/Sign_"@ + dec_chars(idx as nat)
                + ".xml"@
            &&& r->Ok_0.sign_xml@ == vstd::utf8::encode_utf8(
                sign_xml_text(
                    sign_dir_text(doc_root@, idx as nat),
                    doc_root@,
                    seal.page_index,
                    idx as nat,
                    sm3_digest(d@),
                    match page_xml {
                        Some(p) => sm3_digest(p@),
                        None => Seq::<u8>::empty(),
                    },
                    SealAlgorithm::Sm2,
                    params_from_seal(seal.seal_info, SealAlgorithm::Sm2).sign_time,
                    boundary@,
                ),
            )
            &&& mock_ses_seal_of(seal.seal_info, SealAlgorithm::Sm2, r->Ok_0.seal_esl@)
            &&& signed_value_of(seal.seal_info, r->Ok_0.sign_xml@, r->Ok_0.signed_value@)
        },
{
    let mut sign_dir = string_of(doc_root);
    push_str(&mut sign_dir, "/Signs/Sign_");
    push_decimal(&mut sign_dir, idx as u64);
    let d = match doc_xml {
        Some(d) => d,
        None => {
            let mut msg = string_of("未找到 ");
            push_str(&mut msg, doc_root);
            push_str(&mut msg, "/Document.xml");
            return Err(msg);
        },
    };
    let doc_xml_hash = sm3_hash(d);
    let page_xml_hash: Vec<u8> = match page_xml {
        Some(p) => sm3_hash(p),
        None => Vec::new(),
    };
    let algorithm = SealAlgorithm::Sm2;
    let ses_params = ses_params_from_seal_info(&seal.seal_info, algorithm);
    let seal_esl = build_mock_ses_seal(&ses_params, store);
    let sign_xml = build_sign_xml(
        sign_dir.as_str(),
        doc_root,
        seal,
        idx,
        doc_xml_hash.as_slice(),
        page_xml_hash.as_slice(),
        &ses_params,
        boundary,
    );
    let sign_xml_bytes = sign_xml.as_str().as_bytes();
    let pkcs7_der = ofd_signed_value(&seal.seal_info, sign_xml_bytes, store);
    let mut xml_copy: Vec<u8> = Vec::new();
    extend_bytes(&mut xml_copy, sign_xml_bytes);
    let mut seal_esl_path = string_of(sign_dir.as_str());
    push_str(&mut seal_esl_path, "/Seal.esl");
    let mut signed_value_path = string_of(sign_dir.as_str());
    push_str(&mut signed_value_path, "/SignedValue.dat");
    let mut sign_xml_path = string_of(sign_dir.as_str());
    push_str(&mut sign_xml_path, "/Sign_");
    push_decimal(&mut sign_xml_path, idx as u64);
    push_str(&mut sign_xml_path, ".xml");
    assert(xml_copy@ =~= sign_xml_bytes@);
    assert(sign_dir@ =~= sign_dir_text(doc_root@, idx as nat));
    assert(seal_esl_path@ =~= sign_dir_text(doc_root@, idx as nat) + "/Seal.esl"@);
    assert(signed_value_path@ =~= sign_dir_text(doc_root@, idx as nat) + "/SignedValue.dat"@);
    assert(sign_xml_path@ =~= sign_dir_text(doc_root@, idx as nat) + "/Sign_"@ + dec_chars(idx as nat) + ".xml"@);
    Ok(OfdSealFiles {
        seal_esl_path,
        seal_esl,
        signed_value_path,
        signed_value: pkcs7_der,
        sign_xml_path,
        sign_xml: xml_copy,
    })
}

} // verus!
