use dianju_wasm_seal::crypto::{sm3_hash, Sm2KeyPair, Sm2KeyStore};
use dianju_wasm_seal::ofd_parser::{
    local_name, map_font_family, parent_dir, resolve_page_path, OfdColor, OfdDocInfo,
};
use dianju_wasm_seal::ofd_sign::{build_sign_xml, find_doc_root, ofd_seal_files, update_ofd_xml};
use dianju_wasm_seal::ses::SesParams;
use dianju_wasm_seal::ofd_package::embed_seals_to_ofd;
use std::io::{Read, Write};
use dianju_wasm_seal::types::{PlacedSeal, SealInfo};

fn quick_store() -> Sm2KeyStore {
    Sm2KeyStore { pair: Some(Sm2KeyPair { pubkey: Vec::new(), seckey: Vec::new() }) }
}

fn seal_info(name: &str, width: f64, height: f64) -> SealInfo {
    SealInfo {
        origin: "cloud".to_string(),
        seal_id: "test-001".to_string(),
        seal_name: name.to_string(),
        width_bits: width.to_bits(),
        height_bits: height.to_bits(),
        seal_type: Some(1),
        seal_image: String::new(),
        sign_cert_sn: None,
        sign_data: None,
        sign_cert: None,
        seal_start_time: None,
        seal_end_time: None,
        signer_name: None,
        sign_time: None,
        sign_method: None,
        cert_issuer: None,
        cert_subject: None,
        cert_start_time: None,
        cert_end_time: None,
        cert_algorithm: None,
        cert_data: None,
    }
}

fn placed(page: u32, x: f64, y: f64, w: f64, h: f64) -> PlacedSeal {
    PlacedSeal {
        id: 0,
        page_index: page,
        x_bits: x.to_bits(),
        y_bits: y.to_bits(),
        width_bits: w.to_bits(),
        height_bits: h.to_bits(),
        seal_info: seal_info("测试印章", 100.0, 100.0),
        signature: None,
        signed: false,
    }
}

/// Boundary attributes in millimetres, as the host writes them.
fn boundary(seal: &PlacedSeal) -> String {
    let mm = |b: u64| f64::from_bits(b) * 0.3528;
    format!(
        "x=\"{:.2}\" y=\"{:.2}\" w=\"{:.2}\" h=\"{:.2}\"",
        mm(seal.x_bits),
        mm(seal.y_bits),
        mm(seal.width_bits),
        mm(seal.height_bits)
    )
}

#[test]
fn test_build_sign_xml() {
    let seal = placed(0, 100.0, 200.0, 100.0, 100.0);
    let params = SesParams::default();
    let doc_hash = sm3_hash(b"<Document/>");
    let page_hash = sm3_hash(b"<Page/>");

    let xml = build_sign_xml(
        "Doc_0/Signs/Sign_0",
        "Doc_0",
        &seal,
        0,
        &doc_hash,
        &page_hash,
        &params,
        &boundary(&seal),
    );

    assert!(xml.contains("ofd:Signatures"));
    assert!(xml.contains("ofd:Signature"));
    assert!(xml.contains("Seal.esl"));
    assert!(xml.contains("SignedValue.dat"));
    assert!(xml.contains("StampAnnot"));
}

#[test]
fn sign_xml_fields() {
    let seal = placed(2, 100.0, 200.0, 100.0, 100.0);
    let params = SesParams::default();
    let xml = build_sign_xml("Doc_0/Signs/Sign_3", "Doc_0", &seal, 3, b"\x01\x02", b"", &params, &boundary(&seal));
    assert!(xml.starts_with("<?xml version=\"1.0\" encoding=\"UTF-8\"?>\n<ofd:Signatures xmlns:ofd=\"http://www.ofdspec.org/2016\">"));
    assert!(xml.contains("<ofd:Signature ID=\"s3\" Type=\"Seal\">"));
    assert!(xml.contains("<ofd:SignatureMethod Algorithm=\"1.2.156.10197.1.501\"/>"));
    assert!(xml.contains("<ofd:SignatureDateTime>2026-07-10T16:30:00+08:00</ofd:SignatureDateTime>"));
    assert!(xml.contains("FileRef=\"Doc_0/Document.xml\">\n          <ofd:CheckValue>AQI=</ofd:CheckValue>"));
    assert!(xml.contains("FileRef=\"Doc_0/Pages/Page_2/Content.xml\">\n          <ofd:CheckValue></ofd:CheckValue>"));
    assert!(xml.contains("<ofd:PageRef PageRef=\"2\"/>"));
    assert!(xml.contains("<ofd:ID>stamp-003</ofd:ID>"));
    assert!(xml.contains("<ofd:Boundary x=\"35.28\" y=\"70.56\" w=\"35.28\" h=\"35.28\"/>"));
    assert!(xml.contains("BaseLoc=\"Doc_0/Signs/Sign_3/Seal.esl\""));
    assert!(xml.ends_with("</ofd:Signatures>\n"));
}

#[test]
fn update_ofd_xml_appends_to_signs() {
    let xml = "<ofd:OFD><ofd:DocBody><ofd:Signs>\n  </ofd:Signs></ofd:DocBody></ofd:OFD>";
    let out = update_ofd_xml(xml, "Doc_0", 1);
    assert_eq!(
        out,
        "<ofd:OFD><ofd:DocBody><ofd:Signs>\n      <ofd:SignID>Doc_0/Signs/Sign_0/Sign_0.xml</ofd:SignID>\n  </ofd:Signs></ofd:DocBody></ofd:OFD>"
    );
}

#[test]
fn update_ofd_xml_into_docbody() {
    let xml = "<ofd:OFD><ofd:DocBody></ofd:DocBody></ofd:OFD>";
    let out = update_ofd_xml(xml, "Doc_0", 2);
    let ids = "    <ofd:SignID>Doc_0/Signs/Sign_0/Sign_0.xml</ofd:SignID>\n    <ofd:SignID>Doc_0/Signs/Sign_1/Sign_1.xml</ofd:SignID>";
    let expected = format!(
        "<ofd:OFD><ofd:DocBody>    <ofd:Signs>\n{}\n    </ofd:Signs>\n    </ofd:DocBody></ofd:OFD>",
        ids
    );
    assert_eq!(out, expected);
}

#[test]
fn update_ofd_xml_without_docbody() {
    let xml = "<ofd:OFD></ofd:OFD>";
    let out = update_ofd_xml(xml, "Doc_1", 1);
    assert_eq!(
        out,
        "<ofd:OFD>\n  <ofd:DocBody>\n    <ofd:Signs>\n    <ofd:SignID>Doc_1/Signs/Sign_0/Sign_0.xml</ofd:SignID>\n    </ofd:Signs>\n  </ofd:DocBody>\n</ofd:OFD>"
    );
}

#[test]
fn doc_root_from_ofd_xml() {
    let xml = b"<ofd:OFD><ofd:DocBody><ofd:DocRoot>Doc_0/Document.xml</ofd:DocRoot></ofd:DocBody></ofd:OFD>";
    assert_eq!(find_doc_root(Some(xml), &[]), Ok("Doc_0".to_string()));
    let plain = b"<OFD><DocRoot>Doc_7</DocRoot></OFD>";
    assert_eq!(find_doc_root(Some(plain), &[]), Ok("Doc_7".to_string()));
}

#[test]
fn doc_root_from_names() {
    let names = vec!["OFD.xml".to_string(), "Doc_2/Document.xml".to_string()];
    assert_eq!(find_doc_root(Some(b"<OFD/>"), &names), Ok("Doc_2".to_string()));
    assert_eq!(find_doc_root(None, &names), Ok("Doc_2".to_string()));
    assert_eq!(find_doc_root(None, &["a.xml".to_string()]), Err("未找到OFD文档根路径".to_string()));
}

#[test]
fn seal_files_need_document_xml() {
    let seal = placed(0, 1.0, 1.0, 1.0, 1.0);
    let mut store = quick_store();
    let r = ofd_seal_files("Doc_0", &seal, 0, None, None, "", &mut store);
    assert_eq!(r.err(), Some("未找到 Doc_0/Document.xml".to_string()));
}

#[test]
fn seal_files_paths_and_contents() {
    let seal = placed(0, 1.0, 1.0, 1.0, 1.0);
    let mut store = quick_store();
    let files = ofd_seal_files("Doc_0", &seal, 1, Some(b"<Document/>"), Some(b"<Page/>"), "x=\"1\"", &mut store)
        .unwrap();
    assert_eq!(files.seal_esl_path, "Doc_0/Signs/Sign_1/Seal.esl");
    assert_eq!(files.signed_value_path, "Doc_0/Signs/Sign_1/SignedValue.dat");
    assert_eq!(files.sign_xml_path, "Doc_0/Signs/Sign_1/Sign_1.xml");
    assert_eq!(files.seal_esl[0], 0x30);
    assert_eq!(files.signed_value[0], 0x30);
    let xml = String::from_utf8(files.sign_xml).unwrap();
    assert!(xml.contains("<ofd:Boundary x=\"1\"/>"));
}

#[test]
fn colours_as_css() {
    assert_eq!(OfdColor::red().to_css(), "rgb(255,0,0)");
    assert_eq!(OfdColor::black().to_css(), "rgb(0,0,0)");
    assert_eq!(OfdColor::white().to_css(), "rgb(255,255,255)");
    assert_eq!(OfdColor { r: 1, g: 2, b: 3, a: 128 }.to_css(), "rgba(1,2,3,0.5019607843137255)");
    assert_eq!(OfdColor { r: 1, g: 2, b: 3, a: 0 }.to_css(), "rgba(1,2,3,0)");
    for a in 0u8..255 {
        let expected = format!("rgba(9,8,7,{})", a as f64 / 255.0);
        assert_eq!(OfdColor { r: 9, g: 8, b: 7, a }.to_css(), expected);
    }
}

#[test]
fn font_families() {
    assert_eq!(map_font_family("宋体"), "\"SimSun\", \"Songti SC\", \"Noto Serif CJK SC\", serif");
    assert_eq!(map_font_family("kaiti"), "\"KaiTi\", \"Kaiti SC\", \"STKaiti\", serif");
    assert_eq!(map_font_family("Courier New"), "\"Courier New\", monospace");
    assert_eq!(map_font_family("Unknown Font"), "Unknown Font");
}

#[test]
fn package_paths() {
    assert_eq!(local_name(b"ofd:Page"), "Page");
    assert_eq!(local_name(b"Page"), "Page");
    assert_eq!(parent_dir("Doc_0/Document.xml"), "Doc_0");
    assert_eq!(parent_dir("Document.xml"), "");
    assert_eq!(parent_dir("/x"), "");
    assert_eq!(resolve_page_path("Doc_0", "Pages/Page_0/Content.xml"), "Doc_0/Pages/Page_0/Content.xml");
    assert_eq!(resolve_page_path("Doc_0", "/Doc_0/Pages/Page_0/Content.xml"), "Doc_0/Pages/Page_0/Content.xml");
    assert_eq!(resolve_page_path("", "Pages/Page_0/Content.xml"), "Pages/Page_0/Content.xml");
}

#[test]
fn doc_info_defaults_empty() {
    let info = OfdDocInfo::default();
    assert!(info.title.is_empty() && info.author.is_empty() && info.creator.is_empty());
}

fn zip_of(files: &[(&str, &[u8])]) -> Vec<u8> {
    let mut out = Vec::new();
    {
        let mut w = zip::ZipWriter::new(std::io::Cursor::new(&mut out));
        let opts = zip::write::FileOptions::default();
        for (name, content) in files {
            w.start_file(*name, opts).unwrap();
            w.write_all(content).unwrap();
        }
        w.finish().unwrap();
    }
    out
}

fn unzip(data: &[u8]) -> Vec<(String, Vec<u8>)> {
    let mut a = zip::ZipArchive::new(std::io::Cursor::new(data.to_vec())).unwrap();
    let mut out = Vec::new();
    for i in 0..a.len() {
        let mut f = a.by_index(i).unwrap();
        let mut c = Vec::new();
        f.read_to_end(&mut c).unwrap();
        out.push((f.name().to_string(), c));
    }
    out
}

#[test]
fn test_embed_seals_to_ofd_without_seals_keeps_data() {
    let mut store = quick_store();
    assert_eq!(embed_seals_to_ofd(b"anything", &[], &[], &mut store), Ok(b"anything".to_vec()));
}

#[test]
fn test_embed_seals_to_ofd_rejects_non_zip() {
    let mut store = quick_store();
    let seals = vec![placed(0, 10.0, 10.0, 40.0, 40.0)];
    let r = embed_seals_to_ofd(b"not a zip", &seals, &["x=\"1\"".to_string()], &mut store);
    assert!(r.unwrap_err().starts_with("OFD ZIP解析失败: "));
}

#[test]
fn test_embed_seals_to_ofd_adds_signature_files() {
    let ofd_xml = b"<ofd:OFD><ofd:DocBody><ofd:DocRoot>Doc_0/Document.xml</ofd:DocRoot></ofd:DocBody></ofd:OFD>";
    let data = zip_of(&[
        ("OFD.xml", ofd_xml),
        ("Doc_0/Document.xml", b"<ofd:Document/>"),
        ("Doc_0/Pages/Page_0/Content.xml", b"<ofd:Page/>"),
    ]);
    let mut store = quick_store();
    let seals = vec![placed(0, 10.0, 10.0, 40.0, 40.0)];
    let out = embed_seals_to_ofd(&data, &seals, &["x=\"3.53\"".to_string()], &mut store).unwrap();
    let files = unzip(&out);
    let names: Vec<&str> = files.iter().map(|f| f.0.as_str()).collect();
    assert_eq!(
        names,
        vec![
            "OFD.xml",
            "Doc_0/Document.xml",
            "Doc_0/Pages/Page_0/Content.xml",
            "Doc_0/Signs/Sign_0/Seal.esl",
            "Doc_0/Signs/Sign_0/SignedValue.dat",
            "Doc_0/Signs/Sign_0/Sign_0.xml",
        ]
    );
    let ofd = String::from_utf8(files[0].1.clone()).unwrap();
    assert!(ofd.contains("<ofd:SignID>Doc_0/Signs/Sign_0/Sign_0.xml</ofd:SignID>"));
    assert_eq!(files[1].1, b"<ofd:Document/>".to_vec());
    let sign_xml = String::from_utf8(files[5].1.clone()).unwrap();
    assert!(sign_xml.contains("x=\"3.53\""));
    assert_eq!(files[3].1[0], 0x30);
    assert_eq!(files[4].1[0], 0x30);
}

#[test]
fn test_embed_seals_to_ofd_needs_document_xml() {
    let data = zip_of(&[("OFD.xml", b"<ofd:DocRoot>Doc_0/Document.xml</ofd:DocRoot>")]);
    let mut store = quick_store();
    let seals = vec![placed(0, 10.0, 10.0, 40.0, 40.0)];
    let r = embed_seals_to_ofd(&data, &seals, &["x=\"1\"".to_string()], &mut store);
    assert_eq!(r, Err("未找到 Doc_0/Document.xml".to_string()));
}
