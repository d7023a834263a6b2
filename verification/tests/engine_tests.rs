use dianju_wasm_seal::crypto::{b64_encode, Sm2KeyPair, Sm2KeyStore};
use dianju_wasm_seal::engine::{extract_cert_from_pkcs7, parse_pdf_info, DocumentEngine};
use dianju_wasm_seal::pkcs7::build_mock_pkcs7;
use dianju_wasm_seal::ses::SealAlgorithm;
use dianju_wasm_seal::engine::{existing_seal, SigValueFields};
use dianju_wasm_seal::types::{DocType, PlacedSeal, SealInfo};

fn seal_info() -> SealInfo {
    SealInfo {
        origin: "ukey".to_string(),
        seal_id: "k".to_string(),
        seal_name: "章".to_string(),
        width_bits: 0,
        height_bits: 0,
        seal_type: None,
        seal_image: String::new(),
        sign_cert_sn: None,
        sign_data: None,
        sign_cert: None,
        seal_start_time: None,
        seal_end_time: None,
        signer_name: None,
        sign_time: None,
        sign_method: None,
        cert_issuer: None,
        cert_subject: None,
        cert_start_time: None,
        cert_end_time: None,
        cert_algorithm: None,
        cert_data: None,
    }
}

fn placed(id: usize) -> PlacedSeal {
    PlacedSeal {
        id,
        page_index: 0,
        x_bits: 0,
        y_bits: 0,
        width_bits: 0,
        height_bits: 0,
        seal_info: seal_info(),
        signature: None,
        signed: false,
    }
}

#[test]
fn pdf_page_count_from_count() {
    assert_eq!(parse_pdf_info(b"<< /Type /Pages /Count 3 >>"), 3);
    assert_eq!(parse_pdf_info(b"/Count 2 /Kids [] /Count 12\n /Count 5 "), 12);
    assert_eq!(parse_pdf_info(b"/Count\n\t 4/"), 4);
}

#[test]
fn pdf_page_count_from_page_objects() {
    // A count that runs to the end of the data is not read.
    assert_eq!(parse_pdf_info(b"/Type /Page /Type /Page /Count 9"), 2);
    assert_eq!(parse_pdf_info(b"/Type/Page>>/Type/Page>>/Type/Page"), 3);
    assert_eq!(parse_pdf_info(b"/Count 99999999999 "), 1);
    assert_eq!(parse_pdf_info(b""), 1);
}

#[test]
fn doc_types_by_extension() {
    assert_eq!(DocumentEngine::detect_doc_type("合同.PDF"), Ok(DocType::Pdf));
    assert_eq!(DocumentEngine::detect_doc_type("a.ofd"), Ok(DocType::Ofd));
    assert_eq!(DocumentEngine::detect_doc_type("a.docx"), Err("不支持的文件格式: a.docx".to_string()));
}

#[test]
fn loading_a_document() {
    let mut e = DocumentEngine::new();
    assert!(!e.is_opened());
    e.load_document(vec![0u8; 3000], "x.pdf", DocType::Pdf, 4);
    assert!(e.is_opened());
    assert_eq!(e.get_page_count(), 4);
    assert_eq!(e.get_curr_file_size(), 2);
    assert_eq!(e.get_doc_type(), "pdf");
    assert_eq!(e.state.file_name, "x.pdf");
    assert_eq!(e.state.file_id.len(), 44);
    assert_eq!(e.get_signatures_count(""), 0);
    e.close_doc(0);
    assert!(!e.is_opened());
    assert_eq!(e.save_to("", "", 0), Ok("1".to_string()));
    assert_eq!(e.get_next_note("", 0, ""), None);
}

#[test]
fn document_properties() {
    let mut e = DocumentEngine::default();
    assert_eq!(e.get_doc_property("title"), None);
    e.set_doc_property("title", "合同");
    e.set_doc_property("title", "协议");
    e.set_doc_property("author", "张三");
    assert_eq!(e.get_doc_property("title"), Some("协议".to_string()));
    assert_eq!(e.get_doc_property("author"), Some("张三".to_string()));
}

#[test]
fn md5_of_the_head() {
    let mut e = DocumentEngine::new();
    e.load_document(b"abcdefgh".to_vec(), "x.ofd", DocType::Ofd, 1);
    assert_eq!(e.get_doc_type(), "ofd");
    assert_eq!(e.get_file_md5_value("LEFT:4"), Ok("e2fc714c4727ee9395f324cd2e7f331f".to_string()));
    assert_eq!(e.get_file_md5_value(""), Ok("e8dc4081b13434b45189a720b77b6818".to_string()));
    assert_eq!(e.get_file_md5_value("LEFT:x"), Ok("e8dc4081b13434b45189a720b77b6818".to_string()));
}

#[test]
fn deleting_seals() {
    let mut e = DocumentEngine::new();
    e.state.seals = vec![placed(0), placed(1), placed(2)];
    e.state.seal_count = 3;
    assert_eq!(e.delete_note("1"), Ok(1));
    assert_eq!(e.state.seals.len(), 2);
    assert_eq!(e.state.seals[1].id, 2);
    assert_eq!(e.state.seal_count, 2);
    assert_eq!(e.delete_note("5"), Err("未找到印章: 5".to_string()));
    assert_eq!(e.delete_note("abc"), Err("未找到印章: abc".to_string()));
    assert_eq!(e.state.seal_count, 2);
}

#[test]
fn certificate_in_pkcs7() {
    let empty = extract_cert_from_pkcs7(b"short");
    assert!(empty.serial.is_none() && empty.cert_data.is_none());
    let mut store = Sm2KeyStore { pair: Some(Sm2KeyPair { pubkey: Vec::new(), seckey: Vec::new() }) };
    let pkcs7 = build_mock_pkcs7(SealAlgorithm::Rsa, &[0x30, 0x00], &[0u8; 32], (2026, 7, 10, 16, 30, 0), &mut store);
    let info = extract_cert_from_pkcs7(&pkcs7);
    assert_eq!(info.cert_data, Some(b64_encode(&SealAlgorithm::Rsa.cert_der())));
    assert!(info.serial.is_some());
    assert!(info.issuer.is_some());
    assert!(info.subject.is_some());
    assert!(info.not_before.is_some() && info.not_after.is_some());
    assert!(info.cert_data.is_some());
    assert!(info.algorithm.is_some());
    let junk = extract_cert_from_pkcs7(&[0x30u8; 64]);
    assert!(junk.cert_data.is_none());
}

fn geometry() -> dianju_wasm_seal::engine::SealGeometry {
    dianju_wasm_seal::engine::SealGeometry {
        x_bits: 10.0f64.to_bits(),
        y_bits: 20.0f64.to_bits(),
        width_bits: 72.0f64.to_bits(),
        height_bits: 36.0f64.to_bits(),
        width_mm_bits: 25.4f64.to_bits(),
        height_mm_bits: 12.7f64.to_bits(),
    }
}

fn annot(subtype: &str, ft: &str) -> dianju_wasm_seal::engine::AnnotFields {
    dianju_wasm_seal::engine::AnnotFields {
        subtype: subtype.to_string(),
        field_type: ft.to_string(),
        title: None,
        contents: None,
        has_value: false,
        value: None,
    }
}

#[test]
fn test_existing_seal_kinds() {
    assert!(existing_seal(&annot("Widget", "Tx"), 0, 0, &geometry()).is_none());
    assert!(existing_seal(&annot("Link", ""), 0, 0, &geometry()).is_none());
    let stamp = existing_seal(&annot("Stamp", ""), 2, 1, &geometry()).unwrap();
    assert_eq!(stamp.id, 2);
    assert_eq!(stamp.page_index, 1);
    assert_eq!(stamp.seal_info.seal_name, "签章3");
    assert_eq!(stamp.seal_info.seal_id, "签章3");
    assert_eq!(stamp.seal_info.origin, "pdf");
    assert_eq!(stamp.seal_info.seal_type, Some(0));
    assert_eq!(f64::from_bits(stamp.seal_info.width_bits), 25.4);
    assert_eq!(f64::from_bits(stamp.x_bits), 10.0);
    assert!(!stamp.signed);
    assert_eq!(stamp.seal_info.sign_method, None);
    let mut widget = annot("Widget", "Sig");
    widget.contents = Some("签名域".to_string());
    let w = existing_seal(&widget, 0, 0, &geometry()).unwrap();
    assert_eq!(w.seal_info.seal_name, "签名域");
    assert_eq!(w.seal_info.seal_type, Some(1));
    widget.title = Some("Signature1".to_string());
    let w = existing_seal(&widget, 0, 0, &geometry()).unwrap();
    assert_eq!(w.seal_info.seal_name, "Signature1");
}

#[test]
fn test_existing_seal_value_fields() {
    let mut a = annot("Widget", "Sig");
    a.has_value = true;
    a.value = Some(SigValueFields {
        name: Some("张三".to_string()),
        time: Some("D:20240101120000+08'00'".to_string()),
        filter: Some("Adobe.PPKLite".to_string()),
        sub_filter: Some("adbe.pkcs7.detached".to_string()),
        contents: Some(vec![0u8; 4]),
    });
    let s = existing_seal(&a, 0, 0, &geometry()).unwrap();
    assert!(s.signed);
    assert_eq!(s.seal_info.sign_method.as_deref(), Some("Adobe.PPKLite / adbe.pkcs7.detached"));
    assert_eq!(s.seal_info.cert_algorithm.as_deref(), Some("Adobe.PPKLite"));
    assert_eq!(s.seal_info.signer_name.as_deref(), Some("张三"));
    assert_eq!(s.seal_info.sign_time.as_deref(), Some("D:20240101120000+08'00'"));
    assert_eq!(s.seal_info.seal_start_time.as_deref(), Some("D:20240101120000+08'00'"));
    assert_eq!(s.seal_info.sign_cert_sn, None);
    assert_eq!(s.seal_info.cert_data, None);
    a.value.as_mut().unwrap().filter = None;
    let s = existing_seal(&a, 0, 0, &geometry()).unwrap();
    assert_eq!(s.seal_info.sign_method.as_deref(), Some("adbe.pkcs7.detached"));
    assert_eq!(s.seal_info.cert_algorithm, None);
}

#[test]
fn test_existing_seal_reads_certificate() {
    let cert = SealAlgorithm::Rsa.cert_der();
    let mut raw = vec![0u8; 6];
    raw.extend_from_slice(&cert);
    let mut a = annot("Widget", "Sig");
    a.has_value = true;
    a.value = Some(SigValueFields { name: None, time: None, filter: None, sub_filter: None, contents: Some(raw) });
    let s = existing_seal(&a, 0, 0, &geometry()).unwrap();
    let info = dianju_wasm_seal::engine::extract_cert_from_pkcs7(&cert);
    assert!(info.serial.is_some());
    assert_eq!(s.seal_info.sign_cert_sn, info.serial);
    assert_eq!(s.seal_info.signer_name, info.common_name);
    assert_eq!(s.seal_info.cert_algorithm, info.algorithm);
    assert_eq!(s.seal_info.cert_data, info.cert_data);
    assert_eq!(s.seal_info.cert_issuer, info.issuer);
}
