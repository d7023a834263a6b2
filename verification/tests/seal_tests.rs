use dianju_wasm_seal::crypto::{Sm2KeyPair, Sm2KeyStore};
use dianju_wasm_seal::seal::{
    find_contents_hex_range, finalize_pdf_signatures, replace_byterange_in_bytes, SealEmbedMeta, SealEngine,
    SEAL_SIZE_BITS, SIGNATURE_CONTENTS_SIZE,
};
use dianju_wasm_seal::ses::SealAlgorithm;
use dianju_wasm_seal::types::{PlacedSeal, SealInfo};

fn quick_store() -> Sm2KeyStore {
    Sm2KeyStore { pair: Some(Sm2KeyPair { pubkey: Vec::new(), seckey: Vec::new() }) }
}

fn seal_info() -> SealInfo {
    SealInfo {
        origin: "cloud".to_string(),
        seal_id: "s-1".to_string(),
        seal_name: "测试印章".to_string(),
        width_bits: 40.0f64.to_bits(),
        height_bits: 40.0f64.to_bits(),
        seal_type: None,
        seal_image: String::new(),
        sign_cert_sn: None,
        sign_data: None,
        sign_cert: None,
        seal_start_time: None,
        seal_end_time: None,
        signer_name: None,
        sign_time: None,
        sign_method: None,
        cert_issuer: None,
        cert_subject: None,
        cert_start_time: None,
        cert_end_time: None,
        cert_algorithm: None,
        cert_data: None,
    }
}

fn placed(id: usize) -> PlacedSeal {
    PlacedSeal {
        id,
        page_index: 0,
        x_bits: 0,
        y_bits: 0,
        width_bits: SEAL_SIZE_BITS,
        height_bits: SEAL_SIZE_BITS,
        seal_info: seal_info(),
        signature: None,
        signed: false,
    }
}

/// A saved PDF fragment holding one signature dictionary, object 7.
fn pdf_with_signature() -> Vec<u8> {
    let mut v = b"%PDF-1.7\n1 0 obj\n<< /Type /Catalog >>\nendobj\n7 0 obj\n<< /Type /Sig /ByteRange [0 0 0 0] /Contents <".to_vec();
    v.extend(std::iter::repeat(b'0').take(SIGNATURE_CONTENTS_SIZE));
    v.extend_from_slice(b"> /M (D:20260710163000+08'00') >>\nendobj\ntrailer\n<< /Root 1 0 R >>\n%%EOF\n");
    v
}

#[test]
fn seal_positions() {
    assert_eq!(
        SealEngine::parse_seal_position("AUTO_ADD:合同").err(),
        Some("关键字自动落章需先搜索关键字位置".to_string())
    );
    assert_eq!(SealEngine::parse_seal_position("1,2,3").err(), Some("AddSeal参数格式错误".to_string()));
    let p = SealEngine::parse_seal_position("2,25000,0,0,40000").unwrap();
    assert_eq!((p.page, p.x_text.as_str(), p.y_text.as_str()), (2, "25000", "40000"));
    let q = SealEngine::parse_seal_position("x,1,2,3,4,5").unwrap();
    assert_eq!((q.page, q.x_text.as_str(), q.y_text.as_str()), (0, "1", "4"));
    let r = SealEngine::parse_seal_position("+3,,,,").unwrap();
    assert_eq!((r.page, r.x_text.as_str(), r.y_text.as_str()), (3, "", ""));
}

#[test]
fn adding_seals() {
    let mut seals: Vec<PlacedSeal> = Vec::new();
    assert_eq!(SealEngine::get_last_seal(&seals), None);
    let n = SealEngine::add_seal(&mut seals, 1, 10.0f64.to_bits(), 20.0f64.to_bits(), seal_info());
    assert_eq!(n, 1);
    let n = SealEngine::add_seal(&mut seals, 2, 0, 0, seal_info());
    assert_eq!(n, 2);
    assert_eq!(seals[1].id, 1);
    assert_eq!(seals[0].page_index, 1);
    assert_eq!(f64::from_bits(seals[0].x_bits), 10.0);
    assert_eq!(f64::from_bits(seals[0].width_bits), 120.0);
    assert!(!seals[0].signed && seals[0].signature.is_none());
    assert_eq!(SealEngine::get_last_seal(&seals), Some("1".to_string()));
    assert_eq!(SealEngine::prepare_seal_cursor("iVBORw0KGgo="), "iVBORw0KGgo=");
}

#[test]
fn contents_range_found() {
    let pdf = pdf_with_signature();
    let (hs, he) = find_contents_hex_range(&pdf, 7).unwrap();
    assert_eq!(pdf[hs - 1], b'<');
    assert_eq!(pdf[he], b'>');
    assert_eq!(he - hs, SIGNATURE_CONTENTS_SIZE);
    assert_eq!(find_contents_hex_range(&pdf, 8), None);
}

#[test]
fn byterange_rewrite_and_errors() {
    let mut pdf = pdf_with_signature();
    assert_eq!(replace_byterange_in_bytes(&mut pdf, 7, b"[1 2 3 4]"), Ok(()));
    let text = String::from_utf8_lossy(&pdf).to_string();
    assert!(text.contains("/ByteRange [1 2 3 4] /Contents <"));
    let mut other = pdf.clone();
    assert_eq!(replace_byterange_in_bytes(&mut other, 9, b"[0]"), Err("未找到签名字典对象".to_string()));
    assert_eq!(other, pdf);
    let mut no_range = b"3 0 obj << /Contents <00> >>".to_vec();
    assert_eq!(replace_byterange_in_bytes(&mut no_range, 3, b"[0]"), Err("未找到 /ByteRange".to_string()));
}

#[test]
fn finalize_settles_byterange_and_fills_contents() {
    let mut pdf = pdf_with_signature();
    let meta = SealEmbedMeta {
        sig_dict_id: 7,
        widget_id: (8, 0),
        page_obj_id: (2, 0),
        seal: placed(0),
        algorithm: SealAlgorithm::Sm2,
    };
    let mut store = quick_store();
    assert_eq!(finalize_pdf_signatures(&mut pdf, &[meta], &mut store), Ok(()));
    let (hs, he) = find_contents_hex_range(&pdf, 7).unwrap();
    let text = String::from_utf8_lossy(&pdf).to_string();
    let expected = format!("/ByteRange [0 {} {} {}]", hs - 1, he + 1, pdf.len() - (he + 1));
    assert!(text.contains(&expected), "{}", expected);
    // The placeholder now starts with the DER of a SEQUENCE, in hex.
    assert_eq!(&pdf[hs..hs + 2], b"30");
    assert!(pdf[hs..he].iter().all(|b| b.is_ascii_hexdigit()));
}

#[test]
fn finalize_reports_missing_contents() {
    let mut pdf = b"7 0 obj << /ByteRange [0 0 0 0] >>".to_vec();
    let meta = SealEmbedMeta {
        sig_dict_id: 7,
        widget_id: (8, 0),
        page_obj_id: (2, 0),
        seal: placed(0),
        algorithm: SealAlgorithm::Rsa,
    };
    let mut store = quick_store();
    assert_eq!(
        finalize_pdf_signatures(&mut pdf, &[meta], &mut store),
        Err("未找到签名字典 7 的 /Contents".to_string())
    );
}

#[test]
fn test_find_contents_matches_whole_object_header() {
    let data = b"15 0 obj <</Contents <aa>>> endobj 5 0 obj <</Contents <bb>>> endobj";
    assert_eq!(find_contents_hex_range(data, 5), Some((56, 58)));
    assert_eq!(data[58], b'>');
    assert_eq!(find_contents_hex_range(data, 15), Some((22, 24)));
    assert_eq!(find_contents_hex_range(b"x15 0 obj <</Contents <aa>>>", 15), None);
}

#[test]
fn test_finalize_without_seals_keeps_data() {
    let mut data = b"%PDF-1.7 nothing to sign".to_vec();
    let mut store = quick_store();
    assert_eq!(finalize_pdf_signatures(&mut data, &[], &mut store), Ok(()));
    assert_eq!(data, b"%PDF-1.7 nothing to sign".to_vec());
}

/// A saved PDF fragment holding two signature dictionaries, objects 7 and 9.
fn pdf_with_two_signatures() -> Vec<u8> {
    let mut v = b"%PDF-1.7\n7 0 obj\n<< /Type /Sig /ByteRange [0 0 0 0] /Contents <".to_vec();
    v.extend(std::iter::repeat(b'0').take(SIGNATURE_CONTENTS_SIZE));
    v.extend_from_slice(b"> >>\nendobj\n9 0 obj\n<< /Type /Sig /ByteRange [0 0 0 0] /Contents <");
    v.extend(std::iter::repeat(b'0').take(SIGNATURE_CONTENTS_SIZE));
    v.extend_from_slice(b"> >>\nendobj\ntrailer\n<< /Root 1 0 R >>\n%%EOF\n");
    v
}

#[test]
fn finalize_two_seals_every_byterange_covers_output() {
    let mut pdf = pdf_with_two_signatures();
    let metas: Vec<SealEmbedMeta> = [7u32, 9u32]
        .iter()
        .enumerate()
        .map(|(i, id)| SealEmbedMeta {
            sig_dict_id: *id,
            widget_id: (20 + i as u32, 0),
            page_obj_id: (2, 0),
            seal: placed(i),
            algorithm: SealAlgorithm::Sm2,
        })
        .collect();
    let mut store = quick_store();
    assert_eq!(finalize_pdf_signatures(&mut pdf, &metas, &mut store), Ok(()));
    let text = String::from_utf8_lossy(&pdf).to_string();
    for id in [7u32, 9u32] {
        let (hs, he) = find_contents_hex_range(&pdf, id).unwrap();
        let expected = format!("/ByteRange [0 {} {} {}]", hs - 1, he + 1, pdf.len() - (he + 1));
        assert!(text.contains(&expected), "{} missing", expected);
        assert_ne!(pdf[hs], b'0');
    }
}
