use std::collections::HashMap;
use dianju_wasm_seal::font_embed::truetype_is_readable;
use dianju_wasm_seal::font_embed::content::{font_recode_for, rewrite_operations, ArrayItem, ContentOp, FontRecode, OpArg};
use dianju_wasm_seal::font_embed::{
    detect_encoding, parse_tounicode_cid_to_unicode, normalize_unicode, read_hex, unicode_priority, winansi_byte_to_unicode, CodeEncoding,
    FontEncodingEntry,
};
use dianju_wasm_seal::sign::SignEngine;
use dianju_wasm_seal::crypto::{Sm2KeyPair, Sm2KeyStore};
use dianju_wasm_seal::types::SealInfo;
use dianju_wasm_seal::ukey::{encode_seal_list_json, UkeyEngine};

#[test]
fn sign_engine_settings() {
    let mut e = SignEngine::new();
    assert_eq!(e.get_value("SET_PDFSEAL_ALPHA"), Some("180".to_string()));
    assert_eq!(e.get_value("SET_SKFKEY_PIN"), Some(String::new()));
    e.set_value("ADD_FORCETYPE_VALUE8", "1");
    assert_eq!(e.get_value("force_type"), Some("8".to_string()));
    e.set_value("DEL_FORCETYPE_VALUE8", "1");
    assert_eq!(e.get_value("force_type"), None);
    e.set_value("SET_JMJSERVER_GMCERTDATA", "MIIB");
    assert_eq!(e.get_value("GET_CURRENT_CERT"), Some("MIIB".to_string()));
    assert_eq!(e.get_value("GET_LAST_SEAL"), None);
    e.set_seal_mode(-3);
    assert_eq!(e.get_value("seal_mode"), Some("-3".to_string()));
}

#[test]
fn sign_engine_errors() {
    let mut e = SignEngine::new();
    assert_eq!(e.get_sign_sha_data(), Err("未设置待签名文档数据".to_string()));
    assert_eq!(e.get_value_ex("OTHER", 0), Err("未知的 GetValueEx key: OTHER".to_string()));
    assert_eq!(
        e.get_value_ex("GET_AIPSIGN_ORIDATA", 0),
        Err("未设置待签名文档数据, 请先调用 prepare_for_signing".to_string())
    );
    assert_eq!(e.get_re_value(), 0);
    assert_eq!(e.get_error_string(""), "未知错误");
}

#[test]
fn ukey_replies() {
    let mut u = UkeyEngine::new();
    assert_eq!(u.verify_pin("123456"), Ok("{\"errmsg\":\"\",\"retstr\":[],\"status\":0}".to_string()));
    let list = u.seal_list();
    assert_eq!(list.dev_list.len(), 1);
    assert_eq!(list.dev_list[0].seal_list[1].seal_name, "法人章");
    // base64 of `{}` is `e30=`, and `=` is URL-encoded.
    assert_eq!(encode_seal_list_json("{}"), "e30%3D");
}

#[test]
fn font_code_helpers() {
    assert_eq!(winansi_byte_to_unicode(0x41), 0x41);
    assert_eq!(winansi_byte_to_unicode(0x80), 0x20AC);
    assert_eq!(unicode_priority(0x4E00), 0);
    assert_eq!(unicode_priority(0x2F00), 3);
    assert_eq!(unicode_priority(0xF900), 1);
    assert_eq!(normalize_unicode(0x2F00), 0x4E00);
    assert_eq!(normalize_unicode(0x41), 0x41);
    assert_eq!(read_hex(b"  <4E00> rest", 0), (Some(0x4E00), 8));
    assert_eq!(read_hex(b"<zz>", 0), (None, 4));
    assert_eq!(read_hex(b"no hex", 0), (None, 6));
}

#[test]
fn font_encodings() {
    assert_eq!(detect_encoding(true, &FontEncodingEntry::Name(b"Identity-H".to_vec())), Some(CodeEncoding::IdentityCid));
    assert_eq!(detect_encoding(false, &FontEncodingEntry::Other), Some(CodeEncoding::WinAnsi1Byte));
}

#[test]
fn tounicode_bfchar_pairs() {
    let cm = b"/CIDInit begin\n2 beginbfchar\n<0001> <4E00>\n<0002> <2F00>\nendbfchar\nend";
    let m = parse_tounicode_cid_to_unicode(cm);
    assert_eq!(m.len(), 2);
    assert_eq!(m.get(&1), Some(&0x4E00));
    // A Kangxi radical is read as the unified ideograph.
    assert_eq!(m.get(&2), Some(&0x4E00));
    // Range sections map each code to the start value plus its offset.
    let ranges = parse_tounicode_cid_to_unicode(b"1 beginbfrange\n<0001> <0003> <0041>\nendbfrange\n");
    let want: HashMap<u32, u32> = HashMap::from([(1, 0x41), (2, 0x42), (3, 0x43)]);
    assert_eq!(ranges, want);
    assert!(parse_tounicode_cid_to_unicode(b"short").is_empty());
}

#[test]
fn test_build_to_unicode_cmap_prefers_standard_code_points() {
    let mut m: HashMap<u32, u32> = HashMap::new();
    m.insert(0x2F00, 1); // Kangxi radical ONE
    m.insert(0x4E00, 1); // unified ideograph ONE
    m.insert(0x41, 0x22);
    m.insert(0x20000, 0x1_0000);
    m.insert(0xF900, 7);
    m.insert(0x8C48, 7);
    let text = String::from_utf8(dianju_wasm_seal::font_embed::tounicode::build_to_unicode_cmap(&m)).unwrap();
    let expected_body = "4 beginbfchar\n<0001> <4E00>\n<0007> <8C48>\n<0022> <0041>\n<10000> <20000>\nendbfchar\n";
    assert!(text.starts_with("/CIDInit /ProcSet findresource begin\n12 dict begin\nbegincmap\n"));
    assert!(text.contains("<0000> <FFFF>\nendcodespacerange\n"));
    assert!(text.contains(expected_body));
    assert!(text.ends_with("endbfchar\nendcmap\nCMapName currentdict /CMap defineresource pop\nend end\n"));
}

#[test]
fn test_build_to_unicode_cmap_blocks_of_hundred() {
    let mut m: HashMap<u32, u32> = HashMap::new();
    for i in 0..150u32 {
        m.insert(0x4E00 + i, i);
    }
    let text = String::from_utf8(dianju_wasm_seal::font_embed::tounicode::build_to_unicode_cmap(&m)).unwrap();
    assert_eq!(text.matches("beginbfchar").count(), 2);
    assert!(text.contains("100 beginbfchar\n<0000> <4E00>\n"));
    assert!(text.contains("<0063> <4E63>\nendbfchar\n50 beginbfchar\n<0064> <4E64>\n"));
    assert!(text.contains("<0095> <4E95>\nendbfchar\nendcmap\n"));
    let empty = String::from_utf8(dianju_wasm_seal::font_embed::tounicode::build_to_unicode_cmap(&HashMap::new())).unwrap();
    assert!(!empty.contains("beginbfchar"));
}

#[test]
fn test_tounicode_cmap_reads_back() {
    let mut m: HashMap<u32, u32> = HashMap::new();
    m.insert(0x2F00, 1);
    m.insert(0x4E00, 1);
    m.insert(0x41, 0x22);
    m.insert(0xF900, 7);
    let cmap = dianju_wasm_seal::font_embed::tounicode::build_to_unicode_cmap(&m);
    let back = parse_tounicode_cid_to_unicode(&cmap);
    let mut expected: HashMap<u32, u32> = HashMap::new();
    expected.insert(1, 0x4E00);
    expected.insert(0x22, 0x41);
    expected.insert(7, 0x8C48);
    assert_eq!(back, expected);
}

fn op(operator: &str, operands: Vec<OpArg>) -> ContentOp {
    ContentOp { operator: operator.to_string(), operands }
}

fn shown(op: &ContentOp, k: usize) -> (Vec<u8>, bool) {
    match &op.operands[k] {
        OpArg::Str(s, hex) => (s.clone(), *hex),
        _ => panic!("not a string"),
    }
}

#[test]
fn test_rewrite_operations_follows_font() {
    let mut uni2cid: HashMap<u32, u32> = HashMap::new();
    uni2cid.insert(0x61, 0x10);
    uni2cid.insert(0x62, 0x11);
    let fonts = vec![FontRecode {
        name: "F1".to_string(),
        encoding: CodeEncoding::WinAnsi1Byte,
        code_to_unicode: HashMap::new(),
    }];
    let ops = vec![
        op("Tj", vec![OpArg::Str(b"a".to_vec(), false)]),
        op("Tf", vec![OpArg::Name(b"F1".to_vec()), OpArg::Other(0)]),
        op("Tj", vec![OpArg::Str(b"ab".to_vec(), false)]),
        op("TJ", vec![OpArg::Array(vec![
            ArrayItem::Str(b"b".to_vec(), false),
            ArrayItem::Other(1),
            ArrayItem::Str(b"a".to_vec(), true),
        ])]),
        op("'", vec![OpArg::Str(b"b".to_vec(), false)]),
        op("\"", vec![OpArg::Other(2), OpArg::Other(3), OpArg::Str(b"a".to_vec(), false)]),
        op("Tf", vec![OpArg::Name(b"F2".to_vec()), OpArg::Other(4)]),
        op("Tj", vec![OpArg::Str(b"a".to_vec(), false)]),
    ];
    let out = rewrite_operations(ops, &fonts, &uni2cid);
    assert_eq!(out.len(), 8);
    assert_eq!(shown(&out[0], 0), (b"a".to_vec(), false));
    assert_eq!(shown(&out[2], 0), (vec![0, 0x10, 0, 0x11], true));
    match &out[3].operands[0] {
        OpArg::Array(items) => {
            assert!(matches!(&items[0], ArrayItem::Str(s, false) if s == &vec![0u8, 0x11]));
            assert!(matches!(&items[1], ArrayItem::Other(1)));
            assert!(matches!(&items[2], ArrayItem::Str(s, true) if s == &vec![0u8, 0x10]));
        }
        _ => panic!("not an array"),
    }
    assert_eq!(shown(&out[4], 0), (vec![0, 0x11], true));
    assert_eq!(shown(&out[5], 2), (vec![0, 0x10], false));
    assert!(matches!(&out[5].operands[0], OpArg::Other(2)));
    assert_eq!(shown(&out[7], 0), (b"a".to_vec(), false));
}

#[test]
fn test_font_recode_for() {
    let r = font_recode_for("F1", "ABSEKN+FangSong", CodeEncoding::WinAnsi1Byte, None, None).unwrap();
    assert_eq!(r.name, "F1");
    assert_eq!(r.encoding, CodeEncoding::WinAnsi1Byte);
    assert!(r.code_to_unicode.is_empty());
    assert!(font_recode_for("F2", "Helvetica", CodeEncoding::WinAnsi1Byte, None, None).is_none());
    assert!(font_recode_for("FangSong", "", CodeEncoding::WinAnsi1Byte, None, None).is_some());
    assert!(font_recode_for("F3", "FangSong", CodeEncoding::IdentityCid, None, None).is_none());
    let cmap = b"1 beginbfchar\n<0005> <4E00>\nendbfchar\n".to_vec();
    let r = font_recode_for("F3", "Arial", CodeEncoding::IdentityCid, None, Some(cmap.as_slice())).unwrap();
    assert_eq!(r.code_to_unicode.get(&5), Some(&0x4E00));
    assert!(truetype_is_readable(&[]));
}

#[test]
fn test_parse_cmap4_stops_at_end_code() {
    let ttf: Vec<u8> = vec![
        0, 4, 0, 32, 0, 0, 0, 4, 0, 0, 0, 0, 0, 0, 0, 0x43, 0xFF, 0xFF, 0, 0, 0, 0x41, 0xFF, 0xFF, 0xFF, 0xC3,
        0, 1, 0, 0, 0, 0,
    ];
    let mut map: HashMap<u32, u32> = HashMap::new();
    dianju_wasm_seal::font_embed::parse_cmap4(&ttf, 0, &mut map);
    let mut expected: HashMap<u32, u32> = HashMap::new();
    expected.insert(4, 0x41);
    expected.insert(5, 0x42);
    expected.insert(6, 0x43);
    assert_eq!(map, expected);
}

#[test]
fn test_parse_cmap12_groups() {
    let ttf: Vec<u8> = vec![
        0, 12, 0, 0, 0, 0, 0, 28, 0, 0, 0, 0, 0, 0, 0, 1, 0, 0, 0x4E, 0, 0, 0, 0x4E, 1, 0, 0, 0, 10,
    ];
    let mut map: HashMap<u32, u32> = HashMap::new();
    dianju_wasm_seal::font_embed::parse_cmap12(&ttf, 0, &mut map);
    let mut expected: HashMap<u32, u32> = HashMap::new();
    expected.insert(10, 0x4E00);
    expected.insert(11, 0x4E01);
    assert_eq!(map, expected);
}

fn sign_seal_info() -> SealInfo {
    SealInfo {
        origin: "cloud".to_string(),
        seal_id: "test-001".to_string(),
        seal_name: "测试印章".to_string(),
        width_bits: 40.0f64.to_bits(),
        height_bits: 40.0f64.to_bits(),
        seal_type: Some(1),
        seal_image: String::new(),
        sign_cert_sn: None,
        sign_data: None,
        sign_cert: None,
        seal_start_time: None,
        seal_end_time: None,
        signer_name: None,
        sign_time: None,
        sign_method: None,
        cert_issuer: None,
        cert_subject: None,
        cert_start_time: None,
        cert_end_time: None,
        cert_algorithm: None,
        cert_data: None,
    }
}

#[test]
fn test_set_value_ex_takes_certificate_after_prefix() {
    let mut e = SignEngine::new();
    let mut store = Sm2KeyStore { pair: Some(Sm2KeyPair { pubkey: Vec::new(), seckey: Vec::new() }) };
    e.prepare_for_signing(b"doc".to_vec(), sign_seal_info());
    assert!(e.get_value_ex("GET_AIPSIGN_ORIDATA", 2).is_ok());
    assert_eq!(e.set_value_ex(&mut store, "SET_AIPSIGN_ORIDATA:ABC", 2, 0, "abcd"), Ok(1));
    assert_eq!(e.current_cert, Some("ABC".to_string()));
    assert!(e.get_pending_pkcs7().is_some());
    assert_eq!(e.get_value("last_sign_cert"), Some("ABC".to_string()));
}

#[test]
fn test_tounicode_reads_bfrange_sections() {
    let cm = b"1 beginbfrange\n<0010> <0012> <4E00>\nendbfrange\n";
    let m = parse_tounicode_cid_to_unicode(cm);
    let want: HashMap<u32, u32> = HashMap::from([(0x10, 0x4E00), (0x11, 0x4E01), (0x12, 0x4E02)]);
    assert_eq!(m, want);
}

#[test]
fn test_tounicode_reads_bfchar_and_bfrange() {
    let cm = b"1 beginbfrange\n<0005> <0006> <0061>\nendbfrange\n1 beginbfchar\n<0001> <0041>\nendbfchar\n";
    let m = parse_tounicode_cid_to_unicode(cm);
    let want: HashMap<u32, u32> = HashMap::from([(1, 0x41), (5, 0x61), (6, 0x62)]);
    assert_eq!(m, want);
}
