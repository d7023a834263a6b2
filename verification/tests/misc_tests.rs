use dianju_wasm_seal::font_provider::map_font_name;
use dianju_wasm_seal::settings::Settings;
use dianju_wasm_seal::utils::{base64_to_bytes, bytes_to_base64, file_extension, file_stem};

#[test]
fn file_names() {
    assert_eq!(file_extension("合同.final.pdf"), "pdf");
    assert_eq!(file_extension("README"), "");
    assert_eq!(file_extension("a."), "");
    assert_eq!(file_stem("合同.final.pdf"), "合同.final");
    assert_eq!(file_stem("README"), "README");
}

#[test]
fn base64_both_ways() {
    assert_eq!(bytes_to_base64(b"hello"), "aGVsbG8=");
    assert_eq!(base64_to_bytes("aGVsbG8="), Ok(b"hello".to_vec()));
    let err = base64_to_bytes("not base64!").unwrap_err();
    assert!(err.starts_with("base64 解码失败: "));
}

#[test]
fn substitute_fonts() {
    assert_eq!(map_font_name("STSong-Light"), Some("song".to_string()));
    assert_eq!(map_font_name("SimHei"), Some("hei".to_string()));
    assert_eq!(map_font_name("KaiTi"), Some("kai".to_string()));
    assert_eq!(map_font_name("NotoSansSC-Regular"), Some("song".to_string()));
    assert_eq!(map_font_name("MyHeiVariant"), Some("hei".to_string()));
    assert_eq!(map_font_name("AdobeGB1"), Some("song".to_string()));
    assert_eq!(map_font_name("Arial"), None);
}

#[test]
fn settings_map() {
    let mut s = Settings::new();
    assert_eq!(s.get("a"), None);
    s.insert("a", "1");
    s.insert("b", "2");
    s.insert("a", "3");
    assert_eq!(s.get("a"), Some("3".to_string()));
    s.remove("a");
    assert_eq!(s.get("a"), None);
    assert_eq!(s.get("b"), Some("2".to_string()));
}
