use dianju_wasm_seal::crypto::{sm3_hash, Sm2KeyPair, Sm2KeyStore};
use dianju_wasm_seal::pkcs7::{build_mock_pkcs7, build_pkcs7_signed_data, extract_issuer_and_serial};
use dianju_wasm_seal::ses::{
    build_mock_ses_seal, build_mock_ses_signature, build_ses_seal, build_ses_signature,
    build_tbs_sign, current_time_tuple, get_mock_cert_issuer, get_mock_cert_sn,
    get_mock_cert_subject, ses_params_from_seal_info, SealAlgorithm, SesParams,
};
use dianju_wasm_seal::types::SealInfo;

/// A key store whose key pair libsm refuses to load. libsm's first SM2
/// operation precomputes a large multiplication table, which is slow in an
/// unoptimised build; with this store the SM2 signer fails at once and the
/// builders use an empty signature, as they do whenever signing fails.
fn quick_store() -> Sm2KeyStore {
    Sm2KeyStore { pair: Some(Sm2KeyPair { pubkey: Vec::new(), seckey: Vec::new() }) }
}

#[test]
fn test_build_mock_ses_seal() {
    let params = SesParams::default();
    let mut store = quick_store();
    let seal_der = build_mock_ses_seal(&params, &mut store);
    assert!(!seal_der.is_empty());
    assert_eq!(seal_der[0], 0x30);
    println!("SES_Seal DER size: {} bytes", seal_der.len());
}

#[test]
fn test_build_mock_ses_signature() {
    let params = SesParams::default();
    let mut store = quick_store();
    let doc_data = b"test document data for signing";
    let sig_der = build_mock_ses_signature(&params, doc_data, &mut store);
    assert!(!sig_der.is_empty());
    assert_eq!(sig_der[0], 0x30);
    println!("SES_Signature DER size: {} bytes", sig_der.len());
}

#[test]
fn test_build_tbs_sign() {
    let params = SesParams::default();
    let doc_hash = sm3_hash(b"test");
    let tbs = build_tbs_sign(&params, &doc_hash);
    assert!(!tbs.is_empty());
    assert_eq!(tbs[0], 0x30);
    println!("TBS_Sign DER size: {} bytes", tbs.len());
}

#[test]
fn test_mock_certs_loaded() {
    let rsa = SealAlgorithm::Rsa.cert_der();
    let ec = SealAlgorithm::Sm2.cert_der();
    assert!(!rsa.is_empty());
    assert!(!ec.is_empty());
    assert!(rsa.len() > 100);
    assert!(ec.len() > 100);
    assert_eq!(rsa[0], 0x30);
    assert_eq!(ec[0], 0x30);
}

#[test]
fn test_extract_issuer_serial() {
    let cert = SealAlgorithm::Sm2.cert_der();
    let (issuer, serial) = extract_issuer_and_serial(&cert);
    assert!(!issuer.is_empty(), "issuer should not be empty");
    assert!(!serial.is_empty(), "serial should not be empty");
    assert_eq!(issuer[0], 0x30);
    assert_eq!(serial[0], 0x02);
}

#[test]
fn test_build_pkcs7() {
    let params = SesParams::default();
    let mut store = quick_store();
    let doc_data = b"test document data";
    let doc_hash = sm3_hash(doc_data);
    let ses_sig = build_mock_ses_signature(&params, doc_data, &mut store);
    let pkcs7 = build_mock_pkcs7(params.algorithm, &ses_sig, &doc_hash, params.sign_time, &mut store);
    assert!(!pkcs7.is_empty());
    assert_eq!(pkcs7[0], 0x30);
    println!("PKCS#7 DER size: {} bytes", pkcs7.len());
}

#[test]
fn rsa_certificate_identifies_its_signer() {
    let cert = SealAlgorithm::Rsa.cert_der();
    let (issuer, serial) = extract_issuer_and_serial(&cert);
    assert_eq!(serial, vec![0x02, 0x08, 0x20, 0x26, 0, 0, 0, 0, 0, 0x02]);
    assert_eq!(issuer[0], 0x30);
    let text = String::from_utf8_lossy(&issuer).to_string();
    assert!(text.contains("test-signer@dianju.com"));
}

#[test]
fn extract_from_garbage_gives_empty() {
    let (i, s) = extract_issuer_and_serial(&[0x05, 0x00]);
    assert!(i.is_empty() && s.is_empty());
    let (i2, s2) = extract_issuer_and_serial(&[0x30, 0x03, 0x30, 0x01, 0x05]);
    assert!(i2.is_empty() && s2.is_empty());
}

#[test]
fn ses_structures_are_exact() {
    let params = SesParams::default();
    let seal = build_ses_seal(&params, &[1, 2, 3]);
    assert_eq!(&seal[seal.len() - 6..], &[0x03, 0x04, 0x00, 1, 2, 3]);
    let sig = build_ses_signature(&params, &[9, 9], &[7]);
    assert_eq!(&sig[sig.len() - 4..], &[0x03, 0x02, 0x00, 7]);
    let tbs = build_tbs_sign(&params, &[9, 9]);
    assert_eq!(&tbs[tbs.len() - params.cert_der.len()..], &params.cert_der[..]);
}

#[test]
fn rsa_mock_pkcs7_is_deterministic() {
    let mut store = Sm2KeyStore::new();
    let a = build_mock_pkcs7(SealAlgorithm::Rsa, b"ses", b"hash", (2026, 7, 10, 16, 30, 0), &mut store);
    let b = build_mock_pkcs7(SealAlgorithm::Rsa, b"ses", b"hash", (2026, 7, 10, 16, 30, 0), &mut store);
    assert_eq!(a, b);
    assert!(store.pair.is_none());
    let cert = SealAlgorithm::Rsa.cert_der();
    let explicit = build_pkcs7_signed_data(SealAlgorithm::Rsa, &cert, b"ses", b"hash", (2026, 7, 10, 16, 30, 0), &[]);
    assert_eq!(explicit[0], 0x30);
}

#[test]
fn mock_cert_texts() {
    assert_eq!(get_mock_cert_sn(SealAlgorithm::Sm2), "MOCK-SM2-SN-2026");
    assert_eq!(get_mock_cert_sn(SealAlgorithm::Rsa), "MOCK-RSA-SN-2026");
    assert_eq!(get_mock_cert_issuer(SealAlgorithm::Rsa), get_mock_cert_subject(SealAlgorithm::Rsa));
    assert_eq!(current_time_tuple(), (2026, 7, 10, 16, 30, 0));
}

fn seal_info(image: &str, sn: Option<&str>) -> SealInfo {
    SealInfo {
        origin: "cloud".to_string(),
        seal_id: "s1".to_string(),
        seal_name: "测试".to_string(),
        width_bits: 40f64.to_bits(),
        height_bits: 40f64.to_bits(),
        seal_type: None,
        seal_image: image.to_string(),
        sign_cert_sn: sn.map(|s| s.to_string()),
        sign_data: None,
        sign_cert: None,
        seal_start_time: None,
        seal_end_time: None,
        signer_name: None,
        sign_time: None,
        sign_method: None,
        cert_issuer: None,
        cert_subject: None,
        cert_start_time: None,
        cert_end_time: None,
        cert_algorithm: None,
        cert_data: None,
    }
}

#[test]
fn params_from_seal_info() {
    let p = ses_params_from_seal_info(&seal_info("aGk=", Some("SN1")), SealAlgorithm::Rsa);
    assert_eq!(p.seal_image, b"hi".to_vec());
    assert_eq!(p.seal_esn, b"SN1".to_vec());
    assert_eq!(p.cert_der, SealAlgorithm::Rsa.cert_der());
    let q = ses_params_from_seal_info(&seal_info("", Some("")), SealAlgorithm::Sm2);
    assert_eq!(q.seal_esn, b"MOCK-ESN-2026-0001".to_vec());
    assert_eq!(q.seal_image, SesParams::default().seal_image);
    let r = ses_params_from_seal_info(&seal_info("%%%", None), SealAlgorithm::Sm2);
    assert_eq!(r.seal_image, SesParams::default().seal_image);
}
