use dianju_wasm_seal::crypto::{
    Sm2KeyPair, file_id_hash, file_left_md5, md5_hex, rsa_sign, sha256, sha256_base64,
    sha256_hex, sm2_sign, sm2_verify, sm3_hash, sm3_hash_hex, sm4_decrypt, sm4_encrypt,
    get_sm2_pubkey, get_sm2_seckey, b64_decode, b64_encode, Sm2KeyStore,
};

#[test]
fn test_sm3_hash() {
    let data = b"hello sm3";
    let hash = sm3_hash(data);
    assert_eq!(hash.len(), 32);
}

#[test]
fn test_sha256() {
    let data = b"test";
    let hash = sha256_hex(data);
    assert_eq!(hash.len(), 64);
}

#[test]
fn test_md5() {
    let data = b"test";
    let hash = md5_hex(data);
    assert_eq!(hash.len(), 32);
}

#[test]
fn test_sm4_cbc_roundtrip() {
    let key = [0x01u8; 16];
    let iv = [0x02u8; 16];
    let plaintext = b"hello world, this is a SM4 CBC test message";
    let ciphertext = sm4_encrypt(plaintext, &key, &iv).expect("SM4 encrypt should succeed");
    assert_eq!(ciphertext.len() % 16, 0);
    assert_ne!(&ciphertext[..], &plaintext[..]);
    let decrypted = sm4_decrypt(&ciphertext, &key, &iv).expect("SM4 decrypt should succeed");
    assert_eq!(&decrypted[..], &plaintext[..]);
}

#[test]
fn test_sm4_cbc_empty() {
    let key = [0xAAu8; 16];
    let iv = [0xBBu8; 16];
    let plaintext = b"";
    let ciphertext = sm4_encrypt(plaintext, &key, &iv).expect("SM4 encrypt empty should succeed");
    assert_eq!(ciphertext.len(), 16);
    let decrypted = sm4_decrypt(&ciphertext, &key, &iv).expect("SM4 decrypt should succeed");
    assert!(decrypted.is_empty());
}

#[test]
fn test_sm4_cbc_exact_block() {
    let key = [0x33u8; 16];
    let iv = [0x44u8; 16];
    let plaintext = [0x55u8; 16];
    let ciphertext = sm4_encrypt(&plaintext, &key, &iv).expect("SM4 encrypt should succeed");
    assert_eq!(ciphertext.len(), 32);
    let decrypted = sm4_decrypt(&ciphertext, &key, &iv).expect("SM4 decrypt should succeed");
    assert_eq!(decrypted, plaintext);
}

#[test]
fn test_sm4_wrong_key_length() {
    let result = sm4_encrypt(b"data", &[0u8; 15], &[0u8; 16]);
    assert!(result.is_err());
}

#[test]
fn test_sm4_wrong_iv_length() {
    let result = sm4_encrypt(b"data", &[0u8; 16], &[0u8; 15]);
    assert!(result.is_err());
}

#[test]
fn sm4_error_messages() {
    assert_eq!(sm4_encrypt(b"x", &[0u8; 15], &[0u8; 16]).unwrap_err(), "SM4 key must be 16 bytes, got 15");
    assert_eq!(sm4_decrypt(b"x", &[0u8; 16], &[0u8; 3]).unwrap_err(), "SM4 IV must be 16 bytes, got 3");
    assert!(sm4_decrypt(&[1u8; 15], &[0u8; 16], &[0u8; 16]).is_err());
}

#[test]
fn known_digests() {
    assert_eq!(sha256_hex(b"abc"), "ba7816bf8f01cfea414140de5dae2223b00361a396177a9cb410ff61f20015ad");
    assert_eq!(md5_hex(b"abc"), "900150983cd24fb0d6963f7d28e17f72");
    assert_eq!(sm3_hash_hex(b"abc"), "66c7f0f462eeedd9d1f2d46bdc10e4e24167c4875cf2f7a2297da02b8f4ba8e0");
    assert_eq!(sha256_base64(b"abc"), "ungWv48Bz+pBQUDeXa4iI7ADYaOWF3qctBD/YfIAFa0=");
}

#[test]
fn mock_rsa_signature_block() {
    let sig = rsa_sign(b"abc").unwrap();
    assert_eq!(sig.len(), 256);
    assert_eq!(&sig[..32], &sha256(b"abc")[..]);
    assert!(sig[32..].iter().all(|b| *b == 0));
}

#[test]
fn file_identifiers() {
    assert_eq!(file_left_md5(b"abcdef", 3), md5_hex(b"abc"));
    assert_eq!(file_left_md5(b"ab", 10), md5_hex(b"ab"));
    assert_eq!(file_id_hash("abc"), "ungWv48Bz+pBQUDeXa4iI7ADYaOWF3qctBD/YfIAFa0");
}

#[test]
fn existing_keypair_is_kept() {
    let mut store = Sm2KeyStore { pair: Some(Sm2KeyPair { pubkey: vec![4, 1, 2], seckey: vec![9; 32] }) };
    assert_eq!(get_sm2_pubkey(&mut store), vec![4, 1, 2]);
    assert_eq!(get_sm2_seckey(&mut store), vec![9; 32]);
    assert_eq!(get_sm2_pubkey(&mut store), vec![4, 1, 2]);
}

#[test]
fn sm2_with_unreadable_key_fails() {
    let mut store = Sm2KeyStore { pair: Some(Sm2KeyPair { pubkey: vec![], seckey: vec![] }) };
    assert!(sm2_sign(&mut store, b"m", &[]).is_err());
    assert!(sm2_verify(&mut store, b"m", &[0x30, 0x00], &[]).is_err());
}

#[test]
fn base64_roundtrip_and_error() {
    assert_eq!(b64_encode(b"hi"), "aGk=");
    assert_eq!(b64_decode("aGk=").unwrap(), b"hi".to_vec());
    assert!(b64_decode("!!").is_err());
}
