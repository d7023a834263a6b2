//! Digests (SM3, SHA-256, MD5), SM2 signatures, SM4-CBC, base64 / hex text,
//! and the mock RSA signature used in development.
//!
//! The algorithms themselves come from `libsm`, `sha2`, `md-5`, `base64` and
//! `hex`; this module states what each call returns and builds the rest.

use vstd::prelude::*;
use vstd::string::StringSliceAdditionalSpecFns;
use crate::text::{dec_chars, push_decimal, push_str, string_of, trim_end_char};

verus! {

// ------------------------------------------------------------
// Public key material shipped with the mock environment
// ------------------------------------------------------------

/// RSA public key (SubjectPublicKeyInfo, base64), mock data.
pub const MOCK_RSA_CERT: &'static str = "MIGfMA0GCSqGSIb3DQEBAQUAA4GNADCBiQKBgQCbCjqtkT8hh7h563wopmeU849Tv1jgwu89DdNUyYbLwxy9rFqrpzsj0DQlm/EXzN+yI42Jvoi0uSHo5OJ1h2NXSefjiopVxvDKNaArWD7z1n2DG/5E0NJrLEZk2wsTaXdqCnRm9HNPODRNXsEnW/4iRncvL4Hd13zOS62I8ywT5wIDAQAB";

/// SM2 public key (SubjectPublicKeyInfo, base64), mock data.
pub const MOCK_SM2_CERT: &'static str = "MFkwEwYHKoZIzj0CAQYIKoEcz1UBgi0DQgAEgLHeUjG9svZEuBUFh1zICkk76BUZwGjBYkU4CgmlSS/ra5/ip2EaedAxAwRc/TaKZ8EANZIg0TbPKEeS48x9ww==";

// ------------------------------------------------------------
// Names for what the outside algorithms compute
// ------------------------------------------------------------

/// SM3 digest of a message (GM/T 0004-2012).
pub uninterp spec fn sm3_digest(data: Seq<u8>) -> Seq<u8>;

/// SHA-256 digest of a message.
pub uninterp spec fn sha256_digest(data: Seq<u8>) -> Seq<u8>;

/// MD5 digest of a message.
pub uninterp spec fn md5_digest(data: Seq<u8>) -> Seq<u8>;

/// Standard (padded) base64 text of some bytes.
pub uninterp spec fn base64_text(data: Seq<u8>) -> Seq<char>;

/// Bytes that a standard base64 text decodes to, if it is valid.
pub uninterp spec fn base64_bytes(text: Seq<char>) -> Option<Seq<u8>>;

/// Outcome of checking an SM2 signature (default user id) over `data` with the
/// serialized public key `pubkey`: `None` when a key or the signature cannot
/// be read.
pub uninterp spec fn sm2_verdict(data: Seq<u8>, pubkey: Seq<u8>, sig: Seq<u8>) -> Option<bool>;

/// The serialized (uncompressed) SM2 public key that belongs to a serialized
/// secret key: the base point times the secret.
pub uninterp spec fn sm2_public_key_of(seckey: Seq<u8>) -> Seq<u8>;

/// SM4-CBC ciphertext (PKCS#7 padding) of `data` under a 16-byte key and IV.
pub uninterp spec fn sm4_cbc_ciphertext(data: Seq<u8>, key: Seq<u8>, iv: Seq<u8>) -> Seq<u8>;

/// SM4-CBC plaintext of `data` under a 16-byte key and IV, when the blocks and
/// the padding are well formed.
pub uninterp spec fn sm4_cbc_plaintext(data: Seq<u8>, key: Seq<u8>, iv: Seq<u8>) -> Option<Seq<u8>>;

// ------------------------------------------------------------
// Hex text
// ------------------------------------------------------------

/// Lower-case hex digit for a value below 16.
pub open spec fn hex_digit(n: u8) -> char {
    if n < 10 {
        (48 + n) as char
    } else {
        (87 + n) as char
    }
}

/// Lower-case hex text of a byte string, two digits per byte.
pub open spec fn hex_lower(b: Seq<u8>) -> Seq<char>
    decreases b.len(),
{
    if b.len() == 0 {
        Seq::empty()
    } else {
        hex_lower(b.drop_last()) + seq![hex_digit(b.last() / 16), hex_digit(b.last() % 16)]
    }
}

/// `hex::encode`: lower-case hex text of `data`.
#[verifier::external_body]
pub(crate) fn hex_encode(data: &[u8]) -> (r: String)
    ensures
        r@ == hex_lower(data@),
{
    hex::encode(data)
}

/// Value of an ASCII hex digit (either case).
pub open spec fn hex_value(c: u8) -> Option<u8> {
    if 0x30 <= c <= 0x39 {
        Some((c - 0x30) as u8)
    } else if 0x61 <= c <= 0x66 {
        Some((c - 0x61 + 10) as u8)
    } else if 0x41 <= c <= 0x46 {
        Some((c - 0x41 + 10) as u8)
    } else {
        None
    }
}

/// Bytes written as hex text: an even number of hex digits, two per byte.
pub open spec fn hex_decoded(b: Seq<u8>) -> Option<Seq<u8>>
    decreases b.len(),
{
    if b.len() == 0 {
        Some(Seq::empty())
    } else if b.len() == 1 {
        None
    } else {
        match (hex_value(b[0]), hex_value(b[1]), hex_decoded(b.subrange(2, b.len() as int))) {
            (Some(hi), Some(lo), Some(rest)) => Some(seq![(hi * 16 + lo) as u8] + rest),
            _ => None,
        }
    }
}

/// `hex::decode`: the bytes of a hex text, or an error for an odd length or a
/// character that is not a hex digit.
#[verifier::external_body]
pub(crate) fn hex_decode(data: &[u8]) -> (r: Result<Vec<u8>, ()>)
    ensures
        match r {
            Ok(v) => hex_decoded(data@) == Some(v@),
            Err(_) => hex_decoded(data@) is None,
        },
{
    hex::decode(data).map_err(|_| ())
}

// ------------------------------------------------------------
// Digests
// ------------------------------------------------------------

/// SM3 digest (`libsm::sm3::hash::Sm3Hash`): 32 bytes.
#[verifier::external_body]
pub fn sm3_hash(data: &[u8]) -> (r: Vec<u8>)
    ensures
        r@ == sm3_digest(data@),
        r@.len() == 32,
{
    libsm::sm3::hash::Sm3Hash::new(data).get_hash().to_vec()
}

/// SM3 digest as lower-case hex.
pub fn sm3_hash_hex(data: &[u8]) -> (r: String)
    ensures
        r@ == hex_lower(sm3_digest(data@)),
{
    let h = sm3_hash(data);
    hex_encode(h.as_slice())
}

/// SHA-256 digest (`sha2::Sha256`): 32 bytes.
#[verifier::external_body]
pub fn sha256(data: &[u8]) -> (r: Vec<u8>)
    ensures
        r@ == sha256_digest(data@),
        r@.len() == 32,
{
    <sha2::Sha256 as sha2::Digest>::digest(data).to_vec()
}

/// SHA-256 digest as lower-case hex.
pub fn sha256_hex(data: &[u8]) -> (r: String)
    ensures
        r@ == hex_lower(sha256_digest(data@)),
{
    let h = sha256(data);
    hex_encode(h.as_slice())
}

/// SHA-256 digest as base64.
pub fn sha256_base64(data: &[u8]) -> (r: String)
    ensures
        r@ == base64_text(sha256_digest(data@)),
{
    let h = sha256(data);
    b64_encode(h.as_slice())
}

/// MD5 digest (`md-5`): 16 bytes.
#[verifier::external_body]
pub fn md5(data: &[u8]) -> (r: Vec<u8>)
    ensures
        r@ == md5_digest(data@),
        r@.len() == 16,
{
    <md5::Md5 as md5::Digest>::digest(data).to_vec()
}

/// MD5 digest as lower-case hex.
pub fn md5_hex(data: &[u8]) -> (r: String)
    ensures
        r@ == hex_lower(md5_digest(data@)),
{
    let h = md5(data);
    hex_encode(h.as_slice())
}

// ------------------------------------------------------------
// Base64
// ------------------------------------------------------------

/// Standard base64 encoding (`base64::engine::general_purpose::STANDARD`);
/// the same engine decodes the text back to `data`.
#[verifier::external_body]
pub fn b64_encode(data: &[u8]) -> (r: String)
    ensures
        r@ == base64_text(data@),
        base64_bytes(r@) == Some(data@),
{
    base64::Engine::encode(&base64::engine::general_purpose::STANDARD, data)
}

/// Standard base64 decoding (`base64::Engine::decode`); the error is the
/// decoder's error as text, whose wording is not stated.
#[verifier::external_body]
pub fn b64_decode(s: &str) -> (r: Result<Vec<u8>, String>)
    ensures
        match r {
            Ok(v) => base64_bytes(s@) == Some(v@),
            Err(_) => base64_bytes(s@) is None,
        },
{
    base64::Engine::decode(&base64::engine::general_purpose::STANDARD, s)
        .map_err(|e| e.to_string())
}

/// Bytes of a base64 text, or nothing when it is not valid base64.
pub open spec fn base64_or_empty(text: Seq<char>) -> Seq<u8> {
    match base64_bytes(text) {
        Some(v) => v,
        None => Seq::empty(),
    }
}

/// The mock SM2 public key, decoded.
pub fn get_mock_sm2_cert() -> (r: Vec<u8>)
    ensures
        r@ == base64_or_empty(MOCK_SM2_CERT@),
{
    match b64_decode(MOCK_SM2_CERT) {
        Ok(v) => v,
        Err(_) => Vec::new(),
    }
}

/// The mock RSA public key, decoded.
pub fn get_mock_rsa_cert() -> (r: Vec<u8>)
    ensures
        r@ == base64_or_empty(MOCK_RSA_CERT@),
{
    match b64_decode(MOCK_RSA_CERT) {
        Ok(v) => v,
        Err(_) => Vec::new(),
    }
}

// ------------------------------------------------------------
// SM2 key pair
// ------------------------------------------------------------

/// An SM2 key pair: uncompressed public point (0x04 || x || y) and the
/// 32-byte secret scalar.
pub struct Sm2KeyPair {
    pub pubkey: Vec<u8>,
    pub seckey: Vec<u8>,
}

/// Fresh random SM2 key pair (`libsm` `SigCtx::new_keypair`, serialized with
/// `serialize_pubkey(_, false)` and `serialize_seckey`). The keys are random;
/// what is stated is that the public key is the secret key's (`new_keypair`
/// takes the base point times the secret), and the sizes `libsm` writes:
/// 0x04 then two 32-byte coordinates, and a 32-byte secret. A failure of the
/// generator aborts, as it does in `libsm`'s own examples.
#[verifier::external_body]
fn generate_sm2_keypair() -> (r: Sm2KeyPair)
    ensures
        r.pubkey@ == sm2_public_key_of(r.seckey@),
        r.pubkey@.len() == 65,
        r.pubkey@[0] == 0x04,
        r.seckey@.len() == 32,
{
    let ctx = libsm::sm2::signature::SigCtx::new();
    let (pk, sk) = ctx.new_keypair().expect("SM2 keypair generation failed");
    let pubkey = ctx.serialize_pubkey(&pk, false).expect("SM2 public key serialization failed");
    let seckey = ctx.serialize_seckey(&sk).expect("SM2 private key serialization failed");
    Sm2KeyPair { pubkey, seckey }
}

/// Where the session's SM2 key pair lives: empty until first use, then fixed.
pub struct Sm2KeyStore {
    pub pair: Option<Sm2KeyPair>,
}

impl Sm2KeyStore {
    /// A store that has not generated its key pair yet.
    pub fn new() -> (r: Sm2KeyStore)
        ensures
            r.pair is None,
    {
        Sm2KeyStore { pair: None }
    }

    /// The public key, once generated.
    pub open spec fn pubkey_view(&self) -> Seq<u8> {
        self.pair->0.pubkey@
    }

    /// The secret key, once generated.
    pub open spec fn seckey_view(&self) -> Seq<u8> {
        self.pair->0.seckey@
    }

    /// Whether the store holds a key pair whose public key is its secret key's.
    pub open spec fn matched(self) -> bool {
        self.pair is Some && self.pubkey_view() == sm2_public_key_of(self.seckey_view())
    }

    /// Whether `next` is what `self` becomes when the key pair is made sure of:
    /// a key pair exists, and an existing one is kept.
    pub open spec fn ensured(self, next: Self) -> bool {
        &&& next.pair is Some
        &&& self.pair is Some ==> next.pubkey_view() == self.pubkey_view()
            && next.seckey_view() == self.seckey_view()
    }
}

/// Generate the key pair on first use; later calls keep it.
pub fn ensure_sm2_keypair(store: &mut Sm2KeyStore)
    ensures
        old(store).ensured(*final(store)),
        old(store).pair is None ==> final(store).pubkey_view().len() == 65 && final(store).pubkey_view()[0] == 0x04
            && final(store).seckey_view().len() == 32,
        old(store).pair is None ==> final(store).matched(),
        old(store).matched() ==> final(store).matched(),
{
    if store.pair.is_none() {
        let kp = generate_sm2_keypair();
        store.pair = Some(kp);
    }
}

/// Copy of a byte vector.
fn copy_bytes(v: &Vec<u8>) -> (r: Vec<u8>)
    ensures
        r@ == v@,
{
    let mut out: Vec<u8> = Vec::new();
    crate::der::extend_bytes(&mut out, v.as_slice());
    out
}

/// The current SM2 public key (65 bytes, 0x04 || x || y), generated on first use.
pub fn get_sm2_pubkey(store: &mut Sm2KeyStore) -> (r: Vec<u8>)
    ensures
        old(store).ensured(*final(store)),
        r@ == final(store).pubkey_view(),
{
    ensure_sm2_keypair(store);
    match &store.pair {
        Some(kp) => copy_bytes(&kp.pubkey),
        None => Vec::new(),
    }
}

/// The current SM2 secret key (32 bytes), generated on first use.
pub fn get_sm2_seckey(store: &mut Sm2KeyStore) -> (r: Vec<u8>)
    ensures
        old(store).ensured(*final(store)),
        r@ == final(store).seckey_view(),
{
    ensure_sm2_keypair(store);
    match &store.pair {
        Some(kp) => copy_bytes(&kp.seckey),
        None => Vec::new(),
    }
}

/// SM2 signature of `data` with the given serialized keys (`libsm`
/// `SigCtx::load_seckey`, `load_pubkey`, `sign`, then `Signature::der_encode`):
/// DER `SEQUENCE { r INTEGER, s INTEGER }`, so it starts with the SEQUENCE
/// tag 0x30. The signature uses a random nonce, so its other bytes are not
/// stated; what is stated is SM2's correctness: with the
/// public key that belongs to the secret key, the signature verifies.
/// Errors carry `libsm`'s message.
#[verifier::external_body]
fn sm2_sign_with(data: &[u8], seckey: &[u8], pubkey: &[u8]) -> (r: Result<Vec<u8>, String>)
    ensures
        r is Ok ==> r->Ok_0@.len() > 0 && r->Ok_0@[0] == 0x30,
        r is Ok && pubkey@ == sm2_public_key_of(seckey@) ==> sm2_verdict(data@, pubkey@, r->Ok_0@) == Some(true),
{
    let ctx = libsm::sm2::signature::SigCtx::new();
    let sk = ctx.load_seckey(seckey).map_err(|e| format!("SM2 load seckey error: {}", e))?;
    let pk = ctx.load_pubkey(pubkey).map_err(|e| format!("SM2 load pubkey error: {}", e))?;
    let sig = ctx.sign(data, &sk, &pk).map_err(|e| format!("SM2 sign error: {}", e))?;
    Ok(sig.der_encode())
}

/// SM2 verification of a DER signature over `data` (`libsm` `SigCtx::load_pubkey`,
/// `Signature::der_decode`, `verify`): the verdict, or an error when the key
/// or the signature cannot be read. The error's text is not stated.
#[verifier::external_body]
fn sm2_verify_with(data: &[u8], pubkey: &[u8], signature: &[u8]) -> (r: Result<bool, String>)
    ensures
        match r {
            Ok(b) => sm2_verdict(data@, pubkey@, signature@) == Some(b),
            Err(_) => sm2_verdict(data@, pubkey@, signature@) is None,
        },
{
    let ctx = libsm::sm2::signature::SigCtx::new();
    let pk = ctx.load_pubkey(pubkey).map_err(|e| format!("SM2 load pubkey error: {}", e))?;
    let sig = libsm::sm2::signature::Signature::der_decode(signature)
        .map_err(|e| format!("SM2 signature DER decode error: {}", e))?;
    ctx.verify(data, &pk, &sig).map_err(|e| format!("SM2 verify error: {}", e))
}

/// SM2 signature of `data` with the session key pair (generated on first use).
/// `_privkey_der` is reserved for a real key and not read.
pub fn sm2_sign(store: &mut Sm2KeyStore, data: &[u8], _privkey_der: &[u8]) -> (r: Result<Vec<u8>, String>)
    ensures
        old(store).ensured(*final(store)),
        old(store).pair is None ==> final(store).matched(),
        old(store).matched() ==> final(store).matched(),
        r is Ok && final(store).matched() ==> sm2_verdict(data@, final(store).pubkey_view(), r->Ok_0@) == Some(
            true,
        ),
        r is Ok ==> r->Ok_0@.len() > 0 && r->Ok_0@[0] == 0x30,
{
    ensure_sm2_keypair(store);
    match &store.pair {
        Some(kp) => sm2_sign_with(data, kp.seckey.as_slice(), kp.pubkey.as_slice()),
        None => Err(string_of("SM2 key pair missing")),
    }
}

/// SM2 verification of `signature` over `data` with the session public key.
/// `_pubkey_der` is reserved for a real key and not read.
pub fn sm2_verify(store: &mut Sm2KeyStore, data: &[u8], signature: &[u8], _pubkey_der: &[u8]) -> (r: Result<bool, String>)
    ensures
        old(store).ensured(*final(store)),
        match r {
            Ok(b) => sm2_verdict(data@, final(store).pubkey_view(), signature@) == Some(b),
            Err(_) => sm2_verdict(data@, final(store).pubkey_view(), signature@) is None,
        },
{
    ensure_sm2_keypair(store);
    match &store.pair {
        Some(kp) => sm2_verify_with(data, kp.pubkey.as_slice(), signature),
        None => Err(string_of("SM2 key pair missing")),
    }
}

// ------------------------------------------------------------
// SM4-CBC
// ------------------------------------------------------------

/// SM4-CBC encryption with PKCS#7 padding (`libsm` `Cipher::new(key, Mode::Cbc)`
/// then `encrypt(&[], data, iv)`). With a 16-byte key and IV it always
/// succeeds, writes one more block than the whole blocks of `data`, and
/// decrypting what it writes (`cbc_decrypt` undoes the chaining and strips
/// the 1 to 16 padding bytes) gives `data` back.
#[verifier::external_body]
fn sm4_cbc_encrypt(data: &[u8], key: &[u8], iv: &[u8]) -> (r: Vec<u8>)
    requires
        key@.len() == 16,
        iv@.len() == 16,
    ensures
        r@ == sm4_cbc_ciphertext(data@, key@, iv@),
        r@.len() == 16 * (data@.len() / 16 + 1),
        sm4_cbc_plaintext(r@, key@, iv@) == Some(data@),
{
    let cipher = libsm::sm4::Cipher::new(key, libsm::sm4::Mode::Cbc).expect("16-byte key");
    cipher.encrypt(&[], data, iv).expect("16-byte IV")
}

/// SM4-CBC decryption with PKCS#7 padding removal (`libsm` `Cipher::new(key,
/// Mode::Cbc)` then `decrypt(&[], data, iv)`). `libsm` reads the last byte of
/// the plaintext, so `data` must not be empty; a length that is not a whole
/// number of blocks is refused. The error's text is not stated.
#[verifier::external_body]
fn sm4_cbc_decrypt(data: &[u8], key: &[u8], iv: &[u8]) -> (r: Result<Vec<u8>, String>)
    requires
        key@.len() == 16,
        iv@.len() == 16,
        data@.len() > 0,
    ensures
        match r {
            Ok(v) => sm4_cbc_plaintext(data@, key@, iv@) == Some(v@),
            Err(_) => sm4_cbc_plaintext(data@, key@, iv@) is None,
        },
        data@.len() % 16 != 0 ==> r is Err,
{
    let cipher = libsm::sm4::Cipher::new(key, libsm::sm4::Mode::Cbc).expect("16-byte key");
    cipher.decrypt(&[], data, iv).map_err(|e| format!("SM4 decrypt error: {}", e))
}

/// Text of the length errors of the SM4 functions.
pub open spec fn sm4_length_error(what: Seq<char>, got: nat) -> Seq<char> {
    "SM4 "@ + what + " must be 16 bytes, got "@ + dec_chars(got)
}

fn length_error(what: &str, got: usize) -> (r: String)
    ensures
        r@ == sm4_length_error(what@, got as nat),
{
    let mut s = string_of("SM4 ");
    push_str(&mut s, what);
    push_str(&mut s, " must be 16 bytes, got ");
    push_decimal(&mut s, got as u64);
    s
}

/// SM4-CBC encryption (PKCS#7 padding). The key and the IV must be 16 bytes.
pub fn sm4_encrypt(data: &[u8], key: &[u8], iv: &[u8]) -> (r: Result<Vec<u8>, String>)
    ensures
        key@.len() != 16 ==> r is Err && r->Err_0@ == sm4_length_error("key"@, key@.len()),
        key@.len() == 16 && iv@.len() != 16 ==> r is Err && r->Err_0@ == sm4_length_error(
            "IV"@,
            iv@.len(),
        ),
        key@.len() == 16 && iv@.len() == 16 ==> r is Ok && r->Ok_0@ == sm4_cbc_ciphertext(
            data@,
            key@,
            iv@,
        ),
        r is Ok ==> sm4_cbc_plaintext(r->Ok_0@, key@, iv@) == Some(data@) && r->Ok_0@.len() == 16 * (data@.len()
            / 16 + 1),
{
    if key.len() != 16 {
        return Err(length_error("key", key.len()));
    }
    if iv.len() != 16 {
        return Err(length_error("IV", iv.len()));
    }
    Ok(sm4_cbc_encrypt(data, key, iv))
}

/// SM4-CBC decryption (PKCS#7 padding removed). The key and the IV must be 16
/// bytes; the ciphertext must not be empty.
pub fn sm4_decrypt(data: &[u8], key: &[u8], iv: &[u8]) -> (r: Result<Vec<u8>, String>)
    requires
        key@.len() == 16 && iv@.len() == 16 ==> data@.len() > 0,
    ensures
        key@.len() != 16 ==> r is Err && r->Err_0@ == sm4_length_error("key"@, key@.len()),
        key@.len() == 16 && iv@.len() != 16 ==> r is Err && r->Err_0@ == sm4_length_error(
            "IV"@,
            iv@.len(),
        ),
        key@.len() == 16 && iv@.len() == 16 ==> match r {
            Ok(v) => sm4_cbc_plaintext(data@, key@, iv@) == Some(v@),
            Err(_) => sm4_cbc_plaintext(data@, key@, iv@) is None,
        },
        key@.len() == 16 && iv@.len() == 16 && data@.len() % 16 != 0 ==> r is Err,
{
    if key.len() != 16 {
        return Err(length_error("key", key.len()));
    }
    if iv.len() != 16 {
        return Err(length_error("IV", iv.len()));
    }
    sm4_cbc_decrypt(data, key, iv)
}

// ------------------------------------------------------------
// Mock RSA signature and file identifiers
// ------------------------------------------------------------

/// The mock RSA signature block: the SHA-256 digest of the data followed by
/// 224 zero bytes (256 bytes in all).
pub open spec fn mock_rsa_signature(data: Seq<u8>) -> Seq<u8> {
    sha256_digest(data) + Seq::new(224, |i: int| 0u8)
}

/// Mock RSA PKCS#1 v1.5 signature: a 256-byte block whose first 32 bytes are
/// the SHA-256 digest of `data`, the rest zero. Never fails.
pub fn rsa_sign(data: &[u8]) -> (r: Result<Vec<u8>, String>)
    ensures
        r is Ok,
        r->Ok_0@ == mock_rsa_signature(data@),
{
    let digest = sha256(data);
    let mut sig: Vec<u8> = Vec::new();
    crate::der::extend_bytes(&mut sig, digest.as_slice());
    let mut i: usize = 0;
    while i < 224
        invariant
            i <= 224,
            sig@ == sha256_digest(data@) + Seq::new(i as nat, |k: int| 0u8),
        decreases 224 - i,
    {
        sig.push(0u8);
        assert(Seq::new((i + 1) as nat, |k: int| 0u8) =~= Seq::new(i as nat, |k: int| 0u8).push(0u8));
        i = i + 1;
    }
    Ok(sig)
}

/// MD5 (hex) of the first `left_bytes` bytes of `data` (all of it when shorter).
pub fn file_left_md5(data: &[u8], left_bytes: usize) -> (r: String)
    ensures
        r@ == hex_lower(md5_digest(data@.take(if left_bytes < data@.len() { left_bytes as int } else { data@.len() as int }))),
{
    let len: usize = if left_bytes < data.len() { left_bytes } else { data.len() };
    let head = &data[0..len];
    assert(head@ =~= data@.take(len as int));
    md5_hex(head)
}

/// File identifier: base64 of the SHA-256 of the text's UTF-8 bytes, with the
/// trailing `=` padding removed.
pub fn file_id_hash(data: &str) -> (r: String)
    ensures
        r@ == trim_end_char(base64_text(sha256_digest(data.spec_bytes())), '='),
{
    let b64 = sha256_base64(data.as_bytes());
    crate::text::trim_end_matches_char(b64.as_str(), '=')
}

} // verus!
