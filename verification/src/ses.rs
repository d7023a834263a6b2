//! SES electronic seal structures (GM/T 0031-2014), DER encoded.
//!
//! ```text
//! SES_Signature ::= SEQUENCE { toSign TBS_Sign, signatureAlgo OID, signature BIT STRING }
//! TBS_Sign      ::= SEQUENCE { version INTEGER, esn OCTET STRING, signatureAlgo OID,
//!                              signatureTime UTCTime, signatureValue BIT STRING, cert }
//! SES_Seal      ::= SEQUENCE { eSealInfo SES_SealInfo, signatureAlgo OID, signature BIT STRING }
//! SES_SealInfo  ::= SEQUENCE { header SES_Header, esn OCTET STRING, property SES_SealProperty,
//!                              picture SES_SealPicture, cert }
//! SES_Header    ::= SEQUENCE { version INTEGER, esID PrintableString, type PrintableString }
//! SES_SealProperty ::= SEQUENCE { type PrintableString, name UTF8String,
//!                                 validStart UTCTime, validEnd UTCTime }
//! SES_SealPicture  ::= SEQUENCE { type PrintableString, data BIT STRING }
//! ```
//!
//! The certificates and keys are mock data for development.

pub mod mock_data;

use vstd::prelude::*;
use vstd::string::StringSliceAdditionalSpecFns;
use vstd::utf8::encode_utf8;
use crate::crypto::{
    b64_decode, b64_encode, base64_bytes, base64_text, mock_rsa_signature, rsa_sign, sha256,
    sha256_digest, sm2_sign, sm3_digest, sm3_hash, Sm2KeyStore,
};
use crate::der::{
    bit_string, context_explicit, extend_bytes, integer, octet_string, oid, printable_string,
    spec_bit_string, spec_integer, spec_oid, spec_tlv, spec_utc_time, tlv, utc_time, utf8_string,
    explicit_tag, lemma_tlv_len_bound, signed_len, spec_integer_content,
};
use crate::der::oids;
use crate::pkcs7::{cert_layout, tbs_layout, lemma_issuer_and_serial_of_layout, issuer_and_serial_defined, spec_issuer_and_serial};
use crate::pkcs7::{lemma_decode_tlv_roundtrip, spec_decode_tlv};
use crate::der::{spec_utc_time_text, TAG_UTCTIME};
use crate::text::string_of;
use crate::types::SealInfo;
use self::mock_data::{
    MOCK_EC_SERIAL, MOCK_EC_TBS_SIGALG, MOCK_EC_ISSUER, MOCK_EC_TBS_REST, MOCK_EC_CERT_TAIL, MOCK_RSA_SERIAL, MOCK_RSA_TBS_SIGALG, MOCK_RSA_ISSUER, MOCK_RSA_TBS_REST, MOCK_RSA_CERT_TAIL, MOCK_EC_PRIVKEY_DER, MOCK_RSA_PRIVKEY_DER, MOCK_SEAL_PNG,
};

verus! {

/// Seal number used when the seal carries none.
pub const MOCK_SEAL_ESN: &'static str = "MOCK-ESN-2026-0001";

/// Issuer of the mock seals.
pub const MOCK_ES_ID: &'static str = "DianJu-Mock-CA";

/// Signature algorithm of a seal.
#[derive(Debug, Clone, Copy, PartialEq, Eq, Structural)]
pub enum SealAlgorithm {
    /// SM2 with SM3.
    Sm2,
    /// RSA with SHA-256.
    Rsa,
}

/// OID text of the signature algorithm.
pub open spec fn signature_oid_text(alg: SealAlgorithm) -> Seq<char> {
    match alg {
        SealAlgorithm::Sm2 => oids::SM2_WITH_SM3@,
        SealAlgorithm::Rsa => oids::RSA_WITH_SHA256@,
    }
}

/// OID text of the digest algorithm.
pub open spec fn digest_oid_text(alg: SealAlgorithm) -> Seq<char> {
    match alg {
        SealAlgorithm::Sm2 => oids::SM3@,
        SealAlgorithm::Rsa => oids::SHA256@,
    }
}

/// Digest that goes with the algorithm: SM3 for SM2, SHA-256 for RSA.
pub open spec fn digest_of(alg: SealAlgorithm, data: Seq<u8>) -> Seq<u8> {
    match alg {
        SealAlgorithm::Sm2 => sm3_digest(data),
        SealAlgorithm::Rsa => sha256_digest(data),
    }
}

/// The encoded `[0] { INTEGER 2 }` version field of an X.509 v3 certificate.
pub open spec fn v3_version() -> Seq<u8> {
    spec_integer(2)
}

/// The mock certificate of an algorithm (self-signed, DER).
pub open spec fn mock_cert(alg: SealAlgorithm) -> Seq<u8> {
    match alg {
        SealAlgorithm::Sm2 => cert_layout(
            v3_version(),
            MOCK_EC_SERIAL@,
            MOCK_EC_TBS_SIGALG@,
            MOCK_EC_ISSUER@,
            MOCK_EC_TBS_REST@,
            MOCK_EC_CERT_TAIL@,
        ),
        SealAlgorithm::Rsa => cert_layout(
            v3_version(),
            MOCK_RSA_SERIAL@,
            MOCK_RSA_TBS_SIGALG@,
            MOCK_RSA_ISSUER@,
            MOCK_RSA_TBS_REST@,
            MOCK_RSA_CERT_TAIL@,
        ),
    }
}

/// Issuer Name (with tag and length) of the mock certificate.
pub open spec fn mock_cert_issuer(alg: SealAlgorithm) -> Seq<u8> {
    match alg {
        SealAlgorithm::Sm2 => spec_tlv(0x30, MOCK_EC_ISSUER@),
        SealAlgorithm::Rsa => spec_tlv(0x30, MOCK_RSA_ISSUER@),
    }
}

/// Serial number INTEGER (with tag and length) of the mock certificate.
pub open spec fn mock_cert_serial(alg: SealAlgorithm) -> Seq<u8> {
    match alg {
        SealAlgorithm::Sm2 => spec_tlv(0x02, MOCK_EC_SERIAL@),
        SealAlgorithm::Rsa => spec_tlv(0x02, MOCK_RSA_SERIAL@),
    }
}

/// The private key that goes with the mock certificate (PKCS#8 DER).
pub open spec fn mock_privkey(alg: SealAlgorithm) -> Seq<u8> {
    match alg {
        SealAlgorithm::Sm2 => MOCK_EC_PRIVKEY_DER@,
        SealAlgorithm::Rsa => MOCK_RSA_PRIVKEY_DER@,
    }
}

/// Assemble a certificate from its parts, as `cert_layout` lays them out.
fn assemble_cert(
    serial: &[u8],
    sigalg: &[u8],
    issuer: &[u8],
    tbs_rest: &[u8],
    tail: &[u8],
) -> (r: Vec<u8>)
    ensures
        r@ == cert_layout(v3_version(), serial@, sigalg@, issuer@, tbs_rest@, tail@),
{
    let version = integer(2);
    let mut tbs: Vec<u8> = context_explicit(0, version.as_slice());
    assert(explicit_tag(0) == 0xA0) by (bit_vector);
    let serial_tlv = tlv(0x02, serial);
    extend_bytes(&mut tbs, serial_tlv.as_slice());
    let sigalg_tlv = tlv(0x30, sigalg);
    extend_bytes(&mut tbs, sigalg_tlv.as_slice());
    let issuer_tlv = tlv(0x30, issuer);
    extend_bytes(&mut tbs, issuer_tlv.as_slice());
    extend_bytes(&mut tbs, tbs_rest);
    let mut inner = tlv(0x30, tbs.as_slice());
    extend_bytes(&mut inner, tail);
    tlv(0x30, inner.as_slice())
}

impl SealAlgorithm {
    /// OID of the signature algorithm.
    pub fn signature_oid(&self) -> (r: &'static str)
        ensures
            r@ == signature_oid_text(*self),
    {
        match self {
            SealAlgorithm::Sm2 => oids::SM2_WITH_SM3,
            SealAlgorithm::Rsa => oids::RSA_WITH_SHA256,
        }
    }

    /// OID of the digest algorithm.
    pub fn digest_oid(&self) -> (r: &'static str)
        ensures
            r@ == digest_oid_text(*self),
    {
        match self {
            SealAlgorithm::Sm2 => oids::SM3,
            SealAlgorithm::Rsa => oids::SHA256,
        }
    }

    /// DER of the (mock) signing certificate.
    pub fn cert_der(&self) -> (r: Vec<u8>)
        ensures
            r@ == mock_cert(*self),
    {
        match self {
            SealAlgorithm::Sm2 => assemble_cert(
                MOCK_EC_SERIAL.as_slice(),
                MOCK_EC_TBS_SIGALG.as_slice(),
                MOCK_EC_ISSUER.as_slice(),
                MOCK_EC_TBS_REST.as_slice(),
                MOCK_EC_CERT_TAIL.as_slice(),
            ),
            SealAlgorithm::Rsa => assemble_cert(
                MOCK_RSA_SERIAL.as_slice(),
                MOCK_RSA_TBS_SIGALG.as_slice(),
                MOCK_RSA_ISSUER.as_slice(),
                MOCK_RSA_TBS_REST.as_slice(),
                MOCK_RSA_CERT_TAIL.as_slice(),
            ),
        }
    }

    /// DER of the (mock) private key, PKCS#8.
    pub fn privkey_der(&self) -> (r: &'static [u8])
        ensures
            r@ == mock_privkey(*self),
    {
        match self {
            SealAlgorithm::Sm2 => MOCK_EC_PRIVKEY_DER.as_slice(),
            SealAlgorithm::Rsa => MOCK_RSA_PRIVKEY_DER.as_slice(),
        }
    }
}

/// A certificate laid out from parts is at most ten header bytes per layer
/// longer than its parts.
proof fn lemma_cert_layout_len(
    version: Seq<u8>,
    serial: Seq<u8>,
    sigalg: Seq<u8>,
    issuer: Seq<u8>,
    tbs_rest: Seq<u8>,
    tail: Seq<u8>,
)
    requires
        version.len() + serial.len() + sigalg.len() + issuer.len() + tbs_rest.len() + tail.len() < 0x1_0000,
    ensures
        cert_layout(version, serial, sigalg, issuer, tbs_rest, tail).len()
            <= version.len() + serial.len() + sigalg.len() + issuer.len() + tbs_rest.len() + tail.len() + 60,
{
    lemma_tlv_len_bound(0xA0, version);
    lemma_tlv_len_bound(0x02, serial);
    lemma_tlv_len_bound(0x30, sigalg);
    lemma_tlv_len_bound(0x30, issuer);
    let t = tbs_layout(version, serial, sigalg, issuer, tbs_rest);
    lemma_tlv_len_bound(0x30, t);
    lemma_tlv_len_bound(0x30, spec_tlv(0x30, t) + tail);
}

/// The encoded version number is three bytes.
proof fn lemma_v3_version_len()
    ensures
        v3_version().len() == 3,
{
    assert(signed_len(2) == 1);
    assert(spec_integer_content(2).len() == 1);
}

/// The signer of each mock certificate can be identified: the issuer and
/// serial number read from it are its issuer Name and serialNumber.
pub proof fn lemma_mock_cert_identifiable(alg: SealAlgorithm)
    ensures
        issuer_and_serial_defined(mock_cert(alg)),
        spec_issuer_and_serial(mock_cert(alg)) == (mock_cert_issuer(alg), mock_cert_serial(alg)),
{
    match alg {
        SealAlgorithm::Sm2 => {
            lemma_v3_version_len();
            lemma_cert_layout_len(
                v3_version(),
                MOCK_EC_SERIAL@,
                MOCK_EC_TBS_SIGALG@,
                MOCK_EC_ISSUER@,
                MOCK_EC_TBS_REST@,
                MOCK_EC_CERT_TAIL@,
            );
            lemma_issuer_and_serial_of_layout(
                v3_version(),
                MOCK_EC_SERIAL@,
                MOCK_EC_TBS_SIGALG@,
                MOCK_EC_ISSUER@,
                MOCK_EC_TBS_REST@,
                MOCK_EC_CERT_TAIL@,
            );
        },
        SealAlgorithm::Rsa => {
            lemma_v3_version_len();
            lemma_cert_layout_len(
                v3_version(),
                MOCK_RSA_SERIAL@,
                MOCK_RSA_TBS_SIGALG@,
                MOCK_RSA_ISSUER@,
                MOCK_RSA_TBS_REST@,
                MOCK_RSA_CERT_TAIL@,
            );
            lemma_issuer_and_serial_of_layout(
                v3_version(),
                MOCK_RSA_SERIAL@,
                MOCK_RSA_TBS_SIGALG@,
                MOCK_RSA_ISSUER@,
                MOCK_RSA_TBS_REST@,
                MOCK_RSA_CERT_TAIL@,
            );
        },
    }
}


// ------------------------------------------------------------
// Parameters
// ------------------------------------------------------------

/// Everything needed to build the SES structures.
#[derive(Debug)]
pub struct SesParams {
    pub algorithm: SealAlgorithm,
    /// Seal number (ESN).
    pub seal_esn: Vec<u8>,
    pub seal_name: String,
    /// Seal picture (PNG / JPEG / OFD).
    pub seal_image: Vec<u8>,
    /// "PNG", "JPEG" or "OFD".
    pub image_format: String,
    /// Signer certificate, DER.
    pub cert_der: Vec<u8>,
    /// Signing time (year, month, day, hour, minute, second).
    pub sign_time: (u32, u32, u32, u32, u32, u32),
    pub cert_valid_start: (u32, u32, u32, u32, u32, u32),
    pub cert_valid_end: (u32, u32, u32, u32, u32, u32),
    pub seal_valid_start: (u32, u32, u32, u32, u32, u32),
    pub seal_valid_end: (u32, u32, u32, u32, u32, u32),
}

/// What the SES parameters hold, as mathematical values.
pub struct SesParamsView {
    pub algorithm: SealAlgorithm,
    pub seal_esn: Seq<u8>,
    pub seal_name: Seq<char>,
    pub seal_image: Seq<u8>,
    pub image_format: Seq<char>,
    pub cert_der: Seq<u8>,
    pub sign_time: (u32, u32, u32, u32, u32, u32),
    pub cert_valid_start: (u32, u32, u32, u32, u32, u32),
    pub cert_valid_end: (u32, u32, u32, u32, u32, u32),
    pub seal_valid_start: (u32, u32, u32, u32, u32, u32),
    pub seal_valid_end: (u32, u32, u32, u32, u32, u32),
}

impl View for SesParams {
    type V = SesParamsView;

    open spec fn view(&self) -> SesParamsView {
        SesParamsView {
            algorithm: self.algorithm,
            seal_esn: self.seal_esn@,
            seal_name: self.seal_name@,
            seal_image: self.seal_image@,
            image_format: self.image_format@,
            cert_der: self.cert_der@,
            sign_time: self.sign_time,
            cert_valid_start: self.cert_valid_start,
            cert_valid_end: self.cert_valid_end,
            seal_valid_start: self.seal_valid_start,
            seal_valid_end: self.seal_valid_end,
        }
    }
}

impl Clone for SesParams {
    fn clone(&self) -> (r: Self)
        ensures
            r.algorithm == self.algorithm,
            r.seal_esn@ == self.seal_esn@,
            r.seal_name@ == self.seal_name@,
            r.seal_image@ == self.seal_image@,
            r.image_format@ == self.image_format@,
            r.cert_der@ == self.cert_der@,
            r.sign_time == self.sign_time,
            r.cert_valid_start == self.cert_valid_start,
            r.cert_valid_end == self.cert_valid_end,
            r.seal_valid_start == self.seal_valid_start,
            r.seal_valid_end == self.seal_valid_end,
    {
        SesParams {
            algorithm: self.algorithm,
            seal_esn: to_vec(self.seal_esn.as_slice()),
            seal_name: self.seal_name.clone(),
            seal_image: to_vec(self.seal_image.as_slice()),
            image_format: self.image_format.clone(),
            cert_der: to_vec(self.cert_der.as_slice()),
            sign_time: self.sign_time,
            cert_valid_start: self.cert_valid_start,
            cert_valid_end: self.cert_valid_end,
            seal_valid_start: self.seal_valid_start,
            seal_valid_end: self.seal_valid_end,
        }
    }
}

/// Copy of a byte slice as a vector.
fn to_vec(s: &[u8]) -> (r: Vec<u8>)
    ensures
        r@ == s@,
{
    let mut v: Vec<u8> = Vec::new();
    extend_bytes(&mut v, s);
    v
}

impl Default for SesParams {
    fn default() -> (r: Self)
        ensures
            r.algorithm == SealAlgorithm::Sm2,
            r.seal_esn@ == MOCK_SEAL_ESN.spec_bytes(),
            r.seal_name@ == "测试电子印章"@,
            r.seal_image@ == MOCK_SEAL_PNG@,
            r.image_format@ == "PNG"@,
            r.cert_der@ == mock_cert(SealAlgorithm::Sm2),
            r.sign_time == (2026u32, 7u32, 10u32, 16u32, 30u32, 0u32),
            r.cert_valid_start == (2025u32, 1u32, 1u32, 0u32, 0u32, 0u32),
            r.cert_valid_end == (2030u32, 12u32, 31u32, 23u32, 59u32, 59u32),
            r.seal_valid_start == (2025u32, 1u32, 1u32, 0u32, 0u32, 0u32),
            r.seal_valid_end == (2030u32, 12u32, 31u32, 23u32, 59u32, 59u32),
    {
        SesParams {
            algorithm: SealAlgorithm::Sm2,
            seal_esn: to_vec(MOCK_SEAL_ESN.as_bytes()),
            seal_name: string_of("测试电子印章"),
            seal_image: to_vec(MOCK_SEAL_PNG.as_slice()),
            image_format: string_of("PNG"),
            cert_der: SealAlgorithm::Sm2.cert_der(),
            sign_time: (2026, 7, 10, 16, 30, 0),
            cert_valid_start: (2025, 1, 1, 0, 0, 0),
            cert_valid_end: (2030, 12, 31, 23, 59, 59),
            seal_valid_start: (2025, 1, 1, 0, 0, 0),
            seal_valid_end: (2030, 12, 31, 23, 59, 59),
        }
    }
}

// ------------------------------------------------------------
// Specifications of the encodings
// ------------------------------------------------------------

/// UTCTime of a (year, month, day, hour, minute, second) tuple.
pub open spec fn utc_of(t: (u32, u32, u32, u32, u32, u32)) -> Seq<u8> {
    spec_utc_time(t.0, t.1, t.2, t.3, t.4, t.5)
}

/// UTF-8 bytes of a text.
pub open spec fn utf8(s: Seq<char>) -> Seq<u8> {
    encode_utf8(s)
}

/// SES_Header.
pub open spec fn spec_ses_header(version: int, es_id: Seq<char>, seal_type: Seq<char>) -> Seq<u8> {
    spec_tlv(0x30, spec_integer(version) + spec_tlv(0x13, utf8(es_id)) + spec_tlv(0x13, utf8(seal_type)))
}

/// SES_SealProperty.
pub open spec fn spec_ses_seal_property(
    seal_type: Seq<char>,
    name: Seq<char>,
    valid_start: (u32, u32, u32, u32, u32, u32),
    valid_end: (u32, u32, u32, u32, u32, u32),
) -> Seq<u8> {
    spec_tlv(
        0x30,
        spec_tlv(0x13, utf8(seal_type)) + spec_tlv(0x0C, utf8(name)) + utc_of(valid_start) + utc_of(
            valid_end,
        ),
    )
}

/// SES_SealPicture.
pub open spec fn spec_ses_seal_picture(format: Seq<char>, data: Seq<u8>) -> Seq<u8> {
    spec_tlv(0x30, spec_tlv(0x13, utf8(format)) + spec_bit_string(data, 0))
}

/// SES_SealInfo of the parameters: header (version 1, the mock issuer, type
/// "ES"), seal number, property ("official", the seal's name and validity),
/// picture and certificate.
pub open spec fn spec_ses_seal_info(p: SesParamsView) -> Seq<u8> {
    spec_tlv(
        0x30,
        spec_ses_header(1, MOCK_ES_ID@, "ES"@) + spec_tlv(0x04, p.seal_esn) + spec_ses_seal_property(
            "official"@,
            p.seal_name,
            p.seal_valid_start,
            p.seal_valid_end,
        ) + spec_ses_seal_picture(p.image_format, p.seal_image) + p.cert_der,
    )
}

/// SES_Seal: the seal information, the signature algorithm and a signature.
pub open spec fn spec_ses_seal(p: SesParamsView, signature: Seq<u8>) -> Seq<u8> {
    spec_tlv(
        0x30,
        spec_ses_seal_info(p) + spec_oid(signature_oid_text(p.algorithm)) + spec_bit_string(signature, 0),
    )
}

/// TBS_Sign: version 1, seal number, signature algorithm, signing time,
/// document digest and certificate.
pub open spec fn spec_tbs_sign(p: SesParamsView, doc_hash: Seq<u8>) -> Seq<u8> {
    spec_tlv(
        0x30,
        spec_integer(1) + spec_tlv(0x04, p.seal_esn) + spec_oid(signature_oid_text(p.algorithm)) + utc_of(
            p.sign_time,
        ) + spec_bit_string(doc_hash, 0) + p.cert_der,
    )
}

/// SES_Signature: the data to be signed, the signature algorithm and a signature.
pub open spec fn spec_ses_signature(p: SesParamsView, doc_hash: Seq<u8>, signature: Seq<u8>) -> Seq<u8> {
    spec_tlv(
        0x30,
        spec_tbs_sign(p, doc_hash) + spec_oid(signature_oid_text(p.algorithm)) + spec_bit_string(signature, 0),
    )
}

/// Whether `sig` is what the mock signer may produce over `data`: for RSA the
/// mock signature block; for SM2 any bytes (the signature is randomised, and an
/// error leaves it empty).
pub open spec fn mock_signature_of(alg: SealAlgorithm, data: Seq<u8>, sig: Seq<u8>) -> bool {
    alg == SealAlgorithm::Rsa ==> sig == mock_rsa_signature(data)
}

// ------------------------------------------------------------
// Encoders
// ------------------------------------------------------------

fn encode_ses_header(version: i64, es_id: &str, seal_type: &str) -> (r: Vec<u8>)
    ensures
        r@ == spec_ses_header(version as int, es_id@, seal_type@),
{
    let mut c = integer(version);
    let a = printable_string(es_id);
    extend_bytes(&mut c, a.as_slice());
    let b = printable_string(seal_type);
    extend_bytes(&mut c, b.as_slice());
    tlv(0x30, c.as_slice())
}

fn encode_ses_seal_property(
    seal_type: &str,
    name: &str,
    valid_start: (u32, u32, u32, u32, u32, u32),
    valid_end: (u32, u32, u32, u32, u32, u32),
) -> (r: Vec<u8>)
    ensures
        r@ == spec_ses_seal_property(seal_type@, name@, valid_start, valid_end),
{
    let mut c = printable_string(seal_type);
    let n = utf8_string(name);
    extend_bytes(&mut c, n.as_slice());
    let s = utc_time(valid_start.0, valid_start.1, valid_start.2, valid_start.3, valid_start.4, valid_start.5);
    extend_bytes(&mut c, s.as_slice());
    let e = utc_time(valid_end.0, valid_end.1, valid_end.2, valid_end.3, valid_end.4, valid_end.5);
    extend_bytes(&mut c, e.as_slice());
    tlv(0x30, c.as_slice())
}

fn encode_ses_seal_picture(format: &str, data: &[u8]) -> (r: Vec<u8>)
    ensures
        r@ == spec_ses_seal_picture(format@, data@),
{
    let mut c = printable_string(format);
    let d = bit_string(data, 0);
    extend_bytes(&mut c, d.as_slice());
    tlv(0x30, c.as_slice())
}

fn encode_ses_seal_info(params: &SesParams) -> (r: Vec<u8>)
    ensures
        r@ == spec_ses_seal_info(params@),
{
    let mut c = encode_ses_header(1, MOCK_ES_ID, "ES");
    let esn = octet_string(params.seal_esn.as_slice());
    extend_bytes(&mut c, esn.as_slice());
    let prop = encode_ses_seal_property(
        "official",
        params.seal_name.as_str(),
        params.seal_valid_start,
        params.seal_valid_end,
    );
    extend_bytes(&mut c, prop.as_slice());
    let pic = encode_ses_seal_picture(params.image_format.as_str(), params.seal_image.as_slice());
    extend_bytes(&mut c, pic.as_slice());
    extend_bytes(&mut c, params.cert_der.as_slice());
    tlv(0x30, c.as_slice())
}

/// SES_Seal over the parameters with the given signature of the seal information.
#[verifier::spinoff_prover]
#[verifier::rlimit(40)]
pub fn build_ses_seal(params: &SesParams, seal_signature: &[u8]) -> (r: Vec<u8>)
    ensures
        r@ == spec_ses_seal(params@, seal_signature@),
        seal_property_items(r@).len() == 4,
        seal_property_items(r@)[2] == (TAG_UTCTIME, utc_text_of(params@.seal_valid_start)),
        seal_property_items(r@)[3] == (TAG_UTCTIME, utc_text_of(params@.seal_valid_end)),
{
    let mut c = encode_ses_seal_info(params);
    let o = oid(params.algorithm.signature_oid());
    extend_bytes(&mut c, o.as_slice());
    let sig = bit_string(seal_signature, 0);
    extend_bytes(&mut c, sig.as_slice());
    let r = tlv(0x30, c.as_slice());
    let n: usize = r.len();
    proof {
        lemma_ses_seal_validity(params@, seal_signature@);
    }
    r
}

/// Mock signature of `data`: SM2 with the session key pair (empty on error),
/// or the mock RSA block.
pub(crate) fn mock_sign(store: &mut Sm2KeyStore, alg: SealAlgorithm, data: &[u8]) -> (r: Vec<u8>)
    ensures
        old(store).ensured(*final(store)) || (alg == SealAlgorithm::Rsa && *final(store) == *old(store)),
        mock_signature_of(alg, data@, r@),
{
    match alg {
        SealAlgorithm::Sm2 => match sm2_sign(store, data, alg.privkey_der()) {
            Ok(v) => v,
            Err(_) => Vec::new(),
        },
        SealAlgorithm::Rsa => match rsa_sign(data) {
            Ok(v) => v,
            Err(_) => Vec::new(),
        },
    }
}

/// SES_Seal whose signature over the seal information comes from the mock signer.
pub fn build_mock_ses_seal(params: &SesParams, store: &mut Sm2KeyStore) -> (r: Vec<u8>)
    ensures
        exists|sig: Seq<u8>|
            r@ == spec_ses_seal(params@, sig) && mock_signature_of(
                params.algorithm,
                spec_ses_seal_info(params@),
                sig,
            ),
        old(store).ensured(*final(store)) || (params.algorithm == SealAlgorithm::Rsa && *final(store)
            == *old(store)),
{
    let info = encode_ses_seal_info(params);
    let seal_sig = mock_sign(store, params.algorithm, info.as_slice());
    let mut c = info;
    let o = oid(params.algorithm.signature_oid());
    extend_bytes(&mut c, o.as_slice());
    let sig = bit_string(seal_sig.as_slice(), 0);
    extend_bytes(&mut c, sig.as_slice());
    let r = tlv(0x30, c.as_slice());
    assert(r@ == spec_ses_seal(params@, seal_sig@));
    r
}

/// TBS_Sign over the parameters and a document digest.
pub fn build_tbs_sign(params: &SesParams, doc_hash: &[u8]) -> (r: Vec<u8>)
    ensures
        r@ == spec_tbs_sign(params@, doc_hash@),
{
    let mut c = integer(1);
    let esn = octet_string(params.seal_esn.as_slice());
    extend_bytes(&mut c, esn.as_slice());
    let o = oid(params.algorithm.signature_oid());
    extend_bytes(&mut c, o.as_slice());
    let t = params.sign_time;
    let time = utc_time(t.0, t.1, t.2, t.3, t.4, t.5);
    extend_bytes(&mut c, time.as_slice());
    let h = bit_string(doc_hash, 0);
    extend_bytes(&mut c, h.as_slice());
    extend_bytes(&mut c, params.cert_der.as_slice());
    tlv(0x30, c.as_slice())
}

/// SES_Signature over the parameters, a document digest and the signature of
/// the TBS_Sign.
pub fn build_ses_signature(params: &SesParams, doc_hash: &[u8], signature: &[u8]) -> (r: Vec<u8>)
    ensures
        r@ == spec_ses_signature(params@, doc_hash@, signature@),
{
    let mut c = build_tbs_sign(params, doc_hash);
    let o = oid(params.algorithm.signature_oid());
    extend_bytes(&mut c, o.as_slice());
    let sig = bit_string(signature, 0);
    extend_bytes(&mut c, sig.as_slice());
    tlv(0x30, c.as_slice())
}

/// Digest of `data` with the algorithm's hash (SM3 or SHA-256).
pub fn digest(alg: SealAlgorithm, data: &[u8]) -> (r: Vec<u8>)
    ensures
        r@ == digest_of(alg, data@),
{
    match alg {
        SealAlgorithm::Sm2 => sm3_hash(data),
        SealAlgorithm::Rsa => sha256(data),
    }
}

/// SES_Signature of a document: its digest goes into the TBS_Sign, which the
/// mock signer signs.
pub fn build_mock_ses_signature(params: &SesParams, doc_data: &[u8], store: &mut Sm2KeyStore) -> (r: Vec<u8>)
    ensures
        exists|sig: Seq<u8>|
            r@ == spec_ses_signature(params@, digest_of(params.algorithm, doc_data@), sig)
                && mock_signature_of(
                params.algorithm,
                spec_tbs_sign(params@, digest_of(params.algorithm, doc_data@)),
                sig,
            ),
        old(store).ensured(*final(store)) || (params.algorithm == SealAlgorithm::Rsa && *final(store)
            == *old(store)),
{
    let doc_hash = digest(params.algorithm, doc_data);
    let tbs = build_tbs_sign(params, doc_hash.as_slice());
    let signature = mock_sign(store, params.algorithm, tbs.as_slice());
    let mut c = tbs;
    let o = oid(params.algorithm.signature_oid());
    extend_bytes(&mut c, o.as_slice());
    let sig = bit_string(signature.as_slice(), 0);
    extend_bytes(&mut c, sig.as_slice());
    let r = tlv(0x30, c.as_slice());
    assert(r@ == spec_ses_signature(params@, doc_hash@, signature@));
    r
}

// ------------------------------------------------------------
// Mock certificate details
// ------------------------------------------------------------

/// The mock certificate, base64.
pub fn get_mock_cert_base64(algorithm: SealAlgorithm) -> (r: String)
    ensures
        r@ == base64_text(mock_cert(algorithm)),
{
    let c = algorithm.cert_der();
    b64_encode(c.as_slice())
}

/// Serial number text of the mock certificate.
pub open spec fn mock_cert_sn_text(alg: SealAlgorithm) -> Seq<char> {
    match alg {
        SealAlgorithm::Sm2 => "MOCK-SM2-SN-2026"@,
        SealAlgorithm::Rsa => "MOCK-RSA-SN-2026"@,
    }
}

/// Subject DN of the mock certificate.
pub open spec fn mock_cert_subject_text(alg: SealAlgorithm) -> Seq<char> {
    match alg {
        SealAlgorithm::Sm2 => "CN=sm2-signer@dianju.com,OU=Mock SM2 Certificate,O=DianJu Test SM2 CA,C=CN"@,
        SealAlgorithm::Rsa => "CN=test-signer@dianju.com,OU=Mock Certificate,O=DianJu Test CA,C=CN"@,
    }
}

/// Serial number of the mock certificate, as text.
pub fn get_mock_cert_sn(algorithm: SealAlgorithm) -> (r: String)
    ensures
        r@ == mock_cert_sn_text(algorithm),
{
    match algorithm {
        SealAlgorithm::Sm2 => string_of("MOCK-SM2-SN-2026"),
        SealAlgorithm::Rsa => string_of("MOCK-RSA-SN-2026"),
    }
}

/// Subject of the mock certificate.
pub fn get_mock_cert_subject(algorithm: SealAlgorithm) -> (r: String)
    ensures
        r@ == mock_cert_subject_text(algorithm),
{
    match algorithm {
        SealAlgorithm::Sm2 => string_of(
            "CN=sm2-signer@dianju.com,OU=Mock SM2 Certificate,O=DianJu Test SM2 CA,C=CN",
        ),
        SealAlgorithm::Rsa => string_of(
            "CN=test-signer@dianju.com,OU=Mock Certificate,O=DianJu Test CA,C=CN",
        ),
    }
}

/// Issuer of the mock certificate: it is self-signed, so the issuer is the subject.
pub fn get_mock_cert_issuer(algorithm: SealAlgorithm) -> (r: String)
    ensures
        r@ == mock_cert_subject_text(algorithm),
{
    get_mock_cert_subject(algorithm)
}

/// Signing time used by the engine: there is no clock in the browser module,
/// so it is fixed.
pub fn current_time_tuple() -> (r: (u32, u32, u32, u32, u32, u32))
    ensures
        r == (2026u32, 7u32, 10u32, 16u32, 30u32, 0u32),
{
    (2026, 7, 10, 16, 30, 0)
}

/// Seal picture of a seal: its base64 picture when it has one that decodes,
/// else the mock picture.
pub open spec fn seal_picture_of(info: SealInfo) -> Seq<u8> {
    if info.seal_image@.len() > 0 && base64_bytes(info.seal_image@) is Some {
        base64_bytes(info.seal_image@)->0
    } else {
        MOCK_SEAL_PNG@
    }
}

/// Seal number of a seal: the UTF-8 of its certificate serial number when it
/// has a non-empty one, else the mock seal number.
pub open spec fn seal_esn_of(info: SealInfo) -> Seq<u8> {
    match info.sign_cert_sn {
        Some(sn) => if sn@.len() > 0 {
            utf8(sn@)
        } else {
            MOCK_SEAL_ESN.spec_bytes()
        },
        None => MOCK_SEAL_ESN.spec_bytes(),
    }
}

/// SES parameters of a seal (see `ses_params_from_seal_info`).
pub open spec fn params_from_seal(info: SealInfo, alg: SealAlgorithm) -> SesParamsView {
    SesParamsView {
        algorithm: alg,
        seal_esn: seal_esn_of(info),
        seal_name: info.seal_name@,
        seal_image: seal_picture_of(info),
        image_format: "PNG"@,
        cert_der: mock_cert(alg),
        sign_time: (2026u32, 7u32, 10u32, 16u32, 30u32, 0u32),
        cert_valid_start: (2025u32, 1u32, 1u32, 0u32, 0u32, 0u32),
        cert_valid_end: (2030u32, 12u32, 31u32, 23u32, 59u32, 59u32),
        seal_valid_start: (2025u32, 1u32, 1u32, 0u32, 0u32, 0u32),
        seal_valid_end: (2030u32, 12u32, 31u32, 23u32, 59u32, 59u32),
    }
}

/// SES parameters for a seal: its picture (PNG), number and name, the mock
/// certificate of the algorithm, the current time and the fixed validity
/// period 2025-01-01 00:00:00 to 2030-12-31 23:59:59.
pub fn ses_params_from_seal_info(seal_info: &SealInfo, algorithm: SealAlgorithm) -> (r: SesParams)
    ensures
        r@ == params_from_seal(*seal_info, algorithm),
{
    let seal_image = if !seal_info.seal_image.as_str().is_empty() {
        match b64_decode(seal_info.seal_image.as_str()) {
            Ok(v) => v,
            Err(_) => to_vec(MOCK_SEAL_PNG.as_slice()),
        }
    } else {
        to_vec(MOCK_SEAL_PNG.as_slice())
    };
    let seal_esn = match &seal_info.sign_cert_sn {
        Some(sn) => if !sn.as_str().is_empty() {
            to_vec(sn.as_str().as_bytes())
        } else {
            to_vec(MOCK_SEAL_ESN.as_bytes())
        },
        None => to_vec(MOCK_SEAL_ESN.as_bytes()),
    };
    let seal_name = seal_info.seal_name.clone();
    let now = current_time_tuple();
    SesParams {
        algorithm,
        seal_esn,
        seal_name,
        seal_image,
        image_format: string_of("PNG"),
        cert_der: algorithm.cert_der(),
        sign_time: now,
        cert_valid_start: (2025, 1, 1, 0, 0, 0),
        cert_valid_end: (2030, 12, 31, 23, 59, 59),
        seal_valid_start: (2025, 1, 1, 0, 0, 0),
        seal_valid_end: (2030, 12, 31, 23, 59, 59),
    }
}


// ------------------------------------------------------------
// Reading an SES_Seal back
// ------------------------------------------------------------

/// The TLVs laid one after another in `data`, each as (tag, value), read
/// until the end or the first that cannot be read.
pub open spec fn der_items(data: Seq<u8>) -> Seq<(u8, Seq<u8>)>
    decreases data.len(),
{
    if data.len() == 0 {
        Seq::empty()
    } else {
        match spec_decode_tlv(data) {
            Some((t, v)) => if 0 < t <= data.len() {
                seq![(data[0], v)] + der_items(data.skip(t as int))
            } else {
                Seq::empty()
            },
            None => Seq::empty(),
        }
    }
}

proof fn lemma_der_items_head(tag: u8, value: Seq<u8>, rest: Seq<u8>)
    requires
        value.len() <= usize::MAX,
    ensures
        der_items(spec_tlv(tag, value) + rest) == seq![(tag, value)] + der_items(rest),
{
    let d = spec_tlv(tag, value) + rest;
    lemma_decode_tlv_roundtrip(tag, value, rest);
    let t = spec_tlv(tag, value).len();
    assert(d.skip(t as int) =~= rest);
    assert(d[0] == tag);
}

/// The elements of the SES_SealProperty of a DER-encoded SES_Seal: read the
/// seal, take its first element (the seal information), and the third
/// element of that.
pub open spec fn seal_property_items(seal: Seq<u8>) -> Seq<(u8, Seq<u8>)> {
    match spec_decode_tlv(seal) {
        Some((_, body)) => der_items(der_items(der_items(body)[0].1)[2].1),
        None => Seq::empty(),
    }
}

proof fn lemma_der_items_third(ta: u8, a: Seq<u8>, tb: u8, b: Seq<u8>, tc: u8, c: Seq<u8>, rest: Seq<u8>)
    requires
        a.len() <= usize::MAX,
        b.len() <= usize::MAX,
        c.len() <= usize::MAX,
    ensures
        der_items(spec_tlv(ta, a) + spec_tlv(tb, b) + spec_tlv(tc, c) + rest).len() >= 3,
        der_items(spec_tlv(ta, a) + spec_tlv(tb, b) + spec_tlv(tc, c) + rest)[2] == (tc, c),
{
    let x = spec_tlv(ta, a);
    let y = spec_tlv(tb, b);
    let z = spec_tlv(tc, c);
    lemma_der_items_head(tc, c, rest);
    lemma_der_items_head(tb, b, z + rest);
    lemma_der_items_head(ta, a, y + (z + rest));
    assert(x + y + z + rest =~= x + (y + (z + rest)));
}

proof fn lemma_der_items_four(
    ta: u8,
    a: Seq<u8>,
    tb: u8,
    b: Seq<u8>,
    tc: u8,
    c: Seq<u8>,
    td: u8,
    d: Seq<u8>,
)
    requires
        a.len() <= usize::MAX,
        b.len() <= usize::MAX,
        c.len() <= usize::MAX,
        d.len() <= usize::MAX,
    ensures
        der_items(spec_tlv(ta, a) + spec_tlv(tb, b) + spec_tlv(tc, c) + spec_tlv(td, d)) == seq![
            (ta, a),
            (tb, b),
            (tc, c),
            (td, d),
        ],
{
    let w = spec_tlv(td, d);
    lemma_der_items_head(td, d, Seq::empty());
    assert(w + Seq::<u8>::empty() =~= w);
    assert(der_items(Seq::<u8>::empty()) =~= Seq::<(u8, Seq<u8>)>::empty());
    lemma_der_items_third(ta, a, tb, b, tc, c, w);
    let x = spec_tlv(ta, a);
    let y = spec_tlv(tb, b);
    let z = spec_tlv(tc, c);
    lemma_der_items_head(tc, c, w);
    lemma_der_items_head(tb, b, z + w);
    lemma_der_items_head(ta, a, y + (z + w));
    assert(x + y + z + w =~= x + (y + (z + w)));
    assert(der_items(x + y + z + w) =~= seq![(ta, a), (tb, b), (tc, c), (td, d)]);
}

#[verifier::spinoff_prover]
#[verifier::rlimit(50)]
proof fn lemma_seal_info_of(p: SesParamsView, signature: Seq<u8>)
    requires
        spec_ses_seal(p, signature).len() <= usize::MAX,
    ensures
        spec_decode_tlv(spec_ses_seal(p, signature)) matches Some((_, body)) && der_items(body).len() >= 1
            && spec_ses_seal_info(p) == spec_tlv(0x30, der_items(body)[0].1),
{
    let info = spec_ses_seal_info(p);
    let tail = spec_oid(signature_oid_text(p.algorithm)) + spec_bit_string(signature, 0);
    let body = info + tail;
    let ic = spec_ses_header(1, MOCK_ES_ID@, "ES"@) + spec_tlv(0x04, p.seal_esn) + spec_ses_seal_property(
        "official"@,
        p.seal_name,
        p.seal_valid_start,
        p.seal_valid_end,
    ) + spec_ses_seal_picture(p.image_format, p.seal_image) + p.cert_der;
    assert(info == spec_tlv(0x30, ic));
    assert(spec_ses_seal(p, signature) == spec_tlv(0x30, body));
    lemma_decode_tlv_roundtrip(0x30, body, Seq::empty());
    assert(spec_tlv(0x30, body) + Seq::<u8>::empty() =~= spec_tlv(0x30, body));
    assert(spec_decode_tlv(spec_ses_seal(p, signature)) == Some((spec_tlv(0x30, body).len(), body)));
    lemma_der_items_head(0x30, ic, tail);
    assert(body == spec_tlv(0x30, ic) + tail);
    assert(der_items(body)[0] == (0x30u8, ic));
}

#[verifier::spinoff_prover]
proof fn lemma_property_of(p: SesParamsView)
    requires
        spec_ses_seal_info(p).len() <= usize::MAX,
    ensures
        spec_decode_tlv(spec_ses_seal_info(p)) matches Some((_, ic)) && der_items(ic).len() >= 3
            && der_items(ic)[2] == (0x30u8, spec_property_content(p)),
{
    let hv = spec_integer(1) + spec_tlv(0x13, utf8(MOCK_ES_ID@)) + spec_tlv(0x13, utf8("ES"@));
    let after = spec_ses_seal_picture(p.image_format, p.seal_image) + p.cert_der;
    let ic = spec_tlv(0x30, hv) + spec_tlv(0x04, p.seal_esn) + spec_tlv(0x30, spec_property_content(p)) + after;
    assert(spec_ses_seal_info(p) == spec_tlv(0x30, ic));
    lemma_decode_tlv_roundtrip(0x30, ic, Seq::empty());
    assert(spec_tlv(0x30, ic) + Seq::<u8>::empty() =~= spec_tlv(0x30, ic));
    lemma_der_items_third(0x30, hv, 0x04, p.seal_esn, 0x30, spec_property_content(p), after);
}

/// Text of the UTCTime of a (year, month, day, hour, minute, second) tuple.
pub open spec fn utc_text_of(t: (u32, u32, u32, u32, u32, u32)) -> Seq<u8> {
    spec_utc_time_text(t.0, t.1, t.2, t.3, t.4, t.5)
}

/// Content of the SES_SealProperty of the parameters.
spec fn spec_property_content(p: SesParamsView) -> Seq<u8> {
    spec_tlv(0x13, utf8("official"@)) + spec_tlv(0x0C, utf8(p.seal_name)) + utc_of(p.seal_valid_start) + utc_of(
        p.seal_valid_end,
    )
}

/// Validity of a seal: reading an SES_Seal back from its DER, its
/// SES_SealProperty has four elements, the third the UTCTime of the
/// parameters' `seal_valid_start` and the fourth the UTCTime of their
/// `seal_valid_end`; so the seal is valid from the start given to the end
/// given.
#[verifier::spinoff_prover]
pub proof fn lemma_ses_seal_validity(p: SesParamsView, signature: Seq<u8>)
    requires
        spec_ses_seal(p, signature).len() <= usize::MAX,
    ensures
        seal_property_items(spec_ses_seal(p, signature)).len() == 4,
        seal_property_items(spec_ses_seal(p, signature))[2] == (
            TAG_UTCTIME,
            spec_utc_time_text(
                p.seal_valid_start.0,
                p.seal_valid_start.1,
                p.seal_valid_start.2,
                p.seal_valid_start.3,
                p.seal_valid_start.4,
                p.seal_valid_start.5,
            ),
        ),
        seal_property_items(spec_ses_seal(p, signature))[3] == (
            TAG_UTCTIME,
            spec_utc_time_text(
                p.seal_valid_end.0,
                p.seal_valid_end.1,
                p.seal_valid_end.2,
                p.seal_valid_end.3,
                p.seal_valid_end.4,
                p.seal_valid_end.5,
            ),
        ),
{
    lemma_seal_info_of(p, signature);
    let body = spec_decode_tlv(spec_ses_seal(p, signature))->Some_0.1;
    let ic = der_items(body)[0].1;
    let info = spec_ses_seal_info(p);
    assert(info == spec_tlv(0x30, ic));
    lemma_property_of(p);
    lemma_decode_tlv_roundtrip(0x30, ic, Seq::empty());
    assert(spec_tlv(0x30, ic) + Seq::<u8>::empty() =~= spec_tlv(0x30, ic));
    let s = p.seal_valid_start;
    let e = p.seal_valid_end;
    let ts = spec_utc_time_text(s.0, s.1, s.2, s.3, s.4, s.5);
    let te = spec_utc_time_text(e.0, e.1, e.2, e.3, e.4, e.5);
    assert(spec_property_content(p) == spec_tlv(0x13, utf8("official"@)) + spec_tlv(0x0C, utf8(p.seal_name))
        + spec_tlv(TAG_UTCTIME, ts) + spec_tlv(TAG_UTCTIME, te));
    lemma_der_items_four(0x13, utf8("official"@), 0x0C, utf8(p.seal_name), TAG_UTCTIME, ts, TAG_UTCTIME, te);
}

} // verus!
