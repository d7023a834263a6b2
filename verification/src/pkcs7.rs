//! PKCS#7 / CMS SignedData (RFC 2315 / RFC 5652) wrapping an SES signature.
//!
//! ```text
//! ContentInfo ::= SEQUENCE { contentType OID, content [0] EXPLICIT SignedData }
//! SignedData ::= SEQUENCE { version, digestAlgorithms SET, encapContentInfo,
//!                           certificates [0] IMPLICIT, signerInfos SET }
//! SignerInfo ::= SEQUENCE { version, IssuerAndSerialNumber, digestAlgorithm,
//!                           authenticatedAttributes [0] IMPLICIT,
//!                           digestEncryptionAlgorithm, encryptedDigest }
//! ```

use vstd::prelude::*;
use vstd::arithmetic::div_mod::*;
use crate::der::{
    algorithm_identifier, be_bytes, byte_len, context_explicit, explicit_tag, extend_bytes, integer,
    lemma_byte_len_bound, lemma_byte_len_fits, lemma_pow256_eight, lemma_pow256_positive, octet_string,
    oid, pow256, spec_algorithm_identifier, spec_integer, spec_oid, spec_tlv, tlv, utc_time,
};
use crate::der::oids;
use crate::crypto::Sm2KeyStore;
use crate::ses::{
    digest, digest_of, digest_oid_text, lemma_mock_cert_identifiable, mock_cert, mock_sign,
    mock_signature_of, signature_oid_text, utc_of, SealAlgorithm,
};

verus! {

/// Big-endian value of a byte string.
pub open spec fn be_value(s: Seq<u8>) -> nat
    decreases s.len(),
{
    if s.len() == 0 {
        0
    } else {
        be_value(s.drop_last()) * 256 + s.last() as nat
    }
}

/// Header length and content length announced at the start of `data`, if the
/// header is complete.
pub open spec fn spec_tlv_header(data: Seq<u8>) -> Option<(nat, nat)> {
    if data.len() < 2 {
        None
    } else if data[1] < 0x80 {
        Some((2, data[1] as nat))
    } else {
        let num_bytes = (data[1] % 128) as nat;
        if data.len() < 2 + num_bytes {
            None
        } else {
            Some((2 + num_bytes, be_value(data.subrange(2, 2 + num_bytes as int))))
        }
    }
}

/// Decode one TLV at the start of `data`: its total length and its value.
pub open spec fn spec_decode_tlv(data: Seq<u8>) -> Option<(nat, Seq<u8>)> {
    match spec_tlv_header(data) {
        None => None,
        Some((header_len, content_len)) => {
            if data.len() < header_len + content_len {
                None
            } else {
                Some(((header_len + content_len) as nat, data.subrange(header_len as int, (header_len + content_len) as int)))
            }
        },
    }
}

proof fn lemma_be_value_prefix(s: Seq<u8>, k: int)
    requires
        0 <= k <= s.len(),
    ensures
        be_value(s.take(k)) <= be_value(s),
    decreases s.len() - k,
{
    if k < s.len() {
        lemma_be_value_prefix(s, k + 1);
        assert(s.take(k + 1).drop_last() =~= s.take(k));
    } else {
        assert(s.take(k) =~= s);
    }
}

/// Decode one TLV at the start of `data`: `(total length, value)`.
pub fn der_decode_tlv(data: &[u8]) -> (r: Option<(usize, Vec<u8>)>)
    ensures
        match r {
            None => spec_decode_tlv(data@) is None,
            Some((total, value)) => spec_decode_tlv(data@) == Some((total as nat, value@)),
        },
{
    if data.len() < 2 {
        return None;
    }
    let len_byte: u8 = data[1];
    let header_len: usize;
    let content_len: usize;
    if len_byte < 0x80 {
        header_len = 2;
        content_len = len_byte as usize;
    } else {
        let num_bytes: usize = (len_byte % 128) as usize;
        if data.len() < 2 + num_bytes {
            return None;
        }
        let ghost digits = data@.subrange(2, 2 + num_bytes);
        let mut len: usize = 0;
        let mut i: usize = 0;
        while i < num_bytes
            invariant
                i <= num_bytes,
                2 + num_bytes <= data.len(),
                data.len() == data@.len(),
                data@[1] >= 0x80,
                num_bytes == data@[1] % 128,
                digits == data@.subrange(2, 2 + num_bytes),
                len as nat == be_value(digits.take(i as int)),
            decreases num_bytes - i,
        {
            assert(digits.take(i + 1).drop_last() =~= digits.take(i as int));
            let b: u8 = data[2 + i];
            assert(be_value(digits.take(i + 1)) == be_value(digits.take(i as int)) * 256 + b);
            match len.checked_mul(256) {
                Some(m) => match m.checked_add(b as usize) {
                    Some(v) => {
                        len = v;
                    },
                    None => {
                        proof {
                            lemma_be_value_prefix(digits, i + 1);
                            assert(spec_tlv_header(data@) == Some(((2 + num_bytes) as nat, be_value(digits))));
                        }
                        return None;
                    },
                },
                None => {
                    proof {
                        lemma_be_value_prefix(digits, i + 1);
                        assert(len * 256 > usize::MAX);
                        assert(be_value(digits) > data@.len());
                        assert(spec_tlv_header(data@) == Some(((2 + num_bytes) as nat, be_value(digits))));
                    }
                    return None;
                },
            }
            i = i + 1;
        }
        assert(digits.take(num_bytes as int) =~= digits);
        header_len = 2 + num_bytes;
        content_len = len;
    }
    let total = match header_len.checked_add(content_len) {
        Some(t) => t,
        None => {
            return None;
        },
    };
    if data.len() < total {
        return None;
    }
    let mut value: Vec<u8> = Vec::new();
    extend_bytes(&mut value, &data[header_len..total]);
    assert(value@ =~= data@.subrange(header_len as int, total as int));
    Some((total, value))
}

/// Length of the TLV that `der::tlv` would build around `value`.
pub fn tlv_len(_tag: u8, value: &[u8]) -> (r: usize)
    requires
        spec_tlv(_tag, value@).len() <= usize::MAX,
    ensures
        r as nat == spec_tlv(_tag, value@).len(),
{
    let header: usize = if value.len() < 0x80 {
        2
    } else {
        let mut n: usize = value.len();
        let mut count: usize = 0;
        proof {
            lemma_pow256_eight();
            lemma_byte_len_bound(value@.len(), 8);
        }
        while n > 0
            invariant
                byte_len(value@.len()) == count + byte_len(n as nat),
                byte_len(value@.len()) <= 8,
            decreases n,
        {
            count = count + 1;
            n = n / 256;
        }
        assert(byte_len(0) == 0);
        2 + count
    };
    header + value.len()
}


/// Reading back the big-endian digits gives the number modulo `256^n`.
pub proof fn lemma_be_value_be_bytes(x: nat, n: nat)
    ensures
        be_value(be_bytes(x, n)) == x % pow256(n),
    decreases n,
{
    if n == 0 {
        assert(be_bytes(x, 0) =~= Seq::<u8>::empty());
    } else {
        let m = (n - 1) as nat;
        lemma_be_value_be_bytes(x / 256, m);
        lemma_pow256_positive(m);
        assert forall|i: int| 0 <= i < m implies #[trigger] be_bytes(x, n).drop_last()[i] == be_bytes(x / 256, m)[i] by {
            let k = (m - 1 - i) as nat;
            lemma_pow256_positive(k);
            lemma_div_denominator(x as int, 256, pow256(k) as int);
            assert(pow256((n - 1 - i) as nat) == 256 * pow256(k));
        }
        assert(be_bytes(x, n).drop_last() =~= be_bytes(x / 256, m));
        assert(pow256(0) == 1);
        lemma_div_basics(x as int);
        assert(be_bytes(x, n).last() == (x % 256) as u8);
        lemma_breakdown(x as int, 256, pow256(m) as int);
        lemma_mod_bound(x as int, 256);
    }
}

/// A big-endian string of `n` bytes reads as a number below `256^n`.
pub proof fn lemma_be_value_bound(s: Seq<u8>)
    ensures
        be_value(s) < pow256(s.len()),
    decreases s.len(),
{
    if s.len() > 0 {
        lemma_be_value_bound(s.drop_last());
        assert(pow256(s.len()) == 256 * pow256(s.drop_last().len()));
    }
}

/// Re-encoding a decoded value in minimal form takes no more room than the
/// encoding it was read from.
pub proof fn lemma_decoded_total_bound(data: Seq<u8>)
    ensures
        spec_decode_tlv(data) matches Some((t, v)) ==> spec_tlv_total(v) <= t,
{
    if let Some((t, v)) = spec_decode_tlv(data) {
        if data[1] >= 0x80 {
            let n = (data[1] % 128) as nat;
            let digits = data.subrange(2, 2 + n as int);
            lemma_be_value_bound(digits);
            if v.len() >= 128 {
                lemma_byte_len_bound(v.len(), n);
            }
        }
    }
}

/// Decoding what `der::tlv` wrote gives back the value and the full length,
/// whatever follows it.
pub proof fn lemma_decode_tlv_roundtrip(tag: u8, value: Seq<u8>, rest: Seq<u8>)
    requires
        value.len() <= usize::MAX,
    ensures
        spec_decode_tlv(spec_tlv(tag, value) + rest) == Some((spec_tlv(tag, value).len(), value)),
{
    let len = value.len();
    let data = spec_tlv(tag, value) + rest;
    if len < 128 {
        assert(data[1] == len as u8);
        assert(data.subrange(2, 2 + len as int) =~= value);
    } else {
        let k = byte_len(len);
        lemma_pow256_eight();
        lemma_byte_len_bound(len, 8);
        lemma_byte_len_fits(len);
        assert(data[1] == (0x80 + k) as u8);
        assert(data.subrange(2, 2 + k as int) =~= be_bytes(len, k));
        lemma_be_value_be_bytes(len, k);
        lemma_small_mod(len, pow256(k));
        assert(data.subrange(2 + k as int, 2 + k + len as int) =~= value);
    }
}

/// Total length that `tlv_len` computes for a value (any tag).
pub open spec fn spec_tlv_total(value: Seq<u8>) -> nat {
    spec_tlv(0, value).len()
}

/// Offset just past the optional `[0]` version field of a TBSCertificate.
pub open spec fn version_end(tbs: Seq<u8>) -> nat {
    if tbs.len() > 0 && tbs[0] == 0xA0 {
        match spec_decode_tlv(tbs) {
            Some((_, v)) => spec_tlv_total(v),
            None => 0,
        }
    } else {
        0
    }
}

/// Total length of the TLV starting at `pos`, or 0 when none can be read there.
pub open spec fn tlv_total_at(tbs: Seq<u8>, pos: nat) -> nat {
    match spec_decode_tlv(tbs.subrange(pos as int, tbs.len() as int)) {
        Some((t, _)) => t,
        None => 0,
    }
}

/// Whether the field at `pos` has the given tag.
pub open spec fn tag_at(tbs: Seq<u8>, pos: nat, tag: u8) -> bool {
    pos < tbs.len() && tbs[pos as int] == tag
}

/// Offsets in a TBSCertificate: after the version, after the serial number,
/// after the signature algorithm.
pub open spec fn serial_start(tbs: Seq<u8>) -> nat {
    version_end(tbs)
}

pub open spec fn serial_end(tbs: Seq<u8>) -> nat {
    serial_start(tbs) + tlv_total_at(tbs, serial_start(tbs))
}

pub open spec fn issuer_start(tbs: Seq<u8>) -> nat {
    if tag_at(tbs, serial_end(tbs), 0x30) {
        serial_end(tbs) + tlv_total_at(tbs, serial_end(tbs))
    } else {
        serial_end(tbs)
    }
}

/// (issuer, serialNumber) as encoded in a TBSCertificate; both empty when the
/// serial number or the issuer is not where it is expected.
pub open spec fn scan_tbs(tbs: Seq<u8>) -> (Seq<u8>, Seq<u8>) {
    let p = serial_start(tbs);
    if tag_at(tbs, p, 0x02) {
        let q = issuer_start(tbs);
        if tag_at(tbs, q, 0x30) {
            (
                tbs.subrange(q as int, (q + tlv_total_at(tbs, q)) as int),
                tbs.subrange(p as int, serial_end(tbs) as int),
            )
        } else {
            (Seq::<u8>::empty(), Seq::<u8>::empty())
        }
    } else {
        (Seq::<u8>::empty(), Seq::<u8>::empty())
    }
}

/// The TBSCertificate inside a certificate, if both outer layers decode.
pub open spec fn spec_tbs_of(cert: Seq<u8>) -> Option<Seq<u8>> {
    match spec_decode_tlv(cert) {
        None => None,
        Some((_, inner)) => match spec_decode_tlv(inner) {
            None => None,
            Some((_, tbs)) => Some(tbs),
        },
    }
}

/// (issuer, serialNumber) of a certificate, or two empty strings.
pub open spec fn spec_issuer_and_serial(cert: Seq<u8>) -> (Seq<u8>, Seq<u8>) {
    match spec_tbs_of(cert) {
        None => (Seq::<u8>::empty(), Seq::<u8>::empty()),
        Some(tbs) => scan_tbs(tbs),
    }
}

/// Every field that the scan looks at by its tag can be decoded.
pub open spec fn tbs_fields_decode(tbs: Seq<u8>) -> bool {
    &&& (tag_at(tbs, 0, 0xA0) ==> spec_decode_tlv(tbs) is Some)
    &&& (tag_at(tbs, serial_start(tbs), 0x02) ==> {
        &&& spec_decode_tlv(tbs.subrange(serial_start(tbs) as int, tbs.len() as int)) is Some
        &&& (tag_at(tbs, serial_end(tbs), 0x30) ==> spec_decode_tlv(
            tbs.subrange(serial_end(tbs) as int, tbs.len() as int),
        ) is Some)
        &&& (tag_at(tbs, issuer_start(tbs), 0x30) ==> spec_decode_tlv(
            tbs.subrange(issuer_start(tbs) as int, tbs.len() as int),
        ) is Some)
    })
}

/// The certificate can be scanned for its issuer and serial number: where a
/// field is recognised by its tag, it decodes.
pub open spec fn issuer_and_serial_defined(cert: Seq<u8>) -> bool {
    match spec_tbs_of(cert) {
        None => true,
        Some(tbs) => tbs_fields_decode(tbs),
    }
}

/// The DER of a certificate laid out as SEQUENCE { SEQUENCE { [0] { version },
/// serialNumber, signature, issuer, `tbs_rest` }, `tail` }, where the version
/// field holds `version` and the three named fields hold the given contents.
pub open spec fn cert_layout(
    version: Seq<u8>,
    serial: Seq<u8>,
    sigalg: Seq<u8>,
    issuer: Seq<u8>,
    tbs_rest: Seq<u8>,
    tail: Seq<u8>,
) -> Seq<u8> {
    spec_tlv(0x30, spec_tlv(0x30, tbs_layout(version, serial, sigalg, issuer, tbs_rest)) + tail)
}

/// The content of the TBSCertificate in `cert_layout`.
pub open spec fn tbs_layout(
    version: Seq<u8>,
    serial: Seq<u8>,
    sigalg: Seq<u8>,
    issuer: Seq<u8>,
    tbs_rest: Seq<u8>,
) -> Seq<u8> {
    spec_tlv(0xA0, version) + spec_tlv(0x02, serial) + spec_tlv(0x30, sigalg) + spec_tlv(0x30, issuer)
        + tbs_rest
}

/// A TLV found after `pre` decodes to its value, and starts with its tag.
proof fn lemma_decode_inside(t: Seq<u8>, pre: Seq<u8>, tag: u8, v: Seq<u8>, post: Seq<u8>)
    requires
        t == pre + spec_tlv(tag, v) + post,
        v.len() <= usize::MAX,
    ensures
        spec_decode_tlv(t.subrange(pre.len() as int, t.len() as int)) == Some((spec_tlv(tag, v).len(), v)),
        t[pre.len() as int] == tag,
        t.subrange(pre.len() as int, (pre.len() + spec_tlv(tag, v).len()) as int) == spec_tlv(tag, v),
{
    assert(t.subrange(pre.len() as int, t.len() as int) =~= spec_tlv(tag, v) + post);
    lemma_decode_tlv_roundtrip(tag, v, post);
    assert(t.subrange(pre.len() as int, (pre.len() + spec_tlv(tag, v).len()) as int) =~= spec_tlv(tag, v));
}

/// Every length of a TLV value is written in full: the total is one tag byte,
/// the length field and the value.
proof fn lemma_tlv_total(tag: u8, v: Seq<u8>)
    ensures
        spec_tlv_total(v) == spec_tlv(tag, v).len(),
{
}

/// The TBSCertificate found inside a certificate laid out as in `cert_layout`.
proof fn lemma_tbs_of_layout(
    version: Seq<u8>,
    serial: Seq<u8>,
    sigalg: Seq<u8>,
    issuer: Seq<u8>,
    tbs_rest: Seq<u8>,
    tail: Seq<u8>,
)
    requires
        cert_layout(version, serial, sigalg, issuer, tbs_rest, tail).len() <= usize::MAX,
    ensures
        spec_tbs_of(cert_layout(version, serial, sigalg, issuer, tbs_rest, tail)) == Some(
            tbs_layout(version, serial, sigalg, issuer, tbs_rest),
        ),
        tbs_layout(version, serial, sigalg, issuer, tbs_rest).len() <= usize::MAX,
{
    let t = tbs_layout(version, serial, sigalg, issuer, tbs_rest);
    let inner = spec_tlv(0x30, t) + tail;
    let cert = cert_layout(version, serial, sigalg, issuer, tbs_rest, tail);
    lemma_decode_tlv_roundtrip(0x30, inner, Seq::<u8>::empty());
    assert(cert + Seq::<u8>::empty() =~= cert);
    lemma_decode_tlv_roundtrip(0x30, t, tail);
}

/// The version field of a TBSCertificate laid out as in `tbs_layout` is skipped
/// exactly.
proof fn lemma_version_end_of_layout(
    version: Seq<u8>,
    serial: Seq<u8>,
    sigalg: Seq<u8>,
    issuer: Seq<u8>,
    tbs_rest: Seq<u8>,
)
    requires
        tbs_layout(version, serial, sigalg, issuer, tbs_rest).len() <= usize::MAX,
    ensures
        version_end(tbs_layout(version, serial, sigalg, issuer, tbs_rest)) == spec_tlv(0xA0, version).len(),
        spec_decode_tlv(tbs_layout(version, serial, sigalg, issuer, tbs_rest)) is Some,
{
    let t = tbs_layout(version, serial, sigalg, issuer, tbs_rest);
    let post = spec_tlv(0x02, serial) + spec_tlv(0x30, sigalg) + spec_tlv(0x30, issuer) + tbs_rest;
    assert(t =~= Seq::<u8>::empty() + spec_tlv(0xA0, version) + post);
    lemma_decode_inside(t, Seq::<u8>::empty(), 0xA0, version, post);
    assert(t.subrange(0, t.len() as int) =~= t);
    lemma_tlv_total(0xA0, version);
}

/// The scan of a TBSCertificate laid out as in `tbs_layout` finds every field
/// it looks for, and returns the issuer and serial number TLVs.
proof fn lemma_scan_of_layout(
    version: Seq<u8>,
    serial: Seq<u8>,
    sigalg: Seq<u8>,
    issuer: Seq<u8>,
    tbs_rest: Seq<u8>,
)
    requires
        tbs_layout(version, serial, sigalg, issuer, tbs_rest).len() <= usize::MAX,
    ensures
        tbs_fields_decode(tbs_layout(version, serial, sigalg, issuer, tbs_rest)),
        scan_tbs(tbs_layout(version, serial, sigalg, issuer, tbs_rest)) == (
            spec_tlv(0x30, issuer),
            spec_tlv(0x02, serial),
        ),
{
    let a = spec_tlv(0xA0, version);
    let b = spec_tlv(0x02, serial);
    let c = spec_tlv(0x30, sigalg);
    let d = spec_tlv(0x30, issuer);
    let t = tbs_layout(version, serial, sigalg, issuer, tbs_rest);
    lemma_version_end_of_layout(version, serial, sigalg, issuer, tbs_rest);
    assert(t =~= a + b + (c + d + tbs_rest));
    lemma_decode_inside(t, a, 0x02, serial, c + d + tbs_rest);
    assert(t =~= (a + b) + c + (d + tbs_rest));
    lemma_decode_inside(t, a + b, 0x30, sigalg, d + tbs_rest);
    assert(t =~= (a + b + c) + d + tbs_rest);
    lemma_decode_inside(t, a + b + c, 0x30, issuer, tbs_rest);
}

/// The issuer and serial number of a certificate laid out as in `cert_layout`
/// are read back exactly: the issuer Name and the serialNumber INTEGER, each
/// with its tag and length.
pub proof fn lemma_issuer_and_serial_of_layout(
    version: Seq<u8>,
    serial: Seq<u8>,
    sigalg: Seq<u8>,
    issuer: Seq<u8>,
    tbs_rest: Seq<u8>,
    tail: Seq<u8>,
)
    requires
        cert_layout(version, serial, sigalg, issuer, tbs_rest, tail).len() <= usize::MAX,
    ensures
        issuer_and_serial_defined(cert_layout(version, serial, sigalg, issuer, tbs_rest, tail)),
        spec_issuer_and_serial(cert_layout(version, serial, sigalg, issuer, tbs_rest, tail)) == (
            spec_tlv(0x30, issuer),
            spec_tlv(0x02, serial),
        ),
{
    lemma_tbs_of_layout(version, serial, sigalg, issuer, tbs_rest, tail);
    lemma_scan_of_layout(version, serial, sigalg, issuer, tbs_rest);
}

/// Offset of the serial number: past the `[0]` version field when there is one.
fn skip_version(tbs: &[u8]) -> (pos: usize)
    requires
        tag_at(tbs@, 0, 0xA0) ==> spec_decode_tlv(tbs@) is Some,
    ensures
        pos as nat == serial_start(tbs@),
        pos <= tbs@.len(),
{
    if 0 < tbs.len() && tbs[0] == 0xA0 {
        assert(tbs@.subrange(0, tbs@.len() as int) =~= tbs@);
        let version_val = match der_decode_tlv(&tbs[0..tbs.len()]) {
            Some((_, v)) => v,
            None => {
                return 0;
            },
        };
        proof {
            lemma_decoded_total_bound(tbs@);
        }
        tlv_len(0xA0, version_val.as_slice())
    } else {
        0
    }
}

/// Total length of the TLV at `pos`, which decodes.
fn tlv_total_at_exec(tbs: &[u8], pos: usize) -> (t: usize)
    requires
        pos <= tbs@.len(),
        spec_decode_tlv(tbs@.subrange(pos as int, tbs@.len() as int)) is Some,
    ensures
        t as nat == tlv_total_at(tbs@, pos as nat),
        pos + t <= tbs@.len(),
{
    match der_decode_tlv(&tbs[pos..tbs.len()]) {
        Some((l, _)) => l,
        None => 0,
    }
}

/// (issuer, serialNumber) of a TBSCertificate, as `scan_tbs` describes them.
fn scan_tbs_exec(tbs: &[u8]) -> (r: (Vec<u8>, Vec<u8>))
    requires
        tbs_fields_decode(tbs@),
    ensures
        (r.0@, r.1@) == scan_tbs(tbs@),
{
    let ghost t = tbs@;
    let mut pos: usize = skip_version(tbs);
    if pos < tbs.len() && tbs[pos] == 0x02 {
        let sn_len = tlv_total_at_exec(tbs, pos);
        let mut serial_der: Vec<u8> = Vec::new();
        extend_bytes(&mut serial_der, &tbs[pos..pos + sn_len]);
        pos = pos + sn_len;
        assert(pos as nat == serial_end(t));
        if pos < tbs.len() && tbs[pos] == 0x30 {
            let sig_len = tlv_total_at_exec(tbs, pos);
            pos = pos + sig_len;
        }
        assert(pos as nat == issuer_start(t));
        if pos < tbs.len() && tbs[pos] == 0x30 {
            let issuer_len = tlv_total_at_exec(tbs, pos);
            let mut issuer_der: Vec<u8> = Vec::new();
            extend_bytes(&mut issuer_der, &tbs[pos..pos + issuer_len]);
            return (issuer_der, serial_der);
        }
    }
    (Vec::new(), Vec::new())
}

/// Extract the DER of the issuer Name and of the serial number INTEGER from an
/// X.509 certificate, by walking the first fields of its TBSCertificate.
pub fn extract_issuer_and_serial(cert_der: &[u8]) -> (r: (Vec<u8>, Vec<u8>))
    requires
        issuer_and_serial_defined(cert_der@),
    ensures
        (r.0@, r.1@) == spec_issuer_and_serial(cert_der@),
{
    let inner = match der_decode_tlv(cert_der) {
        Some((_, v)) => v,
        None => {
            return (Vec::new(), Vec::new());
        },
    };
    let tbs = match der_decode_tlv(inner.as_slice()) {
        Some((_, v)) => v,
        None => {
            return (Vec::new(), Vec::new());
        },
    };
    assert(spec_tbs_of(cert_der@) == Some(tbs@));
    scan_tbs_exec(tbs.as_slice())
}


// ------------------------------------------------------------
// SignerInfo and SignedData
// ------------------------------------------------------------

/// Authenticated attribute contentType = SES data.
pub open spec fn spec_content_type_attr() -> Seq<u8> {
    spec_tlv(0x30, spec_oid(oids::CONTENT_TYPE@) + spec_tlv(0x31, spec_oid(oids::SES_DATA_TYPE@)))
}

/// Authenticated attribute messageDigest.
pub open spec fn spec_message_digest_attr(doc_hash: Seq<u8>) -> Seq<u8> {
    spec_tlv(0x30, spec_oid(oids::MESSAGE_DIGEST@) + spec_tlv(0x31, spec_tlv(0x04, doc_hash)))
}

/// Authenticated attribute signingTime.
pub open spec fn spec_signing_time_attr(t: (u32, u32, u32, u32, u32, u32)) -> Seq<u8> {
    spec_tlv(0x30, spec_oid(oids::SIGNING_TIME@) + spec_tlv(0x31, utc_of(t)))
}

/// The three authenticated attributes, one after the other.
pub open spec fn spec_auth_attr_list(doc_hash: Seq<u8>, t: (u32, u32, u32, u32, u32, u32)) -> Seq<u8> {
    spec_content_type_attr() + spec_message_digest_attr(doc_hash) + spec_signing_time_attr(t)
}

/// SignerInfo: version 1, IssuerAndSerialNumber of the certificate, digest
/// algorithm, authenticated attributes as `[0] IMPLICIT`, signature algorithm
/// and the encrypted digest.
pub open spec fn spec_signer_info(
    alg: SealAlgorithm,
    cert: Seq<u8>,
    doc_hash: Seq<u8>,
    t: (u32, u32, u32, u32, u32, u32),
    encrypted_digest: Seq<u8>,
) -> Seq<u8> {
    let (issuer, serial) = spec_issuer_and_serial(cert);
    spec_tlv(
        0x30,
        spec_integer(1) + spec_tlv(0x30, issuer + serial) + spec_algorithm_identifier(digest_oid_text(alg))
            + spec_tlv(0xA0, spec_auth_attr_list(doc_hash, t)) + spec_algorithm_identifier(
            signature_oid_text(alg),
        ) + spec_tlv(0x04, encrypted_digest),
    )
}

/// ContentInfo { signedData, [0] SignedData { version 1, digestAlgorithms,
/// encapContentInfo (SES data, the SES_Signature as OCTET STRING),
/// certificates [0] { cert }, signerInfos { SignerInfo } } }.
pub open spec fn spec_pkcs7_signed_data(
    alg: SealAlgorithm,
    cert: Seq<u8>,
    ses_signature: Seq<u8>,
    doc_hash: Seq<u8>,
    t: (u32, u32, u32, u32, u32, u32),
    encrypted_digest: Seq<u8>,
) -> Seq<u8> {
    let digest_algos = spec_tlv(0x31, spec_algorithm_identifier(digest_oid_text(alg)));
    let encap = spec_tlv(
        0x30,
        spec_oid(oids::SES_DATA_TYPE@) + spec_tlv(0xA0, spec_tlv(0x04, ses_signature)),
    );
    let certs = spec_tlv(0xA0, cert);
    let signer_infos = spec_tlv(0x31, spec_signer_info(alg, cert, doc_hash, t, encrypted_digest));
    let signed_data = spec_tlv(0x30, spec_integer(1) + digest_algos + encap + certs + signer_infos);
    spec_tlv(0x30, spec_oid(oids::PKCS7_SIGNED_DATA@) + spec_tlv(0xA0, signed_data))
}

/// The authenticated attributes encoded as a SET (what is digested and signed).
fn encode_auth_attr_list(doc_hash: &[u8], sign_time: (u32, u32, u32, u32, u32, u32)) -> (r: Vec<u8>)
    ensures
        r@ == spec_auth_attr_list(doc_hash@, sign_time),
{
    // contentType
    let mut ct = oid(oids::CONTENT_TYPE);
    let ses_type = oid(oids::SES_DATA_TYPE);
    let ct_set = tlv(0x31, ses_type.as_slice());
    extend_bytes(&mut ct, ct_set.as_slice());
    let mut out = tlv(0x30, ct.as_slice());
    // messageDigest
    let mut md = oid(oids::MESSAGE_DIGEST);
    let hash = octet_string(doc_hash);
    let md_set = tlv(0x31, hash.as_slice());
    extend_bytes(&mut md, md_set.as_slice());
    let md_attr = tlv(0x30, md.as_slice());
    extend_bytes(&mut out, md_attr.as_slice());
    // signingTime
    let mut st = oid(oids::SIGNING_TIME);
    let time = utc_time(sign_time.0, sign_time.1, sign_time.2, sign_time.3, sign_time.4, sign_time.5);
    let st_set = tlv(0x31, time.as_slice());
    extend_bytes(&mut st, st_set.as_slice());
    let st_attr = tlv(0x30, st.as_slice());
    extend_bytes(&mut out, st_attr.as_slice());
    out
}

/// SignerInfo for the certificate's signer.
fn build_signer_info(
    algorithm: SealAlgorithm,
    cert_der: &[u8],
    doc_hash: &[u8],
    sign_time: (u32, u32, u32, u32, u32, u32),
    encrypted_digest: &[u8],
) -> (r: Vec<u8>)
    requires
        issuer_and_serial_defined(cert_der@),
    ensures
        r@ == spec_signer_info(algorithm, cert_der@, doc_hash@, sign_time, encrypted_digest@),
{
    let (issuer_der, serial_der) = extract_issuer_and_serial(cert_der);
    let mut sid_content = issuer_der;
    extend_bytes(&mut sid_content, serial_der.as_slice());
    let sid = tlv(0x30, sid_content.as_slice());
    let attrs = encode_auth_attr_list(doc_hash, sign_time);
    let auth_attrs = context_explicit(0, attrs.as_slice());
    assert(explicit_tag(0) == 0xA0) by (bit_vector);

    let mut c = integer(1);
    extend_bytes(&mut c, sid.as_slice());
    let dig = algorithm_identifier(algorithm.digest_oid());
    extend_bytes(&mut c, dig.as_slice());
    extend_bytes(&mut c, auth_attrs.as_slice());
    let sig_alg = algorithm_identifier(algorithm.signature_oid());
    extend_bytes(&mut c, sig_alg.as_slice());
    let ed = octet_string(encrypted_digest);
    extend_bytes(&mut c, ed.as_slice());
    tlv(0x30, c.as_slice())
}

/// PKCS#7 SignedData in its ContentInfo: the value written to a PDF
/// signature's /Contents.
pub fn build_pkcs7_signed_data(
    algorithm: SealAlgorithm,
    cert_der: &[u8],
    ses_signature_der: &[u8],
    doc_hash: &[u8],
    sign_time: (u32, u32, u32, u32, u32, u32),
    encrypted_digest: &[u8],
) -> (r: Vec<u8>)
    requires
        issuer_and_serial_defined(cert_der@),
    ensures
        r@ == spec_pkcs7_signed_data(
            algorithm,
            cert_der@,
            ses_signature_der@,
            doc_hash@,
            sign_time,
            encrypted_digest@,
        ),
{
    let dig = algorithm_identifier(algorithm.digest_oid());
    let digest_algos = tlv(0x31, dig.as_slice());

    let mut encap_content = oid(oids::SES_DATA_TYPE);
    let ses_octets = octet_string(ses_signature_der);
    let econtent = context_explicit(0, ses_octets.as_slice());
    assert(explicit_tag(0) == 0xA0) by (bit_vector);
    extend_bytes(&mut encap_content, econtent.as_slice());
    let encap = tlv(0x30, encap_content.as_slice());

    let certs = context_explicit(0, cert_der);
    let signer_info = build_signer_info(algorithm, cert_der, doc_hash, sign_time, encrypted_digest);
    let signer_infos = tlv(0x31, signer_info.as_slice());

    let mut sd = integer(1);
    extend_bytes(&mut sd, digest_algos.as_slice());
    extend_bytes(&mut sd, encap.as_slice());
    extend_bytes(&mut sd, certs.as_slice());
    extend_bytes(&mut sd, signer_infos.as_slice());
    let signed_data = tlv(0x30, sd.as_slice());

    let mut ci = oid(oids::PKCS7_SIGNED_DATA);
    let content = context_explicit(0, signed_data.as_slice());
    extend_bytes(&mut ci, content.as_slice());
    tlv(0x30, ci.as_slice())
}

/// PKCS#7 SignedData signed by the mock signer: the authenticated attributes
/// (as a SET) are digested with the algorithm's hash and that digest is signed.
pub fn build_mock_pkcs7(
    algorithm: SealAlgorithm,
    ses_signature_der: &[u8],
    doc_hash: &[u8],
    sign_time: (u32, u32, u32, u32, u32, u32),
    store: &mut Sm2KeyStore,
) -> (r: Vec<u8>)
    ensures
        exists|sig: Seq<u8>|
            r@ == spec_pkcs7_signed_data(
                algorithm,
                mock_cert(algorithm),
                ses_signature_der@,
                doc_hash@,
                sign_time,
                sig,
            ) && mock_signature_of(
                algorithm,
                digest_of(algorithm, spec_tlv(0x31, spec_auth_attr_list(doc_hash@, sign_time))),
                sig,
            ),
        old(store).ensured(*final(store)) || (algorithm == SealAlgorithm::Rsa && *final(store)
            == *old(store)),
{
    let cert_der = algorithm.cert_der();
    proof {
        lemma_mock_cert_identifiable(algorithm);
    }
    let attrs = encode_auth_attr_list(doc_hash, sign_time);
    let auth_attrs_set = tlv(0x31, attrs.as_slice());
    let auth_attrs_hash = digest(algorithm, auth_attrs_set.as_slice());
    let encrypted_digest = mock_sign(store, algorithm, auth_attrs_hash.as_slice());
    let r = build_pkcs7_signed_data(
        algorithm,
        cert_der.as_slice(),
        ses_signature_der,
        doc_hash,
        sign_time,
        encrypted_digest.as_slice(),
    );
    assert(mock_signature_of(algorithm, digest_of(algorithm, spec_tlv(0x31, spec_auth_attr_list(doc_hash@, sign_time))), encrypted_digest@));
    r
}

} // verus!
