use dianju_wasm_seal::der::oids;
use dianju_wasm_seal::der::{
    algorithm_identifier, bit_string, boolean, context_explicit, context_implicit,
    context_implicit_constructed, generalized_time, ia5_string, integer, integer_bytes, null,
    octet_string, oid, printable_string, sequence, utc_time, utf8_string,
};

#[test]
fn test_integer() {
    assert_eq!(integer(0), vec![0x02, 0x01, 0x00]);
    assert_eq!(integer(1), vec![0x02, 0x01, 0x01]);
    assert_eq!(integer(127), vec![0x02, 0x01, 0x7F]);
    assert_eq!(integer(128), vec![0x02, 0x02, 0x00, 0x80]);
    assert_eq!(integer(256), vec![0x02, 0x02, 0x01, 0x00]);
}

#[test]
fn test_oid() {
    let encoded = oid(oids::PKCS7_SIGNED_DATA);
    assert_eq!(encoded[0], 0x06);
    assert_eq!(encoded[1], 0x09);
    let content = &encoded[2..];
    assert_eq!(content[0], 42);
}

#[test]
fn test_sequence() {
    let seq = sequence(&[integer(1), integer(2)]);
    assert_eq!(seq[0], 0x30);
    assert_eq!(seq[1], 6);
    assert_eq!(&seq[2..], &[0x02, 0x01, 0x01, 0x02, 0x01, 0x02]);
}

#[test]
fn test_bit_string() {
    let bs = bit_string(&[0x01, 0x02, 0x03], 0);
    assert_eq!(bs, vec![0x03, 0x04, 0x00, 0x01, 0x02, 0x03]);
}

#[test]
fn test_null() {
    assert_eq!(null(), vec![0x05, 0x00]);
}

#[test]
fn integer_negative_values() {
    assert_eq!(integer(-1), vec![0x02, 0x01, 0xFF]);
    assert_eq!(integer(-128), vec![0x02, 0x01, 0x80]);
    assert_eq!(integer(-129), vec![0x02, 0x02, 0xFF, 0x7F]);
    assert_eq!(integer(i64::MIN), vec![0x02, 0x08, 0x80, 0, 0, 0, 0, 0, 0, 0]);
}

#[test]
fn integer_from_magnitude_bytes() {
    assert_eq!(integer_bytes(&[]), vec![0x02, 0x01, 0x00]);
    assert_eq!(integer_bytes(&[0x80]), vec![0x02, 0x02, 0x00, 0x80]);
    assert_eq!(integer_bytes(&[0x12, 0x34]), vec![0x02, 0x02, 0x12, 0x34]);
}

#[test]
fn long_form_lengths() {
    let v = vec![0u8; 200];
    let o = octet_string(&v);
    assert_eq!(&o[..3], &[0x04, 0x81, 200]);
    assert_eq!(o.len(), 203);
    let w = vec![7u8; 300];
    let o2 = octet_string(&w);
    assert_eq!(&o2[..4], &[0x04, 0x82, 0x01, 0x2C]);
}

#[test]
fn oid_encodes_large_arcs() {
    assert_eq!(oid("1.2.840.113549.1.7.2"), vec![0x06, 0x09, 0x2A, 0x86, 0x48, 0x86, 0xF7, 0x0D, 0x01, 0x07, 0x02]);
    assert_eq!(oid(oids::SM2_WITH_SM3), vec![0x06, 0x08, 0x2A, 0x81, 0x1C, 0xCF, 0x55, 0x01, 0x83, 0x75]);
}

#[test]
fn strings_and_booleans() {
    assert_eq!(boolean(true), vec![0x01, 0x01, 0xFF]);
    assert_eq!(boolean(false), vec![0x01, 0x01, 0x00]);
    assert_eq!(utf8_string("印"), vec![0x0C, 0x03, 0xE5, 0x8D, 0xB0]);
    assert_eq!(printable_string("ES"), vec![0x13, 0x02, b'E', b'S']);
    assert_eq!(ia5_string("a@b"), vec![0x16, 0x03, b'a', b'@', b'b']);
}

#[test]
fn time_values() {
    assert_eq!(utc_time(2026, 7, 10, 16, 30, 0), {
        let mut v = vec![0x17, 13];
        v.extend_from_slice(b"260710163000Z");
        v
    });
    assert_eq!(generalized_time(2026, 7, 10, 16, 30, 5), {
        let mut v = vec![0x18, 15];
        v.extend_from_slice(b"20260710163005Z");
        v
    });
}

#[test]
fn constructed_and_context_tags() {
    assert_eq!(dianju_wasm_seal::der::set(&[null()]), vec![0x31, 0x02, 0x05, 0x00]);
    assert_eq!(context_explicit(0, &integer(2)), vec![0xA0, 0x03, 0x02, 0x01, 0x02]);
    assert_eq!(context_implicit(1, &[0xAA]), vec![0x81, 0x01, 0xAA]);
    assert_eq!(context_implicit_constructed(3, &[null(), null()]), vec![0xA3, 0x04, 0x05, 0x00, 0x05, 0x00]);
    assert_eq!(algorithm_identifier(oids::SHA1), vec![0x30, 0x09, 0x06, 0x05, 0x2B, 0x0E, 0x03, 0x02, 0x1A, 0x05, 0x00]);
}
