//! Mock certificates, keys and seal picture used by the development setup.
//!
//! The certificates are self-signed X.509 v3 certificates (valid 2025-01-01 to
//! 2030-12-31). Each is kept as the fields that the signer identification reads
//! (serial number, signature algorithm, issuer) and the bytes around them; the
//! full DER is assembled by `SealAlgorithm::cert_der`.

use vstd::prelude::*;

verus! {

// CN=sm2-signer@dianju.com, OU=Mock SM2 Certificate, O=DianJu Test SM2 CA, C=CN (EC P-256)

/// Serial number (INTEGER content).
pub const MOCK_EC_SERIAL: [u8; 8] = [
    0x20, 0x26, 0x00, 0x00, 0x00, 0x00, 0x00, 0x01,
];

/// Signature algorithm inside the TBSCertificate (SEQUENCE content).
pub const MOCK_EC_TBS_SIGALG: [u8; 10] = [
    0x06, 0x08, 0x2A, 0x86, 0x48, 0xCE, 0x3D, 0x04, 0x03, 0x02,
];

/// Issuer Name (SEQUENCE content).
pub const MOCK_EC_ISSUER: [u8; 105] = [
    0x31, 0x1E, 0x30, 0x1C, 0x06, 0x03, 0x55, 0x04, 0x03, 0x0C, 0x15, 0x73, 0x6D, 0x32, 0x2D, 0x73,
    0x69, 0x67, 0x6E, 0x65, 0x72, 0x40, 0x64, 0x69, 0x61, 0x6E, 0x6A, 0x75, 0x2E, 0x63, 0x6F, 0x6D,
    0x31, 0x1D, 0x30, 0x1B, 0x06, 0x03, 0x55, 0x04, 0x0B, 0x0C, 0x14, 0x4D, 0x6F, 0x63, 0x6B, 0x20,
    0x53, 0x4D, 0x32, 0x20, 0x43, 0x65, 0x72, 0x74, 0x69, 0x66, 0x69, 0x63, 0x61, 0x74, 0x65, 0x31,
    0x1B, 0x30, 0x19, 0x06, 0x03, 0x55, 0x04, 0x0A, 0x0C, 0x12, 0x44, 0x69, 0x61, 0x6E, 0x4A, 0x75,
    0x20, 0x54, 0x65, 0x73, 0x74, 0x20, 0x53, 0x4D, 0x32, 0x20, 0x43, 0x41, 0x31, 0x0B, 0x30, 0x09,
    0x06, 0x03, 0x55, 0x04, 0x06, 0x13, 0x02, 0x43, 0x4E,
];

/// Validity, subject, public key and extensions of the TBSCertificate.
pub const MOCK_EC_TBS_REST: [u8; 251] = [
    0x30, 0x1E, 0x17, 0x0D, 0x32, 0x35, 0x30, 0x31, 0x30, 0x31, 0x30, 0x30, 0x30, 0x30, 0x30, 0x30,
    0x5A, 0x17, 0x0D, 0x33, 0x30, 0x31, 0x32, 0x33, 0x31, 0x32, 0x33, 0x35, 0x39, 0x35, 0x39, 0x5A,
    0x30, 0x69, 0x31, 0x1E, 0x30, 0x1C, 0x06, 0x03, 0x55, 0x04, 0x03, 0x0C, 0x15, 0x73, 0x6D, 0x32,
    0x2D, 0x73, 0x69, 0x67, 0x6E, 0x65, 0x72, 0x40, 0x64, 0x69, 0x61, 0x6E, 0x6A, 0x75, 0x2E, 0x63,
    0x6F, 0x6D, 0x31, 0x1D, 0x30, 0x1B, 0x06, 0x03, 0x55, 0x04, 0x0B, 0x0C, 0x14, 0x4D, 0x6F, 0x63,
    0x6B, 0x20, 0x53, 0x4D, 0x32, 0x20, 0x43, 0x65, 0x72, 0x74, 0x69, 0x66, 0x69, 0x63, 0x61, 0x74,
    0x65, 0x31, 0x1B, 0x30, 0x19, 0x06, 0x03, 0x55, 0x04, 0x0A, 0x0C, 0x12, 0x44, 0x69, 0x61, 0x6E,
    0x4A, 0x75, 0x20, 0x54, 0x65, 0x73, 0x74, 0x20, 0x53, 0x4D, 0x32, 0x20, 0x43, 0x41, 0x31, 0x0B,
    0x30, 0x09, 0x06, 0x03, 0x55, 0x04, 0x06, 0x13, 0x02, 0x43, 0x4E, 0x30, 0x59, 0x30, 0x13, 0x06,
    0x07, 0x2A, 0x86, 0x48, 0xCE, 0x3D, 0x02, 0x01, 0x06, 0x08, 0x2A, 0x86, 0x48, 0xCE, 0x3D, 0x03,
    0x01, 0x07, 0x03, 0x42, 0x00, 0x04, 0x22, 0x68, 0x30, 0x6B, 0xF9, 0x8B, 0xEC, 0x1F, 0x0C, 0xCD,
    0x05, 0x65, 0x1F, 0x8C, 0xA6, 0x32, 0xF3, 0xF3, 0x95, 0xA1, 0x0C, 0x98, 0x3D, 0xF6, 0x0C, 0x0B,
    0x3F, 0x38, 0x35, 0x07, 0x7F, 0x48, 0x1E, 0xAA, 0x45, 0x57, 0xDA, 0xFC, 0x67, 0xC1, 0x77, 0xCF,
    0x65, 0xCB, 0x68, 0x25, 0x8E, 0x34, 0x44, 0x92, 0x3E, 0xFB, 0xE6, 0xE7, 0x52, 0x1F, 0x89, 0x49,
    0x3F, 0xA8, 0x52, 0x96, 0xF4, 0xC8, 0xA3, 0x13, 0x30, 0x11, 0x30, 0x0F, 0x06, 0x03, 0x55, 0x1D,
    0x13, 0x01, 0x01, 0xFF, 0x04, 0x05, 0x30, 0x03, 0x01, 0x01, 0xFF,
];

/// Outer signature algorithm and signature value.
pub const MOCK_EC_CERT_TAIL: [u8; 86] = [
    0x30, 0x0A, 0x06, 0x08, 0x2A, 0x86, 0x48, 0xCE, 0x3D, 0x04, 0x03, 0x02, 0x03, 0x48, 0x00, 0x30,
    0x45, 0x02, 0x21, 0x00, 0xD6, 0xFA, 0x99, 0x7D, 0xC9, 0xB9, 0xC3, 0x78, 0xB9, 0x2F, 0xB3, 0xCA,
    0x9A, 0xF1, 0x57, 0x4A, 0x1D, 0x4D, 0x90, 0x7E, 0x81, 0xA6, 0x3A, 0x0E, 0xEC, 0x2D, 0x2F, 0xB4,
    0x3F, 0xD0, 0x16, 0x01, 0x02, 0x20, 0x37, 0xF5, 0xAF, 0xCB, 0xAB, 0x79, 0x1A, 0x15, 0x36, 0xB2,
    0x32, 0xD1, 0x5F, 0xEF, 0xA8, 0xEB, 0xBD, 0xB5, 0x0E, 0x8E, 0x9B, 0xDE, 0xA4, 0x4C, 0x40, 0x13,
    0x10, 0x69, 0xD7, 0xC9, 0xED, 0xE8,
];

// CN=test-signer@dianju.com, OU=Mock Certificate, O=DianJu Test CA, C=CN (RSA 2048)

/// Serial number (INTEGER content).
pub const MOCK_RSA_SERIAL: [u8; 8] = [
    0x20, 0x26, 0x00, 0x00, 0x00, 0x00, 0x00, 0x02,
];

/// Signature algorithm inside the TBSCertificate (SEQUENCE content).
pub const MOCK_RSA_TBS_SIGALG: [u8; 13] = [
    0x06, 0x09, 0x2A, 0x86, 0x48, 0x86, 0xF7, 0x0D, 0x01, 0x01, 0x0B, 0x05, 0x00,
];

/// Issuer Name (SEQUENCE content).
pub const MOCK_RSA_ISSUER: [u8; 98] = [
    0x31, 0x1F, 0x30, 0x1D, 0x06, 0x03, 0x55, 0x04, 0x03, 0x0C, 0x16, 0x74, 0x65, 0x73, 0x74, 0x2D,
    0x73, 0x69, 0x67, 0x6E, 0x65, 0x72, 0x40, 0x64, 0x69, 0x61, 0x6E, 0x6A, 0x75, 0x2E, 0x63, 0x6F,
    0x6D, 0x31, 0x19, 0x30, 0x17, 0x06, 0x03, 0x55, 0x04, 0x0B, 0x0C, 0x10, 0x4D, 0x6F, 0x63, 0x6B,
    0x20, 0x43, 0x65, 0x72, 0x74, 0x69, 0x66, 0x69, 0x63, 0x61, 0x74, 0x65, 0x31, 0x17, 0x30, 0x15,
    0x06, 0x03, 0x55, 0x04, 0x0A, 0x0C, 0x0E, 0x44, 0x69, 0x61, 0x6E, 0x4A, 0x75, 0x20, 0x54, 0x65,
    0x73, 0x74, 0x20, 0x43, 0x41, 0x31, 0x0B, 0x30, 0x09, 0x06, 0x03, 0x55, 0x04, 0x06, 0x13, 0x02,
    0x43, 0x4E,
];

/// Validity, subject, public key and extensions of the TBSCertificate.
pub const MOCK_RSA_TBS_REST: [u8; 447] = [
    0x30, 0x1E, 0x17, 0x0D, 0x32, 0x35, 0x30, 0x31, 0x30, 0x31, 0x30, 0x30, 0x30, 0x30, 0x30, 0x30,
    0x5A, 0x17, 0x0D, 0x33, 0x30, 0x31, 0x32, 0x33, 0x31, 0x32, 0x33, 0x35, 0x39, 0x35, 0x39, 0x5A,
    0x30, 0x62, 0x31, 0x1F, 0x30, 0x1D, 0x06, 0x03, 0x55, 0x04, 0x03, 0x0C, 0x16, 0x74, 0x65, 0x73,
    0x74, 0x2D, 0x73, 0x69, 0x67, 0x6E, 0x65, 0x72, 0x40, 0x64, 0x69, 0x61, 0x6E, 0x6A, 0x75, 0x2E,
    0x63, 0x6F, 0x6D, 0x31, 0x19, 0x30, 0x17, 0x06, 0x03, 0x55, 0x04, 0x0B, 0x0C, 0x10, 0x4D, 0x6F,
    0x63, 0x6B, 0x20, 0x43, 0x65, 0x72, 0x74, 0x69, 0x66, 0x69, 0x63, 0x61, 0x74, 0x65, 0x31, 0x17,
    0x30, 0x15, 0x06, 0x03, 0x55, 0x04, 0x0A, 0x0C, 0x0E, 0x44, 0x69, 0x61, 0x6E, 0x4A, 0x75, 0x20,
    0x54, 0x65, 0x73, 0x74, 0x20, 0x43, 0x41, 0x31, 0x0B, 0x30, 0x09, 0x06, 0x03, 0x55, 0x04, 0x06,
    0x13, 0x02, 0x43, 0x4E, 0x30, 0x82, 0x01, 0x22, 0x30, 0x0D, 0x06, 0x09, 0x2A, 0x86, 0x48, 0x86,
    0xF7, 0x0D, 0x01, 0x01, 0x01, 0x05, 0x00, 0x03, 0x82, 0x01, 0x0F, 0x00, 0x30, 0x82, 0x01, 0x0A,
    0x02, 0x82, 0x01, 0x01, 0x00, 0xAD, 0x2B, 0x81, 0x7D, 0x6E, 0x8A, 0x16, 0x8F, 0xEA, 0xD5, 0x49,
    0x54, 0x1F, 0x22, 0x80, 0x24, 0x3E, 0x9B, 0x6A, 0x23, 0xE9, 0x68, 0xE7, 0x4F, 0xB1, 0x76, 0x57,
    0xCB, 0x5A, 0x1C, 0xEE, 0x70, 0x10, 0x59, 0x70, 0x12, 0xA5, 0xAE, 0x7E, 0xE2, 0x36, 0x98, 0xAC,
    0x7C, 0x5D, 0xDB, 0x7D, 0x7A, 0x9C, 0xD8, 0xA8, 0x95, 0xCA, 0x72, 0x21, 0x1D, 0x1D, 0x64, 0x71,
    0x09, 0xFD, 0x5C, 0x88, 0x50, 0xEB, 0x6C, 0x98, 0x4F, 0xD8, 0xBC, 0x9B, 0xB9, 0x05, 0x96, 0xAD,
    0x68, 0x64, 0xC8, 0xD1, 0xED, 0x72, 0xF6, 0xFC, 0xCC, 0xB1, 0xBA, 0xFC, 0xF6, 0x3E, 0x7D, 0xB9,
    0x67, 0xF5, 0x14, 0x21, 0x98, 0x9E, 0x6E, 0xCA, 0xC7, 0xF7, 0x37, 0x8F, 0x12, 0xC7, 0x3E, 0x6A,
    0x40, 0x50, 0xA1, 0x93, 0x40, 0xCB, 0x67, 0x7B, 0x80, 0xB5, 0x57, 0xDB, 0x0F, 0xA7, 0x5C, 0x1E,
    0x9F, 0x0F, 0x18, 0x30, 0x60, 0xAD, 0x3C, 0x15, 0x61, 0x21, 0x26, 0x89, 0x91, 0x1D, 0x34, 0xE9,
    0x37, 0x7D, 0x26, 0xDC, 0xA4, 0x33, 0x05, 0x21, 0xA4, 0x83, 0xC9, 0xD2, 0x8D, 0x43, 0xB4, 0xBE,
    0x16, 0x3F, 0xA4, 0x87, 0xF8, 0x40, 0x68, 0xDD, 0xFC, 0x8C, 0x70, 0x4E, 0x92, 0x95, 0x92, 0x42,
    0xD3, 0xC4, 0xA4, 0x9E, 0x03, 0x98, 0x21, 0x45, 0x85, 0x94, 0xDB, 0x75, 0xC6, 0x8E, 0x9F, 0x3E,
    0x5E, 0x26, 0xD8, 0x66, 0x25, 0x35, 0xE6, 0x39, 0x41, 0xC4, 0x63, 0xA3, 0xBF, 0x20, 0x8B, 0x8A,
    0x36, 0x70, 0x00, 0x63, 0xE1, 0x56, 0x20, 0x52, 0xFE, 0xF7, 0x5F, 0x0F, 0x6A, 0x00, 0x5B, 0x2E,
    0x99, 0x5A, 0xE2, 0x61, 0x30, 0xE2, 0xAA, 0x2E, 0x9C, 0x06, 0x2B, 0xA3, 0x09, 0x0E, 0x56, 0x3B,
    0xAB, 0xBD, 0x7D, 0x4F, 0xFD, 0x07, 0x3A, 0xC6, 0xDC, 0xD7, 0xC4, 0x06, 0x8B, 0x6E, 0x6E, 0x75,
    0xF4, 0xD6, 0x1F, 0x83, 0xEB, 0x02, 0x03, 0x01, 0x00, 0x01, 0xA3, 0x13, 0x30, 0x11, 0x30, 0x0F,
    0x06, 0x03, 0x55, 0x1D, 0x13, 0x01, 0x01, 0xFF, 0x04, 0x05, 0x30, 0x03, 0x01, 0x01, 0xFF,
];

/// Outer signature algorithm and signature value.
pub const MOCK_RSA_CERT_TAIL: [u8; 276] = [
    0x30, 0x0D, 0x06, 0x09, 0x2A, 0x86, 0x48, 0x86, 0xF7, 0x0D, 0x01, 0x01, 0x0B, 0x05, 0x00, 0x03,
    0x82, 0x01, 0x01, 0x00, 0x89, 0xD1, 0xDD, 0xFC, 0x28, 0x1B, 0xB0, 0xB9, 0xC6, 0x0F, 0xDD, 0xEB,
    0x49, 0xCA, 0x7A, 0x63, 0xFE, 0x05, 0x65, 0xD8, 0xC2, 0x39, 0x6C, 0xD9, 0x01, 0x9E, 0x44, 0x56,
    0x5A, 0xD8, 0xF9, 0x8B, 0xD8, 0xFE, 0xBF, 0x60, 0x37, 0x42, 0x0B, 0x00, 0xB4, 0x0E, 0xC6, 0x82,
    0x99, 0x60, 0x4D, 0xEE, 0x0D, 0x19, 0x05, 0x82, 0xEB, 0xFC, 0x97, 0x05, 0x4C, 0xEB, 0x38, 0x9C,
    0xF9, 0x03, 0x91, 0x7D, 0xB7, 0xA9, 0xD5, 0xE4, 0x81, 0x7E, 0x58, 0xA4, 0xF5, 0x02, 0xCD, 0xD9,
    0x67, 0x88, 0xB4, 0xC6, 0x9C, 0x05, 0x37, 0xDA, 0x4E, 0x0E, 0xC6, 0xEE, 0x08, 0x53, 0x9C, 0xA6,
    0xDD, 0x3C, 0xDA, 0x22, 0x61, 0x9C, 0x04, 0xB2, 0x23, 0xF9, 0x49, 0x79, 0x36, 0x04, 0x45, 0xC3,
    0x79, 0xD9, 0x56, 0xB5, 0xCF, 0xF1, 0xE3, 0x58, 0x47, 0x1A, 0x54, 0x05, 0xB0, 0x4A, 0xE4, 0xEB,
    0x95, 0x8E, 0x40, 0x3F, 0xB4, 0xC5, 0x22, 0xBB, 0xA1, 0xC6, 0xD4, 0x86, 0x60, 0x96, 0x28, 0xE7,
    0xC4, 0x12, 0x22, 0xC4, 0xE8, 0xBF, 0xB2, 0xAE, 0x3D, 0xB6, 0x7E, 0x11, 0x01, 0xBE, 0x63, 0x8E,
    0x88, 0x66, 0x5D, 0x79, 0x18, 0x88, 0x1B, 0x4A, 0xE7, 0xB4, 0xC5, 0xAA, 0x7B, 0x69, 0x9B, 0xC1,
    0x50, 0xCF, 0xA8, 0x91, 0x2A, 0x9E, 0x2E, 0x1D, 0xF2, 0xF2, 0xFB, 0x4C, 0x27, 0xA7, 0x6F, 0xC5,
    0xB2, 0x41, 0x5D, 0x18, 0x5A, 0x95, 0x39, 0xD6, 0x4D, 0xC7, 0xD0, 0x2A, 0x20, 0x3C, 0x19, 0x95,
    0xC2, 0xAE, 0xE8, 0xED, 0x2A, 0x63, 0xEF, 0xAD, 0x46, 0x70, 0xDD, 0x54, 0x63, 0xC1, 0x56, 0x49,
    0x25, 0xBF, 0xDE, 0x5A, 0xBB, 0xAA, 0x74, 0x23, 0xCE, 0x6B, 0x13, 0x38, 0x15, 0x35, 0x2B, 0xBA,
    0xCB, 0x4D, 0x8C, 0xCC, 0x98, 0x35, 0x64, 0x1D, 0x3A, 0x1D, 0x55, 0xC5, 0xE9, 0x4F, 0x34, 0x22,
    0xF8, 0x13, 0x35, 0x8A,
];

/// Mock EC private key (PKCS#8 DER).
pub const MOCK_EC_PRIVKEY_DER: [u8; 138] = [
    0x30, 0x81, 0x87, 0x02, 0x01, 0x00, 0x30, 0x13, 0x06, 0x07, 0x2A, 0x86, 0x48, 0xCE, 0x3D, 0x02,
    0x01, 0x06, 0x08, 0x2A, 0x86, 0x48, 0xCE, 0x3D, 0x03, 0x01, 0x07, 0x04, 0x6D, 0x30, 0x6B, 0x02,
    0x01, 0x01, 0x04, 0x20, 0x9B, 0x5B, 0xB4, 0x91, 0x73, 0xFC, 0xBE, 0x7B, 0x82, 0xD2, 0x36, 0xFF,
    0xEF, 0x91, 0x26, 0x74, 0x71, 0x24, 0x2D, 0x71, 0x32, 0x22, 0x95, 0xB0, 0xC8, 0xED, 0x3C, 0xE6,
    0xE9, 0xB1, 0x78, 0x38, 0xA1, 0x44, 0x03, 0x42, 0x00, 0x04, 0x22, 0x68, 0x30, 0x6B, 0xF9, 0x8B,
    0xEC, 0x1F, 0x0C, 0xCD, 0x05, 0x65, 0x1F, 0x8C, 0xA6, 0x32, 0xF3, 0xF3, 0x95, 0xA1, 0x0C, 0x98,
    0x3D, 0xF6, 0x0C, 0x0B, 0x3F, 0x38, 0x35, 0x07, 0x7F, 0x48, 0x1E, 0xAA, 0x45, 0x57, 0xDA, 0xFC,
    0x67, 0xC1, 0x77, 0xCF, 0x65, 0xCB, 0x68, 0x25, 0x8E, 0x34, 0x44, 0x92, 0x3E, 0xFB, 0xE6, 0xE7,
    0x52, 0x1F, 0x89, 0x49, 0x3F, 0xA8, 0x52, 0x96, 0xF4, 0xC8,
];

/// Mock RSA private key (PKCS#8 DER).
pub const MOCK_RSA_PRIVKEY_DER: [u8; 1218] = [
    0x30, 0x82, 0x04, 0xBE, 0x02, 0x01, 0x00, 0x30, 0x0D, 0x06, 0x09, 0x2A, 0x86, 0x48, 0x86, 0xF7,
    0x0D, 0x01, 0x01, 0x01, 0x05, 0x00, 0x04, 0x82, 0x04, 0xA8, 0x30, 0x82, 0x04, 0xA4, 0x02, 0x01,
    0x00, 0x02, 0x82, 0x01, 0x01, 0x00, 0xAD, 0x2B, 0x81, 0x7D, 0x6E, 0x8A, 0x16, 0x8F, 0xEA, 0xD5,
    0x49, 0x54, 0x1F, 0x22, 0x80, 0x24, 0x3E, 0x9B, 0x6A, 0x23, 0xE9, 0x68, 0xE7, 0x4F, 0xB1, 0x76,
    0x57, 0xCB, 0x5A, 0x1C, 0xEE, 0x70, 0x10, 0x59, 0x70, 0x12, 0xA5, 0xAE, 0x7E, 0xE2, 0x36, 0x98,
    0xAC, 0x7C, 0x5D, 0xDB, 0x7D, 0x7A, 0x9C, 0xD8, 0xA8, 0x95, 0xCA, 0x72, 0x21, 0x1D, 0x1D, 0x64,
    0x71, 0x09, 0xFD, 0x5C, 0x88, 0x50, 0xEB, 0x6C, 0x98, 0x4F, 0xD8, 0xBC, 0x9B, 0xB9, 0x05, 0x96,
    0xAD, 0x68, 0x64, 0xC8, 0xD1, 0xED, 0x72, 0xF6, 0xFC, 0xCC, 0xB1, 0xBA, 0xFC, 0xF6, 0x3E, 0x7D,
    0xB9, 0x67, 0xF5, 0x14, 0x21, 0x98, 0x9E, 0x6E, 0xCA, 0xC7, 0xF7, 0x37, 0x8F, 0x12, 0xC7, 0x3E,
    0x6A, 0x40, 0x50, 0xA1, 0x93, 0x40, 0xCB, 0x67, 0x7B, 0x80, 0xB5, 0x57, 0xDB, 0x0F, 0xA7, 0x5C,
    0x1E, 0x9F, 0x0F, 0x18, 0x30, 0x60, 0xAD, 0x3C, 0x15, 0x61, 0x21, 0x26, 0x89, 0x91, 0x1D, 0x34,
    0xE9, 0x37, 0x7D, 0x26, 0xDC, 0xA4, 0x33, 0x05, 0x21, 0xA4, 0x83, 0xC9, 0xD2, 0x8D, 0x43, 0xB4,
    0xBE, 0x16, 0x3F, 0xA4, 0x87, 0xF8, 0x40, 0x68, 0xDD, 0xFC, 0x8C, 0x70, 0x4E, 0x92, 0x95, 0x92,
    0x42, 0xD3, 0xC4, 0xA4, 0x9E, 0x03, 0x98, 0x21, 0x45, 0x85, 0x94, 0xDB, 0x75, 0xC6, 0x8E, 0x9F,
    0x3E, 0x5E, 0x26, 0xD8, 0x66, 0x25, 0x35, 0xE6, 0x39, 0x41, 0xC4, 0x63, 0xA3, 0xBF, 0x20, 0x8B,
    0x8A, 0x36, 0x70, 0x00, 0x63, 0xE1, 0x56, 0x20, 0x52, 0xFE, 0xF7, 0x5F, 0x0F, 0x6A, 0x00, 0x5B,
    0x2E, 0x99, 0x5A, 0xE2, 0x61, 0x30, 0xE2, 0xAA, 0x2E, 0x9C, 0x06, 0x2B, 0xA3, 0x09, 0x0E, 0x56,
    0x3B, 0xAB, 0xBD, 0x7D, 0x4F, 0xFD, 0x07, 0x3A, 0xC6, 0xDC, 0xD7, 0xC4, 0x06, 0x8B, 0x6E, 0x6E,
    0x75, 0xF4, 0xD6, 0x1F, 0x83, 0xEB, 0x02, 0x03, 0x01, 0x00, 0x01, 0x02, 0x82, 0x01, 0x00, 0x29,
    0x15, 0x35, 0x37, 0x48, 0xCE, 0x41, 0xE4, 0x0A, 0xD6, 0x66, 0xFB, 0x2A, 0x17, 0xC9, 0x46, 0xD0,
    0x03, 0x96, 0xFE, 0xC6, 0x15, 0x39, 0x2B, 0x52, 0xF2, 0xBC, 0x89, 0x65, 0xEB, 0x8F, 0x35, 0xCE,
    0xEB, 0x29, 0x07, 0x83, 0x7F, 0x0E, 0x63, 0x24, 0x88, 0xBC, 0x03, 0x15, 0x51, 0x49, 0x47, 0x99,
    0x86, 0x5D, 0x18, 0x8C, 0x5A, 0xDF, 0x38, 0x45, 0x0C, 0xDB, 0x34, 0x7F, 0x83, 0x40, 0x63, 0xD2,
    0x36, 0x85, 0x3C, 0x0C, 0x33, 0x52, 0xCE, 0x66, 0x61, 0x04, 0xEA, 0xCB, 0x5E, 0x49, 0x4F, 0x88,
    0x02, 0xC8, 0x9E, 0xD7, 0x5B, 0x81, 0x3F, 0xFA, 0x3B, 0x61, 0x8D, 0x24, 0x3B, 0x8E, 0x6C, 0xE2,
    0xC9, 0x6E, 0x1A, 0x5A, 0xB0, 0x37, 0xA5, 0x40, 0xD7, 0xB1, 0xE5, 0x68, 0x3B, 0xAC, 0xEF, 0xA6,
    0x51, 0xFA, 0x9E, 0xE2, 0x66, 0xE1, 0x75, 0xA9, 0x42, 0xD5, 0x90, 0xEE, 0xC7, 0xD2, 0x51, 0xF9,
    0x44, 0x4E, 0x86, 0x62, 0x5B, 0x46, 0xFD, 0x6C, 0x3A, 0x8E, 0x58, 0xC5, 0x8B, 0xD1, 0x5B, 0xED,
    0xF7, 0x09, 0x95, 0x6E, 0x50, 0xE1, 0x1A, 0xCF, 0xAC, 0xC0, 0x77, 0x08, 0x23, 0x98, 0xC7, 0x25,
    0x4F, 0x89, 0xDA, 0x25, 0xB0, 0x1C, 0xE9, 0xC7, 0xCB, 0x97, 0x4B, 0x95, 0x69, 0x8E, 0x87, 0x97,
    0xCB, 0x3C, 0xA6, 0x19, 0xFD, 0x49, 0xB6, 0x54, 0xE6, 0xA0, 0x97, 0xCA, 0xAE, 0x3C, 0xCF, 0x33,
    0xD5, 0xEA, 0x6F, 0x93, 0x5B, 0x12, 0x07, 0x58, 0x5C, 0x62, 0xB9, 0xB1, 0x2F, 0x1B, 0x7C, 0xBA,
    0x0D, 0xC4, 0x61, 0x67, 0xBF, 0x5D, 0x76, 0x5F, 0xF6, 0xF0, 0xEB, 0x39, 0xF3, 0xA9, 0xB8, 0xA4,
    0x91, 0xD6, 0x1E, 0x48, 0x84, 0xC7, 0xB8, 0xB4, 0xF3, 0xDF, 0x72, 0x3A, 0xCF, 0x52, 0xEF, 0x52,
    0x45, 0xE0, 0x91, 0x11, 0x7B, 0x78, 0xBD, 0xDE, 0x70, 0xCD, 0xCB, 0xD8, 0x72, 0x5A, 0xC1, 0x02,
    0x81, 0x81, 0x00, 0xDC, 0x95, 0x6F, 0xDC, 0x89, 0xC6, 0xEC, 0x8E, 0x08, 0x97, 0x3E, 0x6C, 0x9C,
    0xE1, 0xE9, 0x9D, 0xC2, 0xF8, 0x00, 0xAA, 0xDB, 0x45, 0xB8, 0x97, 0xCA, 0xEA, 0xA2, 0x50, 0xA2,
    0x6F, 0x36, 0x44, 0xE4, 0xD2, 0xF2, 0x5C, 0x0C, 0xF7, 0xBB, 0x83, 0xB7, 0x48, 0xB0, 0xD4, 0x43,
    0xB6, 0x5C, 0xA2, 0xEE, 0xA6, 0xB6, 0xBA, 0x63, 0xA0, 0x43, 0x01, 0xE8, 0x21, 0x30, 0x04, 0xA9,
    0x1B, 0x23, 0x5F, 0xBC, 0x8D, 0x81, 0xBC, 0xFC, 0x3E, 0x98, 0xE4, 0xCD, 0x95, 0x43, 0x4F, 0x07,
    0x9C, 0x1B, 0xAC, 0xED, 0xBE, 0xD2, 0xF7, 0x15, 0xF2, 0x9E, 0x06, 0xC0, 0xFC, 0x88, 0xC3, 0xAA,
    0x73, 0xB1, 0x25, 0xE4, 0x8D, 0xA8, 0x34, 0x40, 0x2D, 0x68, 0x1D, 0xF3, 0xBA, 0x72, 0xEB, 0xB8,
    0xFB, 0x66, 0x7D, 0xF9, 0xC8, 0x54, 0x52, 0x80, 0x25, 0x2C, 0xC7, 0x4D, 0x78, 0x9E, 0x72, 0x66,
    0xD2, 0x85, 0x33, 0x02, 0x81, 0x81, 0x00, 0xC8, 0xF9, 0x3D, 0x37, 0x63, 0x61, 0xD4, 0x96, 0x39,
    0xD3, 0xD3, 0xF7, 0x66, 0x49, 0x2E, 0xB2, 0xF0, 0x09, 0x0D, 0x89, 0xE5, 0x00, 0xFB, 0x89, 0x50,
    0xE2, 0x9B, 0x37, 0x36, 0xAF, 0x9B, 0x6B, 0x56, 0x78, 0x5C, 0xE1, 0x1D, 0x5E, 0x0E, 0x40, 0x83,
    0xF8, 0x50, 0x37, 0x8A, 0x11, 0x07, 0xDC, 0xC5, 0x5B, 0x66, 0x01, 0x05, 0xD6, 0xD4, 0xEC, 0x52,
    0x3D, 0xAF, 0x89, 0x51, 0x61, 0xB9, 0x19, 0x5E, 0xA7, 0x94, 0x96, 0x88, 0xDF, 0xFF, 0x6B, 0x4F,
    0x47, 0x3C, 0x11, 0x8F, 0x5E, 0x36, 0x3A, 0x3E, 0x73, 0xD5, 0xCB, 0x7B, 0xFC, 0x54, 0x0D, 0x14,
    0x13, 0xE1, 0xAA, 0x91, 0xB1, 0x9B, 0x7D, 0x49, 0xF1, 0x24, 0xFE, 0xE1, 0x46, 0x57, 0xF0, 0x3A,
    0xDE, 0xE3, 0xB7, 0xE1, 0x2E, 0x3D, 0x8E, 0x82, 0x87, 0x03, 0xD8, 0x9D, 0xE2, 0x84, 0xC8, 0xAF,
    0xC4, 0x93, 0x00, 0xFB, 0x59, 0x96, 0x69, 0x02, 0x81, 0x81, 0x00, 0xA9, 0x0B, 0xF9, 0x33, 0x49,
    0x7F, 0x62, 0xB0, 0xA3, 0x12, 0xCD, 0xAB, 0x4D, 0x3B, 0xB0, 0xDE, 0xCF, 0x99, 0x62, 0x61, 0x8E,
    0x33, 0xCB, 0x78, 0xC0, 0xF0, 0xBA, 0x3E, 0x13, 0x8E, 0x29, 0x47, 0xF9, 0x19, 0x54, 0xD5, 0x88,
    0xB6, 0x9E, 0x45, 0x1E, 0x44, 0x9E, 0x07, 0xBE, 0x70, 0xD6, 0x63, 0xA3, 0x83, 0xAE, 0x4B, 0xFF,
    0xA7, 0xC5, 0x52, 0x83, 0xC4, 0x53, 0x59, 0x6F, 0x03, 0xB6, 0x43, 0x5B, 0x6C, 0x12, 0xFE, 0x73,
    0x4D, 0xC1, 0xBC, 0xAF, 0x74, 0xF1, 0xA5, 0x72, 0x4E, 0x87, 0xC3, 0x2A, 0x5C, 0x70, 0xAF, 0x1D,
    0x69, 0xD7, 0x03, 0x94, 0x08, 0xB5, 0x03, 0x46, 0xF0, 0xEC, 0xD4, 0xFE, 0x68, 0x35, 0x7C, 0xFD,
    0xA6, 0x0E, 0xC1, 0xCD, 0x94, 0x99, 0x17, 0xDF, 0xA7, 0x02, 0xF0, 0x0E, 0x6A, 0x21, 0x7D, 0x2C,
    0x69, 0xD0, 0xFC, 0x58, 0x79, 0xD4, 0xEC, 0x15, 0xB2, 0xC6, 0x93, 0x02, 0x81, 0x81, 0x00, 0x91,
    0x2B, 0x0F, 0x9F, 0xF1, 0xA6, 0x99, 0xF3, 0x85, 0x83, 0xD0, 0x49, 0x95, 0x55, 0xE9, 0x68, 0x91,
    0x60, 0x48, 0xAA, 0x41, 0x83, 0xAB, 0x2D, 0xEE, 0x02, 0x31, 0x91, 0xF9, 0x6B, 0x71, 0x7D, 0x60,
    0x31, 0x83, 0x0D, 0x8C, 0xB4, 0x02, 0xE1, 0x71, 0x32, 0x2D, 0x67, 0x60, 0xD0, 0x9A, 0x78, 0x4B,
    0x0A, 0x91, 0x2C, 0xCD, 0xF5, 0xF7, 0x49, 0x58, 0xC2, 0x7C, 0x08, 0x59, 0x83, 0x98, 0x3B, 0x8E,
    0x16, 0xC8, 0x8A, 0xD0, 0x05, 0xD5, 0x2E, 0xC3, 0x4E, 0x36, 0x42, 0x8C, 0xE7, 0xC5, 0x8D, 0xDE,
    0xCC, 0xB7, 0x32, 0xCB, 0xB5, 0x61, 0x55, 0x2D, 0x1A, 0x8B, 0x58, 0x34, 0xF3, 0x30, 0xD8, 0x98,
    0x4F, 0x9A, 0xA4, 0x8D, 0x3E, 0xCD, 0x88, 0x96, 0x4D, 0xA7, 0xF9, 0x8B, 0xAB, 0x66, 0x05, 0x89,
    0x9D, 0x53, 0x16, 0xE6, 0x3C, 0xD8, 0x23, 0x4A, 0x6B, 0x58, 0xB0, 0x4D, 0xDE, 0xD1, 0x79, 0x02,
    0x81, 0x80, 0x1B, 0x2B, 0xF4, 0xF8, 0x4F, 0x95, 0x27, 0xBB, 0x51, 0x6B, 0x29, 0xCF, 0x92, 0x09,
    0xBC, 0x5A, 0x92, 0x60, 0xC1, 0xC9, 0x4E, 0x17, 0x61, 0xA7, 0x22, 0x23, 0x80, 0xAE, 0x4C, 0x25,
    0x6A, 0x86, 0xDC, 0x56, 0x66, 0xDE, 0xAF, 0xE8, 0x68, 0x16, 0xF9, 0xAB, 0x35, 0x44, 0xD5, 0x6C,
    0xC2, 0x3A, 0x6D, 0x04, 0x07, 0xCE, 0x8C, 0x7E, 0x6F, 0x2C, 0x44, 0x50, 0x65, 0x44, 0x38, 0x82,
    0x3F, 0xBA, 0x08, 0x21, 0x29, 0xCC, 0x09, 0xCB, 0xA4, 0xC7, 0x48, 0xB5, 0x59, 0xAA, 0x0D, 0x69,
    0x57, 0x03, 0x7F, 0x3A, 0xAB, 0x74, 0x1F, 0xD1, 0xBB, 0xF6, 0xB4, 0xA0, 0x5B, 0xDD, 0x15, 0x45,
    0x2D, 0x1D, 0x93, 0x0E, 0x59, 0x8A, 0xF3, 0x7E, 0xA8, 0x66, 0xBC, 0xE6, 0x8E, 0xD6, 0xE7, 0x37,
    0x69, 0x14, 0x0D, 0x98, 0x8A, 0x4D, 0x6B, 0xC3, 0xF6, 0x53, 0x1B, 0x88, 0xFC, 0x03, 0x50, 0xBA,
    0x32, 0x7F,
];

/// Mock seal picture: 120x120 RGBA PNG of a red ring.
pub const MOCK_SEAL_PNG: [u8; 503] = [
    0x89, 0x50, 0x4E, 0x47, 0x0D, 0x0A, 0x1A, 0x0A, 0x00, 0x00, 0x00, 0x0D, 0x49, 0x48, 0x44, 0x52,
    0x00, 0x00, 0x00, 0x78, 0x00, 0x00, 0x00, 0x78, 0x08, 0x06, 0x00, 0x00, 0x00, 0x39, 0x64, 0x36,
    0xD2, 0x00, 0x00, 0x01, 0xBE, 0x49, 0x44, 0x41, 0x54, 0x78, 0xDA, 0xED, 0xDD, 0xD1, 0x6D, 0x02,
    0x41, 0x10, 0x44, 0x41, 0xC2, 0x21, 0xFF, 0x78, 0x9C, 0x8B, 0x9D, 0x82, 0x8D, 0x4F, 0x70, 0xFB,
    0xBA, 0x5A, 0xBA, 0x6F, 0x76, 0xBA, 0x98, 0x15, 0x12, 0x42, 0x3C, 0x1E, 0x22, 0x22, 0x22, 0x22,
    0x17, 0xE5, 0xEB, 0xF9, 0xFC, 0x7E, 0xE5, 0xD1, 0x5C, 0x04, 0x12, 0xFC, 0x38, 0x28, 0xF0, 0x51,
    0x58, 0xD0, 0x03, 0xA8, 0xB0, 0xC7, 0x60, 0x41, 0x8F, 0xC0, 0x82, 0x1E, 0x81, 0x05, 0xFD, 0x06,
    0xD8, 0xD2, 0x99, 0xE6, 0x71, 0x9D, 0x35, 0x08, 0xEB, 0xFC, 0x41, 0x5C, 0xF3, 0x44, 0x71, 0xCD,
    0x16, 0x2D, 0xC0, 0x9C, 0x06, 0x36, 0xF7, 0x49, 0x43, 0xFA, 0xCC, 0x71, 0x48, 0x07, 0x70, 0xC3,
    0x5D, 0x80, 0x0D, 0xF7, 0x02, 0x37, 0xDE, 0x0F, 0xDC, 0x70, 0x47, 0x70, 0xC3, 0x5D, 0xC1, 0x0D,
    0x77, 0x06, 0x37, 0xDC, 0x1D, 0xDC, 0x78, 0x87, 0x70, 0xC3, 0x3D, 0xC2, 0x0D, 0xF7, 0x09, 0x37,
    0xDE, 0x2B, 0xDC, 0x70, 0xB7, 0xB6, 0x37, 0xBE, 0xC5, 0x70, 0xC3, 0x5B, 0x0C, 0x37, 0x8E, 0x0C,
    0x38, 0x0C, 0x0C, 0x37, 0x8E, 0x0C, 0x38, 0x0C, 0x0C, 0x37, 0x8E, 0x0C, 0x78, 0x1C, 0x18, 0xC3,
    0x67, 0x91, 0x6D, 0xAF, 0x2D, 0xB6, 0xBD, 0x93, 0x5B, 0x6C, 0x7B, 0xE3, 0x5B, 0x0C, 0x78, 0x1C,
    0x58, 0xED, 0x87, 0x5F, 0xD3, 0x80, 0xC3, 0xC0, 0xAE, 0xE7, 0xF8, 0x35, 0x0D, 0x37, 0xBE, 0xC5,
    0x80, 0x01, 0x0B, 0x60, 0x01, 0x2C, 0xEF, 0x07, 0x86, 0x1B, 0x47, 0x06, 0x0C, 0x58, 0x00, 0x0B,
    0x60, 0x01, 0x2C, 0x80, 0x01, 0x03, 0x06, 0x0C, 0x18, 0x30, 0x60, 0xC0, 0x02, 0x58, 0x00, 0x0B,
    0x60, 0xC0, 0xBE, 0x51, 0x82, 0x0B, 0x18, 0x30, 0x60, 0xC0, 0x02, 0x58, 0x4E, 0x04, 0x86, 0x7C,
    0x3F, 0xDC, 0xCB, 0x7F, 0xDD, 0xA0, 0xF2, 0x43, 0xB7, 0x17, 0x30, 0x60, 0xC8, 0xA7, 0x5F, 0xCF,
    0x80, 0x07, 0x80, 0x5D, 0xD3, 0xE1, 0xEB, 0xD9, 0x16, 0x0F, 0x6C, 0xAF, 0x2D, 0x8E, 0x6F, 0xAF,
    0x2D, 0x1E, 0xD8, 0x5E, 0xC0, 0x03, 0xC0, 0x90, 0xE3, 0xB8, 0x80, 0x07, 0x80, 0x21, 0xC7, 0x71,
    0x01, 0x0F, 0x00, 0x43, 0x8E, 0xE3, 0xFE, 0xF6, 0xC5, 0x21, 0x1F, 0xDE, 0x2F, 0xE0, 0x78, 0xB7,
    0xB6, 0x78, 0xA0, 0x57, 0xC8, 0x03, 0x7D, 0x42, 0x8E, 0xF7, 0xE8, 0x0F, 0xA2, 0x07, 0x3A, 0x84,
    0x3C, 0xD0, 0x1D, 0xE4, 0x81, 0xCE, 0x20, 0x0F, 0x74, 0x05, 0x39, 0xDE, 0xD1, 0x5F, 0x0E, 0xBF,
    0x88, 0x9C, 0xE8, 0x07, 0xF2, 0x40, 0x2F, 0x7F, 0x1D, 0xA6, 0x0C, 0x9D, 0xED, 0x02, 0xF2, 0x40,
    0x07, 0xAF, 0x0C, 0x58, 0x80, 0x9E, 0x9B, 0x7B, 0x65, 0xE0, 0xD5, 0x37, 0xF4, 0xBF, 0x86, 0x3F,
    0xA1, 0x80, 0xF2, 0x6C, 0x6F, 0x2B, 0xE2, 0x8E, 0x65, 0xD4, 0xE6, 0xB9, 0x45, 0x29, 0x9F, 0x2E,
    0xE7, 0xF4, 0xF3, 0x1F, 0x57, 0xD4, 0x3B, 0xCA, 0x3A, 0xE9, 0xAC, 0x59, 0xE4, 0xAB, 0x8A, 0xBC,
    0xE3, 0x99, 0x40, 0xDF, 0xFC, 0x79, 0x48, 0x13, 0x9A, 0x68, 0x14, 0x9A, 0x60, 0x14, 0x9A, 0x58,
    0x10, 0x9B, 0x4C, 0x14, 0x9A, 0x44, 0x0C, 0x5C, 0xD3, 0x11, 0x78, 0xCD, 0x89, 0x88, 0x88, 0xC8,
    0x55, 0xF9, 0x01, 0x46, 0x11, 0x3A, 0x0B, 0x3B, 0x2B, 0xD9, 0xF1, 0x00, 0x00, 0x00, 0x00, 0x49,
    0x45, 0x4E, 0x44, 0xAE, 0x42, 0x60, 0x82,
];

} // verus!
