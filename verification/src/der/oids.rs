//! Object identifiers used by PKCS#7 and the SES seal structures.

use vstd::prelude::*;

verus! {

// PKCS#7 / CMS
pub const PKCS7_DATA: &'static str = "1.2.840.113549.1.7.1";
pub const PKCS7_SIGNED_DATA: &'static str = "1.2.840.113549.1.7.2";

// Signature algorithms
pub const SM2_WITH_SM3: &'static str = "1.2.156.10197.1.501";
pub const RSA_WITH_SHA256: &'static str = "1.2.840.113549.1.1.11";
pub const RSA_WITH_SHA1: &'static str = "1.2.840.113549.1.1.5";

// Digest algorithms
pub const SM3: &'static str = "1.2.156.10197.1.401";
pub const SHA256: &'static str = "2.16.840.1.101.3.4.2.1";
pub const SHA1: &'static str = "1.3.14.3.2.26";

// SM2 public key algorithm
pub const SM2: &'static str = "1.2.156.10197.1.301";

// Attributes
pub const CONTENT_TYPE: &'static str = "1.2.840.113549.1.9.3";
pub const MESSAGE_DIGEST: &'static str = "1.2.840.113549.1.9.4";
pub const SIGNING_TIME: &'static str = "1.2.840.113549.1.9.5";
pub const SIGNING_CERTIFICATE_V2: &'static str = "1.2.840.113549.1.9.16.2.47";

// Electronic seal data types
pub const SES_DATA_TYPE: &'static str = "1.2.156.10197.6.1.4.1";
pub const SES_SEAL_TYPE: &'static str = "1.2.156.10197.6.1.4.2";

} // verus!
