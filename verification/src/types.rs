//! Data types shared by the engines: signing modes, seal records, UKey replies
//! and engine configuration.
//!
//! Sizes and positions that the host application handles as floating point
//! numbers are carried here as their IEEE-754 bit patterns (`*_bits` fields):
//! the library never computes with them, it only stores and hands them back.

use vstd::prelude::*;
use crate::settings::Settings;

verus! {

/// How a signature is produced.
#[derive(Debug, Clone, Copy, PartialEq, Eq, Structural)]
pub enum SignMode {
    Cloud,
    Ukey,
    Mobile,
}

impl Default for SignMode {
    fn default() -> (r: Self)
        ensures
            r == SignMode::Cloud,
    {
        SignMode::Cloud
    }
}

/// Certificate algorithm.
#[derive(Debug, Clone, Copy, PartialEq, Eq, Structural)]
pub enum Algorithm {
    Rsa,
    Sm2,
}

impl Default for Algorithm {
    fn default() -> (r: Self)
        ensures
            r == Algorithm::Sm2,
    {
        Algorithm::Sm2
    }
}

/// Document format.
#[derive(Debug, Clone, Copy, PartialEq, Eq, Structural)]
pub enum DocType {
    Pdf,
    Ofd,
}

/// How a seal is placed.
#[derive(Debug, Clone, Copy, PartialEq, Eq, Structural)]
pub enum SealMode {
    Place,
    Keyword,
    Seam,
    Draw,
}

/// A seal as the host application describes it.
#[derive(Debug, Clone)]
pub struct SealInfo {
    /// "cloud", "ukey" or "mobile".
    pub origin: String,
    pub seal_id: String,
    pub seal_name: String,
    /// Width in millimetres (IEEE-754 bits of an `f64`).
    pub width_bits: u64,
    /// Height in millimetres (IEEE-754 bits of an `f64`).
    pub height_bits: u64,
    pub seal_type: Option<i32>,
    /// Seal picture, base64.
    pub seal_image: String,
    pub sign_cert_sn: Option<String>,
    pub sign_data: Option<String>,
    /// Signing certificate, base64.
    pub sign_cert: Option<String>,
    pub seal_start_time: Option<String>,
    pub seal_end_time: Option<String>,
    pub signer_name: Option<String>,
    pub sign_time: Option<String>,
    pub sign_method: Option<String>,
    pub cert_issuer: Option<String>,
    pub cert_subject: Option<String>,
    pub cert_start_time: Option<String>,
    pub cert_end_time: Option<String>,
    pub cert_algorithm: Option<String>,
    /// Certificate data, base64.
    pub cert_data: Option<String>,
}

/// A seal placed on a page.
#[derive(Debug, Clone)]
pub struct PlacedSeal {
    pub id: usize,
    pub page_index: u32,
    /// Position and size in PDF points (IEEE-754 bits of `f64` values).
    pub x_bits: u64,
    pub y_bits: u64,
    pub width_bits: u64,
    pub height_bits: u64,
    pub seal_info: SealInfo,
    pub signature: Option<Vec<u8>>,
    pub signed: bool,
}

/// State of an opened document.
#[derive(Debug, Clone)]
pub struct DocState {
    pub file_id: String,
    pub file_name: String,
    pub file_size_kb: u64,
    pub page_count: u32,
    pub current_page: u32,
    pub doc_type: DocType,
    pub is_opened: bool,
    pub seal_count: u32,
    pub signed_count: u32,
    pub raw_data: Vec<u8>,
    pub seals: Vec<PlacedSeal>,
    /// Document properties.
    pub properties: Settings,
}

impl Default for DocState {
    fn default() -> (r: Self)
        ensures
            r.file_id@ == Seq::<char>::empty(),
            r.file_name@ == Seq::<char>::empty(),
            r.file_size_kb == 0,
            r.page_count == 0,
            r.current_page == 0,
            r.doc_type == DocType::Pdf,
            !r.is_opened,
            r.seal_count == 0,
            r.signed_count == 0,
            r.raw_data@.len() == 0,
            r.seals@.len() == 0,
            r.properties@ == Map::<Seq<char>, Seq<char>>::empty(),
    {
        DocState {
            file_id: String::new(),
            file_name: String::new(),
            file_size_kb: 0,
            page_count: 0,
            current_page: 0,
            doc_type: DocType::Pdf,
            is_opened: false,
            seal_count: 0,
            signed_count: 0,
            raw_data: Vec::new(),
            seals: Vec::new(),
            properties: Settings::new(),
        }
    }
}

/// UKey device status.
#[derive(Debug, Clone)]
pub struct UkeyInfo {
    pub status: i32,
    pub errmsg: Option<String>,
    pub retstr: Option<Vec<String>>,
}

/// Seals held by the UKey devices.
#[derive(Debug, Clone)]
pub struct UkeySealList {
    pub dev_list: Vec<UkeyDevice>,
}

/// One UKey device and its seals.
#[derive(Debug, Clone)]
pub struct UkeyDevice {
    pub dev_id: String,
    pub seal_list: Vec<UkeySeal>,
}

/// A seal stored on a UKey.
#[derive(Debug, Clone)]
pub struct UkeySeal {
    pub seal_id: String,
    pub seal_name: String,
}

/// Signing configuration.
#[derive(Debug, Clone)]
pub struct SignConfig {
    pub algorithm: Algorithm,
    pub is_sm2_seal: bool,
    pub sign_mode: SignMode,
    pub file_format: DocType,
    pub sm2_mode: bool,
}

impl Default for SignConfig {
    fn default() -> (r: Self)
        ensures
            r.algorithm == Algorithm::Sm2,
            !r.is_sm2_seal,
            r.sign_mode == SignMode::Cloud,
            r.file_format == DocType::Pdf,
            !r.sm2_mode,
    {
        SignConfig {
            algorithm: Algorithm::Sm2,
            is_sm2_seal: false,
            sign_mode: SignMode::Cloud,
            file_format: DocType::Pdf,
            sm2_mode: false,
        }
    }
}

/// Outcome of one signing.
#[derive(Debug, Clone)]
pub struct SignResult {
    pub success: bool,
    pub seal_index: usize,
    /// Signature, base64.
    pub signature: Option<String>,
    /// Certificate, base64.
    pub cert: Option<String>,
    pub cert_sn: Option<String>,
    pub error: Option<String>,
}

/// Engine-wide configuration.
#[derive(Debug, Clone)]
pub struct EngineConfig {
    pub sign_config: SignConfig,
    /// 1 = external signing.
    pub seal_mode: i32,
    /// Signature format: 7 = PKCS#7, 8 = national standard.
    pub force_type: i32,
    pub single_mode: bool,
}

impl Default for EngineConfig {
    fn default() -> (r: Self)
        ensures
            r.sign_config.algorithm == Algorithm::Sm2,
            !r.sign_config.is_sm2_seal,
            r.sign_config.sign_mode == SignMode::Cloud,
            r.sign_config.file_format == DocType::Pdf,
            !r.sign_config.sm2_mode,
            r.seal_mode == 0,
            r.force_type == 0,
            !r.single_mode,
    {
        EngineConfig {
            sign_config: SignConfig::default(),
            seal_mode: 0,
            force_type: 0,
            single_mode: false,
        }
    }
}

} // verus!
