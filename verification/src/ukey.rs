//! UKey hardware access through a local WebSocket proxy.
//!
//! The proxy is not reached from here: the engine answers with the fixed
//! replies of the development setup, and signs with the session SM2 key.

pub mod urlencoding;

use vstd::prelude::*;
use vstd::string::StringSliceAdditionalSpecFns;
use crate::crypto::{b64_encode, base64_text, sm2_sign, Sm2KeyStore};
use crate::text::string_of;
use crate::types::{UkeyDevice, UkeyInfo, UkeySeal, UkeySealList};

verus! {

/// UKey engine: proxy address, cached PIN and connection state.
pub struct UkeyEngine {
    ws_url: String,
    pin_code: Option<String>,
    connected: bool,
}

/// Placeholder seal picture: a 1x1 PNG, base64.
pub const MOCK_SEAL_IMAGE_PNG: &'static str = "iVBORw0KGgoAAAANSUhEUgAAAAEAAAABCAYAAAAfFcSJAAAADUlEQVR42mNk+M9QDwADhgGAWjR9awAAAABJRU5ErkJggg==";

/// Placeholder seal data, before base64.
pub const MOCK_SEAL_DATA: &'static str = "MOCK_SEAL_DATA_FROM_UKEY";

/// Reply of a successful PIN check.
pub const PIN_OK_REPLY: &'static str = "{\"errmsg\":\"\",\"retstr\":[],\"status\":0}";

impl UkeyEngine {
    /// Proxy address of the engine.
    pub closed spec fn url(&self) -> Seq<char> {
        self.ws_url@
    }

    /// PIN cached by the last `verify_pin`.
    pub closed spec fn pin(&self) -> Option<Seq<char>> {
        match self.pin_code {
            Some(p) => Some(p@),
            None => None,
        }
    }

    /// Whether a device is connected.
    pub closed spec fn is_connected(&self) -> bool {
        self.connected
    }

    /// Engine for the local proxy at ws://127.0.0.1:18080/ukey, with no PIN
    /// and no device connected.
    pub fn new() -> (r: Self)
        ensures
            r.url() == "ws://127.0.0.1:18080/ukey"@,
            r.pin() is None,
            !r.is_connected(),
    {
        UkeyEngine { ws_url: string_of("ws://127.0.0.1:18080/ukey"), pin_code: None, connected: false }
    }

    /// Device status: a working device (status 0, no message).
    pub fn get_ukey_info(&self, _param: i32) -> (r: UkeyInfo)
        ensures
            r.status == 0,
            r.errmsg is None,
            r.retstr is None,
    {
        UkeyInfo { status: 0, errmsg: None, retstr: None }
    }

    /// Check a PIN: it is kept for the session and accepted.
    pub fn verify_pin(&mut self, pin_code: &str) -> (r: Result<String, String>)
        ensures
            final(self).pin() == Some(pin_code@),
            final(self).url() == old(self).url(),
            final(self).is_connected() == old(self).is_connected(),
            r is Ok && r->Ok_0@ == PIN_OK_REPLY@,
    {
        self.pin_code = Some(string_of(pin_code));
        Ok(string_of(PIN_OK_REPLY))
    }

    /// The seals on the devices: device "DEV001" holding "SEAL001" (测试公章)
    /// and "SEAL002" (法人章).
    pub fn seal_list(&self) -> (r: UkeySealList)
        ensures
            r.dev_list@.len() == 1,
            r.dev_list@[0].dev_id@ == "DEV001"@,
            r.dev_list@[0].seal_list@.len() == 2,
            r.dev_list@[0].seal_list@[0].seal_id@ == "SEAL001"@,
            r.dev_list@[0].seal_list@[0].seal_name@ == "测试公章"@,
            r.dev_list@[0].seal_list@[1].seal_id@ == "SEAL002"@,
            r.dev_list@[0].seal_list@[1].seal_name@ == "法人章"@,
    {
        let mut seals: Vec<UkeySeal> = Vec::new();
        seals.push(UkeySeal { seal_id: string_of("SEAL001"), seal_name: string_of("测试公章") });
        seals.push(UkeySeal { seal_id: string_of("SEAL002"), seal_name: string_of("法人章") });
        let mut devs: Vec<UkeyDevice> = Vec::new();
        devs.push(UkeyDevice { dev_id: string_of("DEV001"), seal_list: seals });
        UkeySealList { dev_list: devs }
    }

    /// Picture of a seal, base64 (a 1x1 placeholder PNG).
    pub fn get_seal_image(&self, _dev_id: &str, _seal_id: &str) -> (r: Result<String, String>)
        ensures
            r is Ok && r->Ok_0@ == MOCK_SEAL_IMAGE_PNG@,
    {
        Ok(string_of(MOCK_SEAL_IMAGE_PNG))
    }

    /// Data of a seal, base64.
    pub fn get_seal_data(&self, _dev_id: &str, _seal_id: &str) -> (r: Result<String, String>)
        ensures
            r is Ok && r->Ok_0@ == base64_text(crate::ses::utf8(MOCK_SEAL_DATA@)),
    {
        Ok(b64_encode(MOCK_SEAL_DATA.as_bytes()))
    }

    /// Certificate of the device: the SM2 public key, base64.
    pub fn get_current_cert(&self) -> (r: Option<String>)
        ensures
            r is Some && r->0@ == crate::crypto::MOCK_SM2_CERT@,
    {
        Some(string_of(crate::crypto::MOCK_SM2_CERT))
    }

    /// Sign `data` (its UTF-8 bytes) with the session SM2 key; the signature
    /// is returned base64.
    pub fn sign_data(&self, store: &mut Sm2KeyStore, data: &str, _pin_code: &str) -> (r: Result<String, String>)
        ensures
            old(store).ensured(*final(store)),
    {
        match sm2_sign(store, data.as_bytes(), &[]) {
            Ok(sig) => Ok(b64_encode(sig.as_slice())),
            Err(e) => Err(e),
        }
    }
}

/// The seal list reply: the JSON text of the list, base64, then URL-encoded.
pub fn encode_seal_list_json(json: &str) -> (r: String)
    ensures
        r@ == urlencoding::url_encoded(base64_text(crate::ses::utf8(json@))),
{
    let b64 = b64_encode(json.as_bytes());
    urlencoding::encode(b64.as_str())
}

impl Default for UkeyEngine {
    fn default() -> (r: Self)
        ensures
            r.url() == "ws://127.0.0.1:18080/ukey"@,
            r.pin() is None,
            !r.is_connected(),
    {
        Self::new()
    }
}

} // verus!
