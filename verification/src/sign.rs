//! Signing engine: digest of the data to be signed, assembly of the
//! SES_Signature and PKCS#7 once the external signature comes back, and the
//! engine's settings.

use vstd::prelude::*;
use vstd::string::StringSliceAdditionalSpecFns;
use crate::crypto::sm2_verdict;
use crate::crypto::{
    b64_decode, b64_encode, base64_bytes, base64_or_empty, base64_text, hex_decode, hex_decoded,
    hex_encode, hex_lower, mock_rsa_signature, rsa_sign, sha256_digest, sha256_hex, sm2_sign,
    Sm2KeyStore, MOCK_RSA_CERT, MOCK_SM2_CERT,
};
use crate::pkcs7::{build_mock_pkcs7, spec_pkcs7_signed_data, spec_auth_attr_list};
use crate::der::spec_tlv;
use crate::ses::{
    build_ses_signature, build_tbs_sign, digest, digest_of, mock_cert, mock_signature_of,
    params_from_seal, ses_params_from_seal_info, spec_ses_signature, spec_tbs_sign, utf8, SealAlgorithm,
};
use crate::settings::Settings;
use crate::text::{
    dec_chars, has_prefix, push_decimal, push_str, signed_dec_chars, signed_decimal_string,
    starts_with, string_from_chars, string_of, strip_prefixes, trim_start_matches_str, chars_of,
};
use crate::types::SealInfo;

verus! {

/// Reply of the cloud signing service.
#[derive(Debug, Clone)]
pub struct CloudSignResponse {
    /// Signature, base64.
    pub sign_result: String,
    /// Certificate, base64.
    pub sign_cert: Option<String>,
    pub sign_cert_sn: Option<String>,
    pub msg: Option<String>,
    pub code: i32,
}

/// Signing engine state.
pub struct SignEngine {
    /// Certificate of the current session, base64.
    pub current_cert: Option<String>,
    settings: Settings,
    last_error: i32,
    last_error_string: String,
    pending_doc_data: Option<Vec<u8>>,
    pending_seal_info: Option<SealInfo>,
    pending_pkcs7: Option<Vec<u8>>,
    algorithm: SealAlgorithm,
}

/// Algorithm chosen by a signature format type: 2 (national standard seal)
/// and 3 (PKCS#7 seal) use SM2, the others RSA.
pub open spec fn algorithm_for_type(l_type: i32) -> SealAlgorithm {
    if l_type == 2 || l_type == 3 {
        SealAlgorithm::Sm2
    } else {
        SealAlgorithm::Rsa
    }
}

/// Prefix of the key that hands back an external signature.
pub open spec fn sign_key_prefix() -> Seq<char> {
    "SET_AIPSIGN_ORIDATA:"@
}

/// Bytes of an external signature: hex (an optional leading `0x`, or any text
/// of even byte length) when it decodes as hex, else base64, else nothing.
pub open spec fn signature_value_of(signdata: Seq<char>) -> Seq<u8> {
    if has_prefix(signdata, "0x"@) || utf8(signdata).len() % 2 == 0 {
        match hex_decoded(utf8(strip_prefixes(signdata, "0x"@))) {
            Some(v) => v,
            None => base64_or_empty(signdata),
        }
    } else {
        base64_or_empty(signdata)
    }
}

/// The settings text of a boolean.
pub open spec fn bool_text(b: bool) -> Seq<char> {
    if b {
        "true"@
    } else {
        "false"@
    }
}

impl SignEngine {
    /// The current certificate's text.
    pub closed spec fn current_cert_view(&self) -> Option<Seq<char>> {
        match self.current_cert {
            Some(c) => Some(c@),
            None => None,
        }
    }

    /// The settings, as a map.
    pub closed spec fn settings_view(&self) -> Map<Seq<char>, Seq<char>> {
        self.settings@
    }

    /// Last error code.
    pub closed spec fn last_error_code(&self) -> i32 {
        self.last_error
    }

    /// Last error text.
    pub closed spec fn last_error_text(&self) -> Seq<char> {
        self.last_error_string@
    }

    /// Document data waiting to be signed.
    pub closed spec fn pending_doc(&self) -> Option<Seq<u8>> {
        match self.pending_doc_data {
            Some(d) => Some(d@),
            None => None,
        }
    }

    /// Seal waiting to be signed.
    pub closed spec fn pending_seal(&self) -> Option<SealInfo> {
        self.pending_seal_info
    }

    /// PKCS#7 value built by the last successful `set_value_ex`.
    pub closed spec fn pending_pkcs7_view(&self) -> Option<Seq<u8>> {
        match self.pending_pkcs7 {
            Some(d) => Some(d@),
            None => None,
        }
    }

    /// Current signature algorithm.
    pub closed spec fn algorithm_view(&self) -> SealAlgorithm {
        self.algorithm
    }

    /// Engine with the default settings (SM2 mode off, seal alpha 180, empty
    /// UKey PIN), no pending data and the SM2 algorithm.
    pub fn new() -> (r: Self)
        ensures
            r.settings_view() == Map::<Seq<char>, Seq<char>>::empty().insert("SET_JAVA_SM2MODE"@, "0"@).insert(
                "SET_PDFSEAL_ALPHA"@,
                "180"@,
            ).insert("SET_SKFKEY_PIN"@, Seq::<char>::empty()),
            r.current_cert_view() is None,
            r.last_error_code() == 0,
            r.last_error_text() == Seq::<char>::empty(),
            r.pending_doc() is None,
            r.pending_seal() is None,
            r.pending_pkcs7_view() is None,
            r.algorithm_view() == SealAlgorithm::Sm2,
    {
        let mut settings = Settings::new();
        settings.insert("SET_JAVA_SM2MODE", "0");
        settings.insert("SET_PDFSEAL_ALPHA", "180");
        settings.insert("SET_SKFKEY_PIN", "");
        proof {
            reveal_strlit("");
            assert(""@ =~= Seq::<char>::empty());
        }
        SignEngine {
            current_cert: None,
            settings,
            last_error: 0,
            last_error_string: String::new(),
            pending_doc_data: None,
            pending_seal_info: None,
            pending_pkcs7: None,
            algorithm: SealAlgorithm::Sm2,
        }
    }

    /// Set the document and the seal to be signed next; a previous PKCS#7
    /// value is dropped.
    pub fn prepare_for_signing(&mut self, doc_data: Vec<u8>, seal_info: SealInfo)
        ensures
            final(self).pending_doc() == Some(doc_data@),
            final(self).pending_seal() == Some(seal_info),
            final(self).pending_pkcs7_view() is None,
            final(self).settings_view() == old(self).settings_view(),
            final(self).algorithm_view() == old(self).algorithm_view(),
            final(self).current_cert_view() == old(self).current_cert_view(),
            final(self).last_error_code() == old(self).last_error_code(),
            final(self).last_error_text() == old(self).last_error_text(),
    {
        self.pending_doc_data = Some(doc_data);
        self.pending_seal_info = Some(seal_info);
        self.pending_pkcs7 = None;
    }

    /// Set the signature algorithm.
    pub fn set_algorithm(&mut self, algorithm: SealAlgorithm)
        ensures
            final(self).algorithm_view() == algorithm,
            final(self).settings_view() == old(self).settings_view(),
            final(self).pending_doc() == old(self).pending_doc(),
            final(self).pending_seal() == old(self).pending_seal(),
            final(self).pending_pkcs7_view() == old(self).pending_pkcs7_view(),
            final(self).current_cert_view() == old(self).current_cert_view(),
    {
        self.algorithm = algorithm;
    }

    /// The PKCS#7 value built by the last successful `set_value_ex`.
    pub fn get_pending_pkcs7(&self) -> (r: Option<&[u8]>)
        ensures
            match r {
                Some(v) => self.pending_pkcs7_view() == Some(v@),
                None => self.pending_pkcs7_view() is None,
            },
    {
        match &self.pending_pkcs7 {
            Some(v) => Some(v.as_slice()),
            None => None,
        }
    }

    /// Set a configuration value. Every key is stored with its value; besides,
    /// ADD_FORCETYPE_VALUE8 / ADD_FORCETYPE_VALUE7 set `force_type` to 8 / 7,
    /// DEL_FORCETYPE_VALUE8 removes it, and SET_JMJSERVER_GMCERTDATA makes the
    /// value the current certificate.
    pub fn set_value(&mut self, key: &str, value: &str)
        ensures
            key@ == "ADD_FORCETYPE_VALUE8"@ ==> final(self).settings_view() == old(self).settings_view().insert(
                "force_type"@,
                "8"@,
            ).insert(key@, value@),
            key@ == "ADD_FORCETYPE_VALUE7"@ ==> final(self).settings_view() == old(self).settings_view().insert(
                "force_type"@,
                "7"@,
            ).insert(key@, value@),
            key@ == "DEL_FORCETYPE_VALUE8"@ ==> final(self).settings_view() == old(self).settings_view().remove("force_type"@).insert(key@, value@),
            key@ != "ADD_FORCETYPE_VALUE8"@ && key@ != "ADD_FORCETYPE_VALUE7"@ && key@
                != "DEL_FORCETYPE_VALUE8"@ ==> final(self).settings_view() == old(self).settings_view().insert(
                key@,
                value@,
            ),
            key@ == "SET_JMJSERVER_GMCERTDATA"@ ==> final(self).current_cert_view() == Some(value@),
            key@ != "SET_JMJSERVER_GMCERTDATA"@ ==> final(self).current_cert_view() == old(self).current_cert_view(),
            final(self).pending_doc() == old(self).pending_doc(),
            final(self).pending_seal() == old(self).pending_seal(),
            final(self).pending_pkcs7_view() == old(self).pending_pkcs7_view(),
            final(self).algorithm_view() == old(self).algorithm_view(),
    {
        proof {
            reveal_strlit("ADD_FORCETYPE_VALUE8");
            reveal_strlit("ADD_FORCETYPE_VALUE7");
            reveal_strlit("DEL_FORCETYPE_VALUE8");
            reveal_strlit("SET_JMJSERVER_GMCERTDATA");
            assert("ADD_FORCETYPE_VALUE8"@[19] != "ADD_FORCETYPE_VALUE7"@[19]);
            assert("ADD_FORCETYPE_VALUE8"@[0] != "DEL_FORCETYPE_VALUE8"@[0]);
            assert("ADD_FORCETYPE_VALUE7"@[0] != "DEL_FORCETYPE_VALUE8"@[0]);
            assert("ADD_FORCETYPE_VALUE8"@ != "ADD_FORCETYPE_VALUE7"@);
            assert("ADD_FORCETYPE_VALUE8"@ != "DEL_FORCETYPE_VALUE8"@);
            assert("ADD_FORCETYPE_VALUE7"@ != "DEL_FORCETYPE_VALUE8"@);
            assert("SET_JMJSERVER_GMCERTDATA"@ != "ADD_FORCETYPE_VALUE8"@);
            assert("SET_JMJSERVER_GMCERTDATA"@ != "ADD_FORCETYPE_VALUE7"@);
            assert("SET_JMJSERVER_GMCERTDATA"@ != "DEL_FORCETYPE_VALUE8"@);
        }
        if crate::text::str_eq(key, "ADD_FORCETYPE_VALUE8") {
            self.settings.insert("force_type", "8");
            self.settings.insert(key, value);
        } else if crate::text::str_eq(key, "DEL_FORCETYPE_VALUE8") {
            self.settings.remove("force_type");
            self.settings.insert(key, value);
        } else if crate::text::str_eq(key, "ADD_FORCETYPE_VALUE7") {
            self.settings.insert("force_type", "7");
            self.settings.insert(key, value);
        } else if crate::text::str_eq(key, "SET_JMJSERVER_GMCERTDATA") {
            self.current_cert = Some(string_of(value));
            self.settings.insert(key, value);
        } else {
            self.settings.insert(key, value);
        }
    }

    /// A configuration value: the current certificate for GET_CURRENT_CERT,
    /// nothing for GET_LAST_SEAL, else the stored setting.
    pub fn get_value(&self, key: &str) -> (r: Option<String>)
        ensures
            key@ == "GET_CURRENT_CERT"@ ==> match r {
                Some(v) => self.current_cert_view() == Some(v@),
                None => self.current_cert_view() is None,
            },
            key@ == "GET_LAST_SEAL"@ ==> r is None,
            key@ != "GET_CURRENT_CERT"@ && key@ != "GET_LAST_SEAL"@ ==> match r {
                Some(v) => self.settings_view().contains_key(key@) && self.settings_view()[key@] == v@,
                None => !self.settings_view().contains_key(key@),
            },
    {
        proof {
            reveal_strlit("GET_CURRENT_CERT");
            reveal_strlit("GET_LAST_SEAL");
            assert("GET_LAST_SEAL"@.len() == 13);
            assert("GET_CURRENT_CERT"@.len() == 16);
            assert("GET_LAST_SEAL"@ != "GET_CURRENT_CERT"@);
        }
        if crate::text::str_eq(key, "GET_CURRENT_CERT") {
            self.current_cert.clone()
        } else if crate::text::str_eq(key, "GET_LAST_SEAL") {
            None
        } else {
            self.settings.get(key)
        }
    }

    /// Digest of the TBS_Sign to be signed externally, as lower-case hex.
    ///
    /// Only the key GET_AIPSIGN_ORIDATA is known. The type chooses the
    /// algorithm (kept by the engine even when a later step fails); the
    /// document and the seal must have been prepared. The TBS_Sign (base64)
    /// and the document digest (base64) are kept as `pending_tbs_der` and
    /// `pending_doc_hash`.
    pub fn get_value_ex(&mut self, key: &str, l_type: i32) -> (r: Result<String, String>)
        ensures
            key@ != "GET_AIPSIGN_ORIDATA"@ ==> r is Err && r->Err_0@ == "未知的 GetValueEx key: "@ + key@
                && final(self).settings_view() == old(self).settings_view()
                && final(self).algorithm_view() == old(self).algorithm_view(),
            key@ == "GET_AIPSIGN_ORIDATA"@ ==> final(self).algorithm_view() == algorithm_for_type(l_type),
            key@ == "GET_AIPSIGN_ORIDATA"@ && old(self).pending_doc() is None ==> r is Err && r->Err_0@
                == "未设置待签名文档数据, 请先调用 prepare_for_signing"@ && final(self).settings_view()
                == old(self).settings_view(),
            key@ == "GET_AIPSIGN_ORIDATA"@ && old(self).pending_doc() is Some && old(self).pending_seal() is None
                ==> r is Err && r->Err_0@ == "未设置印章信息"@ && final(self).settings_view() == old(self).settings_view(),
            key@ == "GET_AIPSIGN_ORIDATA"@ && old(self).pending_doc() is Some && old(self).pending_seal() is Some
                ==> ({
                let alg = algorithm_for_type(l_type);
                let p = params_from_seal(old(self).pending_seal()->0, alg);
                let doc_hash = digest_of(alg, old(self).pending_doc()->0);
                let tbs = spec_tbs_sign(p, doc_hash);
                &&& r is Ok
                &&& r->Ok_0@ == hex_lower(digest_of(alg, tbs))
                &&& final(self).settings_view() == old(self).settings_view().insert(
                    "pending_tbs_der"@,
                    base64_text(tbs),
                ).insert("pending_doc_hash"@, base64_text(doc_hash))
            }),
            final(self).pending_doc() == old(self).pending_doc(),
            final(self).pending_seal() == old(self).pending_seal(),
            final(self).pending_pkcs7_view() == old(self).pending_pkcs7_view(),
            final(self).current_cert_view() == old(self).current_cert_view(),
    {
        if !crate::text::str_eq(key, "GET_AIPSIGN_ORIDATA") {
            let mut msg = string_of("未知的 GetValueEx key: ");
            push_str(&mut msg, key);
            return Err(msg);
        }
        let algorithm = if l_type == 2 || l_type == 3 {
            SealAlgorithm::Sm2
        } else {
            SealAlgorithm::Rsa
        };
        self.algorithm = algorithm;
        let doc_data = match &self.pending_doc_data {
            Some(d) => d,
            None => {
                return Err(string_of("未设置待签名文档数据, 请先调用 prepare_for_signing"));
            },
        };
        let seal_info = match &self.pending_seal_info {
            Some(s) => s,
            None => {
                return Err(string_of("未设置印章信息"));
            },
        };
        let ses_params = ses_params_from_seal_info(seal_info, algorithm);
        let doc_hash = digest(algorithm, doc_data.as_slice());
        let tbs_sign_der = build_tbs_sign(&ses_params, doc_hash.as_slice());
        let tbs_hash = digest(algorithm, tbs_sign_der.as_slice());
        let tbs_b64 = b64_encode(tbs_sign_der.as_slice());
        let hash_b64 = b64_encode(doc_hash.as_slice());
        self.settings.insert("pending_tbs_der", tbs_b64.as_str());
        self.settings.insert("pending_doc_hash", hash_b64.as_str());
        Ok(hex_encode(tbs_hash.as_slice()))
    }

    /// Keep a finished PKCS#7 value: it becomes pending, `cert_pk` becomes the
    /// current certificate, the result is recorded and the pending TBS_Sign is
    /// dropped from the settings.
    fn record_signature(&mut self, cert_pk: String, l_type: i32, pkcs7_der: Vec<u8>)
        ensures
            final(self).pending_pkcs7_view() == Some(pkcs7_der@),
            final(self).current_cert_view() == Some(cert_pk@),
            final(self).settings_view() == settings_after_sign(
                old(self).settings_view(),
                pkcs7_der@,
                cert_pk@,
                l_type,
            ),
            final(self).pending_doc() == old(self).pending_doc(),
            final(self).pending_seal() == old(self).pending_seal(),
            final(self).algorithm_view() == old(self).algorithm_view(),
    {
        let pkcs7_b64 = b64_encode(pkcs7_der.as_slice());
        self.pending_pkcs7 = Some(pkcs7_der);
        self.settings.insert("last_sign_result", pkcs7_b64.as_str());
        self.settings.insert("last_sign_cert", cert_pk.as_str());
        let type_text = signed_decimal_string(l_type as i64);
        self.settings.insert("last_sign_type", type_text.as_str());
        self.settings.remove("pending_tbs_der");
        self.settings.remove("pending_doc_hash");
        self.current_cert = Some(cert_pk);
    }

    /// Assemble the signature once the external signature comes back.
    ///
    /// The key is `SET_AIPSIGN_ORIDATA:` followed by the certificate (base64). An empty signature records error -1 and answers 0.
    /// Otherwise the pending TBS_Sign must be there; the signature (hex or
    /// base64) goes into an SES_Signature, which the mock signer wraps in
    /// PKCS#7. The PKCS#7 value becomes pending, the certificate current, the
    /// result is recorded in the settings and the pending TBS_Sign dropped;
    /// the answer is 1.
    #[verifier::rlimit(40)]
    pub fn set_value_ex(
        &mut self,
        store: &mut Sm2KeyStore,
        key: &str,
        l_type: i32,
        _reserved: i32,
        signdata: &str,
    ) -> (r: Result<i32, String>)
        ensures
            !has_prefix(key@, sign_key_prefix()) ==> r is Err && r->Err_0@ == "未知的 SetValueEx key: "@ + key@
                && final(self).settings_view() == old(self).settings_view(),
            has_prefix(key@, sign_key_prefix()) && signdata@.len() == 0 ==> r == Ok::<i32, String>(0)
                && final(self).last_error_code() == -1 && final(self).last_error_text() == "签名数据为空"@
                && final(self).settings_view() == old(self).settings_view(),
            has_prefix(key@, sign_key_prefix()) && signdata@.len() > 0 && !pending_tbs_readable(
                old(self).settings_view(),
            ) ==> r is Err && r->Err_0@ == "未找到待签名数据, 请先调用 get_value_ex"@
                && final(self).settings_view() == old(self).settings_view(),
            has_prefix(key@, sign_key_prefix()) && signdata@.len() > 0 && pending_tbs_readable(
                old(self).settings_view(),
            ) && old(self).pending_seal() is None ==> r is Err && r->Err_0@ == "未设置印章信息"@
                && final(self).settings_view() == old(self).settings_view(),
            has_prefix(key@, sign_key_prefix()) && signdata@.len() > 0 && pending_tbs_readable(
                old(self).settings_view(),
            ) && old(self).pending_seal() is Some ==> {
                &&& r == Ok::<i32, String>(1)
                &&& final(self).pending_pkcs7_view() is Some
                &&& signed_pkcs7(
                    old(self).algorithm_view(),
                    old(self).pending_seal()->0,
                    pending_doc_hash_of(old(self).settings_view()),
                    signature_value_of(signdata@),
                    final(self).pending_pkcs7_view()->0,
                )
                &&& final(self).current_cert_view() == Some(key@.subrange(20, key@.len() as int))
                &&& final(self).settings_view() == settings_after_sign(
                    old(self).settings_view(),
                    final(self).pending_pkcs7_view()->0,
                    key@.subrange(20, key@.len() as int),
                    l_type,
                )
            },
            final(self).pending_doc() == old(self).pending_doc(),
            final(self).pending_seal() == old(self).pending_seal(),
            final(self).algorithm_view() == old(self).algorithm_view(),
            old(store).ensured(*final(store)) || *final(store) == *old(store),
    {
        if !starts_with(key, "SET_AIPSIGN_ORIDATA:") {
            let mut msg = string_of("未知的 SetValueEx key: ");
            push_str(&mut msg, key);
            return Err(msg);
        }
        let key_chars = chars_of(key);
        proof {
            reveal_strlit("SET_AIPSIGN_ORIDATA:");
        }
        assert(sign_key_prefix().len() == 20);
        let cert_pk = string_from_chars(key_chars.as_slice(), 20, key_chars.len());
        if signdata.is_empty() {
            self.last_error = -1;
            self.last_error_string = string_of("签名数据为空");
            return Ok(0);
        }
        let tbs_readable = match self.settings.get("pending_tbs_der") {
            Some(s) => b64_decode(s.as_str()).is_ok(),
            None => false,
        };
        if !tbs_readable {
            return Err(string_of("未找到待签名数据, 请先调用 get_value_ex"));
        }
        let doc_hash: Vec<u8> = match self.settings.get("pending_doc_hash") {
            Some(s) => match b64_decode(s.as_str()) {
                Ok(v) => v,
                Err(_) => Vec::new(),
            },
            None => Vec::new(),
        };
        let signature_value = signature_value(signdata);
        let pkcs7_der = match &self.pending_seal_info {
            Some(seal_info) => assemble_pkcs7(
                store,
                self.algorithm,
                seal_info,
                doc_hash.as_slice(),
                signature_value.as_slice(),
            ),
            None => {
                return Err(string_of("未设置印章信息"));
            },
        };
        self.record_signature(cert_pk, l_type, pkcs7_der);
        Ok(1)
    }

    /// SHA-256 (hex) of the document waiting to be signed.
    pub fn get_sign_sha_data(&mut self) -> (r: Result<String, String>)
        ensures
            match old(self).pending_doc() {
                Some(d) => r is Ok && r->Ok_0@ == hex_lower(sha256_digest(d)),
                None => r is Err && r->Err_0@ == "未设置待签名文档数据"@,
            },
            *final(self) == *old(self),
    {
        match &self.pending_doc_data {
            Some(d) => Ok(sha256_hex(d.as_slice())),
            None => Err(string_of("未设置待签名文档数据")),
        }
    }

    /// Cloud signing: RSA when the data format is "p7a", SM2 otherwise; the
    /// signature is base64 and comes with the mock certificate of its
    /// algorithm and the serial number `MOCK_SN_` followed by `cert_sn`.
    pub fn cloud_sign(
        &self,
        store: &mut Sm2KeyStore,
        _file_id: &str,
        cert_sn: &str,
        sign_content: &str,
        _data_type: &str,
        data_format: &str,
        _seal_id: &str,
    ) -> (r: Result<CloudSignResponse, String>)
        ensures
            data_format@ == "p7a"@ ==> r is Ok && r->Ok_0.sign_result@ == base64_text(
                mock_rsa_signature(utf8(sign_content@)),
            ) && r->Ok_0.sign_cert is Some && r->Ok_0.sign_cert->0@ == MOCK_RSA_CERT@,
            data_format@ != "p7a"@ && r is Ok ==> r->Ok_0.sign_cert is Some && r->Ok_0.sign_cert->0@
                == MOCK_SM2_CERT@,
            data_format@ != "p7a"@ && r is Ok && final(store).matched() ==> exists|sig: Seq<u8>|
                r->Ok_0.sign_result@ == #[trigger] base64_text(sig) && sm2_verdict(
                    utf8(sign_content@),
                    final(store).pubkey_view(),
                    sig,
                ) == Some(true),
            data_format@ != "p7a"@ && old(store).pair is None ==> final(store).matched(),
            r is Ok ==> r->Ok_0.code == 200 && r->Ok_0.msg is None && r->Ok_0.sign_cert_sn is Some
                && r->Ok_0.sign_cert_sn->0@ == "MOCK_SN_"@ + cert_sn@,
            old(store).ensured(*final(store)) || *final(store) == *old(store),
    {
        let (sign_result, sign_cert) = if crate::text::str_eq(data_format, "p7a") {
            let sig = match rsa_sign(sign_content.as_bytes()) {
                Ok(s) => s,
                Err(e) => {
                    return Err(e);
                },
            };
            (b64_encode(sig.as_slice()), string_of(MOCK_RSA_CERT))
        } else {
            let sig = match sm2_sign(store, sign_content.as_bytes(), &[]) {
                Ok(s) => s,
                Err(e) => {
                    return Err(e);
                },
            };
            let text = b64_encode(sig.as_slice());
            assert(text@ == base64_text(sig@));
            (text, string_of(MOCK_SM2_CERT))
        };
        let mut sn = string_of("MOCK_SN_");
        push_str(&mut sn, cert_sn);
        Ok(CloudSignResponse { sign_result, sign_cert: Some(sign_cert), sign_cert_sn: Some(sn), msg: None, code: 200 })
    }

    /// UKey signing with the session SM2 key: the signature, base64. The
    /// signature's bytes rest on a random nonce; what holds of every outcome
    /// is that it verifies with the session's public key.
    pub fn ukey_sign(&self, store: &mut Sm2KeyStore, data: &str, _pin_code: &str) -> (r: Result<String, String>)
        ensures
            old(store).ensured(*final(store)),
            old(store).pair is None ==> final(store).matched(),
            old(store).matched() ==> final(store).matched(),
            r is Ok && final(store).matched() ==> exists|sig: Seq<u8>|
                r->Ok_0@ == #[trigger] base64_text(sig) && sm2_verdict(utf8(data@), final(store).pubkey_view(), sig)
                    == Some(true),
    {
        match sm2_sign(store, data.as_bytes(), &[]) {
            Ok(sig) => {
                let text = b64_encode(sig.as_slice());
                assert(text@ == base64_text(sig@));
                Ok(text)
            },
            Err(e) => Err(e),
        }
    }

    /// The last error code.
    pub fn get_re_value(&self) -> (r: i32)
        ensures
            r == self.last_error_code(),
    {
        self.last_error
    }

    /// The last error text, or 未知错误 when there is none.
    pub fn get_error_string(&self, _code: &str) -> (r: String)
        ensures
            self.last_error_text().len() > 0 ==> r@ == self.last_error_text(),
            self.last_error_text().len() == 0 ==> r@ == "未知错误"@,
    {
        if !self.last_error_string.as_str().is_empty() {
            self.last_error_string.clone()
        } else {
            string_of("未知错误")
        }
    }

    /// Reload the document view: nothing to do here.
    pub fn reload_doc_data(&self, _action: &str) -> (r: Result<(), String>)
        ensures
            r is Ok,
    {
        Ok(())
    }

    /// Record the seal mode (`seal_mode`, in decimal).
    pub fn set_seal_mode(&mut self, mode: i32)
        ensures
            final(self).settings_view() == old(self).settings_view().insert(
                "seal_mode"@,
                signed_dec_chars(mode as int),
            ),
            final(self).pending_doc() == old(self).pending_doc(),
            final(self).pending_seal() == old(self).pending_seal(),
            final(self).pending_pkcs7_view() == old(self).pending_pkcs7_view(),
            final(self).algorithm_view() == old(self).algorithm_view(),
            final(self).current_cert_view() == old(self).current_cert_view(),
    {
        let text = signed_decimal_string(mode as i64);
        self.settings.insert("seal_mode", text.as_str());
    }

    /// Record the single file mode (`single_mode`, "true" or "false").
    pub fn set_single_mode(&mut self, enabled: bool)
        ensures
            final(self).settings_view() == old(self).settings_view().insert("single_mode"@, bool_text(enabled)),
            final(self).pending_doc() == old(self).pending_doc(),
            final(self).pending_seal() == old(self).pending_seal(),
            final(self).pending_pkcs7_view() == old(self).pending_pkcs7_view(),
            final(self).algorithm_view() == old(self).algorithm_view(),
            final(self).current_cert_view() == old(self).current_cert_view(),
    {
        if enabled {
            self.settings.insert("single_mode", "true");
        } else {
            self.settings.insert("single_mode", "false");
        }
    }
}

impl Default for SignEngine {
    fn default() -> (r: Self)
        ensures
            r.current_cert_view() is None,
            r.pending_doc() is None,
            r.pending_seal() is None,
            r.pending_pkcs7_view() is None,
            r.algorithm_view() == SealAlgorithm::Sm2,
    {
        Self::new()
    }
}

/// Whether the settings hold a pending TBS_Sign that decodes as base64.
pub open spec fn pending_tbs_readable(settings: Map<Seq<char>, Seq<char>>) -> bool {
    settings.contains_key("pending_tbs_der"@) && base64_bytes(settings["pending_tbs_der"@]) is Some
}

/// The pending document digest: what `pending_doc_hash` decodes to, or nothing.
pub open spec fn pending_doc_hash_of(settings: Map<Seq<char>, Seq<char>>) -> Seq<u8> {
    if settings.contains_key("pending_doc_hash"@) {
        base64_or_empty(settings["pending_doc_hash"@])
    } else {
        Seq::empty()
    }
}

/// Whether `pkcs7` is what the mock signer makes of an external signature:
/// PKCS#7 around the SES_Signature of the seal, the document digest and the
/// signature value.
pub open spec fn signed_pkcs7(
    alg: SealAlgorithm,
    info: SealInfo,
    doc_hash: Seq<u8>,
    signature: Seq<u8>,
    pkcs7: Seq<u8>,
) -> bool {
    let p = params_from_seal(info, alg);
    let ses_sig = spec_ses_signature(p, doc_hash, signature);
    exists|sig: Seq<u8>|
        pkcs7 == spec_pkcs7_signed_data(alg, mock_cert(alg), ses_sig, doc_hash, p.sign_time, sig)
            && mock_signature_of(
            alg,
            digest_of(alg, spec_tlv(0x31, spec_auth_attr_list(doc_hash, p.sign_time))),
            sig,
        )
}

/// The settings after a signature is assembled: the result (base64), the
/// certificate and the type are recorded, the pending TBS_Sign is dropped.
pub open spec fn settings_after_sign(
    settings: Map<Seq<char>, Seq<char>>,
    pkcs7: Seq<u8>,
    cert_pk: Seq<char>,
    l_type: i32,
) -> Map<Seq<char>, Seq<char>> {
    settings.insert("last_sign_result"@, base64_text(pkcs7)).insert("last_sign_cert"@, cert_pk).insert(
        "last_sign_type"@,
        signed_dec_chars(l_type as int),
    ).remove("pending_tbs_der"@).remove("pending_doc_hash"@)
}

/// PKCS#7 around the SES_Signature of a seal, made by the mock signer.
fn assemble_pkcs7(
    store: &mut Sm2KeyStore,
    alg: SealAlgorithm,
    seal_info: &SealInfo,
    doc_hash: &[u8],
    signature: &[u8],
) -> (r: Vec<u8>)
    ensures
        signed_pkcs7(alg, *seal_info, doc_hash@, signature@, r@),
        old(store).ensured(*final(store)) || *final(store) == *old(store),
{
    let ses_params = ses_params_from_seal_info(seal_info, alg);
    let ses_sig_der = build_ses_signature(&ses_params, doc_hash, signature);
    build_mock_pkcs7(alg, ses_sig_der.as_slice(), doc_hash, ses_params.sign_time, store)
}

/// Bytes of an external signature (see `signature_value_of`).
fn signature_value(signdata: &str) -> (r: Vec<u8>)
    ensures
        r@ == signature_value_of(signdata@),
{
    if starts_with(signdata, "0x") || signdata.as_bytes().len() % 2 == 0 {
        let trimmed = trim_start_matches_str(signdata, "0x");
        match hex_decode(trimmed.as_str().as_bytes()) {
            Ok(v) => v,
            Err(_) => match b64_decode(signdata) {
                Ok(v) => v,
                Err(_) => Vec::new(),
            },
        }
    } else {
        match b64_decode(signdata) {
            Ok(v) => v,
            Err(_) => Vec::new(),
        }
    }
}

} // verus!
