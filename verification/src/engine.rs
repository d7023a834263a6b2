//! The document engine: what a loaded document is, how its page count is read
//! off a PDF, its properties and seals, and the certificate found in a
//! signature's PKCS#7 value.

use vstd::prelude::*;
use crate::crypto::{b64_encode, base64_text, file_left_md5, hex_lower, md5_digest, sha256_base64, sha256_digest};
use crate::font_embed::{lowercase_of, to_lowercase};
use crate::seal::{occurs, occurs_exec};
use crate::der::pow256;
use crate::settings::Settings;
use vstd::string::StrSliceExecFns;
use crate::text::{dec_chars, ends_with, has_prefix, has_suffix, parse_usize, parse_usize_from, push_decimal, push_str, starts_with, str_eq, string_of};
use crate::types::{DocState, DocType, EngineConfig, PlacedSeal, SealInfo};

verus! {

// ------------------------------------------------------------
// Page count of a PDF
// ------------------------------------------------------------

/// `/Count`.
pub open spec fn count_marker() -> Seq<u8> {
    seq![0x2Fu8, 0x43, 0x6F, 0x75, 0x6E, 0x74]
}

/// `/Type /Page`.
pub open spec fn type_page_spaced() -> Seq<u8> {
    seq![0x2Fu8, 0x54, 0x79, 0x70, 0x65, 0x20, 0x2F, 0x50, 0x61, 0x67, 0x65]
}

/// `/Type/Page`.
pub open spec fn type_page_tight() -> Seq<u8> {
    seq![0x2Fu8, 0x54, 0x79, 0x70, 0x65, 0x2F, 0x50, 0x61, 0x67, 0x65]
}

pub open spec fn is_digit_byte(b: u8) -> bool {
    0x30 <= b <= 0x39
}

/// First position at or after `from` whose byte is a digit (`want`) or is
/// not (`!want`); the length if there is none.
pub open spec fn find_digit(data: Seq<u8>, from: nat, want: bool) -> nat
    decreases data.len() - from,
{
    if from >= data.len() {
        from
    } else if is_digit_byte(data[from as int]) == want {
        from
    } else {
        find_digit(data, from + 1, want)
    }
}

/// Decimal value of ASCII digit bytes.
pub open spec fn digits_value(d: Seq<u8>) -> nat
    decreases d.len(),
{
    if d.len() == 0 {
        0
    } else {
        digits_value(d.drop_last()) * 10 + (d.last() - 48) as nat
    }
}

/// The number after the `/Count` at `p`: the first run of digits after it,
/// when a non-digit follows the run and the value fits in 32 bits.
pub open spec fn count_value(data: Seq<u8>, p: nat) -> Option<u32> {
    let ds = find_digit(data, p + 6, true);
    let de = find_digit(data, ds, false);
    if de >= data.len() {
        None
    } else if digits_value(data.subrange(ds as int, de as int)) <= u32::MAX {
        Some(digits_value(data.subrange(ds as int, de as int)) as u32)
    } else {
        None
    }
}

pub open spec fn max_u32(a: u32, b: u32) -> u32 {
    if a >= b { a } else { b }
}

/// Largest `/Count` value at or after `i` (0 if none).
pub open spec fn max_count(data: Seq<u8>, i: nat) -> u32
    decreases data.len() - i,
{
    if i >= data.len() {
        0
    } else {
        let here: u32 = if occurs(data, count_marker(), i as int) {
            match count_value(data, i) {
                Some(c) => c,
                None => 0,
            }
        } else {
            0
        };
        max_u32(here, max_count(data, i + 1))
    }
}

/// Number of positions at or after `i` where `pat` occurs.
pub open spec fn occurrences(data: Seq<u8>, pat: Seq<u8>, i: nat) -> nat
    decreases data.len() - i,
{
    if i >= data.len() {
        0
    } else {
        (if occurs(data, pat, i as int) { 1nat } else { 0nat }) + occurrences(data, pat, i + 1)
    }
}

/// Page count of a PDF: the largest `/Count`; failing that the number of
/// `/Type /Page`, then of `/Type/Page` (as a `u32`); failing all, 1.
/// (The patterns cannot overlap themselves, so counting every position is
/// counting the non-overlapping matches.)
pub open spec fn pdf_page_count(data: Seq<u8>) -> u32 {
    let m = max_count(data, 0);
    let spaced = occurrences(data, type_page_spaced(), 0) as u32;
    let tight = occurrences(data, type_page_tight(), 0) as u32;
    if m > 0 {
        m
    } else if spaced > 0 {
        spaced
    } else if tight > 0 {
        tight
    } else {
        1
    }
}

proof fn lemma_digits_value_grows(d: Seq<u8>, i: int)
    requires
        0 <= i <= d.len(),
        forall|k: int| 0 <= k < d.len() ==> is_digit_byte(#[trigger] d[k]),
    ensures
        digits_value(d.take(i)) <= digits_value(d),
    decreases d.len() - i,
{
    if i < d.len() {
        lemma_digits_value_grows(d, i + 1);
        assert(d.take(i + 1).drop_last() =~= d.take(i));
    } else {
        assert(d.take(i) =~= d);
    }
}

proof fn lemma_find_digit_ge(data: Seq<u8>, from: nat, want: bool)
    ensures
        find_digit(data, from, want) >= from,
        from <= data.len() ==> find_digit(data, from, want) <= data.len(),
        find_digit(data, from, want) < data.len() ==> is_digit_byte(data[find_digit(data, from, want) as int])
            == want,
        forall|k: int| from <= k < find_digit(data, from, want) && k < data.len() ==> is_digit_byte(
            #[trigger] data[k],
        ) != want,
    decreases data.len() - from,
{
    if from < data.len() && is_digit_byte(data[from as int]) != want {
        lemma_find_digit_ge(data, from + 1, want);
    }
}

fn find_digit_exec(data: &[u8], from: usize, want: bool) -> (r: usize)
    requires
        from <= data@.len(),
    ensures
        r == find_digit(data@, from as nat, want),
{
    let n: usize = data.len();
    let mut i: usize = from;
    while i < n && ((0x30 <= data[i] && data[i] <= 0x39) != want)
        invariant
            from <= i <= n,
            n == data@.len(),
            find_digit(data@, from as nat, want) == find_digit(data@, i as nat, want),
        decreases n - i,
    {
        i = i + 1;
    }
    i
}

/// Value of the `/Count` at `p` (see `count_value`).
fn count_value_exec(data: &[u8], p: usize) -> (r: Option<u32>)
    requires
        p + 6 <= data@.len(),
    ensures
        r == count_value(data@, p as nat),
{
    let n: usize = data.len();
    let ds = find_digit_exec(data, p + 6, true);
    proof {
        lemma_find_digit_ge(data@, (p + 6) as nat, true);
    }
    let de = find_digit_exec(data, ds, false);
    proof {
        lemma_find_digit_ge(data@, ds as nat, false);
    }
    if de >= n {
        return None;
    }
    let ghost d = data@.subrange(ds as int, de as int);
    assert forall|k: int| 0 <= k < d.len() implies is_digit_byte(#[trigger] d[k]) by {
        assert(d[k] == data@[ds + k]);
    }
    let mut v: u64 = 0;
    let mut q: usize = ds;
    while q < de
        invariant
            ds <= q <= de < data@.len(),
            ds == find_digit(data@, (p + 6) as nat, true),
            de == find_digit(data@, ds as nat, false),
            d == data@.subrange(ds as int, de as int),
            forall|k: int| 0 <= k < d.len() ==> is_digit_byte(#[trigger] d[k]),
            v as nat == digits_value(d.take(q - ds)),
            v <= u32::MAX,
        decreases de - q,
    {
        assert(d.take(q - ds + 1).drop_last() =~= d.take(q - ds));
        assert(d.take(q - ds + 1).last() == data@[q as int]);
        assert(is_digit_byte(d[q - ds]));
        let digit: u64 = (data[q] - 48) as u64;
        let w: u64 = v * 10 + digit;
        assert(w as nat == digits_value(d.take(q - ds + 1)));
        if w > 0xFFFF_FFFF {
            proof {
                lemma_digits_value_grows(d, q - ds + 1);
            }
            return None;
        }
        v = w;
        q = q + 1;
    }
    assert(d.take(d.len() as int) =~= d);
    Some(v as u32)
}

/// Number of positions where `pat` occurs in `data`.
fn count_occurrences(data: &[u8], pat: &[u8]) -> (r: usize)
    ensures
        r == occurrences(data@, pat@, 0),
{
    let n: usize = data.len();
    let mut i: usize = n;
    let mut c: usize = 0;
    while i > 0
        invariant
            i <= n,
            n == data@.len(),
            c == occurrences(data@, pat@, i as nat),
            c <= n - i,
        decreases i,
    {
        i = i - 1;
        if pat.len() <= n - i && occurs_exec(data, pat, i) {
            c = c + 1;
        }
    }
    c
}

/// Page count of a PDF read off its bytes (see `pdf_page_count`).
pub fn parse_pdf_info(data: &[u8]) -> (r: u32)
    ensures
        r == pdf_page_count(data@),
{
    let marker: Vec<u8> = vec![0x2Fu8, 0x43, 0x6F, 0x75, 0x6E, 0x74];
    assert(marker@ =~= count_marker());
    let n: usize = data.len();
    let mut m: u32 = 0;
    let mut i: usize = 0;
    while i < n
        invariant
            i <= n,
            n == data@.len(),
            marker@ == count_marker(),
            max_u32(m, max_count(data@, i as nat)) == max_count(data@, 0),
        decreases n - i,
    {
        if 6 <= n - i && occurs_exec(data, marker.as_slice(), i) {
            match count_value_exec(data, i) {
                Some(c) => {
                    if c > m {
                        m = c;
                    }
                },
                None => {},
            }
        }
        i = i + 1;
    }
    if m > 0 {
        return m;
    }
    let spaced_pat: Vec<u8> = vec![0x2Fu8, 0x54, 0x79, 0x70, 0x65, 0x20, 0x2F, 0x50, 0x61, 0x67, 0x65];
    assert(spaced_pat@ =~= type_page_spaced());
    let spaced = count_occurrences(data, spaced_pat.as_slice()) as u32;
    if spaced > 0 {
        return spaced;
    }
    let tight_pat: Vec<u8> = vec![0x2Fu8, 0x54, 0x79, 0x70, 0x65, 0x2F, 0x50, 0x61, 0x67, 0x65];
    assert(tight_pat@ =~= type_page_tight());
    let tight = count_occurrences(data, tight_pat.as_slice()) as u32;
    if tight > 0 {
        return tight;
    }
    1
}

// ------------------------------------------------------------
// The engine
// ------------------------------------------------------------

/// Document type named by a file name's extension (either case), or the
/// error for an unsupported one.
pub open spec fn doc_type_of(file_name: Seq<char>) -> Result<DocType, Seq<char>> {
    if has_suffix(lowercase_of(file_name), ".pdf"@) {
        Ok(DocType::Pdf)
    } else if has_suffix(lowercase_of(file_name), ".ofd"@) {
        Ok(DocType::Ofd)
    } else {
        Err("不支持的文件格式: "@ + file_name)
    }
}

/// Whether `s` is the state of a document that was never opened.
pub open spec fn is_blank_state(s: DocState) -> bool {
    &&& s.file_id@.len() == 0
    &&& s.file_name@.len() == 0
    &&& s.file_size_kb == 0
    &&& s.page_count == 0
    &&& s.current_page == 0
    &&& s.doc_type == DocType::Pdf
    &&& !s.is_opened
    &&& s.seal_count == 0
    &&& s.signed_count == 0
    &&& s.raw_data@.len() == 0
    &&& s.seals@.len() == 0
    &&& s.properties@ == Map::<Seq<char>, Seq<char>>::empty()
}

/// Whether `s` is the state of `data`, named `name`, just opened.
pub open spec fn is_loaded_state(s: DocState, data: Seq<u8>, name: Seq<char>, doc_type: DocType, page_count: u32) -> bool {
    &&& s.file_id@ == base64_text(sha256_digest(data))
    &&& s.file_name@ == name
    &&& s.file_size_kb == data.len() / 1024
    &&& s.page_count == page_count
    &&& s.current_page == 0
    &&& s.doc_type == doc_type
    &&& s.is_opened
    &&& s.seal_count == 0
    &&& s.signed_count == 0
    &&& s.raw_data@ == data
    &&& s.seals@.len() == 0
    &&& s.properties@ == Map::<Seq<char>, Seq<char>>::empty()
}

/// Size of the head `get_file_md5_value` digests when the parameter does not
/// say: `LEFT:n` asks for the first `n` bytes.
pub open spec fn md5_head_len(param: Seq<char>) -> usize {
    if has_prefix(param, "LEFT:"@) {
        match parse_usize(param.subrange(5, param.len() as int)) {
            Some(n) => n,
            None => 20480,
        }
    } else {
        20480
    }
}

/// The document engine: the open document's state and the configuration.
pub struct DocumentEngine {
    pub state: DocState,
    pub config: EngineConfig,
}

impl DocumentEngine {
    /// An engine with no document.
    pub fn new() -> (r: Self)
        ensures
            is_blank_state(r.state),
            r.config.seal_mode == 0,
            r.config.force_type == 0,
            !r.config.single_mode,
    {
        DocumentEngine { state: DocState::default(), config: EngineConfig::default() }
    }

    /// Document type of a file, by its extension.
    pub fn detect_doc_type(file_name: &str) -> (r: Result<DocType, String>)
        ensures
            match doc_type_of(file_name@) {
                Ok(t) => r == Ok::<DocType, String>(t),
                Err(e) => r is Err && r->Err_0@ == e,
            },
    {
        let lower = to_lowercase(file_name);
        if ends_with(lower.as_str(), ".pdf") {
            Ok(DocType::Pdf)
        } else if ends_with(lower.as_str(), ".ofd") {
            Ok(DocType::Ofd)
        } else {
            let mut msg = string_of("不支持的文件格式: ");
            push_str(&mut msg, file_name);
            Err(msg)
        }
    }

    /// Take `file_data`, a document of type `doc_type` with `page_count`
    /// pages, as the open document.
    pub fn load_document(&mut self, file_data: Vec<u8>, file_name: &str, doc_type: DocType, page_count: u32)
        ensures
            is_loaded_state(final(self).state, file_data@, file_name@, doc_type, page_count),
            final(self).config == old(self).config,
    {
        let file_size_kb = (file_data.len() / 1024) as u64;
        let file_id = sha256_base64(file_data.as_slice());
        self.state = DocState {
            file_id,
            file_name: string_of(file_name),
            file_size_kb,
            page_count,
            current_page: 0,
            doc_type,
            is_opened: true,
            seal_count: 0,
            signed_count: 0,
            raw_data: file_data,
            seals: Vec::new(),
            properties: Settings::new(),
        };
    }

    /// Number of pages of the open document.
    pub fn get_page_count(&self) -> (r: u32)
        ensures
            r == self.state.page_count,
    {
        self.state.page_count
    }

    /// `"pdf"` or `"ofd"`.
    pub fn get_doc_type(&self) -> (r: &'static str)
        ensures
            self.state.doc_type == DocType::Pdf ==> r@ == "pdf"@,
            self.state.doc_type == DocType::Ofd ==> r@ == "ofd"@,
    {
        match self.state.doc_type {
            DocType::Pdf => "pdf",
            DocType::Ofd => "ofd",
        }
    }

    /// Whether a document is open.
    pub fn is_opened(&self) -> (r: bool)
        ensures
            r == self.state.is_opened,
    {
        self.state.is_opened
    }

    /// Size of the open file in KB.
    pub fn get_curr_file_size(&self) -> (r: u64)
        ensures
            r == self.state.file_size_kb,
    {
        self.state.file_size_kb
    }

    /// A document property.
    pub fn get_doc_property(&self, key: &str) -> (r: Option<String>)
        ensures
            match r {
                Some(v) => self.state.properties@.contains_key(key@) && self.state.properties@[key@] == v@,
                None => !self.state.properties@.contains_key(key@),
            },
    {
        self.state.properties.get(key)
    }

    /// Set a document property.
    pub fn set_doc_property(&mut self, key: &str, value: &str)
        ensures
            final(self).state.properties@ == old(self).state.properties@.insert(key@, value@),
            final(self).state.seals@ == old(self).state.seals@,
            final(self).state.raw_data@ == old(self).state.raw_data@,
    {
        self.state.properties.insert(key, value);
    }

    /// Number of seals placed.
    pub fn get_signatures_count(&self, _seal_type: &str) -> (r: u32)
        ensures
            r == self.state.seal_count,
    {
        self.state.seal_count
    }

    /// MD5 (hex) of the head of the open file: `LEFT:n` for the first `n`
    /// bytes, 20480 otherwise.
    pub fn get_file_md5_value(&self, param: &str) -> (r: Result<String, String>)
        ensures
            r is Ok,
            r->Ok_0@ == hex_lower(md5_digest(self.state.raw_data@.take(
                if md5_head_len(param@) < self.state.raw_data@.len() {
                    md5_head_len(param@) as int
                } else {
                    self.state.raw_data@.len() as int
                },
            ))),
    {
        proof {
            reveal_strlit("LEFT:");
        }
        let left_bytes: usize = if starts_with(param, "LEFT:") {
            match parse_usize_from(param, 5) {
                Some(n) => n,
                None => 20480,
            }
        } else {
            20480
        };
        Ok(file_left_md5(self.state.raw_data.as_slice(), left_bytes))
    }

    /// Saving goes through the host; this answers `"1"`.
    pub fn save_to(&self, _file_name: &str, _format: &str, _flags: i32) -> (r: Result<String, String>)
        ensures
            r is Ok && r->Ok_0@ == "1"@,
    {
        Ok(string_of("1"))
    }

    /// Close the document.
    pub fn close_doc(&mut self, _flags: i32)
        ensures
            !final(self).state.is_opened,
            final(self).state.seals@ == old(self).state.seals@,
            final(self).state.raw_data@ == old(self).state.raw_data@,
            final(self).state.page_count == old(self).state.page_count,
            final(self).config == old(self).config,
    {
        self.state.is_opened = false;
    }

    /// Outline nodes are not read: there is never a next one.
    pub fn get_next_note(&self, _node_type: &str, _index: i32, _param: &str) -> (r: Option<String>)
        ensures
            r is None,
    {
        None
    }

    /// Remove the seal whose index `note_id` gives.
    pub fn delete_note(&mut self, note_id: &str) -> (r: Result<i32, String>)
        ensures
            match parse_usize(note_id@) {
                Some(idx) if idx < old(self).state.seals@.len() => {
                    &&& r == Ok::<i32, String>(1)
                    &&& final(self).state.seals@ == old(self).state.seals@.remove(idx as int)
                    &&& final(self).state.seal_count == final(self).state.seals@.len() as u32
                },
                _ => {
                    &&& r is Err
                    &&& r->Err_0@ == "未找到印章: "@ + note_id@
                    &&& final(self).state.seals@ == old(self).state.seals@
                    &&& final(self).state.seal_count == old(self).state.seal_count
                },
            },
            final(self).state.raw_data@ == old(self).state.raw_data@,
            final(self).state.properties@ == old(self).state.properties@,
    {
        match parse_usize_from(note_id, 0) {
            Some(idx) => {
                assert(note_id@.subrange(0, note_id@.len() as int) =~= note_id@);
                if idx < self.state.seals.len() {
                    self.state.seals.remove(idx);
                    self.state.seal_count = self.state.seals.len() as u32;
                    return Ok(1);
                }
            },
            None => {
                assert(note_id@.subrange(0, note_id@.len() as int) =~= note_id@);
            },
        }
        let mut msg = string_of("未找到印章: ");
        push_str(&mut msg, note_id);
        Err(msg)
    }
}

impl Default for DocumentEngine {
    fn default() -> (r: Self)
        ensures
            is_blank_state(r.state),
    {
        Self::new()
    }
}


// ------------------------------------------------------------
// The certificate in a signature's PKCS#7 value
// ------------------------------------------------------------

/// What `x509-parser` reads of a certificate, as text: serial number (hex),
/// issuer, subject, the first common name when it is a UTF8String, validity
/// bounds and the public key's algorithm OID.
pub struct CertSummary {
    pub serial: String,
    pub issuer: String,
    pub subject: String,
    pub common_name: Option<String>,
    pub not_before: String,
    pub not_after: String,
    pub algorithm: String,
}

pub open spec fn opt_text(o: Option<String>) -> Option<Seq<char>> {
    match o {
        Some(s) => Some(s@),
        None => None,
    }
}

impl View for CertSummary {
    type V = (Seq<char>, Seq<char>, Seq<char>, Option<Seq<char>>, Seq<char>, Seq<char>, Seq<char>);

    open spec fn view(&self) -> Self::V {
        (
            self.serial@,
            self.issuer@,
            self.subject@,
            opt_text(self.common_name),
            self.not_before@,
            self.not_after@,
            self.algorithm@,
        )
    }
}

/// What `x509_parser::parse_x509_certificate` reads of `der` (see
/// `CertSummary`), or `None` when it refuses it.
pub uninterp spec fn x509_summary(der: Seq<u8>) -> Option<(Seq<char>, Seq<char>, Seq<char>, Option<Seq<char>>, Seq<char>, Seq<char>, Seq<char>)>;

/// `x509_parser::parse_x509_certificate`, its certificate turned into text.
/// The contract names the outcome; the parser's rules are not restated.
#[verifier::external_body]
fn parse_certificate(der: &[u8]) -> (r: Option<CertSummary>)
    ensures
        match r {
            Some(c) => x509_summary(der@) == Some(c@),
            None => x509_summary(der@) is None,
        },
{
    match x509_parser::parse_x509_certificate(der) {
        Ok((_, cert)) => Some(CertSummary {
            serial: cert.raw_serial_as_string(),
            issuer: cert.tbs_certificate.issuer.to_string(),
            subject: cert.tbs_certificate.subject.to_string(),
            common_name: cert.tbs_certificate.subject.iter_common_name().next()
                .and_then(|a| a.attr_value().as_str().ok()).map(|s| s.to_string()),
            not_before: cert.tbs_certificate.validity.not_before.to_string(),
            not_after: cert.tbs_certificate.validity.not_after.to_string(),
            algorithm: cert.tbs_certificate.subject_pki.algorithm.algorithm.to_string(),
        }),
        Err(_) => None,
    }
}

/// Big-endian value of some bytes.
pub open spec fn be_value(b: Seq<u8>) -> nat
    decreases b.len(),
{
    if b.len() == 0 {
        0
    } else {
        be_value(b.drop_last()) * 256 + b.last() as nat
    }
}

/// Length of the definite-length DER value whose header is at `off`: short
/// form, or long form with at most four length bytes that fit in the data.
pub open spec fn der_len_at(raw: Seq<u8>, off: nat) -> Option<nat> {
    let l = raw[off + 1int];
    if l == 0x80 {
        None
    } else if l >= 0x80 {
        let n = (l - 0x80) as nat;
        if n <= 4 && off + 2 + n <= raw.len() {
            Some(be_value(raw.subrange(off + 2int, off + 2int + n)))
        } else {
            None
        }
    } else {
        Some(l as nat)
    }
}

/// The bytes tried as a certificate at `off`: a SEQUENCE whose length is
/// between 200 and 10000, taken with four header bytes.
pub open spec fn cert_candidate(raw: Seq<u8>, off: nat) -> Option<Seq<u8>> {
    if raw[off as int] == 0x30 {
        match der_len_at(raw, off) {
            Some(len) => if 200 <= len <= 10000 && off + 4 + len <= raw.len() {
                Some(raw.subrange(off as int, off + 4int + len))
            } else {
                None
            },
            None => None,
        }
    } else {
        None
    }
}

/// First offset at or after `off` (before the last four bytes) whose
/// candidate the certificate parser accepts.
pub open spec fn first_cert_at(raw: Seq<u8>, off: nat) -> Option<nat>
    decreases raw.len() - off,
{
    if off + 4 >= raw.len() {
        None
    } else {
        match cert_candidate(raw, off) {
            Some(c) => if x509_summary(c) is Some {
                Some(off)
            } else {
                first_cert_at(raw, off + 1)
            },
            None => first_cert_at(raw, off + 1),
        }
    }
}

proof fn lemma_pow256_four_bound(i: nat)
    requires
        i < 4,
    ensures
        pow256(i + 1) <= 0x1_0000_0000,
        pow256(i + 1) == pow256(i) * 256,
{
    reveal_with_fuel(pow256, 5);
}

/// A text when it is not empty.
pub open spec fn non_empty(s: Seq<char>) -> Option<Seq<char>> {
    if s.len() > 0 { Some(s) } else { None }
}

/// What is read of the certificate in a PKCS#7 value.
pub struct CertExtractInfo {
    pub serial: Option<String>,
    pub issuer: Option<String>,
    pub subject: Option<String>,
    pub common_name: Option<String>,
    pub not_before: Option<String>,
    pub not_after: Option<String>,
    pub algorithm: Option<String>,
    /// The certificate's bytes, base64.
    pub cert_data: Option<String>,
}

/// Whether `info` holds nothing.
pub open spec fn info_empty(info: CertExtractInfo) -> bool {
    &&& info.serial is None
    &&& info.issuer is None
    &&& info.subject is None
    &&& info.common_name is None
    &&& info.not_before is None
    &&& info.not_after is None
    &&& info.algorithm is None
    &&& info.cert_data is None
}

/// Whether `info` is what is read of the certificate `cert`.
pub open spec fn info_of(info: CertExtractInfo, cert: Seq<u8>) -> bool {
    let s = x509_summary(cert)->Some_0;
    &&& opt_text(info.serial) == non_empty(s.0)
    &&& opt_text(info.issuer) == non_empty(s.1)
    &&& opt_text(info.subject) == non_empty(s.2)
    &&& opt_text(info.common_name) == (match s.3 {
        Some(cn) => non_empty(cn),
        None => None,
    })
    &&& opt_text(info.not_before) == non_empty(s.4)
    &&& opt_text(info.not_after) == non_empty(s.5)
    &&& opt_text(info.algorithm) == non_empty(s.6)
    &&& opt_text(info.cert_data) == Some(base64_text(cert))
}

fn non_empty_exec(s: String) -> (r: Option<String>)
    ensures
        opt_text(r) == non_empty(s@),
{
    if s.as_str().unicode_len() > 0 {
        Some(s)
    } else {
        None
    }
}

/// Length in the DER header at `off` (see `der_len_at`).
fn der_len_exec(raw: &[u8], off: usize) -> (r: Option<usize>)
    requires
        off + 2 <= raw@.len(),
    ensures
        match r {
            Some(l) => der_len_at(raw@, off as nat) == Some(l as nat),
            None => der_len_at(raw@, off as nat) is None,
        },
{
    let n: usize = raw.len();
    let lbyte = raw[off + 1];
    if lbyte == 0x80 {
        return None;
    }
    if lbyte < 0x80 {
        return Some(lbyte as usize);
    }
    let nbytes: usize = (lbyte - 0x80) as usize;
    if nbytes > 4 || nbytes > n - off - 2 {
        return None;
    }
    let ghost lb = raw@.subrange(off + 2, off + 2 + nbytes);
    let mut l: u64 = 0;
    let mut i: usize = 0;
    while i < nbytes
        invariant
            i <= nbytes <= 4,
            off + 2 + nbytes <= n,
            n == raw@.len(),
            lb == raw@.subrange(off + 2, off + 2 + nbytes),
            l as nat == be_value(lb.take(i as int)),
            l < pow256(i as nat),
        decreases nbytes - i,
    {
        assert(lb.take(i + 1).drop_last() =~= lb.take(i as int));
        assert(lb.take(i + 1).last() == raw@[off + 2 + i]);
        proof {
            lemma_pow256_four_bound(i as nat);
        }
        assert(l * 256 + raw@[off + 2 + i] < pow256((i + 1) as nat)) by (nonlinear_arith)
            requires
                l < pow256(i as nat),
                pow256((i + 1) as nat) == pow256(i as nat) * 256,
                raw@[off + 2 + i] < 256,
        ;
        l = l * 256 + raw[off + 2 + i] as u64;
        i = i + 1;
    }
    assert(lb.take(nbytes as int) =~= lb);
    proof {
        if nbytes > 0 {
            lemma_pow256_four_bound((nbytes - 1) as nat);
        }
    }
    assert(l <= 0xFFFF_FFFF);
    Some(l as usize)
}

/// The certificate in a PKCS#7 value: the first SEQUENCE in `raw` that
/// looks like one (see `cert_candidate`) and that the parser accepts.
pub fn extract_cert_from_pkcs7(raw: &[u8]) -> (r: CertExtractInfo)
    ensures
        raw@.len() < 10 ==> info_empty(r),
        raw@.len() >= 10 ==> match first_cert_at(raw@, 0) {
            Some(off) => info_of(r, cert_candidate(raw@, off)->Some_0),
            None => info_empty(r),
        },
{
    let mut result = CertExtractInfo {
        serial: None,
        issuer: None,
        subject: None,
        common_name: None,
        not_before: None,
        not_after: None,
        algorithm: None,
        cert_data: None,
    };
    if raw.len() < 10 {
        return result;
    }
    let n: usize = raw.len();
    let max_offset: usize = n - 4;
    let mut offset: usize = 0;
    while offset < max_offset
        invariant
            n == raw@.len(),
            n >= 10,
            max_offset == n - 4,
            offset <= max_offset,
            first_cert_at(raw@, 0) == first_cert_at(raw@, offset as nat),
            info_empty(result),
        decreases max_offset - offset,
    {
        if raw[offset] == 0x30 {
            let (definite, len) = match der_len_exec(raw, offset) {
                Some(l) => (true, l),
                None => (false, 0),
            };
            if definite && 200 <= len && len <= 10000 && len <= n - offset - 4 {
                let candidate = &raw[offset..offset + 4 + len];
                assert(candidate@ == cert_candidate(raw@, offset as nat)->Some_0);
                assert(first_cert_at(raw@, offset as nat) == if x509_summary(candidate@) is Some {
                    Some(offset as nat)
                } else {
                    first_cert_at(raw@, (offset + 1) as nat)
                });
                match parse_certificate(candidate) {
                    Some(c) => {
                        result.serial = non_empty_exec(c.serial);
                        result.issuer = non_empty_exec(c.issuer);
                        result.subject = non_empty_exec(c.subject);
                        result.common_name = match c.common_name {
                            Some(cn) => non_empty_exec(cn),
                            None => None,
                        };
                        result.not_before = non_empty_exec(c.not_before);
                        result.not_after = non_empty_exec(c.not_after);
                        result.algorithm = non_empty_exec(c.algorithm);
                        result.cert_data = Some(b64_encode(candidate));
                        return result;
                    },
                    None => {},
                }
            }
        }
        offset = offset + 1;
    }
    result
}


/// What is read of a certificate, as text (`None` where nothing is read).
pub struct CertTexts {
    pub serial: Option<Seq<char>>,
    pub issuer: Option<Seq<char>>,
    pub subject: Option<Seq<char>>,
    pub common_name: Option<Seq<char>>,
    pub not_before: Option<Seq<char>>,
    pub not_after: Option<Seq<char>>,
    pub algorithm: Option<Seq<char>>,
    pub cert_data: Option<Seq<char>>,
}

/// Nothing read.
pub open spec fn no_cert_texts() -> CertTexts {
    CertTexts {
        serial: None,
        issuer: None,
        subject: None,
        common_name: None,
        not_before: None,
        not_after: None,
        algorithm: None,
        cert_data: None,
    }
}

/// What `extract_cert_from_pkcs7` reads of `raw`, as text.
pub open spec fn cert_texts_of(raw: Seq<u8>) -> CertTexts {
    if raw.len() < 10 {
        no_cert_texts()
    } else {
        match first_cert_at(raw, 0) {
            Some(off) => {
                let cert = cert_candidate(raw, off)->Some_0;
                let s = x509_summary(cert)->Some_0;
                CertTexts {
                    serial: non_empty(s.0),
                    issuer: non_empty(s.1),
                    subject: non_empty(s.2),
                    common_name: match s.3 {
                        Some(cn) => non_empty(cn),
                        None => None,
                    },
                    not_before: non_empty(s.4),
                    not_after: non_empty(s.5),
                    algorithm: non_empty(s.6),
                    cert_data: Some(base64_text(cert)),
                }
            },
            None => no_cert_texts(),
        }
    }
}

/// A certificate reading as text.
pub open spec fn info_texts(info: CertExtractInfo) -> CertTexts {
    CertTexts {
        serial: opt_text(info.serial),
        issuer: opt_text(info.issuer),
        subject: opt_text(info.subject),
        common_name: opt_text(info.common_name),
        not_before: opt_text(info.not_before),
        not_after: opt_text(info.not_after),
        algorithm: opt_text(info.algorithm),
        cert_data: opt_text(info.cert_data),
    }
}

/// What is read of a signature annotation's value dictionary (`/V`).
pub struct SigValueFields {
    /// `/Name`.
    pub name: Option<String>,
    /// `/M`, the signing time.
    pub time: Option<String>,
    /// `/Filter`.
    pub filter: Option<String>,
    /// `/SubFilter`.
    pub sub_filter: Option<String>,
    /// `/Contents`, the signature's bytes, where it is a string.
    pub contents: Option<Vec<u8>>,
}

/// What is read of a page annotation.
pub struct AnnotFields {
    /// `/Subtype` (empty when missing).
    pub subtype: String,
    /// `/FT` (empty when missing).
    pub field_type: String,
    /// `/T`.
    pub title: Option<String>,
    /// `/Contents` as text.
    pub contents: Option<String>,
    /// Whether `/V` is present.
    pub has_value: bool,
    /// `/V`, where it is a dictionary.
    pub value: Option<SigValueFields>,
}

/// Where a seal stands: position and size in points, and size in
/// millimetres, as IEEE-754 bit patterns of `f64` values.
pub struct SealGeometry {
    pub x_bits: u64,
    pub y_bits: u64,
    pub width_bits: u64,
    pub height_bits: u64,
    pub width_mm_bits: u64,
    pub height_mm_bits: u64,
}

/// A signature widget or a stamp annotation.
pub open spec fn is_seal_annot(subtype: Seq<char>, field_type: Seq<char>) -> bool {
    (subtype == "Widget"@ && field_type == "Sig"@) || subtype == "Stamp"@
}

/// The name a seal goes by: `/T`, else `/Contents`, else `签章` and its
/// number counted from 1.
pub open spec fn seal_field_name(a: AnnotFields, idx: nat) -> Seq<char> {
    match a.title {
        Some(t) => t@,
        None => match a.contents {
            Some(c) => c@,
            None => "签章"@ + dec_chars(idx + 1),
        },
    }
}

/// The signing method: filter and sub-filter joined by ` / `, or whichever
/// there is.
pub open spec fn sign_method_of(filter: Option<Seq<char>>, sub_filter: Option<Seq<char>>) -> Option<Seq<char>> {
    match (filter, sub_filter) {
        (Some(f), Some(sf)) => Some(f + " / "@ + sf),
        (Some(f), None) => Some(f),
        (None, Some(sf)) => Some(sf),
        (None, None) => None,
    }
}

/// A field of the value dictionary, if there is one.
pub open spec fn value_field(a: AnnotFields, f: spec_fn(SigValueFields) -> Option<String>) -> Option<Seq<char>> {
    match a.value {
        Some(v) => opt_text(f(v)),
        None => None,
    }
}

/// What is read of the certificate in the value dictionary's `/Contents`.
pub open spec fn annot_cert_texts(a: AnnotFields) -> CertTexts {
    match a.value {
        Some(v) => match v.contents {
            Some(b) => cert_texts_of(b@),
            None => no_cert_texts(),
        },
        None => no_cert_texts(),
    }
}

/// `first` where there is one, else `second`.
pub open spec fn first_some(first: Option<Seq<char>>, second: Option<Seq<char>>) -> Option<Seq<char>> {
    if first is Some {
        first
    } else {
        second
    }
}

/// Whether `r` is the seal that annotation `a` describes as the seal
/// numbered `idx` on page `page` standing at `g`; `None` for an annotation
/// that is no seal.
pub open spec fn existing_seal_matches(r: Option<PlacedSeal>, a: AnnotFields, idx: nat, page: u32, g: SealGeometry) -> bool {
    if !is_seal_annot(a.subtype@, a.field_type@) {
        r is None
    } else {
        &&& r is Some
        &&& {
            let s = r->Some_0;
            let i = s.seal_info;
            let name = seal_field_name(a, idx);
            let certs = annot_cert_texts(a);
            let filter = value_field(a, |v: SigValueFields| v.filter);
            let time = value_field(a, |v: SigValueFields| v.time);
            &&& s.id == idx
            &&& s.page_index == page
            &&& s.x_bits == g.x_bits
            &&& s.y_bits == g.y_bits
            &&& s.width_bits == g.width_bits
            &&& s.height_bits == g.height_bits
            &&& s.signature is None
            &&& s.signed == a.has_value
            &&& i.origin@ == "pdf"@
            &&& i.seal_id@ == name
            &&& i.seal_name@ == name
            &&& i.width_bits == g.width_mm_bits
            &&& i.height_bits == g.height_mm_bits
            &&& i.seal_type == Some(if a.subtype@ == "Stamp"@ { 0i32 } else { 1i32 })
            &&& i.seal_image@.len() == 0
            &&& opt_text(i.sign_cert_sn) == certs.serial
            &&& i.sign_data is None
            &&& i.sign_cert is None
            &&& opt_text(i.seal_start_time) == time
            &&& i.seal_end_time is None
            &&& opt_text(i.signer_name) == first_some(value_field(a, |v: SigValueFields| v.name), certs.common_name)
            &&& opt_text(i.sign_time) == time
            &&& opt_text(i.sign_method) == sign_method_of(filter, value_field(a, |v: SigValueFields| v.sub_filter))
            &&& opt_text(i.cert_issuer) == certs.issuer
            &&& opt_text(i.cert_subject) == certs.subject
            &&& opt_text(i.cert_start_time) == certs.not_before
            &&& opt_text(i.cert_end_time) == certs.not_after
            &&& opt_text(i.cert_algorithm) == first_some(filter, certs.algorithm)
            &&& opt_text(i.cert_data) == certs.cert_data
        }
    }
}

/// A copy of an optional string.
fn copy_opt(o: &Option<String>) -> (r: Option<String>)
    ensures
        opt_text(r) == opt_text(*o),
{
    match o {
        Some(s) => Some(string_of(s.as_str())),
        None => None,
    }
}

/// The signing method (see `sign_method_of`).
fn sign_method(filter: &Option<String>, sub_filter: &Option<String>) -> (r: Option<String>)
    ensures
        opt_text(r) == sign_method_of(opt_text(*filter), opt_text(*sub_filter)),
{
    match (filter, sub_filter) {
        (Some(f), Some(sf)) => {
            let mut m = string_of(f.as_str());
            push_str(&mut m, " / ");
            push_str(&mut m, sf.as_str());
            Some(m)
        },
        (Some(f), None) => Some(string_of(f.as_str())),
        (None, Some(sf)) => Some(string_of(sf.as_str())),
        (None, None) => None,
    }
}

/// The seal that a signature widget or stamp annotation describes, numbered
/// `seal_idx` (see `existing_seal_matches`); `None` for other annotations.
/// Certificate details missing from the value dictionary are read from the
/// PKCS#7 value in its `/Contents`.
pub fn existing_seal(a: &AnnotFields, seal_idx: usize, page_index: u32, g: &SealGeometry) -> (r: Option<PlacedSeal>)
    requires
        seal_idx < usize::MAX,
    ensures
        existing_seal_matches(r, *a, seal_idx as nat, page_index, *g),
{
    let is_seal = (str_eq(a.subtype.as_str(), "Widget") && str_eq(a.field_type.as_str(), "Sig")) || str_eq(
        a.subtype.as_str(),
        "Stamp",
    );
    if !is_seal {
        return None;
    }
    let field_name = match &a.title {
        Some(t) => string_of(t.as_str()),
        None => match &a.contents {
            Some(c) => string_of(c.as_str()),
            None => {
                let mut n = string_of("签章");
                push_decimal(&mut n, (seal_idx + 1) as u64);
                n
            },
        },
    };
    let mut signer_name: Option<String> = None;
    let mut sign_time: Option<String> = None;
    let mut method: Option<String> = None;
    let mut cert_sn: Option<String> = None;
    let mut cert_issuer: Option<String> = None;
    let mut cert_subject: Option<String> = None;
    let mut cert_start_time: Option<String> = None;
    let mut cert_end_time: Option<String> = None;
    let mut cert_algorithm: Option<String> = None;
    let mut cert_data: Option<String> = None;
    if let Some(v) = &a.value {
        signer_name = copy_opt(&v.name);
        sign_time = copy_opt(&v.time);
        method = sign_method(&v.filter, &v.sub_filter);
        cert_algorithm = copy_opt(&v.filter);
        if let Some(bytes) = &v.contents {
            let info = extract_cert_from_pkcs7(bytes.as_slice());
            assert(info_texts(info) == cert_texts_of(bytes@));
            cert_sn = info.serial;
            cert_issuer = info.issuer;
            cert_subject = info.subject;
            cert_start_time = info.not_before;
            cert_end_time = info.not_after;
            if cert_algorithm.is_none() {
                cert_algorithm = info.algorithm;
            }
            if signer_name.is_none() {
                signer_name = info.common_name;
            }
            cert_data = info.cert_data;
        }
    }
    let seal_start_time = copy_opt(&sign_time);
    let seal_id = string_of(field_name.as_str());
    Some(PlacedSeal {
        id: seal_idx,
        page_index,
        x_bits: g.x_bits,
        y_bits: g.y_bits,
        width_bits: g.width_bits,
        height_bits: g.height_bits,
        seal_info: SealInfo {
            origin: string_of("pdf"),
            seal_id,
            seal_name: field_name,
            width_bits: g.width_mm_bits,
            height_bits: g.height_mm_bits,
            seal_type: Some(if str_eq(a.subtype.as_str(), "Stamp") { 0i32 } else { 1i32 }),
            seal_image: String::new(),
            sign_cert_sn: cert_sn,
            sign_data: None,
            sign_cert: None,
            seal_start_time,
            seal_end_time: None,
            signer_name,
            sign_time,
            sign_method: method,
            cert_issuer,
            cert_subject,
            cert_start_time,
            cert_end_time,
            cert_algorithm,
            cert_data,
        },
        signature: None,
        signed: a.has_value,
    })
}

} // verus!
