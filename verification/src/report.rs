//! The launcher's report: a JSON document that names the enclave and the
//! address of its channel.
//!
//! Reading JSON is left to `serde_json`; what the report has to hold, and
//! what becomes of a report that does not hold it, is decided here.

use vstd::prelude::*;
use vstd::string::StringExecFns;
use vstd::utf8::{decode_utf8, valid_utf8};

verus! {

/// Errors generated by the Nitro enclave components.
#[derive(Debug, Clone, Copy, PartialEq, Eq)]
pub enum NitroError {
    /// The launcher's report is not a JSON document, or does not hold a
    /// channel address that is an unsigned 32-bit number.
    SerdeError,
    /// The launcher's output is not UTF-8 text.
    Utf8Error,
    /// The channel to the enclave could not be opened; the error code of
    /// the attempt.
    ConnectError(i32),
    /// The channel to the enclave did not open within the deadline.
    ConnectTimeout,
}

/// The line of text that describes an error.
pub open spec fn message_of(e: NitroError) -> Seq<char> {
    match e {
        NitroError::SerdeError => "Nitro: Serde Error"@,
        NitroError::Utf8Error => "Nitro: launcher output is not UTF-8"@,
        NitroError::ConnectError(_) => "Nitro: could not connect to the enclave"@,
        NitroError::ConnectTimeout => "Nitro: timed out connecting to the enclave"@,
    }
}

impl NitroError {
    /// A line of text that describes the error.
    pub fn message(&self) -> (r: String)
        ensures
            r@ == message_of(*self),
    {
        match self {
            NitroError::SerdeError => String::from_str("Nitro: Serde Error"),
            NitroError::Utf8Error => String::from_str("Nitro: launcher output is not UTF-8"),
            NitroError::ConnectError(_) => String::from_str(
                "Nitro: could not connect to the enclave",
            ),
            NitroError::ConnectTimeout => String::from_str(
                "Nitro: timed out connecting to the enclave",
            ),
        }
    }
}

/// What the launcher reports of an enclave it has started.
#[derive(Debug, Clone, PartialEq, Eq)]
pub struct LauncherReport {
    /// The identifier that the launcher gave the enclave.
    pub enclave_id: String,
    /// The address at which the enclave's channel is reached.
    pub enclave_cid: u32,
}

/// A report as plain values.
pub ghost struct ReportView {
    pub enclave_id: Seq<char>,
    pub enclave_cid: u32,
}

impl View for LauncherReport {
    type V = ReportView;

    open spec fn view(&self) -> ReportView {
        ReportView { enclave_id: self.enclave_id@, enclave_cid: self.enclave_cid }
    }
}

/// A parsed report, or the error in its place, as plain values.
pub open spec fn outcome_view(r: Result<LauncherReport, NitroError>) -> Result<
    ReportView,
    NitroError,
> {
    match r {
        Ok(report) => Ok(report@),
        Err(e) => Err(e),
    }
}

/// `s` without the double quotes that it starts with.
pub open spec fn strip_leading_quotes(s: Seq<char>) -> Seq<char>
    decreases s.len(),
{
    if s.len() > 0 && s[0] == '"' {
        strip_leading_quotes(s.drop_first())
    } else {
        s
    }
}

/// `s` without the double quotes that it ends with.
pub open spec fn strip_trailing_quotes(s: Seq<char>) -> Seq<char>
    decreases s.len(),
{
    if s.len() > 0 && s.last() == '"' {
        strip_trailing_quotes(s.drop_last())
    } else {
        s
    }
}

/// `s` without the double quotes at either end.
pub open spec fn trimmed(s: Seq<char>) -> Seq<char> {
    strip_trailing_quotes(strip_leading_quotes(s))
}

/// Removes every double quote that `text` starts or ends with.
pub fn trim_quotes(text: &str) -> (r: String)
    ensures
        r@ == trimmed(text@),
{
    let n = text.unicode_len();
    let mut start: usize = 0;
    assert(text@ =~= text@.subrange(0, n as int));
    while start < n && text.get_char(start) == '"'
        invariant
            start <= n,
            n == text@.len(),
            strip_leading_quotes(text@) == strip_leading_quotes(text@.subrange(start as int, n as int)),
        decreases n - start,
    {
        assert(text@.subrange(start as int, n as int).drop_first() =~= text@.subrange(
            start + 1,
            n as int,
        ));
        start = start + 1;
    }
    let ghost body = text@.subrange(start as int, n as int);
    assert(strip_leading_quotes(text@) == body);
    let mut end: usize = n;
    while end > start && text.get_char(end - 1) == '"'
        invariant
            start <= end <= n,
            n == text@.len(),
            body == text@.subrange(start as int, n as int),
            strip_trailing_quotes(body) == strip_trailing_quotes(
                text@.subrange(start as int, end as int),
            ),
        decreases end - start,
    {
        assert(text@.subrange(start as int, end as int).drop_last() =~= text@.subrange(
            start as int,
            end - 1,
        ));
        end = end - 1;
    }
    String::from_str(text.substring_char(start, end))
}

/// The JSON values of `serde_json`, opaque here.
#[verifier::external_type_specification]
#[verifier::external_body]
pub struct ExJsonValue(serde_json::Value);

/// The parse errors of `serde_json`, opaque here.
#[verifier::external_type_specification]
#[verifier::external_body]
pub struct ExJsonError(serde_json::Error);

/// The document that `serde_json::from_str` reads from a text, if it reads
/// one.
pub uninterp spec fn json_document(text: Seq<char>) -> Option<serde_json::Value>;

/// The value that indexing a JSON value by a key gives.
pub uninterp spec fn json_member(doc: serde_json::Value, key: Seq<char>) -> serde_json::Value;

/// Whether a JSON value is a number.
pub uninterp spec fn json_is_number(value: serde_json::Value) -> bool;

/// A JSON value read as an unsigned 32-bit number by `serde_json::from_value`,
/// if it can be.
pub uninterp spec fn json_as_u32(value: serde_json::Value) -> Option<u32>;

/// A JSON value printed as JSON text.
pub uninterp spec fn json_rendering(value: serde_json::Value) -> Seq<char>;

/// `serde_json::from_str` for a `Value`. Trusted: the outcome depends on the
/// text alone; nothing is claimed of which texts are accepted.
#[verifier::external_body]
fn parse_json(text: &str) -> (r: Result<serde_json::Value, serde_json::Error>)
    ensures
        r matches Ok(doc) ==> json_document(text@) == Some(doc),
        r is Err ==> json_document(text@) is None,
{
    serde_json::from_str(text)
}

/// Indexing of a `serde_json::Value` by a string key, which does not panic
/// on a shared value. Trusted: the outcome depends on the value and the key
/// alone.
#[verifier::external_body]
fn member<'a>(doc: &'a serde_json::Value, key: &str) -> (r: &'a serde_json::Value)
    ensures
        *r == json_member(*doc, key@),
{
    &doc[key]
}

/// `serde_json::Value::is_number`. Trusted: the outcome depends on the value
/// alone.
#[verifier::external_body]
fn is_number(value: &serde_json::Value) -> (r: bool)
    ensures
        r == json_is_number(*value),
{
    value.is_number()
}

/// `serde_json::from_value` for a `u32`, on a copy of the value. Trusted:
/// the outcome depends on the value alone; an error becomes `None`.
#[verifier::external_body]
fn as_u32(value: &serde_json::Value) -> (r: Option<u32>)
    ensures
        r == json_as_u32(*value),
{
    serde_json::from_value(value.clone()).ok()
}

/// `to_string` of a `serde_json::Value`, which prints it as JSON text.
/// Trusted: the outcome depends on the value alone.
#[verifier::external_body]
fn render(value: &serde_json::Value) -> (r: String)
    ensures
        r@ == json_rendering(*value),
{
    value.to_string()
}

/// `core::str::from_utf8`. Trusted: it accepts exactly the byte strings that
/// are valid UTF-8 and returns the text that they encode.
#[verifier::external_body]
fn utf8_text(bytes: &[u8]) -> (r: Option<&str>)
    ensures
        r is Some <==> valid_utf8(bytes@),
        r matches Some(text) ==> text@ == decode_utf8(bytes@),
{
    core::str::from_utf8(bytes).ok()
}

/// The report that three facts about a JSON document amount to: whether its
/// channel address is a number, that address read as a `u32`, and its
/// identifier printed as JSON.
pub open spec fn report_from_fields(
    cid_is_number: bool,
    cid: Option<u32>,
    id_text: Seq<char>,
) -> Result<ReportView, NitroError> {
    if !cid_is_number {
        Err(NitroError::SerdeError)
    } else {
        match cid {
            Some(c) => Ok(ReportView { enclave_id: trimmed(id_text), enclave_cid: c }),
            None => Err(NitroError::SerdeError),
        }
    }
}

/// The report that a text holds.
pub open spec fn report_of_text(text: Seq<char>) -> Result<ReportView, NitroError> {
    match json_document(text) {
        Some(doc) => {
            let cid = json_member(doc, "EnclaveCID"@);
            let id = json_member(doc, "EnclaveID"@);
            report_from_fields(json_is_number(cid), json_as_u32(cid), json_rendering(id))
        },
        None => Err(NitroError::SerdeError),
    }
}

/// The report that the launcher's output holds.
pub open spec fn report_of_bytes(bytes: Seq<u8>) -> Result<ReportView, NitroError> {
    if valid_utf8(bytes) {
        report_of_text(decode_utf8(bytes))
    } else {
        Err(NitroError::Utf8Error)
    }
}

/// Builds the report from what was found in the document.
///
/// A channel address that is missing, is no number, or is a number that is
/// no `u32` is an error. The identifier is taken as printed, without the
/// quotes around it.
pub fn build_report(cid_is_number: bool, cid: Option<u32>, id_text: &str) -> (r: Result<
    LauncherReport,
    NitroError,
>)
    ensures
        outcome_view(r) == report_from_fields(cid_is_number, cid, id_text@),
{
    if !cid_is_number {
        return Err(NitroError::SerdeError);
    }
    match cid {
        Some(c) => Ok(LauncherReport { enclave_id: trim_quotes(id_text), enclave_cid: c }),
        None => Err(NitroError::SerdeError),
    }
}

/// Reads the launcher's report from its text.
pub fn parse_report(text: &str) -> (r: Result<LauncherReport, NitroError>)
    ensures
        outcome_view(r) == report_of_text(text@),
{
    match parse_json(text) {
        Ok(doc) => {
            let cid = member(&doc, "EnclaveCID");
            let id = member(&doc, "EnclaveID");
            let id_text = render(id);
            build_report(is_number(cid), as_u32(cid), id_text.as_str())
        },
        Err(_) => Err(NitroError::SerdeError),
    }
}

/// Reads the launcher's report from the bytes that it printed.
pub fn read_report(stdout: &[u8]) -> (r: Result<LauncherReport, NitroError>)
    ensures
        outcome_view(r) == report_of_bytes(stdout@),
{
    match utf8_text(stdout) {
        Some(text) => parse_report(text),
        None => Err(NitroError::Utf8Error),
    }
}

} // verus!
