//! The decisions inside HTTP-response handling: which statuses count as
//! success, how a body is rendered in an error report, and when a body
//! yields a JSON value.  Parsing itself is serde_json's; whether a byte
//! string parses is a function of the bytes alone.

use vstd::prelude::*;

verus! {

/// Whether a status code counts as success, per HTTP: `200..=299`.
pub open spec fn spec_is_success(status: u16) -> bool {
    200 <= status < 300
}

/// Whether serde_json parses these bytes as a JSON document.
pub uninterp spec fn json_parses(bytes: Seq<u8>) -> bool;

/// Whether these bytes are valid UTF-8.
pub uninterp spec fn is_utf8(bytes: Seq<u8>) -> bool;

#[verifier::external_type_specification]
#[verifier::external_body]
pub struct ExValue(serde_json::Value);

/// Relies on serde_json::from_slice for `serde_json::Value`: whether the
/// parse succeeds depends on the bytes alone.
#[verifier::external_body]
fn parse_json(bytes: &Vec<u8>) -> (r: Option<serde_json::Value>)
    ensures
        r is Some <==> json_parses(bytes@),
{
    serde_json::from_slice(bytes).ok()
}

/// Relies on std's str::from_utf8: whether the bytes are valid UTF-8
/// depends on the bytes alone.
#[verifier::external_body]
fn utf8_ok(bytes: &Vec<u8>) -> (r: bool)
    ensures
        r == is_utf8(bytes@),
{
    std::str::from_utf8(bytes).is_ok()
}

/// How a body is rendered in an error report.
#[derive(Clone, Copy, Debug, PartialEq, Eq, Structural)]
pub enum BodyKind {
    /// Pretty-printed as JSON.
    Json,
    /// Shown as plain text.
    Text,
    /// Shown as a `<binary>` placeholder.
    Binary,
}

/// Why a response was rejected.  The body is carried along so the report
/// can show it.
#[derive(Debug, PartialEq, Eq)]
pub enum ResponseError {
    /// The status was no success; the body renders as `kind`.
    BadStatus { status: u16, kind: BodyKind, body: Vec<u8> },
    /// The status was a success but the body is not JSON; it renders as
    /// `kind` (never as JSON).
    NotJson { kind: BodyKind, body: Vec<u8> },
}

/// Whether a status code counts as success.
pub fn is_success(status: u16) -> (r: bool)
    ensures
        r == spec_is_success(status),
{
    200 <= status && status < 300
}

/// How a body should be rendered in a report: as JSON if it parses, as
/// text if it is UTF-8, else as a binary placeholder.
pub fn classify_body(bytes: &Vec<u8>) -> (r: BodyKind)
    ensures
        r == if json_parses(bytes@) {
            BodyKind::Json
        } else if is_utf8(bytes@) {
            BodyKind::Text
        } else {
            BodyKind::Binary
        },
{
    if parse_json(bytes).is_some() {
        BodyKind::Json
    } else if utf8_ok(bytes) {
        BodyKind::Text
    } else {
        BodyKind::Binary
    }
}

/// The byte-decided part of fetching typed JSON: a response yields a JSON
/// value exactly when its status is a success and its body parses; any
/// rejection carries the status, the body and how to render it.
pub fn check_json_response(status: u16, bytes: Vec<u8>) -> (r: Result<
    serde_json::Value,
    ResponseError,
>)
    ensures
        r is Ok <==> spec_is_success(status) && json_parses(bytes@),
        match r {
            Ok(_) => true,
            Err(e) => match e {
                ResponseError::BadStatus { status: s, kind, body } => {
                    &&& s == status
                    &&& !spec_is_success(status)
                    &&& body@ == bytes@
                    &&& kind == (if json_parses(bytes@) {
                        BodyKind::Json
                    } else if is_utf8(bytes@) {
                        BodyKind::Text
                    } else {
                        BodyKind::Binary
                    })
                },
                ResponseError::NotJson { kind, body } => {
                    &&& spec_is_success(status)
                    &&& !json_parses(bytes@)
                    &&& body@ == bytes@
                    &&& kind == (if is_utf8(bytes@) {
                        BodyKind::Text
                    } else {
                        BodyKind::Binary
                    })
                },
            },
        },
{
    if !is_success(status) {
        let kind = classify_body(&bytes);
        return Err(ResponseError::BadStatus { status, kind, body: bytes });
    }
    match parse_json(&bytes) {
        Some(v) => Ok(v),
        None => {
            let kind = if utf8_ok(&bytes) {
                BodyKind::Text
            } else {
                BodyKind::Binary
            };
            Err(ResponseError::NotJson { kind, body: bytes })
        },
    }
}

/// The byte-decided part of a status check whose report shows the body: a
/// response passes exactly when its status is a success; a rejection
/// carries the status and the body, rendered as text when it is UTF-8 and
/// as a binary placeholder otherwise.
pub fn check_status(status: u16, bytes: Vec<u8>) -> (r: Result<(), ResponseError>)
    ensures
        r is Ok <==> spec_is_success(status),
        match r {
            Ok(_) => true,
            Err(e) => match e {
                ResponseError::BadStatus { status: s, kind, body } => {
                    &&& s == status
                    &&& !spec_is_success(status)
                    &&& body@ == bytes@
                    &&& kind == (if is_utf8(bytes@) {
                        BodyKind::Text
                    } else {
                        BodyKind::Binary
                    })
                },
                ResponseError::NotJson { .. } => false,
            },
        },
{
    if is_success(status) {
        Ok(())
    } else {
        let kind = if utf8_ok(&bytes) {
            BodyKind::Text
        } else {
            BodyKind::Binary
        };
        Err(ResponseError::BadStatus { status, kind, body: bytes })
    }
}

} // verus!
