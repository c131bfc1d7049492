//! Request and response model: HTTP methods, prepared requests, the error
//! taxonomy, and the uniform interpretation of a transport response.

use vstd::prelude::*;

verus! {

#[verifier::external_type_specification]
#[verifier::external_body]
pub struct ExJsonValue(serde_json::Value);

#[verifier::external_type_specification]
#[verifier::external_body]
pub struct ExJsonError(serde_json::Error);

/// Whether a byte string is one well-formed JSON document, as serde_json's
/// deserializer accepts it.
pub uninterp spec fn json_document(bytes: Seq<u8>) -> bool;

/// The value a well-formed JSON document parses to.
pub uninterp spec fn json_value_of(bytes: Seq<u8>) -> serde_json::Value;

/// The byte serialization of a JSON value.
pub uninterp spec fn json_bytes_of(v: serde_json::Value) -> Seq<u8>;

/// Relies on serde_json::from_slice: parses one JSON document from bytes,
/// failing exactly on input that is not one; the outcome depends on the
/// bytes alone. A parsed value lies within the deserializer's nesting
/// bound, so serializing it gives a document that parses back to the same
/// value (the round trip does not hold of arbitrary values: the serializer
/// has no nesting bound, the deserializer does).
#[verifier::external_body]
fn parse_json(bytes: &[u8]) -> (r: Result<serde_json::Value, serde_json::Error>)
    ensures
        r is Ok <==> json_document(bytes@),
        r matches Ok(v) ==> v == json_value_of(bytes@),
        r matches Ok(v) ==> json_document(json_bytes_of(v)) && json_value_of(json_bytes_of(v))
            == v,
{
    serde_json::from_slice(bytes)
}

/// Relies on serde_json::to_vec: serializes a JSON value to bytes, and the
/// bytes depend on the value alone. Serializing a `Value` cannot fail (its
/// object keys are strings and its numbers are finite). Nothing is claimed
/// of re-parsing the output: a value nested more deeply than the
/// deserializer's bound serializes to a document the deserializer rejects.
#[verifier::external_body]
pub(crate) fn json_to_bytes(v: &serde_json::Value) -> (r: Result<Vec<u8>, serde_json::Error>)
    ensures
        r is Ok,
        r matches Ok(b) ==> b@ == json_bytes_of(*v),
{
    serde_json::to_vec(v)
}

/// The HTTP methods the shim issues.
#[derive(Clone, Copy, PartialEq, Eq, Structural, Debug)]
pub enum Method {
    Get,
    Post,
    Put,
    Delete,
    Patch,
}

/// Methods that carry a request body.
pub open spec fn method_allows_body(m: Method) -> bool {
    m == Method::Post || m == Method::Put || m == Method::Patch
}

/// A remote service answered with a non-success status; the raw body is
/// kept verbatim for the caller.
#[derive(Debug)]
pub struct ApiError {
    pub status: u16,
    pub raw_body: Vec<u8>,
}

/// A missing required placeholder substitution, found before any network
/// call.
#[derive(Debug)]
pub enum EncodeError {
    MissingPlaceholder(Vec<u8>),
}

/// Every way a call can fail. Nothing is retried or masked: each failure
/// is handed to the immediate caller.
#[derive(Debug)]
pub enum ClientError {
    Encoding(EncodeError),
    Transport(String),
    Api(ApiError),
    Decoding(serde_json::Error),
}

/// One fully prepared request: method, percent-encoded path (with query),
/// and the serialized body, present only for methods that carry one.
pub struct PreparedRequest {
    pub method: Method,
    pub path: Vec<u8>,
    pub body: Option<Vec<u8>>,
}

impl PreparedRequest {
    /// Bodies are attached only to methods that declare one.
    pub open spec fn wf(self) -> bool {
        self.body is Some ==> method_allows_body(self.method)
    }
}

/// The success class of HTTP statuses.
pub open spec fn is_success_status(status: u16) -> bool {
    200 <= status && status < 300
}

/// Map a transport response to the caller's typed result.
///
/// A non-success status is an `ApiError` carrying the status and the raw
/// body verbatim. On success, when the endpoint declares no response type
/// the body is ignored; otherwise the body must be one JSON document,
/// anything else is a `DecodingError`.
pub fn interpret_response(expects_body: bool, status: u16, body: Vec<u8>) -> (r: Result<
    Option<serde_json::Value>,
    ClientError,
>)
    ensures
        !is_success_status(status) ==> (r matches Err(ClientError::Api(e)) && e.status == status
            && e.raw_body@ == body@),
        is_success_status(status) && !expects_body ==> r matches Ok(None),
        is_success_status(status) && expects_body && json_document(body@) ==> (r matches Ok(
            Some(v),
        ) && v == json_value_of(body@)),
        is_success_status(status) && expects_body && !json_document(body@) ==> r matches Err(
            ClientError::Decoding(_),
        ),
{
    if !(200 <= status && status < 300) {
        return Err(ClientError::Api(ApiError { status, raw_body: body }));
    }
    if !expects_body {
        return Ok(None);
    }
    match parse_json(body.as_slice()) {
        Ok(v) => Ok(Some(v)),
        Err(e) => Err(ClientError::Decoding(e)),
    }
}

} // verus!
