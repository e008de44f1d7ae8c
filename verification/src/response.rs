//! Responses, and the one shape in which failures leave the API.

use crate::error::{detail_of, kind_of, status_of, Error, ErrorView};
use vstd::prelude::*;
use vstd::string::StringSliceAdditionalSpecFns;
use vstd::utf8::encode_utf8;

verus! {

/// A response: its status, the media type of its body where it has one, the
/// body, and, where a handler failed, what the client is to be told of it.
#[derive(Clone, Debug, PartialEq, Eq)]
pub struct Response {
    pub status: u16,
    pub content_type: Option<String>,
    pub body: Vec<u8>,
    pub error: Option<String>,
}

/// A response, as contracts see it.
pub struct ResponseView {
    pub status: u16,
    pub content_type: Option<Seq<char>>,
    pub body: Seq<u8>,
    pub error: Option<Seq<char>>,
}

/// The text of a string that may be absent.
pub open spec fn text_of(text: Option<String>) -> Option<Seq<char>> {
    match text {
        Some(s) => Some(s@),
        None => None,
    }
}

impl View for Response {
    type V = ResponseView;

    open spec fn view(&self) -> ResponseView {
        ResponseView {
            status: self.status,
            content_type: text_of(self.content_type),
            body: self.body@,
            error: text_of(self.error),
        }
    }
}

/// The JSON string literal that `serde_json` writes for a text: the text in
/// double quotes, escaped as the crate escapes it.
pub uninterp spec fn json_quoted(text: Seq<char>) -> Seq<char>;

/// The payload that tells a client of a failure: one error object with the
/// detail, given as a JSON string literal, in a list of errors.
pub open spec fn error_payload(quoted: Seq<char>) -> Seq<char> {
    "{\"errors\":[{\"detail\":"@ + quoted + "}]}"@
}

/// An empty response with a status.
pub open spec fn bare(status: u16) -> ResponseView {
    ResponseView { status, content_type: None, body: Seq::empty(), error: None }
}

/// The response that serves a tarball.
pub open spec fn tarball(bytes: Seq<u8>) -> ResponseView {
    ResponseView {
        status: 200,
        content_type: Some("application/octet-stream"@),
        body: bytes,
        error: None,
    }
}

/// The response that a failed handler leaves: the status of the error's
/// kind, no body, and the detail for whoever shapes it.
pub open spec fn failed(error: ErrorView) -> ResponseView {
    ResponseView {
        status: status_of(kind_of(error)),
        content_type: None,
        body: Seq::empty(),
        error: Some(detail_of(error)),
    }
}

/// A response in the shape that Cargo reads: one that carries an error is
/// sent with status 200 and the error's payload as a JSON body; any other is
/// left as it is.
pub open spec fn shaped(response: ResponseView) -> ResponseView {
    match response.error {
        Some(detail) => ResponseView {
            status: 200,
            content_type: Some("application/json"@),
            body: encode_utf8(error_payload(json_quoted(detail))),
            error: Some(detail),
        },
        None => response,
    }
}

/// Writes a text as a JSON string literal.
///
/// Trusted: the text is wrapped in `serde_json::Value::String` and written
/// by the crate's `Display`, which is its compact serialiser. The result is
/// a function of the text alone, and writing a string into a `String` does
/// not fail.
#[verifier::external_body]
fn quote_json(text: &str) -> (quoted: String)
    ensures
        quoted@ == json_quoted(text@),
{
    serde_json::Value::String(text.to_string()).to_string()
}

/// Puts a detail, already written as a JSON string literal, into the
/// payload that tells a client of a failure.
pub fn wrap_detail(quoted: &str) -> (payload: String)
    ensures
        payload@ == error_payload(quoted@),
{
    let mut payload = "{\"errors\":[{\"detail\":".to_owned();
    payload.append(quoted);
    payload.append("}]}");
    payload
}

/// The payload that tells a client of a failure with this detail.
pub fn error_body(detail: &str) -> (payload: String)
    ensures
        payload@ == error_payload(json_quoted(detail@)),
{
    let quoted = quote_json(detail);
    wrap_detail(quoted.as_str())
}

impl Response {
    /// An empty response with a status.
    pub fn new(status: u16) -> (response: Response)
        ensures
            response@ == bare(status),
    {
        Response { status, content_type: None, body: Vec::new(), error: None }
    }

    /// The response that serves a tarball.
    pub fn octet_stream(bytes: Vec<u8>) -> (response: Response)
        ensures
            response@ == tarball(bytes@),
    {
        Response {
            status: 200,
            content_type: Some("application/octet-stream".to_owned()),
            body: bytes,
            error: None,
        }
    }

    /// The response that a failed handler leaves.
    pub fn from_error(error: &Error) -> (response: Response)
        ensures
            response@ == failed(error@),
    {
        Response {
            status: error.status(),
            content_type: None,
            body: Vec::new(),
            error: Some(error.detail()),
        }
    }

    /// The response in the shape that Cargo reads.
    pub fn shaped(self) -> (response: Response)
        ensures
            response@ == shaped(self@),
    {
        match self.error {
            Some(detail) => {
                let payload = error_body(detail.as_str());
                Response {
                    status: 200,
                    content_type: Some("application/json".to_owned()),
                    body: payload.as_str().as_bytes_vec(),
                    error: Some(detail),
                }
            },
            None => self,
        }
    }
}

/// Shaping a response twice is shaping it once.
pub proof fn shaping_is_idempotent(response: ResponseView)
    ensures
        shaped(shaped(response)) == shaped(response),
{
}

/// A failure leaves the API with status 200, as JSON, whatever its kind.
pub proof fn failures_leave_alike(error: ErrorView)
    ensures
        shaped(failed(error)).status == 200,
        shaped(failed(error)).content_type == Some("application/json"@),
        shaped(failed(error)).body == encode_utf8(error_payload(json_quoted(detail_of(error)))),
{
}

/// A response that carries no error is not touched.
pub proof fn successes_pass_unshaped(response: ResponseView)
    requires
        response.error is None,
    ensures
        shaped(response) == response,
{
}

} // verus!
