//! The body of a response from a node's REST interface, and the words for
//! a request that failed.

use vstd::prelude::*;
use vstd::string::StringSliceAdditionalSpecFns;

verus! {

pub const DESERIALIZATION_ERROR_MSG: &'static str = "node returned malformed data";

/// The body of a response: text, or bytes where the node said that it sends
/// bytes.
#[derive(Clone, Debug, PartialEq, Eq)]
pub enum RestApiResponseBody {
    Text(String),
    Binary(Vec<u8>),
}

/// What a failed request says of itself, one flag for each question that can
/// be put to it.
#[derive(Clone, Copy, Debug, PartialEq, Eq, Structural)]
pub struct RequestFailure {
    pub timeout: bool,
    pub http: bool,
    pub serialization: bool,
    pub redirect: bool,
    pub client_error: bool,
    pub server_error: bool,
}

/// The hexadecimal digit, in lower case, of a number below sixteen.
pub open spec fn hex_digit(nibble: int) -> char {
    seq!['0', '1', '2', '3', '4', '5', '6', '7', '8', '9', 'a', 'b', 'c', 'd', 'e', 'f'][nibble]
}

/// `bytes` in hexadecimal: two digits for each byte, the high half first.
pub open spec fn hex_digits(bytes: Seq<u8>) -> Seq<char> {
    Seq::new(
        2 * bytes.len(),
        |i: int|
            if i % 2 == 0 {
                hex_digit(bytes[i / 2] as int / 16)
            } else {
                hex_digit(bytes[i / 2] as int % 16)
            },
    )
}

/// The text that `String::from_utf8_lossy` makes of `bytes`.
pub uninterp spec fn utf8_lossy(bytes: Seq<u8>) -> Seq<char>;

/// What `serde_json::from_str` makes of `text` when asked for a
/// `serde_json::Value`.
pub uninterp spec fn json_of_text(text: Seq<char>) -> Result<serde_json::Value, serde_json::Error>;

/// What `serde_json::from_slice` makes of `bytes` when asked for a
/// `serde_json::Value`.
pub uninterp spec fn json_of_bytes(bytes: Seq<u8>) -> Result<serde_json::Value, serde_json::Error>;

/// Whether the `mime` crate reads `content_type` as a media type equal to
/// its `APPLICATION_OCTET_STREAM`.
pub uninterp spec fn names_octet_stream(content_type: Seq<char>) -> bool;

/// `serde_json::Value`, a parsed JSON document. Nothing of its inside is
/// known here.
#[verifier::external_type_specification]
#[verifier::external_body]
pub struct ExJsonValue(serde_json::Value);

/// `serde_json::Error`, the reason a document did not parse. Nothing of its
/// inside is known here.
#[verifier::external_type_specification]
#[verifier::external_body]
pub struct ExJsonError(serde_json::Error);

/// `hex::encode`: each byte becomes two lower-case hexadecimal digits, the
/// high half first, in the order of the bytes.
#[verifier::external_body]
fn hex_encode(bytes: &Vec<u8>) -> (r: String)
    ensures
        r@ == hex_digits(bytes@),
{
    hex::encode(bytes)
}

/// `String::from_utf8_lossy`: the text of the bytes, in which each
/// sequence that is not valid UTF-8 is replaced by U+FFFD. The result
/// depends on the bytes alone; the contract gives it a name and says no
/// more of it.
#[verifier::external_body]
fn decode_lossy(bytes: &Vec<u8>) -> (r: String)
    ensures
        r@ == utf8_lossy(bytes@),
{
    String::from_utf8_lossy(bytes).into_owned()
}

/// `serde_json::from_str` for a `serde_json::Value`. The result depends on
/// the text alone; the contract gives it a name and says no more of it.
#[verifier::external_body]
fn json_from_str(text: &str) -> (r: Result<serde_json::Value, serde_json::Error>)
    ensures
        r == json_of_text(text@),
{
    serde_json::from_str(text)
}

/// `serde_json::from_slice` for a `serde_json::Value`. The result depends
/// on the bytes alone; the contract gives it a name and says no more of it.
#[verifier::external_body]
fn json_from_slice(bytes: &Vec<u8>) -> (r: Result<serde_json::Value, serde_json::Error>)
    ensures
        r == json_of_bytes(bytes@),
{
    serde_json::from_slice(bytes)
}

/// Parses `content_type` with `mime::Mime`'s `FromStr` and compares what
/// comes out with `mime::APPLICATION_OCTET_STREAM` by `Mime`'s own `==`; a
/// text that does not parse is not equal. The result depends on the text
/// alone; the contract gives it a name and says no more of it.
#[verifier::external_body]
fn is_octet_stream(content_type: &str) -> (r: bool)
    ensures
        r == names_octet_stream(content_type@),
{
    content_type.parse::<mime::Mime>().ok() == Some(mime::APPLICATION_OCTET_STREAM)
}

/// The words for a failed request. The first flag that is set decides, in
/// the order timeout, connection, malformed data, redirection, rejected
/// request, node error.
pub open spec fn failure_message(err: RequestFailure) -> Seq<char> {
    if err.timeout {
        "connection with node timed out"@
    } else if err.http {
        "could not connect with node"@
    } else if err.serialization {
        DESERIALIZATION_ERROR_MSG@
    } else if err.redirect {
        "redirecting error while connecting with node"@
    } else if err.client_error {
        "node rejected request because of invalid parameters"@
    } else if err.server_error {
        "node internal error"@
    } else {
        "communication with node failed in unexpected way"@
    }
}

/// The words for a failed request.
pub fn reqwest_error_msg(err: &RequestFailure) -> (r: &'static str)
    ensures
        r@ == failure_message(*err),
{
    if err.timeout {
        "connection with node timed out"
    } else if err.http {
        "could not connect with node"
    } else if err.serialization {
        DESERIALIZATION_ERROR_MSG
    } else if err.redirect {
        "redirecting error while connecting with node"
    } else if err.client_error {
        "node rejected request because of invalid parameters"
    } else if err.server_error {
        "node internal error"
    } else {
        "communication with node failed in unexpected way"
    }
}

/// Whether a response with this `Content-Type` header carries bytes rather
/// than text: the header is there and names the octet-stream media type.
pub fn is_body_binary(content_type: Option<&str>) -> (r: bool)
    ensures
        r == match content_type {
            Some(text) => names_octet_stream(text@),
            None => false,
        },
{
    match content_type {
        Some(text) => is_octet_stream(text),
        None => false,
    }
}

impl RestApiResponseBody {
    /// The body as text. Bytes are read as UTF-8, with U+FFFD in place of
    /// what is not.
    pub fn text(&self) -> (r: String)
        ensures
            r@ == match self {
                RestApiResponseBody::Text(text) => text@,
                RestApiResponseBody::Binary(binary) => utf8_lossy(binary@),
            },
    {
        match self {
            RestApiResponseBody::Text(text) => text.clone(),
            RestApiResponseBody::Binary(binary) => decode_lossy(binary),
        }
    }

    /// The body as bytes. Text is given in UTF-8.
    pub fn binary(&self) -> (r: &[u8])
        ensures
            r@ == match self {
                RestApiResponseBody::Text(text) => vstd::utf8::encode_utf8(text@),
                RestApiResponseBody::Binary(binary) => binary@,
            },
    {
        match self {
            RestApiResponseBody::Text(text) => text.as_str().as_bytes(),
            RestApiResponseBody::Binary(binary) => binary.as_slice(),
        }
    }

    /// The body read as a JSON document: text by `serde_json::from_str`,
    /// bytes by `serde_json::from_slice`.
    pub fn json_value(&self) -> (r: Result<serde_json::Value, serde_json::Error>)
        ensures
            r == match self {
                RestApiResponseBody::Text(text) => json_of_text(text@),
                RestApiResponseBody::Binary(binary) => json_of_bytes(binary@),
            },
    {
        match self {
            RestApiResponseBody::Text(text) => json_from_str(text.as_str()),
            RestApiResponseBody::Binary(binary) => json_from_slice(binary),
        }
    }

    /// Whether the body holds no character and no byte.
    pub fn is_empty(&self) -> (r: bool)
        ensures
            r == match self {
                RestApiResponseBody::Text(text) => text@.len() == 0,
                RestApiResponseBody::Binary(binary) => binary@.len() == 0,
            },
    {
        match self {
            RestApiResponseBody::Text(text) => text.as_str().is_empty(),
            RestApiResponseBody::Binary(binary) => binary.len() == 0,
        }
    }

    /// The body for display: text as it is, bytes in hexadecimal.
    pub fn to_string(&self) -> (r: String)
        ensures
            r@ == match self {
                RestApiResponseBody::Text(text) => text@,
                RestApiResponseBody::Binary(binary) => hex_digits(binary@),
            },
    {
        match self {
            RestApiResponseBody::Text(text) => text.clone(),
            RestApiResponseBody::Binary(binary) => hex_encode(binary),
        }
    }
}

} // verus!
