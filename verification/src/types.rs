//! The request/response data model.
use vstd::prelude::*;

use crate::headers::Headers;
use crate::text::dec_str;
use crate::text::dec_string;

verus! {

/// The request methods the router distinguishes; anything else parses as
/// `UNKNOWN` rather than failing.
#[derive(Clone, Copy, PartialEq, Eq, Structural, Debug)]
pub enum HttpMethod {
    GET,
    POST,
    PATCH,
    PUT,
    DELETE,
    UNKNOWN,
}

/// The negotiated body compression: gzip or none.
#[derive(Clone, Copy, PartialEq, Eq, Structural, Debug)]
pub enum EncodingScheme {
    GZIP,
    NONE,
}

/// The status a response is sent with.
#[derive(Clone, Copy, PartialEq, Eq, Structural, Debug)]
pub enum ResponseStatus {
    Okay,
    Created,
    BadRequest,
    NotFound,
    InternalServerError,
}

/// Why a raw message could not be parsed into a request.
#[derive(Clone, Copy, PartialEq, Eq, Structural, Debug)]
pub enum ParseError {
    /// The input is not valid UTF-8.
    InvalidUtf8,
    /// The method token at the start of the request line is empty.
    EmptyMethod,
    /// No space follows the method token.
    MissingSpaceAfterMethod,
    /// No space follows the path token.
    MissingSpaceAfterPath,
    /// The literal `HTTP/` does not follow the path.
    MissingHttpPrefix,
}

/// A failure while turning a parsed request into wire bytes.
#[derive(Debug)]
pub enum RequestError {
    /// The request body could not be decompressed.
    DecompressionError(String),
    /// A route-level requirement was not met.
    HandlingError(String),
    /// The gzip stage failed to compress the response body.
    CompressionError(String),
}

impl RequestError {
    /// A readable description of the failure.
    pub fn text(&self) -> (m: String)
        ensures
            match self {
                RequestError::DecompressionError(d) => m@ == "Decompression error: "@ + d@,
                RequestError::HandlingError(d) => m@ == "Handling error: "@ + d@,
                RequestError::CompressionError(d) => m@ == "Compression error: "@ + d@,
            },
    {
        match self {
            RequestError::DecompressionError(d) => String::from_str("Decompression error: ").concat(
                d.as_str(),
            ),
            RequestError::HandlingError(d) => String::from_str("Handling error: ").concat(
                d.as_str(),
            ),
            RequestError::CompressionError(d) => String::from_str("Compression error: ").concat(
                d.as_str(),
            ),
        }
    }
}

/// A parsed request. Method, path and version are always present; headers
/// and body may be empty.
#[derive(Debug)]
pub struct Request {
    pub method: HttpMethod,
    pub path: String,
    pub version: String,
    pub headers: Headers,
    pub body: String,
}

/// A response about to be serialized. `content_length` is kept equal to the
/// decimal length of `response_body`; `content_encoding` is empty until the
/// compression stage sets it.
#[derive(Debug)]
pub struct Response {
    pub status: ResponseStatus,
    pub content_type: String,
    pub content_length: String,
    pub content_encoding: String,
    pub response_body: Vec<u8>,
}

impl Response {
    /// The structural invariant: the recorded length is the decimal text of
    /// the body's byte length.
    pub open spec fn wf(&self) -> bool {
        self.content_length@ == dec_str(self.response_body@.len() as nat)
    }

    /// Builds a response, deriving `content_length` from the body.
    pub fn new(
        status: ResponseStatus,
        content_type: &str,
        content_encoding: &str,
        response_body: Vec<u8>,
    ) -> (r: Response)
        ensures
            r.status == status,
            r.content_type@ == content_type@,
            r.content_encoding@ == content_encoding@,
            r.response_body == response_body,
            r.wf(),
    {
        let content_length = dec_string(response_body.len());
        Response {
            status,
            content_type: content_type.to_owned(),
            content_length,
            content_encoding: content_encoding.to_owned(),
            response_body,
        }
    }
}

} // verus!
