//! Turning a response into wire bytes: status line, the three headers,
//! a blank line, then the raw body.
use vstd::prelude::*;

use vstd::utf8::encode_utf8;

use crate::text::dec_val;
use crate::text::lemma_dec_str_val;
use crate::types::Response;
use crate::types::ResponseStatus;

verus! {

/// The full status line each status is sent with.
pub open spec fn status_line(st: ResponseStatus) -> Seq<char> {
    match st {
        ResponseStatus::Okay => "HTTP/1.1 200 OK"@,
        ResponseStatus::Created => "HTTP/1.1 201 Created"@,
        ResponseStatus::BadRequest => "HTTP/1.1 400 Bad Request"@,
        ResponseStatus::NotFound => "HTTP/1.1 404 Not Found"@,
        ResponseStatus::InternalServerError => "HTTP/1.1 500 Internal Server Error"@,
    }
}

/// Every character of the serialized head, in wire order: the status line,
/// `Content-Type`, `Content-Encoding` when one is set, `Content-Length`,
/// and the blank line before the body.
pub open spec fn head_text(r: Response) -> Seq<char> {
    status_line(r.status) + "\r\n"@ + "Content-Type: "@ + r.content_type@ + "\r\n"@ + (
    if r.content_encoding@.len() > 0 {
        "Content-Encoding: "@ + r.content_encoding@ + "\r\n"@
    } else {
        Seq::<char>::empty()
    }) + "Content-Length: "@ + r.content_length@ + "\r\n"@ + "\r\n"@
}

/// Writes the status line of `st`.
fn status_line_str(st: ResponseStatus) -> (line: &'static str)
    ensures
        line@ == status_line(st),
{
    match st {
        ResponseStatus::Okay => "HTTP/1.1 200 OK",
        ResponseStatus::Created => "HTTP/1.1 201 Created",
        ResponseStatus::BadRequest => "HTTP/1.1 400 Bad Request",
        ResponseStatus::NotFound => "HTTP/1.1 404 Not Found",
        ResponseStatus::InternalServerError => "HTTP/1.1 500 Internal Server Error",
    }
}

/// Serializes a response: the head, UTF-8 encoded, followed by the raw
/// body bytes.
pub fn response_to_bytes(response: &Response) -> (bytes: Vec<u8>)
    ensures
        bytes@ == encode_utf8(head_text(*response)) + response.response_body@,
{
    let mut head = String::new();
    head.append(status_line_str(response.status));
    head.append("\r\n");
    head.append("Content-Type: ");
    head.append(response.content_type.as_str());
    head.append("\r\n");
    if !response.content_encoding.as_str().is_empty() {
        head.append("Content-Encoding: ");
        head.append(response.content_encoding.as_str());
        head.append("\r\n");
    }
    head.append("Content-Length: ");
    head.append(response.content_length.as_str());
    head.append("\r\n");
    head.append("\r\n");
    proof {
        assert(head@ =~= head_text(*response));
    }
    let mut bytes = head.as_str().as_bytes_vec();
    let n = response.response_body.len();
    let mut i: usize = 0;
    while i < n
        invariant
            n == response.response_body@.len(),
            i <= n,
            bytes@ == encode_utf8(head_text(*response)) + response.response_body@.subrange(
                0,
                i as int,
            ),
        decreases n - i,
    {
        bytes.push(response.response_body[i]);
        i = i + 1;
        proof {
            assert(bytes@ =~= encode_utf8(head_text(*response))
                + response.response_body@.subrange(0, i as int));
        }
    }
    proof {
        assert(bytes@ =~= encode_utf8(head_text(*response)) + response.response_body@);
    }
    bytes
}

/// Serializes a response onto the wire. The head always carries the
/// `Content-Length` text the response holds, and the blank line separates
/// it from the body bytes, which are emitted unchanged.
pub fn serialize_response(response: &Response) -> (bytes: Vec<u8>)
    ensures
        bytes@ == encode_utf8(head_text(*response)) + response.response_body@,
{
    response_to_bytes(response)
}

/// Law: the serialized bytes name their own body length. `serialize_response`
/// emits `head_text(r)` followed by the body bytes, `head_text` carries the
/// segment `"Content-Length: " ++ r.content_length ++ "\r\n"`, and for every
/// well-formed response those digits denote exactly the length of the body
/// bytes that follow the blank line.
pub proof fn lemma_content_length_round_trip(r: Response)
    requires
        r.wf(),
    ensures
        dec_val(r.content_length@) == r.response_body@.len(),
{
    lemma_dec_str_val(r.response_body@.len() as nat);
}

} // verus!
