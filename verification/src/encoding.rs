//! Content negotiation and the gzip compression stage.
use vstd::prelude::*;

use std::io::Write;

use crate::router::comma_split;
use crate::text::CharClass;
use crate::text::lower_seq;
use crate::text::str_eq_ignore_case;
use crate::text::trim_seq;
use crate::text::trim_str;
use crate::router::split_str;
use crate::types::EncodingScheme;
use crate::types::Request;
use crate::types::RequestError;
use crate::types::Response;

verus! {

/// Whether a comma-separated `Accept-Encoding` value names gzip: some item,
/// trimmed and folded to lower case, is exactly `gzip`.
pub open spec fn accepts_gzip(value: Seq<char>) -> bool {
    exists|k: int|
        0 <= k < comma_split(value).len() && lower_seq(trim_seq(#[trigger] comma_split(value)[k]))
            == "gzip"@
}

/// The encoding a request negotiates: gzip exactly when its
/// `Accept-Encoding` header lists gzip.
pub open spec fn encoding_of(req: Request) -> EncodingScheme {
    if req.headers@.contains_key("Accept-Encoding"@) && accepts_gzip(
        req.headers@["Accept-Encoding"@],
    ) {
        EncodingScheme::GZIP
    } else {
        EncodingScheme::NONE
    }
}

/// Reads the request's `Accept-Encoding` header and picks the scheme.
#[verifier::loop_isolation(false)]
pub fn negotiate_encoding(req: &Request) -> (e: EncodingScheme)
    ensures
        e == encoding_of(*req),
{
    proof {
        reveal_strlit("gzip");
        assert(lower_seq("gzip"@) =~= "gzip"@);
    }
    match req.headers.get("Accept-Encoding") {
        Some(value) => {
            let items = split_str(value.as_str(), CharClass::NotComma);
            let n = items.len();
            let ghost gitems = comma_split(value@);
            let mut i: usize = 0;
            while i < n
                invariant
                    n == items@.len(),
                    i <= n,
                    items@.map_values(|x: String| x@) == gitems,
                    forall|k: int|
                        0 <= k < i ==> lower_seq(trim_seq(#[trigger] gitems[k])) != "gzip"@,
                decreases n - i,
            {
                proof {
                    assert(items@.map_values(|x: String| x@)[i as int] == items@[i as int]@);
                }
                let item = trim_str(items[i].as_str());
                if str_eq_ignore_case(item.as_str(), "gzip") {
                    proof {
                        assert(lower_seq(trim_seq(gitems[i as int])) == "gzip"@);
                    }
                    return EncodingScheme::GZIP;
                }
                i = i + 1;
            }
            EncodingScheme::NONE
        },
        None => EncodingScheme::NONE,
    }
}

/// The bytes that gzip compression at the default level produces for the
/// given input; a function of the input alone.
pub uninterp spec fn gzip_of(data: Seq<u8>) -> Seq<u8>;

/// Relies on flate2's `write::GzEncoder` at the default compression level:
/// the header it writes is fixed (no name, no time stamp) and the DEFLATE
/// stream depends on the input bytes alone, so what comes back is a
/// function of the input. The call succeeds: the sink is an in-memory
/// `Vec`, whose writes never fail, and the compressor reports an error
/// only for a missing preset dictionary or invalid parameters, neither of
/// which this use can produce.
#[verifier::external_body]
fn gzip_compress(data: &Vec<u8>) -> (r: Result<Vec<u8>, String>)
    ensures
        r is Ok,
        r matches Ok(z) ==> z@ == gzip_of(data@),
{
    let mut encoder = flate2::write::GzEncoder::new(Vec::new(), flate2::Compression::default());
    if let Err(e) = encoder.write_all(data.as_slice()) {
        return Err(format!("{}", e));
    }
    match encoder.finish() {
        Ok(z) => Ok(z),
        Err(e) => Err(format!("{}", e)),
    }
}

/// Rebuilds the response around the outcome of the gzip call: on success
/// the body is replaced by the compressed bytes, `Content-Encoding` is set
/// to `gzip` and the length is recomputed; a failure becomes a
/// `CompressionError` carrying the reported text.
pub fn apply_compression(response: Response, compressed: Result<Vec<u8>, String>) -> (r: Result<
    Response,
    RequestError,
>)
    ensures
        compressed matches Ok(z) ==> r matches Ok(resp) && resp.status == response.status
            && resp.content_type@ == response.content_type@ && resp.content_encoding@ == "gzip"@
            && resp.response_body == z && resp.wf(),
        compressed matches Err(e) ==> r matches Err(RequestError::CompressionError(m)) && m@ == e@,
{
    match compressed {
        Ok(z) => Ok(Response::new(response.status, response.content_type.as_str(), "gzip", z)),
        Err(e) => Err(RequestError::CompressionError(e)),
    }
}

/// Applies the negotiated scheme to a finished response, and succeeds on
/// every input. With `NONE` the response — its body bytes included —
/// passes through unchanged; with `GZIP` the body is replaced by its gzip
/// bytes, the encoding recorded and the length recomputed. The
/// `CompressionError` variant stays in the result type so that a gzip
/// failure would surface as a typed error, but in-memory compression does
/// not fail.
pub fn compress_response(scheme: EncodingScheme, response: Response) -> (r: Result<
    Response,
    RequestError,
>)
    ensures
        scheme == EncodingScheme::NONE ==> (r matches Ok(resp) && resp == response),
        scheme == EncodingScheme::GZIP ==> (r matches Ok(resp) && resp.status == response.status
            && resp.content_type@ == response.content_type@ && resp.content_encoding@ == "gzip"@
            && resp.response_body@ == gzip_of(response.response_body@) && resp.wf()),
{
    match scheme {
        EncodingScheme::NONE => Ok(response),
        EncodingScheme::GZIP => {
            let compressed = gzip_compress(&response.response_body);
            apply_compression(response, compressed)
        },
    }
}

/// Request decompression is a declared stage that passes the request
/// through unchanged; no request encoding is interpreted yet.
pub fn decompress_request(request: Request) -> (r: Result<Request, RequestError>)
    ensures
        r matches Ok(q) && q == request,
{
    Ok(request)
}

} // verus!
