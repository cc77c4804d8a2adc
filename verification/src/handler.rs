//! Handling a parsed request end to end: negotiate the encoding, route,
//! fold in the caller's file-storage answer, compress.
//!
//! File storage itself is a collaborator outside this crate: the caller
//! first routes the request, performs the one file operation the route
//! asks for, and hands the outcome in as a `FileOutcome`.
use vstd::prelude::*;

use crate::encoding::compress_response;
use crate::encoding::decompress_request;
use crate::encoding::encoding_of;
use crate::encoding::gzip_of;
use crate::encoding::negotiate_encoding;
use crate::router::HandleStep;
use crate::router::ReplyModel;
use crate::router::RouteModel;
use crate::router::file_found_response;
use crate::router::file_stored_response;
use crate::router::reply_matches;
use crate::router::route_request;
use crate::router::route_spec;
use crate::types::EncodingScheme;
use crate::types::Request;
use crate::types::RequestError;
use crate::types::Response;
use crate::types::ResponseStatus;

verus! {

/// The file-storage collaborator's answer for the one file operation a
/// request's route needs: nothing for routes without file storage, the
/// file's contents or their absence for a lookup, success or failure for
/// a store.
pub enum FileOutcome {
    NotNeeded,
    Found(Vec<u8>),
    Missing,
    Stored,
    StoreFailed,
}

/// Whether `files` answers exactly what the request's route asks.
pub open spec fn outcome_fits(req: Request, files: FileOutcome) -> bool {
    match route_spec(req) {
        RouteModel::FileRead(_) => files is Found || files is Missing,
        RouteModel::FileWrite(_, _) => files is Stored || files is StoreFailed,
        _ => files is NotNeeded,
    }
}

/// The reply a request yields before compression, given the collaborator's
/// answer; or the message of its route-level failure.
pub open spec fn base_reply(req: Request, files: FileOutcome) -> Result<ReplyModel, Seq<char>> {
    match route_spec(req) {
        RouteModel::Reply(m) => Ok(m),
        RouteModel::Fail(msg) => Err(msg),
        RouteModel::FileRead(_) => match files {
            FileOutcome::Found(data) => Ok(
                ReplyModel {
                    status: ResponseStatus::Okay,
                    content_type: "application/octet-stream"@,
                    body: data@,
                },
            ),
            _ => Ok(
                ReplyModel {
                    status: ResponseStatus::NotFound,
                    content_type: "text/plain"@,
                    body: Seq::empty(),
                },
            ),
        },
        RouteModel::FileWrite(_, _) => match files {
            FileOutcome::Stored => Ok(
                ReplyModel {
                    status: ResponseStatus::Created,
                    content_type: "text/plain"@,
                    body: Seq::empty(),
                },
            ),
            _ => Ok(
                ReplyModel {
                    status: ResponseStatus::BadRequest,
                    content_type: "text/plain"@,
                    body: Seq::empty(),
                },
            ),
        },
    }
}

/// Handles a parsed request, given the file-storage answer its route needs.
///
/// A route-level failure comes back as a `HandlingError` with its message;
/// every other request yields a response: the reply `base_reply` names,
/// unchanged when the request did not negotiate gzip, and gzip-compressed,
/// with `Content-Encoding` set and the length recomputed, when it did.
pub fn handle(request: Request, files: FileOutcome) -> (r: Result<Response, RequestError>)
    requires
        outcome_fits(request, files),
    ensures
        ({
            let enc = encoding_of(request);
            match base_reply(request, files) {
                Err(msg) => r matches Err(RequestError::HandlingError(m)) && m@ == msg,
                Ok(m) => {
                    &&& (enc == EncodingScheme::NONE ==> (r matches Ok(resp) && reply_matches(
                        resp,
                        m,
                    )))
                    &&& (enc == EncodingScheme::GZIP ==> (r matches Ok(resp) && resp.status
                        == m.status && resp.content_type@ == m.content_type
                        && resp.content_encoding@ == "gzip"@ && resp.response_body@ == gzip_of(
                        m.body,
                    ) && resp.wf()))
                },
            }
        }),
{
    let ghost model = route_spec(request);
    let scheme = negotiate_encoding(&request);
    let request = match decompress_request(request) {
        Ok(q) => q,
        Err(e) => { return Err(e) },
    };
    proof {
        assert(route_spec(request) == model);
    }
    let step = match route_request(&request) {
        Ok(s) => s,
        Err(e) => { return Err(e) },
    };
    match step {
        HandleStep::Reply(resp) => compress_response(scheme, resp),
        HandleStep::FetchFile(_) => match files {
            FileOutcome::Found(data) => compress_response(scheme, file_found_response(Some(data))),
            FileOutcome::Missing => compress_response(scheme, file_found_response(None)),
            // ruled out by `outcome_fits`: a lookup is answered by Found or
            // Missing alone
            _ => {
                proof {
                    assert(false);
                }
                Err(RequestError::HandlingError(String::new()))
            },
        },
        HandleStep::StoreFile(_, _) => match files {
            FileOutcome::Stored => compress_response(scheme, file_stored_response(true)),
            FileOutcome::StoreFailed => compress_response(scheme, file_stored_response(false)),
            // ruled out by `outcome_fits`: a store is answered by Stored or
            // StoreFailed alone
            _ => {
                proof {
                    assert(false);
                }
                Err(RequestError::HandlingError(String::new()))
            },
        },
    }
}

} // verus!
