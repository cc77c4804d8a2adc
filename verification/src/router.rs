//! The fixed router: the first path segment picks one of a small set of
//! behaviors; file-storage routes hand the file name (and body) out to the
//! caller, everything else is answered in place.
use vstd::prelude::*;

use vstd::utf8::encode_utf8;

use crate::text::CharClass;
use crate::text::lemma_run_end_bounds;
use crate::text::run_end;
use crate::text::scan_while;
use crate::text::str_eq;
use crate::types::Request;
use crate::types::RequestError;
use crate::types::Response;
use crate::types::ResponseStatus;
use crate::types::HttpMethod;

verus! {

/// The segments of `s` from position `i` on, split at every character
/// outside class `k` (the separator); each separator is one character.
pub open spec fn split_from(s: Seq<char>, i: int, k: CharClass) -> Seq<Seq<char>>
    decreases s.len() - i
        when 0 <= i <= s.len()
        via split_from_dec
{
    let e = run_end(s, i, k);
    if e == s.len() {
        seq![s.subrange(i, e)]
    } else {
        seq![s.subrange(i, e)] + split_from(s, e + 1, k)
    }
}

#[via_fn]
proof fn split_from_dec(s: Seq<char>, i: int, k: CharClass) {
    lemma_run_end_bounds(s, i, k);
}

/// The segments of a path, split at every `/`.
pub open spec fn path_segments(s: Seq<char>) -> Seq<Seq<char>> {
    split_from(s, 0, CharClass::NotSlash)
}

/// The items of a comma-separated list, not yet trimmed.
pub open spec fn comma_split(s: Seq<char>) -> Seq<Seq<char>> {
    split_from(s, 0, CharClass::NotComma)
}

/// Splits `s` at every character outside class `k`. A separator at either
/// edge or two adjacent ones yield empty segments, as `str::split` does.
pub fn split_str(s: &str, k: CharClass) -> (v: Vec<String>)
    ensures
        v@.map_values(|x: String| x@) == split_from(s@, 0, k),
        v@.len() >= 1,
{
    let len = s.unicode_len();
    let mut v: Vec<String> = Vec::new();
    let mut i: usize = 0;
    loop
        invariant
            len == s@.len(),
            i <= len,
            split_from(s@, 0, k) == v@.map_values(|x: String| x@) + split_from(s@, i as int, k),
        decreases len - i,
    {
        let e = scan_while(s, len, i, k);
        let ghost pre = v@.map_values(|x: String| x@);
        let seg = s.substring_char(i, e).to_owned();
        v.push(seg);
        proof {
            assert(v@.map_values(|x: String| x@) =~= pre.push(s@.subrange(i as int, e as int)));
        }
        if e == len {
            proof {
                assert(split_from(s@, i as int, k) =~= seq![s@.subrange(i as int, e as int)]);
                assert(pre + split_from(s@, i as int, k) =~= v@.map_values(|x: String| x@));
                assert(v@.map_values(|x: String| x@).len() == v@.len());
            }
            return v;
        }
        proof {
            assert(split_from(s@, i as int, k) == seq![s@.subrange(i as int, e as int)]
                + split_from(s@, e + 1, k));
            assert(pre + split_from(s@, i as int, k) =~= v@.map_values(|x: String| x@)
                + split_from(s@, e + 1, k));
        }
        i = e + 1;
    }
}

/// What a routed reply looks like before compression: a status, a MIME
/// type, and the body bytes.
pub struct ReplyModel {
    pub status: ResponseStatus,
    pub content_type: Seq<char>,
    pub body: Seq<u8>,
}

/// What the router decides for a request: a finished reply, a file to look
/// up, a file to store together with the request body, or a route-level
/// failure with its message.
pub enum RouteModel {
    Reply(ReplyModel),
    FileRead(Seq<char>),
    FileWrite(Seq<char>, Seq<char>),
    Fail(Seq<char>),
}

/// A finished `text/plain` reply.
pub open spec fn text_reply(status: ResponseStatus, body: Seq<u8>) -> RouteModel {
    RouteModel::Reply(ReplyModel { status, content_type: "text/plain"@, body })
}

/// The route a request takes. The first segment of the path (empty, since
/// a path starts with `/`) is discarded and the second picks the behavior;
/// an unknown method is answered `BadRequest`, an unknown route `NotFound`.
pub open spec fn route_spec(req: Request) -> RouteModel {
    let segs = path_segments(req.path@);
    if segs.len() < 2 {
        text_reply(ResponseStatus::Okay, Seq::empty())
    } else {
        let seg = segs[1];
        if req.method == HttpMethod::GET && seg == "echo"@ {
            let content = if segs.len() >= 3 {
                segs[2]
            } else {
                Seq::<char>::empty()
            };
            text_reply(ResponseStatus::Okay, encode_utf8(content))
        } else if req.method == HttpMethod::GET && seg == "user-agent"@ {
            if req.headers@.contains_key("User-Agent"@) {
                text_reply(ResponseStatus::Okay, encode_utf8(req.headers@["User-Agent"@]))
            } else {
                RouteModel::Fail("no User-Agent header in the request"@)
            }
        } else if req.method == HttpMethod::GET && seg == "files"@ {
            let name = if segs.len() >= 3 {
                segs[2]
            } else {
                Seq::<char>::empty()
            };
            if name.len() == 0 {
                text_reply(ResponseStatus::BadRequest, Seq::empty())
            } else {
                RouteModel::FileRead(name)
            }
        } else if req.method == HttpMethod::POST && seg == "files"@ {
            let name = if segs.len() >= 3 {
                segs[2]
            } else {
                Seq::<char>::empty()
            };
            if name.len() == 0 {
                text_reply(ResponseStatus::BadRequest, Seq::empty())
            } else {
                RouteModel::FileWrite(name, req.body@)
            }
        } else if req.method == HttpMethod::GET && seg.len() == 0 {
            text_reply(ResponseStatus::Okay, Seq::empty())
        } else if req.method == HttpMethod::UNKNOWN {
            text_reply(ResponseStatus::BadRequest, Seq::empty())
        } else {
            text_reply(ResponseStatus::NotFound, Seq::empty())
        }
    }
}

/// The step the router asks the caller to take next: send a finished
/// response, look a file up, or store one.
pub enum HandleStep {
    Reply(Response),
    FetchFile(String),
    StoreFile(String, String),
}

/// Whether a response realizes a reply model: same status, type and body,
/// no encoding set, and the length invariant holding.
pub open spec fn reply_matches(resp: Response, m: ReplyModel) -> bool {
    &&& resp.status == m.status
    &&& resp.content_type@ == m.content_type
    &&& resp.content_encoding@.len() == 0
    &&& resp.response_body@ == m.body
    &&& resp.wf()
}

/// Whether a router result realizes a route model.
pub open spec fn step_matches(r: Result<HandleStep, RequestError>, model: RouteModel) -> bool {
    match model {
        RouteModel::Reply(m) => r matches Ok(HandleStep::Reply(resp)) && reply_matches(resp, m),
        RouteModel::FileRead(n) => r matches Ok(HandleStep::FetchFile(f)) && f@ == n,
        RouteModel::FileWrite(n, b) => r matches Ok(HandleStep::StoreFile(f, c)) && f@ == n && c@
            == b,
        RouteModel::Fail(msg) => r matches Err(RequestError::HandlingError(m)) && m@ == msg,
    }
}

/// Routes a request: answers non-file routes in place and hands file
/// routes out as a `FetchFile` or `StoreFile` step. The one route-level
/// failure is a `user-agent` request without a `User-Agent` header.
pub fn route_request(req: &Request) -> (r: Result<HandleStep, RequestError>)
    ensures
        step_matches(r, route_spec(*req)),
{
    proof {
        reveal_strlit("");
    }
    let segs = split_str(req.path.as_str(), CharClass::NotSlash);
    let ghost gsegs = path_segments(req.path@);
    if segs.len() < 2 {
        return Ok(HandleStep::Reply(Response::new(ResponseStatus::Okay, "text/plain", "", Vec::new())));
    }
    assert(segs[1]@ == gsegs[1]);
    assert(segs@.len() >= 3 ==> segs[2]@ == gsegs[2]);
    let is_get = req.method == HttpMethod::GET;
    let is_post = req.method == HttpMethod::POST;
    if is_get && str_eq(segs[1].as_str(), "echo") {
        let content: &str = if segs.len() >= 3 {
            segs[2].as_str()
        } else {
            ""
        };
        let body = content.as_bytes_vec();
        Ok(HandleStep::Reply(Response::new(ResponseStatus::Okay, "text/plain", "", body)))
    } else if is_get && str_eq(segs[1].as_str(), "user-agent") {
        match req.headers.get("User-Agent") {
            Some(ua) => {
                let body = ua.as_str().as_bytes_vec();
                Ok(HandleStep::Reply(Response::new(ResponseStatus::Okay, "text/plain", "", body)))
            },
            None => Err(
                RequestError::HandlingError(
                    String::from_str("no User-Agent header in the request"),
                ),
            ),
        }
    } else if is_get && str_eq(segs[1].as_str(), "files") {
        if segs.len() >= 3 && !segs[2].as_str().is_empty() {
            Ok(HandleStep::FetchFile(segs[2].clone()))
        } else {
            Ok(
                HandleStep::Reply(
                    Response::new(ResponseStatus::BadRequest, "text/plain", "", Vec::new()),
                ),
            )
        }
    } else if is_post && str_eq(segs[1].as_str(), "files") {
        if segs.len() >= 3 && !segs[2].as_str().is_empty() {
            Ok(HandleStep::StoreFile(segs[2].clone(), req.body.clone()))
        } else {
            Ok(
                HandleStep::Reply(
                    Response::new(ResponseStatus::BadRequest, "text/plain", "", Vec::new()),
                ),
            )
        }
    } else if is_get && segs[1].as_str().is_empty() {
        Ok(HandleStep::Reply(Response::new(ResponseStatus::Okay, "text/plain", "", Vec::new())))
    } else if req.method == HttpMethod::UNKNOWN {
        Ok(
            HandleStep::Reply(
                Response::new(ResponseStatus::BadRequest, "text/plain", "", Vec::new()),
            ),
        )
    } else {
        Ok(HandleStep::Reply(Response::new(ResponseStatus::NotFound, "text/plain", "", Vec::new())))
    }
}

/// Builds the response for a `files` lookup the caller performed: the file
/// contents when the file was found, `NotFound` otherwise.
pub fn file_found_response(contents: Option<Vec<u8>>) -> (resp: Response)
    ensures
        resp.wf(),
        resp.content_encoding@.len() == 0,
        match contents {
            Some(data) => resp.status == ResponseStatus::Okay && resp.content_type@
                == "application/octet-stream"@ && resp.response_body == data,
            None => resp.status == ResponseStatus::NotFound && resp.content_type@ == "text/plain"@
                && resp.response_body@ == Seq::<u8>::empty(),
        },
{
    proof {
        reveal_strlit("");
    }
    match contents {
        Some(data) => Response::new(ResponseStatus::Okay, "application/octet-stream", "", data),
        None => Response::new(ResponseStatus::NotFound, "text/plain", "", Vec::new()),
    }
}

/// Builds the response for a `files` store the caller performed: `Created`
/// when the write succeeded, `BadRequest` otherwise.
pub fn file_stored_response(stored: bool) -> (resp: Response)
    ensures
        resp.wf(),
        resp.content_encoding@.len() == 0,
        resp.content_type@ == "text/plain"@,
        resp.response_body@ == Seq::<u8>::empty(),
        resp.status == if stored {
            ResponseStatus::Created
        } else {
            ResponseStatus::BadRequest
        },
{
    proof {
        reveal_strlit("");
    }
    if stored {
        Response::new(ResponseStatus::Created, "text/plain", "", Vec::new())
    } else {
        Response::new(ResponseStatus::BadRequest, "text/plain", "", Vec::new())
    }
}

} // verus!
