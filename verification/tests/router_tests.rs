use http_core::handler::handle;
use http_core::handler::FileOutcome;
use http_core::parser::parse_http_request;
use http_core::router::route_request;
use http_core::router::HandleStep;
use http_core::types::RequestError;
use http_core::types::ResponseStatus;

#[test]
fn echo_route_returns_segment() {
    let req = parse_http_request("GET /echo/hello HTTP/1.1\r\nHost: x\r\n\r\n").unwrap();
    let resp = handle(req, FileOutcome::NotNeeded).unwrap();
    assert_eq!(resp.status, ResponseStatus::Okay);
    assert_eq!(resp.content_type, "text/plain");
    assert_eq!(resp.content_encoding, "");
    assert_eq!(resp.response_body, b"hello".to_vec());
    assert_eq!(resp.content_length, "5");
}

#[test]
fn echo_route_with_no_segment_is_empty() {
    let req = parse_http_request("GET /echo HTTP/1.1\r\n\r\n").unwrap();
    let resp = handle(req, FileOutcome::NotNeeded).unwrap();
    assert_eq!(resp.status, ResponseStatus::Okay);
    assert_eq!(resp.response_body, Vec::<u8>::new());
    assert_eq!(resp.content_length, "0");
}

#[test]
fn user_agent_route_returns_header_value() {
    let req = parse_http_request("GET /user-agent HTTP/1.1\r\nUser-Agent: curl/8\r\n\r\n").unwrap();
    let resp = handle(req, FileOutcome::NotNeeded).unwrap();
    assert_eq!(resp.status, ResponseStatus::Okay);
    assert_eq!(resp.response_body, b"curl/8".to_vec());
}

#[test]
fn user_agent_route_without_header_is_a_handling_error() {
    let req = parse_http_request("GET /user-agent HTTP/1.1\r\nHost: x\r\n\r\n").unwrap();
    let err = handle(req, FileOutcome::NotNeeded).unwrap_err();
    assert!(matches!(err, RequestError::HandlingError(_)));
    assert_eq!(
        err.text(),
        "Handling error: no User-Agent header in the request"
    );
}

#[test]
fn unknown_route_is_not_found() {
    let req = parse_http_request("GET /nope HTTP/1.1\r\n\r\n").unwrap();
    let resp = handle(req, FileOutcome::NotNeeded).unwrap();
    assert_eq!(resp.status, ResponseStatus::NotFound);
}

#[test]
fn root_route_is_ok_and_empty() {
    let req = parse_http_request("GET / HTTP/1.1\r\nHost: x\r\n\r\n").unwrap();
    let resp = handle(req, FileOutcome::NotNeeded).unwrap();
    assert_eq!(resp.status, ResponseStatus::Okay);
    assert_eq!(resp.content_type, "text/plain");
    assert_eq!(resp.response_body, Vec::<u8>::new());
}

#[test]
fn unknown_method_is_bad_request() {
    let req = parse_http_request("BREW /echo/x HTTP/1.1\r\n\r\n").unwrap();
    let resp = handle(req, FileOutcome::NotNeeded).unwrap();
    assert_eq!(resp.status, ResponseStatus::BadRequest);
}

#[test]
fn known_method_on_wrong_route_is_not_found() {
    let req = parse_http_request("POST /echo/x HTTP/1.1\r\n\r\n").unwrap();
    let resp = handle(req, FileOutcome::NotNeeded).unwrap();
    assert_eq!(resp.status, ResponseStatus::NotFound);
}

#[test]
fn files_get_asks_for_a_lookup() {
    let req = parse_http_request("GET /files/file_123 HTTP/1.1\r\n\r\n").unwrap();
    match route_request(&req).unwrap() {
        HandleStep::FetchFile(name) => assert_eq!(name, "file_123"),
        _ => panic!("expected a file lookup"),
    }
}

#[test]
fn files_get_found_serves_the_contents() {
    let req = parse_http_request("GET /files/file_123 HTTP/1.1\r\n\r\n").unwrap();
    let resp = handle(req, FileOutcome::Found(b"payload".to_vec())).unwrap();
    assert_eq!(resp.status, ResponseStatus::Okay);
    assert_eq!(resp.content_type, "application/octet-stream");
    assert_eq!(resp.response_body, b"payload".to_vec());
    assert_eq!(resp.content_length, "7");
}

#[test]
fn files_get_missing_is_not_found() {
    let req = parse_http_request("GET /files/file_123 HTTP/1.1\r\n\r\n").unwrap();
    let resp = handle(req, FileOutcome::Missing).unwrap();
    assert_eq!(resp.status, ResponseStatus::NotFound);
}

#[test]
fn files_get_without_name_is_bad_request() {
    let req = parse_http_request("GET /files HTTP/1.1\r\n\r\n").unwrap();
    let resp = handle(req, FileOutcome::NotNeeded).unwrap();
    assert_eq!(resp.status, ResponseStatus::BadRequest);
    let req = parse_http_request("GET /files/ HTTP/1.1\r\n\r\n").unwrap();
    let resp = handle(req, FileOutcome::NotNeeded).unwrap();
    assert_eq!(resp.status, ResponseStatus::BadRequest);
}

#[test]
fn files_post_asks_for_a_store() {
    let req = parse_http_request("POST /files/out.txt HTTP/1.1\r\nHost: x\r\n\r\ndata").unwrap();
    match route_request(&req).unwrap() {
        HandleStep::StoreFile(name, body) => {
            assert_eq!(name, "out.txt");
            assert_eq!(body, "data");
        }
        _ => panic!("expected a file store"),
    }
}

#[test]
fn files_post_stored_is_created() {
    let req = parse_http_request("POST /files/out.txt HTTP/1.1\r\n\r\ndata").unwrap();
    let resp = handle(req, FileOutcome::Stored).unwrap();
    assert_eq!(resp.status, ResponseStatus::Created);
    assert_eq!(resp.response_body, Vec::<u8>::new());
}

#[test]
fn files_post_failed_store_is_bad_request() {
    let req = parse_http_request("POST /files/out.txt HTTP/1.1\r\n\r\ndata").unwrap();
    let resp = handle(req, FileOutcome::StoreFailed).unwrap();
    assert_eq!(resp.status, ResponseStatus::BadRequest);
}

#[test]
fn files_post_without_name_is_bad_request() {
    let req = parse_http_request("POST /files/ HTTP/1.1\r\n\r\ndata").unwrap();
    let resp = handle(req, FileOutcome::NotNeeded).unwrap();
    assert_eq!(resp.status, ResponseStatus::BadRequest);
}

#[test]
fn unicode_echo_route_is_served() {
    let req = parse_http_request("GET /echo/h\u{e9}llo HTTP/1.1\r\nHost: x\r\n\r\n").unwrap();
    let resp = handle(req, FileOutcome::NotNeeded).unwrap();
    assert_eq!(resp.status, ResponseStatus::Okay);
    assert_eq!(resp.response_body, "h\u{e9}llo".as_bytes().to_vec());
    assert_eq!(resp.content_length, "6");
}

#[test]
fn backslash_echo_route_is_served() {
    let req = parse_http_request("GET \\echo\\hi HTTP/1.1\r\nHost: x\r\n\r\n").unwrap();
    let resp = handle(req, FileOutcome::NotNeeded).unwrap();
    assert_eq!(resp.status, ResponseStatus::Okay);
    assert_eq!(resp.response_body, b"hi".to_vec());
}

#[test]
fn path_without_slash_is_answered_ok() {
    let req = parse_http_request("GET plain HTTP/1.1\r\n\r\n").unwrap();
    let resp = handle(req, FileOutcome::NotNeeded).unwrap();
    assert_eq!(resp.status, ResponseStatus::Okay);
}
