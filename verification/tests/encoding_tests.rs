use std::io::Read;

use http_core::encoding::compress_response;
use http_core::encoding::negotiate_encoding;
use http_core::handler::handle;
use http_core::handler::FileOutcome;
use http_core::parser::parse_http_request;
use http_core::types::EncodingScheme;
use http_core::types::Response;
use http_core::types::ResponseStatus;

fn gunzip(bytes: &[u8]) -> Vec<u8> {
    let mut decoder = flate2::read::GzDecoder::new(bytes);
    let mut out = Vec::new();
    decoder.read_to_end(&mut out).unwrap();
    out
}

#[test]
fn gzip_is_negotiated_from_the_header() {
    let req = parse_http_request("GET / HTTP/1.1\r\nAccept-Encoding: gzip\r\n\r\n").unwrap();
    assert_eq!(negotiate_encoding(&req), EncodingScheme::GZIP);

    let req =
        parse_http_request("GET / HTTP/1.1\r\nAccept-Encoding: deflate, gzip, br\r\n\r\n").unwrap();
    assert_eq!(negotiate_encoding(&req), EncodingScheme::GZIP);

    let req = parse_http_request("GET / HTTP/1.1\r\nAccept-Encoding:  GZip \r\n\r\n").unwrap();
    assert_eq!(negotiate_encoding(&req), EncodingScheme::GZIP);
}

#[test]
fn absent_or_foreign_encodings_pick_none() {
    let req = parse_http_request("GET / HTTP/1.1\r\nHost: x\r\n\r\n").unwrap();
    assert_eq!(negotiate_encoding(&req), EncodingScheme::NONE);

    let req = parse_http_request("GET / HTTP/1.1\r\nAccept-Encoding: deflate, br\r\n\r\n").unwrap();
    assert_eq!(negotiate_encoding(&req), EncodingScheme::NONE);

    let req = parse_http_request("GET / HTTP/1.1\r\nAccept-Encoding: gzipped\r\n\r\n").unwrap();
    assert_eq!(negotiate_encoding(&req), EncodingScheme::NONE);
}

#[test]
fn none_scheme_leaves_the_body_unchanged() {
    let body = b"a body that stays as it is".to_vec();
    let resp = Response::new(ResponseStatus::Okay, "text/plain", "", body.clone());
    let out = compress_response(EncodingScheme::NONE, resp).unwrap();
    assert_eq!(out.response_body, body);
    assert_eq!(out.content_encoding, "");
    assert_eq!(out.content_length, body.len().to_string());
}

#[test]
fn gzip_scheme_compresses_and_relabels() {
    let body = b"hello hello hello hello hello hello hello hello".to_vec();
    let resp = Response::new(ResponseStatus::Okay, "text/plain", "", body.clone());
    let out = compress_response(EncodingScheme::GZIP, resp).unwrap();
    assert_eq!(out.content_encoding, "gzip");
    assert_ne!(out.response_body, body);
    assert_eq!(out.content_length, out.response_body.len().to_string());
    assert_eq!(gunzip(&out.response_body), body);
}

#[test]
fn echo_with_gzip_negotiated_is_decompressible() {
    let req = parse_http_request(
        "GET /echo/hello HTTP/1.1\r\nAccept-Encoding: gzip, deflate\r\n\r\n",
    )
    .unwrap();
    let resp = handle(req, FileOutcome::NotNeeded).unwrap();
    assert_eq!(resp.status, ResponseStatus::Okay);
    assert_eq!(resp.content_encoding, "gzip");
    assert_eq!(gunzip(&resp.response_body), b"hello".to_vec());
    assert_eq!(resp.content_length, resp.response_body.len().to_string());
}

#[test]
fn echo_without_gzip_stays_plain() {
    let req = parse_http_request("GET /echo/hello HTTP/1.1\r\nAccept-Encoding: br\r\n\r\n").unwrap();
    let resp = handle(req, FileOutcome::NotNeeded).unwrap();
    assert_eq!(resp.content_encoding, "");
    assert_eq!(resp.response_body, b"hello".to_vec());
}
