use http_core::parser::parse_http_request;
use http_core::parser::parse_request;
use http_core::text::is_token_char;
use http_core::text::normalize_slashes;
use http_core::types::HttpMethod;
use http_core::types::ParseError;

#[test]
fn parse_http() {
    let input = "GET /tweets HTTP/1.1
            User-Agent: PostmanRuntime/7.32.3
            Accept: */*
            Cache-Control: no-cache
            Postman-Token: 953cc42d-60e6-4155-ab58-54d958c62304
            Host: localhost:4221
            Accept-Encoding: gzip, deflate, br
            Connection: keep-alive
            \r\n

            Test Body
        ";

    match parse_http_request(input) {
        Ok(result) => {
            assert_eq!(result.method, HttpMethod::GET);
            assert_eq!(result.path, "/tweets");
            assert_eq!(result.version, "1.1");
            assert_eq!(
                result.headers.get("User-Agent").unwrap(),
                "PostmanRuntime/7.32.3"
            );
            assert_eq!(result.headers.get("Accept").unwrap(), "*/*");
            assert_eq!(result.headers.get("Cache-Control").unwrap(), "no-cache");
            assert_eq!(
                result.headers.get("Postman-Token").unwrap(),
                "953cc42d-60e6-4155-ab58-54d958c62304"
            );
            assert_eq!(result.headers.get("Host").unwrap(), "localhost:4221");
            assert_eq!(
                result.headers.get("Accept-Encoding").unwrap(),
                "gzip, deflate, br"
            );
            assert_eq!(result.headers.get("Connection").unwrap(), "keep-alive");
            assert_eq!(result.body, "Test Body");
        }
        Err(e) => {
            println!("Error! {:?}", e);
            assert_eq!(true, false);
        }
    }
}

#[test]
fn parse_post_request_body() {
    let input = "POST /files/file_123 HTTP/1.1                                                                 Host: localhost:2020
User-Agent: curl/8.8.0
Accept: */*
Content-Type: application/octet-stream
Content-Length: 5

12345";
    match parse_http_request(input) {
        Ok(result) => {
            assert_eq!(result.method, HttpMethod::POST);
            assert_eq!(result.path, "/files/file_123");
            assert_eq!(result.version, "1.1");
            assert_eq!(result.headers.get("User-Agent").unwrap(), "curl/8.8.0");
            assert_eq!(result.headers.get("Accept").unwrap(), "*/*");
            assert_eq!(
                result.headers.get("Content-Type").unwrap(),
                "application/octet-stream"
            );
            assert_eq!(result.headers.get("Content-Length").unwrap(), "5");
            assert_eq!(result.body, "12345");
        }
        Err(e) => {
            println!("Error! {:?}", e);
            assert_eq!(true, false);
        }
    }
}

#[test]
fn empty_method_is_rejected() {
    assert_eq!(parse_http_request("").unwrap_err(), ParseError::EmptyMethod);
    assert_eq!(
        parse_http_request(" GET / HTTP/1.1\r\n\r\n").unwrap_err(),
        ParseError::EmptyMethod
    );
}

#[test]
fn missing_space_after_method_is_rejected() {
    assert_eq!(
        parse_http_request("GET").unwrap_err(),
        ParseError::MissingSpaceAfterMethod
    );
}

#[test]
fn missing_space_after_path_is_rejected() {
    assert_eq!(
        parse_http_request("GET /index.html").unwrap_err(),
        ParseError::MissingSpaceAfterPath
    );
}

#[test]
fn missing_http_prefix_is_rejected() {
    assert_eq!(
        parse_http_request("GET / ").unwrap_err(),
        ParseError::MissingHttpPrefix
    );
    assert_eq!(
        parse_http_request("GET / FTP/1.1\r\n\r\n").unwrap_err(),
        ParseError::MissingHttpPrefix
    );
}

#[test]
fn invalid_utf8_is_rejected() {
    let bytes: Vec<u8> = vec![0x47, 0x45, 0x54, 0xff, 0xfe];
    assert_eq!(parse_request(&bytes).unwrap_err(), ParseError::InvalidUtf8);
}

#[test]
fn parse_request_decodes_utf8() {
    let bytes = b"GET /echo/abc HTTP/1.1\r\nHost: x\r\n\r\n";
    let req = parse_request(bytes).unwrap();
    assert_eq!(req.method, HttpMethod::GET);
    assert_eq!(req.path, "/echo/abc");
    assert_eq!(req.version, "1.1");
    assert_eq!(req.headers.get("Host").unwrap(), "x");
    assert_eq!(req.body, "");
}

#[test]
fn unknown_verb_parses_as_unknown() {
    let req = parse_http_request("BREW /pot HTTP/1.0\r\n\r\n").unwrap();
    assert_eq!(req.method, HttpMethod::UNKNOWN);
    assert_eq!(req.version, "1.0");
}

#[test]
fn method_match_ignores_case() {
    let req = parse_http_request("get / HTTP/1.1\r\n\r\n").unwrap();
    assert_eq!(req.method, HttpMethod::GET);
    let req = parse_http_request("dElEtE / HTTP/1.1\r\n\r\n").unwrap();
    assert_eq!(req.method, HttpMethod::DELETE);
}

#[test]
fn duplicate_header_keeps_last_value() {
    let input = "GET / HTTP/1.1\r\nX-Tag: first\r\nHost: x\r\nX-Tag: second\r\n\r\n";
    let req = parse_http_request(input).unwrap();
    assert_eq!(req.headers.get("X-Tag").unwrap(), "second");
    assert_eq!(req.headers.get("Host").unwrap(), "x");
    assert_eq!(req.headers.len(), 3);
}

#[test]
fn header_values_are_trimmed() {
    let input = "GET / HTTP/1.1\r\nPadded:    spaced out   \r\n\r\n";
    let req = parse_http_request(input).unwrap();
    assert_eq!(req.headers.get("Padded").unwrap(), "spaced out");
}

#[test]
fn body_is_trimmed_remainder() {
    let input = "POST /files/f HTTP/1.1\r\nHost: x\r\n\r\n  hello body \r\n";
    let req = parse_http_request(input).unwrap();
    assert_eq!(req.body, "hello body");
}

#[test]
fn missing_header_is_absent() {
    let req = parse_http_request("GET / HTTP/1.1\r\nHost: x\r\n\r\n").unwrap();
    assert!(req.headers.get("User-Agent").is_none());
}

#[test]
fn token_chars_are_alnum_dash_dot() {
    assert!(is_token_char('a'));
    assert!(is_token_char('Z'));
    assert!(is_token_char('7'));
    assert!(is_token_char('-'));
    assert!(is_token_char('.'));
    assert!(is_token_char('\u{e9}'));
    assert!(is_token_char('\u{0662}'));
    assert!(!is_token_char(':'));
    assert!(!is_token_char(' '));
    assert!(!is_token_char('/'));
    assert!(!is_token_char('\u{00bf}'));
}

#[test]
fn backslashes_normalize_to_slashes() {
    assert_eq!(normalize_slashes("a\\b\\c"), "a/b/c");
    assert_eq!(normalize_slashes("/plain"), "/plain");
}

#[test]
fn path_may_hold_unicode_letters() {
    let req = parse_http_request("GET /echo/h\u{e9}llo HTTP/1.1\r\nHost: x\r\n\r\n").unwrap();
    assert_eq!(req.method, HttpMethod::GET);
    assert_eq!(req.path, "/echo/h\u{e9}llo");
}

#[test]
fn header_name_may_hold_unicode_letters() {
    let req = parse_http_request("GET / HTTP/1.1\r\nNam\u{e9}: v\r\nHost: x\r\n\r\n").unwrap();
    assert_eq!(req.headers.get("Nam\u{e9}").unwrap(), "v");
    assert_eq!(req.headers.get("Host").unwrap(), "x");
}

#[test]
fn backslash_paths_parse_and_normalize() {
    let req = parse_http_request("GET \\echo\\hi HTTP/1.1\r\nHost: x\r\n\r\n").unwrap();
    assert_eq!(req.path, "/echo/hi");
}
