use tcp_web::{HttpRequest, HttpVersion, ParseError, RequestMethod};

#[test]
fn parse_simple_request() {
    let req = HttpRequest::from_buffer(b"GET /foo.html HTTP/1.1\r\nHost: x\r\n\r\n").unwrap();
    assert_eq!(req.get_method(), RequestMethod::GET);
    assert_eq!(req.get_uri().as_str(), "/foo.html");
    assert_eq!(req.get_version(), HttpVersion { major: 1, minor: 1 });
    assert_eq!(req.get_header().get("Host").unwrap().as_str(), "x");
    assert_eq!(req.get_header().len(), 1);
}

#[test]
fn parse_empty_header_section() {
    let req = HttpRequest::from_buffer(b"POST /submit HTTP/1.0\r\n\r\n").unwrap();
    assert_eq!(req.get_method(), RequestMethod::POST);
    assert_eq!(req.get_uri().as_str(), "/submit");
    assert_eq!(req.get_version(), HttpVersion { major: 1, minor: 0 });
    assert_eq!(req.get_header().len(), 0);
}

#[test]
fn parse_several_headers() {
    let req = HttpRequest::from_buffer(
        b"GET / HTTP/1.1\r\nHost: example\r\nAccept: */*\r\nConnection: close\r\n\r\n",
    )
    .unwrap();
    assert_eq!(req.get_header().len(), 3);
    assert_eq!(req.get_header().get("Host").unwrap().as_str(), "example");
    assert_eq!(req.get_header().get("Accept").unwrap().as_str(), "*/*");
    assert_eq!(req.get_header().get("Connection").unwrap().as_str(), "close");
    assert!(req.get_header().get("Cookie").is_none());
}

#[test]
fn header_value_keeps_later_separators() {
    let req = HttpRequest::from_buffer(b"GET / HTTP/1.1\r\nA: b: c\r\n\r\n").unwrap();
    assert_eq!(req.get_header().get("A").unwrap().as_str(), "b: c");
}

#[test]
fn repeated_header_last_write_wins() {
    let req =
        HttpRequest::from_buffer(b"GET / HTTP/1.1\r\nX: one\r\nX: two\r\n\r\n").unwrap();
    assert_eq!(req.get_header().len(), 1);
    assert_eq!(req.get_header().get("X").unwrap().as_str(), "two");
}

#[test]
fn header_missing_separator_is_header_error() {
    let err =
        HttpRequest::from_buffer(b"GET / HTTP/1.1\r\nHost x\r\n\r\n").unwrap_err();
    assert_eq!(err, ParseError::MalformedHeader(b"Host x".to_vec()));
}

#[test]
fn short_request_line_is_request_line_error() {
    let err = HttpRequest::from_buffer(b"GET /\r\n\r\n").unwrap_err();
    assert_eq!(err, ParseError::MalformedRequestLine);
}

#[test]
fn empty_buffer_is_request_line_error() {
    let err = HttpRequest::from_buffer(b"").unwrap_err();
    assert_eq!(err, ParseError::MalformedRequestLine);
}

#[test]
fn protocol_without_slash_is_version_error() {
    let err = HttpRequest::from_buffer(b"GET / HTTPX\r\n\r\n").unwrap_err();
    assert_eq!(err, ParseError::MalformedVersion);
}

#[test]
fn non_numeric_version_is_version_error() {
    let err = HttpRequest::from_buffer(b"GET / HTTP/a.b\r\n\r\n").unwrap_err();
    assert_eq!(err, ParseError::MalformedVersion);
}

#[test]
fn unknown_method_error_carries_token() {
    let err = HttpRequest::from_buffer(b"PATCH / HTTP/1.1\r\n\r\n").unwrap_err();
    assert_eq!(err, ParseError::UnknownMethod(b"PATCH".to_vec()));
}

#[test]
fn single_component_version_parses() {
    let req = HttpRequest::from_buffer(b"GET / HTTP/1\r\n\r\n").unwrap();
    assert_eq!(req.get_version(), HttpVersion { major: 1, minor: 0 });
}

#[test]
fn blank_message_is_request_line_error() {
    let err = HttpRequest::from_buffer(b"\r\n\r\n").unwrap_err();
    assert_eq!(err, ParseError::MalformedRequestLine);
}

#[test]
fn extra_request_line_fields_are_ignored_for_the_uri() {
    // A URI with a space splits into extra fields; the third field is then
    // taken as the protocol identifier and has no slash.
    let err = HttpRequest::from_buffer(b"GET /a b HTTP/1.1\r\n\r\n").unwrap_err();
    assert_eq!(err, ParseError::MalformedVersion);
}

#[test]
fn multibyte_uri_is_decoded() {
    let req =
        HttpRequest::from_buffer("GET /h\u{e9}llo HTTP/1.1\r\n\r\n".as_bytes()).unwrap();
    assert_eq!(req.get_uri().as_str(), "/h\u{e9}llo");
}

#[test]
fn invalid_utf8_uri_is_request_line_error() {
    let err =
        HttpRequest::from_buffer(b"GET /\xFF HTTP/1.1\r\n\r\n").unwrap_err();
    assert_eq!(err, ParseError::MalformedRequestLine);
}

#[test]
fn invalid_utf8_header_is_header_error() {
    let err =
        HttpRequest::from_buffer(b"GET / HTTP/1.1\r\nA: \xFF\r\n\r\n").unwrap_err();
    assert_eq!(err, ParseError::MalformedHeader(b"A: \xFF".to_vec()));
}

#[test]
fn oversized_version_component_is_version_error() {
    let err = HttpRequest::from_buffer(b"GET / HTTP/1.99999\r\n\r\n").unwrap_err();
    assert_eq!(err, ParseError::MalformedVersion);
}

#[test]
fn setters_build_a_request() {
    let mut req = HttpRequest::new();
    assert_eq!(req.get_method(), RequestMethod::GET);
    req.method("DELETE");
    req.uri("/gone");
    req.version(HttpVersion { major: 1, minor: 1 });
    assert_eq!(req.get_method(), RequestMethod::DELETE);
    assert_eq!(req.get_uri().as_str(), "/gone");
    assert_eq!(req.get_version(), HttpVersion { major: 1, minor: 1 });
}
