use tcp_web::session::{is_complete_request, keep_alive, respond};
use tcp_web::{ContentError, HttpRequest};

fn parse(buf: &[u8]) -> HttpRequest {
    HttpRequest::from_buffer(buf).unwrap()
}

#[test]
fn framing_detects_the_terminator() {
    assert!(is_complete_request(b"GET / HTTP/1.1\r\n\r\n"));
    assert!(is_complete_request(b"\r\n\r\n"));
    assert!(!is_complete_request(b"GET / HTTP/1.1\r\n"));
    assert!(!is_complete_request(b"GET / HTTP/1.1\r\n\r"));
    assert!(!is_complete_request(b""));
    assert!(!is_complete_request(b"\r\n"));
}

#[test]
fn missing_file_serves_404() {
    let req = parse(b"GET /nope.html HTTP/1.1\r\n\r\n");
    let (bytes, keep) = respond(&req, None).unwrap();
    assert_eq!(bytes, b"HTTP/1.1 404 File not found.\n\n".to_vec());
    assert!(!keep);
}

#[test]
fn keep_alive_only_on_explicit_token() {
    assert!(keep_alive(&parse(b"GET / HTTP/1.1\r\nConnection: keep-alive\r\n\r\n")));
    assert!(!keep_alive(&parse(b"GET / HTTP/1.1\r\nConnection: close\r\n\r\n")));
    assert!(!keep_alive(&parse(b"GET / HTTP/1.1\r\nConnection: upgrade\r\n\r\n")));
    assert!(!keep_alive(&parse(b"GET / HTTP/1.1\r\n\r\n")));
}

#[test]
fn keep_alive_session_processes_a_second_request() {
    // Two requests as they would arrive on one stream: the first asks to
    // keep the connection open, the second closes it.
    let first = parse(b"GET /a HTTP/1.1\r\nConnection: keep-alive\r\n\r\n");
    let (bytes, keep) = respond(&first, None).unwrap();
    assert!(keep);
    assert_eq!(
        bytes,
        b"HTTP/1.1 404 File not found.\nConnection: keep-alive\n\n".to_vec()
    );
    let second = parse(b"GET /b HTTP/1.1\r\nConnection: close\r\n\r\n");
    let (bytes, keep) = respond(&second, None).unwrap();
    assert!(!keep);
    assert_eq!(
        bytes,
        b"HTTP/1.1 404 File not found.\nConnection: close\n\n".to_vec()
    );
}

#[test]
fn other_connection_values_echo_close() {
    let req = parse(b"GET / HTTP/1.1\r\nConnection: upgrade\r\n\r\n");
    let (bytes, keep) = respond(&req, None).unwrap();
    assert!(!keep);
    assert_eq!(
        bytes,
        b"HTTP/1.1 404 File not found.\nConnection: close\n\n".to_vec()
    );
}

#[test]
fn binary_file_served_verbatim() {
    let mut data = vec![0x89u8, 0x50, 0x4E, 0x47, 0x0D, 0x0A, 0x1A, 0x0A];
    data.extend_from_slice(&[7, 0, 255, 128, 13, 10]);
    let req = parse(b"GET /pic.png HTTP/1.1\r\n\r\n");
    let (bytes, keep) = respond(&req, Some(data.clone())).unwrap();
    assert!(!keep);
    let mut expected = format!(
        "HTTP/1.1 200 OK\nContent-Type: image/png\nContent-Length: {}\n\n",
        data.len()
    )
    .into_bytes();
    expected.extend_from_slice(&data);
    assert_eq!(bytes, expected);
}

#[test]
fn text_file_served_with_its_bytes() {
    let data = b"<html><body>hi</body></html>".to_vec();
    let req = parse(b"GET /index.html HTTP/1.1\r\n\r\n");
    let (bytes, _) = respond(&req, Some(data.clone())).unwrap();
    let mut expected = format!(
        "HTTP/1.1 200 OK\nContent-Type: text/html\nContent-Length: {}\n\n",
        data.len()
    )
    .into_bytes();
    expected.extend_from_slice(&data);
    assert_eq!(bytes, expected);
}

#[test]
fn unknown_content_is_fatal_without_response() {
    let req = parse(b"GET /readme HTTP/1.1\r\n\r\n");
    let err = respond(&req, Some(b"plain words".to_vec())).unwrap_err();
    assert_eq!(err, ContentError::UnknownType);
}

#[test]
fn invalid_utf8_text_is_fatal_without_response() {
    let mut data = b"<html>".to_vec();
    data.push(0xC0);
    let req = parse(b"GET /bad.html HTTP/1.1\r\n\r\n");
    let err = respond(&req, Some(data)).unwrap_err();
    assert_eq!(err, ContentError::ConversionFailed);
}
