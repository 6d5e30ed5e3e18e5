use tcp_web::{HttpHeader, HttpResponse, HttpVersion, PayloadType};

#[test]
fn serialize_text_response_exact_bytes() {
    let mut resp = HttpResponse::new();
    resp.status_code(200);
    resp.reason("OK");
    resp.version(HttpVersion { major: 1, minor: 1 });
    let mut headers = HttpHeader::new();
    headers.insert("Content-Type".to_string(), "text/html".to_string());
    resp.header(headers);
    resp.payload(PayloadType::Text("hi".to_string()));
    assert_eq!(
        resp.as_bytes(),
        b"HTTP/1.1 200 OK\nContent-Type: text/html\n\nhi".to_vec()
    );
}

#[test]
fn serialize_without_headers_or_payload() {
    let mut resp = HttpResponse::new();
    resp.status_code(404);
    resp.reason("File not found.");
    resp.version(HttpVersion { major: 1, minor: 1 });
    assert_eq!(resp.as_bytes(), b"HTTP/1.1 404 File not found.\n\n".to_vec());
}

#[test]
fn serialize_binary_payload_verbatim() {
    let mut resp = HttpResponse::new();
    resp.status_code(200);
    resp.reason("OK");
    resp.version(HttpVersion { major: 1, minor: 1 });
    resp.payload(PayloadType::Binary(vec![0u8, 159, 146, 150]));
    let bytes = resp.as_bytes();
    assert_eq!(&bytes[..bytes.len() - 4], b"HTTP/1.1 200 OK\n\n");
    assert_eq!(&bytes[bytes.len() - 4..], &[0u8, 159, 146, 150]);
}

#[test]
fn serialize_multi_digit_status_and_version() {
    let mut resp = HttpResponse::new();
    resp.status_code(404);
    resp.reason("Not Found");
    resp.version(HttpVersion { major: 10, minor: 25 });
    assert_eq!(resp.as_bytes(), b"HTTP/10.25 404 Not Found\n\n".to_vec());
}

#[test]
fn header_lines_follow_entry_order() {
    let mut resp = HttpResponse::new();
    resp.status_code(200);
    resp.reason("OK");
    resp.version(HttpVersion { major: 1, minor: 1 });
    let mut headers = HttpHeader::new();
    headers.insert("B".to_string(), "2".to_string());
    headers.insert("A".to_string(), "1".to_string());
    headers.insert("B".to_string(), "3".to_string());
    assert_eq!(headers.len(), 2);
    resp.header(headers);
    assert_eq!(
        resp.as_bytes(),
        b"HTTP/1.1 200 OK\nB: 3\nA: 1\n\n".to_vec()
    );
}

#[test]
fn fresh_response_serializes_to_zero_line() {
    let resp = HttpResponse::new();
    assert_eq!(resp.as_bytes(), b"HTTP/0.0 0 \n\n".to_vec());
}
