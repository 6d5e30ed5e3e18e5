use tcp_web::content::resolve_path;
use tcp_web::{ContentError, PayloadType};

fn png_bytes() -> Vec<u8> {
    let mut data = vec![0x89u8, 0x50, 0x4E, 0x47, 0x0D, 0x0A, 0x1A, 0x0A];
    data.extend_from_slice(&[1, 2, 3, 4, 250, 251, 252]);
    data
}

#[test]
fn classify_png_as_binary() {
    let data = png_bytes();
    let rc = tcp_web::content::classify_content(data.clone()).unwrap();
    assert_eq!(rc.mime.as_str(), "image/png");
    assert_eq!(rc.length, data.len());
    match rc.payload {
        PayloadType::Binary(b) => assert_eq!(b, data),
        _ => panic!("binary content must classify as a binary payload"),
    }
}

#[test]
fn classify_html_as_text() {
    let data = b"<html><body>hi</body></html>".to_vec();
    let rc = tcp_web::content::classify_content(data.clone()).unwrap();
    assert_eq!(rc.mime.as_str(), "text/html");
    assert_eq!(rc.length, data.len());
    match rc.payload {
        PayloadType::Text(t) => assert_eq!(t.as_bytes(), data.as_slice()),
        _ => panic!("text content must classify as a text payload"),
    }
}

#[test]
fn classify_unrecognized_bytes_fails() {
    let err = tcp_web::content::classify_content(b"hello there".to_vec()).unwrap_err();
    assert_eq!(err, ContentError::UnknownType);
}

#[test]
fn classify_invalid_utf8_text_fails() {
    let mut data = b"<html>".to_vec();
    data.push(0xFF);
    data.push(0xFE);
    data.extend_from_slice(b"</html>");
    let err = tcp_web::content::classify_content(data).unwrap_err();
    assert_eq!(err, ContentError::ConversionFailed);
}

#[test]
fn resolve_root_uri_to_default_document() {
    assert_eq!(resolve_path("www", "/").as_str(), "www/index.html");
}

#[test]
fn resolve_other_uri_by_concatenation() {
    assert_eq!(resolve_path("www", "/foo.html").as_str(), "www/foo.html");
    assert_eq!(resolve_path("site", "/a/b.png").as_str(), "site/a/b.png");
}
