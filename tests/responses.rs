use http_server::response::{ContentType, Reply, Response};

#[test]
fn status_lines() {
    assert_eq!(Response::Success.to_string(), "HTTP/1.1 200 OK\r\n");
    assert_eq!(Response::NotFound.to_string(), "HTTP/1.1 404 NOT FOUND\r\n");
    assert_eq!(
        Response::InternalServerError.to_string(),
        "HTTP/1.1 500 INTERNAL SERVER ERROR\r\n"
    );
    assert_eq!(Response::Created.to_string(), "HTTP/1.1 201 CREATED\r\n");
}

#[test]
fn status_bytes_match_status_lines() {
    for r in [Response::Success, Response::NotFound, Response::InternalServerError, Response::Created] {
        assert_eq!(r.status_bytes(), r.to_string().as_bytes());
    }
}

#[test]
fn reply_without_body_has_no_body_headers() {
    assert_eq!(Reply::empty(Response::Success).to_bytes(), b"HTTP/1.1 200 OK\r\n\r\n".to_vec());
    assert_eq!(
        Reply::empty(Response::InternalServerError).to_bytes(),
        b"HTTP/1.1 500 INTERNAL SERVER ERROR\r\n\r\n".to_vec()
    );
}

#[test]
fn reply_with_text_body() {
    let r = Reply::with_body(b"abc".to_vec(), ContentType::TextPlain);
    assert_eq!(
        r.to_bytes(),
        b"HTTP/1.1 200 OK\r\nContent-Type: text/plain\r\nContent-Length: 3\r\n\r\nabc\r\n\r\n".to_vec()
    );
}

#[test]
fn content_length_counts_bytes_in_decimal() {
    let body = vec![b'x'; 1024];
    let bytes = Reply::with_body(body.clone(), ContentType::OctetStream).to_bytes();
    let mut expected =
        b"HTTP/1.1 200 OK\r\nContent-Type: application/octet-stream\r\nContent-Length: 1024\r\n\r\n"
            .to_vec();
    expected.extend_from_slice(&body);
    expected.extend_from_slice(b"\r\n\r\n");
    assert_eq!(bytes, expected);
}

#[test]
fn empty_body_still_declares_its_length() {
    let r = Reply::with_body(Vec::new(), ContentType::TextPlain);
    assert_eq!(
        r.to_bytes(),
        b"HTTP/1.1 200 OK\r\nContent-Type: text/plain\r\nContent-Length: 0\r\n\r\n\r\n\r\n".to_vec()
    );
}

#[test]
fn multibyte_body_length_is_in_bytes() {
    let body = "héllo".as_bytes().to_vec();
    let bytes = Reply::with_body(body, ContentType::TextPlain).to_bytes();
    let text = String::from_utf8(bytes).unwrap();
    assert!(text.contains("Content-Length: 6\r\n"));
}
