use http_server::request::{parse_request, split_lines, Header, ParseError, Request};

fn parsed(raw: &[u8]) -> Request {
    match parse_request(raw) {
        Ok(r) => r,
        Err(e) => panic!("unexpected parse error {:?}", e),
    }
}

#[test]
fn lines_are_cut_like_str_lines() {
    let ls = split_lines(b"GET / HTTP/1.1\r\nHost: x\n\nbody");
    assert_eq!(
        ls,
        vec![b"GET / HTTP/1.1".to_vec(), b"Host: x".to_vec(), Vec::new(), b"body".to_vec()]
    );
    assert_eq!(split_lines(b"a\n"), vec![b"a".to_vec()]);
    assert_eq!(split_lines(b"a\n\n"), vec![b"a".to_vec(), Vec::new()]);
    assert_eq!(split_lines(b"a\r"), vec![b"a\r".to_vec()]);
    assert_eq!(split_lines(b""), Vec::<Vec<u8>>::new());
}

#[test]
fn request_line_headers_and_body() {
    let r = parsed(b"POST /files/a.txt HTTP/1.1\r\nHost: localhost\r\nContent-Length: 5\r\n\r\nhello");
    assert_eq!(r.method, b"POST".to_vec());
    assert_eq!(r.path, b"/files/a.txt".to_vec());
    assert_eq!(
        r.headers,
        vec![
            Header { name: b"Host".to_vec(), value: b"localhost".to_vec() },
            Header { name: b"Content-Length".to_vec(), value: b"5".to_vec() },
        ]
    );
    assert_eq!(r.body, b"hello\n".to_vec());
}

#[test]
fn body_lines_are_joined_with_line_feeds() {
    let r = parsed(b"POST /x HTTP/1.1\r\n\r\na\r\n\r\nb\n");
    assert_eq!(r.body, b"a\n\nb\n".to_vec());
}

#[test]
fn request_without_blank_line_has_empty_body() {
    let r = parsed(b"GET /echo/hi HTTP/1.1\r\nHost: x\r\n");
    assert_eq!(r.body, Vec::<u8>::new());
    assert_eq!(r.headers.len(), 1);
}

#[test]
fn header_names_and_values_are_trimmed_and_split_at_first_colon() {
    let r = parsed(b"GET / HTTP/1.1\r\n  Host :  example.com:8080  \r\nnocolon\r\n\r\n");
    assert_eq!(
        r.headers,
        vec![Header { name: b"Host".to_vec(), value: b"example.com:8080".to_vec() }]
    );
}

#[test]
fn last_duplicate_header_wins() {
    let r = parsed(b"GET /user-agent HTTP/1.1\r\nUser-Agent: first\r\nUser-Agent: second\r\n\r\n");
    assert_eq!(r.header(b"User-Agent"), Some(&b"second"[..]));
    assert_eq!(r.header(b"user-agent"), None);
}

#[test]
fn tokens_are_separated_by_any_whitespace() {
    let r = parsed(b"  GET \t /path   HTTP/1.1\r\n\r\n");
    assert_eq!(r.method, b"GET".to_vec());
    assert_eq!(r.path, b"/path".to_vec());
}

#[test]
fn empty_request_lacks_method() {
    assert_eq!(parse_request(b""), Err(ParseError::MissingMethod));
    assert_eq!(parse_request(b"   \r\nHost: x\r\n"), Err(ParseError::MissingMethod));
}

#[test]
fn request_line_with_one_token_lacks_path() {
    assert_eq!(parse_request(b"GET\r\n\r\n"), Err(ParseError::MissingPath));
    assert_eq!(parse_request(b"GET   "), Err(ParseError::MissingPath));
}
