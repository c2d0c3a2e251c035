use std::collections::HashMap;

use http_server::response::{ContentType, Reply, Response};
use http_server::router::{clean_content, handle_request, read_reply, write_reply, Action, FileRead};

fn respond_bytes(raw: &[u8]) -> Vec<u8> {
    match handle_request(raw) {
        Action::Respond(r) => r.to_bytes(),
        other => panic!("expected a reply, got {:?}", other),
    }
}

/// Runs one request against an in-memory file store, as the server does
/// against the disk.
fn serve(raw: &[u8], store: &mut HashMap<Vec<u8>, Vec<u8>>) -> Vec<u8> {
    match handle_request(raw) {
        Action::Respond(r) => r.to_bytes(),
        Action::WriteFile { name, content } => {
            store.insert(name, content);
            write_reply(true).to_bytes()
        }
        Action::ReadFile { name } => {
            let outcome = match store.get(&name) {
                Some(c) => FileRead::Found(c.clone()),
                None => FileRead::NotFound,
            };
            read_reply(outcome).to_bytes()
        }
    }
}

#[test]
fn root_is_ok_without_body() {
    assert_eq!(respond_bytes(b"GET / HTTP/1.1\r\nHost: localhost\r\n\r\n"), b"HTTP/1.1 200 OK\r\n\r\n".to_vec());
    assert_eq!(respond_bytes(b"POST / HTTP/1.1\r\n\r\nignored"), b"HTTP/1.1 200 OK\r\n\r\n".to_vec());
}

#[test]
fn echo_returns_the_rest_of_the_path() {
    assert_eq!(
        respond_bytes(b"GET /echo/abc HTTP/1.1\r\n\r\n"),
        b"HTTP/1.1 200 OK\r\nContent-Type: text/plain\r\nContent-Length: 3\r\n\r\nabc\r\n\r\n".to_vec()
    );
}

#[test]
fn echo_keeps_later_slashes_and_echo_segments() {
    assert_eq!(
        handle_request(b"GET /echo/a/echo/b HTTP/1.1\r\n\r\n"),
        Action::Respond(Reply::with_body(b"a/echo/b".to_vec(), ContentType::TextPlain))
    );
}

#[test]
fn echo_of_empty_text() {
    assert_eq!(
        handle_request(b"GET /echo/ HTTP/1.1\r\n\r\n"),
        Action::Respond(Reply::with_body(Vec::new(), ContentType::TextPlain))
    );
}

#[test]
fn user_agent_is_echoed() {
    assert_eq!(
        respond_bytes(b"GET /user-agent HTTP/1.1\r\nHost: x\r\nUser-Agent: foobar/1.2.3\r\n\r\n"),
        b"HTTP/1.1 200 OK\r\nContent-Type: text/plain\r\nContent-Length: 12\r\n\r\nfoobar/1.2.3\r\n\r\n"
            .to_vec()
    );
}

#[test]
fn missing_user_agent_is_ok_without_body() {
    assert_eq!(
        respond_bytes(b"GET /user-agent HTTP/1.1\r\nHost: x\r\n\r\n"),
        b"HTTP/1.1 200 OK\r\n\r\n".to_vec()
    );
}

#[test]
fn post_to_files_asks_for_a_cleaned_write() {
    assert_eq!(
        handle_request(b"POST /files/test.txt HTTP/1.1\r\nContent-Length: 6\r\n\r\nhello\n"),
        Action::WriteFile { name: b"test.txt".to_vec(), content: b"hello".to_vec() }
    );
}

#[test]
fn other_methods_on_files_ask_for_a_read() {
    assert_eq!(
        handle_request(b"GET /files/dir/f.bin HTTP/1.1\r\n\r\n"),
        Action::ReadFile { name: b"dir/f.bin".to_vec() }
    );
    assert_eq!(
        handle_request(b"PUT /files/x HTTP/1.1\r\n\r\nbody"),
        Action::ReadFile { name: b"x".to_vec() }
    );
}

#[test]
fn write_then_read_scenario() {
    let mut store = HashMap::new();
    assert_eq!(
        serve(b"POST /files/test.txt HTTP/1.1\r\nContent-Length: 6\r\n\r\nhello\n", &mut store),
        b"HTTP/1.1 201 CREATED\r\n\r\n".to_vec()
    );
    assert_eq!(
        serve(b"GET /files/test.txt HTTP/1.1\r\n\r\n", &mut store),
        b"HTTP/1.1 200 OK\r\nContent-Type: application/octet-stream\r\nContent-Length: 5\r\n\r\nhello\r\n\r\n"
            .to_vec()
    );
}

#[test]
fn writing_twice_reads_the_same_content() {
    let mut store = HashMap::new();
    let post: &[u8] = b"POST /files/n HTTP/1.1\r\n\r\nab\0c\n";
    serve(post, &mut store);
    let once = serve(b"GET /files/n HTTP/1.1\r\n\r\n", &mut store);
    serve(post, &mut store);
    serve(post, &mut store);
    let thrice = serve(b"GET /files/n HTTP/1.1\r\n\r\n", &mut store);
    assert_eq!(once, thrice);
    assert_eq!(store.get(&b"n".to_vec()), Some(&b"abc".to_vec()));
}

#[test]
fn missing_file_is_not_found() {
    let mut store = HashMap::new();
    assert_eq!(
        serve(b"GET /files/missing HTTP/1.1\r\n\r\n", &mut store),
        b"HTTP/1.1 404 NOT FOUND\r\n\r\n".to_vec()
    );
}

#[test]
fn unknown_paths_are_not_found() {
    for raw in [
        &b"GET /abc HTTP/1.1\r\n\r\n"[..],
        &b"DELETE /nothing/here HTTP/1.1\r\n\r\n"[..],
        &b"GET /ech HTTP/1.1\r\n\r\n"[..],
        &b"POST /file HTTP/1.1\r\n\r\nx"[..],
        &b"GET /user-agent/x HTTP/1.1\r\n\r\n"[..],
    ] {
        assert_eq!(respond_bytes(raw), b"HTTP/1.1 404 NOT FOUND\r\n\r\n".to_vec());
    }
}

#[test]
fn file_and_echo_paths_without_a_name_get_internal_error() {
    for raw in [
        &b"POST /files HTTP/1.1\r\n\r\nx"[..],
        &b"POST /filesX HTTP/1.1\r\n\r\nx"[..],
        &b"GET /files HTTP/1.1\r\n\r\n"[..],
        &b"GET /echo HTTP/1.1\r\n\r\n"[..],
        &b"GET /echoes HTTP/1.1\r\n\r\n"[..],
    ] {
        assert_eq!(
            handle_request(raw),
            Action::Respond(Reply::empty(Response::InternalServerError))
        );
    }
}

#[test]
fn malformed_request_gets_internal_error() {
    assert_eq!(respond_bytes(b""), b"HTTP/1.1 500 INTERNAL SERVER ERROR\r\n\r\n".to_vec());
    assert_eq!(respond_bytes(b"GET\r\n\r\n"), b"HTTP/1.1 500 INTERNAL SERVER ERROR\r\n\r\n".to_vec());
}

#[test]
fn file_outcomes() {
    assert_eq!(write_reply(true), Reply::empty(Response::Created));
    assert_eq!(write_reply(false), Reply::empty(Response::InternalServerError));
    assert_eq!(read_reply(FileRead::NotFound), Reply::empty(Response::NotFound));
    assert_eq!(read_reply(FileRead::Failed), Reply::empty(Response::InternalServerError));
    assert_eq!(
        read_reply(FileRead::Found(b"data".to_vec())),
        Reply::with_body(b"data".to_vec(), ContentType::OctetStream)
    );
}

#[test]
fn cleaning_removes_nulls_and_one_final_line_feed() {
    assert_eq!(clean_content(b"a\0b\n\n"), b"ab\n".to_vec());
    assert_eq!(clean_content(b"hello\n"), b"hello".to_vec());
    assert_eq!(clean_content(b"hello"), b"hello".to_vec());
    assert_eq!(clean_content(b"\0\0"), Vec::<u8>::new());
    assert_eq!(clean_content(b""), Vec::<u8>::new());
}
