//! Properties of the whole request-to-reply path, stated over a model of
//! the file store.
use vstd::prelude::*;
use crate::bytes::{ascii, decimal, starts_with};
use crate::request::{header_map, parse};
use crate::response::{body_reply, empty_reply, wire_bytes, ContentType, ReplyModel, Response};
use crate::router::{
    action_for, cleaned, echo_prefix, echo_stem, files_prefix, files_stem, post_method, read_outcome_reply, root_path,
    user_agent_header, user_agent_path, written_reply, ActionModel, FileReadModel,
};

verus! {

/// A file store as a connection sees it when every write and read works:
/// each file name to its content.
pub type Store = Map<Seq<u8>, Seq<u8>>;

/// Carries out an action on the store, giving the reply that is sent and
/// the store afterwards.
pub open spec fn perform(a: ActionModel, store: Store) -> (ReplyModel, Store) {
    match a {
        ActionModel::Respond(r) => (r, store),
        ActionModel::WriteFile(name, content) => (written_reply(true), store.insert(name, content)),
        ActionModel::ReadFile(name) => if store.contains_key(name) {
            (read_outcome_reply(FileReadModel::Found(store[name])), store)
        } else {
            (read_outcome_reply(FileReadModel::NotFound), store)
        },
    }
}

/// The routes' literals, byte by byte.
proof fn lemma_literals()
    ensures
        root_path() == seq![47u8],
        user_agent_path() == seq![47u8, 117, 115, 101, 114, 45, 97, 103, 101, 110, 116],
        files_prefix() == seq![47u8, 102, 105, 108, 101, 115, 47],
        echo_prefix() == seq![47u8, 101, 99, 104, 111, 47],
        files_stem() == seq![47u8, 102, 105, 108, 101, 115],
        echo_stem() == seq![47u8, 101, 99, 104, 111],
{
    reveal_strlit("/files");
    reveal_strlit("/echo");
    assert(files_stem() =~= seq![47u8, 102, 105, 108, 101, 115]);
    assert(echo_stem() =~= seq![47u8, 101, 99, 104, 111]);
    reveal_strlit("/");
    reveal_strlit("/user-agent");
    reveal_strlit("/files/");
    reveal_strlit("/echo/");
    assert(root_path() =~= seq![47u8]);
    assert(user_agent_path() =~= seq![47u8, 117, 115, 101, 114, 45, 97, 103, 101, 110, 116]);
    assert(files_prefix() =~= seq![47u8, 102, 105, 108, 101, 115, 47]);
    assert(echo_prefix() =~= seq![47u8, 101, 99, 104, 111, 47]);
}

/// Every well-formed request for `/` is answered with exactly
/// `HTTP/1.1 200 OK` and an empty line, whatever its method, headers or body.
pub proof fn lemma_root_reply(raw: Seq<u8>)
    requires
        parse(raw) is Ok,
        parse(raw)->Ok_0.path == root_path(),
    ensures
        action_for(raw) == ActionModel::Respond(empty_reply(Response::Success)),
        wire_bytes(empty_reply(Response::Success)) == ascii("HTTP/1.1 200 OK\r\n\r\n"@),
{
    reveal_strlit("HTTP/1.1 200 OK\r\n");
    reveal_strlit("\r\n");
    reveal_strlit("HTTP/1.1 200 OK\r\n\r\n");
    assert(wire_bytes(empty_reply(Response::Success)) =~= ascii("HTTP/1.1 200 OK\r\n\r\n"@));
}

/// A request for `/echo/` followed by any text `s` is answered with 200, a
/// text/plain body equal to `s`, and a Content-Length equal to the length of `s`.
pub proof fn lemma_echo_reply(raw: Seq<u8>, s: Seq<u8>)
    requires
        parse(raw) is Ok,
        parse(raw)->Ok_0.path == echo_prefix() + s,
    ensures
        action_for(raw) == ActionModel::Respond(body_reply(s, ContentType::TextPlain)),
        wire_bytes(body_reply(s, ContentType::TextPlain)) == ascii(
            "HTTP/1.1 200 OK\r\nContent-Type: text/plain\r\nContent-Length: "@,
        ) + decimal(s.len()) + ascii("\r\n\r\n"@) + s + ascii("\r\n\r\n"@),
{
    let p = parse(raw)->Ok_0.path;
    lemma_literals();
    assert(p[1] == 101u8);
    assert(p != root_path());
    assert(p != user_agent_path());
    assert(!starts_with(p, files_stem())) by {
        if p.len() >= 6 {
            assert(p.subrange(0, 6)[1] != files_stem()[1]);
        }
    }
    assert(p.subrange(0, 5) =~= echo_stem());
    assert(p.subrange(0, 6) =~= echo_prefix());
    assert(p.subrange(6, p.len() as int) =~= s);
    reveal_strlit("HTTP/1.1 200 OK\r\n");
    reveal_strlit("Content-Type: ");
    reveal_strlit("text/plain");
    reveal_strlit("\r\nContent-Length: ");
    reveal_strlit("HTTP/1.1 200 OK\r\nContent-Type: text/plain\r\nContent-Length: ");
    assert(ascii("HTTP/1.1 200 OK\r\n"@) + ascii("Content-Type: "@) + ascii("text/plain"@)
        + ascii("\r\nContent-Length: "@) =~= ascii(
        "HTTP/1.1 200 OK\r\nContent-Type: text/plain\r\nContent-Length: "@,
    ));
}

/// A request for `/user-agent` is answered with 200: with the User-Agent
/// header's value as a text/plain body when the header is there, and with
/// no body when it is not.
pub proof fn lemma_user_agent_reply(raw: Seq<u8>)
    requires
        parse(raw) is Ok,
        parse(raw)->Ok_0.path == user_agent_path(),
    ensures
        ({
            let m = header_map(parse(raw)->Ok_0.headers);
            action_for(raw) == if m.contains_key(user_agent_header()) {
                ActionModel::Respond(body_reply(m[user_agent_header()], ContentType::TextPlain))
            } else {
                ActionModel::Respond(empty_reply(Response::Success))
            }
        }),
{
    lemma_literals();
    assert(parse(raw)->Ok_0.path != root_path());
}

proof fn lemma_files_route(raw: Seq<u8>, name: Seq<u8>)
    requires
        parse(raw) is Ok,
        parse(raw)->Ok_0.path == files_prefix() + name,
    ensures
        action_for(raw) == if parse(raw)->Ok_0.method == post_method() {
            ActionModel::WriteFile(name, cleaned(parse(raw)->Ok_0.body))
        } else {
            ActionModel::ReadFile(name)
        },
{
    let p = parse(raw)->Ok_0.path;
    lemma_literals();
    assert(p[1] == 102u8);
    assert(p != root_path());
    assert(p != user_agent_path());
    assert(p.subrange(0, 6) =~= files_stem());
    assert(p.subrange(0, 7) =~= files_prefix());
    assert(p.subrange(7, p.len() as int) =~= name);
}

/// A POST of body `B` to `/files/name`, followed by a read of `/files/name`,
/// is answered first with 201 and then with 200 and the body `B` without its
/// null bytes and one final line feed.
pub proof fn lemma_file_round_trip(post: Seq<u8>, get: Seq<u8>, name: Seq<u8>, store: Store)
    requires
        parse(post) is Ok,
        parse(post)->Ok_0.method == post_method(),
        parse(post)->Ok_0.path == files_prefix() + name,
        parse(get) is Ok,
        parse(get)->Ok_0.method != post_method(),
        parse(get)->Ok_0.path == files_prefix() + name,
    ensures
        ({
            let (r1, s1) = perform(action_for(post), store);
            let (r2, s2) = perform(action_for(get), s1);
            &&& r1 == empty_reply(Response::Created)
            &&& r2 == body_reply(cleaned(parse(post)->Ok_0.body), ContentType::OctetStream)
        }),
{
    lemma_files_route(post, name);
    lemma_files_route(get, name);
}

/// Writing the same request twice and then reading gives the same reply as
/// writing it once and then reading.
pub proof fn lemma_write_twice(post: Seq<u8>, get: Seq<u8>, name: Seq<u8>, store: Store)
    requires
        parse(post) is Ok,
        parse(post)->Ok_0.method == post_method(),
        parse(post)->Ok_0.path == files_prefix() + name,
        parse(get) is Ok,
        parse(get)->Ok_0.method != post_method(),
        parse(get)->Ok_0.path == files_prefix() + name,
    ensures
        perform(action_for(get), perform(action_for(post), perform(action_for(post), store).1).1).0
            == perform(action_for(get), perform(action_for(post), store).1).0,
        perform(action_for(get), perform(action_for(post), store).1).0 == body_reply(
            cleaned(parse(post)->Ok_0.body),
            ContentType::OctetStream,
        ),
{
    lemma_files_route(post, name);
    lemma_files_route(get, name);
    let c = cleaned(parse(post)->Ok_0.body);
    assert(store.insert(name, c).insert(name, c) =~= store.insert(name, c));
}

/// A read of `/files/name` where the store holds no such file is answered
/// with 404 and no body.
pub proof fn lemma_missing_file(get: Seq<u8>, name: Seq<u8>, store: Store)
    requires
        parse(get) is Ok,
        parse(get)->Ok_0.method != post_method(),
        parse(get)->Ok_0.path == files_prefix() + name,
        !store.contains_key(name),
    ensures
        perform(action_for(get), store) == (empty_reply(Response::NotFound), store),
{
    lemma_files_route(get, name);
}

/// A path that starts with `/files` or `/echo` but lacks the slash after it
/// names no file and no text: it is answered with 500, whatever the method,
/// and touches no file.
pub proof fn lemma_nameless_route_fails(raw: Seq<u8>, store: Store)
    requires
        parse(raw) is Ok,
        ({
            let p = parse(raw)->Ok_0.path;
            ||| starts_with(p, files_stem()) && !starts_with(p, files_prefix())
            ||| starts_with(p, echo_stem()) && !starts_with(p, echo_prefix())
        }),
    ensures
        perform(action_for(raw), store) == (empty_reply(Response::InternalServerError), store),
{
    let p = parse(raw)->Ok_0.path;
    lemma_literals();
    assert(p.len() >= 5);
    assert(p != root_path());
    assert(p != user_agent_path()) by {
        if starts_with(p, files_stem()) {
            assert(p.subrange(0, 6)[1] == 102u8);
        } else {
            assert(p.subrange(0, 5)[1] == 101u8);
        }
    }
    if starts_with(p, echo_stem()) {
        assert(!starts_with(p, files_stem())) by {
            assert(p.subrange(0, 5)[1] == 101u8);
            if p.len() >= 6 {
                assert(p.subrange(0, 6)[1] == p[1]);
            }
        }
    }
}

/// A path that no route matches is answered with 404 and no body, whatever
/// the method.
pub proof fn lemma_unmatched_path(raw: Seq<u8>)
    requires
        parse(raw) is Ok,
        parse(raw)->Ok_0.path != root_path(),
        parse(raw)->Ok_0.path != user_agent_path(),
        !starts_with(parse(raw)->Ok_0.path, files_stem()),
        !starts_with(parse(raw)->Ok_0.path, echo_stem()),
    ensures
        action_for(raw) == ActionModel::Respond(empty_reply(Response::NotFound)),
        wire_bytes(empty_reply(Response::NotFound)) == ascii("HTTP/1.1 404 NOT FOUND\r\n\r\n"@),
{
    reveal_strlit("HTTP/1.1 404 NOT FOUND\r\n");
    reveal_strlit("\r\n");
    reveal_strlit("HTTP/1.1 404 NOT FOUND\r\n\r\n");
    assert(wire_bytes(empty_reply(Response::NotFound)) =~= ascii(
        "HTTP/1.1 404 NOT FOUND\r\n\r\n"@,
    ));
}

} // verus!
