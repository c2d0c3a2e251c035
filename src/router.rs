//! Dispatch of a parsed request to its route, and the replies that follow
//! the file work a route asks for.
use vstd::prelude::*;
use crate::bytes::{ascii, bytes_equal, copy_range, has_prefix, literal_bytes, starts_with};
use crate::request::{header_map, parse, parse_request, Request, RequestModel, LF};
use crate::response::{body_reply, empty_reply, ContentType, Reply, ReplyModel, Response};

verus! {

/// What the connection has to do next for a request.
#[derive(Debug, PartialEq, Eq)]
pub enum Action {
    /// Send this reply.
    Respond(Reply),
    /// Write `content` as the whole file `name` under the base directory,
    /// then send `write_reply` of whether that worked.
    WriteFile { name: Vec<u8>, content: Vec<u8> },
    /// Read the file `name` under the base directory, then send
    /// `read_reply` of what came of it.
    ReadFile { name: Vec<u8> },
}

pub enum ActionModel {
    Respond(ReplyModel),
    WriteFile(Seq<u8>, Seq<u8>),
    ReadFile(Seq<u8>),
}

impl View for Action {
    type V = ActionModel;

    open spec fn view(&self) -> ActionModel {
        match self {
            Action::Respond(r) => ActionModel::Respond(r@),
            Action::WriteFile { name, content } => ActionModel::WriteFile(name@, content@),
            Action::ReadFile { name } => ActionModel::ReadFile(name@),
        }
    }
}

/// What came of reading a file.
#[derive(Debug, PartialEq, Eq)]
pub enum FileRead {
    Found(Vec<u8>),
    NotFound,
    Failed,
}

pub enum FileReadModel {
    Found(Seq<u8>),
    NotFound,
    Failed,
}

impl View for FileRead {
    type V = FileReadModel;

    open spec fn view(&self) -> FileReadModel {
        match self {
            FileRead::Found(c) => FileReadModel::Found(c@),
            FileRead::NotFound => FileReadModel::NotFound,
            FileRead::Failed => FileReadModel::Failed,
        }
    }
}

pub open spec fn root_path() -> Seq<u8> {
    ascii("/"@)
}

pub open spec fn user_agent_path() -> Seq<u8> {
    ascii("/user-agent"@)
}

pub open spec fn files_prefix() -> Seq<u8> {
    ascii("/files/"@)
}

/// The prefix that sends a request to the file handlers.
pub open spec fn files_stem() -> Seq<u8> {
    ascii("/files"@)
}

/// The prefix that sends a request to the echo handler.
pub open spec fn echo_stem() -> Seq<u8> {
    ascii("/echo"@)
}

pub open spec fn echo_prefix() -> Seq<u8> {
    ascii("/echo/"@)
}

pub open spec fn post_method() -> Seq<u8> {
    ascii("POST"@)
}

pub open spec fn user_agent_header() -> Seq<u8> {
    ascii("User-Agent"@)
}

/// `s` without its first `n` bytes.
pub open spec fn after(s: Seq<u8>, n: nat) -> Seq<u8> {
    s.subrange(n as int, s.len() as int)
}

/// `b` without its last byte if that byte is a line feed.
pub open spec fn drop_final_lf(b: Seq<u8>) -> Seq<u8> {
    if b.len() > 0 && b.last() == LF {
        b.drop_last()
    } else {
        b
    }
}

/// What a file write stores: the body without null bytes, and without one
/// final line feed.
pub open spec fn cleaned(b: Seq<u8>) -> Seq<u8> {
    drop_final_lf(b.filter(|x: u8| x != 0))
}

/// The route a request takes, first match winning: the root, the user agent,
/// the file handlers for a path that starts with `/files` (written by POST,
/// read otherwise), the echo for a path that starts with `/echo`, and else
/// not found. A file or echo path that lacks the slash after its prefix has
/// no name or text to act on, and is answered with 500.
pub open spec fn route_of(r: RequestModel) -> ActionModel {
    if r.path == root_path() {
        ActionModel::Respond(empty_reply(Response::Success))
    } else if r.path == user_agent_path() {
        let m = header_map(r.headers);
        if m.contains_key(user_agent_header()) {
            ActionModel::Respond(body_reply(m[user_agent_header()], ContentType::TextPlain))
        } else {
            ActionModel::Respond(empty_reply(Response::Success))
        }
    } else if starts_with(r.path, files_stem()) {
        if !starts_with(r.path, files_prefix()) {
            ActionModel::Respond(empty_reply(Response::InternalServerError))
        } else if r.method == post_method() {
            ActionModel::WriteFile(after(r.path, files_prefix().len()), cleaned(r.body))
        } else {
            ActionModel::ReadFile(after(r.path, files_prefix().len()))
        }
    } else if starts_with(r.path, echo_stem()) {
        if starts_with(r.path, echo_prefix()) {
            ActionModel::Respond(
                body_reply(after(r.path, echo_prefix().len()), ContentType::TextPlain),
            )
        } else {
            ActionModel::Respond(empty_reply(Response::InternalServerError))
        }
    } else {
        ActionModel::Respond(empty_reply(Response::NotFound))
    }
}

/// The action for raw request bytes; a request that cannot be parsed gets 500.
pub open spec fn action_for(raw: Seq<u8>) -> ActionModel {
    match parse(raw) {
        Ok(r) => route_of(r),
        Err(_) => ActionModel::Respond(empty_reply(Response::InternalServerError)),
    }
}

pub open spec fn written_reply(ok: bool) -> ReplyModel {
    if ok {
        empty_reply(Response::Created)
    } else {
        empty_reply(Response::InternalServerError)
    }
}

pub open spec fn read_outcome_reply(o: FileReadModel) -> ReplyModel {
    match o {
        FileReadModel::Found(c) => body_reply(c, ContentType::OctetStream),
        FileReadModel::NotFound => empty_reply(Response::NotFound),
        FileReadModel::Failed => empty_reply(Response::InternalServerError),
    }
}

/// The content a POST body leaves in its file: null bytes removed, then one
/// final line feed removed.
pub fn clean_content(body: &[u8]) -> (r: Vec<u8>)
    ensures
        r@ == cleaned(body@),
{
    let mut kept: Vec<u8> = Vec::new();
    let mut i: usize = 0;
    while i < body.len()
        invariant
            i <= body@.len(),
            kept@ == body@.subrange(0, i as int).filter(|x: u8| x != 0),
        decreases body@.len() - i,
    {
        proof {
            reveal(Seq::filter);
            assert(body@.subrange(0, i + 1).drop_last() =~= body@.subrange(0, i as int));
        }
        if body[i] != 0 {
            kept.push(body[i]);
        }
        i += 1;
    }
    proof {
        assert(body@.subrange(0, i as int) =~= body@);
    }
    if kept.len() > 0 && kept[kept.len() - 1] == LF {
        kept.pop();
        proof {
            assert(kept@ =~= cleaned(body@));
        }
    }
    kept
}

/// Chooses what to do for a parsed request.
pub fn route(req: &Request) -> (a: Action)
    ensures
        a@ == route_of(req@),
{
    proof {
        reveal_strlit("/");
        reveal_strlit("/user-agent");
        reveal_strlit("User-Agent");
        reveal_strlit("/files");
        reveal_strlit("/files/");
        reveal_strlit("/echo");
        reveal_strlit("/echo/");
        reveal_strlit("POST");
    }
    let path = req.path.as_slice();
    if bytes_equal(path, literal_bytes("/")) {
        Action::Respond(Reply::empty(Response::Success))
    } else if bytes_equal(path, literal_bytes("/user-agent")) {
        match req.header(literal_bytes("User-Agent")) {
            Some(v) => {
                let value = copy_range(v, 0, v.len());
                assert(value@ =~= v@);
                Action::Respond(Reply::with_body(value, ContentType::TextPlain))
            },
            None => Action::Respond(Reply::empty(Response::Success)),
        }
    } else {
        let files = literal_bytes("/files/");
        let echo = literal_bytes("/echo/");
        if has_prefix(path, literal_bytes("/files")) {
            if !has_prefix(path, files) {
                Action::Respond(Reply::empty(Response::InternalServerError))
            } else {
                let name = copy_range(path, files.len(), path.len());
                if bytes_equal(req.method.as_slice(), literal_bytes("POST")) {
                    Action::WriteFile { name, content: clean_content(req.body.as_slice()) }
                } else {
                    Action::ReadFile { name }
                }
            }
        } else if has_prefix(path, literal_bytes("/echo")) {
            if has_prefix(path, echo) {
                let text = copy_range(path, echo.len(), path.len());
                Action::Respond(Reply::with_body(text, ContentType::TextPlain))
            } else {
                Action::Respond(Reply::empty(Response::InternalServerError))
            }
        } else {
            Action::Respond(Reply::empty(Response::NotFound))
        }
    }
}

/// Parses raw request bytes and chooses what to do; a request whose request
/// line lacks a method or a path is answered with 500.
pub fn handle_request(raw: &[u8]) -> (a: Action)
    ensures
        a@ == action_for(raw@),
{
    match parse_request(raw) {
        Ok(req) => route(&req),
        Err(_) => Action::Respond(Reply::empty(Response::InternalServerError)),
    }
}

/// The reply once a file write has been tried: 201 when it worked, else 500.
pub fn write_reply(ok: bool) -> (r: Reply)
    ensures
        r@ == written_reply(ok),
{
    if ok {
        Reply::empty(Response::Created)
    } else {
        Reply::empty(Response::InternalServerError)
    }
}

/// The reply once a file read has been tried: the content as an octet
/// stream, 404 for a missing file, 500 for any other failure.
pub fn read_reply(outcome: FileRead) -> (r: Reply)
    ensures
        r@ == read_outcome_reply(outcome@),
{
    match outcome {
        FileRead::Found(c) => Reply::with_body(c, ContentType::OctetStream),
        FileRead::NotFound => Reply::empty(Response::NotFound),
        FileRead::Failed => Reply::empty(Response::InternalServerError),
    }
}

} // verus!
