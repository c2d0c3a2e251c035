//! Response statuses and their exact wire form.
use vstd::prelude::*;
use crate::bytes::{append_bytes, ascii, decimal, literal_bytes, push_decimal};

verus! {

/// The closed set of statuses the server answers with.
#[derive(Clone, Copy, Debug, PartialEq, Eq, Structural)]
pub enum Response {
    Success,
    NotFound,
    InternalServerError,
    Created,
}

/// The declared type of a response body.
#[derive(Clone, Copy, Debug, PartialEq, Eq, Structural)]
pub enum ContentType {
    TextPlain,
    OctetStream,
}

/// A response body: its bytes and their declared type.
#[derive(Debug, PartialEq, Eq)]
pub struct Body {
    pub content: Vec<u8>,
    pub content_type: ContentType,
}

/// A status with an optional body.
#[derive(Debug, PartialEq, Eq)]
pub struct Reply {
    pub status: Response,
    pub body: Option<Body>,
}

pub struct BodyModel {
    pub content: Seq<u8>,
    pub content_type: ContentType,
}

pub struct ReplyModel {
    pub status: Response,
    pub body: Option<BodyModel>,
}

impl View for Body {
    type V = BodyModel;

    open spec fn view(&self) -> BodyModel {
        BodyModel { content: self.content@, content_type: self.content_type }
    }
}

impl View for Reply {
    type V = ReplyModel;

    open spec fn view(&self) -> ReplyModel {
        ReplyModel {
            status: self.status,
            body: match self.body {
                Some(b) => Some(b@),
                None => None,
            },
        }
    }
}

/// The status line, with its line break.
pub open spec fn status_text(r: Response) -> Seq<char> {
    match r {
        Response::Success => "HTTP/1.1 200 OK\r\n"@,
        Response::NotFound => "HTTP/1.1 404 NOT FOUND\r\n"@,
        Response::InternalServerError => "HTTP/1.1 500 INTERNAL SERVER ERROR\r\n"@,
        Response::Created => "HTTP/1.1 201 CREATED\r\n"@,
    }
}

pub open spec fn content_type_text(t: ContentType) -> Seq<char> {
    match t {
        ContentType::TextPlain => "text/plain"@,
        ContentType::OctetStream => "application/octet-stream"@,
    }
}

/// The exact bytes sent for a reply: the status line, then either a bare
/// line break, or the two body headers, a blank line, the body and a
/// closing blank line.
pub open spec fn wire_bytes(r: ReplyModel) -> Seq<u8> {
    match r.body {
        None => ascii(status_text(r.status)) + ascii("\r\n"@),
        Some(b) => ascii(status_text(r.status)) + ascii("Content-Type: "@) + ascii(
            content_type_text(b.content_type),
        ) + ascii("\r\nContent-Length: "@) + decimal(b.content.len()) + ascii("\r\n\r\n"@)
            + b.content + ascii("\r\n\r\n"@),
    }
}

pub open spec fn empty_reply(status: Response) -> ReplyModel {
    ReplyModel { status, body: None }
}

pub open spec fn body_reply(content: Seq<u8>, content_type: ContentType) -> ReplyModel {
    ReplyModel {
        status: Response::Success,
        body: Some(BodyModel { content, content_type }),
    }
}

impl Response {
    /// The status line, with its line break.
    pub fn to_string(&self) -> (r: String)
        ensures
            r@ == status_text(*self),
    {
        match self {
            Response::Success => "HTTP/1.1 200 OK\r\n".to_owned(),
            Response::NotFound => "HTTP/1.1 404 NOT FOUND\r\n".to_owned(),
            Response::InternalServerError => "HTTP/1.1 500 INTERNAL SERVER ERROR\r\n".to_owned(),
            Response::Created => "HTTP/1.1 201 CREATED\r\n".to_owned(),
        }
    }

    /// The status line as bytes.
    pub fn status_bytes(&self) -> (r: &'static [u8])
        ensures
            r@ == ascii(status_text(*self)),
    {
        proof {
            reveal_strlit("HTTP/1.1 200 OK\r\n");
            reveal_strlit("HTTP/1.1 404 NOT FOUND\r\n");
            reveal_strlit("HTTP/1.1 500 INTERNAL SERVER ERROR\r\n");
            reveal_strlit("HTTP/1.1 201 CREATED\r\n");
        }
        match self {
            Response::Success => literal_bytes("HTTP/1.1 200 OK\r\n"),
            Response::NotFound => literal_bytes("HTTP/1.1 404 NOT FOUND\r\n"),
            Response::InternalServerError => literal_bytes(
                "HTTP/1.1 500 INTERNAL SERVER ERROR\r\n",
            ),
            Response::Created => literal_bytes("HTTP/1.1 201 CREATED\r\n"),
        }
    }
}

impl ContentType {
    pub fn as_bytes(&self) -> (r: &'static [u8])
        ensures
            r@ == ascii(content_type_text(*self)),
    {
        proof {
            reveal_strlit("text/plain");
            reveal_strlit("application/octet-stream");
        }
        match self {
            ContentType::TextPlain => literal_bytes("text/plain"),
            ContentType::OctetStream => literal_bytes("application/octet-stream"),
        }
    }
}

impl Reply {
    /// A reply with this status and no body.
    pub fn empty(status: Response) -> (r: Reply)
        ensures
            r@ == empty_reply(status),
    {
        Reply { status, body: None }
    }

    /// A 200 reply carrying `content`.
    pub fn with_body(content: Vec<u8>, content_type: ContentType) -> (r: Reply)
        ensures
            r@ == body_reply(content@, content_type),
    {
        Reply { status: Response::Success, body: Some(Body { content, content_type }) }
    }

    /// The exact bytes to send for this reply.
    pub fn to_bytes(&self) -> (r: Vec<u8>)
        ensures
            r@ == wire_bytes(self@),
    {
        proof {
            reveal_strlit("\r\n");
            reveal_strlit("Content-Type: ");
            reveal_strlit("\r\nContent-Length: ");
            reveal_strlit("\r\n\r\n");
        }
        let mut out: Vec<u8> = Vec::new();
        append_bytes(&mut out, self.status.status_bytes());
        match &self.body {
            None => {
                append_bytes(&mut out, literal_bytes("\r\n"));
            },
            Some(b) => {
                append_bytes(&mut out, literal_bytes("Content-Type: "));
                append_bytes(&mut out, b.content_type.as_bytes());
                append_bytes(&mut out, literal_bytes("\r\nContent-Length: "));
                push_decimal(&mut out, b.content.len());
                append_bytes(&mut out, literal_bytes("\r\n\r\n"));
                append_bytes(&mut out, b.content.as_slice());
                append_bytes(&mut out, literal_bytes("\r\n\r\n"));
            },
        }
        proof {
            assert(out@ =~= wire_bytes(self@));
        }
        out
    }
}

} // verus!
