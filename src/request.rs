//! Parsing a raw request into method, path, headers and body.
use vstd::prelude::*;
use crate::bytes::{
    append_bytes, copy_range, find_byte, index_of_from, lemma_index_of_from,
    lemma_skip_space_from, lemma_token_end_from, skip_space_from, skip_spaces, token_end,
    token_end_from, trim, trimmed,
};

verus! {

pub const LF: u8 = 10;

pub const CR: u8 = 13;

pub const COLON: u8 = 58;

/// Why a request could not be read.
#[derive(Clone, Copy, Debug, PartialEq, Eq, Structural)]
pub enum ParseError {
    /// The request line holds no token at all.
    MissingMethod,
    /// The request line holds a method but no path.
    MissingPath,
}

/// One header line, split at its first colon and trimmed.
#[derive(Debug, PartialEq, Eq)]
pub struct Header {
    pub name: Vec<u8>,
    pub value: Vec<u8>,
}

/// A parsed request. Headers are kept in the order they came; where a name
/// repeats, the last one counts (see `header_map`).
#[derive(Debug, PartialEq, Eq)]
pub struct Request {
    pub method: Vec<u8>,
    pub path: Vec<u8>,
    pub headers: Vec<Header>,
    pub body: Vec<u8>,
}

pub struct RequestModel {
    pub method: Seq<u8>,
    pub path: Seq<u8>,
    pub headers: Seq<(Seq<u8>, Seq<u8>)>,
    pub body: Seq<u8>,
}

pub open spec fn headers_view(hs: Seq<Header>) -> Seq<(Seq<u8>, Seq<u8>)> {
    Seq::new(hs.len(), |i: int| (hs[i].name@, hs[i].value@))
}

pub open spec fn lines_view(ls: Seq<Vec<u8>>) -> Seq<Seq<u8>> {
    Seq::new(ls.len(), |i: int| ls[i]@)
}

impl View for Request {
    type V = RequestModel;

    open spec fn view(&self) -> RequestModel {
        RequestModel {
            method: self.method@,
            path: self.path@,
            headers: headers_view(self.headers@),
            body: self.body@,
        }
    }
}

/// The line that starts at `i`: up to the next line feed, without a
/// carriage return that stands just before that line feed.
pub open spec fn line_at(s: Seq<u8>, i: int) -> Seq<u8> {
    let e = index_of_from(s, LF, i);
    if e < s.len() && i < e && s[e - 1] == CR {
        s.subrange(i, e - 1)
    } else {
        s.subrange(i, e)
    }
}

/// The lines of `s` from position `i` on. A final line feed ends the last
/// line and opens no new one.
pub open spec fn lines_from(s: Seq<u8>, i: int) -> Seq<Seq<u8>>
    decreases s.len() - i,
{
    if 0 <= i < s.len() {
        let e = index_of_from(s, LF, i);
        proof {
            lemma_index_of_from(s, LF, i);
        }
        if e < s.len() {
            seq![line_at(s, i)] + lines_from(s, e + 1)
        } else {
            seq![line_at(s, i)]
        }
    } else {
        Seq::empty()
    }
}

pub open spec fn lines(s: Seq<u8>) -> Seq<Seq<u8>> {
    lines_from(s, 0)
}

/// The whitespace-separated tokens of `l` from position `i` on.
pub open spec fn tokens_from(l: Seq<u8>, i: int) -> Seq<Seq<u8>>
    decreases l.len() - i,
{
    if 0 <= i <= l.len() {
        let j = skip_space_from(l, i);
        if j < l.len() {
            proof {
                lemma_skip_space_from(l, i);
                lemma_token_end_from(l, j);
            }
            seq![l.subrange(j, token_end_from(l, j))] + tokens_from(l, token_end_from(l, j))
        } else {
            Seq::empty()
        }
    } else {
        Seq::empty()
    }
}

pub open spec fn request_line(ls: Seq<Seq<u8>>) -> Seq<u8> {
    if ls.len() > 0 {
        ls[0]
    } else {
        Seq::empty()
    }
}

/// The index of the first empty line at or after `i`, or the number of lines.
pub open spec fn header_end(ls: Seq<Seq<u8>>, i: int) -> int
    decreases ls.len() - i,
{
    if 0 <= i < ls.len() && ls[i].len() > 0 {
        header_end(ls, i + 1)
    } else {
        i
    }
}

pub open spec fn has_colon(l: Seq<u8>) -> bool {
    index_of_from(l, COLON, 0) < l.len()
}

/// A header line split at its first colon, both sides trimmed.
pub open spec fn header_of(l: Seq<u8>) -> (Seq<u8>, Seq<u8>) {
    let c = index_of_from(l, COLON, 0);
    (trim(l.subrange(0, c)), trim(l.subrange(c + 1, l.len() as int)))
}

/// The headers of the given header lines; lines without a colon are skipped.
pub open spec fn headers_in(ls: Seq<Seq<u8>>) -> Seq<(Seq<u8>, Seq<u8>)>
    decreases ls.len(),
{
    if ls.len() == 0 {
        Seq::empty()
    } else {
        let p = headers_in(ls.drop_last());
        if has_colon(ls.last()) {
            p.push(header_of(ls.last()))
        } else {
            p
        }
    }
}

/// The lines, each followed by a line feed.
pub open spec fn join_lines(ls: Seq<Seq<u8>>) -> Seq<u8>
    decreases ls.len(),
{
    if ls.len() == 0 {
        Seq::empty()
    } else {
        join_lines(ls.drop_last()) + ls.last() + seq![LF]
    }
}

/// Everything after the first empty line that follows the request line.
pub open spec fn body_of(ls: Seq<Seq<u8>>) -> Seq<u8> {
    let h = header_end(ls, 1);
    if h < ls.len() {
        join_lines(ls.subrange(h + 1, ls.len() as int))
    } else {
        Seq::empty()
    }
}

/// What a raw request parses to.
pub open spec fn parse(s: Seq<u8>) -> Result<RequestModel, ParseError> {
    let ls = lines(s);
    let t = tokens_from(request_line(ls), 0);
    if t.len() == 0 {
        Err(ParseError::MissingMethod)
    } else if t.len() == 1 {
        Err(ParseError::MissingPath)
    } else {
        Ok(
            RequestModel {
                method: t[0],
                path: t[1],
                headers: headers_in(ls.subrange(1, header_end(ls, 1))),
                body: body_of(ls),
            },
        )
    }
}

/// The header mapping: each name to the value of its last occurrence.
pub open spec fn header_map(hs: Seq<(Seq<u8>, Seq<u8>)>) -> Map<Seq<u8>, Seq<u8>>
    decreases hs.len(),
{
    if hs.len() == 0 {
        Map::empty()
    } else {
        header_map(hs.drop_last()).insert(hs.last().0, hs.last().1)
    }
}

pub open spec fn parsed_as(r: Result<Request, ParseError>, s: Seq<u8>) -> bool {
    match (r, parse(s)) {
        (Ok(q), Ok(m)) => q@ == m,
        (Err(e), Err(f)) => e == f,
        _ => false,
    }
}

proof fn lemma_header_map_prefix(hs: Seq<(Seq<u8>, Seq<u8>)>, key: Seq<u8>, i: int)
    requires
        0 <= i <= hs.len(),
        forall|k: int| i <= k < hs.len() ==> hs[k].0 != key,
    ensures
        header_map(hs).contains_key(key) == header_map(hs.subrange(0, i)).contains_key(key),
        header_map(hs).contains_key(key) ==> header_map(hs)[key] == header_map(
            hs.subrange(0, i),
        )[key],
    decreases hs.len(),
{
    if hs.len() > i {
        lemma_header_map_prefix(hs.drop_last(), key, i);
        assert(hs.drop_last().subrange(0, i) =~= hs.subrange(0, i));
    } else {
        assert(hs.subrange(0, i) =~= hs);
    }
}

/// The lines of `s`, as `str::lines` cuts them.
pub fn split_lines(s: &[u8]) -> (r: Vec<Vec<u8>>)
    ensures
        lines_view(r@) == lines(s@),
{
    let mut r: Vec<Vec<u8>> = Vec::new();
    let mut i: usize = 0;
    while i < s.len()
        invariant
            i <= s@.len(),
            lines_view(r@) + lines_from(s@, i as int) == lines(s@),
        decreases s@.len() - i,
    {
        let e = find_byte(s, LF, i);
        proof {
            lemma_index_of_from(s@, LF, i as int);
        }
        let end = if e < s.len() && i < e && s[e - 1] == CR {
            e - 1
        } else {
            e
        };
        let line = copy_range(s, i, end);
        let ghost before = lines_view(r@);
        r.push(line);
        proof {
            assert(lines_view(r@) =~= before.push(line@));
            if e < s@.len() {
                assert(lines_from(s@, i as int) == seq![line@] + lines_from(s@, e + 1));
                assert(lines_view(r@) + lines_from(s@, e + 1) =~= before + lines_from(
                    s@,
                    i as int,
                ));
            } else {
                assert(lines_from(s@, e as int) =~= Seq::<Seq<u8>>::empty());
                assert(lines_view(r@) + lines_from(s@, e as int) =~= before + lines_from(
                    s@,
                    i as int,
                ));
            }
        }
        i = if e < s.len() {
            e + 1
        } else {
            e
        };
    }
    proof {
        assert(lines_view(r@) + lines_from(s@, i as int) =~= lines_view(r@));
    }
    r
}

/// Parses a raw request: the request line gives method and path, the lines
/// up to the first empty one give headers, and the lines after it, each
/// followed by a line feed, give the body.
pub fn parse_request(request: &[u8]) -> (r: Result<Request, ParseError>)
    ensures
        parsed_as(r, request@),
{
    let ls = split_lines(request);
    let ghost lv = lines_view(ls@);
    let empty: Vec<u8> = Vec::new();
    let first: &[u8] = if ls.len() > 0 {
        ls[0].as_slice()
    } else {
        empty.as_slice()
    };
    assert(first@ == request_line(lv));
    let a = skip_spaces(first, 0);
    proof {
        lemma_skip_space_from(first@, 0);
    }
    if a >= first.len() {
        return Err(ParseError::MissingMethod);
    }
    let b = token_end(first, a);
    proof {
        lemma_token_end_from(first@, a as int);
    }
    let c = skip_spaces(first, b);
    proof {
        lemma_skip_space_from(first@, b as int);
        assert(tokens_from(first@, 0) == seq![first@.subrange(a as int, b as int)]
            + tokens_from(first@, b as int));
    }
    if c >= first.len() {
        proof {
            assert(tokens_from(first@, b as int) =~= Seq::<Seq<u8>>::empty());
        }
        return Err(ParseError::MissingPath);
    }
    let d = token_end(first, c);
    proof {
        lemma_token_end_from(first@, c as int);
        assert(tokens_from(first@, b as int) == seq![first@.subrange(c as int, d as int)]
            + tokens_from(first@, d as int));
    }
    let method = copy_range(first, a, b);
    let path = copy_range(first, c, d);

    let mut headers: Vec<Header> = Vec::new();
    let mut i: usize = 1;
    while i < ls.len() && ls[i].len() > 0
        invariant
            lv == lines_view(ls@),
            1 <= i <= ls@.len(),
            headers_view(headers@) == headers_in(lv.subrange(1, i as int)),
            header_end(lv, 1) == header_end(lv, i as int),
        decreases ls@.len() - i,
    {
        let line = ls[i].as_slice();
        let col = find_byte(line, COLON, 0);
        proof {
            lemma_index_of_from(line@, COLON, 0);
            assert(lv.subrange(1, i + 1).drop_last() =~= lv.subrange(1, i as int));
        }
        if col < line.len() {
            let k = copy_range(line, 0, col);
            let v = copy_range(line, col + 1, line.len());
            let name = trimmed(k.as_slice());
            let value = trimmed(v.as_slice());
            let ghost before = headers_view(headers@);
            headers.push(Header { name, value });
            proof {
                assert(headers_view(headers@) =~= before.push(header_of(line@)));
            }
        }
        i += 1;
    }
    let h = i;

    let mut body: Vec<u8> = Vec::new();
    if h < ls.len() {
        let mut j: usize = h + 1;
        while j < ls.len()
            invariant
                lv == lines_view(ls@),
                h < ls@.len(),
                h + 1 <= j <= ls@.len(),
                body@ == join_lines(lv.subrange(h + 1, j as int)),
            decreases ls@.len() - j,
        {
            append_bytes(&mut body, ls[j].as_slice());
            body.push(LF);
            proof {
                assert(lv.subrange(h + 1, j + 1).drop_last() =~= lv.subrange(h + 1, j as int));
                assert(body@ =~= join_lines(lv.subrange(h + 1, j + 1)));
            }
            j += 1;
        }
    }
    let req = Request { method, path, headers, body };
    proof {
        assert(headers_view(req.headers@) == headers_in(lv.subrange(1, header_end(lv, 1))));
        if h >= ls@.len() {
            assert(body_of(lv) =~= Seq::<u8>::empty());
        }
    }
    Ok(req)
}

impl Request {
    /// The value of the last header with this name, if any.
    pub fn header(&self, name: &[u8]) -> (r: Option<&[u8]>)
        ensures
            match r {
                Some(v) => header_map(self@.headers).contains_key(name@) && header_map(
                    self@.headers,
                )[name@] == v@,
                None => !header_map(self@.headers).contains_key(name@),
            },
    {
        let ghost hs = self@.headers;
        let mut i: usize = self.headers.len();
        while i > 0
            invariant
                hs == headers_view(self.headers@),
                i <= hs.len(),
                forall|k: int| i <= k < hs.len() ==> hs[k].0 != name@,
            decreases i,
        {
            if crate::bytes::bytes_equal(self.headers[i - 1].name.as_slice(), name) {
                proof {
                    lemma_header_map_prefix(hs, name@, i as int);
                    assert(hs.subrange(0, i as int).drop_last() =~= hs.subrange(0, i - 1));
                }
                return Some(self.headers[i - 1].value.as_slice());
            }
            i -= 1;
        }
        proof {
            lemma_header_map_prefix(hs, name@, 0);
            assert(hs.subrange(0, 0) =~= Seq::<(Seq<u8>, Seq<u8>)>::empty());
        }
        None
    }
}

} // verus!
