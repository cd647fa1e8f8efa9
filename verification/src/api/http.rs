//! A small HTTP/1.1 request reader and response writer.
//!
//! Deliberately hand-rolled and synchronous. The API has a handful of endpoints
//! on a loopback socket, which does not pay for an async runtime. Reading is a
//! function over bytes so it can be tested without a socket; only the head of
//! the request is split into lines by `httparse`.

use vstd::prelude::*;

use crate::json;
use crate::percent;
use crate::text;

verus! {

broadcast use vstd::seq_lib::group_seq_properties;

/// Refuse bodies larger than this. Local or not, an unbounded read is an
/// invitation to exhaust memory.
pub const MAX_BODY: usize = 1_048_576;

/// The most headers we will look at. Anything beyond is a malformed request.
pub const MAX_HEADERS: usize = 32;

/// The texts of a list of pairs.
pub open spec fn pairs(list: Seq<(String, String)>) -> Seq<(Seq<char>, Seq<char>)> {
    list.map_values(|p: (String, String)| (p.0@, p.1@))
}

/// What stands beside the first of a name in a list of pairs.
pub open spec fn lookup(list: Seq<(Seq<char>, Seq<char>)>, name: Seq<char>) -> Option<Seq<char>>
    decreases list.len(),
{
    if list.len() == 0 {
        None
    } else if list[0].0 == name {
        Some(list[0].1)
    } else {
        lookup(list.skip(1), name)
    }
}

/// Finds what stands beside the first of a name in a list of pairs.
fn find<'a>(list: &'a Vec<(String, String)>, name: &str) -> (r: Option<&'a str>)
    ensures
        match r {
            Some(value) => lookup(pairs(list@), name@) == Some(value@),
            None => lookup(pairs(list@), name@) is None,
        },
{
    let ghost all = pairs(list@);
    let mut i: usize = 0;
    assert(all.skip(0) =~= all);
    while i < list.len()
        invariant
            i <= list.len(),
            all == pairs(list@),
            lookup(all, name@) == lookup(all.skip(i as int), name@),
        decreases list.len() - i,
    {
        assert(all.skip(i as int)[0] == (list@[i as int].0@, list@[i as int].1@));
        if text::same(list[i].0.as_str(), name) {
            return Some(list[i].1.as_str());
        }
        assert(all.skip(i as int).skip(1) =~= all.skip(i + 1));
        i += 1;
    }
    None
}

/// A request as the contracts speak of it.
#[verifier::ext_equal]
pub struct RequestModel {
    pub method: Seq<char>,
    pub path: Seq<char>,
    pub query: Seq<(Seq<char>, Seq<char>)>,
    pub headers: Seq<(Seq<char>, Seq<char>)>,
    pub body: Seq<u8>,
}

/// One request.
#[derive(Debug, Clone, PartialEq, Eq)]
pub struct Request {
    pub method: String,
    /// Percent-decoded, query stripped.
    pub path: String,
    query: Vec<(String, String)>,
    /// Names lowercased, values trimmed.
    headers: Vec<(String, String)>,
    pub body: Vec<u8>,
}

impl View for Request {
    type V = RequestModel;

    closed spec fn view(&self) -> RequestModel {
        RequestModel {
            method: self.method@,
            path: self.path@,
            query: pairs(self.query@),
            headers: pairs(self.headers@),
            body: self.body@,
        }
    }
}

impl Request {
    /// A request's parts are those of its model.
    pub fn method(&self) -> (r: &str)
        ensures
            r@ == self@.method,
    {
        self.method.as_str()
    }

    /// The path, percent-decoded.
    pub fn path(&self) -> (r: &str)
        ensures
            r@ == self@.path,
    {
        self.path.as_str()
    }

    /// The body.
    pub fn body(&self) -> (r: &Vec<u8>)
        ensures
            r@ == self@.body,
    {
        &self.body
    }

    /// The value of a header, by its lowercase name.
    pub fn header(&self, name: &str) -> (r: Option<&str>)
        ensures
            match r {
                Some(value) => lookup(self@.headers, name@) == Some(value@),
                None => lookup(self@.headers, name@) is None,
            },
    {
        find(&self.headers, name)
    }

    /// The value of a query parameter.
    pub fn param(&self, name: &str) -> (r: Option<&str>)
        ensures
            match r {
                Some(value) => lookup(self@.query, name@) == Some(value@),
                None => lookup(self@.query, name@) is None,
            },
    {
        find(&self.query, name)
    }
}

/// What [`parse`] made of the bytes so far.
#[derive(Debug)]
pub enum Parsed {
    Complete(Request),
    /// Headers or body are still arriving; read more and try again.
    Incomplete,
    Malformed(&'static str),
}

/// What became of the bytes, as the contracts speak of it.
#[verifier::ext_equal]
pub enum ParsedModel {
    Complete(RequestModel),
    Incomplete,
    Malformed(Seq<char>),
}

impl View for Parsed {
    type V = ParsedModel;

    open spec fn view(&self) -> ParsedModel {
        match *self {
            Parsed::Complete(request) => ParsedModel::Complete(request@),
            Parsed::Incomplete => ParsedModel::Incomplete,
            Parsed::Malformed(why) => ParsedModel::Malformed(why@),
        }
    }
}

// ---------------------------------------------------------------------------
// The head of a request
// ---------------------------------------------------------------------------

/// The head of a request: its first line and its headers, as they were sent.
#[derive(Debug)]
pub struct Head {
    /// How many bytes it takes up, blank line included.
    pub len: usize,
    pub method: Option<String>,
    /// Everything between the method and the version.
    pub target: Option<String>,
    pub headers: Vec<(String, Vec<u8>)>,
}

/// What became of reading a head.
#[derive(Debug)]
pub enum HeadRead {
    Complete(Head),
    Partial,
    Invalid,
}

/// A head as the contracts speak of it.
#[verifier::ext_equal]
pub struct HeadModel {
    pub len: nat,
    pub method: Option<Seq<char>>,
    pub target: Option<Seq<char>>,
    pub headers: Seq<(Seq<char>, Seq<u8>)>,
}

/// What became of reading a head, as the contracts speak of it.
#[verifier::ext_equal]
pub enum HeadReadModel {
    Complete(HeadModel),
    Partial,
    Invalid,
}

/// The text of an optional string.
pub open spec fn optional_text(s: Option<String>) -> Option<Seq<char>> {
    match s {
        Some(s) => Some(s@),
        None => None,
    }
}

impl View for HeadRead {
    type V = HeadReadModel;

    open spec fn view(&self) -> HeadReadModel {
        match *self {
            HeadRead::Complete(head) => HeadReadModel::Complete(
                HeadModel {
                    len: head.len as nat,
                    method: optional_text(head.method),
                    target: optional_text(head.target),
                    headers: head.headers@.map_values(|h: (String, Vec<u8>)| (h.0@, h.1@)),
                },
            ),
            HeadRead::Partial => HeadReadModel::Partial,
            HeadRead::Invalid => HeadReadModel::Invalid,
        }
    }
}

/// What `httparse` makes of some bytes as the head of a request, with room for
/// so many headers.
pub uninterp spec fn http_head(buffer: Seq<u8>, max_headers: usize) -> HeadReadModel;

/// `httparse::Request::parse`: the head at the start of some bytes.
///
/// How the bytes are split is only named. A complete head ends within them.
#[verifier::external_body]
fn read_head(buffer: &[u8], max_headers: usize) -> (r: HeadRead)
    ensures
        r@ == http_head(buffer@, max_headers),
        r matches HeadRead::Complete(head) ==> head.len <= buffer@.len(),
{
    let mut room = vec![httparse::EMPTY_HEADER; max_headers];
    let mut parser = httparse::Request::new(&mut room);
    match parser.parse(buffer) {
        Ok(httparse::Status::Complete(len)) => HeadRead::Complete(Head {
            len,
            method: parser.method.map(str::to_owned),
            target: parser.path.map(str::to_owned),
            headers: parser.headers.iter().map(|h| (h.name.to_owned(), h.value.to_vec())).collect(),
        }),
        Ok(httparse::Status::Partial) => HeadRead::Partial,
        Err(_) => HeadRead::Invalid,
    }
}

// ---------------------------------------------------------------------------
// From a head to a request
// ---------------------------------------------------------------------------

/// Headers as a request has them: names lowercased, values trimmed.
pub open spec fn tidy_headers(headers: Seq<(Seq<char>, Seq<u8>)>) -> Seq<(Seq<char>, Seq<char>)> {
    headers.map_values(
        |h: (Seq<char>, Seq<u8>)|
            (text::ascii_lowered(h.0), text::trimmed(text::lossy_text(h.1))),
    )
}

/// One parameter of a query.
pub open spec fn parsed_pair(pair: Seq<char>) -> (Seq<char>, Seq<char>) {
    if text::first_index(pair, '=') < pair.len() {
        (
            percent::decoded_plus(text::before_first(pair, '=')),
            percent::decoded_plus(text::after_first(pair, '=')),
        )
    } else {
        (percent::decoded_plus(pair), Seq::<char>::empty())
    }
}

/// The parameters of a query.
pub open spec fn parsed_query(query: Seq<char>) -> Seq<(Seq<char>, Seq<char>)> {
    text::pieces(query, '&').filter(|pair: Seq<char>| pair.len() > 0).map_values(
        |pair: Seq<char>| parsed_pair(pair),
    )
}

/// The path that a target names.
pub open spec fn path_of(target: Seq<char>) -> Seq<char> {
    percent::decoded(text::before_first(target, '?'))
}

/// The query that a target carries.
pub open spec fn query_of(target: Seq<char>) -> Seq<(Seq<char>, Seq<char>)> {
    if text::first_index(target, '?') < target.len() {
        parsed_query(text::after_first(target, '?'))
    } else {
        Seq::<(Seq<char>, Seq<char>)>::empty()
    }
}

/// How long the body is that some headers announce, or what is wrong with them.
pub open spec fn announced_length(headers: Seq<(Seq<char>, Seq<char>)>) -> Result<nat, Seq<char>> {
    if lookup(headers, "transfer-encoding"@) is Some {
        Err("chunked bodies are not supported; send Content-Length"@)
    } else {
        match lookup(headers, "content-length"@) {
            None => Ok(0),
            Some(value) => match text::number(value, usize::MAX as nat) {
                None => Err("invalid Content-Length"@),
                Some(n) => if n > MAX_BODY {
                    Err("request body is too large"@)
                } else {
                    Ok(n)
                },
            },
        }
    }
}

/// The request that some bytes hold, given what became of reading their head.
pub open spec fn assembled(buffer: Seq<u8>, head: HeadReadModel) -> ParsedModel {
    match head {
        HeadReadModel::Partial => ParsedModel::Incomplete,
        HeadReadModel::Invalid => ParsedModel::Malformed("could not parse the request"@),
        HeadReadModel::Complete(head) => {
            let headers = tidy_headers(head.headers);
            match announced_length(headers) {
                Err(why) => ParsedModel::Malformed(why),
                Ok(n) => if buffer.len() < head.len + n {
                    ParsedModel::Incomplete
                } else {
                    let target = match head.target {
                        Some(target) => target,
                        None => "/"@,
                    };
                    ParsedModel::Complete(
                        RequestModel {
                            method: text::ascii_uppered(
                                match head.method {
                                    Some(method) => method,
                                    None => Seq::<char>::empty(),
                                },
                            ),
                            path: path_of(target),
                            query: query_of(target),
                            headers,
                            body: buffer.subrange(head.len as int, (head.len + n) as int),
                        },
                    )
                },
            }
        },
    }
}

/// Puts headers as a request has them.
fn tidy(headers: &Vec<(String, Vec<u8>)>) -> (r: Vec<(String, String)>)
    ensures
        pairs(r@) == tidy_headers(headers@.map_values(|h: (String, Vec<u8>)| (h.0@, h.1@))),
{
    let ghost want = tidy_headers(headers@.map_values(|h: (String, Vec<u8>)| (h.0@, h.1@)));
    let mut out: Vec<(String, String)> = Vec::new();
    let mut i: usize = 0;
    while i < headers.len()
        invariant
            i <= headers.len(),
            want == tidy_headers(headers@.map_values(|h: (String, Vec<u8>)| (h.0@, h.1@))),
            pairs(out@) == want.take(i as int),
        decreases headers.len() - i,
    {
        let ghost had = pairs(out@);
        let name = text::to_ascii_lower(headers[i].0.as_str());
        let value = text::trim(text::from_utf8_lossy(headers[i].1.as_slice()).as_str());
        let ghost one = (name@, value@);
        out.push((name, value));
        assert(pairs(out@) =~= had.push(one));
        assert(one == want[i as int]);
        assert(want.take(i + 1) =~= want.take(i as int).push(want[i as int]));
        i += 1;
    }
    assert(want.take(i as int) =~= want);
    out
}

/// Reads the parameters of a query.
pub fn parse_query(query: &str) -> (r: Vec<(String, String)>)
    ensures
        pairs(r@) == parsed_query(query@),
{
    let pieces = text::split(query, '&');
    let ghost all = text::pieces(query@, '&');
    let ghost some = |pair: Seq<char>| pair.len() > 0;
    let ghost read = |pair: Seq<char>| parsed_pair(pair);
    let mut out: Vec<(String, String)> = Vec::new();
    let mut i: usize = 0;
    proof {
        crate::domain::narrowing::lemma_filter_step(all, some, 0);
        assert(pairs(out@) =~= all.take(0).filter(some).map_values(read));
    }
    while i < pieces.len()
        invariant
            i <= pieces.len(),
            all == text::texts(pieces@),
            some == (|pair: Seq<char>| pair.len() > 0),
            read == (|pair: Seq<char>| parsed_pair(pair)),
            pairs(out@) == all.take(i as int).filter(some).map_values(read),
        decreases pieces.len() - i,
    {
        let pair = pieces[i].as_str();
        let ghost had = pairs(out@);
        proof {
            crate::domain::narrowing::lemma_filter_step(all, some, i as int);
            assert(all[i as int] == pair@);
        }
        if text::char_count(pair) > 0 {
            let (name, value) = match text::split_once(pair, '=') {
                Some((name, value)) => (
                    percent::percent_decode_plus(name.as_str()),
                    percent::percent_decode_plus(value.as_str()),
                ),
                None => (percent::percent_decode_plus(pair), String::new()),
            };
            let ghost one = (name@, value@);
            out.push((name, value));
            proof {
                text::lemma_first_index(pair@, '=');
                assert(one =~= parsed_pair(pair@));
                assert(pairs(out@) =~= had.push(one));
                assert(had.push(read(pair@)) =~= all.take(i + 1).filter(some).map_values(read));
            }
        }
        i += 1;
    }
    assert(all.take(i as int) =~= all);
    out
}

/// How long the body is that some headers announce, or what is wrong with them.
fn body_length(headers: &Vec<(String, String)>) -> (r: Result<usize, &'static str>)
    ensures
        match r {
            Ok(n) => announced_length(pairs(headers@)) == Ok::<nat, Seq<char>>(n as nat) && n
                <= MAX_BODY,
            Err(why) => announced_length(pairs(headers@)) == Err::<nat, Seq<char>>(why@),
        },
{
    // Only `Content-Length` delimits a body here. Said rather than assumed: a
    // chunked body would otherwise be read as no body at all, and the caller
    // would be told their `title` was missing rather than that their body never
    // arrived.
    if find(headers, "transfer-encoding").is_some() {
        return Err("chunked bodies are not supported; send Content-Length");
    }
    match find(headers, "content-length") {
        None => Ok(0),
        Some(value) => match text::parse_number(value, usize::MAX as u64) {
            None => Err("invalid Content-Length"),
            Some(n) => if n > MAX_BODY as u64 {
                Err("request body is too large")
            } else {
                Ok(n as usize)
            },
        },
    }
}

/// Reads a request out of some bytes, given what became of reading their head.
pub fn assemble(buffer: &[u8], head: HeadRead) -> (r: Parsed)
    requires
        head matches HeadRead::Complete(head) ==> head.len <= buffer@.len(),
    ensures
        r@ == assembled(buffer@, head@),
{
    let head = match head {
        HeadRead::Partial => {
            return Parsed::Incomplete;
        },
        HeadRead::Invalid => {
            return Parsed::Malformed("could not parse the request");
        },
        HeadRead::Complete(head) => head,
    };
    let headers = tidy(&head.headers);
    let length = match body_length(&headers) {
        Ok(length) => length,
        Err(why) => {
            return Parsed::Malformed(why);
        },
    };
    let size: usize = buffer.len();
    if size - head.len < length {
        return Parsed::Incomplete;
    }
    let target = match head.target {
        Some(target) => target,
        None => "/".to_owned(),
    };
    let method = match head.method {
        Some(method) => text::to_ascii_upper(method.as_str()),
        None => String::new(),
    };
    assert(head.method is None ==> text::ascii_uppered(Seq::<char>::empty()) =~= Seq::<
        char,
    >::empty());
    let (path, query) = match text::split_once(target.as_str(), '?') {
        Some((path, query)) => (
            percent::percent_decode(path.as_str()),
            parse_query(query.as_str()),
        ),
        None => (percent::percent_decode(target.as_str()), Vec::new()),
    };
    proof {
        text::lemma_first_index(target@, '?');
        if text::first_index(target@, '?') == target@.len() {
            assert(text::before_first(target@, '?') =~= target@);
            assert(pairs(query@) =~= query_of(target@));
        }
    }
    let mut body: Vec<u8> = Vec::new();
    let mut i: usize = 0;
    while i < length
        invariant
            i <= length,
            size == buffer@.len(),
            head.len + length <= size,
            body@ == buffer@.subrange(head.len as int, head.len + i),
        decreases length - i,
    {
        body.push(buffer[head.len + i]);
        i += 1;
        assert(body@ =~= buffer@.subrange(head.len as int, head.len + i));
    }
    Parsed::Complete(Request { method, path, query, headers, body })
}

/// Reads a request out of whatever has arrived so far.
pub fn parse(buffer: &[u8]) -> (r: Parsed)
    ensures
        r@ == assembled(buffer@, http_head(buffer@, MAX_HEADERS)),
{
    assemble(buffer, read_head(buffer, MAX_HEADERS))
}

// ---------------------------------------------------------------------------
// Responses
// ---------------------------------------------------------------------------

/// A response as the contracts speak of it.
#[verifier::ext_equal]
pub struct ResponseModel {
    pub status: u16,
    pub headers: Seq<(Seq<char>, Seq<char>)>,
    pub body: Seq<u8>,
}

/// One response.
#[derive(Debug, Clone, PartialEq, Eq)]
pub struct Response {
    pub status: u16,
    pub headers: Vec<(String, String)>,
    pub body: Vec<u8>,
}

impl View for Response {
    type V = ResponseModel;

    open spec fn view(&self) -> ResponseModel {
        ResponseModel { status: self.status, headers: pairs(self.headers@), body: self.body@ }
    }
}

/// A response with nothing in it.
pub open spec fn empty_response(status: u16) -> ResponseModel {
    ResponseModel {
        status,
        headers: Seq::<(Seq<char>, Seq<char>)>::empty(),
        body: Seq::<u8>::empty(),
    }
}

/// A response that is some JSON.
pub open spec fn json_response(status: u16, body: Seq<char>) -> ResponseModel {
    ResponseModel {
        status,
        headers: seq![("Content-Type"@, "application/json"@)],
        body: vstd::utf8::encode_utf8(body),
    }
}

/// The error shape every failure uses: one human-readable sentence.
pub open spec fn error_text(message: Seq<char>) -> Seq<char> {
    json::object_text(seq![json::field_text("error"@, json::json_text(message))])
}

/// A response that is an error.
pub open spec fn error_response(status: u16, message: Seq<char>) -> ResponseModel {
    json_response(status, error_text(message))
}

/// A response with one more header.
pub open spec fn headed(
    response: ResponseModel,
    name: Seq<char>,
    value: Seq<char>,
) -> ResponseModel {
    ResponseModel { headers: response.headers.push((name, value)), ..response }
}

/// The words beside a status code.
pub open spec fn reason_text(status: u16) -> Seq<char> {
    if status == 200 {
        "OK"@
    } else if status == 201 {
        "Created"@
    } else if status == 204 {
        "No Content"@
    } else if status == 400 {
        "Bad Request"@
    } else if status == 401 {
        "Unauthorized"@
    } else if status == 403 {
        "Forbidden"@
    } else if status == 404 {
        "Not Found"@
    } else if status == 405 {
        "Method Not Allowed"@
    } else if status == 409 {
        "Conflict"@
    } else if status == 413 {
        "Payload Too Large"@
    } else if status == 503 {
        "Service Unavailable"@
    } else {
        "Internal Server Error"@
    }
}

/// Header lines, each with its line ending.
pub open spec fn header_lines(headers: Seq<(Seq<char>, Seq<char>)>) -> Seq<char>
    decreases headers.len(),
{
    if headers.len() == 0 {
        Seq::<char>::empty()
    } else {
        header_lines(headers.drop_last()) + headers.last().0 + ": "@ + headers.last().1 + "\r\n"@
    }
}

/// The head of a response, blank line included.
pub open spec fn head_text(response: ResponseModel) -> Seq<char> {
    "HTTP/1.1 "@ + text::decimal(response.status as int) + " "@ + reason_text(response.status)
        + "\r\n"@ + header_lines(response.headers) + "Content-Length: "@ + text::decimal(
        response.body.len() as int,
    ) + "\r\n"@ + "Connection: close\r\n\r\n"@
}

/// The bytes of a response.
pub open spec fn response_bytes(response: ResponseModel) -> Seq<u8> {
    vstd::utf8::encode_utf8(head_text(response)) + response.body
}

/// The bytes of a string.
pub fn bytes_of(s: &str) -> (r: Vec<u8>)
    ensures
        r@ == vstd::utf8::encode_utf8(s@),
{
    let mut out: Vec<u8> = Vec::new();
    out.extend_from_slice(s.as_bytes());
    out
}

fn reason(status: u16) -> (r: &'static str)
    ensures
        r@ == reason_text(status),
{
    match status {
        200 => "OK",
        201 => "Created",
        204 => "No Content",
        400 => "Bad Request",
        401 => "Unauthorized",
        403 => "Forbidden",
        404 => "Not Found",
        405 => "Method Not Allowed",
        409 => "Conflict",
        413 => "Payload Too Large",
        503 => "Service Unavailable",
        _ => "Internal Server Error",
    }
}

impl Response {
    /// A response with nothing in it.
    pub fn empty(status: u16) -> (r: Response)
        ensures
            r@ == empty_response(status),
    {
        let r = Response { status, headers: Vec::new(), body: Vec::new() };
        assert(r@ =~= empty_response(status));
        r
    }

    /// A response that is some JSON.
    pub fn json(status: u16, body: &str) -> (r: Response)
        ensures
            r@ == json_response(status, body@),
    {
        let mut headers: Vec<(String, String)> = Vec::new();
        headers.push(("Content-Type".to_owned(), "application/json".to_owned()));
        let r = Response { status, headers, body: bytes_of(body) };
        assert(r@.headers =~= json_response(status, body@).headers);
        r
    }

    /// A response that is an error, with the sentence that says what it was.
    pub fn error(status: u16, message: &str) -> (r: Response)
        ensures
            r@ == error_response(status, message@),
    {
        let field = json::field("error", json::string(message).as_str());
        let mut fields: Vec<String> = Vec::new();
        let ghost one = field@;
        fields.push(field);
        assert(text::texts(fields@) =~= seq![one]);
        Response::json(status, json::object(&fields).as_str())
    }

    /// The response, with one more header.
    pub fn with_header(self, name: &str, value: &str) -> (r: Response)
        ensures
            r@ == headed(self@, name@, value@),
    {
        let mut response = self;
        let ghost before = pairs(response.headers@);
        response.headers.push((name.to_owned(), value.to_owned()));
        assert(pairs(response.headers@) =~= before.push((name@, value@)));
        response
    }

    /// Serialises to the bytes that go on the wire.
    pub fn to_bytes(&self) -> (r: Vec<u8>)
        ensures
            r@ == response_bytes(self@),
    {
        let mut head = "HTTP/1.1 ".to_owned();
        head.push_str(text::decimal_u64(self.status as u64).as_str());
        head.push_str(" ");
        head.push_str(reason(self.status));
        head.push_str("\r\n");
        let ghost start = head@;
        let ghost all = self@.headers;
        let mut i: usize = 0;
        assert(head@ =~= start + header_lines(all.take(0)));
        while i < self.headers.len()
            invariant
                i <= self.headers.len(),
                all == pairs(self.headers@),
                head@ == start + header_lines(all.take(i as int)),
            decreases self.headers.len() - i,
        {
            head.push_str(self.headers[i].0.as_str());
            head.push_str(": ");
            head.push_str(self.headers[i].1.as_str());
            head.push_str("\r\n");
            proof {
                assert(all.take(i + 1).drop_last() =~= all.take(i as int));
                assert(all.take(i + 1).last() == all[i as int]);
                assert(head@ =~= start + header_lines(all.take(i + 1)));
            }
            i += 1;
        }
        assert(all.take(i as int) =~= all);
        head.push_str("Content-Length: ");
        head.push_str(text::decimal_u64(self.body.len() as u64).as_str());
        head.push_str("\r\n");
        // One request per connection: no keep-alive bookkeeping, and the
        // thread serving it can exit as soon as the body is flushed.
        head.push_str("Connection: close\r\n\r\n");
        let mut out = bytes_of(head.as_str());
        out.extend_from_slice(self.body.as_slice());
        out
    }
}

} // verus!
