//! What the thread that owns the socket decides.
//!
//! Deliberately little: how much of a request has arrived, whom to turn away,
//! what the address file says, and when a change is worth announcing. Parsing,
//! authenticating and routing are elsewhere; listening, reading and sending are
//! left to whoever holds the socket.

use vstd::prelude::*;

use crate::api::http;
use crate::api::http::{Parsed, ParsedModel, Request, RequestModel, Response, ResponseModel};
use crate::json;
use crate::text;

verus! {

/// Tried first, so `curl localhost:8787/issues` works without reading a file.
/// An ephemeral port is used when something else already has it.
pub const DEFAULT_PORT: u16 = 8787;

/// Thread-per-connection with no ceiling is an unbounded thread spawn on a
/// socket every local process can reach.
pub const MAX_CONNECTIONS: usize = 16;

/// Headers plus body. Bodies are already capped by the parser; this bounds what
/// a client can make us buffer before we have even parsed the headers.
pub const MAX_REQUEST: usize = 1_114_112;

/// How many random bytes a token is made of.
pub const TOKEN_BYTES: usize = 32;

// ---------------------------------------------------------------------------
// Reading a request
// ---------------------------------------------------------------------------

/// What to do about the bytes that have arrived so far.
#[derive(Debug)]
pub enum Reading {
    /// This is the request.
    Ready(Request),
    /// There is no request in this; answer so.
    Refuse(Response),
    /// Read more.
    More,
}

/// What to do about the bytes, as the contracts speak of it.
#[verifier::ext_equal]
pub enum ReadingModel {
    Ready(RequestModel),
    Refuse(ResponseModel),
    More,
}

impl View for Reading {
    type V = ReadingModel;

    open spec fn view(&self) -> ReadingModel {
        match *self {
            Reading::Ready(request) => ReadingModel::Ready(request@),
            Reading::Refuse(response) => ReadingModel::Refuse(response@),
            Reading::More => ReadingModel::More,
        }
    }
}

/// What to do about so many bytes that were parsed to this.
pub open spec fn judged(parsed: ParsedModel, len: int) -> ReadingModel {
    match parsed {
        ParsedModel::Complete(request) => ReadingModel::Ready(request),
        ParsedModel::Malformed(why) => ReadingModel::Refuse(http::error_response(400, why)),
        ParsedModel::Incomplete => if len > MAX_REQUEST {
            ReadingModel::Refuse(http::error_response(413, "request is too large"@))
        } else {
            ReadingModel::More
        },
    }
}

/// What to do about so many bytes that were parsed to this.
pub fn judge(parsed: Parsed, len: usize) -> (r: Reading)
    ensures
        r@ == judged(parsed@, len as int),
{
    match parsed {
        Parsed::Complete(request) => Reading::Ready(request),
        Parsed::Malformed(why) => Reading::Refuse(Response::error(400, why)),
        Parsed::Incomplete => {
            if len > MAX_REQUEST {
                Reading::Refuse(Response::error(413, "request is too large"))
            } else {
                Reading::More
            }
        },
    }
}

/// What to do about the bytes that have arrived so far.
pub fn read_request(buffer: &[u8]) -> (r: Reading)
    ensures
        r@ == judged(
            http::assembled(buffer@, http::http_head(buffer@, http::MAX_HEADERS)),
            buffer@.len() as int,
        ),
{
    judge(http::parse(buffer), buffer.len())
}

/// Why there is no request: no more bytes came.
#[derive(Debug, Clone, Copy, PartialEq, Eq, Structural)]
pub enum CutOff {
    /// The connection was closed.
    Closed,
    /// A client that opens a connection and then says nothing must not hold a
    /// thread forever.
    TimedOut,
}

/// The answer to a request that never came in full.
pub fn cut_off(why: CutOff) -> (r: Response)
    ensures
        r@ == match why {
            CutOff::Closed => http::error_response(400, "the connection closed mid-request"@),
            CutOff::TimedOut => http::error_response(400, "timed out waiting for the request"@),
        },
{
    match why {
        CutOff::Closed => Response::error(400, "the connection closed mid-request"),
        CutOff::TimedOut => Response::error(400, "timed out waiting for the request"),
    }
}

// ---------------------------------------------------------------------------
// Answering
// ---------------------------------------------------------------------------

/// The answer to a connection that is one too many, if it is.
///
/// Shed rather than queued. A local client holding so many sockets open is
/// misbehaving, and making it wait only moves the problem.
pub fn shed(live: usize) -> (r: Option<Response>)
    ensures
        match r {
            Some(response) => live >= MAX_CONNECTIONS && response@ == http::error_response(
                503,
                "too many concurrent connections"@,
            ),
            None => live < MAX_CONNECTIONS,
        },
{
    if live >= MAX_CONNECTIONS {
        Some(Response::error(503, "too many concurrent connections"))
    } else {
        None
    }
}

/// Why the application had no answer.
#[derive(Debug, Clone, Copy, PartialEq, Eq, Structural)]
pub enum Silence {
    /// It took too long.
    NoAnswer,
    /// It is on its way out.
    ShuttingDown,
}

/// The answer where the application had none.
pub fn unanswered(why: Silence) -> (r: Response)
    ensures
        r@ == match why {
            Silence::NoAnswer => http::error_response(500, "the application did not answer"@),
            Silence::ShuttingDown => http::error_response(
                503,
                "the application is shutting down"@,
            ),
        },
{
    match why {
        Silence::NoAnswer => Response::error(500, "the application did not answer"),
        Silence::ShuttingDown => Response::error(503, "the application is shutting down"),
    }
}

/// Whether a request asks for a change: then what was typed into a window is
/// written first, so that the change, being later, wins.
pub fn is_mutating(request: &Request) -> (r: bool)
    ensures
        r == (request@.method != "GET"@),
{
    !text::same(request.method(), "GET")
}

/// Whether an answer is worth waking every window for: only a change that
/// landed is; a read or a rejection changed nothing.
pub fn is_landed(mutating: bool, response: &Response) -> (r: bool)
    ensures
        r == (mutating && response@.status < 400),
{
    mutating && response.status < 400
}

// ---------------------------------------------------------------------------
// The address
// ---------------------------------------------------------------------------

/// What the address file says: where the API is, and what to present to it.
pub open spec fn address_text(port: u16, token: Seq<char>) -> Seq<char> {
    json::object_text(
        seq![
            json::field_text("port"@, text::decimal(port as int)),
            json::field_text("token"@, json::json_text(token)),
        ],
    )
}

/// What the address file says.
pub fn address(port: u16, token: &str) -> (r: String)
    ensures
        r@ == address_text(port, token@),
{
    let mut fields: Vec<String> = Vec::new();
    fields.push(json::field("port", text::decimal_u64(port as u64).as_str()));
    fields.push(json::field("token", json::string(token).as_str()));
    assert(text::texts(fields@) =~= seq![
        json::field_text("port"@, text::decimal(port as int)),
        json::field_text("token"@, json::json_text(token@)),
    ]);
    json::object(&fields)
}

/// A hexadecimal digit, in lower case.
pub open spec fn hex_digit(n: int) -> char {
    if n < 10 {
        (48 + n) as char
    } else {
        (87 + n) as char
    }
}

/// Bytes in hexadecimal, two digits each.
pub open spec fn hex_text(bytes: Seq<u8>) -> Seq<char>
    decreases bytes.len(),
{
    if bytes.len() == 0 {
        Seq::<char>::empty()
    } else {
        hex_text(bytes.drop_last()).push(hex_digit(bytes.last() as int / 16)).push(
            hex_digit(bytes.last() as int % 16),
        )
    }
}

fn hex(n: u8) -> (r: char)
    requires
        n < 16,
    ensures
        r == hex_digit(n as int),
{
    if n < 10 {
        (48 + n) as char
    } else {
        (87 + n) as char
    }
}

/// The token that some bytes make: each in hexadecimal, two digits.
pub fn token_of(bytes: &[u8]) -> (r: String)
    ensures
        r@ == hex_text(bytes@),
{
    let mut out = String::new();
    let mut i: usize = 0;
    assert(out@ =~= hex_text(bytes@.take(0)));
    while i < bytes.len()
        invariant
            i <= bytes.len(),
            out@ == hex_text(bytes@.take(i as int)),
        decreases bytes.len() - i,
    {
        assert(bytes@.take(i + 1).drop_last() =~= bytes@.take(i as int));
        assert(bytes@.take(i + 1).last() == bytes@[i as int]);
        out.push(hex(bytes[i] / 16));
        out.push(hex(bytes[i] % 16));
        i += 1;
    }
    assert(bytes@.take(i as int) =~= bytes@);
    out
}

/// `getrandom::fill` on so many bytes, or nothing where the system has no
/// random source. Which bytes come is chance; nothing is claimed of them.
#[verifier::external_body]
fn random_bytes(n: usize) -> (r: Option<Vec<u8>>)
    ensures
        r matches Some(bytes) ==> bytes@.len() == n,
{
    let mut bytes = vec![0u8; n];
    match getrandom::fill(&mut bytes) {
        Ok(()) => Some(bytes),
        Err(_) => None,
    }
}

/// Whether a text has the form of a token.
pub open spec fn is_token(token: Seq<char>) -> bool {
    exists|bytes: Seq<u8>| bytes.len() == TOKEN_BYTES && token == #[trigger] hex_text(bytes)
}

/// A fresh token, or nothing where the system has no random source.
///
/// One for every launch: nothing long-lived is left on disk, and reading the
/// address file is the only way to talk to the API, so no client can quietly
/// hardcode a secret and drift.
pub fn generate_token() -> (r: Option<String>)
    ensures
        r matches Some(token) ==> is_token(token@),
{
    let drawn = random_bytes(TOKEN_BYTES);
    token_from(drawn)
}

/// The token that the bytes drawn for it spell, or nothing where none could be
/// drawn.
pub fn token_from(drawn: Option<Vec<u8>>) -> (r: Option<String>)
    ensures
        match (drawn, r) {
            (Some(bytes), Some(token)) => token@ == hex_text(bytes@),
            (None, None) => true,
            _ => false,
        },
{
    match drawn {
        Some(bytes) => Some(token_of(bytes.as_slice())),
        None => None,
    }
}

// ---------------------------------------------------------------------------
// Laws
// ---------------------------------------------------------------------------

proof fn lemma_hex_digits(bytes: Seq<u8>)
    ensures
        hex_text(bytes).len() == 2 * bytes.len(),
        forall|i: int|
            0 <= i < hex_text(bytes).len() ==> ('0' <= #[trigger] hex_text(bytes)[i] <= '9' || 'a'
                <= hex_text(bytes)[i] <= 'f'),
    decreases bytes.len(),
{
    if bytes.len() > 0 {
        lemma_hex_digits(bytes.drop_last());
    }
}

/// Law: every token is sixty-four hexadecimal digits, so it goes into a header
/// as it is.
pub proof fn a_token_is_plain(token: Seq<char>)
    requires
        is_token(token),
    ensures
        token.len() == 64,
        forall|i: int|
            0 <= i < token.len() ==> ('0' <= #[trigger] token[i] <= '9' || 'a' <= token[i] <= 'f'),
{
    let bytes = choose|bytes: Seq<u8>|
        bytes.len() == TOKEN_BYTES && token == #[trigger] hex_text(bytes);
    lemma_hex_digits(bytes);
}

/// Law: different bytes make different tokens.
pub proof fn a_token_tells_its_bytes(a: Seq<u8>, b: Seq<u8>)
    requires
        a.len() == b.len(),
        hex_text(a) == hex_text(b),
    ensures
        a == b,
    decreases a.len(),
{
    if a.len() > 0 {
        let (s, t) = (hex_text(a.drop_last()), hex_text(b.drop_last()));
        lemma_hex_digits(a.drop_last());
        lemma_hex_digits(b.drop_last());
        let n = hex_text(a).len() as int;
        assert(hex_text(a)[n - 1] == hex_digit(a.last() as int % 16));
        assert(hex_text(b)[n - 1] == hex_digit(b.last() as int % 16));
        assert(hex_text(a)[n - 2] == hex_digit(a.last() as int / 16));
        assert(hex_text(b)[n - 2] == hex_digit(b.last() as int / 16));
        assert(s =~= hex_text(a).take(n - 2));
        assert(t =~= hex_text(b).take(n - 2));
        a_token_tells_its_bytes(a.drop_last(), b.drop_last());
        assert(a =~= a.drop_last().push(a.last()));
        assert(b =~= b.drop_last().push(b.last()));
    } else {
        assert(a =~= b);
    }
}

/// Law: a request is only ever refused for being too large once it is larger
/// than a complete one may be.
pub proof fn a_short_request_is_not_too_large(parsed: ParsedModel, len: int)
    requires
        len <= MAX_REQUEST,
    ensures
        judged(parsed, len) != ReadingModel::Refuse(
            http::error_response(413, "request is too large"@),
        ),
{
    assert(http::error_response(413, "request is too large"@).status == 413);
}

} // verus!
