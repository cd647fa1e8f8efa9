//! The client's half of a conversation with the one server, on one host, over
//! one socket: the bytes of a request, and what a reply means.
//!
//! Hand-rolled for the same reason the server is: everything here is loopback,
//! so there is no TLS to negotiate, no redirect to follow, no proxy to honour
//! and no chunked encoding to reassemble. The server writes `Connection: close`
//! and serves one request per connection, so end-of-stream delimits the body
//! and there is no keep-alive bookkeeping either.
//!
//! It knows only what the transport can tell apart: whether there was an app to
//! talk to. What a caller does about that (an exit code, a tool error) is the
//! caller's business.

use vstd::prelude::*;

use crate::api::http;
use crate::operations::{Call, CallModel};
use crate::text;

pub use crate::percent::encode;

verus! {

broadcast use vstd::seq_lib::group_seq_properties;

/// Why a request did not produce a reply.
///
/// Only the distinction the transport can actually make. An API that answered
/// with a refusal is a [`Reply`], not an error: reading a 409 is the caller's
/// job, and the sentence it carries is usually worth showing.
#[derive(Debug, Clone, PartialEq, Eq)]
pub enum ClientError {
    /// There is no app to talk to: no address file, or nothing behind it.
    NotRunning(String),
    /// The request was attempted and something broke.
    Failed(String),
}

impl ClientError {
    /// The sentence the error carries.
    pub open spec fn sentence(self) -> Seq<char> {
        match self {
            ClientError::NotRunning(message) => message@,
            ClientError::Failed(message) => message@,
        }
    }

    /// The sentence the error carries.
    pub fn message(&self) -> (r: &str)
        ensures
            r@ == self.sentence(),
    {
        match self {
            ClientError::NotRunning(message) => message.as_str(),
            ClientError::Failed(message) => message.as_str(),
        }
    }

    /// Nothing has published an address: the app is not running.
    pub fn no_address() -> (r: ClientError)
        ensures
            r is NotRunning,
            r.sentence() == "Issues is not running. Open it and try again."@,
    {
        ClientError::NotRunning("Issues is not running. Open it and try again.".to_owned())
    }

    /// An address was published and could not be reached.
    ///
    /// A published address that nothing answers means the app died without
    /// cleaning up. Same remedy as an app that is not running, so it is reported
    /// as one, but the wording has to say the file is stale, or the next person
    /// will go looking for a bug in the client.
    pub fn unreachable(nothing_answers: bool, detail: &str) -> (r: ClientError)
        ensures
            r is NotRunning <==> nothing_answers,
            r.sentence() == if nothing_answers {
                "Issues is not running — it left a stale address file behind. Open it and try again."@
            } else {
                "connecting to the API: "@ + detail@
            },
    {
        if nothing_answers {
            ClientError::NotRunning(
                "Issues is not running — it left a stale address file behind. Open it and try again.".to_owned(),
            )
        } else {
            let mut message = "connecting to the API: ".to_owned();
            message.push_str(detail);
            ClientError::Failed(message)
        }
    }
}

/// What the server answered.
#[derive(Debug, Clone, PartialEq, Eq)]
pub struct Reply {
    pub status: u16,
    pub body: Vec<u8>,
}

impl Reply {
    /// The one-sentence message every API failure carries, given the sentence
    /// that was found in the body, if one was.
    pub fn error_message(&self, sentence: Option<String>) -> (r: String)
        ensures
            r@ == match sentence {
                Some(sentence) => sentence@,
                None => "the API returned "@ + text::decimal(self.status as int)
                    + " with no explanation"@,
            },
    {
        match sentence {
            Some(sentence) => sentence,
            None => {
                let mut message = "the API returned ".to_owned();
                message.push_str(text::decimal_u64(self.status as u64).as_str());
                message.push_str(" with no explanation");
                message
            },
        }
    }

    /// Whether the request did what it asked.
    pub fn is_success(&self) -> (r: bool)
        ensures
            r == (200 <= self.status < 300),
    {
        200 <= self.status && self.status < 300
    }
}

// ---------------------------------------------------------------------------
// Requests
// ---------------------------------------------------------------------------

/// How many bytes a text takes up.
pub open spec fn byte_count(s: Seq<char>) -> int {
    vstd::utf8::encode_utf8(s).len() as int
}

/// A request, as text.
pub open spec fn request_text(port: u16, token: Seq<char>, call: CallModel) -> Seq<char> {
    let head = call.method.word() + " "@ + call.path + " HTTP/1.1\r\n"@ + "Host: 127.0.0.1:"@
        + text::decimal(port as int) + "\r\n"@ + "Authorization: Bearer "@ + token + "\r\n"@
        + "Connection: close\r\n"@;
    match call.method.carried() {
        Some(body) => head + "Content-Type: application/json\r\n"@ + "Content-Length: "@
            + text::decimal(byte_count(body)) + "\r\n\r\n"@ + body,
        None => head + "Content-Length: 0\r\n\r\n"@,
    }
}

/// The bytes of a request.
///
/// `Host` is a loopback spelling and there is no `Origin`: both are checked by
/// the server's guard against browser-driven requests, and both are satisfied
/// by simply being honest here.
pub fn request_bytes(port: u16, token: &str, call: &Call) -> (r: Vec<u8>)
    ensures
        r@ == vstd::utf8::encode_utf8(request_text(port, token@, call@)),
{
    let mut head = call.method.name().to_owned();
    head.push_str(" ");
    head.push_str(call.path.as_str());
    head.push_str(" HTTP/1.1\r\n");
    head.push_str("Host: 127.0.0.1:");
    head.push_str(text::decimal_u64(port as u64).as_str());
    head.push_str("\r\n");
    head.push_str("Authorization: Bearer ");
    head.push_str(token);
    head.push_str("\r\n");
    head.push_str("Connection: close\r\n");
    match call.method.body() {
        Some(body) => {
            let count: usize = body.as_bytes().len();
            head.push_str("Content-Type: application/json\r\n");
            head.push_str("Content-Length: ");
            head.push_str(text::decimal_u64(count as u64).as_str());
            head.push_str("\r\n\r\n");
            head.push_str(body);
        },
        None => {
            head.push_str("Content-Length: 0\r\n\r\n");
        },
    }
    http::bytes_of(head.as_str())
}

// ---------------------------------------------------------------------------
// Replies
// ---------------------------------------------------------------------------

/// Whether the blank line that ends a head starts here.
pub open spec fn ends_head(raw: Seq<u8>, at: int) -> bool {
    0 <= at && at + 4 <= raw.len() && raw[at] == 13 && raw[at + 1] == 10 && raw[at + 2] == 13
        && raw[at + 3] == 10
}

/// Whether a head ends here and not before.
pub open spec fn head_ends_at(raw: Seq<u8>, at: int) -> bool {
    ends_head(raw, at) && forall|k: int| 0 <= k < at ==> !#[trigger] ends_head(raw, k)
}

/// How far a text goes without white space.
pub open spec fn word_length(s: Seq<char>) -> nat
    decreases s.len(),
{
    if s.len() == 0 || text::is_white_space(s[0]) {
        0
    } else {
        1 + word_length(s.skip(1))
    }
}

/// The first word of a text.
pub open spec fn first_word(s: Seq<char>) -> Seq<char> {
    let body = text::trimmed_start(s);
    body.take(word_length(body) as int)
}

/// What follows the first word of a text.
pub open spec fn after_word(s: Seq<char>) -> Seq<char> {
    let body = text::trimmed_start(s);
    body.skip(word_length(body) as int)
}

/// The status that the head of a reply gives: the second word of its first
/// line.
pub open spec fn status_in(head: Seq<char>) -> Option<nat> {
    let code = first_word(after_word(text::before_first(head, '\n')));
    if code.len() == 0 {
        None
    } else {
        text::number(code, u16::MAX as nat)
    }
}

/// What a reply says, given where its head ends.
pub open spec fn reply_at(raw: Seq<u8>, at: int, r: Result<Reply, ClientError>) -> bool {
    match status_in(text::lossy_text(raw.take(at))) {
        Some(status) => {
            &&& r matches Ok(reply)
            &&& reply.status == status
            &&& reply.body@ == raw.skip(at + 4)
        },
        None => {
            &&& r matches Err(ClientError::Failed(message))
            &&& message@ == "the API sent an unreadable status line"@
        },
    }
}

/// Whether this is what a reply says.
pub open spec fn is_reply(raw: Seq<u8>, r: Result<Reply, ClientError>) -> bool {
    &&& forall|at: int| #[trigger] head_ends_at(raw, at) ==> reply_at(raw, at, r)
    &&& (forall|at: int| !#[trigger] ends_head(raw, at)) ==> (r matches Err(
        ClientError::Failed(message),
    ) && message@ == "the API sent a truncated response"@)
}

/// How far some characters go without white space, from a given place on.
fn word_end(chars: &Vec<char>, from: usize) -> (to: usize)
    requires
        from <= chars@.len(),
    ensures
        from <= to <= chars@.len(),
        to == from + word_length(chars@.skip(from as int)),
{
    let mut to: usize = from;
    while to < chars.len() && !text::white_space(chars[to])
        invariant
            from <= to <= chars@.len(),
            word_length(chars@.skip(from as int)) == to - from + word_length(
                chars@.skip(to as int),
            ),
        decreases chars@.len() - to,
    {
        assert(chars@.skip(to as int).skip(1) =~= chars@.skip(to + 1));
        to += 1;
    }
    to
}

/// Where white space ends, from a given place on.
fn space_end(chars: &Vec<char>, from: usize) -> (to: usize)
    requires
        from <= chars@.len(),
    ensures
        from <= to <= chars@.len(),
        text::trimmed_start(chars@.skip(from as int)) == chars@.skip(to as int),
{
    let mut to: usize = from;
    while to < chars.len() && text::white_space(chars[to])
        invariant
            from <= to <= chars@.len(),
            text::trimmed_start(chars@.skip(from as int)) == text::trimmed_start(
                chars@.skip(to as int),
            ),
        decreases chars@.len() - to,
    {
        assert(chars@.skip(to as int).skip(1) =~= chars@.skip(to + 1));
        to += 1;
    }
    to
}

/// The status that the head of a reply gives.
fn read_status(head: &str) -> (r: Option<u16>)
    ensures
        match r {
            Some(status) => status_in(head@) == Some(status as nat),
            None => status_in(head@) is None,
        },
{
    let line = match text::split_once(head, '\n') {
        Some((line, _)) => line,
        None => {
            assert(text::before_first(head@, '\n') =~= head@);
            head.to_owned()
        },
    };
    let chars = text::chars_of(line.as_str());
    assert(chars@.skip(0) =~= line@);
    let start = space_end(&chars, 0);
    let end = word_end(&chars, start);
    assert(after_word(line@) =~= chars@.skip(end as int));
    let from = space_end(&chars, end);
    let to = word_end(&chars, from);
    assert(first_word(after_word(line@)) =~= chars@.subrange(from as int, to as int));
    if from == to {
        return None;
    }
    match text::parse_number(text::text_between(&chars, from, to).as_str(), u16::MAX as u64) {
        Some(status) => Some(status as u16),
        None => None,
    }
}

/// Reads a reply out of everything the server sent.
pub fn parse_reply(raw: &[u8]) -> (r: Result<Reply, ClientError>)
    ensures
        is_reply(raw@, r),
{
    let size: usize = raw.len();
    let mut at: usize = 0;
    while at < size
        invariant
            at <= size,
            size == raw@.len(),
            forall|k: int| 0 <= k < at ==> !#[trigger] ends_head(raw@, k),
        decreases size - at,
    {
        if size - at >= 4 && raw[at] == 13 && raw[at + 1] == 10 && raw[at + 2] == 13 && raw[at + 3]
            == 10 {
            assert(ends_head(raw@, at as int));
            let mut first: Vec<u8> = Vec::new();
            let mut rest: Vec<u8> = Vec::new();
            let mut i: usize = 0;
            while i < at
                invariant
                    i <= at <= size,
                    size == raw@.len(),
                    first@ == raw@.take(i as int),
                decreases at - i,
            {
                first.push(raw[i]);
                i += 1;
                assert(first@ =~= raw@.take(i as int));
            }
            let mut j: usize = at + 4;
            while j < size
                invariant
                    at + 4 <= j <= size,
                    size == raw@.len(),
                    rest@ == raw@.subrange(at + 4, j as int),
                decreases size - j,
            {
                rest.push(raw[j]);
                j += 1;
                assert(rest@ =~= raw@.subrange(at + 4, j as int));
            }
            assert(rest@ =~= raw@.skip(at + 4));
            let head = text::from_utf8_lossy(first.as_slice());
            let r = match read_status(head.as_str()) {
                Some(status) => Ok(Reply { status, body: rest }),
                None => Err(
                    ClientError::Failed("the API sent an unreadable status line".to_owned()),
                ),
            };
            proof {
                assert(reply_at(raw@, at as int, r));
                assert forall|k: int| #[trigger] head_ends_at(raw@, k) implies k == at by {
                    if at < k {
                        assert(!ends_head(raw@, at as int));
                    }
                }
            }
            return r;
        }
        assert(!ends_head(raw@, at as int));
        at += 1;
    }
    Err(ClientError::Failed("the API sent a truncated response".to_owned()))
}

} // verus!
