//! Who is allowed to talk to the API.
//!
//! On loopback a token protects nothing from a process running as you: that
//! process can read the database file directly. What it does defeat is the one
//! threat that cannot: a web page. A malicious site can make your browser issue
//! requests to `127.0.0.1`, but it cannot read the address file to learn the
//! token, cannot set an `Origin` header of its choosing, and cannot make the
//! `Host` header lie convincingly. All three checks below exist for that one
//! attacker.

use vstd::prelude::*;

use crate::api::http;
use crate::api::http::{Request, RequestModel, Response, ResponseModel};
use crate::text;

verus! {

/// Whether a text may stand behind the colon of a `Host` header: a port, which
/// is a number in decimal digits that fits sixteen bits, or nothing.
pub open spec fn is_port(s: Seq<char>) -> bool {
    s.len() == 0 || (text::all_digits(s) && text::value(s) <= 65_535)
}

/// Whether a `Host` header is this name with a colon and what may stand behind
/// it.
pub open spec fn is_with_port(host: Seq<char>, name: Seq<char>) -> bool {
    text::starts_with(host, name + ":"@) && is_port(host.skip((name + ":"@).len() as int))
}

/// Whether a `Host` header is this name, with or without a port.
pub open spec fn is_at(host: Seq<char>, name: Seq<char>) -> bool {
    host == name || is_with_port(host, name)
}

/// Whether a `Host` header is one of the loopback spellings, with or without a
/// port.
///
/// The name may stand in brackets, which keep the colons of an IPv6 literal
/// apart from that of the port. Out of them the last colon is the port's, so
/// there `::1` is only read with one. The port must be a number, and nothing else
/// may follow the name: what only begins like a loopback spelling is none.
pub open spec fn names_loopback(host: Seq<char>) -> bool {
    ||| is_at(host, "127.0.0.1"@)
    ||| is_at(host, "localhost"@)
    ||| is_with_port(host, "::1"@)
    ||| is_at(host, "[127.0.0.1]"@)
    ||| is_at(host, "[localhost]"@)
    ||| is_at(host, "[::1]"@)
}

/// The token that a request presents.
pub open spec fn presented_token(request: RequestModel) -> Seq<char> {
    match http::lookup(request.headers, "authorization"@) {
        Some(value) => if text::starts_with(value, "Bearer "@) {
            value.skip("Bearer "@.len() as int)
        } else {
            Seq::<char>::empty()
        },
        None => Seq::<char>::empty(),
    }
}

/// Whether a request may be answered: it is not a browser's, it is addressed to
/// this machine, and it presents the token.
pub open spec fn admitted(request: RequestModel, token: Seq<char>) -> bool {
    &&& http::lookup(request.headers, "origin"@) is None
    &&& (http::lookup(request.headers, "host"@) matches Some(host) && names_loopback(host))
    &&& presented_token(request) == token
}

/// What a request that may not be answered is told.
pub open spec fn refusal(request: RequestModel) -> ResponseModel {
    if http::lookup(request.headers, "origin"@) is Some {
        http::error_response(403, "this API does not serve browser requests"@)
    } else if !(http::lookup(request.headers, "host"@) matches Some(host) && names_loopback(host)) {
        http::error_response(403, "requests must be addressed to localhost"@)
    } else {
        http::headed(
            http::error_response(401, "a valid bearer token is required"@),
            "WWW-Authenticate"@,
            "Bearer"@,
        )
    }
}

/// Admits requests that present a token.
pub struct Guard {
    token: String,
}

impl Guard {
    /// The token a request has to present.
    pub closed spec fn secret(&self) -> Seq<char> {
        self.token@
    }

    /// A guard for a token.
    pub fn new(token: String) -> (r: Guard)
        ensures
            r.secret() == token@,
    {
        Guard { token }
    }

    /// Whether a request may be answered, and what to answer if not.
    pub fn check(&self, request: &Request) -> (r: Result<(), Response>)
        ensures
            match r {
                Ok(_) => admitted(request@, self.secret()),
                Err(response) => !admitted(request@, self.secret()) && response@ == refusal(
                    request@,
                ),
            },
    {
        // Only a browser sends `Origin`. Nothing that legitimately talks to
        // this API has one, so its mere presence is disqualifying.
        if request.header("origin").is_some() {
            return Err(Response::error(403, "this API does not serve browser requests"));
        }
        // Defeats DNS rebinding: an attacker who points their own hostname at
        // 127.0.0.1 still sends that hostname here.

        let local = match request.header("host") {
            Some(host) => is_loopback(host),
            None => false,
        };
        if !local {
            return Err(Response::error(403, "requests must be addressed to localhost"));
        }
        let presented = match request.header("authorization") {
            Some(value) => match text::strip_prefix(value, "Bearer ") {
                Some(token) => token,
                None => String::new(),
            },
            None => String::new(),
        };
        proof {
            vstd::utf8::encode_utf8_decode_utf8(presented@);
            vstd::utf8::encode_utf8_decode_utf8(self.token@);
        }
        if !constant_time_eq(presented.as_str().as_bytes(), self.token.as_str().as_bytes()) {
            return Err(
                Response::error(401, "a valid bearer token is required").with_header(
                    "WWW-Authenticate",
                    "Bearer",
                ),
            );
        }
        Ok(())
    }
}

/// Whether a `Host` header is this name with a colon and what may stand behind
/// it.
fn with_port(host: &str, name: &str) -> (r: bool)
    ensures
        r == is_with_port(host@, name@),
{
    let mut start = name.to_owned();
    start.push_str(":");
    match text::strip_prefix(host, start.as_str()) {
        Some(port) => text::char_count(port.as_str()) == 0 || text::parse_digits(
            port.as_str(),
            65_535,
        ).is_some(),
        None => false,
    }
}

/// Whether a `Host` header is this name, with or without a port.
fn at(host: &str, name: &str) -> (r: bool)
    ensures
        r == is_at(host@, name@),
{
    text::same(host, name) || with_port(host, name)
}

/// Accepts the loopback spellings, with or without a port. The port is a number,
/// where one stands behind the colon.
fn is_loopback(host: &str) -> (r: bool)
    ensures
        r == names_loopback(host@),
{
    at(host, "127.0.0.1") || at(host, "localhost") || with_port(host, "::1") || at(
        host,
        "[127.0.0.1]",
    ) || at(host, "[localhost]") || at(host, "[::1]")
}

/// Compares without leaking where the first difference is.
///
/// A timing attack over loopback is a stretch, but the whole comparison is a
/// few lines and getting it wrong is the kind of thing that ages badly.
fn constant_time_eq(a: &[u8], b: &[u8]) -> (r: bool)
    ensures
        r == (a@ == b@),
{
    if a.len() != b.len() {
        return false;
    }
    let mut difference: u8 = 0;
    let mut i: usize = 0;
    while i < a.len()
        invariant
            i <= a@.len(),
            a@.len() == b@.len(),
            difference == 0 <==> forall|j: int| 0 <= j < i ==> a@[j] == b@[j],
        decreases a@.len() - i,
    {
        let x = a[i];
        let y = b[i];
        let before = difference;
        difference = before | (x ^ y);
        assert((before | (x ^ y)) == 0 <==> before == 0 && x == y) by (bit_vector);
        i += 1;
    }
    proof {
        if difference == 0 {
            assert(a@ =~= b@);
        }
    }
    difference == 0
}

} // verus!
