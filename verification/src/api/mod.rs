//! The local HTTP API.
//!
//! Everything in this module takes a parsed request and the projection, and
//! says what is to be answered or written. The thread that owns the socket does
//! nothing but move bytes.

use vstd::prelude::*;

use crate::projection::Projection;

pub mod auth;
pub mod http;
pub mod laws;
pub mod meaning;
pub mod routes;
pub mod server;
pub mod wire;

pub use self::http::{parse, Parsed, Request, Response};
pub use self::routes::Step;

verus! {

/// Everything needed to answer a request.
pub struct Api {
    guard: auth::Guard,
}

/// What a request comes to: refused, or routed.
pub open spec fn handled(
    request: http::RequestModel,
    token: Seq<char>,
    issues: Seq<crate::domain::issue::IssueModel>,
) -> routes::StepModel {
    if auth::admitted(request, token) {
        routes::dispatched(request, issues)
    } else {
        routes::StepModel::Respond(auth::refusal(request))
    }
}

impl Api {
    /// The token a request has to present.
    pub closed spec fn secret(&self) -> Seq<char> {
        self.guard.secret()
    }

    /// An API for a token.
    pub fn new(token: String) -> (r: Api)
        ensures
            r.secret() == token@,
    {
        Api { guard: auth::Guard::new(token) }
    }

    /// Authenticates, then routes. The only entry point.
    pub fn handle(&self, request: &Request, projection: &Projection) -> (r: Step)
        requires
            routes::totals_fit(projection@),
        ensures
            r@ == handled(request@, self.secret(), projection@),
    {
        match self.guard.check(request) {
            Err(refusal) => Step::Respond(refusal),
            Ok(()) => routes::dispatch(request, projection),
        }
    }
}

/// A request that a browser sent changes nothing and learns nothing, whatever
/// token it presents.
pub proof fn a_browser_is_turned_away(
    request: http::RequestModel,
    token: Seq<char>,
    issues: Seq<crate::domain::issue::IssueModel>,
)
    requires
        http::lookup(request.headers, "origin"@) is Some,
    ensures
        handled(request, token, issues) == routes::StepModel::Respond(
            http::error_response(403, "this API does not serve browser requests"@),
        ),
{
}

} // verus!
