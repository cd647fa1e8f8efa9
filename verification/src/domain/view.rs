//! Views: the named slices of all Issues.

use std::str::FromStr;

use vstd::prelude::*;
use vstd::view::View as _;

use crate::domain::issue::Issue;
use crate::domain::kinds;
use crate::domain::kinds::{ParseError, Status};
use crate::text;

verus! {

/// A named, predefined slice of all Issues, shown in the sidebar.
#[derive(Debug, Clone, Copy, PartialEq, Eq, Hash, Structural)]
pub enum View {
    All,
    WithStatus(Status),
}

impl Default for View {
    fn default() -> (r: View)
        ensures
            r == View::All,
    {
        View::All
    }
}

impl View {
    /// Every View, in the order the sidebar shows them.
    pub fn all() -> (views: [View; 6])
        ensures
            views@ == seq![
                View::All,
                View::WithStatus(Status::Todo),
                View::WithStatus(Status::Doing),
                View::WithStatus(Status::Blocked),
                View::WithStatus(Status::Done),
                View::WithStatus(Status::Cancelled),
            ],
    {
        [
            View::All,
            View::WithStatus(Status::Todo),
            View::WithStatus(Status::Doing),
            View::WithStatus(Status::Blocked),
            View::WithStatus(Status::Done),
            View::WithStatus(Status::Cancelled),
        ]
    }

    /// The text a person reads for this View.
    pub open spec fn title(self) -> Seq<char> {
        match self {
            View::All => "All Issues"@,
            View::WithStatus(status) => status.name(),
        }
    }

    /// The text this View is stored as.
    pub open spec fn stored(self) -> Seq<char> {
        match self {
            View::All => "All"@,
            View::WithStatus(status) => status.name(),
        }
    }

    /// The View that a stored text means.
    pub open spec fn named(s: Seq<char>) -> Option<View> {
        if s == "All"@ {
            Some(View::All)
        } else {
            match Status::named(s) {
                Some(status) => Some(View::WithStatus(status)),
                None => None,
            }
        }
    }

    /// Whether an Issue with this Status belongs to the View.
    pub open spec fn shows(self, status: Status) -> bool {
        match self {
            View::All => true,
            View::WithStatus(wanted) => status == wanted,
        }
    }

    /// The text a person reads for this View.
    pub fn label(self) -> (r: &'static str)
        ensures
            r@ == self.title(),
    {
        match self {
            View::All => "All Issues",
            View::WithStatus(status) => status.label(),
        }
    }

    /// The persisted form of a View.
    ///
    /// Deliberately distinct from [`View::label`], which is human-facing text:
    /// `All` persists as `"All"` but displays as `"All Issues"`. Keeping them
    /// separate means the display text can be reworded without invalidating
    /// anything already stored.
    pub fn to_string(&self) -> (text: String)
        ensures
            text@ == self.stored(),
    {
        match self {
            View::All => "All".to_owned(),
            View::WithStatus(status) => status.to_string(),
        }
    }

    /// Whether an Issue belongs to the View.
    pub fn contains(self, issue: &Issue) -> (r: bool)
        ensures
            r == self.shows(issue@.status),
    {
        match self {
            View::All => true,
            View::WithStatus(status) => issue.status == status,
        }
    }
}

impl FromStr for View {
    type Err = ParseError;

    fn from_str(s: &str) -> (r: Result<Self, ParseError>)
        ensures
            match r {
                Ok(view) => View::named(s@) == Some(view),
                Err(err) => View::named(s@) is None && err.kind@ == "view"@ && err.value@ == s@,
            },
    {
        if text::same(s, "All") {
            return Ok(View::All);
        }
        match Status::from_str(s) {
            Ok(status) => Ok(View::WithStatus(status)),
            Err(_) => Err(ParseError { kind: "view", value: s.to_owned() }),
        }
    }
}

/// A View stored as text reads back as itself.
pub proof fn a_view_reads_back(view: View)
    ensures
        View::named(view.stored()) == Some(view),
{
    if let View::WithStatus(status) = view {
        reveal_strlit("All");
        reveal_strlit("Todo");
        reveal_strlit("Doing");
        reveal_strlit("Blocked");
        reveal_strlit("Done");
        reveal_strlit("Cancelled");
        assert(status.name().len() != "All"@.len());
        kinds::a_status_reads_back(status);
    }
}

} // verus!
