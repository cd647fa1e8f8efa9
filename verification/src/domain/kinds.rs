//! The words an Issue is described with.

use std::str::FromStr;

use vstd::prelude::*;

use crate::text;

verus! {

/// Issues are identified by a sequential integer, shown to the user as `#42`.
pub type IssueId = i64;

/// How big a piece of work is, relative to the others.
///
/// Unitless on purpose: points, hours or afternoons, whichever you meant. `0`
/// is a real answer meaning "no work", distinct from an absent Size, which
/// means "not decided yet".
///
/// `u8` is the rule rather than a check beside it: an Issue that will not fit
/// in 255 is not a large Issue, it is a tree of Issues that has not been
/// written down yet.
pub type Size = u8;

/// Returned when a text holds a value outside the known set.
#[derive(Debug, Clone, PartialEq, Eq)]
pub struct ParseError {
    pub kind: &'static str,
    pub value: String,
}

/// A rejected value as the contracts speak of it.
#[verifier::ext_equal]
pub struct ParseErrorModel {
    pub kind: Seq<char>,
    pub value: Seq<char>,
}

impl ParseErrorModel {
    /// The sentence this error reads as.
    pub open spec fn sentence(self) -> Seq<char> {
        "unrecognised "@ + self.kind + ": "@ + text::debug_text(self.value)
    }
}

impl View for ParseError {
    type V = ParseErrorModel;

    open spec fn view(&self) -> ParseErrorModel {
        ParseErrorModel { kind: self.kind@, value: self.value@ }
    }
}

impl ParseError {
    /// The error as a sentence.
    pub fn to_string(&self) -> (text: String)
        ensures
            text@ == self@.sentence(),
    {
        let mut sentence = "unrecognised ".to_owned();
        sentence.push_str(self.kind);
        sentence.push_str(": ");
        sentence.push_str(text::quoted(self.value.as_str()).as_str());
        sentence
    }
}

/// Where an Issue sits in its lifecycle.
#[derive(Debug, Clone, Copy, PartialEq, Eq, Hash, Structural)]
pub enum Status {
    Todo,
    Doing,
    Blocked,
    Done,
    Cancelled,
}

impl Default for Status {
    fn default() -> (r: Status)
        ensures
            r == Status::Todo,
    {
        Status::Todo
    }
}

impl Status {
    /// Every Status, in the order of the lifecycle.
    pub const ALL: [Status; 5] = [
        Status::Todo,
        Status::Doing,
        Status::Blocked,
        Status::Done,
        Status::Cancelled,
    ];

    /// Whether this Status represents work that is no longer outstanding.
    pub open spec fn settled(self) -> bool {
        self == Status::Done || self == Status::Cancelled
    }

    /// The name of this Status.
    pub open spec fn name(self) -> Seq<char> {
        match self {
            Status::Todo => "Todo"@,
            Status::Doing => "Doing"@,
            Status::Blocked => "Blocked"@,
            Status::Done => "Done"@,
            Status::Cancelled => "Cancelled"@,
        }
    }

    /// The Status that a text names, in whatever case.
    pub open spec fn named(s: Seq<char>) -> Option<Status> {
        if text::same_but_for_case(Status::Todo.name(), s) {
            Some(Status::Todo)
        } else if text::same_but_for_case(Status::Doing.name(), s) {
            Some(Status::Doing)
        } else if text::same_but_for_case(Status::Blocked.name(), s) {
            Some(Status::Blocked)
        } else if text::same_but_for_case(Status::Done.name(), s) {
            Some(Status::Done)
        } else if text::same_but_for_case(Status::Cancelled.name(), s) {
            Some(Status::Cancelled)
        } else {
            None
        }
    }

    /// Whether this Status represents work that is no longer outstanding.
    ///
    /// Done and Cancelled both settle an Issue: one finished, the other was
    /// deliberately abandoned. Neither is waiting on anybody. This is the
    /// predicate a parent is measured against before it may be marked Done:
    /// blocking a parent on a Cancelled child would push you toward deleting
    /// records that are worth keeping.
    pub fn is_settled(self) -> (r: bool)
        ensures
            r == self.settled(),
    {
        match self {
            Status::Done | Status::Cancelled => true,
            _ => false,
        }
    }

    /// The name of this Status.
    pub fn label(self) -> (r: &'static str)
        ensures
            r@ == self.name(),
    {
        match self {
            Status::Todo => "Todo",
            Status::Doing => "Doing",
            Status::Blocked => "Blocked",
            Status::Done => "Done",
            Status::Cancelled => "Cancelled",
        }
    }

    /// The name of this Status, as a string of its own.
    pub fn to_string(&self) -> (text: String)
        ensures
            text@ == self.name(),
    {
        self.label().to_owned()
    }
}

/// Case-insensitive, so `done` and `Done` are the same Status.
impl FromStr for Status {
    type Err = ParseError;

    fn from_str(s: &str) -> (r: Result<Self, ParseError>)
        ensures
            match r {
                Ok(status) => Status::named(s@) == Some(status),
                Err(err) => Status::named(s@) is None && err.kind@ == "status"@ && err.value@ == s@,
            },
    {
        let mut i: usize = 0;
        while i < 5
            invariant
                i <= 5,
                forall|j: int|
                    0 <= j < i ==> !text::same_but_for_case(#[trigger] Status::ALL[j].name(), s@),
            decreases 5 - i,
        {
            let status = Status::ALL[i];
            if text::eq_ignore_case(status.label(), s) {
                return Ok(status);
            }
            i += 1;
        }
        Err(ParseError { kind: "status", value: s.to_owned() })
    }
}


/// How much an Issue matters relative to others, lowest first.
#[derive(Debug, Clone, Copy, PartialEq, Eq, PartialOrd, Ord, Hash, Structural)]
pub enum Priority {
    /// Shown as `None`.
    Unset,
    Low,
    Medium,
    High,
    Urgent,
}

impl Default for Priority {
    fn default() -> (r: Priority)
        ensures
            r == Priority::Unset,
    {
        Priority::Unset
    }
}

impl Priority {
    /// Every Priority, lowest first.
    pub const ALL: [Priority; 5] = [
        Priority::Unset,
        Priority::Low,
        Priority::Medium,
        Priority::High,
        Priority::Urgent,
    ];

    /// Where this Priority stands among the others, from the lowest up.
    pub open spec fn rank_spec(self) -> u8 {
        match self {
            Priority::Unset => 0,
            Priority::Low => 1,
            Priority::Medium => 2,
            Priority::High => 3,
            Priority::Urgent => 4,
        }
    }

    /// The name of this Priority.
    pub open spec fn name(self) -> Seq<char> {
        match self {
            Priority::Unset => "None"@,
            Priority::Low => "Low"@,
            Priority::Medium => "Medium"@,
            Priority::High => "High"@,
            Priority::Urgent => "Urgent"@,
        }
    }

    /// The Priority that a text names, in whatever case.
    pub open spec fn named(s: Seq<char>) -> Option<Priority> {
        if text::same_but_for_case(Priority::Unset.name(), s) {
            Some(Priority::Unset)
        } else if text::same_but_for_case(Priority::Low.name(), s) {
            Some(Priority::Low)
        } else if text::same_but_for_case(Priority::Medium.name(), s) {
            Some(Priority::Medium)
        } else if text::same_but_for_case(Priority::High.name(), s) {
            Some(Priority::High)
        } else if text::same_but_for_case(Priority::Urgent.name(), s) {
            Some(Priority::Urgent)
        } else {
            None
        }
    }

    /// Where this Priority stands among the others, from the lowest up.
    pub fn rank(self) -> (r: u8)
        ensures
            r == self.rank_spec(),
    {
        match self {
            Priority::Unset => 0,
            Priority::Low => 1,
            Priority::Medium => 2,
            Priority::High => 3,
            Priority::Urgent => 4,
        }
    }

    /// The name of this Priority.
    pub fn label(self) -> (r: &'static str)
        ensures
            r@ == self.name(),
    {
        match self {
            Priority::Unset => "None",
            Priority::Low => "Low",
            Priority::Medium => "Medium",
            Priority::High => "High",
            Priority::Urgent => "Urgent",
        }
    }

    /// The name of this Priority, as a string of its own.
    pub fn to_string(&self) -> (text: String)
        ensures
            text@ == self.name(),
    {
        self.label().to_owned()
    }
}

/// Case-insensitive, as a [`Status`] is.
impl FromStr for Priority {
    type Err = ParseError;

    fn from_str(s: &str) -> (r: Result<Self, ParseError>)
        ensures
            match r {
                Ok(priority) => Priority::named(s@) == Some(priority),
                Err(err) => Priority::named(s@) is None && err.kind@ == "priority"@ && err.value@
                    == s@,
            },
    {
        let mut i: usize = 0;
        while i < 5
            invariant
                i <= 5,
                forall|j: int|
                    0 <= j < i ==> !text::same_but_for_case(#[trigger] Priority::ALL[j].name(), s@),
            decreases 5 - i,
        {
            let priority = Priority::ALL[i];
            if text::eq_ignore_case(priority.label(), s) {
                return Ok(priority);
            }
            i += 1;
        }
        Err(ParseError { kind: "priority", value: s.to_owned() })
    }
}

// ---------------------------------------------------------------------------
// Reading back
// ---------------------------------------------------------------------------

/// Two texts that start differently, case aside, are different, case aside; so
/// are two of different lengths.
proof fn lemma_different(a: Seq<char>, b: Seq<char>)
    requires
        a.len() != b.len() || (a.len() > 0 && text::ascii_lowered_char(a[0])
            != text::ascii_lowered_char(b[0])),
    ensures
        !text::same_but_for_case(a, b),
{
    if a.len() == b.len() {
        assert(text::ascii_lowered(a)[0] != text::ascii_lowered(b)[0]);
    } else {
        assert(text::ascii_lowered(a).len() != text::ascii_lowered(b).len());
    }
}

/// A Status is read from its name in whatever case, and folding makes no two of
/// them collide.
pub proof fn a_status_is_read_in_any_case(status: Status, written: Seq<char>)
    requires
        text::same_but_for_case(status.name(), written),
    ensures
        Status::named(written) == Some(status),
{
    reveal_strlit("Todo");
    reveal_strlit("Doing");
    reveal_strlit("Blocked");
    reveal_strlit("Done");
    reveal_strlit("Cancelled");
    lemma_different(Status::Todo.name(), Status::Doing.name());
    lemma_different(Status::Todo.name(), Status::Blocked.name());
    lemma_different(Status::Todo.name(), Status::Done.name());
    lemma_different(Status::Todo.name(), Status::Cancelled.name());
    lemma_different(Status::Doing.name(), Status::Blocked.name());
    lemma_different(Status::Doing.name(), Status::Done.name());
    lemma_different(Status::Doing.name(), Status::Cancelled.name());
    lemma_different(Status::Blocked.name(), Status::Done.name());
    lemma_different(Status::Blocked.name(), Status::Cancelled.name());
    lemma_different(Status::Done.name(), Status::Cancelled.name());
}

/// A Status written as its name reads back as itself.
pub proof fn a_status_reads_back(status: Status)
    ensures
        Status::named(status.name()) == Some(status),
{
    a_status_is_read_in_any_case(status, status.name());
}

/// A Priority is read from its name in whatever case, and folding makes no two
/// of them collide.
pub proof fn a_priority_is_read_in_any_case(priority: Priority, written: Seq<char>)
    requires
        text::same_but_for_case(priority.name(), written),
    ensures
        Priority::named(written) == Some(priority),
{
    reveal_strlit("None");
    reveal_strlit("Low");
    reveal_strlit("Medium");
    reveal_strlit("High");
    reveal_strlit("Urgent");
    lemma_different(Priority::Unset.name(), Priority::Low.name());
    lemma_different(Priority::Unset.name(), Priority::Medium.name());
    lemma_different(Priority::Unset.name(), Priority::High.name());
    lemma_different(Priority::Unset.name(), Priority::Urgent.name());
    lemma_different(Priority::Low.name(), Priority::Medium.name());
    lemma_different(Priority::Low.name(), Priority::High.name());
    lemma_different(Priority::Low.name(), Priority::Urgent.name());
    lemma_different(Priority::Medium.name(), Priority::High.name());
    lemma_different(Priority::Medium.name(), Priority::Urgent.name());
    lemma_different(Priority::High.name(), Priority::Urgent.name());
}

/// A Priority written as its name reads back as itself.
pub proof fn a_priority_reads_back(priority: Priority)
    ensures
        Priority::named(priority.name()) == Some(priority),
{
    a_priority_is_read_in_any_case(priority, priority.name());
}

} // verus!
