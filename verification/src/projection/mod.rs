//! The in-memory Issue list, and every rule about changing it.
//!
//! This is the single writer's knowledge. Both the window and the HTTP API
//! change Issues through it, which is what makes their capabilities identical
//! by construction rather than by discipline.
//!
//! The database is not here. A change is made in two steps: the projection says
//! what is to be written ([`Projection::create`], [`Projection::patch`] and the
//! others), the caller writes it, and the projection is told how that went
//! ([`Projection::created`], [`Projection::updated`], [`Projection::deleted`]).
//! Memory moves only in the second step, and only if the write succeeded.

use std::collections::HashMap;

use vstd::prelude::*;

use crate::domain::issue;
use crate::domain::issue::{clone_tags, sort_for_display, Issue, IssueModel};
use crate::domain::kinds::{IssueId, Priority, Size, Status};
use crate::domain::narrowing;
use crate::domain::narrowing::carries;
use crate::domain::tag;
use crate::domain::tag::{normalise_tags, Tag, TagSet};
use crate::text;
use crate::time::Timestamp;

pub mod effects;
pub mod laws;
pub mod model;

verus! {

broadcast use vstd::seq_lib::group_seq_properties;

/// A write the data will not allow.
///
/// Distinct from a storage failure: nothing is broken and retrying will not
/// help; the request conflicts with the current shape of things. The API turns
/// these into `409 Conflict`, and the window prevents most of them from being
/// expressible in the first place.
#[derive(Debug, Clone, Copy, PartialEq, Eq, Structural)]
pub enum Refused {
    /// Hierarchy is one level deep, and the proposed parent is itself a
    /// sub-issue.
    ParentIsSubIssue(IssueId),
    /// Hierarchy is one level deep, and the Issue being attached has
    /// sub-issues of its own.
    ChildHasSubIssues(IssueId),
    SelfParent,
    /// A Done parent may not take on work that is still outstanding.
    ParentAlreadyDone(IssueId),
    /// A parent is Done only once nothing beneath it is outstanding.
    SubIssuesOutstanding(usize),
    /// Reopening this would leave a Done parent sitting above open work.
    ParentIsDone(IssueId),
}

impl Refused {
    /// The sentence a refusal reads as.
    pub open spec fn sentence(self) -> Seq<char> {
        match self {
            Refused::ParentIsSubIssue(id) => "#"@ + text::decimal(id as int)
                + " is itself a sub-issue, and sub-issues cannot have sub-issues"@,
            Refused::ChildHasSubIssues(id) => "#"@ + text::decimal(id as int)
                + " has sub-issues of its own, and sub-issues cannot have sub-issues"@,
            Refused::SelfParent => "an issue cannot be its own parent"@,
            Refused::ParentAlreadyDone(id) => "#"@ + text::decimal(id as int)
                + " is Done and cannot take on outstanding work"@,
            Refused::SubIssuesOutstanding(count) => text::decimal(count as int)
                + " sub-issue(s) are still outstanding"@,
            Refused::ParentIsDone(id) => "its parent #"@ + text::decimal(id as int)
                + " is Done; reopen that first"@,
        }
    }

    /// The refusal as a sentence.
    pub fn to_string(&self) -> (r: String)
        ensures
            r@ == self.sentence(),
    {
        match self {
            Refused::ParentIsSubIssue(id) => about(
                "#",
                *id,
                " is itself a sub-issue, and sub-issues cannot have sub-issues",
            ),
            Refused::ChildHasSubIssues(id) => about(
                "#",
                *id,
                " has sub-issues of its own, and sub-issues cannot have sub-issues",
            ),
            Refused::SelfParent => "an issue cannot be its own parent".to_owned(),
            Refused::ParentAlreadyDone(id) => about(
                "#",
                *id,
                " is Done and cannot take on outstanding work",
            ),
            Refused::SubIssuesOutstanding(count) => {
                let mut sentence = text::decimal_u64(*count as u64);
                sentence.push_str(" sub-issue(s) are still outstanding");
                sentence
            },
            Refused::ParentIsDone(id) => about("its parent #", *id, " is Done; reopen that first"),
        }
    }
}

/// A sentence with an id in the middle.
fn about(before: &str, id: IssueId, after: &str) -> (r: String)
    ensures
        r@ == before@ + text::decimal(id as int) + after@,
{
    let mut sentence = before.to_owned();
    sentence.push_str(text::decimal_i64(id).as_str());
    sentence.push_str(after);
    sentence
}

/// Why a mutation did not happen.
#[derive(Debug)]
pub enum WriteError {
    /// No such Issue. The API answers 404.
    NotFound(IssueId),
    /// The caller asked for something the data forbids. The API answers 409.
    Refused(Refused),
    /// The database failed, and this is what it said. The API answers 500.
    Store(String),
}

/// Why a mutation did not happen, as the contracts speak of it.
#[verifier::ext_equal]
pub enum WriteErrorModel {
    NotFound(IssueId),
    Refused(Refused),
    Store(Seq<char>),
}

impl View for WriteError {
    type V = WriteErrorModel;

    open spec fn view(&self) -> WriteErrorModel {
        match *self {
            WriteError::NotFound(id) => WriteErrorModel::NotFound(id),
            WriteError::Refused(refusal) => WriteErrorModel::Refused(refusal),
            WriteError::Store(message) => WriteErrorModel::Store(message@),
        }
    }
}

impl WriteErrorModel {
    /// The sentence an error reads as.
    pub open spec fn sentence(self) -> Seq<char> {
        match self {
            WriteErrorModel::NotFound(id) => "no issue #"@ + text::decimal(id as int),
            WriteErrorModel::Refused(refusal) => refusal.sentence(),
            WriteErrorModel::Store(message) => message,
        }
    }
}

impl WriteError {
    /// The error as a sentence.
    pub fn to_string(&self) -> (r: String)
        ensures
            r@ == self@.sentence(),
    {
        match self {
            WriteError::NotFound(id) => {
                let mut sentence = "no issue #".to_owned();
                sentence.push_str(text::decimal_i64(*id).as_str());
                sentence
            },
            WriteError::Refused(refusal) => refusal.to_string(),
            WriteError::Store(message) => message.clone(),
        }
    }
}

/// The result of any mutation.
pub type Written<T> = Result<T, WriteError>;

/// A change to some of an Issue's fields.
///
/// Every field is optional and only those supplied are written. Two callers
/// touching different fields therefore cannot clobber one another: the API
/// setting a Status never rewrites a title the window is in the middle of
/// editing.
#[derive(Debug, Clone, PartialEq, Eq)]
pub struct IssuePatch {
    pub title: Option<String>,
    pub body: Option<String>,
    pub status: Option<Status>,
    pub priority: Option<Priority>,
    /// Replaces the whole Tag set. Use [`Projection::add_tag`] to change one
    /// Tag without a read-modify-write.
    pub tags: Option<Vec<Tag>>,
    /// Three states, which is why it is nested: absent leaves the Size alone,
    /// `Some(None)` clears it, `Some(Some(n))` sets it. `0` cannot stand in for
    /// "unsized": it is a real Size meaning no work. Build it with
    /// [`IssuePatch::size`] and [`IssuePatch::clear_size`] rather than by hand,
    /// because `size(None)` would read like "leave it alone".
    pub size: Option<Option<Size>>,
}

/// A patch as the contracts speak of it.
#[verifier::ext_equal]
pub struct PatchModel {
    pub title: Option<Seq<char>>,
    pub body: Option<Seq<char>>,
    pub status: Option<Status>,
    pub priority: Option<Priority>,
    pub tags: Option<Seq<Seq<char>>>,
    pub size: Option<Option<Size>>,
}

impl View for IssuePatch {
    type V = PatchModel;

    open spec fn view(&self) -> PatchModel {
        PatchModel {
            title: match self.title {
                Some(title) => Some(title@),
                None => None,
            },
            body: match self.body {
                Some(body) => Some(body@),
                None => None,
            },
            status: self.status,
            priority: self.priority,
            tags: match self.tags {
                Some(tags) => Some(tag::names(tags@)),
                None => None,
            },
            size: self.size,
        }
    }
}

/// The patch that names no field.
pub open spec fn no_change() -> PatchModel {
    PatchModel { title: None, body: None, status: None, priority: None, tags: None, size: None }
}

impl Default for IssuePatch {
    fn default() -> (r: IssuePatch)
        ensures
            r@ == no_change(),
    {
        IssuePatch { title: None, body: None, status: None, priority: None, tags: None, size: None }
    }
}

impl IssuePatch {
    /// Whether the patch names no field at all.
    pub fn is_empty(&self) -> (r: bool)
        ensures
            r == (self@ == no_change()),
    {
        self.title.is_none() && self.body.is_none() && self.status.is_none()
            && self.priority.is_none() && self.tags.is_none() && self.size.is_none()
    }

    /// The patch, naming a title too.
    pub fn title(self, title: &str) -> (r: IssuePatch)
        ensures
            r@ == (PatchModel { title: Some(title@), ..self@ }),
    {
        IssuePatch { title: Some(title.to_owned()), ..self }
    }

    /// The patch, naming a body too.
    pub fn body(self, body: &str) -> (r: IssuePatch)
        ensures
            r@ == (PatchModel { body: Some(body@), ..self@ }),
    {
        IssuePatch { body: Some(body.to_owned()), ..self }
    }

    /// The patch, naming a Status too.
    pub fn status(self, status: Status) -> (r: IssuePatch)
        ensures
            r@ == (PatchModel { status: Some(status), ..self@ }),
    {
        IssuePatch { status: Some(status), ..self }
    }

    /// The patch, naming a Priority too.
    pub fn priority(self, priority: Priority) -> (r: IssuePatch)
        ensures
            r@ == (PatchModel { priority: Some(priority), ..self@ }),
    {
        IssuePatch { priority: Some(priority), ..self }
    }

    /// The patch, naming Tags too.
    pub fn tags(self, tags: Vec<Tag>) -> (r: IssuePatch)
        ensures
            r@ == (PatchModel { tags: Some(tag::names(tags@)), ..self@ }),
    {
        IssuePatch { tags: Some(tags), ..self }
    }

    /// The patch, naming a Size too.
    pub fn size(self, size: Size) -> (r: IssuePatch)
        ensures
            r@ == (PatchModel { size: Some(Some(size)), ..self@ }),
    {
        IssuePatch { size: Some(Some(size)), ..self }
    }

    /// Makes the Issue unsized again, which is not the same as sizing it zero.
    pub fn clear_size(self) -> (r: IssuePatch)
        ensures
            r@ == (PatchModel { size: Some(None), ..self@ }),
    {
        IssuePatch { size: Some(None), ..self }
    }
}

/// Writes a patch's fields onto an Issue, touching only those it names.
///
/// Shared by creating and patching, so a field means the same thing whichever
/// of the two it arrives through. `in_use` is the corpus's Tag vocabulary,
/// which new Tags are folded against.
pub fn apply(issue: Issue, patch: IssuePatch, in_use: &TagSet) -> (r: Issue)
    ensures
        r@ == model::with_content(
            issue@,
            model::patched(model::content_of(issue@), patch@, in_use@),
        ),
{
    let mut next = issue;
    if let Some(title) = patch.title {
        next.title = title;
    }
    if let Some(body) = patch.body {
        next.body = body;
    }
    if let Some(status) = patch.status {
        next.status = status;
    }
    if let Some(priority) = patch.priority {
        next.priority = priority;
    }
    if let Some(tags) = patch.tags {
        next.tags = normalise_tags(tags, in_use);
    }
    // The outer `Some` says the patch mentioned Size at all; the inner one is
    // the value, where `None` means unsize it.
    if let Some(size) = patch.size {
        next.size = size;
    }
    next
}

/// How many of some Issues are settled.
pub fn count_settled(issues: &[&Issue]) -> (n: usize)
    ensures
        n == model::settled_of(issue::models_of(issues@)).len(),
        n + model::outstanding_of(issue::models_of(issues@)).len() == issues@.len(),
{
    let ghost all = issue::models_of(issues@);
    let ghost settled = |i: IssueModel| i.status.settled();
    let ghost open = |i: IssueModel| !i.status.settled();
    let mut n: usize = 0;
    let mut i: usize = 0;
    proof {
        narrowing::lemma_filter_step(all, settled, 0);
        narrowing::lemma_filter_step(all, open, 0);
    }
    while i < issues.len()
        invariant
            i <= issues.len(),
            n <= i,
            all == issue::models_of(issues@),
            settled == (|i: IssueModel| i.status.settled()),
            open == (|i: IssueModel| !i.status.settled()),
            n == all.take(i as int).filter(settled).len(),
            n + all.take(i as int).filter(open).len() == i,
        decreases issues.len() - i,
    {
        proof {
            narrowing::lemma_filter_step(all, settled, i as int);
            narrowing::lemma_filter_step(all, open, i as int);
        }
        if issues[i].status.is_settled() {
            n += 1;
        }
        i += 1;
    }
    assert(all.take(i as int) =~= all);
    n
}

/// Whether these two numbers are the progress of some parts.
pub open spec fn is_progress(r: Option<(usize, usize)>, parts: Seq<IssueModel>) -> bool {
    match r {
        Some((settled, total)) => model::progress(parts) == Some((settled as nat, total as nat)),
        None => model::progress(parts) is None,
    }
}

/// Settled-over-total for a set of parts, or `None` when there are none.
///
/// Free-standing so that [`Projection::settled_progress`] and
/// [`SubIssues::settled_progress`] are the same answer reached two ways rather
/// than two answers: the number beside a row and the number behind a disabled
/// Done button have to agree.
fn settled_progress(sub_issues: &[&Issue]) -> (r: Option<(usize, usize)>)
    ensures
        is_progress(r, issue::models_of(sub_issues@)),
{
    if sub_issues.len() == 0 {
        return None;
    }
    Some((count_settled(sub_issues), sub_issues.len()))
}

/// Which Issues are part of which, worked out once.
///
/// An Issue does not know its own parts: that is a fact about the whole corpus,
/// which is why [`Projection::sub_issues`] scans for them. Asking it per row
/// makes a render quadratic in the number of Issues shown; this answers the
/// same question for everything at once, in a single pass, and hands back
/// borrows of the very same Issues.
///
/// Derived on demand and never stored, like
/// [`crate::domain::SizeRollup`]: it borrows the corpus, so it cannot outlive a
/// mutation and go stale.
pub struct SubIssues<'a> {
    by_parent: HashMap<IssueId, Vec<&'a Issue>>,
}

impl<'a> SubIssues<'a> {
    /// The parts the index has for an Issue.
    pub closed spec fn parts_of(self, id: IssueId) -> Seq<IssueModel> {
        if self.by_parent@.contains_key(id) {
            issue::models_of(self.by_parent@[id]@)
        } else {
            Seq::<IssueModel>::empty()
        }
    }

    /// Indexes some Issues.
    pub fn of(issues: &'a [Issue]) -> (r: SubIssues<'a>)
        ensures
            forall|id: IssueId| #[trigger]
                r.parts_of(id) == model::parts(issue::models(issues@), id),
    {
        broadcast use vstd::std_specs::hash::group_hash_axioms;

        let ghost all = issue::models(issues@);
        let mut index: SubIssues<'a> = SubIssues { by_parent: HashMap::new() };
        let mut i: usize = 0;
        proof {
            assert forall|id: IssueId| #[trigger] index.parts_of(id) == model::parts(
                all.take(0),
                id,
            ) by {
                narrowing::lemma_filter_step(all, |i: IssueModel| i.parent_id == Some(id), 0);
            }
        }
        // One pass in the order given, which is display order, so each list
        // comes out ordered exactly as a scan would have returned it.
        while i < issues.len()
            invariant
                i <= issues.len(),
                all == issue::models(issues@),
                forall|id: IssueId| #[trigger]
                    index.parts_of(id) == model::parts(all.take(i as int), id),
            decreases issues.len() - i,
        {
            let ghost before = index;
            proof {
                assert forall|id: IssueId| true implies #[trigger] model::parts(
                    all.take(i + 1),
                    id,
                ) == if all[i as int].parent_id == Some(id) {
                    model::parts(all.take(i as int), id).push(all[i as int])
                } else {
                    model::parts(all.take(i as int), id)
                } by {
                    narrowing::lemma_filter_step(
                        all,
                        |i: IssueModel| i.parent_id == Some(id),
                        i as int,
                    );
                }
            }
            if let Some(parent) = issues[i].parent_id {
                let mut list: Vec<&'a Issue> = match index.by_parent.remove(&parent) {
                    Some(list) => list,
                    None => Vec::new(),
                };
                let ghost had = issue::models_of(list@);
                assert(had =~= before.parts_of(parent));
                list.push(&issues[i]);
                assert(issue::models_of(list@) =~= had.push(all[i as int]));
                index.by_parent.insert(parent, list);
                assert forall|id: IssueId| #[trigger] index.parts_of(id) == if id == parent {
                    had.push(all[i as int])
                } else {
                    before.parts_of(id)
                } by {}
            }
            assert forall|id: IssueId| #[trigger] index.parts_of(id) == model::parts(
                all.take(i + 1),
                id,
            ) by {
                assert(before.parts_of(id) == model::parts(all.take(i as int), id));
            }
            i += 1;
        }
        assert(all.take(i as int) =~= all);
        index
    }

    /// One Issue's parts, in display order. Empty for an Issue that holds
    /// nothing: the same answer [`Projection::sub_issues`] gives.
    pub fn of_issue(&self, id: IssueId) -> (r: &[&'a Issue])
        ensures
            issue::models_of(r@) == self.parts_of(id),
    {
        broadcast use vstd::std_specs::hash::group_hash_axioms;

        match self.by_parent.get(&id) {
            Some(list) => list.as_slice(),
            None => {
                let none: &[&'a Issue] = &[];
                assert(issue::models_of(none@) =~= Seq::<IssueModel>::empty());
                none
            },
        }
    }

    /// Settled-over-total for one Issue's parts, or `None` when it has none.
    pub fn settled_progress(&self, id: IssueId) -> (r: Option<(usize, usize)>)
        ensures
            is_progress(r, self.parts_of(id)),
    {
        settled_progress(self.of_issue(id))
    }
}

/// What a change to an existing Issue comes to.
#[derive(Debug)]
pub enum Change {
    /// This version is to be written.
    Write(Issue),
    /// Nothing differs, so nothing is to be written.
    Unchanged(Issue),
}

impl View for Change {
    type V = model::ChangeModel;

    open spec fn view(&self) -> model::ChangeModel {
        match *self {
            Change::Write(issue) => model::ChangeModel::Write(issue@),
            Change::Unchanged(issue) => model::ChangeModel::Unchanged(issue@),
        }
    }
}

/// What the database assigns to an Issue when it is filed.
#[derive(Debug, Clone, Copy, PartialEq, Eq, Structural)]
pub struct Stamp {
    pub id: IssueId,
    pub at: Timestamp,
}

/// Whether a planned change is this one.
pub open spec fn is_change(
    r: Written<Change>,
    plan: Result<model::ChangeModel, WriteErrorModel>,
) -> bool {
    match r {
        Ok(change) => plan == Ok::<model::ChangeModel, WriteErrorModel>(change@),
        Err(err) => plan == Err::<model::ChangeModel, WriteErrorModel>(err@),
    }
}

/// Whether a permission is this one.
pub open spec fn is_permission(r: Written<()>, reason: Option<WriteErrorModel>) -> bool {
    match r {
        Ok(_) => reason is None,
        Err(err) => reason == Some(err@),
    }
}

/// Every Issue, display-sorted.
#[derive(Debug)]
pub struct Projection {
    issues: Vec<Issue>,
}

impl View for Projection {
    type V = Seq<IssueModel>;

    closed spec fn view(&self) -> Seq<IssueModel> {
        issue::models(self.issues@)
    }
}

impl Projection {
    #[verifier::type_invariant]
    spec fn well_formed(self) -> bool {
        issue::in_display_order(issue::models(self.issues@))
    }

    /// The projection of the Issues a database holds.
    pub fn load(issues: Vec<Issue>) -> (r: Projection)
        ensures
            r@ == issue::displayed(issue::models(issues@)),
    {
        let mut issues = issues;
        proof {
            issue::display_order_is_a_rearrangement(issue::models(issues@));
        }
        sort_for_display(&mut issues);
        Projection { issues }
    }

    // ---- reads --------------------------------------------------------------

    /// Every Issue in display order. Readers render straight from this.
    pub fn issues(&self) -> (r: &[Issue])
        ensures
            issue::models(r@) == self@,
            issue::in_display_order(self@),
    {
        proof {
            use_type_invariant(self);
        }
        self.issues.as_slice()
    }

    /// The place of the Issue with this id.
    fn position(&self, id: IssueId) -> (r: Option<usize>)
        ensures
            match r {
                Some(place) => model::place_of(self@, id) == Some(place as int) && place
                    < self.issues@.len(),
                None => model::place_of(self@, id) is None,
            },
    {
        let mut i: usize = 0;
        while i < self.issues.len()
            invariant
                i <= self.issues.len(),
                model::place_of(self@.take(i as int), id) is None,
            decreases self.issues.len() - i,
        {
            proof {
                assert(self@.take(i + 1).drop_last() =~= self@.take(i as int));
                assert(self@.take(i + 1).last() == self.issues@[i as int]@);
            }
            if self.issues[i].id == id {
                proof {
                    assert(model::place_of(self@.take(i + 1), id) == Some(i as int));
                    lemma_place_in_prefix(self@, i + 1, id);
                }
                return Some(i);
            }
            i += 1;
        }
        assert(self@.take(i as int) =~= self@);
        None
    }

    /// The Issue with this id.
    pub fn get(&self, id: IssueId) -> (r: Option<&Issue>)
        ensures
            match r {
                Some(issue) => model::found(self@, id) == Some(issue@),
                None => model::found(self@, id) is None,
            },
    {
        match self.position(id) {
            Some(place) => Some(&self.issues[place]),
            None => None,
        }
    }

    /// Every Tag some Issue carries. Derived: there is no Tag registry.
    pub fn tags_in_use(&self) -> (r: TagSet)
        ensures
            r@ == model::vocabulary(self@),
    {
        let mut set = TagSet::new();
        let mut i: usize = 0;
        while i < self.issues.len()
            invariant
                i <= self.issues.len(),
                set@ == tag::collected(model::all_names(self@.take(i as int))),
            decreases self.issues.len() - i,
        {
            let ghost before = model::all_names(self@.take(i as int));
            let ghost more = tag::names(self.issues@[i as int].tags@);
            let mut j: usize = 0;
            assert(before + more.take(0) =~= before);
            while j < self.issues[i].tags.len()
                invariant
                    i < self.issues.len(),
                    j <= self.issues@[i as int].tags@.len(),
                    more == tag::names(self.issues@[i as int].tags@),
                    set@ == tag::collected(before + more.take(j as int)),
                decreases self.issues@[i as int].tags@.len() - j,
            {
                set.insert(self.issues[i].tags[j].clone());
                proof {
                    let next = before + more.take(j + 1);
                    assert(next.drop_last() =~= before + more.take(j as int));
                    assert(next.last() == more[j as int]);
                }
                j += 1;
            }
            proof {
                assert(more.take(j as int) =~= more);
                assert(self@.take(i + 1).drop_last() =~= self@.take(i as int));
                assert(self@.take(i + 1).last().tags == more);
            }
            i += 1;
        }
        assert(self@.take(i as int) =~= self@);
        set
    }

    /// How many Issues carry a Tag.
    pub fn count_with_tag(&self, tag: &Tag) -> (n: usize)
        ensures
            n == model::with_tag(self@, tag@).len(),
    {
        let ghost all = self@;
        let ghost pass = |i: IssueModel| tag::has_tag(i.tags, tag@);
        let mut n: usize = 0;
        let mut i: usize = 0;
        proof {
            narrowing::lemma_filter_step(all, pass, 0);
        }
        while i < self.issues.len()
            invariant
                i <= self.issues.len(),
                n <= i,
                all == issue::models(self.issues@),
                pass == (|i: IssueModel| tag::has_tag(i.tags, tag@)),
                n == all.take(i as int).filter(pass).len(),
            decreases self.issues.len() - i,
        {
            proof {
                narrowing::lemma_filter_step(all, pass, i as int);
            }
            if carries(&self.issues[i].tags, tag) {
                n += 1;
            }
            i += 1;
        }
        assert(all.take(i as int) =~= all);
        n
    }

    // ---- hierarchy ----------------------------------------------------------

    /// The Issues that are part of `id`, in display order.
    pub fn sub_issues(&self, id: IssueId) -> (r: Vec<&Issue>)
        ensures
            issue::models_of(r@) == model::parts(self@, id),
    {
        let ghost all = self@;
        let ghost pass = |i: IssueModel| i.parent_id == Some(id);
        let mut out: Vec<&Issue> = Vec::new();
        let mut i: usize = 0;
        proof {
            narrowing::lemma_filter_step(all, pass, 0);
        }
        while i < self.issues.len()
            invariant
                i <= self.issues.len(),
                all == issue::models(self.issues@),
                pass == (|i: IssueModel| i.parent_id == Some(id)),
                issue::models_of(out@) == all.take(i as int).filter(pass),
            decreases self.issues.len() - i,
        {
            proof {
                narrowing::lemma_filter_step(all, pass, i as int);
            }
            if self.issues[i].parent_id == Some(id) {
                out.push(&self.issues[i]);
                assert(issue::models_of(out@) =~= all.take(i as int).filter(pass).push(
                    all[i as int],
                ));
            }
            i += 1;
        }
        assert(all.take(i as int) =~= all);
        out
    }

    /// Every Issue's parts, in one pass.
    ///
    /// [`Self::sub_issues`] scans the corpus, which is the right answer for one
    /// Issue and the wrong one for a list of them. This is that scan done once.
    pub fn sub_issue_index(&self) -> (r: SubIssues<'_>)
        ensures
            forall|id: IssueId| #[trigger] r.parts_of(id) == model::parts(self@, id),
    {
        SubIssues::of(self.issues.as_slice())
    }

    /// How many sub-issues are settled, and how many there are: the `2/3` on a
    /// parent's row. `None` when it has no sub-issues at all.
    ///
    /// Deliberately the same predicate the Done rule uses, so the number on
    /// screen explains the disabled button exactly.
    pub fn settled_progress(&self, id: IssueId) -> (r: Option<(usize, usize)>)
        ensures
            is_progress(r, model::parts(self@, id)),
    {
        settled_progress(self.sub_issues(id).as_slice())
    }

    fn outstanding_count(&self, id: IssueId) -> (n: usize)
        ensures
            n == model::outstanding_of(model::parts(self@, id)).len(),
    {
        let parts = self.sub_issues(id);
        parts.len() - count_settled(parts.as_slice())
    }

    /// Whether `id` may be marked Done right now.
    pub fn can_be_done(&self, id: IssueId) -> (r: bool)
        ensures
            r == (model::outstanding_of(model::parts(self@, id)).len() == 0),
    {
        self.outstanding_count(id) == 0
    }

    /// Whether `parent` may take on a part, given whether that part is settled:
    /// the half of the attachment rules that is about the parent.
    ///
    /// Split out because it is everything answerable before the child exists,
    /// which is what filing an Issue under a parent needs. Asking afterwards
    /// means creating an Issue in order to discover the request was refused.
    pub fn may_hold(&self, parent: IssueId, child_is_settled: bool) -> (r: Written<()>)
        ensures
            is_permission(r, model::why_not_hold(self@, parent, child_is_settled)),
    {
        match self.get(parent) {
            None => Err(WriteError::NotFound(parent)),
            Some(target) => {
                // One level deep, this end of it.
                if target.parent_id.is_some() {
                    return Err(WriteError::Refused(Refused::ParentIsSubIssue(parent)));
                }
                // A Done parent may not take on work that is still outstanding.

                if target.status == Status::Done && !child_is_settled {
                    return Err(WriteError::Refused(Refused::ParentAlreadyDone(parent)));
                }
                Ok(())
            },
        }
    }

    /// Whether `child` may be attached under `parent`, and why not.
    ///
    /// The single statement of the attachment rules. [`Self::set_parent`]
    /// enforces them and the two `eligible_*` methods offer them as a list:
    /// stated once, in refusal form, with the predicate form falling out of it
    /// rather than restating it.
    pub fn may_attach(&self, child: IssueId, parent: IssueId) -> (r: Written<()>)
        ensures
            is_permission(r, model::why_not_attach(self@, child, parent)),
    {
        match self.get(child) {
            None => Err(WriteError::NotFound(child)),
            Some(issue) => {
                if parent == child {
                    return Err(WriteError::Refused(Refused::SelfParent));
                }
                // The parent's half first, so a parent that is not there is
                // reported as such rather than behind something about the child.

                match self.may_hold(parent, issue.status.is_settled()) {
                    Ok(()) => {},
                    Err(err) => {
                        return Err(err);
                    },
                }
                // One level deep, the other end of it.

                let parts = self.sub_issues(child);
                assert(parts@.len() == model::parts(self@, child).len());
                if parts.len() > 0 {
                    return Err(WriteError::Refused(Refused::ChildHasSubIssues(child)));
                }
                Ok(())
            },
        }
    }

    /// Issues that could become sub-issues of `parent`.
    ///
    /// Includes Issues that already belong to somebody else (attaching one
    /// moves it), so callers must show the current parent rather than let a
    /// pick quietly empty another Issue. Leaves out those already there:
    /// offering one again would be a move to where it is.
    pub fn eligible_sub_issues(&self, parent: IssueId) -> (r: Vec<&Issue>)
        ensures
            issue::models_of(r@) == self@.filter(
                |i: IssueModel|
                    i.parent_id != Some(parent) && model::why_not_attach(
                        self@,
                        i.id,
                        parent,
                    ) is None,
            ),
    {
        let ghost all = self@;
        let ghost pass = |i: IssueModel|
            i.parent_id != Some(parent) && model::why_not_attach(self@, i.id, parent) is None;
        let mut out: Vec<&Issue> = Vec::new();
        let mut i: usize = 0;
        proof {
            narrowing::lemma_filter_step(all, pass, 0);
        }
        while i < self.issues.len()
            invariant
                i <= self.issues.len(),
                all == self@,
                all == issue::models(self.issues@),
                pass == (|i: IssueModel|
                    i.parent_id != Some(parent) && model::why_not_attach(
                        self@,
                        i.id,
                        parent,
                    ) is None),
                issue::models_of(out@) == all.take(i as int).filter(pass),
            decreases self.issues.len() - i,
        {
            proof {
                narrowing::lemma_filter_step(all, pass, i as int);
            }
            if self.issues[i].parent_id != Some(parent) && self.may_attach(
                self.issues[i].id,
                parent,
            ).is_ok() {
                out.push(&self.issues[i]);
                assert(issue::models_of(out@) =~= all.take(i as int).filter(pass).push(
                    all[i as int],
                ));
            }
            i += 1;
        }
        assert(all.take(i as int) =~= all);
        out
    }

    /// Issues that `child` could be made part of.
    pub fn eligible_parents(&self, child: IssueId) -> (r: Vec<&Issue>)
        ensures
            issue::models_of(r@) == self@.filter(
                |i: IssueModel| model::why_not_attach(self@, child, i.id) is None,
            ),
    {
        let ghost all = self@;
        let ghost pass = |i: IssueModel| model::why_not_attach(self@, child, i.id) is None;
        let mut out: Vec<&Issue> = Vec::new();
        let mut i: usize = 0;
        proof {
            narrowing::lemma_filter_step(all, pass, 0);
        }
        while i < self.issues.len()
            invariant
                i <= self.issues.len(),
                all == self@,
                all == issue::models(self.issues@),
                pass == (|i: IssueModel| model::why_not_attach(self@, child, i.id) is None),
                issue::models_of(out@) == all.take(i as int).filter(pass),
            decreases self.issues.len() - i,
        {
            proof {
                narrowing::lemma_filter_step(all, pass, i as int);
            }
            if self.may_attach(child, self.issues[i].id).is_ok() {
                out.push(&self.issues[i]);
                assert(issue::models_of(out@) =~= all.take(i as int).filter(pass).push(
                    all[i as int],
                ));
            }
            i += 1;
        }
        assert(all.take(i as int) =~= all);
        out
    }
}

impl Projection {
    // ---- what is to be written ----------------------------------------------

    /// What is to be filed for a new Issue with any other supplied fields,
    /// under `parent` if one is named. The id and timestamps of the draft are
    /// the database's to assign.
    ///
    /// All of it is one write, so a failure part-way leaves no Issue behind for
    /// a retry to duplicate. The fields go through [`apply`] exactly as a later
    /// patch's would, so a Tag arriving at creation time is folded against the
    /// vocabulary the same way; and the parent is asked [`Self::may_hold`]:
    /// everything an attach checks that is answerable before the child exists,
    /// which for a child with no parts of its own is everything.
    pub fn create(&self, title: &str, rest: IssuePatch, parent: Option<IssueId>) -> (r: Written<
        Issue,
    >)
        ensures
            match r {
                Ok(draft) => model::to_create(self@, title@, rest@, parent) == Ok::<
                    model::Content,
                    WriteErrorModel,
                >(model::content_of(draft@)),
                Err(err) => model::to_create(self@, title@, rest@, parent) == Err::<
                    model::Content,
                    WriteErrorModel,
                >(err@),
            },
    {
        let blank = Issue::draft(title);
        assert(model::content_of(blank@) =~= model::blank(title@));
        let mut draft = apply(blank, rest, &self.tags_in_use());
        if let Some(parent) = parent {
            match self.may_hold(parent, draft.status.is_settled()) {
                Ok(()) => {},
                Err(err) => {
                    return Err(err);
                },
            }
            draft.parent_id = Some(parent);
        }
        Ok(draft)
    }

    /// What patching an Issue comes to.
    ///
    /// A patch that changes nothing writes nothing, so `updated_at` does not
    /// move for a no-op: a keystroke that restores the previous text should not
    /// reorder the list.
    pub fn patch(&self, id: IssueId, patch: IssuePatch) -> (r: Written<Change>)
        ensures
            is_change(r, model::to_patch(self@, id, patch@)),
            r is Ok <==> model::found(self@, id) is Some && (patch@.status matches Some(status)
                ==> model::why_not_become(self@, id, status) is None),
    {
        proof {
            laws::lemma_place(self@, id);
        }
        match self.get(id) {
            None => Err(WriteError::NotFound(id)),
            Some(current) => {
                if let Some(status) = patch.status {
                    if let Err(refusal) = self.check_status_change(id, status) {
                        return Err(WriteError::Refused(refusal));
                    }
                }
                // Deliberately from the whole corpus: a Tag's established
                // spelling is a global fact.

                self.commit(apply(current.clone(), patch, &self.tags_in_use()))
            },
        }
    }

    /// Guards the two directions of the completion rule.
    ///
    /// A parent may only be marked Done once nothing beneath it is outstanding;
    /// and a sub-issue may not be reopened while its parent is Done, which
    /// would produce that same forbidden state from below. Making both
    /// unreachable is what keeps this an invariant rather than a nudge.
    fn check_status_change(&self, id: IssueId, next: Status) -> (r: Result<(), Refused>)
        ensures
            match r {
                Ok(_) => model::why_not_become(self@, id, next) is None,
                Err(refusal) => model::why_not_become(self@, id, next) == Some(refusal),
            },
    {
        if next == Status::Done && !self.can_be_done(id) {
            return Err(Refused::SubIssuesOutstanding(self.outstanding_count(id)));
        }
        if !next.is_settled() {
            if let Some(issue) = self.get(id) {
                if let Some(parent) = issue.parent_id {
                    if let Some(holder) = self.get(parent) {
                        if holder.status == Status::Done {
                            return Err(Refused::ParentIsDone(parent));
                        }
                    }
                }
            }
        }
        Ok(())
    }

    /// What filing `child` under `parent`, or removing it from whatever holds
    /// it, comes to.
    ///
    /// Attaching an Issue that already belongs to another parent moves it:
    /// there is no separate operation for that, because this already says
    /// everything a move needs to say.
    pub fn set_parent(&self, child: IssueId, parent: Option<IssueId>) -> (r: Written<Change>)
        ensures
            is_change(r, model::to_set_parent(self@, child, parent)),
            r is Ok <==> model::found(self@, child) is Some && (parent matches Some(parent)
                ==> model::why_not_attach(self@, child, parent) is None),
    {
        proof {
            laws::lemma_place(self@, child);
        }
        match self.get(child) {
            None => Err(WriteError::NotFound(child)),
            Some(current) => {
                if let Some(parent) = parent {
                    match self.may_attach(child, parent) {
                        Ok(()) => {},
                        Err(err) => {
                            return Err(err);
                        },
                    }
                }
                let mut next = current.clone();
                next.parent_id = parent;
                self.commit(next)
            },
        }
    }

    /// What making `next` the stored version of its Issue comes to: nothing at
    /// all when it is no different, so that a no-op does not move `updated_at`.
    fn commit(&self, next: Issue) -> (r: Written<Change>)
        ensures
            is_change(r, model::to_commit(self@, next@)),
    {
        match self.get(next.id) {
            None => Err(WriteError::NotFound(next.id)),
            Some(current) => {
                if *current == next {
                    Ok(Change::Unchanged(next))
                } else {
                    Ok(Change::Write(next))
                }
            },
        }
    }

    /// What adding one Tag comes to. Race-free where a read-modify-write from a
    /// caller is not: the read and the write happen together, under the single
    /// writer.
    pub fn add_tag(&self, id: IssueId, tag: Tag) -> (r: Written<Change>)
        ensures
            is_change(r, model::to_add_tag(self@, id, tag@)),
            r is Ok <==> model::found(self@, id) is Some,
    {
        match self.get(id) {
            None => Err(WriteError::NotFound(id)),
            Some(issue) => {
                let mut tags = clone_tags(&issue.tags);
                if !carries(&tags, &tag) {
                    let ghost before = tags@;
                    tags.push(tag);
                    assert(tag::names(tags@) =~= tag::names(before).push(tag@));
                }
                let patch = IssuePatch::default().tags(tags);
                assert(patch@ =~= model::retagged(tag::names(tags@)));
                self.patch(id, patch)
            },
        }
    }

    /// What taking one Tag off comes to.
    pub fn remove_tag(&self, id: IssueId, tag: &Tag) -> (r: Written<Change>)
        ensures
            is_change(r, model::to_remove_tag(self@, id, tag@)),
            r is Ok <==> model::found(self@, id) is Some,
    {
        match self.get(id) {
            None => Err(WriteError::NotFound(id)),
            Some(issue) => {
                let ghost all = tag::names(issue.tags@);
                let ghost other = |x: Seq<char>| tag::key_of(x) != tag::key_of(tag@);
                let mut tags: Vec<Tag> = Vec::new();
                let mut i: usize = 0;
                proof {
                    narrowing::lemma_filter_step(all, other, 0);
                }
                while i < issue.tags.len()
                    invariant
                        i <= issue.tags.len(),
                        all == tag::names(issue.tags@),
                        other == (|x: Seq<char>| tag::key_of(x) != tag::key_of(tag@)),
                        tag::names(tags@) == all.take(i as int).filter(other),
                    decreases issue.tags.len() - i,
                {
                    proof {
                        narrowing::lemma_filter_step(all, other, i as int);
                        assert(all[i as int] == issue.tags@[i as int]@);
                    }
                    if !issue.tags[i].is(tag) {
                        tags.push(issue.tags[i].clone());
                        assert(tag::names(tags@) =~= all.take(i as int).filter(other).push(
                            all[i as int],
                        ));
                    }
                    i += 1;
                }
                assert(all.take(i as int) =~= all);
                let patch = IssuePatch::default().tags(tags);
                assert(patch@ =~= model::retagged(tag::names(tags@)));
                self.patch(id, patch)
            },
        }
    }

    /// Whether an Issue may be erased.
    pub fn delete(&self, id: IssueId) -> (r: Written<()>)
        ensures
            is_permission(r, model::why_not_delete(self@, id)),
    {
        if self.get(id).is_none() {
            return Err(WriteError::NotFound(id));
        }
        Ok(())
    }

    // ---- what was written ---------------------------------------------------

    /// Takes in what became of filing a draft: the Issue as it was stored, or
    /// the database's complaint, which leaves the projection as it was.
    pub fn created(&mut self, draft: Issue, stored: Result<Stamp, String>) -> (r: Written<Issue>)
        ensures
            match stored {
                Ok(stamp) => {
                    let issue = model::stamped(model::content_of(draft@), stamp.id, stamp.at);
                    &&& r matches Ok(filed) && filed@ == issue
                    &&& final(self)@ == model::after_insert(old(self)@, issue)
                },
                Err(message) => {
                    &&& r matches Err(err) && err@ == WriteErrorModel::Store(message@)
                    &&& final(self)@ == old(self)@
                },
            },
    {
        match stored {
            Err(message) => Err(WriteError::Store(message)),
            Ok(stamp) => {
                let mut issue = draft;
                issue.id = stamp.id;
                issue.created_at = stamp.at;
                issue.updated_at = stamp.at;
                let mut issues: Vec<Issue> = Vec::new();
                std::mem::swap(&mut issues, &mut self.issues);
                let ghost before = issue::models(issues@);
                issues.push(issue.clone());
                proof {
                    assert(issue::models(issues@) =~= before.push(issue@));
                    issue::display_order_is_a_rearrangement(before.push(issue@));
                }
                sort_for_display(&mut issues);
                self.issues = issues;
                Ok(issue)
            },
        }
    }

    /// Takes in what became of writing a version of an Issue: when it was
    /// stored, or the database's complaint, which leaves the projection as it
    /// was.
    ///
    /// The database comes first, and memory only once that has succeeded.
    /// Editing memory in place and writing afterwards would leave a write the
    /// database refused on screen until a restart quietly takes it away.
    pub fn updated(&mut self, next: Issue, stored: Result<Timestamp, String>) -> (r: Written<Issue>)
        ensures
            match (model::place_of(old(self)@, next@.id), stored) {
                (None, _) => {
                    &&& r matches Err(err) && err@ == WriteErrorModel::NotFound(next@.id)
                    &&& final(self)@ == old(self)@
                },
                (Some(_), Err(message)) => {
                    &&& r matches Err(err) && err@ == WriteErrorModel::Store(message@)
                    &&& final(self)@ == old(self)@
                },
                (Some(_), Ok(at)) => {
                    let issue = IssueModel { updated_at: at, ..next@ };
                    &&& r matches Ok(written) && written@ == issue
                    &&& final(self)@ == model::after_update(old(self)@, issue)
                },
            },
    {
        match self.position(next.id) {
            None => Err(WriteError::NotFound(next.id)),
            Some(place) => match stored {
                Err(message) => Err(WriteError::Store(message)),
                Ok(at) => {
                    let mut issue = next;
                    issue.updated_at = at;
                    let mut issues: Vec<Issue> = Vec::new();
                    std::mem::swap(&mut issues, &mut self.issues);
                    let ghost before = issue::models(issues@);
                    issues.set(place, issue.clone());
                    proof {
                        assert(issue::models(issues@) =~= before.update(place as int, issue@));
                        issue::display_order_is_a_rearrangement(
                            before.update(place as int, issue@),
                        );
                    }
                    sort_for_display(&mut issues);
                    self.issues = issues;
                    Ok(issue)
                },
            },
        }
    }

    /// Takes in what became of erasing an Issue: done, or the database's
    /// complaint, which leaves the projection as it was.
    ///
    /// The parts of an erased Issue survive as ordinary top-level Issues, here
    /// as in the database. Deleting a parent is not a licence to erase work
    /// nobody asked to erase.
    pub fn deleted(&mut self, id: IssueId, stored: Result<(), String>) -> (r: Written<()>)
        ensures
            match stored {
                Ok(_) => r is Ok && final(self)@ == model::after_delete(old(self)@, id),
                Err(message) => {
                    &&& r matches Err(err) && err@ == WriteErrorModel::Store(message@)
                    &&& final(self)@ == old(self)@
                },
            },
    {
        match stored {
            Err(message) => Err(WriteError::Store(message)),
            Ok(()) => {
                proof {
                    use_type_invariant(&*self);
                }
                let mut issues: Vec<Issue> = Vec::new();
                std::mem::swap(&mut issues, &mut self.issues);
                let ghost before = issue::models(issues@);
                let kept = without(issues, id);
                proof {
                    lemma_erasing_keeps_order(before, id);
                }
                self.issues = kept;
                Ok(())
            },
        }
    }
}

/// The Issues without one of them, its parts part of nothing.
fn without(issues: Vec<Issue>, id: IssueId) -> (kept: Vec<Issue>)
    ensures
        issue::models(kept@) == model::after_delete(issue::models(issues@), id),
{
    let ghost all = issue::models(issues@);
    let ghost other = |i: IssueModel| i.id != id;
    let mut kept: Vec<Issue> = Vec::new();
    let mut i: usize = 0;
    proof {
        narrowing::lemma_filter_step(all, other, 0);
        assert(issue::models(kept@) =~= all.take(0).filter(other).map_values(
            |i: IssueModel| model::orphaned(i, id),
        ));
    }
    while i < issues.len()
        invariant
            i <= issues.len(),
            all == issue::models(issues@),
            other == (|i: IssueModel| i.id != id),
            issue::models(kept@) == all.take(i as int).filter(other).map_values(
                |i: IssueModel| model::orphaned(i, id),
            ),
        decreases issues.len() - i,
    {
        proof {
            narrowing::lemma_filter_step(all, other, i as int);
        }
        if issues[i].id != id {
            let mut issue = issues[i].clone();
            if issue.parent_id == Some(id) {
                issue.parent_id = None;
            }
            let ghost had = kept@;
            kept.push(issue);
            proof {
                let orphan = |i: IssueModel| model::orphaned(i, id);
                assert(issue@ == orphan(all[i as int]));
                assert(issue::models(kept@) =~= issue::models(had).push(issue@));
                assert(all.take(i as int).filter(other).map_values(orphan).push(issue@)
                    =~= all.take(i + 1).filter(other).map_values(orphan));
            }
        }
        i += 1;
    }
    assert(all.take(i as int) =~= all);
    kept
}

pub(crate) proof fn lemma_filtering_keeps_order(issues: Seq<IssueModel>, pass: spec_fn(IssueModel) -> bool)
    requires
        issue::in_display_order(issues),
    ensures
        issue::in_display_order(issues.filter(pass)),
        forall|k: int|
            0 <= k < issues.filter(pass).len() ==> issues.contains(
                #[trigger] issues.filter(pass)[k],
            ),
    decreases issues.len(),
{
    reveal(Seq::filter);
    if issues.len() > 0 {
        let rest = issues.drop_last();
        let out = issues.filter(pass);
        assert forall|i: int, j: int| 0 <= i < j < rest.len() implies !issue::shown_before(
            #[trigger] rest[j],
            #[trigger] rest[i],
        ) by {
            assert(rest[j] == issues[j] && rest[i] == issues[i]);
        }
        lemma_filtering_keeps_order(rest, pass);
        let head = rest.filter(pass);
        assert forall|k: int| 0 <= k < out.len() implies issues.contains(#[trigger] out[k]) by {
            if k < head.len() {
                assert(out[k] == head[k]);
                let m = choose|m: int| 0 <= m < rest.len() && rest[m] == head[k];
                assert(issues[m] == out[k]);
            } else {
                assert(issues[issues.len() - 1] == out[k]);
            }
        }
        assert forall|i: int, j: int| 0 <= i < j < out.len() implies !issue::shown_before(
            #[trigger] out[j],
            #[trigger] out[i],
        ) by {
            assert(out[i] == head[i]);
            if j < head.len() {
                assert(out[j] == head[j]);
            } else {
                let m = choose|m: int| 0 <= m < rest.len() && rest[m] == head[i];
                assert(issues[m] == out[i]);
                assert(issues[issues.len() - 1] == out[j]);
            }
        }
    }
}

pub(crate) proof fn lemma_erasing_keeps_order(issues: Seq<IssueModel>, id: IssueId)
    requires
        issue::in_display_order(issues),
    ensures
        issue::in_display_order(model::after_delete(issues, id)),
{
    let kept = issues.filter(|i: IssueModel| i.id != id);
    let out = model::after_delete(issues, id);
    lemma_filtering_keeps_order(issues, |i: IssueModel| i.id != id);
    assert forall|i: int, j: int| 0 <= i < j < out.len() implies !issue::shown_before(
        #[trigger] out[j],
        #[trigger] out[i],
    ) by {
        assert(!issue::shown_before(kept[j], kept[i]));
    }
}

proof fn lemma_place_in_prefix(issues: Seq<IssueModel>, n: int, id: IssueId)
    requires
        0 <= n <= issues.len(),
        model::place_of(issues.take(n), id) is Some,
    ensures
        model::place_of(issues, id) == model::place_of(issues.take(n), id),
    decreases issues.len(),
{
    if n == issues.len() {
        assert(issues.take(n) =~= issues);
    } else {
        assert(issues.drop_last().take(n) =~= issues.take(n));
        lemma_place_in_prefix(issues.drop_last(), n, id);
    }
}

} // verus!
