//! The tools an agent sees: what each takes, which request it makes, and what
//! is made of the reply.
//!
//! One tool per domain operation, named as the domain names things rather than
//! as HTTP spells them. Results are the API's own JSON, passed through, so the
//! fields an agent reads are by construction the fields the server sends.
//!
//! There is deliberately no tool for deleting.

use std::str::FromStr;

use vstd::prelude::*;
use vstd::view::View as _;

use crate::api::http;
use crate::api::wire::{NewIssue, NewIssueModel, PatchIssue, PatchIssueModel};
use crate::cli::session;
use crate::client::Reply;
use crate::domain::kinds::{IssueId, ParseErrorModel, Priority, Size, Status};
use crate::domain::narrowing::{Narrowing, NarrowingModel, ParentFilter};
use crate::domain::tag;
use crate::domain::tag::Tag;
use crate::domain::view::View;
use crate::operations;
use crate::operations::{Call, CallModel, MethodModel};
use crate::text;
use crate::ui::working_state;

verus! {

/// Sent to the agent once, before any tool is called.
///
/// These rules cannot be inferred from what the tools take, and an agent that
/// has not been told them learns each one by being refused.
pub const INSTRUCTIONS: &'static str = "\
These tools read and change the issues in a single-user desktop tracker. You are
acting as the person who owns them, not as a separate participant: there are no
assignees, no reporters and no comments, because there is only ever one user.

Four rules are enforced by the tracker and will refuse your request if broken:

- Cancelling is not deleting. Cancelled records that work was deliberately
  abandoned, and is the right way to close something that will not be done.
  There is no tool for deleting an issue: deleting erases a mistake — a typo, a
  stray keystroke — and that judgement belongs to the person, not to you.
- Sub-issues go exactly one level deep. A sub-issue cannot have sub-issues of
  its own, and an issue that already holds sub-issues cannot become one.
- An issue cannot be marked Done while any of its sub-issues is outstanding,
  and a sub-issue cannot be reopened under a parent that is already Done. Done
  and Cancelled both count as settled. Cancelling a parent is always allowed.
- Tags exist only while an issue carries them, ignore case (Bug and bug are one
  tag), and are flat: \"ui/theme\" is a single name that happens to contain a
  slash, not a tag inside another.

Sizes are optional and relative: a whole number from 0 to 255 whose unit is
whatever you have been using. Nothing enforces the following, so it is on you to
get right — an issue holding sub-issues is sized by adding their sizes to its
own, so its own size means the work its parts do not cover, not the whole job.
Putting the whole job on the parent double-counts it. A size of 0 means no work;
leaving it unset means undecided, and setting it to null makes it undecided
again.

The tracker must be running for any of this to work. If it is not, every tool
will say so, and the remedy is for the person to open it.";

// ---------------------------------------------------------------------------
// Arguments
// ---------------------------------------------------------------------------

/// A Status, read the way every other entry point reads one.
#[derive(Debug, Clone, Copy, PartialEq, Eq, Structural)]
pub struct StatusArg(pub Status);

/// A Priority, likewise.
#[derive(Debug, Clone, Copy, PartialEq, Eq, Structural)]
pub struct PriorityArg(pub Priority);

/// What is said of a text that is none of some names.
pub open spec fn unexpected_text(raw: Seq<char>, names: Seq<Seq<char>>) -> Seq<char> {
    "invalid value: string "@ + text::debug_text(raw) + ", expected one of "@ + text::joined(
        names,
        ", "@,
    )
}

/// The names of every Status, in order: what an agent is offered, so it cannot
/// drift from what is accepted.
pub fn status_labels() -> (r: Vec<String>)
    ensures
        text::texts(r@) == session::status_names(),
{
    let mut out: Vec<String> = Vec::new();
    let mut i: usize = 0;
    while i < 5
        invariant
            i <= 5,
            out@.len() == i,
            forall|k: int| 0 <= k < i ==> (#[trigger] out@[k])@ == session::status_names()[k],
        decreases 5 - i,
    {
        out.push(Status::ALL[i].to_string());
        i += 1;
    }
    assert(text::texts(out@) =~= session::status_names());
    out
}

/// The names of every Priority, in order.
pub fn priority_labels() -> (r: Vec<String>)
    ensures
        text::texts(r@) == session::priority_names(),
{
    let mut out: Vec<String> = Vec::new();
    let mut i: usize = 0;
    while i < 5
        invariant
            i <= 5,
            out@.len() == i,
            forall|k: int| 0 <= k < i ==> (#[trigger] out@[k])@ == session::priority_names()[k],
        decreases 5 - i,
    {
        out.push(Priority::ALL[i].to_string());
        i += 1;
    }
    assert(text::texts(out@) =~= session::priority_names());
    out
}

fn unexpected(raw: &str, names: &Vec<String>) -> (r: String)
    ensures
        r@ == unexpected_text(raw@, text::texts(names@)),
{
    let mut out = "invalid value: string ".to_owned();
    out.push_str(text::quoted(raw).as_str());
    out.push_str(", expected one of ");
    out.push_str(text::join(names, ", ").as_str());
    out
}

impl StatusArg {
    /// Reads a Status, or says which there are.
    pub fn read(raw: &str) -> (r: Result<StatusArg, String>)
        ensures
            match r {
                Ok(arg) => Status::named(raw@) == Some(arg.0),
                Err(why) => Status::named(raw@) is None && why@ == unexpected_text(
                    raw@,
                    session::status_names(),
                ),
            },
    {
        match Status::from_str(raw) {
            Ok(status) => Ok(StatusArg(status)),
            Err(_) => Err(unexpected(raw, &status_labels())),
        }
    }
}

impl PriorityArg {
    /// Reads a Priority, or says which there are.
    pub fn read(raw: &str) -> (r: Result<PriorityArg, String>)
        ensures
            match r {
                Ok(arg) => Priority::named(raw@) == Some(arg.0),
                Err(why) => Priority::named(raw@) is None && why@ == unexpected_text(
                    raw@,
                    session::priority_names(),
                ),
            },
    {
        match Priority::from_str(raw) {
            Ok(priority) => Ok(PriorityArg(priority)),
            Err(_) => Err(unexpected(raw, &priority_labels())),
        }
    }
}

/// What to list.
#[derive(Debug)]
pub struct ListIssues {
    /// Only issues with this status.
    pub status: Option<StatusArg>,
    /// Only issues carrying this tag. Tag names ignore case.
    pub tag: Option<String>,
    /// Either "none", for issues that are not sub-issues of anything, or the id
    /// of an issue, for that issue's sub-issues.
    pub parent: Option<String>,
    /// Only issues whose title contains this text. Titles only: bodies and tags
    /// are not searched.
    pub search: Option<String>,
}

/// What to read.
#[derive(Debug, Clone, Copy)]
pub struct GetIssue {
    /// The id of the issue to read.
    pub id: IssueId,
}

/// What to file.
#[derive(Debug)]
pub struct CreateIssue {
    /// A one-line summary of the work. Required.
    pub title: String,
    /// Free text. Notes, reproduction steps, whatever is worth keeping.
    pub body: Option<String>,
    /// Defaults to Todo.
    pub status: Option<StatusArg>,
    /// Defaults to None.
    pub priority: Option<PriorityArg>,
    /// Tags to attach. Accepted here because at creation there is nothing to
    /// clobber; afterwards use add_tag and remove_tag.
    pub tags: Option<Vec<String>>,
    /// File this as a sub-issue of an existing issue. Accepted here because at
    /// creation "absent" unambiguously means "no parent"; afterwards use
    /// add_sub_issue.
    pub parent_id: Option<IssueId>,
    /// A whole number from 0 to 255. Absent means undecided.
    pub size: Option<Size>,
}

/// What to change.
#[derive(Debug)]
pub struct UpdateIssue {
    /// The id of the issue to change.
    pub id: IssueId,
    /// A field left out is left alone.
    pub title: Option<String>,
    pub body: Option<String>,
    pub status: Option<StatusArg>,
    pub priority: Option<PriorityArg>,
    /// `Some(None)` makes the size undecided again.
    pub size: Option<Option<Size>>,
}

/// A tag to put on or take off.
#[derive(Debug)]
pub struct ChangeTag {
    /// The issue to tag or untag.
    pub id: IssueId,
    /// The tag name. Case-insensitive, and may contain spaces or slashes:
    /// "ui/theme" is one flat name, not a tag inside another.
    pub name: String,
}

/// A sub-issue to attach or detach.
#[derive(Debug, Clone, Copy)]
pub struct ChangeSubIssue {
    /// The issue that holds the sub-issue.
    pub parent_id: IssueId,
    /// The issue that is part of it.
    pub sub_issue_id: IssueId,
}

/// Listing tags takes nothing.
#[derive(Debug, Clone, Copy)]
pub struct NoArguments {}

// ---------------------------------------------------------------------------
// Requests
// ---------------------------------------------------------------------------

/// The narrowing that a listing asks for, or why there is none. A tag that
/// cannot be one narrows nothing.
pub open spec fn narrowed(args: ListIssues) -> Result<NarrowingModel, Seq<char>> {
    let parent = match args.parent {
        Some(raw) => match ParentFilter::named(raw@) {
            Some(parent) => Ok(Some(parent)),
            None => Err(
                (ParseErrorModel { kind: "parent"@, value: raw@ }).sentence()
                    + " \u{2014} use an issue id or \"none\""@,
            ),
        },
        None => Ok(None),
    };
    match parent {
        Err(why) => Err(why),
        Ok(parent) => Ok(
            NarrowingModel {
                view: match args.status {
                    Some(status) => View::WithStatus(status.0),
                    None => View::All,
                },
                tag: match args.tag {
                    Some(raw) => working_state::tag_named(raw@),
                    None => None,
                },
                title: http::optional_text(args.search),
                parent,
            },
        ),
    }
}

/// The name of an optional Status.
pub open spec fn status_text(status: Option<StatusArg>) -> Option<Seq<char>> {
    match status {
        Some(status) => Some(status.0.name()),
        None => None,
    }
}

/// The name of an optional Priority.
pub open spec fn priority_text(priority: Option<PriorityArg>) -> Option<Seq<char>> {
    match priority {
        Some(priority) => Some(priority.0.name()),
        None => None,
    }
}

/// The texts of an optional list.
pub open spec fn optional_texts(list: Option<Vec<String>>) -> Option<Seq<Seq<char>>> {
    match list {
        Some(list) => Some(text::texts(list@)),
        None => None,
    }
}

/// What filing an Issue sends.
pub open spec fn filed(args: CreateIssue) -> NewIssueModel {
    NewIssueModel {
        title: args.title@,
        parent_id: args.parent_id,
        rest: PatchIssueModel {
            title: None,
            body: http::optional_text(args.body),
            status: status_text(args.status),
            priority: priority_text(args.priority),
            tags: optional_texts(args.tags),
            size: match args.size {
                Some(size) => Some(Some(size)),
                None => None,
            },
            parent_id: None,
        },
        unknown: Seq::<(Seq<char>, Seq<char>)>::empty(),
    }
}

/// What changing an Issue sends: never Tags and never a parent.
pub open spec fn changed(args: UpdateIssue) -> PatchIssueModel {
    PatchIssueModel {
        title: http::optional_text(args.title),
        body: http::optional_text(args.body),
        status: status_text(args.status),
        priority: priority_text(args.priority),
        tags: None,
        size: args.size,
        parent_id: None,
    }
}

fn status_name(status: Option<StatusArg>) -> (r: Option<String>)
    ensures
        http::optional_text(r) == status_text(status),
{
    match status {
        Some(status) => Some(status.0.to_string()),
        None => None,
    }
}

fn priority_name(priority: Option<PriorityArg>) -> (r: Option<String>)
    ensures
        http::optional_text(r) == priority_text(priority),
{
    match priority {
        Some(priority) => Some(priority.0.to_string()),
        None => None,
    }
}

/// The tools.
#[derive(Debug, Clone, Copy)]
pub struct Issues;

impl Issues {
    /// List issues, most pressing first. Every filter is optional and they
    /// combine.
    pub fn list_issues(&self, args: ListIssues) -> (r: Result<Call, String>)
        ensures
            match r {
                Ok(call) => narrowed(args) matches Ok(narrowing) && call@ == (CallModel {
                    method: MethodModel::Get,
                    path: operations::list_path(narrowing),
                }),
                Err(why) => narrowed(args) == Err::<NarrowingModel, Seq<char>>(why@),
            },
    {
        // The parent arrives as a string because "none" is one of its values;
        // reading it here means a typo is said by the tool.
        let parent = match &args.parent {
            Some(raw) => match ParentFilter::from_str(raw.as_str()) {
                Ok(parent) => Some(parent),
                Err(err) => {
                    let mut why = err.to_string();
                    why.push_str(" \u{2014} use an issue id or \"none\"");
                    return Err(why);
                },
            },
            None => None,
        };
        let tag = match &args.tag {
            Some(raw) => match Tag::from_str(raw.as_str()) {
                Ok(tag) => Some(tag),
                Err(_) => None,
            },
            None => None,
        };
        let narrowing = Narrowing {
            view: match args.status {
                Some(status) => View::WithStatus(status.0),
                None => View::All,
            },
            tag,
            title: args.search,
            parent,
        };
        Ok(operations::list(&narrowing))
    }

    /// Read one issue in full, including its body, its tags, its parent and the
    /// ids of its sub-issues.
    pub fn get_issue(&self, args: GetIssue) -> (r: Call)
        ensures
            r@ == (CallModel { method: MethodModel::Get, path: operations::issue_path(args.id) }),
    {
        operations::get(args.id)
    }

    /// File a new issue. Only the title is required.
    pub fn create_issue(&self, args: CreateIssue) -> (r: Call)
        ensures
            r@ == (CallModel {
                method: MethodModel::Post(crate::api::wire::new_text(filed(args))),
                path: "/issues"@,
            }),
    {
        let size = match args.size {
            Some(size) => Some(Some(size)),
            None => None,
        };
        let new = NewIssue {
            title: args.title,
            parent_id: args.parent_id,
            rest: PatchIssue {
                title: None,
                body: args.body,
                status: status_name(args.status),
                priority: priority_name(args.priority),
                tags: args.tags,
                size,
                parent_id: None,
            },
            unknown: Vec::new(),
        };
        assert(new@.unknown =~= Seq::<(Seq<char>, Seq<char>)>::empty());
        assert(new@ =~= filed(args));
        operations::create(&new)
    }

    /// Change an issue's title, body, status, priority or size. A field left
    /// out is left alone. Tags and parentage are not changed here: a patch would
    /// replace the whole tag set, so the other tools exist to change one thing
    /// at a time.
    pub fn update_issue(&self, args: UpdateIssue) -> (r: Call)
        ensures
            r@ == (CallModel {
                method: MethodModel::Patch(crate::api::wire::patch_text(changed(args))),
                path: operations::issue_path(args.id),
            }),
    {
        let patch = PatchIssue {
            title: args.title,
            body: args.body,
            status: status_name(args.status),
            priority: priority_name(args.priority),
            tags: None,
            size: args.size,
            parent_id: None,
        };
        assert(patch@ =~= changed(args));
        operations::update(args.id, &patch)
    }

    /// Attach a tag to an issue. Adding a tag it already carries is not an
    /// error. If the name matches an existing tag in any case, the existing
    /// spelling is kept.
    pub fn add_tag(&self, args: ChangeTag) -> (r: Result<Call, String>)
        ensures
            is_tag_call(r, args, MethodModel::Put),
    {
        match Tag::from_str(args.name.as_str()) {
            Ok(tag) => Ok(operations::add_tag(args.id, &tag)),
            Err(err) => Err(err.to_string()),
        }
    }

    /// Remove a tag from an issue. Removing one it does not carry is not an
    /// error. A tag that no issue carries ceases to exist.
    pub fn remove_tag(&self, args: ChangeTag) -> (r: Result<Call, String>)
        ensures
            is_tag_call(r, args, MethodModel::Delete),
    {
        match Tag::from_str(args.name.as_str()) {
            Ok(tag) => Ok(operations::remove_tag(args.id, &tag)),
            Err(err) => Err(err.to_string()),
        }
    }

    /// Make one issue a sub-issue of another. An issue that is already a
    /// sub-issue of something else is moved rather than copied.
    pub fn add_sub_issue(&self, args: ChangeSubIssue) -> (r: Call)
        ensures
            r@ == (CallModel {
                method: MethodModel::Put,
                path: operations::sub_issue_path_text(args.parent_id, args.sub_issue_id),
            }),
    {
        operations::add_sub_issue(args.parent_id, args.sub_issue_id)
    }

    /// Detach a sub-issue from its parent. It survives as an ordinary issue.
    pub fn remove_sub_issue(&self, args: ChangeSubIssue) -> (r: Call)
        ensures
            r@ == (CallModel {
                method: MethodModel::Delete,
                path: operations::sub_issue_path_text(args.parent_id, args.sub_issue_id),
            }),
    {
        operations::remove_sub_issue(args.parent_id, args.sub_issue_id)
    }

    /// List every tag in use, with the number of issues carrying it.
    pub fn list_tags(&self, _args: NoArguments) -> (r: Call)
        ensures
            r@ == (CallModel { method: MethodModel::Get, path: "/tags"@ }),
    {
        operations::tags()
    }
}

/// Whether this is the request that puts a tag on or takes it off, or why there
/// is none.
pub open spec fn is_tag_call(r: Result<Call, String>, args: ChangeTag, method: MethodModel) -> bool {
    match r {
        Ok(call) => working_state::tag_named(args.name@) matches Some(name) && call@ == (CallModel {
            method,
            path: operations::tag_path_text(args.id, name),
        }),
        Err(why) => working_state::tag_named(args.name@) is None && why@ == (ParseErrorModel {
            kind: "tag"@,
            value: args.name@,
        }).sentence(),
    }
}

// ---------------------------------------------------------------------------
// Replies
// ---------------------------------------------------------------------------

/// What a reply says.
#[derive(Debug, PartialEq, Eq)]
pub enum Answer {
    Nothing,
    /// This JSON.
    Json(Vec<u8>),
}

/// What a reply says, or the sentence that it is refused with.
///
/// The API's own sentence, unedited. A refusal is not a malfunction: "2
/// sub-issue(s) are still outstanding" is something an agent should read and
/// act on.
pub fn read_reply(reply: Reply, sentence: Option<String>) -> (r: Result<Answer, String>)
    ensures
        match r {
            Err(why) => reply.status >= 400 && why@ == session::failure_sentence(
                reply.status,
                http::optional_text(sentence),
            ),
            Ok(Answer::Nothing) => reply.status < 400 && reply.body@.len() == 0,
            Ok(Answer::Json(bytes)) => reply.status < 400 && reply.body@.len() > 0 && bytes@
                == reply.body@,
        },
{
    if reply.status >= 400 {
        return Err(reply.error_message(sentence));
    }
    if reply.body.len() == 0 {
        return Ok(Answer::Nothing);
    }
    Ok(Answer::Json(reply.body))
}

/// One item of a listing: its fields, each with the JSON of its value, or JSON
/// that has no fields.
#[derive(Debug, PartialEq, Eq)]
pub enum Item {
    Fields(Vec<(String, String)>),
    Other(String),
}

/// A listing: its items, or JSON that has none.
#[derive(Debug, PartialEq, Eq)]
pub enum Listing {
    Items(Vec<Item>),
    Other(String),
}

/// One item, as the contracts speak of it.
#[verifier::ext_equal]
pub enum ItemModel {
    Fields(Seq<(Seq<char>, Seq<char>)>),
    Other(Seq<char>),
}

/// A listing, as the contracts speak of it.
#[verifier::ext_equal]
pub enum ListingModel {
    Items(Seq<ItemModel>),
    Other(Seq<char>),
}

impl vstd::view::View for Item {
    type V = ItemModel;

    open spec fn view(&self) -> ItemModel {
        match *self {
            Item::Fields(fields) => ItemModel::Fields(http::pairs(fields@)),
            Item::Other(json) => ItemModel::Other(json@),
        }
    }
}

/// The models of some items.
pub open spec fn items_of(items: Seq<Item>) -> Seq<ItemModel> {
    items.map_values(|i: Item| i@)
}

impl vstd::view::View for Listing {
    type V = ListingModel;

    open spec fn view(&self) -> ListingModel {
        match *self {
            Listing::Items(items) => ListingModel::Items(items_of(items@)),
            Listing::Other(json) => ListingModel::Other(json@),
        }
    }
}

/// An item without its body.
pub open spec fn without_body(item: ItemModel) -> ItemModel {
    match item {
        ItemModel::Fields(fields) => ItemModel::Fields(
            fields.filter(|f: (Seq<char>, Seq<char>)| f.0 != "body"@),
        ),
        ItemModel::Other(json) => ItemModel::Other(json),
    }
}

/// A listing without the bodies in it.
pub open spec fn stripped(listing: ListingModel) -> ListingModel {
    match listing {
        ListingModel::Items(items) => ListingModel::Items(
            items.map_values(|i: ItemModel| without_body(i)),
        ),
        ListingModel::Other(json) => ListingModel::Other(json),
    }
}

fn drop_body(item: &Item) -> (r: Item)
    ensures
        r@ == without_body(item@),
{
    match item {
        Item::Fields(fields) => {
            let ghost all = http::pairs(fields@);
            let ghost pass = |f: (Seq<char>, Seq<char>)| f.0 != "body"@;
            let mut out: Vec<(String, String)> = Vec::new();
            let mut i: usize = 0;
            proof {
                crate::domain::narrowing::lemma_filter_step(all, pass, 0);
            }
            while i < fields.len()
                invariant
                    i <= fields.len(),
                    all == http::pairs(fields@),
                    pass == (|f: (Seq<char>, Seq<char>)| f.0 != "body"@),
                    http::pairs(out@) == all.take(i as int).filter(pass),
                decreases fields.len() - i,
            {
                proof {
                    crate::domain::narrowing::lemma_filter_step(all, pass, i as int);
                }
                if !text::same(fields[i].0.as_str(), "body") {
                    let ghost had = http::pairs(out@);
                    out.push((fields[i].0.clone(), fields[i].1.clone()));
                    assert(http::pairs(out@) =~= had.push(all[i as int]));
                }
                i += 1;
            }
            assert(all.take(i as int) =~= all);
            Item::Fields(out)
        },
        Item::Other(json) => Item::Other(json.clone()),
    }
}

/// Drops `body` from every Issue in a list.
///
/// The one place the API's JSON is not passed through unchanged. Listing is for
/// finding; reading is for reading. A missing field is visible to the agent,
/// whereas a truncated list would silently change the answer to "what is
/// blocked?" in a way it could not detect.
pub fn without_bodies(listing: Listing) -> (r: Listing)
    ensures
        r@ == stripped(listing@),
{
    match listing {
        Listing::Items(items) => {
            let ghost all = items_of(items@);
            let ghost want = all.map_values(|i: ItemModel| without_body(i));
            let mut out: Vec<Item> = Vec::new();
            let mut i: usize = 0;
            while i < items.len()
                invariant
                    i <= items.len(),
                    all == items_of(items@),
                    want == all.map_values(|i: ItemModel| without_body(i)),
                    out@.len() == i,
                    forall|k: int| 0 <= k < i ==> (#[trigger] out@[k])@ == want[k],
                decreases items.len() - i,
            {
                assert(all[i as int] == items@[i as int]@);
                out.push(drop_body(&items[i]));
                i += 1;
            }
            assert(items_of(out@) =~= want);
            Listing::Items(out)
        },
        Listing::Other(json) => Listing::Other(json),
    }
}

// ---------------------------------------------------------------------------
// Laws
// ---------------------------------------------------------------------------

/// Law: a listing loses its bodies, and nothing else.
pub proof fn listing_drops_bodies_and_nothing_else(
    fields: Seq<(Seq<char>, Seq<char>)>,
    name: Seq<char>,
)
    ensures
        ({
            let left = without_body(ItemModel::Fields(fields))->Fields_0;
            &&& http::lookup(left, "body"@) is None
            &&& name != "body"@ ==> http::lookup(left, name) == http::lookup(fields, name)
        }),
    decreases fields.len(),
{
    let pass = |f: (Seq<char>, Seq<char>)| f.0 != "body"@;
    if fields.len() == 0 {
        reveal(Seq::filter);
        assert(fields.filter(pass) =~= fields);
    } else {
        let rest = fields.skip(1);
        listing_drops_bodies_and_nothing_else(rest, name);
        lemma_filter_from_the_front(fields, pass);
        let kept = rest.filter(pass);
        if pass(fields[0]) {
            assert((seq![fields[0]] + kept).skip(1) =~= kept);
            assert((seq![fields[0]] + kept)[0] == fields[0]);
        }
    }
}

proof fn lemma_filter_from_the_front<A>(all: Seq<A>, pass: spec_fn(A) -> bool)
    requires
        all.len() > 0,
    ensures
        all.filter(pass) == if pass(all[0]) {
            seq![all[0]] + all.skip(1).filter(pass)
        } else {
            all.skip(1).filter(pass)
        },
    decreases all.len(),
{
    reveal(Seq::filter);
    if all.len() == 1 {
        assert(all.drop_last() =~= Seq::<A>::empty());
        assert(all.skip(1) =~= Seq::<A>::empty());
        assert(all.drop_last().filter(pass) =~= Seq::<A>::empty());
        if pass(all[0]) {
            assert(all.filter(pass) =~= seq![all[0]]);
        }
    } else {
        let rest = all.skip(1);
        lemma_filter_from_the_front(all.drop_last(), pass);
        assert(all.drop_last().skip(1) =~= rest.drop_last());
        assert(rest.last() == all.last());
        let kept = rest.drop_last().filter(pass);
        assert((seq![all[0]] + kept).push(all.last()) =~= seq![all[0]] + kept.push(all.last()));
    }
}

/// Law: changing an Issue never sends its Tags or its parent, so it cannot
/// clobber them.
pub proof fn a_change_leaves_tags_and_parent_alone(args: UpdateIssue)
    ensures
        changed(args).tags is None,
        changed(args).parent_id is None,
{
}

/// Law: what a listing asks for is each filter that is given, and nothing where
/// the parent is neither an id nor `none`.
pub proof fn a_listing_asks_for_its_filters(args: ListIssues)
    ensures
        narrowed(args) is Err <==> (args.parent matches Some(raw) && ParentFilter::named(raw@)
            is None),
        narrowed(args) matches Ok(asked) ==> {
            &&& args.status is None ==> asked.view == View::All
            &&& args.status matches Some(status) ==> asked.view == View::WithStatus(status.0)
            &&& args.tag is None ==> asked.tag is None
            &&& args.tag matches Some(raw) ==> if tag::usable_name(text::trimmed(raw@)) {
                asked.tag == Some(text::trimmed(raw@))
            } else {
                asked.tag is None
            }
            &&& args.search is None ==> asked.title is None
            &&& args.search matches Some(typed) ==> asked.title == Some(typed@)
            &&& args.parent is None ==> asked.parent is None
            &&& args.parent matches Some(raw) ==> asked.parent == ParentFilter::named(raw@)
        },
{
}

/// Law: what is filed is what was given, field by field.
pub proof fn what_is_filed_is_what_was_given(args: CreateIssue)
    ensures
        ({
            let body = filed(args);
            &&& body.title == args.title@
            &&& body.parent_id == args.parent_id
            &&& body.unknown.len() == 0
            &&& body.rest.title is None
            &&& body.rest.parent_id is None
            &&& body.rest.body is Some <==> args.body is Some
            &&& args.body matches Some(typed) ==> body.rest.body == Some(typed@)
            &&& body.rest.status is Some <==> args.status is Some
            &&& args.status matches Some(status) ==> Status::named(body.rest.status->0) == Some(
                status.0,
            )
            &&& body.rest.priority is Some <==> args.priority is Some
            &&& args.priority matches Some(priority) ==> Priority::named(body.rest.priority->0)
                == Some(priority.0)
            &&& body.rest.tags is Some <==> args.tags is Some
            &&& args.tags matches Some(tags) ==> body.rest.tags->0.len() == tags@.len()
                && forall|i: int|
                0 <= i < tags@.len() ==> #[trigger] body.rest.tags->0[i] == tags@[i]@
            &&& args.size is None ==> body.rest.size is None
            &&& args.size is Some ==> body.rest.size == Some(args.size)
        }),
{
    if let Some(status) = args.status {
        crate::domain::kinds::a_status_reads_back(status.0);
    }
    if let Some(priority) = args.priority {
        crate::domain::kinds::a_priority_reads_back(priority.0);
    }
}

/// Law: what is changed is what was given, field by field.
pub proof fn what_is_changed_is_what_was_given(args: UpdateIssue)
    ensures
        ({
            let body = changed(args);
            &&& body.title is Some <==> args.title is Some
            &&& args.title matches Some(typed) ==> body.title == Some(typed@)
            &&& body.body is Some <==> args.body is Some
            &&& args.body matches Some(typed) ==> body.body == Some(typed@)
            &&& body.status is Some <==> args.status is Some
            &&& args.status matches Some(status) ==> Status::named(body.status->0) == Some(
                status.0,
            )
            &&& body.priority is Some <==> args.priority is Some
            &&& args.priority matches Some(priority) ==> Priority::named(body.priority->0) == Some(
                priority.0,
            )
            &&& body.size == args.size
        }),
{
    if let Some(status) = args.status {
        crate::domain::kinds::a_status_reads_back(status.0);
    }
    if let Some(priority) = args.priority {
        crate::domain::kinds::a_priority_reads_back(priority.0);
    }
}

/// Law: a Tag goes to the Issue that was named, without the white space round it,
/// and where it could not be a Tag nothing is asked.
pub proof fn a_tag_goes_where_it_was_sent(
    r: Result<Call, String>,
    args: ChangeTag,
    method: MethodModel,
)
    requires
        is_tag_call(r, args, method),
    ensures
        r is Ok <==> tag::usable_name(text::trimmed(args.name@)),
        r matches Ok(call) ==> call@.method == method && crate::api::routes::routed(
            http::path_of(call@.path),
        ) == Some(
            crate::api::routes::RouteModel::IssueTag(args.id, text::trimmed(args.name@)),
        ),
{
    if r is Ok {
        crate::protocol::a_tag_path_addresses_its_tag(args.id, text::trimmed(args.name@));
    }
}

/// Law: an agent is told the names of the Statuses and Priorities as they are.
pub proof fn the_labels_are_the_names()
    ensures
        session::status_names() == seq!["Todo"@, "Doing"@, "Blocked"@, "Done"@, "Cancelled"@],
        session::priority_names() == seq!["None"@, "Low"@, "Medium"@, "High"@, "Urgent"@],
{
}

/// Law: a listing has the items it had, each in its place.
pub proof fn a_listing_keeps_its_items(items: Seq<ItemModel>, json: Seq<char>, i: int)
    ensures
        stripped(ListingModel::Other(json)) == ListingModel::Other(json),
        stripped(ListingModel::Items(items)) matches ListingModel::Items(left) && left.len()
            == items.len() && (0 <= i < items.len() ==> (items[i] is Other ==> left[i] == items[i])
            && (items[i] is Fields ==> left[i] is Fields)),
{
}

/// Law: a word that names nothing is told, with the names that would do.
pub proof fn a_wrong_word_is_told_the_right_ones(raw: Seq<char>)
    ensures
        unexpected_text(raw, session::status_names()) == "invalid value: string "@
            + text::debug_text(raw) + ", expected one of "@ + text::joined(
            seq!["Todo"@, "Doing"@, "Blocked"@, "Done"@, "Cancelled"@],
            ", "@,
        ),
        unexpected_text(raw, session::priority_names()) == "invalid value: string "@
            + text::debug_text(raw) + ", expected one of "@ + text::joined(
            seq!["None"@, "Low"@, "Medium"@, "High"@, "Urgent"@],
            ", "@,
        ),
{
}

} // verus!
