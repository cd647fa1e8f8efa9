//! Every request the API understands, built once.
//!
//! This module knows the API's vocabulary (which path addresses a Tag, that
//! `parent=none` is spelled out, that a Tag name keeps its slashes) and nothing
//! about sockets. Every function here returns a [`Call`] describing a request,
//! which a client then makes. That is what lets the exact bytes of a path and a
//! body be stated.
//!
//! Every client goes through here, so that no two of them drift apart.

use vstd::prelude::*;
use vstd::view::View as _;

use crate::api::wire;
use crate::api::wire::{NewIssue, PatchIssue};
use crate::domain::kinds::IssueId;
use crate::domain::narrowing::{Narrowing, NarrowingModel, ParentFilter};
use crate::domain::tag::Tag;
use crate::domain::view::View;
use crate::percent;
use crate::percent::encode;
use crate::text;

verus! {

broadcast use vstd::seq_lib::group_seq_properties;

/// The method, carrying the body, because only two methods have one, and
/// pairing them makes it impossible to send a body nowhere.
#[derive(Debug, Clone, PartialEq, Eq)]
pub enum Method {
    Get,
    Post(String),
    Patch(String),
    Put,
    Delete,
}

/// A method as the contracts speak of it.
#[verifier::ext_equal]
pub enum MethodModel {
    Get,
    Post(Seq<char>),
    Patch(Seq<char>),
    Put,
    Delete,
}

impl vstd::view::View for Method {
    type V = MethodModel;

    open spec fn view(&self) -> MethodModel {
        match *self {
            Method::Get => MethodModel::Get,
            Method::Post(body) => MethodModel::Post(body@),
            Method::Patch(body) => MethodModel::Patch(body@),
            Method::Put => MethodModel::Put,
            Method::Delete => MethodModel::Delete,
        }
    }
}

impl MethodModel {
    /// The word a request begins with.
    pub open spec fn word(self) -> Seq<char> {
        match self {
            MethodModel::Get => "GET"@,
            MethodModel::Post(_) => "POST"@,
            MethodModel::Patch(_) => "PATCH"@,
            MethodModel::Put => "PUT"@,
            MethodModel::Delete => "DELETE"@,
        }
    }

    /// The body a request carries.
    pub open spec fn carried(self) -> Option<Seq<char>> {
        match self {
            MethodModel::Post(body) => Some(body),
            MethodModel::Patch(body) => Some(body),
            _ => None,
        }
    }
}

impl Method {
    /// The word a request begins with.
    pub fn name(&self) -> (r: &'static str)
        ensures
            r@ == self@.word(),
    {
        match self {
            Method::Get => "GET",
            Method::Post(_) => "POST",
            Method::Patch(_) => "PATCH",
            Method::Put => "PUT",
            Method::Delete => "DELETE",
        }
    }

    /// The body a request carries.
    pub fn body(&self) -> (r: Option<&str>)
        ensures
            match r {
                Some(body) => self@.carried() == Some(body@),
                None => self@.carried() is None,
            },
    {
        match self {
            Method::Post(body) => Some(body.as_str()),
            Method::Patch(body) => Some(body.as_str()),
            _ => None,
        }
    }
}

/// One request, described but not yet made.
#[derive(Debug, Clone, PartialEq, Eq)]
pub struct Call {
    pub method: Method,
    pub path: String,
}

/// A request as the contracts speak of it.
#[verifier::ext_equal]
pub struct CallModel {
    pub method: MethodModel,
    pub path: Seq<char>,
}

impl vstd::view::View for Call {
    type V = CallModel;

    open spec fn view(&self) -> CallModel {
        CallModel { method: self.method@, path: self.path@ }
    }
}

// ---------------------------------------------------------------------------
// Paths
// ---------------------------------------------------------------------------

/// The path of an Issue.
pub open spec fn issue_path(id: IssueId) -> Seq<char> {
    "/issues/"@ + text::decimal(id as int)
}

/// The path of a Tag on an Issue.
pub open spec fn tag_path_text(id: IssueId, name: Seq<char>) -> Seq<char> {
    "/issues/"@ + text::decimal(id as int) + "/tags/"@ + percent::encoded(name, true)
}

/// The path of an Issue under another.
pub open spec fn sub_issue_path_text(parent: IssueId, child: IssueId) -> Seq<char> {
    "/issues/"@ + text::decimal(parent as int) + "/sub-issues/"@ + text::decimal(child as int)
}

/// What a parent filter is called in a query.
pub open spec fn parent_word(parent: ParentFilter) -> Seq<char> {
    match parent {
        ParentFilter::Unparented => "none"@,
        ParentFilter::Under(id) => text::decimal(id as int),
    }
}

/// One part of a query, where there is something to ask.
pub open spec fn part_if(name: Seq<char>, value: Option<Seq<char>>) -> Seq<Seq<char>> {
    match value {
        Some(value) => seq![name + "="@ + value],
        None => Seq::<Seq<char>>::empty(),
    }
}

/// The encoded form of an optional text.
pub open spec fn encoded_if(value: Option<Seq<char>>) -> Option<Seq<char>> {
    match value {
        Some(value) => Some(percent::encoded(value, false)),
        None => None,
    }
}

/// What a narrowing asks for of Statuses: a whole View asks nothing.
pub open spec fn status_asked(view: View) -> Option<Seq<char>> {
    match view {
        View::All => None,
        View::WithStatus(status) => Some(status.name()),
    }
}

/// The parts of the query that asks for a narrowing.
pub open spec fn query_parts(narrowing: NarrowingModel) -> Seq<Seq<char>> {
    part_if("status"@, encoded_if(status_asked(narrowing.view))) + part_if(
        "tag"@,
        encoded_if(narrowing.tag),
    ) + part_if(
        "parent"@,
        match narrowing.parent {
            Some(parent) => Some(parent_word(parent)),
            None => None,
        },
    ) + part_if("q"@, encoded_if(narrowing.title))
}

/// The path that asks for a narrowing.
pub open spec fn list_path(narrowing: NarrowingModel) -> Seq<char> {
    if query_parts(narrowing).len() == 0 {
        "/issues"@
    } else {
        "/issues?"@ + text::joined(query_parts(narrowing), "&"@)
    }
}

fn id_path(id: IssueId) -> (r: String)
    ensures
        r@ == issue_path(id),
{
    let mut path = "/issues/".to_owned();
    path.push_str(text::decimal_i64(id).as_str());
    path
}

/// A Tag name is the whole remainder of the path, slashes included, so
/// `ui/theme` addresses one Tag rather than four segments.
fn tag_path(id: IssueId, tag: &Tag) -> (r: String)
    ensures
        r@ == tag_path_text(id, tag@),
{
    let mut path = id_path(id);
    path.push_str("/tags/");
    path.push_str(encode(tag.as_str(), true).as_str());
    path
}

fn sub_issue_path(parent: IssueId, child: IssueId) -> (r: String)
    ensures
        r@ == sub_issue_path_text(parent, child),
{
    let mut path = id_path(parent);
    path.push_str("/sub-issues/");
    path.push_str(text::decimal_i64(child).as_str());
    path
}

/// Adds one part of a query.
fn push_part(parts: &mut Vec<String>, name: &str, value: &str)
    ensures
        text::texts(final(parts)@) == text::texts(old(parts)@) + part_if(name@, Some(value@)),
{
    let ghost had = text::texts(parts@);
    let mut part = name.to_owned();
    part.push_str("=");
    part.push_str(value);
    let ghost one = part@;
    parts.push(part);
    assert(text::texts(parts@) =~= had + seq![one]);
}

// ---------------------------------------------------------------------------
// Issues
// ---------------------------------------------------------------------------

/// `GET /issues`, narrowed.
pub fn list(narrowing: &Narrowing) -> (r: Call)
    ensures
        r@ == (CallModel { method: MethodModel::Get, path: list_path(narrowing@) }),
{
    let mut query: Vec<String> = Vec::new();
    let ghost none = Seq::<Seq<char>>::empty();
    assert(text::texts(query@) =~= none);
    // `View::All` is the absence of a Status filter, not a Status called "All",
    // so it contributes nothing to the query.
    if let View::WithStatus(status) = narrowing.view {
        push_part(&mut query, "status", encode(status.label(), false).as_str());
    }
    let ghost first = part_if("status"@, encoded_if(status_asked(narrowing@.view)));
    assert(text::texts(query@) =~= first);
    if let Some(tag) = &narrowing.tag {
        push_part(&mut query, "tag", encode(tag.as_str(), false).as_str());
    }
    let ghost second = first + part_if("tag"@, encoded_if(narrowing@.tag));
    assert(text::texts(query@) =~= second);
    if let Some(parent) = narrowing.parent {
        let value = match parent {
            ParentFilter::Unparented => "none".to_owned(),
            ParentFilter::Under(id) => text::decimal_i64(id),
        };
        push_part(&mut query, "parent", value.as_str());
    }
    let ghost third = second + part_if(
        "parent"@,
        match narrowing@.parent {
            Some(parent) => Some(parent_word(parent)),
            None => None,
        },
    );
    assert(text::texts(query@) =~= third);
    if let Some(title) = &narrowing.title {
        push_part(&mut query, "q", encode(title.as_str(), false).as_str());
    }
    assert(text::texts(query@) =~= query_parts(narrowing@));
    assert(query@.len() == text::texts(query@).len());
    let path = if query.len() == 0 {
        "/issues".to_owned()
    } else {
        let mut path = "/issues?".to_owned();
        path.push_str(text::join(&query, "&").as_str());
        path
    };
    Call { method: Method::Get, path }
}

/// `GET /issues/{id}`.
pub fn get(id: IssueId) -> (r: Call)
    ensures
        r@ == (CallModel { method: MethodModel::Get, path: issue_path(id) }),
{
    Call { method: Method::Get, path: id_path(id) }
}

/// `POST /issues`.
pub fn create(new: &NewIssue) -> (r: Call)
    ensures
        r@ == (CallModel { method: MethodModel::Post(wire::new_text(new@)), path: "/issues"@ }),
{
    Call { method: Method::Post(new.to_json()), path: "/issues".to_owned() }
}

/// `PATCH /issues/{id}`. A field the patch does not name is left alone, which is
/// why absent fields are omitted rather than sent as null.
pub fn update(id: IssueId, patch: &PatchIssue) -> (r: Call)
    ensures
        r@ == (CallModel {
            method: MethodModel::Patch(wire::patch_text(patch@)),
            path: issue_path(id),
        }),
{
    Call { method: Method::Patch(patch.to_json()), path: id_path(id) }
}

/// `DELETE /issues/{id}`.
pub fn delete(id: IssueId) -> (r: Call)
    ensures
        r@ == (CallModel { method: MethodModel::Delete, path: issue_path(id) }),
{
    Call { method: Method::Delete, path: id_path(id) }
}

// ---------------------------------------------------------------------------
// Tags
// ---------------------------------------------------------------------------

/// `PUT /issues/{id}/tags/{name}`.
pub fn add_tag(id: IssueId, tag: &Tag) -> (r: Call)
    ensures
        r@ == (CallModel { method: MethodModel::Put, path: tag_path_text(id, tag@) }),
{
    Call { method: Method::Put, path: tag_path(id, tag) }
}

/// `DELETE /issues/{id}/tags/{name}`.
pub fn remove_tag(id: IssueId, tag: &Tag) -> (r: Call)
    ensures
        r@ == (CallModel { method: MethodModel::Delete, path: tag_path_text(id, tag@) }),
{
    Call { method: Method::Delete, path: tag_path(id, tag) }
}

/// `GET /tags`.
pub fn tags() -> (r: Call)
    ensures
        r@ == (CallModel { method: MethodModel::Get, path: "/tags"@ }),
{
    Call { method: Method::Get, path: "/tags".to_owned() }
}

// ---------------------------------------------------------------------------
// Sub-issues
// ---------------------------------------------------------------------------

/// `PUT /issues/{parent}/sub-issues/{child}`.
pub fn add_sub_issue(parent: IssueId, child: IssueId) -> (r: Call)
    ensures
        r@ == (CallModel { method: MethodModel::Put, path: sub_issue_path_text(parent, child) }),
{
    Call { method: Method::Put, path: sub_issue_path(parent, child) }
}

/// `DELETE /issues/{parent}/sub-issues/{child}`.
pub fn remove_sub_issue(parent: IssueId, child: IssueId) -> (r: Call)
    ensures
        r@ == (CallModel { method: MethodModel::Delete, path: sub_issue_path_text(parent, child) }),
{
    Call { method: Method::Delete, path: sub_issue_path(parent, child) }
}

} // verus!
