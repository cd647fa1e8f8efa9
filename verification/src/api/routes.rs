//! Endpoint matching and the handlers behind it.
//!
//! Routing is written out by hand rather than delegated to a framework, because
//! one route needs matching a framework would fight: a Tag name is the whole
//! remainder of the path, slashes included, so `/issues/3/tags/ui/theme`
//! addresses the Tag `ui/theme` rather than being four segments.
//!
//! Nothing here writes. A request comes to a [`Step`]: an answer, a body to be
//! decoded, or a write to be made. Once the write has been made, or has failed,
//! [`inserted`], [`updated`] and [`deleted`] take in what became of it and say
//! what to answer.

use std::str::FromStr;

use vstd::prelude::*;
use vstd::view::View as _;

use crate::api::http;
use crate::api::http::{lookup, Request, RequestModel, Response, ResponseModel};
use crate::api::wire;
use crate::api::wire::{
    IssueJson, IssueJsonModel, NewIssue, NewIssueModel, PatchIssue, PatchIssueModel, TagJson,
    TagJsonModel,
};
use crate::domain::issue;
use crate::domain::issue::{Issue, IssueModel};
use crate::domain::kinds::{IssueId, ParseErrorModel, Status};
use crate::domain::narrowing::{Narrowing, NarrowingModel, ParentFilter};
use crate::domain::tag;
use crate::domain::tag::Tag;
use crate::domain::view::View;
use crate::projection::model;
use crate::projection::model::{ChangeModel, Content};
use crate::projection::{Change, Projection, Stamp, WriteError, WriteErrorModel, Written};
use crate::text;
use crate::time::Timestamp;

verus! {

broadcast use vstd::seq_lib::group_seq_properties;

// ---------------------------------------------------------------------------
// Routes
// ---------------------------------------------------------------------------

/// What a path addresses.
#[derive(Debug)]
pub enum Route {
    Issues,
    Issue(IssueId),
    IssueTag(IssueId, String),
    IssueSubIssue(IssueId, IssueId),
    Tags,
}

/// What a path addresses, as the contracts speak of it.
#[verifier::ext_equal]
pub enum RouteModel {
    Issues,
    Issue(IssueId),
    IssueTag(IssueId, Seq<char>),
    IssueSubIssue(IssueId, IssueId),
    Tags,
}

impl vstd::view::View for Route {
    type V = RouteModel;

    open spec fn view(&self) -> RouteModel {
        match *self {
            Route::Issues => RouteModel::Issues,
            Route::Issue(id) => RouteModel::Issue(id),
            Route::IssueTag(id, name) => RouteModel::IssueTag(id, name@),
            Route::IssueSubIssue(parent, child) => RouteModel::IssueSubIssue(parent, child),
            Route::Tags => RouteModel::Tags,
        }
    }
}

/// What follows a prefix, if a text begins with it.
pub open spec fn stripped(s: Seq<char>, prefix: Seq<char>) -> Option<Seq<char>> {
    if text::starts_with(s, prefix) {
        Some(s.skip(prefix.len() as int))
    } else {
        None
    }
}

/// What is addressed behind an Issue's id: what follows the slash.
pub open spec fn routed_within(id: IssueId, tail: Seq<char>) -> Option<RouteModel> {
    match stripped(tail, "sub-issues/"@) {
        Some(child) => match text::integer(child) {
            Some(child) => Some(RouteModel::IssueSubIssue(id, child as i64)),
            None => None,
        },
        None => match stripped(tail, "tags/"@) {
            Some(name) => if name.len() > 0 {
                Some(RouteModel::IssueTag(id, name))
            } else {
                None
            },
            None => None,
        },
    }
}

/// What a path addresses.
pub open spec fn routed(path: Seq<char>) -> Option<RouteModel> {
    if path == "/issues"@ {
        Some(RouteModel::Issues)
    } else if path == "/tags"@ {
        Some(RouteModel::Tags)
    } else {
        match stripped(path, "/issues/"@) {
            None => None,
            Some(rest) => match text::integer(text::before_first(rest, '/')) {
                None => None,
                Some(id) => if text::first_index(rest, '/') == rest.len() {
                    Some(RouteModel::Issue(id as i64))
                } else {
                    routed_within(id as i64, text::after_first(rest, '/'))
                },
            },
        }
    }
}

/// Whether this is what a path was found to address.
pub open spec fn is_route(r: Option<Route>, want: Option<RouteModel>) -> bool {
    match r {
        Some(route) => want == Some(route@),
        None => want is None,
    }
}

/// What is addressed behind an Issue's id.
fn route_within(id: IssueId, tail: &str) -> (r: Option<Route>)
    ensures
        is_route(r, routed_within(id, tail@)),
{
    // Matched before Tags: unlike a Tag name, a sub-issue is addressed by id,
    // so this segment is numeric and cannot contain a slash.
    if let Some(child) = text::strip_prefix(tail, "sub-issues/") {
        return match text::parse_integer(child.as_str()) {
            Some(child) => Some(Route::IssueSubIssue(id, child)),
            None => None,
        };
    }
    // Everything after `/tags/` is the name, however many slashes it holds.

    match text::strip_prefix(tail, "tags/") {
        Some(name) => if text::char_count(name.as_str()) > 0 {
            Some(Route::IssueTag(id, name))
        } else {
            None
        },
        None => None,
    }
}

/// What a path addresses.
pub fn route(path: &str) -> (r: Option<Route>)
    ensures
        is_route(r, routed(path@)),
{
    if text::same(path, "/issues") {
        return Some(Route::Issues);
    }
    if text::same(path, "/tags") {
        return Some(Route::Tags);
    }
    let rest = match text::strip_prefix(path, "/issues/") {
        Some(rest) => rest,
        None => {
            return None;
        },
    };
    match text::split_once(rest.as_str(), '/') {
        Some((id, tail)) => match text::parse_integer(id.as_str()) {
            Some(id) => route_within(id, tail.as_str()),
            None => None,
        },
        None => {
            assert(text::before_first(rest@, '/') =~= rest@);
            match text::parse_integer(rest.as_str()) {
                Some(id) => Some(Route::Issue(id)),
                None => None,
            }
        },
    }
}

// ---------------------------------------------------------------------------
// Steps
// ---------------------------------------------------------------------------

/// What a request comes to.
#[derive(Debug)]
pub enum Step {
    /// This is the answer.
    Respond(Response),
    /// The body is a new Issue: decode it, and hand it to [`create_issue`].
    ReadNewIssue,
    /// The body is a patch of this Issue: decode it, and hand it to
    /// [`patch_issue`].
    ReadPatch(IssueId),
    /// File this draft, and hand what became of it to [`inserted`].
    Insert(Issue),
    /// Write this version, and hand what became of it to [`updated`].
    Update(Issue),
    /// Erase this Issue, and hand what became of it to [`deleted`].
    Delete(IssueId),
}

/// What a request comes to, as the contracts speak of it.
#[verifier::ext_equal]
pub enum StepModel {
    Respond(ResponseModel),
    ReadNewIssue,
    ReadPatch(IssueId),
    Insert(Content),
    Update(IssueModel),
    Delete(IssueId),
}

impl vstd::view::View for Step {
    type V = StepModel;

    open spec fn view(&self) -> StepModel {
        match *self {
            Step::Respond(response) => StepModel::Respond(response@),
            Step::ReadNewIssue => StepModel::ReadNewIssue,
            Step::ReadPatch(id) => StepModel::ReadPatch(id),
            Step::Insert(draft) => StepModel::Insert(model::content_of(draft@)),
            Step::Update(next) => StepModel::Update(next@),
            Step::Delete(id) => StepModel::Delete(id),
        }
    }
}

/// Whether every family's Sizes add up to a number that can be sent.
pub open spec fn totals_fit(issues: Seq<IssueModel>) -> bool {
    forall|a: IssueModel| #[trigger]
        issues.contains(a) ==> wire::total_fits(a, model::parts(issues, a.id))
}

/// How an Issue goes out, among the others.
pub open spec fn shown_among(issue: IssueModel, issues: Seq<IssueModel>) -> IssueJsonModel {
    wire::shown(issue, model::parts(issues, issue.id))
}

/// The answer that is one Issue.
pub open spec fn issue_response(
    status: u16,
    issue: IssueModel,
    issues: Seq<IssueModel>,
) -> ResponseModel {
    http::json_response(status, wire::issue_text(shown_among(issue, issues)))
}

/// The answer where there is no such Issue.
pub open spec fn not_found_response(id: IssueId) -> ResponseModel {
    http::error_response(404, "no issue #"@ + text::decimal(id as int))
}

/// The answer where a write did not happen: 404 for a thing that is not there,
/// 409 for a request the data forbids, 500 for a database that failed.
pub open spec fn error_answer(err: WriteErrorModel) -> ResponseModel {
    match err {
        WriteErrorModel::NotFound(id) => not_found_response(id),
        WriteErrorModel::Refused(refusal) => http::error_response(409, refusal.sentence()),
        WriteErrorModel::Store(message) => http::error_response(500, message),
    }
}

/// The answer where a path does not take a method.
pub open spec fn not_allowed_response(allow: Seq<char>) -> ResponseModel {
    http::headed(http::error_response(405, "allowed here: "@ + allow), "Allow"@, allow)
}

/// What a planned change comes to.
pub open spec fn change_step(
    plan: Result<ChangeModel, WriteErrorModel>,
    issues: Seq<IssueModel>,
) -> StepModel {
    match plan {
        Err(err) => StepModel::Respond(error_answer(err)),
        Ok(ChangeModel::Unchanged(issue)) => StepModel::Respond(issue_response(200, issue, issues)),
        Ok(ChangeModel::Write(next)) => StepModel::Update(next),
    }
}

// ---------------------------------------------------------------------------
// Handlers, in words
// ---------------------------------------------------------------------------

/// The narrowing that a query asks for, or what is wrong with it.
pub open spec fn asked_for(query: Seq<(Seq<char>, Seq<char>)>) -> Result<
    NarrowingModel,
    Seq<char>,
> {
    let status = lookup(query, "status"@);
    let name = lookup(query, "tag"@);
    let parent = lookup(query, "parent"@);
    if status matches Some(s) && Status::named(s) is None {
        Err(ParseErrorModel { kind: "status"@, value: status->0 }.sentence())
    } else if name matches Some(s) && !tag::usable_name(text::trimmed(s)) {
        Err(ParseErrorModel { kind: "tag"@, value: name->0 }.sentence())
    } else if parent matches Some(s) && ParentFilter::named(s) is None {
        Err(
            ParseErrorModel { kind: "parent"@, value: parent->0 }.sentence()
                + " — use an issue id or \"none\""@,
        )
    } else {
        Ok(
            NarrowingModel {
                view: match status {
                    Some(s) => View::WithStatus(Status::named(s)->0),
                    None => View::All,
                },
                tag: match name {
                    Some(s) => Some(text::trimmed(s)),
                    None => None,
                },
                title: lookup(query, "q"@),
                parent: match parent {
                    Some(s) => ParentFilter::named(s),
                    None => None,
                },
            },
        )
    }
}

/// The answer to `GET /issues`.
pub open spec fn listed(
    query: Seq<(Seq<char>, Seq<char>)>,
    issues: Seq<IssueModel>,
) -> ResponseModel {
    match asked_for(query) {
        Err(message) => http::error_response(400, message),
        Ok(narrowing) => http::json_response(
            200,
            wire::issues_text(
                narrowing.selected(issues).map_values(|i: IssueModel| shown_among(i, issues)),
            ),
        ),
    }
}

/// The answer to `GET /tags`.
pub open spec fn tags_listed(issues: Seq<IssueModel>) -> ResponseModel {
    http::json_response(
        200,
        wire::tags_text(
            model::vocabulary(issues).map_values(
                |name: Seq<char>|
                    TagJsonModel { name, count: model::with_tag(issues, name).len() as usize },
            ),
        ),
    )
}

/// What `POST /issues` comes to, given what became of decoding its body.
pub open spec fn creating(
    body: Result<NewIssueModel, Seq<char>>,
    issues: Seq<IssueModel>,
) -> StepModel {
    match body {
        Err(why) => StepModel::Respond(http::error_response(400, "invalid body: "@ + why)),
        Ok(new) => if new.unknown.len() > 0 {
            StepModel::Respond(
                http::error_response(400, "invalid body: unknown field `"@ + new.unknown[0].0 + "`"@),
            )
        } else if text::trimmed(new.title).len() == 0 {
            StepModel::Respond(http::error_response(400, "title must not be blank"@))
        } else if new.rest.parent_id is Some {
            StepModel::Respond(
                http::error_response(
                    400,
                    "use \"parent_id\" at the top level of the body, not inside a patch"@,
                ),
            )
        } else {
            match wire::read_patch(new.rest) {
                Err(err) => StepModel::Respond(http::error_response(400, err.sentence())),
                Ok(patch) => match model::to_create(
                    issues,
                    text::trimmed(new.title),
                    patch,
                    new.parent_id,
                ) {
                    Err(err) => StepModel::Respond(error_answer(err)),
                    Ok(content) => StepModel::Insert(content),
                },
            }
        },
    }
}

/// What `PATCH /issues/{id}` comes to, given what became of decoding its body.
pub open spec fn patching(
    id: IssueId,
    body: Result<PatchIssueModel, Seq<char>>,
    issues: Seq<IssueModel>,
) -> StepModel {
    match body {
        Err(why) => StepModel::Respond(http::error_response(400, "invalid body: "@ + why)),
        Ok(patch) => if patch.parent_id is Some {
            StepModel::Respond(
                http::error_response(
                    400,
                    "parent_id is not patchable; use PUT or DELETE /issues/{parent}/sub-issues/"@
                        + text::decimal(id as int),
                ),
            )
        } else {
            match wire::read_patch(patch) {
                Err(err) => StepModel::Respond(http::error_response(400, err.sentence())),
                Ok(patch) => change_step(model::to_patch(issues, id, patch), issues),
            }
        },
    }
}

/// What adding or taking off a Tag comes to.
pub open spec fn tagging(
    id: IssueId,
    name: Seq<char>,
    issues: Seq<IssueModel>,
    adding: bool,
) -> StepModel {
    if !tag::usable_name(text::trimmed(name)) {
        StepModel::Respond(
            http::error_response(400, ParseErrorModel { kind: "tag"@, value: name }.sentence()),
        )
    } else if adding {
        change_step(model::to_add_tag(issues, id, text::trimmed(name)), issues)
    } else {
        change_step(model::to_remove_tag(issues, id, text::trimmed(name)), issues)
    }
}

/// What detaching an Issue from another comes to. Detaching from an Issue that
/// does not hold it is a mistake worth reporting.
pub open spec fn detaching(
    parent: IssueId,
    child: IssueId,
    issues: Seq<IssueModel>,
) -> StepModel {
    match model::found(issues, child) {
        None => StepModel::Respond(not_found_response(child)),
        Some(issue) => if issue.parent_id != Some(parent) {
            StepModel::Respond(
                http::error_response(
                    409,
                    "#"@ + text::decimal(child as int) + " is not a sub-issue of #"@
                        + text::decimal(parent as int),
                ),
            )
        } else {
            change_step(model::to_set_parent(issues, child, None), issues)
        },
    }
}

/// What a request comes to.
pub open spec fn dispatched(request: RequestModel, issues: Seq<IssueModel>) -> StepModel {
    let method = request.method;
    match routed(request.path) {
        None => StepModel::Respond(
            http::error_response(404, "no such endpoint: "@ + request.path),
        ),
        Some(RouteModel::Issues) => if method == "GET"@ {
            StepModel::Respond(listed(request.query, issues))
        } else if method == "POST"@ {
            StepModel::ReadNewIssue
        } else {
            StepModel::Respond(not_allowed_response("GET, POST"@))
        },
        Some(RouteModel::Issue(id)) => if method == "GET"@ {
            StepModel::Respond(
                match model::found(issues, id) {
                    Some(issue) => issue_response(200, issue, issues),
                    None => not_found_response(id),
                },
            )
        } else if method == "PATCH"@ {
            StepModel::ReadPatch(id)
        } else if method == "DELETE"@ {
            match model::why_not_delete(issues, id) {
                Some(err) => StepModel::Respond(error_answer(err)),
                None => StepModel::Delete(id),
            }
        } else {
            StepModel::Respond(not_allowed_response("GET, PATCH, DELETE"@))
        },
        Some(RouteModel::IssueTag(id, name)) => if method == "PUT"@ {
            tagging(id, name, issues, true)
        } else if method == "DELETE"@ {
            tagging(id, name, issues, false)
        } else {
            StepModel::Respond(not_allowed_response("PUT, DELETE"@))
        },
        Some(RouteModel::IssueSubIssue(parent, child)) => if method == "PUT"@ {
            change_step(model::to_set_parent(issues, child, Some(parent)), issues)
        } else if method == "DELETE"@ {
            detaching(parent, child, issues)
        } else {
            StepModel::Respond(not_allowed_response("PUT, DELETE"@))
        },
        Some(RouteModel::Tags) => if method == "GET"@ {
            StepModel::Respond(tags_listed(issues))
        } else {
            StepModel::Respond(not_allowed_response("GET"@))
        },
    }
}

// ---------------------------------------------------------------------------
// Helpers
// ---------------------------------------------------------------------------

/// Renders an Issue together with the ids of its sub-issues.
fn issue_json(projection: &Projection, issue: &Issue) -> (r: IssueJson)
    requires
        wire::total_fits(issue@, model::parts(projection@, issue@.id)),
    ensures
        r@ == shown_among(issue@, projection@),
{
    IssueJson::new(issue, projection.sub_issues(issue.id).as_slice())
}

fn issue_answer(status: u16, projection: &Projection, issue: &Issue) -> (r: Response)
    requires
        wire::total_fits(issue@, model::parts(projection@, issue@.id)),
    ensures
        r@ == issue_response(status, issue@, projection@),
{
    Response::json(status, issue_json(projection, issue).to_json().as_str())
}

fn not_found(id: IssueId) -> (r: Response)
    ensures
        r@ == not_found_response(id),
{
    let mut message = "no issue #".to_owned();
    message.push_str(text::decimal_i64(id).as_str());
    Response::error(404, message.as_str())
}

/// Turns a mutation that did not happen into an answer.
///
/// The three cases are deliberately distinct: 404 for a thing that is not
/// there, 409 for a request the data forbids, 500 for a database that failed.
fn write_error(err: WriteError) -> (r: Response)
    ensures
        r@ == error_answer(err@),
{
    match err {
        WriteError::NotFound(id) => not_found(id),
        WriteError::Refused(refusal) => Response::error(409, refusal.to_string().as_str()),
        WriteError::Store(message) => Response::error(500, message.as_str()),
    }
}

fn method_not_allowed(allow: &str) -> (r: Response)
    ensures
        r@ == not_allowed_response(allow@),
{
    let mut message = "allowed here: ".to_owned();
    message.push_str(allow);
    Response::error(405, message.as_str()).with_header("Allow", allow)
}

/// Whether a planned change, if it changes nothing, is of an Issue that is
/// there.
spec fn is_known(plan: Result<ChangeModel, WriteErrorModel>, issues: Seq<IssueModel>) -> bool {
    plan matches Ok(ChangeModel::Unchanged(issue)) ==> (model::found(issues, issue.id) matches Some(
        current,
    ) && current.same_as(issue))
}

proof fn lemma_found_is_there(issues: Seq<IssueModel>, id: IssueId)
    ensures
        model::found(issues, id) matches Some(issue) ==> issues.contains(issue) && issue.id == id,
    decreases issues.len(),
{
    if issues.len() > 0 {
        lemma_found_is_there(issues.drop_last(), id);
        match model::place_of(issues.drop_last(), id) {
            Some(place) => {
                lemma_place_bound(issues.drop_last(), id);
                assert(issues.drop_last()[place] == issues[place]);
            },
            None => {},
        }
    }
}

proof fn lemma_place_bound(issues: Seq<IssueModel>, id: IssueId)
    ensures
        model::place_of(issues, id) matches Some(place) ==> 0 <= place < issues.len(),
    decreases issues.len(),
{
    if issues.len() > 0 {
        lemma_place_bound(issues.drop_last(), id);
    }
}

/// Turns a planned change into a step.
fn written(plan: Written<Change>, projection: &Projection) -> (r: Step)
    requires
        totals_fit(projection@),
        forall|p: Result<ChangeModel, WriteErrorModel>|
            crate::projection::is_change(plan, p) ==> is_known(p, projection@),
    ensures
        forall|p: Result<ChangeModel, WriteErrorModel>|
            crate::projection::is_change(plan, p) ==> r@ == change_step(p, projection@),
{
    match plan {
        Err(err) => {
            let r = Step::Respond(write_error(err));
            r
        },
        Ok(Change::Write(next)) => Step::Update(next),
        Ok(Change::Unchanged(issue)) => {
            proof {
                let p = Ok::<ChangeModel, WriteErrorModel>(ChangeModel::Unchanged(issue@));
                assert(crate::projection::is_change(plan, p));
                assert(is_known(p, projection@));
                let current = model::found(projection@, issue@.id)->0;
                lemma_found_is_there(projection@, issue@.id);
                assert(projection@.contains(current));
                assert(issue::family_sizes(current, model::parts(projection@, issue@.id))
                    =~= issue::family_sizes(issue@, model::parts(projection@, issue@.id)));
            }
            Step::Respond(issue_answer(200, projection, &issue))
        },
    }
}

// ---------------------------------------------------------------------------
// Handlers
// ---------------------------------------------------------------------------

/// The narrowing that a request asks for, or what is wrong with it.
///
/// An absent `?status=` is not a missing filter to remember: it is the View
/// that admits everything.
pub fn narrowing_of(request: &Request) -> (r: Result<Narrowing, String>)
    ensures
        match r {
            Ok(narrowing) => asked_for(request@.query) == Ok::<NarrowingModel, Seq<char>>(
                narrowing@,
            ),
            Err(message) => asked_for(request@.query) == Err::<NarrowingModel, Seq<char>>(message@),
        },
{
    let view = match request.param("status") {
        Some(s) => match Status::from_str(s) {
            Ok(status) => View::WithStatus(status),
            Err(err) => {
                return Err(err.to_string());
            },
        },
        None => View::All,
    };
    let tag = match request.param("tag") {
        Some(s) => match Tag::from_str(s) {
            Ok(tag) => Some(tag),
            Err(err) => {
                return Err(err.to_string());
            },
        },
        None => None,
    };
    let parent = match request.param("parent") {
        Some(s) => match ParentFilter::from_str(s) {
            Ok(parent) => Some(parent),
            // The hint matters: `none` being a literal rather than an empty
            // value is not guessable, and this is where a caller finds out.
            Err(err) => {
                let mut message = err.to_string();
                message.push_str(" — use an issue id or \"none\"");
                return Err(message);
            },
        },
        None => None,
    };
    let title = match request.param("q") {
        Some(s) => Some(s.to_owned()),
        None => None,
    };
    Ok(Narrowing { view, tag, title, parent })
}

/// `GET /issues`, with the narrowings the window offers (a Status slice, a Tag
/// filter and a title substring), plus a Parent filter the window expresses
/// through the shape of its rows rather than as a control.
///
/// The narrowing itself is shared with the window. All this does is turn a
/// query string into one, so the two surfaces cannot disagree about what a
/// filter means.
fn list_issues(request: &Request, projection: &Projection) -> (r: Response)
    requires
        totals_fit(projection@),
    ensures
        r@ == listed(request@.query, projection@),
{
    let narrowing = match narrowing_of(request) {
        Ok(narrowing) => narrowing,
        Err(message) => {
            return Response::error(400, message.as_str());
        },
    };
    // `issues()` is already in display order, and narrowing preserves it, so
    // the API and the window agree on what "first" means.
    let chosen = narrowing.select(projection.issues());
    let ghost picked = narrowing@.selected(projection@);
    let mut out: Vec<IssueJson> = Vec::new();
    let mut i: usize = 0;
    while i < chosen.len()
        invariant
            i <= chosen@.len(),
            totals_fit(projection@),
            picked == narrowing@.selected(projection@),
            issue::models_of(chosen@) == picked,
            out@.len() == i,
            forall|j: int| 0 <= j < i ==> (#[trigger] out@[j])@ == shown_among(picked[j], projection@),
        decreases chosen@.len() - i,
    {
        proof {
            assert(issue::models_of(chosen@)[i as int] == chosen@[i as int]@);
            crate::projection::laws::lemma_filter_contents(
                projection@,
                |i: IssueModel| narrowing@.admits(i),
            );
            assert(picked.contains(picked[i as int]));
            assert(projection@.contains(chosen@[i as int]@));
        }
        out.push(issue_json(projection, chosen[i]));
        i += 1;
    }
    assert(wire::json_models(out@) =~= picked.map_values(
        |i: IssueModel| shown_among(i, projection@),
    ));
    Response::json(200, wire::issues_json(&out).as_str())
}

/// `GET /tags`: the same derived list the sidebar shows, with the same counts.
fn list_tags(projection: &Projection) -> (r: Response)
    ensures
        r@ == tags_listed(projection@),
{
    let words = projection.tags_in_use();
    let tags = words.as_slice();
    let ghost want = model::vocabulary(projection@).map_values(
        |name: Seq<char>|
            TagJsonModel { name, count: model::with_tag(projection@, name).len() as usize },
    );
    let mut out: Vec<TagJson> = Vec::new();
    let mut i: usize = 0;
    while i < tags.len()
        invariant
            i <= tags@.len(),
            tag::names(tags@) == model::vocabulary(projection@),
            want == model::vocabulary(projection@).map_values(
                |name: Seq<char>|
                    TagJsonModel { name, count: model::with_tag(projection@, name).len() as usize },
            ),
            out@.len() == i,
            forall|j: int| 0 <= j < i ==> (#[trigger] out@[j])@ == want[j],
        decreases tags@.len() - i,
    {
        assert(tag::names(tags@)[i as int] == tags@[i as int]@);
        out.push(
            TagJson { name: tags[i].to_string(), count: projection.count_with_tag(&tags[i]) },
        );
        i += 1;
    }
    assert(wire::tag_models(out@) =~= want);
    Response::json(200, wire::tags_json(&out).as_str())
}

/// What became of decoding a new Issue, as the contracts speak of it.
pub open spec fn new_body(body: Result<NewIssue, String>) -> Result<NewIssueModel, Seq<char>> {
    match body {
        Ok(new) => Ok(new@),
        Err(why) => Err(why@),
    }
}

/// What became of decoding a patch, as the contracts speak of it.
pub open spec fn patch_body(body: Result<PatchIssue, String>) -> Result<
    PatchIssueModel,
    Seq<char>,
> {
    match body {
        Ok(patch) => Ok(patch@),
        Err(why) => Err(why@),
    }
}

fn invalid_body(why: &str) -> (r: Response)
    ensures
        r@ == http::error_response(400, "invalid body: "@ + why@),
{
    let mut message = "invalid body: ".to_owned();
    message.push_str(why);
    Response::error(400, message.as_str())
}

/// `POST /issues`, once its body has been decoded, or could not be.
///
/// The parent is asked before anything is filed, so a refusal leaves nothing
/// behind.
pub fn create_issue(body: Result<NewIssue, String>, projection: &Projection) -> (r: Step)
    ensures
        r@ == creating(new_body(body), projection@),
{
    let new = match body {
        Ok(new) => new,
        Err(why) => {
            return Step::Respond(invalid_body(why.as_str()));
        },
    };
    if new.unknown.len() > 0 {
        assert(http::pairs(new.unknown@)[0] == (new.unknown@[0].0@, new.unknown@[0].1@));
        let mut message = "invalid body: unknown field `".to_owned();
        message.push_str(new.unknown[0].0.as_str());
        message.push_str("`");
        return Step::Respond(Response::error(400, message.as_str()));
    }
    let title = text::trim(new.title.as_str());
    if text::char_count(title.as_str()) == 0 {
        return Step::Respond(Response::error(400, "title must not be blank"));
    }
    if new.rest.parent_id.is_some() {
        return Step::Respond(
            Response::error(
                400,
                "use \"parent_id\" at the top level of the body, not inside a patch",
            ),
        );
    }
    let patch = match new.rest.into_patch() {
        Ok(patch) => patch,
        Err(err) => {
            return Step::Respond(Response::error(400, err.to_string().as_str()));
        },
    };
    match projection.create(title.as_str(), patch, new.parent_id) {
        Ok(draft) => Step::Insert(draft),
        Err(err) => Step::Respond(write_error(err)),
    }
}

/// `PATCH /issues/{id}`, once its body has been decoded, or could not be.
pub fn patch_issue(id: IssueId, body: Result<PatchIssue, String>, projection: &Projection) -> (r:
    Step)
    requires
        totals_fit(projection@),
    ensures
        r@ == patching(id, patch_body(body), projection@),
{
    let body = match body {
        Ok(body) => body,
        Err(why) => {
            return Step::Respond(invalid_body(why.as_str()));
        },
    };
    // Rejected loudly rather than ignored: a caller who thinks they moved an
    // Issue and did not would have no way to tell.
    if body.parent_id.is_some() {
        let mut message =
            "parent_id is not patchable; use PUT or DELETE /issues/{parent}/sub-issues/".to_owned();
        message.push_str(text::decimal_i64(id).as_str());
        return Step::Respond(Response::error(400, message.as_str()));
    }
    let patch = match body.into_patch() {
        Ok(patch) => patch,
        Err(err) => {
            return Step::Respond(Response::error(400, err.to_string().as_str()));
        },
    };
    let ghost wanted = model::to_patch(projection@, id, patch@);
    let plan = projection.patch(id, patch);
    assert(crate::projection::is_change(plan, wanted));
    written(plan, projection)
}

/// `PUT`/`DELETE /issues/{id}/tags/{name}`.
///
/// Both are idempotent and both go through the single writer, so neither has
/// the read-modify-write race that changing one Tag through `PATCH` would.
fn change_tag(id: IssueId, name: &str, projection: &Projection, adding: bool) -> (r: Step)
    requires
        totals_fit(projection@),
    ensures
        r@ == tagging(id, name@, projection@, adding),
{
    let tag = match Tag::from_str(name) {
        Ok(tag) => tag,
        Err(err) => {
            return Step::Respond(Response::error(400, err.to_string().as_str()));
        },
    };
    if adding {
        let ghost wanted = model::to_add_tag(projection@, id, tag@);
        let plan = projection.add_tag(id, tag);
        assert(crate::projection::is_change(plan, wanted));
        written(plan, projection)
    } else {
        let ghost wanted = model::to_remove_tag(projection@, id, tag@);
        let plan = projection.remove_tag(id, &tag);
        assert(crate::projection::is_change(plan, wanted));
        written(plan, projection)
    }
}

/// `DELETE /issues/{parent}/sub-issues/{child}`.
fn detach(parent: IssueId, child: IssueId, projection: &Projection) -> (r: Step)
    requires
        totals_fit(projection@),
    ensures
        r@ == detaching(parent, child, projection@),
{
    match projection.get(child) {
        None => Step::Respond(not_found(child)),
        Some(issue) => {
            // Detaching from an Issue that does not hold it is a mistake worth
            // reporting rather than a silent success.
            if issue.parent_id != Some(parent) {
                let mut message = "#".to_owned();
                message.push_str(text::decimal_i64(child).as_str());
                message.push_str(" is not a sub-issue of #");
                message.push_str(text::decimal_i64(parent).as_str());
                return Step::Respond(Response::error(409, message.as_str()));
            }
            let ghost wanted = model::to_set_parent(projection@, child, None);
            let plan = projection.set_parent(child, None);
            assert(crate::projection::is_change(plan, wanted));
            written(plan, projection)
        },
    }
}

/// What a request comes to.
pub fn dispatch(request: &Request, projection: &Projection) -> (r: Step)
    requires
        totals_fit(projection@),
    ensures
        r@ == dispatched(request@, projection@),
{
    let method = request.method();
    let route = match route(request.path()) {
        Some(route) => route,
        None => {
            let mut message = "no such endpoint: ".to_owned();
            message.push_str(request.path());
            return Step::Respond(Response::error(404, message.as_str()));
        },
    };
    match route {
        Route::Issues => {
            if text::same(method, "GET") {
                Step::Respond(list_issues(request, projection))
            } else if text::same(method, "POST") {
                Step::ReadNewIssue
            } else {
                Step::Respond(method_not_allowed("GET, POST"))
            }
        },
        Route::Issue(id) => {
            if text::same(method, "GET") {
                match projection.get(id) {
                    Some(issue) => {
                        proof {
                            lemma_found_is_there(projection@, id);
                            assert(projection@.contains(issue@));
                        }
                        Step::Respond(issue_answer(200, projection, issue))
                    },
                    None => Step::Respond(not_found(id)),
                }
            } else if text::same(method, "PATCH") {
                Step::ReadPatch(id)
            } else if text::same(method, "DELETE") {
                match projection.delete(id) {
                    Ok(()) => Step::Delete(id),
                    Err(err) => Step::Respond(write_error(err)),
                }
            } else {
                Step::Respond(method_not_allowed("GET, PATCH, DELETE"))
            }
        },
        Route::IssueTag(id, name) => {
            if text::same(method, "PUT") {
                change_tag(id, name.as_str(), projection, true)
            } else if text::same(method, "DELETE") {
                change_tag(id, name.as_str(), projection, false)
            } else {
                Step::Respond(method_not_allowed("PUT, DELETE"))
            }
        },
        Route::IssueSubIssue(parent, child) => {
            // `PUT` on an Issue that already belongs elsewhere moves it: the
            // request says where the child should end up, which is all a move
            // is.
            if text::same(method, "PUT") {
                let ghost wanted = model::to_set_parent(projection@, child, Some(parent));
                let plan = projection.set_parent(child, Some(parent));
                assert(crate::projection::is_change(plan, wanted));
                written(plan, projection)
            } else if text::same(method, "DELETE") {
                detach(parent, child, projection)
            } else {
                Step::Respond(method_not_allowed("PUT, DELETE"))
            }
        },
        Route::Tags => {
            if text::same(method, "GET") {
                Step::Respond(list_tags(projection))
            } else {
                Step::Respond(method_not_allowed("GET"))
            }
        },
    }
}

// ---------------------------------------------------------------------------
// After a write
// ---------------------------------------------------------------------------

/// Takes in what became of filing a draft, and says what to answer.
pub fn inserted(projection: &mut Projection, draft: Issue, stored: Result<Stamp, String>) -> (r:
    Response)
    requires
        stored matches Ok(stamp) ==> {
            let issue = model::stamped(model::content_of(draft@), stamp.id, stamp.at);
            wire::total_fits(
                issue,
                model::parts(model::after_insert(old(projection)@, issue), stamp.id),
            )
        },
    ensures
        match stored {
            Ok(stamp) => {
                let issue = model::stamped(model::content_of(draft@), stamp.id, stamp.at);
                &&& final(projection)@ == model::after_insert(old(projection)@, issue)
                &&& r@ == http::headed(
                    issue_response(201, issue, final(projection)@),
                    "Location"@,
                    "/issues/"@ + text::decimal(stamp.id as int),
                )
            },
            Err(message) => {
                &&& final(projection)@ == old(projection)@
                &&& r@ == error_answer(WriteErrorModel::Store(message@))
            },
        },
{
    match projection.created(draft, stored) {
        Ok(issue) => {
            let mut location = "/issues/".to_owned();
            location.push_str(text::decimal_i64(issue.id).as_str());
            issue_answer(201, projection, &issue).with_header("Location", location.as_str())
        },
        Err(err) => write_error(err),
    }
}

/// Takes in what became of writing a version of an Issue, and says what to
/// answer.
pub fn updated(projection: &mut Projection, next: Issue, stored: Result<Timestamp, String>) -> (r:
    Response)
    requires
        stored matches Ok(at) ==> {
            let issue = IssueModel { updated_at: at, ..next@ };
            wire::total_fits(
                issue,
                model::parts(model::after_update(old(projection)@, issue), issue.id),
            )
        },
    ensures
        match (model::place_of(old(projection)@, next@.id), stored) {
            (None, _) => {
                &&& final(projection)@ == old(projection)@
                &&& r@ == error_answer(WriteErrorModel::NotFound(next@.id))
            },
            (Some(_), Err(message)) => {
                &&& final(projection)@ == old(projection)@
                &&& r@ == error_answer(WriteErrorModel::Store(message@))
            },
            (Some(_), Ok(at)) => {
                let issue = IssueModel { updated_at: at, ..next@ };
                &&& final(projection)@ == model::after_update(old(projection)@, issue)
                &&& r@ == issue_response(200, issue, final(projection)@)
            },
        },
{
    match projection.updated(next, stored) {
        Ok(issue) => issue_answer(200, projection, &issue),
        Err(err) => write_error(err),
    }
}

/// Takes in what became of erasing an Issue, and says what to answer.
pub fn deleted(projection: &mut Projection, id: IssueId, stored: Result<(), String>) -> (r:
    Response)
    ensures
        match stored {
            Ok(_) => {
                &&& final(projection)@ == model::after_delete(old(projection)@, id)
                &&& r@ == http::empty_response(204)
            },
            Err(message) => {
                &&& final(projection)@ == old(projection)@
                &&& r@ == error_answer(WriteErrorModel::Store(message@))
            },
        },
{
    match projection.deleted(id, stored) {
        Ok(()) => Response::empty(204),
        Err(err) => write_error(err),
    }
}

/// The JSON that a request's body is read as: an absent body reads as `{}`, so
/// a patch with nothing to say is a no-op rather than a parse error.
pub fn json_source(request: &Request) -> (r: Vec<u8>)
    ensures
        r@ == if request@.body.len() == 0 {
            vstd::utf8::encode_utf8("{}"@)
        } else {
            request@.body
        },
{
    let body = request.body();
    if body.len() == 0 {
        http::bytes_of("{}")
    } else {
        let mut raw: Vec<u8> = Vec::new();
        raw.extend_from_slice(body.as_slice());
        raw
    }
}

// ---------------------------------------------------------------------------
// What holds of the totals
// ---------------------------------------------------------------------------

proof fn lemma_size_sum_bound(sizes: Seq<Option<u8>>)
    ensures
        issue::size_sum(sizes) <= 255 * sizes.len(),
    decreases sizes.len(),
{
    if sizes.len() > 0 {
        lemma_size_sum_bound(sizes.drop_last());
    }
}

proof fn lemma_filter_is_no_longer<A>(all: Seq<A>, pass: spec_fn(A) -> bool)
    ensures
        all.filter(pass).len() <= all.len(),
    decreases all.len(),
{
    reveal(Seq::filter);
    if all.len() > 0 {
        lemma_filter_is_no_longer(all.drop_last(), pass);
    }
}

/// Among no more than 16,843,008 Issues every family's total can be sent,
/// whatever their Sizes.
pub proof fn a_total_fits_among_few_enough(own: IssueModel, issues: Seq<IssueModel>, id: IssueId)
    requires
        issues.len() <= 16_843_008,
    ensures
        wire::total_fits(own, model::parts(issues, id)),
{
    let parts = model::parts(issues, id);
    lemma_filter_is_no_longer(issues, |i: IssueModel| i.parent_id == Some(id));
    lemma_size_sum_bound(issue::family_sizes(own, parts));
}

/// Among no more than 16,843,008 Issues all totals can be sent.
pub proof fn totals_fit_among_few_enough(issues: Seq<IssueModel>)
    requires
        issues.len() <= 16_843_008,
    ensures
        totals_fit(issues),
{
    assert forall|a: IssueModel| #[trigger] issues.contains(a) implies wire::total_fits(
        a,
        model::parts(issues, a.id),
    ) by {
        a_total_fits_among_few_enough(a, issues, a.id);
    }
}

/// As many Issues as are sure to have totals that can be sent, one more
/// included.
pub const MOST_ISSUES: usize = 16_843_008;

/// Whether there are few enough Issues that all totals can be sent, also once
/// one more is filed.
pub fn few_enough(projection: &Projection) -> (r: bool)
    ensures
        r == (projection@.len() < MOST_ISSUES),
        r ==> totals_fit(projection@),
{
    let few = projection.issues().len() < MOST_ISSUES;
    proof {
        if few {
            totals_fit_among_few_enough(projection@);
        }
    }
    few
}

} // verus!
