//! What the API says and does, in its own words and those of its callers.

use vstd::prelude::*;
use vstd::view::View as _;

use crate::api::auth;
use crate::api::http;
use crate::api::http::{HeadReadModel, ParsedModel, RequestModel, ResponseModel};
use crate::api::routes;
use crate::api::routes::{RouteModel, StepModel};
use crate::api::server;
use crate::api::server::ReadingModel;
use crate::api::wire;
use crate::api::wire::{IssueJsonModel, NewIssueModel, PatchIssueModel, TagJsonModel};
use crate::domain::issue;
use crate::domain::issue::IssueModel;
use crate::domain::kinds::{IssueId, Priority, Status};
use crate::domain::laws;
use crate::domain::narrowing::{NarrowingModel, ParentFilter};
use crate::domain::tag;
use crate::domain::view::View;
use crate::json;
use crate::percent;
use crate::projection;
use crate::projection::effects;
use crate::projection::model;
use crate::projection::model::{ChangeModel, Content};
use crate::projection::{Refused, WriteErrorModel};
use crate::text;
use crate::time;

verus! {

// ---------------------------------------------------------------------------
// An Issue on the wire
// ---------------------------------------------------------------------------

/// What goes out of an Issue is what it holds, with the ids of its parts in
/// order, how many of them are Done or Cancelled, how many have no Size, and what
/// the family's Sizes add up to.
pub proof fn what_goes_out_is_the_issue(own: IssueModel, parts: Seq<IssueModel>, i: int)
    requires
        wire::total_fits(own, parts),
        parts.len() <= usize::MAX,
    ensures
        ({
            let out = wire::shown(own, parts);
            &&& out.id == own.id
            &&& out.title == own.title
            &&& out.body == own.body
            &&& own.status == Status::Todo ==> out.status == "Todo"@
            &&& own.status == Status::Doing ==> out.status == "Doing"@
            &&& own.status == Status::Blocked ==> out.status == "Blocked"@
            &&& own.status == Status::Done ==> out.status == "Done"@
            &&& own.status == Status::Cancelled ==> out.status == "Cancelled"@
            &&& own.priority == Priority::Unset ==> out.priority == "None"@
            &&& own.priority == Priority::Low ==> out.priority == "Low"@
            &&& own.priority == Priority::Medium ==> out.priority == "Medium"@
            &&& own.priority == Priority::High ==> out.priority == "High"@
            &&& own.priority == Priority::Urgent ==> out.priority == "Urgent"@
            &&& out.size == own.size
            &&& out.tags == own.tags
            &&& out.parent_id == own.parent_id
            &&& out.sub_issue_ids.len() == parts.len()
            &&& 0 <= i < parts.len() ==> out.sub_issue_ids[i] == parts[i].id
            &&& out.settled_sub_issues == parts.filter(
                |p: IssueModel| p.status == Status::Done || p.status == Status::Cancelled,
            ).len()
            &&& out.unsized_sub_issues == parts.filter(|p: IssueModel| p.size is None).len()
            &&& out.total_size is Some <==> issue::family_total(own, parts) is Some
            &&& out.total_size matches Some(total) ==> total == issue::family_total(own, parts)->0
            &&& out.created_at == time::rfc3339_text(
                own.created_at.spec_secs(),
                own.created_at.spec_nanos(),
            )
            &&& out.updated_at == time::rfc3339_text(
                own.updated_at.spec_secs(),
                own.updated_at.spec_nanos(),
            )
        }),
{
    let settled = |p: IssueModel| p.status == Status::Done || p.status == Status::Cancelled;
    lemma_same_filter(parts, settled, |p: IssueModel| p.status.settled());
    lemma_filter_length(parts, settled);
    lemma_filter_length(parts, |p: IssueModel| p.size is None);
}

proof fn lemma_same_filter<A>(all: Seq<A>, f: spec_fn(A) -> bool, g: spec_fn(A) -> bool)
    requires
        forall|x: A| #[trigger] f(x) <==> g(x),
    ensures
        all.filter(f) == all.filter(g),
    decreases all.len(),
{
    reveal(Seq::filter);
    if all.len() > 0 {
        lemma_same_filter(all.drop_last(), f, g);
        assert(f(all.last()) <==> g(all.last()));
    }
}

proof fn lemma_filter_length<A>(all: Seq<A>, pass: spec_fn(A) -> bool)
    ensures
        all.filter(pass).len() <= all.len(),
    decreases all.len(),
{
    reveal(Seq::filter);
    if all.len() > 0 {
        lemma_filter_length(all.drop_last(), pass);
    }
}

/// A field of an object: its name in quotes, a colon, and its value.
pub proof fn a_field_is_a_name_and_a_value(name: Seq<char>, value: Seq<char>)
    ensures
        json::field_text(name, value) == seq!['"'] + name + seq!['"', ':'] + value,
{
    reveal_strlit("\"");
    reveal_strlit("\":");
    assert("\""@ =~= seq!['"']);
    assert("\":"@ =~= seq!['"', ':']);
}

/// The JSON of an Issue is an object with these fields in this order, each with
/// what the Issue holds under that name.
pub proof fn an_issue_is_an_object_of_its_fields(out: IssueJsonModel)
    ensures
        ({
            let fields = wire::issue_fields(out);
            &&& wire::issue_text(out) == seq!['{'] + text::joined(fields, seq![',']) + seq!['}']
            &&& fields.len() == 14
            &&& fields[0] == json::field_text("id"@, text::decimal(out.id as int))
            &&& fields[1] == json::field_text("title"@, json::json_text(out.title))
            &&& fields[2] == json::field_text("body"@, json::json_text(out.body))
            &&& fields[3] == json::field_text("status"@, json::json_text(out.status))
            &&& fields[4] == json::field_text("priority"@, json::json_text(out.priority))
            &&& fields[5] == json::field_text(
                "size"@,
                if out.size is Some {
                    text::decimal(out.size->0 as int)
                } else {
                    "null"@
                },
            )
            &&& fields[6] == json::field_text(
                "total_size"@,
                if out.total_size is Some {
                    text::decimal(out.total_size->0 as int)
                } else {
                    "null"@
                },
            )
            &&& fields[7] == json::field_text(
                "unsized_sub_issues"@,
                text::decimal(out.unsized_sub_issues as int),
            )
            &&& fields[8] == json::field_text("tags"@, json::strings_text(out.tags))
            &&& fields[9] == json::field_text(
                "parent_id"@,
                if out.parent_id is Some {
                    text::decimal(out.parent_id->0 as int)
                } else {
                    "null"@
                },
            )
            &&& fields[10] == json::field_text(
                "sub_issue_ids"@,
                json::array_text(
                    out.sub_issue_ids.map_values(|id: IssueId| text::decimal(id as int)),
                ),
            )
            &&& fields[11] == json::field_text(
                "settled_sub_issues"@,
                text::decimal(out.settled_sub_issues as int),
            )
            &&& fields[12] == json::field_text("created_at"@, json::json_text(out.created_at))
            &&& fields[13] == json::field_text("updated_at"@, json::json_text(out.updated_at))
        }),
{
    lemma_brackets();
}

proof fn lemma_brackets()
    ensures
        "{"@ == seq!['{'],
        "}"@ == seq!['}'],
        "["@ == seq!['['],
        "]"@ == seq![']'],
        ","@ == seq![','],
{
    reveal_strlit("{");
    reveal_strlit("}");
    reveal_strlit("[");
    reveal_strlit("]");
    reveal_strlit(",");
    assert("{"@ =~= seq!['{']);
    assert("}"@ =~= seq!['}']);
    assert("["@ =~= seq!['[']);
    assert("]"@ =~= seq![']']);
    assert(","@ =~= seq![',']);
}

/// A list is an array with one value for each, in order: for Issues their
/// objects, for Tags their names and counts, for strings the strings.
pub proof fn a_list_is_an_array(
    issues: Seq<IssueJsonModel>,
    tags: Seq<TagJsonModel>,
    strings: Seq<Seq<char>>,
    i: int,
)
    ensures
        exists|items: Seq<Seq<char>>|
            items.len() == issues.len() && (0 <= i < issues.len() ==> items[i] == wire::issue_text(
                issues[i],
            )) && wire::issues_text(issues) == seq!['['] + #[trigger] text::joined(items, seq![','])
                + seq![']'],
        exists|items: Seq<Seq<char>>|
            items.len() == tags.len() && (0 <= i < tags.len() ==> items[i] == seq!['{']
                + json::field_text("name"@, json::json_text(tags[i].name)) + seq![',']
                + json::field_text("count"@, text::decimal(tags[i].count as int)) + seq!['}'])
                && wire::tags_text(tags) == seq!['['] + #[trigger] text::joined(items, seq![','])
                + seq![']'],
        exists|items: Seq<Seq<char>>|
            items.len() == strings.len() && (0 <= i < strings.len() ==> items[i] == json::json_text(
                strings[i],
            )) && json::strings_text(strings) == seq!['['] + #[trigger] text::joined(
                items,
                seq![','],
            ) + seq![']'],
{
    lemma_brackets();
    let a = issues.map_values(|one: IssueJsonModel| wire::issue_text(one));
    assert(wire::issues_text(issues) == seq!['['] + text::joined(a, seq![',']) + seq![']']);
    let b = tags.map_values(|one: TagJsonModel| wire::tag_text(one));
    if 0 <= i < tags.len() {
        let name = json::field_text("name"@, json::json_text(tags[i].name));
        let count = json::field_text("count"@, text::decimal(tags[i].count as int));
        text::joining_puts_the_separator_between(seq![name], count, seq![',']);
        text::joining_puts_the_separator_between(seq![name], name, seq![',']);
        assert(seq![name].push(count) =~= seq![name, count]);
        assert(b[i] =~= seq!['{'] + name + seq![','] + count + seq!['}']);
    }
    assert(wire::tags_text(tags) == seq!['['] + text::joined(b, seq![',']) + seq![']']);
    let c = strings.map_values(|s: Seq<char>| json::json_text(s));
    assert(json::strings_text(strings) == seq!['['] + text::joined(c, seq![',']) + seq![']']);
}

/// A text without quotes, backslashes and control characters goes out between
/// quotes as it is.
pub proof fn plain_text_goes_out_as_it_is(s: Seq<char>)
    requires
        forall|i: int|
            0 <= i < s.len() ==> (#[trigger] s[i]) != '"' && s[i] != '\\' && s[i] > '\u{1f}',
    ensures
        json::json_text(s) == seq!['"'] + s + seq!['"'],
{
    lemma_plain(s);
}

proof fn lemma_plain(s: Seq<char>)
    requires
        forall|i: int|
            0 <= i < s.len() ==> (#[trigger] s[i]) != '"' && s[i] != '\\' && s[i] > '\u{1f}',
    ensures
        json::escaped_text(s) == s,
    decreases s.len(),
{
    if s.len() > 0 {
        let rest = s.drop_last();
        assert forall|i: int| 0 <= i < rest.len() implies (#[trigger] rest[i]) != '"' && rest[i]
            != '\\' && rest[i] > '\u{1f}' by {
            assert(rest[i] == s[i]);
        }
        lemma_plain(rest);
        let c = s[s.len() - 1];
        assert(json::escaped_char(c) =~= seq![c]);
        assert(rest + seq![c] =~= s);
    } else {
        assert(json::escaped_text(s) =~= s);
    }
}

// ---------------------------------------------------------------------------
// What a body asks for
// ---------------------------------------------------------------------------

/// What the words of a body are read as: each field under its own name, a Status
/// and a Priority by their names in any case, and each Tag without the white
/// space round it. A body is not read where a Status or a Priority is none, or a
/// Tag could not be one.
pub proof fn a_body_is_read_field_by_field(body: PatchIssueModel)
    ensures
        wire::read_patch(body) is Ok <==> {
            &&& body.status matches Some(s) ==> Status::named(s) is Some
            &&& body.priority matches Some(s) ==> Priority::named(s) is Some
            &&& body.tags matches Some(names) ==> forall|i: int|
                0 <= i < names.len() ==> tag::usable_name(text::trimmed(#[trigger] names[i]))
        },
        wire::read_patch(body) matches Ok(patch) ==> {
            &&& patch.title == body.title
            &&& patch.body == body.body
            &&& patch.size == body.size
            &&& patch.status is Some <==> body.status is Some
            &&& body.status is Some ==> Status::named(body.status->0) == patch.status
            &&& patch.priority is Some <==> body.priority is Some
            &&& body.priority is Some ==> Priority::named(body.priority->0) == patch.priority
            &&& patch.tags is Some <==> body.tags is Some
            &&& body.tags is Some ==> patch.tags->0.len() == body.tags->0.len() && forall|i: int|
                0 <= i < body.tags->0.len() ==> #[trigger] patch.tags->0[i] == text::trimmed(
                    body.tags->0[i],
                )
        },
        wire::read_patch(body) matches Err(err) ==> {
            ||| err.kind == "tag"@ && body.tags is Some && body.tags->0.contains(err.value)
                && !tag::usable_name(text::trimmed(err.value))
            ||| err.kind == "status"@ && body.status == Some(err.value) && Status::named(err.value)
                is None
            ||| err.kind == "priority"@ && body.priority == Some(err.value) && Priority::named(
                err.value,
            ) is None
        },
{
    if let Some(names) = body.tags {
        lemma_first_unusable(names);
    }
}

proof fn lemma_first_unusable(names: Seq<Seq<char>>)
    ensures
        wire::first_unusable(names) is None <==> forall|i: int|
            0 <= i < names.len() ==> tag::usable_name(text::trimmed(#[trigger] names[i])),
        wire::first_unusable(names) matches Some(name) ==> names.contains(name)
            && !tag::usable_name(text::trimmed(name)),
    decreases names.len(),
{
    if names.len() > 0 {
        let rest = names.skip(1);
        lemma_first_unusable(rest);
        if tag::usable_name(text::trimmed(names[0])) {
            if wire::first_unusable(rest) is None {
                assert forall|i: int| 0 <= i < names.len() implies tag::usable_name(
                    text::trimmed(#[trigger] names[i]),
                ) by {
                    if i > 0 {
                        assert(rest[i - 1] == names[i]);
                    }
                }
            } else {
                let name = wire::first_unusable(rest)->0;
                let k = choose|k: int| 0 <= k < rest.len() && rest[k] == name;
                assert(names[k + 1] == name);
            }
            if forall|i: int|
                0 <= i < names.len() ==> tag::usable_name(text::trimmed(#[trigger] names[i])) {
                assert forall|i: int| 0 <= i < rest.len() implies tag::usable_name(
                    text::trimmed(#[trigger] rest[i]),
                ) by {
                    assert(rest[i] == names[i + 1]);
                }
            }
        } else {
            assert(names.contains(names[0]));
        }
    }
}

// ---------------------------------------------------------------------------
// Answers
// ---------------------------------------------------------------------------

/// A failure is told as an object with one field, `error`, that holds the
/// sentence.
pub proof fn a_failure_tells_its_sentence(status: u16, message: Seq<char>)
    ensures
        http::error_response(status, message).status == status,
        http::error_response(status, message).body == vstd::utf8::encode_utf8(
            seq!['{'] + json::field_text("error"@, json::json_text(message)) + seq!['}'],
        ),
        http::error_response(status, message).headers == seq![
            ("Content-Type"@, "application/json"@),
        ],
{
    lemma_brackets();
    text::joining_puts_the_separator_between(
        Seq::empty(),
        json::field_text("error"@, json::json_text(message)),
        seq![','],
    );
}

/// The answer where a write did not happen is 404 for what is not there, 409 for
/// what the rules forbid and 500 for a database that failed, with the sentence
/// that says so.
pub proof fn a_failed_write_is_answered_by_its_kind(id: IssueId, why: Refused, message: Seq<char>)
    ensures
        routes::error_answer(WriteErrorModel::NotFound(id)) == http::error_response(
            404,
            "no issue #"@ + text::decimal(id as int),
        ),
        routes::error_answer(WriteErrorModel::Refused(why)) == http::error_response(
            409,
            why.sentence(),
        ),
        routes::error_answer(WriteErrorModel::Store(message)) == http::error_response(
            500,
            message,
        ),
{
}

/// A request for a path that is none of the API's is answered 404, and one with a
/// method that a path does not take 405 with those it does take.
pub proof fn what_is_not_offered_is_turned_away(
    request: RequestModel,
    issues: Seq<IssueModel>,
    id: IssueId,
    child: IssueId,
    name: Seq<char>,
)
    ensures
        routes::routed(request.path) is None ==> (routes::dispatched(request, issues)
            matches StepModel::Respond(r) && r.status == 404),
        routes::routed(request.path) == Some(RouteModel::Issues) && request.method != "GET"@
            && request.method != "POST"@ ==> routes::dispatched(request, issues)
            == StepModel::Respond(routes::not_allowed_response("GET, POST"@)),
        routes::routed(request.path) == Some(RouteModel::Tags) && request.method != "GET"@
            ==> routes::dispatched(request, issues) == StepModel::Respond(
            routes::not_allowed_response("GET"@),
        ),
        routes::routed(request.path) == Some(RouteModel::Issue(id)) && request.method != "GET"@
            && request.method != "PATCH"@ && request.method != "DELETE"@ ==> routes::dispatched(
            request,
            issues,
        ) == StepModel::Respond(routes::not_allowed_response("GET, PATCH, DELETE"@)),
        (routes::routed(request.path) == Some(RouteModel::IssueTag(id, name)) || routes::routed(
            request.path,
        ) == Some(RouteModel::IssueSubIssue(id, child))) && request.method != "PUT"@
            && request.method != "DELETE"@ ==> routes::dispatched(request, issues)
            == StepModel::Respond(routes::not_allowed_response("PUT, DELETE"@)),
        forall|allow: Seq<char>| #[trigger]
            routes::not_allowed_response(allow).status == 405 && routes::not_allowed_response(
                allow,
            ).headers.last() == ("Allow"@, allow),
{
}

/// What each request that is offered comes to: a `GET` of an Issue answers with
/// it, a `POST` files one and a `PATCH` changes one once their bodies are read, a
/// `DELETE` erases one; a `PUT` of a Tag adds it and a `DELETE` takes it off; a
/// `PUT` of a part attaches it and a `DELETE` frees it.
pub proof fn each_request_does_what_it_says(
    request: RequestModel,
    issues: Seq<IssueModel>,
    id: IssueId,
    child: IssueId,
    name: Seq<char>,
)
    ensures
        routes::routed(request.path) == Some(RouteModel::Issues) && request.method == "POST"@
            ==> routes::dispatched(request, issues) == StepModel::ReadNewIssue,
        routes::routed(request.path) == Some(RouteModel::Issue(id)) && request.method == "PATCH"@
            ==> routes::dispatched(request, issues) == StepModel::ReadPatch(id),
        routes::routed(request.path) == Some(RouteModel::Issue(id)) && request.method == "DELETE"@
            && model::why_not_delete(issues, id) is None ==> routes::dispatched(request, issues)
            == StepModel::Delete(id),
        routes::routed(request.path) == Some(RouteModel::Issues) && request.method == "GET"@
            ==> routes::dispatched(request, issues) == StepModel::Respond(
            routes::listed(request.query, issues),
        ),
        routes::routed(request.path) == Some(RouteModel::Tags) && request.method == "GET"@
            ==> routes::dispatched(request, issues) == StepModel::Respond(
            routes::tags_listed(issues),
        ),
        routes::routed(request.path) == Some(RouteModel::Issue(id)) && request.method == "GET"@
            ==> match model::found(issues, id) {
            None => routes::dispatched(request, issues) == StepModel::Respond(
                http::error_response(404, "no issue #"@ + text::decimal(id as int)),
            ),
            Some(issue) => routes::dispatched(request, issues) matches StepModel::Respond(r)
                && r.status == 200 && r.body == vstd::utf8::encode_utf8(
                wire::issue_text(wire::shown(issue, model::parts(issues, issue.id))),
            ),
        },
        routes::routed(request.path) == Some(RouteModel::Issue(id)) && request.method == "DELETE"@
            && model::found(issues, id) is None ==> routes::dispatched(request, issues)
            == StepModel::Respond(
            http::error_response(404, "no issue #"@ + text::decimal(id as int)),
        ),
        routes::routed(request.path) == Some(RouteModel::IssueTag(id, name)) && tag::usable_name(
            text::trimmed(name),
        ) && request.method == "PUT"@ ==> routes::dispatched(request, issues)
            == routes::change_step(
            model::to_add_tag(issues, id, text::trimmed(name)),
            issues,
        ),
        routes::routed(request.path) == Some(RouteModel::IssueTag(id, name)) && tag::usable_name(
            text::trimmed(name),
        ) && request.method == "DELETE"@ ==> routes::dispatched(request, issues)
            == routes::change_step(
            model::to_remove_tag(issues, id, text::trimmed(name)),
            issues,
        ),
        routes::routed(request.path) == Some(RouteModel::IssueTag(id, name)) && !tag::usable_name(
            text::trimmed(name),
        ) && (request.method == "PUT"@ || request.method == "DELETE"@) ==> (routes::dispatched(
            request,
            issues,
        ) matches StepModel::Respond(r) && r.status == 400),
        routes::routed(request.path) == Some(RouteModel::IssueSubIssue(id, child))
            && request.method == "PUT"@ ==> routes::dispatched(request, issues)
            == routes::change_step(model::to_set_parent(issues, child, Some(id)), issues),
        routes::routed(request.path) == Some(RouteModel::IssueSubIssue(id, child))
            && request.method == "DELETE"@ ==> match model::found(issues, child) {
            None => routes::dispatched(request, issues) == StepModel::Respond(
                http::error_response(404, "no issue #"@ + text::decimal(child as int)),
            ),
            Some(part) => if part.parent_id == Some(id) {
                routes::dispatched(request, issues) == routes::change_step(
                    model::to_set_parent(issues, child, None),
                    issues,
                )
            } else {
                routes::dispatched(request, issues) == StepModel::Respond(
                    http::error_response(
                        409,
                        "#"@ + text::decimal(child as int) + " is not a sub-issue of #"@
                            + text::decimal(id as int),
                    ),
                )
            },
        },
{
    reveal_strlit("GET");
    reveal_strlit("POST");
    reveal_strlit("PATCH");
    reveal_strlit("PUT");
    reveal_strlit("DELETE");
    assert("POST"@[0] != "GET"@[0]);
    assert("PATCH"@.len() != "GET"@.len());
    assert("DELETE"@.len() != "GET"@.len());
    assert("DELETE"@.len() != "PATCH"@.len());
    assert("DELETE"@.len() != "PUT"@.len());
}

/// What a change that goes through comes to: the new version is stored, or where
/// nothing changed the Issue is answered as it is.
pub proof fn a_change_is_stored_or_answered(
    plan: Result<ChangeModel, WriteErrorModel>,
    next: IssueModel,
    issues: Seq<IssueModel>,
)
    ensures
        plan == Ok::<ChangeModel, WriteErrorModel>(ChangeModel::Write(next))
            ==> routes::change_step(plan, issues) == StepModel::Update(next),
        plan == Ok::<ChangeModel, WriteErrorModel>(ChangeModel::Unchanged(next)) ==> (
        routes::change_step(plan, issues) matches StepModel::Respond(r) && r.status == 200
            && r.body == vstd::utf8::encode_utf8(
            wire::issue_text(wire::shown(next, model::parts(issues, next.id))),
        )),
        plan matches Err(err) ==> routes::change_step(plan, issues) == StepModel::Respond(
            routes::error_answer(err),
        ),
{
}

// ---------------------------------------------------------------------------
// Filing and changing over the API
// ---------------------------------------------------------------------------

/// What a body that files an Issue puts in it: the title without the white space
/// round it, and each field the body names, under the parent it names.
pub proof fn a_filed_issue_holds_what_the_body_says(
    new: NewIssueModel,
    issues: Seq<IssueModel>,
    content: Content,
    id: IssueId,
    at: time::Timestamp,
)
    requires
        routes::creating(Ok(new), issues) == StepModel::Insert(content),
        new.rest.title is None,
    ensures
        text::trimmed(new.title).len() > 0,
        new.unknown.len() == 0,
        new.rest.parent_id is None,
        model::stamped(content, id, at).title == text::trimmed(new.title),
        model::stamped(content, id, at).parent_id == new.parent_id,
        model::stamped(content, id, at).body == if new.rest.body is Some {
            new.rest.body->0
        } else {
            Seq::<char>::empty()
        },
        new.rest.status is Some ==> Status::named(new.rest.status->0) == Some(model::stamped(content, id, at).status),
        new.rest.status is None ==> model::stamped(content, id, at).status == Status::Todo,
        new.rest.priority is Some ==> Priority::named(new.rest.priority->0) == Some(
            model::stamped(content, id, at).priority,
        ),
        new.rest.priority is None ==> model::stamped(content, id, at).priority == Priority::Unset,
        new.rest.size is Some ==> model::stamped(content, id, at).size == new.rest.size->0,
        new.rest.size is None ==> model::stamped(content, id, at).size is None,
        new.rest.tags is None ==> model::stamped(content, id, at).tags.len() == 0,
        new.rest.tags is Some ==> {
            &&& forall|i: int|
                0 <= i < new.rest.tags->0.len() ==> effects::holds_key(
                    model::stamped(content, id, at).tags,
                    text::lowercased(text::trimmed(#[trigger] new.rest.tags->0[i])),
                )
            &&& effects::no_key_twice(model::stamped(content, id, at).tags)
        },
        model::stamped(content, id, at).id == id,
        model::stamped(content, id, at).created_at == at,
        model::stamped(content, id, at).updated_at == at,
{
    a_body_is_read_field_by_field(new.rest);
    let patch = wire::read_patch(new.rest)->Ok_0;
    let title = text::trimmed(new.title);
    effects::a_new_issue_holds_what_it_was_filed_with(
        issues,
        title,
        patch,
        new.parent_id,
        id,
        at,
    );
    if new.rest.tags is Some {
        assert forall|i: int| 0 <= i < new.rest.tags->0.len() implies effects::holds_key(
            content.tags,
            text::lowercased(text::trimmed(#[trigger] new.rest.tags->0[i])),
        ) by {
            assert(patch.tags->0[i] == text::trimmed(new.rest.tags->0[i]));
        }
    }
    assert(content.body =~= if new.rest.body is Some {
        new.rest.body->0
    } else {
        Seq::<char>::empty()
    });
}

/// A body files nothing, and is told why with 400, exactly where it cannot be
/// read, holds a field nobody knows, has a blank title, names a parent in the
/// wrong place or a Status, Priority or Tag that is none. Otherwise only the
/// rules of families can refuse it.
pub proof fn a_bad_body_files_nothing(
    body: Result<NewIssueModel, Seq<char>>,
    issues: Seq<IssueModel>,
)
    ensures
        body is Err ==> (routes::creating(body, issues) matches StepModel::Respond(r) && r.status
            == 400),
        body matches Ok(new) ==> {
            let bad = new.unknown.len() > 0 || text::trimmed(new.title).len() == 0
                || new.rest.parent_id is Some || wire::read_patch(new.rest) is Err;
            &&& bad ==> (routes::creating(body, issues) matches StepModel::Respond(r) && r.status
                == 400)
            &&& !bad ==> match model::to_create(
                issues,
                text::trimmed(new.title),
                wire::read_patch(new.rest)->Ok_0,
                new.parent_id,
            ) {
                Ok(content) => routes::creating(body, issues) == StepModel::Insert(content),
                Err(err) => routes::creating(body, issues) == StepModel::Respond(
                    routes::error_answer(err),
                ),
            }
        },
{
}

/// What a body that files nothing, or changes nothing, is told.
pub proof fn a_bad_body_is_told_why(
    why: Seq<char>,
    new: NewIssueModel,
    patch: PatchIssueModel,
    id: IssueId,
    issues: Seq<IssueModel>,
)
    ensures
        routes::creating(Err(why), issues) == StepModel::Respond(
            http::error_response(400, "invalid body: "@ + why),
        ),
        routes::patching(id, Err(why), issues) == StepModel::Respond(
            http::error_response(400, "invalid body: "@ + why),
        ),
        new.unknown.len() > 0 ==> routes::creating(Ok(new), issues) == StepModel::Respond(
            http::error_response(400, "invalid body: unknown field `"@ + new.unknown[0].0 + "`"@),
        ),
        new.unknown.len() == 0 && text::trimmed(new.title).len() == 0 ==> routes::creating(
            Ok(new),
            issues,
        ) == StepModel::Respond(http::error_response(400, "title must not be blank"@)),
        patch.parent_id is Some ==> routes::patching(id, Ok(patch), issues) == StepModel::Respond(
            http::error_response(
                400,
                "parent_id is not patchable; use PUT or DELETE /issues/{parent}/sub-issues/"@
                    + text::decimal(id as int),
            ),
        ),
        patch.parent_id is None ==> (wire::read_patch(patch) matches Err(err) ==> routes::patching(
            id,
            Ok(patch),
            issues,
        ) == StepModel::Respond(
            http::error_response(
                400,
                "unrecognised "@ + err.kind + ": "@ + text::debug_text(err.value),
            ),
        )),
{
}

/// What a body that changes an Issue does to it: each field the body names holds
/// what it names, and every other is what it was.
pub proof fn a_patched_issue_holds_what_the_body_says(
    cur: IssueModel,
    body: PatchIssueModel,
    issues: Seq<IssueModel>,
    next: IssueModel,
)
    requires
        projection::laws::distinct_ids(issues),
        issues.contains(cur),
        routes::patching(cur.id, Ok(body), issues) == StepModel::Update(next),
    ensures
        body.parent_id is None,
        next.id == cur.id,
        next.parent_id == cur.parent_id,
        next.created_at == cur.created_at,
        next.title == if body.title is Some {
            body.title->0
        } else {
            cur.title
        },
        next.body == if body.body is Some {
            body.body->0
        } else {
            cur.body
        },
        body.status is Some ==> Status::named(body.status->0) == Some(next.status),
        body.status is None ==> next.status == cur.status,
        body.priority is Some ==> Priority::named(body.priority->0) == Some(next.priority),
        body.priority is None ==> next.priority == cur.priority,
        next.size == if body.size is Some {
            body.size->0
        } else {
            cur.size
        },
        body.tags is None ==> next.tags == cur.tags,
        body.tags is Some ==> {
            &&& effects::no_key_twice(next.tags)
            &&& forall|i: int|
                0 <= i < body.tags->0.len() ==> effects::holds_key(
                    next.tags,
                    text::lowercased(text::trimmed(#[trigger] body.tags->0[i])),
                )
        },
{
    a_body_is_read_field_by_field(body);
    let patch = wire::read_patch(body)->Ok_0;
    effects::a_patch_writes_exactly_what_it_names(issues, cur, patch, next);
    if body.tags is Some {
        assert forall|i: int| 0 <= i < body.tags->0.len() implies effects::holds_key(
            next.tags,
            text::lowercased(text::trimmed(#[trigger] body.tags->0[i])),
        ) by {
            assert(patch.tags->0[i] == text::trimmed(body.tags->0[i]));
        }
    }
}

/// A body changes nothing, and is told why with 400, where it cannot be read,
/// names a parent, or a Status, Priority or Tag that is none.
pub proof fn a_bad_body_changes_nothing(
    id: IssueId,
    body: Result<PatchIssueModel, Seq<char>>,
    issues: Seq<IssueModel>,
)
    ensures
        body is Err ==> (routes::patching(id, body, issues) matches StepModel::Respond(r)
            && r.status == 400),
        body matches Ok(patch) ==> if patch.parent_id is Some || wire::read_patch(patch) is Err {
            routes::patching(id, body, issues) matches StepModel::Respond(r) && r.status == 400
        } else {
            routes::patching(id, body, issues) == routes::change_step(
                model::to_patch(issues, id, wire::read_patch(patch)->Ok_0),
                issues,
            )
        },
{
}

// ---------------------------------------------------------------------------
// Listings
// ---------------------------------------------------------------------------

/// What stands under a name in a list of pairs is what stands beside its first
/// place.
pub proof fn the_first_of_a_name_counts(
    list: Seq<(Seq<char>, Seq<char>)>,
    name: Seq<char>,
    value: Seq<char>,
)
    ensures
        http::lookup(list, name) == Some(value) <==> exists|i: int|
            0 <= i < list.len() && #[trigger] list[i] == (name, value) && forall|j: int|
                0 <= j < i ==> (#[trigger] list[j]).0 != name,
        http::lookup(list, name) is None <==> forall|j: int|
            0 <= j < list.len() ==> (#[trigger] list[j]).0 != name,
    decreases list.len(),
{
    if list.len() > 0 {
        if list[0].0 == name {
            if list[0].1 == value {
                assert(list[0] == (name, value));
            }
        } else {
            let rest = list.skip(1);
            the_first_of_a_name_counts(rest, name, value);
            if http::lookup(rest, name) == Some(value) {
                let i = choose|i: int|
                    0 <= i < rest.len() && #[trigger] rest[i] == (name, value) && forall|j: int|
                        0 <= j < i ==> (#[trigger] rest[j]).0 != name;
                assert(list[i + 1] == (name, value));
                assert forall|j: int| 0 <= j < i + 1 implies (#[trigger] list[j]).0 != name by {
                    if j > 0 {
                        assert(rest[j - 1] == list[j]);
                    }
                }
            }
            if exists|i: int|
                0 <= i < list.len() && #[trigger] list[i] == (name, value) && forall|j: int|
                    0 <= j < i ==> (#[trigger] list[j]).0 != name {
                let i = choose|i: int|
                    0 <= i < list.len() && #[trigger] list[i] == (name, value) && forall|j: int|
                        0 <= j < i ==> (#[trigger] list[j]).0 != name;
                assert(rest[i - 1] == (name, value));
                assert forall|j: int| 0 <= j < i - 1 implies (#[trigger] rest[j]).0 != name by {
                    assert(rest[j] == list[j + 1]);
                }
            }
            if http::lookup(rest, name) is None {
                assert forall|j: int| 0 <= j < list.len() implies (#[trigger] list[j]).0
                    != name by {
                    if j > 0 {
                        assert(rest[j - 1] == list[j]);
                    }
                }
            }
            if forall|j: int| 0 <= j < list.len() ==> (#[trigger] list[j]).0 != name {
                assert forall|j: int| 0 <= j < rest.len() implies (#[trigger] rest[j]).0
                    != name by {
                    assert(rest[j] == list[j + 1]);
                }
            }
        }
    }
}

/// A listing narrows by `status`, `tag`, `parent` and `q`, each if it is there,
/// and is turned away with 400 where one of the first three means nothing.
pub proof fn a_listing_narrows_by_what_is_asked(
    query: Seq<(Seq<char>, Seq<char>)>,
    issues: Seq<IssueModel>,
    asked: NarrowingModel,
)
    ensures
        routes::asked_for(query) == Ok::<NarrowingModel, Seq<char>>(asked) ==> {
            &&& asked.title == http::lookup(query, "q"@)
            &&& http::lookup(query, "status"@) is None ==> asked.view == View::All
            &&& http::lookup(query, "status"@) matches Some(s) ==> (Status::named(s) is Some
                && asked.view == View::WithStatus(Status::named(s)->0))
            &&& http::lookup(query, "tag"@) is None ==> asked.tag is None
            &&& http::lookup(query, "tag"@) matches Some(s) ==> asked.tag == Some(
                text::trimmed(s),
            )
            &&& http::lookup(query, "parent"@) is None ==> asked.parent is None
            &&& http::lookup(query, "parent"@) matches Some(s) ==> (asked.parent is Some
                && ParentFilter::named(s) == asked.parent)
            &&& routes::listed(query, issues).status == 200
        },
        routes::asked_for(query) is Err <==> {
            ||| (http::lookup(query, "status"@) matches Some(s) && Status::named(s) is None)
            ||| (http::lookup(query, "tag"@) matches Some(s) && !tag::usable_name(
                text::trimmed(s),
            ))
            ||| (http::lookup(query, "parent"@) matches Some(s) && ParentFilter::named(s) is None)
        },
        routes::asked_for(query) is Err ==> routes::listed(query, issues).status == 400,
{
}

/// A listing answers with the Issues that the narrowing keeps, in their order,
/// each as it goes out among all Issues.
pub proof fn a_listing_answers_with_what_is_kept(
    query: Seq<(Seq<char>, Seq<char>)>,
    issues: Seq<IssueModel>,
    asked: NarrowingModel,
    i: int,
)
    requires
        routes::asked_for(query) == Ok::<NarrowingModel, Seq<char>>(asked),
    ensures
        exists|out: Seq<IssueJsonModel>|
            out.len() == asked.selected(issues).len() && (0 <= i < out.len() ==> out[i]
                == wire::shown(
                asked.selected(issues)[i],
                model::parts(issues, asked.selected(issues)[i].id),
            )) && routes::listed(query, issues).body == #[trigger] vstd::utf8::encode_utf8(
                wire::issues_text(out),
            ),
{
    let out = asked.selected(issues).map_values(|i: IssueModel| routes::shown_among(i, issues));
    assert(routes::listed(query, issues).body == vstd::utf8::encode_utf8(wire::issues_text(out)));
}

/// The list of Tags names every Tag in use once, in the order of their keys, each
/// with how many Issues carry it.
pub proof fn the_tag_list_counts_what_carries_each(issues: Seq<IssueModel>, i: int)
    requires
        issues.len() <= usize::MAX,
    ensures
        exists|out: Seq<TagJsonModel>|
            out.len() == model::vocabulary(issues).len() && (0 <= i < out.len() ==> out[i].name
                == model::vocabulary(issues)[i] && out[i].count == model::with_tag(
                issues,
                model::vocabulary(issues)[i],
            ).len()) && routes::tags_listed(issues).body == #[trigger] vstd::utf8::encode_utf8(
                wire::tags_text(out),
            ),
        routes::tags_listed(issues).status == 200,
{
    let out = model::vocabulary(issues).map_values(
        |name: Seq<char>|
            TagJsonModel { name, count: model::with_tag(issues, name).len() as usize },
    );
    if 0 <= i < out.len() {
        lemma_filter_length(
            issues,
            |a: IssueModel| tag::has_tag(a.tags, model::vocabulary(issues)[i]),
        );
    }
    assert(routes::tags_listed(issues).body == vstd::utf8::encode_utf8(wire::tags_text(out)));
}

// ---------------------------------------------------------------------------
// Who is let in
// ---------------------------------------------------------------------------

/// A request is let in exactly if no header of it is `origin`, its first `host`
/// is a loopback spelling, and its first `authorization` is `Bearer` and the
/// token. Any other is told so, with 403 for the first two and 401 for the last.
pub proof fn only_a_local_caller_with_the_token_is_let_in(
    request: RequestModel,
    token: Seq<char>,
    host: Seq<char>,
)
    requires
        token.len() > 0,
    ensures
        auth::admitted(request, token) <==> {
            &&& forall|j: int|
                0 <= j < request.headers.len() ==> (#[trigger] request.headers[j]).0 != "origin"@
            &&& (http::lookup(request.headers, "host"@) matches Some(h) && auth::names_loopback(h))
            &&& http::lookup(request.headers, "authorization"@) == Some("Bearer "@ + token)
        },
        http::lookup(request.headers, "origin"@) is Some ==> auth::refusal(request).status == 403,
        http::lookup(request.headers, "host"@) is None ==> auth::refusal(request).status == 403,
        http::lookup(request.headers, "host"@) == Some(host) && !auth::names_loopback(host)
            ==> auth::refusal(request).status == 403,
        http::lookup(request.headers, "origin"@) is None && http::lookup(
            request.headers,
            "host"@,
        ) == Some(host) && auth::names_loopback(host) ==> auth::refusal(request).status == 401,
{
    reveal_strlit("Bearer ");
    the_first_of_a_name_counts(request.headers, "origin"@, token);
    if let Some(value) = http::lookup(request.headers, "authorization"@) {
        if text::starts_with(value, "Bearer "@) {
            assert(value =~= "Bearer "@ + value.skip(7));
        }
        if value == "Bearer "@ + token {
            assert(value.take(7) =~= "Bearer "@);
            assert(value.skip(7) =~= token);
        }
    }
}

/// A loopback spelling is one of three names, bare or in brackets, alone or with
/// a colon and a port behind it, where a port is nothing or a number below 65536;
/// but bare `::1` needs the colon.
pub proof fn a_loopback_spelling_is_a_name_and_a_port(host: Seq<char>)
    ensures
        auth::names_loopback(host) <==> {
            ||| host == "127.0.0.1"@
            ||| host == "localhost"@
            ||| host == "[127.0.0.1]"@
            ||| host == "[localhost]"@
            ||| host == "[::1]"@
            ||| exists|port: Seq<char>| #[trigger]
                auth::is_port(port) && {
                    ||| host == "127.0.0.1"@ + ":"@ + port
                    ||| host == "localhost"@ + ":"@ + port
                    ||| host == "::1"@ + ":"@ + port
                    ||| host == "[127.0.0.1]"@ + ":"@ + port
                    ||| host == "[localhost]"@ + ":"@ + port
                    ||| host == "[::1]"@ + ":"@ + port
                }
        },
        forall|port: Seq<char>| #[trigger]
            auth::is_port(port) <==> port.len() == 0 || ((forall|i: int|
                0 <= i < port.len() ==> '0' <= #[trigger] port[i] <= '9') && text::value(port)
                < 65_536),
{
    lemma_with_port(host, "127.0.0.1"@);
    lemma_with_port(host, "localhost"@);
    lemma_with_port(host, "::1"@);
    lemma_with_port(host, "[127.0.0.1]"@);
    lemma_with_port(host, "[localhost]"@);
    lemma_with_port(host, "[::1]"@);
    assert forall|port: Seq<char>| #[trigger]
        auth::is_port(port) <==> port.len() == 0 || ((forall|i: int|
            0 <= i < port.len() ==> '0' <= #[trigger] port[i] <= '9') && text::value(port)
            < 65_536) by {
        if port.len() > 0 && (forall|i: int|
            0 <= i < port.len() ==> '0' <= #[trigger] port[i] <= '9') {
            assert forall|i: int| 0 <= i < port.len() implies text::is_digit(
                #[trigger] port[i],
            ) by {}
        }
        if text::all_digits(port) {
            assert forall|i: int| 0 <= i < port.len() implies '0' <= #[trigger] port[i]
                <= '9' by {
                assert(text::is_digit(port[i]));
            }
        }
    }
}

proof fn lemma_with_port(host: Seq<char>, name: Seq<char>)
    ensures
        auth::is_with_port(host, name) <==> exists|port: Seq<char>| #[trigger]
            auth::is_port(port) && host == name + ":"@ + port,
{
    let start = name + ":"@;
    if auth::is_with_port(host, name) {
        let port = host.skip(start.len() as int);
        assert(host =~= start + port);
        assert(auth::is_port(port));
    }
    if exists|port: Seq<char>| #[trigger] auth::is_port(port) && host == name + ":"@ + port {
        let port = choose|port: Seq<char>| #[trigger]
            auth::is_port(port) && host == name + ":"@ + port;
        assert(host.take(start.len() as int) =~= start);
        assert(host.skip(start.len() as int) =~= port);
    }
}

// ---------------------------------------------------------------------------
// Requests and responses
// ---------------------------------------------------------------------------

/// What each answer is called.
pub proof fn a_status_has_its_reason()
    ensures
        http::reason_text(200) == "OK"@,
        http::reason_text(201) == "Created"@,
        http::reason_text(204) == "No Content"@,
        http::reason_text(400) == "Bad Request"@,
        http::reason_text(401) == "Unauthorized"@,
        http::reason_text(403) == "Forbidden"@,
        http::reason_text(404) == "Not Found"@,
        http::reason_text(405) == "Method Not Allowed"@,
        http::reason_text(409) == "Conflict"@,
        http::reason_text(413) == "Payload Too Large"@,
        http::reason_text(500) == "Internal Server Error"@,
        http::reason_text(503) == "Service Unavailable"@,
{
}

/// A response begins with its status, has a line for each header, says how many
/// bytes its body has and that the connection is closed, and ends with its body.
pub proof fn a_response_is_what_it_says(response: ResponseModel, i: int)
    ensures
        ({
            let head = http::head_text(response);
            &&& http::response_bytes(response) == vstd::utf8::encode_utf8(head) + response.body
            &&& laws::stands_in(
                "HTTP/1.1 "@ + text::decimal(response.status as int) + " "@ + http::reason_text(
                    response.status,
                ) + "\r\n"@,
                head,
            )
            &&& 0 <= i < response.headers.len() ==> laws::stands_in(
                response.headers[i].0 + ": "@ + response.headers[i].1 + "\r\n"@,
                head,
            )
            &&& laws::stands_in(
                "Content-Length: "@ + text::decimal(response.body.len() as int) + "\r\n"@
                    + "Connection: close\r\n\r\n"@,
                head,
            )
        }),
{
    let head = http::head_text(response);
    let none = Seq::<char>::empty();
    let first = "HTTP/1.1 "@ + text::decimal(response.status as int) + " "@ + http::reason_text(
        response.status,
    ) + "\r\n"@;
    let lines = http::header_lines(response.headers);
    let length = "Content-Length: "@ + text::decimal(response.body.len() as int) + "\r\n"@;
    let last = length + "Connection: close\r\n\r\n"@;
    assert(head =~= first + lines + last);
    assert(first + lines + last =~= none + first + (lines + last));
    assert(first + lines + last =~= (first + lines) + last + none);
    if 0 <= i < response.headers.len() {
        lemma_header_line(response.headers, i);
        laws::lemma_stands_within(
            response.headers[i].0 + ": "@ + response.headers[i].1 + "\r\n"@,
            first,
            lines,
            last,
        );
    }
}

proof fn lemma_header_line(headers: Seq<(Seq<char>, Seq<char>)>, i: int)
    requires
        0 <= i < headers.len(),
    ensures
        laws::stands_in(
            headers[i].0 + ": "@ + headers[i].1 + "\r\n"@,
            http::header_lines(headers),
        ),
    decreases headers.len(),
{
    let none = Seq::<char>::empty();
    let rest = headers.drop_last();
    let before = http::header_lines(rest);
    let last = headers.last();
    let line = last.0 + ": "@ + last.1 + "\r\n"@;
    assert(http::header_lines(headers) =~= before + line + none);
    if i < rest.len() {
        lemma_header_line(rest, i);
        assert(rest[i] == headers[i]);
        laws::lemma_stands_within(
            headers[i].0 + ": "@ + headers[i].1 + "\r\n"@,
            none,
            before,
            line,
        );
        assert(none + before + line =~= before + line + none);
    }
}

/// How many bytes a body has is what `content-length` says, and none without it.
/// More than a mebibyte is refused, and so is a number that is none and a body
/// that comes in chunks.
pub proof fn a_body_has_the_length_it_announces(headers: Seq<(Seq<char>, Seq<char>)>)
    ensures
        http::lookup(headers, "transfer-encoding"@) is Some ==> http::announced_length(headers)
            is Err,
        http::lookup(headers, "transfer-encoding"@) is None && http::lookup(
            headers,
            "content-length"@,
        ) is None ==> http::announced_length(headers) == Ok::<nat, Seq<char>>(0),
        http::lookup(headers, "transfer-encoding"@) is None ==> (http::lookup(
            headers,
            "content-length"@,
        ) matches Some(value) ==> match text::number(value, usize::MAX as nat) {
            Some(n) => if n <= 1_048_576 {
                http::announced_length(headers) == Ok::<nat, Seq<char>>(n)
            } else {
                http::announced_length(headers) is Err
            },
            None => http::announced_length(headers) is Err,
        }),
{
}

/// A request is complete once every byte its head announces is there. Its method
/// is in capitals, its header names are in small letters with the white space
/// taken off their values, and its body is the bytes behind the head, as many as
/// were announced.
pub proof fn a_request_is_read_whole(buffer: Seq<u8>, head: http::HeadModel, n: nat, i: int)
    requires
        http::announced_length(http::tidy_headers(head.headers)) == Ok::<nat, Seq<char>>(n),
    ensures
        ({
            let read = http::assembled(buffer, HeadReadModel::Complete(head));
            &&& buffer.len() < head.len + n <==> read == ParsedModel::Incomplete
            &&& buffer.len() >= head.len + n ==> (read matches ParsedModel::Complete(request) && {
                &&& head.method matches Some(method) ==> request.method == text::ascii_uppered(
                    method,
                )
                &&& head.target matches Some(target) ==> request.path == http::path_of(target)
                    && request.query == http::query_of(target)
                &&& request.body.len() == n
                &&& 0 <= i < n ==> request.body[i] == buffer[head.len + i]
                &&& request.headers.len() == head.headers.len()
                &&& 0 <= i < head.headers.len() ==> request.headers[i] == (
                    text::ascii_lowered(head.headers[i].0),
                    text::trimmed(text::lossy_text(head.headers[i].1)),
                )
            })
        }),
{
}

/// What is no request is told so with 400, and one that does not end within its
/// limit with 413; until then more is waited for.
pub proof fn what_is_no_request_is_turned_away(
    why: Seq<char>,
    request: RequestModel,
    len: int,
    buffer: Seq<u8>,
)
    ensures
        server::judged(ParsedModel::Complete(request), len) == ReadingModel::Ready(request),
        server::judged(ParsedModel::Malformed(why), len) == ReadingModel::Refuse(
            http::error_response(400, why),
        ),
        server::judged(ParsedModel::Incomplete, len) matches ReadingModel::Refuse(r) ==> len
            > 1_114_112 && r.status == 413,
        len <= 1_114_112 ==> server::judged(ParsedModel::Incomplete, len) == ReadingModel::More,
        len > 1_114_112 ==> server::judged(ParsedModel::Incomplete, len) is Refuse,
        http::assembled(buffer, HeadReadModel::Partial) == ParsedModel::Incomplete,
        http::assembled(buffer, HeadReadModel::Invalid) is Malformed,
{
}

/// A pair of a query is a name and a value: what stands before its first `=` and
/// what stands behind it, or a name alone.
pub proof fn a_query_pair_is_a_name_and_a_value(name: Seq<char>, value: Seq<char>)
    requires
        forall|i: int| 0 <= i < name.len() ==> #[trigger] name[i] != '=',
    ensures
        http::parsed_pair(name + seq!['='] + value) == (
            percent::decoded_plus(name),
            percent::decoded_plus(value),
        ),
        http::parsed_pair(name) == (percent::decoded_plus(name), Seq::<char>::empty()),
{
    let pair = name + seq!['='] + value;
    assert forall|i: int| 0 <= i < name.len() implies #[trigger] pair[i] != '=' by {
        assert(pair[i] == name[i]);
    }
    assert(pair[name.len() as int] == '=');
    text::lemma_first_index_is(pair, '=', name.len() as int);
    text::lemma_first_index_is(name, '=', name.len() as int);
    assert(text::before_first(pair, '=') =~= name);
    assert(text::after_first(pair, '=') =~= value);
}

/// What a route is spelled as, taken apart: an Issue is addressed by its number,
/// and nothing that is not a number addresses one.
pub proof fn an_issue_is_addressed_by_its_number(word: Seq<char>, id: IssueId)
    requires
        forall|i: int| 0 <= i < word.len() ==> #[trigger] word[i] != '/',
        word.len() > 0,
    ensures
        routes::routed("/issues/"@ + word) == Some(RouteModel::Issue(id)) <==> text::integer(word)
            == Some(id as int),
        text::integer(word) is None ==> routes::routed("/issues/"@ + word) is None,
{
    reveal_strlit("/issues/");
    reveal_strlit("/issues");
    reveal_strlit("/tags");
    let path = "/issues/"@ + word;
    assert(path.len() > 8);
    assert(path.take(8) =~= "/issues/"@);
    assert(path.skip(8) =~= word);
    text::lemma_first_index_is(word, '/', word.len() as int);
    assert(text::before_first(word, '/') =~= word);
    text::lemma_integer_fits(word);
}

/// The address file says the port and the token.
pub proof fn the_address_is_a_port_and_a_token(port: u16, token: Seq<char>)
    ensures
        server::address_text(port, token) == seq!['{'] + json::field_text(
            "port"@,
            text::decimal(port as int),
        ) + seq![','] + json::field_text("token"@, json::json_text(token)) + seq!['}'],
{
    lemma_brackets();
    let a = json::field_text("port"@, text::decimal(port as int));
    let b = json::field_text("token"@, json::json_text(token));
    text::joining_puts_the_separator_between(seq![a], b, seq![',']);
    text::joining_puts_the_separator_between(seq![a], a, seq![',']);
    assert(seq![a].push(b) =~= seq![a, b]);
    assert(server::address_text(port, token) =~= seq!['{'] + a + seq![','] + b + seq!['}']);
}

/// An Issue is answered with its JSON under the status given, a header is added
/// behind those that are there, and an empty answer has neither headers nor body.
pub proof fn an_answer_is_built_as_it_says(
    status: u16,
    issue: IssueModel,
    issues: Seq<IssueModel>,
    response: ResponseModel,
    name: Seq<char>,
    value: Seq<char>,
)
    ensures
        ({
            let r = routes::issue_response(status, issue, issues);
            &&& r.status == status
            &&& r.headers == seq![("Content-Type"@, "application/json"@)]
            &&& r.body == vstd::utf8::encode_utf8(
                wire::issue_text(wire::shown(issue, model::parts(issues, issue.id))),
            )
        }),
        http::headed(response, name, value).status == response.status,
        http::headed(response, name, value).body == response.body,
        http::headed(response, name, value).headers == response.headers + seq![(name, value)],
        http::empty_response(status).status == status,
        http::empty_response(status).headers.len() == 0,
        http::empty_response(status).body.len() == 0,
{
    assert(response.headers.push((name, value)) =~= response.headers + seq![(name, value)]);
}

/// A request that is let in is dispatched, and any other is turned away.
pub proof fn what_is_let_in_is_dispatched(
    request: RequestModel,
    token: Seq<char>,
    issues: Seq<IssueModel>,
)
    ensures
        auth::admitted(request, token) ==> crate::api::handled(request, token, issues)
            == routes::dispatched(request, issues),
        !auth::admitted(request, token) ==> crate::api::handled(request, token, issues)
            == StepModel::Respond(auth::refusal(request)),
{
}

} // verus!
