//! What each command asks of the API, and what becomes of the answers.

use vstd::prelude::*;
use vstd::view::View as _;

use crate::api::http;
use crate::api::routes;
use crate::api::routes::RouteModel;
use crate::api::wire;
use crate::api::wire::{IssueJsonModel, NewIssueModel, PatchIssueModel, TagJsonModel};
use crate::cli::args::{BodyModel, ChangesModel, CommandModel, FiltersModel, NewModel};
use crate::cli::session;
use crate::cli::session::{ActionModel, EventModel, FoundModel, StateModel, Want};
use crate::cli::FailureModel;
use crate::client;
use crate::domain::kinds::{IssueId, Priority, Status};
use crate::domain::laws;
use crate::domain::narrowing::{NarrowingModel, ParentFilter};
use crate::domain::tag;
use crate::domain::view::View;
use crate::json;
use crate::operations::{CallModel, MethodModel};
use crate::protocol;
use crate::text;

verus! {

/// Whether a call is made with a method, and is routed to something.
pub open spec fn reaches(call: CallModel, word: Seq<char>, route: RouteModel) -> bool {
    call.method.word() == word && routes::routed(http::path_of(call.path)) == Some(route)
}

/// Whether a request carries a text in its body.
pub open spec fn brings(call: CallModel, body: Seq<char>) -> bool {
    call.method == MethodModel::Post(body) || call.method == MethodModel::Patch(body)
}

/// `show` gets the Issue, `rm --force` deletes it, `tags` gets the Tags, and a
/// plain `rm` first gets the Issue it is about to ask after, but only where
/// somebody can answer.
pub proof fn a_command_asks_for_what_it_names(
    id: IssueId,
    stdin: Seq<char>,
    terminal: bool,
    version: Seq<char>,
)
    ensures
        session::started(CommandModel::Show(id), stdin, terminal, version).1 matches
            ActionModel::Send(call, want) && reaches(call, "GET"@, RouteModel::Issue(id)) && want
            == Want::Issue,
        session::started(CommandModel::Tags, stdin, terminal, version).1 matches
            ActionModel::Send(call, want) && reaches(call, "GET"@, RouteModel::Tags) && want
            == Want::Tags,
        session::started(
            CommandModel::Remove { id, force: true },
            stdin,
            terminal,
            version,
        ).1 matches ActionModel::Send(call, want) && reaches(call, "DELETE"@, RouteModel::Issue(id)),
        terminal ==> (session::started(
            CommandModel::Remove { id, force: false },
            stdin,
            terminal,
            version,
        ).1 matches ActionModel::Send(call, want) && reaches(call, "GET"@, RouteModel::Issue(id))),
        !terminal ==> (session::started(
            CommandModel::Remove { id, force: false },
            stdin,
            terminal,
            version,
        ).1 matches ActionModel::Fail(FailureModel::Usage(_))),
        session::started(CommandModel::Version, stdin, terminal, version).1 == ActionModel::Say(
            "issue "@ + version + "\n"@,
        ),
{
    protocol::an_issue_path_addresses_its_issue(id);
    protocol::the_collections_are_addressed_as_spelled();
}

/// `list` gets the Issues, and what the API reads of the request is what was
/// asked: that Status, that Tag, that parent and that text.
pub proof fn a_list_asks_for_its_filters(
    filters: FiltersModel,
    stdin: Seq<char>,
    terminal: bool,
    version: Seq<char>,
)
    requires
        filters.tag matches Some(name) ==> tag::usable_name(name) && text::trimmed(name) == name,
    ensures
        session::started(CommandModel::List(filters), stdin, terminal, version).1 matches
            ActionModel::Send(call, want) && reaches(call, "GET"@, RouteModel::Issues) && want
            == Want::Issues && (routes::asked_for(http::query_of(call.path)) matches Ok(asked)
            && asked.tag == filters.tag && asked.parent == filters.parent && asked.title
            == filters.search && (filters.status is None ==> asked.view == View::All) && (
        filters.status matches Some(status) ==> asked.view == View::WithStatus(status))),
{
    protocol::a_listing_is_read_as_it_was_asked(session::narrowed(filters));
}

/// What a body option comes to: the text itself, or what was on standard input.
pub open spec fn typed_or_piped(
    option: Option<BodyModel>,
    stdin: Seq<char>,
    sent: Option<Seq<char>>,
) -> bool {
    match option {
        None => sent is None,
        Some(BodyModel::Text(typed)) => sent == Some(typed),
        Some(BodyModel::Stdin) => sent == Some(stdin),
    }
}

/// `new` posts what it was told and nothing else.
pub proof fn a_new_issue_is_posted_as_told(
    new: NewModel,
    stdin: Seq<char>,
    terminal: bool,
    version: Seq<char>,
)
    ensures
        session::started(CommandModel::New(new), stdin, terminal, version).1 matches
            ActionModel::Send(call, want) && reaches(call, "POST"@, RouteModel::Issues) && want
            == Want::Issue && exists|body: NewIssueModel| #[trigger]
            brings(call, wire::new_text(body)) && {
                &&& body.title == new.title
                &&& body.parent_id == new.parent
                &&& body.unknown.len() == 0
                &&& body.rest.title is None
                &&& body.rest.parent_id is None
                &&& typed_or_piped(new.body, stdin, body.rest.body)
                &&& body.rest.status is Some <==> new.status is Some
                &&& new.status matches Some(status) ==> Status::named(body.rest.status->0) == Some(
                    status,
                )
                &&& body.rest.priority is Some <==> new.priority is Some
                &&& new.priority matches Some(priority) ==> Priority::named(body.rest.priority->0)
                    == Some(priority)
                &&& new.size is None ==> body.rest.size is None
                &&& new.size is Some ==> body.rest.size == Some(new.size)
                &&& new.tags.len() == 0 ==> body.rest.tags is None
                &&& new.tags.len() > 0 ==> body.rest.tags == Some(new.tags)
            },
{
    protocol::the_collections_are_addressed_as_spelled();
    let body = session::new_body(new, stdin);
    if let Some(status) = new.status {
        crate::domain::kinds::a_status_reads_back(status);
    }
    if let Some(priority) = new.priority {
        crate::domain::kinds::a_priority_reads_back(priority);
    }
    let sent = session::started(CommandModel::New(new), stdin, terminal, version).1;
    assert(brings(sent->Send_0, wire::new_text(body)));
}

/// `set` patches what it was told and nothing else.
pub proof fn a_change_is_patched_as_told(
    id: IssueId,
    changes: ChangesModel,
    stdin: Seq<char>,
    terminal: bool,
    version: Seq<char>,
)
    ensures
        session::started(CommandModel::Change(id, changes), stdin, terminal, version).1 matches
            ActionModel::Send(call, want) && reaches(call, "PATCH"@, RouteModel::Issue(id)) && want
            == Want::Issue && exists|body: PatchIssueModel| #[trigger]
            brings(call, wire::patch_text(body)) && {
                &&& body.title == changes.title
                &&& body.tags is None
                &&& body.parent_id is None
                &&& typed_or_piped(changes.body, stdin, body.body)
                &&& body.status is Some <==> changes.status is Some
                &&& changes.status matches Some(status) ==> Status::named(body.status->0) == Some(
                    status,
                )
                &&& body.priority is Some <==> changes.priority is Some
                &&& changes.priority matches Some(priority) ==> Priority::named(body.priority->0)
                    == Some(priority)
                &&& body.size == changes.size
            },
{
    protocol::an_issue_path_addresses_its_issue(id);
    let body = session::patch_body(changes, stdin);
    if let Some(status) = changes.status {
        crate::domain::kinds::a_status_reads_back(status);
    }
    if let Some(priority) = changes.priority {
        crate::domain::kinds::a_priority_reads_back(priority);
    }
    let sent = session::started(CommandModel::Change(id, changes), stdin, terminal, version).1;
    assert(brings(sent->Send_0, wire::patch_text(body)));
}

/// Standard input is read exactly where a body option says so.
pub proof fn standard_input_is_read_on_request(command: CommandModel)
    ensures
        session::wants_stdin(command) <==> {
            ||| (command matches CommandModel::New(new) && new.body == Some(BodyModel::Stdin))
            ||| (command matches CommandModel::Change(_, changes) && changes.body == Some(
                BodyModel::Stdin,
            ))
        },
{
}

// ---------------------------------------------------------------------------
// Several of a kind
// ---------------------------------------------------------------------------

/// `tag` puts or deletes each Tag it names, in their order: the first at once,
/// the rest left for later.
pub proof fn tags_go_out_in_order(
    id: IssueId,
    names: Seq<Seq<char>>,
    add: bool,
    stdin: Seq<char>,
    terminal: bool,
    version: Seq<char>,
    i: int,
)
    requires
        forall|k: int| 0 <= k < names.len() ==> (#[trigger] names[k]).len() > 0,
        names.len() > 0,
    ensures
        ({
            let word = if add {
                "PUT"@
            } else {
                "DELETE"@
            };
            let (state, action) = session::started(
                CommandModel::Tag { id, names, add },
                stdin,
                terminal,
                version,
            );
            &&& action matches ActionModel::Send(call, want) && reaches(
                call,
                word,
                RouteModel::IssueTag(id, names[0]),
            ) && (names.len() == 1 <==> want == Want::Issue)
            &&& state matches StateModel::Applying { applied, name, left, add: kept }
                && applied.len() == 0 && name == names[0] && kept == add && left.len()
                == names.len() - 1 && (0 <= i < left.len() ==> left[i].name == names[i + 1]
                && reaches(left[i].call, word, RouteModel::IssueTag(id, names[i + 1])))
        }),
{
    protocol::a_tag_path_addresses_its_tag(id, names[0]);
    if 0 <= i < names.len() - 1 {
        protocol::a_tag_path_addresses_its_tag(id, names[i + 1]);
    }
}

/// `sub` puts or deletes each part it names, in their order: the first at once,
/// the rest left for later.
pub proof fn parts_go_out_in_order(
    id: IssueId,
    children: Seq<IssueId>,
    add: bool,
    stdin: Seq<char>,
    terminal: bool,
    version: Seq<char>,
    i: int,
)
    requires
        children.len() > 0,
    ensures
        ({
            let word = if add {
                "PUT"@
            } else {
                "DELETE"@
            };
            let (state, action) = session::started(
                CommandModel::Sub { id, children, add },
                stdin,
                terminal,
                version,
            );
            &&& action matches ActionModel::Send(call, want) && reaches(
                call,
                word,
                RouteModel::IssueSubIssue(id, children[0]),
            ) && (children.len() == 1 <==> want == Want::Issue)
            &&& state matches StateModel::Applying { applied, name, left, add: kept }
                && applied.len() == 0 && name == "#"@ + text::decimal(children[0] as int) && kept
                == add && left.len() == children.len() - 1 && (0 <= i < left.len() ==> left[i].name
                == "#"@ + text::decimal(children[i + 1] as int) && reaches(
                left[i].call,
                word,
                RouteModel::IssueSubIssue(id, children[i + 1]),
            ))
        }),
{
    protocol::a_sub_issue_path_addresses_its_child(id, children[0]);
    if 0 <= i < children.len() - 1 {
        protocol::a_sub_issue_path_addresses_its_child(id, children[i + 1]);
    }
}

/// What is left goes out one by one, and what went through is remembered. One
/// that is refused stops the rest, and what it says names it, why, and what had
/// gone through before.
pub proof fn each_of_several_takes_its_turn(
    applied: Seq<Seq<char>>,
    name: Seq<char>,
    left: Seq<session::TaskModel>,
    add: bool,
    json: bool,
    status: u16,
    body: Seq<u8>,
    sentence: Seq<char>,
    found: FoundModel,
)
    ensures
        ({
            let state = StateModel::Applying { applied, name, left, add };
            let (next, action) = session::stepped(
                state,
                json,
                EventModel::Replied { status, body, sentence: Some(sentence), found },
            );
            &&& 200 <= status < 300 && left.len() > 0 ==> {
                &&& action matches ActionModel::Send(call, want) && call == left[0].call && (
                left.len() == 1 <==> want == Want::Issue)
                &&& next == StateModel::Applying {
                    applied: applied.push(name),
                    name: left[0].name,
                    left: left.skip(1),
                    add,
                }
            }
            &&& !(200 <= status < 300) ==> next == StateModel::Done && (action matches
                ActionModel::Fail(FailureModel::Failed(told)) && {
                &&& applied.len() == 0 ==> told == name + ": "@ + sentence
                &&& applied.len() > 0 && add ==> told == name + ": "@ + sentence + (
                " (already "@ + "applied"@ + ": "@ + text::joined(applied, ", "@) + ")"@)
                &&& applied.len() > 0 && !add ==> told == name + ": "@ + sentence + (
                " (already "@ + "removed"@ + ": "@ + text::joined(applied, ", "@) + ")"@)
            })
        }),
{
    if applied.len() == 0 {
        assert(name + ": "@ + sentence + Seq::<char>::empty() =~= name + ": "@ + sentence);
    }
}

// ---------------------------------------------------------------------------
// Answers
// ---------------------------------------------------------------------------

/// A request that is refused ends its command with what the API said, or with
/// the status where it said nothing.
pub proof fn a_refusal_is_told(
    state: StateModel,
    json: bool,
    status: u16,
    body: Seq<u8>,
    sentence: Option<Seq<char>>,
    found: FoundModel,
)
    requires
        !(200 <= status < 300),
        !(state is Applying),
    ensures
        session::stepped(state, json, EventModel::Replied { status, body, sentence, found }).0
            == StateModel::Done,
        session::stepped(
            state,
            json,
            EventModel::Replied { status, body, sentence, found },
        ).1 == ActionModel::Fail(
            FailureModel::Failed(
                if sentence is Some {
                    sentence->0
                } else {
                    "the API returned "@ + text::decimal(status as int) + " with no explanation"@
                },
            ),
        ),
{
}

/// An API that cannot be reached ends its command, and the exit code tells that
/// apart from a refusal.
pub proof fn an_absent_api_is_told(state: StateModel, json: bool, failure: FailureModel)
    ensures
        session::stepped(state, json, EventModel::Unanswered(failure)) == (
            StateModel::Done,
            ActionModel::Fail(failure),
        ),
{
}

/// What an answer is drawn as: a list as a list, Tags as Tags, and an Issue with
/// its parent, if it has one, and its parts, if it has any, each fetched first.
pub proof fn an_answer_is_drawn(
    issue: IssueJsonModel,
    parent: Option<IssueJsonModel>,
    list: Seq<IssueJsonModel>,
    tags: Seq<TagJsonModel>,
    status: u16,
    body: Seq<u8>,
    sentence: Option<Seq<char>>,
)
    requires
        200 <= status < 300,
    ensures
        ({
            let answer = |found: FoundModel|
                EventModel::Replied { status, body, sentence, found };
            let one = answer(FoundModel::Issue(Ok(issue)));
            let several = answer(FoundModel::Issues(Ok(list)));
            &&& session::stepped(StateModel::Listing, false, several).1 == ActionModel::List(list)
            &&& session::stepped(
                StateModel::Counting,
                false,
                answer(FoundModel::Tags(Ok(tags))),
            ).1 == ActionModel::Tags(tags)
            &&& issue.parent_id matches Some(id) ==> (session::stepped(
                StateModel::Fetching,
                false,
                one,
            ) matches (StateModel::Naming { issue: kept }, ActionModel::Send(call, _)) && kept
                == issue && reaches(call, "GET"@, RouteModel::Issue(id)))
            &&& issue.parent_id is None && issue.sub_issue_ids.len() == 0 ==> (session::stepped(
                StateModel::Fetching,
                false,
                one,
            ).1 matches ActionModel::Show { issue: shown, parent: above, children } && shown
                == issue && above is None && children.len() == 0)
            &&& issue.parent_id is None && issue.sub_issue_ids.len() > 0 ==> (session::stepped(
                StateModel::Fetching,
                false,
                one,
            ) matches (StateModel::Gathering { issue: kept, parent: above }, ActionModel::Send(call, _))
                && kept == issue && above is None && reaches(call, "GET"@, RouteModel::Issues)
                && routes::asked_for(http::query_of(call.path)) == Ok::<NarrowingModel, Seq<char>>(
                NarrowingModel {
                    view: View::All,
                    tag: None,
                    title: None,
                    parent: Some(ParentFilter::Under(issue.id)),
                },
            ))
            &&& session::stepped(
                StateModel::Gathering { issue, parent },
                false,
                several,
            ).1 == (ActionModel::Show { issue, parent, children: list })
        }),
{
    if let Some(id) = issue.parent_id {
        protocol::an_issue_path_addresses_its_issue(id);
    }
    protocol::a_listing_is_read_as_it_was_asked(
        NarrowingModel {
            view: View::All,
            tag: None,
            title: None,
            parent: Some(ParentFilter::Under(issue.id)),
        },
    );
}

/// The parent of an Issue that is being drawn is the one the API gave, and the
/// parts of the Issue itself are what is fetched next.
pub proof fn the_parent_stays_beside_its_part(
    issue: IssueJsonModel,
    parent: IssueJsonModel,
    json: bool,
    status: u16,
    body: Seq<u8>,
    sentence: Option<Seq<char>>,
)
    requires
        200 <= status < 300,
    ensures
        ({
            let next = session::stepped(
                StateModel::Naming { issue },
                json,
                EventModel::Replied {
                    status,
                    body,
                    sentence,
                    found: FoundModel::Issue(Ok(parent)),
                },
            );
            &&& issue.sub_issue_ids.len() == 0 ==> (next.1 matches ActionModel::Show {
                issue: shown,
                parent: above,
                children,
            } && shown == issue && above == Some(parent) && children.len() == 0)
            &&& issue.sub_issue_ids.len() > 0 ==> (next.0 matches StateModel::Gathering {
                issue: kept,
                parent: above,
            } && kept == issue && above == Some(parent))
        }),
{
}

/// Where JSON is asked for, what the API answered is passed on byte for byte,
/// with a line ending behind it unless it has one.
pub proof fn json_is_passed_on(
    status: u16,
    body: Seq<u8>,
    sentence: Option<Seq<char>>,
    found: FoundModel,
)
    requires
        200 <= status < 300,
    ensures
        ({
            let answer = EventModel::Replied { status, body, sentence, found };
            let line = if body.len() > 0 && body[body.len() - 1] == 10 {
                body
            } else {
                body.push(10u8)
            };
            &&& session::stepped(StateModel::Fetching, true, answer).1 == ActionModel::Pass(line)
            &&& session::stepped(StateModel::Counting, true, answer).1 == ActionModel::Pass(line)
        }),
{
}

// ---------------------------------------------------------------------------
// Erasing
// ---------------------------------------------------------------------------

/// Before an Issue is erased on a terminal, its number, its title and how many
/// parts it leaves behind are put in a question. Only a yes goes on, and then it
/// is that Issue that is deleted.
pub proof fn an_erasure_is_asked_about(
    id: IssueId,
    issue: IssueJsonModel,
    answer: Seq<char>,
    json: bool,
    status: u16,
    body: Seq<u8>,
    sentence: Option<Seq<char>>,
)
    requires
        200 <= status < 300,
    ensures
        session::stepped(
            StateModel::Looking { id },
            json,
            EventModel::Replied { status, body, sentence, found: FoundModel::Issue(Ok(issue)) },
        ) matches (StateModel::Asking { id: same }, ActionModel::Ask(asked)) && same == id
            && laws::stands_in(
            "#"@ + text::decimal(issue.id as int) + " \u{201c}"@ + issue.title
                + "\u{201d} will be erased."@,
            asked,
        ),
        text::trimmed(answer) == "y"@ || text::trimmed(answer) == "Y"@ || text::trimmed(answer)
            == "yes"@ || text::trimmed(answer) == "Yes"@ ==> (session::stepped(
            StateModel::Asking { id },
            json,
            EventModel::Typed(answer),
        ) matches (StateModel::Deleting { id: same }, ActionModel::Send(call, _)) && same == id
            && reaches(call, "DELETE"@, RouteModel::Issue(id))),
        !(text::trimmed(answer) == "y"@ || text::trimmed(answer) == "Y"@ || text::trimmed(answer)
            == "yes"@ || text::trimmed(answer) == "Yes"@) ==> session::stepped(
            StateModel::Asking { id },
            json,
            EventModel::Typed(answer),
        ) == (StateModel::Done, ActionModel::Fail(FailureModel::Failed("cancelled"@))),
        session::stepped(
            StateModel::Deleting { id },
            json,
            EventModel::Replied { status, body, sentence, found: FoundModel::Nothing },
        ).1 == ActionModel::Say("Deleted #"@ + text::decimal(id as int) + ".\n"@),
{
    protocol::an_issue_path_addresses_its_issue(id);
    let told = "#"@ + text::decimal(issue.id as int) + " \u{201c}"@ + issue.title
        + "\u{201d} will be erased."@;
    let rest = session::released(issue.sub_issue_ids.len() as int)
        + "\nTo abandon it but keep the record, use `issue set "@ + text::decimal(issue.id as int)
        + " --status Cancelled`.\nDelete it? [y/N] "@;
    assert(session::question(issue) =~= Seq::<char>::empty() + told + rest);
    lemma_stands(Seq::<char>::empty(), told, rest);
}

/// What erasing leaves behind is told where there is anything: one part, or how
/// many.
pub proof fn what_is_left_behind_is_told(issue: IssueJsonModel, n: int)
    requires
        n == issue.sub_issue_ids.len(),
    ensures
        n == 0 ==> session::released(n).len() == 0,
        n == 1 ==> laws::stands_in(
            " Its 1 sub-issue will be kept, no longer part of anything."@,
            session::question(issue),
        ),
        n > 1 ==> laws::stands_in(
            " Its "@ + text::decimal(n)
                + " sub-issues will be kept, no longer part of anything."@,
            session::question(issue),
        ),
{
    let before = "#"@ + text::decimal(issue.id as int) + " \u{201c}"@ + issue.title
        + "\u{201d} will be erased."@;
    let told = session::released(n);
    let rest = "\nTo abandon it but keep the record, use `issue set "@ + text::decimal(
        issue.id as int,
    ) + " --status Cancelled`.\nDelete it? [y/N] "@;
    assert(session::question(issue) =~= before + told + rest);
    lemma_stands(before, told, rest);
}

// ---------------------------------------------------------------------------
// Bodies and requests
// ---------------------------------------------------------------------------

/// The JSON of a change is an object with one field for each that the change
/// names, under its own name, and no others.
pub proof fn a_change_is_an_object_of_what_it_names(patch: PatchIssueModel)
    ensures
        ({
            let fields = wire::patch_fields(patch);
            let count = |named: bool| if named {
                1int
            } else {
                0int
            };
            &&& wire::patch_text(patch) == "{"@ + text::joined(fields, ","@) + "}"@
            &&& fields.len() == count(patch.title is Some) + count(patch.body is Some) + count(
                patch.status is Some,
            ) + count(patch.priority is Some) + count(patch.tags is Some) + count(
                patch.size is Some,
            ) + count(patch.parent_id is Some)
            &&& patch.title matches Some(s) ==> fields.contains(
                json::field_text("title"@, json::json_text(s)),
            )
            &&& patch.body matches Some(s) ==> fields.contains(
                json::field_text("body"@, json::json_text(s)),
            )
            &&& patch.status matches Some(s) ==> fields.contains(
                json::field_text("status"@, json::json_text(s)),
            )
            &&& patch.priority matches Some(s) ==> fields.contains(
                json::field_text("priority"@, json::json_text(s)),
            )
            &&& patch.tags matches Some(tags) ==> fields.contains(
                json::field_text("tags"@, json::strings_text(tags)),
            )
            &&& patch.size matches Some(Some(n)) ==> fields.contains(
                json::field_text("size"@, text::decimal(n as int)),
            )
            &&& patch.size matches Some(None) ==> fields.contains(
                json::field_text("size"@, "null"@),
            )
            &&& patch.parent_id matches Some(raw) ==> fields.contains(
                json::field_text("parent_id"@, raw),
            )
        }),
{
    let a = wire::field_if("title"@, wire::json_if(patch.title));
    let b = wire::field_if("body"@, wire::json_if(patch.body));
    let c = wire::field_if("status"@, wire::json_if(patch.status));
    let d = wire::field_if("priority"@, wire::json_if(patch.priority));
    let e = wire::field_if(
        "tags"@,
        match patch.tags {
            Some(tags) => Some(json::strings_text(tags)),
            None => None,
        },
    );
    let f = wire::field_if(
        "size"@,
        match patch.size {
            Some(size) => Some(json::number_or_null(wire::size_number(size))),
            None => None,
        },
    );
    let g = wire::field_if("parent_id"@, patch.parent_id);
    lemma_seven(a, b, c, d, e, f, g);
}

proof fn lemma_stands(before: Seq<char>, needle: Seq<char>, after: Seq<char>)
    ensures
        laws::stands_in(needle, before + needle + after),
{
}

/// What stands in one of seven lists stands in all of them joined.
proof fn lemma_seven<A>(
    a: Seq<A>,
    b: Seq<A>,
    c: Seq<A>,
    d: Seq<A>,
    e: Seq<A>,
    f: Seq<A>,
    g: Seq<A>,
)
    ensures
        a.len() > 0 ==> (a + b + c + d + e + f + g).contains(a[0]),
        b.len() > 0 ==> (a + b + c + d + e + f + g).contains(b[0]),
        c.len() > 0 ==> (a + b + c + d + e + f + g).contains(c[0]),
        d.len() > 0 ==> (a + b + c + d + e + f + g).contains(d[0]),
        e.len() > 0 ==> (a + b + c + d + e + f + g).contains(e[0]),
        f.len() > 0 ==> (a + b + c + d + e + f + g).contains(f[0]),
        g.len() > 0 ==> (a + b + c + d + e + f + g).contains(g[0]),
{
    let ab = a + b;
    let abc = ab + c;
    let abcd = abc + d;
    let abcde = abcd + e;
    let abcdef = abcde + f;
    lemma_two(a, b);
    lemma_two(ab, c);
    lemma_two(abc, d);
    lemma_two(abcd, e);
    lemma_two(abcde, f);
    lemma_two(abcdef, g);
    if a.len() > 0 {
        assert(a.contains(a[0]));
    }
    if b.len() > 0 {
        assert(b.contains(b[0]));
    }
    if c.len() > 0 {
        assert(c.contains(c[0]));
    }
    if d.len() > 0 {
        assert(d.contains(d[0]));
    }
    if e.len() > 0 {
        assert(e.contains(e[0]));
    }
    if f.len() > 0 {
        assert(f.contains(f[0]));
    }
    if g.len() > 0 {
        assert(g.contains(g[0]));
    }
}

proof fn lemma_two<A>(a: Seq<A>, b: Seq<A>)
    ensures
        forall|x: A| a.contains(x) ==> #[trigger] (a + b).contains(x),
        forall|x: A| b.contains(x) ==> #[trigger] (a + b).contains(x),
{
    assert forall|x: A| a.contains(x) implies #[trigger] (a + b).contains(x) by {
        let i = choose|i: int| 0 <= i < a.len() && a[i] == x;
        assert((a + b)[i] == x);
    }
    assert forall|x: A| b.contains(x) implies #[trigger] (a + b).contains(x) by {
        let i = choose|i: int| 0 <= i < b.len() && b[i] == x;
        assert((a + b)[a.len() + i] == x);
    }
}

/// The JSON of a new Issue is an object that begins with its title, names its
/// parent if it has one, and goes on with what else is named.
pub proof fn a_new_issue_is_an_object_of_what_it_names(new: NewIssueModel)
    requires
        new.unknown.len() == 0,
    ensures
        ({
            let fields = wire::new_fields(new);
            &&& wire::new_text(new) == "{"@ + text::joined(fields, ","@) + "}"@
            &&& fields[0] == json::field_text("title"@, json::json_text(new.title))
            &&& new.parent_id matches Some(id) ==> fields[1] == json::field_text(
                "parent_id"@,
                text::decimal(id as int),
            ) && fields.skip(2) == wire::patch_fields(new.rest)
            &&& new.parent_id is None ==> fields.skip(1) == wire::patch_fields(new.rest)
        }),
{
    let fields = wire::new_fields(new);
    assert(wire::unknown_fields(new.unknown).len() == 0);
    if new.parent_id is Some {
        assert(fields.skip(2) =~= wire::patch_fields(new.rest));
    } else {
        assert(fields.skip(1) =~= wire::patch_fields(new.rest));
    }
}

/// The words of the methods.
pub proof fn a_method_is_spelled_as_it_is_called(body: Seq<char>)
    ensures
        MethodModel::Get.word() == "GET"@,
        MethodModel::Put.word() == "PUT"@,
        MethodModel::Delete.word() == "DELETE"@,
        MethodModel::Post(body).word() == "POST"@,
        MethodModel::Patch(body).word() == "PATCH"@,
{
}

/// What a client sends: the method, the path and the version on the first line;
/// its own host, its token; and where there is a body, how many bytes it has, and
/// the body behind an empty line.
pub proof fn a_request_is_what_it_says(port: u16, token: Seq<char>, call: CallModel, body: Seq<char>)
    ensures
        ({
            let sent = client::request_text(port, token, call);
            &&& text::starts_with(sent, call.method.word() + " "@ + call.path + " HTTP/1.1\r\n"@)
            &&& laws::stands_in("Host: 127.0.0.1:"@ + text::decimal(port as int) + "\r\n"@, sent)
            &&& laws::stands_in("Authorization: Bearer "@ + token + "\r\n"@, sent)
            &&& brings(call, body) ==> laws::stands_in(
                "Content-Length: "@ + text::decimal(
                    vstd::utf8::encode_utf8(body).len() as int,
                ) + "\r\n\r\n"@ + body,
                sent,
            )
            &&& brings(call, body) ==> sent.skip(sent.len() - body.len()) == body
            &&& !(call.method is Post || call.method is Patch) ==> laws::stands_in(
                "Content-Length: 0\r\n\r\n"@,
                sent,
            )
        }),
{
    let sent = client::request_text(port, token, call);
    let first = call.method.word() + " "@ + call.path + " HTTP/1.1\r\n"@;
    let host = "Host: 127.0.0.1:"@ + text::decimal(port as int) + "\r\n"@;
    let bearer = "Authorization: Bearer "@ + token + "\r\n"@;
    let close = "Connection: close\r\n"@;
    let last = match call.method.carried() {
        Some(body) => "Content-Type: application/json\r\n"@ + ("Content-Length: "@
            + text::decimal(client::byte_count(body)) + "\r\n\r\n"@ + body),
        None => "Content-Length: 0\r\n\r\n"@,
    };
    assert(sent =~= first + host + bearer + close + last);
    assert(sent =~= Seq::<char>::empty() + first + (host + bearer + close + last));
    assert(sent.take(first.len() as int) =~= first);
    lemma_stands(first, host, bearer + close + last);
    assert(sent =~= first + host + (bearer + close + last));
    lemma_stands(first + host, bearer, close + last);
    assert(sent =~= first + host + bearer + (close + last));
    if brings(call, body) {
        let kind = "Content-Type: application/json\r\n"@;
        let carried = "Content-Length: "@ + text::decimal(client::byte_count(body)) + "\r\n\r\n"@
            + body;
        let before = first + host + bearer + close + kind;
        assert(sent =~= before + carried + Seq::<char>::empty());
        lemma_stands(before, carried, Seq::empty());
        assert(sent.skip(sent.len() - body.len()) =~= body);
    }
    if !(call.method is Post || call.method is Patch) {
        let before = first + host + bearer + close;
        assert(sent =~= before + last + Seq::<char>::empty());
        lemma_stands(before, last, Seq::empty());
    }
}

} // verus!
