//! A command in progress: which requests it takes, and what becomes of it.
//!
//! Nothing here sends or prints. A command starts with an [`Action`]; whoever
//! runs it performs the action and hands back the [`Event`] that came of it,
//! until there is nothing more to do.

use vstd::prelude::*;
use vstd::view::View as _;

use crate::api::wire;
use crate::api::wire::{
    IssueJson, IssueJsonModel, NewIssue as NewIssueBody, NewIssueModel, PatchIssue,
    PatchIssueModel, TagJson, TagJsonModel,
};
use crate::cli::args;
use crate::cli::args::{
    Body, BodyModel, Changes, ChangesModel, Colour, Command, CommandModel, Filters, FiltersModel,
    NewIssue, NewModel,
};
use crate::cli::{Failure, FailureModel};
use crate::client::{ClientError, Reply};
use crate::domain::kinds::{IssueId, Priority, Status};
use crate::domain::narrowing::{Narrowing, NarrowingModel, ParentFilter};
use crate::domain::tag;
use crate::domain::tag::Tag;
use crate::domain::view::View;
use crate::operations;
use crate::operations::{Call, CallModel, MethodModel};
use crate::text;

verus! {

// ---------------------------------------------------------------------------
// Help
// ---------------------------------------------------------------------------

/// The names of every Status, in order.
pub open spec fn status_names() -> Seq<Seq<char>> {
    seq![
        Status::Todo.name(),
        Status::Doing.name(),
        Status::Blocked.name(),
        Status::Done.name(),
        Status::Cancelled.name(),
    ]
}

/// The names of every Priority, in order.
pub open spec fn priority_names() -> Seq<Seq<char>> {
    seq![
        Priority::Unset.name(),
        Priority::Low.name(),
        Priority::Medium.name(),
        Priority::High.name(),
        Priority::Urgent.name(),
    ]
}

/// The help, with the names that are accepted in it.
pub open spec fn help_text() -> Seq<char> {
    "\
issue — the command line for the Issues tracker

USAGE
  issue <command> [options]

COMMANDS
  list                        List issues, most pressing first
  show <id>                   Show one issue in full
  new \"<title>\"               File a new issue
  set <id>                    Change an issue's fields
  rm <id>                     Delete an issue permanently
  tag add|rm <id> <name>...   Add or remove tags
  sub add|rm <id> <child>...  Attach or detach sub-issues
  tags                        List the tags in use, with counts

LIST OPTIONS
  --status <status>           "@ + text::joined(status_names(), ", "@) + "
  --tag <name>                Only issues carrying this tag
  --parent <id|none>          Sub-issues of an issue, or only unparented ones
  --search <text>             Only issues whose title contains this

NEW AND SET OPTIONS
  --title <text>              set only
  --body <text|->             \"-\" reads the body from standard input
  --status <status>
  --priority <priority>       "@ + text::joined(priority_names(), ", "@) + "
  --size <n|none>             Relative size, 0-255. `none` unsizes; `new`
                              takes a number only
  --tag <name>                new only, repeatable. Use `issue tag` to change
                              the tags of an issue that already exists
  --parent <id>               new only

GLOBAL OPTIONS
  --json                      Print the API's JSON instead of a table
  --color <auto|always|never>
  -h, --help                  Show this
  -V, --version               Show the version

Status and priority names are case-insensitive. Deleting is permanent; to
record that you decided against an issue instead, use --status Cancelled.

Issues must be running: `issue` talks to it over a local HTTP API rather than
opening the database itself.
"@
}

/// The help, built from the domain rather than written out, so the list of
/// statuses can never drift from the ones that are accepted.
pub fn help() -> (r: String)
    ensures
        r@ == help_text(),
{
    let mut statuses: Vec<String> = Vec::new();
    let mut i: usize = 0;
    while i < 5
        invariant
            i <= 5,
            text::texts(statuses@) == status_names().take(i as int),
        decreases 5 - i,
    {
        let ghost had = text::texts(statuses@);
        let name = Status::ALL[i].to_string();
        let ghost one = name@;
        statuses.push(name);
        assert(text::texts(statuses@) =~= had.push(one));
        assert(one == status_names()[i as int]);
        i += 1;
        assert(had.push(one) =~= status_names().take(i as int));
    }
    assert(status_names().take(5) =~= status_names());
    let mut priorities: Vec<String> = Vec::new();
    let mut j: usize = 0;
    while j < 5
        invariant
            j <= 5,
            text::texts(priorities@) == priority_names().take(j as int),
        decreases 5 - j,
    {
        let ghost had = text::texts(priorities@);
        let name = Priority::ALL[j].to_string();
        let ghost one = name@;
        priorities.push(name);
        assert(text::texts(priorities@) =~= had.push(one));
        assert(one == priority_names()[j as int]);
        j += 1;
        assert(had.push(one) =~= priority_names().take(j as int));
    }
    assert(priority_names().take(5) =~= priority_names());
    let mut help =
        "\
issue — the command line for the Issues tracker

USAGE
  issue <command> [options]

COMMANDS
  list                        List issues, most pressing first
  show <id>                   Show one issue in full
  new \"<title>\"               File a new issue
  set <id>                    Change an issue's fields
  rm <id>                     Delete an issue permanently
  tag add|rm <id> <name>...   Add or remove tags
  sub add|rm <id> <child>...  Attach or detach sub-issues
  tags                        List the tags in use, with counts

LIST OPTIONS
  --status <status>           ".to_owned();
    help.push_str(text::join(&statuses, ", ").as_str());
    help.push_str("
  --tag <name>                Only issues carrying this tag
  --parent <id|none>          Sub-issues of an issue, or only unparented ones
  --search <text>             Only issues whose title contains this

NEW AND SET OPTIONS
  --title <text>              set only
  --body <text|->             \"-\" reads the body from standard input
  --status <status>
  --priority <priority>       ");
    help.push_str(text::join(&priorities, ", ").as_str());
    help.push_str("
  --size <n|none>             Relative size, 0-255. `none` unsizes; `new`
                              takes a number only
  --tag <name>                new only, repeatable. Use `issue tag` to change
                              the tags of an issue that already exists
  --parent <id>               new only

GLOBAL OPTIONS
  --json                      Print the API's JSON instead of a table
  --color <auto|always|never>
  -h, --help                  Show this
  -V, --version               Show the version

Status and priority names are case-insensitive. Deleting is permanent; to
record that you decided against an issue instead, use --status Cancelled.

Issues must be running: `issue` talks to it over a local HTTP API rather than
opening the database itself.
");
    help
}

// ---------------------------------------------------------------------------
// Requests
// ---------------------------------------------------------------------------

/// The command line's filters, as the narrowing every surface shares.
pub open spec fn narrowed(filters: FiltersModel) -> NarrowingModel {
    NarrowingModel {
        view: match filters.status {
            Some(status) => View::WithStatus(status),
            None => View::All,
        },
        tag: filters.tag,
        title: filters.search,
        parent: filters.parent,
    }
}

/// The command line's filters, as the narrowing every surface shares.
///
/// `--status` absent is not a filter to remember later: it is the View that
/// admits everything.
pub fn narrowing(filters: Filters) -> (r: Narrowing)
    ensures
        r@ == narrowed(filters@),
{
    Narrowing {
        view: match filters.status {
            Some(status) => View::WithStatus(status),
            None => View::All,
        },
        tag: filters.tag,
        title: filters.search,
        parent: filters.parent,
    }
}

/// The text of a body, once standard input has been read.
pub open spec fn body_text(body: Option<BodyModel>, stdin: Seq<char>) -> Option<Seq<char>> {
    match body {
        Some(BodyModel::Text(text)) => Some(text),
        Some(BodyModel::Stdin) => Some(stdin),
        None => None,
    }
}

/// The name of an optional Status.
pub open spec fn status_text(status: Option<Status>) -> Option<Seq<char>> {
    match status {
        Some(status) => Some(status.name()),
        None => None,
    }
}

/// The name of an optional Priority.
pub open spec fn priority_text(priority: Option<Priority>) -> Option<Seq<char>> {
    match priority {
        Some(priority) => Some(priority.name()),
        None => None,
    }
}

/// What a new Issue sends.
pub open spec fn new_body(new: NewModel, stdin: Seq<char>) -> NewIssueModel {
    NewIssueModel {
        title: new.title,
        parent_id: new.parent,
        rest: PatchIssueModel {
            title: None,
            body: body_text(new.body, stdin),
            status: status_text(new.status),
            priority: priority_text(new.priority),
            tags: if new.tags.len() == 0 {
                None
            } else {
                Some(new.tags)
            },
            size: match new.size {
                Some(size) => Some(Some(size)),
                None => None,
            },
            parent_id: None,
        },
        unknown: Seq::<(Seq<char>, Seq<char>)>::empty(),
    }
}

/// What a change sends.
pub open spec fn patch_body(changes: ChangesModel, stdin: Seq<char>) -> PatchIssueModel {
    PatchIssueModel {
        title: changes.title,
        body: body_text(changes.body, stdin),
        status: status_text(changes.status),
        priority: priority_text(changes.priority),
        tags: None,
        size: changes.size,
        parent_id: None,
    }
}

/// The text of a body, once standard input has been read.
pub fn read_body(body: Option<Body>, stdin: &str) -> (r: Option<String>)
    ensures
        crate::api::http::optional_text(r) == body_text(args::optional_body(body), stdin@),
{
    match body {
        Some(Body::Text(text)) => Some(text),
        Some(Body::Stdin) => Some(stdin.to_owned()),
        None => None,
    }
}

fn status_name(status: Option<Status>) -> (r: Option<String>)
    ensures
        crate::api::http::optional_text(r) == status_text(status),
{
    match status {
        Some(status) => Some(status.to_string()),
        None => None,
    }
}

fn priority_name(priority: Option<Priority>) -> (r: Option<String>)
    ensures
        crate::api::http::optional_text(r) == priority_text(priority),
{
    match priority {
        Some(priority) => Some(priority.to_string()),
        None => None,
    }
}

/// What a new Issue sends. Standard input has been read by then, so that
/// building a request stays a pure function.
pub fn new_issue(new: NewIssue, stdin: &str) -> (r: NewIssueBody)
    ensures
        r@ == new_body(new@, stdin@),
{
    // An empty `--tag` list means "say nothing about tags", not "clear them":
    // clearing is what `tag rm` is for.
    let tags = if new.tags.len() == 0 {
        None
    } else {
        Some(wire::tag_strings(new.tags.as_slice()))
    };
    assert(new@.tags.len() == new.tags@.len());
    let size = match new.size {
        Some(size) => Some(Some(size)),
        None => None,
    };
    let r = NewIssueBody {
        title: new.title,
        parent_id: new.parent,
        rest: PatchIssue {
            title: None,
            body: read_body(new.body, stdin),
            status: status_name(new.status),
            priority: priority_name(new.priority),
            tags,
            size,
            parent_id: None,
        },
        unknown: Vec::new(),
    };
    assert(r@.unknown =~= Seq::<(Seq<char>, Seq<char>)>::empty());
    r
}

/// What a change sends.
pub fn patch(changes: Changes, stdin: &str) -> (r: PatchIssue)
    ensures
        r@ == patch_body(changes@, stdin@),
{
    PatchIssue {
        title: changes.title,
        body: read_body(changes.body, stdin),
        status: status_name(changes.status),
        priority: priority_name(changes.priority),
        tags: None,
        size: changes.size,
        parent_id: None,
    }
}

// ---------------------------------------------------------------------------
// States, actions, events
// ---------------------------------------------------------------------------

/// What a reply is to be read as.
#[derive(Debug, Clone, Copy, PartialEq, Eq, Structural)]
pub enum Want {
    Nothing,
    Issue,
    Issues,
    Tags,
}

/// What a reply was read as, or why it could not be.
#[derive(Debug)]
pub enum Found {
    Nothing,
    Issue(Result<IssueJson, String>),
    Issues(Result<Vec<IssueJson>, String>),
    Tags(Result<Vec<TagJson>, String>),
}

/// What a reply was read as, as the contracts speak of it.
#[verifier::ext_equal]
pub enum FoundModel {
    Nothing,
    Issue(Result<IssueJsonModel, Seq<char>>),
    Issues(Result<Seq<IssueJsonModel>, Seq<char>>),
    Tags(Result<Seq<TagJsonModel>, Seq<char>>),
}

impl vstd::view::View for Found {
    type V = FoundModel;

    open spec fn view(&self) -> FoundModel {
        match *self {
            Found::Nothing => FoundModel::Nothing,
            Found::Issue(Ok(issue)) => FoundModel::Issue(Ok(issue@)),
            Found::Issue(Err(why)) => FoundModel::Issue(Err(why@)),
            Found::Issues(Ok(list)) => FoundModel::Issues(Ok(wire::json_models(list@))),
            Found::Issues(Err(why)) => FoundModel::Issues(Err(why@)),
            Found::Tags(Ok(list)) => FoundModel::Tags(Ok(wire::tag_models(list@))),
            Found::Tags(Err(why)) => FoundModel::Tags(Err(why@)),
        }
    }
}

/// One of several requests that are made in turn, with the name of what it is
/// about.
#[derive(Debug)]
pub struct Task {
    pub name: String,
    pub call: Call,
}

/// One of several requests, as the contracts speak of it.
#[verifier::ext_equal]
pub struct TaskModel {
    pub name: Seq<char>,
    pub call: CallModel,
}

impl vstd::view::View for Task {
    type V = TaskModel;

    open spec fn view(&self) -> TaskModel {
        TaskModel { name: self.name@, call: self.call@ }
    }
}

/// The models of some requests.
pub open spec fn tasks_of(tasks: Seq<Task>) -> Seq<TaskModel> {
    tasks.map_values(|t: Task| t@)
}

/// How far a command has come.
#[derive(Debug)]
pub enum State {
    /// A listing has been asked for.
    Listing,
    /// One Issue has been asked for, or asked to change.
    Fetching,
    /// The Tags in use have been asked for.
    Counting,
    /// Requests are being made in turn: these were applied, this one has been
    /// sent, these are left.
    Applying { applied: Vec<String>, name: String, left: Vec<Task>, add: bool },
    /// The parent of this Issue has been asked for.
    Naming { issue: IssueJson },
    /// The parts of this Issue have been asked for.
    Gathering { issue: IssueJson, parent: Option<IssueJson> },
    /// The Issue that is to be erased has been asked for.
    Looking { id: IssueId },
    /// Whether to erase this Issue has been asked.
    Asking { id: IssueId },
    /// This Issue has been asked to be erased.
    Deleting { id: IssueId },
    /// There is nothing more to do.
    Done,
}

/// How far a command has come, as the contracts speak of it.
#[verifier::ext_equal]
pub enum StateModel {
    Listing,
    Fetching,
    Counting,
    Applying { applied: Seq<Seq<char>>, name: Seq<char>, left: Seq<TaskModel>, add: bool },
    Naming { issue: IssueJsonModel },
    Gathering { issue: IssueJsonModel, parent: Option<IssueJsonModel> },
    Looking { id: IssueId },
    Asking { id: IssueId },
    Deleting { id: IssueId },
    Done,
}

/// The model of an optional Issue.
pub open spec fn optional_issue(issue: Option<IssueJson>) -> Option<IssueJsonModel> {
    match issue {
        Some(issue) => Some(issue@),
        None => None,
    }
}

impl vstd::view::View for State {
    type V = StateModel;

    open spec fn view(&self) -> StateModel {
        match *self {
            State::Listing => StateModel::Listing,
            State::Fetching => StateModel::Fetching,
            State::Counting => StateModel::Counting,
            State::Applying { applied, name, left, add } => StateModel::Applying {
                applied: text::texts(applied@),
                name: name@,
                left: tasks_of(left@),
                add,
            },
            State::Naming { issue } => StateModel::Naming { issue: issue@ },
            State::Gathering { issue, parent } => StateModel::Gathering {
                issue: issue@,
                parent: optional_issue(parent),
            },
            State::Looking { id } => StateModel::Looking { id },
            State::Asking { id } => StateModel::Asking { id },
            State::Deleting { id } => StateModel::Deleting { id },
            State::Done => StateModel::Done,
        }
    }
}

/// What to do next.
#[derive(Debug)]
pub enum Action {
    /// Make this request, and read the reply as this.
    Send(Call, Want),
    /// Ask this on the terminal, and read a line.
    Ask(String),
    /// Print this.
    Say(String),
    /// Print these bytes, which are the API's own.
    Pass(Vec<u8>),
    /// Print this list.
    List(Vec<IssueJson>),
    /// Print these Tags.
    Tags(Vec<TagJson>),
    /// Print this Issue in full.
    Show { issue: IssueJson, parent: Option<IssueJson>, children: Vec<IssueJson> },
    /// Stop, for this reason.
    Fail(Failure),
}

/// What to do next, as the contracts speak of it.
#[verifier::ext_equal]
pub enum ActionModel {
    Send(CallModel, Want),
    Ask(Seq<char>),
    Say(Seq<char>),
    Pass(Seq<u8>),
    List(Seq<IssueJsonModel>),
    Tags(Seq<TagJsonModel>),
    Show {
        issue: IssueJsonModel,
        parent: Option<IssueJsonModel>,
        children: Seq<IssueJsonModel>,
    },
    Fail(FailureModel),
}

impl vstd::view::View for Action {
    type V = ActionModel;

    open spec fn view(&self) -> ActionModel {
        match *self {
            Action::Send(call, want) => ActionModel::Send(call@, want),
            Action::Ask(question) => ActionModel::Ask(question@),
            Action::Say(text) => ActionModel::Say(text@),
            Action::Pass(bytes) => ActionModel::Pass(bytes@),
            Action::List(list) => ActionModel::List(wire::json_models(list@)),
            Action::Tags(list) => ActionModel::Tags(wire::tag_models(list@)),
            Action::Show { issue, parent, children } => ActionModel::Show {
                issue: issue@,
                parent: optional_issue(parent),
                children: wire::json_models(children@),
            },
            Action::Fail(failure) => ActionModel::Fail(failure@),
        }
    }
}

/// What came of an action.
#[derive(Debug)]
pub enum Event {
    /// The API replied. Where the reply is a failure, its sentence was looked
    /// for; where it is not, it was read as what was wanted.
    Replied { reply: Reply, sentence: Option<String>, found: Found },
    /// There was no reply.
    Unanswered(ClientError),
    /// This was typed.
    Typed(String),
}

/// What came of an action, as the contracts speak of it.
#[verifier::ext_equal]
pub enum EventModel {
    Replied { status: u16, body: Seq<u8>, sentence: Option<Seq<char>>, found: FoundModel },
    Unanswered(FailureModel),
    Typed(Seq<char>),
}

impl vstd::view::View for Event {
    type V = EventModel;

    open spec fn view(&self) -> EventModel {
        match *self {
            Event::Replied { reply, sentence, found } => EventModel::Replied {
                status: reply.status,
                body: reply.body@,
                sentence: crate::api::http::optional_text(sentence),
                found: found@,
            },
            Event::Unanswered(ClientError::NotRunning(message)) => EventModel::Unanswered(
                FailureModel::NotRunning(message@),
            ),
            Event::Unanswered(ClientError::Failed(message)) => EventModel::Unanswered(
                FailureModel::Failed(message@),
            ),
            Event::Typed(text) => EventModel::Typed(text@),
        }
    }
}

// ---------------------------------------------------------------------------
// The conversation, in words
// ---------------------------------------------------------------------------

/// Stopping for a reason.
pub open spec fn stopped(failure: FailureModel) -> (StateModel, ActionModel) {
    (StateModel::Done, ActionModel::Fail(failure))
}

/// Stopping because a reply could not be read.
pub open spec fn unreadable(why: Seq<char>) -> (StateModel, ActionModel) {
    stopped(FailureModel::Failed("could not read the API's response: "@ + why))
}

/// Finishing with something to print.
pub open spec fn finished(action: ActionModel) -> (StateModel, ActionModel) {
    (StateModel::Done, action)
}

/// The requests that put Tags on an Issue, or take them off.
pub open spec fn tag_tasks(id: IssueId, names: Seq<Seq<char>>, add: bool) -> Seq<TaskModel> {
    names.map_values(
        |name: Seq<char>|
            TaskModel {
                name,
                call: CallModel {
                    method: if add {
                        MethodModel::Put
                    } else {
                        MethodModel::Delete
                    },
                    path: operations::tag_path_text(id, name),
                },
            },
    )
}

/// The requests that attach parts to an Issue, or detach them.
pub open spec fn sub_tasks(id: IssueId, children: Seq<IssueId>, add: bool) -> Seq<TaskModel> {
    children.map_values(
        |child: IssueId|
            TaskModel {
                name: "#"@ + text::decimal(child as int),
                call: CallModel {
                    method: if add {
                        MethodModel::Put
                    } else {
                        MethodModel::Delete
                    },
                    path: operations::sub_issue_path_text(id, child),
                },
            },
    )
}

/// Making the first of several requests. Only the last reply is looked at: it is
/// the Issue's finished state, which is what was asked about however many
/// requests it took to get there.
pub open spec fn sending(applied: Seq<Seq<char>>, tasks: Seq<TaskModel>, add: bool) -> (
    StateModel,
    ActionModel,
) {
    (
        StateModel::Applying { applied, name: tasks[0].name, left: tasks.skip(1), add },
        ActionModel::Send(
            tasks[0].call,
            if tasks.len() == 1 {
                Want::Issue
            } else {
                Want::Nothing
            },
        ),
    )
}

/// Making several requests in turn.
pub open spec fn applying(tasks: Seq<TaskModel>, add: bool) -> (StateModel, ActionModel) {
    if tasks.len() == 0 {
        stopped(FailureModel::Usage("nothing to add or remove"@))
    } else {
        sending(Seq::empty(), tasks, add)
    }
}

/// How a command starts.
pub open spec fn started(
    command: CommandModel,
    stdin: Seq<char>,
    terminal: bool,
    version: Seq<char>,
) -> (StateModel, ActionModel) {
    match command {
        CommandModel::Help => finished(ActionModel::Say(help_text())),
        CommandModel::Version => finished(ActionModel::Say("issue "@ + version + "\n"@)),
        CommandModel::List(filters) => (
            StateModel::Listing,
            ActionModel::Send(
                CallModel {
                    method: MethodModel::Get,
                    path: operations::list_path(narrowed(filters)),
                },
                Want::Issues,
            ),
        ),
        CommandModel::Show(id) => (
            StateModel::Fetching,
            ActionModel::Send(
                CallModel { method: MethodModel::Get, path: operations::issue_path(id) },
                Want::Issue,
            ),
        ),
        CommandModel::New(new) => (
            StateModel::Fetching,
            ActionModel::Send(
                CallModel {
                    method: MethodModel::Post(wire::new_text(new_body(new, stdin))),
                    path: "/issues"@,
                },
                Want::Issue,
            ),
        ),
        CommandModel::Change(id, changes) => (
            StateModel::Fetching,
            ActionModel::Send(
                CallModel {
                    method: MethodModel::Patch(wire::patch_text(patch_body(changes, stdin))),
                    path: operations::issue_path(id),
                },
                Want::Issue,
            ),
        ),
        CommandModel::Remove { id, force } => if force {
            (
                StateModel::Deleting { id },
                ActionModel::Send(
                    CallModel { method: MethodModel::Delete, path: operations::issue_path(id) },
                    Want::Nothing,
                ),
            )
        } else if terminal {
            (
                StateModel::Looking { id },
                ActionModel::Send(
                    CallModel { method: MethodModel::Get, path: operations::issue_path(id) },
                    Want::Issue,
                ),
            )
        } else {
            stopped(
                FailureModel::Usage(
                    "deleting is permanent and this is not a terminal: pass --force to mean it"@,
                ),
            )
        },
        CommandModel::Tags => (
            StateModel::Counting,
            ActionModel::Send(
                CallModel { method: MethodModel::Get, path: "/tags"@ },
                Want::Tags,
            ),
        ),
        CommandModel::Tag { id, names, add } => applying(tag_tasks(id, names, add), add),
        CommandModel::Sub { id, children, add } => applying(sub_tasks(id, children, add), add),
    }
}

/// Gathering the parts of an Issue, all in one request.
pub open spec fn gathering(issue: IssueJsonModel, parent: Option<IssueJsonModel>) -> (
    StateModel,
    ActionModel,
) {
    if issue.sub_issue_ids.len() == 0 {
        finished(
            ActionModel::Show { issue, parent, children: Seq::<IssueJsonModel>::empty() },
        )
    } else {
        (
            StateModel::Gathering { issue, parent },
            ActionModel::Send(
                CallModel {
                    method: MethodModel::Get,
                    path: operations::list_path(
                        NarrowingModel {
                            view: View::All,
                            tag: None,
                            title: None,
                            parent: Some(ParentFilter::Under(issue.id)),
                        },
                    ),
                },
                Want::Issues,
            ),
        )
    }
}

/// Presenting one Issue with its neighbours named rather than numbered.
pub open spec fn presenting(issue: IssueJsonModel) -> (StateModel, ActionModel) {
    match issue.parent_id {
        Some(parent) => (
            StateModel::Naming { issue },
            ActionModel::Send(
                CallModel { method: MethodModel::Get, path: operations::issue_path(parent) },
                Want::Issue,
            ),
        ),
        None => gathering(issue, None),
    }
}

/// What becomes of the parts of an Issue that is erased.
pub open spec fn released(parts: int) -> Seq<char> {
    if parts == 0 {
        Seq::<char>::empty()
    } else if parts == 1 {
        " Its 1 sub-issue will be kept, no longer part of anything."@
    } else {
        " Its "@ + text::decimal(parts) + " sub-issues will be kept, no longer part of anything."@
    }
}

/// What is asked before an Issue is erased.
pub open spec fn question(issue: IssueJsonModel) -> Seq<char> {
    "#"@ + text::decimal(issue.id as int) + " \u{201c}"@ + issue.title
        + "\u{201d} will be erased."@ + released(issue.sub_issue_ids.len() as int)
        + "\nTo abandon it but keep the record, use `issue set "@ + text::decimal(issue.id as int)
        + " --status Cancelled`.\nDelete it? [y/N] "@
}

/// Whether an answer means yes.
pub open spec fn means_yes(answer: Seq<char>) -> bool {
    let word = text::trimmed(answer);
    word == "y"@ || word == "Y"@ || word == "yes"@ || word == "Yes"@
}

/// The sentence of a reply that is a failure.
pub open spec fn failure_sentence(status: u16, sentence: Option<Seq<char>>) -> Seq<char> {
    match sentence {
        Some(sentence) => sentence,
        None => "the API returned "@ + text::decimal(status as int) + " with no explanation"@,
    }
}

/// What is said when one of several requests was refused: which it was, why,
/// and which had been applied by then.
pub open spec fn refused_midway(
    applied: Seq<Seq<char>>,
    name: Seq<char>,
    add: bool,
    why: Seq<char>,
) -> Seq<char> {
    let already = if applied.len() == 0 {
        Seq::<char>::empty()
    } else {
        " (already "@ + (if add {
            "applied"@
        } else {
            "removed"@
        }) + ": "@ + text::joined(applied, ", "@) + ")"@
    };
    name + ": "@ + why + already
}

/// The bytes of a reply, with a line ending if they have none.
pub open spec fn ended(body: Seq<u8>) -> Seq<u8> {
    if body.len() > 0 && body.last() == 10 {
        body
    } else {
        body.push(10)
    }
}

/// Reading the one Issue that was wanted, and presenting it.
pub open spec fn present_found(found: FoundModel) -> (StateModel, ActionModel) {
    match found {
        FoundModel::Issue(Ok(issue)) => presenting(issue),
        FoundModel::Issue(Err(why)) => unreadable(why),
        _ => unreadable("nothing was read"@),
    }
}

/// What comes next once the API did what was asked.
pub open spec fn after_success(
    state: StateModel,
    json: bool,
    body: Seq<u8>,
    found: FoundModel,
) -> (StateModel, ActionModel) {
    match state {
        StateModel::Listing => match found {
            FoundModel::Issues(Ok(list)) => if json {
                finished(ActionModel::Say(wire::issues_text(list) + "\n"@))
            } else {
                finished(ActionModel::List(list))
            },
            FoundModel::Issues(Err(why)) => unreadable(why),
            _ => unreadable("nothing was read"@),
        },
        StateModel::Fetching => if json {
            finished(ActionModel::Pass(ended(body)))
        } else {
            present_found(found)
        },
        StateModel::Counting => if json {
            finished(ActionModel::Pass(ended(body)))
        } else {
            match found {
                FoundModel::Tags(Ok(list)) => finished(ActionModel::Tags(list)),
                FoundModel::Tags(Err(why)) => unreadable(why),
                _ => unreadable("nothing was read"@),
            }
        },
        StateModel::Applying { applied, name, left, add } => if left.len() > 0 {
            sending(applied.push(name), left, add)
        } else if json {
            finished(ActionModel::Pass(ended(body)))
        } else {
            present_found(found)
        },
        StateModel::Naming { issue } => match found {
            FoundModel::Issue(Ok(parent)) => gathering(issue, Some(parent)),
            FoundModel::Issue(Err(why)) => unreadable(why),
            _ => unreadable("nothing was read"@),
        },
        StateModel::Gathering { issue, parent } => match found {
            FoundModel::Issues(Ok(children)) => finished(
                ActionModel::Show { issue, parent, children },
            ),
            FoundModel::Issues(Err(why)) => unreadable(why),
            _ => unreadable("nothing was read"@),
        },
        StateModel::Looking { id } => match found {
            FoundModel::Issue(Ok(issue)) => (
                StateModel::Asking { id },
                ActionModel::Ask(question(issue)),
            ),
            FoundModel::Issue(Err(why)) => unreadable(why),
            _ => unreadable("nothing was read"@),
        },
        StateModel::Deleting { id } => finished(
            ActionModel::Say("Deleted #"@ + text::decimal(id as int) + ".\n"@),
        ),
        StateModel::Asking { id } => unreadable("nothing was asked"@),
        StateModel::Done => unreadable("nothing was asked"@),
    }
}

/// What comes next.
pub open spec fn stepped(state: StateModel, json: bool, event: EventModel) -> (
    StateModel,
    ActionModel,
) {
    match event {
        EventModel::Unanswered(failure) => stopped(failure),
        EventModel::Typed(answer) => match state {
            StateModel::Asking { id } => if means_yes(answer) {
                (
                    StateModel::Deleting { id },
                    ActionModel::Send(
                        CallModel { method: MethodModel::Delete, path: operations::issue_path(id) },
                        Want::Nothing,
                    ),
                )
            } else {
                stopped(FailureModel::Failed("cancelled"@))
            },
            _ => unreadable("nothing was asked"@),
        },
        EventModel::Replied { status, body, sentence, found } => if 200 <= status < 300 {
            after_success(state, json, body, found)
        } else {
            let why = failure_sentence(status, sentence);
            match state {
                StateModel::Applying { applied, name, left, add } => stopped(
                    FailureModel::Failed(refused_midway(applied, name, add, why)),
                ),
                _ => stopped(FailureModel::Failed(why)),
            }
        },
    }
}

// ---------------------------------------------------------------------------
// The conversation
// ---------------------------------------------------------------------------

/// Whether a command takes its body from standard input.
pub open spec fn wants_stdin(command: CommandModel) -> bool {
    match command {
        CommandModel::New(new) => new.body == Some(BodyModel::Stdin),
        CommandModel::Change(_, changes) => changes.body == Some(BodyModel::Stdin),
        _ => false,
    }
}

/// Whether standard input has to be read before a command can start.
pub fn reads_stdin(command: &Command) -> (r: bool)
    ensures
        r == wants_stdin(command@),
{
    match command {
        Command::New(new) => matches!(new.body, Some(Body::Stdin)),
        Command::Change(_, changes) => matches!(changes.body, Some(Body::Stdin)),
        _ => false,
    }
}

fn fail(failure: Failure) -> (r: (State, Action))
    ensures
        (r.0@, r.1@) == stopped(failure@),
{
    (State::Done, Action::Fail(failure))
}

fn cannot_read(why: &str) -> (r: (State, Action))
    ensures
        (r.0@, r.1@) == unreadable(why@),
{
    let mut message = "could not read the API's response: ".to_owned();
    message.push_str(why);
    fail(Failure::Failed(message))
}

fn finish(action: Action) -> (r: (State, Action))
    ensures
        (r.0@, r.1@) == finished(action@),
{
    (State::Done, action)
}

fn tag_calls(id: IssueId, names: &Vec<Tag>, add: bool) -> (r: Vec<Task>)
    ensures
        tasks_of(r@) == tag_tasks(id, tag::names(names@), add),
{
    let mut out: Vec<Task> = Vec::new();
    let mut i: usize = 0;
    while i < names.len()
        invariant
            i <= names.len(),
            out.len() == i,
            forall|k: int|
                0 <= k < i ==> (#[trigger] out@[k])@ == tag_tasks(id, tag::names(names@), add)[k],
        decreases names.len() - i,
    {
        let call = if add {
            operations::add_tag(id, &names[i])
        } else {
            operations::remove_tag(id, &names[i])
        };
        let task = Task { name: names[i].as_str().to_owned(), call };
        assert(task@ =~= tag_tasks(id, tag::names(names@), add)[i as int]);
        out.push(task);
        i += 1;
    }
    assert(tasks_of(out@) =~= tag_tasks(id, tag::names(names@), add));
    out
}

fn sub_calls(id: IssueId, children: &Vec<IssueId>, add: bool) -> (r: Vec<Task>)
    ensures
        tasks_of(r@) == sub_tasks(id, children@, add),
{
    let mut out: Vec<Task> = Vec::new();
    let mut i: usize = 0;
    while i < children.len()
        invariant
            i <= children.len(),
            out.len() == i,
            forall|k: int|
                0 <= k < i ==> (#[trigger] out@[k])@ == sub_tasks(id, children@, add)[k],
        decreases children.len() - i,
    {
        let call = if add {
            operations::add_sub_issue(id, children[i])
        } else {
            operations::remove_sub_issue(id, children[i])
        };
        let mut name = "#".to_owned();
        name.push_str(text::decimal_i64(children[i]).as_str());
        let task = Task { name, call };
        assert(task@ =~= sub_tasks(id, children@, add)[i as int]);
        out.push(task);
        i += 1;
    }
    assert(tasks_of(out@) =~= sub_tasks(id, children@, add));
    out
}

/// Makes the first of several requests.
fn send_first(applied: Vec<String>, tasks: Vec<Task>, add: bool) -> (r: (State, Action))
    requires
        tasks@.len() > 0,
    ensures
        (r.0@, r.1@) == sending(text::texts(applied@), tasks_of(tasks@), add),
{
    let mut left = tasks;
    let task = left.remove(0);
    let want = if left.len() == 0 {
        Want::Issue
    } else {
        Want::Nothing
    };
    assert(tasks_of(left@) =~= tasks_of(tasks@).skip(1));
    (State::Applying { applied, name: task.name, left, add }, Action::Send(task.call, want))
}

fn apply(tasks: Vec<Task>, add: bool) -> (r: (State, Action))
    ensures
        (r.0@, r.1@) == applying(tasks_of(tasks@), add),
{
    if tasks.len() == 0 {
        fail(Failure::Usage("nothing to add or remove".to_owned()))
    } else {
        let applied: Vec<String> = Vec::new();
        assert(text::texts(applied@) =~= Seq::<Seq<char>>::empty());
        send_first(applied, tasks, add)
    }
}

/// How a command starts. `stdin` is what standard input held, where the command
/// takes its body from there.
pub fn start(command: Command, stdin: &str, terminal: bool, version: &str) -> (r: (State, Action))
    ensures
        (r.0@, r.1@) == started(command@, stdin@, terminal, version@),
{
    match command {
        Command::Help => finish(Action::Say(help())),
        Command::Version => {
            let mut line = "issue ".to_owned();
            line.push_str(version);
            line.push_str("\n");
            finish(Action::Say(line))
        },
        Command::List(filters) => (
            State::Listing,
            Action::Send(operations::list(&narrowing(filters)), Want::Issues),
        ),
        Command::Show(id) => (State::Fetching, Action::Send(operations::get(id), Want::Issue)),
        Command::New(new) => (
            State::Fetching,
            Action::Send(operations::create(&new_issue(*new, stdin)), Want::Issue),
        ),
        Command::Change(id, changes) => (
            State::Fetching,
            Action::Send(operations::update(id, &patch(*changes, stdin)), Want::Issue),
        ),
        Command::Remove { id, force } => {
            // Looked up first so the question can name what is about to go, and
            // say what happens to its parts, the one thing about deleting that
            // surprises people. `--force` skips both the question and the
            // request.
            if force {
                (State::Deleting { id }, Action::Send(operations::delete(id), Want::Nothing))
            } else if terminal {
                (State::Looking { id }, Action::Send(operations::get(id), Want::Issue))
            } else {
                fail(
                    Failure::Usage(
                        "deleting is permanent and this is not a terminal: pass --force to mean it".to_owned(),
                    ),
                )
            }
        },
        Command::Tags => (State::Counting, Action::Send(operations::tags(), Want::Tags)),
        Command::Tag { id, names, add } => apply(tag_calls(id, &names, add), add),
        Command::Sub { id, children, add } => apply(sub_calls(id, &children, add), add),
    }
}

/// Gathers the parts of an Issue, all in one request.
fn gather(issue: IssueJson, parent: Option<IssueJson>) -> (r: (State, Action))
    ensures
        (r.0@, r.1@) == gathering(issue@, optional_issue(parent)),
{
    if issue.sub_issue_ids.len() == 0 {
        let children: Vec<IssueJson> = Vec::new();
        assert(wire::json_models(children@) =~= Seq::<IssueJsonModel>::empty());
        finish(Action::Show { issue, parent, children })
    } else {
        let children = Narrowing {
            view: View::All,
            tag: None,
            title: None,
            parent: Some(ParentFilter::Under(issue.id)),
        };
        let call = operations::list(&children);
        (State::Gathering { issue, parent }, Action::Send(call, Want::Issues))
    }
}

/// Presents one Issue with its neighbours named rather than numbered. At most
/// two more requests: its parent, and all of its parts in one go.
fn present(issue: IssueJson) -> (r: (State, Action))
    ensures
        (r.0@, r.1@) == presenting(issue@),
{
    match issue.parent_id {
        Some(parent) => (
            State::Naming { issue },
            Action::Send(operations::get(parent), Want::Issue),
        ),
        None => gather(issue, None),
    }
}

fn present_read(found: Found) -> (r: (State, Action))
    ensures
        (r.0@, r.1@) == present_found(found@),
{
    match found {
        Found::Issue(Ok(issue)) => present(issue),
        Found::Issue(Err(why)) => cannot_read(why.as_str()),
        _ => cannot_read("nothing was read"),
    }
}

/// What becomes of the parts of an Issue that is erased.
pub fn released_sentence(parts: usize) -> (r: String)
    ensures
        r@ == released(parts as int),
{
    if parts == 0 {
        let none = String::new();
        assert(none@ =~= Seq::<char>::empty());
        none
    } else if parts == 1 {
        " Its 1 sub-issue will be kept, no longer part of anything.".to_owned()
    } else {
        let mut out = " Its ".to_owned();
        out.push_str(text::decimal_u64(parts as u64).as_str());
        out.push_str(" sub-issues will be kept, no longer part of anything.");
        out
    }
}

fn ask(issue: &IssueJson) -> (r: String)
    ensures
        r@ == question(issue@),
{
    let id = text::decimal_i64(issue.id);
    let mut out = "#".to_owned();
    out.push_str(id.as_str());
    out.push_str(" \u{201c}");
    out.push_str(issue.title.as_str());
    out.push_str("\u{201d} will be erased.");
    out.push_str(released_sentence(issue.sub_issue_ids.len()).as_str());
    out.push_str("\nTo abandon it but keep the record, use `issue set ");
    out.push_str(id.as_str());
    out.push_str(" --status Cancelled`.\nDelete it? [y/N] ");
    out
}

/// Whether an answer means yes.
pub fn is_yes(answer: &str) -> (r: bool)
    ensures
        r == means_yes(answer@),
{
    let word = text::trim(answer);
    text::same(word.as_str(), "y") || text::same(word.as_str(), "Y")
        || text::same(word.as_str(), "yes") || text::same(word.as_str(), "Yes")
}

fn pass(body: Vec<u8>) -> (r: (State, Action))
    ensures
        (r.0@, r.1@) == finished(ActionModel::Pass(ended(body@))),
{
    let mut out = body;
    if out.len() == 0 || out[out.len() - 1] != 10 {
        out.push(10);
    }
    finish(Action::Pass(out))
}

/// What comes next once the API did what was asked.
fn succeed(state: State, json: bool, body: Vec<u8>, found: Found) -> (r: (State, Action))
    ensures
        (r.0@, r.1@) == after_success(state@, json, body@, found@),
{
    match state {
        State::Listing => match found {
            Found::Issues(Ok(list)) => {
                if json {
                    let mut line = wire::issues_json(&list);
                    line.push_str("\n");
                    finish(Action::Say(line))
                } else {
                    finish(Action::List(list))
                }
            },
            Found::Issues(Err(why)) => cannot_read(why.as_str()),
            _ => cannot_read("nothing was read"),
        },
        State::Fetching => {
            if json {
                pass(body)
            } else {
                present_read(found)
            }
        },
        State::Counting => {
            if json {
                pass(body)
            } else {
                match found {
                    Found::Tags(Ok(list)) => finish(Action::Tags(list)),
                    Found::Tags(Err(why)) => cannot_read(why.as_str()),
                    _ => cannot_read("nothing was read"),
                }
            }
        },
        State::Applying { applied, name, left, add } => {
            if left.len() > 0 {
                let mut applied = applied;
                let ghost had = text::texts(applied@);
                let ghost one = name@;
                applied.push(name);
                assert(text::texts(applied@) =~= had.push(one));
                send_first(applied, left, add)
            } else if json {
                pass(body)
            } else {
                present_read(found)
            }
        },
        State::Naming { issue } => match found {
            Found::Issue(Ok(parent)) => gather(issue, Some(parent)),
            Found::Issue(Err(why)) => cannot_read(why.as_str()),
            _ => cannot_read("nothing was read"),
        },
        State::Gathering { issue, parent } => match found {
            Found::Issues(Ok(children)) => finish(Action::Show { issue, parent, children }),
            Found::Issues(Err(why)) => cannot_read(why.as_str()),
            _ => cannot_read("nothing was read"),
        },
        State::Looking { id } => match found {
            Found::Issue(Ok(issue)) => (State::Asking { id }, Action::Ask(ask(&issue))),
            Found::Issue(Err(why)) => cannot_read(why.as_str()),
            _ => cannot_read("nothing was read"),
        },
        State::Deleting { id } => {
            let mut line = "Deleted #".to_owned();
            line.push_str(text::decimal_i64(id).as_str());
            line.push_str(".\n");
            finish(Action::Say(line))
        },
        State::Asking { id: _ } => cannot_read("nothing was asked"),
        State::Done => cannot_read("nothing was asked"),
    }
}

/// What is said when one of several requests was refused. A refusal partway
/// through leaves the earlier ones applied, so the sentence says which landed:
/// otherwise `issue tag add 7 a b c` failing on `b` looks like it did nothing.
fn refuse_midway(applied: &Vec<String>, name: &str, add: bool, why: &str) -> (r: String)
    ensures
        r@ == refused_midway(text::texts(applied@), name@, add, why@),
{
    let mut out = name.to_owned();
    out.push_str(": ");
    out.push_str(why);
    if applied.len() == 0 {
        assert(out@ =~= refused_midway(text::texts(applied@), name@, add, why@));
        return out;
    }
    let mut already = " (already ".to_owned();
    already.push_str(
        if add {
            "applied"
        } else {
            "removed"
        },
    );
    already.push_str(": ");
    already.push_str(text::join(applied, ", ").as_str());
    already.push_str(")");
    out.push_str(already.as_str());
    out
}

/// What comes next. `json` is whether the API's JSON was asked for in place of
/// a table.
pub fn next(state: State, json: bool, event: Event) -> (r: (State, Action))
    ensures
        (r.0@, r.1@) == stepped(state@, json, event@),
{
    match event {
        Event::Unanswered(err) => fail(Failure::from_client(err)),
        Event::Typed(answer) => match state {
            State::Asking { id } => {
                if is_yes(answer.as_str()) {
                    (State::Deleting { id }, Action::Send(operations::delete(id), Want::Nothing))
                } else {
                    fail(Failure::Failed("cancelled".to_owned()))
                }
            },
            _ => cannot_read("nothing was asked"),
        },
        Event::Replied { reply, sentence, found } => {
            if reply.is_success() {
                succeed(state, json, reply.body, found)
            } else {
                let why = reply.error_message(sentence);
                match state {
                    State::Applying { applied, name, left: _, add } => fail(
                        Failure::Failed(refuse_midway(&applied, name.as_str(), add, why.as_str())),
                    ),
                    _ => fail(Failure::Failed(why)),
                }
            }
        },
    }
}

/// How output is painted.
#[derive(Debug, Clone, Copy, PartialEq, Eq, Structural)]
pub enum Paint {
    Always,
    /// As the terminal's description has it.
    Auto,
    Never,
}

/// Whether to paint: as asked, or where output is a terminal and nothing says
/// not to.
pub fn painting(colour: Colour, terminal: bool, no_colour: bool) -> (r: Paint)
    ensures
        r == match colour {
            Colour::Always => Paint::Always,
            Colour::Never => Paint::Never,
            Colour::Auto => if terminal && !no_colour {
                Paint::Auto
            } else {
                Paint::Never
            },
        },
{
    match colour {
        Colour::Always => Paint::Always,
        Colour::Never => Paint::Never,
        Colour::Auto => {
            if terminal && !no_colour {
                Paint::Auto
            } else {
                Paint::Never
            }
        },
    }
}

// ---------------------------------------------------------------------------
// Laws
// ---------------------------------------------------------------------------

/// How many more replies a command can take at most.
pub open spec fn to_go(state: StateModel) -> nat {
    match state {
        StateModel::Done => 0,
        StateModel::Listing => 1,
        StateModel::Counting => 1,
        StateModel::Deleting { .. } => 1,
        StateModel::Gathering { .. } => 1,
        StateModel::Asking { .. } => 2,
        StateModel::Naming { .. } => 2,
        StateModel::Looking { .. } => 3,
        StateModel::Fetching => 3,
        StateModel::Applying { left, .. } => 3 + left.len(),
    }
}

/// Law: every command ends. Whatever comes back, there is less left to wait for
/// than before.
pub proof fn every_event_brings_a_command_closer_to_its_end(
    state: StateModel,
    json: bool,
    event: EventModel,
)
    requires
        !(state is Done),
    ensures
        to_go(stepped(state, json, event).0) < to_go(state),
{
}

/// Law: an Issue is erased only by `--force`, or by a yes to the question that
/// names it.
pub proof fn erasing_takes_force_or_a_yes(
    command: CommandModel,
    stdin: Seq<char>,
    terminal: bool,
    version: Seq<char>,
    state: StateModel,
    json: bool,
    event: EventModel,
    id: IssueId,
)
    ensures
        started(command, stdin, terminal, version).0 == (StateModel::Deleting { id })
            ==> command == (CommandModel::Remove { id, force: true }),
        stepped(state, json, event).0 == (StateModel::Deleting { id }) ==> state
            == (StateModel::Asking { id }) && event is Typed && means_yes(event->Typed_0),
        stepped(state, json, event).0 == (StateModel::Asking { id }) ==> state
            == (StateModel::Looking { id }),
        started(command, stdin, terminal, version).0 == (StateModel::Looking { id })
            ==> command == (CommandModel::Remove { id, force: false }) && terminal,
{
}

/// Whether an action prints a table or a page rather than JSON.
pub open spec fn draws(action: ActionModel) -> bool {
    action is List || action is Tags || action is Show
}

/// Whether a command is on the way to a page.
pub open spec fn is_drawing(state: StateModel) -> bool {
    state is Naming || state is Gathering
}

/// Law: where JSON was asked for, nothing is ever drawn, so what reads the
/// output never chokes on a table.
pub proof fn asking_for_json_draws_nothing(state: StateModel, event: EventModel)
    requires
        !is_drawing(state),
    ensures
        !draws(stepped(state, true, event).1),
        !is_drawing(stepped(state, true, event).0),
{
}

} // verus!
