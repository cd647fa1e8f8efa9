//! Commands in progress.

use issue_tracker::api::wire::{IssueJson, TagJson};
use issue_tracker::cli::args::{parse, Colour, Command};
use issue_tracker::cli::session::{
    is_yes, next, painting, reads_stdin, released_sentence, start, Action, Event, Found, Paint,
    State, Want,
};
use issue_tracker::cli::Failure;
use issue_tracker::client::{ClientError, Reply};
use issue_tracker::operations::Method;

fn command(line: &str) -> Command {
    parse(line.split_whitespace().map(String::from).collect()).expect(line).command
}

fn begin(line: &str) -> (State, Action) {
    start(command(line), "", true, "1.2.3")
}

fn issue(id: i64) -> IssueJson {
    IssueJson {
        id,
        title: format!("issue {id}"),
        body: String::new(),
        status: "Todo".into(),
        priority: "None".into(),
        size: None,
        total_size: None,
        unsized_sub_issues: 0,
        tags: Vec::new(),
        parent_id: None,
        sub_issue_ids: Vec::new(),
        settled_sub_issues: 0,
        created_at: "2026-09-05T14:23:11.482913Z".into(),
        updated_at: "2026-09-05T14:23:11.482913Z".into(),
    }
}

fn ok(found: Found) -> Event {
    Event::Replied {
        reply: Reply { status: 200, body: b"{\"raw\":true}".to_vec() },
        sentence: None,
        found,
    }
}

fn refused(status: u16, sentence: Option<&str>) -> Event {
    Event::Replied {
        reply: Reply { status, body: Vec::new() },
        sentence: sentence.map(str::to_string),
        found: Found::Nothing,
    }
}

fn sent(action: &Action) -> (&Method, &str, Want) {
    match action {
        Action::Send(call, want) => (&call.method, call.path.as_str(), *want),
        other => panic!("expected a request, got {other:?}"),
    }
}

fn failure(action: Action) -> Failure {
    match action {
        Action::Fail(failure) => failure,
        other => panic!("expected a failure, got {other:?}"),
    }
}

#[test]
fn help_and_version_need_nobody_to_answer() {
    let (state, action) = begin("--version");
    assert!(matches!(state, State::Done));
    assert!(matches!(action, Action::Say(text) if text == "issue 1.2.3\n"));
    let (_, action) = begin("help");
    assert!(matches!(action, Action::Say(text) if text.contains("USAGE")));
}

#[test]
fn a_list_is_one_request_and_a_table() {
    let (state, action) = begin("list --status doing");
    assert_eq!(sent(&action), (&Method::Get, "/issues?status=Doing", Want::Issues));
    let (state, action) = next(state, false, ok(Found::Issues(Ok(vec![issue(1)]))));
    assert!(matches!(state, State::Done));
    assert!(matches!(action, Action::List(list) if list.len() == 1));

    let (state, _) = begin("list");
    let (_, action) = next(state, true, ok(Found::Issues(Ok(Vec::new()))));
    assert!(matches!(action, Action::Say(text) if text == "[]\n"));

    let (state, _) = begin("list");
    let (_, action) = next(state, false, ok(Found::Issues(Err("bad".into()))));
    assert_eq!(
        failure(action),
        Failure::Failed("could not read the API's response: bad".into())
    );
}

#[test]
fn showing_names_the_neighbours_in_two_more_requests() {
    let mut child = issue(5);
    child.parent_id = Some(1);
    let (state, action) = begin("show 5");
    assert_eq!(sent(&action), (&Method::Get, "/issues/5", Want::Issue));
    let (state, action) = next(state, false, ok(Found::Issue(Ok(child))));
    assert_eq!(sent(&action), (&Method::Get, "/issues/1", Want::Issue));
    let (state, action) = next(state, false, ok(Found::Issue(Ok(issue(1)))));
    assert!(matches!(state, State::Done));
    assert!(matches!(
        action,
        Action::Show { issue, parent: Some(parent), children }
            if issue.id == 5 && parent.id == 1 && children.is_empty()
    ));

    let mut parent = issue(1);
    parent.sub_issue_ids = vec![5, 6];
    let (state, _) = begin("show 1");
    let (state, action) = next(state, false, ok(Found::Issue(Ok(parent))));
    assert_eq!(sent(&action), (&Method::Get, "/issues?parent=1", Want::Issues));
    let (_, action) = next(state, false, ok(Found::Issues(Ok(vec![issue(5), issue(6)]))));
    assert!(matches!(action, Action::Show { children, .. } if children.len() == 2));
}

#[test]
fn json_is_passed_through_as_the_api_sent_it() {
    let (state, _) = begin("show 5");
    let (state, action) = next(state, true, ok(Found::Nothing));
    assert!(matches!(state, State::Done));
    assert!(matches!(action, Action::Pass(bytes) if bytes == b"{\"raw\":true}\n"));
}

#[test]
fn tags_are_listed_or_passed_through() {
    let (state, action) = begin("tags");
    assert_eq!(sent(&action), (&Method::Get, "/tags", Want::Tags));
    let tags = vec![TagJson { name: "ui".into(), count: 2 }];
    let (_, action) = next(state, false, ok(Found::Tags(Ok(tags))));
    assert!(matches!(action, Action::Tags(list) if list.len() == 1));
}

#[test]
fn a_refusal_partway_says_what_landed() {
    let (state, action) = begin("tag add 7 a b c");
    assert_eq!(sent(&action), (&Method::Put, "/issues/7/tags/a", Want::Nothing));
    let (state, action) = next(state, false, ok(Found::Nothing));
    assert_eq!(sent(&action).1, "/issues/7/tags/b");
    let (state, action) = next(state, false, refused(409, Some("no")));
    assert!(matches!(state, State::Done));
    assert_eq!(failure(action), Failure::Failed("b: no (already applied: a)".into()));

    let (state, _) = begin("sub rm 7 12 13");
    let (state, _) = next(state, false, ok(Found::Nothing));
    let (_, action) = next(state, false, refused(500, None));
    assert_eq!(
        failure(action),
        Failure::Failed(
            "#13: the API returned 500 with no explanation (already removed: #12)".into()
        )
    );

    let (state, _) = begin("tag rm 7 a");
    let (_, action) = next(state, false, refused(404, Some("no issue #7")));
    assert_eq!(failure(action), Failure::Failed("a: no issue #7".into()));
}

#[test]
fn the_last_of_several_requests_is_the_one_that_is_shown() {
    let (state, action) = begin("sub add 7 12 13");
    assert_eq!(sent(&action), (&Method::Put, "/issues/7/sub-issues/12", Want::Nothing));
    let (state, action) = next(state, false, ok(Found::Nothing));
    assert_eq!(sent(&action), (&Method::Put, "/issues/7/sub-issues/13", Want::Issue));
    let (state, action) = next(state, false, ok(Found::Issue(Ok(issue(7)))));
    assert!(matches!(state, State::Done));
    assert!(matches!(action, Action::Show { issue, .. } if issue.id == 7));

    let nothing = Command::Sub { id: 7, children: Vec::new(), add: true };
    let (_, action) = start(nothing, "", true, "");
    assert_eq!(failure(action), Failure::Usage("nothing to add or remove".into()));
}

#[test]
fn deleting_takes_force_or_a_yes() {
    let (state, action) = begin("rm 7 --force");
    assert_eq!(sent(&action), (&Method::Delete, "/issues/7", Want::Nothing));
    let (_, action) = next(state, false, ok(Found::Nothing));
    assert!(matches!(action, Action::Say(text) if text == "Deleted #7.\n"));

    let (_, action) = start(command("rm 7"), "", false, "");
    assert_eq!(
        failure(action),
        Failure::Usage(
            "deleting is permanent and this is not a terminal: pass --force to mean it".into()
        )
    );

    for (answer, erased) in [("y\n", true), (" Yes ", true), ("no\n", false), ("\n", false)] {
        let mut doomed = issue(7);
        doomed.sub_issue_ids = vec![8];
        let (state, action) = begin("rm 7");
        assert_eq!(sent(&action), (&Method::Get, "/issues/7", Want::Issue));
        let (state, action) = next(state, false, ok(Found::Issue(Ok(doomed))));
        let question = match action {
            Action::Ask(question) => question,
            other => panic!("expected a question, got {other:?}"),
        };
        assert_eq!(
            question,
            "#7 \u{201c}issue 7\u{201d} will be erased. Its 1 sub-issue will be kept, no longer \
             part of anything.\nTo abandon it but keep the record, use `issue set 7 --status \
             Cancelled`.\nDelete it? [y/N] "
        );
        let (_, action) = next(state, false, Event::Typed(answer.into()));
        if erased {
            assert_eq!(sent(&action).0, &Method::Delete);
        } else {
            assert_eq!(failure(action), Failure::Failed("cancelled".into()));
        }
    }
}

#[test]
fn an_app_that_is_not_running_is_its_own_failure() {
    let (state, _) = begin("list");
    let (_, action) = next(state, false, Event::Unanswered(ClientError::NotRunning("gone".into())));
    assert_eq!(failure(action).code(), 3);
    let (state, _) = begin("list");
    let (_, action) = next(state, false, Event::Unanswered(ClientError::Failed("broke".into())));
    assert_eq!(failure(action), Failure::Failed("broke".into()));
}

#[test]
fn stdin_is_read_only_where_a_body_comes_from_it() {
    assert!(reads_stdin(&command("new t --body -")));
    assert!(reads_stdin(&command("set 7 --body -")));
    assert!(!reads_stdin(&command("new t --body text")));
    assert!(!reads_stdin(&command("list")));
    let (_, action) = start(command("new t --body -"), "piped", true, "");
    assert_eq!(
        sent(&action).0,
        &Method::Post(r#"{"title":"t","body":"piped"}"#.into())
    );
}

#[test]
fn colour_is_for_terminals_that_did_not_say_no() {
    assert_eq!(painting(Colour::Always, false, true), Paint::Always);
    assert_eq!(painting(Colour::Never, true, false), Paint::Never);
    assert_eq!(painting(Colour::Auto, true, false), Paint::Auto);
    assert_eq!(painting(Colour::Auto, false, false), Paint::Never);
    assert_eq!(painting(Colour::Auto, true, true), Paint::Never);
}

#[test]
fn only_four_words_mean_yes() {
    for yes in ["y", "Y", "yes", "Yes", " y\n"] {
        assert!(is_yes(yes), "{yes:?}");
    }
    for no in ["", "YES", "yep", "n"] {
        assert!(!is_yes(no), "{no:?}");
    }
    assert_eq!(released_sentence(0), "");
    assert_eq!(
        released_sentence(3),
        " Its 3 sub-issues will be kept, no longer part of anything."
    );
}
