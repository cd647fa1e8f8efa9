//! The tools an agent sees.

use issue_tracker::client::Reply;
use issue_tracker::domain::{Priority, Status};
use issue_tracker::mcp::{
    priority_labels, read_reply, status_labels, without_bodies, Answer, ChangeSubIssue, ChangeTag,
    CreateIssue, GetIssue, Issues, Item, ListIssues, Listing, NoArguments, PriorityArg, StatusArg,
    UpdateIssue, INSTRUCTIONS,
};
use issue_tracker::operations::Method;

#[test]
fn a_status_is_read_the_way_every_other_entry_point_reads_one() {
    let arg = StatusArg::read("doing").expect("case folds");
    assert_eq!(arg.0, Status::Doing);
    assert_eq!(StatusArg::read("CANCELLED").unwrap().0, Status::Cancelled);
}

#[test]
fn an_unknown_status_names_the_ones_that_exist() {
    let message = StatusArg::read("Wontfix").expect_err("not a status");
    assert!(message.contains("Wontfix"), "{message}");
    for status in Status::ALL {
        assert!(message.contains(status.label()), "{message}");
    }
    assert_eq!(
        message,
        "invalid value: string \"Wontfix\", expected one of Todo, Doing, Blocked, Done, Cancelled"
    );
}

#[test]
fn an_unknown_priority_does_the_same() {
    let message = PriorityArg::read("Critical").expect_err("not a priority");
    assert!(message.contains("Critical"), "{message}");
    assert!(message.contains("Urgent"), "{message}");
}

/// What an agent is offered is built from the domain, so it cannot drift from
/// what the tracker accepts.
#[test]
fn the_schema_offers_the_domains_own_list() {
    let domain: Vec<String> = Status::ALL
        .iter()
        .map(|status| status.label().to_string())
        .collect();
    assert_eq!(status_labels(), domain);

    let domain: Vec<String> = Priority::ALL
        .iter()
        .map(|priority| priority.label().to_string())
        .collect();
    assert_eq!(priority_labels(), domain);
}

#[test]
fn listing_drops_bodies_and_nothing_else() {
    let pair = |name: &str, json: &str| (name.to_string(), json.to_string());
    let issues = Listing::Items(vec![
        Item::Fields(vec![
            pair("id", "1"),
            pair("title", "\"t\""),
            pair("body", "\"long\""),
            pair("tags", "[]"),
        ]),
        Item::Other("7".to_string()),
    ]);
    assert_eq!(
        without_bodies(issues),
        Listing::Items(vec![
            Item::Fields(vec![pair("id", "1"), pair("title", "\"t\""), pair("tags", "[]")]),
            Item::Other("7".to_string()),
        ])
    );
    assert_eq!(
        without_bodies(Listing::Other("null".to_string())),
        Listing::Other("null".to_string())
    );
}

fn listing(tag: Option<&str>, parent: Option<&str>) -> ListIssues {
    ListIssues {
        status: Some(StatusArg(Status::Doing)),
        tag: tag.map(str::to_string),
        parent: parent.map(str::to_string),
        search: Some("flash".into()),
    }
}

#[test]
fn a_listing_asks_for_what_was_asked() {
    let call = Issues.list_issues(listing(Some("ui"), Some("none"))).unwrap();
    assert_eq!(call.method, Method::Get);
    assert_eq!(call.path, "/issues?status=Doing&tag=ui&parent=none&q=flash");

    let err = Issues.list_issues(listing(None, Some("all"))).unwrap_err();
    assert_eq!(err, "unrecognised parent: \"all\" \u{2014} use an issue id or \"none\"");

    // A name that can be no tag narrows nothing.
    let call = Issues.list_issues(listing(Some("  "), None)).unwrap();
    assert_eq!(call.path, "/issues?status=Doing&q=flash");
}

#[test]
fn each_tool_makes_the_request_its_name_says() {
    assert_eq!(Issues.get_issue(GetIssue { id: 7 }).path, "/issues/7");
    assert_eq!(Issues.list_tags(NoArguments {}).path, "/tags");
    let sub = ChangeSubIssue { parent_id: 1, sub_issue_id: 2 };
    assert_eq!(Issues.add_sub_issue(sub).method, Method::Put);
    assert_eq!(Issues.remove_sub_issue(sub).path, "/issues/1/sub-issues/2");
    let tagging = |name: &str| ChangeTag { id: 3, name: name.into() };
    assert_eq!(Issues.add_tag(tagging("ui/theme")).unwrap().path, "/issues/3/tags/ui/theme");
    assert_eq!(Issues.remove_tag(tagging("ui")).unwrap().method, Method::Delete);
    assert_eq!(Issues.add_tag(tagging(" ")).unwrap_err(), "unrecognised tag: \" \"");
}

#[test]
fn filing_and_changing_send_only_what_was_given() {
    let call = Issues.create_issue(CreateIssue {
        title: "Ship it".into(),
        body: None,
        status: None,
        priority: Some(PriorityArg(Priority::High)),
        tags: Some(vec!["ui".into()]),
        parent_id: Some(2),
        size: Some(0),
    });
    let Method::Post(body) = call.method else {
        panic!("expected a new issue")
    };
    let sent: serde_json::Value = serde_json::from_str(&body).unwrap();
    assert_eq!(sent["title"], "Ship it");
    assert_eq!(sent["priority"], "High");
    assert_eq!(sent["size"], 0);
    assert_eq!(sent["parent_id"], 2);
    assert!(sent.get("body").is_none());

    let call = Issues.update_issue(UpdateIssue {
        id: 7,
        title: None,
        body: None,
        status: Some(StatusArg(Status::Done)),
        priority: None,
        size: Some(None),
    });
    assert_eq!(call.path, "/issues/7");
    assert_eq!(call.method, Method::Patch(r#"{"status":"Done","size":null}"#.into()));
}

#[test]
fn a_refusal_reaches_the_agent_unedited() {
    let reply = |status: u16, body: &[u8]| Reply { status, body: body.to_vec() };
    assert_eq!(
        read_reply(reply(409, b"{}"), Some("2 sub-issue(s) are still outstanding".into())),
        Err("2 sub-issue(s) are still outstanding".to_string())
    );
    assert!(read_reply(reply(500, b""), None).unwrap_err().contains("500"));
    assert_eq!(read_reply(reply(204, b""), None), Ok(Answer::Nothing));
    assert_eq!(read_reply(reply(200, b"[]"), None), Ok(Answer::Json(b"[]".to_vec())));
}

#[test]
fn the_instructions_say_what_cannot_be_inferred() {
    assert!(INSTRUCTIONS.contains("Cancelling is not deleting"));
    assert!(INSTRUCTIONS.contains("exactly one level deep"));
    assert!(INSTRUCTIONS.contains("A size of 0 means no work"));
}
