//! The command line's requests and exit codes.

use issue_tracker::cli::args::{Body, Changes, Filters, NewIssue};
use issue_tracker::cli::session::{help, narrowing, new_issue, patch, read_body};
use issue_tracker::cli::Failure;
use issue_tracker::client::ClientError;
use issue_tracker::domain::{Narrowing, ParentFilter, Priority, Status, Tag, View};
use issue_tracker::operations::{update, Method};

/// A patch as it goes over the wire.
fn written(patch: &issue_tracker::api::wire::PatchIssue) -> String {
    match update(1, patch).method {
        Method::Patch(body) => body,
        other => panic!("expected a patch, got {other:?}"),
    }
}

fn tag(name: &str) -> Tag {
    name.parse().expect("a usable tag")
}

/// The help text is built from `Status::ALL`/`Priority::ALL` because a
/// hardcoded list had already drifted from the domain once — it offered a
/// priority called "Normal", which has never existed.
#[test]
fn the_help_text_offers_exactly_what_the_domain_accepts() {
    let help = help();
    for status in Status::ALL {
        assert!(help.contains(status.label()), "{}", status.label());
    }
    for priority in Priority::ALL {
        assert!(help.contains(priority.label()), "{}", priority.label());
    }
    assert!(!help.contains("Normal"), "the label that never existed");
}

#[test]
fn an_absent_status_filter_is_the_view_that_admits_everything() {
    let narrowed = narrowing(Filters::default());
    assert_eq!(narrowed.view, View::All);
    assert_eq!(narrowed, Narrowing::default());
}

#[test]
fn each_filter_reaches_the_narrowing() {
    let narrowed = narrowing(Filters {
        status: Some(Status::Doing),
        tag: Some(tag("ui")),
        search: Some("flash".into()),
        parent: Some(ParentFilter::Unparented),
    });

    assert_eq!(narrowed.view, View::WithStatus(Status::Doing));
    assert_eq!(narrowed.tag, Some(tag("ui")));
    assert_eq!(narrowed.title.as_deref(), Some("flash"));
    assert_eq!(narrowed.parent, Some(ParentFilter::Unparented));
}

#[test]
fn a_new_issue_carries_only_what_was_asked_for() {
    let body = new_issue(NewIssue {
        title: "Ship it".into(),
        body: Some(Body::Text("notes".into())),
        status: Some(Status::Doing),
        priority: Some(Priority::High),
        tags: vec![tag("ui")],
        parent: Some(3),
        size: Some(5),
    }, "");

    assert_eq!(body.title, "Ship it");
    assert_eq!(body.parent_id, Some(3));
    assert_eq!(body.rest.body.as_deref(), Some("notes"));
    assert_eq!(body.rest.status.as_deref(), Some("Doing"));
    assert_eq!(body.rest.priority.as_deref(), Some("High"));
    assert_eq!(body.rest.tags, Some(vec!["ui".to_string()]));
    assert_eq!(body.rest.size, Some(Some(5)));
}

#[test]
fn no_tags_says_nothing_about_tags_rather_than_clearing_them() {
    // `PATCH {tags: []}` clears the set, so an absent `--tag` must not
    // serialise as an empty list.
    let body = new_issue(NewIssue {
        title: "Bare".into(),
        body: None,
        status: None,
        priority: None,
        tags: Vec::new(),
        parent: None,
        size: None,
    }, "");

    assert_eq!(body.rest.tags, None);
    assert_eq!(body.rest.status, None);
    assert_eq!(body.rest.size, None, "absent, not sized zero");
    assert_eq!(body.parent_id, None);
}

#[test]
fn a_patch_names_only_the_fields_that_were_given() {
    let changed = patch(Changes {
        title: None,
        body: None,
        status: Some(Status::Cancelled),
        priority: None,
        size: None,
    }, "");

    assert_eq!(changed.status.as_deref(), Some("Cancelled"));
    assert_eq!(changed.title, None);
    assert_eq!(changed.body, None);
    assert_eq!(changed.priority, None);
    // The field that exists only to be rejected must never be sent.
    assert!(changed.parent_id.is_none());
}

#[test]
fn setting_a_size_and_clearing_one_are_different_patches() {
    let sized = patch(Changes {
        size: Some(Some(8)),
        ..Default::default()
    }, "");
    assert_eq!(written(&sized), r#"{"size":8}"#);

    let cleared = patch(Changes {
        size: Some(None),
        ..Default::default()
    }, "");
    assert_eq!(
        written(&cleared),
        r#"{"size":null}"#,
        "`--size none` has to reach the wire as an explicit null"
    );
}

#[test]
fn an_empty_change_set_produces_an_empty_patch() {
    let changed = patch(Changes::default(), "");
    assert_eq!(written(&changed), "{}");
}

#[test]
fn a_literal_body_needs_no_stdin() {
    assert_eq!(
        read_body(Some(Body::Text("written out".into())), "").as_deref(),
        Some("written out")
    );
}

#[test]
fn the_exit_codes_are_the_ones_a_wrapper_branches_on() {
    assert_eq!(Failure::usage("x").code(), 2);
    assert_eq!(Failure::failed("x").code(), 1);
    assert_eq!(Failure::not_running("x").code(), 3);
    assert_eq!(Failure::failed("why").message(), "why");

    // The client knows only whether there was an app to talk to; the exit
    // code is the CLI's business.
    assert_eq!(
        Failure::from_client(ClientError::NotRunning("gone".into())),
        Failure::NotRunning("gone".into())
    );
    assert_eq!(
        Failure::from_client(ClientError::Failed("broke".into())),
        Failure::Failed("broke".into())
    );
}

#[test]
fn a_body_from_stdin_is_what_stdin_held() {
    assert_eq!(read_body(Some(Body::Stdin), "piped\n").as_deref(), Some("piped\n"));
    assert_eq!(read_body(None, "piped\n"), None);
}
