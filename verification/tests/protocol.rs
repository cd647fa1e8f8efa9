//! What a client asks is what the API hears, and what the API answers is what a
//! client reads.

use issue_tracker::api::routes::{narrowing_of, route, Route};
use issue_tracker::api::{parse, Parsed, Request, Response};
use issue_tracker::client::{encode, parse_reply, request_bytes};
use issue_tracker::domain::{Narrowing, ParentFilter, Status, Tag, View};
use issue_tracker::operations::{self, Call};
use issue_tracker::percent::{percent_decode, percent_decode_plus};

fn heard(call: &Call) -> Request {
    match parse(&request_bytes(8787, "token", call)) {
        Parsed::Complete(request) => request,
        other => panic!("expected a request, got {other:?}"),
    }
}

fn tag(name: &str) -> Tag {
    name.parse().expect("a usable tag")
}

#[test]
fn a_listing_is_heard_as_it_was_asked() {
    for narrowing in [
        Narrowing::default(),
        Narrowing {
            view: View::WithStatus(Status::Blocked),
            tag: Some(tag("needs design & care")),
            title: Some("50% + ü = ?".into()),
            parent: Some(ParentFilter::Under(-3)),
        },
        Narrowing {
            parent: Some(ParentFilter::Unparented),
            ..Default::default()
        },
    ] {
        let request = heard(&operations::list(&narrowing));
        assert_eq!(request.path, "/issues");
        assert_eq!(narrowing_of(&request).unwrap(), narrowing);
    }
}

#[test]
fn every_path_addresses_what_it_was_made_for() {
    let request = heard(&operations::get(7));
    assert!(matches!(route(&request.path), Some(Route::Issue(7))));
    for name in ["ui/theme", "needs design", "100%", "Ärger", "a+b", "?#"] {
        let request = heard(&operations::add_tag(3, &tag(name)));
        match route(&request.path) {
            Some(Route::IssueTag(3, heard)) => assert_eq!(heard, name),
            other => panic!("{name} was heard as {other:?}"),
        }
    }
    let request = heard(&operations::add_sub_issue(1, 2));
    assert!(matches!(route(&request.path), Some(Route::IssueSubIssue(1, 2))));
    assert!(matches!(route("/tags"), Some(Route::Tags)));
    assert!(route("/issues/1/2").is_none());
}

#[test]
fn a_response_reads_back_as_it_was_written() {
    let response = Response::json(201, r#"{"a":"b"}"#).with_header("Location", "/issues/1");
    let reply = parse_reply(&response.to_bytes()).unwrap();
    assert_eq!(reply.status, 201);
    assert_eq!(reply.body, response.body);
}

#[test]
fn what_is_encoded_decodes_to_itself() {
    for text in ["", "plain", "two words", "a/b?c&d=e", "50%", "Ärger \u{1f600}", "a+b"] {
        let encoded = encode(text, false);
        assert_eq!(percent_decode(&encoded), text);
        assert_eq!(percent_decode_plus(&encoded), text);
        assert!(encoded.is_ascii());
    }
    assert_eq!(encode("ui/theme x", true), "ui/theme%20x");
}
