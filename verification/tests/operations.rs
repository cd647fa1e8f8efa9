//! The requests every client of the API makes.

use issue_tracker::api::wire::{NewIssue, PatchIssue};
use issue_tracker::domain::{Narrowing, ParentFilter, Status, Tag, View};
use issue_tracker::operations::{
    add_sub_issue, add_tag, create, delete, get, list, remove_sub_issue, remove_tag, tags, update,
    Method,
};

fn tag(name: &str) -> Tag {
    name.parse().expect("a usable tag")
}

#[test]
fn an_unnarrowed_listing_asks_no_questions() {
    let call = list(&Narrowing::default());
    assert_eq!(call.method, Method::Get);
    assert_eq!(call.path, "/issues");
}

#[test]
fn every_narrowing_reaches_the_query_string() {
    let call = list(&Narrowing {
        view: View::WithStatus(Status::Doing),
        tag: Some(tag("ui")),
        title: Some("flash".into()),
        parent: Some(ParentFilter::Under(7)),
    });
    assert_eq!(call.path, "/issues?status=Doing&tag=ui&parent=7&q=flash");
}

#[test]
fn view_all_is_the_absence_of_a_status() {
    // Not a Status called "All": the server would reject that.
    let call = list(&Narrowing::for_view(View::All));
    assert_eq!(call.path, "/issues");
}

#[test]
fn unparented_is_spelled_out() {
    let call = list(&Narrowing {
        parent: Some(ParentFilter::Unparented),
        ..Default::default()
    });
    assert_eq!(call.path, "/issues?parent=none");
}

#[test]
fn query_values_are_encoded_and_a_slash_is_not_special_there() {
    let call = list(&Narrowing {
        tag: Some(tag("ui/theme")),
        title: Some("needs design & care".into()),
        ..Default::default()
    });
    assert_eq!(
        call.path,
        "/issues?tag=ui%2Ftheme&q=needs%20design%20%26%20care"
    );
}

#[test]
fn a_tag_name_keeps_its_slashes_but_loses_its_spaces() {
    // The API reads everything after `/tags/` as the name, so a slash
    // must survive there; a space must not.
    assert_eq!(add_tag(3, &tag("ui/theme")).path, "/issues/3/tags/ui/theme");
    assert_eq!(
        remove_tag(3, &tag("needs design")).path,
        "/issues/3/tags/needs%20design"
    );
    assert_eq!(add_tag(3, &tag("ui")).method, Method::Put);
    assert_eq!(remove_tag(3, &tag("ui")).method, Method::Delete);
}

#[test]
fn a_patch_names_only_what_it_changes() {
    // The whole point of PATCH: a body carrying `"title": null` would be
    // a caller claiming to change a title it never mentioned.
    let call = update(
        7,
        &PatchIssue {
            status: Some("Done".into()),
            ..Default::default()
        },
    );
    assert_eq!(call.path, "/issues/7");
    assert_eq!(call.method, Method::Patch(r#"{"status":"Done"}"#.into()));
}

#[test]
fn an_empty_patch_says_nothing_at_all() {
    assert_eq!(
        update(7, &PatchIssue::default()).method,
        Method::Patch("{}".into())
    );
}

#[test]
fn a_create_body_carries_the_title_and_whatever_else_was_given() {
    let call = create(&NewIssue {
        title: "Ship it".into(),
        parent_id: Some(2),
        rest: PatchIssue {
            status: Some("Doing".into()),
            tags: Some(vec!["ui".into()]),
            ..Default::default()
        },
        ..Default::default()
    });
    assert_eq!(call.path, "/issues");
    assert_eq!(
        call.method,
        Method::Post(
            r#"{"title":"Ship it","parent_id":2,"status":"Doing","tags":["ui"]}"#.into()
        )
    );
}

#[test]
fn a_bare_create_sends_only_a_title() {
    let call = create(&NewIssue {
        title: "Just this".into(),
        ..Default::default()
    });
    assert_eq!(call.method, Method::Post(r#"{"title":"Just this"}"#.into()));
}

#[test]
fn the_remaining_endpoints_are_addressed_as_the_api_spells_them() {
    assert_eq!(get(7).path, "/issues/7");
    assert_eq!(get(7).method, Method::Get);
    assert_eq!(delete(7).method, Method::Delete);
    assert_eq!(tags().path, "/tags");
    assert_eq!(add_sub_issue(1, 2).path, "/issues/1/sub-issues/2");
    assert_eq!(add_sub_issue(1, 2).method, Method::Put);
    assert_eq!(remove_sub_issue(1, 2).method, Method::Delete);
}

#[test]
fn a_method_carries_its_own_body_and_name() {
    assert_eq!(Method::Get.name(), "GET");
    assert_eq!(Method::Get.body(), None);
    assert_eq!(Method::Put.body(), None);
    assert_eq!(Method::Post("{}".into()).body(), Some("{}"));
    assert_eq!(Method::Patch("{}".into()).name(), "PATCH");
}

#[test]
fn a_title_with_quotes_is_written_as_json_writes_it() {
    let call = create(&NewIssue {
        title: "say \"hi\"\n\u{1}".into(),
        ..Default::default()
    });
    assert_eq!(
        call.method,
        Method::Post(r#"{"title":"say \"hi\"\n\u0001"}"#.into())
    );
}
