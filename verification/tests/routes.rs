//! The endpoints, with a database behind them.

use issue_tracker::api::routes::{
    create_issue, deleted, dispatch, inserted, json_source, patch_issue, updated,
};
use issue_tracker::api::wire::{NewIssue, PatchIssue};
use issue_tracker::api::{parse, Parsed, Request, Response, Step};
use issue_tracker::domain::{Issue, IssueId, Status};
use issue_tracker::projection::{Change, IssuePatch, Projection, Stamp, Written};
use issue_tracker::store::rows::{read_issue, with_tags, write_issue, IssueRow};
use issue_tracker::time::Timestamp;

/// The rows a database would hold, written and read the way it would.
#[derive(Default)]
struct Disk {
    rows: Vec<IssueRow>,
    tags: Vec<(IssueId, String)>,
    clock: i64,
    next: IssueId,
    /// Refuses every write.
    read_only: bool,
    /// Refuses every Tag.
    no_tags: bool,
}

impl Disk {
    fn tick(&mut self) -> Timestamp {
        self.clock += 1;
        Timestamp::from_parts(1_780_000_000 + self.clock, 0).expect("a moment")
    }

    fn check(&self, issue: &Issue) -> Result<(), String> {
        if self.read_only {
            return Err("attempt to write a readonly database".to_string());
        }
        if self.no_tags && !issue.tags.is_empty() {
            return Err("sabotaged".to_string());
        }
        Ok(())
    }

    fn tag(&mut self, issue: &Issue) {
        self.tags.retain(|(id, _)| *id != issue.id);
        for tag in &issue.tags {
            self.tags.push((issue.id, tag.as_str().to_string()));
        }
    }

    fn insert(&mut self, draft: &Issue) -> Result<Stamp, String> {
        self.check(draft)?;
        self.next += 1;
        let at = self.tick();
        let mut issue = draft.clone();
        issue.id = self.next;
        issue.created_at = at;
        issue.updated_at = at;
        self.rows.push(write_issue(&issue));
        self.tag(&issue);
        Ok(Stamp { id: issue.id, at })
    }

    fn update(&mut self, next: &Issue) -> Result<Timestamp, String> {
        self.check(next)?;
        let at = self.tick();
        let mut issue = next.clone();
        issue.updated_at = at;
        for row in &mut self.rows {
            if row.id == issue.id {
                *row = write_issue(&issue);
            }
        }
        self.tag(&issue);
        Ok(at)
    }

    fn delete(&mut self, id: IssueId) -> Result<(), String> {
        if self.read_only {
            return Err("attempt to write a readonly database".to_string());
        }
        self.rows.retain(|row| row.id != id);
        self.tags.retain(|(owner, _)| *owner != id);
        for row in &mut self.rows {
            if row.parent_id == Some(id) {
                row.parent_id = None;
            }
        }
        Ok(())
    }

    fn load_all(&self) -> Vec<Issue> {
        let issues = self
            .rows
            .iter()
            .map(|row| read_issue(row.clone()).expect("a readable row"))
            .collect();
        with_tags(issues, &self.tags).expect("usable tags")
    }
}

/// The projection with a database behind it.
struct Desk {
    projection: Projection,
    disk: Disk,
}

impl Desk {
    fn commit(&mut self, change: Written<Change>) -> Written<Issue> {
        match change? {
            Change::Unchanged(issue) => Ok(issue),
            Change::Write(next) => {
                let stored = self.disk.update(&next);
                self.projection.updated(next, stored)
            }
        }
    }

    fn create(
        &mut self,
        title: &str,
        rest: IssuePatch,
        parent: Option<IssueId>,
    ) -> Written<Issue> {
        let draft = self.projection.create(title, rest, parent)?;
        let stored = self.disk.insert(&draft);
        self.projection.created(draft, stored)
    }

    fn patch(&mut self, id: IssueId, patch: IssuePatch) -> Written<Issue> {
        let change = self.projection.patch(id, patch);
        self.commit(change)
    }

    fn set_parent(&mut self, child: IssueId, parent: Option<IssueId>) -> Written<Issue> {
        let change = self.projection.set_parent(child, parent);
        self.commit(change)
    }

    fn issues(&self) -> &[Issue] {
        self.projection.issues()
    }

    fn get(&self, id: IssueId) -> Option<&Issue> {
        self.projection.get(id)
    }
}

fn projection() -> Desk {
    Desk {
        projection: Projection::load(Vec::new()),
        disk: Disk::default(),
    }
}

/// The JSON of a value.
fn source(value: &serde_json::Value) -> String {
    serde_json::to_string(value).expect("JSON")
}

/// A field that is text, where it is there.
fn text_field(
    fields: &serde_json::Map<String, serde_json::Value>,
    name: &str,
) -> Result<Option<String>, String> {
    match fields.get(name) {
        None => Ok(None),
        Some(serde_json::Value::String(text)) => Ok(Some(text.clone())),
        Some(other) => Err(format!("{name} is no text: {other}")),
    }
}

/// The fields that a patch and a new Issue share.
fn shared_fields(
    fields: &serde_json::Map<String, serde_json::Value>,
) -> Result<PatchIssue, String> {
    let tags = match fields.get("tags") {
        None => None,
        Some(serde_json::Value::Array(list)) => {
            let mut tags = Vec::new();
            for one in list {
                tags.push(one.as_str().ok_or("a tag is text")?.to_string());
            }
            Some(tags)
        }
        Some(other) => return Err(format!("tags is no list: {other}")),
    };
    let size = match fields.get("size") {
        None => None,
        Some(serde_json::Value::Null) => Some(None),
        Some(value) => {
            let number = value.as_u64().ok_or("size is a number")?;
            Some(Some(u8::try_from(number).map_err(|err| err.to_string())?))
        }
    };
    Ok(PatchIssue {
        title: None,
        body: text_field(fields, "body")?,
        status: text_field(fields, "status")?,
        priority: text_field(fields, "priority")?,
        tags,
        size,
        parent_id: None,
    })
}

/// A patch as its JSON has it.
fn decode_patch(raw: &[u8]) -> Result<PatchIssue, String> {
    let value: serde_json::Value = serde_json::from_slice(raw).map_err(|err| err.to_string())?;
    let fields = value.as_object().ok_or("a patch is an object")?;
    let known = ["title", "body", "status", "priority", "tags", "size", "parent_id"];
    for name in fields.keys() {
        if !known.contains(&name.as_str()) {
            return Err(format!("unknown field `{name}`"));
        }
    }
    let mut patch = shared_fields(fields)?;
    patch.title = text_field(fields, "title")?;
    patch.parent_id = fields.get("parent_id").map(source);
    Ok(patch)
}

/// A new Issue as its JSON has it.
fn decode_new(raw: &[u8]) -> Result<NewIssue, String> {
    let value: serde_json::Value = serde_json::from_slice(raw).map_err(|err| err.to_string())?;
    let fields = value.as_object().ok_or("a new issue is an object")?;
    let known = ["title", "body", "status", "priority", "tags", "size", "parent_id"];
    let unknown = fields
        .iter()
        .filter(|(name, _)| !known.contains(&name.as_str()))
        .map(|(name, value)| (name.clone(), source(value)))
        .collect();
    Ok(NewIssue {
        title: text_field(fields, "title")?.ok_or("missing field `title`")?,
        parent_id: match fields.get("parent_id") {
            None | Some(serde_json::Value::Null) => None,
            Some(value) => Some(value.as_i64().ok_or("parent_id is a number")?),
        },
        rest: shared_fields(fields)?,
        unknown,
    })
}

/// Answers a request: decodes what is to be decoded, writes what is to be
/// written.
fn answer(request: &Request, desk: &mut Desk) -> Response {
    let mut step = dispatch(request, &desk.projection);
    loop {
        step = match step {
            Step::Respond(response) => return response,
            Step::ReadNewIssue => {
                create_issue(decode_new(&json_source(request)), &desk.projection)
            }
            Step::ReadPatch(id) => {
                patch_issue(id, decode_patch(&json_source(request)), &desk.projection)
            }
            Step::Insert(draft) => {
                let stored = desk.disk.insert(&draft);
                return inserted(&mut desk.projection, draft, stored);
            }
            Step::Update(next) => {
                let stored = desk.disk.update(&next);
                return updated(&mut desk.projection, next, stored);
            }
            Step::Delete(id) => {
                let stored = desk.disk.delete(id);
                return deleted(&mut desk.projection, id, stored);
            }
        };
    }
}

/// A list of strings, as JSON.
fn strings(list: &[&str]) -> serde_json::Value {
    serde_json::Value::from(list.to_vec())
}

/// A list of numbers, as JSON.
fn numbers(list: &[i64]) -> serde_json::Value {
    serde_json::Value::from(list.to_vec())
}

/// Sends a request, skipping the auth guard (exercised in `auth`).
fn send(projection: &mut Desk, method: &str, target: &str, body: &str) -> Response {
    let raw = if body.is_empty() {
        format!("{method} {target} HTTP/1.1\r\nHost: 127.0.0.1\r\n\r\n")
    } else {
        format!(
            "{method} {target} HTTP/1.1\r\nHost: 127.0.0.1\r\nContent-Length: {}\r\n\r\n{body}",
            body.len()
        )
    };
    match parse(raw.as_bytes()) {
        Parsed::Complete(request) => answer(&request, projection),
        other => panic!("could not build the request: {other:?}"),
    }
}

fn json(response: &Response) -> serde_json::Value {
    serde_json::from_slice(&response.body).expect("a JSON body")
}

#[test]
fn an_unknown_path_is_not_found() {
    let mut p = projection();
    assert_eq!(send(&mut p, "GET", "/nope", "").status, 404);
    assert_eq!(send(&mut p, "GET", "/issues/notanumber", "").status, 404);
}

#[test]
fn a_wrong_method_says_what_is_allowed() {
    let mut p = projection();
    let response = send(&mut p, "DELETE", "/issues", "");
    assert_eq!(response.status, 405);
    assert!(
        response
            .headers
            .iter()
            .any(|(name, value)| name == "Allow" && value.contains("POST"))
    );
}

#[test]
fn creating_returns_201_and_where_it_went() {
    let mut p = projection();
    let response = send(&mut p, "POST", "/issues", r#"{"title":"filed by script"}"#);

    assert_eq!(response.status, 201);
    let id = json(&response)["id"].as_i64().unwrap();
    assert!(
        response
            .headers
            .iter()
            .any(|(name, value)| name == "Location" && value == &format!("/issues/{id}"))
    );
    assert_eq!(json(&response)["status"], "Todo");
}

#[test]
fn creating_applies_every_field_in_one_call() {
    let mut p = projection();
    let response = send(
        &mut p,
        "POST",
        "/issues",
        r#"{"title":"full","body":"b","status":"Doing","priority":"Urgent","tags":["Bug","ui"]}"#,
    );

    assert_eq!(response.status, 201);
    let issue = json(&response);
    assert_eq!(issue["body"], "b");
    assert_eq!(issue["status"], "Doing");
    assert_eq!(issue["priority"], "Urgent");
    assert_eq!(issue["tags"], strings(&["Bug", "ui"]));
}

#[test]
fn a_blank_title_is_refused() {
    let mut p = projection();
    assert_eq!(
        send(&mut p, "POST", "/issues", r#"{"title":"  "}"#).status,
        400
    );
    assert_eq!(send(&mut p, "POST", "/issues", "{}").status, 400);
}

#[test]
fn a_bad_enum_value_is_a_400_naming_the_offender() {
    let mut p = projection();
    let response = send(
        &mut p,
        "POST",
        "/issues",
        r#"{"title":"t","status":"Wontfix"}"#,
    );
    assert_eq!(response.status, 400);
    assert!(
        json(&response)["error"]
            .as_str()
            .unwrap()
            .contains("Wontfix")
    );
}

#[test]
fn malformed_json_is_a_400_not_a_panic() {
    let mut p = projection();
    assert_eq!(send(&mut p, "POST", "/issues", "{not json").status, 400);
}

#[test]
fn reading_one_issue_or_failing_to() {
    let mut p = projection();
    let created = p.create("readable", IssuePatch::default(), None).unwrap();

    let found = send(&mut p, "GET", &format!("/issues/{}", created.id), "");
    assert_eq!(found.status, 200);
    assert_eq!(json(&found)["title"], "readable");

    assert_eq!(send(&mut p, "GET", "/issues/9999", "").status, 404);
}

#[test]
fn a_patch_touches_only_what_it_names() {
    let mut p = projection();
    let created = p.create("keep me", IssuePatch::default(), None).unwrap();

    let response = send(
        &mut p,
        "PATCH",
        &format!("/issues/{}", created.id),
        r#"{"status":"Done"}"#,
    );

    assert_eq!(response.status, 200);
    assert_eq!(json(&response)["status"], "Done");
    assert_eq!(json(&response)["title"], "keep me");
}

#[test]
fn an_empty_patch_body_is_a_no_op_rather_than_an_error() {
    let mut p = projection();
    let created = p.create("unchanged", IssuePatch::default(), None).unwrap();
    let response = send(&mut p, "PATCH", &format!("/issues/{}", created.id), "");
    assert_eq!(response.status, 200);
    assert_eq!(json(&response)["title"], "unchanged");
}

#[test]
fn patching_a_missing_issue_is_404() {
    let mut p = projection();
    assert_eq!(
        send(&mut p, "PATCH", "/issues/404", r#"{"title":"ghost"}"#).status,
        404
    );
}

#[test]
fn deleting_is_204_then_404() {
    let mut p = projection();
    let created = p.create("doomed", IssuePatch::default(), None).unwrap();
    let path = format!("/issues/{}", created.id);

    let gone = send(&mut p, "DELETE", &path, "");
    assert_eq!(gone.status, 204);
    assert!(gone.body.is_empty());
    assert_eq!(send(&mut p, "DELETE", &path, "").status, 404);
}

#[test]
fn listing_is_in_display_order() {
    let mut p = projection();
    p.create("low", IssuePatch::default(), None).unwrap();
    let urgent = p
        .create(
            "urgent",
            IssuePatch::default().priority(issue_tracker::domain::Priority::Urgent),
            None,
        )
        .unwrap();

    let response = send(&mut p, "GET", "/issues", "");
    assert_eq!(json(&response)[0]["id"], urgent.id);
}

#[test]
fn listing_narrows_by_status_tag_and_title() {
    let mut p = projection();
    p.create(
        "alpha bug",
        IssuePatch::default()
            .status(Status::Doing)
            .tags(vec!["Bug".parse().unwrap()]),
        None,
    )
    .unwrap();
    p.create("beta", IssuePatch::default().status(Status::Todo), None)
        .unwrap();

    let by_status = send(&mut p, "GET", "/issues?status=Doing", "");
    assert_eq!(json(&by_status).as_array().unwrap().len(), 1);

    let by_tag = send(&mut p, "GET", "/issues?tag=bug", "");
    assert_eq!(json(&by_tag).as_array().unwrap().len(), 1, "tags fold case");

    let by_title = send(&mut p, "GET", "/issues?q=BETA", "");
    assert_eq!(json(&by_title)[0]["title"], "beta");

    let combined = send(&mut p, "GET", "/issues?status=Todo&q=alpha", "");
    assert!(json(&combined).as_array().unwrap().is_empty());
}

#[test]
fn a_bad_filter_value_is_a_400() {
    let mut p = projection();
    assert_eq!(send(&mut p, "GET", "/issues?status=Nope", "").status, 400);
    assert_eq!(send(&mut p, "GET", "/issues?parent=", "").status, 400);
    assert_eq!(send(&mut p, "GET", "/issues?parent=all", "").status, 400);
}

#[test]
fn listing_narrows_by_parent() {
    let mut p = projection();
    let parent = make(&mut p, "parent");
    let child = make(&mut p, "child");
    let loner = make(&mut p, "loner");
    p.set_parent(child, Some(parent)).unwrap();

    let under = send(&mut p, "GET", &format!("/issues?parent={parent}"), "");
    assert_eq!(json(&under).as_array().unwrap().len(), 1);
    assert_eq!(json(&under)[0]["id"], child);

    // The other half of the same question: what is not part of anything.
    let top = send(&mut p, "GET", "/issues?parent=none", "");
    let ids: Vec<i64> = json(&top)
        .as_array()
        .unwrap()
        .iter()
        .map(|issue| issue["id"].as_i64().unwrap())
        .collect();
    assert_eq!(ids.len(), 2);
    assert!(ids.contains(&parent) && ids.contains(&loner));

    // Composes with the other filters rather than replacing them.
    let none = send(
        &mut p,
        "GET",
        &format!("/issues?parent={parent}&q=loner"),
        "",
    );
    assert!(json(&none).as_array().unwrap().is_empty());
}

#[test]
fn a_size_travels_and_a_null_takes_it_away() {
    let mut p = projection();
    let response = send(&mut p, "POST", "/issues", r#"{"title":"sized","size":7}"#);
    assert_eq!(json(&response)["size"], 7);
    let id = json(&response)["id"].as_i64().unwrap();

    // Absent leaves it alone; the rest of the patch still applies.
    let untouched = send(
        &mut p,
        "PATCH",
        &format!("/issues/{id}"),
        r#"{"status":"Doing"}"#,
    );
    assert_eq!(json(&untouched)["size"], 7);

    // Zero is a real Size, not an absence.
    let zeroed = send(&mut p, "PATCH", &format!("/issues/{id}"), r#"{"size":0}"#);
    assert_eq!(json(&zeroed)["size"], 0);
    assert_eq!(json(&zeroed)["total_size"], 0);

    // An explicit null unsizes it.
    let cleared = send(
        &mut p,
        "PATCH",
        &format!("/issues/{id}"),
        r#"{"size":null}"#,
    );
    assert_eq!(json(&cleared)["size"], serde_json::Value::Null);
    assert_eq!(json(&cleared)["total_size"], serde_json::Value::Null);
}

#[test]
fn a_size_that_will_not_fit_is_refused() {
    let mut p = projection();
    // 255 is where an Issue should have become a tree of Issues.
    assert_eq!(
        send(&mut p, "POST", "/issues", r#"{"title":"huge","size":256}"#).status,
        400
    );
    assert_eq!(
        send(
            &mut p,
            "POST",
            "/issues",
            r#"{"title":"negative","size":-1}"#
        )
        .status,
        400
    );
}

#[test]
fn a_parents_total_adds_its_parts_and_says_what_is_missing() {
    let mut p = projection();
    let parent = make(&mut p, "parent");
    let sized = make(&mut p, "sized");
    let unmeasured = make(&mut p, "unsized");
    p.set_parent(sized, Some(parent)).unwrap();
    p.set_parent(unmeasured, Some(parent)).unwrap();
    p.patch(parent, IssuePatch::default().size(3)).unwrap();
    p.patch(sized, IssuePatch::default().size(5)).unwrap();

    let response = send(&mut p, "GET", &format!("/issues/{parent}"), "");
    assert_eq!(
        json(&response)["size"],
        3,
        "the work its parts do not cover"
    );
    assert_eq!(json(&response)["total_size"], 8);
    assert_eq!(json(&response)["unsized_sub_issues"], 1);

    // The whole fraction regardless of the narrowing, as with progress.
    let listed = send(&mut p, "GET", "/issues?parent=none", "");
    assert_eq!(listed_ids(&listed).len(), 1, "the parts are hidden");
    assert_eq!(json(&listed)[0]["total_size"], 8);
    assert_eq!(json(&listed)[0]["unsized_sub_issues"], 1);
}

fn listed_ids(response: &Response) -> Vec<i64> {
    json(response)
        .as_array()
        .unwrap()
        .iter()
        .map(|issue| issue["id"].as_i64().unwrap())
        .collect()
}

#[test]
fn tags_are_added_and_removed_one_at_a_time() {
    let mut p = projection();
    let created = p.create("taggable", IssuePatch::default(), None).unwrap();
    let base = format!("/issues/{}/tags", created.id);

    let added = send(&mut p, "PUT", &format!("{base}/Bug"), "");
    assert_eq!(added.status, 200);
    assert_eq!(json(&added)["tags"], strings(&["Bug"]));

    // Idempotent, and case-folding: this is the same Tag.
    let again = send(&mut p, "PUT", &format!("{base}/bug"), "");
    assert_eq!(json(&again)["tags"], strings(&["Bug"]));

    let removed = send(&mut p, "DELETE", &format!("{base}/BUG"), "");
    assert_eq!(json(&removed)["tags"], numbers(&[]));
    // Removing what is already gone still succeeds.
    assert_eq!(
        send(&mut p, "DELETE", &format!("{base}/BUG"), "").status,
        200
    );
}

#[test]
fn a_tag_name_may_contain_slashes_and_spaces() {
    let mut p = projection();
    let created = p.create("taggable", IssuePatch::default(), None).unwrap();
    let base = format!("/issues/{}/tags", created.id);

    let slashed = send(&mut p, "PUT", &format!("{base}/ui/theme"), "");
    assert_eq!(json(&slashed)["tags"], strings(&["ui/theme"]));

    let spaced = send(&mut p, "PUT", &format!("{base}/needs%20design"), "");
    assert_eq!(
        json(&spaced)["tags"],
        strings(&["needs design", "ui/theme"])
    );
}

#[test]
fn an_unusable_tag_name_is_a_400() {
    let mut p = projection();
    let created = p.create("taggable", IssuePatch::default(), None).unwrap();
    let response = send(
        &mut p,
        "PUT",
        &format!("/issues/{}/tags/%20", created.id),
        "",
    );
    assert_eq!(response.status, 400);
}

#[test]
fn tagging_a_missing_issue_is_404() {
    let mut p = projection();
    assert_eq!(send(&mut p, "PUT", "/issues/404/tags/Bug", "").status, 404);
}

// ---- sub-issues ---------------------------------------------------------

fn make(p: &mut Desk, title: &str) -> IssueId {
    p.create(title, IssuePatch::default(), None).unwrap().id
}

#[test]
fn attaching_and_detaching_over_http() {
    let mut p = projection();
    let parent = make(&mut p, "parent");
    let child = make(&mut p, "child");

    let attached = send(
        &mut p,
        "PUT",
        &format!("/issues/{parent}/sub-issues/{child}"),
        "",
    );
    assert_eq!(attached.status, 200);
    assert_eq!(json(&attached)["parent_id"], parent);

    let parent_view = send(&mut p, "GET", &format!("/issues/{parent}"), "");
    assert_eq!(
        json(&parent_view)["sub_issue_ids"],
        numbers(&[child])
    );

    let detached = send(
        &mut p,
        "DELETE",
        &format!("/issues/{parent}/sub-issues/{child}"),
        "",
    );
    assert_eq!(detached.status, 200);
    assert_eq!(json(&detached)["parent_id"], serde_json::Value::Null);
}

#[test]
fn putting_under_a_new_parent_moves_it() {
    let mut p = projection();
    let first = make(&mut p, "first");
    let second = make(&mut p, "second");
    let child = make(&mut p, "child");
    send(
        &mut p,
        "PUT",
        &format!("/issues/{first}/sub-issues/{child}"),
        "",
    );

    let moved = send(
        &mut p,
        "PUT",
        &format!("/issues/{second}/sub-issues/{child}"),
        "",
    );

    assert_eq!(moved.status, 200);
    assert_eq!(json(&moved)["parent_id"], second);
    let old = send(&mut p, "GET", &format!("/issues/{first}"), "");
    assert_eq!(json(&old)["sub_issue_ids"], numbers(&[]));
}

#[test]
fn a_parent_reports_how_much_of_it_is_settled() {
    let mut p = projection();
    let parent = make(&mut p, "parent");
    let done = make(&mut p, "done");
    let cancelled = make(&mut p, "cancelled");
    let outstanding = make(&mut p, "outstanding");
    for child in [done, cancelled, outstanding] {
        p.set_parent(child, Some(parent)).unwrap();
    }
    p.patch(done, IssuePatch::default().status(Status::Done))
        .unwrap();
    p.patch(cancelled, IssuePatch::default().status(Status::Cancelled))
        .unwrap();

    let response = send(&mut p, "GET", &format!("/issues/{parent}"), "");
    // Both count as settled: one finished, the other was deliberately
    // abandoned, and neither is waiting on anybody.
    assert_eq!(json(&response)["settled_sub_issues"], 2);
    assert_eq!(
        json(&response)["sub_issue_ids"].as_array().unwrap().len(),
        3
    );
}

#[test]
fn an_issue_with_no_sub_issues_reports_none_settled() {
    let mut p = projection();
    let lonely = make(&mut p, "lonely");
    let response = send(&mut p, "GET", &format!("/issues/{lonely}"), "");
    assert_eq!(json(&response)["settled_sub_issues"], 0);
    assert_eq!(json(&response)["sub_issue_ids"], numbers(&[]));
}

#[test]
fn a_narrowed_listing_still_carries_the_whole_fraction() {
    // The reason this is on the wire at all: a filter that hides the
    // children must not change the parent's fraction.
    let mut p = projection();
    let parent = make(&mut p, "parent");
    let child = make(&mut p, "child");
    p.set_parent(child, Some(parent)).unwrap();
    p.patch(child, IssuePatch::default().status(Status::Done))
        .unwrap();

    let listed = send(&mut p, "GET", "/issues?parent=none", "");
    let issues = json(&listed);
    assert_eq!(issues.as_array().unwrap().len(), 1, "the child is hidden");
    assert_eq!(issues[0]["settled_sub_issues"], 1);
    assert_eq!(issues[0]["sub_issue_ids"], numbers(&[child]));
}

#[test]
fn detaching_from_the_wrong_parent_is_reported() {
    let mut p = projection();
    let parent = make(&mut p, "parent");
    let other = make(&mut p, "other");
    let child = make(&mut p, "child");
    send(
        &mut p,
        "PUT",
        &format!("/issues/{parent}/sub-issues/{child}"),
        "",
    );

    let wrong = send(
        &mut p,
        "DELETE",
        &format!("/issues/{other}/sub-issues/{child}"),
        "",
    );
    assert_eq!(wrong.status, 409);
}

#[test]
fn rule_violations_are_409_not_400() {
    let mut p = projection();
    let parent = make(&mut p, "parent");
    let child = make(&mut p, "child");
    let outsider = make(&mut p, "outsider");
    send(
        &mut p,
        "PUT",
        &format!("/issues/{parent}/sub-issues/{child}"),
        "",
    );

    // Depth, from both ends.
    assert_eq!(
        send(
            &mut p,
            "PUT",
            &format!("/issues/{child}/sub-issues/{outsider}"),
            ""
        )
        .status,
        409
    );
    assert_eq!(
        send(
            &mut p,
            "PUT",
            &format!("/issues/{outsider}/sub-issues/{parent}"),
            ""
        )
        .status,
        409
    );
    // Self-parenting.
    assert_eq!(
        send(
            &mut p,
            "PUT",
            &format!("/issues/{parent}/sub-issues/{parent}"),
            ""
        )
        .status,
        409
    );
    // Completing above outstanding work.
    let blocked = send(
        &mut p,
        "PATCH",
        &format!("/issues/{parent}"),
        r#"{"status":"Done"}"#,
    );
    assert_eq!(blocked.status, 409);
    assert!(
        json(&blocked)["error"]
            .as_str()
            .unwrap()
            .contains("outstanding")
    );
}

#[test]
fn a_missing_issue_on_either_end_is_404() {
    let mut p = projection();
    let parent = make(&mut p, "parent");
    assert_eq!(
        send(
            &mut p,
            "PUT",
            &format!("/issues/{parent}/sub-issues/999"),
            ""
        )
        .status,
        404
    );
    assert_eq!(
        send(
            &mut p,
            "PUT",
            &format!("/issues/999/sub-issues/{parent}"),
            ""
        )
        .status,
        404
    );
}

#[test]
fn creating_a_sub_issue_takes_one_call() {
    let mut p = projection();
    let parent = make(&mut p, "parent");

    let response = send(
        &mut p,
        "POST",
        "/issues",
        &format!(r#"{{"title":"child","parent_id":{parent}}}"#),
    );

    assert_eq!(response.status, 201);
    assert_eq!(json(&response)["parent_id"], parent);
}

#[test]
fn patching_parent_id_points_at_the_right_endpoint() {
    // Silently ignoring it would leave a caller believing they moved
    // something they did not.
    let mut p = projection();
    let child = make(&mut p, "child");
    let parent = make(&mut p, "parent");

    let response = send(
        &mut p,
        "PATCH",
        &format!("/issues/{child}"),
        &format!(r#"{{"parent_id":{parent}}}"#),
    );

    assert_eq!(response.status, 400);
    assert!(
        json(&response)["error"]
            .as_str()
            .unwrap()
            .contains("sub-issues")
    );
}

#[test]
fn a_wrong_method_on_a_sub_issue_says_what_is_allowed() {
    let mut p = projection();
    let parent = make(&mut p, "parent");
    let child = make(&mut p, "child");
    let response = send(
        &mut p,
        "GET",
        &format!("/issues/{parent}/sub-issues/{child}"),
        "",
    );
    assert_eq!(response.status, 405);
}

#[test]
fn the_tag_list_matches_the_sidebar() {
    let mut p = projection();
    p.create(
        "one",
        IssuePatch::default().tags(vec!["Bug".parse().unwrap()]),
        None,
    )
    .unwrap();
    p.create(
        "two",
        IssuePatch::default().tags(vec!["bug".parse().unwrap(), "ui".parse().unwrap()]),
        None,
    )
    .unwrap();

    let response = send(&mut p, "GET", "/tags", "");
    assert_eq!(
        json(&response),
        serde_json::from_str::<serde_json::Value>(r#"[{"name":"Bug","count":2},{"name":"ui","count":1}]"#).unwrap()
    );
}

#[test]
fn a_field_nobody_knows_is_refused_rather_than_ignored() {
    let mut p = projection();
    let response = send(&mut p, "POST", "/issues", r#"{"title":"t","statuss":"Done"}"#);
    assert_eq!(response.status, 400);
    assert_eq!(json(&response)["error"], "invalid body: unknown field `statuss`");
    assert!(p.issues().is_empty());

    let id = make(&mut p, "one");
    let response = send(&mut p, "PATCH", &format!("/issues/{id}"), r#"{"statuss":"Done"}"#);
    assert_eq!(response.status, 400);
    assert_eq!(p.get(id).unwrap().status, Status::Todo);
}

#[test]
fn a_database_that_fails_is_a_500_and_changes_nothing() {
    let mut p = projection();
    let id = make(&mut p, "one");
    p.disk.read_only = true;

    let created = send(&mut p, "POST", "/issues", r#"{"title":"two"}"#);
    assert_eq!(created.status, 500);
    let patched = send(&mut p, "PATCH", &format!("/issues/{id}"), r#"{"title":"two"}"#);
    assert_eq!(patched.status, 500);
    let erased = send(&mut p, "DELETE", &format!("/issues/{id}"), "");
    assert_eq!(erased.status, 500);

    assert_eq!(p.issues().len(), 1);
    assert_eq!(p.get(id).unwrap().title, "one");
}

#[test]
fn creating_under_a_done_parent_files_nothing() {
    let mut p = projection();
    let parent = p
        .create("done", IssuePatch::default().status(Status::Done), None)
        .unwrap()
        .id;
    let response = send(
        &mut p,
        "POST",
        "/issues",
        &format!(r#"{{"title":"late","parent_id":{parent}}}"#),
    );
    assert_eq!(response.status, 409);
    assert_eq!(p.issues().len(), 1);
}

#[test]
fn what_was_created_is_what_a_reload_shows() {
    let mut p = projection();
    send(
        &mut p,
        "POST",
        "/issues",
        r#"{"title":"full","body":"b","status":"Doing","priority":"Urgent","tags":["Bug","ui"],"size":3}"#,
    );
    assert_eq!(p.disk.load_all(), p.issues());
}

#[test]
fn a_write_is_answered_as_the_next_read_is() {
    let mut p = projection();
    let filed = send(&mut p, "POST", "/issues", r#"{"title":"first","tags":["docs"]}"#);
    assert_eq!(send(&mut p, "GET", "/issues/1", "").body, filed.body);

    let changed = send(&mut p, "PATCH", "/issues/1", r#"{"size":5}"#);
    assert_ne!(changed.body, filed.body);
    assert_eq!(send(&mut p, "GET", "/issues/1", "").body, changed.body);

    assert_eq!(send(&mut p, "DELETE", "/issues/1", "").status, 204);
    assert_eq!(send(&mut p, "GET", "/issues/1", "").status, 404);
}
