//! Issues as they go over the wire.

use issue_tracker::api::wire::{IssueJson, NewIssue, PatchIssue};
use issue_tracker::domain::{Issue, Priority, Status};
use issue_tracker::operations::{update, Method};
use issue_tracker::time::Timestamp;

/// The JSON of a value.
fn source(value: &serde_json::Value) -> String {
    serde_json::to_string(value).expect("JSON")
}

/// A field that is text, where it is there.
fn text_field(
    fields: &serde_json::Map<String, serde_json::Value>,
    name: &str,
) -> Result<Option<String>, String> {
    match fields.get(name) {
        None => Ok(None),
        Some(serde_json::Value::String(text)) => Ok(Some(text.clone())),
        Some(other) => Err(format!("{name} is no text: {other}")),
    }
}

/// The fields that a patch and a new Issue share.
fn shared_fields(
    fields: &serde_json::Map<String, serde_json::Value>,
) -> Result<PatchIssue, String> {
    let tags = match fields.get("tags") {
        None => None,
        Some(serde_json::Value::Array(list)) => {
            let mut tags = Vec::new();
            for one in list {
                tags.push(one.as_str().ok_or("a tag is text")?.to_string());
            }
            Some(tags)
        }
        Some(other) => return Err(format!("tags is no list: {other}")),
    };
    let size = match fields.get("size") {
        None => None,
        Some(serde_json::Value::Null) => Some(None),
        Some(value) => {
            let number = value.as_u64().ok_or("size is a number")?;
            Some(Some(u8::try_from(number).map_err(|err| err.to_string())?))
        }
    };
    Ok(PatchIssue {
        title: None,
        body: text_field(fields, "body")?,
        status: text_field(fields, "status")?,
        priority: text_field(fields, "priority")?,
        tags,
        size,
        parent_id: None,
    })
}

/// A patch as its JSON has it.
fn decode_patch(raw: &[u8]) -> Result<PatchIssue, String> {
    let value: serde_json::Value = serde_json::from_slice(raw).map_err(|err| err.to_string())?;
    let fields = value.as_object().ok_or("a patch is an object")?;
    let known = ["title", "body", "status", "priority", "tags", "size", "parent_id"];
    for name in fields.keys() {
        if !known.contains(&name.as_str()) {
            return Err(format!("unknown field `{name}`"));
        }
    }
    let mut patch = shared_fields(fields)?;
    patch.title = text_field(fields, "title")?;
    patch.parent_id = fields.get("parent_id").map(source);
    Ok(patch)
}

/// A new Issue as its JSON has it.
fn decode_new(raw: &[u8]) -> Result<NewIssue, String> {
    let value: serde_json::Value = serde_json::from_slice(raw).map_err(|err| err.to_string())?;
    let fields = value.as_object().ok_or("a new issue is an object")?;
    let known = ["title", "body", "status", "priority", "tags", "size", "parent_id"];
    let unknown = fields
        .iter()
        .filter(|(name, _)| !known.contains(&name.as_str()))
        .map(|(name, value)| (name.clone(), source(value)))
        .collect();
    Ok(NewIssue {
        title: text_field(fields, "title")?.ok_or("missing field `title`")?,
        parent_id: match fields.get("parent_id") {
            None | Some(serde_json::Value::Null) => None,
            Some(value) => Some(value.as_i64().ok_or("parent_id is a number")?),
        },
        rest: shared_fields(fields)?,
        unknown,
    })
}

#[test]
fn an_empty_patch_changes_nothing() {
    let patch = decoded("{}");
    assert!(patch.into_patch().unwrap().is_empty());
}

#[test]
fn a_patch_carries_only_the_fields_it_names() {
    let patch = decoded(r#"{"status":"Done"}"#);
    let patch = patch.into_patch().unwrap();
    assert_eq!(patch.status, Some(Status::Done));
    assert_eq!(patch.title, None);
    assert_eq!(patch.tags, None);
}

#[test]
fn an_unknown_enum_value_is_an_error_not_a_default() {
    let patch = decoded(r#"{"status":"Wontfix"}"#);
    let err = patch.into_patch().unwrap_err();
    assert_eq!(err.kind, "status");
    assert!(err.to_string().contains("Wontfix"));

    let patch = decoded(r#"{"priority":"Critical"}"#);
    assert_eq!(patch.into_patch().unwrap_err().kind, "priority");
}

#[test]
fn an_unusable_tag_name_is_an_error() {
    let patch = decoded(r#"{"tags":["ok","  "]}"#);
    assert_eq!(patch.into_patch().unwrap_err().kind, "tag");
}

#[test]
fn clearing_the_tags_is_distinct_from_leaving_them_alone() {
    let cleared = decoded(r#"{"tags":[]}"#);
    assert_eq!(cleared.into_patch().unwrap().tags, Some(Vec::new()));

    let untouched = decoded("{}");
    assert_eq!(untouched.into_patch().unwrap().tags, None);
}

#[test]
fn a_create_body_takes_the_other_fields_inline() {
    let new = decode_new(r#"{"title":"t","status":"Doing","tags":["Bug"]}"#.as_bytes()).unwrap();
    assert_eq!(new.title, "t");
    let patch = new.rest.into_patch().unwrap();
    assert_eq!(patch.status, Some(Status::Doing));
    assert_eq!(patch.tags.unwrap()[0].as_str(), "Bug");
}

#[test]
fn enum_values_go_out_spelled_as_the_ui_spells_them() {
    let issue = Issue {
        id: 1,
        title: "t".into(),
        body: String::new(),
        status: Status::Cancelled,
        priority: Priority::Urgent,
        tags: vec!["Bug".parse().unwrap()],
        parent_id: None,
        size: None,
        created_at: Timestamp::epoch(),
        updated_at: Timestamp::epoch(),
    };
    let child = Issue {
        id: 9,
        status: Status::Done,
        ..issue.clone()
    };
    let json = IssueJson::new(&issue, &[&child]);
    assert_eq!(json.status, "Cancelled");
    assert_eq!(json.priority, "Urgent");
    assert_eq!(json.tags, vec!["Bug".to_string()]);
    assert_eq!(json.parent_id, None);
    assert_eq!(json.sub_issue_ids, vec![9]);
    assert_eq!(json.settled_sub_issues, 1);
    // Round-trips back through the same parser the store uses.
    assert_eq!(json.status.parse::<Status>().unwrap(), Status::Cancelled);
}

fn decoded(raw: &str) -> PatchIssue {
    decode_patch(raw.as_bytes()).expect("a patch")
}

#[test]
fn a_patch_tells_absent_apart_from_null() {
    // The distinction the whole nested Option exists for. `0` cannot
    // stand in for "unsized": it is a real Size meaning no work.
    assert_eq!(decoded("{}").size, None, "absent leaves it alone");
    assert_eq!(decoded(r#"{"size":null}"#).size, Some(None), "null clears it");
    assert_eq!(
        decoded(r#"{"size":7}"#).size,
        Some(Some(7)),
        "a number sets it"
    );
    assert_eq!(decoded(r#"{"size":0}"#).size, Some(Some(0)), "zero is a size");
}

#[test]
fn a_size_outside_a_u8_is_refused_rather_than_clamped() {
    // 255 is where an Issue should have become a tree of Issues.
    assert!(decode_patch(br#"{"size":256}"#).is_err());
    assert!(decode_patch(br#"{"size":-1}"#).is_err());
}

#[test]
fn the_three_states_survive_a_round_trip() {
    for raw in ["{}", r#"{"size":null}"#, r#"{"size":7}"#] {
        let Method::Patch(there_and_back) = update(1, &decoded(raw)).method else {
            panic!("expected a patch")
        };
        assert_eq!(there_and_back, raw, "{raw}");
    }
}

#[test]
fn a_re_parenting_patch_is_told_apart_from_an_absent_one() {
    assert_eq!(decoded("{}").parent_id, None);
    assert_eq!(decoded(r#"{"parent_id":null}"#).parent_id.as_deref(), Some("null"));
    assert_eq!(decoded(r#"{"parent_id":4}"#).parent_id.as_deref(), Some("4"));
}

#[test]
fn an_issue_goes_out_with_its_fields_in_order() {
    let issue = Issue {
        id: 1,
        title: "a \"b\"".into(),
        body: "c".into(),
        status: Status::Todo,
        priority: Priority::Unset,
        tags: Vec::new(),
        parent_id: Some(4),
        size: Some(2),
        created_at: Timestamp::epoch(),
        updated_at: Timestamp::epoch(),
    };
    assert_eq!(
        IssueJson::new(&issue, &[]).to_json(),
        "{\"id\":1,\"title\":\"a \\\"b\\\"\",\"body\":\"c\",\"status\":\"Todo\",\
         \"priority\":\"None\",\"size\":2,\"total_size\":2,\"unsized_sub_issues\":0,\
         \"tags\":[],\"parent_id\":4,\"sub_issue_ids\":[],\"settled_sub_issues\":0,\
         \"created_at\":\"1970-01-01T00:00:00.000000Z\",\
         \"updated_at\":\"1970-01-01T00:00:00.000000Z\"}"
    );
}
