//! Issues as the database holds them.

use issue_tracker::domain::{Issue, IssueId, Priority, Status};
use issue_tracker::store::rows::{read_issue, with_tags, write_issue, BadColumn};
use issue_tracker::time::Timestamp;

fn issue(id: IssueId, title: &str, status: Status, tags: &[&str]) -> Issue {
    Issue {
        id,
        title: title.to_string(),
        body: String::new(),
        status,
        priority: Priority::Unset,
        size: None,
        tags: tags.iter().map(|tag| tag.parse().unwrap()).collect(),
        parent_id: None,
        created_at: Timestamp::epoch(),
        updated_at: Timestamp::epoch(),
    }
}

#[test]
fn a_row_reads_back_as_what_it_was_written_from() {
    let mut one = issue(4, "persisted", Status::Blocked, &[]);
    one.priority = Priority::Urgent;
    one.size = Some(0);
    one.parent_id = Some(2);
    one.body = "with a body".into();
    one.updated_at = Timestamp::parse("2026-09-05T14:23:11.482913Z").unwrap();
    let row = write_issue(&one);
    assert_eq!(row.status, "Blocked");
    assert_eq!(row.created_at, "1970-01-01T00:00:00.000000Z");
    assert_eq!(row.updated_at, "2026-09-05T14:23:11.482913Z");
    assert_eq!(read_issue(row).unwrap(), one);
}

#[test]
fn a_moment_is_kept_to_the_microsecond() {
    let mut one = issue(1, "exact", Status::Todo, &[]);
    one.created_at = Timestamp::from_parts(1_000, 123_456_789).unwrap();
    let back = read_issue(write_issue(&one)).unwrap();
    assert_eq!(back.created_at.secs(), 1_000);
    assert_eq!(back.created_at.nanos(), 123_456_000);
}

#[test]
fn the_first_column_that_makes_no_sense_is_named() {
    let good = || write_issue(&issue(1, "t", Status::Todo, &[]));
    let mut row = good();
    row.status = "Wontfix".into();
    row.priority = "Critical".into();
    assert!(matches!(read_issue(row), Err(BadColumn::Status(err)) if err.value == "Wontfix"));
    let mut row = good();
    row.priority = "Critical".into();
    assert!(matches!(read_issue(row), Err(BadColumn::Priority(err)) if err.kind == "priority"));
    let mut row = good();
    row.created_at = "yesterday".into();
    assert!(matches!(read_issue(row), Err(BadColumn::CreatedAt(raw)) if raw == "yesterday"));
    let mut row = good();
    row.updated_at = "today".into();
    assert!(matches!(read_issue(row), Err(BadColumn::UpdatedAt(raw)) if raw == "today"));
}

#[test]
fn tags_find_their_issues() {
    let issues = vec![
        issue(1, "one", Status::Todo, &[]),
        issue(2, "two", Status::Todo, &[]),
        issue(3, "three", Status::Todo, &[]),
    ];
    let rows = vec![
        (2, "Bug".to_string()),
        (1, "docs".to_string()),
        (2, " ui ".to_string()),
        (9, "lost".to_string()),
    ];
    let tagged = with_tags(issues, &rows).unwrap();
    let names = |i: usize| -> Vec<&str> { tagged[i].tags.iter().map(|tag| tag.as_str()).collect() };
    assert_eq!(names(0), vec!["docs"]);
    assert_eq!(names(1), vec!["Bug", "ui"]);
    assert_eq!(names(2), Vec::<&str>::new());

    let bad = with_tags(Vec::new(), &vec![(1, "ok".to_string()), (1, "  ".to_string())]);
    assert!(matches!(bad, Err(BadColumn::Tag(err)) if err.value == "  "));
}

#[test]
fn a_text_with_an_offset_means_the_same_moment() {
    let utc = Timestamp::parse("2026-01-01T12:00:00Z").unwrap();
    let offset = Timestamp::parse("2026-01-01T14:00:00+02:00").unwrap();
    assert_eq!(utc, offset);
    assert!(Timestamp::parse("2026-01-01").is_none());
    assert!(Timestamp::epoch().earlier_than(utc));
    assert!(Timestamp::from_parts(0, 1_500_000_000).is_none());
    assert!(Timestamp::from_parts(59, 1_500_000_000).is_some());
    assert_eq!(utc.minutes(), "2026-01-01 12:00");
}
