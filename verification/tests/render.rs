//! Tables and pages for the terminal.

use issue_tracker::api::wire::{IssueJson, TagJson};
use issue_tracker::cli::render::{
    list, priority_colour, show, show_at, status_colour, tags, title_cell, truncate, Hue, Ink,
    Span, TITLE_WIDTH,
};
use issue_tracker::domain::{IssueId, Priority, Status};
use issue_tracker::time::local_minutes;

fn issue(id: IssueId, title: &str, status: &str) -> IssueJson {
    IssueJson {
        id,
        title: title.to_string(),
        body: String::new(),
        status: status.to_string(),
        priority: "Medium".to_string(),
        tags: Vec::new(),
        parent_id: None,
        sub_issue_ids: Vec::new(),
        settled_sub_issues: 0,
        size: None,
        total_size: None,
        unsized_sub_issues: 0,
        created_at: "2026-09-05T14:23:11.482913Z".to_string(),
        updated_at: "2026-09-05T14:23:11.482913Z".to_string(),
    }
}

/// What is printed, without its colours.
fn text(spans: Vec<Span>) -> String {
    spans.into_iter().map(|span| span.text).collect()
}

/// How many characters wide a text is.
fn width(text: &str) -> usize {
    text.chars().count()
}

#[test]
fn a_blank_title_reads_the_same_here_as_it_does_in_the_window() {
    // The window shows "Untitled" for a title the user has not typed yet.
    // Printing the raw title instead gave one Issue two names depending
    // on where you looked at it.
    let listed = text(list(&vec![issue(1, "   ", "Todo")]));
    assert!(listed.contains("Untitled"), "{listed}");

    let mut blank = issue(1, "   ", "Todo");
    blank.parent_id = Some(2);
    let parent = issue(2, "", "Doing");

    let shown = text(show(&blank, Some(&parent), &Vec::new()));
    assert!(shown.contains("#1 Untitled"), "{shown}");
    assert!(shown.contains("Part of   #2 Untitled"), "{shown}");
}

#[test]
fn every_status_and_priority_label_is_understood_by_the_colours() {
    // Todo and the low priorities are deliberately uncoloured; everything
    // else must be recognised. A label the colour function did not know
    // used to fall through to "no colour", which looks like a style
    // choice rather than the bug it is.
    for status in Status::ALL {
        assert_eq!(
            status_colour(status.label()).is_some(),
            status != Status::Todo,
            "{}",
            status.label()
        );
    }
    for priority in Priority::ALL {
        let loud = matches!(priority, Priority::Urgent | Priority::High);
        assert_eq!(
            priority_colour(priority.label()).is_some(),
            loud,
            "{}",
            priority.label()
        );
    }
}

#[test]
fn an_empty_list_says_so_rather_than_printing_a_header() {
    let out = text(list(&vec![]));
    assert_eq!(out, "No issues.\n");
}

#[test]
fn a_parent_shows_progress_and_a_sub_issue_names_its_parent() {
    let mut parent = issue(1, "Ship the CLI", "Doing");
    parent.sub_issue_ids = vec![2, 3];
    parent.settled_sub_issues = 1;
    let mut done = issue(2, "Parse arguments", "Done");
    done.parent_id = Some(1);
    let mut todo = issue(3, "Write the client", "Todo");
    todo.parent_id = Some(1);

    let out = text(list(&vec![parent, done, todo]));

    assert!(out.contains("Ship the CLI [1/2]"), "{out}");
    assert!(out.contains("↳ #1 Parse arguments"), "{out}");
}

#[test]
fn a_progress_fraction_survives_a_filter_that_hides_the_children() {
    // The whole point of sending it: the parent alone is enough, where
    // the CLI used to need a second request to get this right.
    let mut parent = issue(1, "p", "Todo");
    parent.sub_issue_ids = vec![2, 3];
    parent.settled_sub_issues = 1;

    let out = text(list(&vec![parent]));
    assert!(out.contains("[1/2]"), "{out}");
}

#[test]
fn an_unsized_tracker_grows_no_size_row() {
    let out = text(show(&issue(1, "unsized", "Todo"), None, &Vec::new()));
    assert!(!out.contains("Size"), "{out}");

    let listed = text(list(&vec![issue(1, "unsized", "Todo")]));
    // The column is always in the header; the cell is blank.
    assert!(listed.contains("SIZE"), "{listed}");
    assert!(listed.contains("unsized"), "{listed}");
}

#[test]
fn a_leaf_shows_its_own_size_and_nothing_about_parts() {
    let mut leaf = issue(1, "leaf", "Todo");
    leaf.size = Some(5);
    leaf.total_size = Some(5);

    let out = text(show(&leaf, None, &Vec::new()));
    assert!(out.contains("Size      5"), "{out}");
    assert!(!out.contains("part(s) sized"), "{out}");
}

#[test]
fn a_parent_shows_its_own_size_beside_the_total() {
    // The Parent's own 3 is the work its parts do not cover, so the total
    // is 3 + 5 + 8 rather than 5 + 8.
    let mut parent = issue(1, "parent", "Todo");
    parent.size = Some(3);
    parent.sub_issue_ids = vec![2, 3, 4];
    parent.unsized_sub_issues = 1;
    parent.total_size = Some(16);

    let out = text(show(&parent, None, &Vec::new()));
    assert!(out.contains("Size      3"), "its own: {out}");
    assert!(
        out.contains("(total 16, 2 of 3 part(s) sized)"),
        "and the whole: {out}"
    );
}

#[test]
fn a_parent_carrying_no_size_of_its_own_still_totals_its_parts() {
    let mut parent = issue(1, "parent", "Todo");
    parent.sub_issue_ids = vec![2];
    parent.total_size = Some(5);

    let out = text(show(&parent, None, &Vec::new()));
    assert!(out.contains("Size      \u{2013}"), "an en dash: {out}");
    assert!(out.contains("total 5"), "{out}");
}

#[test]
fn the_list_column_carries_the_total_not_the_own_size() {
    // A Parent's row should say what the whole family comes to.
    let mut parent = issue(1, "parent", "Todo");
    parent.size = Some(3);
    parent.sub_issue_ids = vec![2];
    parent.total_size = Some(11);

    let listed = text(list(&vec![parent]));
    assert!(listed.contains("11"), "{listed}");
    assert!(!listed.contains(" 3  "), "not the own size: {listed}");
}

#[test]
fn an_issue_with_no_sub_issues_shows_no_fraction() {
    let out = text(list(&vec![issue(1, "alone", "Todo")]));
    assert!(!out.contains("["), "{out}");
}

#[test]
fn a_long_title_is_cut_without_losing_the_markers() {
    let mut long = issue(1, &"x".repeat(200), "Todo");
    long.parent_id = Some(9);
    long.sub_issue_ids = vec![2];

    let cell = title_cell(&long);
    assert_eq!(width(&cell), TITLE_WIDTH);
    assert!(cell.starts_with("↳ #9 "), "{cell}");
    assert!(cell.ends_with("[0/1]"), "{cell}");
    assert!(cell.contains('…'), "{cell}");
}

#[test]
fn a_short_title_is_left_alone() {
    assert_eq!(truncate("brief", 20), "brief");
    assert_eq!(truncate("exactly-ten", 11), "exactly-ten");
}

#[test]
fn show_names_the_related_issues_rather_than_their_ids_alone() {
    let mut child = issue(5, "the child", "Todo");
    child.parent_id = Some(1);
    child.body = "some prose".to_string();
    let parent = issue(1, "the parent", "Doing");

    let out = text(show(&child, Some(&parent), &Vec::new()));
    assert!(out.contains("#5 the child"), "{out}");
    assert!(out.contains("Part of   #1 the parent"), "{out}");
    assert!(out.contains("some prose"), "{out}");
}

#[test]
fn show_counts_outstanding_work_under_a_parent() {
    // The count comes from the parent, as the API sent it — not from
    // counting the children that happen to have been fetched.
    let mut parent = issue(1, "the parent", "Todo");
    parent.sub_issue_ids = vec![2, 3];
    parent.settled_sub_issues = 1;
    let children = vec![issue(2, "done one", "Done"), issue(3, "not yet", "Todo")];

    let out = text(show(&parent, None, &children));
    assert!(out.contains("1 sub-issue(s) outstanding"), "{out}");
    assert!(out.contains("Sub-issues (1/2 done)"), "{out}");
}

#[test]
fn timestamps_lose_their_microseconds() {
    let rendered = local_minutes("2026-09-05T14:23:11.482913Z");
    assert!(!rendered.contains('.'), "{rendered}");
    assert!(rendered.starts_with("2026-09-05") || rendered.starts_with("2026-09-0"));
    // Anything unparseable is passed through rather than hidden.
    assert_eq!(local_minutes("not a date"), "not a date");
}

#[test]
fn tags_are_listed_with_their_counts() {
    let out = text(tags(&vec![
        TagJson {
            name: "bug".into(),
            count: 3,
        },
        TagJson {
            name: "ui".into(),
            count: 1,
        },
    ]));
    assert_eq!(out, "bug  3\nui   1\n");
}

#[test]
fn a_row_is_aligned_and_only_its_states_are_coloured() {
    let mut one = issue(12, "Paint it", "Blocked");
    one.priority = "Urgent".to_string();
    one.total_size = Some(8);
    one.tags = vec!["ui".to_string(), "bug".to_string()];
    let spans = list(&vec![one]);
    let printed: String = spans.iter().map(|span| span.text.as_str()).collect();
    let rows: Vec<&str> = printed.lines().collect();
    assert_eq!(rows.len(), 2);
    assert!(rows[0].contains("STATUS") && rows[0].ends_with("TAGS"), "{}", rows[0]);
    assert!(rows[1].contains("12") && rows[1].ends_with("ui, bug"), "{}", rows[1]);
    assert_eq!(rows[0].find("TAGS"), rows[1].find("ui, bug"));
    assert!(spans
        .iter()
        .any(|span| span.ink == Ink::Coloured(Hue::Red) && span.text.starts_with("Blocked")));
}

#[test]
fn a_title_is_cut_to_exactly_its_budget() {
    assert_eq!(truncate("abcdef", 4), "abc\u{2026}");
    assert_eq!(truncate("abcdef", 1), "\u{2026}");
    assert_eq!(truncate("äöü", 3), "äöü");
}

#[test]
fn a_page_shows_the_moments_it_is_given() {
    let out = text(show_at(
        &issue(1, "one", "Todo"),
        None,
        &Vec::new(),
        "2026-09-05 14:23",
        "2026-09-06 09:00",
    ));
    assert!(out.contains("2026-09-05 14:23"), "{out}");
    assert!(out.contains("2026-09-06 09:00"), "{out}");
}
