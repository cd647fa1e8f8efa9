//! What a window is looking at.

use std::collections::HashMap;

use issue_tracker::domain::{Issue, IssueId, Priority, Status, Tag, View};
use issue_tracker::store::settings_keys;
use issue_tracker::time::Timestamp;
use issue_tracker::ui::working_state::WorkingState;

fn issue(id: IssueId, title: &str, status: Status, tags: &[&str]) -> Issue {
    Issue {
        id,
        title: title.to_string(),
        body: String::new(),
        status,
        priority: Priority::Unset,
        tags: tags.iter().map(|tag| tag.parse().unwrap()).collect(),
        parent_id: None,
        size: None,
        created_at: Timestamp::epoch(),
        updated_at: Timestamp::epoch(),
    }
}

fn corpus() -> Vec<Issue> {
    vec![
        issue(1, "Fix the flash", Status::Doing, &["ui"]),
        issue(2, "Write the ADR", Status::Todo, &["docs"]),
        issue(3, "Ship the CLI", Status::Done, &["ui", "cli"]),
    ]
}

fn stored(pairs: &[(&str, &str)]) -> impl Fn(&str) -> Option<String> {
    let map: HashMap<String, String> = pairs
        .iter()
        .map(|(key, value)| (key.to_string(), value.to_string()))
        .collect();
    move |key: &str| map.get(key).cloned()
}

#[test]
fn the_three_narrowings_compose() {
    let issues = corpus();
    let mut state = WorkingState::default();
    assert_eq!(state.visible(&issues).len(), 3, "All Issues by default");

    // A Tag filter narrows within the View...
    state.toggle_tag("ui".parse().unwrap(), &issues);
    assert_eq!(state.visible(&issues).len(), 2);

    // ...the title filter narrows within both...
    state.set_filter("ship".into(), &issues);
    assert_eq!(state.visible(&issues).len(), 1);
    assert_eq!(state.visible(&issues)[0].id, 3);

    // ...and the View narrows all of it.
    state.select_view(View::WithStatus(Status::Todo), &issues);
    assert!(state.visible(&issues).is_empty());
}

#[test]
fn the_title_filter_ignores_case_and_surrounding_space() {
    let issues = corpus();
    let mut state = WorkingState::default();
    state.set_filter("  FLASH  ".into(), &issues);
    assert_eq!(state.visible(&issues).len(), 1);
    assert_eq!(state.visible(&issues)[0].id, 1);
}

#[test]
fn a_tag_filter_ignores_case_because_tag_identity_does() {
    let issues = corpus();
    let mut state = WorkingState::default();
    state.toggle_tag("UI".parse().unwrap(), &issues);
    assert_eq!(state.visible(&issues).len(), 2);
}

#[test]
fn picking_the_active_tag_again_clears_it() {
    let issues = corpus();
    let mut state = WorkingState::default();
    let ui: Tag = "ui".parse().unwrap();

    state.toggle_tag(ui.clone(), &issues);
    assert_eq!(state.tag(), Some(&ui));
    state.toggle_tag(ui, &issues);
    assert_eq!(state.tag(), None);
}

#[test]
fn a_tag_filter_is_pruned_when_its_last_issue_lets_go() {
    // The list would otherwise empty out, with the sidebar row you would
    // clear the filter from already gone.
    let mut issues = corpus();
    let mut state = WorkingState::default();
    state.toggle_tag("docs".parse().unwrap(), &issues);
    assert!(state.tag().is_some());

    issues[1].tags.clear();
    state.settle(&issues);

    assert_eq!(state.tag(), None);
    assert_eq!(state.visible(&issues).len(), 3);
}

#[test]
fn a_selection_that_falls_out_of_view_moves_to_the_first_row() {
    let issues = corpus();
    let mut state = WorkingState::default();
    state.select_issue(3);

    let settled = state.select_view(View::WithStatus(Status::Doing), &issues);

    assert!(settled.selection_moved);
    assert_eq!(state.selected(), Some(1), "the first visible Issue");
}

#[test]
fn a_selection_that_survives_does_not_move() {
    let issues = corpus();
    let mut state = WorkingState::default();
    state.select_issue(1);

    let settled = state.select_view(View::WithStatus(Status::Doing), &issues);

    assert!(!settled.selection_moved);
    assert_eq!(state.selected(), Some(1));
}

#[test]
fn selecting_what_is_already_selected_changes_nothing() {
    let mut state = WorkingState::default();
    assert!(state.select_issue(7).selection_moved);
    assert!(!state.select_issue(7).selection_moved);
}

#[test]
fn moving_the_selection_stops_at_both_ends() {
    let issues = corpus();
    let mut state = WorkingState::default();
    state.select_issue(1);

    state.move_selection(1, &issues);
    assert_eq!(state.selected(), Some(2));
    state.move_selection(-1, &issues);
    assert_eq!(state.selected(), Some(1));
    // Clamped rather than wrapped: k at the top stays at the top.
    state.move_selection(-1, &issues);
    assert_eq!(state.selected(), Some(1));
    state.move_selection(99, &issues);
    assert_eq!(state.selected(), Some(3));
}

#[test]
fn moving_within_an_empty_list_is_a_no_op() {
    let issues = corpus();
    let mut state = WorkingState::default();
    state.set_filter("matches nothing".into(), &issues);

    let settled = state.move_selection(1, &issues);

    assert!(!settled.selection_moved);
    assert_eq!(state.selected(), None);
}

#[test]
fn restoring_prefers_the_stored_issue_but_only_if_it_is_visible() {
    let issues = corpus();

    let state = WorkingState::restore(
        &issues,
        stored(&[
            (settings_keys::UI_VIEW, "All"),
            (settings_keys::UI_SELECTED, "2"),
        ]),
    );
    assert_eq!(state.selected(), Some(2));

    // Stored under a View that no longer shows it.
    let state = WorkingState::restore(
        &issues,
        stored(&[
            (settings_keys::UI_VIEW, "Doing"),
            (settings_keys::UI_SELECTED, "3"),
        ]),
    );
    assert_eq!(state.selected(), Some(1));

    // Deleted since the window closed.
    let state = WorkingState::restore(&issues, stored(&[(settings_keys::UI_SELECTED, "99")]));
    assert_eq!(state.selected(), Some(1));
}

#[test]
fn restoring_treats_unusable_values_as_absent() {
    let issues = corpus();
    let state = WorkingState::restore(
        &issues,
        stored(&[
            (settings_keys::UI_VIEW, "Nonsense"),
            (settings_keys::UI_SELECTED, "not a number"),
            (settings_keys::UI_TAG, "   "),
        ]),
    );

    assert_eq!(state.view(), View::default());
    assert_eq!(state.tag(), None);
    assert_eq!(state.selected(), Some(1), "fell back to the first row");
}

#[test]
fn restoring_drops_a_tag_nothing_carries_any_more() {
    let issues = corpus();
    let state = WorkingState::restore(&issues, stored(&[(settings_keys::UI_TAG, "abandoned")]));
    assert_eq!(state.tag(), None);
    assert_eq!(state.visible(&issues).len(), 3);
}

#[test]
fn working_state_what_is_written_is_what_comes_back() {
    let issues = corpus();
    let mut written = WorkingState::default();
    written.select_view(View::WithStatus(Status::Doing), &issues);
    written.toggle_tag("ui".parse().unwrap(), &issues);
    written.set_filter("flash".into(), &issues);
    written.select_issue(1);

    let saved: Vec<(&str, String)> = written.settings();
    let restored = WorkingState::restore(&issues, move |key| {
        saved
            .iter()
            .find(|(name, _)| *name == key)
            .map(|(_, value)| value.clone())
    });

    assert_eq!(restored, written);
}

#[test]
fn an_empty_working_state_round_trips_too() {
    // Absent selection and Tag are written as empty strings, which must
    // read back as absent rather than as a Tag named "".
    let issues: Vec<Issue> = Vec::new();
    let state = WorkingState::default();
    let saved = state.settings();
    let restored = WorkingState::restore(&issues, move |key| {
        saved
            .iter()
            .find(|(name, _)| *name == key)
            .map(|(_, value)| value.clone())
    });
    assert_eq!(restored, state);
}

#[test]
fn a_view_count_ignores_the_filters_narrowing_it() {
    let issues = corpus();
    let mut state = WorkingState::default();
    state.set_filter("nothing matches".into(), &issues);

    assert!(state.visible(&issues).is_empty());
    assert_eq!(WorkingState::count_for(View::All, &issues), 3);
    assert_eq!(
        WorkingState::count_for(View::WithStatus(Status::Done), &issues),
        1
    );
}

#[test]
fn settling_again_changes_nothing() {
    let mut issues = corpus();
    let mut state = WorkingState::default();
    state.toggle_tag("docs".parse().unwrap(), &issues);
    issues[1].tags.clear();
    assert!(!state.settle(&issues).selection_moved || state.selected() == Some(1));
    let before = state.settings();
    assert!(!state.settle(&issues).selection_moved);
    assert_eq!(state.settings(), before);
}

#[test]
fn a_far_move_lands_on_the_last_row() {
    let issues = corpus();
    let mut state = WorkingState::default();
    state.select_issue(2);
    state.move_selection(isize::MAX, &issues);
    assert_eq!(state.selected(), Some(3));
    state.move_selection(isize::MIN, &issues);
    assert_eq!(state.selected(), Some(1));
}

#[test]
fn moving_from_nowhere_lands_on_the_first_row() {
    let issues = corpus();
    let mut state = WorkingState::default();
    state.select_issue(99);
    assert!(state.move_selection(1, &issues).selection_moved);
    assert_eq!(state.selected(), Some(1));
}
