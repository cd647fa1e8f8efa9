//! One window: its columns, its pickers, and what is written when.

use issue_tracker::domain::{Issue, IssueId, Priority, Status, View};
use issue_tracker::projection::{IssuePatch, Projection};
use issue_tracker::time::Timestamp;
use issue_tracker::ui::preferences::{Preferences, ThemeMode};
use issue_tracker::ui::theme_catalogue::{ThemeCatalogue, ThemeChoice};
use issue_tracker::ui::tracker::{
    edits, id_from_label, inputs, issue_label, issue_label_annotated, refiles, refills, relations,
    tag_choices, tag_selection, Escaped, Inputs, Moved, Tracker, Typed,
};
use issue_tracker::ui::views::{
    detail, erasing, list_is_blank, list_rows, priority_buttons, status_buttons, tag_rows,
    view_items, view_rows,
};
use issue_tracker::ui::working_state::WorkingState;

fn issue(id: IssueId, title: &str, status: Status, tags: &[&str]) -> Issue {
    Issue {
        id,
        title: title.to_string(),
        body: String::new(),
        status,
        priority: Priority::Unset,
        size: None,
        tags: tags.iter().map(|tag| tag.parse().unwrap()).collect(),
        parent_id: None,
        created_at: Timestamp::epoch(),
        updated_at: Timestamp::epoch(),
    }
}

/// A parent with two parts, one of them settled, and a loner.
fn corpus() -> Projection {
    let mut parent = issue(1, "Ship it", Status::Doing, &["ui"]);
    parent.priority = Priority::Urgent;
    parent.size = Some(3);
    let mut done = issue(2, "Parse", Status::Done, &["cli"]);
    done.parent_id = Some(1);
    let mut open = issue(3, "   ", Status::Todo, &["Cli", "ui"]);
    open.parent_id = Some(1);
    Projection::load(vec![parent, done, open, issue(4, "Alone", Status::Todo, &[])])
}

fn window() -> Tracker {
    Tracker::new(
        WorkingState::default(),
        Preferences::restore(|_: &str| None),
    )
}

#[test]
fn a_label_names_its_issue_and_what_it_would_be_taken_from() {
    let p = corpus();
    let part = p.get(2).unwrap();
    assert_eq!(issue_label(part), "#2 Parse");
    assert_eq!(issue_label_annotated(part, &p), "#2 Parse \u{b7} under #1");
    assert_eq!(issue_label_annotated(p.get(4).unwrap(), &p), "#4 Alone");
    for id in [1, 2, 3, 4] {
        let one = p.get(id).unwrap();
        assert_eq!(id_from_label(&issue_label(one)), Some(id));
        assert_eq!(id_from_label(&issue_label_annotated(one, &p)), Some(id));
    }
    assert_eq!(id_from_label("#-7"), Some(-7));
    assert_eq!(id_from_label("7 seven"), None);
    assert_eq!(id_from_label("#seven 7"), None);
}

#[test]
fn the_relation_pickers_hold_what_would_be_accepted() {
    let p = corpus();
    let of_part = relations(2, &p);
    assert_eq!(of_part.children, Vec::<String>::new());
    assert_eq!(of_part.parents, vec!["#1 Ship it", "#4 Alone"]);
    assert_eq!(of_part.current.as_deref(), Some("#1 Ship it"));

    let of_loner = relations(4, &p);
    assert_eq!(
        of_loner.children,
        vec!["#3 Untitled \u{b7} under #1", "#2 Parse \u{b7} under #1"]
    );
    assert_eq!(of_loner.parents, vec!["#1 Ship it"]);
    assert_eq!(of_loner.current, None);
}

#[test]
fn the_inputs_show_the_selected_issue_and_writing_them_back_changes_nothing() {
    let p = corpus();
    let shown = inputs(Some(1), &p);
    assert_eq!(shown.title, "Ship it");
    assert_eq!(shown.size, "3");
    let patch = edits(&shown);
    assert_eq!(patch.title.as_deref(), Some("Ship it"));
    assert_eq!(patch.size, Some(Some(3)));
    assert_eq!(patch.status, None);
    assert_eq!(patch.tags, None);

    let blank = inputs(None, &p);
    assert_eq!(
        blank,
        Inputs { title: String::new(), body: String::new(), size: String::new() }
    );
}

#[test]
fn a_half_typed_size_leaves_the_stored_one_alone() {
    let typed = |size: &str| {
        edits(&Inputs { title: "t".into(), body: "b".into(), size: size.into() }).size
    };
    assert_eq!(typed(" 12 "), Some(Some(12)));
    assert_eq!(typed("0"), Some(Some(0)));
    assert_eq!(typed("   "), Some(None), "emptied means unsized");
    assert_eq!(typed("256"), None);
    assert_eq!(typed("1x"), None);
    assert_eq!(typed("-1"), None);
}

#[test]
fn a_focused_input_is_left_alone_unless_the_selection_moved() {
    assert!(!refills(false, true));
    assert!(refills(true, true));
    assert!(refills(false, false));
}

#[test]
fn a_choice_of_tags_leaves_out_what_is_no_tag() {
    let patch = tag_selection(&vec!["ui".to_string(), "  ".to_string(), " cli ".to_string()]);
    let names: Vec<String> =
        patch.tags.unwrap().iter().map(|tag| tag.as_str().to_string()).collect();
    assert_eq!(names, vec!["ui", "cli"]);

    let p = corpus();
    let (items, chosen) = tag_choices(Some(3), &p);
    assert_eq!(items, vec!["Cli", "ui"]);
    assert_eq!(chosen, vec!["Cli", "ui"]);
    assert_eq!(tag_choices(None, &p).1, Vec::<String>::new());
}

#[test]
fn refiling_to_where_it_is_does_nothing() {
    let p = corpus();
    assert!(!refiles(p.get(2), Some(1)));
    assert!(refiles(p.get(2), None));
    assert!(refiles(p.get(2), Some(4)));
    assert!(refiles(None, None));
}

#[test]
fn leaving_an_issue_writes_what_was_typed_for_it() {
    let p = corpus();
    let mut window = window();
    assert_eq!(window.select_issue(1), Some(Moved { flushed: None, force: true }));
    assert_eq!(window.select_issue(1), None);

    window.schedule_save();
    assert_eq!(window.select_issue(4), Some(Moved { flushed: Some(1), force: true }));
    assert_eq!(window.select_issue(1), Some(Moved { flushed: None, force: true }));

    window.schedule_save();
    assert_eq!(window.flush_pending_save(), Some(1));
    assert!(window.move_selection(1, p.issues()));

    window.schedule_save();
    let selected = window.working().selected();
    assert_eq!(window.save(), selected);
    assert_eq!(window.save(), None, "written once");
}

#[test]
fn the_selection_moves_over_the_list_as_the_write_left_it() {
    let stamped = |id: IssueId, secs: i64| {
        let mut one = issue(id, "", Status::Todo, &[]);
        one.updated_at = Timestamp::from_parts(secs, 0).unwrap();
        one
    };
    let before = Projection::load(vec![stamped(1, 30), stamped(2, 20), stamped(3, 10)]);
    // Writing what was typed into the last one brings it to the top.
    let after = Projection::load(vec![stamped(1, 30), stamped(2, 20), stamped(3, 40)]);

    assert_eq!(before.issues()[2].id, 3);
    let mut window = window();
    window.select_issue(3);
    window.schedule_save();
    assert_eq!(window.flush_pending_save(), Some(3));
    assert!(window.move_selection(1, after.issues()));
    assert_eq!(window.working().selected(), Some(1), "below where it now is");
}

#[test]
fn erasing_forgets_what_was_typed() {
    let mut window = window();
    window.select_issue(1);
    window.schedule_save();
    window.deleting();
    assert_eq!(window.flush_pending_save(), None);
}

#[test]
fn nothing_is_lost_on_the_way_out() {
    let p = corpus();
    let mut window = window();
    assert_eq!(window.flush_pending_writes(), (None, Vec::new()));

    window.select_view(View::WithStatus(Status::Todo), p.issues());
    window.schedule_save();
    let (flushed, settings) = window.flush_pending_writes();
    assert_eq!(flushed, window.working().selected());
    assert_eq!(settings[0], ("ui.view", "Todo".to_string()));
    assert_eq!(window.flush_pending_writes(), (None, Vec::new()));
}

#[test]
fn typing_a_title_files_it_and_a_blank_one_cancels() {
    let mut window = window();
    window.start_creating();
    assert_eq!(window.commit_new_issue("  New one "), Typed::Create("New one".into()));
    assert!(window.creating(), "several can be typed in a row");
    window.created(9);
    assert_eq!(window.working().selected(), Some(9));
    assert_eq!(window.commit_new_issue("   "), Typed::Cancelled);
    assert!(!window.creating());
}

#[test]
fn escape_cancels_a_new_issue_before_anything_else() {
    let mut window = window();
    window.select_issue(1);
    window.schedule_save();
    window.start_creating();
    assert_eq!(window.cancel_editing(), Escaped::Cancelled);
    assert_eq!(window.cancel_editing(), Escaped::Flushed(Some(1)));
    assert_eq!(window.cancel_editing(), Escaped::Flushed(None));
}

#[test]
fn a_change_elsewhere_moves_the_selection_only_if_it_has_to() {
    let mut p = corpus();
    let mut window = window();
    window.select_issue(4);
    assert!(!window.on_projection_changed(p.issues()));
    p.deleted(4, Ok(())).unwrap();
    assert!(window.on_projection_changed(p.issues()));
    assert_eq!(window.working().selected(), Some(1));
}

#[test]
fn a_theme_is_chosen_only_from_the_catalogue() {
    let catalogue = ThemeCatalogue::of(vec![(
        ThemeMode::Dark,
        ThemeChoice { name: "Ayu Dark".into(), config: 7 },
    )]);
    let mut window = window();
    assert!(window.choose_theme(ThemeMode::Light, "Ayu Dark", &catalogue).is_none());
    assert_eq!(window.chosen_theme(ThemeMode::Dark, &catalogue), None);

    let (config, settings) = window.choose_theme(ThemeMode::Dark, "Ayu Dark", &catalogue).unwrap();
    assert_eq!(config, 7);
    assert!(settings.contains(&("theme.dark", "Ayu Dark".to_string())));
    assert_eq!(window.chosen_theme(ThemeMode::Dark, &catalogue), Some(7));

    let settings = window.toggle_sidebar();
    assert!(settings.contains(&("sidebar.hidden", "true".to_string())));
    assert!(window.preferences().sidebar_hidden());
}

#[test]
fn the_sidebar_counts_views_and_tags_whatever_narrows_the_list() {
    let p = corpus();
    let mut window = window();
    window.set_filter("nothing matches".into(), p.issues());
    window.toggle_tag_filter("UI".parse().unwrap(), p.issues());

    let views = view_rows(window.working().view(), p.issues());
    let counts: Vec<(&str, usize)> = views.iter().map(|row| (row.label, row.count)).collect();
    assert_eq!(
        counts,
        vec![
            ("All Issues", 4),
            ("Todo", 2),
            ("Doing", 1),
            ("Blocked", 0),
            ("Done", 1),
            ("Cancelled", 0),
        ]
    );
    assert!(views[0].active && !views[1].active);

    let tags = tag_rows(window.working(), &p, 8);
    let rows: Vec<(&str, usize, bool)> =
        tags.iter().map(|row| (row.chip.name.as_str(), row.count, row.active)).collect();
    assert_eq!(rows, vec![("Cli", 2, false), ("ui", 2, true)]);
    assert!(tags.iter().all(|row| row.chip.colour < 8));

    let items = view_items(View::WithStatus(Status::Done));
    let checked: Vec<&str> =
        items.iter().filter(|item| item.checked).map(|item| item.label).collect();
    assert_eq!(checked, vec!["Done"]);
}

#[test]
fn a_row_says_why_done_is_out_of_reach() {
    let p = corpus();
    let mut window = window();
    window.select_issue(1);
    let rows = list_rows(window.working(), &p, 8);
    assert_eq!(rows.len(), 4);
    assert_eq!(rows[0].number, "#1");
    assert_eq!(rows[0].progress.as_deref(), Some("1/2"));
    assert_eq!(rows[0].priority.as_deref(), Some("Urgent"));
    assert!(rows[0].selected);

    let part = rows.iter().find(|row| row.id == 3).unwrap();
    assert_eq!(part.title, "Untitled");
    assert_eq!(part.priority, None);
    assert_eq!(part.progress, None);
    assert_eq!(part.parent.as_deref(), Some("\u{21b3} #1"));
    assert_eq!(part.chips.len(), 2);
    assert!(!part.selected);

    assert!(list_is_blank(0, false));
    assert!(!list_is_blank(0, true));
    assert!(!list_is_blank(1, false));
}

#[test]
fn the_detail_pane_offers_one_direction_of_the_hierarchy() {
    let p = corpus();
    let parent = detail(Some(1), &p, 8).unwrap();
    assert_eq!(parent.outstanding, 1);
    assert!(parent.offers_parts && !parent.offers_parent);
    assert_eq!(parent.parts.len(), 2);
    assert_eq!(parent.stamps, "Created 1970-01-01 00:00 \u{b7} Updated 1970-01-01 00:00");

    let part = detail(Some(2), &p, 8).unwrap();
    assert!(!part.offers_parts && part.offers_parent);
    let loner = detail(Some(4), &p, 8).unwrap();
    assert!(loner.offers_parts && loner.offers_parent);
    assert!(detail(Some(99), &p, 8).is_none());
    assert!(detail(None, &p, 8).is_none());
}

#[test]
fn the_done_button_is_blocked_exactly_when_the_projection_would_refuse() {
    let p = corpus();
    for id in [1, 2, 3, 4] {
        let shown = detail(Some(id), &p, 8).unwrap();
        let buttons = status_buttons(shown.status, shown.outstanding);
        for button in &buttons {
            let refused = p.patch(id, IssuePatch::default().status(button.status)).is_err();
            assert_eq!(button.blocked.is_some(), refused, "#{id} {}", button.label);
            assert_eq!(button.active, button.status == shown.status);
        }
    }
    let blocked = status_buttons(Status::Doing, 2);
    assert_eq!(blocked[3].blocked.as_deref(), Some("2 sub-issue(s) still outstanding"));

    let priorities = priority_buttons(Priority::High);
    let active: Vec<&str> =
        priorities.iter().filter(|button| button.active).map(|button| button.label).collect();
    assert_eq!(active, vec!["High"]);
}

#[test]
fn erasing_says_what_happens_to_the_parts() {
    assert_eq!(
        erasing(4, "Alone", 0),
        "#4 \u{201c}Alone\u{201d} will be erased. To abandon it but keep the record, \
         set its status to Cancelled instead."
    );
    assert!(erasing(1, "x", 1).contains("Its 1 sub-issue will be kept"));
    assert!(erasing(1, "x", 2).contains("Its 2 sub-issues will be kept"));
}
