//! Issues, what they carry, and how they are narrowed, counted and ordered.

use std::cmp::Ordering;
use std::collections::hash_map::DefaultHasher;
use std::collections::HashSet;
use std::hash::{Hash, Hasher};

use issue_tracker::domain::{
    normalise_tags, sort_for_display, Issue, IssueId, Narrowing, ParentFilter, Priority, Size,
    SizeRollup, Status, Tag, TagSet, View, MAX_TAG_LEN,
};
use issue_tracker::time::Timestamp;

/// A corpus for narrowing: distinct Statuses, Tags and parentage.
fn corpus() -> Vec<Issue> {
    let mut issues = vec![
        narrowable(1, "Fix the flash", Status::Doing, &["ui"]),
        narrowable(2, "Write the ADR", Status::Todo, &["docs"]),
        narrowable(3, "Ship the CLI", Status::Done, &["ui", "cli"]),
        narrowable(4, "Chase the bug", Status::Todo, &[]),
    ];
    issues[3].parent_id = Some(1);
    issues
}

fn narrowable(id: IssueId, title: &str, status: Status, tags: &[&str]) -> Issue {
    Issue {
        id,
        title: title.to_string(),
        body: String::new(),
        status,
        priority: Priority::Unset,
        tags: tags.iter().map(|tag| tag.parse().unwrap()).collect(),
        parent_id: None,
        size: None,
        created_at: Timestamp::epoch(),
        updated_at: Timestamp::epoch(),
    }
}

fn ids(issues: Vec<&Issue>) -> Vec<IssueId> {
    issues.into_iter().map(|issue| issue.id).collect()
}

fn sized(id: IssueId, size: Option<Size>) -> Issue {
    let mut issue = narrowable(id, "sized", Status::Todo, &[]);
    issue.size = size;
    issue
}

#[test]
fn a_family_with_no_sizes_at_all_has_no_total() {
    // Distinct from a total of zero, which is a family that adds up to no
    // work. Collapsing them would lose the only thing `Option` is for.
    let parent = sized(1, None);
    let parts = [sized(2, None), sized(3, None)];
    let rollup = SizeRollup::of(&parent, &parts.iter().collect::<Vec<_>>());

    assert_eq!(rollup.total, None);
    assert_eq!(rollup.unsized_sub_issues, 2);
}

#[test]
fn a_size_of_zero_is_a_real_answer() {
    let rollup = SizeRollup::of(&sized(1, Some(0)), &[]);
    assert_eq!(rollup.total, Some(0), "no work is not the same as unknown");
}

#[test]
fn a_parents_own_size_adds_to_its_parts() {
    // Its own Size is the work the parts do not cover, so it adds rather
    // than replacing.
    let parent = sized(1, Some(3));
    let parts = [sized(2, Some(5)), sized(3, Some(8))];
    let rollup = SizeRollup::of(&parent, &parts.iter().collect::<Vec<_>>());

    assert_eq!(rollup.total, Some(16));
    assert_eq!(rollup.unsized_sub_issues, 0);
}

#[test]
fn an_unsized_part_is_counted_rather_than_treated_as_zero() {
    // A total that silently omitted it would be a lower bound presented
    // as a figure.
    let parent = sized(1, None);
    let parts = [sized(2, Some(5)), sized(3, None), sized(4, Some(2))];
    let rollup = SizeRollup::of(&parent, &parts.iter().collect::<Vec<_>>());

    assert_eq!(rollup.total, Some(7));
    assert_eq!(rollup.unsized_sub_issues, 1);
}

#[test]
fn a_settled_part_still_counts() {
    // A Size is a fact about the work, not about how much is left: a
    // Parent that shrank as you finished it would read as a bad estimate.
    let parent = sized(1, None);
    let mut done = sized(2, Some(5));
    done.status = Status::Done;
    let mut cancelled = sized(3, Some(2));
    cancelled.status = Status::Cancelled;

    let rollup = SizeRollup::of(&parent, &[&done, &cancelled]);
    assert_eq!(rollup.total, Some(7));
}

#[test]
fn a_total_outgrows_the_type_a_size_is_held_in() {
    // 255 is the ceiling for what a person types, not for what the
    // arithmetic produces — which is why a total is `u32`.
    let parent = sized(1, Some(u8::MAX));
    let parts: Vec<Issue> = (2..12).map(|id| sized(id, Some(u8::MAX))).collect();
    let rollup = SizeRollup::of(&parent, &parts.iter().collect::<Vec<_>>());

    assert_eq!(rollup.total, Some(255 * 11));
}

#[test]
fn an_issue_with_no_parts_totals_to_its_own_size() {
    assert_eq!(SizeRollup::of(&sized(1, Some(4)), &[]).total, Some(4));
    assert_eq!(SizeRollup::of(&sized(1, None), &[]).total, None);
    assert_eq!(SizeRollup::of(&sized(1, None), &[]).unsized_sub_issues, 0);
}

#[test]
fn an_empty_narrowing_admits_everything() {
    let issues = corpus();
    assert_eq!(Narrowing::default().select(&issues).len(), 4);
    assert_eq!(Narrowing::default().count(&issues), 4);
}

#[test]
fn a_narrowing_keeps_the_order_it_was_given() {
    // Display order is decided once, by `sort_for_display`; narrowing
    // must not quietly reorder, or "the first one" would mean different
    // things in the window and over HTTP.
    let issues = corpus();
    assert_eq!(ids(Narrowing::default().select(&issues)), vec![1, 2, 3, 4]);
}

#[test]
fn the_narrowings_compose() {
    let issues = corpus();
    let ui = Narrowing {
        tag: Some("ui".parse().unwrap()),
        ..Default::default()
    };
    assert_eq!(ids(ui.select(&issues)), vec![1, 3]);

    // A Tag narrows within a View, and a title within both.
    let within = Narrowing {
        view: View::WithStatus(Status::Done),
        title: Some("ship".into()),
        ..ui.clone()
    };
    assert_eq!(ids(within.select(&issues)), vec![3]);

    let contradictory = Narrowing {
        view: View::WithStatus(Status::Todo),
        ..within
    };
    assert!(contradictory.select(&issues).is_empty());
}

#[test]
fn a_title_match_ignores_case_and_surrounding_space() {
    let issues = corpus();
    let narrowing = Narrowing {
        title: Some("  FLASH  ".into()),
        ..Default::default()
    };
    assert_eq!(ids(narrowing.select(&issues)), vec![1]);
}

#[test]
fn a_blank_title_match_narrows_nothing() {
    // An emptied filter box must show everything, not nothing.
    let issues = corpus();
    for blank in ["", "   "] {
        let narrowing = Narrowing {
            title: Some(blank.into()),
            ..Default::default()
        };
        assert_eq!(narrowing.count(&issues), 4, "{blank:?}");
    }
}

#[test]
fn a_title_match_reads_titles_only() {
    let mut issues = corpus();
    issues[0].body = "mentions the ADR".to_string();
    let narrowing = Narrowing {
        title: Some("ADR".into()),
        ..Default::default()
    };
    assert_eq!(ids(narrowing.select(&issues)), vec![2], "not the body");
}

#[test]
fn a_tag_match_folds_case_because_tag_identity_does() {
    let issues = corpus();
    let narrowing = Narrowing {
        tag: Some("UI".parse().unwrap()),
        ..Default::default()
    };
    assert_eq!(ids(narrowing.select(&issues)), vec![1, 3]);
}

#[test]
fn a_parent_narrowing_asks_both_halves_of_the_question() {
    let issues = corpus();

    let under = Narrowing {
        parent: Some(ParentFilter::Under(1)),
        ..Default::default()
    };
    assert_eq!(ids(under.select(&issues)), vec![4]);

    let top = Narrowing {
        parent: Some(ParentFilter::Unparented),
        ..Default::default()
    };
    assert_eq!(ids(top.select(&issues)), vec![1, 2, 3]);
}

#[test]
fn a_parent_filter_reads_an_id_or_the_literal_none() {
    assert_eq!(
        "none".parse::<ParentFilter>().unwrap(),
        ParentFilter::Unparented
    );
    assert_eq!("7".parse::<ParentFilter>().unwrap(), ParentFilter::Under(7));

    // An empty value is what a caller sends when a variable was never
    // set, so it must not quietly mean "none".
    for bad in ["", "all", "none ", "None", "seven"] {
        let err = bad.parse::<ParentFilter>().unwrap_err();
        assert_eq!(err.kind, "parent", "{bad:?}");
        assert!(err.to_string().contains(bad), "{bad:?}");
    }
}

#[test]
fn counting_a_view_ignores_everything_narrowing_it() {
    let issues = corpus();
    assert_eq!(Narrowing::for_view(View::All).count(&issues), 4);
    assert_eq!(
        Narrowing::for_view(View::WithStatus(Status::Todo)).count(&issues),
        2
    );
    assert_eq!(
        Narrowing::for_view(View::WithStatus(Status::Cancelled)).count(&issues),
        0
    );
}

fn issue(id: IssueId, priority: Priority, updated_at: &str) -> Issue {
    let at = Timestamp::parse(updated_at).unwrap();
    Issue {
        id,
        title: format!("issue {id}"),
        body: String::new(),
        status: Status::Todo,
        priority,
        tags: Vec::new(),
        parent_id: None,
        size: None,
        created_at: at,
        updated_at: at,
    }
}

#[test]
fn status_round_trips_through_text() {
    for status in Status::ALL {
        assert_eq!(status.to_string().parse::<Status>().unwrap(), status);
    }
}

#[test]
fn priority_round_trips_through_text() {
    for priority in Priority::ALL {
        assert_eq!(priority.to_string().parse::<Priority>().unwrap(), priority);
    }
}

#[test]
fn status_and_priority_fold_case() {
    // What a terminal user types, and what the API therefore accepts.
    assert_eq!("done".parse::<Status>().unwrap(), Status::Done);
    assert_eq!("CANCELLED".parse::<Status>().unwrap(), Status::Cancelled);
    assert_eq!("urgent".parse::<Priority>().unwrap(), Priority::Urgent);
    // Folding must not make two variants collide.
    for status in Status::ALL {
        assert_eq!(
            status.label().to_lowercase().parse::<Status>().unwrap(),
            status
        );
    }
    for priority in Priority::ALL {
        assert_eq!(
            priority.label().to_lowercase().parse::<Priority>().unwrap(),
            priority
        );
    }
}

#[test]
fn unknown_text_is_rejected_rather_than_defaulted() {
    assert!("Wontfix".parse::<Status>().is_err());
    assert!("Critical".parse::<Priority>().is_err());
}

#[test]
fn done_and_cancelled_are_settled_the_rest_are_not() {
    assert!(Status::Done.is_settled());
    assert!(Status::Cancelled.is_settled(), "abandoned is still decided");
    assert!(!Status::Todo.is_settled());
    assert!(!Status::Doing.is_settled());
    assert!(!Status::Blocked.is_settled());
}

#[test]
fn priority_orders_none_lowest_and_urgent_highest() {
    assert!(Priority::Unset < Priority::Low);
    assert!(Priority::Urgent > Priority::High);
}

#[test]
fn all_view_contains_every_status() {
    for status in Status::ALL {
        let mut candidate = issue(1, Priority::Unset, "2026-01-01T00:00:00Z");
        candidate.status = status;
        assert!(View::All.contains(&candidate));
    }
}

#[test]
fn status_view_contains_only_its_own_status() {
    let view = View::WithStatus(Status::Blocked);
    let mut blocked = issue(1, Priority::Unset, "2026-01-01T00:00:00Z");
    blocked.status = Status::Blocked;
    let todo = issue(2, Priority::Unset, "2026-01-01T00:00:00Z");

    assert!(view.contains(&blocked));
    assert!(!view.contains(&todo));
}

#[test]
fn view_round_trips_through_text() {
    for view in View::all() {
        assert_eq!(view.to_string().parse::<View>().unwrap(), view);
    }
}

#[test]
fn view_persistence_is_independent_of_display_text() {
    // "All Issues" is what the user sees; "All" is what gets stored.
    // Rewording the label must not invalidate stored values.
    assert_eq!(View::All.to_string(), "All");
    assert_eq!(View::All.label(), "All Issues");
}

#[test]
fn unknown_view_is_rejected() {
    assert!("Archived".parse::<View>().is_err());
    assert!("All Issues".parse::<View>().is_err());
}

#[test]
fn display_orders_by_priority_then_recency() {
    let mut issues = vec![
        issue(1, Priority::Low, "2026-01-03T00:00:00Z"),
        issue(2, Priority::Urgent, "2026-01-01T00:00:00Z"),
        issue(3, Priority::Low, "2026-01-05T00:00:00Z"),
    ];

    sort_for_display(&mut issues);

    // Urgent first despite being the oldest, then Low by recency.
    assert_eq!(
        issues.iter().map(|i| i.id).collect::<Vec<_>>(),
        vec![2, 3, 1]
    );
}

fn tag(name: &str) -> Tag {
    name.parse().expect("valid tag")
}

fn tag_set(names: &[&str]) -> TagSet {
    let mut set = TagSet::new();
    for name in names {
        set.insert(tag(name));
    }
    set
}

#[test]
fn tags_trim_and_preserve_their_spelling() {
    assert_eq!(tag("  Needs design  ").as_str(), "Needs design");
}

#[test]
fn unusable_tag_names_are_rejected() {
    assert!("".parse::<Tag>().is_err());
    assert!("   ".parse::<Tag>().is_err());
    // Control characters are barred, which is also what guarantees a name
    // can never contain a newline.
    assert!("two\nlines".parse::<Tag>().is_err());
    assert!("x".repeat(MAX_TAG_LEN + 1).parse::<Tag>().is_err());
    assert!("x".repeat(MAX_TAG_LEN).parse::<Tag>().is_ok());
}

#[test]
fn slashes_and_spaces_are_ordinary_characters() {
    // Deliberately flat: `ui/theme` is one name, not a child of `ui`.
    assert_eq!(tag("ui/theme").as_str(), "ui/theme");
    assert_ne!(tag("ui/theme"), tag("ui"));
}

#[test]
fn tags_compare_without_regard_to_case() {
    assert_eq!(tag("Bug"), tag("bug"));
    assert_eq!(tag("Bug").cmp(&tag("bug")), Ordering::Equal);

    // The property that motivates the hand-written impls: a case variant
    // must never slip past a membership test.
    assert!([tag("Bug")].contains(&tag("bug")));
}

#[test]
fn a_set_keeps_the_first_spelling_it_saw() {
    let mut in_use = TagSet::new();
    in_use.insert(tag("Bug"));
    in_use.insert(tag("bug"));

    assert_eq!(in_use.len(), 1);
    assert_eq!(in_use.as_slice()[0].as_str(), "Bug");
}

#[test]
fn canonicalising_adopts_the_established_spelling() {
    let in_use = tag_set(&["Bug"]);

    assert_eq!(tag("bug").canonicalise(&in_use).as_str(), "Bug");
    // An unrelated name keeps the spelling it arrived with.
    assert_eq!(tag("UI").canonicalise(&in_use).as_str(), "UI");
}

#[test]
fn normalising_folds_dedupes_and_sorts() {
    let in_use = tag_set(&["Bug"]);
    let tags = normalise_tags(vec![tag("ui"), tag("bug"), tag("BUG")], &in_use);

    assert_eq!(
        tags.iter().map(Tag::as_str).collect::<Vec<_>>(),
        vec!["Bug", "ui"]
    );
}

#[test]
fn blank_titles_display_as_untitled() {
    let mut candidate = issue(1, Priority::Unset, "2026-01-01T00:00:00Z");
    candidate.title = "   ".into();
    assert_eq!(candidate.display_title(), "Untitled");
}

#[test]
fn an_over_long_priority_name_is_no_priority() {
    assert!("Urgently".parse::<Priority>().is_err());
    let err = "Wontfix".parse::<Status>().unwrap_err();
    assert_eq!(err.to_string(), "unrecognised status: \"Wontfix\"");
    let err = "Critical".parse::<Priority>().unwrap_err();
    assert_eq!(err.to_string(), "unrecognised priority: \"Critical\"");
    let err = "a\tb".parse::<View>().unwrap_err();
    assert_eq!(err.to_string(), "unrecognised view: \"a\\tb\"");
}

#[test]
fn display_order_breaks_ties_on_the_higher_id() {
    let mut issues = vec![
        issue(1, Priority::Low, "2026-01-03T00:00:00Z"),
        issue(3, Priority::Low, "2026-01-03T00:00:00Z"),
        issue(2, Priority::Low, "2026-01-03T00:00:00Z"),
    ];
    sort_for_display(&mut issues);
    assert_eq!(issues.iter().map(|i| i.id).collect::<Vec<_>>(), vec![3, 2, 1]);

    // Ordering what is in order changes nothing.
    let before = issues.clone();
    sort_for_display(&mut issues);
    assert_eq!(issues, before);
}

#[test]
fn normalising_again_changes_nothing() {
    let in_use = tag_set(&["Bug"]);
    let once = normalise_tags(vec![tag("ui"), tag("bug"), tag("Ärger")], &in_use);
    let names: Vec<String> = once.iter().map(|tag| tag.as_str().to_string()).collect();
    let twice = normalise_tags(once, &in_use);
    assert_eq!(twice.iter().map(Tag::as_str).collect::<Vec<_>>(), names);
    assert_eq!(names, vec!["Bug", "ui", "Ärger"]);
}

#[test]
fn a_tag_folds_letters_beyond_ascii() {
    assert_eq!(tag("Ärger"), tag("ärger"));
    assert_eq!(tag("STRASSE").key(), "strasse");
    assert_eq!(tag("Ärger").cmp(&tag("zebra")), Ordering::Greater);
    assert_eq!(tag("alpha").cmp(&tag("Beta")), Ordering::Less);
}

#[test]
fn equality_of_issues_ignores_how_a_tag_is_spelled() {
    let a = narrowable(1, "one", Status::Todo, &["Bug"]);
    let b = narrowable(1, "one", Status::Todo, &["bug"]);
    assert_eq!(a, b);
    let c = narrowable(1, "one", Status::Todo, &["bugs"]);
    assert_ne!(a, c);
}

#[test]
fn equal_tags_hash_alike() {
    let hash_of = |tag: &Tag| {
        let mut state = DefaultHasher::new();
        tag.hash(&mut state);
        state.finish()
    };
    assert_eq!(hash_of(&tag("Bug")), hash_of(&tag("bug")));
    assert_ne!(hash_of(&tag("ui")), hash_of(&tag("ui/theme")));

    let mut key = DefaultHasher::new();
    "bug".hash(&mut key);
    assert_eq!(hash_of(&tag("BUG")), key.finish(), "by its key");

    let set: HashSet<Tag> = ["Bug", "bug", "ui", "ui/theme"].map(tag).into();
    assert_eq!(set.len(), 3);
}
