//! The themes there are to choose from.

use issue_tracker::ui::preferences::ThemeMode;
use issue_tracker::ui::theme_catalogue::{ThemeCatalogue, ThemeChoice, ThemeListDelegate};

/// Themes as they come out of their files: families in file order, each with
/// the modes it has.
fn catalogue() -> ThemeCatalogue {
    let loaded = [
        (ThemeMode::Light, "Ayu Light"),
        (ThemeMode::Dark, "Ayu Dark"),
        (ThemeMode::Dark, "tokyo Night"),
        (ThemeMode::Dark, "Matrix"),
        (ThemeMode::Light, "Gruvbox Light"),
        (ThemeMode::Dark, "Gruvbox Dark"),
        (ThemeMode::Dark, "Alduin"),
    ];
    ThemeCatalogue::of(
        loaded
            .iter()
            .enumerate()
            .map(|(config, (mode, name))| {
                let name = name.to_string();
                (*mode, ThemeChoice { name, config })
            })
            .collect(),
    )
}

#[test]
fn known_themes_resolve_by_name() {
    let catalogue = catalogue();
    let light = catalogue.find(ThemeMode::Light, "Gruvbox Light");
    assert!(light.is_some());
    assert_eq!(light.unwrap().config, 4);
    assert!(catalogue.find(ThemeMode::Dark, "Gruvbox Dark").is_some());
}

#[test]
fn unknown_name_returns_none_so_callers_can_fall_back() {
    let catalogue = catalogue();
    assert!(catalogue.find(ThemeMode::Light, "No Such Theme").is_none());
    // A dark theme is not a valid light choice.
    assert!(catalogue.find(ThemeMode::Light, "Gruvbox Dark").is_none());
}

#[test]
fn variants_are_sorted_by_name() {
    let catalogue = catalogue();
    let names: Vec<String> = catalogue
        .for_mode(ThemeMode::Dark)
        .iter()
        .map(|choice| choice.name.to_lowercase())
        .collect();
    let mut sorted = names.clone();
    sorted.sort();
    assert_eq!(names, sorted);
    assert_eq!(names.len(), 5);
}

#[test]
fn a_search_narrows_the_picker_and_a_blank_one_does_not() {
    let mut picker = ThemeListDelegate::new(catalogue().for_mode(ThemeMode::Dark).to_vec());
    assert_eq!(picker.items_count(), 5);
    assert_eq!(picker.index_of("Gruvbox Dark"), Some(2));

    picker.perform_search("  DARK ");
    assert_eq!(picker.items_count(), 2);
    assert_eq!(picker.item(0).unwrap().name, "Ayu Dark");
    assert_eq!(picker.item(1).unwrap().name, "Gruvbox Dark");
    assert!(picker.item(2).is_none());
    assert_eq!(picker.position("Gruvbox Dark"), Some(1));
    assert_eq!(picker.position("Matrix"), None);
    // The unfiltered place is still the unfiltered place.
    assert_eq!(picker.index_of("Gruvbox Dark"), Some(2));

    picker.perform_search("   ");
    assert_eq!(picker.items_count(), 5);
}

#[test]
fn themes_of_one_name_keep_the_order_they_came_in() {
    let twice = vec![
        (ThemeMode::Dark, ThemeChoice { name: "b".into(), config: 0 }),
        (ThemeMode::Dark, ThemeChoice { name: "A".into(), config: 1 }),
        (ThemeMode::Dark, ThemeChoice { name: "a".into(), config: 2 }),
    ];
    let catalogue = ThemeCatalogue::of(twice);
    let order: Vec<usize> = catalogue
        .for_mode(ThemeMode::Dark)
        .iter()
        .map(|choice| choice.config)
        .collect();
    assert_eq!(order, vec![1, 2, 0]);
}
