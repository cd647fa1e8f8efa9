//! What a window was told to look like.

use std::collections::HashMap;

use issue_tracker::store::settings_keys;
use issue_tracker::ui::preferences::{Preferences, ThemeMode};

fn stored(pairs: &[(&str, &str)]) -> impl Fn(&str) -> Option<String> {
    let map: HashMap<String, String> = pairs
        .iter()
        .map(|(key, value)| (key.to_string(), value.to_string()))
        .collect();
    move |key: &str| map.get(key).cloned()
}

fn reread(preferences: &Preferences) -> Preferences {
    let saved = preferences.settings();
    Preferences::restore(move |key| {
        saved
            .iter()
            .find(|(name, _)| *name == key)
            .map(|(_, value)| value.clone())
    })
}

#[test]
fn a_first_run_has_no_themes_and_a_visible_sidebar() {
    let preferences = Preferences::restore(stored(&[]));
    assert_eq!(preferences.theme(ThemeMode::Light), None);
    assert_eq!(preferences.theme(ThemeMode::Dark), None);
    assert!(!preferences.sidebar_hidden());
}

#[test]
fn only_the_word_true_hides_the_sidebar() {
    // A window whose sidebar will not come back is worse than one that
    // shows it unasked, so anything unreadable means visible.
    for value in ["false", "", "yes", "TRUE", "1"] {
        let preferences =
            Preferences::restore(stored(&[(settings_keys::SIDEBAR_HIDDEN, value)]));
        assert!(!preferences.sidebar_hidden(), "{value:?}");
    }
    let hidden = Preferences::restore(stored(&[(settings_keys::SIDEBAR_HIDDEN, "true")]));
    assert!(hidden.sidebar_hidden());
}

#[test]
fn the_two_modes_are_chosen_independently() {
    // Over half the vendored theme families ship only one mode, which is
    // why these are not one choice.
    let mut preferences = Preferences::restore(stored(&[]));
    preferences.choose_theme(ThemeMode::Dark, "Ayu Dark");

    assert_eq!(preferences.theme(ThemeMode::Dark), Some("Ayu Dark"));
    assert_eq!(preferences.theme(ThemeMode::Light), None);
}

#[test]
fn toggling_reports_where_it_landed() {
    let mut preferences = Preferences::restore(stored(&[]));
    assert!(preferences.toggle_sidebar());
    assert!(preferences.sidebar_hidden());
    assert!(!preferences.toggle_sidebar());
    assert!(!preferences.sidebar_hidden());
}

#[test]
fn preferences_what_is_written_is_what_comes_back() {
    let mut preferences = Preferences::restore(stored(&[]));
    preferences.choose_theme(ThemeMode::Light, "Rosé Pine Dawn");
    preferences.choose_theme(ThemeMode::Dark, "Ayu Dark");
    preferences.toggle_sidebar();

    assert_eq!(reread(&preferences), preferences);
}

#[test]
fn an_untouched_preference_round_trips_too() {
    let preferences = Preferences::restore(stored(&[]));
    assert_eq!(reread(&preferences), preferences);
}

#[test]
fn a_theme_never_chosen_is_not_written_as_empty() {
    // "never picked one" and "picked one called nothing" must stay
    // distinguishable, or a blank row would resolve to no theme forever.
    let preferences = Preferences::restore(stored(&[]));
    let keys: Vec<&str> = preferences
        .settings()
        .into_iter()
        .map(|(key, _)| key)
        .collect();
    assert_eq!(keys, vec![settings_keys::SIDEBAR_HIDDEN]);
}
