//! What the window was told to look like: the chosen light and dark themes, and
//! whether the sidebar is showing.
//!
//! Shaped like working state: restored from a lookup, handed back as key/value
//! pairs, with the writing left to the caller. The two are separate because
//! these are preferences, and working state is where you happened to be.
//!
//! It holds theme names, not resolved themes. What themes exist is the
//! catalogue's subject; what was chosen is this one's.

use vstd::prelude::*;

use crate::api::http;
use crate::store::settings_keys;
use crate::text;
use crate::ui::working_state;

verus! {

/// Which of the two appearances a theme is for.
#[derive(Debug, Clone, Copy, PartialEq, Eq, Structural)]
pub enum ThemeMode {
    Light,
    Dark,
}

/// What the window was told to look like.
#[derive(Debug, PartialEq, Eq)]
pub struct Preferences {
    light: Option<String>,
    dark: Option<String>,
    sidebar_hidden: bool,
}

/// What the window was told to look like, as the contracts speak of it.
#[verifier::ext_equal]
pub struct PreferencesModel {
    pub light: Option<Seq<char>>,
    pub dark: Option<Seq<char>>,
    pub sidebar_hidden: bool,
}

impl View for Preferences {
    type V = PreferencesModel;

    closed spec fn view(&self) -> PreferencesModel {
        PreferencesModel {
            light: http::optional_text(self.light),
            dark: http::optional_text(self.dark),
            sidebar_hidden: self.sidebar_hidden,
        }
    }
}

/// What was stored of the preferences.
pub open spec fn recalled(
    light: Option<Seq<char>>,
    dark: Option<Seq<char>>,
    hidden: Option<Seq<char>>,
) -> PreferencesModel {
    PreferencesModel { light, dark, sidebar_hidden: hidden == Some("true"@) }
}

/// The keys and values preferences are stored as. A theme never chosen is left
/// out.
pub open spec fn written(preferences: PreferencesModel) -> Seq<(Seq<char>, Seq<char>)> {
    seq![
        (
            settings_keys::SIDEBAR_HIDDEN@,
            if preferences.sidebar_hidden {
                "true"@
            } else {
                "false"@
            },
        ),
    ] + (match preferences.light {
        Some(name) => seq![(settings_keys::THEME_LIGHT@, name)],
        None => seq![],
    }) + (match preferences.dark {
        Some(name) => seq![(settings_keys::THEME_DARK@, name)],
        None => seq![],
    })
}

impl PreferencesModel {
    /// The theme chosen for a mode.
    pub open spec fn chosen(self, mode: ThemeMode) -> Option<Seq<char>> {
        match mode {
            ThemeMode::Light => self.light,
            ThemeMode::Dark => self.dark,
        }
    }

    /// With a theme chosen for a mode.
    pub open spec fn choosing(self, mode: ThemeMode, name: Seq<char>) -> PreferencesModel {
        match mode {
            ThemeMode::Light => PreferencesModel { light: Some(name), ..self },
            ThemeMode::Dark => PreferencesModel { dark: Some(name), ..self },
        }
    }
}

impl Preferences {
    /// The preferences that were stored.
    pub fn from_stored(
        light: Option<String>,
        dark: Option<String>,
        hidden: Option<String>,
    ) -> (r: Preferences)
        ensures
            r@ == recalled(
                http::optional_text(light),
                http::optional_text(dark),
                http::optional_text(hidden),
            ),
    {
        // Anything other than "true", absent or malformed included, means
        // visible, which is the safer state to land on: a window whose sidebar
        // will not come back is much worse than one that shows it when you asked
        // for it to be hidden.
        let sidebar_hidden = match &hidden {
            Some(value) => text::same(value.as_str(), "true"),
            None => false,
        };
        Preferences { light, dark, sidebar_hidden }
    }

    /// Restores the preferences through a lookup.
    pub fn restore<F: Fn(&str) -> Option<String>>(read: F) -> (r: Preferences)
        requires
            call_requires(read, (settings_keys::THEME_LIGHT,)),
            call_requires(read, (settings_keys::THEME_DARK,)),
            call_requires(read, (settings_keys::SIDEBAR_HIDDEN,)),
        ensures
            exists|light: Option<String>, dark: Option<String>, hidden: Option<String>|
                {
                    &&& #[trigger] call_ensures(read, (settings_keys::THEME_LIGHT,), light)
                    &&& #[trigger] call_ensures(read, (settings_keys::THEME_DARK,), dark)
                    &&& #[trigger] call_ensures(read, (settings_keys::SIDEBAR_HIDDEN,), hidden)
                    &&& r@ == recalled(
                        http::optional_text(light),
                        http::optional_text(dark),
                        http::optional_text(hidden),
                    )
                },
    {
        let light = read(settings_keys::THEME_LIGHT);
        let dark = read(settings_keys::THEME_DARK);
        let hidden = read(settings_keys::SIDEBAR_HIDDEN);
        Preferences::from_stored(light, dark, hidden)
    }

    /// The keys and values to persist. No I/O: the caller owns the writing, and
    /// this owns the only list of what there is to write.
    pub fn settings(&self) -> (r: Vec<(&'static str, String)>)
        ensures
            working_state::pairs_of(r@) == written(self@),
    {
        let mut out: Vec<(&'static str, String)> = Vec::new();
        let hidden = if self.sidebar_hidden {
            "true".to_owned()
        } else {
            "false".to_owned()
        };
        out.push((settings_keys::SIDEBAR_HIDDEN, hidden));
        // An unchosen theme is left absent rather than written as empty, so that
        // "never picked one" and "picked one called nothing" stay
        // distinguishable.
        if let Some(light) = &self.light {
            out.push((settings_keys::THEME_LIGHT, light.clone()));
        }
        if let Some(dark) = &self.dark {
            out.push((settings_keys::THEME_DARK, dark.clone()));
        }
        assert(working_state::pairs_of(out@) =~= written(self@));
        out
    }

    /// The theme chosen for a mode.
    pub fn theme(&self, mode: ThemeMode) -> (r: Option<&str>)
        ensures
            match r {
                Some(name) => self@.chosen(mode) == Some(name@),
                None => self@.chosen(mode) is None,
            },
    {
        let chosen = match mode {
            ThemeMode::Light => &self.light,
            ThemeMode::Dark => &self.dark,
        };
        match chosen {
            Some(name) => Some(name.as_str()),
            None => None,
        }
    }

    /// Chooses a theme for a mode.
    pub fn choose_theme(&mut self, mode: ThemeMode, name: &str)
        ensures
            final(self)@ == old(self)@.choosing(mode, name@),
    {
        match mode {
            ThemeMode::Light => {
                self.light = Some(name.to_owned());
            },
            ThemeMode::Dark => {
                self.dark = Some(name.to_owned());
            },
        }
    }

    /// Whether the sidebar is hidden.
    pub fn sidebar_hidden(&self) -> (r: bool)
        ensures
            r == self@.sidebar_hidden,
    {
        self.sidebar_hidden
    }

    /// Shows or hides the sidebar. Returns the new state, so the caller does not
    /// have to ask again.
    pub fn toggle_sidebar(&mut self) -> (r: bool)
        ensures
            r == !old(self)@.sidebar_hidden,
            final(self)@ == (PreferencesModel { sidebar_hidden: r, ..old(self)@ }),
    {
        self.sidebar_hidden = !self.sidebar_hidden;
        self.sidebar_hidden
    }
}

/// Law: what is written is what comes back.
pub proof fn what_is_written_is_what_comes_back(preferences: PreferencesModel)
    ensures
        recalled(
            working_state::stored_under(written(preferences), settings_keys::THEME_LIGHT@),
            working_state::stored_under(written(preferences), settings_keys::THEME_DARK@),
            working_state::stored_under(written(preferences), settings_keys::SIDEBAR_HIDDEN@),
        ) == preferences,
{
    let pairs = written(preferences);
    reveal_strlit("theme.light");
    reveal_strlit("theme.dark");
    reveal_strlit("sidebar.hidden");
    reveal_strlit("true");
    reveal_strlit("false");
    assert("true"@.len() != "false"@.len());
    assert(settings_keys::THEME_LIGHT@.len() == 11);
    assert(settings_keys::THEME_DARK@.len() == 10);
    assert(settings_keys::SIDEBAR_HIDDEN@.len() == 14);
    reveal_with_fuel(working_state::stored_under, 4);
    if pairs.len() > 1 {
        assert(pairs.skip(1)[0] == pairs[1]);
    }
    if pairs.len() > 2 {
        assert(pairs.skip(1).skip(1)[0] == pairs[2]);
    }
}

/// Law: the two modes are chosen independently.
pub proof fn the_two_modes_are_independent(preferences: PreferencesModel, name: Seq<char>)
    ensures
        preferences.choosing(ThemeMode::Light, name).chosen(ThemeMode::Light) == Some(name),
        preferences.choosing(ThemeMode::Light, name).chosen(ThemeMode::Dark) == preferences.chosen(
            ThemeMode::Dark,
        ),
        preferences.choosing(ThemeMode::Dark, name).chosen(ThemeMode::Dark) == Some(name),
        preferences.choosing(ThemeMode::Dark, name).chosen(ThemeMode::Light) == preferences.chosen(
            ThemeMode::Light,
        ),
{
}

} // verus!
