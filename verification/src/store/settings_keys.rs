//! The keys that preferences and working state are stored under.

use vstd::prelude::*;

verus! {

/// Theme display names, as shown in the picker.
pub const THEME_LIGHT: &'static str = "theme.light";

pub const THEME_DARK: &'static str = "theme.dark";

/// `"true"` / `"false"`. Absent means visible.
pub const SIDEBAR_HIDDEN: &'static str = "sidebar.hidden";

/// Working state, restored when the window is reopened. Unlike the keys above
/// these are not preferences: they are where you happened to be.
pub const UI_VIEW: &'static str = "ui.view";

pub const UI_SELECTED: &'static str = "ui.selected";

pub const UI_FILTER: &'static str = "ui.filter";

/// The active Tag filter, or absent when none. Distinct from `UI_VIEW`: a Tag
/// filter narrows within a View.
pub const UI_TAG: &'static str = "ui.tag";

} // verus!
