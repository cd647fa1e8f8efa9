//! What the window decides, free of the window itself.

pub mod laws;
pub mod preferences;
pub mod tag_colour;
pub mod theme_catalogue;
pub mod tracker;
pub mod views;
pub mod working_state;
