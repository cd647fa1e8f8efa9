//! Pure domain types: Issues, what they carry, and how they are narrowed,
//! counted and ordered.

pub mod issue;
pub mod kinds;
pub mod laws;
pub mod narrowing;
pub mod tag;
pub mod view;

pub use self::issue::{display_title, sort_for_display, Issue, SizeRollup};
pub use self::kinds::{IssueId, ParseError, Priority, Size, Status};
pub use self::narrowing::{Narrowing, ParentFilter};
pub use self::tag::{normalise_tags, Tag, TagSet, MAX_TAG_LEN};
pub use self::view::View;
