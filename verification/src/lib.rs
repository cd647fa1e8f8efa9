//! A single-user issue tracker: the Issues, the rules they obey, and the
//! surfaces they are seen through.

pub mod api;
pub mod cli;
pub mod client;
pub mod domain;
pub mod json;
pub mod mcp;
pub mod operations;
pub mod percent;
pub mod projection;
pub mod protocol;
pub mod store;
pub mod text;
pub mod time;
pub mod ui;
