//! What is kept between launches, and how it is spelled.

use vstd::prelude::*;

pub mod rows;
pub mod settings_keys;

verus! {

/// Points the store at a scratch database during development so experiments
/// never touch real data.
pub const DB_PATH_ENV: &'static str = "ISSUE_TRACKER_DB";

/// The database, in the platform's data directory.
pub const DB_FILE: &'static str = "issues.db";

/// Where the API publishes its port and token, beside the database so the two
/// live and die together. Its presence means the app is running.
pub const API_FILE: &'static str = "api.json";

} // verus!
