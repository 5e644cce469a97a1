//! A smaller settings model: only the default database path.
use vstd::prelude::*;

verus! {

pub struct Settings {
    /// Always set; `.` when nothing else is configured.
    pub default_db_path: String,
}

/// Builds the default settings and lets them go.
pub fn create_settings() {
    let _settings = Settings { default_db_path: String::from_str(".") };
}

} // verus!
