//! Application-wide settings.
use vstd::prelude::*;
use crate::text::str_eq;

verus! {

/// How the instance list is ordered.
#[derive(Debug, Clone, Copy, PartialEq, Eq, Structural)]
pub enum SortMode {
    Name,
    Version,
    CreatedAt,
    LastPlayed,
}

impl Default for SortMode {
    /// Newest-created first is the historical order.
    fn default() -> (r: Self)
        ensures
            r == SortMode::CreatedAt,
    {
        SortMode::CreatedAt
    }
}

/// Settings shared by all instances.
#[derive(Debug, Clone)]
pub struct AppSettings {
    pub java_mode: String,
    pub java_path: String,
    pub sort_mode: SortMode,
    pub sort_ascending: bool,
}

/// The value of `java_mode` that selects a user-given Java executable.
pub const JAVA_MODE_CUSTOM: &'static str = "custom";

impl Default for AppSettings {
    /// Empty Java settings, instances sorted by creation time, newest first.
    fn default() -> (r: Self)
        ensures
            r.java_mode@.len() == 0,
            r.java_path@.len() == 0,
            r.sort_mode == SortMode::CreatedAt,
            !r.sort_ascending,
    {
        AppSettings {
            java_mode: String::new(),
            java_path: String::new(),
            sort_mode: SortMode::CreatedAt,
            sort_ascending: false,
        }
    }
}

impl AppSettings {
    /// Whether the global Java setting names a custom executable.
    pub fn is_custom_java(&self) -> (b: bool)
        ensures
            b == (self.java_mode@ == JAVA_MODE_CUSTOM@),
    {
        str_eq(self.java_mode.as_str(), JAVA_MODE_CUSTOM)
    }
}

} // verus!
