//! Small helpers.
pub mod fuzzy;
