//! Where scrape targets come from.
pub mod target;
