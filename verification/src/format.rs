//! The human-readable renderings of a session report and of the listings.

pub mod human;
pub mod list_human;
