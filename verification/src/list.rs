//! The listings: the sessions of one project (`tracks`) and the projects
//! under a log root (`crates`).

pub mod metadata;
pub mod projects;

pub mod sessions;
