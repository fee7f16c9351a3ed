//! Post-hoc auditing of coding-agent session logs: the record schema, the
//! extractors (skills, subagents, tools, errors, interventions), the session
//! and project listings, and the human-readable renderings.

pub mod extract;
pub mod format;
pub mod json;
pub mod list;
pub mod locator;
pub mod parser;
pub mod report;
pub mod text;
pub mod timestamps;
