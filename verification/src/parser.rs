//! The on-disk JSONL record schema.

pub mod record;
