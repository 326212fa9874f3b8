//! Verified core of DreamSwarm: memory index, context compaction, daemon
//! decisions and autoDream planning.
pub mod text;
pub mod order;
pub mod hashing;
pub mod context;
pub mod daemon;
pub mod memory;
pub mod prompts;
pub mod api;
pub mod query;
pub mod dream;
