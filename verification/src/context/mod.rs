//! Keeping the conversation within the model's context window.
pub mod token_counter;
pub mod cache_tracker;
pub mod messages;
pub mod micro_compact;
pub mod auto_compact;
pub mod full_compact;
pub mod compaction;
pub mod manager;
