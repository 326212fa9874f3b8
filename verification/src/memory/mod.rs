//! The three-layer memory: index pointers, topic files and archived turns.
pub mod global;
pub mod index;
pub mod index_laws;
pub mod loader;
pub mod search;
pub mod system;
pub mod topics;
pub mod transcripts;
pub mod writer;
