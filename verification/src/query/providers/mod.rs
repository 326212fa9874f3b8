//! The model providers.
pub mod openai;
pub mod compat;
