//! Talking to language models: choosing a provider, reading streamed replies.
pub mod engine;
pub mod streaming;
pub mod providers;
pub mod router;
