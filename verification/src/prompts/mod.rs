//! System prompts: role fragments and the agent's base prompt.
pub mod roles;
pub mod system;
