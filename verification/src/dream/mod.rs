//! autoDream: consolidating memory while the user is away.
pub mod analyzer;
pub mod autopilot;
pub mod planner;
pub mod synthesizer;
pub mod types;
pub mod sandbox;
pub mod pruner;
pub mod mirror;
pub mod engine;
pub mod report;
pub mod collector;
