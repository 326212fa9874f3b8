//! KAIROS, the background daemon: its clock, signals, decisions and logs.
pub mod types;
pub mod brief_mode;
pub mod heartbeat;
pub mod signals;
pub mod initiative;
pub mod daily_log;
pub mod healing;
pub mod persistence;
pub mod schedule;
pub mod kairos;
pub mod process;
pub mod trust;
