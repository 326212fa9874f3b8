//! Planning done for the HTTP API: which workers a swarm mission gets.
pub mod swarm_plan;
pub mod server;
