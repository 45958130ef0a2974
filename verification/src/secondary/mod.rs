//! The part of a node that runs containers.
pub mod agent;
pub mod heartbeat;
pub mod logs;
pub mod metrics;
pub mod reconcile;
pub mod runner;
pub mod state;
