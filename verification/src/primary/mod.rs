//! The part of a node that leads the cluster.
pub mod api;
pub mod connections;
pub mod deploy;
pub mod dns;
pub mod health;
pub mod logs;
pub mod metrics;
pub mod nodes;
pub mod proxy;
pub mod report;
pub mod scheduler;
pub mod start;
pub mod subscribers;
pub mod tasks;
pub mod watchdog;
