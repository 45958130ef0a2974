//! Bringing the cluster to a new configuration.
pub mod diff;
pub mod resolve;
pub mod rollout;
pub mod run;
pub mod start;
pub mod validate;
pub mod volumes;
pub mod wait;
