//! What the HTTP API answers.
pub mod auth;
pub mod handlers;
pub mod join;
pub mod leader;
pub mod metrics;
pub mod sse;
