//! Bringing a node up, and taking it down.
pub mod client;
pub mod cloud;
pub mod identity;
pub mod init;
pub mod join;
pub mod joining;
pub mod leave;
pub mod restart;
pub mod start;
pub mod support;
