//! How the primary and the other nodes talk to each other.
pub mod codec;
pub mod protocol;
pub mod reconnect;
pub mod relay;
pub mod router;
pub mod server;
