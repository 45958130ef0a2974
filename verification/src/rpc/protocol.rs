//! The messages between the primary and the other nodes.
use crate::config::{
    AllocId, AllocStatus, ContainerSpec, ContainerStats, LogLine, NodeId, NodeResources,
};
use crate::net::SocketAddr;
use vstd::prelude::*;

verus! {

/// The first message on a connection.
#[derive(Debug, PartialEq, Eq)]
pub struct AuthRequest {
    pub token: String,
}

/// The answer to the first message.
#[derive(Debug, PartialEq, Eq)]
pub struct AuthResponse {
    pub ok: bool,
}

/// Credentials for authenticating to a container registry.
#[derive(Debug, PartialEq, Eq)]
pub struct RegistryCredentials {
    pub username: String,
    pub password: String,
}

/// Commands sent from the primary to a secondary node.
///
/// `Run` carries environment values that may be secret: do not log it.
#[derive(Debug, PartialEq, Eq)]
pub enum NodeCommand {
    /// Start a container. The environment is fully resolved.
    Run { alloc_id: AllocId, spec: ContainerSpec, auth: Option<RegistryCredentials> },
    /// Stop a running container.
    Stop { alloc_id: AllocId },
    /// Pull an image into the local store.
    Pull { image: String, auth: Option<RegistryCredentials> },
    /// Request the last N log lines for an allocation.
    LogTail { alloc_id: AllocId, lines: usize },
    /// Subscribe to live log lines for an allocation.
    LogFollow { alloc_id: AllocId },
    /// Unsubscribe from live log lines for an allocation.
    LogUnfollow { alloc_id: AllocId },
}

/// Reports sent from a secondary node back to the primary.
#[derive(Debug, PartialEq, Eq)]
pub enum NodeReport {
    /// Periodic heartbeat with all allocation statuses and resource usage.
    Heartbeat(Heartbeat),
    /// Container started successfully.
    RunStarted { alloc_id: AllocId, host_port: Option<u16>, address: Option<SocketAddr> },
    /// Container exited (normal or after stop).
    Stopped { alloc_id: AllocId, exit_code: i32 },
    /// Container failed to start.
    RunFailed { alloc_id: AllocId, reason: String },
    /// Image pull completed.
    PullComplete { image: String },
    /// Image pull failed.
    PullFailed { image: String, reason: String },
    /// Log lines in response to a LogTail command.
    LogLines { alloc_id: AllocId, lines: Vec<LogLine> },
    /// Inline status transition for an allocation.
    StatusUpdate { alloc_id: AllocId, status: AllocStatus },
}

/// Heartbeat payload sent periodically from secondary to primary.
#[derive(Debug, PartialEq, Eq)]
pub struct Heartbeat {
    pub node_id: NodeId,
    pub alloc_statuses: Vec<(AllocId, AllocStatus)>,
    pub resources: NodeResources,
    pub stats: Vec<ContainerStats>,
    pub volumes: Vec<VolumeInfo>,
}

/// Information about a volume on this node.
#[derive(Debug, PartialEq, Eq)]
pub struct VolumeInfo {
    pub name: String,
    pub size_bytes: u64,
    pub alloc_id: Option<AllocId>,
}

} // verus!
