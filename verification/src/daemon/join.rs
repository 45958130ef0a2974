//! What a node that joins and the cluster tell each other.
use crate::config::NodeResources;
use crate::net::{IpAddr, SocketAddr};
use vstd::prelude::*;

verus! {

/// The port of the mesh.
pub const WIREGUARD_PORT: u16 = 51820;

/// The port of the API.
pub const API_PORT: u16 = 4400;

/// The port on which the nodes agree on the replicated state.
pub const RAFT_PORT: u16 = 4401;

/// The port on which a node takes commands.
pub const RPC_PORT: u16 = 4402;

/// Response from GET /v1/join-info.
#[derive(Debug, PartialEq, Eq)]
pub struct JoinInfoResponse {
    pub subnet: String,
    pub prefix_len: u8,
    pub api_port: u16,
    pub tunnel_ip: IpAddr,
    pub next_raft_id: u64,
    pub peers: Vec<JoinPeerInfo>,
}

/// Peer info returned in join-info.
#[derive(Debug, PartialEq, Eq)]
pub struct JoinPeerInfo {
    pub raft_id: u64,
    pub endpoint: String,
    pub tunnel_ip: IpAddr,
    pub public_key: String,
}

/// Request body for POST /v1/join.
#[derive(Debug, PartialEq, Eq)]
pub struct JoinRequest {
    pub node_id: String,
    pub raft_id: u64,
    pub advertise_addr: String,
    pub tunnel_ip: IpAddr,
    pub public_key: String,
    pub resources: NodeResources,
    pub instance_id: Option<String>,
    pub rpc_address: Option<SocketAddr>,
}

} // verus!
