//! What the ways of bringing a node up have in common.
use crate::config::{AllocId, NodeId, NodeResources};
use crate::daemon::cloud::Answer;
use crate::daemon::identity::{AcmeConfig, NodeIdentity, PeerEntry};
use crate::daemon::join::{JoinInfoResponse, JoinRequest, API_PORT, RPC_PORT};
use crate::error::NodeError;
use crate::fsm::{Command, FsmState};
use crate::net::{ip_text, IpAddr, SocketAddr};
use crate::storage::digitalocean::DigitalOceanVolumes;
use crate::text::{decimal, decimal_text};
use vstd::prelude::*;
use vstd::string::*;

verus! {

/// The name of the mesh's network interface.
pub const WIREGUARD_INTERFACE: &'static str = "mill0";

/// The addresses of the mesh.
pub const WIREGUARD_SUBNET: &'static str = "10.99.0.0/16";

/// Where the container runtime listens.
pub const CONTAINERD_SOCKET: &'static str = "/run/containerd/containerd.sock";

/// Where the node is advertised when nothing else is said.
pub const ANY_ADDRESS: &'static str = "0.0.0.0";

/// How many bytes the key of a cluster has.
pub const KEY_LEN: usize = 32;

/// What a node is within the mesh.
#[derive(Debug, PartialEq, Eq)]
pub struct MeshIdentity {
    pub tunnel_ip: IpAddr,
    pub public_key: String,
}

/// A peer of the mesh. Its endpoint is used where it is a socket address.
#[derive(Debug, PartialEq, Eq)]
pub struct MeshPeer {
    pub public_key: String,
    pub endpoint: String,
    pub tunnel_ip: IpAddr,
}

/// How the part of a node that runs containers is set up.
#[derive(Debug, PartialEq, Eq)]
pub struct SecondaryConfig {
    pub containerd_socket: String,
    pub expected_allocs: Vec<AllocId>,
    pub node_id: NodeId,
    pub mesh_ip: Option<IpAddr>,
}

/// How the part of a node that leads is set up.
#[derive(Debug, PartialEq, Eq)]
pub struct PrimaryConfig {
    pub api_addr: SocketAddr,
    pub auth_token: String,
    pub rpc_token: String,
    pub local_node_id: Option<NodeId>,
    pub volume_driver: Option<DigitalOceanVolumes>,
}

/// What the driver is asked to do.
#[allow(inconsistent_fields)]
#[derive(Debug, PartialEq, Eq)]
pub enum StartAction {
    /// Read who the node is.
    LoadIdentity,
    /// Write who the node is.
    SaveIdentity,
    /// Ask the cluster what a node that joins has to know.
    GetJoinInfo,
    /// Set the mesh up.
    InitMesh { subnet: String },
    /// Set the mesh up with an address and peers.
    JoinMesh { tunnel_ip: IpAddr, prefix_len: u8, peers: Vec<MeshPeer> },
    /// Put a peer into the mesh; whether that works does not matter.
    AddPeer(MeshPeer),
    /// Make a key for the cluster, and save it.
    NewClusterKey,
    /// Ask the cluster for its key.
    GetClusterKey,
    /// Save the key of the cluster.
    SaveClusterKey(Vec<u8>),
    /// Read the key of the cluster.
    LoadClusterKey,
    /// Ask the cloud who and where the machine is.
    AskCloud,
    /// Open the replicated state, with what is known of where the others are.
    OpenRaft { raft_id: u64, peers: Vec<(u64, String)> },
    /// Make a cluster of this node alone.
    InitializeRaft,
    /// Start serving names and routes.
    StartSubsystems { acme: Option<AcmeConfig> },
    /// Change the replicated state.
    Propose(Command),
    /// Ask the cluster to let the node in.
    SendJoin(JoinRequest),
    /// Read the replicated state.
    ReadState,
    /// Run containers in the background.
    StartSecondary(SecondaryConfig),
    /// Take commands in the background.
    StartRpcServer { address: SocketAddr, token: String },
    /// Lead, or stand ready to.
    StartPrimary(PrimaryConfig),
    /// Let the other nodes reach the replicated state in the background.
    StartRaftListener { address: SocketAddr },
    /// Write the number of the process down.
    WritePid,
    /// Print lines, and wait until the process is told to end.
    Run { lines: Vec<String> },
    /// Stop everything.
    ShutDown,
    /// Forget the number of the process.
    RemovePid,
    /// Nothing: the work has ended.
    Finish(Result<(), NodeError>),
}

/// What came of an action.
#[derive(Debug, PartialEq, Eq)]
pub enum StartEvent {
    /// It was done.
    Done,
    /// It could not be done.
    Failed(NodeError),
    IdentityLoaded(NodeIdentity),
    JoinInfo(JoinInfoResponse),
    MeshReady(MeshIdentity),
    ClusterKey(Vec<u8>),
    /// What the cloud answered to both questions.
    CloudAnswered { id: Option<Answer>, region: Option<Answer> },
    StateRead(FsmState),
}

/// Whether a work has ended with an error.
pub open spec fn fails(action: StartAction, error: NodeError) -> bool {
    action == StartAction::Finish(Err(error))
}

/// Any address of the machine, at the port of the API.
pub open spec fn any_api_addr() -> SocketAddr {
    SocketAddr { ip: IpAddr::V4(0), port: API_PORT }
}

/// Whether lines tell of others in turn.
pub open spec fn lines_are(lines: Seq<String>, texts: Seq<Seq<char>>) -> bool {
    &&& lines.len() == texts.len()
    &&& forall|i: int| 0 <= i < lines.len() ==> (#[trigger] lines[i])@ == texts[i]
}

/// The address of the API as people write it.
pub open spec fn api_url(advertise_addr: Seq<char>) -> Seq<char> {
    "http://"@ + advertise_addr + ":"@ + decimal(API_PORT as nat)
}

/// Whether the nodes that agree on the replicated state are told of by their
/// numbers and where they listen.
pub open spec fn tells_where(
    urls: Seq<(u64, String)>,
    peers: Seq<PeerEntry>,
    port: nat,
) -> bool {
    &&& urls.len() == peers.len()
    &&& forall|i: int|
        0 <= i < urls.len() ==> (#[trigger] urls[i]).0 == peers[i].raft_id && urls[i].1@
            == "http://"@ + ip_text(peers[i].tunnel_ip) + ":"@ + decimal(port)
}

/// The settings of the part that runs containers.
pub open spec fn is_secondary(
    config: SecondaryConfig,
    node_id: String,
    mesh_ip: IpAddr,
    expected: Seq<AllocId>,
) -> bool {
    &&& config.containerd_socket@ == CONTAINERD_SOCKET@
    &&& config.expected_allocs@ == expected
    &&& config.node_id == NodeId(node_id)
    &&& config.mesh_ip == Some(mesh_ip)
}

/// The settings of the part that leads.
pub open spec fn primary_of(
    identity: NodeIdentity,
    local: bool,
    driver: Option<DigitalOceanVolumes>,
) -> PrimaryConfig {
    PrimaryConfig {
        api_addr: any_api_addr(),
        auth_token: identity.cluster_token,
        rpc_token: identity.cluster_token,
        local_node_id: if local {
            Some(NodeId(identity.node_id))
        } else {
            None
        },
        volume_driver: driver,
    }
}

/// How a node enters itself into the replicated state: with its address in
/// the mesh.
pub open spec fn registration_of(
    identity: NodeIdentity,
    mesh: MeshIdentity,
    instance_id: Option<String>,
    resources: NodeResources,
) -> Command {
    Command::NodeRegister {
        id: identity.raft_id,
        mill_id: NodeId(identity.node_id),
        address: SocketAddr { ip: mesh.tunnel_ip, port: API_PORT },
        resources,
        wireguard_pubkey: Some(mesh.public_key),
        instance_id,
        rpc_address: Some(SocketAddr { ip: mesh.tunnel_ip, port: RPC_PORT }),
        advertise_addr: Some(identity.advertise_addr),
    }
}

/// How a node enters itself into the replicated state.
pub fn registration(
    identity: &NodeIdentity,
    mesh: &MeshIdentity,
    instance_id: Option<String>,
    resources: NodeResources,
) -> (res: Command)
    ensures
        res == registration_of(*identity, *mesh, instance_id, resources),
{
    Command::NodeRegister {
        id: identity.raft_id,
        mill_id: NodeId(identity.node_id.clone()),
        address: SocketAddr { ip: mesh.tunnel_ip, port: API_PORT },
        resources,
        wireguard_pubkey: Some(mesh.public_key.clone()),
        instance_id,
        rpc_address: Some(SocketAddr { ip: mesh.tunnel_ip, port: RPC_PORT }),
        advertise_addr: Some(identity.advertise_addr.clone()),
    }
}

/// How a node asks a cluster to let it in.
pub open spec fn request_of(
    identity: NodeIdentity,
    mesh: MeshIdentity,
    tunnel_ip: IpAddr,
    instance_id: Option<String>,
    resources: NodeResources,
) -> JoinRequest {
    JoinRequest {
        node_id: identity.node_id,
        raft_id: identity.raft_id,
        advertise_addr: identity.advertise_addr,
        tunnel_ip,
        public_key: mesh.public_key,
        resources,
        instance_id,
        rpc_address: Some(SocketAddr { ip: tunnel_ip, port: RPC_PORT }),
    }
}

/// How a node asks a cluster to let it in.
pub fn join_request(
    identity: &NodeIdentity,
    mesh: &MeshIdentity,
    tunnel_ip: IpAddr,
    instance_id: Option<String>,
    resources: NodeResources,
) -> (res: JoinRequest)
    ensures
        res == request_of(*identity, *mesh, tunnel_ip, instance_id, resources),
{
    JoinRequest {
        node_id: identity.node_id.clone(),
        raft_id: identity.raft_id,
        advertise_addr: identity.advertise_addr.clone(),
        tunnel_ip,
        public_key: mesh.public_key.clone(),
        resources,
        instance_id,
        rpc_address: Some(SocketAddr { ip: tunnel_ip, port: RPC_PORT }),
    }
}

pub(crate) fn secondary_config(
    node_id: &String,
    mesh_ip: IpAddr,
    expected_allocs: Vec<AllocId>,
) -> (res: SecondaryConfig)
    ensures
        is_secondary(res, *node_id, mesh_ip, expected_allocs@),
{
    SecondaryConfig {
        containerd_socket: CONTAINERD_SOCKET.to_owned(),
        expected_allocs,
        node_id: NodeId(node_id.clone()),
        mesh_ip: Some(mesh_ip),
    }
}

pub(crate) fn primary_config(
    identity: &NodeIdentity,
    local: bool,
    volume_driver: Option<DigitalOceanVolumes>,
) -> (res: PrimaryConfig)
    ensures
        res == primary_of(*identity, local, volume_driver),
{
    let local_node_id = if local {
        Some(NodeId(identity.node_id.clone()))
    } else {
        None
    };
    PrimaryConfig {
        api_addr: SocketAddr { ip: IpAddr::V4(0), port: API_PORT },
        auth_token: identity.cluster_token.clone(),
        rpc_token: identity.cluster_token.clone(),
        local_node_id,
        volume_driver,
    }
}

pub(crate) fn peer_urls(peers: &Vec<PeerEntry>, port: u32) -> (res: Vec<(u64, String)>)
    ensures
        tells_where(res@, peers@, port as nat),
{
    let mut out: Vec<(u64, String)> = Vec::new();
    let mut i: usize = 0;
    while i < peers.len()
        invariant
            i <= peers@.len(),
            out@.len() == i,
            forall|j: int|
                0 <= j < i ==> (#[trigger] out@[j]).0 == peers@[j].raft_id && out@[j].1@
                    == "http://"@ + ip_text(peers@[j].tunnel_ip) + ":"@ + decimal(port as nat),
        decreases peers@.len() - i,
    {
        let peer = &peers[i];
        let mut url = "http://".to_owned();
        let at = peer.tunnel_ip.to_text();
        url.append(at.as_str());
        url.append(":");
        url.append(decimal_text(port as u128).as_str());
        out.push((peer.raft_id, url));
        i = i + 1;
    }
    out
}

/// Two texts one after another.
pub(crate) fn labelled(label: &str, text: &String) -> (res: String)
    ensures
        res@ == label@ + text@,
{
    let mut out = label.to_owned();
    out.append(text.as_str());
    out
}

pub(crate) fn api_url_text(advertise_addr: &String) -> (res: String)
    ensures
        res@ == api_url(advertise_addr@),
{
    let mut out = "http://".to_owned();
    out.append(advertise_addr.as_str());
    out.append(":");
    out.append(decimal_text(API_PORT as u128).as_str());
    out
}

/// Where the node is advertised: anywhere, when nothing else is said.
pub open spec fn is_advertised(text: Seq<char>, advertise: Option<String>) -> bool {
    text == match advertise {
        Some(given) => given@,
        None => ANY_ADDRESS@,
    }
}

pub(crate) fn advertised(advertise: Option<String>) -> (res: String)
    ensures
        is_advertised(res@, advertise),
{
    match advertise {
        Some(given) => given,
        None => ANY_ADDRESS.to_owned(),
    }
}

/// Refuses to start a node that has never been set up.
pub fn boot(node_json_exists: bool) -> (res: Result<(), NodeError>)
    ensures
        res is Ok <==> node_json_exists,
        res matches Err(e) ==> (e matches NodeError::Internal(m) && m@
            == "No node.json found. Run `mill init` or `mill join` first."@),
{
    if node_json_exists {
        Ok(())
    } else {
        Err(
            NodeError::Internal(
                "No node.json found. Run `mill init` or `mill join` first.".to_owned(),
            ),
        )
    }
}

/// A node takes requests on any address of the machine and commands in the mesh; it is
/// asked with the token of its cluster, and runs containers under its own name.
pub proof fn nodes_are_set_up_by_their_identity(
    identity: NodeIdentity,
    local: bool,
    driver: Option<DigitalOceanVolumes>,
    config: SecondaryConfig,
    mesh_ip: IpAddr,
    expected: Seq<AllocId>,
)
    requires
        is_secondary(config, identity.node_id, mesh_ip, expected),
    ensures
        ({
            let primary = primary_of(identity, local, driver);
            &&& primary.api_addr.ip == IpAddr::V4(0)
            &&& primary.api_addr.port == 4400
            &&& primary.auth_token == identity.cluster_token
            &&& primary.rpc_token == identity.cluster_token
            &&& primary.local_node_id is Some <==> local
            &&& primary.local_node_id matches Some(id) ==> id@ == identity.node_id@
            &&& primary.volume_driver == driver
        }),
        config.expected_allocs@ == expected,
        config.node_id@ == identity.node_id@,
        config.mesh_ip == Some(mesh_ip),
        config.containerd_socket@ == "/run/containerd/containerd.sock"@,
{
}

/// A node enters itself, or asks to be let in, as what it is: under its number and its
/// name, with its key, and with its own address in the mesh for requests and commands.
pub proof fn nodes_are_entered_as_what_they_are(
    identity: NodeIdentity,
    mesh: MeshIdentity,
    tunnel_ip: IpAddr,
    instance_id: Option<String>,
    resources: NodeResources,
)
    ensures
        ({
            let entry = registration_of(identity, mesh, instance_id, resources);
            &&& entry is NodeRegister
            &&& entry->NodeRegister_id == identity.raft_id
            &&& entry->NodeRegister_mill_id@ == identity.node_id@
            &&& entry->NodeRegister_address.ip == mesh.tunnel_ip
            &&& entry->NodeRegister_address.port == 4400
            &&& entry->NodeRegister_rpc_address is Some
            &&& entry->NodeRegister_rpc_address->0.ip == mesh.tunnel_ip
            &&& entry->NodeRegister_rpc_address->0.port == RPC_PORT
            &&& entry->NodeRegister_resources == resources
            &&& entry->NodeRegister_wireguard_pubkey == Some(mesh.public_key)
            &&& entry->NodeRegister_instance_id == instance_id
            &&& entry->NodeRegister_advertise_addr == Some(identity.advertise_addr)
        }),
        ({
            let request = request_of(identity, mesh, tunnel_ip, instance_id, resources);
            &&& request.node_id == identity.node_id
            &&& request.raft_id == identity.raft_id
            &&& request.advertise_addr == identity.advertise_addr
            &&& request.tunnel_ip == tunnel_ip
            &&& request.public_key == mesh.public_key
            &&& request.resources == resources
            &&& request.instance_id == instance_id
            &&& request.rpc_address is Some
            &&& request.rpc_address->0.ip == tunnel_ip
            &&& request.rpc_address->0.port == RPC_PORT
        }),
{
}

/// The nodes that agree on the replicated state are told of by their numbers and by
/// their addresses in the mesh; the API is where the node is advertised, and that is
/// where it was said to be, or anywhere.
pub proof fn nodes_are_told_of_by_where_they_listen(
    urls: Seq<(u64, String)>,
    peers: Seq<PeerEntry>,
    port: nat,
    i: int,
    at: Seq<char>,
    advertise: Option<String>,
)
    requires
        tells_where(urls, peers, port),
        is_advertised(at, advertise),
    ensures
        urls.len() == peers.len(),
        0 <= i < peers.len() ==> urls[i].0 == peers[i].raft_id && urls[i].1@ == "http://"@
            + ip_text(peers[i].tunnel_ip) + ":"@ + decimal(port),
        api_url(at) == "http://"@ + at + ":"@ + decimal(4400),
        advertise is Some ==> at == advertise->0@,
        advertise is None ==> at == "0.0.0.0"@,
{
}

} // verus!
