//! Joining a cluster.
use crate::config::AllocId;
use crate::daemon::cloud::{
    build_volume_driver, detect_cloud_metadata, driver_of, is_known, known_provider, text_view, told,
    Answer,
};
use crate::daemon::identity::{acme_asked, NodeIdentity, PeerEntry};
use crate::daemon::join::{JoinInfoResponse, JoinPeerInfo, API_PORT, RAFT_PORT};
use crate::daemon::start::{
    advertised, api_url, api_url_text, fails, is_advertised, is_secondary, join_request, labelled,
    lines_are, peer_urls, primary_config, primary_of, request_of, secondary_config, tells_where,
    MeshIdentity, MeshPeer, StartAction, StartEvent, KEY_LEN,
};
use crate::daemon::support::{detect_resources, generate_id, is_hex, untaken};
use crate::error::NodeError;
use crate::net::{ip_text, IpAddr, SocketAddr};
use crate::text::{copy_option, decimal, decimal_text};
use vstd::prelude::*;
use vstd::string::*;

verus! {

/// What the one who lets a node join asks for.
#[derive(Debug, PartialEq, Eq)]
pub struct JoinOptions {
    pub address: String,
    pub token: String,
    pub advertise: Option<String>,
    pub provider: Option<String>,
    pub provider_token: Option<String>,
    pub acme_email: Option<String>,
    pub acme_staging: bool,
}

/// How far the work has come.
#[derive(Clone, Copy, Debug, PartialEq, Eq, Structural)]
pub enum JoiningPhase {
    GettingInfo,
    JoiningMesh,
    GettingKey,
    SavingKey,
    AskingCloud,
    SavingIdentity,
    OpeningRaft,
    StartingListener,
    SendingJoin,
    StartingSubsystems,
    StartingSecondary,
    StartingPrimary,
    WritingPid,
    Running,
    ShuttingDown,
    RemovingPid,
    Ended,
}

impl JoiningPhase {
    /// Whether the action that led to the phase can fail.
    pub open spec fn can_fail(self) -> bool {
        match self {
            JoiningPhase::AskingCloud => false,
            JoiningPhase::StartingListener => false,
            JoiningPhase::WritingPid => false,
            JoiningPhase::Running => false,
            JoiningPhase::ShuttingDown => false,
            JoiningPhase::RemovingPid => false,
            JoiningPhase::Ended => false,
            _ => true,
        }
    }

    /// Whether an event answers the action that led to the phase. Where there
    /// are peers, the port after that of the API has to be one.
    pub open spec fn expects(self, event: StartEvent) -> bool {
        match event {
            StartEvent::Failed(_) => self.can_fail(),
            StartEvent::JoinInfo(info) => self is GettingInfo && (info.peers@.len() == 0
                || info.api_port < u16::MAX),
            StartEvent::MeshReady(_) => self is JoiningMesh,
            StartEvent::ClusterKey(_) => self is GettingKey,
            StartEvent::CloudAnswered { .. } => self is AskingCloud,
            StartEvent::Done => match self {
                JoiningPhase::GettingInfo => false,
                JoiningPhase::JoiningMesh => false,
                JoiningPhase::GettingKey => false,
                JoiningPhase::AskingCloud => false,
                JoiningPhase::Ended => false,
                _ => true,
            },
            _ => false,
        }
    }
}

/// Joining a cluster. What the cluster tells is there once it has told it.
#[derive(Debug, PartialEq, Eq)]
pub struct Joining {
    pub address: String,
    pub identity: NodeIdentity,
    pub mesh: MeshIdentity,
    pub tunnel_ip: IpAddr,
    pub raft_port: u32,
    pub instance_id: Option<String>,
    pub phase: JoiningPhase,
}

/// Whether the peers of a cluster are written down as it told of them.
pub open spec fn entries_of(entries: Seq<PeerEntry>, peers: Seq<JoinPeerInfo>) -> bool {
    &&& entries.len() == peers.len()
    &&& forall|i: int|
        0 <= i < peers.len() ==> (#[trigger] entries[i]) == (PeerEntry {
            raft_id: peers[i].raft_id,
            advertise_addr: peers[i].endpoint,
            tunnel_ip: peers[i].tunnel_ip,
            public_key: peers[i].public_key,
        })
}

/// Whether the peers of a cluster are put into the mesh as it told of them.
pub open spec fn mesh_peers_of(mesh_peers: Seq<MeshPeer>, peers: Seq<JoinPeerInfo>) -> bool {
    &&& mesh_peers.len() == peers.len()
    &&& forall|i: int|
        0 <= i < peers.len() ==> (#[trigger] mesh_peers[i]) == (MeshPeer {
            public_key: peers[i].public_key,
            endpoint: peers[i].endpoint,
            tunnel_ip: peers[i].tunnel_ip,
        })
}

/// Whether the node asks the cluster to let it in.
pub open spec fn asks_to_join(m: Joining, phase: JoiningPhase, action: StartAction) -> bool {
    &&& phase is SendingJoin
    &&& exists|cpus: nat, memory: u64|
        cpus >= 1 && action == StartAction::SendJoin(
            request_of(
                m.identity,
                m.mesh,
                m.tunnel_ip,
                m.instance_id,
                #[trigger] untaken(cpus, memory),
            ),
        )
}

/// What is printed when the node has joined.
pub open spec fn joined_lines(m: Joining) -> Seq<Seq<char>> {
    seq![
        "Joined cluster via "@ + m.address@ + "."@,
        "  Node ID:    "@ + m.identity.node_id@,
        "  API:        "@ + api_url(m.identity.advertise_addr@),
        "  Tunnel IP:  "@ + ip_text(m.tunnel_ip),
    ]
}

/// What a key of the wrong length is refused with.
pub open spec fn key_refusal(len: nat) -> Seq<char> {
    "cluster key: expected 32 bytes, got "@ + decimal(len)
}

/// What one step does: the work and the action that follow an event.
pub open spec fn joining_step(
    m: Joining,
    event: StartEvent,
    next: Joining,
    action: StartAction,
) -> bool {
    let phase = next.phase;
    match (m.phase, event) {
        (JoiningPhase::GettingInfo, StartEvent::JoinInfo(info)) => {
            let identity = next.identity;
            &&& next == (Joining {
                identity,
                tunnel_ip: info.tunnel_ip,
                raft_port: (info.api_port + 1) as u32,
                phase: JoiningPhase::JoiningMesh,
                ..m
            })
            &&& identity == (NodeIdentity {
                raft_id: info.next_raft_id,
                wireguard_subnet: info.subnet,
                peers: identity.peers,
                ..m.identity
            })
            &&& entries_of(identity.peers@, info.peers@)
            &&& action matches StartAction::JoinMesh { tunnel_ip, prefix_len, peers }
            &&& tunnel_ip == info.tunnel_ip
            &&& prefix_len == info.prefix_len
            &&& mesh_peers_of(peers@, info.peers@)
        },
        (JoiningPhase::JoiningMesh, StartEvent::MeshReady(mesh)) => {
            &&& next == (Joining { mesh, phase: JoiningPhase::GettingKey, ..m })
            &&& action is GetClusterKey
        },
        (JoiningPhase::AskingCloud, StartEvent::CloudAnswered { id, region }) => {
            let identity = next.identity;
            let instance_id = next.instance_id;
            &&& next == (Joining {
                identity,
                instance_id,
                phase: JoiningPhase::SavingIdentity,
                ..m
            })
            &&& text_view(instance_id) == told(id)
            &&& if told(region) is Some {
                &&& identity == (NodeIdentity { region: identity.region, ..m.identity })
                &&& text_view(identity.region) == told(region)
            } else {
                identity == m.identity
            }
            &&& action is SaveIdentity
        },
        (before, event) => {
            &&& next == (Joining { phase, ..m })
            &&& match event {
                StartEvent::Failed(error) => phase is Ended && fails(action, error),
                StartEvent::ClusterKey(key) => if key@.len() == KEY_LEN {
                    phase is SavingKey && action == StartAction::SaveClusterKey(key)
                } else {
                    &&& phase is Ended
                    &&& action matches StartAction::Finish(Err(NodeError::Internal(e)))
                    &&& e@ == key_refusal(key@.len())
                },
                _ => match before {
                    JoiningPhase::SavingKey => if is_known(m.identity.provider) {
                        phase is AskingCloud && action is AskCloud
                    } else {
                        phase is SavingIdentity && action is SaveIdentity
                    },
                    JoiningPhase::SavingIdentity => {
                        &&& phase is OpeningRaft
                        &&& action matches StartAction::OpenRaft { raft_id, peers }
                        &&& raft_id == m.identity.raft_id
                        &&& tells_where(peers@, m.identity.peers@, m.raft_port as nat)
                    },
                    JoiningPhase::OpeningRaft => phase is StartingListener && action == (
                    StartAction::StartRaftListener {
                        address: SocketAddr { ip: m.tunnel_ip, port: RAFT_PORT },
                    }),
                    JoiningPhase::StartingListener => asks_to_join(m, phase, action),
                    JoiningPhase::SendingJoin => {
                        &&& phase is StartingSubsystems
                        &&& action matches StartAction::StartSubsystems { acme }
                        &&& acme_asked(m.identity, acme)
                    },
                    JoiningPhase::StartingSubsystems => {
                        &&& phase is StartingSecondary
                        &&& action matches StartAction::StartSecondary(config)
                        &&& is_secondary(
                            config,
                            m.identity.node_id,
                            m.tunnel_ip,
                            Seq::<AllocId>::empty(),
                        )
                    },
                    JoiningPhase::StartingSecondary => {
                        &&& phase is StartingPrimary
                        &&& action == StartAction::StartPrimary(
                            primary_of(
                                m.identity,
                                true,
                                driver_of(
                                    m.identity.provider,
                                    m.identity.provider_token,
                                    m.identity.region,
                                ),
                            ),
                        )
                    },
                    JoiningPhase::StartingPrimary => phase is WritingPid && action is WritePid,
                    JoiningPhase::WritingPid => {
                        &&& phase is Running
                        &&& action matches StartAction::Run { lines }
                        &&& lines_are(lines@, joined_lines(m))
                    },
                    JoiningPhase::Running => phase is ShuttingDown && action is ShutDown,
                    JoiningPhase::ShuttingDown => phase is RemovingPid && action is RemovePid,
                    JoiningPhase::RemovingPid => phase is Ended && (
                    action matches StartAction::Finish(result) && result is Ok),
                    _ => false,
                },
            }
        },
    }
}

fn peer_entries(peers: &Vec<JoinPeerInfo>) -> (res: Vec<PeerEntry>)
    ensures
        entries_of(res@, peers@),
{
    let mut out: Vec<PeerEntry> = Vec::new();
    let mut i: usize = 0;
    while i < peers.len()
        invariant
            i <= peers@.len(),
            entries_of(out@, peers@.take(i as int)),
        decreases peers@.len() - i,
    {
        let peer = &peers[i];
        out.push(
            PeerEntry {
                raft_id: peer.raft_id,
                advertise_addr: peer.endpoint.clone(),
                tunnel_ip: peer.tunnel_ip,
                public_key: peer.public_key.clone(),
            },
        );
        i = i + 1;
    }
    assert(peers@.take(i as int) =~= peers@);
    out
}

fn mesh_peers(peers: &Vec<JoinPeerInfo>) -> (res: Vec<MeshPeer>)
    ensures
        mesh_peers_of(res@, peers@),
{
    let mut out: Vec<MeshPeer> = Vec::new();
    let mut i: usize = 0;
    while i < peers.len()
        invariant
            i <= peers@.len(),
            mesh_peers_of(out@, peers@.take(i as int)),
        decreases peers@.len() - i,
    {
        let peer = &peers[i];
        out.push(
            MeshPeer {
                public_key: peer.public_key.clone(),
                endpoint: peer.endpoint.clone(),
                tunnel_ip: peer.tunnel_ip,
            },
        );
        i = i + 1;
    }
    assert(peers@.take(i as int) =~= peers@);
    out
}

impl Joining {
    /// Whether the cloud is asked only where it is known.
    pub open spec fn wf(self) -> bool {
        self.phase is AskingCloud ==> is_known(self.identity.provider)
    }

    /// Begins joining a cluster, and gives the first action.
    pub fn begin(options: JoinOptions) -> (res: (Joining, StartAction))
        ensures
            res.0.wf(),
            res.0.address == options.address,
            res.0.instance_id is None,
            res.0.phase is GettingInfo,
            res.1 is GetJoinInfo,
            ({
                let identity = res.0.identity;
                &&& is_hex(identity.node_id@, 8)
                &&& identity.cluster_token == options.token
                &&& identity.rpc_port == API_PORT
                &&& is_advertised(identity.advertise_addr@, options.advertise)
                &&& identity.provider == options.provider
                &&& identity.provider_token == options.provider_token
                &&& identity.region is None
                &&& identity.acme_email == options.acme_email
                &&& identity.acme_staging == if options.acme_staging {
                    Some(true)
                } else {
                    None
                }
            }),
    {
        let acme_staging: Option<bool> = if options.acme_staging {
            Some(true)
        } else {
            None
        };
        let identity = NodeIdentity {
            node_id: generate_id(),
            raft_id: 0,
            cluster_token: options.token,
            rpc_port: API_PORT,
            advertise_addr: advertised(options.advertise),
            provider: options.provider,
            provider_token: options.provider_token,
            region: None,
            wireguard_subnet: String::new(),
            peers: Vec::new(),
            acme_email: options.acme_email,
            acme_staging,
        };
        let joining = Joining {
            address: options.address,
            identity,
            mesh: MeshIdentity { tunnel_ip: IpAddr::V4(0), public_key: String::new() },
            tunnel_ip: IpAddr::V4(0),
            raft_port: RAFT_PORT as u32,
            instance_id: None,
            phase: JoiningPhase::GettingInfo,
        };
        (joining, StartAction::GetJoinInfo)
    }

    fn informed(&mut self, info: JoinInfoResponse) -> (res: StartAction)
        requires
            old(self).phase is GettingInfo,
        ensures
            joining_step(*old(self), StartEvent::JoinInfo(info), *final(self), res),
    {
        let peers = mesh_peers(&info.peers);
        self.identity.raft_id = info.next_raft_id;
        self.identity.peers = peer_entries(&info.peers);
        self.identity.wireguard_subnet = info.subnet;
        self.tunnel_ip = info.tunnel_ip;
        self.raft_port = info.api_port as u32 + 1;
        self.phase = JoiningPhase::JoiningMesh;
        StartAction::JoinMesh { tunnel_ip: info.tunnel_ip, prefix_len: info.prefix_len, peers }
    }

    fn cloud_answered(&mut self, id: Option<Answer>, region: Option<Answer>) -> (res: StartAction)
        requires
            old(self).phase is AskingCloud,
            is_known(old(self).identity.provider),
        ensures
            joining_step(
                *old(self),
                StartEvent::CloudAnswered { id, region },
                *final(self),
                res,
            ),
    {
        let cloud = detect_cloud_metadata(&self.identity.provider, &id, &region);
        self.instance_id = cloud.instance_id;
        if cloud.region.is_some() {
            self.identity.region = cloud.region;
        }
        self.phase = JoiningPhase::SavingIdentity;
        StartAction::SaveIdentity
    }

    fn received(&mut self, key: Vec<u8>) -> (res: StartAction)
        requires
            old(self).phase is GettingKey,
        ensures
            joining_step(*old(self), StartEvent::ClusterKey(key), *final(self), res),
    {
        if key.len() == KEY_LEN {
            self.phase = JoiningPhase::SavingKey;
            StartAction::SaveClusterKey(key)
        } else {
            self.phase = JoiningPhase::Ended;
            let mut e = "cluster key: expected 32 bytes, got ".to_owned();
            e.append(decimal_text(key.len() as u128).as_str());
            StartAction::Finish(Err(NodeError::Internal(e)))
        }
    }

    fn announcement(&self) -> (res: Vec<String>)
        ensures
            lines_are(res@, joined_lines(*self)),
    {
        let mut greeting = labelled("Joined cluster via ", &self.address);
        greeting.append(".");
        let mut lines: Vec<String> = Vec::new();
        lines.push(greeting);
        lines.push(labelled("  Node ID:    ", &self.identity.node_id));
        lines.push(labelled("  API:        ", &api_url_text(&self.identity.advertise_addr)));
        lines.push(labelled("  Tunnel IP:  ", &self.tunnel_ip.to_text()));
        lines
    }

    /// Takes what came of the last action and gives the next one.
    pub fn step(&mut self, event: StartEvent) -> (res: StartAction)
        requires
            old(self).wf(),
            old(self).phase.expects(event),
        ensures
            final(self).wf(),
            joining_step(*old(self), event, *final(self), res),
    {
        match (self.phase, event) {
            (_, StartEvent::Failed(error)) => {
                self.phase = JoiningPhase::Ended;
                StartAction::Finish(Err(error))
            },
            (_, StartEvent::JoinInfo(info)) => self.informed(info),
            (_, StartEvent::MeshReady(mesh)) => {
                self.mesh = mesh;
                self.phase = JoiningPhase::GettingKey;
                StartAction::GetClusterKey
            },
            (_, StartEvent::ClusterKey(key)) => self.received(key),
            (_, StartEvent::CloudAnswered { id, region }) => self.cloud_answered(id, region),
            (JoiningPhase::SavingKey, _) => {
                if known_provider(&self.identity.provider) {
                    self.phase = JoiningPhase::AskingCloud;
                    StartAction::AskCloud
                } else {
                    self.phase = JoiningPhase::SavingIdentity;
                    StartAction::SaveIdentity
                }
            },
            (JoiningPhase::SavingIdentity, _) => {
                self.phase = JoiningPhase::OpeningRaft;
                StartAction::OpenRaft {
                    raft_id: self.identity.raft_id,
                    peers: peer_urls(&self.identity.peers, self.raft_port),
                }
            },
            (JoiningPhase::OpeningRaft, _) => {
                self.phase = JoiningPhase::StartingListener;
                StartAction::StartRaftListener {
                    address: SocketAddr { ip: self.tunnel_ip, port: RAFT_PORT },
                }
            },
            (JoiningPhase::StartingListener, _) => {
                self.phase = JoiningPhase::SendingJoin;
                StartAction::SendJoin(
                    join_request(
                        &self.identity,
                        &self.mesh,
                        self.tunnel_ip,
                        copy_option(&self.instance_id),
                        detect_resources(),
                    ),
                )
            },
            (JoiningPhase::SendingJoin, _) => {
                self.phase = JoiningPhase::StartingSubsystems;
                StartAction::StartSubsystems { acme: self.identity.acme_config() }
            },
            (JoiningPhase::StartingSubsystems, _) => {
                self.phase = JoiningPhase::StartingSecondary;
                let none: Vec<AllocId> = Vec::new();
                assert(none@ =~= Seq::<AllocId>::empty());
                StartAction::StartSecondary(
                    secondary_config(&self.identity.node_id, self.tunnel_ip, none),
                )
            },
            (JoiningPhase::StartingSecondary, _) => {
                self.phase = JoiningPhase::StartingPrimary;
                let driver = build_volume_driver(
                    &self.identity.provider,
                    &self.identity.provider_token,
                    &self.identity.region,
                );
                StartAction::StartPrimary(primary_config(&self.identity, true, driver))
            },
            (JoiningPhase::StartingPrimary, _) => {
                self.phase = JoiningPhase::WritingPid;
                StartAction::WritePid
            },
            (JoiningPhase::WritingPid, _) => {
                let lines = self.announcement();
                self.phase = JoiningPhase::Running;
                StartAction::Run { lines }
            },
            (JoiningPhase::Running, _) => {
                self.phase = JoiningPhase::ShuttingDown;
                StartAction::ShutDown
            },
            (JoiningPhase::ShuttingDown, _) => {
                self.phase = JoiningPhase::RemovingPid;
                StartAction::RemovePid
            },
            _ => {
                self.phase = JoiningPhase::Ended;
                StartAction::Finish(Ok(()))
            },
        }
    }
}

/// The cluster can reach a node before it is asked to let it in: the request
/// is sent once the node listens.
pub proof fn nodes_listen_before_they_ask(
    m: Joining,
    event: StartEvent,
    next: Joining,
    action: StartAction,
)
    requires
        m.phase.expects(event),
        joining_step(m, event, next, action),
    ensures
        action is SendJoin ==> m.phase is StartingListener,
        next.phase is StartingListener ==> action is StartRaftListener,
{
}

/// A node keeps the number that the cluster gave it: it opens the replicated
/// state, and asks to be let in, under that number.
pub proof fn nodes_keep_the_number_they_are_given(
    m: Joining,
    event: StartEvent,
    next: Joining,
    action: StartAction,
)
    requires
        m.phase.expects(event),
        joining_step(m, event, next, action),
    ensures
        match event {
            StartEvent::JoinInfo(info) => next.identity.raft_id == info.next_raft_id,
            _ => next.identity.raft_id == m.identity.raft_id,
        },
        action matches StartAction::OpenRaft { raft_id, .. } ==> raft_id == m.identity.raft_id,
        action matches StartAction::SendJoin(request) ==> request.raft_id == m.identity.raft_id,
{
}

/// A node that joins takes over what the cluster tells: its number, its address in the
/// mesh, the network, and all peers, both as written down and as put into the mesh.
pub proof fn nodes_take_over_what_the_cluster_tells(
    m: Joining,
    info: JoinInfoResponse,
    next: Joining,
    action: StartAction,
    i: int,
)
    requires
        m.phase is GettingInfo,
        joining_step(m, StartEvent::JoinInfo(info), next, action),
    ensures
        next.identity.raft_id == info.next_raft_id,
        next.identity.wireguard_subnet == info.subnet,
        next.tunnel_ip == info.tunnel_ip,
        next.identity.node_id == m.identity.node_id,
        next.identity.cluster_token == m.identity.cluster_token,
        next.identity.advertise_addr == m.identity.advertise_addr,
        next.identity.peers@.len() == info.peers@.len(),
        action is JoinMesh,
        action->JoinMesh_tunnel_ip == info.tunnel_ip,
        action->JoinMesh_prefix_len == info.prefix_len,
        action->JoinMesh_peers@.len() == info.peers@.len(),
        0 <= i < info.peers@.len() ==> {
            let peer = info.peers@[i];
            &&& next.identity.peers@[i].raft_id == peer.raft_id
            &&& next.identity.peers@[i].advertise_addr == peer.endpoint
            &&& next.identity.peers@[i].tunnel_ip == peer.tunnel_ip
            &&& next.identity.peers@[i].public_key == peer.public_key
            &&& action->JoinMesh_peers@[i].public_key == peer.public_key
            &&& action->JoinMesh_peers@[i].endpoint == peer.endpoint
            &&& action->JoinMesh_peers@[i].tunnel_ip == peer.tunnel_ip
        },
{
}

/// Joining goes step by step: each step follows the one before where that one was done,
/// an error ends the work with that error, a key of the wrong length is refused, and the
/// cloud is asked where it is known and nowhere else.
pub proof fn nodes_join_step_by_step(
    m: Joining,
    event: StartEvent,
    next: Joining,
    action: StartAction,
)
    requires
        m.phase.expects(event),
        joining_step(m, event, next, action),
    ensures
        event matches StartEvent::Failed(error) ==> action == StartAction::Finish(Err(error))
            && next.phase is Ended,
        event matches StartEvent::MeshReady(mesh) ==> next.mesh == mesh && action is GetClusterKey,
        event matches StartEvent::ClusterKey(key) ==> {
            &&& key@.len() == 32 ==> action == StartAction::SaveClusterKey(key)
            &&& key@.len() != 32 ==> action is Finish && action->Finish_0 is Err
        },
        m.phase is SavingKey && event is Done ==> (action is AskCloud
            <==> m.identity.provider is Some && m.identity.provider->0@ == "digitalocean"@),
        m.phase is SavingKey && event is Done && !(action is AskCloud) ==> action is SaveIdentity,
        event matches StartEvent::CloudAnswered { id, region } ==> {
            &&& action is SaveIdentity
            &&& told(region) is Some ==> next.identity.region is Some && next.identity.region->0@
                == told(region)->0
            &&& told(region) is None ==> next.identity.region == m.identity.region
            &&& told(id) is Some ==> next.instance_id is Some && next.instance_id->0@
                == told(id)->0
            &&& told(id) is None ==> next.instance_id is None
        },
        m.phase is SavingIdentity && event is Done ==> {
            &&& action is OpenRaft
            &&& action->OpenRaft_raft_id == m.identity.raft_id
            &&& action->OpenRaft_peers@.len() == m.identity.peers@.len()
        },
        m.phase is OpeningRaft && event is Done ==> {
            &&& action is StartRaftListener
            &&& action->StartRaftListener_address.ip == m.tunnel_ip
        },
        m.phase is StartingListener && event is Done ==> {
            &&& action is SendJoin
            &&& action->SendJoin_0.node_id == m.identity.node_id
            &&& action->SendJoin_0.raft_id == m.identity.raft_id
            &&& action->SendJoin_0.tunnel_ip == m.tunnel_ip
            &&& action->SendJoin_0.public_key == m.mesh.public_key
            &&& action->SendJoin_0.advertise_addr == m.identity.advertise_addr
            &&& action->SendJoin_0.instance_id == m.instance_id
        },
        m.phase is SendingJoin && event is Done ==> action is StartSubsystems,
        m.phase is StartingSubsystems && event is Done ==> {
            &&& action is StartSecondary
            &&& action->StartSecondary_0.expected_allocs@.len() == 0
            &&& action->StartSecondary_0.node_id@ == m.identity.node_id@
            &&& action->StartSecondary_0.mesh_ip == Some(m.tunnel_ip)
        },
        m.phase is StartingSecondary && event is Done ==> {
            &&& action is StartPrimary
            &&& action->StartPrimary_0.local_node_id is Some
            &&& action->StartPrimary_0.local_node_id->0@ == m.identity.node_id@
            &&& action->StartPrimary_0.auth_token == m.identity.cluster_token
        },
        m.phase is StartingPrimary && event is Done ==> action is WritePid,
        m.phase is WritingPid && event is Done ==> action is Run,
        m.phase is Running && event is Done ==> action is ShutDown,
        m.phase is ShuttingDown && event is Done ==> action is RemovePid,
        m.phase is RemovingPid && event is Done ==> action is Finish && action->Finish_0 is Ok,
{
}

} // verus!
