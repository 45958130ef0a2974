//! Starting a node that has been set up before.
use crate::config::{Alloc, AllocId, NodeId};
use crate::daemon::cloud::{build_volume_driver, driver_of};
use crate::daemon::identity::{acme_asked, NodeIdentity};
use crate::daemon::join::{RAFT_PORT, RPC_PORT};
use crate::daemon::start::{
    api_url, api_url_text, fails, is_secondary, labelled, lines_are, peer_urls, primary_config,
    primary_of, secondary_config, tells_where, MeshIdentity, MeshPeer, StartAction, StartEvent,
};
use crate::fsm::FsmState;
use crate::net::{IpAddr, SocketAddr};
use crate::secondary::reconcile::among;
use crate::seqs::{lemma_select_take, lemma_selected, select};
use vstd::prelude::*;
use vstd::string::*;

verus! {

/// How far the work has come.
#[derive(Clone, Copy, Debug, PartialEq, Eq, Structural)]
pub enum RestartPhase {
    LoadingIdentity,
    MakingMesh,
    /// The peers are put into the mesh, one after another.
    AddingPeer { index: usize },
    LoadingKey,
    OpeningRaft,
    StartingSubsystems,
    ReadingState,
    StartingSecondary,
    StartingRpcServer,
    StartingPrimary,
    StartingListener,
    WritingPid,
    Running,
    ShuttingDown,
    RemovingPid,
    Ended,
}

impl RestartPhase {
    /// Whether the action that led to the phase can fail.
    pub open spec fn can_fail(self) -> bool {
        match self {
            RestartPhase::AddingPeer { .. } => false,
            RestartPhase::ReadingState => false,
            RestartPhase::StartingRpcServer => false,
            RestartPhase::StartingListener => false,
            RestartPhase::WritingPid => false,
            RestartPhase::Running => false,
            RestartPhase::ShuttingDown => false,
            RestartPhase::RemovingPid => false,
            RestartPhase::Ended => false,
            _ => true,
        }
    }

    /// Whether an event answers the action that led to the phase.
    pub open spec fn expects(self, event: StartEvent) -> bool {
        match event {
            StartEvent::Failed(_) => self.can_fail(),
            StartEvent::IdentityLoaded(_) => self is LoadingIdentity,
            StartEvent::MeshReady(_) => self is MakingMesh,
            StartEvent::StateRead(_) => self is ReadingState,
            StartEvent::Done => match self {
                RestartPhase::LoadingIdentity => false,
                RestartPhase::MakingMesh => false,
                RestartPhase::ReadingState => false,
                RestartPhase::Ended => false,
                _ => true,
            },
            _ => false,
        }
    }
}

/// Starting a node that has been set up before. Who it is and the mesh are
/// there once they are known.
#[derive(Debug, PartialEq, Eq)]
pub struct Restarting {
    pub identity: NodeIdentity,
    pub mesh: MeshIdentity,
    pub phase: RestartPhase,
}

/// Allocations on a node that have not come to an end.
pub open spec fn due_on(node: Seq<char>) -> spec_fn(Alloc) -> bool {
    |a: Alloc| a.node@ == node && !a.status.terminal()
}

/// The names of allocations.
pub open spec fn alloc_ids(allocs: Seq<Alloc>) -> Seq<AllocId> {
    Seq::new(allocs.len(), |i: int| allocs[i].id)
}

/// The allocations that are expected to run on a node.
pub fn expected_allocs(fsm: &FsmState, node: &NodeId) -> (res: Vec<AllocId>)
    ensures
        res@ == alloc_ids(select(fsm.allocs@, due_on(node@))),
{
    let mut out: Vec<AllocId> = Vec::new();
    let ghost all = fsm.allocs@;
    let ghost p = due_on(node@);
    let mut i: usize = 0;
    assert(alloc_ids(select(all.take(0), p)) =~= Seq::empty());
    while i < fsm.allocs.len()
        invariant
            i <= all.len(),
            all == fsm.allocs@,
            p == due_on(node@),
            out@ == alloc_ids(select(all.take(i as int), p)),
        decreases all.len() - i,
    {
        proof {
            lemma_select_take(all, p, i as int);
        }
        let alloc = &fsm.allocs[i];
        if alloc.node.same(node) && !alloc.status.is_terminal() {
            let ghost sel = select(all.take(i as int), p);
            out.push(alloc.id.clone());
            assert(out@ =~= alloc_ids(sel.push(all[i as int])));
        }
        i = i + 1;
    }
    assert(all.take(i as int) =~= all);
    out
}

/// Whether the peers are put into the mesh from `i` on; then the key of the
/// cluster is read.
pub open spec fn adds_from(m: Restarting, i: int, phase: RestartPhase, action: StartAction) -> bool {
    if i < m.identity.peers@.len() {
        let peer = m.identity.peers@[i];
        phase == (RestartPhase::AddingPeer { index: i as usize }) && action == StartAction::AddPeer(
            MeshPeer {
                public_key: peer.public_key,
                endpoint: peer.advertise_addr,
                tunnel_ip: peer.tunnel_ip,
            },
        )
    } else {
        phase is LoadingKey && action is LoadClusterKey
    }
}

/// What is printed when the node is up.
pub open spec fn restarted_lines(m: Restarting) -> Seq<Seq<char>> {
    seq![
        "Mill daemon started (restored from node.json)."@,
        "  Node ID:    "@ + m.identity.node_id@,
        "  API:        "@ + api_url(m.identity.advertise_addr@),
    ]
}

/// What one step does: the work and the action that follow an event.
pub open spec fn restart_step(
    m: Restarting,
    event: StartEvent,
    next: Restarting,
    action: StartAction,
) -> bool {
    let phase = next.phase;
    match (m.phase, event) {
        (RestartPhase::LoadingIdentity, StartEvent::IdentityLoaded(identity)) => {
            &&& next == (Restarting { identity, phase: RestartPhase::MakingMesh, ..m })
            &&& action == (StartAction::InitMesh { subnet: identity.wireguard_subnet })
        },
        (RestartPhase::MakingMesh, StartEvent::MeshReady(mesh)) => {
            &&& next == (Restarting { mesh, phase, ..m })
            &&& adds_from(m, 0, phase, action)
        },
        (before, event) => {
            &&& next == (Restarting { phase, ..m })
            &&& match event {
                StartEvent::Failed(error) => phase is Ended && fails(action, error),
                StartEvent::StateRead(fsm) => {
                    &&& phase is StartingSecondary
                    &&& action matches StartAction::StartSecondary(config)
                    &&& is_secondary(
                        config,
                        m.identity.node_id,
                        m.mesh.tunnel_ip,
                        alloc_ids(select(fsm.allocs@, due_on(m.identity.node_id@))),
                    )
                },
                _ => match before {
                    RestartPhase::AddingPeer { index } => adds_from(m, index + 1, phase, action),
                    RestartPhase::LoadingKey => {
                        &&& phase is OpeningRaft
                        &&& action matches StartAction::OpenRaft { raft_id, peers }
                        &&& raft_id == m.identity.raft_id
                        &&& tells_where(peers@, m.identity.peers@, RAFT_PORT as nat)
                    },
                    RestartPhase::OpeningRaft => {
                        &&& phase is StartingSubsystems
                        &&& action matches StartAction::StartSubsystems { acme }
                        &&& acme_asked(m.identity, acme)
                    },
                    RestartPhase::StartingSubsystems => phase is ReadingState
                        && action is ReadState,
                    RestartPhase::StartingSecondary => phase is StartingRpcServer && action == (
                    StartAction::StartRpcServer {
                        address: SocketAddr { ip: m.mesh.tunnel_ip, port: RPC_PORT },
                        token: m.identity.cluster_token,
                    }),
                    RestartPhase::StartingRpcServer => {
                        &&& phase is StartingPrimary
                        &&& action == StartAction::StartPrimary(
                            primary_of(
                                m.identity,
                                false,
                                driver_of(
                                    m.identity.provider,
                                    m.identity.provider_token,
                                    m.identity.region,
                                ),
                            ),
                        )
                    },
                    RestartPhase::StartingPrimary => phase is StartingListener && action == (
                    StartAction::StartRaftListener {
                        address: SocketAddr { ip: m.mesh.tunnel_ip, port: RAFT_PORT },
                    }),
                    RestartPhase::StartingListener => phase is WritingPid && action is WritePid,
                    RestartPhase::WritingPid => {
                        &&& phase is Running
                        &&& action matches StartAction::Run { lines }
                        &&& lines_are(lines@, restarted_lines(m))
                    },
                    RestartPhase::Running => phase is ShuttingDown && action is ShutDown,
                    RestartPhase::ShuttingDown => phase is RemovingPid && action is RemovePid,
                    RestartPhase::RemovingPid => phase is Ended && (
                    action matches StartAction::Finish(result) && result is Ok),
                    _ => false,
                },
            }
        },
    }
}

impl Restarting {
    /// Whether the peer in turn is one of the node's.
    pub open spec fn wf(self) -> bool {
        self.phase matches RestartPhase::AddingPeer { index } ==> index < self.identity.peers@.len()
    }

    /// Begins starting the node, and gives the first action.
    pub fn begin() -> (res: (Restarting, StartAction))
        ensures
            res.0.wf(),
            res.0.phase is LoadingIdentity,
            res.1 is LoadIdentity,
    {
        let identity = NodeIdentity {
            node_id: String::new(),
            raft_id: 0,
            cluster_token: String::new(),
            rpc_port: 0,
            advertise_addr: String::new(),
            provider: None,
            provider_token: None,
            region: None,
            wireguard_subnet: String::new(),
            peers: Vec::new(),
            acme_email: None,
            acme_staging: None,
        };
        let restarting = Restarting {
            identity,
            mesh: MeshIdentity { tunnel_ip: IpAddr::V4(0), public_key: String::new() },
            phase: RestartPhase::LoadingIdentity,
        };
        (restarting, StartAction::LoadIdentity)
    }

    fn add_from(&mut self, i: usize) -> (res: StartAction)
        ensures
            *final(self) == (Restarting { phase: final(self).phase, ..*old(self) }),
            final(self).wf(),
            adds_from(*old(self), i as int, final(self).phase, res),
    {
        if i < self.identity.peers.len() {
            let peer = &self.identity.peers[i];
            let action = StartAction::AddPeer(
                MeshPeer {
                    public_key: peer.public_key.clone(),
                    endpoint: peer.advertise_addr.clone(),
                    tunnel_ip: peer.tunnel_ip,
                },
            );
            self.phase = RestartPhase::AddingPeer { index: i };
            action
        } else {
            self.phase = RestartPhase::LoadingKey;
            StartAction::LoadClusterKey
        }
    }

    fn announcement(&self) -> (res: Vec<String>)
        ensures
            lines_are(res@, restarted_lines(*self)),
    {
        let mut lines: Vec<String> = Vec::new();
        lines.push("Mill daemon started (restored from node.json).".to_owned());
        lines.push(labelled("  Node ID:    ", &self.identity.node_id));
        lines.push(labelled("  API:        ", &api_url_text(&self.identity.advertise_addr)));
        lines
    }

    /// Takes what came of the last action and gives the next one.
    pub fn step(&mut self, event: StartEvent) -> (res: StartAction)
        requires
            old(self).wf(),
            old(self).phase.expects(event),
        ensures
            final(self).wf(),
            restart_step(*old(self), event, *final(self), res),
    {
        match (self.phase, event) {
            (_, StartEvent::Failed(error)) => {
                self.phase = RestartPhase::Ended;
                StartAction::Finish(Err(error))
            },
            (_, StartEvent::IdentityLoaded(identity)) => {
                self.identity = identity;
                self.phase = RestartPhase::MakingMesh;
                StartAction::InitMesh { subnet: self.identity.wireguard_subnet.clone() }
            },
            (_, StartEvent::MeshReady(mesh)) => {
                self.mesh = mesh;
                self.add_from(0)
            },
            (_, StartEvent::StateRead(fsm)) => {
                self.phase = RestartPhase::StartingSecondary;
                let node = NodeId(self.identity.node_id.clone());
                let expected = expected_allocs(&fsm, &node);
                StartAction::StartSecondary(
                    secondary_config(&self.identity.node_id, self.mesh.tunnel_ip, expected),
                )
            },
            (RestartPhase::AddingPeer { index }, _) => {
                assert(index < self.identity.peers.len());
                self.add_from(index + 1)
            },
            (RestartPhase::LoadingKey, _) => {
                self.phase = RestartPhase::OpeningRaft;
                StartAction::OpenRaft {
                    raft_id: self.identity.raft_id,
                    peers: peer_urls(&self.identity.peers, RAFT_PORT as u32),
                }
            },
            (RestartPhase::OpeningRaft, _) => {
                self.phase = RestartPhase::StartingSubsystems;
                StartAction::StartSubsystems { acme: self.identity.acme_config() }
            },
            (RestartPhase::StartingSubsystems, _) => {
                self.phase = RestartPhase::ReadingState;
                StartAction::ReadState
            },
            (RestartPhase::StartingSecondary, _) => {
                self.phase = RestartPhase::StartingRpcServer;
                StartAction::StartRpcServer {
                    address: SocketAddr { ip: self.mesh.tunnel_ip, port: RPC_PORT },
                    token: self.identity.cluster_token.clone(),
                }
            },
            (RestartPhase::StartingRpcServer, _) => {
                self.phase = RestartPhase::StartingPrimary;
                let driver = build_volume_driver(
                    &self.identity.provider,
                    &self.identity.provider_token,
                    &self.identity.region,
                );
                StartAction::StartPrimary(primary_config(&self.identity, false, driver))
            },
            (RestartPhase::StartingPrimary, _) => {
                self.phase = RestartPhase::StartingListener;
                StartAction::StartRaftListener {
                    address: SocketAddr { ip: self.mesh.tunnel_ip, port: RAFT_PORT },
                }
            },
            (RestartPhase::StartingListener, _) => {
                self.phase = RestartPhase::WritingPid;
                StartAction::WritePid
            },
            (RestartPhase::WritingPid, _) => {
                let lines = self.announcement();
                self.phase = RestartPhase::Running;
                StartAction::Run { lines }
            },
            (RestartPhase::Running, _) => {
                self.phase = RestartPhase::ShuttingDown;
                StartAction::ShutDown
            },
            (RestartPhase::ShuttingDown, _) => {
                self.phase = RestartPhase::RemovingPid;
                StartAction::RemovePid
            },
            _ => {
                self.phase = RestartPhase::Ended;
                StartAction::Finish(Ok(()))
            },
        }
    }
}

/// A node that starts again expects exactly its own allocations that have not
/// come to an end; the others are not expected.
pub proof fn unfinished_allocations_are_expected(fsm: FsmState, node: Seq<char>, id: Seq<char>)
    ensures
        among(alloc_ids(select(fsm.allocs@, due_on(node))), id) <==> exists|i: int|
            0 <= i < fsm.allocs@.len() && (#[trigger] fsm.allocs@[i]).id@ == id
                && fsm.allocs@[i].node@ == node && !fsm.allocs@[i].status.terminal(),
{
    let all = fsm.allocs@;
    let p = due_on(node);
    let chosen = select(all, p);
    lemma_selected(all, p);
    if among(alloc_ids(chosen), id) {
        let j = choose|j: int|
            0 <= j < alloc_ids(chosen).len() && (#[trigger] alloc_ids(chosen)[j])@ == id;
        assert(p(chosen[j]) && all.contains(chosen[j]));
        let i = all.index_of(chosen[j]);
        assert(all[i] == chosen[j]);
    }
    if exists|i: int|
        0 <= i < all.len() && (#[trigger] all[i]).id@ == id && all[i].node@ == node
            && !all[i].status.terminal() {
        let i = choose|i: int|
            0 <= i < all.len() && (#[trigger] all[i]).id@ == id && all[i].node@ == node
                && !all[i].status.terminal();
        assert(p(all[i]));
        assert(chosen.contains(all[i]));
        let j = chosen.index_of(all[i]);
        assert(alloc_ids(chosen)[j]@ == id);
    }
}

/// Starting again goes step by step: each step follows the one before where that one was
/// done, with the mesh, the number and the token that the node was set up with, and an
/// error ends the work with that error.
pub proof fn nodes_start_again_step_by_step(
    m: Restarting,
    event: StartEvent,
    next: Restarting,
    action: StartAction,
)
    requires
        m.wf(),
        m.phase.expects(event),
        restart_step(m, event, next, action),
    ensures
        event matches StartEvent::Failed(error) ==> action == StartAction::Finish(Err(error))
            && next.phase is Ended,
        event matches StartEvent::IdentityLoaded(identity) ==> {
            &&& next.identity == identity
            &&& action is InitMesh
            &&& action->InitMesh_subnet == identity.wireguard_subnet
        },
        event matches StartEvent::MeshReady(mesh) ==> {
            &&& next.mesh == mesh
            &&& m.identity.peers@.len() == 0 ==> action is LoadClusterKey
            &&& m.identity.peers@.len() > 0 ==> action is AddPeer
                && action->AddPeer_0.public_key == m.identity.peers@[0].public_key
        },
        m.phase is AddingPeer && event is Done ==> {
            let i = m.phase->AddingPeer_index + 1;
            &&& i < m.identity.peers@.len() ==> action is AddPeer && action->AddPeer_0.public_key
                == m.identity.peers@[i].public_key && action->AddPeer_0.tunnel_ip
                == m.identity.peers@[i].tunnel_ip && action->AddPeer_0.endpoint
                == m.identity.peers@[i].advertise_addr
            &&& i == m.identity.peers@.len() ==> action is LoadClusterKey
        },
        m.phase is LoadingKey && event is Done ==> {
            &&& action is OpenRaft
            &&& action->OpenRaft_raft_id == m.identity.raft_id
            &&& action->OpenRaft_peers@.len() == m.identity.peers@.len()
        },
        m.phase is OpeningRaft && event is Done ==> action is StartSubsystems,
        m.phase is StartingSubsystems && event is Done ==> action is ReadState,
        event is StateRead ==> {
            &&& action is StartSecondary
            &&& action->StartSecondary_0.node_id@ == m.identity.node_id@
            &&& action->StartSecondary_0.mesh_ip == Some(m.mesh.tunnel_ip)
        },
        m.phase is StartingSecondary && event is Done ==> {
            &&& action is StartRpcServer
            &&& action->StartRpcServer_address.ip == m.mesh.tunnel_ip
            &&& action->StartRpcServer_address.port == RPC_PORT
            &&& action->StartRpcServer_token == m.identity.cluster_token
        },
        m.phase is StartingRpcServer && event is Done ==> {
            &&& action is StartPrimary
            &&& action->StartPrimary_0.local_node_id is None
            &&& action->StartPrimary_0.auth_token == m.identity.cluster_token
        },
        m.phase is StartingPrimary && event is Done ==> {
            &&& action is StartRaftListener
            &&& action->StartRaftListener_address.ip == m.mesh.tunnel_ip
        },
        m.phase is StartingListener && event is Done ==> action is WritePid,
        m.phase is WritingPid && event is Done ==> action is Run,
        m.phase is Running && event is Done ==> action is ShutDown,
        m.phase is ShuttingDown && event is Done ==> action is RemovePid,
        m.phase is RemovingPid && event is Done ==> action is Finish && action->Finish_0 is Ok,
{
}

/// What a node that starts again expects to run are its own allocations that have not
/// come to an end, and no others.
pub proof fn restarted_nodes_expect_what_is_theirs(
    m: Restarting,
    fsm: FsmState,
    next: Restarting,
    action: StartAction,
    id: Seq<char>,
)
    requires
        m.phase is ReadingState,
        restart_step(m, StartEvent::StateRead(fsm), next, action),
    ensures
        action is StartSecondary,
        among(action->StartSecondary_0.expected_allocs@, id) <==> exists|i: int|
            {
                &&& 0 <= i < fsm.allocs@.len()
                &&& (#[trigger] fsm.allocs@[i]).id@ == id
                &&& fsm.allocs@[i].node@ == m.identity.node_id@
                &&& !(fsm.allocs@[i].status is Stopped)
                &&& !(fsm.allocs@[i].status is Failed)
            },
{
    unfinished_allocations_are_expected(fsm, m.identity.node_id@, id);
    if among(action->StartSecondary_0.expected_allocs@, id) {
        let i = choose|i: int|
            0 <= i < fsm.allocs@.len() && (#[trigger] fsm.allocs@[i]).id@ == id
                && fsm.allocs@[i].node@ == m.identity.node_id@
                && !fsm.allocs@[i].status.terminal();
        assert(fsm.allocs@[i].id@ == id);
    }
}

} // verus!
