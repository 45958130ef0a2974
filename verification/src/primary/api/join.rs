//! Letting a node into the cluster.
use crate::config::NodeId;
use crate::daemon::join::{
    JoinInfoResponse, JoinPeerInfo, JoinRequest, API_PORT, RAFT_PORT, WIREGUARD_PORT,
};
use crate::fsm::{Command, FsmNode, FsmState, Proposed};
use crate::net::{addr_text, ip_text, IpAddr, SocketAddr};
use crate::primary::api::handlers::{propose, ApiError};
use crate::primary::watchdog::PeerInfo;
use crate::text::{copy_option, decimal, decimal_text};
use vstd::prelude::*;
use vstd::string::*;

verus! {

/// The address of the given place in the range 10.99.0.0/16.
pub open spec fn tunnel_address(i: int) -> IpAddr {
    IpAddr::V4((0x0A63_0000 + i) as u32)
}

/// Whether an address is among those given.
pub open spec fn in_use(used: Seq<IpAddr>, ip: IpAddr) -> bool {
    exists|i: int| 0 <= i < used.len() && #[trigger] used[i] == ip
}

/// Whether an address is the first that is free, from 10.99.0.1 up to
/// 10.99.255.253.
pub open spec fn is_first_free(used: Seq<IpAddr>, i: int) -> bool {
    &&& 1 <= i < 65534
    &&& !in_use(used, tunnel_address(i))
    &&& forall|j: int| 1 <= j < i ==> in_use(used, #[trigger] tunnel_address(j))
}

fn is_used(used: &Vec<IpAddr>, ip: IpAddr) -> (res: bool)
    ensures
        res == in_use(used@, ip),
{
    let mut i: usize = 0;
    while i < used.len()
        invariant
            i <= used@.len(),
            forall|j: int| 0 <= j < i ==> #[trigger] used@[j] != ip,
        decreases used@.len() - i,
    {
        if used[i] == ip {
            return true;
        }
        i = i + 1;
    }
    false
}

/// Allocates the next free tunnel address in the range 10.99.0.0/16.
pub fn allocate_tunnel_ip(used: &Vec<IpAddr>) -> (res: Option<IpAddr>)
    ensures
        match res {
            Some(ip) => exists|i: int| #[trigger] is_first_free(used@, i) && ip == tunnel_address(i),
            None => forall|i: int| 1 <= i < 65534 ==> in_use(used@, #[trigger] tunnel_address(i)),
        },
{
    let mut i: u32 = 1;
    while i < 65534
        invariant
            1 <= i <= 65534,
            forall|j: int| 1 <= j < i ==> in_use(used@, #[trigger] tunnel_address(j)),
        decreases 65534 - i,
    {
        let ip = IpAddr::V4(0x0A63_0000 + i);
        assert(ip == tunnel_address(i as int));
        if !is_used(used, ip) {
            assert(is_first_free(used@, i as int));
            return Some(ip);
        }
        i = i + 1;
    }
    None
}

/// Where a peer is reached from outside: its advertised address and the port
/// of the mesh, else its address inside.
pub open spec fn endpoint_of(node: FsmNode) -> Seq<char> {
    match node.advertise_addr {
        Some(a) => a@ + ":"@ + decimal(WIREGUARD_PORT as nat),
        None => addr_text(node.address),
    }
}

/// Whether peer info tells of a node.
pub open spec fn tells_of_peer(node: FsmNode, peer: JoinPeerInfo) -> bool {
    &&& peer.raft_id == node.raft_id
    &&& peer.endpoint@ == endpoint_of(node)
    &&& peer.tunnel_ip == node.address.ip
    &&& match node.wireguard_pubkey {
        Some(key) => peer.public_key == key,
        None => peer.public_key@ == Seq::<char>::empty(),
    }
}

/// The addresses of nodes.
pub open spec fn node_ips(nodes: Seq<FsmNode>) -> Seq<IpAddr> {
    Seq::new(nodes.len(), |i: int| nodes[i].address.ip)
}

/// The largest number of a node, zero where there is none.
pub open spec fn max_raft_id(nodes: Seq<FsmNode>) -> u64
    decreases nodes.len(),
{
    if nodes.len() == 0 {
        0
    } else if nodes.last().raft_id > max_raft_id(nodes.drop_last()) {
        nodes.last().raft_id
    } else {
        max_raft_id(nodes.drop_last())
    }
}

fn peer_info(node: &FsmNode) -> (res: JoinPeerInfo)
    ensures
        tells_of_peer(*node, res),
{
    let endpoint = match &node.advertise_addr {
        Some(a) => {
            let mut out = a.clone();
            out.append(":");
            out.append(decimal_text(WIREGUARD_PORT as u128).as_str());
            out
        },
        None => node.address.to_text(),
    };
    let public_key = match &node.wireguard_pubkey {
        Some(key) => key.clone(),
        None => String::new(),
    };
    JoinPeerInfo {
        raft_id: node.raft_id,
        endpoint,
        tunnel_ip: node.address.ip,
        public_key,
    }
}

/// What a node that wants to join needs to know: its peers, and a number and
/// an address that no other node has.
pub fn get_join_info(fsm: &FsmState) -> (res: Result<JoinInfoResponse, ApiError>)
    requires
        max_raft_id(fsm.nodes@) < u64::MAX,
    ensures
        match res {
            Ok(info) => {
                &&& info.subnet@ == "10.99.0.0/16"@
                &&& info.prefix_len == 16
                &&& info.api_port == API_PORT
                &&& info.next_raft_id == max_raft_id(fsm.nodes@) + 1
                &&& exists|i: int| #[trigger]
                    is_first_free(node_ips(fsm.nodes@), i) && info.tunnel_ip == tunnel_address(i)
                &&& info.peers@.len() == fsm.nodes@.len()
                &&& forall|i: int|
                    0 <= i < info.peers@.len() ==> tells_of_peer(
                        fsm.nodes@[i],
                        #[trigger] info.peers@[i],
                    )
            },
            Err(e) => {
                &&& e.is(500, "no tunnel IPs available"@)
                &&& forall|i: int|
                    1 <= i < 65534 ==> in_use(
                        node_ips(fsm.nodes@),
                        #[trigger] tunnel_address(i),
                    )
            },
        },
{
    let mut peers: Vec<JoinPeerInfo> = Vec::new();
    let mut used: Vec<IpAddr> = Vec::new();
    let mut max_id: u64 = 0;
    let ghost all = fsm.nodes@;
    let mut i: usize = 0;
    while i < fsm.nodes.len()
        invariant
            i <= all.len(),
            all == fsm.nodes@,
            peers@.len() == i,
            used@ == node_ips(all.take(i as int)),
            max_id == max_raft_id(all.take(i as int)),
            forall|j: int| 0 <= j < i ==> tells_of_peer(all[j], #[trigger] peers@[j]),
        decreases all.len() - i,
    {
        assert(all.take(i + 1).drop_last() =~= all.take(i as int));
        let node = &fsm.nodes[i];
        peers.push(peer_info(node));
        used.push(node.address.ip);
        if node.raft_id > max_id {
            max_id = node.raft_id;
        }
        i = i + 1;
        assert(used@ =~= node_ips(all.take(i as int)));
    }
    assert(all.take(i as int) =~= all);
    match allocate_tunnel_ip(&used) {
        Some(tunnel_ip) => Ok(
            JoinInfoResponse {
                subnet: "10.99.0.0/16".to_owned(),
                prefix_len: 16,
                api_port: API_PORT,
                tunnel_ip,
                next_raft_id: max_id + 1,
                peers,
            },
        ),
        None => Err(ApiError { status: 500, error: "no tunnel IPs available".to_owned() }),
    }
}

/// The number given to a node that joins is that of no node in the cluster.
pub proof fn next_raft_id_is_fresh(nodes: Seq<FsmNode>, i: int)
    requires
        0 <= i < nodes.len(),
    ensures
        nodes[i].raft_id < max_raft_id(nodes) + 1,
    decreases nodes.len(),
{
    if i < nodes.len() - 1 {
        next_raft_id_is_fresh(nodes.drop_last(), i);
    }
}

/// The address given to a node that joins is that of no node in the cluster,
/// and lies in 10.99.0.0/16.
pub proof fn tunnel_ip_is_fresh(nodes: Seq<FsmNode>, place: int, i: int)
    requires
        is_first_free(node_ips(nodes), place),
        0 <= i < nodes.len(),
    ensures
        nodes[i].address.ip != tunnel_address(place),
        tunnel_address(place) matches IpAddr::V4(n) && n / 0x1_0000 == 0x0A63,
{
    assert(node_ips(nodes)[i] == nodes[i].address.ip);
}

/// What the driver is asked to do to let a node in.
#[derive(Debug, PartialEq, Eq)]
pub enum JoinAction {
    /// Put a peer into the mesh.
    AddPeer(PeerInfo),
    /// Note where a node is reached.
    SetPeer { raft_id: u64, url: String },
    /// Have a node learn the replicated state.
    AddLearner { raft_id: u64, address: String },
    /// Read the replicated state.
    ReadState,
    /// Let these nodes vote.
    ChangeMembership(Vec<u64>),
    /// Propose a command.
    Propose(Command),
    /// Nothing: this is the answer.
    Finished(Result<u16, ApiError>),
}

/// What came of an action; failures by their words.
#[derive(Debug, PartialEq, Eq)]
pub enum JoinEvent {
    PeerAdded(Result<(), String>),
    PeerSet,
    LearnerAdded(Result<(), String>),
    State(FsmState),
    MembershipChanged(Result<(), String>),
    Proposed(Proposed),
}

/// How far letting a node in has come.
#[derive(Clone, Copy, Debug, PartialEq, Eq, Structural)]
pub enum JoinPhase {
    AddingPeer,
    SettingPeer,
    AddingLearner,
    ListingMembers,
    ChangingMembership,
    Registering,
    Ended,
}

impl JoinPhase {
    /// Whether an event answers the action that led to the phase.
    pub open spec fn expects(self, event: JoinEvent) -> bool {
        match self {
            JoinPhase::AddingPeer => event is PeerAdded,
            JoinPhase::SettingPeer => event is PeerSet,
            JoinPhase::AddingLearner => event is LearnerAdded,
            JoinPhase::ListingMembers => event is State,
            JoinPhase::ChangingMembership => event is MembershipChanged,
            JoinPhase::Registering => event is Proposed,
            JoinPhase::Ended => false,
        }
    }
}

/// Letting a node in: it becomes a peer, learns, votes and is registered.
#[derive(Debug, PartialEq, Eq)]
pub struct Admission {
    pub request: JoinRequest,
    pub has_network: bool,
    pub phase: JoinPhase,
}

/// A node of the mesh with an address and a port for its endpoint.
pub open spec fn is_new_peer(peer: PeerInfo, request: JoinRequest, advertised: Option<IpAddr>) -> bool {
    &&& peer.node_id.0 == request.node_id
    &&& peer.public_key == request.public_key
    &&& peer.endpoint == match advertised {
        Some(ip) => Some(SocketAddr { ip, port: WIREGUARD_PORT }),
        None => None,
    }
    &&& peer.tunnel_ip == request.tunnel_ip
}

/// Where a node takes part in agreeing on the state.
pub open spec fn raft_address(ip: IpAddr) -> Seq<char> {
    ip_text(ip) + ":"@ + decimal(RAFT_PORT as nat)
}

/// Whether the node is noted where there is a network, and learns otherwise.
pub open spec fn notes(request: JoinRequest, has_network: bool, phase: JoinPhase, action: JoinAction) -> bool {
    if has_network {
        &&& phase is SettingPeer
        &&& action matches JoinAction::SetPeer { raft_id, url }
        &&& raft_id == request.raft_id
        &&& url@ == "http://"@ + raft_address(request.tunnel_ip)
    } else {
        learns(request, phase, action)
    }
}

/// Whether the node is to learn the replicated state.
pub open spec fn learns(request: JoinRequest, phase: JoinPhase, action: JoinAction) -> bool {
    &&& phase is AddingLearner
    &&& action matches JoinAction::AddLearner { raft_id, address }
    &&& raft_id == request.raft_id
    &&& address@ == raft_address(request.tunnel_ip)
}

/// The numbers of nodes.
pub open spec fn raft_ids(nodes: Seq<FsmNode>) -> Seq<u64> {
    Seq::new(nodes.len(), |i: int| nodes[i].raft_id)
}

/// The command that registers the node.
pub open spec fn is_registration(command: Command, request: JoinRequest) -> bool {
    command == (Command::NodeRegister {
        id: request.raft_id,
        mill_id: NodeId(request.node_id),
        address: SocketAddr { ip: request.tunnel_ip, port: API_PORT },
        resources: request.resources,
        wireguard_pubkey: Some(request.public_key),
        instance_id: request.instance_id,
        rpc_address: request.rpc_address,
        advertise_addr: Some(request.advertise_addr),
    })
}

/// Whether the node is refused.
pub open spec fn refuses(phase: JoinPhase, action: JoinAction, words: Seq<char>) -> bool {
    phase is Ended && (action matches JoinAction::Finished(Err(e)) && e.is(500, words))
}

/// What one step does: the phase and the action that follow an event.
pub open spec fn join_step(
    admission: Admission,
    event: JoinEvent,
    phase: JoinPhase,
    action: JoinAction,
) -> bool {
    let request = admission.request;
    match (admission.phase, event) {
        (JoinPhase::AddingPeer, JoinEvent::PeerAdded(outcome)) => match outcome {
            Ok(()) => notes(request, admission.has_network, phase, action),
            Err(why) => refuses(phase, action, "wireguard add_peer: "@ + why@),
        },
        (JoinPhase::SettingPeer, JoinEvent::PeerSet) => learns(request, phase, action),
        (JoinPhase::AddingLearner, JoinEvent::LearnerAdded(outcome)) => match outcome {
            Ok(()) => phase is ListingMembers && action is ReadState,
            Err(why) => refuses(phase, action, "add_learner: "@ + why@),
        },
        (JoinPhase::ListingMembers, JoinEvent::State(fsm)) => {
            &&& phase is ChangingMembership
            &&& action matches JoinAction::ChangeMembership(ids)
            &&& ids@ == raft_ids(fsm.nodes@).push(request.raft_id)
        },
        (JoinPhase::ChangingMembership, JoinEvent::MembershipChanged(outcome)) => match outcome {
            Ok(()) => phase is Registering && (action matches JoinAction::Propose(command)
                && is_registration(command, request)),
            Err(why) => refuses(phase, action, "change_membership: "@ + why@),
        },
        (JoinPhase::Registering, JoinEvent::Proposed(outcome)) => match outcome {
            Proposed::Applied => phase is Ended && action == JoinAction::Finished(Ok(204)),
            _ => refuses(phase, action, "raft proposal failed"@),
        },
        _ => false,
    }
}

fn raft_address_text(ip: &IpAddr) -> (res: String)
    ensures
        res@ == raft_address(*ip),
{
    let mut out = ip.to_text();
    out.append(":");
    out.append(decimal_text(RAFT_PORT as u128).as_str());
    out
}

fn list_raft_ids(fsm: &FsmState, joining: u64) -> (res: Vec<u64>)
    ensures
        res@ == raft_ids(fsm.nodes@).push(joining),
{
    let mut out: Vec<u64> = Vec::new();
    let mut i: usize = 0;
    while i < fsm.nodes.len()
        invariant
            i <= fsm.nodes@.len(),
            out@ == raft_ids(fsm.nodes@).take(i as int),
        decreases fsm.nodes@.len() - i,
    {
        out.push(fsm.nodes[i].raft_id);
        i = i + 1;
        assert(out@ =~= raft_ids(fsm.nodes@).take(i as int));
    }
    out.push(joining);
    assert(out@ =~= raft_ids(fsm.nodes@).push(joining));
    out
}

impl Admission {
    /// Begins letting a node in, and gives the first action. `advertised` is
    /// the advertised address, where it is an IP address.
    pub fn begin(
        request: JoinRequest,
        advertised: Option<IpAddr>,
        has_mesh: bool,
        has_network: bool,
    ) -> (res: (Admission, JoinAction))
        ensures
            res.0.request == request,
            res.0.has_network == has_network,
            if has_mesh {
                &&& res.0.phase is AddingPeer
                &&& res.1 matches JoinAction::AddPeer(peer)
                &&& is_new_peer(peer, request, advertised)
            } else {
                notes(request, has_network, res.0.phase, res.1)
            },
    {
        let mut admission = Admission { request, has_network, phase: JoinPhase::AddingPeer };
        if has_mesh {
            let endpoint = match advertised {
                Some(ip) => Some(SocketAddr { ip, port: WIREGUARD_PORT }),
                None => None,
            };
            let peer = PeerInfo {
                node_id: NodeId(admission.request.node_id.clone()),
                public_key: admission.request.public_key.clone(),
                endpoint,
                tunnel_ip: admission.request.tunnel_ip,
            };
            (admission, JoinAction::AddPeer(peer))
        } else {
            let action = admission.note();
            (admission, action)
        }
    }

    fn note(&mut self) -> (res: JoinAction)
        ensures
            final(self).request == old(self).request,
            final(self).has_network == old(self).has_network,
            notes(old(self).request, old(self).has_network, final(self).phase, res),
    {
        if self.has_network {
            self.phase = JoinPhase::SettingPeer;
            let mut url = "http://".to_owned();
            let at = raft_address_text(&self.request.tunnel_ip);
            url.append(at.as_str());
            JoinAction::SetPeer { raft_id: self.request.raft_id, url }
        } else {
            self.learn()
        }
    }

    fn learn(&mut self) -> (res: JoinAction)
        ensures
            final(self).request == old(self).request,
            final(self).has_network == old(self).has_network,
            learns(old(self).request, final(self).phase, res),
    {
        self.phase = JoinPhase::AddingLearner;
        JoinAction::AddLearner {
            raft_id: self.request.raft_id,
            address: raft_address_text(&self.request.tunnel_ip),
        }
    }

    fn refuse(&mut self, what: &str, why: &String) -> (res: JoinAction)
        ensures
            final(self).request == old(self).request,
            final(self).has_network == old(self).has_network,
            refuses(final(self).phase, res, what@ + why@),
    {
        self.phase = JoinPhase::Ended;
        let mut error = what.to_owned();
        error.append(why.as_str());
        JoinAction::Finished(Err(ApiError { status: 500, error }))
    }

    /// Takes what came of the last action and gives the next one.
    pub fn step(&mut self, event: JoinEvent) -> (res: JoinAction)
        requires
            old(self).phase.expects(event),
        ensures
            final(self).request == old(self).request,
            final(self).has_network == old(self).has_network,
            join_step(*old(self), event, final(self).phase, res),
    {
        match (self.phase, event) {
            (JoinPhase::AddingPeer, JoinEvent::PeerAdded(outcome)) => match outcome {
                Ok(()) => self.note(),
                Err(why) => self.refuse("wireguard add_peer: ", &why),
            },
            (JoinPhase::SettingPeer, _) => self.learn(),
            (JoinPhase::AddingLearner, JoinEvent::LearnerAdded(outcome)) => match outcome {
                Ok(()) => {
                    self.phase = JoinPhase::ListingMembers;
                    JoinAction::ReadState
                },
                Err(why) => self.refuse("add_learner: ", &why),
            },
            (JoinPhase::ListingMembers, JoinEvent::State(fsm)) => {
                self.phase = JoinPhase::ChangingMembership;
                JoinAction::ChangeMembership(list_raft_ids(&fsm, self.request.raft_id))
            },
            (JoinPhase::ChangingMembership, JoinEvent::MembershipChanged(outcome)) => match outcome {
                Ok(()) => {
                    self.phase = JoinPhase::Registering;
                    JoinAction::Propose(
                        Command::NodeRegister {
                            id: self.request.raft_id,
                            mill_id: NodeId(self.request.node_id.clone()),
                            address: SocketAddr { ip: self.request.tunnel_ip, port: API_PORT },
                            resources: self.request.resources,
                            wireguard_pubkey: Some(self.request.public_key.clone()),
                            instance_id: copy_option(&self.request.instance_id),
                            rpc_address: self.request.rpc_address,
                            advertise_addr: Some(self.request.advertise_addr.clone()),
                        },
                    )
                },
                Err(why) => self.refuse("change_membership: ", &why),
            },
            (JoinPhase::Registering, JoinEvent::Proposed(outcome)) => {
                self.phase = JoinPhase::Ended;
                JoinAction::Finished(propose(outcome))
            },
            _ => JoinAction::ReadState,
        }
    }
}

/// A node is registered only when it has been let vote, and it is let vote
/// only when it has been told to learn.
pub proof fn nodes_learn_before_they_vote(
    admission: Admission,
    event: JoinEvent,
    phase: JoinPhase,
    action: JoinAction,
)
    requires
        join_step(admission, event, phase, action),
    ensures
        action is Propose ==> admission.phase is ChangingMembership && event is MembershipChanged
            && event->MembershipChanged_0 is Ok,
        action is ChangeMembership ==> admission.phase is ListingMembers,
        phase is ListingMembers ==> event is LearnerAdded && event->LearnerAdded_0 is Ok,
{
}

/// The address for a node that joins is the lowest one from 10.99.0.1 on that no
/// node has.
pub proof fn the_lowest_free_address_is_given(
    nodes: Seq<FsmNode>,
    place: int,
    n: u32,
    lower: u32,
)
    requires
        is_first_free(node_ips(nodes), place),
        tunnel_address(place) == IpAddr::V4(n),
    ensures
        0x0A63_0001 <= n <= 0x0A63_FFFD,
        forall|i: int| 0 <= i < nodes.len() ==> (#[trigger] nodes[i]).address.ip != IpAddr::V4(n),
        0x0A63_0001 <= lower < n ==> exists|i: int|
            0 <= i < nodes.len() && (#[trigger] nodes[i]).address.ip == IpAddr::V4(lower),
{
    let used = node_ips(nodes);
    assert forall|i: int| 0 <= i < nodes.len() implies (#[trigger] nodes[i]).address.ip
        != IpAddr::V4(n) by {
        assert(used[i] == nodes[i].address.ip);
    }
    if 0x0A63_0001 <= lower < n {
        let j = lower - 0x0A63_0000;
        assert(tunnel_address(j) == IpAddr::V4(lower));
        assert(in_use(used, tunnel_address(j)));
        let i = choose|i: int| 0 <= i < used.len() && #[trigger] used[i] == tunnel_address(j);
        assert(nodes[i].address.ip == IpAddr::V4(lower));
    }
}

/// The number for a node that joins is one more than the largest of the cluster,
/// which is that of a node or, in a cluster without nodes, zero.
pub proof fn the_largest_number_is_that_of_a_node(nodes: Seq<FsmNode>)
    ensures
        nodes.len() == 0 ==> max_raft_id(nodes) == 0,
        forall|i: int| 0 <= i < nodes.len() ==> (#[trigger] nodes[i]).raft_id <= max_raft_id(nodes),
        max_raft_id(nodes) == 0 || exists|i: int|
            0 <= i < nodes.len() && (#[trigger] nodes[i]).raft_id == max_raft_id(nodes),
    decreases nodes.len(),
{
    if nodes.len() > 0 {
        let rest = nodes.drop_last();
        the_largest_number_is_that_of_a_node(rest);
        assert forall|i: int| 0 <= i < nodes.len() implies (#[trigger] nodes[i]).raft_id
            <= max_raft_id(nodes) by {
            if i < rest.len() {
                assert(rest[i] == nodes[i]);
            }
        }
        if max_raft_id(nodes) == nodes.last().raft_id {
            assert(nodes[nodes.len() - 1].raft_id == max_raft_id(nodes));
        } else if max_raft_id(nodes) != 0 {
            let i = choose|i: int|
                0 <= i < rest.len() && (#[trigger] rest[i]).raft_id == max_raft_id(rest);
            assert(nodes[i].raft_id == max_raft_id(nodes));
        }
    }
}

/// A node that joins is told of each peer where it is reached: at its advertised
/// address and the port of the mesh, else at its own address, under its own
/// number, key and address inside.
pub proof fn peers_are_told_where_they_are(node: FsmNode, peer: JoinPeerInfo)
    requires
        tells_of_peer(node, peer),
    ensures
        peer.raft_id == node.raft_id,
        peer.tunnel_ip == node.address.ip,
        node.advertise_addr is Some ==> peer.endpoint@ == node.advertise_addr->0@ + ":"@ + decimal(
            51820,
        ),
        node.advertise_addr is None ==> peer.endpoint@ == addr_text(node.address),
        node.wireguard_pubkey is Some ==> peer.public_key@ == node.wireguard_pubkey->0@,
        node.wireguard_pubkey is None ==> peer.public_key@.len() == 0,
{
}

/// A node is let in under what it asked for: it is put into the mesh by its own
/// key and address, noted and taught at its own address, let vote beside all
/// nodes that are there, and registered with its own resources, key and
/// addresses; what fails on the way refuses it for that reason.
pub proof fn nodes_are_let_in_as_they_asked(
    admission: Admission,
    event: JoinEvent,
    phase: JoinPhase,
    action: JoinAction,
)
    requires
        join_step(admission, event, phase, action),
    ensures
        ({
            let request = admission.request;
            &&& action matches JoinAction::SetPeer { raft_id, url } ==> raft_id == request.raft_id
                && url@ == "http://"@ + (ip_text(request.tunnel_ip) + ":"@ + decimal(4401))
                && admission.has_network
            &&& action matches JoinAction::AddLearner { raft_id, address } ==> raft_id
                == request.raft_id && address@ == ip_text(request.tunnel_ip) + ":"@ + decimal(4401)
            &&& action matches JoinAction::ChangeMembership(ids) ==> {
                let fsm = event->State_0;
                &&& ids@.len() == fsm.nodes@.len() + 1
                &&& ids@.contains(request.raft_id)
                &&& forall|i: int|
                    0 <= i < fsm.nodes@.len() ==> ids@[i] == (#[trigger] fsm.nodes@[i]).raft_id
            }
            &&& action matches JoinAction::Propose(command) ==> (
            command matches Command::NodeRegister {
                id,
                mill_id,
                address,
                resources,
                wireguard_pubkey,
                instance_id,
                rpc_address,
                advertise_addr,
            } && {
                &&& id == request.raft_id
                &&& mill_id@ == request.node_id@
                &&& address.ip == request.tunnel_ip
                &&& address.port == 4400
                &&& resources == request.resources
                &&& wireguard_pubkey == Some(request.public_key)
                &&& instance_id == request.instance_id
                &&& rpc_address == request.rpc_address
                &&& advertise_addr == Some(request.advertise_addr)
            })
            &&& event matches JoinEvent::PeerAdded(Err(why)) ==> (action matches JoinAction::Finished(
                Err(e),
            ) && e.status == 500 && e.error@ == "wireguard add_peer: "@ + why@)
            &&& event matches JoinEvent::LearnerAdded(Err(why)) ==> (
            action matches JoinAction::Finished(Err(e)) && e.status == 500 && e.error@
                == "add_learner: "@ + why@)
            &&& event matches JoinEvent::MembershipChanged(Err(why)) ==> (
            action matches JoinAction::Finished(Err(e)) && e.status == 500 && e.error@
                == "change_membership: "@ + why@)
            &&& action == JoinAction::Finished(Ok(204)) <==> event == JoinEvent::Proposed(
                Proposed::Applied,
            )
            &&& admission.phase is AddingPeer && event->PeerAdded_0 is Ok && admission.has_network
                ==> action is SetPeer
            &&& admission.phase is SettingPeer ==> action is AddLearner
        }),
{
    if let JoinAction::ChangeMembership(ids) = action {
        assert(ids@[ids@.len() - 1] == admission.request.raft_id);
    }
}

/// A node is put into the mesh by its own name, key and address, and reached at
/// its advertised address where that is one.
pub proof fn new_peers_go_by_their_own_key(
    peer: PeerInfo,
    request: JoinRequest,
    advertised: Option<IpAddr>,
)
    requires
        is_new_peer(peer, request, advertised),
    ensures
        peer.node_id@ == request.node_id@,
        peer.public_key@ == request.public_key@,
        peer.tunnel_ip == request.tunnel_ip,
        peer.endpoint is Some <==> advertised is Some,
        advertised is Some ==> peer.endpoint->0.ip == advertised->0 && peer.endpoint->0.port
            == 51820,
{
}

/// Letting a node in goes on where a step worked: once it learns, the nodes that agree
/// are listed, then it becomes one of them, and then it is entered; a state that cannot
/// be changed is told, and nothing else ends the work early.
pub proof fn admissions_go_on_where_a_step_worked(
    admission: Admission,
    event: JoinEvent,
    phase: JoinPhase,
    action: JoinAction,
)
    requires
        join_step(admission, event, phase, action),
    ensures
        event is PeerAdded && event->PeerAdded_0 is Ok && !admission.has_network ==> action
            is AddLearner,
        event is LearnerAdded && event->LearnerAdded_0 is Ok ==> action is ReadState,
        event is State ==> action is ChangeMembership,
        event is MembershipChanged && event->MembershipChanged_0 is Ok ==> action is Propose,
        event is Proposed && !(event->Proposed_0 is Applied) ==> (
        action matches JoinAction::Finished(Err(e)) && e.status == 500 && e.error@
            == "raft proposal failed"@),
        action is Finished ==> event is Proposed || (event is PeerAdded && event->PeerAdded_0
            is Err) || (event is LearnerAdded && event->LearnerAdded_0 is Err) || (
        event is MembershipChanged && event->MembershipChanged_0 is Err),
{
}

} // verus!
