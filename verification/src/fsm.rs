//! The replicated state of the cluster, as read at one moment, and the
//! commands that change it.
use crate::config::{
    find, has_key, lemma_position, position, Alloc, AllocId, AllocKind, AllocStatus, ClusterConfig, NodeId,
    NodeResources, NodeStatus, Resources, ServiceDef, TaskDef, VolumeState,
};
use crate::net::SocketAddr;
use crate::seqs::{first, first_comes_before_all_others, lemma_is_first};
use crate::time::SystemTime;
use vstd::prelude::*;

verus! {

/// A node of the cluster.
#[derive(Debug, PartialEq, Eq)]
pub struct FsmNode {
    pub raft_id: u64,
    pub mill_id: NodeId,
    pub address: SocketAddr,
    pub resources: NodeResources,
    pub status: NodeStatus,
    pub wireguard_pubkey: Option<String>,
    pub instance_id: Option<String>,
    pub rpc_address: Option<SocketAddr>,
    pub advertise_addr: Option<String>,
}

/// A persistent volume of the cluster.
#[derive(Debug, PartialEq, Eq)]
pub struct FsmVolume {
    pub cloud_id: String,
    pub state: VolumeState,
}

/// A secret, with what came of decrypting it: the bytes, or why it failed.
#[derive(Debug, PartialEq, Eq)]
pub struct Secret {
    pub name: String,
    pub plaintext: Result<Vec<u8>, String>,
}

/// The replicated state. Each node, allocation, volume and secret stands
/// once. `available` gives, by node, what is left of its resources.
#[derive(Debug, PartialEq, Eq)]
pub struct FsmState {
    pub nodes: Vec<FsmNode>,
    pub allocs: Vec<Alloc>,
    pub volumes: Vec<(String, FsmVolume)>,
    pub config: Option<ClusterConfig>,
    pub secrets: Vec<Secret>,
    pub available: Vec<(u64, NodeResources)>,
}

/// A change to the replicated state.
#[allow(inconsistent_fields)]
#[derive(Debug, PartialEq, Eq)]
pub enum Command {
    Deploy(ClusterConfig),
    AllocScheduled {
        alloc_id: AllocId,
        node_id: u64,
        name: String,
        kind: AllocKind,
        address: Option<SocketAddr>,
        resources: Resources,
    },
    AllocRunning {
        alloc_id: AllocId,
        address: Option<SocketAddr>,
        started_at: Option<SystemTime>,
    },
    AllocStatus { alloc_id: AllocId, status: AllocStatus },
    NodeRegister {
        id: u64,
        mill_id: NodeId,
        address: SocketAddr,
        resources: NodeResources,
        wireguard_pubkey: Option<String>,
        instance_id: Option<String>,
        rpc_address: Option<SocketAddr>,
        advertise_addr: Option<String>,
    },
    NodeHeartbeat { id: u64, alloc_statuses: Vec<(AllocId, AllocStatus)> },
    NodeDown { id: u64 },
    NodeDrain { id: u64 },
    NodeRemove { id: u64 },
    SecretSet { name: String, encrypted_value: Vec<u8>, nonce: Vec<u8> },
    SecretDelete { name: String },
    VolumeCreated { name: String, cloud_id: String },
    VolumeDestroyed { name: String },
    VolumeAttached { name: String, node: u64 },
    VolumeDetached { name: String },
}

/// What came of proposing a command: it was applied, it was refused, or it
/// never reached the state.
#[derive(Debug, PartialEq, Eq)]
pub enum Proposed {
    Applied,
    Rejected(String),
    Unreached(String),
}

/// The node with the given number.
pub open spec fn node_numbered(nodes: Seq<FsmNode>, raft_id: u64) -> Option<FsmNode> {
    first(nodes, |n: FsmNode| n.raft_id == raft_id)
}

/// Nodes of the given name.
pub open spec fn of_name(mill_id: Seq<char>) -> spec_fn(FsmNode) -> bool {
    |n: FsmNode| n.mill_id@ == mill_id
}

/// The node with the given name.
pub open spec fn node_named(nodes: Seq<FsmNode>, mill_id: Seq<char>) -> Option<FsmNode> {
    first(nodes, of_name(mill_id))
}

/// The first node that takes work.
pub open spec fn first_ready(nodes: Seq<FsmNode>) -> Option<FsmNode> {
    first(nodes, |n: FsmNode| n.status is Ready)
}

/// Allocations of the given id.
pub open spec fn of_id(id: Seq<char>) -> spec_fn(Alloc) -> bool {
    |a: Alloc| a.id@ == id
}

/// The allocation with the given name.
pub open spec fn alloc_named(allocs: Seq<Alloc>, id: Seq<char>) -> Option<Alloc> {
    first(allocs, of_id(id))
}

/// Entries about the node with the given number.
pub open spec fn about_node(raft_id: u64) -> spec_fn((u64, NodeResources)) -> bool {
    |q: (u64, NodeResources)| q.0 == raft_id
}

/// What is left of the resources of a node.
pub open spec fn left_on(available: Seq<(u64, NodeResources)>, raft_id: u64) -> Option<
    NodeResources,
> {
    match first(available, about_node(raft_id)) {
        Some(q) => Some(q.1),
        None => None,
    }
}

impl FsmState {
    /// Whether the configuration names everything once.
    pub open spec fn wf(&self) -> bool {
        self.config is Some ==> self.config->0.wf()
    }

    /// Whether the configuration names everything once.
    pub fn is_wf(&self) -> (res: bool)
        ensures
            res == self.wf(),
    {
        match &self.config {
            Some(config) => config.is_wf(),
            None => true,
        }
    }

    /// The service of the given name in the configuration.
    pub open spec fn service(&self, name: Seq<char>) -> Option<ServiceDef> {
        if self.config is Some && self.config->0.has_service(name) {
            Some(self.config->0.service(name))
        } else {
            None
        }
    }

    /// The task of the given name in the configuration.
    pub open spec fn task(&self, name: Seq<char>) -> Option<TaskDef> {
        if self.config is Some && self.config->0.has_task(name) {
            Some(self.config->0.task(name))
        } else {
            None
        }
    }

    /// The volume of the given name.
    pub open spec fn volume(&self, name: Seq<char>) -> Option<FsmVolume> {
        if has_key(self.volumes@, name) {
            Some(self.volumes@[position(self.volumes@, name)].1)
        } else {
            None
        }
    }

    /// A state with nothing in it.
    pub fn empty() -> (res: FsmState)
        ensures
            res.nodes@.len() == 0,
            res.allocs@.len() == 0,
            res.volumes@.len() == 0,
            res.config is None,
            res.secrets@.len() == 0,
            res.available@.len() == 0,
    {
        FsmState {
            nodes: Vec::new(),
            allocs: Vec::new(),
            volumes: Vec::new(),
            config: None,
            secrets: Vec::new(),
            available: Vec::new(),
        }
    }

    /// The node with the given number.
    pub fn find_node(&self, raft_id: u64) -> (res: Option<&FsmNode>)
        ensures
            res is Some <==> node_numbered(self.nodes@, raft_id) is Some,
            res is Some ==> *res->0 == node_numbered(self.nodes@, raft_id)->0,
            res is Some ==> res->0.raft_id == raft_id,
    {
        let ghost p = |n: FsmNode| n.raft_id == raft_id;
        let mut i: usize = 0;
        while i < self.nodes.len()
            invariant
                i <= self.nodes@.len(),
                p == (|n: FsmNode| n.raft_id == raft_id),
                forall|j: int| 0 <= j < i ==> !p(#[trigger] self.nodes@[j]),
            decreases self.nodes@.len() - i,
        {
            if self.nodes[i].raft_id == raft_id {
                proof {
                    lemma_is_first(self.nodes@, p, i as int);
                }
                return Some(&self.nodes[i]);
            }
            i = i + 1;
        }
        proof {
            lemma_is_first(self.nodes@, p, i as int);
        }
        None
    }

    /// The node with the given name.
    pub fn find_node_named(&self, mill_id: &NodeId) -> (res: Option<&FsmNode>)
        ensures
            res is Some <==> node_named(self.nodes@, mill_id@) is Some,
            res is Some ==> *res->0 == node_named(self.nodes@, mill_id@)->0,
            res is Some ==> res->0.mill_id@ == mill_id@,
    {
        let ghost p = of_name(mill_id@);
        let mut i: usize = 0;
        while i < self.nodes.len()
            invariant
                i <= self.nodes@.len(),
                p == of_name(mill_id@),
                forall|j: int| 0 <= j < i ==> !p(#[trigger] self.nodes@[j]),
            decreases self.nodes@.len() - i,
        {
            if self.nodes[i].mill_id.same(mill_id) {
                proof {
                    lemma_is_first(self.nodes@, p, i as int);
                }
                return Some(&self.nodes[i]);
            }
            i = i + 1;
        }
        proof {
            lemma_is_first(self.nodes@, p, i as int);
        }
        None
    }

    /// The number of the node with the given name.
    pub fn raft_id_for(&self, mill_id: &NodeId) -> (res: Option<u64>)
        ensures
            res == match node_named(self.nodes@, mill_id@) {
                Some(n) => Some(n.raft_id),
                None => None,
            },
    {
        match self.find_node_named(mill_id) {
            Some(n) => Some(n.raft_id),
            None => None,
        }
    }

    /// The first node that takes work.
    pub fn first_ready_node(&self) -> (res: Option<&FsmNode>)
        ensures
            res is Some <==> first_ready(self.nodes@) is Some,
            res is Some ==> *res->0 == first_ready(self.nodes@)->0,
    {
        let ghost p = |n: FsmNode| n.status is Ready;
        let mut i: usize = 0;
        while i < self.nodes.len()
            invariant
                i <= self.nodes@.len(),
                p == (|n: FsmNode| n.status is Ready),
                forall|j: int| 0 <= j < i ==> !p(#[trigger] self.nodes@[j]),
            decreases self.nodes@.len() - i,
        {
            if self.nodes[i].status == NodeStatus::Ready {
                proof {
                    lemma_is_first(self.nodes@, p, i as int);
                }
                return Some(&self.nodes[i]);
            }
            i = i + 1;
        }
        proof {
            lemma_is_first(self.nodes@, p, i as int);
        }
        None
    }

    /// The allocation with the given name.
    pub fn find_alloc(&self, id: &AllocId) -> (res: Option<&Alloc>)
        ensures
            res is Some <==> alloc_named(self.allocs@, id@) is Some,
            res is Some ==> *res->0 == alloc_named(self.allocs@, id@)->0,
            res is Some ==> res->0.id@ == id@,
    {
        let ghost p = of_id(id@);
        let mut i: usize = 0;
        while i < self.allocs.len()
            invariant
                i <= self.allocs@.len(),
                p == of_id(id@),
                forall|j: int| 0 <= j < i ==> !p(#[trigger] self.allocs@[j]),
            decreases self.allocs@.len() - i,
        {
            if self.allocs[i].id.same(id) {
                proof {
                    lemma_is_first(self.allocs@, p, i as int);
                }
                return Some(&self.allocs[i]);
            }
            i = i + 1;
        }
        proof {
            lemma_is_first(self.allocs@, p, i as int);
        }
        None
    }

    /// The volume of the given name.
    pub fn find_volume(&self, name: &String) -> (res: Option<&FsmVolume>)
        ensures
            res is Some <==> self.volume(name@) is Some,
            res is Some ==> *res->0 == self.volume(name@)->0,
    {
        match find(&self.volumes, name) {
            Some(i) => Some(&self.volumes[i].1),
            None => None,
        }
    }

    /// The service of the given name in the configuration.
    pub fn find_service(&self, name: &String) -> (res: Option<&ServiceDef>)
        ensures
            res is Some <==> self.service(name@) is Some,
            res is Some ==> *res->0 == self.service(name@)->0,
            res is Some && self.wf() ==> res->0.wf(),
    {
        match &self.config {
            Some(config) => config.find_service(name),
            None => None,
        }
    }

    /// The task of the given name in the configuration.
    pub fn find_task(&self, name: &String) -> (res: Option<&TaskDef>)
        ensures
            res is Some <==> self.task(name@) is Some,
            res is Some ==> *res->0 == self.task(name@)->0,
            res is Some && self.wf() ==> crate::config::keys_distinct(res->0.env@),
    {
        match &self.config {
            Some(config) => config.find_task(name),
            None => None,
        }
    }
}

/// What is left of the resources of a node.
pub fn node_available_resources(available: &[(u64, NodeResources)], raft_id: u64) -> (res: Option<
    NodeResources,
>)
    ensures
        res == left_on(available@, raft_id),
{
    let ghost p = about_node(raft_id);
    let mut i: usize = 0;
    while i < available.len()
        invariant
            i <= available@.len(),
            p == about_node(raft_id),
            forall|j: int| 0 <= j < i ==> !p(#[trigger] available@[j]),
        decreases available@.len() - i,
    {
        if available[i].0 == raft_id {
            proof {
                lemma_is_first(available@, p, i as int);
            }
            return Some(available[i].1);
        }
        i = i + 1;
    }
    proof {
        lemma_is_first(available@, p, i as int);
    }
    None
}

/// The node that is found by its number has that number, and comes before all
/// others that have it; where none is found, none has it.
pub proof fn nodes_are_found_by_number(nodes: Seq<FsmNode>, raft_id: u64)
    ensures
        node_numbered(nodes, raft_id) matches Some(n) ==> exists|i: int|
            0 <= i < nodes.len() && #[trigger] nodes[i] == n && nodes[i].raft_id == raft_id
                && forall|j: int| 0 <= j < i ==> (#[trigger] nodes[j]).raft_id != raft_id,
        node_numbered(nodes, raft_id) is None ==> forall|j: int|
            0 <= j < nodes.len() ==> (#[trigger] nodes[j]).raft_id != raft_id,
{
    first_comes_before_all_others(nodes, |n: FsmNode| n.raft_id == raft_id);
}

/// The node that is found by its name has that name, and comes before all
/// others that have it; where none is found, none has it.
pub proof fn nodes_are_found_by_name(nodes: Seq<FsmNode>, mill_id: Seq<char>)
    ensures
        node_named(nodes, mill_id) matches Some(n) ==> exists|i: int|
            0 <= i < nodes.len() && #[trigger] nodes[i] == n && nodes[i].mill_id@ == mill_id
                && forall|j: int| 0 <= j < i ==> (#[trigger] nodes[j]).mill_id@ != mill_id,
        node_named(nodes, mill_id) is None ==> forall|j: int|
            0 <= j < nodes.len() ==> (#[trigger] nodes[j]).mill_id@ != mill_id,
{
    first_comes_before_all_others(nodes, of_name(mill_id));
}

/// The first node that takes work is ready, and no node before it is; where
/// there is none, no node is ready.
pub proof fn first_ready_takes_work(nodes: Seq<FsmNode>)
    ensures
        first_ready(nodes) matches Some(n) ==> exists|i: int|
            0 <= i < nodes.len() && #[trigger] nodes[i] == n && nodes[i].status
                == NodeStatus::Ready && forall|j: int|
                0 <= j < i ==> (#[trigger] nodes[j]).status != NodeStatus::Ready,
        first_ready(nodes) is None ==> forall|j: int|
            0 <= j < nodes.len() ==> (#[trigger] nodes[j]).status != NodeStatus::Ready,
{
    first_comes_before_all_others(nodes, |n: FsmNode| n.status is Ready);
}

/// The allocation that is found by its id has that id, and comes before all
/// others that have it; where none is found, none has it.
pub proof fn allocations_are_found_by_id(allocs: Seq<Alloc>, id: Seq<char>)
    ensures
        alloc_named(allocs, id) matches Some(a) ==> exists|i: int|
            0 <= i < allocs.len() && #[trigger] allocs[i] == a && allocs[i].id@ == id
                && forall|j: int| 0 <= j < i ==> (#[trigger] allocs[j]).id@ != id,
        alloc_named(allocs, id) is None ==> forall|j: int|
            0 <= j < allocs.len() ==> (#[trigger] allocs[j]).id@ != id,
{
    first_comes_before_all_others(allocs, of_id(id));
}

/// What is left on a node is what the first entry of its number says; where
/// nothing is known of it, no entry has its number.
pub proof fn remainders_are_those_of_the_node(
    available: Seq<(u64, NodeResources)>,
    raft_id: u64,
)
    ensures
        left_on(available, raft_id) matches Some(left) ==> exists|i: int|
            0 <= i < available.len() && #[trigger] available[i] == (raft_id, left) && forall|j: int|
                0 <= j < i ==> (#[trigger] available[j]).0 != raft_id,
        left_on(available, raft_id) is None ==> forall|j: int|
            0 <= j < available.len() ==> (#[trigger] available[j]).0 != raft_id,
{
    first_comes_before_all_others(available, about_node(raft_id));
}

/// Services, tasks and volumes are found by their names: what is found stands
/// under that name, and where nothing is found nothing stands under it.
pub proof fn definitions_are_found_by_name(fsm: FsmState, name: Seq<char>)
    ensures
        fsm.service(name) matches Some(def) ==> fsm.config is Some && exists|i: int|
            0 <= i < fsm.config->0.services@.len() && (
            #[trigger] fsm.config->0.services@[i]).0@ == name && fsm.config->0.services@[i].1
                == def,
        fsm.service(name) is None ==> fsm.config is None || forall|i: int|
            0 <= i < fsm.config->0.services@.len() ==> (
            #[trigger] fsm.config->0.services@[i]).0@ != name,
        fsm.task(name) matches Some(def) ==> fsm.config is Some && exists|i: int|
            0 <= i < fsm.config->0.tasks@.len() && (#[trigger] fsm.config->0.tasks@[i]).0@ == name
                && fsm.config->0.tasks@[i].1 == def,
        fsm.task(name) is None ==> fsm.config is None || forall|i: int|
            0 <= i < fsm.config->0.tasks@.len() ==> (#[trigger] fsm.config->0.tasks@[i]).0@
                != name,
        fsm.volume(name) matches Some(volume) ==> exists|i: int|
            0 <= i < fsm.volumes@.len() && (#[trigger] fsm.volumes@[i]).0@ == name
                && fsm.volumes@[i].1 == volume,
        fsm.volume(name) is None ==> forall|i: int|
            0 <= i < fsm.volumes@.len() ==> (#[trigger] fsm.volumes@[i]).0@ != name,
{
    if let Some(config) = fsm.config {
        lemma_position(config.services@, name);
        lemma_position(config.tasks@, name);
    }
    lemma_position(fsm.volumes@, name);
}

/// The first entry of a number says what is left on the node.
pub proof fn lemma_left_on(available: Seq<(u64, NodeResources)>, raft_id: u64, l: int)
    requires
        0 <= l < available.len(),
        available[l].0 == raft_id,
        forall|m: int| 0 <= m < l ==> (#[trigger] available[m]).0 != raft_id,
    ensures
        left_on(available, raft_id) == Some(available[l].1),
{
    lemma_is_first(available, about_node(raft_id), l);
}

} // verus!
