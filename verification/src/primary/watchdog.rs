//! Watching over nodes and services: silent nodes are taken down, and
//! services with too few replicas are started again with growing delays.
use std::collections::HashMap;

use crate::config::{Alloc, AllocKind, AllocStatus, NodeId, NodeStatus, ServiceDef};
use crate::fsm::{
    node_numbered, nodes_are_found_by_number, Command, FsmNode, FsmState, Proposed,
};
use crate::net::{IpAddr, SocketAddr};
use crate::primary::nodes::{leaving, list_living, living_on, Leaving};
use crate::seqs::{
    first, first_index, lemma_first_index, lemma_is_first, lemma_select_take, lemma_selected, select,
};
use crate::table::Table;
use crate::time::{Duration, Instant};
use vstd::prelude::*;
use vstd::string::*;

verus! {

broadcast use vstd::std_specs::hash::group_hash_axioms;

/// The last heartbeat of each node, by its number.
#[derive(Debug)]
pub struct HeartbeatTracker {
    pub seen: HashMap<u64, Instant>,
}

impl View for HeartbeatTracker {
    type V = Map<u64, Instant>;

    open spec fn view(&self) -> Map<u64, Instant> {
        self.seen@
    }
}

impl HeartbeatTracker {
    /// A tracker that has heard of nobody.
    pub fn new() -> (res: HeartbeatTracker)
        ensures
            res@ == Map::<u64, Instant>::empty(),
    {
        HeartbeatTracker { seen: HashMap::new() }
    }

    /// Records a heartbeat of a node.
    pub fn record(&mut self, raft_id: u64, now: Instant)
        ensures
            final(self)@ == old(self)@.insert(raft_id, now),
    {
        self.seen.insert(raft_id, now);
    }

    /// When a node was heard of last.
    pub fn last_seen(&self, raft_id: u64) -> (res: Option<Instant>)
        ensures
            res == if self@.dom().contains(raft_id) {
                Some(self@[raft_id])
            } else {
                None
            },
    {
        match self.seen.get(&raft_id) {
            Some(at) => Some(*at),
            None => None,
        }
    }

    /// Forgets a node.
    pub fn remove(&mut self, raft_id: u64)
        ensures
            final(self)@ == old(self)@.remove(raft_id),
    {
        self.seen.remove(&raft_id);
    }
}

/// How often a service was started again, and when last.
#[derive(Clone, Copy, Debug, PartialEq, Eq, Structural)]
pub struct RestartState {
    pub attempts: usize,
    pub last_attempt_at: Instant,
}

/// Entries about the node with the given number.
pub open spec fn entry_for(raft_id: u64) -> spec_fn((u64, Instant)) -> bool {
    |e: (u64, Instant)| e.0 == raft_id
}

/// When a node was found, by the list of nodes found.
pub open spec fn found_at(found: Seq<(u64, Instant)>, raft_id: u64) -> Option<Instant> {
    match first(found, entry_for(raft_id)) {
        Some(e) => Some(e.1),
        None => None,
    }
}

/// Whether there is a node with the given number.
pub open spec fn has_node(nodes: Seq<FsmNode>, raft_id: u64) -> bool {
    exists|i: int| 0 <= i < nodes.len() && (#[trigger] nodes[i]).raft_id == raft_id
}

fn when_found(found: &Vec<(u64, Instant)>, raft_id: u64) -> (res: Option<Instant>)
    ensures
        res == found_at(found@, raft_id),
{
    let mut i: usize = 0;
    while i < found.len()
        invariant
            i <= found@.len(),
            forall|j: int| 0 <= j < i ==> !entry_for(raft_id)(#[trigger] found@[j]),
        decreases found@.len() - i,
    {
        if found[i].0 == raft_id {
            proof {
                lemma_is_first(found@, entry_for(raft_id), i as int);
            }
            return Some(found[i].1);
        }
        i = i + 1;
    }
    proof {
        lemma_is_first(found@, entry_for(raft_id), i as int);
    }
    None
}

fn knows_node(nodes: &Vec<FsmNode>, raft_id: u64) -> (res: bool)
    ensures
        res == has_node(nodes@, raft_id),
{
    let mut i: usize = 0;
    while i < nodes.len()
        invariant
            i <= nodes@.len(),
            forall|j: int| 0 <= j < i ==> (#[trigger] nodes@[j]).raft_id != raft_id,
        decreases nodes@.len() - i,
    {
        if nodes[i].raft_id == raft_id {
            return true;
        }
        i = i + 1;
    }
    false
}

/// When a node counts as found: as before, or now where it is new.
pub open spec fn found_since(
    nodes: Seq<FsmNode>,
    found: Seq<(u64, Instant)>,
    now: Instant,
    raft_id: u64,
) -> Option<Instant> {
    if has_node(nodes, raft_id) {
        match found_at(found, raft_id) {
            Some(at) => Some(at),
            None => Some(now),
        }
    } else {
        None
    }
}

/// The nodes that were found before and are gone.
pub open spec fn gone(nodes: Seq<FsmNode>, found: Seq<(u64, Instant)>) -> Set<u64> {
    Set::new(|raft_id: u64| found_at(found, raft_id) is Some && !has_node(nodes, raft_id))
}

proof fn lemma_found_push(found: Seq<(u64, Instant)>, e: (u64, Instant), raft_id: u64)
    requires
        found_at(found, e.0) is None,
    ensures
        found_at(found.push(e), raft_id) == if raft_id == e.0 {
            Some(e.1)
        } else {
            found_at(found, raft_id)
        },
{
    let p = entry_for(raft_id);
    let after = found.push(e);
    assert(after.drop_last() =~= found);
    lemma_first_index(found, p);
    lemma_first_index(after, p);
    if first_index(found, p) < found.len() {
        assert(after[first_index(found, p)] == found[first_index(found, p)]);
    }
}

/// Keeps track of which nodes there are: new ones count as found now, and of
/// those that are gone the heartbeats are forgotten.
pub fn track_nodes(
    nodes: &Vec<FsmNode>,
    found: &mut Vec<(u64, Instant)>,
    tracker: &mut HeartbeatTracker,
    now: Instant,
)
    ensures
        forall|raft_id: u64| #[trigger]
            found_at(final(found)@, raft_id) == found_since(nodes@, old(found)@, now, raft_id),
        final(tracker)@ == old(tracker)@.remove_keys(gone(nodes@, old(found)@)),
{
    let mut next: Vec<(u64, Instant)> = Vec::new();
    let mut i: usize = 0;
    let ghost was = found@;
    while i < nodes.len()
        invariant
            i <= nodes@.len(),
            found@ == was,
            forall|raft_id: u64| #[trigger]
                found_at(next@, raft_id) == found_since(
                    nodes@.take(i as int),
                    was,
                    now,
                    raft_id,
                ),
        decreases nodes@.len() - i,
    {
        let raft_id: u64 = nodes[i].raft_id;
        let ghost before = next@;
        let ghost upto = nodes@.take(i as int);
        let ghost more = nodes@.take(i + 1);
        if when_found(&next, raft_id).is_none() {
            let at = match when_found(found, raft_id) {
                Some(at) => at,
                None => now,
            };
            next.push((raft_id, at));
            proof {
                assert forall|id: u64| #[trigger]
                    found_at(next@, id) == found_since(more, was, now, id) by {
                    lemma_found_push(before, (raft_id, at), id);
                    assert(found_at(before, id) == found_since(upto, was, now, id));
                    lemma_has_node_take(nodes@, i as int, id);
                }
            }
        } else {
            proof {
                assert forall|id: u64| #[trigger]
                    found_at(next@, id) == found_since(more, was, now, id) by {
                    assert(found_at(before, id) == found_since(upto, was, now, id));
                    assert(found_at(before, raft_id) == found_since(upto, was, now, raft_id));
                    lemma_has_node_take(nodes@, i as int, id);
                }
            }
        }
        i = i + 1;
    }
    assert(nodes@.take(i as int) =~= nodes@);
    let mut k: usize = 0;
    assert(tracker@ =~= old(tracker)@.remove_keys(gone(nodes@, was.take(0))));
    while k < found.len()
        invariant
            k <= found@.len(),
            found@ == was,
            tracker@ == old(tracker)@.remove_keys(gone(nodes@, was.take(k as int))),
        decreases found@.len() - k,
    {
        let raft_id: u64 = found[k].0;
        let ghost before = tracker@;
        if !knows_node(nodes, raft_id) {
            tracker.remove(raft_id);
        }
        proof {
            let more = was.take(k + 1);
            let upto = was.take(k as int);
            assert forall|id: u64|
                gone(nodes@, more).contains(id) == (gone(nodes@, upto).contains(id) || (id
                    == raft_id && !has_node(nodes@, id))) by {
                lemma_found_in(upto, id);
                lemma_found_in(more, id);
                assert(more[k as int].0 == raft_id);
                if found_at(upto, id) is Some {
                    let j = choose|j: int| 0 <= j < upto.len() && (#[trigger] upto[j]).0 == id;
                    assert(more[j].0 == id);
                }
                if found_at(more, id) is Some {
                    let j = choose|j: int| 0 <= j < more.len() && (#[trigger] more[j]).0 == id;
                    if j < k {
                        assert(upto[j].0 == id);
                    }
                }
            }
            assert(tracker@ =~= old(tracker)@.remove_keys(gone(nodes@, more)));
        }
        k = k + 1;
    }
    assert(was.take(k as int) =~= was);
    *found = next;
}

proof fn lemma_found_in(found: Seq<(u64, Instant)>, raft_id: u64)
    ensures
        found_at(found, raft_id) is Some <==> exists|j: int|
            0 <= j < found.len() && (#[trigger] found[j]).0 == raft_id,
{
    lemma_first_index(found, entry_for(raft_id));
}

proof fn lemma_has_node_take(nodes: Seq<FsmNode>, i: int, raft_id: u64)
    requires
        0 <= i < nodes.len(),
    ensures
        has_node(nodes.take(i + 1), raft_id) == (has_node(nodes.take(i), raft_id)
            || nodes[i].raft_id == raft_id),
{
    let upto = nodes.take(i);
    let more = nodes.take(i + 1);
    assert(more[i] == nodes[i]);
    if has_node(upto, raft_id) {
        let j = choose|j: int| 0 <= j < upto.len() && (#[trigger] upto[j]).raft_id == raft_id;
        assert(more[j].raft_id == raft_id);
    }
    if has_node(more, raft_id) {
        let j = choose|j: int| 0 <= j < more.len() && (#[trigger] more[j]).raft_id == raft_id;
        if j < i {
            assert(upto[j].raft_id == raft_id);
        }
    }
}

/// When a node was heard of last; where it never was, when it was found.
pub open spec fn effective(
    seen: Map<u64, Instant>,
    found: Seq<(u64, Instant)>,
    now: Instant,
    raft_id: u64,
) -> Instant {
    if seen.dom().contains(raft_id) {
        seen[raft_id]
    } else {
        match found_at(found, raft_id) {
            Some(at) => at,
            None => now,
        }
    }
}

/// Nodes that take work and have been silent for too long.
pub open spec fn silent(
    seen: Map<u64, Instant>,
    found: Seq<(u64, Instant)>,
    now: Instant,
    timeout: Duration,
) -> spec_fn(FsmNode) -> bool {
    |n: FsmNode|
        n.status is Ready && now.since(effective(seen, found, now, n.raft_id)) >= timeout.nanos
}

/// A node that has been silent for too long.
#[derive(Debug, PartialEq, Eq)]
pub struct SilentNode {
    pub raft_id: u64,
    pub mill_id: NodeId,
}

/// What is needed of silent nodes.
pub open spec fn silent_refs(nodes: Seq<FsmNode>) -> Seq<SilentNode> {
    Seq::new(
        nodes.len(),
        |i: int| SilentNode { raft_id: nodes[i].raft_id, mill_id: nodes[i].mill_id },
    )
}

/// Lists the nodes that take work and have been silent for too long. A node
/// that was never heard of has as long from when it was found.
pub fn silent_nodes(
    nodes: &Vec<FsmNode>,
    found: &Vec<(u64, Instant)>,
    tracker: &HeartbeatTracker,
    now: Instant,
    timeout: Duration,
) -> (res: Vec<SilentNode>)
    ensures
        res@ == silent_refs(select(nodes@, silent(tracker@, found@, now, timeout))),
{
    let mut out: Vec<SilentNode> = Vec::new();
    let ghost p = silent(tracker@, found@, now, timeout);
    let ghost all = nodes@;
    let mut i: usize = 0;
    assert(silent_refs(select(all.take(0), p)) =~= Seq::empty());
    while i < nodes.len()
        invariant
            i <= all.len(),
            all == nodes@,
            p == silent(tracker@, found@, now, timeout),
            out@ == silent_refs(select(all.take(i as int), p)),
        decreases all.len() - i,
    {
        proof {
            lemma_select_take(all, p, i as int);
        }
        let node = &nodes[i];
        if node.status == NodeStatus::Ready {
            let at = match tracker.last_seen(node.raft_id) {
                Some(at) => at,
                None => match when_found(found, node.raft_id) {
                    Some(at) => at,
                    None => now,
                },
            };
            if now.duration_since(at).nanos >= timeout.nanos {
                let ghost sel = select(all.take(i as int), p);
                out.push(SilentNode { raft_id: node.raft_id, mill_id: node.mill_id.clone() });
                assert(out@ =~= silent_refs(sel.push(all[i as int])));
            }
        }
        i = i + 1;
    }
    assert(all.take(i as int) =~= all);
    out
}

/// What the driver is asked to do about silent nodes.
#[derive(Debug, PartialEq, Eq)]
pub enum SweepAction {
    /// Read the replicated state.
    ReadState,
    /// Propose a command.
    Propose(Command),
    /// Take a peer out of the mesh, by its public key.
    RemovePeer { public_key: String },
    /// Nothing: all is done.
    Finished,
}

/// What came of an action.
#[derive(Debug, PartialEq, Eq)]
pub enum SweepEvent {
    State(FsmState),
    Proposed(Proposed),
    PeerRemoved,
}

/// How far the work on the silent node in turn has come.
#[derive(Clone, Copy, Debug, PartialEq, Eq, Structural)]
pub enum SweepPhase {
    /// Its public key is looked up.
    ReadingKey,
    /// It is being marked as down.
    Marking,
    /// It is being taken out of the mesh.
    RemovingPeer,
    /// Its allocations are listed.
    Listing,
    /// An allocation of it is being recorded as failed.
    Failing { index: usize },
    /// All is done.
    Ended,
}

impl SweepPhase {
    /// Whether an event answers the action that led to the phase.
    pub open spec fn expects(self, event: SweepEvent) -> bool {
        match self {
            SweepPhase::ReadingKey => event is State,
            SweepPhase::Marking => event is Proposed,
            SweepPhase::RemovingPeer => event is PeerRemoved,
            SweepPhase::Listing => event is State,
            SweepPhase::Failing { .. } => event is Proposed,
            SweepPhase::Ended => false,
        }
    }
}

/// The work on silent nodes: each is marked as down, taken out of the mesh
/// where there is one, and its allocations are recorded as failed.
#[derive(Debug, PartialEq, Eq)]
pub struct Sweep {
    pub nodes: Vec<SilentNode>,
    pub has_mesh: bool,
    pub index: usize,
    pub public_key: Option<String>,
    pub allocs: Vec<Leaving>,
    pub phase: SweepPhase,
}

/// Whether the work goes on with the nodes from `index` on.
pub open spec fn sweeps_from(next: Sweep, index: int, action: SweepAction) -> bool {
    &&& next.index == index
    &&& if index < next.nodes@.len() {
        next.phase is ReadingKey && action is ReadState
    } else {
        next.phase is Ended && action is Finished
    }
}

/// The command that records an allocation as failed with its node.
pub open spec fn is_node_down_record(action: SweepAction, alloc: Leaving) -> bool {
    &&& action matches SweepAction::Propose(command)
    &&& command matches Command::AllocStatus { alloc_id, status }
    &&& alloc_id == alloc.alloc_id
    &&& status matches AllocStatus::Failed { reason }
    &&& reason@ == "node down"@
}

/// Whether the work goes on with the allocations from `k` on.
pub open spec fn fails_from(sweep: Sweep, next: Sweep, k: int, action: SweepAction) -> bool {
    if k < next.allocs@.len() {
        &&& next.index == sweep.index
        &&& next.phase == (SweepPhase::Failing { index: k as usize })
        &&& is_node_down_record(action, next.allocs@[k])
    } else {
        sweeps_from(next, sweep.index + 1, action)
    }
}

/// The public key of the node of the given number.
pub open spec fn key_of(fsm: FsmState, raft_id: u64) -> Option<String> {
    match node_numbered(fsm.nodes@, raft_id) {
        Some(n) => n.wireguard_pubkey,
        None => None,
    }
}

/// What one step does: the work and the action that follow an event, and what
/// is remembered of restarts after it.
pub open spec fn sweep_step(
    sweep: Sweep,
    event: SweepEvent,
    next: Sweep,
    action: SweepAction,
    before: Map<Seq<char>, RestartState>,
    after: Map<Seq<char>, RestartState>,
) -> bool {
    let node = sweep.nodes@[sweep.index as int];
    &&& next.nodes == sweep.nodes
    &&& next.has_mesh == sweep.has_mesh
    &&& match (sweep.phase, event) {
        (SweepPhase::ReadingKey, SweepEvent::State(fsm)) => {
            &&& after == before
            &&& next.index == sweep.index
            &&& next.public_key == key_of(fsm, node.raft_id)
            &&& next.phase is Marking
            &&& action == SweepAction::Propose(Command::NodeDown { id: node.raft_id })
        },
        (SweepPhase::Marking, SweepEvent::Proposed(outcome)) => after == before && if outcome
            is Unreached {
            sweeps_from(next, sweep.index + 1, action)
        } else if sweep.has_mesh && sweep.public_key is Some {
            &&& next.index == sweep.index
            &&& next.phase is RemovingPeer
            &&& action == (SweepAction::RemovePeer { public_key: sweep.public_key->0 })
        } else {
            next.index == sweep.index && next.phase is Listing && action is ReadState
        },
        (SweepPhase::RemovingPeer, SweepEvent::PeerRemoved) => after == before && next.index
            == sweep.index && next.phase is Listing && action is ReadState,
        (SweepPhase::Listing, SweepEvent::State(fsm)) => {
            &&& after == before
            &&& next.allocs@ == leaving(select(fsm.allocs@, living_on(node.mill_id@)))
            &&& fails_from(sweep, next, 0, action)
        },
        (SweepPhase::Failing { index }, SweepEvent::Proposed(_)) => {
            let alloc = sweep.allocs@[index as int];
            &&& after == if alloc.kind is Service {
                before.remove(alloc.name@)
            } else {
                before
            }
            &&& next.allocs@ == sweep.allocs@
            &&& fails_from(sweep, next, index + 1, action)
        },
        _ => false,
    }
}

impl Sweep {
    /// Whether the places agree with the lists.
    pub open spec fn wf(self) -> bool {
        &&& !(self.phase is Ended) ==> self.index < self.nodes@.len()
        &&& self.phase matches SweepPhase::Failing { index } ==> index < self.allocs@.len()
    }

    /// Begins the work, and gives the first action.
    pub fn begin(nodes: Vec<SilentNode>, has_mesh: bool) -> (res: (Sweep, SweepAction))
        ensures
            res.0.nodes == nodes,
            res.0.has_mesh == has_mesh,
            res.0.wf(),
            sweeps_from(res.0, 0, res.1),
    {
        let mut sweep = Sweep {
            nodes,
            has_mesh,
            index: 0,
            public_key: None,
            allocs: Vec::new(),
            phase: SweepPhase::Ended,
        };
        let action = sweep.sweep_from(0);
        (sweep, action)
    }

    fn sweep_from(&mut self, index: usize) -> (res: SweepAction)
        ensures
            final(self).nodes == old(self).nodes,
            final(self).has_mesh == old(self).has_mesh,
            final(self).allocs == old(self).allocs,
            final(self).wf(),
            sweeps_from(*final(self), index as int, res),
    {
        self.index = index;
        if index < self.nodes.len() {
            self.phase = SweepPhase::ReadingKey;
            SweepAction::ReadState
        } else {
            self.phase = SweepPhase::Ended;
            SweepAction::Finished
        }
    }

    fn fail_from(&mut self, k: usize) -> (res: SweepAction)
        requires
            old(self).index < old(self).nodes@.len(),
        ensures
            final(self).nodes == old(self).nodes,
            final(self).has_mesh == old(self).has_mesh,
            final(self).allocs == old(self).allocs,
            final(self).wf(),
            fails_from(*old(self), *final(self), k as int, res),
    {
        if k < self.allocs.len() {
            self.phase = SweepPhase::Failing { index: k };
            SweepAction::Propose(
                Command::AllocStatus {
                    alloc_id: self.allocs[k].alloc_id.clone(),
                    status: AllocStatus::Failed { reason: "node down".to_owned() },
                },
            )
        } else {
            assert(self.index < self.nodes.len());
            let next: usize = self.index + 1;
            self.sweep_from(next)
        }
    }

    /// Takes what came of the last action and gives the next one. A service
    /// that lost an allocation is no longer held back by earlier restarts.
    pub fn step(&mut self, event: SweepEvent, backoff: &mut Table<RestartState>) -> (res: SweepAction)
        requires
            old(self).wf(),
            old(self).phase.expects(event),
            old(backoff).wf(),
        ensures
            final(self).wf(),
            final(backoff).wf(),
            sweep_step(*old(self), event, *final(self), res, old(backoff)@, final(backoff)@),
    {
        match (self.phase, event) {
            (SweepPhase::ReadingKey, SweepEvent::State(fsm)) => {
                let raft_id: u64 = self.nodes[self.index].raft_id;
                self.public_key = match fsm.find_node(raft_id) {
                    Some(n) => n.wireguard_pubkey.clone(),
                    None => None,
                };
                self.phase = SweepPhase::Marking;
                SweepAction::Propose(Command::NodeDown { id: raft_id })
            },
            (SweepPhase::Marking, SweepEvent::Proposed(outcome)) => match outcome {
                Proposed::Unreached(_) => {
                    assert(self.index < self.nodes.len());
                    let next: usize = self.index + 1;
                    self.sweep_from(next)
                },
                _ => match (self.has_mesh, &self.public_key) {
                    (true, Some(key)) => {
                        self.phase = SweepPhase::RemovingPeer;
                        SweepAction::RemovePeer { public_key: key.clone() }
                    },
                    _ => {
                        self.phase = SweepPhase::Listing;
                        SweepAction::ReadState
                    },
                },
            },
            (SweepPhase::RemovingPeer, _) => {
                self.phase = SweepPhase::Listing;
                SweepAction::ReadState
            },
            (SweepPhase::Listing, SweepEvent::State(fsm)) => {
                self.allocs = list_living(&fsm, &self.nodes[self.index].mill_id);
                self.fail_from(0)
            },
            (SweepPhase::Failing { index }, _) => {
                if self.allocs[index].kind == AllocKind::Service {
                    let _ = backoff.remove(&self.allocs[index].name);
                }
                assert(index < self.allocs.len());
                self.fail_from(index + 1)
            },
            _ => SweepAction::Finished,
        }
    }
}

/// Every allocation of a node that was marked as down and that has not ended
/// is going to be recorded as failed.
pub proof fn allocations_of_silent_nodes_are_listed(
    sweep: Sweep,
    fsm: FsmState,
    next: Sweep,
    action: SweepAction,
    before: Map<Seq<char>, RestartState>,
    after: Map<Seq<char>, RestartState>,
    i: int,
)
    requires
        sweep.phase is Listing,
        sweep_step(sweep, SweepEvent::State(fsm), next, action, before, after),
        0 <= i < fsm.allocs@.len(),
        fsm.allocs@[i].node@ == sweep.nodes@[sweep.index as int].mill_id@,
        !fsm.allocs@[i].status.terminal(),
    ensures
        exists|k: int|
            0 <= k < next.allocs@.len() && (#[trigger] next.allocs@[k]).alloc_id
                == fsm.allocs@[i].id,
        next.phase is Failing,
{
    let p = living_on(sweep.nodes@[sweep.index as int].mill_id@);
    let chosen = select(fsm.allocs@, p);
    lemma_selected(fsm.allocs@, p);
    assert(p(fsm.allocs@[i]));
    let k = chosen.index_of(fsm.allocs@[i]);
    assert(next.allocs@[k].alloc_id == fsm.allocs@[i].id);
}

/// The allocations of a node that was marked as down are recorded as failed
/// one after another: the work goes on to another node, or ends, only when
/// none is left.
pub proof fn no_allocation_of_a_silent_node_is_left_out(
    sweep: Sweep,
    event: SweepEvent,
    next: Sweep,
    action: SweepAction,
    before: Map<Seq<char>, RestartState>,
    after: Map<Seq<char>, RestartState>,
    k: usize,
)
    requires
        sweep.wf(),
        sweep.phase == (SweepPhase::Failing { index: k }),
        sweep_step(sweep, event, next, action, before, after),
    ensures
        if k + 1 < sweep.allocs@.len() {
            &&& next.phase == (SweepPhase::Failing { index: (k + 1) as usize })
            &&& is_node_down_record(action, sweep.allocs@[k + 1])
        } else {
            next.index == sweep.index + 1
        },
{
}

/// A peer of the mesh.
#[derive(Debug, PartialEq, Eq)]
pub struct PeerInfo {
    pub node_id: NodeId,
    pub public_key: String,
    pub endpoint: Option<SocketAddr>,
    pub tunnel_ip: IpAddr,
}

/// Entries about the node with the given number.
pub open spec fn status_entry(raft_id: u64) -> spec_fn((u64, NodeStatus)) -> bool {
    |e: (u64, NodeStatus)| e.0 == raft_id
}

/// Nodes that were down, take work again and have a public key.
pub open spec fn recovered(prev: Seq<(u64, NodeStatus)>) -> spec_fn(FsmNode) -> bool {
    |n: FsmNode|
        {
            &&& first(prev, status_entry(n.raft_id)) is Some
            &&& (first(prev, status_entry(n.raft_id))->0).1 is Down
            &&& n.status is Ready
            &&& n.wireguard_pubkey is Some
        }
}

/// Nodes as peers of the mesh.
pub open spec fn as_peers(nodes: Seq<FsmNode>) -> Seq<PeerInfo> {
    Seq::new(
        nodes.len(),
        |i: int|
            PeerInfo {
                node_id: nodes[i].mill_id,
                public_key: nodes[i].wireguard_pubkey->0,
                endpoint: None,
                tunnel_ip: nodes[i].address.ip,
            },
    )
}

fn was_down(prev: &Vec<(u64, NodeStatus)>, raft_id: u64) -> (res: bool)
    ensures
        res == (first(prev@, status_entry(raft_id)) is Some && (first(
            prev@,
            status_entry(raft_id),
        )->0).1 is Down),
{
    let mut i: usize = 0;
    while i < prev.len()
        invariant
            i <= prev@.len(),
            forall|j: int| 0 <= j < i ==> !status_entry(raft_id)(#[trigger] prev@[j]),
        decreases prev@.len() - i,
    {
        if prev[i].0 == raft_id {
            proof {
                lemma_is_first(prev@, status_entry(raft_id), i as int);
            }
            return prev[i].1 == NodeStatus::Down;
        }
        i = i + 1;
    }
    proof {
        lemma_is_first(prev@, status_entry(raft_id), i as int);
    }
    false
}

/// Lists the peers to put back into the mesh: nodes that were down when
/// statuses were looked at last, and take work again.
pub fn recovered_peers(fsm: &FsmState, prev: &Vec<(u64, NodeStatus)>) -> (res: Vec<PeerInfo>)
    ensures
        res@ == as_peers(select(fsm.nodes@, recovered(prev@))),
{
    let mut out: Vec<PeerInfo> = Vec::new();
    let ghost p = recovered(prev@);
    let ghost all = fsm.nodes@;
    let mut i: usize = 0;
    assert(as_peers(select(all.take(0), p)) =~= Seq::empty());
    while i < fsm.nodes.len()
        invariant
            i <= all.len(),
            all == fsm.nodes@,
            p == recovered(prev@),
            out@ == as_peers(select(all.take(i as int), p)),
        decreases all.len() - i,
    {
        proof {
            lemma_select_take(all, p, i as int);
        }
        let node = &fsm.nodes[i];
        if was_down(prev, node.raft_id) && node.status == NodeStatus::Ready {
            if let Some(key) = &node.wireguard_pubkey {
                let ghost sel = select(all.take(i as int), p);
                out.push(
                    PeerInfo {
                        node_id: node.mill_id.clone(),
                        public_key: key.clone(),
                        endpoint: None,
                        tunnel_ip: node.address.ip,
                    },
                );
                assert(out@ =~= as_peers(sel.push(all[i as int])));
            }
        }
        i = i + 1;
    }
    assert(all.take(i as int) =~= all);
    out
}

/// The statuses of nodes.
pub open spec fn statuses(nodes: Seq<FsmNode>) -> Seq<(u64, NodeStatus)> {
    Seq::new(nodes.len(), |i: int| (nodes[i].raft_id, nodes[i].status))
}

/// The statuses of the nodes, to compare with at the next look.
pub fn snapshot_statuses(fsm: &FsmState) -> (res: Vec<(u64, NodeStatus)>)
    ensures
        res@ == statuses(fsm.nodes@),
{
    let mut out: Vec<(u64, NodeStatus)> = Vec::new();
    let mut i: usize = 0;
    while i < fsm.nodes.len()
        invariant
            i <= fsm.nodes@.len(),
            out@.len() == i,
            forall|j: int| 0 <= j < i ==> out@[j] == statuses(fsm.nodes@)[j],
        decreases fsm.nodes@.len() - i,
    {
        out.push((fsm.nodes[i].raft_id, fsm.nodes[i].status));
        i = i + 1;
    }
    assert(out@ =~= statuses(fsm.nodes@));
    out
}

/// A look at the mesh: lists the peers to put back where there is a mesh, and
/// remembers the statuses either way.
pub fn reconcile_wireguard_peers(
    fsm: &FsmState,
    has_mesh: bool,
    prev: &mut Vec<(u64, NodeStatus)>,
) -> (res: Vec<PeerInfo>)
    ensures
        res@ == if has_mesh {
            as_peers(select(fsm.nodes@, recovered(old(prev)@)))
        } else {
            Seq::empty()
        },
        final(prev)@ == statuses(fsm.nodes@),
{
    let peers = if has_mesh {
        recovered_peers(fsm, prev)
    } else {
        Vec::new()
    };
    *prev = snapshot_statuses(fsm);
    assert(!has_mesh ==> peers@ =~= Seq::empty());
    peers
}

/// Allocations of the given name that run.
pub open spec fn active_of(name: Seq<char>) -> spec_fn(Alloc) -> bool {
    |a: Alloc| a.name@ == name && a.status.active()
}

/// Allocations of the given name that have not ended.
pub open spec fn living_of(name: Seq<char>) -> spec_fn(Alloc) -> bool {
    |a: Alloc| a.name@ == name && !a.status.terminal()
}

/// What to do about a service.
#[derive(Clone, Copy, Debug, PartialEq, Eq, Structural)]
pub enum RestartDecision {
    /// All replicas run: earlier restarts are forgotten.
    Reset,
    /// Replicas are on their way, or it is too early: nothing changes.
    Wait,
    /// Replicas are missing for the first time: the time is noted.
    Note,
    /// So many replicas are started.
    Restart { needed: u32 },
}

/// How long to wait after so many attempts: the delay for that many, or the
/// last one.
pub open spec fn delay_after(delays: Seq<Duration>, attempts: usize) -> Duration {
    if attempts < delays.len() {
        delays[attempts as int]
    } else {
        delays.last()
    }
}

/// What to do about a service, by how many of its allocations run and have
/// not ended, and by what is remembered of it.
pub open spec fn decision(
    active: nat,
    living: nat,
    replicas: u32,
    state: Option<RestartState>,
    delays: Seq<Duration>,
    now: Instant,
) -> RestartDecision {
    if active >= replicas {
        RestartDecision::Reset
    } else if living >= replicas {
        RestartDecision::Wait
    } else {
        match state {
            None => RestartDecision::Note,
            Some(s) => if now.since(s.last_attempt_at) < delay_after(delays, s.attempts).nanos {
                RestartDecision::Wait
            } else {
                RestartDecision::Restart { needed: (replicas - active) as u32 }
            },
        }
    }
}

/// What is remembered of a service after a decision. Attempts are counted up
/// to the largest number.
pub open spec fn remembered(
    state: Option<RestartState>,
    decision: RestartDecision,
    now: Instant,
) -> Option<RestartState> {
    match decision {
        RestartDecision::Reset => None,
        RestartDecision::Wait => state,
        RestartDecision::Note => Some(RestartState { attempts: 0, last_attempt_at: now }),
        RestartDecision::Restart { .. } => Some(
            RestartState {
                attempts: if state->0.attempts == usize::MAX {
                    usize::MAX
                } else {
                    (state->0.attempts + 1) as usize
                },
                last_attempt_at: now,
            },
        ),
    }
}

/// What is remembered of a name.
pub open spec fn state_of(
    table: Map<Seq<char>, RestartState>,
    name: Seq<char>,
) -> Option<RestartState> {
    if table.dom().contains(name) {
        Some(table[name])
    } else {
        None
    }
}

/// What to do about a service of the configuration.
pub open spec fn decide(
    allocs: Seq<Alloc>,
    service: (String, ServiceDef),
    table: Map<Seq<char>, RestartState>,
    delays: Seq<Duration>,
    now: Instant,
) -> RestartDecision {
    decision(
        select(allocs, active_of(service.0@)).len(),
        select(allocs, living_of(service.0@)).len(),
        service.1.replicas,
        state_of(table, service.0@),
        delays,
        now,
    )
}

/// Replicas of a service to start: its place in the configuration, its name
/// and how many.
#[derive(Debug, PartialEq, Eq)]
pub struct RestartOrder {
    pub index: usize,
    pub name: String,
    pub needed: u32,
}

/// The replicas to start, service by service.
pub open spec fn orders(
    allocs: Seq<Alloc>,
    services: Seq<(String, ServiceDef)>,
    table: Map<Seq<char>, RestartState>,
    delays: Seq<Duration>,
    now: Instant,
) -> Seq<RestartOrder>
    decreases services.len(),
{
    if services.len() == 0 {
        Seq::empty()
    } else {
        let before = orders(allocs, services.drop_last(), table, delays, now);
        match decide(allocs, services.last(), table, delays, now) {
            RestartDecision::Restart { needed } => before.push(
                RestartOrder {
                    index: (services.len() - 1) as usize,
                    name: services.last().0,
                    needed,
                },
            ),
            _ => before,
        }
    }
}

/// The services of the configuration.
pub open spec fn services_in(fsm: FsmState) -> Seq<(String, ServiceDef)> {
    match fsm.config {
        Some(c) => c.services@,
        None => Seq::empty(),
    }
}

/// How many allocations of a name run, and how many have not ended.
fn count_allocs(fsm: &FsmState, name: &String) -> (res: (usize, usize))
    ensures
        res.0 == select(fsm.allocs@, active_of(name@)).len(),
        res.1 == select(fsm.allocs@, living_of(name@)).len(),
{
    let mut active: usize = 0;
    let mut living: usize = 0;
    let mut i: usize = 0;
    let ghost all = fsm.allocs@;
    while i < fsm.allocs.len()
        invariant
            i <= all.len(),
            all == fsm.allocs@,
            active <= i,
            living <= i,
            active == select(all.take(i as int), active_of(name@)).len(),
            living == select(all.take(i as int), living_of(name@)).len(),
        decreases all.len() - i,
    {
        proof {
            lemma_select_take(all, active_of(name@), i as int);
            lemma_select_take(all, living_of(name@), i as int);
        }
        if fsm.allocs[i].name == *name {
            if fsm.allocs[i].status.is_active() {
                active = active + 1;
            }
            if !fsm.allocs[i].status.is_terminal() {
                living = living + 1;
            }
        }
        i = i + 1;
    }
    assert(all.take(i as int) =~= all);
    (active, living)
}

/// Decides what to do about a service.
pub fn decide_restart(
    active: usize,
    living: usize,
    replicas: u32,
    state: Option<RestartState>,
    delays: &Vec<Duration>,
    now: Instant,
) -> (res: RestartDecision)
    requires
        delays@.len() > 0,
    ensures
        res == decision(active as nat, living as nat, replicas, state, delays@, now),
{
    if active as u64 >= replicas as u64 {
        return RestartDecision::Reset;
    }
    if living as u64 >= replicas as u64 {
        return RestartDecision::Wait;
    }
    match state {
        None => RestartDecision::Note,
        Some(s) => {
            let index: usize = if s.attempts < delays.len() {
                s.attempts
            } else {
                delays.len() - 1
            };
            if now.duration_since(s.last_attempt_at).nanos < delays[index].nanos {
                RestartDecision::Wait
            } else {
                RestartDecision::Restart { needed: replicas - active as u32 }
            }
        },
    }
}

fn remember(state: Option<RestartState>, decision: RestartDecision, now: Instant) -> (res: Option<
    RestartState,
>)
    requires
        decision is Restart ==> state is Some,
    ensures
        res == remembered(state, decision, now),
{
    match (decision, state) {
        (RestartDecision::Reset, _) => None,
        (RestartDecision::Wait, _) => state,
        (RestartDecision::Note, _) => Some(RestartState { attempts: 0, last_attempt_at: now }),
        (RestartDecision::Restart { .. }, Some(s)) => Some(
            RestartState { attempts: s.attempts.saturating_add(1), last_attempt_at: now },
        ),
        (RestartDecision::Restart { .. }, None) => None,
    }
}

/// Lists the replicas to start of services that have too few, and remembers
/// when. The first time that replicas are missing only the time is noted, so
/// that a deploy under way can finish; of services that are gone nothing is
/// remembered.
pub fn check_service_restarts(
    fsm: &FsmState,
    backoff: &mut Table<RestartState>,
    delays: &Vec<Duration>,
    now: Instant,
) -> (res: Vec<RestartOrder>)
    requires
        fsm.wf(),
        old(backoff).wf(),
        delays@.len() > 0,
    ensures
        final(backoff).wf(),
        res@ == orders(fsm.allocs@, services_in(*fsm), old(backoff)@, delays@, now),
        forall|i: int|
            0 <= i < services_in(*fsm).len() ==> state_of(
                final(backoff)@,
                (#[trigger] services_in(*fsm)[i]).0@,
            ) == remembered(
                state_of(old(backoff)@, services_in(*fsm)[i].0@),
                decide(fsm.allocs@, services_in(*fsm)[i], old(backoff)@, delays@, now),
                now,
            ),
        forall|name: Seq<char>| #[trigger]
            final(backoff)@.dom().contains(name) ==> exists|i: int|
                0 <= i < services_in(*fsm).len() && (#[trigger] services_in(*fsm)[i]).0@ == name,
{
    let mut out: Vec<RestartOrder> = Vec::new();
    let mut next: Table<RestartState> = Table::new();
    let ghost table = backoff@;
    let ghost services = services_in(*fsm);
    if let Some(config) = &fsm.config {
        let mut i: usize = 0;
        while i < config.services.len()
            invariant
                i <= services.len(),
                services == config.services@,
                crate::config::keys_distinct(services),
                backoff@ == table,
                backoff.wf(),
                next.wf(),
                delays@.len() > 0,
                out@ == orders(fsm.allocs@, services.take(i as int), table, delays@, now),
                forall|j: int|
                    0 <= j < i ==> state_of(next@, (#[trigger] services[j]).0@) == remembered(
                        state_of(table, services[j].0@),
                        decide(fsm.allocs@, services[j], table, delays@, now),
                        now,
                    ),
                forall|name: Seq<char>| #[trigger]
                    next@.dom().contains(name) ==> exists|j: int|
                        0 <= j < i && (#[trigger] services[j]).0@ == name,
            decreases services.len() - i,
        {
            let name = &config.services[i].0;
            let (active, living) = count_allocs(fsm, name);
            let state = match backoff.get(name) {
                Some(s) => Some(*s),
                None => None,
            };
            let choice = decide_restart(
                active,
                living,
                config.services[i].1.replicas,
                state,
                delays,
                now,
            );
            let ghost before = next@;
            proof {
                let upto = services.take(i + 1);
                assert(upto.drop_last() =~= services.take(i as int));
                assert(upto.last() == services[i as int]);
                if before.dom().contains(name@) {
                    let j = choose|j: int| 0 <= j < i && (#[trigger] services[j]).0@ == name@;
                    assert(services[j].0@ != services[i as int].0@);
                }
            }
            if let Some(s) = remember(state, choice, now) {
                next.insert(name.clone(), s);
            }
            if let RestartDecision::Restart { needed } = choice {
                out.push(RestartOrder { index: i, name: name.clone(), needed });
            }
            proof {
                assert forall|j: int| 0 <= j < i + 1 implies state_of(
                    next@,
                    (#[trigger] services[j]).0@,
                ) == remembered(
                    state_of(table, services[j].0@),
                    decide(fsm.allocs@, services[j], table, delays@, now),
                    now,
                ) by {
                    if j < i {
                        assert(services[j].0@ != services[i as int].0@);
                    }
                }
                assert forall|n: Seq<char>| #[trigger] next@.dom().contains(n) implies exists|j: int|
                    0 <= j < i + 1 && (#[trigger] services[j]).0@ == n by {
                    if before.dom().contains(n) {
                        let j = choose|j: int| 0 <= j < i && (#[trigger] services[j]).0@ == n;
                        assert(services[j].0@ == n);
                    } else {
                        assert(services[i as int].0@ == n);
                    }
                }
            }
            i = i + 1;
        }
        assert(services.take(i as int) =~= services);
    }
    *backoff = next;
    out
}

/// A service is never started again before the delay for its attempts has
/// passed, and never for more replicas than it lacks.
pub proof fn restarts_wait_for_their_delay(
    active: nat,
    living: nat,
    replicas: u32,
    state: Option<RestartState>,
    delays: Seq<Duration>,
    now: Instant,
    needed: u32,
)
    requires
        delays.len() > 0,
        decision(active, living, replicas, state, delays, now) == (RestartDecision::Restart {
            needed,
        }),
    ensures
        state is Some,
        now.since(state->0.last_attempt_at) >= delay_after(delays, state->0.attempts).nanos,
        needed + active == replicas,
        living < replicas,
{
}

/// Only services of the configuration are started again, each as often as was
/// decided for it; a task never is.
pub proof fn only_configured_services_are_restarted(
    fsm: FsmState,
    table: Map<Seq<char>, RestartState>,
    delays: Seq<Duration>,
    now: Instant,
    k: int,
)
    requires
        0 <= k < orders(fsm.allocs@, services_in(fsm), table, delays, now).len(),
    ensures
        ({
            let order = orders(fsm.allocs@, services_in(fsm), table, delays, now)[k];
            &&& fsm.config is Some
            &&& order.index < fsm.config->0.services@.len()
            &&& order.name == fsm.config->0.services@[order.index as int].0
            &&& decide(
                fsm.allocs@,
                fsm.config->0.services@[order.index as int],
                table,
                delays,
                now,
            ) == (RestartDecision::Restart { needed: order.needed })
        }),
{
    if let Some(config) = fsm.config {
        assert(config.services@.len() == config.services.len());
        lemma_orders(fsm.allocs@, config.services@, table, delays, now, k);
    }
}

proof fn lemma_orders(
    allocs: Seq<Alloc>,
    services: Seq<(String, ServiceDef)>,
    table: Map<Seq<char>, RestartState>,
    delays: Seq<Duration>,
    now: Instant,
    k: int,
)
    requires
        services.len() <= usize::MAX,
        0 <= k < orders(allocs, services, table, delays, now).len(),
    ensures
        ({
            let order = orders(allocs, services, table, delays, now)[k];
            &&& order.index < services.len()
            &&& order.name == services[order.index as int].0
            &&& decide(allocs, services[order.index as int], table, delays, now) == (
            RestartDecision::Restart { needed: order.needed })
        }),
    decreases services.len(),
{
    let before = orders(allocs, services.drop_last(), table, delays, now);
    if k < before.len() {
        lemma_orders(allocs, services.drop_last(), table, delays, now, k);
    }
}

/// A node that was just found is not silent, whatever the timeout above zero.
pub proof fn new_nodes_have_a_grace_period(
    seen: Map<u64, Instant>,
    found: Seq<(u64, Instant)>,
    now: Instant,
    timeout: Duration,
    node: FsmNode,
)
    requires
        !seen.dom().contains(node.raft_id),
        found_at(found, node.raft_id) == Some(now) || found_at(found, node.raft_id) is None,
        timeout.nanos > 0,
    ensures
        !silent(seen, found, now, timeout)(node),
{
}

/// A node whose heartbeat is younger than the timeout is not silent.
pub proof fn nodes_heard_of_are_not_silent(
    seen: Map<u64, Instant>,
    found: Seq<(u64, Instant)>,
    now: Instant,
    timeout: Duration,
    node: FsmNode,
)
    requires
        seen.dom().contains(node.raft_id),
        now.since(seen[node.raft_id]) < timeout.nanos,
    ensures
        !silent(seen, found, now, timeout)(node),
{
}

/// The first entry of a number says when the node was found.
proof fn lemma_found_first(found: Seq<(u64, Instant)>, raft_id: u64, f: int)
    requires
        0 <= f < found.len(),
        found[f].0 == raft_id,
        forall|g: int| 0 <= g < f ==> (#[trigger] found[g]).0 != raft_id,
    ensures
        found_at(found, raft_id) == Some(found[f].1),
{
    lemma_is_first(found, entry_for(raft_id), f);
}

/// Silence does not go unnoticed: a node that takes work and was last heard of
/// at least the timeout ago is listed, and so is one that was never heard of and
/// was found at least the timeout ago.
pub proof fn silence_is_noticed(
    nodes: Seq<FsmNode>,
    found: Seq<(u64, Instant)>,
    seen: Map<u64, Instant>,
    now: Instant,
    timeout: Duration,
    listed: Seq<SilentNode>,
    i: int,
)
    requires
        listed == silent_refs(select(nodes, silent(seen, found, now, timeout))),
        0 <= i < nodes.len(),
        nodes[i].status == NodeStatus::Ready,
        ({
            ||| seen.dom().contains(nodes[i].raft_id) && seen[nodes[i].raft_id].nanos
                + timeout.nanos <= now.nanos
            ||| !seen.dom().contains(nodes[i].raft_id) && exists|f: int|
                {
                    &&& 0 <= f < found.len()
                    &&& (#[trigger] found[f]).0 == nodes[i].raft_id
                    &&& forall|g: int| 0 <= g < f ==> (#[trigger] found[g]).0 != nodes[i].raft_id
                    &&& found[f].1.nanos + timeout.nanos <= now.nanos
                }
        }),
    ensures
        exists|k: int|
            0 <= k < listed.len() && (#[trigger] listed[k]).raft_id == nodes[i].raft_id
                && listed[k].mill_id == nodes[i].mill_id,
{
    let id = nodes[i].raft_id;
    let p = silent(seen, found, now, timeout);
    if !seen.dom().contains(id) {
        let f = choose|f: int|
            {
                &&& 0 <= f < found.len()
                &&& (#[trigger] found[f]).0 == id
                &&& forall|g: int| 0 <= g < f ==> (#[trigger] found[g]).0 != id
                &&& found[f].1.nanos + timeout.nanos <= now.nanos
            };
        lemma_found_first(found, id, f);
    }
    assert(p(nodes[i]));
    lemma_selected(nodes, p);
    let k = select(nodes, p).index_of(nodes[i]);
    assert(listed[k].raft_id == id);
}

/// No node is given up too soon: every listed one takes work, and has not been
/// heard of for the timeout, nor, where it was never heard of, found within it.
pub proof fn only_silence_is_noticed(
    nodes: Seq<FsmNode>,
    found: Seq<(u64, Instant)>,
    seen: Map<u64, Instant>,
    now: Instant,
    timeout: Duration,
    listed: Seq<SilentNode>,
    k: int,
)
    requires
        listed == silent_refs(select(nodes, silent(seen, found, now, timeout))),
        0 <= k < listed.len(),
        timeout.nanos > 0,
    ensures
        exists|i: int|
            {
                &&& 0 <= i < nodes.len()
                &&& (#[trigger] nodes[i]).raft_id == listed[k].raft_id
                &&& nodes[i].mill_id == listed[k].mill_id
                &&& nodes[i].status == NodeStatus::Ready
            },
        seen.dom().contains(listed[k].raft_id) ==> seen[listed[k].raft_id].nanos + timeout.nanos
            <= now.nanos,
        !seen.dom().contains(listed[k].raft_id) ==> exists|f: int|
            0 <= f < found.len() && (#[trigger] found[f]).0 == listed[k].raft_id
                && found[f].1.nanos + timeout.nanos <= now.nanos,
{
    let p = silent(seen, found, now, timeout);
    lemma_selected(nodes, p);
    let node = select(nodes, p)[k];
    assert(p(node));
    let i = nodes.index_of(node);
    assert(nodes[i] == node);
    lemma_first_index(found, entry_for(node.raft_id));
}

/// Keeping track of nodes: each node has a time at which it was found, the one
/// it had before or else this moment; no other node has one; and a heartbeat is
/// forgotten exactly where its node was known and is gone.
pub proof fn tracked_nodes_are_those_there_are(
    nodes: Seq<FsmNode>,
    found: Seq<(u64, Instant)>,
    found_after: Seq<(u64, Instant)>,
    seen: Map<u64, Instant>,
    seen_after: Map<u64, Instant>,
    now: Instant,
    id: u64,
)
    requires
        forall|raft_id: u64| #[trigger]
            found_at(found_after, raft_id) == found_since(nodes, found, now, raft_id),
        seen_after == seen.remove_keys(gone(nodes, found)),
    ensures
        (exists|k: int| 0 <= k < found_after.len() && (#[trigger] found_after[k]).0 == id) <==> (
        exists|i: int| 0 <= i < nodes.len() && (#[trigger] nodes[i]).raft_id == id),
        forall|k: int, f: int|
            {
                &&& 0 <= k < found_after.len()
                &&& (#[trigger] found_after[k]).0 == id
                &&& forall|m: int| 0 <= m < k ==> (#[trigger] found_after[m]).0 != id
                &&& 0 <= f < found.len()
                &&& (#[trigger] found[f]).0 == id
                &&& forall|g: int| 0 <= g < f ==> (#[trigger] found[g]).0 != id
            } ==> found_after[k].1 == found[f].1,
        (forall|f: int| 0 <= f < found.len() ==> (#[trigger] found[f]).0 != id) ==> forall|k: int|
            0 <= k < found_after.len() && (#[trigger] found_after[k]).0 == id && (forall|m: int|
                0 <= m < k ==> (#[trigger] found_after[m]).0 != id) ==> found_after[k].1 == now,
        seen_after.dom().contains(id) <==> seen.dom().contains(id) && !((exists|f: int|
            0 <= f < found.len() && (#[trigger] found[f]).0 == id) && !(exists|i: int|
            0 <= i < nodes.len() && (#[trigger] nodes[i]).raft_id == id)),
        seen_after.dom().contains(id) ==> seen_after[id] == seen[id],
{
    lemma_found_in(found, id);
    lemma_found_in(found_after, id);
    assert(found_at(found_after, id) == found_since(nodes, found, now, id));
    assert forall|k: int|
        0 <= k < found_after.len() && (#[trigger] found_after[k]).0 == id && (forall|m: int|
            0 <= m < k ==> (#[trigger] found_after[m]).0 != id) implies found_at(found_after, id)
        == Some(found_after[k].1) by {
        lemma_found_first(found_after, id, k);
    }
    assert forall|f: int|
        0 <= f < found.len() && (#[trigger] found[f]).0 == id && (forall|g: int|
            0 <= g < f ==> (#[trigger] found[g]).0 != id) implies found_at(found, id) == Some(
        found[f].1,
    ) by {
        lemma_found_first(found, id, f);
    }
}

/// What a whole sweep is made of: its states, what came of its actions, the
/// actions, each of which is asked for in the state of the same place and
/// answered by the event of the same place, and what is remembered of restarts
/// before and after each step.
pub struct SweepRun {
    pub sweeps: Seq<Sweep>,
    pub events: Seq<SweepEvent>,
    pub actions: Seq<SweepAction>,
    pub before: Seq<Map<Seq<char>, RestartState>>,
    pub after: Seq<Map<Seq<char>, RestartState>>,
}

/// Proposals to mark a node as down.
pub open spec fn downs() -> spec_fn(SweepAction) -> bool {
    |action: SweepAction| action matches SweepAction::Propose(Command::NodeDown { .. })
}

/// One proposal for each silent node, that it is down.
pub open spec fn down_each(nodes: Seq<SilentNode>) -> Seq<SweepAction> {
    Seq::new(
        nodes.len(),
        |i: int| SweepAction::Propose(Command::NodeDown { id: nodes[i].raft_id }),
    )
}

impl SweepRun {
    /// Whether the run begins and goes on as it should.
    pub open spec fn wf(self) -> bool {
        &&& self.sweeps.len() == self.events.len() + 1
        &&& self.actions.len() == self.events.len() + 1
        &&& self.before.len() == self.events.len()
        &&& self.after.len() == self.events.len()
        &&& self.sweeps[0].wf()
        &&& sweeps_from(self.sweeps[0], 0, self.actions[0])
        &&& forall|i: int|
            0 <= i < self.events.len() ==> self.sweeps[i + 1].wf() && sweep_step(
                self.sweeps[i],
                #[trigger] self.events[i],
                self.sweeps[i + 1],
                self.actions[i + 1],
                self.before[i],
                self.after[i],
            )
    }

    /// How many nodes have been marked by the given place.
    spec fn marked(self, n: int) -> int {
        let s = self.sweeps[n];
        if s.phase is ReadingKey || s.phase is Ended {
            s.index as int
        } else {
            s.index + 1
        }
    }

    proof fn lemma_marked(self, n: int)
        requires
            self.wf(),
            0 <= n < self.sweeps.len(),
        ensures
            self.sweeps[n].wf(),
            self.sweeps[n].nodes == self.sweeps[0].nodes,
            self.sweeps[n].phase is Ended ==> self.sweeps[n].index >= self.sweeps[n].nodes@.len(),
            self.sweeps[n].index <= self.sweeps[n].nodes@.len(),
            select(self.actions.take(n + 1), downs()) == down_each(self.sweeps[0].nodes@).take(
                self.marked(n),
            ),
        decreases n,
    {
        lemma_select_take(self.actions, downs(), n);
        if n > 0 {
            self.lemma_marked(n - 1);
            let e = self.events[n - 1];
            let now = self.sweeps[n];
            assert(now.nodes@.len() == now.nodes.len());
        } else {
            assert(self.actions.take(0) =~= Seq::empty());
        }
        assert(select(self.actions.take(n + 1), downs()) =~= down_each(
            self.sweeps[0].nodes@,
        ).take(self.marked(n)));
    }

    /// A sweep proposes of every silent node that it is down, of each once and
    /// in their order, and of no other node.
    pub proof fn every_silent_node_is_marked_down(self)
        requires
            self.wf(),
            self.actions.last() is Finished,
        ensures
            select(self.actions, downs()) == down_each(self.sweeps[0].nodes@),
    {
        let n = self.sweeps.len() - 1;
        self.lemma_marked(n);
        if n > 0 {
            let e = self.events[n - 1];
        }
        assert(self.actions.take(n + 1) =~= self.actions);
        assert(down_each(self.sweeps[0].nodes@).take(self.marked(n)) =~= down_each(
            self.sweeps[0].nodes@,
        ));
    }
}

/// A node that could be marked as down leaves the mesh, where there is one and
/// the node has a key, by just that key, and its allocations are looked for; one
/// that could not be marked is left as it is.
pub proof fn marked_nodes_leave_the_mesh(
    sweep: Sweep,
    outcome: Proposed,
    next: Sweep,
    action: SweepAction,
    before: Map<Seq<char>, RestartState>,
    after: Map<Seq<char>, RestartState>,
)
    requires
        sweep.phase is Marking,
        sweep_step(sweep, SweepEvent::Proposed(outcome), next, action, before, after),
    ensures
        after == before,
        outcome is Unreached <==> next.index == sweep.index + 1,
        !(outcome is Unreached) && sweep.has_mesh && sweep.public_key is Some ==> action == (
        SweepAction::RemovePeer { public_key: sweep.public_key->0 }),
        !(outcome is Unreached) && !(sweep.has_mesh && sweep.public_key is Some) ==> action
            == SweepAction::ReadState && next.phase is Listing,
{
}

/// The key by which a node is taken out of the mesh is its own.
pub proof fn silent_nodes_go_by_their_own_key(
    sweep: Sweep,
    fsm: FsmState,
    next: Sweep,
    action: SweepAction,
    before: Map<Seq<char>, RestartState>,
    after: Map<Seq<char>, RestartState>,
)
    requires
        sweep.phase is ReadingKey,
        sweep_step(sweep, SweepEvent::State(fsm), next, action, before, after),
    ensures
        action == SweepAction::Propose(
            Command::NodeDown { id: sweep.nodes@[sweep.index as int].raft_id },
        ),
        next.public_key matches Some(key) ==> exists|i: int|
            0 <= i < fsm.nodes@.len() && (#[trigger] fsm.nodes@[i]).raft_id
                == sweep.nodes@[sweep.index as int].raft_id && fsm.nodes@[i].wireguard_pubkey
                == Some(key),
        next.public_key is None ==> forall|i: int|
            0 <= i < fsm.nodes@.len() && (#[trigger] fsm.nodes@[i]).raft_id
                == sweep.nodes@[sweep.index as int].raft_id && (forall|j: int|
                0 <= j < i ==> (#[trigger] fsm.nodes@[j]).raft_id
                    != sweep.nodes@[sweep.index as int].raft_id)
                ==> fsm.nodes@[i].wireguard_pubkey is None,
        after == before,
{
    nodes_are_found_by_number(fsm.nodes@, sweep.nodes@[sweep.index as int].raft_id);
}

/// The allocations that are given up with a node are exactly those on it that
/// have neither stopped nor failed, and each is recorded as failed because the
/// node is down; of its service, where it is one, the earlier restarts are
/// forgotten.
pub proof fn allocations_fail_with_their_node(
    sweep: Sweep,
    event: SweepEvent,
    next: Sweep,
    action: SweepAction,
    before: Map<Seq<char>, RestartState>,
    after: Map<Seq<char>, RestartState>,
)
    requires
        sweep.wf(),
        next.wf(),
        sweep_step(sweep, event, next, action, before, after),
    ensures
        sweep.phase is Listing ==> {
            let fsm = event->State_0;
            let node = sweep.nodes@[sweep.index as int].mill_id@;
            &&& after == before
            &&& forall|i: int|
                0 <= i < fsm.allocs@.len() && (#[trigger] fsm.allocs@[i]).node@ == node && !(
                fsm.allocs@[i].status is Stopped) && !(fsm.allocs@[i].status is Failed)
                    ==> exists|k: int|
                    0 <= k < next.allocs@.len() && (#[trigger] next.allocs@[k]).alloc_id
                        == fsm.allocs@[i].id && next.allocs@[k].name == fsm.allocs@[i].name
                        && next.allocs@[k].kind == fsm.allocs@[i].kind
            &&& forall|k: int|
                0 <= k < next.allocs@.len() ==> exists|i: int|
                    {
                        &&& 0 <= i < fsm.allocs@.len()
                        &&& (#[trigger] fsm.allocs@[i]).id == (
                        #[trigger] next.allocs@[k]).alloc_id
                        &&& fsm.allocs@[i].node@ == node
                        &&& !(fsm.allocs@[i].status is Stopped)
                        &&& !(fsm.allocs@[i].status is Failed)
                        &&& fsm.allocs@[i].name == next.allocs@[k].name
                        &&& fsm.allocs@[i].kind == next.allocs@[k].kind
                    }
        },
        next.phase matches SweepPhase::Failing { index } ==> (action matches SweepAction::Propose(
            Command::AllocStatus { alloc_id, status },
        ) && alloc_id == next.allocs@[index as int].alloc_id && (
        status matches AllocStatus::Failed { reason } && reason@ == "node down"@)),
        sweep.phase matches SweepPhase::Failing { index } ==> {
            &&& sweep.allocs@[index as int].kind == AllocKind::Service ==> after == before.remove(
                sweep.allocs@[index as int].name@,
            )
            &&& sweep.allocs@[index as int].kind == AllocKind::Task ==> after == before
        },
{
    assert(next.allocs@.len() == next.allocs.len());
    assert(next.nodes@.len() == next.nodes.len());
    if sweep.phase is Listing {
        let fsm = event->State_0;
        let node = sweep.nodes@[sweep.index as int].mill_id@;
        let p = living_on(node);
        lemma_selected(fsm.allocs@, p);
        let chosen = select(fsm.allocs@, p);
        assert forall|i: int|
            0 <= i < fsm.allocs@.len() && (#[trigger] fsm.allocs@[i]).node@ == node && !(
            fsm.allocs@[i].status is Stopped) && !(
            fsm.allocs@[i].status is Failed) implies exists|k: int|
            0 <= k < next.allocs@.len() && (#[trigger] next.allocs@[k]).alloc_id
                == fsm.allocs@[i].id && next.allocs@[k].name == fsm.allocs@[i].name
                && next.allocs@[k].kind == fsm.allocs@[i].kind by {
            assert(p(fsm.allocs@[i]));
            let k = chosen.index_of(fsm.allocs@[i]);
            assert(next.allocs@[k].alloc_id == fsm.allocs@[i].id);
        }
        assert forall|k: int| 0 <= k < next.allocs@.len() implies exists|i: int|
            {
                &&& 0 <= i < fsm.allocs@.len()
                &&& (#[trigger] fsm.allocs@[i]).id == (#[trigger] next.allocs@[k]).alloc_id
                &&& fsm.allocs@[i].node@ == node
                &&& !(fsm.allocs@[i].status is Stopped)
                &&& !(fsm.allocs@[i].status is Failed)
                &&& fsm.allocs@[i].name == next.allocs@[k].name
                &&& fsm.allocs@[i].kind == next.allocs@[k].kind
            } by {
            assert(p(chosen[k]));
            let i = fsm.allocs@.index_of(chosen[k]);
            assert(fsm.allocs@[i] == chosen[k]);
        }
    }
}

/// Nodes that come back are put into the mesh again, and only those: a peer
/// stands for a node that was down at the last look, takes work and has a key,
/// with that key and the address of that node.
pub proof fn nodes_that_come_back_are_peers(
    nodes: Seq<FsmNode>,
    prev: Seq<(u64, NodeStatus)>,
    peers: Seq<PeerInfo>,
)
    requires
        peers == as_peers(select(nodes, recovered(prev))),
    ensures
        forall|i: int, q: int|
            {
                &&& 0 <= i < nodes.len()
                &&& 0 <= q < prev.len()
                &&& (#[trigger] prev[q]).0 == (#[trigger] nodes[i]).raft_id
                &&& forall|r: int| 0 <= r < q ==> (#[trigger] prev[r]).0 != nodes[i].raft_id
                &&& prev[q].1 == NodeStatus::Down
                &&& nodes[i].status == NodeStatus::Ready
                &&& nodes[i].wireguard_pubkey is Some
            } ==> exists|k: int|
                0 <= k < peers.len() && (#[trigger] peers[k]).node_id == nodes[i].mill_id
                    && nodes[i].wireguard_pubkey == Some(peers[k].public_key) && peers[k].tunnel_ip
                    == nodes[i].address.ip,
        forall|k: int|
            0 <= k < peers.len() ==> (#[trigger] peers[k]).endpoint is None && exists|
                i: int,
                q: int,
            |
                {
                    &&& 0 <= i < nodes.len()
                    &&& 0 <= q < prev.len()
                    &&& (#[trigger] prev[q]).0 == (#[trigger] nodes[i]).raft_id
                    &&& prev[q].1 == NodeStatus::Down
                    &&& nodes[i].status == NodeStatus::Ready
                    &&& nodes[i].wireguard_pubkey == Some(peers[k].public_key)
                    &&& nodes[i].mill_id == peers[k].node_id
                    &&& nodes[i].address.ip == peers[k].tunnel_ip
                },
{
    let p = recovered(prev);
    let chosen = select(nodes, p);
    lemma_selected(nodes, p);
    assert forall|i: int, q: int|
        {
            &&& 0 <= i < nodes.len()
            &&& 0 <= q < prev.len()
            &&& (#[trigger] prev[q]).0 == (#[trigger] nodes[i]).raft_id
            &&& forall|r: int| 0 <= r < q ==> (#[trigger] prev[r]).0 != nodes[i].raft_id
            &&& prev[q].1 == NodeStatus::Down
            &&& nodes[i].status == NodeStatus::Ready
            &&& nodes[i].wireguard_pubkey is Some
        } implies exists|k: int|
        0 <= k < peers.len() && (#[trigger] peers[k]).node_id == nodes[i].mill_id
            && nodes[i].wireguard_pubkey == Some(peers[k].public_key) && peers[k].tunnel_ip
            == nodes[i].address.ip by {
        lemma_is_first(prev, status_entry(nodes[i].raft_id), q);
        assert(p(nodes[i]));
        let k = chosen.index_of(nodes[i]);
        assert(peers[k].node_id == nodes[i].mill_id);
    }
    assert forall|k: int| 0 <= k < peers.len() implies (#[trigger] peers[k]).endpoint is None
        && exists|i: int, q: int|
        {
            &&& 0 <= i < nodes.len()
            &&& 0 <= q < prev.len()
            &&& (#[trigger] prev[q]).0 == (#[trigger] nodes[i]).raft_id
            &&& prev[q].1 == NodeStatus::Down
            &&& nodes[i].status == NodeStatus::Ready
            &&& nodes[i].wireguard_pubkey == Some(peers[k].public_key)
            &&& nodes[i].mill_id == peers[k].node_id
            &&& nodes[i].address.ip == peers[k].tunnel_ip
        } by {
        assert(p(chosen[k]));
        let i = nodes.index_of(chosen[k]);
        assert(nodes[i] == chosen[k]);
        lemma_first_index(prev, status_entry(nodes[i].raft_id));
        let q = first_index(prev, status_entry(nodes[i].raft_id));
        assert(prev[q].0 == nodes[i].raft_id);
    }
}

/// The statuses that are remembered are those of the nodes, each with its own.
pub proof fn remembered_statuses_are_those_of_the_nodes(nodes: Seq<FsmNode>)
    ensures
        statuses(nodes).len() == nodes.len(),
        forall|i: int|
            0 <= i < nodes.len() ==> (#[trigger] statuses(nodes)[i]).0 == nodes[i].raft_id
                && statuses(nodes)[i].1 == nodes[i].status,
{
}

/// How many allocations of a service run: those that are running or healthy.
pub open spec fn how_many_run(allocs: Seq<Alloc>, name: Seq<char>) -> nat
    decreases allocs.len(),
{
    if allocs.len() == 0 {
        0
    } else {
        let a = allocs.last();
        how_many_run(allocs.drop_last(), name) + if a.name@ == name && (a.status is Running
            || a.status is Healthy) {
            1nat
        } else {
            0
        }
    }
}

/// How many allocations of a service have neither stopped nor failed.
pub open spec fn how_many_live(allocs: Seq<Alloc>, name: Seq<char>) -> nat
    decreases allocs.len(),
{
    if allocs.len() == 0 {
        0
    } else {
        let a = allocs.last();
        how_many_live(allocs.drop_last(), name) + if a.name@ == name && !(a.status is Stopped) && !(
        a.status is Failed) {
            1nat
        } else {
            0
        }
    }
}

proof fn lemma_counts(allocs: Seq<Alloc>, name: Seq<char>)
    ensures
        select(allocs, active_of(name)).len() == how_many_run(allocs, name),
        select(allocs, living_of(name)).len() == how_many_live(allocs, name),
    decreases allocs.len(),
{
    if allocs.len() > 0 {
        lemma_counts(allocs.drop_last(), name);
    }
}

proof fn lemma_ordered(
    allocs: Seq<Alloc>,
    services: Seq<(String, ServiceDef)>,
    table: Map<Seq<char>, RestartState>,
    delays: Seq<Duration>,
    now: Instant,
    i: int,
    needed: u32,
)
    requires
        services.len() <= usize::MAX,
        0 <= i < services.len(),
        decide(allocs, services[i], table, delays, now) == (RestartDecision::Restart { needed }),
    ensures
        exists|k: int|
            {
                &&& 0 <= k < orders(allocs, services, table, delays, now).len()
                &&& (#[trigger] orders(allocs, services, table, delays, now)[k]).index == i
                &&& orders(allocs, services, table, delays, now)[k].name == services[i].0
                &&& orders(allocs, services, table, delays, now)[k].needed == needed
            },
    decreases services.len(),
{
    let all = orders(allocs, services, table, delays, now);
    if i < services.len() - 1 {
        let rest = services.drop_last();
        let before = orders(allocs, rest, table, delays, now);
        assert(rest[i] == services[i]);
        lemma_ordered(allocs, rest, table, delays, now, i, needed);
        let k = choose|k: int|
            {
                &&& 0 <= k < before.len()
                &&& (#[trigger] before[k]).index == i
                &&& before[k].name == rest[i].0
                &&& before[k].needed == needed
            };
        assert(all[k] == before[k]);
    } else {
        assert(all[all.len() - 1].index == i);
    }
}

/// Missing replicas are started again: a service that lacks replicas, none of
/// which are on their way, and whose delay since the last attempt has passed, is
/// ordered exactly as many as it lacks of running ones.
pub proof fn missing_replicas_are_ordered(
    fsm: FsmState,
    table: Map<Seq<char>, RestartState>,
    delays: Seq<Duration>,
    now: Instant,
    ordered: Seq<RestartOrder>,
    i: int,
)
    requires
        ordered == orders(fsm.allocs@, services_in(fsm), table, delays, now),
        delays.len() > 0,
        fsm.config is Some,
        0 <= i < fsm.config->0.services@.len(),
        ({
            let (name, def) = fsm.config->0.services@[i];
            &&& how_many_live(fsm.allocs@, name@) < def.replicas
            &&& how_many_run(fsm.allocs@, name@) < def.replicas
            &&& table.dom().contains(name@)
            &&& table[name@].last_attempt_at.nanos + delays[if table[name@].attempts
                < delays.len() {
                table[name@].attempts as int
            } else {
                delays.len() - 1
            }].nanos <= now.nanos
        }),
    ensures
        exists|k: int|
            {
                &&& 0 <= k < ordered.len()
                &&& (#[trigger] ordered[k]).name@ == fsm.config->0.services@[i].0@
                &&& ordered[k].index == i
                &&& ordered[k].needed + how_many_run(
                    fsm.allocs@,
                    fsm.config->0.services@[i].0@,
                ) == fsm.config->0.services@[i].1.replicas
            },
{
    let config = fsm.config->0;
    let (name, def) = config.services@[i];
    lemma_counts(fsm.allocs@, name@);
    assert(config.services@.len() == config.services.len());
    let needed = (def.replicas - how_many_run(fsm.allocs@, name@)) as u32;
    lemma_ordered(fsm.allocs@, config.services@, table, delays, now, i, needed);
    let k = choose|k: int|
        {
            &&& 0 <= k < ordered.len()
            &&& (#[trigger] ordered[k]).index == i
            &&& ordered[k].name == config.services@[i].0
            &&& ordered[k].needed == needed
        };
    assert(ordered[k].name@ == name@);
}

/// Nothing is started needlessly or too soon: an order is for a service of the
/// configuration that has fewer running and fewer living allocations than
/// replicas, for exactly as many as it lacks of running ones, and after the
/// delay since its last attempt.
pub proof fn orders_are_due(
    fsm: FsmState,
    table: Map<Seq<char>, RestartState>,
    delays: Seq<Duration>,
    now: Instant,
    ordered: Seq<RestartOrder>,
    k: int,
)
    requires
        ordered == orders(fsm.allocs@, services_in(fsm), table, delays, now),
        delays.len() > 0,
        0 <= k < ordered.len(),
    ensures
        fsm.config is Some,
        ordered[k].index < fsm.config->0.services@.len(),
        ({
            let (name, def) = fsm.config->0.services@[ordered[k].index as int];
            let run = how_many_run(fsm.allocs@, name@);
            &&& ordered[k].name == name
            &&& ordered[k].needed > 0
            &&& ordered[k].needed + run == def.replicas
            &&& how_many_live(fsm.allocs@, name@) < def.replicas
            &&& table.dom().contains(name@)
            &&& now.nanos >= table[name@].last_attempt_at.nanos + delays[if table[name@].attempts
                < delays.len() {
                table[name@].attempts as int
            } else {
                delays.len() - 1
            }].nanos || delays[if table[name@].attempts < delays.len() {
                table[name@].attempts as int
            } else {
                delays.len() - 1
            }].nanos == 0
        }),
{
    only_configured_services_are_restarted(fsm, table, delays, now, k);
    let (name, def) = fsm.config->0.services@[ordered[k].index as int];
    lemma_counts(fsm.allocs@, name@);
}

/// What is remembered of a service keeps the delays growing: nothing while all
/// its replicas run; the moment at which they first went missing; one more
/// attempt, at this moment, with each restart; and what was remembered otherwise.
pub proof fn attempts_are_counted(
    allocs: Seq<Alloc>,
    service: (String, ServiceDef),
    table: Map<Seq<char>, RestartState>,
    delays: Seq<Duration>,
    now: Instant,
    after: Option<RestartState>,
)
    requires
        after == remembered(
            state_of(table, service.0@),
            decide(allocs, service, table, delays, now),
            now,
        ),
    ensures
        how_many_run(allocs, service.0@) >= service.1.replicas ==> after is None,
        how_many_run(allocs, service.0@) < service.1.replicas && how_many_live(allocs, service.0@)
            >= service.1.replicas ==> (after is Some <==> table.dom().contains(service.0@)) && (
        after is Some ==> after == Some(table[service.0@])),
        how_many_run(allocs, service.0@) < service.1.replicas && how_many_live(allocs, service.0@)
            < service.1.replicas && !table.dom().contains(service.0@) ==> after == Some(
            RestartState { attempts: 0, last_attempt_at: now },
        ),
        how_many_run(allocs, service.0@) < service.1.replicas && how_many_live(allocs, service.0@)
            < service.1.replicas && table.dom().contains(service.0@) ==> {
            let was = table[service.0@];
            let delay = delays[if was.attempts < delays.len() {
                was.attempts as int
            } else {
                delays.len() - 1
            }];
            if was.last_attempt_at.nanos + delay.nanos <= now.nanos || delay.nanos == 0 {
                &&& after is Some
                &&& after->0.last_attempt_at == now
                &&& after->0.attempts == if was.attempts < usize::MAX {
                    was.attempts + 1
                } else {
                    was.attempts as int
                }
            } else {
                after == Some(was)
            }
        },
{
    lemma_counts(allocs, service.0@);
}

} // verus!
