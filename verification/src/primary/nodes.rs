//! Draining nodes and taking them out of the cluster.
use crate::config::{Alloc, AllocId, AllocKind, NodeId, ServiceDef, VolumeState};
use crate::error::{DeployError, NodeError, StorageError};
use crate::fsm::{
    definitions_are_found_by_name, node_numbered, nodes_are_found_by_number, Command, FsmState,
    FsmVolume, Proposed,
};
use crate::primary::api::sse::Progress;
use crate::primary::deploy::rollout::{alloc_name, alloc_text};
use crate::rpc::protocol::NodeCommand;
use crate::seqs::{lemma_select_take, lemma_selected, select};
use vstd::prelude::*;
use vstd::string::*;

verus! {

/// What the driver is asked to do.
#[derive(Debug, PartialEq, Eq)]
pub enum DrainAction {
    /// Read the replicated state.
    ReadState,
    /// Tell the client.
    Emit(Progress),
    /// Propose a command.
    Propose(Command),
    /// Have the volume detached.
    Detach { name: String },
    /// Make a fresh suffix for an allocation.
    Suffix,
    /// Start an allocation of the service whose definition was looked up.
    StartAlloc { name: String, alloc_id: AllocId },
    /// Send a command to a node.
    Send { node: NodeId, command: NodeCommand },
    /// Nothing: this is the outcome.
    Finished(Result<(), DeployError>),
}

/// What came of an action.
#[derive(Debug, PartialEq, Eq)]
pub enum DrainEvent {
    State(FsmState),
    Emitted,
    Proposed(Proposed),
    Detached(Result<(), StorageError>),
    Suffix(String),
    Started(Result<(), DeployError>),
    Sent(Result<(), NodeError>),
}

/// How far a drain has come.
#[derive(Clone, Copy, Debug, PartialEq, Eq, Structural)]
pub enum DrainPhase {
    /// The node is being marked as draining.
    Marking,
    /// The client hears of the start.
    Announcing,
    /// The volumes on the node are listed.
    ListingVolumes,
    /// A volume is detached.
    Detaching { index: usize },
    /// A volume is being recorded as detached.
    RecordingDetached { index: usize },
    /// The allocations on the node are listed.
    ListingAllocs,
    /// The service of an allocation is looked up.
    LookingUp { index: usize },
    /// The replacement gets a name.
    Naming { index: usize },
    /// The replacement starts.
    Migrating { index: usize },
    /// The client hears that the replacement runs.
    ReportingMigrated { index: usize },
    /// The client hears that the replacement failed.
    ReportingFailed { index: usize },
    /// The allocation on the node is stopped.
    Stopping { index: usize },
    /// The client hears that it is stopped.
    ReportingStopped { index: usize },
    /// The client hears of the end.
    Closing,
    /// The outcome is known.
    Ended,
}

impl DrainPhase {
    /// Whether an event answers the action that led to the phase.
    pub open spec fn expects(self, event: DrainEvent) -> bool {
        match self {
            DrainPhase::Marking => event is Proposed,
            DrainPhase::Announcing => event is Emitted,
            DrainPhase::ListingVolumes => event is State,
            DrainPhase::Detaching { .. } => event is Detached,
            DrainPhase::RecordingDetached { .. } => event is Proposed,
            DrainPhase::ListingAllocs => event is State,
            DrainPhase::LookingUp { .. } => event is State,
            DrainPhase::Naming { .. } => event is Suffix,
            DrainPhase::Migrating { .. } => event is Started,
            DrainPhase::ReportingMigrated { .. } => event is Emitted,
            DrainPhase::ReportingFailed { .. } => event is Emitted,
            DrainPhase::Stopping { .. } => event is Sent,
            DrainPhase::ReportingStopped { .. } => event is Emitted,
            DrainPhase::Closing => event is Emitted,
            DrainPhase::Ended => false,
        }
    }
}

/// An allocation to move away from a node.
#[derive(Debug, PartialEq, Eq)]
pub struct Leaving {
    pub alloc_id: AllocId,
    pub name: String,
    pub kind: AllocKind,
}

/// A drain: the node takes no more work, its volumes are detached, its
/// services are replaced elsewhere before they are stopped, and its tasks are
/// stopped.
#[derive(Debug, PartialEq, Eq)]
pub struct Drain {
    pub node_id: u64,
    pub has_driver: bool,
    pub mill_id: NodeId,
    pub volumes: Vec<String>,
    pub allocs: Vec<Leaving>,
    pub def: Option<ServiceDef>,
    pub phase: DrainPhase,
}

/// The name of the node of the given number; empty where there is none.
pub open spec fn name_of_node(fsm: FsmState, node_id: u64) -> Seq<char> {
    match node_numbered(fsm.nodes@, node_id) {
        Some(n) => n.mill_id@,
        None => Seq::empty(),
    }
}

/// Volumes attached to the named node.
pub open spec fn on_node(node: Seq<char>) -> spec_fn((String, FsmVolume)) -> bool {
    |v: (String, FsmVolume)| v.1.state is Attached && v.1.state->node@ == node
}

/// The names of volumes.
pub open spec fn volume_names(v: Seq<(String, FsmVolume)>) -> Seq<String> {
    Seq::new(v.len(), |i: int| v[i].0)
}

/// Allocations on the named node that have not ended.
pub open spec fn living_on(node: Seq<char>) -> spec_fn(Alloc) -> bool {
    |a: Alloc| a.node@ == node && !a.status.terminal()
}

/// What a drain needs of allocations.
pub open spec fn leaving(allocs: Seq<Alloc>) -> Seq<Leaving> {
    Seq::new(
        allocs.len(),
        |i: int| Leaving { alloc_id: allocs[i].id, name: allocs[i].name, kind: allocs[i].kind },
    )
}

/// The allocations that a drain moves away.
pub open spec fn leaving_node(fsm: FsmState, node_id: u64) -> Seq<Leaving> {
    match node_numbered(fsm.nodes@, node_id) {
        Some(n) => leaving(select(fsm.allocs@, living_on(n.mill_id@))),
        None => Seq::empty(),
    }
}

fn list_attached(fsm: &FsmState, node: &NodeId) -> (res: Vec<String>)
    ensures
        res@ == volume_names(select(fsm.volumes@, on_node(node@))),
{
    let mut out: Vec<String> = Vec::new();
    let ghost all = fsm.volumes@;
    let ghost p = on_node(node@);
    let mut i: usize = 0;
    assert(volume_names(select(all.take(0), p)) =~= Seq::empty());
    while i < fsm.volumes.len()
        invariant
            i <= all.len(),
            all == fsm.volumes@,
            p == on_node(node@),
            out@ == volume_names(select(all.take(i as int), p)),
        decreases all.len() - i,
    {
        proof {
            lemma_select_take(all, p, i as int);
        }
        if let VolumeState::Attached { node: at } = &fsm.volumes[i].1.state {
            if at.same(node) {
                let ghost sel = select(all.take(i as int), p);
                out.push(fsm.volumes[i].0.clone());
                assert(out@ =~= volume_names(sel.push(all[i as int])));
            }
        }
        i = i + 1;
    }
    assert(all.take(i as int) =~= all);
    out
}

/// The allocations on the named node that have not ended.
pub(crate) fn list_living(fsm: &FsmState, node: &NodeId) -> (res: Vec<Leaving>)
    ensures
        res@ == leaving(select(fsm.allocs@, living_on(node@))),
{
    let mut out: Vec<Leaving> = Vec::new();
    let ghost all = fsm.allocs@;
    let ghost p = living_on(node@);
    let mut i: usize = 0;
    assert(leaving(select(all.take(0), p)) =~= Seq::empty());
    while i < fsm.allocs.len()
        invariant
            i <= all.len(),
            all == fsm.allocs@,
            p == living_on(node@),
            out@ == leaving(select(all.take(i as int), p)),
        decreases all.len() - i,
    {
        proof {
            lemma_select_take(all, p, i as int);
        }
        let a = &fsm.allocs[i];
        if a.node.same(node) && !a.status.is_terminal() {
            let ghost sel = select(all.take(i as int), p);
            out.push(Leaving { alloc_id: a.id.clone(), name: a.name.clone(), kind: a.kind });
            assert(out@ =~= leaving(sel.push(all[i as int])));
        }
        i = i + 1;
    }
    assert(all.take(i as int) =~= all);
    out
}

/// Whether a drain goes on with detaching from `index` on.
pub open spec fn detaches_from(drain: Drain, index: int, phase: DrainPhase, action: DrainAction) -> bool {
    if index < drain.volumes@.len() {
        let name = drain.volumes@[index];
        if drain.has_driver {
            phase == (DrainPhase::Detaching { index: index as usize }) && action
                == (DrainAction::Detach { name })
        } else {
            phase == (DrainPhase::RecordingDetached { index: index as usize }) && action
                == DrainAction::Propose(Command::VolumeDetached { name })
        }
    } else {
        phase is ListingAllocs && action is ReadState
    }
}

/// Whether a drain goes on with the allocations from `index` on: services are
/// looked up first, tasks are stopped right away.
pub open spec fn moves_from(drain: Drain, index: int, phase: DrainPhase, action: DrainAction) -> bool {
    if index < drain.allocs@.len() {
        if drain.allocs@[index].kind is Service {
            phase == (DrainPhase::LookingUp { index: index as usize }) && action is ReadState
        } else {
            stops_at(drain, index, phase, action)
        }
    } else {
        phase is Closing && action == DrainAction::Emit(Progress::Done)
    }
}

/// Whether a drain stops the allocation of the given place.
pub open spec fn stops_at(drain: Drain, index: int, phase: DrainPhase, action: DrainAction) -> bool {
    phase == (DrainPhase::Stopping { index: index as usize }) && action == (DrainAction::Send {
        node: drain.mill_id,
        command: NodeCommand::Stop { alloc_id: drain.allocs@[index].alloc_id },
    })
}

/// What one step does: the drain and the action that follow an event.
pub open spec fn drain_step(
    drain: Drain,
    event: DrainEvent,
    next: Drain,
    action: DrainAction,
) -> bool {
    let phase = next.phase;
    let same = next == (Drain { phase, ..drain });
    match (drain.phase, event) {
        (DrainPhase::Marking, DrainEvent::Proposed(outcome)) => same && match outcome {
            Proposed::Applied => phase is Announcing && action == DrainAction::Emit(
                Progress::Started,
            ),
            Proposed::Rejected(e) => phase is Ended && action == DrainAction::Finished(
                Err(DeployError::Node(NodeError::RaftRejected(e))),
            ),
            Proposed::Unreached(e) => phase is Ended && action == DrainAction::Finished(
                Err(DeployError::Node(NodeError::Raft(e))),
            ),
        },
        (DrainPhase::Announcing, DrainEvent::Emitted) => same && phase is ListingVolumes
            && action is ReadState,
        (DrainPhase::ListingVolumes, DrainEvent::State(fsm)) => {
            &&& next == (Drain { volumes: next.volumes, phase, ..drain })
            &&& next.volumes@ == volume_names(
                select(fsm.volumes@, on_node(name_of_node(fsm, drain.node_id))),
            )
            &&& detaches_from(next, 0, phase, action)
        },
        (DrainPhase::Detaching { index }, DrainEvent::Detached(_)) => same && phase == (
        DrainPhase::RecordingDetached { index }) && action == DrainAction::Propose(
            Command::VolumeDetached { name: drain.volumes@[index as int] },
        ),
        (DrainPhase::RecordingDetached { index }, DrainEvent::Proposed(_)) => same
            && detaches_from(drain, index + 1, phase, action),
        (DrainPhase::ListingAllocs, DrainEvent::State(fsm)) => {
            &&& next == (Drain { mill_id: next.mill_id, allocs: next.allocs, phase, ..drain })
            &&& next.mill_id@ == name_of_node(fsm, drain.node_id)
            &&& next.allocs@ == leaving_node(fsm, drain.node_id)
            &&& moves_from(next, 0, phase, action)
        },
        (DrainPhase::LookingUp { index }, DrainEvent::State(fsm)) => match fsm.service(
            drain.allocs@[index as int].name@,
        ) {
            Some(def) => {
                &&& next == (Drain { def: next.def, phase, ..drain })
                &&& next.def is Some
                &&& next.def->0@ == def@
                &&& phase == (DrainPhase::Naming { index })
                &&& action is Suffix
            },
            None => same && stops_at(drain, index as int, phase, action),
        },
        (DrainPhase::Naming { index }, DrainEvent::Suffix(suffix)) => {
            &&& same
            &&& phase == (DrainPhase::Migrating { index })
            &&& action matches DrainAction::StartAlloc { name, alloc_id }
            &&& name == drain.allocs@[index as int].name
            &&& alloc_id@ == alloc_text(name@, suffix@)
        },
        (DrainPhase::Migrating { index }, DrainEvent::Started(outcome)) => same && match outcome {
            Ok(()) => phase == (DrainPhase::ReportingMigrated { index }) && action
                == DrainAction::Emit(
                Progress::Migrated { service: drain.allocs@[index as int].name },
            ),
            Err(e) => {
                &&& phase == (DrainPhase::ReportingFailed { index })
                &&& action matches DrainAction::Emit(Progress::Failed { service, reason })
                &&& service == drain.allocs@[index as int].name
                &&& reason@ == e.message()
            },
        },
        (DrainPhase::ReportingMigrated { index }, DrainEvent::Emitted) => same && stops_at(
            drain,
            index as int,
            phase,
            action,
        ),
        (DrainPhase::ReportingFailed { index }, DrainEvent::Emitted) => same && moves_from(
            drain,
            index + 1,
            phase,
            action,
        ),
        (DrainPhase::Stopping { index }, DrainEvent::Sent(_)) => same && phase == (
        DrainPhase::ReportingStopped { index }) && action == DrainAction::Emit(
            Progress::Stopped { service: drain.allocs@[index as int].name },
        ),
        (DrainPhase::ReportingStopped { index }, DrainEvent::Emitted) => same && moves_from(
            drain,
            index + 1,
            phase,
            action,
        ),
        (DrainPhase::Closing, DrainEvent::Emitted) => same && phase is Ended && action
            == DrainAction::Finished(Ok(())),
        _ => false,
    }
}

impl Drain {
    /// Whether the places agree with the lists.
    pub open spec fn wf(self) -> bool {
        match self.phase {
            DrainPhase::Detaching { index } => index < self.volumes@.len(),
            DrainPhase::RecordingDetached { index } => index < self.volumes@.len(),
            DrainPhase::LookingUp { index } => index < self.allocs@.len(),
            DrainPhase::Naming { index } => index < self.allocs@.len(),
            DrainPhase::Migrating { index } => index < self.allocs@.len(),
            DrainPhase::ReportingMigrated { index } => index < self.allocs@.len(),
            DrainPhase::ReportingFailed { index } => index < self.allocs@.len(),
            DrainPhase::Stopping { index } => index < self.allocs@.len(),
            DrainPhase::ReportingStopped { index } => index < self.allocs@.len(),
            _ => true,
        }
    }

    /// Begins a drain, and gives the first action: marking the node.
    pub fn begin(node_id: u64, has_driver: bool) -> (res: (Drain, DrainAction))
        ensures
            res.0.node_id == node_id,
            res.0.has_driver == has_driver,
            res.0.phase is Marking,
            res.0.wf(),
            res.1 == DrainAction::Propose(Command::NodeDrain { id: node_id }),
    {
        let drain = Drain {
            node_id,
            has_driver,
            mill_id: NodeId(String::new()),
            volumes: Vec::new(),
            allocs: Vec::new(),
            def: None,
            phase: DrainPhase::Marking,
        };
        (drain, DrainAction::Propose(Command::NodeDrain { id: node_id }))
    }

    fn detach_from(&mut self, index: usize) -> (res: DrainAction)
        ensures
            *final(self) == (Drain { phase: final(self).phase, ..*old(self) }),
            final(self).wf(),
            detaches_from(*old(self), index as int, final(self).phase, res),
    {
        if index < self.volumes.len() {
            let name = self.volumes[index].clone();
            if self.has_driver {
                self.phase = DrainPhase::Detaching { index };
                DrainAction::Detach { name }
            } else {
                self.phase = DrainPhase::RecordingDetached { index };
                DrainAction::Propose(Command::VolumeDetached { name })
            }
        } else {
            self.phase = DrainPhase::ListingAllocs;
            DrainAction::ReadState
        }
    }

    fn stop_at(&mut self, index: usize) -> (res: DrainAction)
        requires
            index < old(self).allocs@.len(),
        ensures
            *final(self) == (Drain { phase: final(self).phase, ..*old(self) }),
            final(self).wf(),
            stops_at(*old(self), index as int, final(self).phase, res),
    {
        self.phase = DrainPhase::Stopping { index };
        DrainAction::Send {
            node: self.mill_id.clone(),
            command: NodeCommand::Stop { alloc_id: self.allocs[index].alloc_id.clone() },
        }
    }

    fn move_from(&mut self, index: usize) -> (res: DrainAction)
        ensures
            *final(self) == (Drain { phase: final(self).phase, ..*old(self) }),
            final(self).wf(),
            moves_from(*old(self), index as int, final(self).phase, res),
    {
        if index < self.allocs.len() {
            if self.allocs[index].kind == AllocKind::Service {
                self.phase = DrainPhase::LookingUp { index };
                DrainAction::ReadState
            } else {
                self.stop_at(index)
            }
        } else {
            self.phase = DrainPhase::Closing;
            DrainAction::Emit(Progress::Done)
        }
    }

    fn finish(&mut self, outcome: Result<(), DeployError>) -> (res: DrainAction)
        ensures
            *final(self) == (Drain { phase: DrainPhase::Ended, ..*old(self) }),
            final(self).wf(),
            res == DrainAction::Finished(outcome),
    {
        self.phase = DrainPhase::Ended;
        DrainAction::Finished(outcome)
    }

    /// Takes what came of the last action and gives the next one.
    pub fn step(&mut self, event: DrainEvent) -> (res: DrainAction)
        requires
            old(self).wf(),
            old(self).phase.expects(event),
        ensures
            final(self).wf(),
            drain_step(*old(self), event, *final(self), res),
    {
        match (self.phase, event) {
            (DrainPhase::Marking, DrainEvent::Proposed(outcome)) => match outcome {
                Proposed::Applied => {
                    self.phase = DrainPhase::Announcing;
                    DrainAction::Emit(Progress::Started)
                },
                Proposed::Rejected(e) => self.finish(
                    Err(DeployError::Node(NodeError::RaftRejected(e))),
                ),
                Proposed::Unreached(e) => self.finish(Err(DeployError::Node(NodeError::Raft(e)))),
            },
            (DrainPhase::Announcing, _) => {
                self.phase = DrainPhase::ListingVolumes;
                DrainAction::ReadState
            },
            (DrainPhase::ListingVolumes, DrainEvent::State(fsm)) => {
                let node = match fsm.find_node(self.node_id) {
                    Some(n) => n.mill_id.clone(),
                    None => NodeId(String::new()),
                };
                assert(node@ =~= name_of_node(fsm, self.node_id));
                self.volumes = list_attached(&fsm, &node);
                self.detach_from(0)
            },
            (DrainPhase::Detaching { index }, _) => {
                self.phase = DrainPhase::RecordingDetached { index };
                DrainAction::Propose(
                    Command::VolumeDetached { name: self.volumes[index].clone() },
                )
            },
            (DrainPhase::RecordingDetached { index }, _) => {
                assert(index < self.volumes.len());
                self.detach_from(index + 1)
            },
            (DrainPhase::ListingAllocs, DrainEvent::State(fsm)) => {
                match fsm.find_node(self.node_id) {
                    Some(n) => {
                        self.mill_id = n.mill_id.clone();
                        self.allocs = list_living(&fsm, &n.mill_id);
                    },
                    None => {
                        self.mill_id = NodeId(String::new());
                        self.allocs = Vec::new();
                    },
                }
                assert(self.mill_id@ =~= name_of_node(fsm, self.node_id));
                assert(self.allocs@ =~= leaving_node(fsm, self.node_id));
                self.move_from(0)
            },
            (DrainPhase::LookingUp { index }, DrainEvent::State(fsm)) => match fsm.find_service(
                &self.allocs[index].name,
            ) {
                Some(def) => {
                    self.def = Some(def.clone());
                    self.phase = DrainPhase::Naming { index };
                    DrainAction::Suffix
                },
                None => self.stop_at(index),
            },
            (DrainPhase::Naming { index }, DrainEvent::Suffix(suffix)) => {
                self.phase = DrainPhase::Migrating { index };
                let name = self.allocs[index].name.clone();
                let alloc_id = alloc_name(&name, &suffix);
                DrainAction::StartAlloc { name, alloc_id }
            },
            (DrainPhase::Migrating { index }, DrainEvent::Started(outcome)) => {
                let service = self.allocs[index].name.clone();
                match outcome {
                    Ok(()) => {
                        self.phase = DrainPhase::ReportingMigrated { index };
                        DrainAction::Emit(Progress::Migrated { service })
                    },
                    Err(e) => {
                        self.phase = DrainPhase::ReportingFailed { index };
                        DrainAction::Emit(Progress::Failed { service, reason: e.to_text() })
                    },
                }
            },
            (DrainPhase::ReportingMigrated { index }, _) => self.stop_at(index),
            (DrainPhase::ReportingFailed { index }, _) => {
                assert(index < self.allocs.len());
                self.move_from(index + 1)
            },
            (DrainPhase::Stopping { index }, _) => {
                self.phase = DrainPhase::ReportingStopped { index };
                DrainAction::Emit(Progress::Stopped { service: self.allocs[index].name.clone() })
            },
            (DrainPhase::ReportingStopped { index }, _) => {
                assert(index < self.allocs.len());
                self.move_from(index + 1)
            },
            (DrainPhase::Closing, _) => self.finish(Ok(())),
            _ => DrainAction::ReadState,
        }
    }
}

/// A service on a draining node is stopped only when its replacement runs, or
/// when the configuration no longer has the service. A service whose
/// replacement failed stays.
pub proof fn services_leave_only_when_replaced(
    drain: Drain,
    event: DrainEvent,
    next: Drain,
    action: DrainAction,
    node: NodeId,
    alloc_id: AllocId,
)
    requires
        drain.wf(),
        next.wf(),
        drain_step(drain, event, next, action),
        action == (DrainAction::Send { node, command: NodeCommand::Stop { alloc_id } }),
    ensures
        next.phase is Stopping,
        ({
            let i = next.phase->Stopping_index as int;
            let gone = next.allocs@[i];
            &&& alloc_id == gone.alloc_id
            &&& gone.kind is Task || drain.phase == (DrainPhase::ReportingMigrated {
                index: i as usize,
            }) || (event is State && event->State_0.service(gone.name@) is None)
        }),
{
    assert(next.allocs@.len() == next.allocs.len());
}

/// Whether a drain took this course: the states that it went through, what
/// came of its actions, and the actions, each of which is asked for in the
/// state of the same place and answered by the event of the same place.
pub open spec fn is_drain_run(
    drains: Seq<Drain>,
    events: Seq<DrainEvent>,
    actions: Seq<DrainAction>,
) -> bool {
    &&& drains.len() == events.len() + 1
    &&& actions.len() == events.len() + 1
    &&& drains[0].phase is Marking
    &&& drains[0].wf()
    &&& actions[0] == DrainAction::Propose(Command::NodeDrain { id: drains[0].node_id })
    &&& forall|i: int|
        0 <= i < events.len() ==> drains[i + 1].wf() && drain_step(
            drains[i],
            #[trigger] events[i],
            drains[i + 1],
            actions[i + 1],
        )
}

/// Whether an allocation, the one of place `k` among those on a node, was seen
/// to with action `i`: it was stopped, and where it is of a service either a
/// replacement was reported to run before or the configuration did not have
/// the service; or its replacement failed, and the client heard of that.
pub open spec fn seen_to(
    drains: Seq<Drain>,
    events: Seq<DrainEvent>,
    actions: Seq<DrainAction>,
    node: Seq<char>,
    gone: Leaving,
    k: int,
    i: int,
) -> bool {
    ||| {
        &&& drains[i].phase == (DrainPhase::Stopping { index: k as usize })
        &&& drains[i].mill_id@ == node
        &&& actions[i] == (DrainAction::Send {
            node: drains[i].mill_id,
            command: NodeCommand::Stop { alloc_id: gone.alloc_id },
        })
        &&& gone.kind is Task || (i > 0 && actions[i - 1] == DrainAction::Emit(
            Progress::Migrated { service: gone.name },
        )) || (i > 0 && events[i - 1] is State && events[i - 1]->State_0.service(
            gone.name@,
        ) is None)
    }
    ||| {
        &&& drains[i].phase == (DrainPhase::ReportingFailed { index: k as usize })
        &&& gone.kind is Service
        &&& i > 0
        &&& events[i - 1] matches DrainEvent::Started(outcome)
        &&& outcome matches Err(e)
        &&& actions[i] matches DrainAction::Emit(Progress::Failed { service, reason })
        &&& service == gone.name
        &&& reason@ == e.message()
    }
}

/// Whether an allocation was seen to with one of the actions up to `n`.
pub open spec fn seen_to_by(
    drains: Seq<Drain>,
    events: Seq<DrainEvent>,
    actions: Seq<DrainAction>,
    node: Seq<char>,
    gone: Leaving,
    k: int,
    n: int,
) -> bool {
    exists|i: int|
        0 <= i <= n && #[trigger] seen_to(drains, events, actions, node, gone, k, i)
}

/// Whether an action stops an allocation on the named node.
pub open spec fn stops_gone(action: DrainAction, node: Seq<char>, gone: Leaving) -> bool {
    &&& action matches DrainAction::Send { node: to, command }
    &&& to@ == node
    &&& command == (NodeCommand::Stop { alloc_id: gone.alloc_id })
}

/// Whether a drain has seen to every living allocation of the node that a
/// state tells of, and has stopped nothing else.
pub open spec fn all_seen_to(
    drains: Seq<Drain>,
    events: Seq<DrainEvent>,
    actions: Seq<DrainAction>,
    fsm: FsmState,
) -> bool {
    let node = name_of_node(fsm, drains[0].node_id);
    let allocs = leaving_node(fsm, drains[0].node_id);
    &&& forall|k: int|
        0 <= k < allocs.len() ==> #[trigger] seen_to_by(
            drains,
            events,
            actions,
            node,
            allocs[k],
            k,
            actions.len() - 1,
        )
    &&& forall|i: int|
        0 <= i < actions.len() && (#[trigger] actions[i]) is Send ==> exists|k: int|
            0 <= k < allocs.len() && stops_gone(actions[i], node, #[trigger] allocs[k])
}

/// How many of the allocations have been seen to.
spec fn passed(drain: Drain) -> int {
    match drain.phase {
        DrainPhase::LookingUp { index } => index as int,
        DrainPhase::Naming { index } => index as int,
        DrainPhase::Migrating { index } => index as int,
        DrainPhase::ReportingMigrated { index } => index as int,
        DrainPhase::ReportingFailed { index } => index + 1,
        DrainPhase::Stopping { index } => index + 1,
        DrainPhase::ReportingStopped { index } => index + 1,
        _ => drain.allocs@.len() as int,
    }
}

/// Whether the allocations have not been listed yet, and the drain has not
/// ended.
spec fn is_early(phase: DrainPhase) -> bool {
    phase is Marking || phase is Announcing || phase is ListingVolumes || phase is Detaching
        || phase is RecordingDetached || phase is ListingAllocs
}

/// Whether what is replaced is of a service, and the client hears of it when
/// the replacement runs.
spec fn moves_service(drain: Drain, action: DrainAction) -> bool {
    match drain.phase {
        DrainPhase::LookingUp { index } => drain.allocs@[index as int].kind is Service,
        DrainPhase::Naming { index } => drain.allocs@[index as int].kind is Service,
        DrainPhase::Migrating { index } => drain.allocs@[index as int].kind is Service,
        DrainPhase::ReportingMigrated { index } => action == DrainAction::Emit(
            Progress::Migrated { service: drain.allocs@[index as int].name },
        ),
        _ => true,
    }
}

proof fn lemma_drain_lists(
    drains: Seq<Drain>,
    events: Seq<DrainEvent>,
    actions: Seq<DrainAction>,
    n: int,
) -> (l: int)
    requires
        is_drain_run(drains, events, actions),
        0 <= n < drains.len(),
        !is_early(drains[n].phase),
        drains[n].phase is Ended ==> actions[n] == DrainAction::Finished(Ok(())),
    ensures
        0 <= l < n,
        drains[l].phase is ListingAllocs,
        events[l] is State,
    decreases n,
{
    assert(n > 0);
    let e = events[n - 1];
    if drains[n - 1].phase is ListingAllocs {
        n - 1
    } else {
        lemma_drain_lists(drains, events, actions, n - 1)
    }
}

proof fn lemma_early_drains_stop_nothing(
    drains: Seq<Drain>,
    events: Seq<DrainEvent>,
    actions: Seq<DrainAction>,
    n: int,
    l: int,
)
    requires
        is_drain_run(drains, events, actions),
        0 <= n <= l < drains.len(),
        is_early(drains[l].phase),
    ensures
        is_early(drains[n].phase),
        !(actions[n] is Send),
    decreases l - n,
{
    if n < l {
        lemma_early_drains_stop_nothing(drains, events, actions, n + 1, l);
        let e = events[n];
    }
    if n > 0 {
        let e = events[n - 1];
    }
}

proof fn lemma_drain_keeps_node(
    drains: Seq<Drain>,
    events: Seq<DrainEvent>,
    actions: Seq<DrainAction>,
    n: int,
)
    requires
        is_drain_run(drains, events, actions),
        0 <= n < drains.len(),
    ensures
        drains[n].node_id == drains[0].node_id,
    decreases n,
{
    if n > 0 {
        lemma_drain_keeps_node(drains, events, actions, n - 1);
        let e = events[n - 1];
    }
}

proof fn lemma_drain_sees_to(
    drains: Seq<Drain>,
    events: Seq<DrainEvent>,
    actions: Seq<DrainAction>,
    l: int,
    n: int,
)
    requires
        is_drain_run(drains, events, actions),
        0 <= l < n < drains.len(),
        drains[l].phase is ListingAllocs,
    ensures
        events[l] is State,
        !is_early(drains[n].phase),
        moves_service(drains[n], actions[n]),
        ({
            let fsm = events[l]->State_0;
            let id = drains[0].node_id;
            &&& drains[n].mill_id@ == name_of_node(fsm, id)
            &&& drains[n].allocs@ == leaving_node(fsm, id)
            &&& 0 <= passed(drains[n]) <= drains[n].allocs@.len()
            &&& forall|k: int|
                0 <= k < passed(drains[n]) ==> #[trigger] seen_to_by(
                    drains,
                    events,
                    actions,
                    name_of_node(fsm, id),
                    leaving_node(fsm, id)[k],
                    k,
                    n,
                )
        }),
        actions[n] is Send ==> drains[n].phase is Stopping && actions[n] == (DrainAction::Send {
            node: drains[n].mill_id,
            command: NodeCommand::Stop {
                alloc_id: drains[n].allocs@[drains[n].phase->Stopping_index as int].alloc_id,
            },
        }),
    decreases n,
{
    lemma_drain_keeps_node(drains, events, actions, l);
    let e = events[n - 1];
    let before = drains[n - 1];
    let now = drains[n];
    let fsm = events[l]->State_0;
    let id = drains[0].node_id;
    let node = name_of_node(fsm, id);
    if n - 1 > l {
        lemma_drain_sees_to(drains, events, actions, l, n - 1);
    }
    assert(now.allocs@.len() == now.allocs.len());
    let old_passed = if n - 1 > l {
        passed(before)
    } else {
        0
    };
    assert forall|k: int| 0 <= k < passed(now) implies #[trigger] seen_to_by(
        drains,
        events,
        actions,
        node,
        leaving_node(fsm, id)[k],
        k,
        n,
    ) by {
        let gone = leaving_node(fsm, id)[k];
        if k < old_passed {
            assert(seen_to_by(drains, events, actions, node, gone, k, n - 1));
            let i = choose|i: int|
                0 <= i <= n - 1 && #[trigger] seen_to(drains, events, actions, node, gone, k, i);
            assert(seen_to(drains, events, actions, node, gone, k, i));
        } else {
            assert(seen_to(drains, events, actions, node, gone, k, n));
        }
    }
}

/// A drain that ends well has seen to every living allocation of the node, as
/// the replicated state told of them when it listed them, and has stopped
/// nothing else.
pub proof fn drains_see_to_every_allocation(
    drains: Seq<Drain>,
    events: Seq<DrainEvent>,
    actions: Seq<DrainAction>,
)
    requires
        is_drain_run(drains, events, actions),
        actions.last() == DrainAction::Finished(Ok(())),
    ensures
        exists|l: int|
            {
                &&& 0 <= l < events.len()
                &&& drains[l].phase is ListingAllocs
                &&& (#[trigger] events[l]) is State
                &&& all_seen_to(drains, events, actions, events[l]->State_0)
            },
{
    let n = drains.len() - 1;
    if n > 0 {
        let e = events[n - 1];
    }
    let l = lemma_drain_lists(drains, events, actions, n);
    lemma_drain_sees_to(drains, events, actions, l, n);
    let fsm = events[l]->State_0;
    let id = drains[0].node_id;
    let allocs = leaving_node(fsm, id);
    let node = name_of_node(fsm, id);
    assert forall|i: int| 0 <= i < actions.len() && (#[trigger] actions[i]) is Send implies exists|
        k: int,
    |
        0 <= k < allocs.len() && stops_gone(actions[i], node, #[trigger] allocs[k]) by {
        if i <= l {
            lemma_early_drains_stop_nothing(drains, events, actions, i, l);
        } else {
            lemma_drain_sees_to(drains, events, actions, l, i);
            let k = drains[i].phase->Stopping_index as int;
            assert(stops_gone(actions[i], node, allocs[k]));
        }
    }
    assert(all_seen_to(drains, events, actions, fsm));
}

/// What comes of taking a node out of the cluster, by what came of proposing
/// it. The proposal is refused while the node has work.
pub fn remove_node(outcome: Proposed) -> (res: Result<(), NodeError>)
    ensures
        res == match outcome {
            Proposed::Applied => Ok::<(), NodeError>(()),
            Proposed::Rejected(e) => Err(NodeError::RaftRejected(e)),
            Proposed::Unreached(e) => Err(NodeError::Raft(e)),
        },
{
    match outcome {
        Proposed::Applied => Ok(()),
        Proposed::Rejected(e) => Err(NodeError::RaftRejected(e)),
        Proposed::Unreached(e) => Err(NodeError::Raft(e)),
    }
}

/// What leaves a node is exactly what lives on it: the allocations that the state
/// has on the node of the drained number and that have neither stopped nor
/// failed, each with its id, name and kind.
pub proof fn what_lives_on_the_node_leaves(fsm: FsmState, node_id: u64, n: int, k: int)
    requires
        0 <= n < fsm.nodes@.len(),
        fsm.nodes@[n].raft_id == node_id,
        forall|m: int| 0 <= m < n ==> (#[trigger] fsm.nodes@[m]).raft_id != node_id,
    ensures
        name_of_node(fsm, node_id) == fsm.nodes@[n].mill_id@,
        forall|i: int|
            #![trigger fsm.allocs@[i]]
            0 <= i < fsm.allocs@.len() && fsm.allocs@[i].node@ == fsm.nodes@[n].mill_id@ && !(
            fsm.allocs@[i].status is Stopped) && !(fsm.allocs@[i].status is Failed)
                ==> leaving_node(fsm, node_id).contains(
                Leaving {
                    alloc_id: fsm.allocs@[i].id,
                    name: fsm.allocs@[i].name,
                    kind: fsm.allocs@[i].kind,
                },
            ),
        0 <= k < leaving_node(fsm, node_id).len() ==> exists|i: int|
            {
                &&& 0 <= i < fsm.allocs@.len()
                &&& (#[trigger] fsm.allocs@[i]).node@ == fsm.nodes@[n].mill_id@
                &&& !(fsm.allocs@[i].status is Stopped)
                &&& !(fsm.allocs@[i].status is Failed)
                &&& leaving_node(fsm, node_id)[k] == (Leaving {
                    alloc_id: fsm.allocs@[i].id,
                    name: fsm.allocs@[i].name,
                    kind: fsm.allocs@[i].kind,
                })
            },
{
    nodes_are_found_by_number(fsm.nodes@, node_id);
    let node = fsm.nodes@[n];
    let p = living_on(node.mill_id@);
    let chosen = select(fsm.allocs@, p);
    let all = leaving_node(fsm, node_id);
    lemma_selected(fsm.allocs@, p);
    assert forall|i: int|
        #![trigger fsm.allocs@[i]]
        0 <= i < fsm.allocs@.len() && fsm.allocs@[i].node@ == node.mill_id@ && !(
        fsm.allocs@[i].status is Stopped) && !(
        fsm.allocs@[i].status is Failed) implies all.contains(
        Leaving {
            alloc_id: fsm.allocs@[i].id,
            name: fsm.allocs@[i].name,
            kind: fsm.allocs@[i].kind,
        },
    ) by {
        assert(p(fsm.allocs@[i]));
        let j = chosen.index_of(fsm.allocs@[i]);
        assert(all[j].alloc_id == fsm.allocs@[i].id);
    }
    if 0 <= k < all.len() {
        assert(p(chosen[k]));
        let i = fsm.allocs@.index_of(chosen[k]);
        assert(fsm.allocs@[i] == chosen[k]);
    }
}

/// The volumes that a drain detaches are exactly those that are attached to the
/// node.
pub proof fn volumes_of_the_node_are_detached(
    drain: Drain,
    fsm: FsmState,
    next: Drain,
    action: DrainAction,
    n: int,
)
    requires
        drain.phase is ListingVolumes,
        drain_step(drain, DrainEvent::State(fsm), next, action),
        0 <= n < fsm.nodes@.len(),
        fsm.nodes@[n].raft_id == drain.node_id,
        forall|m: int| 0 <= m < n ==> (#[trigger] fsm.nodes@[m]).raft_id != drain.node_id,
    ensures
        forall|v: int|
            #![trigger fsm.volumes@[v]]
            0 <= v < fsm.volumes@.len() && (
            fsm.volumes@[v].1.state matches VolumeState::Attached { node } && node@
                == fsm.nodes@[n].mill_id@) ==> next.volumes@.contains(fsm.volumes@[v].0),
        forall|k: int|
            #![trigger next.volumes@[k]]
            0 <= k < next.volumes@.len() ==> exists|v: int|
                0 <= v < fsm.volumes@.len() && (#[trigger] fsm.volumes@[v]).0 == next.volumes@[k]
                    && (fsm.volumes@[v].1.state matches VolumeState::Attached { node } && node@
                    == fsm.nodes@[n].mill_id@),
{
    nodes_are_found_by_number(fsm.nodes@, drain.node_id);
    let p = on_node(fsm.nodes@[n].mill_id@);
    let chosen = select(fsm.volumes@, p);
    lemma_selected(fsm.volumes@, p);
    assert forall|v: int|
        #![trigger fsm.volumes@[v]]
        0 <= v < fsm.volumes@.len() && (
        fsm.volumes@[v].1.state matches VolumeState::Attached { node } && node@
            == fsm.nodes@[n].mill_id@) implies next.volumes@.contains(fsm.volumes@[v].0) by {
        assert(p(fsm.volumes@[v]));
        let k = chosen.index_of(fsm.volumes@[v]);
        assert(next.volumes@[k] == fsm.volumes@[v].0);
    }
    assert forall|k: int|
        #![trigger next.volumes@[k]]
        0 <= k < next.volumes@.len() implies exists|v: int|
        0 <= v < fsm.volumes@.len() && (#[trigger] fsm.volumes@[v]).0 == next.volumes@[k] && (
        fsm.volumes@[v].1.state matches VolumeState::Attached { node } && node@
            == fsm.nodes@[n].mill_id@) by {
        assert(p(chosen[k]));
        let v = fsm.volumes@.index_of(chosen[k]);
        assert(fsm.volumes@[v].0 == next.volumes@[k]);
    }
}

/// A drain goes on only once the node takes no more work, and ends with the
/// reason where that could not be had; each of its volumes is detached, where
/// there is a driver, and recorded as detached, one after another; and every
/// replacement is of the service of the allocation that it replaces.
pub proof fn drains_go_step_by_step(
    drain: Drain,
    event: DrainEvent,
    next: Drain,
    action: DrainAction,
)
    requires
        drain.wf(),
        next.wf(),
        drain_step(drain, event, next, action),
    ensures
        drain.phase is Marking ==> match event->Proposed_0 {
            Proposed::Applied => action == DrainAction::Emit(Progress::Started),
            Proposed::Rejected(e) => action == DrainAction::Finished(
                Err(DeployError::Node(NodeError::RaftRejected(e))),
            ),
            Proposed::Unreached(e) => action == DrainAction::Finished(
                Err(DeployError::Node(NodeError::Raft(e))),
            ),
        },
        action matches DrainAction::Detach { name } ==> drain.has_driver && (
        next.phase matches DrainPhase::Detaching { index } && name == next.volumes@[index as int]),
        next.phase matches DrainPhase::RecordingDetached { index } ==> action
            == DrainAction::Propose(
            Command::VolumeDetached { name: next.volumes@[index as int] },
        ) && (drain.has_driver ==> drain.phase == (DrainPhase::Detaching { index })),
        drain.phase matches DrainPhase::RecordingDetached { index } ==> match next.phase {
            DrainPhase::Detaching { index: k } => k == index + 1,
            DrainPhase::RecordingDetached { index: k } => k == index + 1,
            _ => next.phase is ListingAllocs && index + 1 == drain.volumes@.len(),
        },
        action matches DrainAction::StartAlloc { name, alloc_id } ==> (
        drain.phase matches DrainPhase::Naming { index } && name
            == drain.allocs@[index as int].name && event is Suffix && alloc_id@ == name@ + "-"@
            + event->Suffix_0@),
        next.phase is Naming ==> next.def is Some && event is State && exists|s: int|
            {
                &&& 0 <= s < event->State_0.config->0.services@.len()
                &&& (#[trigger] event->State_0.config->0.services@[s]).0@
                    == drain.allocs@[drain.phase->LookingUp_index as int].name@
                &&& next.def->0@ == event->State_0.config->0.services@[s].1@
            },
        next.phase is Migrating ==> next.def == drain.def,
{
    assert(next.volumes@.len() == next.volumes.len());
    assert(next.allocs@.len() == next.allocs.len());
    if drain.phase is LookingUp {
        definitions_are_found_by_name(
            event->State_0,
            drain.allocs@[drain.phase->LookingUp_index as int].name@,
        );
    }
}

} // verus!
