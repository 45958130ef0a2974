//! Bringing up, replacing and stopping the allocations of one service.
use crate::config::{Alloc, AllocId, NodeId};
use crate::error::{DeployError, NodeError};
use crate::fsm::{
    alloc_named, allocations_are_found_by_id, first_ready, first_ready_takes_work, FsmState,
};
use crate::primary::api::sse::Progress;
use crate::rpc::protocol::NodeCommand;
use crate::seqs::{lemma_select_take, lemma_selected, select};
use crate::text::{decimal, decimal_text};
use vstd::prelude::*;
use vstd::string::*;

verus! {

/// What the driver is asked to do.
#[derive(Debug, PartialEq, Eq)]
pub enum RolloutAction {
    /// Read the replicated state.
    ReadState,
    /// Set up the volumes of the service for the node of the given number.
    SetUpVolumes { target: u64 },
    /// Make a fresh suffix for an allocation.
    Suffix,
    /// Start a replica of the service.
    StartAlloc { alloc_id: AllocId, replica: u32 },
    /// Send a command to a node.
    Send { node: NodeId, command: NodeCommand },
    /// Tell the client.
    Emit(Progress),
    /// Nothing: this is the outcome.
    Finished(Result<(), DeployError>),
}

/// What came of an action.
#[derive(Debug, PartialEq, Eq)]
pub enum RolloutEvent {
    State(FsmState),
    VolumesSetUp(Result<(), DeployError>),
    Suffix(String),
    Started(Result<(), DeployError>),
    Sent(Result<(), NodeError>),
    Emitted,
}

/// Allocations of the given name.
pub open spec fn named(name: Seq<char>) -> spec_fn(Alloc) -> bool {
    |a: Alloc| a.name@ == name
}

/// The names and nodes of allocations.
pub open spec fn refs(allocs: Seq<Alloc>) -> Seq<(AllocId, NodeId)> {
    Seq::new(allocs.len(), |i: int| (allocs[i].id, allocs[i].node))
}

/// The names and nodes of the allocations of a service.
pub open spec fn service_refs(fsm: FsmState, name: Seq<char>) -> Seq<(AllocId, NodeId)> {
    refs(select(fsm.allocs@, named(name)))
}

/// The names and nodes of the allocations of a service.
pub fn list_service_allocs(fsm: &FsmState, name: &String) -> (res: Vec<(AllocId, NodeId)>)
    ensures
        res@ == service_refs(*fsm, name@),
{
    let mut out: Vec<(AllocId, NodeId)> = Vec::new();
    let ghost all = fsm.allocs@;
    let ghost p = named(name@);
    let mut i: usize = 0;
    assert(refs(select(all.take(0), p)) =~= Seq::empty());
    while i < fsm.allocs.len()
        invariant
            i <= all.len(),
            all == fsm.allocs@,
            p == named(name@),
            out@ == refs(select(all.take(i as int), p)),
        decreases all.len() - i,
    {
        proof {
            lemma_select_take(all, p, i as int);
        }
        if fsm.allocs[i].name == *name {
            let ghost sel = select(all.take(i as int), p);
            out.push((fsm.allocs[i].id.clone(), fsm.allocs[i].node.clone()));
            assert(out@ =~= refs(sel.push(all[i as int])));
        }
        i = i + 1;
    }
    assert(all.take(i as int) =~= all);
    out
}

/// The name of an allocation of a service.
pub open spec fn alloc_text(name: Seq<char>, suffix: Seq<char>) -> Seq<char> {
    name + "-"@ + suffix
}

/// The name of an allocation of a service.
pub fn alloc_name(name: &String, suffix: &String) -> (res: AllocId)
    ensures
        res@ == alloc_text(name@, suffix@),
{
    let mut out = name.clone();
    out.append("-");
    out.append(suffix.as_str());
    AllocId(out)
}

/// The command to stop an allocation, as an action.
pub open spec fn stop_action(target: (AllocId, NodeId)) -> RolloutAction {
    RolloutAction::Send { node: target.1, command: NodeCommand::Stop { alloc_id: target.0 } }
}

fn stop_command(target: &(AllocId, NodeId)) -> (res: RolloutAction)
    ensures
        res == stop_action(*target),
{
    RolloutAction::Send {
        node: target.1.clone(),
        command: NodeCommand::Stop { alloc_id: target.0.clone() },
    }
}

/// The outcome where no node takes work.
pub open spec fn no_node(name: String) -> RolloutAction {
    RolloutAction::Finished(Err(DeployError::SchedulingFailed { service: name, replica: 0 }))
}

/// How far the start of a new service has come.
#[derive(Clone, Copy, Debug, PartialEq, Eq, Structural)]
pub enum ServicePhase {
    /// A node for the volumes is to be picked.
    Looking,
    /// The volumes are set up.
    SettingUp,
    /// A replica starts.
    Starting { replica: u32 },
    /// The outcome is known.
    Ended,
}

impl ServicePhase {
    /// Whether an event answers the action that led to the phase.
    pub open spec fn expects(self, event: RolloutEvent) -> bool {
        match self {
            ServicePhase::Looking => event is State,
            ServicePhase::SettingUp => event is VolumesSetUp,
            ServicePhase::Starting { .. } => event is Started,
            ServicePhase::Ended => false,
        }
    }
}

/// The start of a new service.
#[derive(Debug, PartialEq, Eq)]
pub struct ServiceStart {
    pub name: String,
    pub replicas: u32,
    pub phase: ServicePhase,
}

/// Whether the start goes on with the given replica, or ends well where there
/// is none.
pub open spec fn starts_replica(
    name: Seq<char>,
    replicas: u32,
    replica: int,
    phase: ServicePhase,
    action: RolloutAction,
) -> bool {
    if replica < replicas {
        &&& phase == (ServicePhase::Starting { replica: replica as u32 })
        &&& action matches RolloutAction::StartAlloc { alloc_id, replica: r }
        &&& alloc_id@ == alloc_text(name, decimal(replica as nat))
        &&& r == replica
    } else {
        phase is Ended && action == RolloutAction::Finished(Ok(()))
    }
}

/// What one step does: the phase and the action that follow an event.
pub open spec fn service_step(
    start: ServiceStart,
    event: RolloutEvent,
    phase: ServicePhase,
    action: RolloutAction,
) -> bool {
    match (start.phase, event) {
        (ServicePhase::Looking, RolloutEvent::State(fsm)) => match first_ready(fsm.nodes@) {
            Some(node) => phase is SettingUp && action == (RolloutAction::SetUpVolumes {
                target: node.raft_id,
            }),
            None => phase is Ended && action == no_node(start.name),
        },
        (ServicePhase::SettingUp, RolloutEvent::VolumesSetUp(outcome)) => match outcome {
            Ok(()) => starts_replica(start.name@, start.replicas, 0, phase, action),
            Err(e) => phase is Ended && action == RolloutAction::Finished(Err(e)),
        },
        (ServicePhase::Starting { replica }, RolloutEvent::Started(outcome)) => match outcome {
            Ok(()) => starts_replica(start.name@, start.replicas, replica + 1, phase, action),
            Err(e) => phase is Ended && action == RolloutAction::Finished(Err(e)),
        },
        _ => false,
    }
}

impl ServiceStart {
    /// Whether the replica in turn is one of those asked for.
    pub open spec fn wf(self) -> bool {
        self.phase matches ServicePhase::Starting { replica } ==> replica < self.replicas
    }

    /// A start that has not begun. The first action is to read the state.
    pub fn new(name: String, replicas: u32) -> (res: ServiceStart)
        ensures
            res == (ServiceStart { name, replicas, phase: ServicePhase::Looking }),
            res.wf(),
    {
        ServiceStart { name, replicas, phase: ServicePhase::Looking }
    }

    fn start_replica(&mut self, replica: u32) -> (res: RolloutAction)
        ensures
            final(self).name == old(self).name,
            final(self).replicas == old(self).replicas,
            final(self).wf(),
            starts_replica(
                old(self).name@,
                old(self).replicas,
                replica as int,
                final(self).phase,
                res,
            ),
    {
        if replica < self.replicas {
            self.phase = ServicePhase::Starting { replica };
            let suffix = decimal_text(replica as u128);
            RolloutAction::StartAlloc { alloc_id: alloc_name(&self.name, &suffix), replica }
        } else {
            self.phase = ServicePhase::Ended;
            RolloutAction::Finished(Ok(()))
        }
    }

    /// Takes what came of the last action and gives the next one.
    pub fn step(&mut self, event: RolloutEvent) -> (res: RolloutAction)
        requires
            old(self).wf(),
            old(self).phase.expects(event),
        ensures
            final(self).name == old(self).name,
            final(self).replicas == old(self).replicas,
            final(self).wf(),
            service_step(*old(self), event, final(self).phase, res),
    {
        match (self.phase, event) {
            (ServicePhase::Looking, RolloutEvent::State(fsm)) => match fsm.first_ready_node() {
                Some(node) => {
                    self.phase = ServicePhase::SettingUp;
                    RolloutAction::SetUpVolumes { target: node.raft_id }
                },
                None => {
                    self.phase = ServicePhase::Ended;
                    RolloutAction::Finished(
                        Err(
                            DeployError::SchedulingFailed {
                                service: self.name.clone(),
                                replica: 0,
                            },
                        ),
                    )
                },
            },
            (ServicePhase::SettingUp, RolloutEvent::VolumesSetUp(outcome)) => match outcome {
                Ok(()) => self.start_replica(0),
                Err(e) => {
                    self.phase = ServicePhase::Ended;
                    RolloutAction::Finished(Err(e))
                },
            },
            (ServicePhase::Starting { replica }, RolloutEvent::Started(outcome)) => match outcome {
                Ok(()) => self.start_replica(replica + 1),
                Err(e) => {
                    self.phase = ServicePhase::Ended;
                    RolloutAction::Finished(Err(e))
                },
            },
            _ => RolloutAction::ReadState,
        }
    }
}

/// How far a rolling update has come.
#[derive(Debug, PartialEq, Eq)]
pub enum RollingPhase {
    /// A node for the volumes is to be picked.
    Looking,
    /// The volumes are set up.
    SettingUp,
    /// The allocations that are there are listed.
    Listing,
    /// The next replica gets a name.
    Naming,
    /// The replica starts.
    Starting { alloc_id: AllocId },
    /// The node of the replica is looked up.
    Locating { alloc_id: AllocId },
    /// A replica failed: those that started are stopped again.
    RollingBack { index: usize, error: DeployError },
    /// All replicas run: the old ones are stopped.
    StoppingOld { index: usize },
    /// The client hears that the old ones are stopped.
    Reporting,
    /// The outcome is known.
    Ended,
}

impl RollingPhase {
    /// Whether an event answers the action that led to the phase.
    pub open spec fn expects(self, event: RolloutEvent) -> bool {
        match self {
            RollingPhase::Looking => event is State,
            RollingPhase::SettingUp => event is VolumesSetUp,
            RollingPhase::Listing => event is State,
            RollingPhase::Naming => event is Suffix,
            RollingPhase::Starting { .. } => event is Started,
            RollingPhase::Locating { .. } => event is State,
            RollingPhase::RollingBack { .. } => event is Sent,
            RollingPhase::StoppingOld { .. } => event is Sent,
            RollingPhase::Reporting => event is Emitted,
            RollingPhase::Ended => false,
        }
    }
}

/// A rolling update: new replicas are started and checked, then the old ones
/// are stopped. Where a new one fails, those already started are stopped and
/// the old ones stay.
#[derive(Debug, PartialEq, Eq)]
pub struct RollingUpdate {
    pub name: String,
    pub replicas: u32,
    pub old: Vec<(AllocId, NodeId)>,
    pub started: Vec<(AllocId, NodeId)>,
    pub replica: u32,
    pub stop_error: Option<NodeError>,
    pub phase: RollingPhase,
}

/// Whether the update goes on with the next replica, or with stopping the old
/// ones where all replicas run.
pub open spec fn next_replica(update: RollingUpdate, action: RolloutAction) -> bool {
    if update.replica < update.replicas {
        update.phase is Naming && action is Suffix
    } else {
        stops_old(update, 0, action)
    }
}

/// Whether the update goes on with stopping old ones from `index` on.
pub open spec fn stops_old(update: RollingUpdate, index: int, action: RolloutAction) -> bool {
    if index < update.old@.len() {
        update.phase == (RollingPhase::StoppingOld { index: index as usize }) && action
            == stop_action(update.old@[index])
    } else {
        update.phase is Reporting && action == RolloutAction::Emit(
            Progress::Stopped { service: update.name },
        )
    }
}

/// Whether the update goes on with stopping those that started, from `index`
/// on, and ends with the error.
pub open spec fn rolls_back(
    update: RollingUpdate,
    index: int,
    error: DeployError,
    action: RolloutAction,
) -> bool {
    if index < update.started@.len() {
        update.phase == (RollingPhase::RollingBack { index: index as usize, error }) && action
            == stop_action(update.started@[index])
    } else {
        update.phase is Ended && action == RolloutAction::Finished(Err(error))
    }
}

/// Whether two updates differ in the phase only.
pub open spec fn same_update(a: RollingUpdate, b: RollingUpdate) -> bool {
    &&& a.name == b.name
    &&& a.replicas == b.replicas
    &&& a.old@ == b.old@
    &&& a.started@ == b.started@
    &&& a.replica == b.replica
    &&& a.stop_error == b.stop_error
}

/// What one step does: the update and the action that follow an event.
pub open spec fn rolling_step(
    update: RollingUpdate,
    event: RolloutEvent,
    next: RollingUpdate,
    action: RolloutAction,
) -> bool {
    &&& next.name == update.name
    &&& next.replicas == update.replicas
    &&& match (update.phase, event) {
        (RollingPhase::Looking, RolloutEvent::State(fsm)) => same_update(update, next)
            && match first_ready(fsm.nodes@) {
            Some(node) => next.phase is SettingUp && action == (RolloutAction::SetUpVolumes {
                target: node.raft_id,
            }),
            None => next.phase is Ended && action == no_node(update.name),
        },
        (RollingPhase::SettingUp, RolloutEvent::VolumesSetUp(outcome)) => same_update(update, next)
            && match outcome {
            Ok(()) => next.phase is Listing && action is ReadState,
            Err(e) => next.phase is Ended && action == RolloutAction::Finished(Err(e)),
        },
        (RollingPhase::Listing, RolloutEvent::State(fsm)) => {
            &&& next.old@ == service_refs(fsm, update.name@)
            &&& next.started@ == update.started@
            &&& next.replica == update.replica
            &&& next.stop_error == update.stop_error
            &&& next_replica(next, action)
        },
        (RollingPhase::Naming, RolloutEvent::Suffix(suffix)) => {
            &&& same_update(update, next)
            &&& next.phase matches RollingPhase::Starting { alloc_id }
            &&& alloc_id@ == alloc_text(update.name@, suffix@)
            &&& action == (RolloutAction::StartAlloc { alloc_id, replica: update.replica })
        },
        (RollingPhase::Starting { alloc_id }, RolloutEvent::Started(outcome)) => same_update(
            update,
            next,
        ) && match outcome {
            Ok(()) => next.phase == (RollingPhase::Locating { alloc_id }) && action is ReadState,
            Err(e) => rolls_back(next, 0, e, action),
        },
        (RollingPhase::Locating { alloc_id }, RolloutEvent::State(fsm)) => {
            &&& next.old@ == update.old@
            &&& next.started@ == match alloc_named(fsm.allocs@, alloc_id@) {
                Some(a) => update.started@.push((alloc_id, a.node)),
                None => update.started@,
            }
            &&& next.replica == update.replica + 1
            &&& next.stop_error == update.stop_error
            &&& next_replica(next, action)
        },
        (RollingPhase::RollingBack { index, error }, RolloutEvent::Sent(_)) => same_update(
            update,
            next,
        ) && rolls_back(next, index + 1, error, action),
        (RollingPhase::StoppingOld { index }, RolloutEvent::Sent(outcome)) => {
            &&& next.old@ == update.old@
            &&& next.started@ == update.started@
            &&& next.replica == update.replica
            &&& next.stop_error == match (update.stop_error, outcome) {
                (None, Err(e)) => Some(e),
                _ => update.stop_error,
            }
            &&& stops_old(next, index + 1, action)
        },
        (RollingPhase::Reporting, RolloutEvent::Emitted) => same_update(update, next)
            && next.phase is Ended && action == RolloutAction::Finished(
            match update.stop_error {
                Some(e) => Err(DeployError::Node(e)),
                None => Ok(()),
            },
        ),
        _ => false,
    }
}

impl RollingUpdate {
    /// Whether the counts agree with the phase: a replica is started only
    /// while there is one to start, and old ones are stopped only when there
    /// is none.
    pub open spec fn wf(self) -> bool {
        &&& self.replica <= self.replicas
        &&& match self.phase {
            RollingPhase::Naming => self.replica < self.replicas,
            RollingPhase::Starting { .. } => self.replica < self.replicas,
            RollingPhase::Locating { .. } => self.replica < self.replicas,
            RollingPhase::RollingBack { index, .. } => index < self.started@.len(),
            RollingPhase::StoppingOld { index } => self.replica == self.replicas && index
                < self.old@.len(),
            RollingPhase::Reporting => self.replica == self.replicas,
            _ => true,
        }
    }

    /// An update that has not begun. The first action is to read the state.
    pub fn new(name: String, replicas: u32) -> (res: RollingUpdate)
        ensures
            res.name == name,
            res.replicas == replicas,
            res.old@.len() == 0,
            res.started@.len() == 0,
            res.replica == 0,
            res.stop_error is None,
            res.phase is Looking,
            res.wf(),
    {
        RollingUpdate {
            name,
            replicas,
            old: Vec::new(),
            started: Vec::new(),
            replica: 0,
            stop_error: None,
            phase: RollingPhase::Looking,
        }
    }

    fn stop_old(&mut self, index: usize) -> (res: RolloutAction)
        requires
            old(self).replica == old(self).replicas,
        ensures
            same_update(*old(self), *final(self)),
            final(self).wf(),
            stops_old(*final(self), index as int, res),
    {
        if index < self.old.len() {
            let action = stop_command(&self.old[index]);
            self.phase = RollingPhase::StoppingOld { index };
            action
        } else {
            self.phase = RollingPhase::Reporting;
            RolloutAction::Emit(Progress::Stopped { service: self.name.clone() })
        }
    }

    fn begin_replica(&mut self) -> (res: RolloutAction)
        requires
            old(self).replica <= old(self).replicas,
        ensures
            same_update(*old(self), *final(self)),
            final(self).wf(),
            next_replica(*final(self), res),
    {
        if self.replica < self.replicas {
            self.phase = RollingPhase::Naming;
            RolloutAction::Suffix
        } else {
            self.stop_old(0)
        }
    }

    fn roll_back(&mut self, index: usize, error: DeployError) -> (res: RolloutAction)
        requires
            old(self).replica <= old(self).replicas,
        ensures
            same_update(*old(self), *final(self)),
            final(self).wf(),
            rolls_back(*final(self), index as int, error, res),
    {
        if index < self.started.len() {
            let action = stop_command(&self.started[index]);
            self.phase = RollingPhase::RollingBack { index, error };
            action
        } else {
            self.phase = RollingPhase::Ended;
            RolloutAction::Finished(Err(error))
        }
    }

    /// Takes what came of the last action and gives the next one.
    pub fn step(&mut self, event: RolloutEvent) -> (res: RolloutAction)
        requires
            old(self).wf(),
            old(self).phase.expects(event),
        ensures
            final(self).wf(),
            rolling_step(*old(self), event, *final(self), res),
    {
        match (&self.phase, event) {
            (RollingPhase::Looking, RolloutEvent::State(fsm)) => match fsm.first_ready_node() {
                Some(node) => {
                    self.phase = RollingPhase::SettingUp;
                    RolloutAction::SetUpVolumes { target: node.raft_id }
                },
                None => {
                    self.phase = RollingPhase::Ended;
                    RolloutAction::Finished(
                        Err(
                            DeployError::SchedulingFailed {
                                service: self.name.clone(),
                                replica: 0,
                            },
                        ),
                    )
                },
            },
            (RollingPhase::SettingUp, RolloutEvent::VolumesSetUp(outcome)) => match outcome {
                Ok(()) => {
                    self.phase = RollingPhase::Listing;
                    RolloutAction::ReadState
                },
                Err(e) => {
                    self.phase = RollingPhase::Ended;
                    RolloutAction::Finished(Err(e))
                },
            },
            (RollingPhase::Listing, RolloutEvent::State(fsm)) => {
                self.old = list_service_allocs(&fsm, &self.name);
                self.begin_replica()
            },
            (RollingPhase::Naming, RolloutEvent::Suffix(suffix)) => {
                let alloc_id = alloc_name(&self.name, &suffix);
                self.phase = RollingPhase::Starting { alloc_id: alloc_id.clone() };
                RolloutAction::StartAlloc { alloc_id, replica: self.replica }
            },
            (RollingPhase::Starting { alloc_id }, RolloutEvent::Started(outcome)) => match outcome {
                Ok(()) => {
                    self.phase = RollingPhase::Locating { alloc_id: alloc_id.clone() };
                    RolloutAction::ReadState
                },
                Err(e) => self.roll_back(0, e),
            },
            (RollingPhase::Locating { alloc_id }, RolloutEvent::State(fsm)) => {
                if let Some(a) = fsm.find_alloc(alloc_id) {
                    let started = (alloc_id.clone(), a.node.clone());
                    self.started.push(started);
                }
                self.replica = self.replica + 1;
                self.begin_replica()
            },
            (RollingPhase::RollingBack { index, error }, _) => {
                let at: usize = *index;
                let reason = error.clone();
                assert(at < self.started.len());
                self.roll_back(at + 1, reason)
            },
            (RollingPhase::StoppingOld { index }, RolloutEvent::Sent(outcome)) => {
                let at: usize = *index;
                assert(at < self.old.len());
                if let Err(e) = outcome {
                    if self.stop_error.is_none() {
                        self.stop_error = Some(e);
                    }
                }
                self.stop_old(at + 1)
            },
            (RollingPhase::Reporting, _) => {
                self.phase = RollingPhase::Ended;
                match &self.stop_error {
                    Some(e) => RolloutAction::Finished(Err(DeployError::Node(e.clone()))),
                    None => RolloutAction::Finished(Ok(())),
                }
            },
            _ => RolloutAction::ReadState,
        }
    }
}

/// Old allocations are stopped only when every replica has been started, and
/// a failed replica never leads there: while an update rolls back it stops
/// nothing but what it started itself.
pub proof fn old_allocations_outlive_a_failed_update(
    update: RollingUpdate,
    event: RolloutEvent,
    next: RollingUpdate,
    action: RolloutAction,
    node: NodeId,
    alloc_id: AllocId,
)
    requires
        update.wf(),
        rolling_step(update, event, next, action),
        action == (RolloutAction::Send { node, command: NodeCommand::Stop { alloc_id } }),
    ensures
        next.phase is StoppingOld || next.phase is RollingBack,
        next.phase is StoppingOld ==> next.replica == next.replicas && exists|i: int|
            0 <= i < next.old@.len() && #[trigger] next.old@[i] == (alloc_id, node),
        next.phase is RollingBack ==> exists|i: int|
            0 <= i < next.started@.len() && #[trigger] next.started@[i] == (alloc_id, node),
{
    assert(next.old@.len() == next.old.len());
    assert(next.started@.len() == next.started.len());
    match next.phase {
        RollingPhase::StoppingOld { index } => {
            assert(next.old@[index as int] == (alloc_id, node));
        },
        RollingPhase::RollingBack { index, .. } => {
            assert(next.started@[index as int] == (alloc_id, node));
        },
        _ => {},
    }
}

/// A rolling back never turns into stopping old allocations, and ends with
/// the error that began it.
pub proof fn rollback_ends_with_its_error(
    update: RollingUpdate,
    event: RolloutEvent,
    next: RollingUpdate,
    action: RolloutAction,
    index: usize,
    error: DeployError,
)
    requires
        update.wf(),
        update.phase == (RollingPhase::RollingBack { index, error }),
        rolling_step(update, event, next, action),
    ensures
        next.phase is Ended ==> action == RolloutAction::Finished(Err(error)),
        !(next.phase is Ended) ==> next.phase == (RollingPhase::RollingBack {
            index: (index + 1) as usize,
            error,
        }),
{
    assert(next.started@.len() == next.started.len());
}

/// Whether an update took this course: the states that it went through, what
/// came of its actions, and the actions, each of which is asked for in the
/// state of the same place and answered by the event of the same place.
pub open spec fn is_rolling_run(
    updates: Seq<RollingUpdate>,
    events: Seq<RolloutEvent>,
    actions: Seq<RolloutAction>,
) -> bool {
    &&& updates.len() == events.len() + 1
    &&& actions.len() == events.len() + 1
    &&& updates[0].phase is Looking
    &&& updates[0].old@.len() == 0
    &&& updates[0].started@.len() == 0
    &&& updates[0].replica == 0
    &&& updates[0].stop_error is None
    &&& actions[0] is ReadState
    &&& forall|i: int|
        0 <= i < events.len() ==> updates[i + 1].wf() && rolling_step(
            updates[i],
            #[trigger] events[i],
            updates[i + 1],
            actions[i + 1],
        )
}

/// The allocations that were started by what came of the first `n` actions,
/// and their nodes: each was asked for and started, and the state that was
/// read next has it.
pub open spec fn started_in(
    events: Seq<RolloutEvent>,
    actions: Seq<RolloutAction>,
    n: int,
) -> Seq<(AllocId, NodeId)>
    decreases n,
{
    if n <= 1 {
        Seq::empty()
    } else {
        let before = started_in(events, actions, n - 1);
        match (actions[n - 2], events[n - 2], events[n - 1]) {
            (
                RolloutAction::StartAlloc { alloc_id, .. },
                RolloutEvent::Started(Ok(())),
                RolloutEvent::State(fsm),
            ) => match alloc_named(fsm.allocs@, alloc_id@) {
                Some(a) => before.push((alloc_id, a.node)),
                None => before,
            },
            _ => before,
        }
    }
}

/// Commands to nodes.
pub open spec fn sends() -> spec_fn(RolloutAction) -> bool {
    |action: RolloutAction| action is Send
}

/// The commands to stop allocations, one after another.
pub open spec fn stop_actions(targets: Seq<(AllocId, NodeId)>) -> Seq<RolloutAction> {
    Seq::new(targets.len(), |i: int| stop_action(targets[i]))
}

/// Whether replicas are still being started.
spec fn is_building(phase: RollingPhase) -> bool {
    phase is Looking || phase is SettingUp || phase is Listing || phase is Naming
        || phase is Starting || phase is Locating
}

/// Whether the phase agrees with the last action.
spec fn agrees(update: RollingUpdate, action: RolloutAction) -> bool {
    match update.phase {
        RollingPhase::Starting { alloc_id } => action matches RolloutAction::StartAlloc {
            alloc_id: id,
            ..
        } && id == alloc_id,
        _ => !(action is StartAlloc),
    }
}

proof fn lemma_updates_agree(
    updates: Seq<RollingUpdate>,
    events: Seq<RolloutEvent>,
    actions: Seq<RolloutAction>,
    n: int,
)
    requires
        is_rolling_run(updates, events, actions),
        0 <= n < updates.len(),
    ensures
        agrees(updates[n], actions[n]),
        updates[n].phase matches RollingPhase::Locating { alloc_id } ==> n > 0 && updates[n
            - 1].phase == (RollingPhase::Starting { alloc_id }) && events[n - 1] is Started
            && events[n - 1]->Started_0 is Ok,
{
    if n > 0 {
        let e = events[n - 1];
    }
}

proof fn lemma_building(
    updates: Seq<RollingUpdate>,
    events: Seq<RolloutEvent>,
    actions: Seq<RolloutAction>,
    n: int,
)
    requires
        is_rolling_run(updates, events, actions),
        0 <= n < updates.len(),
        is_building(updates[n].phase),
    ensures
        updates[n].started@ == started_in(events, actions, n),
        select(actions.take(n + 1), sends()) == Seq::<RolloutAction>::empty(),
        updates[n].stop_error is None,
    decreases n,
{
    lemma_select_take(actions, sends(), n);
    if n > 0 {
        let e = events[n - 1];
        lemma_building(updates, events, actions, n - 1);
        lemma_updates_agree(updates, events, actions, n - 1);
        if n > 1 {
            let e2 = events[n - 2];
            lemma_updates_agree(updates, events, actions, n - 2);
        }
    } else {
        assert(actions.take(0) =~= Seq::empty());
    }
}

proof fn lemma_rolling_back(
    updates: Seq<RollingUpdate>,
    events: Seq<RolloutEvent>,
    actions: Seq<RolloutAction>,
    f: int,
    error: DeployError,
    n: int,
)
    requires
        is_rolling_run(updates, events, actions),
        0 <= f < n < updates.len(),
        updates[f].phase is Starting,
        events[f] == RolloutEvent::Started(Err(error)),
    ensures
        updates[n].started@ == started_in(events, actions, f),
        rolls_back(updates[n], n - f - 1, error, actions[n]),
        n - f - 1 <= updates[n].started@.len(),
        select(actions.take(n + 1), sends()) == if n - f <= updates[n].started@.len() {
            stop_actions(updates[n].started@).take(n - f)
        } else {
            stop_actions(updates[n].started@)
        },
    decreases n,
{
    let e = events[n - 1];
    lemma_select_take(actions, sends(), n);
    let now = updates[n];
    assert(now.started@.len() == now.started.len());
    if n - 1 > f {
        lemma_rolling_back(updates, events, actions, f, error, n - 1);
    } else {
        lemma_building(updates, events, actions, f);
    }
    let sent = select(actions.take(n + 1), sends());
    if n - f <= now.started@.len() {
        assert(sent =~= stop_actions(now.started@).take(n - f));
    } else {
        assert(sent =~= stop_actions(now.started@));
    }
}

/// An update that fails is taken back: where the start of a replica fails, the
/// update stops exactly the replicas that it has started, one after another,
/// no other allocation, and ends with the error.
pub proof fn failed_updates_are_taken_back(
    updates: Seq<RollingUpdate>,
    events: Seq<RolloutEvent>,
    actions: Seq<RolloutAction>,
    f: int,
    alloc_id: AllocId,
    replica: u32,
    error: DeployError,
)
    requires
        is_rolling_run(updates, events, actions),
        0 <= f < events.len(),
        actions[f] == (RolloutAction::StartAlloc { alloc_id, replica }),
        events[f] == RolloutEvent::Started(Err(error)),
        actions.last() is Finished,
    ensures
        select(actions, sends()) == stop_actions(started_in(events, actions, f)),
        actions.last() == RolloutAction::Finished(Err(error)),
        forall|n: int| 0 <= n < updates.len() ==> !((#[trigger] updates[n]).phase is StoppingOld),
{
    let n = updates.len() - 1;
    lemma_updates_agree(updates, events, actions, f);
    lemma_rolling_back(updates, events, actions, f, error, n);
    assert(actions.take(n + 1) =~= actions);
    assert forall|i: int| 0 <= i < updates.len() implies !((
    #[trigger] updates[i]).phase is StoppingOld) by {
        if i > f {
            lemma_rolling_back(updates, events, actions, f, error, i);
        } else {
            lemma_built_before(updates, events, actions, i, f);
        }
    }
}

proof fn lemma_built_before(
    updates: Seq<RollingUpdate>,
    events: Seq<RolloutEvent>,
    actions: Seq<RolloutAction>,
    n: int,
    l: int,
)
    requires
        is_rolling_run(updates, events, actions),
        0 <= n <= l < updates.len(),
        is_building(updates[l].phase),
    ensures
        is_building(updates[n].phase),
    decreases l - n,
{
    if n < l {
        lemma_built_before(updates, events, actions, n + 1, l);
        let e = events[n];
    }
}

/// Orders to start a replica.
pub open spec fn starts() -> spec_fn(RolloutAction) -> bool {
    |action: RolloutAction| action is StartAlloc
}

/// Whether the allocations that are there have been listed.
spec fn is_listed(phase: RollingPhase) -> bool {
    phase is Naming || phase is Starting || phase is Locating || phase is StoppingOld
        || phase is Reporting
}

proof fn lemma_update_lists(
    updates: Seq<RollingUpdate>,
    events: Seq<RolloutEvent>,
    actions: Seq<RolloutAction>,
    n: int,
) -> (l: int)
    requires
        is_rolling_run(updates, events, actions),
        0 <= n < updates.len(),
        is_listed(updates[n].phase),
    ensures
        0 <= l < n,
        updates[l].phase is Listing,
        events[l] is State,
        updates[n].old@ == service_refs(events[l]->State_0, updates[0].name@),
    decreases n,
{
    let e = events[n - 1];
    lemma_update_keeps_name(updates, events, actions, n - 1);
    if updates[n - 1].phase is Listing {
        n - 1
    } else {
        lemma_update_lists(updates, events, actions, n - 1)
    }
}

proof fn lemma_update_keeps_name(
    updates: Seq<RollingUpdate>,
    events: Seq<RolloutEvent>,
    actions: Seq<RolloutAction>,
    n: int,
)
    requires
        is_rolling_run(updates, events, actions),
        0 <= n < updates.len(),
    ensures
        updates[n].name == updates[0].name,
        updates[n].replicas == updates[0].replicas,
    decreases n,
{
    if n > 0 {
        lemma_update_keeps_name(updates, events, actions, n - 1);
        let e = events[n - 1];
    }
}

proof fn lemma_replicas_counted(
    updates: Seq<RollingUpdate>,
    events: Seq<RolloutEvent>,
    actions: Seq<RolloutAction>,
    n: int,
)
    requires
        is_rolling_run(updates, events, actions),
        0 <= n < updates.len(),
        is_building(updates[n].phase) || is_listed(updates[n].phase),
    ensures
        select(actions.take(n + 1), starts()).len() == updates[n].replica + if updates[n].phase
            is Starting || updates[n].phase is Locating {
            1int
        } else {
            0
        },
    decreases n,
{
    lemma_select_take(actions, starts(), n);
    if n > 0 {
        let e = events[n - 1];
        lemma_replicas_counted(updates, events, actions, n - 1);
    } else {
        assert(actions.take(0) =~= Seq::empty());
    }
}

proof fn lemma_old_stopped(
    updates: Seq<RollingUpdate>,
    events: Seq<RolloutEvent>,
    actions: Seq<RolloutAction>,
    n: int,
)
    requires
        is_rolling_run(updates, events, actions),
        0 <= n < updates.len(),
        updates[n].phase is StoppingOld || updates[n].phase is Reporting,
    ensures
        select(actions.take(n + 1), sends()) == match updates[n].phase {
            RollingPhase::StoppingOld { index } => stop_actions(updates[n].old@).take(index + 1),
            _ => stop_actions(updates[n].old@),
        },
    decreases n,
{
    let e = events[n - 1];
    let now = updates[n];
    assert(now.old@.len() == now.old.len());
    lemma_select_take(actions, sends(), n);
    if is_building(updates[n - 1].phase) {
        lemma_building(updates, events, actions, n - 1);
    } else {
        lemma_old_stopped(updates, events, actions, n - 1);
    }
    let sent = select(actions.take(n + 1), sends());
    match now.phase {
        RollingPhase::StoppingOld { index } => {
            assert(sent =~= stop_actions(now.old@).take(index + 1));
        },
        _ => {
            assert(sent =~= stop_actions(now.old@));
        },
    }
}

/// An update that ends well has ordered as many replicas as the service is to
/// have, and has stopped exactly the allocations that the service had when it
/// listed them, one after another.
pub proof fn good_updates_stop_the_old(
    updates: Seq<RollingUpdate>,
    events: Seq<RolloutEvent>,
    actions: Seq<RolloutAction>,
)
    requires
        is_rolling_run(updates, events, actions),
        actions.last() == RolloutAction::Finished(Ok(())),
    ensures
        select(actions, starts()).len() == updates[0].replicas,
        exists|l: int|
            {
                &&& 0 <= l < events.len()
                &&& updates[l].phase is Listing
                &&& (#[trigger] events[l]) is State
                &&& select(actions, sends()) == stop_actions(
                    service_refs(events[l]->State_0, updates[0].name@),
                )
            },
{
    let n = updates.len() - 1;
    if n > 0 {
        let e = events[n - 1];
    }
    assert(updates[n - 1].phase is Reporting);
    if n > 1 {
        let e = events[n - 2];
    }
    lemma_select_take(actions, sends(), n);
    lemma_select_take(actions, starts(), n);
    assert(actions.take(n + 1) =~= actions);
    lemma_old_stopped(updates, events, actions, n - 1);
    lemma_replicas_counted(updates, events, actions, n - 1);
    lemma_update_keeps_name(updates, events, actions, n - 1);
    let l = lemma_update_lists(updates, events, actions, n - 1);
    assert(events[l] is State);
}

/// How far stopping a service has come.
#[derive(Clone, Copy, Debug, PartialEq, Eq, Structural)]
pub enum StopPhase {
    /// The allocations are listed.
    Listing,
    /// An allocation is stopped.
    Stopping { index: usize },
    /// The client hears that the service is stopped.
    Reporting,
    /// The outcome is known.
    Ended,
}

impl StopPhase {
    /// Whether an event answers the action that led to the phase.
    pub open spec fn expects(self, event: RolloutEvent) -> bool {
        match self {
            StopPhase::Listing => event is State,
            StopPhase::Stopping { .. } => event is Sent,
            StopPhase::Reporting => event is Emitted,
            StopPhase::Ended => false,
        }
    }
}

/// Stopping all allocations of a service.
#[derive(Debug, PartialEq, Eq)]
pub struct ServiceStop {
    pub name: String,
    pub allocs: Vec<(AllocId, NodeId)>,
    pub phase: StopPhase,
}

/// Whether the work goes on with stopping from `index` on.
pub open spec fn stops_from(stop: ServiceStop, index: int, action: RolloutAction) -> bool {
    if index < stop.allocs@.len() {
        stop.phase == (StopPhase::Stopping { index: index as usize }) && action == stop_action(
            stop.allocs@[index],
        )
    } else {
        stop.phase is Reporting && action == RolloutAction::Emit(
            Progress::Stopped { service: stop.name },
        )
    }
}

/// What one step does: the state and the action that follow an event.
pub open spec fn stop_step(
    stop: ServiceStop,
    event: RolloutEvent,
    next: ServiceStop,
    action: RolloutAction,
) -> bool {
    &&& next.name == stop.name
    &&& match (stop.phase, event) {
        (StopPhase::Listing, RolloutEvent::State(fsm)) => next.allocs@ == service_refs(
            fsm,
            stop.name@,
        ) && stops_from(next, 0, action),
        (StopPhase::Stopping { index }, RolloutEvent::Sent(outcome)) => next.allocs@ == stop.allocs@
            && match outcome {
            Ok(()) => stops_from(next, index + 1, action),
            Err(e) => next.phase is Ended && action == RolloutAction::Finished(
                Err(DeployError::Node(e)),
            ),
        },
        (StopPhase::Reporting, RolloutEvent::Emitted) => next.allocs@ == stop.allocs@
            && next.phase is Ended && action == RolloutAction::Finished(Ok(())),
        _ => false,
    }
}

impl ServiceStop {
    /// Whether the allocation in turn is one of those listed.
    pub open spec fn wf(self) -> bool {
        self.phase matches StopPhase::Stopping { index } ==> index < self.allocs@.len()
    }

    /// Work that has not begun. The first action is to read the state.
    pub fn new(name: String) -> (res: ServiceStop)
        ensures
            res.name == name,
            res.allocs@.len() == 0,
            res.phase is Listing,
            res.wf(),
    {
        ServiceStop { name, allocs: Vec::new(), phase: StopPhase::Listing }
    }

    fn stop_from(&mut self, index: usize) -> (res: RolloutAction)
        ensures
            final(self).name == old(self).name,
            final(self).allocs@ == old(self).allocs@,
            final(self).wf(),
            stops_from(*final(self), index as int, res),
    {
        if index < self.allocs.len() {
            self.phase = StopPhase::Stopping { index };
            stop_command(&self.allocs[index])
        } else {
            self.phase = StopPhase::Reporting;
            RolloutAction::Emit(Progress::Stopped { service: self.name.clone() })
        }
    }

    /// Takes what came of the last action and gives the next one.
    pub fn step(&mut self, event: RolloutEvent) -> (res: RolloutAction)
        requires
            old(self).wf(),
            old(self).phase.expects(event),
        ensures
            final(self).wf(),
            stop_step(*old(self), event, *final(self), res),
    {
        match (self.phase, event) {
            (StopPhase::Listing, RolloutEvent::State(fsm)) => {
                self.allocs = list_service_allocs(&fsm, &self.name);
                self.stop_from(0)
            },
            (StopPhase::Stopping { index }, RolloutEvent::Sent(outcome)) => match outcome {
                Ok(()) => {
                    assert(index < self.allocs.len());
                    self.stop_from(index + 1)
                },
                Err(e) => {
                    self.phase = StopPhase::Ended;
                    RolloutAction::Finished(Err(DeployError::Node(e)))
                },
            },
            (StopPhase::Reporting, _) => {
                self.phase = StopPhase::Ended;
                RolloutAction::Finished(Ok(()))
            },
            _ => RolloutAction::ReadState,
        }
    }
}

/// The allocations of a service are exactly those that bear its name, each with
/// its own id and node.
pub proof fn service_allocations_bear_its_name(fsm: FsmState, name: Seq<char>, k: int)
    ensures
        forall|i: int|
            #![trigger fsm.allocs@[i]]
            0 <= i < fsm.allocs@.len() && fsm.allocs@[i].name@ == name ==> service_refs(
                fsm,
                name,
            ).contains((fsm.allocs@[i].id, fsm.allocs@[i].node)),
        0 <= k < service_refs(fsm, name).len() ==> exists|i: int|
            0 <= i < fsm.allocs@.len() && (#[trigger] fsm.allocs@[i]).name@ == name && service_refs(
                fsm,
                name,
            )[k] == (fsm.allocs@[i].id, fsm.allocs@[i].node),
{
    let p = named(name);
    let chosen = select(fsm.allocs@, p);
    let all = service_refs(fsm, name);
    lemma_selected(fsm.allocs@, p);
    assert forall|i: int|
        #![trigger fsm.allocs@[i]]
        0 <= i < fsm.allocs@.len() && fsm.allocs@[i].name@ == name implies all.contains(
        (fsm.allocs@[i].id, fsm.allocs@[i].node),
    ) by {
        assert(p(fsm.allocs@[i]));
        let k = chosen.index_of(fsm.allocs@[i]);
        assert(all[k] == (fsm.allocs@[i].id, fsm.allocs@[i].node));
    }
    if 0 <= k < all.len() {
        assert(p(chosen[k]));
        let i = fsm.allocs@.index_of(chosen[k]);
        assert(fsm.allocs@[i].name@ == name);
    }
}

/// Allocations of one service with different suffixes have different ids.
pub proof fn suffixes_tell_allocations_apart(name: Seq<char>, a: Seq<char>, b: Seq<char>)
    requires
        alloc_text(name, a) == alloc_text(name, b),
    ensures
        a == b,
        alloc_text(name, a).len() == name.len() + 1 + a.len(),
        alloc_text(name, a).take(name.len() as int) == name,
{
    reveal_strlit("-");
    let n = name.len() as int;
    let x = alloc_text(name, a);
    let y = alloc_text(name, b);
    assert(x.take(n) =~= name);
    assert(x.subrange(n + 1, x.len() as int) =~= a);
    assert(y.subrange(n + 1, y.len() as int) =~= b);
}

/// A new service comes up replica by replica: its volumes are set up for a node
/// that takes work, its replicas are started in their order, each once the one
/// before runs, and the start ends well exactly when all of them do; what fails
/// ends it.
pub proof fn services_come_up_replica_by_replica(
    start: ServiceStart,
    event: RolloutEvent,
    phase: ServicePhase,
    action: RolloutAction,
)
    requires
        start.wf(),
        service_step(start, event, phase, action),
    ensures
        action matches RolloutAction::SetUpVolumes { target } ==> event is State && exists|n: int|
            {
                &&& 0 <= n < event->State_0.nodes@.len()
                &&& (#[trigger] event->State_0.nodes@[n]).status is Ready
                &&& event->State_0.nodes@[n].raft_id == target
            },
        start.phase is Looking && !(action is SetUpVolumes) ==> action == RolloutAction::Finished(
            Err(DeployError::SchedulingFailed { service: start.name, replica: 0 }),
        ) && forall|n: int|
            0 <= n < event->State_0.nodes@.len() ==> !((
            #[trigger] event->State_0.nodes@[n]).status is Ready),
        action matches RolloutAction::StartAlloc { alloc_id, replica } ==> {
            &&& replica < start.replicas
            &&& phase == (ServicePhase::Starting { replica })
            &&& alloc_id@ == start.name@ + "-"@ + decimal(replica as nat)
            &&& match start.phase {
                ServicePhase::Starting { replica: before } => replica == before + 1
                    && event->Started_0 is Ok,
                _ => replica == 0 && event is VolumesSetUp && event->VolumesSetUp_0 is Ok,
            }
        },
        (action matches RolloutAction::Finished(outcome) && outcome is Ok) ==> match start.phase {
            ServicePhase::Starting { replica } => replica + 1 == start.replicas && event->Started_0
                is Ok,
            _ => start.replicas == 0 && event is VolumesSetUp,
        },
        event matches RolloutEvent::Started(Err(e)) ==> action == RolloutAction::Finished(Err(e)),
        event matches RolloutEvent::VolumesSetUp(Err(e)) ==> action == RolloutAction::Finished(
            Err(e),
        ),
{
    if event is State {
        first_ready_takes_work(event->State_0.nodes@);
    }
}

/// An update sets up the volumes for a node that takes work, numbers its
/// replicas in their order, and names each by a fresh suffix; a failed set-up
/// ends it before anything is started.
pub proof fn updates_begin_as_starts_do(
    update: RollingUpdate,
    event: RolloutEvent,
    next: RollingUpdate,
    action: RolloutAction,
)
    requires
        update.wf(),
        next.wf(),
        rolling_step(update, event, next, action),
    ensures
        action matches RolloutAction::SetUpVolumes { target } ==> event is State && exists|n: int|
            {
                &&& 0 <= n < event->State_0.nodes@.len()
                &&& (#[trigger] event->State_0.nodes@[n]).status is Ready
                &&& event->State_0.nodes@[n].raft_id == target
            },
        update.phase is Looking && !(action is SetUpVolumes) ==> action == RolloutAction::Finished(
            Err(DeployError::SchedulingFailed { service: update.name, replica: 0 }),
        ),
        event matches RolloutEvent::VolumesSetUp(Err(e)) ==> action == RolloutAction::Finished(
            Err(e),
        ),
        action matches RolloutAction::StartAlloc { alloc_id, replica } ==> {
            &&& event is Suffix
            &&& alloc_id@ == update.name@ + "-"@ + event->Suffix_0@
            &&& replica == update.replica
            &&& replica < update.replicas
        },
        update.phase is Locating ==> next.replica == update.replica + 1,
        !(update.phase is Locating) ==> next.replica == update.replica,
        (action matches RolloutAction::Finished(outcome) && outcome is Ok) ==> update.phase
            is Reporting && update.stop_error is None,
        update.phase is StoppingOld && event->Sent_0 is Err && update.stop_error is None
            ==> next.stop_error == Some(event->Sent_0->Err_0),
        update.phase is Reporting && update.stop_error is Some ==> action
            == RolloutAction::Finished(Err(DeployError::Node(update.stop_error->0))),
{
    if event is State {
        first_ready_takes_work(event->State_0.nodes@);
    }
    assert(next.old@.len() == next.old.len());
    assert(next.started@.len() == next.started.len());
}

/// Stopping a service stops each of its allocations on its node, one after
/// another, and ends well exactly when all commands were sent; the first that
/// was not ends it with that error.
pub proof fn stopping_a_service_stops_all_of_it(
    stop: ServiceStop,
    event: RolloutEvent,
    next: ServiceStop,
    action: RolloutAction,
)
    requires
        stop.wf(),
        next.wf(),
        stop_step(stop, event, next, action),
    ensures
        stop.phase is Listing ==> next.allocs@ == service_refs(event->State_0, stop.name@),
        next.phase matches StopPhase::Stopping { index } ==> {
            &&& action == (RolloutAction::Send {
                node: next.allocs@[index as int].1,
                command: NodeCommand::Stop { alloc_id: next.allocs@[index as int].0 },
            })
            &&& stop.phase is Listing ==> index == 0
            &&& stop.phase matches StopPhase::Stopping { index: before } ==> index == before + 1
                && event->Sent_0 is Ok && next.allocs@ == stop.allocs@
        },
        next.phase is Reporting ==> action == RolloutAction::Emit(
            Progress::Stopped { service: stop.name },
        ) && (stop.phase is Listing ==> next.allocs@.len() == 0) && (
        stop.phase matches StopPhase::Stopping { index } ==> index + 1 == stop.allocs@.len()
            && event->Sent_0 is Ok),
        event matches RolloutEvent::Sent(Err(e)) ==> action == RolloutAction::Finished(
            Err(DeployError::Node(e)),
        ),
        (action matches RolloutAction::Finished(outcome) && outcome is Ok) ==> stop.phase
            is Reporting,
{
    assert(next.allocs@.len() == next.allocs.len());
    assert(stop.allocs@.len() == stop.allocs.len());
}

/// An update goes on as its replicas do: one that runs is remembered with its node, the
/// next is begun while there is one to begin, one that does not come up has those before
/// it stopped where they are, and the old ones are stopped only when all new ones run.
pub proof fn updates_go_on_as_their_replicas_do(
    update: RollingUpdate,
    event: RolloutEvent,
    next: RollingUpdate,
    action: RolloutAction,
)
    requires
        update.wf(),
        rolling_step(update, event, next, action),
    ensures
        next.name == update.name,
        next.replicas == update.replicas,
        update.phase is Starting && event->Started_0 is Ok ==> action is ReadState,
        update.phase is Starting && event->Started_0 is Err ==> {
            &&& update.started@.len() == 0 ==> action == RolloutAction::Finished(
                Err(event->Started_0->Err_0),
            )
            &&& update.started@.len() > 0 ==> action == (RolloutAction::Send {
                node: update.started@[0].1,
                command: NodeCommand::Stop { alloc_id: update.started@[0].0 },
            })
        },
        update.phase matches RollingPhase::Locating { alloc_id } ==> {
            ||| next.started@ == update.started@ && forall|i: int|
                0 <= i < event->State_0.allocs@.len() ==> (
                #[trigger] event->State_0.allocs@[i]).id@ != alloc_id@
            ||| exists|i: int|
                {
                    &&& 0 <= i < event->State_0.allocs@.len()
                    &&& (#[trigger] event->State_0.allocs@[i]).id@ == alloc_id@
                    &&& next.started@ == update.started@.push(
                        (alloc_id, event->State_0.allocs@[i].node),
                    )
                }
        },
        update.phase is Locating && update.replica + 1 < update.replicas ==> action is Suffix,
        update.phase is Locating && update.replica + 1 == update.replicas && update.old@.len() > 0
            ==> action == (RolloutAction::Send {
            node: update.old@[0].1,
            command: NodeCommand::Stop { alloc_id: update.old@[0].0 },
        }),
        update.phase is Locating && update.replica + 1 == update.replicas && update.old@.len() == 0
            ==> action == RolloutAction::Emit(Progress::Stopped { service: update.name }),
        update.phase matches RollingPhase::StoppingOld { index } ==> {
            &&& index + 1 < update.old@.len() ==> action == (RolloutAction::Send {
                node: update.old@[index + 1].1,
                command: NodeCommand::Stop { alloc_id: update.old@[index + 1].0 },
            })
            &&& index + 1 == update.old@.len() ==> action == RolloutAction::Emit(
                Progress::Stopped { service: update.name },
            )
            &&& next.started@ == update.started@
        },
        update.phase matches RollingPhase::RollingBack { index, error } ==> {
            &&& index + 1 < update.started@.len() ==> action == (RolloutAction::Send {
                node: update.started@[index + 1].1,
                command: NodeCommand::Stop { alloc_id: update.started@[index + 1].0 },
            })
            &&& index + 1 == update.started@.len() ==> action == RolloutAction::Finished(
                Err(error),
            )
        },
        update.phase is Reporting && update.stop_error is None ==> action is Finished
            && action->Finished_0 is Ok,
        !(update.phase is Locating) ==> next.started@ == update.started@,
        !(update.phase is Listing) ==> next.old@ == update.old@,
{
    if let RollingPhase::Locating { alloc_id } = update.phase {
        allocations_are_found_by_id(event->State_0.allocs@, alloc_id@);
    }
}

} // verus!
