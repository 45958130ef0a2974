//! Starting one allocation of a service: placing it, running it and waiting
//! until it is ready.
//!
//! `AllocStart` decides what to do next. Whoever drives it performs each
//! action and hands back what came of it.
use crate::config::{
    command_view, copy_command, copy_health, AllocId, AllocKind, AllocStatus, ContainerSpec,
    ContainerVolume, HealthCheck, NodeId, NodeStatus, Resources, ServiceDef, VolumeDef,
    VolumeState,
};
use crate::error::{DeployError, NodeError};
use crate::fsm::{node_named, nodes_are_found_by_name, Command, FsmState, Proposed};
use crate::net::SocketAddr;
use crate::primary::api::sse::Progress;
use crate::primary::deploy::resolve::{
    environments_hold_all_variables, pair_texts, resolve_env, resolved, value_text,
};
use crate::primary::scheduler::{
    is_placed, placements_have_room, schedule, volumes_pin_their_allocation, ScheduleRequest,
};
use crate::rpc::protocol::NodeCommand;
use vstd::prelude::*;

verus! {

/// What the driver is asked to do.
#[derive(Debug, PartialEq, Eq)]
pub enum StartAction {
    /// Read the replicated state.
    ReadState,
    /// Tell the client.
    Emit(Progress),
    /// Propose a command.
    Propose(Command),
    /// Send a command to a node.
    Send { node: NodeId, command: NodeCommand },
    /// Wait until the allocation runs.
    AwaitRunning { alloc_id: AllocId },
    /// Wait until the allocation has an address.
    AwaitAddress { alloc_id: AllocId },
    /// Wait until the address answers: to the health check where there is
    /// one, to a connection elsewhere.
    Probe { address: SocketAddr, health: Option<HealthCheck> },
    /// Nothing: this is the outcome.
    Finished(Result<(), DeployError>),
}

/// What came of an action.
#[derive(Debug, PartialEq, Eq)]
pub enum StartEvent {
    State(FsmState),
    Emitted,
    Proposed(Proposed),
    Sent(Result<(), NodeError>),
    Running(Result<(), DeployError>),
    Address(Option<SocketAddr>),
    Probed(bool),
}

/// How far the start has come.
#[derive(Debug, PartialEq, Eq)]
pub enum StartPhase {
    /// A node is to be picked.
    Placing,
    /// The client hears of the node.
    Announcing { node: NodeId },
    /// The number of the node is looked up.
    Locating { node: NodeId },
    /// The allocation is being recorded.
    Recording { node: NodeId },
    /// The environment is put together.
    Resolving { node: NodeId },
    /// The node is told to run the container.
    Sending,
    /// The client hears that it starts.
    Starting,
    /// The container comes up.
    AwaitingRun,
    /// The address is reported.
    AwaitingAddress,
    /// The address is probed.
    Probing,
    /// The allocation is being recorded as healthy.
    Confirming,
    /// The client hears that it is healthy.
    Reporting,
    /// The allocation is being recorded as failed.
    Failing { error: DeployError },
    /// The outcome is known.
    Ended,
}

/// The start of one allocation of a service.
#[derive(Debug, PartialEq, Eq)]
pub struct AllocStart {
    pub name: String,
    pub def: ServiceDef,
    pub alloc_id: AllocId,
    pub replica: u32,
    pub phase: StartPhase,
}

/// The request for a node for a replica of a service.
pub open spec fn request_for<'a>(name: &'a String, def: &'a ServiceDef) -> ScheduleRequest<'a> {
    ScheduleRequest {
        need: &def.resources,
        name,
        kind: AllocKind::Service,
        volume: if def.volumes@.len() > 0 {
            Some(&def.volumes@[0].name)
        } else {
            None
        },
    }
}

/// Whether `node` is where a request is placed, by the rules of the
/// scheduler.
pub open spec fn is_placement(
    request: ScheduleRequest<'_>,
    fsm: FsmState,
    node: Option<NodeId>,
) -> bool {
    is_placed(request, fsm.nodes@, fsm.allocs@, fsm.volumes@, fsm.available@, node)
}

/// What containers see of volumes.
pub open spec fn container_volumes(volumes: Seq<VolumeDef>) -> Seq<ContainerVolume> {
    Seq::new(
        volumes.len(),
        |i: int|
            ContainerVolume {
                name: volumes[i].name,
                path: volumes[i].path,
                ephemeral: volumes[i].ephemeral,
            },
    )
}

/// Whether a container is made from the definition of a service, with the
/// given environment.
pub open spec fn is_service_spec(
    spec: ContainerSpec,
    def: ServiceDef,
    alloc_id: AllocId,
    env: Seq<(Seq<char>, Seq<char>)>,
) -> bool {
    &&& spec.alloc_id == alloc_id
    &&& spec.kind is Service
    &&& spec.timeout is None
    &&& command_view(spec.command) == command_view(def.command)
    &&& spec.image == def.image
    &&& pair_texts(spec.env@) == env
    &&& spec.port == Some(def.port)
    &&& spec.host_port is None
    &&& spec.cpu == def.resources.cpu
    &&& spec.memory == def.resources.memory
    &&& spec.volumes@ == container_volumes(def.volumes@)
}

impl StartPhase {
    /// Whether an event answers the action that led to the phase.
    pub open spec fn expects(self, event: StartEvent) -> bool {
        match self {
            StartPhase::Placing => event is State,
            StartPhase::Announcing { .. } => event is Emitted,
            StartPhase::Locating { .. } => event is State,
            StartPhase::Recording { .. } => event is Proposed,
            StartPhase::Resolving { .. } => event is State,
            StartPhase::Sending => event is Sent,
            StartPhase::Starting => event is Emitted,
            StartPhase::AwaitingRun => event is Running,
            StartPhase::AwaitingAddress => event is Address,
            StartPhase::Probing => event is Probed,
            StartPhase::Confirming => event is Proposed,
            StartPhase::Reporting => event is Emitted,
            StartPhase::Failing { .. } => event is Proposed,
            StartPhase::Ended => false,
        }
    }

    /// Whether the allocation has been recorded, and may no longer fail
    /// without a trace.
    pub open spec fn recorded(self) -> bool {
        match self {
            StartPhase::Placing => false,
            StartPhase::Announcing { .. } => false,
            StartPhase::Locating { .. } => false,
            StartPhase::Recording { .. } => false,
            _ => true,
        }
    }
}

/// The command that records an allocation as failed for the given reason.
pub open spec fn is_failure_record(action: StartAction, alloc_id: AllocId, error: DeployError) -> bool {
    &&& action matches StartAction::Propose(command)
    &&& command matches Command::AllocStatus { alloc_id: id, status }
    &&& id == alloc_id
    &&& status matches AllocStatus::Failed { reason }
    &&& reason@ == error.message()
}

/// Whether a step ends in recording the given failure.
pub open spec fn fails_with(
    alloc_id: AllocId,
    phase: StartPhase,
    action: StartAction,
    error: DeployError,
) -> bool {
    phase == (StartPhase::Failing { error }) && is_failure_record(action, alloc_id, error)
}

/// What one step does: the phase and the action that follow an event.
pub open spec fn start_step(
    start: AllocStart,
    event: StartEvent,
    phase: StartPhase,
    action: StartAction,
) -> bool {
    let refused = DeployError::SchedulingFailed { service: start.name, replica: start.replica };
    let timeout = DeployError::HealthCheckTimeout { service: start.name };
    match (start.phase, event) {
        (StartPhase::Placing, StartEvent::State(fsm)) => exists|node: Option<NodeId>| #[trigger]
            is_placement(request_for(&start.name, &start.def), fsm, node) && match node {
                Some(id) => phase == (StartPhase::Announcing { node: id }) && action
                    == StartAction::Emit(Progress::Scheduled { service: start.name, node: id }),
                None => phase is Ended && action == StartAction::Finished(Err(refused)),
            },
        (StartPhase::Announcing { node }, StartEvent::Emitted) => phase == (StartPhase::Locating {
            node,
        }) && action is ReadState,
        (StartPhase::Locating { node }, StartEvent::State(fsm)) => match node_named(
            fsm.nodes@,
            node@,
        ) {
            Some(n) => phase == (StartPhase::Recording { node }) && action == StartAction::Propose(
                Command::AllocScheduled {
                    alloc_id: start.alloc_id,
                    node_id: n.raft_id,
                    name: start.name,
                    kind: AllocKind::Service,
                    address: None,
                    resources: start.def.resources,
                },
            ),
            None => phase is Ended && action == StartAction::Finished(Err(refused)),
        },
        (StartPhase::Recording { node }, StartEvent::Proposed(outcome)) => match outcome {
            Proposed::Unreached(e) => phase is Ended && action == StartAction::Finished(
                Err(DeployError::Node(NodeError::Raft(e))),
            ),
            _ => phase == (StartPhase::Resolving { node }) && action is ReadState,
        },
        (StartPhase::Resolving { node }, StartEvent::State(fsm)) => match resolved(
            fsm,
            start.def.env@,
        ) {
            Ok(env) => {
                &&& phase is Sending
                &&& action matches StartAction::Send { node: to, command }
                &&& to == node
                &&& command matches NodeCommand::Run { alloc_id, spec, auth }
                &&& alloc_id == start.alloc_id
                &&& auth is None
                &&& is_service_spec(spec, start.def, start.alloc_id, env)
            },
            Err(words) => {
                &&& phase matches StartPhase::Failing { error }
                &&& error matches DeployError::EnvResolution(w)
                &&& w@ == words
                &&& is_failure_record(action, start.alloc_id, error)
            },
        },
        (StartPhase::Sending, StartEvent::Sent(outcome)) => match outcome {
            Ok(()) => phase is Starting && action == StartAction::Emit(
                Progress::Starting { service: start.name },
            ),
            Err(e) => fails_with(start.alloc_id, phase, action, DeployError::Node(e)),
        },
        (StartPhase::Starting, StartEvent::Emitted) => phase is AwaitingRun && action
            == (StartAction::AwaitRunning { alloc_id: start.alloc_id }),
        (StartPhase::AwaitingRun, StartEvent::Running(outcome)) => match outcome {
            Ok(()) => phase is AwaitingAddress && action == (StartAction::AwaitAddress {
                alloc_id: start.alloc_id,
            }),
            Err(e) => fails_with(start.alloc_id, phase, action, e),
        },
        (StartPhase::AwaitingAddress, StartEvent::Address(found)) => match found {
            Some(address) => phase is Probing && action == (StartAction::Probe {
                address,
                health: start.def.health,
            }),
            None => fails_with(start.alloc_id, phase, action, timeout),
        },
        (StartPhase::Probing, StartEvent::Probed(ready)) => if ready {
            phase is Confirming && action == StartAction::Propose(
                Command::AllocStatus { alloc_id: start.alloc_id, status: AllocStatus::Healthy },
            )
        } else {
            fails_with(start.alloc_id, phase, action, timeout)
        },
        (StartPhase::Confirming, StartEvent::Proposed(outcome)) => match outcome {
            Proposed::Unreached(e) => fails_with(
                start.alloc_id,
                phase,
                action,
                DeployError::Node(NodeError::Raft(e)),
            ),
            _ => phase is Reporting && action == StartAction::Emit(
                Progress::Healthy { service: start.name },
            ),
        },
        (StartPhase::Reporting, StartEvent::Emitted) => phase is Ended && action
            == StartAction::Finished(Ok(())),
        (StartPhase::Failing { error }, StartEvent::Proposed(_)) => phase is Ended && action
            == StartAction::Finished(Err(error)),
        _ => false,
    }
}

/// What containers see of volumes.
fn list_volumes(volumes: &Vec<VolumeDef>) -> (res: Vec<ContainerVolume>)
    ensures
        res@ == container_volumes(volumes@),
        res@.len() == volumes@.len(),
        forall|i: int|
            0 <= i < volumes@.len() ==> {
                &&& (#[trigger] res@[i]).name@ == volumes@[i].name@
                &&& res@[i].path@ == volumes@[i].path@
                &&& res@[i].ephemeral == volumes@[i].ephemeral
            },
{
    let mut out: Vec<ContainerVolume> = Vec::new();
    let mut i: usize = 0;
    while i < volumes.len()
        invariant
            i <= volumes@.len(),
            out@.len() == i,
            forall|j: int| 0 <= j < i ==> out@[j] == container_volumes(volumes@)[j],
        decreases volumes@.len() - i,
    {
        let v = &volumes[i];
        out.push(
            ContainerVolume { name: v.name.clone(), path: v.path.clone(), ephemeral: v.ephemeral },
        );
        i = i + 1;
    }
    assert(out@ =~= container_volumes(volumes@));
    out
}

/// What a container of a service is made from.
pub fn service_spec(def: &ServiceDef, alloc_id: &AllocId, env: Vec<(String, String)>) -> (res: ContainerSpec)
    ensures
        is_service_spec(res, *def, *alloc_id, pair_texts(env@)),
{
    ContainerSpec {
        alloc_id: alloc_id.clone(),
        kind: AllocKind::Service,
        timeout: None,
        command: copy_command(&def.command),
        image: def.image.clone(),
        env,
        port: Some(def.port),
        host_port: None,
        cpu: def.resources.cpu,
        memory: def.resources.memory,
        volumes: list_volumes(&def.volumes),
    }
}

/// Picks a node for a replica of a service.
pub fn place_service(fsm: &FsmState, name: &String, def: &ServiceDef) -> (res: Option<NodeId>)
    ensures
        is_placement(request_for(name, def), *fsm, res),
{
    let volume = if def.volumes.len() > 0 {
        Some(&def.volumes[0].name)
    } else {
        None
    };
    let request = ScheduleRequest {
        need: &def.resources,
        name,
        kind: AllocKind::Service,
        volume,
    };
    schedule(&request, &fsm.nodes, &fsm.allocs, &fsm.volumes, &fsm.available)
}

impl AllocStart {
    /// A start that has not begun. The first action is to read the state.
    pub fn new(name: String, def: ServiceDef, alloc_id: AllocId, replica: u32) -> (res: AllocStart)
        ensures
            res == (AllocStart { name, def, alloc_id, replica, phase: StartPhase::Placing }),
    {
        AllocStart { name, def, alloc_id, replica, phase: StartPhase::Placing }
    }

    fn fail(&mut self, error: DeployError) -> (res: StartAction)
        ensures
            final(self).name == old(self).name,
            final(self).def == old(self).def,
            final(self).alloc_id == old(self).alloc_id,
            final(self).replica == old(self).replica,
            fails_with(old(self).alloc_id, final(self).phase, res, error),
    {
        let reason = error.to_text();
        self.phase = StartPhase::Failing { error };
        StartAction::Propose(
            Command::AllocStatus {
                alloc_id: self.alloc_id.clone(),
                status: AllocStatus::Failed { reason },
            },
        )
    }

    fn refuse(&mut self) -> (res: StartAction)
        ensures
            *final(self) == (AllocStart { phase: StartPhase::Ended, ..*old(self) }),
            res == StartAction::Finished(
                Err(
                    DeployError::SchedulingFailed {
                        service: old(self).name,
                        replica: old(self).replica,
                    },
                ),
            ),
    {
        self.phase = StartPhase::Ended;
        StartAction::Finished(
            Err(
                DeployError::SchedulingFailed { service: self.name.clone(), replica: self.replica },
            ),
        )
    }

    /// Takes what came of the last action and gives the next one.
    pub fn step(&mut self, event: StartEvent) -> (res: StartAction)
        requires
            old(self).phase.expects(event),
        ensures
            final(self).name == old(self).name,
            final(self).def == old(self).def,
            final(self).alloc_id == old(self).alloc_id,
            final(self).replica == old(self).replica,
            start_step(*old(self), event, final(self).phase, res),
    {
        match (&self.phase, event) {
            (StartPhase::Placing, StartEvent::State(fsm)) => {
                let node = place_service(&fsm, &self.name, &self.def);
                assert(is_placement(request_for(&self.name, &self.def), fsm, node));
                match node {
                    Some(id) => {
                        let action = StartAction::Emit(
                            Progress::Scheduled { service: self.name.clone(), node: id.clone() },
                        );
                        self.phase = StartPhase::Announcing { node: id };
                        action
                    },
                    None => self.refuse(),
                }
            },
            (StartPhase::Announcing { node }, _) => {
                self.phase = StartPhase::Locating { node: node.clone() };
                StartAction::ReadState
            },
            (StartPhase::Locating { node }, StartEvent::State(fsm)) => match fsm.raft_id_for(node) {
                Some(node_id) => {
                    self.phase = StartPhase::Recording { node: node.clone() };
                    StartAction::Propose(
                        Command::AllocScheduled {
                            alloc_id: self.alloc_id.clone(),
                            node_id,
                            name: self.name.clone(),
                            kind: AllocKind::Service,
                            address: None,
                            resources: self.def.resources,
                        },
                    )
                },
                None => self.refuse(),
            },
            (StartPhase::Recording { node }, StartEvent::Proposed(outcome)) => match outcome {
                Proposed::Unreached(e) => {
                    self.phase = StartPhase::Ended;
                    StartAction::Finished(Err(DeployError::Node(NodeError::Raft(e))))
                },
                _ => {
                    self.phase = StartPhase::Resolving { node: node.clone() };
                    StartAction::ReadState
                },
            },
            (StartPhase::Resolving { node }, StartEvent::State(fsm)) => match resolve_env(
                &fsm,
                &self.def.env,
            ) {
                Ok(env) => {
                    let to = node.clone();
                    let spec = service_spec(&self.def, &self.alloc_id, env);
                    self.phase = StartPhase::Sending;
                    StartAction::Send {
                        node: to,
                        command: NodeCommand::Run {
                            alloc_id: self.alloc_id.clone(),
                            spec,
                            auth: None,
                        },
                    }
                },
                Err(e) => self.fail(e),
            },
            (StartPhase::Sending, StartEvent::Sent(outcome)) => match outcome {
                Ok(()) => {
                    self.phase = StartPhase::Starting;
                    StartAction::Emit(Progress::Starting { service: self.name.clone() })
                },
                Err(e) => self.fail(DeployError::Node(e)),
            },
            (StartPhase::Starting, _) => {
                self.phase = StartPhase::AwaitingRun;
                StartAction::AwaitRunning { alloc_id: self.alloc_id.clone() }
            },
            (StartPhase::AwaitingRun, StartEvent::Running(outcome)) => match outcome {
                Ok(()) => {
                    self.phase = StartPhase::AwaitingAddress;
                    StartAction::AwaitAddress { alloc_id: self.alloc_id.clone() }
                },
                Err(e) => self.fail(e),
            },
            (StartPhase::AwaitingAddress, StartEvent::Address(found)) => match found {
                Some(address) => {
                    self.phase = StartPhase::Probing;
                    StartAction::Probe { address, health: copy_health(&self.def.health) }
                },
                None => {
                    let service = self.name.clone();
                    self.fail(DeployError::HealthCheckTimeout { service })
                },
            },
            (StartPhase::Probing, StartEvent::Probed(ready)) => if ready {
                self.phase = StartPhase::Confirming;
                StartAction::Propose(
                    Command::AllocStatus {
                        alloc_id: self.alloc_id.clone(),
                        status: AllocStatus::Healthy,
                    },
                )
            } else {
                let service = self.name.clone();
                self.fail(DeployError::HealthCheckTimeout { service })
            },
            (StartPhase::Confirming, StartEvent::Proposed(outcome)) => match outcome {
                Proposed::Unreached(e) => self.fail(DeployError::Node(NodeError::Raft(e))),
                _ => {
                    self.phase = StartPhase::Reporting;
                    StartAction::Emit(Progress::Healthy { service: self.name.clone() })
                },
            },
            (StartPhase::Reporting, _) => {
                self.phase = StartPhase::Ended;
                StartAction::Finished(Ok(()))
            },
            (StartPhase::Failing { error }, _) => {
                let outcome = StartAction::Finished(Err(error.clone()));
                self.phase = StartPhase::Ended;
                outcome
            },
            _ => StartAction::ReadState,
        }
    }
}

/// Once an allocation has been recorded, the start never ends in an error
/// before the allocation has been recorded as failed for that reason.
pub proof fn recorded_failures_are_marked(
    start: AllocStart,
    event: StartEvent,
    phase: StartPhase,
    action: StartAction,
)
    requires
        start_step(start, event, phase, action),
    ensures
        start.phase.recorded() ==> (action matches StartAction::Finished(Err(e)) ==> start.phase
            == (StartPhase::Failing { error: e })),
        phase matches StartPhase::Failing { error } ==> is_failure_record(
            action,
            start.alloc_id,
            error,
        ),
{
}

/// An allocation is recorded as healthy only right after its address answered.
pub proof fn healthy_only_after_probe(
    start: AllocStart,
    event: StartEvent,
    phase: StartPhase,
    action: StartAction,
    alloc_id: AllocId,
)
    requires
        start_step(start, event, phase, action),
        action == StartAction::Propose(
            Command::AllocStatus { alloc_id, status: AllocStatus::Healthy },
        ),
    ensures
        event == StartEvent::Probed(true),
        alloc_id == start.alloc_id,
{
}

/// Whether a start went through these phases: each event led from one phase to
/// the next, with the action beside it.
pub open spec fn is_run(
    start: AllocStart,
    phases: Seq<StartPhase>,
    events: Seq<StartEvent>,
    actions: Seq<StartAction>,
) -> bool {
    &&& phases.len() == events.len() + 1
    &&& actions.len() == events.len()
    &&& phases[0] is Placing
    &&& forall|i: int|
        0 <= i < events.len() ==> #[trigger] start_step(
            AllocStart { phase: phases[i], ..start },
            events[i],
            phases[i + 1],
            actions[i],
        )
}

/// A start ends well only after the address of the allocation has answered and
/// the allocation has been recorded as healthy.
pub proof fn success_only_when_healthy(
    start: AllocStart,
    phases: Seq<StartPhase>,
    events: Seq<StartEvent>,
    actions: Seq<StartAction>,
)
    requires
        is_run(start, phases, events, actions),
        actions.len() > 0,
        actions.last() == StartAction::Finished(Ok(())),
    ensures
        actions.len() > 3,
        events[events.len() - 3] == StartEvent::Probed(true),
        actions[actions.len() - 3] == StartAction::Propose(
            Command::AllocStatus { alloc_id: start.alloc_id, status: AllocStatus::Healthy },
        ),
        events[events.len() - 2] matches StartEvent::Proposed(outcome) && !(outcome is Unreached),
{
    let n = events.len() as int;
    assert(start_step(
        AllocStart { phase: phases[n - 1], ..start },
        events[n - 1],
        phases[n - 1 + 1],
        actions[n - 1],
    ));
    assert(phases[n - 1] is Reporting);
    assert(start_step(
        AllocStart { phase: phases[n - 2], ..start },
        events[n - 2],
        phases[n - 2 + 1],
        actions[n - 2],
    ));
    assert(phases[n - 2] is Confirming);
    assert(start_step(
        AllocStart { phase: phases[n - 3], ..start },
        events[n - 3],
        phases[n - 3 + 1],
        actions[n - 3],
    ));
    assert(phases[n - 3] is Probing);
}

/// The node is told to run exactly what the definition of the service says:
/// its image, command, port and resources, each of its volumes with its name,
/// its path and whether it is ephemeral, and each of its variables with the
/// text that the state gives for it.
pub proof fn containers_run_as_defined(
    start: AllocStart,
    fsm: FsmState,
    phase: StartPhase,
    node: NodeId,
    command: NodeCommand,
)
    requires
        start_step(
            start,
            StartEvent::State(fsm),
            phase,
            StartAction::Send { node, command },
        ),
    ensures
        start.phase == (StartPhase::Resolving { node }),
        command matches NodeCommand::Run { alloc_id, spec, auth } && {
            &&& alloc_id == start.alloc_id
            &&& auth is None
            &&& spec.alloc_id == start.alloc_id
            &&& spec.kind == AllocKind::Service
            &&& spec.timeout is None
            &&& spec.image@ == start.def.image@
            &&& spec.port == Some(start.def.port)
            &&& spec.host_port is None
            &&& spec.cpu == start.def.resources.cpu
            &&& spec.memory == start.def.resources.memory
            &&& spec.command is Some <==> start.def.command is Some
            &&& spec.command is Some ==> {
                &&& spec.command->0@.len() == start.def.command->0@.len()
                &&& forall|i: int|
                    0 <= i < spec.command->0@.len() ==> (#[trigger] spec.command->0@[i])@
                        == start.def.command->0@[i]@
            }
            &&& spec.volumes@.len() == start.def.volumes@.len()
            &&& forall|i: int|
                0 <= i < spec.volumes@.len() ==> {
                    &&& (#[trigger] spec.volumes@[i]).name@ == start.def.volumes@[i].name@
                    &&& spec.volumes@[i].path@ == start.def.volumes@[i].path@
                    &&& spec.volumes@[i].ephemeral == start.def.volumes@[i].ephemeral
                }
            &&& spec.env@.len() == start.def.env@.len()
            &&& forall|i: int|
                0 <= i < spec.env@.len() ==> (#[trigger] spec.env@[i]).0@ == start.def.env@[i].0@
                    && value_text(fsm, start.def.env@[i].1) == Ok::<Seq<char>, Seq<char>>(
                    spec.env@[i].1@,
                )
        },
{
    environments_hold_all_variables(fsm, start.def.env@);
    let spec = command->Run_spec;
    let env = pair_texts(spec.env@);
    assert(resolved(fsm, start.def.env@) == Ok::<Seq<(Seq<char>, Seq<char>)>, Seq<char>>(env));
    assert forall|i: int| 0 <= i < spec.env@.len() implies (#[trigger] spec.env@[i]).0@
        == start.def.env@[i].0@ && value_text(fsm, start.def.env@[i].1) == Ok::<
        Seq<char>,
        Seq<char>,
    >(spec.env@[i].1@) by {
        assert(env[i].0 == start.def.env@[i].0@);
    }
    if spec.command is Some {
        let words = command_view(spec.command)->0;
        let defined = command_view(start.def.command)->0;
        assert(words == defined);
        assert forall|i: int| 0 <= i < spec.command->0@.len() implies (
        #[trigger] spec.command->0@[i])@ == start.def.command->0@[i]@ by {
            assert(words[i] == defined[i]);
        }
    }
}

/// A replica is announced only for a node that takes work and has as much CPU
/// and memory left as the definition of the service asks for; where its first
/// volume is attached, only for the node that it is attached to.
pub proof fn replicas_are_announced_where_they_fit(
    start: AllocStart,
    fsm: FsmState,
    node: NodeId,
    action: StartAction,
)
    requires
        start_step(
            start,
            StartEvent::State(fsm),
            StartPhase::Announcing { node },
            action,
        ),
    ensures
        action == StartAction::Emit(Progress::Scheduled { service: start.name, node }),
        exists|i: int, k: int|
            {
                &&& 0 <= i < fsm.nodes@.len()
                &&& 0 <= k < fsm.available@.len()
                &&& (#[trigger] fsm.nodes@[i]).mill_id@ == node@
                &&& fsm.nodes@[i].status == NodeStatus::Ready
                &&& (#[trigger] fsm.available@[k]).0 == fsm.nodes@[i].raft_id
                &&& forall|m: int|
                    0 <= m < k ==> (#[trigger] fsm.available@[m]).0 != fsm.nodes@[i].raft_id
                &&& start.def.resources.cpu <= fsm.available@[k].1.cpu_available
                &&& start.def.resources.memory <= fsm.available@[k].1.memory_available
            },
        start.def.volumes@.len() > 0 ==> forall|v: int|
            0 <= v < fsm.volumes@.len() && (#[trigger] fsm.volumes@[v]).0@
                == start.def.volumes@[0].name@ && (forall|w: int|
                0 <= w < v ==> (#[trigger] fsm.volumes@[w]).0@ != start.def.volumes@[0].name@) ==> (
            fsm.volumes@[v].1.state matches VolumeState::Attached { node: at } ==> at == node),
{
    let request = request_for(&start.name, &start.def);
    placements_have_room(
        request,
        fsm.nodes@,
        fsm.allocs@,
        fsm.volumes@,
        fsm.available@,
        node,
    );
    if start.def.volumes@.len() > 0 {
        let name = &start.def.volumes@[0].name;
        assert forall|v: int|
            0 <= v < fsm.volumes@.len() && (#[trigger] fsm.volumes@[v]).0@ == name@ && (forall|
                w: int,
            |
                0 <= w < v ==> (#[trigger] fsm.volumes@[w]).0@ != name@) implies (
        fsm.volumes@[v].1.state matches VolumeState::Attached { node: at } ==> at == node) by {
            if let VolumeState::Attached { node: at } = fsm.volumes@[v].1.state {
                volumes_pin_their_allocation(
                    request,
                    fsm.nodes@,
                    fsm.allocs@,
                    fsm.volumes@,
                    fsm.available@,
                    node,
                    name,
                    v,
                    at,
                );
            }
        }
    }
}

/// An allocation is recorded for the node that it was announced for, with the
/// name and the resources of its service; the state knows that node by the
/// recorded number.
pub proof fn replicas_are_recorded_where_announced(
    start: AllocStart,
    event: StartEvent,
    phase: StartPhase,
    alloc_id: AllocId,
    node_id: u64,
    name: String,
    kind: AllocKind,
    address: Option<SocketAddr>,
    resources: Resources,
)
    requires
        start_step(
            start,
            event,
            phase,
            StartAction::Propose(
                Command::AllocScheduled { alloc_id, node_id, name, kind, address, resources },
            ),
        ),
    ensures
        alloc_id == start.alloc_id,
        name == start.name,
        kind == AllocKind::Service,
        address is None,
        resources.cpu == start.def.resources.cpu,
        resources.memory == start.def.resources.memory,
        start.phase matches StartPhase::Locating { node } && phase == (StartPhase::Recording { node })
            && (event matches StartEvent::State(fsm) && exists|i: int|
            0 <= i < fsm.nodes@.len() && (#[trigger] fsm.nodes@[i]).raft_id == node_id
                && fsm.nodes@[i].mill_id@ == node@),
{
    let fsm = event->State_0;
    nodes_are_found_by_name(fsm.nodes@, start.phase->Locating_node@);
}

/// Whatever goes wrong once an allocation is recorded is recorded as the reason
/// of its failure, and is what the start ends with: a command that does not
/// reach the node, a container that does not run, an address that never comes or
/// does not answer.
pub proof fn failures_are_recorded_with_their_reason(
    start: AllocStart,
    event: StartEvent,
    phase: StartPhase,
    action: StartAction,
    error: DeployError,
)
    requires
        start_step(start, event, phase, action),
        ({
            ||| start.phase is Sending && (event matches StartEvent::Sent(Err(e)) && error
                == DeployError::Node(e))
            ||| start.phase is AwaitingRun && event == StartEvent::Running(Err(error))
            ||| start.phase is AwaitingAddress && event == StartEvent::Address(None) && error == (
            DeployError::HealthCheckTimeout { service: start.name })
            ||| start.phase is Probing && event == StartEvent::Probed(false) && error == (
            DeployError::HealthCheckTimeout { service: start.name })
        }),
    ensures
        phase == (StartPhase::Failing { error }),
        action matches StartAction::Propose(Command::AllocStatus { alloc_id, status }) && alloc_id
            == start.alloc_id && (status matches AllocStatus::Failed { reason } && reason@
            == error.message()),
{
}

/// A start that ends well has done all of this, in this order: told the client
/// of the node, recorded the allocation, told the node to run it, told the
/// client, waited until it runs and has an address, probed that very address as
/// the definition says, recorded it as healthy, and told the client.
pub proof fn good_starts_leave_nothing_out(
    start: AllocStart,
    phases: Seq<StartPhase>,
    events: Seq<StartEvent>,
    actions: Seq<StartAction>,
)
    requires
        is_run(start, phases, events, actions),
        actions.len() > 0,
        actions.last() == StartAction::Finished(Ok(())),
    ensures
        actions.len() == 12,
        actions[0] matches StartAction::Emit(Progress::Scheduled { service, node }) && service
            == start.name && (actions[4] matches StartAction::Send { node: to, command } && to
            == node && command is Run && command->Run_alloc_id == start.alloc_id),
        actions[2] matches StartAction::Propose(
            Command::AllocScheduled { alloc_id, name, kind, resources, .. },
        ) && alloc_id == start.alloc_id && name == start.name && kind == AllocKind::Service
            && resources == start.def.resources,
        events[5] is Sent && events[5]->Sent_0 is Ok,
        actions[5] == StartAction::Emit(Progress::Starting { service: start.name }),
        actions[6] == (StartAction::AwaitRunning { alloc_id: start.alloc_id }),
        events[7] is Running && events[7]->Running_0 is Ok,
        actions[7] == (StartAction::AwaitAddress { alloc_id: start.alloc_id }),
        events[8] matches StartEvent::Address(Some(address)) && actions[8] == (StartAction::Probe {
            address,
            health: start.def.health,
        }),
        events[9] == StartEvent::Probed(true),
        actions[9] == StartAction::Propose(
            Command::AllocStatus { alloc_id: start.alloc_id, status: AllocStatus::Healthy },
        ),
        actions[10] == StartAction::Emit(Progress::Healthy { service: start.name }),
{
    lemma_run_step(start, phases, events, actions, 0);
    lemma_run_step(start, phases, events, actions, 1);
    lemma_run_step(start, phases, events, actions, 2);
    lemma_run_step(start, phases, events, actions, 3);
    lemma_run_step(start, phases, events, actions, 4);
    lemma_run_step(start, phases, events, actions, 5);
    lemma_run_step(start, phases, events, actions, 6);
    lemma_run_step(start, phases, events, actions, 7);
    lemma_run_step(start, phases, events, actions, 8);
    lemma_run_step(start, phases, events, actions, 9);
    lemma_run_step(start, phases, events, actions, 10);
    lemma_run_step(start, phases, events, actions, 11);
    lemma_run_step(start, phases, events, actions, 12);
    success_only_when_healthy(start, phases, events, actions);
}

/// A start that may still end well goes on by its step, and one that fails or
/// has ended does not end well after that.
proof fn lemma_run_step(
    start: AllocStart,
    phases: Seq<StartPhase>,
    events: Seq<StartEvent>,
    actions: Seq<StartAction>,
    i: int,
)
    requires
        is_run(start, phases, events, actions),
        actions.len() > 0,
        actions.last() == StartAction::Finished(Ok(())),
        0 <= i,
    ensures
        i < events.len() ==> start_step(
            AllocStart { phase: phases[i], ..start },
            events[i],
            phases[i + 1],
            actions[i],
        ),
        i < events.len() ==> !(phases[i] is Failing) && !(phases[i] is Ended),
{
    let n = events.len() as int;
    if i < n {
        assert(start_step(
            AllocStart { phase: phases[i], ..start },
            events[i],
            phases[i + 1],
            actions[i],
        ));
        if phases[i] is Failing && i + 1 < n {
            assert(start_step(
                AllocStart { phase: phases[i + 1], ..start },
                events[i + 1],
                phases[i + 1 + 1],
                actions[i + 1],
            ));
        }
    }
}

} // verus!
