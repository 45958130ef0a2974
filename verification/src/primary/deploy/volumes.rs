//! Making sure that the volumes of a service exist and are attached to the
//! node where it will run.
use crate::config::{lemma_position, NodeId, VolumeDef, VolumeState};
use crate::error::{DeployError, NodeError, StorageError};
use crate::fsm::{node_numbered, nodes_are_found_by_number, Command, FsmState, Proposed};
use crate::units::gib;
use vstd::prelude::*;

verus! {

/// What the driver is asked to do.
#[derive(Debug, PartialEq, Eq)]
pub enum VolumeAction {
    /// Read the replicated state.
    ReadState,
    /// Have the volume made, of the given size in bytes.
    Create { name: String, size: u64 },
    /// Have the volume detached.
    Detach { name: String },
    /// Have the volume attached to a cloud instance.
    Attach { name: String, instance_id: String },
    /// Propose a command.
    Propose(Command),
    /// Nothing: this is the outcome.
    Finished(Result<(), DeployError>),
}

/// What came of an action.
#[derive(Debug, PartialEq, Eq)]
pub enum VolumeEvent {
    State(FsmState),
    Created(Result<String, StorageError>),
    Detached(Result<(), StorageError>),
    Attached(Result<(), StorageError>),
    Proposed(Proposed),
}

/// How far the volume in turn has come.
#[derive(Clone, Copy, Debug, PartialEq, Eq, Structural)]
pub enum VolumePhase {
    /// Its state is looked up.
    Looking,
    /// It is being made.
    Creating,
    /// It is being recorded as made.
    RecordingCreated,
    /// It is being detached.
    Detaching,
    /// It is being recorded as detached.
    RecordingDetached,
    /// The cloud instance of the node is looked up.
    LookingForInstance,
    /// It is being attached.
    Attaching,
    /// It is being recorded as attached.
    RecordingAttached,
    /// The outcome is known.
    Ended,
}

impl VolumePhase {
    /// Whether an event answers the action that led to the phase.
    pub open spec fn expects(self, event: VolumeEvent) -> bool {
        match self {
            VolumePhase::Looking => event is State,
            VolumePhase::Creating => event is Created,
            VolumePhase::RecordingCreated => event is Proposed,
            VolumePhase::Detaching => event is Detached,
            VolumePhase::RecordingDetached => event is Proposed,
            VolumePhase::LookingForInstance => event is State,
            VolumePhase::Attaching => event is Attached,
            VolumePhase::RecordingAttached => event is Proposed,
            VolumePhase::Ended => false,
        }
    }
}

/// The work on the volumes of a service. `has_driver` tells whether volumes
/// can be made, attached and detached in a cloud.
#[derive(Debug, PartialEq, Eq)]
pub struct VolumeSetup {
    pub volumes: Vec<VolumeDef>,
    pub target: u64,
    pub has_driver: bool,
    pub index: usize,
    pub phase: VolumePhase,
}

/// The size of a volume for which none is given: ten gibibytes.
pub const DEFAULT_VOLUME_SIZE: u64 = 10_737_418_240;

/// Where the first volume that persists stands, from `i` on.
pub open spec fn next_persistent(volumes: Seq<VolumeDef>, i: int) -> int
    decreases volumes.len() - i,
{
    if 0 <= i < volumes.len() {
        if volumes[i].ephemeral {
            next_persistent(volumes, i + 1)
        } else {
            i
        }
    } else {
        volumes.len() as int
    }
}

/// Whether the work goes on with the first persistent volume from `from` on,
/// or ends well where there is none.
pub open spec fn moves_on(
    setup: VolumeSetup,
    from: int,
    index: int,
    phase: VolumePhase,
    action: VolumeAction,
) -> bool {
    let next = next_persistent(setup.volumes@, from);
    if next < setup.volumes@.len() {
        index == next && phase is Looking && action is ReadState
    } else {
        index == setup.volumes@.len() && phase is Ended && action == VolumeAction::Finished(Ok(()))
    }
}

/// Whether the work ends with an error.
pub open spec fn stops(
    setup: VolumeSetup,
    index: int,
    phase: VolumePhase,
    action: VolumeAction,
    error: DeployError,
) -> bool {
    index == setup.index && phase is Ended && action == VolumeAction::Finished(Err(error))
}

/// Whether the work turns to attaching the volume.
pub open spec fn attaches(
    setup: VolumeSetup,
    index: int,
    phase: VolumePhase,
    action: VolumeAction,
) -> bool {
    let name = setup.volumes@[setup.index as int].name;
    index == setup.index && if setup.has_driver {
        phase is LookingForInstance && action is ReadState
    } else {
        phase is RecordingAttached && action == VolumeAction::Propose(
            Command::VolumeAttached { name, node: setup.target },
        )
    }
}

/// Whether a volume is attached to the node of the given number.
pub open spec fn attached_here(fsm: FsmState, node: NodeId, target: u64) -> bool {
    match node_numbered(fsm.nodes@, target) {
        Some(n) => n.mill_id@ == node@,
        None => false,
    }
}

/// What one step does: the volume, the phase and the action that follow an
/// event.
pub open spec fn volume_step(
    setup: VolumeSetup,
    event: VolumeEvent,
    index: int,
    phase: VolumePhase,
    action: VolumeAction,
) -> bool {
    let def = setup.volumes@[setup.index as int];
    let name = def.name;
    let stay = index == setup.index;
    match (setup.phase, event) {
        (VolumePhase::Looking, VolumeEvent::State(fsm)) => match fsm.volume(name@) {
            None => if setup.has_driver {
                stay && phase is Creating && action == (VolumeAction::Create {
                    name,
                    size: match def.size {
                        Some(size) => size,
                        None => DEFAULT_VOLUME_SIZE,
                    },
                })
            } else {
                moves_on(setup, setup.index + 1, index, phase, action)
            },
            Some(volume) => match volume.state {
                VolumeState::Attached { node } => if attached_here(fsm, node, setup.target) {
                    moves_on(setup, setup.index + 1, index, phase, action)
                } else if setup.has_driver {
                    stay && phase is Detaching && action == (VolumeAction::Detach { name })
                } else {
                    stay && phase is RecordingDetached && action == VolumeAction::Propose(
                        Command::VolumeDetached { name },
                    )
                },
                VolumeState::Ready => attaches(setup, index, phase, action),
            },
        },
        (VolumePhase::Creating, VolumeEvent::Created(outcome)) => match outcome {
            Ok(cloud_id) => stay && phase is RecordingCreated && action == VolumeAction::Propose(
                Command::VolumeCreated { name, cloud_id },
            ),
            Err(e) => stops(setup, index, phase, action, DeployError::Storage(e)),
        },
        (VolumePhase::RecordingCreated, VolumeEvent::Proposed(outcome)) => match outcome {
            Proposed::Unreached(e) => stops(
                setup,
                index,
                phase,
                action,
                DeployError::Node(NodeError::Raft(e)),
            ),
            _ => attaches(setup, index, phase, action),
        },
        (VolumePhase::Detaching, VolumeEvent::Detached(outcome)) => match outcome {
            Ok(()) => stay && phase is RecordingDetached && action == VolumeAction::Propose(
                Command::VolumeDetached { name },
            ),
            Err(e) => stops(setup, index, phase, action, DeployError::Storage(e)),
        },
        (VolumePhase::RecordingDetached, VolumeEvent::Proposed(outcome)) => match outcome {
            Proposed::Unreached(e) => stops(
                setup,
                index,
                phase,
                action,
                DeployError::Node(NodeError::Raft(e)),
            ),
            _ => attaches(setup, index, phase, action),
        },
        (VolumePhase::LookingForInstance, VolumeEvent::State(fsm)) => match instance_of(
            fsm,
            setup.target,
        ) {
            Some(instance_id) => stay && phase is Attaching && action == (VolumeAction::Attach {
                name,
                instance_id,
            }),
            None => stay && phase is RecordingAttached && action == VolumeAction::Propose(
                Command::VolumeAttached { name, node: setup.target },
            ),
        },
        (VolumePhase::Attaching, VolumeEvent::Attached(outcome)) => match outcome {
            Ok(()) => stay && phase is RecordingAttached && action == VolumeAction::Propose(
                Command::VolumeAttached { name, node: setup.target },
            ),
            Err(e) => stops(setup, index, phase, action, DeployError::Storage(e)),
        },
        (VolumePhase::RecordingAttached, VolumeEvent::Proposed(outcome)) => match outcome {
            Proposed::Unreached(e) => stops(
                setup,
                index,
                phase,
                action,
                DeployError::Node(NodeError::Raft(e)),
            ),
            _ => moves_on(setup, setup.index + 1, index, phase, action),
        },
        _ => false,
    }
}

/// The cloud instance of the node of the given number.
pub open spec fn instance_of(fsm: FsmState, target: u64) -> Option<String> {
    match node_numbered(fsm.nodes@, target) {
        Some(n) => n.instance_id,
        None => None,
    }
}

impl VolumeSetup {
    /// Whether the volume in turn is one that persists.
    pub open spec fn wf(self) -> bool {
        !(self.phase is Ended) ==> self.index < self.volumes@.len()
            && !self.volumes@[self.index as int].ephemeral
    }

    /// Whether two states differ in the volume in turn and the phase only.
    pub open spec fn same_work(self, other: VolumeSetup) -> bool {
        &&& self.volumes == other.volumes
        &&& self.target == other.target
        &&& self.has_driver == other.has_driver
    }

    /// Begins the work, and gives the first action.
    pub fn begin(volumes: Vec<VolumeDef>, target: u64, has_driver: bool) -> (res: (
        VolumeSetup,
        VolumeAction,
    ))
        ensures
            res.0.volumes == volumes,
            res.0.target == target,
            res.0.has_driver == has_driver,
            res.0.wf(),
            moves_on(res.0, 0, res.0.index as int, res.0.phase, res.1),
    {
        let mut setup = VolumeSetup {
            volumes,
            target,
            has_driver,
            index: 0,
            phase: VolumePhase::Ended,
        };
        let action = setup.move_on(0);
        (setup, action)
    }

    fn move_on(&mut self, from: usize) -> (res: VolumeAction)
        requires
            from <= old(self).volumes@.len(),
        ensures
            final(self).same_work(*old(self)),
            final(self).wf(),
            moves_on(*old(self), from as int, final(self).index as int, final(self).phase, res),
    {
        let mut i: usize = from;
        while i < self.volumes.len() && self.volumes[i].ephemeral
            invariant
                i <= self.volumes@.len(),
                next_persistent(self.volumes@, from as int) == next_persistent(
                    self.volumes@,
                    i as int,
                ),
                *self == *old(self),
            decreases self.volumes@.len() - i,
        {
            i = i + 1;
        }
        self.index = i;
        if i < self.volumes.len() {
            self.phase = VolumePhase::Looking;
            VolumeAction::ReadState
        } else {
            self.phase = VolumePhase::Ended;
            VolumeAction::Finished(Ok(()))
        }
    }

    fn stop(&mut self, error: DeployError) -> (res: VolumeAction)
        ensures
            final(self).same_work(*old(self)),
            final(self).wf(),
            stops(*old(self), final(self).index as int, final(self).phase, res, error),
    {
        self.phase = VolumePhase::Ended;
        VolumeAction::Finished(Err(error))
    }

    fn record_attached(&mut self) -> (res: VolumeAction)
        requires
            old(self).index < old(self).volumes@.len(),
            !old(self).volumes@[old(self).index as int].ephemeral,
        ensures
            *final(self) == (VolumeSetup { phase: VolumePhase::RecordingAttached, ..*old(self) }),
            res == VolumeAction::Propose(
                Command::VolumeAttached {
                    name: old(self).volumes@[old(self).index as int].name,
                    node: old(self).target,
                },
            ),
    {
        self.phase = VolumePhase::RecordingAttached;
        VolumeAction::Propose(
            Command::VolumeAttached {
                name: self.volumes[self.index].name.clone(),
                node: self.target,
            },
        )
    }

    fn attach(&mut self) -> (res: VolumeAction)
        requires
            old(self).index < old(self).volumes@.len(),
            !old(self).volumes@[old(self).index as int].ephemeral,
        ensures
            final(self).same_work(*old(self)),
            final(self).wf(),
            attaches(*old(self), final(self).index as int, final(self).phase, res),
    {
        if self.has_driver {
            self.phase = VolumePhase::LookingForInstance;
            VolumeAction::ReadState
        } else {
            self.record_attached()
        }
    }

    /// Takes what came of the last action and gives the next one.
    pub fn step(&mut self, event: VolumeEvent) -> (res: VolumeAction)
        requires
            old(self).wf(),
            old(self).phase.expects(event),
        ensures
            final(self).same_work(*old(self)),
            final(self).wf(),
            volume_step(*old(self), event, final(self).index as int, final(self).phase, res),
    {
        let name = self.volumes[self.index].name.clone();
        assert(self.index < self.volumes.len());
        let next: usize = self.index + 1;
        match (self.phase, event) {
            (VolumePhase::Looking, VolumeEvent::State(fsm)) => match fsm.find_volume(&name) {
                None => if self.has_driver {
                    self.phase = VolumePhase::Creating;
                    let size: u64 = match self.volumes[self.index].size {
                        Some(size) => size,
                        None => gib(10),
                    };
                    VolumeAction::Create { name, size }
                } else {
                    self.move_on(next)
                },
                Some(volume) => match &volume.state {
                    VolumeState::Attached { node } => {
                        let here: bool = match fsm.find_node(self.target) {
                            Some(n) => n.mill_id.same(node),
                            None => false,
                        };
                        if here {
                            self.move_on(next)
                        } else if self.has_driver {
                            self.phase = VolumePhase::Detaching;
                            VolumeAction::Detach { name }
                        } else {
                            self.phase = VolumePhase::RecordingDetached;
                            VolumeAction::Propose(Command::VolumeDetached { name })
                        }
                    },
                    VolumeState::Ready => self.attach(),
                },
            },
            (VolumePhase::Creating, VolumeEvent::Created(outcome)) => match outcome {
                Ok(cloud_id) => {
                    self.phase = VolumePhase::RecordingCreated;
                    VolumeAction::Propose(Command::VolumeCreated { name, cloud_id })
                },
                Err(e) => self.stop(DeployError::Storage(e)),
            },
            (VolumePhase::RecordingCreated, VolumeEvent::Proposed(outcome)) => match outcome {
                Proposed::Unreached(e) => self.stop(DeployError::Node(NodeError::Raft(e))),
                _ => self.attach(),
            },
            (VolumePhase::Detaching, VolumeEvent::Detached(outcome)) => match outcome {
                Ok(()) => {
                    self.phase = VolumePhase::RecordingDetached;
                    VolumeAction::Propose(Command::VolumeDetached { name })
                },
                Err(e) => self.stop(DeployError::Storage(e)),
            },
            (VolumePhase::RecordingDetached, VolumeEvent::Proposed(outcome)) => match outcome {
                Proposed::Unreached(e) => self.stop(DeployError::Node(NodeError::Raft(e))),
                _ => self.attach(),
            },
            (VolumePhase::LookingForInstance, VolumeEvent::State(fsm)) => {
                let instance = match fsm.find_node(self.target) {
                    Some(n) => n.instance_id.clone(),
                    None => None,
                };
                match instance {
                    Some(instance_id) => {
                        self.phase = VolumePhase::Attaching;
                        VolumeAction::Attach { name, instance_id }
                    },
                    None => self.record_attached(),
                }
            },
            (VolumePhase::Attaching, VolumeEvent::Attached(outcome)) => match outcome {
                Ok(()) => self.record_attached(),
                Err(e) => self.stop(DeployError::Storage(e)),
            },
            (VolumePhase::RecordingAttached, VolumeEvent::Proposed(outcome)) => match outcome {
                Proposed::Unreached(e) => self.stop(DeployError::Node(NodeError::Raft(e))),
                _ => {
                    self.move_on(next)
                },
            },
            _ => VolumeAction::ReadState,
        }
    }
}

/// A volume that is attached to another node is detached before anything
/// else happens to it.
pub proof fn attached_elsewhere_is_detached_first(
    setup: VolumeSetup,
    fsm: FsmState,
    node: NodeId,
    index: int,
    phase: VolumePhase,
    action: VolumeAction,
)
    requires
        setup.phase is Looking,
        fsm.volume(setup.volumes@[setup.index as int].name@) is Some,
        fsm.volume(setup.volumes@[setup.index as int].name@)->0.state == (VolumeState::Attached {
            node,
        }),
        !attached_here(fsm, node, setup.target),
        volume_step(setup, VolumeEvent::State(fsm), index, phase, action),
    ensures
        ({
            let name = setup.volumes@[setup.index as int].name;
            ||| action == (VolumeAction::Detach { name })
            ||| action == VolumeAction::Propose(Command::VolumeDetached { name })
        }),
{
}

/// The only volume that a step touches is the one in turn.
pub proof fn only_the_volume_in_turn_is_touched(
    setup: VolumeSetup,
    event: VolumeEvent,
    index: int,
    phase: VolumePhase,
    action: VolumeAction,
)
    requires
        setup.wf(),
        volume_step(setup, event, index, phase, action),
    ensures
        ({
            let def = setup.volumes@[setup.index as int];
            &&& !def.ephemeral
            &&& action matches VolumeAction::Create { name, .. } ==> name == def.name
            &&& action matches VolumeAction::Detach { name } ==> name == def.name
            &&& action matches VolumeAction::Attach { name, .. } ==> name == def.name
            &&& action matches VolumeAction::Propose(Command::VolumeCreated { name, .. }) ==> name
                == def.name
            &&& action matches VolumeAction::Propose(Command::VolumeDetached { name }) ==> name
                == def.name
            &&& action matches VolumeAction::Propose(Command::VolumeAttached { name, node })
                ==> name == def.name && node == setup.target
        }),
{
}

proof fn lemma_next_persistent(volumes: Seq<VolumeDef>, i: int)
    requires
        0 <= i <= volumes.len(),
    ensures
        i <= next_persistent(volumes, i) <= volumes.len(),
        next_persistent(volumes, i) < volumes.len() ==> !volumes[next_persistent(
            volumes,
            i,
        )].ephemeral,
        forall|j: int|
            i <= j < next_persistent(volumes, i) ==> (#[trigger] volumes[j]).ephemeral,
    decreases volumes.len() - i,
{
    if i < volumes.len() && volumes[i].ephemeral {
        lemma_next_persistent(volumes, i + 1);
    }
}

/// A persistent volume that the state does not know is made, where volumes can
/// be made, in the size that its definition gives or else of ten gibibytes; one
/// that is attached to no node is attached; and one that is attached to the
/// target already is left alone.
pub proof fn volumes_are_made_or_attached_as_needed(
    setup: VolumeSetup,
    fsm: FsmState,
    index: int,
    phase: VolumePhase,
    action: VolumeAction,
)
    requires
        setup.wf(),
        setup.phase is Looking,
        volume_step(setup, VolumeEvent::State(fsm), index, phase, action),
    ensures
        ({
            let def = setup.volumes@[setup.index as int];
            &&& (forall|v: int| 0 <= v < fsm.volumes@.len() ==> (#[trigger] fsm.volumes@[v]).0@
                != def.name@) && setup.has_driver ==> (action matches VolumeAction::Create {
                name,
                size,
            } && name == def.name && (def.size is Some ==> size == def.size->0) && (def.size
                is None ==> size == 10 * 1024 * 1024 * 1024))
            &&& forall|v: int|
                {
                    &&& 0 <= v < fsm.volumes@.len()
                    &&& (#[trigger] fsm.volumes@[v]).0@ == def.name@
                    &&& forall|w: int|
                        0 <= w < v ==> (#[trigger] fsm.volumes@[w]).0@ != def.name@
                } ==> match fsm.volumes@[v].1.state {
                    VolumeState::Ready => index == setup.index && if setup.has_driver {
                        phase is LookingForInstance && action is ReadState
                    } else {
                        action == VolumeAction::Propose(
                            Command::VolumeAttached { name: def.name, node: setup.target },
                        )
                    },
                    VolumeState::Attached { node } => forall|n: int|
                        {
                            &&& 0 <= n < fsm.nodes@.len()
                            &&& (#[trigger] fsm.nodes@[n]).raft_id == setup.target
                            &&& forall|m: int|
                                0 <= m < n ==> (#[trigger] fsm.nodes@[m]).raft_id != setup.target
                        } ==> if fsm.nodes@[n].mill_id@ == node@ {
                            action is ReadState || action is Finished
                        } else if setup.has_driver {
                            action == (VolumeAction::Detach { name: def.name })
                        } else {
                            action == VolumeAction::Propose(
                                Command::VolumeDetached { name: def.name },
                            )
                        },
                }
        }),
{
    let def = setup.volumes@[setup.index as int];
    lemma_position(fsm.volumes@, def.name@);
    nodes_are_found_by_number(fsm.nodes@, setup.target);
    lemma_next_persistent(setup.volumes@, setup.index + 1);
}

/// What the cloud does is recorded, and what it refuses ends the work: a volume
/// that was made is recorded with the id that the cloud gave it and then
/// attached; one that was detached is recorded as detached and then attached;
/// one that was attached is recorded as attached to the target. It is attached
/// to the cloud instance of the target node.
pub proof fn work_on_volumes_is_recorded(
    setup: VolumeSetup,
    event: VolumeEvent,
    index: int,
    phase: VolumePhase,
    action: VolumeAction,
)
    requires
        setup.wf(),
        volume_step(setup, event, index, phase, action),
    ensures
        ({
            let name = setup.volumes@[setup.index as int].name;
            &&& event matches VolumeEvent::Created(Ok(id)) ==> action == VolumeAction::Propose(
                Command::VolumeCreated { name, cloud_id: id },
            ) && index == setup.index
            &&& event matches VolumeEvent::Created(Err(e)) ==> action == VolumeAction::Finished(
                Err(DeployError::Storage(e)),
            )
            &&& (event matches VolumeEvent::Detached(outcome) && outcome is Ok) ==> action
                == VolumeAction::Propose(Command::VolumeDetached { name }) && index == setup.index
            &&& event matches VolumeEvent::Detached(Err(e)) ==> action == VolumeAction::Finished(
                Err(DeployError::Storage(e)),
            )
            &&& (event matches VolumeEvent::Attached(outcome) && outcome is Ok) ==> action
                == VolumeAction::Propose(
                Command::VolumeAttached { name, node: setup.target },
            ) && index == setup.index
            &&& event matches VolumeEvent::Attached(Err(e)) ==> action == VolumeAction::Finished(
                Err(DeployError::Storage(e)),
            )
            &&& event matches VolumeEvent::Proposed(Proposed::Unreached(e)) ==> action
                == VolumeAction::Finished(Err(DeployError::Node(NodeError::Raft(e))))
            &&& (setup.phase is RecordingCreated || setup.phase is RecordingDetached) && !(
            event matches VolumeEvent::Proposed(Proposed::Unreached(_))) ==> index == setup.index
                && if setup.has_driver {
                phase is LookingForInstance && action is ReadState
            } else {
                action == VolumeAction::Propose(
                    Command::VolumeAttached { name, node: setup.target },
                )
            }
            &&& setup.phase is LookingForInstance ==> forall|n: int|
                {
                    &&& 0 <= n < event->State_0.nodes@.len()
                    &&& (#[trigger] event->State_0.nodes@[n]).raft_id == setup.target
                    &&& forall|m: int|
                        0 <= m < n ==> (#[trigger] event->State_0.nodes@[m]).raft_id
                            != setup.target
                } ==> match event->State_0.nodes@[n].instance_id {
                    Some(instance_id) => action == (VolumeAction::Attach { name, instance_id }),
                    None => action == VolumeAction::Propose(
                        Command::VolumeAttached { name, node: setup.target },
                    ),
                }
        }),
{
    if setup.phase is LookingForInstance {
        nodes_are_found_by_number(event->State_0.nodes@, setup.target);
    }
}

/// No persistent volume is passed over: where the work leaves a volume, it goes
/// on with the next persistent one, and ends well only where none is left.
pub proof fn no_persistent_volume_is_passed_over(
    setup: VolumeSetup,
    event: VolumeEvent,
    index: int,
    phase: VolumePhase,
    action: VolumeAction,
)
    requires
        setup.wf(),
        volume_step(setup, event, index, phase, action),
    ensures
        setup.index <= index,
        forall|j: int| setup.index < j < index ==> (#[trigger] setup.volumes@[j]).ephemeral,
        (action matches VolumeAction::Finished(outcome) && outcome is Ok) ==> forall|j: int|
            setup.index < j < setup.volumes@.len() ==> (#[trigger] setup.volumes@[j]).ephemeral,
        index > setup.index || (action matches VolumeAction::Finished(outcome) && outcome is Ok)
            ==> (setup.phase is RecordingAttached && event is Proposed && !(event->Proposed_0
            is Unreached)) || (setup.phase is Looking && event is State),
{
    lemma_next_persistent(setup.volumes@, setup.index + 1);
}

} // verus!
