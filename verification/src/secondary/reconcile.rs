//! Finding out after a restart what still runs.
use crate::config::{AllocId, AllocKind, ContainerSpec, ContainerVolume};
use crate::net::{IpAddr, SocketAddr};
use crate::rpc::protocol::NodeReport;
use crate::secondary::runner::{is_put_in, mesh_address, put_in};
use crate::secondary::state::{AllocationMap, LocalAlloc};
use crate::seqs::{lemma_select_take, select};
use crate::time::Duration;
use vstd::prelude::*;

verus! {

/// What the labels of a container tell of it.
#[derive(Debug, PartialEq, Eq)]
pub struct RecoveredInfo {
    pub kind: AllocKind,
    pub timeout: Option<Duration>,
    pub command: Option<Vec<String>>,
    pub image: String,
    pub host_port: Option<u16>,
    pub cpu: u64,
    pub memory: u64,
    pub volumes: Vec<ContainerVolume>,
}

/// What the driver is asked to do.
#[derive(Debug, PartialEq, Eq)]
pub enum ReconcileAction {
    /// Stop a container that is not expected.
    Stop { alloc_id: AllocId },
    /// Take a container that is not expected away.
    Remove { alloc_id: AllocId },
    /// Send a report to the primary; whether it arrives does not matter.
    Report(NodeReport),
    /// Read the labels of a container.
    Recover { alloc_id: AllocId },
    /// Take a port of the host for an allocation, where it is free.
    ReservePort { alloc_id: AllocId, port: u16 },
    /// Have the lines of a container collected again.
    ReconnectLogs { alloc_id: AllocId },
    /// Wait in the background for a container to end.
    WatchExit { alloc_id: AllocId, host_port: Option<u16> },
    /// Nothing: all is done.
    Finished,
}

/// What came of an action.
#[derive(Debug, PartialEq, Eq)]
pub enum ReconcileEvent {
    Stopped,
    Removed,
    Reported,
    /// What the labels told, where they could be read.
    Recovered(Option<RecoveredInfo>),
    PortReserved,
    LogsReconnected,
    Watching,
}

/// How far the work has come.
#[derive(Clone, Copy, Debug, PartialEq, Eq, Structural)]
pub enum ReconcilePhase {
    /// A container that is not expected is stopped.
    Stopping { index: usize },
    /// A container that is not expected is taken away.
    Removing { index: usize },
    /// The primary hears that an expected container is gone.
    ReportingGone { index: usize },
    /// The labels of an expected container are read.
    Recovering { index: usize },
    /// Its port is taken.
    ReservingPort { index: usize },
    /// Its lines are collected again.
    ReconnectingLogs { index: usize },
    /// Its end is going to be waited for.
    SettingWatch { index: usize },
    /// The primary hears that it runs.
    ReportingRun { index: usize },
    /// All is done.
    Ended,
}

impl ReconcilePhase {
    /// Whether an event answers the action that led to the phase.
    pub open spec fn expects(self, event: ReconcileEvent) -> bool {
        match self {
            ReconcilePhase::Stopping { .. } => event is Stopped,
            ReconcilePhase::Removing { .. } => event is Removed,
            ReconcilePhase::ReportingGone { .. } => event is Reported,
            ReconcilePhase::Recovering { .. } => event is Recovered,
            ReconcilePhase::ReservingPort { .. } => event is PortReserved,
            ReconcilePhase::ReconnectingLogs { .. } => event is LogsReconnected,
            ReconcilePhase::SettingWatch { .. } => event is Watching,
            ReconcilePhase::ReportingRun { .. } => event is Reported,
            ReconcilePhase::Ended => false,
        }
    }
}

/// Comparing what runs with what is expected: containers that are not expected
/// are stopped, of expected ones that are gone the primary hears, and the
/// others are taken up again.
#[derive(Debug, PartialEq, Eq)]
pub struct Reconcile {
    pub running: Vec<AllocId>,
    pub expected: Vec<AllocId>,
    pub mesh_ip: Option<IpAddr>,
    pub info: Option<RecoveredInfo>,
    pub host_port: Option<u16>,
    pub phase: ReconcilePhase,
}

/// Whether an allocation is among those given.
pub open spec fn among(ids: Seq<AllocId>, id: Seq<char>) -> bool {
    exists|i: int| 0 <= i < ids.len() && (#[trigger] ids[i])@ == id
}

fn is_among(ids: &Vec<AllocId>, id: &AllocId) -> (res: bool)
    ensures
        res == among(ids@, id@),
{
    let mut i: usize = 0;
    while i < ids.len()
        invariant
            i <= ids@.len(),
            forall|j: int| 0 <= j < i ==> (#[trigger] ids@[j])@ != id@,
        decreases ids@.len() - i,
    {
        if ids[i].same(id) {
            return true;
        }
        i = i + 1;
    }
    false
}

/// Where the first container that is not expected stands, from `i` on.
pub open spec fn next_orphan(running: Seq<AllocId>, expected: Seq<AllocId>, i: int) -> int
    decreases running.len() - i,
{
    if 0 <= i < running.len() {
        if among(expected, running[i]@) {
            next_orphan(running, expected, i + 1)
        } else {
            i
        }
    } else {
        running.len() as int
    }
}

/// Whether containers that are not expected are stopped from `from` on, and
/// then the expected ones are gone through.
pub open spec fn stops_from(r: Reconcile, from: int, phase: ReconcilePhase, action: ReconcileAction) -> bool {
    let i = next_orphan(r.running@, r.expected@, from);
    if i < r.running@.len() {
        phase == (ReconcilePhase::Stopping { index: i as usize }) && action
            == (ReconcileAction::Stop { alloc_id: r.running@[i] })
    } else {
        takes_up_from(r, 0, phase, action)
    }
}

/// Whether expected containers are gone through from `i` on: of one that is
/// gone the primary hears, of one that runs the labels are read.
pub open spec fn takes_up_from(
    r: Reconcile,
    i: int,
    phase: ReconcilePhase,
    action: ReconcileAction,
) -> bool {
    if i < r.expected@.len() {
        let alloc_id = r.expected@[i];
        if among(r.running@, alloc_id@) {
            phase == (ReconcilePhase::Recovering { index: i as usize }) && action
                == (ReconcileAction::Recover { alloc_id })
        } else {
            phase == (ReconcilePhase::ReportingGone { index: i as usize }) && action
                == ReconcileAction::Report(
                NodeReport::Stopped { alloc_id, exit_code: (-1) as i32 },
            )
        }
    } else {
        phase is Ended && action is Finished
    }
}

/// Whether a container is described as its labels tell: the port that it
/// listens on is not among them, only that it has one.
pub open spec fn is_recovered_spec(
    spec: ContainerSpec,
    alloc_id: AllocId,
    info: RecoveredInfo,
) -> bool {
    &&& spec.alloc_id == alloc_id
    &&& spec.kind == info.kind
    &&& spec.timeout == info.timeout
    &&& spec.command == info.command
    &&& spec.image == info.image
    &&& spec.env@.len() == 0
    &&& spec.port == match info.host_port {
        Some(_) => Some(0u16),
        None => None,
    }
    &&& spec.host_port == info.host_port
    &&& spec.cpu == info.cpu
    &&& spec.memory == info.memory
    &&& spec.volumes == info.volumes
}

/// Whether a container has been put in as its labels tell.
pub open spec fn is_taken_up(
    before: Map<Seq<char>, LocalAlloc>,
    after: Map<Seq<char>, LocalAlloc>,
    alloc_id: AllocId,
    info: RecoveredInfo,
) -> bool {
    exists|spec: ContainerSpec| #[trigger]
        is_recovered_spec(spec, alloc_id, info) && is_put_in(
            before,
            after,
            alloc_id,
            spec,
            info.host_port,
        )
}

/// Whether the lines are to be collected again.
pub open spec fn reconnects(r: Reconcile, i: int, phase: ReconcilePhase, action: ReconcileAction) -> bool {
    phase == (ReconcilePhase::ReconnectingLogs { index: i as usize }) && action == (
    ReconcileAction::ReconnectLogs { alloc_id: r.expected@[i] })
}

/// What one step does: the work, the allocations on the node and the action
/// that follow an event.
pub open spec fn reconcile_step(
    r: Reconcile,
    event: ReconcileEvent,
    next: Reconcile,
    action: ReconcileAction,
    before: Map<Seq<char>, LocalAlloc>,
    after: Map<Seq<char>, LocalAlloc>,
) -> bool {
    let phase = next.phase;
    &&& next.running == r.running
    &&& next.expected == r.expected
    &&& next.mesh_ip == r.mesh_ip
    &&& match (r.phase, event) {
        (ReconcilePhase::Stopping { index }, ReconcileEvent::Stopped) => after == before && phase
            == (ReconcilePhase::Removing { index }) && action == (ReconcileAction::Remove {
            alloc_id: r.running@[index as int],
        }),
        (ReconcilePhase::Removing { index }, ReconcileEvent::Removed) => after == before
            && stops_from(r, index + 1, phase, action),
        (ReconcilePhase::ReportingGone { index }, ReconcileEvent::Reported) => after == before
            && takes_up_from(r, index + 1, phase, action),
        (ReconcilePhase::Recovering { index }, ReconcileEvent::Recovered(found)) => after == before
            && match found {
            None => takes_up_from(r, index + 1, phase, action),
            Some(info) => {
                &&& next.info == Some(info)
                &&& next.host_port == info.host_port
                &&& match info.host_port {
                    Some(port) => phase == (ReconcilePhase::ReservingPort { index }) && action == (
                    ReconcileAction::ReservePort {
                        alloc_id: r.expected@[index as int],
                        port,
                    }),
                    None => reconnects(r, index as int, phase, action),
                }
            },
        },
        (ReconcilePhase::ReservingPort { index }, ReconcileEvent::PortReserved) => {
            &&& after == before
            &&& next.info == r.info
            &&& next.host_port == r.host_port
            &&& reconnects(r, index as int, phase, action)
        },
        (ReconcilePhase::ReconnectingLogs { index }, ReconcileEvent::LogsReconnected) => {
            let alloc_id = r.expected@[index as int];
            if before.dom().contains(alloc_id@) {
                after == before && takes_up_from(r, index + 1, phase, action)
            } else {
                &&& is_taken_up(before, after, alloc_id, r.info->0)
                &&& next.host_port == r.host_port
                &&& phase == (ReconcilePhase::SettingWatch { index })
                &&& action == (ReconcileAction::WatchExit { alloc_id, host_port: r.host_port })
            }
        },
        (ReconcilePhase::SettingWatch { index }, ReconcileEvent::Watching) => {
            &&& after == before
            &&& phase == (ReconcilePhase::ReportingRun { index })
            &&& action == ReconcileAction::Report(
                NodeReport::RunStarted {
                    alloc_id: r.expected@[index as int],
                    host_port: r.host_port,
                    address: mesh_address(r.mesh_ip, r.host_port),
                },
            )
        },
        (ReconcilePhase::ReportingRun { index }, ReconcileEvent::Reported) => after == before
            && takes_up_from(r, index + 1, phase, action),
        _ => false,
    }
}

fn recovered_spec(alloc_id: &AllocId, info: RecoveredInfo) -> (res: ContainerSpec)
    ensures
        is_recovered_spec(res, *alloc_id, info),
{
    let port: Option<u16> = match info.host_port {
        Some(_) => Some(0),
        None => None,
    };
    ContainerSpec {
        alloc_id: alloc_id.clone(),
        kind: info.kind,
        timeout: info.timeout,
        command: info.command,
        image: info.image,
        env: Vec::new(),
        port,
        host_port: info.host_port,
        cpu: info.cpu,
        memory: info.memory,
        volumes: info.volumes,
    }
}

impl Reconcile {
    /// Whether the places agree with the lists, and what the labels told is
    /// there while it is needed.
    pub open spec fn wf(self) -> bool {
        match self.phase {
            ReconcilePhase::Stopping { index } => index < self.running@.len() && !among(
                self.expected@,
                self.running@[index as int]@,
            ),
            ReconcilePhase::Removing { index } => index < self.running@.len() && !among(
                self.expected@,
                self.running@[index as int]@,
            ),
            ReconcilePhase::ReportingGone { index } => index < self.expected@.len(),
            ReconcilePhase::Recovering { index } => index < self.expected@.len(),
            ReconcilePhase::ReservingPort { index } => index < self.expected@.len()
                && self.has_info(),
            ReconcilePhase::ReconnectingLogs { index } => index < self.expected@.len()
                && self.has_info(),
            ReconcilePhase::SettingWatch { index } => index < self.expected@.len(),
            ReconcilePhase::ReportingRun { index } => index < self.expected@.len(),
            ReconcilePhase::Ended => true,
        }
    }

    /// Whether what the labels told is there.
    pub open spec fn has_info(self) -> bool {
        self.info is Some && self.host_port == self.info->0.host_port
    }

    /// Begins the work, and gives the first action. `running` is what runs;
    /// where that is not known nothing is done.
    pub fn begin(
        running: Option<Vec<AllocId>>,
        expected: Vec<AllocId>,
        mesh_ip: Option<IpAddr>,
    ) -> (res: (Reconcile, ReconcileAction))
        ensures
            res.0.wf(),
            res.0.expected == expected,
            res.0.mesh_ip == mesh_ip,
            match running {
                Some(ids) => res.0.running == ids && stops_from(res.0, 0, res.0.phase, res.1),
                None => res.0.phase is Ended && res.1 is Finished,
            },
    {
        match running {
            Some(ids) => {
                let mut r = Reconcile {
                    running: ids,
                    expected,
                    mesh_ip,
                    info: None,
                    host_port: None,
                    phase: ReconcilePhase::Ended,
                };
                let action = r.stop_from(0);
                (r, action)
            },
            None => {
                let r = Reconcile {
                    running: Vec::new(),
                    expected,
                    mesh_ip,
                    info: None,
                    host_port: None,
                    phase: ReconcilePhase::Ended,
                };
                (r, ReconcileAction::Finished)
            },
        }
    }

    fn stop_from(&mut self, from: usize) -> (res: ReconcileAction)
        requires
            from <= old(self).running@.len(),
        ensures
            *final(self) == (Reconcile { phase: final(self).phase, ..*old(self) }),
            final(self).wf(),
            stops_from(*old(self), from as int, final(self).phase, res),
    {
        let mut i: usize = from;
        while i < self.running.len() && is_among(&self.expected, &self.running[i])
            invariant
                *self == *old(self),
                i <= self.running@.len(),
                next_orphan(self.running@, self.expected@, from as int) == next_orphan(
                    self.running@,
                    self.expected@,
                    i as int,
                ),
            decreases self.running@.len() - i,
        {
            i = i + 1;
        }
        if i < self.running.len() {
            self.phase = ReconcilePhase::Stopping { index: i };
            ReconcileAction::Stop { alloc_id: self.running[i].clone() }
        } else {
            self.take_up_from(0)
        }
    }

    fn take_up_from(&mut self, i: usize) -> (res: ReconcileAction)
        ensures
            *final(self) == (Reconcile { phase: final(self).phase, ..*old(self) }),
            final(self).wf(),
            takes_up_from(*old(self), i as int, final(self).phase, res),
    {
        if i < self.expected.len() {
            let alloc_id = self.expected[i].clone();
            if is_among(&self.running, &alloc_id) {
                self.phase = ReconcilePhase::Recovering { index: i };
                ReconcileAction::Recover { alloc_id }
            } else {
                self.phase = ReconcilePhase::ReportingGone { index: i };
                ReconcileAction::Report(NodeReport::Stopped { alloc_id, exit_code: -1 })
            }
        } else {
            self.phase = ReconcilePhase::Ended;
            ReconcileAction::Finished
        }
    }

    fn reconnect(&mut self, i: usize) -> (res: ReconcileAction)
        requires
            i < old(self).expected@.len(),
            old(self).has_info(),
        ensures
            *final(self) == (Reconcile { phase: final(self).phase, ..*old(self) }),
            final(self).wf(),
            reconnects(*old(self), i as int, final(self).phase, res),
    {
        self.phase = ReconcilePhase::ReconnectingLogs { index: i };
        ReconcileAction::ReconnectLogs { alloc_id: self.expected[i].clone() }
    }

    /// Takes what came of the last action and gives the next one.
    pub fn step(&mut self, event: ReconcileEvent, allocs: &mut AllocationMap) -> (res: ReconcileAction)
        requires
            old(self).wf(),
            old(self).phase.expects(event),
            old(allocs).wf(),
        ensures
            final(self).wf(),
            final(allocs).wf(),
            reconcile_step(*old(self), event, *final(self), res, old(allocs)@, final(allocs)@),
    {
        match (self.phase, event) {
            (ReconcilePhase::Stopping { index }, _) => {
                self.phase = ReconcilePhase::Removing { index };
                ReconcileAction::Remove { alloc_id: self.running[index].clone() }
            },
            (ReconcilePhase::Removing { index }, _) => {
                assert(index < self.running.len());
                self.stop_from(index + 1)
            },
            (ReconcilePhase::ReportingGone { index }, _) => {
                assert(index < self.expected.len());
                self.take_up_from(index + 1)
            },
            (ReconcilePhase::Recovering { index }, ReconcileEvent::Recovered(found)) => match found {
                None => {
                    assert(index < self.expected.len());
                    self.take_up_from(index + 1)
                },
                Some(info) => {
                    let port = info.host_port;
                    self.host_port = port;
                    self.info = Some(info);
                    match port {
                        Some(port) => {
                            self.phase = ReconcilePhase::ReservingPort { index };
                            ReconcileAction::ReservePort {
                                alloc_id: self.expected[index].clone(),
                                port,
                            }
                        },
                        None => self.reconnect(index),
                    }
                },
            },
            (ReconcilePhase::ReservingPort { index }, _) => self.reconnect(index),
            (ReconcilePhase::ReconnectingLogs { index }, _) => {
                let alloc_id = self.expected[index].clone();
                let mut taken: bool = false;
                if let Some(info) = self.info.take() {
                    let host_port = info.host_port;
                    let spec = recovered_spec(&alloc_id, info);
                    assert(is_recovered_spec(spec, alloc_id, info));
                    taken = put_in(allocs, &alloc_id, spec, host_port);
                }
                if taken {
                    self.phase = ReconcilePhase::SettingWatch { index };
                    ReconcileAction::WatchExit { alloc_id, host_port: self.host_port }
                } else {
                    assert(index < self.expected.len());
                    self.take_up_from(index + 1)
                }
            },
            (ReconcilePhase::SettingWatch { index }, _) => {
                self.phase = ReconcilePhase::ReportingRun { index };
                let address = match (self.mesh_ip, self.host_port) {
                    (Some(ip), Some(port)) => Some(SocketAddr { ip, port }),
                    _ => None,
                };
                ReconcileAction::Report(
                    NodeReport::RunStarted {
                        alloc_id: self.expected[index].clone(),
                        host_port: self.host_port,
                        address,
                    },
                )
            },
            (ReconcilePhase::ReportingRun { index }, _) => {
                assert(index < self.expected.len());
                self.take_up_from(index + 1)
            },
            _ => ReconcileAction::Finished,
        }
    }
}

proof fn lemma_next_orphan(running: Seq<AllocId>, expected: Seq<AllocId>, i: int)
    requires
        0 <= i <= running.len(),
    ensures
        i <= next_orphan(running, expected, i) <= running.len(),
        next_orphan(running, expected, i) < running.len() ==> !among(
            expected,
            running[next_orphan(running, expected, i)]@,
        ),
    decreases running.len() - i,
{
    if i < running.len() && among(expected, running[i]@) {
        lemma_next_orphan(running, expected, i + 1);
    }
}

/// Only containers that are not expected are stopped or taken away.
pub proof fn expected_containers_are_left_running(
    r: Reconcile,
    event: ReconcileEvent,
    next: Reconcile,
    action: ReconcileAction,
    before: Map<Seq<char>, LocalAlloc>,
    after: Map<Seq<char>, LocalAlloc>,
    alloc_id: AllocId,
)
    requires
        r.wf(),
        next.wf(),
        reconcile_step(r, event, next, action, before, after),
        action == (ReconcileAction::Stop { alloc_id }) || action == (ReconcileAction::Remove {
            alloc_id,
        }),
    ensures
        !among(r.expected@, alloc_id@),
        after == before,
{
    if let ReconcilePhase::Removing { index } = r.phase {
        lemma_next_orphan(r.running@, r.expected@, index + 1);
    }
}

/// What a whole run is made of: the states of the work, what came of its
/// actions, the actions, each of which is asked for in the state of the same
/// place and answered by the event of the same place, and the allocations on
/// the node before and after each step. Other work may change those between
/// two steps.
pub struct ReconcileRun {
    pub works: Seq<Reconcile>,
    pub events: Seq<ReconcileEvent>,
    pub actions: Seq<ReconcileAction>,
    pub before: Seq<Map<Seq<char>, LocalAlloc>>,
    pub after: Seq<Map<Seq<char>, LocalAlloc>>,
}

/// Allocations that are not expected.
pub open spec fn not_expected(expected: Seq<AllocId>) -> spec_fn(AllocId) -> bool {
    |id: AllocId| !among(expected, id@)
}

/// Orders to stop a container.
pub open spec fn stops() -> spec_fn(ReconcileAction) -> bool {
    |action: ReconcileAction| action is Stop
}

/// Orders to take a container away.
pub open spec fn removals() -> spec_fn(ReconcileAction) -> bool {
    |action: ReconcileAction| action is Remove
}

/// Actions that are the first about an expected container.
pub open spec fn first_looks() -> spec_fn(ReconcileAction) -> bool {
    |action: ReconcileAction|
        action is Recover || (action matches ReconcileAction::Report(report)
            && report is Stopped)
}

/// Orders to stop containers, one after another.
pub open spec fn stop_each(ids: Seq<AllocId>) -> Seq<ReconcileAction> {
    Seq::new(ids.len(), |i: int| ReconcileAction::Stop { alloc_id: ids[i] })
}

/// Orders to take containers away, one after another.
pub open spec fn remove_each(ids: Seq<AllocId>) -> Seq<ReconcileAction> {
    Seq::new(ids.len(), |i: int| ReconcileAction::Remove { alloc_id: ids[i] })
}

/// The first action about an expected container: its labels are read where it
/// runs, and the primary hears that it is gone where it does not.
pub open spec fn first_look(running: Seq<AllocId>, alloc_id: AllocId) -> ReconcileAction {
    if among(running, alloc_id@) {
        ReconcileAction::Recover { alloc_id }
    } else {
        ReconcileAction::Report(NodeReport::Stopped { alloc_id, exit_code: (-1) as i32 })
    }
}

/// The first actions about expected containers, one after another.
pub open spec fn look_at_each(running: Seq<AllocId>, expected: Seq<AllocId>) -> Seq<
    ReconcileAction,
> {
    Seq::new(expected.len(), |i: int| first_look(running, expected[i]))
}

impl ReconcileRun {
    /// Whether the run begins and goes on as it should.
    pub open spec fn wf(self) -> bool {
        &&& self.works.len() == self.events.len() + 1
        &&& self.actions.len() == self.events.len() + 1
        &&& self.before.len() == self.events.len()
        &&& self.after.len() == self.events.len()
        &&& self.works[0].wf()
        &&& stops_from(self.works[0], 0, self.works[0].phase, self.actions[0])
        &&& forall|i: int|
            0 <= i < self.events.len() ==> self.works[i + 1].wf() && reconcile_step(
                self.works[i],
                #[trigger] self.events[i],
                self.works[i + 1],
                self.actions[i + 1],
                self.before[i],
                self.after[i],
            )
    }

    /// What runs.
    pub open spec fn running(self) -> Seq<AllocId> {
        self.works[0].running@
    }

    /// What is expected.
    pub open spec fn expected(self) -> Seq<AllocId> {
        self.works[0].expected@
    }

    /// What runs and is not expected, among the first `n`.
    spec fn orphans(self, n: int) -> Seq<AllocId> {
        select(self.running().take(n), not_expected(self.expected()))
    }

    /// Whether the containers that were stopped and taken away, and those
    /// that were looked at, are those that the phase tells of.
    spec fn is_at(self, n: int) -> bool {
        let stopped = select(self.actions.take(n + 1), stops());
        let removed = select(self.actions.take(n + 1), removals());
        let looked = select(self.actions.take(n + 1), first_looks());
        let looks = look_at_each(self.running(), self.expected());
        let all = self.running().len() as int;
        match self.works[n].phase {
            ReconcilePhase::Stopping { index } => {
                &&& stopped == stop_each(self.orphans(index + 1))
                &&& removed == remove_each(self.orphans(index as int))
                &&& looked.len() == 0
            },
            ReconcilePhase::Removing { index } => {
                &&& stopped == stop_each(self.orphans(index + 1))
                &&& removed == remove_each(self.orphans(index + 1))
                &&& looked.len() == 0
            },
            phase => {
                &&& stopped == stop_each(self.orphans(all))
                &&& removed == remove_each(self.orphans(all))
                &&& match phase {
                    ReconcilePhase::ReportingGone { index } => looked == looks.take(index + 1),
                    ReconcilePhase::Recovering { index } => looked == looks.take(index + 1),
                    ReconcilePhase::ReservingPort { index } => looked == looks.take(index + 1),
                    ReconcilePhase::ReconnectingLogs { index } => looked == looks.take(index + 1),
                    ReconcilePhase::SettingWatch { index } => looked == looks.take(index + 1),
                    ReconcilePhase::ReportingRun { index } => looked == looks.take(index + 1),
                    _ => looked == looks,
                }
            },
        }
    }

    proof fn lemma_lists(self, n: int)
        requires
            self.wf(),
            0 <= n < self.works.len(),
        ensures
            self.works[n].running@ == self.running(),
            self.works[n].expected@ == self.expected(),
            self.works[n].wf(),
            self.works[n].running@.len() <= usize::MAX,
            self.works[n].expected@.len() <= usize::MAX,
        decreases n,
    {
        if n > 0 {
            self.lemma_lists(n - 1);
            let e = self.events[n - 1];
        }
        assert(self.works[n].running@.len() == self.works[n].running.len());
        assert(self.works[n].expected@.len() == self.works[n].expected.len());
    }

    /// No container between two that are not expected is one of them.
    proof fn lemma_orphans(self, from: int)
        requires
            self.wf(),
            0 <= from <= self.running().len(),
        ensures
            ({
                let i = next_orphan(self.running(), self.expected(), from);
                &&& from <= i <= self.running().len()
                &&& self.orphans(i) == self.orphans(from)
                &&& i < self.running().len() ==> self.orphans(i + 1) == self.orphans(i).push(
                    self.running()[i],
                )
            }),
        decreases self.running().len() - from,
    {
        if from < self.running().len() {
            lemma_select_take(self.running(), not_expected(self.expected()), from);
            if among(self.expected(), self.running()[from]@) {
                self.lemma_orphans(from + 1);
            }
        }
    }

    proof fn lemma_at(self, n: int)
        requires
            self.wf(),
            0 <= n < self.works.len(),
        ensures
            self.is_at(n),
        decreases n,
    {
        self.lemma_lists(n);
        let all = self.running().len() as int;
        let looks = look_at_each(self.running(), self.expected());
        lemma_select_take(self.actions, stops(), n);
        lemma_select_take(self.actions, removals(), n);
        lemma_select_take(self.actions, first_looks(), n);
        let stopped = select(self.actions.take(n + 1), stops());
        let removed = select(self.actions.take(n + 1), removals());
        let looked = select(self.actions.take(n + 1), first_looks());
        if n > 0 {
            let e = self.events[n - 1];
            self.lemma_lists(n - 1);
            self.lemma_at(n - 1);
            if let ReconcilePhase::Removing { index } = self.works[n - 1].phase {
                self.lemma_orphans(index + 1);
            }
        } else {
            assert(self.actions.take(0) =~= Seq::empty());
            self.lemma_orphans(0);
            assert(self.running().take(0) =~= Seq::empty());
        }
        match self.works[n].phase {
            ReconcilePhase::Stopping { index } => {
                assert(stopped =~= stop_each(self.orphans(index + 1)));
                assert(removed =~= remove_each(self.orphans(index as int)));
            },
            ReconcilePhase::Removing { index } => {
                assert(stopped =~= stop_each(self.orphans(index + 1)));
                lemma_select_take(self.running(), not_expected(self.expected()), index as int);
                assert(removed =~= remove_each(self.orphans(index + 1)));
            },
            ReconcilePhase::ReportingGone { index } => {
                assert(stopped =~= stop_each(self.orphans(all)));
                assert(removed =~= remove_each(self.orphans(all)));
                assert(looked =~= looks.take(index + 1));
            },
            ReconcilePhase::Recovering { index } => {
                assert(stopped =~= stop_each(self.orphans(all)));
                assert(removed =~= remove_each(self.orphans(all)));
                assert(looked =~= looks.take(index + 1));
            },
            ReconcilePhase::Ended => {
                assert(stopped =~= stop_each(self.orphans(all)));
                assert(removed =~= remove_each(self.orphans(all)));
                assert(looked =~= looks);
            },
            _ => {},
        }
    }

    /// A whole run stops and takes away exactly the containers that run and
    /// are not expected, and looks at each expected one: it reads the labels of
    /// one that runs, and reports one that does not.
    pub proof fn unexpected_are_stopped_and_expected_looked_at(self)
        requires
            self.wf(),
            self.actions.last() is Finished,
        ensures
            select(self.actions, stops()) == stop_each(
                select(self.running(), not_expected(self.expected())),
            ),
            select(self.actions, removals()) == remove_each(
                select(self.running(), not_expected(self.expected())),
            ),
            select(self.actions, first_looks()) == look_at_each(self.running(), self.expected()),
    {
        let n = self.works.len() - 1;
        if n > 0 {
            let e = self.events[n - 1];
        }
        self.lemma_at(n);
        assert(self.actions.take(n + 1) =~= self.actions);
        assert(self.running().take(self.running().len() as int) =~= self.running());
    }

    /// A container whose labels could be read is taken up before the run ends,
    /// as the labels tell, unless the node has it already.
    pub proof fn recovered_are_taken_up(self, i: int, alloc_id: AllocId, info: RecoveredInfo)
        requires
            self.wf(),
            self.actions.last() is Finished,
            0 <= i < self.events.len(),
            self.actions[i] == (ReconcileAction::Recover { alloc_id }),
            self.events[i] == ReconcileEvent::Recovered(Some(info)),
        ensures
            exists|j: int|
                {
                    &&& i < j < self.events.len()
                    &&& (#[trigger] self.events[j]) is LogsReconnected
                    &&& if self.before[j].dom().contains(alloc_id@) {
                        self.after[j] == self.before[j]
                    } else {
                        is_taken_up(self.before[j], self.after[j], alloc_id, info)
                    }
                },
    {
        let e = self.events[i];
        self.lemma_lists(i);
        if i > 0 {
            let e = self.events[i - 1];
            self.lemma_lists(i - 1);
        }
        assert(i + 1 < self.events.len());
        let e = self.events[i + 1];
        if self.works[i + 1].phase is ReconnectingLogs {
            assert(self.events[i + 1] is LogsReconnected);
        } else {
            assert(i + 2 < self.events.len());
            let e = self.events[i + 2];
            assert(self.events[i + 2] is LogsReconnected);
        }
    }
}

/// Reconciling goes by both lists: what is stopped runs and is not expected; what is
/// told to be gone is expected and does not run; what is taken up again is both.
pub proof fn reconciling_goes_by_both_lists(
    r: Reconcile,
    event: ReconcileEvent,
    next: Reconcile,
    action: ReconcileAction,
    before: Map<Seq<char>, LocalAlloc>,
    after: Map<Seq<char>, LocalAlloc>,
)
    requires
        r.wf(),
        reconcile_step(r, event, next, action, before, after),
    ensures
        action matches ReconcileAction::Stop { alloc_id } ==> {
            &&& r.running@.contains(alloc_id)
            &&& forall|j: int|
                0 <= j < r.expected@.len() ==> (#[trigger] r.expected@[j])@ != alloc_id@
        },
        action matches ReconcileAction::Remove { alloc_id } ==> {
            &&& event is Stopped
            &&& r.running@.contains(alloc_id)
            &&& forall|j: int|
                0 <= j < r.expected@.len() ==> (#[trigger] r.expected@[j])@ != alloc_id@
        },
        action matches ReconcileAction::Report(NodeReport::Stopped { alloc_id, exit_code }) ==> {
            &&& exit_code == -1
            &&& r.expected@.contains(alloc_id)
            &&& forall|j: int|
                0 <= j < r.running@.len() ==> (#[trigger] r.running@[j])@ != alloc_id@
        },
        action matches ReconcileAction::Recover { alloc_id } ==> {
            &&& r.expected@.contains(alloc_id)
            &&& exists|j: int| 0 <= j < r.running@.len() && (#[trigger] r.running@[j])@ == alloc_id@
        },
        event is Stopped ==> action is Remove,
{
    if let ReconcilePhase::Removing { index } = r.phase {
        lemma_next_orphan(r.running@, r.expected@, index + 1);
    }
}

/// A container that still runs is taken up as its labels tell: its port is kept from
/// others, its lines are collected again, it is among the allocations of the node as
/// running, its end is waited for, and the primary hears that it runs and where.
pub proof fn taken_up_containers_are_as_their_labels_tell(
    r: Reconcile,
    event: ReconcileEvent,
    next: Reconcile,
    action: ReconcileAction,
    before: Map<Seq<char>, LocalAlloc>,
    after: Map<Seq<char>, LocalAlloc>,
)
    requires
        r.wf(),
        reconcile_step(r, event, next, action, before, after),
    ensures
        event matches ReconcileEvent::Recovered(Some(info)) ==> {
            &&& next.info == Some(info)
            &&& next.host_port == info.host_port
            &&& info.host_port is Some ==> action is ReservePort && action->ReservePort_port
                == info.host_port->0
            &&& info.host_port is None ==> action is ReconnectLogs
        },
        event is PortReserved ==> action is ReconnectLogs,
        event is LogsReconnected && action is WatchExit ==> {
            let id = action->WatchExit_alloc_id;
            let info = r.info->0;
            &&& !before.dom().contains(id@)
            &&& after.dom().contains(id@)
            &&& after[id@].alloc_id == id
            &&& after[id@].status is Running
            &&& after[id@].host_port == info.host_port
            &&& after[id@].spec.image == info.image
            &&& after[id@].spec.kind == info.kind
            &&& after[id@].spec.timeout == info.timeout
            &&& after[id@].spec.command == info.command
            &&& after[id@].spec.cpu == info.cpu
            &&& after[id@].spec.memory == info.memory
            &&& after[id@].spec.volumes == info.volumes
            &&& after[id@].spec.host_port == info.host_port
            &&& after[id@].spec.port is Some <==> info.host_port is Some
            &&& action->WatchExit_host_port == r.host_port
        },
        event is LogsReconnected && !(action is WatchExit) ==> exists|j: int|
            0 <= j < r.expected@.len() && before.dom().contains((#[trigger] r.expected@[j])@),
        !(event is LogsReconnected) ==> after == before,
        event is Watching ==> {
            &&& action matches ReconcileAction::Report(
                NodeReport::RunStarted { alloc_id, host_port, address },
            )
            &&& r.expected@.contains(alloc_id)
            &&& host_port == r.host_port
            &&& address is Some <==> r.mesh_ip is Some && r.host_port is Some
            &&& address is Some ==> address->0.ip == r.mesh_ip->0 && address->0.port
                == r.host_port->0
        },
{
    if let ReconcilePhase::ReconnectingLogs { index } = r.phase {
        let id = r.expected@[index as int];
    }
}

} // verus!
