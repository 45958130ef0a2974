//! Running and stopping containers.
use crate::config::{keys_distinct, AllocId, AllocStatus, ContainerSpec};
use crate::error::NodeError;
use crate::net::{IpAddr, SocketAddr};
use crate::rpc::protocol::NodeReport;
use crate::secondary::logs::LogBuffer;
use crate::secondary::state::{AllocationMap, LocalAlloc};
use crate::table::{pairs_map, Table};
use crate::text::{decimal, decimal_text, signed_decimal, signed_text};
use vstd::prelude::*;
use vstd::string::*;

verus! {

/// What the driver is asked to do to run a container.
#[derive(Debug, PartialEq, Eq)]
pub enum RunAction {
    /// Send a report to the primary; whether it arrives does not matter.
    Report(NodeReport),
    /// Find out whether the image is there.
    CheckImage { image: String },
    /// Pull the image.
    Pull { image: String },
    /// Get a free port of the host.
    AllocatePort,
    /// Start the container that the run describes.
    Start,
    /// Give a port of the host back.
    ReleasePort(u16),
    /// Wait in the background for the container to end.
    WatchExit { host_port: Option<u16> },
    /// Nothing: this is the outcome.
    Finished(Result<(), NodeError>),
}

/// What came of an action; failures by their words.
#[derive(Debug, PartialEq, Eq)]
pub enum RunEvent {
    Reported,
    ImageChecked { cached: bool },
    Pulled(Result<(), String>),
    Port(Option<u16>),
    Started(Result<(), String>),
    PortReleased,
    Watching,
}

/// How far a run has come.
#[derive(Debug, PartialEq, Eq)]
pub enum RunPhase {
    /// The primary hears that the image is pulled.
    ReportingPull,
    /// The image is looked for.
    CheckingImage,
    /// The image is pulled.
    Pulling,
    /// The primary hears that the container starts.
    ReportingStart,
    /// A port is being allocated.
    AllocatingPort,
    /// The container starts.
    Starting,
    /// The port is given back, since the container did not start.
    ReleasingPort { error: String },
    /// The primary hears that the run failed.
    ReportingFailure { error: String },
    /// The primary hears that the container runs.
    ReportingRun,
    /// The end of the container is going to be waited for.
    SettingWatch,
    /// The outcome is known.
    Ended,
}

impl RunPhase {
    /// Whether an event answers the action that led to the phase.
    pub open spec fn expects(self, event: RunEvent) -> bool {
        match self {
            RunPhase::ReportingPull => event is Reported,
            RunPhase::CheckingImage => event is ImageChecked,
            RunPhase::Pulling => event is Pulled,
            RunPhase::ReportingStart => event is Reported,
            RunPhase::AllocatingPort => event is Port,
            RunPhase::Starting => event is Started,
            RunPhase::ReleasingPort { .. } => event is PortReleased,
            RunPhase::ReportingFailure { .. } => event is Reported,
            RunPhase::ReportingRun => event is Reported,
            RunPhase::SettingWatch => event is Watching,
            RunPhase::Ended => false,
        }
    }
}

/// A run of a container. `spec` is what it is made from, until it runs.
#[derive(Debug, PartialEq, Eq)]
pub struct ContainerRun {
    pub alloc_id: AllocId,
    pub spec: Option<ContainerSpec>,
    pub host_port: Option<u16>,
    pub mesh_ip: Option<IpAddr>,
    pub phase: RunPhase,
}

/// Whether an action reports a failed run for the given reason.
pub open spec fn reports_failure(action: RunAction, alloc_id: AllocId, reason: Seq<char>) -> bool {
    &&& action matches RunAction::Report(NodeReport::RunFailed { alloc_id: id, reason: words })
    &&& id == alloc_id
    &&& words@ == reason
}

/// Whether two descriptions differ at most in the port of the host and in the
/// environment.
pub open spec fn same_container(a: ContainerSpec, b: ContainerSpec) -> bool {
    &&& a.alloc_id == b.alloc_id
    &&& a.kind == b.kind
    &&& a.timeout == b.timeout
    &&& a.command == b.command
    &&& a.image == b.image
    &&& a.port == b.port
    &&& a.cpu == b.cpu
    &&& a.memory == b.memory
    &&& a.volumes == b.volumes
}

/// Whether `after` tells the container its port: as the port of the host, and
/// in the variable `PORT`.
pub open spec fn has_port(before: ContainerSpec, after: ContainerSpec, port: u16) -> bool {
    &&& same_container(before, after)
    &&& after.host_port == Some(port)
    &&& keys_distinct(after.env@)
    &&& exists|text: String|
        text@ == decimal(port as nat) && #[trigger] pairs_map(before.env@).insert("PORT"@, text)
            == pairs_map(after.env@)
}

/// The address of a container in the mesh, where it has a port and there is a
/// mesh.
pub open spec fn mesh_address(mesh_ip: Option<IpAddr>, host_port: Option<u16>) -> Option<SocketAddr> {
    match (mesh_ip, host_port) {
        (Some(ip), Some(port)) => Some(SocketAddr { ip, port }),
        _ => None,
    }
}

/// Whether an allocation that runs has been put in.
pub open spec fn is_put_in(
    before: Map<Seq<char>, LocalAlloc>,
    after: Map<Seq<char>, LocalAlloc>,
    alloc_id: AllocId,
    spec: ContainerSpec,
    host_port: Option<u16>,
) -> bool {
    &&& after.dom().contains(alloc_id@)
    &&& after.remove(alloc_id@) == before.remove(alloc_id@)
    &&& after[alloc_id@].alloc_id == alloc_id
    &&& after[alloc_id@].spec == spec
    &&& after[alloc_id@].status is Running
    &&& after[alloc_id@].host_port == host_port
    &&& after[alloc_id@].logs@.len() == 0
}

/// What one step does: the run, the allocations on the node and the action
/// that follow an event.
pub open spec fn run_step(
    run: ContainerRun,
    event: RunEvent,
    next: ContainerRun,
    action: RunAction,
    before: Map<Seq<char>, LocalAlloc>,
    after: Map<Seq<char>, LocalAlloc>,
) -> bool {
    let phase = next.phase;
    let same = next == (ContainerRun { phase, ..run });
    match (run.phase, event) {
        (RunPhase::ReportingPull, RunEvent::Reported) => after == before && same
            && phase is CheckingImage && action == (RunAction::CheckImage {
            image: run.spec->0.image,
        }),
        (RunPhase::CheckingImage, RunEvent::ImageChecked { cached }) => after == before && same
            && if cached {
            starts(run, phase, action)
        } else {
            phase is Pulling && action == (RunAction::Pull { image: run.spec->0.image })
        },
        (RunPhase::Pulling, RunEvent::Pulled(outcome)) => after == before && same
            && match outcome {
            Ok(()) => starts(run, phase, action),
            Err(e) => phase == (RunPhase::ReportingFailure { error: e }) && reports_failure(
                action,
                run.alloc_id,
                "image pull failed: "@ + e@,
            ),
        },
        (RunPhase::ReportingStart, RunEvent::Reported) => after == before && same
            && if run.spec->0.port is Some {
            phase is AllocatingPort && action is AllocatePort
        } else {
            phase is Starting && action is Start
        },
        (RunPhase::AllocatingPort, RunEvent::Port(found)) => after == before && match found {
            Some(port) => {
                &&& next.alloc_id == run.alloc_id
                &&& next.mesh_ip == run.mesh_ip
                &&& next.host_port == Some(port)
                &&& next.spec is Some
                &&& has_port(run.spec->0, next.spec->0, port)
                &&& phase is Starting
                &&& action is Start
            },
            None => same && phase is Ended && action == RunAction::Finished(
                Err(NodeError::PortExhaustion),
            ),
        },
        (RunPhase::Starting, RunEvent::Started(outcome)) => match outcome {
            Ok(()) => {
                &&& next.alloc_id == run.alloc_id
                &&& next.mesh_ip == run.mesh_ip
                &&& next.host_port == run.host_port
                &&& next.spec is None
                &&& if before.dom().contains(run.alloc_id@) {
                    after == before
                } else {
                    is_put_in(before, after, run.alloc_id, run.spec->0, run.host_port)
                }
                &&& phase is ReportingRun
                &&& action == RunAction::Report(
                    NodeReport::RunStarted {
                        alloc_id: run.alloc_id,
                        host_port: run.host_port,
                        address: mesh_address(run.mesh_ip, run.host_port),
                    },
                )
            },
            Err(e) => after == before && same && match run.host_port {
                Some(port) => phase == (RunPhase::ReleasingPort { error: e }) && action
                    == RunAction::ReleasePort(port),
                None => phase == (RunPhase::ReportingFailure { error: e }) && reports_failure(
                    action,
                    run.alloc_id,
                    "container start failed: "@ + e@,
                ),
            },
        },
        (RunPhase::ReleasingPort { error }, RunEvent::PortReleased) => after == before && same
            && phase == (RunPhase::ReportingFailure { error }) && reports_failure(
            action,
            run.alloc_id,
            "container start failed: "@ + error@,
        ),
        (RunPhase::ReportingFailure { error }, RunEvent::Reported) => after == before && same
            && phase is Ended && action == RunAction::Finished(Err(NodeError::Containerd(error))),
        (RunPhase::ReportingRun, RunEvent::Reported) => after == before && same
            && phase is SettingWatch && action == (RunAction::WatchExit {
            host_port: run.host_port,
        }),
        (RunPhase::SettingWatch, RunEvent::Watching) => after == before && same && phase is Ended
            && action == RunAction::Finished(Ok(())),
        _ => false,
    }
}

/// Whether the primary hears that the container starts.
pub open spec fn starts(run: ContainerRun, phase: RunPhase, action: RunAction) -> bool {
    phase is ReportingStart && action == RunAction::Report(
        NodeReport::StatusUpdate { alloc_id: run.alloc_id, status: AllocStatus::Starting },
    )
}

fn with_port(spec: ContainerSpec, port: u16) -> (res: ContainerSpec)
    requires
        keys_distinct(spec.env@),
    ensures
        has_port(spec, res, port),
{
    let ghost before = spec;
    let mut env = Table { entries: spec.env };
    let text = decimal_text(port as u128);
    let ghost value = text;
    env.insert("PORT".to_owned(), text);
    let res = ContainerSpec {
        alloc_id: spec.alloc_id,
        kind: spec.kind,
        timeout: spec.timeout,
        command: spec.command,
        image: spec.image,
        env: env.entries,
        port: spec.port,
        host_port: Some(port),
        cpu: spec.cpu,
        memory: spec.memory,
        volumes: spec.volumes,
    };
    assert(pairs_map(before.env@).insert("PORT"@, value) == pairs_map(res.env@));
    res
}

fn address_in_mesh(mesh_ip: Option<IpAddr>, host_port: Option<u16>) -> (res: Option<SocketAddr>)
    ensures
        res == mesh_address(mesh_ip, host_port),
{
    match (mesh_ip, host_port) {
        (Some(ip), Some(port)) => Some(SocketAddr { ip, port }),
        _ => None,
    }
}

/// Puts an allocation that runs in, unless there is one of that id.
pub(crate) fn put_in(
    allocs: &mut AllocationMap,
    alloc_id: &AllocId,
    spec: ContainerSpec,
    host_port: Option<u16>,
) -> (res: bool)
    requires
        old(allocs).wf(),
    ensures
        final(allocs).wf(),
        res == !old(allocs)@.dom().contains(alloc_id@),
        if res {
            is_put_in(old(allocs)@, final(allocs)@, *alloc_id, spec, host_port)
        } else {
            *final(allocs) == *old(allocs)
        },
{
    let local = LocalAlloc {
        alloc_id: alloc_id.clone(),
        spec,
        status: AllocStatus::Running,
        host_port,
        logs: LogBuffer::new(),
    };
    let done: bool = allocs.insert(local).is_ok();
    assert(done ==> allocs@.remove(alloc_id@) =~= old(allocs)@.remove(alloc_id@));
    done
}

impl ContainerRun {
    /// Whether what the container is made from is there until it runs, and
    /// each variable stands once.
    pub open spec fn wf(self) -> bool {
        match self.phase {
            RunPhase::ReportingPull => self.ready(),
            RunPhase::CheckingImage => self.ready(),
            RunPhase::Pulling => self.ready(),
            RunPhase::ReportingStart => self.ready(),
            RunPhase::AllocatingPort => self.ready(),
            RunPhase::Starting => self.ready(),
            _ => true,
        }
    }

    /// Whether what the container is made from is there.
    pub open spec fn ready(self) -> bool {
        self.spec is Some && keys_distinct(self.spec->0.env@)
    }

    /// Begins a run, and gives the first action. A container that runs already
    /// is not started again.
    pub fn begin(
        allocs: &AllocationMap,
        alloc_id: AllocId,
        spec: ContainerSpec,
        mesh_ip: Option<IpAddr>,
    ) -> (res: (ContainerRun, RunAction))
        requires
            keys_distinct(spec.env@),
        ensures
            res.0.wf(),
            res.0.alloc_id == alloc_id,
            res.0.spec == Some(spec),
            res.0.host_port is None,
            res.0.mesh_ip == mesh_ip,
            if allocs@.dom().contains(alloc_id@) {
                res.0.phase is Ended && res.1 == RunAction::Finished(
                    Err(NodeError::AllocAlreadyExists(alloc_id.0)),
                )
            } else {
                res.0.phase is ReportingPull && res.1 == RunAction::Report(
                    NodeReport::StatusUpdate { alloc_id, status: AllocStatus::Pulling },
                )
            },
    {
        if allocs.contains(&alloc_id) {
            let error = NodeError::AllocAlreadyExists(alloc_id.0.clone());
            let run = ContainerRun {
                alloc_id,
                spec: Some(spec),
                host_port: None,
                mesh_ip,
                phase: RunPhase::Ended,
            };
            (run, RunAction::Finished(Err(error)))
        } else {
            let report = NodeReport::StatusUpdate {
                alloc_id: alloc_id.clone(),
                status: AllocStatus::Pulling,
            };
            let run = ContainerRun {
                alloc_id,
                spec: Some(spec),
                host_port: None,
                mesh_ip,
                phase: RunPhase::ReportingPull,
            };
            (run, RunAction::Report(report))
        }
    }

    fn image(&self) -> (res: String)
        requires
            self.ready(),
        ensures
            res == self.spec->0.image,
    {
        match &self.spec {
            Some(spec) => spec.image.clone(),
            None => String::new(),
        }
    }

    fn start(&mut self) -> (res: RunAction)
        requires
            old(self).ready(),
        ensures
            *final(self) == (ContainerRun { phase: final(self).phase, ..*old(self) }),
            final(self).wf(),
            starts(*old(self), final(self).phase, res),
    {
        self.phase = RunPhase::ReportingStart;
        RunAction::Report(
            NodeReport::StatusUpdate {
                alloc_id: self.alloc_id.clone(),
                status: AllocStatus::Starting,
            },
        )
    }

    fn report_failure(&mut self, what: &str, error: String) -> (res: RunAction)
        ensures
            *final(self) == (ContainerRun {
                phase: RunPhase::ReportingFailure { error },
                ..*old(self)
            }),
            reports_failure(res, old(self).alloc_id, what@ + error@),
    {
        let mut reason = what.to_owned();
        reason.append(error.as_str());
        self.phase = RunPhase::ReportingFailure { error };
        RunAction::Report(NodeReport::RunFailed { alloc_id: self.alloc_id.clone(), reason })
    }

    /// Takes what came of the last action and gives the next one.
    pub fn step(&mut self, event: RunEvent, allocs: &mut AllocationMap) -> (res: RunAction)
        requires
            old(self).wf(),
            old(self).phase.expects(event),
            old(allocs).wf(),
        ensures
            final(self).wf(),
            final(allocs).wf(),
            run_step(*old(self), event, *final(self), res, old(allocs)@, final(allocs)@),
    {
        match (&self.phase, event) {
            (RunPhase::ReportingPull, _) => {
                let image = self.image();
                self.phase = RunPhase::CheckingImage;
                RunAction::CheckImage { image }
            },
            (RunPhase::CheckingImage, RunEvent::ImageChecked { cached }) => if cached {
                self.start()
            } else {
                let image = self.image();
                self.phase = RunPhase::Pulling;
                RunAction::Pull { image }
            },
            (RunPhase::Pulling, RunEvent::Pulled(outcome)) => match outcome {
                Ok(()) => self.start(),
                Err(e) => self.report_failure("image pull failed: ", e),
            },
            (RunPhase::ReportingStart, _) => {
                let exposed: bool = match &self.spec {
                    Some(spec) => spec.port.is_some(),
                    None => false,
                };
                if exposed {
                    self.phase = RunPhase::AllocatingPort;
                    RunAction::AllocatePort
                } else {
                    self.phase = RunPhase::Starting;
                    RunAction::Start
                }
            },
            (RunPhase::AllocatingPort, RunEvent::Port(found)) => match found {
                Some(port) => {
                    if let Some(spec) = self.spec.take() {
                        self.spec = Some(with_port(spec, port));
                    }
                    self.host_port = Some(port);
                    self.phase = RunPhase::Starting;
                    RunAction::Start
                },
                None => {
                    self.phase = RunPhase::Ended;
                    RunAction::Finished(Err(NodeError::PortExhaustion))
                },
            },
            (RunPhase::Starting, RunEvent::Started(outcome)) => match outcome {
                Ok(()) => {
                    if let Some(spec) = self.spec.take() {
                        let _ = put_in(allocs, &self.alloc_id, spec, self.host_port);
                    }
                    self.phase = RunPhase::ReportingRun;
                    RunAction::Report(
                        NodeReport::RunStarted {
                            alloc_id: self.alloc_id.clone(),
                            host_port: self.host_port,
                            address: address_in_mesh(self.mesh_ip, self.host_port),
                        },
                    )
                },
                Err(e) => match self.host_port {
                    Some(port) => {
                        self.phase = RunPhase::ReleasingPort { error: e };
                        RunAction::ReleasePort(port)
                    },
                    None => self.report_failure("container start failed: ", e),
                },
            },
            (RunPhase::ReleasingPort { error }, _) => {
                let why = error.clone();
                self.report_failure("container start failed: ", why)
            },
            (RunPhase::ReportingFailure { error }, _) => {
                let why = error.clone();
                self.phase = RunPhase::Ended;
                RunAction::Finished(Err(NodeError::Containerd(why)))
            },
            (RunPhase::ReportingRun, _) => {
                self.phase = RunPhase::SettingWatch;
                RunAction::WatchExit { host_port: self.host_port }
            },
            _ => {
                self.phase = RunPhase::Ended;
                RunAction::Finished(Ok(()))
            },
        }
    }
}

/// A container that fails to start gives its port back before the primary
/// hears of it.
pub proof fn failed_starts_release_their_port(
    run: ContainerRun,
    event: RunEvent,
    next: ContainerRun,
    action: RunAction,
    before: Map<Seq<char>, LocalAlloc>,
    after: Map<Seq<char>, LocalAlloc>,
)
    requires
        run_step(run, event, next, action, before, after),
        next.phase is ReportingFailure,
    ensures
        run.phase is Pulling || run.phase is ReleasingPort || (run.phase is Starting
            && run.host_port is None),
        after == before,
{
}

/// What a whole run is made of: its states, what came of its actions, the
/// actions, each of which is asked for in the state of the same place and
/// answered by the event of the same place, and the allocations on the node
/// before and after each step. Other work may change those between two steps.
pub struct RunCourse {
    pub runs: Seq<ContainerRun>,
    pub events: Seq<RunEvent>,
    pub actions: Seq<RunAction>,
    pub before: Seq<Map<Seq<char>, LocalAlloc>>,
    pub after: Seq<Map<Seq<char>, LocalAlloc>>,
}

impl RunCourse {
    /// Whether the run begins and goes on as it should.
    pub open spec fn wf(self) -> bool {
        &&& self.runs.len() == self.events.len() + 1
        &&& self.actions.len() == self.events.len() + 1
        &&& self.before.len() == self.events.len()
        &&& self.after.len() == self.events.len()
        &&& self.runs[0].phase is ReportingPull || (self.runs[0].phase is Ended && (
        self.actions[0] matches RunAction::Finished(outcome) && outcome is Err))
        &&& self.runs[0].phase is ReportingPull ==> self.actions[0] is Report
        &&& forall|i: int|
            0 <= i < self.events.len() ==> run_step(
                self.runs[i],
                #[trigger] self.events[i],
                self.runs[i + 1],
                self.actions[i + 1],
                self.before[i],
                self.after[i],
            )
    }

    /// Whether the outcome is known, and which one it is.
    pub open spec fn ends_with(self, good: bool) -> bool {
        self.actions.last() matches RunAction::Finished(outcome) && (outcome is Ok) == good
    }

    proof fn lemma_goes_on(self, i: int)
        requires
            self.wf(),
            self.actions.last() is Finished,
            0 <= i < self.runs.len(),
            !(self.runs[i].phase is Ended),
        ensures
            i < self.events.len(),
    {
        if i == self.events.len() && i > 0 {
            let e = self.events[i - 1];
        }
    }

    /// A container that started leads to a good outcome: once it runs, the run
    /// reports that, has its end waited for, and ends.
    proof fn lemma_started_ends_well(self, i: int)
        requires
            self.wf(),
            self.actions.last() is Finished,
            0 <= i < self.events.len(),
            self.events[i] is Started,
            self.events[i]->Started_0 is Ok,
        ensures
            self.ends_with(true),
            self.runs.len() == i + 4,
    {
        let e0 = self.events[i];
        self.lemma_goes_on(i + 1);
        let e1 = self.events[i + 1];
        self.lemma_goes_on(i + 2);
        let e2 = self.events[i + 2];
        if i + 3 < self.events.len() {
            let e3 = self.events[i + 3];
        }
    }

    /// A run that fails gives its port back: where it was given one and ends
    /// with an error, it has released that port before the primary heard of the
    /// failure.
    pub proof fn failed_runs_release_their_port(self, i: int, port: u16)
        requires
            self.wf(),
            self.ends_with(false),
            0 <= i < self.events.len(),
            self.events[i] == RunEvent::Port(Some(port)),
        ensures
            exists|j: int|
                {
                    &&& i < j < self.actions.len() - 1
                    &&& #[trigger] self.actions[j] == RunAction::ReleasePort(port)
                    &&& self.actions[j + 1] matches RunAction::Report(report)
                    &&& report is RunFailed
                },
    {
        let e0 = self.events[i];
        self.lemma_goes_on(i + 1);
        let e1 = self.events[i + 1];
        if e1->Started_0 is Ok {
            self.lemma_started_ends_well(i + 1);
        }
        self.lemma_goes_on(i + 2);
        let e2 = self.events[i + 2];
        assert(self.actions[i + 2] == RunAction::ReleasePort(port));
    }

    /// A run that fails leaves the allocations on the node as they are.
    pub proof fn failed_runs_put_nothing_in(self, i: int)
        requires
            self.wf(),
            self.ends_with(false),
            0 <= i < self.events.len(),
        ensures
            self.after[i] == self.before[i],
    {
        let e = self.events[i];
        if e is Started && e->Started_0 is Ok {
            self.lemma_started_ends_well(i);
        }
    }

    /// A run that ends well keeps its port.
    pub proof fn good_runs_keep_their_port(self, j: int)
        requires
            self.wf(),
            self.ends_with(true),
            0 <= j < self.actions.len(),
        ensures
            !(self.actions[j] is ReleasePort),
    {
        if self.actions[j] is ReleasePort {
            let e = self.events[j - 1];
            self.lemma_goes_on(j);
            let e0 = self.events[j];
            self.lemma_goes_on(j + 1);
            let e1 = self.events[j + 1];
            if j + 2 < self.events.len() {
                let e2 = self.events[j + 2];
            }
        }
    }
}

/// What the driver is asked to do to stop a container.
#[derive(Debug, PartialEq, Eq)]
pub enum StopAction {
    /// Stop the container.
    Stop,
    /// Take the container away.
    Remove,
    /// Give a port of the host back.
    ReleasePort(u16),
    /// Send a report to the primary; whether it arrives does not matter.
    Report(NodeReport),
    /// Nothing: this is the outcome.
    Finished(Result<(), NodeError>),
}

/// What came of an action; failures by their words.
#[derive(Debug, PartialEq, Eq)]
pub enum StopEvent {
    Stopped(Result<i32, String>),
    Removed,
    PortReleased,
    Reported,
}

/// How far a stop has come.
#[derive(Clone, Copy, Debug, PartialEq, Eq, Structural)]
pub enum StopPhase {
    Stopping,
    Removing,
    ReleasingPort,
    Reporting,
    Ended,
}

impl StopPhase {
    /// Whether an event answers the action that led to the phase.
    pub open spec fn expects(self, event: StopEvent) -> bool {
        match self {
            StopPhase::Stopping => event is Stopped,
            StopPhase::Removing => event is Removed,
            StopPhase::ReleasingPort => event is PortReleased,
            StopPhase::Reporting => event is Reported,
            StopPhase::Ended => false,
        }
    }
}

/// A stop of a container. It is cleaned up whether or not stopping worked.
#[derive(Debug, PartialEq, Eq)]
pub struct ContainerStop {
    pub alloc_id: AllocId,
    pub host_port: Option<u16>,
    pub outcome: Result<i32, String>,
    pub phase: StopPhase,
}

/// The exit code of a container that was stopped: minus one where stopping
/// failed.
pub open spec fn code_of(outcome: Result<i32, String>) -> i32 {
    match outcome {
        Ok(code) => code,
        Err(_) => (-1) as i32,
    }
}

/// Whether the allocation is taken out and the primary hears of it.
pub open spec fn reports_stop(
    stop: ContainerStop,
    phase: StopPhase,
    action: StopAction,
    before: Map<Seq<char>, LocalAlloc>,
    after: Map<Seq<char>, LocalAlloc>,
) -> bool {
    &&& after == before.remove(stop.alloc_id@)
    &&& phase is Reporting
    &&& action == StopAction::Report(
        NodeReport::Stopped { alloc_id: stop.alloc_id, exit_code: code_of(stop.outcome) },
    )
}

/// What one step does: the stop, the allocations on the node and the action
/// that follow an event.
pub open spec fn stop_step(
    stop: ContainerStop,
    event: StopEvent,
    next: ContainerStop,
    action: StopAction,
    before: Map<Seq<char>, LocalAlloc>,
    after: Map<Seq<char>, LocalAlloc>,
) -> bool {
    let phase = next.phase;
    match (stop.phase, event) {
        (StopPhase::Stopping, StopEvent::Stopped(outcome)) => {
            &&& next == (ContainerStop { outcome, phase, ..stop })
            &&& after == before
            &&& phase is Removing
            &&& action is Remove
        },
        (StopPhase::Removing, StopEvent::Removed) => next == (ContainerStop { phase, ..stop })
            && match stop.host_port {
            Some(port) => after == before && phase is ReleasingPort && action
                == StopAction::ReleasePort(port),
            None => reports_stop(stop, phase, action, before, after),
        },
        (StopPhase::ReleasingPort, StopEvent::PortReleased) => next == (ContainerStop {
            phase,
            ..stop
        }) && reports_stop(stop, phase, action, before, after),
        (StopPhase::Reporting, StopEvent::Reported) => {
            &&& next == (ContainerStop { phase, ..stop })
            &&& after == before
            &&& phase is Ended
            &&& action == StopAction::Finished(
                match stop.outcome {
                    Ok(_) => Ok(()),
                    Err(e) => Err(NodeError::Containerd(e)),
                },
            )
        },
        _ => false,
    }
}

impl ContainerStop {
    /// Begins a stop. The first action is to stop the container.
    pub fn new(allocs: &AllocationMap, alloc_id: AllocId) -> (res: ContainerStop)
        ensures
            res.alloc_id == alloc_id,
            res.host_port == if allocs@.dom().contains(alloc_id@) {
                allocs@[alloc_id@].host_port
            } else {
                None
            },
            res.phase is Stopping,
    {
        let host_port = allocs.host_port(&alloc_id);
        ContainerStop { alloc_id, host_port, outcome: Ok(0), phase: StopPhase::Stopping }
    }

    fn report(&mut self, allocs: &mut AllocationMap) -> (res: StopAction)
        requires
            old(allocs).wf(),
        ensures
            *final(self) == (ContainerStop { phase: final(self).phase, ..*old(self) }),
            final(allocs).wf(),
            reports_stop(*old(self), final(self).phase, res, old(allocs)@, final(allocs)@),
    {
        let _ = allocs.remove(&self.alloc_id);
        self.phase = StopPhase::Reporting;
        let exit_code: i32 = match &self.outcome {
            Ok(code) => *code,
            Err(_) => -1,
        };
        StopAction::Report(NodeReport::Stopped { alloc_id: self.alloc_id.clone(), exit_code })
    }

    /// Takes what came of the last action and gives the next one.
    pub fn step(&mut self, event: StopEvent, allocs: &mut AllocationMap) -> (res: StopAction)
        requires
            old(self).phase.expects(event),
            old(allocs).wf(),
        ensures
            final(allocs).wf(),
            stop_step(*old(self), event, *final(self), res, old(allocs)@, final(allocs)@),
    {
        match (self.phase, event) {
            (StopPhase::Stopping, StopEvent::Stopped(outcome)) => {
                self.outcome = outcome;
                self.phase = StopPhase::Removing;
                StopAction::Remove
            },
            (StopPhase::Removing, _) => match self.host_port {
                Some(port) => {
                    self.phase = StopPhase::ReleasingPort;
                    StopAction::ReleasePort(port)
                },
                None => self.report(allocs),
            },
            (StopPhase::ReleasingPort, _) => self.report(allocs),
            _ => {
                self.phase = StopPhase::Ended;
                match &self.outcome {
                    Ok(_) => StopAction::Finished(Ok(())),
                    Err(e) => StopAction::Finished(Err(NodeError::Containerd(e.clone()))),
                }
            },
        }
    }
}

/// What the primary hears of a pull.
pub fn pull_report(image: &String, outcome: Result<(), String>) -> (res: NodeReport)
    ensures
        res == match outcome {
            Ok(()) => NodeReport::PullComplete { image: *image },
            Err(reason) => NodeReport::PullFailed { image: *image, reason },
        },
{
    match outcome {
        Ok(()) => NodeReport::PullComplete { image: image.clone() },
        Err(reason) => NodeReport::PullFailed { image: image.clone(), reason },
    }
}

/// Whether a status is that of a container that ended with the given code:
/// stopped with zero, failed with any other.
pub open spec fn is_exit_status(status: AllocStatus, exit_code: i32) -> bool {
    if exit_code == 0 {
        status == (AllocStatus::Stopped { exit_code })
    } else {
        status matches AllocStatus::Failed { reason } && reason@ == "exit code "@ + signed_decimal(
            exit_code as int,
        )
    }
}

/// The status of a container that ended with the given code.
pub fn exit_status(exit_code: i32) -> (res: AllocStatus)
    ensures
        is_exit_status(res, exit_code),
{
    if exit_code == 0 {
        AllocStatus::Stopped { exit_code }
    } else {
        let mut reason = "exit code ".to_owned();
        reason.append(signed_text(exit_code).as_str());
        AllocStatus::Failed { reason }
    }
}

/// Takes that a container ended, before it is cleaned up: what is told of the
/// allocation from now on is its end. `outcome` is the exit code, where there
/// is one; minus one stands for none.
pub fn container_exited(
    allocs: &mut AllocationMap,
    alloc_id: &AllocId,
    outcome: Option<i32>,
) -> (res: i32)
    requires
        old(allocs).wf(),
    ensures
        final(allocs).wf(),
        res == match outcome {
            Some(code) => code as int,
            None => -1,
        },
        if old(allocs)@.dom().contains(alloc_id@) {
            exists|status: AllocStatus| #[trigger]
                is_exit_status(status, res) && final(allocs)@ == old(allocs)@.insert(
                    alloc_id@,
                    LocalAlloc { status, ..old(allocs)@[alloc_id@] },
                )
        } else {
            *final(allocs) == *old(allocs)
        },
{
    let exit_code: i32 = match outcome {
        Some(code) => code,
        None => -1,
    };
    let status = exit_status(exit_code);
    let ghost kept = status;
    allocs.set_status(alloc_id, status);
    assert(is_exit_status(kept, exit_code));
    exit_code
}

/// Takes an allocation that ended out, and gives what the primary hears.
pub fn exit_cleaned_up(allocs: &mut AllocationMap, alloc_id: &AllocId, exit_code: i32) -> (res: NodeReport)
    requires
        old(allocs).wf(),
    ensures
        final(allocs).wf(),
        final(allocs)@ == old(allocs)@.remove(alloc_id@),
        res == (NodeReport::Stopped { alloc_id: *alloc_id, exit_code }),
{
    let _ = allocs.remove(alloc_id);
    NodeReport::Stopped { alloc_id: alloc_id.clone(), exit_code }
}

/// What a run tells the primary is what came of it: that the container runs is told
/// once it started and then only, with its port and its address; that the run failed
/// is told of a failed pull or a failed start and of nothing else.
pub proof fn runs_tell_what_came_of_them(
    run: ContainerRun,
    event: RunEvent,
    next: ContainerRun,
    action: RunAction,
    before: Map<Seq<char>, LocalAlloc>,
    after: Map<Seq<char>, LocalAlloc>,
)
    requires
        run_step(run, event, next, action, before, after),
    ensures
        event is Started && event->Started_0 is Ok ==> {
            &&& action matches RunAction::Report(
                NodeReport::RunStarted { alloc_id, host_port, address },
            )
            &&& alloc_id == run.alloc_id
            &&& host_port == run.host_port
            &&& address is Some <==> run.mesh_ip is Some && run.host_port is Some
            &&& address is Some ==> address->0.ip == run.mesh_ip->0 && address->0.port
                == run.host_port->0
        },
        event is Pulled && event->Pulled_0 is Err ==> {
            &&& action matches RunAction::Report(NodeReport::RunFailed { alloc_id, reason })
            &&& alloc_id == run.alloc_id
            &&& reason@ == "image pull failed: "@ + event->Pulled_0->Err_0@
        },
        event is Started && event->Started_0 is Err && run.host_port is None ==> {
            &&& action matches RunAction::Report(NodeReport::RunFailed { alloc_id, reason })
            &&& alloc_id == run.alloc_id
            &&& reason@ == "container start failed: "@ + event->Started_0->Err_0@
        },
        event is Started && event->Started_0 is Err && run.host_port is Some ==> action
            == RunAction::ReleasePort(run.host_port->0) && next.phase == (
        RunPhase::ReleasingPort { error: event->Started_0->Err_0 }),
        event is PortReleased ==> {
            &&& action matches RunAction::Report(NodeReport::RunFailed { alloc_id, reason })
            &&& alloc_id == run.alloc_id
            &&& run.phase matches RunPhase::ReleasingPort { error }
            &&& reason@ == "container start failed: "@ + error@
        },
        action matches RunAction::Report(report) ==> {
            &&& report is RunStarted ==> event is Started && event->Started_0 is Ok
            &&& report is RunFailed ==> event is PortReleased || (event is Pulled
                && event->Pulled_0 is Err) || (event is Started && event->Started_0 is Err)
            &&& report is StatusUpdate ==> report->StatusUpdate_alloc_id == run.alloc_id
                && report->StatusUpdate_status is Starting
            &&& report is RunStarted || report is RunFailed || report is StatusUpdate
        },
        action matches RunAction::Finished(outcome) ==> {
            &&& outcome is Ok <==> event is Watching
            &&& outcome is Err ==> event == RunEvent::Port(None) || run.phase is ReportingFailure
        },
{
}

/// A run takes the steps that its container needs: an image that is not there is
/// pulled and no other; a port is got where the container asks for one; and the
/// container is told that port, with all else as it was.
pub proof fn runs_do_what_is_needed(
    run: ContainerRun,
    event: RunEvent,
    next: ContainerRun,
    action: RunAction,
    before: Map<Seq<char>, LocalAlloc>,
    after: Map<Seq<char>, LocalAlloc>,
)
    requires
        run_step(run, event, next, action, before, after),
    ensures
        action matches RunAction::Pull { image } ==> image == run.spec->0.image && event == (
        RunEvent::ImageChecked { cached: false }),
        event == (RunEvent::ImageChecked { cached: false }) ==> action is Pull,
        event == (RunEvent::ImageChecked { cached: true }) ==> action is Report,
        action matches RunAction::CheckImage { image } ==> image == run.spec->0.image,
        action is AllocatePort ==> run.spec->0.port is Some && event is Reported,
        action is Start ==> run.spec->0.port is None || (event matches RunEvent::Port(found)
            && found is Some),
        event matches RunEvent::Port(Some(port)) ==> {
            &&& action is Start
            &&& next.host_port == Some(port)
            &&& next.spec->0.host_port == Some(port)
            &&& next.spec->0.alloc_id == run.spec->0.alloc_id
            &&& next.spec->0.image == run.spec->0.image
            &&& next.spec->0.command == run.spec->0.command
            &&& next.spec->0.port == run.spec->0.port
            &&& next.spec->0.cpu == run.spec->0.cpu
            &&& next.spec->0.memory == run.spec->0.memory
            &&& next.spec->0.volumes == run.spec->0.volumes
            &&& next.spec->0.timeout == run.spec->0.timeout
            &&& next.spec->0.kind == run.spec->0.kind
            &&& pairs_map(next.spec->0.env@).dom().contains("PORT"@)
            &&& pairs_map(next.spec->0.env@)["PORT"@]@ == decimal(port as nat)
        },
        event == RunEvent::Port(None) ==> action == RunAction::Finished(
            Err(NodeError::PortExhaustion),
        ),
        action matches RunAction::ReleasePort(port) ==> run.host_port == Some(port),
        action matches RunAction::WatchExit { host_port } ==> host_port == run.host_port,
        !(event is Port) ==> next.host_port == run.host_port,
        next.alloc_id == run.alloc_id,
        next.mesh_ip == run.mesh_ip,
{
    if let RunEvent::Port(Some(port)) = event {
        let text = choose|text: String|
            text@ == decimal(port as nat) && #[trigger] pairs_map(run.spec->0.env@).insert(
                "PORT"@,
                text,
            ) == pairs_map(next.spec->0.env@);
        assert(pairs_map(run.spec->0.env@).insert("PORT"@, text)["PORT"@] == text);
    }
}

/// The port apart, the environment of a container is what it was before it got one.
pub proof fn ports_leave_other_variables_alone(
    run: ContainerRun,
    event: RunEvent,
    next: ContainerRun,
    action: RunAction,
    before: Map<Seq<char>, LocalAlloc>,
    after: Map<Seq<char>, LocalAlloc>,
    name: Seq<char>,
)
    requires
        run_step(run, event, next, action, before, after),
        event is Port,
        event->Port_0 is Some,
        name != "PORT"@,
    ensures
        pairs_map(next.spec->0.env@).dom().contains(name) <==> pairs_map(
            run.spec->0.env@,
        ).dom().contains(name),
        pairs_map(run.spec->0.env@).dom().contains(name) ==> pairs_map(next.spec->0.env@)[name]
            == pairs_map(run.spec->0.env@)[name],
{
    let port = event->Port_0->0;
    let text = choose|text: String|
        text@ == decimal(port as nat) && #[trigger] pairs_map(run.spec->0.env@).insert(
            "PORT"@,
            text,
        ) == pairs_map(next.spec->0.env@);
}

/// Once a container started it is among the allocations of the node as running, with
/// its port and without lines; no other step, and no other allocation, is touched.
pub proof fn started_containers_are_known(
    run: ContainerRun,
    event: RunEvent,
    next: ContainerRun,
    action: RunAction,
    before: Map<Seq<char>, LocalAlloc>,
    after: Map<Seq<char>, LocalAlloc>,
)
    requires
        run_step(run, event, next, action, before, after),
    ensures
        !(event is Started && event->Started_0 is Ok) ==> after == before,
        event is Started && event->Started_0 is Ok ==> after.dom().contains(run.alloc_id@),
        event is Started && event->Started_0 is Ok && !before.dom().contains(run.alloc_id@) ==> {
            &&& after[run.alloc_id@].alloc_id == run.alloc_id
            &&& after[run.alloc_id@].spec == run.spec->0
            &&& after[run.alloc_id@].status is Running
            &&& after[run.alloc_id@].host_port == run.host_port
            &&& after[run.alloc_id@].logs@.len() == 0
        },
        forall|id: Seq<char>| #[trigger]
            before.dom().contains(id) ==> after.dom().contains(id) && after[id] == before[id],
        forall|id: Seq<char>| #[trigger]
            after.dom().contains(id) ==> before.dom().contains(id) || id == run.alloc_id@,
{
    assert forall|id: Seq<char>| #[trigger] before.dom().contains(id) implies after.dom().contains(
        id,
    ) && after[id] == before[id] by {
        if id != run.alloc_id@ {
            assert(before.remove(run.alloc_id@).dom().contains(id));
            assert(before.remove(run.alloc_id@)[id] == before[id]);
            assert(after.remove(run.alloc_id@).dom().contains(id) ==> after.remove(
                run.alloc_id@,
            )[id] == after[id]);
        }
    }
    assert forall|id: Seq<char>| #[trigger] after.dom().contains(id) implies before.dom().contains(
        id,
    ) || id == run.alloc_id@ by {
        if id != run.alloc_id@ {
            assert(after.remove(run.alloc_id@).dom().contains(id));
        }
    }
}

/// A stop goes step by step: the container is taken away whether or not it could be
/// stopped, its port is given back, and then the allocation is gone and the primary
/// hears with which code it ended; minus one where stopping failed.
pub proof fn stops_go_step_by_step(
    stop: ContainerStop,
    event: StopEvent,
    next: ContainerStop,
    action: StopAction,
    before: Map<Seq<char>, LocalAlloc>,
    after: Map<Seq<char>, LocalAlloc>,
)
    requires
        stop_step(stop, event, next, action, before, after),
    ensures
        event matches StopEvent::Stopped(outcome) ==> action is Remove && next.outcome == outcome
            && after == before,
        event is Removed && stop.host_port is Some ==> action == StopAction::ReleasePort(
            stop.host_port->0,
        ) && after == before,
        event is PortReleased || (event is Removed && stop.host_port is None) ==> {
            &&& action matches StopAction::Report(NodeReport::Stopped { alloc_id, exit_code })
            &&& alloc_id == stop.alloc_id
            &&& stop.outcome matches Ok(code) ==> exit_code == code
            &&& stop.outcome is Err ==> exit_code == -1
            &&& !after.dom().contains(stop.alloc_id@)
        },
        event is Reported ==> {
            &&& after == before
            &&& action matches StopAction::Finished(outcome)
            &&& outcome is Ok <==> stop.outcome is Ok
            &&& stop.outcome matches Err(e) ==> outcome->Err_0 == NodeError::Containerd(e)
        },
        forall|id: Seq<char>|
            id != stop.alloc_id@ ==> (#[trigger] after.dom().contains(id)
                <==> before.dom().contains(id)),
        forall|id: Seq<char>|
            id != stop.alloc_id@ && #[trigger] after.dom().contains(id) ==> after[id]
                == before[id],
        next.alloc_id == stop.alloc_id,
        next.host_port == stop.host_port,
{
}

/// A container that ended with zero stopped; one that ended with any other code
/// failed, and its code can be read.
pub proof fn ends_go_by_their_code(status: AllocStatus, exit_code: i32)
    requires
        is_exit_status(status, exit_code),
    ensures
        status is Stopped <==> exit_code == 0,
        status is Failed <==> exit_code != 0,
        status is Stopped ==> status->Stopped_exit_code == 0,
        status is Failed ==> status->Failed_reason@ == "exit code "@ + signed_decimal(
            exit_code as int,
        ),
{
}

} // verus!
