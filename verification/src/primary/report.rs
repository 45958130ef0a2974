//! What the primary makes of the reports of nodes.
use crate::config::{AllocId, AllocKind, AllocStatus, LogLine};
use crate::fsm::{
    alloc_named, allocations_are_found_by_id, node_named, nodes_are_found_by_name, Command,
    FsmState,
};
use crate::net::SocketAddr;
use crate::primary::metrics::{duration_counted, same_counts, LiveMetrics, NodeMetricsSnapshot};
use crate::primary::watchdog::HeartbeatTracker;
use crate::rpc::protocol::{Heartbeat, NodeReport};
use crate::time::{moments_lie_on_one_line, Duration, Instant, SystemTime};
use vstd::prelude::*;

verus! {

/// What is to be done about a report.
#[derive(Debug, PartialEq, Eq)]
pub enum ReportOutcome {
    /// Propose a command.
    Propose(Command),
    /// Hand log lines to those who follow the allocation.
    Forward { alloc_id: AllocId, lines: Vec<LogLine> },
    /// Nothing.
    Nothing,
}

/// Where an allocation is reached: the reported address, else the reported
/// port on the node that it runs on.
pub open spec fn reported_address(
    fsm: FsmState,
    alloc_id: Seq<char>,
    host_port: Option<u16>,
    address: Option<SocketAddr>,
) -> Option<SocketAddr> {
    match (address, host_port) {
        (Some(a), _) => Some(a),
        (None, None) => None,
        (None, Some(port)) => match alloc_named(fsm.allocs@, alloc_id) {
            None => None,
            Some(alloc) => match node_named(fsm.nodes@, alloc.node@) {
                None => None,
                Some(node) => Some(SocketAddr { ip: node.address.ip, port }),
            },
        },
    }
}

/// The task that ended with an allocation, and how long it took; none for a
/// service, nor where the start is not known or lies ahead.
pub open spec fn ended_task(fsm: FsmState, alloc_id: Seq<char>, now: SystemTime) -> Option<
    (String, Duration),
> {
    match alloc_named(fsm.allocs@, alloc_id) {
        None => None,
        Some(alloc) => match (alloc.kind, alloc.started_at) {
            (AllocKind::Task, Some(started)) => match now.since(started) {
                Some(span) => Some((alloc.name, span)),
                None => None,
            },
            _ => None,
        },
    }
}

/// What becomes of a report: of the heartbeats, of the live figures, and what
/// is to be done.
pub open spec fn processed(
    fsm: FsmState,
    report: NodeReport,
    now: SystemTime,
    at: Instant,
    seen: Map<u64, Instant>,
    seen_after: Map<u64, Instant>,
    metrics: LiveMetrics,
    metrics_after: LiveMetrics,
    outcome: ReportOutcome,
) -> bool {
    match report {
        NodeReport::RunStarted { alloc_id, host_port, address } => {
            &&& seen_after == seen && metrics_after == metrics
            &&& outcome == ReportOutcome::Propose(
                Command::AllocRunning {
                    alloc_id,
                    address: reported_address(fsm, alloc_id@, host_port, address),
                    started_at: Some(now),
                },
            )
        },
        NodeReport::RunFailed { alloc_id, reason } => {
            &&& seen_after == seen && metrics_after == metrics
            &&& outcome == ReportOutcome::Propose(
                Command::AllocStatus { alloc_id, status: AllocStatus::Failed { reason } },
            )
        },
        NodeReport::Stopped { alloc_id, exit_code } => {
            &&& seen_after == seen
            &&& match ended_task(fsm, alloc_id@, now) {
                Some((name, span)) => {
                    &&& duration_counted(
                        metrics.task_durations@,
                        name@,
                        span,
                        metrics_after.task_durations@,
                    )
                    &&& metrics_after.node_metrics == metrics.node_metrics
                    &&& metrics_after.restarts == metrics.restarts
                    &&& metrics_after.task_spawns == metrics.task_spawns
                },
                None => metrics_after == metrics,
            }
            &&& outcome == ReportOutcome::Propose(
                Command::AllocStatus { alloc_id, status: AllocStatus::Stopped { exit_code } },
            )
        },
        NodeReport::StatusUpdate { alloc_id, status } => {
            &&& seen_after == seen && metrics_after == metrics
            &&& outcome == ReportOutcome::Propose(Command::AllocStatus { alloc_id, status })
        },
        NodeReport::Heartbeat(hb) => match node_named(fsm.nodes@, hb.node_id@) {
            Some(node) => {
                &&& seen_after == seen.insert(node.raft_id, at)
                &&& same_counts(metrics, metrics_after)
                &&& metrics_after.node_metrics@ == metrics.node_metrics@.insert(
                    hb.node_id@,
                    NodeMetricsSnapshot { resources: hb.resources, container_stats: hb.stats },
                )
                &&& outcome == ReportOutcome::Propose(
                    Command::NodeHeartbeat { id: node.raft_id, alloc_statuses: hb.alloc_statuses },
                )
            },
            None => {
                &&& seen_after == seen && metrics_after == metrics
                &&& outcome is Nothing
            },
        },
        NodeReport::LogLines { alloc_id, lines } => {
            &&& seen_after == seen && metrics_after == metrics
            &&& outcome == (ReportOutcome::Forward { alloc_id, lines })
        },
        NodeReport::PullComplete { .. } => seen_after == seen && metrics_after == metrics
            && outcome is Nothing,
        NodeReport::PullFailed { .. } => seen_after == seen && metrics_after == metrics
            && outcome is Nothing,
    }
}

fn find_address(
    fsm: &FsmState,
    alloc_id: &AllocId,
    host_port: Option<u16>,
    address: Option<SocketAddr>,
) -> (res: Option<SocketAddr>)
    ensures
        res == reported_address(*fsm, alloc_id@, host_port, address),
{
    match (address, host_port) {
        (Some(a), _) => Some(a),
        (None, None) => None,
        (None, Some(port)) => match fsm.find_alloc(alloc_id) {
            None => None,
            Some(alloc) => match fsm.find_node_named(&alloc.node) {
                None => None,
                Some(node) => Some(SocketAddr { ip: node.address.ip, port }),
            },
        },
    }
}

fn find_ended(fsm: &FsmState, alloc_id: &AllocId, now: SystemTime) -> (res: Option<
    (String, Duration),
>)
    ensures
        res == ended_task(*fsm, alloc_id@, now),
{
    match fsm.find_alloc(alloc_id) {
        None => None,
        Some(alloc) => match (alloc.kind, alloc.started_at) {
            (AllocKind::Task, Some(started)) => match now.duration_since(started) {
                Some(span) => Some((alloc.name.clone(), span)),
                None => None,
            },
            _ => None,
        },
    }
}

/// Whether a report can be taken: where it ends a task, one more duration of
/// the task can be counted.
pub open spec fn is_countable(
    fsm: FsmState,
    report: NodeReport,
    now: SystemTime,
    metrics: LiveMetrics,
) -> bool {
    report matches NodeReport::Stopped { alloc_id, .. } ==> match ended_task(
        fsm,
        alloc_id@,
        now,
    ) {
        Some((name, _)) => metrics.can_count(name@),
        None => true,
    }
}

/// Whether a report can be taken: see `is_countable`.
pub fn can_process(
    fsm: &FsmState,
    report: &NodeReport,
    now: SystemTime,
    metrics: &LiveMetrics,
) -> (res: bool)
    ensures
        res == is_countable(*fsm, *report, now, *metrics),
{
    match report {
        NodeReport::Stopped { alloc_id, .. } => match find_ended(fsm, alloc_id, now) {
            Some((name, _)) => metrics.has_room(&name),
            None => true,
        },
        _ => true,
    }
}

/// Takes a report: remembers heartbeats, counts the time that ended tasks
/// took, and tells what is to be done.
pub fn process_report(
    fsm: &FsmState,
    report: NodeReport,
    now: SystemTime,
    at: Instant,
    tracker: &mut HeartbeatTracker,
    metrics: &mut LiveMetrics,
) -> (res: ReportOutcome)
    requires
        old(metrics).wf(),
        is_countable(*fsm, report, now, *old(metrics)),
    ensures
        final(metrics).wf(),
        processed(
            *fsm,
            report,
            now,
            at,
            old(tracker)@,
            final(tracker)@,
            *old(metrics),
            *final(metrics),
            res,
        ),
{
    match report {
        NodeReport::RunStarted { alloc_id, host_port, address } => {
            let address = find_address(fsm, &alloc_id, host_port, address);
            ReportOutcome::Propose(
                Command::AllocRunning { alloc_id, address, started_at: Some(now) },
            )
        },
        NodeReport::RunFailed { alloc_id, reason } => ReportOutcome::Propose(
            Command::AllocStatus { alloc_id, status: AllocStatus::Failed { reason } },
        ),
        NodeReport::Stopped { alloc_id, exit_code } => {
            if let Some((name, span)) = find_ended(fsm, &alloc_id, now) {
                metrics.record_task_duration(&name, span);
            }
            ReportOutcome::Propose(
                Command::AllocStatus { alloc_id, status: AllocStatus::Stopped { exit_code } },
            )
        },
        NodeReport::StatusUpdate { alloc_id, status } => ReportOutcome::Propose(
            Command::AllocStatus { alloc_id, status },
        ),
        NodeReport::Heartbeat(hb) => match fsm.raft_id_for(&hb.node_id) {
            Some(id) => {
                tracker.record(id, at);
                metrics.update(hb.node_id, hb.resources, hb.stats);
                ReportOutcome::Propose(
                    Command::NodeHeartbeat { id, alloc_statuses: hb.alloc_statuses },
                )
            },
            None => ReportOutcome::Nothing,
        },
        NodeReport::LogLines { alloc_id, lines } => ReportOutcome::Forward { alloc_id, lines },
        NodeReport::PullComplete { .. } => ReportOutcome::Nothing,
        NodeReport::PullFailed { .. } => ReportOutcome::Nothing,
    }
}

/// Log lines and pulls never change the replicated state, and every other
/// report of a known node proposes exactly one command.
pub proof fn reports_about_logs_and_pulls_propose_nothing(
    fsm: FsmState,
    report: NodeReport,
    now: SystemTime,
    at: Instant,
    seen: Map<u64, Instant>,
    seen_after: Map<u64, Instant>,
    metrics: LiveMetrics,
    metrics_after: LiveMetrics,
    outcome: ReportOutcome,
)
    requires
        processed(fsm, report, now, at, seen, seen_after, metrics, metrics_after, outcome),
    ensures
        outcome is Propose <==> !(report is LogLines || report is PullComplete
            || report is PullFailed || (report is Heartbeat && node_named(
            fsm.nodes@,
            report->Heartbeat_0.node_id@,
        ) is None)),
{
}

/// A container that failed to start is recorded as failed, for the reported
/// reason, and one that ended as stopped, with the reported code: no report of
/// either leads to another status or to another allocation.
pub proof fn ends_are_recorded_as_ends(
    fsm: FsmState,
    report: NodeReport,
    now: SystemTime,
    at: Instant,
    seen: Map<u64, Instant>,
    seen_after: Map<u64, Instant>,
    metrics: LiveMetrics,
    metrics_after: LiveMetrics,
    outcome: ReportOutcome,
)
    requires
        processed(fsm, report, now, at, seen, seen_after, metrics, metrics_after, outcome),
    ensures
        report matches NodeReport::RunFailed { alloc_id, reason } ==> outcome
            == ReportOutcome::Propose(
            Command::AllocStatus { alloc_id, status: AllocStatus::Failed { reason } },
        ),
        report matches NodeReport::Stopped { alloc_id, exit_code } ==> outcome
            == ReportOutcome::Propose(
            Command::AllocStatus { alloc_id, status: AllocStatus::Stopped { exit_code } },
        ),
        report is RunFailed || report is Stopped ==> (outcome matches ReportOutcome::Propose(
            command,
        ) && (command matches Command::AllocStatus { status, .. } && !(status is Running) && !(
        status is Healthy) && !(status is Pulling) && !(status is Starting))),
{
}

/// A status that a node tells of is recorded for that allocation as it was told.
pub proof fn told_statuses_are_recorded(
    fsm: FsmState,
    alloc_id: AllocId,
    status: AllocStatus,
    now: SystemTime,
    at: Instant,
    seen: Map<u64, Instant>,
    seen_after: Map<u64, Instant>,
    metrics: LiveMetrics,
    metrics_after: LiveMetrics,
    outcome: ReportOutcome,
)
    requires
        processed(
            fsm,
            NodeReport::StatusUpdate { alloc_id, status },
            now,
            at,
            seen,
            seen_after,
            metrics,
            metrics_after,
            outcome,
        ),
    ensures
        outcome == ReportOutcome::Propose(Command::AllocStatus { alloc_id, status }),
        seen_after == seen,
        metrics_after == metrics,
{
}

/// A container that started is recorded as running from this moment on, under
/// the reported address, else under the reported port on the very node that the
/// state has it on; it has no address where neither tells one.
pub proof fn starts_are_recorded_with_their_address(
    fsm: FsmState,
    alloc_id: AllocId,
    host_port: Option<u16>,
    address: Option<SocketAddr>,
    now: SystemTime,
    at: Instant,
    seen: Map<u64, Instant>,
    seen_after: Map<u64, Instant>,
    metrics: LiveMetrics,
    metrics_after: LiveMetrics,
    outcome: ReportOutcome,
)
    requires
        processed(
            fsm,
            NodeReport::RunStarted { alloc_id, host_port, address },
            now,
            at,
            seen,
            seen_after,
            metrics,
            metrics_after,
            outcome,
        ),
    ensures
        outcome matches ReportOutcome::Propose(
            Command::AllocRunning { alloc_id: id, address: recorded, started_at },
        ) && {
            &&& id == alloc_id
            &&& started_at == Some(now)
            &&& address is Some ==> recorded == address
            &&& address is None && host_port is None ==> recorded is None
            &&& address is None ==> (recorded matches Some(made) ==> host_port == Some(made.port)
                && exists|a: int, n: int|
                {
                    &&& 0 <= a < fsm.allocs@.len()
                    &&& 0 <= n < fsm.nodes@.len()
                    &&& (#[trigger] fsm.allocs@[a]).id@ == alloc_id@
                    &&& (#[trigger] fsm.nodes@[n]).mill_id@ == fsm.allocs@[a].node@
                    &&& fsm.nodes@[n].address.ip == made.ip
                })
            &&& address is None && host_port is Some && recorded is None ==> forall|
                a: int,
                n: int,
            |
                {
                    &&& 0 <= a < fsm.allocs@.len()
                    &&& 0 <= n < fsm.nodes@.len()
                    &&& (#[trigger] fsm.allocs@[a]).id@ == alloc_id@
                    &&& forall|b: int| 0 <= b < a ==> (#[trigger] fsm.allocs@[b]).id@ != alloc_id@
                } ==> (#[trigger] fsm.nodes@[n]).mill_id@ != fsm.allocs@[a].node@
        },
        seen_after == seen,
        metrics_after == metrics,
{
    allocations_are_found_by_id(fsm.allocs@, alloc_id@);
    if let Some(alloc) = alloc_named(fsm.allocs@, alloc_id@) {
        nodes_are_found_by_name(fsm.nodes@, alloc.node@);
    }
}

/// A heartbeat of a known node counts as a sign of life of just that node, at
/// this moment; its figures are kept and the statuses that it told are recorded,
/// under the number of the node. One of a node that the state does not know
/// changes nothing.
pub proof fn heartbeats_are_signs_of_life(
    fsm: FsmState,
    hb: Heartbeat,
    now: SystemTime,
    at: Instant,
    seen: Map<u64, Instant>,
    seen_after: Map<u64, Instant>,
    metrics: LiveMetrics,
    metrics_after: LiveMetrics,
    outcome: ReportOutcome,
)
    requires
        processed(
            fsm,
            NodeReport::Heartbeat(hb),
            now,
            at,
            seen,
            seen_after,
            metrics,
            metrics_after,
            outcome,
        ),
    ensures
        forall|i: int|
            {
                &&& 0 <= i < fsm.nodes@.len()
                &&& (#[trigger] fsm.nodes@[i]).mill_id@ == hb.node_id@
                &&& forall|j: int| 0 <= j < i ==> (#[trigger] fsm.nodes@[j]).mill_id@ != hb.node_id@
            } ==> {
                let id = fsm.nodes@[i].raft_id;
                &&& seen_after.dom().contains(id)
                &&& seen_after[id] == at
                &&& forall|other: u64|
                    other != id ==> (#[trigger] seen_after.dom().contains(other)
                        == seen.dom().contains(other)) && (seen.dom().contains(other)
                        ==> seen_after[other] == seen[other])
                &&& outcome == ReportOutcome::Propose(
                    Command::NodeHeartbeat { id, alloc_statuses: hb.alloc_statuses },
                )
                &&& metrics_after.node_metrics@.dom().contains(hb.node_id@)
                &&& metrics_after.node_metrics@[hb.node_id@].resources == hb.resources
                &&& metrics_after.node_metrics@[hb.node_id@].container_stats == hb.stats
                &&& metrics_after.restarts == metrics.restarts
                &&& metrics_after.task_spawns == metrics.task_spawns
                &&& metrics_after.task_durations == metrics.task_durations
            },
        (forall|i: int| 0 <= i < fsm.nodes@.len() ==> (#[trigger] fsm.nodes@[i]).mill_id@
            != hb.node_id@) ==> outcome is Nothing && seen_after == seen && metrics_after
            == metrics,
{
    nodes_are_found_by_name(fsm.nodes@, hb.node_id@);
}

/// Only heartbeats are signs of life, only the end of a task whose start is known
/// counts a duration, and that is the time from its start to this moment, under
/// its name; lines go to those who follow the allocation that they are of.
pub proof fn other_reports_leave_the_figures_alone(
    fsm: FsmState,
    report: NodeReport,
    now: SystemTime,
    at: Instant,
    seen: Map<u64, Instant>,
    seen_after: Map<u64, Instant>,
    metrics: LiveMetrics,
    metrics_after: LiveMetrics,
    outcome: ReportOutcome,
)
    requires
        processed(fsm, report, now, at, seen, seen_after, metrics, metrics_after, outcome),
    ensures
        !(report is Heartbeat) ==> seen_after == seen,
        !(report is Heartbeat) && !(report is Stopped) ==> metrics_after == metrics,
        report matches NodeReport::LogLines { alloc_id, lines } ==> outcome == (
        ReportOutcome::Forward { alloc_id, lines }),
        report matches NodeReport::Stopped { alloc_id, .. } ==> forall|a: int|
            {
                &&& 0 <= a < fsm.allocs@.len()
                &&& (#[trigger] fsm.allocs@[a]).id@ == alloc_id@
                &&& forall|b: int| 0 <= b < a ==> (#[trigger] fsm.allocs@[b]).id@ != alloc_id@
            } ==> {
                let alloc = fsm.allocs@[a];
                &&& alloc.kind == AllocKind::Service || alloc.started_at is None ==> metrics_after
                    == metrics
                &&& alloc.kind == AllocKind::Task ==> (alloc.started_at matches Some(started) ==> {
                    let passed = now.secs * 1_000_000_000 + now.nanos - (started.secs
                        * 1_000_000_000 + started.nanos);
                    &&& passed < 0 ==> metrics_after == metrics
                    &&& passed >= 0 ==> duration_counted(
                        metrics.task_durations@,
                        alloc.name@,
                        Duration { nanos: passed as u128 },
                        metrics_after.task_durations@,
                    ) && metrics_after.restarts == metrics.restarts && metrics_after.task_spawns
                        == metrics.task_spawns && metrics_after.node_metrics
                        == metrics.node_metrics
                })
            },
{
    if let NodeReport::Stopped { alloc_id, .. } = report {
        allocations_are_found_by_id(fsm.allocs@, alloc_id@);
        if let Some(alloc) = alloc_named(fsm.allocs@, alloc_id@) {
            if let Some(started) = alloc.started_at {
                moments_lie_on_one_line(started, now);
            }
        }
    }
}

} // verus!
