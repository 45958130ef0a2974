//! Reports, figures, and watching over nodes and services.
use mill_node::config::{
    Alloc, AllocId, AllocKind, AllocStatus, ClusterConfig, ContainerStats, NodeId, NodeResources,
    NodeStatus, Resources, ServiceDef,
};
use mill_node::fsm::{Command, FsmNode, FsmState, Proposed};
use mill_node::net::{IpAddr, SocketAddr};
use mill_node::primary::health::{
    connect_tried, is_success, probe_url, HealthWait, ProbeNext,
};
use mill_node::primary::metrics::LiveMetrics;
use mill_node::primary::report::{can_process, process_report, ReportOutcome};
use mill_node::primary::watchdog::{
    check_service_restarts, decide_restart, reconcile_wireguard_peers, silent_nodes, track_nodes,
    HeartbeatTracker, RestartDecision, RestartState, Sweep, SweepAction, SweepEvent,
};
use mill_node::rpc::protocol::{Heartbeat, NodeReport};
use mill_node::table::Table;
use mill_node::time::{Duration, Instant, SystemTime};

const CORE: u64 = 1_000_000_000;
const GIB: u64 = 1 << 30;
const MIB: u64 = 1 << 20;

fn resources(cpu: u64, left: u64) -> NodeResources {
    NodeResources {
        cpu_total: cpu * CORE,
        cpu_available: left * CORE,
        memory_total: 8 * GIB,
        memory_available: 6 * GIB,
    }
}

fn stats(cpu_usage: u64, memory_mib: u64) -> ContainerStats {
    ContainerStats {
        alloc_id: AllocId("svc-1".into()),
        cpu_usage,
        memory_usage: memory_mib * MIB,
    }
}

#[test]
fn live_metrics_update_and_snapshot() {
    let mut lm = LiveMetrics::new();
    let node = NodeId("node-1".into());
    lm.update(node.clone(), resources(4, 3), vec![stats(CORE / 2, 256)]);

    let snap = lm.snapshot_all();
    assert_eq!(snap.len(), 1);
    assert_eq!(snap[0].0, node);
    let ns = &snap[0].1;
    assert_eq!(ns.resources.cpu_total, 4 * CORE);
    assert_eq!(ns.container_stats.len(), 1);
    assert_eq!(ns.container_stats[0].cpu_usage, CORE / 2);
}

#[test]
fn live_metrics_overwrite_on_update() {
    let mut lm = LiveMetrics::new();
    let node = NodeId("node-1".into());
    lm.update(node.clone(), resources(4, 3), vec![]);
    // Update with new stats
    lm.update(node.clone(), resources(4, 3), vec![stats(CORE * 3 / 2, 512)]);

    let snap = lm.snapshot_all();
    assert_eq!(snap.len(), 1);
    assert_eq!(snap[0].1.container_stats.len(), 1);
    assert_eq!(snap[0].1.container_stats[0].cpu_usage, CORE * 3 / 2);
}

fn count(counts: &Vec<(String, u64)>, name: &str) -> u64 {
    counts.iter().find(|(n, _)| n == name).unwrap().1
}

#[test]
fn restart_count_tracking() {
    let mut lm = LiveMetrics::new();
    assert!(lm.restart_counts().is_empty());

    lm.record_restart(&"web".to_string());
    lm.record_restart(&"web".to_string());
    lm.record_restart(&"api".to_string());

    let counts = lm.restart_counts();
    assert_eq!(count(&counts, "web"), 2);
    assert_eq!(count(&counts, "api"), 1);
}

#[test]
fn task_spawn_count_tracking() {
    let mut lm = LiveMetrics::new();
    assert!(lm.task_spawn_counts().is_empty());

    lm.record_task_spawn(&"migrate".to_string());
    lm.record_task_spawn(&"migrate".to_string());
    lm.record_task_spawn(&"backup".to_string());

    let counts = lm.task_spawn_counts();
    assert_eq!(count(&counts, "migrate"), 2);
    assert_eq!(count(&counts, "backup"), 1);
}

#[test]
fn task_duration_histogram() {
    let mut lm = LiveMetrics::new();

    // Record a 2-second task and a 45-second task.
    lm.record_task_duration(&"migrate".to_string(), Duration::from_secs(2));
    lm.record_task_duration(&"migrate".to_string(), Duration::from_secs(45));

    let snaps = lm.task_duration_snapshots();
    assert_eq!(snaps.len(), 1);
    let s = &snaps[0];
    assert_eq!(s.name, "migrate");
    assert_eq!(s.count, 2);
    assert_eq!(s.sum, Duration::from_secs(47));

    // 2s → bucket[1] (5.0), 45s → bucket[3] (60.0)
    // Cumulative: bucket[0](1.0)=0, bucket[1](5.0)=1, bucket[2](30.0)=1, bucket[3](60.0)=2
    assert_eq!(s.buckets[0].1, 0); // <=1s
    assert_eq!(s.buckets[1].1, 1); // <=5s
    assert_eq!(s.buckets[2].1, 1); // <=30s
    assert_eq!(s.buckets[3].1, 2); // <=60s
    assert_eq!(s.buckets[8].1, 2); // +Inf
}

#[test]
fn snapshots_count_the_durations_of_each_task() {
    let mut lm = LiveMetrics::new();
    let records = [
        ("migrate", 1_000u64),
        ("backup", 3_600_001),
        ("migrate", 1_001),
        ("backup", 5_000),
        ("migrate", 30_000),
        ("migrate", 7_200_000),
    ];
    for (name, millis) in records {
        lm.record_task_duration(&name.to_string(), Duration::from_millis(millis));
    }
    let snaps = lm.task_duration_snapshots();
    assert_eq!(snaps.len(), 2);
    for name in ["migrate", "backup"] {
        let spans: Vec<u64> = records.iter().filter(|r| r.0 == name).map(|r| r.1).collect();
        let s = snaps.iter().find(|s| s.name == name).unwrap();
        assert_eq!(s.count, spans.len() as u64);
        assert_eq!(s.sum, Duration::from_millis(spans.iter().sum()));
        for (bound, count) in &s.buckets {
            let fits = |span: &&u64| bound.map_or(true, |secs| **span <= secs * 1000);
            assert_eq!(*count, spans.iter().filter(fits).count() as u64);
        }
        assert!(s.buckets.windows(2).all(|w| w[0].1 <= w[1].1));
        assert_eq!(s.buckets.last(), Some(&(None, s.count)));
    }
}

fn node(raft_id: u64, name: &str, status: NodeStatus) -> FsmNode {
    FsmNode {
        raft_id,
        mill_id: NodeId(name.into()),
        address: SocketAddr { ip: IpAddr::V4(0x0a63_0000 + raft_id as u32), port: 4400 },
        resources: resources(4, 4),
        status,
        wireguard_pubkey: Some(format!("key-{name}")),
        instance_id: None,
        rpc_address: None,
        advertise_addr: None,
    }
}

fn make_alloc(id: &str, kind: AllocKind, status: AllocStatus) -> Alloc {
    Alloc {
        id: AllocId(id.into()),
        node: NodeId("node-1".into()),
        name: "web".into(),
        kind,
        status,
        address: None,
        resources: Resources { cpu: 1, memory: 1 },
        started_at: Some(SystemTime { secs: 100, nanos: 0 }),
    }
}

fn report(fsm: &FsmState, lm: &mut LiveMetrics, report: NodeReport) -> ReportOutcome {
    let mut tracker = HeartbeatTracker::new();
    let now = SystemTime { secs: 107, nanos: 0 };
    assert!(can_process(fsm, &report, now, lm));
    process_report(fsm, report, now, Instant { nanos: 5 }, &mut tracker, lm)
}

#[test]
fn addresses_are_made_up_from_the_node() {
    let mut fsm = FsmState::empty();
    fsm.nodes.push(node(1, "node-1", NodeStatus::Ready));
    fsm.allocs.push(make_alloc("web-1", AllocKind::Service, AllocStatus::Starting));
    let started = NodeReport::RunStarted {
        alloc_id: AllocId("web-1".into()),
        host_port: Some(50001),
        address: None,
    };
    let outcome = report(&fsm, &mut LiveMetrics::new(), started);
    assert_eq!(
        outcome,
        ReportOutcome::Propose(Command::AllocRunning {
            alloc_id: AllocId("web-1".into()),
            address: Some(SocketAddr { ip: IpAddr::V4(0x0a63_0001), port: 50001 }),
            started_at: Some(SystemTime { secs: 107, nanos: 0 }),
        })
    );
}

#[test]
fn ended_tasks_are_timed() {
    let mut fsm = FsmState::empty();
    fsm.allocs.push(make_alloc("job-1", AllocKind::Task, AllocStatus::Running));
    let mut lm = LiveMetrics::new();
    let ended = NodeReport::Stopped { alloc_id: AllocId("job-1".into()), exit_code: 0 };
    let outcome = report(&fsm, &mut lm, ended);
    assert_eq!(
        outcome,
        ReportOutcome::Propose(Command::AllocStatus {
            alloc_id: AllocId("job-1".into()),
            status: AllocStatus::Stopped { exit_code: 0 },
        })
    );
    assert_eq!(lm.task_duration_snapshots()[0].sum, Duration::from_secs(7));
}

#[test]
fn logs_and_pulls_change_nothing() {
    let fsm = FsmState::empty();
    let mut lm = LiveMetrics::new();
    let lines = NodeReport::LogLines { alloc_id: AllocId("a".into()), lines: vec![] };
    assert_eq!(
        report(&fsm, &mut lm, lines),
        ReportOutcome::Forward { alloc_id: AllocId("a".into()), lines: vec![] }
    );
    let pulled = NodeReport::PullComplete { image: "x".into() };
    assert_eq!(report(&fsm, &mut lm, pulled), ReportOutcome::Nothing);
}

#[test]
fn heartbeats_of_unknown_nodes_are_passed_over() {
    let mut fsm = FsmState::empty();
    let mut lm = LiveMetrics::new();
    let mut tracker = HeartbeatTracker::new();
    let now = SystemTime { secs: 0, nanos: 0 };
    let beat = || {
        NodeReport::Heartbeat(Heartbeat {
            node_id: NodeId("node-1".into()),
            alloc_statuses: vec![],
            resources: resources(4, 1),
            stats: vec![],
            volumes: vec![],
        })
    };
    let at = Instant { nanos: 9 };
    let outcome = process_report(&fsm, beat(), now, at, &mut tracker, &mut lm);
    assert_eq!(outcome, ReportOutcome::Nothing);
    assert!(lm.snapshot_all().is_empty());
    fsm.nodes.push(node(3, "node-1", NodeStatus::Ready));
    let outcome = process_report(&fsm, beat(), now, at, &mut tracker, &mut lm);
    assert_eq!(
        outcome,
        ReportOutcome::Propose(Command::NodeHeartbeat { id: 3, alloc_statuses: vec![] })
    );
    assert_eq!(tracker.last_seen(3), Some(at));
    assert_eq!(lm.snapshot_all()[0].1.resources.cpu_available, CORE);
}

fn at(secs: u128) -> Instant {
    Instant { nanos: secs * 1_000_000_000 }
}

#[test]
fn secondary_heartbeat_timeout() {
    let nodes = vec![node(1, "node-1", NodeStatus::Ready), node(2, "node-2", NodeStatus::Ready)];
    let mut found = vec![];
    let mut tracker = HeartbeatTracker::new();
    let timeout = Duration::from_secs(15);
    track_nodes(&nodes, &mut found, &mut tracker, at(0));
    tracker.record(1, at(10));
    // Never heard of, but found fifteen seconds ago.
    let silent = silent_nodes(&nodes, &found, &tracker, at(15), timeout);
    assert_eq!(silent.len(), 1);
    assert_eq!(silent[0].mill_id, NodeId("node-2".into()));
    // Within the grace period nobody is silent.
    assert!(silent_nodes(&nodes, &found, &tracker, at(14), timeout).is_empty());
    // Nodes that are gone are forgotten.
    track_nodes(&vec![node(2, "node-2", NodeStatus::Ready)], &mut found, &mut tracker, at(16));
    assert!(tracker.last_seen(1).is_none());
}

#[test]
fn wireguard_peer_removed_on_node_down() {
    let mut fsm = FsmState::empty();
    fsm.nodes.push(node(1, "node-1", NodeStatus::Ready));
    fsm.allocs.push(make_alloc("web-1", AllocKind::Service, AllocStatus::Running));
    let state = || {
        let mut fsm = FsmState::empty();
        fsm.nodes.push(node(1, "node-1", NodeStatus::Ready));
        fsm.allocs.push(make_alloc("web-1", AllocKind::Service, AllocStatus::Running));
        fsm
    };
    let mut found = vec![];
    let mut tracker = HeartbeatTracker::new();
    let mut backoff = Table::new();
    track_nodes(&fsm.nodes, &mut found, &mut tracker, at(0));
    let silent = silent_nodes(&fsm.nodes, &found, &tracker, at(60), Duration::from_secs(15));
    let (mut sweep, first) = Sweep::begin(silent, true);
    assert_eq!(first, SweepAction::ReadState);
    let action = sweep.step(SweepEvent::State(state()), &mut backoff);
    assert_eq!(action, SweepAction::Propose(Command::NodeDown { id: 1 }));
    let action = sweep.step(SweepEvent::Proposed(Proposed::Applied), &mut backoff);
    assert_eq!(action, SweepAction::RemovePeer { public_key: "key-node-1".into() });
    let action = sweep.step(SweepEvent::PeerRemoved, &mut backoff);
    assert_eq!(action, SweepAction::ReadState);
    let action = sweep.step(SweepEvent::State(state()), &mut backoff);
    assert!(matches!(
        action,
        SweepAction::Propose(Command::AllocStatus { status: AllocStatus::Failed { .. }, .. })
    ));
    let action = sweep.step(SweepEvent::Proposed(Proposed::Applied), &mut backoff);
    assert_eq!(action, SweepAction::Finished);
}

#[test]
fn wireguard_peer_readded_on_recovery() {
    let mut fsm = FsmState::empty();
    fsm.nodes.push(node(1, "node-1", NodeStatus::Down));
    let mut statuses = vec![];
    assert!(reconcile_wireguard_peers(&fsm, true, &mut statuses).is_empty());
    fsm.nodes[0].status = NodeStatus::Ready;
    let peers = reconcile_wireguard_peers(&fsm, true, &mut statuses);
    assert_eq!(peers.len(), 1);
    assert_eq!(peers[0].public_key, "key-node-1");
    assert_eq!(peers[0].tunnel_ip, IpAddr::V4(0x0a63_0001));
    // Only once.
    assert!(reconcile_wireguard_peers(&fsm, true, &mut statuses).is_empty());
}

fn delays() -> Vec<Duration> {
    vec![Duration::from_secs(1), Duration::from_secs(5)]
}

#[test]
fn restarts_wait_for_their_delay() {
    let tried = |attempts: usize, secs: u128| {
        Some(RestartState { attempts, last_attempt_at: at(secs) })
    };
    assert_eq!(decide_restart(2, 2, 2, tried(3, 0), &delays(), at(9)), RestartDecision::Reset);
    assert_eq!(decide_restart(1, 2, 2, None, &delays(), at(9)), RestartDecision::Wait);
    assert_eq!(decide_restart(1, 1, 2, None, &delays(), at(9)), RestartDecision::Note);
    assert_eq!(decide_restart(0, 0, 2, tried(0, 9), &delays(), at(9)), RestartDecision::Wait);
    assert_eq!(
        decide_restart(0, 0, 2, tried(0, 8), &delays(), at(9)),
        RestartDecision::Restart { needed: 2 }
    );
    // Beyond the list the last delay counts.
    assert_eq!(decide_restart(0, 0, 2, tried(7, 5), &delays(), at(9)), RestartDecision::Wait);
}

#[test]
fn service_rescheduled_after_node_down() {
    let mut fsm = FsmState::empty();
    let def = ServiceDef {
        image: "nginx:1".into(),
        port: 80,
        replicas: 2,
        resources: Resources { cpu: 1, memory: 1 },
        env: vec![],
        command: None,
        health: None,
        routes: vec![],
        volumes: vec![],
    };
    fsm.config = Some(ClusterConfig { services: vec![("web".into(), def)], tasks: vec![] });
    fsm.allocs.push(make_alloc("web-1", AllocKind::Service, AllocStatus::Healthy));
    let failed = AllocStatus::Failed { reason: "node down".into() };
    fsm.allocs.push(make_alloc("web-2", AllocKind::Service, failed));
    let mut backoff = Table::new();
    backoff.insert("gone".to_string(), RestartState { attempts: 1, last_attempt_at: at(0) });
    // The first time only the moment is noted.
    assert!(check_service_restarts(&fsm, &mut backoff, &delays(), at(10)).is_empty());
    assert!(!backoff.contains(&"gone".to_string()));
    let orders = check_service_restarts(&fsm, &mut backoff, &delays(), at(11));
    assert_eq!(orders.len(), 1);
    assert_eq!(orders[0].name, "web");
    assert_eq!(orders[0].needed, 1);
    assert_eq!(backoff.get(&"web".to_string()).unwrap().attempts, 1);
}

#[test]
fn wait_healthy_times_out_for_unreachable() {
    let health = mill_node::config::HealthCheck {
        path: "/health".into(),
        interval: Duration::from_millis(50),
        failure_threshold: 3,
    };
    // Every probe fails; each takes no time. The wait ends by the timeout of
    // 200 ms, after more failures than the threshold.
    let start = at(7);
    let wait = HealthWait::new(&health, start.after(Duration::from_millis(200)));
    let mut now = start;
    let mut probes = 0;
    let mut next = ProbeNext::Probe;
    let result = loop {
        next = match next {
            ProbeNext::Probe => {
                probes += 1;
                wait.probed(false, now)
            }
            ProbeNext::Sleep(span) => {
                assert_eq!(span, Duration::from_millis(50));
                now = now.after(span);
                wait.slept(now)
            }
            ProbeNext::Over(healthy) => break healthy,
        };
    };
    assert!(!result);
    assert_eq!(probes, 4);
    assert_eq!(now, start.after(Duration::from_millis(200)));
}

#[test]
fn wait_healthy_outlasts_failures() {
    let health = mill_node::config::HealthCheck {
        path: "/health".into(),
        interval: Duration::from_secs(10),
        failure_threshold: 1,
    };
    let wait = HealthWait::new(&health, at(25));
    assert_eq!(wait.probed(false, at(0)), ProbeNext::Sleep(Duration::from_secs(10)));
    assert_eq!(wait.slept(at(10)), ProbeNext::Probe);
    assert_eq!(wait.probed(false, at(10)), ProbeNext::Sleep(Duration::from_secs(10)));
    assert_eq!(wait.slept(at(20)), ProbeNext::Probe);
    // The last pause does not go beyond the deadline.
    assert_eq!(wait.probed(false, at(20)), ProbeNext::Sleep(Duration::from_secs(5)));
    assert_eq!(wait.probed(true, at(20)), ProbeNext::Over(true));
    assert_eq!(wait.probed(false, at(25)), ProbeNext::Over(false));
    assert_eq!(wait.slept(at(25)), ProbeNext::Over(false));
}

#[test]
fn wait_tcp_ready_succeeds_for_listening_port() {
    let interval = Duration::from_millis(100);
    assert_eq!(connect_tried(true, at(0), at(5), interval), ProbeNext::Over(true));
    assert_eq!(connect_tried(false, at(0), at(5), interval), ProbeNext::Sleep(interval));
}

#[test]
fn wait_tcp_ready_times_out_for_unreachable() {
    let interval = Duration::from_millis(100);
    assert_eq!(connect_tried(false, at(5), at(5), interval), ProbeNext::Over(false));
}

#[test]
fn probes_ask_the_path_of_the_check() {
    let address = SocketAddr { ip: IpAddr::V4(0x7f00_0001), port: 80 };
    assert_eq!(probe_url(address, &"/health".to_string()), "http://127.0.0.1:80/health");
    assert!(is_success(204));
    assert!(!is_success(300));
    assert!(!is_success(199));
}
