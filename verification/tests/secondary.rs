//! The part of a node that runs containers.
use mill_node::config::{
    AllocId, AllocKind, AllocStatus, ContainerSpec, ContainerStats, ContainerVolume, LogLine,
    LogStream, NodeId, NodeResources,
};
use mill_node::error::NodeError;
use mill_node::net::{IpAddr, SocketAddr};
use mill_node::rpc::protocol::{NodeCommand, NodeReport};
use mill_node::secondary::agent::{AgentAction, Secondary};
use mill_node::secondary::heartbeat::heartbeat;
use mill_node::secondary::logs::{LogBuffer, MAX_LINES};
use mill_node::secondary::metrics::{
    compute_cpu_rates, parse_meminfo, read_host_resources, read_linux_cpu, MetricsCollector,
};
use mill_node::secondary::reconcile::{
    Reconcile, ReconcileAction, ReconcileEvent, RecoveredInfo,
};
use mill_node::secondary::runner::{
    container_exited, exit_cleaned_up, exit_status, pull_report, ContainerRun, ContainerStop,
    RunAction, RunEvent, StopAction, StopEvent,
};
use mill_node::secondary::state::{AllocationMap, LocalAlloc};
use mill_node::table::Table;
use mill_node::time::{Duration, Instant, SystemTime};

const CORE: u64 = 1_000_000_000;
const MIB: u64 = 1 << 20;

fn id(name: &str) -> AllocId {
    AllocId(name.to_string())
}

fn container(name: &str) -> ContainerSpec {
    ContainerSpec {
        alloc_id: id(name),
        kind: AllocKind::Service,
        timeout: None,
        command: None,
        image: "test:latest".into(),
        env: vec![],
        port: Some(8080),
        host_port: Some(50000),
        cpu: CORE,
        memory: 256 * MIB,
        volumes: vec![],
    }
}

fn make_alloc(name: &str) -> LocalAlloc {
    LocalAlloc {
        alloc_id: id(name),
        spec: container(name),
        status: AllocStatus::Running,
        host_port: Some(50000),
        logs: LogBuffer::new(),
    }
}

fn make_line(content: &str) -> LogLine {
    LogLine {
        timestamp: SystemTime { secs: 0, nanos: 0 },
        stream: LogStream::Stdout,
        content: content.into(),
    }
}

#[test]
fn tail_returns_last_n_lines() {
    let mut buf = LogBuffer::new();
    for i in 0..20 {
        buf.push(make_line(&format!("line-{i}")));
    }
    let tail = buf.tail(5);
    assert_eq!(tail.len(), 5);
    assert_eq!(tail[0].content, "line-15");
    assert_eq!(tail[4].content, "line-19");
}

#[test]
fn tail_returns_all_when_fewer_than_n() {
    let mut buf = LogBuffer::new();
    buf.push(make_line("only"));
    let tail = buf.tail(100);
    assert_eq!(tail.len(), 1);
    assert_eq!(tail[0].content, "only");
}

#[test]
fn evicts_oldest_beyond_capacity() {
    let mut buf = LogBuffer::new();
    for i in 0..MAX_LINES + 50 {
        buf.push(make_line(&format!("line-{i}")));
    }
    let tail = buf.tail(MAX_LINES);
    assert_eq!(tail.len(), MAX_LINES);
    assert_eq!(tail[0].content, "line-50");
}

fn stats(name: &str, cpu: u64, memory_mib: u64) -> ContainerStats {
    ContainerStats {
        alloc_id: id(name),
        cpu_usage: cpu * CORE,
        memory_usage: memory_mib * MIB,
    }
}

const T0: Instant = Instant { nanos: 1_000 };
const T1: Instant = Instant { nanos: 10_000_001_000 };

#[test]
fn cpu_rate_first_reading_is_zero() {
    let mut prev = Table::new();
    let result = compute_cpu_rates(&vec![stats("svc-1", 100, 128)], &mut prev, T0);
    assert_eq!(result.len(), 1);
    assert_eq!(result[0].cpu_usage, 0);
    // prev_cpu should now have an entry
    assert!(prev.contains(&"svc-1".to_string()));
}

#[test]
fn cpu_rate_two_successive_readings() {
    let mut prev = Table::new();
    // First reading → 0
    compute_cpu_rates(&vec![stats("svc-1", 10, 128)], &mut prev, T0);

    // Second reading 10 seconds later, cumulative went from 10 to 20
    let result = compute_cpu_rates(&vec![stats("svc-1", 20, 130)], &mut prev, T1);
    assert_eq!(result.len(), 1);
    // (20 - 10) / 10s = 1 core
    assert_eq!(result[0].cpu_usage, CORE);
    assert_eq!(result[0].memory_usage, 130 * MIB);
}

#[test]
fn cpu_rate_negative_delta_clamped() {
    let mut prev = Table::new();
    // Seed with a high cumulative value
    prev.insert("svc-1".to_string(), (50 * CORE, T0));

    // Container restarted — cumulative reset to a lower value
    let result = compute_cpu_rates(&vec![stats("svc-1", 2, 64)], &mut prev, T1);
    assert_eq!(result[0].cpu_usage, 0);
}

#[test]
fn cpu_rate_stale_entries_cleaned() {
    let mut prev = Table::new();
    prev.insert("svc-1".to_string(), (10 * CORE, T0));
    prev.insert("svc-gone".to_string(), (5 * CORE, T0));

    // Only svc-1 is in the new stats
    compute_cpu_rates(&vec![stats("svc-1", 20, 128)], &mut prev, T1);

    assert!(prev.contains(&"svc-1".to_string()));
    assert!(!prev.contains(&"svc-gone".to_string()));
}

const MEMINFO: &str = "MemTotal:       16384 kB\nMemFree:  1 kB\nMemAvailable:    8192 kB\n";
const STAT: &str = "cpu  1 2 3\ncpu0 1 2 3\ncpu1 1 2 3\nintr 5\n";

#[test]
fn the_resources_of_the_host_are_read() {
    assert_eq!(parse_meminfo(MEMINFO), (16384, 8192));
    assert_eq!(read_linux_cpu(STAT), 2);
    let host = read_host_resources(Some(MEMINFO), Some(STAT));
    assert_eq!(
        host,
        NodeResources {
            cpu_total: 2 * CORE,
            cpu_available: 2 * CORE,
            memory_total: 16384 * 1024,
            memory_available: 8192 * 1024,
        }
    );
    let unknown = read_host_resources(None, None);
    assert_eq!(unknown.cpu_total, 0);
    assert_eq!(unknown.memory_total, 0);
}

#[test]
fn figures_are_kept_until_the_next_ones() {
    let mut collector = MetricsCollector::new();
    let host = read_host_resources(Some(MEMINFO), Some(STAT));
    collector.refresh(host, &vec![stats("svc-1", 1, 8)], T0);
    collector.refresh(host, &vec![stats("svc-1", 6, 9)], T1);
    let (resources, figures) = collector.current();
    assert_eq!(resources, host);
    assert_eq!(figures[0].cpu_usage, CORE / 2);
    assert_eq!(figures[0].memory_usage, 9 * MIB);
}

#[test]
fn insert_and_remove() {
    let mut map = AllocationMap::new();
    assert!(map.insert(make_alloc("a")).is_ok());
    assert!(map.contains(&id("a")));
    assert!(map.remove(&id("a")).is_some());
    assert!(!map.contains(&id("a")));
}

#[test]
fn insert_duplicate_fails() {
    let mut map = AllocationMap::new();
    assert!(map.insert(make_alloc("a")).is_ok());
    assert!(map.insert(make_alloc("a")).is_err());
}

#[test]
fn total_reserved_cpu_empty() {
    let map = AllocationMap::new();
    assert_eq!(map.total_reserved_cpu(), 0);
}

#[test]
fn volume_info_excludes_ephemeral() {
    let mut map = AllocationMap::new();
    let mut alloc_a = make_alloc("a");
    alloc_a.spec.volumes = vec![
        ContainerVolume { name: "data".into(), path: "/data".into(), ephemeral: false },
        ContainerVolume { name: "tmp".into(), path: "/tmp".into(), ephemeral: true },
    ];
    map.insert(alloc_a).ok();

    let vols = map.volume_info();
    assert_eq!(vols.len(), 1);
    assert_eq!(vols[0].name, "data");
    assert_eq!(vols[0].alloc_id, Some(id("a")));
    assert_eq!(vols[0].size_bytes, 0);
}

#[test]
fn total_reserved_cpu_sums_allocs() {
    let mut map = AllocationMap::new();
    let mut a1 = make_alloc("a");
    a1.spec.cpu = CORE * 3 / 2;
    let mut a2 = make_alloc("b");
    a2.spec.cpu = CORE * 2;
    map.insert(a1).ok();
    map.insert(a2).ok();
    assert_eq!(map.total_reserved_cpu(), CORE as u128 * 7 / 2);
}

#[test]
fn all_statuses_returns_current_state() {
    let mut map = AllocationMap::new();
    map.insert(make_alloc("a")).ok();
    map.insert(make_alloc("b")).ok();

    let statuses = map.all_statuses();
    assert_eq!(statuses.len(), 2);
    assert!(statuses.contains(&(id("a"), AllocStatus::Running)));
    assert!(statuses.contains(&(id("b"), AllocStatus::Running)));
}

#[test]
fn set_status_updates_alloc() {
    let mut map = AllocationMap::new();
    map.insert(make_alloc("a")).ok();

    map.set_status(&id("a"), AllocStatus::Stopped { exit_code: 0 });
    let statuses = map.all_statuses();
    assert_eq!(statuses, vec![(id("a"), AllocStatus::Stopped { exit_code: 0 })]);
}

#[test]
fn set_status_noop_for_missing_alloc() {
    let mut map = AllocationMap::new();
    map.set_status(&id("missing"), AllocStatus::Failed { reason: "gone".into() });
    assert!(map.all_statuses().is_empty());
}

#[test]
fn total_reserved_memory_empty() {
    let map = AllocationMap::new();
    assert_eq!(map.total_reserved_memory(), 0);
}

#[test]
fn total_reserved_memory_sums_allocs() {
    let mut map = AllocationMap::new();
    let mut a1 = make_alloc("a");
    a1.spec.memory = 256 * MIB;
    let mut a2 = make_alloc("b");
    a2.spec.memory = 512 * MIB;
    map.insert(a1).ok();
    map.insert(a2).ok();
    assert_eq!(map.total_reserved_memory(), 256 * MIB + 512 * MIB);
}

#[test]
fn heartbeats_take_off_what_is_reserved() {
    let mut map = AllocationMap::new();
    map.insert(make_alloc("a")).ok();
    let host = NodeResources {
        cpu_total: 4 * CORE,
        cpu_available: 4 * CORE,
        memory_total: 128 * MIB,
        memory_available: 128 * MIB,
    };
    let beat = heartbeat(&map, host, vec![], &NodeId("test-node".into()));
    assert_eq!(beat.node_id, NodeId("test-node".into()));
    assert_eq!(beat.resources.cpu_available, 3 * CORE);
    // More is reserved than there is.
    assert_eq!(beat.resources.memory_available, 0);
    assert_eq!(beat.alloc_statuses, vec![(id("a"), AllocStatus::Running)]);
}

fn test_recovered(host_port: Option<u16>) -> RecoveredInfo {
    RecoveredInfo {
        kind: AllocKind::Service,
        timeout: None,
        command: None,
        image: "test:latest".into(),
        host_port,
        cpu: CORE,
        memory: 64 * MIB,
        volumes: vec![],
    }
}

/// Runs the whole work, answering as a runtime would, and gives all actions.
fn reconcile_all(
    running: Vec<AllocId>,
    expected: Vec<AllocId>,
    mesh_ip: Option<IpAddr>,
    info: Option<RecoveredInfo>,
    map: &mut AllocationMap,
) -> Vec<ReconcileAction> {
    let mut info = info;
    let (mut work, mut action) = Reconcile::begin(Some(running), expected, mesh_ip);
    let mut actions = vec![];
    loop {
        let event = match &action {
            ReconcileAction::Stop { .. } => ReconcileEvent::Stopped,
            ReconcileAction::Remove { .. } => ReconcileEvent::Removed,
            ReconcileAction::Report(_) => ReconcileEvent::Reported,
            ReconcileAction::Recover { .. } => ReconcileEvent::Recovered(info.take()),
            ReconcileAction::ReservePort { .. } => ReconcileEvent::PortReserved,
            ReconcileAction::ReconnectLogs { .. } => ReconcileEvent::LogsReconnected,
            ReconcileAction::WatchExit { .. } => ReconcileEvent::Watching,
            ReconcileAction::Finished => return actions,
        };
        actions.push(action);
        action = work.step(event, map);
    }
}

fn stopped_of(actions: &Vec<ReconcileAction>, name: &str) -> bool {
    actions.contains(&ReconcileAction::Stop { alloc_id: id(name) })
}

#[test]
fn stops_orphan_containers() {
    let mut map = AllocationMap::new();
    // Only alloc-1 is expected; alloc-2 and alloc-3 are orphans.
    let actions = reconcile_all(
        vec![id("alloc-1"), id("alloc-2"), id("alloc-3")],
        vec![id("alloc-1")],
        None,
        Some(test_recovered(Some(30000))),
        &mut map,
    );
    assert!(stopped_of(&actions, "alloc-2"), "alloc-2 should be stopped");
    assert!(stopped_of(&actions, "alloc-3"), "alloc-3 should be stopped");
    assert!(!stopped_of(&actions, "alloc-1"), "alloc-1 should NOT be stopped");
    assert!(actions.contains(&ReconcileAction::Remove { alloc_id: id("alloc-2") }));
    assert!(actions.contains(&ReconcileAction::Remove { alloc_id: id("alloc-3") }));
}

#[test]
fn every_container_is_seen_to() {
    let mut map = AllocationMap::new();
    let actions = reconcile_all(
        vec![id("x"), id("a"), id("y"), id("b")],
        vec![id("a"), id("gone"), id("b")],
        None,
        Some(test_recovered(None)),
        &mut map,
    );
    let gone = NodeReport::Stopped { alloc_id: id("gone"), exit_code: -1 };
    let looks: Vec<&ReconcileAction> = actions
        .iter()
        .filter(|a| match a {
            ReconcileAction::Recover { .. } => true,
            ReconcileAction::Report(report) => matches!(report, NodeReport::Stopped { .. }),
            _ => false,
        })
        .collect();
    assert_eq!(
        looks,
        vec![
            &ReconcileAction::Recover { alloc_id: id("a") },
            &ReconcileAction::Report(gone),
            &ReconcileAction::Recover { alloc_id: id("b") },
        ]
    );
    let ended: Vec<&ReconcileAction> = actions
        .iter()
        .filter(|a| {
            matches!(a, ReconcileAction::Stop { .. } | ReconcileAction::Remove { .. })
        })
        .collect();
    assert_eq!(
        ended,
        vec![
            &ReconcileAction::Stop { alloc_id: id("x") },
            &ReconcileAction::Remove { alloc_id: id("x") },
            &ReconcileAction::Stop { alloc_id: id("y") },
            &ReconcileAction::Remove { alloc_id: id("y") },
        ]
    );
    // Only the labels of the first one could be read.
    assert!(map.contains(&id("a")) && !map.contains(&id("b")));
}

#[test]
fn lines_go_to_the_allocation_that_is_there() {
    let mut map = AllocationMap::new();
    map.push_line(&id("a"), make_line("lost"));
    map.insert(make_alloc("a")).unwrap();
    map.push_line(&id("a"), make_line("kept"));
    map.push_line(&id("b"), make_line("lost"));
    let lines = map.log_buffer(&id("a")).unwrap().tail(10);
    assert_eq!(lines.len(), 1);
    assert_eq!(lines[0].content, "kept");
    assert_eq!(map.all_statuses().len(), 1);
}

#[test]
fn rehydrates_expected_running_container() {
    let mut map = AllocationMap::new();
    let mesh_ip = IpAddr::V4(0x0a63_0001);
    let actions = reconcile_all(
        vec![id("alloc-1")],
        vec![id("alloc-1")],
        Some(mesh_ip),
        Some(test_recovered(Some(50050))),
        &mut map,
    );
    assert!(map.contains(&id("alloc-1")), "alloc-1 should be in AllocationMap");
    assert!(actions
        .contains(&ReconcileAction::ReservePort { alloc_id: id("alloc-1"), port: 50050 }));
    let report = NodeReport::RunStarted {
        alloc_id: id("alloc-1"),
        host_port: Some(50050),
        address: Some(SocketAddr { ip: mesh_ip, port: 50050 }),
    };
    assert_eq!(actions.last(), Some(&ReconcileAction::Report(report)));
}

#[test]
fn reports_stopped_for_missing_expected() {
    let mut map = AllocationMap::new();
    let actions = reconcile_all(vec![], vec![id("alloc-1")], None, None, &mut map);
    let report = NodeReport::Stopped { alloc_id: id("alloc-1"), exit_code: -1 };
    // No stop/remove calls should have been made.
    assert_eq!(actions, vec![ReconcileAction::Report(report)]);
}

#[test]
fn handles_recover_info_failure() {
    let mut map = AllocationMap::new();
    let actions =
        reconcile_all(vec![id("alloc-1")], vec![id("alloc-1")], None, None, &mut map);
    assert!(
        !map.contains(&id("alloc-1")),
        "alloc-1 should NOT be in AllocationMap when recover fails"
    );
    assert!(
        !actions.iter().any(|a| matches!(a, ReconcileAction::Report(_))),
        "no report expected after recover failure"
    );
}

#[test]
fn rehydrates_despite_port_conflict() {
    // Whether the port could be reserved is not even told.
    let mut map = AllocationMap::new();
    let actions = reconcile_all(
        vec![id("alloc-1")],
        vec![id("alloc-1")],
        None,
        Some(test_recovered(Some(50060))),
        &mut map,
    );
    assert!(
        map.contains(&id("alloc-1")),
        "alloc should still be rehydrated despite port conflict"
    );
    assert!(matches!(
        actions.last(),
        Some(ReconcileAction::Report(NodeReport::RunStarted { .. }))
    ));
}

#[test]
fn nothing_is_done_where_it_is_unknown_what_runs() {
    let (_, action) = Reconcile::begin(None, vec![id("alloc-1")], None);
    assert_eq!(action, ReconcileAction::Finished);
}

#[test]
fn containers_run_with_a_port_of_the_host() {
    let mut map = AllocationMap::new();
    let mesh_ip = IpAddr::V4(0x0a63_0001);
    let mut described = container("a");
    described.host_port = None;
    let (mut run, action) = ContainerRun::begin(&map, id("a"), described, Some(mesh_ip));
    assert_eq!(
        action,
        RunAction::Report(NodeReport::StatusUpdate {
            alloc_id: id("a"),
            status: AllocStatus::Pulling,
        })
    );
    let action = run.step(RunEvent::Reported, &mut map);
    assert_eq!(action, RunAction::CheckImage { image: "test:latest".into() });
    let action = run.step(RunEvent::ImageChecked { cached: false }, &mut map);
    assert_eq!(action, RunAction::Pull { image: "test:latest".into() });
    run.step(RunEvent::Pulled(Ok(())), &mut map);
    let action = run.step(RunEvent::Reported, &mut map);
    assert_eq!(action, RunAction::AllocatePort);
    let action = run.step(RunEvent::Port(Some(50123)), &mut map);
    assert_eq!(action, RunAction::Start);
    let action = run.step(RunEvent::Started(Ok(())), &mut map);
    assert_eq!(
        action,
        RunAction::Report(NodeReport::RunStarted {
            alloc_id: id("a"),
            host_port: Some(50123),
            address: Some(SocketAddr { ip: mesh_ip, port: 50123 }),
        })
    );
    assert!(map.contains(&id("a")));
    let action = run.step(RunEvent::Reported, &mut map);
    assert_eq!(action, RunAction::WatchExit { host_port: Some(50123) });
    assert_eq!(run.step(RunEvent::Watching, &mut map), RunAction::Finished(Ok(())));
}

#[test]
fn a_container_that_does_not_start_gives_its_port_back() {
    let mut map = AllocationMap::new();
    let (mut run, _) = ContainerRun::begin(&map, id("a"), container("a"), None);
    run.step(RunEvent::Reported, &mut map);
    run.step(RunEvent::ImageChecked { cached: true }, &mut map);
    run.step(RunEvent::Reported, &mut map);
    run.step(RunEvent::Port(Some(50123)), &mut map);
    let action = run.step(RunEvent::Started(Err("no room".into())), &mut map);
    assert_eq!(action, RunAction::ReleasePort(50123));
    let action = run.step(RunEvent::PortReleased, &mut map);
    assert!(matches!(action, RunAction::Report(NodeReport::RunFailed { .. })));
    let action = run.step(RunEvent::Reported, &mut map);
    assert!(matches!(action, RunAction::Finished(Err(NodeError::Containerd(_)))));
    assert!(!map.contains(&id("a")));
}

#[test]
fn stopped_containers_are_forgotten() {
    let mut map = AllocationMap::new();
    map.insert(make_alloc("a")).ok();
    let mut stop = ContainerStop::new(&map, id("a"));
    let action = stop.step(StopEvent::Stopped(Ok(0)), &mut map);
    assert_eq!(action, StopAction::Remove);
    let action = stop.step(StopEvent::Removed, &mut map);
    assert_eq!(action, StopAction::ReleasePort(50000));
    let action = stop.step(StopEvent::PortReleased, &mut map);
    assert_eq!(
        action,
        StopAction::Report(NodeReport::Stopped { alloc_id: id("a"), exit_code: 0 })
    );
    assert!(!map.contains(&id("a")));
    assert_eq!(stop.step(StopEvent::Reported, &mut map), StopAction::Finished(Ok(())));
}

#[test]
fn ended_containers_are_reported() {
    let mut map = AllocationMap::new();
    map.insert(make_alloc("a")).ok();
    let code = container_exited(&mut map, &id("a"), Some(3));
    assert_eq!(code, 3);
    assert_eq!(exit_status(0), AllocStatus::Stopped { exit_code: 0 });
    let report = exit_cleaned_up(&mut map, &id("a"), code);
    assert_eq!(report, NodeReport::Stopped { alloc_id: id("a"), exit_code: 3 });
    assert!(!map.contains(&id("a")));
}

#[test]
fn pulls_are_reported() {
    let image = "nginx:1".to_string();
    assert_eq!(
        pull_report(&image, Ok(())),
        NodeReport::PullComplete { image: "nginx:1".into() }
    );
    assert_eq!(
        pull_report(&image, Err("denied".into())),
        NodeReport::PullFailed { image: "nginx:1".into(), reason: "denied".into() }
    );
}

fn receiving() -> Secondary {
    let (mut agent, first) = Secondary::begin();
    assert_eq!(first, AgentAction::Reconcile);
    assert_eq!(agent.done(), AgentAction::SpawnHeartbeat);
    assert_eq!(agent.done(), AgentAction::SpawnMetrics);
    assert_eq!(agent.done(), AgentAction::Receive);
    agent
}

#[test]
fn tails_of_unknown_allocations_are_empty() {
    let mut agent = receiving();
    let mut map = AllocationMap::new();
    let mut known = make_alloc("a");
    known.logs.push(make_line("one"));
    known.logs.push(make_line("two"));
    map.insert(known).ok();
    let tail = NodeCommand::LogTail { alloc_id: id("a"), lines: 1 };
    assert_eq!(
        agent.command(tail, &map, 1),
        AgentAction::Report(NodeReport::LogLines {
            alloc_id: id("a"),
            lines: vec![make_line("two")],
        })
    );
    assert_eq!(agent.done(), AgentAction::Receive);
    let tail = NodeCommand::LogTail { alloc_id: id("b"), lines: 1 };
    assert_eq!(
        agent.command(tail, &map, 1),
        AgentAction::Report(NodeReport::LogLines { alloc_id: id("b"), lines: vec![] })
    );
}

#[test]
fn following_again_ends_the_stream_before() {
    let mut agent = receiving();
    let mut map = AllocationMap::new();
    map.insert(make_alloc("a")).ok();
    let action = agent.command(NodeCommand::LogFollow { alloc_id: id("a") }, &map, 11);
    assert_eq!(action, AgentAction::SwitchFollow { cancel: None, follow: Some((id("a"), 11)) });
    agent.done();
    let action = agent.command(NodeCommand::LogFollow { alloc_id: id("a") }, &map, 12);
    assert_eq!(
        action,
        AgentAction::SwitchFollow { cancel: Some(11), follow: Some((id("a"), 12)) }
    );
    // On the end every stream ends, and no container is stopped.
    assert_eq!(agent.closed(), AgentAction::ShutDown { follows: vec![12] });
    assert_eq!(agent.done(), AgentAction::Finished);
}

#[test]
fn commands_are_handed_on() {
    let mut agent = receiving();
    let map = AllocationMap::new();
    let action = agent.command(NodeCommand::Stop { alloc_id: id("a") }, &map, 1);
    assert_eq!(action, AgentAction::Stop { alloc_id: id("a") });
    agent.done();
    let action = agent.command(NodeCommand::LogUnfollow { alloc_id: id("a") }, &map, 1);
    assert_eq!(action, AgentAction::SwitchFollow { cancel: None, follow: None });
}

#[test]
fn spans_are_longer_than_milliseconds() {
    assert_eq!(Duration::from_secs(1), Duration::from_millis(1000));
    assert_eq!(T1.duration_since(T0), Duration::from_secs(10));
}
