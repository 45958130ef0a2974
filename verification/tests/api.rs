//! What the API answers.
use mill_node::config::{
    Alloc, AllocId, AllocKind, AllocStatus, ClusterConfig, ContainerStats, LogLine, LogStream,
    NodeId, NodeResources, NodeStatus, Resources, ServiceDef, VolumeState,
};
use mill_node::daemon::join::JoinRequest;
use mill_node::error::{DeployError, NodeError, StorageError};
use mill_node::fsm::{Command, FsmNode, FsmState, FsmVolume, Proposed, Secret};
use mill_node::net::{IpAddr, SocketAddr};
use mill_node::primary::api::auth::{require_auth, token_matches};
use mill_node::primary::api::handlers::{
    default_follow, default_tail, delete_node, delete_secret, delete_task, delete_volume,
    get_nodes, get_secret, get_services, get_status, get_task, get_tasks, get_volumes,
    list_secrets, node_number, post_deploy, post_restart, post_spawn_task, propose, set_secret,
    volume_destroyed, ApiError, VolumeDeletion,
};
use mill_node::primary::api::join::{
    allocate_tunnel_ip, get_join_info, Admission, JoinAction, JoinEvent,
};
use mill_node::primary::api::leader::{require_leader, LeaderDecision};
use mill_node::primary::api::metrics::{get_metrics, write_metrics, RouteMetrics};
use mill_node::primary::api::sse::{log_event, no_allocations_event, Progress};
use mill_node::primary::metrics::LiveMetrics;
use mill_node::primary::subscribers::new_log_subscribers;
use mill_node::primary::start::{bound, start_steps, StartStep};
use mill_node::primary::tasks::SpawnTaskResponse;
use mill_node::primary::watchdog::PeerInfo;
use mill_node::time::{Duration, SystemTime};

const CORE: u64 = 1_000_000_000;

fn addr(last: u8, port: u16) -> SocketAddr {
    SocketAddr { ip: IpAddr::V4(0x0a63_0000 + last as u32), port }
}

fn resources(cpu: u64, memory: u64) -> NodeResources {
    NodeResources {
        cpu_total: cpu,
        cpu_available: cpu,
        memory_total: memory,
        memory_available: memory,
    }
}

fn node(raft_id: u64, name: &str) -> FsmNode {
    FsmNode {
        raft_id,
        mill_id: NodeId(name.into()),
        address: addr(raft_id as u8, 4400),
        resources: resources(4 * CORE, 1000),
        status: NodeStatus::Ready,
        wireguard_pubkey: Some(format!("key-{name}")),
        instance_id: None,
        rpc_address: None,
        advertise_addr: None,
    }
}

fn make_alloc(id: &str, name: &str, kind: AllocKind, status: AllocStatus) -> Alloc {
    Alloc {
        id: AllocId(id.into()),
        node: NodeId("node-1".into()),
        name: name.into(),
        kind,
        status,
        address: Some(addr(1, 50000)),
        resources: Resources { cpu: CORE / 2, memory: 64 },
        started_at: Some(SystemTime { secs: 0, nanos: 0 }),
    }
}

fn service(replicas: u32) -> ServiceDef {
    ServiceDef {
        image: "nginx:1".into(),
        port: 80,
        replicas,
        resources: Resources { cpu: CORE / 4, memory: 256 },
        env: vec![],
        command: None,
        health: None,
        routes: vec![],
        volumes: vec![],
    }
}

fn state() -> FsmState {
    let mut fsm = FsmState::empty();
    fsm.nodes.push(node(1, "node-1"));
    fsm.available.push((1, NodeResources { cpu_available: 3 * CORE, ..resources(4 * CORE, 1000) }));
    fsm.config = Some(ClusterConfig { services: vec![("web".into(), service(2))], tasks: vec![] });
    fsm.allocs.push(make_alloc("web-1", "web", AllocKind::Service, AllocStatus::Healthy));
    fsm.allocs.push(make_alloc("job-1", "job", AllocKind::Task, AllocStatus::Running));
    fsm
}

fn refusal(status: u16, error: &str) -> ApiError {
    ApiError { status, error: error.into() }
}

#[test]
fn allocate_tunnel_ip_first_available() {
    let used = vec![];
    let ip = allocate_tunnel_ip(&used);
    assert_eq!(ip, Some(IpAddr::V4(0x0A63_0001)));
}

#[test]
fn allocate_tunnel_ip_skips_used() {
    let used = vec![IpAddr::V4(0x0A63_0001), IpAddr::V4(0x0A63_0002)];
    let ip = allocate_tunnel_ip(&used);
    assert_eq!(ip, Some(IpAddr::V4(0x0A63_0003)));
}

#[test]
fn allocate_tunnel_ip_exhaustion() {
    let used: Vec<IpAddr> = (1u32..65534).map(|i| IpAddr::V4(0x0A630000u32 + i)).collect();
    let ip = allocate_tunnel_ip(&used);
    assert_eq!(ip, None);
}

#[test]
fn join_info_returns_valid_response() {
    let mut fsm = state();
    fsm.nodes.push(node(5, "node-5"));
    fsm.nodes[1].advertise_addr = Some("1.2.3.4".into());
    let info = get_join_info(&fsm).unwrap();
    assert_eq!(info.subnet, "10.99.0.0/16");
    assert_eq!(info.prefix_len, 16);
    assert_eq!(info.api_port, 4400);
    assert_eq!(info.next_raft_id, 6);
    assert_eq!(info.peers.len(), 2);
    assert_eq!(info.peers[0].endpoint, "10.99.0.1:4400");
    assert_eq!(info.peers[1].endpoint, "1.2.3.4:51820");
    assert_eq!(info.peers[1].public_key, "key-node-5");
}

#[test]
fn join_info_tunnel_ip_not_in_peer_list() {
    let fsm = state();
    let info = get_join_info(&fsm).unwrap();
    assert!(info.peers.iter().all(|p| p.tunnel_ip != info.tunnel_ip));
    assert_eq!(info.tunnel_ip, IpAddr::V4(0x0A63_0002));
}

#[test]
fn join_info_next_raft_id_increments() {
    let mut fsm = FsmState::empty();
    assert_eq!(get_join_info(&fsm).unwrap().next_raft_id, 1);
    fsm.nodes.push(node(1, "node-1"));
    assert_eq!(get_join_info(&fsm).unwrap().next_raft_id, 2);
}

fn join_request() -> JoinRequest {
    JoinRequest {
        node_id: "node-2".into(),
        raft_id: 2,
        advertise_addr: "1.2.3.5".into(),
        tunnel_ip: IpAddr::V4(0x0A63_0002),
        public_key: "key-2".into(),
        resources: resources(CORE, 10),
        instance_id: None,
        rpc_address: Some(addr(2, 4402)),
    }
}

#[test]
fn post_join_registers_new_node() {
    let advertised = Some(IpAddr::V4(0x0102_0305));
    let (mut admission, first) = Admission::begin(join_request(), advertised, true, true);
    assert_eq!(
        first,
        JoinAction::AddPeer(PeerInfo {
            node_id: NodeId("node-2".into()),
            public_key: "key-2".into(),
            endpoint: Some(SocketAddr { ip: IpAddr::V4(0x0102_0305), port: 51820 }),
            tunnel_ip: IpAddr::V4(0x0A63_0002),
        })
    );
    assert_eq!(
        admission.step(JoinEvent::PeerAdded(Ok(()))),
        JoinAction::SetPeer { raft_id: 2, url: "http://10.99.0.2:4401".into() }
    );
    assert_eq!(
        admission.step(JoinEvent::PeerSet),
        JoinAction::AddLearner { raft_id: 2, address: "10.99.0.2:4401".into() }
    );
    assert_eq!(admission.step(JoinEvent::LearnerAdded(Ok(()))), JoinAction::ReadState);
    let mut fsm = FsmState::empty();
    fsm.nodes.push(node(1, "node-1"));
    assert_eq!(
        admission.step(JoinEvent::State(fsm)),
        JoinAction::ChangeMembership(vec![1, 2])
    );
    match admission.step(JoinEvent::MembershipChanged(Ok(()))) {
        JoinAction::Propose(Command::NodeRegister { id, mill_id, address, .. }) => {
            assert_eq!(id, 2);
            assert_eq!(mill_id, NodeId("node-2".into()));
            assert_eq!(address, addr(2, 4400));
        }
        other => panic!("unexpected action {other:?}"),
    }
    assert_eq!(
        admission.step(JoinEvent::Proposed(Proposed::Applied)),
        JoinAction::Finished(Ok(204))
    );
}

#[test]
fn a_node_that_cannot_learn_is_refused() {
    let (mut admission, _) = Admission::begin(join_request(), None, false, false);
    assert_eq!(
        admission.step(JoinEvent::LearnerAdded(Err("gone".into()))),
        JoinAction::Finished(Err(refusal(500, "add_learner: gone")))
    );
}

#[test]
fn tokens_are_compared_as_a_whole() {
    assert!(token_matches("abc", "abc"));
    assert!(!token_matches("abd", "abc"));
    assert!(!token_matches("ab", "abc"));
    assert!(!token_matches("abcd", "abc"));
}

#[test]
fn requests_need_a_bearer_token() {
    assert!(require_auth(Some("Bearer tok"), "tok"));
    assert!(!require_auth(Some("Bearer  tok"), "tok"));
    assert!(!require_auth(Some("bearer tok"), "tok"));
    assert!(!require_auth(Some("tok"), "tok"));
    assert!(!require_auth(None, "tok"));
}

#[test]
fn writes_go_to_the_leader() {
    let fsm = state();
    assert_eq!(require_leader(true, None, &fsm, None), LeaderDecision::Proceed);
    assert_eq!(
        require_leader(false, Some(1), &fsm, Some("/v1/deploy?x=1")),
        LeaderDecision::Redirect { location: "http://10.99.0.1:4400/v1/deploy?x=1".into() }
    );
    assert_eq!(
        require_leader(false, Some(1), &fsm, None),
        LeaderDecision::Redirect { location: "http://10.99.0.1:4400/".into() }
    );
    assert_eq!(require_leader(false, Some(9), &fsm, None), LeaderDecision::Unavailable);
    assert_eq!(require_leader(false, None, &fsm, None), LeaderDecision::Unavailable);
}

#[test]
fn leader_in_status() {
    let status = get_status(&state());
    assert_eq!(status.node_count, 1);
    assert_eq!(status.service_count, 1);
    assert_eq!(status.task_count, 1);
    assert_eq!(status.cpu_total, 4 * CORE as u128);
    assert_eq!(status.cpu_available, 3 * CORE as u128);
    assert_eq!(status.memory_total_bytes, 1000);
}

#[test]
fn nodes_and_services_are_listed() {
    let fsm = state();
    let nodes = get_nodes(&fsm);
    assert_eq!(nodes.len(), 1);
    assert_eq!(nodes[0].id, "node-1");
    assert_eq!(nodes[0].status, "ready");
    assert_eq!(nodes[0].address, "10.99.0.1:4400");
    assert_eq!(nodes[0].alloc_count, 2);
    let services = get_services(&fsm);
    assert_eq!(services.len(), 1);
    assert_eq!(services[0].replicas.desired, 2);
    assert_eq!(services[0].replicas.healthy, 1);
    assert_eq!(services[0].allocations[0].id, "web-1");
    assert_eq!(services[0].allocations[0].address, Some("10.99.0.1:50000".into()));
    assert_eq!(services[0].allocations[0].started_at, Some("1970-01-01T00:00:00Z".into()));
}

#[test]
fn tasks_are_found_by_their_names() {
    let fsm = state();
    assert_eq!(get_tasks(&fsm).len(), 1);
    assert_eq!(get_task(&fsm, &"job-1".to_string()).unwrap().name, "job");
    // A service is no task.
    assert_eq!(get_task(&fsm, &"web-1".to_string()).unwrap_err().status, 404);
}

#[test]
fn secrets_via_api() {
    let mut fsm = FsmState::empty();
    fsm.secrets.push(Secret { name: "db".into(), plaintext: Ok(b"hunter2".to_vec()) });
    fsm.secrets.push(Secret { name: "bin".into(), plaintext: Ok(vec![0xff]) });
    fsm.secrets.push(Secret { name: "lost".into(), plaintext: Err("bad key".into()) });
    assert_eq!(list_secrets(&fsm), vec!["db", "bin", "lost"]);
    assert_eq!(get_secret(&fsm, &"db".to_string()).unwrap().value, "hunter2");
    let failed = refusal(500, "decryption failed");
    assert_eq!(get_secret(&fsm, &"bin".to_string()).unwrap_err(), failed);
    assert_eq!(get_secret(&fsm, &"lost".to_string()).unwrap_err(), failed);
    let missing = refusal(404, "secret not found");
    assert_eq!(get_secret(&fsm, &"no".to_string()).unwrap_err(), missing);
    assert_eq!(
        delete_secret(&fsm, &"db".to_string()),
        Ok(Command::SecretDelete { name: "db".into() })
    );
    assert_eq!(delete_secret(&fsm, &"no".to_string()), Err(missing));
    assert_eq!(
        set_secret("db".into(), Some((vec![1], vec![2]))),
        Ok(Command::SecretSet { name: "db".into(), encrypted_value: vec![1], nonce: vec![2] })
    );
    assert_eq!(set_secret("db".into(), None).unwrap_err().status, 500);
}

fn volume(volume_state: VolumeState) -> FsmVolume {
    FsmVolume { cloud_id: "vol-1".into(), state: volume_state }
}

#[test]
fn volume_destroy_via_api() {
    let mut fsm = FsmState::empty();
    fsm.volumes.push(("data".into(), volume(VolumeState::Ready)));
    let name = "data".to_string();
    assert_eq!(delete_volume(&fsm, &name, true), Ok(VolumeDeletion::Destroy));
    let record = Command::VolumeDestroyed { name: "data".into() };
    assert_eq!(
        delete_volume(&fsm, &name, false),
        Ok(VolumeDeletion::Record(Command::VolumeDestroyed { name: "data".into() }))
    );
    assert_eq!(volume_destroyed(&name, Ok(())), Ok(record));
    assert_eq!(get_volumes(&fsm)[0].state, "ready");
}

#[test]
fn delete_volume_attached_returns_conflict() {
    let mut fsm = FsmState::empty();
    let attached = VolumeState::Attached { node: NodeId("node-1".into()) };
    fsm.volumes.push(("data".into(), volume(attached)));
    assert_eq!(
        delete_volume(&fsm, &"data".to_string(), true),
        Err(refusal(409, "volume is attached"))
    );
    assert_eq!(get_volumes(&fsm)[0].node, Some("node-1".into()));
}

#[test]
fn delete_volume_not_found_returns_404() {
    let fsm = FsmState::empty();
    assert_eq!(
        delete_volume(&fsm, &"data".to_string(), true),
        Err(refusal(404, "volume not found"))
    );
}

#[test]
fn delete_volume_driver_failure_returns_500() {
    let failed = Err(StorageError::Api("denied".into()));
    assert_eq!(
        volume_destroyed(&"data".to_string(), failed),
        Err(refusal(500, "cloud destroy failed: api error: denied"))
    );
}

#[test]
fn outcomes_become_answers() {
    assert_eq!(propose(Proposed::Applied), Ok(204));
    assert_eq!(
        propose(Proposed::Unreached("x".into())),
        Err(refusal(500, "raft proposal failed"))
    );
    assert_eq!(post_deploy(&"line 1".to_string()), refusal(400, "invalid config: line 1"));
    assert_eq!(post_restart(&state(), &"web".to_string()), Ok(()));
    assert_eq!(
        post_restart(&state(), &"db".to_string()),
        Err(refusal(404, "service not found"))
    );
    assert_eq!(node_number(&state(), &"node-1".to_string()), Ok(1));
    assert_eq!(
        node_number(&state(), &"node-9".to_string()),
        Err(refusal(404, "node not found"))
    );
    assert_eq!(delete_node(Ok(())), Ok(204));
    assert_eq!(delete_task(Ok(())), Ok(204));
    assert!(default_follow());
    assert_eq!(default_tail(), 200);
}

#[test]
fn failed_spawns_tell_why() {
    let response = SpawnTaskResponse {
        id: "job-1".into(),
        node: "node-1".into(),
        status: "running".into(),
        address: None,
    };
    assert!(post_spawn_task(Ok(response)).is_ok());
    let full = DeployError::SchedulingFailed { service: "job".into(), replica: 0 };
    assert_eq!(
        post_spawn_task(Err(full)).unwrap_err(),
        refusal(503, "no node with sufficient resources")
    );
    let bad = DeployError::Node(NodeError::BadRequest("no image".into()));
    assert_eq!(post_spawn_task(Err(bad)).unwrap_err(), refusal(400, "no image"));
    let unknown = DeployError::Node(NodeError::ServiceNotFound("job".into()));
    assert_eq!(
        post_spawn_task(Err(unknown)).unwrap_err(),
        refusal(404, "task template not found")
    );
}

#[test]
fn progress_is_told_in_json() {
    let elapsed = "1.5".to_string();
    let event = Progress::Healthy { service: "we\"b".into() }.to_event(&elapsed);
    assert_eq!(event.event, "progress");
    assert_eq!(event.data, "{\"elapsed\":1.5,\"phase\":\"healthy\",\"service\":\"we\\\"b\"}");
    let event = Progress::Deployed { success: true }.to_event(&elapsed);
    assert_eq!(event.event, "done");
    assert_eq!(event.data, "{\"elapsed\":1.5,\"success\":true}");
    let event = Progress::Failed { service: "web".into(), reason: "a\nb".into() }.to_event(&elapsed);
    assert_eq!(event.event, "failed");
    assert_eq!(event.data, "{\"reason\":\"a\\nb\",\"service\":\"web\"}");
}

#[test]
fn log_lines_are_told_in_json() {
    let event = log_event(&LogLine {
        timestamp: SystemTime { secs: 1709164800, nanos: 0 },
        stream: LogStream::Stderr,
        content: "tab\there \u{1}".into(),
    });
    assert_eq!(event.event, "");
    assert_eq!(
        event.data,
        "{\"line\":\"tab\\there \\u0001\",\"stream\":\"stderr\",\"ts\":\"2024-02-29T00:00:00Z\"}"
    );
    let event = no_allocations_event(&"web".to_string());
    assert_eq!(event.event, "error");
    assert_eq!(event.data, "no allocations found for 'web'");
}

#[test]
fn metrics_fall_back_on_the_replicated_state() {
    let fsm = state();
    let text = get_metrics(&fsm, &LiveMetrics::new(), &vec![]);
    assert_eq!(
        text,
        "# HELP mill_node_cpu_available Free CPU cores per node\n\
         # TYPE mill_node_cpu_available gauge\n\
         mill_node_cpu_available{node=\"node-1\"} 3\n\
         # HELP mill_node_memory_available_bytes Free memory per node in bytes\n\
         # TYPE mill_node_memory_available_bytes gauge\n\
         mill_node_memory_available_bytes{node=\"node-1\"} 1000\n\
         # HELP mill_alloc_cpu_usage CPU usage per allocation in cores\n\
         # TYPE mill_alloc_cpu_usage gauge\n\
         mill_alloc_cpu_usage{service=\"web\",node=\"node-1\"} 0\n\
         mill_alloc_cpu_usage{service=\"job\",node=\"node-1\"} 0\n\
         # HELP mill_alloc_memory_bytes Memory usage per allocation in bytes\n\
         # TYPE mill_alloc_memory_bytes gauge\n\
         mill_alloc_memory_bytes{service=\"web\",node=\"node-1\"} 0\n\
         mill_alloc_memory_bytes{service=\"job\",node=\"node-1\"} 0\n"
    );
}

#[test]
fn metrics_tell_of_live_figures() {
    let fsm = state();
    let mut live = LiveMetrics::new();
    let stats = ContainerStats {
        alloc_id: AllocId("web-1".into()),
        cpu_usage: CORE / 4,
        memory_usage: 77,
    };
    live.update(NodeId("node-1".into()), resources(CORE / 2, 9), vec![stats]);
    live.record_restart(&"web".to_string());
    live.record_restart(&"gone".to_string());
    live.record_task_spawn(&"job".to_string());
    live.record_task_duration(&"job".to_string(), Duration::from_millis(2500));
    let routes = vec![RouteMetrics {
        hostname: "app.example.com".into(),
        path: "/".into(),
        request_count: 3,
        latency_sum: Duration::from_millis(1250),
        buckets: vec![(Some(5_000_000), 1), (None, 3)],
    }];
    let text = get_metrics(&fsm, &live, &routes);
    let tasks = live.task_duration_snapshots();
    assert_eq!(text, write_metrics(&fsm, &live, &tasks, &routes));
    for line in [
        "mill_node_cpu_available{node=\"node-1\"} 0.5\n",
        "mill_node_memory_available_bytes{node=\"node-1\"} 9\n",
        "mill_alloc_cpu_usage{service=\"web\",node=\"node-1\"} 0.25\n",
        "mill_alloc_memory_bytes{service=\"web\",node=\"node-1\"} 77\n",
        "mill_alloc_restarts_total{service=\"web\",node=\"node-1\"} 1\n",
        "mill_alloc_restarts_total{service=\"gone\",node=\"unknown\"} 1\n",
        "mill_proxy_requests_total{route=\"app.example.com\",path=\"/\"} 3\n",
        "mill_proxy_latency_seconds_bucket{route=\"app.example.com\",path=\"/\",le=\"0.005\"} 1\n",
        "mill_proxy_latency_seconds_bucket{route=\"app.example.com\",path=\"/\",le=\"+Inf\"} 3\n",
        "mill_proxy_latency_seconds_sum{route=\"app.example.com\",path=\"/\"} 1.25\n",
        "mill_proxy_latency_seconds_count{route=\"app.example.com\",path=\"/\"} 3\n",
        "mill_tasks_spawned_total{task=\"job\"} 1\n",
        "mill_tasks_duration_seconds_bucket{task=\"job\",le=\"1\"} 0\n",
        "mill_tasks_duration_seconds_bucket{task=\"job\",le=\"5\"} 1\n",
        "mill_tasks_duration_seconds_bucket{task=\"job\",le=\"+Inf\"} 1\n",
        "mill_tasks_duration_seconds_sum{task=\"job\"} 2.5\n",
        "mill_tasks_duration_seconds_count{task=\"job\"} 1\n",
    ] {
        assert!(text.contains(line), "missing {line} in {text}");
    }
}

#[test]
fn requests_are_taken_last_of_all() {
    let id = NodeId("node-1".into());
    let steps = start_steps(true, &Some(id.clone()), true, false);
    assert_eq!(
        steps,
        vec![
            StartStep::RegisterLocal(id),
            StartStep::DrainLocalReports,
            StartStep::WatchConnections,
            StartStep::ProcessReports,
            StartStep::WatchDns,
            StartStep::Watchdog,
            StartStep::BindApi,
        ]
    );
    assert_eq!(bound(addr(1, 4400), Ok(addr(1, 4401))), Ok(addr(1, 4401)));
    assert_eq!(
        bound(addr(1, 4400), Err("in use".into())).unwrap_err().to_text(),
        "failed to bind 10.99.0.1:4400"
    );
}

#[test]
fn subscribers_hear_until_they_close() {
    let web = AllocId("web-1".into());
    let ids = vec![web.clone(), AllocId("web-2".into())];
    let mut subscribers = new_log_subscribers();
    subscribers.subscribe(&ids, 1);
    subscribers.subscribe(&ids, 2);
    assert_eq!(subscribers.forward(&web, &vec![]), vec![1, 2]);
    // A closed channel is forgotten where lines go, and elsewhere stays.
    assert_eq!(subscribers.forward(&web, &vec![1]), vec![2]);
    assert_eq!(subscribers.forward(&web, &vec![]), vec![2]);
    assert_eq!(subscribers.forward(&ids[1], &vec![]), vec![1, 2]);
    subscribers.unsubscribe(&ids, &vec![1, 2]);
    assert_eq!(subscribers.forward(&web, &vec![]), Vec::<u64>::new());
    assert_eq!(subscribers.channels.len(), 0);
}
