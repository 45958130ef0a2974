//! Bringing a node up, and taking it down.
use mill_node::config::{
    Alloc, AllocId, AllocKind, AllocStatus, NodeId, NodeResources, Resources,
};
use mill_node::daemon::client::{post_json, DaemonClient};
use mill_node::daemon::cloud::{build_volume_driver, detect_cloud_metadata, Answer};
use mill_node::daemon::identity::{NodeIdentity, PeerEntry};
use mill_node::daemon::init::{Init, InitOptions};
use mill_node::daemon::join::{JoinInfoResponse, JoinPeerInfo};
use mill_node::daemon::joining::{JoinOptions, Joining};
use mill_node::daemon::leave::{Leave, LeaveAction, LeaveEvent};
use mill_node::daemon::restart::{expected_allocs, Restarting};
use mill_node::daemon::start::{
    boot, registration, MeshIdentity, MeshPeer, StartAction, StartEvent,
};
use mill_node::daemon::support::{
    default_raft_config, detect_resources, generate_id, generate_token, hex_identifier,
    whole_machine,
};
use mill_node::error::NodeError;
use mill_node::fsm::{Command, FsmState};
use mill_node::net::{IpAddr, SocketAddr};
use mill_node::storage::digitalocean::DigitalOceanVolumes;

const TUNNEL: IpAddr = IpAddr::V4(0x0a63_0001);

#[test]
fn detect_resources_returns_nonzero() {
    let res = detect_resources();
    assert!(res.cpu_total > 0);
    assert!(res.memory_total > 0);
}

#[test]
fn nothing_of_a_new_machine_is_taken() {
    assert_eq!(
        whole_machine(4, 1024),
        NodeResources {
            cpu_total: 4_000_000_000,
            cpu_available: 4_000_000_000,
            memory_total: 1024,
            memory_available: 1024,
        }
    );
}

#[test]
fn generate_id_is_unique() {
    let a = generate_id();
    let b = generate_id();
    assert_ne!(a, b);
    assert_eq!(a.len(), 16, "generate_id should produce 16 hex chars");
}

#[test]
fn generate_token_is_unique() {
    let a = generate_token();
    let b = generate_token();
    assert_ne!(a, b);
    assert_eq!(a.len(), 32, "generate_token should produce 32 hex chars");
}

#[test]
fn generated_names_are_hexadecimal() {
    assert!(generate_id().chars().all(|c| c.is_ascii_digit() || ('a'..='f').contains(&c)));
}

#[test]
fn bytes_are_written_with_two_digits_each() {
    assert_eq!(hex_identifier(&vec![0, 15, 16, 255]), "000f10ff");
    assert_ne!(hex_identifier(&vec![1, 0]), hex_identifier(&vec![0, 1]));
}

#[test]
fn raft_settings() {
    let settings = default_raft_config(5000, 1000);
    assert_eq!(settings.heartbeat_interval, 1000);
    assert_eq!(settings.election_timeout_min, 3000);
    assert_eq!(settings.election_timeout_max, 5000);
    assert_eq!(settings.snapshot_after_logs, 5000);
    assert_eq!(settings.max_in_snapshot_log_to_keep, 1000);
}

fn identity(email: Option<&str>, staging: Option<bool>) -> NodeIdentity {
    NodeIdentity {
        node_id: "n".to_string(),
        raft_id: 1,
        cluster_token: "t".to_string(),
        rpc_port: 4400,
        advertise_addr: "0.0.0.0".to_string(),
        provider: None,
        provider_token: None,
        region: None,
        wireguard_subnet: "10.99.0.0/16".to_string(),
        peers: vec![],
        acme_email: email.map(|e| e.to_string()),
        acme_staging: staging,
    }
}

#[test]
fn acme_config_from_identity() {
    let identity = identity(Some("admin@example.com"), Some(true));
    let cfg = identity.acme_config().expect("should produce AcmeConfig");
    assert_eq!(cfg.contact, vec!["mailto:admin@example.com"]);
    assert!(cfg.directory_url.contains("staging"), "should use staging URL");
}

#[test]
fn acme_config_none_without_email() {
    let identity = identity(None, None);
    assert!(identity.acme_config().is_none());
}

#[test]
fn acme_config_production_url_without_staging_flag() {
    let identity = identity(Some("admin@example.com"), None);
    let cfg = identity.acme_config().expect("should produce AcmeConfig");
    assert!(!cfg.directory_url.contains("staging"), "should use production URL");
    assert!(cfg.directory_url.contains("acme-v02.api.letsencrypt.org"));
}

#[test]
fn boot_without_node_json_returns_error() {
    let err = boot(false).unwrap_err().to_text();
    assert!(err.contains("node.json"), "error should mention node.json: {err}");
    assert!(boot(true).is_ok());
}

#[test]
fn leave_without_node_json_returns_error() {
    let (mut leave, first) = Leave::begin();
    assert_eq!(first, LeaveAction::LoadIdentity);
    let missing = NodeError::Io("No such file or directory".to_string());
    assert_eq!(leave.step(LeaveEvent::Failed(missing.clone())), LeaveAction::Fail(missing));
}

#[test]
fn a_node_leaves_before_it_goes_down() {
    let (mut leave, _) = Leave::begin();
    let drain = leave.step(LeaveEvent::IdentityLoaded(identity(None, None)));
    assert_eq!(
        drain,
        LeaveAction::Drain {
            base_url: "http://127.0.0.1:4400".to_string(),
            path: "/v1/nodes/n/drain".to_string(),
        }
    );
    let remove = leave.step(LeaveEvent::Done);
    assert_eq!(
        remove,
        LeaveAction::RemoveNode {
            base_url: "http://127.0.0.1:4400".to_string(),
            path: "/v1/nodes/n".to_string(),
        }
    );
    assert_eq!(leave.step(LeaveEvent::Done), LeaveAction::TearDownMesh);
    assert_eq!(leave.step(LeaveEvent::Done), LeaveAction::RemoveIdentity);
    assert_eq!(leave.step(LeaveEvent::Done), LeaveAction::ReadPid);
    let kill = leave.step(LeaveEvent::PidRead(Some(" 4711\n".to_string())));
    assert_eq!(kill, LeaveAction::Terminate { pid: "4711".to_string() });
    assert_eq!(
        leave.step(LeaveEvent::Done),
        LeaveAction::Farewell { line: "Left cluster.".to_string() }
    );
}

#[test]
fn no_process_is_told_to_end_without_its_number() {
    for text in [None, Some("  \n".to_string())] {
        let (mut leave, _) = Leave::begin();
        leave.step(LeaveEvent::IdentityLoaded(identity(None, None)));
        for _ in 0..4 {
            leave.step(LeaveEvent::Done);
        }
        assert_eq!(
            leave.step(LeaveEvent::PidRead(text)),
            LeaveAction::Farewell { line: "Left cluster.".to_string() }
        );
    }
}

fn answer(status: u16, text: &str) -> Option<Answer> {
    Some(Answer { status, text: Some(text.to_string()) })
}

#[test]
fn the_cloud_is_believed_where_it_is_known() {
    let known = Some("digitalocean".to_string());
    let cloud = detect_cloud_metadata(&known, &answer(200, " 99\n"), &answer(500, "nyc1"));
    assert_eq!(cloud.instance_id, Some("99".to_string()));
    assert_eq!(cloud.region, None);
    let other = Some("aws".to_string());
    let cloud = detect_cloud_metadata(&other, &answer(200, "99"), &answer(200, "nyc1"));
    assert_eq!(cloud.instance_id, None);
}

#[test]
fn volume_drivers_need_a_provider_a_token_and_a_region() {
    let text = |s: &str| Some(s.to_string());
    assert_eq!(
        build_volume_driver(&text("digitalocean"), &text("tok"), &text("nyc1")),
        Some(DigitalOceanVolumes::new("tok".to_string(), "nyc1".to_string()))
    );
    assert_eq!(build_volume_driver(&text("digitalocean"), &text("tok"), &None), None);
    assert_eq!(build_volume_driver(&text("aws"), &text("tok"), &text("nyc1")), None);
}

#[test]
fn api_errors_name_the_path() {
    let client = DaemonClient::new("http://10.0.0.1:4400".to_string(), "tok".to_string());
    assert_eq!(client.url("/v1/join"), "http://10.0.0.1:4400/v1/join");
    let words = "404 Not Found".to_string();
    let body = "gone".to_string();
    assert_eq!(
        post_json("/v1/join", 404, &words, &body),
        Err(NodeError::NodeUnreachable("HTTP 404 Not Found for /v1/join: gone".to_string()))
    );
    assert_eq!(post_json("/v1/join", 302, &"302 Found".to_string(), &body), Ok(()));
}

fn mesh() -> MeshIdentity {
    MeshIdentity { tunnel_ip: TUNNEL, public_key: "key".to_string() }
}

#[test]
fn a_cluster_of_one_node_comes_up() {
    let (mut init, first) = Init::begin(InitOptions {
        token: Some("tok".to_string()),
        advertise: Some("1.2.3.4".to_string()),
        provider: None,
        provider_token: None,
        acme_email: None,
        acme_staging: false,
    });
    assert_eq!(first, StartAction::InitMesh { subnet: "10.99.0.0/16".to_string() });
    assert_eq!(init.identity.raft_id, 1);
    let node_id = init.identity.node_id.clone();
    assert_eq!(init.step(StartEvent::MeshReady(mesh())), StartAction::NewClusterKey);
    assert_eq!(init.step(StartEvent::Done), StartAction::SaveIdentity);
    assert_eq!(init.step(StartEvent::Done), StartAction::OpenRaft { raft_id: 1, peers: vec![] });
    assert_eq!(init.step(StartEvent::Done), StartAction::InitializeRaft);
    assert_eq!(init.step(StartEvent::Done), StartAction::StartSubsystems { acme: None });
    match init.step(StartEvent::Done) {
        StartAction::Propose(Command::NodeRegister { id, mill_id, address, rpc_address, .. }) => {
            assert_eq!(id, 1);
            assert_eq!(mill_id, NodeId(node_id.clone()));
            assert_eq!(address, SocketAddr { ip: TUNNEL, port: 4400 });
            assert_eq!(rpc_address, Some(SocketAddr { ip: TUNNEL, port: 4402 }));
        }
        other => panic!("unexpected action {other:?}"),
    }
    match init.step(StartEvent::Done) {
        StartAction::StartSecondary(config) => assert!(config.expected_allocs.is_empty()),
        other => panic!("unexpected action {other:?}"),
    }
    match init.step(StartEvent::Done) {
        StartAction::StartPrimary(config) => {
            assert_eq!(config.local_node_id, Some(NodeId(node_id.clone())));
            assert_eq!(config.auth_token, "tok");
            assert_eq!(config.api_addr, SocketAddr { ip: IpAddr::V4(0), port: 4400 });
        }
        other => panic!("unexpected action {other:?}"),
    }
    assert_eq!(
        init.step(StartEvent::Done),
        StartAction::StartRaftListener { address: SocketAddr { ip: TUNNEL, port: 4401 } }
    );
    assert_eq!(init.step(StartEvent::Done), StartAction::WritePid);
    match init.step(StartEvent::Done) {
        StartAction::Run { lines } => {
            assert_eq!(lines[0], "Mill cluster initialized.");
            assert_eq!(lines[1], format!("  Node ID:    {node_id}"));
            assert_eq!(lines[2], "  API:        http://1.2.3.4:4400");
            assert_eq!(lines[3], "  Token:      tok");
            assert_eq!(lines[4], "  Tunnel IP:  10.99.0.1");
            assert_eq!(lines[7], "  mill join 1.2.3.4 --token tok");
        }
        other => panic!("unexpected action {other:?}"),
    }
    assert_eq!(init.step(StartEvent::Done), StartAction::ShutDown);
    assert_eq!(init.step(StartEvent::Done), StartAction::RemovePid);
    assert_eq!(init.step(StartEvent::Done), StartAction::Finish(Ok(())));
}

#[test]
fn the_region_is_written_down() {
    let (mut init, _) = Init::begin(InitOptions {
        token: None,
        advertise: None,
        provider: Some("digitalocean".to_string()),
        provider_token: Some("pt".to_string()),
        acme_email: None,
        acme_staging: false,
    });
    assert_eq!(init.identity.cluster_token.len(), 32);
    assert_eq!(init.identity.advertise_addr, "0.0.0.0");
    init.step(StartEvent::MeshReady(mesh()));
    for _ in 0..4 {
        init.step(StartEvent::Done);
    }
    assert_eq!(init.step(StartEvent::Done), StartAction::AskCloud);
    let answered = StartEvent::CloudAnswered { id: answer(200, "77"), region: answer(200, "nyc1") };
    assert_eq!(init.step(answered), StartAction::SaveIdentity);
    assert_eq!(init.identity.region, Some("nyc1".to_string()));
    match init.step(StartEvent::Done) {
        StartAction::Propose(Command::NodeRegister { instance_id, .. }) => {
            assert_eq!(instance_id, Some("77".to_string()))
        }
        other => panic!("unexpected action {other:?}"),
    }
}

#[test]
fn a_failure_ends_the_start() {
    let (mut init, _) = Init::begin(InitOptions {
        token: None,
        advertise: None,
        provider: None,
        provider_token: None,
        acme_email: None,
        acme_staging: false,
    });
    let error = NodeError::Net("no interface".to_string());
    assert_eq!(init.step(StartEvent::Failed(error.clone())), StartAction::Finish(Err(error)));
}

fn join_info() -> JoinInfoResponse {
    JoinInfoResponse {
        subnet: "10.99.0.0/16".to_string(),
        prefix_len: 16,
        api_port: 4400,
        tunnel_ip: IpAddr::V4(0x0a63_0002),
        next_raft_id: 7,
        peers: vec![JoinPeerInfo {
            raft_id: 1,
            endpoint: "1.2.3.4:51820".to_string(),
            tunnel_ip: TUNNEL,
            public_key: "leader".to_string(),
        }],
    }
}

fn joining() -> Joining {
    let (joining, first) = Joining::begin(JoinOptions {
        address: "http://1.2.3.4:4400".to_string(),
        token: "tok".to_string(),
        advertise: None,
        provider: None,
        provider_token: None,
        acme_email: None,
        acme_staging: true,
    });
    assert_eq!(first, StartAction::GetJoinInfo);
    joining
}

#[test]
fn a_node_listens_before_it_asks_to_join() {
    let own = IpAddr::V4(0x0a63_0002);
    let mut joining = joining();
    let mesh_action = joining.step(StartEvent::JoinInfo(join_info()));
    assert_eq!(
        mesh_action,
        StartAction::JoinMesh {
            tunnel_ip: own,
            prefix_len: 16,
            peers: vec![MeshPeer {
                public_key: "leader".to_string(),
                endpoint: "1.2.3.4:51820".to_string(),
                tunnel_ip: TUNNEL,
            }],
        }
    );
    assert_eq!(joining.step(StartEvent::MeshReady(mesh())), StartAction::GetClusterKey);
    let key = vec![9u8; 32];
    assert_eq!(
        joining.step(StartEvent::ClusterKey(key.clone())),
        StartAction::SaveClusterKey(key)
    );
    assert_eq!(joining.step(StartEvent::Done), StartAction::SaveIdentity);
    assert_eq!(joining.identity.acme_staging, Some(true));
    assert_eq!(
        joining.step(StartEvent::Done),
        StartAction::OpenRaft { raft_id: 7, peers: vec![(1, "http://10.99.0.1:4401".to_string())] }
    );
    assert_eq!(
        joining.step(StartEvent::Done),
        StartAction::StartRaftListener { address: SocketAddr { ip: own, port: 4401 } }
    );
    match joining.step(StartEvent::Done) {
        StartAction::SendJoin(request) => {
            assert_eq!(request.raft_id, 7);
            assert_eq!(request.tunnel_ip, own);
            assert_eq!(request.public_key, "key");
            assert_eq!(request.rpc_address, Some(SocketAddr { ip: own, port: 4402 }));
        }
        other => panic!("unexpected action {other:?}"),
    }
}

#[test]
fn keys_of_another_length_are_refused() {
    let mut joining = joining();
    joining.step(StartEvent::JoinInfo(join_info()));
    joining.step(StartEvent::MeshReady(mesh()));
    assert_eq!(
        joining.step(StartEvent::ClusterKey(vec![1, 2, 3])),
        StartAction::Finish(Err(NodeError::Internal(
            "cluster key: expected 32 bytes, got 3".to_string()
        )))
    );
}

#[test]
fn the_last_port_is_no_matter_without_peers() {
    let mut joining = joining();
    let mut info = join_info();
    info.peers.clear();
    info.api_port = u16::MAX;
    joining.step(StartEvent::JoinInfo(info));
    joining.step(StartEvent::MeshReady(mesh()));
    joining.step(StartEvent::ClusterKey(vec![9u8; 32]));
    joining.step(StartEvent::Done);
    match joining.step(StartEvent::Done) {
        StartAction::OpenRaft { peers, .. } => assert!(peers.is_empty()),
        other => panic!("unexpected action {other:?}"),
    }
}

fn make_alloc(id: &str, node: &str, status: AllocStatus) -> Alloc {
    Alloc {
        id: AllocId(id.to_string()),
        node: NodeId(node.to_string()),
        name: "web".to_string(),
        kind: AllocKind::Service,
        status,
        address: None,
        resources: Resources { cpu: 1, memory: 1 },
        started_at: None,
    }
}

#[test]
fn a_node_expects_its_unfinished_allocations() {
    let mut fsm = FsmState::empty();
    fsm.allocs.push(make_alloc("a", "n", AllocStatus::Running));
    fsm.allocs.push(make_alloc("b", "other", AllocStatus::Running));
    fsm.allocs.push(make_alloc("c", "n", AllocStatus::Stopped { exit_code: 0 }));
    fsm.allocs.push(make_alloc("d", "n", AllocStatus::Pulling));
    let expected = expected_allocs(&fsm, &NodeId("n".to_string()));
    assert_eq!(expected, vec![AllocId("a".to_string()), AllocId("d".to_string())]);
}

#[test]
fn a_node_starts_again() {
    let (mut restarting, first) = Restarting::begin();
    assert_eq!(first, StartAction::LoadIdentity);
    let mut own = identity(None, None);
    own.peers.push(PeerEntry {
        raft_id: 2,
        advertise_addr: "5.6.7.8:51820".to_string(),
        tunnel_ip: IpAddr::V4(0x0a63_0002),
        public_key: "abc".to_string(),
    });
    assert_eq!(
        restarting.step(StartEvent::IdentityLoaded(own)),
        StartAction::InitMesh { subnet: "10.99.0.0/16".to_string() }
    );
    match restarting.step(StartEvent::MeshReady(mesh())) {
        StartAction::AddPeer(peer) => assert_eq!(peer.endpoint, "5.6.7.8:51820"),
        other => panic!("unexpected action {other:?}"),
    }
    assert_eq!(restarting.step(StartEvent::Done), StartAction::LoadClusterKey);
    assert_eq!(
        restarting.step(StartEvent::Done),
        StartAction::OpenRaft { raft_id: 1, peers: vec![(2, "http://10.99.0.2:4401".to_string())] }
    );
    assert_eq!(restarting.step(StartEvent::Done), StartAction::StartSubsystems { acme: None });
    assert_eq!(restarting.step(StartEvent::Done), StartAction::ReadState);
    let mut fsm = FsmState::empty();
    fsm.allocs.push(make_alloc("a", "n", AllocStatus::Healthy));
    match restarting.step(StartEvent::StateRead(fsm)) {
        StartAction::StartSecondary(config) => {
            assert_eq!(config.expected_allocs, vec![AllocId("a".to_string())]);
            assert_eq!(config.mesh_ip, Some(TUNNEL));
            assert_eq!(config.containerd_socket, "/run/containerd/containerd.sock");
        }
        other => panic!("unexpected action {other:?}"),
    }
    assert_eq!(
        restarting.step(StartEvent::Done),
        StartAction::StartRpcServer {
            address: SocketAddr { ip: TUNNEL, port: 4402 },
            token: "t".to_string(),
        }
    );
    match restarting.step(StartEvent::Done) {
        StartAction::StartPrimary(config) => assert_eq!(config.local_node_id, None),
        other => panic!("unexpected action {other:?}"),
    }
}

#[test]
fn a_node_registers_with_its_address_in_the_mesh() {
    let own = identity(None, None);
    let resources = whole_machine(2, 64);
    let command = registration(&own, &mesh(), None, resources);
    assert_eq!(
        command,
        Command::NodeRegister {
            id: 1,
            mill_id: NodeId("n".to_string()),
            address: SocketAddr { ip: TUNNEL, port: 4400 },
            resources,
            wireguard_pubkey: Some("key".to_string()),
            instance_id: None,
            rpc_address: Some(SocketAddr { ip: TUNNEL, port: 4402 }),
            advertise_addr: Some("0.0.0.0".to_string()),
        }
    );
}
