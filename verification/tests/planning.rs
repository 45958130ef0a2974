//! What a new configuration changes, whether it can be deployed, and where
//! allocations go.
use mill_node::config::{
    Alloc, AllocId, AllocKind, AllocStatus, ClusterConfig, EnvPart, EnvValue, HealthCheck, NodeId,
    NodeResources, NodeStatus, Resources, RouteDef, ServiceDef, TaskDef, VolumeState,
};
use mill_node::error::DeployError;
use mill_node::fsm::{FsmNode, FsmState, FsmVolume};
use mill_node::net::{IpAddr, SocketAddr};
use mill_node::primary::connections::{remote_nodes, ConnectionAction, Connections};
use mill_node::primary::deploy::diff::{diff_config, DeployPlan};
use mill_node::primary::deploy::run::images_to_pull;
use mill_node::primary::deploy::validate::{validate_resource_capacity, validate_secret_refs};
use mill_node::primary::dns::compute_dns_records;
use mill_node::primary::proxy::compute_proxy_routes;
use mill_node::primary::scheduler::{schedule, ScheduleRequest};
use mill_node::time::Duration;

const CORE: u64 = 1_000_000_000;
const MIB: u64 = 1 << 20;
const GIB: u64 = 1 << 30;

fn service(image: &str, replicas: u32) -> ServiceDef {
    ServiceDef {
        image: image.into(),
        port: 8080,
        replicas,
        resources: Resources { cpu: CORE / 4, memory: 256 * MIB },
        env: vec![],
        command: None,
        health: None,
        routes: vec![],
        volumes: vec![],
    }
}

fn config(services: Vec<(&str, ServiceDef)>) -> ClusterConfig {
    ClusterConfig {
        services: services.into_iter().map(|(k, v)| (k.into(), v)).collect(),
        tasks: vec![],
    }
}

#[test]
fn no_old_config_all_added() {
    let new = config(vec![("web", service("nginx:1", 2)), ("api", service("api:1", 1))]);
    let plan = diff_config(None, &new);

    assert_eq!(plan.added.len(), 2);
    assert!(plan.removed.is_empty());
    assert!(plan.changed.is_empty());
    assert!(plan.unchanged.is_empty());
}

#[test]
fn added_service() {
    let old = config(vec![("web", service("nginx:1", 1))]);
    let new = config(vec![("web", service("nginx:1", 1)), ("api", service("api:1", 1))]);
    let plan = diff_config(Some(&old), &new);

    assert_eq!(plan.added.len(), 1);
    assert_eq!(plan.added[0].0, "api");
    assert_eq!(plan.unchanged.len(), 1);
    assert!(plan.removed.is_empty());
    assert!(plan.changed.is_empty());
}

#[test]
fn removed_service() {
    let old = config(vec![("web", service("nginx:1", 1)), ("api", service("api:1", 1))]);
    let new = config(vec![("web", service("nginx:1", 1))]);
    let plan = diff_config(Some(&old), &new);

    assert_eq!(plan.removed.len(), 1);
    assert_eq!(plan.removed[0], "api");
    assert_eq!(plan.unchanged.len(), 1);
    assert!(plan.added.is_empty());
    assert!(plan.changed.is_empty());
}

#[test]
fn changed_service() {
    let old = config(vec![("web", service("nginx:1", 1))]);
    let new = config(vec![("web", service("nginx:2", 1))]); // image changed
    let plan = diff_config(Some(&old), &new);

    assert_eq!(plan.changed.len(), 1);
    assert_eq!(plan.changed[0].0, "web");
    assert_eq!(plan.changed[0].1.image, "nginx:2");
    assert!(plan.added.is_empty());
    assert!(plan.removed.is_empty());
    assert!(plan.unchanged.is_empty());
}

#[test]
fn unchanged_service() {
    let old = config(vec![("web", service("nginx:1", 1))]);
    let new = config(vec![("web", service("nginx:1", 1))]);
    let plan = diff_config(Some(&old), &new);

    assert_eq!(plan.unchanged.len(), 1);
    assert!(plan.added.is_empty());
    assert!(plan.removed.is_empty());
    assert!(plan.changed.is_empty());
}

#[test]
fn mixed_changes() {
    let old = config(vec![
        ("web", service("nginx:1", 1)),
        ("api", service("api:1", 1)),
        ("worker", service("worker:1", 2)),
    ]);
    let new = config(vec![
        ("web", service("nginx:1", 1)), // unchanged
        ("api", service("api:2", 1)),   // changed (image)
        ("cache", service("redis:7", 1)), // added
                                        // worker removed
    ]);
    let plan = diff_config(Some(&old), &new);

    assert_eq!(plan.unchanged, vec!["web"]);
    assert_eq!(plan.changed.len(), 1);
    assert_eq!(plan.changed[0].0, "api");
    assert_eq!(plan.added.len(), 1);
    assert_eq!(plan.added[0].0, "cache");
    assert_eq!(plan.removed, vec!["worker"]);
}

#[test]
fn replicas_change_is_detected() {
    let old = config(vec![("web", service("nginx:1", 1))]);
    let new = config(vec![("web", service("nginx:1", 3))]); // replicas changed
    let plan = diff_config(Some(&old), &new);

    assert_eq!(plan.changed.len(), 1);
    assert!(plan.unchanged.is_empty());
}

#[test]
fn health_check_change_is_detected() {
    let mut svc = service("nginx:1", 1);
    let old = config(vec![("web", svc.clone())]);
    svc.health = Some(HealthCheck {
        path: "/health".into(),
        interval: Duration::from_secs(10),
        failure_threshold: 3,
    });
    let new = config(vec![("web", svc)]);
    let plan = diff_config(Some(&old), &new);

    assert_eq!(plan.changed.len(), 1);
    assert!(plan.unchanged.is_empty());
}

#[test]
fn the_order_of_variables_does_not_matter() {
    let mut one = service("nginx:1", 1);
    one.env = vec![
        ("A".into(), EnvValue::Literal("1".into())),
        ("B".into(), EnvValue::Literal("2".into())),
    ];
    let mut two = service("nginx:1", 1);
    two.env = vec![
        ("B".into(), EnvValue::Literal("2".into())),
        ("A".into(), EnvValue::Literal("1".into())),
    ];
    let plan = diff_config(Some(&config(vec![("web", one)])), &config(vec![("web", two)]));
    assert_eq!(plan.unchanged, vec!["web"]);
}

fn config_with_secret(service_name: &str, secret_name: &str) -> ClusterConfig {
    let env = vec![(
        "DB_PASS".to_string(),
        EnvValue::Interpolated { parts: vec![EnvPart::Secret { name: secret_name.into() }] },
    )];
    config(vec![(service_name, ServiceDef { env, ..service("img:1", 1) })])
}

fn config_with_resources(name: &str, cpu: u64, memory_mib: u64) -> ClusterConfig {
    config(vec![(
        name,
        ServiceDef {
            resources: Resources { cpu, memory: memory_mib * MIB },
            ..service("img:1", 1)
        },
    )])
}

fn node_resources(cpu: u64, memory_mib: u64) -> NodeResources {
    NodeResources {
        cpu_total: cpu,
        cpu_available: cpu,
        memory_total: memory_mib * MIB,
        memory_available: memory_mib * MIB,
    }
}

#[test]
fn validate_secret_refs_missing() {
    let config = config_with_secret("web", "db_pass");
    let known = vec![];
    let err = validate_secret_refs(&config, &known).unwrap_err();
    let msg = err.to_text();
    assert!(msg.contains("db_pass"), "expected 'db_pass' in: {msg}");
    assert!(matches!(err, DeployError::ValidationFailed(_)));
}

#[test]
fn secrets_of_tasks_are_checked() {
    let mut config = config(vec![]);
    let parts = vec![EnvPart::Secret { name: "api_key".into() }];
    let task = TaskDef {
        image: "job:1".into(),
        resources: Resources { cpu: CORE, memory: GIB },
        env: vec![("KEY".into(), EnvValue::Interpolated { parts })],
        timeout: Duration::from_secs(5),
        command: None,
    };
    config.tasks.push(("job".into(), task));
    let err = validate_secret_refs(&config, &vec![]).unwrap_err().to_text();
    assert!(err.contains("job/api_key"), "{err}");
    validate_secret_refs(&config, &vec!["api_key".to_owned()]).unwrap();
}

#[test]
fn validate_secret_refs_all_present() {
    let config = config_with_secret("web", "db_pass");
    let known = vec!["db_pass".to_owned()];
    validate_secret_refs(&config, &known).unwrap();
}

#[test]
fn validate_resource_capacity_exceeds() {
    let config = config_with_resources("big", 8 * CORE, 256);
    let nodes = vec![node_resources(4 * CORE, 8192)];
    let err = validate_resource_capacity(&config, &nodes).unwrap_err();
    let msg = err.to_text();
    assert!(msg.contains("big"), "expected 'big' in: {msg}");
}

#[test]
fn validate_resource_capacity_fits() {
    let config = config_with_resources("web", 2 * CORE, 1024);
    let nodes = vec![node_resources(4 * CORE, 8192)];
    validate_resource_capacity(&config, &nodes).unwrap();
}

#[test]
fn validate_resource_capacity_no_nodes() {
    let config = config_with_resources("web", CORE / 4, 256);
    let nodes: Vec<NodeResources> = vec![];
    let err = validate_resource_capacity(&config, &nodes).unwrap_err();
    let msg = err.to_text();
    assert!(msg.contains("no ready nodes"), "expected 'no ready nodes' in: {msg}");
}

#[test]
fn capacity_is_looked_for_on_one_node_at_a_time() {
    // One node has the processors and another the memory, none has both.
    let config = config_with_resources("web", 4 * CORE, 4096);
    let nodes = vec![node_resources(8 * CORE, 1024), node_resources(CORE, 8192)];
    assert!(validate_resource_capacity(&config, &nodes).is_err());
}

#[test]
fn eager_pull_broadcasts_unique_images() {
    let plan = DeployPlan {
        added: vec![("web".into(), service("nginx:1", 1)), ("api".into(), service("api:2", 1))],
        changed: vec![("cache".into(), service("nginx:1", 1))], // duplicate image
        removed: vec![],
        unchanged: vec![],
    };
    let images = images_to_pull(&plan);

    // Duplicates are collapsed.
    assert_eq!(images.len(), 2);
    assert!(images.contains(&"nginx:1".to_string()));
    assert!(images.contains(&"api:2".to_string()));
}

fn addr(last: u8, port: u16) -> SocketAddr {
    SocketAddr { ip: IpAddr::V4(0x0a00_0000 + last as u32), port }
}

fn make_alloc(name: &str, suffix: &str, status: AllocStatus, address: Option<SocketAddr>) -> Alloc {
    Alloc {
        id: AllocId(format!("{name}-{suffix}")),
        node: NodeId("node-1".into()),
        name: name.to_owned(),
        kind: AllocKind::Service,
        status,
        address,
        resources: Resources { cpu: CORE / 4, memory: 256 * MIB },
        started_at: None,
    }
}

#[test]
fn groups_running_allocs_by_name() {
    let mut fsm = FsmState::empty();
    fsm.allocs.push(make_alloc("web", "0", AllocStatus::Running, Some(addr(1, 8080))));
    fsm.allocs.push(make_alloc("web", "1", AllocStatus::Healthy, Some(addr(2, 8080))));

    let records = compute_dns_records(&fsm);
    assert_eq!(records.len(), 1);
    assert_eq!(records[0].name, "web");
    assert_eq!(records[0].addresses.len(), 2);
    assert_eq!(records[0].addresses, vec![addr(1, 8080), addr(2, 8080)]);
}

#[test]
fn dns_excludes_stopped_allocs() {
    let mut fsm = FsmState::empty();
    fsm.allocs.push(make_alloc("web", "0", AllocStatus::Running, Some(addr(1, 8080))));
    fsm.allocs.push(make_alloc("api", "0", AllocStatus::Stopped { exit_code: 0 }, Some(addr(1, 8080))));

    let records = compute_dns_records(&fsm);
    assert_eq!(records.len(), 1);
    assert_eq!(records[0].name, "web");
}

#[test]
fn excludes_allocs_without_address() {
    let mut fsm = FsmState::empty();
    fsm.allocs.push(make_alloc("web", "0", AllocStatus::Running, None));

    let records = compute_dns_records(&fsm);
    assert!(records.is_empty());
}

fn route() -> RouteDef {
    RouteDef { hostname: "app.example.com".into(), path: "/".into(), websocket: false }
}

fn service_with_routes(routes: Vec<RouteDef>) -> ServiceDef {
    ServiceDef { image: "nginx:latest".into(), port: 80, routes, ..service("x", 1) }
}

#[test]
fn computes_routes_for_running_allocs() {
    let mut fsm = FsmState::empty();
    fsm.config = Some(config(vec![("web", service_with_routes(vec![route()]))]));
    fsm.allocs.push(make_alloc("web", "0", AllocStatus::Healthy, Some(addr(1, 8080))));

    let routes = compute_proxy_routes(&fsm);
    assert_eq!(routes.len(), 1);
    assert_eq!(routes[0].hostname, "app.example.com");
    assert_eq!(routes[0].backend, addr(1, 8080));
}

#[test]
fn proxy_excludes_stopped_allocs() {
    let mut fsm = FsmState::empty();
    fsm.config = Some(config(vec![("web", service_with_routes(vec![route()]))]));
    fsm.allocs.push(make_alloc("web", "0", AllocStatus::Stopped { exit_code: 0 }, Some(addr(1, 8080))));

    let routes = compute_proxy_routes(&fsm);
    assert!(routes.is_empty());
}

#[test]
fn no_config_returns_empty() {
    let fsm = FsmState::empty();
    let routes = compute_proxy_routes(&fsm);
    assert!(routes.is_empty());
}

#[test]
fn services_without_routes_skipped() {
    let mut fsm = FsmState::empty();
    fsm.config = Some(config(vec![("web", service_with_routes(vec![]))]));

    let routes = compute_proxy_routes(&fsm);
    assert!(routes.is_empty());
}

fn node(raft_id: u64, mill_id: &str, cpu: u64, mem_gb: u64) -> FsmNode {
    FsmNode {
        raft_id,
        mill_id: NodeId(mill_id.into()),
        address: addr(raft_id as u8, 4400),
        resources: avail(cpu, mem_gb),
        status: NodeStatus::Ready,
        wireguard_pubkey: None,
        instance_id: None,
        rpc_address: None,
        advertise_addr: None,
    }
}

fn avail(cpu: u64, mem_gb: u64) -> NodeResources {
    NodeResources {
        cpu_total: cpu * CORE,
        cpu_available: cpu * CORE,
        memory_total: mem_gb * GIB,
        memory_available: mem_gb * GIB,
    }
}

fn need(cpu: u64, mem_gb: u64) -> Resources {
    Resources { cpu: cpu * CORE, memory: mem_gb * GIB }
}

fn pick(
    need: Resources,
    name: &str,
    kind: AllocKind,
    volume: Option<&str>,
    nodes: Vec<FsmNode>,
    allocs: Vec<Alloc>,
    volumes: Vec<(String, FsmVolume)>,
    available: Vec<(u64, NodeResources)>,
) -> Option<NodeId> {
    let name = name.to_string();
    let volume = volume.map(|v| v.to_string());
    let request = ScheduleRequest { need: &need, name: &name, kind, volume: volume.as_ref() };
    schedule(&request, &nodes, &allocs, &volumes, &available)
}

fn attached(name: &str, node: &str) -> (String, FsmVolume) {
    let state = VolumeState::Attached { node: NodeId(node.into()) };
    (name.into(), FsmVolume { cloud_id: "vol-123".into(), state })
}

fn placed(node: &str, name: &str, kind: AllocKind) -> Alloc {
    let mut a = make_alloc(name, "0", AllocStatus::Running, None);
    a.node = NodeId(node.into());
    a.kind = kind;
    a
}

#[test]
fn volume_affinity_places_on_attached_node() {
    let result = pick(
        need(1, 1),
        "web",
        AllocKind::Service,
        Some("data"),
        vec![node(1, "node-1", 4, 8), node(2, "node-2", 4, 8)],
        vec![],
        vec![attached("data", "node-2")],
        vec![(1, avail(4, 8)), (2, avail(4, 8))],
    );
    assert_eq!(result, Some(NodeId("node-2".into())));
}

#[test]
fn volume_affinity_returns_none_if_node_full() {
    let result = pick(
        need(8, 16), // More than available
        "db",
        AllocKind::Service,
        Some("data"),
        vec![node(1, "node-1", 4, 8), node(2, "node-2", 4, 8)],
        vec![],
        vec![attached("data", "node-2")],
        vec![(1, avail(4, 8)), (2, avail(4, 8))],
    );
    assert_eq!(result, None);
}

#[test]
fn spread_prefers_node_without_same_service() {
    let result = pick(
        need(1, 1),
        "web",
        AllocKind::Service,
        None,
        vec![node(1, "node-1", 4, 8), node(2, "node-2", 4, 8)],
        // node-1 already has a "web" service alloc
        vec![placed("node-1", "web", AllocKind::Service)],
        vec![],
        vec![(1, avail(3, 7)), (2, avail(3, 7))],
    );
    assert_eq!(result, Some(NodeId("node-2".into())));
}

#[test]
fn bin_pack_picks_most_packed_node() {
    let result = pick(
        need(1, 1),
        "api",
        AllocKind::Service,
        None,
        vec![node(1, "node-1", 8, 16), node(2, "node-2", 8, 16)],
        vec![],
        vec![],
        // node-1 has less available (more packed)
        vec![(1, avail(2, 2)), (2, avail(6, 12))],
    );
    assert_eq!(result, Some(NodeId("node-1".into())));
}

#[test]
fn no_fit_returns_none() {
    let result = pick(
        need(4, 8), // More than available
        "big",
        AllocKind::Service,
        None,
        vec![node(1, "node-1", 2, 4)],
        vec![],
        vec![],
        vec![(1, avail(2, 4))],
    );
    assert_eq!(result, None);
}

#[test]
fn tasks_skip_spread() {
    let result = pick(
        need(1, 1),
        "migrate",
        AllocKind::Task,
        None,
        vec![node(1, "node-1", 4, 8), node(2, "node-2", 4, 8)],
        // node-1 already has a "migrate" task, but tasks skip spread
        vec![placed("node-1", "migrate", AllocKind::Task)],
        vec![],
        // node-1 is more packed — should be preferred via bin-pack
        vec![(1, avail(2, 4)), (2, avail(4, 8))],
    );
    // Should pick node-1 (more packed) since spread is skipped for tasks
    assert_eq!(result, Some(NodeId("node-1".into())));
}

#[test]
fn nodes_that_take_no_work_are_passed_over() {
    let mut draining = node(1, "node-1", 4, 8);
    draining.status = NodeStatus::Draining;
    let result = pick(
        need(1, 1),
        "web",
        AllocKind::Service,
        None,
        vec![draining, node(2, "node-2", 4, 8)],
        vec![],
        vec![],
        vec![(1, avail(2, 2)), (2, avail(4, 8))],
    );
    assert_eq!(result, Some(NodeId("node-2".into())));
}

#[test]
fn the_own_node_is_no_target() {
    let mut fsm = FsmState::empty();
    fsm.nodes.push(node(1, "node-1", 4, 8));
    let mut other = node(2, "node-2", 4, 8);
    other.rpc_address = Some(addr(2, 4402));
    fsm.nodes.push(other);
    let targets = remote_nodes(&fsm, &Some(NodeId("node-1".into())));
    assert_eq!(targets, vec![(NodeId("node-2".into()), addr(2, 4402))]);
}

#[test]
fn connections_follow_the_nodes() {
    let mut fsm = FsmState::empty();
    fsm.nodes.push(node(2, "node-2", 4, 8));
    let (mut connections, action) = Connections::begin(&fsm, &None);
    assert_eq!(
        action,
        ConnectionAction::Connect { node: NodeId("node-2".into()), address: addr(2, 4400) }
    );
    assert_eq!(connections.connection_tried(true), ConnectionAction::Wait);
    // Nothing changed, so nothing is done.
    assert_eq!(connections.look(&fsm, &None), ConnectionAction::Wait);
    fsm.nodes.clear();
    let action = connections.look(&fsm, &None);
    assert_eq!(action, ConnectionAction::Disconnect { node: NodeId("node-2".into()) });
    assert_eq!(connections.disconnected(), ConnectionAction::Wait);
}

#[test]
fn all_nodes_are_connected_to_at_the_start() {
    let mut fsm = FsmState::empty();
    fsm.nodes.push(node(2, "twin", 4, 8));
    fsm.nodes.push(node(3, "twin", 4, 8));
    let to = |n: u8| ConnectionAction::Connect {
        node: NodeId("twin".into()),
        address: addr(n, 4400),
    };
    let (mut connections, action) = Connections::begin(&fsm, &None);
    assert_eq!(action, to(2));
    // The second connection takes the place of the first.
    assert_eq!(connections.connection_tried(true), to(3));
    assert_eq!(connections.connection_tried(true), ConnectionAction::Wait);
    assert_eq!(connections.connected, vec![NodeId("twin".into())]);
    // Later a node whose name is connected is left alone.
    assert_eq!(connections.look(&fsm, &None), ConnectionAction::Wait);
    fsm.nodes.clear();
    let gone = ConnectionAction::Disconnect { node: NodeId("twin".into()) };
    assert_eq!(connections.look(&fsm, &None), gone);
    assert_eq!(connections.disconnected(), ConnectionAction::Wait);
    assert!(connections.connected.is_empty());
}
