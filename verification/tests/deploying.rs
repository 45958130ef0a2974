//! Deploying, updating, draining and running tasks, step by step.
use mill_node::config::{
    Alloc, AllocId, AllocKind, AllocStatus, ClusterConfig, EnvPart, EnvValue, NodeId,
    NodeResources, NodeStatus, Resources, ServiceDef, TaskDef, VolumeDef, VolumeState,
};
use mill_node::error::{DeployError, NodeError, StorageError};
use mill_node::fsm::{Command, FsmNode, FsmState, FsmVolume, Proposed, Secret};
use mill_node::net::{IpAddr, SocketAddr};
use mill_node::primary::api::sse::Progress;
use mill_node::primary::deploy::resolve::{resolve_env, resolve_env_value};
use mill_node::primary::deploy::rollout::{
    RollingUpdate, RolloutAction, RolloutEvent, ServiceStart, ServiceStop,
};
use mill_node::primary::deploy::run::{Deploy, DeployAction, DeployEvent, Restart};
use mill_node::primary::deploy::start::{AllocStart, StartAction, StartEvent};
use mill_node::primary::deploy::volumes::{VolumeAction, VolumeEvent, VolumeSetup};
use mill_node::primary::deploy::wait::{
    poll_for_address, wait_for_status, AddressWait, StatusWait,
};
use mill_node::primary::logs::{LogAction, LogEvent, LogStreaming};
use mill_node::primary::nodes::{remove_node, Drain, DrainAction, DrainEvent};
use mill_node::primary::tasks::{
    can_spawn, kill_task, spawn_task, SpawnAction, SpawnEvent, SpawnTaskRequest,
};
use mill_node::rpc::protocol::NodeCommand;
use mill_node::time::{Duration, Instant};

const CORE: u64 = 1_000_000_000;
const GIB: u64 = 1 << 30;

fn resources() -> NodeResources {
    NodeResources {
        cpu_total: 4 * CORE,
        cpu_available: 4 * CORE,
        memory_total: 8 * GIB,
        memory_available: 8 * GIB,
    }
}

fn node(raft_id: u64, name: &str) -> FsmNode {
    FsmNode {
        raft_id,
        mill_id: NodeId(name.into()),
        address: SocketAddr { ip: IpAddr::V4(0x0a63_0000 + raft_id as u32), port: 4400 },
        resources: resources(),
        status: NodeStatus::Ready,
        wireguard_pubkey: None,
        instance_id: Some(format!("{raft_id}")),
        rpc_address: None,
        advertise_addr: None,
    }
}

fn make_alloc(id: &str, name: &str, on: &str, kind: AllocKind, status: AllocStatus) -> Alloc {
    Alloc {
        id: AllocId(id.into()),
        node: NodeId(on.into()),
        name: name.into(),
        kind,
        status,
        address: Some(SocketAddr { ip: IpAddr::V4(0x0a63_0001), port: 50000 }),
        resources: Resources { cpu: CORE, memory: GIB },
        started_at: None,
    }
}

fn service(image: &str) -> ServiceDef {
    ServiceDef {
        image: image.into(),
        port: 80,
        replicas: 1,
        resources: Resources { cpu: CORE, memory: GIB },
        env: vec![],
        command: None,
        health: None,
        routes: vec![],
        volumes: vec![],
    }
}

fn config(image: &str) -> ClusterConfig {
    ClusterConfig { services: vec![("web".into(), service(image))], tasks: vec![] }
}

/// One node, one running allocation, and the given image deployed.
fn state(image: Option<&str>) -> FsmState {
    let mut fsm = FsmState::empty();
    fsm.nodes.push(node(1, "node-1"));
    fsm.available.push((1, resources()));
    fsm.config = image.map(config);
    if image.is_some() {
        let running = AllocStatus::Healthy;
        fsm.allocs.push(make_alloc("web-old", "web", "node-1", AllocKind::Service, running));
    }
    fsm
}

fn web() -> AllocId {
    AllocId("web-new".into())
}

#[test]
fn service_address_in_fsm() {
    let mut start = AllocStart::new("web".into(), service("nginx:1"), web(), 0);
    let action = start.step(StartEvent::State(state(None)));
    assert_eq!(
        action,
        StartAction::Emit(Progress::Scheduled {
            service: "web".into(),
            node: NodeId("node-1".into()),
        })
    );
    assert_eq!(start.step(StartEvent::Emitted), StartAction::ReadState);
    match start.step(StartEvent::State(state(None))) {
        StartAction::Propose(Command::AllocScheduled { alloc_id, node_id, name, .. }) => {
            assert_eq!(alloc_id, web());
            assert_eq!(node_id, 1);
            assert_eq!(name, "web");
        }
        other => panic!("unexpected action {other:?}"),
    }
    assert_eq!(start.step(StartEvent::Proposed(Proposed::Applied)), StartAction::ReadState);
    match start.step(StartEvent::State(state(None))) {
        StartAction::Send { node, command: NodeCommand::Run { spec, .. } } => {
            assert_eq!(node, NodeId("node-1".into()));
            assert_eq!(spec.image, "nginx:1");
            assert_eq!(spec.port, Some(80));
        }
        other => panic!("unexpected action {other:?}"),
    }
    assert_eq!(
        start.step(StartEvent::Sent(Ok(()))),
        StartAction::Emit(Progress::Starting { service: "web".into() })
    );
    assert_eq!(start.step(StartEvent::Emitted), StartAction::AwaitRunning { alloc_id: web() });
    let action = start.step(StartEvent::Running(Ok(())));
    assert_eq!(action, StartAction::AwaitAddress { alloc_id: web() });
    let address = SocketAddr { ip: IpAddr::V4(0x0a63_0001), port: 50000 };
    let action = start.step(StartEvent::Address(Some(address)));
    assert_eq!(action, StartAction::Probe { address, health: None });
    let action = start.step(StartEvent::Probed(true));
    assert_eq!(
        action,
        StartAction::Propose(Command::AllocStatus {
            alloc_id: web(),
            status: AllocStatus::Healthy,
        })
    );
    let action = start.step(StartEvent::Proposed(Proposed::Applied));
    assert_eq!(action, StartAction::Emit(Progress::Healthy { service: "web".into() }));
    assert_eq!(start.step(StartEvent::Emitted), StartAction::Finished(Ok(())));
}

#[test]
fn deploy_env_missing_secret() {
    let mut def = service("nginx:1");
    def.env.push((
        "KEY".into(),
        EnvValue::Interpolated { parts: vec![EnvPart::Secret { name: "nope".into() }] },
    ));
    let mut start = AllocStart::new("web".into(), def, web(), 0);
    start.step(StartEvent::State(state(None)));
    start.step(StartEvent::Emitted);
    start.step(StartEvent::State(state(None)));
    start.step(StartEvent::Proposed(Proposed::Applied));
    // The allocation is recorded as failed before the error comes.
    let action = start.step(StartEvent::State(state(None)));
    assert!(matches!(
        action,
        StartAction::Propose(Command::AllocStatus { status: AllocStatus::Failed { .. }, .. })
    ));
    match start.step(StartEvent::Proposed(Proposed::Applied)) {
        StartAction::Finished(Err(DeployError::EnvResolution(words))) => {
            assert!(words.contains("nope"), "expected 'nope' in: {words}")
        }
        other => panic!("unexpected action {other:?}"),
    }
}

#[test]
fn services_that_fit_nowhere_are_refused() {
    let mut def = service("nginx:1");
    def.resources.cpu = 99 * CORE;
    let mut start = AllocStart::new("web".into(), def, web(), 2);
    assert_eq!(
        start.step(StartEvent::State(state(None))),
        StartAction::Finished(Err(DeployError::SchedulingFailed {
            service: "web".into(),
            replica: 2,
        }))
    );
}

#[test]
fn deploy_env_service_address_unresolvable() {
    let fsm = state(None);
    let value =
        EnvValue::Interpolated { parts: vec![EnvPart::ServiceAddress { service: "db".into() }] };
    let err = resolve_env_value(&fsm, &value).unwrap_err();
    assert!(matches!(err, DeployError::EnvResolution(_)));
}

#[test]
fn variables_are_put_together() {
    let mut fsm = state(Some("nginx:1"));
    fsm.secrets.push(Secret { name: "pw".into(), plaintext: Ok(b"s3cr\xc3\xa9t".to_vec()) });
    let value = EnvValue::Interpolated {
        parts: vec![
            EnvPart::Literal("http://".into()),
            EnvPart::ServiceAddress { service: "web".into() },
            EnvPart::Literal("/?pw=".into()),
            EnvPart::Secret { name: "pw".into() },
        ],
    };
    let env = vec![("URL".to_string(), value), ("A".to_string(), EnvValue::Literal("1".into()))];
    assert_eq!(
        resolve_env(&fsm, &env).unwrap(),
        vec![
            ("URL".to_string(), "http://10.99.0.1:50000/?pw=s3crét".to_string()),
            ("A".to_string(), "1".to_string()),
        ]
    );
}

#[test]
fn rolling_update_completes() {
    let mut update = RollingUpdate::new("web".into(), 1);
    let action = update.step(RolloutEvent::State(state(Some("nginx:1"))));
    assert_eq!(action, RolloutAction::SetUpVolumes { target: 1 });
    assert_eq!(update.step(RolloutEvent::VolumesSetUp(Ok(()))), RolloutAction::ReadState);
    let action = update.step(RolloutEvent::State(state(Some("nginx:1"))));
    assert_eq!(action, RolloutAction::Suffix);
    let action = update.step(RolloutEvent::Suffix("new".into()));
    assert_eq!(action, RolloutAction::StartAlloc { alloc_id: web(), replica: 0 });
    assert_eq!(update.step(RolloutEvent::Started(Ok(()))), RolloutAction::ReadState);
    let mut fsm = state(Some("nginx:1"));
    let healthy = AllocStatus::Healthy;
    fsm.allocs.push(make_alloc("web-new", "web", "node-1", AllocKind::Service, healthy));
    // Only now the old one goes.
    assert_eq!(
        update.step(RolloutEvent::State(fsm)),
        RolloutAction::Send {
            node: NodeId("node-1".into()),
            command: NodeCommand::Stop { alloc_id: AllocId("web-old".into()) },
        }
    );
    let action = update.step(RolloutEvent::Sent(Ok(())));
    assert_eq!(action, RolloutAction::Emit(Progress::Stopped { service: "web".into() }));
    assert_eq!(update.step(RolloutEvent::Emitted), RolloutAction::Finished(Ok(())));
}

#[test]
fn deploy_rollback_on_failure() {
    let mut update = RollingUpdate::new("web".into(), 2);
    update.step(RolloutEvent::State(state(Some("nginx:1"))));
    update.step(RolloutEvent::VolumesSetUp(Ok(())));
    update.step(RolloutEvent::State(state(Some("nginx:1"))));
    update.step(RolloutEvent::Suffix("new".into()));
    update.step(RolloutEvent::Started(Ok(())));
    let mut fsm = state(Some("nginx:1"));
    let healthy = AllocStatus::Healthy;
    fsm.allocs.push(make_alloc("web-new", "web", "node-1", AllocKind::Service, healthy));
    assert_eq!(update.step(RolloutEvent::State(fsm)), RolloutAction::Suffix);
    update.step(RolloutEvent::Suffix("two".into()));
    let error = DeployError::HealthCheckTimeout { service: "web".into() };
    // The new allocation that had started is stopped, the old one stays.
    assert_eq!(
        update.step(RolloutEvent::Started(Err(error.clone()))),
        RolloutAction::Send {
            node: NodeId("node-1".into()),
            command: NodeCommand::Stop { alloc_id: web() },
        }
    );
    let action = update.step(RolloutEvent::Sent(Ok(())));
    assert_eq!(action, RolloutAction::Finished(Err(error)));
}

#[test]
fn services_are_started_replica_by_replica() {
    let mut start = ServiceStart::new("web".into(), 2);
    let action = start.step(RolloutEvent::State(state(None)));
    assert_eq!(action, RolloutAction::SetUpVolumes { target: 1 });
    for replica in 0..2 {
        let action = if replica == 0 {
            start.step(RolloutEvent::VolumesSetUp(Ok(())))
        } else {
            start.step(RolloutEvent::Started(Ok(())))
        };
        let alloc_id = AllocId(format!("web-{replica}"));
        assert_eq!(action, RolloutAction::StartAlloc { alloc_id, replica });
    }
    let action = start.step(RolloutEvent::Started(Ok(())));
    assert_eq!(action, RolloutAction::Finished(Ok(())));
}

#[test]
fn removed_services_are_stopped() {
    let mut stop = ServiceStop::new("web".into());
    let action = stop.step(RolloutEvent::State(state(Some("nginx:1"))));
    assert!(matches!(action, RolloutAction::Send { command: NodeCommand::Stop { .. }, .. }));
    let action = stop.step(RolloutEvent::Sent(Ok(())));
    assert_eq!(action, RolloutAction::Emit(Progress::Stopped { service: "web".into() }));
    assert_eq!(stop.step(RolloutEvent::Emitted), RolloutAction::Finished(Ok(())));
}

#[test]
fn failed_deploys_restore_the_old_configuration() {
    let mut deploy = Deploy::new(config("nginx:2"));
    let action = deploy.step(DeployEvent::State(state(Some("nginx:1"))));
    assert_eq!(action, DeployAction::Emit(Progress::Started));
    assert_eq!(deploy.step(DeployEvent::Emitted), DeployAction::ReadState);
    let action = deploy.step(DeployEvent::State(state(Some("nginx:1"))));
    let pull = NodeCommand::Pull { image: "nginx:2".into(), auth: None };
    assert_eq!(action, DeployAction::Broadcast(pull));
    let action = deploy.step(DeployEvent::Broadcasted);
    assert_eq!(action, DeployAction::Emit(Progress::Pulling));
    match deploy.step(DeployEvent::Emitted) {
        DeployAction::Propose(Command::Deploy(new)) => {
            assert_eq!(new.services[0].1.image, "nginx:2")
        }
        other => panic!("unexpected action {other:?}"),
    }
    let action = deploy.step(DeployEvent::Proposed(Proposed::Applied));
    assert_eq!(action, DeployAction::UpdateService { index: 0 });
    let error = DeployError::HealthCheckTimeout { service: "web".into() };
    let action = deploy.step(DeployEvent::Done(Err(error)));
    assert_eq!(
        action,
        DeployAction::Emit(Progress::Failed {
            service: "web".into(),
            reason: "health check timeout for web".into(),
        })
    );
    match deploy.step(DeployEvent::Emitted) {
        DeployAction::Propose(Command::Deploy(old)) => {
            assert_eq!(old.services[0].1.image, "nginx:1")
        }
        other => panic!("unexpected action {other:?}"),
    }
    let action = deploy.step(DeployEvent::Proposed(Proposed::Applied));
    assert_eq!(action, DeployAction::Emit(Progress::Deployed { success: false }));
    assert_eq!(deploy.step(DeployEvent::Emitted), DeployAction::Finished(Ok(())));
}

#[test]
fn configurations_that_fit_nowhere_are_not_recorded() {
    let mut too_big = config("nginx:2");
    too_big.services[0].1.resources.memory = 99 * GIB;
    let mut deploy = Deploy::new(too_big);
    deploy.step(DeployEvent::State(state(None)));
    deploy.step(DeployEvent::Emitted);
    let action = deploy.step(DeployEvent::State(state(None)));
    assert!(matches!(action, DeployAction::Finished(Err(DeployError::ValidationFailed(_)))));
}

#[test]
fn unknown_services_are_not_restarted() {
    let mut restart = Restart::new("db".into());
    match restart.step(DeployEvent::State(state(Some("nginx:1")))) {
        DeployAction::Finished(Err(DeployError::Node(NodeError::ServiceNotFound(name)))) => {
            assert_eq!(name, "db")
        }
        other => panic!("unexpected action {other:?}"),
    }
}

fn volume() -> VolumeDef {
    VolumeDef { name: "data".into(), path: "/data".into(), ephemeral: false, size: None }
}

#[test]
fn volume_created_on_deploy() {
    let (mut setup, first) = VolumeSetup::begin(vec![volume()], 1, true);
    assert_eq!(first, VolumeAction::ReadState);
    let action = setup.step(VolumeEvent::State(state(None)));
    assert_eq!(action, VolumeAction::Create { name: "data".into(), size: 10 * GIB });
    let action = setup.step(VolumeEvent::Created(Ok("vol-1".into())));
    assert_eq!(
        action,
        VolumeAction::Propose(Command::VolumeCreated {
            name: "data".into(),
            cloud_id: "vol-1".into(),
        })
    );
    assert_eq!(
        setup.step(VolumeEvent::Proposed(Proposed::Applied)),
        VolumeAction::ReadState
    );
    let action = setup.step(VolumeEvent::State(state(None)));
    assert_eq!(action, VolumeAction::Attach { name: "data".into(), instance_id: "1".into() });
    let action = setup.step(VolumeEvent::Attached(Ok(())));
    assert_eq!(
        action,
        VolumeAction::Propose(Command::VolumeAttached { name: "data".into(), node: 1 })
    );
    let action = setup.step(VolumeEvent::Proposed(Proposed::Applied));
    assert_eq!(action, VolumeAction::Finished(Ok(())));
}

#[test]
fn deploy_volume_create_failure() {
    let (mut setup, _) = VolumeSetup::begin(vec![volume()], 1, true);
    setup.step(VolumeEvent::State(state(None)));
    let error = StorageError::Api("quota".into());
    assert_eq!(
        setup.step(VolumeEvent::Created(Err(error.clone()))),
        VolumeAction::Finished(Err(DeployError::Storage(error)))
    );
}

#[test]
fn volumes_elsewhere_are_detached_first() {
    let mut fsm = state(None);
    let elsewhere = VolumeState::Attached { node: NodeId("node-9".into()) };
    fsm.volumes.push(("data".into(), FsmVolume { cloud_id: "v".into(), state: elsewhere }));
    let (mut setup, _) = VolumeSetup::begin(vec![volume()], 1, true);
    let action = setup.step(VolumeEvent::State(fsm));
    assert_eq!(action, VolumeAction::Detach { name: "data".into() });
}

#[test]
fn drain_migration_failure_preserves_alloc() {
    let (mut drain, first) = Drain::begin(1, false);
    assert_eq!(first, DrainAction::Propose(Command::NodeDrain { id: 1 }));
    let action = drain.step(DrainEvent::Proposed(Proposed::Applied));
    assert_eq!(action, DrainAction::Emit(Progress::Started));
    assert_eq!(drain.step(DrainEvent::Emitted), DrainAction::ReadState);
    assert_eq!(
        drain.step(DrainEvent::State(state(Some("nginx:1")))),
        DrainAction::ReadState
    );
    assert_eq!(
        drain.step(DrainEvent::State(state(Some("nginx:1")))),
        DrainAction::ReadState
    );
    assert_eq!(drain.step(DrainEvent::State(state(Some("nginx:1")))), DrainAction::Suffix);
    let action = drain.step(DrainEvent::Suffix("new".into()));
    assert_eq!(action, DrainAction::StartAlloc { name: "web".into(), alloc_id: web() });
    let error = DeployError::HealthCheckTimeout { service: "web".into() };
    let action = drain.step(DrainEvent::Started(Err(error)));
    assert!(matches!(action, DrainAction::Emit(Progress::Failed { .. })));
    // No stop follows: the allocation stays.
    assert_eq!(drain.step(DrainEvent::Emitted), DrainAction::Emit(Progress::Done));
    assert_eq!(drain.step(DrainEvent::Emitted), DrainAction::Finished(Ok(())));
}

#[test]
fn drain_migrates_volumes() {
    let mut fsm = state(None);
    let here = VolumeState::Attached { node: NodeId("node-1".into()) };
    fsm.volumes.push(("data".into(), FsmVolume { cloud_id: "v".into(), state: here }));
    let (mut drain, _) = Drain::begin(1, true);
    drain.step(DrainEvent::Proposed(Proposed::Applied));
    drain.step(DrainEvent::Emitted);
    assert_eq!(
        drain.step(DrainEvent::State(fsm)),
        DrainAction::Detach { name: "data".into() }
    );
    assert_eq!(
        drain.step(DrainEvent::Detached(Ok(()))),
        DrainAction::Propose(Command::VolumeDetached { name: "data".into() })
    );
}

#[test]
fn drains_see_to_every_allocation() {
    let mut fsm = state(Some("nginx:1"));
    let running = || AllocStatus::Running;
    let service = AllocKind::Service;
    fsm.allocs.push(make_alloc("job-1", "job", "node-1", AllocKind::Task, running()));
    fsm.allocs.push(make_alloc("gone-1", "gone", "node-1", service, running()));
    fsm.allocs.push(make_alloc("web-2", "web", "node-1", service, running()));
    fsm.allocs.push(make_alloc("web-9", "web", "node-9", service, running()));
    let (mut drain, mut action) = Drain::begin(1, false);
    let (mut stopped, mut told) = (vec![], vec![]);
    let mut starts = 0;
    loop {
        let event = match action {
            DrainAction::ReadState => DrainEvent::State(copy_state(&fsm)),
            DrainAction::Emit(progress) => {
                told.push(progress);
                DrainEvent::Emitted
            }
            DrainAction::Propose(_) => DrainEvent::Proposed(Proposed::Applied),
            DrainAction::Detach { .. } => DrainEvent::Detached(Ok(())),
            DrainAction::Suffix => DrainEvent::Suffix("new".into()),
            DrainAction::StartAlloc { name, .. } => {
                // The first replacement runs, the second one does not.
                starts += 1;
                DrainEvent::Started(if starts == 1 {
                    Ok(())
                } else {
                    Err(DeployError::HealthCheckTimeout { service: name })
                })
            }
            DrainAction::Send { node, command: NodeCommand::Stop { alloc_id } } => {
                assert_eq!(node.0, "node-1");
                stopped.push(alloc_id.0);
                DrainEvent::Sent(Ok(()))
            }
            DrainAction::Finished(outcome) => {
                assert_eq!(outcome, Ok(()));
                break;
            }
            other => panic!("unexpected action {other:?}"),
        };
        action = drain.step(event);
    }
    assert_eq!(stopped, ["web-old", "job-1", "gone-1"]);
    assert_eq!(starts, 2);
    assert_eq!(told.iter().filter(|p| matches!(p, Progress::Failed { .. })).count(), 1);
    assert_eq!(told.iter().filter(|p| matches!(p, Progress::Migrated { .. })).count(), 1);
}

fn copy_state(fsm: &FsmState) -> FsmState {
    let mut out = state(Some("nginx:1"));
    out.allocs = fsm
        .allocs
        .iter()
        .map(|a| make_alloc(&a.id.0, &a.name, &a.node.0, a.kind, a.status.clone()))
        .collect();
    out
}

/// Takes an update of three replicas to its end; the replica of the given
/// number fails. Gives what was stopped, and the outcome.
fn roll(failing: u32) -> (Vec<String>, Result<(), DeployError>) {
    let mut fsm = state(Some("nginx:1"));
    let mut update = RollingUpdate::new("web".into(), 3);
    let mut action = RolloutAction::ReadState;
    let mut stopped = vec![];
    let mut listed = false;
    loop {
        let event = match action {
            RolloutAction::ReadState => {
                listed = true;
                RolloutEvent::State(copy_state(&fsm))
            }
            RolloutAction::SetUpVolumes { .. } => RolloutEvent::VolumesSetUp(Ok(())),
            RolloutAction::Suffix => RolloutEvent::Suffix(fsm.allocs.len().to_string()),
            RolloutAction::StartAlloc { alloc_id, replica } => {
                assert!(listed);
                if replica == failing {
                    let service = "web".to_string();
                    RolloutEvent::Started(Err(DeployError::HealthCheckTimeout { service }))
                } else {
                    let on = format!("node-{replica}");
                    let (kind, status) = (AllocKind::Service, AllocStatus::Healthy);
                    fsm.allocs.push(make_alloc(&alloc_id.0, "web", &on, kind, status));
                    RolloutEvent::Started(Ok(()))
                }
            }
            RolloutAction::Send { command: NodeCommand::Stop { alloc_id }, .. } => {
                stopped.push(alloc_id.0);
                RolloutEvent::Sent(Ok(()))
            }
            RolloutAction::Emit(_) => RolloutEvent::Emitted,
            RolloutAction::Finished(outcome) => return (stopped, outcome),
            other => panic!("unexpected action {other:?}"),
        };
        action = update.step(event);
    }
}

#[test]
fn failed_updates_are_taken_back() {
    let error = || DeployError::HealthCheckTimeout { service: "web".into() };
    assert_eq!(roll(0), (vec![], Err(error())));
    assert_eq!(roll(2), (vec!["web-1".to_string(), "web-2".to_string()], Err(error())));
    // Where none fails, the old one goes and the new ones stay.
    assert_eq!(roll(3), (vec!["web-old".to_string()], Ok(())));
}

#[test]
fn nodes_are_removed_by_agreement() {
    assert_eq!(remove_node(Proposed::Applied), Ok(()));
    assert!(matches!(
        remove_node(Proposed::Rejected("no".into())),
        Err(NodeError::RaftRejected(_))
    ));
}

fn request() -> SpawnTaskRequest {
    SpawnTaskRequest {
        task: None,
        image: Some("job:1".into()),
        cpu: CORE,
        memory: "512MiB".into(),
        env: vec![("A".into(), "1".into())],
        timeout: Some("1m 30s".into()),
    }
}

#[test]
fn task_placed_on_available_node() {
    let fsm = state(None);
    let mut spawn = spawn_task(&fsm, &request(), &"x".to_string(), &"y".to_string()).unwrap();
    assert_eq!(spawn.plan.image, "job:1");
    assert_eq!(spawn.plan.resources.memory, 512 << 20);
    assert_eq!(spawn.plan.timeout, Some(Duration::from_secs(90)));
    let id = spawn.alloc_id.clone();
    match spawn.step(SpawnEvent::State(state(None))) {
        SpawnAction::Propose(Command::AllocScheduled { alloc_id, node_id, kind, .. }) => {
            assert_eq!(alloc_id, id);
            assert_eq!(node_id, 1);
            assert_eq!(kind, AllocKind::Task);
        }
        other => panic!("unexpected action {other:?}"),
    }
    assert!(matches!(
        spawn.step(SpawnEvent::Proposed(Proposed::Applied)),
        SpawnAction::CountSpawn { .. }
    ));
    assert_eq!(spawn.step(SpawnEvent::Counted), SpawnAction::ReadState);
    match spawn.step(SpawnEvent::State(state(None))) {
        SpawnAction::Send { command: NodeCommand::Run { spec, .. }, .. } => {
            assert_eq!(spec.env, vec![("A".to_string(), "1".to_string())]);
        }
        other => panic!("unexpected action {other:?}"),
    }
    let action = spawn.step(SpawnEvent::Sent(Ok(())));
    assert_eq!(action, SpawnAction::AwaitRunning { alloc_id: id.clone() });
    let action = spawn.step(SpawnEvent::Running(Ok(())));
    assert_eq!(
        action,
        SpawnAction::KillAfter { alloc_id: id.clone(), after: Duration::from_secs(90) }
    );
    assert_eq!(spawn.step(SpawnEvent::TimerSet), SpawnAction::ReadState);
    match spawn.step(SpawnEvent::State(state(None))) {
        SpawnAction::Finished(Ok(response)) => {
            assert_eq!(response.id, id.0);
            assert_eq!(response.node, "node-1");
            assert_eq!(response.status, "running");
            assert_eq!(response.address, None);
        }
        other => panic!("unexpected action {other:?}"),
    }
}

fn refused(request: &SpawnTaskRequest) -> DeployError {
    let fsm = state(None);
    spawn_task(&fsm, request, &"x".to_string(), &"y".to_string()).unwrap_err()
}

#[test]
fn requests_that_cannot_be_read_are_refused() {
    let err = refused(&SpawnTaskRequest { memory: "lots".into(), ..request() }).to_text();
    assert!(err.contains("invalid memory: "), "{err}");
    let err = refused(&SpawnTaskRequest { timeout: Some("soon".into()), ..request() }).to_text();
    assert!(err.contains("invalid timeout: expected number at 0"), "{err}");
    let err = refused(&SpawnTaskRequest { image: None, task: None, ..request() });
    assert!(matches!(err, DeployError::Node(NodeError::BadRequest(_))));
    let err = refused(&SpawnTaskRequest { image: None, task: Some("t".into()), ..request() });
    assert!(matches!(err, DeployError::Node(NodeError::ServiceNotFound(_))));
}

#[test]
fn requests_for_not_exactly_one_are_refused_whatever_the_timeout() {
    // The reader panics on this span, so it must not be reached.
    let limit = Some("18446744073709551615s 1000000000ns".to_string());
    let words = "must specify exactly one of 'task' or 'image'";
    let neither = SpawnTaskRequest { image: None, timeout: limit.clone(), ..request() };
    let both = SpawnTaskRequest { task: Some("t".into()), timeout: limit.clone(), ..request() };
    let unknown = SpawnTaskRequest {
        task: Some("t".into()),
        image: None,
        timeout: limit.clone(),
        ..request()
    };
    let fsm = state(None);
    for bad in [&neither, &both] {
        assert!(can_spawn(&fsm, bad));
        assert_eq!(refused(bad), DeployError::Node(NodeError::BadRequest(words.into())));
    }
    assert!(can_spawn(&fsm, &unknown));
    assert_eq!(refused(&unknown), DeployError::Node(NodeError::ServiceNotFound("t".into())));
    assert!(!can_spawn(&fsm, &SpawnTaskRequest { timeout: limit, ..request() }));
    assert!(can_spawn(&fsm, &request()));
}

#[test]
fn long_timeouts_are_read_or_refused() {
    let fsm = state(None);
    let timeout_of = |text: &str| {
        let long = SpawnTaskRequest { timeout: Some(text.into()), ..request() };
        assert!(can_spawn(&fsm, &long), "{text}");
        match spawn_task(&fsm, &long, &"x".to_string(), &"y".to_string()) {
            Ok(spawn) => Ok(spawn.plan.timeout.unwrap().nanos),
            Err(e) => Err(e.to_text()),
        }
    };
    let second: u128 = 1_000_000_000;
    assert_eq!(timeout_of("600000000000ms"), Ok(600_000_000 * second));
    assert_eq!(timeout_of("600000000000millis"), Ok(600_000_000 * second));
    assert_eq!(timeout_of("1000000000000s"), Ok(1_000_000_000_000 * second));
    assert_eq!(timeout_of("500000000000y"), Ok(500_000_000_000 * 31_557_600 * second));
    assert_eq!(timeout_of("18446744073709551615s"), Ok(u64::MAX as u128 * second));
    assert_eq!(
        timeout_of("18446744073709551614s 999ms"),
        Ok((u64::MAX - 1) as u128 * second + 999_000_000)
    );
    for text in [
        "99999999999999999999s",
        "1 000 000 000 000 y",
        "18446744073709551615h",
        "18446744073709551615m",
        "18446744073709551615millis",
        "18446744073709551615s 5s",
        "18446744073709551615s 1m",
        "18446744073709551615s 1001ms",
    ] {
        let err = timeout_of(text).unwrap_err();
        assert!(err.contains("invalid timeout: number is too large"), "{text}: {err}");
    }
    for text in ["18446744073709551615x", "18446744073709551615mi", "18446744073709551615mx"] {
        let err = timeout_of(text).unwrap_err();
        assert!(err.contains("invalid timeout: unknown time unit"), "{text}: {err}");
    }
    assert_eq!(timeout_of("18446744073709551555s 1m"), Ok(u64::MAX as u128 * second));
}

#[test]
fn requests_override_the_variables_of_a_task() {
    let mut fsm = state(None);
    let task = TaskDef {
        image: "job:9".into(),
        resources: Resources { cpu: CORE, memory: GIB },
        env: vec![
            ("A".into(), EnvValue::Literal("old".into())),
            ("B".into(), EnvValue::Literal("kept".into())),
        ],
        timeout: Duration::from_secs(5),
        command: None,
    };
    fsm.config = Some(ClusterConfig { services: vec![], tasks: vec![("t".into(), task)] });
    let named = SpawnTaskRequest { image: None, task: Some("t".into()), timeout: None, ..request() };
    let spawn = spawn_task(&fsm, &named, &"x".to_string(), &"y".to_string()).unwrap();
    assert_eq!(spawn.plan.image, "job:9");
    assert_eq!(spawn.plan.timeout, Some(Duration::from_secs(5)));
    assert!(spawn.plan.env.contains(&("A".into(), EnvValue::Literal("1".into()))));
    assert!(spawn.plan.env.contains(&("B".into(), EnvValue::Literal("kept".into()))));
    assert_eq!(spawn.plan.env.len(), 2);
}

#[test]
fn only_tasks_are_killed() {
    let mut fsm = state(Some("nginx:1"));
    let running = AllocStatus::Running;
    fsm.allocs.push(make_alloc("job-1", "job", "node-1", AllocKind::Task, running));
    assert_eq!(
        kill_task(&fsm, &"job-1".to_string()),
        Ok((NodeId("node-1".into()), NodeCommand::Stop { alloc_id: AllocId("job-1".into()) }))
    );
    assert!(matches!(
        kill_task(&fsm, &"web-old".to_string()),
        Err(DeployError::Node(NodeError::NotATask { .. }))
    ));
    assert!(matches!(
        kill_task(&fsm, &"none".to_string()),
        Err(DeployError::Node(NodeError::AllocNotFound(_)))
    ));
}

#[test]
fn waits_end_with_the_deadline() {
    let mut fsm = state(None);
    let id = AllocId("web-1".into());
    let (early, late) = (Instant { nanos: 1 }, Instant { nanos: 9 });
    assert!(matches!(wait_for_status(&fsm, &id, early, late), StatusWait::Sleep(_)));
    assert!(matches!(wait_for_status(&fsm, &id, late, late), StatusWait::Over(Err(_))));
    assert!(matches!(poll_for_address(&fsm, &id, early, late), AddressWait::Sleep(_)));
    assert_eq!(poll_for_address(&fsm, &id, late, late), AddressWait::Over(None));
    let running = AllocStatus::Running;
    fsm.allocs.push(make_alloc("web-1", "web", "node-1", AllocKind::Service, running));
    assert_eq!(wait_for_status(&fsm, &id, early, late), StatusWait::Over(Ok(())));
    assert!(matches!(poll_for_address(&fsm, &id, early, late), AddressWait::Over(Some(_))));
    fsm.allocs[0].status = AllocStatus::Failed { reason: "oom".into() };
    match wait_for_status(&fsm, &id, early, late) {
        StatusWait::Over(Err(e)) => assert!(e.to_text().contains("oom")),
        other => panic!("unexpected outcome {other:?}"),
    }
}

fn line_of(content: &str) -> mill_node::config::LogLine {
    mill_node::config::LogLine {
        timestamp: mill_node::time::SystemTime { secs: 0, nanos: 0 },
        stream: mill_node::config::LogStream::Stdout,
        content: content.into(),
    }
}

/// Takes the streaming through its end and gives what the client was told and
/// what the nodes were asked; every answer of a node comes in turn.
fn run_stream(
    stream: &mut LogStreaming,
    first: LogAction,
    unreachable: &str,
    answers: Vec<(AllocId, Vec<mill_node::config::LogLine>)>,
) -> (Vec<String>, Vec<NodeCommand>) {
    let mut told = Vec::new();
    let mut asked = Vec::new();
    let mut answers = answers.into_iter();
    let mut action = first;
    loop {
        let event = match action {
            LogAction::Emit(event) => {
                told.push(event.data);
                LogEvent::Emitted { delivered: true }
            }
            LogAction::Subscribe => LogEvent::Subscribed,
            LogAction::Send { node, command } => {
                asked.push(command);
                LogEvent::Sent { delivered: node.0 != unreachable }
            }
            LogAction::Receive => LogEvent::Received(Some(answers.next().unwrap())),
            LogAction::Unsubscribe => LogEvent::Unsubscribed,
            LogAction::Finished => break,
        };
        action = stream.step(event);
    }
    assert!(answers.next().is_none());
    (told, asked)
}

fn two_replicas() -> FsmState {
    let mut fsm = state(None);
    let running = AllocStatus::Running;
    fsm.allocs.push(make_alloc("web-1", "web", "node-1", AllocKind::Service, running.clone()));
    fsm.allocs.push(make_alloc("web-2", "web", "node-2", AllocKind::Service, running));
    fsm
}

#[test]
fn streams_show_the_logs_of_all_allocations() {
    let fsm = two_replicas();
    let (one, two) = (AllocId("web-1".into()), AllocId("web-2".into()));
    let tail = |id: &AllocId| NodeCommand::LogTail { alloc_id: id.clone(), lines: 5 };
    let (mut stream, first) = LogStreaming::begin(&fsm, &"web".to_string(), false, 5);
    let answers = vec![
        (two.clone(), vec![line_of("b1"), line_of("b2")]),
        (one.clone(), vec![line_of("a1")]),
    ];
    let (told, asked) = run_stream(&mut stream, first, "nobody", answers);
    assert_eq!(told.len(), 3);
    assert!(told[0].contains("b1") && told[1].contains("b2") && told[2].contains("a1"));
    assert_eq!(asked, vec![tail(&one), tail(&two)]);

    // Two batches of one allocation are not an answer of the other.
    let (mut stream, first) = LogStreaming::begin(&fsm, &"web".to_string(), false, 5);
    let answers = vec![
        (one.clone(), vec![line_of("a1")]),
        (one.clone(), vec![line_of("a2")]),
        (two.clone(), vec![]),
    ];
    let (told, _) = run_stream(&mut stream, first, "nobody", answers);
    assert_eq!(told.len(), 2);

    // A node that cannot be reached owes nothing.
    let (mut stream, first) = LogStreaming::begin(&fsm, &"web".to_string(), false, 5);
    let answers = vec![(two.clone(), vec![line_of("b1")])];
    let (told, asked) = run_stream(&mut stream, first, "node-1", answers);
    assert_eq!(told.len(), 1);
    assert_eq!(asked, vec![tail(&one), tail(&two)]);
}

#[test]
fn streams_end_when_the_client_is_gone() {
    let fsm = state(Some("nginx:1"));
    let (mut stream, first) = LogStreaming::begin(&fsm, &"web".to_string(), true, 10);
    assert_eq!(first, LogAction::Subscribe);
    let id = AllocId("web-old".into());
    let send = |command: NodeCommand| LogAction::Send { node: NodeId("node-1".into()), command };
    assert_eq!(
        stream.step(LogEvent::Subscribed),
        send(NodeCommand::LogTail { alloc_id: id.clone(), lines: 10 })
    );
    assert_eq!(
        stream.step(LogEvent::Sent { delivered: true }),
        send(NodeCommand::LogFollow { alloc_id: id.clone() })
    );
    assert_eq!(stream.step(LogEvent::Sent { delivered: true }), LogAction::Receive);
    let received = LogEvent::Received(Some((id.clone(), vec![line_of("hello")])));
    let action = stream.step(received);
    assert!(matches!(action, LogAction::Emit(_)));
    assert_eq!(
        stream.step(LogEvent::Emitted { delivered: false }),
        send(NodeCommand::LogUnfollow { alloc_id: id })
    );
    assert_eq!(stream.step(LogEvent::Sent { delivered: true }), LogAction::Unsubscribe);
    assert_eq!(stream.step(LogEvent::Unsubscribed), LogAction::Finished);
}
