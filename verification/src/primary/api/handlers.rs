//! The answers of the API, worked out from the replicated state.
use crate::config::{
    has_key, lemma_position, Alloc, AllocId, AllocKind, AllocStatus, NodeId, ServiceDef, VolumeState,
};
use crate::error::{DeployError, NodeError, StorageError};
use crate::fsm::{
    alloc_named, left_on, node_available_resources, node_named, remainders_are_those_of_the_node,
    Command, FsmNode, FsmState, FsmVolume, Proposed, Secret,
};
use crate::net::addr_text;
use crate::primary::deploy::resolve::{
    called, copy_bytes, find_secret, text_from_utf8, utf8_text,
};
use crate::primary::nodes::{list_living, living_on};
use crate::primary::tasks::SpawnTaskResponse;
use crate::seqs::{
    first, first_comes_before_all_others, lemma_select_take, lemma_selected, select,
};
use crate::util::{date_of, format_system_time, timestamp};
use vstd::prelude::*;
use vstd::string::*;

verus! {

/// A refusal: an HTTP status and words for the client.
#[derive(Debug, PartialEq, Eq)]
pub struct ApiError {
    pub status: u16,
    pub error: String,
}

impl ApiError {
    /// Whether this is the given refusal.
    pub open spec fn is(self, status: u16, words: Seq<char>) -> bool {
        self.status == status && self.error@ == words
    }
}

fn api_error(status: u16, message: &str) -> (res: ApiError)
    ensures
        res.is(status, message@),
{
    ApiError { status, error: message.to_owned() }
}

fn api_error_about(status: u16, message: &str, why: &String) -> (res: ApiError)
    ensures
        res.is(status, message@ + why@),
{
    let mut error = message.to_owned();
    error.append(why.as_str());
    ApiError { status, error }
}

/// The state of the cluster in figures. CPU is in billionths of a core.
#[derive(Clone, Copy, Debug, PartialEq, Eq, Structural)]
pub struct StatusResponse {
    pub node_count: usize,
    pub service_count: usize,
    pub task_count: usize,
    pub cpu_total: u128,
    pub cpu_available: u128,
    pub memory_total_bytes: u64,
    pub memory_available_bytes: u64,
}

/// The CPU of nodes in all.
pub open spec fn cpu_sum(nodes: Seq<FsmNode>) -> nat
    decreases nodes.len(),
{
    if nodes.len() == 0 {
        0
    } else {
        cpu_sum(nodes.drop_last()) + nodes.last().resources.cpu_total as nat
    }
}

/// The memory of nodes in all.
pub open spec fn memory_sum(nodes: Seq<FsmNode>) -> nat
    decreases nodes.len(),
{
    if nodes.len() == 0 {
        0
    } else {
        memory_sum(nodes.drop_last()) + nodes.last().resources.memory_total as nat
    }
}

/// The CPU that is left on nodes.
pub open spec fn cpu_left(fsm: FsmState, nodes: Seq<FsmNode>) -> nat
    decreases nodes.len(),
{
    if nodes.len() == 0 {
        0
    } else {
        cpu_left(fsm, nodes.drop_last()) + match left_on(
            fsm.available@,
            nodes.last().raft_id,
        ) {
            Some(left) => left.cpu_available as nat,
            None => 0,
        }
    }
}

/// The memory that is left on nodes.
pub open spec fn memory_left(fsm: FsmState, nodes: Seq<FsmNode>) -> nat
    decreases nodes.len(),
{
    if nodes.len() == 0 {
        0
    } else {
        memory_left(fsm, nodes.drop_last()) + match left_on(
            fsm.available@,
            nodes.last().raft_id,
        ) {
            Some(left) => left.memory_available as nat,
            None => 0,
        }
    }
}

proof fn lemma_sums_grow(fsm: FsmState, nodes: Seq<FsmNode>, i: int)
    requires
        0 <= i <= nodes.len(),
    ensures
        memory_sum(nodes.take(i)) <= memory_sum(nodes),
        memory_left(fsm, nodes.take(i)) <= memory_left(fsm, nodes),
    decreases nodes.len() - i,
{
    if i < nodes.len() {
        lemma_sums_grow(fsm, nodes, i + 1);
        assert(nodes.take(i + 1).drop_last() =~= nodes.take(i));
    } else {
        assert(nodes.take(i) =~= nodes);
    }
}

/// Allocations of tasks.
pub open spec fn is_task() -> spec_fn(Alloc) -> bool {
    |a: Alloc| a.kind is Task
}

/// How many services the configuration has.
pub open spec fn service_count(fsm: FsmState) -> nat {
    match fsm.config {
        Some(c) => c.services@.len(),
        None => 0,
    }
}

/// The state of the cluster in figures.
pub fn get_status(fsm: &FsmState) -> (res: StatusResponse)
    requires
        memory_sum(fsm.nodes@) <= u64::MAX,
        memory_left(*fsm, fsm.nodes@) <= u64::MAX,
    ensures
        res.node_count == fsm.nodes@.len(),
        res.service_count == service_count(*fsm),
        res.task_count == select(fsm.allocs@, is_task()).len(),
        res.cpu_total == cpu_sum(fsm.nodes@),
        res.cpu_available == cpu_left(*fsm, fsm.nodes@),
        res.memory_total_bytes == memory_sum(fsm.nodes@),
        res.memory_available_bytes == memory_left(*fsm, fsm.nodes@),
{
    let mut cpu_total: u128 = 0;
    let mut cpu_available: u128 = 0;
    let mut memory_total: u64 = 0;
    let mut memory_available: u64 = 0;
    let ghost all = fsm.nodes@;
    let count: usize = fsm.nodes.len();
    let mut i: usize = 0;
    while i < count
        invariant
            i <= count == all.len(),
            all == fsm.nodes@,
            memory_sum(all) <= u64::MAX,
            memory_left(*fsm, all) <= u64::MAX,
            cpu_total == cpu_sum(all.take(i as int)),
            cpu_available == cpu_left(*fsm, all.take(i as int)),
            cpu_total <= i * u64::MAX,
            cpu_available <= i * u64::MAX,
            memory_total == memory_sum(all.take(i as int)),
            memory_available == memory_left(*fsm, all.take(i as int)),
        decreases count - i,
    {
        proof {
            assert(all.take(i + 1).drop_last() =~= all.take(i as int));
            lemma_sums_grow(*fsm, all, i + 1);
            assert(i * u64::MAX + u64::MAX == (i + 1) * u64::MAX) by (nonlinear_arith);
            assert((i + 1) * u64::MAX <= u128::MAX) by (nonlinear_arith)
                requires
                    i + 1 <= usize::MAX,
            ;
        }
        let node = &fsm.nodes[i];
        cpu_total = cpu_total + node.resources.cpu_total as u128;
        memory_total = memory_total + node.resources.memory_total;
        if let Some(left) = node_available_resources(fsm.available.as_slice(), node.raft_id) {
            cpu_available = cpu_available + left.cpu_available as u128;
            memory_available = memory_available + left.memory_available;
        }
        i = i + 1;
    }
    assert(all.take(i as int) =~= all);
    let services: usize = match &fsm.config {
        Some(c) => c.services.len(),
        None => 0,
    };
    StatusResponse {
        node_count: count,
        service_count: services,
        task_count: get_tasks(fsm).len(),
        cpu_total,
        cpu_available,
        memory_total_bytes: memory_total,
        memory_available_bytes: memory_available,
    }
}

/// What the API tells of a node. CPU is in billionths of a core.
#[derive(Debug, PartialEq, Eq)]
pub struct NodeResponse {
    pub id: String,
    pub address: String,
    pub status: String,
    pub cpu_total: u64,
    pub cpu_available: u64,
    pub memory_total_bytes: u64,
    pub memory_available_bytes: u64,
    pub alloc_count: usize,
}

/// Whether an answer tells of a node.
pub open spec fn tells_of_node(fsm: FsmState, node: FsmNode, res: NodeResponse) -> bool {
    &&& res.id == node.mill_id.0
    &&& res.address@ == addr_text(node.address)
    &&& res.status@ == node.status.word()
    &&& res.cpu_total == node.resources.cpu_total
    &&& res.memory_total_bytes == node.resources.memory_total
    &&& match left_on(fsm.available@, node.raft_id) {
        Some(left) => res.cpu_available == left.cpu_available && res.memory_available_bytes
            == left.memory_available,
        None => res.cpu_available == 0 && res.memory_available_bytes == 0,
    }
    &&& res.alloc_count == select(fsm.allocs@, living_on(node.mill_id@)).len()
}

/// The nodes of the cluster.
pub fn get_nodes(fsm: &FsmState) -> (res: Vec<NodeResponse>)
    ensures
        res@.len() == fsm.nodes@.len(),
        forall|i: int|
            0 <= i < res@.len() ==> tells_of_node(*fsm, fsm.nodes@[i], #[trigger] res@[i]),
{
    let mut out: Vec<NodeResponse> = Vec::new();
    let mut i: usize = 0;
    while i < fsm.nodes.len()
        invariant
            i <= fsm.nodes@.len(),
            out@.len() == i,
            forall|j: int|
                0 <= j < i ==> tells_of_node(*fsm, fsm.nodes@[j], #[trigger] out@[j]),
        decreases fsm.nodes@.len() - i,
    {
        let node = &fsm.nodes[i];
        let (cpu, memory): (u64, u64) = match node_available_resources(
            fsm.available.as_slice(),
            node.raft_id,
        ) {
            Some(left) => (left.cpu_available, left.memory_available),
            None => (0, 0),
        };
        let living = list_living(fsm, &node.mill_id);
        out.push(
            NodeResponse {
                id: node.mill_id.0.clone(),
                address: node.address.to_text(),
                status: node.status.to_text(),
                cpu_total: node.resources.cpu_total,
                cpu_available: cpu,
                memory_total_bytes: node.resources.memory_total,
                memory_available_bytes: memory,
                alloc_count: living.len(),
            },
        );
        i = i + 1;
    }
    out
}

/// What the API tells of an allocation. CPU is in billionths of a core.
#[derive(Debug, PartialEq, Eq)]
pub struct AllocResponse {
    pub id: String,
    pub node: String,
    pub status: String,
    pub address: Option<String>,
    pub cpu: u64,
    pub memory: u64,
    pub started_at: Option<String>,
}

/// How many replicas there should be, and how many are healthy.
#[derive(Clone, Copy, Debug, PartialEq, Eq, Structural)]
pub struct ReplicaCount {
    pub desired: u32,
    pub healthy: usize,
}

/// What the API tells of a service.
#[derive(Debug, PartialEq, Eq)]
pub struct ServiceResponse {
    pub name: String,
    pub image: String,
    pub replicas: ReplicaCount,
    pub allocations: Vec<AllocResponse>,
}

/// Whether an answer tells of an allocation.
pub open spec fn tells_of_alloc(alloc: Alloc, res: AllocResponse) -> bool {
    &&& res.id == alloc.id.0
    &&& res.node == alloc.node.0
    &&& res.status@ == alloc.status.word()
    &&& res.cpu == alloc.resources.cpu
    &&& res.memory == alloc.resources.memory
    &&& match alloc.address {
        Some(addr) => res.address is Some && res.address->0@ == addr_text(addr),
        None => res.address is None,
    }
    &&& match alloc.started_at {
        Some(t) => res.started_at is Some && res.started_at->0@ == timestamp(
            date_of(t.seconds_since_epoch()),
            t.seconds_since_epoch(),
        ),
        None => res.started_at is None,
    }
}

/// Allocations of the service of the given name.
pub open spec fn of_service(name: Seq<char>) -> spec_fn(Alloc) -> bool {
    |a: Alloc| a.name@ == name && a.kind is Service
}

/// Healthy allocations of the service of the given name.
pub open spec fn healthy_of(name: Seq<char>) -> spec_fn(Alloc) -> bool {
    |a: Alloc| a.name@ == name && a.kind is Service && a.status is Healthy
}

/// Whether an answer tells of a service.
pub open spec fn tells_of_service(
    fsm: FsmState,
    service: (String, ServiceDef),
    res: ServiceResponse,
) -> bool {
    let own = select(fsm.allocs@, of_service(service.0@));
    &&& res.name == service.0
    &&& res.image == service.1.image
    &&& res.replicas.desired == service.1.replicas
    &&& res.replicas.healthy == select(fsm.allocs@, healthy_of(service.0@)).len()
    &&& res.allocations@.len() == own.len()
    &&& forall|i: int|
        0 <= i < own.len() ==> tells_of_alloc(own[i], #[trigger] res.allocations@[i])
}

fn alloc_response(a: &Alloc) -> (res: AllocResponse)
    ensures
        tells_of_alloc(*a, res),
{
    let address = match a.address {
        Some(addr) => Some(addr.to_text()),
        None => None,
    };
    let started_at = match a.started_at {
        Some(t) => Some(format_system_time(&t)),
        None => None,
    };
    AllocResponse {
        id: a.id.0.clone(),
        node: a.node.0.clone(),
        status: a.status.to_text(),
        address,
        cpu: a.resources.cpu,
        memory: a.resources.memory,
        started_at,
    }
}

fn service_response(fsm: &FsmState, service: &(String, ServiceDef)) -> (res: ServiceResponse)
    ensures
        tells_of_service(*fsm, *service, res),
{
    let name = &service.0;
    let mut allocations: Vec<AllocResponse> = Vec::new();
    let mut healthy: usize = 0;
    let ghost all = fsm.allocs@;
    let ghost p = of_service(name@);
    let ghost q = healthy_of(name@);
    let mut i: usize = 0;
    while i < fsm.allocs.len()
        invariant
            i <= all.len(),
            all == fsm.allocs@,
            p == of_service(name@),
            q == healthy_of(name@),
            healthy <= i,
            healthy == select(all.take(i as int), q).len(),
            allocations@.len() == select(all.take(i as int), p).len(),
            forall|j: int|
                0 <= j < allocations@.len() ==> tells_of_alloc(
                    select(all.take(i as int), p)[j],
                    #[trigger] allocations@[j],
                ),
        decreases all.len() - i,
    {
        proof {
            lemma_select_take(all, p, i as int);
            lemma_select_take(all, q, i as int);
        }
        let a = &fsm.allocs[i];
        if a.name == *name && a.kind == AllocKind::Service {
            allocations.push(alloc_response(a));
            if let AllocStatus::Healthy = a.status {
                healthy = healthy + 1;
            }
        }
        i = i + 1;
    }
    assert(all.take(i as int) =~= all);
    ServiceResponse {
        name: name.clone(),
        image: service.1.image.clone(),
        replicas: ReplicaCount { desired: service.1.replicas, healthy },
        allocations,
    }
}

/// The services of the configuration.
pub fn get_services(fsm: &FsmState) -> (res: Vec<ServiceResponse>)
    ensures
        res@.len() == service_count(*fsm),
        fsm.config matches Some(config) ==> forall|i: int|
            0 <= i < res@.len() ==> tells_of_service(
                *fsm,
                config.services@[i],
                #[trigger] res@[i],
            ),
{
    let mut out: Vec<ServiceResponse> = Vec::new();
    if let Some(config) = &fsm.config {
        let mut i: usize = 0;
        while i < config.services.len()
            invariant
                i <= config.services@.len(),
                out@.len() == i,
                forall|j: int|
                    0 <= j < i ==> tells_of_service(
                        *fsm,
                        config.services@[j],
                        #[trigger] out@[j],
                    ),
            decreases config.services@.len() - i,
        {
            out.push(service_response(fsm, &config.services[i]));
            i = i + 1;
        }
    }
    out
}

/// The allocations of tasks.
pub fn get_tasks(fsm: &FsmState) -> (res: Vec<&Alloc>)
    ensures
        res@.len() == select(fsm.allocs@, is_task()).len(),
        forall|i: int|
            0 <= i < res@.len() ==> *(#[trigger] res@[i]) == select(fsm.allocs@, is_task())[i],
{
    let mut out: Vec<&Alloc> = Vec::new();
    let ghost all = fsm.allocs@;
    let mut i: usize = 0;
    while i < fsm.allocs.len()
        invariant
            i <= all.len(),
            all == fsm.allocs@,
            out@.len() == select(all.take(i as int), is_task()).len(),
            forall|j: int|
                0 <= j < out@.len() ==> *(#[trigger] out@[j]) == select(
                    all.take(i as int),
                    is_task(),
                )[j],
        decreases all.len() - i,
    {
        proof {
            lemma_select_take(all, is_task(), i as int);
        }
        if fsm.allocs[i].kind == AllocKind::Task {
            out.push(&fsm.allocs[i]);
        }
        i = i + 1;
    }
    assert(all.take(i as int) =~= all);
    out
}

/// The allocation of a task, by its id.
pub fn get_task<'a>(fsm: &'a FsmState, id: &String) -> (res: Result<&'a Alloc, ApiError>)
    ensures
        match alloc_named(fsm.allocs@, id@) {
            Some(a) if a.kind is Task => res matches Ok(found) && *found == a,
            _ => res matches Err(e) && e.is(404, "task not found"@),
        },
{
    match fsm.find_alloc(&AllocId(id.clone())) {
        Some(a) if a.kind == AllocKind::Task => Ok(a),
        _ => Err(api_error(404, "task not found")),
    }
}

/// The value of a secret.
#[derive(Debug, PartialEq, Eq)]
pub struct SecretResponse {
    pub name: String,
    pub value: String,
}

/// The names of secrets.
pub open spec fn secret_names(secrets: Seq<Secret>) -> Seq<String> {
    Seq::new(secrets.len(), |i: int| secrets[i].name)
}

/// What the API answers when asked for the secrets: their names, and nothing
/// of what they hold.
pub fn list_secrets(fsm: &FsmState) -> (res: Vec<String>)
    ensures
        res@ == secret_names(fsm.secrets@),
{
    let mut out: Vec<String> = Vec::new();
    let mut i: usize = 0;
    while i < fsm.secrets.len()
        invariant
            i <= fsm.secrets@.len(),
            out@ == secret_names(fsm.secrets@).take(i as int),
        decreases fsm.secrets@.len() - i,
    {
        out.push(fsm.secrets[i].name.clone());
        i = i + 1;
        assert(out@ =~= secret_names(fsm.secrets@).take(i as int));
    }
    assert(out@ =~= secret_names(fsm.secrets@));
    out
}

/// What the API answers when asked for a secret.
pub fn get_secret(fsm: &FsmState, name: &String) -> (res: Result<SecretResponse, ApiError>)
    ensures
        match first(fsm.secrets@, called(name@)) {
            None => res matches Err(e) && e.is(404, "secret not found"@),
            Some(secret) => match secret.plaintext {
                Err(_) => res matches Err(e) && e.is(500, "decryption failed"@),
                Ok(bytes) => match utf8_text(bytes@) {
                    Err(_) => res matches Err(e) && e.is(500, "decryption failed"@),
                    Ok(text) => res matches Ok(secret) && secret.name == *name && secret.value@
                        == text,
                },
            },
        },
{
    match find_secret(fsm, name) {
        None => Err(api_error(404, "secret not found")),
        Some(secret) => match &secret.plaintext {
            Err(_) => Err(api_error(500, "decryption failed")),
            Ok(bytes) => match text_from_utf8(copy_bytes(bytes)) {
                Err(_) => Err(api_error(500, "decryption failed")),
                Ok(value) => Ok(SecretResponse { name: name.clone(), value }),
            },
        },
    }
}

/// What a request to set a secret proposes, by what came of encrypting its
/// value.
pub fn set_secret(name: String, encrypted: Option<(Vec<u8>, Vec<u8>)>) -> (res: Result<
    Command,
    ApiError,
>)
    ensures
        match encrypted {
            Some((encrypted_value, nonce)) => res == Ok::<Command, ApiError>(
                Command::SecretSet { name, encrypted_value, nonce },
            ),
            None => res matches Err(e) && e.is(500, "encryption failed"@),
        },
{
    match encrypted {
        Some((encrypted_value, nonce)) => Ok(Command::SecretSet { name, encrypted_value, nonce }),
        None => Err(api_error(500, "encryption failed")),
    }
}

/// What a request to delete a secret proposes.
pub fn delete_secret(fsm: &FsmState, name: &String) -> (res: Result<Command, ApiError>)
    ensures
        match first(fsm.secrets@, called(name@)) {
            Some(_) => res == Ok::<Command, ApiError>(Command::SecretDelete { name: *name }),
            None => res matches Err(e) && e.is(404, "secret not found"@),
        },
{
    match find_secret(fsm, name) {
        Some(_) => Ok(Command::SecretDelete { name: name.clone() }),
        None => Err(api_error(404, "secret not found")),
    }
}

/// What the API tells of a volume.
#[derive(Debug, PartialEq, Eq)]
pub struct VolumeResponse {
    pub name: String,
    pub state: String,
    pub node: Option<String>,
    pub cloud_id: String,
}

/// Whether an answer tells of a volume.
pub open spec fn tells_of_volume(volume: (String, FsmVolume), res: VolumeResponse) -> bool {
    &&& res.name == volume.0
    &&& res.state@ == volume.1.state.word()
    &&& res.cloud_id == volume.1.cloud_id
    &&& res.node == match volume.1.state {
        VolumeState::Attached { node } => Some(node.0),
        VolumeState::Ready => None,
    }
}

/// The volumes of the cluster.
pub fn get_volumes(fsm: &FsmState) -> (res: Vec<VolumeResponse>)
    ensures
        res@.len() == fsm.volumes@.len(),
        forall|i: int|
            0 <= i < res@.len() ==> tells_of_volume(fsm.volumes@[i], #[trigger] res@[i]),
{
    let mut out: Vec<VolumeResponse> = Vec::new();
    let mut i: usize = 0;
    while i < fsm.volumes.len()
        invariant
            i <= fsm.volumes@.len(),
            out@.len() == i,
            forall|j: int| 0 <= j < i ==> tells_of_volume(fsm.volumes@[j], #[trigger] out@[j]),
        decreases fsm.volumes@.len() - i,
    {
        let (name, volume) = &fsm.volumes[i];
        let node = match &volume.state {
            VolumeState::Attached { node } => Some(node.0.clone()),
            VolumeState::Ready => None,
        };
        out.push(
            VolumeResponse {
                name: name.clone(),
                state: volume.state.to_text(),
                node,
                cloud_id: volume.cloud_id.clone(),
            },
        );
        i = i + 1;
    }
    out
}

/// How a volume is deleted.
#[derive(Debug, PartialEq, Eq)]
pub enum VolumeDeletion {
    /// It is destroyed in the cloud first.
    Destroy,
    /// It is recorded as gone right away.
    Record(Command),
}

/// Whether an answer is the one to a request to delete a volume.
pub open spec fn is_volume_deletion(
    fsm: FsmState,
    name: String,
    has_driver: bool,
    res: Result<VolumeDeletion, ApiError>,
) -> bool {
    match fsm.volume(name@) {
        None => res matches Err(e) && e.is(404, "volume not found"@),
        Some(volume) => if volume.state is Attached {
            res matches Err(e) && e.is(409, "volume is attached"@)
        } else if has_driver {
            res == Ok::<VolumeDeletion, ApiError>(VolumeDeletion::Destroy)
        } else {
            res == Ok::<VolumeDeletion, ApiError>(
                VolumeDeletion::Record(Command::VolumeDestroyed { name }),
            )
        },
    }
}

/// What a request to delete a volume does first: a volume that is attached is
/// not deleted.
pub fn delete_volume(fsm: &FsmState, name: &String, has_driver: bool) -> (res: Result<
    VolumeDeletion,
    ApiError,
>)
    ensures
        is_volume_deletion(*fsm, *name, has_driver, res),
{
    match fsm.find_volume(name) {
        None => Err(api_error(404, "volume not found")),
        Some(volume) => match &volume.state {
            VolumeState::Attached { .. } => Err(api_error(409, "volume is attached")),
            VolumeState::Ready => if has_driver {
                Ok(VolumeDeletion::Destroy)
            } else {
                Ok(VolumeDeletion::Record(Command::VolumeDestroyed { name: name.clone() }))
            },
        },
    }
}

/// What follows when a volume was to be destroyed in the cloud.
pub fn volume_destroyed(name: &String, outcome: Result<(), StorageError>) -> (res: Result<
    Command,
    ApiError,
>)
    ensures
        match outcome {
            Ok(()) => res == Ok::<Command, ApiError>(Command::VolumeDestroyed { name: *name }),
            Err(why) => res matches Err(e) && e.is(
                500,
                "cloud destroy failed: "@ + why.message(),
            ),
        },
{
    match outcome {
        Ok(()) => Ok(Command::VolumeDestroyed { name: name.clone() }),
        Err(why) => Err(api_error_about(500, "cloud destroy failed: ", &why.to_text())),
    }
}

/// The status of a request that proposed a command.
pub fn propose(outcome: Proposed) -> (res: Result<u16, ApiError>)
    ensures
        match outcome {
            Proposed::Applied => res == Ok::<u16, ApiError>(204),
            _ => res matches Err(e) && e.is(500, "raft proposal failed"@),
        },
{
    match outcome {
        Proposed::Applied => Ok(204),
        _ => Err(api_error(500, "raft proposal failed")),
    }
}

/// The refusal of a configuration that cannot be read, for the given reason.
pub fn post_deploy(reason: &String) -> (res: ApiError)
    ensures
        res.is(400, "invalid config: "@ + reason@),
{
    api_error_about(400, "invalid config: ", reason)
}

/// Whether a service can be restarted: it must be in the configuration.
pub fn post_restart(fsm: &FsmState, service: &String) -> (res: Result<(), ApiError>)
    ensures
        if fsm.service(service@) is Some {
            res is Ok
        } else {
            res matches Err(e) && e.is(404, "service not found"@)
        },
{
    match fsm.find_service(service) {
        Some(_) => Ok(()),
        None => Err(api_error(404, "service not found")),
    }
}

/// The answer to a request to run a task, by what came of it.
pub fn post_spawn_task(outcome: Result<SpawnTaskResponse, DeployError>) -> (res: Result<
    SpawnTaskResponse,
    ApiError,
>)
    ensures
        match outcome {
            Ok(response) => res == Ok::<SpawnTaskResponse, ApiError>(response),
            Err(DeployError::SchedulingFailed { .. }) => res matches Err(e) && e.is(
                503,
                "no node with sufficient resources"@,
            ),
            Err(DeployError::Node(NodeError::BadRequest(words))) => res matches Err(e) && e.is(
                400,
                words@,
            ),
            Err(DeployError::Node(NodeError::ServiceNotFound(_))) => res matches Err(e) && e.is(
                404,
                "task template not found"@,
            ),
            Err(_) => res matches Err(e) && e.is(500, "internal error"@),
        },
{
    match outcome {
        Ok(response) => Ok(response),
        Err(DeployError::SchedulingFailed { .. }) => Err(
            api_error(503, "no node with sufficient resources"),
        ),
        Err(DeployError::Node(NodeError::BadRequest(words))) => Err(
            ApiError { status: 400, error: words },
        ),
        Err(DeployError::Node(NodeError::ServiceNotFound(_))) => Err(
            api_error(404, "task template not found"),
        ),
        Err(_) => Err(api_error(500, "internal error")),
    }
}

/// The answer to a request to kill a task, by what came of it.
pub fn delete_task(outcome: Result<(), DeployError>) -> (res: Result<u16, ApiError>)
    ensures
        match outcome {
            Ok(()) => res == Ok::<u16, ApiError>(204),
            Err(DeployError::Node(NodeError::AllocNotFound(_))) => res matches Err(e) && e.is(
                404,
                "task not found"@,
            ),
            Err(DeployError::Node(NodeError::NotATask { .. })) => res matches Err(e) && e.is(
                400,
                "allocation is not a task"@,
            ),
            Err(_) => res matches Err(e) && e.is(500, "internal error"@),
        },
{
    match outcome {
        Ok(()) => Ok(204),
        Err(DeployError::Node(NodeError::AllocNotFound(_))) => Err(
            api_error(404, "task not found"),
        ),
        Err(DeployError::Node(NodeError::NotATask { .. })) => Err(
            api_error(400, "allocation is not a task"),
        ),
        Err(_) => Err(api_error(500, "internal error")),
    }
}

/// The number of the node that a request names.
pub fn node_number(fsm: &FsmState, id: &String) -> (res: Result<u64, ApiError>)
    ensures
        match node_named(fsm.nodes@, id@) {
            Some(node) => res == Ok::<u64, ApiError>(node.raft_id),
            None => res matches Err(e) && e.is(404, "node not found"@),
        },
{
    match fsm.raft_id_for(&NodeId(id.clone())) {
        Some(raft_id) => Ok(raft_id),
        None => Err(api_error(404, "node not found")),
    }
}

/// The answer to a request to take a node out, by what came of it.
pub fn delete_node(outcome: Result<(), NodeError>) -> (res: Result<u16, ApiError>)
    ensures
        match outcome {
            Ok(()) => res == Ok::<u16, ApiError>(204),
            Err(NodeError::RaftRejected(_)) => res matches Err(e) && e.is(
                409,
                "node has active allocations"@,
            ),
            Err(_) => res matches Err(e) && e.is(500, "internal error"@),
        },
{
    match outcome {
        Ok(()) => Ok(204),
        Err(NodeError::RaftRejected(_)) => Err(api_error(409, "node has active allocations")),
        Err(_) => Err(api_error(500, "internal error")),
    }
}

/// What a client asks of logs.
#[derive(Clone, Copy, Debug, PartialEq, Eq, Structural)]
pub struct LogQuery {
    pub follow: bool,
    pub tail: usize,
}

/// Whether logs are followed where the client does not say.
pub fn default_follow() -> (res: bool)
    ensures
        res,
{
    true
}

/// How many lines are asked for where the client does not say.
pub fn default_tail() -> (res: usize)
    ensures
        res == 200,
{
    200
}

/// A refusal carries just the status and the words that it was made with.
pub proof fn refusals_are_told_as_they_are(e: ApiError, status: u16, words: Seq<char>)
    ensures
        e.is(status, words) <==> e.status == status && e.error@ == words,
{
}

/// The figures of a cluster are sums over its nodes: each further node adds all
/// of its CPU and memory to the totals, and what is left on it, nothing where
/// that is not known, to what is left; a cluster without nodes has none.
pub proof fn figures_add_up(fsm: FsmState, nodes: Seq<FsmNode>, node: FsmNode)
    ensures
        cpu_sum(Seq::empty()) == 0 && memory_sum(Seq::empty()) == 0,
        cpu_left(fsm, Seq::empty()) == 0 && memory_left(fsm, Seq::empty()) == 0,
        cpu_sum(nodes.push(node)) == cpu_sum(nodes) + node.resources.cpu_total,
        memory_sum(nodes.push(node)) == memory_sum(nodes) + node.resources.memory_total,
        forall|k: int|
            {
                &&& 0 <= k < fsm.available@.len()
                &&& (#[trigger] fsm.available@[k]).0 == node.raft_id
                &&& forall|m: int| 0 <= m < k ==> (#[trigger] fsm.available@[m]).0 != node.raft_id
            } ==> cpu_left(fsm, nodes.push(node)) == cpu_left(fsm, nodes)
                + fsm.available@[k].1.cpu_available && memory_left(fsm, nodes.push(node))
                == memory_left(fsm, nodes) + fsm.available@[k].1.memory_available,
        (forall|k: int| 0 <= k < fsm.available@.len() ==> (#[trigger] fsm.available@[k]).0
            != node.raft_id) ==> cpu_left(fsm, nodes.push(node)) == cpu_left(fsm, nodes)
            && memory_left(fsm, nodes.push(node)) == memory_left(fsm, nodes),
{
    assert(nodes.push(node).drop_last() =~= nodes);
    remainders_are_those_of_the_node(fsm.available@, node.raft_id);
}

/// How many allocations are of a task.
pub open spec fn how_many_tasks(allocs: Seq<Alloc>) -> nat
    decreases allocs.len(),
{
    if allocs.len() == 0 {
        0
    } else {
        how_many_tasks(allocs.drop_last()) + if allocs.last().kind == AllocKind::Task {
            1nat
        } else {
            0
        }
    }
}

/// The tasks that are told of are exactly the allocations of tasks.
pub proof fn tasks_are_all_told_of(allocs: Seq<Alloc>)
    ensures
        select(allocs, is_task()).len() == how_many_tasks(allocs),
        forall|i: int|
            #![trigger allocs[i]]
            0 <= i < allocs.len() ==> (select(allocs, is_task()).contains(allocs[i])
                <==> allocs[i].kind == AllocKind::Task),
    decreases allocs.len(),
{
    lemma_selected(allocs, is_task());
    if allocs.len() > 0 {
        tasks_are_all_told_of(allocs.drop_last());
    }
    let chosen = select(allocs, is_task());
    assert forall|i: int|
        #![trigger allocs[i]]
        0 <= i < allocs.len() implies (chosen.contains(allocs[i]) <==> allocs[i].kind
        == AllocKind::Task) by {
        if chosen.contains(allocs[i]) {
            let k = chosen.index_of(allocs[i]);
            assert(is_task()(chosen[k]));
        }
        if allocs[i].kind == AllocKind::Task {
            assert(is_task()(allocs[i]));
        }
    }
}

/// How many allocations of a node have neither stopped nor failed.
pub open spec fn how_many_live_on(allocs: Seq<Alloc>, node: Seq<char>) -> nat
    decreases allocs.len(),
{
    if allocs.len() == 0 {
        0
    } else {
        how_many_live_on(allocs.drop_last(), node) + if allocs.last().node@ == node && !(
        allocs.last().status is Stopped) && !(allocs.last().status is Failed) {
            1nat
        } else {
            0
        }
    }
}

proof fn lemma_living_counted(allocs: Seq<Alloc>, node: Seq<char>)
    ensures
        select(allocs, living_on(node)).len() == how_many_live_on(allocs, node),
    decreases allocs.len(),
{
    if allocs.len() > 0 {
        lemma_living_counted(allocs.drop_last(), node);
    }
}

/// What is told of a node is what the state has of it: its own name, address,
/// status and resources, what is left on it, and how many allocations live on it.
pub proof fn nodes_are_told_of_as_they_are(fsm: FsmState, node: FsmNode, res: NodeResponse)
    requires
        tells_of_node(fsm, node, res),
    ensures
        res.id@ == node.mill_id@,
        res.address@ == addr_text(node.address),
        node.status is Ready ==> res.status@ == "ready"@,
        node.status is Draining ==> res.status@ == "draining"@,
        node.status is Down ==> res.status@ == "down"@,
        res.cpu_total == node.resources.cpu_total,
        res.memory_total_bytes == node.resources.memory_total,
        res.alloc_count == how_many_live_on(fsm.allocs@, node.mill_id@),
        forall|k: int|
            {
                &&& 0 <= k < fsm.available@.len()
                &&& (#[trigger] fsm.available@[k]).0 == node.raft_id
                &&& forall|m: int| 0 <= m < k ==> (#[trigger] fsm.available@[m]).0 != node.raft_id
            } ==> res.cpu_available == fsm.available@[k].1.cpu_available
                && res.memory_available_bytes == fsm.available@[k].1.memory_available,
        (forall|k: int| 0 <= k < fsm.available@.len() ==> (#[trigger] fsm.available@[k]).0
            != node.raft_id) ==> res.cpu_available == 0 && res.memory_available_bytes == 0,
{
    remainders_are_those_of_the_node(fsm.available@, node.raft_id);
    lemma_living_counted(fsm.allocs@, node.mill_id@);
}

/// What is told of an allocation is what the state has of it: its own id, node,
/// status and resources, and its address and start where it has them.
pub proof fn allocations_are_told_of_as_they_are(alloc: Alloc, res: AllocResponse)
    requires
        tells_of_alloc(alloc, res),
    ensures
        res.id@ == alloc.id@,
        res.node@ == alloc.node@,
        alloc.status is Pulling ==> res.status@ == "pulling"@,
        alloc.status is Starting ==> res.status@ == "starting"@,
        alloc.status is Running ==> res.status@ == "running"@,
        alloc.status is Healthy ==> res.status@ == "healthy"@,
        alloc.status is Stopped ==> res.status@ == "stopped"@,
        alloc.status is Failed ==> res.status@ == "failed"@,
        res.cpu == alloc.resources.cpu,
        res.memory == alloc.resources.memory,
        res.address is Some <==> alloc.address is Some,
        alloc.address is Some ==> res.address->0@ == addr_text(alloc.address->0),
        res.started_at is Some <==> alloc.started_at is Some,
        (alloc.started_at matches Some(t) && t.secs >= 0) ==> res.started_at->0@ == timestamp(
            date_of(alloc.started_at->0.secs as int),
            alloc.started_at->0.secs as int,
        ),
{
}

/// How many allocations of a service are healthy.
pub open spec fn how_many_healthy(allocs: Seq<Alloc>, name: Seq<char>) -> nat
    decreases allocs.len(),
{
    if allocs.len() == 0 {
        0
    } else {
        let a = allocs.last();
        how_many_healthy(allocs.drop_last(), name) + if a.name@ == name && a.kind
            == AllocKind::Service && a.status is Healthy {
            1nat
        } else {
            0
        }
    }
}

proof fn lemma_healthy_counted(allocs: Seq<Alloc>, name: Seq<char>)
    ensures
        select(allocs, healthy_of(name)).len() == how_many_healthy(allocs, name),
    decreases allocs.len(),
{
    if allocs.len() > 0 {
        lemma_healthy_counted(allocs.drop_last(), name);
    }
}

/// What is told of a service is what the configuration and the state have of it:
/// its name, image and replicas, how many of them are healthy, and every one of
/// its allocations and no other.
pub proof fn services_are_told_of_as_they_are(
    fsm: FsmState,
    service: (String, ServiceDef),
    res: ServiceResponse,
    k: int,
)
    requires
        tells_of_service(fsm, service, res),
    ensures
        res.name@ == service.0@,
        res.image@ == service.1.image@,
        res.replicas.desired == service.1.replicas,
        res.replicas.healthy == how_many_healthy(fsm.allocs@, service.0@),
        forall|i: int|
            #![trigger fsm.allocs@[i]]
            0 <= i < fsm.allocs@.len() && fsm.allocs@[i].name@ == service.0@ && fsm.allocs@[i].kind
                == AllocKind::Service ==> exists|k: int|
                0 <= k < res.allocations@.len() && tells_of_alloc(
                    fsm.allocs@[i],
                    #[trigger] res.allocations@[k],
                ),
        0 <= k < res.allocations@.len() ==> exists|i: int|
            0 <= i < fsm.allocs@.len() && (#[trigger] fsm.allocs@[i]).name@ == service.0@
                && fsm.allocs@[i].kind == AllocKind::Service && tells_of_alloc(
                fsm.allocs@[i],
                res.allocations@[k],
            ),
{
    lemma_healthy_counted(fsm.allocs@, service.0@);
    let p = of_service(service.0@);
    let own = select(fsm.allocs@, p);
    lemma_selected(fsm.allocs@, p);
    assert forall|i: int|
        #![trigger fsm.allocs@[i]]
        0 <= i < fsm.allocs@.len() && fsm.allocs@[i].name@ == service.0@ && fsm.allocs@[i].kind
            == AllocKind::Service implies exists|k: int|
        0 <= k < res.allocations@.len() && tells_of_alloc(
            fsm.allocs@[i],
            #[trigger] res.allocations@[k],
        ) by {
        assert(p(fsm.allocs@[i]));
        let k = own.index_of(fsm.allocs@[i]);
        assert(tells_of_alloc(own[k], res.allocations@[k]));
    }
    if 0 <= k < res.allocations@.len() {
        assert(p(own[k]));
        let i = fsm.allocs@.index_of(own[k]);
        assert(fsm.allocs@[i] == own[k]);
    }
}

/// What is told of a volume is what the state has of it: its own name and id in
/// the cloud, and the node that it is attached to exactly where it is.
pub proof fn volumes_are_told_of_as_they_are(volume: (String, FsmVolume), res: VolumeResponse)
    requires
        tells_of_volume(volume, res),
    ensures
        res.name@ == volume.0@,
        res.cloud_id@ == volume.1.cloud_id@,
        volume.1.state is Ready ==> res.state@ == "ready"@ && res.node is None,
        volume.1.state matches VolumeState::Attached { node } ==> res.state@ == "attached"@
            && res.node is Some && res.node->0@ == node@,
{
}

/// Asking for the secrets tells all of their names, in their order.
pub proof fn all_secrets_are_named(secrets: Seq<Secret>)
    ensures
        secret_names(secrets).len() == secrets.len(),
        forall|i: int|
            0 <= i < secrets.len() ==> (#[trigger] secret_names(secrets)[i])@ == secrets[i].name@,
{
}

/// The secret that is found by a name has that name; where none is found none has.
pub proof fn secrets_are_found_by_name(fsm: FsmState, name: Seq<char>)
    ensures
        first(fsm.secrets@, called(name)) matches Some(secret) ==> secret.name@ == name
            && fsm.secrets@.contains(secret),
        first(fsm.secrets@, called(name)) is None ==> forall|i: int|
            0 <= i < fsm.secrets@.len() ==> (#[trigger] fsm.secrets@[i]).name@ != name,
{
    first_comes_before_all_others(fsm.secrets@, called(name));
}

/// The services that are counted are those of the configuration.
pub proof fn configured_services_are_counted(fsm: FsmState)
    ensures
        fsm.config is None ==> service_count(fsm) == 0,
        fsm.config is Some ==> service_count(fsm) == fsm.config->0.services@.len(),
{
}

/// A volume is deleted only where there is one of that name and it is not attached: in
/// the cloud where there is a driver, and else in the records, under its own name.
pub proof fn attached_volumes_are_not_deleted(
    fsm: FsmState,
    name: String,
    has_driver: bool,
    res: Result<VolumeDeletion, ApiError>,
    i: int,
)
    requires
        is_volume_deletion(fsm, name, has_driver, res),
    ensures
        0 <= i < fsm.volumes@.len() && fsm.volumes@[i].0@ == name@ && (forall|j: int|
            0 <= j < i ==> (#[trigger] fsm.volumes@[j]).0@ != name@) ==> {
            &&& fsm.volumes@[i].1.state is Attached ==> (res matches Err(e) && e.status == 409
                && e.error@ == "volume is attached"@)
            &&& !(fsm.volumes@[i].1.state is Attached) && has_driver ==> res is Ok
                && res->Ok_0 is Destroy
            &&& !(fsm.volumes@[i].1.state is Attached) && !has_driver ==> (
            res matches Ok(VolumeDeletion::Record(Command::VolumeDestroyed { name: recorded }))
                && recorded@ == name@)
        },
        (forall|j: int| 0 <= j < fsm.volumes@.len() ==> (#[trigger] fsm.volumes@[j]).0@ != name@)
            ==> (res matches Err(e) && e.status == 404 && e.error@ == "volume not found"@),
{
    lemma_position(fsm.volumes@, name@);
    if 0 <= i < fsm.volumes@.len() && fsm.volumes@[i].0@ == name@ && (forall|j: int|
        0 <= j < i ==> (#[trigger] fsm.volumes@[j]).0@ != name@) {
        assert(has_key(fsm.volumes@, name@));
    }
}

} // verus!
