//! Spawning and killing tasks.
use crate::config::{
    command_view, copy_command, copy_env, env_map, find, has_key, keys_distinct, lemma_position,
    position, AllocId, AllocKind, ContainerSpec, EnvValue, EnvValueView, NodeId, NodeStatus,
    Resources,
};
use crate::error::{DeployError, NodeError};
use crate::fsm::{
    alloc_named, allocations_are_found_by_id, definitions_are_found_by_name, node_named,
    nodes_are_found_by_name, Command, FsmState, Proposed,
};
use crate::net::addr_text;
use crate::primary::deploy::resolve::{
    environments_hold_all_variables, pair_texts, resolve_env, resolved, value_text,
};
use crate::primary::deploy::rollout::{alloc_name, alloc_text};
use crate::primary::deploy::start::is_placement;
use crate::primary::scheduler::{placements_have_room, schedule, ScheduleRequest};
use crate::rpc::protocol::NodeCommand;
use crate::time::Duration;
use crate::units::{
    byte_size_of, duration_of, is_readable_span, parse_byte_size, parse_duration, readable_span,
};
use vstd::prelude::*;
use vstd::string::*;

verus! {

/// A request to run a task: one from the configuration by name, or any image
/// with the given resources. CPU is in billionths of a core.
#[derive(Debug, PartialEq, Eq)]
pub struct SpawnTaskRequest {
    pub task: Option<String>,
    pub image: Option<String>,
    pub cpu: u64,
    pub memory: String,
    pub env: Vec<(String, String)>,
    pub timeout: Option<String>,
}

/// The answer to a request to run a task.
#[derive(Debug, PartialEq, Eq)]
pub struct SpawnTaskResponse {
    pub id: String,
    pub node: String,
    pub status: String,
    pub address: Option<String>,
}

/// What a task is made from.
#[derive(Debug, PartialEq, Eq)]
pub struct TaskPlan {
    pub name: String,
    pub image: String,
    pub resources: Resources,
    pub env: Vec<(String, EnvValue)>,
    pub timeout: Option<Duration>,
    pub command: Option<Vec<String>>,
}

/// Variables with others put in, each in place of one of the same name.
pub open spec fn overridden(
    env: Map<Seq<char>, EnvValueView>,
    others: Seq<(String, String)>,
) -> Map<Seq<char>, EnvValueView>
    decreases others.len(),
{
    if others.len() == 0 {
        env
    } else {
        overridden(env, others.drop_last()).insert(
            others.last().0@,
            EnvValueView::Literal(others.last().1@),
        )
    }
}

proof fn lemma_put(
    before: Seq<(String, EnvValue)>,
    after: Seq<(String, EnvValue)>,
    key: String,
    value: EnvValue,
    at: int,
)
    requires
        keys_distinct(before),
        0 <= at <= before.len(),
        at < before.len() ==> before[at].0@ == key@ && after == before.update(at, (key, value)),
        at == before.len() ==> !has_key(before, key@) && after == before.push((key, value)),
    ensures
        keys_distinct(after),
        env_map(after) == env_map(before).insert(key@, value@),
{
    let m = env_map(after);
    let n = env_map(before).insert(key@, value@);
    assert(after[at].0@ == key@);
    assert forall|i: int, j: int| 0 <= i < j < after.len() implies (#[trigger] after[i]).0@ != (
    #[trigger] after[j]).0@ by {
        if at == before.len() && j == at {
            assert(before[i].0@ != key@);
        } else {
            assert(before[i].0@ != before[j].0@);
        }
    }
    assert forall|k: Seq<char>| m.dom().contains(k) == n.dom().contains(k) by {
        lemma_position(before, k);
        lemma_position(after, k);
        if has_key(before, k) {
            let i = position(before, k);
            assert(after[i].0@ == k);
        }
        if has_key(after, k) && k != key@ {
            let i = position(after, k);
            assert(before[i].0@ == k);
        }
    }
    assert forall|k: Seq<char>| m.dom().contains(k) implies m[k] == n[k] by {
        lemma_position(before, k);
        lemma_position(after, k);
        let i = position(after, k);
        if k == key@ {
            assert(i == at);
        } else {
            assert(before[i].0@ == k);
            let j = position(before, k);
            assert(before[j].0@ == k);
            assert(i == j);
        }
    }
    assert(m =~= n);
}

/// Puts variables in, each in place of one of the same name.
fn override_env(env: &mut Vec<(String, EnvValue)>, others: &Vec<(String, String)>)
    requires
        keys_distinct(old(env)@),
    ensures
        keys_distinct(final(env)@),
        env_map(final(env)@) == overridden(env_map(old(env)@), others@),
{
    let ghost start = env_map(env@);
    let mut i: usize = 0;
    while i < others.len()
        invariant
            i <= others@.len(),
            keys_distinct(env@),
            env_map(env@) == overridden(start, others@.take(i as int)),
        decreases others@.len() - i,
    {
        let key = others[i].0.clone();
        let value = EnvValue::Literal(others[i].1.clone());
        let ghost before = env@;
        assert(others@.take(i + 1).drop_last() =~= others@.take(i as int));
        match find(env, &key) {
            Some(at) => {
                env[at] = (key, value);
                proof {
                    lemma_put(before, env@, key, value, at as int);
                }
            },
            None => {
                env.push((key, value));
                proof {
                    lemma_put(before, env@, key, value, before.len() as int);
                }
            },
        }
        i = i + 1;
    }
    assert(others@.take(i as int) =~= others@);
}

/// What reading the texts of a request gave: its memory, where an image is
/// named, and its timeout, where it has one. An error is kept by its words.
#[derive(Debug, PartialEq, Eq)]
pub struct ReadTexts {
    pub memory: Option<Result<u64, String>>,
    pub timeout: Option<Result<Duration, String>>,
}

/// Whether texts were read as they should be.
pub open spec fn texts_match(request: SpawnTaskRequest, texts: ReadTexts) -> bool {
    &&& texts.memory is Some <==> request.image is Some
    &&& texts.timeout is Some <==> request.timeout is Some
}

/// The timeout of a task: that of the request, else that of the definition.
pub open spec fn timeout_of(
    texts: ReadTexts,
    default: Option<Duration>,
) -> Result<Option<Duration>, Seq<char>> {
    match texts.timeout {
        Some(Ok(d)) => Ok(Some(d)),
        Some(Err(e)) => Err("invalid timeout: "@ + e@),
        None => Ok(default),
    }
}

/// The timeout of a definition: none where it is zero.
pub open spec fn default_timeout(timeout: Duration) -> Option<Duration> {
    if timeout.nanos == 0 {
        None
    } else {
        Some(timeout)
    }
}

/// Whether an error is about a value of the request, with the given words.
pub open spec fn is_bad_value(error: DeployError, words: Seq<char>) -> bool {
    error matches DeployError::EnvResolution(w) && w@ == words
}

/// Whether `outcome` is what becomes of a request, once its texts are read.
pub open spec fn is_task_plan(
    fsm: FsmState,
    request: SpawnTaskRequest,
    suffix: Seq<char>,
    texts: ReadTexts,
    outcome: Result<TaskPlan, DeployError>,
) -> bool {
    match (request.task, request.image) {
        (Some(template), None) => match fsm.task(template@) {
            None => outcome == Err::<TaskPlan, DeployError>(
                DeployError::Node(NodeError::ServiceNotFound(template)),
            ),
            Some(def) => match timeout_of(texts, default_timeout(def.timeout)) {
                Err(words) => outcome is Err && is_bad_value(outcome->Err_0, words),
                Ok(timeout) => {
                    &&& outcome matches Ok(plan)
                    &&& plan.name == template
                    &&& plan.image == def.image
                    &&& plan.resources == def.resources
                    &&& keys_distinct(plan.env@)
                    &&& env_map(plan.env@) == overridden(env_map(def.env@), request.env@)
                    &&& plan.timeout == timeout
                    &&& command_view(plan.command) == command_view(def.command)
                },
            },
        },
        (None, Some(image)) => match texts.memory->0 {
            Err(e) => outcome is Err && is_bad_value(outcome->Err_0, "invalid memory: "@ + e@),
            Ok(memory) => match timeout_of(texts, None) {
                Err(words) => outcome is Err && is_bad_value(outcome->Err_0, words),
                Ok(timeout) => {
                    &&& outcome matches Ok(plan)
                    &&& plan.name@ == "task-"@ + suffix
                    &&& plan.image == image
                    &&& plan.resources == (Resources { cpu: request.cpu, memory })
                    &&& keys_distinct(plan.env@)
                    &&& env_map(plan.env@) == overridden(Map::empty(), request.env@)
                    &&& plan.timeout == timeout
                    &&& plan.command is None
                },
            },
        },
        _ => {
            &&& outcome matches Err(error)
            &&& is_not_one_of(error)
        },
    }
}

fn bad_value(what: &str, why: &String) -> (res: DeployError)
    ensures
        is_bad_value(res, what@ + why@),
{
    let mut words = what.to_owned();
    words.append(why.as_str());
    DeployError::EnvResolution(words)
}

fn pick_timeout(texts: &ReadTexts, default: Option<Duration>) -> (res: Result<
    Option<Duration>,
    DeployError,
>)
    ensures
        match timeout_of(*texts, default) {
            Ok(t) => res == Ok::<Option<Duration>, DeployError>(t),
            Err(words) => res is Err && is_bad_value(res->Err_0, words),
        },
{
    match &texts.timeout {
        Some(Ok(d)) => Ok(Some(*d)),
        Some(Err(e)) => Err(bad_value("invalid timeout: ", e)),
        None => Ok(default),
    }
}

/// Works out what a task is made from, once the texts of the request are
/// read. `suffix` makes the name of a task that has none.
pub fn assemble_task(
    fsm: &FsmState,
    request: &SpawnTaskRequest,
    suffix: &String,
    texts: &ReadTexts,
) -> (res: Result<TaskPlan, DeployError>)
    requires
        fsm.wf(),
        texts_match(*request, *texts),
    ensures
        is_task_plan(*fsm, *request, suffix@, *texts, res),
{
    match (&request.task, &request.image) {
        (Some(template), None) => match fsm.find_task(template) {
            None => Err(DeployError::Node(NodeError::ServiceNotFound(template.clone()))),
            Some(def) => {
                let default = if def.timeout.nanos == 0 {
                    None
                } else {
                    Some(def.timeout)
                };
                match pick_timeout(texts, default) {
                    Err(e) => Err(e),
                    Ok(timeout) => {
                        let mut env = copy_env(&def.env);
                        override_env(&mut env, &request.env);
                        Ok(
                            TaskPlan {
                                name: template.clone(),
                                image: def.image.clone(),
                                resources: def.resources,
                                env,
                                timeout,
                                command: copy_command(&def.command),
                            },
                        )
                    },
                }
            },
        },
        (None, Some(image)) => match texts.memory.as_ref().unwrap() {
            Ok(memory) => match pick_timeout(texts, None) {
                Err(e) => Err(e),
                Ok(timeout) => {
                    let mut name = "task-".to_owned();
                    name.append(suffix.as_str());
                    let mut env: Vec<(String, EnvValue)> = Vec::new();
                    assert(env_map(env@) =~= Map::empty());
                    override_env(&mut env, &request.env);
                    Ok(
                        TaskPlan {
                            name,
                            image: image.clone(),
                            resources: Resources { cpu: request.cpu, memory: *memory },
                            env,
                            timeout,
                            command: None,
                        },
                    )
                },
            },
            Err(e) => Err(bad_value("invalid memory: ", e)),
        },
        _ => Err(not_one_of()),
    }
}

/// What an optional result says, errors by their words.
pub open spec fn result_view<T>(r: Option<Result<T, String>>) -> Option<Result<T, Seq<char>>> {
    match r {
        Some(Ok(t)) => Some(Ok(t)),
        Some(Err(e)) => Some(Err(e@)),
        None => None,
    }
}

/// Whether the timeout of a request can be read.
pub open spec fn timeout_is_readable(request: SpawnTaskRequest) -> bool {
    request.timeout is Some ==> is_readable_span(request.timeout->0@)
}

/// Whether the texts of a request are read at all: exactly one of a task and an
/// image is named, and the task is there.
pub open spec fn texts_are_read(fsm: FsmState, request: SpawnTaskRequest) -> bool {
    match (request.task, request.image) {
        (Some(template), None) => fsm.task(template@) is Some,
        (None, Some(_)) => true,
        _ => false,
    }
}

/// Whether a request can be taken: its timeout can be read, where it is read.
pub fn can_spawn(fsm: &FsmState, request: &SpawnTaskRequest) -> (res: bool)
    requires
        fsm.wf(),
    ensures
        res == (texts_are_read(*fsm, *request) ==> timeout_is_readable(*request)),
{
    let read = match (&request.task, &request.image) {
        (Some(template), None) => fsm.find_task(template).is_some(),
        (None, Some(_)) => true,
        _ => false,
    };
    match &request.timeout {
        Some(text) => !read || readable_span(text),
        None => true,
    }
}

/// Whether an error says that not exactly one of a task and an image is named.
pub open spec fn is_not_one_of(error: DeployError) -> bool {
    error matches DeployError::Node(NodeError::BadRequest(words)) && words@
        == "must specify exactly one of 'task' or 'image'"@
}

fn not_one_of() -> (res: DeployError)
    ensures
        is_not_one_of(res),
{
    DeployError::Node(
        NodeError::BadRequest("must specify exactly one of 'task' or 'image'".to_owned()),
    )
}

/// Reads the texts of a request.
pub fn read_texts(request: &SpawnTaskRequest) -> (res: ReadTexts)
    requires
        timeout_is_readable(*request),
    ensures
        texts_match(*request, res),
        result_view(res.memory) == match request.image {
            Some(_) => Some(byte_size_of(request.memory@)),
            None => None,
        },
        result_view(res.timeout) == match request.timeout {
            Some(text) => Some(duration_of(text@)),
            None => None,
        },
{
    let memory = match &request.image {
        Some(_) => Some(parse_byte_size(&request.memory)),
        None => None,
    };
    let timeout = match &request.timeout {
        Some(text) => Some(parse_duration(text)),
        None => None,
    };
    ReadTexts { memory, timeout }
}

/// What the driver is asked to do.
#[derive(Debug, PartialEq, Eq)]
pub enum SpawnAction {
    /// Read the replicated state.
    ReadState,
    /// Propose a command.
    Propose(Command),
    /// Count a spawn of the named task.
    CountSpawn { name: String },
    /// Send a command to a node.
    Send { node: NodeId, command: NodeCommand },
    /// Wait until the allocation runs.
    AwaitRunning { alloc_id: AllocId },
    /// Kill the task when the given time has passed.
    KillAfter { alloc_id: AllocId, after: Duration },
    /// Nothing: this is the outcome.
    Finished(Result<SpawnTaskResponse, DeployError>),
}

/// What came of an action.
#[derive(Debug, PartialEq, Eq)]
pub enum SpawnEvent {
    State(FsmState),
    Proposed(Proposed),
    Counted,
    Sent(Result<(), NodeError>),
    Running(Result<(), DeployError>),
    TimerSet,
}

/// How far a spawn has come.
#[derive(Clone, Copy, Debug, PartialEq, Eq, Structural)]
pub enum SpawnPhase {
    /// A node is to be picked.
    Placing,
    /// The allocation is being recorded.
    Recording,
    /// The spawn is being counted.
    Counting,
    /// The environment is put together.
    Resolving,
    /// The node is told to run the container.
    Sending,
    /// The container comes up.
    AwaitingRun,
    /// The timer is being set.
    SettingTimer,
    /// The address is read back.
    Reporting,
    /// The outcome is known.
    Ended,
}

impl SpawnPhase {
    /// Whether an event answers the action that led to the phase.
    pub open spec fn expects(self, event: SpawnEvent) -> bool {
        match self {
            SpawnPhase::Placing => event is State,
            SpawnPhase::Recording => event is Proposed,
            SpawnPhase::Counting => event is Counted,
            SpawnPhase::Resolving => event is State,
            SpawnPhase::Sending => event is Sent,
            SpawnPhase::AwaitingRun => event is Running,
            SpawnPhase::SettingTimer => event is TimerSet,
            SpawnPhase::Reporting => event is State,
            SpawnPhase::Ended => false,
        }
    }
}

/// The spawn of a task. `node` is known once one has been picked.
#[derive(Debug, PartialEq, Eq)]
pub struct TaskSpawn {
    pub plan: TaskPlan,
    pub alloc_id: AllocId,
    pub node: NodeId,
    pub phase: SpawnPhase,
}

/// The request for a node for a task.
pub open spec fn task_request<'a>(plan: &'a TaskPlan) -> ScheduleRequest<'a> {
    ScheduleRequest {
        need: &plan.resources,
        name: &plan.name,
        kind: AllocKind::Task,
        volume: None,
    }
}

/// Whether a container is made from the plan of a task, with the given
/// environment.
pub open spec fn is_task_spec(
    spec: ContainerSpec,
    plan: TaskPlan,
    alloc_id: AllocId,
    env: Seq<(Seq<char>, Seq<char>)>,
) -> bool {
    &&& spec.alloc_id == alloc_id
    &&& spec.kind is Task
    &&& spec.timeout == plan.timeout
    &&& command_view(spec.command) == command_view(plan.command)
    &&& spec.image == plan.image
    &&& pair_texts(spec.env@) == env
    &&& spec.port is None
    &&& spec.host_port is None
    &&& spec.cpu == plan.resources.cpu
    &&& spec.memory == plan.resources.memory
    &&& spec.volumes@.len() == 0
}

/// The written address of an allocation.
pub open spec fn written_address(fsm: FsmState, alloc_id: Seq<char>) -> Option<Seq<char>> {
    match alloc_named(fsm.allocs@, alloc_id) {
        Some(a) => match a.address {
            Some(addr) => Some(addr_text(addr)),
            None => None,
        },
        None => None,
    }
}

/// What an optional text says.
pub open spec fn text_view(s: Option<String>) -> Option<Seq<char>> {
    match s {
        Some(t) => Some(t@),
        None => None,
    }
}

/// Whether a spawn ends with the given error.
pub open spec fn spawn_fails(
    spawn: TaskSpawn,
    next: TaskSpawn,
    action: SpawnAction,
    error: DeployError,
) -> bool {
    next == (TaskSpawn { phase: SpawnPhase::Ended, ..spawn }) && action == SpawnAction::Finished(
        Err(error),
    )
}

/// What follows when a node has been looked for.
pub open spec fn task_placed(
    spawn: TaskSpawn,
    fsm: FsmState,
    place: Option<NodeId>,
    next: TaskSpawn,
    action: SpawnAction,
) -> bool {
    &&& is_placement(task_request(&spawn.plan), fsm, place)
    &&& match place {
        Some(node) => match node_named(fsm.nodes@, node@) {
            Some(n) => {
                &&& next == (TaskSpawn { node, phase: SpawnPhase::Recording, ..spawn })
                &&& action == SpawnAction::Propose(
                    Command::AllocScheduled {
                        alloc_id: spawn.alloc_id,
                        node_id: n.raft_id,
                        name: spawn.plan.name,
                        kind: AllocKind::Task,
                        address: None,
                        resources: spawn.plan.resources,
                    },
                )
            },
            None => spawn_fails(
                spawn,
                next,
                action,
                DeployError::SchedulingFailed { service: spawn.plan.name, replica: 0 },
            ),
        },
        None => spawn_fails(
            spawn,
            next,
            action,
            DeployError::SchedulingFailed { service: spawn.plan.name, replica: 0 },
        ),
    }
}

/// What one step does: the spawn and the action that follow an event.
pub open spec fn spawn_step(
    spawn: TaskSpawn,
    event: SpawnEvent,
    next: TaskSpawn,
    action: SpawnAction,
) -> bool {
    match (spawn.phase, event) {
        (SpawnPhase::Placing, SpawnEvent::State(fsm)) => exists|place: Option<NodeId>| #[trigger]
            task_placed(spawn, fsm, place, next, action),
        (SpawnPhase::Recording, SpawnEvent::Proposed(outcome)) => match outcome {
            Proposed::Unreached(e) => spawn_fails(
                spawn,
                next,
                action,
                DeployError::Node(NodeError::Raft(e)),
            ),
            _ => next == (TaskSpawn { phase: SpawnPhase::Counting, ..spawn }) && action == (
            SpawnAction::CountSpawn { name: spawn.plan.name }),
        },
        (SpawnPhase::Counting, SpawnEvent::Counted) => next == (TaskSpawn {
            phase: SpawnPhase::Resolving,
            ..spawn
        }) && action is ReadState,
        (SpawnPhase::Resolving, SpawnEvent::State(fsm)) => match resolved(fsm, spawn.plan.env@) {
            Ok(env) => {
                &&& next == (TaskSpawn { phase: SpawnPhase::Sending, ..spawn })
                &&& action matches SpawnAction::Send { node, command }
                &&& node == spawn.node
                &&& command matches NodeCommand::Run { alloc_id, spec, auth }
                &&& alloc_id == spawn.alloc_id
                &&& auth is None
                &&& is_task_spec(spec, spawn.plan, spawn.alloc_id, env)
            },
            Err(words) => {
                &&& next == (TaskSpawn { phase: SpawnPhase::Ended, ..spawn })
                &&& action matches SpawnAction::Finished(Err(error))
                &&& is_bad_value(error, words)
            },
        },
        (SpawnPhase::Sending, SpawnEvent::Sent(outcome)) => match outcome {
            Ok(()) => next == (TaskSpawn { phase: SpawnPhase::AwaitingRun, ..spawn }) && action == (
            SpawnAction::AwaitRunning { alloc_id: spawn.alloc_id }),
            Err(e) => spawn_fails(spawn, next, action, DeployError::Node(e)),
        },
        (SpawnPhase::AwaitingRun, SpawnEvent::Running(outcome)) => match outcome {
            Ok(()) => match spawn.plan.timeout {
                Some(after) => next == (TaskSpawn { phase: SpawnPhase::SettingTimer, ..spawn })
                    && action == (SpawnAction::KillAfter { alloc_id: spawn.alloc_id, after }),
                None => next == (TaskSpawn { phase: SpawnPhase::Reporting, ..spawn })
                    && action is ReadState,
            },
            Err(e) => spawn_fails(spawn, next, action, e),
        },
        (SpawnPhase::SettingTimer, SpawnEvent::TimerSet) => next == (TaskSpawn {
            phase: SpawnPhase::Reporting,
            ..spawn
        }) && action is ReadState,
        (SpawnPhase::Reporting, SpawnEvent::State(fsm)) => {
            &&& next == (TaskSpawn { phase: SpawnPhase::Ended, ..spawn })
            &&& action matches SpawnAction::Finished(Ok(response))
            &&& response.id == spawn.alloc_id.0
            &&& response.node == spawn.node.0
            &&& response.status@ == "running"@
            &&& text_view(response.address) == written_address(fsm, spawn.alloc_id@)
        },
        _ => false,
    }
}

/// What a container of a task is made from.
pub fn task_spec(plan: &TaskPlan, alloc_id: &AllocId, env: Vec<(String, String)>) -> (res: ContainerSpec)
    ensures
        is_task_spec(res, *plan, *alloc_id, pair_texts(env@)),
{
    ContainerSpec {
        alloc_id: alloc_id.clone(),
        kind: AllocKind::Task,
        timeout: plan.timeout,
        command: copy_command(&plan.command),
        image: plan.image.clone(),
        env,
        port: None,
        host_port: None,
        cpu: plan.resources.cpu,
        memory: plan.resources.memory,
        volumes: Vec::new(),
    }
}

impl TaskSpawn {
    /// A spawn that has not begun. The first action is to read the state.
    /// `suffix` makes the name of the allocation.
    pub fn new(plan: TaskPlan, suffix: &String) -> (res: TaskSpawn)
        ensures
            res.plan == plan,
            res.alloc_id@ == alloc_text(plan.name@, suffix@),
            res.phase is Placing,
    {
        let alloc_id = alloc_name(&plan.name, suffix);
        TaskSpawn { plan, alloc_id, node: NodeId(String::new()), phase: SpawnPhase::Placing }
    }

    fn fail(&mut self, error: DeployError) -> (res: SpawnAction)
        ensures
            spawn_fails(*old(self), *final(self), res, error),
    {
        self.phase = SpawnPhase::Ended;
        SpawnAction::Finished(Err(error))
    }

    /// Takes what came of the last action and gives the next one.
    pub fn step(&mut self, event: SpawnEvent) -> (res: SpawnAction)
        requires
            old(self).phase.expects(event),
        ensures
            spawn_step(*old(self), event, *final(self), res),
    {
        match (self.phase, event) {
            (SpawnPhase::Placing, SpawnEvent::State(fsm)) => {
                let request = ScheduleRequest {
                    need: &self.plan.resources,
                    name: &self.plan.name,
                    kind: AllocKind::Task,
                    volume: None,
                };
                let place = schedule(
                    &request,
                    &fsm.nodes,
                    &fsm.allocs,
                    &fsm.volumes,
                    &fsm.available,
                );
                assert(is_placement(task_request(&self.plan), fsm, place));
                let ghost chosen = place;
                let number = match &place {
                    Some(node) => fsm.raft_id_for(node),
                    None => None,
                };
                match (place, number) {
                    (Some(node), Some(node_id)) => {
                        self.node = node;
                        self.phase = SpawnPhase::Recording;
                        let action = SpawnAction::Propose(
                            Command::AllocScheduled {
                                alloc_id: self.alloc_id.clone(),
                                node_id,
                                name: self.plan.name.clone(),
                                kind: AllocKind::Task,
                                address: None,
                                resources: self.plan.resources,
                            },
                        );
                        assert(task_placed(*old(self), fsm, chosen, *self, action));
                        action
                    },
                    _ => {
                        let service = self.plan.name.clone();
                        let action = self.fail(
                            DeployError::SchedulingFailed { service, replica: 0 },
                        );
                        assert(task_placed(*old(self), fsm, chosen, *self, action));
                        action
                    },
                }
            },
            (SpawnPhase::Recording, SpawnEvent::Proposed(outcome)) => match outcome {
                Proposed::Unreached(e) => self.fail(DeployError::Node(NodeError::Raft(e))),
                _ => {
                    self.phase = SpawnPhase::Counting;
                    SpawnAction::CountSpawn { name: self.plan.name.clone() }
                },
            },
            (SpawnPhase::Counting, _) => {
                self.phase = SpawnPhase::Resolving;
                SpawnAction::ReadState
            },
            (SpawnPhase::Resolving, SpawnEvent::State(fsm)) => match resolve_env(
                &fsm,
                &self.plan.env,
            ) {
                Ok(env) => {
                    let spec = task_spec(&self.plan, &self.alloc_id, env);
                    self.phase = SpawnPhase::Sending;
                    SpawnAction::Send {
                        node: self.node.clone(),
                        command: NodeCommand::Run {
                            alloc_id: self.alloc_id.clone(),
                            spec,
                            auth: None,
                        },
                    }
                },
                Err(e) => self.fail(e),
            },
            (SpawnPhase::Sending, SpawnEvent::Sent(outcome)) => match outcome {
                Ok(()) => {
                    self.phase = SpawnPhase::AwaitingRun;
                    SpawnAction::AwaitRunning { alloc_id: self.alloc_id.clone() }
                },
                Err(e) => self.fail(DeployError::Node(e)),
            },
            (SpawnPhase::AwaitingRun, SpawnEvent::Running(outcome)) => match outcome {
                Ok(()) => match self.plan.timeout {
                    Some(after) => {
                        self.phase = SpawnPhase::SettingTimer;
                        SpawnAction::KillAfter { alloc_id: self.alloc_id.clone(), after }
                    },
                    None => {
                        self.phase = SpawnPhase::Reporting;
                        SpawnAction::ReadState
                    },
                },
                Err(e) => self.fail(e),
            },
            (SpawnPhase::SettingTimer, _) => {
                self.phase = SpawnPhase::Reporting;
                SpawnAction::ReadState
            },
            (SpawnPhase::Reporting, SpawnEvent::State(fsm)) => {
                let address = match fsm.find_alloc(&self.alloc_id) {
                    Some(a) => match a.address {
                        Some(addr) => Some(addr.to_text()),
                        None => None,
                    },
                    None => None,
                };
                self.phase = SpawnPhase::Ended;
                SpawnAction::Finished(
                    Ok(
                        SpawnTaskResponse {
                            id: self.alloc_id.0.clone(),
                            node: self.node.0.clone(),
                            status: "running".to_owned(),
                            address,
                        },
                    ),
                )
            },
            _ => SpawnAction::ReadState,
        }
    }
}

/// Begins the spawn of a task: reads the texts of the request, works out what
/// the task is made from, and names the allocation. `name_suffix` makes the
/// name of a task that has none, `alloc_suffix` that of the allocation. A
/// request that does not name exactly one of a task and an image, or a task
/// that is not there, is refused whatever its texts say.
pub fn spawn_task(
    fsm: &FsmState,
    request: &SpawnTaskRequest,
    name_suffix: &String,
    alloc_suffix: &String,
) -> (res: Result<TaskSpawn, DeployError>)
    requires
        fsm.wf(),
        texts_are_read(*fsm, *request) ==> timeout_is_readable(*request),
    ensures
        (request.task is Some) == (request.image is Some) ==> (res matches Err(e) && is_not_one_of(
            e,
        )),
        request.task is Some && request.image is None && fsm.task(request.task->0@) is None ==> res
            == Err::<TaskSpawn, DeployError>(
            DeployError::Node(NodeError::ServiceNotFound(request.task->0)),
        ),
        texts_are_read(*fsm, *request) ==> exists|
            texts: ReadTexts,
            outcome: Result<TaskPlan, DeployError>,
        |
            {
                &&& #[trigger] is_task_plan(*fsm, *request, name_suffix@, texts, outcome)
                &&& texts_match(*request, texts)
                &&& request.image is Some ==> result_view(texts.memory) == Some(
                    byte_size_of(request.memory@),
                )
                &&& request.timeout is Some ==> result_view(texts.timeout) == Some(
                    duration_of(request.timeout->0@),
                )
                &&& match (outcome, res) {
                    (Ok(plan), Ok(spawn)) => {
                        &&& spawn.plan == plan
                        &&& spawn.alloc_id@ == alloc_text(plan.name@, alloc_suffix@)
                        &&& spawn.phase is Placing
                    },
                    (Err(e), Err(f)) => e == f,
                    _ => false,
                }
            },
{
    match (&request.task, &request.image) {
        (Some(template), None) => if fsm.find_task(template).is_none() {
            return Err(DeployError::Node(NodeError::ServiceNotFound(template.clone())));
        },
        (None, Some(_)) => {},
        _ => return Err(not_one_of()),
    }
    let texts = read_texts(request);
    let outcome = assemble_task(fsm, request, name_suffix, &texts);
    let ghost kept = outcome;
    assert(is_task_plan(*fsm, *request, name_suffix@, texts, kept));
    match outcome {
        Ok(plan) => Ok(TaskSpawn::new(plan, alloc_suffix)),
        Err(e) => Err(e),
    }
}

/// Whether an answer tells how to kill a task.
pub open spec fn is_task_kill(
    fsm: FsmState,
    alloc_id: String,
    res: Result<(NodeId, NodeCommand), DeployError>,
) -> bool {
    match alloc_named(fsm.allocs@, alloc_id@) {
        Some(a) => if a.kind is Task {
            res == Ok::<(NodeId, NodeCommand), DeployError>(
                (a.node, NodeCommand::Stop { alloc_id: AllocId(alloc_id) }),
            )
        } else {
            res == Err::<(NodeId, NodeCommand), DeployError>(
                DeployError::Node(NodeError::NotATask { alloc_id }),
            )
        },
        None => res == Err::<(NodeId, NodeCommand), DeployError>(
            DeployError::Node(NodeError::AllocNotFound(alloc_id)),
        ),
    }
}

/// Finds out how to kill a task: which node to send which command.
pub fn kill_task(fsm: &FsmState, alloc_id: &String) -> (res: Result<
    (NodeId, NodeCommand),
    DeployError,
>)
    ensures
        is_task_kill(*fsm, *alloc_id, res),
{
    let id = AllocId(alloc_id.clone());
    match fsm.find_alloc(&id) {
        Some(a) => if a.kind == AllocKind::Task {
            Ok((a.node.clone(), NodeCommand::Stop { alloc_id: id }))
        } else {
            Err(DeployError::Node(NodeError::NotATask { alloc_id: alloc_id.clone() }))
        },
        None => Err(DeployError::Node(NodeError::AllocNotFound(alloc_id.clone()))),
    }
}

/// The variables of a request come before those of the task: one that the
/// request gives has the value it gives last, any other keeps the task's.
pub proof fn requests_override_variables(
    env: Map<Seq<char>, EnvValueView>,
    others: Seq<(String, String)>,
    key: Seq<char>,
    i: int,
)
    requires
        -1 <= i < others.len(),
        i >= 0 ==> others[i].0@ == key,
        forall|j: int| i < j < others.len() ==> (#[trigger] others[j]).0@ != key,
    ensures
        if i >= 0 {
            &&& overridden(env, others).dom().contains(key)
            &&& overridden(env, others)[key] == EnvValueView::Literal(others[i].1@)
        } else {
            &&& overridden(env, others).dom().contains(key) == env.dom().contains(key)
            &&& overridden(env, others)[key] == env[key]
        },
    decreases others.len(),
{
    if others.len() > 0 && i < others.len() - 1 {
        assert(others.last().0@ != key);
        assert forall|j: int| i < j < others.drop_last().len() implies (
        #[trigger] others.drop_last()[j]).0@ != key by {
            assert(others[j].0@ != key);
        }
        requests_override_variables(env, others.drop_last(), key, i);
    }
}

proof fn lemma_overridden(
    env: Map<Seq<char>, EnvValueView>,
    others: Seq<(String, String)>,
    key: Seq<char>,
)
    ensures
        forall|r: int|
            {
                &&& 0 <= r < others.len()
                &&& (#[trigger] others[r]).0@ == key
                &&& forall|q: int| r < q < others.len() ==> (#[trigger] others[q]).0@ != key
            } ==> overridden(env, others).dom().contains(key) && overridden(env, others)[key]
                == EnvValueView::Literal(others[r].1@),
        (forall|r: int| 0 <= r < others.len() ==> (#[trigger] others[r]).0@ != key) ==> (overridden(
            env,
            others,
        ).dom().contains(key) <==> env.dom().contains(key)) && (env.dom().contains(key)
            ==> overridden(env, others)[key] == env[key]),
    decreases others.len(),
{
    if others.len() > 0 {
        let rest = others.drop_last();
        lemma_overridden(env, rest, key);
        let n = others.len() - 1;
        assert(others[n] == others.last());
        if others.last().0@ != key {
            assert forall|r: int|
                {
                    &&& 0 <= r < others.len()
                    &&& (#[trigger] others[r]).0@ == key
                    &&& forall|q: int| r < q < others.len() ==> (#[trigger] others[q]).0@ != key
                } implies overridden(env, others).dom().contains(key) && overridden(
                env,
                others,
            )[key] == EnvValueView::Literal(others[r].1@) by {
                assert(rest[r] == others[r]);
                assert forall|q: int| r < q < rest.len() implies (#[trigger] rest[q]).0@
                    != key by {
                    assert(rest[q] == others[q]);
                }
            }
            if forall|r: int| 0 <= r < others.len() ==> (#[trigger] others[r]).0@ != key {
                assert forall|r: int| 0 <= r < rest.len() implies (#[trigger] rest[r]).0@
                    != key by {
                    assert(rest[r] == others[r]);
                }
            }
        }
    }
}

/// Whether variables are those of a definition with those of a request put in:
/// the last one of a name in the request stands as a literal, and a variable of
/// the definition that the request does not name stands as it was.
pub open spec fn has_request_over_definition(
    plan: Map<Seq<char>, EnvValueView>,
    request: Seq<(String, String)>,
    defined: Map<Seq<char>, EnvValueView>,
    key: Seq<char>,
) -> bool {
    &&& forall|r: int|
        {
            &&& 0 <= r < request.len()
            &&& (#[trigger] request[r]).0@ == key
            &&& forall|q: int| r < q < request.len() ==> (#[trigger] request[q]).0@ != key
        } ==> plan.dom().contains(key) && plan[key] == EnvValueView::Literal(request[r].1@)
    &&& (forall|r: int| 0 <= r < request.len() ==> (#[trigger] request[r]).0@ != key) ==> (
    plan.dom().contains(key) <==> defined.dom().contains(key)) && (defined.dom().contains(key)
        ==> plan[key] == defined[key])
}

/// A task that is named runs as the configuration defines it: its image, its
/// resources, its command, its variables but for those that the request gives,
/// and its timeout but where the request gives another.
pub proof fn named_tasks_run_as_configured(
    fsm: FsmState,
    request: SpawnTaskRequest,
    suffix: Seq<char>,
    texts: ReadTexts,
    plan: TaskPlan,
    template: String,
    key: Seq<char>,
)
    requires
        is_task_plan(fsm, request, suffix, texts, Ok(plan)),
        request.task == Some(template),
    ensures
        request.image is None,
        plan.name == template,
        fsm.config is Some,
        exists|i: int|
            {
                let def = fsm.config->0.tasks@[i].1;
                &&& 0 <= i < fsm.config->0.tasks@.len()
                &&& (#[trigger] fsm.config->0.tasks@[i]).0@ == template@
                &&& plan.image@ == def.image@
                &&& plan.resources.cpu == def.resources.cpu
                &&& plan.resources.memory == def.resources.memory
                &&& plan.command is Some <==> def.command is Some
                &&& plan.command is Some ==> texts_of(plan.command->0) == texts_of(def.command->0)
                &&& match texts.timeout {
                    Some(read) => read matches Ok(d) && plan.timeout == Some(d),
                    None => if def.timeout.nanos == 0 {
                        plan.timeout is None
                    } else {
                        plan.timeout == Some(def.timeout)
                    },
                }
                &&& has_request_over_definition(
                    env_map(plan.env@),
                    request.env@,
                    env_map(def.env@),
                    key,
                )
            },
{
    definitions_are_found_by_name(fsm, template@);
    let def = fsm.task(template@)->0;
    lemma_overridden(env_map(def.env@), request.env@, key);
    let i = choose|i: int|
        0 <= i < fsm.config->0.tasks@.len() && (#[trigger] fsm.config->0.tasks@[i]).0@ == template@
            && fsm.config->0.tasks@[i].1 == def;
    assert(fsm.config->0.tasks@[i].0@ == template@);
    if plan.command is Some {
        assert(texts_of(plan.command->0) =~= command_view(plan.command)->0);
        assert(texts_of(def.command->0) =~= command_view(def.command)->0);
    }
}

/// The words of a command.
pub open spec fn texts_of(words: Vec<String>) -> Seq<Seq<char>> {
    Seq::new(words@.len(), |i: int| words@[i]@)
}

/// A task of an image runs that image with the CPU and the memory that were asked
/// for, with the variables of the request and no others, no command of its own,
/// and no timeout but the one that was asked for.
pub proof fn image_tasks_run_as_requested(
    fsm: FsmState,
    request: SpawnTaskRequest,
    suffix: Seq<char>,
    texts: ReadTexts,
    plan: TaskPlan,
    image: String,
    key: Seq<char>,
)
    requires
        is_task_plan(fsm, request, suffix, texts, Ok(plan)),
        request.image == Some(image),
    ensures
        request.task is None,
        plan.name@ == "task-"@ + suffix,
        plan.image@ == image@,
        plan.resources.cpu == request.cpu,
        texts.memory->0 == Ok::<u64, String>(plan.resources.memory),
        plan.command is None,
        texts.timeout is None ==> plan.timeout is None,
        texts.timeout is Some ==> (texts.timeout->0 matches Ok(d) && plan.timeout == Some(d)),
        has_request_over_definition(
            env_map(plan.env@),
            request.env@,
            Map::<Seq<char>, EnvValueView>::empty(),
            key,
        ),
{
    lemma_overridden(Map::<Seq<char>, EnvValueView>::empty(), request.env@, key);
}

/// The node is told to run exactly what the plan of the task says, with its
/// variables in their order, and no volume and no port.
pub proof fn tasks_run_as_planned(
    spawn: TaskSpawn,
    fsm: FsmState,
    next: TaskSpawn,
    node: NodeId,
    command: NodeCommand,
)
    requires
        spawn_step(
            spawn,
            SpawnEvent::State(fsm),
            next,
            SpawnAction::Send { node, command },
        ),
    ensures
        node == spawn.node,
        command matches NodeCommand::Run { alloc_id, spec, auth } && {
            &&& alloc_id == spawn.alloc_id
            &&& auth is None
            &&& spec.alloc_id == spawn.alloc_id
            &&& spec.kind == AllocKind::Task
            &&& spec.timeout == spawn.plan.timeout
            &&& spec.image@ == spawn.plan.image@
            &&& spec.port is None
            &&& spec.host_port is None
            &&& spec.cpu == spawn.plan.resources.cpu
            &&& spec.memory == spawn.plan.resources.memory
            &&& spec.volumes@.len() == 0
            &&& spec.command is Some <==> spawn.plan.command is Some
            &&& spec.command is Some ==> texts_of(spec.command->0) == texts_of(
                spawn.plan.command->0,
            )
            &&& spec.env@.len() == spawn.plan.env@.len()
            &&& forall|i: int|
                0 <= i < spec.env@.len() ==> (#[trigger] spec.env@[i]).0@ == spawn.plan.env@[i].0@
                    && value_text(fsm, spawn.plan.env@[i].1) == Ok::<Seq<char>, Seq<char>>(
                    spec.env@[i].1@,
                )
        },
{
    assert(spawn.phase is Resolving) by {
        if spawn.phase is Placing {
            let place = choose|place: Option<NodeId>| #[trigger]
                task_placed(
                    spawn,
                    fsm,
                    place,
                    next,
                    SpawnAction::Send { node, command },
                );
            assert(task_placed(spawn, fsm, place, next, SpawnAction::Send { node, command }));
        }
    }
    environments_hold_all_variables(fsm, spawn.plan.env@);
    let spec = command->Run_spec;
    let env = pair_texts(spec.env@);
    assert(resolved(fsm, spawn.plan.env@) == Ok::<Seq<(Seq<char>, Seq<char>)>, Seq<char>>(env));
    assert forall|i: int| 0 <= i < spec.env@.len() implies (#[trigger] spec.env@[i]).0@
        == spawn.plan.env@[i].0@ && value_text(fsm, spawn.plan.env@[i].1) == Ok::<
        Seq<char>,
        Seq<char>,
    >(spec.env@[i].1@) by {
        assert(env[i].0 == spawn.plan.env@[i].0@);
    }
    if spec.command is Some {
        assert(texts_of(spec.command->0) =~= command_view(spec.command)->0);
        assert(texts_of(spawn.plan.command->0) =~= command_view(spawn.plan.command)->0);
    }
}

/// A task is recorded only for a node that takes work and has as much CPU and
/// memory left as the task needs, under the number that the state has for that
/// node; where none is found, it is refused by its name.
pub proof fn tasks_are_recorded_where_they_fit(
    spawn: TaskSpawn,
    fsm: FsmState,
    next: TaskSpawn,
    action: SpawnAction,
)
    requires
        spawn.phase is Placing,
        spawn_step(spawn, SpawnEvent::State(fsm), next, action),
    ensures
        next.phase is Recording || action == SpawnAction::Finished(
            Err(DeployError::SchedulingFailed { service: spawn.plan.name, replica: 0 }),
        ),
        next.phase is Recording ==> {
            &&& action matches SpawnAction::Propose(
                Command::AllocScheduled { alloc_id, node_id, name, kind, address, resources },
            )
            &&& alloc_id == spawn.alloc_id
            &&& name == spawn.plan.name
            &&& kind == AllocKind::Task
            &&& address is None
            &&& resources == spawn.plan.resources
            &&& exists|n: int|
                0 <= n < fsm.nodes@.len() && (#[trigger] fsm.nodes@[n]).raft_id == node_id
                    && fsm.nodes@[n].mill_id@ == next.node@
            &&& exists|i: int, k: int|
                {
                    &&& 0 <= i < fsm.nodes@.len()
                    &&& 0 <= k < fsm.available@.len()
                    &&& (#[trigger] fsm.nodes@[i]).mill_id@ == next.node@
                    &&& fsm.nodes@[i].status == NodeStatus::Ready
                    &&& (#[trigger] fsm.available@[k]).0 == fsm.nodes@[i].raft_id
                    &&& forall|m: int|
                        0 <= m < k ==> (#[trigger] fsm.available@[m]).0 != fsm.nodes@[i].raft_id
                    &&& spawn.plan.resources.cpu <= fsm.available@[k].1.cpu_available
                    &&& spawn.plan.resources.memory <= fsm.available@[k].1.memory_available
                }
        },
{
    let place = choose|place: Option<NodeId>| #[trigger]
        task_placed(spawn, fsm, place, next, action);
    assert(task_placed(spawn, fsm, place, next, action));
    if next.phase is Recording {
        placements_have_room(
            task_request(&spawn.plan),
            fsm.nodes@,
            fsm.allocs@,
            fsm.volumes@,
            fsm.available@,
            place->0,
        );
        nodes_are_found_by_name(fsm.nodes@, place->0@);
    }
}

/// A spawn goes through all of its stages, in their order, and tells of the node
/// and the address of its own allocation: it is counted under the name of the
/// task once recorded, killed after its timeout where it has one, and what fails
/// on the way is what it ends with.
pub proof fn spawns_leave_nothing_out(
    spawn: TaskSpawn,
    event: SpawnEvent,
    next: TaskSpawn,
    action: SpawnAction,
)
    requires
        spawn_step(spawn, event, next, action),
    ensures
        next.plan == spawn.plan,
        next.alloc_id == spawn.alloc_id,
        !(spawn.phase is Placing) ==> next.node == spawn.node,
        spawn.phase is Recording && !(event->Proposed_0 is Unreached) ==> action == (
        SpawnAction::CountSpawn { name: spawn.plan.name }),
        spawn.phase is Recording ==> (event->Proposed_0 matches Proposed::Unreached(e) ==> action
            == SpawnAction::Finished(Err(DeployError::Node(NodeError::Raft(e))))),
        spawn.phase is Counting ==> next.phase is Resolving && action is ReadState,
        event matches SpawnEvent::Sent(Err(e)) ==> action == SpawnAction::Finished(
            Err(DeployError::Node(e)),
        ),
        spawn.phase is Sending && event->Sent_0 is Ok ==> action == (SpawnAction::AwaitRunning {
            alloc_id: spawn.alloc_id,
        }),
        event matches SpawnEvent::Running(Err(e)) ==> action == SpawnAction::Finished(Err(e)),
        spawn.phase is AwaitingRun && event->Running_0 is Ok ==> match spawn.plan.timeout {
            Some(after) => action == (SpawnAction::KillAfter { alloc_id: spawn.alloc_id, after }),
            None => action is ReadState && next.phase is Reporting,
        },
        spawn.phase is SettingTimer ==> next.phase is Reporting && action is ReadState,
        (action matches SpawnAction::Finished(outcome) && outcome is Ok) ==> spawn.phase
            is Reporting,
        spawn.phase is Reporting ==> (action matches SpawnAction::Finished(Ok(response)) && {
            &&& response.id@ == spawn.alloc_id@
            &&& response.node@ == spawn.node@
            &&& response.status@ == "running"@
            &&& forall|a: int|
                {
                    &&& 0 <= a < event->State_0.allocs@.len()
                    &&& (#[trigger] event->State_0.allocs@[a]).id@ == spawn.alloc_id@
                    &&& forall|b: int|
                        0 <= b < a ==> (#[trigger] event->State_0.allocs@[b]).id@
                            != spawn.alloc_id@
                } ==> match event->State_0.allocs@[a].address {
                    Some(addr) => response.address is Some && response.address->0@ == addr_text(
                        addr,
                    ),
                    None => response.address is None,
                }
        }),
{
    if spawn.phase is Placing {
        let place = choose|place: Option<NodeId>| #[trigger]
            task_placed(spawn, event->State_0, place, next, action);
        assert(task_placed(spawn, event->State_0, place, next, action));
    }
    if spawn.phase is Reporting {
        allocations_are_found_by_id(event->State_0.allocs@, spawn.alloc_id@);
    }
}

/// The texts of a request matter where it names a task that there is, or an image, and
/// not both; a timeout that is not given can always be read.
pub proof fn texts_matter_where_a_task_is_meant(fsm: FsmState, request: SpawnTaskRequest)
    ensures
        request.task is Some && request.image is Some ==> !texts_are_read(fsm, request),
        request.task is None && request.image is None ==> !texts_are_read(fsm, request),
        request.task is None && request.image is Some ==> texts_are_read(fsm, request),
        request.task is Some && request.image is None ==> (texts_are_read(fsm, request)
            <==> fsm.task(request.task->0@) is Some),
        request.timeout is None ==> timeout_is_readable(request),
{
}

/// A request is refused for one of these causes and no other: it names both a task and
/// an image or neither, there is no task of that name, its memory or its timeout could
/// not be read. Every other request is taken.
pub proof fn tasks_are_refused_for_cause(
    fsm: FsmState,
    request: SpawnTaskRequest,
    suffix: Seq<char>,
    texts: ReadTexts,
    outcome: Result<TaskPlan, DeployError>,
)
    requires
        texts_match(request, texts),
        is_task_plan(fsm, request, suffix, texts, outcome),
    ensures
        (request.task is Some) == (request.image is Some) ==> {
            &&& outcome matches Err(DeployError::Node(NodeError::BadRequest(words)))
            &&& words@ == "must specify exactly one of 'task' or 'image'"@
        },
        request.task is Some && request.image is None ==> {
            let known = fsm.config is Some && exists|i: int|
                0 <= i < fsm.config->0.tasks@.len() && (#[trigger] fsm.config->0.tasks@[i]).0@
                    == request.task->0@;
            &&& !known ==> outcome == Err::<TaskPlan, DeployError>(
                DeployError::Node(NodeError::ServiceNotFound(request.task->0)),
            )
            &&& known && !(texts.timeout is Some && texts.timeout->0 is Err) ==> outcome is Ok
        },
        request.task is None && request.image is Some ==> {
            &&& texts.memory->0 is Err ==> (outcome matches Err(DeployError::EnvResolution(words))
                && words@ == "invalid memory: "@ + texts.memory->0->Err_0@)
            &&& texts.memory->0 is Ok && !(texts.timeout is Some && texts.timeout->0 is Err)
                ==> outcome is Ok
        },
        request.image is None && outcome is Ok || request.task is None && outcome is Ok
            ==> !(texts.timeout is Some && texts.timeout->0 is Err),
        texts.timeout is Some && texts.timeout->0 is Err && request.task is None
            && request.image is Some && texts.memory->0 is Ok ==> (outcome matches Err(
            DeployError::EnvResolution(words),
        ) && words@ == "invalid timeout: "@ + texts.timeout->0->Err_0@),
{
    if request.task is Some && request.image is None {
        definitions_are_found_by_name(fsm, request.task->0@);
    }
}

/// Only tasks are killed: the command to stop the very allocation goes to the node that
/// it is on, and nothing is sent where there is no such allocation or it is a service.
pub proof fn only_tasks_are_killed(
    fsm: FsmState,
    alloc_id: String,
    res: Result<(NodeId, NodeCommand), DeployError>,
)
    requires
        is_task_kill(fsm, alloc_id, res),
    ensures
        match res {
            Ok((node, command)) => exists|i: int|
                {
                    &&& 0 <= i < fsm.allocs@.len()
                    &&& (#[trigger] fsm.allocs@[i]).id@ == alloc_id@
                    &&& fsm.allocs@[i].kind is Task
                    &&& fsm.allocs@[i].node == node
                    &&& command is Stop
                    &&& command->Stop_alloc_id@ == alloc_id@
                },
            Err(error) => {
                ||| (error matches DeployError::Node(NodeError::AllocNotFound(id)) && id@
                    == alloc_id@ && forall|i: int|
                    0 <= i < fsm.allocs@.len() ==> (#[trigger] fsm.allocs@[i]).id@ != alloc_id@)
                ||| (error matches DeployError::Node(NodeError::NotATask { alloc_id: id }) && id@
                    == alloc_id@ && exists|i: int|
                    0 <= i < fsm.allocs@.len() && (#[trigger] fsm.allocs@[i]).id@ == alloc_id@
                        && fsm.allocs@[i].kind is Service)
            },
        },
{
    allocations_are_found_by_id(fsm.allocs@, alloc_id@);
}

} // verus!
