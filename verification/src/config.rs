//! The data that a cluster is described with: allocations, services, tasks,
//! volumes and what containers are made from.
//!
//! CPU amounts are counted in billionths of a core, memory in bytes. Named
//! collections are lists of pairs in which each name stands once.
use crate::net::SocketAddr;
use crate::text::texts;
use crate::time::{Duration, SystemTime};
use vstd::prelude::*;

verus! {

/// The name of an allocation.
#[derive(Debug, PartialEq, Eq, Hash)]
pub struct AllocId(pub String);

impl View for AllocId {
    type V = Seq<char>;

    open spec fn view(&self) -> Seq<char> {
        self.0@
    }
}

impl Clone for AllocId {
    fn clone(&self) -> (res: AllocId)
        ensures
            res == *self,
    {
        AllocId(self.0.clone())
    }
}

impl AllocId {
    /// Whether both name the same allocation.
    pub fn same(&self, other: &AllocId) -> (res: bool)
        ensures
            res == (self@ == other@),
    {
        self.0 == other.0
    }
}

/// The name of a node.
#[derive(Debug, PartialEq, Eq, Hash)]
pub struct NodeId(pub String);

impl View for NodeId {
    type V = Seq<char>;

    open spec fn view(&self) -> Seq<char> {
        self.0@
    }
}

impl Clone for NodeId {
    fn clone(&self) -> (res: NodeId)
        ensures
            res == *self,
    {
        NodeId(self.0.clone())
    }
}

impl NodeId {
    /// Whether both name the same node.
    pub fn same(&self, other: &NodeId) -> (res: bool)
        ensures
            res == (self@ == other@),
    {
        self.0 == other.0
    }
}

/// Whether an allocation keeps running or is done when its command ends.
#[derive(Clone, Copy, Debug, PartialEq, Eq, Hash, Structural)]
pub enum AllocKind {
    Service,
    Task,
}

/// How far an allocation has come.
#[derive(Debug, PartialEq, Eq, Hash)]
pub enum AllocStatus {
    Pulling,
    Starting,
    Running,
    Healthy,
    Stopped { exit_code: i32 },
    Failed { reason: String },
}

impl Clone for AllocStatus {
    fn clone(&self) -> (res: AllocStatus)
        ensures
            res == *self,
    {
        match self {
            AllocStatus::Pulling => AllocStatus::Pulling,
            AllocStatus::Starting => AllocStatus::Starting,
            AllocStatus::Running => AllocStatus::Running,
            AllocStatus::Healthy => AllocStatus::Healthy,
            AllocStatus::Stopped { exit_code } => AllocStatus::Stopped { exit_code: *exit_code },
            AllocStatus::Failed { reason } => AllocStatus::Failed { reason: reason.clone() },
        }
    }
}

impl AllocStatus {
    /// Whether the container runs.
    pub open spec fn active(self) -> bool {
        self is Running || self is Healthy
    }

    /// Whether the container has ended for good.
    pub open spec fn terminal(self) -> bool {
        self is Stopped || self is Failed
    }

    /// The word for the status.
    pub open spec fn word(self) -> Seq<char> {
        match self {
            AllocStatus::Pulling => "pulling"@,
            AllocStatus::Starting => "starting"@,
            AllocStatus::Running => "running"@,
            AllocStatus::Healthy => "healthy"@,
            AllocStatus::Stopped { .. } => "stopped"@,
            AllocStatus::Failed { .. } => "failed"@,
        }
    }

    /// Whether the container runs.
    pub fn is_active(&self) -> (res: bool)
        ensures
            res == self.active(),
    {
        match self {
            AllocStatus::Running => true,
            AllocStatus::Healthy => true,
            _ => false,
        }
    }

    /// Whether the container has ended for good.
    pub fn is_terminal(&self) -> (res: bool)
        ensures
            res == self.terminal(),
    {
        match self {
            AllocStatus::Stopped { .. } => true,
            AllocStatus::Failed { .. } => true,
            _ => false,
        }
    }

    /// The word for the status.
    pub fn to_text(&self) -> (res: String)
        ensures
            res@ == self.word(),
    {
        match self {
            AllocStatus::Pulling => "pulling".to_owned(),
            AllocStatus::Starting => "starting".to_owned(),
            AllocStatus::Running => "running".to_owned(),
            AllocStatus::Healthy => "healthy".to_owned(),
            AllocStatus::Stopped { .. } => "stopped".to_owned(),
            AllocStatus::Failed { .. } => "failed".to_owned(),
        }
    }
}

/// Whether a node takes work.
#[derive(Clone, Copy, Debug, PartialEq, Eq, Hash, Structural)]
pub enum NodeStatus {
    Ready,
    Draining,
    Down,
}

impl NodeStatus {
    /// The word for the status.
    pub open spec fn word(self) -> Seq<char> {
        match self {
            NodeStatus::Ready => "ready"@,
            NodeStatus::Draining => "draining"@,
            NodeStatus::Down => "down"@,
        }
    }

    /// The word for the status.
    pub fn to_text(&self) -> (res: String)
        ensures
            res@ == self.word(),
    {
        match self {
            NodeStatus::Ready => "ready".to_owned(),
            NodeStatus::Draining => "draining".to_owned(),
            NodeStatus::Down => "down".to_owned(),
        }
    }
}

/// Whether a volume is in use, and where.
#[derive(Debug, PartialEq, Eq, Hash)]
pub enum VolumeState {
    Ready,
    Attached { node: NodeId },
}

impl Clone for VolumeState {
    fn clone(&self) -> (res: VolumeState)
        ensures
            res == *self,
    {
        match self {
            VolumeState::Ready => VolumeState::Ready,
            VolumeState::Attached { node } => VolumeState::Attached { node: node.clone() },
        }
    }
}

impl VolumeState {
    /// The word for the state.
    pub open spec fn word(self) -> Seq<char> {
        match self {
            VolumeState::Ready => "ready"@,
            VolumeState::Attached { .. } => "attached"@,
        }
    }

    /// The word for the state.
    pub fn to_text(&self) -> (res: String)
        ensures
            res@ == self.word(),
    {
        match self {
            VolumeState::Ready => "ready".to_owned(),
            VolumeState::Attached { .. } => "attached".to_owned(),
        }
    }
}

/// What an allocation needs: CPU in billionths of a core, memory in bytes.
#[derive(Clone, Copy, Debug, PartialEq, Eq, Hash, Structural)]
pub struct Resources {
    pub cpu: u64,
    pub memory: u64,
}

/// What a node has: CPU in billionths of a core, memory in bytes.
#[derive(Clone, Copy, Debug, PartialEq, Eq, Hash, Structural)]
pub struct NodeResources {
    pub cpu_total: u64,
    pub cpu_available: u64,
    pub memory_total: u64,
    pub memory_available: u64,
}

/// One container of the cluster.
#[derive(Debug, PartialEq, Eq)]
pub struct Alloc {
    pub id: AllocId,
    pub node: NodeId,
    pub name: String,
    pub kind: AllocKind,
    pub status: AllocStatus,
    pub address: Option<SocketAddr>,
    pub resources: Resources,
    pub started_at: Option<SystemTime>,
}

/// A piece of an environment value.
#[derive(Debug, PartialEq, Eq, Hash)]
pub enum EnvPart {
    Literal(String),
    ServiceAddress { service: String },
    Secret { name: String },
}

/// What an `EnvPart` says.
#[verifier::ext_equal]
pub enum EnvPartView {
    Literal(Seq<char>),
    ServiceAddress(Seq<char>),
    Secret(Seq<char>),
}

impl View for EnvPart {
    type V = EnvPartView;

    open spec fn view(&self) -> EnvPartView {
        match *self {
            EnvPart::Literal(s) => EnvPartView::Literal(s@),
            EnvPart::ServiceAddress { service } => EnvPartView::ServiceAddress(service@),
            EnvPart::Secret { name } => EnvPartView::Secret(name@),
        }
    }
}

impl Clone for EnvPart {
    fn clone(&self) -> (res: EnvPart)
        ensures
            res == *self,
    {
        match self {
            EnvPart::Literal(s) => EnvPart::Literal(s.clone()),
            EnvPart::ServiceAddress { service } => EnvPart::ServiceAddress {
                service: service.clone(),
            },
            EnvPart::Secret { name } => EnvPart::Secret { name: name.clone() },
        }
    }
}

impl EnvPart {
    /// Whether both say the same.
    pub fn same(&self, other: &EnvPart) -> (res: bool)
        ensures
            res == (self@ == other@),
    {
        match (self, other) {
            (EnvPart::Literal(a), EnvPart::Literal(b)) => *a == *b,
            (EnvPart::ServiceAddress { service: a }, EnvPart::ServiceAddress { service: b }) => *a
                == *b,
            (EnvPart::Secret { name: a }, EnvPart::Secret { name: b }) => *a == *b,
            _ => false,
        }
    }
}

/// An environment value: a text, or pieces put together when the container
/// starts.
#[derive(Debug, PartialEq, Eq, Hash)]
pub enum EnvValue {
    Literal(String),
    Interpolated { parts: Vec<EnvPart> },
}

/// What an `EnvValue` says.
#[verifier::ext_equal]
pub enum EnvValueView {
    Literal(Seq<char>),
    Interpolated(Seq<EnvPartView>),
}

/// What several parts say.
pub open spec fn part_views(parts: Seq<EnvPart>) -> Seq<EnvPartView> {
    Seq::new(parts.len(), |i: int| parts[i]@)
}

impl View for EnvValue {
    type V = EnvValueView;

    open spec fn view(&self) -> EnvValueView {
        match *self {
            EnvValue::Literal(s) => EnvValueView::Literal(s@),
            EnvValue::Interpolated { parts } => EnvValueView::Interpolated(part_views(parts@)),
        }
    }
}

impl Clone for EnvValue {
    fn clone(&self) -> (res: EnvValue)
        ensures
            res@ == self@,
    {
        match self {
            EnvValue::Literal(s) => EnvValue::Literal(s.clone()),
            EnvValue::Interpolated { parts } => {
                let mut copy: Vec<EnvPart> = Vec::new();
                let mut i: usize = 0;
                while i < parts.len()
                    invariant
                        i <= parts@.len(),
                        copy@ == parts@.take(i as int),
                    decreases parts@.len() - i,
                {
                    copy.push(parts[i].clone());
                    i = i + 1;
                    assert(copy@ =~= parts@.take(i as int));
                }
                assert(copy@ =~= parts@);
                EnvValue::Interpolated { parts: copy }
            },
        }
    }
}

impl EnvValue {
    /// Whether both say the same.
    pub fn same(&self, other: &EnvValue) -> (res: bool)
        ensures
            res == (self@ == other@),
    {
        match (self, other) {
            (EnvValue::Literal(a), EnvValue::Literal(b)) => *a == *b,
            (EnvValue::Interpolated { parts: a }, EnvValue::Interpolated { parts: b }) => same_parts(
                a,
                b,
            ),
            _ => false,
        }
    }
}

/// Whether both lists of parts say the same.
fn same_parts(a: &Vec<EnvPart>, b: &Vec<EnvPart>) -> (res: bool)
    ensures
        res == (part_views(a@) == part_views(b@)),
{
    let ghost x = part_views(a@);
    let ghost y = part_views(b@);
    if a.len() != b.len() {
        assert(x.len() != y.len());
        return false;
    }
    let mut i: usize = 0;
    while i < a.len()
        invariant
            a@.len() == b@.len(),
            i <= a@.len(),
            x == part_views(a@),
            y == part_views(b@),
            forall|j: int| 0 <= j < i ==> x[j] == y[j],
        decreases a@.len() - i,
    {
        if !a[i].same(&b[i]) {
            assert(x[i as int] != y[i as int]);
            return false;
        }
        i = i + 1;
    }
    assert(x =~= y);
    true
}

/// How to ask a service whether it is healthy.
#[derive(Debug, PartialEq, Eq)]
pub struct HealthCheck {
    pub path: String,
    pub interval: Duration,
    pub failure_threshold: u32,
}

/// What a `HealthCheck` says.
pub struct HealthCheckView {
    pub path: Seq<char>,
    pub interval: Duration,
    pub failure_threshold: u32,
}

impl View for HealthCheck {
    type V = HealthCheckView;

    open spec fn view(&self) -> HealthCheckView {
        HealthCheckView {
            path: self.path@,
            interval: self.interval,
            failure_threshold: self.failure_threshold,
        }
    }
}

impl Clone for HealthCheck {
    fn clone(&self) -> (res: HealthCheck)
        ensures
            res == *self,
    {
        HealthCheck {
            path: self.path.clone(),
            interval: self.interval,
            failure_threshold: self.failure_threshold,
        }
    }
}

/// A name and path under which the proxy offers a service.
#[derive(Debug, PartialEq, Eq)]
pub struct RouteDef {
    pub hostname: String,
    pub path: String,
    pub websocket: bool,
}

/// What a `RouteDef` says.
pub struct RouteView {
    pub hostname: Seq<char>,
    pub path: Seq<char>,
    pub websocket: bool,
}

impl View for RouteDef {
    type V = RouteView;

    open spec fn view(&self) -> RouteView {
        RouteView { hostname: self.hostname@, path: self.path@, websocket: self.websocket }
    }
}

impl Clone for RouteDef {
    fn clone(&self) -> (res: RouteDef)
        ensures
            res == *self,
    {
        RouteDef {
            hostname: self.hostname.clone(),
            path: self.path.clone(),
            websocket: self.websocket,
        }
    }
}

/// A volume that a service asks for; its size in bytes where it is given.
#[derive(Debug, PartialEq, Eq)]
pub struct VolumeDef {
    pub name: String,
    pub path: String,
    pub ephemeral: bool,
    pub size: Option<u64>,
}

/// What a `VolumeDef` says.
pub struct VolumeDefView {
    pub name: Seq<char>,
    pub path: Seq<char>,
    pub ephemeral: bool,
    pub size: Option<u64>,
}

impl View for VolumeDef {
    type V = VolumeDefView;

    open spec fn view(&self) -> VolumeDefView {
        VolumeDefView {
            name: self.name@,
            path: self.path@,
            ephemeral: self.ephemeral,
            size: self.size,
        }
    }
}

impl Clone for VolumeDef {
    fn clone(&self) -> (res: VolumeDef)
        ensures
            res == *self,
    {
        VolumeDef {
            name: self.name.clone(),
            path: self.path.clone(),
            ephemeral: self.ephemeral,
            size: self.size,
        }
    }
}

/// What several routes say.
pub open spec fn route_views(v: Seq<RouteDef>) -> Seq<RouteView> {
    Seq::new(v.len(), |i: int| v[i]@)
}

/// What several volumes say.
pub open spec fn volume_views(v: Seq<VolumeDef>) -> Seq<VolumeDefView> {
    Seq::new(v.len(), |i: int| v[i]@)
}

/// Where the pair for `key` stands, or the number of pairs where there is
/// none.
pub open spec fn position<T>(pairs: Seq<(String, T)>, key: Seq<char>) -> int
    decreases pairs.len(),
{
    if pairs.len() == 0 {
        0
    } else if position(pairs.drop_last(), key) < pairs.len() - 1 {
        position(pairs.drop_last(), key)
    } else if pairs.last().0@ == key {
        pairs.len() - 1
    } else {
        pairs.len() as int
    }
}

/// Whether there is a pair for `key`.
pub open spec fn has_key<T>(pairs: Seq<(String, T)>, key: Seq<char>) -> bool {
    exists|i: int| 0 <= i < pairs.len() && (#[trigger] pairs[i]).0@ == key
}

/// Whether each name stands once.
pub open spec fn keys_distinct<T>(pairs: Seq<(String, T)>) -> bool {
    forall|i: int, j: int|
        0 <= i < j < pairs.len() ==> (#[trigger] pairs[i]).0@ != (#[trigger] pairs[j]).0@
}

/// What environment variables say, by name.
pub open spec fn env_map(env: Seq<(String, EnvValue)>) -> Map<Seq<char>, EnvValueView> {
    Map::new(|k: Seq<char>| has_key(env, k), |k: Seq<char>| env[position(env, k)].1@)
}

/// What an optional command says.
pub open spec fn command_view(command: Option<Vec<String>>) -> Option<Seq<Seq<char>>> {
    match command {
        Some(words) => Some(texts(words@)),
        None => None,
    }
}

/// A pair for a key stands at its position.
pub proof fn lemma_position<T>(pairs: Seq<(String, T)>, key: Seq<char>)
    ensures
        0 <= position(pairs, key) <= pairs.len(),
        has_key(pairs, key) <==> position(pairs, key) < pairs.len(),
        has_key(pairs, key) ==> pairs[position(pairs, key)].0@ == key,
        forall|j: int|
            0 <= j < position(pairs, key) ==> (#[trigger] pairs[j]).0@ != key,
    decreases pairs.len(),
{
    if pairs.len() > 0 {
        let rest = pairs.drop_last();
        lemma_position(rest, key);
        if has_key(rest, key) {
            let i = choose|i: int| 0 <= i < rest.len() && (#[trigger] rest[i]).0@ == key;
            assert(pairs[i].0@ == key);
        }
        assert forall|j: int| 0 <= j < position(pairs, key) implies (#[trigger] pairs[j]).0@
            != key by {
            if j < rest.len() {
                assert(rest[j] == pairs[j]);
            }
        }
        if has_key(pairs, key) {
            let i = choose|i: int| 0 <= i < pairs.len() && (#[trigger] pairs[i]).0@ == key;
            if i < rest.len() {
                assert(rest[i].0@ == key);
            }
        }
    }
}

/// Where the pair for `key` stands.
pub fn find<T>(pairs: &Vec<(String, T)>, key: &String) -> (res: Option<usize>)
    ensures
        match res {
            Some(i) => i < pairs@.len() && i == position(pairs@, key@) && has_key(pairs@, key@)
                && pairs@[i as int].0@ == key@,
            None => !has_key(pairs@, key@),
        },
{
    proof {
        lemma_position(pairs@, key@);
    }
    let mut i: usize = 0;
    while i < pairs.len()
        invariant
            i <= pairs@.len(),
            forall|j: int| 0 <= j < i ==> (#[trigger] pairs@[j]).0@ != key@,
            0 <= position(pairs@, key@) <= pairs@.len(),
            has_key(pairs@, key@) ==> pairs@[position(pairs@, key@)].0@ == key@,
            forall|j: int|
                0 <= j < position(pairs@, key@) ==> (#[trigger] pairs@[j]).0@ != key@,
        decreases pairs@.len() - i,
    {
        if pairs[i].0 == *key {
            assert(has_key(pairs@, key@));
            return Some(i);
        }
        i = i + 1;
    }
    None
}

/// Whether no key stands twice.
pub fn names_once<T>(pairs: &Vec<(String, T)>) -> (res: bool)
    ensures
        res == keys_distinct(pairs@),
{
    let mut j: usize = 0;
    while j < pairs.len()
        invariant
            j <= pairs@.len(),
            forall|a: int, b: int|
                0 <= a < b < j ==> (#[trigger] pairs@[a]).0@ != (#[trigger] pairs@[b]).0@,
        decreases pairs@.len() - j,
    {
        let mut i: usize = 0;
        while i < j
            invariant
                i <= j < pairs@.len(),
                forall|a: int| 0 <= a < i ==> (#[trigger] pairs@[a]).0@ != pairs@[j as int].0@,
            decreases j - i,
        {
            if pairs[i].0 == pairs[j].0 {
                assert(pairs@[i as int].0@ == pairs@[j as int].0@);
                return false;
            }
            i = i + 1;
        }
        j = j + 1;
    }
    true
}

/// A copy of several texts.
pub fn copy_texts(v: &Vec<String>) -> (res: Vec<String>)
    ensures
        res@ == v@,
{
    let mut out: Vec<String> = Vec::new();
    let mut i: usize = 0;
    while i < v.len()
        invariant
            i <= v@.len(),
            out@ == v@.take(i as int),
        decreases v@.len() - i,
    {
        out.push(v[i].clone());
        i = i + 1;
        assert(out@ =~= v@.take(i as int));
    }
    assert(out@ =~= v@);
    out
}

/// Whether both lists of texts say the same.
fn same_texts(a: &Vec<String>, b: &Vec<String>) -> (res: bool)
    ensures
        res == (texts(a@) == texts(b@)),
{
    let ghost x = texts(a@);
    let ghost y = texts(b@);
    if a.len() != b.len() {
        assert(x.len() != y.len());
        return false;
    }
    let mut i: usize = 0;
    while i < a.len()
        invariant
            a@.len() == b@.len(),
            i <= a@.len(),
            x == texts(a@),
            y == texts(b@),
            forall|j: int| 0 <= j < i ==> x[j] == y[j],
        decreases a@.len() - i,
    {
        if a[i] != b[i] {
            assert(x[i as int] != y[i as int]);
            return false;
        }
        i = i + 1;
    }
    assert(x =~= y);
    true
}

/// A copy of an optional command.
pub fn copy_command(command: &Option<Vec<String>>) -> (res: Option<Vec<String>>)
    ensures
        command_view(res) == command_view(*command),
{
    match command {
        Some(words) => Some(copy_texts(words)),
        None => None,
    }
}

/// Whether both optional commands say the same.
fn same_command(a: &Option<Vec<String>>, b: &Option<Vec<String>>) -> (res: bool)
    ensures
        res == (command_view(*a) == command_view(*b)),
{
    match (a, b) {
        (Some(x), Some(y)) => same_texts(x, y),
        (None, None) => true,
        _ => false,
    }
}

/// A copy of environment variables.
pub fn copy_env(env: &Vec<(String, EnvValue)>) -> (res: Vec<(String, EnvValue)>)
    ensures
        res@.len() == env@.len(),
        forall|i: int|
            0 <= i < env@.len() ==> (#[trigger] res@[i]).0 == env@[i].0 && res@[i].1@
                == env@[i].1@,
        env_map(res@) == env_map(env@),
        keys_distinct(env@) ==> keys_distinct(res@),
{
    let mut out: Vec<(String, EnvValue)> = Vec::new();
    let mut i: usize = 0;
    while i < env.len()
        invariant
            i <= env@.len(),
            out@.len() == i,
            forall|j: int|
                0 <= j < i ==> (#[trigger] out@[j]).0 == env@[j].0 && out@[j].1@ == env@[j].1@,
        decreases env@.len() - i,
    {
        out.push((env[i].0.clone(), env[i].1.clone()));
        i = i + 1;
    }
    proof {
        lemma_same_env(out@, env@);
    }
    out
}

/// Variables with the same names and values in the same order say the same.
proof fn lemma_same_env(a: Seq<(String, EnvValue)>, b: Seq<(String, EnvValue)>)
    requires
        a.len() == b.len(),
        forall|i: int|
            0 <= i < b.len() ==> (#[trigger] a[i]).0 == b[i].0 && a[i].1@ == b[i].1@,
    ensures
        env_map(a) == env_map(b),
{
    assert forall|k: Seq<char>| has_key(a, k) == has_key(b, k) by {
        if has_key(a, k) {
            let i = choose|i: int| 0 <= i < a.len() && (#[trigger] a[i]).0@ == k;
            assert(b[i].0@ == k);
        }
        if has_key(b, k) {
            let i = choose|i: int| 0 <= i < b.len() && (#[trigger] b[i]).0@ == k;
            assert(a[i].0@ == k);
        }
    }
    assert forall|k: Seq<char>| has_key(a, k) implies a[position(a, k)].1@ == b[position(
        b,
        k,
    )].1@ by {
        lemma_position(a, k);
        lemma_position(b, k);
        let i = position(a, k);
        let j = position(b, k);
        assert(a[i].0 == b[i].0);
        assert(a[j].0 == b[j].0);
        assert(i == j);
    }
    assert(env_map(a) =~= env_map(b));
}

/// Whether both sets of environment variables say the same.
fn same_env(a: &Vec<(String, EnvValue)>, b: &Vec<(String, EnvValue)>) -> (res: bool)
    requires
        keys_distinct(a@),
        keys_distinct(b@),
    ensures
        res == (env_map(a@) == env_map(b@)),
{
    let ghost x = env_map(a@);
    let ghost y = env_map(b@);
    let mut i: usize = 0;
    while i < a.len()
        invariant
            i <= a@.len(),
            x == env_map(a@),
            y == env_map(b@),
            keys_distinct(a@),
            forall|j: int|
                0 <= j < i ==> has_key(b@, (#[trigger] a@[j]).0@) && a@[j].1@ == b@[position(
                    b@,
                    a@[j].0@,
                )].1@,
        decreases a@.len() - i,
    {
        let ghost key = a@[i as int].0@;
        proof {
            lemma_position(a@, key);
            lemma_position(b@, key);
            assert(has_key(a@, key));
            assert(position(a@, key) == i);
            assert(x.dom().contains(key));
            assert(x[key] == a@[i as int].1@);
        }
        match find(b, &a[i].0) {
            None => {
                assert(!y.dom().contains(key));
                return false;
            },
            Some(k) => {
                assert(y[key] == b@[k as int].1@);
                if !a[i].1.same(&b[k].1) {
                    return false;
                }
            },
        }
        i = i + 1;
    }
    let mut i: usize = 0;
    while i < b.len()
        invariant
            i <= b@.len(),
            x == env_map(a@),
            y == env_map(b@),
            forall|j: int| 0 <= j < i ==> has_key(a@, (#[trigger] b@[j]).0@),
        decreases b@.len() - i,
    {
        let ghost key = b@[i as int].0@;
        assert(has_key(b@, key));
        assert(y.dom().contains(key));
        if find(a, &b[i].0).is_none() {
            assert(!x.dom().contains(key));
            return false;
        }
        i = i + 1;
    }
    proof {
        assert forall|k: Seq<char>| x.dom().contains(k) == y.dom().contains(k) by {
            lemma_position(a@, k);
            lemma_position(b@, k);
        }
        assert forall|k: Seq<char>| x.dom().contains(k) implies x[k] == y[k] by {
            lemma_position(a@, k);
            let j = position(a@, k);
            assert(a@[j].0@ == k);
        }
        assert(x =~= y);
    }
    true
}

/// A long-running service.
#[derive(Debug, PartialEq, Eq)]
pub struct ServiceDef {
    pub image: String,
    pub port: u16,
    pub replicas: u32,
    pub resources: Resources,
    pub env: Vec<(String, EnvValue)>,
    pub command: Option<Vec<String>>,
    pub health: Option<HealthCheck>,
    pub routes: Vec<RouteDef>,
    pub volumes: Vec<VolumeDef>,
}

/// What a `ServiceDef` says.
pub struct ServiceView {
    pub image: Seq<char>,
    pub port: u16,
    pub replicas: u32,
    pub resources: Resources,
    pub env: Map<Seq<char>, EnvValueView>,
    pub command: Option<Seq<Seq<char>>>,
    pub health: Option<HealthCheckView>,
    pub routes: Seq<RouteView>,
    pub volumes: Seq<VolumeDefView>,
}

/// What an optional health check says.
pub open spec fn health_view(health: Option<HealthCheck>) -> Option<HealthCheckView> {
    match health {
        Some(check) => Some(check@),
        None => None,
    }
}

impl View for ServiceDef {
    type V = ServiceView;

    open spec fn view(&self) -> ServiceView {
        ServiceView {
            image: self.image@,
            port: self.port,
            replicas: self.replicas,
            resources: self.resources,
            env: env_map(self.env@),
            command: command_view(self.command),
            health: health_view(self.health),
            routes: route_views(self.routes@),
            volumes: volume_views(self.volumes@),
        }
    }
}

/// A copy of an optional health check.
pub fn copy_health(health: &Option<HealthCheck>) -> (res: Option<HealthCheck>)
    ensures
        res == *health,
{
    match health {
        Some(check) => Some(check.clone()),
        None => None,
    }
}

fn same_health(a: &Option<HealthCheck>, b: &Option<HealthCheck>) -> (res: bool)
    ensures
        res == (health_view(*a) == health_view(*b)),
{
    match (a, b) {
        (Some(x), Some(y)) => x.path == y.path && x.interval == y.interval && x.failure_threshold
            == y.failure_threshold,
        (None, None) => true,
        _ => false,
    }
}

fn copy_routes(v: &Vec<RouteDef>) -> (res: Vec<RouteDef>)
    ensures
        res@ == v@,
{
    let mut out: Vec<RouteDef> = Vec::new();
    let mut i: usize = 0;
    while i < v.len()
        invariant
            i <= v@.len(),
            out@ == v@.take(i as int),
        decreases v@.len() - i,
    {
        out.push(v[i].clone());
        i = i + 1;
        assert(out@ =~= v@.take(i as int));
    }
    assert(out@ =~= v@);
    out
}

fn same_routes(a: &Vec<RouteDef>, b: &Vec<RouteDef>) -> (res: bool)
    ensures
        res == (route_views(a@) == route_views(b@)),
{
    let ghost x = route_views(a@);
    let ghost y = route_views(b@);
    if a.len() != b.len() {
        assert(x.len() != y.len());
        return false;
    }
    let mut i: usize = 0;
    while i < a.len()
        invariant
            a@.len() == b@.len(),
            i <= a@.len(),
            x == route_views(a@),
            y == route_views(b@),
            forall|j: int| 0 <= j < i ==> x[j] == y[j],
        decreases a@.len() - i,
    {
        if a[i].hostname != b[i].hostname || a[i].path != b[i].path || a[i].websocket
            != b[i].websocket {
            assert(x[i as int] != y[i as int]);
            return false;
        }
        i = i + 1;
    }
    assert(x =~= y);
    true
}

fn copy_volumes(v: &Vec<VolumeDef>) -> (res: Vec<VolumeDef>)
    ensures
        res@ == v@,
{
    let mut out: Vec<VolumeDef> = Vec::new();
    let mut i: usize = 0;
    while i < v.len()
        invariant
            i <= v@.len(),
            out@ == v@.take(i as int),
        decreases v@.len() - i,
    {
        out.push(v[i].clone());
        i = i + 1;
        assert(out@ =~= v@.take(i as int));
    }
    assert(out@ =~= v@);
    out
}

fn same_volumes(a: &Vec<VolumeDef>, b: &Vec<VolumeDef>) -> (res: bool)
    ensures
        res == (volume_views(a@) == volume_views(b@)),
{
    let ghost x = volume_views(a@);
    let ghost y = volume_views(b@);
    if a.len() != b.len() {
        assert(x.len() != y.len());
        return false;
    }
    let mut i: usize = 0;
    while i < a.len()
        invariant
            a@.len() == b@.len(),
            i <= a@.len(),
            x == volume_views(a@),
            y == volume_views(b@),
            forall|j: int| 0 <= j < i ==> x[j] == y[j],
        decreases a@.len() - i,
    {
        if a[i].name != b[i].name || a[i].path != b[i].path || a[i].ephemeral != b[i].ephemeral
            || a[i].size != b[i].size {
            assert(x[i as int] != y[i as int]);
            return false;
        }
        i = i + 1;
    }
    assert(x =~= y);
    true
}

impl Clone for ServiceDef {
    fn clone(&self) -> (res: ServiceDef)
        ensures
            res@ == self@,
            res.wf() == self.wf(),
    {
        let res = ServiceDef {
            image: self.image.clone(),
            port: self.port,
            replicas: self.replicas,
            resources: self.resources,
            env: copy_env(&self.env),
            command: copy_command(&self.command),
            health: copy_health(&self.health),
            routes: copy_routes(&self.routes),
            volumes: copy_volumes(&self.volumes),
        };
        assert(keys_distinct(res.env@) ==> keys_distinct(self.env@)) by {
            assert forall|i: int, j: int| 0 <= i < j < self.env@.len() && keys_distinct(
                res.env@,
            ) implies (#[trigger] self.env@[i]).0@ != (#[trigger] self.env@[j]).0@ by {
                assert(res.env@[i].0 == self.env@[i].0);
                assert(res.env@[j].0 == self.env@[j].0);
            }
        }
        res
    }
}

impl ServiceDef {
    /// Whether each environment variable stands once.
    pub open spec fn wf(&self) -> bool {
        keys_distinct(self.env@)
    }

    /// Whether both say the same.
    pub fn same(&self, other: &ServiceDef) -> (res: bool)
        requires
            self.wf(),
            other.wf(),
        ensures
            res == (self@ == other@),
    {
        self.image == other.image && self.port == other.port && self.replicas == other.replicas
            && self.resources == other.resources && same_env(&self.env, &other.env)
            && same_command(&self.command, &other.command) && same_health(
            &self.health,
            &other.health,
        ) && same_routes(&self.routes, &other.routes) && same_volumes(
            &self.volumes,
            &other.volumes,
        )
    }
}

/// A task that services or operators start by name.
#[derive(Debug, PartialEq, Eq)]
pub struct TaskDef {
    pub image: String,
    pub resources: Resources,
    pub env: Vec<(String, EnvValue)>,
    pub timeout: Duration,
    pub command: Option<Vec<String>>,
}

/// What the cluster should run.
#[derive(Debug, PartialEq, Eq)]
pub struct ClusterConfig {
    pub services: Vec<(String, ServiceDef)>,
    pub tasks: Vec<(String, TaskDef)>,
}

impl ClusterConfig {
    /// Whether each service, each task and each of their environment
    /// variables stands once.
    pub open spec fn wf(&self) -> bool {
        &&& keys_distinct(self.services@)
        &&& keys_distinct(self.tasks@)
        &&& forall|i: int| 0 <= i < self.services@.len() ==> (#[trigger] self.services@[i]).1.wf()
        &&& forall|i: int|
            0 <= i < self.tasks@.len() ==> keys_distinct((#[trigger] self.tasks@[i]).1.env@)
    }

    /// Whether everything has one name.
    pub fn is_wf(&self) -> (res: bool)
        ensures
            res == self.wf(),
    {
        if !names_once(&self.services) || !names_once(&self.tasks) {
            return false;
        }
        let mut i: usize = 0;
        while i < self.services.len()
            invariant
                i <= self.services@.len(),
                forall|j: int| 0 <= j < i ==> (#[trigger] self.services@[j]).1.wf(),
            decreases self.services@.len() - i,
        {
            if !names_once(&self.services[i].1.env) {
                assert(!self.services@[i as int].1.wf());
                return false;
            }
            i = i + 1;
        }
        let mut k: usize = 0;
        while k < self.tasks.len()
            invariant
                k <= self.tasks@.len(),
                forall|j: int| 0 <= j < k ==> keys_distinct((#[trigger] self.tasks@[j]).1.env@),
            decreases self.tasks@.len() - k,
        {
            if !names_once(&self.tasks[k].1.env) {
                assert(!keys_distinct(self.tasks@[k as int].1.env@));
                return false;
            }
            k = k + 1;
        }
        true
    }

    /// Whether there is a service of the given name.
    pub open spec fn has_service(&self, name: Seq<char>) -> bool {
        has_key(self.services@, name)
    }

    /// The definition of the service of the given name.
    pub open spec fn service(&self, name: Seq<char>) -> ServiceDef {
        self.services@[position(self.services@, name)].1
    }

    /// Whether there is a task of the given name.
    pub open spec fn has_task(&self, name: Seq<char>) -> bool {
        has_key(self.tasks@, name)
    }

    /// The definition of the task of the given name.
    pub open spec fn task(&self, name: Seq<char>) -> TaskDef {
        self.tasks@[position(self.tasks@, name)].1
    }

    /// The definition of the service of the given name, where there is one.
    pub fn find_service(&self, name: &String) -> (res: Option<&ServiceDef>)
        ensures
            res is Some <==> self.has_service(name@),
            res is Some ==> *res->0 == self.service(name@),
            res is Some && self.wf() ==> res->0.wf(),
    {
        match find(&self.services, name) {
            Some(i) => Some(&self.services[i].1),
            None => None,
        }
    }

    /// The definition of the task of the given name, where there is one.
    pub fn find_task(&self, name: &String) -> (res: Option<&TaskDef>)
        ensures
            res is Some <==> self.has_task(name@),
            res is Some ==> *res->0 == self.task(name@),
            res is Some && self.wf() ==> keys_distinct(res->0.env@),
    {
        match find(&self.tasks, name) {
            Some(i) => Some(&self.tasks[i].1),
            None => None,
        }
    }
}

/// A volume as a container sees it.
#[derive(Debug, PartialEq, Eq)]
pub struct ContainerVolume {
    pub name: String,
    pub path: String,
    pub ephemeral: bool,
}

/// What a container is made from. The environment is fully resolved.
#[derive(Debug, PartialEq, Eq)]
pub struct ContainerSpec {
    pub alloc_id: AllocId,
    pub kind: AllocKind,
    pub timeout: Option<Duration>,
    pub command: Option<Vec<String>>,
    pub image: String,
    pub env: Vec<(String, String)>,
    pub port: Option<u16>,
    pub host_port: Option<u16>,
    pub cpu: u64,
    pub memory: u64,
    pub volumes: Vec<ContainerVolume>,
}

/// What a container uses: CPU in billionths (of a core, or of a second where
/// it is cumulative), memory in bytes.
#[derive(Debug, PartialEq, Eq)]
pub struct ContainerStats {
    pub alloc_id: AllocId,
    pub cpu_usage: u64,
    pub memory_usage: u64,
}

impl Clone for ContainerStats {
    fn clone(&self) -> (res: ContainerStats)
        ensures
            res == *self,
    {
        ContainerStats {
            alloc_id: self.alloc_id.clone(),
            cpu_usage: self.cpu_usage,
            memory_usage: self.memory_usage,
        }
    }
}

/// The addresses under a name.
#[derive(Debug, PartialEq, Eq)]
pub struct DnsRecord {
    pub name: String,
    pub addresses: Vec<SocketAddr>,
}

/// One backend of a route of the proxy.
#[derive(Debug, PartialEq, Eq)]
pub struct ProxyRoute {
    pub hostname: String,
    pub path: String,
    pub backend: SocketAddr,
    pub websocket: bool,
}

/// Which output a log line came from.
#[derive(Clone, Copy, Debug, PartialEq, Eq, Hash, Structural)]
pub enum LogStream {
    Stdout,
    Stderr,
}

/// A line that a container wrote.
#[derive(Debug, PartialEq, Eq)]
pub struct LogLine {
    pub timestamp: SystemTime,
    pub stream: LogStream,
    pub content: String,
}

impl Clone for LogLine {
    fn clone(&self) -> (res: LogLine)
        ensures
            res == *self,
    {
        LogLine { timestamp: self.timestamp, stream: self.stream, content: self.content.clone() }
    }
}

/// Two values that say the same are of the same kind and hold the same texts in
/// the same order.
pub proof fn values_that_say_the_same_agree(a: EnvValue, b: EnvValue)
    requires
        a@ == b@,
    ensures
        match (a, b) {
            (EnvValue::Literal(x), EnvValue::Literal(y)) => x@ == y@,
            (EnvValue::Interpolated { parts: x }, EnvValue::Interpolated { parts: y }) => {
                &&& x@.len() == y@.len()
                &&& forall|i: int|
                    0 <= i < x@.len() ==> match (#[trigger] x@[i], y@[i]) {
                        (EnvPart::Literal(s), EnvPart::Literal(t)) => s@ == t@,
                        (
                            EnvPart::ServiceAddress { service: s },
                            EnvPart::ServiceAddress { service: t },
                        ) => s@ == t@,
                        (EnvPart::Secret { name: s }, EnvPart::Secret { name: t }) => s@ == t@,
                        _ => false,
                    }
            },
            _ => false,
        },
{
    if let (EnvValue::Interpolated { parts: x }, EnvValue::Interpolated { parts: y }) = (a, b) {
        assert(part_views(x@).len() == part_views(y@).len());
        assert forall|i: int| 0 <= i < x@.len() implies match (#[trigger] x@[i], y@[i]) {
            (EnvPart::Literal(s), EnvPart::Literal(t)) => s@ == t@,
            (EnvPart::ServiceAddress { service: s }, EnvPart::ServiceAddress { service: t }) => s@
                == t@,
            (EnvPart::Secret { name: s }, EnvPart::Secret { name: t }) => s@ == t@,
            _ => false,
        } by {
            assert(part_views(x@)[i] == part_views(y@)[i]);
        }
    }
}

/// Two definitions of a service that say the same agree in everything: image,
/// port, replicas, resources, command, health check, routes, volumes and
/// variables. Where any of these differs, they do not say the same.
pub proof fn definitions_that_say_the_same_agree(a: ServiceDef, b: ServiceDef)
    requires
        a@ == b@,
    ensures
        a.image@ == b.image@,
        a.port == b.port,
        a.replicas == b.replicas,
        a.resources.cpu == b.resources.cpu,
        a.resources.memory == b.resources.memory,
        a.command is Some <==> b.command is Some,
        a.command is Some ==> a.command->0@.len() == b.command->0@.len() && forall|i: int|
            0 <= i < a.command->0@.len() ==> (#[trigger] a.command->0@[i])@ == b.command->0@[i]@,
        a.health is Some <==> b.health is Some,
        a.health is Some ==> a.health->0.path@ == b.health->0.path@ && a.health->0.interval
            == b.health->0.interval && a.health->0.failure_threshold
            == b.health->0.failure_threshold,
        a.routes@.len() == b.routes@.len(),
        forall|i: int|
            0 <= i < a.routes@.len() ==> (#[trigger] a.routes@[i]).hostname@
                == b.routes@[i].hostname@ && a.routes@[i].path@ == b.routes@[i].path@
                && a.routes@[i].websocket == b.routes@[i].websocket,
        a.volumes@.len() == b.volumes@.len(),
        forall|i: int|
            0 <= i < a.volumes@.len() ==> (#[trigger] a.volumes@[i]).name@ == b.volumes@[i].name@
                && a.volumes@[i].path@ == b.volumes@[i].path@ && a.volumes@[i].ephemeral
                == b.volumes@[i].ephemeral && a.volumes@[i].size == b.volumes@[i].size,
        forall|i: int| 0 <= i < a.env@.len() ==> has_key(b.env@, (#[trigger] a.env@[i]).0@),
        forall|j: int| 0 <= j < b.env@.len() ==> has_key(a.env@, (#[trigger] b.env@[j]).0@),
        a.wf() && b.wf() ==> forall|i: int, j: int|
            0 <= i < a.env@.len() && 0 <= j < b.env@.len() && (#[trigger] a.env@[i]).0@ == (
            #[trigger] b.env@[j]).0@ ==> a.env@[i].1@ == b.env@[j].1@,
{
    assert(route_views(a.routes@).len() == route_views(b.routes@).len());
    assert forall|i: int| 0 <= i < a.routes@.len() implies (#[trigger] a.routes@[i])@
        == b.routes@[i]@ by {
        assert(route_views(a.routes@)[i] == route_views(b.routes@)[i]);
    }
    assert(volume_views(a.volumes@).len() == volume_views(b.volumes@).len());
    assert forall|i: int| 0 <= i < a.volumes@.len() implies (#[trigger] a.volumes@[i])@
        == b.volumes@[i]@ by {
        assert(volume_views(a.volumes@)[i] == volume_views(b.volumes@)[i]);
    }
    if a.command is Some {
        let x = command_view(a.command)->0;
        let y = command_view(b.command)->0;
        assert(x.len() == y.len());
        assert forall|i: int| 0 <= i < a.command->0@.len() implies (
        #[trigger] a.command->0@[i])@ == b.command->0@[i]@ by {
            assert(x[i] == y[i]);
        }
    }
    let m = env_map(a.env@);
    let n = env_map(b.env@);
    assert(m == n);
    assert forall|i: int| 0 <= i < a.env@.len() implies has_key(
        b.env@,
        (#[trigger] a.env@[i]).0@,
    ) by {
        assert(m.dom().contains(a.env@[i].0@));
        assert(n.dom().contains(a.env@[i].0@));
    }
    assert forall|j: int| 0 <= j < b.env@.len() implies has_key(
        a.env@,
        (#[trigger] b.env@[j]).0@,
    ) by {
        assert(n.dom().contains(b.env@[j].0@));
        assert(m.dom().contains(b.env@[j].0@));
    }
    if a.wf() && b.wf() {
        assert forall|i: int, j: int|
            0 <= i < a.env@.len() && 0 <= j < b.env@.len() && (#[trigger] a.env@[i]).0@ == (
            #[trigger] b.env@[j]).0@ implies a.env@[i].1@ == b.env@[j].1@ by {
            let key = a.env@[i].0@;
            lemma_position(a.env@, key);
            lemma_position(b.env@, key);
            assert(m.dom().contains(key));
            assert(m[key] == n[key]);
        }
    }
}

/// A container runs exactly while it is running or healthy, and has ended for
/// good exactly once it has stopped or failed: never both, and neither before it
/// runs.
pub proof fn statuses_follow_one_another(status: AllocStatus)
    ensures
        status.active() <==> match status {
            AllocStatus::Running => true,
            AllocStatus::Healthy => true,
            AllocStatus::Pulling => false,
            AllocStatus::Starting => false,
            AllocStatus::Stopped { .. } => false,
            AllocStatus::Failed { .. } => false,
        },
        status.terminal() <==> match status {
            AllocStatus::Stopped { .. } => true,
            AllocStatus::Failed { .. } => true,
            AllocStatus::Running => false,
            AllocStatus::Healthy => false,
            AllocStatus::Pulling => false,
            AllocStatus::Starting => false,
        },
{
}

/// No two statuses go by the same word, but for their codes and reasons.
pub proof fn words_tell_statuses_apart(a: AllocStatus, b: AllocStatus)
    requires
        a.word() == b.word(),
    ensures
        a is Pulling <==> b is Pulling,
        a is Starting <==> b is Starting,
        a is Running <==> b is Running,
        a is Healthy <==> b is Healthy,
        a is Stopped <==> b is Stopped,
        a is Failed <==> b is Failed,
{
    reveal_strlit("pulling");
    reveal_strlit("starting");
    reveal_strlit("running");
    reveal_strlit("healthy");
    reveal_strlit("stopped");
    reveal_strlit("failed");
    let x = a.word();
    let y = b.word();
    assert(x[0] == y[0] && x[1] == y[1] && x[2] == y[2]);
}

} // verus!
