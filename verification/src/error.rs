//! What can go wrong, and the words for it.
use crate::text::decimal;
use crate::text::decimal_text;
use vstd::prelude::*;
use vstd::string::*;

verus! {

/// Errors from the node runtime. Where the error came from elsewhere, its
/// words are kept.
#[allow(inconsistent_fields)]
#[derive(Debug, PartialEq, Eq)]
pub enum NodeError {
    Containerd(String),
    Net(String),
    Raft(String),
    Bind { address: String, source: String },
    PortExhaustion,
    AllocNotFound(String),
    ServiceNotFound(String),
    NotATask { alloc_id: String },
    RaftRejected(String),
    BadRequest(String),
    AllocAlreadyExists(String),
    NodeUnreachable(String),
    Io(String),
    Internal(String),
    ChannelClosed,
    DeployFailed { service: String, reason: String },
}

/// Two texts one after another.
fn pair(a: &str, b: &String) -> (res: String)
    ensures
        res@ == a@ + b@,
{
    let mut out = a.to_owned();
    out.append(b.as_str());
    out
}

impl NodeError {
    /// The words for the error.
    pub open spec fn message(self) -> Seq<char> {
        match self {
            NodeError::Containerd(e) => e@,
            NodeError::Net(e) => e@,
            NodeError::Raft(e) => e@,
            NodeError::Bind { address, .. } => "failed to bind "@ + address@,
            NodeError::PortExhaustion => "no ports available"@,
            NodeError::AllocNotFound(id) => "allocation not found: "@ + id@,
            NodeError::ServiceNotFound(name) => "service not found: "@ + name@,
            NodeError::NotATask { alloc_id } => "allocation "@ + alloc_id@ + " is not a task"@,
            NodeError::RaftRejected(e) => "raft rejected: "@ + e@,
            NodeError::BadRequest(e) => "bad request: "@ + e@,
            NodeError::AllocAlreadyExists(id) => "allocation already exists: "@ + id@,
            NodeError::NodeUnreachable(id) => "node unreachable: "@ + id@,
            NodeError::Io(e) => "i/o error: "@ + e@,
            NodeError::Internal(e) => "internal error: "@ + e@,
            NodeError::ChannelClosed => "channel closed"@,
            NodeError::DeployFailed { service, reason } => "deploy failed for "@ + service@ + ": "@
                + reason@,
        }
    }

    /// The words for the error.
    pub fn to_text(&self) -> (res: String)
        ensures
            res@ == self.message(),
    {
        match self {
            NodeError::Containerd(e) => e.clone(),
            NodeError::Net(e) => e.clone(),
            NodeError::Raft(e) => e.clone(),
            NodeError::Bind { address, .. } => pair("failed to bind ", address),
            NodeError::PortExhaustion => "no ports available".to_owned(),
            NodeError::AllocNotFound(id) => pair("allocation not found: ", id),
            NodeError::ServiceNotFound(name) => pair("service not found: ", name),
            NodeError::NotATask { alloc_id } => {
                let mut out = pair("allocation ", alloc_id);
                out.append(" is not a task");
                out
            },
            NodeError::RaftRejected(e) => pair("raft rejected: ", e),
            NodeError::BadRequest(e) => pair("bad request: ", e),
            NodeError::AllocAlreadyExists(id) => pair("allocation already exists: ", id),
            NodeError::NodeUnreachable(id) => pair("node unreachable: ", id),
            NodeError::Io(e) => pair("i/o error: ", e),
            NodeError::Internal(e) => pair("internal error: ", e),
            NodeError::ChannelClosed => "channel closed".to_owned(),
            NodeError::DeployFailed { service, reason } => {
                let mut out = pair("deploy failed for ", service);
                out.append(": ");
                out.append(reason.as_str());
                out
            },
        }
    }
}

impl Clone for NodeError {
    fn clone(&self) -> (res: NodeError)
        ensures
            res == *self,
    {
        match self {
            NodeError::Containerd(e) => NodeError::Containerd(e.clone()),
            NodeError::Net(e) => NodeError::Net(e.clone()),
            NodeError::Raft(e) => NodeError::Raft(e.clone()),
            NodeError::Bind { address, source } => NodeError::Bind {
                address: address.clone(),
                source: source.clone(),
            },
            NodeError::PortExhaustion => NodeError::PortExhaustion,
            NodeError::AllocNotFound(id) => NodeError::AllocNotFound(id.clone()),
            NodeError::ServiceNotFound(name) => NodeError::ServiceNotFound(name.clone()),
            NodeError::NotATask { alloc_id } => NodeError::NotATask { alloc_id: alloc_id.clone() },
            NodeError::RaftRejected(e) => NodeError::RaftRejected(e.clone()),
            NodeError::BadRequest(e) => NodeError::BadRequest(e.clone()),
            NodeError::AllocAlreadyExists(id) => NodeError::AllocAlreadyExists(id.clone()),
            NodeError::NodeUnreachable(id) => NodeError::NodeUnreachable(id.clone()),
            NodeError::Io(e) => NodeError::Io(e.clone()),
            NodeError::Internal(e) => NodeError::Internal(e.clone()),
            NodeError::ChannelClosed => NodeError::ChannelClosed,
            NodeError::DeployFailed { service, reason } => NodeError::DeployFailed {
                service: service.clone(),
                reason: reason.clone(),
            },
        }
    }
}

/// Errors from volume storage operations.
#[derive(Debug, PartialEq, Eq)]
pub enum StorageError {
    NotFound(String),
    AlreadyExists(String),
    Attached(String),
    Api(String),
    Http(String),
}

impl StorageError {
    /// The words for the error.
    pub open spec fn message(self) -> Seq<char> {
        match self {
            StorageError::NotFound(name) => "volume not found: "@ + name@,
            StorageError::AlreadyExists(name) => "volume already exists: "@ + name@,
            StorageError::Attached(name) => "volume is attached: "@ + name@,
            StorageError::Api(e) => "api error: "@ + e@,
            StorageError::Http(e) => e@,
        }
    }

    /// The words for the error.
    pub fn to_text(&self) -> (res: String)
        ensures
            res@ == self.message(),
    {
        match self {
            StorageError::NotFound(name) => pair("volume not found: ", name),
            StorageError::AlreadyExists(name) => pair("volume already exists: ", name),
            StorageError::Attached(name) => pair("volume is attached: ", name),
            StorageError::Api(e) => pair("api error: ", e),
            StorageError::Http(e) => e.clone(),
        }
    }
}

impl Clone for StorageError {
    fn clone(&self) -> (res: StorageError)
        ensures
            res == *self,
    {
        match self {
            StorageError::NotFound(e) => StorageError::NotFound(e.clone()),
            StorageError::AlreadyExists(e) => StorageError::AlreadyExists(e.clone()),
            StorageError::Attached(e) => StorageError::Attached(e.clone()),
            StorageError::Api(e) => StorageError::Api(e.clone()),
            StorageError::Http(e) => StorageError::Http(e.clone()),
        }
    }
}

/// Errors specific to the deploy process.
#[derive(Debug, PartialEq, Eq)]
pub enum DeployError {
    SchedulingFailed { service: String, replica: u32 },
    HealthCheckTimeout { service: String },
    EnvResolution(String),
    ValidationFailed(String),
    Node(NodeError),
    Storage(StorageError),
}

impl DeployError {
    /// The words for the error.
    pub open spec fn message(self) -> Seq<char> {
        match self {
            DeployError::SchedulingFailed { service, replica } => "scheduling failed for "@
                + service@ + ", replica "@ + decimal(replica as nat) + ": no nodes available"@,
            DeployError::HealthCheckTimeout { service } => "health check timeout for "@ + service@,
            DeployError::EnvResolution(e) => "failed to resolve env var: "@ + e@,
            DeployError::ValidationFailed(e) => "deploy validation failed: "@ + e@,
            DeployError::Node(e) => e.message(),
            DeployError::Storage(e) => e.message(),
        }
    }

    /// The words for the error.
    pub fn to_text(&self) -> (res: String)
        ensures
            res@ == self.message(),
    {
        match self {
            DeployError::SchedulingFailed { service, replica } => {
                let mut out = pair("scheduling failed for ", service);
                out.append(", replica ");
                out.append(decimal_text(*replica as u128).as_str());
                out.append(": no nodes available");
                out
            },
            DeployError::HealthCheckTimeout { service } => pair(
                "health check timeout for ",
                service,
            ),
            DeployError::EnvResolution(e) => pair("failed to resolve env var: ", e),
            DeployError::ValidationFailed(e) => pair("deploy validation failed: ", e),
            DeployError::Node(e) => e.to_text(),
            DeployError::Storage(e) => e.to_text(),
        }
    }
}

impl Clone for DeployError {
    fn clone(&self) -> (res: DeployError)
        ensures
            res == *self,
    {
        match self {
            DeployError::SchedulingFailed { service, replica } => DeployError::SchedulingFailed {
                service: service.clone(),
                replica: *replica,
            },
            DeployError::HealthCheckTimeout { service } => DeployError::HealthCheckTimeout {
                service: service.clone(),
            },
            DeployError::EnvResolution(e) => DeployError::EnvResolution(e.clone()),
            DeployError::ValidationFailed(e) => DeployError::ValidationFailed(e.clone()),
            DeployError::Node(e) => DeployError::Node(e.clone()),
            DeployError::Storage(e) => DeployError::Storage(e.clone()),
        }
    }
}

/// The words for an error hold what it is about, and an error within another keeps its
/// own words.
pub proof fn words_hold_what_an_error_is_about(text: String, other: String, replica: u32)
    ensures
        NodeError::Containerd(text).message() == text@,
        NodeError::Net(text).message() == text@,
        NodeError::Raft(text).message() == text@,
        (NodeError::Bind { address: text, source: other }).message() == "failed to bind "@ + text@,
        NodeError::AllocNotFound(text).message() == "allocation not found: "@ + text@,
        NodeError::ServiceNotFound(text).message() == "service not found: "@ + text@,
        (NodeError::NotATask { alloc_id: text }).message() == "allocation "@ + text@
            + " is not a task"@,
        NodeError::RaftRejected(text).message() == "raft rejected: "@ + text@,
        NodeError::BadRequest(text).message() == "bad request: "@ + text@,
        NodeError::AllocAlreadyExists(text).message() == "allocation already exists: "@ + text@,
        NodeError::NodeUnreachable(text).message() == "node unreachable: "@ + text@,
        NodeError::Io(text).message() == "i/o error: "@ + text@,
        NodeError::Internal(text).message() == "internal error: "@ + text@,
        NodeError::PortExhaustion.message() == "no ports available"@,
        NodeError::ChannelClosed.message() == "channel closed"@,
        (NodeError::DeployFailed { service: text, reason: other }).message()
            == "deploy failed for "@ + text@ + ": "@ + other@,
        StorageError::NotFound(text).message() == "volume not found: "@ + text@,
        StorageError::AlreadyExists(text).message() == "volume already exists: "@ + text@,
        StorageError::Attached(text).message() == "volume is attached: "@ + text@,
        StorageError::Api(text).message() == "api error: "@ + text@,
        StorageError::Http(text).message() == text@,
        (DeployError::SchedulingFailed { service: text, replica }).message()
            == "scheduling failed for "@ + text@ + ", replica "@ + decimal(replica as nat)
            + ": no nodes available"@,
        (DeployError::HealthCheckTimeout { service: text }).message()
            == "health check timeout for "@ + text@,
        DeployError::EnvResolution(text).message() == "failed to resolve env var: "@ + text@,
        DeployError::ValidationFailed(text).message() == "deploy validation failed: "@ + text@,
        forall|e: NodeError| #[trigger] DeployError::Node(e).message() == e.message(),
        forall|e: StorageError| #[trigger] DeployError::Storage(e).message() == e.message(),
{
}

} // verus!
