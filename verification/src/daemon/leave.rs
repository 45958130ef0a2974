//! Leaving a cluster.
use crate::daemon::identity::NodeIdentity;
use crate::error::NodeError;
use crate::text::{chars_of, decimal, decimal_text, trim, trim_text};
use vstd::prelude::*;
use vstd::string::*;

verus! {

/// What the driver is asked to do.
#[derive(Debug, PartialEq, Eq)]
pub enum LeaveAction {
    /// Read who the node is.
    LoadIdentity,
    /// Ask the API to drain the node, and read what it sends to the end.
    Drain { base_url: String, path: String },
    /// Ask the API to take the node out of the cluster.
    RemoveNode { base_url: String, path: String },
    /// Take the mesh down; whether that works does not matter.
    TearDownMesh,
    /// Forget who the node is; whether that works does not matter.
    RemoveIdentity,
    /// Read the number of the process.
    ReadPid,
    /// Tell a process to end; whether that works does not matter.
    Terminate { pid: String },
    /// Print a line; the work has ended.
    Farewell { line: String },
    /// Nothing: the work has failed.
    Fail(NodeError),
}

/// What came of an action.
#[derive(Debug, PartialEq, Eq)]
pub enum LeaveEvent {
    /// It was done, or it does not matter.
    Done,
    /// It could not be done.
    Failed(NodeError),
    IdentityLoaded(NodeIdentity),
    /// What is written down as the number of the process, where that could be
    /// read.
    PidRead(Option<String>),
}

/// How far the work has come.
#[derive(Clone, Copy, Debug, PartialEq, Eq, Structural)]
pub enum LeavePhase {
    LoadingIdentity,
    Draining,
    RemovingNode,
    TearingDownMesh,
    RemovingIdentity,
    ReadingPid,
    Terminating,
    Ended,
}

impl LeavePhase {
    /// Whether an event answers the action that led to the phase.
    pub open spec fn expects(self, event: LeaveEvent) -> bool {
        match event {
            LeaveEvent::Failed(_) => self is LoadingIdentity || self is Draining
                || self is RemovingNode,
            LeaveEvent::IdentityLoaded(_) => self is LoadingIdentity,
            LeaveEvent::PidRead(_) => self is ReadingPid,
            LeaveEvent::Done => match self {
                LeavePhase::LoadingIdentity => false,
                LeavePhase::ReadingPid => false,
                LeavePhase::Ended => false,
                _ => true,
            },
        }
    }
}

/// Leaving a cluster: the node is drained and taken out before anything on it
/// is taken down. Its name and the API are there once they are known.
#[derive(Debug, PartialEq, Eq)]
pub struct Leave {
    pub node_id: String,
    pub base_url: String,
    pub phase: LeavePhase,
}

/// Where the API of a node is for itself.
pub open spec fn own_api(port: u16) -> Seq<char> {
    "http://127.0.0.1:"@ + decimal(port as nat)
}

/// Whether the work ends well.
pub open spec fn bids_farewell(phase: LeavePhase, action: LeaveAction) -> bool {
    &&& phase is Ended
    &&& action matches LeaveAction::Farewell { line }
    &&& line@ == "Left cluster."@
}

/// What one step does: the work and the action that follow an event.
pub open spec fn leave_step(m: Leave, event: LeaveEvent, next: Leave, action: LeaveAction) -> bool {
    let phase = next.phase;
    match event {
        LeaveEvent::Failed(error) => {
            &&& next == (Leave { phase: LeavePhase::Ended, ..m })
            &&& action == LeaveAction::Fail(error)
        },
        LeaveEvent::IdentityLoaded(identity) => {
            &&& next.node_id == identity.node_id
            &&& next.base_url@ == own_api(identity.rpc_port)
            &&& phase is Draining
            &&& action matches LeaveAction::Drain { base_url, path }
            &&& base_url == next.base_url
            &&& path@ == "/v1/nodes/"@ + identity.node_id@ + "/drain"@
        },
        LeaveEvent::PidRead(text) => {
            &&& next == (Leave { phase, ..m })
            &&& if text is Some && trim(text->0@).len() > 0 {
                &&& phase is Terminating
                &&& action matches LeaveAction::Terminate { pid }
                &&& pid@ == trim(text->0@)
            } else {
                bids_farewell(phase, action)
            }
        },
        LeaveEvent::Done => {
            &&& next == (Leave { phase, ..m })
            &&& match m.phase {
                LeavePhase::Draining => {
                    &&& phase is RemovingNode
                    &&& action matches LeaveAction::RemoveNode { base_url, path }
                    &&& base_url == m.base_url
                    &&& path@ == "/v1/nodes/"@ + m.node_id@
                },
                LeavePhase::RemovingNode => phase is TearingDownMesh && action is TearDownMesh,
                LeavePhase::TearingDownMesh => phase is RemovingIdentity
                    && action is RemoveIdentity,
                LeavePhase::RemovingIdentity => phase is ReadingPid && action is ReadPid,
                LeavePhase::Terminating => bids_farewell(phase, action),
                _ => false,
            }
        },
    }
}

impl Leave {
    /// Begins leaving, and gives the first action. Who the node is and where
    /// its API is are not known yet.
    pub fn begin() -> (res: (Leave, LeaveAction))
        ensures
            res.0.node_id@ == Seq::<char>::empty(),
            res.0.base_url@ == Seq::<char>::empty(),
            res.0.phase is LoadingIdentity,
            res.1 is LoadIdentity,
    {
        let leave = Leave {
            node_id: String::new(),
            base_url: String::new(),
            phase: LeavePhase::LoadingIdentity,
        };
        (leave, LeaveAction::LoadIdentity)
    }

    fn end(&mut self) -> (res: LeaveAction)
        ensures
            *final(self) == (Leave { phase: LeavePhase::Ended, ..*old(self) }),
            bids_farewell(final(self).phase, res),
    {
        self.phase = LeavePhase::Ended;
        LeaveAction::Farewell { line: "Left cluster.".to_owned() }
    }

    /// Takes what came of the last action and gives the next one.
    pub fn step(&mut self, event: LeaveEvent) -> (res: LeaveAction)
        requires
            old(self).phase.expects(event),
        ensures
            leave_step(*old(self), event, *final(self), res),
    {
        match (self.phase, event) {
            (_, LeaveEvent::Failed(error)) => {
                self.phase = LeavePhase::Ended;
                LeaveAction::Fail(error)
            },
            (_, LeaveEvent::IdentityLoaded(identity)) => {
                let mut base_url = "http://127.0.0.1:".to_owned();
                base_url.append(decimal_text(identity.rpc_port as u128).as_str());
                let mut path = "/v1/nodes/".to_owned();
                path.append(identity.node_id.as_str());
                path.append("/drain");
                self.node_id = identity.node_id;
                self.base_url = base_url.clone();
                self.phase = LeavePhase::Draining;
                LeaveAction::Drain { base_url, path }
            },
            (_, LeaveEvent::PidRead(text)) => {
                let pid = match text {
                    Some(text) => trim_text(text.as_str()),
                    None => String::new(),
                };
                if chars_of(pid.as_str()).len() == 0 {
                    self.end()
                } else {
                    self.phase = LeavePhase::Terminating;
                    LeaveAction::Terminate { pid }
                }
            },
            (LeavePhase::Draining, _) => {
                self.phase = LeavePhase::RemovingNode;
                let mut path = "/v1/nodes/".to_owned();
                path.append(self.node_id.as_str());
                LeaveAction::RemoveNode { base_url: self.base_url.clone(), path }
            },
            (LeavePhase::RemovingNode, _) => {
                self.phase = LeavePhase::TearingDownMesh;
                LeaveAction::TearDownMesh
            },
            (LeavePhase::TearingDownMesh, _) => {
                self.phase = LeavePhase::RemovingIdentity;
                LeaveAction::RemoveIdentity
            },
            (LeavePhase::RemovingIdentity, _) => {
                self.phase = LeavePhase::ReadingPid;
                LeaveAction::ReadPid
            },
            _ => self.end(),
        }
    }
}

/// Nothing on the node is taken down before the cluster has let it go, and a
/// failure to drain or to be let go leaves everything in place.
pub proof fn nodes_leave_before_they_go_down(
    m: Leave,
    event: LeaveEvent,
    next: Leave,
    action: LeaveAction,
)
    requires
        m.phase.expects(event),
        leave_step(m, event, next, action),
    ensures
        action is RemoveNode ==> m.phase is Draining && event is Done,
        action is TearDownMesh ==> m.phase is RemovingNode && event is Done,
        event is Failed ==> action is Fail && next.phase is Ended,
{
}

/// Leaving goes step by step: the node is drained, taken out of the cluster, its mesh
/// taken down, its identity forgotten and its process ended, each asked for under the
/// name of the node at its own API.
pub proof fn leaving_goes_step_by_step(
    m: Leave,
    event: LeaveEvent,
    next: Leave,
    action: LeaveAction,
)
    requires
        m.phase.expects(event),
        leave_step(m, event, next, action),
    ensures
        event matches LeaveEvent::IdentityLoaded(identity) ==> {
            &&& action is Drain
            &&& action->Drain_base_url@ == "http://127.0.0.1:"@ + decimal(
                identity.rpc_port as nat,
            )
            &&& action->Drain_path@ == "/v1/nodes/"@ + identity.node_id@ + "/drain"@
            &&& next.node_id == identity.node_id
            &&& next.base_url == action->Drain_base_url
        },
        m.phase is Draining && event is Done ==> {
            &&& action is RemoveNode
            &&& action->RemoveNode_base_url == m.base_url
            &&& action->RemoveNode_path@ == "/v1/nodes/"@ + m.node_id@
        },
        m.phase is RemovingNode && event is Done ==> action is TearDownMesh,
        m.phase is TearingDownMesh && event is Done ==> action is RemoveIdentity,
        m.phase is RemovingIdentity && event is Done ==> action is ReadPid,
        m.phase is Terminating && event is Done ==> action is Farewell,
        event matches LeaveEvent::PidRead(text) ==> {
            &&& text is Some && trim(text->0@).len() > 0 ==> action is Terminate
                && action->Terminate_pid@ == trim(text->0@)
            &&& text is None || trim(text->0@).len() == 0 ==> action is Farewell
        },
        event matches LeaveEvent::Failed(error) ==> action == LeaveAction::Fail(error),
        !(event is IdentityLoaded) ==> next.node_id == m.node_id && next.base_url == m.base_url,
{
}

} // verus!
