//! Which node answers requests that change something.
use crate::fsm::{node_numbered, nodes_are_found_by_number, FsmState};
use crate::net::addr_text;
use vstd::prelude::*;
use vstd::string::*;

verus! {

/// What becomes of a request that changes something.
#[derive(Debug, PartialEq, Eq)]
pub enum LeaderDecision {
    /// This node leads: the request goes on.
    Proceed,
    /// Another node leads: the client is sent there, with status 307.
    Redirect { location: String },
    /// No leader is known: status 503.
    Unavailable,
}

/// Whether a decision is the one about a request that changes something.
pub open spec fn is_leader_decision(
    is_leader: bool,
    leader_id: Option<u64>,
    fsm: FsmState,
    target: Option<&str>,
    res: LeaderDecision,
) -> bool {
    &&& is_leader ==> res is Proceed
    &&& !is_leader ==> match leader_id {
        Some(id) => match node_numbered(fsm.nodes@, id) {
            Some(node) => res matches LeaderDecision::Redirect { location } && location@
                == "http://"@ + addr_text(node.address) + match target {
                Some(t) => t@,
                None => "/"@,
            },
            None => res is Unavailable,
        },
        None => res is Unavailable,
    }
}

/// Decides what becomes of a request that changes something. `target` is the
/// path and query of the request, where it has one.
pub fn require_leader(
    is_leader: bool,
    leader_id: Option<u64>,
    fsm: &FsmState,
    target: Option<&str>,
) -> (res: LeaderDecision)
    ensures
        is_leader_decision(is_leader, leader_id, *fsm, target, res),
{
    if is_leader {
        return LeaderDecision::Proceed;
    }
    match leader_id {
        Some(id) => match fsm.find_node(id) {
            Some(node) => {
                let mut location = "http://".to_owned();
                location.append(node.address.to_text().as_str());
                match target {
                    Some(t) => location.append(t),
                    None => location.append("/"),
                }
                LeaderDecision::Redirect { location }
            },
            None => LeaderDecision::Unavailable,
        },
        None => LeaderDecision::Unavailable,
    }
}

/// Only the leader lets a request go on; every other node sends the client to the
/// leader, with what was asked for, where the leader is known, and to no other node.
pub proof fn requests_go_to_the_leader(
    is_leader: bool,
    leader_id: Option<u64>,
    fsm: FsmState,
    target: Option<&str>,
    res: LeaderDecision,
)
    requires
        is_leader_decision(is_leader, leader_id, fsm, target, res),
    ensures
        res is Proceed <==> is_leader,
        res matches LeaderDecision::Redirect { location } ==> {
            &&& leader_id is Some
            &&& exists|i: int|
                {
                    &&& 0 <= i < fsm.nodes@.len()
                    &&& (#[trigger] fsm.nodes@[i]).raft_id == leader_id->0
                    &&& location@ == "http://"@ + addr_text(fsm.nodes@[i].address) + (
                    if target is Some {
                        target->0@
                    } else {
                        "/"@
                    })
                }
        },
        res is Unavailable ==> leader_id is None || forall|i: int|
            0 <= i < fsm.nodes@.len() ==> (#[trigger] fsm.nodes@[i]).raft_id != leader_id->0,
{
    if leader_id is Some {
        nodes_are_found_by_number(fsm.nodes@, leader_id->0);
    }
}

} // verus!
