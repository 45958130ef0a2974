//! Waiting for an allocation to run and to have an address.
use crate::config::{AllocId, AllocStatus};
use crate::error::{DeployError, NodeError};
use crate::fsm::{alloc_named, allocations_are_found_by_id, FsmState};
use crate::net::SocketAddr;
use crate::time::{Duration, Instant};
use vstd::prelude::*;

verus! {

/// What to do about an allocation that should run.
#[derive(Debug, PartialEq, Eq)]
pub enum StatusWait {
    /// The wait is over.
    Over(Result<(), DeployError>),
    /// Look again when the state changes, but wait no longer than this.
    Sleep(Duration),
}

/// What the state says of an allocation that should run: it runs or has run,
/// it failed, or nothing yet.
pub open spec fn run_outcome(fsm: FsmState, alloc_id: AllocId) -> Option<Result<(), DeployError>> {
    match alloc_named(fsm.allocs@, alloc_id@) {
        Some(a) => match a.status {
            AllocStatus::Running => Some(Ok(())),
            AllocStatus::Healthy => Some(Ok(())),
            AllocStatus::Stopped { .. } => Some(Ok(())),
            AllocStatus::Failed { reason } => Some(
                Err(
                    DeployError::Node(
                        NodeError::DeployFailed { service: alloc_id.0, reason },
                    ),
                ),
            ),
            _ => None,
        },
        None => None,
    }
}

/// The error for an allocation that did not run in time.
pub fn status_timeout(alloc_id: &AllocId) -> (res: DeployError)
    ensures
        res == (DeployError::HealthCheckTimeout { service: alloc_id.0 }),
{
    DeployError::HealthCheckTimeout { service: alloc_id.0.clone() }
}

/// Decides whether the wait for an allocation to run is over. It is over when
/// the allocation runs or has run, when it failed, and at the deadline.
pub fn wait_for_status(fsm: &FsmState, alloc_id: &AllocId, now: Instant, deadline: Instant) -> (res: StatusWait)
    ensures
        res == match run_outcome(*fsm, *alloc_id) {
            Some(outcome) => StatusWait::Over(outcome),
            None => if now.nanos >= deadline.nanos {
                StatusWait::Over(Err(DeployError::HealthCheckTimeout { service: alloc_id.0 }))
            } else {
                StatusWait::Sleep(Duration { nanos: (deadline.nanos - now.nanos) as u128 })
            },
        },
{
    if let Some(a) = fsm.find_alloc(alloc_id) {
        match &a.status {
            AllocStatus::Running => {
                return StatusWait::Over(Ok(()));
            },
            AllocStatus::Healthy => {
                return StatusWait::Over(Ok(()));
            },
            AllocStatus::Stopped { .. } => {
                return StatusWait::Over(Ok(()));
            },
            AllocStatus::Failed { reason } => {
                return StatusWait::Over(
                    Err(
                        DeployError::Node(
                            NodeError::DeployFailed {
                                service: alloc_id.0.clone(),
                                reason: reason.clone(),
                            },
                        ),
                    ),
                );
            },
            _ => {},
        }
    }
    if now.nanos >= deadline.nanos {
        StatusWait::Over(Err(status_timeout(alloc_id)))
    } else {
        StatusWait::Sleep(deadline.duration_since(now))
    }
}

/// What to do about an allocation that should have an address.
#[derive(Clone, Copy, Debug, PartialEq, Eq, Structural)]
pub enum AddressWait {
    /// The wait is over.
    Over(Option<SocketAddr>),
    /// Look again when the state changes, but wait no longer than this.
    Sleep(Duration),
}

/// The address of an allocation.
pub open spec fn address_of(fsm: FsmState, alloc_id: AllocId) -> Option<SocketAddr> {
    match alloc_named(fsm.allocs@, alloc_id@) {
        Some(a) => a.address,
        None => None,
    }
}

/// Decides whether the wait for an allocation to have an address is over: when
/// it has one, and at the deadline.
pub fn poll_for_address(fsm: &FsmState, alloc_id: &AllocId, now: Instant, deadline: Instant) -> (res: AddressWait)
    ensures
        res == match address_of(*fsm, *alloc_id) {
            Some(address) => AddressWait::Over(Some(address)),
            None => if now.nanos >= deadline.nanos {
                AddressWait::Over(None)
            } else {
                AddressWait::Sleep(Duration { nanos: (deadline.nanos - now.nanos) as u128 })
            },
        },
{
    if let Some(a) = fsm.find_alloc(alloc_id) {
        if let Some(address) = a.address {
            return AddressWait::Over(Some(address));
        }
    }
    if now.nanos >= deadline.nanos {
        AddressWait::Over(None)
    } else {
        AddressWait::Sleep(deadline.duration_since(now))
    }
}

/// The wait for an allocation is over once the state has it, the first of its
/// id, as running, healthy or stopped, and then it ended well; or as failed, and
/// then it ended with the recorded reason. Nothing else in the state ends it.
pub proof fn waits_end_by_the_recorded_status(fsm: FsmState, alloc_id: AllocId)
    ensures
        forall|i: int|
            {
                &&& 0 <= i < fsm.allocs@.len()
                &&& (#[trigger] fsm.allocs@[i]).id@ == alloc_id@
                &&& forall|j: int| 0 <= j < i ==> (#[trigger] fsm.allocs@[j]).id@ != alloc_id@
            } ==> {
                &&& match fsm.allocs@[i].status {
                    AllocStatus::Failed { reason } => run_outcome(fsm, alloc_id) matches Some(
                        Err(DeployError::Node(NodeError::DeployFailed { service, reason: why })),
                    ) && service@ == alloc_id@ && why == reason,
                    AllocStatus::Pulling => run_outcome(fsm, alloc_id) is None,
                    AllocStatus::Starting => run_outcome(fsm, alloc_id) is None,
                    _ => run_outcome(fsm, alloc_id) is Some && run_outcome(fsm, alloc_id)->0 is Ok,
                }
                &&& address_of(fsm, alloc_id) == fsm.allocs@[i].address
            },
        (forall|i: int| 0 <= i < fsm.allocs@.len() ==> (#[trigger] fsm.allocs@[i]).id@
            != alloc_id@) ==> run_outcome(fsm, alloc_id) is None && address_of(fsm, alloc_id)
            is None,
{
    allocations_are_found_by_id(fsm.allocs@, alloc_id@);
}

} // verus!
