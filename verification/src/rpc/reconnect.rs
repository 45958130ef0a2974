//! Connecting to a node again after the connection was lost.
use crate::error::NodeError;
use crate::net::{addr_text, SocketAddr};
use crate::time::Duration;
use vstd::prelude::*;

verus! {

/// The wait before the first attempt, in nanoseconds.
pub const FIRST_DELAY: u128 = 1_000_000_000;

/// The longest wait before an attempt, in nanoseconds.
pub const MAX_DELAY: u128 = 30_000_000_000;

/// What came of making a connection.
#[derive(Debug, PartialEq, Eq)]
pub enum Connected {
    Done,
    TimedOut,
    /// The words of the error.
    Failed(String),
}

/// Takes what came of making a first connection.
pub fn connect(address: SocketAddr, outcome: Connected) -> (res: Result<(), NodeError>)
    ensures
        match outcome {
            Connected::Done => res is Ok,
            Connected::TimedOut => res matches Err(NodeError::Bind { address: text, source })
                && text@ == addr_text(address) && source@ == "rpc connect timeout"@,
            Connected::Failed(e) => res matches Err(NodeError::Bind { address: text, source })
                && text@ == addr_text(address) && source == e,
        },
{
    match outcome {
        Connected::Done => Ok(()),
        Connected::TimedOut => Err(
            NodeError::Bind {
                address: address.to_text(),
                source: "rpc connect timeout".to_owned(),
            },
        ),
        Connected::Failed(source) => Err(NodeError::Bind { address: address.to_text(), source }),
    }
}

/// What the driver is asked to do.
#[derive(Clone, Copy, Debug, PartialEq, Eq, Structural)]
pub enum ReconnectAction {
    /// Wait.
    Sleep(Duration),
    /// Make a connection.
    Connect,
    /// Send the token, and read the answer.
    Authenticate,
    /// Use the connection; the work has ended.
    Wire,
    /// Nothing: the work has ended.
    Stop,
}

/// What came of an action.
#[derive(Clone, Copy, Debug, PartialEq, Eq, Structural)]
pub enum ReconnectEvent {
    Slept,
    /// The work is to end.
    Cancelled,
    /// Whether a connection was made in time.
    Connected { made: bool },
    /// Whether the token was accepted.
    Authenticated { accepted: bool },
}

/// How far the work has come.
#[derive(Clone, Copy, Debug, PartialEq, Eq, Structural)]
pub enum ReconnectPhase {
    Sleeping,
    Connecting,
    Authenticating,
    Ended,
}

impl ReconnectPhase {
    /// Whether an event answers the action that led to the phase.
    pub open spec fn expects(self, event: ReconnectEvent) -> bool {
        match event {
            ReconnectEvent::Slept => self is Sleeping,
            ReconnectEvent::Cancelled => self is Sleeping,
            ReconnectEvent::Connected { .. } => self is Connecting,
            ReconnectEvent::Authenticated { .. } => self is Authenticating,
        }
    }
}

/// Connecting again, with longer and longer waits between the attempts.
#[derive(Clone, Copy, Debug, PartialEq, Eq, Structural)]
pub struct Reconnect {
    pub delay: Duration,
    pub phase: ReconnectPhase,
}

/// Twice a wait, up to the longest.
pub open spec fn longer(delay: Duration) -> Duration {
    Duration {
        nanos: if delay.nanos * 2 <= MAX_DELAY {
            (delay.nanos * 2) as u128
        } else {
            MAX_DELAY
        },
    }
}

/// Whether another attempt is made after a longer wait.
pub open spec fn tries_again(r: Reconnect, next: Reconnect, action: ReconnectAction) -> bool {
    &&& next == (Reconnect { delay: longer(r.delay), phase: ReconnectPhase::Sleeping })
    &&& action == ReconnectAction::Sleep(longer(r.delay))
}

/// What one step does: the work and the action that follow an event.
pub open spec fn reconnect_step(
    r: Reconnect,
    event: ReconnectEvent,
    next: Reconnect,
    action: ReconnectAction,
) -> bool {
    match event {
        ReconnectEvent::Slept => next == (Reconnect { phase: ReconnectPhase::Connecting, ..r })
            && action is Connect,
        ReconnectEvent::Cancelled => next == (Reconnect { phase: ReconnectPhase::Ended, ..r })
            && action is Stop,
        ReconnectEvent::Connected { made } => if made {
            next == (Reconnect { phase: ReconnectPhase::Authenticating, ..r })
                && action is Authenticate
        } else {
            tries_again(r, next, action)
        },
        ReconnectEvent::Authenticated { accepted } => if accepted {
            next == (Reconnect { phase: ReconnectPhase::Ended, ..r }) && action is Wire
        } else {
            tries_again(r, next, action)
        },
    }
}

impl Reconnect {
    /// Whether the wait is neither too short nor too long.
    pub open spec fn wf(self) -> bool {
        FIRST_DELAY <= self.delay.nanos <= MAX_DELAY
    }

    /// Begins connecting again, and gives the first action: to wait a second.
    pub fn begin() -> (res: (Reconnect, ReconnectAction))
        ensures
            res.0.wf(),
            res.0.delay.nanos == FIRST_DELAY,
            res.0.phase is Sleeping,
            res.1 == ReconnectAction::Sleep(res.0.delay),
    {
        let delay = Duration { nanos: FIRST_DELAY };
        (Reconnect { delay, phase: ReconnectPhase::Sleeping }, ReconnectAction::Sleep(delay))
    }

    fn try_again(&mut self) -> (res: ReconnectAction)
        requires
            old(self).wf(),
        ensures
            final(self).wf(),
            tries_again(*old(self), *final(self), res),
    {
        let nanos: u128 = if self.delay.nanos * 2 <= MAX_DELAY {
            self.delay.nanos * 2
        } else {
            MAX_DELAY
        };
        self.delay = Duration { nanos };
        self.phase = ReconnectPhase::Sleeping;
        ReconnectAction::Sleep(self.delay)
    }

    /// Takes what came of the last action and gives the next one.
    pub fn step(&mut self, event: ReconnectEvent) -> (res: ReconnectAction)
        requires
            old(self).wf(),
            old(self).phase.expects(event),
        ensures
            final(self).wf(),
            reconnect_step(*old(self), event, *final(self), res),
    {
        match event {
            ReconnectEvent::Slept => {
                self.phase = ReconnectPhase::Connecting;
                ReconnectAction::Connect
            },
            ReconnectEvent::Cancelled => {
                self.phase = ReconnectPhase::Ended;
                ReconnectAction::Stop
            },
            ReconnectEvent::Connected { made } => if made {
                self.phase = ReconnectPhase::Authenticating;
                ReconnectAction::Authenticate
            } else {
                self.try_again()
            },
            ReconnectEvent::Authenticated { accepted } => if accepted {
                self.phase = ReconnectPhase::Ended;
                ReconnectAction::Wire
            } else {
                self.try_again()
            },
        }
    }
}

/// Waits between attempts never shrink, and stay between one and thirty
/// seconds.
pub proof fn reconnect_delays_grow(
    r: Reconnect,
    event: ReconnectEvent,
    next: Reconnect,
    action: ReconnectAction,
)
    requires
        r.wf(),
        r.phase.expects(event),
        reconnect_step(r, event, next, action),
    ensures
        r.delay.nanos <= next.delay.nanos,
        next.wf(),
        action matches ReconnectAction::Sleep(delay) ==> FIRST_DELAY <= delay.nanos <= MAX_DELAY,
{
}

/// A connection that was not made, or whose token was not accepted, is tried again
/// after twice the wait, half a minute at most; one whose token was accepted is used.
pub proof fn failed_attempts_are_made_again(
    r: Reconnect,
    event: ReconnectEvent,
    next: Reconnect,
    action: ReconnectAction,
)
    requires
        r.wf(),
        r.phase.expects(event),
        reconnect_step(r, event, next, action),
    ensures
        event == (ReconnectEvent::Connected { made: false }) || event == (
        ReconnectEvent::Authenticated { accepted: false }) ==> {
            &&& action is Sleep
            &&& next.phase is Sleeping
            &&& action->Sleep_0 == next.delay
            &&& next.delay.nanos == vstd::math::min(2 * r.delay.nanos as int, 30_000_000_000)
        },
        event == (ReconnectEvent::Connected { made: true }) <==> action is Authenticate,
        event == (ReconnectEvent::Authenticated { accepted: true }) <==> action is Wire,
        event is Slept <==> action is Connect,
        event is Cancelled <==> action is Stop,
        1_000_000_000 <= r.delay.nanos,
        !(action is Sleep) ==> next.delay == r.delay,
{
}

} // verus!
