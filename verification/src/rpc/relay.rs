//! Passing messages on between a connection and a channel.
use vstd::prelude::*;

verus! {

/// What came of taking a message or of passing it on.
#[derive(Clone, Copy, Debug, PartialEq, Eq, Structural)]
pub enum RelayEvent {
    /// A message came.
    Taken,
    /// There will be no more messages.
    Ended,
    /// The next message could not be read.
    ReadFailed,
    /// The message was passed on.
    Passed,
    /// The message could not be passed on.
    PassFailed,
    /// The work is to end.
    Cancelled,
}

/// What there is to do next.
#[derive(Clone, Copy, Debug, PartialEq, Eq, Structural)]
pub enum RelayAction {
    /// Take the next message.
    Take,
    /// Pass the message on.
    Pass,
    /// Nothing: the work has ended. `lost` tells that the other side is gone
    /// while there was something for it.
    Stop { lost: bool },
}

/// What an event leads to.
pub open spec fn relayed(event: RelayEvent) -> RelayAction {
    match event {
        RelayEvent::Taken => RelayAction::Pass,
        RelayEvent::Passed => RelayAction::Take,
        RelayEvent::PassFailed => RelayAction::Stop { lost: true },
        _ => RelayAction::Stop { lost: false },
    }
}

/// Decides how passing messages on continues.
pub fn relay(event: RelayEvent) -> (res: RelayAction)
    ensures
        res == relayed(event),
{
    match event {
        RelayEvent::Taken => RelayAction::Pass,
        RelayEvent::Passed => RelayAction::Take,
        RelayEvent::PassFailed => RelayAction::Stop { lost: true },
        _ => RelayAction::Stop { lost: false },
    }
}

/// What was taken is passed on, and after that the next is taken; the work ends with
/// anything else, and something is lost only where it could not be passed on.
pub proof fn messages_are_passed_on(event: RelayEvent)
    ensures
        relayed(event) is Pass <==> event is Taken,
        relayed(event) is Take <==> event is Passed,
        relayed(event) == (RelayAction::Stop { lost: true }) <==> event is PassFailed,
        relayed(event) == (RelayAction::Stop { lost: false }) <==> event is Ended
            || event is ReadFailed || event is Cancelled,
{
}

} // verus!
