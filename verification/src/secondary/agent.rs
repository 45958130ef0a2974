//! What a node does with the commands of the primary.
use crate::config::{AllocId, ContainerSpec, LogLine};
use crate::rpc::protocol::{NodeCommand, NodeReport, RegistryCredentials};
use crate::secondary::logs::last_n;
use crate::secondary::state::AllocationMap;
use crate::table::Table;
use vstd::prelude::*;

verus! {

/// What the driver is asked to do.
#[derive(Debug, PartialEq, Eq)]
pub enum AgentAction {
    /// Find out what still runs.
    Reconcile,
    /// Send heartbeats in the background.
    SpawnHeartbeat,
    /// Take figures in the background.
    SpawnMetrics,
    /// Wait for a command.
    Receive,
    /// Run a container.
    Run { alloc_id: AllocId, spec: ContainerSpec, auth: Option<RegistryCredentials> },
    /// Stop a container.
    Stop { alloc_id: AllocId },
    /// Pull an image.
    Pull { image: String, auth: Option<RegistryCredentials> },
    /// Send a report to the primary; whether it arrives does not matter.
    Report(NodeReport),
    /// End one stream of lines, and begin another where there is one to begin.
    /// Streams go by numbers.
    SwitchFollow { cancel: Option<u64>, follow: Option<(AllocId, u64)> },
    /// End what goes on in the background, and these streams of lines.
    /// Containers are left running.
    ShutDown { follows: Vec<u64> },
    /// Nothing: all is done.
    Finished,
}

/// How far the work has come.
#[derive(Clone, Copy, Debug, PartialEq, Eq, Structural)]
pub enum AgentPhase {
    Reconciling,
    StartingHeartbeat,
    StartingMetrics,
    /// A command is waited for.
    Receiving,
    /// A command is being carried out.
    Working,
    ShuttingDown,
    Ended,
}

/// The work of a node: after finding out what still runs it carries out the
/// commands of the primary, one after another, until there are no more.
#[derive(Debug, PartialEq, Eq)]
pub struct Secondary {
    pub follows: Table<u64>,
    pub phase: AgentPhase,
}

/// The streams of lines in entries.
pub open spec fn streams(entries: Seq<(String, u64)>) -> Seq<u64> {
    Seq::new(entries.len(), |i: int| entries[i].1)
}

/// The number of the stream of an allocation.
pub open spec fn stream_of(follows: Map<Seq<char>, u64>, id: Seq<char>) -> Option<u64> {
    if follows.dom().contains(id) {
        Some(follows[id])
    } else {
        None
    }
}

/// The last lines of an allocation; none where it is not here.
pub open spec fn tail_of(allocs: AllocationMap, id: Seq<char>, n: nat) -> Seq<LogLine> {
    if allocs@.dom().contains(id) {
        last_n(allocs@[id].logs@, n)
    } else {
        Seq::empty()
    }
}

/// What a command leads to: the streams of lines and the action after it.
/// `fresh` is a number for a new stream.
pub open spec fn commanded(
    follows: Map<Seq<char>, u64>,
    allocs: AllocationMap,
    command: NodeCommand,
    fresh: u64,
    after: Map<Seq<char>, u64>,
    action: AgentAction,
) -> bool {
    match command {
        NodeCommand::Run { alloc_id, spec, auth } => after == follows && action
            == (AgentAction::Run { alloc_id, spec, auth }),
        NodeCommand::Stop { alloc_id } => after == follows && action == (AgentAction::Stop {
            alloc_id,
        }),
        NodeCommand::Pull { image, auth } => after == follows && action == (AgentAction::Pull {
            image,
            auth,
        }),
        NodeCommand::LogTail { alloc_id, lines } => {
            &&& after == follows
            &&& action matches AgentAction::Report(NodeReport::LogLines { alloc_id: id, lines: tail })
            &&& id == alloc_id
            &&& tail@ == tail_of(allocs, alloc_id@, lines as nat)
        },
        NodeCommand::LogFollow { alloc_id } => if allocs@.dom().contains(alloc_id@) {
            &&& after == follows.remove(alloc_id@).insert(alloc_id@, fresh)
            &&& action == (AgentAction::SwitchFollow {
                cancel: stream_of(follows, alloc_id@),
                follow: Some((alloc_id, fresh)),
            })
        } else {
            &&& after == follows.remove(alloc_id@)
            &&& action == (AgentAction::SwitchFollow {
                cancel: stream_of(follows, alloc_id@),
                follow: None,
            })
        },
        NodeCommand::LogUnfollow { alloc_id } => {
            &&& after == follows.remove(alloc_id@)
            &&& action == (AgentAction::SwitchFollow {
                cancel: stream_of(follows, alloc_id@),
                follow: None,
            })
        },
    }
}

impl Secondary {
    /// Whether each allocation has at most one stream.
    pub open spec fn wf(&self) -> bool {
        self.follows.wf()
    }

    /// Work that has not begun.
    pub fn new() -> (res: Secondary)
        ensures
            res.wf(),
            res.follows@ == Map::<Seq<char>, u64>::empty(),
            res.phase is Reconciling,
    {
        Secondary { follows: Table::new(), phase: AgentPhase::Reconciling }
    }

    /// Begins the work, and gives the first action: finding out what still
    /// runs.
    pub fn begin() -> (res: (Secondary, AgentAction))
        ensures
            res.0.wf(),
            res.0.follows@ == Map::<Seq<char>, u64>::empty(),
            res.0.phase is Reconciling,
            res.1 is Reconcile,
    {
        (Secondary::new(), AgentAction::Reconcile)
    }

    /// Takes that the last action is done, where it was not to wait for a
    /// command, and gives the next one.
    pub fn done(&mut self) -> (res: AgentAction)
        requires
            old(self).wf(),
        ensures
            final(self).wf(),
            final(self).follows == old(self).follows,
            match old(self).phase {
                AgentPhase::Reconciling => final(self).phase is StartingHeartbeat
                    && res is SpawnHeartbeat,
                AgentPhase::StartingHeartbeat => final(self).phase is StartingMetrics
                    && res is SpawnMetrics,
                AgentPhase::StartingMetrics => final(self).phase is Receiving && res is Receive,
                AgentPhase::Receiving => final(self).phase is Receiving && res is Receive,
                AgentPhase::Working => final(self).phase is Receiving && res is Receive,
                AgentPhase::ShuttingDown => final(self).phase is Ended && res is Finished,
                AgentPhase::Ended => final(self).phase is Ended && res is Finished,
            },
    {
        match self.phase {
            AgentPhase::Reconciling => {
                self.phase = AgentPhase::StartingHeartbeat;
                AgentAction::SpawnHeartbeat
            },
            AgentPhase::StartingHeartbeat => {
                self.phase = AgentPhase::StartingMetrics;
                AgentAction::SpawnMetrics
            },
            AgentPhase::StartingMetrics | AgentPhase::Receiving | AgentPhase::Working => {
                self.phase = AgentPhase::Receiving;
                AgentAction::Receive
            },
            AgentPhase::ShuttingDown | AgentPhase::Ended => {
                self.phase = AgentPhase::Ended;
                AgentAction::Finished
            },
        }
    }

    /// Takes a command, and gives what it leads to. `fresh` is a number for a
    /// new stream of lines.
    pub fn command(&mut self, command: NodeCommand, allocs: &AllocationMap, fresh: u64) -> (res: AgentAction)
        requires
            old(self).wf(),
            old(self).phase is Receiving,
        ensures
            final(self).wf(),
            final(self).phase is Working,
            commanded(old(self).follows@, *allocs, command, fresh, final(self).follows@, res),
    {
        self.phase = AgentPhase::Working;
        match command {
            NodeCommand::Run { alloc_id, spec, auth } => AgentAction::Run { alloc_id, spec, auth },
            NodeCommand::Stop { alloc_id } => AgentAction::Stop { alloc_id },
            NodeCommand::Pull { image, auth } => AgentAction::Pull { image, auth },
            NodeCommand::LogTail { alloc_id, lines } => {
                let tail = match allocs.log_buffer(&alloc_id) {
                    Some(logs) => logs.tail(lines),
                    None => Vec::new(),
                };
                assert(tail@ =~= tail_of(*allocs, alloc_id@, lines as nat));
                AgentAction::Report(NodeReport::LogLines { alloc_id, lines: tail })
            },
            NodeCommand::LogFollow { alloc_id } => {
                let cancel = self.follows.remove(&alloc_id.0);
                if allocs.contains(&alloc_id) {
                    self.follows.insert(alloc_id.0.clone(), fresh);
                    AgentAction::SwitchFollow { cancel, follow: Some((alloc_id, fresh)) }
                } else {
                    AgentAction::SwitchFollow { cancel, follow: None }
                }
            },
            NodeCommand::LogUnfollow { alloc_id } => {
                let cancel = self.follows.remove(&alloc_id.0);
                AgentAction::SwitchFollow { cancel, follow: None }
            },
        }
    }

    /// Takes that there will be no more commands, and gives the last thing to
    /// do: everything in the background ends, containers keep running.
    pub fn closed(&mut self) -> (res: AgentAction)
        requires
            old(self).wf(),
        ensures
            final(self).wf(),
            final(self).follows@ == Map::<Seq<char>, u64>::empty(),
            final(self).phase is ShuttingDown,
            res matches AgentAction::ShutDown { follows } && follows@ == streams(
                old(self).follows.entries@,
            ),
    {
        let mut follows: Vec<u64> = Vec::new();
        let mut i: usize = 0;
        while i < self.follows.entries.len()
            invariant
                *self == *old(self),
                i <= self.follows.entries@.len(),
                follows@ == streams(self.follows.entries@).take(i as int),
            decreases self.follows.entries@.len() - i,
        {
            follows.push(self.follows.entries[i].1);
            i = i + 1;
            assert(follows@ =~= streams(self.follows.entries@).take(i as int));
        }
        assert(follows@ =~= streams(self.follows.entries@));
        self.follows = Table::new();
        self.phase = AgentPhase::ShuttingDown;
        AgentAction::ShutDown { follows }
    }
}

/// An allocation has one stream of lines at most: beginning another ends the
/// one before, and the streams of other allocations go on.
pub proof fn following_again_replaces_the_stream(
    follows: Map<Seq<char>, u64>,
    allocs: AllocationMap,
    alloc_id: AllocId,
    fresh: u64,
    after: Map<Seq<char>, u64>,
    action: AgentAction,
    other: Seq<char>,
)
    requires
        allocs@.dom().contains(alloc_id@),
        commanded(
            follows,
            allocs,
            NodeCommand::LogFollow { alloc_id },
            fresh,
            after,
            action,
        ),
    ensures
        stream_of(after, alloc_id@) == Some(fresh),
        action == (AgentAction::SwitchFollow {
            cancel: stream_of(follows, alloc_id@),
            follow: Some((alloc_id, fresh)),
        }),
        other != alloc_id@ ==> stream_of(after, other) == stream_of(follows, other),
{
}

/// A command leads to what it says: a container is run, stopped or an image pulled as
/// the primary gave it, the last lines of the allocation are told, and an allocation
/// is followed or no longer followed.
pub proof fn commands_are_carried_out(
    follows: Map<Seq<char>, u64>,
    allocs: AllocationMap,
    command: NodeCommand,
    fresh: u64,
    after: Map<Seq<char>, u64>,
    action: AgentAction,
)
    requires
        commanded(follows, allocs, command, fresh, after, action),
    ensures
        command is Run ==> action is Run && action->Run_alloc_id == command->Run_alloc_id
            && action->Run_spec == command->Run_spec && action->Run_auth == command->Run_auth,
        command is Stop ==> action is Stop && action->Stop_alloc_id == command->Stop_alloc_id,
        command is Pull ==> action is Pull && action->Pull_image == command->Pull_image
            && action->Pull_auth == command->Pull_auth,
        command matches NodeCommand::LogTail { alloc_id, lines } ==> {
            &&& action matches AgentAction::Report(
                NodeReport::LogLines { alloc_id: id, lines: tail },
            )
            &&& id == alloc_id
            &&& !allocs@.dom().contains(alloc_id@) ==> tail@.len() == 0
            &&& allocs@.dom().contains(alloc_id@) ==> {
                let all = allocs@[alloc_id@].logs@;
                &&& tail@.len() == if all.len() < lines {
                    all.len()
                } else {
                    lines as nat
                }
                &&& forall|i: int|
                    0 <= i < tail@.len() ==> #[trigger] tail@[i] == all[all.len() - tail@.len()
                        + i]
            }
        },
        command matches NodeCommand::LogFollow { alloc_id } ==> {
            &&& action is SwitchFollow
            &&& allocs@.dom().contains(alloc_id@) ==> action->follow == Some((alloc_id, fresh))
                && after.dom().contains(alloc_id@) && after[alloc_id@] == fresh
            &&& !allocs@.dom().contains(alloc_id@) ==> action->follow is None
                && !after.dom().contains(alloc_id@)
            &&& follows.dom().contains(alloc_id@) ==> action->cancel == Some(follows[alloc_id@])
            &&& !follows.dom().contains(alloc_id@) ==> action->cancel is None
        },
        command matches NodeCommand::LogUnfollow { alloc_id } ==> {
            &&& action is SwitchFollow
            &&& action->follow is None
            &&& !after.dom().contains(alloc_id@)
            &&& follows.dom().contains(alloc_id@) ==> action->cancel == Some(follows[alloc_id@])
            &&& !follows.dom().contains(alloc_id@) ==> action->cancel is None
        },
        command is Run || command is Stop || command is Pull || command is LogTail ==> after
            == follows,
{
}

} // verus!
