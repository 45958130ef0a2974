//! Streaming the logs of allocations to a client.
use crate::config::{Alloc, AllocId, LogLine, NodeId};
use crate::fsm::FsmState;
use crate::primary::api::sse::{log_event, no_allocations_event, shows_line, SseEvent};
use crate::primary::deploy::rollout::refs;
use crate::rpc::protocol::NodeCommand;
use crate::seqs::{lemma_select_take, lemma_selected, select};
use vstd::prelude::*;
use vstd::string::*;

verus! {

/// What the driver is asked to do.
#[derive(Debug, PartialEq, Eq)]
pub enum LogAction {
    /// Tell the client.
    Emit(SseEvent),
    /// Have the lines of the allocations sent here.
    Subscribe,
    /// Send a command to a node.
    Send { node: NodeId, command: NodeCommand },
    /// Wait for lines.
    Receive,
    /// Have no more lines sent here.
    Unsubscribe,
    /// Nothing: all is done.
    Finished,
}

/// What came of an action. Lines end when nobody sends any more.
#[derive(Debug, PartialEq, Eq)]
pub enum LogEvent {
    /// Whether the client is still there.
    Emitted { delivered: bool },
    Subscribed,
    /// Whether the node could be reached.
    Sent { delivered: bool },
    /// Lines, and the allocation that they are of.
    Received(Option<(AllocId, Vec<LogLine>)>),
    Unsubscribed,
}

/// How far the streaming has come.
#[derive(Clone, Copy, Debug, PartialEq, Eq, Structural)]
pub enum LogPhase {
    /// The client hears that there is nothing to stream.
    Refusing,
    /// The lines are subscribed to.
    Subscribing,
    /// A node is asked for the last lines.
    Tailing { index: usize },
    /// A node is asked for lines to come.
    Following { index: usize },
    /// Lines are waited for.
    Receiving,
    /// A line goes to the client.
    Forwarding { index: usize },
    /// A node is asked to send no more lines.
    Unfollowing { index: usize },
    /// The subscription ends.
    Unsubscribing,
    /// All is done.
    Ended,
}

impl LogPhase {
    /// Whether an event answers the action that led to the phase.
    pub open spec fn expects(self, event: LogEvent) -> bool {
        match self {
            LogPhase::Refusing => event is Emitted,
            LogPhase::Subscribing => event is Subscribed,
            LogPhase::Tailing { .. } => event is Sent,
            LogPhase::Following { .. } => event is Sent,
            LogPhase::Receiving => event is Received,
            LogPhase::Forwarding { .. } => event is Emitted,
            LogPhase::Unfollowing { .. } => event is Sent,
            LogPhase::Unsubscribing => event is Unsubscribed,
            LogPhase::Ended => false,
        }
    }
}

/// Streaming the logs of the allocations that answer to a name. Those that
/// were asked for their last lines and have not sent any yet owe an answer.
#[derive(Debug, PartialEq, Eq)]
pub struct LogStreaming {
    pub allocs: Vec<(AllocId, NodeId)>,
    pub follow: bool,
    pub tail: usize,
    pub owing: Vec<AllocId>,
    pub lines: Vec<LogLine>,
    pub phase: LogPhase,
}

/// Allocations that answer to a name: those of the service or task of that
/// name, and the one with that id.
pub open spec fn answers_to(name: Seq<char>) -> spec_fn(Alloc) -> bool {
    |a: Alloc| a.name@ == name || a.id@ == name
}

/// Allocations other than the given one.
pub open spec fn not_from(id: Seq<char>) -> spec_fn(AllocId) -> bool {
    |other: AllocId| other@ != id
}

/// Whether the last lines are asked for, from `index` on. When all nodes have
/// been asked, the answers are waited for, where there are any to come.
pub open spec fn tails_from(s: LogStreaming, index: int, action: LogAction) -> bool {
    if index < s.allocs@.len() {
        let (alloc_id, node) = s.allocs@[index];
        s.phase == (LogPhase::Tailing { index: index as usize }) && action == (LogAction::Send {
            node,
            command: NodeCommand::LogTail { alloc_id, lines: s.tail },
        })
    } else if s.follow {
        follows_from(s, 0, action)
    } else {
        waits(s, action)
    }
}

/// Whether lines to come are asked for, from `index` on.
pub open spec fn follows_from(s: LogStreaming, index: int, action: LogAction) -> bool {
    if index < s.allocs@.len() {
        let (alloc_id, node) = s.allocs@[index];
        s.phase == (LogPhase::Following { index: index as usize }) && action == (LogAction::Send {
            node,
            command: NodeCommand::LogFollow { alloc_id },
        })
    } else {
        waits(s, action)
    }
}

/// Whether lines are waited for, where the client follows or an allocation
/// still owes an answer, and else the streaming comes to its end.
pub open spec fn waits(s: LogStreaming, action: LogAction) -> bool {
    if s.follow || s.owing@.len() > 0 {
        s.phase is Receiving && action is Receive
    } else {
        closes(s, action)
    }
}

/// Whether the lines at hand go to the client, from `index` on; when they are
/// through, more may be waited for.
pub open spec fn forwards_from(s: LogStreaming, index: int, action: LogAction) -> bool {
    if index < s.lines@.len() {
        &&& s.phase == (LogPhase::Forwarding { index: index as usize })
        &&& action matches LogAction::Emit(event)
        &&& shows_line(event, s.lines@[index])
    } else {
        waits(s, action)
    }
}

/// Whether the streaming comes to its end.
pub open spec fn closes(s: LogStreaming, action: LogAction) -> bool {
    if s.follow {
        unfollows_from(s, 0, action)
    } else {
        s.phase is Unsubscribing && action is Unsubscribe
    }
}

/// Whether nodes are asked to send no more lines, from `index` on.
pub open spec fn unfollows_from(s: LogStreaming, index: int, action: LogAction) -> bool {
    if index < s.allocs@.len() {
        let (alloc_id, node) = s.allocs@[index];
        s.phase == (LogPhase::Unfollowing { index: index as usize }) && action == (LogAction::Send {
            node,
            command: NodeCommand::LogUnfollow { alloc_id },
        })
    } else {
        s.phase is Unsubscribing && action is Unsubscribe
    }
}

/// Who owes an answer after an event: an allocation whose node was reached
/// comes to owe one, and one of which lines came does no longer.
pub open spec fn owing_after(s: LogStreaming, event: LogEvent) -> Seq<AllocId> {
    match (s.phase, event) {
        (LogPhase::Tailing { index }, LogEvent::Sent { delivered: true }) => s.owing@.push(
            s.allocs@[index as int].0,
        ),
        (LogPhase::Receiving, LogEvent::Received(Some((id, _)))) => select(
            s.owing@,
            not_from(id@),
        ),
        _ => s.owing@,
    }
}

/// The lines at hand after an event.
pub open spec fn lines_after(s: LogStreaming, event: LogEvent) -> Seq<LogLine> {
    match (s.phase, event) {
        (LogPhase::Receiving, LogEvent::Received(Some((_, lines)))) => lines@,
        _ => s.lines@,
    }
}

/// What one step does: the state and the action that follow an event.
pub open spec fn log_step(
    s: LogStreaming,
    event: LogEvent,
    next: LogStreaming,
    action: LogAction,
) -> bool {
    &&& next.same_stream(s)
    &&& next.owing@ == owing_after(s, event)
    &&& next.lines@ == lines_after(s, event)
    &&& match (s.phase, event) {
        (LogPhase::Refusing, LogEvent::Emitted { .. }) => next.phase is Ended && action is Finished,
        (LogPhase::Subscribing, LogEvent::Subscribed) => tails_from(next, 0, action),
        (LogPhase::Tailing { index }, LogEvent::Sent { .. }) => tails_from(next, index + 1, action),
        (LogPhase::Following { index }, LogEvent::Sent { .. }) => follows_from(
            next,
            index + 1,
            action,
        ),
        (LogPhase::Receiving, LogEvent::Received(received)) => if received is Some {
            forwards_from(next, 0, action)
        } else {
            closes(next, action)
        },
        (LogPhase::Forwarding { index }, LogEvent::Emitted { delivered }) => if delivered {
            forwards_from(next, index + 1, action)
        } else {
            closes(next, action)
        },
        (LogPhase::Unfollowing { index }, LogEvent::Sent { .. }) => unfollows_from(
            next,
            index + 1,
            action,
        ),
        (LogPhase::Unsubscribing, LogEvent::Unsubscribed) => next.phase is Ended && action is Finished,
        _ => false,
    }
}

/// The names and nodes of the allocations that answer to a name.
pub fn find_streams(fsm: &FsmState, name: &String) -> (res: Vec<(AllocId, NodeId)>)
    ensures
        res@ == refs(select(fsm.allocs@, answers_to(name@))),
{
    let mut out: Vec<(AllocId, NodeId)> = Vec::new();
    let ghost all = fsm.allocs@;
    let ghost p = answers_to(name@);
    let mut i: usize = 0;
    assert(refs(select(all.take(0), p)) =~= Seq::empty());
    while i < fsm.allocs.len()
        invariant
            i <= all.len(),
            all == fsm.allocs@,
            p == answers_to(name@),
            out@ == refs(select(all.take(i as int), p)),
        decreases all.len() - i,
    {
        proof {
            lemma_select_take(all, p, i as int);
        }
        let a = &fsm.allocs[i];
        if a.name == *name || a.id.0 == *name {
            let ghost sel = select(all.take(i as int), p);
            out.push((a.id.clone(), a.node.clone()));
            assert(out@ =~= refs(sel.push(all[i as int])));
        }
        i = i + 1;
    }
    assert(all.take(i as int) =~= all);
    out
}

impl LogStreaming {
    /// Whether the places agree with the lists, and lines to come are asked
    /// for and taken back only where the client follows.
    pub open spec fn wf(self) -> bool {
        match self.phase {
            LogPhase::Tailing { index } => index < self.allocs@.len(),
            LogPhase::Following { index } => self.follow && index < self.allocs@.len(),
            LogPhase::Forwarding { index } => index < self.lines@.len(),
            LogPhase::Unfollowing { index } => self.follow && index < self.allocs@.len(),
            _ => true,
        }
    }

    /// Whether two states stream the same allocations in the same way.
    pub open spec fn same_stream(self, other: LogStreaming) -> bool {
        self.allocs == other.allocs && self.follow == other.follow && self.tail == other.tail
    }

    /// Begins streaming the logs of the allocations that answer to a name, and
    /// gives the first action: where there is none, the client hears of it.
    pub fn begin(fsm: &FsmState, name: &String, follow: bool, tail: usize) -> (res: (
        LogStreaming,
        LogAction,
    ))
        ensures
            res.0.allocs@ == refs(select(fsm.allocs@, answers_to(name@))),
            res.0.follow == follow,
            res.0.tail == tail,
            res.0.owing@.len() == 0,
            res.0.lines@.len() == 0,
            res.0.wf(),
            if res.0.allocs@.len() == 0 {
                &&& res.0.phase is Refusing
                &&& res.1 matches LogAction::Emit(event)
                &&& event.event@ == "error"@
                &&& event.data@ == "no allocations found for '"@ + name@ + "'"@
            } else {
                res.0.phase is Subscribing && res.1 is Subscribe
            },
    {
        let allocs = find_streams(fsm, name);
        if allocs.len() == 0 {
            let streaming = LogStreaming {
                allocs,
                follow,
                tail,
                owing: Vec::new(),
                lines: Vec::new(),
                phase: LogPhase::Refusing,
            };
            (streaming, LogAction::Emit(no_allocations_event(name)))
        } else {
            let streaming = LogStreaming {
                allocs,
                follow,
                tail,
                owing: Vec::new(),
                lines: Vec::new(),
                phase: LogPhase::Subscribing,
            };
            (streaming, LogAction::Subscribe)
        }
    }

    fn tail_from(&mut self, index: usize) -> (res: LogAction)
        ensures
            *final(self) == (LogStreaming { phase: final(self).phase, ..*old(self) }),
            final(self).wf(),
            tails_from(*final(self), index as int, res),
    {
        if index < self.allocs.len() {
            self.phase = LogPhase::Tailing { index };
            LogAction::Send {
                node: self.allocs[index].1.clone(),
                command: NodeCommand::LogTail {
                    alloc_id: self.allocs[index].0.clone(),
                    lines: self.tail,
                },
            }
        } else if self.follow {
            self.follow_from(0)
        } else {
            self.wait()
        }
    }

    fn follow_from(&mut self, index: usize) -> (res: LogAction)
        requires
            old(self).follow,
        ensures
            *final(self) == (LogStreaming { phase: final(self).phase, ..*old(self) }),
            final(self).wf(),
            follows_from(*final(self), index as int, res),
    {
        if index < self.allocs.len() {
            self.phase = LogPhase::Following { index };
            LogAction::Send {
                node: self.allocs[index].1.clone(),
                command: NodeCommand::LogFollow { alloc_id: self.allocs[index].0.clone() },
            }
        } else {
            self.wait()
        }
    }

    fn wait(&mut self) -> (res: LogAction)
        ensures
            *final(self) == (LogStreaming { phase: final(self).phase, ..*old(self) }),
            final(self).wf(),
            waits(*final(self), res),
    {
        if self.follow || self.owing.len() > 0 {
            self.phase = LogPhase::Receiving;
            LogAction::Receive
        } else {
            self.close()
        }
    }

    fn unfollow_from(&mut self, index: usize) -> (res: LogAction)
        requires
            old(self).follow,
        ensures
            *final(self) == (LogStreaming { phase: final(self).phase, ..*old(self) }),
            final(self).wf(),
            unfollows_from(*final(self), index as int, res),
    {
        if index < self.allocs.len() {
            self.phase = LogPhase::Unfollowing { index };
            LogAction::Send {
                node: self.allocs[index].1.clone(),
                command: NodeCommand::LogUnfollow { alloc_id: self.allocs[index].0.clone() },
            }
        } else {
            self.phase = LogPhase::Unsubscribing;
            LogAction::Unsubscribe
        }
    }

    fn close(&mut self) -> (res: LogAction)
        ensures
            *final(self) == (LogStreaming { phase: final(self).phase, ..*old(self) }),
            final(self).wf(),
            closes(*final(self), res),
    {
        if self.follow {
            self.unfollow_from(0)
        } else {
            self.phase = LogPhase::Unsubscribing;
            LogAction::Unsubscribe
        }
    }

    fn forward_from(&mut self, index: usize) -> (res: LogAction)
        ensures
            *final(self) == (LogStreaming { phase: final(self).phase, ..*old(self) }),
            final(self).wf(),
            forwards_from(*final(self), index as int, res),
    {
        if index < self.lines.len() {
            self.phase = LogPhase::Forwarding { index };
            LogAction::Emit(log_event(&self.lines[index]))
        } else {
            self.wait()
        }
    }

    /// Takes what came of the last action and gives the next one.
    pub fn step(&mut self, event: LogEvent) -> (res: LogAction)
        requires
            old(self).wf(),
            old(self).phase.expects(event),
        ensures
            final(self).wf(),
            log_step(*old(self), event, *final(self), res),
    {
        match (self.phase, event) {
            (LogPhase::Subscribing, _) => self.tail_from(0),
            (LogPhase::Tailing { index }, LogEvent::Sent { delivered }) => {
                assert(index < self.allocs.len());
                if delivered {
                    self.owing.push(self.allocs[index].0.clone());
                }
                self.tail_from(index + 1)
            },
            (LogPhase::Following { index }, _) => {
                assert(index < self.allocs.len());
                self.follow_from(index + 1)
            },
            (LogPhase::Receiving, LogEvent::Received(received)) => match received {
                Some((id, lines)) => {
                    self.owing = others(&self.owing, &id);
                    self.lines = lines;
                    self.forward_from(0)
                },
                None => self.close(),
            },
            (LogPhase::Forwarding { index }, LogEvent::Emitted { delivered }) => if delivered {
                assert(index < self.lines.len());
                self.forward_from(index + 1)
            } else {
                self.close()
            },
            (LogPhase::Unfollowing { index }, _) => {
                assert(index < self.allocs.len());
                self.unfollow_from(index + 1)
            },
            _ => {
                self.phase = LogPhase::Ended;
                LogAction::Finished
            },
        }
    }
}

/// The allocations other than the given one.
fn others(ids: &Vec<AllocId>, id: &AllocId) -> (res: Vec<AllocId>)
    ensures
        res@ == select(ids@, not_from(id@)),
{
    let mut out: Vec<AllocId> = Vec::new();
    let ghost all = ids@;
    let ghost p = not_from(id@);
    let mut i: usize = 0;
    while i < ids.len()
        invariant
            i <= all.len(),
            all == ids@,
            p == not_from(id@),
            out@ == select(all.take(i as int), p),
        decreases all.len() - i,
    {
        proof {
            lemma_select_take(all, p, i as int);
        }
        if ids[i].0 != id.0 {
            out.push(ids[i].clone());
        }
        i = i + 1;
    }
    assert(all.take(i as int) =~= all);
    out
}

/// A client that is gone ends the streaming: whatever was asked of nodes is
/// taken back, and no further line is sent.
pub proof fn gone_clients_end_the_stream(
    s: LogStreaming,
    next: LogStreaming,
    action: LogAction,
    index: usize,
)
    requires
        s.phase == (LogPhase::Forwarding { index }),
        log_step(s, LogEvent::Emitted { delivered: false }, next, action),
    ensures
        next.phase is Unfollowing || next.phase is Unsubscribing,
        s.follow && s.allocs@.len() > 0 ==> action == (LogAction::Send {
            node: s.allocs@[0].1,
            command: NodeCommand::LogUnfollow { alloc_id: s.allocs@[0].0 },
        }),
{
}

/// The logs of all allocations come through. One whose node was asked for the
/// last lines owes an answer until lines of it come, and where the client
/// does not follow the streaming ends no sooner than nobody owes one, but for
/// a client that is gone and lines that end.
pub proof fn answers_are_waited_for(
    s: LogStreaming,
    event: LogEvent,
    next: LogStreaming,
    action: LogAction,
)
    requires
        s.wf(),
        log_step(s, event, next, action),
    ensures
        s.phase matches LogPhase::Tailing { index } ==> (event == (LogEvent::Sent {
            delivered: true,
        }) ==> next.owing@.contains(s.allocs@[index as int].0)),
        forall|id: AllocId|
            s.owing@.contains(id) && !(event matches LogEvent::Received(Some((from, _))) && from@
                == id@) ==> #[trigger] next.owing@.contains(id),
        !s.follow && next.phase is Unsubscribing ==> next.owing@.len() == 0 || event == (
        LogEvent::Emitted { delivered: false }) || event == LogEvent::Received(None),
{
    if let (LogPhase::Tailing { index }, LogEvent::Sent { delivered: true }) = (s.phase, event) {
        let owing = s.owing@.push(s.allocs@[index as int].0);
        assert(owing.last() == s.allocs@[index as int].0);
        assert forall|id: AllocId| s.owing@.contains(id) implies owing.contains(id) by {
            let i = s.owing@.index_of(id);
            assert(owing[i] == id);
        }
    }
    if let (LogPhase::Receiving, LogEvent::Received(Some((from, _)))) = (s.phase, event) {
        lemma_selected(s.owing@, not_from(from@));
    }
}

/// What a whole run is made of: the states of the streaming, what came of its
/// actions, and the actions, each of which is asked for in the state of the
/// same place and answered by the event of the same place.
pub struct LogRun {
    pub streams: Seq<LogStreaming>,
    pub events: Seq<LogEvent>,
    pub actions: Seq<LogAction>,
}

/// What the client is told.
pub open spec fn emits() -> spec_fn(LogAction) -> bool {
    |action: LogAction| action is Emit
}

/// Whether actions tell the client of lines, one after another.
pub open spec fn tells(actions: Seq<LogAction>, lines: Seq<LogLine>) -> bool {
    &&& actions.len() == lines.len()
    &&& forall|k: int|
        0 <= k < lines.len() ==> ((#[trigger] actions[k]) matches LogAction::Emit(event)
            && shows_line(event, lines[k]))
}

/// Commands to nodes.
pub open spec fn commands() -> spec_fn(LogAction) -> bool {
    |action: LogAction| action is Send
}

/// Each allocation is asked for its last lines.
pub open spec fn tail_each(s: LogStreaming) -> Seq<LogAction> {
    Seq::new(
        s.allocs@.len(),
        |i: int|
            LogAction::Send {
                node: s.allocs@[i].1,
                command: NodeCommand::LogTail { alloc_id: s.allocs@[i].0, lines: s.tail },
            },
    )
}

/// Each allocation is asked for lines to come, where the client follows.
pub open spec fn follow_each(s: LogStreaming) -> Seq<LogAction> {
    Seq::new(
        if s.follow {
            s.allocs@.len()
        } else {
            0
        },
        |i: int|
            LogAction::Send {
                node: s.allocs@[i].1,
                command: NodeCommand::LogFollow { alloc_id: s.allocs@[i].0 },
            },
    )
}

/// Each allocation is asked for no more lines, where the client follows.
pub open spec fn unfollow_each(s: LogStreaming) -> Seq<LogAction> {
    Seq::new(
        if s.follow {
            s.allocs@.len()
        } else {
            0
        },
        |i: int|
            LogAction::Send {
                node: s.allocs@[i].1,
                command: NodeCommand::LogUnfollow { alloc_id: s.allocs@[i].0 },
            },
    )
}

/// The lines that came with events.
pub open spec fn lines_received(events: Seq<LogEvent>) -> Seq<LogLine>
    decreases events.len(),
{
    if events.len() == 0 {
        Seq::empty()
    } else {
        lines_received(events.drop_last()) + match events.last() {
            LogEvent::Received(Some((_, lines))) => lines@,
            _ => Seq::empty(),
        }
    }
}

impl LogRun {
    /// Whether the run begins and goes on as it should, for a name that some
    /// allocation answers to.
    pub open spec fn wf(self) -> bool {
        &&& self.streams.len() == self.events.len() + 1
        &&& self.actions.len() == self.events.len() + 1
        &&& self.streams[0].phase is Subscribing
        &&& self.streams[0].owing@.len() == 0
        &&& self.streams[0].lines@.len() == 0
        &&& self.actions[0] is Subscribe
        &&& forall|i: int|
            0 <= i < self.events.len() ==> self.streams[i + 1].wf() && log_step(
                self.streams[i],
                #[trigger] self.events[i],
                self.streams[i + 1],
                self.actions[i + 1],
            )
    }

    /// Whether the client never goes away.
    pub open spec fn client_stays(self) -> bool {
        forall|i: int|
            0 <= i < self.events.len() ==> (#[trigger] self.events[i]) != (LogEvent::Emitted {
                delivered: false,
            })
    }

    /// Whether somebody might always send more lines.
    pub open spec fn lines_stay(self) -> bool {
        forall|i: int|
            0 <= i < self.events.len() ==> (#[trigger] self.events[i]) != LogEvent::Received(None)
    }

    /// Whether the client has been told of the lines that the phase tells of.
    spec fn is_told(self, n: int) -> bool {
        let told = select(self.actions.take(n + 1), emits());
        let received = lines_received(self.events.take(n));
        match self.streams[n].phase {
            LogPhase::Forwarding { index } => {
                let lines = self.streams[n].lines@;
                let start = received.len() - lines.len();
                &&& 0 <= start
                &&& received.subrange(start, received.len() as int) == lines
                &&& tells(told, received.take(start + index + 1))
            },
            LogPhase::Refusing => false,
            _ => tells(told, received),
        }
    }

    proof fn lemma_told(self, n: int)
        requires
            self.wf(),
            self.client_stays(),
            0 <= n < self.streams.len(),
        ensures
            self.is_told(n),
            n > 0 ==> !(self.streams[n].phase is Subscribing),
        decreases n,
    {
        lemma_select_take(self.actions, emits(), n);
        let told = select(self.actions.take(n + 1), emits());
        let received = lines_received(self.events.take(n));
        if n > 0 {
            self.lemma_told(n - 1);
            let e = self.events[n - 1];
            let before = self.streams[n - 1];
            let now = self.streams[n];
            assert(self.events.take(n).drop_last() =~= self.events.take(n - 1));
            assert(self.events.take(n).last() == e);
            let earlier = lines_received(self.events.take(n - 1));
            let told_earlier = select(self.actions.take(n), emits());
            assert(now.lines@.len() == now.lines.len());
            assert(before.lines@.len() == before.lines.len());
            match (before.phase, e) {
                (LogPhase::Receiving, LogEvent::Received(Some((_, lines)))) => {
                    assert(received == earlier + lines@);
                    assert(received.subrange(earlier.len() as int, received.len() as int)
                        =~= lines@);
                    if lines@.len() == 0 {
                        assert(received =~= earlier);
                    } else {
                        assert(tells(told, received.take(earlier.len() as int + 1)));
                    }
                },
                (LogPhase::Forwarding { index }, _) => {
                    assert(received =~= earlier);
                    let start = received.len() - before.lines@.len();
                    if index + 1 < before.lines@.len() {
                        assert(received[start + index + 1] == received.subrange(
                            start,
                            received.len() as int,
                        )[index + 1]);
                        assert(tells(told, received.take(start + index + 2)));
                    } else {
                        assert(received.take(start + index + 1) =~= received);
                    }
                },
                _ => {
                    assert(received =~= earlier);
                },
            }
        } else {
            assert(self.actions.take(0) =~= Seq::empty());
            assert(self.events.take(0) =~= Seq::empty());
        }
    }

    /// Where the client stays to the end, it is told of every line that came,
    /// in the order in which they came, and of nothing else.
    pub proof fn every_line_is_told(self)
        requires
            self.wf(),
            self.client_stays(),
            self.actions.last() is Finished,
        ensures
            tells(select(self.actions, emits()), lines_received(self.events)),
    {
        let n = self.streams.len() - 1;
        self.lemma_told(n);
        if n > 0 {
            let e = self.events[n - 1];
        }
        assert(self.actions.take(n + 1) =~= self.actions);
        assert(self.events.take(n) =~= self.events);
    }

    /// The commands that have been sent by the phase.
    spec fn sent_by(self, n: int) -> Seq<LogAction> {
        let s = self.streams[0];
        match self.streams[n].phase {
            LogPhase::Subscribing => Seq::empty(),
            LogPhase::Tailing { index } => tail_each(s).take(index + 1),
            LogPhase::Following { index } => tail_each(s) + follow_each(s).take(index + 1),
            LogPhase::Receiving => tail_each(s) + follow_each(s),
            LogPhase::Forwarding { .. } => tail_each(s) + follow_each(s),
            LogPhase::Unfollowing { index } => tail_each(s) + follow_each(s) + unfollow_each(
                s,
            ).take(index + 1),
            _ => tail_each(s) + follow_each(s) + unfollow_each(s),
        }
    }

    proof fn lemma_sent(self, n: int)
        requires
            self.wf(),
            0 <= n < self.streams.len(),
        ensures
            select(self.actions.take(n + 1), commands()) == self.sent_by(n),
        decreases n,
    {
        lemma_select_take(self.actions, commands(), n);
        if n > 0 {
            self.lemma_sent(n - 1);
            self.lemma_same(n - 1);
            self.lemma_same(n);
            let e = self.events[n - 1];
            let now = self.streams[n];
            assert(now.allocs@.len() == now.allocs.len());
            assert(select(self.actions.take(n + 1), commands()) =~= self.sent_by(n));
        } else {
            assert(self.actions.take(0) =~= Seq::empty());
        }
    }

    /// A whole run asks each allocation once for its last lines. Where the
    /// client follows it then asks each for lines to come, and in the end for
    /// no more; where the client does not follow it asks for nothing else.
    pub proof fn every_allocation_is_asked_once(self)
        requires
            self.wf(),
            self.actions.last() is Finished,
        ensures
            select(self.actions, commands()) == tail_each(self.streams[0]) + follow_each(
                self.streams[0],
            ) + unfollow_each(self.streams[0]),
    {
        let n = self.streams.len() - 1;
        self.lemma_sent(n);
        if n > 0 {
            let e = self.events[n - 1];
        }
        assert(self.actions.take(n + 1) =~= self.actions);
    }

    /// Whether lines of an allocation came between two places.
    spec fn has_answered(self, id: Seq<char>, t: int, n: int) -> bool {
        exists|j: int|
            t < j < n && (#[trigger] self.events[j] matches LogEvent::Received(Some((from, _)))
                && from@ == id)
    }

    proof fn lemma_answered(self, t: int, k: usize, n: int)
        requires
            self.wf(),
            self.client_stays(),
            self.lines_stay(),
            !self.streams[0].follow,
            0 <= t < n < self.streams.len(),
            self.streams[t].phase == (LogPhase::Tailing { index: k }),
            self.events[t] == (LogEvent::Sent { delivered: true }),
        ensures
            self.streams[n].same_stream(self.streams[0]),
            self.has_answered(self.streams[0].allocs@[k as int].0@, t, n)
                || self.streams[n].owing@.contains(self.streams[0].allocs@[k as int].0),
            self.streams[n].phase is Unsubscribing || self.streams[n].phase is Ended
                ==> self.has_answered(self.streams[0].allocs@[k as int].0@, t, n),
        decreases n,
    {
        let id = self.streams[0].allocs@[k as int].0;
        self.lemma_same(n);
        self.lemma_same(n - 1);
        let e = self.events[n - 1];
        answers_are_waited_for(
            self.streams[n - 1],
            e,
            self.streams[n],
            self.actions[n],
        );
        if n - 1 > t {
            self.lemma_answered(t, k, n - 1);
            if self.has_answered(id@, t, n - 1) {
                let j = choose|j: int|
                    t < j < n - 1 && (
                    #[trigger] self.events[j] matches LogEvent::Received(Some((from, _)))
                        && from@ == id@);
                assert(t < j < n);
                assert(self.has_answered(id@, t, n));
            } else if let LogEvent::Received(Some((from, _))) = e {
                if from@ == id@ {
                    assert(self.has_answered(id@, t, n));
                }
            }
        }
        if self.streams[n].owing@.contains(id) {
            assert(self.streams[n].owing@.len() > 0);
        }
    }

    proof fn lemma_same(self, n: int)
        requires
            self.wf(),
            0 <= n < self.streams.len(),
        ensures
            self.streams[n].same_stream(self.streams[0]),
            self.streams[n].wf(),
            !(self.streams[n].phase is Refusing),
        decreases n,
    {
        if n > 0 {
            self.lemma_same(n - 1);
            let e = self.events[n - 1];
        }
    }

    /// Where the client stays and does not follow, the streaming does not end
    /// before every allocation whose node could be asked for its last lines
    /// has answered.
    pub proof fn every_answer_is_waited_for(self, t: int, k: usize)
        requires
            self.wf(),
            self.client_stays(),
            self.lines_stay(),
            !self.streams[0].follow,
            self.actions.last() is Finished,
            0 <= t < self.events.len(),
            self.streams[t].phase == (LogPhase::Tailing { index: k }),
            self.events[t] == (LogEvent::Sent { delivered: true }),
        ensures
            exists|j: int|
                t < j < self.events.len() && (
                #[trigger] self.events[j] matches LogEvent::Received(Some((from, _))) && from@
                    == self.streams[0].allocs@[k as int].0@),
    {
        let n = self.streams.len() - 1;
        let e = self.events[n - 1];
        self.lemma_answered(t, k, n);
    }
}

/// What is streamed under a name are the lines of the allocations that bear it as
/// their name or as their id, from the nodes that they are on, and no others.
pub proof fn streams_are_those_that_answer(fsm: FsmState, name: Seq<char>, i: int, k: int)
    ensures
        ({
            let found = refs(select(fsm.allocs@, answers_to(name)));
            &&& 0 <= i < fsm.allocs@.len() && (fsm.allocs@[i].name@ == name
                || fsm.allocs@[i].id@ == name) ==> found.contains(
                (fsm.allocs@[i].id, fsm.allocs@[i].node),
            )
            &&& 0 <= k < found.len() ==> exists|n: int|
                {
                    &&& 0 <= n < fsm.allocs@.len()
                    &&& (#[trigger] fsm.allocs@[n]).id == found[k].0
                    &&& fsm.allocs@[n].node == found[k].1
                    &&& fsm.allocs@[n].name@ == name || fsm.allocs@[n].id@ == name
                }
        }),
{
    let p = answers_to(name);
    let sel = select(fsm.allocs@, p);
    let found = refs(sel);
    lemma_selected(fsm.allocs@, p);
    if 0 <= i < fsm.allocs@.len() && (fsm.allocs@[i].name@ == name || fsm.allocs@[i].id@ == name) {
        assert(p(fsm.allocs@[i]));
        let m = choose|m: int| 0 <= m < sel.len() && sel[m] == fsm.allocs@[i];
        assert(found[m] == (fsm.allocs@[i].id, fsm.allocs@[i].node));
    }
    if 0 <= k < found.len() {
        assert(p(sel[k]));
        let n = choose|n: int| 0 <= n < fsm.allocs@.len() && fsm.allocs@[n] == sel[k];
        assert(fsm.allocs@[n].id == found[k].0);
    }
}

/// Commands go to the node of the allocation that they are about; the last lines are
/// asked for as many as the client wants, and lines to come only where the client
/// follows.
pub proof fn commands_go_to_the_node_of_the_allocation(
    s: LogStreaming,
    event: LogEvent,
    next: LogStreaming,
    action: LogAction,
)
    requires
        s.wf(),
        log_step(s, event, next, action),
    ensures
        action matches LogAction::Send { node, command } ==> {
            ||| command matches NodeCommand::LogTail { alloc_id, lines } && lines == s.tail
                && s.allocs@.contains((alloc_id, node))
            ||| command matches NodeCommand::LogFollow { alloc_id } && s.follow
                && s.allocs@.contains((alloc_id, node))
            ||| command matches NodeCommand::LogUnfollow { alloc_id } && s.follow
                && s.allocs@.contains((alloc_id, node))
        },
        event is Subscribed && s.allocs@.len() > 0 ==> action == (LogAction::Send {
            node: s.allocs@[0].1,
            command: NodeCommand::LogTail { alloc_id: s.allocs@[0].0, lines: s.tail },
        }),
{
    assert(s.allocs@.len() == s.allocs.len());
    if let LogAction::Send { node, command } = action {
        match command {
            NodeCommand::LogTail { alloc_id, .. } => {
                let i = next.phase->Tailing_index as int;
                assert(s.allocs@[i] == (alloc_id, node));
            },
            NodeCommand::LogFollow { alloc_id } => {
                let i = next.phase->Following_index as int;
                assert(s.allocs@[i] == (alloc_id, node));
            },
            NodeCommand::LogUnfollow { alloc_id } => {
                let i = next.phase->Unfollowing_index as int;
                assert(s.allocs@[i] == (alloc_id, node));
            },
            _ => {},
        }
    }
}

/// Lines that came go to the client one after another while the client is there, and
/// nothing else does.
pub proof fn lines_that_came_are_passed_on(
    s: LogStreaming,
    event: LogEvent,
    next: LogStreaming,
    action: LogAction,
)
    requires
        s.wf(),
        log_step(s, event, next, action),
    ensures
        event matches LogEvent::Received(Some((id, lines))) ==> {
            &&& next.lines@ == lines@
            &&& lines@.len() > 0 ==> action is Emit && shows_line(action->Emit_0, lines@[0])
        },
        s.phase matches LogPhase::Forwarding { index } ==> {
            &&& next.lines@ == s.lines@
            &&& event == (LogEvent::Emitted { delivered: true }) && index + 1 < s.lines@.len()
                ==> action is Emit && shows_line(action->Emit_0, s.lines@[index + 1])
        },
        action is Emit ==> event is Received || event == (LogEvent::Emitted { delivered: true }),
        event is Received && event->Received_0 is None ==> action is Unsubscribe
            || action is Send,
{
}

} // verus!
