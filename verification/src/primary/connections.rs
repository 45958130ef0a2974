//! Which nodes the primary is connected to.
use crate::config::NodeId;
use crate::fsm::{FsmNode, FsmState};
use crate::net::SocketAddr;
use crate::seqs::{lemma_select_take, lemma_selected, select};
use vstd::prelude::*;

verus! {

/// Nodes other than this one.
pub open spec fn is_remote(local: Option<NodeId>) -> spec_fn(FsmNode) -> bool {
    |n: FsmNode| !(local is Some && local->0@ == n.mill_id@)
}

/// Where nodes take commands: the address for that, else their only one.
pub open spec fn rpc_targets(nodes: Seq<FsmNode>) -> Seq<(NodeId, SocketAddr)> {
    Seq::new(
        nodes.len(),
        |i: int|
            (
                nodes[i].mill_id,
                match nodes[i].rpc_address {
                    Some(a) => a,
                    None => nodes[i].address,
                },
            ),
    )
}

/// The other nodes, and where they take commands.
pub fn remote_nodes(fsm: &FsmState, local: &Option<NodeId>) -> (res: Vec<(NodeId, SocketAddr)>)
    ensures
        res@ == rpc_targets(select(fsm.nodes@, is_remote(*local))),
{
    let mut out: Vec<(NodeId, SocketAddr)> = Vec::new();
    let ghost all = fsm.nodes@;
    let ghost p = is_remote(*local);
    let mut i: usize = 0;
    assert(rpc_targets(select(all.take(0), p)) =~= Seq::empty());
    while i < fsm.nodes.len()
        invariant
            i <= all.len(),
            all == fsm.nodes@,
            p == is_remote(*local),
            out@ == rpc_targets(select(all.take(i as int), p)),
        decreases all.len() - i,
    {
        proof {
            lemma_select_take(all, p, i as int);
        }
        let node = &fsm.nodes[i];
        let own: bool = match local {
            Some(id) => id.same(&node.mill_id),
            None => false,
        };
        if !own {
            let address = match node.rpc_address {
                Some(a) => a,
                None => node.address,
            };
            let ghost sel = select(all.take(i as int), p);
            out.push((node.mill_id.clone(), address));
            assert(out@ =~= rpc_targets(sel.push(all[i as int])));
        }
        i = i + 1;
    }
    assert(all.take(i as int) =~= all);
    out
}

/// Whether a node is among those given.
pub open spec fn among(ids: Seq<NodeId>, id: Seq<char>) -> bool {
    exists|i: int| 0 <= i < ids.len() && (#[trigger] ids[i])@ == id
}

/// Whether a node is among the targets.
pub open spec fn targeted(targets: Seq<(NodeId, SocketAddr)>, id: Seq<char>) -> bool {
    exists|i: int| 0 <= i < targets.len() && (#[trigger] targets[i]).0@ == id
}

fn is_among(ids: &Vec<NodeId>, id: &NodeId) -> (res: bool)
    ensures
        res == among(ids@, id@),
{
    let mut i: usize = 0;
    while i < ids.len()
        invariant
            i <= ids@.len(),
            forall|j: int| 0 <= j < i ==> (#[trigger] ids@[j])@ != id@,
        decreases ids@.len() - i,
    {
        if ids[i].same(id) {
            return true;
        }
        i = i + 1;
    }
    false
}

fn is_targeted(targets: &Vec<(NodeId, SocketAddr)>, id: &NodeId) -> (res: bool)
    ensures
        res == targeted(targets@, id@),
{
    let mut i: usize = 0;
    while i < targets.len()
        invariant
            i <= targets@.len(),
            forall|j: int| 0 <= j < i ==> (#[trigger] targets@[j]).0@ != id@,
        decreases targets@.len() - i,
    {
        if targets[i].0.same(id) {
            return true;
        }
        i = i + 1;
    }
    false
}

/// Nodes that are no targets.
pub open spec fn untargeted(targets: Seq<(NodeId, SocketAddr)>) -> spec_fn(NodeId) -> bool {
    |id: NodeId| !targeted(targets, id@)
}

/// Nodes other than the named one.
pub open spec fn other_than(id: Seq<char>) -> spec_fn(NodeId) -> bool {
    |other: NodeId| other@ != id
}

/// What the driver is asked to do.
#[derive(Debug, PartialEq, Eq)]
pub enum ConnectionAction {
    /// Connect to a node.
    Connect { node: NodeId, address: SocketAddr },
    /// Disconnect from a node.
    Disconnect { node: NodeId },
    /// Wait until the replicated state changes.
    Wait,
}

/// How far following the replicated state has come.
#[derive(Clone, Copy, Debug, PartialEq, Eq, Structural)]
pub enum ConnectionPhase {
    /// A connection is being made.
    Connecting { index: usize },
    /// A connection is being ended.
    Disconnecting { index: usize },
    /// The connections are as they should be.
    Waiting,
}

/// The connections of the primary: made to all nodes at the start, and then
/// to new nodes, and ended with nodes that are gone. Connected nodes are known
/// by their names, each of which stands once.
#[derive(Debug, PartialEq, Eq)]
pub struct Connections {
    pub starting: bool,
    pub connected: Vec<NodeId>,
    pub current: Vec<(NodeId, SocketAddr)>,
    pub removed: Vec<NodeId>,
    pub phase: ConnectionPhase,
}

/// Where the first target that is not connected stands, from `i` on.
pub open spec fn next_new(
    targets: Seq<(NodeId, SocketAddr)>,
    connected: Seq<NodeId>,
    i: int,
) -> int
    decreases targets.len() - i,
{
    if 0 <= i < targets.len() {
        if among(connected, targets[i].0@) {
            next_new(targets, connected, i + 1)
        } else {
            i
        }
    } else {
        targets.len() as int
    }
}

/// Where the next target to connect to stands, from `i` on: at the start every
/// target is one, whether or not a node of its name is connected.
pub open spec fn next_target(c: Connections, i: int) -> int {
    if c.starting {
        i
    } else {
        next_new(c.current@, c.connected@, i)
    }
}

/// The connected nodes after one more was connected to.
pub open spec fn with_connected(connected: Seq<NodeId>, id: NodeId) -> Seq<NodeId> {
    if among(connected, id@) {
        connected
    } else {
        connected.push(id)
    }
}

/// Whether connections are made from `from` on, and those with nodes that are
/// gone are ended when no more are to be made.
pub open spec fn connects_from(c: Connections, from: int, next: Connections, action: ConnectionAction) -> bool {
    let i = next_target(c, from);
    &&& next.starting == c.starting
    &&& next.connected@ == c.connected@
    &&& next.current@ == c.current@
    &&& if i < c.current@.len() {
        &&& next.phase == (ConnectionPhase::Connecting { index: i as usize })
        &&& action == (ConnectionAction::Connect {
            node: c.current@[i].0,
            address: c.current@[i].1,
        })
    } else {
        &&& next.removed@ == select(c.connected@, untargeted(c.current@))
        &&& disconnects_from(next, 0, next.phase, action)
    }
}

/// Whether connections are ended from `k` on.
pub open spec fn disconnects_from(
    c: Connections,
    k: int,
    phase: ConnectionPhase,
    action: ConnectionAction,
) -> bool {
    if k < c.removed@.len() {
        phase == (ConnectionPhase::Disconnecting { index: k as usize }) && action
            == (ConnectionAction::Disconnect { node: c.removed@[k] })
    } else {
        phase is Waiting && action is Wait
    }
}

impl Connections {
    /// Whether no connection is left, when all is done, with a node that is
    /// gone.
    pub open spec fn wf(self) -> bool {
        match self.phase {
            ConnectionPhase::Connecting { index } => index < self.current@.len(),
            ConnectionPhase::Disconnecting { index } => {
                &&& index < self.removed@.len()
                &&& forall|j: int|
                    0 <= j < self.connected@.len() ==> targeted(
                        self.current@,
                        (#[trigger] self.connected@[j])@,
                    ) || among(
                        self.removed@.subrange(index as int, self.removed@.len() as int),
                        self.connected@[j]@,
                    )
            },
            ConnectionPhase::Waiting => forall|j: int|
                0 <= j < self.connected@.len() ==> targeted(
                    self.current@,
                    (#[trigger] self.connected@[j])@,
                ),
        }
    }

    /// Begins with the replicated state at the start, where nothing is
    /// connected, and gives the first action.
    pub fn begin(fsm: &FsmState, local: &Option<NodeId>) -> (res: (Connections, ConnectionAction))
        ensures
            res.0.wf(),
            exists|c: Connections|
                {
                    &&& c.starting
                    &&& c.connected@.len() == 0
                    &&& c.current@ == rpc_targets(select(fsm.nodes@, is_remote(*local)))
                    &&& #[trigger] connects_from(c, 0, res.0, res.1)
                },
    {
        let mut connections = Connections {
            starting: true,
            connected: Vec::new(),
            current: remote_nodes(fsm, local),
            removed: Vec::new(),
            phase: ConnectionPhase::Waiting,
        };
        let ghost c = connections;
        let action = connections.connect_from(0);
        let res = (connections, action);
        assert(connects_from(c, 0, res.0, res.1));
        res
    }

    /// Takes the replicated state when it has changed, and gives the first
    /// action.
    pub fn look(&mut self, fsm: &FsmState, local: &Option<NodeId>) -> (res: ConnectionAction)
        ensures
            final(self).wf(),
            exists|c: Connections|
                {
                    &&& !c.starting
                    &&& c.connected@ == old(self).connected@
                    &&& c.current@ == rpc_targets(select(fsm.nodes@, is_remote(*local)))
                    &&& #[trigger] connects_from(c, 0, *final(self), res)
                },
    {
        self.starting = false;
        self.current = remote_nodes(fsm, local);
        let ghost c = *self;
        let action = self.connect_from(0);
        assert(connects_from(c, 0, *self, action));
        action
    }

    fn connect_from(&mut self, from: usize) -> (res: ConnectionAction)
        requires
            from <= old(self).current@.len(),
        ensures
            final(self).wf(),
            connects_from(*old(self), from as int, *final(self), res),
    {
        let mut i: usize = from;
        while !self.starting && i < self.current.len() && is_among(
            &self.connected,
            &self.current[i].0,
        )
            invariant
                *self == *old(self),
                i <= self.current@.len(),
                next_target(*self, from as int) == next_target(*self, i as int),
            decreases self.current@.len() - i,
        {
            i = i + 1;
        }
        if i < self.current.len() {
            self.phase = ConnectionPhase::Connecting { index: i };
            ConnectionAction::Connect {
                node: self.current[i].0.clone(),
                address: self.current[i].1,
            }
        } else {
            self.removed = self.list_removed();
            proof {
                let all = self.connected@;
                let gone = untargeted(self.current@);
                lemma_selected(all, gone);
                assert(self.removed@.subrange(0, self.removed@.len() as int) =~= self.removed@);
                assert forall|j: int| 0 <= j < all.len() implies targeted(
                    self.current@,
                    (#[trigger] all[j])@,
                ) || among(self.removed@, all[j]@) by {
                    if gone(all[j]) {
                        assert(self.removed@.contains(all[j]));
                        let m = choose|m: int|
                            0 <= m < self.removed@.len() && self.removed@[m] == all[j];
                        assert(self.removed@[m]@ == all[j]@);
                    }
                }
            }
            self.disconnect_from(0)
        }
    }

    fn list_removed(&self) -> (res: Vec<NodeId>)
        ensures
            res@ == select(self.connected@, untargeted(self.current@)),
    {
        let mut out: Vec<NodeId> = Vec::new();
        let ghost all = self.connected@;
        let ghost p = untargeted(self.current@);
        let mut i: usize = 0;
        while i < self.connected.len()
            invariant
                i <= all.len(),
                all == self.connected@,
                p == untargeted(self.current@),
                out@ == select(all.take(i as int), p),
            decreases all.len() - i,
        {
            proof {
                lemma_select_take(all, p, i as int);
            }
            if !is_targeted(&self.current, &self.connected[i]) {
                out.push(self.connected[i].clone());
            }
            i = i + 1;
        }
        assert(all.take(i as int) =~= all);
        out
    }

    fn disconnect_from(&mut self, k: usize) -> (res: ConnectionAction)
        requires
            k <= old(self).removed@.len(),
            forall|j: int|
                0 <= j < old(self).connected@.len() ==> targeted(
                    old(self).current@,
                    (#[trigger] old(self).connected@[j])@,
                ) || among(
                    old(self).removed@.subrange(k as int, old(self).removed@.len() as int),
                    old(self).connected@[j]@,
                ),
        ensures
            final(self).starting == old(self).starting,
            final(self).connected == old(self).connected,
            final(self).current == old(self).current,
            final(self).removed == old(self).removed,
            final(self).wf(),
            disconnects_from(*old(self), k as int, final(self).phase, res),
    {
        if k < self.removed.len() {
            self.phase = ConnectionPhase::Disconnecting { index: k };
            ConnectionAction::Disconnect { node: self.removed[k].clone() }
        } else {
            self.phase = ConnectionPhase::Waiting;
            ConnectionAction::Wait
        }
    }

    /// Takes whether a connection was made, and gives the next action.
    pub fn connection_tried(&mut self, success: bool) -> (res: ConnectionAction)
        requires
            old(self).wf(),
            old(self).phase is Connecting,
        ensures
            final(self).wf(),
            exists|c: Connections|
                {
                    &&& c.starting == old(self).starting
                    &&& c.connected@ == if success {
                        with_connected(
                            old(self).connected@,
                            old(self).current@[old(self).phase->Connecting_index as int].0,
                        )
                    } else {
                        old(self).connected@
                    }
                    &&& c.current@ == old(self).current@
                    &&& #[trigger] connects_from(
                        c,
                        old(self).phase->Connecting_index + 1,
                        *final(self),
                        res,
                    )
                },
    {
        let index: usize = match self.phase {
            ConnectionPhase::Connecting { index } => index,
            _ => 0,
        };
        if success && !is_among(&self.connected, &self.current[index].0) {
            let node = self.current[index].0.clone();
            self.connected.push(node);
        }
        let ghost c = *self;
        assert(index < self.current.len());
        let action = self.connect_from(index + 1);
        assert(connects_from(c, index + 1, *self, action));
        action
    }

    /// Takes that a connection was ended, and gives the next action.
    pub fn disconnected(&mut self) -> (res: ConnectionAction)
        requires
            old(self).wf(),
            old(self).phase is Disconnecting,
        ensures
            final(self).wf(),
            ({
                let k = old(self).phase->Disconnecting_index as int;
                &&& final(self).connected@ == select(
                    old(self).connected@,
                    other_than(old(self).removed@[k]@),
                )
                &&& final(self).starting == old(self).starting
                &&& final(self).current@ == old(self).current@
                &&& final(self).removed@ == old(self).removed@
                &&& disconnects_from(*old(self), k + 1, final(self).phase, res)
            }),
    {
        let index: usize = match self.phase {
            ConnectionPhase::Disconnecting { index } => index,
            _ => 0,
        };
        let mut kept: Vec<NodeId> = Vec::new();
        let ghost all = self.connected@;
        let ghost p = other_than(self.removed@[index as int]@);
        let mut i: usize = 0;
        while i < self.connected.len()
            invariant
                *self == *old(self),
                index < self.removed@.len(),
                i <= all.len(),
                all == self.connected@,
                p == other_than(self.removed@[index as int]@),
                kept@ == select(all.take(i as int), p),
            decreases all.len() - i,
        {
            proof {
                lemma_select_take(all, p, i as int);
            }
            if !self.connected[i].same(&self.removed[index]) {
                kept.push(self.connected[i].clone());
            }
            i = i + 1;
        }
        assert(all.take(i as int) =~= all);
        self.connected = kept;
        assert(index < self.removed.len());
        proof {
            lemma_selected(all, p);
            let from = self.removed@.subrange(index as int, self.removed@.len() as int);
            let rest = self.removed@.subrange(index + 1, self.removed@.len() as int);
            assert forall|j: int| 0 <= j < self.connected@.len() implies targeted(
                self.current@,
                (#[trigger] self.connected@[j])@,
            ) || among(rest, self.connected@[j]@) by {
                let id = self.connected@[j];
                assert(all.contains(id));
                let m = choose|m: int| 0 <= m < all.len() && all[m] == id;
                assert(targeted(self.current@, all[m]@) || among(from, all[m]@));
                if among(from, id@) {
                    let n = choose|n: int| 0 <= n < from.len() && (#[trigger] from[n])@ == id@;
                    assert(n > 0);
                    assert(rest[n - 1]@ == id@);
                }
            }
        }
        self.disconnect_from(index + 1)
    }
}

/// The primary never connects to its own node by the network.
pub proof fn own_node_is_no_target(fsm: FsmState, local: NodeId)
    ensures
        !targeted(rpc_targets(select(fsm.nodes@, is_remote(Some(local)))), local@),
{
    let p = is_remote(Some(local));
    lemma_selected(fsm.nodes@, p);
    let sel = select(fsm.nodes@, p);
    assert forall|i: int| 0 <= i < rpc_targets(sel).len() implies (#[trigger] rpc_targets(
        sel,
    )[i]).0@ != local@ by {
        assert(p(sel[i]));
    }
}

/// The primary connects to every node but its own, at the address where that node
/// takes commands, and to nothing else.
pub proof fn other_nodes_are_targets(fsm: FsmState, local: Option<NodeId>, i: int, k: int)
    ensures
        ({
            let targets = rpc_targets(select(fsm.nodes@, is_remote(local)));
            let node = fsm.nodes@[i];
            &&& 0 <= i < fsm.nodes@.len() && (local is None || local->0@ != node.mill_id@)
                ==> targets.contains(
                (
                    node.mill_id,
                    if node.rpc_address is Some {
                        node.rpc_address->0
                    } else {
                        node.address
                    },
                ),
            )
            &&& 0 <= k < targets.len() ==> (local is Some ==> targets[k].0@ != local->0@)
                && exists|n: int|
                0 <= n < fsm.nodes@.len() && (#[trigger] fsm.nodes@[n]).mill_id == targets[k].0
        }),
{
    let p = is_remote(local);
    let sel = select(fsm.nodes@, p);
    let targets = rpc_targets(sel);
    lemma_selected(fsm.nodes@, p);
    if 0 <= i < fsm.nodes@.len() && (local is None || local->0@ != fsm.nodes@[i].mill_id@) {
        let node = fsm.nodes@[i];
        assert(p(node));
        let m = choose|m: int| 0 <= m < sel.len() && sel[m] == node;
        assert(targets[m] == (
            node.mill_id,
            if node.rpc_address is Some {
                node.rpc_address->0
            } else {
                node.address
            },
        ));
    }
    if 0 <= k < targets.len() {
        let n = choose|n: int| 0 <= n < fsm.nodes@.len() && fsm.nodes@[n] == sel[k];
        assert(p(sel[k]));
        assert(fsm.nodes@[n].mill_id == targets[k].0);
    }
}

proof fn lemma_next_new(targets: Seq<(NodeId, SocketAddr)>, connected: Seq<NodeId>, i: int)
    requires
        0 <= i <= targets.len(),
    ensures
        i <= next_new(targets, connected, i) <= targets.len(),
        next_new(targets, connected, i) < targets.len() ==> !among(
            connected,
            targets[next_new(targets, connected, i)].0@,
        ),
        forall|j: int|
            i <= j < next_new(targets, connected, i) ==> among(
                connected,
                (#[trigger] targets[j]).0@,
            ),
    decreases targets.len() - i,
{
    if i < targets.len() && among(connected, targets[i].0@) {
        lemma_next_new(targets, connected, i + 1);
    }
}

/// A connection is made to a target, at its address, and once the start is over only
/// to one that is not connected; it is ended with a node that is connected and no
/// target; and nothing is waited for while a target is not connected or a connected
/// node is no target.
pub proof fn connections_follow_the_targets(
    c: Connections,
    from: int,
    next: Connections,
    action: ConnectionAction,
)
    requires
        0 <= from <= c.current@.len(),
        connects_from(c, from, next, action),
    ensures
        action matches ConnectionAction::Connect { node, address } ==> {
            &&& c.current@.contains((node, address))
            &&& c.starting || forall|j: int|
                0 <= j < c.connected@.len() ==> (#[trigger] c.connected@[j])@ != node@
        },
        action matches ConnectionAction::Disconnect { node } ==> {
            &&& c.connected@.contains(node)
            &&& forall|j: int|
                0 <= j < c.current@.len() ==> (#[trigger] c.current@[j]).0@ != node@
        },
        action is Wait ==> forall|j: int|
            0 <= j < c.connected@.len() ==> exists|k: int|
                0 <= k < c.current@.len() && (#[trigger] c.current@[k]).0@ == (
                #[trigger] c.connected@[j])@,
        c.starting && from < c.current@.len() ==> action == (ConnectionAction::Connect {
            node: c.current@[from].0,
            address: c.current@[from].1,
        }),
        !(action is Connect) && !c.starting ==> forall|j: int|
            from <= j < c.current@.len() ==> exists|k: int|
                0 <= k < c.connected@.len() && (#[trigger] c.connected@[k])@ == (
                #[trigger] c.current@[j]).0@,
        next.connected@ == c.connected@,
{
    let gone = untargeted(c.current@);
    lemma_selected(c.connected@, gone);
    lemma_next_new(c.current@, c.connected@, from);
    if action is Wait {
        assert forall|j: int| 0 <= j < c.connected@.len() implies exists|k: int|
            0 <= k < c.current@.len() && (#[trigger] c.current@[k]).0@ == (
            #[trigger] c.connected@[j])@ by {
            if gone(c.connected@[j]) {
                let m = choose|m: int| 0 <= m < next.removed@.len() && next.removed@[m]
                    == c.connected@[j];
            }
            assert(targeted(c.current@, c.connected@[j]@));
        }
    }
    if !(action is Connect) && !c.starting {
        assert forall|j: int| from <= j < c.current@.len() implies exists|k: int|
            0 <= k < c.connected@.len() && (#[trigger] c.connected@[k])@ == (
            #[trigger] c.current@[j]).0@ by {
            assert(among(c.connected@, c.current@[j].0@));
        }
    }
}

/// A node that was connected to is among the connected ones from then on, one that was
/// disconnected from is not, and the others stay as they were.
pub proof fn connected_nodes_are_remembered(connected: Seq<NodeId>, id: NodeId, other: Seq<char>)
    ensures
        among(with_connected(connected, id), id@),
        !among(select(connected, other_than(id@)), id@),
        other != id@ ==> (among(with_connected(connected, id), other) <==> among(
            connected,
            other,
        )),
        other != id@ ==> (among(select(connected, other_than(id@)), other) <==> among(
            connected,
            other,
        )),
{
    let with = with_connected(connected, id);
    let p = other_than(id@);
    let without = select(connected, p);
    lemma_selected(connected, p);
    if !among(connected, id@) {
        assert(with[connected.len() as int]@ == id@);
    }
    if among(without, id@) {
        let k = choose|k: int| 0 <= k < without.len() && (#[trigger] without[k])@ == id@;
        assert(p(without[k]));
    }
    if other != id@ {
        if among(connected, other) {
            let k = choose|k: int| 0 <= k < connected.len() && (#[trigger] connected[k])@ == other;
            assert(with[k] == connected[k]);
            assert(p(connected[k]));
            let m = without.index_of(connected[k]);
            assert(without[m]@ == other);
        }
        if among(with, other) {
            let k = choose|k: int| 0 <= k < with.len() && (#[trigger] with[k])@ == other;
            assert(connected[k] == with[k]);
        }
        if among(without, other) {
            let k = choose|k: int| 0 <= k < without.len() && (#[trigger] without[k])@ == other;
            assert(connected.contains(without[k]));
            let m = connected.index_of(without[k]);
            assert(connected[m]@ == other);
        }
    }
}

} // verus!
