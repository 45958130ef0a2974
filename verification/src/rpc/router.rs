//! Which way commands to nodes go.
use crate::config::NodeId;
use crate::error::NodeError;
use crate::rpc::protocol::AuthResponse;
use crate::rpc::server::{bad_request, is_bad_request};
use crate::table::Table;
use vstd::prelude::*;
use vstd::string::*;

verus! {

/// Routes commands to the channel of a node, by the number that the driver
/// gave the channel. Connections that can be ended have a number, too.
#[derive(Debug, PartialEq, Eq)]
pub struct CommandRouter {
    pub routes: Table<u64>,
    pub connections: Table<u64>,
}

/// The numbers in entries.
pub open spec fn numbers(entries: Seq<(String, u64)>) -> Seq<u64> {
    Seq::new(entries.len(), |i: int| entries[i].1)
}

impl CommandRouter {
    /// Whether each node stands once.
    pub open spec fn wf(&self) -> bool {
        self.routes.wf() && self.connections.wf()
    }

    /// A router that knows no node.
    pub fn new() -> (res: CommandRouter)
        ensures
            res.wf(),
            res.routes@ == Map::<Seq<char>, u64>::empty(),
            res.connections@ == Map::<Seq<char>, u64>::empty(),
    {
        CommandRouter { routes: Table::new(), connections: Table::new() }
    }

    /// Registers the channel of a node.
    pub fn register(&mut self, node_id: NodeId, channel: u64)
        requires
            old(self).wf(),
        ensures
            final(self).wf(),
            final(self).routes@ == old(self).routes@.insert(node_id@, channel),
            final(self).connections == old(self).connections,
    {
        self.routes.insert(node_id.0, channel);
    }

    /// Takes the channel of a node out.
    pub fn deregister(&mut self, node_id: &NodeId)
        requires
            old(self).wf(),
        ensures
            final(self).wf(),
            final(self).routes@ == old(self).routes@.remove(node_id@),
            final(self).connections == old(self).connections,
    {
        let _ = self.routes.remove(&node_id.0);
    }

    /// The channel that a command to a node goes to.
    pub fn route(&self, node_id: &NodeId) -> (res: Result<u64, NodeError>)
        ensures
            res == if self.routes@.dom().contains(node_id@) {
                Ok::<u64, NodeError>(self.routes@[node_id@])
            } else {
                Err(NodeError::NodeUnreachable(node_id.0))
            },
    {
        match self.routes.get(&node_id.0) {
            Some(channel) => Ok(*channel),
            None => Err(NodeError::NodeUnreachable(node_id.0.clone())),
        }
    }

    /// The channels that a command to all nodes goes to.
    pub fn all_routes(&self) -> (res: Vec<u64>)
        ensures
            res@ == numbers(self.routes.entries@),
    {
        let mut out: Vec<u64> = Vec::new();
        let mut i: usize = 0;
        while i < self.routes.entries.len()
            invariant
                i <= self.routes.entries@.len(),
                out@ == numbers(self.routes.entries@).take(i as int),
            decreases self.routes.entries@.len() - i,
        {
            out.push(self.routes.entries[i].1);
            i = i + 1;
            assert(out@ =~= numbers(self.routes.entries@).take(i as int));
        }
        assert(out@ =~= numbers(self.routes.entries@));
        out
    }

    /// Registers the channel of a node that is reached by the network, and the
    /// connection that it belongs to.
    pub fn wire(&mut self, node_id: NodeId, channel: u64, connection: u64)
        requires
            old(self).wf(),
        ensures
            final(self).wf(),
            final(self).routes@ == old(self).routes@.insert(node_id@, channel),
            final(self).connections@ == old(self).connections@.insert(node_id@, connection),
    {
        let name = node_id.0.clone();
        self.routes.insert(name, channel);
        self.connections.insert(node_id.0, connection);
    }

    /// How many nodes are known.
    pub fn route_count(&self) -> (res: usize)
        ensures
            res == self.routes.entries@.len(),
    {
        self.routes.len()
    }

    /// Takes a node out, and gives the connection to end, where it has one.
    pub fn disconnect(&mut self, node_id: &NodeId) -> (res: Option<u64>)
        requires
            old(self).wf(),
        ensures
            final(self).wf(),
            final(self).routes@ == old(self).routes@.remove(node_id@),
            final(self).connections@ == old(self).connections@.remove(node_id@),
            res == if old(self).connections@.dom().contains(node_id@) {
                Some(old(self).connections@[node_id@])
            } else {
                None
            },
    {
        let connection = self.connections.remove(&node_id.0);
        self.deregister(node_id);
        connection
    }
}

/// What came of sending a command, by whether its channel took it.
pub fn sent(delivered: bool) -> (res: Result<(), NodeError>)
    ensures
        res == if delivered {
            Ok::<(), NodeError>(())
        } else {
            Err(NodeError::ChannelClosed)
        },
{
    if delivered {
        Ok(())
    } else {
        Err(NodeError::ChannelClosed)
    }
}

/// What came of sending a command to all nodes, by whether each channel took
/// it: an error where any did not.
pub fn broadcast(delivered: &Vec<bool>) -> (res: Result<(), NodeError>)
    ensures
        res == if forall|i: int| 0 <= i < delivered@.len() ==> #[trigger] delivered@[i] {
            Ok::<(), NodeError>(())
        } else {
            Err(NodeError::ChannelClosed)
        },
{
    let mut i: usize = 0;
    while i < delivered.len()
        invariant
            i <= delivered@.len(),
            forall|j: int| 0 <= j < i ==> #[trigger] delivered@[j],
        decreases delivered@.len() - i,
    {
        if !delivered[i] {
            return Err(NodeError::ChannelClosed);
        }
        i = i + 1;
    }
    Ok(())
}

/// What came of reading the answer to the first message: the answer, the end
/// of the stream, or the words of an error.
#[derive(Debug, PartialEq, Eq)]
pub enum FirstAnswer {
    Response(AuthResponse),
    Closed,
    Failed(String),
}

/// Decides about a connection by the answer to its first message.
pub fn do_auth(answer: FirstAnswer) -> (res: Result<(), NodeError>)
    ensures
        match answer {
            FirstAnswer::Response(response) => if response.ok {
                res is Ok
            } else {
                res matches Err(e) && is_bad_request(e, "rpc: auth rejected"@)
            },
            FirstAnswer::Closed => res matches Err(e) && is_bad_request(
                e,
                "rpc: connection closed during auth"@,
            ),
            FirstAnswer::Failed(why) => res matches Err(e) && is_bad_request(
                e,
                "rpc auth read: "@ + why@,
            ),
        },
{
    match answer {
        FirstAnswer::Response(response) => if response.ok {
            Ok(())
        } else {
            Err(NodeError::BadRequest("rpc: auth rejected".to_owned()))
        },
        FirstAnswer::Closed => Err(
            NodeError::BadRequest("rpc: connection closed during auth".to_owned()),
        ),
        FirstAnswer::Failed(why) => Err(bad_request("rpc auth read: ", &why)),
    }
}

/// The error where the first message could not be sent.
pub fn auth_write_failed(why: &String) -> (res: NodeError)
    ensures
        is_bad_request(res, "rpc auth write: "@ + why@),
{
    bad_request("rpc auth write: ", why)
}

/// A command to all nodes goes to the channel of each of them.
pub proof fn all_nodes_are_reached(entries: Seq<(String, u64)>, i: int)
    requires
        0 <= i < entries.len(),
    ensures
        numbers(entries).len() == entries.len(),
        numbers(entries)[i] == entries[i].1,
{
}

} // verus!
