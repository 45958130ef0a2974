//! Starting the part of a node that leads.
use crate::config::NodeId;
use crate::error::NodeError;
use crate::net::{addr_text, SocketAddr};
use vstd::prelude::*;

verus! {

/// One thing to do at the start.
#[derive(Debug, PartialEq, Eq)]
pub enum StartStep {
    /// Send the commands for a node to the containers on this machine.
    RegisterLocal(NodeId),
    /// Take the reports of the containers on this machine.
    DrainLocalReports,
    /// Keep connected to the other nodes.
    WatchConnections,
    /// Process reports.
    ProcessReports,
    /// Keep names up to date.
    WatchDns,
    /// Keep routes up to date.
    WatchProxy,
    /// Watch over nodes and services.
    Watchdog,
    /// Listen for requests.
    BindApi,
}

/// What there is to do when containers run on this machine too.
pub open spec fn local_steps(local: bool, local_node_id: Option<NodeId>) -> Seq<StartStep> {
    if local {
        match local_node_id {
            Some(id) => seq![StartStep::RegisterLocal(id), StartStep::DrainLocalReports],
            None => seq![StartStep::DrainLocalReports],
        }
    } else {
        Seq::empty()
    }
}

/// A step, where it is asked for.
pub open spec fn step_if(asked: bool, step: StartStep) -> Seq<StartStep> {
    if asked {
        seq![step]
    } else {
        Seq::empty()
    }
}

/// What there is to do at the start, in order.
pub open spec fn steps(
    local: bool,
    local_node_id: Option<NodeId>,
    dns: bool,
    proxy: bool,
) -> Seq<StartStep> {
    local_steps(local, local_node_id) + seq![
        StartStep::WatchConnections,
        StartStep::ProcessReports,
    ] + step_if(dns, StartStep::WatchDns) + step_if(proxy, StartStep::WatchProxy) + seq![
        StartStep::Watchdog,
        StartStep::BindApi,
    ]
}

/// Lists what there is to do at the start, in order. `local` tells whether
/// containers run on this machine too.
pub fn start_steps(local: bool, local_node_id: &Option<NodeId>, dns: bool, proxy: bool) -> (res:
    Vec<StartStep>)
    ensures
        res@ == steps(local, *local_node_id, dns, proxy),
{
    let mut out: Vec<StartStep> = Vec::new();
    if local {
        if let Some(id) = local_node_id {
            out.push(StartStep::RegisterLocal(id.clone()));
        }
        out.push(StartStep::DrainLocalReports);
    }
    assert(out@ =~= local_steps(local, *local_node_id));
    out.push(StartStep::WatchConnections);
    out.push(StartStep::ProcessReports);
    if dns {
        out.push(StartStep::WatchDns);
    }
    if proxy {
        out.push(StartStep::WatchProxy);
    }
    out.push(StartStep::Watchdog);
    out.push(StartStep::BindApi);
    assert(out@ =~= steps(local, *local_node_id, dns, proxy));
    out
}

/// Takes what came of listening on an address: the one that was got, or the
/// words of the error.
pub fn bound(address: SocketAddr, outcome: Result<SocketAddr, String>) -> (res: Result<
    SocketAddr,
    NodeError,
>)
    ensures
        match outcome {
            Ok(got) => res == Ok::<SocketAddr, NodeError>(got),
            Err(e) => res matches Err(NodeError::Bind { address: text, source }) && text@
                == addr_text(address) && source == e,
        },
{
    match outcome {
        Ok(got) => Ok(got),
        Err(source) => Err(NodeError::Bind { address: address.to_text(), source }),
    }
}

/// Reports are processed before anything can ask for what they tell: requests
/// are taken last, whatever is asked for.
pub proof fn requests_are_taken_last(
    local: bool,
    local_node_id: Option<NodeId>,
    dns: bool,
    proxy: bool,
    i: int,
)
    requires
        0 <= i < steps(local, local_node_id, dns, proxy).len(),
    ensures
        steps(local, local_node_id, dns, proxy)[i] is BindApi <==> i == steps(
            local,
            local_node_id,
            dns,
            proxy,
        ).len() - 1,
{
}

/// What is done at the start is what was asked for: names and routes are kept up to
/// date where there is a server for them, and commands and reports of this machine are
/// taken where containers run on it; the rest is done in any case.
pub proof fn starts_do_what_is_asked_for(
    local: bool,
    local_node_id: Option<NodeId>,
    dns: bool,
    proxy: bool,
)
    ensures
        steps(local, local_node_id, dns, proxy).contains(StartStep::WatchDns) <==> dns,
        steps(local, local_node_id, dns, proxy).contains(StartStep::WatchProxy) <==> proxy,
        steps(local, local_node_id, dns, proxy).contains(StartStep::DrainLocalReports) <==> local,
        forall|id: NodeId| #[trigger]
            steps(local, local_node_id, dns, proxy).contains(StartStep::RegisterLocal(id))
                <==> local && local_node_id == Some(id),
        steps(local, local_node_id, dns, proxy).contains(StartStep::WatchConnections),
        steps(local, local_node_id, dns, proxy).contains(StartStep::ProcessReports),
        steps(local, local_node_id, dns, proxy).contains(StartStep::Watchdog),
        steps(local, local_node_id, dns, proxy).contains(StartStep::BindApi),
{
    let own = local_steps(local, local_node_id);
    let first = own + seq![StartStep::WatchConnections, StartStep::ProcessReports];
    let named = first + step_if(dns, StartStep::WatchDns);
    let routed = named + step_if(proxy, StartStep::WatchProxy);
    let all = steps(local, local_node_id, dns, proxy);
    assert(all == routed + seq![StartStep::Watchdog, StartStep::BindApi]);
    assert(all[own.len() as int] is WatchConnections);
    assert(all[own.len() as int + 1] is ProcessReports);
    assert(all[all.len() - 2] is Watchdog);
    assert(all[all.len() - 1] is BindApi);
    if dns {
        assert(all[first.len() as int] is WatchDns);
    }
    if proxy {
        assert(all[named.len() as int] is WatchProxy);
    }
    if local {
        assert(all[own.len() - 1] == own[own.len() - 1]);
        if local_node_id is Some {
            assert(all[0] == StartStep::RegisterLocal(local_node_id->0));
        }
    }
}

} // verus!
