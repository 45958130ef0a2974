//! What a node tells the primary at every beat.
use crate::config::{ContainerStats, NodeId, NodeResources};
use crate::rpc::protocol::Heartbeat;
use crate::secondary::state::{
    cpu_reserved, memory_reserved, statuses_of, volumes_of, AllocationMap,
};
use vstd::prelude::*;

verus! {

/// What is left when so much is taken; nothing where there is less.
pub open spec fn left(total: u64, taken: nat) -> u64 {
    if taken <= total {
        (total - taken) as u64
    } else {
        0
    }
}

/// What a node tells the primary: the statuses of its allocations, its
/// resources with what they reserve taken off, and what they use. `resources`
/// and `stats` are the latest figures.
pub fn heartbeat(
    allocs: &AllocationMap,
    resources: NodeResources,
    stats: Vec<ContainerStats>,
    node_id: &NodeId,
) -> (res: Heartbeat)
    requires
        memory_reserved(allocs.allocs.entries@) <= u64::MAX,
    ensures
        res.node_id == *node_id,
        res.alloc_statuses@ == statuses_of(allocs.allocs.entries@),
        res.resources == (NodeResources {
            cpu_total: resources.cpu_total,
            cpu_available: left(resources.cpu_total, cpu_reserved(allocs.allocs.entries@)),
            memory_total: resources.memory_total,
            memory_available: left(
                resources.memory_total,
                memory_reserved(allocs.allocs.entries@),
            ),
        }),
        res.stats == stats,
        res.volumes@ == volumes_of(allocs.allocs.entries@),
{
    let reserved_cpu: u128 = allocs.total_reserved_cpu();
    let cpu_available: u64 = if reserved_cpu <= resources.cpu_total as u128 {
        resources.cpu_total - reserved_cpu as u64
    } else {
        0
    };
    let reserved_memory: u64 = allocs.total_reserved_memory();
    let memory_available: u64 = resources.memory_total.saturating_sub(reserved_memory);
    Heartbeat {
        node_id: node_id.clone(),
        alloc_statuses: allocs.all_statuses(),
        resources: NodeResources {
            cpu_total: resources.cpu_total,
            cpu_available,
            memory_total: resources.memory_total,
            memory_available,
        },
        stats,
        volumes: allocs.volume_info(),
    }
}

/// A node never promises more than it has, and the more its allocations
/// reserve the less it promises.
pub proof fn heartbeats_promise_no_more_than_there_is(total: u64, taken: nat, more: nat)
    ensures
        left(total, taken) <= total,
        taken <= total ==> left(total, taken) + taken == total,
        taken <= more ==> left(total, more) <= left(total, taken),
{
}

} // verus!
