//! Placement of allocations on nodes.
use crate::config::{
    find, has_key, lemma_position, position, Alloc, AllocKind, NodeId, NodeResources, NodeStatus, Resources,
    VolumeState,
};
use crate::fsm::{
    left_on, lemma_left_on, node_available_resources, remainders_are_those_of_the_node, FsmNode,
    FsmVolume,
};
use crate::units::gib;
use vstd::prelude::*;

verus! {

/// Input to the placement scheduler.
pub struct ScheduleRequest<'a> {
    /// Resources needed by this allocation.
    pub need: &'a Resources,
    /// Name of the service or task.
    pub name: &'a String,
    /// Whether this is a service or task.
    pub kind: AllocKind,
    /// Volume name, if the allocation needs a persistent volume.
    pub volume: Option<&'a String>,
}

/// Whether what is left on a node is enough.
pub open spec fn fits(available: Option<NodeResources>, need: Resources) -> bool {
    &&& available is Some
    &&& available->0.cpu_available >= need.cpu
    &&& available->0.memory_available >= need.memory
}

/// Whether a node takes work and has enough left.
pub open spec fn is_candidate(
    node: FsmNode,
    available: Seq<(u64, NodeResources)>,
    need: Resources,
) -> bool {
    node.status is Ready && fits(left_on(available, node.raft_id), need)
}

/// Whether a node holds an allocation of the service already.
pub open spec fn holds_service(allocs: Seq<Alloc>, node: Seq<char>, name: Seq<char>) -> bool {
    exists|i: int|
        0 <= i < allocs.len() && (#[trigger] allocs[i]).node@ == node && allocs[i].name@ == name
            && allocs[i].kind is Service
}

/// The node that the named volume is attached to.
pub open spec fn attached_to(volumes: Seq<(String, FsmVolume)>, name: Seq<char>) -> Option<NodeId> {
    if has_key(volumes, name) {
        match volumes[position(volumes, name)].1.state {
            VolumeState::Attached { node } => Some(node),
            VolumeState::Ready => None,
        }
    } else {
        None
    }
}

/// The node that the volume of the request pins it to.
pub open spec fn pinned(request: ScheduleRequest<'_>, volumes: Seq<(String, FsmVolume)>) -> Option<
    NodeId,
> {
    match request.volume {
        Some(name) => attached_to(volumes, name@),
        None => None,
    }
}

/// Whether the node of a given place is free of the service and a candidate.
pub open spec fn is_fresh(
    request: ScheduleRequest<'_>,
    nodes: Seq<FsmNode>,
    allocs: Seq<Alloc>,
    available: Seq<(u64, NodeResources)>,
    i: int,
) -> bool {
    &&& is_candidate(nodes[i], available, *request.need)
    &&& !holds_service(allocs, nodes[i].mill_id@, request.name@)
}

/// Whether the request is spread: a service, with a candidate that is free of
/// it.
pub open spec fn spreads(
    request: ScheduleRequest<'_>,
    nodes: Seq<FsmNode>,
    allocs: Seq<Alloc>,
    available: Seq<(u64, NodeResources)>,
) -> bool {
    request.kind is Service && exists|i: int|
        0 <= i < nodes.len() && #[trigger] is_fresh(request, nodes, allocs, available, i)
}

/// Whether the node of a given place may be picked.
pub open spec fn in_pool(
    request: ScheduleRequest<'_>,
    nodes: Seq<FsmNode>,
    allocs: Seq<Alloc>,
    available: Seq<(u64, NodeResources)>,
    i: int,
) -> bool {
    if spreads(request, nodes, allocs, available) {
        is_fresh(request, nodes, allocs, available, i)
    } else {
        is_candidate(nodes[i], available, *request.need)
    }
}

/// How much is left on a node: its cores plus its gibibytes, both counted in
/// the same fine unit. The lower it is, the more the node is packed.
pub open spec fn score(avail: NodeResources) -> int {
    avail.cpu_available * 1_073_741_824 + avail.memory_available * 1_000_000_000
}

/// How much is left on the node of a given place.
pub open spec fn score_at(
    nodes: Seq<FsmNode>,
    available: Seq<(u64, NodeResources)>,
    i: int,
) -> int {
    score(left_on(available, nodes[i].raft_id)->0)
}

/// Whether the node of a given place is the one to pick: the most packed of
/// the pool, the first one where several are equally packed.
pub open spec fn is_pick(
    request: ScheduleRequest<'_>,
    nodes: Seq<FsmNode>,
    allocs: Seq<Alloc>,
    available: Seq<(u64, NodeResources)>,
    i: int,
) -> bool {
    &&& 0 <= i < nodes.len()
    &&& in_pool(request, nodes, allocs, available, i)
    &&& forall|j: int|
        0 <= j < nodes.len() && #[trigger] in_pool(request, nodes, allocs, available, j)
            ==> score_at(nodes, available, i) <= score_at(nodes, available, j)
    &&& forall|j: int|
        0 <= j < i && #[trigger] in_pool(request, nodes, allocs, available, j) ==> score_at(
            nodes,
            available,
            i,
        ) < score_at(nodes, available, j)
}

/// Whether the pinned node takes the request.
pub open spec fn pin_fits(
    node: NodeId,
    need: Resources,
    nodes: Seq<FsmNode>,
    available: Seq<(u64, NodeResources)>,
) -> bool {
    exists|i: int|
        0 <= i < nodes.len() && (#[trigger] nodes[i]).mill_id@ == node@ && is_candidate(
            nodes[i],
            available,
            need,
        )
}

/// Whether `node` is where a request is placed.
pub open spec fn is_placed(
    request: ScheduleRequest<'_>,
    nodes: Seq<FsmNode>,
    allocs: Seq<Alloc>,
    volumes: Seq<(String, FsmVolume)>,
    available: Seq<(u64, NodeResources)>,
    node: Option<NodeId>,
) -> bool {
    if pinned(request, volumes) is Some {
        node == if pin_fits(pinned(request, volumes)->0, *request.need, nodes, available) {
            pinned(request, volumes)
        } else {
            None
        }
    } else {
        match node {
            Some(id) => exists|i: int| #[trigger]
                is_pick(request, nodes, allocs, available, i) && id == nodes[i].mill_id,
            None => forall|i: int|
                0 <= i < nodes.len() ==> !is_candidate(
                    #[trigger] nodes[i],
                    available,
                    *request.need,
                ),
        }
    }
}

/// Whether what is left on a node is enough.
fn has_capacity(available: &Option<NodeResources>, need: &Resources) -> (res: bool)
    ensures
        res == fits(*available, *need),
        res <==> (available is Some && need.cpu <= available->0.cpu_available && need.memory
            <= available->0.memory_available),
{
    match available {
        Some(avail) => avail.cpu_available >= need.cpu && avail.memory_available >= need.memory,
        None => false,
    }
}

/// Lower score = more packed = preferred for bin-packing.
fn bin_pack_score(avail: &NodeResources) -> (res: u128)
    ensures
        res == score(*avail),
        res == avail.cpu_available * 1_073_741_824 + avail.memory_available * 1_000_000_000,
{
    let unit: u128 = gib(1) as u128;
    assert(avail.cpu_available * unit == avail.cpu_available * 1_073_741_824) by (nonlinear_arith)
        requires
            unit == 1_073_741_824,
    ;
    avail.cpu_available as u128 * unit + avail.memory_available as u128 * 1_000_000_000
}

/// Whether a node holds an allocation of the service already.
fn has_same(allocs: &Vec<Alloc>, node: &NodeId, name: &String) -> (res: bool)
    ensures
        res == holds_service(allocs@, node@, name@),
        res <==> exists|i: int|
            0 <= i < allocs@.len() && (#[trigger] allocs@[i]).node@ == node@ && allocs@[i].name@
                == name@ && allocs@[i].kind == AllocKind::Service,
{
    let mut i: usize = 0;
    while i < allocs.len()
        invariant
            i <= allocs@.len(),
            forall|j: int|
                0 <= j < i ==> !((#[trigger] allocs@[j]).node@ == node@ && allocs@[j].name@
                    == name@ && allocs@[j].kind is Service),
        decreases allocs@.len() - i,
    {
        if allocs[i].node.same(node) && allocs[i].name == *name && allocs[i].kind
            == AllocKind::Service {
            return true;
        }
        i = i + 1;
    }
    false
}

/// The node that the named volume is attached to.
fn attachment<'a>(volumes: &'a Vec<(String, FsmVolume)>, name: &String) -> (res: Option<
    &'a NodeId,
>)
    ensures
        res is Some <==> attached_to(volumes@, name@) is Some,
        res is Some ==> *res->0 == attached_to(volumes@, name@)->0,
{
    match find(volumes, name) {
        Some(i) => match &volumes[i].1.state {
            VolumeState::Attached { node } => Some(node),
            VolumeState::Ready => None,
        },
        None => None,
    }
}

/// Picks the node for an allocation.
///
/// 1. Volume affinity: where the volume is attached to a node, only that node
///    will do.
/// 2. Filter: only nodes that are `Ready` with enough available resources.
/// 3. Spread: for services, prefer nodes without allocations of the same name.
/// 4. Bin-pack: among those left, pick the node with least available.
pub fn schedule(
    request: &ScheduleRequest<'_>,
    nodes: &Vec<FsmNode>,
    allocs: &Vec<Alloc>,
    volumes: &Vec<(String, FsmVolume)>,
    available: &Vec<(u64, NodeResources)>,
) -> (res: Option<NodeId>)
    ensures
        is_placed(*request, nodes@, allocs@, volumes@, available@, res),
        pinned(*request, volumes@) is Some ==> res == if pin_fits(
            pinned(*request, volumes@)->0,
            *request.need,
            nodes@,
            available@,
        ) {
            pinned(*request, volumes@)
        } else {
            None
        },
        pinned(*request, volumes@) is None ==> match res {
            Some(id) => exists|i: int| #[trigger]
                is_pick(*request, nodes@, allocs@, available@, i) && id == nodes@[i].mill_id,
            None => forall|i: int|
                0 <= i < nodes@.len() ==> !is_candidate(
                    #[trigger] nodes@[i],
                    available@,
                    *request.need,
                ),
        },
{
    if let Some(name) = request.volume {
        if let Some(node) = attachment(volumes, name) {
            let mut i: usize = 0;
            while i < nodes.len()
                invariant
                    i <= nodes@.len(),
                    pinned(*request, volumes@) == Some(*node),
                    forall|j: int|
                        0 <= j < i ==> !((#[trigger] nodes@[j]).mill_id@ == node@ && is_candidate(
                            nodes@[j],
                            available@,
                            *request.need,
                        )),
                decreases nodes@.len() - i,
            {
                if nodes[i].mill_id.same(node) && nodes[i].status == NodeStatus::Ready
                    && has_capacity(
                    &node_available_resources(available.as_slice(), nodes[i].raft_id),
                    request.need,
                ) {
                    return Some(node.clone());
                }
                i = i + 1;
            }
            return None;
        }
    }
    let ghost ns = nodes@;
    let ghost al = allocs@;
    let ghost av = available@;
    // The most packed candidate, and the most packed one that is free of the
    // service.
    let mut best: Option<(usize, u128)> = None;
    let mut fresh: Option<(usize, u128)> = None;
    let mut i: usize = 0;
    while i < nodes.len()
        invariant
            i <= nodes@.len(),
            ns == nodes@,
            al == allocs@,
            av == available@,
            match best {
                Some((b, s)) => {
                    &&& b < i
                    &&& is_candidate(ns[b as int], av, *request.need)
                    &&& s == score_at(ns, av, b as int)
                    &&& forall|j: int|
                        0 <= j < i && is_candidate(#[trigger] ns[j], av, *request.need) ==> s
                            <= score_at(ns, av, j)
                    &&& forall|j: int|
                        0 <= j < b && is_candidate(#[trigger] ns[j], av, *request.need) ==> s
                            < score_at(ns, av, j)
                },
                None => forall|j: int|
                    0 <= j < i ==> !is_candidate(#[trigger] ns[j], av, *request.need),
            },
            match fresh {
                Some((b, s)) => {
                    &&& b < i
                    &&& is_fresh(*request, ns, al, av, b as int)
                    &&& s == score_at(ns, av, b as int)
                    &&& forall|j: int|
                        0 <= j < i && #[trigger] is_fresh(*request, ns, al, av, j) ==> s
                            <= score_at(ns, av, j)
                    &&& forall|j: int|
                        0 <= j < b && #[trigger] is_fresh(*request, ns, al, av, j) ==> s
                            < score_at(ns, av, j)
                },
                None => forall|j: int|
                    0 <= j < i ==> !(#[trigger] is_fresh(*request, ns, al, av, j)),
            },
        decreases nodes@.len() - i,
    {
        let node = &nodes[i];
        if node.status == NodeStatus::Ready {
            let avail = node_available_resources(available.as_slice(), node.raft_id);
            if has_capacity(&avail, request.need) {
                if let Some(left) = avail {
                    let s: u128 = bin_pack_score(&left);
                    let better: bool = match best {
                        Some((_, t)) => s < t,
                        None => true,
                    };
                    if better {
                        best = Some((i, s));
                    }
                    if !has_same(allocs, &node.mill_id, request.name) {
                        let better: bool = match fresh {
                            Some((_, t)) => s < t,
                            None => true,
                        };
                        if better {
                            fresh = Some((i, s));
                        }
                    }
                }
            }
        }
        i = i + 1;
    }
    if request.kind == AllocKind::Service {
        if let Some((b, _)) = fresh {
            assert(is_fresh(*request, ns, al, av, b as int));
            assert(spreads(*request, ns, al, av));
            assert(is_pick(*request, ns, al, av, b as int));
            return Some(nodes[b].mill_id.clone());
        }
    }
    assert(!spreads(*request, ns, al, av));
    match best {
        Some((b, _)) => {
            assert forall|j: int|
                0 <= j < ns.len() && #[trigger] in_pool(
                    *request,
                    ns,
                    al,
                    av,
                    j,
                ) implies is_candidate(ns[j], av, *request.need) by {}
            assert(is_pick(*request, ns, al, av, b as int));
            Some(nodes[b].mill_id.clone())
        },
        None => None,
    }
}

/// The node that is picked takes work and has enough left.
pub proof fn pick_is_ready_and_fits(
    request: ScheduleRequest<'_>,
    nodes: Seq<FsmNode>,
    allocs: Seq<Alloc>,
    available: Seq<(u64, NodeResources)>,
    i: int,
)
    requires
        is_pick(request, nodes, allocs, available, i),
    ensures
        nodes[i].status is Ready,
        fits(left_on(available, nodes[i].raft_id), *request.need),
{
}

/// No two nodes are both the one to pick.
pub proof fn pick_is_unique(
    request: ScheduleRequest<'_>,
    nodes: Seq<FsmNode>,
    allocs: Seq<Alloc>,
    available: Seq<(u64, NodeResources)>,
    i: int,
    j: int,
)
    requires
        is_pick(request, nodes, allocs, available, i),
        is_pick(request, nodes, allocs, available, j),
    ensures
        i == j,
{
}

/// A service is placed beside another of its allocations only where every
/// node that could take it holds one already.
pub proof fn services_spread(
    request: ScheduleRequest<'_>,
    nodes: Seq<FsmNode>,
    allocs: Seq<Alloc>,
    available: Seq<(u64, NodeResources)>,
    i: int,
    j: int,
)
    requires
        request.kind is Service,
        is_pick(request, nodes, allocs, available, i),
        holds_service(allocs, nodes[i].mill_id@, request.name@),
        0 <= j < nodes.len(),
        is_candidate(nodes[j], available, *request.need),
    ensures
        holds_service(allocs, nodes[j].mill_id@, request.name@),
{
    if !holds_service(allocs, nodes[j].mill_id@, request.name@) {
        assert(is_fresh(request, nodes, allocs, available, j));
    }
}

/// The first volume of a name says where the volume is attached.
proof fn lemma_attached(volumes: Seq<(String, FsmVolume)>, name: Seq<char>, v: int)
    requires
        0 <= v < volumes.len(),
        volumes[v].0@ == name,
        forall|w: int| 0 <= w < v ==> (#[trigger] volumes[w]).0@ != name,
    ensures
        attached_to(volumes, name) == match volumes[v].1.state {
            VolumeState::Attached { node } => Some(node),
            VolumeState::Ready => None,
        },
{
    lemma_position(volumes, name);
}

/// An allocation is placed only on a node that takes work and has at least as
/// much CPU and as much memory left as the allocation needs.
pub proof fn placements_have_room(
    request: ScheduleRequest<'_>,
    nodes: Seq<FsmNode>,
    allocs: Seq<Alloc>,
    volumes: Seq<(String, FsmVolume)>,
    available: Seq<(u64, NodeResources)>,
    id: NodeId,
)
    requires
        is_placed(request, nodes, allocs, volumes, available, Some(id)),
    ensures
        exists|i: int, k: int|
            {
                &&& 0 <= i < nodes.len()
                &&& 0 <= k < available.len()
                &&& (#[trigger] nodes[i]).mill_id@ == id@
                &&& nodes[i].status == NodeStatus::Ready
                &&& (#[trigger] available[k]).0 == nodes[i].raft_id
                &&& forall|m: int| 0 <= m < k ==> (#[trigger] available[m]).0 != nodes[i].raft_id
                &&& request.need.cpu <= available[k].1.cpu_available
                &&& request.need.memory <= available[k].1.memory_available
            },
{
    let i = if pinned(request, volumes) is Some {
        choose|i: int|
            0 <= i < nodes.len() && (#[trigger] nodes[i]).mill_id@ == id@ && is_candidate(
                nodes[i],
                available,
                *request.need,
            )
    } else {
        choose|i: int| #[trigger]
            is_pick(request, nodes, allocs, available, i) && id == nodes[i].mill_id
    };
    assert(is_candidate(nodes[i], available, *request.need));
    remainders_are_those_of_the_node(available, nodes[i].raft_id);
    let left = left_on(available, nodes[i].raft_id)->0;
    let k = choose|k: int|
        0 <= k < available.len() && #[trigger] available[k] == (nodes[i].raft_id, left)
            && forall|m: int| 0 <= m < k ==> (#[trigger] available[m]).0 != nodes[i].raft_id;
    assert(nodes[i].mill_id@ == id@ && available[k].0 == nodes[i].raft_id);
}

/// An allocation whose volume is attached to a node is placed on that node or
/// nowhere.
pub proof fn volumes_pin_their_allocation(
    request: ScheduleRequest<'_>,
    nodes: Seq<FsmNode>,
    allocs: Seq<Alloc>,
    volumes: Seq<(String, FsmVolume)>,
    available: Seq<(u64, NodeResources)>,
    id: NodeId,
    name: &String,
    v: int,
    node: NodeId,
)
    requires
        is_placed(request, nodes, allocs, volumes, available, Some(id)),
        request.volume == Some(name),
        0 <= v < volumes.len(),
        volumes[v].0@ == name@,
        forall|w: int| 0 <= w < v ==> (#[trigger] volumes[w]).0@ != name@,
        volumes[v].1.state == (VolumeState::Attached { node }),
    ensures
        id == node,
{
    lemma_attached(volumes, name@, v);
}

/// Where an allocation is placed nowhere, no node that takes work has room for
/// it, but for nodes other than the one that its volume is attached to.
pub proof fn refusals_mean_that_there_is_no_room(
    request: ScheduleRequest<'_>,
    nodes: Seq<FsmNode>,
    allocs: Seq<Alloc>,
    volumes: Seq<(String, FsmVolume)>,
    available: Seq<(u64, NodeResources)>,
    i: int,
    k: int,
)
    requires
        is_placed(request, nodes, allocs, volumes, available, None),
        0 <= i < nodes.len(),
        nodes[i].status == NodeStatus::Ready,
        0 <= k < available.len(),
        available[k].0 == nodes[i].raft_id,
        forall|m: int| 0 <= m < k ==> (#[trigger] available[m]).0 != nodes[i].raft_id,
        request.need.cpu <= available[k].1.cpu_available,
        request.need.memory <= available[k].1.memory_available,
    ensures
        request.volume matches Some(name) && exists|v: int|
            0 <= v < volumes.len() && (#[trigger] volumes[v]).0@ == name@ && (
            volumes[v].1.state matches VolumeState::Attached { node } && node@
                != nodes[i].mill_id@),
{
    lemma_left_on(available, nodes[i].raft_id, k);
    assert(is_candidate(nodes[i], available, *request.need));
    let name = request.volume->0;
    lemma_position(volumes, name@);
    let v = position(volumes, name@);
    assert(volumes[v].0@ == name@);
}

/// Whether the node of place `i` holds an allocation of the service.
pub open spec fn is_occupied(nodes: Seq<FsmNode>, allocs: Seq<Alloc>, name: Seq<char>, i: int) -> bool {
    exists|a: int|
        0 <= a < allocs.len() && (#[trigger] allocs[a]).node@ == nodes[i].mill_id@
            && allocs[a].name@ == name && allocs[a].kind == AllocKind::Service
}

/// Whether the node of place `i` takes work and entry `k` says that it has
/// room.
pub open spec fn is_roomy(
    nodes: Seq<FsmNode>,
    available: Seq<(u64, NodeResources)>,
    need: Resources,
    i: int,
    k: int,
) -> bool {
    &&& 0 <= i < nodes.len()
    &&& nodes[i].status == NodeStatus::Ready
    &&& 0 <= k < available.len()
    &&& available[k].0 == nodes[i].raft_id
    &&& forall|m: int| 0 <= m < k ==> (#[trigger] available[m]).0 != nodes[i].raft_id
    &&& need.cpu <= available[k].1.cpu_available
    &&& need.memory <= available[k].1.memory_available
}

/// Where no volume decides, a service is placed beside an allocation of its own
/// only where every node with room holds one, and of the nodes that are equally
/// good in that the one is picked that has the least left, where a core counts
/// as much as a gibibyte: no other has less CPU and no more memory left, nor
/// less memory and no more CPU.
pub proof fn placements_spread_and_pack(
    request: ScheduleRequest<'_>,
    nodes: Seq<FsmNode>,
    allocs: Seq<Alloc>,
    volumes: Seq<(String, FsmVolume)>,
    available: Seq<(u64, NodeResources)>,
    id: NodeId,
)
    requires
        is_placed(request, nodes, allocs, volumes, available, Some(id)),
        request.volume is None || forall|v: int|
            0 <= v < volumes.len() && (#[trigger] volumes[v]).0@ == request.volume->0@
                ==> volumes[v].1.state == VolumeState::Ready,
    ensures
        exists|i: int, k: int|
            {
                &&& #[trigger] is_roomy(nodes, available, *request.need, i, k)
                &&& nodes[i].mill_id@ == id@
                &&& forall|j: int, l: int| #[trigger]
                    is_roomy(nodes, available, *request.need, j, l) ==> {
                        let free_i = !is_occupied(nodes, allocs, request.name@, i);
                        let free_j = !is_occupied(nodes, allocs, request.name@, j);
                        let left_i = available[k].1;
                        let left_j = available[l].1;
                        &&& request.kind == AllocKind::Service && free_j ==> free_i
                        &&& request.kind == AllocKind::Task || free_i == free_j ==> {
                            &&& left_i.cpu_available * 1_073_741_824 + left_i.memory_available
                                * 1_000_000_000 <= left_j.cpu_available * 1_073_741_824
                                + left_j.memory_available * 1_000_000_000
                            &&& left_j.cpu_available < left_i.cpu_available
                                ==> left_j.memory_available > left_i.memory_available
                            &&& left_j.memory_available < left_i.memory_available
                                ==> left_j.cpu_available > left_i.cpu_available
                        }
                    }
            },
{
    if request.volume is Some {
        lemma_position(volumes, request.volume->0@);
        if has_key(volumes, request.volume->0@) {
            assert(volumes[position(volumes, request.volume->0@)].0@ == request.volume->0@);
        }
    }
    assert(pinned(request, volumes) is None);
    let need = *request.need;
    let i = choose|i: int| #[trigger]
        is_pick(request, nodes, allocs, available, i) && id == nodes[i].mill_id;
    assert(is_candidate(nodes[i], available, need));
    remainders_are_those_of_the_node(available, nodes[i].raft_id);
    let left = left_on(available, nodes[i].raft_id)->0;
    let k = choose|k: int|
        0 <= k < available.len() && #[trigger] available[k] == (nodes[i].raft_id, left)
            && forall|m: int| 0 <= m < k ==> (#[trigger] available[m]).0 != nodes[i].raft_id;
    assert(is_roomy(nodes, available, need, i, k));
    assert forall|j: int, l: int| #[trigger] is_roomy(nodes, available, need, j, l) implies {
        let free_i = !is_occupied(nodes, allocs, request.name@, i);
        let free_j = !is_occupied(nodes, allocs, request.name@, j);
        let left_i = available[k].1;
        let left_j = available[l].1;
        &&& request.kind == AllocKind::Service && free_j ==> free_i
        &&& request.kind == AllocKind::Task || free_i == free_j ==> {
            &&& left_i.cpu_available * 1_073_741_824 + left_i.memory_available * 1_000_000_000
                <= left_j.cpu_available * 1_073_741_824 + left_j.memory_available * 1_000_000_000
            &&& left_j.cpu_available < left_i.cpu_available ==> left_j.memory_available
                > left_i.memory_available
            &&& left_j.memory_available < left_i.memory_available ==> left_j.cpu_available
                > left_i.cpu_available
        }
    } by {
        lemma_left_on(available, nodes[j].raft_id, l);
        assert(is_candidate(nodes[j], available, need));
        assert(is_occupied(nodes, allocs, request.name@, i) == holds_service(
            allocs,
            nodes[i].mill_id@,
            request.name@,
        ));
        assert(is_occupied(nodes, allocs, request.name@, j) == holds_service(
            allocs,
            nodes[j].mill_id@,
            request.name@,
        ));
        assert(is_fresh(request, nodes, allocs, available, j) == !is_occupied(
            nodes,
            allocs,
            request.name@,
            j,
        ));
        assert(is_fresh(request, nodes, allocs, available, i) == !is_occupied(
            nodes,
            allocs,
            request.name@,
            i,
        ));
        assert(in_pool(request, nodes, allocs, available, j) ==> score_at(nodes, available, i)
            <= score_at(nodes, available, j));
    }
}

} // verus!
