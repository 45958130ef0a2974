//! The figures of the cluster in the text form that monitoring reads.
use crate::config::{Alloc, AllocId, AllocKind, ContainerStats};
use crate::fsm::{left_on, lemma_left_on, node_available_resources, FsmNode, FsmState};
use crate::primary::metrics::{
    shows_all, DurationHistogramSnapshot, LiveMetrics, NodeMetricsSnapshot,
};
use crate::seqs::{first, lemma_is_first};
use crate::text::{billionths, billionths_text, decimal, decimal_text};
use crate::time::Duration;
use vstd::prelude::*;
use vstd::string::*;

verus! {

/// What the proxy counted for a route. Bounds are in nanoseconds; the last one
/// has none.
#[derive(Debug, PartialEq, Eq)]
pub struct RouteMetrics {
    pub hostname: String,
    pub path: String,
    pub request_count: u64,
    pub latency_sum: Duration,
    pub buckets: Vec<(Option<u64>, u64)>,
}

/// The heading of a figure: what it is and of which kind.
pub open spec fn heading(name: Seq<char>, help: Seq<char>, kind: Seq<char>) -> Seq<char> {
    "# HELP "@ + name + " "@ + help + "\n# TYPE "@ + name + " "@ + kind + "\n"@
}

fn heading_text(name: &str, help: &str, kind: &str) -> (res: String)
    ensures
        res@ == heading(name@, help@, kind@),
{
    let mut out = "# HELP ".to_owned();
    out.append(name);
    out.append(" ");
    out.append(help);
    out.append("\n# TYPE ");
    out.append(name);
    out.append(" ");
    out.append(kind);
    out.append("\n");
    out
}

/// A figure with one label.
pub open spec fn line1(
    name: Seq<char>,
    label: Seq<char>,
    of: Seq<char>,
    value: Seq<char>,
) -> Seq<char> {
    name + "{"@ + label + "=\""@ + of + "\"} "@ + value + "\n"@
}

fn line1_text(name: &str, label: &str, of: &String, value: &String) -> (res: String)
    ensures
        res@ == line1(name@, label@, of@, value@),
{
    let mut out = name.to_owned();
    out.append("{");
    out.append(label);
    out.append("=\"");
    out.append(of.as_str());
    out.append("\"} ");
    out.append(value.as_str());
    out.append("\n");
    out
}

/// A figure with two labels.
pub open spec fn line2(
    name: Seq<char>,
    label: Seq<char>,
    of: Seq<char>,
    label2: Seq<char>,
    of2: Seq<char>,
    value: Seq<char>,
) -> Seq<char> {
    name + "{"@ + label + "=\""@ + of + "\","@ + label2 + "=\""@ + of2 + "\"} "@ + value + "\n"@
}

fn line2_text(
    name: &str,
    label: &str,
    of: &String,
    label2: &str,
    of2: &String,
    value: &String,
) -> (res: String)
    ensures
        res@ == line2(name@, label@, of@, label2@, of2@, value@),
{
    let mut out = name.to_owned();
    out.append("{");
    out.append(label);
    out.append("=\"");
    out.append(of.as_str());
    out.append("\",");
    out.append(label2);
    out.append("=\"");
    out.append(of2.as_str());
    out.append("\"} ");
    out.append(value.as_str());
    out.append("\n");
    out
}

/// A figure with three labels.
pub open spec fn line3(
    name: Seq<char>,
    label: Seq<char>,
    of: Seq<char>,
    label2: Seq<char>,
    of2: Seq<char>,
    label3: Seq<char>,
    of3: Seq<char>,
    value: Seq<char>,
) -> Seq<char> {
    name + "{"@ + label + "=\""@ + of + "\","@ + label2 + "=\""@ + of2 + "\","@ + label3 + "=\""@
        + of3 + "\"} "@ + value + "\n"@
}

/// The figures of a node, where it reports any.
pub open spec fn live_of(live: LiveMetrics, node: FsmNode) -> Option<NodeMetricsSnapshot> {
    if live.node_metrics@.dom().contains(node.mill_id@) {
        Some(live.node_metrics@[node.mill_id@])
    } else {
        None
    }
}

/// The CPU that is free on a node: as it reports, else as the replicated
/// state has it.
pub open spec fn free_cpu(fsm: FsmState, live: LiveMetrics, node: FsmNode) -> Option<u64> {
    match live_of(live, node) {
        Some(s) => Some(s.resources.cpu_available),
        None => match left_on(fsm.available@, node.raft_id) {
            Some(left) => Some(left.cpu_available),
            None => None,
        },
    }
}

/// The memory that is free on a node: as it reports, else as the replicated
/// state has it.
pub open spec fn free_memory(fsm: FsmState, live: LiveMetrics, node: FsmNode) -> Option<u64> {
    match live_of(live, node) {
        Some(s) => Some(s.resources.memory_available),
        None => match left_on(fsm.available@, node.raft_id) {
            Some(left) => Some(left.memory_available),
            None => None,
        },
    }
}

/// The lines on the CPU that is free on nodes.
pub open spec fn cpu_lines(fsm: FsmState, live: LiveMetrics, nodes: Seq<FsmNode>) -> Seq<char>
    decreases nodes.len(),
{
    if nodes.len() == 0 {
        Seq::empty()
    } else {
        let before = cpu_lines(fsm, live, nodes.drop_last());
        match free_cpu(fsm, live, nodes.last()) {
            Some(v) => before + line1(
                "mill_node_cpu_available"@,
                "node"@,
                nodes.last().mill_id@,
                billionths(v as nat),
            ),
            None => before,
        }
    }
}

/// The lines on the memory that is free on nodes.
pub open spec fn memory_lines(fsm: FsmState, live: LiveMetrics, nodes: Seq<FsmNode>) -> Seq<char>
    decreases nodes.len(),
{
    if nodes.len() == 0 {
        Seq::empty()
    } else {
        let before = memory_lines(fsm, live, nodes.drop_last());
        match free_memory(fsm, live, nodes.last()) {
            Some(v) => before + line1(
                "mill_node_memory_available_bytes"@,
                "node"@,
                nodes.last().mill_id@,
                decimal(v as nat),
            ),
            None => before,
        }
    }
}

/// The part on nodes.
pub open spec fn node_part(fsm: FsmState, live: LiveMetrics) -> Seq<char> {
    heading("mill_node_cpu_available"@, "Free CPU cores per node"@, "gauge"@) + cpu_lines(
        fsm,
        live,
        fsm.nodes@,
    ) + heading(
        "mill_node_memory_available_bytes"@,
        "Free memory per node in bytes"@,
        "gauge"@,
    ) + memory_lines(fsm, live, fsm.nodes@)
}

fn find_free(fsm: &FsmState, live: &LiveMetrics, node: &FsmNode) -> (res: Option<(u64, u64)>)
    ensures
        res is Some <==> free_cpu(*fsm, *live, *node) is Some,
        res is Some <==> free_memory(*fsm, *live, *node) is Some,
        res matches Some(r) ==> free_cpu(*fsm, *live, *node) == Some(r.0) && free_memory(
            *fsm,
            *live,
            *node,
        ) == Some(r.1),
{
    match live.node_metrics.get(&node.mill_id.0) {
        Some(s) => Some((s.resources.cpu_available, s.resources.memory_available)),
        None => match node_available_resources(fsm.available.as_slice(), node.raft_id) {
            Some(left) => Some((left.cpu_available, left.memory_available)),
            None => None,
        },
    }
}

fn node_text(fsm: &FsmState, live: &LiveMetrics) -> (res: String)
    ensures
        res@ == node_part(*fsm, *live),
{
    let mut cpu = String::new();
    let mut memory = String::new();
    let mut i: usize = 0;
    let ghost all = fsm.nodes@;
    while i < fsm.nodes.len()
        invariant
            i <= all.len(),
            all == fsm.nodes@,
            cpu@ == cpu_lines(*fsm, *live, all.take(i as int)),
            memory@ == memory_lines(*fsm, *live, all.take(i as int)),
        decreases all.len() - i,
    {
        assert(all.take(i + 1).drop_last() =~= all.take(i as int));
        let node = &fsm.nodes[i];
        if let Some((c, m)) = find_free(fsm, live, node) {
            cpu.append(
                line1_text(
                    "mill_node_cpu_available",
                    "node",
                    &node.mill_id.0,
                    &billionths_text(c as u128),
                ).as_str(),
            );
            memory.append(
                line1_text(
                    "mill_node_memory_available_bytes",
                    "node",
                    &node.mill_id.0,
                    &decimal_text(m as u128),
                ).as_str(),
            );
        }
        i = i + 1;
    }
    assert(all.take(i as int) =~= all);
    let mut out = heading_text("mill_node_cpu_available", "Free CPU cores per node", "gauge");
    out.append(cpu.as_str());
    out.append(
        heading_text(
            "mill_node_memory_available_bytes",
            "Free memory per node in bytes",
            "gauge",
        ).as_str(),
    );
    out.append(memory.as_str());
    out
}

/// The last of the figures about an allocation.
pub open spec fn last_stat(stats: Seq<ContainerStats>, id: Seq<char>) -> Option<ContainerStats>
    decreases stats.len(),
{
    if stats.len() == 0 {
        None
    } else if stats.last().alloc_id@ == id {
        Some(stats.last())
    } else {
        last_stat(stats.drop_last(), id)
    }
}

/// The figures about an allocation that the last of several nodes to have any
/// reports.
pub open spec fn last_report(nodes: Seq<(String, NodeMetricsSnapshot)>, id: Seq<char>) -> Option<
    ContainerStats,
>
    decreases nodes.len(),
{
    if nodes.len() == 0 {
        None
    } else {
        match last_stat(nodes.last().1.container_stats@, id) {
            Some(s) => Some(s),
            None => last_report(nodes.drop_last(), id),
        }
    }
}

/// The CPU that an allocation uses, zero where none is reported.
pub open spec fn used_cpu(live: LiveMetrics, id: Seq<char>) -> u64 {
    match last_report(live.node_metrics.entries@, id) {
        Some(s) => s.cpu_usage,
        None => 0,
    }
}

/// The memory that an allocation uses, zero where none is reported.
pub open spec fn used_memory(live: LiveMetrics, id: Seq<char>) -> u64 {
    match last_report(live.node_metrics.entries@, id) {
        Some(s) => s.memory_usage,
        None => 0,
    }
}

/// The lines on the CPU that allocations use.
pub open spec fn alloc_cpu_lines(live: LiveMetrics, allocs: Seq<Alloc>) -> Seq<char>
    decreases allocs.len(),
{
    if allocs.len() == 0 {
        Seq::empty()
    } else {
        let a = allocs.last();
        alloc_cpu_lines(live, allocs.drop_last()) + line2(
            "mill_alloc_cpu_usage"@,
            "service"@,
            a.name@,
            "node"@,
            a.node@,
            billionths(used_cpu(live, a.id@) as nat),
        )
    }
}

/// The lines on the memory that allocations use.
pub open spec fn alloc_memory_lines(live: LiveMetrics, allocs: Seq<Alloc>) -> Seq<char>
    decreases allocs.len(),
{
    if allocs.len() == 0 {
        Seq::empty()
    } else {
        let a = allocs.last();
        alloc_memory_lines(live, allocs.drop_last()) + line2(
            "mill_alloc_memory_bytes"@,
            "service"@,
            a.name@,
            "node"@,
            a.node@,
            decimal(used_memory(live, a.id@) as nat),
        )
    }
}

/// The part on allocations.
pub open spec fn alloc_part(fsm: FsmState, live: LiveMetrics) -> Seq<char> {
    heading("mill_alloc_cpu_usage"@, "CPU usage per allocation in cores"@, "gauge"@)
        + alloc_cpu_lines(live, fsm.allocs@) + heading(
        "mill_alloc_memory_bytes"@,
        "Memory usage per allocation in bytes"@,
        "gauge"@,
    ) + alloc_memory_lines(live, fsm.allocs@)
}

fn find_stat<'a>(stats: &'a Vec<ContainerStats>, id: &AllocId) -> (res: Option<&'a ContainerStats>)
    ensures
        res is Some <==> last_stat(stats@, id@) is Some,
        res is Some ==> *res->0 == last_stat(stats@, id@)->0,
{
    let mut i: usize = stats.len();
    assert(stats@.take(i as int) =~= stats@);
    while i > 0
        invariant
            i <= stats@.len(),
            last_stat(stats@, id@) == last_stat(stats@.take(i as int), id@),
        decreases i,
    {
        assert(stats@.take(i as int).drop_last() =~= stats@.take(i - 1));
        if stats[i - 1].alloc_id.same(id) {
            return Some(&stats[i - 1]);
        }
        i = i - 1;
    }
    None
}

fn find_report<'a>(live: &'a LiveMetrics, id: &AllocId) -> (res: Option<&'a ContainerStats>)
    ensures
        res is Some <==> last_report(live.node_metrics.entries@, id@) is Some,
        res is Some ==> *res->0 == last_report(live.node_metrics.entries@, id@)->0,
{
    let ghost all = live.node_metrics.entries@;
    let mut i: usize = live.node_metrics.entries.len();
    assert(all.take(i as int) =~= all);
    while i > 0
        invariant
            i <= all.len(),
            all == live.node_metrics.entries@,
            last_report(all, id@) == last_report(all.take(i as int), id@),
        decreases i,
    {
        assert(all.take(i as int).drop_last() =~= all.take(i - 1));
        if let Some(s) = find_stat(&live.node_metrics.entries[i - 1].1.container_stats, id) {
            return Some(s);
        }
        i = i - 1;
    }
    None
}

fn alloc_text(fsm: &FsmState, live: &LiveMetrics) -> (res: String)
    ensures
        res@ == alloc_part(*fsm, *live),
{
    let mut cpu = String::new();
    let mut memory = String::new();
    let mut i: usize = 0;
    let ghost all = fsm.allocs@;
    while i < fsm.allocs.len()
        invariant
            i <= all.len(),
            all == fsm.allocs@,
            cpu@ == alloc_cpu_lines(*live, all.take(i as int)),
            memory@ == alloc_memory_lines(*live, all.take(i as int)),
        decreases all.len() - i,
    {
        assert(all.take(i + 1).drop_last() =~= all.take(i as int));
        let a = &fsm.allocs[i];
        let (c, m): (u64, u64) = match find_report(live, &a.id) {
            Some(s) => (s.cpu_usage, s.memory_usage),
            None => (0, 0),
        };
        cpu.append(
            line2_text(
                "mill_alloc_cpu_usage",
                "service",
                &a.name,
                "node",
                &a.node.0,
                &billionths_text(c as u128),
            ).as_str(),
        );
        memory.append(
            line2_text(
                "mill_alloc_memory_bytes",
                "service",
                &a.name,
                "node",
                &a.node.0,
                &decimal_text(m as u128),
            ).as_str(),
        );
        i = i + 1;
    }
    assert(all.take(i as int) =~= all);
    let mut out = heading_text(
        "mill_alloc_cpu_usage",
        "CPU usage per allocation in cores",
        "gauge",
    );
    out.append(cpu.as_str());
    out.append(
        heading_text(
            "mill_alloc_memory_bytes",
            "Memory usage per allocation in bytes",
            "gauge",
        ).as_str(),
    );
    out.append(memory.as_str());
    out
}

/// Allocations of the service of the given name.
pub open spec fn of_service(name: Seq<char>) -> spec_fn(Alloc) -> bool {
    |a: Alloc| a.name@ == name && a.kind is Service
}

/// The node of the first allocation of a service, `unknown` where there is
/// none.
pub open spec fn service_node(allocs: Seq<Alloc>, name: Seq<char>) -> Seq<char> {
    match first(allocs, of_service(name)) {
        Some(a) => a.node@,
        None => "unknown"@,
    }
}

fn find_service_node(fsm: &FsmState, name: &String) -> (res: String)
    ensures
        res@ == service_node(fsm.allocs@, name@),
{
    let mut i: usize = 0;
    while i < fsm.allocs.len()
        invariant
            i <= fsm.allocs@.len(),
            forall|j: int| 0 <= j < i ==> !of_service(name@)(#[trigger] fsm.allocs@[j]),
        decreases fsm.allocs@.len() - i,
    {
        if fsm.allocs[i].name == *name && fsm.allocs[i].kind == AllocKind::Service {
            proof {
                lemma_is_first(fsm.allocs@, of_service(name@), i as int);
            }
            return fsm.allocs[i].node.0.clone();
        }
        i = i + 1;
    }
    proof {
        lemma_is_first(fsm.allocs@, of_service(name@), i as int);
    }
    "unknown".to_owned()
}

/// The lines on restarts.
pub open spec fn restart_lines(allocs: Seq<Alloc>, counts: Seq<(String, u64)>) -> Seq<char>
    decreases counts.len(),
{
    if counts.len() == 0 {
        Seq::empty()
    } else {
        restart_lines(allocs, counts.drop_last()) + line2(
            "mill_alloc_restarts_total"@,
            "service"@,
            counts.last().0@,
            "node"@,
            service_node(allocs, counts.last().0@),
            decimal(counts.last().1 as nat),
        )
    }
}

/// The part on restarts, empty where there were none.
pub open spec fn restart_part(fsm: FsmState, live: LiveMetrics) -> Seq<char> {
    if live.restarts.entries@.len() == 0 {
        Seq::empty()
    } else {
        heading("mill_alloc_restarts_total"@, "Total service restart count"@, "counter"@)
            + restart_lines(fsm.allocs@, live.restarts.entries@)
    }
}

fn restart_text(fsm: &FsmState, live: &LiveMetrics) -> (res: String)
    ensures
        res@ == restart_part(*fsm, *live),
{
    let ghost all = live.restarts.entries@;
    if live.restarts.entries.len() == 0 {
        return String::new();
    }
    let mut lines = String::new();
    let mut i: usize = 0;
    while i < live.restarts.entries.len()
        invariant
            i <= all.len(),
            all == live.restarts.entries@,
            lines@ == restart_lines(fsm.allocs@, all.take(i as int)),
        decreases all.len() - i,
    {
        assert(all.take(i + 1).drop_last() =~= all.take(i as int));
        let (name, count) = &live.restarts.entries[i];
        let node = find_service_node(fsm, name);
        lines.append(
            line2_text(
                "mill_alloc_restarts_total",
                "service",
                name,
                "node",
                &node,
                &decimal_text(*count as u128),
            ).as_str(),
        );
        i = i + 1;
    }
    assert(all.take(i as int) =~= all);
    let mut out = heading_text(
        "mill_alloc_restarts_total",
        "Total service restart count",
        "counter",
    );
    out.append(lines.as_str());
    out
}

/// A bound in nanoseconds, written in seconds.
pub open spec fn nanos_bound(bound: Option<u64>) -> Seq<char> {
    match bound {
        Some(n) => billionths(n as nat),
        None => "+Inf"@,
    }
}

/// A bound in seconds.
pub open spec fn secs_bound(bound: Option<u64>) -> Seq<char> {
    match bound {
        Some(n) => decimal(n as nat),
        None => "+Inf"@,
    }
}

/// The lines on the requests of routes.
pub open spec fn request_lines(routes: Seq<RouteMetrics>) -> Seq<char>
    decreases routes.len(),
{
    if routes.len() == 0 {
        Seq::empty()
    } else {
        request_lines(routes.drop_last()) + line2(
            "mill_proxy_requests_total"@,
            "route"@,
            routes.last().hostname@,
            "path"@,
            routes.last().path@,
            decimal(routes.last().request_count as nat),
        )
    }
}

/// The lines on the buckets of a route.
pub open spec fn route_bucket_lines(route: RouteMetrics, buckets: Seq<(Option<u64>, u64)>) -> Seq<
    char,
>
    decreases buckets.len(),
{
    if buckets.len() == 0 {
        Seq::empty()
    } else {
        route_bucket_lines(route, buckets.drop_last()) + line3(
            "mill_proxy_latency_seconds_bucket"@,
            "route"@,
            route.hostname@,
            "path"@,
            route.path@,
            "le"@,
            nanos_bound(buckets.last().0),
            decimal(buckets.last().1 as nat),
        )
    }
}

/// The lines on the latency of a route.
pub open spec fn latency_of(route: RouteMetrics) -> Seq<char> {
    route_bucket_lines(route, route.buckets@) + line2(
        "mill_proxy_latency_seconds_sum"@,
        "route"@,
        route.hostname@,
        "path"@,
        route.path@,
        billionths(route.latency_sum.nanos as nat),
    ) + line2(
        "mill_proxy_latency_seconds_count"@,
        "route"@,
        route.hostname@,
        "path"@,
        route.path@,
        decimal(route.request_count as nat),
    )
}

/// The lines on the latency of routes.
pub open spec fn latency_lines(routes: Seq<RouteMetrics>) -> Seq<char>
    decreases routes.len(),
{
    if routes.len() == 0 {
        Seq::empty()
    } else {
        latency_lines(routes.drop_last()) + latency_of(routes.last())
    }
}

/// The part on the proxy, empty where it has no routes.
pub open spec fn proxy_part(routes: Seq<RouteMetrics>) -> Seq<char> {
    if routes.len() == 0 {
        Seq::empty()
    } else {
        heading("mill_proxy_requests_total"@, "Total proxied requests per route"@, "counter"@)
            + request_lines(routes) + heading(
            "mill_proxy_latency_seconds"@,
            "Proxy request latency histogram per route"@,
            "histogram"@,
        ) + latency_lines(routes)
    }
}

fn route_bucket_text(route: &RouteMetrics) -> (res: String)
    ensures
        res@ == route_bucket_lines(*route, route.buckets@),
{
    let mut out = String::new();
    let mut i: usize = 0;
    let ghost all = route.buckets@;
    while i < route.buckets.len()
        invariant
            i <= all.len(),
            all == route.buckets@,
            out@ == route_bucket_lines(*route, all.take(i as int)),
        decreases all.len() - i,
    {
        assert(all.take(i + 1).drop_last() =~= all.take(i as int));
        let (bound, count) = route.buckets[i];
        let le = match bound {
            Some(n) => billionths_text(n as u128),
            None => "+Inf".to_owned(),
        };
        let mut line = "mill_proxy_latency_seconds_bucket".to_owned();
        line.append("{");
        line.append("route");
        line.append("=\"");
        line.append(route.hostname.as_str());
        line.append("\",");
        line.append("path");
        line.append("=\"");
        line.append(route.path.as_str());
        line.append("\",");
        line.append("le");
        line.append("=\"");
        line.append(le.as_str());
        line.append("\"} ");
        line.append(decimal_text(count as u128).as_str());
        line.append("\n");
        out.append(line.as_str());
        i = i + 1;
    }
    assert(all.take(i as int) =~= all);
    out
}

fn latency_text(route: &RouteMetrics) -> (res: String)
    ensures
        res@ == latency_of(*route),
{
    let mut out = route_bucket_text(route);
    out.append(
        line2_text(
            "mill_proxy_latency_seconds_sum",
            "route",
            &route.hostname,
            "path",
            &route.path,
            &billionths_text(route.latency_sum.nanos),
        ).as_str(),
    );
    out.append(
        line2_text(
            "mill_proxy_latency_seconds_count",
            "route",
            &route.hostname,
            "path",
            &route.path,
            &decimal_text(route.request_count as u128),
        ).as_str(),
    );
    out
}

fn proxy_text(routes: &Vec<RouteMetrics>) -> (res: String)
    ensures
        res@ == proxy_part(routes@),
{
    if routes.len() == 0 {
        return String::new();
    }
    let mut requests = String::new();
    let mut latency = String::new();
    let mut i: usize = 0;
    let ghost all = routes@;
    while i < routes.len()
        invariant
            i <= all.len(),
            all == routes@,
            requests@ == request_lines(all.take(i as int)),
            latency@ == latency_lines(all.take(i as int)),
        decreases all.len() - i,
    {
        assert(all.take(i + 1).drop_last() =~= all.take(i as int));
        let route = &routes[i];
        requests.append(
            line2_text(
                "mill_proxy_requests_total",
                "route",
                &route.hostname,
                "path",
                &route.path,
                &decimal_text(route.request_count as u128),
            ).as_str(),
        );
        latency.append(latency_text(route).as_str());
        i = i + 1;
    }
    assert(all.take(i as int) =~= all);
    let mut out = heading_text(
        "mill_proxy_requests_total",
        "Total proxied requests per route",
        "counter",
    );
    out.append(requests.as_str());
    out.append(
        heading_text(
            "mill_proxy_latency_seconds",
            "Proxy request latency histogram per route",
            "histogram",
        ).as_str(),
    );
    out.append(latency.as_str());
    out
}

/// The lines on the spawns of tasks.
pub open spec fn spawn_lines(counts: Seq<(String, u64)>) -> Seq<char>
    decreases counts.len(),
{
    if counts.len() == 0 {
        Seq::empty()
    } else {
        spawn_lines(counts.drop_last()) + line1(
            "mill_tasks_spawned_total"@,
            "task"@,
            counts.last().0@,
            decimal(counts.last().1 as nat),
        )
    }
}

/// The part on the spawns of tasks, empty where there were none.
pub open spec fn spawn_part(live: LiveMetrics) -> Seq<char> {
    if live.task_spawns.entries@.len() == 0 {
        Seq::empty()
    } else {
        heading("mill_tasks_spawned_total"@, "Total task spawn count"@, "counter"@) + spawn_lines(
            live.task_spawns.entries@,
        )
    }
}

fn spawn_text(live: &LiveMetrics) -> (res: String)
    ensures
        res@ == spawn_part(*live),
{
    let ghost all = live.task_spawns.entries@;
    if live.task_spawns.entries.len() == 0 {
        return String::new();
    }
    let mut lines = String::new();
    let mut i: usize = 0;
    while i < live.task_spawns.entries.len()
        invariant
            i <= all.len(),
            all == live.task_spawns.entries@,
            lines@ == spawn_lines(all.take(i as int)),
        decreases all.len() - i,
    {
        assert(all.take(i + 1).drop_last() =~= all.take(i as int));
        let (name, count) = &live.task_spawns.entries[i];
        lines.append(
            line1_text(
                "mill_tasks_spawned_total",
                "task",
                name,
                &decimal_text(*count as u128),
            ).as_str(),
        );
        i = i + 1;
    }
    assert(all.take(i as int) =~= all);
    let mut out = heading_text("mill_tasks_spawned_total", "Total task spawn count", "counter");
    out.append(lines.as_str());
    out
}

/// The lines on the buckets of a task.
pub open spec fn task_bucket_lines(name: Seq<char>, buckets: Seq<(Option<u64>, u64)>) -> Seq<char>
    decreases buckets.len(),
{
    if buckets.len() == 0 {
        Seq::empty()
    } else {
        task_bucket_lines(name, buckets.drop_last()) + line2(
            "mill_tasks_duration_seconds_bucket"@,
            "task"@,
            name,
            "le"@,
            secs_bound(buckets.last().0),
            decimal(buckets.last().1 as nat),
        )
    }
}

/// The lines on the durations of a task.
pub open spec fn durations_of(task: DurationHistogramSnapshot) -> Seq<char> {
    task_bucket_lines(task.name@, task.buckets@) + line1(
        "mill_tasks_duration_seconds_sum"@,
        "task"@,
        task.name@,
        billionths(task.sum.nanos as nat),
    ) + line1(
        "mill_tasks_duration_seconds_count"@,
        "task"@,
        task.name@,
        decimal(task.count as nat),
    )
}

/// The lines on the durations of tasks.
pub open spec fn duration_lines(tasks: Seq<DurationHistogramSnapshot>) -> Seq<char>
    decreases tasks.len(),
{
    if tasks.len() == 0 {
        Seq::empty()
    } else {
        duration_lines(tasks.drop_last()) + durations_of(tasks.last())
    }
}

/// The part on the durations of tasks, empty where none ended.
pub open spec fn duration_part(tasks: Seq<DurationHistogramSnapshot>) -> Seq<char> {
    if tasks.len() == 0 {
        Seq::empty()
    } else {
        heading(
            "mill_tasks_duration_seconds"@,
            "Task execution duration histogram"@,
            "histogram"@,
        ) + duration_lines(tasks)
    }
}

fn durations_text(task: &DurationHistogramSnapshot) -> (res: String)
    ensures
        res@ == durations_of(*task),
{
    let mut out = String::new();
    let mut i: usize = 0;
    let ghost all = task.buckets@;
    while i < task.buckets.len()
        invariant
            i <= all.len(),
            all == task.buckets@,
            out@ == task_bucket_lines(task.name@, all.take(i as int)),
        decreases all.len() - i,
    {
        assert(all.take(i + 1).drop_last() =~= all.take(i as int));
        let (bound, count) = task.buckets[i];
        let le = match bound {
            Some(n) => decimal_text(n as u128),
            None => "+Inf".to_owned(),
        };
        out.append(
            line2_text(
                "mill_tasks_duration_seconds_bucket",
                "task",
                &task.name,
                "le",
                &le,
                &decimal_text(count as u128),
            ).as_str(),
        );
        i = i + 1;
    }
    assert(all.take(i as int) =~= all);
    out.append(
        line1_text(
            "mill_tasks_duration_seconds_sum",
            "task",
            &task.name,
            &billionths_text(task.sum.nanos),
        ).as_str(),
    );
    out.append(
        line1_text(
            "mill_tasks_duration_seconds_count",
            "task",
            &task.name,
            &decimal_text(task.count as u128),
        ).as_str(),
    );
    out
}

fn duration_text(tasks: &Vec<DurationHistogramSnapshot>) -> (res: String)
    ensures
        res@ == duration_part(tasks@),
{
    if tasks.len() == 0 {
        return String::new();
    }
    let mut lines = String::new();
    let mut i: usize = 0;
    let ghost all = tasks@;
    while i < tasks.len()
        invariant
            i <= all.len(),
            all == tasks@,
            lines@ == duration_lines(all.take(i as int)),
        decreases all.len() - i,
    {
        assert(all.take(i + 1).drop_last() =~= all.take(i as int));
        lines.append(durations_text(&tasks[i]).as_str());
        i = i + 1;
    }
    assert(all.take(i as int) =~= all);
    let mut out = heading_text(
        "mill_tasks_duration_seconds",
        "Task execution duration histogram",
        "histogram",
    );
    out.append(lines.as_str());
    out
}

/// All figures of the cluster.
pub open spec fn metrics_text(
    fsm: FsmState,
    live: LiveMetrics,
    tasks: Seq<DurationHistogramSnapshot>,
    routes: Seq<RouteMetrics>,
) -> Seq<char> {
    node_part(fsm, live) + alloc_part(fsm, live) + restart_part(fsm, live) + proxy_part(routes)
        + spawn_part(live) + duration_part(tasks)
}

/// All figures of the cluster, in the text form that monitoring reads. `routes`
/// is what the proxy counted, empty where there is no proxy.
pub fn get_metrics(fsm: &FsmState, live: &LiveMetrics, routes: &Vec<RouteMetrics>) -> (res: String)
    requires
        live.wf(),
    ensures
        exists|tasks: Seq<DurationHistogramSnapshot>|
            {
                &&& shows_all(*live, tasks)
                &&& res@ == #[trigger] metrics_text(*fsm, *live, tasks, routes@)
            },
{
    let tasks = live.task_duration_snapshots();
    let res = write_metrics(fsm, live, &tasks, routes);
    assert(res@ == metrics_text(*fsm, *live, tasks@, routes@));
    res
}

/// All figures of the cluster, where `tasks` are the histograms of tasks as
/// they are now.
pub fn write_metrics(
    fsm: &FsmState,
    live: &LiveMetrics,
    tasks: &Vec<DurationHistogramSnapshot>,
    routes: &Vec<RouteMetrics>,
) -> (res: String)
    ensures
        res@ == metrics_text(*fsm, *live, tasks@, routes@),
{
    let mut out = node_text(fsm, live);
    out.append(alloc_text(fsm, live).as_str());
    out.append(restart_text(fsm, live).as_str());
    out.append(proxy_text(routes).as_str());
    out.append(spawn_text(live).as_str());
    out.append(duration_text(tasks).as_str());
    out
}

/// A text with others around it.
pub open spec fn around(before: Seq<char>, part: Seq<char>, after: Seq<char>) -> Seq<char> {
    before + part + after
}

/// Whether a text holds another, without a gap.
pub open spec fn holds(text: Seq<char>, part: Seq<char>) -> bool {
    exists|before: Seq<char>, after: Seq<char>| text == #[trigger] around(before, part, after)
}

proof fn lemma_holds(a: Seq<char>, b: Seq<char>, x: Seq<char>)
    ensures
        holds(x, x),
        holds(a, x) || holds(b, x) ==> holds(a + b, x),
{
    let none = Seq::<char>::empty();
    assert(x =~= around(none, x, none));
    if holds(a, x) {
        let (before, after) = choose|before: Seq<char>, after: Seq<char>|
            a == #[trigger] around(before, x, after);
        assert(a + b =~= around(before, x, after + b));
    }
    if holds(b, x) {
        let (before, after) = choose|before: Seq<char>, after: Seq<char>|
            b == #[trigger] around(before, x, after);
        assert(a + b =~= around(a + before, x, after));
    }
}

/// What is held by one of the parts of the figures is held by the whole.
proof fn lemma_part_held(
    fsm: FsmState,
    live: LiveMetrics,
    tasks: Seq<DurationHistogramSnapshot>,
    routes: Seq<RouteMetrics>,
    x: Seq<char>,
)
    requires
        holds(node_part(fsm, live), x) || holds(alloc_part(fsm, live), x) || holds(
            restart_part(fsm, live),
            x,
        ) || holds(proxy_part(routes), x) || holds(spawn_part(live), x) || holds(
            duration_part(tasks),
            x,
        ),
    ensures
        holds(metrics_text(fsm, live, tasks, routes), x),
{
    let p1 = node_part(fsm, live);
    let p2 = alloc_part(fsm, live);
    let p3 = restart_part(fsm, live);
    let p4 = proxy_part(routes);
    let p5 = spawn_part(live);
    let p6 = duration_part(tasks);
    lemma_holds(p1, p2, x);
    lemma_holds(p1 + p2, p3, x);
    lemma_holds(p1 + p2 + p3, p4, x);
    lemma_holds(p1 + p2 + p3 + p4, p5, x);
    lemma_holds(p1 + p2 + p3 + p4 + p5, p6, x);
}

proof fn lemma_node_lines(fsm: FsmState, live: LiveMetrics, nodes: Seq<FsmNode>, i: int)
    requires
        0 <= i < nodes.len(),
    ensures
        free_cpu(fsm, live, nodes[i]) matches Some(v) ==> holds(
            cpu_lines(fsm, live, nodes),
            line1("mill_node_cpu_available"@, "node"@, nodes[i].mill_id@, billionths(v as nat)),
        ),
        free_memory(fsm, live, nodes[i]) matches Some(v) ==> holds(
            memory_lines(fsm, live, nodes),
            line1(
                "mill_node_memory_available_bytes"@,
                "node"@,
                nodes[i].mill_id@,
                decimal(v as nat),
            ),
        ),
    decreases nodes.len(),
{
    let rest = nodes.drop_last();
    let id = nodes[i].mill_id@;
    if i < rest.len() {
        lemma_node_lines(fsm, live, rest, i);
    }
    let last = nodes.last();
    if let Some(v) = free_cpu(fsm, live, nodes[i]) {
        let x = line1("mill_node_cpu_available"@, "node"@, id, billionths(v as nat));
        if let Some(w) = free_cpu(fsm, live, last) {
            lemma_holds(
                cpu_lines(fsm, live, rest),
                line1(
                    "mill_node_cpu_available"@,
                    "node"@,
                    last.mill_id@,
                    billionths(w as nat),
                ),
                x,
            );
        }
    }
    if let Some(v) = free_memory(fsm, live, nodes[i]) {
        let x = line1("mill_node_memory_available_bytes"@, "node"@, id, decimal(v as nat));
        if let Some(w) = free_memory(fsm, live, last) {
            lemma_holds(
                memory_lines(fsm, live, rest),
                line1(
                    "mill_node_memory_available_bytes"@,
                    "node"@,
                    last.mill_id@,
                    decimal(w as nat),
                ),
                x,
            );
        }
    }
}

/// Each node is shown with what is free on it: as it reported last, else as the
/// state has it.
pub proof fn nodes_are_shown_with_what_is_free(
    fsm: FsmState,
    live: LiveMetrics,
    tasks: Seq<DurationHistogramSnapshot>,
    routes: Seq<RouteMetrics>,
    i: int,
    cpu: u64,
    memory: u64,
)
    requires
        0 <= i < fsm.nodes@.len(),
        ({
            let node = fsm.nodes@[i];
            ||| live.node_metrics@.dom().contains(node.mill_id@)
                && live.node_metrics@[node.mill_id@].resources.cpu_available == cpu
                && live.node_metrics@[node.mill_id@].resources.memory_available == memory
            ||| !live.node_metrics@.dom().contains(node.mill_id@) && exists|k: int|
                {
                    &&& 0 <= k < fsm.available@.len()
                    &&& (#[trigger] fsm.available@[k]).0 == node.raft_id
                    &&& forall|m: int|
                        0 <= m < k ==> (#[trigger] fsm.available@[m]).0 != node.raft_id
                    &&& fsm.available@[k].1.cpu_available == cpu
                    &&& fsm.available@[k].1.memory_available == memory
                }
        }),
    ensures
        holds(
            metrics_text(fsm, live, tasks, routes),
            "mill_node_cpu_available"@ + "{"@ + "node"@ + "=\""@ + fsm.nodes@[i].mill_id@
                + "\"} "@ + billionths(cpu as nat) + "\n"@,
        ),
        holds(
            metrics_text(fsm, live, tasks, routes),
            "mill_node_memory_available_bytes"@ + "{"@ + "node"@ + "=\""@
                + fsm.nodes@[i].mill_id@ + "\"} "@ + decimal(memory as nat) + "\n"@,
        ),
{
    let node = fsm.nodes@[i];
    if !live.node_metrics@.dom().contains(node.mill_id@) {
        let k = choose|k: int|
            {
                &&& 0 <= k < fsm.available@.len()
                &&& (#[trigger] fsm.available@[k]).0 == node.raft_id
                &&& forall|m: int| 0 <= m < k ==> (#[trigger] fsm.available@[m]).0 != node.raft_id
                &&& fsm.available@[k].1.cpu_available == cpu
                &&& fsm.available@[k].1.memory_available == memory
            };
        lemma_left_on(fsm.available@, node.raft_id, k);
    }
    lemma_node_lines(fsm, live, fsm.nodes@, i);
    let h1 = heading("mill_node_cpu_available"@, "Free CPU cores per node"@, "gauge"@);
    let h2 = heading(
        "mill_node_memory_available_bytes"@,
        "Free memory per node in bytes"@,
        "gauge"@,
    );
    let a = cpu_lines(fsm, live, fsm.nodes@);
    let b = memory_lines(fsm, live, fsm.nodes@);
    let x = line1("mill_node_cpu_available"@, "node"@, node.mill_id@, billionths(cpu as nat));
    let y = line1(
        "mill_node_memory_available_bytes"@,
        "node"@,
        node.mill_id@,
        decimal(memory as nat),
    );
    lemma_holds(h1, a, x);
    lemma_holds(h1 + a, h2, x);
    lemma_holds(h1 + a + h2, b, x);
    lemma_holds(h1 + a + h2, b, y);
    lemma_part_held(fsm, live, tasks, routes, x);
    lemma_part_held(fsm, live, tasks, routes, y);
}

proof fn lemma_alloc_lines(live: LiveMetrics, allocs: Seq<Alloc>, i: int)
    requires
        0 <= i < allocs.len(),
    ensures
        holds(
            alloc_cpu_lines(live, allocs),
            line2(
                "mill_alloc_cpu_usage"@,
                "service"@,
                allocs[i].name@,
                "node"@,
                allocs[i].node@,
                billionths(used_cpu(live, allocs[i].id@) as nat),
            ),
        ),
        holds(
            alloc_memory_lines(live, allocs),
            line2(
                "mill_alloc_memory_bytes"@,
                "service"@,
                allocs[i].name@,
                "node"@,
                allocs[i].node@,
                decimal(used_memory(live, allocs[i].id@) as nat),
            ),
        ),
    decreases allocs.len(),
{
    let rest = allocs.drop_last();
    if i < rest.len() {
        lemma_alloc_lines(live, rest, i);
    }
    let a = allocs.last();
    let o = allocs[i];
    lemma_holds(
        alloc_cpu_lines(live, rest),
        line2(
            "mill_alloc_cpu_usage"@,
            "service"@,
            a.name@,
            "node"@,
            a.node@,
            billionths(used_cpu(live, a.id@) as nat),
        ),
        line2(
            "mill_alloc_cpu_usage"@,
            "service"@,
            o.name@,
            "node"@,
            o.node@,
            billionths(used_cpu(live, o.id@) as nat),
        ),
    );
    lemma_holds(
        alloc_memory_lines(live, rest),
        line2(
            "mill_alloc_memory_bytes"@,
            "service"@,
            a.name@,
            "node"@,
            a.node@,
            decimal(used_memory(live, a.id@) as nat),
        ),
        line2(
            "mill_alloc_memory_bytes"@,
            "service"@,
            o.name@,
            "node"@,
            o.node@,
            decimal(used_memory(live, o.id@) as nat),
        ),
    );
}

/// Each allocation is shown under its name and node with what it uses.
pub proof fn allocations_are_shown_with_what_they_use(
    fsm: FsmState,
    live: LiveMetrics,
    tasks: Seq<DurationHistogramSnapshot>,
    routes: Seq<RouteMetrics>,
    i: int,
)
    requires
        0 <= i < fsm.allocs@.len(),
    ensures
        holds(
            metrics_text(fsm, live, tasks, routes),
            "mill_alloc_cpu_usage"@ + "{"@ + "service"@ + "=\""@ + fsm.allocs@[i].name@ + "\","@
                + "node"@ + "=\""@ + fsm.allocs@[i].node@ + "\"} "@ + billionths(
                used_cpu(live, fsm.allocs@[i].id@) as nat,
            ) + "\n"@,
        ),
        holds(
            metrics_text(fsm, live, tasks, routes),
            "mill_alloc_memory_bytes"@ + "{"@ + "service"@ + "=\""@ + fsm.allocs@[i].name@
                + "\","@ + "node"@ + "=\""@ + fsm.allocs@[i].node@ + "\"} "@ + decimal(
                used_memory(live, fsm.allocs@[i].id@) as nat,
            ) + "\n"@,
        ),
{
    lemma_alloc_lines(live, fsm.allocs@, i);
    let o = fsm.allocs@[i];
    let h1 = heading("mill_alloc_cpu_usage"@, "CPU usage per allocation in cores"@, "gauge"@);
    let h2 = heading(
        "mill_alloc_memory_bytes"@,
        "Memory usage per allocation in bytes"@,
        "gauge"@,
    );
    let a = alloc_cpu_lines(live, fsm.allocs@);
    let b = alloc_memory_lines(live, fsm.allocs@);
    let x = line2(
        "mill_alloc_cpu_usage"@,
        "service"@,
        o.name@,
        "node"@,
        o.node@,
        billionths(used_cpu(live, o.id@) as nat),
    );
    let y = line2(
        "mill_alloc_memory_bytes"@,
        "service"@,
        o.name@,
        "node"@,
        o.node@,
        decimal(used_memory(live, o.id@) as nat),
    );
    lemma_holds(h1, a, x);
    lemma_holds(h1 + a, h2, x);
    lemma_holds(h1 + a + h2, b, x);
    lemma_holds(h1 + a + h2, b, y);
    lemma_part_held(fsm, live, tasks, routes, x);
    lemma_part_held(fsm, live, tasks, routes, y);
}

/// What an allocation uses is what a node reported for that very allocation, both
/// figures of one report; nothing where no node reported any.
pub proof fn uses_are_those_of_the_allocation(live: LiveMetrics, id: Seq<char>)
    ensures
        ({
            ||| used_cpu(live, id) == 0 && used_memory(live, id) == 0 && forall|n: int, s: int|
                0 <= n < live.node_metrics.entries@.len() && 0 <= s
                    < live.node_metrics.entries@[n].1.container_stats@.len() ==> (
                #[trigger] live.node_metrics.entries@[n].1.container_stats@[s]).alloc_id@ != id
            ||| exists|n: int, s: int|
                {
                    &&& 0 <= n < live.node_metrics.entries@.len()
                    &&& 0 <= s < live.node_metrics.entries@[n].1.container_stats@.len()
                    &&& (#[trigger] live.node_metrics.entries@[n].1.container_stats@[s]).alloc_id@
                        == id
                    &&& used_cpu(live, id)
                        == live.node_metrics.entries@[n].1.container_stats@[s].cpu_usage
                    &&& used_memory(live, id)
                        == live.node_metrics.entries@[n].1.container_stats@[s].memory_usage
                }
        }),
{
    lemma_last_report(live.node_metrics.entries@, id);
}

proof fn lemma_last_stat(stats: Seq<ContainerStats>, id: Seq<char>)
    ensures
        last_stat(stats, id) is None ==> forall|s: int|
            0 <= s < stats.len() ==> (#[trigger] stats[s]).alloc_id@ != id,
        last_stat(stats, id) matches Some(found) ==> exists|s: int|
            0 <= s < stats.len() && #[trigger] stats[s] == found && stats[s].alloc_id@ == id,
    decreases stats.len(),
{
    if stats.len() > 0 {
        let rest = stats.drop_last();
        lemma_last_stat(rest, id);
        if stats.last().alloc_id@ == id {
            assert(stats[stats.len() - 1] == stats.last());
        } else if let Some(found) = last_stat(rest, id) {
            let s = choose|s: int|
                0 <= s < rest.len() && #[trigger] rest[s] == found && rest[s].alloc_id@ == id;
            assert(stats[s] == found);
        } else {
            assert forall|s: int| 0 <= s < stats.len() implies (#[trigger] stats[s]).alloc_id@
                != id by {
                if s < rest.len() {
                    assert(rest[s] == stats[s]);
                }
            }
        }
    }
}

proof fn lemma_last_report(nodes: Seq<(String, NodeMetricsSnapshot)>, id: Seq<char>)
    ensures
        last_report(nodes, id) is None ==> forall|n: int, s: int|
            0 <= n < nodes.len() && 0 <= s < nodes[n].1.container_stats@.len() ==> (
            #[trigger] nodes[n].1.container_stats@[s]).alloc_id@ != id,
        last_report(nodes, id) matches Some(found) ==> exists|n: int, s: int|
            0 <= n < nodes.len() && 0 <= s < nodes[n].1.container_stats@.len()
                && #[trigger] nodes[n].1.container_stats@[s] == found && found.alloc_id@ == id,
    decreases nodes.len(),
{
    if nodes.len() > 0 {
        let rest = nodes.drop_last();
        let last = nodes.len() - 1;
        lemma_last_stat(nodes.last().1.container_stats@, id);
        lemma_last_report(rest, id);
        if let Some(found) = last_stat(nodes.last().1.container_stats@, id) {
            let stats = nodes.last().1.container_stats@;
            let s = choose|s: int|
                0 <= s < stats.len() && #[trigger] stats[s] == found && stats[s].alloc_id@ == id;
            assert(nodes[last].1.container_stats@[s] == found);
        } else if let Some(found) = last_report(rest, id) {
            let (n, s) = choose|n: int, s: int|
                0 <= n < rest.len() && 0 <= s < rest[n].1.container_stats@.len()
                    && #[trigger] rest[n].1.container_stats@[s] == found && found.alloc_id@ == id;
            assert(nodes[n].1.container_stats@[s] == found);
        } else {
            assert forall|n: int, s: int|
                0 <= n < nodes.len() && 0 <= s < nodes[n].1.container_stats@.len() implies (
            #[trigger] nodes[n].1.container_stats@[s]).alloc_id@ != id by {
                if n < rest.len() {
                    assert(rest[n].1.container_stats@[s].alloc_id@ != id);
                }
            }
        }
    }
}

proof fn lemma_restart_lines(allocs: Seq<Alloc>, counts: Seq<(String, u64)>, i: int)
    requires
        0 <= i < counts.len(),
    ensures
        holds(
            restart_lines(allocs, counts),
            line2(
                "mill_alloc_restarts_total"@,
                "service"@,
                counts[i].0@,
                "node"@,
                service_node(allocs, counts[i].0@),
                decimal(counts[i].1 as nat),
            ),
        ),
    decreases counts.len(),
{
    let rest = counts.drop_last();
    if i < rest.len() {
        lemma_restart_lines(allocs, rest, i);
    }
    lemma_holds(
        restart_lines(allocs, rest),
        line2(
            "mill_alloc_restarts_total"@,
            "service"@,
            counts.last().0@,
            "node"@,
            service_node(allocs, counts.last().0@),
            decimal(counts.last().1 as nat),
        ),
        line2(
            "mill_alloc_restarts_total"@,
            "service"@,
            counts[i].0@,
            "node"@,
            service_node(allocs, counts[i].0@),
            decimal(counts[i].1 as nat),
        ),
    );
}

proof fn lemma_spawn_lines(counts: Seq<(String, u64)>, i: int)
    requires
        0 <= i < counts.len(),
    ensures
        holds(
            spawn_lines(counts),
            line1(
                "mill_tasks_spawned_total"@,
                "task"@,
                counts[i].0@,
                decimal(counts[i].1 as nat),
            ),
        ),
    decreases counts.len(),
{
    let rest = counts.drop_last();
    if i < rest.len() {
        lemma_spawn_lines(rest, i);
    }
    lemma_holds(
        spawn_lines(rest),
        line1(
            "mill_tasks_spawned_total"@,
            "task"@,
            counts.last().0@,
            decimal(counts.last().1 as nat),
        ),
        line1("mill_tasks_spawned_total"@, "task"@, counts[i].0@, decimal(counts[i].1 as nat)),
    );
}

/// Each service that was restarted is shown with how often, under the node of its
/// first allocation, and each task that was spawned with how often.
pub proof fn restarts_and_spawns_are_shown(
    fsm: FsmState,
    live: LiveMetrics,
    tasks: Seq<DurationHistogramSnapshot>,
    routes: Seq<RouteMetrics>,
    i: int,
)
    ensures
        0 <= i < live.restarts.entries@.len() ==> holds(
            metrics_text(fsm, live, tasks, routes),
            "mill_alloc_restarts_total"@ + "{"@ + "service"@ + "=\""@
                + live.restarts.entries@[i].0@ + "\","@ + "node"@ + "=\""@ + service_node(
                fsm.allocs@,
                live.restarts.entries@[i].0@,
            ) + "\"} "@ + decimal(live.restarts.entries@[i].1 as nat) + "\n"@,
        ),
        0 <= i < live.task_spawns.entries@.len() ==> holds(
            metrics_text(fsm, live, tasks, routes),
            "mill_tasks_spawned_total"@ + "{"@ + "task"@ + "=\""@
                + live.task_spawns.entries@[i].0@ + "\"} "@ + decimal(
                live.task_spawns.entries@[i].1 as nat,
            ) + "\n"@,
        ),
{
    let c = live.restarts.entries@;
    if 0 <= i < c.len() {
        lemma_restart_lines(fsm.allocs@, c, i);
        let x = line2(
            "mill_alloc_restarts_total"@,
            "service"@,
            c[i].0@,
            "node"@,
            service_node(fsm.allocs@, c[i].0@),
            decimal(c[i].1 as nat),
        );
        lemma_holds(
            heading("mill_alloc_restarts_total"@, "Total service restart count"@, "counter"@),
            restart_lines(fsm.allocs@, c),
            x,
        );
        lemma_part_held(fsm, live, tasks, routes, x);
    }
    let d = live.task_spawns.entries@;
    if 0 <= i < d.len() {
        lemma_spawn_lines(d, i);
        let x = line1("mill_tasks_spawned_total"@, "task"@, d[i].0@, decimal(d[i].1 as nat));
        lemma_holds(
            heading("mill_tasks_spawned_total"@, "Total task spawn count"@, "counter"@),
            spawn_lines(d),
            x,
        );
        lemma_part_held(fsm, live, tasks, routes, x);
    }
}

/// A restarted service is shown under the node of its first allocation, and under
/// none by name where it has no allocation.
pub proof fn restarts_are_shown_where_the_service_is(allocs: Seq<Alloc>, name: Seq<char>)
    ensures
        forall|i: int|
            {
                &&& 0 <= i < allocs.len()
                &&& (#[trigger] allocs[i]).name@ == name
                &&& allocs[i].kind == AllocKind::Service
                &&& forall|j: int|
                    0 <= j < i && (#[trigger] allocs[j]).name@ == name ==> allocs[j].kind
                        == AllocKind::Task
            } ==> service_node(allocs, name) == allocs[i].node@,
        (forall|i: int| 0 <= i < allocs.len() && (#[trigger] allocs[i]).name@ == name
            ==> allocs[i].kind == AllocKind::Task) ==> service_node(allocs, name) == "unknown"@,
{
    let p = of_service(name);
    assert forall|i: int|
        {
            &&& 0 <= i < allocs.len()
            &&& (#[trigger] allocs[i]).name@ == name
            &&& allocs[i].kind == AllocKind::Service
            &&& forall|j: int|
                0 <= j < i && (#[trigger] allocs[j]).name@ == name ==> allocs[j].kind
                    == AllocKind::Task
        } implies service_node(allocs, name) == allocs[i].node@ by {
        lemma_is_first(allocs, p, i);
    }
    if forall|i: int| 0 <= i < allocs.len() && (#[trigger] allocs[i]).name@ == name
        ==> allocs[i].kind == AllocKind::Task {
        lemma_is_first(allocs, p, allocs.len() as int);
    }
}

proof fn lemma_request_lines(routes: Seq<RouteMetrics>, i: int)
    requires
        0 <= i < routes.len(),
    ensures
        holds(
            request_lines(routes),
            line2(
                "mill_proxy_requests_total"@,
                "route"@,
                routes[i].hostname@,
                "path"@,
                routes[i].path@,
                decimal(routes[i].request_count as nat),
            ),
        ),
        holds(latency_lines(routes), latency_of(routes[i])),
    decreases routes.len(),
{
    let rest = routes.drop_last();
    if i < rest.len() {
        lemma_request_lines(rest, i);
    }
    let r = routes.last();
    lemma_holds(
        request_lines(rest),
        line2(
            "mill_proxy_requests_total"@,
            "route"@,
            r.hostname@,
            "path"@,
            r.path@,
            decimal(r.request_count as nat),
        ),
        line2(
            "mill_proxy_requests_total"@,
            "route"@,
            routes[i].hostname@,
            "path"@,
            routes[i].path@,
            decimal(routes[i].request_count as nat),
        ),
    );
    lemma_holds(latency_lines(rest), latency_of(r), latency_of(routes[i]));
}

proof fn lemma_holds_trans(a: Seq<char>, b: Seq<char>, x: Seq<char>)
    requires
        holds(a, b),
        holds(b, x),
    ensures
        holds(a, x),
{
    let (p, q) = choose|p: Seq<char>, q: Seq<char>| a == #[trigger] around(p, b, q);
    let (r, s) = choose|r: Seq<char>, s: Seq<char>| b == #[trigger] around(r, x, s);
    assert(a =~= around(p + r, x, s + q));
}

proof fn lemma_route_buckets(route: RouteMetrics, buckets: Seq<(Option<u64>, u64)>, b: int)
    requires
        0 <= b < buckets.len(),
    ensures
        holds(
            route_bucket_lines(route, buckets),
            line3(
                "mill_proxy_latency_seconds_bucket"@,
                "route"@,
                route.hostname@,
                "path"@,
                route.path@,
                "le"@,
                nanos_bound(buckets[b].0),
                decimal(buckets[b].1 as nat),
            ),
        ),
    decreases buckets.len(),
{
    let rest = buckets.drop_last();
    if b < rest.len() {
        lemma_route_buckets(route, rest, b);
    }
    lemma_holds(
        route_bucket_lines(route, rest),
        line3(
            "mill_proxy_latency_seconds_bucket"@,
            "route"@,
            route.hostname@,
            "path"@,
            route.path@,
            "le"@,
            nanos_bound(buckets.last().0),
            decimal(buckets.last().1 as nat),
        ),
        line3(
            "mill_proxy_latency_seconds_bucket"@,
            "route"@,
            route.hostname@,
            "path"@,
            route.path@,
            "le"@,
            nanos_bound(buckets[b].0),
            decimal(buckets[b].1 as nat),
        ),
    );
}

proof fn lemma_proxy_part_held(
    fsm: FsmState,
    live: LiveMetrics,
    tasks: Seq<DurationHistogramSnapshot>,
    routes: Seq<RouteMetrics>,
    x: Seq<char>,
)
    requires
        holds(request_lines(routes), x) || holds(latency_lines(routes), x),
    ensures
        holds(metrics_text(fsm, live, tasks, routes), x),
{
    let h1 = heading("mill_proxy_requests_total"@, "Total proxied requests per route"@, "counter"@);
    let h2 = heading(
        "mill_proxy_latency_seconds"@,
        "Proxy request latency histogram per route"@,
        "histogram"@,
    );
    let q = request_lines(routes);
    let l = latency_lines(routes);
    lemma_holds(h1, q, x);
    lemma_holds(h1 + q, h2, x);
    lemma_holds(h1 + q + h2, l, x);
    lemma_part_held(fsm, live, tasks, routes, x);
}

proof fn lemma_latency_held(r: RouteMetrics, x: Seq<char>)
    requires
        ({
            ||| holds(route_bucket_lines(r, r.buckets@), x)
            ||| x == line2(
                "mill_proxy_latency_seconds_sum"@,
                "route"@,
                r.hostname@,
                "path"@,
                r.path@,
                billionths(r.latency_sum.nanos as nat),
            )
            ||| x == line2(
                "mill_proxy_latency_seconds_count"@,
                "route"@,
                r.hostname@,
                "path"@,
                r.path@,
                decimal(r.request_count as nat),
            )
        }),
    ensures
        holds(latency_of(r), x),
{
    let sum = line2(
        "mill_proxy_latency_seconds_sum"@,
        "route"@,
        r.hostname@,
        "path"@,
        r.path@,
        billionths(r.latency_sum.nanos as nat),
    );
    let count = line2(
        "mill_proxy_latency_seconds_count"@,
        "route"@,
        r.hostname@,
        "path"@,
        r.path@,
        decimal(r.request_count as nat),
    );
    let bs = route_bucket_lines(r, r.buckets@);
    lemma_holds(bs, sum, x);
    lemma_holds(bs + sum, count, x);
}

/// Each route of the proxy is shown under its host name and path with how many
/// requests it had and how long they took in all.
pub proof fn routes_are_shown_with_their_requests(
    fsm: FsmState,
    live: LiveMetrics,
    tasks: Seq<DurationHistogramSnapshot>,
    routes: Seq<RouteMetrics>,
    i: int,
)
    requires
        0 <= i < routes.len(),
    ensures
        holds(
            metrics_text(fsm, live, tasks, routes),
            "mill_proxy_requests_total"@ + "{"@ + "route"@ + "=\""@ + routes[i].hostname@ + "\","@
                + "path"@ + "=\""@ + routes[i].path@ + "\"} "@ + decimal(
                routes[i].request_count as nat,
            ) + "\n"@,
        ),
        holds(
            metrics_text(fsm, live, tasks, routes),
            "mill_proxy_latency_seconds_sum"@ + "{"@ + "route"@ + "=\""@ + routes[i].hostname@
                + "\","@ + "path"@ + "=\""@ + routes[i].path@ + "\"} "@ + billionths(
                routes[i].latency_sum.nanos as nat,
            ) + "\n"@,
        ),
        holds(
            metrics_text(fsm, live, tasks, routes),
            "mill_proxy_latency_seconds_count"@ + "{"@ + "route"@ + "=\""@ + routes[i].hostname@
                + "\","@ + "path"@ + "=\""@ + routes[i].path@ + "\"} "@ + decimal(
                routes[i].request_count as nat,
            ) + "\n"@,
        ),
{
    let r = routes[i];
    lemma_request_lines(routes, i);
    let w = line2(
        "mill_proxy_requests_total"@,
        "route"@,
        r.hostname@,
        "path"@,
        r.path@,
        decimal(r.request_count as nat),
    );
    lemma_proxy_part_held(fsm, live, tasks, routes, w);
    let x = line2(
        "mill_proxy_latency_seconds_sum"@,
        "route"@,
        r.hostname@,
        "path"@,
        r.path@,
        billionths(r.latency_sum.nanos as nat),
    );
    lemma_latency_held(r, x);
    lemma_holds_trans(latency_lines(routes), latency_of(r), x);
    lemma_proxy_part_held(fsm, live, tasks, routes, x);
    let y = line2(
        "mill_proxy_latency_seconds_count"@,
        "route"@,
        r.hostname@,
        "path"@,
        r.path@,
        decimal(r.request_count as nat),
    );
    lemma_latency_held(r, y);
    lemma_holds_trans(latency_lines(routes), latency_of(r), y);
    lemma_proxy_part_held(fsm, live, tasks, routes, y);
}

/// Each bucket of a route is shown with its bound in seconds and with how many
/// requests took no longer.
pub proof fn route_buckets_are_shown(
    fsm: FsmState,
    live: LiveMetrics,
    tasks: Seq<DurationHistogramSnapshot>,
    routes: Seq<RouteMetrics>,
    i: int,
    b: int,
)
    requires
        0 <= i < routes.len(),
        0 <= b < routes[i].buckets@.len(),
    ensures
        holds(
            metrics_text(fsm, live, tasks, routes),
            "mill_proxy_latency_seconds_bucket"@ + "{"@ + "route"@ + "=\""@ + routes[i].hostname@
                + "\","@ + "path"@ + "=\""@ + routes[i].path@ + "\","@ + "le"@ + "=\""@ + (
            match routes[i].buckets@[b].0 {
                Some(bound) => billionths(bound as nat),
                None => "+Inf"@,
            }) + "\"} "@ + decimal(routes[i].buckets@[b].1 as nat) + "\n"@,
        ),
{
    let r = routes[i];
    lemma_request_lines(routes, i);
    lemma_route_buckets(r, r.buckets@, b);
    let z = line3(
        "mill_proxy_latency_seconds_bucket"@,
        "route"@,
        r.hostname@,
        "path"@,
        r.path@,
        "le"@,
        nanos_bound(r.buckets@[b].0),
        decimal(r.buckets@[b].1 as nat),
    );
    lemma_latency_held(r, z);
    lemma_holds_trans(latency_lines(routes), latency_of(r), z);
    lemma_proxy_part_held(fsm, live, tasks, routes, z);
}

proof fn lemma_duration_lines(tasks: Seq<DurationHistogramSnapshot>, i: int)
    requires
        0 <= i < tasks.len(),
    ensures
        holds(duration_lines(tasks), durations_of(tasks[i])),
    decreases tasks.len(),
{
    let rest = tasks.drop_last();
    if i < rest.len() {
        lemma_duration_lines(rest, i);
    }
    lemma_holds(duration_lines(rest), durations_of(tasks.last()), durations_of(tasks[i]));
}

proof fn lemma_task_buckets(name: Seq<char>, buckets: Seq<(Option<u64>, u64)>, b: int)
    requires
        0 <= b < buckets.len(),
    ensures
        holds(
            task_bucket_lines(name, buckets),
            line2(
                "mill_tasks_duration_seconds_bucket"@,
                "task"@,
                name,
                "le"@,
                secs_bound(buckets[b].0),
                decimal(buckets[b].1 as nat),
            ),
        ),
    decreases buckets.len(),
{
    let rest = buckets.drop_last();
    if b < rest.len() {
        lemma_task_buckets(name, rest, b);
    }
    lemma_holds(
        task_bucket_lines(name, rest),
        line2(
            "mill_tasks_duration_seconds_bucket"@,
            "task"@,
            name,
            "le"@,
            secs_bound(buckets.last().0),
            decimal(buckets.last().1 as nat),
        ),
        line2(
            "mill_tasks_duration_seconds_bucket"@,
            "task"@,
            name,
            "le"@,
            secs_bound(buckets[b].0),
            decimal(buckets[b].1 as nat),
        ),
    );
}

proof fn lemma_durations_held(
    fsm: FsmState,
    live: LiveMetrics,
    tasks: Seq<DurationHistogramSnapshot>,
    routes: Seq<RouteMetrics>,
    i: int,
    x: Seq<char>,
)
    requires
        0 <= i < tasks.len(),
        ({
            ||| holds(task_bucket_lines(tasks[i].name@, tasks[i].buckets@), x)
            ||| x == line1(
                "mill_tasks_duration_seconds_sum"@,
                "task"@,
                tasks[i].name@,
                billionths(tasks[i].sum.nanos as nat),
            )
            ||| x == line1(
                "mill_tasks_duration_seconds_count"@,
                "task"@,
                tasks[i].name@,
                decimal(tasks[i].count as nat),
            )
        }),
    ensures
        holds(metrics_text(fsm, live, tasks, routes), x),
{
    let t = tasks[i];
    let sum = line1(
        "mill_tasks_duration_seconds_sum"@,
        "task"@,
        t.name@,
        billionths(t.sum.nanos as nat),
    );
    let count = line1(
        "mill_tasks_duration_seconds_count"@,
        "task"@,
        t.name@,
        decimal(t.count as nat),
    );
    let bs = task_bucket_lines(t.name@, t.buckets@);
    lemma_holds(bs, sum, x);
    lemma_holds(bs + sum, count, x);
    lemma_duration_lines(tasks, i);
    lemma_holds_trans(duration_lines(tasks), durations_of(t), x);
    lemma_holds(
        heading(
            "mill_tasks_duration_seconds"@,
            "Task execution duration histogram"@,
            "histogram"@,
        ),
        duration_lines(tasks),
        x,
    );
    lemma_part_held(fsm, live, tasks, routes, x);
}

/// Each task that ended is shown under its name with how often and how long in
/// all.
pub proof fn durations_are_shown(
    fsm: FsmState,
    live: LiveMetrics,
    tasks: Seq<DurationHistogramSnapshot>,
    routes: Seq<RouteMetrics>,
    i: int,
)
    requires
        0 <= i < tasks.len(),
    ensures
        holds(
            metrics_text(fsm, live, tasks, routes),
            "mill_tasks_duration_seconds_sum"@ + "{"@ + "task"@ + "=\""@ + tasks[i].name@
                + "\"} "@ + billionths(tasks[i].sum.nanos as nat) + "\n"@,
        ),
        holds(
            metrics_text(fsm, live, tasks, routes),
            "mill_tasks_duration_seconds_count"@ + "{"@ + "task"@ + "=\""@ + tasks[i].name@
                + "\"} "@ + decimal(tasks[i].count as nat) + "\n"@,
        ),
{
    let t = tasks[i];
    lemma_durations_held(
        fsm,
        live,
        tasks,
        routes,
        i,
        line1(
            "mill_tasks_duration_seconds_sum"@,
            "task"@,
            t.name@,
            billionths(t.sum.nanos as nat),
        ),
    );
    lemma_durations_held(
        fsm,
        live,
        tasks,
        routes,
        i,
        line1("mill_tasks_duration_seconds_count"@, "task"@, t.name@, decimal(t.count as nat)),
    );
}

/// Each bucket of a task is shown with its bound in seconds and with how many runs
/// took no longer.
pub proof fn task_buckets_are_shown(
    fsm: FsmState,
    live: LiveMetrics,
    tasks: Seq<DurationHistogramSnapshot>,
    routes: Seq<RouteMetrics>,
    i: int,
    b: int,
)
    requires
        0 <= i < tasks.len(),
        0 <= b < tasks[i].buckets@.len(),
    ensures
        holds(
            metrics_text(fsm, live, tasks, routes),
            "mill_tasks_duration_seconds_bucket"@ + "{"@ + "task"@ + "=\""@ + tasks[i].name@
                + "\","@ + "le"@ + "=\""@ + (match tasks[i].buckets@[b].0 {
                Some(bound) => decimal(bound as nat),
                None => "+Inf"@,
            }) + "\"} "@ + decimal(tasks[i].buckets@[b].1 as nat) + "\n"@,
        ),
{
    let t = tasks[i];
    lemma_task_buckets(t.name@, t.buckets@, b);
    let z = line2(
        "mill_tasks_duration_seconds_bucket"@,
        "task"@,
        t.name@,
        "le"@,
        secs_bound(t.buckets@[b].0),
        decimal(t.buckets@[b].1 as nat),
    );
    lemma_durations_held(fsm, live, tasks, routes, i, z);
}

} // verus!
