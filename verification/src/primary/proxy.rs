//! The routes of the proxy.
use crate::config::{ProxyRoute, RouteDef, ServiceDef};
use crate::fsm::FsmState;
use crate::net::SocketAddr;
use crate::primary::dns::{
    addresses, addresses_are_those_of_what_runs, serving_addresses, serving_as,
};
use crate::seqs::select;
use vstd::prelude::*;

verus! {

/// One route to each of several backends.
pub open spec fn routes_to(def: RouteDef, backends: Seq<SocketAddr>) -> Seq<ProxyRoute> {
    Seq::new(
        backends.len(),
        |i: int|
            ProxyRoute {
                hostname: def.hostname,
                path: def.path,
                backend: backends[i],
                websocket: def.websocket,
            },
    )
}

/// Several routes, each to each of several backends.
pub open spec fn all_routes(defs: Seq<RouteDef>, backends: Seq<SocketAddr>) -> Seq<ProxyRoute>
    decreases defs.len(),
{
    if defs.len() == 0 {
        Seq::empty()
    } else {
        all_routes(defs.drop_last(), backends) + routes_to(defs.last(), backends)
    }
}

/// The backends of a service: the addresses of its allocations that run.
pub open spec fn backends(fsm: FsmState, name: Seq<char>) -> Seq<SocketAddr> {
    addresses(select(fsm.allocs@, serving_as(name)))
}

/// The routes of services, one after another.
pub open spec fn service_routes(fsm: FsmState, services: Seq<(String, ServiceDef)>) -> Seq<
    ProxyRoute,
>
    decreases services.len(),
{
    if services.len() == 0 {
        Seq::empty()
    } else {
        service_routes(fsm, services.drop_last()) + all_routes(
            services.last().1.routes@,
            backends(fsm, services.last().0@),
        )
    }
}

/// The routes of the proxy: for each service with routes, one for each route
/// and backend.
pub open spec fn proxy_routes(fsm: FsmState) -> Seq<ProxyRoute> {
    match fsm.config {
        Some(config) => service_routes(fsm, config.services@),
        None => Seq::empty(),
    }
}

fn push_routes(out: &mut Vec<ProxyRoute>, def: &RouteDef, backends: &Vec<SocketAddr>)
    ensures
        final(out)@ == old(out)@ + routes_to(*def, backends@),
{
    let ghost start = out@;
    let ghost all = routes_to(*def, backends@);
    let mut i: usize = 0;
    assert(start + all.take(0) =~= start);
    while i < backends.len()
        invariant
            i <= backends@.len(),
            all == routes_to(*def, backends@),
            out@ == start + all.take(i as int),
        decreases backends@.len() - i,
    {
        out.push(
            ProxyRoute {
                hostname: def.hostname.clone(),
                path: def.path.clone(),
                backend: backends[i],
                websocket: def.websocket,
            },
        );
        i = i + 1;
        assert(out@ =~= start + all.take(i as int));
    }
    assert(all.take(i as int) =~= all);
}

/// Works out the routes of the proxy: for each service with routes, one for
/// each route and each allocation of the service that runs.
pub fn compute_proxy_routes(fsm: &FsmState) -> (res: Vec<ProxyRoute>)
    ensures
        res@ == proxy_routes(*fsm),
{
    let mut routes: Vec<ProxyRoute> = Vec::new();
    if let Some(config) = &fsm.config {
        let ghost services = config.services@;
        let mut i: usize = 0;
        while i < config.services.len()
            invariant
                i <= services.len(),
                services == config.services@,
                routes@ == service_routes(*fsm, services.take(i as int)),
            decreases services.len() - i,
        {
            let (name, def) = &config.services[i];
            assert(services.take(i + 1).drop_last() =~= services.take(i as int));
            let ghost before = routes@;
            if def.routes.len() > 0 {
                let targets = serving_addresses(fsm, name);
                let ghost defs = def.routes@;
                let mut k: usize = 0;
                assert(before + all_routes(defs.take(0), targets@) =~= before);
                while k < def.routes.len()
                    invariant
                        k <= defs.len(),
                        defs == def.routes@,
                        routes@ == before + all_routes(defs.take(k as int), targets@),
                    decreases defs.len() - k,
                {
                    assert(defs.take(k + 1).drop_last() =~= defs.take(k as int));
                    push_routes(&mut routes, &def.routes[k], &targets);
                    k = k + 1;
                    assert(routes@ =~= before + all_routes(defs.take(k as int), targets@));
                }
                assert(defs.take(k as int) =~= defs);
            } else {
                assert(before + all_routes(def.routes@, backends(*fsm, name@)) =~= before);
            }
            i = i + 1;
        }
        assert(services.take(i as int) =~= services);
    }
    assert(fsm.config is None ==> routes@ =~= proxy_routes(*fsm));
    routes
}

/// The route of a definition to a backend.
pub open spec fn route_of(def: RouteDef, backend: SocketAddr) -> ProxyRoute {
    ProxyRoute {
        hostname: def.hostname,
        path: def.path,
        backend,
        websocket: def.websocket,
    }
}

/// Whether a route is that of a service of a place, of a definition of a place
/// in it, to a backend of a place.
pub open spec fn is_route(
    fsm: FsmState,
    services: Seq<(String, ServiceDef)>,
    route: ProxyRoute,
    at: int,
    r: int,
    b: int,
) -> bool {
    &&& 0 <= at < services.len()
    &&& 0 <= r < services[at].1.routes@.len()
    &&& 0 <= b < backends(fsm, services[at].0@).len()
    &&& route == route_of(services[at].1.routes@[r], backends(fsm, services[at].0@)[b])
}

proof fn lemma_all_routes(defs: Seq<RouteDef>, to: Seq<SocketAddr>, k: int) -> (res: (int, int))
    requires
        0 <= k < all_routes(defs, to).len(),
    ensures
        0 <= res.0 < defs.len(),
        0 <= res.1 < to.len(),
        all_routes(defs, to)[k] == route_of(defs[res.0], to[res.1]),
    decreases defs.len(),
{
    let before = all_routes(defs.drop_last(), to);
    if k < before.len() {
        lemma_all_routes(defs.drop_last(), to, k)
    } else {
        (defs.len() - 1, k - before.len())
    }
}

proof fn lemma_service_routes(fsm: FsmState, services: Seq<(String, ServiceDef)>, k: int) -> (res: (
    int,
    int,
    int,
))
    requires
        0 <= k < service_routes(fsm, services).len(),
    ensures
        is_route(fsm, services, service_routes(fsm, services)[k], res.0, res.1, res.2),
    decreases services.len(),
{
    let before = service_routes(fsm, services.drop_last());
    if k < before.len() {
        lemma_service_routes(fsm, services.drop_last(), k)
    } else {
        let (name, def) = services.last();
        let (r, b) = lemma_all_routes(def.routes@, backends(fsm, name@), k - before.len());
        (services.len() - 1, r, b)
    }
}

proof fn lemma_all_routes_complete(defs: Seq<RouteDef>, to: Seq<SocketAddr>, r: int, b: int) -> (res:
    int)
    requires
        0 <= r < defs.len(),
        0 <= b < to.len(),
    ensures
        0 <= res < all_routes(defs, to).len(),
        all_routes(defs, to)[res] == route_of(defs[r], to[b]),
    decreases defs.len(),
{
    let before = all_routes(defs.drop_last(), to);
    if r < defs.len() - 1 {
        lemma_all_routes_complete(defs.drop_last(), to, r, b)
    } else {
        before.len() + b
    }
}

proof fn lemma_service_routes_complete(
    fsm: FsmState,
    services: Seq<(String, ServiceDef)>,
    route: ProxyRoute,
    at: int,
    r: int,
    b: int,
) -> (res: int)
    requires
        is_route(fsm, services, route, at, r, b),
    ensures
        0 <= res < service_routes(fsm, services).len(),
        service_routes(fsm, services)[res] == route,
    decreases services.len(),
{
    let rest = services.drop_last();
    if at < services.len() - 1 {
        lemma_service_routes_complete(fsm, rest, route, at, r, b)
    } else {
        let (name, def) = services.last();
        let k = lemma_all_routes_complete(def.routes@, backends(fsm, name@), r, b);
        service_routes(fsm, rest).len() + k
    }
}

/// The proxy has exactly the routes of the configured services to their
/// allocations that run, and no other.
pub proof fn routes_lead_to_running_allocations(fsm: FsmState, route: ProxyRoute)
    ensures
        proxy_routes(fsm).contains(route) <==> fsm.config is Some && exists|
            at: int,
            r: int,
            b: int,
        | #[trigger] is_route(fsm, fsm.config->0.services@, route, at, r, b),
{
    if let Some(config) = fsm.config {
        let services = config.services@;
        if proxy_routes(fsm).contains(route) {
            let k = proxy_routes(fsm).index_of(route);
            let (at, r, b) = lemma_service_routes(fsm, services, k);
            assert(is_route(fsm, services, route, at, r, b));
        }
        if exists|at: int, r: int, b: int| #[trigger] is_route(fsm, services, route, at, r, b) {
            let (at, r, b) = choose|at: int, r: int, b: int| #[trigger]
                is_route(fsm, services, route, at, r, b);
            let k = lemma_service_routes_complete(fsm, services, route, at, r, b);
            assert(proxy_routes(fsm)[k] == route);
        }
    }
}

/// Every configured route leads to every allocation of its service that is
/// running or healthy and has an address, under the host name, the path and the
/// kind of connection that the configuration gives.
pub proof fn configured_routes_lead_to_what_runs(fsm: FsmState, s: int, r: int, a: int)
    requires
        fsm.config is Some,
        0 <= s < fsm.config->0.services@.len(),
        0 <= r < fsm.config->0.services@[s].1.routes@.len(),
        0 <= a < fsm.allocs@.len(),
        fsm.allocs@[a].name@ == fsm.config->0.services@[s].0@,
        fsm.allocs@[a].status is Running || fsm.allocs@[a].status is Healthy,
        fsm.allocs@[a].address is Some,
    ensures
        exists|k: int|
            {
                let def = fsm.config->0.services@[s].1.routes@[r];
                &&& 0 <= k < proxy_routes(fsm).len()
                &&& (#[trigger] proxy_routes(fsm)[k]).hostname@ == def.hostname@
                &&& proxy_routes(fsm)[k].path@ == def.path@
                &&& proxy_routes(fsm)[k].websocket == def.websocket
                &&& Some(proxy_routes(fsm)[k].backend) == fsm.allocs@[a].address
            },
{
    let (name, def) = fsm.config->0.services@[s];
    addresses_are_those_of_what_runs(fsm.allocs@, name@);
    let b = backends(fsm, name@).index_of(fsm.allocs@[a].address->0);
    let route = route_of(def.routes@[r], backends(fsm, name@)[b]);
    let k = lemma_service_routes_complete(fsm, fsm.config->0.services@, route, s, r, b);
    assert(proxy_routes(fsm)[k] == route);
}

/// No route leads elsewhere: each is one that the configuration gives to a
/// service, and leads to an allocation of that very service that is running or
/// healthy.
pub proof fn no_route_leads_elsewhere(fsm: FsmState, k: int)
    requires
        0 <= k < proxy_routes(fsm).len(),
    ensures
        fsm.config is Some,
        exists|s: int, r: int, a: int|
            {
                let route = proxy_routes(fsm)[k];
                &&& 0 <= s < fsm.config->0.services@.len()
                &&& 0 <= r < fsm.config->0.services@[s].1.routes@.len()
                &&& 0 <= a < fsm.allocs@.len()
                &&& (#[trigger] fsm.config->0.services@[s].1.routes@[r]).hostname@
                    == route.hostname@
                &&& fsm.config->0.services@[s].1.routes@[r].path@ == route.path@
                &&& fsm.config->0.services@[s].1.routes@[r].websocket == route.websocket
                &&& (#[trigger] fsm.allocs@[a]).name@ == fsm.config->0.services@[s].0@
                &&& fsm.allocs@[a].status is Running || fsm.allocs@[a].status is Healthy
                &&& fsm.allocs@[a].address == Some(route.backend)
            },
{
    let services = fsm.config->0.services@;
    let (s, r, b) = lemma_service_routes(fsm, services, k);
    let name = services[s].0@;
    addresses_are_those_of_what_runs(fsm.allocs@, name);
    let addr = backends(fsm, name)[b];
    assert(backends(fsm, name).contains(addr));
    let a = choose|a: int|
        0 <= a < fsm.allocs@.len() && (#[trigger] fsm.allocs@[a]).name@ == name && (
        fsm.allocs@[a].status is Running || fsm.allocs@[a].status is Healthy)
            && fsm.allocs@[a].address == Some(addr);
    assert(services[s].1.routes@[r].hostname@ == proxy_routes(fsm)[k].hostname@
        && fsm.allocs@[a].name@ == name);
}

} // verus!
