//! The names under which running allocations are found.
use crate::config::{Alloc, DnsRecord};
use crate::fsm::FsmState;
use crate::net::SocketAddr;
use crate::seqs::{lemma_select_take, lemma_selected, select};
use crate::text::{is_listed, lemma_unique_apart, lemma_unique_complete, listed, unique};
use vstd::prelude::*;

verus! {

/// Allocations that run and have an address.
pub open spec fn serving() -> spec_fn(Alloc) -> bool {
    |a: Alloc| a.status.active() && a.address is Some
}

/// Allocations of the given name that run and have an address.
pub open spec fn serving_as(name: Seq<char>) -> spec_fn(Alloc) -> bool {
    |a: Alloc| a.name@ == name && a.status.active() && a.address is Some
}

/// The names of allocations.
pub open spec fn alloc_names(allocs: Seq<Alloc>) -> Seq<String> {
    Seq::new(allocs.len(), |i: int| allocs[i].name)
}

/// The addresses of allocations that have one.
pub open spec fn addresses(allocs: Seq<Alloc>) -> Seq<SocketAddr> {
    Seq::new(allocs.len(), |i: int| allocs[i].address->0)
}

/// The addresses of the allocations of a name that run.
pub fn serving_addresses(fsm: &FsmState, name: &String) -> (res: Vec<SocketAddr>)
    ensures
        res@ == addresses(select(fsm.allocs@, serving_as(name@))),
{
    let mut out: Vec<SocketAddr> = Vec::new();
    let ghost all = fsm.allocs@;
    let ghost p = serving_as(name@);
    let mut i: usize = 0;
    assert(addresses(select(all.take(0), p)) =~= Seq::empty());
    while i < fsm.allocs.len()
        invariant
            i <= all.len(),
            all == fsm.allocs@,
            p == serving_as(name@),
            out@ == addresses(select(all.take(i as int), p)),
        decreases all.len() - i,
    {
        proof {
            lemma_select_take(all, p, i as int);
        }
        let a = &fsm.allocs[i];
        if a.name == *name && a.status.is_active() {
            if let Some(address) = a.address {
                let ghost sel = select(all.take(i as int), p);
                out.push(address);
                assert(out@ =~= addresses(sel.push(all[i as int])));
            }
        }
        i = i + 1;
    }
    assert(all.take(i as int) =~= all);
    out
}

/// The names that records are made for: those of allocations that run and
/// have an address, each once.
pub open spec fn record_names(allocs: Seq<Alloc>) -> Seq<String> {
    unique(alloc_names(select(allocs, serving())))
}

/// Groups running allocations by name, and gives one record for each group.
/// Names are bare, such as `web`.
pub fn compute_dns_records(fsm: &FsmState) -> (res: Vec<DnsRecord>)
    ensures
        res@.len() == record_names(fsm.allocs@).len(),
        forall|i: int|
            0 <= i < res@.len() ==> (#[trigger] res@[i]).name == record_names(fsm.allocs@)[i]
                && res@[i].addresses@ == addresses(
                select(fsm.allocs@, serving_as(res@[i].name@)),
            ),
{
    let mut names: Vec<String> = Vec::new();
    let ghost all = fsm.allocs@;
    let ghost p = serving();
    let mut i: usize = 0;
    assert(alloc_names(select(all.take(0), p)) =~= Seq::empty());
    while i < fsm.allocs.len()
        invariant
            i <= all.len(),
            all == fsm.allocs@,
            p == serving(),
            names@ == unique(alloc_names(select(all.take(i as int), p))),
        decreases all.len() - i,
    {
        proof {
            lemma_select_take(all, p, i as int);
        }
        let a = &fsm.allocs[i];
        if a.status.is_active() && a.address.is_some() {
            proof {
                let sel = select(all.take(i as int), p);
                let more = alloc_names(sel.push(all[i as int]));
                assert(more.drop_last() =~= alloc_names(sel));
                assert(more.last() == a.name);
            }
            if !is_listed(&names, &a.name) {
                names.push(a.name.clone());
            }
        }
        i = i + 1;
    }
    assert(all.take(i as int) =~= all);
    let mut out: Vec<DnsRecord> = Vec::new();
    let mut k: usize = 0;
    while k < names.len()
        invariant
            k <= names@.len(),
            all == fsm.allocs@,
            names@ == record_names(all),
            out@.len() == k,
            forall|j: int|
                0 <= j < k ==> (#[trigger] out@[j]).name == names@[j] && out@[j].addresses@
                    == addresses(select(all, serving_as(out@[j].name@))),
        decreases names@.len() - k,
    {
        let addresses = serving_addresses(fsm, &names[k]);
        out.push(DnsRecord { name: names[k].clone(), addresses });
        k = k + 1;
    }
    out
}

/// No two records have the same name.
pub proof fn records_have_distinct_names(allocs: Seq<Alloc>, i: int, j: int)
    requires
        0 <= i < j < record_names(allocs).len(),
    ensures
        record_names(allocs)[i]@ != record_names(allocs)[j]@,
{
    lemma_unique_apart(alloc_names(select(allocs, serving())), i, j);
}

/// An allocation that runs and has an address is found under its name: there
/// is a record of the name, which holds the address.
pub proof fn running_allocations_are_found(allocs: Seq<Alloc>, i: int)
    requires
        0 <= i < allocs.len(),
        serving()(allocs[i]),
    ensures
        listed(record_names(allocs), allocs[i].name@),
        addresses(select(allocs, serving_as(allocs[i].name@))).contains(allocs[i].address->0),
{
    lemma_selected(allocs, serving());
    let all = select(allocs, serving());
    assert(all.contains(allocs[i]));
    let m = choose|m: int| 0 <= m < all.len() && all[m] == allocs[i];
    lemma_unique_complete(alloc_names(all), m);
    assert(alloc_names(all)[m]@ == allocs[i].name@);
    let q = serving_as(allocs[i].name@);
    lemma_selected(allocs, q);
    assert(q(allocs[i]));
    let own = select(allocs, q);
    assert(own.contains(allocs[i]));
    let n = choose|n: int| 0 <= n < own.len() && own[n] == allocs[i];
    assert(addresses(own)[n] == allocs[i].address->0);
}

/// Every address that a name is found under is that of an allocation of that
/// name which runs.
pub proof fn found_addresses_are_running(allocs: Seq<Alloc>, name: Seq<char>, k: int)
    requires
        0 <= k < addresses(select(allocs, serving_as(name))).len(),
    ensures
        exists|j: int|
            0 <= j < allocs.len() && serving_as(name)(#[trigger] allocs[j])
                && allocs[j].address->0 == addresses(select(allocs, serving_as(name)))[k],
{
    lemma_selected(allocs, serving_as(name));
    let sel = select(allocs, serving_as(name));
    assert(allocs.contains(sel[k]));
    let j = choose|j: int| 0 <= j < allocs.len() && allocs[j] == sel[k];
    assert(serving_as(name)(allocs[j]));
}

/// The addresses under a name are exactly those of the allocations of that name
/// that are running or healthy and have an address.
pub proof fn addresses_are_those_of_what_runs(allocs: Seq<Alloc>, name: Seq<char>)
    ensures
        forall|i: int|
            #![trigger allocs[i]]
            0 <= i < allocs.len() && allocs[i].name@ == name && (allocs[i].status is Running
                || allocs[i].status is Healthy) && allocs[i].address is Some ==> addresses(
                select(allocs, serving_as(name)),
            ).contains(allocs[i].address->0),
        forall|addr: SocketAddr| #[trigger]
            addresses(select(allocs, serving_as(name))).contains(addr) ==> exists|i: int|
                0 <= i < allocs.len() && (#[trigger] allocs[i]).name@ == name && (
                allocs[i].status is Running || allocs[i].status is Healthy) && allocs[i].address
                    == Some(addr),
{
    let p = serving_as(name);
    let chosen = select(allocs, p);
    let all = addresses(chosen);
    lemma_selected(allocs, p);
    assert forall|i: int|
        #![trigger allocs[i]]
        0 <= i < allocs.len() && allocs[i].name@ == name && (allocs[i].status is Running
            || allocs[i].status is Healthy) && allocs[i].address is Some implies all.contains(
        allocs[i].address->0,
    ) by {
        assert(p(allocs[i]));
        let k = chosen.index_of(allocs[i]);
        assert(all[k] == allocs[i].address->0);
    }
    assert forall|addr: SocketAddr| #[trigger] all.contains(addr) implies exists|i: int|
        0 <= i < allocs.len() && (#[trigger] allocs[i]).name@ == name && (allocs[i].status
            is Running || allocs[i].status is Healthy) && allocs[i].address == Some(addr) by {
        let k = all.index_of(addr);
        assert(p(chosen[k]));
        let i = allocs.index_of(chosen[k]);
        assert(allocs[i] == chosen[k]);
    }
}

/// There is a record for a name exactly where an allocation of that name is
/// running or healthy and has an address.
pub proof fn names_are_those_of_what_runs(allocs: Seq<Alloc>, name: Seq<char>)
    ensures
        listed(record_names(allocs), name) <==> exists|i: int|
            0 <= i < allocs.len() && (#[trigger] allocs[i]).name@ == name && (allocs[i].status
                is Running || allocs[i].status is Healthy) && allocs[i].address is Some,
{
    let p = serving();
    let chosen = select(allocs, p);
    lemma_selected(allocs, p);
    if exists|i: int|
        0 <= i < allocs.len() && (#[trigger] allocs[i]).name@ == name && (allocs[i].status
            is Running || allocs[i].status is Healthy) && allocs[i].address is Some {
        let i = choose|i: int|
            0 <= i < allocs.len() && (#[trigger] allocs[i]).name@ == name && (allocs[i].status
                is Running || allocs[i].status is Healthy) && allocs[i].address is Some;
        running_allocations_are_found(allocs, i);
    }
    if listed(record_names(allocs), name) {
        let k = choose|k: int|
            0 <= k < record_names(allocs).len() && (#[trigger] record_names(allocs)[k])@ == name;
        let m = lemma_unique_member(alloc_names(chosen), k);
        assert(p(chosen[m]));
        let i = allocs.index_of(chosen[m]);
        assert(allocs[i].name@ == name);
    }
}

proof fn lemma_unique_member(s: Seq<String>, i: int) -> (m: int)
    requires
        0 <= i < unique(s).len(),
    ensures
        0 <= m < s.len(),
        s[m] == unique(s)[i],
    decreases s.len(),
{
    let before = unique(s.drop_last());
    if i < before.len() {
        lemma_unique_member(s.drop_last(), i)
    } else {
        s.len() - 1
    }
}

} // verus!
