//! The allocations on a node.
use crate::config::{find, AllocId, AllocStatus, ContainerSpec, ContainerVolume, LogLine};
use crate::rpc::protocol::VolumeInfo;
use crate::secondary::logs::{last_n, LogBuffer, MAX_LINES};
use crate::table::{lemma_pairs_put, Table};
use vstd::prelude::*;

verus! {

/// Local state for a running allocation on this node.
#[derive(Debug)]
pub struct LocalAlloc {
    pub alloc_id: AllocId,
    pub spec: ContainerSpec,
    pub status: AllocStatus,
    pub host_port: Option<u16>,
    pub logs: LogBuffer,
}

/// All allocations managed by this node, by their ids.
#[derive(Debug)]
pub struct AllocationMap {
    pub allocs: Table<LocalAlloc>,
}

/// The statuses of allocations.
pub open spec fn statuses_of(entries: Seq<(String, LocalAlloc)>) -> Seq<(AllocId, AllocStatus)> {
    Seq::new(entries.len(), |i: int| (AllocId(entries[i].0), entries[i].1.status))
}

/// The CPU reserved by allocations.
pub open spec fn cpu_reserved(entries: Seq<(String, LocalAlloc)>) -> nat
    decreases entries.len(),
{
    if entries.len() == 0 {
        0
    } else {
        cpu_reserved(entries.drop_last()) + entries.last().1.spec.cpu as nat
    }
}

/// The memory reserved by allocations.
pub open spec fn memory_reserved(entries: Seq<(String, LocalAlloc)>) -> nat
    decreases entries.len(),
{
    if entries.len() == 0 {
        0
    } else {
        memory_reserved(entries.drop_last()) + entries.last().1.spec.memory as nat
    }
}

/// What is told of the persistent volumes of an allocation.
pub open spec fn persistent(volumes: Seq<ContainerVolume>, alloc_id: AllocId) -> Seq<VolumeInfo>
    decreases volumes.len(),
{
    if volumes.len() == 0 {
        Seq::empty()
    } else if volumes.last().ephemeral {
        persistent(volumes.drop_last(), alloc_id)
    } else {
        persistent(volumes.drop_last(), alloc_id).push(
            VolumeInfo { name: volumes.last().name, size_bytes: 0, alloc_id: Some(alloc_id) },
        )
    }
}

/// What is told of the persistent volumes of allocations.
pub open spec fn volumes_of(entries: Seq<(String, LocalAlloc)>) -> Seq<VolumeInfo>
    decreases entries.len(),
{
    if entries.len() == 0 {
        Seq::empty()
    } else {
        volumes_of(entries.drop_last()) + persistent(
            entries.last().1.spec.volumes@,
            entries.last().1.alloc_id,
        )
    }
}

proof fn lemma_memory_grows(entries: Seq<(String, LocalAlloc)>, i: int)
    requires
        0 <= i <= entries.len(),
    ensures
        memory_reserved(entries.take(i)) <= memory_reserved(entries),
    decreases entries.len() - i,
{
    if i < entries.len() {
        lemma_memory_grows(entries, i + 1);
        assert(entries.take(i + 1).drop_last() =~= entries.take(i));
    } else {
        assert(entries.take(i) =~= entries);
    }
}

impl View for AllocationMap {
    type V = Map<Seq<char>, LocalAlloc>;

    open spec fn view(&self) -> Map<Seq<char>, LocalAlloc> {
        self.allocs@
    }
}

impl AllocationMap {
    /// Whether each allocation stands once.
    pub open spec fn wf(&self) -> bool {
        self.allocs.wf()
    }

    /// No allocations.
    pub fn new() -> (res: AllocationMap)
        ensures
            res.wf(),
            res@ == Map::<Seq<char>, LocalAlloc>::empty(),
            res.allocs.entries@.len() == 0,
    {
        AllocationMap { allocs: Table::new() }
    }

    /// Inserts a new allocation. Gives back its id where there is one of that
    /// id already, and leaves that one as it is.
    pub fn insert(&mut self, alloc: LocalAlloc) -> (res: Result<(), AllocId>)
        requires
            old(self).wf(),
        ensures
            final(self).wf(),
            if old(self)@.dom().contains(alloc.alloc_id@) {
                res == Err::<(), AllocId>(alloc.alloc_id) && *final(self) == *old(self)
            } else {
                res is Ok && final(self)@ == old(self)@.insert(alloc.alloc_id@, alloc)
                    && final(self).allocs.entries@ == old(self).allocs.entries@.push(
                    (alloc.alloc_id.0, alloc),
                )
            },
    {
        if self.allocs.contains(&alloc.alloc_id.0) {
            return Err(alloc.alloc_id);
        }
        let name = alloc.alloc_id.0.clone();
        self.allocs.insert(name, alloc);
        Ok(())
    }

    /// Takes an allocation out.
    pub fn remove(&mut self, alloc_id: &AllocId) -> (res: Option<LocalAlloc>)
        requires
            old(self).wf(),
        ensures
            final(self).wf(),
            final(self)@ == old(self)@.remove(alloc_id@),
            res == if old(self)@.dom().contains(alloc_id@) {
                Some(old(self)@[alloc_id@])
            } else {
                None
            },
    {
        self.allocs.remove(&alloc_id.0)
    }

    /// The lines of an allocation.
    pub fn log_buffer(&self, alloc_id: &AllocId) -> (res: Option<&LogBuffer>)
        ensures
            match res {
                Some(logs) => self@.dom().contains(alloc_id@) && *logs == self@[alloc_id@].logs,
                None => !self@.dom().contains(alloc_id@),
            },
    {
        match self.allocs.get(&alloc_id.0) {
            Some(a) => Some(&a.logs),
            None => None,
        }
    }

    /// The port of an allocation on this node.
    pub fn host_port(&self, alloc_id: &AllocId) -> (res: Option<u16>)
        ensures
            res == if self@.dom().contains(alloc_id@) {
                self@[alloc_id@].host_port
            } else {
                None
            },
    {
        match self.allocs.get(&alloc_id.0) {
            Some(a) => a.host_port,
            None => None,
        }
    }

    /// The statuses of all allocations.
    pub fn all_statuses(&self) -> (res: Vec<(AllocId, AllocStatus)>)
        ensures
            res@ == statuses_of(self.allocs.entries@),
    {
        let mut out: Vec<(AllocId, AllocStatus)> = Vec::new();
        let mut i: usize = 0;
        while i < self.allocs.entries.len()
            invariant
                i <= self.allocs.entries@.len(),
                out@ == statuses_of(self.allocs.entries@).take(i as int),
            decreases self.allocs.entries@.len() - i,
        {
            let entry = &self.allocs.entries[i];
            out.push((AllocId(entry.0.clone()), entry.1.status.clone()));
            i = i + 1;
            assert(out@ =~= statuses_of(self.allocs.entries@).take(i as int));
        }
        assert(out@ =~= statuses_of(self.allocs.entries@));
        out
    }

    /// Whether there is an allocation of the given id.
    pub fn contains(&self, alloc_id: &AllocId) -> (res: bool)
        ensures
            res == self@.dom().contains(alloc_id@),
    {
        self.allocs.contains(&alloc_id.0)
    }

    /// Changes the status of an allocation, where there is one of that id.
    pub fn set_status(&mut self, alloc_id: &AllocId, status: AllocStatus)
        requires
            old(self).wf(),
        ensures
            final(self).wf(),
            if old(self)@.dom().contains(alloc_id@) {
                final(self)@ == old(self)@.insert(
                    alloc_id@,
                    LocalAlloc { status, ..old(self)@[alloc_id@] },
                )
            } else {
                *final(self) == *old(self)
            },
    {
        if let Some(i) = find(&self.allocs.entries, &alloc_id.0) {
            let (name, alloc) = self.allocs.entries.remove(i);
            let changed = LocalAlloc {
                alloc_id: alloc.alloc_id,
                spec: alloc.spec,
                status,
                host_port: alloc.host_port,
                logs: alloc.logs,
            };
            self.allocs.entries.insert(i, (name, changed));
            proof {
                assert(self.allocs.entries@ =~= old(self).allocs.entries@.update(
                    i as int,
                    (name, changed),
                ));
                lemma_pairs_put(
                    old(self).allocs.entries@,
                    self.allocs.entries@,
                    name,
                    changed,
                    i as int,
                );
            }
        }
    }

    /// Appends a line to those of an allocation, where there is one of that id.
    pub fn push_line(&mut self, alloc_id: &AllocId, line: LogLine)
        requires
            old(self).wf(),
        ensures
            final(self).wf(),
            if old(self)@.dom().contains(alloc_id@) {
                &&& final(self)@ == old(self)@.insert(
                    alloc_id@,
                    LocalAlloc { logs: final(self)@[alloc_id@].logs, ..old(self)@[alloc_id@] },
                )
                &&& final(self)@[alloc_id@].logs@ == last_n(
                    old(self)@[alloc_id@].logs@.push(line),
                    MAX_LINES as nat,
                )
            } else {
                *final(self) == *old(self)
            },
    {
        if let Some(i) = find(&self.allocs.entries, &alloc_id.0) {
            let (name, alloc) = self.allocs.entries.remove(i);
            let mut logs = alloc.logs;
            logs.push(line);
            let changed = LocalAlloc {
                alloc_id: alloc.alloc_id,
                spec: alloc.spec,
                status: alloc.status,
                host_port: alloc.host_port,
                logs,
            };
            self.allocs.entries.insert(i, (name, changed));
            proof {
                assert(self.allocs.entries@ =~= old(self).allocs.entries@.update(
                    i as int,
                    (name, changed),
                ));
                lemma_pairs_put(
                    old(self).allocs.entries@,
                    self.allocs.entries@,
                    name,
                    changed,
                    i as int,
                );
                assert(self@[alloc_id@] == changed);
            }
        }
    }

    /// The CPU reserved by all allocations, in billionths of a core.
    pub fn total_reserved_cpu(&self) -> (res: u128)
        ensures
            res == cpu_reserved(self.allocs.entries@),
    {
        let mut sum: u128 = 0;
        let mut i: usize = 0;
        let ghost all = self.allocs.entries@;
        while i < self.allocs.entries.len()
            invariant
                i <= all.len(),
                all == self.allocs.entries@,
                sum == cpu_reserved(all.take(i as int)),
                sum <= i * u64::MAX,
            decreases all.len() - i,
        {
            proof {
                assert(all.take(i + 1).drop_last() =~= all.take(i as int));
                assert(i * u64::MAX + u64::MAX == (i + 1) * u64::MAX) by (nonlinear_arith);
                assert((i + 1) * u64::MAX <= u128::MAX) by (nonlinear_arith)
                    requires
                        i + 1 <= usize::MAX,
                ;
            }
            sum = sum + self.allocs.entries[i].1.spec.cpu as u128;
            i = i + 1;
        }
        assert(all.take(i as int) =~= all);
        sum
    }

    /// The memory reserved by all allocations, in bytes.
    pub fn total_reserved_memory(&self) -> (res: u64)
        requires
            memory_reserved(self.allocs.entries@) <= u64::MAX,
        ensures
            res == memory_reserved(self.allocs.entries@),
    {
        let mut sum: u64 = 0;
        let mut i: usize = 0;
        let ghost all = self.allocs.entries@;
        while i < self.allocs.entries.len()
            invariant
                i <= all.len(),
                all == self.allocs.entries@,
                memory_reserved(all) <= u64::MAX,
                sum == memory_reserved(all.take(i as int)),
            decreases all.len() - i,
        {
            proof {
                assert(all.take(i + 1).drop_last() =~= all.take(i as int));
                lemma_memory_grows(all, i + 1);
            }
            sum = sum + self.allocs.entries[i].1.spec.memory;
            i = i + 1;
        }
        assert(all.take(i as int) =~= all);
        sum
    }

    /// What is told of the volumes of all allocations; those that do not
    /// persist are left out.
    pub fn volume_info(&self) -> (res: Vec<VolumeInfo>)
        ensures
            res@ == volumes_of(self.allocs.entries@),
    {
        let mut out: Vec<VolumeInfo> = Vec::new();
        let ghost all = self.allocs.entries@;
        let mut i: usize = 0;
        while i < self.allocs.entries.len()
            invariant
                i <= all.len(),
                all == self.allocs.entries@,
                out@ == volumes_of(all.take(i as int)),
            decreases all.len() - i,
        {
            assert(all.take(i + 1).drop_last() =~= all.take(i as int));
            let alloc = &self.allocs.entries[i].1;
            let ghost before = out@;
            let ghost volumes = alloc.spec.volumes@;
            let mut k: usize = 0;
            assert(before + persistent(volumes.take(0), alloc.alloc_id) =~= before);
            while k < alloc.spec.volumes.len()
                invariant
                    k <= volumes.len(),
                    volumes == alloc.spec.volumes@,
                    out@ == before + persistent(volumes.take(k as int), alloc.alloc_id),
                decreases volumes.len() - k,
            {
                assert(volumes.take(k + 1).drop_last() =~= volumes.take(k as int));
                if !alloc.spec.volumes[k].ephemeral {
                    out.push(
                        VolumeInfo {
                            name: alloc.spec.volumes[k].name.clone(),
                            size_bytes: 0,
                            alloc_id: Some(alloc.alloc_id.clone()),
                        },
                    );
                }
                k = k + 1;
                assert(out@ =~= before + persistent(volumes.take(k as int), alloc.alloc_id));
            }
            assert(volumes.take(k as int) =~= volumes);
            i = i + 1;
        }
        assert(all.take(i as int) =~= all);
        out
    }
}

/// What several allocations reserve is what each of them reserves, added up.
pub proof fn reservations_add_up(a: Seq<(String, LocalAlloc)>, b: Seq<(String, LocalAlloc)>)
    ensures
        cpu_reserved(a + b) == cpu_reserved(a) + cpu_reserved(b),
        memory_reserved(a + b) == memory_reserved(a) + memory_reserved(b),
        a.len() == 0 ==> cpu_reserved(a) == 0 && memory_reserved(a) == 0,
        a.len() == 1 ==> cpu_reserved(a) == a[0].1.spec.cpu && memory_reserved(a)
            == a[0].1.spec.memory,
    decreases b.len(),
{
    if a.len() == 1 {
        assert(a.drop_last().len() == 0);
        assert(cpu_reserved(a.drop_last()) == 0);
        assert(memory_reserved(a.drop_last()) == 0);
    }
    if b.len() == 0 {
        assert(a + b =~= a);
    } else {
        assert((a + b).drop_last() =~= a + b.drop_last());
        reservations_add_up(a, b.drop_last());
    }
}

/// Each allocation of a node is told of with its own status.
pub proof fn statuses_are_those_of_the_allocations(entries: Seq<(String, LocalAlloc)>, i: int)
    requires
        0 <= i < entries.len(),
    ensures
        statuses_of(entries).len() == entries.len(),
        statuses_of(entries)[i].0@ == entries[i].0@,
        statuses_of(entries)[i].1 == entries[i].1.status,
{
}

proof fn lemma_persistent(volumes: Seq<ContainerVolume>, alloc_id: AllocId)
    ensures
        forall|k: int|
            0 <= k < persistent(volumes, alloc_id).len() ==> {
                &&& (#[trigger] persistent(volumes, alloc_id)[k]).alloc_id == Some(alloc_id)
                &&& exists|v: int|
                    0 <= v < volumes.len() && !(#[trigger] volumes[v]).ephemeral
                        && volumes[v].name == persistent(volumes, alloc_id)[k].name
            },
    decreases volumes.len(),
{
    if volumes.len() > 0 {
        let rest = volumes.drop_last();
        lemma_persistent(rest, alloc_id);
        assert forall|k: int| 0 <= k < persistent(volumes, alloc_id).len() implies {
            &&& (#[trigger] persistent(volumes, alloc_id)[k]).alloc_id == Some(alloc_id)
            &&& exists|v: int|
                0 <= v < volumes.len() && !(#[trigger] volumes[v]).ephemeral && volumes[v].name
                    == persistent(volumes, alloc_id)[k].name
        } by {
            if k < persistent(rest, alloc_id).len() {
                let v = choose|v: int|
                    0 <= v < rest.len() && !(#[trigger] rest[v]).ephemeral && rest[v].name
                        == persistent(rest, alloc_id)[k].name;
                assert(volumes[v] == rest[v]);
                assert(persistent(volumes, alloc_id)[k] == persistent(rest, alloc_id)[k]);
            } else {
                assert(volumes[volumes.len() - 1] == volumes.last());
            }
        }
    }
}

proof fn lemma_persistent_all(volumes: Seq<ContainerVolume>, alloc_id: AllocId, v: int)
    requires
        0 <= v < volumes.len(),
        !volumes[v].ephemeral,
    ensures
        persistent(volumes, alloc_id).contains(
            VolumeInfo { name: volumes[v].name, size_bytes: 0, alloc_id: Some(alloc_id) },
        ),
    decreases volumes.len(),
{
    let told = VolumeInfo { name: volumes[v].name, size_bytes: 0, alloc_id: Some(alloc_id) };
    let rest = volumes.drop_last();
    let all = persistent(volumes, alloc_id);
    if v < rest.len() {
        lemma_persistent_all(rest, alloc_id, v);
        let k = persistent(rest, alloc_id).index_of(told);
        assert(all[k] == told);
    } else {
        assert(all[all.len() - 1] == told);
    }
}

/// A volume is told of where an allocation has it and it persists, with that
/// allocation; of no other volume anything is told.
pub proof fn volumes_that_persist_are_told_of(
    entries: Seq<(String, LocalAlloc)>,
    i: int,
    v: int,
    k: int,
)
    ensures
        0 <= i < entries.len() && 0 <= v < entries[i].1.spec.volumes@.len()
            && !entries[i].1.spec.volumes@[v].ephemeral ==> volumes_of(entries).contains(
            VolumeInfo {
                name: entries[i].1.spec.volumes@[v].name,
                size_bytes: 0,
                alloc_id: Some(entries[i].1.alloc_id),
            },
        ),
        0 <= k < volumes_of(entries).len() ==> exists|e: int, w: int|
            {
                &&& 0 <= e < entries.len()
                &&& 0 <= w < entries[e].1.spec.volumes@.len()
                &&& !(#[trigger] entries[e].1.spec.volumes@[w]).ephemeral
                &&& volumes_of(entries)[k].name == entries[e].1.spec.volumes@[w].name
                &&& volumes_of(entries)[k].alloc_id == Some(entries[e].1.alloc_id)
            },
    decreases entries.len(),
{
    if entries.len() > 0 {
        let rest = entries.drop_last();
        let last = entries.last().1;
        let own = persistent(last.spec.volumes@, last.alloc_id);
        let all = volumes_of(entries);
        volumes_that_persist_are_told_of(rest, i, v, k);
        lemma_persistent(last.spec.volumes@, last.alloc_id);
        if 0 <= i < entries.len() && 0 <= v < entries[i].1.spec.volumes@.len()
            && !entries[i].1.spec.volumes@[v].ephemeral {
            let told = VolumeInfo {
                name: entries[i].1.spec.volumes@[v].name,
                size_bytes: 0,
                alloc_id: Some(entries[i].1.alloc_id),
            };
            if i < rest.len() {
                let n = volumes_of(rest).index_of(told);
                assert(all[n] == told);
            } else {
                lemma_persistent_all(last.spec.volumes@, last.alloc_id, v);
                let n = own.index_of(told);
                assert(all[volumes_of(rest).len() + n] == told);
            }
        }
        if 0 <= k < all.len() {
            if k < volumes_of(rest).len() {
                let (e, w) = choose|e: int, w: int|
                    {
                        &&& 0 <= e < rest.len()
                        &&& 0 <= w < rest[e].1.spec.volumes@.len()
                        &&& !(#[trigger] rest[e].1.spec.volumes@[w]).ephemeral
                        &&& volumes_of(rest)[k].name == rest[e].1.spec.volumes@[w].name
                        &&& volumes_of(rest)[k].alloc_id == Some(rest[e].1.alloc_id)
                    };
                assert(entries[e].1.spec.volumes@[w] == rest[e].1.spec.volumes@[w]);
                assert(all[k] == volumes_of(rest)[k]);
            } else {
                let n = k - volumes_of(rest).len();
                assert(all[k] == own[n]);
                let w = choose|w: int|
                    0 <= w < last.spec.volumes@.len() && !(
                    #[trigger] last.spec.volumes@[w]).ephemeral && last.spec.volumes@[w].name
                        == own[n].name;
                assert(entries[entries.len() - 1].1.spec.volumes@[w] == last.spec.volumes@[w]);
            }
        }
    }
}

} // verus!
