//! What a node and its containers use.
use crate::config::{ContainerStats, NodeResources};
use crate::table::Table;
use crate::text::{
    char_texts, has_prefix, lines, parse_u64_chars, parsed_u64, split_lines, strip_prefix,
    strip_suffixes, trim, trim_chars, without_suffixes,
};
use crate::time::Instant;
use crate::units::kib;
use vstd::prelude::*;
use vstd::string::*;

verus! {

/// The number of kibibytes that a value of `/proc/meminfo` writes; zero where
/// it writes none.
pub open spec fn meminfo_kb(s: Seq<char>) -> u64 {
    match parsed_u64(trim(without_suffixes(trim(s), "kB"@))) {
        Some(n) => n,
        None => 0,
    }
}

/// Reads the number of kibibytes that a value of `/proc/meminfo` writes.
pub fn parse_meminfo_kb(s: &[char]) -> (res: u64)
    ensures
        res == meminfo_kb(s@),
{
    let bare = trim_chars(s);
    let number = trim_chars(strip_suffixes(bare, "kB"));
    match parse_u64_chars(number) {
        Some(n) => n,
        None => 0,
    }
}

/// What follows a prefix.
pub open spec fn rest_of(line: Seq<char>, p: Seq<char>) -> Seq<char> {
    line.subrange(p.len() as int, line.len() as int)
}

/// The total and the available memory that lines of `/proc/meminfo` tell of,
/// in kibibytes; where one is told more than once, the last time counts.
pub open spec fn meminfo(text: Seq<Seq<char>>) -> (u64, u64)
    decreases text.len(),
{
    if text.len() == 0 {
        (0, 0)
    } else {
        let (total, available) = meminfo(text.drop_last());
        let line = text.last();
        if has_prefix(line, "MemTotal:"@) {
            (meminfo_kb(rest_of(line, "MemTotal:"@)), available)
        } else if has_prefix(line, "MemAvailable:"@) {
            (total, meminfo_kb(rest_of(line, "MemAvailable:"@)))
        } else {
            (total, available)
        }
    }
}

/// Reads the total and the available memory from `/proc/meminfo`, in
/// kibibytes.
pub fn parse_meminfo(contents: &str) -> (res: (u64, u64))
    ensures
        res == meminfo(lines(contents@)),
{
    let text = split_lines(contents);
    let mut total: u64 = 0;
    let mut available: u64 = 0;
    let ghost all = char_texts(text@);
    let mut i: usize = 0;
    while i < text.len()
        invariant
            i <= text@.len(),
            all == char_texts(text@),
            (total, available) == meminfo(all.take(i as int)),
        decreases text@.len() - i,
    {
        assert(all.take(i + 1).drop_last() =~= all.take(i as int));
        let line = text[i].as_slice();
        match strip_prefix(line, "MemTotal:") {
            Some(rest) => {
                total = parse_meminfo_kb(rest);
            },
            None => {
                if let Some(rest) = strip_prefix(line, "MemAvailable:") {
                    available = parse_meminfo_kb(rest);
                }
            },
        }
        i = i + 1;
    }
    assert(all.take(i as int) =~= all);
    (total, available)
}

/// Whether a line of `/proc/stat` is about one core.
pub open spec fn is_core_line(line: Seq<char>) -> bool {
    has_prefix(line, "cpu"@) && !has_prefix(line, "cpu "@)
}

/// How many lines of `/proc/stat` are about one core.
pub open spec fn core_count(text: Seq<Seq<char>>) -> nat
    decreases text.len(),
{
    if text.len() == 0 {
        0
    } else if is_core_line(text.last()) {
        core_count(text.drop_last()) + 1
    } else {
        core_count(text.drop_last())
    }
}

/// How many cores `/proc/stat` tells of.
pub fn read_linux_cpu(contents: &str) -> (res: usize)
    ensures
        res == core_count(lines(contents@)),
{
    let text = split_lines(contents);
    let ghost all = char_texts(text@);
    let mut count: usize = 0;
    let mut i: usize = 0;
    while i < text.len()
        invariant
            i <= text@.len(),
            all == char_texts(text@),
            count <= i,
            count == core_count(all.take(i as int)),
        decreases text@.len() - i,
    {
        assert(all.take(i + 1).drop_last() =~= all.take(i as int));
        let line = text[i].as_slice();
        if strip_prefix(line, "cpu").is_some() && strip_prefix(line, "cpu ").is_none() {
            count = count + 1;
        }
        i = i + 1;
    }
    assert(all.take(i as int) =~= all);
    count
}

/// So many cores in billionths of a core, up to the largest number.
pub open spec fn cores(n: nat) -> u64 {
    if n * 1_000_000_000 <= u64::MAX {
        (n * 1_000_000_000) as u64
    } else {
        u64::MAX
    }
}

/// So many cores in billionths of a core, up to the largest number.
pub fn whole_cores(n: usize) -> (res: u64)
    ensures
        res == cores(n as nat),
{
    match (n as u64).checked_mul(1_000_000_000) {
        Some(v) => v,
        None => u64::MAX,
    }
}

/// What `/proc/meminfo` and `/proc/stat` tell of a host. Of a file that cannot
/// be read nothing is told.
pub open spec fn host_resources(memory: Option<&str>, cpu: Option<&str>) -> NodeResources {
    let (total, available) = match memory {
        Some(text) => meminfo(lines(text@)),
        None => (0, 0),
    };
    let count = match cpu {
        Some(text) => core_count(lines(text@)),
        None => 0,
    };
    NodeResources {
        cpu_total: cores(count),
        cpu_available: cores(count),
        memory_total: (total * 1024) as u64,
        memory_available: (available * 1024) as u64,
    }
}

/// Whether the memory that `/proc/meminfo` tells of can be counted in bytes.
pub open spec fn memory_fits(memory: Option<&str>) -> bool {
    memory matches Some(text) ==> meminfo(lines(text@)).0 * 1024 <= u64::MAX && meminfo(
        lines(text@),
    ).1 * 1024 <= u64::MAX
}

/// Reads the resources of the host from the contents of `/proc/meminfo` and
/// `/proc/stat`.
pub fn read_host_resources(memory: Option<&str>, cpu: Option<&str>) -> (res: NodeResources)
    requires
        memory_fits(memory),
    ensures
        res == host_resources(memory, cpu),
{
    let (total, available): (u64, u64) = match memory {
        Some(text) => parse_meminfo(text),
        None => (0, 0),
    };
    let count: usize = match cpu {
        Some(text) => read_linux_cpu(text),
        None => 0,
    };
    NodeResources {
        cpu_total: whole_cores(count),
        cpu_available: whole_cores(count),
        memory_total: kib(total),
        memory_available: kib(available),
    }
}

/// The CPU that a container uses, in billionths of a core: by how much its
/// time grew since an earlier reading, over the time between them, up to the
/// largest number. Zero for a first reading, where no time passed, and where
/// the time shrank because the container was started again.
pub open spec fn cpu_rate(prev: Option<(u64, Instant)>, usage: u64, now: Instant) -> u64 {
    match prev {
        None => 0,
        Some((before, at)) => {
            let elapsed = now.since(at);
            if elapsed > 0 && usage > before {
                let rate = (usage - before) * 1_000_000_000 / elapsed;
                if rate <= u64::MAX {
                    rate as u64
                } else {
                    u64::MAX
                }
            } else {
                0
            }
        },
    }
}

/// The earlier reading of an allocation.
pub open spec fn reading(m: Map<Seq<char>, (u64, Instant)>, id: Seq<char>) -> Option<
    (u64, Instant),
> {
    if m.dom().contains(id) {
        Some(m[id])
    } else {
        None
    }
}

/// Whether an allocation is among the figures.
pub open spec fn reported(stats: Seq<ContainerStats>, id: Seq<char>) -> bool {
    exists|i: int| 0 <= i < stats.len() && (#[trigger] stats[i]).alloc_id@ == id
}

/// Earlier readings, without those of allocations that are no longer
/// reported.
pub open spec fn still_reported(
    m: Map<Seq<char>, (u64, Instant)>,
    stats: Seq<ContainerStats>,
) -> Map<Seq<char>, (u64, Instant)> {
    m.restrict(Set::new(|id: Seq<char>| reported(stats, id)))
}

/// Earlier readings, with those of the given figures put in.
pub open spec fn readings_after(
    m: Map<Seq<char>, (u64, Instant)>,
    stats: Seq<ContainerStats>,
    now: Instant,
) -> Map<Seq<char>, (u64, Instant)>
    decreases stats.len(),
{
    if stats.len() == 0 {
        m
    } else {
        readings_after(m, stats.drop_last(), now).insert(
            stats.last().alloc_id@,
            (stats.last().cpu_usage, now),
        )
    }
}

fn is_reported(stats: &Vec<ContainerStats>, id: &String) -> (res: bool)
    ensures
        res == reported(stats@, id@),
{
    let mut i: usize = 0;
    while i < stats.len()
        invariant
            i <= stats@.len(),
            forall|j: int| 0 <= j < i ==> (#[trigger] stats@[j]).alloc_id@ != id@,
        decreases stats@.len() - i,
    {
        if stats[i].alloc_id.0 == *id {
            return true;
        }
        i = i + 1;
    }
    false
}

/// The CPU that a container uses.
fn rate_since(prev: Option<(u64, Instant)>, usage: u64, now: Instant) -> (res: u64)
    ensures
        res == cpu_rate(prev, usage, now),
{
    match prev {
        None => 0,
        Some((before, at)) => {
            let elapsed: u128 = now.duration_since(at).nanos;
            if elapsed > 0 && usage > before {
                let rate: u128 = (usage - before) as u128 * 1_000_000_000 / elapsed;
                if rate <= u64::MAX as u128 {
                    rate as u64
                } else {
                    u64::MAX
                }
            } else {
                0
            }
        },
    }
}

/// Turns the time that containers have used so far into what they use now, by
/// comparing with earlier readings, and keeps the new readings. Readings of
/// containers that are gone are dropped.
pub fn compute_cpu_rates(
    stats: &Vec<ContainerStats>,
    prev_cpu: &mut Table<(u64, Instant)>,
    now: Instant,
) -> (res: Vec<ContainerStats>)
    requires
        old(prev_cpu).wf(),
    ensures
        final(prev_cpu).wf(),
        final(prev_cpu)@ == readings_after(still_reported(old(prev_cpu)@, stats@), stats@, now),
        res@.len() == stats@.len(),
        forall|i: int|
            0 <= i < res@.len() ==> (#[trigger] res@[i]) == (ContainerStats {
                alloc_id: stats@[i].alloc_id,
                cpu_usage: cpu_rate(
                    reading(
                        readings_after(
                            still_reported(old(prev_cpu)@, stats@),
                            stats@.take(i),
                            now,
                        ),
                        stats@[i].alloc_id@,
                    ),
                    stats@[i].cpu_usage,
                    now,
                ),
                memory_usage: stats@[i].memory_usage,
            }),
{
    let mut kept: Table<(u64, Instant)> = Table::new();
    let ghost was = prev_cpu.entries@;
    let ghost start = still_reported(prev_cpu@, stats@);
    let mut i: usize = 0;
    while i < prev_cpu.entries.len()
        invariant
            i <= was.len(),
            *prev_cpu == *old(prev_cpu),
            prev_cpu.wf(),
            was == prev_cpu.entries@,
            kept.wf(),
            kept@ == still_reported(crate::table::pairs_map(was.take(i as int)), stats@),
        decreases was.len() - i,
    {
        let (id, value) = (&prev_cpu.entries[i].0, prev_cpu.entries[i].1);
        let ghost before = crate::table::pairs_map(was.take(i as int));
        let ghost more = crate::table::pairs_map(was.take(i + 1));
        proof {
            let upto = was.take(i as int);
            assert(was.take(i + 1) =~= upto.push(was[i as int]));
            assert(!crate::config::has_key(upto, id@)) by {
                assert forall|j: int| 0 <= j < upto.len() implies (#[trigger] upto[j]).0@ != id@ by {
                    assert(was[j].0@ != was[i as int].0@);
                }
            }
            assert(crate::config::keys_distinct(upto)) by {
                assert forall|j: int, k: int| 0 <= j < k < upto.len() implies (#[trigger] upto[j]).0@
                    != (#[trigger] upto[k]).0@ by {
                    assert(was[j].0@ != was[k].0@);
                }
            }
            crate::table::lemma_pairs_put(
                upto,
                was.take(i + 1),
                was[i as int].0,
                was[i as int].1,
                upto.len() as int,
            );
        }
        if is_reported(stats, id) {
            kept.insert(id.clone(), value);
            assert(kept@ =~= still_reported(more, stats@));
        } else {
            assert(kept@ =~= still_reported(more, stats@));
        }
        i = i + 1;
    }
    assert(was.take(i as int) =~= was);
    assert(kept@ == start);
    let mut out: Vec<ContainerStats> = Vec::new();
    let mut k: usize = 0;
    while k < stats.len()
        invariant
            k <= stats@.len(),
            kept.wf(),
            kept@ == readings_after(start, stats@.take(k as int), now),
            out@.len() == k,
            forall|j: int|
                0 <= j < k ==> (#[trigger] out@[j]) == (ContainerStats {
                    alloc_id: stats@[j].alloc_id,
                    cpu_usage: cpu_rate(
                        reading(
                            readings_after(start, stats@.take(j), now),
                            stats@[j].alloc_id@,
                        ),
                        stats@[j].cpu_usage,
                        now,
                    ),
                    memory_usage: stats@[j].memory_usage,
                }),
        decreases stats@.len() - k,
    {
        assert(stats@.take(k + 1).drop_last() =~= stats@.take(k as int));
        let s = &stats[k];
        let prev = match kept.get(&s.alloc_id.0) {
            Some(r) => Some(*r),
            None => None,
        };
        let cpu_usage: u64 = rate_since(prev, s.cpu_usage, now);
        kept.insert(s.alloc_id.0.clone(), (s.cpu_usage, now));
        out.push(
            ContainerStats {
                alloc_id: s.alloc_id.clone(),
                cpu_usage,
                memory_usage: s.memory_usage,
            },
        );
        k = k + 1;
    }
    assert(stats@.take(k as int) =~= stats@);
    *prev_cpu = kept;
    out
}

proof fn lemma_readings(
    m: Map<Seq<char>, (u64, Instant)>,
    stats: Seq<ContainerStats>,
    now: Instant,
    id: Seq<char>,
)
    ensures
        readings_after(m, stats, now).dom().contains(id) <==> m.dom().contains(id) || reported(
            stats,
            id,
        ),
        reported(stats, id) ==> readings_after(m, stats, now)[id].1 == now,
    decreases stats.len(),
{
    if stats.len() > 0 {
        let rest = stats.drop_last();
        lemma_readings(m, rest, now, id);
        assert(stats[stats.len() - 1] == stats.last());
        if reported(rest, id) {
            let i = choose|i: int| 0 <= i < rest.len() && (#[trigger] rest[i]).alloc_id@ == id;
            assert(stats[i].alloc_id@ == id);
        }
        if reported(stats, id) && stats.last().alloc_id@ != id {
            let i = choose|i: int| 0 <= i < stats.len() && (#[trigger] stats[i]).alloc_id@ == id;
            assert(rest[i].alloc_id@ == id);
        }
    }
}

/// What is kept for the next reading is about the containers that were
/// reported, and no others.
pub proof fn readings_are_kept_for_reported_containers(
    before: Map<Seq<char>, (u64, Instant)>,
    stats: Seq<ContainerStats>,
    now: Instant,
    id: Seq<char>,
)
    ensures
        readings_after(still_reported(before, stats), stats, now).dom().contains(id)
            <==> reported(stats, id),
        reported(stats, id) ==> readings_after(
            still_reported(before, stats),
            stats,
            now,
        )[id].1 == now,
{
    lemma_readings(still_reported(before, stats), stats, now, id);
}

/// The latest figures about a node and its containers, and the readings that
/// they came from.
#[derive(Debug, PartialEq, Eq)]
pub struct MetricsCollector {
    pub resources: NodeResources,
    pub stats: Vec<ContainerStats>,
    pub prev_cpu: Table<(u64, Instant)>,
}

impl MetricsCollector {
    /// Whether each container has one reading.
    pub open spec fn wf(&self) -> bool {
        self.prev_cpu.wf()
    }

    /// Figures before the first reading: nothing is known.
    pub fn new() -> (res: MetricsCollector)
        ensures
            res.wf(),
            res.resources == (NodeResources {
                cpu_total: 0,
                cpu_available: 0,
                memory_total: 0,
                memory_available: 0,
            }),
            res.stats@.len() == 0,
            res.prev_cpu@ == Map::<Seq<char>, (u64, Instant)>::empty(),
    {
        MetricsCollector {
            resources: NodeResources {
                cpu_total: 0,
                cpu_available: 0,
                memory_total: 0,
                memory_available: 0,
            },
            stats: Vec::new(),
            prev_cpu: Table::new(),
        }
    }

    /// Takes new readings. `raw_stats` tells of the time that containers have
    /// used so far.
    pub fn refresh(
        &mut self,
        resources: NodeResources,
        raw_stats: &Vec<ContainerStats>,
        now: Instant,
    )
        requires
            old(self).wf(),
        ensures
            final(self).wf(),
            final(self).resources == resources,
            final(self).prev_cpu@ == readings_after(
                still_reported(old(self).prev_cpu@, raw_stats@),
                raw_stats@,
                now,
            ),
            final(self).stats@.len() == raw_stats@.len(),
            forall|i: int|
                0 <= i < raw_stats@.len() ==> (#[trigger] final(self).stats@[i]) == (
                ContainerStats {
                    alloc_id: raw_stats@[i].alloc_id,
                    cpu_usage: cpu_rate(
                        reading(
                            readings_after(
                                still_reported(old(self).prev_cpu@, raw_stats@),
                                raw_stats@.take(i),
                                now,
                            ),
                            raw_stats@[i].alloc_id@,
                        ),
                        raw_stats@[i].cpu_usage,
                        now,
                    ),
                    memory_usage: raw_stats@[i].memory_usage,
                }),
    {
        self.stats = compute_cpu_rates(raw_stats, &mut self.prev_cpu, now);
        self.resources = resources;
    }

    /// A copy of the latest figures.
    pub fn current(&self) -> (res: (NodeResources, Vec<ContainerStats>))
        ensures
            res.0 == self.resources,
            res.1@ == self.stats@,
    {
        let mut out: Vec<ContainerStats> = Vec::new();
        let mut i: usize = 0;
        while i < self.stats.len()
            invariant
                i <= self.stats@.len(),
                out@ == self.stats@.take(i as int),
            decreases self.stats@.len() - i,
        {
            out.push(self.stats[i].clone());
            i = i + 1;
            assert(out@ =~= self.stats@.take(i as int));
        }
        assert(out@ =~= self.stats@);
        (self.resources, out)
    }
}

/// What a container uses, times the time between the readings, is by how much its
/// time grew; nothing is told of it at the first reading, where no time passed, and
/// where its time did not grow.
pub proof fn rates_are_growth_over_time(before: u64, at: Instant, usage: u64, now: Instant)
    ensures
        cpu_rate(None, usage, now) == 0,
        usage <= before ==> cpu_rate(Some((before, at)), usage, now) == 0,
        now.nanos <= at.nanos ==> cpu_rate(Some((before, at)), usage, now) == 0,
        now.nanos > at.nanos && usage > before ==> {
            let rate = cpu_rate(Some((before, at)), usage, now);
            let elapsed = now.nanos - at.nanos;
            let grown = (usage - before) * 1_000_000_000;
            &&& rate * elapsed <= grown
            &&& rate < u64::MAX ==> grown < (rate + 1) * elapsed
        },
{
    if now.nanos > at.nanos && usage > before {
        let elapsed = now.nanos - at.nanos;
        let grown = (usage - before) * 1_000_000_000;
        let exact = grown / elapsed;
        let rate = cpu_rate(Some((before, at)), usage, now);
        vstd::arithmetic::div_mod::lemma_fundamental_div_mod(grown, elapsed);
        vstd::arithmetic::div_mod::lemma_mod_bound(grown, elapsed);
        assert(exact * elapsed <= grown < (exact + 1) * elapsed) by (nonlinear_arith)
            requires
                grown == elapsed * exact + grown % elapsed,
                0 <= grown % elapsed < elapsed,
        ;
        assert(rate * elapsed <= exact * elapsed) by (nonlinear_arith)
            requires
                rate <= exact,
                elapsed > 0,
        ;
    }
}

/// The total memory is the one that the last line about it tells of, and the
/// available memory likewise; nothing where no line does.
pub proof fn memory_is_what_the_last_line_tells(text: Seq<Seq<char>>, k: int)
    requires
        0 <= k <= text.len(),
    ensures
        k < text.len() && has_prefix(text[k], "MemTotal:"@) && (forall|j: int|
            k < j < text.len() ==> !has_prefix(#[trigger] text[j], "MemTotal:"@)) ==> meminfo(
            text,
        ).0 == meminfo_kb(
            text[k].subrange("MemTotal:"@.len() as int, text[k].len() as int),
        ),
        k < text.len() && has_prefix(text[k], "MemAvailable:"@) && !has_prefix(
            text[k],
            "MemTotal:"@,
        ) && (forall|j: int|
            k < j < text.len() ==> !has_prefix(#[trigger] text[j], "MemAvailable:"@)
                || has_prefix(text[j], "MemTotal:"@)) ==> meminfo(text).1 == meminfo_kb(
            text[k].subrange("MemAvailable:"@.len() as int, text[k].len() as int),
        ),
        (forall|j: int| 0 <= j < text.len() ==> !has_prefix(#[trigger] text[j], "MemTotal:"@))
            ==> meminfo(text).0 == 0,
        (forall|j: int| 0 <= j < text.len() ==> !has_prefix(#[trigger] text[j], "MemAvailable:"@))
            ==> meminfo(text).1 == 0,
    decreases text.len(),
{
    if text.len() > 0 {
        let rest = text.drop_last();
        assert forall|j: int| 0 <= j < rest.len() implies #[trigger] rest[j] == text[j] by {}
        assert(text[text.len() - 1] == text.last());
        memory_is_what_the_last_line_tells(
            rest,
            if k < rest.len() {
                k
            } else {
                rest.len() as int
            },
        );
    }
}

/// Cores are counted line by line: a line about one core counts once, and any other
/// not at all.
pub proof fn cores_are_counted_line_by_line(a: Seq<Seq<char>>, line: Seq<char>, b: Seq<Seq<char>>)
    ensures
        core_count(Seq::empty()) == 0,
        core_count(a + b) == core_count(a) + core_count(b),
        has_prefix(line, "cpu"@) && !has_prefix(line, "cpu "@) ==> core_count(seq![line]) == 1,
        !has_prefix(line, "cpu"@) || has_prefix(line, "cpu "@) ==> core_count(seq![line]) == 0,
    decreases b.len(),
{
    assert(seq![line].drop_last() =~= Seq::<Seq<char>>::empty());
    assert(core_count(Seq::<Seq<char>>::empty()) == 0);
    if b.len() == 0 {
        assert(a + b =~= a);
    } else {
        assert((a + b).drop_last() =~= a + b.drop_last());
        cores_are_counted_line_by_line(a, line, b.drop_last());
    }
}

/// A host has as many bytes as `/proc/meminfo` tells kibibytes, and a billion
/// billionths of each core, up to the largest number; all of its cores are free.
pub proof fn hosts_have_what_is_told(memory: &str, cpu: &str)
    requires
        memory_fits(Some(memory)),
    ensures
        ({
            let host = host_resources(Some(memory), Some(cpu));
            &&& host.memory_total == 1024 * meminfo(lines(memory@)).0
            &&& host.memory_available == 1024 * meminfo(lines(memory@)).1
            &&& host.cpu_total == vstd::math::min(
                1_000_000_000 * core_count(lines(cpu@)) as int,
                u64::MAX as int,
            )
            &&& host.cpu_available == host.cpu_total
        }),
        host_resources(None, None) == (NodeResources {
            cpu_total: 0,
            cpu_available: 0,
            memory_total: 0,
            memory_available: 0,
        }),
{
}

proof fn lemma_reading_untouched(
    m: Map<Seq<char>, (u64, Instant)>,
    stats: Seq<ContainerStats>,
    now: Instant,
    id: Seq<char>,
)
    requires
        forall|j: int| 0 <= j < stats.len() ==> (#[trigger] stats[j]).alloc_id@ != id,
    ensures
        reading(readings_after(m, stats, now), id) == reading(m, id),
    decreases stats.len(),
{
    if stats.len() > 0 {
        let rest = stats.drop_last();
        assert forall|j: int| 0 <= j < rest.len() implies (#[trigger] rest[j]).alloc_id@ != id by {
            assert(rest[j] == stats[j]);
        }
        assert(stats[stats.len() - 1].alloc_id@ != id);
        lemma_reading_untouched(m, rest, now, id);
    }
}

/// The figure of a container is compared with the reading of the same container
/// before, and its own reading is the one that the next figure is compared with.
pub proof fn figures_are_compared_with_their_own_reading(
    before: Map<Seq<char>, (u64, Instant)>,
    stats: Seq<ContainerStats>,
    now: Instant,
    i: int,
)
    requires
        0 <= i < stats.len(),
        forall|j: int|
            0 <= j < stats.len() && j != i ==> (#[trigger] stats[j]).alloc_id@
                != stats[i].alloc_id@,
    ensures
        ({
            let id = stats[i].alloc_id@;
            let used = reading(
                readings_after(still_reported(before, stats), stats.take(i), now),
                id,
            );
            &&& before.dom().contains(id) ==> used == Some(before[id])
            &&& !before.dom().contains(id) ==> used is None
            &&& readings_after(still_reported(before, stats), stats, now).dom().contains(id)
            &&& readings_after(still_reported(before, stats), stats, now)[id] == (
                stats[i].cpu_usage,
                now,
            )
        }),
{
    let id = stats[i].alloc_id@;
    let m = still_reported(before, stats);
    assert(reported(stats, id));
    assert forall|j: int| 0 <= j < stats.take(i).len() implies (#[trigger] stats.take(
        i,
    )[j]).alloc_id@ != id by {
        assert(stats.take(i)[j] == stats[j]);
    }
    lemma_reading_untouched(m, stats.take(i), now, id);
    lemma_last_reading(m, stats, now, i);
}

proof fn lemma_last_reading(
    m: Map<Seq<char>, (u64, Instant)>,
    stats: Seq<ContainerStats>,
    now: Instant,
    i: int,
)
    requires
        0 <= i < stats.len(),
        forall|j: int| i < j < stats.len() ==> (#[trigger] stats[j]).alloc_id@
            != stats[i].alloc_id@,
    ensures
        readings_after(m, stats, now).dom().contains(stats[i].alloc_id@),
        readings_after(m, stats, now)[stats[i].alloc_id@] == (stats[i].cpu_usage, now),
    decreases stats.len(),
{
    let rest = stats.drop_last();
    if i < rest.len() {
        assert(stats[stats.len() - 1].alloc_id@ != stats[i].alloc_id@);
        assert forall|j: int| i < j < rest.len() implies (#[trigger] rest[j]).alloc_id@
            != rest[i].alloc_id@ by {
            assert(rest[j] == stats[j]);
        }
        lemma_last_reading(m, rest, now, i);
    }
}

} // verus!
