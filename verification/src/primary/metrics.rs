//! Live figures about nodes, restarts and tasks, kept outside the replicated
//! state.
use crate::config::{lemma_position, ContainerStats, NodeId, NodeResources};
use crate::table::Table;
use crate::time::Duration;
use vstd::prelude::*;

verus! {

/// Snapshot of live metrics for a single node, updated on each heartbeat.
#[derive(Debug, PartialEq, Eq)]
pub struct NodeMetricsSnapshot {
    pub resources: NodeResources,
    pub container_stats: Vec<ContainerStats>,
}

/// How many buckets a histogram of task durations has.
pub const BUCKETS: usize = 9;

/// The upper bound of a bucket in seconds; the last one has none.
pub open spec fn bound(i: int) -> Option<u64> {
    if i == 0 {
        Some(1)
    } else if i == 1 {
        Some(5)
    } else if i == 2 {
        Some(30)
    } else if i == 3 {
        Some(60)
    } else if i == 4 {
        Some(300)
    } else if i == 5 {
        Some(600)
    } else if i == 6 {
        Some(1800)
    } else if i == 7 {
        Some(3600)
    } else {
        None
    }
}

/// Whether a span is within the bound of a bucket.
pub open spec fn within(span: Duration, i: int) -> bool {
    match bound(i) {
        Some(secs) => span.nanos <= secs * 1_000_000_000,
        None => true,
    }
}

/// Whether a span falls into a bucket: the first whose bound it is within.
pub open spec fn falls_into(span: Duration, i: int) -> bool {
    &&& 0 <= i < BUCKETS
    &&& within(span, i)
    &&& forall|j: int| 0 <= j < i ==> !(#[trigger] within(span, j))
}

/// The sum of counts.
pub open spec fn total(counts: Seq<u64>) -> nat
    decreases counts.len(),
{
    if counts.len() == 0 {
        0
    } else {
        total(counts.drop_last()) + counts.last() as nat
    }
}

proof fn lemma_total_update(counts: Seq<u64>, i: int, value: u64)
    requires
        0 <= i < counts.len(),
    ensures
        total(counts.update(i, value)) == total(counts) - counts[i] + value,
        counts[i] <= total(counts),
    decreases counts.len(),
{
    let after = counts.update(i, value);
    if i == counts.len() - 1 {
        assert(after.drop_last() =~= counts.drop_last());
    } else {
        lemma_total_update(counts.drop_last(), i, value);
        assert(after.drop_last() =~= counts.drop_last().update(i, value));
    }
}

proof fn lemma_total_prefix(counts: Seq<u64>, i: int)
    requires
        0 <= i <= counts.len(),
    ensures
        total(counts.take(i)) <= total(counts),
    decreases counts.len() - i,
{
    if i < counts.len() {
        lemma_total_prefix(counts, i + 1);
        assert(counts.take(i + 1).drop_last() =~= counts.take(i));
    } else {
        assert(counts.take(i) =~= counts);
    }
}

proof fn lemma_total_zero(counts: Seq<u64>)
    requires
        forall|i: int| 0 <= i < counts.len() ==> counts[i] == 0,
    ensures
        total(counts) == 0,
    decreases counts.len(),
{
    if counts.len() > 0 {
        lemma_total_zero(counts.drop_last());
    }
}

/// Durations of a task, counted by buckets that do not overlap.
#[derive(Debug, PartialEq, Eq)]
pub struct DurationHistogram {
    pub count: u64,
    pub sum: Duration,
    pub buckets: Vec<u64>,
}

/// The sum of two spans, or the longest span where it is longer.
pub open spec fn span_sum(a: Duration, b: Duration) -> Duration {
    if a.nanos + b.nanos <= u128::MAX {
        Duration { nanos: (a.nanos + b.nanos) as u128 }
    } else {
        Duration { nanos: u128::MAX }
    }
}

impl DurationHistogram {
    /// Whether every duration is in one bucket.
    pub open spec fn wf(self) -> bool {
        &&& self.buckets@.len() == BUCKETS
        &&& total(self.buckets@) == self.count
    }

    /// Whether `next` counts the span, too.
    pub open spec fn counts(self, span: Duration, next: DurationHistogram) -> bool {
        &&& next.count == self.count + 1
        &&& next.sum == span_sum(self.sum, span)
        &&& exists|i: int| #[trigger]
            falls_into(span, i) && next.buckets@ == self.buckets@.update(
                i,
                (self.buckets@[i] + 1) as u64,
            )
    }

    /// A histogram of nothing.
    pub fn new() -> (res: DurationHistogram)
        ensures
            res.wf(),
            res.count == 0,
            res.sum.nanos == 0,
    {
        let buckets: Vec<u64> = vec![0, 0, 0, 0, 0, 0, 0, 0, 0];
        proof {
            lemma_total_zero(buckets@);
        }
        DurationHistogram { count: 0, sum: Duration { nanos: 0 }, buckets }
    }

    /// Counts a span.
    pub fn record(&mut self, span: Duration)
        requires
            old(self).wf(),
            old(self).count < u64::MAX,
        ensures
            final(self).wf(),
            old(self).counts(span, *final(self)),
    {
        let i: usize = bucket_index(span);
        proof {
            lemma_total_update(self.buckets@, i as int, (self.buckets@[i as int] + 1) as u64);
        }
        self.count = self.count + 1;
        self.sum = match self.sum.nanos.checked_add(span.nanos) {
            Some(nanos) => Duration { nanos },
            None => Duration { nanos: u128::MAX },
        };
        let n: u64 = self.buckets[i] + 1;
        self.buckets[i] = n;
    }
}

/// The upper bound of a bucket in seconds; the last one has none.
fn bucket_bound(i: usize) -> (res: Option<u64>)
    ensures
        res == bound(i as int),
{
    match i {
        0 => Some(1),
        1 => Some(5),
        2 => Some(30),
        3 => Some(60),
        4 => Some(300),
        5 => Some(600),
        6 => Some(1800),
        7 => Some(3600),
        _ => None,
    }
}

/// The bucket into which a span falls.
fn bucket_index(span: Duration) -> (res: usize)
    ensures
        falls_into(span, res as int),
{
    let mut i: usize = 0;
    while i < 8
        invariant
            i <= 8,
            forall|j: int| 0 <= j < i ==> !(#[trigger] within(span, j)),
        decreases 8 - i,
    {
        if let Some(secs) = bucket_bound(i) {
            if span.nanos <= secs as u128 * 1_000_000_000 {
                return i;
            }
        }
        i = i + 1;
    }
    8
}

/// Snapshot of a task duration histogram: with each bound, how many durations
/// are within it.
#[derive(Debug, PartialEq, Eq)]
pub struct DurationHistogramSnapshot {
    pub name: String,
    pub count: u64,
    pub sum: Duration,
    pub buckets: Vec<(Option<u64>, u64)>,
}

/// Whether a snapshot shows a histogram.
pub open spec fn shows(
    snapshot: DurationHistogramSnapshot,
    name: String,
    histogram: DurationHistogram,
) -> bool {
    &&& snapshot.name == name
    &&& snapshot.count == histogram.count
    &&& snapshot.sum == histogram.sum
    &&& snapshot.buckets@.len() == BUCKETS
    &&& forall|i: int|
        0 <= i < BUCKETS ==> (#[trigger] snapshot.buckets@[i]).0 == bound(i)
            && snapshot.buckets@[i].1 == total(histogram.buckets@.take(i + 1))
}

/// Whether snapshots show the histograms of all tasks.
pub open spec fn shows_all(live: LiveMetrics, snapshots: Seq<DurationHistogramSnapshot>) -> bool {
    &&& snapshots.len() == live.task_durations.entries@.len()
    &&& forall|i: int|
        0 <= i < snapshots.len() ==> shows(
            #[trigger] snapshots[i],
            live.task_durations.entries@[i].0,
            live.task_durations.entries@[i].1,
        )
}

/// In a snapshot, counts grow from bound to bound, and the one without a bound
/// counts everything.
pub proof fn snapshots_are_cumulative(
    snapshot: DurationHistogramSnapshot,
    name: String,
    histogram: DurationHistogram,
    i: int,
)
    requires
        histogram.wf(),
        shows(snapshot, name, histogram),
        0 <= i < BUCKETS - 1,
    ensures
        snapshot.buckets@[i].1 <= snapshot.buckets@[i + 1].1,
        snapshot.buckets@[BUCKETS - 1] == (None::<u64>, snapshot.count),
{
    let counts = histogram.buckets@;
    assert(counts.take(i + 2).drop_last() =~= counts.take(i + 1));
    assert(counts.take(BUCKETS as int) =~= counts);
}

/// The value of a counter, or zero where nothing was counted.
pub open spec fn count_of(counts: Map<Seq<char>, u64>, name: Seq<char>) -> u64 {
    if counts.dom().contains(name) {
        counts[name]
    } else {
        0
    }
}

/// Volatile metrics stored outside the replicated state.
#[derive(Debug, PartialEq, Eq)]
pub struct LiveMetrics {
    pub node_metrics: Table<NodeMetricsSnapshot>,
    pub restarts: Table<u64>,
    pub task_spawns: Table<u64>,
    pub task_durations: Table<DurationHistogram>,
}

fn bump(counts: &mut Table<u64>, name: &String)
    requires
        old(counts).wf(),
        count_of(old(counts)@, name@) < u64::MAX,
    ensures
        final(counts).wf(),
        final(counts)@ == old(counts)@.insert(
            name@,
            (count_of(old(counts)@, name@) + 1) as u64,
        ),
{
    let n: u64 = match counts.get(name) {
        Some(n) => *n,
        None => 0,
    };
    counts.insert(name.clone(), n + 1);
}

fn copy_counts(counts: &Table<u64>) -> (res: Vec<(String, u64)>)
    ensures
        res@ == counts.entries@,
{
    let mut out: Vec<(String, u64)> = Vec::new();
    let mut i: usize = 0;
    while i < counts.entries.len()
        invariant
            i <= counts.entries@.len(),
            out@ == counts.entries@.take(i as int),
        decreases counts.entries@.len() - i,
    {
        out.push((counts.entries[i].0.clone(), counts.entries[i].1));
        i = i + 1;
        assert(out@ =~= counts.entries@.take(i as int));
    }
    assert(out@ =~= counts.entries@);
    out
}

fn copy_stats(stats: &Vec<ContainerStats>) -> (res: Vec<ContainerStats>)
    ensures
        res@ == stats@,
{
    let mut out: Vec<ContainerStats> = Vec::new();
    let mut i: usize = 0;
    while i < stats.len()
        invariant
            i <= stats@.len(),
            out@ == stats@.take(i as int),
        decreases stats@.len() - i,
    {
        out.push(stats[i].clone());
        i = i + 1;
        assert(out@ =~= stats@.take(i as int));
    }
    assert(out@ =~= stats@);
    out
}

/// The figures that a heartbeat changes nothing of.
pub open spec fn same_counts(a: LiveMetrics, b: LiveMetrics) -> bool {
    a.restarts == b.restarts && a.task_spawns == b.task_spawns && a.task_durations
        == b.task_durations
}

impl LiveMetrics {
    /// Whether names stand once and every duration is in one bucket.
    pub open spec fn wf(&self) -> bool {
        &&& self.node_metrics.wf()
        &&& self.restarts.wf()
        &&& self.task_spawns.wf()
        &&& self.task_durations.wf()
        &&& forall|name: Seq<char>| #[trigger]
            self.task_durations@.dom().contains(name) ==> self.task_durations@[name].wf()
    }

    /// Whether one more duration of the task can be counted.
    pub open spec fn can_count(&self, name: Seq<char>) -> bool {
        self.task_durations@.dom().contains(name) ==> self.task_durations@[name].count < u64::MAX
    }

    /// Whether one more duration of the task can be counted.
    pub fn has_room(&self, name: &String) -> (res: bool)
        ensures
            res == self.can_count(name@),
    {
        match self.task_durations.get(name) {
            Some(histogram) => histogram.count < u64::MAX,
            None => true,
        }
    }

    /// Figures about nothing.
    pub fn new() -> (res: LiveMetrics)
        ensures
            res.wf(),
            res.node_metrics@ == Map::<Seq<char>, NodeMetricsSnapshot>::empty(),
            res.restarts@ == Map::<Seq<char>, u64>::empty(),
            res.task_spawns@ == Map::<Seq<char>, u64>::empty(),
            res.task_durations@ == Map::<Seq<char>, DurationHistogram>::empty(),
    {
        LiveMetrics {
            node_metrics: Table::new(),
            restarts: Table::new(),
            task_spawns: Table::new(),
            task_durations: Table::new(),
        }
    }

    /// Updates the figures of a node from its latest heartbeat.
    pub fn update(&mut self, node_id: NodeId, resources: NodeResources, stats: Vec<ContainerStats>)
        requires
            old(self).wf(),
        ensures
            final(self).wf(),
            same_counts(*old(self), *final(self)),
            final(self).node_metrics@ == old(self).node_metrics@.insert(
                node_id@,
                NodeMetricsSnapshot { resources, container_stats: stats },
            ),
    {
        self.node_metrics.insert(
            node_id.0,
            NodeMetricsSnapshot { resources, container_stats: stats },
        );
    }

    /// A copy of the figures of all nodes.
    pub fn snapshot_all(&self) -> (res: Vec<(NodeId, NodeMetricsSnapshot)>)
        ensures
            res@.len() == self.node_metrics.entries@.len(),
            forall|i: int|
                0 <= i < res@.len() ==> (#[trigger] res@[i]).0.0 == self.node_metrics.entries@[i].0
                    && res@[i].1.resources == self.node_metrics.entries@[i].1.resources
                    && res@[i].1.container_stats@
                    == self.node_metrics.entries@[i].1.container_stats@,
    {
        let mut out: Vec<(NodeId, NodeMetricsSnapshot)> = Vec::new();
        let mut i: usize = 0;
        while i < self.node_metrics.entries.len()
            invariant
                i <= self.node_metrics.entries@.len(),
                out@.len() == i,
                forall|j: int|
                    0 <= j < i ==> (#[trigger] out@[j]).0.0 == self.node_metrics.entries@[j].0
                        && out@[j].1.resources == self.node_metrics.entries@[j].1.resources
                        && out@[j].1.container_stats@
                        == self.node_metrics.entries@[j].1.container_stats@,
            decreases self.node_metrics.entries@.len() - i,
        {
            let entry = &self.node_metrics.entries[i];
            out.push(
                (
                    NodeId(entry.0.clone()),
                    NodeMetricsSnapshot {
                        resources: entry.1.resources,
                        container_stats: copy_stats(&entry.1.container_stats),
                    },
                ),
            );
            i = i + 1;
        }
        out
    }

    /// Counts a restart of a service.
    pub fn record_restart(&mut self, service_name: &String)
        requires
            old(self).wf(),
            count_of(old(self).restarts@, service_name@) < u64::MAX,
        ensures
            final(self).wf(),
            final(self).node_metrics == old(self).node_metrics,
            final(self).task_spawns == old(self).task_spawns,
            final(self).task_durations == old(self).task_durations,
            final(self).restarts@ == old(self).restarts@.insert(
                service_name@,
                (count_of(old(self).restarts@, service_name@) + 1) as u64,
            ),
    {
        bump(&mut self.restarts, service_name);
    }

    /// How often each service was restarted.
    pub fn restart_counts(&self) -> (res: Vec<(String, u64)>)
        ensures
            res@ == self.restarts.entries@,
    {
        copy_counts(&self.restarts)
    }

    /// Counts a spawn of a task.
    pub fn record_task_spawn(&mut self, task_name: &String)
        requires
            old(self).wf(),
            count_of(old(self).task_spawns@, task_name@) < u64::MAX,
        ensures
            final(self).wf(),
            final(self).node_metrics == old(self).node_metrics,
            final(self).restarts == old(self).restarts,
            final(self).task_durations == old(self).task_durations,
            final(self).task_spawns@ == old(self).task_spawns@.insert(
                task_name@,
                (count_of(old(self).task_spawns@, task_name@) + 1) as u64,
            ),
    {
        bump(&mut self.task_spawns, task_name);
    }

    /// How often each task was spawned.
    pub fn task_spawn_counts(&self) -> (res: Vec<(String, u64)>)
        ensures
            res@ == self.task_spawns.entries@,
    {
        copy_counts(&self.task_spawns)
    }

    /// Counts how long a task took.
    pub fn record_task_duration(&mut self, task_name: &String, span: Duration)
        requires
            old(self).wf(),
            old(self).can_count(task_name@),
        ensures
            final(self).wf(),
            final(self).node_metrics == old(self).node_metrics,
            final(self).restarts == old(self).restarts,
            final(self).task_spawns == old(self).task_spawns,
            duration_counted(
                old(self).task_durations@,
                task_name@,
                span,
                final(self).task_durations@,
            ),
    {
        let taken = self.task_durations.remove(task_name);
        let mut histogram = match taken {
            Some(h) => h,
            None => DurationHistogram::new(),
        };
        histogram.record(span);
        self.task_durations.insert(task_name.clone(), histogram);
        assert(self.task_durations@.remove(task_name@) =~= old(self).task_durations@.remove(
            task_name@,
        ));
    }

    /// The histograms of all tasks, as they are now.
    pub fn task_duration_snapshots(&self) -> (res: Vec<DurationHistogramSnapshot>)
        requires
            self.wf(),
        ensures
            shows_all(*self, res@),
    {
        let mut out: Vec<DurationHistogramSnapshot> = Vec::new();
        let mut i: usize = 0;
        while i < self.task_durations.entries.len()
            invariant
                self.wf(),
                i <= self.task_durations.entries@.len(),
                out@.len() == i,
                forall|j: int|
                    0 <= j < i ==> shows(
                        #[trigger] out@[j],
                        self.task_durations.entries@[j].0,
                        self.task_durations.entries@[j].1,
                    ),
            decreases self.task_durations.entries@.len() - i,
        {
            let entry = &self.task_durations.entries[i];
            proof {
                lemma_entry_in_map(self.task_durations, i as int);
            }
            out.push(snapshot(&entry.0, &entry.1));
            i = i + 1;
        }
        out
    }
}

/// An entry of a table is in its map.
pub proof fn lemma_entry_in_map<V>(table: Table<V>, i: int)
    requires
        table.wf(),
        0 <= i < table.entries@.len(),
    ensures
        table@.dom().contains(table.entries@[i].0@),
        table@[table.entries@[i].0@] == table.entries@[i].1,
{
    crate::config::lemma_position(table.entries@, table.entries@[i].0@);
    assert(crate::config::has_key(table.entries@, table.entries@[i].0@));
}

/// Whether one more duration of a task has been counted, and nothing else.
pub open spec fn duration_counted(
    before: Map<Seq<char>, DurationHistogram>,
    name: Seq<char>,
    span: Duration,
    after: Map<Seq<char>, DurationHistogram>,
) -> bool {
    &&& after.dom().contains(name)
    &&& after.remove(name) == before.remove(name)
    &&& if before.dom().contains(name) {
        before[name].counts(span, after[name])
    } else {
        exists|empty: DurationHistogram| #[trigger]
            empty.wf() && empty.count == 0 && empty.sum.nanos == 0 && empty.counts(
                span,
                after[name],
            )
    }
}

fn snapshot(name: &String, histogram: &DurationHistogram) -> (res: DurationHistogramSnapshot)
    requires
        histogram.wf(),
    ensures
        shows(res, *name, *histogram),
{
    let mut buckets: Vec<(Option<u64>, u64)> = Vec::new();
    let mut cumulative: u64 = 0;
    let mut i: usize = 0;
    while i < 9
        invariant
            i <= 9,
            histogram.wf(),
            buckets@.len() == i,
            cumulative == total(histogram.buckets@.take(i as int)),
            forall|j: int|
                0 <= j < i ==> (#[trigger] buckets@[j]).0 == bound(j) && buckets@[j].1 == total(
                    histogram.buckets@.take(j + 1),
                ),
        decreases 9 - i,
    {
        proof {
            let counts = histogram.buckets@;
            assert(counts.take(i + 1).drop_last() =~= counts.take(i as int));
            lemma_total_prefix(counts, i + 1);
        }
        cumulative = cumulative + histogram.buckets[i];
        buckets.push((bucket_bound(i), cumulative));
        i = i + 1;
    }
    DurationHistogramSnapshot {
        name: name.clone(),
        count: histogram.count,
        sum: histogram.sum,
        buckets,
    }
}

/// Whether the histograms hold what was recorded, the name of a task and how
/// long it took at a time, and nothing else.
pub open spec fn recorded(
    records: Seq<(Seq<char>, Duration)>,
    histograms: Map<Seq<char>, DurationHistogram>,
) -> bool
    decreases records.len(),
{
    if records.len() == 0 {
        histograms == Map::<Seq<char>, DurationHistogram>::empty()
    } else {
        exists|before: Map<Seq<char>, DurationHistogram>|
            recorded(records.drop_last(), before) && #[trigger] duration_counted(
                before,
                records.last().0,
                records.last().1,
                histograms,
            )
    }
}

/// One more duration makes one more record.
pub proof fn recording_adds_a_record(
    records: Seq<(Seq<char>, Duration)>,
    before: Map<Seq<char>, DurationHistogram>,
    name: Seq<char>,
    span: Duration,
    after: Map<Seq<char>, DurationHistogram>,
)
    requires
        recorded(records, before),
        duration_counted(before, name, span, after),
    ensures
        recorded(records.push((name, span)), after),
{
    let more = records.push((name, span));
    assert(more.drop_last() =~= records);
    assert(duration_counted(before, more.last().0, more.last().1, after));
}

/// How long a task took, each time that it was recorded.
pub open spec fn spans_of(records: Seq<(Seq<char>, Duration)>, name: Seq<char>) -> Seq<Duration>
    decreases records.len(),
{
    if records.len() == 0 {
        Seq::empty()
    } else if records.last().0 == name {
        spans_of(records.drop_last(), name).push(records.last().1)
    } else {
        spans_of(records.drop_last(), name)
    }
}

/// The sum of spans.
pub open spec fn sum_of(spans: Seq<Duration>) -> Duration
    decreases spans.len(),
{
    if spans.len() == 0 {
        Duration { nanos: 0 }
    } else {
        span_sum(sum_of(spans.drop_last()), spans.last())
    }
}

/// How many of the spans are within the bound of a bucket.
pub open spec fn how_many_within(spans: Seq<Duration>, i: int) -> nat
    decreases spans.len(),
{
    if spans.len() == 0 {
        0
    } else {
        how_many_within(spans.drop_last(), i) + if within(spans.last(), i) {
            1nat
        } else {
            0
        }
    }
}

/// Whether a histogram holds just the given spans.
spec fn holds_spans(histogram: DurationHistogram, spans: Seq<Duration>) -> bool {
    &&& histogram.wf()
    &&& histogram.count == spans.len()
    &&& histogram.sum == sum_of(spans)
    &&& forall|i: int|
        0 <= i < BUCKETS ==> #[trigger] total(histogram.buckets@.take(i + 1)) == how_many_within(
            spans,
            i,
        )
}

proof fn lemma_nothing_held(histogram: DurationHistogram)
    requires
        histogram.wf(),
        histogram.count == 0,
        histogram.sum.nanos == 0,
    ensures
        holds_spans(histogram, Seq::empty()),
{
    assert forall|i: int| 0 <= i < BUCKETS implies #[trigger] total(histogram.buckets@.take(i + 1))
        == how_many_within(Seq::empty(), i) by {
        lemma_total_prefix(histogram.buckets@, i + 1);
    }
}

proof fn lemma_one_more_held(
    histogram: DurationHistogram,
    spans: Seq<Duration>,
    span: Duration,
    next: DurationHistogram,
)
    requires
        holds_spans(histogram, spans),
        histogram.counts(span, next),
    ensures
        holds_spans(next, spans.push(span)),
{
    let counts = histogram.buckets@;
    let b = choose|b: int| #[trigger]
        falls_into(span, b) && next.buckets@ == counts.update(b, (counts[b] + 1) as u64);
    let value = (counts[b] + 1) as u64;
    lemma_total_update(counts, b, value);
    assert(counts[b] + 1 <= u64::MAX);
    assert(spans.push(span).drop_last() =~= spans);
    assert forall|i: int| 0 <= i < BUCKETS implies #[trigger] total(next.buckets@.take(i + 1))
        == how_many_within(spans.push(span), i) by {
        assert(total(counts.take(i + 1)) == how_many_within(spans, i));
        if b <= i {
            assert(next.buckets@.take(i + 1) =~= counts.take(i + 1).update(b, value));
            lemma_total_update(counts.take(i + 1), b, value);
            assert(within(span, i));
        } else {
            assert(next.buckets@.take(i + 1) =~= counts.take(i + 1));
            assert(!within(span, i));
        }
    }
}

proof fn lemma_recorded_held(
    records: Seq<(Seq<char>, Duration)>,
    histograms: Map<Seq<char>, DurationHistogram>,
    name: Seq<char>,
)
    requires
        recorded(records, histograms),
    ensures
        histograms.dom().contains(name) <==> spans_of(records, name).len() > 0,
        histograms.dom().contains(name) ==> holds_spans(
            histograms[name],
            spans_of(records, name),
        ),
    decreases records.len(),
{
    if records.len() > 0 {
        let (task, span) = records.last();
        let before = choose|before: Map<Seq<char>, DurationHistogram>|
            recorded(records.drop_last(), before) && #[trigger] duration_counted(
                before,
                task,
                span,
                histograms,
            );
        let spans = spans_of(records.drop_last(), name);
        lemma_recorded_held(records.drop_last(), before, name);
        if task == name {
            if before.dom().contains(name) {
                lemma_one_more_held(before[name], spans, span, histograms[name]);
            } else {
                let empty = choose|empty: DurationHistogram| #[trigger]
                    empty.wf() && empty.count == 0 && empty.sum.nanos == 0 && empty.counts(
                        span,
                        histograms[name],
                    );
                lemma_nothing_held(empty);
                assert(spans =~= Seq::empty());
                lemma_one_more_held(empty, spans, span, histograms[name]);
            }
        } else {
            assert(histograms.remove(task).dom().contains(name) == before.remove(
                task,
            ).dom().contains(name));
            assert(histograms.remove(task)[name] == before.remove(task)[name]);
        }
    }
}

/// Whether a snapshot is the histogram of the given spans: it counts them all
/// and sums them up, and tells for each bound how many are within it. Bounds
/// go up, counts never go down, and the last count, which has no bound, is
/// that of all.
pub open spec fn is_histogram_of(
    snapshot: DurationHistogramSnapshot,
    spans: Seq<Duration>,
) -> bool {
    &&& snapshot.count == spans.len()
    &&& snapshot.sum == sum_of(spans)
    &&& snapshot.buckets@.len() == BUCKETS
    &&& forall|i: int|
        0 <= i < BUCKETS ==> (#[trigger] snapshot.buckets@[i]).0 == bound(i)
            && snapshot.buckets@[i].1 == how_many_within(spans, i)
    &&& forall|i: int, j: int|
        0 <= i < j < BUCKETS ==> {
            &&& (#[trigger] snapshot.buckets@[i]).1 <= (#[trigger] snapshot.buckets@[j]).1
            &&& snapshot.buckets@[i].0 is Some
            &&& snapshot.buckets@[j].0 is Some ==> snapshot.buckets@[i].0->0
                < snapshot.buckets@[j].0->0
        }
    &&& snapshot.buckets@[BUCKETS - 1] == (None::<u64>, snapshot.count)
}

/// The snapshots tell exactly what was recorded: there is one snapshot for
/// each name with a recorded duration, no other, and each is the histogram of
/// the durations recorded for its name.
pub proof fn snapshots_tell_what_was_recorded(
    live: LiveMetrics,
    records: Seq<(Seq<char>, Duration)>,
    snapshots: Seq<DurationHistogramSnapshot>,
)
    requires
        live.wf(),
        recorded(records, live.task_durations@),
        shows_all(live, snapshots),
    ensures
        forall|name: Seq<char>|
            (#[trigger] spans_of(records, name)).len() > 0 ==> exists|i: int|
                0 <= i < snapshots.len() && (#[trigger] snapshots[i]).name@ == name,
        forall|i: int, j: int|
            0 <= i < j < snapshots.len() ==> (#[trigger] snapshots[i]).name@ != (
            #[trigger] snapshots[j]).name@,
        forall|i: int|
            0 <= i < snapshots.len() ==> spans_of(
                records,
                (#[trigger] snapshots[i]).name@,
            ).len() > 0 && is_histogram_of(
                snapshots[i],
                spans_of(records, snapshots[i].name@),
            ),
{
    let entries = live.task_durations.entries@;
    assert forall|name: Seq<char>| (#[trigger] spans_of(records, name)).len() > 0 implies exists|
        i: int,
    |
        0 <= i < snapshots.len() && (#[trigger] snapshots[i]).name@ == name by {
        lemma_recorded_held(records, live.task_durations@, name);
        lemma_position(entries, name);
        assert(snapshots[crate::config::position(entries, name)].name@ == name);
    }
    assert forall|i: int| 0 <= i < snapshots.len() implies spans_of(
        records,
        (#[trigger] snapshots[i]).name@,
    ).len() > 0 && is_histogram_of(snapshots[i], spans_of(records, snapshots[i].name@)) by {
        lemma_entry_in_map(live.task_durations, i);
        lemma_recorded_held(records, live.task_durations@, snapshots[i].name@);
        lemma_histogram_shown(
            snapshots[i],
            entries[i].0,
            entries[i].1,
            spans_of(records, snapshots[i].name@),
        );
    }
}

proof fn lemma_more_within(spans: Seq<Duration>, i: int, j: int)
    requires
        0 <= i <= j < BUCKETS,
    ensures
        how_many_within(spans, i) <= how_many_within(spans, j),
    decreases spans.len(),
{
    if spans.len() > 0 {
        lemma_more_within(spans.drop_last(), i, j);
    }
}

proof fn lemma_histogram_shown(
    snapshot: DurationHistogramSnapshot,
    name: String,
    histogram: DurationHistogram,
    spans: Seq<Duration>,
)
    requires
        shows(snapshot, name, histogram),
        holds_spans(histogram, spans),
    ensures
        is_histogram_of(snapshot, spans),
{
    let buckets = snapshot.buckets@;
    assert forall|i: int| 0 <= i < BUCKETS implies (#[trigger] buckets[i]).1 == how_many_within(
        spans,
        i,
    ) by {
        assert(buckets[i].1 == total(histogram.buckets@.take(i + 1)));
    }
    assert forall|i: int, j: int| 0 <= i < j < BUCKETS implies (#[trigger] buckets[i]).1 <= (
    #[trigger] buckets[j]).1 by {
        lemma_more_within(spans, i, j);
    }
    snapshots_are_cumulative(snapshot, name, histogram, 0);
}

/// A counter goes up by one when something is counted, and the others stay.
pub proof fn counting_counts_one(
    before: Map<Seq<char>, u64>,
    after: Map<Seq<char>, u64>,
    name: Seq<char>,
    other: Seq<char>,
)
    requires
        count_of(before, name) < u64::MAX,
        after == before.insert(name, (count_of(before, name) + 1) as u64),
    ensures
        count_of(after, name) == count_of(before, name) + 1,
        other != name ==> count_of(after, other) == count_of(before, other),
{
}

/// The bounds of the buckets, in seconds: from one second to one hour, and none
/// for the last.
pub proof fn buckets_reach_from_a_second_to_an_hour(span: Duration)
    ensures
        Seq::new(9, |i: int| bound(i)) == seq![
            Some(1u64),
            Some(5u64),
            Some(30u64),
            Some(60u64),
            Some(300u64),
            Some(600u64),
            Some(1800u64),
            Some(3600u64),
            None::<u64>,
        ],
        span.nanos <= 1_000_000_000 ==> falls_into(span, 0),
        3_600_000_000_000 < span.nanos ==> falls_into(span, 8),
        within(span, 7) <==> span.nanos <= 3_600_000_000_000,
{
    assert(Seq::new(9, |i: int| bound(i)) =~= seq![
        Some(1u64),
        Some(5u64),
        Some(30u64),
        Some(60u64),
        Some(300u64),
        Some(600u64),
        Some(1800u64),
        Some(3600u64),
        None::<u64>,
    ]);
}

/// A duration is counted once, under its own name, in the first bucket whose bound it
/// is within; its time is added to that of the others; and no other name is touched.
pub proof fn durations_are_counted_once(
    before: Map<Seq<char>, DurationHistogram>,
    name: Seq<char>,
    span: Duration,
    after: Map<Seq<char>, DurationHistogram>,
    other: Seq<char>,
)
    requires
        duration_counted(before, name, span, after),
    ensures
        after.dom().contains(name),
        before.dom().contains(name) ==> {
            &&& after[name].count == before[name].count + 1
            &&& before[name].sum.nanos + span.nanos <= u128::MAX ==> after[name].sum.nanos
                == before[name].sum.nanos + span.nanos
            &&& exists|i: int|
                {
                    &&& 0 <= i < 9
                    &&& i < 8 ==> span.nanos <= bound(i)->0 * 1_000_000_000
                    &&& i > 0 ==> bound(i - 1)->0 * 1_000_000_000 < span.nanos
                    &&& after[name].buckets@ == #[trigger] before[name].buckets@.update(
                        i,
                        (before[name].buckets@[i] + 1) as u64,
                    )
                }
        },
        !before.dom().contains(name) ==> after[name].count == 1 && after[name].sum.nanos
            == span.nanos,
        other != name ==> (after.dom().contains(other) <==> before.dom().contains(other)),
        other != name && before.dom().contains(other) ==> after[other] == before[other],
{
    if before.dom().contains(name) {
        let i = choose|i: int| #[trigger]
            falls_into(span, i) && after[name].buckets@ == before[name].buckets@.update(
                i,
                (before[name].buckets@[i] + 1) as u64,
            );
        assert(falls_into(span, i));
        if i > 0 {
            assert(!within(span, i - 1));
        }
        assert(after[name].buckets@ == before[name].buckets@.update(
            i,
            (before[name].buckets@[i] + 1) as u64,
        ));
    }
    if other != name {
        assert(after.remove(name).dom().contains(other) <==> after.dom().contains(other));
        assert(before.remove(name).dom().contains(other) <==> before.dom().contains(other));
        if before.dom().contains(other) {
            assert(after.remove(name)[other] == before.remove(name)[other]);
        }
    }
}

/// A snapshot shows the name, the number of runs and their time as they are, and how
/// often something was counted is nothing where it never was.
pub proof fn snapshots_show_what_is_counted(
    snapshot: DurationHistogramSnapshot,
    name: String,
    histogram: DurationHistogram,
    counts: Map<Seq<char>, u64>,
    key: Seq<char>,
)
    requires
        shows(snapshot, name, histogram),
    ensures
        snapshot.name == name,
        snapshot.count == histogram.count,
        snapshot.sum == histogram.sum,
        snapshot.buckets@.len() == 9,
        counts.dom().contains(key) ==> count_of(counts, key) == counts[key],
        !counts.dom().contains(key) ==> count_of(counts, key) == 0,
{
}

} // verus!
