//! Who hears the log lines of which allocation.
use crate::config::AllocId;
use crate::seqs::{lemma_select_take, lemma_selected, select};
use crate::table::Table;
use vstd::prelude::*;

verus! {

/// Subscribers for log lines, keyed by allocation ID. Channels go by numbers.
#[derive(Debug, PartialEq, Eq)]
pub struct LogSubscribers {
    pub channels: Table<Vec<u64>>,
}

/// The channels of an allocation.
pub open spec fn hearing(m: Map<Seq<char>, Seq<u64>>, id: Seq<char>) -> Seq<u64> {
    if m.dom().contains(id) {
        m[id]
    } else {
        Seq::empty()
    }
}

/// Channels that are not among the closed ones.
pub open spec fn still_open(closed: Seq<u64>) -> spec_fn(u64) -> bool {
    |channel: u64| !closed.contains(channel)
}

/// The channels after one more hears the given allocations.
pub open spec fn subscribed(
    m: Map<Seq<char>, Seq<u64>>,
    ids: Seq<AllocId>,
    channel: u64,
) -> Map<Seq<char>, Seq<u64>>
    decreases ids.len(),
{
    if ids.len() == 0 {
        m
    } else {
        let before = subscribed(m, ids.drop_last(), channel);
        before.insert(ids.last()@, hearing(before, ids.last()@).push(channel))
    }
}

/// The channels after those that are closed no longer hear the given
/// allocations. Allocations that nobody hears are forgotten.
pub open spec fn unsubscribed(
    m: Map<Seq<char>, Seq<u64>>,
    ids: Seq<AllocId>,
    closed: Seq<u64>,
) -> Map<Seq<char>, Seq<u64>>
    decreases ids.len(),
{
    if ids.len() == 0 {
        m
    } else {
        let before = unsubscribed(m, ids.drop_last(), closed);
        let id = ids.last()@;
        let kept = select(hearing(before, id), still_open(closed));
        if kept.len() == 0 {
            before.remove(id)
        } else {
            before.insert(id, kept)
        }
    }
}

fn holds(numbers: &Vec<u64>, number: u64) -> (res: bool)
    ensures
        res == numbers@.contains(number),
{
    let mut i: usize = 0;
    while i < numbers.len()
        invariant
            i <= numbers@.len(),
            forall|j: int| 0 <= j < i ==> numbers@[j] != number,
        decreases numbers@.len() - i,
    {
        if numbers[i] == number {
            return true;
        }
        i = i + 1;
    }
    false
}

fn keep_open(channels: &Vec<u64>, closed: &Vec<u64>) -> (res: Vec<u64>)
    ensures
        res@ == select(channels@, still_open(closed@)),
{
    let mut out: Vec<u64> = Vec::new();
    let ghost all = channels@;
    let ghost p = still_open(closed@);
    let mut i: usize = 0;
    while i < channels.len()
        invariant
            i <= all.len(),
            all == channels@,
            p == still_open(closed@),
            out@ == select(all.take(i as int), p),
        decreases all.len() - i,
    {
        proof {
            lemma_select_take(all, p, i as int);
        }
        if !holds(closed, channels[i]) {
            out.push(channels[i]);
        }
        i = i + 1;
    }
    assert(all.take(i as int) =~= all);
    out
}

/// Create a new empty log subscribers map.
pub fn new_log_subscribers() -> (res: LogSubscribers)
    ensures
        res.wf(),
        res@ == Map::<Seq<char>, Seq<u64>>::empty(),
{
    let res = LogSubscribers { channels: Table::new() };
    assert(res@ =~= Map::<Seq<char>, Seq<u64>>::empty());
    res
}

impl View for LogSubscribers {
    type V = Map<Seq<char>, Seq<u64>>;

    open spec fn view(&self) -> Map<Seq<char>, Seq<u64>> {
        self.channels@.map_values(|v: Vec<u64>| v@)
    }
}

impl LogSubscribers {
    /// Whether every allocation is told of once.
    pub open spec fn wf(&self) -> bool {
        self.channels.wf()
    }

    fn set(&mut self, id: &AllocId, channels: Vec<u64>)
        requires
            old(self).wf(),
        ensures
            final(self).wf(),
            final(self)@ == old(self)@.insert(id@, channels@),
    {
        self.channels.insert(id.0.clone(), channels);
        assert(self@ =~= old(self)@.insert(id@, channels@));
    }

    fn take(&mut self, id: &AllocId) -> (res: Vec<u64>)
        requires
            old(self).wf(),
        ensures
            final(self).wf(),
            final(self)@ == old(self)@.remove(id@),
            res@ == hearing(old(self)@, id@),
    {
        let taken = self.channels.remove(&id.0);
        assert(self@ =~= old(self)@.remove(id@));
        match taken {
            Some(channels) => channels,
            None => {
                let none: Vec<u64> = Vec::new();
                assert(none@ =~= hearing(old(self)@, id@));
                none
            },
        }
    }

    /// Has a channel hear the given allocations.
    pub fn subscribe(&mut self, ids: &Vec<AllocId>, channel: u64)
        requires
            old(self).wf(),
        ensures
            final(self).wf(),
            final(self)@ == subscribed(old(self)@, ids@, channel),
    {
        let mut i: usize = 0;
        assert(ids@.take(0) =~= Seq::empty());
        while i < ids.len()
            invariant
                self.wf(),
                i <= ids@.len(),
                self@ == subscribed(old(self)@, ids@.take(i as int), channel),
            decreases ids@.len() - i,
        {
            let ghost before = self@;
            let mut channels = self.take(&ids[i]);
            channels.push(channel);
            self.set(&ids[i], channels);
            assert(self@ =~= before.insert(
                ids@[i as int]@,
                hearing(before, ids@[i as int]@).push(channel),
            ));
            i = i + 1;
            assert(ids@.take(i as int).drop_last() =~= ids@.take(i - 1));
        }
        assert(ids@.take(i as int) =~= ids@);
    }

    /// Where the lines of an allocation go. Channels that are closed are
    /// forgotten first.
    pub fn forward(&mut self, id: &AllocId, closed: &Vec<u64>) -> (res: Vec<u64>)
        requires
            old(self).wf(),
        ensures
            final(self).wf(),
            res@ == select(hearing(old(self)@, id@), still_open(closed@)),
            final(self)@ == if old(self)@.dom().contains(id@) {
                old(self)@.insert(id@, res@)
            } else {
                old(self)@
            },
    {
        if self.channels.contains(&id.0) {
            let channels = self.take(id);
            let kept = keep_open(&channels, closed);
            let res = keep_open(&channels, closed);
            self.set(id, kept);
            assert(self@ =~= old(self)@.insert(id@, res@));
            res
        } else {
            let none: Vec<u64> = Vec::new();
            assert(none@ =~= select(hearing(old(self)@, id@), still_open(closed@)));
            none
        }
    }

    /// Forgets closed channels of the given allocations, and allocations that
    /// nobody hears any more.
    pub fn unsubscribe(&mut self, ids: &Vec<AllocId>, closed: &Vec<u64>)
        requires
            old(self).wf(),
        ensures
            final(self).wf(),
            final(self)@ == unsubscribed(old(self)@, ids@, closed@),
    {
        let mut i: usize = 0;
        assert(ids@.take(0) =~= Seq::empty());
        while i < ids.len()
            invariant
                self.wf(),
                i <= ids@.len(),
                self@ == unsubscribed(old(self)@, ids@.take(i as int), closed@),
            decreases ids@.len() - i,
        {
            let ghost before = self@;
            let ghost id = ids@[i as int]@;
            let channels = self.take(&ids[i]);
            let kept = keep_open(&channels, closed);
            let ghost left = kept@;
            if kept.len() > 0 {
                self.set(&ids[i], kept);
                assert(self@ =~= before.insert(id, left));
            }
            i = i + 1;
            assert(ids@.take(i as int).drop_last() =~= ids@.take(i - 1));
        }
        assert(ids@.take(i as int) =~= ids@);
    }
}

/// A channel that subscribes hears each of the allocations it asked for, and
/// what others hear stays.
pub proof fn subscribers_hear_what_they_asked_for(
    m: Map<Seq<char>, Seq<u64>>,
    ids: Seq<AllocId>,
    channel: u64,
    id: Seq<char>,
    other: u64,
)
    requires
        other != channel,
    ensures
        (exists|i: int| 0 <= i < ids.len() && (#[trigger] ids[i])@ == id) ==> hearing(
            subscribed(m, ids, channel),
            id,
        ).contains(channel),
        hearing(subscribed(m, ids, channel), id).contains(other) == hearing(m, id).contains(other),
    decreases ids.len(),
{
    if ids.len() > 0 {
        let rest = ids.drop_last();
        subscribers_hear_what_they_asked_for(m, rest, channel, id, other);
        let before = subscribed(m, rest, channel);
        let old_list = hearing(before, id);
        if ids.last()@ == id {
            let list = old_list.push(channel);
            assert(hearing(subscribed(m, ids, channel), id) == list);
            assert(list[old_list.len() as int] == channel);
            if old_list.contains(other) {
                let k = old_list.index_of(other);
                assert(list[k] == other);
            }
            if list.contains(other) {
                let k = list.index_of(other);
                assert(old_list[k] == other);
            }
        } else {
            assert(hearing(subscribed(m, ids, channel), id) == old_list);
            if exists|i: int| 0 <= i < ids.len() && (#[trigger] ids[i])@ == id {
                let i = choose|i: int| 0 <= i < ids.len() && (#[trigger] ids[i])@ == id;
                assert(rest[i]@ == id);
            }
        }
    }
}

/// Ending subscriptions takes nothing from a channel that is open: it hears
/// afterwards what it heard before.
pub proof fn open_subscribers_keep_hearing(
    m: Map<Seq<char>, Seq<u64>>,
    ids: Seq<AllocId>,
    closed: Seq<u64>,
    id: Seq<char>,
    channel: u64,
)
    requires
        !closed.contains(channel),
    ensures
        hearing(unsubscribed(m, ids, closed), id).contains(channel) == hearing(m, id).contains(
            channel,
        ),
    decreases ids.len(),
{
    if ids.len() > 0 {
        open_subscribers_keep_hearing(m, ids.drop_last(), closed, id, channel);
        let before = unsubscribed(m, ids.drop_last(), closed);
        if ids.last()@ == id {
            let list = hearing(before, id);
            let p = still_open(closed);
            lemma_selected(list, p);
            let kept = select(list, p);
            if list.contains(channel) {
                let k = list.index_of(channel);
                assert(p(list[k]));
            }
            if kept.contains(channel) {
                let k = kept.index_of(channel);
                assert(list.contains(kept[k]));
            }
            assert(hearing(unsubscribed(m, ids, closed), id) =~= kept);
        }
    }
}

/// Who subscribes hears the allocations that were named and no others: of any
/// other allocation the same channels hear as before.
pub proof fn subscribers_hear_nothing_else(
    m: Map<Seq<char>, Seq<u64>>,
    ids: Seq<AllocId>,
    channel: u64,
    id: Seq<char>,
)
    requires
        forall|i: int| 0 <= i < ids.len() ==> (#[trigger] ids[i])@ != id,
    ensures
        hearing(subscribed(m, ids, channel), id) == hearing(m, id),
    decreases ids.len(),
{
    if ids.len() > 0 {
        let rest = ids.drop_last();
        assert forall|i: int| 0 <= i < rest.len() implies (#[trigger] rest[i])@ != id by {
            assert(rest[i] == ids[i]);
        }
        assert(ids[ids.len() - 1]@ != id);
        subscribers_hear_nothing_else(m, rest, channel, id);
    }
}

/// Closed channels hear none of the allocations that were named any more, and of
/// any other allocation the same channels hear as before.
pub proof fn closed_subscribers_hear_no_more(
    m: Map<Seq<char>, Seq<u64>>,
    ids: Seq<AllocId>,
    closed: Seq<u64>,
    id: Seq<char>,
    channel: u64,
)
    requires
        closed.contains(channel),
    ensures
        (exists|i: int| 0 <= i < ids.len() && (#[trigger] ids[i])@ == id) ==> !hearing(
            unsubscribed(m, ids, closed),
            id,
        ).contains(channel),
        (forall|i: int| 0 <= i < ids.len() ==> (#[trigger] ids[i])@ != id) ==> hearing(
            unsubscribed(m, ids, closed),
            id,
        ) == hearing(m, id),
        !hearing(m, id).contains(channel) ==> !hearing(unsubscribed(m, ids, closed), id).contains(
            channel,
        ),
    decreases ids.len(),
{
    if ids.len() > 0 {
        let rest = ids.drop_last();
        closed_subscribers_hear_no_more(m, rest, closed, id, channel);
        let before = unsubscribed(m, rest, closed);
        let p = still_open(closed);
        let list = hearing(before, ids.last()@);
        lemma_selected(list, p);
        let kept = select(list, p);
        if kept.contains(channel) {
            assert(p(kept[kept.index_of(channel)]));
        }
        if forall|i: int| 0 <= i < ids.len() ==> (#[trigger] ids[i])@ != id {
            assert forall|i: int| 0 <= i < rest.len() implies (#[trigger] rest[i])@ != id by {
                assert(rest[i] == ids[i]);
            }
            assert(ids[ids.len() - 1]@ != id);
        }
        if exists|i: int| 0 <= i < ids.len() && (#[trigger] ids[i])@ == id {
            let i = choose|i: int| 0 <= i < ids.len() && (#[trigger] ids[i])@ == id;
            if i < rest.len() {
                assert(rest[i]@ == id);
            }
        }
    }
}

/// Lines go to exactly the channels that hear the allocation and are open.
pub proof fn lines_go_to_open_subscribers(
    m: Map<Seq<char>, Seq<u64>>,
    id: Seq<char>,
    closed: Seq<u64>,
    channel: u64,
)
    ensures
        select(hearing(m, id), still_open(closed)).contains(channel) <==> m.dom().contains(id)
            && m[id].contains(channel) && !closed.contains(channel),
{
    let list = hearing(m, id);
    let p = still_open(closed);
    lemma_selected(list, p);
    let kept = select(list, p);
    if kept.contains(channel) {
        let k = kept.index_of(channel);
        assert(p(kept[k]));
    }
    if list.contains(channel) && !closed.contains(channel) {
        let k = list.index_of(channel);
        assert(p(list[k]));
    }
}

} // verus!
