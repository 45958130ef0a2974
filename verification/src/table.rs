//! A map from names to values that remembers the order in which names came.
use crate::config::{find, has_key, keys_distinct, lemma_position, position};
use vstd::prelude::*;

verus! {

/// A map from names to values. Each name stands once.
#[derive(Debug, PartialEq, Eq)]
pub struct Table<V> {
    pub entries: Vec<(String, V)>,
}

/// The map that pairs make.
pub open spec fn pairs_map<V>(pairs: Seq<(String, V)>) -> Map<Seq<char>, V> {
    Map::new(|k: Seq<char>| has_key(pairs, k), |k: Seq<char>| pairs[position(pairs, k)].1)
}

impl<V> View for Table<V> {
    type V = Map<Seq<char>, V>;

    open spec fn view(&self) -> Map<Seq<char>, V> {
        pairs_map(self.entries@)
    }
}

/// Putting a value in place of another, or behind all others, is an insertion.
pub proof fn lemma_pairs_put<V>(
    before: Seq<(String, V)>,
    after: Seq<(String, V)>,
    key: String,
    value: V,
    at: int,
)
    requires
        keys_distinct(before),
        0 <= at <= before.len(),
        at < before.len() ==> before[at].0@ == key@ && after == before.update(at, (key, value)),
        at == before.len() ==> !has_key(before, key@) && after == before.push((key, value)),
    ensures
        keys_distinct(after),
        pairs_map(after) == pairs_map(before).insert(key@, value),
{
    let m = pairs_map(after);
    let n = pairs_map(before).insert(key@, value);
    assert(after[at].0@ == key@);
    assert forall|i: int, j: int| 0 <= i < j < after.len() implies (#[trigger] after[i]).0@ != (
    #[trigger] after[j]).0@ by {
        if at == before.len() && j == at {
            assert(before[i].0@ != key@);
        } else {
            assert(before[i].0@ != before[j].0@);
        }
    }
    assert forall|k: Seq<char>| m.dom().contains(k) == n.dom().contains(k) by {
        lemma_position(before, k);
        lemma_position(after, k);
        if has_key(before, k) {
            let i = position(before, k);
            assert(after[i].0@ == k);
        }
        if has_key(after, k) && k != key@ {
            let i = position(after, k);
            assert(before[i].0@ == k);
        }
    }
    assert forall|k: Seq<char>| m.dom().contains(k) implies m[k] == n[k] by {
        lemma_position(before, k);
        lemma_position(after, k);
        let i = position(after, k);
        if k == key@ {
            assert(i == at);
        } else {
            assert(before[i].0@ == k);
            let j = position(before, k);
            assert(before[j].0@ == k);
            assert(i == j);
        }
    }
    assert(m =~= n);
}

/// Taking a pair out is a removal.
pub proof fn lemma_pairs_take<V>(before: Seq<(String, V)>, after: Seq<(String, V)>, at: int)
    requires
        keys_distinct(before),
        0 <= at < before.len(),
        after == before.remove(at),
    ensures
        keys_distinct(after),
        pairs_map(after) == pairs_map(before).remove(before[at].0@),
{
    let key = before[at].0@;
    let m = pairs_map(after);
    let n = pairs_map(before).remove(key);
    assert forall|i: int, j: int| 0 <= i < j < after.len() implies (#[trigger] after[i]).0@ != (
    #[trigger] after[j]).0@ by {
        let x = if i < at {
            i
        } else {
            i + 1
        };
        let y = if j < at {
            j
        } else {
            j + 1
        };
        assert(after[i] == before[x]);
        assert(after[j] == before[y]);
        assert(before[x].0@ != before[y].0@);
    }
    assert forall|k: Seq<char>| m.dom().contains(k) == n.dom().contains(k) by {
        lemma_position(before, k);
        lemma_position(after, k);
        if has_key(before, k) && k != key {
            let i = position(before, k);
            if i < at {
                assert(after[i].0@ == k);
            } else {
                assert(after[i - 1] == before[i]);
            }
        }
        if has_key(after, k) {
            let i = position(after, k);
            let x = if i < at {
                i
            } else {
                i + 1
            };
            assert(before[x].0@ == k);
            assert(before[at].0@ == key);
        }
    }
    assert forall|k: Seq<char>| m.dom().contains(k) implies m[k] == n[k] by {
        lemma_position(before, k);
        lemma_position(after, k);
        let i = position(after, k);
        let x = if i < at {
            i
        } else {
            i + 1
        };
        assert(after[i] == before[x]);
        let j = position(before, k);
        assert(before[j].0@ == k);
        assert(before[x].0@ == k);
        assert(j == x);
    }
    assert(m =~= n);
}

impl<V> Table<V> {
    /// Whether each name stands once.
    pub open spec fn wf(&self) -> bool {
        keys_distinct(self.entries@)
    }

    /// A map of nothing.
    pub fn new() -> (res: Table<V>)
        ensures
            res.wf(),
            res@ == Map::<Seq<char>, V>::empty(),
            res.entries@.len() == 0,
    {
        let res = Table { entries: Vec::new() };
        assert(res@ =~= Map::<Seq<char>, V>::empty());
        res
    }

    /// How many names there are.
    pub fn len(&self) -> (res: usize)
        ensures
            res == self.entries@.len(),
    {
        self.entries.len()
    }

    /// The value of a name.
    pub fn get(&self, key: &String) -> (res: Option<&V>)
        ensures
            match res {
                Some(v) => self@.dom().contains(key@) && *v == self@[key@],
                None => !self@.dom().contains(key@),
            },
    {
        match find(&self.entries, key) {
            Some(i) => Some(&self.entries[i].1),
            None => None,
        }
    }

    /// Whether a name has a value.
    pub fn contains(&self, key: &String) -> (res: bool)
        ensures
            res == self@.dom().contains(key@),
    {
        find(&self.entries, key).is_some()
    }

    /// Gives a name a value, in place of the one it had.
    pub fn insert(&mut self, key: String, value: V)
        requires
            old(self).wf(),
        ensures
            final(self).wf(),
            final(self)@ == old(self)@.insert(key@, value),
            final(self).entries@ == if has_key(old(self).entries@, key@) {
                old(self).entries@.update(position(old(self).entries@, key@), (key, value))
            } else {
                old(self).entries@.push((key, value))
            },
    {
        match find(&self.entries, &key) {
            Some(i) => {
                self.entries[i] = (key, value);
                proof {
                    lemma_pairs_put(old(self).entries@, self.entries@, key, value, i as int);
                }
            },
            None => {
                self.entries.push((key, value));
                proof {
                    lemma_pairs_put(
                        old(self).entries@,
                        self.entries@,
                        key,
                        value,
                        old(self).entries@.len() as int,
                    );
                }
            },
        }
    }

    /// Takes a name out, and gives the value it had.
    pub fn remove(&mut self, key: &String) -> (res: Option<V>)
        requires
            old(self).wf(),
        ensures
            final(self).wf(),
            final(self)@ == old(self)@.remove(key@),
            res == if old(self)@.dom().contains(key@) {
                Some(old(self)@[key@])
            } else {
                None
            },
            final(self).entries@ == if has_key(old(self).entries@, key@) {
                old(self).entries@.remove(position(old(self).entries@, key@))
            } else {
                old(self).entries@
            },
    {
        match find(&self.entries, key) {
            Some(i) => {
                let (_, value) = self.entries.remove(i);
                proof {
                    lemma_pairs_take(old(self).entries@, self.entries@, i as int);
                }
                Some(value)
            },
            None => {
                assert(self@.remove(key@) =~= self@);
                None
            },
        }
    }
}

/// A table holds a name where an entry bears it, with the value of the first of them.
pub proof fn tables_hold_their_entries<V>(entries: Seq<(String, V)>, key: Seq<char>, i: int)
    ensures
        0 <= i < entries.len() && entries[i].0@ == key && (forall|j: int|
            0 <= j < i ==> (#[trigger] entries[j]).0@ != key) ==> pairs_map(entries).dom().contains(
            key,
        ) && pairs_map(entries)[key] == entries[i].1,
        (forall|j: int| 0 <= j < entries.len() ==> (#[trigger] entries[j]).0@ != key)
            ==> !pairs_map(entries).dom().contains(key),
{
    lemma_position(entries, key);
    if 0 <= i < entries.len() && entries[i].0@ == key && (forall|j: int|
        0 <= j < i ==> (#[trigger] entries[j]).0@ != key) {
        assert(has_key(entries, key));
    }
}

} // verus!
