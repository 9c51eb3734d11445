//! A map from 64-bit keys to values that keeps its entries in ascending order of their keys.

use vstd::prelude::*;

verus! {

/// A map whose entries are walked in ascending order of their keys.
#[derive(Debug, Clone, PartialEq, Eq)]
pub struct SortedMap<V> {
    entries: Vec<(u64, V)>,
}

/// Whether the entries are in strictly ascending order of their keys.
pub open spec fn ascending<V>(entries: Seq<(u64, V)>) -> bool {
    forall|i: int, j: int|
        0 <= i < j < entries.len() ==> (#[trigger] entries[i]).0 < (#[trigger] entries[j]).0
}

/// Whether one of the entries has the key.
pub open spec fn has_key<V>(entries: Seq<(u64, V)>, key: u64) -> bool {
    exists|i: int| 0 <= i < entries.len() && (#[trigger] entries[i]).0 == key
}

/// Where the entry with the key stands.
pub open spec fn key_index<V>(entries: Seq<(u64, V)>, key: u64) -> int {
    choose|i: int| 0 <= i < entries.len() && (#[trigger] entries[i]).0 == key
}

/// The map that the entries make.
pub open spec fn entry_map<V>(entries: Seq<(u64, V)>) -> Map<u64, V> {
    Map::new(|key: u64| has_key(entries, key), |key: u64| entries[key_index(entries, key)].1)
}

/// The entries of a map in ascending order of their keys.
pub open spec fn ordered<V>(map: Map<u64, V>) -> Seq<(u64, V)> {
    choose|entries: Seq<(u64, V)>| ascending(entries) && #[trigger] entry_map(entries) == map
}

/// An entry of ascending entries is what the map holds for its key.
pub proof fn lemma_entry<V>(entries: Seq<(u64, V)>, i: int)
    requires
        ascending(entries),
        0 <= i < entries.len(),
    ensures
        entry_map(entries).contains_key(entries[i].0),
        entry_map(entries)[entries[i].0] == entries[i].1,
        key_index(entries, entries[i].0) == i,
{
    let k = key_index(entries, entries[i].0);
    assert(has_key(entries, entries[i].0));
    if k < i {
        assert(entries[k].0 < entries[i].0);
    } else if i < k {
        assert(entries[i].0 < entries[k].0);
    }
}

/// Ascending entries are determined by the map that they make.
pub proof fn entries_are_determined<V>(first: Seq<(u64, V)>, second: Seq<(u64, V)>)
    requires
        ascending(first),
        ascending(second),
        entry_map(first) == entry_map(second),
    ensures
        first == second,
    decreases first.len(),
{
    if first.len() == 0 {
        if second.len() > 0 {
            lemma_entry(second, 0);
            assert(has_key(first, second[0].0));
        }
        assert(first =~= second);
    } else {
        let n = first.len() - 1;
        lemma_entry(first, n);
        assert(has_key(second, first[n].0));
        let m = second.len() - 1;
        lemma_entry(second, m);
        assert(has_key(first, second[m].0));
        let a = key_index(second, first[n].0);
        let b = key_index(first, second[m].0);
        if a < m {
            assert(second[a].0 < second[m].0);
        }
        if b < n {
            assert(first[b].0 < first[n].0);
        }
        assert(first[n] == second[m]);
        let first_rest = first.drop_last();
        let second_rest = second.drop_last();
        assert forall|key: u64|
            #![trigger entry_map(first_rest).dom().contains(key)]
            #![trigger entry_map(second_rest).dom().contains(key)]
            entry_map(first_rest).dom().contains(key) == entry_map(second_rest).dom().contains(
                key,
            ) by {
            if entry_map(first_rest).contains_key(key) {
                lemma_rest(first, second, key);
            }
            if entry_map(second_rest).contains_key(key) {
                lemma_rest(second, first, key);
            }
        }
        assert forall|key: u64| entry_map(first_rest).dom().contains(key) implies #[trigger] entry_map(
            first_rest,
        )[key] == entry_map(second_rest)[key] by {
            lemma_rest(first, second, key);
        }
        assert(entry_map(first_rest) =~= entry_map(second_rest));
        entries_are_determined(first_rest, second_rest);
        assert(first =~= first_rest.push(first[n]));
        assert(second =~= second_rest.push(second[m]));
    }
}

proof fn lemma_rest<V>(first: Seq<(u64, V)>, second: Seq<(u64, V)>, key: u64)
    requires
        ascending(first),
        ascending(second),
        first.len() > 0,
        second.len() > 0,
        first.last() == second.last(),
        entry_map(first) == entry_map(second),
        entry_map(first.drop_last()).contains_key(key),
    ensures
        entry_map(second.drop_last()).contains_key(key),
        entry_map(second.drop_last())[key] == entry_map(first.drop_last())[key],
{
    let rest = first.drop_last();
    let i = key_index(rest, key);
    assert(has_key(rest, key));
    lemma_entry(rest, i);
    assert(first[i] == rest[i]);
    lemma_entry(first, i);
    assert(has_key(second, key));
    let j = key_index(second, key);
    lemma_entry(second, j);
    assert(first[i].0 < first[first.len() - 1].0);
    assert(j < second.len() - 1);
    assert(second.drop_last()[j] == second[j]);
    lemma_entry(second.drop_last(), j);
}

impl<V> View for SortedMap<V> {
    type V = Map<u64, V>;

    closed spec fn view(&self) -> Map<u64, V> {
        entry_map(self.entries@)
    }
}

impl<V> SortedMap<V> {
    /// The entries in ascending order of their keys.
    pub closed spec fn entries(&self) -> Seq<(u64, V)> {
        self.entries@
    }

    /// Whether the entries are in order.
    pub open spec fn wf(&self) -> bool {
        ascending(self.entries())
    }

    /// The map is the one that its entries make.
    pub proof fn lemma_view(&self)
        ensures
            self@ == entry_map(self.entries()),
    {
    }

    /// The entries are those of the map in ascending order of their keys.
    pub proof fn lemma_ordered(&self)
        requires
            self.wf(),
        ensures
            self.entries() == ordered(self@),
    {
        assert(entry_map(self.entries()) == self@);
        entries_are_determined(self.entries(), ordered(self@));
    }

    /// A map without entries.
    pub fn new() -> (r: SortedMap<V>)
        ensures
            r.wf(),
            r.entries() == Seq::<(u64, V)>::empty(),
            r@ == Map::<u64, V>::empty(),
    {
        let r = SortedMap { entries: Vec::new() };
        proof {
            assert(r@ =~= Map::<u64, V>::empty());
        }
        r
    }

    /// How many entries there are.
    pub fn len(&self) -> (r: usize)
        ensures
            r == self.entries().len(),
    {
        self.entries.len()
    }

    /// Whether there is no entry.
    pub fn is_empty(&self) -> (r: bool)
        ensures
            r == (self.entries().len() == 0),
            r <==> forall|key: u64| !(#[trigger] self@.contains_key(key)),
    {
        proof {
            if self.entries@.len() > 0 {
                assert(has_key(self.entries@, self.entries@[0].0));
                assert(self@.contains_key(self.entries@[0].0));
            }
        }
        self.entries.len() == 0
    }

    /// The key of an entry, counted in ascending order.
    pub fn key_at(&self, index: usize) -> (r: u64)
        requires
            index < self.entries().len(),
        ensures
            r == self.entries()[index as int].0,
    {
        self.entries[index].0
    }

    /// The value of an entry, counted in ascending order.
    pub fn value_at(&self, index: usize) -> (r: &V)
        requires
            index < self.entries().len(),
        ensures
            *r == self.entries()[index as int].1,
    {
        &self.entries[index].1
    }

    /// Where the key stands or would stand.
    fn slot(&self, key: u64) -> (r: usize)
        requires
            self.wf(),
        ensures
            r <= self.entries().len(),
            forall|i: int| 0 <= i < r ==> (#[trigger] self.entries()[i]).0 < key,
            forall|i: int| r <= i < self.entries().len() ==> (#[trigger] self.entries()[i]).0 >= key,
            self@.contains_key(key) <==> r < self.entries().len() && self.entries()[r as int].0
                == key,
            self@.contains_key(key) ==> self@[key] == self.entries()[r as int].1,
    {
        let mut index: usize = 0;
        while index < self.entries.len() && self.entries[index].0 < key
            invariant
                index <= self.entries.len(),
                forall|i: int| 0 <= i < index ==> (#[trigger] self.entries@[i]).0 < key,
            decreases self.entries.len() - index,
        {
            index = index + 1;
        }
        proof {
            if index < self.entries.len() && self.entries@[index as int].0 == key {
                lemma_entry(self.entries@, index as int);
            }
            assert forall|i: int| index <= i < self.entries().len() implies (
            #[trigger] self.entries()[i]).0 >= key by {
                if i > index {
                    assert(self.entries()[index as int].0 < self.entries()[i].0);
                }
            }
        }
        index
    }

    /// Whether the map has the key.
    pub fn contains_key(&self, key: u64) -> (r: bool)
        requires
            self.wf(),
        ensures
            r == self@.contains_key(key),
    {
        let slot: usize = self.slot(key);
        slot < self.entries.len() && self.entries[slot].0 == key
    }

    /// The value for the key.
    pub fn get(&self, key: u64) -> (r: Option<&V>)
        requires
            self.wf(),
        ensures
            match r {
                Some(value) => self@.contains_key(key) && *value == self@[key],
                None => !self@.contains_key(key),
            },
    {
        let slot: usize = self.slot(key);
        if slot < self.entries.len() && self.entries[slot].0 == key {
            Some(&self.entries[slot].1)
        } else {
            None
        }
    }

    /// Sets the value for the key.
    pub fn insert(&mut self, key: u64, value: V)
        requires
            old(self).wf(),
        ensures
            final(self).wf(),
            final(self)@ == old(self)@.insert(key, value),
    {
        let slot: usize = self.slot(key);
        let ghost before = self.entries@;
        if slot < self.entries.len() && self.entries[slot].0 == key {
            self.entries.set(slot, (key, value));
            proof {
                assert(self.entries@ =~= before.update(slot as int, (key, value)));
                lemma_updated(before, slot as int, value);
            }
        } else {
            self.entries.insert(slot, (key, value));
            proof {
                assert(self.entries@ =~= before.insert(slot as int, (key, value)));
                lemma_inserted(before, slot as int, key, value);
            }
        }
    }

    /// Takes the entry with the key out.
    pub fn remove(&mut self, key: u64) -> (r: Option<V>)
        requires
            old(self).wf(),
        ensures
            final(self).wf(),
            final(self)@ == old(self)@.remove(key),
            match r {
                Some(value) => old(self)@.contains_key(key) && value == old(self)@[key],
                None => !old(self)@.contains_key(key),
            },
    {
        let slot: usize = self.slot(key);
        let ghost before = self.entries@;
        if slot < self.entries.len() && self.entries[slot].0 == key {
            let taken: (u64, V) = self.entries.remove(slot);
            proof {
                assert(self.entries@ =~= before.remove(slot as int));
                lemma_removed(before, slot as int);
            }
            Some(taken.1)
        } else {
            proof {
                assert(self@ =~= old(self)@.remove(key));
            }
            None
        }
    }

    /// The value for the key, to be changed in place.
    pub fn get_mut(&mut self, key: u64) -> (r: Option<&mut V>)
        requires
            old(self).wf(),
        ensures
            final(self).wf(),
            match r {
                Some(value) => {
                    &&& old(self)@.contains_key(key)
                    &&& *value == old(self)@[key]
                    &&& final(self)@ == old(self)@.insert(key, *final(value))
                },
                None => !old(self)@.contains_key(key) && *final(self) == *old(self),
            },
    {
        let slot: usize = self.slot(key);
        let ghost before = self.entries@;
        if slot < self.entries.len() && self.entries[slot].0 == key {
            proof {
                assert forall|value: V| #![trigger before.update(slot as int, (key, value))] {
                    &&& ascending(before.update(slot as int, (key, value)))
                    &&& entry_map(before.update(slot as int, (key, value))) == entry_map(
                        before,
                    ).insert(key, value)
                } by {
                    lemma_updated(before, slot as int, value);
                }
            }
            let entry: &mut (u64, V) = &mut self.entries[slot];
            Some(&mut entry.1)
        } else {
            None
        }
    }

    /// Takes all entries out.
    pub fn clear(&mut self)
        ensures
            final(self).wf(),
            final(self).entries() == Seq::<(u64, V)>::empty(),
            final(self)@ == Map::<u64, V>::empty(),
    {
        self.entries.clear();
        proof {
            assert(self@ =~= Map::<u64, V>::empty());
        }
    }
}

proof fn lemma_updated<V>(entries: Seq<(u64, V)>, at: int, value: V)
    requires
        ascending(entries),
        0 <= at < entries.len(),
    ensures
        ascending(entries.update(at, (entries[at].0, value))),
        entry_map(entries.update(at, (entries[at].0, value))) == entry_map(entries).insert(
            entries[at].0,
            value,
        ),
{
    let key = entries[at].0;
    let after = entries.update(at, (key, value));
    assert forall|i: int, j: int| 0 <= i < j < after.len() implies (#[trigger] after[i]).0 < (
    #[trigger] after[j]).0 by {
        assert(entries[i].0 < entries[j].0);
    }
    lemma_entry(after, at);
    assert forall|k: u64| #[trigger]
        has_key(after, k) <==> has_key(entries, k) || k == key by {
        if has_key(entries, k) {
            let i = key_index(entries, k);
            assert(after[i].0 == k);
        }
        if has_key(after, k) {
            let i = key_index(after, k);
            assert(entries[i].0 == k);
        }
    }
    assert forall|k: u64| entry_map(after).contains_key(k) implies #[trigger] entry_map(after)[k]
        == entry_map(entries).insert(key, value)[k] by {
        let i = key_index(after, k);
        assert(has_key(after, k));
        lemma_entry(after, i);
        lemma_entry(entries, i);
    }
    assert(entry_map(after) =~= entry_map(entries).insert(key, value));
}

proof fn lemma_inserted<V>(entries: Seq<(u64, V)>, at: int, key: u64, value: V)
    requires
        ascending(entries),
        0 <= at <= entries.len(),
        forall|i: int| 0 <= i < at ==> (#[trigger] entries[i]).0 < key,
        forall|i: int| at <= i < entries.len() ==> (#[trigger] entries[i]).0 > key,
    ensures
        ascending(entries.insert(at, (key, value))),
        entry_map(entries.insert(at, (key, value))) == entry_map(entries).insert(key, value),
{
    let after = entries.insert(at, (key, value));
    assert forall|i: int, j: int| 0 <= i < j < after.len() implies (#[trigger] after[i]).0 < (
    #[trigger] after[j]).0 by {
        let a = if i < at {
            i
        } else {
            i - 1
        };
        let b = if j < at {
            j
        } else {
            j - 1
        };
        if i != at {
            assert(after[i] == entries[a]);
        }
        if j != at {
            assert(after[j] == entries[b]);
        }
        if i != at && j != at {
            assert(entries[a].0 < entries[b].0);
        }
    }
    lemma_entry(after, at);
    assert forall|k: u64| #[trigger]
        has_key(after, k) <==> has_key(entries, k) || k == key by {
        if has_key(entries, k) {
            let i = key_index(entries, k);
            if i < at {
                assert(after[i] == entries[i]);
            } else {
                assert(after[i + 1] == entries[i]);
            }
        }
        if has_key(after, k) && k != key {
            let i = key_index(after, k);
            if i < at {
                assert(after[i] == entries[i]);
            } else {
                assert(after[i] == entries[i - 1]);
            }
        }
        if k == key {
            assert(after[at].0 == key);
        }
    }
    assert forall|k: u64| entry_map(after).contains_key(k) implies #[trigger] entry_map(after)[k]
        == entry_map(entries).insert(key, value)[k] by {
        let i = key_index(after, k);
        assert(has_key(after, k));
        lemma_entry(after, i);
        if i < at {
            assert(after[i] == entries[i]);
            lemma_entry(entries, i);
        } else if i > at {
            assert(after[i] == entries[i - 1]);
            lemma_entry(entries, i - 1);
        }
    }
    assert(entry_map(after) =~= entry_map(entries).insert(key, value));
}

proof fn lemma_removed<V>(entries: Seq<(u64, V)>, at: int)
    requires
        ascending(entries),
        0 <= at < entries.len(),
    ensures
        ascending(entries.remove(at)),
        entry_map(entries.remove(at)) == entry_map(entries).remove(entries[at].0),
{
    let key = entries[at].0;
    let after = entries.remove(at);
    assert forall|i: int, j: int| 0 <= i < j < after.len() implies (#[trigger] after[i]).0 < (
    #[trigger] after[j]).0 by {
        let a = if i < at {
            i
        } else {
            i + 1
        };
        let b = if j < at {
            j
        } else {
            j + 1
        };
        assert(after[i] == entries[a] && after[j] == entries[b]);
        assert(entries[a].0 < entries[b].0);
    }
    assert forall|k: u64| #[trigger]
        has_key(after, k) <==> has_key(entries, k) && k != key by {
        if has_key(entries, k) && k != key {
            let i = key_index(entries, k);
            if i < at {
                assert(after[i] == entries[i]);
            } else {
                assert(after[i - 1] == entries[i]);
            }
        }
        if has_key(after, k) {
            let i = key_index(after, k);
            let a = if i < at {
                i
            } else {
                i + 1
            };
            assert(after[i] == entries[a]);
            if a < at {
                assert(entries[a].0 < entries[at].0);
            } else {
                assert(entries[at].0 < entries[a].0);
            }
        }
    }
    assert forall|k: u64| entry_map(after).contains_key(k) implies #[trigger] entry_map(after)[k]
        == entry_map(entries).remove(key)[k] by {
        let i = key_index(after, k);
        assert(has_key(after, k));
        lemma_entry(after, i);
        let a = if i < at {
            i
        } else {
            i + 1
        };
        assert(after[i] == entries[a]);
        lemma_entry(entries, a);
    }
    assert(entry_map(after) =~= entry_map(entries).remove(key));
}

impl<V: Copy> SortedMap<V> {
    /// The same map once more.
    pub fn copy(&self) -> (r: SortedMap<V>)
        requires
            self.wf(),
        ensures
            r.wf(),
            r.entries() == self.entries(),
            r@ == self@,
    {
        let mut entries: Vec<(u64, V)> = Vec::new();
        let mut index: usize = 0;
        while index < self.entries.len()
            invariant
                index <= self.entries.len(),
                entries@ == self.entries@.take(index as int),
            decreases self.entries.len() - index,
        {
            entries.push(self.entries[index]);
            proof {
                assert(entries@ =~= self.entries@.take(index + 1));
            }
            index = index + 1;
        }
        proof {
            assert(entries@ =~= self.entries@);
        }
        SortedMap { entries }
    }

    /// The entries whose keys are in another map.
    pub fn restricted<W>(&self, keys: &SortedMap<W>) -> (r: SortedMap<V>)
        requires
            self.wf(),
            keys.wf(),
        ensures
            r.wf(),
            r@ == self@.restrict(keys@.dom()),
    {
        let mut kept: SortedMap<V> = SortedMap::new();
        let mut index: usize = 0;
        while index < self.entries.len()
            invariant
                index <= self.entries.len(),
                self.wf(),
                keys.wf(),
                kept.wf(),
                forall|key: u64| #[trigger]
                    kept@.contains_key(key) <==> has_key(self.entries@.take(index as int), key)
                        && keys@.contains_key(key),
                forall|key: u64| #[trigger] kept@.contains_key(key) ==> kept@[key] == self@[key],
            decreases self.entries.len() - index,
        {
            let key: u64 = self.entries[index].0;
            proof {
                lemma_entry(self.entries@, index as int);
                lemma_key_in_prefix(self.entries@, index as int);
            }
            if keys.contains_key(key) {
                kept.insert(key, self.entries[index].1);
            }
            index = index + 1;
        }
        proof {
            assert(self.entries@.take(index as int) =~= self.entries@);
            assert(kept@ =~= self@.restrict(keys@.dom()));
        }
        kept
    }
}

/// The keys of a longer prefix are those of a shorter one and that of the entry between.
proof fn lemma_key_in_prefix<V>(entries: Seq<(u64, V)>, i: int)
    requires
        0 <= i < entries.len(),
    ensures
        forall|key: u64| #[trigger]
            has_key(entries.take(i + 1), key) <==> has_key(entries.take(i), key) || key
                == entries[i].0,
{
    let longer = entries.take(i + 1);
    let shorter = entries.take(i);
    assert forall|key: u64| #[trigger] has_key(longer, key) <==> has_key(shorter, key) || key
        == entries[i].0 by {
        if has_key(longer, key) {
            let k = choose|k: int| 0 <= k < longer.len() && (#[trigger] longer[k]).0 == key;
            if k < i {
                assert(shorter[k].0 == key);
            }
        }
        if has_key(shorter, key) {
            let k = choose|k: int| 0 <= k < shorter.len() && (#[trigger] shorter[k]).0 == key;
            assert(longer[k].0 == key);
        }
        assert(longer[i] == entries[i]);
    }
}

} // verus!
