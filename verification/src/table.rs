//! A small association table that keeps its entries in insertion order.

use vstd::prelude::*;

verus! {

/// A key that can be compared with another of its kind.
pub trait TableKey: View + Sized {
    /// Whether two keys are the same.
    fn same(&self, other: &Self) -> (same: bool)
        ensures
            same == (self@ == other@),
    ;
}

/// No two entries have the same key.
pub open spec fn distinct_keys<K: View, V>(entries: Seq<(K, V)>) -> bool {
    forall|i: int, j: int|
        0 <= i < j < entries.len() ==> (#[trigger] entries[i]).0@ != (#[trigger] entries[j]).0@
}

/// Some entry has the key.
pub open spec fn has_key<K: View, V>(entries: Seq<(K, V)>, key: K::V) -> bool {
    exists|i: int| 0 <= i < entries.len() && (#[trigger] entries[i]).0@ == key
}

/// The position of the entry with a key.
pub open spec fn position_of<K: View, V>(entries: Seq<(K, V)>, key: K::V) -> int {
    choose|i: int| 0 <= i < entries.len() && (#[trigger] entries[i]).0@ == key
}

/// The map that a sequence of entries represents.
pub open spec fn entry_map<K: View, V>(entries: Seq<(K, V)>) -> Map<K::V, V> {
    Map::new(
        |key: K::V| has_key(entries, key),
        |key: K::V| entries[position_of(entries, key)].1,
    )
}

/// An association table: at most one value for each key, in insertion order.
#[derive(Debug)]
pub struct Table<K, V> {
    items: Vec<(K, V)>,
}

impl<K: TableKey, V> View for Table<K, V> {
    type V = Map<K::V, V>;

    open spec fn view(&self) -> Map<K::V, V> {
        entry_map(self.entries())
    }
}

/// Each entry's key maps to its value.
pub proof fn lemma_entry_map<K: View, V>(entries: Seq<(K, V)>)
    requires
        distinct_keys(entries),
    ensures
        forall|i: int|
            0 <= i < entries.len() ==> entry_map(entries).contains_key(
                (#[trigger] entries[i]).0@,
            ) && entry_map(entries)[entries[i].0@] == entries[i].1,
        forall|key: K::V| #[trigger]
            entry_map(entries).contains_key(key) ==> 0 <= position_of(entries, key) < entries.len()
                && entries[position_of(entries, key)].0@ == key,
{
    assert forall|i: int| 0 <= i < entries.len() implies entry_map(entries).contains_key(
        (#[trigger] entries[i]).0@,
    ) && entry_map(entries)[entries[i].0@] == entries[i].1 by {
        let key = entries[i].0@;
        let p = position_of(entries, key);
        assert(entries[p].0@ == key);
        if p < i {
            assert(entries[p].0@ != entries[i].0@);
        }
        if i < p {
            assert(entries[i].0@ != entries[p].0@);
        }
    }
}

/// Appending an entry under a new key inserts it in the map.
proof fn lemma_push<K: View, V>(entries: Seq<(K, V)>, entry: (K, V))
    requires
        distinct_keys(entries),
        !has_key(entries, entry.0@),
    ensures
        distinct_keys(entries.push(entry)),
        entry_map(entries.push(entry)) == entry_map(entries).insert(entry.0@, entry.1),
{
    let longer = entries.push(entry);
    assert forall|i: int, j: int| 0 <= i < j < longer.len() implies (#[trigger] longer[i]).0@ != (
    #[trigger] longer[j]).0@ by {
        if j == entries.len() {
            assert(entries[i].0@ != entry.0@);
        } else {
            assert(longer[i] == entries[i] && longer[j] == entries[j]);
        }
    }
    lemma_entry_map(entries);
    lemma_entry_map(longer);
    let a = entry_map(longer);
    let b = entry_map(entries).insert(entry.0@, entry.1);
    assert forall|key: K::V| a.contains_key(key) <==> b.contains_key(key) by {
        if a.contains_key(key) {
            let p = position_of(longer, key);
            if p < entries.len() {
                assert(longer[p] == entries[p]);
                assert(has_key(entries, key));
            }
        }
        if b.contains_key(key) {
            if key == entry.0@ {
                assert(longer[entries.len() as int].0@ == key);
            } else {
                let p = position_of(entries, key);
                assert(longer[p] == entries[p]);
            }
        }
    }
    assert forall|key: K::V| a.contains_key(key) implies a[key] == b[key] by {
        let p = position_of(longer, key);
        if p < entries.len() {
            assert(longer[p] == entries[p]);
            assert(entry_map(entries)[entries[p].0@] == entries[p].1);
            assert(entries[p].0@ != entry.0@);
        }
    }
    assert(a =~= b);
}

/// Replacing the value of an entry inserts it in the map.
proof fn lemma_update<K: View, V>(entries: Seq<(K, V)>, i: int, entry: (K, V))
    requires
        distinct_keys(entries),
        0 <= i < entries.len(),
        entry.0@ == entries[i].0@,
    ensures
        distinct_keys(entries.update(i, entry)),
        entry_map(entries.update(i, entry)) == entry_map(entries).insert(entry.0@, entry.1),
{
    let updated = entries.update(i, entry);
    assert forall|j: int| 0 <= j < updated.len() implies (#[trigger] updated[j]).0@
        == entries[j].0@ by {}
    assert forall|j: int, k: int| 0 <= j < k < updated.len() implies (#[trigger] updated[j]).0@ != (
    #[trigger] updated[k]).0@ by {
        assert(entries[j].0@ != entries[k].0@);
    }
    lemma_entry_map(entries);
    lemma_entry_map(updated);
    let a = entry_map(updated);
    let b = entry_map(entries).insert(entry.0@, entry.1);
    assert forall|key: K::V| a.contains_key(key) <==> b.contains_key(key) by {
        if a.contains_key(key) {
            let p = position_of(updated, key);
            assert(entries[p].0@ == key);
        }
        if b.contains_key(key) {
            if key == entry.0@ {
                assert(updated[i].0@ == key);
            } else {
                let p = position_of(entries, key);
                assert(updated[p].0@ == key);
            }
        }
    }
    assert forall|key: K::V| a.contains_key(key) implies a[key] == b[key] by {
        let p = position_of(updated, key);
        assert(entries[p].0@ == key);
        assert(entry_map(entries)[entries[p].0@] == entries[p].1);
        if key == entry.0@ {
            assert(updated[i].0@ == key);
            assert(a[updated[i].0@] == updated[i].1);
        } else {
            assert(p != i);
        }
    }
    assert(a =~= b);
}

/// Removing an entry removes its key from the map.
proof fn lemma_remove<K: View, V>(entries: Seq<(K, V)>, i: int)
    requires
        distinct_keys(entries),
        0 <= i < entries.len(),
    ensures
        distinct_keys(entries.remove(i)),
        entry_map(entries.remove(i)) == entry_map(entries).remove(entries[i].0@),
{
    let shorter = entries.remove(i);
    assert forall|j: int| 0 <= j < shorter.len() implies #[trigger] shorter[j] == entries[if j < i {
        j
    } else {
        j + 1
    }] by {}
    assert forall|j: int, k: int| 0 <= j < k < shorter.len() implies (#[trigger] shorter[j]).0@ != (
    #[trigger] shorter[k]).0@ by {
        let jj = if j < i { j } else { j + 1 };
        let kk = if k < i { k } else { k + 1 };
        assert(entries[jj].0@ != entries[kk].0@);
    }
    lemma_entry_map(entries);
    lemma_entry_map(shorter);
    let a = entry_map(shorter);
    let b = entry_map(entries).remove(entries[i].0@);
    assert forall|key: K::V| a.contains_key(key) <==> b.contains_key(key) by {
        if a.contains_key(key) {
            let p = position_of(shorter, key);
            let pp = if p < i { p } else { p + 1 };
            assert(entries[pp].0@ == key);
            if pp < i {
                assert(entries[pp].0@ != entries[i].0@);
            } else {
                assert(entries[i].0@ != entries[pp].0@);
            }
        }
        if b.contains_key(key) {
            let p = position_of(entries, key);
            assert(p != i);
            let pp = if p < i { p } else { p - 1 };
            assert(shorter[pp].0@ == key);
        }
    }
    assert forall|key: K::V| a.contains_key(key) implies a[key] == b[key] by {
        let p = position_of(shorter, key);
        let pp = if p < i { p } else { p + 1 };
        assert(entries[pp] == shorter[p]);
        assert(entry_map(entries)[entries[pp].0@] == entries[pp].1);
        assert(b.contains_key(key));
    }
    assert(a =~= b);
}

impl<K: TableKey, V> Table<K, V> {
    /// The entries, in insertion order.
    pub closed spec fn entries(&self) -> Seq<(K, V)> {
        self.items@
    }

    /// No key occurs twice.
    pub open spec fn wf(&self) -> bool {
        distinct_keys(self.entries())
    }

    /// An empty table.
    pub fn new() -> (table: Self)
        ensures
            table.entries() == Seq::<(K, V)>::empty(),
            table@ == Map::<K::V, V>::empty(),
            table.wf(),
    {
        let table = Table { items: Vec::new() };
        assert(table@ =~= Map::<K::V, V>::empty());
        table
    }

    /// The number of entries.
    pub fn len(&self) -> (length: usize)
        ensures
            length == self.entries().len(),
    {
        self.items.len()
    }

    /// The entry at a position.
    pub fn entry(&self, index: usize) -> (entry: &(K, V))
        requires
            index < self.entries().len(),
        ensures
            *entry == self.entries()[index as int],
    {
        &self.items[index]
    }

    /// The position of a key.
    fn position(&self, key: &K) -> (position: Option<usize>)
        ensures
            match position {
                Some(i) => i < self.entries().len() && self.entries()[i as int].0@ == key@,
                None => !has_key(self.entries(), key@),
            },
    {
        let mut i: usize = 0;
        while i < self.items.len()
            invariant
                0 <= i <= self.items@.len(),
                forall|j: int| 0 <= j < i ==> (#[trigger] self.items@[j]).0@ != key@,
            decreases self.items.len() - i,
        {
            if self.items[i].0.same(key) {
                return Some(i);
            }
            i = i + 1;
        }
        None
    }

    /// Whether the table has the key.
    pub fn contains_key(&self, key: &K) -> (contains: bool)
        ensures
            contains == self@.contains_key(key@),
    {
        match self.position(key) {
            Some(i) => {
                assert(has_key(self.entries(), key@));
                true
            },
            None => false,
        }
    }

    /// The value under a key.
    pub fn get(&self, key: &K) -> (value: Option<&V>)
        requires
            self.wf(),
        ensures
            match value {
                Some(value) => self@.contains_key(key@) && *value == self@[key@],
                None => !self@.contains_key(key@),
            },
    {
        proof {
            lemma_entry_map(self.items@);
        }
        match self.position(key) {
            Some(i) => Some(&self.items[i].1),
            None => None,
        }
    }

    /// Puts a value under a key, replacing the one that was there.
    pub fn insert(&mut self, key: K, value: V)
        requires
            old(self).wf(),
        ensures
            final(self).wf(),
            final(self)@ == old(self)@.insert(key@, value),
    {
        match self.position(&key) {
            Some(i) => {
                proof {
                    lemma_update(self.items@, i as int, (key, value));
                }
                self.items.set(i, (key, value));
            },
            None => {
                proof {
                    lemma_push(self.items@, (key, value));
                }
                self.items.push((key, value));
            },
        }
    }

    /// Takes the value under a key out of the table.
    pub fn remove(&mut self, key: &K) -> (removed: Option<V>)
        requires
            old(self).wf(),
        ensures
            final(self).wf(),
            final(self)@ == old(self)@.remove(key@),
            match removed {
                Some(value) => old(self)@.contains_key(key@) && value == old(self)@[key@],
                None => !old(self)@.contains_key(key@),
            },
    {
        proof {
            lemma_entry_map(self.items@);
        }
        match self.position(key) {
            Some(i) => {
                proof {
                    lemma_remove(self.items@, i as int);
                }
                let entry = self.items.remove(i);
                Some(entry.1)
            },
            None => {
                assert(self@.remove(key@) =~= self@);
                None
            },
        }
    }
}

} // verus!
