//! An insertion-ordered map from cell keys to values.
//!
//! The map keeps its entries in the order in which their keys were first
//! inserted and never holds a key twice. It offers no way to remove a key.

use vstd::prelude::*;

verus! {

/// A key that identifies one cell of contract state.
pub trait CellKey: Sized {
    /// Whether `self` and `other` name the same cell.
    fn same_cell(&self, other: &Self) -> (same: bool)
        ensures
            same == (*self == *other),
    ;
}

/// No key occurs at two positions of `entries`.
spec fn distinct_keys<K, V>(entries: Seq<(K, V)>) -> bool {
    forall|i: int, j: int|
        0 <= i < j < entries.len() ==> (#[trigger] entries[i]).0 != (#[trigger] entries[j]).0
}

/// Whether some entry of `entries` has the key `key`.
spec fn has_key<K, V>(entries: Seq<(K, V)>, key: K) -> bool {
    exists|i: int| 0 <= i < entries.len() && (#[trigger] entries[i]).0 == key
}

/// A position at which `entries` holds `key`, when there is one.
spec fn position_of<K, V>(entries: Seq<(K, V)>, key: K) -> int {
    choose|i: int| 0 <= i < entries.len() && (#[trigger] entries[i]).0 == key
}

/// The mapping that a sequence of entries stands for.
spec fn entries_map<K, V>(entries: Seq<(K, V)>) -> Map<K, V> {
    Map::new(|key: K| has_key(entries, key), |key: K| entries[position_of(entries, key)].1)
}

/// The keys of a sequence of entries, in order.
spec fn entries_keys<K, V>(entries: Seq<(K, V)>) -> Seq<K> {
    Seq::new(entries.len(), |i: int| entries[i].0)
}

/// With distinct keys, the entry at position `i` is the one the mapping holds
/// for its key.
proof fn lemma_entry_in_map<K, V>(entries: Seq<(K, V)>, i: int)
    requires
        distinct_keys(entries),
        0 <= i < entries.len(),
    ensures
        entries_map(entries).contains_key(entries[i].0),
        entries_map(entries)[entries[i].0] == entries[i].1,
        position_of(entries, entries[i].0) == i,
{
    let key = entries[i].0;
    assert(has_key(entries, key));
    let p = position_of(entries, key);
    assert(0 <= p < entries.len() && entries[p].0 == key);
    if p < i {
        assert(entries[p].0 != entries[i].0);
    } else if i < p {
        assert(entries[i].0 != entries[p].0);
    }
}

/// Overwriting the value at position `i` keeps the keys and updates the
/// mapping at that key.
proof fn lemma_update_entry<K, V>(entries: Seq<(K, V)>, i: int, value: V)
    requires
        distinct_keys(entries),
        0 <= i < entries.len(),
    ensures
        distinct_keys(entries.update(i, (entries[i].0, value))),
        entries_keys(entries.update(i, (entries[i].0, value))) == entries_keys(entries),
        entries_map(entries.update(i, (entries[i].0, value))) == entries_map(entries).insert(
            entries[i].0,
            value,
        ),
{
    let key = entries[i].0;
    let updated = entries.update(i, (key, value));
    assert(distinct_keys(updated)) by {
        assert forall|a: int, b: int| 0 <= a < b < updated.len() implies (#[trigger] updated[a]).0
            != (#[trigger] updated[b]).0 by {
            assert(updated[a].0 == entries[a].0);
            assert(updated[b].0 == entries[b].0);
        }
    }
    assert(entries_keys(updated) =~= entries_keys(entries));
    assert forall|k: K| has_key(updated, k) == has_key(entries, k) by {
        if has_key(entries, k) {
            let p = position_of(entries, k);
            assert(updated[p].0 == k);
        }
        if has_key(updated, k) {
            let p = position_of(updated, k);
            assert(entries[p].0 == k);
        }
    }
    assert(has_key(entries, key)) by {
        assert(entries[i].0 == key);
    }
    assert forall|k: K| has_key(updated, k) implies #[trigger] entries_map(updated)[k]
        == entries_map(entries).insert(key, value)[k] by {
        let p = position_of(updated, k);
        lemma_entry_in_map(updated, p);
        if k == key {
            lemma_entry_in_map(updated, i);
        } else {
            assert(entries[p].0 == k);
            lemma_entry_in_map(entries, p);
        }
    }
    assert(entries_map(updated) =~= entries_map(entries).insert(key, value));
}

/// Appending an entry with a fresh key appends the key and extends the
/// mapping by it.
proof fn lemma_push_entry<K, V>(entries: Seq<(K, V)>, key: K, value: V)
    requires
        distinct_keys(entries),
        !has_key(entries, key),
    ensures
        distinct_keys(entries.push((key, value))),
        entries_keys(entries.push((key, value))) == entries_keys(entries).push(key),
        entries_map(entries.push((key, value))) == entries_map(entries).insert(key, value),
{
    let pushed = entries.push((key, value));
    let last = entries.len() as int;
    assert(distinct_keys(pushed)) by {
        assert forall|a: int, b: int| 0 <= a < b < pushed.len() implies (#[trigger] pushed[a]).0
            != (#[trigger] pushed[b]).0 by {
            assert(pushed[a] == entries[a]);
            if b < last {
                assert(pushed[b] == entries[b]);
            } else {
                assert(pushed[b].0 == key);
                assert(entries[a].0 != key);
            }
        }
    }
    assert(entries_keys(pushed) =~= entries_keys(entries).push(key));
    assert forall|k: K| has_key(pushed, k) == (has_key(entries, k) || k == key) by {
        if has_key(entries, k) {
            let p = position_of(entries, k);
            assert(pushed[p].0 == k);
        }
        if k == key {
            assert(pushed[last].0 == k);
        }
        if has_key(pushed, k) {
            let p = position_of(pushed, k);
            if p < last {
                assert(entries[p].0 == k);
            }
        }
    }
    assert forall|k: K| has_key(pushed, k) implies #[trigger] entries_map(pushed)[k]
        == entries_map(entries).insert(key, value)[k] by {
        let p = position_of(pushed, k);
        lemma_entry_in_map(pushed, p);
        if k == key {
            lemma_entry_in_map(pushed, last);
        } else {
            assert(p < last);
            assert(entries[p] == pushed[p]);
            lemma_entry_in_map(entries, p);
        }
    }
    assert(entries_map(pushed) =~= entries_map(entries).insert(key, value));
}

/// A map from cell keys to values that remembers the order of first insertion.
pub struct CellMap<K: CellKey + Copy, V: Copy> {
    entries: Vec<(K, V)>,
}

impl<K: CellKey + Copy, V: Copy> View for CellMap<K, V> {
    type V = Map<K, V>;

    closed spec fn view(&self) -> Map<K, V> {
        entries_map(self.entries@)
    }
}

impl<K: CellKey + Copy, V: Copy> CellMap<K, V> {
    #[verifier::type_invariant]
    spec fn no_key_twice(self) -> bool {
        distinct_keys(self.entries@)
    }

    /// The keys of the map, in the order in which they were first inserted.
    pub closed spec fn keys(self) -> Seq<K> {
        entries_keys(self.entries@)
    }

    /// An empty map.
    pub fn new() -> (map: Self)
        ensures
            map@ == Map::<K, V>::empty(),
            map.keys() == Seq::<K>::empty(),
    {
        CellMap { entries: Vec::new() }
    }

    /// The position of `key` among the entries, if the map holds it.
    fn find(&self, key: &K) -> (found: Option<usize>)
        ensures
            match found {
                Some(i) => i < self.entries@.len() && self.entries@[i as int].0 == *key,
                None => !has_key(self.entries@, *key),
            },
    {
        let mut i: usize = 0;
        while i < self.entries.len()
            invariant
                i <= self.entries@.len(),
                forall|j: int| 0 <= j < i ==> (#[trigger] self.entries@[j]).0 != *key,
            decreases self.entries@.len() - i,
        {
            if self.entries[i].0.same_cell(key) {
                return Some(i);
            }
            i = i + 1;
        }
        None
    }

    /// The number of keys in the map. The map lists each of its keys once.
    pub fn len(&self) -> (n: usize)
        ensures
            n == self.keys().len(),
            self.keys().no_duplicates(),
            forall|key: K| self.keys().contains(key) <==> self@.contains_key(key),
    {
        proof {
            use_type_invariant(self);
            let keys = self.keys();
            assert forall|i: int, j: int| 0 <= i < keys.len() && 0 <= j < keys.len() && i != j
                implies keys[i] != keys[j] by {
                if i < j {
                    assert(self.entries@[i].0 != self.entries@[j].0);
                } else {
                    assert(self.entries@[j].0 != self.entries@[i].0);
                }
            }
            assert forall|key: K| keys.contains(key) <==> self@.contains_key(key) by {
                if keys.contains(key) {
                    let i = choose|i: int| 0 <= i < keys.len() && keys[i] == key;
                    assert(self.entries@[i].0 == key);
                }
                if has_key(self.entries@, key) {
                    let i = position_of(self.entries@, key);
                    assert(keys[i] == key);
                }
            }
        }
        self.entries.len()
    }

    /// Whether the map holds `key`.
    pub fn contains_key(&self, key: &K) -> (held: bool)
        ensures
            held == self@.contains_key(*key),
    {
        self.find(key).is_some()
    }

    /// The value held for `key`, if any.
    pub fn get(&self, key: &K) -> (value: Option<&V>)
        ensures
            match value {
                Some(held) => self@.contains_key(*key) && self@[*key] == *held,
                None => !self@.contains_key(*key),
            },
    {
        proof {
            use_type_invariant(self);
        }
        match self.find(key) {
            Some(i) => {
                proof {
                    lemma_entry_in_map(self.entries@, i as int);
                }
                Some(&self.entries[i].1)
            },
            None => None,
        }
    }

    /// Sets the value held for `key`, whether or not the map held the key.
    pub fn insert(&mut self, key: K, value: V)
        ensures
            final(self)@ == old(self)@.insert(key, value),
            final(self).keys() == (if old(self)@.contains_key(key) {
                old(self).keys()
            } else {
                old(self).keys().push(key)
            }),
    {
        proof {
            use_type_invariant(&*self);
        }
        let found = self.find(&key);
        let mut entries: Vec<(K, V)> = Vec::new();
        std::mem::swap(&mut entries, &mut self.entries);
        match found {
            Some(i) => {
                proof {
                    lemma_update_entry(entries@, i as int, value);
                }
                entries.set(i, (key, value));
            },
            None => {
                proof {
                    lemma_push_entry(entries@, key, value);
                }
                entries.push((key, value));
            },
        }
        self.entries = entries;
    }

    /// The entry at position `i` in the order of first insertion, if the map
    /// has that many entries.
    pub fn entry_at(&self, i: usize) -> (entry: Option<(K, V)>)
        ensures
            match entry {
                Some(held) => {
                    &&& i < self.keys().len()
                    &&& held.0 == self.keys()[i as int]
                    &&& self@.contains_key(held.0)
                    &&& held.1 == self@[held.0]
                },
                None => i >= self.keys().len(),
            },
    {
        if i < self.entries.len() {
            proof {
                use_type_invariant(self);
                lemma_entry_in_map(self.entries@, i as int);
            }
            Some(self.entries[i])
        } else {
            None
        }
    }
}

} // verus!
