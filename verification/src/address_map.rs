//! A small map keyed by principal that remembers the order in which keys arrived.

use vstd::prelude::*;
use crate::types::Address;

verus! {

/// A map from principals to values with at most one entry per principal.
///
/// The view is the mathematical map; `order()` lists the keys in the order in which
/// they were first set.
#[derive(Debug)]
pub struct AddressMap<V> {
    entries: Vec<(Address, V)>,
}

/// The keys of a list of entries, in the order of the list.
pub open spec fn keys_of<V>(entries: Seq<(Address, V)>) -> Seq<Address> {
    Seq::new(entries.len(), |i: int| entries[i].0)
}

/// The map that a list of entries stands for.
pub open spec fn map_of<V>(entries: Seq<(Address, V)>) -> Map<Address, V> {
    Map::new(
        |k: Address| keys_of(entries).contains(k),
        |k: Address| entries[keys_of(entries).index_of(k)].1,
    )
}

/// In a list without a repeated key, every entry is what the map holds under its key.
proof fn lemma_entry<V>(entries: Seq<(Address, V)>, i: int)
    requires
        keys_of(entries).no_duplicates(),
        0 <= i < entries.len(),
    ensures
        map_of(entries).dom().contains(entries[i].0),
        map_of(entries)[entries[i].0] == entries[i].1,
{
    let keys = keys_of(entries);
    let k = entries[i].0;
    assert(keys[i] == k);
    let j = keys.index_of(k);
    assert(keys[j] == k);
}

/// Replacing the value of an entry changes the map under its key and nothing else.
proof fn lemma_replace<V>(entries: Seq<(Address, V)>, i: int, value: V)
    requires
        keys_of(entries).no_duplicates(),
        0 <= i < entries.len(),
    ensures
        keys_of(entries.update(i, (entries[i].0, value))) == keys_of(entries),
        map_of(entries.update(i, (entries[i].0, value))) == map_of(entries).insert(
            entries[i].0,
            value,
        ),
{
    let key = entries[i].0;
    let after = entries.update(i, (key, value));
    let keys = keys_of(entries);
    assert(keys_of(after) =~= keys);
    assert(keys[i] == key);
    assert forall|k: Address| #[trigger] map_of(after).dom().contains(k) implies map_of(after)[k]
        == map_of(entries).insert(key, value)[k] by {
        let j = keys.index_of(k);
        assert(keys[j] == k);
        lemma_entry(after, j);
        lemma_entry(entries, j);
    }
    assert(map_of(after) =~= map_of(entries).insert(key, value));
}

/// Appending an entry under a new key keeps the keys apart and inserts into the map.
proof fn lemma_append<V>(entries: Seq<(Address, V)>, key: Address, value: V)
    requires
        keys_of(entries).no_duplicates(),
        !keys_of(entries).contains(key),
    ensures
        keys_of(entries.push((key, value))) == keys_of(entries).push(key),
        keys_of(entries.push((key, value))).no_duplicates(),
        map_of(entries.push((key, value))) == map_of(entries).insert(key, value),
{
    let after = entries.push((key, value));
    let keys = keys_of(entries);
    let n = entries.len() as int;
    assert(keys_of(after) =~= keys.push(key));
    assert forall|a: int, b: int| 0 <= a < n + 1 && 0 <= b < n + 1 && a != b implies keys_of(
        after,
    )[a] != keys_of(after)[b] by {
        if a < n && b < n {
            assert(keys[a] != keys[b]);
        } else if a < n {
            assert(keys[a] != key);
        } else {
            assert(keys[b] != key);
        }
    }
    assert forall|k: Address| #[trigger]
        map_of(after).dom().contains(k) == map_of(entries).insert(key, value).dom().contains(
            k,
        ) by {
        if keys.contains(k) {
            let j = keys.index_of(k);
            assert(keys_of(after)[j] == k);
        }
        if k == key {
            assert(keys_of(after)[n] == k);
        }
    }
    assert forall|k: Address| #[trigger] map_of(after).dom().contains(k) implies map_of(after)[k]
        == map_of(entries).insert(key, value)[k] by {
        let j = keys_of(after).index_of(k);
        lemma_entry(after, j);
        if j < n {
            lemma_entry(entries, j);
        }
    }
    assert(map_of(after) =~= map_of(entries).insert(key, value));
}

/// Taking an entry out keeps the keys apart and removes its key from the map.
proof fn lemma_take_out<V>(entries: Seq<(Address, V)>, at: int)
    requires
        keys_of(entries).no_duplicates(),
        0 <= at < entries.len(),
    ensures
        keys_of(entries).index_of(entries[at].0) == at,
        keys_of(entries.remove(at)) == keys_of(entries).remove(at),
        keys_of(entries.remove(at)).no_duplicates(),
        map_of(entries.remove(at)) == map_of(entries).remove(entries[at].0),
{
    let key = entries[at].0;
    let after = entries.remove(at);
    let old_keys = keys_of(entries);
    let new_keys = keys_of(after);
    assert(old_keys[at] == key);
    assert(old_keys.index_of(key) == at);
    assert(new_keys =~= old_keys.remove(at));
    assert forall|a: int, b: int|
        0 <= a < new_keys.len() && 0 <= b < new_keys.len() && a != b implies new_keys[a]
            != new_keys[b] by {
        let a0 = if a < at {
            a
        } else {
            a + 1
        };
        let b0 = if b < at {
            b
        } else {
            b + 1
        };
        assert(new_keys[a] == old_keys[a0]);
        assert(new_keys[b] == old_keys[b0]);
    }
    assert forall|k: Address| #[trigger]
        map_of(after).dom().contains(k) == map_of(entries).remove(key).dom().contains(k) by {
        if new_keys.contains(k) {
            let j = new_keys.index_of(k);
            let j0 = if j < at {
                j
            } else {
                j + 1
            };
            assert(old_keys[j0] == k);
        }
        if old_keys.contains(k) && k != key {
            let j0 = old_keys.index_of(k);
            let j = if j0 < at {
                j0
            } else {
                j0 - 1
            };
            assert(new_keys[j] == k);
        }
    }
    assert forall|k: Address| #[trigger] map_of(after).dom().contains(k) implies map_of(after)[k]
        == map_of(entries).remove(key)[k] by {
        let j = new_keys.index_of(k);
        let j0 = if j < at {
            j
        } else {
            j + 1
        };
        lemma_entry(after, j);
        lemma_entry(entries, j0);
    }
    assert(map_of(after) =~= map_of(entries).remove(key));
}

impl<V> AddressMap<V> {
    #[verifier::type_invariant]
    spec fn unique_keys(&self) -> bool {
        keys_of(self.entries@).no_duplicates()
    }
}

impl<V: Copy> View for AddressMap<V> {
    type V = Map<Address, V>;

    closed spec fn view(&self) -> Map<Address, V> {
        map_of(self.entries@)
    }
}

impl<V: Copy> AddressMap<V> {
    /// The keys in the order in which they were first set.
    pub closed spec fn order(&self) -> Seq<Address> {
        keys_of(self.entries@)
    }

    /// No principal has two entries. This holds of every map that exists at run time;
    /// `affirm` hands the fact to a proof.
    pub closed spec fn wf(&self) -> bool {
        keys_of(self.entries@).no_duplicates()
    }

    /// The value under `key`, if there is one.
    pub open spec fn spec_get(&self, key: Address) -> Option<V> {
        if self@.dom().contains(key) {
            Some(self@[key])
        } else {
            None
        }
    }

    /// The keys of a well-formed map are exactly the members of `order()`, each once.
    pub proof fn lemma_order(&self)
        requires
            self.wf(),
        ensures
            self.order().no_duplicates(),
            self@.dom().finite(),
            self@.dom() == self.order().to_set(),
            self@.dom().len() == self.order().len(),
            forall|k: Address| self@.dom().contains(k) <==> self.order().contains(k),
            forall|i: int|
                0 <= i < self.order().len() ==> self@.dom().contains(#[trigger] self.order()[i]),
    {
        let keys = keys_of(self.entries@);
        assert(self@.dom() =~= keys.to_set());
        keys.unique_seq_to_set();
    }

    /// Does nothing at run time; tells the verifier that this map is well formed.
    pub fn affirm(&self)
        ensures
            self.wf(),
    {
        proof {
            use_type_invariant(self);
        }
    }

    /// An empty map.
    pub fn new() -> (map: Self)
        ensures
            map.wf(),
            map@ == Map::<Address, V>::empty(),
            map.order() == Seq::<Address>::empty(),
    {
        let entries: Vec<(Address, V)> = Vec::new();
        proof {
            assert(map_of(entries@) =~= Map::<Address, V>::empty());
            assert(keys_of(entries@) =~= Seq::<Address>::empty());
        }
        AddressMap { entries }
    }

    /// The number of entries.
    pub fn len(&self) -> (n: usize)
        ensures
            n == self.order().len(),
    {
        self.entries.len()
    }

    /// Whether the map has no entry.
    pub fn is_empty(&self) -> (empty: bool)
        ensures
            empty == (self.order().len() == 0),
    {
        self.entries.len() == 0
    }

    fn position(&self, key: Address) -> (found: Option<usize>)
        ensures
            match found {
                Some(i) => i < self.entries@.len() && self.entries@[i as int].0 == key,
                None => !keys_of(self.entries@).contains(key),
            },
    {
        let mut i: usize = 0;
        while i < self.entries.len()
            invariant
                i <= self.entries@.len(),
                forall|j: int| 0 <= j < i ==> self.entries@[j].0 != key,
            decreases self.entries@.len() - i,
        {
            if self.entries[i].0 == key {
                return Some(i);
            }
            i += 1;
        }
        None
    }

    /// Whether `key` has an entry.
    pub fn contains_key(&self, key: Address) -> (found: bool)
        ensures
            found == self@.dom().contains(key),
    {
        let found = self.position(key);
        proof {
            if let Some(i) = found {
                assert(keys_of(self.entries@)[i as int] == key);
            }
        }
        found.is_some()
    }

    /// The value under `key`, if there is one.
    pub fn get(&self, key: Address) -> (value: Option<V>)
        ensures
            value == self.spec_get(key),
    {
        match self.position(key) {
            Some(i) => {
                proof {
                    use_type_invariant(self);
                    lemma_entry(self.entries@, i as int);
                }
                Some(self.entries[i].1)
            },
            None => None,
        }
    }

    /// The `index`-th key in order of arrival.
    pub fn key_at(&self, index: usize) -> (key: Address)
        requires
            index < self.order().len(),
        ensures
            key == self.order()[index as int],
    {
        self.entries[index].0
    }

    /// The `index`-th entry in order of arrival.
    pub fn entry_at(&self, index: usize) -> (entry: (Address, V))
        requires
            index < self.order().len(),
        ensures
            entry.0 == self.order()[index as int],
            self@.dom().contains(entry.0),
            entry.1 == self@[entry.0],
    {
        proof {
            use_type_invariant(self);
            lemma_entry(self.entries@, index as int);
        }
        self.entries[index]
    }

    /// Sets the value under `key`, replacing the one that was there. A new key goes to
    /// the end of the order; a key that was present keeps its place.
    pub fn set(&mut self, key: Address, value: V)
        ensures
            final(self).wf(),
            final(self)@ == old(self)@.insert(key, value),
            final(self).order() == (if old(self)@.dom().contains(key) {
                old(self).order()
            } else {
                old(self).order().push(key)
            }),
    {
        proof {
            use_type_invariant(&*self);
        }
        let found = self.position(key);
        let ghost before = self.entries@;
        let mut entries: Vec<(Address, V)> = Vec::new();
        core::mem::swap(&mut entries, &mut self.entries);
        match found {
            Some(i) => {
                proof {
                    assert(keys_of(before)[i as int] == key);
                    lemma_replace(before, i as int, value);
                }
                entries[i] = (key, value);
            },
            None => {
                proof {
                    lemma_append(before, key, value);
                }
                entries.push((key, value));
            },
        }
        self.entries = entries;
    }

    /// Drops the entry under `key`, if there is one. The other keys keep their order.
    pub fn remove(&mut self, key: Address)
        ensures
            final(self).wf(),
            final(self)@ == old(self)@.remove(key),
            final(self).order() == (if old(self)@.dom().contains(key) {
                old(self).order().remove(old(self).order().index_of(key))
            } else {
                old(self).order()
            }),
    {
        proof {
            use_type_invariant(&*self);
        }
        let found = self.position(key);
        let ghost before = self.entries@;
        match found {
            Some(i) => {
                let mut entries: Vec<(Address, V)> = Vec::new();
                core::mem::swap(&mut entries, &mut self.entries);
                proof {
                    assert(keys_of(before)[i as int] == key);
                    lemma_take_out(before, i as int);
                }
                entries.remove(i);
                self.entries = entries;
            },
            None => {
                proof {
                    assert(map_of(before) =~= map_of(before).remove(key));
                }
            },
        }
    }

    /// A second map with the same entries in the same order.
    pub fn duplicate(&self) -> (copy: Self)
        ensures
            copy.wf(),
            copy@ == self@,
            copy.order() == self.order(),
    {
        let mut entries: Vec<(Address, V)> = Vec::new();
        let mut i: usize = 0;
        while i < self.entries.len()
            invariant
                i <= self.entries@.len(),
                entries@ == self.entries@.subrange(0, i as int),
            decreases self.entries@.len() - i,
        {
            entries.push(self.entries[i]);
            proof {
                assert(entries@ =~= self.entries@.subrange(0, i + 1));
            }
            i += 1;
        }
        proof {
            use_type_invariant(self);
            assert(entries@ =~= self.entries@);
        }
        AddressMap { entries }
    }
}

} // verus!
