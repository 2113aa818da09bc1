//! An insertion-ordered map from identifiers to 64-bit values.
//!
//! Program IDs, addresses, commitments and storage keys are all carried through the
//! library as 64-bit identifiers: equal identifiers denote equal things. `IdMap` holds its
//! entries in an `IndexMap` and views them as a sequence of pairs, oldest key first.

use indexmap::IndexMap;
use vstd::prelude::*;

verus! {

/// Declares `indexmap::IndexMap` to the verifier as an opaque type.
#[verifier::external_type_specification]
#[verifier::external_body]
#[verifier::reject_recursive_types(K)]
#[verifier::reject_recursive_types(V)]
#[verifier::reject_recursive_types(S)]
pub struct ExIndexMap<K, V, S>(IndexMap<K, V, S>);

/// The entries of an `IndexMap`, in the order in which the map iterates over them.
pub uninterp spec fn map_entries(map: IndexMap<u64, u64>) -> Seq<(u64, u64)>;

/// `true` when some entry of `entries` has the given key.
pub open spec fn has_key(entries: Seq<(u64, u64)>, key: u64) -> bool {
    exists|i: int| 0 <= i < entries.len() && (#[trigger] entries[i]).0 == key
}

/// Wraps `IndexMap::new`, which makes a map without entries.
#[verifier::external_body]
fn map_new() -> (map: IndexMap<u64, u64>)
    ensures
        map_entries(map) == Seq::<(u64, u64)>::empty(),
{
    IndexMap::new()
}

/// Wraps `IndexMap::insert`: a key that is present keeps its place, its value is replaced and the
/// replaced value is returned; a key that is absent is appended with its value.
#[verifier::external_body]
fn map_insert(map: &mut IndexMap<u64, u64>, key: u64, value: u64) -> (replaced: Option<u64>)
    ensures
        match replaced {
            Some(previous) => exists|i: int|
                0 <= i < map_entries(*old(map)).len() && (#[trigger] map_entries(*old(map))[i]) == (
                    key,
                    previous,
                ) && map_entries(*final(map)) == map_entries(*old(map)).update(i, (key, value)),
            None => !has_key(map_entries(*old(map)), key) && map_entries(*final(map)) == map_entries(
                *old(map),
            ).push((key, value)),
        },
{
    map.insert(key, value)
}

/// Wraps `IndexMap::get`: returns the value stored under `key`, if the key is present.
#[verifier::external_body]
fn map_get(map: &IndexMap<u64, u64>, key: u64) -> (value: Option<u64>)
    ensures
        match value {
            Some(found) => exists|i: int|
                0 <= i < map_entries(*map).len() && (#[trigger] map_entries(*map)[i]) == (key, found),
            None => !has_key(map_entries(*map), key),
        },
{
    map.get(&key).copied()
}

/// Wraps `IndexMap::shift_remove`: takes the entry of `key` out and moves the later entries up by
/// one place, so that their order stays.
#[verifier::external_body]
fn map_shift_remove(map: &mut IndexMap<u64, u64>, key: u64) -> (removed: Option<u64>)
    ensures
        match removed {
            Some(value) => exists|i: int|
                0 <= i < map_entries(*old(map)).len() && (#[trigger] map_entries(*old(map))[i]) == (
                    key,
                    value,
                ) && map_entries(*final(map)) == map_entries(*old(map)).remove(i),
            None => !has_key(map_entries(*old(map)), key) && map_entries(*final(map)) == map_entries(
                *old(map),
            ),
        },
{
    map.shift_remove(&key)
}

/// Wraps `IndexMap::len`, the number of entries.
#[verifier::external_body]
fn map_len(map: &IndexMap<u64, u64>) -> (len: usize)
    ensures
        len == map_entries(*map).len(),
{
    map.len()
}

/// Wraps `IndexMap::get_index`: returns the entry at a position in iteration order, if there is one.
#[verifier::external_body]
fn map_get_index(map: &IndexMap<u64, u64>, index: usize) -> (entry: Option<(u64, u64)>)
    ensures
        entry == (if index < map_entries(*map).len() {
            Some(map_entries(*map)[index as int])
        } else {
            None
        }),
{
    map.get_index(index).map(|(key, value)| (*key, *value))
}

/// The place of `key` in `entries`; meaningful when the key is present.
pub open spec fn place_of(entries: Seq<(u64, u64)>, key: u64) -> int {
    choose|i: int| 0 <= i < entries.len() && (#[trigger] entries[i]).0 == key
}

/// The value stored under `key`, if the key is present.
pub open spec fn value_of(entries: Seq<(u64, u64)>, key: u64) -> Option<u64> {
    if has_key(entries, key) {
        Some(entries[place_of(entries, key)].1)
    } else {
        None
    }
}

/// `entries` after `key` was given `value`: in its place when it is present, else at the end.
pub open spec fn put(entries: Seq<(u64, u64)>, key: u64, value: u64) -> Seq<(u64, u64)> {
    if has_key(entries, key) {
        entries.update(place_of(entries, key), (key, value))
    } else {
        entries.push((key, value))
    }
}

/// `entries` after `key` was taken out.
pub open spec fn cut(entries: Seq<(u64, u64)>, key: u64) -> Seq<(u64, u64)> {
    if has_key(entries, key) {
        entries.remove(place_of(entries, key))
    } else {
        entries
    }
}

/// `true` when no key occurs twice.
pub open spec fn distinct_keys(entries: Seq<(u64, u64)>) -> bool {
    forall|i: int, j: int|
        0 <= i < entries.len() && 0 <= j < entries.len() && i != j ==> (#[trigger] entries[i]).0 != (
        #[trigger] entries[j]).0
}

/// The keys, in order.
pub open spec fn keys_of(entries: Seq<(u64, u64)>) -> Seq<u64> {
    entries.map_values(|entry: (u64, u64)| entry.0)
}

/// Under distinct keys, an entry's place is the place of its key.
pub proof fn lemma_place(entries: Seq<(u64, u64)>, i: int)
    requires
        distinct_keys(entries),
        0 <= i < entries.len(),
    ensures
        has_key(entries, entries[i].0),
        place_of(entries, entries[i].0) == i,
        value_of(entries, entries[i].0) == Some(entries[i].1),
{
    let key = entries[i].0;
    assert(entries[i].0 == key);
    let p = place_of(entries, key);
    assert(0 <= p < entries.len() && entries[p].0 == key);
}

/// A put keeps the keys distinct, stores the value, and leaves the value of every other key.
pub proof fn lemma_put(entries: Seq<(u64, u64)>, key: u64, value: u64)
    requires
        distinct_keys(entries),
    ensures
        distinct_keys(put(entries, key, value)),
        value_of(put(entries, key, value), key) == Some(value),
        forall|other: u64|
            other != key ==> #[trigger] value_of(put(entries, key, value), other) == value_of(
                entries,
                other,
            ),
{
    let next = put(entries, key, value);
    if has_key(entries, key) {
        let p = place_of(entries, key);
        assert(next[p] == (key, value));
        lemma_place(next, p);
    } else {
        assert(next[entries.len() as int] == (key, value));
        assert(distinct_keys(next)) by {
            assert forall|i: int, j: int|
                0 <= i < next.len() && 0 <= j < next.len() && i != j implies (#[trigger] next[i]).0
                != (#[trigger] next[j]).0 by {
                if i < entries.len() {
                    assert(entries[i] == next[i]);
                }
                if j < entries.len() {
                    assert(entries[j] == next[j]);
                }
            }
        }
        lemma_place(next, entries.len() as int);
    }
    assert forall|other: u64| other != key implies #[trigger] value_of(next, other) == value_of(
        entries,
        other,
    ) by {
        if has_key(entries, other) {
            let p = place_of(entries, other);
            assert(next[p] == entries[p]);
            lemma_place(next, p);
        } else if has_key(next, other) {
            let p = place_of(next, other);
            assert(next[p].0 == other);
            if p < entries.len() {
                assert(entries[p].0 == other);
            }
        }
    }
}

/// A cut keeps the keys distinct, drops the key, and leaves the value of every other key.
pub proof fn lemma_cut(entries: Seq<(u64, u64)>, key: u64)
    requires
        distinct_keys(entries),
    ensures
        distinct_keys(cut(entries, key)),
        value_of(cut(entries, key), key) == None::<u64>,
        forall|other: u64|
            other != key ==> #[trigger] value_of(cut(entries, key), other) == value_of(
                entries,
                other,
            ),
{
    let next = cut(entries, key);
    if has_key(entries, key) {
        let p = place_of(entries, key);
        assert forall|i: int, j: int|
            0 <= i < next.len() && 0 <= j < next.len() && i != j implies (#[trigger] next[i]).0 != (
        #[trigger] next[j]).0 by {
            let a = if i < p { i } else { i + 1 };
            let b = if j < p { j } else { j + 1 };
            assert(next[i] == entries[a] && next[j] == entries[b]);
        }
        assert(!has_key(next, key)) by {
            if has_key(next, key) {
                let i = place_of(next, key);
                let a = if i < p { i } else { i + 1 };
                assert(next[i] == entries[a]);
                assert(entries[p].0 == key);
            }
        }
        assert forall|other: u64| other != key implies #[trigger] value_of(next, other) == value_of(
            entries,
            other,
        ) by {
            if has_key(entries, other) {
                let a = place_of(entries, other);
                let i = if a < p { a } else { a - 1 };
                assert(a != p);
                assert(next[i] == entries[a]);
                lemma_place(next, i);
            } else if has_key(next, other) {
                let i = place_of(next, other);
                let a = if i < p { i } else { i + 1 };
                assert(next[i] == entries[a]);
            }
        }
    }
}

/// An insertion-ordered map from identifiers to 64-bit values.
#[derive(Debug)]
pub struct IdMap {
    map: IndexMap<u64, u64>,
}

impl View for IdMap {
    type V = Seq<(u64, u64)>;

    closed spec fn view(&self) -> Seq<(u64, u64)> {
        map_entries(self.map)
    }
}

impl IdMap {
    /// The map's invariant: no key occurs twice.
    pub open spec fn wf(&self) -> bool {
        distinct_keys(self@)
    }

    /// Returns a map without entries.
    pub fn new() -> (map: IdMap)
        ensures
            map.wf(),
            map@ == Seq::<(u64, u64)>::empty(),
    {
        IdMap { map: map_new() }
    }

    /// Returns the number of entries.
    pub fn len(&self) -> (len: usize)
        ensures
            len == self@.len(),
    {
        map_len(&self.map)
    }

    /// Returns `true` when there are no entries.
    pub fn is_empty(&self) -> (empty: bool)
        ensures
            empty == (self@.len() == 0),
    {
        map_len(&self.map) == 0
    }

    /// Returns the value stored under `key`.
    pub fn get(&self, key: u64) -> (value: Option<u64>)
        requires
            self.wf(),
        ensures
            value == value_of(self@, key),
    {
        let value = map_get(&self.map, key);
        proof {
            if let Some(found) = value {
                let i = choose|i: int| 0 <= i < self@.len() && (#[trigger] self@[i]) == (key, found);
                lemma_place(self@, i);
            }
        }
        value
    }

    /// Returns `true` when `key` is present.
    pub fn contains_key(&self, key: u64) -> (present: bool)
        requires
            self.wf(),
        ensures
            present == has_key(self@, key),
    {
        self.get(key).is_some()
    }

    /// Stores `value` under `key` and returns the value that it replaces.
    pub fn insert(&mut self, key: u64, value: u64) -> (replaced: Option<u64>)
        requires
            old(self).wf(),
        ensures
            final(self).wf(),
            final(self)@ == put(old(self)@, key, value),
            replaced == value_of(old(self)@, key),
    {
        let ghost before = self@;
        let replaced = map_insert(&mut self.map, key, value);
        proof {
            lemma_put(before, key, value);
            if let Some(previous) = replaced {
                let i = choose|i: int|
                    0 <= i < before.len() && (#[trigger] before[i]) == (key, previous) && self@
                        == before.update(i, (key, value));
                lemma_place(before, i);
            }
        }
        replaced
    }

    /// Takes `key` out, keeping the order of the other entries, and returns its value.
    pub fn shift_remove(&mut self, key: u64) -> (removed: Option<u64>)
        requires
            old(self).wf(),
        ensures
            final(self).wf(),
            final(self)@ == cut(old(self)@, key),
            removed == value_of(old(self)@, key),
    {
        let ghost before = self@;
        let removed = map_shift_remove(&mut self.map, key);
        proof {
            lemma_cut(before, key);
            if let Some(value) = removed {
                let i = choose|i: int|
                    0 <= i < before.len() && (#[trigger] before[i]) == (key, value) && self@
                        == before.remove(i);
                lemma_place(before, i);
            }
        }
        removed
    }

    /// Returns the entry at `index` in order.
    pub fn entry_at(&self, index: usize) -> (entry: (u64, u64))
        requires
            index < self@.len(),
        ensures
            entry == self@[index as int],
    {
        match map_get_index(&self.map, index) {
            Some(entry) => entry,
            None => (0, 0),
        }
    }

    /// Drops all entries.
    pub fn clear(&mut self)
        ensures
            final(self).wf(),
            final(self)@ == Seq::<(u64, u64)>::empty(),
    {
        self.map = map_new();
    }
}

/// A put leaves every key in its place: a present key stays where it is, and an absent one comes last.
pub proof fn law_put_keeps_keys_in_place(entries: Seq<(u64, u64)>, key: u64, value: u64)
    requires
        distinct_keys(entries),
    ensures
        has_key(entries, key) ==> keys_of(put(entries, key, value)) == keys_of(entries),
        !has_key(entries, key) ==> keys_of(put(entries, key, value)) == keys_of(entries).push(key),
        forall|i: int|
            0 <= i < entries.len() && (#[trigger] entries[i]).0 != key ==> put(
                entries,
                key,
                value,
            )[i] == entries[i],
{
    assert(keys_of(put(entries, key, value)) =~= if has_key(entries, key) {
        keys_of(entries)
    } else {
        keys_of(entries).push(key)
    });
}

/// A cut takes the entry of the key out, and leaves the others in their order.
pub proof fn law_cut_keeps_the_order(entries: Seq<(u64, u64)>, i: int)
    requires
        distinct_keys(entries),
        0 <= i < entries.len(),
    ensures
        cut(entries, entries[i].0) == entries.take(i) + entries.skip(i + 1),
        forall|key: u64| !has_key(entries, key) ==> #[trigger] cut(entries, key) == entries,
{
    lemma_place(entries, i);
    assert(entries.remove(i) =~= entries.take(i) + entries.skip(i + 1));
}

/// A key has a value exactly when some entry has the key, and it is the value of that entry.
pub proof fn law_value_is_that_of_the_entry(entries: Seq<(u64, u64)>, key: u64, value: u64)
    requires
        distinct_keys(entries),
    ensures
        value_of(entries, key) == Some(value) <==> entries.contains((key, value)),
        value_of(entries, key) is None <==> !keys_of(entries).contains(key),
{
    if entries.contains((key, value)) {
        let i = choose|i: int| 0 <= i < entries.len() && entries[i] == (key, value);
        lemma_place(entries, i);
    }
    if has_key(entries, key) {
        let p = place_of(entries, key);
        assert(entries[p].0 == key);
        assert(keys_of(entries)[p] == key);
        if value_of(entries, key) == Some(value) {
            assert(entries[p] == (key, value));
        }
    }
    if keys_of(entries).contains(key) {
        let i = choose|i: int| 0 <= i < keys_of(entries).len() && keys_of(entries)[i] == key;
        assert(entries[i].0 == key);
    }
}

} // verus!
