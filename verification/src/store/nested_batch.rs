//! Coalesced latest-value index for in-progress atomic batches of a nested map.
//!
//! A nested map groups its entries under a map identifier. Its write log holds, in order, writes to
//! a key of a map (a `None` value is a removal) and removals of a whole map (a `None` key).

use crate::store::flat_batch::found_copy;
use crate::store::nested_index::{
    key_bytes, lemma_key_bytes_injective, nested_contents, nested_get, nested_insert,
    nested_is_empty, nested_new, nested_retain_other_maps, serialize_key, set_contains,
    set_contents, set_insert, set_is_empty, set_new,
};
use indexmap::{IndexMap, IndexSet};
use vstd::prelude::*;

verus! {

/// What a reverse scan of a nested write log finds for `key` in `map`: nothing, a removal (of the
/// key or of the whole map), or a value.
pub open spec fn nested_scan<V>(
    log: Seq<(u64, Option<u64>, Option<V>)>,
    map: u64,
    key: u64,
) -> Option<Option<V>>
    decreases log.len(),
{
    if log.len() == 0 {
        None
    } else {
        let (last_map, last_key, last_value) = log.last();
        if last_map == map && last_key is None {
            Some(None)
        } else if last_map == map && last_key == Some(key) {
            Some(last_value)
        } else {
            nested_scan(log.drop_last(), map, key)
        }
    }
}

/// The overlay of a nested write log: the latest log index of each written key, and the maps that
/// were removed as a whole.
#[verifier::ext_equal]
pub struct Overlay {
    pub entries: Map<(u64, Seq<u8>), usize>,
    pub deleted_maps: Set<u64>,
}

impl Overlay {
    /// The overlay of an empty log.
    pub open spec fn empty() -> Overlay {
        Overlay { entries: Map::empty(), deleted_maps: Set::empty() }
    }

    /// The overlay after one more operation, whose index in the log is `index`. Removing a map
    /// forgets the indices of its keys.
    pub open spec fn apply(self, map: u64, key: Option<u64>, index: usize) -> Overlay {
        match key {
            Some(key) => Overlay {
                entries: self.entries.insert((map, key_bytes(key)), index),
                deleted_maps: self.deleted_maps,
            },
            None => Overlay {
                entries: self.entries.restrict(
                    Set::new(|entry: (u64, Seq<u8>)| entry.0 != map),
                ),
                deleted_maps: self.deleted_maps.insert(map),
            },
        }
    }

    /// What the overlay finds for `key` in `map`, reading values from `log`.
    pub open spec fn find<V>(
        self,
        log: Seq<(u64, Option<u64>, Option<V>)>,
        map: u64,
        key: u64,
    ) -> Option<Option<V>> {
        if self.entries.contains_key((map, key_bytes(key))) {
            let index = self.entries[(map, key_bytes(key))];
            if index < log.len() {
                Some(log[index as int].2)
            } else {
                None
            }
        } else if self.deleted_maps.contains(map) {
            Some(None)
        } else {
            None
        }
    }
}

/// The overlay of an ordered nested write log.
pub open spec fn overlay<V>(log: Seq<(u64, Option<u64>, Option<V>)>) -> Overlay
    decreases log.len(),
{
    if log.len() == 0 {
        Overlay::empty()
    } else {
        overlay(log.drop_last()).apply(log.last().0, log.last().1, (log.len() - 1) as usize)
    }
}

/// A lookup through the overlay of a log finds what a reverse scan of the log finds.
pub proof fn law_overlay_agrees_with_scan<V>(
    log: Seq<(u64, Option<u64>, Option<V>)>,
    map: u64,
    key: u64,
)
    requires
        log.len() <= usize::MAX,
    ensures
        overlay(log).find(log, map, key) == nested_scan(log, map, key),
        overlay(log).entries.contains_key((map, key_bytes(key))) ==> overlay(log).entries[(
            map,
            key_bytes(key),
        )] < log.len(),
    decreases log.len(),
{
    if log.len() > 0 {
        let shorter = log.drop_last();
        let (last_map, last_key, last_value) = log.last();
        law_overlay_agrees_with_scan(shorter, map, key);
        if let Some(last) = last_key {
            lemma_key_bytes_injective(last, key);
        }
    }
}

/// A non-empty log has a non-empty overlay.
pub proof fn lemma_overlay_empty<V>(log: Seq<(u64, Option<u64>, Option<V>)>)
    ensures
        overlay(log) == Overlay::empty() <==> log.len() == 0,
{
    if log.len() > 0 {
        let (map, key, _) = log.last();
        match key {
            Some(key) => {
                assert(overlay(log).entries.contains_key((map, key_bytes(key))));
            },
            None => {
                assert(overlay(log).deleted_maps.contains(map));
            },
        }
    }
}

/// Rewinding to a checkpoint undoes exactly the operations recorded since.
pub proof fn law_nested_rewind_undoes_operations<V>(
    log: Seq<(u64, Option<u64>, Option<V>)>,
    later: Seq<(u64, Option<u64>, Option<V>)>,
)
    ensures
        (log + later).take(log.len() as int) == log,
        overlay((log + later).take(log.len() as int)) == overlay(log),
{
    assert((log + later).take(log.len() as int) =~= log);
}

/// Once a map was removed, every key of it reads as removed, whether or not it was written before,
/// until it is written again. Other maps are not affected.
pub proof fn law_removed_map_hides_all_keys<V>(
    log: Seq<(u64, Option<u64>, Option<V>)>,
    map: u64,
    other_map: u64,
    key: u64,
)
    ensures
        nested_scan(log.push((map, None, None)), map, key) == Some(None::<V>),
        other_map != map ==> nested_scan(log.push((map, None, None)), other_map, key)
            == nested_scan(log, other_map, key),
{
    assert(log.push((map, None, None)).drop_last() =~= log);
}

/// A write to a key of a map is what the next lookup finds there; no other key of that map and no
/// other map is affected.
pub proof fn law_nested_latest_write_wins<V>(
    log: Seq<(u64, Option<u64>, Option<V>)>,
    map: u64,
    key: u64,
    value: Option<V>,
    other_map: u64,
    other_key: u64,
)
    ensures
        nested_scan(log.push((map, Some(key), value)), map, key) == Some(value),
        (other_map, other_key) != (map, key) ==> nested_scan(
            log.push((map, Some(key), value)),
            other_map,
            other_key,
        ) == nested_scan(log, other_map, other_key),
{
    assert(log.push((map, Some(key), value)).drop_last() =~= log);
}

/// Latest nested pending log indices, plus maps that were fully removed in the log.
pub struct NestedPending {
    /// Latest `(map, serialized-key)` write, stored as an index into the write log.
    entries: IndexMap<(u64, Vec<u8>), usize>,
    /// Maps whose confirmed contents should be ignored (a map-level delete ran).
    deleted_maps: IndexSet<u64>,
}

impl View for NestedPending {
    type V = Overlay;

    closed spec fn view(&self) -> Overlay {
        Overlay {
            entries: nested_contents(self.entries),
            deleted_maps: set_contents(self.deleted_maps),
        }
    }
}

impl Default for NestedPending {
    fn default() -> (pending: Self)
        ensures
            pending@ == Overlay::empty(),
    {
        NestedPending { entries: nested_new(), deleted_maps: set_new() }
    }
}

impl NestedPending {
    /// Records one nested log operation at `index`.
    pub fn apply(&mut self, map: u64, key: Option<u64>, index: usize)
        ensures
            final(self)@ == old(self)@.apply(map, key, index),
    {
        match key {
            Some(key) => {
                let bytes = serialize_key(key);
                nested_insert(&mut self.entries, map, bytes, index);
            },
            None => {
                nested_retain_other_maps(&mut self.entries, map);
                set_insert(&mut self.deleted_maps, map);
            },
        }
    }

    /// Rebuilds the overlay from an ordered nested write log.
    pub fn rebuild<V>(log: &[(u64, Option<u64>, Option<V>)]) -> (pending: NestedPending)
        ensures
            pending@ == overlay(log@),
    {
        let mut pending = NestedPending::default();
        let mut i: usize = 0;
        proof {
            assert(log@.take(0) =~= Seq::empty());
        }
        while i < log.len()
            invariant
                i <= log@.len(),
                pending@ == overlay(log@.take(i as int)),
            decreases log@.len() - i,
        {
            proof {
                assert(log@.take(i + 1).drop_last() =~= log@.take(i as int));
                assert(log@.take(i + 1).last() == log@[i as int]);
            }
            pending.apply(log[i].0, log[i].1, i);
            i = i + 1;
        }
        proof {
            assert(log@.take(log@.len() as int) =~= log@);
        }
        pending
    }

    /// Returns the pending value for `key` in `map`, using the same `Option<Option<V>>` meaning as
    /// a reverse scan of the write log.
    pub fn get<V: Clone>(
        &self,
        log: &[(u64, Option<u64>, Option<V>)],
        map: u64,
        key: u64,
    ) -> (found: Option<Option<V>>)
        ensures
            found_copy(self@.find(log@, map, key), found),
            self@ == overlay(log@) ==> found_copy(nested_scan(log@, map, key), found),
    {
        proof {
            assert(log@.len() <= usize::MAX) by {
                assert(log@.len() == log.len());
            }
            law_overlay_agrees_with_scan(log@, map, key);
        }
        let bytes = serialize_key(key);
        match nested_get(&self.entries, map, bytes) {
            Some(index) => if index < log.len() {
                Some(log[index].2.clone())
            } else {
                None
            },
            None => if set_contains(&self.deleted_maps, map) {
                Some(None)
            } else {
                None
            },
        }
    }

    /// Returns `true` when the overlay has no pending entries or map deletes.
    pub fn is_empty(&self) -> (empty: bool)
        ensures
            empty == (self@ == Overlay::empty()),
    {
        nested_is_empty(&self.entries) && set_is_empty(&self.deleted_maps)
    }

    /// Clears the overlay.
    pub fn clear(&mut self)
        ensures
            final(self)@ == Overlay::empty(),
    {
        self.entries = nested_new();
        self.deleted_maps = set_new();
    }
}

/// A log in which no operation gives a value without a key.
pub open spec fn valid_log<V>(log: Seq<(u64, Option<u64>, Option<V>)>) -> bool {
    forall|i: int|
        0 <= i < log.len() ==> (#[trigger] log[i]).1 is None ==> log[i].2 is None
}

/// Nested write log and overlay of one nested map.
pub struct NestedBatch<V> {
    pub log: Vec<(u64, Option<u64>, Option<V>)>,
    pub pending: NestedPending,
}

impl<V> NestedBatch<V> {
    /// The batch's invariant: the overlay is the overlay of the log, and the log is valid.
    pub open spec fn wf(&self) -> bool {
        &&& self.pending@ == overlay(self.log@)
        &&& valid_log(self.log@)
    }
}

impl<V> Default for NestedBatch<V> {
    fn default() -> (batch: Self)
        ensures
            batch.wf(),
            batch.log@ == Seq::<(u64, Option<u64>, Option<V>)>::empty(),
    {
        NestedBatch { log: Vec::new(), pending: NestedPending::default() }
    }
}

impl<V> NestedBatch<V> {
    /// Returns `true` when no operation was recorded.
    pub fn is_empty(&self) -> (empty: bool)
        requires
            self.wf(),
        ensures
            empty == (self.log@.len() == 0),
    {
        proof {
            lemma_overlay_empty(self.log@);
        }
        self.log.len() == 0 && self.pending.is_empty()
    }

    /// Forgets all operations.
    pub fn clear(&mut self)
        ensures
            final(self).wf(),
            final(self).log@ == Seq::<(u64, Option<u64>, Option<V>)>::empty(),
    {
        self.log.clear();
        self.pending.clear();
    }

    /// Records an operation on `map`: with a key, a write of `value` to it (`None` is a removal);
    /// without a key, the removal of the whole map. A value without a key is not an operation.
    pub fn push(&mut self, map: u64, key: Option<u64>, value: Option<V>)
        requires
            old(self).wf(),
            key is None ==> value is None,
        ensures
            final(self).wf(),
            final(self).log@ == old(self).log@.push((map, key, value)),
    {
        self.pending.apply(map, key, self.log.len());
        self.log.push((map, key, value));
        proof {
            assert(self.log@.drop_last() =~= old(self).log@);
        }
    }

    /// Undoes all operations from the `checkpoint`-th on.
    pub fn rewind(&mut self, checkpoint: usize)
        requires
            old(self).wf(),
        ensures
            final(self).wf(),
            final(self).log@ == (if checkpoint <= old(self).log@.len() {
                old(self).log@.take(checkpoint as int)
            } else {
                old(self).log@
            }),
    {
        self.log.truncate(checkpoint);
        self.pending = NestedPending::rebuild(self.log.as_slice());
    }

    /// Returns the write log and leaves the batch empty.
    pub fn take_log(&mut self) -> (log: Vec<(u64, Option<u64>, Option<V>)>)
        ensures
            log@ == old(self).log@,
            final(self).wf(),
            final(self).log@ == Seq::<(u64, Option<u64>, Option<V>)>::empty(),
    {
        self.pending.clear();
        let mut log: Vec<(u64, Option<u64>, Option<V>)> = Vec::new();
        core::mem::swap(&mut log, &mut self.log);
        log
    }
}

impl<V: Clone> NestedBatch<V> {
    /// Returns what a reverse scan of the write log finds for `key` in `map`.
    pub fn get(&self, map: u64, key: u64) -> (found: Option<Option<V>>)
        requires
            self.wf(),
        ensures
            found_copy(nested_scan(self.log@, map, key), found),
    {
        self.pending.get(self.log.as_slice(), map, key)
    }
}

/// `true` when `entries` holds `key`.
pub open spec fn holds<V>(entries: Seq<(u64, V)>, key: u64) -> bool {
    exists|i: int| 0 <= i < entries.len() && (#[trigger] entries[i]).0 == key
}

/// The first place of `key` in `entries`; meaningful when the key is there.
pub open spec fn first_place<V>(entries: Seq<(u64, V)>, key: u64) -> int
    decreases entries.len(),
{
    if entries.len() == 0 || entries[0].0 == key {
        0
    } else {
        1 + first_place(entries.drop_first(), key)
    }
}

/// The value that `entries` gives to `key`: that of its first place.
pub open spec fn read<V>(entries: Seq<(u64, V)>, key: u64) -> Option<V> {
    if holds(entries, key) {
        Some(entries[first_place(entries, key)].1)
    } else {
        None
    }
}

/// `entries` after one operation on their map.
pub open spec fn apply_operation<V>(
    entries: Seq<(u64, V)>,
    key: Option<u64>,
    value: Option<V>,
) -> Seq<(u64, V)> {
    match (key, value) {
        (Some(k), Some(v)) => if holds(entries, k) {
            entries.update(first_place(entries, k), (k, v))
        } else {
            entries.push((k, v))
        },
        (Some(k), None) => entries.filter(|entry: (u64, V)| entry.0 != k),
        (None, _) => Seq::empty(),
    }
}

/// `entries` after all operations of a log on `map`, in order.
pub open spec fn apply_log<V>(
    entries: Seq<(u64, V)>,
    log: Seq<(u64, Option<u64>, Option<V>)>,
    map: u64,
) -> Seq<(u64, V)>
    decreases log.len(),
{
    if log.len() == 0 {
        entries
    } else {
        let before = apply_log(entries, log.drop_last(), map);
        if log.last().0 == map {
            apply_operation(before, log.last().1, log.last().2)
        } else {
            before
        }
    }
}

/// An operation as it is applied: one that writes a value to the map writes a clone of it, any other is
/// the one of the log.
pub open spec fn copied_operation<V: Clone>(
    operation: (u64, Option<u64>, Option<V>),
    map: u64,
    copy: (u64, Option<u64>, Option<V>),
) -> bool {
    match operation.2 {
        Some(value) if operation.0 == map => copy.0 == map && copy.1 == operation.1 && (copy.2 matches
            Some(written) && cloned(value, written)),
        _ => copy == operation,
    }
}

/// A log as it is applied to the entries of `map`.
pub open spec fn copied_log<V: Clone>(
    log: Seq<(u64, Option<u64>, Option<V>)>,
    map: u64,
    copies: Seq<(u64, Option<u64>, Option<V>)>,
) -> bool {
    &&& copies.len() == log.len()
    &&& forall|i: int|
        0 <= i < log.len() ==> copied_operation(log[i], map, #[trigger] copies[i])
}

/// The first place of a present key is in range, has the key, and no earlier place has it.
proof fn lemma_first_place<V>(entries: Seq<(u64, V)>, key: u64)
    requires
        holds(entries, key),
    ensures
        0 <= first_place(entries, key) < entries.len(),
        entries[first_place(entries, key)].0 == key,
        forall|j: int| 0 <= j < first_place(entries, key) ==> (#[trigger] entries[j]).0 != key,
    decreases entries.len(),
{
    if entries[0].0 != key {
        let rest = entries.drop_first();
        let i = choose|i: int| 0 <= i < entries.len() && (#[trigger] entries[i]).0 == key;
        assert(rest[i - 1] == entries[i]);
        lemma_first_place(rest, key);
        assert(rest[first_place(rest, key)] == entries[first_place(entries, key)]);
        assert forall|j: int| 0 <= j < first_place(entries, key) implies (
        #[trigger] entries[j]).0 != key by {
            if j > 0 {
                assert(entries[j] == rest[j - 1]);
            }
        }
    }
}

/// A place that has the key and that no earlier place with the key precedes is the first one.
proof fn lemma_is_first_place<V>(entries: Seq<(u64, V)>, key: u64, place: int)
    requires
        0 <= place < entries.len(),
        entries[place].0 == key,
        forall|j: int| 0 <= j < place ==> (#[trigger] entries[j]).0 != key,
    ensures
        holds(entries, key),
        first_place(entries, key) == place,
{
    assert(entries[place].0 == key);
    lemma_first_place(entries, key);
}

/// One operation gives its key its value, or none, and leaves what other keys read; the removal of
/// the map leaves nothing.
proof fn lemma_apply_operation<V>(
    entries: Seq<(u64, V)>,
    key: Option<u64>,
    value: Option<V>,
    other: u64,
)
    ensures
        read(apply_operation(entries, key, value), other) == (match key {
            Some(k) => if k == other {
                value
            } else {
                read(entries, other)
            },
            None => None,
        }),
{
    let next = apply_operation(entries, key, value);
    match (key, value) {
        (Some(k), Some(v)) => {
            if holds(entries, k) {
                let p = first_place(entries, k);
                lemma_first_place(entries, k);
                if k == other {
                    lemma_is_first_place(next, k, p);
                } else if holds(entries, other) {
                    lemma_first_place(entries, other);
                    let q = first_place(entries, other);
                    assert(next[q] == entries[q]);
                    lemma_is_first_place(next, other, q);
                } else if holds(next, other) {
                    let q = first_place(next, other);
                    lemma_first_place(next, other);
                    assert(next[q] == entries[q]);
                }
            } else {
                if k == other {
                    lemma_is_first_place(next, k, entries.len() as int);
                } else if holds(entries, other) {
                    lemma_first_place(entries, other);
                    let q = first_place(entries, other);
                    assert(next[q] == entries[q]);
                    lemma_is_first_place(next, other, q);
                } else if holds(next, other) {
                    let q = first_place(next, other);
                    lemma_first_place(next, other);
                    assert(next[q] == entries[q]);
                }
            }
        },
        (Some(k), None) => {
            lemma_filter_reads(entries, k, other);
        },
        (None, _) => {},
    }
}

/// Dropping all entries of one key leaves what the other keys read.
proof fn lemma_filter_reads<V>(entries: Seq<(u64, V)>, key: u64, other: u64)
    ensures
        read(entries.filter(|entry: (u64, V)| entry.0 != key), other) == (if key == other {
            None
        } else {
            read(entries, other)
        }),
    decreases entries.len(),
{
    reveal(Seq::filter);
    let keep = |entry: (u64, V)| entry.0 != key;
    let kept = entries.filter(keep);
    if entries.len() > 0 {
        let shorter = entries.drop_last();
        lemma_filter_reads(shorter, key, other);
        let shorter_kept = shorter.filter(keep);
        let last = entries.last();
        lemma_push_reads(shorter, last, other);
        assert(shorter.push(last) =~= entries);
        if keep(last) {
            assert(kept =~= shorter_kept.push(last));
            lemma_push_reads(shorter_kept, last, other);
        } else {
            assert(kept =~= shorter_kept);
        }
    }
}

/// What a key reads after one more entry was appended.
proof fn lemma_push_reads<V>(entries: Seq<(u64, V)>, last: (u64, V), key: u64)
    ensures
        read(entries.push(last), key) == (if holds(entries, key) {
            read(entries, key)
        } else if last.0 == key {
            Some(last.1)
        } else {
            None
        }),
{
    let next = entries.push(last);
    if holds(entries, key) {
        lemma_first_place(entries, key);
        let p = first_place(entries, key);
        assert(next[p] == entries[p]);
        lemma_is_first_place(next, key, p);
    } else if last.0 == key {
        lemma_is_first_place(next, key, entries.len() as int);
    } else if holds(next, key) {
        let p = first_place(next, key);
        lemma_first_place(next, key);
        assert(next[p] == entries[p]);
    }
}

/// Applying a pending log to the confirmed entries of a map and looking a key up in the log agree:
/// a key that the log settles reads as the log says, any other key reads as confirmed.
pub proof fn law_applied_log_agrees_with_scan<V>(
    entries: Seq<(u64, V)>,
    log: Seq<(u64, Option<u64>, Option<V>)>,
    map: u64,
    key: u64,
)
    ensures
        read(apply_log(entries, log, map), key) == (match nested_scan(log, map, key) {
            Some(pending) => pending,
            None => read(entries, key),
        }),
    decreases log.len(),
{
    if log.len() > 0 {
        law_applied_log_agrees_with_scan(entries, log.drop_last(), map, key);
        if log.last().0 == map {
            lemma_apply_operation(
                apply_log(entries, log.drop_last(), map),
                log.last().1,
                log.last().2,
                key,
            );
        }
    }
}

/// Operations on other maps do not matter: they can be dropped from a log.
pub proof fn law_other_maps_can_be_dropped<V>(
    entries: Seq<(u64, V)>,
    log: Seq<(u64, Option<u64>, Option<V>)>,
    map: u64,
)
    ensures
        apply_log(
            entries,
            log.filter(|operation: (u64, Option<u64>, Option<V>)| operation.0 == map),
            map,
        ) == apply_log(entries, log, map),
    decreases log.len(),
{
    reveal(Seq::filter);
    let on_map = |operation: (u64, Option<u64>, Option<V>)| operation.0 == map;
    if log.len() > 0 {
        let shorter = log.drop_last();
        law_other_maps_can_be_dropped(entries, shorter, map);
        if on_map(log.last()) {
            assert(log.filter(on_map).drop_last() =~= shorter.filter(on_map));
        }
    }
}

/// A log without an operation on a map leaves the entries of the map as they are.
pub proof fn law_log_without_map_changes_nothing<V>(
    entries: Seq<(u64, V)>,
    log: Seq<(u64, Option<u64>, Option<V>)>,
    map: u64,
)
    requires
        forall|i: int| 0 <= i < log.len() ==> (#[trigger] log[i]).0 != map,
    ensures
        apply_log(entries, log, map) == entries,
    decreases log.len(),
{
    if log.len() > 0 {
        assert(log[log.len() - 1].0 != map);
        assert forall|i: int| 0 <= i < log.drop_last().len() implies (
        #[trigger] log.drop_last()[i]).0 != map by {
            assert(log.drop_last()[i] == log[i]);
        }
        law_log_without_map_changes_nothing(entries, log.drop_last(), map);
    }
}

/// A log can be applied in parts, one after the other; an empty one changes nothing.
pub proof fn law_log_applies_in_parts<V>(
    entries: Seq<(u64, V)>,
    log: Seq<(u64, Option<u64>, Option<V>)>,
    later: Seq<(u64, Option<u64>, Option<V>)>,
    map: u64,
)
    ensures
        apply_log(entries, log + later, map) == apply_log(
            apply_log(entries, log, map),
            later,
            map,
        ),
        apply_log(entries, Seq::empty(), map) == entries,
    decreases later.len(),
{
    if later.len() > 0 {
        law_log_applies_in_parts(entries, log, later.drop_last(), map);
        assert((log + later).drop_last() =~= log + later.drop_last());
        assert((log + later).last() == later.last());
    } else {
        assert(log + later =~= log);
    }
}

/// Dropping the operations on other maps from a log leaves what applying it gives: the operations that
/// remain are applied as they were.
pub proof fn law_log_is_applied_alike_without_other_maps<V: Clone>(
    entries: Seq<(u64, V)>,
    log: Seq<(u64, Option<u64>, Option<V>)>,
    map: u64,
    copies: Seq<(u64, Option<u64>, Option<V>)>,
)
    requires
        copied_log(log, map, copies),
    ensures
        ({
            let on_map = |operation: (u64, Option<u64>, Option<V>)| operation.0 == map;
            &&& copied_log(log.filter(on_map), map, copies.filter(on_map))
            &&& apply_log(entries, copies.filter(on_map), map) == apply_log(entries, copies, map)
        }),
    decreases log.len(),
{
    let on_map = |operation: (u64, Option<u64>, Option<V>)| operation.0 == map;
    reveal(Seq::filter);
    law_other_maps_can_be_dropped(entries, copies, map);
    if log.len() > 0 {
        let (shorter, shorter_copies) = (log.drop_last(), copies.drop_last());
        assert forall|i: int| 0 <= i < shorter.len() implies copied_operation(
            shorter[i],
            map,
            #[trigger] shorter_copies[i],
        ) by {
            assert(shorter_copies[i] == copies[i]);
        }
        law_log_is_applied_alike_without_other_maps(entries, shorter, map, shorter_copies);
        assert(copied_operation(log[log.len() - 1], map, copies[log.len() - 1]));
        let (before, before_copies) = (shorter.filter(on_map), shorter_copies.filter(on_map));
        let (now, now_copies) = (log.filter(on_map), copies.filter(on_map));
        assert forall|i: int| 0 <= i < now.len() implies copied_operation(
            now[i],
            map,
            #[trigger] now_copies[i],
        ) by {
            if i < before.len() {
                assert(now[i] == before[i]);
                assert(now_copies[i] == before_copies[i]);
            }
        }
    }
}

/// Applying two logs one after the other is applying the one followed by the other.
pub proof fn law_logs_are_applied_in_turn<V: Clone>(
    entries: Seq<(u64, V)>,
    log: Seq<(u64, Option<u64>, Option<V>)>,
    copies: Seq<(u64, Option<u64>, Option<V>)>,
    later: Seq<(u64, Option<u64>, Option<V>)>,
    later_copies: Seq<(u64, Option<u64>, Option<V>)>,
    map: u64,
)
    requires
        copied_log(log, map, copies),
        copied_log(later, map, later_copies),
    ensures
        copied_log(log + later, map, copies + later_copies),
        apply_log(entries, copies + later_copies, map) == apply_log(
            apply_log(entries, copies, map),
            later_copies,
            map,
        ),
{
    law_log_applies_in_parts(entries, copies, later_copies, map);
    let (all, all_copies) = (log + later, copies + later_copies);
    assert forall|i: int| 0 <= i < all.len() implies copied_operation(
        all[i],
        map,
        #[trigger] all_copies[i],
    ) by {
        if i < log.len() {
            assert(all_copies[i] == copies[i]);
        } else {
            assert(all_copies[i] == later_copies[i - log.len()]);
        }
    }
}

/// Where a clone is what was cloned, a log is applied as it is.
pub proof fn law_faithful_clones_apply_the_log<V: Clone>(
    log: Seq<(u64, Option<u64>, Option<V>)>,
    map: u64,
    copies: Seq<(u64, Option<u64>, Option<V>)>,
)
    requires
        forall|value: V, clone: V| #[trigger] cloned(value, clone) ==> value == clone,
        copied_log(log, map, copies),
    ensures
        copies == log,
{
    assert forall|i: int| 0 <= i < log.len() implies log[i] == copies[i] by {
        assert(copied_operation(log[i], map, copies[i]));
    }
    assert(copies =~= log);
}

/// The log as it is applied settles the keys of the map as the log does, with clones for the values.
pub proof fn law_copied_log_scans_as_log<V: Clone>(
    log: Seq<(u64, Option<u64>, Option<V>)>,
    map: u64,
    copies: Seq<(u64, Option<u64>, Option<V>)>,
    key: u64,
)
    requires
        copied_log(log, map, copies),
        valid_log(log),
    ensures
        match nested_scan(log, map, key) {
            Some(Some(value)) => nested_scan(copies, map, key) matches Some(Some(written)) && cloned(
                value,
                written,
            ),
            other => nested_scan(copies, map, key) == other,
        },
    decreases log.len(),
{
    if log.len() > 0 {
        let (shorter, shorter_copies) = (log.drop_last(), copies.drop_last());
        assert(copied_operation(log[log.len() - 1], map, copies[log.len() - 1]));
        assert forall|i: int| 0 <= i < shorter.len() implies copied_operation(
            shorter[i],
            map,
            #[trigger] shorter_copies[i],
        ) by {
            assert(shorter_copies[i] == copies[i]);
        }
        assert(valid_log(shorter)) by {
            assert forall|i: int|
                0 <= i < shorter.len() && (#[trigger] shorter[i]).1 is None implies shorter[i].2
                is None by {
                assert(shorter[i] == log[i]);
            }
        }
        law_copied_log_scans_as_log(shorter, map, shorter_copies, key);
    }
}

/// Returns the first place of `key`.
fn find_key<V>(entries: &Vec<(u64, V)>, key: u64) -> (place: Option<usize>)
    ensures
        match place {
            Some(i) => holds(entries@, key) && i == first_place(entries@, key) && i < entries@.len(),
            None => !holds(entries@, key),
        },
{
    let mut i: usize = 0;
    while i < entries.len()
        invariant
            i <= entries@.len(),
            forall|j: int| 0 <= j < i ==> (#[trigger] entries@[j]).0 != key,
        decreases entries@.len() - i,
    {
        if entries[i].0 == key {
            proof {
                lemma_is_first_place(entries@, key, i as int);
            }
            return Some(i);
        }
        i = i + 1;
    }
    None
}

/// Drops all entries of `key`, keeping the order of the others.
fn drop_key<V>(entries: &mut Vec<(u64, V)>, key: u64)
    ensures
        final(entries)@ == old(entries)@.filter(|entry: (u64, V)| entry.0 != key),
{
    let ghost before = entries@;
    let ghost keep = |entry: (u64, V)| entry.0 != key;
    let mut rest: Vec<(u64, V)> = Vec::new();
    core::mem::swap(&mut rest, entries);
    let mut kept: Vec<(u64, V)> = Vec::new();
    proof {
        reveal(Seq::filter);
        assert(before.take(0).filter(keep) =~= Seq::empty());
    }
    for entry in iter: rest
        invariant
            iter.seq() == before,
            keep == (|entry: (u64, V)| entry.0 != key),
            kept@ == before.take(iter.index() as int).filter(keep),
    {
        proof {
            reveal(Seq::filter);
            let i = iter.index() as int;
            assert(before.take(i + 1).drop_last() =~= before.take(i));
            assert(before.take(i + 1).last() == before[i]);
        }
        if entry.0 != key {
            kept.push(entry);
        }
    }
    proof {
        assert(before.take(before.len() as int) =~= before);
    }
    *entries = kept;
}

/// Applies an ordered nested write log to confirmed `key_values` for `map`. The values that it writes
/// are clones of those in the log; the values that it does not write stay.
pub fn apply_nested_log<V: Clone>(
    key_values: &mut Vec<(u64, V)>,
    log: &[(u64, Option<u64>, Option<V>)],
    map: u64,
)
    requires
        forall|i: int|
            0 <= i < log@.len() && (#[trigger] log@[i]).0 == map && log@[i].1 is None
                ==> log@[i].2 is None,
    ensures
        exists|copies: Seq<(u64, Option<u64>, Option<V>)>| #[trigger]
            copied_log(log@, map, copies) && final(key_values)@ == apply_log(
                old(key_values)@,
                copies,
                map,
            ),
{
    let ghost confirmed = key_values@;
    let ghost mut copies: Seq<(u64, Option<u64>, Option<V>)> = Seq::empty();
    let mut i: usize = 0;
    while i < log.len()
        invariant
            forall|i: int|
                0 <= i < log@.len() && (#[trigger] log@[i]).0 == map && log@[i].1 is None
                    ==> log@[i].2 is None,
            i <= log@.len(),
            copied_log(log@.take(i as int), map, copies),
            key_values@ == apply_log(confirmed, copies, map),
        decreases log@.len() - i,
    {
        let ghost before = copies;
        let ghost operation = log@[i as int];
        let ghost mut copy = operation;
        if log[i].0 == map {
            match (&log[i].1, &log[i].2) {
                (Some(k), Some(v)) => {
                    let value = v.clone();
                    proof {
                        copy = (map, operation.1, Some(value));
                    }
                    match find_key(key_values, *k) {
                        Some(place) => {
                            key_values.set(place, (*k, value));
                        },
                        None => {
                            key_values.push((*k, value));
                        },
                    }
                },
                (Some(k), None) => {
                    drop_key(key_values, *k);
                },
                (None, _) => {
                    key_values.clear();
                },
            }
        }
        i = i + 1;
        proof {
            copies = before.push(copy);
            assert(copies.drop_last() =~= before);
            assert forall|j: int| 0 <= j < i implies copied_operation(
                log@.take(i as int)[j],
                map,
                #[trigger] copies[j],
            ) by {
                if j < i - 1 {
                    assert(copies[j] == before[j]);
                    assert(log@.take(i - 1)[j] == log@[j]);
                }
            }
        }
    }
    proof {
        assert(log@.take(log@.len() as int) =~= log@);
        assert(copied_log(log@, map, copies));
    }
}

/// A lookup finds nothing exactly when the key was never written and its map never removed.
pub proof fn law_untouched_keys_are_not_found<V>(
    log: Seq<(u64, Option<u64>, Option<V>)>,
    map: u64,
    key: u64,
)
    ensures
        nested_scan(log, map, key) is None <==> forall|i: int|
            0 <= i < log.len() && (#[trigger] log[i]).0 == map ==> log[i].1 is Some && log[i].1
                != Some(key),
    decreases log.len(),
{
    if log.len() > 0 {
        let shorter = log.drop_last();
        law_untouched_keys_are_not_found(shorter, map, key);
        assert(log[log.len() - 1] == log.last());
        assert forall|i: int| 0 <= i < shorter.len() implies shorter[i] == #[trigger] log[i] by {}
        if forall|i: int|
            0 <= i < log.len() && (#[trigger] log[i]).0 == map ==> log[i].1 is Some && log[i].1
                != Some(key) {
            assert forall|i: int| 0 <= i < shorter.len() && (#[trigger] shorter[i]).0 == map implies
                shorter[i].1 is Some && shorter[i].1 != Some(key) by {
                assert(shorter[i] == log[i]);
            }
        }
    }
}

} // verus!
