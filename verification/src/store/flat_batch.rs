//! Coalesced latest-value index for in-progress atomic batches of a key-value map.
//!
//! The write log is the source of truth for checkpoints and rewind. The overlay maps each key to
//! its latest index in the log; it is rebuilt from the log on rewind and updated on insert.

use crate::id_map::{lemma_put, put, value_of, IdMap};
use vstd::prelude::*;

verus! {

/// The index of the latest write to `key` in an ordered write log.
pub open spec fn latest_write<V>(log: Seq<(u64, Option<V>)>, key: u64) -> Option<int>
    decreases log.len(),
{
    if log.len() == 0 {
        None
    } else if log.last().0 == key {
        Some(log.len() - 1)
    } else {
        latest_write(log.drop_last(), key)
    }
}

/// What a reverse scan of the write log finds for `key`: nothing, a removal, or a value.
pub open spec fn scan<V>(log: Seq<(u64, Option<V>)>, key: u64) -> Option<Option<V>> {
    match latest_write(log, key) {
        Some(i) => Some(log[i].1),
        None => None,
    }
}

/// The overlay of an ordered write log: each key with the index of its latest write, in the order
/// in which the keys were first written.
pub open spec fn flat_index<V>(log: Seq<(u64, Option<V>)>) -> Seq<(u64, u64)>
    decreases log.len(),
{
    if log.len() == 0 {
        Seq::empty()
    } else {
        put(flat_index(log.drop_last()), log.last().0, (log.len() - 1) as u64)
    }
}

/// `copy` is what cloning `stored` may return.
pub open spec fn copied<V: Clone>(stored: Option<V>, copy: Option<V>) -> bool {
    match (stored, copy) {
        (Some(a), Some(b)) => cloned(a, b),
        (None, None) => true,
        _ => false,
    }
}

/// `found` is a copy of what was looked for, present or absent.
pub open spec fn found_copy<V: Clone>(sought: Option<Option<V>>, found: Option<Option<V>>) -> bool {
    match (sought, found) {
        (Some(a), Some(b)) => copied(a, b),
        (None, None) => true,
        _ => false,
    }
}

/// The latest write is a write to the key, and no later entry writes to it.
pub proof fn lemma_latest_write<V>(log: Seq<(u64, Option<V>)>, key: u64)
    ensures
        match latest_write(log, key) {
            Some(i) => 0 <= i < log.len() && log[i].0 == key && forall|j: int|
                i < j < log.len() ==> (#[trigger] log[j]).0 != key,
            None => forall|j: int| 0 <= j < log.len() ==> (#[trigger] log[j]).0 != key,
        },
    decreases log.len(),
{
    if log.len() > 0 && log.last().0 != key {
        let shorter = log.drop_last();
        lemma_latest_write(shorter, key);
        assert forall|j: int| 0 <= j < log.len() - 1 implies #[trigger] log[j] == shorter[j] by {}
    }
}

/// The overlay of a log holds the index of the latest write of every key, and nothing else.
pub proof fn lemma_flat_index<V>(log: Seq<(u64, Option<V>)>)
    requires
        log.len() <= u64::MAX,
    ensures
        crate::id_map::distinct_keys(flat_index(log)),
        forall|key: u64| #[trigger]
            value_of(flat_index(log), key) == (match latest_write(log, key) {
                Some(i) => Some(i as u64),
                None => None,
            }),
    decreases log.len(),
{
    if log.len() > 0 {
        lemma_flat_index(log.drop_last());
        lemma_put(flat_index(log.drop_last()), log.last().0, (log.len() - 1) as u64);
    }
}

/// Rewinding to a checkpoint undoes exactly the writes made since: cutting the longer log back to
/// the checkpoint gives the log as it stood there, and with it the overlay as it stood there.
pub proof fn law_rewind_undoes_writes<V>(log: Seq<(u64, Option<V>)>, later: Seq<(u64, Option<V>)>)
    ensures
        (log + later).take(log.len() as int) == log,
        flat_index((log + later).take(log.len() as int)) == flat_index(log),
        forall|key: u64| #[trigger]
            scan((log + later).take(log.len() as int), key) == scan(log, key),
{
    assert((log + later).take(log.len() as int) =~= log);
}

/// A write is what the next lookup of its key finds, and the lookup of every other key finds what
/// it found before.
pub proof fn law_latest_write_wins<V>(log: Seq<(u64, Option<V>)>, key: u64, value: Option<V>)
    ensures
        scan(log.push((key, value)), key) == Some(value),
        forall|other: u64|
            other != key ==> #[trigger] scan(log.push((key, value)), other) == scan(log, other),
{
    let longer = log.push((key, value));
    assert(longer.drop_last() =~= log);
    assert forall|other: u64| other != key implies #[trigger] scan(longer, other) == scan(
        log,
        other,
    ) by {
        lemma_latest_write(log, other);
    }
}

/// Rebuilds the latest pending log index per key from an ordered write log.
pub fn rebuild_flat<V>(log: &[(u64, Option<V>)]) -> (pending: IdMap)
    ensures
        pending.wf(),
        pending@ == flat_index(log@),
{
    let mut pending = IdMap::new();
    let mut i: usize = 0;
    proof {
        assert(log@.take(0) =~= Seq::empty());
    }
    while i < log.len()
        invariant
            i <= log@.len(),
            pending.wf(),
            pending@ == flat_index(log@.take(i as int)),
        decreases log@.len() - i,
    {
        proof {
            assert(log@.take(i + 1).drop_last() =~= log@.take(i as int));
            assert(log@.take(i + 1).last() == log@[i as int]);
        }
        pending.insert(log[i].0, i as u64);
        i = i + 1;
    }
    proof {
        assert(log@.take(log@.len() as int) =~= log@);
    }
    pending
}

/// Returns the pending value for `key`, using the latest log index in `pending`.
pub fn get_flat<V: Clone>(log: &[(u64, Option<V>)], pending: &IdMap, key: u64) -> (found: Option<
    Option<V>,
>)
    requires
        pending.wf(),
    ensures
        match value_of(pending@, key) {
            Some(i) => found_copy(
                if i < log@.len() {
                    Some(log@[i as int].1)
                } else {
                    None
                },
                found,
            ),
            None => found is None,
        },
{
    match pending.get(key) {
        Some(i) => if i < log.len() as u64 {
            Some(log[i as usize].1.clone())
        } else {
            None
        },
        None => None,
    }
}

/// Write log and latest-index overlay of one key-value map.
pub struct FlatBatch<V> {
    pub log: Vec<(u64, Option<V>)>,
    pub pending: IdMap,
}

impl<V> FlatBatch<V> {
    /// The batch's invariant: the overlay is the overlay of the log.
    pub open spec fn wf(&self) -> bool {
        &&& self.pending.wf()
        &&& self.pending@ == flat_index(self.log@)
    }
}

impl<V> Default for FlatBatch<V> {
    fn default() -> (batch: Self)
        ensures
            batch.wf(),
            batch.log@ == Seq::<(u64, Option<V>)>::empty(),
    {
        FlatBatch { log: Vec::new(), pending: IdMap::new() }
    }
}

impl<V> FlatBatch<V> {
    /// Returns `true` when nothing was written.
    pub fn is_empty(&self) -> (empty: bool)
        ensures
            empty == (self.log@.len() == 0),
    {
        self.log.len() == 0
    }

    /// Forgets all writes.
    pub fn clear(&mut self)
        ensures
            final(self).wf(),
            final(self).log@ == Seq::<(u64, Option<V>)>::empty(),
    {
        self.log.clear();
        self.pending.clear();
    }

    /// Records a write of `value` to `key`; `None` is a removal.
    pub fn push(&mut self, key: u64, value: Option<V>)
        requires
            old(self).wf(),
        ensures
            final(self).wf(),
            final(self).log@ == old(self).log@.push((key, value)),
            scan(final(self).log@, key) == Some(value),
    {
        let index = self.log.len();
        self.pending.insert(key, index as u64);
        self.log.push((key, value));
        proof {
            assert(self.log@.drop_last() =~= old(self).log@);
        }
    }

    /// Undoes all writes from the `checkpoint`-th on.
    pub fn rewind(&mut self, checkpoint: usize)
        ensures
            final(self).wf(),
            final(self).log@ == (if checkpoint <= old(self).log@.len() {
                old(self).log@.take(checkpoint as int)
            } else {
                old(self).log@
            }),
    {
        self.log.truncate(checkpoint);
        self.pending = rebuild_flat(self.log.as_slice());
    }

    /// Returns the write log and leaves the batch empty.
    pub fn take_log(&mut self) -> (log: Vec<(u64, Option<V>)>)
        ensures
            log@ == old(self).log@,
            final(self).wf(),
            final(self).log@ == Seq::<(u64, Option<V>)>::empty(),
    {
        self.pending.clear();
        let mut log: Vec<(u64, Option<V>)> = Vec::new();
        core::mem::swap(&mut log, &mut self.log);
        log
    }
}

impl<V: Clone> FlatBatch<V> {
    /// Returns what a reverse scan of the write log finds for `key`: `None` when the key was not
    /// written, `Some(None)` when its latest write is a removal, else its latest value.
    pub fn get(&self, key: u64) -> (found: Option<Option<V>>)
        requires
            self.wf(),
        ensures
            found_copy(scan(self.log@, key), found),
    {
        proof {
            assert(self.log@.len() <= u64::MAX) by {
                assert(self.log@.len() == self.log.len());
            }
            lemma_flat_index(self.log@);
            lemma_latest_write(self.log@, key);
        }
        get_flat(self.log.as_slice(), &self.pending, key)
    }
}

/// A lookup finds nothing exactly when the key was never written.
pub proof fn law_unwritten_keys_are_not_found<V>(log: Seq<(u64, Option<V>)>, key: u64)
    ensures
        scan(log, key) is None <==> forall|i: int|
            0 <= i < log.len() ==> (#[trigger] log[i]).0 != key,
{
    lemma_latest_write(log, key);
}

/// A lookup finds the value of a write after which the key was not written again.
pub proof fn law_last_write_is_found<V>(log: Seq<(u64, Option<V>)>, i: int)
    requires
        0 <= i < log.len(),
        forall|j: int| i < j < log.len() ==> (#[trigger] log[j]).0 != log[i].0,
    ensures
        scan(log, log[i].0) == Some(log[i].1),
{
    lemma_latest_write(log, log[i].0);
}

/// A copy of what was looked for is that itself, for values whose clones are equal to them.
pub proof fn law_faithful_copies_are_what_was_sought<V: Clone>(
    sought: Option<Option<V>>,
    found: Option<Option<V>>,
)
    requires
        found_copy(sought, found),
        forall|a: V, b: V| #[trigger] cloned(a, b) ==> a == b,
    ensures
        found == sought,
{
}

} // verus!
