//! Ownership of an in-progress atomic batch by the thread that started it.
//!
//! Each thread has a slot that holds its key once one was handed out, and all threads draw their
//! keys from one counter. The owner of a batch is the key of the thread that started it; zero
//! stands for "no owner" and for "no key yet".

use vstd::prelude::*;

verus! {

/// The counter from which threads draw their keys.
pub struct ThreadKeys {
    pub next: u64,
}

/// The value of the counter after one draw.
pub open spec fn after_draw(next: u64) -> u64 {
    if next == u64::MAX {
        0
    } else {
        (next + 1) as u64
    }
}

/// The key that a thread without one is handed when the counter stands at `next`: the counter
/// itself, but for the reserved zero, which is skipped.
pub open spec fn fresh_key(next: u64) -> u64 {
    if next == 0 {
        1
    } else {
        next
    }
}

/// The counter after a key was handed out.
pub open spec fn after_fresh_key(next: u64) -> u64 {
    after_draw(fresh_key(next))
}

/// The key of a thread whose slot holds `slot`, when the counter stands at `next`.
pub open spec fn thread_key(next: u64, slot: u64) -> u64 {
    if slot == 0 {
        fresh_key(next)
    } else {
        slot
    }
}

/// Two threads never share a key: a key handed out while the counter has not wrapped around since
/// an earlier one was handed out differs from it.
pub proof fn law_keys_of_threads_differ(earlier: u64, later: u64)
    requires
        earlier < u64::MAX,
        after_fresh_key(earlier) <= later,
    ensures
        fresh_key(earlier) != fresh_key(later),
        fresh_key(earlier) != 0,
        fresh_key(later) != 0,
{
}

impl ThreadKeys {
    /// Returns a counter from which no key was drawn.
    pub fn new() -> (keys: ThreadKeys)
        ensures
            keys.next == 1,
    {
        ThreadKeys { next: 1 }
    }

    /// Returns the counter's value and advances it, wrapping around at the end.
    fn draw(&mut self) -> (value: u64)
        ensures
            value == old(self).next,
            final(self).next == after_draw(old(self).next),
    {
        let value = self.next;
        self.next = if value == u64::MAX {
            0
        } else {
            value + 1
        };
        value
    }

    /// Returns a stable nonzero identifier for the thread whose slot is given.
    pub fn current_thread_key(&mut self, slot: &mut u64) -> (key: u64)
        ensures
            key != 0,
            key == thread_key(old(self).next, *old(slot)),
            *final(slot) == key,
            final(self).next == (if *old(slot) == 0 {
                after_fresh_key(old(self).next)
            } else {
                old(self).next
            }),
    {
        let mut key = *slot;
        if key == 0 {
            key = self.draw();
            // Zero is reserved for "no owner".
            if key == 0 {
                key = self.draw();
            }
            *slot = key;
        }
        key
    }
}

/// Records that the thread whose slot is given owns the in-progress atomic batch.
pub fn claim(owner: &mut u64, keys: &mut ThreadKeys, slot: &mut u64)
    ensures
        *final(owner) == thread_key(old(keys).next, *old(slot)),
        *final(owner) != 0,
        *final(slot) == *final(owner),
        final(keys).next == (if *old(slot) == 0 {
            after_fresh_key(old(keys).next)
        } else {
            old(keys).next
        }),
{
    *owner = keys.current_thread_key(slot);
}

/// Clears atomic-batch ownership.
pub fn release(owner: &mut u64)
    ensures
        *final(owner) == 0,
{
    *owner = 0;
}

/// The thread with key `key` started the batch that `owner` owns, and the batch is in progress.
pub open spec fn consults(batch_in_progress: bool, owner: u64, key: u64) -> bool {
    batch_in_progress && owner != 0 && owner == key
}

/// Returns `true` when the thread whose slot is given started the in-progress atomic batch. Other
/// threads observe confirmed state instead of the pending batch.
pub fn consults_atomic_batch(
    batch_in_progress: bool,
    owner: u64,
    keys: &mut ThreadKeys,
    slot: &mut u64,
) -> (is_owner: bool)
    ensures
        is_owner == consults(batch_in_progress, owner, thread_key(old(keys).next, *old(slot))),
        // A key is handed out only when there is an owner to compare it with.
        (batch_in_progress && owner != 0) ==> *final(slot) == thread_key(
            old(keys).next,
            *old(slot),
        ) && final(keys).next == (if *old(slot) == 0 {
            after_fresh_key(old(keys).next)
        } else {
            old(keys).next
        }),
        !(batch_in_progress && owner != 0) ==> *final(slot) == *old(slot) && final(keys).next
            == old(keys).next,
{
    if !batch_in_progress {
        return false;
    }
    owner != 0 && owner == keys.current_thread_key(slot)
}

/// While a batch is in progress, the thread that claimed it consults it and every thread with
/// another key does not; once it was released, no thread does.
pub proof fn law_only_the_owner_consults(owner_key: u64, other_key: u64)
    requires
        owner_key != 0,
    ensures
        consults(true, owner_key, owner_key),
        other_key != owner_key ==> !consults(true, owner_key, other_key),
        !consults(true, 0, owner_key),
        !consults(true, 0, other_key),
        !consults(false, owner_key, owner_key),
{
}

/// A thread keeps the key that it was handed, however far the counter has come since.
pub proof fn law_thread_keeps_its_key(next: u64, later: u64, slot: u64)
    ensures
        thread_key(next, slot) != 0,
        slot != 0 ==> thread_key(next, slot) == slot,
        thread_key(later, thread_key(next, slot)) == thread_key(next, slot),
{
}

/// A key that is handed out has been passed by the counter, so that it is not handed out again until
/// the counter starts over; and the counter never stands still.
pub proof fn law_counter_passes_the_keys(next: u64)
    ensures
        fresh_key(next) >= next,
        fresh_key(next) < u64::MAX ==> after_fresh_key(next) == fresh_key(next) + 1,
        fresh_key(next) == u64::MAX ==> after_fresh_key(next) == 0,
        after_fresh_key(next) != next,
{
}

} // verus!
