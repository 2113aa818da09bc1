//! What a construct-path speculate leaves, so that check can skip a second dry-run and add can
//! finish the pending finalize batch instead of replaying it.

use crate::id_map::IdMap;
use crate::process::stacks::{keyed_by_program, Process};
use crate::vm::VM;
use std::collections::HashMap;
use vstd::prelude::*;

verus! {

/// Identifies one construct-path speculate so hash binding cannot attach to a later candidate.
#[derive(Copy, Clone, Debug, PartialEq, Eq, Structural)]
pub struct SpeculationId(u64);

impl SpeculationId {
    /// The number of the id.
    pub closed spec fn number(self) -> u64 {
        self.0
    }

    /// The id with the given number.
    pub closed spec fn of(number: u64) -> SpeculationId {
        SpeculationId(number)
    }
}

/// Ids are equal when their numbers are.
pub proof fn lemma_ids(number: u64, other: u64)
    ensures
        SpeculationId::of(number).number() == number,
        SpeculationId::of(number) == SpeculationId::of(other) <==> number == other,
{
    assert(SpeculationId::of(number).0 == number && SpeculationId::of(other).0 == other);
}

/// State retained after a successful construct-path speculate.
pub struct SelfConstructed {
    /// Opaque id of this speculate, used to bind and take the matching entry.
    pub id: SpeculationId,
    /// Set after the candidate block is built.
    pub hash: Option<u64>,
    /// Finalize operations from the construct-path speculate, used to verify the block.
    pub finalize_operations: Vec<u64>,
    /// Staged stacks parked off the process so the mempool does not observe uncommitted programs.
    pub parked_stacks: IdMap,
    /// Rejection reasons recorded by this speculate, by transaction ID.
    pub rejected_reasons: HashMap<u64, u64>,
    /// When `true`, the finalize-store atomic batch is still open and must be finished or aborted.
    pub batch_kept: bool,
}

impl SelfConstructed {
    /// The parked stacks are stacks of the process, each of its own program.
    pub open spec fn parked_in(&self, process: Process) -> bool {
        self.parked_stacks.wf() && keyed_by_program(process.arena(), self.parked_stacks@)
    }
}

/// The entry after the hash of a candidate block was bound to the speculate with the given id.
pub open spec fn bound(
    entry: Option<SelfConstructed>,
    id: SpeculationId,
    hash: u64,
) -> Option<SelfConstructed> {
    match entry {
        Some(constructed) if constructed.id == id => Some(
            SelfConstructed { hash: Some(hash), ..constructed },
        ),
        _ => entry,
    }
}

/// The entry holds the finalize operations of the block with the given hash.
pub open spec fn speculated(entry: Option<SelfConstructed>, hash: u64) -> bool {
    entry matches Some(constructed) && constructed.hash == Some(hash)
}

/// The entry holds an open finalize batch of the block with the given hash.
pub open spec fn kept_for(entry: Option<SelfConstructed>, hash: u64) -> bool {
    speculated(entry, hash) && entry->0.batch_kept
}

/// Two entries that agree on all but the rejection reasons.
pub open spec fn same_but_reasons(one: SelfConstructed, other: SelfConstructed) -> bool {
    &&& one.id == other.id
    &&& one.hash == other.hash
    &&& one.finalize_operations == other.finalize_operations
    &&& one.parked_stacks == other.parked_stacks
    &&& one.batch_kept == other.batch_kept
}

/// What is left to do once an entry was dropped.
pub struct Discarded {
    /// Rejection reasons that nobody took; worth a warning when there are some.
    pub pending_reasons: HashMap<u64, u64>,
    /// When `true`, the finalize-store atomic batch must be aborted.
    pub abort: bool,
}

/// How a kept speculation is discarded.
#[derive(Copy, Clone, Debug, PartialEq, Eq, Structural)]
pub enum DiscardRoute {
    /// On the spot: the caller is the sequential operations thread.
    Here,
    /// By a queued operation whose result is awaited.
    QueueAndWait,
    /// By a queued operation whose result nobody awaits.
    Queue,
    /// Not at all: the queue is closed.
    Nothing,
}

/// Decides how a kept speculation is discarded.
pub fn discard_route(on_sequential_thread: bool) -> (route: DiscardRoute)
    ensures
        route == (if on_sequential_thread {
            DiscardRoute::Here
        } else {
            DiscardRoute::QueueAndWait
        }),
{
    if on_sequential_thread {
        DiscardRoute::Here
    } else {
        DiscardRoute::QueueAndWait
    }
}

/// Decides how a kept speculation is discarded when the VM is dropped, without waiting, so that it
/// can be dropped from an async context.
pub fn discard_route_on_drop(on_sequential_thread: bool, queue_open: bool) -> (route: DiscardRoute)
    ensures
        route == (if on_sequential_thread {
            DiscardRoute::Here
        } else if queue_open {
            DiscardRoute::Queue
        } else {
            DiscardRoute::Nothing
        }),
{
    if on_sequential_thread {
        DiscardRoute::Here
    } else if queue_open {
        DiscardRoute::Queue
    } else {
        DiscardRoute::Nothing
    }
}

impl VM {
    /// Allocates an opaque id for one construct-path speculate.
    pub fn allocate_speculation_id(&mut self) -> (id: SpeculationId)
        ensures
            id == SpeculationId::of(old(self).next_id()),
            final(self).next_id() == old(self).next_id().wrapping_add(1),
            final(self).proc() == old(self).proc(),
            final(self).cache() == old(self).cache(),
            final(self).entry() == old(self).entry(),
    {
        let id = SpeculationId(self.next_speculation_id);
        self.next_speculation_id = self.next_speculation_id.wrapping_add(1);
        id
    }

    /// Records construct-path speculate outputs for skip-check and optional keep-batch commit.
    pub fn store_self_constructed(
        &mut self,
        finalize_operations: Vec<u64>,
        parked_stacks: IdMap,
        rejected_reasons: HashMap<u64, u64>,
        id: SpeculationId,
        batch_kept: bool,
    )
        requires
            old(self).wf(),
            parked_stacks.wf(),
            keyed_by_program(old(self).proc().arena(), parked_stacks@),
        ensures
            final(self).wf(),
            final(self).entry() == Some(
                (SelfConstructed {
                    id,
                    hash: None,
                    finalize_operations,
                    parked_stacks,
                    rejected_reasons,
                    batch_kept,
                }),
            ),
            final(self).proc() == old(self).proc(),
            final(self).cache() == old(self).cache(),
            final(self).next_id() == old(self).next_id(),
    {
        self.self_constructed = Some(
            SelfConstructed {
                id,
                hash: None,
                finalize_operations,
                parked_stacks,
                rejected_reasons,
                batch_kept,
            },
        );
    }

    /// Removes rejection reasons from the current speculate entry, leaving the rest in place.
    pub fn take_rejected_reasons(&mut self) -> (reasons: HashMap<u64, u64>)
        ensures
            match old(self).entry() {
                Some(before) => {
                    &&& reasons@ == before.rejected_reasons@
                    &&& final(self).entry() matches Some(after) && same_but_reasons(after, before)
                        && after.rejected_reasons@ == Map::<u64, u64>::empty()
                },
                None => reasons@ == Map::<u64, u64>::empty() && final(self).entry() is None,
            },
            old(self).wf() ==> final(self).wf(),
            final(self).proc() == old(self).proc(),
            final(self).cache() == old(self).cache(),
            final(self).next_id() == old(self).next_id(),
    {
        let mut reasons: HashMap<u64, u64> = HashMap::new();
        match self.self_constructed.as_mut() {
            Some(constructed) => {
                core::mem::swap(&mut reasons, &mut constructed.rejected_reasons);
            },
            None => {},
        }
        reasons
    }

    /// Associates a constructed block hash with the matching construct-path speculate.
    pub fn bind_self_constructed_hash(&mut self, id: SpeculationId, hash: u64)
        ensures
            final(self).entry() == bound(old(self).entry(), id, hash),
            old(self).wf() ==> final(self).wf(),
            final(self).proc() == old(self).proc(),
            final(self).cache() == old(self).cache(),
            final(self).next_id() == old(self).next_id(),
    {
        match self.self_constructed.as_mut() {
            Some(constructed) => {
                if constructed.id == id {
                    constructed.hash = Some(hash);
                }
            },
            None => {},
        }
    }

    /// Returns finalize operations from construct-path speculate when `hash` matches.
    pub fn self_constructed_ops_for(&self, hash: u64) -> (operations: Option<Vec<u64>>)
        ensures
            operations is Some <==> speculated(self.entry(), hash),
            operations matches Some(operations) ==> operations@
                == self.entry()->0.finalize_operations@,
    {
        match self.self_constructed.as_ref() {
            Some(constructed) => match constructed.hash {
                Some(bound_hash) => if bound_hash == hash {
                    let operations = constructed.finalize_operations.clone();
                    assert(operations@ =~= constructed.finalize_operations@);
                    Some(operations)
                } else {
                    None
                },
                None => None,
            },
            None => None,
        }
    }

    /// Takes a kept finalize batch when it belongs to `hash`.
    pub fn take_kept_matching(&mut self, hash: u64) -> (kept: Option<SelfConstructed>)
        ensures
            if kept_for(old(self).entry(), hash) {
                kept == old(self).entry() && final(self).entry() is None
            } else {
                kept is None && final(self).entry() == old(self).entry()
            },
            old(self).wf() ==> final(self).wf(),
            final(self).proc() == old(self).proc(),
            final(self).cache() == old(self).cache(),
            final(self).next_id() == old(self).next_id(),
    {
        let matching = match self.self_constructed.as_ref() {
            Some(constructed) => match constructed.hash {
                Some(bound_hash) => bound_hash == hash && constructed.batch_kept,
                None => false,
            },
            None => false,
        };
        if matching {
            self.self_constructed.take()
        } else {
            None
        }
    }

    /// Drops the current speculate entry, and says whether its finalize batch is to be aborted:
    /// when one was kept and an atomic batch is in progress. Safe to call when nothing is kept.
    pub fn discard_kept_speculation_inner(&mut self, atomic_in_progress: bool) -> (discarded:
        Discarded)
        ensures
            final(self).entry() is None,
            match old(self).entry() {
                Some(entry) => {
                    &&& discarded.abort == (entry.batch_kept && atomic_in_progress)
                    &&& discarded.pending_reasons@ == (if entry.batch_kept {
                        Map::<u64, u64>::empty()
                    } else {
                        entry.rejected_reasons@
                    })
                },
                None => !discarded.abort && discarded.pending_reasons@ == Map::<u64, u64>::empty(),
            },
            old(self).wf() ==> final(self).wf(),
            final(self).proc() == old(self).proc(),
            final(self).cache() == old(self).cache(),
            final(self).next_id() == old(self).next_id(),
    {
        match self.self_constructed.take() {
            Some(kept) => if kept.batch_kept {
                Discarded { pending_reasons: HashMap::new(), abort: atomic_in_progress }
            } else {
                Discarded { pending_reasons: kept.rejected_reasons, abort: false }
            },
            None => Discarded { pending_reasons: HashMap::new(), abort: false },
        }
    }
}

/// A hash bound to a stale id leaves the entry alone: it cannot attach to a later candidate.
pub proof fn law_stale_id_binds_nothing(entry: SelfConstructed, id: SpeculationId, hash: u64)
    requires
        entry.id != id,
    ensures
        bound(Some(entry), id, hash) == Some(entry),
{
}

/// Once the hash of the candidate is bound to a speculate, its operations are those of that block
/// and of no other, and its kept batch can be taken for that block and for no other.
pub proof fn law_bound_hash_selects_the_block(entry: SelfConstructed, hash: u64, other: u64)
    ensures
        ({
            let after = bound(Some(entry), entry.id, hash);
            &&& speculated(after, other) <==> other == hash
            &&& kept_for(after, other) <==> other == hash && entry.batch_kept
            &&& after->0.finalize_operations == entry.finalize_operations
        }),
{
}

/// The number of the id that is allocated after `count` others.
pub open spec fn nth_id(first: u64, count: nat) -> u64
    decreases count,
{
    if count == 0 {
        first
    } else {
        nth_id(first, (count - 1) as nat).wrapping_add(1)
    }
}

/// The ids that are allocated are distinct, as long as their numbers do not run out.
pub proof fn law_speculation_ids_are_distinct(first: u64, earlier: nat, later: nat)
    requires
        earlier < later,
        later - earlier <= u64::MAX,
    ensures
        SpeculationId::of(nth_id(first, earlier)) != SpeculationId::of(nth_id(first, later)),
{
    lemma_nth_id(first, earlier);
    lemma_nth_id(first, later);
    lemma_ids(nth_id(first, earlier), nth_id(first, later));
}

/// The number of an id counts up from the first one, and starts over at its limit.
proof fn lemma_nth_id(first: u64, count: nat)
    ensures
        nth_id(first, count) == (first + count) % 0x1_0000_0000_0000_0000,
    decreases count,
{
    if count > 0 {
        lemma_nth_id(first, (count - 1) as nat);
    }
}

/// Binding a hash changes nothing of an entry but its hash.
pub proof fn law_binding_changes_only_the_hash(
    entry: SelfConstructed,
    id: SpeculationId,
    hash: u64,
)
    ensures
        bound(None, id, hash) is None,
        bound(Some(entry), id, hash) matches Some(after) && {
            &&& after.id == entry.id
            &&& after.finalize_operations == entry.finalize_operations
            &&& after.parked_stacks == entry.parked_stacks
            &&& after.rejected_reasons == entry.rejected_reasons
            &&& after.batch_kept == entry.batch_kept
            &&& after.hash == (if entry.id == id {
                Some(hash)
            } else {
                entry.hash
            })
        },
{
}

/// An entry without a hash is that of no block, and no entry is that of no block either.
pub proof fn law_unbound_entry_is_of_no_block(entry: SelfConstructed, hash: u64)
    requires
        entry.hash is None,
    ensures
        !speculated(Some(entry), hash),
        !kept_for(Some(entry), hash),
        !speculated(None, hash),
        !kept_for(None, hash),
{
}

/// Taking the rejection reasons leaves everything else of an entry: it stays the entry of the same
/// block, with the same batch.
pub proof fn law_taking_reasons_leaves_the_rest(
    one: SelfConstructed,
    other: SelfConstructed,
    hash: u64,
)
    requires
        same_but_reasons(one, other),
    ensures
        one.id == other.id,
        one.finalize_operations == other.finalize_operations,
        one.parked_stacks == other.parked_stacks,
        speculated(Some(one), hash) <==> speculated(Some(other), hash),
        kept_for(Some(one), hash) <==> kept_for(Some(other), hash),
        one.batch_kept == other.batch_kept,
{
}

/// A kept speculation is discarded on the spot exactly on the sequential operations thread, and dropping
/// the virtual machine never waits for it.
pub proof fn law_discarding_never_waits_on_drop(
    on_sequential_thread: bool,
    queue_open: bool,
    route: DiscardRoute,
    on_drop: DiscardRoute,
)
    requires
        call_ensures(discard_route, (on_sequential_thread,), route),
        call_ensures(discard_route_on_drop, (on_sequential_thread, queue_open), on_drop),
    ensures
        route == DiscardRoute::Here <==> on_sequential_thread,
        on_drop == DiscardRoute::Here <==> on_sequential_thread,
        route == DiscardRoute::QueueAndWait <==> !on_sequential_thread,
        on_drop != DiscardRoute::QueueAndWait,
        on_drop == DiscardRoute::Nothing <==> !on_sequential_thread && !queue_open,
{
}

} // verus!
