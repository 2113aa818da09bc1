//! The virtual machine.

pub mod add_block;
pub mod add_block_laws;
pub mod genesis;
pub mod history;
pub mod load;
pub mod sequential_op;
pub mod speculation;
pub mod start;

use crate::lru_cache::{
    cache_capacity, cache_clear, cache_entries, cache_new, nothing_cached, MAX_CAPACITY,
};
use crate::process::stacks::Process;
use crate::vm::speculation::SelfConstructed;
use lru::LruCache;
use vstd::prelude::*;

verus! {

/// The key of the partially-verified transactions cache: it stands for the transaction ID together
/// with the checksum, the edition, the amendment count and the consensus version of each transition.
pub type TransactionCacheKey = u64;

/// The virtual machine.
pub struct VM {
    /// The process.
    process: Process,
    /// A cache containing the list of recent partially-verified transactions, with their checksums.
    partially_verified_transactions: LruCache<u64, u64>,
    /// Construct-path speculate output used to skip a second dry-run and optionally keep the batch.
    self_constructed: Option<SelfConstructed>,
    /// Monotonic ids for construct-path speculations.
    next_speculation_id: u64,
}

impl VM {
    /// The process.
    pub closed spec fn proc(&self) -> Process {
        self.process
    }

    /// The partially-verified transactions.
    pub closed spec fn cache(&self) -> LruCache<u64, u64> {
        self.partially_verified_transactions
    }

    /// What the latest construct-path speculate left.
    pub closed spec fn entry(&self) -> Option<SelfConstructed> {
        self.self_constructed
    }

    /// The number of the next speculation id.
    pub closed spec fn next_id(&self) -> u64 {
        self.next_speculation_id
    }

    /// The invariant: the process is well-formed, and the parked stacks are stacks of the process,
    /// each of its own program.
    pub open spec fn wf(&self) -> bool {
        &&& self.proc().wf()
        &&& self.entry() matches Some(entry) ==> entry.parked_in(self.proc())
    }

    /// Initializes the VM around a process. `max_transactions` is the number of transactions that a
    /// block can have.
    pub fn new(process: Process, max_transactions: usize) -> (vm: VM)
        requires
            process.wf(),
            0 < max_transactions <= MAX_CAPACITY,
        ensures
            vm.wf(),
            vm.proc() == process,
            cache_entries(vm.cache()) == nothing_cached(),
            cache_capacity(vm.cache()) == max_transactions,
            vm.entry() is None,
            vm.next_id() == 0,
    {
        VM {
            process,
            partially_verified_transactions: cache_new(max_transactions),
            self_constructed: None,
            next_speculation_id: 0,
        }
    }

    /// Returns `true` if a program with the given program ID exists.
    pub fn contains_program(&self, program_id: u64) -> (contained: bool)
        requires
            self.wf(),
        ensures
            contained == (self.proc().stack_of(program_id) is Some),
    {
        self.process.contains_program(program_id)
    }

    /// Returns the process.
    pub fn process(&self) -> (process: &Process)
        ensures
            *process == self.proc(),
    {
        &self.process
    }

    /// Returns the process, to add programs to it.
    pub fn lock_process(&mut self) -> (process: &mut Process)
        ensures
            *process == old(self).proc(),
            final(self).proc() == *final(process),
            final(self).cache() == old(self).cache(),
            final(self).entry() == old(self).entry(),
            final(self).next_id() == old(self).next_id(),
    {
        &mut self.process
    }

    /// Returns the partially-verified transactions.
    pub fn partially_verified_transactions(&mut self) -> (cache: &mut LruCache<u64, u64>)
        ensures
            *cache == old(self).cache(),
            final(self).cache() == *final(cache),
            final(self).proc() == old(self).proc(),
            final(self).entry() == old(self).entry(),
            final(self).next_id() == old(self).next_id(),
    {
        &mut self.partially_verified_transactions
    }

    /// Clears the partially-verified transactions.
    fn clear_partially_verified_transactions(&mut self)
        ensures
            cache_entries(final(self).cache()) == nothing_cached(),
            cache_capacity(final(self).cache()) == cache_capacity(old(self).cache()),
            final(self).proc() == old(self).proc(),
            final(self).entry() == old(self).entry(),
            final(self).next_id() == old(self).next_id(),
    {
        cache_clear(&mut self.partially_verified_transactions);
    }
}

} // verus!
