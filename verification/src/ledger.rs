//! The ledger: the chain's latest block, the caches beside it, and how they advance.

pub mod advance;
pub mod counts;
pub mod load;
pub mod load_laws;
pub mod prepare;
pub mod provers;
pub mod records;
pub mod solutions;
pub mod template;
pub mod template_laws;

use crate::block::{Block, Header};
use crate::committee::Committee;
use crate::id_map::{distinct_keys, IdMap};
use crate::ledger::provers::counts_fit;
use crate::lru_cache::{cache_capacity, cache_entries, cache_new, nothing_cached};
use lru::LruCache;
use vstd::prelude::*;

verus! {

/// The capacity of the LRU cache holding the recently queried committees.
pub const COMMITTEE_CACHE_SIZE: usize = 16;

/// State of the entire chain.
///
/// All stored state is held by the virtual machine and its stores, while the ledger holds relevant
/// cache data.
pub struct Ledger {
    /// The genesis block.
    genesis_block: Block,
    /// The number of blocks in an epoch.
    blocks_per_epoch: u32,
    /// The current epoch hash.
    current_epoch_hash: Option<u64>,
    /// The committee resulting from all the on-chain staking activity.
    current_committee: Option<Committee>,
    /// The latest block that was added to the ledger.
    current_block: Block,
    /// The recent committees of interest, by the rounds at which they are the bonded ones.
    committee_cache: LruCache<u64, u64>,
    /// The provers and the number of solutions they have submitted for the current epoch.
    epoch_provers_cache: IdMap,
    /// Optional dev committee, returned for any round at or after its starting round.
    dev_committee: Option<Committee>,
}

/// The number of the epoch that a height is in.
pub open spec fn epoch_number(height: u32, blocks_per_epoch: u32) -> u32 {
    height / blocks_per_epoch
}

/// An epoch holds as many heights as it has blocks, one epoch after another.
pub proof fn law_epochs_follow_one_another(height: u32, blocks_per_epoch: u32)
    requires
        blocks_per_epoch > 0,
    ensures
        ({
            let number = epoch_number(height, blocks_per_epoch) as int;
            number * blocks_per_epoch <= height < (number + 1) * blocks_per_epoch
        }),
{
    let (given, length) = (height as int, blocks_per_epoch as int);
    let number = epoch_number(height, blocks_per_epoch) as int;
    assert(number == given / length);
    assert(number * length <= given < (number + 1) * length) by (nonlinear_arith)
        requires
            number == given / length,
            length > 0,
    ;
}

impl Ledger {
    pub closed spec fn genesis(&self) -> Block {
        self.genesis_block
    }

    pub closed spec fn epoch_length(&self) -> u32 {
        self.blocks_per_epoch
    }

    pub closed spec fn epoch_hash(&self) -> Option<u64> {
        self.current_epoch_hash
    }

    pub closed spec fn committee(&self) -> Option<Committee> {
        self.current_committee
    }

    pub closed spec fn block(&self) -> Block {
        self.current_block
    }

    pub closed spec fn committees(&self) -> LruCache<u64, u64> {
        self.committee_cache
    }

    pub closed spec fn provers(&self) -> Seq<(u64, u64)> {
        self.epoch_provers_cache@
    }

    pub closed spec fn dev(&self) -> Option<Committee> {
        self.dev_committee
    }

    /// The invariant: an epoch has blocks, and the counts of the provers are those of distinct
    /// addresses and fit their type.
    pub open spec fn wf(&self) -> bool {
        &&& self.epoch_length() > 0
        &&& distinct_keys(self.provers())
        &&& counts_fit(self.provers())
    }

    /// All but the latest block, the committee, the epoch hash and the provers are the same.
    pub open spec fn same_fixed_parts(&self, other: Ledger) -> bool {
        &&& self.genesis() == other.genesis()
        &&& self.epoch_length() == other.epoch_length()
        &&& self.committees() == other.committees()
        &&& self.dev() == other.dev()
    }

    /// Initializes the ledger, with the genesis block as the current block.
    pub fn new(
        genesis_block: Block,
        current_block: Block,
        blocks_per_epoch: u32,
        current_committee: Option<Committee>,
        dev_committee: Option<Committee>,
    ) -> (ledger: Ledger)
        requires
            blocks_per_epoch > 0,
        ensures
            ledger.wf(),
            ledger.genesis() == genesis_block,
            ledger.block() == current_block,
            ledger.epoch_length() == blocks_per_epoch,
            ledger.committee() == current_committee,
            ledger.dev() == dev_committee,
            ledger.epoch_hash() is None,
            ledger.provers() == Seq::<(u64, u64)>::empty(),
            cache_entries(ledger.committees()) == nothing_cached(),
            cache_capacity(ledger.committees()) == COMMITTEE_CACHE_SIZE,
    {
        Ledger {
            genesis_block,
            blocks_per_epoch,
            current_epoch_hash: None,
            current_committee,
            current_block,
            committee_cache: cache_new(COMMITTEE_CACHE_SIZE),
            epoch_provers_cache: IdMap::new(),
            dev_committee,
        }
    }

    /// Returns the genesis block.
    pub fn genesis_block(&self) -> (block: &Block)
        ensures
            *block == self.genesis(),
    {
        &self.genesis_block
    }

    /// Returns the dev committee for a round: the installed one, for any round at or after its starting
    /// round.
    pub fn dev_committee_for_round(&self, round: u64) -> (committee: Option<&Committee>)
        ensures
            match self.dev() {
                Some(dev) if round >= dev.starting_round => committee matches Some(committee)
                    && *committee == dev,
                _ => committee is None,
            },
    {
        match self.dev_committee.as_ref() {
            Some(committee) => if round >= committee.starting_round {
                Some(committee)
            } else {
                None
            },
            None => None,
        }
    }

    /// Returns the installed dev committee, if any.
    pub fn dev_committee(&self) -> (committee: Option<&Committee>)
        ensures
            match self.dev() {
                Some(dev) => committee matches Some(committee) && *committee == dev,
                None => committee is None,
            },
    {
        self.dev_committee.as_ref()
    }

    /// Returns the recently queried committees, by round.
    pub fn committee_cache(&mut self) -> (cache: &mut LruCache<u64, u64>)
        ensures
            *cache == old(self).committees(),
            final(self).committees() == *final(cache),
            final(self).genesis() == old(self).genesis(),
            final(self).epoch_length() == old(self).epoch_length(),
            final(self).dev() == old(self).dev(),
            final(self).block() == old(self).block(),
            final(self).committee() == old(self).committee(),
            final(self).epoch_hash() == old(self).epoch_hash(),
            final(self).provers() == old(self).provers(),
    {
        &mut self.committee_cache
    }

    /// Returns the provers and the number of solutions they have submitted for the current epoch.
    pub fn epoch_provers(&self) -> (provers: &IdMap)
        ensures
            provers@ == self.provers(),
    {
        &self.epoch_provers_cache
    }

    /// Returns the latest committee, i.e. the committee resulting from all the on-chain staking
    /// activity: the known one, or else the one that the committee store has.
    pub fn latest_committee<E, Stored: FnOnce() -> Result<Committee, E>>(
        &self,
        stored: Stored,
    ) -> (result: Result<Committee, E>)
        requires
            self.committee() is None ==> call_requires(stored, ()),
        ensures
            match self.committee() {
                Some(known) => result matches Ok(committee) && committee.starting_round
                    == known.starting_round && committee.members@ == known.members@,
                None => call_ensures(stored, (), result),
            },
    {
        match self.current_committee.as_ref() {
            Some(committee) => Ok(committee.copy()),
            None => stored(),
        }
    }

    /// Returns the latest epoch number.
    pub fn latest_epoch_number(&self) -> (number: u32)
        requires
            self.wf(),
        ensures
            number == epoch_number(self.block().header.metadata.height, self.epoch_length()),
    {
        self.current_block.header.metadata.height / self.blocks_per_epoch
    }

    /// Returns the latest epoch hash: the known one, or else the one of the epoch of the latest block.
    pub fn latest_epoch_hash<E, Get: FnOnce(u32) -> Result<u64, E>>(
        &self,
        get_epoch_hash: Get,
    ) -> (result: Result<u64, E>)
        requires
            self.epoch_hash() is None ==> call_requires(
                get_epoch_hash,
                (self.block().header.metadata.height,),
            ),
        ensures
            match self.epoch_hash() {
                Some(epoch_hash) => result == Ok::<u64, E>(epoch_hash),
                None => call_ensures(
                    get_epoch_hash,
                    (self.block().header.metadata.height,),
                    result,
                ),
            },
    {
        match self.current_epoch_hash {
            Some(epoch_hash) => Ok(epoch_hash),
            None => get_epoch_hash(self.latest_height()),
        }
    }

    /// Returns the epoch hash, when it is known.
    pub fn current_epoch_hash(&self) -> (epoch_hash: Option<u64>)
        ensures
            epoch_hash == self.epoch_hash(),
    {
        self.current_epoch_hash
    }

    /// Returns the latest block.
    pub fn latest_block(&self) -> (block: &Block)
        ensures
            *block == self.block(),
    {
        &self.current_block
    }

    /// Returns the latest round number.
    pub fn latest_round(&self) -> (round: u64)
        ensures
            round == self.block().header.metadata.round,
    {
        self.current_block.header.metadata.round
    }

    /// Returns the latest block height.
    pub fn latest_height(&self) -> (height: u32)
        ensures
            height == self.block().header.metadata.height,
    {
        self.current_block.header.metadata.height
    }

    /// Returns the latest block hash.
    pub fn latest_hash(&self) -> (hash: u64)
        ensures
            hash == self.block().hash,
    {
        self.current_block.hash
    }

    /// Returns the latest block header.
    pub fn latest_header(&self) -> (header: Header)
        ensures
            header == self.block().header,
    {
        self.current_block.header
    }

    /// Returns the latest block cumulative weight.
    pub fn latest_cumulative_weight(&self) -> (weight: u128)
        ensures
            weight == self.block().header.metadata.cumulative_weight,
    {
        self.current_block.header.metadata.cumulative_weight
    }

    /// Returns the latest block cumulative proof target.
    pub fn latest_cumulative_proof_target(&self) -> (target: u128)
        ensures
            target == self.block().header.metadata.cumulative_proof_target,
    {
        self.current_block.header.metadata.cumulative_proof_target
    }

    /// Returns the latest block solutions root.
    pub fn latest_solutions_root(&self) -> (root: u64)
        ensures
            root == self.block().header.solutions_root,
    {
        self.current_block.header.solutions_root
    }

    /// Returns the latest block coinbase target.
    pub fn latest_coinbase_target(&self) -> (target: u64)
        ensures
            target == self.block().header.metadata.coinbase_target,
    {
        self.current_block.header.metadata.coinbase_target
    }

    /// Returns the latest block proof target.
    pub fn latest_proof_target(&self) -> (target: u64)
        ensures
            target == self.block().header.metadata.proof_target,
    {
        self.current_block.header.metadata.proof_target
    }

    /// Returns the last coinbase target.
    pub fn last_coinbase_target(&self) -> (target: u64)
        ensures
            target == self.block().header.metadata.last_coinbase_target,
    {
        self.current_block.header.metadata.last_coinbase_target
    }

    /// Returns the last coinbase timestamp.
    pub fn last_coinbase_timestamp(&self) -> (timestamp: i64)
        ensures
            timestamp == self.block().header.metadata.last_coinbase_timestamp,
    {
        self.current_block.header.metadata.last_coinbase_timestamp
    }

    /// Returns the latest block timestamp.
    pub fn latest_timestamp(&self) -> (timestamp: i64)
        ensures
            timestamp == self.block().header.metadata.timestamp,
    {
        self.current_block.header.metadata.timestamp
    }

    /// Returns the latest block transactions.
    pub fn latest_transactions(&self) -> (transactions: &Vec<u64>)
        ensures
            transactions@ == self.block().transactions@,
    {
        &self.current_block.transactions
    }
}

/// The dev committee stands in for every round from its own on, and for no earlier one; without one
/// there is nothing to stand in.
pub proof fn law_dev_committee_stands_in_from_its_round_on(
    ledger: Ledger,
    round: u64,
    later: u64,
    committee: Option<&Committee>,
    later_committee: Option<&Committee>,
)
    requires
        round <= later,
        call_ensures(Ledger::dev_committee_for_round, (&ledger, round), committee),
        call_ensures(Ledger::dev_committee_for_round, (&ledger, later), later_committee),
    ensures
        committee is Some ==> later_committee == committee,
        committee matches Some(found) ==> ledger.dev() == Some(*found) && found.starting_round
            <= round,
        committee is None ==> (ledger.dev() matches Some(dev) ==> dev.starting_round > round),
{
}

} // verus!
