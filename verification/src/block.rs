//! What the ledger and the virtual machine read of a block.
//!
//! Identifiers, hashes and roots are carried as 64-bit integers. The zero field element is `0`.

use vstd::prelude::*;

verus! {

/// The root of nothing: the zero field element.
pub const ZERO_ROOT: u64 = 0;

/// A solution to the puzzle, with the address of its prover.
#[derive(Copy, Clone, Debug, PartialEq, Eq, Structural)]
pub struct Solution {
    pub id: u64,
    pub address: u64,
}

/// Who proposed a block, with the spend limit and the synthesis limit that a quorum sets for it.
#[derive(Copy, Clone, Debug, PartialEq, Eq, Structural)]
pub enum Authority {
    Beacon,
    Quorum { spend_limit: Option<u64>, synthesis_limit: Option<u64> },
}

/// The metadata of a block.
#[derive(Copy, Clone, Debug, PartialEq, Eq, Structural)]
pub struct Metadata {
    pub network: u16,
    pub round: u64,
    pub height: u32,
    pub cumulative_weight: u128,
    pub cumulative_proof_target: u128,
    pub coinbase_target: u64,
    pub proof_target: u64,
    pub last_coinbase_target: u64,
    pub last_coinbase_timestamp: i64,
    pub timestamp: i64,
}

/// The header of a block.
#[derive(Copy, Clone, Debug, PartialEq, Eq, Structural)]
pub struct Header {
    pub previous_state_root: u64,
    pub transactions_root: u64,
    pub finalize_root: u64,
    pub ratifications_root: u64,
    pub solutions_root: u64,
    pub subdag_root: u64,
    pub metadata: Metadata,
}

/// A block.
#[derive(Debug)]
pub struct Block {
    pub hash: u64,
    pub previous_hash: u64,
    pub header: Header,
    pub authority: Authority,
    /// The solutions, in order; empty when the block has none.
    pub solutions: Vec<Solution>,
    /// The IDs of the transactions, in order.
    pub transactions: Vec<u64>,
}

/// A limit on what the transactions of a block spend, and one on what they synthesize.
#[derive(Copy, Clone, Debug, PartialEq, Eq, Structural)]
pub struct Limits {
    pub spend: Option<u64>,
    pub synthesis: Option<u64>,
}

/// What the finalize state of a block is built from.
#[derive(Copy, Clone, Debug, PartialEq, Eq, Structural)]
pub struct FinalizeStateArgs {
    pub round: u64,
    pub height: u32,
    pub timestamp: Option<i64>,
    pub cumulative_weight: u128,
    pub cumulative_proof_target: u128,
    pub previous_hash: u64,
    pub limits: Limits,
}

/// The timestamp as the finalize state holds it: it is only included from the height on at which
/// the network started to do so (from the first block on, when there is no such height).
pub open spec fn included_timestamp(
    height: u32,
    timestamp: i64,
    timestamps_from: Option<u32>,
) -> Option<i64> {
    let from = match timestamps_from {
        Some(from) => from,
        None => 0u32,
    };
    if height >= from {
        Some(timestamp)
    } else {
        None
    }
}

/// Determines if the block timestamp should be included in the finalize state.
pub fn include_timestamp(height: u32, timestamp: i64, timestamps_from: Option<u32>) -> (included:
    Option<i64>)
    ensures
        included == included_timestamp(height, timestamp, timestamps_from),
{
    let from = match timestamps_from {
        Some(from) => from,
        None => 0,
    };
    if height >= from {
        Some(timestamp)
    } else {
        None
    }
}

/// The two blocks hold the same.
pub open spec fn same_block(one: Block, other: Block) -> bool {
    &&& one.hash == other.hash
    &&& one.previous_hash == other.previous_hash
    &&& one.header == other.header
    &&& one.authority == other.authority
    &&& one.solutions@ == other.solutions@
    &&& one.transactions@ == other.transactions@
}

/// Returns the given solutions once more.
pub(crate) fn copy_solutions(given: &Vec<Solution>) -> (solutions: Vec<Solution>)
    ensures
        solutions@ == given@,
{
    let mut solutions: Vec<Solution> = Vec::new();
    let mut i: usize = 0;
    while i < given.len()
        invariant
            i <= given@.len(),
            solutions@ == given@.take(i as int),
        decreases given@.len() - i,
    {
        solutions.push(given[i]);
        i = i + 1;
        proof {
            assert(solutions@ =~= given@.take(i as int));
        }
    }
    proof {
        assert(solutions@ =~= given@);
    }
    solutions
}

impl Block {
    /// Returns a block that holds the same.
    pub fn copy(&self) -> (other: Block)
        ensures
            same_block(other, *self),
    {
        let solutions = copy_solutions(&self.solutions);
        let transactions = self.transactions.clone();
        proof {
            assert(transactions@ =~= self.transactions@);
        }
        Block {
            hash: self.hash,
            previous_hash: self.previous_hash,
            header: self.header,
            authority: self.authority,
            solutions,
            transactions,
        }
    }

    /// The limits of the block: those of its quorum, or else those of a beacon.
    pub open spec fn limits(&self, beacon: Limits) -> Limits {
        match self.authority {
            Authority::Quorum { spend_limit, synthesis_limit } => Limits {
                spend: spend_limit,
                synthesis: synthesis_limit,
            },
            Authority::Beacon => beacon,
        }
    }

    /// What the finalize state of this block is built from.
    pub open spec fn state_args(
        &self,
        timestamps_from: Option<u32>,
        beacon: Limits,
    ) -> FinalizeStateArgs {
        FinalizeStateArgs {
            round: self.header.metadata.round,
            height: self.header.metadata.height,
            timestamp: included_timestamp(
                self.header.metadata.height,
                self.header.metadata.timestamp,
                timestamps_from,
            ),
            cumulative_weight: self.header.metadata.cumulative_weight,
            cumulative_proof_target: self.header.metadata.cumulative_proof_target,
            previous_hash: self.previous_hash,
            limits: self.limits(beacon),
        }
    }

    /// Returns what the finalize state of this block is built from. `timestamps_from` is the height
    /// from which on the timestamp is included, and `beacon` are the limits of a beacon block at this
    /// height.
    pub fn finalize_state_args(&self, timestamps_from: Option<u32>, beacon: Limits) -> (args:
        FinalizeStateArgs)
        ensures
            args == self.state_args(timestamps_from, beacon),
    {
        let limits = match self.authority {
            Authority::Quorum { spend_limit, synthesis_limit } => Limits {
                spend: spend_limit,
                synthesis: synthesis_limit,
            },
            Authority::Beacon => beacon,
        };
        FinalizeStateArgs {
            round: self.header.metadata.round,
            height: self.header.metadata.height,
            timestamp: include_timestamp(
                self.header.metadata.height,
                self.header.metadata.timestamp,
                timestamps_from,
            ),
            cumulative_weight: self.header.metadata.cumulative_weight,
            cumulative_proof_target: self.header.metadata.cumulative_proof_target,
            previous_hash: self.previous_hash,
            limits,
        }
    }

    /// Returns the height of the block.
    pub fn height(&self) -> (height: u32)
        ensures
            height == self.header.metadata.height,
    {
        self.header.metadata.height
    }
}

/// The finalize state holds the timestamp of a block exactly from the height on at which the network
/// started to do so, and from the first block on when there is no such height.
pub proof fn law_timestamp_is_held_from_a_height_on(
    height: u32,
    timestamp: i64,
    timestamps_from: Option<u32>,
)
    ensures
        included_timestamp(height, timestamp, timestamps_from) matches Some(held) ==> held
            == timestamp,
        included_timestamp(height, timestamp, timestamps_from) is Some <==> (timestamps_from matches
        Some(from) ==> height >= from),
{
}

/// The finalize state of a block is that of its header, whoever proposed the block: it has the round,
/// the height, the weight and the proof target of the header and the previous hash of the block, and
/// it holds the timestamp of the header exactly from the given height on. Only the limits depend on the
/// authority: a quorum sets its own, and a beacon block has those of a beacon.
pub proof fn law_finalize_state_is_that_of_the_header(
    block: Block,
    timestamps_from: Option<u32>,
    beacon: Limits,
)
    ensures
        ({
            let args = block.state_args(timestamps_from, beacon);
            let metadata = block.header.metadata;
            &&& args.round == metadata.round
            &&& args.height == metadata.height
            &&& args.timestamp matches Some(timestamp) ==> timestamp == metadata.timestamp
            &&& args.timestamp is Some <==> (timestamps_from matches Some(from)
                ==> metadata.height >= from)
            &&& args.cumulative_weight == metadata.cumulative_weight
            &&& args.cumulative_proof_target == metadata.cumulative_proof_target
            &&& args.previous_hash == block.previous_hash
            &&& match block.authority {
                Authority::Quorum { spend_limit, synthesis_limit } => args.limits.spend
                    == spend_limit && args.limits.synthesis == synthesis_limit,
                Authority::Beacon => args.limits == beacon,
            }
        }),
{
}

/// Two blocks with the same header and previous hash have the same finalize state but for the limits,
/// also when one is proposed by a quorum and the other by a beacon.
pub proof fn law_authority_decides_only_the_limits(
    block: Block,
    other: Block,
    timestamps_from: Option<u32>,
    beacon: Limits,
)
    requires
        block.header == other.header,
        block.previous_hash == other.previous_hash,
    ensures
        block.state_args(timestamps_from, beacon) == (FinalizeStateArgs {
            limits: block.state_args(timestamps_from, beacon).limits,
            ..other.state_args(timestamps_from, beacon)
        }),
{
}

/// Blocks that hold the same agree on everything that is read of a block.
pub proof fn law_same_blocks_agree(one: Block, other: Block)
    requires
        same_block(one, other),
    ensures
        one.hash == other.hash,
        one.previous_hash == other.previous_hash,
        one.header == other.header,
        one.authority == other.authority,
        one.solutions@ == other.solutions@,
        one.transactions@ == other.transactions@,
{
}

/// What is returned for the finalize state of a block holds the timestamp of its header exactly from the
/// given height on, whoever proposed the block, and otherwise what its header and its authority say.
pub proof fn law_returned_state_is_that_of_the_header(
    block: Block,
    timestamps_from: Option<u32>,
    beacon: Limits,
    args: FinalizeStateArgs,
)
    requires
        call_ensures(Block::finalize_state_args, (&block, timestamps_from, beacon), args),
    ensures
        args.round == block.header.metadata.round,
        args.height == block.header.metadata.height,
        args.timestamp matches Some(timestamp) ==> timestamp == block.header.metadata.timestamp,
        args.timestamp is Some <==> (timestamps_from matches Some(from)
            ==> block.header.metadata.height >= from),
        args.cumulative_weight == block.header.metadata.cumulative_weight,
        args.cumulative_proof_target == block.header.metadata.cumulative_proof_target,
        args.previous_hash == block.previous_hash,
        block.authority is Beacon ==> args.limits == beacon,
        block.authority matches Authority::Quorum { spend_limit, synthesis_limit }
            ==> args.limits.spend == spend_limit && args.limits.synthesis == synthesis_limit,
{
}

} // verus!
