//! Advancing to the next block.

use crate::block::{Block, Solution};
use crate::committee::Committee;
use crate::ledger::counts::{count_of, counted};
use crate::ledger::provers::{
    count_solutions, counts_fit, has_room, law_provers_are_counted, provers_of, room_for,
};
use crate::ledger::Ledger;
use vstd::prelude::*;

verus! {

/// Why a block is not the next one.
#[derive(Copy, Clone, Debug, PartialEq, Eq, Structural)]
pub enum AdvanceError {
    /// The given block is not the direct successor of the latest block.
    NotSuccessor,
    /// Non-genesis blocks cannot have height 0.
    HeightZero,
}

/// What is wrong with a block as the next one, if anything. The current block is initialized as the
/// genesis block, but the ledger will also advance to it on startup; so at the genesis block the next
/// one can have the same height.
pub open spec fn advance_error(
    current_height: u32,
    current_is_genesis: bool,
    height: u32,
) -> Option<AdvanceError> {
    if current_is_genesis {
        if height == current_height || height == current_height + 1 {
            None
        } else {
            Some(AdvanceError::NotSuccessor)
        }
    } else if height == 0 {
        Some(AdvanceError::HeightZero)
    } else if height == current_height + 1 {
        None
    } else {
        Some(AdvanceError::NotSuccessor)
    }
}

/// The block starts a new epoch, or the epoch hash has not been set.
pub open spec fn starts_epoch(ledger: Ledger, height: u32) -> bool {
    height % ledger.epoch_length() == 0 || ledger.epoch_hash() is None
}

/// `after` is the ledger `before`, updated to a block that was added to the VM.
pub open spec fn updated_to(
    before: Ledger,
    after: Ledger,
    block: Block,
    committee: Option<Committee>,
    epoch_hash: Option<u64>,
) -> bool {
    &&& after.wf()
    &&& after.same_fixed_parts(before)
    &&& after.block() == block
    &&& after.committee() == (match committee {
        Some(_) => committee,
        None => before.committee(),
    })
    &&& if starts_epoch(before, block.header.metadata.height) {
        &&& after.epoch_hash() == (match epoch_hash {
            Some(_) => epoch_hash,
            None => before.epoch_hash(),
        })
        &&& after.provers() == Seq::<(u64, u64)>::empty()
    } else {
        &&& after.epoch_hash() == before.epoch_hash()
        &&& after.provers() == counted(before.provers(), provers_of(block.solutions@))
    }
}

/// Why the ledger does not advance.
#[derive(Debug)]
pub enum NextBlockError<E> {
    /// The block is not the next one.
    Block(AdvanceError),
    /// The current block is not known, or the block could not be added to the VM.
    Other(E),
}

/// The block can be added next, and was added to the VM with the given outcome.
pub open spec fn added_with<
    E,
    IsGenesis: FnOnce(&Block) -> Result<bool, E>,
    Add: FnOnce(&Block) -> Result<(), E>,
>(
    ledger: Ledger,
    block: Block,
    is_genesis: IsGenesis,
    add_next_block: Add,
    outcome: Result<(), E>,
) -> bool {
    &&& exists|current_is_genesis: bool| #[trigger]
        call_ensures(is_genesis, (&ledger.block(),), Ok::<bool, E>(current_is_genesis))
            && advance_error(
            ledger.block().header.metadata.height,
            current_is_genesis,
            block.header.metadata.height,
        ) is None
    &&& call_ensures(add_next_block, (&block,), outcome)
}

/// The ledger was updated with the committee that the store has, and with the epoch hash that was
/// retrieved if the block starts a new epoch, or no epoch hash had been set.
pub open spec fn advanced<
    GetCommittee: FnOnce() -> Option<Committee>,
    GetEpochHash: FnOnce(u32) -> Option<u64>,
>(
    before: Ledger,
    after: Ledger,
    block: Block,
    current_committee: GetCommittee,
    get_epoch_hash: GetEpochHash,
) -> bool {
    exists|committee: Option<Committee>, epoch_hash: Option<u64>|
        {
            &&& #[trigger] updated_to(before, after, block, committee, epoch_hash)
            &&& call_ensures(current_committee, (), committee)
            &&& starts_epoch(before, block.header.metadata.height) ==> call_ensures(
                get_epoch_hash,
                (block.header.metadata.height,),
                epoch_hash,
            )
        }
}

impl Ledger {
    /// Adds the given block as the next block in the ledger: checks that it can be, adds it to the VM,
    /// and updates the ledger to it. `current_committee` returns the committee that the store has then,
    /// and `get_epoch_hash` the epoch hash at a height, if there is one.
    pub fn advance_to_next_block<
        E,
        IsGenesis: FnOnce(&Block) -> Result<bool, E>,
        Add: FnOnce(&Block) -> Result<(), E>,
        GetCommittee: FnOnce() -> Option<Committee>,
        GetEpochHash: FnOnce(u32) -> Option<u64>,
    >(
        &mut self,
        block: Block,
        is_genesis: IsGenesis,
        add_next_block: Add,
        current_committee: GetCommittee,
        get_epoch_hash: GetEpochHash,
    ) -> (result: Result<(), NextBlockError<E>>)
        requires
            old(self).wf(),
            old(self).block().header.metadata.height < u32::MAX,
            call_requires(is_genesis, (&old(self).block(),)),
            // Only a block that can be added next is added to the VM, and has to be counted.
            forall|current_is_genesis: bool|
                #[trigger] call_ensures(
                    is_genesis,
                    (&old(self).block(),),
                    Ok::<bool, E>(current_is_genesis),
                ) && advance_error(
                    old(self).block().header.metadata.height,
                    current_is_genesis,
                    block.header.metadata.height,
                ) is None ==> call_requires(add_next_block, (&block,)) && (starts_epoch(
                    *old(self),
                    block.header.metadata.height,
                ) || room_for(old(self).provers(), block.solutions@.len())),
            // The committee and the epoch hash are those after the block was added.
            call_ensures(add_next_block, (&block,), Ok::<(), E>(())) ==> call_requires(
                current_committee,
                (),
            ),
            call_ensures(add_next_block, (&block,), Ok::<(), E>(())) && starts_epoch(
                *old(self),
                block.header.metadata.height,
            ) ==> call_requires(get_epoch_hash, (block.header.metadata.height,)),
        ensures
            match result {
                Ok(_) => {
                    &&& added_with(
                        *old(self),
                        block,
                        is_genesis,
                        add_next_block,
                        Ok::<(), E>(()),
                    )
                    &&& advanced(
                        *old(self),
                        *final(self),
                        block,
                        current_committee,
                        get_epoch_hash,
                    )
                },
                Err(NextBlockError::Block(error)) => {
                    &&& *final(self) == *old(self)
                    &&& exists|current_is_genesis: bool| #[trigger]
                        call_ensures(
                            is_genesis,
                            (&old(self).block(),),
                            Ok::<bool, E>(current_is_genesis),
                        ) && advance_error(
                            old(self).block().header.metadata.height,
                            current_is_genesis,
                            block.header.metadata.height,
                        ) == Some(error)
                },
                Err(NextBlockError::Other(error)) => {
                    &&& *final(self) == *old(self)
                    &&& call_ensures(is_genesis, (&old(self).block(),), Err::<bool, E>(error))
                        || added_with(
                        *old(self),
                        block,
                        is_genesis,
                        add_next_block,
                        Err::<(), E>(error),
                    )
                },
            },
    {
        let current_is_genesis = match is_genesis(self.latest_block()) {
            Ok(current_is_genesis) => current_is_genesis,
            Err(error) => {
                return Err(NextBlockError::Other(error));
            },
        };
        assert(call_ensures(
            is_genesis,
            (&old(self).block(),),
            Ok::<bool, E>(current_is_genesis),
        ));
        match self.check_next_block(&block, current_is_genesis) {
            Ok(_) => {},
            Err(error) => {
                return Err(NextBlockError::Block(error));
            },
        }
        // Update the VM.
        match add_next_block(&block) {
            Ok(unit) => {
                assert(unit == ());
            },
            Err(error) => {
                assert(added_with(
                    *old(self),
                    block,
                    is_genesis,
                    add_next_block,
                    Err::<(), E>(error),
                ));
                return Err(NextBlockError::Other(error));
            },
        }
        let committee = current_committee();
        let epoch_hash = if self.needs_epoch_hash(&block) {
            get_epoch_hash(block.height())
        } else {
            None
        };
        self.update_to_block(block, committee, epoch_hash);
        assert(updated_to(*old(self), *self, block, committee, epoch_hash));
        Ok(())
    }

    /// Checks if the given block can be added next. This precedes the update of the VM, and guards
    /// against races with other updates.
    pub fn check_next_block(&self, block: &Block, current_is_genesis: bool) -> (result: Result<
        (),
        AdvanceError,
    >)
        requires
            self.block().header.metadata.height < u32::MAX,
        ensures
            match advance_error(
                self.block().header.metadata.height,
                current_is_genesis,
                block.header.metadata.height,
            ) {
                Some(error) => result == Err::<(), _>(error),
                None => result is Ok,
            },
    {
        let current_height = self.latest_height();
        let height = block.height();
        if current_is_genesis {
            if !(current_height == height || current_height + 1 == height) {
                return Err(AdvanceError::NotSuccessor);
            }
        } else {
            if height == 0 {
                return Err(AdvanceError::HeightZero);
            }
            if current_height + 1 != height {
                return Err(AdvanceError::NotSuccessor);
            }
        }
        Ok(())
    }

    /// Returns `true` when the given block starts a new epoch, or the epoch hash has not been set: the
    /// epoch hash is then retrieved once the block was added.
    pub fn needs_epoch_hash(&self, block: &Block) -> (needed: bool)
        requires
            self.wf(),
        ensures
            needed == starts_epoch(*self, block.header.metadata.height),
    {
        block.height() % self.blocks_per_epoch == 0 || self.current_epoch_hash.is_none()
    }

    /// Returns `true` when the solutions of the given block can be counted.
    pub fn can_count(&self, block: &Block) -> (countable: bool)
        requires
            self.wf(),
        ensures
            countable == room_for(self.provers(), block.solutions@.len()),
    {
        has_room(&self.epoch_provers_cache, block.solutions.len())
    }

    /// Updates the ledger to a block that was added to the VM.
    ///
    /// `committee` is the current committee as the store has it; without one the known committee
    /// stays. `epoch_hash` is the epoch hash at the height of the block; it matters when the block
    /// starts a new epoch, or when no epoch hash has been set, and without one the known epoch hash
    /// stays. In that case the epoch provers are cleared, because all solutions from the previous
    /// epoch are no longer relevant; otherwise the provers of the block are added to them.
    pub fn update_to_block(
        &mut self,
        block: Block,
        committee: Option<Committee>,
        epoch_hash: Option<u64>,
    )
        requires
            old(self).wf(),
            starts_epoch(*old(self), block.header.metadata.height) || room_for(
                old(self).provers(),
                block.solutions@.len(),
            ),
        ensures
            updated_to(*old(self), *final(self), block, committee, epoch_hash),
    {
        let enters_epoch = self.needs_epoch_hash(&block);
        match committee {
            Some(committee) => {
                self.current_committee = Some(committee);
            },
            None => {},
        }
        if enters_epoch {
            match epoch_hash {
                Some(epoch_hash) => {
                    self.current_epoch_hash = Some(epoch_hash);
                },
                None => {},
            }
            self.epoch_provers_cache.clear();
            assert(counts_fit(self.provers())) by {
                assert forall|address: u64| #[trigger]
                    count_of(self.provers(), address) <= u32::MAX by {}
            }
        } else {
            count_solutions(&mut self.epoch_provers_cache, &block.solutions);
        }
        self.current_block = block;
    }
}

/// A block that can be added next is at most one higher than the current one; it has the same height
/// only at the genesis block.
pub proof fn law_blocks_are_added_in_order(current_height: u32, current_is_genesis: bool, height: u32)
    ensures
        advance_error(current_height, current_is_genesis, height) is None ==> height
            == current_height + 1 || (current_is_genesis && height == current_height),
        advance_error(current_height, current_is_genesis, (current_height + 1) as u32) is None
            || current_height == u32::MAX,
{
}

/// A ledger that was updated to a block has the block as its latest one, and keeps its genesis block,
/// the length of its epochs, its cache of committees and its dev committee.
pub proof fn law_updated_ledger_has_the_block(
    before: Ledger,
    after: Ledger,
    block: Block,
    committee: Option<Committee>,
    epoch_hash: Option<u64>,
)
    requires
        updated_to(before, after, block, committee, epoch_hash),
    ensures
        after.block() == block,
        after.genesis() == before.genesis(),
        after.epoch_length() == before.epoch_length(),
        after.committees() == before.committees(),
        after.dev() == before.dev(),
{
}

/// The committee that the store has after a block is the committee of the ledger, whatever committee
/// was known before; the known one stays only when the store has none.
pub proof fn law_stored_committee_becomes_the_latest(
    before: Ledger,
    after: Ledger,
    block: Block,
    committee: Option<Committee>,
    epoch_hash: Option<u64>,
)
    requires
        updated_to(before, after, block, committee, epoch_hash),
    ensures
        committee matches Some(stored) ==> after.committee() == Some(stored),
        committee is None ==> after.committee() == before.committee(),
{
}

/// Two ledgers that take the same stored committee over agree on their committee, however they
/// differed before.
pub proof fn law_known_committee_does_not_matter(
    before: Ledger,
    after: Ledger,
    other_before: Ledger,
    other_after: Ledger,
    block: Block,
    other_block: Block,
    stored: Committee,
    epoch_hash: Option<u64>,
    other_epoch_hash: Option<u64>,
)
    requires
        updated_to(before, after, block, Some(stored), epoch_hash),
        updated_to(other_before, other_after, other_block, Some(stored), other_epoch_hash),
    ensures
        after.committee() == other_after.committee(),
        after.committee() is Some,
{
}

/// At the first block of an epoch, the ledger takes the epoch hash at its height over and forgets the
/// provers of the previous epoch. It does so too when no epoch hash was known.
pub proof fn law_epoch_starts_at_its_boundary(
    before: Ledger,
    after: Ledger,
    block: Block,
    committee: Option<Committee>,
    epoch_hash: Option<u64>,
    address: u64,
)
    requires
        updated_to(before, after, block, committee, epoch_hash),
        block.header.metadata.height % before.epoch_length() == 0 || before.epoch_hash() is None,
    ensures
        epoch_hash matches Some(retrieved) ==> after.epoch_hash() == Some(retrieved),
        epoch_hash is None ==> after.epoch_hash() == before.epoch_hash(),
        count_of(after.provers(), address) == 0,
        after.provers().len() == 0,
{
}

/// Within an epoch, the ledger keeps the epoch hash, and each prover is counted once more for each of
/// its solutions in the block.
pub proof fn law_provers_are_counted_within_an_epoch(
    before: Ledger,
    after: Ledger,
    block: Block,
    committee: Option<Committee>,
    epoch_hash: Option<u64>,
    address: u64,
)
    requires
        before.wf(),
        updated_to(before, after, block, committee, epoch_hash),
        block.header.metadata.height % before.epoch_length() != 0,
        before.epoch_hash() is Some,
        room_for(before.provers(), block.solutions@.len()),
    ensures
        after.epoch_hash() == before.epoch_hash(),
        count_of(after.provers(), address) == count_of(before.provers(), address)
            + block.solutions@.filter(|solution: Solution| solution.address == address).len(),
{
    law_provers_are_counted(before.provers(), block.solutions@, address);
}

/// Advancing takes the committee over that the store has after the block, and at the start of an epoch
/// the epoch hash at the height of the block, where there is one.
pub proof fn law_advancing_takes_over_what_the_store_has<
    GetCommittee: FnOnce() -> Option<Committee>,
    GetEpochHash: FnOnce(u32) -> Option<u64>,
>(
    before: Ledger,
    after: Ledger,
    block: Block,
    current_committee: GetCommittee,
    get_epoch_hash: GetEpochHash,
)
    requires
        advanced(before, after, block, current_committee, get_epoch_hash),
    ensures
        after.block() == block,
        exists|stored: Option<Committee>| #[trigger]
            call_ensures(current_committee, (), stored) && (stored is Some ==> after.committee()
                == stored) && (stored is None ==> after.committee() == before.committee()),
        before.epoch_hash() is None || block.header.metadata.height % before.epoch_length() == 0
            ==> exists|retrieved: Option<u64>| #[trigger]
            call_ensures(get_epoch_hash, (block.header.metadata.height,), retrieved) && (retrieved
                is Some ==> after.epoch_hash() == retrieved) && (retrieved is None
                ==> after.epoch_hash() == before.epoch_hash()),
        before.epoch_hash() is Some && block.header.metadata.height % before.epoch_length() != 0
            ==> after.epoch_hash() == before.epoch_hash(),
{
}

/// A block of any height is refused exactly when it is not the successor of the current one, nor the
/// genesis block itself at the genesis block; the error says whether it has the height of a genesis
/// block.
pub proof fn law_only_successors_are_admitted(
    current_height: u32,
    current_is_genesis: bool,
    height: u32,
)
    ensures
        advance_error(current_height, current_is_genesis, height) is None <==> (height
            == current_height + 1 || (current_is_genesis && height == current_height)),
        advance_error(current_height, current_is_genesis, height) == Some(AdvanceError::HeightZero)
            <==> !current_is_genesis && height == 0,
{
}

/// What updating a ledger to a block leaves: the block is the latest one, the committee that the store
/// has is the latest committee, and the known one stays only when the store has none.
pub proof fn law_update_takes_the_stored_committee(
    ledger: &mut Ledger,
    block: Block,
    committee: Option<Committee>,
    epoch_hash: Option<u64>,
)
    requires
        call_ensures(Ledger::update_to_block, (ledger, block, committee, epoch_hash), ()),
    ensures
        final(ledger).block() == block,
        committee is Some ==> final(ledger).committee() == committee,
        committee is None ==> final(ledger).committee() == old(ledger).committee(),
{
}

/// A ledger that advanced has the given block as its latest one, which is the successor of the previous
/// one, or the genesis block itself at the genesis block. Its committee is the one that the store had
/// after the block, whatever was known before, unless the store had none.
pub proof fn law_advanced_ledger_follows_the_store<
    E,
    IsGenesis: FnOnce(&Block) -> Result<bool, E>,
    Add: FnOnce(&Block) -> Result<(), E>,
    GetCommittee: FnOnce() -> Option<Committee>,
    GetEpochHash: FnOnce(u32) -> Option<u64>,
>(
    ledger: &mut Ledger,
    block: Block,
    is_genesis: IsGenesis,
    add_next_block: Add,
    current_committee: GetCommittee,
    get_epoch_hash: GetEpochHash,
    result: Result<(), NextBlockError<E>>,
)
    requires
        call_ensures(
            Ledger::advance_to_next_block::<E, IsGenesis, Add, GetCommittee, GetEpochHash>,
            (ledger, block, is_genesis, add_next_block, current_committee, get_epoch_hash),
            result,
        ),
    ensures
        result is Ok ==> {
            let height = old(ledger).block().header.metadata.height;
            &&& final(ledger).block() == block
            &&& call_ensures(add_next_block, (&block,), Ok::<(), E>(()))
            &&& block.header.metadata.height == height + 1 || (block.header.metadata.height
                == height && call_ensures(
                is_genesis,
                (&old(ledger).block(),),
                Ok::<bool, E>(true),
            ))
            &&& exists|stored: Option<Committee>| #[trigger]
                call_ensures(current_committee, (), stored) && (stored is Some
                    ==> final(ledger).committee() == stored) && (stored is None
                    ==> final(ledger).committee() == old(ledger).committee())
        },
        result is Err ==> *final(ledger) == *old(ledger),
{
    if result is Ok {
        law_advancing_takes_over_what_the_store_has(
            *old(ledger),
            *final(ledger),
            block,
            current_committee,
            get_epoch_hash,
        );
    }
}

} // verus!
