//! Adding a block to the VM.
//!
//! The stores do the outside work, one action at a time: whoever runs an `AddBlock` performs its
//! action, replies with what came of it, and goes on until it is done.

use crate::block::{Block, FinalizeStateArgs, Limits};
use crate::id_map::{distinct_keys, IdMap};
use crate::lru_cache::{cache_capacity, cache_entries, nothing_cached};
use crate::process::stacks::{keyed_by_program, put_all, Process};
use crate::vm::speculation::kept_for;
use crate::vm::VM;
use std::collections::HashMap;
use vstd::prelude::*;

verus! {

/// What is to be done next while a block is added.
#[derive(Copy, Clone, Debug, PartialEq, Eq, Structural)]
pub enum BlockAction {
    /// Build the finalize state.
    BuildState,
    /// Abort the atomic batch of the finalize store, if one is in progress.
    AbortFinalizeIfOpen,
    /// Pause the atomic writes of the block store.
    PauseWrites,
    /// Insert the block into the block store.
    InsertBlock,
    /// Set the height of the finalize store, and finish its atomic batch.
    FinishKept,
    /// Finalize the transactions.
    Finalize,
    /// Update the verifying keys of the credits program.
    UpdateCreditsKeys,
    /// Unpause the atomic writes, executing the queued ones, or discarding them.
    UnpauseWrites { discard: bool },
    /// Abort the pending atomic operations of the block store.
    AbortBlockBatch,
    /// Abort the pending atomic operations of the finalize store.
    AbortFinalizeBatch,
    /// Remove the last block from the block tree only.
    RemoveLastFromTree,
    /// Remove the last block.
    RemoveLastBlock,
}

/// How far the addition of a block has come.
#[derive(Copy, Clone, Debug, PartialEq, Eq, Structural)]
pub enum Phase {
    BuildState,
    DiscardKept,
    Pause,
    Insert,
    InsertAbort,
    InsertUnpause,
    FinishKept,
    Finalize,
    UpdateKeys,
    Unpause,
    RollbackBlockBatch,
    RollbackFinalizeBatch,
    RollbackUnpause,
    RollbackTree,
    RollbackOpenBatch,
    RollbackBlock,
    Guard,
    Done,
}

/// What the course of an addition depends on.
#[derive(Copy, Clone, Debug, PartialEq, Eq, Structural)]
pub struct Course {
    /// The stores are persistent, so that their writes can be queued.
    pub rocks: bool,
    /// A kept finalize batch of this block is finished instead of replaying finalize.
    pub kept: bool,
    /// A kept finalize batch of another block was discarded.
    pub discards: bool,
    /// The block is the one at which the verifying keys of the credits program change.
    pub updates_keys: bool,
}

/// The course of an addition before anything is known of the latest speculate.
pub open spec fn starting_course(rocks: bool, height: u32, keys_change_at: Option<u32>) -> Course {
    Course {
        rocks,
        kept: false,
        discards: false,
        updates_keys: height == (match keys_change_at {
            Some(at) => at,
            None => 0,
        }),
    }
}

/// The action of a phase; none when the addition is done.
pub open spec fn action_of(phase: Phase) -> Option<BlockAction> {
    match phase {
        Phase::BuildState => Some(BlockAction::BuildState),
        Phase::DiscardKept => Some(BlockAction::AbortFinalizeIfOpen),
        Phase::Pause => Some(BlockAction::PauseWrites),
        Phase::Insert => Some(BlockAction::InsertBlock),
        Phase::InsertAbort => Some(BlockAction::AbortBlockBatch),
        Phase::InsertUnpause => Some(BlockAction::UnpauseWrites { discard: true }),
        Phase::FinishKept => Some(BlockAction::FinishKept),
        Phase::Finalize => Some(BlockAction::Finalize),
        Phase::UpdateKeys => Some(BlockAction::UpdateCreditsKeys),
        Phase::Unpause => Some(BlockAction::UnpauseWrites { discard: false }),
        Phase::RollbackBlockBatch => Some(BlockAction::AbortBlockBatch),
        Phase::RollbackFinalizeBatch => Some(BlockAction::AbortFinalizeBatch),
        Phase::RollbackUnpause => Some(BlockAction::UnpauseWrites { discard: true }),
        Phase::RollbackTree => Some(BlockAction::RemoveLastFromTree),
        Phase::RollbackOpenBatch => Some(BlockAction::AbortFinalizeIfOpen),
        Phase::RollbackBlock => Some(BlockAction::RemoveLastBlock),
        Phase::Guard => Some(BlockAction::AbortFinalizeIfOpen),
        Phase::Done => None,
    }
}

/// The phases whose action cannot fail.
pub open spec fn infallible(phase: Phase) -> bool {
    match phase {
        Phase::DiscardKept => true,
        Phase::InsertAbort => true,
        Phase::RollbackBlockBatch => true,
        Phase::RollbackFinalizeBatch => true,
        Phase::RollbackOpenBatch => true,
        Phase::Guard => true,
        Phase::Done => true,
        _ => false,
    }
}

/// The first phase once the finalize state is built.
pub open spec fn first_phase(course: Course) -> Phase {
    if course.kept {
        Phase::Insert
    } else if course.discards {
        Phase::DiscardKept
    } else {
        prepare_phase(course)
    }
}

/// The phase in which the block is inserted, or in which that is prepared.
pub open spec fn prepare_phase(course: Course) -> Phase {
    if course.rocks {
        Phase::Pause
    } else {
        Phase::Insert
    }
}

/// The phase after the transactions were finalized and the keys are up to date.
pub open spec fn publish_phase(course: Course) -> Phase {
    if !course.kept && course.rocks {
        Phase::Unpause
    } else {
        Phase::Done
    }
}

/// The phase after the transactions were finalized.
pub open spec fn success_phase(course: Course) -> Phase {
    if course.updates_keys {
        Phase::UpdateKeys
    } else {
        publish_phase(course)
    }
}

/// The last phase of a failure: a kept batch that is still open is aborted.
pub open spec fn failure_phase(course: Course) -> Phase {
    if course.kept {
        Phase::Guard
    } else {
        Phase::Done
    }
}

/// The phase after `phase`, given whether its action succeeded.
pub open spec fn next_phase(course: Course, phase: Phase, succeeded: bool) -> Phase {
    match phase {
        Phase::BuildState => if succeeded {
            first_phase(course)
        } else {
            Phase::Done
        },
        Phase::DiscardKept => prepare_phase(course),
        Phase::Pause => if succeeded {
            Phase::Insert
        } else {
            Phase::Done
        },
        Phase::Insert => if succeeded {
            if course.kept {
                Phase::FinishKept
            } else {
                Phase::Finalize
            }
        } else if !course.kept && course.rocks {
            Phase::InsertAbort
        } else {
            failure_phase(course)
        },
        Phase::InsertAbort => Phase::InsertUnpause,
        Phase::InsertUnpause => Phase::Done,
        Phase::FinishKept => if succeeded {
            success_phase(course)
        } else if course.rocks {
            Phase::RollbackBlockBatch
        } else {
            Phase::RollbackOpenBatch
        },
        Phase::Finalize => if succeeded {
            success_phase(course)
        } else if course.rocks {
            Phase::RollbackBlockBatch
        } else {
            Phase::RollbackBlock
        },
        Phase::UpdateKeys => if succeeded {
            publish_phase(course)
        } else {
            Phase::Done
        },
        Phase::Unpause => Phase::Done,
        Phase::RollbackBlockBatch => Phase::RollbackFinalizeBatch,
        Phase::RollbackFinalizeBatch => if course.kept {
            Phase::RollbackTree
        } else {
            Phase::RollbackUnpause
        },
        Phase::RollbackUnpause => if succeeded {
            Phase::RollbackTree
        } else {
            Phase::Done
        },
        Phase::RollbackTree => failure_phase(course),
        Phase::RollbackOpenBatch => Phase::RollbackBlock,
        Phase::RollbackBlock => failure_phase(course),
        Phase::Guard => Phase::Done,
        Phase::Done => Phase::Done,
    }
}

/// The error after the reply to the action of a phase. A later error takes the place of the first
/// one; what cannot fail leaves it.
pub open spec fn next_error<E>(
    phase: Phase,
    error: Option<E>,
    reply: Result<(), E>,
) -> Option<E> {
    match reply {
        Err(later) if !infallible(phase) => Some(later),
        _ => error,
    }
}

/// The addition of a block.
pub struct AddBlock<E> {
    /// The hash of the block.
    hash: u64,
    /// What the finalize state is built from.
    args: FinalizeStateArgs,
    /// What the course of the addition depends on.
    course: Course,
    /// The block advances to a new consensus version.
    new_version: bool,
    /// How far the addition has come.
    phase: Phase,
    /// The error that is returned.
    error: Option<E>,
    /// The stacks that the kept speculate parked.
    parked_stacks: IdMap,
    /// The rejection reasons that finalize inserts, by transaction ID.
    rejected_reasons: HashMap<u64, u64>,
}

impl<E> AddBlock<E> {
    pub closed spec fn spec_hash(&self) -> u64 {
        self.hash
    }

    pub closed spec fn spec_args(&self) -> FinalizeStateArgs {
        self.args
    }

    pub closed spec fn spec_course(&self) -> Course {
        self.course
    }

    pub closed spec fn advances_version(&self) -> bool {
        self.new_version
    }

    pub closed spec fn spec_phase(&self) -> Phase {
        self.phase
    }

    pub closed spec fn spec_error(&self) -> Option<E> {
        self.error
    }

    pub closed spec fn parked(&self) -> Seq<(u64, u64)> {
        self.parked_stacks@
    }

    pub closed spec fn reasons(&self) -> Map<u64, u64> {
        self.rejected_reasons@
    }

    /// The parked stacks are stacks of the process, each of its own program.
    pub open spec fn wf(&self, process: Process) -> bool {
        distinct_keys(self.parked()) && keyed_by_program(process.arena(), self.parked())
    }

    /// Starts to add a block. The heights are those of the consensus versions: that at which the
    /// finalize state starts to hold timestamps, that at which the verifying keys of the credits
    /// program change, and all of them.
    pub fn new(
        block: &Block,
        rocks: bool,
        beacon: Limits,
        timestamps_from: Option<u32>,
        keys_change_at: Option<u32>,
        version_heights: &Vec<u32>,
    ) -> (run: AddBlock<E>)
        ensures
            run.spec_hash() == block.hash,
            run.spec_args() == block.state_args(timestamps_from, beacon),
            run.spec_course() == starting_course(
                rocks,
                block.header.metadata.height,
                keys_change_at,
            ),
            run.advances_version() == version_heights@.contains(block.header.metadata.height),
            run.spec_phase() == Phase::BuildState,
            run.spec_error() is None,
            run.parked() == Seq::<(u64, u64)>::empty(),
            run.reasons() == Map::<u64, u64>::empty(),
    {
        let keys_height = match keys_change_at {
            Some(height) => height,
            None => 0,
        };
        AddBlock {
            hash: block.hash,
            args: block.finalize_state_args(timestamps_from, beacon),
            course: Course {
                rocks,
                kept: false,
                discards: false,
                updates_keys: block.height() == keys_height,
            },
            new_version: advances_to_new_version(block.height(), version_heights),
            phase: Phase::BuildState,
            error: None,
            parked_stacks: IdMap::new(),
            rejected_reasons: HashMap::new(),
        }
    }

    /// Returns the action to perform, or `None` when the addition is done.
    pub fn action(&self) -> (action: Option<BlockAction>)
        ensures
            action == action_of(self.spec_phase()),
    {
        match self.phase {
            Phase::BuildState => Some(BlockAction::BuildState),
            Phase::DiscardKept => Some(BlockAction::AbortFinalizeIfOpen),
            Phase::Pause => Some(BlockAction::PauseWrites),
            Phase::Insert => Some(BlockAction::InsertBlock),
            Phase::InsertAbort => Some(BlockAction::AbortBlockBatch),
            Phase::InsertUnpause => Some(BlockAction::UnpauseWrites { discard: true }),
            Phase::FinishKept => Some(BlockAction::FinishKept),
            Phase::Finalize => Some(BlockAction::Finalize),
            Phase::UpdateKeys => Some(BlockAction::UpdateCreditsKeys),
            Phase::Unpause => Some(BlockAction::UnpauseWrites { discard: false }),
            Phase::RollbackBlockBatch => Some(BlockAction::AbortBlockBatch),
            Phase::RollbackFinalizeBatch => Some(BlockAction::AbortFinalizeBatch),
            Phase::RollbackUnpause => Some(BlockAction::UnpauseWrites { discard: true }),
            Phase::RollbackTree => Some(BlockAction::RemoveLastFromTree),
            Phase::RollbackOpenBatch => Some(BlockAction::AbortFinalizeIfOpen),
            Phase::RollbackBlock => Some(BlockAction::RemoveLastBlock),
            Phase::Guard => Some(BlockAction::AbortFinalizeIfOpen),
            Phase::Done => None,
        }
    }

    /// Returns what the finalize state is built from.
    pub fn state_args(&self) -> (args: FinalizeStateArgs)
        ensures
            args == self.spec_args(),
    {
        self.args
    }

    /// Returns `true` when a kept finalize batch of this block is finished instead of replaying
    /// finalize.
    pub fn uses_kept_batch(&self) -> (kept: bool)
        ensures
            kept == self.spec_course().kept,
    {
        self.course.kept
    }

    /// Returns the rejection reasons that finalize inserts, by transaction ID.
    pub fn rejected_reasons(&self) -> (reasons: &HashMap<u64, u64>)
        ensures
            reasons@ == self.reasons(),
    {
        &self.rejected_reasons
    }

    /// Returns the result of an addition that is done.
    pub fn into_result(self) -> (result: Result<(), E>)
        ensures
            match self.spec_error() {
                Some(error) => result == Err::<(), E>(error),
                None => result is Ok,
            },
    {
        match self.error {
            Some(error) => Err(error),
            None => Ok(()),
        }
    }
}

/// Returns `true` when a consensus version starts at the given height.
pub fn advances_to_new_version(height: u32, version_heights: &Vec<u32>) -> (advances: bool)
    ensures
        advances == version_heights@.contains(height),
{
    let mut i: usize = version_heights.len();
    while i > 0
        invariant
            i <= version_heights@.len(),
            forall|j: int| i <= j < version_heights@.len() ==> version_heights@[j] != height,
        decreases i,
    {
        i = i - 1;
        if version_heights[i] == height {
            return true;
        }
    }
    false
}

/// Computes the phase after `phase`, given whether its action succeeded.
fn compute_next_phase(course: Course, phase: Phase, succeeded: bool) -> (next: Phase)
    ensures
        next == next_phase(course, phase, succeeded),
{
    let prepare = if course.rocks {
        Phase::Pause
    } else {
        Phase::Insert
    };
    let publish = if !course.kept && course.rocks {
        Phase::Unpause
    } else {
        Phase::Done
    };
    let success = if course.updates_keys {
        Phase::UpdateKeys
    } else {
        publish
    };
    let failure = if course.kept {
        Phase::Guard
    } else {
        Phase::Done
    };
    match phase {
        Phase::BuildState => if !succeeded {
            Phase::Done
        } else if course.kept {
            Phase::Insert
        } else if course.discards {
            Phase::DiscardKept
        } else {
            prepare
        },
        Phase::DiscardKept => prepare,
        Phase::Pause => if succeeded {
            Phase::Insert
        } else {
            Phase::Done
        },
        Phase::Insert => if succeeded {
            if course.kept {
                Phase::FinishKept
            } else {
                Phase::Finalize
            }
        } else if !course.kept && course.rocks {
            Phase::InsertAbort
        } else {
            failure
        },
        Phase::InsertAbort => Phase::InsertUnpause,
        Phase::InsertUnpause => Phase::Done,
        Phase::FinishKept => if succeeded {
            success
        } else if course.rocks {
            Phase::RollbackBlockBatch
        } else {
            Phase::RollbackOpenBatch
        },
        Phase::Finalize => if succeeded {
            success
        } else if course.rocks {
            Phase::RollbackBlockBatch
        } else {
            Phase::RollbackBlock
        },
        Phase::UpdateKeys => if succeeded {
            publish
        } else {
            Phase::Done
        },
        Phase::Unpause => Phase::Done,
        Phase::RollbackBlockBatch => Phase::RollbackFinalizeBatch,
        Phase::RollbackFinalizeBatch => if course.kept {
            Phase::RollbackTree
        } else {
            Phase::RollbackUnpause
        },
        Phase::RollbackUnpause => if succeeded {
            Phase::RollbackTree
        } else {
            Phase::Done
        },
        Phase::RollbackTree => failure,
        Phase::RollbackOpenBatch => Phase::RollbackBlock,
        Phase::RollbackBlock => failure,
        Phase::Guard => Phase::Done,
        Phase::Done => Phase::Done,
    }
}

/// Returns `true` when the action of the phase cannot fail.
fn is_infallible(phase: Phase) -> (cannot_fail: bool)
    ensures
        cannot_fail == infallible(phase),
{
    match phase {
        Phase::DiscardKept => true,
        Phase::InsertAbort => true,
        Phase::RollbackBlockBatch => true,
        Phase::RollbackFinalizeBatch => true,
        Phase::RollbackOpenBatch => true,
        Phase::Guard => true,
        Phase::Done => true,
        _ => false,
    }
}

/// The course of an addition once the finalize state is built: what the latest construct-path
/// speculate left decides it.
pub open spec fn decided_course(vm: VM, before: Course, hash: u64) -> Course {
    Course {
        kept: kept_for(vm.entry(), hash),
        discards: !kept_for(vm.entry(), hash) && (vm.entry() matches Some(entry)
            && entry.batch_kept),
        ..before
    }
}

impl VM {
    /// Takes the reply to the action of an addition. Between the actions, the VM takes the kept
    /// batch of the block, or drops what another speculate left; once a kept batch is finished it
    /// commits the parked stacks; and at a new consensus version it clears the partial verification
    /// cache.
    pub fn add_next_block_inner<E>(&mut self, run: AddBlock<E>, reply: Result<(), E>) -> (next:
        AddBlock<E>)
        requires
            old(self).wf(),
            run.wf(old(self).proc()),
        ensures
            final(self).wf(),
            next.wf(final(self).proc()),
            next.spec_hash() == run.spec_hash(),
            next.spec_args() == run.spec_args(),
            next.advances_version() == run.advances_version(),
            next.spec_course() == (if run.spec_phase() is BuildState && reply is Ok {
                decided_course(*old(self), run.spec_course(), run.spec_hash())
            } else {
                run.spec_course()
            }),
            next.spec_phase() == next_phase(next.spec_course(), run.spec_phase(), reply is Ok),
            next.spec_error() == next_error(run.spec_phase(), run.spec_error(), reply),
            // Once the finalize state is built, nothing is left of the latest speculate.
            run.spec_phase() is BuildState && reply is Ok ==> {
                &&& final(self).entry() is None
                &&& next.spec_course().kept ==> next.parked() == old(
                    self).entry()->0.parked_stacks@ && next.reasons() == Map::<u64, u64>::empty()
                &&& !next.spec_course().kept ==> next.parked() == run.parked() && next.reasons()
                    == (match old(self).entry() {
                    Some(entry) => entry.rejected_reasons@,
                    None => Map::<u64, u64>::empty(),
                })
            },
            !(run.spec_phase() is BuildState && reply is Ok) ==> {
                &&& final(self).entry() == old(self).entry()
                &&& next.parked() == run.parked()
                &&& next.reasons() == run.reasons()
            },
            // A kept batch that is finished brings the parked stacks.
            final(self).proc().stacks() == (if run.spec_phase() is FinishKept && reply is Ok {
                put_all(old(self).proc().stacks(), run.parked())
            } else {
                old(self).proc().stacks()
            }),
            final(self).proc().arena() == old(self).proc().arena(),
            final(self).proc().staged() == old(self).proc().staged(),
            final(self).proc().undo() == old(self).proc().undo(),
            // A block that advances to a new consensus version clears the cache.
            if run.advances_version() && !(run.spec_phase() is Done) && next.spec_phase() is Done
                && next.spec_error() is None {
                cache_entries(final(self).cache()) == nothing_cached() && cache_capacity(
                    final(self).cache(),
                ) == cache_capacity(old(self).cache())
            } else {
                final(self).cache() == old(self).cache()
            },
            final(self).next_id() == old(self).next_id(),
    {
        let mut next = run;
        let phase = next.phase;
        let succeeded = reply.is_ok();
        match phase {
            Phase::BuildState => if succeeded {
                match self.take_kept_matching(next.hash) {
                    Some(kept) => {
                        next.course.kept = true;
                        next.course.discards = false;
                        next.parked_stacks = kept.parked_stacks;
                        next.rejected_reasons = HashMap::new();
                    },
                    None => {
                        next.rejected_reasons = self.take_rejected_reasons();
                        let discarded = self.discard_kept_speculation_inner(true);
                        next.course.kept = false;
                        next.course.discards = discarded.abort;
                    },
                }
            },
            Phase::FinishKept => if succeeded {
                self.process.commit_staged_stacks(&next.parked_stacks);
            },
            _ => {},
        }
        next.phase = compute_next_phase(next.course, phase, succeeded);
        match reply {
            Ok(_) => {},
            Err(later) => {
                if !is_infallible(phase) {
                    next.error = Some(later);
                }
            },
        }
        if next.new_version && phase != Phase::Done && next.phase == Phase::Done
            && next.error.is_none() {
            self.clear_partially_verified_transactions();
        }
        next
    }
}

} // verus!
