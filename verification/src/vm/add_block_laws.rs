//! What the addition of a block does to the stores as a whole.

use crate::block::{Block, Limits};
use crate::id_map::value_of;
use crate::lru_cache::cache_entries;
use crate::process::stacks::law_commit_publishes_speculate_stacks;
use crate::vm::add_block::{
    action_of, decided_course, first_phase, infallible, next_error, next_phase,
    starting_course, AddBlock, BlockAction, Course, Phase,
};
use crate::vm::VM;
use vstd::prelude::*;

verus! {

/// What the stores hold of a block that is being added.
pub struct Stores {
    /// The atomic writes are paused.
    pub paused: bool,
    /// An atomic batch of the finalize store is in progress.
    pub open: bool,
    /// The writes of the block are queued.
    pub queued: bool,
    /// The block is stored.
    pub stored: bool,
    /// The block is in the block tree.
    pub in_tree: bool,
    /// The height of the finalize store was set to that of the block, to finish a kept batch.
    pub height_set: bool,
}

/// What an action does to the stores, given whether it succeeded. An action that fails changes
/// nothing, except that the height of the finalize store is set before a kept batch is finished, and
/// stays when that fails. The writes of the block are queued while the atomic writes are paused or a
/// batch of persistent stores is in progress.
pub open spec fn effect(
    stores: Stores,
    rocks: bool,
    action: BlockAction,
    succeeded: bool,
) -> Stores {
    match action {
        BlockAction::AbortFinalizeIfOpen => Stores { open: false, ..stores },
        BlockAction::AbortFinalizeBatch => Stores { open: false, ..stores },
        BlockAction::AbortBlockBatch => Stores { queued: false, ..stores },
        BlockAction::PauseWrites if succeeded => Stores { paused: true, ..stores },
        BlockAction::InsertBlock if succeeded => if rocks && (stores.paused || stores.open) {
            Stores { queued: true, in_tree: true, ..stores }
        } else {
            Stores { stored: true, in_tree: true, ..stores }
        },
        BlockAction::FinishKept => if succeeded {
            Stores {
                open: false,
                queued: false,
                stored: stores.stored || stores.queued,
                height_set: true,
                ..stores
            }
        } else {
            Stores { height_set: true, ..stores }
        },
        BlockAction::UnpauseWrites { discard } if succeeded => Stores {
            paused: false,
            queued: false,
            stored: stores.stored || (stores.queued && !discard),
            ..stores
        },
        BlockAction::RemoveLastFromTree if succeeded => Stores { in_tree: false, ..stores },
        BlockAction::RemoveLastBlock if succeeded => Stores {
            in_tree: false,
            stored: false,
            ..stores
        },
        _ => stores,
    }
}

/// The stores before a block is added: nothing of it is there, no writes are paused, and a batch of
/// the finalize store is in progress exactly when the latest speculate kept one.
pub open spec fn untouched(stores: Stores, course: Course) -> bool {
    &&& !stores.paused
    &&& !stores.queued
    &&& !stores.stored
    &&& !stores.in_tree
    &&& !stores.height_set
    &&& stores.open == (course.kept || course.discards)
}

/// An addition on its way.
pub struct Way {
    pub phase: Phase,
    /// An action failed that can fail.
    pub failed: bool,
    /// An action failed that was to publish the block or to roll it back.
    pub unclean: bool,
    pub stores: Stores,
}

/// The phases whose action publishes the block, or rolls it back.
pub open spec fn publishes_or_rolls_back(phase: Phase) -> bool {
    match phase {
        Phase::InsertUnpause => true,
        Phase::UpdateKeys => true,
        Phase::Unpause => true,
        Phase::RollbackUnpause => true,
        Phase::RollbackTree => true,
        Phase::RollbackBlock => true,
        _ => false,
    }
}

/// The way after one more reply.
pub open spec fn walk_one(course: Course, way: Way, succeeded: bool) -> Way {
    match action_of(way.phase) {
        None => way,
        Some(action) => Way {
            phase: next_phase(course, way.phase, succeeded),
            failed: way.failed || (!succeeded && !infallible(way.phase)),
            unclean: way.unclean || (!succeeded && publishes_or_rolls_back(way.phase)),
            stores: effect(way.stores, course.rocks, action, succeeded),
        },
    }
}

/// The way after the given replies.
pub open spec fn walk(course: Course, way: Way, replies: Seq<bool>) -> Way
    decreases replies.len(),
{
    if replies.len() == 0 {
        way
    } else {
        walk_one(course, walk(course, way, replies.drop_last()), replies.last())
    }
}

/// The way of an addition whose finalize state was built.
pub open spec fn setting_out(course: Course, stores: Stores) -> Way {
    Way { phase: first_phase(course), failed: false, unclean: false, stores }
}

/// What holds of the stores in each phase.
spec fn on_track(course: Course, way: Way) -> bool {
    let s = way.stores;
    let queues = course.rocks && !course.kept;
    // The block is in place: queued, where writes are queued, and else stored.
    let placed = s.in_tree && s.queued == course.rocks && s.stored == !course.rocks;
    let absent = !s.in_tree && !s.queued && !s.stored;
    &&& course.kept ==> !course.discards
    &&& !course.kept ==> !s.height_set
    &&& !way.failed && s.stored && !s.queued && course.kept && !(way.phase is FinishKept)
        ==> s.height_set
    &&& match way.phase {
        Phase::BuildState => false,
        Phase::DiscardKept => !way.failed && absent && !s.paused && !course.kept,
        Phase::Pause => !way.failed && absent && !s.paused && !s.open && queues,
        Phase::Insert => !way.failed && absent && s.paused == queues && s.open == course.kept,
        Phase::InsertAbort => way.failed && absent && s.paused && !s.open && queues,
        Phase::InsertUnpause => way.failed && absent && s.paused && !s.open && queues,
        Phase::FinishKept => !way.failed && placed && !s.paused && s.open && course.kept,
        Phase::Finalize => !way.failed && placed && s.paused == queues && !s.open && !course.kept,
        Phase::UpdateKeys => !way.failed && s.paused == queues && !s.open && s.in_tree && (if queues {
            placed
        } else {
            s.stored && !s.queued
        }),
        Phase::Unpause => !way.failed && placed && s.paused && !s.open && queues,
        Phase::RollbackBlockBatch => way.failed && placed && course.rocks && s.paused == queues
            && s.open == course.kept,
        Phase::RollbackFinalizeBatch => way.failed && s.in_tree && !s.queued && !s.stored
            && course.rocks && s.paused == queues && s.open == course.kept,
        Phase::RollbackUnpause => way.failed && s.in_tree && !s.queued && !s.stored && s.paused
            && !s.open && queues,
        Phase::RollbackTree => way.failed && s.in_tree && !s.queued && !s.stored && !s.paused
            && !s.open && course.rocks,
        Phase::RollbackOpenBatch => way.failed && placed && !course.rocks && course.kept
            && !s.paused,
        Phase::RollbackBlock => way.failed && placed && !course.rocks && !s.paused && !s.open,
        Phase::Guard => way.failed && course.kept && !s.paused && (way.unclean || absent),
        Phase::Done => {
            &&& !s.open
            &&& !way.failed ==> s.in_tree && s.stored && !s.queued && !s.paused
            &&& way.failed && !way.unclean ==> absent && !s.paused
        },
    }
    &&& !(way.phase is Done || way.phase is Guard) ==> !way.unclean
}

/// One more reply keeps an addition on track.
proof fn lemma_stays_on_track(course: Course, way: Way, succeeded: bool)
    requires
        on_track(course, way),
    ensures
        on_track(course, walk_one(course, way, succeeded)),
{
}

/// All replies keep an addition on track.
proof fn lemma_walk_on_track(course: Course, way: Way, replies: Seq<bool>)
    requires
        on_track(course, way),
    ensures
        on_track(course, walk(course, way, replies)),
    decreases replies.len(),
{
    if replies.len() > 0 {
        lemma_walk_on_track(course, way, replies.drop_last());
        lemma_stays_on_track(course, walk(course, way, replies.drop_last()), replies.last());
    }
}

/// Whatever the stores reply, an addition that is done has left no trace of a block that failed, and
/// all of a block that did not fail. The exceptions are a failure of the actions that publish the block
/// or roll it back themselves, and the height of the finalize store, which is set before a kept batch
/// is finished and is not set back.
pub proof fn law_block_is_added_or_rolled_back(course: Course, stores: Stores, replies: Seq<bool>)
    requires
        course.kept ==> !course.discards,
        untouched(stores, course),
    ensures
        ({
            let end = walk(course, setting_out(course, stores), replies);
            &&& end.phase is Done && !end.failed ==> end.stores.stored && end.stores.in_tree
                && !end.stores.queued && !end.stores.paused && end.stores.height_set == course.kept
            &&& end.phase is Done && end.failed && !end.unclean ==> !end.stores.stored
                && !end.stores.in_tree && !end.stores.queued && !end.stores.paused
            &&& !course.kept ==> !end.stores.height_set
        }),
{
    lemma_walk_on_track(course, setting_out(course, stores), replies);
}

/// Whatever the stores reply, an addition that is done leaves no atomic batch of the finalize store in
/// progress: a kept batch was finished or aborted.
pub proof fn law_kept_batch_never_stays_open(course: Course, stores: Stores, replies: Seq<bool>)
    requires
        course.kept ==> !course.discards,
        untouched(stores, course),
    ensures
        ({
            let end = walk(course, setting_out(course, stores), replies);
            end.phase is Done ==> !end.stores.open
        }),
{
    lemma_walk_on_track(course, setting_out(course, stores), replies);
}

/// How many replies are taken at most from a phase on.
pub open spec fn replies_left(phase: Phase) -> nat {
    match phase {
        Phase::BuildState => 10,
        Phase::DiscardKept => 9,
        Phase::Pause => 8,
        Phase::Insert => 7,
        Phase::InsertAbort => 2,
        Phase::InsertUnpause => 1,
        Phase::FinishKept => 6,
        Phase::Finalize => 6,
        Phase::UpdateKeys => 2,
        Phase::Unpause => 1,
        Phase::RollbackBlockBatch => 5,
        Phase::RollbackFinalizeBatch => 4,
        Phase::RollbackUnpause => 3,
        Phase::RollbackTree => 2,
        Phase::RollbackOpenBatch => 3,
        Phase::RollbackBlock => 2,
        Phase::Guard => 1,
        Phase::Done => 0,
    }
}

/// Every reply brings an addition nearer to its end, so it is done after ten replies at most.
pub proof fn law_addition_ends(course: Course, phase: Phase, succeeded: bool)
    ensures
        !(phase is Done) ==> replies_left(next_phase(course, phase, succeeded)) < replies_left(
            phase,
        ),
        replies_left(phase) <= 10,
        phase is Done <==> replies_left(phase) == 0,
{
}

/// The actions that succeeded over the given replies, starting at a phase.
pub open spec fn succeeded_actions(
    course: Course,
    way: Way,
    replies: Seq<bool>,
) -> Set<BlockAction>
    decreases replies.len(),
{
    if replies.len() == 0 {
        Set::empty()
    } else {
        let before = succeeded_actions(course, way, replies.drop_last());
        match action_of(walk(course, way, replies.drop_last()).phase) {
            Some(action) if replies.last() => before.insert(action),
            _ => before,
        }
    }
}

/// Which actions succeeded by the time of each phase.
spec fn acted_in_order(course: Course, way: Way, done: Set<BlockAction>) -> bool {
    let queues = course.rocks && !course.kept;
    let paused = done.contains(BlockAction::PauseWrites);
    let inserted = done.contains(BlockAction::InsertBlock);
    let finalized = done.contains(BlockAction::Finalize);
    let finished = done.contains(BlockAction::FinishKept);
    let updated = done.contains(BlockAction::UpdateCreditsKeys);
    let published = done.contains(BlockAction::UnpauseWrites { discard: false });
    &&& !course.updates_keys ==> !updated
    &&& updated ==> finalized || finished
    &&& !queues ==> !paused && !published
    &&& course.kept ==> !finalized && !course.discards
    &&& !course.kept ==> !finished
    &&& finalized || finished ==> inserted
    &&& published ==> (finalized && (updated == course.updates_keys))
    &&& match way.phase {
        Phase::BuildState => false,
        Phase::DiscardKept => !course.kept && !paused && !inserted && !updated && !finalized
            && !finished && !way.failed && !published,
        Phase::Pause => queues && !paused && !inserted && !updated && !finalized && !finished
            && !way.failed && !published,
        Phase::Insert => paused == queues && !inserted && !updated && !finalized && !finished
            && !way.failed && !published,
        Phase::FinishKept => inserted && course.kept && !finished && !way.failed && !updated,
        Phase::Finalize => inserted && !course.kept && !finalized && paused == queues
            && !way.failed && !updated && !published,
        Phase::UpdateKeys => course.updates_keys && !updated && paused == queues && !way.failed
            && !published && (if course.kept {
            finished
        } else {
            finalized
        }),
        Phase::Unpause => queues && paused && finalized && updated == course.updates_keys
            && !way.failed && !published,
        Phase::Done => !way.failed ==> {
            &&& paused == queues
            &&& published == queues
            &&& inserted
            &&& updated == course.updates_keys
            &&& finalized == !course.kept
            &&& finished == course.kept
        },
        _ => way.failed && !published && !finalized && !finished && !updated,
    }
    &&& way.failed && !way.unclean ==> !published && !finalized && !finished && !updated
}

/// One more reply keeps the actions in order.
proof fn lemma_acts_in_order(course: Course, way: Way, done: Set<BlockAction>, succeeded: bool)
    requires
        acted_in_order(course, way, done),
    ensures
        acted_in_order(
            course,
            walk_one(course, way, succeeded),
            match action_of(way.phase) {
                Some(action) if succeeded => done.insert(action),
                _ => done,
            },
        ),
{
}

/// All replies keep the actions in order.
proof fn lemma_walk_acts_in_order(course: Course, way: Way, replies: Seq<bool>)
    requires
        acted_in_order(course, way, Set::empty()),
    ensures
        acted_in_order(
            course,
            walk(course, way, replies),
            succeeded_actions(course, way, replies),
        ),
    decreases replies.len(),
{
    if replies.len() > 0 {
        lemma_walk_acts_in_order(course, way, replies.drop_last());
        lemma_acts_in_order(
            course,
            walk(course, way, replies.drop_last()),
            succeeded_actions(course, way, replies.drop_last()),
            replies.last(),
        );
    }
}

/// A block that was added was inserted, and either its transactions were finalized or the batch that
/// was kept for it was finished, but not both. The verifying keys were updated exactly when the block is
/// the one at which they change, and queued writes were executed exactly when they had been paused.
pub proof fn law_added_block_went_through_its_actions(
    course: Course,
    stores: Stores,
    replies: Seq<bool>,
)
    requires
        course.kept ==> !course.discards,
    ensures
        ({
            let end = walk(course, setting_out(course, stores), replies);
            let done = succeeded_actions(course, setting_out(course, stores), replies);
            end.phase is Done && !end.failed ==> {
                &&& done.contains(BlockAction::InsertBlock)
                &&& done.contains(BlockAction::Finalize) <==> !course.kept
                &&& done.contains(BlockAction::FinishKept) <==> course.kept
                &&& done.contains(BlockAction::UpdateCreditsKeys) <==> course.updates_keys
                &&& done.contains(BlockAction::PauseWrites) <==> course.rocks && !course.kept
                &&& done.contains(BlockAction::UnpauseWrites { discard: false })
                    <==> course.rocks && !course.kept
            }
        }),
{
    lemma_walk_acts_in_order(course, setting_out(course, stores), replies);
}

/// The verifying keys are never updated, and the queued writes never executed, before the transactions
/// were finalized; and the transactions are finalized only once the block was inserted.
pub proof fn law_actions_wait_for_those_before_them(
    course: Course,
    stores: Stores,
    replies: Seq<bool>,
)
    requires
        course.kept ==> !course.discards,
    ensures
        ({
            let done = succeeded_actions(course, setting_out(course, stores), replies);
            &&& done.contains(BlockAction::UpdateCreditsKeys) ==> done.contains(
                BlockAction::Finalize,
            ) || done.contains(BlockAction::FinishKept)
            &&& done.contains(BlockAction::UnpauseWrites { discard: false }) ==> done.contains(
                BlockAction::Finalize,
            ) && (course.updates_keys ==> done.contains(BlockAction::UpdateCreditsKeys))
            &&& done.contains(BlockAction::Finalize) || done.contains(BlockAction::FinishKept)
                ==> done.contains(BlockAction::InsertBlock)
        }),
{
    lemma_walk_acts_in_order(course, setting_out(course, stores), replies);
}

/// Only aborting a batch cannot fail. All other actions can, and then their error is that of the
/// addition.
pub proof fn law_only_aborts_cannot_fail(phase: Phase)
    ensures
        action_of(phase) matches Some(action) ==> (infallible(phase) <==> match action {
            BlockAction::AbortFinalizeIfOpen => true,
            BlockAction::AbortBlockBatch => true,
            BlockAction::AbortFinalizeBatch => true,
            _ => false,
        }),
        action_of(phase) is None <==> phase is Done,
{
}

/// The error of an addition after the given phases and replies.
pub open spec fn error_of<E>(
    phases: Seq<Phase>,
    replies: Seq<Result<(), E>>,
) -> Option<E>
    decreases replies.len(),
{
    if replies.len() == 0 {
        None
    } else {
        next_error(
            phases[replies.len() - 1],
            error_of(phases, replies.drop_last()),
            replies.last(),
        )
    }
}

/// An addition has an error exactly when one of its actions failed that can fail, and the error is that
/// of the last one that did.
pub proof fn law_error_is_that_of_the_last_failure<E>(
    phases: Seq<Phase>,
    replies: Seq<Result<(), E>>,
)
    ensures
        match error_of(phases, replies) {
            None => forall|i: int|
                0 <= i < replies.len() && (#[trigger] replies[i]) is Err ==> infallible(phases[i]),
            Some(error) => exists|i: int|
                {
                    &&& 0 <= i < replies.len()
                    &&& (#[trigger] replies[i]) == Err::<(), E>(error)
                    &&& !infallible(phases[i])
                    &&& forall|j: int|
                        i < j < replies.len() && (#[trigger] replies[j]) is Err ==> infallible(
                            phases[j],
                        )
                },
        },
    decreases replies.len(),
{
    if replies.len() > 0 {
        let rest = replies.drop_last();
        law_error_is_that_of_the_last_failure(phases, rest);
        let last = replies.len() - 1;
        assert(replies[last] == replies.last());
        assert forall|i: int| 0 <= i < rest.len() implies rest[i] == #[trigger] replies[i] by {}
        if !(replies.last() is Err && !infallible(phases[last])) {
            match error_of(phases, rest) {
                Some(error) => {
                    let i = choose|i: int|
                        {
                            &&& 0 <= i < rest.len()
                            &&& (#[trigger] rest[i]) == Err::<(), E>(error)
                            &&& !infallible(phases[i])
                            &&& forall|j: int|
                                i < j < rest.len() && (#[trigger] rest[j]) is Err ==> infallible(
                                    phases[j],
                                )
                        };
                    assert(replies[i] == rest[i]);
                    assert forall|j: int|
                        i < j < replies.len() && (#[trigger] replies[j]) is Err implies infallible(
                        phases[j],
                    ) by {
                        if j < rest.len() {
                            assert(rest[j] == replies[j]);
                        }
                    }
                },
                None => {},
            }
        }
    }
}

/// An addition finishes a batch that the latest speculate kept exactly when it was kept for this block.
/// A batch that was kept for another block is discarded. What else the course depends on stays.
pub proof fn law_course_follows_the_latest_speculate(vm: VM, before: Course, hash: u64)
    ensures
        ({
            let course = decided_course(vm, before, hash);
            &&& course.rocks == before.rocks
            &&& course.updates_keys == before.updates_keys
            &&& match vm.entry() {
                None => !course.kept && !course.discards,
                Some(entry) => {
                    &&& course.kept <==> entry.batch_kept && entry.hash == Some(hash)
                    &&& course.discards <==> entry.batch_kept && entry.hash != Some(hash)
                },
            }
        }),
{
}

/// The verifying keys are updated at the height at which they change, and at no other; where none is
/// given, at the genesis block.
pub proof fn law_keys_change_at_their_height(rocks: bool, height: u32, keys_change_at: Option<u32>)
    ensures
        ({
            let course = starting_course(rocks, height, keys_change_at);
            &&& course.rocks == rocks
            &&& !course.kept && !course.discards
            &&& keys_change_at matches Some(at) ==> (course.updates_keys <==> height == at)
            &&& keys_change_at is None ==> (course.updates_keys <==> height == 0)
        }),
{
}

/// An addition sets out with the hash of its block, and with the finalize state of its header, whoever
/// proposed the block.
pub proof fn law_addition_sets_out_with_its_block<E>(
    block: Block,
    rocks: bool,
    beacon: Limits,
    timestamps_from: Option<u32>,
    keys_change_at: Option<u32>,
    version_heights: Vec<u32>,
    run: AddBlock<E>,
)
    requires
        call_ensures(
            AddBlock::<E>::new,
            (&block, rocks, beacon, timestamps_from, keys_change_at, &version_heights),
            run,
        ),
    ensures
        run.spec_hash() == block.hash,
        run.spec_args().round == block.header.metadata.round,
        run.spec_args().height == block.header.metadata.height,
        run.spec_args().timestamp matches Some(timestamp) ==> timestamp
            == block.header.metadata.timestamp,
        run.spec_args().timestamp is Some <==> (timestamps_from matches Some(from)
            ==> block.header.metadata.height >= from),
        run.spec_args().cumulative_weight == block.header.metadata.cumulative_weight,
        run.spec_args().cumulative_proof_target == block.header.metadata.cumulative_proof_target,
        run.spec_args().previous_hash == block.previous_hash,
        run.advances_version() <==> version_heights@.contains(block.header.metadata.height),
        run.spec_course().rocks == rocks,
        keys_change_at matches Some(at) ==> (run.spec_course().updates_keys
            <==> block.header.metadata.height == at),
        action_of(run.spec_phase()) == Some(BlockAction::BuildState),
        run.spec_error() is None,
{
}

/// A block is added along its way: each reply takes the addition one step on, its error is that of the
/// last action that failed, and its block stays the same.
pub proof fn law_addition_goes_its_way<E>(
    vm: &mut VM,
    run: AddBlock<E>,
    reply: Result<(), E>,
    next: AddBlock<E>,
    way: Way,
)
    requires
        old(vm).wf(),
        run.wf(old(vm).proc()),
        way.phase == run.spec_phase(),
        call_ensures(VM::add_next_block_inner::<E>, (vm, run, reply), next),
    ensures
        next.spec_phase() == walk_one(next.spec_course(), way, reply is Ok).phase,
        !(run.spec_phase() is BuildState) ==> next.spec_course() == run.spec_course(),
        next.spec_hash() == run.spec_hash(),
        next.spec_args() == run.spec_args(),
        reply is Ok ==> next.spec_error() == run.spec_error(),
        reply is Err && !infallible(run.spec_phase()) ==> next.spec_error() == Some(reply->Err_0),
{
}

/// Once the finalize state of a block is built, nothing is left of the latest speculate. The batch that
/// it kept is finished exactly when it was kept for this block, and then its parked stacks are taken
/// over; otherwise its rejection reasons are.
pub proof fn law_addition_takes_over_the_latest_speculate<E>(
    vm: &mut VM,
    run: AddBlock<E>,
    next: AddBlock<E>,
)
    requires
        old(vm).wf(),
        run.wf(old(vm).proc()),
        run.spec_phase() is BuildState,
        call_ensures(VM::add_next_block_inner::<E>, (vm, run, Ok::<(), E>(())), next),
    ensures
        final(vm).entry() is None,
        match old(vm).entry() {
            Some(entry) => if entry.batch_kept && entry.hash == Some(run.spec_hash()) {
                next.spec_course().kept && next.parked() == entry.parked_stacks@ && next.reasons()
                    == Map::<u64, u64>::empty()
            } else {
                !next.spec_course().kept && next.reasons() == entry.rejected_reasons@
                    && next.spec_course().discards == entry.batch_kept
            },
            None => !next.spec_course().kept && !next.spec_course().discards && next.reasons()
                == Map::<u64, u64>::empty(),
        },
{
}

/// A kept batch that was finished publishes its parked stacks: a program has its parked stack where
/// there is one, and else what it had. No other action changes the committed programs.
pub proof fn law_finished_batch_publishes_its_stacks<E>(
    vm: &mut VM,
    run: AddBlock<E>,
    reply: Result<(), E>,
    next: AddBlock<E>,
    program_id: u64,
)
    requires
        old(vm).wf(),
        run.wf(old(vm).proc()),
        call_ensures(VM::add_next_block_inner::<E>, (vm, run, reply), next),
    ensures
        action_of(run.spec_phase()) == Some(BlockAction::FinishKept) && reply is Ok ==> value_of(
            final(vm).proc().stacks(),
            program_id,
        ) == (match value_of(run.parked(), program_id) {
            Some(stack) => Some(stack),
            None => value_of(old(vm).proc().stacks(), program_id),
        }),
        !(action_of(run.spec_phase()) == Some(BlockAction::FinishKept) && reply is Ok)
            ==> final(vm).proc().stacks() == old(vm).proc().stacks(),
{
    old(vm).proc().lemma_wf();
    law_commit_publishes_speculate_stacks(
        old(vm).proc().stacks(),
        run.parked(),
        program_id,
    );
}

/// The partial verification cache is cleared exactly when a block that advances to a new consensus
/// version was added without an error.
pub proof fn law_new_version_clears_the_cache<E>(
    vm: &mut VM,
    run: AddBlock<E>,
    reply: Result<(), E>,
    next: AddBlock<E>,
)
    requires
        old(vm).wf(),
        run.wf(old(vm).proc()),
        !(run.spec_phase() is Done),
        call_ensures(VM::add_next_block_inner::<E>, (vm, run, reply), next),
    ensures
        next.spec_phase() is Done && next.spec_error() is None && run.advances_version()
            ==> cache_entries(final(vm).cache()).dom().is_empty(),
        !(next.spec_phase() is Done) || next.spec_error() is Some || !run.advances_version()
            ==> final(vm).cache() == old(vm).cache(),
{
}

} // verus!
