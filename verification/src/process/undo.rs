//! The undo log of staged stacks.
//!
//! Staging a stack replaces the stack of its program. The first time that a program is staged, the
//! undo log records the stack that it had, or that it had none. Replaying the log restores the map
//! of stacks, order included.

use crate::id_map::{
    cut, distinct_keys, has_key, lemma_cut, lemma_place, lemma_put, place_of, put, value_of,
};
use vstd::prelude::*;

verus! {

/// Stands in the undo log for "the program had no stack".
pub const NO_STACK: u64 = u64::MAX;

/// What the undo log records of a program, given the stacks before it was staged.
pub open spec fn undo_entry(stacks: Seq<(u64, u64)>, program_id: u64) -> u64 {
    match value_of(stacks, program_id) {
        Some(stack) => stack,
        None => NO_STACK,
    }
}

/// The undo log after a program was staged on top of `stacks`.
pub open spec fn log_undo(
    undo: Seq<(u64, u64)>,
    stacks: Seq<(u64, u64)>,
    program_id: u64,
) -> Seq<(u64, u64)> {
    if has_key(undo, program_id) {
        undo
    } else {
        undo.push((program_id, undo_entry(stacks, program_id)))
    }
}

/// The stacks after one entry of the undo log was replayed.
pub open spec fn replay_one(stacks: Seq<(u64, u64)>, entry: (u64, u64)) -> Seq<(u64, u64)> {
    if entry.1 == NO_STACK {
        cut(stacks, entry.0)
    } else {
        put(stacks, entry.0, entry.1)
    }
}

/// The stacks after the undo log was replayed, in order.
pub open spec fn replay(stacks: Seq<(u64, u64)>, undo: Seq<(u64, u64)>) -> Seq<(u64, u64)>
    decreases undo.len(),
{
    if undo.len() == 0 {
        stacks
    } else {
        replay_one(replay(stacks, undo.drop_last()), undo.last())
    }
}

/// `undo` leads from `stacks` back to `original`: the original programs come first, in their order,
/// each with its original stack or with that stack in the log; the programs after them are new, and
/// the log says so; and the log speaks of present programs only.
pub open spec fn leads_back(
    stacks: Seq<(u64, u64)>,
    undo: Seq<(u64, u64)>,
    original: Seq<(u64, u64)>,
) -> bool {
    &&& distinct_keys(stacks)
    &&& distinct_keys(undo)
    &&& original.len() <= stacks.len()
    &&& forall|i: int|
        0 <= i < original.len() ==> {
            &&& (#[trigger] original[i]).1 != NO_STACK
            &&& stacks[i].0 == original[i].0
            &&& match value_of(undo, original[i].0) {
                Some(stack) => stack == original[i].1,
                None => stacks[i].1 == original[i].1,
            }
        }
    &&& forall|i: int|
        original.len() <= i < stacks.len() ==> value_of(undo, (#[trigger] stacks[i]).0) == Some(
            NO_STACK,
        )
    &&& forall|i: int|
        0 <= i < undo.len() ==> has_key(stacks, (#[trigger] undo[i]).0)
}

/// With nothing staged, the empty log leads back to the stacks themselves.
pub proof fn lemma_leads_back_start(stacks: Seq<(u64, u64)>)
    requires
        distinct_keys(stacks),
        forall|i: int| 0 <= i < stacks.len() ==> (#[trigger] stacks[i]).1 != NO_STACK,
    ensures
        leads_back(stacks, Seq::empty(), stacks),
{
    assert forall|i: int| 0 <= i < stacks.len() implies value_of(
        Seq::<(u64, u64)>::empty(),
        (#[trigger] stacks[i]).0,
    ) is None by {}
}

/// Staging a stack keeps a log that leads back to the same stacks.
pub proof fn lemma_leads_back_stage(
    stacks: Seq<(u64, u64)>,
    undo: Seq<(u64, u64)>,
    original: Seq<(u64, u64)>,
    program_id: u64,
    stack: u64,
)
    requires
        leads_back(stacks, undo, original),
        forall|i: int| 0 <= i < stacks.len() ==> (#[trigger] stacks[i]).1 != NO_STACK,
    ensures
        leads_back(
            put(stacks, program_id, stack),
            log_undo(undo, stacks, program_id),
            original,
        ),
{
    let next = put(stacks, program_id, stack);
    let log = log_undo(undo, stacks, program_id);
    lemma_put(stacks, program_id, stack);
    if !has_key(undo, program_id) {
        lemma_put(undo, program_id, undo_entry(stacks, program_id));
    }
    assert(value_of(log, program_id) is Some);
    assert forall|i: int| 0 <= i < original.len() implies {
        &&& (#[trigger] original[i]).1 != NO_STACK
        &&& next[i].0 == original[i].0
        &&& match value_of(log, original[i].0) {
            Some(stack) => stack == original[i].1,
            None => next[i].1 == original[i].1,
        }
    } by {
        assert(stacks[i].0 == original[i].0);
        lemma_place(stacks, i);
    }
    assert forall|i: int| original.len() <= i < next.len() implies value_of(
        log,
        (#[trigger] next[i]).0,
    ) == Some(NO_STACK) by {
        if i < stacks.len() {
            assert(next[i].0 == stacks[i].0);
            lemma_place(stacks, i);
        }
    }
    assert forall|i: int| 0 <= i < log.len() implies has_key(next, (#[trigger] log[i]).0) by {
        let key = log[i].0;
        if i < undo.len() {
            assert(log[i] == undo[i]);
            let p = place_of(stacks, key);
            assert(next[p].0 == key);
        } else {
            let p = if has_key(stacks, key) { place_of(stacks, key) } else { stacks.len() as int };
            assert(next[p].0 == key);
        }
    }
}

/// Replaying the first entry of the log leaves a log, one entry shorter, that leads back to the same
/// stacks.
pub proof fn lemma_leads_back_replay(
    stacks: Seq<(u64, u64)>,
    undo: Seq<(u64, u64)>,
    original: Seq<(u64, u64)>,
)
    requires
        leads_back(stacks, undo, original),
        undo.len() > 0,
    ensures
        leads_back(replay_one(stacks, undo[0]), undo.drop_first(), original),
{
    let (key, recorded) = undo[0];
    let next = replay_one(stacks, undo[0]);
    let rest = undo.drop_first();
    lemma_place(undo, 0);
    assert(distinct_keys(rest)) by {
        assert forall|i: int, j: int|
            0 <= i < rest.len() && 0 <= j < rest.len() && i != j implies (#[trigger] rest[i]).0 != (
        #[trigger] rest[j]).0 by {
            assert(rest[i] == undo[i + 1] && rest[j] == undo[j + 1]);
        }
    }
    // The rest of the log says of the other programs what the log said.
    assert forall|other: u64| #[trigger] value_of(rest, other) == (if other == key {
        None
    } else {
        value_of(undo, other)
    }) by {
        if has_key(rest, other) {
            let p = place_of(rest, other);
            assert(rest[p] == undo[p + 1]);
            lemma_place(undo, p + 1);
        } else if has_key(undo, other) && other != key {
            let p = place_of(undo, other);
            assert(rest[p - 1] == undo[p]);
        }
    }
    assert(has_key(stacks, undo[0].0));
    let at = place_of(stacks, key);
    lemma_put(stacks, key, recorded);
    lemma_cut(stacks, key);
    assert(at < original.len() ==> recorded == original[at].1 && recorded != NO_STACK);
    assert(at >= original.len() ==> recorded == NO_STACK) by {
        if at >= original.len() {
            assert(value_of(undo, stacks[at].0) == Some(NO_STACK));
        }
    }
    assert forall|i: int| 0 <= i < original.len() implies {
        &&& (#[trigger] original[i]).1 != NO_STACK
        &&& next[i].0 == original[i].0
        &&& match value_of(rest, original[i].0) {
            Some(stack) => stack == original[i].1,
            None => next[i].1 == original[i].1,
        }
    } by {
        lemma_place(stacks, i);
    }
    assert forall|i: int| original.len() <= i < next.len() implies value_of(
        rest,
        (#[trigger] next[i]).0,
    ) == Some(NO_STACK) by {
        let a = if recorded == NO_STACK && i >= at { i + 1 } else { i };
        assert(next[i].0 == stacks[a].0);
        lemma_place(stacks, a);
        assert(value_of(undo, stacks[a].0) == Some(NO_STACK));
    }
    assert forall|i: int| 0 <= i < rest.len() implies has_key(next, (#[trigger] rest[i]).0) by {
        assert(rest[i] == undo[i + 1]);
        let other = rest[i].0;
        assert(has_key(stacks, undo[i + 1].0));
        assert(value_of(next, other) == value_of(stacks, other));
    }
}

/// Replaying entry by entry from the front is replaying the log.
pub proof fn lemma_replay_front(stacks: Seq<(u64, u64)>, undo: Seq<(u64, u64)>)
    requires
        undo.len() > 0,
    ensures
        replay(stacks, undo) == replay(replay_one(stacks, undo[0]), undo.drop_first()),
    decreases undo.len(),
{
    reveal_with_fuel(replay, 2);
    let rest = undo.drop_first();
    if undo.len() > 1 {
        lemma_replay_front(stacks, undo.drop_last());
        assert(undo.drop_last().drop_first() =~= rest.drop_last());
        assert(rest.last() == undo.last());
    } else {
        assert(rest =~= Seq::empty());
        assert(undo.drop_last() =~= Seq::empty());
    }
}

/// Replaying a log that leads back restores the original stacks exactly, order included.
pub proof fn law_replay_restores(
    stacks: Seq<(u64, u64)>,
    undo: Seq<(u64, u64)>,
    original: Seq<(u64, u64)>,
)
    requires
        leads_back(stacks, undo, original),
    ensures
        replay(stacks, undo) == original,
    decreases undo.len(),
{
    if undo.len() == 0 {
        assert(stacks.len() == original.len()) by {
            if original.len() < stacks.len() {
                let i = original.len() as int;
                assert(value_of(undo, stacks[i].0) == Some(NO_STACK));
            }
        }
        assert forall|i: int| 0 <= i < original.len() implies stacks[i] == #[trigger] original[i] by {
            assert(value_of(undo, original[i].0) is None);
        }
        assert(stacks =~= original);
    } else {
        lemma_leads_back_replay(stacks, undo, original);
        lemma_replay_front(stacks, undo);
        law_replay_restores(replay_one(stacks, undo[0]), undo.drop_first(), original);
    }
}

} // verus!
