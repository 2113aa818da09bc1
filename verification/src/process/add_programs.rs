//! Adding programs to the process.

use crate::id_map::{distinct_keys, has_key, lemma_put, place_of, put, value_of};
use crate::process::program::{Program, Stack};
use crate::process::stacks::{Process, ProcessError};
use crate::process::undo::{
    law_replay_restores, leads_back, lemma_leads_back_stage, lemma_leads_back_start, log_undo,
    replay, NO_STACK,
};
use vstd::prelude::*;

verus! {

/// Why a program was not added.
#[derive(Debug)]
pub enum AddError<E> {
    /// The stack of a program could not be retrieved.
    Process(ProcessError),
    /// The stack of a program could not be computed, or is not well-formed.
    Stack(E),
}

/// The programs that are added: all but `credits.aleo`, in order.
pub open spec fn to_add(programs: Seq<(Program, u16)>, credits: u64) -> Seq<(Program, u16)> {
    programs.filter(|entry: (Program, u16)| entry.0.id != credits)
}

/// The map of stacks after the stacks `made` were staged in order, numbered from `first`.
pub open spec fn stage_all(
    stacks: Seq<(u64, u64)>,
    first: nat,
    made: Seq<Stack>,
) -> Seq<(u64, u64)>
    decreases made.len(),
{
    if made.len() == 0 {
        stacks
    } else {
        put(
            stage_all(stacks, first, made.drop_last()),
            made.last().program.id,
            (first + made.len() - 1) as u64,
        )
    }
}

/// The undo log after the stacks `made` were staged in order, numbered from `first`.
pub open spec fn undo_all(
    undo: Seq<(u64, u64)>,
    stacks: Seq<(u64, u64)>,
    first: nat,
    made: Seq<Stack>,
) -> Seq<(u64, u64)>
    decreases made.len(),
{
    if made.len() == 0 {
        undo
    } else {
        log_undo(
            undo_all(undo, stacks, first, made.drop_last()),
            stage_all(stacks, first, made.drop_last()),
            made.last().program.id,
        )
    }
}

/// `process` is `before` with the stacks `made` staged in order.
pub open spec fn staged_onto(process: Process, before: Process, made: Seq<Stack>) -> bool {
    &&& process.wf()
    &&& process.arena() == before.arena() + made
    &&& process.stacks() == stage_all(before.stacks(), before.arena().len(), made)
    &&& process.undo() == undo_all(
        before.undo(),
        before.stacks(),
        before.arena().len(),
        made,
    )
    &&& process.staged() == before.staged()
}

/// Computing the raw stack of `entry` gave `outcome`, asked of the process with `made` staged.
pub open spec fn raw_outcome<E, New: Fn(&Process, &Program, u16) -> Result<Stack, E>>(
    new_raw: New,
    before: Process,
    made: Seq<Stack>,
    entry: (Program, u16),
    outcome: Result<Stack, E>,
) -> bool {
    exists|process: Process| #[trigger]
        staged_onto(process, before, made) && call_ensures(
            new_raw,
            (&process, &entry.0, entry.1),
            outcome,
        )
}

/// The stacks `made` are those that were computed of the entries, in order, each of the process with
/// the earlier ones staged.
pub open spec fn made_from<E, New: Fn(&Process, &Program, u16) -> Result<Stack, E>>(
    new_raw: New,
    before: Process,
    made: Seq<Stack>,
    entries: Seq<(Program, u16)>,
) -> bool {
    &&& made.len() == entries.len()
    &&& forall|i: int|
        0 <= i < made.len() ==> raw_outcome(
            new_raw,
            before,
            #[trigger] made.take(i),
            entries[i],
            Ok::<Stack, E>(made[i]),
        )
}

/// Retrieving and checking the stack of `program_id` gave `outcome`, asked of the process with all of
/// `made` staged.
pub open spec fn check_outcome<E, Check: Fn(&Process, &Stack) -> Result<(), E>>(
    check: Check,
    before: Process,
    made: Seq<Stack>,
    program_id: u64,
    outcome: Result<(), AddError<E>>,
) -> bool {
    exists|process: Process| #[trigger]
        staged_onto(process, before, made) && match process.stack_of(program_id) {
            None => outcome == Err::<(), _>(
                AddError::<E>::Process(ProcessError::ProgramDoesNotExist { program_id }),
            ),
            Some(stack) => match outcome {
                Ok(()) => call_ensures(check, (&process, &stack), Ok::<(), E>(())),
                Err(AddError::Stack(error)) => call_ensures(
                    check,
                    (&process, &stack),
                    Err::<(), E>(error),
                ),
                Err(AddError::Process(_)) => false,
            },
        }
}

/// The stacks of the first `count` programs were retrieved and are well-formed.
pub open spec fn all_checked<E, Check: Fn(&Process, &Stack) -> Result<(), E>>(
    check: Check,
    before: Process,
    made: Seq<Stack>,
    programs: Seq<(Program, u16)>,
    count: int,
) -> bool {
    forall|i: int|
        0 <= i < count ==> check_outcome(
            check,
            before,
            made,
            (#[trigger] programs[i]).0.id,
            Ok::<(), AddError<E>>(()),
        )
}

/// All programs were added: their stacks were computed, every program was checked with all of them
/// in place, and `after` has them.
pub open spec fn all_added<
    E,
    New: Fn(&Process, &Program, u16) -> Result<Stack, E>,
    Check: Fn(&Process, &Stack) -> Result<(), E>,
>(
    new_raw: New,
    check: Check,
    before: Process,
    programs: Seq<(Program, u16)>,
    credits: u64,
    made: Seq<Stack>,
    after: Process,
) -> bool {
    &&& made_from(new_raw, before, made, to_add(programs, credits))
    &&& all_checked(check, before, made, programs, programs.len() as int)
    &&& after.arena() == before.arena() + made
    &&& after.stacks() == stage_all(before.stacks(), before.arena().len(), made)
}

/// The programs were refused with `error`: the stack of one could not be computed after those of the
/// earlier ones, or, with the stacks of all in place, one could not be retrieved or is not
/// well-formed while the earlier ones are.
pub open spec fn refused_with<
    E,
    New: Fn(&Process, &Program, u16) -> Result<Stack, E>,
    Check: Fn(&Process, &Stack) -> Result<(), E>,
>(
    new_raw: New,
    check: Check,
    before: Process,
    programs: Seq<(Program, u16)>,
    credits: u64,
    made: Seq<Stack>,
    checked: int,
    error: AddError<E>,
) -> bool {
    let entries = to_add(programs, credits);
    ||| {
        &&& made.len() < entries.len()
        &&& made_from(new_raw, before, made, entries.take(made.len() as int))
        &&& error matches AddError::Stack(error) && raw_outcome(
            new_raw,
            before,
            made,
            entries[made.len() as int],
            Err::<Stack, E>(error),
        )
    }
    ||| {
        &&& made_from(new_raw, before, made, entries)
        &&& 0 <= checked < programs.len()
        &&& all_checked(check, before, made, programs, checked)
        &&& check_outcome(check, before, made, programs[checked].0.id, Err::<(), _>(error))
    }
}

/// The calls that adding the programs takes: the stack of each is computed with those of the earlier
/// ones staged, `credits.aleo` aside; and once all are staged, each is checked after the earlier ones.
pub open spec fn may_add<
    E,
    New: Fn(&Process, &Program, u16) -> Result<Stack, E>,
    Check: Fn(&Process, &Stack) -> Result<(), E>,
>(
    new_raw: New,
    check: Check,
    before: Process,
    programs: Seq<(Program, u16)>,
    credits: u64,
) -> bool {
    let entries = to_add(programs, credits);
    &&& forall|process: Process, made: Seq<Stack>|
        #[trigger] staged_onto(process, before, made) && made.len() < entries.len() && made_from(
            new_raw,
            before,
            made,
            entries.take(made.len() as int),
        ) ==> call_requires(
            new_raw,
            (&process, &entries[made.len() as int].0, entries[made.len() as int].1),
        )
    &&& forall|process: Process, made: Seq<Stack>, i: int|
        #![trigger staged_onto(process, before, made), programs[i]]
        staged_onto(process, before, made) && made_from(new_raw, before, made, entries) && 0 <= i
            < programs.len() && all_checked(check, before, made, programs, i) ==> (
        process.stack_of(programs[i].0.id) matches Some(stack) ==> call_requires(
            check,
            (&process, &stack),
        ))
}

/// Staging stacks keeps a log that leads back to the same stacks.
proof fn lemma_leads_back_stage_all(
    process: Process,
    before: Process,
    made: Seq<Stack>,
    original: Seq<(u64, u64)>,
)
    requires
        before.wf(),
        staged_onto(process, before, made),
        leads_back(before.stacks(), before.undo(), original),
    ensures
        leads_back(process.stacks(), process.undo(), original),
{
    process.lemma_wf();
    lemma_leads_back_stages(before, made, original);
}

/// Staging stacks one by one keeps a log that leads back to the same stacks.
proof fn lemma_leads_back_stages(before: Process, made: Seq<Stack>, original: Seq<(u64, u64)>)
    requires
        before.wf(),
        leads_back(before.stacks(), before.undo(), original),
        before.arena().len() + made.len() <= usize::MAX,
    ensures
        ({
            let first = before.arena().len();
            let stacks = stage_all(before.stacks(), first, made);
            &&& leads_back(stacks, undo_all(before.undo(), before.stacks(), first, made), original)
            &&& forall|i: int|
                0 <= i < stacks.len() ==> (#[trigger] stacks[i]).1
                    != NO_STACK
        }),
    decreases made.len(),
{
    let first = before.arena().len();
    if made.len() == 0 {
        before.lemma_wf();
    } else {
        lemma_leads_back_stages(before, made.drop_last(), original);
        let stacks = stage_all(before.stacks(), first, made.drop_last());
        let undo = undo_all(before.undo(), before.stacks(), first, made.drop_last());
        let number = (first + made.len() - 1) as u64;
        lemma_leads_back_stage(stacks, undo, original, made.last().program.id, number);
        let next = put(stacks, made.last().program.id, number);
        assert forall|i: int| 0 <= i < next.len() implies (#[trigger] next[i]).1
            != NO_STACK by {
            if i < stacks.len() && next[i] != (made.last().program.id, number) {
                assert(next[i] == stacks[i]);
            }
        }
    }
}

/// Reverting undoes the staging of any stacks: the map of stacks is what it was, order included.
pub proof fn law_revert_undoes_staging(process: Process, before: Process, made: Seq<Stack>)
    requires
        before.wf(),
        before.undo().len() == 0,
        staged_onto(process, before, made),
    ensures
        replay(process.stacks(), process.undo()) == before.stacks(),
{
    before.lemma_wf();
    lemma_leads_back_start(before.stacks());
    assert(before.undo() =~= Seq::empty());
    lemma_leads_back_stage_all(process, before, made, before.stacks());
    law_replay_restores(process.stacks(), process.undo(), before.stacks());
}

/// Once the staged stacks are committed, which clears the undo log, reverting changes nothing.
pub proof fn law_commit_settles_staging(stacks: Seq<(u64, u64)>)
    ensures
        replay(stacks, Seq::empty()) == stacks,
{
}

impl Process {
    /// Adds a new program to the process, whose stack `new` computes. If the program exists, then the
    /// existing stack is replaced. The `credits.aleo` program is never replaced.
    pub fn add_program<E, New: FnOnce(&Process, &Program) -> Result<Stack, E>>(
        &mut self,
        credits: u64,
        program: &Program,
        new: New,
    ) -> (result: Result<(), E>)
        requires
            old(self).wf(),
            program.id != credits ==> call_requires(new, (&*old(self), program)),
        ensures
            final(self).wf(),
            program.id == credits ==> result is Ok && *final(self) == *old(self),
            program.id != credits ==> match result {
                Ok(()) => exists|stack: Stack|
                    {
                        &&& call_ensures(new, (&*old(self), program), Ok::<Stack, E>(stack))
                        &&& final(self).arena() == #[trigger] old(self).arena().push(stack)
                        &&& final(self).stacks() == put(
                            old(self).stacks(),
                            stack.program.id,
                            old(self).arena().len() as u64,
                        )
                        &&& final(self).staged() == old(self).staged()
                        &&& final(self).undo() == old(self).undo()
                    },
                Err(error) => *final(self) == *old(self) && call_ensures(
                    new,
                    (&*old(self), program),
                    Err::<Stack, E>(error),
                ),
            },
    {
        if program.id != credits {
            match new(&*self, program) {
                Ok(stack) => {
                    self.add_stack(stack);
                },
                Err(error) => {
                    return Err(error);
                },
            }
        }
        Ok(())
    }

    /// Adds a new program with the given edition to the process, verifying that it is a valid
    /// addition. If the program exists, then the existing stack is replaced. The `credits.aleo`
    /// program is never replaced.
    pub fn add_program_with_edition<
        E,
        New: FnOnce(&Process, &Program, u16) -> Result<Stack, E>,
        Check: FnOnce(&Process, &Stack) -> Result<(), E>,
    >(&mut self, credits: u64, program: &Program, edition: u16, new_raw: New, check: Check) -> (result:
        Result<(), E>)
        requires
            old(self).wf(),
            program.id != credits ==> call_requires(new_raw, (&*old(self), program, edition)),
            forall|stack: Stack|
                program.id != credits && #[trigger] call_ensures(
                    new_raw,
                    (&*old(self), program, edition),
                    Ok::<Stack, E>(stack),
                ) ==> call_requires(check, (&*old(self), &stack)),
        ensures
            final(self).wf(),
            program.id == credits ==> result is Ok && *final(self) == *old(self),
            program.id != credits ==> match result {
                Ok(()) => exists|stack: Stack|
                    {
                        &&& call_ensures(
                            new_raw,
                            (&*old(self), program, edition),
                            Ok::<Stack, E>(stack),
                        )
                        &&& call_ensures(check, (&*old(self), &stack), Ok::<(), E>(()))
                        &&& final(self).arena() == #[trigger] old(self).arena().push(stack)
                        &&& final(self).stacks() == put(
                            old(self).stacks(),
                            stack.program.id,
                            old(self).arena().len() as u64,
                        )
                        &&& final(self).staged() == old(self).staged()
                        &&& final(self).undo() == old(self).undo()
                    },
                Err(error) => *final(self) == *old(self) && (call_ensures(
                    new_raw,
                    (&*old(self), program, edition),
                    Err::<Stack, E>(error),
                ) || exists|stack: Stack|
                    call_ensures(new_raw, (&*old(self), program, edition), Ok::<Stack, E>(stack))
                        && #[trigger] call_ensures(
                        check,
                        (&*old(self), &stack),
                        Err::<(), E>(error),
                    )),
            },
    {
        if program.id != credits {
            let stack = match new_raw(&*self, program, edition) {
                Ok(stack) => stack,
                Err(error) => {
                    return Err(error);
                },
            };
            let checked = check(&*self, &stack);
            match checked {
                Ok(unit) => {
                    assert(unit == ());
                },
                Err(error) => {
                    return Err(error);
                },
            }
            self.add_stack(stack);
        }
        Ok(())
    }

    /// Adds a set of programs and editions, in topological order, to the process, deferring
    /// validation of the programs until all programs are added. If a program exists, then the
    /// existing stack is replaced. The `credits.aleo` program is never replaced.
    ///
    /// Either all programs are added or none are.
    #[verifier::spinoff_prover]
    #[verifier::rlimit(60)]
    pub fn add_programs_with_editions<
        E,
        New: Fn(&Process, &Program, u16) -> Result<Stack, E>,
        Check: Fn(&Process, &Stack) -> Result<(), E>,
    >(
        &mut self,
        credits: u64,
        programs: &Vec<(Program, u16)>,
        new_raw: New,
        check: Check,
    ) -> (result: Result<(), AddError<E>>)
        requires
            old(self).wf(),
            may_add(new_raw, check, *old(self), programs@, credits),
        ensures
            final(self).wf(),
            final(self).staged() == old(self).staged(),
            final(self).undo() == Seq::<(u64, u64)>::empty(),
            match result {
                Ok(()) => exists|made: Seq<Stack>| #[trigger]
                    all_added(
                        new_raw,
                        check,
                        *old(self),
                        programs@,
                        credits,
                        made,
                        *final(self),
                    ),
                Err(error) => {
                    &&& old(self).arena().len() <= final(self).arena().len()
                    &&& final(self).arena().take(old(self).arena().len() as int) == old(self).arena()
                    &&& forall|original: Seq<(u64, u64)>| #[trigger]
                        leads_back(old(self).stacks(), old(self).undo(), original)
                            ==> final(self).stacks() == original
                    &&& old(self).undo().len() == 0 ==> {
                        &&& final(self).stacks() == old(self).stacks()
                        &&& final(self).programs() == old(self).programs()
                        &&& forall|program_id: u64| #[trigger]
                            final(self).stack_of(program_id) == old(self).stack_of(program_id)
                    }
                    &&& exists|made: Seq<Stack>, checked: int| #[trigger]
                        refused_with(
                            new_raw,
                            check,
                            *old(self),
                            programs@,
                            credits,
                            made,
                            checked,
                            error,
                        )
                },
            },
    {
        let ghost mut made: Seq<Stack> = Seq::empty();
        // Initialize raw stacks for each of the programs, skipping `credits.aleo`.
        let mut i: usize = 0;
        proof {
            reveal(Seq::filter);
            assert(programs@.take(0) =~= Seq::empty());
            assert(self.arena() + made =~= self.arena());
        }
        while i < programs.len()
            invariant
                may_add(new_raw, check, *old(self), programs@, credits),
                i <= programs@.len(),
                old(self).wf(),
                staged_onto(*self, *old(self), made),
                made_from(new_raw, *old(self), made, to_add(programs@.take(i as int), credits)),
            decreases programs@.len() - i,
        {
            let (program, edition) = &programs[i];
            let ghost entries = to_add(programs@.take(i as int), credits);
            proof {
                lemma_to_add_next(programs@, credits, i as int);
            }
            if program.id != credits {
                let stack = new_raw(&*self, program, *edition);
                match stack {
                    Ok(stack) => {
                        let ghost next = made.push(stack);
                        proof {
                            assert(raw_outcome(
                                new_raw,
                                *old(self),
                                made,
                                programs@[i as int],
                                Ok::<Stack, E>(stack),
                            ));
                            assert forall|j: int| 0 <= j < next.len() implies raw_outcome(
                                new_raw,
                                *old(self),
                                #[trigger] next.take(j),
                                entries.push(programs@[i as int])[j],
                                Ok::<Stack, E>(next[j]),
                            ) by {
                                if j < made.len() {
                                    assert(next.take(j) =~= made.take(j));
                                } else {
                                    assert(next.take(j) =~= made);
                                }
                            }
                            assert(next.drop_last() =~= made);
                            assert(old(self).arena() + next =~= (old(self).arena() + made).push(
                                stack,
                            ));
                        }
                        self.stage_stack(stack);
                        proof {
                            made = next;
                        }
                    },
                    Err(error) => {
                        let failure = AddError::Stack(error);
                        proof {
                            assert(raw_outcome(
                                new_raw,
                                *old(self),
                                made,
                                programs@[i as int],
                                Err::<Stack, E>(error),
                            ));
                            assert(refused_with(
                                new_raw,
                                check,
                                *old(self),
                                programs@,
                                credits,
                                made,
                                0,
                                failure,
                            ));
                        }
                        self.undo_staging(Ghost(*old(self)), Ghost(made));
                        proof {
                            assert(self.arena().take(old(self).arena().len() as int)
                                =~= old(self).arena());
                        }
                        return Err(failure);
                    },
                }
            }
            i = i + 1;
        }
        proof {
            assert(programs@.take(programs@.len() as int) =~= programs@);
        }
        // For each stack, check it before it is committed.
        let mut j: usize = 0;
        while j < programs.len()
            invariant
                may_add(new_raw, check, *old(self), programs@, credits),
                j <= programs@.len(),
                old(self).wf(),
                staged_onto(*self, *old(self), made),
                made_from(new_raw, *old(self), made, to_add(programs@, credits)),
                all_checked(check, *old(self), made, programs@, j as int),
            decreases programs@.len() - j,
        {
            let program_id = programs[j].0.id;
            let checked = match self.get_stack(program_id) {
                Ok(stack) => match check(&*self, stack) {
                    Ok(unit) => {
                        assert(unit == ());
                        Ok(())
                    },
                    Err(error) => Err(AddError::Stack(error)),
                },
                Err(error) => Err(AddError::Process(error)),
            };
            assert(check_outcome(check, *old(self), made, program_id, checked));
            match checked {
                Ok(unit) => {
                    assert(unit == ());
                },
                Err(error) => {
                    assert(refused_with(
                        new_raw,
                        check,
                        *old(self),
                        programs@,
                        credits,
                        made,
                        j as int,
                        error,
                    ));
                    self.undo_staging(Ghost(*old(self)), Ghost(made));
                    proof {
                        assert(self.arena().take(old(self).arena().len() as int)
                            =~= old(self).arena());
                    }
                    return Err(error);
                },
            }
            j = j + 1;
        }
        // Commit the staged stacks.
        self.commit_stacks();
        proof {
            assert(all_added(
                new_raw,
                check,
                *old(self),
                programs@,
                credits,
                made,
                *self,
            ));
        }
        Ok(())
    }

    /// Reverts the stacks that were staged onto `before`.
    fn undo_staging(&mut self, Ghost(before): Ghost<Process>, Ghost(made): Ghost<Seq<Stack>>)
        requires
            before.wf(),
            staged_onto(*old(self), before, made),
        ensures
            final(self).wf(),
            final(self).arena() == before.arena() + made,
            final(self).staged() == before.staged(),
            final(self).undo() == Seq::<(u64, u64)>::empty(),
            forall|original: Seq<(u64, u64)>| #[trigger]
                leads_back(before.stacks(), before.undo(), original) ==> final(self).stacks()
                    == original,
            before.undo().len() == 0 ==> {
                &&& final(self).stacks() == before.stacks()
                &&& final(self).programs() == before.programs()
                &&& forall|program_id: u64| #[trigger]
                    final(self).stack_of(program_id) == before.stack_of(program_id)
            },
    {
        proof {
            assert forall|original: Seq<(u64, u64)>| #[trigger]
                leads_back(before.stacks(), before.undo(), original) implies replay(
                self.stacks(),
                self.undo(),
            ) == original by {
                lemma_leads_back_stage_all(*self, before, made, original);
                law_replay_restores(self.stacks(), self.undo(), original);
            }
            before.lemma_wf();
            if before.undo().len() == 0 {
                lemma_leads_back_start(before.stacks());
                assert(before.undo() =~= Seq::empty());
            }
        }
        self.revert_stacks();
        proof {
            if before.undo().len() == 0 {
                assert forall|k: int| 0 <= k < before.stacks().len() implies (
                #[trigger] before.stacks()[k]).1 < before.arena().len() by {}
                assert(self.programs() =~= before.programs());
                assert forall|program_id: u64| #[trigger]
                    self.stack_of(program_id) == before.stack_of(program_id) by {
                    if has_key(before.staged(), program_id) {
                        let place = place_of(before.staged(), program_id);
                        assert(before.staged()[place].1 < before.arena().len());
                    } else if has_key(before.stacks(), program_id) {
                        let place = place_of(before.stacks(), program_id);
                        assert(before.stacks()[place].1 < before.arena().len());
                    }
                }
            }
        }
    }
}

/// What is added of one more program.
proof fn lemma_to_add_next(programs: Seq<(Program, u16)>, credits: u64, i: int)
    requires
        0 <= i < programs.len(),
    ensures
        to_add(programs.take(i + 1), credits) == (if programs[i].0.id != credits {
            to_add(programs.take(i), credits).push(programs[i])
        } else {
            to_add(programs.take(i), credits)
        }),
        programs[i].0.id != credits ==> {
            let some = to_add(programs.take(i), credits);
            let all = to_add(programs, credits);
            some.len() < all.len() && all.take(some.len() as int) == some && all[some.len() as int]
                == programs[i]
        },
{
    let wanted = |entry: (Program, u16)| entry.0.id != credits;
    reveal(Seq::filter);
    let some = programs.take(i);
    let next = programs.take(i + 1);
    assert(next.drop_last() =~= some);
    let rest = programs.skip(i + 1);
    assert(programs =~= next + rest);
    Seq::filter_distributes_over_add(next, rest, wanted);
    if wanted(programs[i]) {
        let all = programs.filter(wanted);
        assert(all.take(some.filter(wanted).len() as int) =~= some.filter(wanted));
    }
}

/// The programs that are added are the given ones other than `credits.aleo`, and all of these.
pub proof fn law_all_but_credits_are_added(
    programs: Seq<(Program, u16)>,
    credits: u64,
    entry: (Program, u16),
)
    ensures
        to_add(programs, credits).contains(entry) <==> programs.contains(entry) && entry.0.id
            != credits,
    decreases programs.len(),
{
    reveal(Seq::filter);
    if programs.len() > 0 {
        let rest = programs.drop_last();
        let last = programs.last();
        law_all_but_credits_are_added(rest, credits, entry);
        assert(programs[programs.len() - 1] == last);
        if rest.contains(entry) {
            let i = choose|i: int| 0 <= i < rest.len() && rest[i] == entry;
            assert(programs[i] == entry);
        }
        if programs.contains(entry) && entry != last {
            let i = choose|i: int| 0 <= i < programs.len() && programs[i] == entry;
            assert(rest[i] == entry);
        }
        if last.0.id != credits {
            let before = to_add(rest, credits);
            let all = to_add(programs, credits);
            assert(all =~= before.push(last));
            assert(all[before.len() as int] == last);
            if before.contains(entry) {
                let i = choose|i: int| 0 <= i < before.len() && before[i] == entry;
                assert(all[i] == entry);
            }
            if all.contains(entry) && entry != last {
                let i = choose|i: int| 0 <= i < all.len() && all[i] == entry;
                assert(before[i] == entry);
            }
        }
    }
}

/// The programs that are added keep their order.
pub proof fn law_added_programs_keep_their_order(
    some: Seq<(Program, u16)>,
    others: Seq<(Program, u16)>,
    credits: u64,
)
    ensures
        to_add(some + others, credits) == to_add(some, credits) + to_add(others, credits),
{
    Seq::filter_distributes_over_add(
        some,
        others,
        |entry: (Program, u16)| entry.0.id != credits,
    );
}

/// After stacks were staged, the map has the number of the last one of each of their programs, and for
/// every other program what it had.
pub proof fn law_staged_stacks_replace_earlier_ones(
    stacks: Seq<(u64, u64)>,
    first: nat,
    made: Seq<Stack>,
    program_id: u64,
)
    requires
        distinct_keys(stacks),
        first + made.len() <= u64::MAX,
    ensures
        distinct_keys(stage_all(stacks, first, made)),
        (forall|j: int| 0 <= j < made.len() ==> (#[trigger] made[j]).program.id != program_id)
            ==> value_of(stage_all(stacks, first, made), program_id) == value_of(
            stacks,
            program_id,
        ),
        forall|i: int|
            0 <= i < made.len() && (#[trigger] made[i]).program.id == program_id && (forall|j: int|
                i < j < made.len() ==> (#[trigger] made[j]).program.id != program_id) ==> value_of(
                stage_all(stacks, first, made),
                program_id,
            ) == Some((first + i) as u64),
    decreases made.len(),
{
    if made.len() > 0 {
        let rest = made.drop_last();
        let last = made.last();
        law_staged_stacks_replace_earlier_ones(stacks, first, rest, program_id);
        lemma_put(
            stage_all(stacks, first, rest),
            last.program.id,
            (first + made.len() - 1) as u64,
        );
        assert(made[made.len() - 1] == last);
        assert forall|j: int| 0 <= j < rest.len() implies #[trigger] rest[j] == made[j] by {}
        assert forall|i: int|
            0 <= i < made.len() && (#[trigger] made[i]).program.id == program_id && (forall|j: int|
                i < j < made.len() ==> (#[trigger] made[j]).program.id != program_id) implies
            value_of(stage_all(stacks, first, made), program_id) == Some((first + i) as u64) by {
            if i < rest.len() {
                assert(rest[i] == made[i]);
                assert forall|j: int| i < j < rest.len() implies (
                #[trigger] rest[j]).program.id != program_id by {
                    assert(rest[j] == made[j]);
                }
                assert(made[made.len() - 1].program.id != program_id);
            }
        }
    }
}

/// Where all programs were added, there is one stack for each of those other than `credits.aleo`,
/// computed of it and its edition, in order, with the earlier ones staged; and the stack of every
/// program, as a lookup finds it with all of them staged, was found well-formed.
pub proof fn law_added_programs_were_computed_and_checked<
    E,
    New: Fn(&Process, &Program, u16) -> Result<Stack, E>,
    Check: Fn(&Process, &Stack) -> Result<(), E>,
>(
    new_raw: New,
    check: Check,
    before: Process,
    programs: Seq<(Program, u16)>,
    credits: u64,
    made: Seq<Stack>,
    after: Process,
    added: int,
    checked: int,
)
    requires
        all_added(new_raw, check, before, programs, credits, made, after),
        0 <= added < made.len(),
        0 <= checked < programs.len(),
    ensures
        ({
            let entries = programs.filter(|entry: (Program, u16)| entry.0.id != credits);
            &&& made.len() == entries.len()
            &&& exists|process: Process|
                {
                    &&& #[trigger] staged_onto(process, before, made.take(added))
                    &&& call_ensures(
                        new_raw,
                        (&process, &entries[added].0, entries[added].1),
                        Ok::<Stack, E>(made[added]),
                    )
                }
            &&& exists|process: Process|
                {
                    &&& #[trigger] staged_onto(process, before, made)
                    &&& process.stack_of(programs[checked].0.id) matches Some(stack)
                        && call_ensures(check, (&process, &stack), Ok::<(), E>(()))
                }
        }),
        after.arena() == before.arena() + made,
{
    let entries = to_add(programs, credits);
    assert(raw_outcome(
        new_raw,
        before,
        made.take(added),
        entries[added],
        Ok::<Stack, E>(made[added]),
    ));
    assert(check_outcome(
        check,
        before,
        made,
        programs[checked].0.id,
        Ok::<(), AddError<E>>(()),
    ));
}

} // verus!
