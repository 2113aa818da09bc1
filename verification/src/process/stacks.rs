//! The maps from program IDs to stacks.

use crate::id_map::{
    distinct_keys, has_key, keys_of, lemma_cut, lemma_place, lemma_put, place_of, put, value_of,
    IdMap,
};
use crate::process::program::{PlaintextType, Program, Stack};
use crate::process::undo::{log_undo, replay, replay_one, NO_STACK};
use vstd::prelude::*;

verus! {

/// Why the process has no answer.
#[derive(Copy, Clone, Debug, PartialEq, Eq, Structural)]
pub enum ProcessError {
    /// No program with this ID exists.
    ProgramDoesNotExist { program_id: u64 },
    /// A program refers to a struct that is not defined.
    StructNotDefined { program_id: u64, name: u64 },
}

/// The programs known to the virtual machine.
///
/// The maps hold numbers of stacks, which stand for the stacks of `arena` at those places.
pub struct Process {
    /// All stacks that were added.
    arena: Vec<Stack>,
    /// The mapping of program IDs to stacks.
    stacks: IdMap,
    /// Stacks accepted by the open speculate. Stack lookup prefers these over `stacks`.
    staged_stacks: IdMap,
    /// `true` while `staged_stacks` is non-empty.
    staged_stacks_active: bool,
    /// The undo log of staged stacks: the mapping of program IDs to old stacks.
    old_stacks: IdMap,
}

/// Each entry maps a program ID to a stack of that program.
pub open spec fn keyed_by_program(arena: Seq<Stack>, entries: Seq<(u64, u64)>) -> bool {
    forall|i: int|
        0 <= i < entries.len() ==> {
            &&& (#[trigger] entries[i]).1 < arena.len()
            &&& entries[i].1 != NO_STACK
            &&& arena[entries[i].1 as int].program.id == entries[i].0
        }
}

/// Each entry of an undo log names a stack of its program, or says that there was none.
pub open spec fn undo_keyed_by_program(arena: Seq<Stack>, undo: Seq<(u64, u64)>) -> bool {
    forall|i: int|
        0 <= i < undo.len() ==> (#[trigger] undo[i]).1 == NO_STACK || (undo[i].1 < arena.len()
            && arena[undo[i].1 as int].program.id == undo[i].0)
}

/// The programs of `entries` with their stacks, in order.
pub open spec fn resolve(arena: Seq<Stack>, entries: Seq<(u64, u64)>) -> Seq<(u64, Stack)> {
    entries.map_values(|entry: (u64, u64)| (entry.0, arena[entry.1 as int]))
}

/// More stacks in the arena leave what the entries stand for.
pub proof fn lemma_resolve_grows(arena: Seq<Stack>, entries: Seq<(u64, u64)>, stack: Stack)
    requires
        keyed_by_program(arena, entries),
    ensures
        keyed_by_program(arena.push(stack), entries),
        resolve(arena.push(stack), entries) == resolve(arena, entries),
{
    assert forall|i: int| 0 <= i < entries.len() implies arena.push(stack)[entries[i].1 as int]
        == arena[(#[trigger] entries[i]).1 as int] by {}
    assert(resolve(arena.push(stack), entries) =~= resolve(arena, entries));
}

/// Putting an entry keeps the entries keyed by program.
proof fn lemma_put_keyed(arena: Seq<Stack>, entries: Seq<(u64, u64)>, program_id: u64, stack: u64)
    requires
        keyed_by_program(arena, entries),
        distinct_keys(entries),
        stack < arena.len(),
        stack != NO_STACK,
        arena[stack as int].program.id == program_id,
    ensures
        keyed_by_program(arena, put(entries, program_id, stack)),
{
    let next = put(entries, program_id, stack);
    assert forall|i: int| 0 <= i < next.len() implies {
        &&& (#[trigger] next[i]).1 < arena.len()
        &&& next[i].1 != NO_STACK
        &&& arena[next[i].1 as int].program.id == next[i].0
    } by {
        if i < entries.len() && next[i] != (program_id, stack) {
            assert(next[i] == entries[i]);
        }
    }
}

/// Replaying an entry of an undo log keeps the stacks keyed by program.
proof fn lemma_replay_keyed(arena: Seq<Stack>, entries: Seq<(u64, u64)>, entry: (u64, u64))
    requires
        keyed_by_program(arena, entries),
        distinct_keys(entries),
        entry.1 == NO_STACK || (entry.1 < arena.len() && arena[entry.1 as int].program.id
            == entry.0),
    ensures
        keyed_by_program(arena, replay_one(entries, entry)),
        distinct_keys(replay_one(entries, entry)),
{
    if entry.1 == NO_STACK {
        lemma_cut(entries, entry.0);
        let next = replay_one(entries, entry);
        if has_key(entries, entry.0) {
            let p = place_of(entries, entry.0);
            assert forall|i: int| 0 <= i < next.len() implies {
                &&& (#[trigger] next[i]).1 < arena.len()
                &&& next[i].1 != NO_STACK
                &&& arena[next[i].1 as int].program.id == next[i].0
            } by {
                let a = if i < p { i } else { i + 1 };
                assert(next[i] == entries[a]);
            }
        }
    } else {
        lemma_put(entries, entry.0, entry.1);
        lemma_put_keyed(arena, entries, entry.0, entry.1);
    }
}

/// `entries` after those of `staged` were put into them, in order.
pub open spec fn put_all(entries: Seq<(u64, u64)>, staged: Seq<(u64, u64)>) -> Seq<(u64, u64)>
    decreases staged.len(),
{
    if staged.len() == 0 {
        entries
    } else {
        put(put_all(entries, staged.drop_last()), staged.last().0, staged.last().1)
    }
}

/// The stack of a program: the staged one if there is one, else the committed one.
pub open spec fn find(
    stacks: Seq<(u64, u64)>,
    staged: Seq<(u64, u64)>,
    program_id: u64,
) -> Option<u64> {
    match value_of(staged, program_id) {
        Some(stack) => Some(stack),
        None => value_of(stacks, program_id),
    }
}

/// The programs of both maps, in order: the committed ones, then the speculate ones that are not
/// committed.
pub open spec fn known_programs(stacks: Seq<(u64, u64)>, staged: Seq<(u64, u64)>) -> Seq<u64> {
    keys_of(stacks) + keys_of(staged).filter(|id: u64| !has_key(stacks, id))
}

/// The stacks of the programs `ids`, appended to `found` in order, each program once; or the first
/// program of `ids` that does not exist.
pub open spec fn gather(
    stacks: Seq<(u64, u64)>,
    staged: Seq<(u64, u64)>,
    found: Seq<(u64, u64)>,
    ids: Seq<u64>,
) -> Result<Seq<(u64, u64)>, u64>
    decreases ids.len(),
{
    if ids.len() == 0 {
        Ok(found)
    } else {
        match gather(stacks, staged, found, ids.drop_last()) {
            Err(missing) => Err(missing),
            Ok(found) => if has_key(found, ids.last()) {
                Ok(found)
            } else {
                match find(stacks, staged, ids.last()) {
                    Some(stack) => Ok(found.push((ids.last(), stack))),
                    None => Err(ids.last()),
                }
            },
        }
    }
}

/// The programs that the programs of `entries` import directly, in order.
pub open spec fn imports_of(arena: Seq<Stack>, entries: Seq<(u64, u64)>) -> Seq<u64>
    decreases entries.len(),
{
    if entries.len() == 0 {
        Seq::empty()
    } else {
        imports_of(arena, entries.drop_last()) + arena[entries.last().1 as int].program.imports@
    }
}

/// The first struct that `type_`, as it occurs in `program`, refers to and that is not defined; or
/// the program that it refers to and that does not exist.
pub open spec fn type_error(
    arena: Seq<Stack>,
    stacks: Seq<(u64, u64)>,
    staged: Seq<(u64, u64)>,
    type_: PlaintextType,
    program: Program,
) -> Option<ProcessError> {
    match type_.base() {
        PlaintextType::Struct { name } => if program.defines_struct(name) {
            None
        } else {
            Some(ProcessError::StructNotDefined { program_id: program.id, name })
        },
        PlaintextType::ExternalStruct { program_id, name } => match find(
            stacks,
            staged,
            program_id,
        ) {
            None => Some(ProcessError::ProgramDoesNotExist { program_id }),
            Some(stack) => if arena[stack as int].program.defines_struct(name) {
                None
            } else {
                Some(ProcessError::StructNotDefined { program_id, name })
            },
        },
        _ => None,
    }
}

/// The first error among the key and value types of the first `count` mappings of a program.
pub open spec fn mappings_error(
    arena: Seq<Stack>,
    stacks: Seq<(u64, u64)>,
    staged: Seq<(u64, u64)>,
    program: Program,
    count: nat,
) -> Option<ProcessError>
    decreases count,
{
    if count == 0 {
        None
    } else {
        let mapping = program.mappings@[count - 1];
        match mappings_error(arena, stacks, staged, program, (count - 1) as nat) {
            Some(error) => Some(error),
            None => match type_error(arena, stacks, staged, mapping.key, program) {
                Some(error) => Some(error),
                None => type_error(arena, stacks, staged, mapping.value, program),
            },
        }
    }
}

impl Process {
    /// All stacks that were added, by number.
    pub closed spec fn arena(&self) -> Seq<Stack> {
        self.arena@
    }

    /// The committed programs with the numbers of their stacks, in order.
    pub closed spec fn stacks(&self) -> Seq<(u64, u64)> {
        self.stacks@
    }

    /// The programs of the open speculate with the numbers of their stacks, in order.
    pub closed spec fn staged(&self) -> Seq<(u64, u64)> {
        self.staged_stacks@
    }

    /// The undo log of staged stacks.
    pub closed spec fn undo(&self) -> Seq<(u64, u64)> {
        self.old_stacks@
    }

    /// The committed programs with their stacks, in order.
    pub open spec fn programs(&self) -> Seq<(u64, Stack)> {
        resolve(self.arena(), self.stacks())
    }

    /// The stack that a lookup of `program_id` finds.
    pub open spec fn stack_of(&self, program_id: u64) -> Option<Stack> {
        match find(self.stacks(), self.staged(), program_id) {
            Some(stack) => Some(self.arena()[stack as int]),
            None => None,
        }
    }

    /// The process's invariant: every map has distinct programs and maps each to a stack of its
    /// own, and speculate stacks are consulted while there are some.
    pub closed spec fn wf(&self) -> bool {
        &&& distinct_keys(self.stacks@)
        &&& distinct_keys(self.staged_stacks@)
        &&& distinct_keys(self.old_stacks@)
        &&& keyed_by_program(self.arena@, self.stacks@)
        &&& keyed_by_program(self.arena@, self.staged_stacks@)
        &&& undo_keyed_by_program(self.arena@, self.old_stacks@)
        &&& self.staged_stacks_active == (self.staged_stacks@.len() > 0)
    }

    /// What the invariant says of the maps.
    pub proof fn lemma_wf(&self)
        requires
            self.wf(),
        ensures
            distinct_keys(self.stacks()),
            distinct_keys(self.staged()),
            distinct_keys(self.undo()),
            keyed_by_program(self.arena(), self.stacks()),
            keyed_by_program(self.arena(), self.staged()),
            undo_keyed_by_program(self.arena(), self.undo()),
            self.arena().len() <= usize::MAX,
    {
        assert(self.arena@.len() == self.arena.len());
    }

    /// The process holds one program and nothing else.
    pub open spec fn holds_only(&self, stack: Stack) -> bool {
        &&& self.wf()
        &&& self.programs() == seq![(stack.program.id, stack)]
        &&& self.staged() == Seq::<(u64, u64)>::empty()
        &&& self.undo() == Seq::<(u64, u64)>::empty()
    }

    /// Initializes a new process with the stack of the `credits.aleo` program, without its circuit
    /// keys (for web contexts).
    pub fn load_web(credits: Stack) -> (process: Process)
        ensures
            process.holds_only(credits),
    {
        let mut process = Process {
            arena: Vec::new(),
            stacks: IdMap::new(),
            staged_stacks: IdMap::new(),
            staged_stacks_active: false,
            old_stacks: IdMap::new(),
        };
        process.add_stack(credits);
        proof {
            assert(process.programs() =~= seq![(credits.program.id, credits)]);
        }
        process
    }

    /// Puts a stack into the arena and returns its number.
    fn keep(&mut self, stack: Stack) -> (number: u64)
        requires
            old(self).wf(),
        ensures
            final(self).wf(),
            number == old(self).arena().len(),
            number != NO_STACK,
            final(self).arena() == old(self).arena().push(stack),
            final(self).stacks() == old(self).stacks(),
            final(self).staged() == old(self).staged(),
            final(self).undo() == old(self).undo(),
            final(self).programs() == old(self).programs(),
    {
        let number = self.arena.len() as u64;
        proof {
            lemma_resolve_grows(self.arena@, self.stacks@, stack);
            lemma_resolve_grows(self.arena@, self.staged_stacks@, stack);
        }
        self.arena.push(stack);
        assert(self.arena.len() == number + 1);
        number
    }

    /// Returns the stack with the given number.
    pub fn stack_at(&self, number: u64) -> (stack: &Stack)
        requires
            number < self.arena().len(),
        ensures
            *stack == self.arena()[number as int],
    {
        assert(self.arena@.len() == self.arena.len());
        &self.arena[number as usize]
    }

    /// Adds a new stack to the process. If the program already exists, then the existing stack is
    /// replaced and the number of the original stack is returned.
    pub fn add_stack(&mut self, stack: Stack) -> (replaced: Option<u64>)
        requires
            old(self).wf(),
        ensures
            final(self).wf(),
            final(self).arena() == old(self).arena().push(stack),
            final(self).stacks() == put(
                old(self).stacks(),
                stack.program.id,
                old(self).arena().len() as u64,
            ),
            replaced == value_of(old(self).stacks(), stack.program.id),
            final(self).staged() == old(self).staged(),
            final(self).undo() == old(self).undo(),
    {
        let program_id = stack.program_id();
        let number = self.keep(stack);
        proof {
            lemma_put(self.stacks@, program_id, number);
            lemma_put_keyed(self.arena@, self.stacks@, program_id, number);
        }
        self.stacks.insert(program_id, number)
    }

    /// Stages a stack to be added to the process. The new stack is active, while the old stack is
    /// retained in the undo log, unless the program was staged before. `commit_stacks` finalizes the
    /// addition and `revert_stacks` undoes it.
    pub fn stage_stack(&mut self, stack: Stack)
        requires
            old(self).wf(),
        ensures
            final(self).wf(),
            final(self).arena() == old(self).arena().push(stack),
            final(self).stacks() == put(
                old(self).stacks(),
                stack.program.id,
                old(self).arena().len() as u64,
            ),
            final(self).undo() == log_undo(
                old(self).undo(),
                old(self).stacks(),
                stack.program.id,
            ),
            final(self).staged() == old(self).staged(),
    {
        let program_id = stack.program_id();
        let number = self.keep(stack);
        let ghost stacks = self.stacks@;
        let ghost undo = self.old_stacks@;
        proof {
            lemma_put(stacks, program_id, number);
            lemma_put_keyed(self.arena@, stacks, program_id, number);
        }
        let old_stack = self.stacks.insert(program_id, number);
        if !self.old_stacks.contains_key(program_id) {
            let recorded = match old_stack {
                Some(old_stack) => old_stack,
                None => NO_STACK,
            };
            proof {
                if has_key(stacks, program_id) {
                    let p = place_of(stacks, program_id);
                    assert(stacks[p].0 == program_id);
                }
                let next = undo.push((program_id, recorded));
                assert forall|i: int| 0 <= i < next.len() implies (#[trigger] next[i]).1 == NO_STACK
                    || (next[i].1 < self.arena@.len()
                    && self.arena@[next[i].1 as int].program.id == next[i].0) by {
                    if i < undo.len() {
                        assert(next[i] == undo[i]);
                    }
                }
            }
            self.old_stacks.insert(program_id, recorded);
        }
    }

    /// Commits the staged stacks to the process: the undo log is cleared.
    pub fn commit_stacks(&mut self)
        requires
            old(self).wf(),
        ensures
            final(self).wf(),
            final(self).arena() == old(self).arena(),
            final(self).stacks() == old(self).stacks(),
            final(self).staged() == old(self).staged(),
            final(self).undo() == Seq::<(u64, u64)>::empty(),
    {
        self.old_stacks.clear();
    }

    /// Reverts the staged stacks by replaying the undo log: new programs are removed and replaced
    /// stacks are restored.
    pub fn revert_stacks(&mut self)
        requires
            old(self).wf(),
        ensures
            final(self).wf(),
            final(self).arena() == old(self).arena(),
            final(self).stacks() == replay(old(self).stacks(), old(self).undo()),
            final(self).staged() == old(self).staged(),
            final(self).undo() == Seq::<(u64, u64)>::empty(),
    {
        let ghost undo = self.old_stacks@;
        let ghost stacks = self.stacks@;
        let count = self.old_stacks.len();
        let mut i: usize = 0;
        while i < count
            invariant
                self.wf(),
                self.arena() == old(self).arena(),
                self.staged() == old(self).staged(),
                self.undo() == undo,
                count == undo.len(),
                i <= count,
                self.stacks() == replay(stacks, undo.take(i as int)),
            decreases count - i,
        {
            let (program_id, old_stack) = self.old_stacks.entry_at(i);
            proof {
                lemma_replay_keyed(self.arena@, self.stacks@, undo[i as int]);
                assert(undo.take(i + 1).drop_last() =~= undo.take(i as int));
                assert(undo.take(i + 1).last() == undo[i as int]);
            }
            if old_stack != NO_STACK {
                self.stacks.insert(program_id, old_stack);
            } else {
                self.stacks.shift_remove(program_id);
            }
            i = i + 1;
        }
        proof {
            assert(undo.take(count as int) =~= undo);
        }
        self.old_stacks.clear();
    }

    /// Records a stack for the open speculate. Stack lookup returns it until `take_staged_stacks` or
    /// `clear_staged_stacks`.
    pub fn insert_staged_stack(&mut self, stack: Stack)
        requires
            old(self).wf(),
        ensures
            final(self).wf(),
            final(self).arena() == old(self).arena().push(stack),
            final(self).staged() == put(
                old(self).staged(),
                stack.program.id,
                old(self).arena().len() as u64,
            ),
            final(self).stack_of(stack.program.id) == Some(stack),
            final(self).stacks() == old(self).stacks(),
            final(self).undo() == old(self).undo(),
    {
        let program_id = stack.program_id();
        let number = self.keep(stack);
        proof {
            lemma_put(self.staged_stacks@, program_id, number);
            lemma_put_keyed(self.arena@, self.staged_stacks@, program_id, number);
        }
        self.staged_stacks.insert(program_id, number);
        self.staged_stacks_active = true;
    }

    /// Removes the speculate stacks and returns them. Stack lookup uses the committed map afterward.
    pub fn take_staged_stacks(&mut self) -> (staged: IdMap)
        requires
            old(self).wf(),
        ensures
            final(self).wf(),
            staged.wf(),
            staged@ == old(self).staged(),
            keyed_by_program(final(self).arena(), staged@),
            final(self).staged() == Seq::<(u64, u64)>::empty(),
            final(self).arena() == old(self).arena(),
            final(self).stacks() == old(self).stacks(),
            final(self).undo() == old(self).undo(),
    {
        self.staged_stacks_active = false;
        let mut staged = IdMap::new();
        core::mem::swap(&mut staged, &mut self.staged_stacks);
        staged
    }

    /// Drops the speculate stacks. Stack lookup uses the committed map afterward.
    pub fn clear_staged_stacks(&mut self)
        requires
            old(self).wf(),
        ensures
            final(self).wf(),
            final(self).staged() == Seq::<(u64, u64)>::empty(),
            final(self).arena() == old(self).arena(),
            final(self).stacks() == old(self).stacks(),
            final(self).undo() == old(self).undo(),
    {
        self.staged_stacks_active = false;
        self.staged_stacks.clear();
    }

    /// Inserts the given stacks into the committed program map. An existing stack for the same
    /// program ID is replaced.
    pub fn commit_staged_stacks(&mut self, staged: &IdMap)
        requires
            old(self).wf(),
            staged.wf(),
            keyed_by_program(old(self).arena(), staged@),
        ensures
            final(self).wf(),
            final(self).stacks() == put_all(old(self).stacks(), staged@),
            final(self).arena() == old(self).arena(),
            final(self).staged() == old(self).staged(),
            final(self).undo() == old(self).undo(),
    {
        let ghost stacks = self.stacks@;
        let mut i: usize = 0;
        proof {
            assert(staged@.take(0) =~= Seq::empty());
        }
        while i < staged.len()
            invariant
                self.wf(),
                self.arena() == old(self).arena(),
                self.staged() == old(self).staged(),
                self.undo() == old(self).undo(),
                keyed_by_program(self.arena(), staged@),
                i <= staged@.len(),
                self.stacks() == put_all(stacks, staged@.take(i as int)),
            decreases staged@.len() - i,
        {
            let (program_id, stack) = staged.entry_at(i);
            proof {
                lemma_put(self.stacks@, program_id, stack);
                lemma_put_keyed(self.arena@, self.stacks@, program_id, stack);
                assert(staged@.take(i + 1).drop_last() =~= staged@.take(i as int));
                assert(staged@.take(i + 1).last() == staged@[i as int]);
            }
            self.stacks.insert(program_id, stack);
            i = i + 1;
        }
        proof {
            assert(staged@.take(staged@.len() as int) =~= staged@);
        }
    }

    /// Returns the number of the stack that a lookup of `program_id` finds.
    fn find_stack(&self, program_id: u64) -> (stack: Option<u64>)
        requires
            self.wf(),
        ensures
            stack == find(self.stacks(), self.staged(), program_id),
            stack matches Some(number) ==> number < self.arena().len() && number != NO_STACK
                && self.arena()[number as int].program.id == program_id,
    {
        let staged = if self.staged_stacks_active {
            self.staged_stacks.get(program_id)
        } else {
            None
        };
        proof {
            if has_key(self.staged_stacks@, program_id) {
                assert(self.staged_stacks@[place_of(self.staged_stacks@, program_id)].0
                    == program_id);
            }
            if has_key(self.stacks@, program_id) {
                assert(self.stacks@[place_of(self.stacks@, program_id)].0 == program_id);
            }
        }
        match staged {
            Some(stack) => Some(stack),
            None => self.stacks.get(program_id),
        }
    }

    /// Returns `true` if the process contains the program with the given ID.
    pub fn contains_program(&self, program_id: u64) -> (contained: bool)
        requires
            self.wf(),
        ensures
            contained == (self.stack_of(program_id) is Some),
    {
        self.find_stack(program_id).is_some()
    }

    /// Returns the program IDs of all programs in the process: the committed ones, then the
    /// speculate ones that are not committed.
    pub fn program_ids(&self) -> (ids: Vec<u64>)
        requires
            self.wf(),
        ensures
            ids@ == known_programs(self.stacks(), self.staged()),
    {
        let mut ids: Vec<u64> = Vec::new();
        let ghost stacks = self.stacks@;
        let ghost staged = self.staged_stacks@;
        let ghost is_new = |id: u64| !has_key(stacks, id);
        let mut i: usize = 0;
        while i < self.stacks.len()
            invariant
                stacks == self.stacks@,
                i <= stacks.len(),
                ids@ == keys_of(stacks).take(i as int),
            decreases stacks.len() - i,
        {
            ids.push(self.stacks.entry_at(i).0);
            i = i + 1;
            proof {
                assert(keys_of(stacks).take(i as int) =~= keys_of(stacks).take(i - 1).push(
                    stacks[i - 1].0,
                ));
            }
        }
        proof {
            assert(keys_of(stacks).take(stacks.len() as int) =~= keys_of(stacks));
        }
        let mut j: usize = 0;
        proof {
            reveal(Seq::filter);
            assert(keys_of(staged).take(0).filter(is_new) =~= Seq::empty());
            assert(ids@ =~= keys_of(stacks) + keys_of(staged).take(0).filter(is_new));
        }
        while j < self.staged_stacks.len()
            invariant
                self.wf(),
                stacks == self.stacks@,
                staged == self.staged_stacks@,
                is_new == (|id: u64| !has_key(stacks, id)),
                j <= staged.len(),
                ids@ == keys_of(stacks) + keys_of(staged).take(j as int).filter(is_new),
            decreases staged.len() - j,
        {
            let program_id = self.staged_stacks.entry_at(j).0;
            proof {
                reveal(Seq::filter);
                let keys = keys_of(staged);
                assert(keys.take(j + 1).drop_last() =~= keys.take(j as int));
                assert(keys.take(j + 1).last() == program_id);
            }
            if !self.stacks.contains_key(program_id) {
                ids.push(program_id);
            }
            proof {
                assert(ids@ =~= keys_of(stacks) + keys_of(staged).take(j + 1).filter(is_new));
            }
            j = j + 1;
        }
        proof {
            assert(keys_of(staged).take(staged.len() as int) =~= keys_of(staged));
        }
        ids
    }

    /// Returns the stack for the given program ID. Speculate stacks shadow the committed map for the
    /// duration of the open speculate.
    pub fn get_stack(&self, program_id: u64) -> (stack: Result<&Stack, ProcessError>)
        requires
            self.wf(),
        ensures
            match self.stack_of(program_id) {
                Some(found) => stack matches Ok(stack) && *stack == found && stack.program.id
                    == program_id,
                None => stack == Err::<&Stack, _>(ProcessError::ProgramDoesNotExist { program_id }),
            },
    {
        match self.find_stack(program_id) {
            Some(number) => Ok(self.stack_at(number)),
            None => Err(ProcessError::ProgramDoesNotExist { program_id }),
        }
    }

    /// Appends the stacks of the given programs to those found so far.
    fn gather_stacks(&self, found: &mut IdMap, ids: &Vec<u64>) -> (result: Result<(), ProcessError>)
        requires
            self.wf(),
            old(found).wf(),
            keyed_by_program(self.arena(), old(found)@),
        ensures
            final(found).wf(),
            keyed_by_program(self.arena(), final(found)@),
            match gather(self.stacks(), self.staged(), old(found)@, ids@) {
                Ok(all) => result is Ok && final(found)@ == all,
                Err(program_id) => result == Err::<(), _>(
                    ProcessError::ProgramDoesNotExist { program_id },
                ),
            },
    {
        let mut i: usize = 0;
        proof {
            assert(ids@.take(0) =~= Seq::empty());
        }
        while i < ids.len()
            invariant
                self.wf(),
                found.wf(),
                keyed_by_program(self.arena(), found@),
                i <= ids@.len(),
                gather(self.stacks(), self.staged(), old(found)@, ids@.take(i as int)) == Ok::<_, u64>(
                    found@,
                ),
            decreases ids@.len() - i,
        {
            let program_id = ids[i];
            proof {
                assert(ids@.take(i + 1).drop_last() =~= ids@.take(i as int));
                assert(ids@.take(i + 1).last() == program_id);
            }
            if !found.contains_key(program_id) {
                match self.find_stack(program_id) {
                    Some(stack) => {
                        proof {
                            lemma_put_keyed(self.arena(), found@, program_id, stack);
                        }
                        found.insert(program_id, stack);
                    },
                    None => {
                        proof {
                            lemma_gather_fails(
                                self.stacks(),
                                self.staged(),
                                old(found)@,
                                ids@,
                                i + 1,
                            );
                        }
                        return Err(ProcessError::ProgramDoesNotExist { program_id });
                    },
                }
            }
            i = i + 1;
        }
        proof {
            assert(ids@.take(ids@.len() as int) =~= ids@);
        }
        Ok(())
    }

    /// Returns the numbers of the stacks of the given programs (those of the transitions of a
    /// transaction), keyed by program ID. If `include_direct_imports` is true, the stacks of the
    /// programs *directly* imported by those are also included.
    pub fn get_stacks(&self, program_ids: &Vec<u64>, include_direct_imports: bool) -> (result: Result<
        IdMap,
        ProcessError,
    >)
        requires
            self.wf(),
        ensures
            match gather(self.stacks(), self.staged(), Seq::empty(), program_ids@) {
                Err(program_id) => result == Err::<IdMap, _>(
                    ProcessError::ProgramDoesNotExist { program_id },
                ),
                Ok(called) => if !include_direct_imports {
                    result matches Ok(found) && found.wf() && found@ == called
                } else {
                    match gather(
                        self.stacks(),
                        self.staged(),
                        called,
                        imports_of(self.arena(), called),
                    ) {
                        Err(program_id) => result == Err::<IdMap, _>(
                            ProcessError::ProgramDoesNotExist { program_id },
                        ),
                        Ok(all) => result matches Ok(found) && found.wf() && found@ == all,
                    }
                },
            },
    {
        let mut found = IdMap::new();
        match self.gather_stacks(&mut found, program_ids) {
            Ok(()) => {},
            Err(error) => {
                return Err(error);
            },
        }
        if include_direct_imports {
            // Collect the direct imports first, since the map of stacks is about to grow.
            let mut imported: Vec<u64> = Vec::new();
            let ghost called = found@;
            let mut i: usize = 0;
            proof {
                assert(called.take(0) =~= Seq::empty());
            }
            while i < found.len()
                invariant
                    self.wf(),
                    found@ == called,
                    keyed_by_program(self.arena(), called),
                    i <= called.len(),
                    imported@ == imports_of(self.arena(), called.take(i as int)),
                decreases called.len() - i,
            {
                let number = found.entry_at(i).1;
                proof {
                    assert(called.take(i + 1).drop_last() =~= called.take(i as int));
                    assert(called.take(i + 1).last() == called[i as int]);
                }
                append_all(&mut imported, &self.stack_at(number).program.imports);
                i = i + 1;
            }
            proof {
                assert(called.take(called.len() as int) =~= called);
            }
            match self.gather_stacks(&mut found, &imported) {
                Ok(()) => {},
                Err(error) => {
                    return Err(error);
                },
            }
        }
        Ok(found)
    }

    /// Returns the latest deployed edition for the given program ID, defaulting to 0 if unknown.
    pub fn get_latest_edition_for_program(&self, program_id: u64) -> (edition: u16)
        requires
            self.wf(),
        ensures
            edition == (match self.stack_of(program_id) {
                Some(stack) => stack.edition,
                None => 0,
            }),
    {
        match self.get_stack(program_id) {
            Ok(stack) => stack.program_edition(),
            Err(_) => 0,
        }
    }

    /// Ensure that the types referred to in this program's mappings exist.
    pub fn mapping_types_exist(&self, program: &Program) -> (result: Result<(), ProcessError>)
        requires
            self.wf(),
        ensures
            match mappings_error(
                self.arena(),
                self.stacks(),
                self.staged(),
                *program,
                program.mappings@.len(),
            ) {
                Some(error) => result == Err::<(), _>(error),
                None => result is Ok,
            },
    {
        let mut i: usize = 0;
        while i < program.mappings.len()
            invariant
                self.wf(),
                i <= program.mappings@.len(),
                mappings_error(self.arena(), self.stacks(), self.staged(), *program, i as nat)
                    is None,
            decreases program.mappings@.len() - i,
        {
            let ghost count = program.mappings@.len();
            match self.plaintext_exists(&program.mappings[i].key, program) {
                Ok(()) => {},
                Err(error) => {
                    proof {
                        lemma_mappings_error_stays(self, *program, (i + 1) as nat, count);
                    }
                    return Err(error);
                },
            }
            match self.plaintext_exists(&program.mappings[i].value, program) {
                Ok(()) => {},
                Err(error) => {
                    proof {
                        lemma_mappings_error_stays(self, *program, (i + 1) as nat, count);
                    }
                    return Err(error);
                },
            }
            i = i + 1;
        }
        Ok(())
    }

    /// If `type_` is a struct or an array containing a struct, ensure the struct type exists.
    fn plaintext_exists(&self, type_: &PlaintextType, program: &Program) -> (result: Result<
        (),
        ProcessError,
    >)
        requires
            self.wf(),
        ensures
            match type_error(self.arena(), self.stacks(), self.staged(), *type_, *program) {
                Some(error) => result == Err::<(), _>(error),
                None => result is Ok,
            },
    {
        match type_.base_element_type() {
            PlaintextType::Struct { name } => if program.has_struct(*name) {
                Ok(())
            } else {
                Err(ProcessError::StructNotDefined { program_id: program.id, name: *name })
            },
            PlaintextType::ExternalStruct { program_id, name } => match self.get_stack(
                *program_id,
            ) {
                Err(error) => Err(error),
                Ok(stack) => if stack.program().has_struct(*name) {
                    Ok(())
                } else {
                    Err(
                        ProcessError::StructNotDefined {
                            program_id: stack.program_id(),
                            name: *name,
                        },
                    )
                },
            },
            _ => Ok(()),
        }
    }
}

/// Appends all of `more` to `items`.
fn append_all(items: &mut Vec<u64>, more: &Vec<u64>)
    ensures
        final(items)@ == old(items)@ + more@,
{
    let ghost before = items@;
    let mut i: usize = 0;
    proof {
        assert(before + more@.take(0) =~= before);
    }
    while i < more.len()
        invariant
            i <= more@.len(),
            items@ == before + more@.take(i as int),
        decreases more@.len() - i,
    {
        items.push(more[i]);
        i = i + 1;
        proof {
            assert(items@ =~= before + more@.take(i as int));
        }
    }
    proof {
        assert(more@.take(more@.len() as int) =~= more@);
    }
}

/// Once a program was missing, more programs do not mend it.
proof fn lemma_gather_fails(
    stacks: Seq<(u64, u64)>,
    staged: Seq<(u64, u64)>,
    found: Seq<(u64, u64)>,
    ids: Seq<u64>,
    count: int,
)
    requires
        0 <= count <= ids.len(),
        gather(stacks, staged, found, ids.take(count)) is Err,
    ensures
        gather(stacks, staged, found, ids) == gather(stacks, staged, found, ids.take(count)),
    decreases ids.len(),
{
    if count < ids.len() {
        assert(ids.drop_last().take(count) =~= ids.take(count));
        lemma_gather_fails(stacks, staged, found, ids.drop_last(), count);
    } else {
        assert(ids.take(count) =~= ids);
    }
}

/// The first error among some mappings is the first among more of them.
proof fn lemma_mappings_error_stays(process: &Process, program: Program, some: nat, more: nat)
    requires
        some <= more,
        mappings_error(process.arena(), process.stacks(), process.staged(), program, some) is Some,
    ensures
        mappings_error(process.arena(), process.stacks(), process.staged(), program, more)
            == mappings_error(process.arena(), process.stacks(), process.staged(), program, some),
    decreases more,
{
    if some < more {
        lemma_mappings_error_stays(process, program, some, (more - 1) as nat);
    }
}

/// Looking a program up finds its speculate stack while there is one. Without speculate stacks it
/// finds the committed stack, so taking or clearing them makes them unobservable.
pub proof fn law_speculate_stacks_shadow(
    stacks: Seq<(u64, u64)>,
    staged: Seq<(u64, u64)>,
    program_id: u64,
)
    ensures
        has_key(staged, program_id) ==> find(stacks, staged, program_id) == value_of(
            staged,
            program_id,
        ),
        !has_key(staged, program_id) ==> find(stacks, staged, program_id) == value_of(
            stacks,
            program_id,
        ),
        find(stacks, Seq::empty(), program_id) == value_of(stacks, program_id),
{
}

/// Committing the speculate stacks makes every lookup find what it found while they shadowed the
/// committed map.
pub proof fn law_commit_publishes_speculate_stacks(
    stacks: Seq<(u64, u64)>,
    staged: Seq<(u64, u64)>,
    program_id: u64,
)
    requires
        distinct_keys(stacks),
        distinct_keys(staged),
    ensures
        distinct_keys(put_all(stacks, staged)),
        value_of(put_all(stacks, staged), program_id) == find(stacks, staged, program_id),
    decreases staged.len(),
{
    if staged.len() > 0 {
        let rest = staged.drop_last();
        let last = staged.last();
        assert(distinct_keys(rest)) by {
            assert forall|i: int, j: int|
                0 <= i < rest.len() && 0 <= j < rest.len() && i != j implies (#[trigger] rest[i]).0
                != (#[trigger] rest[j]).0 by {
                assert(rest[i] == staged[i] && rest[j] == staged[j]);
            }
        }
        law_commit_publishes_speculate_stacks(stacks, rest, program_id);
        lemma_put(put_all(stacks, rest), last.0, last.1);
        lemma_place(staged, staged.len() - 1);
        if program_id != last.0 {
            if has_key(staged, program_id) {
                let p = place_of(staged, program_id);
                assert(rest[p] == staged[p]);
                lemma_place(rest, p);
            } else if has_key(rest, program_id) {
                let p = place_of(rest, program_id);
                assert(staged[p] == rest[p]);
            }
        }
    }
}

} // verus!
