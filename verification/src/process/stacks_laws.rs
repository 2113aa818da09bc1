//! What looking programs up in the process finds.

use crate::id_map::{distinct_keys, has_key, keys_of, lemma_place, place_of, IdMap};
use crate::process::program::{PlaintextType, Program, Stack};
use crate::process::stacks::{
    find, gather, imports_of, keyed_by_program, known_programs, mappings_error, type_error,
    Process, ProcessError,
};
use vstd::prelude::*;

verus! {

/// A program that was asked for, and that the process knows, imports the given one directly.
pub open spec fn is_imported(process: Process, asked: Seq<u64>, id: u64) -> bool {
    exists|importer: u64| #[trigger]
        asked.contains(importer) && process.stack_of(importer) is Some && process.stack_of(
            importer,
        )->0.program.imports@.contains(id)
}

/// The entries have distinct keys, and each maps a program to the stack that a lookup of it finds.
pub open spec fn found_by_lookup(process: Process, entries: Seq<(u64, u64)>) -> bool {
    &&& distinct_keys(entries)
    &&& keyed_by_program(process.arena(), entries)
    &&& forall|i: int|
        0 <= i < entries.len() ==> process.stack_of((#[trigger] entries[i]).0) == Some(
            process.arena()[entries[i].1 as int],
        )
}

/// The stack that a lookup finds is that of the number that is found.
proof fn lemma_found(process: Process, id: u64)
    requires
        process.wf(),
    ensures
        match find(process.stacks(), process.staged(), id) {
            Some(stack) => {
                &&& stack < process.arena().len()
                &&& stack != crate::process::undo::NO_STACK
                &&& process.arena()[stack as int].program.id == id
                &&& process.stack_of(id) == Some(process.arena()[stack as int])
            },
            None => process.stack_of(id) is None,
        },
{
    process.lemma_wf();
    if has_key(process.staged(), id) {
        let p = place_of(process.staged(), id);
        assert(process.staged()[p].0 == id);
    }
    if has_key(process.stacks(), id) {
        let p = place_of(process.stacks(), id);
        assert(process.stacks()[p].0 == id);
    }
}

/// Gathering programs finds each of them, on top of what was found before, or names one that does not
/// exist.
proof fn lemma_gathered(process: Process, found: Seq<(u64, u64)>, ids: Seq<u64>)
    requires
        process.wf(),
        found_by_lookup(process, found),
    ensures
        match gather(process.stacks(), process.staged(), found, ids) {
            Ok(all) => {
                &&& found_by_lookup(process, all)
                &&& forall|id: u64| #[trigger]
                    has_key(all, id) <==> has_key(found, id) || ids.contains(id)
            },
            Err(missing) => ids.contains(missing) && process.stack_of(missing) is None,
        },
    decreases ids.len(),
{
    if ids.len() > 0 {
        let rest = ids.drop_last();
        let last = ids.last();
        lemma_gathered(process, found, rest);
        lemma_found(process, last);
        assert(ids[ids.len() - 1] == last);
        assert forall|id: u64| #[trigger] ids.contains(id) <==> rest.contains(id) || id == last by {
            if rest.contains(id) {
                let i = choose|i: int| 0 <= i < rest.len() && rest[i] == id;
                assert(ids[i] == id);
            }
            if ids.contains(id) && id != last {
                let i = choose|i: int| 0 <= i < ids.len() && ids[i] == id;
                assert(rest[i] == id);
            }
        }
        match gather(process.stacks(), process.staged(), found, rest) {
            Err(missing) => {
                assert(ids.contains(missing));
            },
            Ok(before) => {
                assert(ids.contains(last));
                match find(process.stacks(), process.staged(), last) {
                    None => {
                        if has_key(before, last) {
                            let p = place_of(before, last);
                            assert(before[p].0 == last);
                        }
                    },
                    Some(stack) => if !has_key(before, last) {
                        let all = before.push((last, stack));
                        assert forall|i: int, j: int|
                            0 <= i < all.len() && 0 <= j < all.len() && i != j implies (
                        #[trigger] all[i]).0 != (#[trigger] all[j]).0 by {
                            if i < before.len() {
                                assert(all[i] == before[i]);
                            }
                            if j < before.len() {
                                assert(all[j] == before[j]);
                            }
                        }
                        assert forall|i: int| 0 <= i < all.len() implies {
                            &&& process.stack_of((#[trigger] all[i]).0) == Some(
                                process.arena()[all[i].1 as int],
                            )
                            &&& all[i].1 < process.arena().len()
                            &&& all[i].1 != crate::process::undo::NO_STACK
                            &&& process.arena()[all[i].1 as int].program.id == all[i].0
                        } by {
                            if i < before.len() {
                                assert(all[i] == before[i]);
                            }
                        }
                        assert forall|id: u64| #[trigger]
                            has_key(all, id) <==> has_key(before, id) || id == last by {
                            if has_key(before, id) {
                                let p = place_of(before, id);
                                assert(all[p].0 == id);
                            }
                            assert(all[before.len() as int].0 == last);
                            if has_key(all, id) && id != last {
                                let p = place_of(all, id);
                                assert(before[p].0 == id);
                            }
                        }
                    },
                }
            },
        }
    }
}

/// The imports of entries are those of the programs that they map.
proof fn lemma_imports(arena: Seq<Stack>, entries: Seq<(u64, u64)>, id: u64)
    ensures
        imports_of(arena, entries).contains(id) <==> exists|i: int|
            0 <= i < entries.len() && arena[(#[trigger] entries[i]).1 as int].program.imports@.contains(
                id,
            ),
    decreases entries.len(),
{
    if entries.len() > 0 {
        let rest = entries.drop_last();
        let last = entries.last();
        lemma_imports(arena, rest, id);
        let before = imports_of(arena, rest);
        let added = arena[last.1 as int].program.imports@;
        let all = before + added;
        assert(all.contains(id) <==> before.contains(id) || added.contains(id)) by {
            if before.contains(id) {
                let i = choose|i: int| 0 <= i < before.len() && before[i] == id;
                assert(all[i] == id);
            }
            if added.contains(id) {
                let i = choose|i: int| 0 <= i < added.len() && added[i] == id;
                assert(all[before.len() + i] == id);
            }
        }
        assert(entries[entries.len() - 1] == last);
        if before.contains(id) {
            let i = choose|i: int|
                0 <= i < rest.len() && arena[(
                #[trigger] rest[i]).1 as int].program.imports@.contains(id);
            assert(entries[i] == rest[i]);
        }
        if exists|i: int|
            0 <= i < entries.len() && arena[(
            #[trigger] entries[i]).1 as int].program.imports@.contains(id) {
            let i = choose|i: int|
                0 <= i < entries.len() && arena[(
                #[trigger] entries[i]).1 as int].program.imports@.contains(id);
            if i < rest.len() {
                assert(rest[i] == entries[i]);
            }
        }
    }
}

/// Asking for the stacks of programs gives exactly these programs; and with direct imports, also every
/// program that one of them imports, and no other. Each is given with the stack that a lookup of it
/// finds. There is an error exactly when one of these programs does not exist, and it names one.
pub proof fn law_stacks_are_those_asked_for_and_imported(process: Process, asked: Seq<u64>)
    requires
        process.wf(),
    ensures
        match gather(process.stacks(), process.staged(), Seq::empty(), asked) {
            Err(missing) => asked.contains(missing) && process.stack_of(missing) is None,
            Ok(called) => {
                &&& found_by_lookup(process, called)
                &&& forall|id: u64| #[trigger] has_key(called, id) <==> asked.contains(id)
                &&& match gather(
                    process.stacks(),
                    process.staged(),
                    called,
                    imports_of(process.arena(), called),
                ) {
                    Err(missing) => is_imported(process, asked, missing) && process.stack_of(
                        missing,
                    ) is None,
                    Ok(all) => {
                        &&& found_by_lookup(process, all)
                        &&& forall|id: u64| #[trigger]
                            has_key(all, id) <==> asked.contains(id) || is_imported(
                                process,
                                asked,
                                id,
                            )
                    },
                }
            },
        },
{
    let none: Seq<(u64, u64)> = Seq::empty();
    assert(found_by_lookup(process, none));
    lemma_gathered(process, none, asked);
    match gather(process.stacks(), process.staged(), none, asked) {
        Err(_) => {},
        Ok(called) => {
            assert forall|id: u64| #[trigger] has_key(called, id) <==> asked.contains(id) by {
                assert(!has_key(none, id));
            }
            let imports = imports_of(process.arena(), called);
            lemma_gathered(process, called, imports);
            assert forall|id: u64| #[trigger]
                imports.contains(id) <==> is_imported(process, asked, id) by {
                lemma_imports(process.arena(), called, id);
                if imports.contains(id) {
                    let i = choose|i: int|
                        0 <= i < called.len() && process.arena()[(
                        #[trigger] called[i]).1 as int].program.imports@.contains(id);
                    let importer = called[i].0;
                    assert(has_key(called, importer));
                    assert(asked.contains(importer));
                }
                if is_imported(process, asked, id) {
                    let importer = choose|importer: u64| #[trigger]
                        asked.contains(importer) && process.stack_of(importer) is Some
                            && process.stack_of(importer)->0.program.imports@.contains(id);
                    assert(has_key(called, importer));
                    let p = place_of(called, importer);
                    assert(process.stack_of(called[p].0) == Some(
                        process.arena()[called[p].1 as int],
                    ));
                    assert(called[p].0 == importer);
                }
            }
        },
    }
}

/// The first programs that are gathered come in the order in which they are first asked for, and more
/// programs come after them.
pub proof fn law_gathering_goes_on(
    stacks: Seq<(u64, u64)>,
    staged: Seq<(u64, u64)>,
    found: Seq<(u64, u64)>,
    some: Seq<u64>,
    others: Seq<u64>,
)
    ensures
        gather(stacks, staged, found, some + others) == (match gather(
            stacks,
            staged,
            found,
            some,
        ) {
            Ok(earlier) => gather(stacks, staged, earlier, others),
            Err(missing) => Err::<Seq<(u64, u64)>, u64>(missing),
        }),
    decreases others.len(),
{
    if others.len() == 0 {
        assert(some + others =~= some);
    } else {
        law_gathering_goes_on(stacks, staged, found, some, others.drop_last());
        assert((some + others).drop_last() =~= some + others.drop_last());
    }
}

/// Gathering keeps what was found before in its place.
pub proof fn law_gathering_keeps_what_was_found(
    stacks: Seq<(u64, u64)>,
    staged: Seq<(u64, u64)>,
    found: Seq<(u64, u64)>,
    ids: Seq<u64>,
)
    ensures
        gather(stacks, staged, found, ids) matches Ok(all) ==> found.is_prefix_of(all),
    decreases ids.len(),
{
    if ids.len() > 0 {
        law_gathering_keeps_what_was_found(stacks, staged, found, ids.drop_last());
    }
}

/// Looking a program up finds its speculate stack, else its committed stack, else nothing; and it finds
/// a stack exactly when the program is among the committed or the speculate ones.
pub proof fn law_lookup_prefers_speculate_stacks(process: Process, id: u64)
    requires
        process.wf(),
    ensures
        process.stack_of(id) is Some <==> has_key(process.staged(), id) || has_key(
            process.stacks(),
            id,
        ),
        process.stack_of(id) matches Some(stack) ==> stack.program.id == id,
        forall|i: int|
            0 <= i < process.staged().len() && (#[trigger] process.staged()[i]).0 == id
                ==> process.stack_of(id) == Some(process.arena()[process.staged()[i].1 as int]),
        forall|i: int|
            0 <= i < process.stacks().len() && (#[trigger] process.stacks()[i]).0 == id
                && !has_key(process.staged(), id) ==> process.stack_of(id) == Some(
                process.arena()[process.stacks()[i].1 as int],
            ),
{
    process.lemma_wf();
    lemma_found(process, id);
    assert forall|i: int|
        0 <= i < process.staged().len() && (#[trigger] process.staged()[i]).0 == id implies
        process.stack_of(id) == Some(process.arena()[process.staged()[i].1 as int]) by {
        lemma_place(process.staged(), i);
    }
    assert forall|i: int|
        0 <= i < process.stacks().len() && (#[trigger] process.stacks()[i]).0 == id && !has_key(
            process.staged(),
            id,
        ) implies process.stack_of(id) == Some(
        process.arena()[process.stacks()[i].1 as int],
    ) by {
        lemma_place(process.stacks(), i);
    }
}

/// The type is a literal, or its innermost elements are literals or defined structs: a struct of the
/// program itself, or one of a program that the process knows.
pub open spec fn type_is_defined(process: Process, type_: PlaintextType, program: Program) -> bool
    decreases type_,
{
    match type_ {
        PlaintextType::Literal => true,
        PlaintextType::Struct { name } => program.structs@.contains(name),
        PlaintextType::ExternalStruct { program_id, name } => process.stack_of(program_id) matches
            Some(stack) && stack.program.structs@.contains(name),
        PlaintextType::Array { element } => type_is_defined(process, *element, program),
    }
}

/// A type is refused exactly when it is not defined, and the error names the struct or the program that
/// is missing.
pub proof fn law_types_are_refused_when_undefined(
    process: Process,
    type_: PlaintextType,
    program: Program,
)
    ensures
        ({
            let error = type_error(
                process.arena(),
                process.stacks(),
                process.staged(),
                type_,
                program,
            );
            &&& error is None <==> type_is_defined(process, type_, program)
            &&& error matches Some(ProcessError::ProgramDoesNotExist { program_id })
                ==> process.stack_of(program_id) is None
            &&& error matches Some(ProcessError::StructNotDefined { program_id, name }) ==> (
            program_id == program.id && !program.structs@.contains(name)) || (process.stack_of(
                program_id,
            ) matches Some(stack) && !stack.program.structs@.contains(name))
        }),
    decreases type_,
{
    match type_ {
        PlaintextType::Array { element } => {
            law_types_are_refused_when_undefined(process, *element, program);
        },
        _ => {},
    }
}

/// An array is refused for what its elements are refused for.
pub proof fn law_arrays_are_refused_for_their_elements(
    process: Process,
    element: PlaintextType,
    program: Program,
)
    ensures
        type_error(
            process.arena(),
            process.stacks(),
            process.staged(),
            PlaintextType::Array { element: Box::new(element) },
            program,
        ) == type_error(process.arena(), process.stacks(), process.staged(), element, program),
        !(element.base() is Array),
    decreases element,
{
    let array = PlaintextType::Array { element: Box::new(element) };
    assert(array.base() == element.base());
    lemma_base_is_no_array(element);
}

/// The innermost elements of nested arrays are no arrays.
proof fn lemma_base_is_no_array(type_: PlaintextType)
    ensures
        !(type_.base() is Array),
    decreases type_,
{
    match type_ {
        PlaintextType::Array { element } => lemma_base_is_no_array(*element),
        _ => {},
    }
}

/// The mappings of a program are accepted exactly when the key and value types of each of them are
/// defined. Else the error is that of the first type that is not, the key of a mapping before its
/// value.
pub proof fn law_first_undefined_type_is_reported(process: Process, program: Program, count: nat)
    requires
        count <= program.mappings@.len(),
    ensures
        match mappings_error(
            process.arena(),
            process.stacks(),
            process.staged(),
            program,
            count,
        ) {
            None => forall|i: int|
                0 <= i < count ==> type_is_defined(
                    process,
                    (#[trigger] program.mappings@[i]).key,
                    program,
                ) && type_is_defined(process, program.mappings@[i].value, program),
            Some(error) => exists|i: int|
                0 <= i < count && #[trigger] is_first_undefined(process, program, i, error),
        },
    decreases count,
{
    if count > 0 {
        law_first_undefined_type_is_reported(process, program, (count - 1) as nat);
        let last = program.mappings@[count - 1];
        law_types_are_refused_when_undefined(process, last.key, program);
        law_types_are_refused_when_undefined(process, last.value, program);
        match mappings_error(
            process.arena(),
            process.stacks(),
            process.staged(),
            program,
            count,
        ) {
            None => {},
            Some(error) => {
                if mappings_error(
                    process.arena(),
                    process.stacks(),
                    process.staged(),
                    program,
                    (count - 1) as nat,
                ) is None {
                    assert(is_first_undefined(process, program, count - 1, error));
                }
            },
        }
    }
}

/// The mapping is the first one with a type that is not defined, and the error is that of its key, or
/// else of its value.
pub open spec fn is_first_undefined(
    process: Process,
    program: Program,
    place: int,
    error: ProcessError,
) -> bool {
    let mapping = program.mappings@[place];
    &&& forall|i: int|
        0 <= i < place ==> type_is_defined(
            process,
            (#[trigger] program.mappings@[i]).key,
            program,
        ) && type_is_defined(process, program.mappings@[i].value, program)
    &&& !type_is_defined(process, mapping.key, program) || !type_is_defined(
        process,
        mapping.value,
        program,
    )
    &&& type_error(
        process.arena(),
        process.stacks(),
        process.staged(),
        if type_is_defined(process, mapping.key, program) {
            mapping.value
        } else {
            mapping.key
        },
        program,
    ) == Some(error)
}

/// The known programs are exactly those that a lookup finds.
pub proof fn law_known_programs_are_those_found(process: Process, id: u64)
    requires
        process.wf(),
    ensures
        known_programs(process.stacks(), process.staged()).contains(id) <==> process.stack_of(
            id,
        ) is Some,
{
    law_lookup_prefers_speculate_stacks(process, id);
    let (stacks, staged) = (process.stacks(), process.staged());
    let is_new = |id: u64| !has_key(stacks, id);
    let committed = keys_of(stacks);
    let others = keys_of(staged).filter(is_new);
    lemma_keys(stacks, id);
    lemma_keys(staged, id);
    lemma_filtered(keys_of(staged), is_new, id);
    let all = committed + others;
    if committed.contains(id) {
        let i = choose|i: int| 0 <= i < committed.len() && committed[i] == id;
        assert(all[i] == id);
    }
    if others.contains(id) {
        let i = choose|i: int| 0 <= i < others.len() && others[i] == id;
        assert(all[committed.len() + i] == id);
    }
    if all.contains(id) && !committed.contains(id) {
        let i = choose|i: int| 0 <= i < all.len() && all[i] == id;
        if i < committed.len() {
            assert(committed[i] == id);
        }
        assert(others[i - committed.len()] == id);
    }
}

/// The keys of entries are the keys that the entries have.
proof fn lemma_keys(entries: Seq<(u64, u64)>, id: u64)
    ensures
        keys_of(entries).contains(id) <==> has_key(entries, id),
{
    if has_key(entries, id) {
        let p = place_of(entries, id);
        assert(keys_of(entries)[p] == id);
    }
    if keys_of(entries).contains(id) {
        let i = choose|i: int| 0 <= i < keys_of(entries).len() && keys_of(entries)[i] == id;
        assert(entries[i].0 == id);
    }
}

/// A filter keeps those that pass it.
proof fn lemma_filtered(ids: Seq<u64>, passes: spec_fn(u64) -> bool, id: u64)
    ensures
        ids.filter(passes).contains(id) <==> ids.contains(id) && passes(id),
    decreases ids.len(),
{
    reveal(Seq::filter);
    if ids.len() > 0 {
        let rest = ids.drop_last();
        let last = ids.last();
        lemma_filtered(rest, passes, id);
        assert(ids[ids.len() - 1] == last);
        if rest.contains(id) {
            let i = choose|i: int| 0 <= i < rest.len() && rest[i] == id;
            assert(ids[i] == id);
        }
        if ids.contains(id) && id != last {
            let i = choose|i: int| 0 <= i < ids.len() && ids[i] == id;
            assert(rest[i] == id);
        }
        let before = rest.filter(passes);
        if passes(last) {
            let all = before.push(last);
            assert(ids.filter(passes) =~= all);
            assert(all[before.len() as int] == last);
            if before.contains(id) {
                let i = choose|i: int| 0 <= i < before.len() && before[i] == id;
                assert(all[i] == id);
            }
            if all.contains(id) && id != last {
                let i = choose|i: int| 0 <= i < all.len() && all[i] == id;
                assert(before[i] == id);
            }
        }
    }
}

/// The stacks that are returned for programs are those of exactly these programs and, with direct
/// imports, of every program that one of them imports; each is the one that a lookup finds. There are
/// none exactly when one of these programs does not exist, and the error names one.
pub proof fn law_returned_stacks_are_those_asked_for(
    process: Process,
    asked: Vec<u64>,
    include_direct_imports: bool,
    result: Result<IdMap, ProcessError>,
    id: u64,
)
    requires
        process.wf(),
        call_ensures(Process::get_stacks, (&process, &asked, include_direct_imports), result),
    ensures
        match result {
            Ok(found) => {
                &&& found_by_lookup(process, found@)
                &&& has_key(found@, id) <==> asked@.contains(id) || (include_direct_imports
                    && is_imported(process, asked@, id))
            },
            Err(error) => error matches ProcessError::ProgramDoesNotExist { program_id }
                && process.stack_of(program_id) is None && (asked@.contains(program_id) || (
            include_direct_imports && is_imported(process, asked@, program_id))),
        },
{
    law_stacks_are_those_asked_for_and_imported(process, asked@);
}

/// The latest edition of a program is that of the stack that a lookup of it finds, and zero without one.
pub proof fn law_latest_edition_is_that_of_the_stack(process: Process, id: u64, edition: u16)
    requires
        process.wf(),
        call_ensures(Process::get_latest_edition_for_program, (&process, id), edition),
    ensures
        process.stack_of(id) matches Some(stack) ==> edition == stack.edition,
        process.stack_of(id) is None ==> edition == 0,
{
}

} // verus!
