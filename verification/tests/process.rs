use ledger_vm::process::add_programs::AddError;
use ledger_vm::process::keys::{update_credits_verifying_keys, KeyError};
use ledger_vm::process::program::{Mapping, PlaintextType, Program, Stack};
use ledger_vm::process::stacks::{Process, ProcessError};
use std::cell::RefCell;

const CREDITS: u64 = 1;

fn program(id: u64, imports: Vec<u64>) -> Program {
    Program { id, imports, structs: Vec::new(), mappings: Vec::new() }
}

fn stack(id: u64, edition: u16) -> Stack {
    Stack { program: program(id, Vec::new()), edition }
}

fn credits_process() -> Process {
    Process::load_web(stack(CREDITS, 0))
}

#[test]
fn load_holds_the_credits_program() {
    let process = credits_process();
    assert!(process.contains_program(CREDITS));
    assert!(!process.contains_program(2));
    assert_eq!(process.program_ids(), vec![CREDITS]);
    assert_eq!(process.get_stack(CREDITS).unwrap().program_id(), CREDITS);
    assert_eq!(
        process.get_stack(2).unwrap_err(),
        ProcessError::ProgramDoesNotExist { program_id: 2 }
    );
}

#[test]
fn add_stack_replaces_and_returns_the_original() {
    let mut process = credits_process();
    assert_eq!(process.add_stack(stack(2, 0)), None);
    let replaced = process.add_stack(stack(2, 1)).unwrap();
    assert_eq!(process.stack_at(replaced).program_edition(), 0);
    assert_eq!(process.get_latest_edition_for_program(2), 1);
    assert_eq!(process.get_latest_edition_for_program(9), 0);
    assert_eq!(process.program_ids(), vec![CREDITS, 2]);
}

#[test]
fn revert_restores_replaced_stacks_and_removes_new_ones() {
    let mut process = credits_process();
    process.add_stack(stack(2, 0));
    process.add_stack(stack(3, 0));
    process.stage_stack(stack(4, 0));
    process.stage_stack(stack(2, 1));
    process.stage_stack(stack(2, 2));
    assert_eq!(process.get_latest_edition_for_program(2), 2);
    assert!(process.contains_program(4));
    process.revert_stacks();
    assert_eq!(process.get_latest_edition_for_program(2), 0);
    assert!(!process.contains_program(4));
    assert_eq!(process.program_ids(), vec![CREDITS, 2, 3]);
}

#[test]
fn commit_keeps_staged_stacks() {
    let mut process = credits_process();
    process.stage_stack(stack(2, 1));
    process.commit_stacks();
    process.revert_stacks();
    assert_eq!(process.get_latest_edition_for_program(2), 1);
}

#[test]
fn speculate_stacks_shadow_until_they_are_taken() {
    let mut process = credits_process();
    process.add_stack(stack(2, 0));
    process.insert_staged_stack(stack(2, 1));
    process.insert_staged_stack(stack(5, 0));
    assert_eq!(process.get_latest_edition_for_program(2), 1);
    assert_eq!(process.program_ids(), vec![CREDITS, 2, 5]);
    let staged = process.take_staged_stacks();
    assert_eq!(staged.len(), 2);
    assert_eq!(process.get_latest_edition_for_program(2), 0);
    assert!(!process.contains_program(5));
    process.commit_staged_stacks(&staged);
    assert_eq!(process.get_latest_edition_for_program(2), 1);
    assert_eq!(process.program_ids(), vec![CREDITS, 2, 5]);
}

#[test]
fn cleared_speculate_stacks_are_gone() {
    let mut process = credits_process();
    process.insert_staged_stack(stack(2, 1));
    process.clear_staged_stacks();
    assert!(!process.contains_program(2));
    assert_eq!(process.take_staged_stacks().len(), 0);
}

#[test]
fn get_stacks_includes_direct_imports_only() {
    let mut process = credits_process();
    process.add_stack(Stack { program: program(2, vec![CREDITS]), edition: 0 });
    process.add_stack(Stack { program: program(3, vec![2]), edition: 0 });
    let called = process.get_stacks(&vec![3, 3], false).unwrap();
    assert_eq!(called.len(), 1);
    let with_imports = process.get_stacks(&vec![3], true).unwrap();
    assert_eq!(with_imports.len(), 2);
    assert!(with_imports.contains_key(3) && with_imports.contains_key(2));
    assert!(!with_imports.contains_key(CREDITS));
    assert_eq!(
        process.get_stacks(&vec![3, 8], false).err(),
        Some(ProcessError::ProgramDoesNotExist { program_id: 8 })
    );
    process.add_stack(Stack { program: program(4, vec![9]), edition: 0 });
    assert_eq!(
        process.get_stacks(&vec![4], true).err(),
        Some(ProcessError::ProgramDoesNotExist { program_id: 9 })
    );
    assert!(process.get_stacks(&vec![4], false).is_ok());
}

fn mapping(key: PlaintextType, value: PlaintextType) -> Mapping {
    Mapping { name: 1, key, value }
}

#[test]
fn mapping_types_must_be_defined() {
    let mut process = credits_process();
    let mut other = program(2, Vec::new());
    other.structs.push(70);
    process.add_stack(Stack { program: other, edition: 0 });

    let mut checked = program(3, vec![2]);
    checked.structs.push(30);
    checked.mappings.push(mapping(
        PlaintextType::Literal,
        PlaintextType::Array {
            element: Box::new(PlaintextType::Array {
                element: Box::new(PlaintextType::Struct { name: 30 }),
            }),
        },
    ));
    checked.mappings.push(mapping(
        PlaintextType::ExternalStruct { program_id: 2, name: 70 },
        PlaintextType::Literal,
    ));
    assert_eq!(process.mapping_types_exist(&checked), Ok(()));

    checked.mappings.push(mapping(PlaintextType::Literal, PlaintextType::Struct { name: 31 }));
    checked.mappings.push(mapping(PlaintextType::Struct { name: 32 }, PlaintextType::Literal));
    assert_eq!(
        process.mapping_types_exist(&checked),
        Err(ProcessError::StructNotDefined { program_id: 3, name: 31 })
    );

    let mut foreign = program(4, Vec::new());
    foreign.mappings.push(mapping(
        PlaintextType::Literal,
        PlaintextType::ExternalStruct { program_id: 2, name: 71 },
    ));
    assert_eq!(
        process.mapping_types_exist(&foreign),
        Err(ProcessError::StructNotDefined { program_id: 2, name: 71 })
    );
    foreign.mappings[0].key = PlaintextType::ExternalStruct { program_id: 9, name: 1 };
    assert_eq!(
        process.mapping_types_exist(&foreign),
        Err(ProcessError::ProgramDoesNotExist { program_id: 9 })
    );
}

fn copy_of(original: &Program) -> Program {
    program(original.id, original.imports.clone())
}

fn new_raw(_: &Process, program: &Program, edition: u16) -> Result<Stack, &'static str> {
    if program.id == 13 {
        return Err("raw");
    }
    Ok(Stack { program: copy_of(program), edition })
}

fn check(process: &Process, stack: &Stack) -> Result<(), &'static str> {
    for import in &stack.program().imports {
        if !process.contains_program(*import) {
            return Err("import");
        }
    }
    Ok(())
}

#[test]
fn programs_are_added_together() {
    let mut process = credits_process();
    // The first program imports a later one, which is checked only once all are in place.
    let programs =
        vec![(program(2, vec![3]), 0), (program(CREDITS, Vec::new()), 9), (program(3, vec![]), 4)];
    assert!(process.add_programs_with_editions(CREDITS, &programs, new_raw, check).is_ok());
    assert_eq!(process.program_ids(), vec![CREDITS, 2, 3]);
    assert_eq!(process.get_latest_edition_for_program(3), 4);
    assert_eq!(process.get_latest_edition_for_program(CREDITS), 0);
    process.revert_stacks();
    assert_eq!(process.program_ids(), vec![CREDITS, 2, 3]);
}

#[test]
fn either_all_programs_are_added_or_none() {
    let mut process = credits_process();
    process.add_stack(stack(2, 0));
    // A program that fails its check undoes the whole set, also a program that was replaced.
    let programs = vec![(program(2, vec![]), 7), (program(5, vec![6]), 0)];
    let result = process.add_programs_with_editions(CREDITS, &programs, new_raw, check);
    assert!(matches!(result, Err(AddError::Stack("import"))));
    assert_eq!(process.program_ids(), vec![CREDITS, 2]);
    assert_eq!(process.get_latest_edition_for_program(2), 0);
    // So does a program whose stack cannot be computed.
    let programs = vec![(program(2, vec![]), 7), (program(13, vec![]), 0)];
    let result = process.add_programs_with_editions(CREDITS, &programs, new_raw, check);
    assert!(matches!(result, Err(AddError::Stack("raw"))));
    assert_eq!(process.program_ids(), vec![CREDITS, 2]);
    assert_eq!(process.get_latest_edition_for_program(2), 0);
}

#[test]
fn a_program_whose_stack_is_of_another_program_is_not_found() {
    let mut process = credits_process();
    let misnamed =
        |_: &Process, program: &Program, edition: u16| -> Result<Stack, &'static str> {
            Ok(stack(program.id + 1, edition))
        };
    let result =
        process.add_programs_with_editions(CREDITS, &vec![(program(2, vec![]), 0)], misnamed, check);
    assert!(matches!(
        result,
        Err(AddError::Process(ProcessError::ProgramDoesNotExist { program_id: 2 }))
    ));
    assert_eq!(process.program_ids(), vec![CREDITS]);
}

#[test]
fn a_single_program_is_added_unless_it_is_credits() {
    let mut process = credits_process();
    let fresh = |_: &Process, program: &Program| -> Result<Stack, &'static str> {
        Ok(stack(program.id, 3))
    };
    assert_eq!(process.add_program(CREDITS, &program(2, vec![]), fresh), Ok(()));
    assert_eq!(process.get_latest_edition_for_program(2), 3);
    assert_eq!(process.add_program(CREDITS, &program(CREDITS, vec![]), fresh), Ok(()));
    assert_eq!(process.get_latest_edition_for_program(CREDITS), 0);
    let broken = |_: &Process, _: &Program| -> Result<Stack, &'static str> { Err("new") };
    assert_eq!(process.add_program(CREDITS, &program(4, vec![]), broken), Err("new"));
    assert!(!process.contains_program(4));

    assert_eq!(
        process.add_program_with_edition(CREDITS, &program(6, vec![2]), 5, new_raw, check),
        Ok(())
    );
    assert_eq!(process.get_latest_edition_for_program(6), 5);
    assert_eq!(
        process.add_program_with_edition(CREDITS, &program(7, vec![8]), 5, new_raw, check),
        Err("import")
    );
    assert!(!process.contains_program(7));
    assert_eq!(
        process.add_program_with_edition(CREDITS, &program(13, vec![]), 5, new_raw, check),
        Err("raw")
    );
}

#[test]
fn processes_are_loaded_with_their_keys() {
    let calls = RefCell::new(Vec::new());
    let insert = |name: u64| -> Result<(), &'static str> {
        calls.borrow_mut().push(name);
        if name == 9 { Err("key") } else { Ok(()) }
    };
    let process = Process::load(stack(CREDITS, 0), &vec![4, 5], 7, insert).ok().unwrap();
    assert_eq!(process.program_ids(), vec![CREDITS]);
    assert_eq!(calls.take(), vec![4, 5, 7]);
    assert!(matches!(Process::load(stack(CREDITS, 0), &vec![4, 9, 5], 7, insert), Err("key")));
    assert_eq!(calls.take(), vec![4, 9]);
    assert!(matches!(Process::load(stack(CREDITS, 0), &vec![4], 9, insert), Err("key")));
    calls.take();
    assert!(Process::load_v0(stack(CREDITS, 0), &vec![4, 5], insert).is_ok());
    assert_eq!(calls.take(), vec![4, 5]);
    assert!(matches!(Process::load_v0(stack(CREDITS, 0), &vec![9], insert), Err("key")));
    calls.take();
    let translate = |name: u64| -> Result<(), &'static str> {
        if name == 8 { Err("translation") } else { Ok(()) }
    };
    let process = Process::setup(stack(CREDITS, 2), &vec![4], 7, insert, translate).ok().unwrap();
    assert_eq!(process.get_latest_edition_for_program(CREDITS), 2);
    assert!(matches!(
        Process::setup(stack(CREDITS, 2), &vec![4], 8, insert, translate),
        Err("translation")
    ));
    assert!(matches!(
        Process::setup(stack(CREDITS, 2), &vec![9], 7, insert, translate),
        Err("key")
    ));
}

#[test]
fn credits_keys_are_updated_in_order() {
    let calls = RefCell::new(Vec::new());
    let remove = |name: u64| -> Result<(), &'static str> {
        calls.borrow_mut().push(("remove", name));
        Ok(())
    };
    let insert = |name: u64| -> Result<(), &'static str> {
        calls.borrow_mut().push(("insert", name));
        if name == 9 { Err("key") } else { Ok(()) }
    };
    assert_eq!(update_credits_verifying_keys(&vec![4, 5], 7, remove, insert), Ok(()));
    assert_eq!(
        *calls.borrow(),
        vec![("remove", 4), ("insert", 4), ("remove", 5), ("insert", 5), ("insert", 7)]
    );
    assert_eq!(update_credits_verifying_keys(&vec![9, 4], 7, remove, insert), Err("key"));
    assert_eq!(update_credits_verifying_keys(&vec![4], 9, remove, insert), Err("key"));
    let refuse = |_: u64| -> Result<(), &'static str> { Err("remove") };
    assert_eq!(update_credits_verifying_keys(&vec![4], 7, refuse, insert), Err("remove"));
}

#[test]
fn keys_are_asked_of_the_stack_of_their_program() {
    let mut process = credits_process();
    process.add_stack(stack(2, 7));
    // A stack knows the keys of the function with the number of its edition.
    let get = |stack: &Stack, name: u64| -> Result<u64, u8> {
        match name == stack.program_edition() as u64 {
            true => Ok(100 * stack.program_id() + name),
            false => Err(5),
        }
    };
    let missing = ProcessError::ProgramDoesNotExist { program_id: 9 };
    assert!(matches!(process.get_proving_key(2, 7, get), Ok(207)));
    assert!(matches!(process.get_proving_key(2, 8, get), Err(KeyError::Stack(5))));
    assert!(matches!(
        process.get_proving_key(9, 7, get),
        Err(KeyError::Process(error)) if error == missing
    ));
    assert!(matches!(process.get_verifying_key(2, 7, get), Ok(207)));
    assert!(matches!(process.get_verifying_key(9, 7, get), Err(KeyError::Process(_))));

    let inserted = RefCell::new(Vec::new());
    let insert = |stack: &Stack, name: u64, key: &'static str| -> Result<(), u8> {
        if name == 0 {
            return Err(6);
        }
        inserted.borrow_mut().push((stack.program_id(), name, key));
        Ok(())
    };
    assert!(process.insert_proving_key(2, 3, "proving", insert).is_ok());
    assert!(process.insert_verifying_key(2, 4, "verifying", insert).is_ok());
    assert!(matches!(process.insert_proving_key(2, 0, "proving", insert), Err(KeyError::Stack(6))));
    assert!(matches!(
        process.insert_verifying_key(9, 4, "verifying", insert),
        Err(KeyError::Process(_))
    ));
    assert_eq!(*inserted.borrow(), vec![(2, 3, "proving"), (2, 4, "verifying")]);

    let removed = RefCell::new(Vec::new());
    let remove = |stack: &Stack, name: u64| removed.borrow_mut().push((stack.program_id(), name));
    assert_eq!(process.remove_proving_key(2, 3, remove), Ok(()));
    assert_eq!(process.remove_verifying_key(2, 4, remove), Ok(()));
    assert_eq!(process.remove_proving_key(9, 3, remove), Err(missing));
    assert_eq!(*removed.borrow(), vec![(2, 3), (2, 4)]);

    let synthesize = |_: &Stack, name: u64| -> Result<(), u8> {
        if name == 1 { Ok(()) } else { Err(7) }
    };
    assert!(process.synthesize_key(2, 1, synthesize).is_ok());
    assert!(matches!(process.synthesize_key(2, 2, synthesize), Err(KeyError::Stack(7))));
    assert!(process.synthesize_translation_key(2, 1, synthesize).is_ok());
    assert!(matches!(
        process.synthesize_translation_key(9, 1, synthesize),
        Err(KeyError::Process(_))
    ));
}
