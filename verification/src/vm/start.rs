//! Starting the virtual machine from storage.

use crate::lru_cache::{cache_capacity, cache_entries, nothing_cached, MAX_CAPACITY};
use crate::process::keys::{key_failed, keys_made, law_every_key_is_made, may_make_keys};
use crate::process::program::{Mapping, Program, Stack};
use crate::process::stacks::Process;
use crate::vm::load::{
    all_ensured, all_located, deployments_led_to, ensuring_failed, initialize_mappings,
    latest_stack, law_added_stacks_are_found, law_latest_stack_is_the_last,
    law_other_programs_have_no_latest_stack, led_to, lemma_latest_stack_is_there,
    load_deployments, load_failed, locate_deployments, located, located_in_order, locating_failed,
    may_ensure, may_load, may_locate_all, uses_first_process, Deployment, DeploymentError,
};
use crate::vm::VM;
use vstd::prelude::*;

verus! {

/// Why the virtual machine was not started.
#[derive(Debug)]
pub enum StartError<E> {
    /// A mapping of the credits program could not be initialized.
    Mappings(E),
    /// The consensus version is not known.
    ConsensusVersion(E),
    /// A verifying key of the credits program could not be inserted.
    Keys(E),
    /// A deployment cannot be placed.
    Locate(DeploymentError<E>),
    /// A deployment cannot be loaded.
    Load(DeploymentError<E>),
}

/// The names of the mappings of a program, in order.
pub open spec fn names_of(program: Program) -> Seq<u64> {
    program.mappings@.map_values(|mapping: Mapping| mapping.name)
}

/// Returns the names of the mappings of a program, in order.
fn mapping_names(program: &Program) -> (names: Vec<u64>)
    ensures
        names@ == names_of(*program),
{
    let mut names: Vec<u64> = Vec::new();
    let mut i: usize = 0;
    while i < program.mappings.len()
        invariant
            i <= program.mappings@.len(),
            names@ == names_of(*program).take(i as int),
        decreases program.mappings@.len() - i,
    {
        names.push(program.mappings[i].name);
        i = i + 1;
        proof {
            assert(names@ =~= names_of(*program).take(i as int));
        }
    }
    proof {
        assert(names@ =~= names_of(*program));
    }
    names
}

/// Inserting the verifying keys of the credits program gave `outcome`: its first ones in the first
/// seven consensus versions, else its latest ones and the one for translating its record.
pub open spec fn keys_outcome<E, First: Fn(u64) -> Result<(), E>, Latest: Fn(u64) -> Result<(), E>>(
    version: u16,
    functions: Seq<u64>,
    record: u64,
    insert_v0_verifying_key: First,
    insert_verifying_key: Latest,
    outcome: Result<(), E>,
) -> bool {
    if 1 <= version <= 7 {
        match outcome {
            Ok(_) => keys_made(insert_v0_verifying_key, functions),
            Err(error) => key_failed(insert_v0_verifying_key, functions, error),
        }
    } else {
        match outcome {
            Ok(_) => keys_made(insert_verifying_key, functions) && call_ensures(
                insert_verifying_key,
                (record,),
                Ok::<(), E>(()),
            ),
            Err(error) => {
                ||| key_failed(insert_verifying_key, functions, error)
                ||| keys_made(insert_verifying_key, functions) && call_ensures(
                    insert_verifying_key,
                    (record,),
                    Err::<(), E>(error),
                )
            },
        }
    }
}

/// The calls that loading the process of the credits program takes: its first keys are inserted in the
/// first seven consensus versions, else its latest ones, and then the one for translating its record.
pub open spec fn may_load_credits<
    E,
    First: Fn(u64) -> Result<(), E>,
    Latest: Fn(u64) -> Result<(), E>,
>(
    version: u16,
    functions: Seq<u64>,
    record: u64,
    insert_v0_verifying_key: First,
    insert_verifying_key: Latest,
) -> bool {
    if 1 <= version <= 7 {
        may_make_keys(insert_v0_verifying_key, functions)
    } else {
        &&& may_make_keys(insert_verifying_key, functions)
        &&& keys_made(insert_verifying_key, functions) ==> call_requires(
            insert_verifying_key,
            (record,),
        )
    }
}

/// The process of the credits program was loaded for the consensus version, or was not.
pub open spec fn credits_outcome<
    E,
    Version: FnOnce() -> Result<u16, E>,
    First: Fn(u64) -> Result<(), E>,
    Latest: Fn(u64) -> Result<(), E>,
>(
    consensus_version: Version,
    functions: Seq<u64>,
    record: u64,
    insert_v0_verifying_key: First,
    insert_verifying_key: Latest,
    outcome: Result<(), E>,
) -> bool {
    exists|version: u16|
        call_ensures(consensus_version, (), Ok::<u16, E>(version)) && #[trigger] keys_outcome(
            version,
            functions,
            record,
            insert_v0_verifying_key,
            insert_verifying_key,
            outcome,
        )
}

/// The programs of the process are the credits program, and those of the stacks `made`: each has the
/// latest of its stacks.
pub open spec fn holds_deployed(process: Process, credits: Stack, made: Seq<Stack>) -> bool {
    forall|program_id: u64| #[trigger]
        process.stack_of(program_id) == (match latest_stack(made, program_id) {
            Some(stack) => Some(stack),
            None => if program_id == credits.program.id {
                Some(credits)
            } else {
                None
            },
        })
}

/// The process holds the credits program and every deployed program, loaded in order: each program
/// has the stack of its latest deployment.
pub open spec fn deployed<
    D,
    E,
    Get: Fn(u64) -> Result<Option<D>, E>,
    New: Fn(&Process, &D) -> Result<Stack, E>,
>(
    get_deployment: Get,
    new_stack: New,
    credits: Stack,
    ordered: Seq<Deployment>,
    process: Process,
) -> bool {
    exists|first: Process, read: Seq<D>, made: Seq<Stack>|
        first.holds_only(credits) && #[trigger] led_to(
            get_deployment,
            new_stack,
            ordered,
            read,
            made,
            first,
            process,
        ) && holds_deployed(process, credits, made)
}

/// Loading the deployments into the process of the credits program failed.
pub open spec fn deploying_failed<
    D,
    E,
    Get: Fn(u64) -> Result<Option<D>, E>,
    New: Fn(&Process, &D) -> Result<Stack, E>,
>(
    get_deployment: Get,
    new_stack: New,
    credits: Stack,
    ordered: Seq<Deployment>,
    error: DeploymentError<E>,
) -> bool {
    exists|first: Process|
        first.holds_only(credits) && #[trigger] load_failed(
            get_deployment,
            new_stack,
            ordered,
            first,
            error,
        )
}

/// A process that held only the credits program holds it and the deployed ones after they were loaded.
proof fn lemma_holds_deployed<
    D,
    E,
    Get: Fn(u64) -> Result<Option<D>, E>,
    New: Fn(&Process, &D) -> Result<Stack, E>,
>(
    get_deployment: Get,
    new_stack: New,
    credits: Stack,
    ordered: Seq<Deployment>,
    first: Process,
    process: Process,
)
    requires
        first.holds_only(credits),
        deployments_led_to(get_deployment, new_stack, ordered, first, process),
    ensures
        deployed(get_deployment, new_stack, credits, ordered, process),
{
    let (read, made) = choose|read: Seq<D>, made: Seq<Stack>| #[trigger]
        led_to(get_deployment, new_stack, ordered, read, made, first, process);
    assert forall|program_id: u64| #[trigger]
        process.stack_of(program_id) == (match latest_stack(made, program_id) {
            Some(stack) => Some(stack),
            None => if program_id == credits.program.id {
                Some(credits)
            } else {
                None
            },
        }) by {
        law_added_stacks_are_found(process, first, made, program_id);
        law_only_program_is_found(first, credits, program_id);
    }
    assert(holds_deployed(process, credits, made));
}

/// A process that holds only one program finds that one and no other.
pub proof fn law_only_program_is_found(process: Process, stack: Stack, program_id: u64)
    requires
        process.holds_only(stack),
    ensures
        process.stack_of(program_id) == (if program_id == stack.program.id {
            Some(stack)
        } else {
            None
        }),
{
    let stacks = process.stacks();
    process.lemma_wf();
    assert(process.programs().len() == 1);
    assert(process.programs()[0] == (stack.program.id, stack));
    assert(stacks[0].0 == stack.program.id && process.arena()[stacks[0].1 as int] == stack);
}

/// The credits program and every deployed program exist.
pub proof fn law_deployed_programs_exist(process: Process, credits: Stack, made: Seq<Stack>)
    requires
        holds_deployed(process, credits, made),
    ensures
        process.stack_of(credits.program.id) is Some,
        forall|i: int|
            0 <= i < made.len() ==> process.stack_of((#[trigger] made[i]).program.id) is Some,
{
    assert forall|i: int| 0 <= i < made.len() implies process.stack_of(
        (#[trigger] made[i]).program.id,
    ) is Some by {
        lemma_latest_stack_is_there(made, i);
    }
}

/// A deployment that no block holds keeps the deployments from being placed.
pub proof fn law_unplaced_deployment_is_not_located<
    E,
    FindHash: Fn(u64) -> Result<Option<u64>, E>,
    GetHeight: Fn(u64) -> Result<Option<u32>, E>,
    GetTransactions: Fn(u64) -> Result<Option<Vec<u64>>, E>,
>(
    find_hash: FindHash,
    get_height: GetHeight,
    get_transactions: GetTransactions,
    ids: Seq<u64>,
    ordered: Seq<Deployment>,
    i: int,
)
    requires
        0 <= i < ids.len(),
        forall|found: Result<Option<u64>, E>| #[trigger]
            call_ensures(find_hash, (ids[i],), found) ==> found == Ok::<Option<u64>, E>(None),
    ensures
        !located_in_order(find_hash, get_height, get_transactions, ids, ordered),
{
    if located_in_order(find_hash, get_height, get_transactions, ids, ordered) {
        let deployments = choose|deployments: Seq<Deployment>| #[trigger]
            all_located(find_hash, get_height, get_transactions, ids, deployments)
                && ordered.to_multiset() == deployments.to_multiset();
        assert(located(
            find_hash,
            get_height,
            get_transactions,
            ids[i],
            Ok::<Deployment, DeploymentError<E>>(deployments[i]),
        ));
    }
}

impl VM {
    /// Initializes the VM from storage: ensures that the mappings of the credits program are there,
    /// loads the process of the consensus version, and loads the deployments in the order in which they
    /// were made.
    pub fn from<
        D,
        E,
        Contains: Fn(u64) -> Result<bool, E>,
        Initialize: Fn(u64) -> Result<(), E>,
        Version: FnOnce() -> Result<u16, E>,
        First: Fn(u64) -> Result<(), E>,
        Latest: Fn(u64) -> Result<(), E>,
        FindHash: Fn(u64) -> Result<Option<u64>, E>,
        GetHeight: Fn(u64) -> Result<Option<u32>, E>,
        GetTransactions: Fn(u64) -> Result<Option<Vec<u64>>, E>,
        Get: Fn(u64) -> Result<Option<D>, E>,
        New: Fn(&Process, &D) -> Result<Stack, E>,
    >(
        credits: Stack,
        functions: &Vec<u64>,
        record: u64,
        deployment_ids: &Vec<u64>,
        max_transactions: usize,
        contains_mapping: Contains,
        initialize_mapping: Initialize,
        consensus_version: Version,
        insert_v0_verifying_key: First,
        insert_verifying_key: Latest,
        find_hash: FindHash,
        get_height: GetHeight,
        get_transactions: GetTransactions,
        get_deployment: Get,
        new_stack: New,
    ) -> (result: Result<VM, StartError<E>>)
        requires
            0 < max_transactions <= MAX_CAPACITY,
            may_ensure(contains_mapping, initialize_mapping, names_of(credits.program)),
            all_ensured(contains_mapping, initialize_mapping, names_of(credits.program))
                ==> call_requires(consensus_version, ()),
            forall|version: u16| #[trigger]
                call_ensures(consensus_version, (), Ok::<u16, E>(version)) ==> may_load_credits(
                    version,
                    functions@,
                    record,
                    insert_v0_verifying_key,
                    insert_verifying_key,
                ),
            credits_outcome(
                consensus_version,
                functions@,
                record,
                insert_v0_verifying_key,
                insert_verifying_key,
                Ok::<(), E>(()),
            ) ==> may_locate_all(find_hash, get_height, get_transactions, deployment_ids@),
            forall|ordered: Seq<Deployment>, first: Process|
                #[trigger] located_in_order(
                    find_hash,
                    get_height,
                    get_transactions,
                    deployment_ids@,
                    ordered,
                ) && #[trigger] first.holds_only(credits) ==> may_load(
                    get_deployment,
                    new_stack,
                    ordered,
                    first,
                ),
        ensures
            match result {
                Err(StartError::Mappings(error)) => ensuring_failed(
                    contains_mapping,
                    initialize_mapping,
                    names_of(credits.program),
                    error,
                ),
                _ => all_ensured(
                    contains_mapping,
                    initialize_mapping,
                    names_of(credits.program),
                ),
            },
            match result {
                Err(StartError::Mappings(_)) => true,
                Err(StartError::ConsensusVersion(error)) => call_ensures(
                    consensus_version,
                    (),
                    Err::<u16, E>(error),
                ),
                Err(StartError::Keys(error)) => credits_outcome(
                    consensus_version,
                    functions@,
                    record,
                    insert_v0_verifying_key,
                    insert_verifying_key,
                    Err::<(), E>(error),
                ),
                _ => credits_outcome(
                    consensus_version,
                    functions@,
                    record,
                    insert_v0_verifying_key,
                    insert_verifying_key,
                    Ok::<(), E>(()),
                ),
            },
            match result {
                Ok(vm) => {
                    &&& vm.wf()
                    &&& cache_entries(vm.cache()) == nothing_cached()
                    &&& cache_capacity(vm.cache()) == max_transactions
                    &&& vm.entry() is None
                    &&& vm.next_id() == 0
                    &&& exists|ordered: Seq<Deployment>| #[trigger]
                        located_in_order(
                            find_hash,
                            get_height,
                            get_transactions,
                            deployment_ids@,
                            ordered,
                        ) && deployed(get_deployment, new_stack, credits, ordered, vm.proc())
                },
                Err(StartError::Locate(error)) => locating_failed(
                    find_hash,
                    get_height,
                    get_transactions,
                    deployment_ids@,
                    error,
                ),
                Err(StartError::Load(error)) => exists|ordered: Seq<Deployment>| #[trigger]
                    located_in_order(
                        find_hash,
                        get_height,
                        get_transactions,
                        deployment_ids@,
                        ordered,
                    ) && deploying_failed(get_deployment, new_stack, credits, ordered, error),
                _ => true,
            },
    {
        // Ensure that all mappings are initialized.
        let names = mapping_names(&credits.program);
        match initialize_mappings(&names, contains_mapping, initialize_mapping) {
            Ok(_) => {},
            Err(error) => {
                return Err(StartError::Mappings(error));
            },
        }
        // Initialize a new process based on the consensus version.
        let version = match consensus_version() {
            Ok(version) => version,
            Err(error) => {
                return Err(StartError::ConsensusVersion(error));
            },
        };
        let loaded = if uses_first_process(version) {
            Process::load_v0(credits, functions, insert_v0_verifying_key)
        } else {
            Process::load(credits, functions, record, insert_verifying_key)
        };
        let process = match loaded {
            Ok(process) => {
                assert(keys_outcome(
                    version,
                    functions@,
                    record,
                    insert_v0_verifying_key,
                    insert_verifying_key,
                    Ok::<(), E>(()),
                ));
                process
            },
            Err(error) => {
                assert(keys_outcome(
                    version,
                    functions@,
                    record,
                    insert_v0_verifying_key,
                    insert_verifying_key,
                    Err::<(), E>(error),
                ));
                return Err(StartError::Keys(error));
            },
        };
        // Load the deployments in order of their places.
        let ordered = match locate_deployments(
            deployment_ids,
            find_hash,
            get_height,
            get_transactions,
        ) {
            Ok(ordered) => ordered,
            Err(error) => {
                return Err(StartError::Locate(error));
            },
        };
        let ghost first = process;
        match load_deployments(process, &ordered, get_deployment, new_stack) {
            Ok(process) => {
                proof {
                    lemma_holds_deployed(
                        get_deployment,
                        new_stack,
                        credits,
                        ordered@,
                        first,
                        process,
                    );
                }
                Ok(VM::new(process, max_transactions))
            },
            Err(error) => {
                assert(load_failed(get_deployment, new_stack, ordered@, first, error));
                assert(deploying_failed(get_deployment, new_stack, credits, ordered@, error));
                Err(StartError::Load(error))
            },
        }
    }
}

/// The mappings of a program are named as they are, in order.
pub proof fn law_mappings_are_named_in_order(program: Program, i: int)
    requires
        0 <= i < program.mappings@.len(),
    ensures
        names_of(program).len() == program.mappings@.len(),
        names_of(program)[i] == program.mappings@[i].name,
{
}

/// In the first seven consensus versions, the first verifying key of every function is inserted. In all
/// later ones, the latest verifying key of every function is, and the one of the record.
pub proof fn law_keys_follow_the_consensus_version<
    E,
    First: Fn(u64) -> Result<(), E>,
    Latest: Fn(u64) -> Result<(), E>,
>(
    version: u16,
    functions: Seq<u64>,
    record: u64,
    insert_v0_verifying_key: First,
    insert_verifying_key: Latest,
    function: u64,
)
    requires
        keys_outcome(
            version,
            functions,
            record,
            insert_v0_verifying_key,
            insert_verifying_key,
            Ok::<(), E>(()),
        ),
        functions.contains(function),
    ensures
        version > 0 && version < 8 ==> call_ensures(
            insert_v0_verifying_key,
            (function,),
            Ok::<(), E>(()),
        ),
        version == 0 || version >= 8 ==> call_ensures(
            insert_verifying_key,
            (function,),
            Ok::<(), E>(()),
        ) && call_ensures(insert_verifying_key, (record,), Ok::<(), E>(())),
{
    if version > 0 && version < 8 {
        law_every_key_is_made(insert_v0_verifying_key, functions, function);
    } else {
        law_every_key_is_made(insert_verifying_key, functions, function);
    }
}

/// A process that was started holds the credits program, unless it was deployed anew, each deployed
/// program with the stack of its last deployment, and no other program.
pub proof fn law_started_process_holds_what_was_deployed(
    process: Process,
    credits: Stack,
    made: Seq<Stack>,
    program_id: u64,
)
    requires
        holds_deployed(process, credits, made),
    ensures
        (forall|j: int| 0 <= j < made.len() ==> (#[trigger] made[j]).program.id != program_id)
            ==> process.stack_of(program_id) == (if program_id == credits.program.id {
            Some(credits)
        } else {
            None
        }),
        forall|i: int|
            0 <= i < made.len() && (#[trigger] made[i]).program.id == program_id && (forall|j: int|
                i < j < made.len() ==> (#[trigger] made[j]).program.id != program_id)
                ==> process.stack_of(program_id) == Some(made[i]),
{
    assert(process.stack_of(program_id) == process.stack_of(program_id));
    if forall|j: int| 0 <= j < made.len() ==> (#[trigger] made[j]).program.id != program_id {
        law_other_programs_have_no_latest_stack(made, program_id);
    }
    assert forall|i: int|
        0 <= i < made.len() && (#[trigger] made[i]).program.id == program_id && (forall|j: int|
            i < j < made.len() ==> (#[trigger] made[j]).program.id != program_id) implies
        process.stack_of(program_id) == Some(made[i]) by {
        law_latest_stack_is_the_last(made, i);
    }
}

} // verus!
