//! Evaluating views against the state at an earlier height.

use crate::block::{Block, FinalizeStateArgs, Limits};
use crate::process::program::{Program, Stack};
use crate::process::stacks::{Process, ProcessError};
use vstd::prelude::*;

verus! {

/// Why a view cannot be evaluated at a height.
#[derive(Debug)]
pub enum HistoryError<E> {
    /// No block exists at the height.
    NoBlock { height: u32 },
    /// The block hash for the height resolved, but the block could not be loaded.
    BlockNotLoaded { height: u32 },
    /// The program has not been deployed.
    NotDeployed { program_id: u64 },
    /// The program was not deployed at or before the height.
    NotYetDeployed { program_id: u64, height: u32 },
    /// The program was not found in storage.
    ProgramNotFound { program_id: u64, edition: u16 },
    /// The process does not have the program.
    Process(ProcessError),
    /// A lookup failed, or a stack could not be built.
    Other(E),
}

/// Getting what the finalize state of the block at a height is built from gave `result`.
pub open spec fn state_at<
    E,
    GetHash: FnOnce(u32) -> Result<Option<u64>, E>,
    GetBlock: FnOnce(u64) -> Result<Option<Block>, E>,
>(
    height: u32,
    get_hash: GetHash,
    get_block: GetBlock,
    timestamps_from: Option<u32>,
    beacon: Limits,
    result: Result<FinalizeStateArgs, HistoryError<E>>,
) -> bool {
    match result {
        Ok(args) => exists|hash: u64, block: Block|
            call_ensures(get_hash, (height,), Ok::<_, E>(Some(hash)))
                && #[trigger] call_ensures(get_block, (hash,), Ok::<_, E>(Some(block)))
                && args == block.state_args(timestamps_from, beacon),
        Err(HistoryError::NoBlock { height: asked }) => asked == height && call_ensures(
            get_hash,
            (height,),
            Ok::<_, E>(None),
        ),
        Err(HistoryError::BlockNotLoaded { height: asked }) => asked == height
            && exists|hash: u64|
            call_ensures(get_hash, (height,), Ok::<_, E>(Some(hash)))
                && #[trigger] call_ensures(get_block, (hash,), Ok::<_, E>(None)),
        Err(HistoryError::Other(error)) => call_ensures(
            get_hash,
            (height,),
            Err::<Option<u64>, E>(error),
        ) || exists|hash: u64|
            call_ensures(get_hash, (height,), Ok::<_, E>(Some(hash)))
                && #[trigger] call_ensures(get_block, (hash,), Err::<Option<Block>, E>(error)),
        Err(_) => false,
    }
}

/// The lookups that the finalize state at a height takes: of the hash at the height, and, where there
/// is one, of its block.
pub open spec fn may_get_state<
    E,
    GetHash: FnOnce(u32) -> Result<Option<u64>, E>,
    GetBlock: FnOnce(u64) -> Result<Option<Block>, E>,
>(height: u32, get_hash: GetHash, get_block: GetBlock) -> bool {
    &&& call_requires(get_hash, (height,))
    &&& forall|hash: u64|
        call_ensures(get_hash, (height,), Ok::<_, E>(Some(hash))) ==> #[trigger] call_requires(
            get_block,
            (hash,),
        )
}

/// Returns what the finalize state of the block at the given height is built from. The timestamp
/// gating and the limits are those of the consensus path.
pub fn finalize_state_for_block<
    E,
    GetHash: FnOnce(u32) -> Result<Option<u64>, E>,
    GetBlock: FnOnce(u64) -> Result<Option<Block>, E>,
>(
    height: u32,
    get_hash: GetHash,
    get_block: GetBlock,
    timestamps_from: Option<u32>,
    beacon: Limits,
) -> (result: Result<FinalizeStateArgs, HistoryError<E>>)
    requires
        may_get_state(height, get_hash, get_block),
    ensures
        state_at(height, get_hash, get_block, timestamps_from, beacon, result),
{
    let hash = match get_hash(height) {
        Ok(Some(hash)) => hash,
        Ok(None) => {
            return Err(HistoryError::NoBlock { height });
        },
        Err(error) => {
            return Err(HistoryError::Other(error));
        },
    };
    match get_block(hash) {
        Ok(Some(block)) => Ok(block.finalize_state_args(timestamps_from, beacon)),
        Ok(None) => Err(HistoryError::BlockNotLoaded { height }),
        Err(error) => Err(HistoryError::Other(error)),
    }
}

/// Looking up the height at which an edition was deployed gave `outcome`: the height of the block
/// that holds the transaction that deployed it, or nothing when one of these is not known.
pub open spec fn deployed_at<
    E,
    FindTransaction: Fn(u16) -> Result<Option<u64>, E>,
    FindHash: Fn(u64) -> Result<Option<u64>, E>,
    GetHeight: Fn(u64) -> Result<Option<u32>, E>,
>(
    find_transaction: FindTransaction,
    find_hash: FindHash,
    get_height: GetHeight,
    edition: u16,
    outcome: Result<Option<u32>, E>,
) -> bool {
    ||| call_ensures(find_transaction, (edition,), Ok::<Option<u64>, E>(None)) && outcome == Ok::<
        Option<u32>,
        E,
    >(None)
    ||| outcome matches Err(error) && call_ensures(
        find_transaction,
        (edition,),
        Err::<Option<u64>, E>(error),
    )
    ||| exists|transaction: u64|
        call_ensures(find_transaction, (edition,), Ok::<_, E>(Some(transaction)))
            && #[trigger] block_holds(find_hash, get_height, transaction, outcome)
}

/// Looking up the height of the block that holds a transaction gave `outcome`.
pub open spec fn block_holds<
    E,
    FindHash: Fn(u64) -> Result<Option<u64>, E>,
    GetHeight: Fn(u64) -> Result<Option<u32>, E>,
>(
    find_hash: FindHash,
    get_height: GetHeight,
    transaction: u64,
    outcome: Result<Option<u32>, E>,
) -> bool {
    ||| call_ensures(find_hash, (transaction,), Ok::<Option<u64>, E>(None)) && outcome == Ok::<
        Option<u32>,
        E,
    >(None)
    ||| outcome matches Err(error) && call_ensures(
        find_hash,
        (transaction,),
        Err::<Option<u64>, E>(error),
    )
    ||| exists|hash: u64|
        call_ensures(find_hash, (transaction,), Ok::<_, E>(Some(hash)))
            && #[trigger] call_ensures(get_height, (hash,), outcome)
}

/// The edition was passed over: it was not deployed at or before the height, as far as is known.
pub open spec fn passed_over<
    E,
    FindTransaction: Fn(u16) -> Result<Option<u64>, E>,
    FindHash: Fn(u64) -> Result<Option<u64>, E>,
    GetHeight: Fn(u64) -> Result<Option<u32>, E>,
>(
    find_transaction: FindTransaction,
    find_hash: FindHash,
    get_height: GetHeight,
    edition: u16,
    height: u32,
) -> bool {
    exists|deployment: Option<u32>| #[trigger]
        deployed_at(
            find_transaction,
            find_hash,
            get_height,
            edition,
            Ok::<Option<u32>, E>(deployment),
        ) && (deployment matches Some(at) ==> at > height)
}

/// The search for an edition failed: looking one up gave the error, and the newer ones were passed
/// over.
pub open spec fn search_failed<
    E,
    FindTransaction: Fn(u16) -> Result<Option<u64>, E>,
    FindHash: Fn(u64) -> Result<Option<u64>, E>,
    GetHeight: Fn(u64) -> Result<Option<u32>, E>,
>(
    find_transaction: FindTransaction,
    find_hash: FindHash,
    get_height: GetHeight,
    latest: u16,
    height: u32,
    error: E,
) -> bool {
    exists|edition: u16|
        edition <= latest && #[trigger] deployed_at(
            find_transaction,
            find_hash,
            get_height,
            edition,
            Err::<Option<u32>, E>(error),
        ) && forall|newer: u16|
            edition < newer <= latest ==> #[trigger] passed_over(
                find_transaction,
                find_hash,
                get_height,
                newer,
                height,
            )
}

/// The lookups that the height of a deployed edition takes: of the transaction that deployed it, of the
/// block that holds that, and of the height of that block, each where the one before is known.
pub open spec fn may_look_up<
    E,
    FindTransaction: Fn(u16) -> Result<Option<u64>, E>,
    FindHash: Fn(u64) -> Result<Option<u64>, E>,
    GetHeight: Fn(u64) -> Result<Option<u32>, E>,
>(
    find_transaction: FindTransaction,
    find_hash: FindHash,
    get_height: GetHeight,
    edition: u16,
) -> bool {
    &&& call_requires(find_transaction, (edition,))
    &&& forall|transaction: u64|
        call_ensures(find_transaction, (edition,), Ok::<_, E>(Some(transaction)))
            ==> #[trigger] call_requires(find_hash, (transaction,))
    &&& forall|transaction: u64, hash: u64|
        call_ensures(find_transaction, (edition,), Ok::<_, E>(Some(transaction)))
            && #[trigger] call_ensures(find_hash, (transaction,), Ok::<_, E>(Some(hash)))
            ==> call_requires(get_height, (hash,))
}

/// The lookups that the search for an edition takes: those of the latest edition, and of each other
/// once all newer ones were passed over.
pub open spec fn may_search<
    E,
    FindTransaction: Fn(u16) -> Result<Option<u64>, E>,
    FindHash: Fn(u64) -> Result<Option<u64>, E>,
    GetHeight: Fn(u64) -> Result<Option<u32>, E>,
>(
    find_transaction: FindTransaction,
    find_hash: FindHash,
    get_height: GetHeight,
    latest: u16,
    height: u32,
) -> bool {
    forall|edition: u16|
        edition <= latest && (forall|newer: u16|
            edition < newer <= latest ==> #[trigger] passed_over(
                find_transaction,
                find_hash,
                get_height,
                newer,
                height,
            )) ==> #[trigger] may_look_up(find_transaction, find_hash, get_height, edition)
}

/// Looks up the height at which an edition was deployed.
fn deployment_height<
    E,
    FindTransaction: Fn(u16) -> Result<Option<u64>, E>,
    FindHash: Fn(u64) -> Result<Option<u64>, E>,
    GetHeight: Fn(u64) -> Result<Option<u32>, E>,
>(
    find_transaction: &FindTransaction,
    find_hash: &FindHash,
    get_height: &GetHeight,
    edition: u16,
) -> (outcome: Result<Option<u32>, E>)
    requires
        may_look_up(*find_transaction, *find_hash, *get_height, edition),
    ensures
        deployed_at(*find_transaction, *find_hash, *get_height, edition, outcome),
{
    let transaction = match find_transaction(edition) {
        Ok(Some(transaction)) => transaction,
        Ok(None) => {
            return Ok(None);
        },
        Err(error) => {
            return Err(error);
        },
    };
    let hash = match find_hash(transaction) {
        Ok(Some(hash)) => hash,
        Ok(None) => {
            assert(block_holds(*find_hash, *get_height, transaction, Ok::<Option<u32>, E>(None)));
            return Ok(None);
        },
        Err(error) => {
            assert(block_holds(*find_hash, *get_height, transaction, Err::<Option<u32>, E>(error)));
            return Err(error);
        },
    };
    assert(call_ensures(*find_hash, (transaction,), Ok::<_, E>(Some(hash))));
    let outcome = get_height(hash);
    assert(block_holds(*find_hash, *get_height, transaction, outcome));
    outcome
}

/// Resolving the edition of a program that is live at a height gave `result`.
pub open spec fn edition_live_at<
    E,
    FindTransaction: Fn(u16) -> Result<Option<u64>, E>,
    FindHash: Fn(u64) -> Result<Option<u64>, E>,
    GetHeight: Fn(u64) -> Result<Option<u32>, E>,
>(
    program_id: u64,
    height: u32,
    latest_edition: Option<u16>,
    find_transaction: FindTransaction,
    find_hash: FindHash,
    get_height: GetHeight,
    result: Result<u16, HistoryError<E>>,
) -> bool {
    match latest_edition {
        None => result == Err::<u16, _>(HistoryError::<E>::NotDeployed { program_id }),
        Some(latest) => match result {
            Ok(edition) => {
                &&& edition <= latest
                &&& exists|at: u32|
                    at <= height && #[trigger] deployed_at(
                        find_transaction,
                        find_hash,
                        get_height,
                        edition,
                        Ok::<_, E>(Some(at)),
                    )
                &&& forall|newer: u16|
                    edition < newer <= latest ==> #[trigger] passed_over(
                        find_transaction,
                        find_hash,
                        get_height,
                        newer,
                        height,
                    )
            },
            Err(HistoryError::NotYetDeployed { program_id: asked, height: at }) => {
                &&& asked == program_id && at == height
                &&& forall|edition: u16|
                    edition <= latest ==> #[trigger] passed_over(
                        find_transaction,
                        find_hash,
                        get_height,
                        edition,
                        height,
                    )
            },
            Err(HistoryError::Other(error)) => search_failed(
                find_transaction,
                find_hash,
                get_height,
                latest,
                height,
                error,
            ),
            Err(_) => false,
        },
    }
}

/// Returns the program edition live at block `height`: the newest edition whose original deployment
/// was confirmed at or before `height`. Editions deploy in increasing block order.
pub fn resolve_program_edition_at_height<
    E,
    FindTransaction: Fn(u16) -> Result<Option<u64>, E>,
    FindHash: Fn(u64) -> Result<Option<u64>, E>,
    GetHeight: Fn(u64) -> Result<Option<u32>, E>,
>(
    program_id: u64,
    height: u32,
    latest_edition: Option<u16>,
    find_transaction: FindTransaction,
    find_hash: FindHash,
    get_height: GetHeight,
) -> (result: Result<u16, HistoryError<E>>)
    requires
        latest_edition matches Some(latest) ==> may_search(
            find_transaction,
            find_hash,
            get_height,
            latest,
            height,
        ),
    ensures
        edition_live_at(
            program_id,
            height,
            latest_edition,
            find_transaction,
            find_hash,
            get_height,
            result,
        ),
{
    let latest = match latest_edition {
        Some(latest) => latest,
        None => {
            return Err(HistoryError::NotDeployed { program_id });
        },
    };
    let mut left: u32 = latest as u32 + 1;
    while left > 0
        invariant
            left <= latest + 1,
            may_search(find_transaction, find_hash, get_height, latest, height),
            latest_edition == Some(latest),
            forall|newer: u16|
                left <= newer <= latest ==> #[trigger] passed_over(
                    find_transaction,
                    find_hash,
                    get_height,
                    newer,
                    height,
                ),
        decreases left,
    {
        let edition = (left - 1) as u16;
        assert(may_look_up(find_transaction, find_hash, get_height, edition));
        match deployment_height(&find_transaction, &find_hash, &get_height, edition) {
            Ok(Some(deployment_height)) => {
                if deployment_height <= height {
                    return Ok(edition);
                }
                assert(passed_over(find_transaction, find_hash, get_height, edition, height));
            },
            Ok(None) => {
                assert(passed_over(find_transaction, find_hash, get_height, edition, height));
            },
            Err(error) => {
                assert(deployed_at(
                    find_transaction,
                    find_hash,
                    get_height,
                    edition,
                    Err::<Option<u32>, E>(error),
                ));
                assert(search_failed(
                    find_transaction,
                    find_hash,
                    get_height,
                    latest,
                    height,
                    error,
                ));
                return Err(HistoryError::Other(error));
            },
        }
        left = left - 1;
    }
    Err(HistoryError::NotYetDeployed { program_id, height })
}

/// The stack that a view is evaluated with.
pub enum ViewStack<'a> {
    /// The historic edition is already the loaded one.
    Loaded(&'a Stack),
    /// A one-off stack for the historic edition.
    Historic(Stack),
}

/// A one-off stack was computed of the stored program, and is well-formed.
pub open spec fn built_from_storage<
    E,
    GetProgram: FnOnce(u64, u16) -> Result<Option<Program>, E>,
    New: FnOnce(&Process, &Program, u16) -> Result<Stack, E>,
    Check: FnOnce(&Process, &Stack) -> Result<(), E>,
>(
    process: &Process,
    program_id: u64,
    edition: u16,
    get_program: GetProgram,
    new_raw: New,
    check: Check,
    stack: Stack,
) -> bool {
    exists|program: Program|
        {
            &&& call_ensures(get_program, (program_id, edition), Ok::<_, E>(Some(program)))
            &&& #[trigger] call_ensures(
                new_raw,
                (process, &program, edition),
                Ok::<Stack, E>(stack),
            )
            &&& call_ensures(check, (process, &stack), Ok::<(), E>(()))
        }
}

/// A one-off stack was not built: the program could not be read, its stack could not be computed, or
/// the stack is not well-formed.
pub open spec fn build_failed<
    E,
    GetProgram: FnOnce(u64, u16) -> Result<Option<Program>, E>,
    New: FnOnce(&Process, &Program, u16) -> Result<Stack, E>,
    Check: FnOnce(&Process, &Stack) -> Result<(), E>,
>(
    process: &Process,
    program_id: u64,
    edition: u16,
    get_program: GetProgram,
    new_raw: New,
    check: Check,
    error: E,
) -> bool {
    ||| call_ensures(get_program, (program_id, edition), Err::<Option<Program>, E>(error))
    ||| exists|program: Program|
        call_ensures(get_program, (program_id, edition), Ok::<_, E>(Some(program)))
            && #[trigger] call_ensures(
            new_raw,
            (process, &program, edition),
            Err::<Stack, E>(error),
        )
    ||| exists|program: Program, stack: Stack|
        call_ensures(get_program, (program_id, edition), Ok::<_, E>(Some(program)))
            && #[trigger] call_ensures(
            new_raw,
            (process, &program, edition),
            Ok::<Stack, E>(stack),
        ) && call_ensures(check, (process, &stack), Err::<(), E>(error))
}

/// Getting the stack that a view of the given edition is evaluated with gave `result`.
pub open spec fn stack_for_view<
    'a,
    E,
    GetProgram: FnOnce(u64, u16) -> Result<Option<Program>, E>,
    New: FnOnce(&Process, &Program, u16) -> Result<Stack, E>,
    Check: FnOnce(&Process, &Stack) -> Result<(), E>,
>(
    process: &'a Process,
    program_id: u64,
    edition: u16,
    get_program: GetProgram,
    new_raw: New,
    check: Check,
    result: Result<ViewStack<'a>, HistoryError<E>>,
) -> bool {
    match process.stack_of(program_id) {
        None => result == Err::<ViewStack<'a>, _>(
            HistoryError::<E>::Process(ProcessError::ProgramDoesNotExist { program_id }),
        ),
        Some(loaded) => if loaded.edition == edition {
            result matches Ok(ViewStack::Loaded(stack)) && *stack == loaded
        } else {
            match result {
                Ok(ViewStack::Loaded(_)) => false,
                Ok(ViewStack::Historic(stack)) => built_from_storage(
                    process,
                    program_id,
                    edition,
                    get_program,
                    new_raw,
                    check,
                    stack,
                ),
                Err(HistoryError::ProgramNotFound { program_id: id, edition: asked }) => id
                    == program_id && asked == edition && call_ensures(
                    get_program,
                    (program_id, edition),
                    Ok::<Option<Program>, E>(None),
                ),
                Err(HistoryError::Other(error)) => build_failed(
                    process,
                    program_id,
                    edition,
                    get_program,
                    new_raw,
                    check,
                    error,
                ),
                Err(_) => false,
            }
        },
    }
}

/// The calls that the stack of an edition takes, where it is not the loaded one: the program is read,
/// then its stack is computed, and then that is checked.
pub open spec fn may_view<
    E,
    GetProgram: FnOnce(u64, u16) -> Result<Option<Program>, E>,
    New: FnOnce(&Process, &Program, u16) -> Result<Stack, E>,
    Check: FnOnce(&Process, &Stack) -> Result<(), E>,
>(
    process: &Process,
    program_id: u64,
    edition: u16,
    get_program: GetProgram,
    new_raw: New,
    check: Check,
) -> bool {
    process.stack_of(program_id) matches Some(loaded) && loaded.edition != edition ==> {
        &&& call_requires(get_program, (program_id, edition))
        &&& forall|program: Program|
            call_ensures(get_program, (program_id, edition), Ok::<_, E>(Some(program)))
                ==> #[trigger] call_requires(new_raw, (process, &program, edition))
        &&& forall|program: Program, stack: Stack|
            call_ensures(get_program, (program_id, edition), Ok::<_, E>(Some(program)))
                && #[trigger] call_ensures(
                new_raw,
                (process, &program, edition),
                Ok::<Stack, E>(stack),
            ) ==> call_requires(check, (process, &stack))
    }
}

/// Returns the stack of the given edition of a program: the loaded one when it has that edition, or
/// else one that is built from the stored program and checked.
pub fn view_stack<
    'a,
    E,
    GetProgram: FnOnce(u64, u16) -> Result<Option<Program>, E>,
    New: FnOnce(&Process, &Program, u16) -> Result<Stack, E>,
    Check: FnOnce(&Process, &Stack) -> Result<(), E>,
>(
    process: &'a Process,
    program_id: u64,
    edition: u16,
    get_program: GetProgram,
    new_raw: New,
    check: Check,
) -> (result: Result<ViewStack<'a>, HistoryError<E>>)
    requires
        process.wf(),
        may_view(process, program_id, edition, get_program, new_raw, check),
    ensures
        stack_for_view(process, program_id, edition, get_program, new_raw, check, result),
{
    let loaded = match process.get_stack(program_id) {
        Ok(loaded) => loaded,
        Err(error) => {
            return Err(HistoryError::Process(error));
        },
    };
    if loaded.program_edition() == edition {
        return Ok(ViewStack::Loaded(loaded));
    }
    let program = match get_program(program_id, edition) {
        Ok(Some(program)) => program,
        Ok(None) => {
            return Err(HistoryError::ProgramNotFound { program_id, edition });
        },
        Err(error) => {
            return Err(HistoryError::Other(error));
        },
    };
    let stack = match new_raw(process, &program, edition) {
        Ok(stack) => stack,
        Err(error) => {
            return Err(HistoryError::Other(error));
        },
    };
    assert(call_ensures(new_raw, (process, &program, edition), Ok::<Stack, E>(stack)));
    match check(process, &stack) {
        Ok(unit) => {
            assert(unit == ());
            assert(built_from_storage(
                process,
                program_id,
                edition,
                get_program,
                new_raw,
                check,
                stack,
            ));
            Ok(ViewStack::Historic(stack))
        },
        Err(error) => {
            assert(build_failed(
                process,
                program_id,
                edition,
                get_program,
                new_raw,
                check,
                error,
            ));
            Err(HistoryError::Other(error))
        },
    }
}

impl<'a> ViewStack<'a> {
    /// The stack.
    pub open spec fn spec_stack(&self) -> Stack {
        match self {
            ViewStack::Loaded(stack) => **stack,
            ViewStack::Historic(stack) => *stack,
        }
    }

    /// Returns the stack.
    pub fn stack(&self) -> (stack: &Stack)
        ensures
            *stack == self.spec_stack(),
    {
        match self {
            ViewStack::Loaded(stack) => stack,
            ViewStack::Historic(stack) => stack,
        }
    }
}

/// Evaluates a view function against the state at the given block `height`, with the body that the
/// program edition live at that height has. The finalize state is resolved first, then the edition,
/// then the stack; `evaluate` is handed the first and the last.
pub fn evaluate_view_at_height<
    V,
    E,
    GetBlockHash: FnOnce(u32) -> Result<Option<u64>, E>,
    GetBlock: FnOnce(u64) -> Result<Option<Block>, E>,
    LatestEdition: FnOnce(u64) -> Result<Option<u16>, E>,
    FindTransaction: Fn(u16) -> Result<Option<u64>, E>,
    FindHash: Fn(u64) -> Result<Option<u64>, E>,
    GetHeight: Fn(u64) -> Result<Option<u32>, E>,
    GetProgram: FnOnce(u64, u16) -> Result<Option<Program>, E>,
    New: FnOnce(&Process, &Program, u16) -> Result<Stack, E>,
    Check: FnOnce(&Process, &Stack) -> Result<(), E>,
    Evaluate: FnOnce(FinalizeStateArgs, &Stack) -> Result<V, E>,
>(
    process: &Process,
    program_id: u64,
    height: u32,
    timestamps_from: Option<u32>,
    beacon: Limits,
    get_block_hash: GetBlockHash,
    get_block: GetBlock,
    get_latest_edition: LatestEdition,
    find_transaction: FindTransaction,
    find_hash: FindHash,
    get_height: GetHeight,
    get_program: GetProgram,
    new_raw: New,
    check: Check,
    evaluate: Evaluate,
) -> (result: Result<V, HistoryError<E>>)
    requires
        process.wf(),
        may_get_state(height, get_block_hash, get_block),
        forall|state: FinalizeStateArgs|
            #[trigger] state_at(
                height,
                get_block_hash,
                get_block,
                timestamps_from,
                beacon,
                Ok::<_, HistoryError<E>>(state),
            ) ==> call_requires(get_latest_edition, (program_id,)),
        forall|latest: u16|
            #[trigger] call_ensures(get_latest_edition, (program_id,), Ok::<_, E>(Some(latest)))
                ==> may_search(find_transaction, find_hash, get_height, latest, height),
        forall|latest: Option<u16>, edition: u16|
            call_ensures(get_latest_edition, (program_id,), Ok::<_, E>(latest))
                && #[trigger] edition_live_at(
                program_id,
                height,
                latest,
                find_transaction,
                find_hash,
                get_height,
                Ok::<_, HistoryError<E>>(edition),
            ) ==> may_view(process, program_id, edition, get_program, new_raw, check),
        forall|state: FinalizeStateArgs, edition: u16, view: ViewStack|
            #[trigger] state_at(
                height,
                get_block_hash,
                get_block,
                timestamps_from,
                beacon,
                Ok::<_, HistoryError<E>>(state),
            ) && #[trigger] stack_for_view(
                process,
                program_id,
                edition,
                get_program,
                new_raw,
                check,
                Ok::<_, HistoryError<E>>(view),
            ) ==> call_requires(evaluate, (state, &view.spec_stack())),
    ensures
        ({
            // The finalize state was resolved to `state`.
            let state_is = |state: FinalizeStateArgs|
                state_at(
                    height,
                    get_block_hash,
                    get_block,
                    timestamps_from,
                    beacon,
                    Ok::<_, HistoryError<E>>(state),
                );
            // The edition was resolved to `edition`.
            let edition_is = |latest: Option<u16>, edition: u16|
                call_ensures(get_latest_edition, (program_id,), Ok::<_, E>(latest))
                    && edition_live_at(
                    program_id,
                    height,
                    latest,
                    find_transaction,
                    find_hash,
                    get_height,
                    Ok::<_, HistoryError<E>>(edition),
                );
            // The stack of the edition was resolved to `view`.
            let stack_is = |edition: u16, view: ViewStack|
                stack_for_view(
                    process,
                    program_id,
                    edition,
                    get_program,
                    new_raw,
                    check,
                    Ok::<_, HistoryError<E>>(view),
                );
            match result {
                Ok(output) => exists|
                    state: FinalizeStateArgs,
                    latest: Option<u16>,
                    edition: u16,
                    view: ViewStack,
                |
                    {
                        &&& #[trigger] state_is(state)
                        &&& #[trigger] edition_is(latest, edition)
                        &&& #[trigger] stack_is(edition, view)
                        &&& call_ensures(
                            evaluate,
                            (state, &view.spec_stack()),
                            Ok::<V, E>(output),
                        )
                    },
                Err(error) => {
                    ||| state_at(
                        height,
                        get_block_hash,
                        get_block,
                        timestamps_from,
                        beacon,
                        Err::<FinalizeStateArgs, _>(error),
                    )
                    ||| error matches HistoryError::Other(lookup) && call_ensures(
                        get_latest_edition,
                        (program_id,),
                        Err::<Option<u16>, E>(lookup),
                    )
                    ||| exists|latest: Option<u16>|
                        call_ensures(get_latest_edition, (program_id,), Ok::<_, E>(latest))
                            && #[trigger] edition_live_at(
                            program_id,
                            height,
                            latest,
                            find_transaction,
                            find_hash,
                            get_height,
                            Err::<u16, _>(error),
                        )
                    ||| exists|latest: Option<u16>, edition: u16| #[trigger]
                        edition_is(latest, edition) && stack_for_view(
                            process,
                            program_id,
                            edition,
                            get_program,
                            new_raw,
                            check,
                            Err::<ViewStack, _>(error),
                        )
                    ||| error matches HistoryError::Other(failure) && exists|
                        state: FinalizeStateArgs,
                        latest: Option<u16>,
                        edition: u16,
                        view: ViewStack,
                    |
                        {
                            &&& #[trigger] state_is(state)
                            &&& #[trigger] edition_is(latest, edition)
                            &&& #[trigger] stack_is(edition, view)
                            &&& call_ensures(
                                evaluate,
                                (state, &view.spec_stack()),
                                Err::<V, E>(failure),
                            )
                        }
                },
            }
        }),
{
    let ghost state_is = |state: FinalizeStateArgs|
        state_at(
            height,
            get_block_hash,
            get_block,
            timestamps_from,
            beacon,
            Ok::<_, HistoryError<E>>(state),
        );
    let ghost edition_is = |latest: Option<u16>, edition: u16|
        call_ensures(get_latest_edition, (program_id,), Ok::<_, E>(latest)) && edition_live_at(
            program_id,
            height,
            latest,
            find_transaction,
            find_hash,
            get_height,
            Ok::<_, HistoryError<E>>(edition),
        );
    let ghost stack_is = |edition: u16, view: ViewStack|
        stack_for_view(
            process,
            program_id,
            edition,
            get_program,
            new_raw,
            check,
            Ok::<_, HistoryError<E>>(view),
        );
    let state = match finalize_state_for_block(
        height,
        get_block_hash,
        get_block,
        timestamps_from,
        beacon,
    ) {
        Ok(state) => state,
        Err(error) => {
            return Err(error);
        },
    };
    assert(state_is(state));
    let latest = match get_latest_edition(program_id) {
        Ok(latest) => latest,
        Err(error) => {
            return Err(HistoryError::Other(error));
        },
    };
    let edition = match resolve_program_edition_at_height(
        program_id,
        height,
        latest,
        find_transaction,
        find_hash,
        get_height,
    ) {
        Ok(edition) => edition,
        Err(error) => {
            return Err(error);
        },
    };
    assert(edition_is(latest, edition));
    let view = match view_stack(process, program_id, edition, get_program, new_raw, check) {
        Ok(view) => view,
        Err(error) => {
            return Err(error);
        },
    };
    assert(stack_is(edition, view));
    match evaluate(state, view.stack()) {
        Ok(output) => Ok(output),
        Err(error) => Err(HistoryError::Other(error)),
    }
}

/// The height at which an edition was deployed, when the transactions that deployed editions, the
/// blocks that hold transactions, and the heights of blocks are the given ones.
pub open spec fn height_of_edition(
    transaction_of: spec_fn(u16) -> Option<u64>,
    block_of: spec_fn(u64) -> Option<u64>,
    height_of: spec_fn(u64) -> Option<u32>,
    edition: u16,
) -> Option<u32> {
    match transaction_of(edition) {
        None => None,
        Some(transaction) => match block_of(transaction) {
            None => None,
            Some(hash) => height_of(hash),
        },
    }
}

/// The lookups give the given transactions, blocks and heights.
pub open spec fn store_knows<
    E,
    FindTransaction: Fn(u16) -> Result<Option<u64>, E>,
    FindHash: Fn(u64) -> Result<Option<u64>, E>,
    GetHeight: Fn(u64) -> Result<Option<u32>, E>,
>(
    find_transaction: FindTransaction,
    find_hash: FindHash,
    get_height: GetHeight,
    transaction_of: spec_fn(u16) -> Option<u64>,
    block_of: spec_fn(u64) -> Option<u64>,
    height_of: spec_fn(u64) -> Option<u32>,
) -> bool {
    &&& forall|edition: u16, found: Result<Option<u64>, E>| #[trigger]
        call_ensures(find_transaction, (edition,), found) ==> found == Ok::<_, E>(
            transaction_of(edition),
        )
    &&& forall|transaction: u64, found: Result<Option<u64>, E>| #[trigger]
        call_ensures(find_hash, (transaction,), found) ==> found == Ok::<_, E>(
            block_of(transaction),
        )
    &&& forall|hash: u64, found: Result<Option<u32>, E>| #[trigger]
        call_ensures(get_height, (hash,), found) ==> found == Ok::<_, E>(height_of(hash))
}

/// Looking up the height of an edition gives the height at which it was deployed.
proof fn lemma_edition_height<
    E,
    FindTransaction: Fn(u16) -> Result<Option<u64>, E>,
    FindHash: Fn(u64) -> Result<Option<u64>, E>,
    GetHeight: Fn(u64) -> Result<Option<u32>, E>,
>(
    find_transaction: FindTransaction,
    find_hash: FindHash,
    get_height: GetHeight,
    transaction_of: spec_fn(u16) -> Option<u64>,
    block_of: spec_fn(u64) -> Option<u64>,
    height_of: spec_fn(u64) -> Option<u32>,
    edition: u16,
    outcome: Result<Option<u32>, E>,
)
    requires
        store_knows(
            find_transaction,
            find_hash,
            get_height,
            transaction_of,
            block_of,
            height_of,
        ),
        deployed_at(find_transaction, find_hash, get_height, edition, outcome),
    ensures
        outcome == Ok::<_, E>(
            height_of_edition(transaction_of, block_of, height_of, edition),
        ),
{
}

/// The edition of a program that is live at a height is the newest one that was deployed at or before
/// the height. There is none exactly when no edition up to the latest one was deployed by then.
pub proof fn law_newest_edition_is_live<
    E,
    FindTransaction: Fn(u16) -> Result<Option<u64>, E>,
    FindHash: Fn(u64) -> Result<Option<u64>, E>,
    GetHeight: Fn(u64) -> Result<Option<u32>, E>,
>(
    program_id: u64,
    height: u32,
    latest: u16,
    find_transaction: FindTransaction,
    find_hash: FindHash,
    get_height: GetHeight,
    transaction_of: spec_fn(u16) -> Option<u64>,
    block_of: spec_fn(u64) -> Option<u64>,
    height_of: spec_fn(u64) -> Option<u32>,
    result: Result<u16, HistoryError<E>>,
    other: u16,
)
    requires
        store_knows(
            find_transaction,
            find_hash,
            get_height,
            transaction_of,
            block_of,
            height_of,
        ),
        edition_live_at(
            program_id,
            height,
            Some(latest),
            find_transaction,
            find_hash,
            get_height,
            result,
        ),
        other <= latest,
    ensures
        match result {
            Ok(edition) => {
                &&& edition <= latest
                &&& height_of_edition(transaction_of, block_of, height_of, edition) matches Some(at)
                    && at <= height
                &&& other > edition ==> (height_of_edition(
                    transaction_of,
                    block_of,
                    height_of,
                    other,
                ) matches Some(at) ==> at > height)
            },
            Err(error) => {
                &&& error matches HistoryError::NotYetDeployed { program_id: asked, height: at }
                    && asked == program_id && at == height
                &&& height_of_edition(transaction_of, block_of, height_of, other) matches Some(at)
                    ==> at > height
            },
        },
{
    match result {
        Ok(edition) => {
            let at = choose|at: u32|
                at <= height && #[trigger] deployed_at(
                    find_transaction,
                    find_hash,
                    get_height,
                    edition,
                    Ok::<_, E>(Some(at)),
                );
            lemma_edition_height(
                find_transaction,
                find_hash,
                get_height,
                transaction_of,
                block_of,
                height_of,
                edition,
                Ok::<_, E>(Some(at)),
            );
            if other > edition {
                lemma_passed_over(
                    find_transaction,
                    find_hash,
                    get_height,
                    transaction_of,
                    block_of,
                    height_of,
                    other,
                    height,
                );
            }
        },
        Err(HistoryError::NotYetDeployed { .. }) => {
            lemma_passed_over(
                find_transaction,
                find_hash,
                get_height,
                transaction_of,
                block_of,
                height_of,
                other,
                height,
            );
        },
        Err(HistoryError::Other(error)) => {
            let edition = choose|edition: u16|
                edition <= latest && #[trigger] deployed_at(
                    find_transaction,
                    find_hash,
                    get_height,
                    edition,
                    Err::<Option<u32>, E>(error),
                ) && forall|newer: u16|
                    edition < newer <= latest ==> #[trigger] passed_over(
                        find_transaction,
                        find_hash,
                        get_height,
                        newer,
                        height,
                    );
            lemma_edition_height(
                find_transaction,
                find_hash,
                get_height,
                transaction_of,
                block_of,
                height_of,
                edition,
                Err::<Option<u32>, E>(error),
            );
        },
        Err(_) => {},
    }
}

/// An edition that was passed over was not deployed at or before the height.
proof fn lemma_passed_over<
    E,
    FindTransaction: Fn(u16) -> Result<Option<u64>, E>,
    FindHash: Fn(u64) -> Result<Option<u64>, E>,
    GetHeight: Fn(u64) -> Result<Option<u32>, E>,
>(
    find_transaction: FindTransaction,
    find_hash: FindHash,
    get_height: GetHeight,
    transaction_of: spec_fn(u16) -> Option<u64>,
    block_of: spec_fn(u64) -> Option<u64>,
    height_of: spec_fn(u64) -> Option<u32>,
    edition: u16,
    height: u32,
)
    requires
        store_knows(
            find_transaction,
            find_hash,
            get_height,
            transaction_of,
            block_of,
            height_of,
        ),
        passed_over(find_transaction, find_hash, get_height, edition, height),
    ensures
        height_of_edition(transaction_of, block_of, height_of, edition) matches Some(at) ==> at
            > height,
{
    let deployment = choose|deployment: Option<u32>| #[trigger]
        deployed_at(
            find_transaction,
            find_hash,
            get_height,
            edition,
            Ok::<Option<u32>, E>(deployment),
        ) && (deployment matches Some(at) ==> at > height);
    lemma_edition_height(
        find_transaction,
        find_hash,
        get_height,
        transaction_of,
        block_of,
        height_of,
        edition,
        Ok::<Option<u32>, E>(deployment),
    );
}

/// At a later height the live edition is the same or a newer one.
pub proof fn law_live_edition_never_gets_older<
    E,
    FindTransaction: Fn(u16) -> Result<Option<u64>, E>,
    FindHash: Fn(u64) -> Result<Option<u64>, E>,
    GetHeight: Fn(u64) -> Result<Option<u32>, E>,
>(
    program_id: u64,
    earlier: u32,
    later: u32,
    latest: u16,
    find_transaction: FindTransaction,
    find_hash: FindHash,
    get_height: GetHeight,
    transaction_of: spec_fn(u16) -> Option<u64>,
    block_of: spec_fn(u64) -> Option<u64>,
    height_of: spec_fn(u64) -> Option<u32>,
    edition: u16,
    result: Result<u16, HistoryError<E>>,
)
    requires
        earlier <= later,
        store_knows(
            find_transaction,
            find_hash,
            get_height,
            transaction_of,
            block_of,
            height_of,
        ),
        edition_live_at(
            program_id,
            earlier,
            Some(latest),
            find_transaction,
            find_hash,
            get_height,
            Ok::<u16, HistoryError<E>>(edition),
        ),
        edition_live_at(
            program_id,
            later,
            Some(latest),
            find_transaction,
            find_hash,
            get_height,
            result,
        ),
    ensures
        result matches Ok(newer) && newer >= edition,
{
    law_newest_edition_is_live(
        program_id,
        earlier,
        latest,
        find_transaction,
        find_hash,
        get_height,
        transaction_of,
        block_of,
        height_of,
        Ok::<u16, HistoryError<E>>(edition),
        edition,
    );
    law_newest_edition_is_live(
        program_id,
        later,
        latest,
        find_transaction,
        find_hash,
        get_height,
        transaction_of,
        block_of,
        height_of,
        result,
        edition,
    );
}

/// A program without a latest edition was not deployed.
pub proof fn law_program_without_editions_is_not_deployed<
    E,
    FindTransaction: Fn(u16) -> Result<Option<u64>, E>,
    FindHash: Fn(u64) -> Result<Option<u64>, E>,
    GetHeight: Fn(u64) -> Result<Option<u32>, E>,
>(
    program_id: u64,
    height: u32,
    find_transaction: FindTransaction,
    find_hash: FindHash,
    get_height: GetHeight,
    result: Result<u16, HistoryError<E>>,
)
    requires
        edition_live_at(
            program_id,
            height,
            None,
            find_transaction,
            find_hash,
            get_height,
            result,
        ),
    ensures
        result matches Err(HistoryError::NotDeployed { program_id: asked }) && asked == program_id,
{
}

/// The finalize state at a height is that of the block which is stored there: it is built as when the
/// block was added.
pub proof fn law_view_sees_the_state_of_its_block<
    E,
    GetHash: FnOnce(u32) -> Result<Option<u64>, E>,
    GetBlock: FnOnce(u64) -> Result<Option<Block>, E>,
>(
    height: u32,
    get_hash: GetHash,
    get_block: GetBlock,
    timestamps_from: Option<u32>,
    beacon: Limits,
    args: FinalizeStateArgs,
)
    requires
        state_at(
            height,
            get_hash,
            get_block,
            timestamps_from,
            beacon,
            Ok::<FinalizeStateArgs, HistoryError<E>>(args),
        ),
    ensures
        exists|hash: u64, block: Block|
            {
                let metadata = block.header.metadata;
                &&& call_ensures(get_hash, (height,), Ok::<_, E>(Some(hash)))
                &&& #[trigger] call_ensures(get_block, (hash,), Ok::<_, E>(Some(block)))
                &&& args.round == metadata.round
                &&& args.height == metadata.height
                &&& args.timestamp matches Some(timestamp) ==> timestamp == metadata.timestamp
                &&& args.timestamp is Some <==> (timestamps_from matches Some(from)
                    ==> metadata.height >= from)
                &&& args.cumulative_weight == metadata.cumulative_weight
                &&& args.cumulative_proof_target == metadata.cumulative_proof_target
                &&& args.previous_hash == block.previous_hash
            },
{
}

/// A view is evaluated with a stack of the edition that was asked for: the loaded one, where it has
/// that edition, and else one that was computed of the stored program of that edition and found
/// well-formed. Nothing is built where the loaded one has the edition.
pub proof fn law_view_has_the_edition_asked_for<
    'a,
    E,
    GetProgram: FnOnce(u64, u16) -> Result<Option<Program>, E>,
    New: FnOnce(&Process, &Program, u16) -> Result<Stack, E>,
    Check: FnOnce(&Process, &Stack) -> Result<(), E>,
>(
    process: &'a Process,
    program_id: u64,
    edition: u16,
    get_program: GetProgram,
    new_raw: New,
    check: Check,
    view: ViewStack<'a>,
)
    requires
        stack_for_view(
            process,
            program_id,
            edition,
            get_program,
            new_raw,
            check,
            Ok::<ViewStack<'a>, HistoryError<E>>(view),
        ),
    ensures
        process.stack_of(program_id) matches Some(loaded) && {
            &&& loaded.edition == edition ==> view is Loaded && view.spec_stack() == loaded
            &&& loaded.edition != edition ==> view is Historic && exists|program: Program|
                {
                    &&& call_ensures(get_program, (program_id, edition), Ok::<_, E>(Some(program)))
                    &&& #[trigger] call_ensures(
                        new_raw,
                        (process, &program, edition),
                        Ok::<Stack, E>(view.spec_stack()),
                    )
                    &&& call_ensures(check, (process, &view.spec_stack()), Ok::<(), E>(()))
                }
        },
{
    if process.stack_of(program_id)->0.edition != edition {
        let stack = view.spec_stack();
        let program = choose|program: Program|
            {
                &&& call_ensures(get_program, (program_id, edition), Ok::<_, E>(Some(program)))
                &&& #[trigger] call_ensures(
                    new_raw,
                    (process, &program, edition),
                    Ok::<Stack, E>(stack),
                )
                &&& call_ensures(check, (process, &stack), Ok::<(), E>(()))
            };
        assert(call_ensures(
            new_raw,
            (process, &program, edition),
            Ok::<Stack, E>(view.spec_stack()),
        ));
    }
}

} // verus!
