//! Operations that are executed only in a sequential fashion.

use crate::block::{Block, FinalizeStateArgs, Solution};
use crate::committee::{Bonded, Committee};
use crate::id_map::IdMap;
use crate::vm::speculation::SpeculationId;
use vstd::prelude::*;

verus! {

/// What a block ratifies.
#[derive(Debug)]
pub enum Ratify {
    /// The committee, the public balances and the bonded balances of a genesis block.
    Genesis { committee: Committee, public_balances: IdMap, bonded_balances: Vec<Bonded> },
    /// Something else, by its ID.
    Other(u64),
}

/// The state that transactions are finalized on.
#[derive(Copy, Clone, Debug, PartialEq, Eq, Structural)]
pub enum FinalizeState {
    /// The state of a genesis block.
    Genesis,
    /// The state of a later block.
    Block(FinalizeStateArgs),
}

/// What a speculate is performed on.
#[derive(Debug)]
pub struct SpeculateArgs {
    pub state: FinalizeState,
    pub time_since_last_block: i64,
    pub coinbase_reward: Option<u64>,
    pub ratifications: Vec<Ratify>,
    pub solutions: Vec<Solution>,
    pub transactions: Vec<u64>,
    /// The id under which the finalize batch is kept; it is not kept without one.
    pub keep: Option<SpeculationId>,
}

/// An operation intended to be executed only in a sequential fashion.
#[derive(Debug)]
pub enum SequentialOperation {
    AddNextBlock(Block),
    AtomicSpeculate(SpeculateArgs),
    DiscardKeptSpeculation,
}

/// Represents the results of all the sequential operations. `S` is what a speculate returns.
pub enum SequentialOperationResult<S, E> {
    AddNextBlock(Result<(), E>),
    AtomicSpeculate(Result<S, E>),
    DiscardKeptSpeculation,
}

/// Why an operation has no result.
#[derive(Debug)]
pub enum OperationError<E> {
    /// The sequential operations thread is shutting down.
    ShuttingDown,
    /// The operation failed.
    Failed(E),
}

impl SequentialOperation {
    /// The label of the operation.
    pub open spec fn spec_label(&self) -> Seq<char> {
        match self {
            SequentialOperation::AddNextBlock(_) => "add_next_block"@,
            SequentialOperation::AtomicSpeculate(_) => "atomic_speculate"@,
            SequentialOperation::DiscardKeptSpeculation => "discard_kept_speculation"@,
        }
    }

    /// Returns the label of the operation.
    pub fn label(&self) -> (label: &'static str)
        ensures
            label@ == self.spec_label(),
    {
        match self {
            SequentialOperation::AddNextBlock(_) => "add_next_block",
            SequentialOperation::AtomicSpeculate(_) => "atomic_speculate",
            SequentialOperation::DiscardKeptSpeculation => "discard_kept_speculation",
        }
    }
}

/// The operation can be performed by what it names.
pub open spec fn may_perform<
    S,
    E,
    AddNextBlock: Fn(Block) -> Result<(), E>,
    Speculate: Fn(SpeculateArgs) -> Result<S, E>,
    Discard: Fn(),
>(
    operation: SequentialOperation,
    add_next_block: AddNextBlock,
    atomic_speculate: Speculate,
    discard_kept_speculation: Discard,
) -> bool {
    match operation {
        SequentialOperation::AddNextBlock(block) => call_requires(add_next_block, (block,)),
        SequentialOperation::AtomicSpeculate(args) => call_requires(atomic_speculate, (args,)),
        SequentialOperation::DiscardKeptSpeculation => call_requires(discard_kept_speculation, ()),
    }
}

/// The operation was performed by what it names, and this is the answer, in kind.
pub open spec fn performed<
    S,
    E,
    AddNextBlock: Fn(Block) -> Result<(), E>,
    Speculate: Fn(SpeculateArgs) -> Result<S, E>,
    Discard: Fn(),
>(
    operation: SequentialOperation,
    add_next_block: AddNextBlock,
    atomic_speculate: Speculate,
    discard_kept_speculation: Discard,
    answer: SequentialOperationResult<S, E>,
) -> bool {
    match operation {
        SequentialOperation::AddNextBlock(block) => answer matches
            SequentialOperationResult::AddNextBlock(result) && call_ensures(
            add_next_block,
            (block,),
            result,
        ),
        SequentialOperation::AtomicSpeculate(args) => answer matches
            SequentialOperationResult::AtomicSpeculate(result) && call_ensures(
            atomic_speculate,
            (args,),
            result,
        ),
        SequentialOperation::DiscardKeptSpeculation => answer is DiscardKeptSpeculation
            && call_ensures(discard_kept_speculation, (), ()),
    }
}

/// Performs an operation by what it names, and answers in kind.
pub fn perform<
    S,
    E,
    AddNextBlock: Fn(Block) -> Result<(), E>,
    Speculate: Fn(SpeculateArgs) -> Result<S, E>,
    Discard: Fn(),
>(
    operation: SequentialOperation,
    add_next_block: &AddNextBlock,
    atomic_speculate: &Speculate,
    discard_kept_speculation: &Discard,
) -> (answer: SequentialOperationResult<S, E>)
    requires
        may_perform(
            operation,
            *add_next_block,
            *atomic_speculate,
            *discard_kept_speculation,
        ),
    ensures
        performed(
            operation,
            *add_next_block,
            *atomic_speculate,
            *discard_kept_speculation,
            answer,
        ),
{
    match operation {
        SequentialOperation::AddNextBlock(block) => SequentialOperationResult::AddNextBlock(
            add_next_block(block),
        ),
        SequentialOperation::AtomicSpeculate(args) => SequentialOperationResult::AtomicSpeculate(
            atomic_speculate(args),
        ),
        SequentialOperation::DiscardKeptSpeculation => {
            discard_kept_speculation();
            SequentialOperationResult::DiscardKeptSpeculation
        },
    }
}

/// A request that was served: the operation, where its answer went, and the answer.
pub struct Served<T, S, E> {
    pub operation: SequentialOperation,
    pub to: T,
    pub answer: SequentialOperationResult<S, E>,
}

/// The requests were served one after another, as they were received: each operation was performed by
/// what it names, and its answer was sent to where the request asked for it, whether the operation
/// succeeded or failed.
pub open spec fn served_in_order<
    T,
    S,
    E,
    Receive: Fn(u64) -> Option<(SequentialOperation, T)>,
    AddNextBlock: Fn(Block) -> Result<(), E>,
    Speculate: Fn(SpeculateArgs) -> Result<S, E>,
    Discard: Fn(),
    Respond: Fn(T, SequentialOperationResult<S, E>),
>(
    receive: Receive,
    add_next_block: AddNextBlock,
    atomic_speculate: Speculate,
    discard_kept_speculation: Discard,
    respond: Respond,
    served: Seq<Served<T, S, E>>,
) -> bool {
    forall|i: int|
        0 <= i < served.len() ==> {
            &&& call_ensures(
                receive,
                (i as u64,),
                Some(((#[trigger] served[i]).operation, served[i].to)),
            )
            &&& performed(
                served[i].operation,
                add_next_block,
                atomic_speculate,
                discard_kept_speculation,
                served[i].answer,
            )
            &&& call_ensures(respond, (served[i].to, served[i].answer), ())
        }
}

/// The queue can be served. A request is received only when all those before it were served, an
/// operation is performed only when it was received, and only an answer to it is sent.
pub open spec fn may_serve<
    T,
    S,
    E,
    Receive: Fn(u64) -> Option<(SequentialOperation, T)>,
    AddNextBlock: Fn(Block) -> Result<(), E>,
    Speculate: Fn(SpeculateArgs) -> Result<S, E>,
    Discard: Fn(),
    Respond: Fn(T, SequentialOperationResult<S, E>),
>(
    receive: Receive,
    add_next_block: AddNextBlock,
    atomic_speculate: Speculate,
    discard_kept_speculation: Discard,
    respond: Respond,
    served: Seq<Served<T, S, E>>,
) -> bool {
    let next = served.len() as u64;
    &&& call_requires(receive, (next,))
    &&& forall|operation: SequentialOperation, to: T| #[trigger]
        call_ensures(receive, (next,), Some((operation, to))) ==> may_perform(
            operation,
            add_next_block,
            atomic_speculate,
            discard_kept_speculation,
        ) && forall|answer: SequentialOperationResult<S, E>|
            performed(
                operation,
                add_next_block,
                atomic_speculate,
                discard_kept_speculation,
                answer,
            ) ==> #[trigger] call_requires(respond, (to, answer))
}

/// Serves the requests of the queue, one after another in the order in which they arrive, until the
/// queue is closed or as many as the limit were served. Returns how many were served, and whether the
/// queue is closed.
pub fn serve_sequential_queue<
    T,
    S,
    E,
    Receive: Fn(u64) -> Option<(SequentialOperation, T)>,
    AddNextBlock: Fn(Block) -> Result<(), E>,
    Speculate: Fn(SpeculateArgs) -> Result<S, E>,
    Discard: Fn(),
    Respond: Fn(T, SequentialOperationResult<S, E>),
>(
    limit: u64,
    receive: Receive,
    add_next_block: AddNextBlock,
    atomic_speculate: Speculate,
    discard_kept_speculation: Discard,
    respond: Respond,
) -> (end: (u64, bool))
    requires
        forall|served: Seq<Served<T, S, E>>|
            served.len() < limit && #[trigger] served_in_order(
                receive,
                add_next_block,
                atomic_speculate,
                discard_kept_speculation,
                respond,
                served,
            ) ==> may_serve(
                receive,
                add_next_block,
                atomic_speculate,
                discard_kept_speculation,
                respond,
                served,
            ),
    ensures
        exists|served: Seq<Served<T, S, E>>|
            served.len() == end.0 && #[trigger] served_in_order(
                receive,
                add_next_block,
                atomic_speculate,
                discard_kept_speculation,
                respond,
                served,
            ),
        end.1 ==> end.0 < limit && call_ensures(
            receive,
            (end.0,),
            None::<(SequentialOperation, T)>,
        ),
        !end.1 ==> end.0 == limit,
{
    let mut count: u64 = 0;
    let ghost mut served: Seq<Served<T, S, E>> = Seq::empty();
    while count < limit
        invariant
            count <= limit,
            served.len() == count,
            served_in_order(
                receive,
                add_next_block,
                atomic_speculate,
                discard_kept_speculation,
                respond,
                served,
            ),
            forall|served: Seq<Served<T, S, E>>|
                served.len() < limit && #[trigger] served_in_order(
                    receive,
                    add_next_block,
                    atomic_speculate,
                    discard_kept_speculation,
                    respond,
                    served,
                ) ==> may_serve(
                    receive,
                    add_next_block,
                    atomic_speculate,
                    discard_kept_speculation,
                    respond,
                    served,
                ),
        decreases limit - count,
    {
        match receive(count) {
            None => {
                return (count, true);
            },
            Some((operation, to)) => {
                let ghost before = served;
                let ghost (asked, sender) = (operation, to);
                let answer = perform(
                    operation,
                    &add_next_block,
                    &atomic_speculate,
                    &discard_kept_speculation,
                );
                let ghost sent = answer;
                respond(to, answer);
                proof {
                    served = before.push(Served { operation: asked, to: sender, answer: sent });
                    assert forall|i: int| 0 <= i < before.len() implies #[trigger] served[i]
                        == before[i] by {}
                }
                count = count + 1;
            },
        }
    }
    (count, false)
}

/// Every request that was served got one answer, of the kind of its operation, and the failure of an
/// operation does not keep a later one from being performed and answered.
pub proof fn law_every_request_is_answered_in_kind<
    T,
    S,
    E,
    Receive: Fn(u64) -> Option<(SequentialOperation, T)>,
    AddNextBlock: Fn(Block) -> Result<(), E>,
    Speculate: Fn(SpeculateArgs) -> Result<S, E>,
    Discard: Fn(),
    Respond: Fn(T, SequentialOperationResult<S, E>),
>(
    receive: Receive,
    add_next_block: AddNextBlock,
    atomic_speculate: Speculate,
    discard_kept_speculation: Discard,
    respond: Respond,
    served: Seq<Served<T, S, E>>,
    i: int,
)
    requires
        0 <= i < served.len(),
        served_in_order(
            receive,
            add_next_block,
            atomic_speculate,
            discard_kept_speculation,
            respond,
            served,
        ),
    ensures
        served[i].operation is AddNextBlock <==> served[i].answer is AddNextBlock,
        served[i].operation is AtomicSpeculate <==> served[i].answer is AtomicSpeculate,
        served[i].operation is DiscardKeptSpeculation <==> served[i].answer is DiscardKeptSpeculation,
        call_ensures(respond, (served[i].to, served[i].answer), ()),
{
}

/// Returns the result of adding a block, given the answer of the sequential operations thread: there
/// is none when it is shutting down, and an answer to another operation counts as none.
pub fn add_next_block<S, E>(answer: Option<SequentialOperationResult<S, E>>) -> (result: Result<
    (),
    OperationError<E>,
>)
    ensures
        match answer {
            Some(SequentialOperationResult::AddNextBlock(Ok(_))) => result is Ok,
            Some(SequentialOperationResult::AddNextBlock(Err(error))) => result == Err::<(), _>(
                OperationError::Failed(error),
            ),
            _ => result == Err::<(), _>(OperationError::<E>::ShuttingDown),
        },
{
    match answer {
        Some(SequentialOperationResult::AddNextBlock(Ok(_))) => Ok(()),
        Some(SequentialOperationResult::AddNextBlock(Err(error))) => Err(
            OperationError::Failed(error),
        ),
        _ => Err(OperationError::ShuttingDown),
    }
}

/// What is to be done when a reference to the VM is dropped.
#[derive(Copy, Clone, Debug, PartialEq, Eq, Structural)]
pub struct Shutdown {
    /// Abort any kept finalize batch.
    pub discard: bool,
    /// Close the queue of operations, and then wait for the thread to terminate.
    pub close_and_join: bool,
}

/// Decides what is to be done when a reference to the VM is dropped. Only the final external
/// reference shuts the sequential operations thread down, after a kept batch was discarded.
pub fn shutdown(references: usize, thread_exists: bool) -> (shutdown: Shutdown)
    ensures
        shutdown.discard == (references == 1),
        shutdown.close_and_join == (references == 1 && thread_exists),
{
    Shutdown { discard: references == 1, close_and_join: references == 1 && thread_exists }
}

/// The requests are served as they were received: the answer to the request that came at a place is what
/// its own operation returned, and goes to where that request asked for it.
pub proof fn law_requests_are_served_as_received<
    T,
    S,
    E,
    Receive: Fn(u64) -> Option<(SequentialOperation, T)>,
    AddNextBlock: Fn(Block) -> Result<(), E>,
    Speculate: Fn(SpeculateArgs) -> Result<S, E>,
    Discard: Fn(),
    Respond: Fn(T, SequentialOperationResult<S, E>),
>(
    receive: Receive,
    add_next_block: AddNextBlock,
    atomic_speculate: Speculate,
    discard_kept_speculation: Discard,
    respond: Respond,
    served: Seq<Served<T, S, E>>,
    i: int,
)
    requires
        0 <= i < served.len(),
        served_in_order(
            receive,
            add_next_block,
            atomic_speculate,
            discard_kept_speculation,
            respond,
            served,
        ),
    ensures
        call_ensures(receive, (i as u64,), Some((served[i].operation, served[i].to))),
        served[i].operation matches SequentialOperation::AddNextBlock(block) ==> (
        served[i].answer matches SequentialOperationResult::AddNextBlock(result) && call_ensures(
            add_next_block,
            (block,),
            result,
        )),
        served[i].operation matches SequentialOperation::AtomicSpeculate(args) ==> (
        served[i].answer matches SequentialOperationResult::AtomicSpeculate(result)
            && call_ensures(atomic_speculate, (args,), result)),
        served[i].operation is DiscardKeptSpeculation ==> call_ensures(
            discard_kept_speculation,
            (),
            (),
        ),
{
    assert(served[i] == served[i]);
}

/// Operations of different kinds have different labels.
pub proof fn law_labels_tell_operations_apart(one: SequentialOperation, other: SequentialOperation)
    ensures
        one.spec_label() == other.spec_label() <==> {
            ||| one is AddNextBlock && other is AddNextBlock
            ||| one is AtomicSpeculate && other is AtomicSpeculate
            ||| one is DiscardKeptSpeculation && other is DiscardKeptSpeculation
        },
{
    reveal_strlit("add_next_block");
    reveal_strlit("atomic_speculate");
    reveal_strlit("discard_kept_speculation");
    assert("add_next_block"@.len() == 14);
    assert("atomic_speculate"@.len() == 16);
    assert("discard_kept_speculation"@.len() == 24);
}

/// Only the last external reference to the virtual machine shuts it down. It always discards what was
/// kept, and closes the queue exactly when its thread is there.
pub proof fn law_only_the_last_reference_shuts_down(
    references: usize,
    thread_exists: bool,
    plan: Shutdown,
)
    requires
        call_ensures(shutdown, (references, thread_exists), plan),
    ensures
        references != 1 ==> !plan.discard && !plan.close_and_join,
        references == 1 ==> plan.discard && (plan.close_and_join <==> thread_exists),
{
}

/// Adding a block succeeds exactly when the thread answered that it did; without an answer in kind the
/// thread is shutting down.
pub proof fn law_block_is_added_when_the_thread_says_so<S, E>(
    answer: Option<SequentialOperationResult<S, E>>,
    result: Result<(), OperationError<E>>,
)
    requires
        call_ensures(add_next_block::<S, E>, (answer,), result),
    ensures
        result is Ok <==> (answer matches Some(SequentialOperationResult::AddNextBlock(Ok(_)))),
        result matches Err(OperationError::Failed(error)) ==> answer == Some(
            SequentialOperationResult::<S, E>::AddNextBlock(Err(error)),
        ),
        result matches Err(OperationError::ShuttingDown) ==> !(answer matches Some(
            SequentialOperationResult::AddNextBlock(_),
        )),
{
}

} // verus!
