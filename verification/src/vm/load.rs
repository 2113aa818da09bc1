//! Loading the deployments from storage, in the order in which they were made.

use crate::id_map::{distinct_keys, lemma_put, place_of, put, value_of};
use crate::process::add_programs::stage_all;
use crate::process::program::Stack;
use crate::process::stacks::Process;
use vstd::prelude::*;

verus! {

/// Why a deployment cannot be placed.
#[derive(Debug)]
pub enum DeploymentError<E> {
    /// No block holds the deployment transaction.
    NotFound { transaction: u64 },
    /// The height of the block that holds it is not known.
    NoHeight { transaction: u64 },
    /// The transactions of the block that holds it are not known.
    NoTransactions { hash: u64 },
    /// It is not among the transactions of that block.
    NotInBlock { transaction: u64 },
    /// A lookup failed.
    Store(E),
}

/// A deployment transaction, and its place: the height of the block that holds it, and its index
/// among the transactions of that block.
#[derive(Copy, Clone, Debug, PartialEq, Eq, Structural)]
pub struct Deployment {
    pub transaction: u64,
    pub height: u32,
    pub index: usize,
}

/// Returns `true` when the process is the one of the first seven consensus versions.
pub fn uses_first_process(consensus_version: u16) -> (first: bool)
    ensures
        first == (1 <= consensus_version <= 7),
{
    1 <= consensus_version && consensus_version <= 7
}

/// Returns the index of a transaction among those of a block.
pub fn index_of(transactions: &Vec<u64>, transaction: u64) -> (index: Option<usize>)
    ensures
        match index {
            Some(index) => {
                &&& index < transactions@.len()
                &&& transactions@[index as int] == transaction
                &&& forall|i: int| 0 <= i < index ==> transactions@[i] != transaction
            },
            None => !transactions@.contains(transaction),
        },
{
    let mut i: usize = 0;
    while i < transactions.len()
        invariant
            i <= transactions@.len(),
            forall|j: int| 0 <= j < i ==> transactions@[j] != transaction,
        decreases transactions@.len() - i,
    {
        if transactions[i] == transaction {
            return Some(i);
        }
        i = i + 1;
    }
    None
}

/// The place of a deployment, given what the block store knows of the block that holds it.
pub open spec fn placed(
    transaction: u64,
    height: u32,
    transactions: Seq<u64>,
    deployment: Deployment,
) -> bool {
    &&& deployment.transaction == transaction
    &&& deployment.height == height
    &&& deployment.index < transactions.len()
    &&& transactions[deployment.index as int] == transaction
    &&& forall|i: int| 0 <= i < deployment.index ==> transactions[i] != transaction
}

/// The block with the given hash holds the transaction, and its height is known.
pub open spec fn has_height<
    E,
    FindHash: Fn(u64) -> Result<Option<u64>, E>,
    GetHeight: Fn(u64) -> Result<Option<u32>, E>,
>(find_hash: FindHash, get_height: GetHeight, transaction: u64, hash: u64) -> bool {
    &&& call_ensures(find_hash, (transaction,), Ok::<_, E>(Some(hash)))
    &&& exists|height: u32| #[trigger]
        call_ensures(get_height, (hash,), Ok::<_, E>(Some(height)))
}

/// Looking up the place of a deployment gave `result`.
pub open spec fn located<
    E,
    FindHash: Fn(u64) -> Result<Option<u64>, E>,
    GetHeight: Fn(u64) -> Result<Option<u32>, E>,
    GetTransactions: Fn(u64) -> Result<Option<Vec<u64>>, E>,
>(
    find_hash: FindHash,
    get_height: GetHeight,
    get_transactions: GetTransactions,
    transaction: u64,
    result: Result<Deployment, DeploymentError<E>>,
) -> bool {
    match result {
        Ok(deployment) => exists|hash: u64, height: u32, transactions: Vec<u64>|
            {
                &&& call_ensures(find_hash, (transaction,), Ok::<_, E>(Some(hash)))
                &&& #[trigger] call_ensures(get_height, (hash,), Ok::<_, E>(Some(height)))
                &&& #[trigger] call_ensures(
                    get_transactions,
                    (hash,),
                    Ok::<_, E>(Some(transactions)),
                )
                &&& placed(transaction, height, transactions@, deployment)
            },
        Err(DeploymentError::NotFound { transaction: asked }) => asked == transaction
            && call_ensures(find_hash, (transaction,), Ok::<Option<u64>, E>(None)),
        Err(DeploymentError::NoHeight { transaction: asked }) => asked == transaction
            && exists|hash: u64|
            call_ensures(find_hash, (transaction,), Ok::<_, E>(Some(hash)))
                && #[trigger] call_ensures(get_height, (hash,), Ok::<Option<u32>, E>(None)),
        Err(DeploymentError::NoTransactions { hash }) => has_height(
            find_hash,
            get_height,
            transaction,
            hash,
        ) && call_ensures(get_transactions, (hash,), Ok::<Option<Vec<u64>>, E>(None)),
        Err(DeploymentError::NotInBlock { transaction: asked }) => asked == transaction
            && exists|hash: u64, transactions: Vec<u64>|
            has_height(find_hash, get_height, transaction, hash) && #[trigger] call_ensures(
                get_transactions,
                (hash,),
                Ok::<_, E>(Some(transactions)),
            ) && !transactions@.contains(transaction),
        Err(DeploymentError::Store(error)) => lookup_failed(
            transaction,
            find_hash,
            get_height,
            get_transactions,
            error,
        ),
    }
}

/// The lookups that the place of a deployment takes: of the block that holds it, of the height of that
/// block, and, where that is known, of its transactions.
pub open spec fn may_locate<
    E,
    FindHash: Fn(u64) -> Result<Option<u64>, E>,
    GetHeight: Fn(u64) -> Result<Option<u32>, E>,
    GetTransactions: Fn(u64) -> Result<Option<Vec<u64>>, E>,
>(
    find_hash: FindHash,
    get_height: GetHeight,
    get_transactions: GetTransactions,
    transaction: u64,
) -> bool {
    &&& call_requires(find_hash, (transaction,))
    &&& forall|hash: u64|
        call_ensures(find_hash, (transaction,), Ok::<_, E>(Some(hash)))
            ==> #[trigger] call_requires(get_height, (hash,))
    &&& forall|hash: u64|
        has_height(find_hash, get_height, transaction, hash) ==> #[trigger] call_requires(
            get_transactions,
            (hash,),
        )
}

/// Returns the place of a deployment.
pub fn locate_deployment<
    E,
    FindHash: Fn(u64) -> Result<Option<u64>, E>,
    GetHeight: Fn(u64) -> Result<Option<u32>, E>,
    GetTransactions: Fn(u64) -> Result<Option<Vec<u64>>, E>,
>(
    transaction: u64,
    find_hash: &FindHash,
    get_height: &GetHeight,
    get_transactions: &GetTransactions,
) -> (result: Result<Deployment, DeploymentError<E>>)
    requires
        may_locate(*find_hash, *get_height, *get_transactions, transaction),
    ensures
        located(*find_hash, *get_height, *get_transactions, transaction, result),
{
    let hash = match find_hash(transaction) {
        Ok(Some(hash)) => hash,
        Ok(None) => {
            return Err(DeploymentError::NotFound { transaction });
        },
        Err(error) => {
            return Err(DeploymentError::Store(error));
        },
    };
    let height = match get_height(hash) {
        Ok(Some(height)) => height,
        Ok(None) => {
            return Err(DeploymentError::NoHeight { transaction });
        },
        Err(error) => {
            assert(lookup_failed(transaction, *find_hash, *get_height, *get_transactions, error));
            return Err(DeploymentError::Store(error));
        },
    };
    assert(call_ensures(*get_height, (hash,), Ok::<_, E>(Some(height))));
    assert(has_height(*find_hash, *get_height, transaction, hash));
    let transactions = match get_transactions(hash) {
        Ok(Some(transactions)) => transactions,
        Ok(None) => {
            return Err(DeploymentError::NoTransactions { hash });
        },
        Err(error) => {
            assert(lookup_failed(transaction, *find_hash, *get_height, *get_transactions, error));
            return Err(DeploymentError::Store(error));
        },
    };
    assert(call_ensures(*get_transactions, (hash,), Ok::<_, E>(Some(transactions))));
    match index_of(&transactions, transaction) {
        Some(index) => {
            let deployment = Deployment { transaction, height, index };
            assert(placed(transaction, height, transactions@, deployment));
            Ok(deployment)
        },
        None => Err(DeploymentError::NotInBlock { transaction }),
    }
}

/// One of the lookups of a deployment gave the error.
pub open spec fn lookup_failed<
    E,
    FindHash: Fn(u64) -> Result<Option<u64>, E>,
    GetHeight: Fn(u64) -> Result<Option<u32>, E>,
    GetTransactions: Fn(u64) -> Result<Option<Vec<u64>>, E>,
>(
    transaction: u64,
    find_hash: FindHash,
    get_height: GetHeight,
    get_transactions: GetTransactions,
    error: E,
) -> bool {
    ||| call_ensures(find_hash, (transaction,), Err::<Option<u64>, E>(error))
    ||| exists|hash: u64|
        call_ensures(find_hash, (transaction,), Ok::<_, E>(Some(hash))) && #[trigger] call_ensures(
            get_height,
            (hash,),
            Err::<Option<u32>, E>(error),
        )
    ||| exists|hash: u64|
        has_height(find_hash, get_height, transaction, hash) && #[trigger] call_ensures(
            get_transactions,
            (hash,),
            Err::<Option<Vec<u64>>, E>(error),
        )
}

/// The order of two deployments: by height, and by index within a block.
pub open spec fn no_later(one: Deployment, other: Deployment) -> bool {
    one.height < other.height || (one.height == other.height && one.index <= other.index)
}

/// The deployments are in the order in which they were made.
pub open spec fn in_order(deployments: Seq<Deployment>) -> bool {
    forall|i: int, j: int|
        0 <= i < j < deployments.len() ==> no_later(
            #[trigger] deployments[i],
            #[trigger] deployments[j],
        )
}

/// Returns the key by which deployments are ordered.
fn place(deployment: &Deployment) -> (place: (u32, usize))
    ensures
        place == (deployment.height, deployment.index),
{
    (deployment.height, deployment.index)
}

/// Wraps `slice::sort_unstable_by_key` of std, which brings the items into ascending order of their
/// keys and neither adds nor removes any; here the keys are pairs, which are ordered by their first
/// components and then by their second ones.
#[verifier::external_body]
fn sort_by_place(deployments: &mut Vec<Deployment>)
    ensures
        final(deployments)@.to_multiset() == old(deployments)@.to_multiset(),
        in_order(final(deployments)@),
{
    deployments.sort_unstable_by_key(place);
}

/// Brings the deployments into the order in which they were made, so that a deployment comes after
/// those it depends on.
pub fn order_deployments(deployments: Vec<Deployment>) -> (ordered: Vec<Deployment>)
    ensures
        ordered@.to_multiset() == deployments@.to_multiset(),
        ordered@.len() == deployments@.len(),
        in_order(ordered@),
{
    let mut ordered = deployments;
    sort_by_place(&mut ordered);
    proof {
        ordered@.to_multiset_ensures();
        deployments@.to_multiset_ensures();
    }
    ordered
}

/// The lookups of the given transactions gave the given deployments, in order.
pub open spec fn all_located<
    E,
    FindHash: Fn(u64) -> Result<Option<u64>, E>,
    GetHeight: Fn(u64) -> Result<Option<u32>, E>,
    GetTransactions: Fn(u64) -> Result<Option<Vec<u64>>, E>,
>(
    find_hash: FindHash,
    get_height: GetHeight,
    get_transactions: GetTransactions,
    ids: Seq<u64>,
    deployments: Seq<Deployment>,
) -> bool {
    &&& deployments.len() == ids.len()
    &&& forall|i: int|
        0 <= i < ids.len() ==> located(
            find_hash,
            get_height,
            get_transactions,
            #[trigger] ids[i],
            Ok::<Deployment, DeploymentError<E>>(deployments[i]),
        )
}

/// The deployments with the given transaction IDs are `ordered`: by the height of the block that holds
/// each, and by its index among the transactions of that block.
pub open spec fn located_in_order<
    E,
    FindHash: Fn(u64) -> Result<Option<u64>, E>,
    GetHeight: Fn(u64) -> Result<Option<u32>, E>,
    GetTransactions: Fn(u64) -> Result<Option<Vec<u64>>, E>,
>(
    find_hash: FindHash,
    get_height: GetHeight,
    get_transactions: GetTransactions,
    ids: Seq<u64>,
    ordered: Seq<Deployment>,
) -> bool {
    &&& in_order(ordered)
    &&& exists|deployments: Seq<Deployment>| #[trigger]
        all_located(find_hash, get_height, get_transactions, ids, deployments)
            && ordered.to_multiset() == deployments.to_multiset()
}

/// A deployment with one of the given transaction IDs cannot be placed, while the earlier ones can.
pub open spec fn locating_failed<
    E,
    FindHash: Fn(u64) -> Result<Option<u64>, E>,
    GetHeight: Fn(u64) -> Result<Option<u32>, E>,
    GetTransactions: Fn(u64) -> Result<Option<Vec<u64>>, E>,
>(
    find_hash: FindHash,
    get_height: GetHeight,
    get_transactions: GetTransactions,
    ids: Seq<u64>,
    error: DeploymentError<E>,
) -> bool {
    exists|i: int, deployments: Seq<Deployment>|
        {
            &&& 0 <= i < ids.len()
            &&& #[trigger] all_located(
                find_hash,
                get_height,
                get_transactions,
                ids.take(i),
                deployments,
            )
            &&& located(
                find_hash,
                get_height,
                get_transactions,
                ids[i],
                Err::<Deployment, _>(error),
            )
        }
}

/// The lookups that the places of deployments take: those of each, once the earlier ones are placed.
pub open spec fn may_locate_all<
    E,
    FindHash: Fn(u64) -> Result<Option<u64>, E>,
    GetHeight: Fn(u64) -> Result<Option<u32>, E>,
    GetTransactions: Fn(u64) -> Result<Option<Vec<u64>>, E>,
>(
    find_hash: FindHash,
    get_height: GetHeight,
    get_transactions: GetTransactions,
    ids: Seq<u64>,
) -> bool {
    forall|i: int, deployments: Seq<Deployment>|
        0 <= i < ids.len() && #[trigger] all_located(
            find_hash,
            get_height,
            get_transactions,
            ids.take(i),
            deployments,
        ) ==> may_locate(find_hash, get_height, get_transactions, ids[i])
}

/// Returns the deployments with the given transaction IDs, in the order in which they were made.
pub fn locate_deployments<
    E,
    FindHash: Fn(u64) -> Result<Option<u64>, E>,
    GetHeight: Fn(u64) -> Result<Option<u32>, E>,
    GetTransactions: Fn(u64) -> Result<Option<Vec<u64>>, E>,
>(
    ids: &Vec<u64>,
    find_hash: FindHash,
    get_height: GetHeight,
    get_transactions: GetTransactions,
) -> (result: Result<Vec<Deployment>, DeploymentError<E>>)
    requires
        may_locate_all(find_hash, get_height, get_transactions, ids@),
    ensures
        match result {
            Ok(ordered) => located_in_order(
                find_hash,
                get_height,
                get_transactions,
                ids@,
                ordered@,
            ),
            Err(error) => locating_failed(find_hash, get_height, get_transactions, ids@, error),
        },
{
    let mut deployments: Vec<Deployment> = Vec::new();
    let mut i: usize = 0;
    while i < ids.len()
        invariant
            i <= ids@.len(),
            may_locate_all(find_hash, get_height, get_transactions, ids@),
            deployments@.len() == i,
            forall|j: int|
                0 <= j < i ==> located(
                    find_hash,
                    get_height,
                    get_transactions,
                    #[trigger] ids@[j],
                    Ok::<Deployment, DeploymentError<E>>(deployments@[j]),
                ),
        decreases ids@.len() - i,
    {
        proof {
            let earlier = ids@.take(i as int);
            assert forall|j: int| 0 <= j < earlier.len() implies located(
                find_hash,
                get_height,
                get_transactions,
                #[trigger] earlier[j],
                Ok::<Deployment, DeploymentError<E>>(deployments@[j]),
            ) by {
                assert(earlier[j] == ids@[j]);
            }
            assert(all_located(find_hash, get_height, get_transactions, earlier, deployments@));
        }
        match locate_deployment(ids[i], &find_hash, &get_height, &get_transactions) {
            Ok(deployment) => {
                deployments.push(deployment);
            },
            Err(error) => {
                assert(locating_failed(find_hash, get_height, get_transactions, ids@, error));
                return Err(error);
            },
        }
        i = i + 1;
    }
    assert(all_located(find_hash, get_height, get_transactions, ids@, deployments@));
    let ordered = order_deployments(deployments);
    assert(located_in_order(find_hash, get_height, get_transactions, ids@, ordered@));
    Ok(ordered)
}

/// The number of deployments that are read at a time.
pub const PARALLELIZATION_FACTOR: usize = 256;

/// The deployments were read, in order.
pub open spec fn all_read<D, E, Get: Fn(u64) -> Result<Option<D>, E>>(
    get_deployment: Get,
    deployments: Seq<Deployment>,
    read: Seq<D>,
) -> bool {
    &&& read.len() <= deployments.len()
    &&& forall|i: int|
        0 <= i < read.len() ==> call_ensures(
            get_deployment,
            ((#[trigger] deployments[i]).transaction,),
            Ok::<_, E>(Some(read[i])),
        )
}

/// `process` is `before` with the stacks `made` added in order.
pub open spec fn stacks_added(process: Process, before: Process, made: Seq<Stack>) -> bool {
    &&& process.wf()
    &&& process.arena() == before.arena() + made
    &&& process.stacks() == stage_all(before.stacks(), before.arena().len(), made)
    &&& process.staged() == before.staged()
    &&& process.undo() == before.undo()
}

/// Computing the stack of a deployment gave `outcome`, asked of `before` with the stacks `made` added.
pub open spec fn stack_outcome<D, E, New: Fn(&Process, &D) -> Result<Stack, E>>(
    new_stack: New,
    before: Process,
    made: Seq<Stack>,
    deployment: D,
    outcome: Result<Stack, E>,
) -> bool {
    exists|process: Process| #[trigger]
        stacks_added(process, before, made) && call_ensures(
            new_stack,
            (&process, &deployment),
            outcome,
        )
}

/// The stacks of the deployments that were read were computed in order: each with those before it
/// added.
pub open spec fn all_made<D, E, New: Fn(&Process, &D) -> Result<Stack, E>>(
    new_stack: New,
    before: Process,
    read: Seq<D>,
    made: Seq<Stack>,
) -> bool {
    &&& made.len() <= read.len()
    &&& forall|i: int|
        0 <= i < made.len() ==> stack_outcome(
            new_stack,
            before,
            #[trigger] made.take(i),
            read[i],
            Ok::<Stack, E>(made[i]),
        )
}

/// The latest of the given stacks that is one of the program, if there is one.
pub open spec fn latest_stack(made: Seq<Stack>, program_id: u64) -> Option<Stack>
    decreases made.len(),
{
    if made.len() == 0 {
        None
    } else if made.last().program.id == program_id {
        Some(made.last())
    } else {
        latest_stack(made.drop_last(), program_id)
    }
}

/// Of stacks that are staged in order, the map has the latest of each program.
proof fn lemma_latest_is_staged(
    stacks: Seq<(u64, u64)>,
    first: nat,
    made: Seq<Stack>,
    program_id: u64,
)
    requires
        distinct_keys(stacks),
        first + made.len() <= u64::MAX,
    ensures
        distinct_keys(stage_all(stacks, first, made)),
        match latest_stack(made, program_id) {
            Some(stack) => exists|i: int|
                0 <= i < made.len() && #[trigger] made[i] == stack && value_of(
                    stage_all(stacks, first, made),
                    program_id,
                ) == Some((first + i) as u64),
            None => value_of(stage_all(stacks, first, made), program_id) == value_of(
                stacks,
                program_id,
            ),
        },
    decreases made.len(),
{
    if made.len() > 0 {
        let rest = made.drop_last();
        let before = stage_all(stacks, first, rest);
        lemma_latest_is_staged(stacks, first, rest, program_id);
        lemma_put(before, made.last().program.id, (first + made.len() - 1) as u64);
        if made.last().program.id == program_id {
            assert(made[made.len() - 1] == made.last());
        } else if latest_stack(rest, program_id) is Some {
            let stack = latest_stack(rest, program_id)->Some_0;
            let i = choose|i: int|
                0 <= i < rest.len() && #[trigger] rest[i] == stack && value_of(before, program_id)
                    == Some((first + i) as u64);
            assert(made[i] == stack);
        }
    }
}

/// After stacks were added in order, each of their programs has the latest of them, and every other
/// program has what it had.
pub proof fn law_added_stacks_are_found(
    process: Process,
    before: Process,
    made: Seq<Stack>,
    program_id: u64,
)
    requires
        before.wf(),
        before.staged().len() == 0,
        stacks_added(process, before, made),
    ensures
        process.stack_of(program_id) == (match latest_stack(made, program_id) {
            Some(stack) => Some(stack),
            None => before.stack_of(program_id),
        }),
        forall|i: int|
            0 <= i < made.len() ==> process.stack_of((#[trigger] made[i]).program.id) is Some,
{
    process.lemma_wf();
    before.lemma_wf();
    lemma_latest_is_staged(before.stacks(), before.arena().len(), made, program_id);
    assert(value_of(process.staged(), program_id) is None);
    if latest_stack(made, program_id) is None && value_of(before.stacks(), program_id) is Some {
        let place = place_of(before.stacks(), program_id);
        assert(before.stacks()[place].1 < before.arena().len());
    }
    assert forall|i: int| 0 <= i < made.len() implies process.stack_of(
        (#[trigger] made[i]).program.id,
    ) is Some by {
        lemma_latest_stack_is_there(made, i);
        lemma_latest_is_staged(
            before.stacks(),
            before.arena().len(),
            made,
            made[i].program.id,
        );
    }
}

/// Each program of the given stacks has a latest one.
pub proof fn lemma_latest_stack_is_there(made: Seq<Stack>, i: int)
    requires
        0 <= i < made.len(),
    ensures
        latest_stack(made, made[i].program.id) is Some,
    decreases made.len(),
{
    if i < made.len() - 1 {
        lemma_latest_stack_is_there(made.drop_last(), i);
    }
}

/// Where the chunk ends that holds the place `at`.
pub open spec fn chunk_end(at: nat, total: nat) -> nat {
    let end = (at / PARALLELIZATION_FACTOR as nat + 1) * PARALLELIZATION_FACTOR as nat;
    if end < total {
        end
    } else {
        total
    }
}

/// The deployments led from one process to another: `read` are their contents, and `made` their
/// stacks, in order.
pub open spec fn led_to<
    D,
    E,
    Get: Fn(u64) -> Result<Option<D>, E>,
    New: Fn(&Process, &D) -> Result<Stack, E>,
>(
    get_deployment: Get,
    new_stack: New,
    deployments: Seq<Deployment>,
    read: Seq<D>,
    made: Seq<Stack>,
    first: Process,
    last: Process,
) -> bool {
    &&& all_read(get_deployment, deployments, read)
    &&& all_made(new_stack, first, read, made)
    &&& read.len() == deployments.len()
    &&& made.len() == read.len()
    &&& stacks_added(last, first, made)
}

/// The deployments led from one process to another.
pub open spec fn deployments_led_to<
    D,
    E,
    Get: Fn(u64) -> Result<Option<D>, E>,
    New: Fn(&Process, &D) -> Result<Stack, E>,
>(
    get_deployment: Get,
    new_stack: New,
    deployments: Seq<Deployment>,
    first: Process,
    last: Process,
) -> bool {
    exists|read: Seq<D>, made: Seq<Stack>| #[trigger]
        led_to(get_deployment, new_stack, deployments, read, made, first, last)
}

/// Reading a deployment gave `outcome`, when those before it had been read, and those of the earlier
/// chunks had been loaded.
pub open spec fn reading_stopped<
    D,
    E,
    Get: Fn(u64) -> Result<Option<D>, E>,
    New: Fn(&Process, &D) -> Result<Stack, E>,
>(
    get_deployment: Get,
    new_stack: New,
    deployments: Seq<Deployment>,
    first: Process,
    transaction: u64,
    outcome: Result<Option<D>, E>,
) -> bool {
    exists|read: Seq<D>, made: Seq<Stack>|
        {
            &&& #[trigger] all_read(get_deployment, deployments, read)
            &&& #[trigger] all_made(new_stack, first, read, made)
            &&& read.len() < deployments.len()
            &&& made.len() == read.len() - read.len() % PARALLELIZATION_FACTOR as nat
            &&& transaction == deployments[read.len() as int].transaction
            &&& call_ensures(get_deployment, (transaction,), outcome)
        }
}

/// Computing the stack of a deployment gave the error, when the deployments of its chunk had been read,
/// and those before it had been loaded.
pub open spec fn loading_stopped<
    D,
    E,
    Get: Fn(u64) -> Result<Option<D>, E>,
    New: Fn(&Process, &D) -> Result<Stack, E>,
>(
    get_deployment: Get,
    new_stack: New,
    deployments: Seq<Deployment>,
    first: Process,
    error: E,
) -> bool {
    exists|read: Seq<D>, made: Seq<Stack>|
        {
            &&& #[trigger] all_read(get_deployment, deployments, read)
            &&& #[trigger] all_made(new_stack, first, read, made)
            &&& made.len() < read.len()
            &&& read.len() == chunk_end(made.len(), deployments.len())
            &&& stack_outcome(
                new_stack,
                first,
                made,
                read[made.len() as int],
                Err::<Stack, E>(error),
            )
        }
}

/// The deployments were not loaded.
pub open spec fn load_failed<
    D,
    E,
    Get: Fn(u64) -> Result<Option<D>, E>,
    New: Fn(&Process, &D) -> Result<Stack, E>,
>(
    get_deployment: Get,
    new_stack: New,
    deployments: Seq<Deployment>,
    first: Process,
    error: DeploymentError<E>,
) -> bool {
    match error {
        DeploymentError::NotFound { transaction } => reading_stopped(
            get_deployment,
            new_stack,
            deployments,
            first,
            transaction,
            Ok::<Option<D>, E>(None),
        ),
        DeploymentError::Store(error) => {
            ||| exists|transaction: u64| #[trigger]
                reading_stopped(
                    get_deployment,
                    new_stack,
                    deployments,
                    first,
                    transaction,
                    Err::<Option<D>, E>(error),
                )
            ||| loading_stopped(get_deployment, new_stack, deployments, first, error)
        },
        _ => false,
    }
}

impl Process {
    /// Adds the newly-deployed program: computes its stack and adds that.
    pub fn load_deployment<D, E, New: Fn(&Process, &D) -> Result<Stack, E>>(
        &mut self,
        deployment: &D,
        new_stack: &New,
    ) -> (result: Result<(), E>)
        requires
            old(self).wf(),
            call_requires(*new_stack, (&*old(self), deployment)),
        ensures
            final(self).wf(),
            match result {
                Ok(_) => exists|stack: Stack|
                    {
                        &&& call_ensures(
                            *new_stack,
                            (&*old(self), deployment),
                            Ok::<Stack, E>(stack),
                        )
                        &&& final(self).arena() == #[trigger] old(self).arena().push(stack)
                        &&& final(self).stacks() == put(
                            old(self).stacks(),
                            stack.program.id,
                            old(self).arena().len() as u64,
                        )
                        &&& final(self).staged() == old(self).staged()
                        &&& final(self).undo() == old(self).undo()
                    },
                Err(error) => *final(self) == *old(self) && call_ensures(
                    *new_stack,
                    (&*old(self), deployment),
                    Err::<Stack, E>(error),
                ),
            },
    {
        match new_stack(&*self, deployment) {
            Ok(stack) => {
                self.add_stack(stack);
                Ok(())
            },
            Err(error) => Err(error),
        }
    }
}

/// One more stack that was made and added.
proof fn lemma_one_more_stack<D, E, New: Fn(&Process, &D) -> Result<Stack, E>>(
    new_stack: New,
    first: Process,
    read: Seq<D>,
    made: Seq<Stack>,
    stack: Stack,
    before: Process,
    after: Process,
)
    requires
        made.len() < read.len(),
        all_made(new_stack, first, read, made),
        stacks_added(before, first, made),
        call_ensures(new_stack, (&before, &read[made.len() as int]), Ok::<Stack, E>(stack)),
        after.wf(),
        after.arena() == before.arena().push(stack),
        after.stacks() == put(before.stacks(), stack.program.id, before.arena().len() as u64),
        after.staged() == before.staged(),
        after.undo() == before.undo(),
    ensures
        all_made(new_stack, first, read, made.push(stack)),
        stacks_added(after, first, made.push(stack)),
{
    let next = made.push(stack);
    assert(next.drop_last() =~= made);
    assert(first.arena() + next =~= (first.arena() + made).push(stack));
    assert forall|i: int| 0 <= i < next.len() implies stack_outcome(
        new_stack,
        first,
        #[trigger] next.take(i),
        read[i],
        Ok::<Stack, E>(next[i]),
    ) by {
        if i < made.len() {
            assert(next.take(i) =~= made.take(i));
        } else {
            assert(next.take(i) =~= made);
        }
    }
}

/// The calls that loading deployments takes: each deployment is read once those before it were read,
/// and those of the earlier chunks were loaded; and its stack is computed once its chunk was read, in
/// the process to which those before it led.
pub open spec fn may_load<
    D,
    E,
    Get: Fn(u64) -> Result<Option<D>, E>,
    New: Fn(&Process, &D) -> Result<Stack, E>,
>(get_deployment: Get, new_stack: New, deployments: Seq<Deployment>, first: Process) -> bool {
    &&& forall|read: Seq<D>, made: Seq<Stack>|
        #[trigger] all_read(get_deployment, deployments, read) && #[trigger] all_made(
            new_stack,
            first,
            read,
            made,
        ) && read.len() < deployments.len() && made.len() == read.len() - read.len()
            % PARALLELIZATION_FACTOR as nat ==> call_requires(
            get_deployment,
            (deployments[read.len() as int].transaction,),
        )
    &&& forall|read: Seq<D>, made: Seq<Stack>, process: Process|
        #[trigger] all_read(get_deployment, deployments, read) && #[trigger] all_made(
            new_stack,
            first,
            read,
            made,
        ) && made.len() < read.len() && read.len() == chunk_end(made.len(), deployments.len())
            && #[trigger] stacks_added(process, first, made) ==> call_requires(
            new_stack,
            (&process, &read[made.len() as int]),
        )
}

/// Loads the deployments into the process, in order. They are read some at a time.
pub fn load_deployments<
    D,
    E,
    Get: Fn(u64) -> Result<Option<D>, E>,
    New: Fn(&Process, &D) -> Result<Stack, E>,
>(process: Process, deployments: &Vec<Deployment>, get_deployment: Get, new_stack: New) -> (result:
    Result<Process, DeploymentError<E>>)
    requires
        process.wf(),
        may_load(get_deployment, new_stack, deployments@, process),
    ensures
        match result {
            Ok(last) => deployments_led_to(
                get_deployment,
                new_stack,
                deployments@,
                process,
                last,
            ),
            Err(error) => load_failed(get_deployment, new_stack, deployments@, process, error),
        },
{
    let ghost first = process;
    let mut current = process;
    let ghost mut read: Seq<D> = Seq::empty();
    let ghost mut made: Seq<Stack> = Seq::empty();
    let mut start: usize = 0;
    let total = deployments.len();
    proof {
        assert(first.arena() + made =~= first.arena());
    }
    while start < total
        invariant
            first == process,
            may_load(get_deployment, new_stack, deployments@, first),
            start <= total,
            start < total ==> start as nat % PARALLELIZATION_FACTOR as nat == 0,
            total == deployments@.len(),
            all_read(get_deployment, deployments@, read),
            all_made(new_stack, first, read, made),
            read.len() == start,
            made.len() == start,
            stacks_added(current, first, made),
        decreases total - start,
    {
        let end = if total - start > PARALLELIZATION_FACTOR {
            start + PARALLELIZATION_FACTOR
        } else {
            total
        };
        // Read the deployments.
        let mut chunk: Vec<D> = Vec::new();
        let mut i: usize = start;
        proof {
            assert(read + chunk@ =~= read);
        }
        while i < end
            invariant
                first == process,
                may_load(get_deployment, new_stack, deployments@, first),
                start <= i <= end <= deployments@.len(),
                end - start <= PARALLELIZATION_FACTOR,
                start as nat % PARALLELIZATION_FACTOR as nat == 0,
                all_read(get_deployment, deployments@, read + chunk@),
                all_made(new_stack, first, read + chunk@, made),
                read.len() == start,
                made.len() == start,
                chunk@.len() == i - start,
            decreases end - i,
        {
            let transaction = deployments[i].transaction;
            let ghost before = read + chunk@;
            assert(all_read(get_deployment, deployments@, before) && all_made(
                new_stack,
                first,
                before,
                made,
            ));
            match get_deployment(transaction) {
                Ok(Some(deployment)) => {
                    chunk.push(deployment);
                    proof {
                        let all = read + chunk@;
                        assert(all =~= before.push(deployment));
                        assert forall|j: int| 0 <= j < all.len() implies call_ensures(
                            get_deployment,
                            ((#[trigger] deployments@[j]).transaction,),
                            Ok::<_, E>(Some(all[j])),
                        ) by {
                            if j < before.len() {
                                assert(all[j] == before[j]);
                            }
                        }
                        assert forall|j: int| 0 <= j < made.len() implies stack_outcome(
                            new_stack,
                            first,
                            #[trigger] made.take(j),
                            all[j],
                            Ok::<Stack, E>(made[j]),
                        ) by {
                            assert(all[j] == before[j]);
                        }
                    }
                },
                Ok(None) => {
                    let error = DeploymentError::NotFound { transaction };
                    assert(load_failed(get_deployment, new_stack, deployments@, first, error));
                    return Err(error);
                },
                Err(error) => {
                    assert(reading_stopped(
                        get_deployment,
                        new_stack,
                        deployments@,
                        first,
                        transaction,
                        Err::<Option<D>, E>(error),
                    ));
                    let error = DeploymentError::Store(error);
                    assert(load_failed(get_deployment, new_stack, deployments@, first, error));
                    return Err(error);
                },
            }
            i = i + 1;
        }
        // Add the deployments to the process, in the order of their dependencies.
        let ghost all = read + chunk@;
        let mut k: usize = 0;
        while k < chunk.len()
            invariant
                first == process,
                may_load(get_deployment, new_stack, deployments@, first),
                k <= chunk@.len(),
                all == read + chunk@,
                read.len() == start,
                all.len() == end,
                start < end <= deployments@.len(),
                end == start + PARALLELIZATION_FACTOR || end == deployments@.len(),
                end - start <= PARALLELIZATION_FACTOR,
                start as nat % PARALLELIZATION_FACTOR as nat == 0,
                all_read(get_deployment, deployments@, all),
                all_made(new_stack, first, all, made),
                made.len() == start + k,
                stacks_added(current, first, made),
            decreases chunk@.len() - k,
        {
            let ghost before = current;
            assert(all[made.len() as int] == chunk@[k as int]);
            assert(all.len() == chunk_end(made.len(), deployments@.len()));
            match current.load_deployment(&chunk[k], &new_stack) {
                Ok(_) => {
                    proof {
                        let stack = choose|stack: Stack|
                            {
                                &&& call_ensures(
                                    new_stack,
                                    (&before, &chunk@[k as int]),
                                    Ok::<Stack, E>(stack),
                                )
                                &&& current.arena() == #[trigger] before.arena().push(stack)
                                &&& current.stacks() == put(
                                    before.stacks(),
                                    stack.program.id,
                                    before.arena().len() as u64,
                                )
                                &&& current.staged() == before.staged()
                                &&& current.undo() == before.undo()
                            };
                        lemma_one_more_stack(new_stack, first, all, made, stack, before, current);
                        made = made.push(stack);
                    }
                },
                Err(error) => {
                    proof {
                        assert(stack_outcome(
                            new_stack,
                            first,
                            made,
                            all[made.len() as int],
                            Err::<Stack, E>(error),
                        ));
                        assert(loading_stopped(
                            get_deployment,
                            new_stack,
                            deployments@,
                            first,
                            error,
                        ));
                    }
                    let error = DeploymentError::Store(error);
                    assert(load_failed(get_deployment, new_stack, deployments@, first, error));
                    return Err(error);
                },
            }
            k = k + 1;
        }
        proof {
            read = all;
        }
        start = end;
    }
    assert(led_to(get_deployment, new_stack, deployments@, read, made, first, current));
    assert(deployments_led_to(get_deployment, new_stack, deployments@, first, current));
    Ok(current)
}

/// Initializing a mapping unless it is there gave `outcome`.
pub open spec fn ensured<
    E,
    Contains: Fn(u64) -> Result<bool, E>,
    Initialize: Fn(u64) -> Result<(), E>,
>(contains: Contains, initialize: Initialize, name: u64, outcome: Result<(), E>) -> bool {
    ||| call_ensures(contains, (name,), Ok::<bool, E>(true)) && outcome is Ok
    ||| outcome matches Err(error) && call_ensures(contains, (name,), Err::<bool, E>(error))
    ||| call_ensures(contains, (name,), Ok::<bool, E>(false)) && call_ensures(
        initialize,
        (name,),
        outcome,
    )
}

/// All mappings are initialized.
pub open spec fn all_ensured<
    E,
    Contains: Fn(u64) -> Result<bool, E>,
    Initialize: Fn(u64) -> Result<(), E>,
>(contains: Contains, initialize: Initialize, names: Seq<u64>) -> bool {
    forall|i: int|
        0 <= i < names.len() ==> ensured(
            contains,
            initialize,
            #[trigger] names[i],
            Ok::<(), E>(()),
        )
}

/// One of the mappings was not initialized, while the earlier ones were.
pub open spec fn ensuring_failed<
    E,
    Contains: Fn(u64) -> Result<bool, E>,
    Initialize: Fn(u64) -> Result<(), E>,
>(contains: Contains, initialize: Initialize, names: Seq<u64>, error: E) -> bool {
    exists|i: int|
        0 <= i < names.len() && ensured(
            contains,
            initialize,
            #[trigger] names[i],
            Err::<(), E>(error),
        ) && all_ensured(contains, initialize, names.take(i))
}

/// The calls that ensuring the mappings takes: each is asked for once the earlier ones are initialized,
/// and it is initialized only where the store does not contain it.
pub open spec fn may_ensure<
    E,
    Contains: Fn(u64) -> Result<bool, E>,
    Initialize: Fn(u64) -> Result<(), E>,
>(contains: Contains, initialize: Initialize, names: Seq<u64>) -> bool {
    forall|i: int|
        #![trigger names[i]]
        0 <= i < names.len() && all_ensured(contains, initialize, names.take(i)) ==> {
            &&& call_requires(contains, (names[i],))
            &&& call_ensures(contains, (names[i],), Ok::<bool, E>(false)) ==> call_requires(
                initialize,
                (names[i],),
            )
        }
}

/// Ensures that all mappings of a program are initialized: those that the store does not contain are.
pub fn initialize_mappings<
    E,
    Contains: Fn(u64) -> Result<bool, E>,
    Initialize: Fn(u64) -> Result<(), E>,
>(names: &Vec<u64>, contains: Contains, initialize: Initialize) -> (result: Result<(), E>)
    requires
        may_ensure(contains, initialize, names@),
    ensures
        match result {
            Ok(_) => all_ensured(contains, initialize, names@),
            Err(error) => ensuring_failed(contains, initialize, names@, error),
        },
{
    let mut i: usize = 0;
    while i < names.len()
        invariant
            i <= names@.len(),
            may_ensure(contains, initialize, names@),
            forall|j: int|
                0 <= j < i ==> ensured(
                    contains,
                    initialize,
                    #[trigger] names@[j],
                    Ok::<(), E>(()),
                ),
        decreases names@.len() - i,
    {
        let name = names[i];
        proof {
            let earlier = names@.take(i as int);
            assert forall|j: int| 0 <= j < earlier.len() implies ensured(
                contains,
                initialize,
                #[trigger] earlier[j],
                Ok::<(), E>(()),
            ) by {
                assert(earlier[j] == names@[j]);
            }
            assert(all_ensured(contains, initialize, earlier));
            assert(name == names@[i as int]);
        }
        match contains(name) {
            Ok(true) => {},
            Ok(false) => match initialize(name) {
                Ok(unit) => {
                    assert(unit == ());
                },
                Err(error) => {
                    assert(ensured(contains, initialize, names@[i as int], Err::<(), E>(error)));
                    assert(ensuring_failed(contains, initialize, names@, error));
                    return Err(error);
                },
            },
            Err(error) => {
                assert(ensured(contains, initialize, names@[i as int], Err::<(), E>(error)));
                assert(ensuring_failed(contains, initialize, names@, error));
                return Err(error);
            },
        }
        i = i + 1;
    }
    Ok(())
}

/// A deployment that was located is at the height of the block that holds it, and at the first place of
/// its transaction there.
pub proof fn law_deployment_is_at_its_first_place<
    E,
    FindHash: Fn(u64) -> Result<Option<u64>, E>,
    GetHeight: Fn(u64) -> Result<Option<u32>, E>,
    GetTransactions: Fn(u64) -> Result<Option<Vec<u64>>, E>,
>(
    find_hash: FindHash,
    get_height: GetHeight,
    get_transactions: GetTransactions,
    transaction: u64,
    deployment: Deployment,
)
    requires
        located(
            find_hash,
            get_height,
            get_transactions,
            transaction,
            Ok::<Deployment, DeploymentError<E>>(deployment),
        ),
    ensures
        deployment.transaction == transaction,
        exists|hash: u64, transactions: Vec<u64>|
            {
                &&& call_ensures(find_hash, (transaction,), Ok::<_, E>(Some(hash)))
                &&& call_ensures(get_height, (hash,), Ok::<_, E>(Some(deployment.height)))
                &&& #[trigger] call_ensures(
                    get_transactions,
                    (hash,),
                    Ok::<_, E>(Some(transactions)),
                )
                &&& transactions@.index_of_first(transaction) == Some(deployment.index as int)
            },
{
    let (hash, height, transactions) = choose|hash: u64, height: u32, transactions: Vec<u64>|
        {
            &&& call_ensures(find_hash, (transaction,), Ok::<_, E>(Some(hash)))
            &&& #[trigger] call_ensures(get_height, (hash,), Ok::<_, E>(Some(height)))
            &&& #[trigger] call_ensures(
                get_transactions,
                (hash,),
                Ok::<_, E>(Some(transactions)),
            )
            &&& placed(transaction, height, transactions@, deployment)
        };
    transactions@.index_of_first_ensures(transaction);
    assert(transactions@.contains(transaction)) by {
        assert(transactions@[deployment.index as int] == transaction);
    }
    assert(call_ensures(get_transactions, (hash,), Ok::<_, E>(Some(transactions))));
}

/// Deployments in order come by the heights of their blocks, and those of one block by their places in
/// it.
pub proof fn law_earlier_deployments_come_first(deployments: Seq<Deployment>, i: int, j: int)
    requires
        in_order(deployments),
        0 <= i < j < deployments.len(),
    ensures
        deployments[i].height <= deployments[j].height,
        deployments[i].height == deployments[j].height ==> deployments[i].index
            <= deployments[j].index,
{
    assert(no_later(deployments[i], deployments[j]));
}

/// The deployments that are loaded are those of the given transactions, one for each, in the order of
/// their blocks and of their places there.
pub proof fn law_every_deployment_is_loaded_in_its_place<
    E,
    FindHash: Fn(u64) -> Result<Option<u64>, E>,
    GetHeight: Fn(u64) -> Result<Option<u32>, E>,
    GetTransactions: Fn(u64) -> Result<Option<Vec<u64>>, E>,
>(
    find_hash: FindHash,
    get_height: GetHeight,
    get_transactions: GetTransactions,
    ids: Seq<u64>,
    ordered: Seq<Deployment>,
)
    requires
        located_in_order(find_hash, get_height, get_transactions, ids, ordered),
    ensures
        ordered.len() == ids.len(),
        ordered.map_values(|deployment: Deployment| deployment.transaction).to_multiset()
            == ids.to_multiset(),
        forall|i: int, j: int|
            0 <= i < j < ordered.len() ==> (#[trigger] ordered[i]).height < (
            #[trigger] ordered[j]).height || (ordered[i].height == ordered[j].height
                && ordered[i].index <= ordered[j].index),
{
    let deployments = choose|deployments: Seq<Deployment>| #[trigger]
        all_located(find_hash, get_height, get_transactions, ids, deployments)
            && ordered.to_multiset() == deployments.to_multiset();
    ordered.to_multiset_ensures();
    deployments.to_multiset_ensures();
    let transaction_of = |deployment: Deployment| deployment.transaction;
    lemma_same_transactions(ordered, deployments);
    assert forall|i: int| 0 <= i < ids.len() implies deployments[i].transaction == ids[i] by {
        assert(located(
            find_hash,
            get_height,
            get_transactions,
            ids[i],
            Ok::<Deployment, DeploymentError<E>>(deployments[i]),
        ));
    }
    assert(deployments.map_values(transaction_of) =~= ids);
    assert forall|i: int, j: int| 0 <= i < j < ordered.len() implies (#[trigger] ordered[i]).height
        < (#[trigger] ordered[j]).height || (ordered[i].height == ordered[j].height
        && ordered[i].index <= ordered[j].index) by {
        law_earlier_deployments_come_first(ordered, i, j);
    }
}

/// The same deployments in another order have the same transactions.
proof fn lemma_same_transactions(one: Seq<Deployment>, other: Seq<Deployment>)
    requires
        one.to_multiset() == other.to_multiset(),
    ensures
        one.map_values(|deployment: Deployment| deployment.transaction).to_multiset()
            == other.map_values(|deployment: Deployment| deployment.transaction).to_multiset(),
    decreases one.len(),
{
    broadcast use vstd::seq_lib::group_to_multiset_ensures;

    let transaction_of = |deployment: Deployment| deployment.transaction;
    one.to_multiset_ensures();
    other.to_multiset_ensures();
    if one.len() > 0 {
        let last = one.last();
        assert(one.to_multiset().contains(last)) by {
            assert(one.contains(last)) by {
                assert(one[one.len() - 1] == last);
            }
        }
        assert(other.contains(last));
        let i = choose|i: int| 0 <= i < other.len() && other[i] == last;
        let rest = other.remove(i);
        assert(one =~= one.drop_last().push(last));
        assert(one.drop_last().to_multiset() =~= one.to_multiset().remove(last));
        assert(rest.to_multiset() =~= other.to_multiset().remove(last));
        lemma_same_transactions(one.drop_last(), rest);
        assert(one.map_values(transaction_of) =~= one.drop_last().map_values(transaction_of).push(
            last.transaction,
        ));
        assert(rest.map_values(transaction_of) =~= other.map_values(transaction_of).remove(i));
        let left = other.map_values(transaction_of);
        assert(left.remove(i).to_multiset() =~= left.to_multiset().remove(left[i]));
        assert(left.to_multiset().contains(left[i])) by {
            assert(left.contains(left[i]));
        }
        assert(left.to_multiset() =~= left.to_multiset().remove(left[i]).insert(left[i]));
        assert(one.map_values(transaction_of).to_multiset() =~= left.to_multiset());
    } else {
        assert(other.len() == 0);
        assert(one.map_values(transaction_of) =~= other.map_values(transaction_of));
    }
}

/// The latest stack of a program is the last one of it.
pub proof fn law_latest_stack_is_the_last(made: Seq<Stack>, i: int)
    requires
        0 <= i < made.len(),
        forall|j: int|
            i < j < made.len() ==> (#[trigger] made[j]).program.id != made[i].program.id,
    ensures
        latest_stack(made, made[i].program.id) == Some(made[i]),
    decreases made.len(),
{
    if i < made.len() - 1 {
        assert(made[made.len() - 1] == made.last());
        assert forall|j: int| i < j < made.len() - 1 implies (
        #[trigger] made.drop_last()[j]).program.id != made[i].program.id by {
            assert(made.drop_last()[j] == made[j]);
        }
        law_latest_stack_is_the_last(made.drop_last(), i);
    }
}

/// A program of which there is no stack has no latest one.
pub proof fn law_other_programs_have_no_latest_stack(made: Seq<Stack>, program_id: u64)
    requires
        forall|j: int| 0 <= j < made.len() ==> (#[trigger] made[j]).program.id != program_id,
    ensures
        latest_stack(made, program_id) is None,
    decreases made.len(),
{
    if made.len() > 0 {
        assert(made[made.len() - 1] == made.last());
        assert forall|j: int| 0 <= j < made.len() - 1 implies (
        #[trigger] made.drop_last()[j]).program.id != program_id by {
            assert(made.drop_last()[j] == made[j]);
        }
        law_other_programs_have_no_latest_stack(made.drop_last(), program_id);
    }
}

/// Deployments that were loaded were all read, in order, by their transactions; and there is a stack
/// for each. A program has the stack of its last deployment, and a program that was not deployed has
/// what it had.
pub proof fn law_loaded_deployments_are_found<
    D,
    E,
    Get: Fn(u64) -> Result<Option<D>, E>,
    New: Fn(&Process, &D) -> Result<Stack, E>,
>(
    get_deployment: Get,
    new_stack: New,
    deployments: Seq<Deployment>,
    read: Seq<D>,
    made: Seq<Stack>,
    first: Process,
    last: Process,
    i: int,
)
    requires
        led_to(get_deployment, new_stack, deployments, read, made, first, last),
        first.wf(),
        first.staged().len() == 0,
        0 <= i < deployments.len(),
    ensures
        read.len() == deployments.len(),
        made.len() == deployments.len(),
        call_ensures(
            get_deployment,
            (deployments[i].transaction,),
            Ok::<_, E>(Some(read[i])),
        ),
        exists|before: Process|
            {
                &&& #[trigger] stacks_added(before, first, made.take(i))
                &&& call_ensures(new_stack, (&before, &read[i]), Ok::<Stack, E>(made[i]))
            },
        (forall|j: int|
            i < j < made.len() ==> (#[trigger] made[j]).program.id != made[i].program.id)
            ==> last.stack_of(made[i].program.id) == Some(made[i]),
{
    assert(deployments[i] == deployments[i]);
    assert(stack_outcome(
        new_stack,
        first,
        made.take(i),
        read[i],
        Ok::<Stack, E>(made[i]),
    ));
    if forall|j: int|
        i < j < made.len() ==> (#[trigger] made[j]).program.id != made[i].program.id {
        law_latest_stack_is_the_last(made, i);
        law_added_stacks_are_found(last, first, made, made[i].program.id);
    }
}

/// The chunk that holds a place ends after it, is no longer than the number of deployments that are
/// read at a time, and is cut short only by the last deployment.
pub proof fn law_chunks_end_after_their_places(at: nat, total: nat)
    requires
        at < total,
    ensures
        at < chunk_end(at, total) <= total,
        chunk_end(at, total) - at <= 256,
        chunk_end(at, total) == total || chunk_end(at, total) % 256 == 0,
{
}

/// A mapping that was ensured either was there, or was not there and was initialized.
pub proof fn law_ensured_mappings_are_there<
    E,
    Contains: Fn(u64) -> Result<bool, E>,
    Initialize: Fn(u64) -> Result<(), E>,
>(contains: Contains, initialize: Initialize, names: Seq<u64>, name: u64)
    requires
        all_ensured(contains, initialize, names),
        names.contains(name),
    ensures
        call_ensures(contains, (name,), Ok::<bool, E>(true)) || (call_ensures(
            contains,
            (name,),
            Ok::<bool, E>(false),
        ) && call_ensures(initialize, (name,), Ok::<(), E>(()))),
{
    let i = choose|i: int| 0 <= i < names.len() && names[i] == name;
    assert(ensured(contains, initialize, names[i], Ok::<(), E>(())));
}

/// Ensuring mappings fails only when one of them could not be looked up, or was not there and could not
/// be initialized.
pub proof fn law_ensuring_fails_at_a_mapping<
    E,
    Contains: Fn(u64) -> Result<bool, E>,
    Initialize: Fn(u64) -> Result<(), E>,
>(contains: Contains, initialize: Initialize, names: Seq<u64>, error: E)
    requires
        ensuring_failed(contains, initialize, names, error),
    ensures
        exists|name: u64| #[trigger]
            names.contains(name) && (call_ensures(contains, (name,), Err::<bool, E>(error)) || (
            call_ensures(contains, (name,), Ok::<bool, E>(false)) && call_ensures(
                initialize,
                (name,),
                Err::<(), E>(error),
            ))),
{
    let i = choose|i: int|
        0 <= i < names.len() && ensured(
            contains,
            initialize,
            #[trigger] names[i],
            Err::<(), E>(error),
        ) && all_ensured(contains, initialize, names.take(i));
    assert(names.contains(names[i]));
}

} // verus!
