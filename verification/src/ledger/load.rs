//! Loading the ledger from storage.

use crate::block::{Block, Solution};
use crate::committee::Committee;
use crate::ledger::counts::counted;
use crate::ledger::provers::{load_epoch_provers, provers_of};
use crate::ledger::Ledger;
use rand::rngs::ThreadRng;
use rand::seq::IteratorRandom;
use vstd::prelude::*;

verus! {

/// Options describing the deterministic dev committee to install on a ledger.
#[derive(Copy, Clone, Debug, PartialEq, Eq, Structural)]
pub struct DevCommitteeOptions {
    /// The round the committee was swapped.
    /// If none is set, the latest round in the ledger is chosen.
    pub start_round: Option<u64>,
    /// Number of members in the dev committee.
    pub dev_num_validators: u16,
    /// Seed used to deterministically derive the dev committee's keys.
    pub seed: u64,
}

/// Why a ledger cannot be loaded.
#[derive(Debug)]
pub enum LoadError<E> {
    /// The stored ledger has another genesis block.
    IncorrectGenesis,
    /// There is no block hash at the height.
    MissingBlockHash { height: u32 },
    /// There is no block at the height.
    MissingBlock { height: u32 },
    /// The stored height is different than the one in the block tree.
    HeightMismatch { stored: u32, tree: u32 },
    /// There is no state root in the storage.
    MissingStateRoot,
    /// The stored state root is different than the one in the block tree.
    RootMismatch,
    /// A lookup failed.
    Store(E),
}

/// Returns the start round of the dev committee: the one of the options, or else the round of the
/// latest block in storage, or the genesis round when storage is empty.
pub fn dev_start_round<
    E,
    GetHash: FnOnce(u32) -> Result<Option<u64>, E>,
    GetRound: FnOnce(u64) -> Result<Option<u64>, E>,
>(
    options: &DevCommitteeOptions,
    max_height: Option<u32>,
    genesis_round: u64,
    get_block_hash: GetHash,
    get_block_round: GetRound,
) -> (result: Result<u64, LoadError<E>>)
    requires
        // The latest block is looked up only where the options name no round.
        options.start_round is None && max_height is Some ==> call_requires(
            get_block_hash,
            (max_height->0,),
        ),
        forall|hash: u64|
            options.start_round is None && max_height is Some && call_ensures(
                get_block_hash,
                (max_height->0,),
                Ok::<_, E>(Some(hash)),
            ) ==> #[trigger] call_requires(get_block_round, (hash,)),
    ensures
        match (options.start_round, max_height) {
            (Some(round), _) => result == Ok::<_, LoadError<E>>(round),
            (None, None) => result == Ok::<_, LoadError<E>>(genesis_round),
            (None, Some(height)) => match result {
                Ok(round) => latest_round_found(get_block_hash, get_block_round, height, round),
                Err(LoadError::MissingBlockHash { height: at }) => at == height && call_ensures(
                    get_block_hash,
                    (height,),
                    Ok::<Option<u64>, E>(None),
                ),
                Err(LoadError::MissingBlock { height: at }) => at == height && exists|hash: u64|
                    call_ensures(get_block_hash, (height,), Ok::<_, E>(Some(hash)))
                        && #[trigger] call_ensures(
                        get_block_round,
                        (hash,),
                        Ok::<Option<u64>, E>(None),
                    ),
                Err(LoadError::Store(error)) => latest_round_failed(
                    get_block_hash,
                    get_block_round,
                    height,
                    error,
                ),
                Err(_) => false,
            },
        },
{
    match options.start_round {
        Some(round) => {
            return Ok(round);
        },
        None => {},
    }
    let height = match max_height {
        Some(height) => height,
        None => {
            return Ok(genesis_round);
        },
    };
    let hash = match get_block_hash(height) {
        Ok(Some(hash)) => hash,
        Ok(None) => {
            return Err(LoadError::MissingBlockHash { height });
        },
        Err(error) => {
            return Err(LoadError::Store(error));
        },
    };
    match get_block_round(hash) {
        Ok(Some(round)) => {
            assert(latest_round_found(get_block_hash, get_block_round, height, round));
            Ok(round)
        },
        Ok(None) => Err(LoadError::MissingBlock { height }),
        Err(error) => {
            assert(latest_round_failed(get_block_hash, get_block_round, height, error));
            Err(LoadError::Store(error))
        },
    }
}

/// Looking up the round of the block at a height gave the round.
pub open spec fn latest_round_found<
    E,
    GetHash: FnOnce(u32) -> Result<Option<u64>, E>,
    GetRound: FnOnce(u64) -> Result<Option<u64>, E>,
>(get_block_hash: GetHash, get_block_round: GetRound, height: u32, round: u64) -> bool {
    exists|hash: u64|
        call_ensures(get_block_hash, (height,), Ok::<_, E>(Some(hash))) && #[trigger] call_ensures(
            get_block_round,
            (hash,),
            Ok::<_, E>(Some(round)),
        )
}

/// Looking up the round of the block at a height gave the error.
pub open spec fn latest_round_failed<
    E,
    GetHash: FnOnce(u32) -> Result<Option<u64>, E>,
    GetRound: FnOnce(u64) -> Result<Option<u64>, E>,
>(get_block_hash: GetHash, get_block_round: GetRound, height: u32, error: E) -> bool {
    ||| call_ensures(get_block_hash, (height,), Err::<Option<u64>, E>(error))
    ||| exists|hash: u64|
        call_ensures(get_block_hash, (height,), Ok::<_, E>(Some(hash))) && #[trigger] call_ensures(
            get_block_round,
            (hash,),
            Err::<Option<u64>, E>(error),
        )
}

/// Ensures that the ledger contains the correct genesis block.
pub fn check_genesis_block<E>(contains_genesis_hash: bool) -> (result: Result<(), LoadError<E>>)
    ensures
        contains_genesis_hash <==> result is Ok,
        result matches Err(error) ==> error is IncorrectGenesis,
{
    if contains_genesis_hash {
        Ok(())
    } else {
        Err(LoadError::IncorrectGenesis)
    }
}

/// The number of random blocks whose integrity is checked upon bootup.
pub const NUM_BLOCKS: usize = 10;

/// Declares `rand::rngs::ThreadRng` to the verifier as an opaque type.
#[verifier::external_type_specification]
#[verifier::external_body]
pub struct ExThreadRng(ThreadRng);

/// Wraps `IteratorRandom::sample` on the heights up to `latest_height`: it selects `amount` distinct
/// ones of them at random, or all when there are fewer. Which ones, and in which order, is left to
/// chance.
#[verifier::external_body]
fn sample_heights(latest_height: u32, amount: usize, rng: &mut ThreadRng) -> (heights: Vec<u32>)
    requires
        latest_height < u32::MAX,
    ensures
        heights@.len() == (if amount <= latest_height + 1 {
            amount as int
        } else {
            latest_height + 1
        }),
        heights@.no_duplicates(),
        forall|i: int| 0 <= i < heights@.len() ==> heights@[i] <= latest_height,
{
    (0..=latest_height).sample(rng, amount)
}

/// The heights are a sample of those up to the latest one: distinct, as many as there are blocks after
/// the genesis block, but no more than ten.
pub open spec fn spot_sample(heights: Seq<u32>, latest_height: u32) -> bool {
    &&& heights.len() == (if latest_height < NUM_BLOCKS {
        latest_height as int
    } else {
        NUM_BLOCKS as int
    })
    &&& heights.no_duplicates()
    &&& forall|i: int| 0 <= i < heights.len() ==> heights[i] <= latest_height
}

/// Samples the heights of the random blocks whose existence is checked upon bootup: as many as there
/// are blocks after the genesis block, but no more than ten.
pub fn spot_check_heights(latest_height: u32, rng: &mut ThreadRng) -> (heights: Vec<u32>)
    requires
        latest_height < u32::MAX,
    ensures
        spot_sample(heights@, latest_height),
{
    let amount = if latest_height < NUM_BLOCKS as u32 {
        latest_height as usize
    } else {
        NUM_BLOCKS
    };
    sample_heights(latest_height, amount, rng)
}

/// The blocks at all given heights are there.
pub open spec fn all_there<E, Get: Fn(u32) -> Result<(), E>>(
    get_block: Get,
    heights: Seq<u32>,
) -> bool {
    forall|i: int|
        0 <= i < heights.len() ==> call_ensures(
            get_block,
            (#[trigger] heights[i],),
            Ok::<(), E>(()),
        )
}

/// The lookups that a spot check takes: of the heights of a sample, each once those before it are
/// there.
pub open spec fn may_spot_check<E, Get: Fn(u32) -> Result<(), E>>(
    get_block: Get,
    latest_height: u32,
) -> bool {
    forall|heights: Seq<u32>, i: int|
        spot_sample(heights, latest_height) && 0 <= i < heights.len() && all_there(
            get_block,
            heights.take(i),
        ) ==> call_requires(get_block, (#[trigger] heights[i],))
}

/// The blocks of a spot check are there.
pub open spec fn spot_check_passed<E, Get: Fn(u32) -> Result<(), E>>(
    get_block: Get,
    latest_height: u32,
) -> bool {
    exists|heights: Seq<u32>| #[trigger]
        spot_sample(heights, latest_height) && all_there(get_block, heights)
}

/// A block of a spot check could not be retrieved, while those before it could.
pub open spec fn spot_check_failed<E, Get: Fn(u32) -> Result<(), E>>(
    get_block: Get,
    latest_height: u32,
    error: E,
) -> bool {
    exists|heights: Seq<u32>, i: int|
        {
            &&& spot_sample(heights, latest_height)
            &&& 0 <= i < heights.len()
            &&& call_ensures(get_block, (#[trigger] heights[i],), Err::<(), E>(error))
            &&& all_there(get_block, heights.take(i))
        }
}

impl Ledger {
    /// Checks a ledger that was loaded: ensures that it contains its genesis block, and spot checks the
    /// integrity of random blocks.
    pub fn check_loaded<
        E,
        Contains: FnOnce(u64) -> Result<bool, E>,
        Get: Fn(u32) -> Result<(), E>,
    >(&self, contains_block_hash: Contains, get_block: Get, rng: &mut ThreadRng) -> (result: Result<
        (),
        LoadError<E>,
    >)
        requires
            self.block().header.metadata.height < u32::MAX,
            call_requires(contains_block_hash, (self.genesis().hash,)),
            // Blocks are retrieved once the genesis block is known to be there, each once those before
            // it are.
            call_ensures(contains_block_hash, (self.genesis().hash,), Ok::<bool, E>(true))
                ==> may_spot_check(get_block, self.block().header.metadata.height),
        ensures
            match result {
                Ok(_) => call_ensures(
                    contains_block_hash,
                    (self.genesis().hash,),
                    Ok::<bool, E>(true),
                ) && spot_check_passed(get_block, self.block().header.metadata.height),
                Err(LoadError::IncorrectGenesis) => call_ensures(
                    contains_block_hash,
                    (self.genesis().hash,),
                    Ok::<bool, E>(false),
                ),
                Err(LoadError::Store(error)) => {
                    ||| call_ensures(
                        contains_block_hash,
                        (self.genesis().hash,),
                        Err::<bool, E>(error),
                    )
                    ||| call_ensures(
                        contains_block_hash,
                        (self.genesis().hash,),
                        Ok::<bool, E>(true),
                    ) && spot_check_failed(
                        get_block,
                        self.block().header.metadata.height,
                        error,
                    )
                },
                Err(_) => false,
            },
    {
        let contained = match contains_block_hash(self.genesis_block().hash) {
            Ok(contained) => contained,
            Err(error) => {
                return Err(LoadError::Store(error));
            },
        };
        match check_genesis_block(contained) {
            Ok(_) => {},
            Err(error) => {
                return Err(error);
            },
        }
        let latest_height = self.latest_height();
        let heights = spot_check_heights(latest_height, rng);
        let mut i: usize = 0;
        while i < heights.len()
            invariant
                contained,
                call_ensures(
                    contains_block_hash,
                    (self.genesis().hash,),
                    Ok::<bool, E>(true),
                ),
                latest_height == self.block().header.metadata.height,
                i <= heights@.len(),
                may_spot_check(get_block, latest_height),
                spot_sample(heights@, latest_height),
                all_there(get_block, heights@.take(i as int)),
            decreases heights@.len() - i,
        {
            let ghost earlier = heights@.take(i as int);
            match get_block(heights[i]) {
                Ok(unit) => {
                    assert(unit == ());
                    proof {
                        let more = heights@.take(i + 1);
                        assert forall|j: int| 0 <= j < more.len() implies call_ensures(
                            get_block,
                            (#[trigger] more[j],),
                            Ok::<(), E>(()),
                        ) by {
                            if j < earlier.len() {
                                assert(more[j] == earlier[j]);
                            }
                        }
                    }
                },
                Err(error) => {
                    assert(call_ensures(get_block, (heights@[i as int],), Err::<(), E>(error)));
                    assert(spot_check_failed(get_block, latest_height, error));
                    return Err(LoadError::Store(error));
                },
            }
            i = i + 1;
        }
        proof {
            assert(heights@.take(heights@.len() as int) =~= heights@);
            assert(spot_check_passed(get_block, latest_height));
        }
        Ok(())
    }
}

/// How far the loading of a ledger has come.
#[derive(Copy, Clone, Debug, PartialEq, Eq, Structural)]
pub enum LoadStage {
    MaxHeight,
    Genesis,
    TreeHeight,
    TreeRoot,
    StateRoot,
    Block,
    Committee,
    EpochHash,
    EpochSolutions,
    Done,
    Failed,
}

/// What is to be done next while a ledger is loaded.
#[derive(Copy, Clone, Debug, PartialEq, Eq, Structural)]
pub enum LoadRequest {
    /// Obtain the maximum height from the storage.
    MaxHeight,
    /// Advance to the genesis block.
    AddGenesis,
    /// Obtain the height of the block tree.
    TreeHeight,
    /// Obtain the root of the block tree.
    TreeRoot,
    /// Obtain the state root in the storage at the height.
    StateRoot { height: u32 },
    /// Fetch the block at the height.
    Block { height: u32 },
    /// Retrieve the current committee from the storage.
    Committee,
    /// Retrieve the epoch hash at the height.
    EpochHash { height: u32 },
    /// Collect the solutions of the current epoch, given the height.
    EpochSolutions { height: u32 },
}

/// What came of a request.
pub enum LoadReply<E> {
    MaxHeight(Option<u32>),
    GenesisAdded,
    TreeHeight(u32),
    TreeRoot(u64),
    StateRoot(Option<u64>),
    Block(Block),
    Committee(Committee),
    EpochHash(u64),
    EpochSolutions(Vec<Solution>),
    Failed(E),
}

/// What is known while a ledger is loaded.
#[derive(Copy, Clone, Debug, PartialEq, Eq, Structural)]
pub struct LoadFacts {
    /// The latest height.
    pub height: u32,
    /// The root of the block tree.
    pub tree_root: u64,
}

/// The request of a stage; none when the ledger is loaded or cannot be.
pub open spec fn load_request_of(stage: LoadStage, facts: LoadFacts) -> Option<LoadRequest> {
    match stage {
        LoadStage::MaxHeight => Some(LoadRequest::MaxHeight),
        LoadStage::Genesis => Some(LoadRequest::AddGenesis),
        LoadStage::TreeHeight => Some(LoadRequest::TreeHeight),
        LoadStage::TreeRoot => Some(LoadRequest::TreeRoot),
        LoadStage::StateRoot => Some(LoadRequest::StateRoot { height: facts.height }),
        LoadStage::Block => Some(LoadRequest::Block { height: facts.height }),
        LoadStage::Committee => Some(LoadRequest::Committee),
        LoadStage::EpochHash => Some(LoadRequest::EpochHash { height: facts.height }),
        LoadStage::EpochSolutions => Some(LoadRequest::EpochSolutions { height: facts.height }),
        LoadStage::Done => None,
        LoadStage::Failed => None,
    }
}

/// The outcome of a stage: the next stage with what is known, or why the ledger cannot be loaded.
pub enum LoadOutcome<E> {
    Next(LoadStage, LoadFacts),
    Error(LoadError<E>),
}

/// The outcome of a reply. A reply that does not fit the request leaves everything as it is.
pub open spec fn load_outcome<E>(
    stage: LoadStage,
    facts: LoadFacts,
    committee_known: bool,
    reply: LoadReply<E>,
) -> LoadOutcome<E> {
    match (stage, reply) {
        (LoadStage::Done, _) => LoadOutcome::Next(stage, facts),
        (LoadStage::Failed, _) => LoadOutcome::Next(stage, facts),
        (_, LoadReply::Failed(error)) => LoadOutcome::Error(LoadError::Store(error)),
        // An empty storage starts with the genesis block.
        (LoadStage::MaxHeight, LoadReply::MaxHeight(max_height)) => match max_height {
            Some(height) => LoadOutcome::Next(LoadStage::TreeHeight, LoadFacts { height, ..facts }),
            None => LoadOutcome::Next(LoadStage::Genesis, facts),
        },
        (LoadStage::Genesis, LoadReply::GenesisAdded) => LoadOutcome::Next(
            LoadStage::TreeHeight,
            LoadFacts { height: 0, ..facts },
        ),
        // The greatest stored height matches that of the block tree.
        (LoadStage::TreeHeight, LoadReply::TreeHeight(tree)) => if facts.height == tree {
            LoadOutcome::Next(LoadStage::TreeRoot, facts)
        } else {
            LoadOutcome::Error(LoadError::HeightMismatch { stored: facts.height, tree })
        },
        (LoadStage::TreeRoot, LoadReply::TreeRoot(tree_root)) => LoadOutcome::Next(
            LoadStage::StateRoot,
            LoadFacts { tree_root, ..facts },
        ),
        // The root of the block tree matches the one in the storage.
        (LoadStage::StateRoot, LoadReply::StateRoot(state_root)) => match state_root {
            Some(state_root) => if facts.tree_root == state_root {
                LoadOutcome::Next(LoadStage::Block, facts)
            } else {
                LoadOutcome::Error(LoadError::RootMismatch)
            },
            None => LoadOutcome::Error(LoadError::MissingStateRoot),
        },
        (LoadStage::Block, LoadReply::Block(_)) => LoadOutcome::Next(
            if committee_known {
                LoadStage::EpochHash
            } else {
                LoadStage::Committee
            },
            facts,
        ),
        (LoadStage::Committee, LoadReply::Committee(_)) => LoadOutcome::Next(
            LoadStage::EpochHash,
            facts,
        ),
        (LoadStage::EpochHash, LoadReply::EpochHash(_)) => LoadOutcome::Next(
            LoadStage::EpochSolutions,
            facts,
        ),
        (LoadStage::EpochSolutions, LoadReply::EpochSolutions(_)) => LoadOutcome::Next(
            LoadStage::Done,
            facts,
        ),
        _ => LoadOutcome::Next(stage, facts),
    }
}

/// The parts of a ledger that are loaded.
pub struct LoadedParts {
    pub block: Block,
    pub committee: Option<Committee>,
    pub epoch_hash: Option<u64>,
    /// The provers of the current epoch, with the number of their solutions.
    pub provers: Seq<(u64, u64)>,
}

/// The parts of a ledger after a reply. A reply that does not fit the request leaves them as they are.
pub open spec fn load_taken<E>(
    stage: LoadStage,
    parts: LoadedParts,
    reply: LoadReply<E>,
) -> LoadedParts {
    match (stage, reply) {
        (LoadStage::Block, LoadReply::Block(block)) => LoadedParts { block, ..parts },
        (LoadStage::Committee, LoadReply::Committee(committee)) => LoadedParts {
            committee: Some(committee),
            ..parts
        },
        (LoadStage::EpochHash, LoadReply::EpochHash(epoch_hash)) => LoadedParts {
            epoch_hash: Some(epoch_hash),
            ..parts
        },
        (LoadStage::EpochSolutions, LoadReply::EpochSolutions(solutions)) => LoadedParts {
            provers: counted(Seq::empty(), provers_of(solutions@)),
            ..parts
        },
        _ => parts,
    }
}

/// The loading of a ledger.
pub struct Loading<E> {
    stage: LoadStage,
    facts: LoadFacts,
    error: Option<LoadError<E>>,
}

impl<E> Loading<E> {
    pub closed spec fn spec_stage(&self) -> LoadStage {
        self.stage
    }

    pub closed spec fn spec_facts(&self) -> LoadFacts {
        self.facts
    }

    pub closed spec fn spec_error(&self) -> Option<LoadError<E>> {
        self.error
    }

    /// The loading has failed exactly when there is an error.
    pub open spec fn wf(&self) -> bool {
        self.spec_stage() is Failed <==> self.spec_error() is Some
    }

    /// Starts to load a ledger.
    pub fn new() -> (loading: Loading<E>)
        ensures
            loading.wf(),
            loading.spec_stage() is MaxHeight,
    {
        Loading {
            stage: LoadStage::MaxHeight,
            facts: LoadFacts { height: 0, tree_root: 0 },
            error: None,
        }
    }

    /// Returns the request to fulfil, or `None` when the ledger is loaded or cannot be.
    pub fn request(&self) -> (request: Option<LoadRequest>)
        ensures
            request == load_request_of(self.spec_stage(), self.spec_facts()),
    {
        let height = self.facts.height;
        match self.stage {
            LoadStage::MaxHeight => Some(LoadRequest::MaxHeight),
            LoadStage::Genesis => Some(LoadRequest::AddGenesis),
            LoadStage::TreeHeight => Some(LoadRequest::TreeHeight),
            LoadStage::TreeRoot => Some(LoadRequest::TreeRoot),
            LoadStage::StateRoot => Some(LoadRequest::StateRoot { height }),
            LoadStage::Block => Some(LoadRequest::Block { height }),
            LoadStage::Committee => Some(LoadRequest::Committee),
            LoadStage::EpochHash => Some(LoadRequest::EpochHash { height }),
            LoadStage::EpochSolutions => Some(LoadRequest::EpochSolutions { height }),
            LoadStage::Done => None,
            LoadStage::Failed => None,
        }
    }

    /// Returns the result of a loading that is over; or `None` when it is not.
    pub fn into_result(self) -> (result: Option<Result<(), LoadError<E>>>)
        requires
            self.wf(),
        ensures
            match self.spec_stage() {
                LoadStage::Done => result matches Some(result) && result is Ok,
                LoadStage::Failed => result == Some(Err::<(), _>(self.spec_error()->0)),
                _ => result is None,
            },
    {
        match self.stage {
            LoadStage::Done => Some(Ok(())),
            LoadStage::Failed => match self.error {
                Some(error) => Some(Err(error)),
                None => None,
            },
            _ => None,
        }
    }
}

impl Ledger {
    /// The parts of the ledger that are loaded.
    pub open spec fn loaded_parts(&self) -> LoadedParts {
        LoadedParts {
            block: self.block(),
            committee: self.committee(),
            epoch_hash: self.epoch_hash(),
            provers: self.provers(),
        }
    }

    /// Takes the reply to the request of a loading. The ledger gets the latest block, the committee
    /// unless it is known, the epoch hash, and the provers of the solutions of the current epoch.
    pub fn load_unchecked_inner<E>(&mut self, run: Loading<E>, reply: LoadReply<E>) -> (next:
        Loading<E>)
        requires
            old(self).wf(),
            run.wf(),
            reply matches LoadReply::EpochSolutions(solutions) ==> solutions@.len() <= u32::MAX,
        ensures
            final(self).wf(),
            next.wf(),
            match load_outcome(
                run.spec_stage(),
                run.spec_facts(),
                old(self).committee() is Some,
                reply,
            ) {
                LoadOutcome::Next(stage, facts) => next.spec_stage() == stage && next.spec_facts()
                    == facts && next.spec_error() == run.spec_error(),
                LoadOutcome::Error(error) => next.spec_stage() is Failed && next.spec_facts()
                    == run.spec_facts() && next.spec_error() == Some(error),
            },
            final(self).same_fixed_parts(*old(self)),
            final(self).loaded_parts() == load_taken(
                run.spec_stage(),
                old(self).loaded_parts(),
                reply,
            ),
    {
        let mut next = run;
        match (next.stage, reply) {
            (LoadStage::Done, _) => {},
            (LoadStage::Failed, _) => {},
            (_, LoadReply::Failed(error)) => {
                next.stage = LoadStage::Failed;
                next.error = Some(LoadError::Store(error));
            },
            (LoadStage::MaxHeight, LoadReply::MaxHeight(max_height)) => match max_height {
                Some(height) => {
                    next.facts.height = height;
                    next.stage = LoadStage::TreeHeight;
                },
                None => {
                    next.stage = LoadStage::Genesis;
                },
            },
            (LoadStage::Genesis, LoadReply::GenesisAdded) => {
                next.facts.height = 0;
                next.stage = LoadStage::TreeHeight;
            },
            (LoadStage::TreeHeight, LoadReply::TreeHeight(tree)) => if next.facts.height == tree {
                next.stage = LoadStage::TreeRoot;
            } else {
                next.stage = LoadStage::Failed;
                next.error = Some(LoadError::HeightMismatch { stored: next.facts.height, tree });
            },
            (LoadStage::TreeRoot, LoadReply::TreeRoot(tree_root)) => {
                next.facts.tree_root = tree_root;
                next.stage = LoadStage::StateRoot;
            },
            (LoadStage::StateRoot, LoadReply::StateRoot(state_root)) => match state_root {
                Some(state_root) => if next.facts.tree_root == state_root {
                    next.stage = LoadStage::Block;
                } else {
                    next.stage = LoadStage::Failed;
                    next.error = Some(LoadError::RootMismatch);
                },
                None => {
                    next.stage = LoadStage::Failed;
                    next.error = Some(LoadError::MissingStateRoot);
                },
            },
            (LoadStage::Block, LoadReply::Block(block)) => {
                next.stage = if self.current_committee.is_some() {
                    LoadStage::EpochHash
                } else {
                    LoadStage::Committee
                };
                self.current_block = block;
            },
            (LoadStage::Committee, LoadReply::Committee(committee)) => {
                self.current_committee = Some(committee);
                next.stage = LoadStage::EpochHash;
            },
            (LoadStage::EpochHash, LoadReply::EpochHash(epoch_hash)) => {
                self.current_epoch_hash = Some(epoch_hash);
                next.stage = LoadStage::EpochSolutions;
            },
            (LoadStage::EpochSolutions, LoadReply::EpochSolutions(solutions)) => {
                self.epoch_provers_cache = load_epoch_provers(&solutions);
                next.stage = LoadStage::Done;
            },
            _ => {},
        }
        next
    }
}

/// A spot check takes as many heights as there are blocks after the genesis block, and at most ten. They
/// are distinct, and none is beyond the latest one.
pub proof fn law_spot_checks_are_of_distinct_blocks(heights: Seq<u32>, latest_height: u32)
    requires
        spot_sample(heights, latest_height),
    ensures
        heights.len() <= 10,
        latest_height >= 10 ==> heights.len() == 10,
        latest_height < 10 ==> heights.len() == latest_height,
        forall|i: int, j: int| 0 <= i < j < heights.len() ==> heights[i] != heights[j],
        forall|i: int| 0 <= i < heights.len() ==> heights[i] <= latest_height,
{
}

/// A spot check that passed has found the block at each of its heights; one that failed has not found
/// the block at one of them, with the error of its lookup.
pub proof fn law_spot_checks_look_every_block_up<E, Get: Fn(u32) -> Result<(), E>>(
    get_block: Get,
    latest_height: u32,
    error: E,
)
    ensures
        spot_check_passed(get_block, latest_height) ==> exists|heights: Seq<u32>| #[trigger]
            spot_sample(heights, latest_height) && forall|height: u32| #[trigger]
                heights.contains(height) ==> call_ensures(get_block, (height,), Ok::<(), E>(())),
        spot_check_failed(get_block, latest_height, error) ==> exists|height: u32|
            height <= latest_height && #[trigger] call_ensures(
                get_block,
                (height,),
                Err::<(), E>(error),
            ),
{
    if spot_check_passed(get_block, latest_height) {
        let heights = choose|heights: Seq<u32>| #[trigger]
            spot_sample(heights, latest_height) && all_there(get_block, heights);
        assert forall|height: u32| #[trigger] heights.contains(height) implies call_ensures(
            get_block,
            (height,),
            Ok::<(), E>(()),
        ) by {
            let i = choose|i: int| 0 <= i < heights.len() && heights[i] == height;
            assert(heights[i] == height);
        }
    }
}

/// The round of the latest block is that of the block whose hash is stored at the height.
pub proof fn law_latest_round_is_that_of_the_latest_block<
    E,
    GetHash: FnOnce(u32) -> Result<Option<u64>, E>,
    GetRound: FnOnce(u64) -> Result<Option<u64>, E>,
>(
    get_block_hash: GetHash,
    get_block_round: GetRound,
    height: u32,
    round: u64,
    stored_hash: u64,
    stored_round: u64,
)
    requires
        latest_round_found(get_block_hash, get_block_round, height, round),
        forall|found: Result<Option<u64>, E>| #[trigger]
            call_ensures(get_block_hash, (height,), found) ==> found == Ok::<_, E>(
                Some(stored_hash),
            ),
        forall|found: Result<Option<u64>, E>| #[trigger]
            call_ensures(get_block_round, (stored_hash,), found) ==> found == Ok::<_, E>(
                Some(stored_round),
            ),
    ensures
        round == stored_round,
{
}

} // verus!
