//! What the loading of a ledger checks and gathers as a whole.

use crate::ledger::counts::counted;
use crate::ledger::load::{
    load_outcome, load_request_of, load_taken, LoadError, LoadFacts, LoadOutcome, LoadReply,
    LoadRequest, LoadStage, LoadedParts, Loading,
};
use crate::ledger::provers::provers_of;
use crate::ledger::Ledger;
use vstd::prelude::*;

verus! {

/// A loading on its way.
pub struct LoadWay<E> {
    pub stage: LoadStage,
    pub facts: LoadFacts,
    pub parts: LoadedParts,
    /// The requests that were fulfilled, each with its reply.
    pub fulfilled: Map<LoadRequest, LoadReply<E>>,
}

/// The way after one more reply. Adding the genesis block leaves the ledger with parts of its own.
pub open spec fn load_walk_one<E>(
    way: LoadWay<E>,
    with_genesis: LoadedParts,
    reply: LoadReply<E>,
) -> LoadWay<E> {
    let before = if way.stage is Genesis && reply is GenesisAdded {
        with_genesis
    } else {
        way.parts
    };
    let parts = load_taken(way.stage, before, reply);
    match load_outcome(way.stage, way.facts, before.committee is Some, reply) {
        LoadOutcome::Next(stage, facts) => LoadWay {
            stage,
            facts,
            parts,
            fulfilled: match load_request_of(way.stage, way.facts) {
                Some(request) if stage != way.stage => way.fulfilled.insert(request, reply),
                _ => way.fulfilled,
            },
        },
        LoadOutcome::Error(_) => LoadWay { stage: LoadStage::Failed, parts, ..way },
    }
}

/// The way after the given replies.
pub open spec fn load_walk<E>(
    way: LoadWay<E>,
    with_genesis: LoadedParts,
    replies: Seq<LoadReply<E>>,
) -> LoadWay<E>
    decreases replies.len(),
{
    if replies.len() == 0 {
        way
    } else {
        load_walk_one(
            load_walk(way, with_genesis, replies.drop_last()),
            with_genesis,
            replies.last(),
        )
    }
}

/// The way of a loading that starts.
pub open spec fn load_setting_out<E>(facts: LoadFacts, parts: LoadedParts) -> LoadWay<E> {
    LoadWay { stage: LoadStage::MaxHeight, facts, parts, fulfilled: Map::empty() }
}

/// The reply that fulfilled a request was this one.
pub open spec fn fulfilled_by<E>(way: LoadWay<E>, request: LoadRequest, reply: LoadReply<E>) -> bool {
    way.fulfilled.contains_pair(request, reply)
}

/// The known height is the greatest one in the storage, or that of the genesis block, which was added
/// to an empty storage.
pub open spec fn height_is_stored<E>(way: LoadWay<E>) -> bool {
    ||| fulfilled_by(way, LoadRequest::MaxHeight, LoadReply::MaxHeight(Some(way.facts.height)))
    ||| way.facts.height == 0 && fulfilled_by(
        way,
        LoadRequest::MaxHeight,
        LoadReply::MaxHeight(None),
    ) && fulfilled_by(way, LoadRequest::AddGenesis, LoadReply::GenesisAdded)
}

/// The block tree has the stored height.
pub open spec fn heights_match<E>(way: LoadWay<E>) -> bool {
    &&& height_is_stored(way)
    &&& fulfilled_by(way, LoadRequest::TreeHeight, LoadReply::TreeHeight(way.facts.height))
}

/// The block tree has the state root that is stored at the height.
pub open spec fn roots_match<E>(way: LoadWay<E>) -> bool {
    &&& fulfilled_by(way, LoadRequest::TreeRoot, LoadReply::TreeRoot(way.facts.tree_root))
    &&& fulfilled_by(
        way,
        LoadRequest::StateRoot { height: way.facts.height },
        LoadReply::StateRoot(Some(way.facts.tree_root)),
    )
}

/// The current block is the one that was fetched at the height.
pub open spec fn block_is_loaded<E>(way: LoadWay<E>) -> bool {
    fulfilled_by(
        way,
        LoadRequest::Block { height: way.facts.height },
        LoadReply::Block(way.parts.block),
    )
}

/// The committee is known; where it was retrieved, it is the one that was retrieved.
pub open spec fn committee_is_loaded<E>(way: LoadWay<E>) -> bool {
    way.parts.committee matches Some(committee) && (way.fulfilled.contains_key(
        LoadRequest::Committee,
    ) ==> fulfilled_by(way, LoadRequest::Committee, LoadReply::Committee(committee)))
}

/// The epoch hash is the one that was retrieved for the height.
pub open spec fn epoch_hash_is_loaded<E>(way: LoadWay<E>) -> bool {
    way.parts.epoch_hash matches Some(epoch_hash) && fulfilled_by(
        way,
        LoadRequest::EpochHash { height: way.facts.height },
        LoadReply::EpochHash(epoch_hash),
    )
}

/// The provers were counted in the solutions that were collected for the height.
pub open spec fn provers_are_loaded<E>(way: LoadWay<E>) -> bool {
    let request = LoadRequest::EpochSolutions { height: way.facts.height };
    &&& way.fulfilled.contains_key(request)
    &&& way.fulfilled[request] matches LoadReply::EpochSolutions(solutions) && way.parts.provers
        == counted(Seq::empty(), provers_of(solutions@))
}

/// What holds of a loading at every stage.
spec fn load_on_track<E>(way: LoadWay<E>) -> bool {
    let stage = way.stage;
    let left = load_replies_left(stage);
    let retrieved = way.fulfilled.contains_key(LoadRequest::Committee);
    &&& stage is Genesis ==> fulfilled_by(
        way,
        LoadRequest::MaxHeight,
        LoadReply::MaxHeight(None),
    )
    &&& stage is TreeHeight ==> height_is_stored(way)
    &&& left <= 6 && !(stage is Failed) ==> heights_match(way)
    &&& stage is StateRoot ==> fulfilled_by(
        way,
        LoadRequest::TreeRoot,
        LoadReply::TreeRoot(way.facts.tree_root),
    )
    &&& left <= 4 && !(stage is Failed) ==> roots_match(way)
    &&& left <= 3 && !(stage is Failed) ==> block_is_loaded(way)
    &&& left >= 3 ==> !retrieved
    &&& left <= 2 && !(stage is Failed) ==> committee_is_loaded(way)
    &&& left <= 1 && !(stage is Failed) ==> epoch_hash_is_loaded(way)
    &&& stage is Done ==> provers_are_loaded(way)
}

/// Every reply keeps a loading on track.
proof fn lemma_load_stays_on_track<E>(
    way: LoadWay<E>,
    with_genesis: LoadedParts,
    reply: LoadReply<E>,
)
    requires
        load_on_track(way),
    ensures
        load_on_track(load_walk_one(way, with_genesis, reply)),
{
}

/// A loading stays on track over any replies.
proof fn lemma_load_walk_on_track<E>(
    way: LoadWay<E>,
    with_genesis: LoadedParts,
    replies: Seq<LoadReply<E>>,
)
    requires
        load_on_track(way),
    ensures
        load_on_track(load_walk(way, with_genesis, replies)),
    decreases replies.len(),
{
    if replies.len() > 0 {
        lemma_load_walk_on_track(way, with_genesis, replies.drop_last());
        lemma_load_stays_on_track(
            load_walk(way, with_genesis, replies.drop_last()),
            with_genesis,
            replies.last(),
        );
    }
}

/// A ledger that is loaded has a block tree with the stored height and state root. It holds the block
/// that was fetched at that height, a committee, the epoch hash for the height, and the provers of the
/// solutions that were collected for it, whatever the ledger held before.
pub proof fn law_loaded_ledger_is_consistent<E>(
    facts: LoadFacts,
    parts: LoadedParts,
    with_genesis: LoadedParts,
    replies: Seq<LoadReply<E>>,
)
    ensures
        ({
            let way = load_walk(load_setting_out(facts, parts), with_genesis, replies);
            way.stage is Done ==> {
                &&& heights_match(way)
                &&& roots_match(way)
                &&& block_is_loaded(way)
                &&& committee_is_loaded(way)
                &&& epoch_hash_is_loaded(way)
                &&& provers_are_loaded(way)
            }
        }),
{
    lemma_load_walk_on_track(load_setting_out(facts, parts), with_genesis, replies);
}

/// A loading that asks for the latest block has seen the height of the block tree match the greatest
/// stored height, and its root match the stored state root.
pub proof fn law_block_tree_is_checked<E>(
    stage: LoadStage,
    facts: LoadFacts,
    committee_known: bool,
    reply: LoadReply<E>,
)
    requires
        !(stage is Block),
    ensures
        load_outcome(stage, facts, committee_known, reply) matches LoadOutcome::Next(
            next,
            known,
        ) && next is Block ==> stage is StateRoot && reply == LoadReply::<E>::StateRoot(
            Some(facts.tree_root),
        ),
        load_outcome(stage, facts, committee_known, reply) matches LoadOutcome::Next(
            next,
            known,
        ) && next is TreeRoot && !(stage is TreeRoot) ==> stage is TreeHeight && reply
            == LoadReply::<E>::TreeHeight(facts.height),
{
}

/// How many replies are taken at most from a stage on.
pub open spec fn load_replies_left(stage: LoadStage) -> nat {
    match stage {
        LoadStage::MaxHeight => 9,
        LoadStage::Genesis => 8,
        LoadStage::TreeHeight => 7,
        LoadStage::TreeRoot => 6,
        LoadStage::StateRoot => 5,
        LoadStage::Block => 4,
        LoadStage::Committee => 3,
        LoadStage::EpochHash => 2,
        LoadStage::EpochSolutions => 1,
        LoadStage::Done => 0,
        LoadStage::Failed => 0,
    }
}

/// Every reply that moves a loading on brings it nearer to its end: no request is made twice.
pub proof fn law_loading_ends<E>(
    stage: LoadStage,
    facts: LoadFacts,
    committee_known: bool,
    reply: LoadReply<E>,
)
    ensures
        load_outcome(stage, facts, committee_known, reply) matches LoadOutcome::Next(next, _)
            ==> next == stage || load_replies_left(next) < load_replies_left(stage),
{
}

/// The ledger adds the genesis block exactly when the storage is empty.
pub proof fn law_empty_storage_gets_genesis<E>(
    facts: LoadFacts,
    committee_known: bool,
    max_height: Option<u32>,
)
    ensures
        load_outcome::<E>(
            LoadStage::MaxHeight,
            facts,
            committee_known,
            LoadReply::MaxHeight(max_height),
        ) == LoadOutcome::<E>::Next(LoadStage::Genesis, facts) <==> max_height is None,
{
}

/// The reply to the request shows that the ledger cannot be loaded: the request failed, the height of
/// the block tree is not the stored one, there is no stored state root, or it is not that of the block
/// tree.
pub open spec fn shows_load_failure<E>(
    facts: LoadFacts,
    request: LoadRequest,
    reply: LoadReply<E>,
) -> bool {
    match (request, reply) {
        (_, LoadReply::Failed(_)) => true,
        (LoadRequest::TreeHeight, LoadReply::TreeHeight(tree)) => tree != facts.height,
        (LoadRequest::StateRoot { .. }, LoadReply::StateRoot(root)) => root != Some(
            facts.tree_root,
        ),
        _ => false,
    }
}

/// Loading fails exactly when the reply to its request shows that the ledger cannot be loaded, with an
/// error that says why.
pub proof fn law_loading_fails_for_a_reason<E>(
    stage: LoadStage,
    facts: LoadFacts,
    committee_known: bool,
    reply: LoadReply<E>,
)
    ensures
        load_request_of(stage, facts) matches Some(request) ==> {
            &&& load_outcome(stage, facts, committee_known, reply) is Error
                <==> shows_load_failure(facts, request, reply)
            &&& load_outcome(stage, facts, committee_known, reply) matches LoadOutcome::Error(
                error,
            ) ==> match error {
                LoadError::Store(error) => reply == LoadReply::Failed(error),
                LoadError::HeightMismatch { stored, tree } => stored == facts.height && reply
                    == LoadReply::<E>::TreeHeight(tree),
                LoadError::MissingStateRoot => reply == LoadReply::<E>::StateRoot(None),
                LoadError::RootMismatch => reply matches LoadReply::StateRoot(Some(_)),
                _ => false,
            }
        },
{
}

/// The reply is of the kind that the request asks for.
pub open spec fn load_reply_fits<E>(request: LoadRequest, reply: LoadReply<E>) -> bool {
    match request {
        LoadRequest::MaxHeight => reply is MaxHeight,
        LoadRequest::AddGenesis => reply is GenesisAdded,
        LoadRequest::TreeHeight => reply is TreeHeight,
        LoadRequest::TreeRoot => reply is TreeRoot,
        LoadRequest::StateRoot { .. } => reply is StateRoot,
        LoadRequest::Block { .. } => reply is Block,
        LoadRequest::Committee => reply is Committee,
        LoadRequest::EpochHash { .. } => reply is EpochHash,
        LoadRequest::EpochSolutions { .. } => reply is EpochSolutions,
    }
}

/// A reply that fits the request of a loading moves it on, unless it shows that the ledger cannot be
/// loaded; any other reply but a failure leaves it where it is. Only a known committee is not asked
/// for.
pub proof fn law_fitting_load_reply_moves_on<E>(
    stage: LoadStage,
    facts: LoadFacts,
    committee_known: bool,
    reply: LoadReply<E>,
)
    ensures
        load_request_of(stage, facts) matches Some(request) ==> {
            &&& load_outcome(stage, facts, committee_known, reply) matches LoadOutcome::Next(
                next,
                known,
            ) ==> (next != stage <==> load_reply_fits(request, reply))
            &&& request is Block && reply is Block ==> (load_outcome(
                stage,
                facts,
                committee_known,
                reply,
            ) matches LoadOutcome::Next(next, known) && (load_request_of(next, known) == Some(
                LoadRequest::Committee,
            ) <==> !committee_known))
        },
        load_request_of(stage, facts) is None <==> stage is Done || stage is Failed,
{
}

/// A ledger is loaded along its way: each reply takes the loading and the ledger one step on, and leaves
/// the genesis block, the length of the epochs and the dev committee. So what holds of every way holds
/// of every loading.
pub proof fn law_loading_goes_its_way<E>(
    ledger: &mut Ledger,
    run: Loading<E>,
    reply: LoadReply<E>,
    next: Loading<E>,
    fulfilled: Map<LoadRequest, LoadReply<E>>,
)
    requires
        old(ledger).wf(),
        run.wf(),
        call_ensures(Ledger::load_unchecked_inner::<E>, (ledger, run, reply), next),
    ensures
        ({
            let way = LoadWay {
                stage: run.spec_stage(),
                facts: run.spec_facts(),
                parts: old(ledger).loaded_parts(),
                fulfilled,
            };
            let step = load_walk_one(way, old(ledger).loaded_parts(), reply);
            &&& next.spec_stage() == step.stage
            &&& next.spec_facts() == step.facts
            &&& final(ledger).loaded_parts() == step.parts
        }),
        final(ledger).genesis() == old(ledger).genesis(),
        final(ledger).epoch_length() == old(ledger).epoch_length(),
        final(ledger).dev() == old(ledger).dev(),
{
}

} // verus!
