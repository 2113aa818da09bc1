//! What the construction of a template asks for and gathers as a whole.

use crate::block::{Authority, Block, FinalizeStateArgs, Header, Metadata, Solution};
use crate::ledger::counts::{count_of, law_counts_are_occurrences, occurrences};
use crate::ledger::template::{
    accepted_before, counts_after, first_stage, ids_of, limits_asked, next_limit, no_answers,
    outcome_of, passed_provers, request_of, stage_after_selection, Answers, NextTargets, Outcome,
    Stage, Subdag, Template, TemplateError, TemplateFacts, TemplateReply, TemplateRequest,
};
use crate::vm::sequential_op::{FinalizeState, Ratify, SpeculateArgs};
use crate::vm::speculation::SpeculationId;
use vstd::prelude::*;

verus! {

/// What the replies to the requests of a template brought, each under the request that asked for it.
pub struct Gathered {
    /// The reply to the request for the epoch hash.
    pub epoch_hash: Option<u64>,
    /// The number of valid solutions, once they were selected.
    pub valid: Option<nat>,
    /// The root of the valid solutions and their combined proof target.
    pub combined: Option<(u64, u128)>,
    pub state_root: Option<u64>,
    /// The committee lookback was found.
    pub lookback: bool,
    /// The timestamp of the subdag, or that of the clock.
    pub timestamp: Option<i64>,
    pub targets: Option<NextTargets>,
    pub coinbase_reward: Option<u64>,
    /// What the finalize state was built from.
    pub state: Option<FinalizeStateArgs>,
    pub speculation: Option<SpeculationId>,
    pub ratifications_root: Option<u64>,
    pub subdag_root: Option<u64>,
    /// The metadata that was built.
    pub metadata: Option<Metadata>,
    pub transactions_root: Option<u64>,
    pub finalize_root: Option<u64>,
    /// The header that was built.
    pub header: Option<Header>,
}

/// Nothing was asked yet.
pub open spec fn nothing_gathered() -> Gathered {
    Gathered {
        epoch_hash: None,
        valid: None,
        combined: None,
        state_root: None,
        lookback: false,
        timestamp: None,
        targets: None,
        coinbase_reward: None,
        state: None,
        speculation: None,
        ratifications_root: None,
        subdag_root: None,
        metadata: None,
        transactions_root: None,
        finalize_root: None,
        header: None,
    }
}

/// What is gathered once a request got its reply. A reply of another kind brings nothing.
pub open spec fn gather<E>(
    gathered: Gathered,
    request: TemplateRequest,
    reply: TemplateReply<E>,
) -> Gathered {
    match (request, reply) {
        (TemplateRequest::EpochHash { .. }, TemplateReply::Value(value)) => Gathered {
            epoch_hash: Some(value),
            ..gathered
        },
        (
            TemplateRequest::CombineSolutions,
            TemplateReply::Combined { root, proof_target },
        ) => Gathered { combined: Some((root, proof_target)), ..gathered },
        (TemplateRequest::StateRoot, TemplateReply::Value(value)) => Gathered {
            state_root: Some(value),
            ..gathered
        },
        (TemplateRequest::CommitteeLookback { .. }, TemplateReply::Found(found)) => Gathered {
            lookback: found,
            ..gathered
        },
        (TemplateRequest::SubdagTimestamp, TemplateReply::Timestamp(timestamp)) => Gathered {
            timestamp: Some(timestamp),
            ..gathered
        },
        (TemplateRequest::Clock, TemplateReply::Timestamp(timestamp)) => Gathered {
            timestamp: Some(timestamp),
            ..gathered
        },
        (TemplateRequest::NextTargets { .. }, TemplateReply::Targets(targets)) => Gathered {
            targets: Some(targets),
            ..gathered
        },
        (TemplateRequest::CoinbaseReward { .. }, TemplateReply::Value(value)) => Gathered {
            coinbase_reward: Some(value),
            ..gathered
        },
        (TemplateRequest::BuildState(args), TemplateReply::Built) => Gathered {
            state: Some(args),
            ..gathered
        },
        (TemplateRequest::Speculate { .. }, TemplateReply::Speculated(id)) => Gathered {
            speculation: Some(id),
            ..gathered
        },
        (TemplateRequest::RatificationsRoot, TemplateReply::Value(value)) => Gathered {
            ratifications_root: Some(value),
            ..gathered
        },
        (TemplateRequest::SubdagRoot, TemplateReply::Value(value)) => Gathered {
            subdag_root: Some(value),
            ..gathered
        },
        (TemplateRequest::BuildMetadata(metadata), TemplateReply::Built) => Gathered {
            metadata: Some(metadata),
            ..gathered
        },
        (TemplateRequest::TransactionsRoot, TemplateReply::Value(value)) => Gathered {
            transactions_root: Some(value),
            ..gathered
        },
        (TemplateRequest::FinalizeRoot, TemplateReply::Value(value)) => Gathered {
            finalize_root: Some(value),
            ..gathered
        },
        (TemplateRequest::BuildHeader(header), TemplateReply::Built) => Gathered {
            header: Some(header),
            ..gathered
        },
        _ => gathered,
    }
}

/// What happens to a template: its request gets a reply, or its solutions are selected.
pub enum TemplateEvent<E> {
    Reply(TemplateReply<E>),
    Selected { valid: nat },
}

/// A template on its way.
pub struct TemplateWay {
    pub stage: Stage,
    pub answers: Answers,
    pub gathered: Gathered,
}

/// The way after one more event.
pub open spec fn template_walk_one<E>(
    facts: TemplateFacts,
    way: TemplateWay,
    event: TemplateEvent<E>,
) -> TemplateWay {
    match event {
        TemplateEvent::Reply(reply) => match request_of(facts, way.stage, way.answers) {
            Some(request) => match outcome_of(facts, way.stage, way.answers, reply) {
                Outcome::Next(stage, answers) => TemplateWay {
                    stage,
                    answers,
                    gathered: gather(way.gathered, request, reply),
                },
                Outcome::Error(_) => TemplateWay { stage: Stage::Failed, ..way },
            },
            None => way,
        },
        TemplateEvent::Selected { valid } => if way.stage is Selection {
            TemplateWay {
                stage: stage_after_selection(valid),
                gathered: Gathered { valid: Some(valid), ..way.gathered },
                ..way
            }
        } else {
            way
        },
    }
}

/// The way after the given events.
pub open spec fn template_walk<E>(
    facts: TemplateFacts,
    num_candidates: nat,
    events: Seq<TemplateEvent<E>>,
) -> TemplateWay
    decreases events.len(),
{
    if events.len() == 0 {
        TemplateWay {
            stage: first_stage(facts, num_candidates),
            answers: no_answers(),
            gathered: nothing_gathered(),
        }
    } else {
        template_walk_one(
            facts,
            template_walk(facts, num_candidates, events.drop_last()),
            events.last(),
        )
    }
}

/// The root of the valid solutions; the zero field element where there are none.
pub open spec fn root_of_solutions(gathered: Gathered) -> u64 {
    match gathered.combined {
        Some(combined) => combined.0,
        None => 0,
    }
}

/// The combined proof target of the valid solutions; zero where there are none.
pub open spec fn target_of_solutions(gathered: Gathered) -> u128 {
    match gathered.combined {
        Some(combined) => combined.1,
        None => 0,
    }
}

/// The number of valid solutions; none without candidates.
pub open spec fn num_valid(gathered: Gathered) -> nat {
    match gathered.valid {
        Some(valid) => valid,
        None => 0,
    }
}

/// `timestamp` is the given one from the height on at which timestamps started to be held, and none
/// before it.
pub open spec fn holds_timestamp_from(
    held: Option<i64>,
    height: u32,
    timestamp: i64,
    timestamps_from: Option<u32>,
) -> bool {
    &&& held matches Some(held) ==> held == timestamp
    &&& held is Some <==> (timestamps_from matches Some(from) ==> height >= from)
}

/// `height` is that of the block after the previous one, as far as there are heights.
pub open spec fn follows_height(height: u32, previous: u32) -> bool {
    height == previous + 1 || (previous == u32::MAX && height == u32::MAX)
}

/// `round` is that of the anchor, or the one after the previous one, as far as there are rounds.
pub open spec fn follows_round(round: u64, previous: u64, subdag: Option<Subdag>) -> bool {
    match subdag {
        Some(subdag) => round == subdag.anchor_round && round > previous,
        None => round == previous + 1 || (previous == u64::MAX && round == u64::MAX),
    }
}

/// `elapsed` is the time from one timestamp to another, or the limit of its type beyond which it lies.
pub open spec fn time_between(elapsed: i64, from: i64, to: i64) -> bool {
    ||| elapsed == to - from
    ||| elapsed == i64::MAX && to - from > i64::MAX
    ||| elapsed == i64::MIN && to - from < i64::MIN
}

/// The finalize state is that of the next block, with the timestamp and the targets that were gathered.
pub open spec fn state_is_gathered(
    facts: TemplateFacts,
    gathered: Gathered,
    args: FinalizeStateArgs,
) -> bool {
    &&& gathered.targets matches Some(targets) && args.cumulative_weight
        == targets.cumulative_weight && args.cumulative_proof_target
        == targets.cumulative_proof_target
    &&& gathered.timestamp matches Some(timestamp) && holds_timestamp_from(
        args.timestamp,
        args.height,
        timestamp,
        facts.timestamps_from,
    )
    &&& follows_height(args.height, facts.previous.height)
    &&& follows_round(args.round, facts.previous.round, facts.subdag)
    &&& args.previous_hash == facts.previous_hash
    &&& facts.subdag matches Some(subdag) ==> args.limits == subdag.limits
    &&& facts.subdag is None ==> args.limits == facts.beacon_limits
}

/// The metadata is that of the next block, with the timestamp and the targets that were gathered.
pub open spec fn metadata_is_gathered(
    facts: TemplateFacts,
    gathered: Gathered,
    metadata: Metadata,
) -> bool {
    &&& gathered.targets matches Some(targets) && metadata.cumulative_weight
        == targets.cumulative_weight && metadata.cumulative_proof_target
        == targets.cumulative_proof_target && metadata.coinbase_target == targets.coinbase_target
        && metadata.proof_target == targets.proof_target && metadata.last_coinbase_target
        == targets.last_coinbase_target && metadata.last_coinbase_timestamp
        == targets.last_coinbase_timestamp
    &&& gathered.timestamp == Some(metadata.timestamp)
    &&& metadata.network == facts.network
    &&& follows_height(metadata.height, facts.previous.height)
    &&& follows_round(metadata.round, facts.previous.round, facts.subdag)
}

/// The header holds the roots that were gathered, and the metadata that was built. A block without
/// solutions or without a subdag has the zero field element for their root.
pub open spec fn header_is_gathered(
    facts: TemplateFacts,
    gathered: Gathered,
    header: Header,
) -> bool {
    &&& gathered.state_root == Some(header.previous_state_root)
    &&& gathered.transactions_root == Some(header.transactions_root)
    &&& gathered.finalize_root == Some(header.finalize_root)
    &&& gathered.ratifications_root == Some(header.ratifications_root)
    &&& header.solutions_root == root_of_solutions(gathered)
    &&& header.subdag_root == (match gathered.subdag_root {
        Some(root) => root,
        None => 0,
    })
    &&& gathered.subdag_root is Some <==> facts.subdag is Some
    &&& gathered.metadata == Some(header.metadata)
    &&& metadata_is_gathered(facts, gathered, header.metadata)
}

/// The solutions are settled: those that are valid were combined, and there is nothing to combine
/// without any. Without candidates nothing was selected.
pub open spec fn solutions_are_settled(num_candidates: nat, gathered: Gathered) -> bool {
    &&& gathered.combined is Some <==> num_valid(gathered) > 0
    &&& gathered.valid is Some <==> num_candidates > 0
}

/// The request asks for what it should, given what was gathered before it.
pub open spec fn request_is_right(
    facts: TemplateFacts,
    num_candidates: nat,
    gathered: Gathered,
    request: TemplateRequest,
) -> bool {
    match request {
        TemplateRequest::EpochHash { height } => {
            &&& num_candidates > 0
            &&& facts.epoch_hash is None
            &&& height == facts.previous.height
        },
        TemplateRequest::SelectSolutions { epoch_hash, proof_target, timestamp } => {
            &&& num_candidates > 0
            &&& facts.epoch_hash matches Some(known) ==> epoch_hash == known
            &&& facts.epoch_hash is None ==> gathered.epoch_hash == Some(epoch_hash)
            &&& proof_target == facts.previous.proof_target
            &&& timestamp == facts.previous.timestamp
        },
        TemplateRequest::CombineSolutions => num_valid(gathered) > 0 && gathered.combined is None,
        TemplateRequest::StateRoot => solutions_are_settled(num_candidates, gathered),
        TemplateRequest::CommitteeLookback { round } => {
            &&& facts.subdag matches Some(subdag) && round + 1 == subdag.anchor_round
                && subdag.anchor_round > facts.previous.round
            &&& gathered.state_root is Some
        },
        TemplateRequest::SubdagTimestamp => facts.subdag is Some && gathered.lookback,
        TemplateRequest::Clock => facts.subdag is None && gathered.state_root is Some,
        TemplateRequest::NextTargets {
            height,
            latest_cumulative_proof_target,
            combined_proof_target,
            latest_coinbase_target,
            latest_cumulative_weight,
            last_coinbase_target,
            last_coinbase_timestamp,
            timestamp,
        } => {
            &&& solutions_are_settled(num_candidates, gathered)
            &&& follows_height(height, facts.previous.height)
            &&& latest_cumulative_proof_target == facts.previous.cumulative_proof_target
            &&& combined_proof_target == target_of_solutions(gathered)
            &&& latest_coinbase_target == facts.previous.coinbase_target
            &&& latest_cumulative_weight == facts.previous.cumulative_weight
            &&& last_coinbase_target == facts.previous.last_coinbase_target
            &&& last_coinbase_timestamp == facts.previous.last_coinbase_timestamp
            &&& gathered.timestamp == Some(timestamp)
        },
        TemplateRequest::CoinbaseReward {
            height,
            timestamp,
            combined_proof_target,
            cumulative_proof_target,
            latest_coinbase_target,
        } => {
            &&& solutions_are_settled(num_candidates, gathered)
            &&& follows_height(height, facts.previous.height)
            &&& gathered.timestamp == Some(timestamp)
            &&& gathered.targets is Some
            &&& combined_proof_target == target_of_solutions(gathered)
            &&& cumulative_proof_target == facts.previous.cumulative_proof_target
            &&& latest_coinbase_target == facts.previous.coinbase_target
        },
        TemplateRequest::BuildState(args) => state_is_gathered(facts, gathered, args)
            && gathered.coinbase_reward is Some,
        TemplateRequest::Speculate { time_since_last_block, coinbase_reward } => {
            &&& gathered.timestamp matches Some(timestamp) && time_between(
                time_since_last_block,
                facts.previous.timestamp,
                timestamp,
            )
            &&& gathered.coinbase_reward == Some(coinbase_reward)
            &&& gathered.state is Some
        },
        TemplateRequest::RatificationsRoot => gathered.speculation is Some,
        TemplateRequest::SubdagRoot => facts.subdag is Some && gathered.speculation is Some,
        TemplateRequest::BuildMetadata(metadata) => {
            &&& metadata_is_gathered(facts, gathered, metadata)
            &&& gathered.speculation is Some
        },
        TemplateRequest::TransactionsRoot => gathered.metadata is Some,
        TemplateRequest::FinalizeRoot => gathered.metadata is Some,
        TemplateRequest::BuildHeader(header) => header_is_gathered(facts, gathered, header),
    }
}

/// How far a stage is on the way of a template.
spec fn rank(stage: Stage) -> int {
    match stage {
        Stage::EpochHash => 0,
        Stage::Selection => 1,
        Stage::Solutions => 2,
        Stage::StateRoot => 3,
        Stage::Lookback => 4,
        Stage::SubdagTimestamp => 5,
        Stage::Clock => 5,
        Stage::Targets => 6,
        Stage::Reward => 7,
        Stage::State => 8,
        Stage::Speculation => 9,
        Stage::RatificationsRoot => 10,
        Stage::SubdagRoot => 11,
        Stage::Metadata => 12,
        Stage::TransactionsRoot => 13,
        Stage::FinalizeRoot => 14,
        Stage::Header => 15,
        Stage::Done => 16,
        Stage::Failed => -1,
    }
}

/// The answers of a template are what was gathered, and what was not gathered yet is zero.
spec fn template_on_track(facts: TemplateFacts, num_candidates: nat, way: TemplateWay) -> bool {
    let (g, a, r) = (way.gathered, way.answers, rank(way.stage));
    !(way.stage is Failed) ==> {
        &&& way.stage is EpochHash || way.stage is Selection || way.stage is Solutions
            ==> num_candidates > 0
        &&& way.stage is EpochHash ==> facts.epoch_hash is None
        &&& way.stage is Selection && facts.epoch_hash is None ==> g.epoch_hash == Some(
            a.epoch_hash,
        )
        &&& r < 2 ==> g.valid is None
        &&& way.stage is Solutions ==> num_valid(g) > 0
        &&& r <= 2 ==> g.combined is None
        &&& r > 2 ==> solutions_are_settled(num_candidates, g)
        &&& a.solutions_root == root_of_solutions(g)
        &&& a.combined_proof_target == target_of_solutions(g)
        &&& r > 3 ==> g.state_root == Some(a.state_root) && !facts.round_is_invalid()
        &&& way.stage is Lookback || way.stage is SubdagTimestamp ==> facts.subdag is Some
        &&& way.stage is SubdagTimestamp ==> g.lookback
        &&& way.stage is Clock ==> facts.subdag is None
        &&& r > 5 ==> g.timestamp == Some(a.timestamp)
        &&& r > 6 ==> g.targets == Some(a.targets) && facts.previous.cumulative_proof_target
            <= u64::MAX
        &&& r > 7 ==> g.coinbase_reward == Some(a.coinbase_reward)
        &&& r > 8 ==> g.state == Some(facts.spec_state_args(a))
        &&& r > 9 ==> g.speculation == a.speculation && a.speculation is Some
        &&& r > 10 ==> g.ratifications_root == Some(a.ratifications_root)
        &&& way.stage is SubdagRoot ==> facts.subdag is Some
        &&& r <= 11 ==> g.subdag_root is None
        &&& g.subdag_root is Some ==> g.subdag_root == Some(a.subdag_root)
        &&& g.subdag_root is None ==> a.subdag_root == 0
        &&& r > 11 ==> (g.subdag_root is Some <==> facts.subdag is Some)
        &&& r > 12 ==> g.metadata == Some(facts.spec_metadata(a))
        &&& r > 13 ==> g.transactions_root == Some(a.transactions_root)
        &&& r > 14 ==> g.finalize_root == Some(a.finalize_root)
        &&& r > 15 ==> g.header == Some(facts.spec_header(a))
    }
}

/// One more event keeps a template on track.
proof fn lemma_template_stays_on_track<E>(
    facts: TemplateFacts,
    num_candidates: nat,
    way: TemplateWay,
    event: TemplateEvent<E>,
)
    requires
        template_on_track(facts, num_candidates, way),
    ensures
        template_on_track(facts, num_candidates, template_walk_one(facts, way, event)),
{
}

/// All events keep a template on track.
proof fn lemma_template_walk_on_track<E>(
    facts: TemplateFacts,
    num_candidates: nat,
    events: Seq<TemplateEvent<E>>,
)
    ensures
        template_on_track(facts, num_candidates, template_walk(facts, num_candidates, events)),
    decreases events.len(),
{
    if events.len() > 0 {
        lemma_template_walk_on_track(facts, num_candidates, events.drop_last());
        lemma_template_stays_on_track(
            facts,
            num_candidates,
            template_walk(facts, num_candidates, events.drop_last()),
            events.last(),
        );
    }
}

/// Whatever the replies, every request of a template asks for what it should: it is made of the
/// previous block, and of the replies to the requests that asked for its other parts. In particular the
/// next targets and the coinbase reward are asked for with the combined proof target of the valid
/// solutions, which is zero only where there are none.
pub proof fn law_template_asks_with_what_it_gathered<E>(
    facts: TemplateFacts,
    num_candidates: nat,
    events: Seq<TemplateEvent<E>>,
)
    ensures
        ({
            let way = template_walk(facts, num_candidates, events);
            request_of(facts, way.stage, way.answers) matches Some(request) ==> request_is_right(
                facts,
                num_candidates,
                way.gathered,
                request,
            )
        }),
{
    lemma_template_walk_on_track(facts, num_candidates, events);
}

/// A template that is done has the header that was built, made of the replies to the requests for its
/// parts, and the id that its speculation got. What was speculated on is the finalize state that was
/// built, and it agrees with the header.
pub proof fn law_template_header_is_what_was_gathered<E>(
    facts: TemplateFacts,
    num_candidates: nat,
    events: Seq<TemplateEvent<E>>,
)
    ensures
        ({
            let way = template_walk(facts, num_candidates, events);
            let header = facts.spec_header(way.answers);
            way.stage is Done ==> {
                &&& way.gathered.header == Some(header)
                &&& header_is_gathered(facts, way.gathered, header)
                &&& solutions_are_settled(num_candidates, way.gathered)
                &&& way.gathered.speculation is Some
                &&& way.gathered.speculation == way.answers.speculation
                &&& way.gathered.state matches Some(state) && state_is_gathered(
                    facts,
                    way.gathered,
                    state,
                ) && state.round == header.metadata.round && state.height
                    == header.metadata.height && state.cumulative_weight
                    == header.metadata.cumulative_weight && state.cumulative_proof_target
                    == header.metadata.cumulative_proof_target
            }
        }),
{
    lemma_template_walk_on_track(facts, num_candidates, events);
}

/// Once the finalize state of a template was built, it stays the state that is speculated on.
pub proof fn law_template_speculates_on_the_built_state<E>(
    facts: TemplateFacts,
    num_candidates: nat,
    events: Seq<TemplateEvent<E>>,
)
    ensures
        ({
            let way = template_walk(facts, num_candidates, events);
            way.stage is Speculation ==> {
                &&& way.gathered.state == Some(facts.spec_state_args(way.answers))
                &&& state_is_gathered(facts, way.gathered, facts.spec_state_args(way.answers))
                &&& way.gathered.coinbase_reward == Some(way.answers.coinbase_reward)
                &&& way.gathered.timestamp matches Some(timestamp) && time_between(
                    facts.spec_time_since_last_block(way.answers),
                    facts.previous.timestamp,
                    timestamp,
                )
            }
        }),
{
    lemma_template_walk_on_track(facts, num_candidates, events);
}

/// The answer to the request makes a template impossible: the round of its subdag is not after that of
/// the previous block, there is no committee lookback, the cumulative proof target does not fit, or the
/// request failed.
pub open spec fn shows_failure<E>(
    facts: TemplateFacts,
    request: TemplateRequest,
    reply: TemplateReply<E>,
) -> bool {
    match (request, reply) {
        (_, TemplateReply::Failed(_)) => true,
        (TemplateRequest::StateRoot, TemplateReply::Value(_)) => facts.subdag matches Some(subdag)
            && subdag.anchor_round <= facts.previous.round,
        (TemplateRequest::CommitteeLookback { .. }, TemplateReply::Found(found)) => !found,
        (TemplateRequest::NextTargets { .. }, TemplateReply::Targets(_)) =>
            facts.previous.cumulative_proof_target > u64::MAX,
        _ => false,
    }
}

/// A template fails exactly when the reply to its request shows that there is none, with an error that
/// says why.
pub proof fn law_template_fails_for_a_reason<E>(
    facts: TemplateFacts,
    stage: Stage,
    answers: Answers,
    reply: TemplateReply<E>,
)
    ensures
        request_of(facts, stage, answers) matches Some(request) ==> {
            &&& outcome_of(facts, stage, answers, reply) is Error <==> shows_failure(
                facts,
                request,
                reply,
            )
            &&& outcome_of(facts, stage, answers, reply) matches Outcome::Error(error)
                ==> match error {
                TemplateError::Other(error) => reply == TemplateReply::Failed(error),
                TemplateError::InvalidRound { new, previous } => !(reply is Failed) && request
                    is StateRoot && facts.subdag is Some && new == facts.subdag->0.anchor_round
                    && previous == facts.previous.round,
                TemplateError::NoCommitteeLookback { round } => !(reply is Failed) && request == (
                TemplateRequest::CommitteeLookback { round }),
                TemplateError::CumulativeProofTargetTooLarge => !(reply is Failed) && request
                    is NextTargets,
            }
        },
{
}

/// The block was constructed from the template: it has the header and the previous hash of the
/// template, and the authority of its subdag, if it has one.
pub open spec fn block_of_template(facts: TemplateFacts, header: Header, block: Block) -> bool {
    &&& block.header == header
    &&& block.previous_hash == facts.previous_hash
    &&& block.authority == (match facts.subdag {
        Some(subdag) => Authority::Quorum {
            spend_limit: subdag.limits.spend,
            synthesis_limit: subdag.limits.synthesis,
        },
        None => Authority::Beacon,
    })
}

/// The finalize state with which a block is added equals the one on which its template speculated, so
/// that a batch that was kept for the block can be finished in place of finalizing it anew.
pub proof fn law_block_is_added_on_the_state_of_its_template(
    facts: TemplateFacts,
    answers: Answers,
    block: Block,
)
    requires
        block_of_template(facts, facts.spec_header(answers), block),
    ensures
        block.state_args(facts.timestamps_from, facts.beacon_limits) == facts.spec_state_args(
            answers,
        ),
{
}

/// How many of the first `count` candidates are of the given prover and passed.
pub open spec fn num_passed(
    candidates: Seq<Solution>,
    verdicts: Seq<(Solution, bool)>,
    count: nat,
    address: u64,
) -> nat {
    Seq::new(count, |j: int| (candidates[j].address, verdicts[j].1)).filter(
        |judged: (u64, bool)| judged.0 == address && judged.1,
    ).len()
}

/// One more candidate adds to the number of those that passed when it is of the prover and passed.
proof fn lemma_num_passed_next(
    candidates: Seq<Solution>,
    verdicts: Seq<(Solution, bool)>,
    count: nat,
    address: u64,
)
    ensures
        num_passed(candidates, verdicts, count + 1, address) == num_passed(
            candidates,
            verdicts,
            count,
            address,
        ) + (if candidates[count as int].address == address && verdicts[count as int].1 {
            1nat
        } else {
            0nat
        }),
        num_passed(candidates, verdicts, 0, address) == 0,
{
    reveal(Seq::filter);
    let judged = |j: int| (candidates[j].address, verdicts[j].1);
    assert(Seq::new(count + 1, judged).drop_last() =~= Seq::new(count, judged));
    assert(Seq::new(0, judged).len() == 0);
}

/// The provers of the first candidates that passed occur as often as they have such candidates.
proof fn lemma_passed_provers_occur(
    candidates: Seq<Solution>,
    verdicts: Seq<(Solution, bool)>,
    count: nat,
    address: u64,
)
    requires
        count <= verdicts.len(),
    ensures
        occurrences(passed_provers(candidates, verdicts.take(count as int)), address)
            == num_passed(candidates, verdicts, count, address),
        passed_provers(candidates, verdicts.take(count as int)).len() <= count,
    decreases count,
{
    if count == 0 {
        lemma_num_passed_next(candidates, verdicts, 0, address);
        assert(verdicts.take(0) =~= Seq::empty());
    } else {
        let fewer = (count - 1) as nat;
        lemma_passed_provers_occur(candidates, verdicts, fewer, address);
        lemma_num_passed_next(candidates, verdicts, fewer, address);
        let judged = verdicts.take(count as int);
        assert(judged.drop_last() =~= verdicts.take(fewer as int));
        assert(judged.last() == verdicts[fewer as int]);
        let provers = passed_provers(candidates, judged);
        if judged.last().1 {
            assert(provers.drop_last() =~= passed_provers(
                candidates,
                verdicts.take(fewer as int),
            ));
        }
    }
}

/// The number that the limit of a prover is asked about is that of its candidates that passed before.
pub proof fn law_limit_is_asked_with_what_was_accepted(
    candidates: Seq<Solution>,
    verdicts: Seq<(Solution, bool)>,
    i: int,
)
    requires
        0 <= i <= verdicts.len() <= u64::MAX,
        i < candidates.len(),
    ensures
        accepted_before(candidates, verdicts, i) == num_passed(
            candidates,
            verdicts,
            i as nat,
            candidates[i].address,
        ),
        i == verdicts.len() ==> next_limit(candidates, verdicts) == (
            candidates[i].address,
            accepted_before(candidates, verdicts, i),
        ),
{
    reveal(accepted_before);
    reveal(counts_after);
    let address = candidates[i].address;
    let provers = passed_provers(candidates, verdicts.take(i));
    lemma_passed_provers_occur(candidates, verdicts, i as nat, address);
    assert forall|other: u64| #[trigger]
        count_of(Seq::<(u64, u64)>::empty(), other) + provers.len() <= u64::MAX by {}
    law_counts_are_occurrences(Seq::empty(), provers, address);
}

/// Where the limit of a prover is a number of solutions, no more candidates of the prover pass than
/// that, however many there are.
pub proof fn law_no_prover_exceeds_its_limit<L: Fn(u64, u64) -> bool>(
    limit_reached: L,
    candidates: Seq<Solution>,
    verdicts: Seq<(Solution, bool)>,
    reached: Seq<bool>,
    address: u64,
    limit: u64,
    count: nat,
)
    requires
        limits_asked(limit_reached, candidates, verdicts, reached),
        count <= verdicts.len() <= candidates.len(),
        verdicts.len() <= u64::MAX,
        forall|accepted: u64, is_reached: bool| #[trigger]
            call_ensures(limit_reached, (address, accepted), is_reached) ==> is_reached == (accepted
                >= limit),
    ensures
        num_passed(candidates, verdicts, count, address) <= limit,
    decreases count,
{
    if count == 0 {
        lemma_num_passed_next(candidates, verdicts, 0, address);
    } else {
        let last = count - 1;
        law_no_prover_exceeds_its_limit(
            limit_reached,
            candidates,
            verdicts,
            reached,
            address,
            limit,
            last as nat,
        );
        lemma_num_passed_next(candidates, verdicts, last as nat, address);
        if candidates[last].address == address {
            law_limit_is_asked_with_what_was_accepted(candidates, verdicts, last);
            assert(call_ensures(
                limit_reached,
                (candidates[last].address, accepted_before(candidates, verdicts, last)),
                reached[last],
            ));
        }
    }
}

/// A candidate whose prover had reached its limit is not accepted, and is aborted as it was given.
pub proof fn law_candidates_beyond_the_limit_are_left_alone<L: Fn(u64, u64) -> bool>(
    limit_reached: L,
    candidates: Seq<Solution>,
    verdicts: Seq<(Solution, bool)>,
    reached: Seq<bool>,
    i: int,
)
    requires
        limits_asked(limit_reached, candidates, verdicts, reached),
        0 <= i < verdicts.len(),
    ensures
        reached[i] ==> !verdicts[i].1 && verdicts[i].0 == candidates[i],
        call_ensures(
            limit_reached,
            (candidates[i].address, accepted_before(candidates, verdicts, i)),
            reached[i],
        ),
{
    assert(reached[i] == reached[i]);
}

/// The IDs of solutions are those of the solutions, in order.
pub proof fn law_ids_are_those_of_the_solutions(solutions: Seq<Solution>, i: int)
    requires
        0 <= i < solutions.len(),
    ensures
        ids_of(solutions).len() == solutions.len(),
        ids_of(solutions)[i] == solutions[i].id,
{
}

/// Where a template stands on its way, given what was gathered.
pub open spec fn way_of<E>(template: Template<E>, gathered: Gathered) -> TemplateWay {
    TemplateWay {
        stage: template.spec_stage(),
        answers: template.spec_answers(),
        gathered,
    }
}

/// A template is constructed along its way: it sets out at its start, asks for what its way asks for,
/// and each reply takes it one step on. So what holds of every way holds of every template.
pub proof fn law_template_goes_its_way<E>(
    facts: TemplateFacts,
    candidates: Vec<Solution>,
    max_solutions: usize,
    fresh: Template<E>,
    template: Template<E>,
    request: Option<TemplateRequest>,
    reply: TemplateReply<E>,
    next: Template<E>,
    gathered: Gathered,
)
    requires
        call_ensures(Template::<E>::new, (facts, candidates, max_solutions), fresh),
        template.wf(),
        call_ensures(Template::<E>::request, (&template,), request),
        call_ensures(Template::<E>::reply, (template, reply), next),
    ensures
        way_of(fresh, nothing_gathered()) == template_walk::<E>(
            facts,
            candidates@.len(),
            Seq::empty(),
        ),
        fresh.spec_facts() == facts,
        request == request_of(
            template.spec_facts(),
            template.spec_stage(),
            template.spec_answers(),
        ),
        next.spec_facts() == template.spec_facts(),
        ({
            let step = template_walk_one(
                template.spec_facts(),
                way_of(template, gathered),
                TemplateEvent::Reply(reply),
            );
            next.spec_stage() == step.stage && next.spec_answers() == step.answers
        }),
        next.spec_valid() == template.spec_valid(),
        next.spec_aborted() == template.spec_aborted(),
{
}

/// A template that is done gives the header and the id of its way, and it is speculated on the state,
/// the time and the reward of its way, with its valid solutions.
pub proof fn law_template_gives_what_it_gathered<E>(
    template: Template<E>,
    result: Option<Result<(Header, SpeculationId), TemplateError<E>>>,
    ratifications: Vec<Ratify>,
    transactions: Vec<u64>,
    args: SpeculateArgs,
)
    requires
        template.wf(),
        call_ensures(Template::<E>::into_result, (template,), result),
        call_ensures(
            Template::<E>::speculate_args,
            (&template, ratifications, transactions),
            args,
        ),
    ensures
        template.spec_stage() is Done <==> (result matches Some(Ok(_))),
        result matches Some(Ok((header, id))) ==> header == template.spec_facts().spec_header(
            template.spec_answers(),
        ) && template.spec_answers().speculation == Some(id),
        result matches Some(Err(error)) ==> template.spec_error() == Some(error),
        args.state == FinalizeState::Block(
            template.spec_facts().spec_state_args(template.spec_answers()),
        ),
        args.time_since_last_block == template.spec_facts().spec_time_since_last_block(
            template.spec_answers(),
        ),
        args.coinbase_reward == Some(template.spec_answers().coinbase_reward),
        args.solutions@ == template.spec_valid(),
        args.ratifications@ == ratifications@,
        args.transactions@ == transactions@,
{
}

} // verus!
