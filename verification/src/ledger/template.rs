//! Constructing the template of the next block.
//!
//! The puzzle, the stores and the virtual machine do the outside work, one request at a time: whoever
//! runs a `Template` fulfils its request, replies with what came of it, and goes on until it is done
//! or has failed.

use crate::block::{
    copy_solutions, include_timestamp, included_timestamp, FinalizeStateArgs, Header, Limits,
    Metadata, Solution, ZERO_ROOT,
};
use crate::id_map::IdMap;
use crate::ledger::counts::{
    count_of, count_once, counted, counted_once, get_count, law_counts_are_occurrences,
    lemma_occurrences_bound,
};
use crate::ledger::solutions::{accepted, refused, split_outcome, verifies_next, Split};
use crate::vm::sequential_op::{FinalizeState, Ratify, SpeculateArgs};
use crate::vm::speculation::SpeculationId;
use vstd::prelude::*;

verus! {

/// How many solutions of each prover were accepted so far.
pub struct AcceptedSolutions {
    counts: IdMap,
}

impl View for AcceptedSolutions {
    type V = Seq<(u64, u64)>;

    closed spec fn view(&self) -> Seq<(u64, u64)> {
        self.counts@
    }
}

impl AcceptedSolutions {
    /// The counts have distinct addresses.
    pub closed spec fn wf(&self) -> bool {
        self.counts.wf()
    }

    /// No solution was accepted so far.
    pub fn new() -> (accepted: AcceptedSolutions)
        ensures
            accepted.wf(),
            accepted@ == Seq::<(u64, u64)>::empty(),
    {
        AcceptedSolutions { counts: IdMap::new() }
    }

    /// Decides if a solution is accepted. It is not when its prover has reached the limit, given the
    /// number of solutions accepted of the prover so far; in that case the solution is not checked.
    /// Otherwise it is when it passes its check, and it counts for its prover.
    pub fn decide<Limit: Fn(u64, u64) -> bool, Check: Fn(&mut Solution) -> bool>(
        &mut self,
        solution: &mut Solution,
        limit_reached: &Limit,
        check: &Check,
    ) -> (accepted: bool)
        requires
            old(self).wf(),
            count_of(old(self)@, old(solution).address) < u64::MAX,
            call_requires(
                *limit_reached,
                (old(solution).address, count_of(old(self)@, old(solution).address)),
            ),
            forall|candidate: &mut Solution|
                *candidate == *old(solution) && call_ensures(
                    *limit_reached,
                    (old(solution).address, count_of(old(self)@, old(solution).address)),
                    false,
                ) ==> #[trigger] call_requires(*check, (candidate,)),
        ensures
            final(self).wf(),
            ({
                let address = old(solution).address;
                let count = count_of(old(self)@, address);
                ||| call_ensures(*limit_reached, (address, count), true) && !accepted
                    && *final(solution) == *old(solution) && final(self)@ == old(self)@
                ||| call_ensures(*limit_reached, (address, count), false) && (exists|checked: &mut
                    Solution|
                    *checked == *old(solution) && *final(checked) == *final(solution)
                        && #[trigger] call_ensures(*check, (checked,), accepted)) && final(self)@
                    == (if accepted {
                    counted_once(old(self)@, address)
                } else {
                    old(self)@
                })
            }),
    {
        let address = solution.address;
        let count = get_count(&self.counts, address);
        if limit_reached(address, count) {
            return false;
        }
        let accepted = check(solution);
        if accepted {
            count_once(&mut self.counts, address);
        }
        accepted
    }
}

/// The provers of those candidates that passed, in order. Each candidate counts for the prover that it
/// had before it was checked.
pub open spec fn passed_provers(
    candidates: Seq<Solution>,
    verdicts: Seq<(Solution, bool)>,
) -> Seq<u64>
    decreases verdicts.len(),
{
    if verdicts.len() == 0 {
        Seq::empty()
    } else {
        let before = passed_provers(candidates, verdicts.drop_last());
        if verdicts.last().1 {
            before.push(candidates[verdicts.len() - 1].address)
        } else {
            before
        }
    }
}

/// The number of solutions of each prover among the candidates that passed.
#[verifier::opaque]
pub open spec fn counts_after(
    candidates: Seq<Solution>,
    verdicts: Seq<(Solution, bool)>,
) -> Seq<(u64, u64)> {
    counted(Seq::empty(), passed_provers(candidates, verdicts))
}

/// How many solutions of the prover of a candidate were accepted before it was judged.
#[verifier::opaque]
pub open spec fn accepted_before(
    candidates: Seq<Solution>,
    verdicts: Seq<(Solution, bool)>,
    i: int,
) -> u64 {
    count_of(counts_after(candidates, verdicts.take(i)), candidates[i].address)
}

/// What is asked about the limit of the prover of the next candidate: its address, and the number of
/// its solutions that were accepted so far.
pub open spec fn next_limit(
    candidates: Seq<Solution>,
    verdicts: Seq<(Solution, bool)>,
) -> (u64, u64) {
    (
        candidates[verdicts.len() as int].address,
        accepted_before(candidates, verdicts, verdicts.len() as int),
    )
}

/// The count that is asked about is that of the solutions that were accepted so far.
proof fn lemma_next_limit(candidates: Seq<Solution>, verdicts: Seq<(Solution, bool)>)
    ensures
        next_limit(candidates, verdicts).1 == count_of(
            counts_after(candidates, verdicts),
            candidates[verdicts.len() as int].address,
        ),
{
    reveal(accepted_before);
    assert(verdicts.take(verdicts.len() as int) =~= verdicts);
}

/// No more candidates passed than were judged.
proof fn lemma_passed_provers(candidates: Seq<Solution>, verdicts: Seq<(Solution, bool)>)
    ensures
        passed_provers(candidates, verdicts).len() <= verdicts.len(),
    decreases verdicts.len(),
{
    if verdicts.len() > 0 {
        lemma_passed_provers(candidates, verdicts.drop_last());
    }
}

/// Before the first verdict nothing is counted.
proof fn lemma_counts_at_first(candidates: Seq<Solution>)
    ensures
        counts_after(candidates, Seq::empty()) == Seq::<(u64, u64)>::empty(),
{
    reveal(counts_after);
}

/// No count exceeds the number of verdicts.
proof fn lemma_counts_bound(
    candidates: Seq<Solution>,
    verdicts: Seq<(Solution, bool)>,
    address: u64,
)
    requires
        verdicts.len() <= u64::MAX,
    ensures
        count_of(counts_after(candidates, verdicts), address) <= verdicts.len(),
{
    reveal(counts_after);
    let provers = passed_provers(candidates, verdicts);
    lemma_passed_provers(candidates, verdicts);
    assert forall|other: u64| #[trigger]
        count_of(Seq::<(u64, u64)>::empty(), other) + provers.len() <= u64::MAX by {}
    law_counts_are_occurrences(Seq::empty(), provers, address);
    lemma_occurrences_bound(provers, address);
}

/// One more verdict counts once for the prover of its candidate if the candidate passed, and leaves
/// the earlier counts as they were.
proof fn lemma_one_more_verdict(
    candidates: Seq<Solution>,
    verdicts: Seq<(Solution, bool)>,
    verdict: (Solution, bool),
)
    ensures
        counts_after(candidates, verdicts.push(verdict)) == (if verdict.1 {
            counted_once(
                counts_after(candidates, verdicts),
                candidates[verdicts.len() as int].address,
            )
        } else {
            counts_after(candidates, verdicts)
        }),
        forall|i: int|
            0 <= i < verdicts.len() ==> #[trigger] accepted_before(
                candidates,
                verdicts.push(verdict),
                i,
            ) == accepted_before(candidates, verdicts, i),
        accepted_before(candidates, verdicts.push(verdict), verdicts.len() as int) == count_of(
            counts_after(candidates, verdicts),
            candidates[verdicts.len() as int].address,
        ),
{
    let longer = verdicts.push(verdict);
    assert(longer.drop_last() =~= verdicts);
    assert(counts_after(candidates, longer) == (if verdict.1 {
        counted_once(
            counts_after(candidates, verdicts),
            candidates[verdicts.len() as int].address,
        )
    } else {
        counts_after(candidates, verdicts)
    })) by {
        reveal(counts_after);
        if verdict.1 {
            let provers = passed_provers(candidates, verdicts);
            assert(passed_provers(candidates, longer).drop_last() =~= provers);
        }
    }
    reveal(accepted_before);
    assert forall|i: int| 0 <= i < verdicts.len() implies #[trigger] accepted_before(
        candidates,
        longer,
        i,
    ) == accepted_before(candidates, verdicts, i) by {
        assert(longer.take(i) =~= verdicts.take(i));
    }
    assert(longer.take(verdicts.len() as int) =~= verdicts);
}

/// For each candidate that was judged it was asked if its prover had reached the limit, given the
/// number of solutions accepted of the prover before; `reached` are the answers. A candidate whose
/// prover had reached it is not accepted and is left as it was given.
pub open spec fn limits_asked<L: Fn(u64, u64) -> bool>(
    limit_reached: L,
    candidates: Seq<Solution>,
    verdicts: Seq<(Solution, bool)>,
    reached: Seq<bool>,
) -> bool {
    &&& reached.len() == verdicts.len()
    &&& forall|i: int|
        #![trigger reached[i]]
        0 <= i < reached.len() ==> call_ensures(
            limit_reached,
            (candidates[i].address, accepted_before(candidates, verdicts, i)),
            reached[i],
        )
    &&& forall|i: int|
        #![trigger reached[i]]
        0 <= i < reached.len() && reached[i] ==> verdicts[i] == (candidates[i], false)
}

/// Separates the candidate solutions into valid and aborted ones. Each candidate is judged in order:
/// it is not accepted when its prover has reached the limit, given the number of solutions accepted of
/// the prover so far, and is then left as it is; otherwise it is when it passes its check.
pub fn select_solutions<L: Fn(u64, u64) -> bool, C: Fn(&mut Solution) -> bool>(
    candidates: Vec<Solution>,
    max_solutions: usize,
    limit_reached: L,
    check: C,
) -> (split: (Vec<Solution>, Vec<Solution>))
    requires
        // The limit is asked for each candidate once the earlier ones were judged, as long as
        // verification goes on; and only a candidate whose prover has not reached it is checked.
        forall|verdicts: Seq<(Solution, bool)>, reached: Seq<bool>|
            #[trigger] limits_asked(limit_reached, candidates@, verdicts, reached) && verifies_next(
                verdicts,
                candidates@.len(),
                max_solutions as nat,
            ) && (forall|i: int|
                #![trigger reached[i]]
                0 <= i < reached.len() && !reached[i] ==> exists|earlier: &mut Solution|
                    call_ensures(check, (earlier,), verdicts[i].1) && *earlier == candidates@[i]
                        && *final(earlier) == verdicts[i].0) ==> call_requires(
                limit_reached,
                next_limit(candidates@, verdicts),
            ),
        forall|candidate: &mut Solution, verdicts: Seq<(Solution, bool)>, reached: Seq<bool>|
            #![trigger limits_asked(limit_reached, candidates@, verdicts, reached),
                call_requires(check, (candidate,))]
            limits_asked(limit_reached, candidates@, verdicts, reached) && verifies_next(
                verdicts,
                candidates@.len(),
                max_solutions as nat,
            ) && (forall|i: int|
                #![trigger reached[i]]
                0 <= i < reached.len() && !reached[i] ==> exists|earlier: &mut Solution|
                    call_ensures(check, (earlier,), verdicts[i].1) && *earlier == candidates@[i]
                        && *final(earlier) == verdicts[i].0) && *candidate
                == candidates@[verdicts.len() as int] && call_ensures(
                limit_reached,
                next_limit(candidates@, verdicts),
                false,
            ) ==> call_requires(check, (candidate,)),
    ensures
        exists|verdicts: Seq<(Solution, bool)>, reached: Seq<bool>|
            #![trigger limits_asked(limit_reached, candidates@, verdicts, reached)]
            split_outcome(candidates@, max_solutions as nat, verdicts, split.0@, split.1@)
                && limits_asked(limit_reached, candidates@, verdicts, reached) && (forall|i: int|
                #![trigger reached[i]]
                0 <= i < reached.len() && !reached[i] ==> exists|candidate: &mut Solution|
                    call_ensures(check, (candidate,), verdicts[i].1) && *candidate
                        == candidates@[i] && *final(candidate) == verdicts[i].0),
        split.0@.len() <= max_solutions,
        split.0@.len() + split.1@.len() == candidates@.len(),
{
    let ghost given = candidates@;
    assert(given.len() == candidates.len());
    let ghost mut reached: Seq<bool> = Seq::empty();
    let mut accepted = AcceptedSolutions::new();
    let mut run = Split::new(candidates, max_solutions);
    proof {
        lemma_counts_at_first(given);
    }
    let mut pending = run.next_candidate();
    while pending.is_some()
        invariant
            run.wf(),
            run.given() == given,
            run.limit() == max_solutions,
            run.spec_verdicts().len() <= given.len() <= usize::MAX,
            pending is Some <==> run.goes_on(),
            pending matches Some(candidate) ==> candidate
                == given[run.spec_verdicts().len() as int] && verifies_next(
                run.spec_verdicts(),
                given.len(),
                max_solutions as nat,
            ),
            accepted.wf(),
            accepted@ == counts_after(given, run.spec_verdicts()),
            forall|verdicts: Seq<(Solution, bool)>, reached: Seq<bool>|
                #[trigger] limits_asked(limit_reached, given, verdicts, reached) && verifies_next(
                    verdicts,
                    given.len(),
                    max_solutions as nat,
                ) && (forall|i: int|
                    #![trigger reached[i]]
                    0 <= i < reached.len() && !reached[i] ==> exists|earlier: &mut Solution|
                        call_ensures(check, (earlier,), verdicts[i].1) && *earlier == given[i]
                            && *final(earlier) == verdicts[i].0) ==> call_requires(
                    limit_reached,
                    next_limit(given, verdicts),
                ),
            forall|candidate: &mut Solution, verdicts: Seq<(Solution, bool)>, reached: Seq<bool>|
                #![trigger limits_asked(limit_reached, given, verdicts, reached),
                    call_requires(check, (candidate,))]
                limits_asked(limit_reached, given, verdicts, reached) && verifies_next(
                    verdicts,
                    given.len(),
                    max_solutions as nat,
                ) && (forall|i: int|
                    #![trigger reached[i]]
                    0 <= i < reached.len() && !reached[i] ==> exists|earlier: &mut Solution|
                        call_ensures(check, (earlier,), verdicts[i].1) && *earlier == given[i]
                            && *final(earlier) == verdicts[i].0) && *candidate
                    == given[verdicts.len() as int] && call_ensures(
                    limit_reached,
                    next_limit(given, verdicts),
                    false,
                ) ==> call_requires(check, (candidate,)),
            limits_asked(limit_reached, given, run.spec_verdicts(), reached),
            forall|i: int|
                #![trigger reached[i]]
                0 <= i < reached.len() && !reached[i] ==> exists|candidate: &mut Solution|
                    call_ensures(check, (candidate,), run.spec_verdicts()[i].1) && *candidate
                        == given[i] && *final(candidate) == run.spec_verdicts()[i].0,
        decreases given.len() - run.spec_verdicts().len(),
    {
        if let Some(candidate) = pending {
            let ghost before = run.spec_verdicts();
            let ghost answers = reached;
            let mut solution = candidate;
            proof {
                lemma_counts_bound(given, before, solution.address);
                lemma_next_limit(given, before);
                assert(limits_asked(limit_reached, given, before, answers));
            }
            let is_valid = accepted.decide(&mut solution, &limit_reached, &check);
            let ghost verdict = (solution, is_valid);
            run.record(solution, is_valid);
            proof {
                let count = count_of(counts_after(given, before), candidate.address);
                lemma_one_more_verdict(given, before, verdict);
                let is_reached = call_ensures(
                    limit_reached,
                    (candidate.address, count),
                    true,
                ) && verdict == (candidate, false);
                reached = answers.push(is_reached);
                assert forall|i: int|
                    #![trigger reached[i]]
                    0 <= i < reached.len() implies call_ensures(
                    limit_reached,
                    (given[i].address, accepted_before(given, run.spec_verdicts(), i)),
                    reached[i],
                ) by {
                    if i < before.len() {
                        assert(reached[i] == answers[i]);
                    }
                }
                assert forall|i: int|
                    #![trigger reached[i]]
                    0 <= i < reached.len() && reached[i] implies run.spec_verdicts()[i] == (
                    given[i],
                    false,
                ) by {
                    if i < before.len() {
                        assert(reached[i] == answers[i]);
                    }
                }
                assert forall|i: int|
                    #![trigger reached[i]]
                    0 <= i < reached.len() && !reached[i] implies exists|
                    candidate: &mut Solution,
                |
                    call_ensures(check, (candidate,), run.spec_verdicts()[i].1) && *candidate
                        == given[i] && *final(candidate) == run.spec_verdicts()[i].0 by {
                    if i < before.len() {
                        assert(reached[i] == answers[i]);
                        assert(run.spec_verdicts()[i] == before[i]);
                    }
                }
            }
            pending = run.next_candidate();
        }
    }
    let ghost verdicts = run.spec_verdicts();
    let split = run.finish();
    assert(split_outcome(given, max_solutions as nat, verdicts, split.0@, split.1@));
    assert(limits_asked(limit_reached, given, verdicts, reached));
    split
}

/// What the template reads of a committed subdag: the round of its anchor, and its limits at the next
/// height.
#[derive(Copy, Clone, Debug, PartialEq, Eq, Structural)]
pub struct Subdag {
    pub anchor_round: u64,
    pub limits: Limits,
}

/// What a template is constructed from.
#[derive(Copy, Clone, Debug, PartialEq, Eq, Structural)]
pub struct TemplateFacts {
    /// The network ID.
    pub network: u16,
    /// The metadata of the previous block.
    pub previous: Metadata,
    /// The hash of the previous block.
    pub previous_hash: u64,
    /// The subdag of a quorum block; a beacon block has none.
    pub subdag: Option<Subdag>,
    /// The limits of a beacon block at the next height.
    pub beacon_limits: Limits,
    /// The latest epoch hash, when it is known.
    pub epoch_hash: Option<u64>,
    /// The height from which on the finalize state holds timestamps.
    pub timestamps_from: Option<u32>,
}

/// The next coinbase targets and timestamps.
#[derive(Copy, Clone, Debug, PartialEq, Eq, Structural)]
pub struct NextTargets {
    pub coinbase_target: u64,
    pub proof_target: u64,
    pub cumulative_proof_target: u128,
    pub cumulative_weight: u128,
    pub last_coinbase_target: u64,
    pub last_coinbase_timestamp: i64,
}

/// What the outside work gave so far. What it did not give yet is zero.
#[derive(Copy, Clone, Debug, PartialEq, Eq, Structural)]
pub struct Answers {
    pub epoch_hash: u64,
    pub solutions_root: u64,
    pub combined_proof_target: u128,
    pub state_root: u64,
    pub timestamp: i64,
    pub targets: NextTargets,
    pub coinbase_reward: u64,
    pub speculation: Option<SpeculationId>,
    pub ratifications_root: u64,
    pub subdag_root: u64,
    pub transactions_root: u64,
    pub finalize_root: u64,
}

/// How far the construction of a template has come.
#[derive(Copy, Clone, Debug, PartialEq, Eq, Structural)]
pub enum Stage {
    EpochHash,
    Selection,
    Solutions,
    StateRoot,
    Lookback,
    SubdagTimestamp,
    Clock,
    Targets,
    Reward,
    State,
    Speculation,
    RatificationsRoot,
    SubdagRoot,
    Metadata,
    TransactionsRoot,
    FinalizeRoot,
    Header,
    Done,
    Failed,
}

/// What is to be done next for a template.
#[derive(Copy, Clone, Debug, PartialEq, Eq, Structural)]
pub enum TemplateRequest {
    /// Retrieve the epoch hash of the block at the height.
    EpochHash { height: u32 },
    /// Separate the candidate solutions into valid and aborted ones.
    SelectSolutions { epoch_hash: u64, proof_target: u64, timestamp: i64 },
    /// Combine the valid solutions; compute their root and their combined proof target.
    CombineSolutions,
    /// Retrieve the latest state root.
    StateRoot,
    /// Retrieve the committee lookback for the round.
    CommitteeLookback { round: u64 },
    /// Compute the timestamp of the subdag for the committee lookback.
    SubdagTimestamp,
    /// Read the clock.
    Clock,
    /// Calculate the next targets.
    NextTargets {
        height: u32,
        latest_cumulative_proof_target: u128,
        combined_proof_target: u128,
        latest_coinbase_target: u64,
        latest_cumulative_weight: u128,
        last_coinbase_target: u64,
        last_coinbase_timestamp: i64,
        timestamp: i64,
    },
    /// Calculate the coinbase reward.
    CoinbaseReward {
        height: u32,
        timestamp: i64,
        combined_proof_target: u128,
        cumulative_proof_target: u64,
        latest_coinbase_target: u64,
    },
    /// Build the finalize state.
    BuildState(FinalizeStateArgs),
    /// Speculate over the ratifications, solutions and transactions.
    Speculate { time_since_last_block: i64, coinbase_reward: u64 },
    /// Compute the ratifications root.
    RatificationsRoot,
    /// Compute the subdag root.
    SubdagRoot,
    /// Build the metadata.
    BuildMetadata(Metadata),
    /// Compute the transactions root.
    TransactionsRoot,
    /// Compute the finalize root.
    FinalizeRoot,
    /// Build the header.
    BuildHeader(Header),
}

/// What came of a request.
pub enum TemplateReply<E> {
    /// The hash, the root or the amount that was asked for.
    Value(u64),
    /// The root of the valid solutions, and their combined proof target.
    Combined { root: u64, proof_target: u128 },
    /// Whether the committee lookback was found.
    Found(bool),
    /// The timestamp.
    Timestamp(i64),
    /// The next targets.
    Targets(NextTargets),
    /// The id of the speculation.
    Speculated(SpeculationId),
    /// What was to be built is built.
    Built,
    /// The request failed.
    Failed(E),
}

/// Why there is no template.
#[derive(Debug)]
pub enum TemplateError<E> {
    /// The round of the subdag is not after that of the previous block.
    InvalidRound { new: u64, previous: u64 },
    /// The committee lookback was not found.
    NoCommitteeLookback { round: u64 },
    /// The cumulative proof target does not fit its type.
    CumulativeProofTargetTooLarge,
    /// A request failed.
    Other(E),
}

impl TemplateFacts {
    /// The round of the next block: that of the anchor, or the one after the previous round.
    pub open spec fn spec_next_round(self) -> u64 {
        match self.subdag {
            Some(subdag) => subdag.anchor_round,
            None => if self.previous.round < u64::MAX {
                (self.previous.round + 1) as u64
            } else {
                u64::MAX
            },
        }
    }

    /// The round of the subdag is not after that of the previous block.
    pub open spec fn round_is_invalid(self) -> bool {
        self.subdag matches Some(subdag) && self.previous.round >= subdag.anchor_round
    }

    /// The round whose committee lookback gives the timestamp: the one before the anchor.
    pub open spec fn spec_penultimate_round(self) -> u64 {
        match self.subdag {
            Some(subdag) if subdag.anchor_round > 0 => (subdag.anchor_round - 1) as u64,
            _ => 0,
        }
    }

    /// The height of the next block.
    pub open spec fn spec_next_height(self) -> u32 {
        if self.previous.height < u32::MAX {
            (self.previous.height + 1) as u32
        } else {
            u32::MAX
        }
    }

    /// The limits of the next block.
    pub open spec fn spec_limits(self) -> Limits {
        match self.subdag {
            Some(subdag) => subdag.limits,
            None => self.beacon_limits,
        }
    }

    /// What the finalize state of the next block is built from.
    pub open spec fn spec_state_args(self, answers: Answers) -> FinalizeStateArgs {
        FinalizeStateArgs {
            round: self.spec_next_round(),
            height: self.spec_next_height(),
            timestamp: included_timestamp(
                self.spec_next_height(),
                answers.timestamp,
                self.timestamps_from,
            ),
            cumulative_weight: answers.targets.cumulative_weight,
            cumulative_proof_target: answers.targets.cumulative_proof_target,
            previous_hash: self.previous_hash,
            limits: self.spec_limits(),
        }
    }

    /// The time since the previous block, as near as its type can hold it.
    pub open spec fn spec_time_since_last_block(self, answers: Answers) -> i64 {
        let elapsed = answers.timestamp - self.previous.timestamp;
        if elapsed > i64::MAX {
            i64::MAX
        } else if elapsed < i64::MIN {
            i64::MIN
        } else {
            elapsed as i64
        }
    }

    /// The metadata of the next block.
    pub open spec fn spec_metadata(self, answers: Answers) -> Metadata {
        Metadata {
            network: self.network,
            round: self.spec_next_round(),
            height: self.spec_next_height(),
            cumulative_weight: answers.targets.cumulative_weight,
            cumulative_proof_target: answers.targets.cumulative_proof_target,
            coinbase_target: answers.targets.coinbase_target,
            proof_target: answers.targets.proof_target,
            last_coinbase_target: answers.targets.last_coinbase_target,
            last_coinbase_timestamp: answers.targets.last_coinbase_timestamp,
            timestamp: answers.timestamp,
        }
    }

    /// The header of the next block.
    pub open spec fn spec_header(self, answers: Answers) -> Header {
        Header {
            previous_state_root: answers.state_root,
            transactions_root: answers.transactions_root,
            finalize_root: answers.finalize_root,
            ratifications_root: answers.ratifications_root,
            solutions_root: answers.solutions_root,
            subdag_root: answers.subdag_root,
            metadata: self.spec_metadata(answers),
        }
    }

    /// Returns the height of the next block.
    pub fn next_height(&self) -> (height: u32)
        ensures
            height == self.spec_next_height(),
    {
        self.previous.height.saturating_add(1)
    }

    fn next_round(&self) -> (round: u64)
        ensures
            round == self.spec_next_round(),
    {
        match self.subdag {
            Some(subdag) => subdag.anchor_round,
            None => self.previous.round.saturating_add(1),
        }
    }

    fn penultimate_round(&self) -> (round: u64)
        ensures
            round == self.spec_penultimate_round(),
    {
        match self.subdag {
            Some(subdag) => subdag.anchor_round.saturating_sub(1),
            None => 0,
        }
    }

    fn state_args(&self, answers: Answers) -> (args: FinalizeStateArgs)
        ensures
            args == self.spec_state_args(answers),
    {
        let limits = match self.subdag {
            Some(subdag) => subdag.limits,
            None => self.beacon_limits,
        };
        FinalizeStateArgs {
            round: self.next_round(),
            height: self.next_height(),
            timestamp: include_timestamp(
                self.next_height(),
                answers.timestamp,
                self.timestamps_from,
            ),
            cumulative_weight: answers.targets.cumulative_weight,
            cumulative_proof_target: answers.targets.cumulative_proof_target,
            previous_hash: self.previous_hash,
            limits,
        }
    }

    fn time_since_last_block(&self, answers: Answers) -> (elapsed: i64)
        ensures
            elapsed == self.spec_time_since_last_block(answers),
    {
        let elapsed: i128 = answers.timestamp as i128 - self.previous.timestamp as i128;
        if elapsed > i64::MAX as i128 {
            i64::MAX
        } else if elapsed < i64::MIN as i128 {
            i64::MIN
        } else {
            elapsed as i64
        }
    }

    fn metadata(&self, answers: Answers) -> (metadata: Metadata)
        ensures
            metadata == self.spec_metadata(answers),
    {
        Metadata {
            network: self.network,
            round: self.next_round(),
            height: self.next_height(),
            cumulative_weight: answers.targets.cumulative_weight,
            cumulative_proof_target: answers.targets.cumulative_proof_target,
            coinbase_target: answers.targets.coinbase_target,
            proof_target: answers.targets.proof_target,
            last_coinbase_target: answers.targets.last_coinbase_target,
            last_coinbase_timestamp: answers.targets.last_coinbase_timestamp,
            timestamp: answers.timestamp,
        }
    }

    fn header(&self, answers: Answers) -> (header: Header)
        ensures
            header == self.spec_header(answers),
    {
        Header {
            previous_state_root: answers.state_root,
            transactions_root: answers.transactions_root,
            finalize_root: answers.finalize_root,
            ratifications_root: answers.ratifications_root,
            solutions_root: answers.solutions_root,
            subdag_root: answers.subdag_root,
            metadata: self.metadata(answers),
        }
    }
}

/// The answers before anything was asked.
pub open spec fn no_answers() -> Answers {
    Answers {
        epoch_hash: 0,
        solutions_root: ZERO_ROOT,
        combined_proof_target: 0,
        state_root: 0,
        timestamp: 0,
        targets: NextTargets {
            coinbase_target: 0,
            proof_target: 0,
            cumulative_proof_target: 0,
            cumulative_weight: 0,
            last_coinbase_target: 0,
            last_coinbase_timestamp: 0,
        },
        coinbase_reward: 0,
        speculation: None,
        ratifications_root: ZERO_ROOT,
        subdag_root: ZERO_ROOT,
        transactions_root: ZERO_ROOT,
        finalize_root: ZERO_ROOT,
    }
}

/// The first stage: solutions are only looked at when there are candidates, and the epoch hash is
/// only retrieved when it is not known.
pub open spec fn first_stage(facts: TemplateFacts, num_candidates: nat) -> Stage {
    if num_candidates == 0 {
        Stage::StateRoot
    } else if facts.epoch_hash is None {
        Stage::EpochHash
    } else {
        Stage::Selection
    }
}

/// The stage after the solutions were selected: without valid ones there is nothing to combine.
pub open spec fn stage_after_selection(num_valid: nat) -> Stage {
    if num_valid == 0 {
        Stage::StateRoot
    } else {
        Stage::Solutions
    }
}

/// The request of a stage; none when the template is done or has failed.
pub open spec fn request_of(
    facts: TemplateFacts,
    stage: Stage,
    answers: Answers,
) -> Option<TemplateRequest> {
    match stage {
        Stage::EpochHash => Some(TemplateRequest::EpochHash { height: facts.previous.height }),
        Stage::Selection => Some(
            TemplateRequest::SelectSolutions {
                epoch_hash: match facts.epoch_hash {
                    Some(epoch_hash) => epoch_hash,
                    None => answers.epoch_hash,
                },
                proof_target: facts.previous.proof_target,
                timestamp: facts.previous.timestamp,
            },
        ),
        Stage::Solutions => Some(TemplateRequest::CombineSolutions),
        Stage::StateRoot => Some(TemplateRequest::StateRoot),
        Stage::Lookback => Some(
            TemplateRequest::CommitteeLookback { round: facts.spec_penultimate_round() },
        ),
        Stage::SubdagTimestamp => Some(TemplateRequest::SubdagTimestamp),
        Stage::Clock => Some(TemplateRequest::Clock),
        Stage::Targets => Some(
            TemplateRequest::NextTargets {
                height: facts.spec_next_height(),
                latest_cumulative_proof_target: facts.previous.cumulative_proof_target,
                combined_proof_target: answers.combined_proof_target,
                latest_coinbase_target: facts.previous.coinbase_target,
                latest_cumulative_weight: facts.previous.cumulative_weight,
                last_coinbase_target: facts.previous.last_coinbase_target,
                last_coinbase_timestamp: facts.previous.last_coinbase_timestamp,
                timestamp: answers.timestamp,
            },
        ),
        Stage::Reward => Some(
            TemplateRequest::CoinbaseReward {
                height: facts.spec_next_height(),
                timestamp: answers.timestamp,
                combined_proof_target: answers.combined_proof_target,
                cumulative_proof_target: facts.previous.cumulative_proof_target as u64,
                latest_coinbase_target: facts.previous.coinbase_target,
            },
        ),
        Stage::State => Some(TemplateRequest::BuildState(facts.spec_state_args(answers))),
        Stage::Speculation => Some(
            TemplateRequest::Speculate {
                time_since_last_block: facts.spec_time_since_last_block(answers),
                coinbase_reward: answers.coinbase_reward,
            },
        ),
        Stage::RatificationsRoot => Some(TemplateRequest::RatificationsRoot),
        Stage::SubdagRoot => Some(TemplateRequest::SubdagRoot),
        Stage::Metadata => Some(TemplateRequest::BuildMetadata(facts.spec_metadata(answers))),
        Stage::TransactionsRoot => Some(TemplateRequest::TransactionsRoot),
        Stage::FinalizeRoot => Some(TemplateRequest::FinalizeRoot),
        Stage::Header => Some(TemplateRequest::BuildHeader(facts.spec_header(answers))),
        Stage::Done => None,
        Stage::Failed => None,
    }
}

/// The outcome of a stage: the next stage with the answers, or why there is no template.
pub enum Outcome<E> {
    Next(Stage, Answers),
    Error(TemplateError<E>),
}

/// The outcome of a reply. A reply that does not fit the request leaves everything as it is.
pub open spec fn outcome_of<E>(
    facts: TemplateFacts,
    stage: Stage,
    answers: Answers,
    reply: TemplateReply<E>,
) -> Outcome<E> {
    match (stage, reply) {
        (Stage::Done, _) => Outcome::Next(stage, answers),
        (Stage::Failed, _) => Outcome::Next(stage, answers),
        (_, TemplateReply::Failed(error)) => Outcome::Error(TemplateError::Other(error)),
        (Stage::EpochHash, TemplateReply::Value(epoch_hash)) => Outcome::Next(
            Stage::Selection,
            Answers { epoch_hash, ..answers },
        ),
        (Stage::Solutions, TemplateReply::Combined { root, proof_target }) => Outcome::Next(
            Stage::StateRoot,
            Answers { solutions_root: root, combined_proof_target: proof_target, ..answers },
        ),
        (Stage::StateRoot, TemplateReply::Value(state_root)) => match facts.subdag {
            // The round must advance.
            Some(subdag) => if facts.round_is_invalid() {
                Outcome::Error(
                    TemplateError::InvalidRound {
                        new: subdag.anchor_round,
                        previous: facts.previous.round,
                    },
                )
            } else {
                Outcome::Next(Stage::Lookback, Answers { state_root, ..answers })
            },
            None => Outcome::Next(Stage::Clock, Answers { state_root, ..answers }),
        },
        (Stage::Lookback, TemplateReply::Found(found)) => if found {
            Outcome::Next(Stage::SubdagTimestamp, answers)
        } else {
            Outcome::Error(
                TemplateError::NoCommitteeLookback { round: facts.spec_penultimate_round() },
            )
        },
        (Stage::SubdagTimestamp, TemplateReply::Timestamp(timestamp)) => Outcome::Next(
            Stage::Targets,
            Answers { timestamp, ..answers },
        ),
        (Stage::Clock, TemplateReply::Timestamp(timestamp)) => Outcome::Next(
            Stage::Targets,
            Answers { timestamp, ..answers },
        ),
        (Stage::Targets, TemplateReply::Targets(targets)) => if facts.previous.cumulative_proof_target
            > u64::MAX {
            Outcome::Error(TemplateError::CumulativeProofTargetTooLarge)
        } else {
            Outcome::Next(Stage::Reward, Answers { targets, ..answers })
        },
        (Stage::Reward, TemplateReply::Value(coinbase_reward)) => Outcome::Next(
            Stage::State,
            Answers { coinbase_reward, ..answers },
        ),
        (Stage::State, TemplateReply::Built) => Outcome::Next(Stage::Speculation, answers),
        (Stage::Speculation, TemplateReply::Speculated(id)) => Outcome::Next(
            Stage::RatificationsRoot,
            Answers { speculation: Some(id), ..answers },
        ),
        (Stage::RatificationsRoot, TemplateReply::Value(ratifications_root)) => Outcome::Next(
            if facts.subdag is Some {
                Stage::SubdagRoot
            } else {
                Stage::Metadata
            },
            Answers { ratifications_root, ..answers },
        ),
        (Stage::SubdagRoot, TemplateReply::Value(subdag_root)) => Outcome::Next(
            Stage::Metadata,
            Answers { subdag_root, ..answers },
        ),
        (Stage::Metadata, TemplateReply::Built) => Outcome::Next(Stage::TransactionsRoot, answers),
        (Stage::TransactionsRoot, TemplateReply::Value(transactions_root)) => Outcome::Next(
            Stage::FinalizeRoot,
            Answers { transactions_root, ..answers },
        ),
        (Stage::FinalizeRoot, TemplateReply::Value(finalize_root)) => Outcome::Next(
            Stage::Header,
            Answers { finalize_root, ..answers },
        ),
        (Stage::Header, TemplateReply::Built) => Outcome::Next(Stage::Done, answers),
        _ => Outcome::Next(stage, answers),
    }
}

/// The stages after the speculation.
pub open spec fn follows_speculation(stage: Stage) -> bool {
    match stage {
        Stage::RatificationsRoot => true,
        Stage::SubdagRoot => true,
        Stage::Metadata => true,
        Stage::TransactionsRoot => true,
        Stage::FinalizeRoot => true,
        Stage::Header => true,
        Stage::Done => true,
        _ => false,
    }
}

/// The construction of the template of the next block.
pub struct Template<E> {
    facts: TemplateFacts,
    candidates: Vec<Solution>,
    max_solutions: usize,
    stage: Stage,
    answers: Answers,
    error: Option<TemplateError<E>>,
    valid: Vec<Solution>,
    aborted: Vec<Solution>,
}

/// The IDs of the given solutions, in order.
pub open spec fn ids_of(solutions: Seq<Solution>) -> Seq<u64> {
    solutions.map_values(|solution: Solution| solution.id)
}

impl<E> Template<E> {
    pub closed spec fn spec_facts(&self) -> TemplateFacts {
        self.facts
    }

    pub closed spec fn spec_stage(&self) -> Stage {
        self.stage
    }

    pub closed spec fn spec_answers(&self) -> Answers {
        self.answers
    }

    pub closed spec fn spec_error(&self) -> Option<TemplateError<E>> {
        self.error
    }

    /// The valid solutions.
    pub closed spec fn spec_valid(&self) -> Seq<Solution> {
        self.valid@
    }

    /// The aborted solutions.
    pub closed spec fn spec_aborted(&self) -> Seq<Solution> {
        self.aborted@
    }

    /// The candidate solutions.
    pub closed spec fn spec_candidates(&self) -> Seq<Solution> {
        self.candidates@
    }

    /// The number of solutions that a block can have.
    pub closed spec fn spec_max(&self) -> nat {
        self.max_solutions as nat
    }

    /// The construction has failed exactly when there is an error, the request for the coinbase
    /// reward is only made with a cumulative proof target that fits its type, and what follows the
    /// speculation has its id. Before the selection no candidate is valid or aborted, after it each is
    /// one of these, and there are no more valid ones than a block can have.
    pub open spec fn wf(&self) -> bool {
        &&& self.spec_valid().len() <= self.spec_max()
        &&& match self.spec_stage() {
            Stage::EpochHash | Stage::Selection => self.spec_valid().len() == 0
                && self.spec_aborted().len() == 0,
            Stage::Failed => self.spec_valid().len() + self.spec_aborted().len() == 0
                || self.spec_valid().len() + self.spec_aborted().len()
                == self.spec_candidates().len(),
            _ => self.spec_valid().len() + self.spec_aborted().len()
                == self.spec_candidates().len(),
        }
        &&& self.spec_stage() is Failed <==> self.spec_error() is Some
        &&& follows_speculation(self.spec_stage()) ==> self.spec_answers().speculation is Some
        &&& self.spec_stage() is Reward ==> self.spec_facts().previous.cumulative_proof_target
            <= u64::MAX
    }

    /// Starts to construct a template, with the given candidate solutions for a block that can have the
    /// given number of them.
    pub fn new(facts: TemplateFacts, candidates: Vec<Solution>, max_solutions: usize) -> (template:
        Template<E>)
        ensures
            template.wf(),
            template.spec_facts() == facts,
            template.spec_candidates() == candidates@,
            template.spec_max() == max_solutions,
            template.spec_stage() == first_stage(facts, candidates@.len()),
            template.spec_answers() == no_answers(),
            template.spec_error() is None,
            template.spec_valid() == Seq::<Solution>::empty(),
            template.spec_aborted() == Seq::<Solution>::empty(),
    {
        let stage = if candidates.len() == 0 {
            Stage::StateRoot
        } else if facts.epoch_hash.is_none() {
            Stage::EpochHash
        } else {
            Stage::Selection
        };
        let targets = NextTargets {
            coinbase_target: 0,
            proof_target: 0,
            cumulative_proof_target: 0,
            cumulative_weight: 0,
            last_coinbase_target: 0,
            last_coinbase_timestamp: 0,
        };
        let answers = Answers {
            epoch_hash: 0,
            solutions_root: ZERO_ROOT,
            combined_proof_target: 0,
            state_root: 0,
            timestamp: 0,
            targets,
            coinbase_reward: 0,
            speculation: None,
            ratifications_root: ZERO_ROOT,
            subdag_root: ZERO_ROOT,
            transactions_root: ZERO_ROOT,
            finalize_root: ZERO_ROOT,
        };
        Template {
            facts,
            candidates,
            max_solutions,
            stage,
            answers,
            error: None,
            valid: Vec::new(),
            aborted: Vec::new(),
        }
    }

    /// Returns the request to fulfil, or `None` when the template is done or has failed.
    pub fn request(&self) -> (request: Option<TemplateRequest>)
        requires
            self.wf(),
        ensures
            request == request_of(self.spec_facts(), self.spec_stage(), self.spec_answers()),
    {
        let facts = self.facts;
        let answers = self.answers;
        match self.stage {
            Stage::EpochHash => Some(TemplateRequest::EpochHash { height: facts.previous.height }),
            Stage::Selection => Some(
                TemplateRequest::SelectSolutions {
                    epoch_hash: match facts.epoch_hash {
                        Some(epoch_hash) => epoch_hash,
                        None => answers.epoch_hash,
                    },
                    proof_target: facts.previous.proof_target,
                    timestamp: facts.previous.timestamp,
                },
            ),
            Stage::Solutions => Some(TemplateRequest::CombineSolutions),
            Stage::StateRoot => Some(TemplateRequest::StateRoot),
            Stage::Lookback => Some(
                TemplateRequest::CommitteeLookback { round: facts.penultimate_round() },
            ),
            Stage::SubdagTimestamp => Some(TemplateRequest::SubdagTimestamp),
            Stage::Clock => Some(TemplateRequest::Clock),
            Stage::Targets => Some(
                TemplateRequest::NextTargets {
                    height: facts.next_height(),
                    latest_cumulative_proof_target: facts.previous.cumulative_proof_target,
                    combined_proof_target: answers.combined_proof_target,
                    latest_coinbase_target: facts.previous.coinbase_target,
                    latest_cumulative_weight: facts.previous.cumulative_weight,
                    last_coinbase_target: facts.previous.last_coinbase_target,
                    last_coinbase_timestamp: facts.previous.last_coinbase_timestamp,
                    timestamp: answers.timestamp,
                },
            ),
            Stage::Reward => Some(
                TemplateRequest::CoinbaseReward {
                    height: facts.next_height(),
                    timestamp: answers.timestamp,
                    combined_proof_target: answers.combined_proof_target,
                    cumulative_proof_target: facts.previous.cumulative_proof_target as u64,
                    latest_coinbase_target: facts.previous.coinbase_target,
                },
            ),
            Stage::State => Some(TemplateRequest::BuildState(facts.state_args(answers))),
            Stage::Speculation => Some(
                TemplateRequest::Speculate {
                    time_since_last_block: facts.time_since_last_block(answers),
                    coinbase_reward: answers.coinbase_reward,
                },
            ),
            Stage::RatificationsRoot => Some(TemplateRequest::RatificationsRoot),
            Stage::SubdagRoot => Some(TemplateRequest::SubdagRoot),
            Stage::Metadata => Some(TemplateRequest::BuildMetadata(facts.metadata(answers))),
            Stage::TransactionsRoot => Some(TemplateRequest::TransactionsRoot),
            Stage::FinalizeRoot => Some(TemplateRequest::FinalizeRoot),
            Stage::Header => Some(TemplateRequest::BuildHeader(facts.header(answers))),
            Stage::Done => None,
            Stage::Failed => None,
        }
    }

    /// Takes the reply to the request. The request to select the solutions has no reply, except that it
    /// failed: `select` fulfils it.
    pub fn reply(self, reply: TemplateReply<E>) -> (next: Template<E>)
        requires
            self.wf(),
        ensures
            next.wf(),
            next.spec_facts() == self.spec_facts(),
            match outcome_of(self.spec_facts(), self.spec_stage(), self.spec_answers(), reply) {
                Outcome::Next(stage, answers) => next.spec_stage() == stage && next.spec_answers()
                    == answers && next.spec_error() == self.spec_error(),
                Outcome::Error(error) => next.spec_stage() is Failed && next.spec_answers()
                    == self.spec_answers() && next.spec_error() == Some(error),
            },
            next.spec_candidates() == self.spec_candidates(),
            next.spec_max() == self.spec_max(),
            next.spec_valid() == self.spec_valid(),
            next.spec_aborted() == self.spec_aborted(),
    {
        let mut next = self;
        match (next.stage, reply) {
            (Stage::Done, _) => {},
            (Stage::Failed, _) => {},
            (_, TemplateReply::Failed(error)) => {
                next.stage = Stage::Failed;
                next.error = Some(TemplateError::Other(error));
            },
            (Stage::EpochHash, TemplateReply::Value(epoch_hash)) => {
                next.answers.epoch_hash = epoch_hash;
                next.stage = Stage::Selection;
            },
            (Stage::Solutions, TemplateReply::Combined { root, proof_target }) => {
                next.answers.solutions_root = root;
                next.answers.combined_proof_target = proof_target;
                next.stage = Stage::StateRoot;
            },
            (Stage::StateRoot, TemplateReply::Value(state_root)) => match next.facts.subdag {
                Some(subdag) => if next.facts.previous.round >= subdag.anchor_round {
                    next.stage = Stage::Failed;
                    next.error = Some(
                        TemplateError::InvalidRound {
                            new: subdag.anchor_round,
                            previous: next.facts.previous.round,
                        },
                    );
                } else {
                    next.answers.state_root = state_root;
                    next.stage = Stage::Lookback;
                },
                None => {
                    next.answers.state_root = state_root;
                    next.stage = Stage::Clock;
                },
            },
            (Stage::Lookback, TemplateReply::Found(found)) => if found {
                next.stage = Stage::SubdagTimestamp;
            } else {
                next.stage = Stage::Failed;
                next.error = Some(
                    TemplateError::NoCommitteeLookback { round: next.facts.penultimate_round() },
                );
            },
            (Stage::SubdagTimestamp, TemplateReply::Timestamp(timestamp)) => {
                next.answers.timestamp = timestamp;
                next.stage = Stage::Targets;
            },
            (Stage::Clock, TemplateReply::Timestamp(timestamp)) => {
                next.answers.timestamp = timestamp;
                next.stage = Stage::Targets;
            },
            (Stage::Targets, TemplateReply::Targets(targets)) => {
                if next.facts.previous.cumulative_proof_target > u64::MAX as u128 {
                    next.stage = Stage::Failed;
                    next.error = Some(TemplateError::CumulativeProofTargetTooLarge);
                } else {
                    next.answers.targets = targets;
                    next.stage = Stage::Reward;
                }
            },
            (Stage::Reward, TemplateReply::Value(coinbase_reward)) => {
                next.answers.coinbase_reward = coinbase_reward;
                next.stage = Stage::State;
            },
            (Stage::State, TemplateReply::Built) => {
                next.stage = Stage::Speculation;
            },
            (Stage::Speculation, TemplateReply::Speculated(id)) => {
                next.answers.speculation = Some(id);
                next.stage = Stage::RatificationsRoot;
            },
            (Stage::RatificationsRoot, TemplateReply::Value(ratifications_root)) => {
                next.answers.ratifications_root = ratifications_root;
                next.stage = if next.facts.subdag.is_some() {
                    Stage::SubdagRoot
                } else {
                    Stage::Metadata
                };
            },
            (Stage::SubdagRoot, TemplateReply::Value(subdag_root)) => {
                next.answers.subdag_root = subdag_root;
                next.stage = Stage::Metadata;
            },
            (Stage::Metadata, TemplateReply::Built) => {
                next.stage = Stage::TransactionsRoot;
            },
            (Stage::TransactionsRoot, TemplateReply::Value(transactions_root)) => {
                next.answers.transactions_root = transactions_root;
                next.stage = Stage::FinalizeRoot;
            },
            (Stage::FinalizeRoot, TemplateReply::Value(finalize_root)) => {
                next.answers.finalize_root = finalize_root;
                next.stage = Stage::Header;
            },
            (Stage::Header, TemplateReply::Built) => {
                next.stage = Stage::Done;
            },
            _ => {},
        }
        next
    }

    /// Fulfils the request to select the solutions: separates the candidates into valid and aborted
    /// ones. Without valid solutions there is nothing to combine.
    pub fn select<L: Fn(u64, u64) -> bool, C: Fn(&mut Solution) -> bool>(
        self,
        limit_reached: L,
        check: C,
    ) -> (next: Template<E>)
        requires
            self.wf(),
            self.spec_stage() is Selection,
            // The limit is asked for each candidate once the earlier ones were judged, as long as
            // verification goes on; and only a candidate whose prover has not reached it is checked.
            forall|verdicts: Seq<(Solution, bool)>, reached: Seq<bool>|
                #[trigger] limits_asked(
                    limit_reached,
                    self.spec_candidates(),
                    verdicts,
                    reached,
                ) && verifies_next(
                    verdicts,
                    self.spec_candidates().len(),
                    self.spec_max(),
                ) && (forall|i: int|
                    #![trigger reached[i]]
                    0 <= i < reached.len() && !reached[i] ==> exists|earlier: &mut Solution|
                        call_ensures(check, (earlier,), verdicts[i].1) && *earlier
                            == self.spec_candidates()[i] && *final(earlier) == verdicts[i].0)
                    ==> call_requires(
                    limit_reached,
                    next_limit(self.spec_candidates(), verdicts),
                ),
            forall|candidate: &mut Solution, verdicts: Seq<(Solution, bool)>, reached: Seq<bool>|
                #![trigger limits_asked(limit_reached, self.spec_candidates(), verdicts, reached),
                    call_requires(check, (candidate,))]
                limits_asked(
                    limit_reached,
                    self.spec_candidates(),
                    verdicts,
                    reached,
                ) && verifies_next(
                    verdicts,
                    self.spec_candidates().len(),
                    self.spec_max(),
                ) && (forall|i: int|
                    #![trigger reached[i]]
                    0 <= i < reached.len() && !reached[i] ==> exists|earlier: &mut Solution|
                        call_ensures(check, (earlier,), verdicts[i].1) && *earlier
                            == self.spec_candidates()[i] && *final(earlier) == verdicts[i].0)
                    && *candidate == self.spec_candidates()[verdicts.len() as int] && call_ensures(
                    limit_reached,
                    next_limit(self.spec_candidates(), verdicts),
                    false,
                ) ==> call_requires(check, (candidate,)),
        ensures
            next.wf(),
            next.spec_facts() == self.spec_facts(),
            next.spec_candidates() == self.spec_candidates(),
            next.spec_max() == self.spec_max(),
            next.spec_answers() == self.spec_answers(),
            next.spec_error() == self.spec_error(),
            next.spec_stage() == stage_after_selection(next.spec_valid().len()),
            exists|verdicts: Seq<(Solution, bool)>, reached: Seq<bool>|
                #![trigger limits_asked(limit_reached, self.spec_candidates(), verdicts, reached)]
                split_outcome(
                    self.spec_candidates(),
                    self.spec_max(),
                    verdicts,
                    next.spec_valid(),
                    next.spec_aborted(),
                ) && limits_asked(limit_reached, self.spec_candidates(), verdicts, reached) && (
                forall|i: int|
                    #![trigger reached[i]]
                    0 <= i < reached.len() && !reached[i] ==> exists|candidate: &mut Solution|
                        call_ensures(check, (candidate,), verdicts[i].1) && *candidate
                            == self.spec_candidates()[i] && *final(candidate) == verdicts[i].0),
    {
        let mut next = self;
        let candidates = copy_solutions(&next.candidates);
        let max_solutions = next.max_solutions;
        assert(candidates@ == self.spec_candidates() && max_solutions as nat == self.spec_max());
        let (valid, aborted) = select_solutions(
            candidates,
            max_solutions,
            limit_reached,
            check,
        );
        next.stage = if valid.len() == 0 {
            Stage::StateRoot
        } else {
            Stage::Solutions
        };
        next.valid = valid;
        next.aborted = aborted;
        next
    }

    /// Returns the valid solutions.
    pub fn solutions(&self) -> (solutions: &Vec<Solution>)
        ensures
            solutions@ == self.spec_valid(),
    {
        &self.valid
    }

    /// Returns what the speculate of the template is performed on: the finalize state of the next
    /// block, the valid solutions, and the given ratifications and transactions. Nothing says yet under
    /// which id its finalize batch is kept.
    pub fn speculate_args(&self, ratifications: Vec<Ratify>, transactions: Vec<u64>) -> (args:
        SpeculateArgs)
        ensures
            args.state == FinalizeState::Block(self.spec_facts().spec_state_args(self.spec_answers())),
            args.time_since_last_block == self.spec_facts().spec_time_since_last_block(
                self.spec_answers(),
            ),
            args.coinbase_reward == Some(self.spec_answers().coinbase_reward),
            args.ratifications@ == ratifications@,
            args.solutions@ == self.spec_valid(),
            args.transactions@ == transactions@,
            args.keep is None,
    {
        SpeculateArgs {
            state: FinalizeState::Block(self.facts.state_args(self.answers)),
            time_since_last_block: self.facts.time_since_last_block(self.answers),
            coinbase_reward: Some(self.answers.coinbase_reward),
            ratifications,
            solutions: copy_solutions(&self.valid),
            transactions,
            keep: None,
        }
    }

    /// Returns the IDs of the aborted solutions.
    pub fn aborted_solution_ids(&self) -> (ids: Vec<u64>)
        ensures
            ids@ == ids_of(self.spec_aborted()),
    {
        let mut ids: Vec<u64> = Vec::new();
        let mut i: usize = 0;
        while i < self.aborted.len()
            invariant
                i <= self.aborted@.len(),
                ids@ == ids_of(self.aborted@).take(i as int),
            decreases self.aborted@.len() - i,
        {
            ids.push(self.aborted[i].id);
            i = i + 1;
            proof {
                assert(ids@ =~= ids_of(self.aborted@).take(i as int));
            }
        }
        proof {
            assert(ids@ =~= ids_of(self.aborted@));
        }
        ids
    }

    /// Returns the header of a template that is done, with the id of its speculation; or the error of
    /// one that has failed; or `None` when it is neither.
    pub fn into_result(self) -> (result: Option<
        Result<(Header, SpeculationId), TemplateError<E>>,
    >)
        requires
            self.wf(),
        ensures
            match self.spec_stage() {
                Stage::Done => result == Some(
                    Ok::<_, TemplateError<E>>(
                        (
                            self.spec_facts().spec_header(self.spec_answers()),
                            self.spec_answers().speculation->0,
                        ),
                    ),
                ),
                Stage::Failed => result == Some(
                    Err::<(Header, SpeculationId), _>(self.spec_error()->0),
                ),
                _ => result is None,
            },
    {
        match self.stage {
            Stage::Done => match self.answers.speculation {
                Some(id) => Some(Ok((self.facts.header(self.answers), id))),
                None => None,
            },
            Stage::Failed => match self.error {
                Some(error) => Some(Err(error)),
                None => None,
            },
            _ => None,
        }
    }
}

/// What a split makes of each candidate has the ID of the candidate, as long as the verification leaves
/// the IDs as they are: the IDs of the valid and the aborted solutions are those of the candidates.
pub proof fn law_split_keeps_ids(
    candidates: Seq<Solution>,
    max: nat,
    verdicts: Seq<(Solution, bool)>,
    valid: Seq<Solution>,
    aborted: Seq<Solution>,
)
    requires
        split_outcome(candidates, max, verdicts, valid, aborted),
        forall|i: int| 0 <= i < verdicts.len() ==> (#[trigger] verdicts[i]).0.id == candidates[i].id,
    ensures
        ids_of(valid).to_multiset().add(ids_of(aborted).to_multiset()) == ids_of(
            candidates,
        ).to_multiset(),
{
    let judged = candidates.take(verdicts.len() as int);
    let rest = candidates.skip(verdicts.len() as int);
    assert forall|i: int| 0 <= i < verdicts.len() implies (#[trigger] verdicts[i]).0.id
        == judged[i].id by {}
    lemma_verdicts_keep_ids(judged, max, verdicts);
    let refused_ids = ids_of(refused(verdicts, max));
    assert(ids_of(aborted) =~= refused_ids + ids_of(rest));
    vstd::seq_lib::lemma_multiset_commutative(refused_ids, ids_of(rest));
    assert(ids_of(candidates) =~= ids_of(judged) + ids_of(rest));
    vstd::seq_lib::lemma_multiset_commutative(ids_of(judged), ids_of(rest));
    assert(ids_of(valid).to_multiset().add(ids_of(aborted).to_multiset()) =~= ids_of(
        candidates,
    ).to_multiset());
}

/// The accepted and the refused candidates have the IDs of those that were judged.
proof fn lemma_verdicts_keep_ids(
    judged: Seq<Solution>,
    max: nat,
    verdicts: Seq<(Solution, bool)>,
)
    requires
        judged.len() == verdicts.len(),
        forall|i: int| 0 <= i < verdicts.len() ==> (#[trigger] verdicts[i]).0.id == judged[i].id,
    ensures
        ids_of(accepted(verdicts, max)).to_multiset().add(
            ids_of(refused(verdicts, max)).to_multiset(),
        ) == ids_of(judged).to_multiset(),
    decreases verdicts.len(),
{
    broadcast use vstd::seq_lib::group_to_multiset_ensures;

    if verdicts.len() > 0 {
        let (fewer, earlier) = (verdicts.drop_last(), judged.drop_last());
        assert forall|i: int| 0 <= i < fewer.len() implies (#[trigger] fewer[i]).0.id
            == earlier[i].id by {
            assert(fewer[i] == verdicts[i]);
        }
        lemma_verdicts_keep_ids(earlier, max, fewer);
        let last = verdicts.last().0;
        assert(verdicts[verdicts.len() - 1].0.id == judged[verdicts.len() - 1].id);
        assert(ids_of(judged) =~= ids_of(earlier).push(last.id));
        if verdicts.last().1 && accepted(fewer, max).len() < max {
            assert(ids_of(accepted(verdicts, max)) =~= ids_of(accepted(fewer, max)).push(last.id));
        } else {
            assert(ids_of(refused(verdicts, max)) =~= ids_of(refused(fewer, max)).push(last.id));
        }
        assert(ids_of(accepted(verdicts, max)).to_multiset().add(
            ids_of(refused(verdicts, max)).to_multiset(),
        ) =~= ids_of(judged).to_multiset());
    } else {
        assert(ids_of(judged) =~= Seq::empty());
        assert(ids_of(accepted(verdicts, max)) =~= Seq::empty());
        assert(ids_of(refused(verdicts, max)) =~= Seq::empty());
        assert(ids_of(judged).to_multiset() =~= vstd::multiset::Multiset::empty());
    }
}

/// A template that gets past its state root has a later round than the previous block, unless the
/// rounds have run out.
pub proof fn law_round_advances(facts: TemplateFacts)
    requires
        !facts.round_is_invalid(),
        facts.previous.round < u64::MAX,
    ensures
        facts.spec_next_round() > facts.previous.round,
{
}

/// The height of a template is one more than that of the previous block, unless the heights have run
/// out.
pub proof fn law_height_advances(facts: TemplateFacts)
    requires
        facts.previous.height < u32::MAX,
    ensures
        facts.spec_next_height() == facts.previous.height + 1,
{
}

/// The finalize state that is speculated on agrees with the header that the template gets.
pub proof fn law_state_agrees_with_header(facts: TemplateFacts, answers: Answers)
    ensures
        ({
            let state = facts.spec_state_args(answers);
            let metadata = facts.spec_header(answers).metadata;
            &&& state.round == metadata.round
            &&& state.height == metadata.height
            &&& state.cumulative_weight == metadata.cumulative_weight
            &&& state.cumulative_proof_target == metadata.cumulative_proof_target
            &&& state.timestamp == included_timestamp(
                metadata.height,
                metadata.timestamp,
                facts.timestamps_from,
            )
        }),
{
}

/// How many replies are taken at most from a stage on.
pub open spec fn replies_left(stage: Stage) -> nat {
    match stage {
        Stage::EpochHash => 16,
        Stage::Selection => 15,
        Stage::Solutions => 14,
        Stage::StateRoot => 13,
        Stage::Lookback => 12,
        Stage::SubdagTimestamp => 11,
        Stage::Clock => 11,
        Stage::Targets => 10,
        Stage::Reward => 9,
        Stage::State => 8,
        Stage::Speculation => 7,
        Stage::RatificationsRoot => 6,
        Stage::SubdagRoot => 5,
        Stage::Metadata => 4,
        Stage::TransactionsRoot => 3,
        Stage::FinalizeRoot => 2,
        Stage::Header => 1,
        Stage::Done => 0,
        Stage::Failed => 0,
    }
}

/// The reply is of the kind that the request of the stage asks for, or says that it failed.
pub open spec fn fits<E>(stage: Stage, reply: TemplateReply<E>) -> bool {
    reply is Failed || match stage {
        Stage::EpochHash => reply is Value,
        Stage::Selection => false,
        Stage::Solutions => reply is Combined,
        Stage::StateRoot => reply is Value,
        Stage::Lookback => reply is Found,
        Stage::SubdagTimestamp => reply is Timestamp,
        Stage::Clock => reply is Timestamp,
        Stage::Targets => reply is Targets,
        Stage::Reward => reply is Value,
        Stage::State => reply is Built,
        Stage::Speculation => reply is Speculated,
        Stage::RatificationsRoot => reply is Value,
        Stage::SubdagRoot => reply is Value,
        Stage::Metadata => reply is Built,
        Stage::TransactionsRoot => reply is Value,
        Stage::FinalizeRoot => reply is Value,
        Stage::Header => reply is Built,
        Stage::Done => false,
        Stage::Failed => false,
    }
}

/// A reply that fits the request of a template moves it on, or shows why there is none.
pub proof fn law_fitting_reply_moves_on<E>(
    facts: TemplateFacts,
    stage: Stage,
    answers: Answers,
    reply: TemplateReply<E>,
)
    requires
        fits(stage, reply),
        !(stage is Done || stage is Failed),
    ensures
        outcome_of(facts, stage, answers, reply) matches Outcome::Next(next, _) ==> next != stage,
{
}

/// Every reply that moves a template on brings it nearer to its end: no request is made twice.
pub proof fn law_template_ends<E>(
    facts: TemplateFacts,
    stage: Stage,
    answers: Answers,
    reply: TemplateReply<E>,
)
    ensures
        outcome_of(facts, stage, answers, reply) matches Outcome::Next(next, _) ==> next == stage
            || replies_left(next) < replies_left(stage),
{
}

} // verus!
