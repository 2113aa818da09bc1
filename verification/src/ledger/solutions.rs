//! Selection of the candidate solutions that go into a block.

use vstd::prelude::*;

verus! {

/// The number of candidates that are verified before the limit is looked at again.
pub const CHUNK_SIZE: usize = 16;

/// The accepted candidates among those verified, in order: the first `max` that passed.
pub open spec fn accepted<T>(verdicts: Seq<(T, bool)>, max: nat) -> Seq<T>
    decreases verdicts.len(),
{
    if verdicts.len() == 0 {
        Seq::empty()
    } else {
        let before = accepted(verdicts.drop_last(), max);
        if verdicts.last().1 && before.len() < max {
            before.push(verdicts.last().0)
        } else {
            before
        }
    }
}

/// The aborted candidates among those verified, in order: those that failed, and those that passed
/// when `max` had been accepted already.
pub open spec fn refused<T>(verdicts: Seq<(T, bool)>, max: nat) -> Seq<T>
    decreases verdicts.len(),
{
    if verdicts.len() == 0 {
        Seq::empty()
    } else {
        let before = refused(verdicts.drop_last(), max);
        if verdicts.last().1 && accepted(verdicts.drop_last(), max).len() < max {
            before
        } else {
            before.push(verdicts.last().0)
        }
    }
}

/// Verification of `total` candidates stops after `verdicts`: all were verified, or a chunk ended
/// with `max` accepted; and at no earlier end of a chunk had `max` been accepted.
pub open spec fn stops_after<T>(verdicts: Seq<(T, bool)>, total: nat, max: nat) -> bool {
    &&& verdicts.len() <= total
    &&& verdicts.len() == total || (verdicts.len() % CHUNK_SIZE as nat == 0 && accepted(
        verdicts,
        max,
    ).len() >= max)
    &&& forall|n: int|
        0 <= n < verdicts.len() && n % CHUNK_SIZE as int == 0 ==> #[trigger] accepted(
            verdicts.take(n),
            max,
        ).len() < max
}

/// After `verdicts`, the next of `total` candidates is verified: there is one, and at no end of a chunk
/// had `max` been accepted.
pub open spec fn verifies_next<T>(verdicts: Seq<(T, bool)>, total: nat, max: nat) -> bool {
    &&& verdicts.len() < total
    &&& forall|n: int|
        0 <= n <= verdicts.len() && n % CHUNK_SIZE as int == 0 ==> #[trigger] accepted(
            verdicts.take(n),
            max,
        ).len() < max
}

/// The outcome of a split: `verdicts` are those of the first candidates, as far as verification
/// went, and the candidates that were not verified are aborted unchanged.
pub open spec fn split_outcome<T>(
    candidates: Seq<T>,
    max: nat,
    verdicts: Seq<(T, bool)>,
    valid: Seq<T>,
    aborted: Seq<T>,
) -> bool {
    &&& stops_after(verdicts, candidates.len(), max)
    &&& valid == accepted(verdicts, max)
    &&& aborted == refused(verdicts, max) + candidates.skip(verdicts.len() as int)
}

/// No more than `max` candidates are accepted, and each verified candidate is either accepted or
/// aborted.
pub proof fn law_split_partitions<T>(verdicts: Seq<(T, bool)>, max: nat)
    ensures
        accepted(verdicts, max).len() <= max,
        accepted(verdicts, max).len() + refused(verdicts, max).len() == verdicts.len(),
    decreases verdicts.len(),
{
    if verdicts.len() > 0 {
        law_split_partitions(verdicts.drop_last(), max);
    }
}

/// The accepted candidates are the first `max` of those that passed, in the order given.
pub proof fn law_accepted_are_the_first_that_passed<T>(verdicts: Seq<(T, bool)>, max: nat)
    ensures
        accepted(verdicts, max) == ({
            let passed = verdicts.filter(|verdict: (T, bool)| verdict.1).map_values(
                |verdict: (T, bool)| verdict.0,
            );
            if passed.len() <= max {
                passed
            } else {
                passed.take(max as int)
            }
        }),
    decreases verdicts.len(),
{
    reveal(Seq::filter);
    let passes = |verdict: (T, bool)| verdict.1;
    let value = |verdict: (T, bool)| verdict.0;
    if verdicts.len() > 0 {
        law_accepted_are_the_first_that_passed(verdicts.drop_last(), max);
        let before = verdicts.drop_last().filter(passes);
        let now = verdicts.filter(passes);
        if verdicts.last().1 {
            assert(now.map_values(value) =~= before.map_values(value).push(verdicts.last().0));
            if before.len() >= max {
                assert(now.map_values(value).take(max as int) =~= before.map_values(value).take(
                    max as int,
                ));
            }
        }
    }
}

/// A split of candidates on its way.
pub struct Split<T> {
    candidates: Vec<T>,
    max: usize,
    valid: Vec<T>,
    aborted: Vec<T>,
    next: usize,
    verdicts: Ghost<Seq<(T, bool)>>,
}

impl<T: Copy> Split<T> {
    /// The candidates that are split.
    pub closed spec fn given(&self) -> Seq<T> {
        self.candidates@
    }

    /// The limit.
    pub closed spec fn limit(&self) -> nat {
        self.max as nat
    }

    /// The verdicts so far, each with its candidate as the verification left it.
    pub closed spec fn spec_verdicts(&self) -> Seq<(T, bool)> {
        self.verdicts@
    }

    /// What was accepted and aborted is what the verdicts say, and verification went on only as long as
    /// the limit allowed.
    pub closed spec fn wf(&self) -> bool {
        &&& self.next == self.verdicts@.len()
        &&& self.next <= self.candidates@.len()
        &&& self.valid@ == accepted(self.verdicts@, self.max as nat)
        &&& self.aborted@ == refused(self.verdicts@, self.max as nat)
        &&& forall|n: int|
            0 <= n < self.verdicts@.len() && n % CHUNK_SIZE as int == 0 ==> #[trigger] accepted(
                self.verdicts@.take(n),
                self.max as nat,
            ).len() < self.max
    }

    /// There is one more candidate to verify: not all were, and the limit was not reached at the end of
    /// a chunk.
    pub open spec fn goes_on(&self) -> bool {
        &&& self.spec_verdicts().len() < self.given().len()
        &&& !(self.spec_verdicts().len() % CHUNK_SIZE as nat == 0 && accepted(
            self.spec_verdicts(),
            self.limit(),
        ).len() >= self.limit())
    }

    /// Starts to split the given candidates.
    pub fn new(candidates: Vec<T>, max: usize) -> (split: Split<T>)
        ensures
            split.wf(),
            split.given() == candidates@,
            split.limit() == max,
            split.spec_verdicts() == Seq::<(T, bool)>::empty(),
    {
        Split {
            candidates,
            max,
            valid: Vec::new(),
            aborted: Vec::new(),
            next: 0,
            verdicts: Ghost(Seq::empty()),
        }
    }

    /// Returns the next candidate to verify, if there is one.
    pub fn next_candidate(&self) -> (candidate: Option<T>)
        requires
            self.wf(),
        ensures
            candidate is Some <==> self.goes_on(),
            candidate matches Some(candidate) ==> candidate
                == self.given()[self.spec_verdicts().len() as int] && verifies_next(
                self.spec_verdicts(),
                self.given().len(),
                self.limit(),
            ),
    {
        assert(self.verdicts@.take(self.verdicts@.len() as int) =~= self.verdicts@);
        if self.next < self.candidates.len() && !(self.next % CHUNK_SIZE == 0 && self.valid.len()
            >= self.max) {
            Some(self.candidates[self.next])
        } else {
            None
        }
    }

    /// Takes the verdict on the next candidate.
    pub fn record(&mut self, candidate: T, is_valid: bool)
        requires
            old(self).wf(),
            old(self).goes_on(),
        ensures
            final(self).wf(),
            final(self).given() == old(self).given(),
            final(self).limit() == old(self).limit(),
            final(self).spec_verdicts() == old(self).spec_verdicts().push((candidate, is_valid)),
    {
        let ghost before = self.verdicts@;
        let ghost longer = before.push((candidate, is_valid));
        proof {
            assert(longer.drop_last() =~= before);
            assert forall|n: int|
                0 <= n < longer.len() && n % CHUNK_SIZE as int == 0 implies #[trigger] accepted(
                longer.take(n),
                self.max as nat,
            ).len() < self.max by {
                assert(longer.take(n) =~= before.take(n));
                if n == before.len() {
                    assert(before.take(n) =~= before);
                }
            }
        }
        if is_valid && self.valid.len() < self.max {
            self.valid.push(candidate);
        } else {
            self.aborted.push(candidate);
        }
        assert(self.candidates@.len() == self.candidates.len());
        self.next = self.next + 1;
        self.verdicts = Ghost(longer);
    }

    /// Ends the split: the candidates that were not verified are aborted.
    pub fn finish(self) -> (split: (Vec<T>, Vec<T>))
        requires
            self.wf(),
            !self.goes_on(),
        ensures
            split_outcome(
                self.given(),
                self.limit(),
                self.spec_verdicts(),
                split.0@,
                split.1@,
            ),
            split.0@.len() <= self.limit(),
            split.0@.len() + split.1@.len() == self.given().len(),
    {
        let ghost candidates = self.candidates@;
        let ghost verdicts = self.verdicts@;
        let ghost max = self.max as nat;
        proof {
            law_split_partitions(verdicts, max);
        }
        let valid = self.valid;
        let mut aborted = self.aborted;
        let ghost checked = self.next as int;
        let mut next = self.next;
        let total = self.candidates.len();
        while next < total
            invariant
                candidates == self.candidates@,
                total == candidates.len(),
                0 <= checked <= next <= total,
                aborted@ == refused(verdicts, max) + candidates.subrange(checked, next as int),
            decreases total - next,
        {
            aborted.push(self.candidates[next]);
            next = next + 1;
            proof {
                assert(candidates.subrange(checked, next as int) =~= candidates.subrange(
                    checked,
                    next - 1,
                ).push(candidates[next - 1]));
            }
        }
        proof {
            assert(candidates.subrange(checked, total as int) =~= candidates.skip(checked));
        }
        let split = (valid, aborted);
        assert(split_outcome(candidates, max, verdicts, split.0@, split.1@));
        split
    }
}

/// Splits candidate solutions into a collection of accepted ones and aborted ones.
///
/// Candidates are verified in order, a chunk at a time, until the limit is reached at the end of a
/// chunk. Aborted candidates that were verified are returned as the verification left them, those
/// that were not are returned as they were given.
pub fn split_candidate_solutions<T, F>(
    candidate_solutions: Vec<T>,
    max_solutions: usize,
    verification_fn: F,
) -> (split: (Vec<T>, Vec<T>)) where T: Sized + Copy, F: FnMut(&mut T) -> bool
    requires
        // Each candidate is verified once the earlier ones were, as long as verification goes on.
        forall|candidate: &mut T, verdicts: Seq<(T, bool)>|
            #![trigger call_requires(verification_fn, (candidate,)),
                verifies_next(verdicts, candidate_solutions@.len(), max_solutions as nat)]
            verifies_next(verdicts, candidate_solutions@.len(), max_solutions as nat) && *candidate
                == candidate_solutions@[verdicts.len() as int] && (forall|i: int|
                #![trigger verdicts[i]]
                0 <= i < verdicts.len() ==> exists|earlier: &mut T|
                    call_ensures(verification_fn, (earlier,), verdicts[i].1) && *earlier
                        == candidate_solutions@[i] && *final(earlier) == verdicts[i].0)
                ==> call_requires(verification_fn, (candidate,)),
    ensures
        exists|verdicts: Seq<(T, bool)>| #[trigger]
            split_outcome(
                candidate_solutions@,
                max_solutions as nat,
                verdicts,
                split.0@,
                split.1@,
            ) && (forall|i: int|
                #![trigger verdicts[i]]
                0 <= i < verdicts.len() ==> exists|candidate: &mut T|
                    call_ensures(verification_fn, (candidate,), verdicts[i].1) && *candidate
                        == candidate_solutions@[i] && *final(candidate) == verdicts[i].0),
        split.0@.len() <= max_solutions,
        split.0@.len() + split.1@.len() == candidate_solutions@.len(),
{
    let mut verify_solution = verification_fn;
    let ghost candidates = candidate_solutions@;
    let ghost verify = verification_fn;
    let mut run = Split::new(candidate_solutions, max_solutions);
    let mut pending = run.next_candidate();
    while pending.is_some()
        invariant
            run.wf(),
            run.given() == candidates,
            run.limit() == max_solutions,
            run.spec_verdicts().len() <= candidates.len(),
            pending is Some <==> run.goes_on(),
            pending matches Some(candidate) ==> candidate
                == candidates[run.spec_verdicts().len() as int] && verifies_next(
                run.spec_verdicts(),
                candidates.len(),
                max_solutions as nat,
            ),
            verify == verify_solution,
            forall|candidate: &mut T, verdicts: Seq<(T, bool)>|
                #![trigger call_requires(verify, (candidate,)),
                    verifies_next(verdicts, candidates.len(), max_solutions as nat)]
                verifies_next(verdicts, candidates.len(), max_solutions as nat) && *candidate
                    == candidates[verdicts.len() as int] && (forall|i: int|
                    #![trigger verdicts[i]]
                    0 <= i < verdicts.len() ==> exists|earlier: &mut T|
                        call_ensures(verify, (earlier,), verdicts[i].1) && *earlier
                            == candidates[i] && *final(earlier) == verdicts[i].0)
                    ==> call_requires(verify, (candidate,)),
            forall|i: int|
                #![trigger run.spec_verdicts()[i]]
                0 <= i < run.spec_verdicts().len() ==> exists|candidate: &mut T|
                    call_ensures(verify, (candidate,), run.spec_verdicts()[i].1) && *candidate
                        == candidates[i] && *final(candidate) == run.spec_verdicts()[i].0,
        decreases candidates.len() - run.spec_verdicts().len(),
    {
        if let Some(candidate) = pending {
            let ghost before = run.spec_verdicts();
            let mut solution = candidate;
            assert(verifies_next(before, candidates.len(), max_solutions as nat));
            let is_valid = verify_solution(&mut solution);
            run.record(solution, is_valid);
            proof {
                assert forall|i: int|
                    #![trigger run.spec_verdicts()[i]]
                    0 <= i < run.spec_verdicts().len() implies exists|candidate: &mut T|
                    call_ensures(verify, (candidate,), run.spec_verdicts()[i].1) && *candidate
                        == candidates[i] && *final(candidate) == run.spec_verdicts()[i].0 by {
                    if i < before.len() {
                        assert(run.spec_verdicts()[i] == before[i]);
                    }
                }
            }
            pending = run.next_candidate();
        }
    }
    let ghost verdicts = run.spec_verdicts();
    let split = run.finish();
    assert(split_outcome(
        candidates,
        max_solutions as nat,
        verdicts,
        split.0@,
        split.1@,
    ));
    split
}

/// Judging some candidates and then others gives what judging all of them in a row gives: the later
/// ones only have the places that the earlier ones left.
pub proof fn law_split_goes_on<T>(some: Seq<(T, bool)>, others: Seq<(T, bool)>, max: nat)
    ensures
        ({
            let left = (max - accepted(some, max).len()) as nat;
            &&& accepted(some + others, max) == accepted(some, max) + accepted(others, left)
            &&& refused(some + others, max) == refused(some, max) + refused(others, left)
        }),
    decreases others.len(),
{
    law_split_partitions(some, max);
    let left = (max - accepted(some, max).len()) as nat;
    if others.len() == 0 {
        assert(some + others =~= some);
        assert(accepted(some, max) + accepted(others, left) =~= accepted(some, max));
        assert(refused(some, max) + refused(others, left) =~= refused(some, max));
    } else {
        law_split_goes_on(some, others.drop_last(), max);
        assert((some + others).drop_last() =~= some + others.drop_last());
        assert(accepted(some + others, max) =~= accepted(some, max) + accepted(others, left));
        assert(refused(some + others, max) =~= refused(some, max) + refused(others, left));
    }
}

/// A candidate is accepted when it passed and there is a place for it, and else aborted.
pub proof fn law_candidate_needs_a_place<T>(candidate: T, passed: bool, max: nat)
    ensures
        ({
            let verdicts = seq![(candidate, passed)];
            &&& passed && max > 0 ==> accepted(verdicts, max) == seq![candidate] && refused(
                verdicts,
                max,
            ) == Seq::<T>::empty()
            &&& !(passed && max > 0) ==> accepted(verdicts, max) == Seq::<T>::empty() && refused(
                verdicts,
                max,
            ) == seq![candidate]
        }),
{
    let verdicts = seq![(candidate, passed)];
    assert(verdicts.drop_last() =~= Seq::empty());
    assert(accepted(verdicts.drop_last(), max) =~= Seq::empty());
    assert(refused(verdicts.drop_last(), max) =~= Seq::empty());
    assert(accepted(verdicts, max) =~= if passed && max > 0 {
        seq![candidate]
    } else {
        Seq::empty()
    });
    assert(refused(verdicts, max) =~= if passed && max > 0 {
        Seq::empty()
    } else {
        seq![candidate]
    });
}

/// No candidate is left out of a block that has a place for it: unless as many as fit were accepted,
/// all candidates were verified, and all that passed were accepted. Each candidate is either valid or
/// aborted, and those that were not verified are the last aborted ones, as they were given.
pub proof fn law_split_fills_the_block<T>(
    candidates: Seq<T>,
    max: nat,
    verdicts: Seq<(T, bool)>,
    valid: Seq<T>,
    aborted: Seq<T>,
)
    requires
        split_outcome(candidates, max, verdicts, valid, aborted),
    ensures
        valid.len() <= max,
        valid.len() < max ==> verdicts.len() == candidates.len() && valid.len() == verdicts.filter(
            |verdict: (T, bool)| verdict.1,
        ).len(),
        valid.len() + aborted.len() == candidates.len(),
        forall|i: int|
            verdicts.len() <= i < candidates.len() ==> #[trigger] candidates[i] == aborted[i
                - valid.len()],
{
    law_split_partitions(verdicts, max);
    law_accepted_are_the_first_that_passed(verdicts, max);
}

/// Verification stops at the end of the first chunk of sixteen after which the block is full, and
/// otherwise goes on to the last candidate.
pub proof fn law_verification_stops_after_a_full_chunk<T>(
    verdicts: Seq<(T, bool)>,
    total: nat,
    max: nat,
    chunks: nat,
)
    requires
        stops_after(verdicts, total, max),
        16 * chunks < verdicts.len(),
    ensures
        accepted(verdicts.take((16 * chunks) as int), max).len() < max,
        verdicts.len() < total ==> verdicts.len() % 16 == 0 && accepted(verdicts, max).len() == max,
{
    law_split_partitions(verdicts, max);
}

/// After verdicts before which verification did not stop, it either stops or goes on to the next
/// candidate.
pub proof fn law_verification_stops_or_goes_on<T>(
    verdicts: Seq<(T, bool)>,
    total: nat,
    max: nat,
)
    requires
        verdicts.len() <= total,
        forall|n: int|
            0 <= n < verdicts.len() && n % 16 == 0 ==> #[trigger] accepted(
                verdicts.take(n),
                max,
            ).len() < max,
    ensures
        stops_after(verdicts, total, max) <==> !verifies_next(verdicts, total, max),
{
    assert(verdicts.take(verdicts.len() as int) =~= verdicts);
}

} // verus!
