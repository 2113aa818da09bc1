//! The provers of the current epoch, and the number of solutions they have submitted.

use crate::block::Solution;
use crate::id_map::{distinct_keys, has_key, lemma_place, place_of, IdMap};
use crate::ledger::counts::{
    count_of, count_once, counted, law_counting_goes_on, law_counts_are_occurrences,
    lemma_occurrences_bound, occurrences,
};
use vstd::prelude::*;

verus! {

/// The first block that can hold solutions of the current epoch. The epoch boundary can hold
/// solutions of the previous epoch; the block after it is the first one of the current epoch.
pub open spec fn first_epoch_height(current_height: u32, blocks_per_epoch: u32) -> int {
    let next = if current_height < u32::MAX {
        current_height + 1
    } else {
        u32::MAX as int
    };
    next - current_height % blocks_per_epoch
}

/// The heights of the blocks that can hold solutions of the current epoch, in order.
pub open spec fn epoch_range(current_height: u32, blocks_per_epoch: u32) -> Seq<u32> {
    let start = first_epoch_height(current_height, blocks_per_epoch);
    if start > current_height {
        Seq::empty()
    } else {
        Seq::new((current_height - start + 1) as nat, |i: int| (start + i) as u32)
    }
}

/// The number of blocks since the latest epoch boundary is at most the height.
proof fn lemma_within_epoch(current_height: u32, blocks_per_epoch: u32)
    requires
        blocks_per_epoch > 0,
    ensures
        0 <= current_height % blocks_per_epoch <= current_height,
{
    assert(0 <= current_height % blocks_per_epoch <= current_height) by (nonlinear_arith)
        requires
            blocks_per_epoch > 0,
    ;
}

/// Returns the heights of the blocks that can hold solutions of the current epoch.
pub fn epoch_heights(current_height: u32, blocks_per_epoch: u32) -> (heights: Vec<u32>)
    requires
        blocks_per_epoch > 0,
    ensures
        heights@ == epoch_range(current_height, blocks_per_epoch),
{
    let mut heights: Vec<u32> = Vec::new();
    proof {
        lemma_within_epoch(current_height, blocks_per_epoch);
    }
    let next = current_height.saturating_add(1);
    let start = next.saturating_sub(current_height % blocks_per_epoch);
    if start > current_height {
        return heights;
    }
    let mut height = start;
    while height < current_height
        invariant
            blocks_per_epoch > 0,
            start == first_epoch_height(current_height, blocks_per_epoch),
            start <= height <= current_height,
            heights@ == epoch_range(current_height, blocks_per_epoch).take(height - start),
        decreases current_height - height,
    {
        heights.push(height);
        height = height + 1;
        proof {
            assert(heights@ =~= epoch_range(current_height, blocks_per_epoch).take(height - start));
        }
    }
    heights.push(height);
    proof {
        assert(heights@ =~= epoch_range(current_height, blocks_per_epoch));
    }
    heights
}

/// The blocks that can hold solutions of the current epoch are those after the latest epoch boundary,
/// up to the current one.
pub proof fn law_epoch_range(current_height: u32, blocks_per_epoch: u32, height: u32)
    requires
        blocks_per_epoch > 0,
        current_height < u32::MAX,
    ensures
        epoch_range(current_height, blocks_per_epoch).contains(height) <==> current_height
            - current_height % blocks_per_epoch < height <= current_height,
{
    lemma_within_epoch(current_height, blocks_per_epoch);
    let range = epoch_range(current_height, blocks_per_epoch);
    let start = first_epoch_height(current_height, blocks_per_epoch);
    if start <= height <= current_height {
        assert(range[height - start] == height);
    }
}

/// The addresses of the provers of the given solutions, in order.
pub open spec fn provers_of(solutions: Seq<Solution>) -> Seq<u64> {
    solutions.map_values(|solution: Solution| solution.address)
}

/// The counts fit the type in which the number of solutions of a prover is kept.
pub open spec fn counts_fit(counts: Seq<(u64, u64)>) -> bool {
    forall|address: u64| #[trigger] count_of(counts, address) <= u32::MAX
}

/// No count can outgrow its type by so many more occurrences.
pub open spec fn room_for(counts: Seq<(u64, u64)>, more: nat) -> bool {
    forall|address: u64| #[trigger] count_of(counts, address) + more <= u32::MAX
}

/// Adds the provers of the given solutions to the counts.
pub fn count_solutions(counts: &mut IdMap, solutions: &Vec<Solution>)
    requires
        old(counts).wf(),
        room_for(old(counts)@, solutions@.len()),
    ensures
        final(counts).wf(),
        final(counts)@ == counted(old(counts)@, provers_of(solutions@)),
        counts_fit(final(counts)@),
{
    let ghost before = counts@;
    let ghost provers = provers_of(solutions@);
    let mut i: usize = 0;
    proof {
        assert(provers.take(0) =~= Seq::empty());
    }
    while i < solutions.len()
        invariant
            i <= solutions@.len(),
            before == old(counts)@,
            distinct_keys(before),
            room_for(before, solutions@.len()),
            provers == provers_of(solutions@),
            counts.wf(),
            counts@ == counted(before, provers.take(i as int)),
        decreases solutions@.len() - i,
    {
        let address = solutions[i].address;
        proof {
            lemma_room(before, provers.take(i as int), address, solutions@.len());
            assert(provers.take(i + 1).drop_last() =~= provers.take(i as int));
            assert(provers.take(i + 1).last() == address);
        }
        count_once(counts, address);
        i = i + 1;
    }
    proof {
        assert(provers.take(provers.len() as int) =~= provers);
        assert forall|address: u64| #[trigger] count_of(counts@, address) <= u32::MAX by {
            lemma_room(before, provers, address, solutions@.len());
        }
    }
}

/// With room for all occurrences, the count after some of them is within its type.
proof fn lemma_room(counts: Seq<(u64, u64)>, addresses: Seq<u64>, address: u64, more: nat)
    requires
        distinct_keys(counts),
        room_for(counts, more),
        addresses.len() <= more,
    ensures
        count_of(counted(counts, addresses), address) <= count_of(counts, address)
            + addresses.len(),
        count_of(counted(counts, addresses), address) <= u32::MAX,
{
    assert forall|other: u64| #[trigger] count_of(counts, other) + addresses.len() <= u64::MAX by {
        assert(count_of(counts, other) + more <= u32::MAX);
    }
    law_counts_are_occurrences(counts, addresses, address);
    lemma_occurrences_bound(addresses, address);
    assert(count_of(counts, address) + more <= u32::MAX);
}

/// Looking up the solutions of the block at a height found these: none where the block has none, or
/// where the lookup failed.
pub open spec fn solutions_found<E, Get: Fn(u32) -> Result<Option<Vec<Solution>>, E>>(
    get_solutions: Get,
    height: u32,
    found: Seq<Solution>,
) -> bool {
    ||| exists|solutions: Vec<Solution>| #[trigger]
        call_ensures(get_solutions, (height,), Ok::<_, E>(Some(solutions))) && found == solutions@
    ||| found.len() == 0 && call_ensures(
        get_solutions,
        (height,),
        Ok::<Option<Vec<Solution>>, E>(None),
    )
    ||| found.len() == 0 && exists|error: E| #[trigger]
        call_ensures(get_solutions, (height,), Err::<Option<Vec<Solution>>, E>(error))
}

/// The solutions were looked up for each of the heights, in order.
pub open spec fn all_found<E, Get: Fn(u32) -> Result<Option<Vec<Solution>>, E>>(
    get_solutions: Get,
    heights: Seq<u32>,
    found: Seq<Seq<Solution>>,
) -> bool {
    &&& found.len() == heights.len()
    &&& forall|i: int|
        0 <= i < heights.len() ==> solutions_found(get_solutions, heights[i], #[trigger] found[i])
}

/// Collects the solutions of the blocks of the current epoch, in order of their heights. A block whose
/// solutions cannot be looked up counts as one without solutions.
pub fn epoch_solutions<E, Get: Fn(u32) -> Result<Option<Vec<Solution>>, E>>(
    current_height: u32,
    blocks_per_epoch: u32,
    get_solutions: Get,
) -> (solutions: Vec<Solution>)
    requires
        blocks_per_epoch > 0,
        forall|i: int|
            0 <= i < epoch_range(current_height, blocks_per_epoch).len() ==> call_requires(
                get_solutions,
                (#[trigger] epoch_range(current_height, blocks_per_epoch)[i],),
            ),
    ensures
        exists|found: Seq<Seq<Solution>>| #[trigger]
            all_found(get_solutions, epoch_range(current_height, blocks_per_epoch), found)
                && solutions@ == found.flatten(),
{
    let heights = epoch_heights(current_height, blocks_per_epoch);
    let ghost range = epoch_range(current_height, blocks_per_epoch);
    let mut solutions: Vec<Solution> = Vec::new();
    let ghost mut found: Seq<Seq<Solution>> = Seq::empty();
    let mut i: usize = 0;
    while i < heights.len()
        invariant
            heights@ == range,
            forall|i: int|
                0 <= i < range.len() ==> call_requires(get_solutions, (#[trigger] range[i],)),
            i <= range.len(),
            found.len() == i,
            forall|j: int|
                0 <= j < i ==> solutions_found(get_solutions, range[j], #[trigger] found[j]),
            solutions@ == found.flatten(),
        decreases range.len() - i,
    {
        let height = heights[i];
        let ghost before = found;
        let mut here: Vec<Solution> = match get_solutions(height) {
            Ok(Some(here)) => here,
            Ok(None) => Vec::new(),
            Err(_) => Vec::new(),
        };
        assert(solutions_found(get_solutions, height, here@));
        proof {
            found = before.push(here@);
            assert forall|j: int| 0 <= j < i + 1 implies solutions_found(
                get_solutions,
                range[j],
                #[trigger] found[j],
            ) by {
                if j < i {
                    assert(found[j] == before[j]);
                }
            }
            before.lemma_flatten_push(here@);
        }
        solutions.append(&mut here);
        i = i + 1;
    }
    assert(all_found(get_solutions, range, found));
    solutions
}

/// Counts the number of occurrences of each address in the blocks of the epoch.
pub fn load_epoch_provers(solutions: &Vec<Solution>) -> (counts: IdMap)
    requires
        solutions@.len() <= u32::MAX,
    ensures
        counts.wf(),
        counts@ == counted(Seq::empty(), provers_of(solutions@)),
        counts_fit(counts@),
{
    let mut counts = IdMap::new();
    assert forall|address: u64| #[trigger] count_of(counts@, address) + solutions@.len()
        <= u32::MAX by {}
    count_solutions(&mut counts, solutions);
    counts
}

/// Returns `true` when so many more solutions can be counted.
pub fn has_room(counts: &IdMap, more: usize) -> (room: bool)
    requires
        counts.wf(),
    ensures
        room == room_for(counts@, more as nat),
{
    if more > u32::MAX as usize {
        assert(count_of(counts@, 0) + more > u32::MAX);
        return false;
    }
    let mut i: usize = 0;
    while i < counts.len()
        invariant
            i <= counts@.len(),
            counts.wf(),
            more <= u32::MAX,
            forall|j: int| 0 <= j < i ==> (#[trigger] counts@[j]).1 + more <= u32::MAX,
        decreases counts@.len() - i,
    {
        let count = counts.entry_at(i).1;
        if count > u32::MAX as u64 - more as u64 {
            proof {
                lemma_place(counts@, i as int);
                assert(count_of(counts@, counts@[i as int].0) + more > u32::MAX);
            }
            return false;
        }
        i = i + 1;
    }
    proof {
        assert forall|address: u64| #[trigger] count_of(counts@, address) + more <= u32::MAX by {
            if has_key(counts@, address) {
                let p = place_of(counts@, address);
                assert(counts@[p].1 + more <= u32::MAX);
            }
        }
    }
    true
}

/// The provers of solutions have the number of their solutions as their count, on top of what they
/// had, as long as there is room; those without solutions keep their count.
pub proof fn law_provers_are_counted(
    counts: Seq<(u64, u64)>,
    solutions: Seq<Solution>,
    address: u64,
)
    requires
        distinct_keys(counts),
        room_for(counts, solutions.len()),
    ensures
        count_of(counted(counts, provers_of(solutions)), address) == count_of(counts, address)
            + solutions.filter(|solution: Solution| solution.address == address).len(),
{
    assert forall|other: u64| #[trigger] count_of(counts, other) + provers_of(solutions).len()
        <= u64::MAX by {
        assert(count_of(counts, other) + solutions.len() <= u32::MAX);
    }
    law_counts_are_occurrences(counts, provers_of(solutions), address);
    lemma_occurrences_of_prover(solutions, address);
}

/// A prover occurs as often as it has solutions.
proof fn lemma_occurrences_of_prover(solutions: Seq<Solution>, address: u64)
    ensures
        occurrences(provers_of(solutions), address) == solutions.filter(
            |solution: Solution| solution.address == address,
        ).len(),
    decreases solutions.len(),
{
    reveal(Seq::filter);
    if solutions.len() > 0 {
        lemma_occurrences_of_prover(solutions.drop_last(), address);
        assert(provers_of(solutions).drop_last() =~= provers_of(solutions.drop_last()));
    }
}

/// Counting the solutions of the blocks of an epoch as they come gives what counting all of them at
/// once gives: a ledger that advanced over the blocks has the provers of one that loads them.
pub proof fn law_advancing_counts_as_loading(
    counts: Seq<(u64, u64)>,
    earlier: Seq<Solution>,
    later: Seq<Solution>,
)
    ensures
        counted(counted(counts, provers_of(earlier)), provers_of(later)) == counted(
            counts,
            provers_of(earlier + later),
        ),
{
    law_counting_goes_on(counts, provers_of(earlier), provers_of(later));
    assert(provers_of(earlier) + provers_of(later) =~= provers_of(earlier + later));
}

/// There is room for more occurrences exactly when no count would outgrow its type by them.
pub proof fn law_room_is_for_every_prover(counts: Seq<(u64, u64)>, more: nat, address: u64)
    ensures
        room_for(counts, more) ==> count_of(counts, address) + more <= 0xffff_ffff,
        count_of(counts, address) + more > 0xffff_ffff ==> !room_for(counts, more),
        (forall|other: u64| #[trigger] count_of(counts, other) + more <= 0xffff_ffff) ==> room_for(
            counts,
            more,
        ),
{
}

/// The heights of an epoch come one after another, up to the current one.
pub proof fn law_epoch_range_is_in_order(current_height: u32, blocks_per_epoch: u32, i: int)
    requires
        blocks_per_epoch > 0,
        0 <= i < epoch_range(current_height, blocks_per_epoch).len(),
    ensures
        ({
            let range = epoch_range(current_height, blocks_per_epoch);
            &&& range.last() == current_height
            &&& i > 0 ==> range[i] == range[i - 1] + 1
        }),
{
    lemma_within_epoch(current_height, blocks_per_epoch);
}

/// The solutions that are found at a height are those of the block that is stored there. A block without
/// solutions has none, and so has one that cannot be looked up.
pub proof fn law_solutions_are_those_of_the_blocks<
    E,
    Get: Fn(u32) -> Result<Option<Vec<Solution>>, E>,
>(
    get_solutions: Get,
    heights: Seq<u32>,
    found: Seq<Seq<Solution>>,
    stored: spec_fn(u32) -> Result<Option<Vec<Solution>>, E>,
    i: int,
)
    requires
        all_found(get_solutions, heights, found),
        forall|height: u32, reply: Result<Option<Vec<Solution>>, E>| #[trigger]
            call_ensures(get_solutions, (height,), reply) ==> reply == stored(height),
        0 <= i < heights.len(),
    ensures
        found.len() == heights.len(),
        match stored(heights[i]) {
            Ok(Some(solutions)) => found[i] == solutions@,
            _ => found[i].len() == 0,
        },
{
    assert(solutions_found(get_solutions, heights[i], found[i]));
}

} // verus!
