//! Counting how often an address occurs.

use crate::id_map::{distinct_keys, lemma_put, put, value_of, IdMap};
use vstd::prelude::*;

verus! {

/// The count of an address; zero when there is none.
pub open spec fn count_of(counts: Seq<(u64, u64)>, address: u64) -> u64 {
    match value_of(counts, address) {
        Some(count) => count,
        None => 0,
    }
}

/// The counts after one more occurrence of an address.
pub open spec fn counted_once(counts: Seq<(u64, u64)>, address: u64) -> Seq<(u64, u64)> {
    put(counts, address, (count_of(counts, address) + 1) as u64)
}

/// The counts after the given occurrences, in order.
pub open spec fn counted(counts: Seq<(u64, u64)>, addresses: Seq<u64>) -> Seq<(u64, u64)>
    decreases addresses.len(),
{
    if addresses.len() == 0 {
        counts
    } else {
        counted_once(counted(counts, addresses.drop_last()), addresses.last())
    }
}

/// How often an address occurs.
pub open spec fn occurrences(addresses: Seq<u64>, address: u64) -> nat
    decreases addresses.len(),
{
    if addresses.len() == 0 {
        0
    } else {
        occurrences(addresses.drop_last(), address) + (if addresses.last() == address {
            1nat
        } else {
            0nat
        })
    }
}

/// An address occurs at most as often as there are addresses.
pub proof fn lemma_occurrences_bound(addresses: Seq<u64>, address: u64)
    ensures
        occurrences(addresses, address) <= addresses.len(),
    decreases addresses.len(),
{
    if addresses.len() > 0 {
        lemma_occurrences_bound(addresses.drop_last(), address);
    }
}

/// Counting adds to each count how often its address occurs.
pub proof fn law_counts_are_occurrences(
    counts: Seq<(u64, u64)>,
    addresses: Seq<u64>,
    address: u64,
)
    requires
        distinct_keys(counts),
        forall|other: u64| #[trigger] count_of(counts, other) + addresses.len() <= u64::MAX,
    ensures
        distinct_keys(counted(counts, addresses)),
        count_of(counted(counts, addresses), address) == count_of(counts, address) + occurrences(
            addresses,
            address,
        ),
    decreases addresses.len(),
{
    if addresses.len() > 0 {
        let rest = addresses.drop_last();
        law_counts_are_occurrences(counts, rest, address);
        law_counts_are_occurrences(counts, rest, addresses.last());
        lemma_occurrences_bound(rest, addresses.last());
        let before = counted(counts, rest);
        assert(count_of(counts, addresses.last()) + addresses.len() <= u64::MAX);
        lemma_put(
            before,
            addresses.last(),
            (count_of(before, addresses.last()) + 1) as u64,
        );
    }
}

/// Returns the count of an address.
pub fn get_count(counts: &IdMap, address: u64) -> (count: u64)
    requires
        counts.wf(),
    ensures
        count == count_of(counts@, address),
{
    match counts.get(address) {
        Some(count) => count,
        None => 0,
    }
}

/// Counts one more occurrence of an address.
pub fn count_once(counts: &mut IdMap, address: u64)
    requires
        old(counts).wf(),
        count_of(old(counts)@, address) < u64::MAX,
    ensures
        final(counts).wf(),
        final(counts)@ == counted_once(old(counts)@, address),
{
    let count = get_count(counts, address);
    proof {
        lemma_put(counts@, address, (count + 1) as u64);
    }
    counts.insert(address, count + 1);
}

/// An address occurs as often as there are addresses equal to it.
pub proof fn law_occurrences_are_equal_addresses(addresses: Seq<u64>, address: u64)
    ensures
        occurrences(addresses, address) == addresses.filter(|other: u64| other == address).len(),
    decreases addresses.len(),
{
    reveal(Seq::filter);
    if addresses.len() > 0 {
        law_occurrences_are_equal_addresses(addresses.drop_last(), address);
    }
}

/// Counting some addresses and then others is counting all of them in a row.
pub proof fn law_counting_goes_on(counts: Seq<(u64, u64)>, some: Seq<u64>, others: Seq<u64>)
    ensures
        counted(counted(counts, some), others) == counted(counts, some + others),
    decreases others.len(),
{
    if others.len() == 0 {
        assert(some + others =~= some);
    } else {
        law_counting_goes_on(counts, some, others.drop_last());
        assert((some + others).drop_last() =~= some + others.drop_last());
    }
}

} // verus!
