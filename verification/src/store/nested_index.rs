//! The index types behind the overlay of a nested map, and the encoding of its keys.

use indexmap::{IndexMap, IndexSet};
use vstd::bytes::{lemma_auto_spec_u64_to_from_le_bytes, spec_u64_to_le_bytes};
use vstd::prelude::*;

verus! {

/// Declares `indexmap::IndexSet` to the verifier as an opaque type.
#[verifier::external_type_specification]
#[verifier::external_body]
#[verifier::reject_recursive_types(T)]
#[verifier::reject_recursive_types(S)]
pub struct ExIndexSet<T, S>(IndexSet<T, S>);

/// What an `IndexMap` from a map and an encoded key to a log index holds.
pub uninterp spec fn nested_contents(map: IndexMap<(u64, Vec<u8>), usize>) -> Map<
    (u64, Seq<u8>),
    usize,
>;

/// The items of an `IndexSet`.
pub uninterp spec fn set_contents(set: IndexSet<u64>) -> Set<u64>;

/// The contents of a map without entries.
pub open spec fn no_entries() -> Map<(u64, Seq<u8>), usize> {
    Map::empty()
}

/// The encoding of a key: its eight bytes, the least significant first.
pub open spec fn key_bytes(key: u64) -> Seq<u8> {
    spec_u64_to_le_bytes(key)
}

/// Different keys have different encodings.
pub proof fn lemma_key_bytes_injective(a: u64, b: u64)
    ensures
        key_bytes(a) == key_bytes(b) <==> a == b,
{
    lemma_auto_spec_u64_to_from_le_bytes();
}

/// Wraps `bincode::serialize` on a 64-bit key. Its default configuration writes integers with a
/// fixed width and the least significant byte first, and never fails on one.
#[verifier::external_body]
pub(crate) fn serialize_key(key: u64) -> (bytes: Vec<u8>)
    ensures
        bytes@ == key_bytes(key),
{
    bincode::serialize(&key).unwrap()
}

/// Wraps `IndexMap::new`, which makes a map without entries.
#[verifier::external_body]
pub(crate) fn nested_new() -> (map: IndexMap<(u64, Vec<u8>), usize>)
    ensures
        nested_contents(map) == no_entries(),
{
    IndexMap::new()
}

/// Wraps `IndexMap::insert`: stores the index under the map and the encoded key, in place of an
/// index that may be stored there already.
#[verifier::external_body]
pub(crate) fn nested_insert(
    entries: &mut IndexMap<(u64, Vec<u8>), usize>,
    map: u64,
    key: Vec<u8>,
    index: usize,
)
    ensures
        nested_contents(*final(entries)) == nested_contents(*old(entries)).insert((map, key@), index),
{
    entries.insert((map, key), index);
}

/// Wraps `IndexMap::get`: returns the index stored under the map and the encoded key, if any.
#[verifier::external_body]
pub(crate) fn nested_get(
    entries: &IndexMap<(u64, Vec<u8>), usize>,
    map: u64,
    key: Vec<u8>,
) -> (index: Option<usize>)
    ensures
        index == (if nested_contents(*entries).contains_key((map, key@)) {
            Some(nested_contents(*entries)[(map, key@)])
        } else {
            None
        }),
{
    entries.get(&(map, key)).copied()
}

/// Returns `true` when an entry does not belong to `map`.
fn is_other_map(pending_map: &u64, map: &u64) -> (other: bool)
    ensures
        other == (*pending_map != *map),
{
    *pending_map != *map
}

/// Wraps `IndexMap::retain`, which keeps the entries that its test accepts; here those that do not
/// belong to `map`.
#[verifier::external_body]
pub(crate) fn nested_retain_other_maps(entries: &mut IndexMap<(u64, Vec<u8>), usize>, map: u64)
    ensures
        nested_contents(*final(entries)) == nested_contents(*old(entries)).restrict(
            Set::new(|entry: (u64, Seq<u8>)| entry.0 != map),
        ),
{
    entries.retain(|(pending_map, _), _| is_other_map(pending_map, &map));
}

/// Wraps `IndexMap::is_empty`.
#[verifier::external_body]
pub(crate) fn nested_is_empty(entries: &IndexMap<(u64, Vec<u8>), usize>) -> (empty: bool)
    ensures
        empty == (nested_contents(*entries) == no_entries()),
{
    entries.is_empty()
}

/// Wraps `IndexSet::new`, which makes a set without items.
#[verifier::external_body]
pub(crate) fn set_new() -> (set: IndexSet<u64>)
    ensures
        set_contents(set) == Set::<u64>::empty(),
{
    IndexSet::new()
}

/// Wraps `IndexSet::insert`, which adds an item unless it is there already.
#[verifier::external_body]
pub(crate) fn set_insert(set: &mut IndexSet<u64>, item: u64)
    ensures
        set_contents(*final(set)) == set_contents(*old(set)).insert(item),
{
    set.insert(item);
}

/// Wraps `IndexSet::contains`.
#[verifier::external_body]
pub(crate) fn set_contains(set: &IndexSet<u64>, item: u64) -> (present: bool)
    ensures
        present == set_contents(*set).contains(item),
{
    set.contains(&item)
}

/// Wraps `IndexSet::is_empty`.
#[verifier::external_body]
pub(crate) fn set_is_empty(set: &IndexSet<u64>) -> (empty: bool)
    ensures
        empty == (set_contents(*set) == Set::<u64>::empty()),
{
    set.is_empty()
}

} // verus!
