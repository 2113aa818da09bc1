//! The cache of least-recently used entries, with 64-bit keys and values.

use lru::LruCache;
use std::num::NonZeroUsize;
use vstd::prelude::*;

verus! {

/// Declares `lru::LruCache` to the verifier as an opaque type.
#[verifier::external_type_specification]
#[verifier::external_body]
#[verifier::reject_recursive_types(K)]
#[verifier::reject_recursive_types(V)]
#[verifier::reject_recursive_types(S)]
pub struct ExLruCache<K, V, S>(LruCache<K, V, S>);

/// Declares `lru::DefaultHasher`, the hasher of a cache, to the verifier as an opaque type.
#[verifier::external_type_specification]
#[verifier::external_body]
pub struct ExDefaultHasher(lru::DefaultHasher);

/// The entries of a cache.
pub uninterp spec fn cache_entries(cache: LruCache<u64, u64>) -> Map<u64, u64>;

/// The number of entries that a cache was made for.
pub uninterp spec fn cache_capacity(cache: LruCache<u64, u64>) -> nat;

/// The largest capacity that a cache is made with. The room for that many entries is reserved at
/// once, and a request for more memory than can be addressed panics.
pub const MAX_CAPACITY: usize = 16_777_216;

/// The contents of a cache without entries.
pub open spec fn nothing_cached() -> Map<u64, u64> {
    Map::empty()
}

/// Wraps `LruCache::new`, which makes a cache without entries that holds at most `capacity` of them.
/// Its argument is never zero.
#[verifier::external_body]
pub(crate) fn cache_new(capacity: usize) -> (cache: LruCache<u64, u64>)
    requires
        0 < capacity <= MAX_CAPACITY,
    ensures
        cache_entries(cache) == nothing_cached(),
        cache_capacity(cache) == capacity,
{
    LruCache::new(NonZeroUsize::new(capacity).unwrap())
}

/// Wraps `LruCache::clear`, which removes all entries and leaves the capacity.
#[verifier::external_body]
pub(crate) fn cache_clear(cache: &mut LruCache<u64, u64>)
    ensures
        cache_entries(*final(cache)) == nothing_cached(),
        cache_capacity(*final(cache)) == cache_capacity(*old(cache)),
{
    cache.clear();
}

} // verus!
