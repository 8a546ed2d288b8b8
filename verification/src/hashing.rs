//! The hash function behind fingerprints and the bloom filter.

use vstd::prelude::*;

verus! {

/// What `xxh3_64` of `xxhash-rust` returns for the given bytes.
pub uninterp spec fn xxh3_of(data: Seq<u8>) -> u64;

/// `xxhash_rust::xxh3::xxh3_64` is a function of the bytes it is given: the
/// XXH3 64-bit hash with the default seed and secret. Which number that is
/// stays unstated.
pub assume_specification[ xxhash_rust::xxh3::xxh3_64 ](input: &[u8]) -> (hash: u64)
    ensures
        hash == xxh3_of(input@),
;

} // verus!
