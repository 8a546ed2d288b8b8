//! Bloom filter for fast hash pre-screening in fingerprint lookups.
//!
//! A bloom filter provides O(1) set-membership queries with no false negatives
//! and a configurable false-positive rate. By checking the bloom filter before
//! hitting SQLite, we skip the vast majority of queries for hashes that don't
//! exist in the database.

use crate::wire::{push_u32, push_u64};
use vstd::prelude::*;
use vstd::std_specs::iter::IteratorSpec;

verus! {

/// Fewest bits a filter has.
pub const MIN_BITS: usize = 64;

/// Most hash functions a filter uses.
pub const MAX_HASHES: u32 = 16;

/// A simple bloom filter backed by a bit vector.
pub struct BloomFilter {
    bits: Vec<u64>,
    num_bits: usize,
    num_hashes: u32,
}

/// The bit that a derived hash falls on.
pub open spec fn position_of(derived: u64, num_bits: usize) -> int {
    (derived as usize) as int % num_bits as int
}

/// The bit that the `k`-th hash function assigns to `hash`.
pub open spec fn bit_of(hash: u64, k: int, num_bits: usize) -> int {
    position_of(
        crate::hashing::xxh3_of(crate::wire::le64(hash) + crate::wire::le32(k as u32)),
        num_bits,
    )
}

/// The bits that the first `n` hash functions assign to `hash`.
pub open spec fn positions(hash: u64, n: int, num_bits: usize) -> Set<int> {
    Set::new(|p: int| exists|k: int| 0 <= k < n && p == #[trigger] bit_of(hash, k, num_bits))
}

/// The bits assigned to any of the hashes.
pub open spec fn all_positions(hashes: Seq<u64>, n: int, num_bits: usize) -> Set<int>
    decreases hashes.len(),
{
    if hashes.len() == 0 {
        Set::empty()
    } else {
        all_positions(hashes.drop_last(), n, num_bits).union(positions(hashes.last(), n, num_bits))
    }
}

/// Number of bits a filter gets when `ideal` would be best.
pub open spec fn granted_bits(ideal: usize) -> usize {
    if ideal < MIN_BITS {
        MIN_BITS
    } else {
        ideal
    }
}

/// Number of hash functions a filter gets when `ideal` would be best.
pub open spec fn granted_hashes(ideal: u32) -> u32 {
    if ideal < 1 {
        1
    } else if ideal > MAX_HASHES {
        MAX_HASHES
    } else {
        ideal
    }
}

/// The word has the bit set.
spec fn word_has(word: u64, bit: int) -> bool {
    word & (1u64 << (bit as u64)) != 0
}

/// What a filter is: its size, its number of hash functions, and the bits that
/// are set.
pub ghost struct Filter {
    pub num_bits: usize,
    pub num_hashes: u32,
    pub filled: Set<int>,
}

impl Filter {
    /// The bits that the filter assigns to a hash.
    pub open spec fn bits_of(self, hash: u64) -> Set<int> {
        positions(hash, self.num_hashes as int, self.num_bits)
    }

    /// The filter once a hash has been inserted.
    pub open spec fn inserted(self, hash: u64) -> Filter {
        Filter { filled: self.filled.union(self.bits_of(hash)), ..self }
    }
}

impl View for BloomFilter {
    type V = Filter;

    closed spec fn view(&self) -> Filter {
        Filter {
            num_bits: self.num_bits,
            num_hashes: self.num_hashes,
            filled: self.set_bits(),
        }
    }
}

/// The bit that a derived hash falls on.
pub fn bit_position(derived: u64, num_bits: usize) -> (r: usize)
    requires
        num_bits > 0,
    ensures
        r == position_of(derived, num_bits),
{
    #[verifier::truncate]
    let wide: usize = derived as usize;
    wide % num_bits
}

impl BloomFilter {
    /// The filter has room for its bits, and hash functions to fill them with.
    pub closed spec fn wf(self) -> bool {
        &&& MIN_BITS <= self.num_bits
        &&& self.bits@.len() == (self.num_bits + 63) / 64
        &&& 1 <= self.num_hashes <= MAX_HASHES
    }

    /// The bits that are set.
    spec fn set_bits(self) -> Set<int> {
        Set::new(|p: int| 0 <= p < self.num_bits && word_has(self.bits@[p / 64], p % 64))
    }

    /// Create a bloom filter of `ideal_bits` bits, or 64 where that is more,
    /// with `ideal_hashes` hash functions, or the nearest number from 1 to 16.
    pub fn new(ideal_bits: usize, ideal_hashes: u32) -> (r: BloomFilter)
        requires
            ideal_bits + 63 <= usize::MAX,
        ensures
            r.wf(),
            r@ == (Filter {
                num_bits: granted_bits(ideal_bits),
                num_hashes: granted_hashes(ideal_hashes),
                filled: Set::empty(),
            }),
    {
        let num_bits: usize = if ideal_bits < MIN_BITS {
            MIN_BITS
        } else {
            ideal_bits
        };
        let num_hashes: u32 = if ideal_hashes < 1 {
            1
        } else if ideal_hashes > MAX_HASHES {
            MAX_HASHES
        } else {
            ideal_hashes
        };
        let words: usize = (num_bits + 63) / 64;
        let r = BloomFilter { bits: vec![0u64; words], num_bits, num_hashes };
        assert forall|p: int| !r.set_bits().contains(p) by {
            let b = (p % 64) as u64;
            assert(0u64 & (1u64 << b) == 0) by (bit_vector);
        }
        assert(r.set_bits() =~= Set::<int>::empty());
        r
    }

    /// Insert a hash into the filter.
    pub fn insert(&mut self, hash: u64)
        requires
            old(self).wf(),
        ensures
            final(self).wf(),
            final(self)@ == old(self)@.inserted(hash),
    {
        let n: u32 = self.num_hashes;
        let mut i: u32 = 0;
        let ghost before = self.set_bits();
        assert(self.set_bits() =~= before.union(positions(hash, 0, self.num_bits)));
        while i < n
            invariant
                i <= n,
                n == self.num_hashes,
                n == old(self).num_hashes,
                self.num_bits == old(self).num_bits,
                self.wf(),
                self.set_bits() == before.union(positions(hash, i as int, self.num_bits)),
            decreases n - i,
        {
            let bit = self.bit_index(hash, i);
            let word = self.bits[bit / 64];
            let b: u64 = (bit % 64) as u64;
            let ghost last = *self;
            self.bits.set(bit / 64, word | (1u64 << b));
            proof {
                lemma_set_bit(last.bits@, self.bits@, last.num_bits as int, bit as int, word);
                assert(self.set_bits() =~= last.set_bits().insert(bit as int));
                assert(positions(hash, i + 1, self.num_bits) =~= positions(
                    hash,
                    i as int,
                    self.num_bits,
                ).insert(bit as int)) by {
                    assert(bit == bit_of(hash, i as int, self.num_bits));
                }
                assert(self.set_bits() =~= before.union(positions(hash, i + 1, self.num_bits)));
            }
            i = i + 1;
        }
    }

    /// Check if a hash might be in the set. Returns `false` only if the hash
    /// is definitely absent; `true` means it may or may not be present.
    pub fn may_contain(&self, hash: u64) -> (r: bool)
        requires
            self.wf(),
        ensures
            r == self@.bits_of(hash).subset_of(self@.filled),
    {
        let mut i: u32 = 0;
        while i < self.num_hashes
            invariant
                i <= self.num_hashes,
                self.wf(),
                positions(hash, i as int, self.num_bits).subset_of(self.set_bits()),
            decreases self.num_hashes - i,
        {
            let bit = self.bit_index(hash, i);
            let word = self.bits[bit / 64];
            let b: u64 = (bit % 64) as u64;
            if word & (1u64 << b) == 0 {
                assert(positions(hash, self.num_hashes as int, self.num_bits).contains(bit as int))
                    by {
                    assert(bit == bit_of(hash, i as int, self.num_bits));
                }
                assert(!self.set_bits().contains(bit as int));
                return false;
            }
            assert(self.set_bits().contains(bit as int));
            i = i + 1;
        }
        true
    }

    /// Build a bloom filter from an iterator of hashes.
    pub fn from_hashes<I: Iterator<Item = u64>>(iter: I, ideal_bits: usize, ideal_hashes: u32) -> (r:
        BloomFilter)
        requires
            ideal_bits + 63 <= usize::MAX,
            iter.obeys_prophetic_iter_laws(),
            iter.decrease() is Some,
        ensures
            r.wf(),
            r@ == (Filter {
                num_bits: granted_bits(ideal_bits),
                num_hashes: granted_hashes(ideal_hashes),
                filled: all_positions(
                    iter.remaining(),
                    granted_hashes(ideal_hashes) as int,
                    granted_bits(ideal_bits),
                ),
            }),
    {
        let mut bf = Self::new(ideal_bits, ideal_hashes);
        let mut rest = iter;
        let ghost items = iter.remaining();
        let ghost mut done = Seq::<u64>::empty();
        assert(done + rest.remaining() =~= items);
        loop
            invariant
                bf.wf(),
                bf@.num_bits == granted_bits(ideal_bits),
                bf@.num_hashes == granted_hashes(ideal_hashes),
                rest.obeys_prophetic_iter_laws(),
                rest.decrease() is Some,
                done + rest.remaining() == items,
                bf@.filled == all_positions(done, bf@.num_hashes as int, bf@.num_bits),
            ensures
                rest.remaining().len() == 0,
            decreases rest.decrease()->0,
        {
            let ghost left = rest.remaining();
            match rest.next() {
                Some(h) => {
                    proof {
                        assert(done.push(h).drop_last() =~= done);
                        assert(done.push(h) + rest.remaining() =~= done + left);
                        done = done.push(h);
                    }
                    bf.insert(h);
                },
                None => {
                    break;
                },
            }
        }
        assert(done =~= items);
        bf
    }

    /// Derive a bit index from a hash and a hash-function index.
    /// Uses xxh3 with different seeds to produce independent bit positions.
    fn bit_index(&self, hash: u64, k: u32) -> (r: usize)
        requires
            self.wf(),
        ensures
            r == bit_of(hash, k as int, self.num_bits),
            r < self.num_bits,
            r / 64 < self.bits@.len(),
    {
        let mut data: Vec<u8> = Vec::with_capacity(12);
        push_u64(&mut data, hash);
        push_u32(&mut data, k);
        assert(data@ =~= crate::wire::le64(hash) + crate::wire::le32(k));
        bit_position(xxhash_rust::xxh3::xxh3_64(data.as_slice()), self.num_bits)
    }
}

proof fn lemma_set_bit(old_bits: Seq<u64>, new_bits: Seq<u64>, n: int, bit: int, word: u64)
    requires
        0 <= bit < n,
        old_bits.len() == (n + 63) / 64,
        word == old_bits[bit / 64],
        new_bits == old_bits.update(bit / 64, word | (1u64 << ((bit % 64) as u64))),
    ensures
        forall|p: int|
            0 <= p < n ==> #[trigger] word_has(new_bits[p / 64], p % 64) == (word_has(
                old_bits[p / 64],
                p % 64,
            ) || p == bit),
{
    assert forall|p: int| 0 <= p < n implies #[trigger] word_has(new_bits[p / 64], p % 64) == (
    word_has(old_bits[p / 64], p % 64) || p == bit) by {
        if p / 64 == bit / 64 {
            let b = (bit % 64) as u64;
            let c = (p % 64) as u64;
            assert(((word | (1u64 << b)) & (1u64 << c) != 0) == (word & (1u64 << c) != 0 || b == c))
                by (bit_vector)
                requires
                    b < 64,
                    c < 64,
            ;
        }
    }
}

/// There are no false negatives: once inserted, a hash is reported as possibly present.
pub proof fn law_inserted_is_found(filter: Filter, hash: u64)
    ensures
        filter.inserted(hash).bits_of(hash).subset_of(filter.inserted(hash).filled),
{
}

/// What is reported as possibly present stays so, whatever else is inserted.
pub proof fn law_found_stays_found(filter: Filter, hash: u64, other: u64)
    requires
        filter.bits_of(hash).subset_of(filter.filled),
    ensures
        filter.inserted(other).bits_of(hash).subset_of(filter.inserted(other).filled),
{
}

/// A filter built from hashes reports each of them as possibly present.
pub proof fn law_built_filter_finds_all(hashes: Seq<u64>, i: int, n: int, num_bits: usize)
    requires
        0 <= i < hashes.len(),
    ensures
        positions(hashes[i], n, num_bits).subset_of(all_positions(hashes, n, num_bits)),
    decreases hashes.len(),
{
    if i < hashes.len() - 1 {
        law_built_filter_finds_all(hashes.drop_last(), i, n, num_bits);
        assert(hashes.drop_last()[i] == hashes[i]);
    }
}

/// An empty filter reports every hash as absent.
pub proof fn law_empty_filter_finds_nothing(filter: Filter, hash: u64)
    requires
        filter.num_hashes >= 1,
        filter.filled == Set::<int>::empty(),
    ensures
        !filter.bits_of(hash).subset_of(filter.filled),
{
    assert(filter.bits_of(hash).contains(bit_of(hash, 0, filter.num_bits)));
}

/// The order of two insertions makes no difference.
pub proof fn law_insertions_commute(filter: Filter, a: u64, b: u64)
    ensures
        filter.inserted(a).inserted(b) == filter.inserted(b).inserted(a),
{
    assert(filter.inserted(a).inserted(b).filled =~= filter.inserted(b).inserted(a).filled);
}

/// The bits of a hash: for each hash function, the remainder by the number of
/// bits of the XXH3 of twelve bytes, eight that spell the hash and four that
/// spell the function's number.
pub proof fn law_bits_come_from_the_hash(hash: u64, k: u32, num_bits: usize, bytes: Seq<u8>)
    requires
        bytes.len() == 12,
        bytes[0] + 0x100 * bytes[1] + 0x1_0000 * bytes[2] + 0x100_0000 * bytes[3] + 0x1_0000_0000
            * bytes[4] + 0x100_0000_0000 * bytes[5] + 0x1_0000_0000_0000 * bytes[6]
            + 0x100_0000_0000_0000 * bytes[7] == hash,
        bytes[8] + 0x100 * bytes[9] + 0x1_0000 * bytes[10] + 0x100_0000 * bytes[11] == k,
    ensures
        bit_of(hash, k as int, num_bits) == (crate::hashing::xxh3_of(bytes) as usize) as int
            % num_bits as int,
{
    crate::wire::lemma_value_le32(bytes, 0);
    crate::wire::lemma_value_le32(bytes, 4);
    crate::wire::lemma_value_le32(bytes, 8);
    let low = crate::wire::value32(bytes, 0);
    let high = crate::wire::value32(bytes, 4);
    assert(hash == low + 0x1_0000_0000 * high);
    assert(hash % 0x1_0000_0000 == low);
    assert(hash / 0x1_0000_0000 == high);
    assert(bytes =~= crate::wire::le64(hash) + crate::wire::le32(k));
}

/// A filter asks of a hash the bits of all its hash functions, and no others.
pub proof fn law_every_hash_function_counts(filter: Filter, hash: u64)
    ensures
        forall|k: int|
            0 <= k < filter.num_hashes ==> filter.bits_of(hash).contains(
                #[trigger] bit_of(hash, k, filter.num_bits),
            ),
        forall|p: int| #[trigger]
            filter.bits_of(hash).contains(p) ==> exists|k: int|
                0 <= k < filter.num_hashes && p == #[trigger] bit_of(hash, k, filter.num_bits),
        filter.inserted(hash).num_bits == filter.num_bits,
        filter.inserted(hash).num_hashes == filter.num_hashes,
        forall|p: int| #[trigger]
            filter.inserted(hash).filled.contains(p) <==> filter.filled.contains(p)
                || filter.bits_of(hash).contains(p),
{
}

/// A filter gets what is best for it, where that is at least 64 bits and from 1
/// to 16 hash functions, else the nearest.
pub proof fn law_sizes_are_kept_in_bounds(bits: usize, hashes: u32)
    ensures
        granted_bits(bits) >= 64,
        bits >= 64 ==> granted_bits(bits) == bits,
        bits <= 64 ==> granted_bits(bits) == 64,
        1 <= granted_hashes(hashes) <= 16,
        1 <= hashes <= 16 ==> granted_hashes(hashes) == hashes,
        hashes > 16 ==> granted_hashes(hashes) == 16,
        hashes == 0 ==> granted_hashes(hashes) == 1,
{
}

/// A bit that is set stands for a hash that was put in, so that a filter built
/// from hashes reports no other hash than one whose bits they all cover.
pub proof fn law_only_inserted_bits_are_set(hashes: Seq<u64>, n: int, num_bits: usize, p: int)
    requires
        all_positions(hashes, n, num_bits).contains(p),
    ensures
        exists|i: int|
            0 <= i < hashes.len() && positions(#[trigger] hashes[i], n, num_bits).contains(p),
    decreases hashes.len(),
{
    let rest = hashes.drop_last();
    if all_positions(rest, n, num_bits).contains(p) {
        law_only_inserted_bits_are_set(rest, n, num_bits, p);
        let i = choose|i: int|
            0 <= i < rest.len() && positions(#[trigger] rest[i], n, num_bits).contains(p);
        assert(hashes[i] == rest[i]);
    } else {
        assert(positions(hashes[hashes.len() - 1], n, num_bits).contains(p));
    }
}

} // verus!
