//! Sound signatures: their dimensions, their bands and their stored form.
//!
//! A signature is a fixed-length vector that captures the character of a
//! room's ambient sound, either a spectral envelope or a learned embedding.

use crate::ieee::F32Bits;
use crate::wire::{push_u32, read_u32};
use vstd::arithmetic::div_mod::*;
use vstd::arithmetic::mul::*;
use vstd::prelude::*;

verus! {

/// Number of frequency bands in the signature vector.
pub const NUM_BANDS: usize = 64;

/// Features per band: mean, variance, peak ratio.
pub const FEATURES_PER_BAND: usize = 3;

/// Total signature vector length for the spectral backend.
pub const SIGNATURE_LEN: usize = 192;

/// A sound signature vector (spectral or learned embedding).
#[derive(Debug, Clone)]
pub struct Signature {
    /// The feature vector, L2-normalized.
    /// Length is `SIGNATURE_LEN` (192) for spectral signatures or model-dependent
    /// for learned embeddings.
    pub vector: Vec<F32Bits>,
}

/// The bytes of a vector: four for each number, least significant first.
pub open spec fn vector_bytes(vector: Seq<F32Bits>) -> Seq<u8>
    decreases vector.len(),
{
    if vector.len() == 0 {
        Seq::empty()
    } else {
        vector_bytes(vector.drop_last()) + crate::wire::le32(vector.last().bits)
    }
}

impl Signature {
    /// Create a signature from a pre-computed embedding vector (e.g., from an ONNX model).
    /// The vector must already be L2-normalized.
    pub fn from_embedding(vector: Vec<F32Bits>) -> (r: Signature)
        ensures
            r.vector == vector,
    {
        Signature { vector }
    }

    /// Serialize the vector to bytes for SQLite blob storage.
    pub fn to_bytes(&self) -> (r: Vec<u8>)
        ensures
            r@ == vector_bytes(self.vector@),
    {
        let mut bytes: Vec<u8> = Vec::new();
        let mut i: usize = 0;
        while i < self.vector.len()
            invariant
                i <= self.vector.len(),
                bytes@ == vector_bytes(self.vector@.take(i as int)),
            decreases self.vector.len() - i,
        {
            push_u32(&mut bytes, self.vector[i].bits);
            assert(self.vector@.take(i + 1).drop_last() =~= self.vector@.take(i as int));
            i = i + 1;
        }
        assert(self.vector@.take(i as int) =~= self.vector@);
        bytes
    }

    /// Deserialize from bytes (SQLite blob).
    /// Accepts any length that is a multiple of 4 bytes (variable-dim embeddings);
    /// no bytes at all are an empty vector.
    pub fn from_bytes(bytes: &[u8]) -> (r: Option<Signature>)
        ensures
            r is None <==> bytes@.len() % 4 != 0,
            r matches Some(sig) ==> sig.vector@.len() == bytes@.len() / 4 && forall|i: int|
                0 <= i < sig.vector@.len() ==> (#[trigger] sig.vector@[i]).bits
                    == crate::wire::value32(bytes@, 4 * i),
    {
        if bytes.len() % 4 != 0 {
            return None;
        }
        let count: usize = bytes.len() / 4;
        let mut vector: Vec<F32Bits> = Vec::new();
        let mut i: usize = 0;
        while i < count
            invariant
                i <= count,
                count == bytes@.len() / 4,
                bytes@.len() % 4 == 0,
                bytes@.len() == bytes.len(),
                vector@.len() == i,
                forall|j: int|
                    0 <= j < i ==> (#[trigger] vector@[j]).bits == crate::wire::value32(
                        bytes@,
                        4 * j,
                    ),
            decreases count - i,
        {
            vector.push(F32Bits { bits: read_u32(bytes, 4 * i) });
            i = i + 1;
        }
        Some(Signature { vector })
    }

    /// Returns the dimensionality of this signature.
    pub fn dim(&self) -> (r: usize)
        ensures
            r == self.vector@.len(),
    {
        self.vector.len()
    }
}

/// First bin of a band of the spectral signature, and one past its last bin.
pub open spec fn band_range(num_bins: int, band: int) -> (int, int) {
    let width = num_bins / NUM_BANDS as int;
    (
        band * width,
        if band == NUM_BANDS - 1 {
            num_bins
        } else {
            (band + 1) * width
        },
    )
}

/// First bin of a band of the spectral signature, and one past its last bin;
/// the last band takes what remains.
pub fn band_bins(num_bins: usize, band: usize) -> (r: (usize, usize))
    requires
        band < NUM_BANDS,
    ensures
        (r.0 as int, r.1 as int) == band_range(num_bins as int, band as int),
        r.0 <= r.1 <= num_bins,
{
    let bins_per_band: usize = num_bins / NUM_BANDS;
    proof {
        lemma_mul_inequality(band as int, 64, bins_per_band as int);
        lemma_mul_inequality(band + 1, 64, bins_per_band as int);
        lemma_mul_nonnegative(band as int, bins_per_band as int);
        lemma_mul_is_distributive_add_other_way(bins_per_band as int, band as int, 1);
    }
    let bin_start: usize = band * bins_per_band;
    let bin_end: usize = if band == NUM_BANDS - 1 {
        num_bins
    } else {
        (band + 1) * bins_per_band
    };
    (bin_start, bin_end)
}

/// The bands follow one another without gap or overlap, from the first bin to the last.
pub proof fn law_bands_tile_the_bins(num_bins: int, band: int)
    requires
        0 <= num_bins,
        0 <= band < NUM_BANDS,
    ensures
        band_range(num_bins, 0).0 == 0,
        band_range(num_bins, NUM_BANDS - 1).1 == num_bins,
        band < NUM_BANDS - 1 ==> band_range(num_bins, band).1 == band_range(num_bins, band + 1).0,
{
}

/// The bytes of a vector hold each number at four times its index.
proof fn lemma_vector_bytes(vector: Seq<F32Bits>, i: int)
    requires
        0 <= i < vector.len(),
    ensures
        vector_bytes(vector).len() == 4 * vector.len(),
        crate::wire::value32(vector_bytes(vector), 4 * i) == vector[i].bits,
    decreases vector.len(),
{
    let rest = vector.drop_last();
    let last = crate::wire::le32(vector.last().bits);
    lemma_vector_bytes_len(rest);
    lemma_vector_bytes_len(vector);
    if i < rest.len() {
        lemma_vector_bytes(rest, i);
        assert(rest[i] == vector[i]);
    } else {
        crate::wire::lemma_le32_value(vector.last().bits);
    }
}

proof fn lemma_vector_bytes_len(vector: Seq<F32Bits>)
    ensures
        vector_bytes(vector).len() == 4 * vector.len(),
    decreases vector.len(),
{
    if vector.len() > 0 {
        lemma_vector_bytes_len(vector.drop_last());
    }
}

/// Reading back the bytes of a vector gives the vector: the bytes are a
/// multiple of four, and the numbers they spell are its numbers.
pub proof fn law_stored_vector_reads_back(vector: Seq<F32Bits>)
    ensures
        vector_bytes(vector).len() % 4 == 0,
        vector_bytes(vector).len() / 4 == vector.len(),
        forall|i: int|
            0 <= i < vector.len() ==> (#[trigger] vector[i]).bits == crate::wire::value32(
                vector_bytes(vector),
                4 * i,
            ),
{
    lemma_vector_bytes_len(vector);
    assert forall|i: int| 0 <= i < vector.len() implies (#[trigger] vector[i]).bits
        == crate::wire::value32(vector_bytes(vector), 4 * i) by {
        lemma_vector_bytes(vector, i);
    }
}

/// Writing out a vector read from bytes gives the same bytes.
pub proof fn law_read_vector_writes_back(vector: Seq<F32Bits>, bytes: Seq<u8>)
    requires
        bytes.len() == 4 * vector.len(),
        forall|i: int|
            0 <= i < vector.len() ==> (#[trigger] vector[i]).bits == crate::wire::value32(
                bytes,
                4 * i,
            ),
    ensures
        vector_bytes(vector) == bytes,
    decreases vector.len(),
{
    if vector.len() > 0 {
        let n = vector.len() as int;
        let rest = vector.drop_last();
        let head = bytes.take(4 * (n - 1));
        assert forall|i: int| 0 <= i < rest.len() implies (#[trigger] rest[i]).bits
            == crate::wire::value32(head, 4 * i) by {
            assert(rest[i] == vector[i]);
        }
        law_read_vector_writes_back(rest, head);
        crate::wire::lemma_value_le32(bytes, 4 * (n - 1));
        assert(vector[n - 1].bits == crate::wire::value32(bytes, 4 * (n - 1)));
        assert(vector_bytes(vector) =~= bytes);
    } else {
        assert(vector_bytes(vector) =~= bytes);
    }
}

/// All bands but the last are as wide: a sixty-fourth of the bins, rounded down.
/// The last is as wide or wider.
pub proof fn law_bands_are_as_wide(num_bins: int, band: int)
    requires
        0 <= num_bins,
        0 <= band < 64,
    ensures
        band < 63 ==> band_range(num_bins, band).1 - band_range(num_bins, band).0 == num_bins / 64,
        band == 63 ==> band_range(num_bins, band).1 - band_range(num_bins, band).0 >= num_bins / 64,
{
    let width = num_bins / 64;
    assert((band + 1) * width == band * width + width) by (nonlinear_arith);
}

/// A spectral signature has three numbers for each of its 64 bands.
pub proof fn law_numbers_of_a_signature()
    ensures
        SIGNATURE_LEN == NUM_BANDS * FEATURES_PER_BAND,
        NUM_BANDS == 64,
        FEATURES_PER_BAND == 3,
{
}

} // verus!
