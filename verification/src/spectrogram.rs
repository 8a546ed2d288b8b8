//! Spectrogram layout: framing of the samples and access to the magnitudes.

use crate::ieee::F32Bits;
use vstd::arithmetic::div_mod::*;
use vstd::arithmetic::mul::*;
use vstd::prelude::*;

verus! {

/// Parameters for spectrogram generation.
#[derive(Debug, Clone, Copy)]
pub struct SpectrogramConfig {
    /// FFT window size in samples.
    pub window_size: usize,
    /// Hop size between successive windows.
    pub hop_size: usize,
    /// Apply Hann window before FFT.
    pub apply_window: bool,
}

impl Default for SpectrogramConfig {
    fn default() -> (r: SpectrogramConfig)
        ensures
            r.window_size == 1024,
            r.hop_size == 512,
            r.apply_window,
    {
        SpectrogramConfig { window_size: 1024, hop_size: 512, apply_window: true }
    }
}

impl SpectrogramConfig {
    /// Number of frequency bins per frame.
    pub fn num_bins(&self) -> (r: usize)
        ensures
            r == self.window_size / 2 + 1,
    {
        self.window_size / 2 + 1
    }
}

/// A computed spectrogram stored as a flat, contiguous buffer.
///
/// Magnitudes are stored in row-major order: `[frame * num_bins + bin]`.
#[derive(Debug, Clone)]
pub struct Spectrogram {
    /// Flat magnitude data: `num_frames * num_bins` elements, row-major.
    pub magnitudes: Vec<F32Bits>,
    /// Number of time frames.
    pub num_frames: usize,
    /// Number of frequency bins per frame (window_size / 2 + 1).
    pub num_bins: usize,
    /// Hop size used.
    pub hop_size: usize,
    /// Sample rate of the source audio.
    pub sample_rate: u32,
}

impl Spectrogram {
    /// The buffer holds one magnitude for each frame and bin.
    pub open spec fn wf(self) -> bool {
        self.magnitudes@.len() == self.num_frames * self.num_bins
    }

    /// Magnitude at a frame and a bin.
    pub open spec fn at(self, frame: int, bin: int) -> F32Bits {
        self.magnitudes@[frame * self.num_bins + bin]
    }

    /// Access magnitude at `[frame][bin]`.
    pub fn mag(&self, frame: usize, bin: usize) -> (r: F32Bits)
        requires
            frame * self.num_bins + bin < self.magnitudes@.len(),
        ensures
            r == self.at(frame as int, bin as int),
    {
        assert(0 <= frame * self.num_bins) by (nonlinear_arith)
            requires
                0 <= frame,
                0 <= self.num_bins,
        ;
        assert(self.magnitudes@.len() == self.magnitudes.len());
        self.magnitudes[frame * self.num_bins + bin]
    }

    /// Get a slice of magnitudes for an entire frame.
    pub fn frame(&self, frame: usize) -> (r: &[F32Bits])
        requires
            frame * self.num_bins + self.num_bins <= self.magnitudes@.len(),
        ensures
            r@ == self.magnitudes@.subrange(
                frame * self.num_bins,
                frame * self.num_bins + self.num_bins,
            ),
    {
        assert(0 <= frame * self.num_bins) by (nonlinear_arith)
            requires
                0 <= frame,
                0 <= self.num_bins,
        ;
        assert(self.magnitudes@.len() == self.magnitudes.len());
        let start: usize = frame * self.num_bins;
        &self.magnitudes.as_slice()[start..start + self.num_bins]
    }

    /// Every frame and bin of a well-formed spectrogram has its place in the buffer.
    pub proof fn lemma_in_bounds(self, frame: int, bin: int)
        requires
            self.wf(),
            0 <= frame < self.num_frames,
            0 <= bin < self.num_bins,
        ensures
            0 <= frame * self.num_bins,
            frame * self.num_bins + self.num_bins <= self.magnitudes@.len(),
            0 <= frame * self.num_bins + bin < self.magnitudes@.len(),
    {
        lemma_mul_inequality(frame + 1, self.num_frames as int, self.num_bins as int);
        lemma_mul_is_distributive_add_other_way(self.num_bins as int, frame, 1);
        lemma_mul_nonnegative(frame, self.num_bins as int);
    }
}

/// Number of frames of `window_size` samples, `hop_size` apart, in `num_samples`.
pub open spec fn frames_in(num_samples: int, window_size: int, hop_size: int) -> int {
    if num_samples >= window_size {
        (num_samples - window_size) / hop_size + 1
    } else {
        0
    }
}

/// Count how many frames fit in the given number of samples.
pub fn frame_count(num_samples: usize, window_size: usize, hop_size: usize) -> (r: usize)
    requires
        num_samples >= window_size ==> hop_size > 0,
        frames_in(num_samples as int, window_size as int, hop_size as int) <= usize::MAX,
    ensures
        r == frames_in(num_samples as int, window_size as int, hop_size as int),
{
    if num_samples >= window_size {
        (num_samples - window_size) / hop_size + 1
    } else {
        0
    }
}

/// First sample of a frame, and one past its last sample.
pub fn frame_span(num_samples: usize, frame_idx: usize, window_size: usize, hop_size: usize) -> (r: (
    usize,
    usize,
))
    requires
        frame_idx * hop_size <= num_samples,
        frame_idx * hop_size + window_size <= usize::MAX,
    ensures
        r.0 == frame_idx * hop_size,
        r.1 == (if frame_idx * hop_size + window_size <= num_samples {
            frame_idx * hop_size + window_size
        } else {
            num_samples as int
        }),
{
    assert(0 <= frame_idx * hop_size) by (nonlinear_arith)
        requires
            0 <= frame_idx,
            0 <= hop_size,
    ;
    let start: usize = frame_idx * hop_size;
    let full: usize = start + window_size;
    if full <= num_samples {
        (start, full)
    } else {
        (start, num_samples)
    }
}

/// A frame lies wholly within the samples exactly when its index is below the frame count.
pub proof fn law_frames_fit(num_samples: int, window_size: int, hop_size: int, frame: int)
    requires
        0 <= num_samples,
        0 <= window_size,
        0 < hop_size,
        0 <= frame,
    ensures
        frame < frames_in(num_samples, window_size, hop_size) <==> frame * hop_size + window_size
            <= num_samples,
{
    if num_samples >= window_size {
        let room = num_samples - window_size;
        lemma_fundamental_div_mod(room, hop_size);
        lemma_mod_bound(room, hop_size);
        let last = room / hop_size;
        if frame <= last {
            lemma_mul_inequality(frame, last, hop_size);
            lemma_mul_is_commutative(last, hop_size);
        } else {
            lemma_mul_inequality(last + 1, frame, hop_size);
            lemma_mul_is_distributive_add_other_way(hop_size, last, 1);
            lemma_mul_is_commutative(last, hop_size);
        }
    } else {
        lemma_mul_nonnegative(frame, hop_size);
    }
}

/// A spectrogram holds frame after frame, each bin by bin.
pub proof fn law_frames_are_rows(s: Spectrogram, frame: int, bin: int)
    requires
        s.wf(),
        0 <= frame < s.num_frames,
        0 <= bin < s.num_bins,
    ensures
        s.at(frame, bin) == s.magnitudes@.subrange(
            frame * s.num_bins,
            frame * s.num_bins + s.num_bins,
        )[bin],
{
    s.lemma_in_bounds(frame, bin);
}

} // verus!
