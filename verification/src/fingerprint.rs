//! Audio fingerprinting using constellation map + combinatorial hashing.
//!
//! 1. Find spectral peaks (constellation points)
//! 2. Form fingerprint hashes by pairing peaks in a target zone
//! 3. Each hash encodes: (freq1, freq2, time_delta) -> anchor_time

use crate::ieee::F32Bits;
use crate::spectrogram::{Spectrogram, SpectrogramConfig};
use crate::wire::push_u32;
use vstd::arithmetic::div_mod::*;
use vstd::arithmetic::mul::*;
use vstd::prelude::*;
use vstd::relations::*;
use vstd::seq_lib::*;

verus! {

/// Number of frequency bands for peak extraction.
pub const NUM_BANDS: usize = 6;

/// Maximum number of peaks per band per frame.
pub const MAX_PEAKS_PER_BAND: usize = 3;

/// Minimum magnitude threshold for a peak: the pattern of 0.01.
pub const PEAK_THRESHOLD: u32 = 0x3c23_d70a;

/// Size of the local neighbourhood for peak detection (frames on each side).
pub const PEAK_NEIGHBOURHOOD_TIME: usize = 5;

/// Size of the local neighbourhood for peak detection (bins on each side).
pub const PEAK_NEIGHBOURHOOD_FREQ: usize = 5;

/// Target zone: how far ahead in time to look for pair peaks.
pub const TARGET_ZONE_T_MIN: usize = 1;

pub const TARGET_ZONE_T_MAX: usize = 60;

/// Target zone: frequency range around anchor peak.
pub const TARGET_ZONE_F_RANGE: usize = 100;

/// Maximum number of pairs per anchor point.
pub const MAX_PAIRS_PER_ANCHOR: usize = 5;

/// A spectral peak in the constellation map.
#[derive(Debug, Clone, Copy, PartialEq, Eq, Structural)]
pub struct Peak {
    /// Time frame index.
    pub frame: usize,
    /// Frequency bin index.
    pub bin: usize,
    /// Magnitude at this peak.
    pub magnitude: F32Bits,
}

/// A fingerprint hash with its time offset.
#[derive(Debug, Clone, Copy, PartialEq, Eq, Structural)]
pub struct Fingerprint {
    /// The hash value encoding (freq1, freq2, dt).
    pub hash: u64,
    /// The absolute time offset (frame index of anchor peak).
    pub offset: u32,
}

/// Configuration for the fingerprinting engine.
#[derive(Debug, Clone, Copy)]
pub struct FingerprintConfig {
    pub spectrogram: SpectrogramConfig,
    pub num_bands: usize,
    pub max_peaks_per_band: usize,
    pub peak_threshold: F32Bits,
    pub target_zone_t_min: usize,
    pub target_zone_t_max: usize,
    pub target_zone_f_range: usize,
    pub max_pairs_per_anchor: usize,
}

impl FingerprintConfig {
    /// The configuration used unless another is given.
    pub open spec fn is_default(self) -> bool {
        &&& self.spectrogram.window_size == 1024
        &&& self.spectrogram.hop_size == 512
        &&& self.spectrogram.apply_window
        &&& self.num_bands == NUM_BANDS
        &&& self.max_peaks_per_band == MAX_PEAKS_PER_BAND
        &&& self.peak_threshold.bits == PEAK_THRESHOLD
        &&& self.target_zone_t_min == TARGET_ZONE_T_MIN
        &&& self.target_zone_t_max == TARGET_ZONE_T_MAX
        &&& self.target_zone_f_range == TARGET_ZONE_F_RANGE
        &&& self.max_pairs_per_anchor == MAX_PAIRS_PER_ANCHOR
    }
}

impl Default for FingerprintConfig {
    fn default() -> (r: FingerprintConfig)
        ensures
            r.is_default(),
    {
        FingerprintConfig {
            spectrogram: SpectrogramConfig::default(),
            num_bands: NUM_BANDS,
            max_peaks_per_band: MAX_PEAKS_PER_BAND,
            peak_threshold: F32Bits { bits: PEAK_THRESHOLD },
            target_zone_t_min: TARGET_ZONE_T_MIN,
            target_zone_t_max: TARGET_ZONE_T_MAX,
            target_zone_f_range: TARGET_ZONE_F_RANGE,
            max_pairs_per_anchor: MAX_PAIRS_PER_ANCHOR,
        }
    }
}

/// The fingerprinting engine.
pub struct Fingerprinter {
    pub config: FingerprintConfig,
}

/// Order of the peaks of one band: the stronger first; among peaks of equal
/// magnitude the lower bin first.
pub open spec fn ranks(a: Peak, b: Peak) -> bool {
    ||| a.magnitude.order() > b.magnitude.order()
    ||| a.magnitude.order() == b.magnitude.order() && a.bin < b.bin
    ||| a.magnitude.order() == b.magnitude.order() && a.bin == b.bin && a.frame < b.frame
    ||| a.magnitude.order() == b.magnitude.order() && a.bin == b.bin && a.frame == b.frame
        && a.magnitude.bits <= b.magnitude.bits
}

/// Ranking is a total order on peaks.
pub proof fn lemma_ranks_total()
    ensures
        total_ordering(|a: Peak, b: Peak| ranks(a, b)),
{
}

/// The first `max` of the peaks in the order of their ranks.
pub open spec fn strongest(c: Seq<Peak>, max: int) -> Seq<Peak> {
    let ranked = c.sort_by(|a: Peak, b: Peak| ranks(a, b));
    if ranked.len() <= max {
        ranked
    } else {
        ranked.take(max)
    }
}

/// Peaks that can be ranked: a single one always, more when all their
/// magnitudes are numbers.
pub open spec fn comparable(c: Seq<Peak>) -> bool {
    c.len() <= 1 || forall|i: int| 0 <= i < c.len() ==> !(#[trigger] c[i]).magnitude.is_nan()
}

/// No point of the neighbourhood of (`frame`, `bin`), other than that point
/// itself, has a magnitude above `mag`.
pub open spec fn is_local_max(s: Spectrogram, frame: int, bin: int, mag: F32Bits) -> bool {
    forall|t: int, f: int|
        0 <= t < s.num_frames && 0 <= f < s.num_bins && frame - PEAK_NEIGHBOURHOOD_TIME <= t
            <= frame + PEAK_NEIGHBOURHOOD_TIME && bin - PEAK_NEIGHBOURHOOD_FREQ <= f <= bin
            + PEAK_NEIGHBOURHOOD_FREQ && !(t == frame && f == bin) ==> !(#[trigger] s.at(
            t,
            f,
        )).exceeds(mag)
}

/// All peaks lie in the given frame.
spec fn all_in_frame(peaks: Seq<Peak>, frame: int) -> bool {
    forall|i: int| 0 <= i < peaks.len() ==> (#[trigger] peaks[i]).frame == frame as usize
}

/// The peaks stand in the order of their frames.
pub open spec fn sorted_by_frame(peaks: Seq<Peak>) -> bool {
    forall|i: int, j: int|
        0 <= i <= j < peaks.len() ==> (#[trigger] peaks[i]).frame <= (#[trigger] peaks[j]).frame
}

/// The hash of anchor frequency, target frequency and time delta.
pub open spec fn hash_of(freq1: u32, freq2: u32, dt: u32) -> u64 {
    crate::hashing::xxh3_of(
        crate::wire::le32(freq1) + crate::wire::le32(freq2) + crate::wire::le32(dt),
    )
}

/// Distance between two bins.
pub open spec fn bin_distance(a: Peak, b: Peak) -> int {
    if a.bin >= b.bin {
        a.bin - b.bin
    } else {
        b.bin - a.bin
    }
}

/// The fingerprint of a pair of peaks.
pub open spec fn pair_fingerprint(anchor: Peak, target: Peak) -> Fingerprint {
    Fingerprint {
        hash: hash_of(
            anchor.bin as u32,
            target.bin as u32,
            (target.frame - anchor.frame) as u32,
        ),
        offset: anchor.frame as u32,
    }
}

impl Fingerprinter {
    /// The point at (`frame`, `bin`) as a peak.
    pub open spec fn point(s: Spectrogram, frame: int, bin: int) -> Peak {
        Peak { frame: frame as usize, bin: bin as usize, magnitude: s.at(frame, bin) }
    }

    /// The magnitude at the point is not below the threshold, and no
    /// neighbour's is above it. A magnitude that is not a number is neither
    /// below nor exceeded, so such a point counts.
    pub open spec fn is_peak(self, s: Spectrogram, frame: int, bin: int) -> bool {
        !self.config.peak_threshold.exceeds(s.at(frame, bin)) && is_local_max(
            s,
            frame,
            bin,
            s.at(frame, bin),
        )
    }

    /// The peaks of a frame among the bins from `lo` up to `hi`, in the order of the bins.
    pub open spec fn peaks_between(self, s: Spectrogram, frame: int, lo: int, hi: int) -> Seq<Peak>
        decreases hi - lo,
    {
        if hi <= lo {
            Seq::empty()
        } else if self.is_peak(s, frame, hi - 1) {
            self.peaks_between(s, frame, lo, hi - 1).push(Self::point(s, frame, hi - 1))
        } else {
            self.peaks_between(s, frame, lo, hi - 1)
        }
    }

    /// Number of bins in a band.
    pub open spec fn band_size(self, s: Spectrogram) -> int {
        s.num_bins as int / self.config.num_bands as int
    }

    /// All peaks of a band of a frame.
    pub open spec fn band_candidates(self, s: Spectrogram, frame: int, band: int) -> Seq<Peak> {
        self.peaks_between(s, frame, band * self.band_size(s), (band + 1) * self.band_size(s))
    }

    /// The peaks kept in the first `bands` bands of a frame, band by band.
    pub open spec fn frame_peaks(self, s: Spectrogram, frame: int, bands: int) -> Seq<Peak>
        decreases bands,
    {
        if bands <= 0 {
            Seq::empty()
        } else {
            self.frame_peaks(s, frame, bands - 1) + strongest(
                self.band_candidates(s, frame, bands - 1),
                self.config.max_peaks_per_band as int,
            )
        }
    }

    /// The peaks kept in the first `frames` frames, frame by frame.
    pub open spec fn constellation(self, s: Spectrogram, frames: int) -> Seq<Peak>
        decreases frames,
    {
        if frames <= 0 {
            Seq::empty()
        } else {
            self.constellation(s, frames - 1) + self.frame_peaks(
                s,
                frames - 1,
                self.config.num_bands as int,
            )
        }
    }

    /// In every band of every frame the candidates can be ranked.
    pub open spec fn rankable(self, s: Spectrogram) -> bool {
        forall|frame: int, band: int|
            0 <= frame < s.num_frames && 0 <= band < self.config.num_bands ==> comparable(
                #[trigger] self.band_candidates(s, frame, band),
            )
    }

    /// `target` lies in the target zone of `anchor`.
    pub open spec fn in_target_zone(self, anchor: Peak, target: Peak) -> bool {
        &&& self.config.target_zone_t_min <= target.frame - anchor.frame
            <= self.config.target_zone_t_max
        &&& bin_distance(anchor, target) <= self.config.target_zone_f_range
    }

    /// The peaks after index `i` and before index `end` in the target zone of peak `i`.
    pub open spec fn zone_targets(self, peaks: Seq<Peak>, i: int, end: int) -> Seq<Peak>
        decreases end - i,
    {
        if end <= i + 1 {
            Seq::empty()
        } else if self.in_target_zone(peaks[i], peaks[end - 1]) {
            self.zone_targets(peaks, i, end - 1).push(peaks[end - 1])
        } else {
            self.zone_targets(peaks, i, end - 1)
        }
    }

    /// How many targets an anchor is paired with at most.
    pub open spec fn pair_limit(self) -> int {
        self.config.max_pairs_per_anchor as int
    }

    /// The targets that peak `i` is paired with.
    pub open spec fn chosen_targets(self, peaks: Seq<Peak>, i: int) -> Seq<Peak> {
        let all = self.zone_targets(peaks, i, peaks.len() as int);
        if all.len() <= self.pair_limit() {
            all
        } else {
            all.take(self.pair_limit())
        }
    }

    /// The fingerprints of peak `i` as anchor.
    pub open spec fn anchor_fingerprints(self, peaks: Seq<Peak>, i: int) -> Seq<Fingerprint> {
        self.chosen_targets(peaks, i).map_values(|t: Peak| pair_fingerprint(peaks[i], t))
    }

    /// The fingerprints of the first `n` peaks as anchors.
    pub open spec fn fingerprints_of(self, peaks: Seq<Peak>, n: int) -> Seq<Fingerprint>
        decreases n,
    {
        if n <= 0 {
            Seq::empty()
        } else {
            self.fingerprints_of(peaks, n - 1) + self.anchor_fingerprints(peaks, n - 1)
        }
    }

    pub fn new(config: FingerprintConfig) -> (r: Fingerprinter)
        ensures
            r.config == config,
    {
        Fingerprinter { config }
    }

    pub fn with_defaults() -> (r: Fingerprinter)
        ensures
            r.config.is_default(),
    {
        Self::new(FingerprintConfig::default())
    }

    /// Check if a point is a local maximum in its neighbourhood.
    pub fn is_local_maximum(
        &self,
        spectrogram: &Spectrogram,
        frame: usize,
        bin: usize,
        mag: F32Bits,
    ) -> (r: bool)
        requires
            spectrogram.wf(),
            frame < spectrogram.num_frames,
            bin < spectrogram.num_bins,
        ensures
            r == is_local_max(*spectrogram, frame as int, bin as int, mag),
    {
        let t_start: usize = frame.saturating_sub(PEAK_NEIGHBOURHOOD_TIME);
        let t_end: usize = if spectrogram.num_frames - frame <= PEAK_NEIGHBOURHOOD_TIME {
            spectrogram.num_frames
        } else {
            frame + PEAK_NEIGHBOURHOOD_TIME + 1
        };
        let f_start: usize = bin.saturating_sub(PEAK_NEIGHBOURHOOD_FREQ);
        let f_end: usize = if spectrogram.num_bins - bin <= PEAK_NEIGHBOURHOOD_FREQ {
            spectrogram.num_bins
        } else {
            bin + PEAK_NEIGHBOURHOOD_FREQ + 1
        };
        let ghost s = *spectrogram;
        let mut t: usize = t_start;
        while t < t_end
            invariant
                spectrogram.wf(),
                s == *spectrogram,
                t_start <= t <= t_end <= spectrogram.num_frames,
                f_start <= f_end <= spectrogram.num_bins,
                f_start == (if bin >= 5 { bin - 5 } else { 0 }),
                f_end == (if bin + 6 <= s.num_bins { bin + 6 } else { s.num_bins as int }),
                t_start == (if frame >= 5 { frame - 5 } else { 0 }),
                t_end == (if frame + 6 <= s.num_frames { frame + 6 } else { s.num_frames as int }),
                forall|t2: int, f2: int|
                    t_start <= t2 < t && f_start <= f2 < f_end && !(t2 == frame && f2 == bin)
                        ==> !(#[trigger] s.at(t2, f2)).exceeds(mag),
            decreases t_end - t,
        {
            let mut f: usize = f_start;
            while f < f_end
                invariant
                    spectrogram.wf(),
                    s == *spectrogram,
                    t_start <= t < t_end <= spectrogram.num_frames,
                    f_start <= f <= f_end <= spectrogram.num_bins,
                    f_start == (if bin >= 5 { bin - 5 } else { 0 }),
                    f_end == (if bin + 6 <= s.num_bins { bin + 6 } else { s.num_bins as int }),
                    t_start == (if frame >= 5 { frame - 5 } else { 0 }),
                    t_end == (if frame + 6 <= s.num_frames {
                        frame + 6
                    } else {
                        s.num_frames as int
                    }),
                    forall|t2: int, f2: int|
                        t_start <= t2 < t && f_start <= f2 < f_end && !(t2 == frame && f2 == bin)
                            ==> !(#[trigger] s.at(t2, f2)).exceeds(mag),
                    forall|f2: int|
                        f_start <= f2 < f && !(t == frame && f2 == bin) ==> !(#[trigger] s.at(
                            t as int,
                            f2,
                        )).exceeds(mag),
                decreases f_end - f,
            {
                if !(t == frame && f == bin) {
                    proof {
                        s.lemma_in_bounds(t as int, f as int);
                    }
                    let other = spectrogram.mag(t, f);
                    if other.gt(&mag) {
                        return false;
                    }
                }
                f = f + 1;
            }
            t = t + 1;
        }
        true
    }
}

/// The position of a peak in a band's ranking is decided by `ranks`.
fn ranks_before(a: &Peak, b: &Peak) -> (r: bool)
    ensures
        r == ranks(*a, *b),
{
    let ra = a.magnitude.rank();
    let rb = b.magnitude.rank();
    ra > rb || (ra == rb && (a.bin < b.bin || (a.bin == b.bin && (a.frame < b.frame || (a.frame
        == b.frame && a.magnitude.bits <= b.magnitude.bits)))))
}

/// Sorts the peaks of a band by rank.
pub fn sort_peaks(peaks: &Vec<Peak>) -> (r: Vec<Peak>)
    ensures
        r@ == peaks@.sort_by(|a: Peak, b: Peak| ranks(a, b)),
{
    let ghost leq = |a: Peak, b: Peak| ranks(a, b);
    let mut out: Vec<Peak> = Vec::new();
    let mut i: usize = 0;
    proof {
        assert(peaks@.take(0) =~= out@);
    }
    while i < peaks.len()
        invariant
            i <= peaks.len(),
            leq == (|a: Peak, b: Peak| ranks(a, b)),
            sorted_by(out@, leq),
            out@.to_multiset() == peaks@.take(i as int).to_multiset(),
        decreases peaks.len() - i,
    {
        let peak = peaks[i];
        let mut pos: usize = out.len();
        while pos > 0 && !ranks_before(&out[pos - 1], &peak)
            invariant
                pos <= out.len(),
                leq == (|a: Peak, b: Peak| ranks(a, b)),
                forall|k: int| pos <= k < out@.len() ==> ranks(peak, #[trigger] out@[k]),
            decreases pos,
        {
            pos = pos - 1;
        }
        let ghost before = out@;
        proof {
            before.to_multiset_ensures();
            to_multiset_insert(before, pos as int, peak);
            assert(peaks@.take(i + 1) =~= peaks@.take(i as int).push(peak));
            to_multiset_build(peaks@.take(i as int), peak);
        }
        out.insert(pos, peak);
        assert(sorted_by(out@, leq)) by {
            assert forall|x: int, y: int| 0 <= x < y < out@.len() implies #[trigger] leq(
                out@[x],
                out@[y],
            ) by {
                if y < pos {
                    assert(leq(before[x], before[y]));
                } else if y == pos {
                    if x < pos - 1 {
                        assert(leq(before[x], before[pos - 1]));
                    }
                } else if x == pos {
                } else if x < pos {
                    assert(leq(before[x], before[y - 1]));
                } else {
                    assert(leq(before[x - 1], before[y - 1]));
                }
            }
        }
        i = i + 1;
    }
    proof {
        assert(peaks@.take(i as int) =~= peaks@);
        lemma_ranks_total();
        peaks@.lemma_sort_by_ensures(leq);
        lemma_sorted_unique(out@, peaks@.sort_by(leq), leq);
    }
    out
}

/// Compute a hash from anchor frequency, target frequency, and time delta.
pub fn compute_hash(freq1: u32, freq2: u32, dt: u32) -> (r: u64)
    ensures
        r == hash_of(freq1, freq2, dt),
{
    let mut data: Vec<u8> = Vec::with_capacity(12);
    push_u32(&mut data, freq1);
    push_u32(&mut data, freq2);
    push_u32(&mut data, dt);
    assert(data@ =~= crate::wire::le32(freq1) + crate::wire::le32(freq2) + crate::wire::le32(dt));
    xxhash_rust::xxh3::xxh3_64(data.as_slice())
}

impl Fingerprinter {
    /// Finds the local maxima of one band of one frame, in the order of the bins.
    fn find_candidates(&self, spectrogram: &Spectrogram, frame: usize, band: usize) -> (r: Vec<Peak>)
        requires
            spectrogram.wf(),
            self.config.num_bands > 0,
            frame < spectrogram.num_frames,
            band < self.config.num_bands,
        ensures
            r@ == self.band_candidates(*spectrogram, frame as int, band as int),
    {
        let ghost s = *spectrogram;
        let band_size: usize = spectrogram.num_bins / self.config.num_bands;
        proof {
            self.lemma_band_in_range(s, band as int);
        }
        let bin_start: usize = band * band_size;
        let bin_end: usize = (band + 1) * band_size;
        let mut found: Vec<Peak> = Vec::new();
        let mut bin: usize = bin_start;
        while bin < bin_end
            invariant
                spectrogram.wf(),
                s == *spectrogram,
                frame < spectrogram.num_frames,
                bin_start <= bin <= bin_end <= spectrogram.num_bins,
                found@ == self.peaks_between(s, frame as int, bin_start as int, bin as int),
            decreases bin_end - bin,
        {
            proof {
                s.lemma_in_bounds(frame as int, bin as int);
            }
            let mag = spectrogram.mag(frame, bin);
            if !self.config.peak_threshold.gt(&mag) && self.is_local_maximum(
                spectrogram,
                frame,
                bin,
                mag,
            ) {
                found.push(Peak { frame, bin, magnitude: mag });
            }
            bin = bin + 1;
        }
        found
    }

    /// The strongest peaks of one band of one frame.
    pub fn band_peaks(&self, spectrogram: &Spectrogram, frame: usize, band: usize) -> (r: Vec<Peak>)
        requires
            spectrogram.wf(),
            self.config.num_bands > 0,
            frame < spectrogram.num_frames,
            band < self.config.num_bands,
            comparable(self.band_candidates(*spectrogram, frame as int, band as int)),
        ensures
            r@ == strongest(
                self.band_candidates(*spectrogram, frame as int, band as int),
                self.config.max_peaks_per_band as int,
            ),
    {
        let found = self.find_candidates(spectrogram, frame, band);

        // Keep only top N peaks per band
        let mut ranked = sort_peaks(&found);
        if ranked.len() > self.config.max_peaks_per_band {
            ranked.truncate(self.config.max_peaks_per_band);
            assert(ranked@ =~= strongest(found@, self.config.max_peaks_per_band as int));
        }
        ranked
    }

    /// Whether the peaks of every band of every frame can be ranked. They
    /// cannot where a magnitude that is not a number stands beside another.
    pub fn can_rank(&self, spectrogram: &Spectrogram) -> (r: bool)
        requires
            spectrogram.wf(),
            self.config.num_bands > 0,
        ensures
            r == self.rankable(*spectrogram),
    {
        let ghost s = *spectrogram;
        let mut frame: usize = 0;
        while frame < spectrogram.num_frames
            invariant
                s == *spectrogram,
                spectrogram.wf(),
                self.config.num_bands > 0,
                frame <= spectrogram.num_frames,
                forall|f: int, b: int|
                    0 <= f < frame && 0 <= b < self.config.num_bands ==> comparable(
                        #[trigger] self.band_candidates(s, f, b),
                    ),
            decreases spectrogram.num_frames - frame,
        {
            let mut band: usize = 0;
            while band < self.config.num_bands
                invariant
                    s == *spectrogram,
                    spectrogram.wf(),
                    self.config.num_bands > 0,
                    frame < spectrogram.num_frames,
                    band <= self.config.num_bands,
                    forall|f: int, b: int|
                        0 <= f < frame && 0 <= b < self.config.num_bands ==> comparable(
                            #[trigger] self.band_candidates(s, f, b),
                        ),
                    forall|b: int|
                        0 <= b < band ==> comparable(
                            #[trigger] self.band_candidates(s, frame as int, b),
                        ),
                decreases self.config.num_bands - band,
            {
                let found = self.find_candidates(spectrogram, frame, band);
                let mut i: usize = 0;
                while found.len() > 1 && i < found.len()
                    invariant
                        i <= found.len(),
                        s == *spectrogram,
                        frame < spectrogram.num_frames,
                        band < self.config.num_bands,
                        found@ == self.band_candidates(s, frame as int, band as int),
                        forall|j: int| 0 <= j < i ==> !(#[trigger] found@[j]).magnitude.is_nan(),
                    decreases found.len() - i,
                {
                    if found[i].magnitude.nan() {
                        assert(!comparable(self.band_candidates(s, frame as int, band as int)));
                        return false;
                    }
                    i = i + 1;
                }
                band = band + 1;
            }
            frame = frame + 1;
        }
        true
    }

    /// Find spectral peaks using band-based extraction with local maximum detection.
    pub fn find_peaks(&self, spectrogram: &Spectrogram) -> (r: Vec<Peak>)
        requires
            spectrogram.wf(),
            self.config.num_bands > 0,
            self.rankable(*spectrogram),
        ensures
            r@ == self.constellation(*spectrogram, spectrogram.num_frames as int),
            sorted_by_frame(r@),
    {
        let ghost s = *spectrogram;
        let mut all_peaks: Vec<Peak> = Vec::new();
        let mut frame: usize = 0;
        while frame < spectrogram.num_frames
            invariant
                s == *spectrogram,
                spectrogram.wf(),
                self.config.num_bands > 0,
                self.rankable(s),
                frame <= spectrogram.num_frames,
                all_peaks@ == self.constellation(s, frame as int),
            decreases spectrogram.num_frames - frame,
        {
            let mut band: usize = 0;
            let ghost before = all_peaks@;
            assert(all_peaks@ =~= before + self.frame_peaks(s, frame as int, 0));
            while band < self.config.num_bands
                invariant
                    s == *spectrogram,
                    spectrogram.wf(),
                    self.config.num_bands > 0,
                    self.rankable(s),
                    frame < spectrogram.num_frames,
                    band <= self.config.num_bands,
                    all_peaks@ == before + self.frame_peaks(s, frame as int, band as int),
                decreases self.config.num_bands - band,
            {
                assert(comparable(self.band_candidates(s, frame as int, band as int)));
                let mut kept = self.band_peaks(spectrogram, frame, band);
                all_peaks.append(&mut kept);
                band = band + 1;
                assert(all_peaks@ =~= before + self.frame_peaks(s, frame as int, band as int));
            }
            frame = frame + 1;
        }
        proof {
            self.lemma_constellation_sorted(s, s.num_frames as int);
        }
        all_peaks
    }

    /// The peaks that peak `i` is paired with.
    pub fn anchor_targets(&self, peaks: &Vec<Peak>, i: usize) -> (r: Vec<Peak>)
        requires
            i < peaks@.len(),
            sorted_by_frame(peaks@),
        ensures
            r@ == self.chosen_targets(peaks@, i as int),
    {
        let ghost n = peaks@.len() as int;
        assert(peaks@.len() == peaks.len());
        let anchor = peaks[i];
        let mut pairs: Vec<Peak> = Vec::new();
        if self.config.max_pairs_per_anchor == 0 {
            assert(pairs@ =~= self.chosen_targets(peaks@, i as int));
            return pairs;
        }
        let mut j: usize = i + 1;
        while j < peaks.len()
            invariant
                i < j <= peaks.len(),
                n == peaks@.len(),
                anchor == peaks@[i as int],
                sorted_by_frame(peaks@),
                pairs@ == self.zone_targets(peaks@, i as int, j as int),
                pairs@.len() < self.pair_limit(),
            decreases peaks.len() - j,
        {
            let target = peaks[j];
            // Check time delta is within target zone
            let dt: usize = target.frame - anchor.frame;
            if dt > self.config.target_zone_t_max {
                // Peaks are sorted by time
                proof {
                    self.lemma_no_more_targets(peaks@, i as int, j as int, n);
                }
                return pairs;
            }
            if dt >= self.config.target_zone_t_min {
                // Check frequency range
                let df: usize = if anchor.bin >= target.bin {
                    anchor.bin - target.bin
                } else {
                    target.bin - anchor.bin
                };
                if df <= self.config.target_zone_f_range {
                    pairs.push(target);
                    if pairs.len() >= self.config.max_pairs_per_anchor {
                        proof {
                            self.lemma_targets_prefix(peaks@, i as int, j + 1, n);
                        }
                        return pairs;
                    }
                }
            }
            j = j + 1;
        }
        pairs
    }

    /// Generate combinatorial hashes from constellation peaks.
    pub fn generate_hashes(&self, peaks: &Vec<Peak>) -> (r: Vec<Fingerprint>)
        requires
            sorted_by_frame(peaks@),
        ensures
            r@ == self.fingerprints_of(peaks@, peaks@.len() as int),
    {
        let mut fingerprints: Vec<Fingerprint> = Vec::new();
        let mut i: usize = 0;
        while i < peaks.len()
            invariant
                i <= peaks.len(),
                sorted_by_frame(peaks@),
                fingerprints@ == self.fingerprints_of(peaks@, i as int),
            decreases peaks.len() - i,
        {
            let anchor = peaks[i];
            let targets = self.anchor_targets(peaks, i);
            let ghost before = fingerprints@;
            let ghost new = self.anchor_fingerprints(peaks@, i as int);
            let mut k: usize = 0;
            assert(fingerprints@ =~= before + new.take(0));
            while k < targets.len()
                invariant
                    i < peaks.len(),
                    sorted_by_frame(peaks@),
                    anchor == peaks@[i as int],
                    targets@ == self.chosen_targets(peaks@, i as int),
                    new == self.anchor_fingerprints(peaks@, i as int),
                    k <= targets.len(),
                    fingerprints@ == before + new.take(k as int),
                decreases targets.len() - k,
            {
                let target = targets[k];
                proof {
                    self.lemma_targets_follow(peaks@, i as int, peaks@.len() as int, k as int);
                }
                let dt: usize = target.frame - anchor.frame;
                let hash = compute_hash(anchor.bin as u32, target.bin as u32, dt as u32);
                fingerprints.push(Fingerprint { hash, offset: anchor.frame as u32 });
                assert(new.take(k + 1) =~= new.take(k as int).push(new[k as int]));
                assert(fingerprints@ =~= before + new.take(k + 1));
                k = k + 1;
            }
            assert(new.take(k as int) =~= new);
            i = i + 1;
        }
        fingerprints
    }

    /// Generate fingerprints from a pre-computed spectrogram.
    pub fn fingerprint_spectrogram(&self, spectrogram: &Spectrogram) -> (r: Vec<Fingerprint>)
        requires
            spectrogram.wf(),
            spectrogram.num_frames > 0 ==> self.config.num_bands > 0,
            spectrogram.num_frames > 0 ==> self.rankable(*spectrogram),
        ensures
            r@ == self.fingerprints_of(
                self.constellation(*spectrogram, spectrogram.num_frames as int),
                self.constellation(*spectrogram, spectrogram.num_frames as int).len() as int,
            ),
    {
        if spectrogram.num_frames == 0 {
            return Vec::new();
        }
        let peaks = self.find_peaks(spectrogram);
        self.generate_hashes(&peaks)
    }

    proof fn lemma_band_in_range(self, s: Spectrogram, band: int)
        requires
            0 <= band < self.config.num_bands,
        ensures
            0 <= self.band_size(s),
            0 <= band * self.band_size(s) <= (band + 1) * self.band_size(s) <= s.num_bins,
    {
        let bands = self.config.num_bands as int;
        let size = self.band_size(s);
        lemma_fundamental_div_mod(s.num_bins as int, bands);
        lemma_div_pos_is_pos(s.num_bins as int, bands);
        lemma_mul_inequality(band + 1, bands, size);
        lemma_mul_inequality(band, band + 1, size);
        lemma_mul_nonnegative(band, size);
        lemma_mul_is_commutative(bands, size);
    }

    proof fn lemma_peaks_between_frame(self, s: Spectrogram, frame: int, lo: int, hi: int)
        ensures
            all_in_frame(self.peaks_between(s, frame, lo, hi), frame),
        decreases hi - lo,
    {
        if hi > lo {
            self.lemma_peaks_between_frame(s, frame, lo, hi - 1);
        }
    }

    proof fn lemma_frame_peaks_frame(self, s: Spectrogram, frame: int, bands: int)
        ensures
            all_in_frame(self.frame_peaks(s, frame, bands), frame),
        decreases bands,
    {
        if bands > 0 {
            self.lemma_frame_peaks_frame(s, frame, bands - 1);
            let c = self.band_candidates(s, frame, bands - 1);
            let kept = strongest(c, self.config.max_peaks_per_band as int);
            lemma_strongest_are_candidates(c, self.config.max_peaks_per_band as int);
            self.lemma_peaks_between_frame(
                s,
                frame,
                (bands - 1) * self.band_size(s),
                bands * self.band_size(s),
            );
            assert forall|i: int| 0 <= i < kept.len() implies (#[trigger] kept[i]).frame
                == frame as usize by {
                assert(c.contains(kept[i]));
            }
        }
    }

    proof fn lemma_constellation_sorted(self, s: Spectrogram, frames: int)
        requires
            0 <= frames <= s.num_frames,
        ensures
            sorted_by_frame(self.constellation(s, frames)),
            forall|i: int|
                0 <= i < self.constellation(s, frames).len() ==> (#[trigger] self.constellation(
                    s,
                    frames,
                )[i]).frame < frames,
        decreases frames,
    {
        if frames > 0 {
            self.lemma_constellation_sorted(s, frames - 1);
            self.lemma_frame_peaks_frame(s, frames - 1, self.config.num_bands as int);
        }
    }

    proof fn lemma_no_more_targets(self, peaks: Seq<Peak>, i: int, j: int, end: int)
        requires
            0 <= i < j <= end <= peaks.len(),
            sorted_by_frame(peaks),
            j < peaks.len(),
            peaks[j].frame - peaks[i].frame > self.config.target_zone_t_max,
        ensures
            self.zone_targets(peaks, i, end) == self.zone_targets(peaks, i, j),
        decreases end - j,
    {
        if end > j {
            self.lemma_no_more_targets(peaks, i, j, end - 1);
            assert(peaks[j].frame <= peaks[end - 1].frame);
        }
    }

    proof fn lemma_targets_prefix(self, peaks: Seq<Peak>, i: int, j: int, end: int)
        requires
            0 <= i < j <= end <= peaks.len(),
        ensures
            self.zone_targets(peaks, i, j).len() <= self.zone_targets(peaks, i, end).len(),
            self.zone_targets(peaks, i, end).take(self.zone_targets(peaks, i, j).len() as int)
                == self.zone_targets(peaks, i, j),
        decreases end - j,
    {
        let prefix = self.zone_targets(peaks, i, j);
        if end > j {
            self.lemma_targets_prefix(peaks, i, j, end - 1);
            let shorter = self.zone_targets(peaks, i, end - 1);
            assert(self.zone_targets(peaks, i, end).take(prefix.len() as int) =~= shorter.take(
                prefix.len() as int,
            ));
        } else {
            assert(prefix.take(prefix.len() as int) =~= prefix);
        }
    }

    proof fn lemma_targets_follow(self, peaks: Seq<Peak>, i: int, end: int, k: int)
        requires
            0 <= i < end <= peaks.len(),
            0 <= k < self.zone_targets(peaks, i, end).len(),
        ensures
            self.in_target_zone(peaks[i], self.zone_targets(peaks, i, end)[k]),
        decreases end,
    {
        if end > i + 1 {
            if k < self.zone_targets(peaks, i, end - 1).len() {
                self.lemma_targets_follow(peaks, i, end - 1, k);
            }
        }
    }
}

/// The strongest peaks are among the candidates.
proof fn lemma_strongest_are_candidates(c: Seq<Peak>, max: int)
    requires
        0 <= max,
    ensures
        forall|i: int| 0 <= i < strongest(c, max).len() ==> c.contains(#[trigger] strongest(c, max)[i]),
{
    let leq = |a: Peak, b: Peak| ranks(a, b);
    lemma_ranks_total();
    c.lemma_sort_by_ensures(leq);
    let ranked = c.sort_by(leq);
    assert forall|i: int| 0 <= i < strongest(c, max).len() implies c.contains(
        #[trigger] strongest(c, max)[i],
    ) by {
        let p = strongest(c, max)[i];
        assert(ranked[i] == p);
        to_multiset_contains(ranked, p);
        to_multiset_contains(c, p);
    }
}

/// The peaks, each `k` frames later.
pub open spec fn delayed(peaks: Seq<Peak>, k: int) -> Seq<Peak> {
    peaks.map_values(
        |p: Peak| Peak { frame: (p.frame + k) as usize, bin: p.bin, magnitude: p.magnitude },
    )
}

impl Fingerprinter {
    /// Delaying a constellation leaves every hash as it was and moves every
    /// offset by the delay.
    pub proof fn law_delay_moves_offsets(self, peaks: Seq<Peak>, k: int, n: int)
        requires
            0 <= k,
            0 <= n <= peaks.len(),
            forall|i: int| 0 <= i < peaks.len() ==> (#[trigger] peaks[i]).frame + k <= u32::MAX,
        ensures
            self.fingerprints_of(delayed(peaks, k), n).len() == self.fingerprints_of(
                peaks,
                n,
            ).len(),
            forall|i: int|
                #![trigger self.fingerprints_of(peaks, n)[i]]
                #![trigger self.fingerprints_of(delayed(peaks, k), n)[i]]
                0 <= i < self.fingerprints_of(peaks, n).len() ==> {
                    &&& self.fingerprints_of(delayed(peaks, k), n)[i].hash == self.fingerprints_of(
                        peaks,
                        n,
                    )[i].hash
                    &&& self.fingerprints_of(delayed(peaks, k), n)[i].offset
                        == self.fingerprints_of(peaks, n)[i].offset + k
                },
        decreases n,
    {
        if n > 0 {
            self.law_delay_moves_offsets(peaks, k, n - 1);
            let late = delayed(peaks, k);
            self.lemma_delay_targets(peaks, k, n - 1, peaks.len() as int);
            let targets = self.chosen_targets(peaks, n - 1);
            assert(self.chosen_targets(late, n - 1) =~= delayed(targets, k));
            let a = self.anchor_fingerprints(peaks, n - 1);
            let b = self.anchor_fingerprints(late, n - 1);
            assert forall|i: int| 0 <= i < a.len() implies b[i].hash == (#[trigger] a[i]).hash
                && b[i].offset == a[i].offset + k by {
                self.lemma_targets_follow(peaks, n - 1, peaks.len() as int, i);
                self.lemma_targets_are_peaks(peaks, n - 1, peaks.len() as int);
                assert(peaks.contains(targets[i]));
                assert(peaks[n - 1].frame + k <= u32::MAX);
            }
        }
    }

    proof fn lemma_targets_are_peaks(self, peaks: Seq<Peak>, i: int, end: int)
        requires
            0 <= i < end <= peaks.len(),
        ensures
            forall|k: int|
                0 <= k < self.zone_targets(peaks, i, end).len() ==> peaks.contains(
                    #[trigger] self.zone_targets(peaks, i, end)[k],
                ),
        decreases end,
    {
        if end > i + 1 {
            self.lemma_targets_are_peaks(peaks, i, end - 1);
            let shorter = self.zone_targets(peaks, i, end - 1);
            let all = self.zone_targets(peaks, i, end);
            assert forall|k: int| 0 <= k < all.len() implies peaks.contains(#[trigger] all[k]) by {
                if k < shorter.len() {
                    assert(all[k] == shorter[k]);
                } else {
                    assert(all[k] == peaks[end - 1]);
                }
            }
        }
    }

    proof fn lemma_delay_targets(self, peaks: Seq<Peak>, k: int, i: int, end: int)
        requires
            0 <= k,
            0 <= i < end <= peaks.len(),
            forall|j: int| 0 <= j < peaks.len() ==> (#[trigger] peaks[j]).frame + k <= u32::MAX,
        ensures
            self.zone_targets(delayed(peaks, k), i, end) == delayed(
                self.zone_targets(peaks, i, end),
                k,
            ),
        decreases end,
    {
        let late = delayed(peaks, k);
        if end > i + 1 {
            self.lemma_delay_targets(peaks, k, i, end - 1);
            assert(peaks[i].frame + k <= u32::MAX);
            assert(peaks[end - 1].frame + k <= u32::MAX);
            assert(late[i].frame == peaks[i].frame + k);
            assert(late[end - 1].frame == peaks[end - 1].frame + k);
            assert(self.in_target_zone(late[i], late[end - 1]) == self.in_target_zone(
                peaks[i],
                peaks[end - 1],
            ));
            assert(self.zone_targets(late, i, end) =~= delayed(
                self.zone_targets(peaks, i, end),
                k,
            ));
        } else {
            assert(self.zone_targets(late, i, end) =~= delayed(
                self.zone_targets(peaks, i, end),
                k,
            ));
        }
    }

    /// Every peak of a constellation is a point of the spectrogram that
    /// reaches the threshold and is a local maximum.
    pub proof fn law_constellation_holds_peaks(self, s: Spectrogram, frames: int, i: int)
        requires
            self.config.num_bands > 0,
            0 <= frames <= s.num_frames,
            0 <= i < self.constellation(s, frames).len(),
        ensures
            ({
                let p = self.constellation(s, frames)[i];
                &&& p.frame < frames
                &&& p.bin < s.num_bins
                &&& p == Self::point(s, p.frame as int, p.bin as int)
                &&& self.is_peak(s, p.frame as int, p.bin as int)
            }),
        decreases frames,
    {
        let earlier = self.constellation(s, frames - 1);
        if i < earlier.len() {
            self.law_constellation_holds_peaks(s, frames - 1, i);
        } else {
            let bands = self.config.num_bands as int;
            self.lemma_frame_peaks_hold_peaks(s, frames - 1, bands, i - earlier.len());
        }
    }

    proof fn lemma_frame_peaks_hold_peaks(self, s: Spectrogram, frame: int, bands: int, i: int)
        requires
            0 <= frame < s.num_frames,
            0 <= bands <= self.config.num_bands,
            0 <= i < self.frame_peaks(s, frame, bands).len(),
        ensures
            ({
                let p = self.frame_peaks(s, frame, bands)[i];
                &&& p.frame == frame
                &&& p.bin < s.num_bins
                &&& p == Self::point(s, frame, p.bin as int)
                &&& self.is_peak(s, frame, p.bin as int)
            }),
        decreases bands,
    {
        let earlier = self.frame_peaks(s, frame, bands - 1);
        if i < earlier.len() {
            self.lemma_frame_peaks_hold_peaks(s, frame, bands - 1, i);
        } else {
            let c = self.band_candidates(s, frame, bands - 1);
            let kept = strongest(c, self.config.max_peaks_per_band as int);
            lemma_strongest_are_candidates(c, self.config.max_peaks_per_band as int);
            let p = kept[i - earlier.len()];
            assert(c.contains(p));
            let j = choose|j: int| 0 <= j < c.len() && c[j] == p;
            self.lemma_band_in_range(s, bands - 1);
            self.lemma_peaks_between_hold_peaks(
                s,
                frame,
                (bands - 1) * self.band_size(s),
                bands * self.band_size(s),
                j,
            );
        }
    }

    proof fn lemma_peaks_between_hold_peaks(
        self,
        s: Spectrogram,
        frame: int,
        lo: int,
        hi: int,
        i: int,
    )
        requires
            0 <= frame < s.num_frames,
            0 <= lo,
            hi <= s.num_bins,
            0 <= i < self.peaks_between(s, frame, lo, hi).len(),
        ensures
            ({
                let p = self.peaks_between(s, frame, lo, hi)[i];
                &&& p.frame == frame
                &&& lo <= p.bin < hi
                &&& p == Self::point(s, frame, p.bin as int)
                &&& self.is_peak(s, frame, p.bin as int)
            }),
        decreases hi - lo,
    {
        if i < self.peaks_between(s, frame, lo, hi - 1).len() {
            self.lemma_peaks_between_hold_peaks(s, frame, lo, hi - 1, i);
        }
    }

    /// A band contributes at most the configured number of peaks to each frame.
    pub proof fn law_band_is_bounded(self, s: Spectrogram, frame: int, band: int)
        ensures
            strongest(
                self.band_candidates(s, frame, band),
                self.config.max_peaks_per_band as int,
            ).len() <= self.config.max_peaks_per_band,
    {
    }

    /// Of the candidates of a band, none that is left out ranks before one that is kept.
    pub proof fn law_strongest_are_kept(c: Seq<Peak>, max: int, kept: Peak, left_out: Peak)
        requires
            0 <= max,
            strongest(c, max).contains(kept),
            c.contains(left_out),
            !strongest(c, max).contains(left_out),
        ensures
            ranks(kept, left_out),
    {
        let leq = |a: Peak, b: Peak| ranks(a, b);
        lemma_ranks_total();
        c.lemma_sort_by_ensures(leq);
        let ranked = c.sort_by(leq);
        to_multiset_contains(c, left_out);
        to_multiset_contains(ranked, left_out);
        let i = choose|i: int| 0 <= i < strongest(c, max).len() && strongest(c, max)[i] == kept;
        let j = choose|j: int| 0 <= j < ranked.len() && ranked[j] == left_out;
        if j < strongest(c, max).len() {
            assert(strongest(c, max)[j] == left_out);
        }
        assert(ranked[i] == kept);
        assert(leq(ranked[i], ranked[j]));
    }

    /// An anchor is paired only with peaks of its target zone, and with no
    /// more of them than the limit.
    pub proof fn law_pairs_lie_in_the_zone(self, peaks: Seq<Peak>, i: int, k: int)
        requires
            0 <= i < peaks.len(),
            0 <= k < self.chosen_targets(peaks, i).len(),
        ensures
            self.in_target_zone(peaks[i], self.chosen_targets(peaks, i)[k]),
            self.chosen_targets(peaks, i).len() <= self.pair_limit(),
    {
        self.lemma_targets_follow(peaks, i, peaks.len() as int, k);
    }
}

// ── What a constellation is ─────────────────────────────────────────

/// The magnitude at a point, by its place in the rows of a spectrogram.
pub open spec fn cell(s: Spectrogram, frame: int, bin: int) -> F32Bits {
    s.magnitudes@[frame * s.num_bins + bin]
}

/// The point is not below the threshold, and none of the points up to five
/// frames and five bins away is above it.
pub open spec fn stands_out(s: Spectrogram, threshold: F32Bits, frame: int, bin: int) -> bool {
    &&& !threshold.exceeds(cell(s, frame, bin))
    &&& forall|t: int, f: int|
        #![trigger cell(s, t, f)]
        0 <= t < s.num_frames && 0 <= f < s.num_bins && -5 <= t - frame <= 5 && -5 <= f - bin <= 5
            && (t != frame || f != bin) ==> !cell(s, t, f).exceeds(cell(s, frame, bin))
}

/// The bin lies in the band, where all bands are as wide.
pub open spec fn in_band(s: Spectrogram, num_bands: int, band: int, bin: int) -> bool {
    band * (s.num_bins as int / num_bands) <= bin < (band + 1) * (s.num_bins as int / num_bands)
}

/// The peak is stronger, or as strong and at a lower bin.
pub open spec fn comes_first(a: Peak, b: Peak) -> bool {
    a.magnitude.order() > b.magnitude.order() || (a.magnitude.order() == b.magnitude.order()
        && a.bin < b.bin)
}

impl Fingerprinter {
    proof fn lemma_stands_out(self, s: Spectrogram, frame: int, bin: int)
        requires
            0 <= frame < s.num_frames,
            0 <= bin < s.num_bins,
        ensures
            self.is_peak(s, frame, bin) == stands_out(s, self.config.peak_threshold, frame, bin),
            Self::point(s, frame, bin).magnitude == cell(s, frame, bin),
    {
        assert forall|t: int, f: int| s.at(t, f) == #[trigger] cell(s, t, f) by {}
        assert forall|t: int, f: int| cell(s, t, f) == #[trigger] s.at(t, f) by {}
    }

    proof fn lemma_peaks_between_complete(
        self,
        s: Spectrogram,
        frame: int,
        lo: int,
        hi: int,
        bin: int,
    )
        requires
            lo <= bin < hi,
            self.is_peak(s, frame, bin),
        ensures
            self.peaks_between(s, frame, lo, hi).contains(Self::point(s, frame, bin)),
        decreases hi - lo,
    {
        let all = self.peaks_between(s, frame, lo, hi);
        if bin == hi - 1 {
            assert(all.last() == Self::point(s, frame, bin));
        } else {
            self.lemma_peaks_between_complete(s, frame, lo, hi - 1, bin);
            let shorter = self.peaks_between(s, frame, lo, hi - 1);
            let k = choose|k: int|
                0 <= k < shorter.len() && shorter[k] == Self::point(s, frame, bin);
            assert(all[k] == shorter[k]);
        }
    }

    proof fn lemma_peaks_between_ascend(self, s: Spectrogram, frame: int, lo: int, hi: int)
        requires
            0 <= frame < s.num_frames,
            0 <= lo,
            hi <= s.num_bins,
        ensures
            self.peaks_between(s, frame, lo, hi).no_duplicates(),
        decreases hi - lo,
    {
        if hi > lo {
            self.lemma_peaks_between_ascend(s, frame, lo, hi - 1);
            let shorter = self.peaks_between(s, frame, lo, hi - 1);
            assert forall|i: int| 0 <= i < shorter.len() implies (#[trigger] shorter[i]).bin < hi
                - 1 by {
                self.lemma_peaks_between_hold_peaks(s, frame, lo, hi - 1, i);
            }
        }
    }

    proof fn lemma_frame_peaks_contain(
        self,
        s: Spectrogram,
        frame: int,
        bands: int,
        band: int,
        p: Peak,
    )
        requires
            0 <= band < bands,
            strongest(
                self.band_candidates(s, frame, band),
                self.config.max_peaks_per_band as int,
            ).contains(p),
        ensures
            self.frame_peaks(s, frame, bands).contains(p),
        decreases bands,
    {
        let earlier = self.frame_peaks(s, frame, bands - 1);
        let kept = strongest(
            self.band_candidates(s, frame, bands - 1),
            self.config.max_peaks_per_band as int,
        );
        let all = self.frame_peaks(s, frame, bands);
        assert(all =~= earlier + kept);
        if band == bands - 1 {
            let k = choose|k: int| 0 <= k < kept.len() && kept[k] == p;
            assert(all[earlier.len() + k] == p);
        } else {
            self.lemma_frame_peaks_contain(s, frame, bands - 1, band, p);
            let k = choose|k: int| 0 <= k < earlier.len() && earlier[k] == p;
            assert(all[k] == p);
        }
    }

    proof fn lemma_constellation_contains(self, s: Spectrogram, frames: int, frame: int, p: Peak)
        requires
            0 <= frame < frames,
            self.frame_peaks(s, frame, self.config.num_bands as int).contains(p),
        ensures
            self.constellation(s, frames).contains(p),
        decreases frames,
    {
        let earlier = self.constellation(s, frames - 1);
        let last = self.frame_peaks(s, frames - 1, self.config.num_bands as int);
        let all = self.constellation(s, frames);
        assert(all =~= earlier + last);
        if frame == frames - 1 {
            let k = choose|k: int| 0 <= k < last.len() && last[k] == p;
            assert(all[earlier.len() + k] == p);
        } else {
            self.lemma_constellation_contains(s, frames - 1, frame, p);
            let k = choose|k: int| 0 <= k < earlier.len() && earlier[k] == p;
            assert(all[k] == p);
        }
    }

    /// The constellation is complete: in every band of every frame, each point
    /// that stands out is in it, unless as many others of the same band and
    /// frame as a band may keep are in it and come first.
    pub proof fn law_constellation_is_complete(
        self,
        s: Spectrogram,
        frame: int,
        band: int,
        bin: int,
    )
        requires
            0 <= frame < s.num_frames,
            0 <= band < self.config.num_bands,
            in_band(s, self.config.num_bands as int, band, bin),
            stands_out(s, self.config.peak_threshold, frame, bin),
        ensures
            ({
                let found = self.constellation(s, s.num_frames as int);
                let p = Peak {
                    frame: frame as usize,
                    bin: bin as usize,
                    magnitude: cell(s, frame, bin),
                };
                found.contains(p) || exists|others: Seq<Peak>|
                    {
                        &&& others.len() == self.config.max_peaks_per_band
                        &&& #[trigger] others.no_duplicates()
                        &&& forall|i: int|
                            0 <= i < others.len() ==> {
                                &&& found.contains(#[trigger] others[i])
                                &&& others[i].frame == frame
                                &&& in_band(
                                    s,
                                    self.config.num_bands as int,
                                    band,
                                    others[i].bin as int,
                                )
                                &&& comes_first(others[i], p)
                            }
                    }
            }),
    {
        self.lemma_band_in_range(s, band);
        self.lemma_stands_out(s, frame, bin);
        let lo = band * self.band_size(s);
        let hi = (band + 1) * self.band_size(s);
        let max = self.config.max_peaks_per_band as int;
        let found = self.constellation(s, s.num_frames as int);
        let c = self.band_candidates(s, frame, band);
        let p = Self::point(s, frame, bin);
        self.lemma_peaks_between_complete(s, frame, lo, hi, bin);
        let kept = strongest(c, max);
        self.lemma_peaks_between_ascend(s, frame, lo, hi);
        lemma_strongest_distinct(c, max);
        assert forall|q: Peak| kept.contains(q) implies #[trigger] found.contains(q) by {
            self.lemma_frame_peaks_contain(s, frame, self.config.num_bands as int, band, q);
            self.lemma_constellation_contains(s, s.num_frames as int, frame, q);
        }
        if kept.contains(p) {
        } else {
            lemma_strongest_are_candidates(c, max);
            lemma_strongest_is_full(c, max, p);
            assert forall|i: int| 0 <= i < kept.len() implies {
                &&& found.contains(#[trigger] kept[i])
                &&& kept[i].frame == frame
                &&& in_band(s, self.config.num_bands as int, band, kept[i].bin as int)
                &&& comes_first(kept[i], p)
            } by {
                assert(c.contains(kept[i]));
                let j = choose|j: int| 0 <= j < c.len() && c[j] == kept[i];
                self.lemma_peaks_between_hold_peaks(s, frame, lo, hi, j);
                Self::law_strongest_are_kept(c, max, kept[i], p);
            }
            assert(kept.no_duplicates());
        }
    }

    /// The constellation is sound: all it holds are points that stand out, in
    /// one of the bands.
    pub proof fn law_constellation_is_sound(self, s: Spectrogram, i: int)
        requires
            self.config.num_bands > 0,
            0 <= i < self.constellation(s, s.num_frames as int).len(),
        ensures
            ({
                let p = self.constellation(s, s.num_frames as int)[i];
                &&& p.frame < s.num_frames
                &&& p.bin < s.num_bins
                &&& p.magnitude == cell(s, p.frame as int, p.bin as int)
                &&& stands_out(s, self.config.peak_threshold, p.frame as int, p.bin as int)
                &&& exists|band: int|
                    0 <= band < self.config.num_bands && #[trigger] in_band(
                        s,
                        self.config.num_bands as int,
                        band,
                        p.bin as int,
                    )
            }),
    {
        let p = self.constellation(s, s.num_frames as int)[i];
        self.law_constellation_holds_peaks(s, s.num_frames as int, i);
        self.lemma_stands_out(s, p.frame as int, p.bin as int);
        let band = self.lemma_kept_in_its_band(s, s.num_frames as int, i);
        assert(in_band(s, self.config.num_bands as int, band, p.bin as int));
    }

    proof fn lemma_kept_in_its_band(self, s: Spectrogram, frames: int, i: int) -> (band: int)
        requires
            self.config.num_bands > 0,
            0 <= frames <= s.num_frames,
            0 <= i < self.constellation(s, frames).len(),
        ensures
            0 <= band < self.config.num_bands,
            in_band(
                s,
                self.config.num_bands as int,
                band,
                self.constellation(s, frames)[i].bin as int,
            ),
            strongest(
                self.band_candidates(s, self.constellation(s, frames)[i].frame as int, band),
                self.config.max_peaks_per_band as int,
            ).contains(self.constellation(s, frames)[i]),
        decreases frames,
    {
        let earlier = self.constellation(s, frames - 1);
        if i < earlier.len() {
            self.lemma_kept_in_its_band(s, frames - 1, i)
        } else {
            self.lemma_frame_peaks_frame(s, frames - 1, self.config.num_bands as int);
            self.lemma_kept_in_frame_band(
                s,
                frames - 1,
                self.config.num_bands as int,
                i - earlier.len(),
            )
        }
    }

    proof fn lemma_kept_in_frame_band(self, s: Spectrogram, frame: int, bands: int, i: int) -> (
        band: int)
        requires
            0 <= frame < s.num_frames,
            0 <= bands <= self.config.num_bands,
            0 <= i < self.frame_peaks(s, frame, bands).len(),
        ensures
            0 <= band < bands,
            in_band(
                s,
                self.config.num_bands as int,
                band,
                self.frame_peaks(s, frame, bands)[i].bin as int,
            ),
            strongest(
                self.band_candidates(s, frame, band),
                self.config.max_peaks_per_band as int,
            ).contains(self.frame_peaks(s, frame, bands)[i]),
        decreases bands,
    {
        let earlier = self.frame_peaks(s, frame, bands - 1);
        if i < earlier.len() {
            self.lemma_kept_in_frame_band(s, frame, bands - 1, i)
        } else {
            let c = self.band_candidates(s, frame, bands - 1);
            let max = self.config.max_peaks_per_band as int;
            lemma_strongest_are_candidates(c, max);
            let p = strongest(c, max)[i - earlier.len()];
            assert(c.contains(p));
            let j = choose|j: int| 0 <= j < c.len() && c[j] == p;
            self.lemma_band_in_range(s, bands - 1);
            self.lemma_peaks_between_hold_peaks(
                s,
                frame,
                (bands - 1) * self.band_size(s),
                bands * self.band_size(s),
                j,
            );
            bands - 1
        }
    }

    /// No band of a frame keeps more peaks than allowed: different peaks of the
    /// constellation in one band of one frame are at most as many.
    pub proof fn law_bands_are_bounded(
        self,
        s: Spectrogram,
        frame: int,
        band: int,
        peaks: Seq<Peak>,
    )
        requires
            self.config.num_bands > 0,
            peaks.no_duplicates(),
            forall|i: int|
                0 <= i < peaks.len() ==> {
                    &&& self.constellation(s, s.num_frames as int).contains(#[trigger] peaks[i])
                    &&& peaks[i].frame == frame
                    &&& in_band(s, self.config.num_bands as int, band, peaks[i].bin as int)
                },
        ensures
            peaks.len() <= self.config.max_peaks_per_band,
    {
        let max = self.config.max_peaks_per_band as int;
        let kept = strongest(self.band_candidates(s, frame, band), max);
        let found = self.constellation(s, s.num_frames as int);
        assert forall|i: int| 0 <= i < peaks.len() implies kept.contains(#[trigger] peaks[i]) by {
            assert(found.contains(peaks[i]));
            let k = choose|k: int| 0 <= k < found.len() && found[k] == peaks[i];
            let b = self.lemma_kept_in_its_band(s, s.num_frames as int, k);
            lemma_one_band(s, self.config.num_bands as int, b, band, peaks[i].bin as int);
        }
        peaks.unique_seq_to_set();
        kept.lemma_cardinality_of_set();
        assert(peaks.to_set().subset_of(kept.to_set())) by {
            assert forall|q: Peak| peaks.to_set().contains(q) implies kept.to_set().contains(q) by {
                let i = choose|i: int| 0 <= i < peaks.len() && peaks[i] == q;
                assert(kept.contains(peaks[i]));
            }
        }
        vstd::set_lib::lemma_len_subset(peaks.to_set(), kept.to_set());
    }

    /// The constellation stands in order: frame by frame, in a frame band by
    /// band, and in a band the strongest first.
    pub proof fn law_constellation_is_ordered(self, s: Spectrogram, i: int, j: int)
        requires
            self.config.num_bands > 0,
            0 <= i < j < self.constellation(s, s.num_frames as int).len(),
        ensures
            ({
                let found = self.constellation(s, s.num_frames as int);
                let width = s.num_bins as int / self.config.num_bands as int;
                ||| found[i].frame < found[j].frame
                ||| found[i].frame == found[j].frame && found[i].bin as int / width < found[j].bin
                    as int / width
                ||| found[i].frame == found[j].frame && found[i].bin as int / width == found[j].bin
                    as int / width && comes_first(found[i], found[j])
            }),
    {
        self.lemma_constellation_ordered(s, s.num_frames as int, i, j);
    }

    proof fn lemma_constellation_ordered(self, s: Spectrogram, frames: int, i: int, j: int)
        requires
            self.config.num_bands > 0,
            0 <= frames <= s.num_frames,
            0 <= i < j < self.constellation(s, frames).len(),
        ensures
            ({
                let found = self.constellation(s, frames);
                let width = s.num_bins as int / self.config.num_bands as int;
                ||| found[i].frame < found[j].frame
                ||| found[i].frame == found[j].frame && found[i].bin as int / width < found[j].bin
                    as int / width
                ||| found[i].frame == found[j].frame && found[i].bin as int / width == found[j].bin
                    as int / width && comes_first(found[i], found[j])
            }),
        decreases frames,
    {
        let earlier = self.constellation(s, frames - 1);
        let n = earlier.len();
        if j < n {
            self.lemma_constellation_ordered(s, frames - 1, i, j);
        } else {
            let bands = self.config.num_bands as int;
            let last = self.frame_peaks(s, frames - 1, bands);
            self.lemma_frame_peaks_frame(s, frames - 1, bands);
            if i < n {
                self.lemma_constellation_sorted(s, frames - 1);
                assert(earlier[i].frame < frames - 1);
                assert(last[j - n].frame == frames - 1);
            } else {
                assert(last[i - n].frame == last[j - n].frame);
                self.lemma_frame_ordered(s, frames - 1, bands, i - n, j - n);
            }
        }
    }

    proof fn lemma_frame_ordered(self, s: Spectrogram, frame: int, bands: int, i: int, j: int)
        requires
            0 <= frame < s.num_frames,
            0 <= bands <= self.config.num_bands,
            0 <= i < j < self.frame_peaks(s, frame, bands).len(),
        ensures
            ({
                let found = self.frame_peaks(s, frame, bands);
                let width = s.num_bins as int / self.config.num_bands as int;
                ||| found[i].bin as int / width < found[j].bin as int / width
                ||| found[i].bin as int / width == found[j].bin as int / width && comes_first(
                    found[i],
                    found[j],
                )
            }),
        decreases bands,
    {
        let earlier = self.frame_peaks(s, frame, bands - 1);
        let n = earlier.len();
        let found = self.frame_peaks(s, frame, bands);
        let width = s.num_bins as int / self.config.num_bands as int;
        if j < n {
            self.lemma_frame_ordered(s, frame, bands - 1, i, j);
        } else {
            let c = self.band_candidates(s, frame, bands - 1);
            let max = self.config.max_peaks_per_band as int;
            let kept = strongest(c, max);
            assert(found[j] == kept[j - n]);
            self.lemma_band_in_range(s, bands - 1);
            let lo = (bands - 1) * self.band_size(s);
            let hi = bands * self.band_size(s);
            lemma_strongest_are_candidates(c, max);
            assert(c.contains(kept[j - n]));
            let y = choose|y: int| 0 <= y < c.len() && c[y] == kept[j - n];
            self.lemma_peaks_between_hold_peaks(s, frame, lo, hi, y);
            lemma_band_of_bin(width, bands - 1, found[j].bin as int);
            if i < n {
                let b = self.lemma_kept_in_frame_band(s, frame, bands - 1, i);
                lemma_band_of_bin(width, b, found[i].bin as int);
            } else {
                assert(c.contains(kept[i - n]));
                let x = choose|x: int| 0 <= x < c.len() && c[x] == kept[i - n];
                self.lemma_peaks_between_hold_peaks(s, frame, lo, hi, x);
                lemma_band_of_bin(width, bands - 1, found[i].bin as int);
                self.lemma_peaks_between_ascend(s, frame, lo, hi);
                lemma_strongest_distinct(c, max);
                let leq = |a: Peak, b: Peak| ranks(a, b);
                lemma_ranks_total();
                c.lemma_sort_by_ensures(leq);
                let ranked = c.sort_by(leq);
                assert(leq(ranked[i - n], ranked[j - n]));
                assert(kept[i - n] != kept[j - n]);
            }
        }
    }
}

proof fn lemma_one_band(s: Spectrogram, num_bands: int, a: int, b: int, bin: int)
    requires
        num_bands > 0,
        in_band(s, num_bands, a, bin),
        in_band(s, num_bands, b, bin),
    ensures
        a == b,
{
    let width = s.num_bins as int / num_bands;
    lemma_band_of_bin(width, a, bin);
    lemma_band_of_bin(width, b, bin);
}

proof fn lemma_band_of_bin(width: int, band: int, bin: int)
    requires
        band * width <= bin < (band + 1) * width,
    ensures
        bin / width == band,
        width > 0,
{
    assert(width > 0 && bin == band * width + (bin - band * width) && 0 <= bin - band * width
        < width) by (nonlinear_arith)
        requires
            band * width <= bin < (band + 1) * width,
    ;
    lemma_fundamental_div_mod_converse(bin, width, band, bin - band * width);
}

proof fn lemma_strongest_distinct(c: Seq<Peak>, max: int)
    requires
        0 <= max,
        c.no_duplicates(),
    ensures
        strongest(c, max).no_duplicates(),
{
    let leq = |a: Peak, b: Peak| ranks(a, b);
    lemma_ranks_total();
    c.lemma_sort_by_ensures(leq);
    let ranked = c.sort_by(leq);
    c.lemma_multiset_has_no_duplicates();
    ranked.lemma_multiset_has_no_duplicates_conv();
}

proof fn lemma_strongest_is_full(c: Seq<Peak>, max: int, left_out: Peak)
    requires
        0 <= max,
        c.contains(left_out),
        !strongest(c, max).contains(left_out),
    ensures
        strongest(c, max).len() == max,
{
    let leq = |a: Peak, b: Peak| ranks(a, b);
    lemma_ranks_total();
    c.lemma_sort_by_ensures(leq);
    let ranked = c.sort_by(leq);
    to_multiset_contains(c, left_out);
    to_multiset_contains(ranked, left_out);
}

impl Fingerprinter {
    /// The peaks can be ranked exactly where none of two points that stand out
    /// in one band of one frame has a magnitude that is not a number.
    pub proof fn law_what_can_be_ranked(self, s: Spectrogram)
        requires
            self.config.num_bands > 0,
        ensures
            self.rankable(s) <==> forall|frame: int, band: int, a: int, b: int|
                #![trigger self.both_stand_out(s, frame, band, a, b)]
                self.both_stand_out(s, frame, band, a, b) ==> !cell(s, frame, a).is_nan(),
    {
        let clear = forall|frame: int, band: int, a: int, b: int|
            #![trigger self.both_stand_out(s, frame, band, a, b)]
            self.both_stand_out(s, frame, band, a, b) ==> !cell(s, frame, a).is_nan();
        if self.rankable(s) {
            assert forall|frame: int, band: int, a: int, b: int|
                #![trigger self.both_stand_out(s, frame, band, a, b)]
                self.both_stand_out(s, frame, band, a, b) implies !cell(s, frame, a).is_nan() by {
                let c = self.band_candidates(s, frame, band);
                assert(comparable(c));
                self.lemma_band_in_range(s, band);
                let lo = band * self.band_size(s);
                let hi = (band + 1) * self.band_size(s);
                self.lemma_stands_out(s, frame, a);
                self.lemma_stands_out(s, frame, b);
                self.lemma_peaks_between_complete(s, frame, lo, hi, a);
                self.lemma_peaks_between_complete(s, frame, lo, hi, b);
                let x = choose|x: int| 0 <= x < c.len() && c[x] == Self::point(s, frame, a);
                let y = choose|y: int| 0 <= y < c.len() && c[y] == Self::point(s, frame, b);
                assert(x != y);
                assert(!c[x].magnitude.is_nan());
            }
        }
        if clear {
            assert forall|frame: int, band: int|
                0 <= frame < s.num_frames && 0 <= band < self.config.num_bands implies comparable(
                #[trigger] self.band_candidates(s, frame, band),
            ) by {
                let c = self.band_candidates(s, frame, band);
                self.lemma_band_in_range(s, band);
                let lo = band * self.band_size(s);
                let hi = (band + 1) * self.band_size(s);
                self.lemma_peaks_between_ascend(s, frame, lo, hi);
                if c.len() > 1 {
                    assert forall|i: int| 0 <= i < c.len() implies !(
                    #[trigger] c[i]).magnitude.is_nan() by {
                        let j = if i == 0 {
                            1int
                        } else {
                            0
                        };
                        self.lemma_peaks_between_hold_peaks(s, frame, lo, hi, i);
                        self.lemma_peaks_between_hold_peaks(s, frame, lo, hi, j);
                        assert(c[i] != c[j]);
                        let a = c[i].bin as int;
                        let b = c[j].bin as int;
                        self.lemma_stands_out(s, frame, a);
                        self.lemma_stands_out(s, frame, b);
                        assert(self.both_stand_out(s, frame, band, a, b));
                    }
                }
            }
        }
    }

    /// Two different points of one band of one frame stand out.
    pub open spec fn both_stand_out(
        self,
        s: Spectrogram,
        frame: int,
        band: int,
        a: int,
        b: int,
    ) -> bool {
        &&& 0 <= frame < s.num_frames
        &&& 0 <= band < self.config.num_bands
        &&& in_band(s, self.config.num_bands as int, band, a)
        &&& in_band(s, self.config.num_bands as int, band, b)
        &&& a != b
        &&& stands_out(s, self.config.peak_threshold, frame, a)
        &&& stands_out(s, self.config.peak_threshold, frame, b)
    }
}

// ── What an anchor is paired with ───────────────────────────────────

/// The fingerprint is that of the two peaks' bins and of the delay between
/// them, at the frame of the first.
pub open spec fn hashes_pair(f: Fingerprint, anchor: Peak, target: Peak) -> bool {
    &&& f.offset == anchor.frame as u32
    &&& f.hash == hash_of(
        anchor.bin as u32,
        target.bin as u32,
        (target.frame - anchor.frame) as u32,
    )
}

impl Fingerprinter {
    /// The target comes after the anchor by a delay that the configuration
    /// allows, and their bins are no further apart than it allows.
    pub open spec fn within_reach(self, anchor: Peak, target: Peak) -> bool {
        &&& self.config.target_zone_t_min <= target.frame - anchor.frame
        &&& target.frame - anchor.frame <= self.config.target_zone_t_max
        &&& target.bin - anchor.bin <= self.config.target_zone_f_range
        &&& anchor.bin - target.bin <= self.config.target_zone_f_range
    }

    /// The chosen targets of peak `i` stand at these places of the list, in
    /// order. Each is within reach; and a peak after the anchor that is within
    /// reach and not chosen comes after as many chosen ones as are allowed.
    pub open spec fn chosen_at(
        self,
        peaks: Seq<Peak>,
        i: int,
        chosen: Seq<Peak>,
        places: Seq<int>,
    ) -> bool {
        &&& places.len() == chosen.len()
        &&& chosen.len() <= self.config.max_pairs_per_anchor
        &&& forall|k: int|
            #![trigger places[k]]
            #![trigger chosen[k]]
            0 <= k < places.len() ==> i < places[k] < peaks.len() && chosen[k] == peaks[places[k]]
                && self.within_reach(peaks[i], peaks[places[k]])
        &&& forall|k: int, l: int|
            0 <= k < l < places.len() ==> (#[trigger] places[k]) < (#[trigger] places[l])
        &&& forall|j: int|
            #![trigger peaks[j]]
            i < j < peaks.len() && self.within_reach(peaks[i], peaks[j]) ==> places.contains(j) || (
            chosen.len() == self.config.max_pairs_per_anchor && forall|k: int|
                0 <= k < places.len() ==> (#[trigger] places[k]) < j)
    }

    proof fn lemma_zone_places(self, peaks: Seq<Peak>, i: int, end: int) -> (places: Seq<int>)
        requires
            0 <= i < end <= peaks.len(),
        ensures
            places.len() == self.zone_targets(peaks, i, end).len(),
            forall|k: int|
                #![trigger places[k]]
                0 <= k < places.len() ==> i < places[k] < end && self.zone_targets(
                    peaks,
                    i,
                    end,
                )[k] == peaks[places[k]] && self.within_reach(peaks[i], peaks[places[k]]),
            forall|k: int, l: int|
                0 <= k < l < places.len() ==> (#[trigger] places[k]) < (#[trigger] places[l]),
            forall|j: int|
                #![trigger peaks[j]]
                i < j < end && self.within_reach(peaks[i], peaks[j]) ==> places.contains(j),
        decreases end,
    {
        if end <= i + 1 {
            Seq::empty()
        } else {
            let before = self.lemma_zone_places(peaks, i, end - 1);
            if self.in_target_zone(peaks[i], peaks[end - 1]) {
                let places = before.push(end - 1);
                assert forall|j: int|
                    #![trigger peaks[j]]
                    i < j < end && self.within_reach(peaks[i], peaks[j]) implies places.contains(
                    j,
                ) by {
                    if j == end - 1 {
                        assert(places[before.len() as int] == j);
                    } else {
                        assert(before.contains(j));
                        let k = choose|k: int| 0 <= k < before.len() && before[k] == j;
                        assert(places[k] == j);
                    }
                }
                places
            } else {
                before
            }
        }
    }

    /// An anchor is paired with the earliest peaks within its reach.
    pub proof fn law_anchor_takes_the_earliest(self, peaks: Seq<Peak>, i: int)
        requires
            0 <= i < peaks.len(),
        ensures
            exists|places: Seq<int>| #[trigger]
                self.chosen_at(peaks, i, self.chosen_targets(peaks, i), places),
    {
        let all = self.zone_targets(peaks, i, peaks.len() as int);
        let chosen = self.chosen_targets(peaks, i);
        let everywhere = self.lemma_zone_places(peaks, i, peaks.len() as int);
        let limit = self.config.max_pairs_per_anchor as int;
        if all.len() <= limit {
            assert(self.chosen_at(peaks, i, chosen, everywhere));
        } else {
            let places = everywhere.take(limit);
            assert forall|j: int|
                #![trigger peaks[j]]
                i < j < peaks.len() && self.within_reach(peaks[i], peaks[j]) implies places.contains(
                j,
            ) || (chosen.len() == self.config.max_pairs_per_anchor && forall|k: int|
                0 <= k < places.len() ==> (#[trigger] places[k]) < j) by {
                assert(everywhere.contains(j));
                let k = choose|k: int| 0 <= k < everywhere.len() && everywhere[k] == j;
                if k < limit {
                    assert(places[k] == j);
                } else {
                    assert forall|m: int| 0 <= m < places.len() implies (#[trigger] places[m])
                        < j by {
                        assert(everywhere[m] < everywhere[k]);
                    }
                }
            }
            assert(self.chosen_at(peaks, i, chosen, places));
        }
    }

    /// Peaks that come later change nothing for an anchor that has all its pairs.
    pub proof fn law_later_peaks_do_not_matter(self, peaks: Seq<Peak>, more: Seq<Peak>, i: int)
        requires
            0 <= i < peaks.len(),
            self.chosen_targets(peaks, i).len() == self.config.max_pairs_per_anchor,
        ensures
            self.chosen_targets(peaks + more, i) == self.chosen_targets(peaks, i),
    {
        let whole = peaks + more;
        let n = peaks.len() as int;
        self.lemma_targets_agree(peaks, whole, i, n);
        self.lemma_targets_prefix(whole, i, n, whole.len() as int);
        let limit = self.config.max_pairs_per_anchor as int;
        let few = self.zone_targets(peaks, i, n);
        let all = self.zone_targets(whole, i, whole.len() as int);
        assert(all.take(limit) =~= all.take(few.len() as int).take(limit));
        assert(self.chosen_targets(whole, i) =~= self.chosen_targets(peaks, i));
    }

    proof fn lemma_targets_agree(self, a: Seq<Peak>, b: Seq<Peak>, i: int, end: int)
        requires
            0 <= i < end <= a.len(),
            end <= b.len(),
            forall|j: int| 0 <= j < end ==> a[j] == b[j],
        ensures
            self.zone_targets(a, i, end) == self.zone_targets(b, i, end),
        decreases end,
    {
        if end > i + 1 {
            self.lemma_targets_agree(a, b, i, end - 1);
        }
    }

    /// The fingerprints of the anchors stand one anchor after the other, those
    /// of anchor `i` from `starts[i]` on, one for each of its targets: the hash
    /// of the two bins and the delay, at the anchor's frame.
    pub open spec fn laid_out(
        self,
        peaks: Seq<Peak>,
        fingerprints: Seq<Fingerprint>,
        starts: Seq<int>,
    ) -> bool {
        &&& starts.len() == peaks.len() + 1
        &&& starts[0] == 0
        &&& starts[peaks.len() as int] == fingerprints.len()
        &&& forall|i: int|
            0 <= i < peaks.len() ==> starts[i + 1] - #[trigger] starts[i] == self.chosen_targets(
                peaks,
                i,
            ).len()
        &&& forall|i: int, k: int|
            0 <= i < peaks.len() && 0 <= k < self.chosen_targets(peaks, i).len()
                ==> #[trigger] hashes_pair(
                fingerprints[starts[i] + k],
                peaks[i],
                self.chosen_targets(peaks, i)[k],
            )
    }

    proof fn lemma_laid_out(self, peaks: Seq<Peak>, n: int) -> (starts: Seq<int>)
        requires
            0 <= n <= peaks.len(),
        ensures
            starts.len() == n + 1,
            starts[0] == 0,
            starts[n] == self.fingerprints_of(peaks, n).len(),
            forall|i: int|
                0 <= i < n ==> starts[i + 1] - #[trigger] starts[i] == self.chosen_targets(
                    peaks,
                    i,
                ).len(),
            forall|i: int|
                0 <= i <= n ==> 0 <= (#[trigger] starts[i]) <= self.fingerprints_of(peaks, n).len(),
            forall|i: int, k: int|
                #![trigger self.chosen_targets(peaks, i)[k]]
                0 <= i < n && 0 <= k < self.chosen_targets(peaks, i).len() ==> starts[i] + k
                    < self.fingerprints_of(peaks, n).len() && self.fingerprints_of(peaks, n)[starts[i]
                    + k] == pair_fingerprint(peaks[i], self.chosen_targets(peaks, i)[k]),
        decreases n,
    {
        if n == 0 {
            seq![0]
        } else {
            let before = self.lemma_laid_out(peaks, n - 1);
            let earlier = self.fingerprints_of(peaks, n - 1);
            let new = self.anchor_fingerprints(peaks, n - 1);
            let all = self.fingerprints_of(peaks, n);
            assert(all =~= earlier + new);
            let starts = before.push(all.len() as int);
            assert forall|i: int, k: int|
                #![trigger self.chosen_targets(peaks, i)[k]]
                0 <= i < n && 0 <= k < self.chosen_targets(peaks, i).len() implies starts[i] + k
                < all.len() && all[starts[i] + k] == pair_fingerprint(
                peaks[i],
                self.chosen_targets(peaks, i)[k],
            ) by {
                assert(starts[i] == before[i]);
                if i < n - 1 {
                    assert(earlier[starts[i] + k] == pair_fingerprint(
                        peaks[i],
                        self.chosen_targets(peaks, i)[k],
                    ));
                } else {
                    assert(all[starts[i] + k] == new[k]);
                }
            }
            assert forall|i: int| 0 <= i < n implies starts[i + 1] - #[trigger] starts[i]
                == self.chosen_targets(peaks, i).len() by {
                assert(starts[i] == before[i]);
                if i < n - 1 {
                    assert(starts[i + 1] == before[i + 1]);
                }
            }
            assert forall|i: int| 0 <= i <= n implies 0 <= (#[trigger] starts[i])
                <= all.len() by {
                if i < n {
                    assert(starts[i] == before[i]);
                }
            }
            starts
        }
    }

    /// Every pair of an anchor and one of its targets is hashed once, and
    /// nothing else is.
    pub proof fn law_every_pair_is_hashed(self, peaks: Seq<Peak>)
        ensures
            exists|starts: Seq<int>| #[trigger]
                self.laid_out(
                    peaks,
                    self.fingerprints_of(peaks, peaks.len() as int),
                    starts,
                ),
    {
        let starts = self.lemma_laid_out(peaks, peaks.len() as int);
        let all = self.fingerprints_of(peaks, peaks.len() as int);
        assert forall|i: int, k: int|
            0 <= i < peaks.len() && 0 <= k < self.chosen_targets(peaks, i).len()
                implies #[trigger] hashes_pair(
            all[starts[i] + k],
            peaks[i],
            self.chosen_targets(peaks, i)[k],
        ) by {
            assert(all[starts[i] + k] == pair_fingerprint(
                peaks[i],
                self.chosen_targets(peaks, i)[k],
            ));
        }
        assert(self.laid_out(peaks, self.fingerprints_of(peaks, peaks.len() as int), starts));
    }
}

/// A hash is that of the twelve bytes that spell the two frequencies and the
/// delay, one after the other.
pub proof fn law_hash_covers_all_three(freq1: u32, freq2: u32, dt: u32, bytes: Seq<u8>)
    requires
        bytes.len() == 12,
        bytes[0] + 0x100 * bytes[1] + 0x1_0000 * bytes[2] + 0x100_0000 * bytes[3] == freq1,
        bytes[4] + 0x100 * bytes[5] + 0x1_0000 * bytes[6] + 0x100_0000 * bytes[7] == freq2,
        bytes[8] + 0x100 * bytes[9] + 0x1_0000 * bytes[10] + 0x100_0000 * bytes[11] == dt,
    ensures
        hash_of(freq1, freq2, dt) == crate::hashing::xxh3_of(bytes),
{
    crate::wire::lemma_value_le32(bytes, 0);
    crate::wire::lemma_value_le32(bytes, 4);
    crate::wire::lemma_value_le32(bytes, 8);
    assert(bytes =~= crate::wire::le32(freq1) + crate::wire::le32(freq2) + crate::wire::le32(dt));
}

impl FingerprintConfig {
    /// The default configuration, number by number: six bands of at most three
    /// peaks that reach 0.01, each paired with at most five others, one to sixty
    /// frames later and at most a hundred bins away.
    pub proof fn law_default_configuration(self)
        requires
            self.is_default(),
        ensures
            self.num_bands == 6,
            self.max_peaks_per_band == 3,
            self.peak_threshold.bits == 0x3c23_d70a,
            self.target_zone_t_min == 1,
            self.target_zone_t_max == 60,
            self.target_zone_f_range == 100,
            self.max_pairs_per_anchor == 5,
            self.spectrogram.window_size == 1024,
            self.spectrogram.hop_size == 512,
            self.spectrogram.apply_window,
    {
    }
}

} // verus!
