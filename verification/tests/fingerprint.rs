//! Fingerprints of spectrograms, and the search for them.

use beacon::fingerprint::{
    compute_hash, sort_peaks, Fingerprint, FingerprintConfig, Fingerprinter, Peak,
};
use beacon::ieee::F32Bits;
use beacon::spectrogram::{frame_count, frame_span, Spectrogram, SpectrogramConfig};
use rustfft::num_complex::Complex;
use rustfft::FftPlanner;

fn tone(freq: f32, duration_secs: f32, sample_rate: u32) -> Vec<f32> {
    let n = (duration_secs * sample_rate as f32) as usize;
    (0..n)
        .map(|i| {
            let t = i as f32 / sample_rate as f32;
            (2.0 * std::f32::consts::PI * freq * t).sin() * 0.5
        })
        .collect()
}

fn composite(freqs: &[(f32, f32)], duration_secs: f32, sample_rate: u32) -> Vec<f32> {
    let n = (duration_secs * sample_rate as f32) as usize;
    (0..n)
        .map(|i| {
            let t = i as f32 / sample_rate as f32;
            freqs
                .iter()
                .map(|(freq, amp)| amp * (2.0 * std::f32::consts::PI * freq * t).sin())
                .sum()
        })
        .collect()
}

fn spectrogram(samples: &[f32], sample_rate: u32) -> Spectrogram {
    let config = SpectrogramConfig::default();
    let window = config.window_size;
    let hann: Vec<f32> = (0..window)
        .map(|i| 0.5 * (1.0 - (2.0 * std::f32::consts::PI * i as f32 / (window - 1) as f32).cos()))
        .collect();
    let num_frames = frame_count(samples.len(), window, config.hop_size);
    let num_bins = config.num_bins();
    let fft = FftPlanner::<f32>::new().plan_fft_forward(window);
    let mut magnitudes = Vec::new();
    for frame in 0..num_frames {
        let (start, end) = frame_span(samples.len(), frame, window, config.hop_size);
        let mut buffer: Vec<Complex<f32>> = samples[start..end]
            .iter()
            .zip(&hann)
            .map(|(s, w)| Complex::new(s * w, 0.0))
            .collect();
        buffer.resize(window, Complex::new(0.0, 0.0));
        fft.process(&mut buffer);
        for c in &buffer[..num_bins] {
            magnitudes.push(F32Bits {
                bits: (c.re * c.re + c.im * c.im).sqrt().to_bits(),
            });
        }
    }
    Spectrogram {
        magnitudes,
        num_frames,
        num_bins,
        hop_size: config.hop_size,
        sample_rate,
    }
}

fn fingerprint(samples: &[f32], sample_rate: u32) -> Vec<Fingerprint> {
    Fingerprinter::with_defaults().fingerprint_spectrogram(&spectrogram(samples, sample_rate))
}

fn point(frame: usize, bin: usize, magnitude: f32) -> Peak {
    Peak {
        frame,
        bin,
        magnitude: F32Bits {
            bits: magnitude.to_bits(),
        },
    }
}

fn grid(num_frames: usize, num_bins: usize, points: &[(usize, usize, f32)]) -> Spectrogram {
    let mut magnitudes = vec![F32Bits { bits: 0 }; num_frames * num_bins];
    for &(frame, bin, m) in points {
        magnitudes[frame * num_bins + bin] = F32Bits { bits: m.to_bits() };
    }
    Spectrogram {
        magnitudes,
        num_frames,
        num_bins,
        hop_size: 512,
        sample_rate: 16000,
    }
}

#[test]
fn test_fingerprint_deterministic() {
    let samples = tone(440.0, 3.0, 16000);
    let a = fingerprint(&samples, 16000);
    let b = fingerprint(&samples, 16000);
    assert_eq!(a.len(), b.len());
    for (fa, fb) in a.iter().zip(b.iter()) {
        assert_eq!(fa.hash, fb.hash);
        assert_eq!(fa.offset, fb.offset);
    }
    assert!(!a.is_empty());
}

#[test]
fn test_different_signals_different_fingerprints() {
    let sig_a = composite(&[(440.0, 0.5), (880.0, 0.3), (1320.0, 0.2)], 3.0, 16000);
    let sig_b = composite(&[(300.0, 0.5), (600.0, 0.3), (900.0, 0.2)], 3.0, 16000);

    let fps_a = fingerprint(&sig_a, 16000);
    let fps_b = fingerprint(&sig_b, 16000);

    // The hash sets should be mostly different
    let set_a: std::collections::HashSet<u64> = fps_a.iter().map(|f| f.hash).collect();
    let set_b: std::collections::HashSet<u64> = fps_b.iter().map(|f| f.hash).collect();
    let intersection = set_a.intersection(&set_b).count();
    let union = set_a.union(&set_b).count();

    // Jaccard similarity should be low
    let similarity = intersection as f64 / union as f64;
    assert!(
        similarity < 0.5,
        "Fingerprints too similar: {:.2}",
        similarity
    );
}

#[test]
fn hashes_are_those_of_the_twelve_bytes() {
    let mut data = Vec::new();
    data.extend_from_slice(&300u32.to_le_bytes());
    data.extend_from_slice(&70_000u32.to_le_bytes());
    data.extend_from_slice(&17u32.to_le_bytes());
    assert_eq!(
        compute_hash(300, 70_000, 17),
        xxhash_rust::xxh3::xxh3_64(&data)
    );
    assert_ne!(compute_hash(300, 70_000, 17), compute_hash(70_000, 300, 17));
}

#[test]
fn peaks_are_local_maxima_above_the_threshold() {
    // A weak point beside a strong one is no peak; nor is one below the threshold.
    let s = grid(
        40,
        513,
        &[
            (10, 100, 1.0),
            (12, 103, 0.5),
            (30, 100, 0.009),
            (30, 200, 0.02),
        ],
    );
    let peaks = Fingerprinter::with_defaults().find_peaks(&s);
    let places: Vec<(usize, usize)> = peaks.iter().map(|p| (p.frame, p.bin)).collect();
    assert_eq!(places, vec![(10, 100), (30, 200)]);
    assert_eq!(peaks[0].magnitude.bits, 1.0f32.to_bits());
}

#[test]
fn a_band_keeps_its_strongest_peaks() {
    // Four peaks in the first band of one frame, far enough apart.
    let s = grid(1, 513, &[(0, 3, 1.0), (0, 20, 4.0), (0, 40, 2.0), (0, 60, 3.0)]);
    let peaks = Fingerprinter::with_defaults().find_peaks(&s);
    let bins: Vec<usize> = peaks.iter().map(|p| p.bin).collect();
    assert_eq!(bins, vec![20, 60, 40]);
}

#[test]
fn equal_peaks_keep_the_order_of_their_bins() {
    let sorted = sort_peaks(&vec![
        point(0, 5, 1.0),
        point(0, 9, 2.0),
        point(0, 7, 2.0),
        point(0, 1, 1.0),
    ]);
    let bins: Vec<usize> = sorted.iter().map(|p| p.bin).collect();
    assert_eq!(bins, vec![7, 9, 1, 5]);
}

#[test]
fn pairs_lie_in_the_target_zone() {
    let fp = Fingerprinter::with_defaults();
    let peaks = vec![
        point(0, 100, 1.0),
        point(0, 120, 1.0),  // same frame: too early
        point(3, 201, 1.0),  // too far in frequency
        point(5, 150, 1.0),  // in the zone
        point(61, 100, 1.0), // too late
    ];
    let hashes = fp.generate_hashes(&peaks);
    assert_eq!(
        hashes[0],
        Fingerprint {
            hash: compute_hash(100, 150, 5),
            offset: 0
        }
    );
    assert_eq!(hashes.iter().filter(|h| h.offset == 0).count(), 3);
    assert!(hashes.contains(&Fingerprint {
        hash: compute_hash(120, 201, 3),
        offset: 0
    }));
    assert!(hashes.contains(&Fingerprint {
        hash: compute_hash(120, 150, 5),
        offset: 0
    }));
}

#[test]
fn an_anchor_has_at_most_five_pairs() {
    let fp = Fingerprinter::with_defaults();
    let peaks: Vec<Peak> = (0..10).map(|i| point(i, 100, 1.0)).collect();
    let hashes = fp.generate_hashes(&peaks);
    assert_eq!(hashes.iter().filter(|h| h.offset == 0).count(), 5);
    assert_eq!(hashes.iter().filter(|h| h.offset == 8).count(), 1);
}

#[test]
fn the_configured_number_of_pairs() {
    let peaks: Vec<Peak> = (0..10).map(|i| point(i, 100, 1.0)).collect();
    for limit in [0, 1, 3] {
        let fp = Fingerprinter::new(FingerprintConfig {
            max_pairs_per_anchor: limit,
            ..FingerprintConfig::default()
        });
        let hashes = fp.generate_hashes(&peaks);
        assert_eq!(hashes.iter().filter(|h| h.offset == 0).count(), limit);
        assert_eq!(hashes.is_empty(), limit == 0);
    }
}

#[test]
fn a_delay_moves_offsets_and_keeps_hashes() {
    let fp = Fingerprinter::with_defaults();
    let peaks = vec![point(2, 10, 1.0), point(4, 30, 1.0), point(9, 20, 1.0)];
    let later: Vec<Peak> = peaks
        .iter()
        .map(|p| Peak {
            frame: p.frame + 100,
            ..*p
        })
        .collect();
    let a = fp.generate_hashes(&peaks);
    let b = fp.generate_hashes(&later);
    assert_eq!(a.len(), 3);
    assert_eq!(a.len(), b.len());
    for (x, y) in a.iter().zip(&b) {
        assert_eq!(x.hash, y.hash);
        assert_eq!(x.offset + 100, y.offset);
    }
}

#[test]
fn what_cannot_be_ranked() {
    let fp = Fingerprinter::with_defaults();
    let fine = grid(2, 513, &[(0, 3, 1.0), (0, 20, 4.0)]);
    assert!(fp.can_rank(&fine));
    // One that is not a number is ranked while it stands alone in its band.
    let alone = grid(2, 513, &[(0, 3, f32::NAN), (0, 200, 4.0)]);
    assert!(fp.can_rank(&alone));
    let beside = grid(2, 513, &[(0, 3, f32::NAN), (0, 20, 4.0)]);
    assert!(!fp.can_rank(&beside));
}

#[test]
fn an_empty_spectrogram_has_no_fingerprints() {
    assert!(fingerprint(&[0.1; 100], 16000).is_empty());
    assert!(fingerprint(&vec![0.0; 16000], 16000).is_empty());
}

#[test]
fn frames_and_their_spans() {
    assert_eq!(frame_count(1023, 1024, 512), 0);
    assert_eq!(frame_count(1024, 1024, 512), 1);
    assert_eq!(frame_count(16000, 1024, 512), 30);
    assert_eq!(frame_span(16000, 0, 1024, 512), (0, 1024));
    assert_eq!(frame_span(16000, 29, 1024, 512), (14848, 15872));
    assert_eq!(SpectrogramConfig::default().num_bins(), 513);
}

#[test]
fn magnitudes_are_stored_by_rows() {
    let s = grid(3, 4, &[(1, 2, 7.0)]);
    assert_eq!(s.mag(1, 2).bits, 7.0f32.to_bits());
    assert_eq!(s.mag(2, 1).bits, 0);
    assert_eq!(s.frame(1).len(), 4);
    assert_eq!(s.frame(1)[2].bits, 7.0f32.to_bits());
}

#[test]
fn the_default_configuration() {
    let c = FingerprintConfig::default();
    assert_eq!(c.num_bands, 6);
    assert_eq!(c.peak_threshold.bits, 0.01f32.to_bits());
    assert_eq!(c.max_pairs_per_anchor, 5);
    assert_eq!(Fingerprinter::new(c).config.target_zone_t_max, 60);
}
