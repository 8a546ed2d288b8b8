//! Stored signatures.

use beacon::audio::{FilterStage, FrequencyMode};
use beacon::embeddings::{frames_to_pool, output_dim, padded_len, pooled_index};
use beacon::ieee::F32Bits;
use beacon::signature::{band_bins, Signature, NUM_BANDS, SIGNATURE_LEN};
use beacon::spectrogram::{frame_count, frame_span};
use rustfft::num_complex::Complex;
use rustfft::FftPlanner;

fn signature(values: &[f32]) -> Signature {
    Signature::from_embedding(
        values
            .iter()
            .map(|v| F32Bits { bits: v.to_bits() })
            .collect(),
    )
}

/// The magnitudes of each frame of a tone, as the default configuration takes them.
fn tone_frames(freq: f32, duration_secs: f32, sample_rate: u32) -> Vec<Vec<f32>> {
    let n = (duration_secs * sample_rate as f32) as usize;
    let samples: Vec<f32> = (0..n)
        .map(|i| {
            let t = i as f32 / sample_rate as f32;
            (2.0 * std::f32::consts::PI * freq * t).sin() * 0.5
        })
        .collect();
    let fft = FftPlanner::<f32>::new().plan_fft_forward(1024);
    let count = frame_count(n, 1024, 512);
    (0..count)
        .map(|frame| {
            let (start, end) = frame_span(n, frame, 1024, 512);
            let mut buffer: Vec<Complex<f32>> = samples[start..end]
                .iter()
                .enumerate()
                .map(|(i, s)| {
                    let w = 0.5 * (1.0 - (2.0 * std::f32::consts::PI * i as f32 / 1023.0).cos());
                    Complex::new(s * w, 0.0)
                })
                .collect();
            fft.process(&mut buffer);
            buffer[..513]
                .iter()
                .map(|c| (c.re * c.re + c.im * c.im).sqrt())
                .collect()
        })
        .collect()
}

/// The spectral signature of some frames: log mean energy, log variance and
/// peak ratio of each band, normalized.
fn spectral_signature(frames: &[Vec<f32>]) -> Vec<f32> {
    let n = frames.len() as f32;
    let mut vector = Vec::new();
    for band in 0..NUM_BANDS {
        let (start, end) = band_bins(513, band);
        let width = (end - start) as f32;
        let (mut sum, mut sq_sum, mut peaks) = (0.0f32, 0.0f32, 0usize);
        for frame in frames {
            let slice = &frame[start..end];
            let energy: f32 = slice.iter().map(|m| m * m).sum::<f32>() / width;
            sum += energy;
            sq_sum += energy * energy;
            let mean = slice.iter().sum::<f32>() / width;
            let max = slice.iter().fold(0.0f32, |a, &m| if m > a { m } else { a });
            if mean > 0.0 && max / mean > 3.0 {
                peaks += 1;
            }
        }
        let mean = sum / n;
        vector.push((mean + 1e-10).ln());
        vector.push(((sq_sum / n - mean * mean).max(0.0) + 1e-10).ln());
        vector.push(peaks as f32 / n);
    }
    let norm = vector.iter().map(|x| x * x).sum::<f32>().sqrt();
    vector.iter().map(|x| x / norm).collect()
}

#[test]
fn test_serialization_roundtrip() {
    let values = spectral_signature(&tone_frames(440.0, 3.0, 16000));
    let sig = signature(&values);
    let bytes = sig.to_bytes();
    let recovered = Signature::from_bytes(&bytes).unwrap();
    assert_eq!(sig.vector.len(), SIGNATURE_LEN);
    assert_eq!(sig.vector.len(), recovered.vector.len());
    for (a, b) in sig.vector.iter().zip(recovered.vector.iter()) {
        assert!((f32::from_bits(a.bits) - f32::from_bits(b.bits)).abs() < 1e-7);
    }
}

#[test]
fn bytes_are_little_endian_floats() {
    let sig = signature(&[1.0, -0.5]);
    let mut expected = 1.0f32.to_le_bytes().to_vec();
    expected.extend_from_slice(&(-0.5f32).to_le_bytes());
    assert_eq!(sig.to_bytes(), expected);
    assert_eq!(sig.dim(), 2);
}

#[test]
fn only_whole_numbers_are_read() {
    assert_eq!(Signature::from_bytes(&[]).unwrap().dim(), 0);
    assert!(signature(&[]).to_bytes().is_empty());
    assert!(Signature::from_bytes(&[0, 0, 0]).is_none());
    assert!(Signature::from_bytes(&[0; 7]).is_none());
    assert_eq!(Signature::from_bytes(&[0; 8]).unwrap().dim(), 2);
    let bytes = [1u8, 2, 3, 4, 5, 6, 7, 8];
    assert_eq!(Signature::from_bytes(&bytes).unwrap().to_bytes(), bytes);
}

#[test]
fn bands_tile_the_bins() {
    let mut next = 0;
    for band in 0..NUM_BANDS {
        let (start, end) = band_bins(513, band);
        assert_eq!(start, next);
        next = end;
    }
    assert_eq!(next, 513);
    assert_eq!(band_bins(513, 0), (0, 8));
    assert_eq!(band_bins(513, 63), (504, 513));
}

#[test]
fn frequency_modes() {
    for mode in [
        FrequencyMode::Audible,
        FrequencyMode::Ultrasonic,
        FrequencyMode::Full,
    ] {
        assert_eq!(FrequencyMode::parse(mode.as_str()), Some(mode));
    }
    assert_eq!(FrequencyMode::parse("Full"), None);
    assert_eq!(FrequencyMode::Audible.sample_rate(), 16000);
    assert_eq!(FrequencyMode::Ultrasonic.sample_rate(), 96000);
    assert_eq!(FrequencyMode::Full.sample_rate(), 96000);
    assert_eq!(FrequencyMode::Ultrasonic.highpass_cutoff(), Some(18000));
    assert_eq!(FrequencyMode::Full.highpass_cutoff(), None);
    assert_eq!(FrequencyMode::Audible.lowpass_cutoff(), Some(8000));
    assert_eq!(
        FrequencyMode::Ultrasonic.description(),
        "ultrasonic (18 kHz – 48 kHz)"
    );
    assert_eq!(
        FrequencyMode::Audible.filter_stages(),
        vec![FilterStage::LowPass(8000), FilterStage::LowPass(8000)]
    );
    assert_eq!(
        FrequencyMode::Ultrasonic.filter_stages(),
        vec![FilterStage::HighPass(18000), FilterStage::HighPass(18000)]
    );
    assert!(FrequencyMode::Full.filter_stages().is_empty());
}

#[test]
fn model_inputs_are_padded_to_frames() {
    assert_eq!(padded_len(0), 0);
    assert_eq!(padded_len(1), 160);
    assert_eq!(padded_len(160), 160);
    assert_eq!(padded_len(16001), 16160);
}

#[test]
fn model_outputs() {
    assert_eq!(output_dim(Some(1024)), 1024);
    assert_eq!(output_dim(Some(-1)), 512);
    assert_eq!(output_dim(None), 512);
    assert_eq!(frames_to_pool(&vec![1, 7, 128]), Some((7, 128)));
    assert_eq!(frames_to_pool(&vec![1, 128]), None);
    assert_eq!(frames_to_pool(&vec![-1, 128]), None);
    assert_eq!(frames_to_pool(&vec![-1, 7, 128]), Some((7, 128)));
    assert_eq!(pooled_index(7, 128, 6, 127), 895);
    assert_eq!(pooled_index(7, 128, 1, 0), 128);
}
