//! Numbers: bit patterns, decimals and little-endian bytes.

use beacon::ieee::{F32Bits, F64Bits};
use beacon::text::{push_decimal, push_signed, same_text, space, trim};
use beacon::wire::{push_u16, push_u32, push_u64, read_u32};

const SINGLES: [f32; 12] = [
    0.0,
    -0.0,
    1.0,
    -1.0,
    1e-45,
    -1e-45,
    0.6,
    3.4e38,
    f32::INFINITY,
    f32::NEG_INFINITY,
    f32::NAN,
    0.01,
];

const DOUBLES: [f64; 12] = [
    0.0,
    -0.0,
    1.0,
    -1.0,
    5e-324,
    -5e-324,
    0.05,
    1.7e308,
    f64::INFINITY,
    f64::NEG_INFINITY,
    f64::NAN,
    0.2,
];

#[test]
fn single_patterns_compare_as_floats() {
    for a in SINGLES {
        for b in SINGLES {
            let (x, y) = (F32Bits { bits: a.to_bits() }, F32Bits { bits: b.to_bits() });
            assert_eq!(x.gt(&y), a > b, "{} {}", a, b);
        }
        assert_eq!(F32Bits { bits: a.to_bits() }.nan(), a.is_nan());
    }
}

#[test]
fn double_patterns_compare_as_floats() {
    for a in DOUBLES {
        for b in DOUBLES {
            let (x, y) = (F64Bits { bits: a.to_bits() }, F64Bits { bits: b.to_bits() });
            assert_eq!(x.gt(&y), a > b, "{} {}", a, b);
            assert_eq!(x.ge(&y), a >= b, "{} {}", a, b);
        }
        assert_eq!(F64Bits { bits: a.to_bits() }.nan(), a.is_nan());
    }
}

#[test]
fn named_patterns() {
    assert_eq!(beacon::detection::MIN_CONFIDENCE, 0.05f64.to_bits());
    assert_eq!(
        beacon::detection::STRONG_SIMILARITY,
        (0.6f32 as f64).to_bits()
    );
    assert_eq!(beacon::cli::GREEN_ABOVE, 0.5f64.to_bits());
    assert_eq!(beacon::cli::YELLOW_ABOVE, 0.2f64.to_bits());
    assert_eq!(beacon::cli::LOW_CONFIDENCE, 0.15f64.to_bits());
    assert_eq!(beacon::fingerprint::PEAK_THRESHOLD, 0.01f32.to_bits());
}

#[test]
fn decimals() {
    for n in [0u64, 7, 10, 99, 100, 18923, u64::MAX] {
        let mut s = String::from("n=");
        push_decimal(&mut s, n);
        assert_eq!(s, format!("n={}", n));
    }
    for n in [0i64, -1, 42, i64::MIN, i64::MAX] {
        let mut s = String::new();
        push_signed(&mut s, n);
        assert_eq!(s, n.to_string());
    }
}

#[test]
fn white_space_is_that_of_unicode() {
    for u in 0..=0x10ffffu32 {
        if let Some(c) = char::from_u32(u) {
            assert_eq!(space(c), c.is_whitespace(), "{:x}", u);
        }
    }
}

#[test]
fn trimming() {
    for s in ["", " ", "a", "  a b \r\n", "\u{2003}zone\u{a0}", "é "] {
        assert_eq!(trim(s), s.trim());
    }
    assert!(same_text("zone", "zone"));
    assert!(!same_text("zone", "Zone"));
}

#[test]
fn little_endian_bytes() {
    let mut out = Vec::new();
    push_u16(&mut out, 0x0401);
    push_u32(&mut out, 0xdead_beef);
    push_u64(&mut out, 0x0123_4567_89ab_cdef);
    let mut expected = 0x0401u16.to_le_bytes().to_vec();
    expected.extend_from_slice(&0xdead_beefu32.to_le_bytes());
    expected.extend_from_slice(&0x0123_4567_89ab_cdefu64.to_le_bytes());
    assert_eq!(out, expected);
    assert_eq!(read_u32(&out, 2), 0xdead_beef);
}
