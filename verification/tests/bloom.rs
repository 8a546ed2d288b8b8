//! The bloom filter.

use beacon::bloom::{bit_position, BloomFilter};

/// Best number of bits and of hash functions for some items and a false-positive rate.
fn sizing(expected_items: usize, fp_rate: f64) -> (usize, u32) {
    let items = expected_items.max(1);
    let bits = (-(items as f64) * fp_rate.ln() / (2.0_f64.ln().powi(2))).ceil() as usize;
    let granted = bits.max(64);
    let hashes = ((granted as f64 / items as f64) * 2.0_f64.ln()).ceil() as u32;
    (bits, hashes)
}

fn sized(expected_items: usize, fp_rate: f64) -> BloomFilter {
    let (bits, hashes) = sizing(expected_items, fp_rate);
    BloomFilter::new(bits, hashes)
}

#[test]
fn test_insert_and_contains() {
    let mut bf = sized(100, 0.01);
    bf.insert(42);
    bf.insert(123);
    bf.insert(999);

    assert!(bf.may_contain(42));
    assert!(bf.may_contain(123));
    assert!(bf.may_contain(999));
}

#[test]
fn test_false_positive_rate() {
    let n = 10_000;
    let mut bf = sized(n, 0.01);
    for i in 0..n as u64 {
        bf.insert(i);
    }

    // All inserted items must be found (no false negatives)
    for i in 0..n as u64 {
        assert!(bf.may_contain(i), "false negative for {}", i);
    }

    // Check false positive rate on non-inserted items
    let test_count = 100_000;
    let false_positives = (n as u64..n as u64 + test_count)
        .filter(|&i| bf.may_contain(i))
        .count();
    let fp_rate = false_positives as f64 / test_count as f64;

    // Allow up to 3% (we target 1%, but allow margin)
    assert!(
        fp_rate < 0.03,
        "False positive rate too high: {:.4}",
        fp_rate
    );
}

#[test]
fn test_empty_filter() {
    let bf = sized(100, 0.01);
    // Empty filter should (almost certainly) return false
    let hits = (0..1000u64).filter(|&i| bf.may_contain(i)).count();
    assert!(hits < 10, "Empty filter has too many false positives: {}", hits);
}

#[test]
fn test_from_hashes() {
    let hashes: Vec<u64> = (0..50).collect();
    let (bits, num_hashes) = sizing(50, 0.01);
    let bf = BloomFilter::from_hashes(hashes.iter().copied(), bits, num_hashes);
    for &h in &hashes {
        assert!(bf.may_contain(h));
    }
}

#[test]
fn sizes_of_the_usual_filters() {
    assert_eq!(sizing(50, 0.01), (480, 7));
    assert_eq!(sizing(100, 0.01), (959, 7));
}

#[test]
fn an_empty_filter_finds_nothing() {
    let bf = BloomFilter::new(0, 0);
    assert_eq!((0..1000u64).filter(|&i| bf.may_contain(i)).count(), 0);
}

#[test]
fn insertions_commute_and_keep_what_was_found() {
    let mut ab = sized(10, 0.01);
    ab.insert(7);
    assert!(ab.may_contain(7));
    ab.insert(8);
    assert!(ab.may_contain(7));
    let mut ba = sized(10, 0.01);
    ba.insert(8);
    ba.insert(7);
    for h in 0..5000u64 {
        assert_eq!(ab.may_contain(h), ba.may_contain(h));
    }
}

#[test]
fn bits_come_from_the_hash_function() {
    // One hash function: the filter finds exactly what falls on the same bit.
    let mut bf = BloomFilter::new(64, 1);
    bf.insert(5);
    let bit = |h: u64| {
        let mut data = h.to_le_bytes().to_vec();
        data.extend_from_slice(&0u32.to_le_bytes());
        bit_position(xxhash_rust::xxh3::xxh3_64(&data), 64)
    };
    for h in 0..2000u64 {
        assert_eq!(bf.may_contain(h), bit(h) == bit(5));
    }
}

#[test]
fn positions_wrap_around() {
    assert_eq!(bit_position(130, 64), 2);
    assert_eq!(bit_position(63, 64), 63);
}
