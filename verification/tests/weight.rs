use qubes_meminfo_writer_ng::weight::Weight;

fn weight(w: f64) -> Weight {
    Weight::from_bits(w.to_bits())
}

fn check(used: u64, w: f64) {
    assert_eq!(weight(w).apply(used), (used as f64 * w) as u64, "{used} * {w:e}");
}

#[test]
fn test_weighting_exact_values() {
    assert_eq!(weight(0.5).apply(1000), 500);
    assert_eq!(weight(0.5).apply(1001), 500);
    assert_eq!(weight(0.25).apply(1023), 255);
    assert_eq!(weight(2.5).apply(3), 7);
    // The product 0.1 * 30 rounds up to 3 exactly.
    assert_eq!(weight(0.1).apply(30), 3);
    assert_eq!(weight(1e300).apply(1), u64::MAX);
    assert_eq!(weight(5e-324).apply(u64::MAX), 0);
}

#[test]
fn test_zero_weight_counts_nothing() {
    for used in [0u64, 1, 1000, u64::MAX] {
        assert_eq!(weight(0.0).apply(used), 0);
        assert_eq!(weight(-0.0).apply(used), 0);
    }
}

#[test]
fn test_unit_weight_counts_in_full() {
    assert_eq!(Weight::one().to_bits(), 1.0f64.to_bits());
    for used in [0u64, 1, 1000, (1 << 53) - 1, 1 << 53] {
        assert_eq!(Weight::one().apply(used), used);
    }
    // Past two to the power of 53 the nearest binary64 number counts.
    assert_eq!(Weight::one().apply((1 << 53) + 1), 1 << 53);
    assert_eq!(Weight::one().apply((1 << 53) + 3), (1 << 53) + 4);
    assert_eq!(Weight::one().apply(u64::MAX), u64::MAX);
}

#[test]
fn test_small_weight_counts_at_most_in_full() {
    for used in [1u64, 999, 1_000_000_007, u64::MAX / 3] {
        for w in [0.001, 0.5, 0.999999, 1.0] {
            assert!(weight(w).apply(used) <= Weight::one().apply(used));
        }
    }
}

#[test]
fn test_weighting_is_monotone() {
    for w in [0.1, 0.5, 1.0, 3.7] {
        for used in 0..2000u64 {
            assert!(weight(w).apply(used) <= weight(w).apply(used + 1));
        }
    }
}

#[test]
fn test_weighting_agrees_with_floating_point() {
    let weights = [
        0.0, -0.0, 1.0, 0.5, 0.1, 0.3, 0.9999999999999999, 1.0000000000000002, 1.5, 2.0, 3.0, 1e-3,
        1e-19, 5e-20, 5.5e-20, 1e-300, 5e-324, 2.2250738585072014e-308, 1e3, 1e18, 1e19, 1e20,
        1e300, f64::MAX, f64::INFINITY, f64::NEG_INFINITY, f64::NAN, -f64::NAN, -1.0, -1e-300,
    ];
    let mut amounts = vec![0, 1, 2, 3, 5, 7, 10, 30, 1000, 8_388_604, u64::MAX, u64::MAX - 1];
    for k in 50..64u32 {
        for d in 0..5u64 {
            amounts.push((1u64 << k) - d);
            amounts.push((1u64 << k) + d);
        }
    }
    for w in weights {
        for &used in &amounts {
            check(used, w);
        }
    }
}

fn next_random(state: &mut u64) -> u64 {
    *state ^= *state << 13;
    *state ^= *state >> 7;
    *state ^= *state << 17;
    *state
}

#[test]
fn test_weighting_agrees_with_floating_point_at_random() {
    let mut state = 0x9e37_79b9_7f4a_7c15;
    for _ in 0..50_000 {
        let used = next_random(&mut state) >> (next_random(&mut state) % 64);
        // Any bit pattern at all.
        check(used, f64::from_bits(next_random(&mut state)));
        // A weight whose product with the amount is near one.
        let exponent = 1023 - 64 + next_random(&mut state) % 80;
        let fraction = next_random(&mut state) >> 12;
        check(used, f64::from_bits((exponent << 52) | fraction));
        // A weight with few bits, which gives ties.
        check(used, f64::from_bits((exponent << 52) | (fraction >> 40 << 40)));
    }
}

#[test]
fn test_validity_agrees_with_floating_point() {
    let mut state = 0x1234_5678_9abc_def1;
    let mut patterns = vec![
        0.0f64.to_bits(), (-0.0f64).to_bits(), 1.0f64.to_bits(), (-1.0f64).to_bits(),
        f64::MAX.to_bits(), f64::MIN.to_bits(), f64::INFINITY.to_bits(),
        f64::NEG_INFINITY.to_bits(), f64::NAN.to_bits(), (-f64::NAN).to_bits(), 1, (1 << 63) + 1,
    ];
    for _ in 0..10_000 {
        patterns.push(next_random(&mut state));
    }
    for bits in patterns {
        let w = f64::from_bits(bits);
        assert_eq!(Weight::from_bits(bits).is_valid(), w.is_finite() && !(w < 0.0), "{w:e}");
    }
}
