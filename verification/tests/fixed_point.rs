use bethe_bloch::fixed::{fdiv_i128, isqrt, ln_fixed, tdiv_i128, ONE};

/// The integer square root is the exact floor of the real square root.
#[test]
fn isqrt_exact() {
    assert_eq!(isqrt(0), 0);
    assert_eq!(isqrt(1), 1);
    assert_eq!(isqrt(3), 1);
    assert_eq!(isqrt(4), 2);
    assert_eq!(isqrt(143), 11);
    assert_eq!(isqrt(144), 12);
    assert_eq!(isqrt(1 << 40), 1 << 20);
    assert_eq!(isqrt((1 << 40) - 1), (1 << 20) - 1);
    assert_eq!(isqrt(u128::MAX), u64::MAX);
}

/// Flooring division rounds toward negative infinity, truncating division
/// toward zero.
#[test]
fn division_roundings() {
    assert_eq!(fdiv_i128(7, 2), 3);
    assert_eq!(fdiv_i128(-7, 2), -4);
    assert_eq!(fdiv_i128(-8, 2), -4);
    assert_eq!(tdiv_i128(7, 2), 3);
    assert_eq!(tdiv_i128(-7, 2), -3);
    assert_eq!(tdiv_i128(-8, 2), -4);
    assert_eq!(fdiv_i128(0, 5), 0);
    assert_eq!(tdiv_i128(0, 5), 0);
}

/// The fixed-point natural logarithm is exact at powers of two, where the
/// mantissa normalizes to exactly one and every extracted fraction bit is
/// zero: `ln(2^k) = k * 726817` fixed-point steps (`726817 = ln 2 * 2^20`,
/// rounded down).
#[test]
fn ln_fixed_exact_at_powers_of_two() {
    assert_eq!(ln_fixed(ONE as u64), 0);
    assert_eq!(ln_fixed(2 * ONE as u64), 726817);
    assert_eq!(ln_fixed(4 * ONE as u64), 2 * 726817);
    assert_eq!(ln_fixed((ONE / 2) as u64), -726817);
    assert_eq!(ln_fixed(1), -20 * 726817);
}

/// Between the exact anchors the logarithm is a close approximation.
#[test]
fn ln_fixed_matches_closed_form() {
    let scale = (1u64 << 20) as f64;
    for &v in &[3u64, 1000, 104858, 1048576, 3145728, 1048576000, 1 << 40] {
        let got = ln_fixed(v) as f64 / scale;
        let expect = ((v as f64) / scale).ln();
        assert!((got - expect).abs() < 1e-3, "v={v} got={got} expect={expect}");
    }
}
