use bethe_bloch::config::{clamp_axis, ChartConfig};
use bethe_bloch::fixed::ONE;
use bethe_bloch::physics::{e_kin, particle_catalog, stopping_power, w_m, BG_LOG_FLOOR, BG_MAX, MASS_MAX};
use bethe_bloch::sampler::{sample_bethe_series, sample_energy_series, sample_xs};

/// Kinetic energy is exactly zero at zero momentum, with no NaN guard needed.
#[test]
fn e_kin_zero_at_zero_momentum() {
    assert_eq!(e_kin(0, 535822), 0);
    assert_eq!(e_kin(0, 7294 * 535822), 0);
}

/// Kinetic energy at beta-gamma = 1 for a unit mass:
/// `gamma = sqrt(2)` in fixed point is `isqrt(2^41) = 1482910`, so the
/// energy is `1482910 - 2^20 = 434334` fixed-point steps (about 0.414).
#[test]
fn e_kin_exact_value_at_unit_momentum() {
    assert_eq!(e_kin(ONE, ONE), 1482910 - ONE);
}

/// Kinetic energy agrees with the closed form `m * (sqrt(1 + bg^2) - 1)`.
#[test]
fn e_kin_matches_closed_form() {
    let scale = (1u64 << 20) as f64;
    for &bg in &[1024i64, 524288, 1048576, 5242880, 104857600] {
        for &m in &[535822i64, 110915154, 983769192] {
            let got = e_kin(bg, m) as f64 / scale;
            let bgr = bg as f64 / scale;
            let mr = m as f64 / scale;
            let expect = mr * ((1.0 + bgr * bgr).sqrt() - 1.0);
            // relative tolerance plus the fixed-point resolution: one
            // gamma step costs up to `m / 2^20` of energy
            let tol = 1e-4 * expect.abs() + 2.0 * mr / scale;
            assert!((got - expect).abs() < tol, "bg={bg} m={m} got={got} expect={expect}");
        }
    }
}

/// Kinetic energy is monotone in the momentum parameter.
#[test]
fn e_kin_monotone_in_momentum() {
    let mut prev = e_kin(0, 110915154);
    let mut bg: i64 = 1;
    while bg <= BG_MAX {
        let cur = e_kin(bg, 110915154);
        assert!(cur >= prev);
        prev = cur;
        bg *= 4;
    }
    assert!(e_kin(BG_MAX, MASS_MAX) >= e_kin(BG_MAX / 2, MASS_MAX));
}

/// `Wm = 2 * Me * bg^2` exactly at beta-gamma = 1: twice the electron rest
/// mass constant.
#[test]
fn w_m_exact_value() {
    assert_eq!(w_m(ONE), 2 * 535822);
    assert_eq!(w_m(0), 0);
}

/// The calibration scenario A = 1, Z = 1, bg = 1: the fixed-point result
/// matches the closed form `K * (Z / (A * beta2)) * (ln(Wm / I) - beta2)`
/// with `beta2 = 0.5`, `Wm = 2 * 0.511 = 1.022` and the calibration
/// constant `I = 1e-5 * Z` (the constants carried at 20 fractional bits:
/// `K = 322122 / 2^20`, `Me = 535822 / 2^20`).
#[test]
fn stopping_power_calibration_point() {
    let scale = (1u64 << 20) as f64;
    let got = stopping_power(ONE, 1, ONE, ONE, 10 * ONE, 10 * ONE) as f64 / scale;
    let k = 322122.0 / scale;
    let wm = 2.0 * 535822.0 / scale;
    let beta2 = 0.5;
    let i = 1e-5;
    let expect = k * (1.0 / (1.0 * beta2)) * ((wm / i).ln() - beta2);
    assert!((got - expect).abs() < 1e-3 * expect, "got={got} expect={expect}");
}

/// The stopping power is defined (returns a value, no panic, no poles) on
/// the whole strictly positive sampled domain, including both extremes.
#[test]
fn stopping_power_defined_on_domain() {
    let _ = stopping_power(ONE, 1, ONE, BG_LOG_FLOOR, 10 * ONE, 10 * ONE);
    let _ = stopping_power(300 * ONE, 300, ONE, BG_MAX, 10 * ONE, 10 * ONE);
    let s = sample_bethe_series(BG_LOG_FLOOR, BG_MAX, 450, ONE, 1, ONE, 10 * ONE, 10 * ONE);
    assert_eq!(s.len(), 451);
}

/// Sampler round trip over the domain [0, 1000]: the first sample is
/// exactly the lower bound, the last exactly the upper bound, and the
/// abscissas are strictly increasing.
#[test]
fn sampler_round_trip() {
    let xs = sample_xs(0, 1000 * ONE, 450);
    assert_eq!(xs.len(), 451);
    assert_eq!(xs[0], 0);
    assert_eq!(xs[450], 1000 * ONE);
    for i in 0..450 {
        assert!(xs[i] < xs[i + 1]);
    }
}

/// A minimal domain still yields at least two points.
#[test]
fn sampler_smallest_domain() {
    let xs = sample_xs(0, 10486, 1);
    assert_eq!(xs.len(), 2);
    assert_eq!(xs[0], 0);
    assert_eq!(xs[1], 10486);
}

/// The energy sampler pairs each abscissa with the evaluator's value.
#[test]
fn energy_series_applies_evaluator() {
    let s = sample_energy_series(0, 5 * ONE, 450, 535822);
    assert_eq!(s.len(), 451);
    assert_eq!(s[0], (0, 0));
    for p in &s {
        assert_eq!(p.1, e_kin(p.0, 535822));
    }
}

/// The fixed catalog: six particles at the documented multiples of the
/// electron rest mass, with their drawing colors.
#[test]
fn particle_catalog_is_fixed() {
    let cat = particle_catalog();
    assert_eq!(cat.len(), 6);
    let mults = [1i64, 207, 273, 1836, 3649, 7294];
    for (i, p) in cat.iter().enumerate() {
        assert_eq!(p.rest_mass, mults[i] * 535822);
    }
    assert_eq!(cat[0].color, (0, 255, 255));
    assert_eq!(cat[5].color, (255, 0, 0));
    assert_eq!(cat[1].label, "Muon");
}

/// Clamping corrects an inverted axis request (min above max) instead of
/// passing it to the core.
#[test]
fn clamp_rejects_inverted_axis() {
    let r = clamp_axis(5000000, 1000000, 0, BG_MAX, 10486);
    assert!(r.min + 10486 <= r.max);
    let r2 = clamp_axis(-50, -100, 0, BG_MAX, 10486);
    assert_eq!(r2.min, 0);
    assert_eq!(r2.max, 10486);
}

/// The parameter setters clamp edits into their documented ranges.
#[test]
fn config_setters_clamp() {
    let mut c = ChartConfig::startup();
    c.set_a(400 * ONE);
    assert_eq!(c.a, 300 * ONE);
    c.set_a(0);
    assert_eq!(c.a, ONE);
    c.set_z_big(1000);
    assert_eq!(c.z_big, 300);
    c.set_bethe_x(0, 1000 * ONE);
    assert_eq!(c.bethe_x.min, BG_LOG_FLOOR);
    assert_eq!(c.bethe_x.max, 1000 * ONE);
}
