//! Curve sampler: subdivides a domain into an ordered sequence of sample
//! abscissas and applies an evaluator to each.
//!
//! Sampling follows fixed-count subdivision: `n` intervals yield `n + 1`
//! points, the first exactly at the lower bound and the last exactly at the
//! upper bound, with strictly increasing abscissas.  The evaluators are
//! total fixed-point functions, so no out-of-range output ever needs to be
//! patched up after the fact; the stopping-power sampler instead keeps the
//! undefined abscissa `0` out of its domain by construction.
use vstd::prelude::*;
use crate::physics::{
    e_kin,
    stopping_power,
    spec_e_kin,
    spec_stopping_power,
    BG_LOG_FLOOR,
    BG_MAX,
    MASS_MAX,
};
use vstd::arithmetic::div_mod::{
    lemma_div_is_ordered,
    lemma_div_multiples_vanish,
    lemma_div_of0,
    lemma_div_plus_one,
    lemma_div_pos_is_pos,
};

verus! {

/// Number of subdivision intervals used for every curve: each series carries
/// `SAMPLE_COUNT + 1` points.
pub const SAMPLE_COUNT: usize = 450;

/// The `i`-th sample abscissa of `n` intervals over `[x_min, x_max]`:
/// `x_min + (i * (x_max - x_min)) / n`, with the multiplication first so the
/// last sample lands exactly on `x_max`.
pub open spec fn spec_sample_x(x_min: int, x_max: int, n: int, i: int) -> int {
    x_min + i * (x_max - x_min) / n
}

/// Ordered abscissas over `[x_min, x_max]`: `n + 1` values, inclusive of
/// both bounds, strictly increasing as long as the domain is at least `n`
/// fixed-point steps wide.
pub fn sample_xs(x_min: i64, x_max: i64, n: usize) -> (xs: Vec<i64>)
    requires
        -0x400000000 <= x_min < x_max <= 0x400000000,
        1 <= n <= 0x10000,
        x_max - x_min >= n,
    ensures
        xs@.len() == n + 1,
        forall|i: int| 0 <= i <= n ==> xs@[i] == spec_sample_x(x_min as int, x_max as int, n as int, i),
        forall|i: int| 0 <= i <= n ==> x_min <= #[trigger] xs@[i] <= x_max,
        xs@[0] == x_min,
        xs@[n as int] == x_max,
        forall|i: int| 0 <= i < n ==> #[trigger] xs@[i] < xs@[i + 1],
{
    let w: u64 = (x_max - x_min) as u64;
    let mut xs: Vec<i64> = Vec::new();
    let mut i: usize = 0;
    while i <= n
        invariant
            i <= n + 1,
            1 <= n <= 0x10000,
            -0x400000000 <= x_min < x_max <= 0x400000000,
            w == x_max - x_min,
            w >= n,
            xs@.len() == i,
            forall|j: int|
                0 <= j < i ==> xs@[j] == spec_sample_x(x_min as int, x_max as int, n as int, j),
            forall|j: int| 0 <= j < i ==> x_min <= #[trigger] xs@[j] <= x_max,
        decreases n + 1 - i,
    {
        proof {
            let ii = i as int;
            let wi = w as int;
            let ni = n as int;
            assert(0 <= ii * wi <= ni * wi) by (nonlinear_arith)
                requires
                    0 <= ii <= ni,
                    wi >= 0,
            ;
            assert(ni * wi <= 0x10000 * 0x800000000int) by (nonlinear_arith)
                requires
                    0 <= ni <= 0x10000,
                    0 <= wi <= 0x800000000,
            ;
            lemma_div_pos_is_pos(ii * wi, ni);
            lemma_div_is_ordered(ii * wi, ni * wi, ni);
            lemma_div_multiples_vanish(wi, ni);
        }
        let off: u64 = (((i as u128) * (w as u128)) / (n as u128)) as u64;
        xs.push(x_min + (off as i64));
        i = i + 1;
    }
    proof {
        lemma_div_of0(n as int);
        lemma_div_multiples_vanish((x_max - x_min) as int, n as int);
        assert(xs@[n as int] == x_max);
        assert forall|i: int| 0 <= i < n implies #[trigger] xs@[i] < xs@[i + 1] by {
            lemma_sample_strictly_increasing(x_min as int, x_max as int, n as int, i);
        }
    }
    xs
}

/// Law: with the multiplication performed before the division, consecutive
/// sample abscissas are strictly increasing whenever the domain is at least
/// `n` fixed-point steps wide.
pub proof fn lemma_sample_strictly_increasing(x_min: int, x_max: int, n: int, i: int)
    requires
        x_min < x_max,
        n >= 1,
        x_max - x_min >= n,
        0 <= i < n,
    ensures
        spec_sample_x(x_min, x_max, n, i) < spec_sample_x(x_min, x_max, n, i + 1),
{
    let w = x_max - x_min;
    assert((i + 1) * w == i * w + w) by (nonlinear_arith);
    lemma_div_is_ordered(i * w + n, i * w + w, n);
    lemma_div_plus_one(i * w, n);
    assert(i * w >= 0) by (nonlinear_arith)
        requires
            i >= 0,
            w >= 0,
    ;
}

/// One sampled kinetic-energy series: abscissas over `[x_min, x_max]` and
/// `e_kin` applied pointwise for the given rest mass.
pub fn sample_energy_series(x_min: i64, x_max: i64, n: usize, mass: i64) -> (s: Vec<(i64, i64)>)
    requires
        0 <= x_min < x_max <= BG_MAX,
        1 <= n <= 0x10000,
        x_max - x_min >= n,
        1 <= mass <= MASS_MAX,
    ensures
        s@.len() == n + 1,
        forall|i: int|
            0 <= i <= n ==> #[trigger] s@[i].0 == spec_sample_x(
                x_min as int,
                x_max as int,
                n as int,
                i,
            ),
        forall|i: int| 0 <= i <= n ==> #[trigger] s@[i].1 == spec_e_kin(s@[i].0 as int, mass as int),
        forall|i: int| 0 <= i <= n ==> x_min <= #[trigger] s@[i].0 <= x_max,
{
    let xs = sample_xs(x_min, x_max, n);
    let mut s: Vec<(i64, i64)> = Vec::new();
    let mut i: usize = 0;
    while i < xs.len()
        invariant
            xs@.len() == n + 1,
            i <= n + 1,
            0 <= x_min < x_max <= BG_MAX,
            1 <= mass <= MASS_MAX,
            forall|j: int|
                0 <= j <= n ==> xs@[j] == spec_sample_x(x_min as int, x_max as int, n as int, j),
            forall|j: int| 0 <= j <= n ==> x_min <= #[trigger] xs@[j] <= x_max,
            s@.len() == i,
            forall|j: int| 0 <= j < i ==> #[trigger] s@[j].0 == xs@[j],
            forall|j: int| 0 <= j < i ==> #[trigger] s@[j].1 == spec_e_kin(xs@[j] as int, mass as int),
        decreases xs@.len() - i,
    {
        let x = xs[i];
        let y = e_kin(x, mass);
        s.push((x, y));
        i = i + 1;
    }
    s
}

/// One sampled stopping-power series over a strictly positive domain.
pub fn sample_bethe_series(
    x_min: i64,
    x_max: i64,
    n: usize,
    a: i64,
    z_big: i64,
    z: i64,
    t_max: i64,
    delta: i64,
) -> (s: Vec<(i64, i64)>)
    requires
        BG_LOG_FLOOR <= x_min < x_max <= BG_MAX,
        1 <= n <= 0x10000,
        x_max - x_min >= n,
        0x100000 <= a <= 300 * 0x100000,
        1 <= z_big <= 300,
    ensures
        s@.len() == n + 1,
        forall|i: int|
            0 <= i <= n ==> #[trigger] s@[i].0 == spec_sample_x(
                x_min as int,
                x_max as int,
                n as int,
                i,
            ),
        forall|i: int|
            0 <= i <= n ==> #[trigger] s@[i].1 == spec_stopping_power(
                a as int,
                z_big as int,
                s@[i].0 as int,
            ),
        forall|i: int| 0 <= i <= n ==> x_min <= #[trigger] s@[i].0 <= x_max,
{
    let xs = sample_xs(x_min, x_max, n);
    let mut s: Vec<(i64, i64)> = Vec::new();
    let mut i: usize = 0;
    while i < xs.len()
        invariant
            xs@.len() == n + 1,
            i <= n + 1,
            BG_LOG_FLOOR <= x_min < x_max <= BG_MAX,
            0x100000 <= a <= 300 * 0x100000,
            1 <= z_big <= 300,
            forall|j: int|
                0 <= j <= n ==> xs@[j] == spec_sample_x(x_min as int, x_max as int, n as int, j),
            forall|j: int| 0 <= j <= n ==> x_min <= #[trigger] xs@[j] <= x_max,
            s@.len() == i,
            forall|j: int| 0 <= j < i ==> #[trigger] s@[j].0 == xs@[j],
            forall|j: int|
                0 <= j < i ==> #[trigger] s@[j].1 == spec_stopping_power(
                    a as int,
                    z_big as int,
                    xs@[j] as int,
                ),
        decreases xs@.len() - i,
    {
        let x = xs[i];
        let y = stopping_power(a, z_big, z, x, t_max, delta);
        s.push((x, y));
        i = i + 1;
    }
    s
}

} // verus!
