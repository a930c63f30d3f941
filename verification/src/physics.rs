//! Physics model: kinetic energy and Bethe-Bloch stopping power.
//!
//! Both evaluators are total functions on fixed-point values (scale
//! `fixed::ONE`, 20 fractional bits).  `e_kin` is defined for every
//! non-negative momentum parameter; `stopping_power` requires a strictly
//! positive one, since its logarithm term is undefined at zero — the sampler
//! keeps that input out of its domain.
use vstd::prelude::*;
use crate::fixed::{
    isqrt,
    ln_fixed,
    spec_isqrt,
    spec_ln_fixed,
    spec_tdiv,
    tdiv_i128,
    lemma_isqrt_bounds,
    lemma_isqrt_monotonic,
    lemma_isqrt_unique,
    lemma_tdiv_ordered,
};
use vstd::arithmetic::div_mod::{
    lemma_div_by_self,
    lemma_div_of0,
    lemma_div_is_ordered,
    lemma_div_multiples_vanish,
    lemma_div_nonincreasing,
    lemma_div_pos_is_pos,
    lemma_multiply_divide_lt,
};

verus! {

/// Electron rest mass, 0.511 MeV in fixed-point scale (`0.511 * 2^20`,
/// rounded down).
pub const ELECTRON_MASS: i64 = 535822;

/// Leading calibration coefficient of the stopping-power formula,
/// `0.3072 * 2^20` rounded down.
pub const CALIB_K: i64 = 322122;

/// The mean excitation energy is calibrated as `I = Z / CALIB_I_INV`
/// (that is, `I = 1e-5 * Z` in real units).  This is a tunable calibration
/// constant, not a physical one.
pub const CALIB_I_INV: i64 = 100000;

/// Largest momentum parameter the model accepts: `2^13` in real units.
pub const BG_MAX: i64 = 0x200000000;

/// Smallest momentum parameter `stopping_power` accepts: `2^-9` in real
/// units.  Below it the fixed-point `beta^2` underflows to zero and the
/// formula's division is undefined, mirroring the real singularity at zero.
pub const BG_LOG_FLOOR: i64 = 2048;

/// Largest particle rest mass the model accepts: `2^12` in real units.
pub const MASS_MAX: i64 = 0x100000000;

/// Lorentz factor `gamma = sqrt(1 + bg^2)` in fixed point:
/// `isqrt(2^40 + bg^2)` is exactly `floor(2^20 * sqrt(1 + (bg / 2^20)^2))`.
pub open spec fn spec_gamma(bg: int) -> int {
    spec_isqrt((0x10000000000 + bg * bg) as nat) as int
}

/// Kinetic energy `mass * (gamma - 1)`, in fixed point.
pub open spec fn spec_e_kin(bg: int, mass: int) -> int {
    mass * (spec_gamma(bg) - 0x100000) / 0x100000
}

/// `beta^2 = bg^2 / (bg^2 + 1)` in fixed point.
pub open spec fn spec_beta2(bg: int) -> int {
    bg * bg * 0x100000 / (bg * bg + 0x10000000000)
}

/// Maximum energy transfer `Wm = 2 * Me * bg^2` in fixed point.
pub open spec fn spec_wm(bg: int) -> int {
    2 * 535822 * (bg * bg) / 0x10000000000
}

/// The logarithm argument `Wm / I` with `I = Z / 100000`, in fixed point.
pub open spec fn spec_ratio(bg: int, z_big: int) -> int {
    spec_wm(bg) * 100000 / z_big
}

/// Bethe-Bloch stopping power
/// `K * (Z / (A * beta^2)) * (ln(Wm / I) - beta^2)`, in fixed point.
pub open spec fn spec_stopping_power(a: int, z_big: int, bg: int) -> int {
    let beta2 = spec_beta2(bg);
    let bracket = spec_ln_fixed(spec_ratio(bg, z_big)) - beta2;
    let denom = a * beta2 / 0x100000;
    let zover = z_big * 0x100000 * 0x100000 / denom;
    spec_tdiv(322122 * zover * bracket, 0x10000000000)
}

/// The fixed-point Lorentz factor is at least one and bounded above.
pub proof fn lemma_gamma_bounds(bg: int)
    requires
        0 <= bg <= 0x200000000,
    ensures
        0x100000 <= spec_gamma(bg) <= 0x400000000,
{
    let arg = (0x10000000000 + bg * bg) as nat;
    assert(bg * bg <= 0x200000000 * 0x200000000) by (nonlinear_arith)
        requires
            0 <= bg <= 0x200000000,
    ;
    lemma_isqrt_bounds(arg);
    let r = spec_isqrt(arg);
    if r < 0x100000 {
        assert((r + 1) * (r + 1) <= 0x100000 * 0x100000) by (nonlinear_arith)
            requires
                r + 1 <= 0x100000,
        ;
    }
    if r > 0x400000000 {
        assert(r * r >= 0x400000000 * 0x400000000) by (nonlinear_arith)
            requires
                r >= 0x400000000,
        ;
    }
}

/// Kinetic energy of a particle of rest mass `mass` at momentum parameter
/// `beta_gamma`, both in fixed point.  Total on its whole domain; zero
/// momentum yields exactly zero energy, with no special case needed.
pub fn e_kin(beta_gamma: i64, mass: i64) -> (r: i64)
    requires
        0 <= beta_gamma <= BG_MAX,
        1 <= mass <= MASS_MAX,
    ensures
        r == spec_e_kin(beta_gamma as int, mass as int),
        0 <= r <= 0x400000000000,
{
    proof {
        lemma_gamma_bounds(beta_gamma as int);
        assert((beta_gamma as int) * (beta_gamma as int) <= 0x200000000int * 0x200000000)
            by (nonlinear_arith)
            requires
                0 <= beta_gamma <= 0x200000000,
        ;
    }
    let b2: u128 = (beta_gamma as u128) * (beta_gamma as u128);
    let g: u64 = isqrt(0x10000000000 + b2);
    proof {
        assert((mass as int) * ((g as int) - 0x100000) <= 0x100000000int * 0x400000000)
            by (nonlinear_arith)
            requires
                1 <= mass <= 0x100000000,
                0x100000 <= g as int <= 0x400000000,
        ;
    }
    let num: u128 = (mass as u128) * ((g as u128) - 0x100000);
    proof {
        lemma_div_is_ordered(num as int, 0x100000000int * 0x400000000, 0x100000);
        lemma_div_pos_is_pos(num as int, 0x100000);
    }
    (num / 0x100000) as i64
}

/// Maximum transferable energy `Wm = 2 * Me * bg^2`, in fixed point.
pub fn w_m(beta_gamma: i64) -> (r: i64)
    requires
        0 <= beta_gamma <= BG_MAX,
    ensures
        r == spec_wm(beta_gamma as int),
        0 <= r <= 0x500000000000,
{
    proof {
        assert((beta_gamma as int) * (beta_gamma as int) <= 0x200000000int * 0x200000000)
            by (nonlinear_arith)
            requires
                0 <= beta_gamma <= 0x200000000,
        ;
    }
    let b2: u128 = (beta_gamma as u128) * (beta_gamma as u128);
    proof {
        lemma_div_is_ordered(
            2int * 535822 * (b2 as int),
            2int * 535822 * (0x200000000int * 0x200000000),
            0x10000000000,
        );
        lemma_div_pos_is_pos(2int * 535822 * (b2 as int), 0x10000000000);
    }
    ((2 * 535822 * b2) / 0x10000000000) as i64
}

/// Bethe-Bloch stopping power at momentum parameter `beta_gamma` for a
/// material of mass number `a` (fixed point) and atomic number `z_big`
/// (an integer, unscaled).  The `z`, `t_max` and `delta` parameters keep
/// the formula's full parameter set in the signature; the variant modeled
/// here does not use them (the density-effect correction is accepted as a
/// parameter but not modeled).
#[allow(unused_variables)]
pub fn stopping_power(a: i64, z_big: i64, z: i64, beta_gamma: i64, t_max: i64, delta: i64) -> (r: i64)
    requires
        0x100000 <= a <= 300 * 0x100000,
        1 <= z_big <= 300,
        BG_LOG_FLOOR <= beta_gamma <= BG_MAX,
    ensures
        r == spec_stopping_power(a as int, z_big as int, beta_gamma as int),
{
    let bg = beta_gamma;
    proof {
        assert(0x400000int <= (bg as int) * (bg as int) <= 0x200000000int * 0x200000000)
            by (nonlinear_arith)
            requires
                2048 <= bg <= 0x200000000,
        ;
    }
    let b2: u128 = (bg as u128) * (bg as u128);
    // beta^2 in fixed point: in [1, ONE)
    let beta2: i64 = ((b2 * 0x100000) / (b2 + 0x10000000000)) as i64;
    proof {
        let b2i = b2 as int;
        let num = b2i * 0x100000;
        let den = b2i + 0x10000000000;
        assert(num >= den) by (nonlinear_arith)
            requires
                b2i >= 0x400000,
                num == b2i * 0x100000,
                den == b2i + 0x10000000000,
        ;
        lemma_div_is_ordered(den, num, den);
        lemma_div_by_self(den);
        assert(num < den * 0x100000) by (nonlinear_arith)
            requires
                num == b2i * 0x100000,
                den > b2i,
        ;
        lemma_multiply_divide_lt(num, den, 0x100000);
        assert(1 <= num / den < 0x100000);
    }
    // Wm in fixed point, at least 4 for bg at or above the floor
    let wm: i64 = w_m(bg);
    proof {
        let wnum = 2 * 535822 * (b2 as int);
        assert(wnum >= 4 * 0x10000000000) by (nonlinear_arith)
            requires
                b2 >= 0x400000,
                wnum == 2 * 535822 * (b2 as int),
        ;
        lemma_div_is_ordered(4int * 0x10000000000, wnum, 0x10000000000);
        lemma_div_multiples_vanish(4int, 0x10000000000);
    }
    // ln argument Wm * 100000 / Z, at least 1
    let ratio: u64 = (((wm as u128) * 100000) / (z_big as u128)) as u64;
    proof {
        let rnum = (wm as int) * 100000;
        assert(400000 <= rnum <= 0x500000000000 * 100000) by (nonlinear_arith)
            requires
                4 <= wm as int <= 0x500000000000,
                rnum == (wm as int) * 100000,
        ;
        lemma_div_is_ordered(rnum, 0x500000000000int * 100000, z_big as int);
        lemma_div_nonincreasing(0x500000000000int * 100000, z_big as int);
        lemma_div_is_ordered(z_big as int, rnum, z_big as int);
        lemma_div_by_self(z_big as int);
    }
    let lnv: i64 = ln_fixed(ratio);
    let bracket: i64 = lnv - beta2;
    // A * beta^2 in scale ONE, in [1, 300 * ONE]
    proof {
        assert(0x100000int <= (a as int) * (beta2 as int) <= 300int * 0x100000 * 0x100000)
            by (nonlinear_arith)
            requires
                0x100000 <= a as int <= 300 * 0x100000,
                1 <= beta2 as int <= 0x100000,
        ;
    }
    let denom: i64 = (((a as u128) * (beta2 as u128)) / 0x100000) as i64;
    proof {
        let p = (a as int) * (beta2 as int);
        lemma_div_is_ordered(0x100000int, p, 0x100000);
        lemma_div_by_self(0x100000);
        lemma_div_is_ordered(p, 300int * 0x100000 * 0x100000, 0x100000);
        lemma_div_multiples_vanish(300int * 0x100000, 0x100000);
    }
    // Z / (A * beta^2) in scale ONE
    let zover: i64 = (((z_big as u128) * 0x100000 * 0x100000) / (denom as u128)) as i64;
    proof {
        let zn = (z_big as int) * 0x100000 * 0x100000;
        lemma_div_pos_is_pos(zn, denom as int);
        lemma_div_nonincreasing(zn, denom as int);
    }
    proof {
        let cb = 0x8000000000000000000000000int;
        assert(-cb <= 322122 * (zover as int) * (bracket as int) <= cb) by (nonlinear_arith)
            requires
                0 <= zover as int <= 300 * 0x100000 * 0x100000,
                -0x2100000 <= bracket as int <= 0x2100000,
                cb == 0x8000000000000000000000000int,
        ;
    }
    let prod: i128 = 322122 * (zover as i128) * (bracket as i128);
    proof {
        let c = 0xbe1465b8000000000000000int;
        assert(-c <= 322122 * (zover as int) * (bracket as int) <= c) by (nonlinear_arith)
            requires
                0 <= zover as int <= 300 * 0x100000 * 0x100000,
                -0x2100000 <= bracket as int <= 0x2100000,
                c == 0xbe1465b8000000000000000int,
        ;
        lemma_tdiv_ordered(prod as int, c, 0x10000000000);
        lemma_tdiv_ordered(-c, prod as int, 0x10000000000);
        lemma_div_multiples_vanish(0xbe1465b800000int, 0x10000000000);
        assert(c == 0x10000000000 * 0xbe1465b800000);
    }
    let r = tdiv_i128(prod, 0x10000000000);
    r as i64
}

/// Law: kinetic energy is exactly zero at zero momentum.  No guard against
/// an undefined division is needed: the fixed-point formula is total.
pub proof fn lemma_e_kin_zero(mass: int)
    requires
        1 <= mass <= MASS_MAX,
    ensures
        spec_e_kin(0, mass) == 0,
{
    assert(0x100000nat * 0x100000 == 0x10000000000);
    assert(0x10000000000nat < (0x100000nat + 1) * (0x100000nat + 1)) by (nonlinear_arith);
    lemma_isqrt_unique(0x10000000000nat, 0x100000nat);
    assert(spec_gamma(0) == 0x100000);
    assert(mass * (spec_gamma(0) - 0x100000) == 0) by (nonlinear_arith)
        requires
            spec_gamma(0) == 0x100000,
    ;
    lemma_div_of0(0x100000);
}

/// Law: the kinetic-energy formula satisfies the algebraic identity
/// `E = mass * (sqrt(1 + bg^2) - 1)`: its Lorentz factor is exactly the
/// integer square root of `1 + bg^2` carried at twenty fractional bits,
/// rather than the two-step route through `beta = sqrt(bg^2 / (bg^2 + 1))`
/// and `gamma = bg / beta`, which is undefined at zero momentum.
pub proof fn lemma_e_kin_identity(bg: int, mass: int)
    requires
        0 <= bg,
    ensures
        spec_e_kin(bg, mass) == mass * (spec_isqrt((0x10000000000 + bg * bg) as nat) - 0x100000)
            / 0x100000,
        spec_isqrt((0x10000000000 + bg * bg) as nat) * spec_isqrt(
            (0x10000000000 + bg * bg) as nat,
        ) <= 0x10000000000 + bg * bg,
{
    lemma_isqrt_bounds((0x10000000000 + bg * bg) as nat);
}

/// Law: kinetic energy is monotone in the momentum parameter — since the
/// formula is `mass * (sqrt(1 + bg^2) - 1)` and the fixed-point square root
/// is monotone, a larger momentum never yields a smaller energy.
pub proof fn lemma_e_kin_monotonic(bg1: int, bg2: int, mass: int)
    requires
        0 <= bg1 <= bg2 <= BG_MAX,
        1 <= mass <= MASS_MAX,
    ensures
        spec_e_kin(bg1, mass) <= spec_e_kin(bg2, mass),
{
    assert(bg1 * bg1 <= bg2 * bg2) by (nonlinear_arith)
        requires
            0 <= bg1 <= bg2,
    ;
    lemma_isqrt_monotonic(
        (0x10000000000 + bg1 * bg1) as nat,
        (0x10000000000 + bg2 * bg2) as nat,
    );
    lemma_gamma_bounds(bg1);
    lemma_gamma_bounds(bg2);
    let g1 = spec_gamma(bg1);
    let g2 = spec_gamma(bg2);
    assert(mass * (g1 - 0x100000) <= mass * (g2 - 0x100000)) by (nonlinear_arith)
        requires
            g1 <= g2,
            mass >= 1,
    ;
    lemma_div_is_ordered(mass * (g1 - 0x100000), mass * (g2 - 0x100000), 0x100000);
}

/// One entry of the fixed particle catalog: a rest mass (fixed point), a
/// drawing color and a display label.
pub struct ParticleSpec {
    pub rest_mass: i64,
    pub color: (u8, u8, u8),
    pub label: &'static str,
}

/// Rest masses of the six cataloged particles, as multiples of the electron
/// rest mass: electron, muon, pion, proton, deuteron, alpha.
pub open spec fn spec_particle_masses() -> Seq<int> {
    seq![
        535822int,
        207int * 535822,
        273int * 535822,
        1836int * 535822,
        3649int * 535822,
        7294int * 535822,
    ]
}

/// Drawing colors of the six cataloged particles.
pub open spec fn spec_particle_colors() -> Seq<(u8, u8, u8)> {
    seq![
        (0u8, 255u8, 255u8),
        (255u8, 0u8, 255u8),
        (255u8, 255u8, 0u8),
        (0u8, 0u8, 255u8),
        (0u8, 255u8, 0u8),
        (255u8, 0u8, 0u8),
    ]
}

/// The fixed, immutable catalog of six particle species drawn on the energy
/// chart.
pub fn particle_catalog() -> (v: Vec<ParticleSpec>)
    ensures
        v@.len() == 6,
        forall|i: int|
            0 <= i < 6 ==> v@[i].rest_mass == spec_particle_masses()[i]
                && v@[i].color == spec_particle_colors()[i]
                && 1 <= v@[i].rest_mass <= MASS_MAX,
{
    let mut v: Vec<ParticleSpec> = Vec::new();
    v.push(ParticleSpec { rest_mass: 535822, color: (0, 255, 255), label: "Electron" });
    v.push(ParticleSpec { rest_mass: 110915154, color: (255, 0, 255), label: "Muon" });
    v.push(ParticleSpec { rest_mass: 146279406, color: (255, 255, 0), label: "Pi" });
    v.push(ParticleSpec { rest_mass: 983769192, color: (0, 0, 255), label: "Proton" });
    v.push(ParticleSpec { rest_mass: 1955214478, color: (0, 255, 0), label: "D" });
    v.push(ParticleSpec { rest_mass: 3908285668, color: (255, 0, 0), label: "Alpha" });
    v
}

} // verus!
