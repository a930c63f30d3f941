//! Fixed-point arithmetic foundation.
//!
//! Real quantities are represented as `i64` values scaled by `ONE = 2^20`:
//! a raw value `v` stands for the real number `v / 2^20`.  This module
//! provides the exactly-specified primitives the physics and chart layers
//! build on: truncating and flooring division, an integer square root, and a
//! fixed-point binary/natural logarithm.
use vstd::prelude::*;
use vstd::arithmetic::div_mod::{
    lemma_div_is_ordered,
    lemma_div_multiples_vanish,
    lemma_div_nonincreasing,
    lemma_div_plus_one,
    lemma_div_pos_is_pos,
    lemma_fundamental_div_mod,
    lemma_fundamental_div_mod_converse,
    lemma_mod_bound,
    lemma_multiply_divide_lt,
};
use vstd::arithmetic::logarithm::{
    log,
    lemma_log0,
    lemma_log_nonnegative,
    lemma_log_s,
};
use vstd::arithmetic::power2::{
    pow2,
    lemma_pow2_pos,
    lemma_pow2_strictly_increases,
    lemma_pow2_unfold,
    lemma2_to64,
    lemma2_to64_rest,
};

verus! {

/// One whole unit in fixed-point representation: `2^20` (twenty
/// fractional bits).
pub const ONE: i64 = 0x100000;

/// Integer square root, defined by counting up from zero.
///
/// `spec_isqrt(x)` is the largest `r` with `r * r <= x`; the executable
/// `isqrt` is proved equal to it.
pub open spec fn spec_isqrt(x: nat) -> nat
    decreases x,
{
    if x == 0 {
        0
    } else {
        let r = spec_isqrt((x - 1) as nat);
        if (r + 1) * (r + 1) <= x {
            r + 1
        } else {
            r
        }
    }
}

/// `spec_isqrt(x)` squares to at most `x`, and the next integer squares past `x`.
pub proof fn lemma_isqrt_bounds(x: nat)
    ensures
        spec_isqrt(x) * spec_isqrt(x) <= x,
        x < (spec_isqrt(x) + 1) * (spec_isqrt(x) + 1),
    decreases x,
{
    if x == 0 {
        assert(spec_isqrt(0nat) == 0);
        assert(x < (spec_isqrt(x) + 1) * (spec_isqrt(x) + 1)) by (nonlinear_arith)
            requires
                x == 0,
                spec_isqrt(x) == 0,
        ;
    } else {
        lemma_isqrt_bounds((x - 1) as nat);
        let r = spec_isqrt((x - 1) as nat);
        if (r + 1) * (r + 1) <= x {
            assert(spec_isqrt(x) == r + 1);
            assert((r + 1 + 1) * (r + 1 + 1) > x) by (nonlinear_arith)
                requires
                    (x - 1) < (r + 1) * (r + 1),
            ;
            assert(x < (spec_isqrt(x) + 1) * (spec_isqrt(x) + 1)) by (nonlinear_arith)
                requires
                    spec_isqrt(x) == r + 1,
                    (r + 1 + 1) * (r + 1 + 1) > x,
            ;
        } else {
            assert(spec_isqrt(x) == r);
            assert(r * r <= x - 1);
            assert(x < (spec_isqrt(x) + 1) * (spec_isqrt(x) + 1));
        }
    }
}

/// A value bracketed by the squares of `r` and `r + 1` pins down the square root.
pub proof fn lemma_isqrt_unique(x: nat, r: nat)
    requires
        r * r <= x,
        x < (r + 1) * (r + 1),
    ensures
        r == spec_isqrt(x),
{
    lemma_isqrt_bounds(x);
    let s = spec_isqrt(x);
    if r < s {
        assert((r + 1) * (r + 1) <= s * s) by (nonlinear_arith)
            requires
                r + 1 <= s,
        ;
    } else if s < r {
        assert((s + 1) * (s + 1) <= r * r) by (nonlinear_arith)
            requires
                s + 1 <= r,
        ;
    }
}

/// The integer square root is monotone.
pub proof fn lemma_isqrt_monotonic(x: nat, y: nat)
    requires
        x <= y,
    ensures
        spec_isqrt(x) <= spec_isqrt(y),
{
    lemma_isqrt_bounds(x);
    lemma_isqrt_bounds(y);
    let a = spec_isqrt(x);
    let b = spec_isqrt(y);
    if b < a {
        assert((b + 1) * (b + 1) <= a * a) by (nonlinear_arith)
            requires
                b + 1 <= a,
        ;
    }
}

/// Executable integer square root over the full `u128` range, by binary search.
pub fn isqrt(x: u128) -> (r: u64)
    ensures
        r as nat == spec_isqrt(x as nat),
        (r as int) * (r as int) <= x as int,
        (x as int) < (r as int + 1) * (r as int + 1),
{
    let mut lo: u128 = 0;
    let mut hi: u128 = 0x10000000000000000;
    assert((hi as int) * (hi as int) > x as int) by (nonlinear_arith)
        requires
            hi == 0x10000000000000000u128,
            x <= u128::MAX,
    ;
    while lo + 1 < hi
        invariant
            lo < hi <= 0x10000000000000000u128,
            (lo as int) * (lo as int) <= x as int,
            (x as int) < (hi as int) * (hi as int),
        decreases hi - lo,
    {
        let mid = lo + (hi - lo) / 2;
        assert(lo < mid < hi);
        assert((mid as int) * (mid as int) <= u128::MAX as int) by (nonlinear_arith)
            requires
                mid < 0x10000000000000000u128,
        ;
        if mid * mid <= x {
            lo = mid;
        } else {
            hi = mid;
        }
    }
    proof {
        lemma_isqrt_unique(x as nat, lo as nat);
    }
    lo as u64
}

/// Truncating division (round toward zero) for a positive divisor.
///
/// This is the rounding Rust's `/` performs on signed integers; the spec-level
/// `/` is Euclidean, so signed fixed-point code states its results with
/// `spec_tdiv` instead.
pub open spec fn spec_tdiv(a: int, b: int) -> int {
    if a >= 0 {
        a / b
    } else {
        -((-a) / b)
    }
}

/// Executable truncating division on `i128`, for a positive divisor.
pub fn tdiv_i128(a: i128, b: i128) -> (r: i128)
    requires
        b > 0,
        -0x40000000000000000000000000000000 < a < 0x40000000000000000000000000000000,
    ensures
        r == spec_tdiv(a as int, b as int),
{
    if a >= 0 {
        let q = (a as u128) / (b as u128);
        proof {
            assert(q == a as int / b as int);
        }
        q as i128
    } else {
        let q = ((-a) as u128) / (b as u128);
        proof {
            assert(q == (-(a as int)) / (b as int));
        }
        -(q as i128)
    }
}

/// Flooring division for a positive divisor, matching the spec-level
/// (Euclidean) `/` on every input.
pub fn fdiv_i128(a: i128, b: i128) -> (r: i128)
    requires
        b > 0,
        -0x40000000000000000000000000000000 < a < 0x40000000000000000000000000000000,
    ensures
        r == a as int / b as int,
{
    if a >= 0 {
        let q = (a as u128) / (b as u128);
        q as i128
    } else {
        // floor(a / b) == -ceil(-a / b) == -((-a + b - 1) / b)
        let n = (-a) as u128;
        let q = (n + (b as u128) - 1) / (b as u128);
        proof {
            vstd::arithmetic::div_mod::lemma_div_is_ordered(
                n as int + b as int - 1,
                n as int + b as int,
                b as int,
            );
            vstd::arithmetic::div_mod::lemma_div_plus_one(n as int, b as int);
            vstd::arithmetic::div_mod::lemma_div_nonincreasing(n as int, b as int);
            assert(q <= n + 1);
        }
        proof {
            let ai = a as int;
            let bi = b as int;
            let ni = n as int;
            lemma_fundamental_div_mod(ni + bi - 1, bi);
            lemma_mod_bound(ni + bi - 1, bi);
            lemma_fundamental_div_mod(ai, bi);
            lemma_mod_bound(ai, bi);
            let qe = ai / bi;
            let re = ai % bi;
            // a == qe * b + re with 0 <= re < b, so -a + b - 1 == (-qe) * b + (b - 1 - re)
            assert(ni + bi - 1 == (-qe) * bi + (bi - 1 - re)) by (nonlinear_arith)
                requires
                    ai == bi * qe + re,
                    ni == -ai,
            ;
            lemma_fundamental_div_mod_converse(ni + bi - 1, bi, -qe, bi - 1 - re);
        }
        -(q as i128)
    }
}

/// For a positive divisor, truncating division never grows the magnitude.
pub proof fn lemma_tdiv_bounds(a: int, b: int)
    requires
        b >= 1,
    ensures
        a >= 0 ==> 0 <= spec_tdiv(a, b) <= a,
        a < 0 ==> a <= spec_tdiv(a, b) <= 0,
{
    if a >= 0 {
        lemma_div_nonincreasing(a, b);
        lemma_div_pos_is_pos(a, b);
    } else {
        lemma_div_nonincreasing(-a, b);
        lemma_div_pos_is_pos(-a, b);
    }
}

/// Truncating division is monotone in its dividend.
pub proof fn lemma_tdiv_ordered(a1: int, a2: int, b: int)
    requires
        b >= 1,
        a1 <= a2,
    ensures
        spec_tdiv(a1, b) <= spec_tdiv(a2, b),
{
    if a1 >= 0 {
        lemma_div_is_ordered(a1, a2, b);
    } else if a2 < 0 {
        lemma_div_is_ordered(-a2, -a1, b);
    } else {
        lemma_tdiv_bounds(a1, b);
        lemma_tdiv_bounds(a2, b);
    }
}

/// The floor of the base-two logarithm brackets its argument between two
/// consecutive powers of two.
pub proof fn lemma_lg_bracket(x: int)
    requires
        x >= 1,
    ensures
        0 <= log(2, x),
        pow2(log(2, x) as nat) <= x < 2 * pow2(log(2, x) as nat),
    decreases x,
{
    lemma_log_nonnegative(2, x);
    if x < 2 {
        lemma_log0(2, x);
        lemma2_to64();
    } else {
        lemma_log_s(2, x);
        lemma_fundamental_div_mod(x, 2);
        lemma_mod_bound(x, 2);
        lemma_lg_bracket(x / 2);
        let l = log(2, x / 2);
        assert(log(2, x) == l + 1);
        lemma_pow2_unfold((l + 1) as nat);
        assert(pow2((l + 1) as nat) == 2 * pow2(l as nat));
        // lower: pow2(l) <= x/2, so 2*pow2(l) <= 2*(x/2) <= x
        // upper: x/2 < 2*pow2(l), so x/2 + 1 <= 2*pow2(l) and x <= 2*(x/2) + 1 < 2*(x/2 + 1)
    }
}

/// Floor of the base-two logarithm of a positive `u64`.
pub fn ilog2_u64(x: u64) -> (k: u32)
    requires
        x >= 1,
    ensures
        k == log(2, x as int),
        k <= 63,
{
    let mut v: u64 = x;
    let mut k: u32 = 0;
    proof {
        lemma2_to64();
    }
    while v >= 2
        invariant
            1 <= v <= x,
            log(2, x as int) == k + log(2, v as int),
            k <= 63,
            pow2(k as nat) * (v as int) <= x as int,
        decreases v,
    {
        proof {
            lemma_log_s(2, v as int);
            lemma_fundamental_div_mod(v as int, 2);
            lemma_mod_bound(v as int, 2);
            lemma_pow2_unfold((k + 1) as nat);
            lemma_pow2_pos(k as nat);
            let p = pow2(k as nat) as int;
            let h = v as int / 2;
            assert(pow2((k + 1) as nat) * h <= p * (v as int)) by (nonlinear_arith)
                requires
                    pow2((k + 1) as nat) == 2 * p,
                    2 * h <= v as int,
                    p >= 1,
            ;
            // k + 1 stays at most 63: otherwise pow2(k + 1) would exceed x
            assert(pow2((k + 1) as nat) <= pow2((k + 1) as nat) * h) by (nonlinear_arith)
                requires
                    h >= 1,
                    pow2((k + 1) as nat) >= 1,
            ;
            if k == 63 {
                lemma2_to64();
                lemma2_to64_rest();
            }
        }
        v = v / 2;
        k = k + 1;
    }
    proof {
        lemma_log0(2, v as int);
    }
    k
}

/// `2^e` as an executable `u128`.
pub fn pow2_u128(e: u32) -> (r: u128)
    requires
        e <= 64,
    ensures
        r == pow2(e as nat),
        r >= 1,
{
    let mut r: u128 = 1;
    let mut i: u32 = 0;
    proof {
        lemma2_to64();
    }
    while i < e
        invariant
            i <= e <= 64,
            r == pow2(i as nat),
        decreases e - i,
    {
        proof {
            lemma_pow2_unfold((i + 1) as nat);
            if (i as nat) < 64 {
                lemma_pow2_strictly_increases(i as nat, 64);
                lemma2_to64_rest();
            }
        }
        r = r * 2;
        i = i + 1;
    }
    proof {
        lemma_pow2_pos(e as nat);
    }
    r
}

/// One step of binary-digit extraction on a mantissa held in scale `2^32`:
/// square it, renormalize, and (implicitly) emit one fractional bit of its
/// base-two logarithm.
pub open spec fn spec_mant_step(m: int) -> int {
    let s = (m * m) / 0x100000000;
    if s >= 0x200000000 {
        s / 2
    } else {
        s
    }
}

/// The mantissa after `n` extraction steps.
pub open spec fn spec_mant(m0: int, n: nat) -> int
    decreases n,
{
    if n == 0 {
        m0
    } else {
        spec_mant_step(spec_mant(m0, (n - 1) as nat))
    }
}

/// The `n` leading fractional bits of `log2(m0 / 2^32)`, as an integer in
/// `[0, 2^n)`.
pub open spec fn spec_fracbits(m0: int, n: nat) -> int
    decreases n,
{
    if n == 0 {
        0
    } else {
        let m = spec_mant(m0, (n - 1) as nat);
        let s = (m * m) / 0x100000000;
        2 * spec_fracbits(m0, (n - 1) as nat) + if s >= 0x200000000 {
            1int
        } else {
            0int
        }
    }
}

/// Digit extraction keeps the mantissa normalized in `[2^32, 2^33)`.
pub proof fn lemma_mant_range(m0: int, n: nat)
    requires
        0x100000000 <= m0 < 0x200000000,
    ensures
        0x100000000 <= spec_mant(m0, n) < 0x200000000,
    decreases n,
{
    if n > 0 {
        lemma_mant_range(m0, (n - 1) as nat);
        let m = spec_mant(m0, (n - 1) as nat);
        let s = (m * m) / 0x100000000;
        assert(0x100000000 * 0x100000000 <= m * m < 0x400000000 * 0x100000000)
            by (nonlinear_arith)
            requires
                0x100000000 <= m < 0x200000000,
        ;
        lemma_div_is_ordered(0x100000000int * 0x100000000, m * m, 0x100000000);
        lemma_div_multiples_vanish(0x100000000, 0x100000000);
        lemma_multiply_divide_lt(m * m, 0x100000000, 0x400000000);
        assert(0x100000000 <= s < 0x400000000);
        if s >= 0x200000000 {
            lemma_div_is_ordered(0x200000000, s, 2);
            lemma_multiply_divide_lt(s, 2, 0x200000000);
        }
    }
}

/// The extracted fraction stays below `2^n`.
pub proof fn lemma_fracbits_bound(m0: int, n: nat)
    ensures
        0 <= spec_fracbits(m0, n) < pow2(n),
    decreases n,
{
    lemma_pow2_pos(n);
    if n == 0 {
        lemma2_to64();
    } else {
        lemma_fracbits_bound(m0, (n - 1) as nat);
        lemma_pow2_unfold(n);
    }
}

/// Fixed-point floor-style base-two logarithm: the integer part is exact and
/// twenty fractional bits are produced by repeated squaring of the
/// normalized mantissa.  The result is in scale `ONE`.
pub open spec fn spec_log2_fixed(x: int) -> int {
    let k = log(2, x);
    let m0 = (x * 0x100000000) / (pow2(k as nat) as int);
    (k - 20) * 0x100000 + spec_fracbits(m0, 20)
}

/// Fixed-point natural logarithm of `x / ONE`, in scale `ONE`: the base-two
/// logarithm rescaled by `ln 2`.
pub open spec fn spec_ln_fixed(x: int) -> int {
    spec_tdiv(spec_log2_fixed(x) * 726817, 0x100000)
}

/// The normalized mantissa `x * 2^32 / 2^log2(x)` lies in `[2^32, 2^33)`.
pub proof fn lemma_m0_range(x: int)
    requires
        x >= 1,
    ensures
        0x100000000 <= (x * 0x100000000) / (pow2(log(2, x) as nat) as int) < 0x200000000,
{
    lemma_lg_bracket(x);
    let p = pow2(log(2, x) as nat) as int;
    assert(x * 0x100000000 >= p * 0x100000000) by (nonlinear_arith)
        requires
            x >= p,
    ;
    lemma_div_is_ordered(p * 0x100000000, x * 0x100000000, p);
    lemma_div_multiples_vanish(0x100000000, p);
    assert(x * 0x100000000 < p * 0x200000000) by (nonlinear_arith)
        requires
            x < 2 * p,
            p >= 1,
    ;
    lemma_multiply_divide_lt(x * 0x100000000, p, 0x200000000);
}

/// Digit extraction is monotone: a larger mantissa never produces a
/// smaller fraction, and on equal fractions the mantissas stay ordered.
pub proof fn lemma_fracbits_monotonic(m1: int, m2: int, n: nat)
    requires
        0x100000000 <= m1 <= m2 < 0x200000000,
    ensures
        spec_fracbits(m1, n) < spec_fracbits(m2, n) || (spec_fracbits(m1, n) == spec_fracbits(
            m2,
            n,
        ) && spec_mant(m1, n) <= spec_mant(m2, n)),
    decreases n,
{
    if n > 0 {
        lemma_fracbits_monotonic(m1, m2, (n - 1) as nat);
        lemma_mant_range(m1, (n - 1) as nat);
        lemma_mant_range(m2, (n - 1) as nat);
        let a = spec_mant(m1, (n - 1) as nat);
        let b = spec_mant(m2, (n - 1) as nat);
        let f1 = spec_fracbits(m1, (n - 1) as nat);
        let f2 = spec_fracbits(m2, (n - 1) as nat);
        if f1 < f2 {
            // the gap can only widen: 2 * f1 + bit <= 2 * f1 + 1 < 2 * f2
        } else {
            // equal fractions, ordered mantissas: squaring keeps the order
            assert(a * a <= b * b) by (nonlinear_arith)
                requires
                    0 <= a <= b,
            ;
            lemma_div_is_ordered(a * a, b * b, 0x100000000);
            let s1 = (a * a) / 0x100000000;
            let s2 = (b * b) / 0x100000000;
            if s1 >= 0x200000000 && s2 >= 0x200000000 {
                lemma_div_is_ordered(s1, s2, 2);
            }
        }
    }
}

/// The fixed-point base-two logarithm is monotone.
pub proof fn lemma_log2_fixed_monotonic(x: int, y: int)
    requires
        1 <= x <= y,
    ensures
        spec_log2_fixed(x) <= spec_log2_fixed(y),
{
    vstd::arithmetic::logarithm::lemma_log_is_ordered(2, x, y);
    lemma_log_nonnegative(2, x);
    let kx = log(2, x);
    let ky = log(2, y);
    let px = pow2(kx as nat) as int;
    let m0x = (x * 0x100000000) / px;
    let m0y = (y * 0x100000000) / (pow2(ky as nat) as int);
    lemma_m0_range(x);
    lemma_m0_range(y);
    lemma_fracbits_bound(m0x, 20);
    lemma_fracbits_bound(m0y, 20);
    lemma2_to64();
    if kx == ky {
        lemma_pow2_pos(kx as nat);
        lemma_div_is_ordered(x * 0x100000000, y * 0x100000000, px);
        lemma_fracbits_monotonic(m0x, m0y, 20);
    }
}

/// The fixed-point natural logarithm is monotone.
pub proof fn lemma_ln_fixed_monotonic(x: int, y: int)
    requires
        1 <= x <= y,
    ensures
        spec_ln_fixed(x) <= spec_ln_fixed(y),
{
    lemma_log2_fixed_monotonic(x, y);
    lemma_tdiv_ordered(spec_log2_fixed(x) * 726817, spec_log2_fixed(y) * 726817, 0x100000);
}

/// Executable fixed-point base-two logarithm.
pub fn log2_fixed(x: u64) -> (r: i64)
    requires
        x >= 1,
    ensures
        r == spec_log2_fixed(x as int),
        -0x1500000 <= r <= 0x2C00000,
{
    let k = ilog2_u64(x);
    let p = pow2_u128(k);
    proof {
        lemma_lg_bracket(x as int);
        assert(p == pow2(log(2, x as int) as nat));
        assert((x as int) * 0x100000000 >= (p as int) * 0x100000000) by (nonlinear_arith)
            requires
                x as int >= p as int,
        ;
        lemma_div_is_ordered((p as int) * 0x100000000, (x as int) * 0x100000000, p as int);
        lemma_div_multiples_vanish(0x100000000, p as int);
        assert((x as int) * 0x100000000 < (p as int) * 0x200000000) by (nonlinear_arith)
            requires
                (x as int) < 2 * (p as int),
        ;
        lemma_multiply_divide_lt((x as int) * 0x100000000, p as int, 0x200000000);
    }
    let m0 = ((x as u128) * 0x100000000) / p;
    assert(0x100000000 <= m0 < 0x200000000);
    let ghost m0i = m0 as int;
    let mut m: u128 = m0;
    let mut frac: u64 = 0;
    let mut i: u32 = 0;
    while i < 20
        invariant
            i <= 20,
            0x100000000 <= m0i < 0x200000000,
            m == spec_mant(m0i, i as nat),
            frac == spec_fracbits(m0i, i as nat),
            0x100000000 <= m < 0x200000000,
            frac < 0x100000,
        decreases 20 - i,
    {
        proof {
            lemma_mant_range(m0i, (i + 1) as nat);
            lemma_fracbits_bound(m0i, (i + 1) as nat);
            lemma2_to64();
            assert((m as int) * (m as int) < 0x200000000 * 0x200000000) by (nonlinear_arith)
                requires
                    m < 0x200000000,
            ;
        }
        let s = (m * m) / 0x100000000;
        if s >= 0x200000000 {
            m = s / 2;
            frac = 2 * frac + 1;
        } else {
            m = s;
            frac = 2 * frac;
        }
        i = i + 1;
    }
    let lf: i64 = (k as i64 - 20) * 0x100000 + (frac as i64);
    lf
}

/// Executable fixed-point natural logarithm.
pub fn ln_fixed(x: u64) -> (r: i64)
    requires
        x >= 1,
    ensures
        r == spec_ln_fixed(x as int),
        -0x1000000 <= r <= 0x2000000,
{
    let l = log2_fixed(x);
    let prod: i128 = (l as i128) * 726817;
    let q = tdiv_i128(prod, 0x100000);
    proof {
        lemma_tdiv_ordered(prod as int, 0x2C00000int * 726817, 0x100000);
        lemma_tdiv_ordered(-0x1500000int * 726817, prod as int, 0x100000);
        lemma_div_multiples_vanish(0x2Cint * 726817, 0x100000);
        lemma_div_multiples_vanish(0x15int * 726817, 0x100000);
        assert(0x2C00000 * 726817 == 0x100000 * (0x2C * 726817));
        assert(0x1500000 * 726817 == 0x100000 * (0x15 * 726817));
    }
    q as i64
}

} // verus!
