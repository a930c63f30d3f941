//! Parameter record and its input-boundary clamping.
//!
//! Every axis is an explicit `{min, max}` pair validated by one
//! clamp-and-validate operation: after any edit the invariant `min < max`
//! with a per-chart minimum gap holds, and the logarithmic chart's domain
//! stays strictly positive.  Domain violations are therefore corrected at
//! the editing boundary, before a render pass ever sees them.
use vstd::prelude::*;
use crate::physics::{BG_LOG_FLOOR, BG_MAX};

verus! {

/// Minimum axis gap of the stopping-power chart: 0.1 in fixed point
/// (rounded up).
pub const GAP_BETHE: i64 = 104858;

/// Minimum axis gap of the energy chart: 0.01 in fixed point (rounded up).
pub const GAP_ENERGY: i64 = 10486;

/// Largest value any axis bound may take.
pub const AXIS_MAX: i64 = 0x10000000000;

/// Clamping of `v` into `[lo, hi]`.
pub open spec fn spec_clamp(v: int, lo: int, hi: int) -> int {
    if v < lo {
        lo
    } else if v > hi {
        hi
    } else {
        v
    }
}

/// Executable clamping of `v` into `[lo, hi]`.
pub fn clamp_i64(v: i64, lo: i64, hi: i64) -> (r: i64)
    requires
        lo <= hi,
    ensures
        r == spec_clamp(v as int, lo as int, hi as int),
        lo <= r <= hi,
{
    if v < lo {
        lo
    } else if v > hi {
        hi
    } else {
        v
    }
}

/// One axis of one chart: an ordered pair of bounds.
#[derive(Clone, Copy)]
pub struct AxisRange {
    pub min: i64,
    pub max: i64,
}

/// The single clamp-and-validate operation every axis edit goes through:
/// the requested minimum is clamped into `[lo, hi - gap]` and the requested
/// maximum into `[min + gap, hi]`, so the result always satisfies
/// `lo <= min` and `min + gap <= max <= hi`.  An inverted request
/// (`min > max`) is corrected here, never passed on.
pub fn clamp_axis(min_req: i64, max_req: i64, lo: i64, hi: i64, gap: i64) -> (r: AxisRange)
    requires
        0 < gap,
        lo + gap <= hi,
        -0x10000000000 <= lo,
        hi <= 0x10000000000,
    ensures
        r.min == spec_clamp(min_req as int, lo as int, hi as int - gap as int),
        r.max == spec_clamp(max_req as int, r.min as int + gap as int, hi as int),
        lo <= r.min,
        r.min + gap <= r.max <= hi,
{
    let min = clamp_i64(min_req, lo, hi - gap);
    let max = clamp_i64(max_req, min + gap, hi);
    AxisRange { min, max }
}

/// The mutable parameter record: material constants and the four axis
/// ranges of the two charts.  Owned by the orchestrator; read-only within a
/// render pass.
#[derive(Clone, Copy)]
pub struct ChartConfig {
    /// Mass number, fixed point, clamped to `[1, 300]` real units.
    pub a: i64,
    /// Atomic number, an unscaled integer clamped to `[1, 300]`.
    pub z_big: i64,
    /// Effective charge, fixed point (accepted, not used by the formula
    /// variant modeled here).
    pub z: i64,
    /// Maximum transferable energy parameter, fixed point (accepted only).
    pub t_max: i64,
    /// Density-effect correction, fixed point (accepted only).
    pub delta: i64,
    /// Stopping-power chart x-domain (logarithmic axis, strictly positive).
    pub bethe_x: AxisRange,
    /// Stopping-power chart y-range.
    pub bethe_y: AxisRange,
    /// Energy chart x-domain.
    pub energy_x: AxisRange,
    /// Energy chart y-range.
    pub energy_y: AxisRange,
}

impl ChartConfig {
    /// Validity: everything the two render passes require.  Established by
    /// the constructor and preserved by every setter.
    pub open spec fn wf(self) -> bool {
        &&& 0x100000 <= self.a <= 300 * 0x100000
        &&& 1 <= self.z_big <= 300
        &&& BG_LOG_FLOOR <= self.bethe_x.min
        &&& self.bethe_x.min + GAP_BETHE <= self.bethe_x.max <= BG_MAX
        &&& 0 <= self.bethe_y.min
        &&& self.bethe_y.min + GAP_BETHE <= self.bethe_y.max <= AXIS_MAX
        &&& 0 <= self.energy_x.min
        &&& self.energy_x.min + GAP_ENERGY <= self.energy_x.max <= BG_MAX
        &&& 0 <= self.energy_y.min
        &&& self.energy_y.min + GAP_ENERGY <= self.energy_y.max <= AXIS_MAX
    }

    /// The startup parameter set: hydrogen-like material, the
    /// stopping-power domain `(0, 1000]` (its lower bound clamped up to the
    /// positive floor of the logarithmic axis) and the energy domain
    /// `[0, 5]`.
    pub fn startup() -> (c: ChartConfig)
        ensures
            c.wf(),
            c.a == 0x100000,
            c.z_big == 1,
            c.bethe_x.min == BG_LOG_FLOOR && c.bethe_x.max == 1000 * 0x100000,
            c.bethe_y.min == 0 && c.bethe_y.max == 20 * 0x100000,
            c.energy_x.min == 0 && c.energy_x.max == 5 * 0x100000,
            c.energy_y.min == 0 && c.energy_y.max == 800 * 0x100000,
    {
        ChartConfig {
            a: 0x100000,
            z_big: 1,
            z: 0x100000,
            t_max: 10 * 0x100000,
            delta: 10 * 0x100000,
            bethe_x: AxisRange { min: BG_LOG_FLOOR, max: 1000 * 0x100000 },
            bethe_y: AxisRange { min: 0, max: 20 * 0x100000 },
            energy_x: AxisRange { min: 0, max: 5 * 0x100000 },
            energy_y: AxisRange { min: 0, max: 800 * 0x100000 },
        }
    }

    /// Edit the mass number, clamped to `[1, 300]` real units.
    pub fn set_a(&mut self, a_req: i64)
        requires
            old(self).wf(),
        ensures
            final(self).wf(),
            final(self).a == spec_clamp(a_req as int, 0x100000, 300int * 0x100000),
            *final(self) == (ChartConfig { a: final(self).a, ..*old(self) }),
    {
        self.a = clamp_i64(a_req, 0x100000, 300 * 0x100000);
    }

    /// Edit the atomic number, clamped to `[1, 300]`.
    pub fn set_z_big(&mut self, z_req: i64)
        requires
            old(self).wf(),
        ensures
            final(self).wf(),
            final(self).z_big == spec_clamp(z_req as int, 1, 300),
            *final(self) == (ChartConfig { z_big: final(self).z_big, ..*old(self) }),
    {
        self.z_big = clamp_i64(z_req, 1, 300);
    }

    /// Edit the stopping-power x-domain.  The lower bound is clamped to the
    /// strictly positive floor the logarithmic transform requires.
    pub fn set_bethe_x(&mut self, min_req: i64, max_req: i64)
        requires
            old(self).wf(),
        ensures
            final(self).wf(),
            final(self).bethe_x == clamped_axis(min_req as int, max_req as int, BG_LOG_FLOOR as int, BG_MAX as int, GAP_BETHE as int),
            *final(self) == (ChartConfig { bethe_x: final(self).bethe_x, ..*old(self) }),
    {
        self.bethe_x = clamp_axis(min_req, max_req, BG_LOG_FLOOR, BG_MAX, GAP_BETHE);
    }

    /// Edit the stopping-power y-range.
    pub fn set_bethe_y(&mut self, min_req: i64, max_req: i64)
        requires
            old(self).wf(),
        ensures
            final(self).wf(),
            final(self).bethe_y == clamped_axis(min_req as int, max_req as int, 0, AXIS_MAX as int, GAP_BETHE as int),
            *final(self) == (ChartConfig { bethe_y: final(self).bethe_y, ..*old(self) }),
    {
        self.bethe_y = clamp_axis(min_req, max_req, 0, AXIS_MAX, GAP_BETHE);
    }

    /// Edit the energy-chart x-domain.
    pub fn set_energy_x(&mut self, min_req: i64, max_req: i64)
        requires
            old(self).wf(),
        ensures
            final(self).wf(),
            final(self).energy_x == clamped_axis(min_req as int, max_req as int, 0, BG_MAX as int, GAP_ENERGY as int),
            *final(self) == (ChartConfig { energy_x: final(self).energy_x, ..*old(self) }),
    {
        self.energy_x = clamp_axis(min_req, max_req, 0, BG_MAX, GAP_ENERGY);
    }

    /// Edit the energy-chart y-range.
    pub fn set_energy_y(&mut self, min_req: i64, max_req: i64)
        requires
            old(self).wf(),
        ensures
            final(self).wf(),
            final(self).energy_y == clamped_axis(min_req as int, max_req as int, 0, AXIS_MAX as int, GAP_ENERGY as int),
            *final(self) == (ChartConfig { energy_y: final(self).energy_y, ..*old(self) }),
    {
        self.energy_y = clamp_axis(min_req, max_req, 0, AXIS_MAX, GAP_ENERGY);
    }
}

/// The axis value `clamp_axis` produces, as a spec-level function.
pub open spec fn clamped_axis(min_req: int, max_req: int, lo: int, hi: int, gap: int) -> AxisRange {
    let min = spec_clamp(min_req, lo, hi - gap);
    let max = spec_clamp(max_req, min + gap, hi);
    AxisRange { min: min as i64, max: max as i64 }
}

} // verus!
