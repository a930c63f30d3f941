//! Chart layer: coordinate transforms, layout and the two render passes.
//!
//! A render pass is a strictly ordered pipeline — clear the buffer, build
//! the coordinate transforms, stroke every series, draw gridlines, axis
//! frame and decorations — and its contract gives the finished byte buffer
//! as one spec-level function of the configuration, so a render is provably
//! a deterministic function of the parameters alone.
use vstd::prelude::*;
use crate::config::{spec_clamp, clamp_i64, ChartConfig};
use crate::fixed::{fdiv_i128, ln_fixed, spec_ln_fixed};
use crate::physics::{
    e_kin,
    particle_catalog,
    spec_e_kin,
    spec_particle_colors,
    spec_particle_masses,
    spec_stopping_power,
};
use crate::raster::{
    Raster,
    spec_filled,
    spec_hline_prefix,
    spec_polyline,
    spec_vline_prefix,
};
use crate::sampler::{sample_bethe_series, sample_energy_series, spec_sample_x, SAMPLE_COUNT};
use vstd::arithmetic::div_mod::{
    lemma_div_is_ordered,
    lemma_div_multiples_vanish,
    lemma_div_pos_is_pos,
};
use vstd::arithmetic::power2::pow2;

verus! {

/// Width of each chart's raster, in pixels.
pub const CHART_W: usize = 550;

/// Height of each chart's raster, in pixels.
pub const CHART_H: usize = 500;

/// Linear transform: how far into `[0, len]` the clamped value `v` sits
/// within `[vmin, vmax]`.
pub open spec fn spec_lin_offset(v: int, vmin: int, vmax: int, len: int) -> int {
    (spec_clamp(v, vmin, vmax) - vmin) * len / (vmax - vmin)
}

/// Logarithmic transform: the offset is affine in `ln v` rather than in
/// `v`.  If the fixed-point logarithms of the two bounds collapse, the
/// offset degenerates to zero; out-of-band values are clamped to the edges.
pub open spec fn spec_log_offset(v: int, vmin: int, vmax: int, len: int) -> int {
    let lv = spec_ln_fixed(spec_clamp(v, vmin, vmax));
    let lmin = spec_ln_fixed(vmin);
    let lmax = spec_ln_fixed(vmax);
    if lmax <= lmin {
        0
    } else {
        spec_clamp((lv - lmin) * len / (lmax - lmin), 0, len)
    }
}

/// Executable linear offset, always within `[0, len]`.
pub fn lin_offset(v: i64, vmin: i64, vmax: i64, len: usize) -> (off: usize)
    requires
        -0x10000000000 <= vmin < vmax <= 0x10000000000,
        1 <= len <= 4096,
    ensures
        off == spec_lin_offset(v as int, vmin as int, vmax as int, len as int),
        off <= len,
{
    let vc = clamp_i64(v, vmin, vmax);
    proof {
        assert(((vc - vmin) as int) * (len as int) <= 0x20000000000int * 4096)
            by (nonlinear_arith)
            requires
                0 <= vc - vmin <= 0x20000000000,
                0 <= len <= 4096,
        ;
    }
    let num: u128 = ((vc - vmin) as u128) * (len as u128);
    let den: u128 = (vmax - vmin) as u128;
    proof {
        let di = (vmax - vmin) as int;
        let ni = (vc - vmin) as int;
        assert(0 <= ni * len <= di * len) by (nonlinear_arith)
            requires
                0 <= ni <= di,
                len >= 1,
        ;
        lemma_div_pos_is_pos(ni * len, di);
        lemma_div_is_ordered(ni * len, di * len, di);
        lemma_div_multiples_vanish(len as int, di);
        assert(di * len == di * (len as int)) by (nonlinear_arith);
    }
    (num / den) as usize
}

/// Executable logarithmic offset, always within `[0, len]`.
pub fn log_offset(v: i64, vmin: i64, vmax: i64, len: usize) -> (off: usize)
    requires
        1 <= vmin < vmax <= 0x10000000000,
        1 <= len <= 4096,
    ensures
        off == spec_log_offset(v as int, vmin as int, vmax as int, len as int),
        off <= len,
{
    let vc = clamp_i64(v, vmin, vmax);
    let lv = ln_fixed(vc as u64);
    let lmin = ln_fixed(vmin as u64);
    let lmax = ln_fixed(vmax as u64);
    if lmax <= lmin {
        0
    } else {
        proof {
            assert(-0x3000000int * 4096 <= ((lv - lmin) as int) * (len as int) <= 0x3000000int
                * 4096) by (nonlinear_arith)
                requires
                    -0x3000000 <= lv - lmin <= 0x3000000,
                    0 <= len <= 4096,
            ;
        }
        let q = fdiv_i128(
            ((lv - lmin) as i128) * (len as i128),
            (lmax - lmin) as i128,
        );
        if q < 0 {
            0
        } else if q > len as i128 {
            len
        } else {
            q as usize
        }
    }
}

/// Law: the linear axis transform keeps order — a larger value is never
/// mapped left of (or above) a smaller one.
pub proof fn lemma_lin_offset_monotonic(v1: int, v2: int, vmin: int, vmax: int, len: int)
    requires
        vmin < vmax,
        v1 <= v2,
        len >= 0,
    ensures
        spec_lin_offset(v1, vmin, vmax, len) <= spec_lin_offset(v2, vmin, vmax, len),
{
    let c1 = spec_clamp(v1, vmin, vmax);
    let c2 = spec_clamp(v2, vmin, vmax);
    assert((c1 - vmin) * len <= (c2 - vmin) * len) by (nonlinear_arith)
        requires
            c1 <= c2,
            len >= 0,
    ;
    lemma_div_is_ordered((c1 - vmin) * len, (c2 - vmin) * len, vmax - vmin);
}

/// Law: the logarithmic axis transform keeps order, because the
/// fixed-point logarithm itself is monotone.
pub proof fn lemma_log_offset_monotonic(v1: int, v2: int, vmin: int, vmax: int, len: int)
    requires
        1 <= vmin < vmax,
        v1 <= v2,
        len >= 0,
    ensures
        spec_log_offset(v1, vmin, vmax, len) <= spec_log_offset(v2, vmin, vmax, len),
{
    let c1 = spec_clamp(v1, vmin, vmax);
    let c2 = spec_clamp(v2, vmin, vmax);
    crate::fixed::lemma_ln_fixed_monotonic(c1, c2);
    let lmin = spec_ln_fixed(vmin);
    let lmax = spec_ln_fixed(vmax);
    let l1 = spec_ln_fixed(c1);
    let l2 = spec_ln_fixed(c2);
    if lmax > lmin {
        assert((l1 - lmin) * len <= (l2 - lmin) * len) by (nonlinear_arith)
            requires
                l1 <= l2,
                len >= 0,
        ;
        lemma_div_is_ordered((l1 - lmin) * len, (l2 - lmin) * len, lmax - lmin);
    }
}

/// The byte sequence after a vertical line spanning rows `y0..=y1` at
/// column `x` (the form `Raster::draw_vline` produces).
pub open spec fn spec_vline_span(d: Seq<u8>, w: int, x: int, y0: int, y1: int, c: (u8, u8, u8)) -> Seq<u8> {
    spec_vline_prefix(d, w, x, y0, c, (y1 - y0 + 1) as nat)
}

/// The byte sequence after a horizontal line spanning columns `x0..=x1` at
/// row `y` (the form `Raster::draw_hline` produces).
pub open spec fn spec_hline_span(d: Seq<u8>, w: int, y: int, x0: int, x1: int, c: (u8, u8, u8)) -> Seq<u8> {
    spec_hline_prefix(d, w, y, x0, c, (x1 - x0 + 1) as nat)
}

/// The byte sequence after `k` evenly spaced vertical gridlines at columns
/// `x0 + step * j` for `j = 1..=k`.
pub open spec fn spec_vgrid(
    d: Seq<u8>,
    w: int,
    x0: int,
    step: int,
    y0: int,
    y1: int,
    c: (u8, u8, u8),
    k: nat,
) -> Seq<u8>
    decreases k,
{
    if k == 0 {
        d
    } else {
        spec_vline_span(
            spec_vgrid(d, w, x0, step, y0, y1, c, (k - 1) as nat),
            w,
            x0 + step * k,
            y0,
            y1,
            c,
        )
    }
}

/// The byte sequence after `k` evenly spaced horizontal gridlines at rows
/// `y0 + step * j` for `j = 1..=k`.
pub open spec fn spec_hgrid(
    d: Seq<u8>,
    w: int,
    y0: int,
    step: int,
    x0: int,
    x1: int,
    c: (u8, u8, u8),
    k: nat,
) -> Seq<u8>
    decreases k,
{
    if k == 0 {
        d
    } else {
        spec_hline_span(
            spec_hgrid(d, w, y0, step, x0, x1, c, (k - 1) as nat),
            w,
            y0 + step * k,
            x0,
            x1,
            c,
        )
    }
}

/// Draw `count` evenly spaced vertical gridlines.
pub fn draw_vgrid(r: &mut Raster, x0: usize, step: usize, y0: usize, y1: usize, c: (u8, u8, u8), count: usize)
    requires
        old(r).wf(),
        y0 <= y1 < old(r).height,
        1 <= step,
        count <= 16,
        x0 + step * count < old(r).width,
    ensures
        final(r).wf(),
        final(r).width == old(r).width,
        final(r).height == old(r).height,
        final(r).data@ == spec_vgrid(
            old(r).data@,
            old(r).width as int,
            x0 as int,
            step as int,
            y0 as int,
            y1 as int,
            c,
            count as nat,
        ),
{
    let mut j: usize = 1;
    while j <= count
        invariant
            r.wf(),
            r.width == old(r).width,
            r.height == old(r).height,
            y0 <= y1 < r.height,
            1 <= step,
            count <= 16,
            x0 + step * count < r.width,
            1 <= j <= count + 1,
            r.data@ == spec_vgrid(
                old(r).data@,
                r.width as int,
                x0 as int,
                step as int,
                y0 as int,
                y1 as int,
                c,
                (j - 1) as nat,
            ),
        decreases count + 1 - j,
    {
        proof {
            assert(step * j <= step * count) by (nonlinear_arith)
                requires
                    j <= count,
                    step >= 0,
            ;
        }
        r.draw_vline(x0 + step * j, y0, y1, c);
        j = j + 1;
    }
}

/// Draw `count` evenly spaced horizontal gridlines.
pub fn draw_hgrid(r: &mut Raster, y0: usize, step: usize, x0: usize, x1: usize, c: (u8, u8, u8), count: usize)
    requires
        old(r).wf(),
        x0 <= x1 < old(r).width,
        1 <= step,
        count <= 16,
        y0 + step * count < old(r).height,
    ensures
        final(r).wf(),
        final(r).width == old(r).width,
        final(r).height == old(r).height,
        final(r).data@ == spec_hgrid(
            old(r).data@,
            old(r).width as int,
            y0 as int,
            step as int,
            x0 as int,
            x1 as int,
            c,
            count as nat,
        ),
{
    let mut j: usize = 1;
    while j <= count
        invariant
            r.wf(),
            r.width == old(r).width,
            r.height == old(r).height,
            x0 <= x1 < r.width,
            1 <= step,
            count <= 16,
            y0 + step * count < r.height,
            1 <= j <= count + 1,
            r.data@ == spec_hgrid(
                old(r).data@,
                r.width as int,
                y0 as int,
                step as int,
                x0 as int,
                x1 as int,
                c,
                (j - 1) as nat,
            ),
        decreases count + 1 - j,
    {
        proof {
            assert(step * j <= step * count) by (nonlinear_arith)
                requires
                    j <= count,
                    step >= 0,
            ;
        }
        r.draw_hline(y0 + step * j, x0, x1, c);
        j = j + 1;
    }
}

/// Pixel points of one energy-chart series: abscissas mapped linearly into
/// the plot rectangle, kinetic energies mapped linearly (and inverted,
/// since the raster origin is top-left) into its rows.
pub open spec fn spec_energy_pts(
    exmin: int,
    exmax: int,
    eymin: int,
    eymax: int,
    mass: int,
) -> Seq<(usize, usize)> {
    Seq::new(
        451,
        |i: int|
            (
                ((100 + spec_lin_offset(
                    spec_sample_x(exmin, exmax, 450, i),
                    exmin,
                    exmax,
                    428,
                )) as usize),
                ((448 - spec_lin_offset(
                    spec_e_kin(spec_sample_x(exmin, exmax, 450, i), mass),
                    eymin,
                    eymax,
                    402,
                )) as usize),
            ),
    )
}

/// The energy chart after the first `k` particle curves have been stroked.
pub open spec fn spec_energy_curves(
    d: Seq<u8>,
    exmin: int,
    exmax: int,
    eymin: int,
    eymax: int,
    k: nat,
) -> Seq<u8>
    decreases k,
{
    if k == 0 {
        d
    } else {
        spec_polyline(
            spec_energy_curves(d, exmin, exmax, eymin, eymax, (k - 1) as nat),
            550,
            spec_energy_pts(exmin, exmax, eymin, eymax, spec_particle_masses()[k - 1]),
            spec_particle_colors()[k - 1],
        )
    }
}

/// The energy chart after the first `k` legend swatches have been drawn.
pub open spec fn spec_legend(d: Seq<u8>, k: nat) -> Seq<u8>
    decreases k,
{
    if k == 0 {
        d
    } else {
        spec_hline_span(
            spec_legend(d, (k - 1) as nat),
            550,
            60 + 12 * (k - 1),
            460,
            480,
            spec_particle_colors()[k - 1],
        )
    }
}

/// The finished energy-chart byte buffer, as a function of the four axis
/// bounds alone: background fill, six particle curves, gridlines, axis
/// frame, legend swatches.
pub open spec fn spec_render_energy_core(exmin: int, exmax: int, eymin: int, eymax: int) -> Seq<u8> {
    let d0 = spec_filled(550, 500, (40u8, 40u8, 40u8));
    let d1 = spec_energy_curves(d0, exmin, exmax, eymin, eymax, 6);
    let d2 = spec_vgrid(d1, 550, 100, 42, 46, 448, (255u8, 255u8, 255u8), 9);
    let d3 = spec_hgrid(d2, 550, 46, 40, 100, 528, (255u8, 255u8, 255u8), 9);
    let d4 = spec_vline_span(d3, 550, 100, 46, 448, (255u8, 255u8, 255u8));
    let d5 = spec_hline_span(d4, 550, 448, 100, 528, (255u8, 255u8, 255u8));
    spec_legend(d5, 6)
}

/// The energy chart reads only its own axis bounds of the configuration.
pub open spec fn spec_render_energy(cfg: ChartConfig) -> Seq<u8> {
    spec_render_energy_core(
        cfg.energy_x.min as int,
        cfg.energy_x.max as int,
        cfg.energy_y.min as int,
        cfg.energy_y.max as int,
    )
}

/// Build the pixel polyline of one energy series.
fn build_energy_pts(exmin: i64, exmax: i64, eymin: i64, eymax: i64, mass: i64) -> (pts: Vec<
    (usize, usize),
>)
    requires
        0 <= exmin,
        exmin + 10486 <= exmax <= 0x200000000,
        0 <= eymin,
        eymin + 10486 <= eymax <= 0x10000000000,
        1 <= mass <= 0x100000000,
    ensures
        pts@ == spec_energy_pts(exmin as int, exmax as int, eymin as int, eymax as int, mass as int),
        pts@.len() == 451,
        forall|i: int|
            0 <= i < 451 ==> 100 <= (#[trigger] pts@[i]).0 <= 528 && 46 <= pts@[i].1 <= 448,
{
    let s = sample_energy_series(exmin, exmax, SAMPLE_COUNT, mass);
    let mut pts: Vec<(usize, usize)> = Vec::new();
    let mut i: usize = 0;
    let ghost spts = spec_energy_pts(exmin as int, exmax as int, eymin as int, eymax as int, mass as int);
    while i < 451
        invariant
            s@.len() == 451,
            -0x10000000000 <= exmin < exmax <= 0x10000000000,
            -0x10000000000 <= eymin < eymax <= 0x10000000000,
            spts == spec_energy_pts(exmin as int, exmax as int, eymin as int, eymax as int, mass as int),
            forall|j: int|
                0 <= j < 451 ==> #[trigger] s@[j].0 == spec_sample_x(
                    exmin as int,
                    exmax as int,
                    450,
                    j,
                ),
            forall|j: int|
                0 <= j < 451 ==> #[trigger] s@[j].1 == spec_e_kin(s@[j].0 as int, mass as int),
            i <= 451,
            pts@.len() == i,
            forall|j: int| 0 <= j < i ==> #[trigger] pts@[j] == spts[j],
            forall|j: int|
                0 <= j < i ==> 100 <= (#[trigger] pts@[j]).0 <= 528 && 46 <= pts@[j].1 <= 448,
        decreases 451 - i,
    {
        let p = s[i];
        let px: usize = 100 + lin_offset(p.0, exmin, exmax, 428);
        let py: usize = 448 - lin_offset(p.1, eymin, eymax, 402);
        pts.push((px, py));
        i = i + 1;
    }
    proof {
        assert(pts@ =~= spts);
    }
    pts
}

/// Render the energy chart: six kinetic-energy curves over a linear-linear
/// coordinate system, with gridlines, axis frame and a legend.
pub fn render_energy(cfg: &ChartConfig) -> (r: Raster)
    requires
        cfg.wf(),
    ensures
        r.wf(),
        r.width == 550,
        r.height == 500,
        r.data@ == spec_render_energy(*cfg),
{
    let mut r = Raster::new_filled(550, 500, (40, 40, 40));
    let ghost d0 = r.data@;
    let exmin = cfg.energy_x.min;
    let exmax = cfg.energy_x.max;
    let eymin = cfg.energy_y.min;
    let eymax = cfg.energy_y.max;
    let cat = particle_catalog();
    let mut k: usize = 0;
    while k < 6
        invariant
            r.wf(),
            r.width == 550,
            r.height == 500,
            cfg.wf(),
            exmin == cfg.energy_x.min,
            exmax == cfg.energy_x.max,
            eymin == cfg.energy_y.min,
            eymax == cfg.energy_y.max,
            cat@.len() == 6,
            forall|j: int|
                0 <= j < 6 ==> (#[trigger] cat@[j]).rest_mass == spec_particle_masses()[j]
                    && cat@[j].color == spec_particle_colors()[j] && 1 <= cat@[j].rest_mass
                    <= 0x100000000,
            k <= 6,
            r.data@ == spec_energy_curves(
                d0,
                exmin as int,
                exmax as int,
                eymin as int,
                eymax as int,
                k as nat,
            ),
        decreases 6 - k,
    {
        let mass = cat[k].rest_mass;
        let color = cat[k].color;
        let pts = build_energy_pts(exmin, exmax, eymin, eymax, mass);
        r.draw_polyline(&pts, color);
        k = k + 1;
    }
    draw_vgrid(&mut r, 100, 42, 46, 448, (255, 255, 255), 9);
    draw_hgrid(&mut r, 46, 40, 100, 528, (255, 255, 255), 9);
    r.draw_vline(100, 46, 448, (255, 255, 255));
    r.draw_hline(448, 100, 528, (255, 255, 255));
    let ghost d5 = r.data@;
    let mut k2: usize = 0;
    while k2 < 6
        invariant
            r.wf(),
            r.width == 550,
            r.height == 500,
            cat@.len() == 6,
            forall|j: int| 0 <= j < 6 ==> (#[trigger] cat@[j]).color == spec_particle_colors()[j],
            k2 <= 6,
            r.data@ == spec_legend(d5, k2 as nat),
        decreases 6 - k2,
    {
        r.draw_hline(60 + 12 * k2, 460, 480, cat[k2].color);
        k2 = k2 + 1;
    }
    r
}

/// Pixel points of the stopping-power series: abscissas mapped through the
/// logarithmic transform, ordinates linearly (inverted).
pub open spec fn spec_bethe_pts(
    a: int,
    z_big: int,
    bxmin: int,
    bxmax: int,
    bymin: int,
    bymax: int,
) -> Seq<(usize, usize)> {
    Seq::new(
        451,
        |i: int|
            (
                ((80 + spec_log_offset(
                    spec_sample_x(bxmin, bxmax, 450, i),
                    bxmin,
                    bxmax,
                    448,
                )) as usize),
                ((394 - spec_lin_offset(
                    spec_stopping_power(a, z_big, spec_sample_x(bxmin, bxmax, 450, i)),
                    bymin,
                    bymax,
                    348,
                )) as usize),
            ),
    )
}

/// Lower bound of the secondary (muon kinetic energy) axis: the kinetic
/// energy of a 200-electron-mass particle at the chart's lower momentum
/// bound, in GeV-like units (scaled down by 1000), floored at one
/// fixed-point step so the logarithmic transform stays in its domain.
pub open spec fn spec_sec_lo(bxmin: int) -> int {
    let e = spec_e_kin(bxmin, 107164400) / 1000;
    if e < 1 {
        1
    } else {
        e
    }
}

/// Upper bound of the secondary axis, kept strictly above the lower bound.
pub open spec fn spec_sec_hi(bxmin: int, bxmax: int) -> int {
    let lo = spec_sec_lo(bxmin);
    let e = spec_e_kin(bxmax, 107164400) / 1000;
    if e < lo + 1 {
        lo + 1
    } else {
        e
    }
}

/// The secondary axis strip after tick marks for all powers of two up to
/// `2^(j-1)` that fall inside `[lo, hi]`, each placed through the
/// logarithmic transform.
pub open spec fn spec_sec_ticks(d: Seq<u8>, lo: int, hi: int, j: nat) -> Seq<u8>
    decreases j,
{
    if j == 0 {
        d
    } else {
        let prev = spec_sec_ticks(d, lo, hi, (j - 1) as nat);
        let v = pow2((j - 1) as nat) as int;
        if lo <= v <= hi {
            spec_vline_span(
                prev,
                550,
                80 + spec_log_offset(v, lo, hi, 448),
                435,
                444,
                (255u8, 255u8, 255u8),
            )
        } else {
            prev
        }
    }
}

/// The finished stopping-power chart byte buffer, as a function of the
/// material parameters and its axis bounds alone: background fill, the
/// curve over a log-linear system, gridlines, axis frame, and the
/// secondary muon-energy tick strip.
pub open spec fn spec_render_bethe_core(
    a: int,
    z_big: int,
    bxmin: int,
    bxmax: int,
    bymin: int,
    bymax: int,
) -> Seq<u8> {
    let d0 = spec_filled(550, 500, (40u8, 40u8, 40u8));
    let d1 = spec_polyline(
        d0,
        550,
        spec_bethe_pts(a, z_big, bxmin, bxmax, bymin, bymax),
        (255u8, 0u8, 0u8),
    );
    let d2 = spec_vgrid(d1, 550, 80, 44, 46, 394, (255u8, 255u8, 255u8), 9);
    let d3 = spec_hgrid(d2, 550, 46, 34, 80, 528, (255u8, 255u8, 255u8), 9);
    let d4 = spec_vline_span(d3, 550, 80, 46, 394, (255u8, 255u8, 255u8));
    let d5 = spec_hline_span(d4, 550, 394, 80, 528, (255u8, 255u8, 255u8));
    let d6 = spec_hline_span(d5, 550, 435, 80, 528, (255u8, 255u8, 255u8));
    spec_sec_ticks(d6, spec_sec_lo(bxmin), spec_sec_hi(bxmin, bxmax), 48)
}

/// The stopping-power chart reads only the material parameters and its own
/// axis bounds of the configuration.
pub open spec fn spec_render_bethe(cfg: ChartConfig) -> Seq<u8> {
    spec_render_bethe_core(
        cfg.a as int,
        cfg.z_big as int,
        cfg.bethe_x.min as int,
        cfg.bethe_x.max as int,
        cfg.bethe_y.min as int,
        cfg.bethe_y.max as int,
    )
}

/// Build the pixel polyline of the stopping-power series.
fn build_bethe_pts(a: i64, z_big: i64, z: i64, t_max: i64, delta: i64, bxmin: i64, bxmax: i64, bymin: i64, bymax: i64) -> (pts: Vec<(usize, usize)>)
    requires
        2048 <= bxmin,
        bxmin + 104858 <= bxmax <= 0x200000000,
        0 <= bymin,
        bymin + 104858 <= bymax <= 0x10000000000,
        0x100000 <= a <= 300 * 0x100000,
        1 <= z_big <= 300,
    ensures
        pts@ == spec_bethe_pts(a as int, z_big as int, bxmin as int, bxmax as int, bymin as int, bymax as int),
        pts@.len() == 451,
        forall|i: int|
            0 <= i < 451 ==> 80 <= (#[trigger] pts@[i]).0 <= 528 && 46 <= pts@[i].1 <= 394,
{
    let s = sample_bethe_series(bxmin, bxmax, SAMPLE_COUNT, a, z_big, z, t_max, delta);
    let mut pts: Vec<(usize, usize)> = Vec::new();
    let mut i: usize = 0;
    let ghost spts = spec_bethe_pts(a as int, z_big as int, bxmin as int, bxmax as int, bymin as int, bymax as int);
    while i < 451
        invariant
            s@.len() == 451,
            1 <= bxmin < bxmax <= 0x10000000000,
            -0x10000000000 <= bymin < bymax <= 0x10000000000,
            spts == spec_bethe_pts(a as int, z_big as int, bxmin as int, bxmax as int, bymin as int, bymax as int),
            forall|j: int|
                0 <= j < 451 ==> #[trigger] s@[j].0 == spec_sample_x(
                    bxmin as int,
                    bxmax as int,
                    450,
                    j,
                ),
            forall|j: int|
                0 <= j < 451 ==> #[trigger] s@[j].1 == spec_stopping_power(
                    a as int,
                    z_big as int,
                    s@[j].0 as int,
                ),
            i <= 451,
            pts@.len() == i,
            forall|j: int| 0 <= j < i ==> #[trigger] pts@[j] == spts[j],
            forall|j: int|
                0 <= j < i ==> 80 <= (#[trigger] pts@[j]).0 <= 528 && 46 <= pts@[j].1 <= 394,
        decreases 451 - i,
    {
        let p = s[i];
        let px: usize = 80 + log_offset(p.0, bxmin, bxmax, 448);
        let py: usize = 394 - lin_offset(p.1, bymin, bymax, 348);
        pts.push((px, py));
        i = i + 1;
    }
    proof {
        assert(pts@ =~= spts);
    }
    pts
}

/// Render the stopping-power chart: the Bethe-Bloch curve over a
/// logarithmic momentum axis, with gridlines, axis frame and the secondary
/// muon kinetic-energy tick strip below the plot area.
pub fn render_bethe(cfg: &ChartConfig) -> (r: Raster)
    requires
        cfg.wf(),
    ensures
        r.wf(),
        r.width == 550,
        r.height == 500,
        r.data@ == spec_render_bethe(*cfg),
{
    let mut r = Raster::new_filled(550, 500, (40, 40, 40));
    let pts = build_bethe_pts(
        cfg.a,
        cfg.z_big,
        cfg.z,
        cfg.t_max,
        cfg.delta,
        cfg.bethe_x.min,
        cfg.bethe_x.max,
        cfg.bethe_y.min,
        cfg.bethe_y.max,
    );
    r.draw_polyline(&pts, (255, 0, 0));
    draw_vgrid(&mut r, 80, 44, 46, 394, (255, 255, 255), 9);
    draw_hgrid(&mut r, 46, 34, 80, 528, (255, 255, 255), 9);
    r.draw_vline(80, 46, 394, (255, 255, 255));
    r.draw_hline(394, 80, 528, (255, 255, 255));
    r.draw_hline(435, 80, 528, (255, 255, 255));
    // secondary axis: muon kinetic-energy scale, log-transformed
    let el = e_kin(cfg.bethe_x.min, 107164400);
    let eh = e_kin(cfg.bethe_x.max, 107164400);
    let lo_raw: i64 = ((el as u64) / 1000) as i64;
    let lo: i64 = if lo_raw < 1 {
        1
    } else {
        lo_raw
    };
    let hi_raw: i64 = ((eh as u64) / 1000) as i64;
    let hi: i64 = if hi_raw < lo + 1 {
        lo + 1
    } else {
        hi_raw
    };
    proof {
        lemma_div_is_ordered(el as int, 0x400000000000, 1000);
        lemma_div_is_ordered(eh as int, 0x400000000000, 1000);
        lemma_div_pos_is_pos(el as int, 1000);
        lemma_div_pos_is_pos(eh as int, 1000);
        assert(lo == spec_sec_lo(cfg.bethe_x.min as int));
        assert(hi == spec_sec_hi(cfg.bethe_x.min as int, cfg.bethe_x.max as int));
        assert(1 <= lo < hi <= 0x10000000000);
    }
    let ghost d6 = r.data@;
    let mut j: u32 = 0;
    while j < 48
        invariant
            r.wf(),
            r.width == 550,
            r.height == 500,
            1 <= lo < hi <= 0x10000000000,
            j <= 48,
            r.data@ == spec_sec_ticks(d6, lo as int, hi as int, j as nat),
        decreases 48 - j,
    {
        let vp = crate::fixed::pow2_u128(j);
        proof {
            vstd::arithmetic::power2::lemma_pow2_strictly_increases(j as nat, 48);
            vstd::arithmetic::power2::lemma2_to64_rest();
        }
        let v: i64 = vp as i64;
        if lo <= v && v <= hi {
            let px = 80 + log_offset(v, lo, hi, 448);
            r.draw_vline(px, 435, 444, (255, 255, 255));
        }
        j = j + 1;
    }
    r
}

/// Error of a render pass whose configuration violates a domain
/// requirement (an inverted axis or a non-positive logarithmic bound).
#[derive(Clone, Copy, Debug, PartialEq, Eq, Structural)]
pub enum RenderError {
    InvalidDomain,
}

/// Executable check of the configuration invariant.
pub fn config_is_valid(cfg: &ChartConfig) -> (b: bool)
    ensures
        b == cfg.wf(),
{
    0x100000 <= cfg.a && cfg.a <= 300 * 0x100000 && 1 <= cfg.z_big && cfg.z_big <= 300 && 2048
        <= cfg.bethe_x.min && cfg.bethe_x.min <= 0x200000000 && cfg.bethe_x.min + 104858
        <= cfg.bethe_x.max && cfg.bethe_x.max <= 0x200000000 && 0 <= cfg.bethe_y.min
        && cfg.bethe_y.min <= 0x10000000000 && cfg.bethe_y.min + 104858 <= cfg.bethe_y.max
        && cfg.bethe_y.max <= 0x10000000000 && 0 <= cfg.energy_x.min && cfg.energy_x.min
        <= 0x200000000 && cfg.energy_x.min + 10486 <= cfg.energy_x.max && cfg.energy_x.max
        <= 0x200000000 && 0 <= cfg.energy_y.min && cfg.energy_y.min <= 0x10000000000
        && cfg.energy_y.min + 10486 <= cfg.energy_y.max && cfg.energy_y.max <= 0x10000000000
}

/// Render the stopping-power chart only if the configuration is valid; an
/// invalid one is a fatal error for this pass and yields no buffer at all,
/// never a partially drawn one.
pub fn render_bethe_checked(cfg: &ChartConfig) -> (res: Result<Raster, RenderError>)
    ensures
        (res is Ok) <==> cfg.wf(),
        (res matches Ok(r) ==> r.wf() && r.width == 550 && r.height == 500 && r.data@
            == spec_render_bethe(*cfg)),
        (res is Err) ==> (res matches Err(e) && e == RenderError::InvalidDomain),
{
    if config_is_valid(cfg) {
        Ok(render_bethe(cfg))
    } else {
        Err(RenderError::InvalidDomain)
    }
}

/// Render the energy chart only if the configuration is valid.
pub fn render_energy_checked(cfg: &ChartConfig) -> (res: Result<Raster, RenderError>)
    ensures
        (res is Ok) <==> cfg.wf(),
        (res matches Ok(r) ==> r.wf() && r.width == 550 && r.height == 500 && r.data@
            == spec_render_energy(*cfg)),
        (res is Err) ==> (res matches Err(e) && e == RenderError::InvalidDomain),
{
    if config_is_valid(cfg) {
        Ok(render_energy(cfg))
    } else {
        Err(RenderError::InvalidDomain)
    }
}

/// Law: a render pass is idempotent — two renders from one configuration
/// produce byte-identical buffers, because each buffer is pinned to one
/// spec-level function of the configuration.
pub proof fn lemma_render_idempotent(cfg: ChartConfig, b1: Seq<u8>, b2: Seq<u8>, e1: Seq<u8>, e2: Seq<u8>)
    requires
        b1 == spec_render_bethe(cfg),
        b2 == spec_render_bethe(cfg),
        e1 == spec_render_energy(cfg),
        e2 == spec_render_energy(cfg),
    ensures
        b1 == b2,
        e1 == e2,
{
}

/// Law: the energy chart depends on its own axis bounds alone — editing
/// any stopping-power parameter or axis leaves its buffer unchanged.
pub proof fn lemma_energy_render_ignores_bethe_params(c1: ChartConfig, c2: ChartConfig)
    requires
        c1.energy_x == c2.energy_x,
        c1.energy_y == c2.energy_y,
    ensures
        spec_render_energy(c1) == spec_render_energy(c2),
{
}

/// Law: the stopping-power chart depends on the material parameters and
/// its own axis bounds alone — editing an energy-chart axis leaves its
/// buffer unchanged.
pub proof fn lemma_bethe_render_ignores_energy_axes(c1: ChartConfig, c2: ChartConfig)
    requires
        c1.a == c2.a,
        c1.z_big == c2.z_big,
        c1.bethe_x == c2.bethe_x,
        c1.bethe_y == c2.bethe_y,
    ensures
        spec_render_bethe(c1) == spec_render_bethe(c2),
{
}

} // verus!
