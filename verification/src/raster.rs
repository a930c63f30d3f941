//! Chart rasterizer primitives: an RGB pixel buffer and exactly-specified
//! drawing operations on it.
//!
//! The buffer is a flat byte array of `width * height * 3` (8-bit RGB,
//! origin top-left), fully overwritten on each render and never partially
//! patched.  Every drawing operation's contract gives the new byte sequence
//! as a function of the old one, so a whole render pass is pinned down as a
//! deterministic function of its inputs.
use vstd::prelude::*;
use crate::fixed::fdiv_i128;
use vstd::arithmetic::div_mod::{
    lemma_div_is_ordered,
    lemma_div_multiples_vanish,
    lemma_div_of0,
    lemma_div_pos_is_pos,
    lemma_mod_multiples_vanish,
};

verus! {

/// An RGB raster of fixed dimensions.
pub struct Raster {
    pub width: usize,
    pub height: usize,
    pub data: Vec<u8>,
}

/// Byte index of the first channel of pixel `(x, y)` in a raster of width `w`.
pub open spec fn spec_pix_base(w: int, x: int, y: int) -> int {
    3 * (y * w + x)
}

/// The byte sequence after overwriting pixel `(x, y)` with color `c`.
pub open spec fn spec_set_pixel(d: Seq<u8>, w: int, x: int, y: int, c: (u8, u8, u8)) -> Seq<u8> {
    let base = spec_pix_base(w, x, y);
    d.update(base, c.0).update(base + 1, c.1).update(base + 2, c.2)
}

/// The byte sequence after stamping a 2x2 block (stroke width two) at
/// `(x, y)`.
pub open spec fn spec_draw_block(d: Seq<u8>, w: int, x: int, y: int, c: (u8, u8, u8)) -> Seq<u8> {
    spec_set_pixel(
        spec_set_pixel(
            spec_set_pixel(spec_set_pixel(d, w, x, y, c), w, x + 1, y, c),
            w,
            x,
            y + 1,
            c,
        ),
        w,
        x + 1,
        y + 1,
        c,
    )
}

/// Channel value of a uniform fill at byte offset `i`.
pub open spec fn spec_fill_channel(c: (u8, u8, u8), i: int) -> u8 {
    if i % 3 == 0 {
        c.0
    } else if i % 3 == 1 {
        c.1
    } else {
        c.2
    }
}

/// The byte sequence of a `w` by `h` raster uniformly filled with `c`.
pub open spec fn spec_filled(w: int, h: int, c: (u8, u8, u8)) -> Seq<u8> {
    Seq::new((3 * w * h) as nat, |i: int| spec_fill_channel(c, i))
}

/// Number of interpolation steps for a segment: the larger coordinate span,
/// and at least one.
pub open spec fn spec_seg_steps(x0: int, y0: int, x1: int, y1: int) -> int {
    let dx = if x1 >= x0 {
        x1 - x0
    } else {
        x0 - x1
    };
    let dy = if y1 >= y0 {
        y1 - y0
    } else {
        y0 - y1
    };
    let m = if dx >= dy {
        dx
    } else {
        dy
    };
    if m == 0 {
        1
    } else {
        m
    }
}

/// Coordinate interpolated `t` of `steps` of the way from `a0` to `a1`
/// (flooring division).
pub open spec fn spec_interp(a0: int, a1: int, steps: int, t: int) -> int {
    a0 + (a1 - a0) * t / steps
}

/// The byte sequence after stamping blocks at interpolation steps
/// `0, ..., t` of the segment from `(x0, y0)` to `(x1, y1)`.
pub open spec fn spec_seg_prefix(
    d: Seq<u8>,
    w: int,
    x0: int,
    y0: int,
    x1: int,
    y1: int,
    c: (u8, u8, u8),
    t: nat,
) -> Seq<u8>
    decreases t,
{
    let steps = spec_seg_steps(x0, y0, x1, y1);
    let px = spec_interp(x0, x1, steps, t as int);
    let py = spec_interp(y0, y1, steps, t as int);
    if t == 0 {
        spec_draw_block(d, w, px, py, c)
    } else {
        spec_draw_block(spec_seg_prefix(d, w, x0, y0, x1, y1, c, (t - 1) as nat), w, px, py, c)
    }
}

/// The byte sequence after stroking the whole segment (all steps).
pub open spec fn spec_draw_segment(
    d: Seq<u8>,
    w: int,
    x0: int,
    y0: int,
    x1: int,
    y1: int,
    c: (u8, u8, u8),
) -> Seq<u8> {
    spec_seg_prefix(d, w, x0, y0, x1, y1, c, spec_seg_steps(x0, y0, x1, y1) as nat)
}

/// The byte sequence after stroking the first `k` segments of a polyline.
pub open spec fn spec_polyline_prefix(
    d: Seq<u8>,
    w: int,
    pts: Seq<(usize, usize)>,
    c: (u8, u8, u8),
    k: nat,
) -> Seq<u8>
    decreases k,
{
    if k == 0 {
        d
    } else {
        spec_draw_segment(
            spec_polyline_prefix(d, w, pts, c, (k - 1) as nat),
            w,
            pts[k - 1].0 as int,
            pts[k - 1].1 as int,
            pts[k as int].0 as int,
            pts[k as int].1 as int,
            c,
        )
    }
}

/// The byte sequence after stroking a whole polyline through `pts`.
pub open spec fn spec_polyline(d: Seq<u8>, w: int, pts: Seq<(usize, usize)>, c: (u8, u8, u8)) -> Seq<u8> {
    spec_polyline_prefix(d, w, pts, c, (pts.len() - 1) as nat)
}

/// The byte sequence after painting the `k` single pixels
/// `(x0, y), ..., (x0 + k - 1, y)` of a horizontal line.
pub open spec fn spec_hline_prefix(d: Seq<u8>, w: int, y: int, x0: int, c: (u8, u8, u8), k: nat) -> Seq<u8>
    decreases k,
{
    if k == 0 {
        d
    } else {
        spec_set_pixel(spec_hline_prefix(d, w, y, x0, c, (k - 1) as nat), w, x0 + k - 1, y, c)
    }
}

/// The byte sequence after painting the `k` single pixels
/// `(x, y0), ..., (x, y0 + k - 1)` of a vertical line.
pub open spec fn spec_vline_prefix(d: Seq<u8>, w: int, x: int, y0: int, c: (u8, u8, u8), k: nat) -> Seq<u8>
    decreases k,
{
    if k == 0 {
        d
    } else {
        spec_set_pixel(spec_vline_prefix(d, w, x, y0, c, (k - 1) as nat), w, x, y0 + k - 1, c)
    }
}

/// Interpolation stays within the segment's bounding interval.
pub proof fn lemma_interp_range(a0: int, a1: int, steps: int, t: int)
    requires
        steps >= 1,
        0 <= t <= steps,
    ensures
        a0 <= a1 ==> a0 <= spec_interp(a0, a1, steps, t) <= a1,
        a1 < a0 ==> a1 <= spec_interp(a0, a1, steps, t) <= a0,
{
    let d = a1 - a0;
    lemma_div_of0(steps);
    if d >= 0 {
        assert(0 <= d * t <= d * steps) by (nonlinear_arith)
            requires
                d >= 0,
                0 <= t <= steps,
        ;
        lemma_div_pos_is_pos(d * t, steps);
        lemma_div_is_ordered(d * t, d * steps, steps);
        lemma_div_multiples_vanish(d, steps);
        assert(d * steps == steps * d) by (nonlinear_arith);
    } else {
        assert(d * steps <= d * t <= 0) by (nonlinear_arith)
            requires
                d < 0,
                0 <= t <= steps,
        ;
        lemma_div_is_ordered(d * steps, d * t, steps);
        lemma_div_is_ordered(d * t, 0, steps);
        lemma_div_multiples_vanish(d, steps);
        assert(d * steps == steps * d) by (nonlinear_arith);
    }
}

impl Raster {
    /// Structural well-formedness: the byte buffer length matches the
    /// dimensions and the dimensions are drawable.
    pub open spec fn wf(self) -> bool {
        &&& self.data@.len() == 3 * self.width * self.height
        &&& 1 <= self.width <= 4096
        &&& 1 <= self.height <= 4096
    }

    /// Allocate a raster and clear every pixel to the background color `c`.
    pub fn new_filled(width: usize, height: usize, c: (u8, u8, u8)) -> (r: Raster)
        requires
            1 <= width <= 4096,
            1 <= height <= 4096,
        ensures
            r.wf(),
            r.width == width,
            r.height == height,
            r.data@ == spec_filled(width as int, height as int, c),
    {
        let mut data: Vec<u8> = Vec::new();
        let mut p: usize = 0;
        proof {
            assert(width * height <= 4096 * 4096) by (nonlinear_arith)
                requires
                    width <= 4096,
                    height <= 4096,
            ;
        }
        let total: usize = width * height;
        while p < total
            invariant
                p <= total,
                total == width * height,
                total <= 4096 * 4096,
                data@.len() == 3 * p,
                forall|i: int| 0 <= i < 3 * p ==> data@[i] == spec_fill_channel(c, i),
            decreases total - p,
        {
            proof {
                let base = 3 * (p as int);
                lemma_mod_multiples_vanish(p as int, 0, 3);
                lemma_mod_multiples_vanish(p as int, 1, 3);
                lemma_mod_multiples_vanish(p as int, 2, 3);
                assert(base % 3 == 0 && (base + 1) % 3 == 1 && (base + 2) % 3 == 2);
            }
            data.push(c.0);
            data.push(c.1);
            data.push(c.2);
            p = p + 1;
        }
        proof {
            assert(3 * ((width as int) * (height as int)) == 3 * (width as int) * (height as int))
                by (nonlinear_arith);
            assert(data@ =~= spec_filled(width as int, height as int, c));
        }
        Raster { width, height, data }
    }

    /// Overwrite one pixel.
    pub fn set_pixel(&mut self, x: usize, y: usize, c: (u8, u8, u8))
        requires
            old(self).wf(),
            x < old(self).width,
            y < old(self).height,
        ensures
            final(self).wf(),
            final(self).width == old(self).width,
            final(self).height == old(self).height,
            final(self).data@ == spec_set_pixel(
                old(self).data@,
                old(self).width as int,
                x as int,
                y as int,
                c,
            ),
    {
        let w = self.width;
        let h = self.height;
        proof {
            assert((y as int) * (w as int) + x < (w as int) * (h as int)) by (nonlinear_arith)
                requires
                    x < w,
                    y < h,
            ;
            assert((w as int) * (h as int) <= 4096 * 4096) by (nonlinear_arith)
                requires
                    w <= 4096,
                    h <= 4096,
            ;
            assert(3 * ((w as int) * (h as int)) == 3 * (w as int) * (h as int))
                by (nonlinear_arith);
        }
        let base: usize = 3 * (y * w + x);
        self.data.set(base, c.0);
        self.data.set(base + 1, c.1);
        self.data.set(base + 2, c.2);
    }

    /// Stamp a 2x2 block (stroke width two) whose top-left pixel is `(x, y)`.
    pub fn draw_block(&mut self, x: usize, y: usize, c: (u8, u8, u8))
        requires
            old(self).wf(),
            x + 1 < old(self).width,
            y + 1 < old(self).height,
        ensures
            final(self).wf(),
            final(self).width == old(self).width,
            final(self).height == old(self).height,
            final(self).data@ == spec_draw_block(
                old(self).data@,
                old(self).width as int,
                x as int,
                y as int,
                c,
            ),
    {
        self.set_pixel(x, y, c);
        self.set_pixel(x + 1, y, c);
        self.set_pixel(x, y + 1, c);
        self.set_pixel(x + 1, y + 1, c);
    }

    /// Stroke a width-two segment from `(x0, y0)` to `(x1, y1)` by stamping
    /// a block at every interpolation step along the longer axis.
    pub fn draw_segment(&mut self, x0: usize, y0: usize, x1: usize, y1: usize, c: (u8, u8, u8))
        requires
            old(self).wf(),
            x0 + 1 < old(self).width,
            x1 + 1 < old(self).width,
            y0 + 1 < old(self).height,
            y1 + 1 < old(self).height,
        ensures
            final(self).wf(),
            final(self).width == old(self).width,
            final(self).height == old(self).height,
            final(self).data@ == spec_draw_segment(
                old(self).data@,
                old(self).width as int,
                x0 as int,
                y0 as int,
                x1 as int,
                y1 as int,
                c,
            ),
    {
        let dx: usize = if x1 >= x0 {
            x1 - x0
        } else {
            x0 - x1
        };
        let dy: usize = if y1 >= y0 {
            y1 - y0
        } else {
            y0 - y1
        };
        let m: usize = if dx >= dy {
            dx
        } else {
            dy
        };
        let steps: usize = if m == 0 {
            1
        } else {
            m
        };
        assert(steps == spec_seg_steps(x0 as int, y0 as int, x1 as int, y1 as int));
        let ghost d0 = self.data@;
        let mut t: usize = 0;
        while t <= steps
            invariant
                self.wf(),
                self.width == old(self).width,
                self.height == old(self).height,
                x0 + 1 < self.width,
                x1 + 1 < self.width,
                y0 + 1 < self.height,
                y1 + 1 < self.height,
                steps == spec_seg_steps(x0 as int, y0 as int, x1 as int, y1 as int),
                1 <= steps <= 4096,
                t <= steps + 1,
                t == 0 ==> self.data@ == d0,
                t >= 1 ==> self.data@ == spec_seg_prefix(
                    d0,
                    self.width as int,
                    x0 as int,
                    y0 as int,
                    x1 as int,
                    y1 as int,
                    c,
                    (t - 1) as nat,
                ),
            decreases steps + 1 - t,
        {
            proof {
                lemma_interp_range(x0 as int, x1 as int, steps as int, t as int);
                lemma_interp_range(y0 as int, y1 as int, steps as int, t as int);
                let dxi = (x1 as int) - (x0 as int);
                let dyi = (y1 as int) - (y0 as int);
                assert(-0x2000000 <= dxi * t <= 0x2000000 && -0x2000000 <= dyi * t <= 0x2000000)
                    by (nonlinear_arith)
                    requires
                        -4096 <= dxi <= 4096,
                        -4096 <= dyi <= 4096,
                        0 <= t <= 4096,
                ;
            }
            let px_i = fdiv_i128(
                ((x1 as i128) - (x0 as i128)) * (t as i128),
                steps as i128,
            );
            let py_i = fdiv_i128(
                ((y1 as i128) - (y0 as i128)) * (t as i128),
                steps as i128,
            );
            let px: usize = ((x0 as i128) + px_i) as usize;
            let py: usize = ((y0 as i128) + py_i) as usize;
            self.draw_block(px, py, c);
            t = t + 1;
        }
    }

    /// Stroke a connected polyline through `pts`, one segment per
    /// consecutive pair.
    pub fn draw_polyline(&mut self, pts: &Vec<(usize, usize)>, c: (u8, u8, u8))
        requires
            old(self).wf(),
            pts@.len() >= 2,
            forall|i: int|
                0 <= i < pts@.len() ==> (#[trigger] pts@[i]).0 + 1 < old(self).width && pts@[i].1
                    + 1 < old(self).height,
        ensures
            final(self).wf(),
            final(self).width == old(self).width,
            final(self).height == old(self).height,
            final(self).data@ == spec_polyline(old(self).data@, old(self).width as int, pts@, c),
    {
        let ghost d0 = self.data@;
        let mut i: usize = 1;
        while i < pts.len()
            invariant
                self.wf(),
                self.width == old(self).width,
                self.height == old(self).height,
                pts@.len() >= 2,
                1 <= i <= pts@.len(),
                forall|j: int|
                    0 <= j < pts@.len() ==> (#[trigger] pts@[j]).0 + 1 < self.width && pts@[j].1
                        + 1 < self.height,
                self.data@ == spec_polyline_prefix(d0, self.width as int, pts@, c, (i - 1) as nat),
            decreases pts@.len() - i,
        {
            let p = pts[i - 1];
            let q = pts[i];
            self.draw_segment(p.0, p.1, q.0, q.1, c);
            i = i + 1;
        }
    }

    /// Paint a single-pixel horizontal line from `(x0, y)` to `(x1, y)`
    /// inclusive.
    pub fn draw_hline(&mut self, y: usize, x0: usize, x1: usize, c: (u8, u8, u8))
        requires
            old(self).wf(),
            x0 <= x1 < old(self).width,
            y < old(self).height,
        ensures
            final(self).wf(),
            final(self).width == old(self).width,
            final(self).height == old(self).height,
            final(self).data@ == spec_hline_prefix(
                old(self).data@,
                old(self).width as int,
                y as int,
                x0 as int,
                c,
                (x1 - x0 + 1) as nat,
            ),
    {
        let ghost d0 = self.data@;
        let mut k: usize = 0;
        while k <= x1 - x0
            invariant
                self.wf(),
                self.width == old(self).width,
                self.height == old(self).height,
                x0 <= x1 < self.width,
                y < self.height,
                k <= x1 - x0 + 1,
                self.data@ == spec_hline_prefix(
                    d0,
                    self.width as int,
                    y as int,
                    x0 as int,
                    c,
                    k as nat,
                ),
            decreases x1 - x0 + 1 - k,
        {
            self.set_pixel(x0 + k, y, c);
            k = k + 1;
        }
    }

    /// Paint a single-pixel vertical line from `(x, y0)` to `(x, y1)`
    /// inclusive.
    pub fn draw_vline(&mut self, x: usize, y0: usize, y1: usize, c: (u8, u8, u8))
        requires
            old(self).wf(),
            y0 <= y1 < old(self).height,
            x < old(self).width,
        ensures
            final(self).wf(),
            final(self).width == old(self).width,
            final(self).height == old(self).height,
            final(self).data@ == spec_vline_prefix(
                old(self).data@,
                old(self).width as int,
                x as int,
                y0 as int,
                c,
                (y1 - y0 + 1) as nat,
            ),
    {
        let ghost d0 = self.data@;
        let mut k: usize = 0;
        while k <= y1 - y0
            invariant
                self.wf(),
                self.width == old(self).width,
                self.height == old(self).height,
                y0 <= y1 < self.height,
                x < self.width,
                k <= y1 - y0 + 1,
                self.data@ == spec_vline_prefix(
                    d0,
                    self.width as int,
                    x as int,
                    y0 as int,
                    c,
                    k as nat,
                ),
            decreases y1 - y0 + 1 - k,
        {
            self.set_pixel(x, y0 + k, c);
            k = k + 1;
        }
    }
}

} // verus!
