//! Texture publisher: turns a finished raster into per-pixel color values
//! and replaces the contents of a previously allocated texture slot.
//!
//! A `TextureId` is allocated exactly once per chart, before any render, and
//! is reused for every re-render: publishing replaces a slot's pixels in
//! place and provably leaves every other slot untouched, so the display
//! layer's references stay valid across updates.
use vstd::prelude::*;
use crate::raster::Raster;

verus! {

/// A stable, opaque handle to one texture slot.
#[derive(Clone, Copy)]
pub struct TextureId {
    pub idx: usize,
}

/// The per-pixel color sequence of a flat RGB byte buffer.
pub open spec fn spec_pixels_of(d: Seq<u8>) -> Seq<(u8, u8, u8)> {
    Seq::new((d.len() / 3) as nat, |i: int| (d[3 * i], d[3 * i + 1], d[3 * i + 2]))
}

/// The store of display textures, indexed by `TextureId`.
pub struct TextureStore {
    pub slots: Vec<Vec<(u8, u8, u8)>>,
}

impl TextureStore {
    /// An empty store.
    pub fn new() -> (s: TextureStore)
        ensures
            s.slots@.len() == 0,
    {
        TextureStore { slots: Vec::new() }
    }

    /// Allocate a fresh texture slot and hand back its stable handle.
    pub fn alloc_user_texture(&mut self) -> (id: TextureId)
        ensures
            id.idx == old(self).slots@.len(),
            final(self).slots@.len() == old(self).slots@.len() + 1,
            forall|j: int|
                0 <= j < old(self).slots@.len() ==> final(self).slots@[j] == old(self).slots@[j],
            final(self).slots@[id.idx as int]@.len() == 0,
    {
        let idx = self.slots.len();
        self.slots.push(Vec::new());
        TextureId { idx }
    }

    /// Replace the pixel contents of slot `id` with the raster's pixels.
    /// Every other slot is left untouched.
    pub fn publish(&mut self, id: TextureId, r: &Raster)
        requires
            id.idx < old(self).slots@.len(),
            r.wf(),
        ensures
            final(self).slots@.len() == old(self).slots@.len(),
            final(self).slots@[id.idx as int]@ == spec_pixels_of(r.data@),
            forall|j: int|
                0 <= j < old(self).slots@.len() && j != id.idx ==> final(self).slots@[j] == old(
                    self,
                ).slots@[j],
    {
        let mut tex: Vec<(u8, u8, u8)> = Vec::new();
        let n = r.data.len() / 3;
        let mut i: usize = 0;
        proof {
            assert(r.data@.len() == 3 * (r.width as int) * (r.height as int));
            let wi = r.width as int;
            let hi = r.height as int;
            assert(3 * wi * hi == 3 * (wi * hi)) by (nonlinear_arith);
            assert(wi * hi <= 4096 * 4096) by (nonlinear_arith)
                requires
                    1 <= wi <= 4096,
                    1 <= hi <= 4096,
            ;
            vstd::arithmetic::div_mod::lemma_div_multiples_vanish(
                (r.width as int) * (r.height as int),
                3,
            );
        }
        while i < n
            invariant
                n == r.data@.len() / 3,
                3 * n == r.data@.len(),
                n <= 0x1000000,
                i <= n,
                tex@.len() == i,
                forall|j: int| 0 <= j < i ==> tex@[j] == spec_pixels_of(r.data@)[j],
            decreases n - i,
        {
            let p = (r.data[3 * i], r.data[3 * i + 1], r.data[3 * i + 2]);
            tex.push(p);
            i = i + 1;
        }
        proof {
            assert(tex@ =~= spec_pixels_of(r.data@));
        }
        self.slots.set(id.idx, tex);
    }
}

} // verus!
