//! Recompute orchestrator: owns the configuration and the two texture
//! slots, and re-renders on parameter change.
//!
//! On every input-handling cycle the caller reports whether any tracked
//! parameter changed (the logical OR of all per-widget change flags).  If
//! nothing changed the published textures are provably left untouched; if
//! anything changed, both charts are resampled, rasterized and republished
//! unconditionally under the handles allocated at startup.
use vstd::prelude::*;
use crate::chart::{render_bethe, render_energy, spec_render_bethe, spec_render_energy};
use crate::config::ChartConfig;
use crate::texture::{spec_pixels_of, TextureId, TextureStore};

verus! {

/// The orchestrator: configuration, texture store, and the two handles
/// allocated once at startup and reused for every re-render.
pub struct App {
    pub config: ChartConfig,
    pub store: TextureStore,
    pub bethe_tex: TextureId,
    pub energy_tex: TextureId,
}

impl App {
    /// Structural invariant: a valid configuration and two distinct,
    /// in-range texture handles.
    pub open spec fn wf(self) -> bool {
        &&& self.config.wf()
        &&& self.store.slots@.len() == 2
        &&& self.bethe_tex.idx == 0
        &&& self.energy_tex.idx == 1
    }

    /// Both texture slots hold exactly the published pixels of the current
    /// configuration's two render passes.
    pub open spec fn published(self) -> bool {
        &&& self.store.slots@[0]@ == spec_pixels_of(spec_render_bethe(self.config))
        &&& self.store.slots@[1]@ == spec_pixels_of(spec_render_energy(self.config))
    }

    /// Start the application model: allocate the two texture handles once,
    /// then render and publish both charts for the startup configuration.
    pub fn startup() -> (app: App)
        ensures
            app.wf(),
            app.published(),
    {
        let config = ChartConfig::startup();
        let mut store = TextureStore::new();
        let bethe_tex = store.alloc_user_texture();
        let energy_tex = store.alloc_user_texture();
        let bethe = render_bethe(&config);
        store.publish(bethe_tex, &bethe);
        let energy = render_energy(&config);
        store.publish(energy_tex, &energy);
        App { config, store, bethe_tex, energy_tex }
    }

    /// One input-handling cycle.  `changed` is the OR of all widget change
    /// flags; `new_config` is the configuration after the cycle's edits
    /// (already clamped by the `ChartConfig` setters).  An unchanged cycle
    /// leaves the whole state, textures included, untouched; a changed one
    /// re-renders and republishes both charts under their stable handles.
    pub fn on_cycle(&mut self, new_config: ChartConfig, changed: bool)
        requires
            old(self).wf(),
            new_config.wf(),
            changed == false ==> new_config == old(self).config,
        ensures
            final(self).wf(),
            final(self).bethe_tex == old(self).bethe_tex,
            final(self).energy_tex == old(self).energy_tex,
            !changed ==> *final(self) == *old(self),
            changed ==> final(self).config == new_config && final(self).published(),
    {
        if changed {
            self.config = new_config;
            let bethe = render_bethe(&self.config);
            self.store.publish(self.bethe_tex, &bethe);
            let energy = render_energy(&self.config);
            self.store.publish(self.energy_tex, &energy);
        }
    }

    /// Law: an orchestrator that has published stays published after any
    /// cycle — stale textures are only ever replaced by freshly rendered
    /// ones, and an unchanged cycle keeps the previous (still valid)
    /// buffers on display.
    pub proof fn lemma_cycle_keeps_published(pre: App, post: App, new_config: ChartConfig, changed: bool)
        requires
            pre.wf(),
            pre.published(),
            !changed ==> post == pre,
            changed ==> post.config == new_config && post.published(),
        ensures
            post.published(),
    {
    }
}

} // verus!
