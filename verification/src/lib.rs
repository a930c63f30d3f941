//! Verified core of a particle-physics chart renderer.
//!
//! The crate computes two families of curves — the Bethe-Bloch stopping-power
//! curve and kinetic-energy-vs-momentum curves for six particle species — and
//! rasterizes them into RGB pixel buffers that a display shell can upload as
//! textures.  All numeric work is done in fixed-point arithmetic (20
//! fractional bits) so that every stage, from the physics formulas through the
//! pixel-level rasterizer, carries a machine-checked contract.
pub mod fixed;
pub mod physics;
pub mod sampler;
pub mod raster;
pub mod config;
pub mod texture;
pub mod chart;
pub mod orchestrator;
