//! Voxel-grid global-illumination core of a real-time renderer.
//!
//! The library converts a submitted triangle-mesh scene into a dense cubic
//! voxel grid (albedo, normal, emission), injects direct lighting into that
//! grid as a per-voxel radiance seed, derives a box-filtered mip pyramid of
//! the radiance field, and exposes the result for sampling during final
//! shading.  All world-space quantities are fixed-point integers
//! ([`math::FP_ONE`] units per world unit); every stage is specified and
//! verified over that model.  Windowing, GPU command submission, asset import
//! and UI are outside this core and live with the embedding application.

pub mod color;
pub mod gpu_model;
pub mod laws;
pub mod material;
pub mod math;
pub mod model;
pub mod renderer;
pub mod renderer_utils;
pub mod volume;
pub mod voxelizer;
