//! Procedural planet terrain.
//!
//! A 32-bit seed is expanded into one sub-seed per noise channel; lattice value noise and its
//! fractal sums give an elevation and a moisture for every direction on the unit sphere; a
//! biome cascade colours each point; and a latitude/longitude grid with a duplicated seam
//! column turns the samples into a vertex array (sphere position, normal, colour, flat-map
//! position) and a triangle list.
//!
//! All arithmetic is fixed point with 16 fractional bits (`fixed::ONE` is one), so that every
//! result is exact, reproducible across machines, and stated in the contracts down to the bit.
//!
//! Modules, leaves first: `fixed` (arithmetic, vectors, square root, sine), `noise` (hash,
//! value noise, fbm, ridged fbm, domain warp), `settings` (biome thresholds and their
//! validation), `height` (elevation and moisture), `biome` (classification and colour),
//! `mesh` (grid, normals, indices), `terrain` (the owned mesh and its regeneration), `water`
//! (the sea-level sphere), `morph` (globe / flat map blend) and `input` (keyboard state).
use vstd::prelude::*;

pub mod fixed;
pub mod noise;
pub mod settings;
pub mod height;
pub mod biome;
pub mod mesh;
pub mod terrain;
pub mod morph;
pub mod water;
pub mod input;

verus! {

} // verus!
