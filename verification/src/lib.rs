//! Core of a fractal-noise vector drawing surface.
//!
//! Drawn primitives are straight segments perturbed by a deterministic,
//! seedable fractal-noise field. The crate holds the procedural noise and
//! geometry engine, the scene model with its incremental diff engine, the
//! selection hit-tester, the drawing tools, and the editing session that
//! ties them together. All coordinates are fixed-point values, so every
//! computation is exact and deterministic; a host shell converts to and
//! from its own floating-point coordinates at the boundary and does the
//! actual rasterization.

pub mod diff;
pub mod fixed;
pub mod fractal_line;
pub mod geometry;
pub mod hit_test;
pub mod noise;
pub mod render_object;
pub mod rng;
pub mod scene;
pub mod session;
pub mod tools;
