//! Discrete core of a Whitted-style ray tracer.
//!
//! The numeric kernels of a renderer (intersection roots, shading, transforms)
//! live with the host program; this crate verifies everything about the render
//! that is exact rather than approximate: the pixel grid and its serialization
//! to plain-text PPM, the ordering and selection of intersections along a ray,
//! the refractive-index stack that tracks nested transparent media, and the
//! parity rules of the procedural surface patterns.
//!
//! Quantities that the host measures along a ray are carried here as `u64`
//! order keys: the host encodes each distance so that the encoding preserves
//! the order of the distances, keys at or above [`intersection::T_ZERO`]
//! stand for distances that are zero or greater, and [`intersection::T_NAN`]
//! stands for an undefined distance, which sorts after every defined one.

pub mod canvas;
pub mod intersection;
pub mod matrix;
pub mod pattern;
pub mod refraction;
pub mod shapes;
