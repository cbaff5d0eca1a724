//! A software triangle rasterizer with exact integer geometry.
//!
//! - `algebra`: homogeneous vectors and 4×4 matrices over integers, with the
//!   transform constructors and the laws of composition.
//! - `colors`: byte-channel colors, barycentric blending and pixel packing.
//! - `mesh`: vertex positions and colors, optionally indexed.
//! - `rasterizer`: the framebuffer, the view port mapping, culling and scan
//!   conversion, with `draw` specified pixel for pixel.
//!
//! Fractional transforms are integer matrices scaled by a common factor: a
//! homogeneous vector names the same point as any nonzero multiple of it, so
//! the scale cancels in the perspective divide. Screen positions are fixed
//! point, and every edge function and barycentric weight is exact.

pub mod algebra;
pub mod colors;
pub mod mesh;
pub mod rasterizer;
