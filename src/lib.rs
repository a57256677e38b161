//! A software triangle rasterizer over exact integer arithmetic.
//!
//! Screen positions are in sub-pixel units, depths, texture coordinates and
//! intensities in fixed point (`fixed::ONE` is 1.0). A shader's vertex stage
//! hands the rasterizer projected vertices with attribute bags; the
//! rasterizer computes each covered pixel's barycentric weights, interpolates
//! depth perspective-correctly, runs the depth test against a depth buffer
//! and writes the fragment stage's color into a row-flipped image.
use vstd::prelude::*;

pub mod canvas;
pub mod fixed;
pub mod geometry;
pub mod lighting;
pub mod shader;
pub mod render;
pub mod transforms;
pub mod wireframe;

verus! {

} // verus!
