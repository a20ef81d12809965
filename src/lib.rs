//! Exact integer core of an image-based-lighting baker: low-discrepancy
//! sample points, mip-chain planning for specular prefiltering, the cubemap
//! face layout with exact texel directions, and the index and factorial
//! arithmetic of spherical-harmonic projection; besides these, the per-frame
//! button state and the texture import options of the viewer.

pub mod sampling;
pub mod mip;
pub mod cube;
pub mod sh;
pub mod input;
pub mod texture;
