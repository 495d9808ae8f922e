//! A Monte Carlo path tracer whose numeric core runs on Q47.16 fixed-point
//! arithmetic: every scalar is an `i64` holding the value scaled by 2^16, so
//! the geometry, shading and color pipeline can be specified and verified
//! over exact integer models. Randomness (rand) and the parallel pixel
//! driver (rayon) enter only through trusted wrappers; file I/O stays with
//! the callers.
use vstd::prelude::*;

pub mod aabb;
pub mod camera;
pub mod canvas;
pub mod colors;
pub mod fx;
pub mod hittable;
pub mod hittable_list;
pub mod material;
pub mod ray;
pub mod rect;
pub mod sphere;
pub mod texture;
pub mod utils;
pub mod vec3;

verus! {

} // verus!
