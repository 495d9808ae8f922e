//! Small numeric helpers and the randomness wrappers shared by the whole
//! renderer.
use vstd::prelude::*;

use crate::fx::{Fx, fclamp, fdiv, fmul, lemma_fmul_mag, sabs};

verus! {

/// The circle constant scaled by 2^16 (the floor of pi * 65536).
pub const PI_RAW: i64 = 205887;

/// Converts an angle in degrees to radians, in fixed point.
pub fn degrees_to_radians(degrees: Fx) -> (r: Fx)
    requires
        sabs(degrees.0 as int) <= 0x4000_0000,
    ensures
        r.0 == fdiv(fmul(degrees.0 as int, PI_RAW as int), 11796480),
{
    proof {
        lemma_fmul_mag(degrees.0 as int, PI_RAW as int, 0x4000_0000, 205887);
    }
    degrees.mul(Fx(PI_RAW)).div(Fx(11796480))
}

/// Restricts `x` to the closed interval `[min, max]`.
pub fn clamp(x: Fx, min: Fx, max: Fx) -> (r: Fx)
    ensures
        r.0 == fclamp(x.0 as int, min.0 as int, max.0 as int),
        min.0 <= max.0 ==> min.0 <= r.0 <= max.0,
{
    if x.0 < min.0 {
        min
    } else if x.0 > max.0 {
        max
    } else {
        x
    }
}

/// Relies on `rand::random_range` over a half-open `i64` range: the result
/// is a uniform sample in `[min, max)` from the thread-local generator; the
/// call panics only on an empty range, which the precondition excludes.
#[verifier::external_body]
pub fn random_double(min: Fx, max: Fx) -> (r: Fx)
    requires
        min.0 < max.0,
    ensures
        min.0 <= r.0 < max.0,
{
    Fx(rand::random_range(min.0..max.0))
}

/// Relies on `rand::random_range` over a half-open `i32` range: the result
/// is a uniform sample in `[min, max)` from the thread-local generator; the
/// call panics only on an empty range, which the precondition excludes.
#[verifier::external_body]
pub fn random_int(min: i32, max: i32) -> (r: i32)
    requires
        min < max,
    ensures
        min <= r < max,
{
    rand::random_range(min..max)
}

} // verus!
