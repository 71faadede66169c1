//! The choices that the materials make at a hit, from `f64` values given as
//! bit patterns.
use vstd::prelude::*;
use crate::order::{float_lt, less_than};

verus! {

/// Bit pattern of `1.0`.
pub const ONE_BITS: u64 = 0x3FF0_0000_0000_0000;

/// Whether a ray meets the outside of a surface: the dot product of its
/// direction with the outward normal is below zero.
pub fn is_front_face(direction_dot_normal: u64) -> (r: bool)
    ensures
        r == float_lt(direction_dot_normal, 0),
{
    less_than(direction_dot_normal, 0)
}

/// Whether a fuzzed mirror reflection leaves the surface: its dot product
/// with the normal is above zero. Where it is not, the ray is absorbed.
pub fn leaves_surface(direction_dot_normal: u64) -> (r: bool)
    ensures
        r == float_lt(0, direction_dot_normal),
{
    less_than(0, direction_dot_normal)
}

/// Whether a dielectric reflects rather than refracts: where
/// `ratio * sin_theta` exceeds one (total internal reflection), or where the
/// uniform draw falls below the Schlick reflectance.
pub fn reflects(ratio_times_sin: u64, draw: u64, reflectance: u64) -> (r: bool)
    ensures
        r == (float_lt(ONE_BITS, ratio_times_sin) || float_lt(draw, reflectance)),
{
    less_than(ONE_BITS, ratio_times_sin) || less_than(draw, reflectance)
}

} // verus!
