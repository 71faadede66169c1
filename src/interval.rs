//! Ranges of `f64` values, held as bit patterns and compared in the total
//! order of `crate::order`.
use vstd::prelude::*;
use crate::order::{key, below, order_key};

verus! {

/// Bit pattern of `0.001`, the smallest distance at which a ray may hit a
/// surface; it keeps a scattered ray from hitting the surface it left.
pub const HIT_EPSILON_BITS: u64 = 0x3F50_624D_D2F1_A9FC;

/// Bit pattern of `f64::INFINITY`.
pub const INFINITY_BITS: u64 = 0x7FF0_0000_0000_0000;

/// Bit pattern of `0.0`.
pub const ZERO_BITS: u64 = 0;

/// Bit pattern of `0.999`, the brightest channel value written out.
pub const BRIGHTEST_BITS: u64 = 0x3FEF_F7CE_D916_872B;

/// A range `(min, max)` of `f64` values given by their bit patterns. The range
/// is empty where `min` lies above `max`.
#[derive(Clone, Copy, Debug, PartialEq, Eq, Structural)]
pub struct Interval(pub u64, pub u64);

impl Interval {
    /// `min <= x <= max` in the total order.
    pub open spec fn contains_spec(self, x: u64) -> bool {
        key(self.0) <= key(x) && key(x) <= key(self.1)
    }

    /// `min < x < max` in the total order.
    pub open spec fn surrounds_spec(self, x: u64) -> bool {
        below(self.0, x) && below(x, self.1)
    }

    pub open spec fn clamp_spec(self, x: u64) -> u64 {
        if below(x, self.0) {
            self.0
        } else if below(self.1, x) {
            self.1
        } else {
            x
        }
    }

    pub fn from(min: u64, max: u64) -> (r: Interval)
        ensures
            r == Interval(min, max),
    {
        Interval(min, max)
    }

    /// The distances at which a ray may hit a surface: `(0.001, +inf)`.
    pub fn hit_range() -> (r: Interval)
        ensures
            r == Interval(HIT_EPSILON_BITS, INFINITY_BITS),
    {
        Interval(HIT_EPSILON_BITS, INFINITY_BITS)
    }

    /// The channel values that are written out: `[0.0, 0.999]`.
    pub fn intensity() -> (r: Interval)
        ensures
            r == Interval(ZERO_BITS, BRIGHTEST_BITS),
    {
        Interval(ZERO_BITS, BRIGHTEST_BITS)
    }

    pub fn min(&self) -> (r: u64)
        ensures
            r == self.0,
    {
        self.0
    }

    pub fn max(&self) -> (r: u64)
        ensures
            r == self.1,
    {
        self.1
    }

    pub fn contains(&self, x: u64) -> (r: bool)
        ensures
            r == self.contains_spec(x),
    {
        let k = order_key(x);
        order_key(self.0) <= k && k <= order_key(self.1)
    }

    pub fn surrounds(&self, x: u64) -> (r: bool)
        ensures
            r == self.surrounds_spec(x),
    {
        let k = order_key(x);
        order_key(self.0) < k && k < order_key(self.1)
    }

    /// `x` moved into the range: `min` below it, `max` above it.
    pub fn clamp(&self, x: u64) -> (r: u64)
        ensures
            r == self.clamp_spec(x),
    {
        let k = order_key(x);
        if k < order_key(self.0) {
            self.0
        } else if k > order_key(self.1) {
            self.1
        } else {
            x
        }
    }
}

} // verus!
