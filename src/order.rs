//! Total order of IEEE-754 binary64 bit patterns.
use vstd::prelude::*;

verus! {

/// The sign bit of a binary64 bit pattern.
pub const SIGN_BIT: u64 = 0x8000_0000_0000_0000;

/// Whether the sign bit of the pattern is set.
pub open spec fn is_negative(bits: u64) -> bool {
    bits >= SIGN_BIT
}

/// The pattern without its sign bit: exponent and fraction together.
pub open spec fn magnitude(bits: u64) -> int {
    (bits % SIGN_BIT) as int
}

/// IEEE-754 `totalOrder`, strict: every negative pattern lies below every
/// non-negative one; among non-negatives a larger magnitude is larger, among
/// negatives a larger magnitude is smaller. On values that are not NaN it
/// agrees with `<` on `f64`, except that `-0.0` lies below `+0.0`.
pub open spec fn total_lt(a: u64, b: u64) -> bool {
    if !is_negative(a) && !is_negative(b) {
        magnitude(a) < magnitude(b)
    } else if is_negative(a) && is_negative(b) {
        magnitude(a) > magnitude(b)
    } else {
        is_negative(a)
    }
}

/// The position of a pattern in the total order, as an unsigned integer.
pub open spec fn key(bits: u64) -> int {
    if bits < SIGN_BIT {
        bits + SIGN_BIT
    } else {
        u64::MAX - bits
    }
}

/// Strictly below, in the total order of patterns.
pub open spec fn below(a: u64, b: u64) -> bool {
    key(a) < key(b)
}

/// Maps a bit pattern to its position in the total order, so that integer
/// comparison of the results orders the patterns as `f64::total_cmp` does.
pub fn order_key(bits: u64) -> (r: u64)
    ensures
        r == key(bits),
{
    if bits < SIGN_BIT {
        bits + SIGN_BIT
    } else {
        u64::MAX - bits
    }
}

/// The order of keys is the total order of patterns, and no two patterns
/// share a key.
pub proof fn lemma_key_orders_patterns(a: u64, b: u64)
    ensures
        below(a, b) <==> total_lt(a, b),
        key(a) == key(b) <==> a == b,
        0 <= key(a) <= u64::MAX,
{
}

/// Patterns with the largest exponent and a non-zero fraction.
pub open spec fn is_nan(bits: u64) -> bool {
    magnitude(bits) > 0x7FF0_0000_0000_0000
}

/// `a < b` on `f64`: false where either is NaN, and `-0.0` equals `+0.0`.
pub open spec fn float_lt(a: u64, b: u64) -> bool {
    !is_nan(a) && !is_nan(b) && below(a, b) && !(magnitude(a) == 0 && magnitude(b) == 0)
}

/// Compares two `f64` values, given by their bit patterns, as `<` does.
pub fn less_than(a: u64, b: u64) -> (r: bool)
    ensures
        r == float_lt(a, b),
{
    let ma = a % SIGN_BIT;
    let mb = b % SIGN_BIT;
    if ma > 0x7FF0_0000_0000_0000 || mb > 0x7FF0_0000_0000_0000 {
        false
    } else if ma == 0 && mb == 0 {
        false
    } else {
        order_key(a) < order_key(b)
    }
}

/// Bit pattern of `1.0e-8`, below which a component counts as zero.
pub const NEAR_ZERO_BITS: u64 = 0x3E45_798E_E230_8C3A;

/// `|x| < |eps|` on `f64`: the magnitudes of the patterns order the absolute
/// values, and a NaN magnitude lies above every other.
pub open spec fn abs_below(x: u64, eps: u64) -> bool {
    magnitude(x) < magnitude(eps)
}

/// Whether every component of a vector lies strictly within `1.0e-8` of
/// zero; a NaN component does not.
pub fn near_zero(x: u64, y: u64, z: u64) -> (r: bool)
    ensures
        r == (abs_below(x, NEAR_ZERO_BITS) && abs_below(y, NEAR_ZERO_BITS) && abs_below(
            z,
            NEAR_ZERO_BITS,
        )),
{
    let m = NEAR_ZERO_BITS % SIGN_BIT;
    x % SIGN_BIT < m && y % SIGN_BIT < m && z % SIGN_BIT < m
}

} // verus!
