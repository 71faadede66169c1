//! Turning a gamma-corrected colour channel into an 8-bit value.
use vstd::prelude::*;
use vstd::arithmetic::power2::{pow2, lemma2_to64, lemma2_to64_rest, lemma_pow2_strictly_increases};
use vstd::arithmetic::div_mod::{lemma_div_is_ordered, lemma_div_is_ordered_by_denominator};
use crate::interval::{Interval, BRIGHTEST_BITS};
use crate::order::key;

verus! {

/// `2^52`: the fraction of a binary64 pattern occupies the bits below it.
pub const FRACTION_UNIT: u64 = 0x10_0000_0000_0000;

/// The biased exponent of a binary64 pattern.
pub open spec fn exponent(bits: u64) -> int {
    (bits / FRACTION_UNIT) as int % 2048
}

/// The fraction field of a binary64 pattern.
pub open spec fn fraction(bits: u64) -> int {
    (bits % FRACTION_UNIT) as int
}

pub open spec fn is_nan(bits: u64) -> bool {
    exponent(bits) == 2047 && fraction(bits) != 0
}

/// The integer `m` with `|v| = m * 2^(e - 1075)`, where `e` is the exponent
/// (taken as `1` for subnormals).
pub open spec fn significand(bits: u64) -> int {
    if exponent(bits) == 0 {
        fraction(bits)
    } else {
        fraction(bits) + FRACTION_UNIT
    }
}

/// `floor(256 * v)` for a non-negative value `v` below `1.0`.
pub open spec fn scaled_floor(bits: u64) -> int {
    let e = if exponent(bits) == 0 { 1 } else { exponent(bits) };
    significand(bits) / (pow2((1067 - e) as nat) as int)
}

/// The byte written for a channel value: `0` for NaN, else the value clamped
/// to `[0.0, 0.999]`, scaled by 256 and rounded down.
pub open spec fn byte_of(bits: u64) -> int {
    if is_nan(bits) {
        0
    } else {
        scaled_floor(Interval::intensity_spec().clamp_spec(bits))
    }
}

impl Interval {
    pub open spec fn intensity_spec() -> Interval {
        Interval(0, BRIGHTEST_BITS)
    }
}

/// The 8-bit value of a gamma-corrected channel given by its bit pattern:
/// NaN gives `0`; other values are clamped to `[0.0, 0.999]` and
/// `floor(256 * v)` is returned, so `0.0` gives `0` and `0.999` or more
/// gives `255`.
pub fn to_byte(bits: u64) -> (r: u8)
    ensures
        r == byte_of(bits),
{
    let e = (bits / FRACTION_UNIT) % 2048;
    let f = bits % FRACTION_UNIT;
    if e == 2047 && f != 0 {
        return 0;
    }
    let c = Interval::intensity().clamp(bits);
    assert(c <= BRIGHTEST_BITS) by {
        crate::order::lemma_key_orders_patterns(c, BRIGHTEST_BITS);
        crate::order::lemma_key_orders_patterns(c, 0);
    }
    let ce = (c / FRACTION_UNIT) % 2048;
    let cf = c % FRACTION_UNIT;
    assert(ce <= 1022);
    assert(cf < FRACTION_UNIT);
    let sig: u64 = if ce == 0 { cf } else { cf + FRACTION_UNIT };
    let shift: u64 = if ce == 0 { 1066 } else { 1067 - ce };
    assert(sig == significand(c));
    assert(sig < 0x20_0000_0000_0000);
    if shift >= 64 {
        proof {
            lemma_vanishing_shift(sig, shift as nat);
        }
        0
    } else {
        proof {
            lemma_byte_shift(sig, shift);
        }
        (sig >> shift) as u8
    }
}

proof fn lemma_vanishing_shift(sig: u64, shift: nat)
    requires
        sig < 0x20_0000_0000_0000,
        shift >= 64,
    ensures
        sig as int / (pow2(shift) as int) == 0,
{
    lemma2_to64();
    lemma2_to64_rest();
    lemma_pow2_strictly_increases(53, shift);
    vstd::arithmetic::div_mod::lemma_basic_div(sig as int, pow2(shift) as int);
}

proof fn lemma_byte_shift(sig: u64, shift: u64)
    requires
        sig < 0x20_0000_0000_0000,
        45 <= shift < 64,
    ensures
        sig >> shift == sig as int / (pow2(shift as nat) as int),
        sig >> shift < 256,
{
    lemma2_to64();
    lemma2_to64_rest();
    vstd::bits::lemma_u64_shr_is_div(sig, shift);
    if shift > 45 {
        lemma_pow2_strictly_increases(45, shift as nat);
    }
    lemma_div_is_ordered_by_denominator(sig as int, pow2(45) as int, pow2(shift as nat) as int);
    lemma_div_is_ordered(sig as int, 0x1F_FFFF_FFFF_FFFF, pow2(45) as int);
}

/// A channel of `0.0` gives `0`; a channel that is not NaN and lies at or
/// above `0.999` gives `255`.
pub proof fn lemma_byte_bounds(bits: u64)
    ensures
        byte_of(0) == 0,
        !is_nan(bits) && key(bits) >= key(BRIGHTEST_BITS) ==> byte_of(bits) == 255,
{
    lemma2_to64();
    lemma2_to64_rest();
    vstd::arithmetic::power2::lemma_pow2_pos(1066);
    assert(exponent(0) == 0);
    assert(scaled_floor(0) == 0);
    crate::order::lemma_key_orders_patterns(bits, BRIGHTEST_BITS);
    assert(exponent(BRIGHTEST_BITS) == 1022);
    assert(significand(BRIGHTEST_BITS) / 0x2000_0000_0000 == 255);
    assert(scaled_floor(BRIGHTEST_BITS) == 255);
}

} // verus!
