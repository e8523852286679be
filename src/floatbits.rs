//! IEEE-754 single-precision values held as their bit patterns.
//!
//! The library never computes with floating-point numbers; it only compares
//! them. A value is carried as the `u32` that `f32::to_bits` gives, and the
//! comparisons below follow IEEE-754 on those patterns.
use vstd::prelude::*;

verus! {

/// Bit pattern of positive zero.
pub const POS_ZERO: u32 = 0;

/// Bit pattern of negative zero.
pub const NEG_ZERO: u32 = 0x8000_0000;

/// Bit pattern of positive infinity.
pub const POS_INF: u32 = 0x7F80_0000;

/// Bit pattern of negative infinity.
pub const NEG_INF: u32 = 0xFF80_0000;

/// Whether `b` encodes a NaN: all exponent bits set and a nonzero mantissa.
pub open spec fn is_nan(b: u32) -> bool {
    (POS_INF < b && b < NEG_ZERO) || NEG_INF < b
}

/// Whether `b` encodes positive or negative zero.
pub open spec fn is_zero(b: u32) -> bool {
    b == POS_ZERO || b == NEG_ZERO
}

/// The position of `b` in the IEEE-754 total order (the order of
/// `f32::total_cmp`): negative values are reversed below the positive ones.
pub open spec fn order_key(b: u32) -> nat {
    if b >= NEG_ZERO {
        (0xFFFF_FFFFu32 - b) as nat
    } else {
        (b + NEG_ZERO) as nat
    }
}

/// IEEE-754 `a > b`: false when either is NaN, and the two zeros are equal.
pub open spec fn gt(a: u32, b: u32) -> bool {
    !is_nan(a) && !is_nan(b) && !(is_zero(a) && is_zero(b)) && order_key(a) > order_key(b)
}

/// IEEE-754 `a <= b`: false when either is NaN, and the two zeros are equal.
pub open spec fn le(a: u32, b: u32) -> bool {
    !is_nan(a) && !is_nan(b) && (is_zero(a) && is_zero(b) || order_key(a) <= order_key(b))
}

/// Different patterns have different keys, so the total order is strict on them.
pub proof fn lemma_order_key_injective(a: u32, b: u32)
    ensures
        order_key(a) == order_key(b) <==> a == b,
        order_key(a) <= 0xFFFF_FFFF,
{
}

/// The position of `b` in the total order of `f32::total_cmp`.
pub fn total_order_key(b: u32) -> (r: u32)
    ensures
        r as nat == order_key(b),
{
    if b >= NEG_ZERO {
        0xFFFF_FFFFu32 - b
    } else {
        b + NEG_ZERO
    }
}

/// Whether the pattern encodes a NaN.
pub fn bits_is_nan(b: u32) -> (r: bool)
    ensures
        r == is_nan(b),
{
    (POS_INF < b && b < NEG_ZERO) || NEG_INF < b
}

/// IEEE-754 `a > b` on bit patterns.
pub fn bits_gt(a: u32, b: u32) -> (r: bool)
    ensures
        r == gt(a, b),
{
    let both_zero = (a == POS_ZERO || a == NEG_ZERO) && (b == POS_ZERO || b == NEG_ZERO);
    !bits_is_nan(a) && !bits_is_nan(b) && !both_zero && total_order_key(a) > total_order_key(b)
}

/// IEEE-754 `a <= b` on bit patterns.
pub fn bits_le(a: u32, b: u32) -> (r: bool)
    ensures
        r == le(a, b),
{
    let both_zero = (a == POS_ZERO || a == NEG_ZERO) && (b == POS_ZERO || b == NEG_ZERO);
    !bits_is_nan(a) && !bits_is_nan(b) && (both_zero || total_order_key(a) <= total_order_key(b))
}

} // verus!
