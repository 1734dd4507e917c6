//! The integer step of the fast inverse square root.

use vstd::prelude::*;

verus! {

/// The constant that the first guess is taken from.
pub const RSQRT_MAGIC: u32 = 0x5f37_59dfu32;

/// The smallest first guess that a number which is not negative can give.
pub const RSQRT_SEED_MIN: u32 = 0x1f37_59e0u32;

/// The first guess at the inverse square root of the single-precision number
/// whose bit pattern is `bits`, as a bit pattern: the constant less half the
/// pattern. One Newton step on the number it stands for completes the
/// approximation.
///
/// The pattern must have its sign clear. The guess then stands for a
/// positive number that is neither tiny nor infinite: its pattern lies
/// between `RSQRT_SEED_MIN` and `RSQRT_MAGIC`.
pub fn rsqrt_seed(bits: u32) -> (seed: u32)
    requires
        bits < 0x8000_0000u32,
    ensures
        seed == RSQRT_MAGIC - bits / 2,
        RSQRT_SEED_MIN <= seed <= RSQRT_MAGIC,
{
    assert(bits >> 1 == bits / 2) by (bit_vector);
    RSQRT_MAGIC - (bits >> 1)
}

} // verus!
