//! Byte counts. They are kept as `u64` and combined with the saturating
//! arithmetic of `ubyte::ByteUnit`, so that no total can overflow.

use ubyte::ByteUnit;
use vstd::prelude::*;

verus! {

/// The byte count that stands for the mathematical amount `n`: `n` itself
/// when it fits, else the nearest bound of `u64`.
pub open spec fn clamp(n: int) -> u64 {
    if n <= 0 {
        0
    } else if n >= u64::MAX {
        u64::MAX
    } else {
        n as u64
    }
}

/// `ByteUnit + ByteUnit` of ubyte, which adds the two counts and saturates
/// at the largest `u64` instead of overflowing.
#[verifier::external_body]
pub(crate) fn byte_unit_sum(left: u64, right: u64) -> (sum: u64)
    ensures
        sum == clamp(left + right),
{
    (ByteUnit::from(left) + ByteUnit::from(right)).as_u64()
}

/// `ByteUnit - ByteUnit` of ubyte, which subtracts the second count from the
/// first and saturates at zero instead of underflowing.
#[verifier::external_body]
pub(crate) fn byte_unit_difference(left: u64, right: u64) -> (difference: u64)
    ensures
        difference == clamp(left - right),
{
    (ByteUnit::from(left) - ByteUnit::from(right)).as_u64()
}

/// Clamping commutes with adding one more byte count.
pub proof fn lemma_clamp_absorbs(total: int, more: u64)
    requires
        total >= 0,
    ensures
        clamp(clamp(total) + more) == clamp(total + more),
{
}

} // verus!
