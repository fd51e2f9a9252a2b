//! Helpers for random number generation
use vstd::prelude::*;

verus! {

/// Join a pair of `u32` into a `u64`, the first one in the low half, as the
/// little-endian bytes of the first followed by those of the second read
pub fn u32_pair_to_u64(first: u32, second: u32) -> (r: u64)
    ensures
        r == first as int + second as int * 0x1_0000_0000,
{
    let high = (second as u64) << 32u64;
    let low = first as u64;
    assert(high == second as u64 * 0x1_0000_0000) by (bit_vector)
        requires
            high == (second as u64) << 32u64,
    ;
    assert(high & low == 0) by (bit_vector)
        requires
            high == (second as u64) << 32u64,
            low == first as u64,
    ;
    assert(high | low == high + low) by (bit_vector)
        requires
            high & low == 0,
    ;
    high | low
}

} // verus!
