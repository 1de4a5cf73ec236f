//! Ordering of IEEE 754 binary32 bit patterns.
//!
//! Log-probabilities cross this library as raw 32-bit patterns, so that no
//! rounding or comparison is left to chance. On patterns that do not encode a
//! NaN, the numeric order of the encoded values coincides with an integer
//! order on the patterns: same-sign patterns order by their low 31 bits
//! (negatives reversed), and both zero patterns rank equal. The functions here
//! state and decide that order without ever constructing the encoded value.

use vstd::prelude::*;

verus! {

/// Whether the pattern encodes a NaN: exponent bits all set and a non-zero
/// significand.
pub open spec fn bits32_is_nan(a: u32) -> bool {
    (a >> 23) & 0xff == 0xff && (a & 0x7fffff) != 0
}

/// A signed key that ranks patterns as the encoded values rank, for patterns
/// that are not NaN. The two zero patterns share the key 0.
pub open spec fn bits32_key(a: u32) -> int {
    if a >> 31 == 1 {
        -((a & 0x7fffffff) as int)
    } else {
        (a & 0x7fffffff) as int
    }
}

/// Whether the value encoded by `a` is at most the value encoded by `b`
/// (meaningful only when neither pattern is NaN).
pub open spec fn bits32_le(a: u32, b: u32) -> bool {
    bits32_key(a) <= bits32_key(b)
}

/// Decides `bits32_le` on the raw patterns.
pub fn le_bits32(a: u32, b: u32) -> (r: bool)
    ensures
        r == bits32_le(a, b),
{
    proof {
        assert(a >> 31 == 0 || a >> 31 == 1) by (bit_vector);
        assert(b >> 31 == 0 || b >> 31 == 1) by (bit_vector);
    }
    let sa = a >> 31;
    let sb = b >> 31;
    let ma = a & 0x7fffffff;
    let mb = b & 0x7fffffff;
    if sa == 1 && sb == 1 {
        ma >= mb
    } else if sa == 1 {
        true
    } else if sb == 1 {
        ma == 0 && mb == 0
    } else {
        ma <= mb
    }
}

/// Decides `bits32_is_nan` on the raw pattern.
pub fn is_nan_bits32(a: u32) -> (r: bool)
    ensures
        r == bits32_is_nan(a),
{
    (a >> 23) & 0xff == 0xff && (a & 0x7fffff) != 0
}

} // verus!
