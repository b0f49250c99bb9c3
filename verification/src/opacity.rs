//! Opacity values.
//!
//! An opacity is carried as the bit pattern of an IEEE-754 binary64 number
//! (what `to_bits` gives), because the proofs work on integers. For patterns
//! that are not NaN and have a clear sign bit, the numeric order is the order
//! of the patterns; a set sign bit means a value that is not above zero.

use vstd::prelude::*;

verus! {

/// Bit pattern of 0.3, the lowest opacity a note may have.
pub const OPACITY_MIN: u64 = 0x3FD3_3333_3333_3333;

/// Bit pattern of 1.0, the highest opacity a note may have.
pub const OPACITY_MAX: u64 = 0x3FF0_0000_0000_0000;

/// Bit pattern of 0.95, the opacity of a new note when no default is set.
pub const OPACITY_DEFAULT: u64 = 0x3FEE_6666_6666_6666;

/// Bit pattern of positive infinity: the largest pattern with a clear sign
/// bit that is a number.
pub const POSITIVE_INFINITY: u64 = 0x7FF0_0000_0000_0000;

/// Smallest pattern with the sign bit set (negative zero).
pub const SIGN_BIT: u64 = 0x8000_0000_0000_0000;

/// Bit pattern of negative infinity: the largest pattern with the sign bit
/// set that is a number.
pub const NEGATIVE_INFINITY: u64 = 0xFFF0_0000_0000_0000;

/// The pattern encodes no number.
pub open spec fn is_nan(bits: u64) -> bool {
    (POSITIVE_INFINITY < bits && bits < SIGN_BIT) || NEGATIVE_INFINITY < bits
}

/// The pattern encodes a number below 0.3: anything with the sign bit set
/// (zero included), or a smaller pattern with the sign bit clear.
pub open spec fn below_min(bits: u64) -> bool {
    !is_nan(bits) && (bits < OPACITY_MIN || bits >= SIGN_BIT)
}

/// The pattern encodes a number above 1.0.
pub open spec fn above_max(bits: u64) -> bool {
    !is_nan(bits) && OPACITY_MAX < bits && bits < SIGN_BIT
}

/// The pattern encodes a number from 0.3 to 1.0, both included.
pub open spec fn in_range(bits: u64) -> bool {
    OPACITY_MIN <= bits && bits <= OPACITY_MAX
}

/// The opacity a note gets for a requested one: the nearest number from 0.3
/// to 1.0. A pattern that is no number gives 1.0, so that a note is never
/// less visible than was meant.
pub open spec fn clamp_spec(bits: u64) -> u64 {
    if below_min(bits) {
        OPACITY_MIN
    } else if above_max(bits) || is_nan(bits) {
        OPACITY_MAX
    } else {
        bits
    }
}

/// The opacity that new notes start with: the given one clamped, or 0.95
/// where none is given.
pub open spec fn default_or(given: Option<u64>) -> u64 {
    clamp_spec(
        match given {
            Some(o) => o,
            None => OPACITY_DEFAULT,
        },
    )
}

/// The opacity that new notes start with: the given one clamped, or 0.95
/// where none is given.
pub fn clamp_default(given: Option<u64>) -> (r: u64)
    ensures
        r == default_or(given),
        in_range(r),
        given is None ==> r == OPACITY_DEFAULT,
{
    match given {
        Some(o) => clamp_opacity(o),
        None => OPACITY_DEFAULT,
    }
}

/// Clamps an opacity to the range from 0.3 to 1.0. What is no number
/// becomes 1.0.
pub fn clamp_opacity(bits: u64) -> (r: u64)
    ensures
        r == clamp_spec(bits),
        in_range(r),
        in_range(bits) ==> r == bits,
{
    let nan = (bits > POSITIVE_INFINITY && bits < SIGN_BIT) || bits > NEGATIVE_INFINITY;
    if nan {
        OPACITY_MAX
    } else if bits < OPACITY_MIN || bits >= SIGN_BIT {
        OPACITY_MIN
    } else if bits > OPACITY_MAX {
        OPACITY_MAX
    } else {
        bits
    }
}

/// Clamping is idempotent: a clamped opacity is left as it is.
pub proof fn lemma_clamp_idempotent(bits: u64)
    ensures
        clamp_spec(clamp_spec(bits)) == clamp_spec(bits),
{
}

/// Whatever is requested, the clamped opacity is a number from 0.3 to 1.0,
/// and an opacity in that range is left as it is.
pub proof fn lemma_clamp_in_range(bits: u64)
    ensures
        in_range(clamp_spec(bits)),
        !is_nan(clamp_spec(bits)),
        in_range(bits) ==> clamp_spec(bits) == bits,
{
}

} // verus!
