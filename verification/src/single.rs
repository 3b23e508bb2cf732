//! The order of single-precision numbers, told from their bit patterns.
//!
//! A pattern is a sign bit above thirty-one bits of magnitude. Magnitudes above that of
//! infinity are not numbers and compare with nothing. The other patterns are ordered by
//! their magnitude, downwards where the sign bit is set, so that the two zeros are equal.

use vstd::prelude::*;

verus! {

/// The pattern whose only set bit is the sign bit.
pub const SIGN_BIT: u32 = 0x8000_0000;

/// The magnitude of infinity.
pub const INFINITY: u32 = 0x7F80_0000;

/// The pattern without its sign bit.
pub open spec fn magnitude(bits: u32) -> int {
    if bits >= 0x8000_0000 {
        bits - 0x8000_0000
    } else {
        bits as int
    }
}

/// Whether the pattern is not a number.
pub open spec fn is_nan(bits: u32) -> bool {
    magnitude(bits) > 0x7F80_0000
}

/// The place of the pattern's number among all numbers: greater numbers have greater
/// places, and the two zeros share place zero.
pub open spec fn ordinal(bits: u32) -> int {
    if bits >= 0x8000_0000 {
        -magnitude(bits)
    } else {
        magnitude(bits)
    }
}

/// Whether the number of `a` is less than the number of `b`. Nothing is less than, or
/// greater than, what is not a number.
pub open spec fn less(a: u32, b: u32) -> bool {
    !is_nan(a) && !is_nan(b) && ordinal(a) < ordinal(b)
}

/// The pattern's place among all numbers, where it is a number.
fn place(bits: u32) -> (at: Option<i64>)
    ensures
        at is None <==> is_nan(bits),
        at is Some ==> at.unwrap() == ordinal(bits),
{
    if bits >= SIGN_BIT {
        let magnitude: u32 = bits - SIGN_BIT;
        if magnitude > INFINITY {
            None
        } else {
            Some(-(magnitude as i64))
        }
    } else if bits > INFINITY {
        None
    } else {
        Some(bits as i64)
    }
}

/// Whether the number of `a` is less than the number of `b`.
pub fn lt(a: u32, b: u32) -> (result: bool)
    ensures
        result == less(a, b),
{
    match (place(a), place(b)) {
        (Some(x), Some(y)) => x < y,
        _ => false,
    }
}

/// Whether the number of `a` is greater than the number of `b`.
pub fn gt(a: u32, b: u32) -> (result: bool)
    ensures
        result == less(b, a),
{
    lt(b, a)
}

} // verus!
