//! Lox numbers. A number is held as the bit pattern of an IEEE 754 binary64
//! value. What can be decided on the bits alone (sign, order, equality) is
//! decided here; sums, products and quotients, and the decimal spelling of a
//! number, are asked of the host that drives the interpreter.
use vstd::prelude::*;

verus! {

/// The sign bit of a binary64 pattern.
pub const SIGN_BIT: u64 = 0x8000_0000_0000_0000u64;

/// Everything but the sign bit.
pub const MAGNITUDE_MASK: u64 = 0x7fff_ffff_ffff_ffffu64;

/// The magnitude of the infinities; every larger magnitude is a NaN.
pub const INFINITY_MAGNITUDE: u64 = 0x7ff0_0000_0000_0000u64;

/// The pattern with the sign bit cleared.
pub open spec fn magnitude(bits: u64) -> u64 {
    bits & MAGNITUDE_MASK
}

/// Is the sign bit set?
pub open spec fn is_negative(bits: u64) -> bool {
    bits & SIGN_BIT != 0
}

/// Does the pattern stand for a NaN?
pub open spec fn is_nan(bits: u64) -> bool {
    magnitude(bits) > INFINITY_MAGNITUDE
}

/// Does the pattern stand for zero, of either sign?
pub open spec fn is_zero(bits: u64) -> bool {
    magnitude(bits) == 0
}

/// An integer that orders the patterns as the numbers they stand for: among
/// patterns that are no NaN, a number is smaller than another exactly when its
/// key is smaller. Both zeros have the key 0.
pub open spec fn order_key(bits: u64) -> int {
    if is_negative(bits) {
        -(magnitude(bits) as int)
    } else {
        magnitude(bits) as int
    }
}

/// Numeric equality: a NaN equals nothing, the two zeros are equal.
pub open spec fn number_eq(a: u64, b: u64) -> bool {
    !is_nan(a) && !is_nan(b) && order_key(a) == order_key(b)
}

/// Numeric `<`: false whenever a NaN is compared.
pub open spec fn number_lt(a: u64, b: u64) -> bool {
    !is_nan(a) && !is_nan(b) && order_key(a) < order_key(b)
}

/// Numeric `<=`: false whenever a NaN is compared.
pub open spec fn number_le(a: u64, b: u64) -> bool {
    !is_nan(a) && !is_nan(b) && order_key(a) <= order_key(b)
}

/// The pattern of the negated number: the sign bit flipped.
pub open spec fn negated(bits: u64) -> u64 {
    bits ^ SIGN_BIT
}

pub fn nan(bits: u64) -> (r: bool)
    ensures
        r == is_nan(bits),
{
    (bits & MAGNITUDE_MASK) > INFINITY_MAGNITUDE
}

pub fn zero(bits: u64) -> (r: bool)
    ensures
        r == is_zero(bits),
{
    (bits & MAGNITUDE_MASK) == 0
}

pub fn negate(bits: u64) -> (r: u64)
    ensures
        r == negated(bits),
{
    bits ^ SIGN_BIT
}

pub fn equal(a: u64, b: u64) -> (r: bool)
    ensures
        r == number_eq(a, b),
{
    if nan(a) || nan(b) {
        return false;
    }
    let ma: u64 = a & MAGNITUDE_MASK;
    let mb: u64 = b & MAGNITUDE_MASK;
    let na: bool = (a & SIGN_BIT) != 0;
    let nb: bool = (b & SIGN_BIT) != 0;
    if na == nb {
        ma == mb
    } else {
        ma == 0 && mb == 0
    }
}

pub fn less(a: u64, b: u64) -> (r: bool)
    ensures
        r == number_lt(a, b),
{
    if nan(a) || nan(b) {
        return false;
    }
    let ma: u64 = a & MAGNITUDE_MASK;
    let mb: u64 = b & MAGNITUDE_MASK;
    let na: bool = (a & SIGN_BIT) != 0;
    let nb: bool = (b & SIGN_BIT) != 0;
    if na {
        if nb {
            ma > mb
        } else {
            ma > 0 || mb > 0
        }
    } else {
        if nb {
            false
        } else {
            ma < mb
        }
    }
}

pub fn less_equal(a: u64, b: u64) -> (r: bool)
    ensures
        r == number_le(a, b),
{
    if nan(a) || nan(b) {
        return false;
    }
    less(a, b) || equal(a, b)
}

} // verus!
