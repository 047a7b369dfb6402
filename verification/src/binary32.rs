//! Order and clamping of IEEE-754 binary32 values carried as their bit
//! patterns, the form in which the library holds the two real-valued settings.
use vstd::prelude::*;

verus! {

pub const SIGN_BIT: u32 = 0x8000_0000;

/// The magnitude bits of a pattern (sign cleared).
pub open spec fn magnitude(b: u32) -> int {
    if b >= SIGN_BIT { b - SIGN_BIT } else { b as int }
}

/// Not a number: exponent all ones and a non-zero fraction.
pub open spec fn is_nan(b: u32) -> bool {
    magnitude(b) > 0x7f80_0000
}

/// A key that orders the patterns as their values are ordered (both zeros
/// have key 0, negative values negative keys).
pub open spec fn order_key(b: u32) -> int {
    if b >= SIGN_BIT { -magnitude(b) } else { magnitude(b) }
}

/// `a < b` on the values (false if either is NaN).
pub open spec fn lt(a: u32, b: u32) -> bool {
    !is_nan(a) && !is_nan(b) && order_key(a) < order_key(b)
}

/// `a == b` on the values (false if either is NaN; `-0.0 == 0.0`).
pub open spec fn eq(a: u32, b: u32) -> bool {
    !is_nan(a) && !is_nan(b) && order_key(a) == order_key(b)
}

pub open spec fn le(a: u32, b: u32) -> bool {
    lt(a, b) || eq(a, b)
}

pub const ZERO: u32 = 0x0000_0000;
pub const ONE: u32 = 0x3f80_0000;

/// `x.clamp(0.0, 1.0)`: NaN stays NaN.
pub open spec fn clamp_unit(x: u32) -> u32 {
    if lt(x, ZERO) { ZERO } else if lt(ONE, x) { ONE } else { x }
}

fn magnitude_of(b: u32) -> (m: u32)
    ensures m == magnitude(b),
{
    if b >= SIGN_BIT { b - SIGN_BIT } else { b }
}

pub fn nan(b: u32) -> (r: bool)
    ensures r == is_nan(b),
{
    magnitude_of(b) > 0x7f80_0000
}

pub fn less(a: u32, b: u32) -> (r: bool)
    ensures r == lt(a, b),
{
    if nan(a) || nan(b) {
        return false;
    }
    let ma = magnitude_of(a);
    let mb = magnitude_of(b);
    let na = a >= SIGN_BIT;
    let nb = b >= SIGN_BIT;
    if na && nb {
        mb < ma
    } else if na {
        !(ma == 0 && mb == 0)
    } else if nb {
        false
    } else {
        ma < mb
    }
}

pub fn equal(a: u32, b: u32) -> (r: bool)
    ensures r == eq(a, b),
{
    if nan(a) || nan(b) {
        return false;
    }
    let ma = magnitude_of(a);
    let mb = magnitude_of(b);
    if ma == 0 && mb == 0 {
        true
    } else {
        a == b
    }
}

pub fn clamp_to_unit(x: u32) -> (r: u32)
    ensures r == clamp_unit(x),
{
    if less(x, ZERO) { ZERO } else if less(ONE, x) { ONE } else { x }
}

/// A clamped value is NaN or lies between 0 and 1.
pub proof fn lemma_clamp_unit_range(x: u32)
    ensures
        is_nan(clamp_unit(x)) || (le(ZERO, clamp_unit(x)) && le(clamp_unit(x), ONE)),
        clamp_unit(clamp_unit(x)) == clamp_unit(x),
{
}

} // verus!
