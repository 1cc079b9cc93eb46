//! Numbers are IEEE-754 binary64 values, held by their bit pattern.
//!
//! What needs no rounding is done here on the bits: the sign, the tests
//! against zero, and comparison by numeric value. Everything that rounds
//! (sums, products, powers, decimal conversion) is left to the host.
use vstd::prelude::*;

verus! {

/// The bit pattern of `0.0`.
pub const ZERO: u64 = 0;

/// The bit pattern of `1.0`.
pub const ONE: u64 = 0x3FF0_0000_0000_0000;

/// The bit pattern of `100.0`.
pub const HUNDRED: u64 = 0x4059_0000_0000_0000;

/// The sign bit.
pub const SIGN: u64 = 0x8000_0000_0000_0000;

/// The pattern of positive infinity: all exponent bits set.
pub const INFINITY: u64 = 0x7FF0_0000_0000_0000;

/// The bits below the sign bit.
pub open spec fn magnitude(n: u64) -> u64 {
    if n >= SIGN { (n - SIGN) as u64 } else { n }
}

/// `n` is a NaN: all exponent bits set and a nonzero fraction.
pub open spec fn is_nan(n: u64) -> bool {
    magnitude(n) > INFINITY
}

/// `n` is `0.0` or `-0.0`.
pub open spec fn is_zero(n: u64) -> bool {
    magnitude(n) == 0
}

/// The position of a non-NaN value on the number line: the order of these
/// integers is the numeric order of the values, and both zeros meet at 0.
pub open spec fn rank(n: u64) -> int {
    if n >= SIGN { -(magnitude(n) as int) } else { n as int }
}

/// `n` with its sign flipped, which is exactly IEEE negation.
pub open spec fn negated(n: u64) -> u64 {
    if n >= SIGN { (n - SIGN) as u64 } else { (n + SIGN) as u64 }
}

pub fn negate(n: u64) -> (r: u64)
    ensures
        r == negated(n),
{
    if n >= SIGN {
        n - SIGN
    } else {
        n + SIGN
    }
}

/// The absolute value: `n` with its sign bit cleared.
pub fn absolute(n: u64) -> (r: u64)
    ensures
        r == magnitude(n),
{
    if n >= SIGN {
        n - SIGN
    } else {
        n
    }
}

pub fn is_zero_number(n: u64) -> (r: bool)
    ensures
        r == is_zero(n),
{
    n == ZERO || n == SIGN
}

pub fn is_nan_number(n: u64) -> (r: bool)
    ensures
        r == is_nan(n),
{
    absolute(n) > INFINITY
}

/// Where `n` is no NaN, the sign and the magnitude of its rank.
pub fn rank_of(n: u64) -> (r: (bool, u64))
    requires
        !is_nan(n),
    ensures
        r.0 ==> rank(n) == -(r.1 as int) && r.1 > 0,
        !r.0 ==> rank(n) == r.1 as int,
{
    if n > SIGN {
        (true, n - SIGN)
    } else if n == SIGN {
        (false, 0)
    } else {
        (false, n)
    }
}

/// `a <= b` on the number line; false where either is a NaN, as in IEEE.
pub fn at_most(a: u64, b: u64) -> (r: bool)
    ensures
        r == (!is_nan(a) && !is_nan(b) && rank(a) <= rank(b)),
{
    if is_nan_number(a) || is_nan_number(b) {
        return false;
    }
    let (na, ma) = rank_of(a);
    let (nb, mb) = rank_of(b);
    if na {
        if nb { mb <= ma } else { true }
    } else {
        if nb { false } else { ma <= mb }
    }
}

/// `a < b` on the number line; false where either is a NaN, as in IEEE.
pub fn less_than(a: u64, b: u64) -> (r: bool)
    ensures
        r == (!is_nan(a) && !is_nan(b) && rank(a) < rank(b)),
{
    if is_nan_number(a) || is_nan_number(b) {
        return false;
    }
    let (na, ma) = rank_of(a);
    let (nb, mb) = rank_of(b);
    if na {
        if nb { mb < ma } else { true }
    } else {
        if nb { false } else { ma < mb }
    }
}

} // verus!
