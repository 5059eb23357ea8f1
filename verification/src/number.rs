//! Numbers, as bit patterns of IEEE-754 doubles.
//!
//! A pattern has a sign in its highest bit and a magnitude in the other 63.
//! Magnitudes above that of infinity are NaNs. Among the others, a larger
//! magnitude is a number further from zero, so that patterns can be compared
//! without decoding them. Arithmetic rounds, and is not done here.

use vstd::prelude::*;

verus! {

/// The pattern with only the sign bit set: negative zero.
pub const SIGN: u64 = 0x8000_0000_0000_0000;

/// The pattern of positive infinity: the largest magnitude of a number.
pub const INFINITY: u64 = 0x7FF0_0000_0000_0000;

/// The magnitude of a pattern: the pattern without its sign.
pub open spec fn magnitude(bits: u64) -> int {
    if bits >= SIGN {
        bits - SIGN
    } else {
        bits as int
    }
}

/// Whether a pattern is no number.
pub open spec fn is_nan(bits: u64) -> bool {
    magnitude(bits) > INFINITY
}

/// Where a pattern that is a number lies in the order of numbers: patterns
/// of smaller numbers have smaller ranks, and both zeros have rank zero.
pub open spec fn rank(bits: u64) -> int {
    if bits >= SIGN {
        -magnitude(bits)
    } else {
        magnitude(bits)
    }
}

/// `a == b` on numbers: both are numbers and of equal rank.
pub open spec fn equal(a: u64, b: u64) -> bool {
    !is_nan(a) && !is_nan(b) && rank(a) == rank(b)
}

/// `a < b` on numbers: both are numbers and `a` has the smaller rank.
pub open spec fn less(a: u64, b: u64) -> bool {
    !is_nan(a) && !is_nan(b) && rank(a) < rank(b)
}

/// The pattern of `-x` for the pattern of `x`: the other sign, the same
/// magnitude.
pub open spec fn negated(bits: u64) -> u64 {
    if bits >= SIGN {
        (bits - SIGN) as u64
    } else {
        (bits + SIGN) as u64
    }
}

/// The magnitude and the sign of a pattern.
fn parts(bits: u64) -> (r: (u64, bool))
    ensures
        r.0 == magnitude(bits),
        r.1 == (bits >= SIGN),
{
    if bits >= SIGN {
        (bits - SIGN, true)
    } else {
        (bits, false)
    }
}

/// Tells whether a pattern is no number.
pub fn nan(bits: u64) -> (r: bool)
    ensures
        r == is_nan(bits),
{
    parts(bits).0 > INFINITY
}

/// Tells whether `a < b`.
pub fn lt(a: u64, b: u64) -> (r: bool)
    ensures
        r == less(a, b),
{
    if nan(a) || nan(b) {
        return false;
    }
    let (ma, na) = parts(a);
    let (mb, nb) = parts(b);
    if na && nb {
        mb < ma
    } else if na {
        ma > 0 || mb > 0
    } else if nb {
        false
    } else {
        ma < mb
    }
}

/// Tells whether `a == b`.
pub fn eq(a: u64, b: u64) -> (r: bool)
    ensures
        r == equal(a, b),
{
    if nan(a) || nan(b) {
        return false;
    }
    let (ma, na) = parts(a);
    let (mb, nb) = parts(b);
    if na == nb {
        ma == mb
    } else {
        ma == 0 && mb == 0
    }
}

/// Tells whether `a <= b`.
pub fn le(a: u64, b: u64) -> (r: bool)
    ensures
        r == (less(a, b) || equal(a, b)),
{
    lt(a, b) || eq(a, b)
}

/// The pattern of `-x` for the pattern of `x`.
pub fn negate(bits: u64) -> (r: u64)
    ensures
        r == negated(bits),
{
    if bits >= SIGN {
        bits - SIGN
    } else {
        bits + SIGN
    }
}

/// Negating twice gives the pattern back, and negating keeps the magnitude.
pub proof fn law_negate_twice(bits: u64)
    ensures
        negated(negated(bits)) == bits,
        magnitude(negated(bits)) == magnitude(bits),
        is_nan(negated(bits)) == is_nan(bits),
{
}

/// On numbers, exactly one of `a < b`, `a == b` and `b < a` holds; with a
/// NaN none of them does.
pub proof fn law_trichotomy(a: u64, b: u64)
    ensures
        !is_nan(a) && !is_nan(b) ==> (less(a, b) && !equal(a, b) && !less(b, a)) || (!less(a, b)
            && equal(a, b) && !less(b, a)) || (!less(a, b) && !equal(a, b) && less(b, a)),
        is_nan(a) || is_nan(b) ==> !less(a, b) && !equal(a, b) && !less(b, a),
{
}

} // verus!
