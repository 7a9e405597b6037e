//! Single-precision numbers by their bit patterns.
//!
//! An IEEE 754 binary32 value is a sign bit, eight exponent bits and
//! twenty-three fraction bits. Leaving the sign aside, the remaining bits
//! read as an integer grow with the magnitude of the number they encode, up
//! to infinity; every pattern above that of infinity is a NaN. Comparing two
//! numbers therefore needs no arithmetic on reals, only on these integers.

use vstd::prelude::*;

verus! {

/// The pattern whose only set bit is the sign.
pub const SIGN_BIT: u32 = 0x8000_0000;

/// The pattern of positive infinity.
pub const INFINITY: u32 = 0x7f80_0000;

/// The pattern of positive zero.
pub const ZERO: u32 = 0;

/// The pattern of one.
pub const ONE: u32 = 0x3f80_0000;

/// The pattern without its sign bit.
pub open spec fn magnitude(bits: u32) -> int {
    if bits >= SIGN_BIT {
        bits - SIGN_BIT
    } else {
        bits as int
    }
}

/// Whether the pattern encodes no number.
pub open spec fn nan(bits: u32) -> bool {
    magnitude(bits) > INFINITY
}

/// Position of the encoded number on the number line, counted in
/// representable values from zero. Both zeros have rank zero. Meaningful
/// only where the pattern is not a NaN.
pub open spec fn rank(bits: u32) -> int {
    if bits >= SIGN_BIT {
        -magnitude(bits)
    } else {
        magnitude(bits)
    }
}

/// `a < b` as IEEE 754 defines it: false as soon as either side is a NaN.
pub open spec fn below(a: u32, b: u32) -> bool {
    !nan(a) && !nan(b) && rank(a) < rank(b)
}

/// `a <= b` as IEEE 754 defines it: false as soon as either side is a NaN.
pub open spec fn at_most(a: u32, b: u32) -> bool {
    !nan(a) && !nan(b) && rank(a) <= rank(b)
}

/// `x` restricted to the interval from `lo` to `hi`: `lo` where `x` is below
/// it, `hi` where `x` is above it, and `x` itself otherwise. A NaN is below
/// and above nothing, so it is kept.
pub open spec fn clamped(x: u32, lo: u32, hi: u32) -> u32 {
    if below(x, lo) {
        lo
    } else if below(hi, x) {
        hi
    } else {
        x
    }
}

/// Whether the pattern encodes no number.
pub fn is_nan(bits: u32) -> (r: bool)
    ensures
        r == nan(bits),
{
    let m = if bits >= SIGN_BIT {
        bits - SIGN_BIT
    } else {
        bits
    };
    m > INFINITY
}

/// The rank of a pattern as a machine integer.
fn rank_of(bits: u32) -> (r: i64)
    ensures
        r == rank(bits),
{
    if bits >= SIGN_BIT {
        -((bits - SIGN_BIT) as i64)
    } else {
        bits as i64
    }
}

/// Whether the number encoded by `a` is less than the one encoded by `b`.
pub fn less(a: u32, b: u32) -> (r: bool)
    ensures
        r == below(a, b),
{
    !is_nan(a) && !is_nan(b) && rank_of(a) < rank_of(b)
}

/// Whether the number encoded by `a` is less than or equal to the one
/// encoded by `b`.
pub fn less_eq(a: u32, b: u32) -> (r: bool)
    ensures
        r == at_most(a, b),
{
    !is_nan(a) && !is_nan(b) && rank_of(a) <= rank_of(b)
}

/// Restricts `x` to the interval from `lo` to `hi`.
pub fn clamp(x: u32, lo: u32, hi: u32) -> (r: u32)
    requires
        at_most(lo, hi),
    ensures
        r == clamped(x, lo, hi),
{
    if less(x, lo) {
        lo
    } else if less(hi, x) {
        hi
    } else {
        x
    }
}

/// Clamping a number puts it inside the interval.
pub proof fn lemma_clamped_within(x: u32, lo: u32, hi: u32)
    requires
        at_most(lo, hi),
        !nan(x),
    ensures
        at_most(lo, clamped(x, lo, hi)),
        at_most(clamped(x, lo, hi), hi),
{
}

/// Clamping twice to the same interval is the same as clamping once.
pub proof fn lemma_clamped_idempotent(x: u32, lo: u32, hi: u32)
    requires
        at_most(lo, hi),
    ensures
        clamped(clamped(x, lo, hi), lo, hi) == clamped(x, lo, hi),
{
}

} // verus!
