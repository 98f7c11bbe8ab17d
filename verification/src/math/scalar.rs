//! Saturating decimal fixed-point arithmetic.
//!
//! A [`Scalar`] counts millionths: the raw integer `1_000_000` stands for the
//! number one.  Every operation computes the exact mathematical result, rounds
//! it toward zero to the nearest millionth and then saturates it to the range
//! of `i64`, so no operation can overflow.
use vstd::prelude::*;

verus! {

/// A fixed-point number, stored as a count of millionths.
pub type Scalar = i64;

/// The raw value that stands for the number one.
pub const ONE: i64 = 1_000_000;

/// The representable value nearest to `v`.
pub open spec fn saturate(v: int) -> i64 {
    if v < i64::MIN {
        i64::MIN
    } else if v > i64::MAX {
        i64::MAX
    } else {
        v as i64
    }
}

/// Whether `v` is representable, so that [`saturate`] leaves it as it is.
pub open spec fn fits(v: int) -> bool {
    i64::MIN <= v <= i64::MAX
}

/// The absolute value of `v`.
pub open spec fn magnitude(v: int) -> int {
    if v < 0 {
        -v
    } else {
        v
    }
}

/// The quotient `n / d` rounded toward zero.  Meaningful for `d != 0`.
pub open spec fn toward_zero(n: int, d: int) -> int {
    if d > 0 {
        if n >= 0 {
            n / d
        } else {
            -((-n) / d)
        }
    } else {
        if n >= 0 {
            -(n / (-d))
        } else {
            (-n) / (-d)
        }
    }
}

/// Saturating sum.
pub open spec fn spec_plus(a: i64, b: i64) -> i64 {
    saturate(a + b)
}

/// Saturating difference.
pub open spec fn spec_minus(a: i64, b: i64) -> i64 {
    saturate(a - b)
}

/// Saturating negation.
pub open spec fn spec_negate(a: i64) -> i64 {
    saturate(-a)
}

/// Saturating fixed-point product, rounded toward zero.
pub open spec fn spec_times(a: i64, b: i64) -> i64 {
    saturate(toward_zero(a * b, ONE as int))
}

/// Saturating fixed-point quotient, rounded toward zero.  Meaningful for `b != 0`.
pub open spec fn spec_over(a: i64, b: i64) -> i64 {
    saturate(toward_zero(a * ONE, b as int))
}

/// Half of `a`, rounded toward zero.
pub open spec fn spec_halve(a: i64) -> i64 {
    toward_zero(a as int, 2) as i64
}

/// The smaller of two scalars.
pub open spec fn spec_min(a: i64, b: i64) -> i64 {
    if a <= b {
        a
    } else {
        b
    }
}

/// `v` limited to the closed interval from `lo` to `hi`.
pub open spec fn spec_clamp(v: i64, lo: i64, hi: i64) -> i64 {
    if v < lo {
        lo
    } else if v > hi {
        hi
    } else {
        v
    }
}

/// Rounding toward zero is symmetric under a change of sign of the numerator.
pub proof fn lemma_toward_zero_odd(n: int, d: int)
    requires
        d != 0,
    ensures
        toward_zero(-n, d) == -toward_zero(n, d),
{
    if n == 0 {
        assert(0int / magnitude(d) == 0) by (nonlinear_arith)
            requires
                magnitude(d) > 0,
        ;
    }
}

/// Dividing an exact multiple gives the factor back.
pub proof fn lemma_toward_zero_exact(q: int, d: int)
    requires
        d != 0,
    ensures
        toward_zero(q * d, d) == q,
{
    let n = q * d;
    let md = magnitude(d);
    let mq = magnitude(q);
    assert(magnitude(n) == mq * md) by (nonlinear_arith)
        requires
            n == q * d,
            md == magnitude(d),
            mq == magnitude(q),
    ;
    assert((mq * md) / md == mq) by (nonlinear_arith)
        requires
            md > 0,
            mq >= 0,
    ;
    assert(n >= 0 <==> (q >= 0) == (d > 0) || q == 0) by (nonlinear_arith)
        requires
            n == q * d,
            d != 0,
    ;
}

fn clip(v: i128) -> (r: i64)
    ensures
        r == saturate(v as int),
{
    if v < i64::MIN as i128 {
        i64::MIN
    } else if v > i64::MAX as i128 {
        i64::MAX
    } else {
        v as i64
    }
}

pub(crate) fn widen_magnitude(v: i64) -> (r: u128)
    ensures
        r == magnitude(v as int),
        r <= 0x8000_0000_0000_0000,
{
    if v < 0 {
        (-(v as i128)) as u128
    } else {
        v as u128
    }
}

/// Adds two scalars, saturating at the ends of the range.
#[verifier::when_used_as_spec(spec_plus)]
pub fn plus(a: Scalar, b: Scalar) -> (r: Scalar)
    ensures
        r == spec_plus(a, b),
{
    clip(a as i128 + b as i128)
}

/// Subtracts `b` from `a`, saturating at the ends of the range.
#[verifier::when_used_as_spec(spec_minus)]
pub fn minus(a: Scalar, b: Scalar) -> (r: Scalar)
    ensures
        r == spec_minus(a, b),
{
    clip(a as i128 - b as i128)
}

/// Changes the sign of `a`; the most negative value becomes the most positive.
#[verifier::when_used_as_spec(spec_negate)]
pub fn negate(a: Scalar) -> (r: Scalar)
    ensures
        r == spec_negate(a),
{
    clip(-(a as i128))
}

/// Multiplies two scalars, rounding toward zero and saturating.
#[verifier::when_used_as_spec(spec_times)]
pub fn times(a: Scalar, b: Scalar) -> (r: Scalar)
    ensures
        r == spec_times(a, b),
{
    let ma: u128 = widen_magnitude(a);
    let mb: u128 = widen_magnitude(b);
    assert(ma * mb <= 0x4000_0000_0000_0000_0000_0000_0000_0000) by (nonlinear_arith)
        requires
            ma <= 0x8000_0000_0000_0000,
            mb <= 0x8000_0000_0000_0000,
    ;
    let q: u128 = (ma * mb) / (ONE as u128);
    let positive: bool = (a < 0) == (b < 0);
    proof {
        let n: int = a * b;
        assert(magnitude(n) == ma * mb) by (nonlinear_arith)
            requires
                n == a * b,
                ma == magnitude(a as int),
                mb == magnitude(b as int),
        ;
        assert((n >= 0) == positive || n == 0) by (nonlinear_arith)
            requires
                n == a * b,
                positive == ((a < 0) == (b < 0)),
        ;
        assert(positive ==> n >= 0) by (nonlinear_arith)
            requires
                n == a * b,
                positive == ((a < 0) == (b < 0)),
        ;
    }
    if positive {
        clip(q as i128)
    } else {
        clip(-(q as i128))
    }
}

/// Divides `a` by `b`, rounding toward zero and saturating.
#[verifier::when_used_as_spec(spec_over)]
pub fn over(a: Scalar, b: Scalar) -> (r: Scalar)
    requires
        b != 0,
    ensures
        r == spec_over(a, b),
{
    let ma: u128 = widen_magnitude(a);
    let mb: u128 = widen_magnitude(b);
    let q: u128 = (ma * (ONE as u128)) / mb;
    proof {
        let n: int = a * ONE;
        assert(magnitude(n) == ma * ONE);
        assert(q <= ma * ONE) by (nonlinear_arith)
            requires
                q == (ma * ONE) / (mb as int),
                mb > 0,
                ma >= 0,
        ;
    }
    if (a >= 0) == (b > 0) {
        clip(q as i128)
    } else {
        clip(-(q as i128))
    }
}

/// Halves `a`, rounding toward zero.
#[verifier::when_used_as_spec(spec_halve)]
pub fn halve(a: Scalar) -> (r: Scalar)
    ensures
        r == spec_halve(a),
{
    a / 2
}

/// The smaller of `a` and `b`.
#[verifier::when_used_as_spec(spec_min)]
pub fn min(a: Scalar, b: Scalar) -> (r: Scalar)
    ensures
        r == spec_min(a, b),
{
    if a <= b {
        a
    } else {
        b
    }
}

/// Limits `v` to the closed interval from `lo` to `hi`.
#[verifier::when_used_as_spec(spec_clamp)]
pub fn clamp(v: Scalar, lo: Scalar, hi: Scalar) -> (r: Scalar)
    requires
        lo <= hi,
    ensures
        r == spec_clamp(v, lo, hi),
{
    if v < lo {
        lo
    } else if v > hi {
        hi
    } else {
        v
    }
}

} // verus!
