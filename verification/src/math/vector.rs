//! Two-component vectors.
use vstd::prelude::*;
use vstd::std_specs::convert::FromSpecImpl;
use vstd::std_specs::ops::{AddSpecImpl, DivSpecImpl, MulSpecImpl, NegSpecImpl, SubSpecImpl};
use crate::math::root::{floor_root, isqrt, lemma_floor_root_dominates};
use crate::math::scalar::{
    clamp, magnitude, minus, negate, over, plus, times, toward_zero, widen_magnitude, Scalar, ONE,
};

verus! {

/// A vector of two unsigned integers.
pub struct Vec2u {
    pub x: u32,
    pub y: u32,
}

/// A vector of two signed integers.
pub struct Vec2i {
    pub x: i32,
    pub y: i32,
}

/// A vector of two fixed-point scalars.
#[derive(Clone, Copy, Debug, PartialEq, Eq, Structural)]
pub struct Vec2f {
    pub x: Scalar,
    pub y: Scalar,
}

impl Vec2f {
    /// Componentwise saturating sum.
    pub open spec fn spec_add(self, rhs: Vec2f) -> Vec2f {
        Vec2f { x: plus(self.x, rhs.x), y: plus(self.y, rhs.y) }
    }

    /// Componentwise saturating difference, `self` minus `rhs`.
    pub open spec fn spec_sub(self, rhs: Vec2f) -> Vec2f {
        Vec2f { x: minus(self.x, rhs.x), y: minus(self.y, rhs.y) }
    }

    /// Componentwise saturating negation.
    pub open spec fn spec_neg(self) -> Vec2f {
        Vec2f { x: negate(self.x), y: negate(self.y) }
    }

    /// Both components multiplied by `k`.
    pub open spec fn spec_scale(self, k: Scalar) -> Vec2f {
        Vec2f { x: times(self.x, k), y: times(self.y, k) }
    }

    /// Both components divided by `k`.  Meaningful for `k != 0`.
    pub open spec fn spec_shrink(self, k: Scalar) -> Vec2f {
        Vec2f { x: over(self.x, k), y: over(self.y, k) }
    }

    /// The dot product: the saturating sum of the two componentwise products.
    pub open spec fn spec_dot(self, rhs: Vec2f) -> Scalar {
        plus(times(self.x, rhs.x), times(self.y, rhs.y))
    }

    /// The Euclidean length in raw units, rounded down.
    pub open spec fn spec_length(self) -> int {
        floor_root(self.x * self.x + self.y * self.y)
    }

    /// The vector scaled to unit length, each component rounded toward zero.
    /// Meaningful for a vector other than zero.
    pub open spec fn spec_norm(self) -> Vec2f {
        Vec2f {
            x: toward_zero(self.x * ONE, self.spec_length()) as i64,
            y: toward_zero(self.y * ONE, self.spec_length()) as i64,
        }
    }

    /// Both components limited to the closed interval from `min` to `max`.
    pub open spec fn spec_clamp(self, min: Scalar, max: Scalar) -> Vec2f {
        Vec2f { x: clamp(self.x, min, max), y: clamp(self.y, min, max) }
    }

    /// Whether both components are zero.
    pub open spec fn is_zero(self) -> bool {
        self.x == 0 && self.y == 0
    }

    /// Builds a vector from its components.
    pub fn new(x: Scalar, y: Scalar) -> (r: Self)
        ensures
            r == (Vec2f { x, y }),
    {
        Self { x, y }
    }

    /// The zero vector.
    pub fn zero() -> (r: Self)
        ensures
            r == (Vec2f { x: 0, y: 0 }),
    {
        Self { x: 0, y: 0 }
    }

    /// Adds `rhs` to this vector in place.
    pub fn add_assign(&mut self, rhs: Vec2f)
        ensures
            *final(self) == old(self).spec_add(rhs),
    {
        self.x = plus(self.x, rhs.x);
        self.y = plus(self.y, rhs.y);
    }

    /// Subtracts `rhs` from this vector in place.
    pub fn sub_assign(&mut self, rhs: Vec2f)
        ensures
            *final(self) == old(self).spec_sub(rhs),
    {
        self.x = minus(self.x, rhs.x);
        self.y = minus(self.y, rhs.y);
    }

    /// Multiplies this vector by `rhs` in place.
    pub fn mul_assign(&mut self, rhs: Scalar)
        ensures
            *final(self) == old(self).spec_scale(rhs),
    {
        self.x = times(self.x, rhs);
        self.y = times(self.y, rhs);
    }

    /// Scales the vector to unit length.
    ///
    /// The length is the rounded-down root of the exact sum of squares, so it
    /// never overflows, and each component of the result lies between minus
    /// one and one.
    pub fn norm(&self) -> (r: Vec2f)
        requires
            !self.is_zero(),
        ensures
            r == self.spec_norm(),
            -ONE <= r.x <= ONE,
            -ONE <= r.y <= ONE,
    {
        let mx: u128 = widen_magnitude(self.x);
        let my: u128 = widen_magnitude(self.y);
        assert(mx * mx <= 0x4000_0000_0000_0000_0000_0000_0000_0000) by (nonlinear_arith)
            requires
                mx <= 0x8000_0000_0000_0000,
        ;
        assert(my * my <= 0x4000_0000_0000_0000_0000_0000_0000_0000) by (nonlinear_arith)
            requires
                my <= 0x8000_0000_0000_0000,
        ;
        let length: u64 = isqrt(mx * mx + my * my);
        proof {
            let x = self.x as int;
            let y = self.y as int;
            assert(mx * mx == x * x) by (nonlinear_arith)
                requires
                    mx == magnitude(x),
            ;
            assert(my * my == y * y) by (nonlinear_arith)
                requires
                    my == magnitude(y),
            ;
            lemma_floor_root_dominates(x, y, length as int);
        }
        Vec2f { x: unit_component(self.x, length), y: unit_component(self.y, length) }
    }

    /// The dot product with `rhs`.
    pub fn dot(&self, rhs: &Vec2f) -> (r: Scalar)
        ensures
            r == self.spec_dot(*rhs),
    {
        plus(times(self.x, rhs.x), times(self.y, rhs.y))
    }

    /// Limits both components to the closed interval from `min` to `max`.
    pub fn clamp(self, min: Scalar, max: Scalar) -> (r: Vec2f)
        requires
            min <= max,
        ensures
            r == self.spec_clamp(min, max),
    {
        Vec2f { x: clamp(self.x, min, max), y: clamp(self.y, min, max) }
    }
}

/// One component of a unit vector: `c` over `length`, rounded toward zero.
fn unit_component(c: Scalar, length: u64) -> (r: Scalar)
    requires
        length > 0,
        magnitude(c as int) <= length,
    ensures
        r == toward_zero(c * ONE, length as int),
        -ONE <= r <= ONE,
{
    let m: u128 = widen_magnitude(c);
    let q: u128 = (m * (ONE as u128)) / (length as u128);
    proof {
        assert(q <= ONE) by (nonlinear_arith)
            requires
                q == (m * ONE) / (length as int),
                0 <= m <= length,
                length > 0,
        ;
        assert(magnitude(c * ONE) == m * ONE);
    }
    if c >= 0 {
        q as i64
    } else {
        -(q as i64)
    }
}

impl core::ops::Add for Vec2f {
    type Output = Vec2f;

    fn add(self, rhs: Vec2f) -> (r: Vec2f) {
        Vec2f { x: plus(self.x, rhs.x), y: plus(self.y, rhs.y) }
    }
}

impl AddSpecImpl for Vec2f {
    open spec fn obeys_add_spec() -> bool {
        true
    }

    open spec fn add_req(self, rhs: Vec2f) -> bool {
        true
    }

    open spec fn add_spec(self, rhs: Vec2f) -> Vec2f {
        self.spec_add(rhs)
    }
}

impl core::ops::Sub for Vec2f {
    type Output = Vec2f;

    fn sub(self, rhs: Vec2f) -> (r: Vec2f) {
        Vec2f { x: minus(self.x, rhs.x), y: minus(self.y, rhs.y) }
    }
}

impl SubSpecImpl for Vec2f {
    open spec fn obeys_sub_spec() -> bool {
        true
    }

    open spec fn sub_req(self, rhs: Vec2f) -> bool {
        true
    }

    open spec fn sub_spec(self, rhs: Vec2f) -> Vec2f {
        self.spec_sub(rhs)
    }
}

impl core::ops::Neg for Vec2f {
    type Output = Vec2f;

    fn neg(self) -> (r: Vec2f) {
        Vec2f { x: negate(self.x), y: negate(self.y) }
    }
}

impl NegSpecImpl for Vec2f {
    open spec fn obeys_neg_spec() -> bool {
        true
    }

    open spec fn neg_req(self) -> bool {
        true
    }

    open spec fn neg_spec(self) -> Vec2f {
        self.spec_neg()
    }
}

impl core::ops::Mul<Scalar> for Vec2f {
    type Output = Vec2f;

    fn mul(self, rhs: Scalar) -> (r: Vec2f) {
        Vec2f { x: times(self.x, rhs), y: times(self.y, rhs) }
    }
}

impl MulSpecImpl<Scalar> for Vec2f {
    open spec fn obeys_mul_spec() -> bool {
        true
    }

    open spec fn mul_req(self, rhs: Scalar) -> bool {
        true
    }

    open spec fn mul_spec(self, rhs: Scalar) -> Vec2f {
        self.spec_scale(rhs)
    }
}

impl core::ops::Mul<Vec2f> for Scalar {
    type Output = Vec2f;

    fn mul(self, rhs: Vec2f) -> (r: Vec2f) {
        Vec2f { x: times(rhs.x, self), y: times(rhs.y, self) }
    }
}

impl MulSpecImpl<Vec2f> for Scalar {
    open spec fn obeys_mul_spec() -> bool {
        true
    }

    open spec fn mul_req(self, rhs: Vec2f) -> bool {
        true
    }

    open spec fn mul_spec(self, rhs: Vec2f) -> Vec2f {
        rhs.spec_scale(self)
    }
}

impl core::ops::Div<Scalar> for Vec2f {
    type Output = Vec2f;

    fn div(self, rhs: Scalar) -> (r: Vec2f) {
        Vec2f { x: over(self.x, rhs), y: over(self.y, rhs) }
    }
}

impl DivSpecImpl<Scalar> for Vec2f {
    open spec fn obeys_div_spec() -> bool {
        true
    }

    open spec fn div_req(self, rhs: Scalar) -> bool {
        rhs != 0
    }

    open spec fn div_spec(self, rhs: Scalar) -> Vec2f {
        self.spec_shrink(rhs)
    }
}

impl From<(Scalar, Scalar)> for Vec2f {
    fn from(value: (Scalar, Scalar)) -> (r: Vec2f) {
        Vec2f { x: value.0, y: value.1 }
    }
}

impl FromSpecImpl<(Scalar, Scalar)> for Vec2f {
    open spec fn obeys_from_spec() -> bool {
        true
    }

    open spec fn from_spec(value: (Scalar, Scalar)) -> Vec2f {
        Vec2f { x: value.0, y: value.1 }
    }
}

} // verus!
