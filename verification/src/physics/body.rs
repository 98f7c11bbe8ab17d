//! The physical state of one body and its bounding box.
use vstd::prelude::*;
use crate::math::scalar::{halve, minus, over, plus, Scalar, ONE};
use crate::math::vector::{Vec2f, Vec2i};

verus! {

/// Whether the step moves a body.
#[derive(Clone, Copy, Debug, PartialEq, Eq, Structural)]
pub enum RigidBody {
    /// Integrated every step and pushed by collisions.
    Dynamic,
    /// Never integrated and never pushed, whatever its mass.
    Static,
}

/// An axis-aligned box given by its center and its full extents.
#[derive(Clone, Copy, Debug, PartialEq, Eq, Structural)]
pub struct BoundingBox {
    pub x: Scalar,
    pub y: Scalar,
    pub w: Scalar,
    pub h: Scalar,
}

impl BoundingBox {
    /// The smallest x coordinate: the center less half the width.
    pub open spec fn spec_left(self) -> Scalar {
        minus(self.x, halve(self.w))
    }

    /// The largest x coordinate: the center plus half the width.
    pub open spec fn spec_right(self) -> Scalar {
        plus(self.x, halve(self.w))
    }

    /// The smallest y coordinate: the center less half the height.
    pub open spec fn spec_top(self) -> Scalar {
        minus(self.y, halve(self.h))
    }

    /// The largest y coordinate: the center plus half the height.
    pub open spec fn spec_bottom(self) -> Scalar {
        plus(self.y, halve(self.h))
    }

    /// Whether the open x intervals of the two boxes share a point.
    pub open spec fn overlaps_x(self, b: BoundingBox) -> bool {
        self.spec_left() < b.spec_right() && self.spec_right() > b.spec_left()
    }

    /// Whether the open y intervals of the two boxes share a point.
    pub open spec fn overlaps_y(self, b: BoundingBox) -> bool {
        self.spec_top() < b.spec_bottom() && self.spec_bottom() > b.spec_top()
    }

    /// Whether the two boxes overlap: their open intervals share a point on
    /// both axes, so boxes that only touch do not overlap.
    pub open spec fn spec_intersects(self, b: BoundingBox) -> bool {
        self.overlaps_x(b) && self.overlaps_y(b)
    }

    /// Builds a box from its center and its full extents.
    pub fn new(x: Scalar, y: Scalar, w: Scalar, h: Scalar) -> (r: Self)
        ensures
            r == (BoundingBox { x, y, w, h }),
    {
        Self { x, y, w, h }
    }

    /// Tests whether this box and `b` overlap on both axes.
    pub fn intersects(&self, b: &BoundingBox) -> (r: bool)
        ensures
            r == self.spec_intersects(*b),
            r == (self.spec_left() < b.spec_right() && self.spec_right() > b.spec_left()
                && self.spec_top() < b.spec_bottom() && self.spec_bottom() > b.spec_top()),
    {
        let a_left = minus(self.x, halve(self.w));
        let a_right = plus(self.x, halve(self.w));
        let a_top = minus(self.y, halve(self.h));
        let a_bottom = plus(self.y, halve(self.h));

        let b_left = minus(b.x, halve(b.w));
        let b_right = plus(b.x, halve(b.w));
        let b_top = minus(b.y, halve(b.h));
        let b_bottom = plus(b.y, halve(b.h));

        a_left < b_right && a_right > b_left && a_top < b_bottom && a_bottom > b_top
    }

    /// The smallest x coordinate of the box.
    pub fn left(&self) -> (r: Scalar)
        ensures
            r == self.spec_left(),
    {
        minus(self.x, halve(self.w))
    }

    /// The largest x coordinate of the box.
    pub fn right(&self) -> (r: Scalar)
        ensures
            r == self.spec_right(),
    {
        plus(self.x, halve(self.w))
    }

    /// The smallest y coordinate of the box.
    pub fn top(&self) -> (r: Scalar)
        ensures
            r == self.spec_top(),
    {
        minus(self.y, halve(self.h))
    }

    /// The largest y coordinate of the box.
    pub fn bottom(&self) -> (r: Scalar)
        ensures
            r == self.spec_bottom(),
    {
        plus(self.y, halve(self.h))
    }
}

/// A force given by a direction on the integer grid and a magnitude.
pub struct Force {
    pub direction: Vec2i,
    pub magnitude: Scalar,
}

/// The inverse of a mass: one over the mass where it is positive, else zero.
pub open spec fn spec_inv_mass(mass: Scalar) -> Scalar {
    if mass <= 0 {
        0
    } else {
        over(ONE, mass)
    }
}

/// The physical state of one body.
#[derive(Clone, Copy, Debug, PartialEq, Eq, Structural)]
pub struct PhysicsBody {
    pub position: Vec2f,
    pub velocity: Vec2f,
    pub angular_velocity: Scalar,
    pub acceleration: Vec2f,
    pub mass: Scalar,
    pub inv_mass: Scalar,
    /// The coefficient of restitution.
    pub cor: Scalar,
    pub force_accumulator: Vec2f,
}

impl PhysicsBody {
    /// The inverse mass agrees with the mass.
    pub open spec fn wf(self) -> bool {
        self.inv_mass == spec_inv_mass(self.mass)
    }

    /// Whether a collision may change the velocity of this body.
    pub open spec fn takes_impulse(self) -> bool {
        self.inv_mass > 0 && self.mass > 0
    }

    /// The body that `new` builds.
    pub open spec fn spec_new(position: Vec2f, mass: Scalar, cor: Scalar) -> PhysicsBody {
        PhysicsBody {
            position,
            velocity: Vec2f { x: 0, y: 0 },
            angular_velocity: 0,
            acceleration: Vec2f { x: 0, y: 0 },
            mass,
            inv_mass: spec_inv_mass(mass),
            cor,
            force_accumulator: Vec2f { x: 0, y: 0 },
        }
    }

    /// A body at rest at `position`, with no force on it.
    pub fn new(position: Vec2f, mass: Scalar, cor: Scalar) -> (r: Self)
        ensures
            r == Self::spec_new(position, mass, cor),
            r.wf(),
            0 <= r.inv_mass <= ONE * ONE,
    {
        let inv_mass: Scalar = if mass <= 0 {
            0
        } else {
            over(ONE, mass)
        };
        proof {
            if mass > 0 {
                assert(0 <= (ONE * ONE) / (mass as int) <= ONE * ONE) by (nonlinear_arith)
                    requires
                        mass > 0,
                ;
            }
        }
        PhysicsBody {
            position,
            velocity: Vec2f::zero(),
            angular_velocity: 0,
            acceleration: Vec2f::zero(),
            mass,
            inv_mass,
            cor,
            force_accumulator: Vec2f::zero(),
        }
    }
}

} // verus!
