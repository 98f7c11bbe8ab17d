//! The impulse that resolves a collision between two bodies.
//!
//! Two cases have no resolvable collision and leave both bodies as they are:
//! bodies whose centers coincide, for which no normal exists, and bodies
//! whose inverse masses sum to zero, for which the impulse has no finite size.
use vstd::prelude::*;
use core::ops::Neg;
use crate::math::scalar::{min, negate, over, plus, times, Scalar, ONE};
use crate::math::vector::Vec2f;
use crate::physics::body::PhysicsBody;

verus! {

/// The restitution of a collision: the smaller of the two coefficients.
pub open spec fn restitution(a: PhysicsBody, b: PhysicsBody) -> Scalar {
    min(a.cor, b.cor)
}

/// The velocity of `a` as seen from `b`.
pub open spec fn relative_velocity(a: PhysicsBody, b: PhysicsBody) -> Vec2f {
    a.velocity.spec_sub(b.velocity)
}

/// The vector from the center of `a` to the center of `b`.
pub open spec fn separation(a: PhysicsBody, b: PhysicsBody) -> Vec2f {
    b.position.spec_sub(a.position)
}

/// Whether a collision between `a` and `b` can be resolved: the centers
/// differ and the inverse masses do not sum to zero.
pub open spec fn resolvable(a: PhysicsBody, b: PhysicsBody) -> bool {
    !separation(a, b).is_zero() && plus(a.inv_mass, b.inv_mass) != 0
}

/// The collision normal: the unit vector from `a` toward `b`, turned round
/// where needed so that it never points along the relative velocity.
pub open spec fn collision_normal(a: PhysicsBody, b: PhysicsBody) -> Vec2f {
    let n = separation(a, b).spec_norm();
    if n.spec_dot(relative_velocity(a, b)) > 0 {
        n.spec_neg()
    } else {
        n
    }
}

/// The size of the impulse:
/// `-(1 + restitution) * (relative velocity . normal) / (sum of inverse masses)`.
pub open spec fn impulse_size(a: PhysicsBody, b: PhysicsBody) -> Scalar {
    over(
        times(
            negate(plus(ONE, restitution(a, b))),
            relative_velocity(a, b).spec_dot(collision_normal(a, b)),
        ),
        plus(a.inv_mass, b.inv_mass),
    )
}

/// The change of velocity that an impulse of size `j` along `n` gives to a
/// body of inverse mass `inv_mass`.
pub open spec fn kick(inv_mass: Scalar, j: Scalar, n: Vec2f) -> Vec2f {
    n.spec_scale(times(inv_mass, j))
}

/// The velocity of `a` after its collision with `b`, were `a` free to take
/// the impulse.
pub open spec fn first_velocity(a: PhysicsBody, b: PhysicsBody) -> Vec2f {
    a.velocity.spec_add(kick(a.inv_mass, impulse_size(a, b), collision_normal(a, b)))
}

/// The velocity of `b` after its collision with `a`, were `b` free to take
/// the impulse.
pub open spec fn second_velocity(a: PhysicsBody, b: PhysicsBody) -> Vec2f {
    b.velocity.spec_sub(kick(b.inv_mass, impulse_size(a, b), collision_normal(a, b)))
}

/// An impulse: its size and the normal along which it acts.
#[derive(Clone, Copy, Debug, PartialEq, Eq, Structural)]
pub struct Impulse {
    pub size: Scalar,
    pub normal: Vec2f,
}

impl Impulse {
    /// Computes the impulse between two bodies, or `None` where the
    /// collision cannot be resolved.
    pub fn between(a: &PhysicsBody, b: &PhysicsBody) -> (r: Option<Impulse>)
        ensures
            r.is_some() == resolvable(*a, *b),
            r matches Some(impulse) ==> impulse.size == impulse_size(*a, *b) && impulse.normal
                == collision_normal(*a, *b),
    {
        let total: Scalar = plus(a.inv_mass, b.inv_mass);
        let apart = b.position - a.position;
        if (apart.x == 0 && apart.y == 0) || total == 0 {
            return None;
        }
        let cor = min(a.cor, b.cor);
        let v_rel = a.velocity - b.velocity;
        let mut n = apart.norm();
        if n.dot(&v_rel) > 0 {
            n = n.neg();
        }
        let j = over(times(negate(plus(ONE, cor)), v_rel.dot(&n)), total);
        Some(Impulse { size: j, normal: n })
    }

    /// The velocity `v` of a body of inverse mass `inv_mass` after it was
    /// pushed along the normal.
    pub fn push(&self, v: Vec2f, inv_mass: Scalar) -> (r: Vec2f)
        ensures
            r == v.spec_add(kick(inv_mass, self.size, self.normal)),
    {
        v + self.normal * times(inv_mass, self.size)
    }

    /// The velocity `v` of a body of inverse mass `inv_mass` after it was
    /// pushed against the normal.
    pub fn pull(&self, v: Vec2f, inv_mass: Scalar) -> (r: Vec2f)
        ensures
            r == v.spec_sub(kick(inv_mass, self.size, self.normal)),
    {
        v - self.normal * times(inv_mass, self.size)
    }
}

} // verus!
