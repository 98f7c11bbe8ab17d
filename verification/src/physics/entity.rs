//! Entities: a body, its bounding box and what is needed to draw it.
use vstd::prelude::*;
use crate::math::scalar::{times, ONE};
use crate::math::vector::Vec2f;
use crate::physics::body::{BoundingBox, PhysicsBody, RigidBody};

verus! {

/// The outline of an entity.  It decides only how the bounding box is sized.
#[derive(Clone, Copy, Debug, PartialEq, Eq, Structural)]
pub enum Shape {
    /// `size` is a radius on each axis: the box spans twice the size.
    Circle,
    /// `size` is the full extent on each axis.
    Rectangle,
}

/// A colour with eight bits for each of red, green, blue and opacity.
#[derive(Clone, Copy, Debug, PartialEq, Eq, Structural)]
pub struct Color {
    pub r: u8,
    pub g: u8,
    pub b: u8,
    pub a: u8,
}

/// One thing in the scene.
#[derive(Clone, Copy, Debug, PartialEq, Eq, Structural)]
pub struct Entity {
    pub size: Vec2f,
    pub color: Color,
    pub physics_body: PhysicsBody,
    pub bounding_box: BoundingBox,
    pub rigidbody: RigidBody,
    pub shape: Shape,
}

impl Entity {
    /// The bounding box of a shape of nominal size `size` centered at `center`.
    pub open spec fn spec_box(shape: Shape, center: Vec2f, size: Vec2f) -> BoundingBox {
        match shape {
            Shape::Circle => BoundingBox {
                x: center.x,
                y: center.y,
                w: times(size.x, (2 * ONE) as i64),
                h: times(size.y, (2 * ONE) as i64),
            },
            Shape::Rectangle => BoundingBox { x: center.x, y: center.y, w: size.x, h: size.y },
        }
    }

    /// Whether the physics step moves this entity: it is dynamic and has a
    /// positive mass.
    pub open spec fn is_movable(self) -> bool {
        self.rigidbody == RigidBody::Dynamic && self.physics_body.mass > 0
    }

    /// Whether a collision changes the velocity of this entity: it is
    /// dynamic, and its mass and inverse mass are positive.
    pub open spec fn takes_impulse(self) -> bool {
        self.rigidbody == RigidBody::Dynamic && self.physics_body.takes_impulse()
    }

    /// The bounding box is centered on the body.
    pub open spec fn box_follows_body(self) -> bool {
        self.bounding_box.x == self.physics_body.position.x && self.bounding_box.y
            == self.physics_body.position.y
    }

    /// Builds an entity whose bounding box is centered on the body and sized
    /// by the shape.
    pub fn new(
        size: Vec2f,
        color: Color,
        physics_body: PhysicsBody,
        shape: Shape,
        rigidbody: RigidBody,
    ) -> (r: Self)
        ensures
            r == (Entity {
                size,
                color,
                physics_body,
                bounding_box: Self::spec_box(shape, physics_body.position, size),
                rigidbody,
                shape,
            }),
            r.box_follows_body(),
    {
        let bb = match shape {
            Shape::Circle => BoundingBox::new(
                physics_body.position.x,
                physics_body.position.y,
                times(size.x, 2 * ONE),
                times(size.y, 2 * ONE),
            ),
            Shape::Rectangle => BoundingBox::new(
                physics_body.position.x,
                physics_body.position.y,
                size.x,
                size.y,
            ),
        };
        Self { size, color, physics_body, bounding_box: bb, rigidbody, shape }
    }
}

} // verus!
