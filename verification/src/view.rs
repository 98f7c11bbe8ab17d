//! Between the coordinates of the scene and the pixels of a window.
//!
//! The scene has its origin at the bottom left and its y axis pointing up;
//! the window has its origin at the top left and its y axis pointing down.
use vstd::prelude::*;
use crate::math::scalar::{halve, minus, over, times, Scalar};
use crate::math::vector::Vec2f;
use crate::physics::entity::{Entity, Shape};

verus! {

/// How many pixels the velocity marker is long for each unit of velocity.
pub const VELOCITY_MARKER_SCALE: Scalar = 10_000_000;

/// A window onto the scene: the size of the window in pixels and the size of
/// the part of the scene that it shows.
#[derive(Clone, Copy, Debug, PartialEq, Eq, Structural)]
pub struct Viewport {
    pub screen: Vec2f,
    pub world: Vec2f,
}

/// Where and how large an entity is drawn, in pixels.
#[derive(Clone, Copy, Debug, PartialEq, Eq, Structural)]
pub struct Sprite {
    /// The center of the shape.
    pub center: Vec2f,
    /// The nominal size of the shape: the radii of a circle, the sides of a
    /// rectangle.
    pub size: Vec2f,
    /// The corner of the shape with the smallest coordinates.
    pub corner: Vec2f,
    /// The sides of the outline of the bounding box, which starts at `corner`.
    pub outline: Vec2f,
    /// The far end of the velocity marker, which starts at `center`.
    pub velocity_tip: Vec2f,
}

impl Viewport {
    /// Neither side of the window is zero.
    pub open spec fn has_screen(self) -> bool {
        self.screen.x != 0 && self.screen.y != 0
    }

    /// Neither side of the shown part of the scene is zero.
    pub open spec fn has_world(self) -> bool {
        self.world.x != 0 && self.world.y != 0
    }

    /// The point of the scene under the pixel `pixel`.
    pub open spec fn spec_to_world(self, pixel: Vec2f) -> Vec2f {
        Vec2f {
            x: times(over(pixel.x, self.screen.x), self.world.x),
            y: times(over(minus(self.screen.y, pixel.y), self.screen.y), self.world.y),
        }
    }

    /// The pixel at the point `position` of the scene.
    pub open spec fn spec_to_screen(self, position: Vec2f) -> Vec2f {
        Vec2f {
            x: times(over(position.x, self.world.x), self.screen.x),
            y: minus(self.screen.y, times(over(position.y, self.world.y), self.screen.y)),
        }
    }

    /// A size of the scene in pixels.
    pub open spec fn spec_scale_to_screen(self, size: Vec2f) -> Vec2f {
        Vec2f {
            x: times(size.x, over(self.screen.x, self.world.x)),
            y: times(size.y, over(self.screen.y, self.world.y)),
        }
    }

    /// The corner from which a shape of pixel size `size` centered at
    /// `center` is drawn: a whole size away for a circle, half a size away
    /// for a rectangle.
    pub open spec fn spec_corner(shape: Shape, center: Vec2f, size: Vec2f) -> Vec2f {
        match shape {
            Shape::Circle => center.spec_sub(size),
            Shape::Rectangle => Vec2f {
                x: minus(center.x, halve(size.x)),
                y: minus(center.y, halve(size.y)),
            },
        }
    }

    /// Where and how large `entity` is drawn.
    pub open spec fn spec_sprite(self, entity: Entity) -> Sprite {
        let center = self.spec_to_screen(entity.physics_body.position);
        let size = self.spec_scale_to_screen(entity.size);
        Sprite {
            center,
            size,
            corner: Self::spec_corner(entity.shape, center, size),
            outline: self.spec_scale_to_screen(
                Vec2f { x: entity.bounding_box.w, y: entity.bounding_box.h },
            ),
            velocity_tip: center.spec_sub(
                entity.physics_body.velocity.spec_scale(VELOCITY_MARKER_SCALE),
            ),
        }
    }

    /// Converts a pixel of the window to the point of the scene under it.
    pub fn to_world(&self, pixel: Vec2f) -> (r: Vec2f)
        requires
            self.has_screen(),
        ensures
            r == self.spec_to_world(pixel),
    {
        Vec2f {
            x: times(over(pixel.x, self.screen.x), self.world.x),
            y: times(over(minus(self.screen.y, pixel.y), self.screen.y), self.world.y),
        }
    }

    /// Converts a point of the scene to its pixel in the window.
    pub fn to_screen(&self, position: Vec2f) -> (r: Vec2f)
        requires
            self.has_world(),
        ensures
            r == self.spec_to_screen(position),
    {
        Vec2f {
            x: times(over(position.x, self.world.x), self.screen.x),
            y: minus(self.screen.y, times(over(position.y, self.world.y), self.screen.y)),
        }
    }

    /// Converts a size of the scene to pixels.
    pub fn scale_to_screen(&self, size: Vec2f) -> (r: Vec2f)
        requires
            self.has_world(),
        ensures
            r == self.spec_scale_to_screen(size),
    {
        Vec2f {
            x: times(size.x, over(self.screen.x, self.world.x)),
            y: times(size.y, over(self.screen.y, self.world.y)),
        }
    }

    /// Computes where and how large `entity` is drawn.
    pub fn sprite(&self, entity: &Entity) -> (r: Sprite)
        requires
            self.has_world(),
        ensures
            r == self.spec_sprite(*entity),
    {
        let pixel_coords = self.to_screen(entity.physics_body.position);
        let pixel_size = self.scale_to_screen(entity.size);
        let bb_size = self.scale_to_screen(
            Vec2f::new(entity.bounding_box.w, entity.bounding_box.h),
        );
        let corner = match entity.shape {
            Shape::Circle => pixel_coords - pixel_size,
            Shape::Rectangle => Vec2f::new(
                minus(pixel_coords.x, halve(pixel_size.x)),
                minus(pixel_coords.y, halve(pixel_size.y)),
            ),
        };
        Sprite {
            center: pixel_coords,
            size: pixel_size,
            corner,
            outline: bb_size,
            velocity_tip: pixel_coords - entity.physics_body.velocity * VELOCITY_MARKER_SCALE,
        }
    }
}

} // verus!
