//! The camera (position and orientation, mutable between frames) and the
//! viewport (the projection plane in front of it).

use vstd::prelude::*;
use crate::fixed::{Fixed, SCALE};
use crate::geometry::Vec3;

verus! {

#[derive(Debug, Clone, Copy)]
pub struct Camera {
    pub position: Vec3,
    /// Rotation angles about each axis, in degrees.
    pub rot_x: Fixed,
    pub rot_y: Fixed,
    pub rot_z: Fixed,
}

impl Default for Camera {
    /// A camera at the origin looking down the view axis, unrotated.
    fn default() -> (c: Camera)
        ensures
            c.position.x.raw == 0 && c.position.y.raw == 0 && c.position.z.raw == 0,
            c.rot_x.raw == 0 && c.rot_y.raw == 0 && c.rot_z.raw == 0,
    {
        Camera {
            position: Vec3::zero(),
            rot_x: Fixed::zero(),
            rot_y: Fixed::zero(),
            rot_z: Fixed::zero(),
        }
    }
}

#[derive(Debug, Clone, Copy)]
pub struct Viewport {
    pub width: Fixed,
    pub height: Fixed,
    pub distance: Fixed,
}

impl Default for Viewport {
    /// A unit square viewport one unit in front of the camera.
    fn default() -> (v: Viewport)
        ensures
            v.width.raw == SCALE,
            v.height.raw == SCALE,
            v.distance.raw == SCALE,
    {
        Viewport { width: Fixed::one(), height: Fixed::one(), distance: Fixed::one() }
    }
}

} // verus!
