//! The camera: maps normalized image-plane coordinates to rays.

use vstd::prelude::*;
use crate::fixed::Fx;
use crate::fixed::FX_SCALE;
use crate::fixed::fx_div;
use crate::fixed::fx_mul;
use crate::ray::Ray;
use crate::ray::RayV;
use crate::vec3::V3;
use crate::vec3::Vec3;

verus! {

/// The viewport is two world units tall and the focal length one unit;
/// the width follows the image's aspect ratio.
pub open spec fn viewport_width_spec(w: int, h: int) -> int {
    fx_mul(fx_div(w * FX_SCALE as int, h * FX_SCALE as int), 2 * FX_SCALE as int)
}

/// The eye point: the world origin.
pub open spec fn camera_origin() -> V3 {
    V3 { x: 0, y: 0, z: 0 }
}

/// The horizontal viewport extent for an image of the given dimensions.
pub open spec fn camera_horizontal(w: int, h: int) -> V3 {
    V3 { x: viewport_width_spec(w, h), y: 0, z: 0 }
}

/// The vertical viewport extent: two world units.
pub open spec fn camera_vertical() -> V3 {
    V3 { x: 0, y: 2 * FX_SCALE as int, z: 0 }
}

/// The viewport's lower-left corner: half an extent left and down from the
/// eye, one focal length ahead.
pub open spec fn camera_lower_left(w: int, h: int) -> V3 {
    camera_origin().sub(camera_horizontal(w, h).sdiv(2 * FX_SCALE as int)).sub(
        camera_vertical().sdiv(2 * FX_SCALE as int),
    ).sub(V3 { x: 0, y: 0, z: FX_SCALE as int })
}

/// `cam` is the camera derived from an image of the given dimensions.
pub open spec fn is_camera_for(cam: Camera, w: int, h: int) -> bool {
    &&& cam.origin@ == camera_origin()
    &&& cam.horizontal@ == camera_horizontal(w, h)
    &&& cam.vertical@ == camera_vertical()
    &&& cam.lower_left_corner@ == camera_lower_left(w, h)
}

/// The ray the camera for an image of dimensions `w`, `h` casts toward the
/// viewport coordinates `(u, v)`.
pub open spec fn camera_ray(w: int, h: int, u: int, v: int) -> RayV {
    RayV {
        orig: camera_origin(),
        dir: camera_lower_left(w, h).add(camera_horizontal(w, h).scale(u)).add(
            camera_vertical().scale(v),
        ).sub(camera_origin()),
    }
}

/// A fixed eye at the world origin looking along the negative z axis,
/// derived once from the image dimensions and immutable for the render.
#[derive(Debug, Clone, Copy, PartialEq, Eq, Structural)]
pub struct Camera {
    pub origin: Vec3,
    pub lower_left_corner: Vec3,
    pub horizontal: Vec3,
    pub vertical: Vec3,
}

/// The fixed-point value of a pixel count.
pub fn fx_from_u32(n: u32) -> (r: Fx)
    ensures
        r.raw as int == n as int * FX_SCALE as int,
{
    Fx { raw: (n as i64) * 65536 }
}

impl Camera {
    /// The camera for an image of the given pixel dimensions: viewport
    /// height 2, width `aspect_ratio * 2`, focal length 1, eye at the
    /// origin.
    pub fn new(image_width: u32, image_height: u32) -> (r: Camera)
        requires
            image_width >= 2,
            image_height >= 2,
        ensures
            is_camera_for(r, image_width as int, image_height as int),
    {
        let viewport_height = Fx { raw: 131072 };
        let viewport_width = fx_from_u32(image_width).div(fx_from_u32(image_height)).mul(
            viewport_height,
        );
        let focal_length = Fx { raw: 65536 };
        let zero = Fx { raw: 0 };
        let two = Fx { raw: 131072 };

        let origin = Vec3::origin();
        let horizontal = Vec3::new(viewport_width, zero, zero);
        let vertical = Vec3::new(zero, viewport_height, zero);
        let lower_left_corner = origin.sub(horizontal.div(two)).sub(vertical.div(two)).sub(
            Vec3::new(zero, zero, focal_length),
        );

        Camera { origin, horizontal, vertical, lower_left_corner }
    }

    /// The ray from the eye toward the viewport point `(u, v)`, with
    /// `(0, 0)` the lower-left corner and `(1, 1)` the upper-right.
    pub fn get_ray(self, u: Fx, v: Fx) -> (r: Ray)
        ensures
            r.orig@ == self.origin@,
            r.dir@ == self.lower_left_corner@.add(self.horizontal@.scale(u.raw as int)).add(
                self.vertical@.scale(v.raw as int),
            ).sub(self.origin@),
    {
        Ray {
            orig: self.origin,
            dir: self.lower_left_corner.add(self.horizontal.mul(u)).add(self.vertical.mul(v)).sub(
                self.origin,
            ),
        }
    }
}

} // verus!
