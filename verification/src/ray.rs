//! Rays: an origin and a direction.

use vstd::prelude::*;
use crate::fixed::Fx;
use crate::vec3::V3;
use crate::vec3::Vec3;

verus! {

/// The mathematical model of a ray.
pub ghost struct RayV {
    pub orig: V3,
    pub dir: V3,
}

impl RayV {
    /// The point reached after travelling `t` along the ray.
    pub open spec fn at(self, t: int) -> V3 {
        self.orig.add(self.dir.scale(t))
    }
}

/// A ray: origin plus direction, immutable once constructed.
#[derive(Debug, Clone, Copy, PartialEq, Eq, Structural)]
pub struct Ray {
    pub orig: Vec3,
    pub dir: Vec3,
}

impl View for Ray {
    type V = RayV;

    open spec fn view(&self) -> RayV {
        RayV { orig: self.orig@, dir: self.dir@ }
    }
}

impl Ray {
    /// The point reached after travelling `t` along the ray:
    /// `origin + t * direction`.
    pub fn at(self, t: Fx) -> (r: Vec3)
        ensures
            r@ == self@.at(t.raw as int),
    {
        self.orig.add(self.dir.mul(t))
    }
}

} // verus!
