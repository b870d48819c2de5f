//! Spheres and the closed-form ray-sphere intersection.

use vstd::prelude::*;
use crate::fixed::Fx;
use crate::fixed::fx_add;
use crate::fixed::fx_div;
use crate::fixed::fx_mul;
use crate::fixed::fx_neg;
use crate::fixed::fx_sqrt;
use crate::fixed::fx_sub;
use crate::hittable::faces_front;
use crate::hittable::hit_record;
use crate::hittable::oriented_normal;
use crate::hittable::HitRecV;
use crate::material::AnyMaterial;
use crate::ray::Ray;
use crate::ray::RayV;
use crate::vec3::Point3;
use crate::vec3::V3;
use crate::vec3::dot;

verus! {

/// A sphere: center, radius, and the material it carries.
#[derive(Debug, Clone, Copy, PartialEq, Eq, Structural)]
pub struct Sphere {
    pub center: Point3,
    pub radius: Fx,
    pub material: AnyMaterial,
}

/// The quadratic discriminant of the ray-sphere intersection: with
/// `oc = origin - center`, `a = dir . dir`, `half_b = oc . dir` and
/// `c = oc . oc - r^2`, this is `half_b^2 - a c`.
pub open spec fn sphere_discriminant(center: V3, radius: int, ray: RayV) -> int {
    let oc = ray.orig.sub(center);
    let a = ray.dir.length_squared();
    let half_b = V3::dot(oc, ray.dir);
    let c = fx_sub(oc.length_squared(), fx_mul(radius, radius));
    fx_sub(fx_mul(half_b, half_b), fx_mul(a, c))
}

/// The intersection parameter a sphere reports, if any: a negative
/// discriminant is a miss; otherwise the smaller quadratic root is taken if
/// it lies in the open interval, else the larger, else it is a miss.
pub open spec fn sphere_hit_t(center: V3, radius: int, ray: RayV, t_min: int, t_max: int) -> Option<
    int,
> {
    let oc = ray.orig.sub(center);
    let a = ray.dir.length_squared();
    let half_b = V3::dot(oc, ray.dir);
    let discriminant = sphere_discriminant(center, radius, ray);
    if discriminant < 0 {
        Option::None
    } else {
        let sqrtd = fx_sqrt(discriminant);
        let root1 = fx_div(fx_sub(fx_neg(half_b), sqrtd), a);
        if t_min < root1 < t_max {
            Option::Some(root1)
        } else {
            let root2 = fx_div(fx_add(fx_neg(half_b), sqrtd), a);
            if t_min < root2 < t_max {
                Option::Some(root2)
            } else {
                Option::None
            }
        }
    }
}

/// The full record a sphere reports for an accepted parameter `t`: the hit
/// point, the outward normal `(p - center) / radius` oriented against the
/// ray, and the sphere's material.
pub open spec fn sphere_hit_rec(
    center: V3,
    radius: int,
    material: AnyMaterial,
    ray: RayV,
    t_min: int,
    t_max: int,
) -> Option<HitRecV> {
    match sphere_hit_t(center, radius, ray, t_min, t_max) {
        Option::Some(t) => {
            let p = ray.at(t);
            let outward = p.sub(center).sdiv(radius);
            Option::Some(
                HitRecV {
                    p,
                    normal: oriented_normal(ray.dir, outward),
                    t,
                    front_face: faces_front(ray.dir, outward),
                    material,
                },
            )
        },
        Option::None => Option::None,
    }
}

/// A ray whose discriminant against a sphere is negative misses it: no
/// interval ever yields a hit.
pub proof fn lemma_negative_discriminant_misses(
    center: V3,
    radius: int,
    ray: RayV,
    t_min: int,
    t_max: int,
)
    requires
        sphere_discriminant(center, radius, ray) < 0,
    ensures
        sphere_hit_t(center, radius, ray, t_min, t_max) is None,
        forall|m: AnyMaterial|
            #[trigger] sphere_hit_rec(center, radius, m, ray, t_min, t_max) is None,
{
}

/// An accepted intersection parameter lies strictly inside the interval.
pub proof fn lemma_sphere_hit_t_bounds(center: V3, radius: int, ray: RayV, t_min: int, t_max: int)
    ensures
        match sphere_hit_t(center, radius, ray, t_min, t_max) {
            Option::Some(t) => t_min < t < t_max,
            Option::None => true,
        },
{
}

/// Narrowing the upper bound of the interval keeps exactly the hits whose
/// parameter lies below the new bound: the reported roots do not depend on
/// the interval, only their acceptance does.
pub proof fn lemma_sphere_hit_narrow(
    center: V3,
    radius: int,
    ray: RayV,
    t_min: int,
    mid: int,
    t_max: int,
)
    requires
        mid <= t_max,
    ensures
        match sphere_hit_t(center, radius, ray, t_min, t_max) {
            Option::Some(t) => sphere_hit_t(center, radius, ray, t_min, mid) == if t < mid {
                Option::Some(t)
            } else {
                Option::None::<int>
            },
            Option::None => sphere_hit_t(center, radius, ray, t_min, mid) is None,
        },
{
    let oc = ray.orig.sub(center);
    let a = ray.dir.length_squared();
    let half_b = V3::dot(oc, ray.dir);
    let c = fx_sub(oc.length_squared(), fx_mul(radius, radius));
    let discriminant = fx_sub(fx_mul(half_b, half_b), fx_mul(a, c));
    crate::vec3::lemma_length_squared_nonneg(ray.dir);
    if discriminant >= 0 {
        let sqrtd = fx_sqrt(discriminant);
        let n1 = fx_sub(fx_neg(half_b), sqrtd);
        let n2 = fx_add(fx_neg(half_b), sqrtd);
        assert(sqrtd >= 0);
        assert(n1 <= n2);
        crate::fixed::lemma_fx_div_monotone(n1, n2, a);
    }
}

impl Sphere {
    /// Closed-form ray-sphere intersection within the open interval
    /// `(t_min, t_max)`.  On a hit the record is filled and `true`
    /// returned; on a miss the record is left untouched.
    pub fn hit(&self, r: Ray, t_min: Fx, t_max: Fx, rec: &mut hit_record) -> (res: bool)
        ensures
            match sphere_hit_rec(
                self.center@,
                self.radius.raw as int,
                self.material,
                r@,
                t_min.raw as int,
                t_max.raw as int,
            ) {
                Option::Some(h) => res && final(rec)@ == h,
                Option::None => !res && *final(rec) == *old(rec),
            },
    {
        let oc = r.orig.sub(self.center);
        let a = r.dir.length_squared();
        let half_b = dot(oc, r.dir);
        let c = oc.length_squared().sub(self.radius.mul(self.radius));
        let discriminant = half_b.mul(half_b).sub(a.mul(c));
        if discriminant.raw < 0 {
            return false;
        }
        let sqrtd = discriminant.sqrt();

        let mut root = half_b.neg().sub(sqrtd).div(a);
        if root.raw <= t_min.raw || t_max.raw <= root.raw {
            root = half_b.neg().add(sqrtd).div(a);
            if root.raw <= t_min.raw || t_max.raw <= root.raw {
                return false;
            }
        }

        rec.t = root;
        rec.p = r.at(root);
        let outward_normal = rec.p.sub(self.center).div(self.radius);
        rec.set_face_normal(r, outward_normal);
        rec.material = self.material;

        true
    }
}

} // verus!
