//! Materials: how a surface scatters an incoming ray.

use vstd::prelude::*;
use crate::hittable::hit_record;
use crate::ray::Ray;
use crate::ray::RayV;
use crate::rng::Sampler;
use crate::vec3::is_sampled_unit;
use crate::vec3::random_unit_vector;
use crate::vec3::reflect;
use crate::vec3::unit_vector;
use crate::vec3::Color;
use crate::vec3::V3;
use crate::vec3::dot;

verus! {

/// A diffuse surface: bounces toward the normal plus a random unit vector.
#[derive(Debug, Clone, Copy, PartialEq, Eq, Structural)]
pub struct Lambertian {
    pub albedo: Color,
}

/// A reflective surface: mirrors the incoming direction across the normal.
#[derive(Debug, Clone, Copy, PartialEq, Eq, Structural)]
pub struct Metal {
    pub albedo: Color,
}

/// A bright diffuse surface.  It scatters exactly as `Lambertian` does and
/// contributes through its albedo alone: it adds no emission term.
#[derive(Debug, Clone, Copy, PartialEq, Eq, Structural)]
pub struct Light {
    pub albedo: Color,
}

/// The closed set of materials a surface can carry.
#[derive(Debug, Clone, Copy, PartialEq, Eq, Structural)]
pub enum AnyMaterial {
    Metal(Metal),
    Lambertian(Lambertian),
    Light(Light),
}

/// The diffuse bounce direction: the normal plus a unit sample, falling
/// back to the bare normal when the sum is too short to normalize.
pub open spec fn lambertian_dir(normal: V3, u: V3) -> V3 {
    let c = normal.add(u);
    if c.near_zero() {
        normal
    } else {
        c
    }
}

impl AnyMaterial {
    /// Scatter an incoming ray at a hit.  Diffuse variants always scatter;
    /// metal reflects, and absorbs the ray (returns false) when the
    /// reflection does not leave on the normal's side.  The outgoing ray
    /// starts at the hit point and the attenuation is the albedo, whatever
    /// direction the sampler led to.
    pub fn scatter(
        &self,
        r_in: Ray,
        rec: &hit_record,
        attenuation: &mut Color,
        scattered: &mut Ray,
        s: &mut Sampler,
    ) -> (r: bool)
        ensures
            match *self {
                AnyMaterial::Lambertian(l) => r && final(attenuation)@ == l.albedo@
                    && final(scattered).orig@ == rec.p@ && (exists|u: V3|
                    is_sampled_unit(u) && final(scattered).dir@ == lambertian_dir(rec.normal@, u)),
                AnyMaterial::Light(l) => r && final(attenuation)@ == l.albedo@
                    && final(scattered).orig@ == rec.p@ && (exists|u: V3|
                    is_sampled_unit(u) && final(scattered).dir@ == lambertian_dir(rec.normal@, u)),
                AnyMaterial::Metal(m) => r == (V3::dot(
                    V3::reflect(r_in.dir@.unit(), rec.normal@),
                    rec.normal@,
                ) > 0) && final(attenuation)@ == m.albedo@ && final(scattered)@ == (RayV {
                    orig: rec.p@,
                    dir: V3::reflect(r_in.dir@.unit(), rec.normal@),
                }),
            },
    {
        match self {
            AnyMaterial::Lambertian(lambertian) => {
                let uv = random_unit_vector(s);
                let mut scatter_direction = rec.normal.add(uv);
                if scatter_direction.near_zero() {
                    scatter_direction = rec.normal;
                }
                proof {
                    assert(is_sampled_unit(uv@) && scatter_direction@ == lambertian_dir(
                        rec.normal@,
                        uv@,
                    ));
                }
                *scattered = Ray { orig: rec.p, dir: scatter_direction };
                *attenuation = lambertian.albedo;
                true
            },
            AnyMaterial::Metal(metal) => {
                let reflected = reflect(unit_vector(r_in.dir), rec.normal);
                *scattered = Ray { orig: rec.p, dir: reflected };
                *attenuation = metal.albedo;
                dot(scattered.dir, rec.normal).raw > 0
            },
            AnyMaterial::Light(light) => {
                let uv = random_unit_vector(s);
                let mut scatter_direction = rec.normal.add(uv);
                if scatter_direction.near_zero() {
                    scatter_direction = rec.normal;
                }
                proof {
                    assert(is_sampled_unit(uv@) && scatter_direction@ == lambertian_dir(
                        rec.normal@,
                        uv@,
                    ));
                }
                *scattered = Ray { orig: rec.p, dir: scatter_direction };
                *attenuation = light.albedo;
                true
            },
        }
    }
}

} // verus!
