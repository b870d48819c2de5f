//! The hit record, the surface capability, and the surface registry.

use vstd::prelude::*;
use crate::fixed::Fx;
use crate::material::AnyMaterial;
use crate::material::Lambertian;
use crate::ray::Ray;
use crate::ray::RayV;
use crate::sphere::sphere_hit_rec;
use crate::sphere::Sphere;
use crate::vec3::Color;
use crate::vec3::Point3;
use crate::vec3::V3;
use crate::vec3::Vec3;
use crate::vec3::dot;

verus! {

/// The mathematical model of a hit: point, oriented normal, parameter,
/// face orientation, and the struck surface's material.
pub ghost struct HitRecV {
    pub p: V3,
    pub normal: V3,
    pub t: int,
    pub front_face: bool,
    pub material: AnyMaterial,
}

/// Whether an outward normal opposes the incoming ray direction.
pub open spec fn faces_front(ray_dir: V3, outward: V3) -> bool {
    V3::dot(ray_dir, outward) < 0
}

/// The stored normal: the outward normal when it opposes the ray, else its
/// negation, so that it always faces the incoming ray.
pub open spec fn oriented_normal(ray_dir: V3, outward: V3) -> V3 {
    if faces_front(ray_dir, outward) {
        outward
    } else {
        outward.neg()
    }
}

/// The result of a successful intersection.
#[allow(non_camel_case_types)]
#[derive(Debug, Clone, Copy, PartialEq, Eq, Structural)]
pub struct hit_record {
    pub p: Point3,
    pub normal: Vec3,
    pub t: Fx,
    pub front_face: bool,
    pub material: AnyMaterial,
}

impl View for hit_record {
    type V = HitRecV;

    open spec fn view(&self) -> HitRecV {
        HitRecV {
            p: self.p@,
            normal: self.normal@,
            t: self.t.raw as int,
            front_face: self.front_face,
            material: self.material,
        }
    }
}

impl hit_record {
    /// Orient and store the normal so it opposes the incoming ray, and
    /// record on which face the ray struck.
    pub fn set_face_normal(&mut self, r: Ray, outward_normal: Vec3)
        ensures
            final(self).p == old(self).p,
            final(self).t == old(self).t,
            final(self).material == old(self).material,
            final(self).front_face == faces_front(r.dir@, outward_normal@),
            final(self).normal@ == oriented_normal(r.dir@, outward_normal@),
    {
        let front_face = dot(r.dir, outward_normal).raw < 0;
        self.front_face = front_face;
        self.normal = if front_face {
            outward_normal
        } else {
            outward_normal.neg()
        };
    }
}

/// The closed set of surfaces a scene can hold.
#[derive(Debug, Clone, Copy, PartialEq, Eq, Structural)]
pub enum Surface {
    Sphere(Sphere),
}

/// The hit this surface reports for a ray within the open parameter
/// interval `(t_min, t_max)`.
#[verifier::opaque]
pub open spec fn surface_hit_rec(s: Surface, ray: RayV, t_min: int, t_max: int) -> Option<
    HitRecV,
> {
    match s {
        Surface::Sphere(sp) => sphere_hit_rec(
            sp.center@,
            sp.radius.raw as int,
            sp.material,
            ray,
            t_min,
            t_max,
        ),
    }
}

impl Surface {
    /// Try to intersect the ray within the open interval `(t_min, t_max)`.
    /// On success the record is filled and `true` returned; on failure the
    /// record is left untouched.
    pub fn hit(&self, r: Ray, t_min: Fx, t_max: Fx, rec: &mut hit_record) -> (res: bool)
        ensures
            match surface_hit_rec(*self, r@, t_min.raw as int, t_max.raw as int) {
                Option::Some(h) => res && final(rec)@ == h,
                Option::None => !res && *final(rec) == *old(rec),
            },
    {
        proof {
            reveal(surface_hit_rec);
        }
        match self {
            Surface::Sphere(sp) => sp.hit(r, t_min, t_max, rec),
        }
    }
}

/// Scan the remaining surfaces, keeping the closest hit seen so far:
/// `cur_max` narrows to each accepted hit's parameter, so only strictly
/// closer hits replace the accumulator.
pub open spec fn scan_hits(
    objs: Seq<Surface>,
    ray: RayV,
    t_min: int,
    cur_max: int,
    acc: Option<HitRecV>,
) -> Option<HitRecV>
    decreases objs.len(),
{
    if objs.len() == 0 {
        acc
    } else {
        match surface_hit_rec(objs[0], ray, t_min, cur_max) {
            Option::Some(h) => scan_hits(
                objs.subrange(1, objs.len() as int),
                ray,
                t_min,
                h.t,
                Option::Some(h),
            ),
            Option::None => scan_hits(objs.subrange(1, objs.len() as int), ray, t_min, cur_max, acc),
        }
    }
}

/// The closest hit a list of surfaces reports within `(t_min, t_max)`.
pub open spec fn list_hit(objs: Seq<Surface>, ray: RayV, t_min: int, t_max: int) -> Option<
    HitRecV,
> {
    scan_hits(objs, ray, t_min, t_max, Option::None)
}

/// `res` is a hit at least as close as `g`.
pub open spec fn hit_at_most(res: Option<HitRecV>, g: HitRecV) -> bool {
    match res {
        Option::Some(h) => h.t <= g.t,
        Option::None => false,
    }
}

/// Narrowing the interval's upper bound keeps exactly the hits whose
/// parameter lies below the new bound.
proof fn lemma_surface_hit_narrow(s: Surface, ray: RayV, t_min: int, mid: int, t_max: int)
    requires
        mid <= t_max,
    ensures
        match surface_hit_rec(s, ray, t_min, t_max) {
            Option::Some(h) => surface_hit_rec(s, ray, t_min, mid) == if h.t < mid {
                Option::Some(h)
            } else {
                Option::None::<HitRecV>
            },
            Option::None => surface_hit_rec(s, ray, t_min, mid) is None,
        },
{
    reveal(surface_hit_rec);
    match s {
        Surface::Sphere(sp) => {
            crate::sphere::lemma_sphere_hit_narrow(
                sp.center@,
                sp.radius.raw as int,
                ray,
                t_min,
                mid,
                t_max,
            );
        },
    }
}

/// An accepted hit's parameter lies strictly inside the interval.
proof fn lemma_surface_hit_bounds(s: Surface, ray: RayV, t_min: int, t_max: int)
    ensures
        match surface_hit_rec(s, ray, t_min, t_max) {
            Option::Some(h) => t_min < h.t < t_max,
            Option::None => true,
        },
{
    reveal(surface_hit_rec);
    match s {
        Surface::Sphere(sp) => {
            crate::sphere::lemma_sphere_hit_t_bounds(
                sp.center@,
                sp.radius.raw as int,
                ray,
                t_min,
                t_max,
            );
        },
    }
}

/// `objs[i]` reports exactly `res` over `(t_min, cur_max)`, and every
/// earlier member reports either nothing or a strictly farther hit: `i` is
/// the first member attaining the minimal parameter.
pub open spec fn first_winner(
    objs: Seq<Surface>,
    ray: RayV,
    t_min: int,
    cur_max: int,
    res: Option<HitRecV>,
    i: int,
) -> bool {
    &&& 0 <= i < objs.len()
    &&& surface_hit_rec(objs[i], ray, t_min, cur_max) == res
    &&& forall|j: int|
        0 <= j < i ==> match #[trigger] surface_hit_rec(objs[j], ray, t_min, cur_max) {
            Option::Some(g) => match res {
                Option::Some(h) => g.t > h.t,
                Option::None => false,
            },
            Option::None => true,
        }
}

/// A result at least as close as every hit under a narrowed interval, and
/// itself below the narrowed bound, is at least as close as every hit under
/// the wide interval.
proof fn lemma_at_most_lift(
    s: Surface,
    ray: RayV,
    t_min: int,
    mid: int,
    cur_max: int,
    res: Option<HitRecV>,
)
    requires
        mid <= cur_max,
        match res {
            Option::Some(h) => h.t <= mid,
            Option::None => false,
        },
        match surface_hit_rec(s, ray, t_min, mid) {
            Option::Some(g) => hit_at_most(res, g),
            Option::None => true,
        },
    ensures
        match surface_hit_rec(s, ray, t_min, cur_max) {
            Option::Some(g) => hit_at_most(res, g),
            Option::None => true,
        },
{
    lemma_surface_hit_narrow(s, ray, t_min, mid, cur_max);
}

/// What a scan yields: its accumulator, or an actual hit of one of the
/// surfaces over the whole current interval, and in either case a result at
/// least as close as every such hit.
#[verifier::rlimit(100)]
proof fn lemma_scan_closest(
    objs: Seq<Surface>,
    ray: RayV,
    t_min: int,
    acc: Option<HitRecV>,
    cur_max: int,
)
    requires
        match acc {
            Option::Some(a) => a.t == cur_max,
            Option::None => true,
        },
    ensures
        ({
            let res = scan_hits(objs, ray, t_min, cur_max, acc);
            &&& (res == acc || exists|i: int| first_winner(objs, ray, t_min, cur_max, res, i))
            &&& (forall|i: int|
                0 <= i < objs.len() ==> match #[trigger] surface_hit_rec(objs[i], ray, t_min, cur_max) {
                    Option::Some(g) => hit_at_most(res, g),
                    Option::None => true,
                })
            &&& (res != acc ==> match res {
                Option::Some(h) => t_min < h.t < cur_max,
                Option::None => false,
            })
        }),
    decreases objs.len(), 1int,
{
    let res = scan_hits(objs, ray, t_min, cur_max, acc);
    if objs.len() == 0 {
    } else {
        let rest = objs.subrange(1, objs.len() as int);
        assert(forall|j: int| 0 <= j < rest.len() ==> rest[j] == objs[j + 1]);
        match surface_hit_rec(objs[0], ray, t_min, cur_max) {
            Option::None => {
                lemma_scan_closest(rest, ray, t_min, acc, cur_max);
                if res != acc {
                    let j = choose|j: int| first_winner(rest, ray, t_min, cur_max, res, j);
                    assert(surface_hit_rec(objs[j + 1], ray, t_min, cur_max) == res);
                    assert forall|jj: int|
                        0 <= jj < j + 1 implies match #[trigger] surface_hit_rec(
                        objs[jj],
                        ray,
                        t_min,
                        cur_max,
                    ) {
                        Option::Some(g) => match res {
                            Option::Some(h) => g.t > h.t,
                            Option::None => false,
                        },
                        Option::None => true,
                    } by {
                        if jj > 0 {
                            assert(rest[jj - 1] == objs[jj]);
                            assert(surface_hit_rec(rest[jj - 1], ray, t_min, cur_max)
                                == surface_hit_rec(objs[jj], ray, t_min, cur_max));
                        }
                    }
                    assert(first_winner(objs, ray, t_min, cur_max, res, j + 1));
                }
                assert forall|i: int|
                    0 <= i < objs.len() implies match #[trigger] surface_hit_rec(
                    objs[i],
                    ray,
                    t_min,
                    cur_max,
                ) {
                    Option::Some(g) => hit_at_most(res, g),
                    Option::None => true,
                } by {
                    if i > 0 {
                        assert(rest[i - 1] == objs[i]);
                        assert(surface_hit_rec(rest[i - 1], ray, t_min, cur_max)
                            == surface_hit_rec(objs[i], ray, t_min, cur_max));
                    }
                }
            },
            Option::Some(h0) => {
                lemma_scan_closest_found(objs, ray, t_min, acc, cur_max, h0);
            },
        }
    }
}

/// The scan step once the first surface has reported a hit `h0`: the rest
/// of the scan runs under the interval narrowed to `h0.t`, with `h0` as the
/// accumulator.
#[verifier::rlimit(100)]
proof fn lemma_scan_closest_found(
    objs: Seq<Surface>,
    ray: RayV,
    t_min: int,
    acc: Option<HitRecV>,
    cur_max: int,
    h0: HitRecV,
)
    requires
        objs.len() > 0,
        surface_hit_rec(objs[0], ray, t_min, cur_max) == Option::Some(h0),
    ensures
        ({
            let res = scan_hits(objs, ray, t_min, cur_max, acc);
            &&& (exists|i: int| first_winner(objs, ray, t_min, cur_max, res, i))
            &&& (forall|i: int|
                0 <= i < objs.len() ==> match #[trigger] surface_hit_rec(objs[i], ray, t_min, cur_max) {
                    Option::Some(g) => hit_at_most(res, g),
                    Option::None => true,
                })
            &&& (match res {
                Option::Some(h) => t_min < h.t < cur_max,
                Option::None => false,
            })
        }),
    decreases objs.len(), 0int,
{
    let res = scan_hits(objs, ray, t_min, cur_max, acc);
    let rest = objs.subrange(1, objs.len() as int);
    assert(forall|j: int| 0 <= j < rest.len() ==> rest[j] == objs[j + 1]);
    lemma_surface_hit_bounds(objs[0], ray, t_min, cur_max);
    lemma_scan_closest(rest, ray, t_min, Option::Some(h0), h0.t);
    let narrowed = scan_hits(rest, ray, t_min, h0.t, Option::Some(h0));
    assert(res == narrowed);
    let h = match res {
        Option::Some(h) => h,
        Option::None => proof_from_false(),
    };
    assert(h.t <= h0.t);
    if res == Option::Some(h0) {
        assert(first_winner(objs, ray, t_min, cur_max, res, 0));
    } else {
        assert(h.t < h0.t);
        let j = choose|j: int| first_winner(rest, ray, t_min, h0.t, res, j);
        lemma_surface_hit_narrow(rest[j], ray, t_min, h0.t, cur_max);
        assert(surface_hit_rec(rest[j], ray, t_min, cur_max) == res);
        assert(surface_hit_rec(objs[j + 1], ray, t_min, cur_max) == res);
        assert forall|jj: int|
            0 <= jj < j + 1 implies match #[trigger] surface_hit_rec(
            objs[jj],
            ray,
            t_min,
            cur_max,
        ) {
            Option::Some(g) => g.t > h.t,
            Option::None => true,
        } by {
            if jj > 0 {
                assert(rest[jj - 1] == objs[jj]);
                assert(surface_hit_rec(rest[jj - 1], ray, t_min, h0.t) == surface_hit_rec(
                    objs[jj],
                    ray,
                    t_min,
                    h0.t,
                ));
                lemma_surface_hit_narrow(objs[jj], ray, t_min, h0.t, cur_max);
            }
        }
        assert(first_winner(objs, ray, t_min, cur_max, res, j + 1));
    }
    assert forall|i: int|
        0 <= i < objs.len() implies match #[trigger] surface_hit_rec(
        objs[i],
        ray,
        t_min,
        cur_max,
    ) {
        Option::Some(g) => hit_at_most(res, g),
        Option::None => true,
    } by {
        if i > 0 {
            assert(rest[i - 1] == objs[i]);
            assert(surface_hit_rec(rest[i - 1], ray, t_min, h0.t) == surface_hit_rec(
                objs[i],
                ray,
                t_min,
                h0.t,
            ));
            lemma_at_most_lift(objs[i], ray, t_min, h0.t, cur_max, res);
        }
    }
}

/// The closest-surface law: when the registry reports a hit, that hit is
/// exactly what one of its members reports alone over the full interval,
/// no member alone reports a strictly closer hit, and the reporting member
/// is the first one attaining the minimal parameter; when the registry
/// reports none, no member reports any.
pub proof fn lemma_list_hit_closest(objs: Seq<Surface>, ray: RayV, t_min: int, t_max: int)
    ensures
        match list_hit(objs, ray, t_min, t_max) {
            Option::Some(h) => (exists|i: int|
                first_winner(objs, ray, t_min, t_max, Option::Some(h), i)) && (forall|i: int|
                0 <= i < objs.len() ==> match #[trigger] surface_hit_rec(objs[i], ray, t_min, t_max) {
                    Option::Some(g) => h.t <= g.t,
                    Option::None => true,
                }),
            Option::None => forall|i: int|
                0 <= i < objs.len() ==> #[trigger] surface_hit_rec(objs[i], ray, t_min, t_max) is None,
        },
{
    lemma_scan_closest(objs, ray, t_min, Option::None, t_max);
}

/// An ordered collection of surfaces, reporting the globally closest hit.
#[allow(non_camel_case_types)]
pub struct hittable_list {
    pub objects: Vec<Surface>,
}

#[allow(non_camel_case_types)]
impl hittable_list {
    /// Append a surface to the registry.
    pub fn add(&mut self, object: Surface)
        ensures
            final(self).objects@ == old(self).objects@.push(object),
    {
        self.objects.push(object)
    }

    /// The closest hit across all members within `(t_min, t_max)`: each
    /// member is probed with the interval narrowed to the closest parameter
    /// seen so far, so the first surface at the minimal parameter wins.
    pub fn hit(&self, r: Ray, t_min: Fx, t_max: Fx, rec: &mut hit_record) -> (res: bool)
        ensures
            match list_hit(self.objects@, r@, t_min.raw as int, t_max.raw as int) {
                Option::Some(h) => res && final(rec)@ == h,
                Option::None => !res && *final(rec) == *old(rec),
            },
    {
        let ghost full = list_hit(self.objects@, r@, t_min.raw as int, t_max.raw as int);
        let mut temp_rec = hit_record {
            p: Vec3::origin(),
            normal: Vec3::origin(),
            t: t_max,
            front_face: false,
            material: AnyMaterial::Lambertian(Lambertian { albedo: Color::origin() }),
        };
        let mut hit_anything = false;
        let mut closest_so_far = t_max;
        let n = self.objects.len();
        let mut idx: usize = 0;
        proof {
            assert(self.objects@.subrange(0, n as int) =~= self.objects@);
        }
        while idx < n
            invariant
                n == self.objects@.len(),
                idx <= n,
                hit_anything ==> closest_so_far.raw as int == temp_rec@.t,
                !hit_anything ==> closest_so_far == t_max,
                scan_hits(
                    self.objects@.subrange(idx as int, n as int),
                    r@,
                    t_min.raw as int,
                    closest_so_far.raw as int,
                    if hit_anything {
                        Option::Some(temp_rec@)
                    } else {
                        Option::None
                    },
                ) == full,
            decreases n - idx,
        {
            let ghost rest = self.objects@.subrange(idx as int, n as int);
            proof {
                assert(rest[0] == self.objects@[idx as int]);
                assert(rest.subrange(1, rest.len() as int) =~= self.objects@.subrange(
                    idx as int + 1,
                    n as int,
                ));
            }
            let object = self.objects[idx];
            if object.hit(r, t_min, closest_so_far, &mut temp_rec) {
                hit_anything = true;
                closest_so_far = temp_rec.t;
            }
            idx = idx + 1;
        }
        if hit_anything {
            *rec = temp_rec;
            true
        } else {
            false
        }
    }
}

} // verus!
