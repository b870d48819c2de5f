//! A Monte Carlo ray tracer over saturating fixed-point arithmetic.
//!
//! A scene of spheres is rendered into a row-major RGBA byte buffer: for
//! every pixel a number of jittered camera rays are traced through
//! recursive material bounces, and the averaged radiance is gamma-corrected
//! and quantized to bytes.

use vstd::prelude::*;

pub mod camera;
pub mod fixed;
pub mod hittable;
pub mod material;
pub mod ray;
pub mod rng;
pub mod sphere;
pub mod vec3;

use crate::camera::camera_ray;
use crate::camera::fx_from_u32;
use crate::camera::is_camera_for;
use crate::camera::Camera;
use crate::fixed::clamp_val;
use crate::fixed::fx_add;
use crate::fixed::fx_div;
use crate::fixed::fx_mul;
use crate::fixed::fx_sqrt;
use crate::fixed::fx_sub;
use crate::fixed::Fx;
use crate::fixed::FX_SCALE;
use crate::hittable::hit_record;
use crate::hittable::hittable_list;
use crate::hittable::list_hit;
use crate::hittable::HitRecV;
use crate::hittable::Surface;
use crate::material::lambertian_dir;
use crate::material::AnyMaterial;
use crate::material::Lambertian;
use crate::ray::Ray;
use crate::ray::RayV;
use crate::rng::Sampler;
use crate::vec3::is_sampled_unit;
use crate::vec3::unit_vector;
use crate::vec3::Color;
use crate::vec3::Point3;
use crate::vec3::V3;
use crate::vec3::Vec3;

verus! {

/// Lower bound of the top-level intersection interval, about 0.001: hits
/// closer than this to the ray's own origin are ignored to avoid immediate
/// self-intersection.
pub const T_MIN_RAW: i64 = 66;

/// Upper bound of the top-level intersection interval: ten million world
/// units.
pub const T_MAX_RAW: i64 = 655360000000;

/// Black: the color of an exhausted or absorbed ray.
pub open spec fn black() -> V3 {
    V3 { x: 0, y: 0, z: 0 }
}

/// The background gradient: white blended toward sky blue by the height of
/// the ray's unit direction.
#[verifier::opaque]
pub open spec fn background_color(ray: RayV) -> V3 {
    let ud = ray.dir.unit();
    let t = fx_mul(32768, fx_add(ud.y, FX_SCALE as int));
    (V3 { x: FX_SCALE as int, y: FX_SCALE as int, z: FX_SCALE as int }).scale(
        fx_sub(FX_SCALE as int, t),
    ).add((V3 { x: 32768, y: 45875, z: FX_SCALE as int }).scale(t))
}

/// The background gradient is a convex blend of white and sky blue: for a
/// ray whose unit direction's vertical component lies in `[-1, 1]` (every
/// direction of ordinary size), each channel of the background lies in
/// `[0, 1]`.
pub proof fn lemma_background_in_unit_range(ray: RayV)
    requires
        -(FX_SCALE as int) <= ray.dir.unit().y <= FX_SCALE as int,
    ensures
        0 <= background_color(ray).x <= FX_SCALE as int,
        0 <= background_color(ray).y <= FX_SCALE as int,
        0 <= background_color(ray).z <= FX_SCALE as int,
{
    reveal(background_color);
    let s = FX_SCALE as int;
    let y = ray.dir.unit().y;
    let m = fx_add(y, s);
    assert(0 <= m <= 2 * s);
    let t = fx_mul(32768, m);
    assert(32768 * m >= 0);
    assert(32768 * m <= s * s);
    vstd::arithmetic::div_mod::lemma_div_pos_is_pos(32768 * m, s);
    vstd::arithmetic::div_mod::lemma_div_is_ordered(32768 * m, s * s, s);
    vstd::arithmetic::div_mod::lemma_div_multiples_vanish(s, s);
    assert(0 <= t <= s);
    let w = fx_sub(s, t);
    assert(0 <= w <= s);
    assert(s * w >= 0);
    vstd::arithmetic::div_mod::lemma_div_multiples_vanish(w, s);
    assert(fx_mul(s, w) == w);
    crate::fixed::lemma_fx_mul_unit_range(32768, t);
    crate::fixed::lemma_fx_mul_unit_range(45875, t);
    crate::fixed::lemma_fx_mul_unit_range(s, t);
}

/// `c` is a radiance the integrator can return for this ray at this depth:
/// black at an exhausted budget, the background gradient on a miss, and on
/// a hit the material's albedo tinting a radiance reachable for an
/// admissible scattered ray one level down (black where metal absorbs the
/// ray).  The sampler's draws are existential: for a diffuse bounce any
/// unit sample is admissible, and the scattered ray is pinned to the one
/// that sample induces.
pub open spec fn possible_radiance(objs: Seq<Surface>, ray: RayV, depth: nat, c: V3) -> bool
    decreases depth,
{
    if depth == 0 {
        c == black()
    } else {
        match list_hit(objs, ray, T_MIN_RAW as int, T_MAX_RAW as int) {
            Option::None => c == background_color(ray),
            Option::Some(h) => match h.material {
                AnyMaterial::Metal(m) => {
                    let refl = V3::reflect(ray.dir.unit(), h.normal);
                    if V3::dot(refl, h.normal) > 0 {
                        exists|g: V3|
                            possible_radiance(
                                objs,
                                RayV { orig: h.p, dir: refl },
                                (depth - 1) as nat,
                                g,
                            ) && c == m.albedo@.cmul(g)
                    } else {
                        c == black()
                    }
                },
                AnyMaterial::Lambertian(l) => exists|u: V3, g: V3|
                    is_sampled_unit(u) && possible_radiance(
                        objs,
                        RayV { orig: h.p, dir: lambertian_dir(h.normal, u) },
                        (depth - 1) as nat,
                        g,
                    ) && c == l.albedo@.cmul(g),
                AnyMaterial::Light(l) => exists|u: V3, g: V3|
                    is_sampled_unit(u) && possible_radiance(
                        objs,
                        RayV { orig: h.p, dir: lambertian_dir(h.normal, u) },
                        (depth - 1) as nat,
                        g,
                    ) && c == l.albedo@.cmul(g),
            },
        }
    }
}

/// An exhausted budget yields black.
proof fn lemma_radiance_exhausted(objs: Seq<Surface>, ray: RayV, c: V3)
    requires
        c == black(),
    ensures
        possible_radiance(objs, ray, 0, c),
{
}

/// A miss yields the background gradient.
proof fn lemma_radiance_miss(objs: Seq<Surface>, ray: RayV, depth: nat, c: V3)
    requires
        depth > 0,
        list_hit(objs, ray, T_MIN_RAW as int, T_MAX_RAW as int) is None,
        c == background_color(ray),
    ensures
        possible_radiance(objs, ray, depth, c),
{
}

/// A diffuse hit tints a radiance of the induced bounce ray.
proof fn lemma_radiance_diffuse(
    objs: Seq<Surface>,
    ray: RayV,
    depth: nat,
    h: HitRecV,
    albedo: V3,
    u: V3,
    g: V3,
    c: V3,
)
    requires
        depth > 0,
        list_hit(objs, ray, T_MIN_RAW as int, T_MAX_RAW as int) == Option::Some(h),
        match h.material {
            AnyMaterial::Lambertian(l) => albedo == l.albedo@,
            AnyMaterial::Light(l) => albedo == l.albedo@,
            AnyMaterial::Metal(m) => false,
        },
        is_sampled_unit(u),
        possible_radiance(
            objs,
            RayV { orig: h.p, dir: lambertian_dir(h.normal, u) },
            (depth - 1) as nat,
            g,
        ),
        c == albedo.cmul(g),
    ensures
        possible_radiance(objs, ray, depth, c),
{
    match h.material {
        AnyMaterial::Lambertian(l) => {
            assert(exists|uu: V3, gg: V3|
                is_sampled_unit(uu) && #[trigger] possible_radiance(
                    objs,
                    RayV { orig: h.p, dir: lambertian_dir(h.normal, uu) },
                    (depth - 1) as nat,
                    gg,
                ) && c == l.albedo@.cmul(gg));
        },
        AnyMaterial::Light(l) => {
            assert(exists|uu: V3, gg: V3|
                is_sampled_unit(uu) && #[trigger] possible_radiance(
                    objs,
                    RayV { orig: h.p, dir: lambertian_dir(h.normal, uu) },
                    (depth - 1) as nat,
                    gg,
                ) && c == l.albedo@.cmul(gg));
        },
        AnyMaterial::Metal(m) => {},
    }
}

/// A metal hit whose reflection leaves the surface tints a radiance of the
/// reflected ray; one whose reflection does not is absorbed to black.
proof fn lemma_radiance_metal(
    objs: Seq<Surface>,
    ray: RayV,
    depth: nat,
    h: HitRecV,
    g: V3,
    c: V3,
)
    requires
        depth > 0,
        list_hit(objs, ray, T_MIN_RAW as int, T_MAX_RAW as int) == Option::Some(h),
        h.material is Metal,
        ({
            let refl = V3::reflect(ray.dir.unit(), h.normal);
            if V3::dot(refl, h.normal) > 0 {
                possible_radiance(objs, RayV { orig: h.p, dir: refl }, (depth - 1) as nat, g)
                    && c == h.material->Metal_0.albedo@.cmul(g)
            } else {
                c == black()
            }
        }),
    ensures
        possible_radiance(objs, ray, depth, c),
{
    let refl = V3::reflect(ray.dir.unit(), h.normal);
    if V3::dot(refl, h.normal) > 0 {
        assert(exists|gg: V3|
            #[trigger] possible_radiance(
                objs,
                RayV { orig: h.p, dir: refl },
                (depth - 1) as nat,
                gg,
            ) && c == h.material->Metal_0.albedo@.cmul(gg));
    }
}

/// The radiance carried back along a ray.
///
/// An exhausted recursion budget yields black; a miss yields the background
/// gradient; a hit yields the material's attenuation tinting the bounced
/// radiance, or black when the material absorbs the ray.
pub fn ray_color(ray: Ray, world: &hittable_list, depth: u32, s: &mut Sampler) -> (c: Vec3)
    ensures
        possible_radiance(world.objects@, ray@, depth as nat, c@),
        depth == 0 ==> c@ == black(),
        depth > 0 && list_hit(world.objects@, ray@, T_MIN_RAW as int, T_MAX_RAW as int) is None
            ==> c@ == background_color(ray@),
    decreases depth,
{
    if depth == 0 {
        let black_out = Vec3::origin();
        proof {
            lemma_radiance_exhausted(world.objects@, ray@, black_out@);
        }
        return black_out;
    }
    let mut rec = hit_record {
        p: Point3::origin(),
        normal: Vec3::origin(),
        t: Fx { raw: 0 },
        front_face: false,
        material: AnyMaterial::Lambertian(Lambertian { albedo: Color::origin() }),
    };
    if world.hit(ray, Fx { raw: T_MIN_RAW }, Fx { raw: T_MAX_RAW }, &mut rec) {
        let mut scattered = Ray { orig: Vec3::origin(), dir: Vec3::origin() };
        let mut attenuation = Color::origin();
        if rec.material.scatter(ray, &rec, &mut attenuation, &mut scattered, s) {
            let bounced = ray_color(scattered, world, depth - 1, s);
            let out = attenuation.cmul(bounced);
            proof {
                let objs = world.objects@;
                let h = list_hit(objs, ray@, T_MIN_RAW as int, T_MAX_RAW as int)->Some_0;
                match rec.material {
                    AnyMaterial::Metal(m) => {
                        lemma_radiance_metal(objs, ray@, depth as nat, h, bounced@, out@);
                    },
                    AnyMaterial::Lambertian(l) => {
                        let u = choose|u: V3|
                            is_sampled_unit(u) && scattered.dir@ == lambertian_dir(rec.normal@, u);
                        lemma_radiance_diffuse(
                            objs,
                            ray@,
                            depth as nat,
                            h,
                            l.albedo@,
                            u,
                            bounced@,
                            out@,
                        );
                    },
                    AnyMaterial::Light(l) => {
                        let u = choose|u: V3|
                            is_sampled_unit(u) && scattered.dir@ == lambertian_dir(rec.normal@, u);
                        lemma_radiance_diffuse(
                            objs,
                            ray@,
                            depth as nat,
                            h,
                            l.albedo@,
                            u,
                            bounced@,
                            out@,
                        );
                    },
                }
            }
            return out;
        }
        let absorbed = Color::origin();
        proof {
            let objs = world.objects@;
            let h = list_hit(objs, ray@, T_MIN_RAW as int, T_MAX_RAW as int)->Some_0;
            lemma_radiance_metal(objs, ray@, depth as nat, h, absorbed@, absorbed@);
        }
        return absorbed;
    }
    let unit_direction = unit_vector(ray.dir);
    let t = Fx { raw: 32768 }.mul(unit_direction.y.add(Fx { raw: 65536 }));
    let one = Fx { raw: 65536 };
    let c = Color::new(one, one, one).mul(one.sub(t)).add(
        Color::new(Fx { raw: 32768 }, Fx { raw: 45875 }, Fx { raw: 65536 }).mul(t),
    );
    proof {
        reveal(background_color);
        lemma_radiance_miss(world.objects@, ray@, depth as nat, c@);
    }
    c
}

/// `x` confined to `[min, max]`.
pub fn clamp(x: Fx, min: Fx, max: Fx) -> (r: Fx)
    ensures
        r.raw as int == clamp_val(x.raw as int, min.raw as int, max.raw as int),
{
    if x.raw < min.raw {
        min
    } else if x.raw > max.raw {
        max
    } else {
        x
    }
}

/// One output channel: the accumulated radiance averaged over the samples,
/// gamma-corrected by a square root, confined to `[0, 0.999]` and scaled to
/// an eight-bit value.
pub open spec fn channel_spec(acc: int, samples: int) -> int {
    let mean = fx_div(acc, samples * FX_SCALE as int);
    let root = fx_sqrt(mean);
    clamp_val(root, 0, 65470) / 256
}

/// Quantize one accumulated color channel to a byte.
pub fn color_channel(acc: Fx, samples: u32) -> (b: u8)
    requires
        samples >= 1,
    ensures
        b as int == channel_spec(acc.raw as int, samples as int),
{
    let mean = acc.div(fx_from_u32(samples));
    let root = mean.sqrt();
    let cl = clamp(root, Fx { raw: 0 }, Fx { raw: 65470 });
    ((cl.raw as u64) / 256) as u8
}

/// A pixel's slot in the output: rows are stored top to bottom while the
/// world's vertical axis grows upward, so row `j` lands at `h - 1 - j`.
proof fn lemma_pixel_slot(w: int, h: int, i: int, j: int)
    by (nonlinear_arith)
    requires
        0 <= i < w,
        0 <= j < h,
    ensures
        0 <= w * (h - 1 - j) + i <= w * h - 1,
{
}

/// Distinct pixels occupy distinct slots.
proof fn lemma_slot_injective(w: int, h: int, i1: int, j1: int, i2: int, j2: int)
    by (nonlinear_arith)
    requires
        0 <= i1 < w,
        0 <= j1 < h,
        0 <= i2 < w,
        0 <= j2 < h,
        !(i1 == i2 && j1 == j2),
    ensures
        w * (h - 1 - j1) + i1 != w * (h - 1 - j2) + i2,
{
}

/// `u` is a jittered viewport coordinate for pixel index `p` of an image
/// extent `n`: `(p + f) / (n - 1)` for some fraction `f` on the unit grid.
pub open spec fn jittered_coord(p: int, n: int, u: int) -> bool {
    exists|f: int|
        0 <= f < FX_SCALE as int && u == fx_div(
            #[trigger] fx_add(p * FX_SCALE as int, f),
            (n - 1) * FX_SCALE as int,
        )
}

/// `acc` is an accumulated radiance for pixel `(i, j)`: the saturating sum
/// of `n` samples, each a radiance the integrator can return for a camera
/// ray through a jittered viewport coordinate of that pixel.
pub open spec fn possible_pixel_sum(
    objs: Seq<Surface>,
    w: int,
    h: int,
    i: int,
    j: int,
    n: nat,
    depth: nat,
    acc: V3,
) -> bool
    decreases n,
{
    if n == 0 {
        acc == black()
    } else {
        exists|prev: V3, u: int, v: int, c: V3|
            possible_pixel_sum(objs, w, h, i, j, (n - 1) as nat, depth, prev) && jittered_coord(
                i,
                w,
                u,
            ) && jittered_coord(j, h, v) && possible_radiance(
                objs,
                camera_ray(w, h, u, v),
                depth,
                c,
            ) && acc == prev.add(c)
    }
}

/// An empty accumulation is black.
proof fn lemma_pixel_sum_base(objs: Seq<Surface>, w: int, h: int, i: int, j: int, depth: nat)
    ensures
        possible_pixel_sum(objs, w, h, i, j, 0, depth, black()),
{
}

/// Adding one admissible sample extends an accumulation by one.
proof fn lemma_pixel_sum_step(
    objs: Seq<Surface>,
    w: int,
    h: int,
    i: int,
    j: int,
    n: nat,
    depth: nat,
    prev: V3,
    u: int,
    v: int,
    c: V3,
    acc: V3,
)
    requires
        possible_pixel_sum(objs, w, h, i, j, n, depth, prev),
        jittered_coord(i, w, u),
        jittered_coord(j, h, v),
        possible_radiance(objs, camera_ray(w, h, u, v), depth, c),
        acc == prev.add(c),
    ensures
        possible_pixel_sum(objs, w, h, i, j, (n + 1) as nat, depth, acc),
{
    assert(((n + 1) as nat - 1) as nat == n);
}

/// The bytes of pixel `(i, j)` are the quantization of an accumulated
/// radiance of that pixel.
pub open spec fn pixel_rendered(
    data: Seq<u8>,
    objs: Seq<Surface>,
    w: int,
    h: int,
    i: int,
    j: int,
    spp: nat,
    depth: nat,
) -> bool {
    exists|acc: V3|
        possible_pixel_sum(objs, w, h, i, j, spp, depth, acc) && data[4 * (w * (h - 1 - j) + i)]
            == channel_spec(acc.x, spp as int) && data[4 * (w * (h - 1 - j) + i) + 1]
            == channel_spec(acc.y, spp as int) && data[4 * (w * (h - 1 - j) + i) + 2]
            == channel_spec(acc.z, spp as int)
}

/// Render the scene into a row-major, top-to-bottom RGBA byte buffer.
/// Every pixel's color bytes are the gamma-corrected quantization of an
/// accumulation of `samples_per_pixel` jittered radiance samples, and every
/// fourth byte is the opaque alpha value 255.
pub fn render(
    world: &hittable_list,
    image_width: u32,
    image_height: u32,
    samples_per_pixel: u32,
    max_depth: u32,
    s: &mut Sampler,
) -> (data: Vec<u8>)
    requires
        2 <= image_width,
        2 <= image_height,
        image_width as int * image_height as int * 4 <= u32::MAX as int,
        1 <= samples_per_pixel,
    ensures
        data@.len() == image_width as int * image_height as int * 4,
        forall|k: int| 0 <= k < data@.len() && k % 4 == 3 ==> data@[k] == 255,
        forall|pi: int, pj: int|
            0 <= pi < image_width && 0 <= pj < image_height ==> pixel_rendered(
                data@,
                world.objects@,
                image_width as int,
                image_height as int,
                pi,
                pj,
                samples_per_pixel as nat,
                max_depth as nat,
            ),
{
    let ghost objs = world.objects@;
    let ghost w_ = image_width as int;
    let ghost h_ = image_height as int;
    let ghost spp_ = samples_per_pixel as nat;
    let ghost depth_ = max_depth as nat;
    let total: usize = (image_width as usize) * (image_height as usize) * 4;
    let mut data: Vec<u8> = Vec::new();
    while data.len() < total
        invariant
            data@.len() <= total,
            forall|k: int| 0 <= k < data@.len() ==> data@[k] == 255,
        decreases total - data@.len(),
    {
        data.push(255);
    }

    let cam = Camera::new(image_width, image_height);

    let mut i: u32 = 0;
    while i < image_width
        invariant
            2 <= image_width,
            2 <= image_height,
            1 <= samples_per_pixel,
            image_width as int * image_height as int * 4 <= u32::MAX as int,
            objs == world.objects@,
            w_ == image_width as int,
            h_ == image_height as int,
            spp_ == samples_per_pixel as nat,
            depth_ == max_depth as nat,
            total == image_width as int * image_height as int * 4,
            is_camera_for(cam, w_, h_),
            i <= image_width,
            data@.len() == total,
            forall|k: int| 0 <= k < data@.len() && k % 4 == 3 ==> data@[k] == 255,
            forall|pi: int, pj: int|
                0 <= pi < i && 0 <= pj < h_ ==> pixel_rendered(
                    data@,
                    objs,
                    w_,
                    h_,
                    pi,
                    pj,
                    spp_,
                    depth_,
                ),
        decreases image_width - i,
    {
        let mut j: u32 = 0;
        while j < image_height
            invariant
                2 <= image_width,
                2 <= image_height,
                1 <= samples_per_pixel,
                image_width as int * image_height as int * 4 <= u32::MAX as int,
                objs == world.objects@,
                w_ == image_width as int,
                h_ == image_height as int,
                spp_ == samples_per_pixel as nat,
                depth_ == max_depth as nat,
                total == image_width as int * image_height as int * 4,
                is_camera_for(cam, w_, h_),
                i < image_width,
                j <= image_height,
                data@.len() == total,
                forall|k: int| 0 <= k < data@.len() && k % 4 == 3 ==> data@[k] == 255,
                forall|pi: int, pj: int|
                    0 <= pi < w_ && 0 <= pj < h_ && (pi < i || (pi == i && pj < j))
                        ==> pixel_rendered(data@, objs, w_, h_, pi, pj, spp_, depth_),
            decreases image_height - j,
        {
            let mut pixel_color = Color::origin();
            proof {
                lemma_pixel_sum_base(objs, w_, h_, i as int, j as int, depth_);
            }
            let mut sample: u32 = 0;
            while sample < samples_per_pixel
                invariant
                    2 <= image_width,
                    2 <= image_height,
                    1 <= samples_per_pixel,
                    objs == world.objects@,
                    w_ == image_width as int,
                    h_ == image_height as int,
                    depth_ == max_depth as nat,
                    is_camera_for(cam, w_, h_),
                    i < image_width,
                    j < image_height,
                    sample <= samples_per_pixel,
                    possible_pixel_sum(objs, w_, h_, i as int, j as int, sample as nat, depth_, pixel_color@),
                decreases samples_per_pixel - sample,
            {
                let fu = s.next_fraction();
                let u = fx_from_u32(i).add(fu).div(fx_from_u32(image_width - 1));
                let fv = s.next_fraction();
                let v = fx_from_u32(j).add(fv).div(fx_from_u32(image_height - 1));
                let r = cam.get_ray(u, v);
                proof {
                    assert(jittered_coord(i as int, w_, u.raw as int));
                    assert(jittered_coord(j as int, h_, v.raw as int));
                    assert(r@ == camera_ray(w_, h_, u.raw as int, v.raw as int));
                }
                let ghost prevc = pixel_color@;
                let sample_color = ray_color(r, world, max_depth, s);
                pixel_color.add_assign(sample_color);
                proof {
                    lemma_pixel_sum_step(
                        objs,
                        w_,
                        h_,
                        i as int,
                        j as int,
                        sample as nat,
                        depth_,
                        prevc,
                        u.raw as int,
                        v.raw as int,
                        sample_color@,
                        pixel_color@,
                    );
                    assert((sample + 1) as nat == (sample as nat + 1) as nat);
                }
                sample = sample + 1;
            }

            proof {
                lemma_pixel_slot(w_, h_, i as int, j as int);
            }
            let row: usize = (image_height - j - 1) as usize;
            let slot: usize = (image_width as usize) * row + (i as usize);
            let index: usize = 4 * slot;
            let b0 = color_channel(pixel_color.x, samples_per_pixel);
            let b1 = color_channel(pixel_color.y, samples_per_pixel);
            let b2 = color_channel(pixel_color.z, samples_per_pixel);
            let ghost before = data@;
            data[index] = b0;
            data[index + 1] = b1;
            data[index + 2] = b2;
            data[index + 3] = 255;
            proof {
                assert(pixel_rendered(data@, objs, w_, h_, i as int, j as int, spp_, depth_));
                assert forall|pi: int, pj: int|
                    0 <= pi < w_ && 0 <= pj < h_ && (pi < i || (pi == i && pj < j + 1))
                        implies pixel_rendered(data@, objs, w_, h_, pi, pj, spp_, depth_) by {
                    if !(pi == i as int && pj == j as int) {
                        lemma_slot_injective(w_, h_, pi, pj, i as int, j as int);
                        lemma_pixel_slot(w_, h_, pi, pj);
                        let base = 4 * (w_ * (h_ - 1 - pj) + pi);
                        assert(data@[base] == before[base]);
                        assert(data@[base + 1] == before[base + 1]);
                        assert(data@[base + 2] == before[base + 2]);
                        assert(pixel_rendered(before, objs, w_, h_, pi, pj, spp_, depth_));
                    }
                }
            }

            j = j + 1;
        }
        i = i + 1;
    }
    data
}

} // verus!

