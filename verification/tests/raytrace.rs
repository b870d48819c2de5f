use raytrace::camera::Camera;
use raytrace::clamp;
use raytrace::color_channel;
use raytrace::fixed::Fx;
use raytrace::hittable::hit_record;
use raytrace::hittable::hittable_list;
use raytrace::hittable::Surface;
use raytrace::material::AnyMaterial;
use raytrace::material::Lambertian;
use raytrace::material::Light;
use raytrace::material::Metal;
use raytrace::ray::Ray;
use raytrace::ray_color;
use raytrace::render;
use raytrace::rng::Sampler;
use raytrace::sphere::Sphere;
use raytrace::vec3::cross;
use raytrace::vec3::dot;
use raytrace::vec3::random_in_unit_sphere;
use raytrace::vec3::random_unit_vector;
use raytrace::vec3::reflect;
use raytrace::vec3::unit_vector;
use raytrace::vec3::Vec3;

const S: i64 = 65536;

fn fx(raw: i64) -> Fx {
    Fx::new(raw)
}

fn v3(x: i64, y: i64, z: i64) -> Vec3 {
    Vec3::new(fx(x), fx(y), fx(z))
}

fn gray_sphere(cx: i64, cy: i64, cz: i64, r: i64) -> Sphere {
    Sphere {
        center: v3(cx, cy, cz),
        radius: fx(r),
        material: AnyMaterial::Lambertian(Lambertian { albedo: v3(S / 2, S / 2, S / 2) }),
    }
}

fn default_rec() -> hit_record {
    hit_record {
        p: Vec3::origin(),
        normal: Vec3::origin(),
        t: fx(0),
        front_face: false,
        material: AnyMaterial::Lambertian(Lambertian { albedo: Vec3::origin() }),
    }
}

#[test]
fn length_squared_equals_self_dot() {
    let vs: [Vec3; 4] =
        [v3(S, 2 * S, 3 * S), v3(-5 * S, 0, S / 4), v3(0, 0, 0), v3(7, -9, 113)];
    for v in vs {
        assert_eq!(v.length_squared(), dot(v, v));
        assert!(v.length().raw >= 0);
    }
}

#[test]
fn length_of_axis_aligned_vectors_is_exact() {
    assert_eq!(v3(0, 3 * S, 4 * S).length().raw, 5 * S);
    assert_eq!(v3(S, 0, 0).length().raw, S);
    assert_eq!(v3(0, 0, 0).length().raw, 0);
}

#[test]
fn unit_vector_has_length_near_one() {
    let vs: [Vec3; 4] = [
        v3(S, 2 * S, 3 * S),
        v3(0, 3 * S, 4 * S),
        v3(-5 * S, S, 0),
        v3(S / 2, S / 2, S / 2),
    ];
    for v in vs {
        let len: i64 = unit_vector(v).length().raw;
        assert!((len - S).abs() <= 16, "unit length raw {} too far from {}", len, S);
    }
}

#[test]
fn near_zero_iff_squared_length_below_grid() {
    assert!(Vec3::origin().near_zero());
    // squared length 64 / S^2 truncates to zero on the squared-length grid
    assert!(v3(8, 0, 0).near_zero());
    assert!(!v3(S, 0, 0).near_zero());
    assert!(!v3(0, -S, 0).near_zero());
    let tiny = v3(8, 0, 0);
    assert!(tiny.length_squared().raw < 1);
    let unit = v3(S, 0, 0);
    assert!(unit.length_squared().raw >= 1);
}

#[test]
fn vector_arithmetic_is_componentwise() {
    let a = v3(S, 2 * S, -3 * S);
    let b = v3(4 * S, -5 * S, 6 * S);
    assert_eq!(a.add(b), v3(5 * S, -3 * S, 3 * S));
    assert_eq!(a.sub(b), v3(-3 * S, 7 * S, -9 * S));
    assert_eq!(a.neg(), v3(-S, -2 * S, 3 * S));
    assert_eq!(a.mul(fx(2 * S)), v3(2 * S, 4 * S, -6 * S));
    assert_eq!(a.cmul(b), v3(4 * S, -10 * S, -18 * S));
    assert_eq!(a.div(fx(2 * S)), v3(S / 2, S, -3 * S / 2));
    let mut c = a;
    c.add_assign(b);
    assert_eq!(c, v3(5 * S, -3 * S, 3 * S));
    let mut d = a;
    d.mul_assign(fx(2 * S));
    assert_eq!(d, v3(2 * S, 4 * S, -6 * S));
    let mut e = a;
    e.div_assign(fx(2 * S));
    assert_eq!(e, v3(S / 2, S, -3 * S / 2));
}

#[test]
fn index_selects_components() {
    let a = v3(10, 20, 30);
    assert_eq!(a.index(0).raw, 10);
    assert_eq!(a.index(1).raw, 20);
    assert_eq!(a.index(2).raw, 30);
}

#[test]
fn cross_follows_right_hand_rule() {
    let x = v3(S, 0, 0);
    let y = v3(0, S, 0);
    let z = v3(0, 0, S);
    assert_eq!(cross(x, y), z);
    assert_eq!(cross(y, z), x);
    assert_eq!(cross(z, x), y);
    assert_eq!(cross(y, x), z.neg());
}

#[test]
fn reflect_mirrors_across_normal() {
    // straight into the plane: reflected straight back out
    let r = reflect(v3(0, 0, S), v3(0, 0, S));
    assert_eq!(r, v3(0, 0, -S));
    // grazing along the plane: unchanged
    let g = reflect(v3(S, 0, 0), v3(0, 0, S));
    assert_eq!(g, v3(S, 0, 0));
}

#[test]
fn ray_at_walks_the_direction() {
    let r = Ray { orig: v3(S, 2 * S, 3 * S), dir: v3(0, 0, -S) };
    assert_eq!(r.at(fx(3 * S / 2)), v3(S, 2 * S, 3 * S / 2));
}

#[test]
fn camera_derives_viewport_from_aspect_ratio() {
    let cam = Camera::new(400, 200);
    assert_eq!(cam.origin, v3(0, 0, 0));
    assert_eq!(cam.horizontal, v3(4 * S, 0, 0));
    assert_eq!(cam.vertical, v3(0, 2 * S, 0));
    assert_eq!(cam.lower_left_corner, v3(-2 * S, -S, -S));
}

#[test]
fn camera_center_ray_points_down_axis() {
    let cam = Camera::new(400, 200);
    let r = cam.get_ray(fx(S / 2), fx(S / 2));
    assert_eq!(r.orig, v3(0, 0, 0));
    assert_eq!(r.dir, v3(0, 0, -S));
}

#[test]
fn sphere_head_on_hit_at_distance_minus_radius() {
    let sp = gray_sphere(0, 0, -2 * S, S / 2);
    let r = Ray { orig: v3(0, 0, 0), dir: v3(0, 0, -S) };
    let mut rec = default_rec();
    let hit = sp.hit(r, fx(66), fx(655360000000), &mut rec);
    assert!(hit);
    // distance to the center is 2, the radius 0.5: the hit is at t = 1.5
    assert_eq!(rec.t.raw, 3 * S / 2);
    assert_eq!(rec.p, v3(0, 0, -3 * S / 2));
    // outward normal (p - center) / radius, parallel to p - center
    assert_eq!(rec.normal, v3(0, 0, S));
    assert!(rec.front_face);
}

#[test]
fn sphere_missed_by_offset_ray() {
    let sp = gray_sphere(3 * S, 0, -2 * S, S / 2);
    let r = Ray { orig: v3(0, 0, 0), dir: v3(0, 0, -S) };
    let mut rec = default_rec();
    let before = rec;
    let hit = sp.hit(r, fx(66), fx(655360000000), &mut rec);
    assert!(!hit);
    assert_eq!(rec, before);
}

#[test]
fn surface_list_reports_closest_member_hit() {
    let near = gray_sphere(0, 0, -2 * S, S / 2);
    let far = gray_sphere(0, 0, -4 * S, S / 2);
    let r = Ray { orig: v3(0, 0, 0), dir: v3(0, 0, -S) };

    let mut alone = default_rec();
    assert!(near.hit(r, fx(66), fx(655360000000), &mut alone));

    for objects in [
        vec![Surface::Sphere(near), Surface::Sphere(far)],
        vec![Surface::Sphere(far), Surface::Sphere(near)],
    ] {
        let world = hittable_list { objects };
        let mut rec = default_rec();
        assert!(world.hit(r, fx(66), fx(655360000000), &mut rec));
        assert_eq!(rec.t, alone.t);
        assert_eq!(rec.p, alone.p);
        assert_eq!(rec.normal, alone.normal);
    }
}

#[test]
fn surface_list_first_member_wins_ties() {
    // two coincident spheres: a strictly smaller parameter is needed to
    // replace a hit, so the first member's material is reported
    let first = Sphere {
        center: v3(0, 0, -2 * S),
        radius: fx(S / 2),
        material: AnyMaterial::Metal(Metal { albedo: v3(S, S, S) }),
    };
    let second = Sphere {
        center: v3(0, 0, -2 * S),
        radius: fx(S / 2),
        material: AnyMaterial::Lambertian(Lambertian { albedo: v3(0, 0, 0) }),
    };
    let world = hittable_list { objects: vec![Surface::Sphere(first), Surface::Sphere(second)] };
    let r = Ray { orig: v3(0, 0, 0), dir: v3(0, 0, -S) };
    let mut rec = default_rec();
    assert!(world.hit(r, fx(66), fx(655360000000), &mut rec));
    assert_eq!(rec.material, first.material);
}

#[test]
fn surface_list_add_appends() {
    let mut world = hittable_list { objects: vec![] };
    assert_eq!(world.objects.len(), 0);
    world.add(Surface::Sphere(gray_sphere(0, 0, -2 * S, S / 2)));
    world.add(Surface::Sphere(gray_sphere(0, 0, -4 * S, S / 2)));
    assert_eq!(world.objects.len(), 2);
}

#[test]
fn lambertian_always_scatters_with_albedo_attenuation() {
    let albedo = v3(19661, 26214, 32768);
    let mat = AnyMaterial::Lambertian(Lambertian { albedo });
    let mut rec = default_rec();
    rec.p = v3(0, 0, -S);
    rec.normal = v3(0, 0, S);
    rec.t = fx(S);
    rec.front_face = true;
    let r_in = Ray { orig: v3(0, 0, 0), dir: v3(0, 0, -S) };
    let mut s = Sampler::new(5);
    for _ in 0..32 {
        let mut attenuation = Vec3::origin();
        let mut scattered = Ray { orig: Vec3::origin(), dir: Vec3::origin() };
        let ok = mat.scatter(r_in, &rec, &mut attenuation, &mut scattered, &mut s);
        assert!(ok);
        assert_eq!(attenuation, albedo);
        assert_eq!(scattered.orig, rec.p);
    }
}

#[test]
fn light_scatters_like_lambertian() {
    let albedo = v3(S, S, 26214);
    let mat = AnyMaterial::Light(Light { albedo });
    let mut rec = default_rec();
    rec.p = v3(0, 0, -S);
    rec.normal = v3(0, 0, S);
    let r_in = Ray { orig: v3(0, 0, 0), dir: v3(0, 0, -S) };
    let mut s = Sampler::new(6);
    let mut attenuation = Vec3::origin();
    let mut scattered = Ray { orig: Vec3::origin(), dir: Vec3::origin() };
    assert!(mat.scatter(r_in, &rec, &mut attenuation, &mut scattered, &mut s));
    assert_eq!(attenuation, albedo);
    assert_eq!(scattered.orig, rec.p);
}

#[test]
fn metal_absorbs_reflection_into_the_surface() {
    // incoming along the normal from behind: the reflection points into the
    // surface, so the ray is absorbed
    let mat = AnyMaterial::Metal(Metal { albedo: v3(S, S, S) });
    let mut rec = default_rec();
    rec.p = v3(0, 0, 0);
    rec.normal = v3(0, 0, S);
    let r_in = Ray { orig: v3(0, 0, -S), dir: v3(0, 0, S) };
    let mut s = Sampler::new(7);
    let mut attenuation = Vec3::origin();
    let mut scattered = Ray { orig: Vec3::origin(), dir: Vec3::origin() };
    let ok = mat.scatter(r_in, &rec, &mut attenuation, &mut scattered, &mut s);
    assert!(!ok);
    assert_eq!(scattered.dir, v3(0, 0, -S));
}

#[test]
fn metal_reflects_oblique_rays() {
    let mat = AnyMaterial::Metal(Metal { albedo: v3(S, S, S) });
    let mut rec = default_rec();
    rec.p = v3(0, 0, 0);
    rec.normal = v3(0, 0, S);
    // incoming at 45 degrees: (1, 0, -1) normalized reflects to (1, 0, 1) side
    let r_in = Ray { orig: v3(-S, 0, S), dir: v3(S, 0, -S) };
    let mut s = Sampler::new(8);
    let mut attenuation = Vec3::origin();
    let mut scattered = Ray { orig: Vec3::origin(), dir: Vec3::origin() };
    let ok = mat.scatter(r_in, &rec, &mut attenuation, &mut scattered, &mut s);
    assert!(ok);
    assert_eq!(attenuation, v3(S, S, S));
    assert!(scattered.dir.z.raw > 0);
}

#[test]
fn ray_color_depth_zero_is_black() {
    let world = hittable_list {
        objects: vec![Surface::Sphere(gray_sphere(0, 0, -2 * S, S / 2))],
    };
    let mut s = Sampler::new(1);
    let r = Ray { orig: v3(0, 0, 0), dir: v3(0, 0, -S) };
    assert_eq!(ray_color(r, &world, 0, &mut s), v3(0, 0, 0));
    let up = Ray { orig: v3(0, 0, 0), dir: v3(0, S, 0) };
    assert_eq!(ray_color(up, &world, 0, &mut s), v3(0, 0, 0));
}

#[test]
fn ray_color_empty_scene_is_background_gradient() {
    let world = hittable_list { objects: vec![] };
    let mut s = Sampler::new(1);
    // straight down: t = 0, pure white
    let down = Ray { orig: v3(0, 0, 0), dir: v3(0, -S, 0) };
    assert_eq!(ray_color(down, &world, 10, &mut s), v3(S, S, S));
    // straight up: t = 1, sky blue (0.5, 0.7, 1.0)
    let up = Ray { orig: v3(0, 0, 0), dir: v3(0, S, 0) };
    assert_eq!(ray_color(up, &world, 10, &mut s), v3(32768, 45875, S));
}

#[test]
fn tint_never_brightens_unit_colors() {
    let albedo = v3(S / 2, S / 4, S);
    let g = v3(S, S / 2, S / 3);
    let tinted = albedo.cmul(g);
    for i in 0..3 {
        let ti: i64 = tinted.index(i).raw;
        let gi: i64 = g.index(i).raw;
        assert!(0 <= ti && ti <= gi);
    }
}

#[test]
fn background_channels_stay_in_unit_range() {
    let world = hittable_list { objects: vec![] };
    let mut s = Sampler::new(3);
    let dirs: [Vec3; 4] =
        [v3(0, S, 0), v3(0, -S, 0), v3(S, S, -S), v3(-2 * S, S / 2, 3 * S)];
    for dir in dirs {
        let c = ray_color(Ray { orig: v3(0, 0, 0), dir }, &world, 5, &mut s);
        for i in 0..3 {
            let ch: i64 = c.index(i).raw;
            assert!(0 <= ch && ch <= S);
        }
    }
}

#[test]
fn clamp_confines_to_interval() {
    assert_eq!(clamp(fx(5), fx(0), fx(10)).raw, 5);
    assert_eq!(clamp(fx(-5), fx(0), fx(10)).raw, 0);
    assert_eq!(clamp(fx(15), fx(0), fx(10)).raw, 10);
}

#[test]
fn color_channel_applies_gamma_and_scale() {
    // full radiance: clamped at 0.999, scaled to 255
    assert_eq!(color_channel(fx(S), 1), 255);
    // quarter radiance: sqrt is 0.5, half of the byte range
    assert_eq!(color_channel(fx(S / 4), 1), 128);
    assert_eq!(color_channel(fx(0), 1), 0);
    // averaging: two samples of a half add up to one half
    assert_eq!(color_channel(fx(S / 2), 2), color_channel(fx(S / 4), 1));
}

#[test]
fn sampler_fractions_stay_in_unit_interval() {
    let mut s = Sampler::new(123);
    for _ in 0..1000 {
        let f = s.next_fraction();
        assert!(0 <= f.raw && f.raw < S);
    }
}

#[test]
fn random_vectors_stay_in_their_ranges() {
    let mut s = Sampler::new(99);
    for _ in 0..200 {
        let r = Vec3::random(&mut s);
        for i in 0..3 {
            let c: i64 = r.index(i).raw;
            assert!(0 <= c && c < S);
        }
        let rc = Vec3::random_clamp(&mut s, fx(-S), fx(S));
        for i in 0..3 {
            let c: i64 = rc.index(i).raw;
            assert!(-S <= c && c < S);
        }
    }
}

#[test]
fn camera_viewport_width_follows_fractional_aspect() {
    let cam = Camera::new(300, 200);
    assert_eq!(cam.horizontal, v3(3 * S, 0, 0));
    assert_eq!(cam.vertical, v3(0, 2 * S, 0));
}

#[test]
fn unit_sphere_samples_are_interior_and_nonzero() {
    let mut s = Sampler::new(321);
    for _ in 0..200 {
        let p = random_in_unit_sphere(&mut s);
        let ls: i64 = p.length_squared().raw;
        assert!(0 < ls && ls < S);
    }
}

#[test]
fn random_unit_vectors_have_length_near_one() {
    let mut s = Sampler::new(777);
    for _ in 0..200 {
        let u = random_unit_vector(&mut s);
        let len: i64 = u.length().raw;
        assert!((len - S).abs() <= 64, "unit length raw {}", len);
    }
}

#[test]
fn render_single_sphere_end_to_end() {
    // a unit sphere directly in front of the camera covers the whole
    // viewport, so every jittered ray hits it; with albedo one half no
    // channel can saturate, and the bounced sky keeps them above zero
    let world = hittable_list {
        objects: vec![Surface::Sphere(Sphere {
            center: v3(0, 0, -78643),  // (0, 0, -1.2)
            radius: fx(S),
            material: AnyMaterial::Lambertian(Lambertian { albedo: v3(S / 2, S / 2, S / 2) }),
        })],
    };
    let mut s = Sampler::new(11);
    let data = render(&world, 2, 2, 1, 50, &mut s);
    assert_eq!(data.len(), 2 * 2 * 4);
    // the pixel at world (0, 0) samples u, v in [0, 1): its jittered ray
    // always lands on the sphere (rows and columns past the first overshoot
    // the viewport, since coordinates are normalized by the extent minus one)
    let px: usize = 2;
    for ch in 0..3 {
        let b = data[px * 4 + ch];
        assert!(0 < b && b < 255, "channel {} is {}", ch, b);
    }
    for p in 0..4 {
        assert_eq!(data[p * 4 + 3], 255);
    }
}

#[test]
fn render_is_reproducible_for_a_fixed_seed() {
    let world = hittable_list {
        objects: vec![
            Surface::Sphere(gray_sphere(0, -6553600, -78643, 100 * S)),
            Surface::Sphere(Sphere {
                center: v3(0, 0, -78643),
                radius: fx(S / 2),
                material: AnyMaterial::Metal(Metal { albedo: v3(58982, 58982, 58982) }),
            }),
        ],
    };
    let mut s1 = Sampler::new(424242);
    let first = render(&world, 6, 4, 3, 8, &mut s1);
    let mut s2 = Sampler::new(424242);
    let second = render(&world, 6, 4, 3, 8, &mut s2);
    assert_eq!(first, second);
    let mut s3 = Sampler::new(424243);
    let other = render(&world, 6, 4, 3, 8, &mut s3);
    assert_eq!(other.len(), first.len());
}

#[test]
fn render_fills_alpha_opaque() {
    let world = hittable_list { objects: vec![] };
    let mut s = Sampler::new(9);
    let data = render(&world, 3, 2, 1, 4, &mut s);
    assert_eq!(data.len(), 3 * 2 * 4);
    for px in 0..6 {
        assert_eq!(data[px * 4 + 3], 255);
    }
}
