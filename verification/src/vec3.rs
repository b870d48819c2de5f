//! Three-component fixed-point vectors, reused as points and colors.

use vstd::prelude::*;
use crate::fixed::Fx;
use crate::fixed::FX_SCALE;
use crate::fixed::fx_add;
use crate::fixed::fx_sub;
use crate::fixed::fx_neg;
use crate::fixed::fx_mul;
use crate::fixed::fx_div;
use crate::fixed::fx_sqrt;
use crate::rng::Sampler;

verus! {

/// Squared lengths below this raw value (one step of the squared-length
/// grid, `1 / FX_SCALE`) count as zero: such a vector is too short to be
/// normalized meaningfully.
pub const NEAR_ZERO_SQ: i64 = 1;

/// The mathematical model of a vector: three raw fixed-point components.
pub ghost struct V3 {
    pub x: int,
    pub y: int,
    pub z: int,
}

impl V3 {
    /// Component-wise sum.
    pub open spec fn add(self, o: V3) -> V3 {
        V3 { x: fx_add(self.x, o.x), y: fx_add(self.y, o.y), z: fx_add(self.z, o.z) }
    }

    /// Component-wise difference.
    pub open spec fn sub(self, o: V3) -> V3 {
        V3 { x: fx_sub(self.x, o.x), y: fx_sub(self.y, o.y), z: fx_sub(self.z, o.z) }
    }

    /// Component-wise negation.
    pub open spec fn neg(self) -> V3 {
        V3 { x: fx_neg(self.x), y: fx_neg(self.y), z: fx_neg(self.z) }
    }

    /// Each component multiplied by the scalar `k`.
    pub open spec fn scale(self, k: int) -> V3 {
        V3 { x: fx_mul(self.x, k), y: fx_mul(self.y, k), z: fx_mul(self.z, k) }
    }

    /// Component-wise product, the tinting of one color by another.
    pub open spec fn cmul(self, o: V3) -> V3 {
        V3 { x: fx_mul(self.x, o.x), y: fx_mul(self.y, o.y), z: fx_mul(self.z, o.z) }
    }

    /// Each component divided by the scalar `k`.
    pub open spec fn sdiv(self, k: int) -> V3 {
        V3 { x: fx_div(self.x, k), y: fx_div(self.y, k), z: fx_div(self.z, k) }
    }

    /// Inner product, summed left to right.
    pub open spec fn dot(self, o: V3) -> int {
        fx_add(fx_add(fx_mul(self.x, o.x), fx_mul(self.y, o.y)), fx_mul(self.z, o.z))
    }

    /// Squared length: the vector's inner product with itself.
    pub open spec fn length_squared(self) -> int {
        self.dot(self)
    }

    /// Length: the square root of the squared length.
    pub open spec fn length(self) -> int {
        fx_sqrt(self.length_squared())
    }

    /// The vector rescaled by its own length.
    pub open spec fn unit(self) -> V3 {
        self.sdiv(self.length())
    }

    /// Too short to normalize: the squared length truncates to zero.
    pub open spec fn near_zero(self) -> bool {
        self.length_squared() < NEAR_ZERO_SQ as int
    }

    /// Right-handed cross product.
    pub open spec fn cross(self, o: V3) -> V3 {
        V3 {
            x: fx_sub(fx_mul(self.y, o.z), fx_mul(self.z, o.y)),
            y: fx_sub(fx_mul(self.z, o.x), fx_mul(self.x, o.z)),
            z: fx_sub(fx_mul(self.x, o.y), fx_mul(self.y, o.x)),
        }
    }

    /// Mirror image of `v` across the plane with normal `n`:
    /// `v - 2 (v . n) n`.
    pub open spec fn reflect(v: V3, n: V3) -> V3 {
        v.sub(n.scale(fx_mul(2 * FX_SCALE as int, V3::dot(v, n))))
    }
}

/// A unit-ball sample rescaled by its length: what the diffuse bounce draws.
pub open spec fn is_sampled_unit(u: V3) -> bool {
    exists|p: V3| 0 < p.length_squared() < FX_SCALE as int && u == p.unit()
}

/// The squared length is exactly the self inner product, and the length is
/// never negative.
pub proof fn lemma_length_squared_is_self_dot(v: V3)
    ensures
        v.length_squared() == V3::dot(v, v),
        v.length() >= 0,
{
}

/// A squared length is never negative: it is a saturating sum of
/// fixed-point squares.
pub proof fn lemma_length_squared_nonneg(v: V3)
    ensures
        v.length_squared() >= 0,
{
    crate::fixed::lemma_fx_square_nonneg(v.x);
    crate::fixed::lemma_fx_square_nonneg(v.y);
    crate::fixed::lemma_fx_square_nonneg(v.z);
}

/// A color with every channel in `[0, 1]` tinting another such color keeps
/// every channel in `[0, 1]`, and never brightens any channel.
pub proof fn lemma_tint_in_unit_range(albedo: V3, g: V3)
    requires
        0 <= albedo.x <= FX_SCALE as int,
        0 <= albedo.y <= FX_SCALE as int,
        0 <= albedo.z <= FX_SCALE as int,
        0 <= g.x <= FX_SCALE as int,
        0 <= g.y <= FX_SCALE as int,
        0 <= g.z <= FX_SCALE as int,
    ensures
        0 <= albedo.cmul(g).x <= g.x,
        0 <= albedo.cmul(g).y <= g.y,
        0 <= albedo.cmul(g).z <= g.z,
{
    crate::fixed::lemma_fx_mul_unit_range(albedo.x, g.x);
    crate::fixed::lemma_fx_mul_unit_range(albedo.y, g.y);
    crate::fixed::lemma_fx_mul_unit_range(albedo.z, g.z);
}

/// A three-component fixed-point vector, also used as a point in space and
/// as an RGB color with channels in `[0, 1]`.
#[derive(Debug, Clone, Copy, PartialEq, Eq, Structural)]
pub struct Vec3 {
    pub x: Fx,
    pub y: Fx,
    pub z: Fx,
}

impl View for Vec3 {
    type V = V3;

    open spec fn view(&self) -> V3 {
        V3 { x: self.x.raw as int, y: self.y.raw as int, z: self.z.raw as int }
    }
}

impl Vec3 {
    /// The vector with the given components.
    pub fn new(x: Fx, y: Fx, z: Fx) -> (r: Vec3)
        ensures
            r.x == x && r.y == y && r.z == z,
    {
        Vec3 { x, y, z }
    }

    /// The zero vector, also black as a color.
    pub fn origin() -> (r: Vec3)
        ensures
            r@ == (V3 { x: 0, y: 0, z: 0 }),
    {
        Vec3 { x: Fx { raw: 0 }, y: Fx { raw: 0 }, z: Fx { raw: 0 } }
    }

    /// Component-wise sum.
    pub fn add(self, o: Vec3) -> (r: Vec3)
        ensures
            r@ == self@.add(o@),
    {
        Vec3 { x: self.x.add(o.x), y: self.y.add(o.y), z: self.z.add(o.z) }
    }

    /// Component-wise difference.
    pub fn sub(self, o: Vec3) -> (r: Vec3)
        ensures
            r@ == self@.sub(o@),
    {
        Vec3 { x: self.x.sub(o.x), y: self.y.sub(o.y), z: self.z.sub(o.z) }
    }

    /// Component-wise negation.
    pub fn neg(self) -> (r: Vec3)
        ensures
            r@ == self@.neg(),
    {
        Vec3 { x: self.x.neg(), y: self.y.neg(), z: self.z.neg() }
    }

    /// Each component multiplied by the scalar `k`.
    pub fn mul(self, k: Fx) -> (r: Vec3)
        ensures
            r@ == self@.scale(k@),
    {
        Vec3 { x: self.x.mul(k), y: self.y.mul(k), z: self.z.mul(k) }
    }

    /// Component-wise product: one color tinting another.
    pub fn cmul(self, o: Vec3) -> (r: Vec3)
        ensures
            r@ == self@.cmul(o@),
    {
        Vec3 { x: self.x.mul(o.x), y: self.y.mul(o.y), z: self.z.mul(o.z) }
    }

    /// Each component divided by the scalar `k`.
    pub fn div(self, k: Fx) -> (r: Vec3)
        ensures
            r@ == self@.sdiv(k@),
    {
        Vec3 { x: self.x.div(k), y: self.y.div(k), z: self.z.div(k) }
    }

    /// In-place sum.
    pub fn add_assign(&mut self, o: Vec3)
        ensures
            final(self)@ == old(self)@.add(o@),
    {
        *self = self.add(o);
    }

    /// In-place scaling.
    pub fn mul_assign(&mut self, k: Fx)
        ensures
            final(self)@ == old(self)@.scale(k@),
    {
        *self = self.mul(k);
    }

    /// In-place division by a scalar.
    pub fn div_assign(&mut self, k: Fx)
        ensures
            final(self)@ == old(self)@.sdiv(k@),
    {
        *self = self.div(k);
    }

    /// Length of the vector; never negative.
    pub fn length(self) -> (r: Fx)
        ensures
            r.raw as int == self@.length(),
            r.raw >= 0,
    {
        self.length_squared().sqrt()
    }

    /// Squared length: the inner product of the vector with itself.
    pub fn length_squared(self) -> (r: Fx)
        ensures
            r.raw as int == self@.length_squared(),
    {
        self.x.mul(self.x).add(self.y.mul(self.y)).add(self.z.mul(self.z))
    }

    /// A vector with each component drawn independently and uniformly
    /// from `[0, 1)`.
    pub fn random(s: &mut Sampler) -> (r: Vec3)
        ensures
            0 <= r.x.raw < FX_SCALE,
            0 <= r.y.raw < FX_SCALE,
            0 <= r.z.raw < FX_SCALE,
    {
        Vec3 { x: s.next_fraction(), y: s.next_fraction(), z: s.next_fraction() }
    }

    /// A vector with each component drawn independently from `[min, max)`,
    /// as `fraction * (max - min) + min`.
    pub fn random_clamp(s: &mut Sampler, min: Fx, max: Fx) -> (r: Vec3)
        ensures
            exists|f: int|
                0 <= f < FX_SCALE as int && r.x.raw as int == fx_add(
                    fx_mul(f, fx_sub(max.raw as int, min.raw as int)),
                    min.raw as int,
                ),
            exists|f: int|
                0 <= f < FX_SCALE as int && r.y.raw as int == fx_add(
                    fx_mul(f, fx_sub(max.raw as int, min.raw as int)),
                    min.raw as int,
                ),
            exists|f: int|
                0 <= f < FX_SCALE as int && r.z.raw as int == fx_add(
                    fx_mul(f, fx_sub(max.raw as int, min.raw as int)),
                    min.raw as int,
                ),
    {
        let d = max.sub(min);
        let x = s.next_fraction().mul(d).add(min);
        let y = s.next_fraction().mul(d).add(min);
        let z = s.next_fraction().mul(d).add(min);
        Vec3 { x, y, z }
    }

    /// Whether the vector is too short to normalize: its squared length
    /// lies below the smallest positive representable squared length.
    pub fn near_zero(self) -> (r: bool)
        ensures
            r == self@.near_zero(),
    {
        self.length_squared().raw < NEAR_ZERO_SQ
    }

    /// The component selected by an index in `{0, 1, 2}`.
    pub fn index(&self, i: usize) -> (r: Fx)
        requires
            i < 3,
        ensures
            r == if i == 0 {
                self.x
            } else if i == 1 {
                self.y
            } else {
                self.z
            },
    {
        if i == 0 {
            self.x
        } else if i == 1 {
            self.y
        } else {
            self.z
        }
    }
}

/// Mirror image of `v` across the plane with normal `n`.
pub fn reflect(v: Vec3, n: Vec3) -> (r: Vec3)
    ensures
        r@ == V3::reflect(v@, n@),
{
    let d = dot(v, n);
    v.sub(n.mul(Fx { raw: 131072 }.mul(d)))
}

/// Inner product.
pub fn dot(u: Vec3, v: Vec3) -> (r: Fx)
    ensures
        r.raw as int == V3::dot(u@, v@),
{
    u.x.mul(v.x).add(u.y.mul(v.y)).add(u.z.mul(v.z))
}

/// Right-handed cross product.
pub fn cross(u: Vec3, v: Vec3) -> (r: Vec3)
    ensures
        r@ == u@.cross(v@),
{
    Vec3 {
        x: u.y.mul(v.z).sub(u.z.mul(v.y)),
        y: u.z.mul(v.x).sub(u.x.mul(v.z)),
        z: u.x.mul(v.y).sub(u.y.mul(v.x)),
    }
}

/// The vector rescaled by its own length, exactly as the contract states:
/// each component divided by the fixed-point length.  For vectors of
/// ordinary size the result's length is within a few grid steps of one;
/// for very short vectors the coarse length underestimates badly and the
/// result can be far from unit, and a zero vector has no direction at all:
/// its components saturate instead of dividing by zero.  Callers that need
/// a usable direction screen their input first, as `random_unit_vector`
/// does through the unit-ball rejection test.
pub fn unit_vector(v: Vec3) -> (r: Vec3)
    ensures
        r@ == v@.unit(),
{
    v.div(v.length())
}

/// A vector drawn from the open unit ball, excluding vectors too short to
/// normalize: candidates are drawn from `[-1, 1)` per component and
/// rejected until one lands strictly inside the ball.  The number of draws
/// is bounded defensively; if every draw is rejected, a fixed interior
/// vector is returned.
pub fn random_in_unit_sphere(s: &mut Sampler) -> (r: Vec3)
    ensures
        0 < r@.length_squared() < FX_SCALE as int,
{
    let mut i: u32 = 0;
    while i < 10000
        decreases 10000 - i,
    {
        let p = Vec3::random_clamp(s, Fx { raw: -65536 }, Fx { raw: 65536 });
        let ls = p.length_squared();
        if 0 < ls.raw && ls.raw < FX_SCALE {
            return p;
        }
        i = i + 1;
    }
    let fallback = Vec3 { x: Fx { raw: 32768 }, y: Fx { raw: 0 }, z: Fx { raw: 0 } };
    proof {
        assert(32768int * 32768 == 1073741824) by (nonlinear_arith);
        assert(0int * 0 == 0) by (nonlinear_arith);
        assert(1073741824int / 65536 == 16384);
        assert(fx_mul(32768, 32768) == 16384);
        assert(fx_mul(0, 0) == 0);
        assert(fallback@.length_squared() == 16384);
    }
    fallback
}

/// A unit-ball sample rescaled to unit length.
pub fn random_unit_vector(s: &mut Sampler) -> (r: Vec3)
    ensures
        is_sampled_unit(r@),
{
    let p = random_in_unit_sphere(s);
    let r = unit_vector(p);
    proof {
        assert(0 < p@.length_squared() < FX_SCALE as int && r@ == p@.unit());
    }
    r
}

} // verus!

pub use Vec3 as Point3;
pub use Vec3 as Color;
