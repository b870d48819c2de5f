//! Fixed-point scalar arithmetic.
//!
//! A `Fx` value with raw integer `raw` stands for the real number
//! `raw / FX_SCALE`.  Every operation is total: results that would leave the
//! `i64` range saturate at the nearest representable bound, and division by
//! zero yields the saturation bound carrying the dividend's sign (the
//! representable stand-in for an infinity).  Multiplication and division
//! truncate toward zero, as the underlying machine division does.

use vstd::prelude::*;

verus! {

/// Denominator of the fixed-point scale: a raw value `r` stands for `r / 65536`.
pub const FX_SCALE: i64 = 65536;

/// Saturate an unbounded integer into the `i64` range.
pub open spec fn sat64(x: int) -> int {
    if x > i64::MAX as int {
        i64::MAX as int
    } else if x < i64::MIN as int {
        i64::MIN as int
    } else {
        x
    }
}

/// Magnitude of an integer.
pub open spec fn mag(x: int) -> int {
    if x >= 0 {
        x
    } else {
        -x
    }
}

/// Division truncating toward zero, the rounding of machine division.
/// Division by zero is given the value 0 here; the fixed-point operations
/// never reach that case (they test the divisor first).
pub open spec fn tdiv(x: int, d: int) -> int {
    if d == 0 {
        0
    } else if (x >= 0) == (d >= 0) {
        mag(x) / mag(d)
    } else {
        -(mag(x) / mag(d))
    }
}

/// Saturating fixed-point addition.
pub open spec fn fx_add(a: int, b: int) -> int {
    sat64(a + b)
}

/// Saturating fixed-point subtraction.
pub open spec fn fx_sub(a: int, b: int) -> int {
    sat64(a - b)
}

/// Saturating fixed-point negation.
pub open spec fn fx_neg(a: int) -> int {
    sat64(-a)
}

/// Saturating fixed-point multiplication: the exact product rescaled by
/// `FX_SCALE`, truncated toward zero.
pub open spec fn fx_mul(a: int, b: int) -> int {
    sat64(tdiv(a * b, FX_SCALE as int))
}

/// Saturating fixed-point division.  A zero divisor yields the saturation
/// bound with the dividend's sign.
pub open spec fn fx_div(a: int, b: int) -> int {
    if b == 0 {
        if a >= 0 {
            i64::MAX as int
        } else {
            i64::MIN as int
        }
    } else {
        sat64(tdiv(a * (FX_SCALE as int), b))
    }
}

/// `x` confined to `[min, max]`.
pub open spec fn clamp_val(x: int, min: int, max: int) -> int {
    if x < min {
        min
    } else if x > max {
        max
    } else {
        x
    }
}

/// `r` is the integer square root of `n`.
pub open spec fn is_isqrt(n: int, r: int) -> bool {
    0 <= r && r * r <= n && n < (r + 1) * (r + 1)
}

/// Integer square root, defined by counting up.
pub open spec fn isqrt(n: nat) -> nat
    decreases n,
{
    if n == 0 {
        0
    } else {
        let r = isqrt((n - 1) as nat);
        if (r + 1) * (r + 1) <= n {
            r + 1
        } else {
            r
        }
    }
}

/// Fixed-point square root: `sqrt(x / S) == isqrt(x * S) / S`.
/// A negative operand (which the geometry never produces) is given the
/// value 0.
pub open spec fn fx_sqrt(x: int) -> int {
    if x <= 0 {
        0
    } else {
        isqrt((x * (FX_SCALE as int)) as nat) as int
    }
}

/// `isqrt` computes the integer square root.
pub proof fn lemma_isqrt_correct(n: nat)
    ensures
        is_isqrt(n as int, isqrt(n) as int),
    decreases n,
{
    if n == 0 {
        assert(is_isqrt(0, 0));
    } else {
        lemma_isqrt_correct((n - 1) as nat);
        let r = isqrt((n - 1) as nat);
        if (r + 1) * (r + 1) <= n {
            assert((r + 1 + 1) * (r + 1 + 1) > n) by (nonlinear_arith)
                requires
                    n - 1 < (r + 1) * (r + 1),
            ;
        }
    }
}

/// The integer square root is unique.
pub proof fn lemma_isqrt_unique(n: int, a: int, b: int)
    by (nonlinear_arith)
    requires
        0 <= a,
        a * a <= n,
        n < (a + 1) * (a + 1),
        0 <= b,
        b * b <= n,
        n < (b + 1) * (b + 1),
    ensures
        a == b,
{
}

/// Truncating division is monotone in the dividend.
pub proof fn lemma_tdiv_monotone(x1: int, x2: int, d: int)
    requires
        x1 <= x2,
        d > 0,
    ensures
        tdiv(x1, d) <= tdiv(x2, d),
{
    if x1 >= 0 {
        vstd::arithmetic::div_mod::lemma_div_is_ordered(x1, x2, d);
    } else if x2 >= 0 {
        vstd::arithmetic::div_mod::lemma_div_pos_is_pos(-x1, d);
        vstd::arithmetic::div_mod::lemma_div_pos_is_pos(x2, d);
    } else {
        vstd::arithmetic::div_mod::lemma_div_is_ordered(-x2, -x1, d);
    }
}

/// Fixed-point division by a non-negative divisor is monotone in the
/// dividend.
pub proof fn lemma_fx_div_monotone(x1: int, x2: int, d: int)
    requires
        x1 <= x2,
        d >= 0,
    ensures
        fx_div(x1, d) <= fx_div(x2, d),
{
    if d > 0 {
        lemma_tdiv_monotone(x1 * (FX_SCALE as int), x2 * (FX_SCALE as int), d);
    }
}

/// Negation is exact, an involution, and cancels against addition on every
/// representable value but `i64::MIN`, whose negation saturates to
/// `i64::MAX` because the `i64` range is asymmetric.
pub proof fn lemma_neg_involutive(a: int)
    requires
        (i64::MIN as int) < a,
        a <= i64::MAX as int,
    ensures
        fx_neg(a) == -a,
        fx_neg(fx_neg(a)) == a,
        fx_add(a, fx_neg(a)) == 0,
{
}

/// Tinting by a factor in `[0, 1]` keeps a non-negative channel between
/// zero and the channel itself: attenuation never brightens.
pub proof fn lemma_fx_mul_unit_range(a: int, g: int)
    requires
        0 <= a <= FX_SCALE as int,
        0 <= g <= i64::MAX as int,
    ensures
        0 <= fx_mul(a, g) <= g,
{
    let s = FX_SCALE as int;
    assert(a * g >= 0) by (nonlinear_arith)
        requires
            a >= 0 && g >= 0,
    ;
    vstd::arithmetic::mul::lemma_mul_inequality(a, s, g);
    vstd::arithmetic::div_mod::lemma_div_pos_is_pos(a * g, s);
    vstd::arithmetic::div_mod::lemma_div_is_ordered(a * g, s * g, s);
    vstd::arithmetic::div_mod::lemma_div_multiples_vanish(g, s);
}

/// A fixed-point square is never negative.
pub proof fn lemma_fx_square_nonneg(c: int)
    ensures
        fx_mul(c, c) >= 0,
{
    assert(c * c >= 0) by (nonlinear_arith);
    vstd::arithmetic::div_mod::lemma_div_pos_is_pos(c * c, FX_SCALE as int);
}

/// A fixed-point scalar: `raw / FX_SCALE`.
#[derive(Debug, Clone, Copy, PartialEq, Eq, Structural)]
pub struct Fx {
    pub raw: i64,
}

impl View for Fx {
    type V = int;

    open spec fn view(&self) -> int {
        self.raw as int
    }
}

/// Magnitude of an `i64`, widened so that `i64::MIN` is representable.
fn mag_u64(x: i64) -> (r: u64)
    ensures
        r as int == mag(x as int),
{
    if x >= 0 {
        x as u64
    } else {
        (-(x as i128)) as u64
    }
}

/// Saturate a magnitude with a sign into the `i64` range.
fn sat_from_mag(neg: bool, q: u128) -> (r: i64)
    ensures
        r as int == sat64(
            if neg {
                -(q as int)
            } else {
                q as int
            },
        ),
{
    if neg {
        if q >= 0x8000_0000_0000_0000u128 {
            i64::MIN
        } else {
            -(q as i64)
        }
    } else {
        if q > 0x7fff_ffff_ffff_ffffu128 {
            i64::MAX
        } else {
            q as i64
        }
    }
}

/// Saturate a signed wide value into the `i64` range.
fn sat_i128(x: i128) -> (r: i64)
    ensures
        r as int == sat64(x as int),
{
    if x > i64::MAX as i128 {
        i64::MAX
    } else if x < i64::MIN as i128 {
        i64::MIN
    } else {
        x as i64
    }
}

/// Integer square root of a value below 2^80, by binary search.
fn isqrt_u128(n: u128) -> (r: u64)
    requires
        n < 0x1_0000_0000_0000_0000_0000u128,
    ensures
        is_isqrt(n as int, r as int),
{
    let mut lo: u64 = 0;
    let mut hi: u64 = 0x100_0000_0000;
    assert((hi as int) * (hi as int) == 0x1_0000_0000_0000_0000_0000int) by (nonlinear_arith)
        requires
            hi == 0x100_0000_0000u64,
    ;
    while lo + 1 < hi
        invariant
            lo < hi <= 0x100_0000_0000u64,
            (lo as int) * (lo as int) <= n as int,
            (n as int) < (hi as int) * (hi as int),
        decreases hi - lo,
    {
        let mid = lo + (hi - lo) / 2;
        proof {
            assert((mid as int) * (mid as int) <= 0x1_0000_0000_0000_0000_0000int)
                by (nonlinear_arith)
                requires
                    0 <= mid as int <= 0x100_0000_0000int,
            ;
        }
        if (mid as u128) * (mid as u128) <= n {
            lo = mid;
        } else {
            hi = mid;
        }
    }
    lo
}

impl Fx {
    /// The scalar with the given raw value.
    pub fn new(raw: i64) -> (r: Fx)
        ensures
            r.raw == raw,
    {
        Fx { raw }
    }

    /// Saturating addition.
    pub fn add(self, o: Fx) -> (r: Fx)
        ensures
            r@ == fx_add(self@, o@),
    {
        Fx { raw: sat_i128(self.raw as i128 + o.raw as i128) }
    }

    /// Saturating subtraction.
    pub fn sub(self, o: Fx) -> (r: Fx)
        ensures
            r@ == fx_sub(self@, o@),
    {
        Fx { raw: sat_i128(self.raw as i128 - o.raw as i128) }
    }

    /// Saturating negation.  The `i64` range is asymmetric, so the one
    /// value `i64::MIN` negates to `i64::MAX` and negation is not an
    /// involution there; every other value negates exactly.
    pub fn neg(self) -> (r: Fx)
        ensures
            r@ == fx_neg(self@),
    {
        Fx { raw: sat_i128(-(self.raw as i128)) }
    }

    /// Saturating multiplication, truncating toward zero.
    pub fn mul(self, o: Fx) -> (r: Fx)
        ensures
            r@ == fx_mul(self@, o@),
    {
        let neg = (self.raw < 0) != (o.raw < 0);
        let ma = mag_u64(self.raw);
        let mb = mag_u64(o.raw);
        proof {
            assert((ma as int) * (mb as int) <= u64::MAX as int * (u64::MAX as int))
                by (nonlinear_arith)
                requires
                    ma as int <= u64::MAX as int,
                    mb as int <= u64::MAX as int,
            ;
        }
        let q: u128 = ((ma as u128) * (mb as u128)) / 65536;
        let raw = sat_from_mag(neg, q);
        proof {
            let a = self.raw as int;
            let b = o.raw as int;
            assert(mag(a * b) == mag(a) * mag(b)) by (nonlinear_arith);
            if (a < 0) == (b < 0) {
                assert(a * b >= 0) by (nonlinear_arith)
                    requires
                        (a < 0) == (b < 0),
                ;
            } else {
                assert(a * b <= 0) by (nonlinear_arith)
                    requires
                        (a < 0) != (b < 0),
                ;
            }
        }
        Fx { raw }
    }

    /// Saturating division, truncating toward zero.  A zero divisor yields
    /// the saturation bound with the dividend's sign.
    pub fn div(self, o: Fx) -> (r: Fx)
        ensures
            r@ == fx_div(self@, o@),
    {
        if o.raw == 0 {
            if self.raw >= 0 {
                Fx { raw: i64::MAX }
            } else {
                Fx { raw: i64::MIN }
            }
        } else {
            let neg = (self.raw < 0) != (o.raw < 0);
            let num: u128 = (mag_u64(self.raw) as u128) * 65536;
            let den: u128 = mag_u64(o.raw) as u128;
            let q: u128 = num / den;
            let raw = sat_from_mag(neg, q);
            proof {
                let a = self.raw as int;
                let b = o.raw as int;
                assert(mag(a * 65536) == mag(a) * 65536);
                assert((a * 65536 >= 0) == (a >= 0));
            }
            Fx { raw }
        }
    }

    /// Fixed-point square root; a non-positive operand yields 0.
    pub fn sqrt(self) -> (r: Fx)
        ensures
            r@ == fx_sqrt(self@),
            r.raw >= 0,
    {
        if self.raw <= 0 {
            Fx { raw: 0 }
        } else {
            let n: u128 = (self.raw as u128) * 65536;
            let root = isqrt_u128(n);
            proof {
                lemma_isqrt_correct(n as nat);
                lemma_isqrt_unique(n as int, root as int, isqrt(n as nat) as int);
                assert(root as int <= 0x100_0000_0000int) by (nonlinear_arith)
                    requires
                        (root as int) * (root as int) <= n as int,
                        n < 0x1_0000_0000_0000_0000_0000u128,
                ;
            }
            Fx { raw: root as i64 }
        }
    }
}

} // verus!
