//! Three-component vectors over saturating fixed-point scalars, used
//! interchangeably as points, directions and RGB colors.

use vstd::prelude::*;
use crate::fixed::{
    add_s, div_s, fadd, fdiv, fmul, fneg, fsqrt, fsub, fsum3, mag, mul_s, neg_s, sat64, sqrt_s,
    sub_s, tdiv, FMAX, SCALE,
};

verus! {

/// A vector of three fixed-point components.
#[derive(Clone, Copy, PartialEq, Eq, Structural, Debug)]
pub struct Vec3 {
    pub x: i64,
    pub y: i64,
    pub z: i64,
}

/// An output color: one integer per channel, each at most the sink's maximum.
#[derive(Clone, Copy, PartialEq, Eq, Structural, Debug)]
pub struct Rgb {
    pub r: u16,
    pub g: u16,
    pub b: u16,
}

/// Build a vector from mathematical components known to be in range.
pub open spec fn sv(x: int, y: int, z: int) -> Vec3 {
    Vec3 { x: x as i64, y: y as i64, z: z as i64 }
}

/// All components within the clamped range, as every operation guarantees.
pub open spec fn proper(v: Vec3) -> bool {
    &&& -(FMAX as int) <= v.x
    &&& -(FMAX as int) <= v.y
    &&& -(FMAX as int) <= v.z
}

pub open spec fn add_v(a: Vec3, b: Vec3) -> Vec3 {
    sv(add_s(a.x as int, b.x as int), add_s(a.y as int, b.y as int), add_s(a.z as int, b.z as int))
}

pub open spec fn sub_v(a: Vec3, b: Vec3) -> Vec3 {
    sv(sub_s(a.x as int, b.x as int), sub_s(a.y as int, b.y as int), sub_s(a.z as int, b.z as int))
}

pub open spec fn neg_v(a: Vec3) -> Vec3 {
    sv(neg_s(a.x as int), neg_s(a.y as int), neg_s(a.z as int))
}

/// Scale by a fixed-point factor.
pub open spec fn scale_v(a: Vec3, t: int) -> Vec3 {
    sv(mul_s(a.x as int, t), mul_s(a.y as int, t), mul_s(a.z as int, t))
}

/// Divide by a fixed-point factor (zero divisor yields the zero vector).
pub open spec fn scale_div_v(a: Vec3, t: int) -> Vec3 {
    sv(div_s(a.x as int, t), div_s(a.y as int, t), div_s(a.z as int, t))
}

/// Component-wise product, used for color attenuation.
pub open spec fn hadamard_v(a: Vec3, b: Vec3) -> Vec3 {
    sv(mul_s(a.x as int, b.x as int), mul_s(a.y as int, b.y as int), mul_s(a.z as int, b.z as int))
}

pub open spec fn dot_s(a: Vec3, b: Vec3) -> int {
    sat64(
        mul_s(a.x as int, b.x as int) + mul_s(a.y as int, b.y as int) + mul_s(
            a.z as int,
            b.z as int,
        ),
    )
}

pub open spec fn cross_v(a: Vec3, b: Vec3) -> Vec3 {
    sv(
        sub_s(mul_s(a.y as int, b.z as int), mul_s(a.z as int, b.y as int)),
        sub_s(mul_s(a.z as int, b.x as int), mul_s(a.x as int, b.z as int)),
        sub_s(mul_s(a.x as int, b.y as int), mul_s(a.y as int, b.x as int)),
    )
}

pub open spec fn len2_s(a: Vec3) -> int {
    dot_s(a, a)
}

pub open spec fn len_s(a: Vec3) -> int {
    sqrt_s(len2_s(a))
}

/// The unit vector in the direction of `a`; the zero vector when `a` has zero
/// length (callers must guard, as the length contract makes visible).
pub open spec fn unit_v(a: Vec3) -> Vec3 {
    scale_div_v(a, len_s(a))
}

/// Mirror `v` about the plane with unit normal `n`: `v - 2*dot(v,n)*n`.
pub open spec fn reflect_v(v: Vec3, n: Vec3) -> Vec3 {
    sub_v(v, scale_v(n, add_s(dot_s(v, n), dot_s(v, n))))
}

/// Refraction by Snell's law: bend the unit direction `uv` at a surface with
/// unit normal `n`, for the given ratio of refractive indices.  The parallel
/// part takes the square root of the magnitude of `1 - |perp|^2`, as the
/// degenerate-geometry convention requires a defined result everywhere.
pub open spec fn refract_v(uv: Vec3, n: Vec3, ratio: int) -> Vec3 {
    let cos = crate::fixed::min_s(dot_s(neg_v(uv), n), SCALE as int);
    let perp = scale_v(add_v(uv, scale_v(n, cos)), ratio);
    let k = sub_s(SCALE as int, len2_s(perp));
    add_v(perp, scale_v(n, -sqrt_s(mag(k))))
}

/// True when every component is below one stored quantum in magnitude, the
/// degenerate-direction test for scattering.
pub open spec fn near_zero_s(v: Vec3) -> bool {
    mag(v.x as int) < 1 && mag(v.y as int) < 1 && mag(v.z as int) < 1
}

/// Linear-to-gamma correction: square root of each channel.
pub open spec fn gamma_v(v: Vec3) -> Vec3 {
    sv(sqrt_s(v.x as int), sqrt_s(v.y as int), sqrt_s(v.z as int))
}

/// One output channel: scale a fixed-point intensity in `[0, 1]` to
/// `[0, max]`, clamping out-of-range intensities.
pub open spec fn channel_s(c: int, max: u16) -> int {
    let t = tdiv(c * (max as int), SCALE as int);
    if t < 0 {
        0
    } else if t > max as int {
        max as int
    } else {
        t
    }
}

/// The output color of a fixed-point RGB vector for a sink with per-channel
/// maximum `max`.
pub open spec fn color_s(v: Vec3, max: u16) -> Rgb {
    Rgb {
        r: channel_s(v.x as int, max) as u16,
        g: channel_s(v.y as int, max) as u16,
        b: channel_s(v.z as int, max) as u16,
    }
}

/// All components in `[0, 1]`: a well-formed color intensity.
pub open spec fn unit_box(v: Vec3) -> bool {
    &&& 0 <= v.x <= SCALE
    &&& 0 <= v.y <= SCALE
    &&& 0 <= v.z <= SCALE
}

/// Attenuation keeps colors in the unit box: the component-wise product of
/// two vectors with components in `[0, 1]` has components in `[0, 1]`.
pub proof fn lemma_hadamard_unit_box(a: Vec3, b: Vec3)
    requires
        unit_box(a),
        unit_box(b),
    ensures
        unit_box(hadamard_v(a, b)),
{
    crate::fixed::lemma_mul_s_unit(a.x as int, b.x as int);
    crate::fixed::lemma_mul_s_unit(a.y as int, b.y as int);
    crate::fixed::lemma_mul_s_unit(a.z as int, b.z as int);
}

/// Attenuating black gives black: the component-wise product with the zero
/// vector is the zero vector.
pub proof fn lemma_hadamard_zero(a: Vec3)
    ensures
        hadamard_v(a, sv(0, 0, 0)) == sv(0, 0, 0),
{
    assert(a.x as int * 0 == 0) by (nonlinear_arith);
    assert(a.y as int * 0 == 0) by (nonlinear_arith);
    assert(a.z as int * 0 == 0) by (nonlinear_arith);
}

/// A square in fixed point is never negative.
pub proof fn lemma_mul_s_sq_nonneg(a: int)
    ensures
        mul_s(a, a) >= 0,
{
    assert(a * a >= 0) by (nonlinear_arith);
}

/// Multiplying by a negated factor negates the fixed-point product.
pub proof fn lemma_mul_s_neg(a: int, b: int)
    ensures
        mul_s(a, -b) == -mul_s(a, b),
{
    assert(a * (-b) == -(a * b)) by (nonlinear_arith);
}

/// Negating one argument negates the dot product, for vectors in range.
pub proof fn lemma_dot_neg(a: Vec3, b: Vec3)
    requires
        proper(b),
    ensures
        dot_s(a, neg_v(b)) == -dot_s(a, b),
{
    lemma_mul_s_neg(a.x as int, b.x as int);
    lemma_mul_s_neg(a.y as int, b.y as int);
    lemma_mul_s_neg(a.z as int, b.z as int);
    assert(neg_v(b).x as int == -(b.x as int));
    assert(neg_v(b).y as int == -(b.y as int));
    assert(neg_v(b).z as int == -(b.z as int));
}

/// The squared length is never negative.
pub proof fn lemma_len2_nonneg(a: Vec3)
    ensures
        len2_s(a) >= 0,
{
    lemma_mul_s_sq_nonneg(a.x as int);
    lemma_mul_s_sq_nonneg(a.y as int);
    lemma_mul_s_sq_nonneg(a.z as int);
}

impl Vec3 {
    /// Build a vector from stored fixed-point components, clamped into range.
    pub fn new(x: i64, y: i64, z: i64) -> (r: Vec3)
        ensures
            r == sv(sat64(x as int), sat64(y as int), sat64(z as int)),
            proper(r),
    {
        Vec3 { x: fadd(x, 0), y: fadd(y, 0), z: fadd(z, 0) }
    }

    /// Build a vector from whole real units.
    pub fn new_i32(x: i32, y: i32, z: i32) -> (r: Vec3)
        ensures
            r == sv(x as int * SCALE as int, y as int * SCALE as int, z as int * SCALE as int),
            proper(r),
    {
        Vec3 { x: (x as i64) * 65536, y: (y as i64) * 65536, z: (z as i64) * 65536 }
    }

    pub fn zero() -> (r: Vec3)
        ensures
            r == sv(0, 0, 0),
            proper(r),
    {
        Vec3 { x: 0, y: 0, z: 0 }
    }

    pub fn one() -> (r: Vec3)
        ensures
            r == sv(SCALE as int, SCALE as int, SCALE as int),
            proper(r),
    {
        Vec3 { x: 65536, y: 65536, z: 65536 }
    }

    pub fn add(self, o: Vec3) -> (r: Vec3)
        ensures
            r == add_v(self, o),
            proper(r),
    {
        Vec3 { x: fadd(self.x, o.x), y: fadd(self.y, o.y), z: fadd(self.z, o.z) }
    }

    pub fn sub(self, o: Vec3) -> (r: Vec3)
        ensures
            r == sub_v(self, o),
            proper(r),
    {
        Vec3 { x: fsub(self.x, o.x), y: fsub(self.y, o.y), z: fsub(self.z, o.z) }
    }

    pub fn neg(self) -> (r: Vec3)
        ensures
            r == neg_v(self),
            proper(r),
    {
        Vec3 { x: fneg(self.x), y: fneg(self.y), z: fneg(self.z) }
    }

    pub fn scale(self, t: i64) -> (r: Vec3)
        ensures
            r == scale_v(self, t as int),
            proper(r),
    {
        Vec3 { x: fmul(self.x, t), y: fmul(self.y, t), z: fmul(self.z, t) }
    }

    pub fn scale_div(self, t: i64) -> (r: Vec3)
        ensures
            r == scale_div_v(self, t as int),
            proper(r),
    {
        Vec3 { x: fdiv(self.x, t), y: fdiv(self.y, t), z: fdiv(self.z, t) }
    }

    pub fn hadamard(self, o: Vec3) -> (r: Vec3)
        ensures
            r == hadamard_v(self, o),
            proper(r),
    {
        Vec3 { x: fmul(self.x, o.x), y: fmul(self.y, o.y), z: fmul(self.z, o.z) }
    }

    pub fn dot(&self, o: &Vec3) -> (r: i64)
        ensures
            r as int == dot_s(*self, *o),
    {
        fsum3(fmul(self.x, o.x), fmul(self.y, o.y), fmul(self.z, o.z))
    }

    pub fn cross(&self, o: &Vec3) -> (r: Vec3)
        ensures
            r == cross_v(*self, *o),
            proper(r),
    {
        Vec3 {
            x: fsub(fmul(self.y, o.z), fmul(self.z, o.y)),
            y: fsub(fmul(self.z, o.x), fmul(self.x, o.z)),
            z: fsub(fmul(self.x, o.y), fmul(self.y, o.x)),
        }
    }

    pub fn length_squared(&self) -> (r: i64)
        ensures
            r as int == len2_s(*self),
            r >= 0,
    {
        proof {
            lemma_len2_nonneg(*self);
        }
        self.dot(self)
    }

    pub fn length(&self) -> (r: i64)
        ensures
            r as int == len_s(*self),
            r >= 0,
    {
        proof {
            lemma_len2_nonneg(*self);
        }
        fsqrt(self.length_squared())
    }

    /// The unit vector in this direction; the zero vector when the length is
    /// zero.
    pub fn normal(&self) -> (r: Vec3)
        ensures
            r == unit_v(*self),
            proper(r),
    {
        self.scale_div(self.length())
    }

    /// Mirror about the plane with unit normal `n`.
    pub fn reflected(&self, n: &Vec3) -> (r: Vec3)
        ensures
            r == reflect_v(*self, *n),
            proper(r),
    {
        let d: i64 = self.dot(n);
        self.sub(n.scale(fadd(d, d)))
    }

    /// Refract this unit direction at a surface with unit normal `n`, for the
    /// given ratio of refractive indices.
    pub fn refracted(&self, n: &Vec3, ratio: i64) -> (r: Vec3)
        ensures
            r == refract_v(*self, *n, ratio as int),
            proper(r),
    {
        let cos: i64 = crate::fixed::fmin(self.neg().dot(n), 65536);
        let perp: Vec3 = self.add(n.scale(cos)).scale(ratio);
        let k: i64 = fsub(65536, perp.length_squared());
        let km: i64 = if k < 0 {
            -k
        } else {
            k
        };
        perp.add(n.scale(fneg(fsqrt(km))))
    }

    /// True when every component is below one stored quantum in magnitude.
    pub fn near_zero(&self) -> (r: bool)
        ensures
            r == near_zero_s(*self),
    {
        let ax: bool = -1 < self.x && self.x < 1;
        let ay: bool = -1 < self.y && self.y < 1;
        let az: bool = -1 < self.z && self.z < 1;
        ax && ay && az
    }

    /// Linear-to-gamma correction: replace each channel by its square root.
    pub fn color_correct(&mut self)
        ensures
            *final(self) == gamma_v(*old(self)),
            proper(*final(self)),
    {
        self.x = fsqrt(self.x);
        self.y = fsqrt(self.y);
        self.z = fsqrt(self.z);
    }

    /// Scale and clamp each channel to `[0, max]` for the image sink.
    pub fn color(&self, max: u16) -> (r: Rgb)
        ensures
            r == color_s(*self, max),
    {
        Rgb {
            r: channel(self.x, max),
            g: channel(self.y, max),
            b: channel(self.z, max),
        }
    }
}

/// Scale one fixed-point channel intensity to the sink's integer range.
fn channel(c: i64, max: u16) -> (r: u16)
    ensures
        r as int == channel_s(c as int, max),
{
    proof {
        crate::fixed::lemma_mag_mul(c as int, max as int);
    }
    if c <= 0 {
        assert(tdiv(c as int * max as int, SCALE as int) <= 0) by {
            assert(mag(c as int * max as int) / (SCALE as int) >= 0) by (nonlinear_arith)
                requires
                    mag(c as int * max as int) >= 0,
            ;
        }
        return 0;
    }
    let cu: u128 = c as u128;
    let mu: u128 = max as u128;
    assert(cu * mu <= 0x8000000000000000 * 65536) by (nonlinear_arith)
        requires
            cu <= 0x8000000000000000,
            mu <= 65536,
    ;
    let p: u128 = cu * mu;
    let q: u128 = p / 65536u128;
    if q > max as u128 {
        max
    } else {
        q as u16
    }
}

} // verus!
