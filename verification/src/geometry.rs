//! Geometry primitives: three-component vectors (also used as points),
//! dot product, magnitude, normalization, and the three elementary
//! rotations about the coordinate axes, with fixed-point trigonometry
//! on angles given in degrees.

use vstd::prelude::*;
use crate::fixed::{
    Fixed, SCALE, absi, clip, tdiv, fx_add, fx_sub, fx_neg, fx_mul, fx_div, fx_sqrt,
};

verus! {

/// Build a scalar from an in-range raw value (spec convenience).
pub open spec fn fx(r: int) -> Fixed {
    Fixed { raw: r as i64 }
}

#[derive(Debug, Clone, Copy, PartialEq, Eq, Structural)]
pub struct Vec3 {
    pub x: Fixed,
    pub y: Fixed,
    pub z: Fixed,
}

pub open spec fn spec_v_add(a: Vec3, b: Vec3) -> Vec3 {
    Vec3 {
        x: fx(fx_add(a.x.raw as int, b.x.raw as int)),
        y: fx(fx_add(a.y.raw as int, b.y.raw as int)),
        z: fx(fx_add(a.z.raw as int, b.z.raw as int)),
    }
}

pub open spec fn spec_v_sub(a: Vec3, b: Vec3) -> Vec3 {
    Vec3 {
        x: fx(fx_sub(a.x.raw as int, b.x.raw as int)),
        y: fx(fx_sub(a.y.raw as int, b.y.raw as int)),
        z: fx(fx_sub(a.z.raw as int, b.z.raw as int)),
    }
}

pub open spec fn spec_v_neg(a: Vec3) -> Vec3 {
    Vec3 {
        x: fx(fx_neg(a.x.raw as int)),
        y: fx(fx_neg(a.y.raw as int)),
        z: fx(fx_neg(a.z.raw as int)),
    }
}

/// Scale by the raw value `k` of a fixed-point scalar.
pub open spec fn spec_v_scale(a: Vec3, k: int) -> Vec3 {
    Vec3 {
        x: fx(fx_mul(a.x.raw as int, k)),
        y: fx(fx_mul(a.y.raw as int, k)),
        z: fx(fx_mul(a.z.raw as int, k)),
    }
}

/// Raw value of the dot product: the three channel products summed
/// left to right, each step saturating.
pub open spec fn spec_dot(a: Vec3, b: Vec3) -> int {
    fx_add(
        fx_add(
            fx_mul(a.x.raw as int, b.x.raw as int),
            fx_mul(a.y.raw as int, b.y.raw as int),
        ),
        fx_mul(a.z.raw as int, b.z.raw as int),
    )
}

/// Raw value of the Euclidean magnitude.
pub open spec fn spec_magnitude(a: Vec3) -> int {
    fx_sqrt(spec_dot(a, a))
}

/// The unit vector with the same direction; the zero vector (whose
/// magnitude truncates to zero) is returned unchanged rather than
/// dividing by zero.
pub open spec fn spec_normalize(a: Vec3) -> Vec3 {
    let m = spec_magnitude(a);
    if m == 0 {
        a
    } else {
        Vec3 {
            x: fx(fx_div(a.x.raw as int, m)),
            y: fx(fx_div(a.y.raw as int, m)),
            z: fx(fx_div(a.z.raw as int, m)),
        }
    }
}

impl Vec3 {
    pub fn new(x: Fixed, y: Fixed, z: Fixed) -> (v: Vec3)
        ensures
            v == (Vec3 { x, y, z }),
    {
        Vec3 { x, y, z }
    }

    /// The origin / zero displacement.
    pub fn zero() -> (v: Vec3)
        ensures
            v.x.raw == 0 && v.y.raw == 0 && v.z.raw == 0,
    {
        Vec3 { x: Fixed::zero(), y: Fixed::zero(), z: Fixed::zero() }
    }

    pub fn add(self, o: Vec3) -> (v: Vec3)
        ensures
            v == spec_v_add(self, o),
    {
        Vec3 { x: self.x.add(o.x), y: self.y.add(o.y), z: self.z.add(o.z) }
    }

    pub fn sub(self, o: Vec3) -> (v: Vec3)
        ensures
            v == spec_v_sub(self, o),
    {
        Vec3 { x: self.x.sub(o.x), y: self.y.sub(o.y), z: self.z.sub(o.z) }
    }

    pub fn neg(self) -> (v: Vec3)
        ensures
            v == spec_v_neg(self),
    {
        Vec3 { x: self.x.neg(), y: self.y.neg(), z: self.z.neg() }
    }

    pub fn scale(self, k: Fixed) -> (v: Vec3)
        ensures
            v == spec_v_scale(self, k.raw as int),
    {
        Vec3 { x: self.x.mul(k), y: self.y.mul(k), z: self.z.mul(k) }
    }

    pub fn dot(self, o: Vec3) -> (r: Fixed)
        ensures
            r.raw as int == spec_dot(self, o),
    {
        self.x.mul(o.x).add(self.y.mul(o.y)).add(self.z.mul(o.z))
    }

    pub fn magnitude(self) -> (r: Fixed)
        ensures
            r.raw as int == spec_magnitude(self),
            r.raw >= 0,
    {
        self.dot(self).sqrt()
    }

    pub fn normalize(self) -> (v: Vec3)
        ensures
            v == spec_normalize(self),
    {
        let m = self.magnitude();
        if m.raw == 0 {
            self
        } else {
            Vec3 { x: self.x.div(m), y: self.y.div(m), z: self.z.div(m) }
        }
    }
}

/// 360, 180 and 90 degrees in raw units, and the raw value of one radian
/// per degree (`pi / 180`, rounded to the nearest raw step).
pub const DEG360_RAW: i64 = 23592960;

pub const DEG180_RAW: i64 = 11796480;

pub const DEG90_RAW: i64 = 5898240;

pub const RAD_PER_DEG_RAW: i64 = 1144;

/// An angle reduced into `[0, 360)` degrees (raw units).
pub open spec fn spec_reduce_deg(a: int) -> int {
    let rm = absi(a) % (DEG360_RAW as int);
    if a >= 0 {
        rm
    } else if rm == 0 {
        0
    } else {
        DEG360_RAW - rm
    }
}

fn reduce_deg(a: Fixed) -> (m: i64)
    ensures
        m as int == spec_reduce_deg(a.raw as int),
        0 <= m < DEG360_RAW,
{
    let mag: u128 = if a.raw >= 0 {
        a.raw as u128
    } else {
        (-(a.raw as i128)) as u128
    };
    let rm: u128 = mag % (DEG360_RAW as u128);
    if a.raw >= 0 {
        rm as i64
    } else if rm == 0 {
        0
    } else {
        DEG360_RAW - rm as i64
    }
}

/// Clamp a scalar into `[-1, 1]`.
pub open spec fn spec_clamp_unit(r: int) -> int {
    if r > SCALE {
        SCALE as int
    } else if r < -SCALE {
        -SCALE as int
    } else {
        r
    }
}

fn clamp_unit(v: Fixed) -> (r: Fixed)
    ensures
        r.raw as int == spec_clamp_unit(v.raw as int),
{
    if v.raw > SCALE {
        Fixed { raw: SCALE }
    } else if v.raw < -SCALE {
        Fixed { raw: -SCALE }
    } else {
        v
    }
}

/// Sine on the first quadrant by its Taylor polynomial of degree seven,
/// clamped into `[-1, 1]`.
pub open spec fn spec_sin_quarter(d: int) -> int {
    let x = fx_mul(d, RAD_PER_DEG_RAW as int);
    let x2 = fx_mul(x, x);
    let x3 = fx_mul(x2, x);
    let x5 = fx_mul(x3, x2);
    let x7 = fx_mul(x5, x2);
    spec_clamp_unit(
        fx_add(
            fx_sub(x, clip(tdiv(x3, 6))),
            fx_sub(clip(tdiv(x5, 120)), clip(tdiv(x7, 5040))),
        ),
    )
}

/// Cosine on the first quadrant by its Taylor polynomial of degree six,
/// clamped into `[-1, 1]`.
pub open spec fn spec_cos_quarter(d: int) -> int {
    let x = fx_mul(d, RAD_PER_DEG_RAW as int);
    let x2 = fx_mul(x, x);
    let x4 = fx_mul(x2, x2);
    let x6 = fx_mul(x4, x2);
    spec_clamp_unit(
        fx_add(
            fx_sub(SCALE as int, clip(tdiv(x2, 2))),
            fx_sub(clip(tdiv(x4, 24)), clip(tdiv(x6, 720))),
        ),
    )
}

/// At angle zero the polynomials evaluate exactly: sine 0, cosine 1.
proof fn lemma_quarter_at_zero()
    ensures
        spec_sin_quarter(0) == 0,
        spec_cos_quarter(0) == SCALE,
{
    assert(fx_mul(0, RAD_PER_DEG_RAW as int) == 0);
    assert(fx_mul(0, 0) == 0);
    assert(tdiv(0, 2) == 0 && tdiv(0, 6) == 0 && tdiv(0, 24) == 0);
    assert(tdiv(0, 120) == 0 && tdiv(0, 720) == 0 && tdiv(0, 5040) == 0);
    assert(fx_sub(0, 0) == 0 && fx_add(0, 0) == 0);
    assert(spec_clamp_unit(0) == 0);
    assert(fx_sub(SCALE as int, 0) == SCALE);
    assert(fx_add(SCALE as int, 0) == SCALE);
    assert(spec_clamp_unit(SCALE as int) == SCALE);
}

/// At angle zero the sine is exactly zero and the cosine exactly one.
pub proof fn lemma_trig_at_zero()
    ensures
        spec_sin_deg(0) == 0,
        spec_cos_deg(0) == SCALE,
{
    assert(spec_reduce_deg(0) == 0);
    lemma_quarter_at_zero();
}

fn sin_quarter(d: i64) -> (r: Fixed)
    requires
        0 <= d <= DEG90_RAW,
    ensures
        r.raw as int == spec_sin_quarter(d as int),
{
    let x = Fixed { raw: d }.mul(Fixed { raw: RAD_PER_DEG_RAW });
    let x2 = x.mul(x);
    let x3 = x2.mul(x);
    let x5 = x3.mul(x2);
    let x7 = x5.mul(x2);
    clamp_unit(x.sub(x3.div_int(6)).add(x5.div_int(120).sub(x7.div_int(5040))))
}

fn cos_quarter(d: i64) -> (r: Fixed)
    requires
        0 <= d <= DEG90_RAW,
    ensures
        r.raw as int == spec_cos_quarter(d as int),
{
    let x = Fixed { raw: d }.mul(Fixed { raw: RAD_PER_DEG_RAW });
    let x2 = x.mul(x);
    let x4 = x2.mul(x2);
    let x6 = x4.mul(x2);
    clamp_unit(Fixed { raw: SCALE }.sub(x2.div_int(2)).add(x4.div_int(24).sub(x6.div_int(720))))
}

/// Sine of an angle in degrees, by quadrant reduction.
pub open spec fn spec_sin_deg(a: int) -> int {
    let m = spec_reduce_deg(a);
    if m <= DEG90_RAW {
        spec_sin_quarter(m)
    } else if m <= DEG180_RAW {
        spec_sin_quarter(DEG180_RAW - m)
    } else if m <= DEG180_RAW + DEG90_RAW {
        -spec_sin_quarter(m - DEG180_RAW)
    } else {
        -spec_sin_quarter(DEG360_RAW - m)
    }
}

/// Cosine of an angle in degrees, by quadrant reduction.
pub open spec fn spec_cos_deg(a: int) -> int {
    let m = spec_reduce_deg(a);
    if m <= DEG90_RAW {
        spec_cos_quarter(m)
    } else if m <= DEG180_RAW {
        -spec_cos_quarter(DEG180_RAW - m)
    } else if m <= DEG180_RAW + DEG90_RAW {
        -spec_cos_quarter(m - DEG180_RAW)
    } else {
        spec_cos_quarter(DEG360_RAW - m)
    }
}

pub fn sin_deg(a: Fixed) -> (r: Fixed)
    ensures
        r.raw as int == spec_sin_deg(a.raw as int),
        -SCALE <= r.raw <= SCALE,
        a.raw == 0 ==> r.raw == 0,
{
    let m = reduce_deg(a);
    let res = if m <= DEG90_RAW {
        sin_quarter(m)
    } else if m <= DEG180_RAW {
        sin_quarter(DEG180_RAW - m)
    } else if m <= DEG180_RAW + DEG90_RAW {
        sin_quarter(m - DEG180_RAW).neg()
    } else {
        sin_quarter(DEG360_RAW - m).neg()
    };
    proof {
        if a.raw == 0 {
            assert(spec_reduce_deg(0) == 0);
            lemma_quarter_at_zero();
        }
    }
    res
}

pub fn cos_deg(a: Fixed) -> (r: Fixed)
    ensures
        r.raw as int == spec_cos_deg(a.raw as int),
        -SCALE <= r.raw <= SCALE,
        a.raw == 0 ==> r.raw == SCALE,
{
    let m = reduce_deg(a);
    let res = if m <= DEG90_RAW {
        cos_quarter(m)
    } else if m <= DEG180_RAW {
        cos_quarter(DEG180_RAW - m).neg()
    } else if m <= DEG180_RAW + DEG90_RAW {
        cos_quarter(m - DEG180_RAW).neg()
    } else {
        cos_quarter(DEG360_RAW - m)
    };
    proof {
        if a.raw == 0 {
            assert(spec_reduce_deg(0) == 0);
            lemma_quarter_at_zero();
        }
    }
    res
}

/// Rotation about the x axis with the given sine and cosine:
/// `y' = c*y + s*z`, `z' = c*z - s*y`, `x` unchanged.
pub open spec fn spec_rot_x(v: Vec3, s: int, c: int) -> Vec3 {
    Vec3 {
        x: v.x,
        y: fx(fx_add(fx_mul(c, v.y.raw as int), fx_mul(s, v.z.raw as int))),
        z: fx(fx_sub(fx_mul(c, v.z.raw as int), fx_mul(s, v.y.raw as int))),
    }
}

/// Rotation about the y axis: `x' = c*x - s*z`, `z' = s*x + c*z`.
pub open spec fn spec_rot_y(v: Vec3, s: int, c: int) -> Vec3 {
    Vec3 {
        x: fx(fx_sub(fx_mul(c, v.x.raw as int), fx_mul(s, v.z.raw as int))),
        y: v.y,
        z: fx(fx_add(fx_mul(s, v.x.raw as int), fx_mul(c, v.z.raw as int))),
    }
}

/// Rotation about the z axis: `x' = c*x + s*y`, `y' = c*y - s*x`.
pub open spec fn spec_rot_z(v: Vec3, s: int, c: int) -> Vec3 {
    Vec3 {
        x: fx(fx_add(fx_mul(c, v.x.raw as int), fx_mul(s, v.y.raw as int))),
        y: fx(fx_sub(fx_mul(c, v.y.raw as int), fx_mul(s, v.x.raw as int))),
        z: v.z,
    }
}

pub fn rot_x(v: Vec3, s: Fixed, c: Fixed) -> (r: Vec3)
    ensures
        r == spec_rot_x(v, s.raw as int, c.raw as int),
{
    Vec3 {
        x: v.x,
        y: c.mul(v.y).add(s.mul(v.z)),
        z: c.mul(v.z).sub(s.mul(v.y)),
    }
}

pub fn rot_y(v: Vec3, s: Fixed, c: Fixed) -> (r: Vec3)
    ensures
        r == spec_rot_y(v, s.raw as int, c.raw as int),
{
    Vec3 {
        x: c.mul(v.x).sub(s.mul(v.z)),
        y: v.y,
        z: s.mul(v.x).add(c.mul(v.z)),
    }
}

pub fn rot_z(v: Vec3, s: Fixed, c: Fixed) -> (r: Vec3)
    ensures
        r == spec_rot_z(v, s.raw as int, c.raw as int),
{
    Vec3 {
        x: c.mul(v.x).add(s.mul(v.y)),
        y: c.mul(v.y).sub(s.mul(v.x)),
        z: v.z,
    }
}

} // verus!
