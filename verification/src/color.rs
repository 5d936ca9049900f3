//! The color model: three 8-bit channels with saturating addition and
//! subtraction, and two scalar paths that the lighting pipeline relies on:
//! multiplication/division by a whole number (saturate, then clamp) and by a
//! fixed-point scalar (exact product, clamp, truncate toward zero).

use vstd::prelude::*;
use crate::fixed::{Fixed, SCALE, absi, tdiv, lemma_mul_bound};

verus! {

/// Clamp a mathematical channel value into `0..=255`.
pub open spec fn clamp_255(x: int) -> int {
    if x < 0 {
        0
    } else if x > 255 {
        255
    } else {
        x
    }
}

#[derive(Debug, Clone, Copy, PartialEq, Eq, Structural)]
pub struct Color {
    pub r: u8,
    pub g: u8,
    pub b: u8,
}

#[inline(always)]
pub fn color(r: u8, g: u8, b: u8) -> (c: Color)
    ensures
        c == (Color { r, g, b }),
{
    Color::new(r, g, b)
}

impl Color {
    pub fn new(r: u8, g: u8, b: u8) -> (c: Color)
        ensures
            c == (Color { r, g, b }),
    {
        Color { r, g, b }
    }
}

impl core::convert::From<[u8; 3]> for Color {
    fn from(a: [u8; 3]) -> (c: Color) {
        Color::new(a[0], a[1], a[2])
    }
}

impl vstd::std_specs::convert::FromSpecImpl<[u8; 3]> for Color {
    open spec fn obeys_from_spec() -> bool {
        true
    }

    open spec fn from_spec(a: [u8; 3]) -> Color {
        Color { r: a[0], g: a[1], b: a[2] }
    }
}

impl core::convert::From<(u8, u8, u8)> for Color {
    fn from(a: (u8, u8, u8)) -> (c: Color) {
        Color::new(a.0, a.1, a.2)
    }
}

impl vstd::std_specs::convert::FromSpecImpl<(u8, u8, u8)> for Color {
    open spec fn obeys_from_spec() -> bool {
        true
    }

    open spec fn from_spec(a: (u8, u8, u8)) -> Color {
        Color { r: a.0, g: a.1, b: a.2 }
    }
}

/// Channel-wise saturating sum.
pub open spec fn spec_color_add(a: Color, b: Color) -> Color {
    Color {
        r: clamp_255(a.r + b.r) as u8,
        g: clamp_255(a.g + b.g) as u8,
        b: clamp_255(a.b + b.b) as u8,
    }
}

/// Channel-wise saturating difference.
pub open spec fn spec_color_sub(a: Color, b: Color) -> Color {
    Color {
        r: clamp_255(a.r - b.r) as u8,
        g: clamp_255(a.g - b.g) as u8,
        b: clamp_255(a.b - b.b) as u8,
    }
}

/// Channel-wise product with a whole-number scalar, clamped to a byte.
pub open spec fn spec_color_mul_int(c: Color, k: int) -> Color {
    Color {
        r: clamp_255(c.r * k) as u8,
        g: clamp_255(c.g * k) as u8,
        b: clamp_255(c.b * k) as u8,
    }
}

/// Channel-wise quotient by a whole-number scalar, clamped to a byte.
pub open spec fn spec_color_div_int(c: Color, k: int) -> Color {
    Color {
        r: clamp_255(tdiv(c.r as int, k)) as u8,
        g: clamp_255(tdiv(c.g as int, k)) as u8,
        b: clamp_255(tdiv(c.b as int, k)) as u8,
    }
}

/// Channel-wise product with a fixed-point scalar of raw value `k`:
/// the exact product, clamped, truncated toward zero.
pub open spec fn spec_color_mul_fx(c: Color, k: int) -> Color {
    Color {
        r: clamp_255(tdiv(c.r * k, SCALE as int)) as u8,
        g: clamp_255(tdiv(c.g * k, SCALE as int)) as u8,
        b: clamp_255(tdiv(c.b * k, SCALE as int)) as u8,
    }
}

/// Channel-wise quotient by a fixed-point scalar of raw value `k`.
pub open spec fn spec_color_div_fx(c: Color, k: int) -> Color {
    Color {
        r: clamp_255(tdiv(c.r * SCALE, k)) as u8,
        g: clamp_255(tdiv(c.g * SCALE, k)) as u8,
        b: clamp_255(tdiv(c.b * SCALE, k)) as u8,
    }
}

fn mul_int_channel(c: u8, k: i64) -> (r: u8)
    ensures
        r as int == clamp_255(c as int * k as int),
{
    if k <= 0 {
        proof {
            lemma_mul_bound(c as int, k as int, 255, absi(k as int));
            assert(c as int * k as int <= 0) by (nonlinear_arith)
                requires
                    c >= 0,
                    k <= 0,
            ;
        }
        0
    } else {
        proof {
            lemma_mul_bound(c as int, k as int, 255, 0x8000000000000000);
        }
        let p: u128 = c as u128 * k as u128;
        if p > 255 {
            255
        } else {
            p as u8
        }
    }
}

fn div_int_channel(c: u8, k: i64) -> (r: u8)
    requires
        k != 0,
    ensures
        r as int == clamp_255(tdiv(c as int, k as int)),
{
    if k < 0 {
        0
    } else {
        let q: u64 = c as u64 / k as u64;
        q as u8
    }
}

fn mul_fx_channel(c: u8, k: Fixed) -> (r: u8)
    ensures
        r as int == clamp_255(tdiv(c as int * k.raw as int, SCALE as int)),
{
    if k.raw <= 0 {
        proof {
            assert(c as int * k.raw as int <= 0) by (nonlinear_arith)
                requires
                    c >= 0,
                    k.raw <= 0,
            ;
        }
        0
    } else {
        proof {
            lemma_mul_bound(c as int, k.raw as int, 255, 0x8000000000000000);
        }
        let p: u128 = c as u128 * k.raw as u128;
        let q: u128 = p / (SCALE as u128);
        if q > 255 {
            255
        } else {
            q as u8
        }
    }
}

fn div_fx_channel(c: u8, k: Fixed) -> (r: u8)
    requires
        k.raw != 0,
    ensures
        r as int == clamp_255(tdiv(c as int * SCALE as int, k.raw as int)),
{
    if k.raw < 0 {
        0
    } else {
        proof {
            lemma_mul_bound(c as int, SCALE as int, 255, 0x10000);
        }
        let p: u128 = c as u128 * SCALE as u128;
        let q: u128 = p / (k.raw as u128);
        proof {
            assert(q <= p) by (nonlinear_arith)
                requires
                    k.raw >= 1,
                    q == p / (k.raw as u128),
            ;
        }
        if q > 255 {
            255
        } else {
            q as u8
        }
    }
}

impl core::ops::Add for Color {
    type Output = Color;

    fn add(self, rhs: Color) -> (res: Color) {
        Color {
            r: self.r.saturating_add(rhs.r),
            g: self.g.saturating_add(rhs.g),
            b: self.b.saturating_add(rhs.b),
        }
    }
}

impl vstd::std_specs::ops::AddSpecImpl for Color {
    open spec fn obeys_add_spec() -> bool {
        true
    }

    open spec fn add_req(self, rhs: Color) -> bool {
        true
    }

    open spec fn add_spec(self, rhs: Color) -> Color {
        spec_color_add(self, rhs)
    }
}

impl core::ops::Sub for Color {
    type Output = Color;

    fn sub(self, rhs: Color) -> (res: Color) {
        Color {
            r: self.r.saturating_sub(rhs.r),
            g: self.g.saturating_sub(rhs.g),
            b: self.b.saturating_sub(rhs.b),
        }
    }
}

impl vstd::std_specs::ops::SubSpecImpl for Color {
    open spec fn obeys_sub_spec() -> bool {
        true
    }

    open spec fn sub_req(self, rhs: Color) -> bool {
        true
    }

    open spec fn sub_spec(self, rhs: Color) -> Color {
        spec_color_sub(self, rhs)
    }
}

impl core::ops::Mul<i64> for Color {
    type Output = Color;

    fn mul(self, rhs: i64) -> (res: Color) {
        Color {
            r: mul_int_channel(self.r, rhs),
            g: mul_int_channel(self.g, rhs),
            b: mul_int_channel(self.b, rhs),
        }
    }
}

impl vstd::std_specs::ops::MulSpecImpl<i64> for Color {
    open spec fn obeys_mul_spec() -> bool {
        true
    }

    open spec fn mul_req(self, rhs: i64) -> bool {
        true
    }

    open spec fn mul_spec(self, rhs: i64) -> Color {
        spec_color_mul_int(self, rhs as int)
    }
}

impl core::ops::Div<i64> for Color {
    type Output = Color;

    fn div(self, rhs: i64) -> (res: Color) {
        Color {
            r: div_int_channel(self.r, rhs),
            g: div_int_channel(self.g, rhs),
            b: div_int_channel(self.b, rhs),
        }
    }
}

impl vstd::std_specs::ops::DivSpecImpl<i64> for Color {
    open spec fn obeys_div_spec() -> bool {
        true
    }

    open spec fn div_req(self, rhs: i64) -> bool {
        rhs != 0
    }

    open spec fn div_spec(self, rhs: i64) -> Color {
        spec_color_div_int(self, rhs as int)
    }
}

impl core::ops::Mul<Fixed> for Color {
    type Output = Color;

    fn mul(self, rhs: Fixed) -> (res: Color) {
        Color {
            r: mul_fx_channel(self.r, rhs),
            g: mul_fx_channel(self.g, rhs),
            b: mul_fx_channel(self.b, rhs),
        }
    }
}

impl vstd::std_specs::ops::MulSpecImpl<Fixed> for Color {
    open spec fn obeys_mul_spec() -> bool {
        true
    }

    open spec fn mul_req(self, rhs: Fixed) -> bool {
        true
    }

    open spec fn mul_spec(self, rhs: Fixed) -> Color {
        spec_color_mul_fx(self, rhs.raw as int)
    }
}

impl core::ops::Div<Fixed> for Color {
    type Output = Color;

    fn div(self, rhs: Fixed) -> (res: Color) {
        Color {
            r: div_fx_channel(self.r, rhs),
            g: div_fx_channel(self.g, rhs),
            b: div_fx_channel(self.b, rhs),
        }
    }
}

impl vstd::std_specs::ops::DivSpecImpl<Fixed> for Color {
    open spec fn obeys_div_spec() -> bool {
        true
    }

    open spec fn div_req(self, rhs: Fixed) -> bool {
        rhs.raw != 0
    }

    open spec fn div_spec(self, rhs: Fixed) -> Color {
        spec_color_div_fx(self, rhs.raw as int)
    }
}

} // verus!
