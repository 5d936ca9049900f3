//! Scene entities: spheres (the intersectable surfaces) and the three
//! kinds of light source.

use vstd::prelude::*;
use crate::color::Color;
use crate::fixed::{Fixed, SCALE, RAW_MAX, absi, clip, tdiv, fx_add, fx_sub, fx_neg, fx_mul, fx_div, fx_sqrt};
use crate::geometry::{Vec3, spec_v_sub, spec_dot};

verus! {

#[derive(Debug, Clone, Copy)]
pub struct Sphere {
    pub pos: Vec3,
    pub radius: Fixed,
    pub color: Color,
    pub specular: Fixed,
    pub reflective: Fixed,
}

#[derive(Debug, Clone, Copy)]
pub enum Light {
    Ambient { intensity: Fixed },
    Directional { intensity: Fixed, direction: Vec3 },
    Point { intensity: Fixed, pos: Vec3 },
}

/// Quadratic coefficient `a = ray . ray`.
pub open spec fn spec_quad_a(ray: Vec3) -> int {
    spec_dot(ray, ray)
}

/// Quadratic coefficient `b = 2 * ((origin - center) . ray)`.
pub open spec fn spec_quad_b(sp: Sphere, origin: Vec3, ray: Vec3) -> int {
    let d0 = spec_dot(spec_v_sub(origin, sp.pos), ray);
    fx_add(d0, d0)
}

/// Quadratic coefficient `c = (origin - center) . (origin - center) - radius^2`.
pub open spec fn spec_quad_c(sp: Sphere, origin: Vec3) -> int {
    let co = spec_v_sub(origin, sp.pos);
    fx_sub(spec_dot(co, co), fx_mul(sp.radius.raw as int, sp.radius.raw as int))
}

/// The discriminant `b^2 - 4*a*c`.
pub open spec fn spec_quad_delta(sp: Sphere, origin: Vec3, ray: Vec3) -> int {
    let a = spec_quad_a(ray);
    let b = spec_quad_b(sp, origin, ray);
    let c = spec_quad_c(sp, origin);
    fx_sub(fx_mul(b, b), fx_mul(fx_mul(4 * SCALE as int, a), c))
}

/// Parameter of the midpoint of the chord: `-b / 2a`, which is also the
/// projection of the sphere's center onto the ray's line.
pub open spec fn spec_chord_mid(sp: Sphere, origin: Vec3, ray: Vec3) -> int {
    fx_div(fx_neg(spec_quad_b(sp, origin, ray)), fx_add(spec_quad_a(ray), spec_quad_a(ray)))
}

/// Half the chord length in ray parameters: `sqrt(delta) / 2a`.
pub open spec fn spec_half_chord(sp: Sphere, origin: Vec3, ray: Vec3) -> int {
    fx_div(fx_sqrt(spec_quad_delta(sp, origin, ray)), fx_add(spec_quad_a(ray), spec_quad_a(ray)))
}

/// Both roots of the ray/sphere quadratic, largest first, or `None` when
/// the discriminant is negative. A degenerate ray whose `a = ray . ray`
/// truncates to zero yields `None` instead of dividing by zero.
pub open spec fn spec_intersect(sp: Sphere, origin: Vec3, ray: Vec3) -> Option<(int, int)> {
    let delta = spec_quad_delta(sp, origin, ray);
    let den = fx_add(spec_quad_a(ray), spec_quad_a(ray));
    if delta < 0 || den == 0 {
        None
    } else {
        let q = spec_chord_mid(sp, origin, ray);
        let h = spec_half_chord(sp, origin, ray);
        Some((fx_add(q, h), fx_sub(q, h)))
    }
}

impl Sphere {
    /// Solve `a t^2 + b t + c = 0` for the ray parameters at which the ray
    /// pierces the sphere; both roots are returned even when they coincide.
    pub fn intersect_ray(&self, origin: Vec3, ray: Vec3) -> (res: Option<(Fixed, Fixed)>)
        ensures
            ({
                let s = spec_intersect(*self, origin, ray);
                match res {
                    None => s is None,
                    Some((t1, t2)) => s == Some((t1.raw as int, t2.raw as int)),
                }
            }),
    {
        let co = origin.sub(self.pos);
        let a = ray.dot(ray);
        let d0 = co.dot(ray);
        let b = d0.add(d0);
        let c = co.dot(co).sub(self.radius.mul(self.radius));

        let delta = b.mul(b).sub(Fixed::from_int(4).mul(a).mul(c));

        if delta.raw < 0 {
            return None;
        }
        let den = a.add(a);
        if den.raw == 0 {
            return None;
        }
        let sqrt = delta.sqrt();
        let q = b.neg().div(den);
        let h = sqrt.div(den);
        Some((q.add(h), q.sub(h)))
    }
}

/// The two returned roots are symmetric about the parameter of the
/// projection of the sphere's center onto the ray: whenever the
/// intersection exists and neither root saturates, `t1 + t2 == 2 * mid`,
/// where `mid` is the chord midpoint `-b / 2a`. For a unit ray
/// (`ray . ray == 1`) whose doubled projection does not saturate, `mid`
/// is exactly `-((origin - center) . ray)`, the projection of the center
/// onto the ray.
pub proof fn lemma_roots_symmetric(sp: Sphere, origin: Vec3, ray: Vec3)
    requires
        spec_intersect(sp, origin, ray) is Some,
        absi(
            spec_chord_mid(sp, origin, ray) + spec_half_chord(sp, origin, ray),
        ) <= RAW_MAX as int,
        absi(
            spec_chord_mid(sp, origin, ray) - spec_half_chord(sp, origin, ray),
        ) <= RAW_MAX as int,
    ensures
        ({
            let (t1, t2) = spec_intersect(sp, origin, ray)->Some_0;
            t1 + t2 == 2 * spec_chord_mid(sp, origin, ray)
        }),
        ({
            let d0 = spec_dot(spec_v_sub(origin, sp.pos), ray);
            spec_quad_a(ray) == SCALE && 2 * absi(d0) <= RAW_MAX as int
                ==> spec_chord_mid(sp, origin, ray) == -d0
        }),
{
    let q = spec_chord_mid(sp, origin, ray);
    let h = spec_half_chord(sp, origin, ray);
    let (t1, t2) = spec_intersect(sp, origin, ray)->Some_0;
    assert(t1 == clip(q + h) && t2 == clip(q - h));
    assert(t1 + t2 == 2 * q);

    let d0 = spec_dot(spec_v_sub(origin, sp.pos), ray);
    if spec_quad_a(ray) == SCALE && 2 * absi(d0) <= RAW_MAX as int {
        let b = spec_quad_b(sp, origin, ray);
        assert(b == 2 * d0);
        let den = fx_add(spec_quad_a(ray), spec_quad_a(ray));
        assert(den == 2 * SCALE);
        assert(q == clip(tdiv(-b * SCALE, 2 * SCALE)));
        assert(tdiv(2 * absi(d0) * SCALE, 2 * SCALE) == absi(d0)) by (nonlinear_arith)
            requires
                SCALE as int > 0,
                absi(d0) >= 0,
        ;
        assert(absi(-b * SCALE) == 2 * absi(d0) * SCALE) by (nonlinear_arith)
            requires
                b == 2 * d0,
                SCALE as int > 0,
        ;
        assert(tdiv(-b * SCALE, 2 * SCALE) == -d0);
    }
}

} // verus!
