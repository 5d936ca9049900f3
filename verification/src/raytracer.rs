//! The trace engine: closest-intersection search, the lighting model with
//! shadow tests, recursive reflection, and the full-frame render loop.

use vstd::prelude::*;
use crate::camera::{Camera, Viewport};
use crate::canvas::{Canvas, spec_in_canvas, spec_pixel_index};
use crate::color::{Color, spec_color_add, spec_color_mul_fx};
use crate::fixed::{Fixed, SCALE, RAW_MAX, clip, tdiv, fx_add, fx_sub, fx_mul, fx_div};
use crate::geometry::{
    Vec3, fx, spec_v_add, spec_v_sub, spec_v_neg, spec_v_scale, spec_dot, spec_magnitude,
    spec_normalize, spec_rot_x, spec_rot_y, spec_rot_z, spec_sin_deg, spec_cos_deg, rot_x, rot_y,
    rot_z, sin_deg, cos_deg,
};
use crate::scene::{Sphere, Light, spec_intersect};

verus! {

/// Offset used for shadow and reflection rays, about 0.001 in raw units.
pub const EPS_RAW: i64 = 65;

/// An upper ray-parameter bound: a finite value, or none at all.
#[derive(Debug, Clone, Copy)]
pub enum Bound {
    Finite(Fixed),
    Unbounded,
}

/// `t` lies below the upper bound.
pub open spec fn spec_below(t: int, tmax: Bound) -> bool {
    match tmax {
        Bound::Finite(m) => t < m.raw,
        Bound::Unbounded => true,
    }
}

/// `t` lies strictly inside the open parameter interval.
pub open spec fn spec_root_valid(t: int, tmin: int, tmax: Bound) -> bool {
    tmin < t && spec_below(t, tmax)
}

/// The reflection of `ray` about the normal `n`: `2*n*(n . ray) - ray`.
pub open spec fn spec_reflect(ray: Vec3, n: Vec3) -> Vec3 {
    spec_v_sub(spec_v_scale(spec_v_scale(n, spec_dot(n, ray)), 2 * SCALE as int), ray)
}

pub fn reflect_ray(ray: Vec3, n: Vec3) -> (r: Vec3)
    ensures
        r == spec_reflect(ray, n),
{
    n.scale(n.dot(ray)).scale(Fixed::from_int(2)).sub(ray)
}

/// The camera rotation applied to a viewport vector: first about z, then
/// about x, then about y (a deliberate, preserved composition order).
pub open spec fn spec_rotate_cam_ray(v: Vec3, ax: int, ay: int, az: int) -> Vec3 {
    let v0 = spec_rot_z(v, spec_sin_deg(az), spec_cos_deg(az));
    let v1 = spec_rot_x(v0, spec_sin_deg(ax), spec_cos_deg(ax));
    spec_rot_y(v1, spec_sin_deg(ay), spec_cos_deg(ay))
}

pub fn rotate_cam_ray(v: Vec3, x: Fixed, y: Fixed, z: Fixed) -> (r: Vec3)
    ensures
        r == spec_rotate_cam_ray(v, x.raw as int, y.raw as int, z.raw as int),
{
    let v0 = rot_z(v, sin_deg(z), cos_deg(z));
    let v1 = rot_x(v0, sin_deg(x), cos_deg(x));
    rot_y(v1, sin_deg(y), cos_deg(y))
}

/// With all three angles zero the camera rotation leaves the vector
/// unchanged (components at the very edge of the raw range excluded,
/// where saturation would intervene).
pub proof fn lemma_rotate_cam_ray_identity(v: Vec3)
    requires
        v.x.raw > i64::MIN,
        v.y.raw > i64::MIN,
        v.z.raw > i64::MIN,
    ensures
        spec_rotate_cam_ray(v, 0, 0, 0) == v,
{
    crate::geometry::lemma_trig_at_zero();
    assert(fx_mul(SCALE as int, v.x.raw as int) == v.x.raw as int) by (nonlinear_arith)
        requires
            SCALE as int > 0,
            -0x7fffffffffffffff <= v.x.raw as int <= 0x7fffffffffffffff,
    ;
    assert(fx_mul(SCALE as int, v.y.raw as int) == v.y.raw as int) by (nonlinear_arith)
        requires
            SCALE as int > 0,
            -0x7fffffffffffffff <= v.y.raw as int <= 0x7fffffffffffffff,
    ;
    assert(fx_mul(SCALE as int, v.z.raw as int) == v.z.raw as int) by (nonlinear_arith)
        requires
            SCALE as int > 0,
            -0x7fffffffffffffff <= v.z.raw as int <= 0x7fffffffffffffff,
    ;
    assert(fx_mul(0, v.x.raw as int) == 0);
    assert(fx_mul(0, v.y.raw as int) == 0);
    assert(fx_mul(0, v.z.raw as int) == 0);
}

/// The viewport-space direction of the centered pixel coordinate
/// `(x, y)`, rotated by the camera's orientation:
/// `(x * vw/cw, y * vh/ch, distance)` rotated about z, then x, then y.
pub open spec fn spec_canvas_to_viewport(
    camera: Camera,
    viewport: Viewport,
    cw: int,
    ch: int,
    x: int,
    y: int,
) -> Vec3 {
    let vx = fx(fx_mul(clip(x * SCALE), fx_div(viewport.width.raw as int, clip(cw * SCALE))));
    let vy = fx(fx_mul(clip(y * SCALE), fx_div(viewport.height.raw as int, clip(ch * SCALE))));
    spec_rotate_cam_ray(
        Vec3 { x: vx, y: vy, z: viewport.distance },
        camera.rot_x.raw as int,
        camera.rot_y.raw as int,
        camera.rot_z.raw as int,
    )
}

#[derive(Debug, Clone)]
pub struct RayTracer {
    pub canvas: Canvas,
    pub camera: Camera,
    pub viewport: Viewport,
    pub background: Color,
    pub spheres: Vec<Sphere>,
    pub lights: Vec<Light>,
    pub recursion_depth: u32,
}

/// One candidate root folded into the best hit so far: a strictly closer
/// valid root replaces it, so equal roots keep the earlier sphere.
pub open spec fn spec_consider(
    best: Option<(int, int)>,
    j: int,
    t: int,
    tmin: int,
    tmax: Bound,
) -> Option<(int, int)> {
    if spec_root_valid(t, tmin, tmax) && (best is None || t < best->Some_0.1) {
        Some((j, t))
    } else {
        best
    }
}

/// The best hit among the first `n` spheres, scanning in order and
/// considering each sphere's two roots in turn.
pub open spec fn spec_closest_upto(
    spheres: Seq<Sphere>,
    origin: Vec3,
    ray: Vec3,
    tmin: int,
    tmax: Bound,
    n: int,
) -> Option<(int, int)>
    decreases n,
{
    if n <= 0 {
        None
    } else {
        let prev = spec_closest_upto(spheres, origin, ray, tmin, tmax, n - 1);
        match spec_intersect(spheres[n - 1], origin, ray) {
            None => prev,
            Some((t1, t2)) => spec_consider(
                spec_consider(prev, n - 1, t1, tmin, tmax),
                n - 1,
                t2,
                tmin,
                tmax,
            ),
        }
    }
}

/// The closest intersection over the whole sphere list.
pub open spec fn spec_closest(
    spheres: Seq<Sphere>,
    origin: Vec3,
    ray: Vec3,
    tmin: int,
    tmax: Bound,
) -> Option<(int, int)> {
    spec_closest_upto(spheres, origin, ray, tmin, tmax, spheres.len() as int)
}

/// Sphere `j` has some valid root in the interval.
pub open spec fn spec_sphere_hits(
    spheres: Seq<Sphere>,
    j: int,
    origin: Vec3,
    ray: Vec3,
    tmin: int,
    tmax: Bound,
) -> bool {
    match spec_intersect(spheres[j], origin, ray) {
        None => false,
        Some((t1, t2)) => spec_root_valid(t1, tmin, tmax) || spec_root_valid(t2, tmin, tmax),
    }
}

/// Sphere `j` has the valid root `t`.
pub open spec fn spec_has_root(
    spheres: Seq<Sphere>,
    j: int,
    origin: Vec3,
    ray: Vec3,
    tmin: int,
    tmax: Bound,
    t: int,
) -> bool {
    spec_root_valid(t, tmin, tmax) && match spec_intersect(spheres[j], origin, ray) {
        None => false,
        Some((t1, t2)) => t == t1 || t == t2,
    }
}

/// What the closest-intersection scan returns: nothing exactly when no
/// sphere has a valid root; otherwise a valid root of the reported
/// sphere, no valid root anywhere is smaller, and among spheres with a
/// root exactly this small the earliest wins.
#[verifier::rlimit(100)]
pub proof fn lemma_closest_properties(
    spheres: Seq<Sphere>,
    origin: Vec3,
    ray: Vec3,
    tmin: int,
    tmax: Bound,
    n: int,
)
    requires
        0 <= n <= spheres.len(),
    ensures
        spec_closest_upto(spheres, origin, ray, tmin, tmax, n) is None <==> (forall|j: int|
            0 <= j < n ==> !spec_sphere_hits(spheres, j, origin, ray, tmin, tmax)),
        spec_closest_upto(spheres, origin, ray, tmin, tmax, n) matches Some((i, t)) ==> {
            &&& 0 <= i < n
            &&& spec_has_root(spheres, i, origin, ray, tmin, tmax, t)
            &&& forall|j: int, r: int|
                0 <= j < n && #[trigger] spec_has_root(spheres, j, origin, ray, tmin, tmax, r)
                    ==> t <= r
            &&& forall|j: int|
                0 <= j < i ==> !spec_has_root(spheres, j, origin, ray, tmin, tmax, t)
        },
    decreases n,
{
    if n > 0 {
        lemma_closest_properties(spheres, origin, ray, tmin, tmax, n - 1);
        let prev = spec_closest_upto(spheres, origin, ray, tmin, tmax, n - 1);
        let cur = spec_closest_upto(spheres, origin, ray, tmin, tmax, n);
        assert forall|j: int, r: int|
            0 <= j < n - 1 && #[trigger] spec_has_root(spheres, j, origin, ray, tmin, tmax, r)
                implies spec_sphere_hits(spheres, j, origin, ray, tmin, tmax) by {}
        match spec_intersect(spheres[n - 1], origin, ray) {
            None => {
                assert(cur == prev);
                assert(!spec_sphere_hits(spheres, n - 1, origin, ray, tmin, tmax));
                if cur is None {
                    assert forall|j: int| 0 <= j < n implies !spec_sphere_hits(
                        spheres,
                        j,
                        origin,
                        ray,
                        tmin,
                        tmax,
                    ) by {}
                }
            },
            Some((t1, t2)) => {
                let mid = spec_consider(prev, n - 1, t1, tmin, tmax);
                assert(cur == spec_consider(mid, n - 1, t2, tmin, tmax));
                let valid1 = spec_root_valid(t1, tmin, tmax);
                let valid2 = spec_root_valid(t2, tmin, tmax);
                if cur is None {
                    assert(mid is None && prev is None);
                    assert(!valid1 && !valid2);
                    assert forall|j: int| 0 <= j < n implies !spec_sphere_hits(
                        spheres,
                        j,
                        origin,
                        ray,
                        tmin,
                        tmax,
                    ) by {}
                } else {
                    let (i, t) = cur->Some_0;
                    assert(spec_sphere_hits(spheres, n - 1, origin, ray, tmin, tmax) || !(prev
                        is None));
                    // The new best is a valid root of its sphere.
                    assert(spec_has_root(spheres, i, origin, ray, tmin, tmax, t));
                    // No valid root anywhere among the first n spheres is smaller.
                    assert forall|j: int, r: int|
                        0 <= j < n && #[trigger] spec_has_root(
                            spheres,
                            j,
                            origin,
                            ray,
                            tmin,
                            tmax,
                            r,
                        ) implies t <= r by {
                        if j < n - 1 {
                            assert(prev matches Some((pi, pt)) && pt <= r);
                        }
                    }
                    // Among spheres attaining the best root, the earliest wins.
                    assert forall|j: int| 0 <= j < i implies !spec_has_root(
                        spheres,
                        j,
                        origin,
                        ray,
                        tmin,
                        tmax,
                        t,
                    ) by {
                        if i == n - 1 && j < n - 1 {
                            if spec_has_root(spheres, j, origin, ray, tmin, tmax, t) {
                                assert(prev matches Some((pi, pt)) && pt <= t);
                            }
                        }
                    }
                }
            },
        }
    }
}

/// `base^n` in fixed point, multiplying from the left.
pub open spec fn spec_powu(base: int, n: nat) -> int
    decreases n,
{
    if n == 0 {
        SCALE as int
    } else {
        fx_mul(base, spec_powu(base, (n - 1) as nat))
    }
}

fn pow_unit(base: Fixed, n: u64) -> (r: Fixed)
    ensures
        r.raw as int == spec_powu(base.raw as int, n as nat),
{
    let mut acc = Fixed::one();
    let mut i: u64 = 0;
    while i < n
        invariant
            i <= n,
            acc.raw as int == spec_powu(base.raw as int, i as nat),
        decreases n - i,
    {
        acc = base.mul(acc);
        i = i + 1;
    }
    acc
}

/// The whole-number specular exponent taken from a scalar (its truncated
/// whole part, never negative).
pub open spec fn spec_exp(s: Fixed) -> nat {
    if tdiv(s.raw as int, SCALE as int) >= 0 {
        tdiv(s.raw as int, SCALE as int) as nat
    } else {
        0
    }
}

fn exponent_of(s: Fixed) -> (e: u64)
    ensures
        e as nat == spec_exp(s),
{
    let t = s.trunc();
    if t >= 0 {
        t as u64
    } else {
        0
    }
}

/// One directional or point light's contribution folded onto the running
/// intensity `acc`: nothing when the shadow ray hits any sphere, else the
/// diffuse term (when the surface faces the light) and then the specular
/// term (when the exponent is positive and the reflection faces the
/// viewer). A denominator whose product of magnitudes truncates to zero
/// skips its term rather than divide by zero.
pub open spec fn spec_light_contrib(
    spheres: Seq<Sphere>,
    intensity: int,
    l: Vec3,
    tmax: Bound,
    p: Vec3,
    normal: Vec3,
    view: Vec3,
    s: Fixed,
    acc: int,
) -> int {
    if spec_closest(spheres, p, l, EPS_RAW as int, tmax) is Some {
        acc
    } else {
        let ndl = spec_dot(normal, l);
        let acc1 = if ndl > 0 {
            let den = fx_mul(spec_magnitude(normal), spec_magnitude(l));
            if den > 0 {
                fx_add(acc, fx_div(fx_mul(intensity, ndl), den))
            } else {
                acc
            }
        } else {
            acc
        };
        if s.raw > 0 {
            let refl = spec_reflect(l, normal);
            let rdv = spec_dot(refl, view);
            if rdv > 0 {
                let den2 = fx_mul(spec_magnitude(refl), spec_magnitude(view));
                if den2 > 0 {
                    let base = if fx_div(rdv, den2) > SCALE as int {
                        SCALE as int
                    } else {
                        fx_div(rdv, den2)
                    };
                    fx_add(acc1, fx_mul(intensity, spec_powu(base, spec_exp(s))))
                } else {
                    acc1
                }
            } else {
                acc1
            }
        } else {
            acc1
        }
    }
}

/// The shadow ray of a directional or point light at the shaded point.
pub open spec fn spec_light_ray(light: Light, p: Vec3) -> Vec3 {
    match light {
        Light::Ambient { .. } => p,
        Light::Directional { direction, .. } => spec_v_scale(direction, -(SCALE as int)),
        Light::Point { pos, .. } => spec_v_sub(pos, p),
    }
}

/// The shadow bound of a light: point lights only count occluders
/// strictly between the point and the light.
pub open spec fn spec_light_tmax(light: Light) -> Bound {
    match light {
        Light::Point { .. } => Bound::Finite(Fixed { raw: SCALE }),
        _ => Bound::Unbounded,
    }
}

/// A directional or point light is occluded at `p`.
pub open spec fn spec_light_shadowed(spheres: Seq<Sphere>, light: Light, p: Vec3) -> bool {
    spec_closest(
        spheres,
        p,
        spec_light_ray(light, p),
        EPS_RAW as int,
        spec_light_tmax(light),
    ) is Some
}

/// One light folded onto the running intensity: ambient lights always
/// add their intensity, the other kinds contribute through
/// `spec_light_contrib`.
pub open spec fn spec_light_step(
    spheres: Seq<Sphere>,
    light: Light,
    p: Vec3,
    normal: Vec3,
    view: Vec3,
    s: Fixed,
    acc: int,
) -> int {
    match light {
        Light::Ambient { intensity } => fx_add(acc, intensity.raw as int),
        Light::Directional { intensity, .. } => spec_light_contrib(
            spheres,
            intensity.raw as int,
            spec_light_ray(light, p),
            spec_light_tmax(light),
            p,
            normal,
            view,
            s,
            acc,
        ),
        Light::Point { intensity, .. } => spec_light_contrib(
            spheres,
            intensity.raw as int,
            spec_light_ray(light, p),
            spec_light_tmax(light),
            p,
            normal,
            view,
            s,
            acc,
        ),
    }
}

/// The lighting intensity accumulated over the first `k` lights.
pub open spec fn spec_lighting_upto(
    spheres: Seq<Sphere>,
    lights: Seq<Light>,
    p: Vec3,
    normal: Vec3,
    view: Vec3,
    s: Fixed,
    k: int,
) -> int
    decreases k,
{
    if k <= 0 {
        0
    } else {
        spec_light_step(
            spheres,
            lights[k - 1],
            p,
            normal,
            view,
            s,
            spec_lighting_upto(spheres, lights, p, normal, view, s, k - 1),
        )
    }
}

/// The lighting intensity at a point, over every light of the scene.
pub open spec fn spec_lighting(
    spheres: Seq<Sphere>,
    lights: Seq<Light>,
    p: Vec3,
    normal: Vec3,
    view: Vec3,
    s: Fixed,
) -> int {
    spec_lighting_upto(spheres, lights, p, normal, view, s, lights.len() as int)
}

impl RayTracer {
    pub open spec fn wf(self) -> bool {
        self.canvas.wf()
    }

    fn light_at(
        &self,
        p: Vec3,
        normal: Vec3,
        view: Vec3,
        s: Fixed,
        intensity: Fixed,
        l: Vec3,
        tmax: Bound,
        acc: Fixed,
    ) -> (r: Fixed)
        ensures
            r.raw as int == spec_light_contrib(
                self.spheres@,
                intensity.raw as int,
                l,
                tmax,
                p,
                normal,
                view,
                s,
                acc.raw as int,
            ),
    {
        if self.closest_intersection(p, l, Fixed { raw: EPS_RAW }, tmax).is_some() {
            return acc;
        }
        let ndl = normal.dot(l);
        let mut out = acc;
        if ndl.raw > 0 {
            let den = normal.magnitude().mul(l.magnitude());
            if den.raw > 0 {
                out = out.add(intensity.mul(ndl).div(den));
            }
        }
        if s.raw > 0 {
            let refl = reflect_ray(l, normal);
            let rdv = refl.dot(view);
            if rdv.raw > 0 {
                let den2 = refl.magnitude().mul(view.magnitude());
                if den2.raw > 0 {
                    let q = rdv.div(den2);
                    let base = if q.raw > SCALE {
                        Fixed { raw: SCALE }
                    } else {
                        q
                    };
                    out = out.add(intensity.mul(pow_unit(base, exponent_of(s))));
                }
            }
        }
        out
    }

    /// Accumulate the intensity of every light at a shaded point with
    /// surface normal `normal`, view direction `view` and specular
    /// exponent `s`; occluded lights are skipped entirely.
    pub fn compute_lighting(&self, point: Vec3, normal: Vec3, view: Vec3, s: Fixed) -> (r: Fixed)
        ensures
            r.raw as int == spec_lighting(self.spheres@, self.lights@, point, normal, view, s),
    {
        let mut acc = Fixed::zero();
        let mut k: usize = 0;
        while k < self.lights.len()
            invariant
                k <= self.lights@.len(),
                acc.raw as int == spec_lighting_upto(
                    self.spheres@,
                    self.lights@,
                    point,
                    normal,
                    view,
                    s,
                    k as int,
                ),
            decreases self.lights@.len() - k,
        {
            let light = self.lights[k];
            match light {
                Light::Ambient { intensity } => {
                    acc = acc.add(intensity);
                },
                Light::Directional { intensity, direction } => {
                    let l = direction.scale(Fixed::from_int(-1));
                    acc = self.light_at(point, normal, view, s, intensity, l, Bound::Unbounded, acc);
                },
                Light::Point { intensity, pos } => {
                    let l = pos.sub(point);
                    acc = self.light_at(
                        point,
                        normal,
                        view,
                        s,
                        intensity,
                        l,
                        Bound::Finite(Fixed::one()),
                        acc,
                    );
                },
            }
            k = k + 1;
        }
        acc
    }

    /// Scan every sphere for the smallest root strictly inside the open
    /// interval; ties keep the earliest sphere.
    pub fn closest_intersection(
        &self,
        origin: Vec3,
        ray: Vec3,
        t_min: Fixed,
        t_max: Bound,
    ) -> (res: Option<(usize, Fixed)>)
        ensures
            ({
                let s = spec_closest(self.spheres@, origin, ray, t_min.raw as int, t_max);
                match res {
                    None => s is None,
                    Some((i, t)) => s == Some((i as int, t.raw as int)) && i < self.spheres@.len(),
                }
            }),
    {
        let mut best: Option<(usize, Fixed)> = None;
        let mut j: usize = 0;
        while j < self.spheres.len()
            invariant
                j <= self.spheres@.len(),
                ({
                    let s = spec_closest_upto(
                        self.spheres@,
                        origin,
                        ray,
                        t_min.raw as int,
                        t_max,
                        j as int,
                    );
                    match best {
                        None => s is None,
                        Some((i, t)) => s == Some((i as int, t.raw as int)) && i < j,
                    }
                }),
            decreases self.spheres@.len() - j,
        {
            match self.spheres[j].intersect_ray(origin, ray) {
                None => {},
                Some((t1, t2)) => {
                    if self.root_valid(t1, t_min, t_max) && (best.is_none() || t1.raw
                        < best.unwrap().1.raw) {
                        best = Some((j, t1));
                    }
                    if self.root_valid(t2, t_min, t_max) && (best.is_none() || t2.raw
                        < best.unwrap().1.raw) {
                        best = Some((j, t2));
                    }
                },
            }
            j = j + 1;
        }
        best
    }

    fn root_valid(&self, t: Fixed, t_min: Fixed, t_max: Bound) -> (b: bool)
        ensures
            b == spec_root_valid(t.raw as int, t_min.raw as int, t_max),
    {
        t_min.raw < t.raw && match t_max {
            Bound::Finite(m) => t.raw < m.raw,
            Bound::Unbounded => true,
        }
    }

    /// Follow one ray: the closest hit's locally lit color, blended with
    /// the recursively traced reflection while depth remains; the
    /// background color where no sphere is hit.
    pub fn trace_ray(&self, origin: Vec3, ray: Vec3, t_bounds: (Fixed, Bound), depth: u32) -> (c:
        Color)
        ensures
            c == spec_trace(
                self.spheres@,
                self.lights@,
                self.background,
                origin,
                ray,
                t_bounds.0.raw as int,
                t_bounds.1,
                depth as int,
            ),
            spec_closest(self.spheres@, origin, ray, t_bounds.0.raw as int, t_bounds.1) is None
                ==> c == self.background,
            depth == 0 ==> c == match spec_closest(
                self.spheres@,
                origin,
                ray,
                t_bounds.0.raw as int,
                t_bounds.1,
            ) {
                None => self.background,
                Some((i, t)) => spec_hit_local_color(
                    self.spheres@,
                    self.lights@,
                    i,
                    t,
                    origin,
                    ray,
                ),
            },
        decreases depth,
    {
        match self.closest_intersection(origin, ray, t_bounds.0, t_bounds.1) {
            None => self.background,
            Some((i, t)) => {
                let sphere = self.spheres[i];
                let p = origin.add(ray.scale(t));
                let n = p.sub(sphere.pos).normalize();

                let local_color = sphere.color * self.compute_lighting(
                    p,
                    n,
                    ray.neg(),
                    sphere.specular,
                );

                if depth == 0 || sphere.reflective.raw <= 0 {
                    local_color
                } else {
                    let r = reflect_ray(ray.neg(), n);
                    let reflected_color = self.trace_ray(
                        p,
                        r,
                        (Fixed { raw: EPS_RAW }, Bound::Unbounded),
                        depth - 1,
                    );
                    local_color * Fixed::one().sub(sphere.reflective) + reflected_color
                        * sphere.reflective
                }
            },
        }
    }

    /// The primary-ray direction of the centered pixel coordinate `(x, y)`.
    pub fn canvas_to_viewport(&self, x: i32, y: i32) -> (v: Vec3)
        requires
            self.canvas.width >= 1,
            self.canvas.height >= 1,
        ensures
            v == spec_canvas_to_viewport(
                self.camera,
                self.viewport,
                self.canvas.width as int,
                self.canvas.height as int,
                x as int,
                y as int,
            ),
    {
        let cw = Fixed::from_int(self.canvas.width() as i64);
        let ch = Fixed::from_int(self.canvas.height() as i64);
        let vx = Fixed::from_int(x as i64).mul(self.viewport.width.div(cw));
        let vy = Fixed::from_int(y as i64).mul(self.viewport.height.div(ch));
        let v = Vec3 { x: vx, y: vy, z: self.viewport.distance };
        rotate_cam_ray(v, self.camera.rot_x, self.camera.rot_y, self.camera.rot_z)
    }

    /// Cast one primary ray per canvas coordinate and overwrite the grid
    /// with the traced colors; nothing else of the scene is touched.
    #[verifier::rlimit(100)]
    pub fn render(&mut self)
        requires
            old(self).wf(),
        ensures
            final(self).wf(),
            final(self).camera == old(self).camera,
            final(self).viewport == old(self).viewport,
            final(self).background == old(self).background,
            final(self).spheres == old(self).spheres,
            final(self).lights == old(self).lights,
            final(self).recursion_depth == old(self).recursion_depth,
            final(self).canvas.width == old(self).canvas.width,
            final(self).canvas.height == old(self).canvas.height,
            forall|x: int, y: int|
                #![trigger spec_rendered_pixel(*final(self), x, y)]
                -(old(self).canvas.width as int / 2) <= x < old(self).canvas.width as int / 2
                    && -(old(self).canvas.height as int / 2) <= y < old(self).canvas.height as int
                    / 2 ==> spec_rendered_pixel(*final(self), x, y),
    {
        let min_x = self.canvas.min_x();
        let max_x = self.canvas.max_x();
        let min_y = self.canvas.min_y();
        let max_y = self.canvas.max_y();
        let mut x: i32 = min_x;
        while x < max_x
            invariant
                old(self).wf(),
                self.wf(),
                self.camera == old(self).camera,
                self.viewport == old(self).viewport,
                self.background == old(self).background,
                self.spheres == old(self).spheres,
                self.lights == old(self).lights,
                self.recursion_depth == old(self).recursion_depth,
                self.canvas.width == old(self).canvas.width,
                self.canvas.height == old(self).canvas.height,
                min_x as int == -(self.canvas.width as int / 2),
                max_x as int == self.canvas.width as int / 2,
                min_y as int == -(self.canvas.height as int / 2),
                max_y as int == self.canvas.height as int / 2,
                min_x <= x <= max_x,
                forall|x0: int, y0: int|
                    #![trigger spec_rendered_pixel(*self, x0, y0)]
                    min_x as int <= x0 < x as int && min_y as int <= y0 < max_y as int
                        ==> spec_rendered_pixel(*self, x0, y0),
            decreases max_x as int - x as int,
        {
            let mut y: i32 = min_y;
            while y < max_y
                invariant
                    old(self).wf(),
                    self.wf(),
                    self.camera == old(self).camera,
                    self.viewport == old(self).viewport,
                    self.background == old(self).background,
                    self.spheres == old(self).spheres,
                    self.lights == old(self).lights,
                    self.recursion_depth == old(self).recursion_depth,
                    self.canvas.width == old(self).canvas.width,
                    self.canvas.height == old(self).canvas.height,
                    min_x as int == -(self.canvas.width as int / 2),
                    max_x as int == self.canvas.width as int / 2,
                    min_y as int == -(self.canvas.height as int / 2),
                    max_y as int == self.canvas.height as int / 2,
                    min_x <= x < max_x,
                    min_y <= y <= max_y,
                    forall|x0: int, y0: int|
                        #![trigger spec_rendered_pixel(*self, x0, y0)]
                        min_x as int <= x0 < x as int && min_y as int <= y0 < max_y as int
                            ==> spec_rendered_pixel(*self, x0, y0),
                    forall|y0: int|
                        #![trigger spec_rendered_pixel(*self, x as int, y0)]
                        min_y as int <= y0 < y as int ==> spec_rendered_pixel(*self, x as int, y0),
                decreases max_y as int - y as int,
            {
                let ray = self.canvas_to_viewport(x, y);
                let color = self.trace_ray(
                    self.camera.position,
                    ray,
                    (self.viewport.distance, Bound::Unbounded),
                    self.recursion_depth,
                );
                proof {
                    lemma_half_bounds(self.canvas.width as int, x as int);
                    lemma_half_bounds(self.canvas.height as int, y as int);
                }
                let ghost prev = *self;
                self.canvas.put_pixel(x, y, color);
                proof {
                    assert forall|x0: int, y0: int|
                        spec_in_canvas(
                            self.canvas.width as int,
                            self.canvas.height as int,
                            x0,
                            y0,
                        ) && !(x0 == x as int && y0 == y as int) implies self.canvas.pixels@[
                            spec_pixel_index(
                                self.canvas.width as int,
                                self.canvas.height as int,
                                x0,
                                y0,
                            )
                        ] == prev.canvas.pixels@[spec_pixel_index(
                            self.canvas.width as int,
                            self.canvas.height as int,
                            x0,
                            y0,
                        )] by {
                        lemma_pixel_index_bounds(
                            self.canvas.width as int,
                            self.canvas.height as int,
                            x0,
                            y0,
                        );
                        lemma_pixel_index_bounds(
                            self.canvas.width as int,
                            self.canvas.height as int,
                            x as int,
                            y as int,
                        );
                        lemma_pixel_index_injective(
                            self.canvas.width as int,
                            self.canvas.height as int,
                            x0,
                            y0,
                            x as int,
                            y as int,
                        );
                    }
                    lemma_pixel_index_bounds(
                        self.canvas.width as int,
                        self.canvas.height as int,
                        x as int,
                        y as int,
                    );
                    assert(spec_rendered_pixel(*self, x as int, y as int));
                    let ghost w = self.canvas.width as int;
                    let ghost h = self.canvas.height as int;
                    assert forall|x0: int, y0: int|
                        min_x as int <= x0 < x as int && min_y as int <= y0 < max_y as int
                            implies spec_rendered_pixel(*self, x0, y0) by {
                        assert(spec_rendered_pixel(prev, x0, y0));
                        lemma_half_bounds(w, x0);
                        lemma_half_bounds(h, y0);
                        assert(spec_in_canvas(w, h, x0, y0));
                        assert(self.canvas.pixels@[spec_pixel_index(w, h, x0, y0)]
                            == prev.canvas.pixels@[spec_pixel_index(w, h, x0, y0)]);
                    }
                    assert forall|y0: int| min_y as int <= y0 < y as int + 1 implies
                        spec_rendered_pixel(*self, x as int, y0) by {
                        if y0 < y as int {
                            assert(spec_rendered_pixel(prev, x as int, y0));
                            lemma_half_bounds(w, x as int);
                            lemma_half_bounds(h, y0);
                            assert(spec_in_canvas(w, h, x as int, y0));
                            assert(self.canvas.pixels@[spec_pixel_index(w, h, x as int, y0)]
                                == prev.canvas.pixels@[spec_pixel_index(w, h, x as int, y0)]);
                        }
                    }
                }
                y = y + 1;
            }
            x = x + 1;
        }
    }

    /// The most recently rendered pixel grid.
    pub fn image(&self) -> (r: &Vec<Color>)
        ensures
            r@ == self.canvas.pixels@,
    {
        &self.canvas.pixels
    }
}

/// The pixel at centered coordinate `(x, y)` holds the traced color of
/// its primary ray.
pub open spec fn spec_rendered_pixel(rt: RayTracer, x: int, y: int) -> bool {
    rt.canvas.pixels@[spec_pixel_index(rt.canvas.width as int, rt.canvas.height as int, x, y)]
        == spec_trace(
        rt.spheres@,
        rt.lights@,
        rt.background,
        rt.camera.position,
        spec_canvas_to_viewport(
            rt.camera,
            rt.viewport,
            rt.canvas.width as int,
            rt.canvas.height as int,
            x,
            y,
        ),
        rt.viewport.distance.raw as int,
        Bound::Unbounded,
        rt.recursion_depth as int,
    )
}

/// Centered coordinates strictly inside the symmetric extents map into
/// the grid.
proof fn lemma_half_bounds(w: int, x: int)
    requires
        w >= 0,
        -(w / 2) <= x < w / 2,
    ensures
        0 <= w / 2 + x < w,
        0 <= w / 2 - x - 1 < w,
{
    assert(w == 2 * (w / 2) + w % 2);
}

/// A centered coordinate's grid index lies inside the grid.
proof fn lemma_pixel_index_bounds(w: int, h: int, x: int, y: int)
    requires
        w >= 0,
        h >= 0,
        spec_in_canvas(w, h, x, y),
    ensures
        0 <= spec_pixel_index(w, h, x, y) < w * h,
{
    let r = h / 2 - y - 1;
    let c = w / 2 + x;
    assert(0 <= r * w + c < h * w) by (nonlinear_arith)
        requires
            0 <= r < h,
            0 <= c < w,
    ;
    assert(h * w == w * h) by (nonlinear_arith);
}

/// Distinct centered coordinates use distinct grid indices.
proof fn lemma_pixel_index_injective(w: int, h: int, x1: int, y1: int, x2: int, y2: int)
    requires
        w >= 1,
        spec_in_canvas(w, h, x1, y1),
        spec_in_canvas(w, h, x2, y2),
        !(x1 == x2 && y1 == y2),
    ensures
        spec_pixel_index(w, h, x1, y1) != spec_pixel_index(w, h, x2, y2),
{
    let r1 = h / 2 - y1 - 1;
    let r2 = h / 2 - y2 - 1;
    let c1 = w / 2 + x1;
    let c2 = w / 2 + x2;
    if r1 != r2 {
        assert(r1 * w + c1 != r2 * w + c2) by (nonlinear_arith)
            requires
                r1 != r2,
                0 <= c1 < w,
                0 <= c2 < w,
        ;
    }
}

/// The hit point `origin + t * ray`.
pub open spec fn spec_hit_point(origin: Vec3, ray: Vec3, t: int) -> Vec3 {
    spec_v_add(origin, spec_v_scale(ray, t))
}

/// The locally lit color of hit `t` on sphere `i`: the sphere's surface
/// color scaled by the lighting intensity at the hit point.
pub open spec fn spec_hit_local_color(
    spheres: Seq<Sphere>,
    lights: Seq<Light>,
    i: int,
    t: int,
    origin: Vec3,
    ray: Vec3,
) -> Color {
    let sp = spheres[i];
    let p = spec_hit_point(origin, ray, t);
    let normal = spec_normalize(spec_v_sub(p, sp.pos));
    spec_color_mul_fx(
        sp.color,
        spec_lighting(spheres, lights, p, normal, spec_v_neg(ray), sp.specular),
    )
}

/// What one traced ray returns: the background on a miss; the local
/// color at the closest hit, blended by the sphere's reflectivity with
/// the recursively traced reflection while depth remains.
pub open spec fn spec_trace(
    spheres: Seq<Sphere>,
    lights: Seq<Light>,
    background: Color,
    origin: Vec3,
    ray: Vec3,
    tmin: int,
    tmax: Bound,
    depth: int,
) -> Color
    decreases depth,
{
    match spec_closest(spheres, origin, ray, tmin, tmax) {
        None => background,
        Some((i, t)) => {
            let sp = spheres[i];
            let local = spec_hit_local_color(spheres, lights, i, t, origin, ray);
            if depth <= 0 || sp.reflective.raw <= 0 {
                local
            } else {
                let p = spec_hit_point(origin, ray, t);
                let normal = spec_normalize(spec_v_sub(p, sp.pos));
                let refl = spec_reflect(spec_v_neg(ray), normal);
                let rc = spec_trace(
                    spheres,
                    lights,
                    background,
                    p,
                    refl,
                    EPS_RAW as int,
                    Bound::Unbounded,
                    depth - 1,
                );
                spec_color_add(
                    spec_color_mul_fx(local, fx_sub(SCALE as int, sp.reflective.raw as int)),
                    spec_color_mul_fx(rc, sp.reflective.raw as int),
                )
            }
        },
    }
}

/// A ray that misses every sphere traces to exactly the background color.
pub proof fn lemma_miss_background(
    spheres: Seq<Sphere>,
    lights: Seq<Light>,
    background: Color,
    origin: Vec3,
    ray: Vec3,
    tmin: int,
    tmax: Bound,
    depth: int,
)
    requires
        forall|j: int|
            0 <= j < spheres.len() ==> !spec_sphere_hits(spheres, j, origin, ray, tmin, tmax),
    ensures
        spec_trace(spheres, lights, background, origin, ray, tmin, tmax, depth) == background,
{
    lemma_closest_properties(spheres, origin, ray, tmin, tmax, spheres.len() as int);
}

/// With no remaining depth a hit sphere's traced color is exactly its
/// local, directly lit color, whatever its reflectivity and whatever
/// lies behind it.
pub proof fn lemma_depth_zero_is_local(
    spheres: Seq<Sphere>,
    lights: Seq<Light>,
    background: Color,
    origin: Vec3,
    ray: Vec3,
    tmin: int,
    tmax: Bound,
)
    ensures
        spec_trace(spheres, lights, background, origin, ray, tmin, tmax, 0) == match spec_closest(
            spheres,
            origin,
            ray,
            tmin,
            tmax,
        ) {
            None => background,
            Some((i, t)) => spec_hit_local_color(spheres, lights, i, t, origin, ray),
        },
{
}

/// A fully occluded directional or point light adds nothing at all to
/// the accumulated intensity: neither diffuse nor specular.
pub proof fn lemma_occluded_light_contributes_nothing(
    spheres: Seq<Sphere>,
    light: Light,
    p: Vec3,
    normal: Vec3,
    view: Vec3,
    s: Fixed,
    acc: int,
)
    requires
        !(light is Ambient),
        spec_light_shadowed(spheres, light, p),
    ensures
        spec_light_step(spheres, light, p, normal, view, s, acc) == acc,
{
}

proof fn lemma_powu_range(base: int, n: nat)
    requires
        0 <= base <= SCALE,
    ensures
        0 <= spec_powu(base, n) <= SCALE,
    decreases n,
{
    if n > 0 {
        lemma_powu_range(base, (n - 1) as nat);
        let prev = spec_powu(base, (n - 1) as nat);
        assert(0 <= tdiv(base * prev, SCALE as int) <= prev) by (nonlinear_arith)
            requires
                0 <= base <= SCALE,
                0 <= prev,
                SCALE as int > 0,
        ;
    }
}

/// An unoccluded light whose diffuse term does not truncate away
/// contributes a strictly positive intensity (the specular term, when it
/// applies, only adds more; saturation is kept out of the way by the
/// stated bounds).
pub proof fn lemma_unoccluded_light_contributes(
    spheres: Seq<Sphere>,
    intensity: int,
    l: Vec3,
    tmax: Bound,
    p: Vec3,
    normal: Vec3,
    view: Vec3,
    s: Fixed,
    acc: int,
)
    requires
        spec_closest(spheres, p, l, EPS_RAW as int, tmax) is None,
        0 <= intensity,
        spec_dot(normal, l) > 0,
        fx_mul(spec_magnitude(normal), spec_magnitude(l)) > 0,
        fx_div(
            fx_mul(intensity, spec_dot(normal, l)),
            fx_mul(spec_magnitude(normal), spec_magnitude(l)),
        ) >= 1,
        0 <= acc,
        acc + fx_div(
            fx_mul(intensity, spec_dot(normal, l)),
            fx_mul(spec_magnitude(normal), spec_magnitude(l)),
        ) + intensity <= RAW_MAX as int,
    ensures
        spec_light_contrib(spheres, intensity, l, tmax, p, normal, view, s, acc) > acc,
{
    let d = fx_div(
        fx_mul(intensity, spec_dot(normal, l)),
        fx_mul(spec_magnitude(normal), spec_magnitude(l)),
    );
    let acc1 = fx_add(acc, d);
    assert(acc1 == acc + d);
    if s.raw > 0 {
        let refl = spec_reflect(l, normal);
        let rdv = spec_dot(refl, view);
        if rdv > 0 {
            let den2 = fx_mul(spec_magnitude(refl), spec_magnitude(view));
            if den2 > 0 {
                let base = if fx_div(rdv, den2) > SCALE as int {
                    SCALE as int
                } else {
                    fx_div(rdv, den2)
                };
                assert(0 <= tdiv(rdv * SCALE, den2)) by (nonlinear_arith)
                    requires
                        rdv > 0,
                        den2 > 0,
                ;
                lemma_powu_range(base, spec_exp(s));
                let pw = spec_powu(base, spec_exp(s));
                assert(0 <= tdiv(intensity * pw, SCALE as int) <= intensity) by (nonlinear_arith)
                    requires
                        0 <= intensity,
                        0 <= pw <= SCALE,
                        SCALE as int > 0,
                ;
            }
        }
    }
}

} // verus!
