use cgfs::camera::{Camera, Viewport};
use cgfs::canvas::Canvas;
use cgfs::color::color;
use cgfs::fixed::{Fixed, SCALE};
use cgfs::geometry::Vec3;
use cgfs::raytracer::{Bound, RayTracer};
use cgfs::scene::{Light, Sphere};

fn v(x: i64, y: i64, z: i64) -> Vec3 {
    Vec3::new(Fixed::from_int(x), Fixed::from_int(y), Fixed::from_int(z))
}

fn plain_sphere(z: i64, c: cgfs::color::Color) -> Sphere {
    Sphere {
        pos: v(0, 0, z),
        radius: Fixed::from_int(1),
        color: c,
        specular: Fixed::zero(),
        reflective: Fixed::zero(),
    }
}

fn tracer(spheres: Vec<Sphere>, lights: Vec<Light>) -> RayTracer {
    RayTracer {
        canvas: Canvas::new(2, 2),
        camera: Camera::default(),
        viewport: Viewport::default(),
        background: color(9, 9, 9),
        spheres,
        lights,
        recursion_depth: 3,
    }
}

#[test]
fn sphere_intersection_roots() {
    let sp = plain_sphere(5, color(1, 2, 3));
    let (t1, t2) = sp.intersect_ray(v(0, 0, 0), v(0, 0, 1)).unwrap();
    assert_eq!(t1.raw, 6 * SCALE);
    assert_eq!(t2.raw, 4 * SCALE);
    // The roots are symmetric about the projection of the center onto
    // the ray (the chord midpoint at t = 5).
    assert_eq!(t1.raw + t2.raw, 2 * 5 * SCALE);
    // A ray pointed away from the sphere still solves the quadratic:
    // both roots are negative, symmetric about t = -5.
    let (b1, b2) = sp.intersect_ray(v(0, 0, 0), v(0, 0, -1)).unwrap();
    assert_eq!(b1.raw + b2.raw, -2 * 5 * SCALE);
    // A ray that misses entirely has no roots.
    assert!(sp.intersect_ray(v(0, 0, 0), v(0, 1, 0)).is_none());
    // A degenerate zero ray yields no intersection.
    assert!(sp.intersect_ray(v(0, 0, 0), v(0, 0, 0)).is_none());
}

#[test]
fn miss_renders_background() {
    let rt = tracer(
        vec![plain_sphere(5, color(100, 0, 0))],
        vec![Light::Ambient { intensity: Fixed::one() }],
    );
    // A ray that misses every sphere returns exactly the background.
    let c = rt.trace_ray(v(0, 0, 0), v(0, 1, 0), (Fixed::one(), Bound::Unbounded), 3);
    assert_eq!(c, color(9, 9, 9));
}

#[test]
fn depth_zero_is_local_color() {
    let mirror = Sphere {
        pos: v(0, 0, 5),
        radius: Fixed::from_int(1),
        color: color(40, 50, 60),
        specular: Fixed::zero(),
        reflective: Fixed::from_ratio(1, 2),
    };
    // Behind the mirror (from the reflection's point of view) sits a
    // bright sphere; a second scene omits it and recolors the background.
    let with_world = tracer(
        vec![mirror, plain_sphere(-5, color(250, 250, 250))],
        vec![Light::Ambient { intensity: Fixed::one() }],
    );
    let mut bare = tracer(vec![mirror], vec![Light::Ambient { intensity: Fixed::one() }]);
    bare.background = color(200, 0, 200);
    let ray = v(0, 0, 1);
    let a = with_world.trace_ray(v(0, 0, 0), ray, (Fixed::one(), Bound::Unbounded), 0);
    let b = bare.trace_ray(v(0, 0, 0), ray, (Fixed::one(), Bound::Unbounded), 0);
    // With no remaining depth the result is the local color alone,
    // whatever lies behind the mirror.
    assert_eq!(a, b);
    assert_eq!(a, color(40, 50, 60));
    // With depth left, the reflection does change the result.
    let c = with_world.trace_ray(v(0, 0, 0), ray, (Fixed::one(), Bound::Unbounded), 3);
    assert_ne!(a, c);
}

#[test]
fn occluded_point_light_contributes_nothing() {
    let light = Light::Point { intensity: Fixed::one(), pos: v(0, 0, 1) };
    let occluder = Sphere {
        pos: Vec3::new(Fixed::zero(), Fixed::zero(), Fixed::from_ratio(1, 2)),
        radius: Fixed::from_ratio(1, 10),
        color: color(0, 0, 0),
        specular: Fixed::zero(),
        reflective: Fixed::zero(),
    };
    let shadowed = tracer(vec![occluder], vec![light]);
    let open_sky = tracer(vec![], vec![light]);
    let p = v(0, 0, 0);
    let n = v(0, 0, 1);
    let view = v(0, 0, -1);
    // Fully occluded: no diffuse, no specular contribution at all.
    assert_eq!(shadowed.compute_lighting(p, n, view, Fixed::zero()).raw, 0);
    assert_eq!(shadowed.compute_lighting(p, n, view, Fixed::from_int(10)).raw, 0);
    // The identical but unoccluded light contributes a positive value.
    let lit = open_sky.compute_lighting(p, n, view, Fixed::zero());
    assert_eq!(lit.raw, SCALE);
    // An occluder beyond the point light does not shadow it.
    let behind = tracer(vec![plain_sphere(5, color(0, 0, 0))], vec![light]);
    assert_eq!(behind.compute_lighting(p, n, view, Fixed::zero()).raw, SCALE);
}

#[test]
fn directional_light_and_ambient() {
    let lights = vec![
        Light::Ambient { intensity: Fixed::from_ratio(1, 4) },
        Light::Directional { intensity: Fixed::from_ratio(1, 2), direction: v(0, 0, -1) },
    ];
    let rt = tracer(vec![], lights);
    // Ambient 0.25 plus diffuse 0.5 * (n.l) with n == l == +z.
    let i = rt.compute_lighting(v(0, 0, 0), v(0, 0, 1), v(0, 0, -1), Fixed::zero());
    assert_eq!(i.raw, SCALE / 4 + SCALE / 2);
}

#[test]
fn end_to_end_center_pixel_is_sphere_color() {
    let mut rt = tracer(
        vec![plain_sphere(5, color(12, 34, 56))],
        vec![Light::Ambient { intensity: Fixed::one() }],
    );
    rt.background = color(0, 0, 0);
    // The primary ray through the canvas center hits the sphere head-on;
    // ambient intensity 1.0 leaves the base color unchanged.
    let ray = rt.canvas_to_viewport(0, 0);
    assert_eq!(ray.x.raw, 0);
    assert_eq!(ray.y.raw, 0);
    assert_eq!(ray.z.raw, SCALE);
    let c = rt.trace_ray(rt.camera.position, ray, (rt.viewport.distance, Bound::Unbounded), 3);
    assert_eq!(c, color(12, 34, 56));
    // The full render writes that color at the center coordinate.
    rt.render();
    assert_eq!(rt.canvas.get_pixel(0, 0), color(12, 34, 56));
    assert_eq!(rt.image().len(), 4);
}

#[test]
fn unrotated_camera_keeps_ray() {
    let ray = cgfs::raytracer::rotate_cam_ray(
        v(3, -2, 7),
        Fixed::zero(),
        Fixed::zero(),
        Fixed::zero(),
    );
    assert_eq!(ray.x.raw, 3 * SCALE);
    assert_eq!(ray.y.raw, -2 * SCALE);
    assert_eq!(ray.z.raw, 7 * SCALE);
    // A quarter turn about the y axis sends +z close to +x.
    let turned = cgfs::raytracer::rotate_cam_ray(
        v(0, 0, 1),
        Fixed::zero(),
        Fixed::from_int(90),
        Fixed::zero(),
    );
    assert!((turned.x.raw + SCALE).abs() <= 300 || (turned.x.raw - SCALE).abs() <= 300);
    assert!(turned.y.raw.abs() <= 300);
    assert!(turned.z.raw.abs() <= 300);
}

#[test]
fn empty_scene_renders_background_everywhere() {
    let mut rt = tracer(vec![], vec![]);
    rt.render();
    for x in -1..1 {
        for y in -1..1 {
            assert_eq!(rt.canvas.get_pixel(x, y), color(9, 9, 9));
        }
    }
    // And with no lights at all, the accumulated intensity is zero.
    assert_eq!(rt.compute_lighting(v(0, 0, 0), v(0, 0, 1), v(0, 0, -1), Fixed::zero()).raw, 0);
}

#[test]
fn canvas_coordinates_and_pixels() {
    let mut c = Canvas::new(4, 3);
    assert_eq!(c.min_x(), -2);
    assert_eq!(c.max_x(), 2);
    assert_eq!(c.min_y(), -1);
    assert_eq!(c.max_y(), 1);
    assert_eq!(c.get_pixel(0, 0), color(0, 0, 0));
    c.put_pixel(-2, -1, color(7, 8, 9));
    assert_eq!(c.get_pixel(-2, -1), color(7, 8, 9));
    assert_eq!(c.get_pixel(1, 0), color(0, 0, 0));
}

#[test]
fn defaults_are_neutral() {
    let cam = Camera::default();
    assert_eq!(cam.position.z.raw, 0);
    assert_eq!(cam.rot_y.raw, 0);
    let vp = Viewport::default();
    assert_eq!(vp.width.raw, SCALE);
    assert_eq!(vp.height.raw, SCALE);
    assert_eq!(vp.distance.raw, SCALE);
}

#[test]
fn reflection_formula() {
    // Reflecting a straight-on ray about its own axis returns it.
    let n = v(0, 0, 1);
    let r = cgfs::raytracer::reflect_ray(v(0, 0, 1), n);
    assert_eq!((r.x.raw, r.y.raw, r.z.raw), (0, 0, SCALE));
    // A 45-degree incidence flips the component along the normal.
    let r2 = cgfs::raytracer::reflect_ray(v(1, 0, 1), n);
    assert_eq!((r2.x.raw, r2.y.raw, r2.z.raw), (-SCALE, 0, SCALE));
}
