use cgfs::fixed::{Fixed, SCALE};
use cgfs::raytracer::RayTracer;
use cgfs::scene::Light;
use cgfs::toml::{
    get_table, ret_obj, table_get, table_get_default, DefKind, ErrCause, FromToml, PathStep, Table,
    TomlError, Value,
};

fn ent(key: &str, v: Value) -> (String, Value) {
    (key.to_string(), v)
}

fn num(i: i64) -> Value {
    Value::Integer(i)
}

fn arr3(a: i64, b: i64, c: i64) -> Value {
    Value::Array(vec![num(a), num(b), num(c)])
}

fn canvas_table(w: i64, h: i64) -> Value {
    Value::Table(vec![ent("width", num(w)), ent("height", num(h))])
}

fn scene_root() -> Table {
    let sphere = Value::Table(vec![
        ent("position", arr3(0, 0, 5)),
        ent("radius", num(1)),
        ent("color", arr3(10, 20, 30)),
    ]);
    let ambient = Value::Table(vec![
        ent("type", Value::String("ambient".to_string())),
        ent("intensity", Value::Float(Fixed::one())),
    ]);
    vec![
        ent("canvas", canvas_table(4, 4)),
        ent("camera", Value::Table(vec![])),
        ent("spheres", Value::Array(vec![sphere])),
        ent("lights", Value::Array(vec![ambient])),
    ]
}

#[test]
fn array() {
    let _: [i64; 5] = FromToml::from_toml(&Value::Array(vec![
        num(0),
        num(0),
        num(0),
        num(0),
        num(0),
    ]))
    .unwrap();
    let _: [u32; 5] = FromToml::from_toml(&Value::Array(vec![
        num(1),
        num(1),
        num(1),
        num(1),
        num(1),
    ]))
    .unwrap();
    <[u32; 3]>::from_toml(&Value::Array(vec![num(2), num(2), num(2), num(2), num(2)]))
        .unwrap_err();
    <[u32; 3]>::from_toml(&Value::Array(vec![num(-1), num(-1), num(-1)])).unwrap_err();
}

#[test]
fn whole_scene_parses_with_defaults() {
    let rt = RayTracer::from_toml(&Value::Table(scene_root())).unwrap();
    assert_eq!(rt.canvas.width(), 4);
    assert_eq!(rt.canvas.height(), 4);
    assert_eq!(rt.camera.position.x.raw, 0);
    assert_eq!(rt.camera.rot_z.raw, 0);
    // Derived default viewport: unit width and distance, height from the
    // canvas aspect ratio (square here).
    assert_eq!(rt.viewport.width.raw, SCALE);
    assert_eq!(rt.viewport.height.raw, SCALE);
    assert_eq!(rt.viewport.distance.raw, SCALE);
    assert_eq!(rt.background, cgfs::color::color(0, 0, 0));
    assert_eq!(rt.spheres.len(), 1);
    assert_eq!(rt.spheres[0].pos.z.raw, 5 * SCALE);
    assert_eq!(rt.spheres[0].radius.raw, SCALE);
    assert_eq!(rt.spheres[0].specular.raw, 0);
    assert_eq!(rt.spheres[0].reflective.raw, 0);
    assert_eq!(rt.lights.len(), 1);
    assert!(matches!(rt.lights[0], Light::Ambient { intensity } if intensity.raw == SCALE));
    assert_eq!(rt.recursion_depth, 3);
}

#[test]
fn whole_numbers_convert_where_reals_are_expected() {
    let mut root = scene_root();
    root.push(ent(
        "viewport",
        Value::Table(vec![ent("width", num(2)), ent("distance", Value::Float(Fixed::from_ratio(3, 2)))]),
    ));
    root.push(ent("recursion", num(7)));
    let rt = RayTracer::from_toml(&Value::Table(root)).unwrap();
    assert_eq!(rt.viewport.width.raw, 2 * SCALE);
    assert_eq!(rt.viewport.height.raw, SCALE);
    assert_eq!(rt.viewport.distance.raw, 3 * SCALE / 2);
    assert_eq!(rt.recursion_depth, 7);
}

#[test]
fn root_must_be_a_table() {
    let e = RayTracer::from_toml(&num(3)).unwrap_err();
    assert!(matches!(e.cause, ErrCause::ExpectedTable));
    assert!(e.path.is_empty());
}

#[test]
fn missing_required_field() {
    let e = RayTracer::from_toml(&Value::Table(vec![])).unwrap_err();
    assert!(matches!(&e.cause, ErrCause::MissingField(k) if k == "canvas"));
    assert!(e.path.is_empty());
}

#[test]
fn nested_error_paths_name_the_field() {
    // A sphere whose radius is a string: the error names the cause and
    // the full path from the offending value outward.
    let mut root = scene_root();
    let bad_sphere = Value::Table(vec![
        ent("position", arr3(0, 0, 5)),
        ent("radius", Value::String("big".to_string())),
        ent("color", arr3(10, 20, 30)),
    ]);
    root[2] = ent("spheres", Value::Array(vec![canvas_table(1, 1), bad_sphere]));
    // The first array element is not a sphere table at all: it has no
    // `position`, and the error says where.
    let e = RayTracer::from_toml(&Value::Table(root)).unwrap_err();
    assert!(matches!(&e.cause, ErrCause::MissingField(k) if k == "position"));
    assert!(matches!(e.path[0], PathStep::Definition(DefKind::SphereDef)));
    assert!(matches!(e.path[1], PathStep::Index(0)));
    assert!(matches!(e.path[2], PathStep::Definition(DefKind::ArrayDef)));
    assert!(matches!(&e.path[3], PathStep::Key(k) if k == "spheres"));

    // With the first element fixed, the bad radius is reported.
    let good = Value::Table(vec![
        ent("position", arr3(0, 0, 5)),
        ent("radius", num(1)),
        ent("color", arr3(1, 2, 3)),
    ]);
    let mut root2 = scene_root();
    let bad_sphere2 = Value::Table(vec![
        ent("position", arr3(0, 0, 5)),
        ent("radius", Value::String("big".to_string())),
        ent("color", arr3(10, 20, 30)),
    ]);
    root2[2] = ent("spheres", Value::Array(vec![good, bad_sphere2]));
    let e2 = RayTracer::from_toml(&Value::Table(root2)).unwrap_err();
    assert!(matches!(e2.cause, ErrCause::ExpectedFloat));
    assert!(matches!(&e2.path[0], PathStep::Key(k) if k == "radius"));
    assert!(matches!(e2.path[1], PathStep::Definition(DefKind::SphereDef)));
    assert!(matches!(e2.path[2], PathStep::Index(1)));
}

#[test]
fn out_of_range_and_wrong_length() {
    let mut root = scene_root();
    root[0] = ent("canvas", canvas_table(-4, 4));
    let e = RayTracer::from_toml(&Value::Table(root)).unwrap_err();
    assert!(matches!(e.cause, ErrCause::IntegerOutOfBounds));
    assert!(matches!(&e.path[0], PathStep::Key(k) if k == "width"));
    assert!(matches!(e.path[1], PathStep::Definition(DefKind::CanvasDef)));
    assert!(matches!(&e.path[2], PathStep::Key(k) if k == "canvas"));

    let mut root2 = scene_root();
    let short_color = Value::Table(vec![
        ent("position", arr3(0, 0, 5)),
        ent("radius", num(1)),
        ent("color", Value::Array(vec![num(1), num(2)])),
    ]);
    root2[2] = ent("spheres", Value::Array(vec![short_color]));
    let e2 = RayTracer::from_toml(&Value::Table(root2)).unwrap_err();
    assert!(matches!(e2.cause, ErrCause::WrongArrayLength(3)));
    assert!(matches!(e2.path[0], PathStep::Definition(DefKind::ColorDef)));
    assert!(matches!(&e2.path[1], PathStep::Key(k) if k == "color"));
}

#[test]
fn unknown_light_type_is_rejected() {
    let lamp = Value::Table(vec![
        ent("type", Value::String("lava".to_string())),
        ent("intensity", num(1)),
    ]);
    let e = Light::from_toml(&lamp).unwrap_err();
    assert!(matches!(e.cause, ErrCause::UnknownLightType));
    assert!(matches!(e.path[0], PathStep::Definition(DefKind::LightDef)));

    let point = Value::Table(vec![
        ent("type", Value::String("point".to_string())),
        ent("intensity", num(2)),
        ent("position", arr3(1, 2, 3)),
    ]);
    let l = Light::from_toml(&point).unwrap();
    assert!(matches!(l, Light::Point { intensity, pos }
        if intensity.raw == 2 * SCALE && pos.y.raw == 2 * SCALE));
    let dir = Value::Table(vec![
        ent("type", Value::String("directional".to_string())),
        ent("intensity", num(1)),
        ent("direction", arr3(0, -1, 0)),
    ]);
    let l2 = Light::from_toml(&dir).unwrap();
    assert!(matches!(l2, Light::Directional { direction, .. } if direction.y.raw == -SCALE));
}

#[test]
fn table_helpers() {
    let t: Table = vec![ent("a", num(4)), ent("a", num(5)), ent("b", num(6))];
    // Lookups take the first match.
    let a: i64 = table_get(&t, "a").unwrap();
    assert_eq!(a, 4);
    let missing = table_get::<i64>(&t, "c").unwrap_err();
    assert!(matches!(&missing.cause, ErrCause::MissingField(k) if k == "c"));
    let d: i64 = table_get_default(&t, "c", 42).unwrap();
    assert_eq!(d, 42);
    let b: i64 = table_get_default(&t, "b", 42).unwrap();
    assert_eq!(b, 6);

    let wrapped = Value::Table(t);
    assert_eq!(get_table(&wrapped).unwrap().len(), 3);
    let not_table = get_table(&num(1)).unwrap_err();
    assert!(matches!(not_table.cause, ErrCause::ExpectedTable));

    let annotated: Result<i64, TomlError> = ret_obj(DefKind::CameraDef, || {
        Err(TomlError { cause: ErrCause::ExpectedFloat, path: vec![] })
    });
    let e = annotated.unwrap_err();
    assert!(matches!(e.cause, ErrCause::ExpectedFloat));
    assert!(matches!(e.path[0], PathStep::Definition(DefKind::CameraDef)));
}
