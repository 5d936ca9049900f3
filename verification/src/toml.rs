//! Construction of scene entities from an already-parsed declarative
//! description: a tree of tables, arrays, strings and numbers. This is
//! the only fallible stage; every failure carries a structured error
//! naming the offending field path and the cause, and construction is
//! atomic: no partially built scene is ever returned.

use vstd::prelude::*;
use crate::camera::{Camera, Viewport};
use crate::canvas::Canvas;
use crate::color::{Color, color};
use crate::fixed::{Fixed, SCALE, clip, fx_div};
use crate::geometry::Vec3;
use crate::raytracer::RayTracer;
use crate::scene::{Sphere, Light};

verus! {

/// One node of a parsed scene description.
#[derive(Debug)]
pub enum Value {
    String(String),
    Integer(i64),
    Float(Fixed),
    Boolean(bool),
    Array(Vec<Value>),
    Table(Table),
}

/// A table is a list of key/value pairs; lookups take the first match.
pub type Table = Vec<(String, Value)>;

/// The cause of a construction failure, at the offending value.
#[derive(Debug, Clone)]
pub enum ErrCause {
    ExpectedTable,
    ExpectedArray,
    ExpectedString,
    ExpectedFloat,
    ExpectedInteger,
    IntegerOutOfBounds,
    WrongArrayLength(usize),
    UnknownLightType,
    MissingField(String),
}

/// Where the construction was when it failed, innermost step first.
#[derive(Debug, Clone)]
pub enum PathStep {
    Key(String),
    Index(usize),
    Definition(DefKind),
}

/// The definition contexts that annotate nested errors.
#[derive(Debug, Clone, Copy, PartialEq, Eq, Structural)]
pub enum DefKind {
    CanvasDef,
    CameraDef,
    ViewportDef,
    SphereDef,
    LightDef,
    PointDef,
    VectorDef,
    ColorDef,
    ArrayDef,
}

/// A structured construction error: a cause and the field path from the
/// offending value outward.
#[derive(Debug, Clone)]
pub struct TomlError {
    pub cause: ErrCause,
    pub path: Vec<PathStep>,
}

/// The mathematical value of a cause (strings by their characters).
pub enum CauseV {
    ExpectedTableV,
    ExpectedArrayV,
    ExpectedStringV,
    ExpectedFloatV,
    ExpectedIntegerV,
    IntegerOutOfBoundsV,
    WrongArrayLengthV(int),
    UnknownLightTypeV,
    MissingFieldV(Seq<char>),
}

/// The mathematical value of a path step.
pub enum StepV {
    KeyV(Seq<char>),
    IndexV(int),
    DefinitionV(DefKind),
}

pub open spec fn cause_view(c: ErrCause) -> CauseV {
    match c {
        ErrCause::ExpectedTable => CauseV::ExpectedTableV,
        ErrCause::ExpectedArray => CauseV::ExpectedArrayV,
        ErrCause::ExpectedString => CauseV::ExpectedStringV,
        ErrCause::ExpectedFloat => CauseV::ExpectedFloatV,
        ErrCause::ExpectedInteger => CauseV::ExpectedIntegerV,
        ErrCause::IntegerOutOfBounds => CauseV::IntegerOutOfBoundsV,
        ErrCause::WrongArrayLength(n) => CauseV::WrongArrayLengthV(n as int),
        ErrCause::UnknownLightType => CauseV::UnknownLightTypeV,
        ErrCause::MissingField(k) => CauseV::MissingFieldV(k@),
    }
}

pub open spec fn step_view(s: PathStep) -> StepV {
    match s {
        PathStep::Key(k) => StepV::KeyV(k@),
        PathStep::Index(i) => StepV::IndexV(i as int),
        PathStep::Definition(d) => StepV::DefinitionV(d),
    }
}

/// The mathematical value of a whole path.
pub open spec fn path_view(p: Seq<PathStep>) -> Seq<StepV> {
    p.map_values(|s: PathStep| step_view(s))
}

pub proof fn lemma_path_view_empty()
    ensures
        path_view(Seq::<PathStep>::empty()) == Seq::<StepV>::empty(),
{
    assert(path_view(Seq::<PathStep>::empty()) =~= Seq::<StepV>::empty());
}

pub proof fn lemma_path_view_push(p: Seq<PathStep>, s: PathStep)
    ensures
        path_view(p.push(s)) == path_view(p).push(step_view(s)),
{
    assert(path_view(p.push(s)) =~= path_view(p).push(step_view(s)));
}

/// First value stored under `key` at or after position `i`.
pub open spec fn spec_lookup(t: Seq<(String, Value)>, key: Seq<char>, i: int) -> Option<Value>
    decreases t.len() - i,
{
    if i < 0 || i >= t.len() {
        None
    } else if t[i].0@ == key {
        Some(t[i].1)
    } else {
        spec_lookup(t, key, i + 1)
    }
}

/// First value stored under `key`, if any.
pub open spec fn spec_table_get(t: Seq<(String, Value)>, key: Seq<char>) -> Option<Value> {
    spec_lookup(t, key, 0)
}

/// Something that can be constructed from a description value. Each
/// implementation states which values parse, to what, and with which
/// structured error the others are rejected.
pub trait FromToml where Self: Sized {
    /// `x` is what `v` parses to.
    spec fn spec_ok(v: Value, x: Self) -> bool;

    /// `v` parses at all.
    spec fn spec_parses(v: Value) -> bool;

    /// The cause reported when `v` does not parse.
    spec fn spec_err_cause(v: Value) -> CauseV;

    /// The context path reported when `v` does not parse.
    spec fn spec_err_path(v: Value) -> Seq<StepV>;

    fn from_toml(toml: &Value) -> (r: Result<Self, TomlError>)
        ensures
            match r {
                Ok(x) => Self::spec_parses(*toml) && Self::spec_ok(*toml, x),
                Err(e) => !Self::spec_parses(*toml) && cause_view(e.cause) == Self::spec_err_cause(
                    *toml,
                ) && path_view(e.path@) == Self::spec_err_path(*toml),
            },
    ;
}

/// Borrow the table inside a value, or report `ExpectedTable`.
pub fn get_table<'a>(toml: &'a Value) -> (r: Result<&'a Table, TomlError>)
    ensures
        match r {
            Ok(t) => *toml matches Value::Table(tt) && tt == *t,
            Err(e) => !(*toml matches Value::Table(_)) && cause_view(e.cause)
                == CauseV::ExpectedTableV && path_view(e.path@) == Seq::<StepV>::empty(),
        },
{
    match toml {
        Value::Table(t) => Ok(t),
        _ => {
            proof {
                lemma_path_view_empty();
            }
            Err(TomlError { cause: ErrCause::ExpectedTable, path: Vec::new() })
        },
    }
}

/// A required field: parse what sits under `key`, annotating nested
/// errors with the key; a missing key is its own error.
pub fn table_get<T: FromToml>(table: &Table, key: &str) -> (r: Result<T, TomlError>)
    ensures
        match r {
            Ok(x) => spec_table_get(table@, key@) matches Some(v) && T::spec_parses(v)
                && T::spec_ok(v, x),
            Err(e) => match spec_table_get(table@, key@) {
                None => cause_view(e.cause) == CauseV::MissingFieldV(key@) && path_view(e.path@)
                    == Seq::<StepV>::empty(),
                Some(v) => !T::spec_parses(v) && cause_view(e.cause) == T::spec_err_cause(v)
                    && path_view(e.path@) == T::spec_err_path(v).push(StepV::KeyV(key@)),
            },
        },
{
    let ks = String::from_str(key);
    let mut i: usize = 0;
    while i < table.len()
        invariant
            0 <= i <= table@.len(),
            ks@ == key@,
            spec_lookup(table@, key@, i as int) == spec_lookup(table@, key@, 0),
        decreases table@.len() - i,
    {
        if table[i].0.eq(&ks) {
            match T::from_toml(&table[i].1) {
                Ok(x) => {
                    return Ok(x);
                },
                Err(mut e) => {
                    let ghost p0 = e.path@;
                    e.path.push(PathStep::Key(String::from_str(key)));
                    proof {
                        lemma_path_view_push(p0, e.path@[e.path@.len() - 1]);
                    }
                    return Err(e);
                },
            }
        }
        i = i + 1;
    }
    proof {
        lemma_path_view_empty();
    }
    Err(TomlError { cause: ErrCause::MissingField(String::from_str(key)), path: Vec::new() })
}

/// An optional field: like `table_get`, but a missing key yields the
/// given default.
pub fn table_get_default<T: FromToml>(table: &Table, key: &str, default: T) -> (r: Result<
    T,
    TomlError,
>)
    ensures
        match r {
            Ok(x) => match spec_table_get(table@, key@) {
                None => x == default,
                Some(v) => T::spec_parses(v) && T::spec_ok(v, x),
            },
            Err(e) => spec_table_get(table@, key@) matches Some(v) && !T::spec_parses(v)
                && cause_view(e.cause) == T::spec_err_cause(v) && path_view(e.path@)
                == T::spec_err_path(v).push(StepV::KeyV(key@)),
        },
{
    let ks = String::from_str(key);
    let mut i: usize = 0;
    while i < table.len()
        invariant
            0 <= i <= table@.len(),
            ks@ == key@,
            spec_lookup(table@, key@, i as int) == spec_lookup(table@, key@, 0),
        decreases table@.len() - i,
    {
        if table[i].0.eq(&ks) {
            match T::from_toml(&table[i].1) {
                Ok(x) => {
                    return Ok(x);
                },
                Err(mut e) => {
                    let ghost p0 = e.path@;
                    e.path.push(PathStep::Key(String::from_str(key)));
                    proof {
                        lemma_path_view_push(p0, e.path@[e.path@.len() - 1]);
                    }
                    return Err(e);
                },
            }
        }
        i = i + 1;
    }
    Ok(default)
}

/// Run a construction step and annotate any failure with its definition
/// context.
pub fn ret_obj<T, F: FnOnce() -> Result<T, TomlError>>(err: DefKind, f: F) -> (r: Result<
    T,
    TomlError,
>)
    requires
        f.requires(()),
    ensures
        match r {
            Ok(x) => f.ensures((), Ok(x)),
            Err(e) => exists|e0: TomlError|
                #[trigger] f.ensures((), Err(e0)) && e.cause == e0.cause && e.path@ == e0.path@.push(
                    PathStep::Definition(err),
                ),
        },
{
    match f() {
        Ok(x) => Ok(x),
        Err(mut e) => {
            let ghost e0 = e;
            e.path.push(PathStep::Definition(err));
            proof {
                assert(f.ensures((), Err::<T, TomlError>(e0)));
            }
            Err(e)
        },
    }
}

impl FromToml for Fixed {
    /// Floats parse as themselves; whole numbers convert (saturated).
    open spec fn spec_ok(v: Value, x: Fixed) -> bool {
        match v {
            Value::Float(f) => x == f,
            Value::Integer(i) => x.raw as int == clip(i * SCALE),
            _ => false,
        }
    }

    open spec fn spec_parses(v: Value) -> bool {
        v matches Value::Float(_) || v matches Value::Integer(_)
    }

    open spec fn spec_err_cause(v: Value) -> CauseV {
        CauseV::ExpectedFloatV
    }

    open spec fn spec_err_path(v: Value) -> Seq<StepV> {
        Seq::empty()
    }

    fn from_toml(toml: &Value) -> (r: Result<Fixed, TomlError>) {
        match toml {
            Value::Float(f) => Ok(*f),
            Value::Integer(i) => Ok(Fixed::from_int(*i)),
            _ => {
                proof {
                    lemma_path_view_empty();
                }
                Err(TomlError { cause: ErrCause::ExpectedFloat, path: Vec::new() })
            },
        }
    }
}

impl FromToml for String {
    open spec fn spec_ok(v: Value, x: String) -> bool {
        v matches Value::String(s) && x == s
    }

    open spec fn spec_parses(v: Value) -> bool {
        v matches Value::String(_)
    }

    open spec fn spec_err_cause(v: Value) -> CauseV {
        CauseV::ExpectedStringV
    }

    open spec fn spec_err_path(v: Value) -> Seq<StepV> {
        Seq::empty()
    }

    fn from_toml(toml: &Value) -> (r: Result<String, TomlError>) {
        match toml {
            Value::String(s) => Ok(s.clone()),
            _ => {
                proof {
                    lemma_path_view_empty();
                }
                Err(TomlError { cause: ErrCause::ExpectedString, path: Vec::new() })
            },
        }
    }
}

impl FromToml for i64 {
    open spec fn spec_ok(v: Value, x: i64) -> bool {
        v matches Value::Integer(i) && x == i
    }

    open spec fn spec_parses(v: Value) -> bool {
        v matches Value::Integer(_)
    }

    open spec fn spec_err_cause(v: Value) -> CauseV {
        CauseV::ExpectedIntegerV
    }

    open spec fn spec_err_path(v: Value) -> Seq<StepV> {
        Seq::empty()
    }

    fn from_toml(toml: &Value) -> (r: Result<i64, TomlError>) {
        match toml {
            Value::Integer(i) => Ok(*i),
            _ => {
                proof {
                    lemma_path_view_empty();
                }
                Err(TomlError { cause: ErrCause::ExpectedInteger, path: Vec::new() })
            },
        }
    }
}

impl FromToml for u32 {
    /// Whole numbers inside the type's range.
    open spec fn spec_ok(v: Value, x: u32) -> bool {
        v matches Value::Integer(i) && 0 <= i <= u32::MAX && x == i as u32
    }

    open spec fn spec_parses(v: Value) -> bool {
        v matches Value::Integer(i) && 0 <= i <= u32::MAX
    }

    open spec fn spec_err_cause(v: Value) -> CauseV {
        match v {
            Value::Integer(i) => CauseV::IntegerOutOfBoundsV,
            _ => CauseV::ExpectedIntegerV,
        }
    }

    open spec fn spec_err_path(v: Value) -> Seq<StepV> {
        Seq::empty()
    }

    fn from_toml(toml: &Value) -> (r: Result<u32, TomlError>) {
        proof {
            lemma_path_view_empty();
        }
        match toml {
            Value::Integer(i) => {
                if 0 <= *i && *i <= u32::MAX as i64 {
                    Ok(*i as u32)
                } else {
                    Err(TomlError { cause: ErrCause::IntegerOutOfBounds, path: Vec::new() })
                }
            },
            _ => Err(TomlError { cause: ErrCause::ExpectedInteger, path: Vec::new() }),
        }
    }
}

impl FromToml for u8 {
    /// Whole numbers inside the type's range.
    open spec fn spec_ok(v: Value, x: u8) -> bool {
        v matches Value::Integer(i) && 0 <= i <= u8::MAX && x == i as u8
    }

    open spec fn spec_parses(v: Value) -> bool {
        v matches Value::Integer(i) && 0 <= i <= u8::MAX
    }

    open spec fn spec_err_cause(v: Value) -> CauseV {
        match v {
            Value::Integer(i) => CauseV::IntegerOutOfBoundsV,
            _ => CauseV::ExpectedIntegerV,
        }
    }

    open spec fn spec_err_path(v: Value) -> Seq<StepV> {
        Seq::empty()
    }

    fn from_toml(toml: &Value) -> (r: Result<u8, TomlError>) {
        proof {
            lemma_path_view_empty();
        }
        match toml {
            Value::Integer(i) => {
                if 0 <= *i && *i <= u8::MAX as i64 {
                    Ok(*i as u8)
                } else {
                    Err(TomlError { cause: ErrCause::IntegerOutOfBounds, path: Vec::new() })
                }
            },
            _ => Err(TomlError { cause: ErrCause::ExpectedInteger, path: Vec::new() }),
        }
    }
}

} // verus!

verus! {

/// The first index at or after `i` whose element does not parse as `T`
/// (the length when all do).
pub open spec fn spec_first_bad<T: FromToml>(a: Seq<Value>, i: int) -> int
    decreases a.len() - i,
{
    if i < 0 || i >= a.len() {
        a.len() as int
    } else if !T::spec_parses(a[i]) {
        i
    } else {
        spec_first_bad::<T>(a, i + 1)
    }
}

/// Parse every element of an array in order; the first failure is
/// annotated with its index and the array context.
fn parse_elems<T: FromToml>(a: &Vec<Value>) -> (r: Result<Vec<T>, TomlError>)
    ensures
        match r {
            Ok(x) => {
                &&& x@.len() == a@.len()
                &&& forall|i: int| 0 <= i < a@.len() ==> #[trigger] T::spec_parses(a@[i])
                &&& forall|i: int| 0 <= i < a@.len() ==> #[trigger] T::spec_ok(a@[i], x@[i])
            },
            Err(e) => {
                let bad = spec_first_bad::<T>(a@, 0);
                &&& 0 <= bad < a@.len()
                &&& !T::spec_parses(a@[bad])
                &&& cause_view(e.cause) == T::spec_err_cause(a@[bad])
                &&& path_view(e.path@) == T::spec_err_path(a@[bad]).push(StepV::IndexV(bad)).push(
                    StepV::DefinitionV(DefKind::ArrayDef),
                )
            },
        },
{
    let mut out: Vec<T> = Vec::new();
    let mut i: usize = 0;
    while i < a.len()
        invariant
            0 <= i <= a@.len(),
            out@.len() == i,
            forall|j: int| 0 <= j < i ==> #[trigger] T::spec_parses(a@[j]),
            forall|j: int| 0 <= j < i ==> #[trigger] T::spec_ok(a@[j], out@[j]),
            spec_first_bad::<T>(a@, i as int) == spec_first_bad::<T>(a@, 0),
        decreases a@.len() - i,
    {
        match T::from_toml(&a[i]) {
            Ok(x) => {
                out.push(x);
            },
            Err(mut e) => {
                let ghost p0 = e.path@;
                e.path.push(PathStep::Index(i));
                proof {
                    lemma_path_view_push(p0, e.path@[e.path@.len() - 1]);
                }
                let ghost p1 = e.path@;
                e.path.push(PathStep::Definition(DefKind::ArrayDef));
                proof {
                    lemma_path_view_push(p1, e.path@[e.path@.len() - 1]);
                }
                return Err(e);
            },
        }
        i = i + 1;
    }
    Ok(out)
}

impl<T: FromToml> FromToml for Vec<T> {
    /// An array, every element of which parses as `T`.
    open spec fn spec_ok(v: Value, x: Vec<T>) -> bool {
        match v {
            Value::Array(a) => x@.len() == a@.len() && forall|i: int|
                0 <= i < a@.len() ==> #[trigger] T::spec_ok(a@[i], x@[i]),
            _ => false,
        }
    }

    open spec fn spec_parses(v: Value) -> bool {
        match v {
            Value::Array(a) => forall|i: int| 0 <= i < a@.len() ==> #[trigger] T::spec_parses(a@[i]),
            _ => false,
        }
    }

    open spec fn spec_err_cause(v: Value) -> CauseV {
        match v {
            Value::Array(a) => T::spec_err_cause(a@[spec_first_bad::<T>(a@, 0)]),
            _ => CauseV::ExpectedArrayV,
        }
    }

    open spec fn spec_err_path(v: Value) -> Seq<StepV> {
        match v {
            Value::Array(a) => T::spec_err_path(a@[spec_first_bad::<T>(a@, 0)]).push(
                StepV::IndexV(spec_first_bad::<T>(a@, 0)),
            ).push(StepV::DefinitionV(DefKind::ArrayDef)),
            _ => Seq::empty(),
        }
    }

    fn from_toml(toml: &Value) -> (r: Result<Vec<T>, TomlError>) {
        match toml {
            Value::Array(a) => {
                parse_elems(a)
            },
            _ => {
                proof {
                    lemma_path_view_empty();
                }
                Err(TomlError { cause: ErrCause::ExpectedArray, path: Vec::new() })
            },
        }
    }
}

impl FromToml for Vec3 {
    /// An array of exactly three scalars.
    open spec fn spec_ok(v: Value, x: Vec3) -> bool {
        match v {
            Value::Array(a) => a@.len() == 3 && Fixed::spec_ok(a@[0], x.x) && Fixed::spec_ok(
                a@[1],
                x.y,
            ) && Fixed::spec_ok(a@[2], x.z),
            _ => false,
        }
    }

    open spec fn spec_parses(v: Value) -> bool {
        match v {
            Value::Array(a) => a@.len() == 3 && forall|i: int|
                0 <= i < 3 ==> #[trigger] Fixed::spec_parses(a@[i]),
            _ => false,
        }
    }

    open spec fn spec_err_cause(v: Value) -> CauseV {
        match v {
            Value::Array(a) => if a@.len() != 3 {
                CauseV::WrongArrayLengthV(3)
            } else {
                Fixed::spec_err_cause(a@[spec_first_bad::<Fixed>(a@, 0)])
            },
            _ => CauseV::WrongArrayLengthV(3),
        }
    }

    open spec fn spec_err_path(v: Value) -> Seq<StepV> {
        match v {
            Value::Array(a) => if a@.len() != 3 {
                Seq::empty().push(StepV::DefinitionV(DefKind::VectorDef))
            } else {
                Fixed::spec_err_path(a@[spec_first_bad::<Fixed>(a@, 0)]).push(
                    StepV::IndexV(spec_first_bad::<Fixed>(a@, 0)),
                ).push(StepV::DefinitionV(DefKind::ArrayDef)).push(
                    StepV::DefinitionV(DefKind::VectorDef),
                )
            },
            _ => Seq::empty().push(StepV::DefinitionV(DefKind::VectorDef)),
        }
    }

    fn from_toml(toml: &Value) -> (r: Result<Vec3, TomlError>) {
        proof {
            lemma_path_view_empty();
        }
        match toml {
            Value::Array(a) => {
                if a.len() != 3 {
                    let mut e = TomlError {
                        cause: ErrCause::WrongArrayLength(3),
                        path: Vec::new(),
                    };
                    let ghost p0 = e.path@;
                    e.path.push(PathStep::Definition(DefKind::VectorDef));
                    proof {
                        lemma_path_view_push(p0, e.path@[e.path@.len() - 1]);
                    }
                    Err(e)
                } else {
                    match parse_elems::<Fixed>(a) {
                        Ok(xs) => Ok(Vec3 { x: xs[0], y: xs[1], z: xs[2] }),
                        Err(mut e) => {
                            let ghost p0 = e.path@;
                            e.path.push(PathStep::Definition(DefKind::VectorDef));
                            proof {
                                lemma_path_view_push(p0, e.path@[e.path@.len() - 1]);
                            }
                            Err(e)
                        },
                    }
                }
            },
            _ => {
                let mut e = TomlError { cause: ErrCause::WrongArrayLength(3), path: Vec::new() };
                let ghost p0 = e.path@;
                e.path.push(PathStep::Definition(DefKind::VectorDef));
                proof {
                    lemma_path_view_push(p0, e.path@[e.path@.len() - 1]);
                }
                Err(e)
            },
        }
    }
}

impl FromToml for Color {
    /// An array of exactly three byte channels.
    open spec fn spec_ok(v: Value, x: Color) -> bool {
        match v {
            Value::Array(a) => a@.len() == 3 && u8::spec_ok(a@[0], x.r) && u8::spec_ok(a@[1], x.g)
                && u8::spec_ok(a@[2], x.b),
            _ => false,
        }
    }

    open spec fn spec_parses(v: Value) -> bool {
        match v {
            Value::Array(a) => a@.len() == 3 && forall|i: int|
                0 <= i < 3 ==> #[trigger] u8::spec_parses(a@[i]),
            _ => false,
        }
    }

    open spec fn spec_err_cause(v: Value) -> CauseV {
        match v {
            Value::Array(a) => if a@.len() != 3 {
                CauseV::WrongArrayLengthV(3)
            } else {
                u8::spec_err_cause(a@[spec_first_bad::<u8>(a@, 0)])
            },
            _ => CauseV::WrongArrayLengthV(3),
        }
    }

    open spec fn spec_err_path(v: Value) -> Seq<StepV> {
        match v {
            Value::Array(a) => if a@.len() != 3 {
                Seq::empty().push(StepV::DefinitionV(DefKind::ColorDef))
            } else {
                u8::spec_err_path(a@[spec_first_bad::<u8>(a@, 0)]).push(
                    StepV::IndexV(spec_first_bad::<u8>(a@, 0)),
                ).push(StepV::DefinitionV(DefKind::ArrayDef)).push(
                    StepV::DefinitionV(DefKind::ColorDef),
                )
            },
            _ => Seq::empty().push(StepV::DefinitionV(DefKind::ColorDef)),
        }
    }

    fn from_toml(toml: &Value) -> (r: Result<Color, TomlError>) {
        proof {
            lemma_path_view_empty();
        }
        match toml {
            Value::Array(a) => {
                if a.len() != 3 {
                    let mut e = TomlError {
                        cause: ErrCause::WrongArrayLength(3),
                        path: Vec::new(),
                    };
                    let ghost p0 = e.path@;
                    e.path.push(PathStep::Definition(DefKind::ColorDef));
                    proof {
                        lemma_path_view_push(p0, e.path@[e.path@.len() - 1]);
                    }
                    Err(e)
                } else {
                    match parse_elems::<u8>(a) {
                        Ok(xs) => Ok(color(xs[0], xs[1], xs[2])),
                        Err(mut e) => {
                            let ghost p0 = e.path@;
                            e.path.push(PathStep::Definition(DefKind::ColorDef));
                            proof {
                                lemma_path_view_push(p0, e.path@[e.path@.len() - 1]);
                            }
                            Err(e)
                        },
                    }
                }
            },
            _ => {
                let mut e = TomlError { cause: ErrCause::WrongArrayLength(3), path: Vec::new() };
                let ghost p0 = e.path@;
                e.path.push(PathStep::Definition(DefKind::ColorDef));
                proof {
                    lemma_path_view_push(p0, e.path@[e.path@.len() - 1]);
                }
                Err(e)
            },
        }
    }
}

} // verus!

verus! {

/// The value under `key` parses as `T`.
pub open spec fn spec_get_parses<T: FromToml>(t: Seq<(String, Value)>, key: Seq<char>) -> bool {
    match spec_table_get(t, key) {
        None => false,
        Some(v) => T::spec_parses(v),
    }
}

/// The value under `key` parses as `T` to `x`.
pub open spec fn spec_get_ok<T: FromToml>(t: Seq<(String, Value)>, key: Seq<char>, x: T) -> bool {
    match spec_table_get(t, key) {
        None => false,
        Some(v) => T::spec_ok(v, x),
    }
}

/// The optional value under `key` parses as `T` if it is there.
pub open spec fn spec_opt_parses<T: FromToml>(t: Seq<(String, Value)>, key: Seq<char>) -> bool {
    match spec_table_get(t, key) {
        None => true,
        Some(v) => T::spec_parses(v),
    }
}

/// The error cause of a failed required lookup under `key`.
pub open spec fn spec_get_err_cause<T: FromToml>(t: Seq<(String, Value)>, key: Seq<char>) -> CauseV {
    match spec_table_get(t, key) {
        None => CauseV::MissingFieldV(key),
        Some(v) => T::spec_err_cause(v),
    }
}

/// The error path of a failed lookup under `key`.
pub open spec fn spec_get_err_path<T: FromToml>(t: Seq<(String, Value)>, key: Seq<char>) -> Seq<
    StepV,
> {
    match spec_table_get(t, key) {
        None => Seq::empty(),
        Some(v) => T::spec_err_path(v).push(StepV::KeyV(key)),
    }
}

/// The whole number held by a parsed integer value.
pub open spec fn spec_u32_of(v: Value) -> u32 {
    match v {
        Value::Integer(i) => i as u32,
        _ => 0,
    }
}

/// The characters held by a parsed string value.
pub open spec fn spec_str_of(v: Value) -> Seq<char> {
    match v {
        Value::String(s) => s@,
        _ => Seq::empty(),
    }
}

/// Pass a result through, annotating a failure with its definition
/// context.
fn wrap_def<T>(r: Result<T, TomlError>, d: DefKind) -> (out: Result<T, TomlError>)
    ensures
        match out {
            Ok(x) => r == Ok::<T, TomlError>(x),
            Err(e) => r matches Err(e0) && e.cause == e0.cause && path_view(e.path@) == path_view(
                e0.path@,
            ).push(StepV::DefinitionV(d)),
        },
{
    match r {
        Ok(x) => Ok(x),
        Err(mut e) => {
            let ghost p0 = e.path@;
            e.path.push(PathStep::Definition(d));
            proof {
                lemma_path_view_push(p0, e.path@[e.path@.len() - 1]);
            }
            Err(e)
        },
    }
}

/// The parsed width of a canvas table.
pub open spec fn spec_canvas_w(t: Seq<(String, Value)>) -> u32 {
    spec_u32_of(spec_table_get(t, "width"@)->Some_0)
}

/// The parsed height of a canvas table.
pub open spec fn spec_canvas_h(t: Seq<(String, Value)>) -> u32 {
    spec_u32_of(spec_table_get(t, "height"@)->Some_0)
}

/// The parsed canvas dimensions describe a grid the machine can hold.
pub open spec fn spec_canvas_fits(t: Seq<(String, Value)>) -> bool {
    spec_canvas_w(t) <= 0x7fffffff && spec_canvas_h(t) <= 0x7fffffff && spec_canvas_w(t)
        * spec_canvas_h(t) <= usize::MAX
}

impl FromToml for Canvas {
    /// A table with whole-number `width` and `height`, sized so that the
    /// grid is addressable; the grid starts out black.
    open spec fn spec_ok(v: Value, c: Canvas) -> bool {
        match v {
            Value::Table(t) => {
                &&& spec_get_ok::<u32>(t@, "width"@, c.width)
                &&& spec_get_ok::<u32>(t@, "height"@, c.height)
                &&& spec_canvas_fits(t@)
                &&& c.wf()
                &&& forall|i: int|
                    0 <= i < c.pixels@.len() ==> c.pixels@[i] == (Color { r: 0, g: 0, b: 0 })
            },
            _ => false,
        }
    }

    open spec fn spec_parses(v: Value) -> bool {
        match v {
            Value::Table(t) => spec_get_parses::<u32>(t@, "width"@) && spec_get_parses::<u32>(
                t@,
                "height"@,
            ) && spec_canvas_fits(t@),
            _ => false,
        }
    }

    open spec fn spec_err_cause(v: Value) -> CauseV {
        match v {
            Value::Table(t) => if !spec_get_parses::<u32>(t@, "width"@) {
                spec_get_err_cause::<u32>(t@, "width"@)
            } else if !spec_get_parses::<u32>(t@, "height"@) {
                spec_get_err_cause::<u32>(t@, "height"@)
            } else {
                CauseV::IntegerOutOfBoundsV
            },
            _ => CauseV::ExpectedTableV,
        }
    }

    open spec fn spec_err_path(v: Value) -> Seq<StepV> {
        match v {
            Value::Table(t) => if !spec_get_parses::<u32>(t@, "width"@) {
                spec_get_err_path::<u32>(t@, "width"@).push(StepV::DefinitionV(DefKind::CanvasDef))
            } else if !spec_get_parses::<u32>(t@, "height"@) {
                spec_get_err_path::<u32>(t@, "height"@).push(StepV::DefinitionV(DefKind::CanvasDef))
            } else {
                Seq::empty().push(StepV::DefinitionV(DefKind::CanvasDef))
            },
            _ => Seq::empty().push(StepV::DefinitionV(DefKind::CanvasDef)),
        }
    }

    fn from_toml(toml: &Value) -> (r: Result<Canvas, TomlError>) {
        proof {
            lemma_path_view_empty();
        }
        let inner: Result<Canvas, TomlError> = match toml {
            Value::Table(t) => {
                match table_get::<u32>(t, "width") {
                    Err(e) => Err(e),
                    Ok(width) => match table_get::<u32>(t, "height") {
                        Err(e) => Err(e),
                        Ok(height) => {
                            if width <= 0x7fffffff && height <= 0x7fffffff {
                                proof {
                                    crate::fixed::lemma_mul_bound(
                                        width as int,
                                        height as int,
                                        0x80000000,
                                        0x80000000,
                                    );
                                }
                                if (width as u64) * (height as u64) <= usize::MAX as u64 {
                                    Ok(Canvas::new(width, height))
                                } else {
                                    Err(
                                        TomlError {
                                            cause: ErrCause::IntegerOutOfBounds,
                                            path: Vec::new(),
                                        },
                                    )
                                }
                            } else {
                                Err(
                                    TomlError {
                                        cause: ErrCause::IntegerOutOfBounds,
                                        path: Vec::new(),
                                    },
                                )
                            }
                        },
                    },
                }
            },
            _ => Err(TomlError { cause: ErrCause::ExpectedTable, path: Vec::new() }),
        };
        wrap_def(inner, DefKind::CanvasDef)
    }
}

impl FromToml for Camera {
    /// A table with an optional `position` point and optional `rotation`
    /// angles, both defaulting to zero.
    open spec fn spec_ok(v: Value, c: Camera) -> bool {
        match v {
            Value::Table(t) => {
                &&& match spec_table_get(t@, "position"@) {
                    None => c.position == (Vec3 {
                        x: Fixed { raw: 0 },
                        y: Fixed { raw: 0 },
                        z: Fixed { raw: 0 },
                    }),
                    Some(pv) => Vec3::spec_ok(pv, c.position),
                }
                &&& match spec_table_get(t@, "rotation"@) {
                    None => c.rot_x == (Fixed { raw: 0 }) && c.rot_y == (Fixed { raw: 0 })
                        && c.rot_z == (Fixed { raw: 0 }),
                    Some(rv) => Vec3::spec_ok(
                        rv,
                        Vec3 { x: c.rot_x, y: c.rot_y, z: c.rot_z },
                    ),
                }
            },
            _ => false,
        }
    }

    open spec fn spec_parses(v: Value) -> bool {
        match v {
            Value::Table(t) => spec_opt_parses::<Vec3>(t@, "position"@) && spec_opt_parses::<Vec3>(
                t@,
                "rotation"@,
            ),
            _ => false,
        }
    }

    open spec fn spec_err_cause(v: Value) -> CauseV {
        match v {
            Value::Table(t) => if !spec_opt_parses::<Vec3>(t@, "position"@) {
                spec_get_err_cause::<Vec3>(t@, "position"@)
            } else {
                spec_get_err_cause::<Vec3>(t@, "rotation"@)
            },
            _ => CauseV::ExpectedTableV,
        }
    }

    open spec fn spec_err_path(v: Value) -> Seq<StepV> {
        match v {
            Value::Table(t) => if !spec_opt_parses::<Vec3>(t@, "position"@) {
                spec_get_err_path::<Vec3>(t@, "position"@).push(
                    StepV::DefinitionV(DefKind::CameraDef),
                )
            } else {
                spec_get_err_path::<Vec3>(t@, "rotation"@).push(
                    StepV::DefinitionV(DefKind::CameraDef),
                )
            },
            _ => Seq::empty().push(StepV::DefinitionV(DefKind::CameraDef)),
        }
    }

    fn from_toml(toml: &Value) -> (r: Result<Camera, TomlError>) {
        proof {
            lemma_path_view_empty();
        }
        let inner: Result<Camera, TomlError> = match toml {
            Value::Table(t) => {
                match table_get_default::<Vec3>(t, "position", Vec3::zero()) {
                    Err(e) => Err(e),
                    Ok(position) => match table_get_default::<Vec3>(t, "rotation", Vec3::zero()) {
                        Err(e) => Err(e),
                        Ok(rotation) => Ok(
                            Camera {
                                position,
                                rot_x: rotation.x,
                                rot_y: rotation.y,
                                rot_z: rotation.z,
                            },
                        ),
                    },
                }
            },
            _ => Err(TomlError { cause: ErrCause::ExpectedTable, path: Vec::new() }),
        };
        wrap_def(inner, DefKind::CameraDef)
    }
}

impl FromToml for Viewport {
    /// A table with optional `width`, `height` and `distance`, each
    /// defaulting to one.
    open spec fn spec_ok(v: Value, vp: Viewport) -> bool {
        match v {
            Value::Table(t) => {
                &&& match spec_table_get(t@, "width"@) {
                    None => vp.width == (Fixed { raw: SCALE }),
                    Some(w) => Fixed::spec_ok(w, vp.width),
                }
                &&& match spec_table_get(t@, "height"@) {
                    None => vp.height == (Fixed { raw: SCALE }),
                    Some(h) => Fixed::spec_ok(h, vp.height),
                }
                &&& match spec_table_get(t@, "distance"@) {
                    None => vp.distance == (Fixed { raw: SCALE }),
                    Some(d) => Fixed::spec_ok(d, vp.distance),
                }
            },
            _ => false,
        }
    }

    open spec fn spec_parses(v: Value) -> bool {
        match v {
            Value::Table(t) => spec_opt_parses::<Fixed>(t@, "width"@) && spec_opt_parses::<Fixed>(
                t@,
                "height"@,
            ) && spec_opt_parses::<Fixed>(t@, "distance"@),
            _ => false,
        }
    }

    open spec fn spec_err_cause(v: Value) -> CauseV {
        match v {
            Value::Table(t) => if !spec_opt_parses::<Fixed>(t@, "width"@) {
                spec_get_err_cause::<Fixed>(t@, "width"@)
            } else if !spec_opt_parses::<Fixed>(t@, "height"@) {
                spec_get_err_cause::<Fixed>(t@, "height"@)
            } else {
                spec_get_err_cause::<Fixed>(t@, "distance"@)
            },
            _ => CauseV::ExpectedTableV,
        }
    }

    open spec fn spec_err_path(v: Value) -> Seq<StepV> {
        match v {
            Value::Table(t) => if !spec_opt_parses::<Fixed>(t@, "width"@) {
                spec_get_err_path::<Fixed>(t@, "width"@).push(
                    StepV::DefinitionV(DefKind::ViewportDef),
                )
            } else if !spec_opt_parses::<Fixed>(t@, "height"@) {
                spec_get_err_path::<Fixed>(t@, "height"@).push(
                    StepV::DefinitionV(DefKind::ViewportDef),
                )
            } else {
                spec_get_err_path::<Fixed>(t@, "distance"@).push(
                    StepV::DefinitionV(DefKind::ViewportDef),
                )
            },
            _ => Seq::empty().push(StepV::DefinitionV(DefKind::ViewportDef)),
        }
    }

    fn from_toml(toml: &Value) -> (r: Result<Viewport, TomlError>) {
        proof {
            lemma_path_view_empty();
        }
        let inner: Result<Viewport, TomlError> = match toml {
            Value::Table(t) => {
                match table_get_default::<Fixed>(t, "width", Fixed::one()) {
                    Err(e) => Err(e),
                    Ok(width) => match table_get_default::<Fixed>(t, "height", Fixed::one()) {
                        Err(e) => Err(e),
                        Ok(height) => match table_get_default::<Fixed>(
                            t,
                            "distance",
                            Fixed::one(),
                        ) {
                            Err(e) => Err(e),
                            Ok(distance) => Ok(Viewport { width, height, distance }),
                        },
                    },
                }
            },
            _ => Err(TomlError { cause: ErrCause::ExpectedTable, path: Vec::new() }),
        };
        wrap_def(inner, DefKind::ViewportDef)
    }
}

} // verus!

verus! {

impl FromToml for Sphere {
    /// A table with a required `position`, `radius` and `color`, and
    /// optional `specular` and `reflective` scalars defaulting to zero.
    open spec fn spec_ok(v: Value, s: Sphere) -> bool {
        match v {
            Value::Table(t) => {
                &&& spec_get_ok::<Vec3>(t@, "position"@, s.pos)
                &&& spec_get_ok::<Fixed>(t@, "radius"@, s.radius)
                &&& spec_get_ok::<Color>(t@, "color"@, s.color)
                &&& match spec_table_get(t@, "specular"@) {
                    None => s.specular == (Fixed { raw: 0 }),
                    Some(w) => Fixed::spec_ok(w, s.specular),
                }
                &&& match spec_table_get(t@, "reflective"@) {
                    None => s.reflective == (Fixed { raw: 0 }),
                    Some(w) => Fixed::spec_ok(w, s.reflective),
                }
            },
            _ => false,
        }
    }

    open spec fn spec_parses(v: Value) -> bool {
        match v {
            Value::Table(t) => {
                &&& spec_get_parses::<Vec3>(t@, "position"@)
                &&& spec_get_parses::<Fixed>(t@, "radius"@)
                &&& spec_get_parses::<Color>(t@, "color"@)
                &&& spec_opt_parses::<Fixed>(t@, "specular"@)
                &&& spec_opt_parses::<Fixed>(t@, "reflective"@)
            },
            _ => false,
        }
    }

    open spec fn spec_err_cause(v: Value) -> CauseV {
        match v {
            Value::Table(t) => if !spec_get_parses::<Vec3>(t@, "position"@) {
                spec_get_err_cause::<Vec3>(t@, "position"@)
            } else if !spec_get_parses::<Fixed>(t@, "radius"@) {
                spec_get_err_cause::<Fixed>(t@, "radius"@)
            } else if !spec_get_parses::<Color>(t@, "color"@) {
                spec_get_err_cause::<Color>(t@, "color"@)
            } else if !spec_opt_parses::<Fixed>(t@, "specular"@) {
                spec_get_err_cause::<Fixed>(t@, "specular"@)
            } else {
                spec_get_err_cause::<Fixed>(t@, "reflective"@)
            },
            _ => CauseV::ExpectedTableV,
        }
    }

    open spec fn spec_err_path(v: Value) -> Seq<StepV> {
        match v {
            Value::Table(t) => (if !spec_get_parses::<Vec3>(t@, "position"@) {
                spec_get_err_path::<Vec3>(t@, "position"@)
            } else if !spec_get_parses::<Fixed>(t@, "radius"@) {
                spec_get_err_path::<Fixed>(t@, "radius"@)
            } else if !spec_get_parses::<Color>(t@, "color"@) {
                spec_get_err_path::<Color>(t@, "color"@)
            } else if !spec_opt_parses::<Fixed>(t@, "specular"@) {
                spec_get_err_path::<Fixed>(t@, "specular"@)
            } else {
                spec_get_err_path::<Fixed>(t@, "reflective"@)
            }).push(StepV::DefinitionV(DefKind::SphereDef)),
            _ => Seq::empty().push(StepV::DefinitionV(DefKind::SphereDef)),
        }
    }

    fn from_toml(toml: &Value) -> (r: Result<Sphere, TomlError>) {
        proof {
            lemma_path_view_empty();
        }
        let inner: Result<Sphere, TomlError> = match toml {
            Value::Table(t) => {
                match table_get::<Vec3>(t, "position") {
                    Err(e) => Err(e),
                    Ok(pos) => match table_get::<Fixed>(t, "radius") {
                        Err(e) => Err(e),
                        Ok(radius) => match table_get::<Color>(t, "color") {
                            Err(e) => Err(e),
                            Ok(col) => match table_get_default::<Fixed>(
                                t,
                                "specular",
                                Fixed::zero(),
                            ) {
                                Err(e) => Err(e),
                                Ok(specular) => match table_get_default::<Fixed>(
                                    t,
                                    "reflective",
                                    Fixed::zero(),
                                ) {
                                    Err(e) => Err(e),
                                    Ok(reflective) => Ok(
                                        Sphere { pos, radius, color: col, specular, reflective },
                                    ),
                                },
                            },
                        },
                    },
                }
            },
            _ => Err(TomlError { cause: ErrCause::ExpectedTable, path: Vec::new() }),
        };
        wrap_def(inner, DefKind::SphereDef)
    }
}

impl FromToml for Light {
    /// A table with a `type` tag of `ambient`, `point` or `directional`,
    /// an `intensity`, and the position or direction its kind requires.
    open spec fn spec_ok(v: Value, l: Light) -> bool {
        match v {
            Value::Table(t) => {
                &&& spec_get_parses::<String>(t@, "type"@)
                &&& {
                    let ty = spec_str_of(spec_table_get(t@, "type"@)->Some_0);
                    if ty == "ambient"@ {
                        l matches Light::Ambient { intensity } && spec_get_ok::<Fixed>(
                            t@,
                            "intensity"@,
                            intensity,
                        )
                    } else if ty == "point"@ {
                        l matches Light::Point { intensity, pos } && spec_get_ok::<Fixed>(
                            t@,
                            "intensity"@,
                            intensity,
                        ) && spec_get_ok::<Vec3>(t@, "position"@, pos)
                    } else if ty == "directional"@ {
                        l matches Light::Directional { intensity, direction } && spec_get_ok::<
                            Fixed,
                        >(t@, "intensity"@, intensity) && spec_get_ok::<Vec3>(
                            t@,
                            "direction"@,
                            direction,
                        )
                    } else {
                        false
                    }
                }
            },
            _ => false,
        }
    }

    open spec fn spec_parses(v: Value) -> bool {
        match v {
            Value::Table(t) => {
                &&& spec_get_parses::<String>(t@, "type"@)
                &&& spec_get_parses::<Fixed>(t@, "intensity"@)
                &&& {
                    let ty = spec_str_of(spec_table_get(t@, "type"@)->Some_0);
                    if ty == "ambient"@ {
                        true
                    } else if ty == "point"@ {
                        spec_get_parses::<Vec3>(t@, "position"@)
                    } else if ty == "directional"@ {
                        spec_get_parses::<Vec3>(t@, "direction"@)
                    } else {
                        false
                    }
                }
            },
            _ => false,
        }
    }

    open spec fn spec_err_cause(v: Value) -> CauseV {
        match v {
            Value::Table(t) => if !spec_get_parses::<String>(t@, "type"@) {
                spec_get_err_cause::<String>(t@, "type"@)
            } else if !spec_get_parses::<Fixed>(t@, "intensity"@) {
                spec_get_err_cause::<Fixed>(t@, "intensity"@)
            } else {
                let ty = spec_str_of(spec_table_get(t@, "type"@)->Some_0);
                if ty == "ambient"@ {
                    CauseV::UnknownLightTypeV
                } else if ty == "point"@ {
                    spec_get_err_cause::<Vec3>(t@, "position"@)
                } else if ty == "directional"@ {
                    spec_get_err_cause::<Vec3>(t@, "direction"@)
                } else {
                    CauseV::UnknownLightTypeV
                }
            },
            _ => CauseV::ExpectedTableV,
        }
    }

    open spec fn spec_err_path(v: Value) -> Seq<StepV> {
        match v {
            Value::Table(t) => (if !spec_get_parses::<String>(t@, "type"@) {
                spec_get_err_path::<String>(t@, "type"@)
            } else if !spec_get_parses::<Fixed>(t@, "intensity"@) {
                spec_get_err_path::<Fixed>(t@, "intensity"@)
            } else {
                let ty = spec_str_of(spec_table_get(t@, "type"@)->Some_0);
                if ty == "ambient"@ {
                    Seq::empty()
                } else if ty == "point"@ {
                    spec_get_err_path::<Vec3>(t@, "position"@)
                } else if ty == "directional"@ {
                    spec_get_err_path::<Vec3>(t@, "direction"@)
                } else {
                    Seq::empty()
                }
            }).push(StepV::DefinitionV(DefKind::LightDef)),
            _ => Seq::empty().push(StepV::DefinitionV(DefKind::LightDef)),
        }
    }

    fn from_toml(toml: &Value) -> (r: Result<Light, TomlError>) {
        proof {
            lemma_path_view_empty();
        }
        let inner: Result<Light, TomlError> = match toml {
            Value::Table(t) => {
                match table_get::<String>(t, "type") {
                    Err(e) => Err(e),
                    Ok(light_type) => match table_get::<Fixed>(t, "intensity") {
                        Err(e) => Err(e),
                        Ok(intensity) => {
                            if light_type.eq(&String::from_str("ambient")) {
                                Ok(Light::Ambient { intensity })
                            } else if light_type.eq(&String::from_str("point")) {
                                match table_get::<Vec3>(t, "position") {
                                    Err(e) => Err(e),
                                    Ok(pos) => Ok(Light::Point { intensity, pos }),
                                }
                            } else if light_type.eq(&String::from_str("directional")) {
                                match table_get::<Vec3>(t, "direction") {
                                    Err(e) => Err(e),
                                    Ok(direction) => Ok(
                                        Light::Directional { intensity, direction },
                                    ),
                                }
                            } else {
                                Err(
                                    TomlError {
                                        cause: ErrCause::UnknownLightType,
                                        path: Vec::new(),
                                    },
                                )
                            }
                        },
                    },
                }
            },
            _ => Err(TomlError { cause: ErrCause::ExpectedTable, path: Vec::new() }),
        };
        wrap_def(inner, DefKind::LightDef)
    }
}

} // verus!

verus! {

/// The default viewport height derived from the canvas aspect ratio:
/// one divided by `width / height`, with a unit fallback where either
/// step would divide by zero.
pub open spec fn spec_default_vp_height(w: u32, h: u32) -> Fixed {
    if h == 0 {
        Fixed { raw: SCALE }
    } else {
        let ratio = fx_div(clip(w * SCALE), clip(h * SCALE));
        if ratio == 0 {
            Fixed { raw: SCALE }
        } else {
            Fixed { raw: fx_div(SCALE as int, ratio) as i64 }
        }
    }
}

/// The default viewport of a parsed canvas.
pub open spec fn spec_default_viewport(c: Canvas) -> Viewport {
    Viewport {
        width: Fixed { raw: SCALE },
        height: spec_default_vp_height(c.width, c.height),
        distance: Fixed { raw: SCALE },
    }
}

fn default_viewport(c: &Canvas) -> (v: Viewport)
    ensures
        v == spec_default_viewport(*c),
{
    let height = if c.height == 0 {
        Fixed::one()
    } else {
        let ratio = Fixed::from_int(c.width as i64).div(Fixed::from_int(c.height as i64));
        if ratio.raw == 0 {
            Fixed::one()
        } else {
            Fixed::one().div(ratio)
        }
    };
    Viewport { width: Fixed::one(), height, distance: Fixed::one() }
}

impl FromToml for RayTracer {
    /// The root table: a required `canvas` and `camera`; an optional
    /// `viewport` (defaulting to the canvas's aspect ratio), `background`
    /// (black), `spheres` and `lights` (empty) and `recursion` depth
    /// (three).
    open spec fn spec_ok(v: Value, rt: RayTracer) -> bool {
        match v {
            Value::Table(t) => {
                &&& spec_get_ok::<Canvas>(t@, "canvas"@, rt.canvas)
                &&& spec_get_ok::<Camera>(t@, "camera"@, rt.camera)
                &&& match spec_table_get(t@, "viewport"@) {
                    None => rt.viewport == spec_default_viewport(rt.canvas),
                    Some(vv) => Viewport::spec_ok(vv, rt.viewport),
                }
                &&& match spec_table_get(t@, "background"@) {
                    None => rt.background == (Color { r: 0, g: 0, b: 0 }),
                    Some(bv) => Color::spec_ok(bv, rt.background),
                }
                &&& match spec_table_get(t@, "spheres"@) {
                    None => rt.spheres@ == Seq::<Sphere>::empty(),
                    Some(sv) => <Vec<Sphere> as FromToml>::spec_ok(sv, rt.spheres),
                }
                &&& match spec_table_get(t@, "lights"@) {
                    None => rt.lights@ == Seq::<Light>::empty(),
                    Some(lv) => <Vec<Light> as FromToml>::spec_ok(lv, rt.lights),
                }
                &&& match spec_table_get(t@, "recursion"@) {
                    None => rt.recursion_depth == 3,
                    Some(rv) => u32::spec_ok(rv, rt.recursion_depth),
                }
            },
            _ => false,
        }
    }

    open spec fn spec_parses(v: Value) -> bool {
        match v {
            Value::Table(t) => {
                &&& spec_get_parses::<Canvas>(t@, "canvas"@)
                &&& spec_get_parses::<Camera>(t@, "camera"@)
                &&& spec_opt_parses::<Viewport>(t@, "viewport"@)
                &&& spec_opt_parses::<Color>(t@, "background"@)
                &&& spec_opt_parses::<Vec<Sphere>>(t@, "spheres"@)
                &&& spec_opt_parses::<Vec<Light>>(t@, "lights"@)
                &&& spec_opt_parses::<u32>(t@, "recursion"@)
            },
            _ => false,
        }
    }

    open spec fn spec_err_cause(v: Value) -> CauseV {
        match v {
            Value::Table(t) => if !spec_get_parses::<Canvas>(t@, "canvas"@) {
                spec_get_err_cause::<Canvas>(t@, "canvas"@)
            } else if !spec_get_parses::<Camera>(t@, "camera"@) {
                spec_get_err_cause::<Camera>(t@, "camera"@)
            } else if !spec_opt_parses::<Viewport>(t@, "viewport"@) {
                spec_get_err_cause::<Viewport>(t@, "viewport"@)
            } else if !spec_opt_parses::<Color>(t@, "background"@) {
                spec_get_err_cause::<Color>(t@, "background"@)
            } else if !spec_opt_parses::<Vec<Sphere>>(t@, "spheres"@) {
                spec_get_err_cause::<Vec<Sphere>>(t@, "spheres"@)
            } else if !spec_opt_parses::<Vec<Light>>(t@, "lights"@) {
                spec_get_err_cause::<Vec<Light>>(t@, "lights"@)
            } else {
                spec_get_err_cause::<u32>(t@, "recursion"@)
            },
            _ => CauseV::ExpectedTableV,
        }
    }

    open spec fn spec_err_path(v: Value) -> Seq<StepV> {
        match v {
            Value::Table(t) => if !spec_get_parses::<Canvas>(t@, "canvas"@) {
                spec_get_err_path::<Canvas>(t@, "canvas"@)
            } else if !spec_get_parses::<Camera>(t@, "camera"@) {
                spec_get_err_path::<Camera>(t@, "camera"@)
            } else if !spec_opt_parses::<Viewport>(t@, "viewport"@) {
                spec_get_err_path::<Viewport>(t@, "viewport"@)
            } else if !spec_opt_parses::<Color>(t@, "background"@) {
                spec_get_err_path::<Color>(t@, "background"@)
            } else if !spec_opt_parses::<Vec<Sphere>>(t@, "spheres"@) {
                spec_get_err_path::<Vec<Sphere>>(t@, "spheres"@)
            } else if !spec_opt_parses::<Vec<Light>>(t@, "lights"@) {
                spec_get_err_path::<Vec<Light>>(t@, "lights"@)
            } else {
                spec_get_err_path::<u32>(t@, "recursion"@)
            },
            _ => Seq::empty(),
        }
    }

    fn from_toml(toml: &Value) -> (r: Result<RayTracer, TomlError>) {
        proof {
            lemma_path_view_empty();
        }
        match toml {
            Value::Table(t) => {
                match table_get::<Canvas>(t, "canvas") {
                    Err(e) => Err(e),
                    Ok(canvas) => match table_get::<Camera>(t, "camera") {
                        Err(e) => Err(e),
                        Ok(camera) => {
                            let derived = default_viewport(&canvas);
                            match table_get_default::<Viewport>(t, "viewport", derived) {
                                Err(e) => Err(e),
                                Ok(viewport) => match table_get_default::<Color>(
                                    t,
                                    "background",
                                    color(0, 0, 0),
                                ) {
                                    Err(e) => Err(e),
                                    Ok(background) => match table_get_default::<Vec<Sphere>>(
                                        t,
                                        "spheres",
                                        Vec::new(),
                                    ) {
                                        Err(e) => Err(e),
                                        Ok(spheres) => match table_get_default::<Vec<Light>>(
                                            t,
                                            "lights",
                                            Vec::new(),
                                        ) {
                                            Err(e) => Err(e),
                                            Ok(lights) => match table_get_default::<u32>(
                                                t,
                                                "recursion",
                                                3,
                                            ) {
                                                Err(e) => Err(e),
                                                Ok(recursion_depth) => Ok(
                                                    RayTracer {
                                                        canvas,
                                                        camera,
                                                        viewport,
                                                        background,
                                                        spheres,
                                                        lights,
                                                        recursion_depth,
                                                    },
                                                ),
                                            },
                                        },
                                    },
                                },
                            }
                        },
                    },
                }
            },
            _ => Err(TomlError { cause: ErrCause::ExpectedTable, path: Vec::new() }),
        }
    }
}

} // verus!

verus! {

impl FromToml for [i64; 5] {
    /// An array of exactly five whole numbers.
    open spec fn spec_ok(v: Value, x: [i64; 5]) -> bool {
        match v {
            Value::Array(a) => a@.len() == 5 && forall|i: int|
                0 <= i < 5 ==> #[trigger] i64::spec_ok(a@[i], x@[i]),
            _ => false,
        }
    }

    open spec fn spec_parses(v: Value) -> bool {
        match v {
            Value::Array(a) => a@.len() == 5 && forall|i: int|
                0 <= i < 5 ==> #[trigger] i64::spec_parses(a@[i]),
            _ => false,
        }
    }

    open spec fn spec_err_cause(v: Value) -> CauseV {
        match v {
            Value::Array(a) => if a@.len() != 5 {
                CauseV::WrongArrayLengthV(5)
            } else {
                i64::spec_err_cause(a@[spec_first_bad::<i64>(a@, 0)])
            },
            _ => CauseV::WrongArrayLengthV(5),
        }
    }

    open spec fn spec_err_path(v: Value) -> Seq<StepV> {
        match v {
            Value::Array(a) => if a@.len() != 5 {
                Seq::empty()
            } else {
                i64::spec_err_path(a@[spec_first_bad::<i64>(a@, 0)]).push(
                    StepV::IndexV(spec_first_bad::<i64>(a@, 0)),
                ).push(StepV::DefinitionV(DefKind::ArrayDef))
            },
            _ => Seq::empty(),
        }
    }

    fn from_toml(toml: &Value) -> (r: Result<[i64; 5], TomlError>) {
        proof {
            lemma_path_view_empty();
        }
        match toml {
            Value::Array(a) => {
                if a.len() != 5 {
                    Err(TomlError { cause: ErrCause::WrongArrayLength(5), path: Vec::new() })
                } else {
                    match parse_elems::<i64>(a) {
                        Err(e) => Err(e),
                        Ok(xs) => Ok([xs[0], xs[1], xs[2], xs[3], xs[4]]),
                    }
                }
            },
            _ => Err(TomlError { cause: ErrCause::WrongArrayLength(5), path: Vec::new() }),
        }
    }
}

} // verus!

verus! {

impl FromToml for [u32; 5] {
    /// An array of an exact count of whole numbers.
    open spec fn spec_ok(v: Value, x: [u32; 5]) -> bool {
        match v {
            Value::Array(a) => a@.len() == 5 && forall|i: int|
                0 <= i < 5 ==> #[trigger] u32::spec_ok(a@[i], x@[i]),
            _ => false,
        }
    }

    open spec fn spec_parses(v: Value) -> bool {
        match v {
            Value::Array(a) => a@.len() == 5 && forall|i: int|
                0 <= i < 5 ==> #[trigger] u32::spec_parses(a@[i]),
            _ => false,
        }
    }

    open spec fn spec_err_cause(v: Value) -> CauseV {
        match v {
            Value::Array(a) => if a@.len() != 5 {
                CauseV::WrongArrayLengthV(5)
            } else {
                u32::spec_err_cause(a@[spec_first_bad::<u32>(a@, 0)])
            },
            _ => CauseV::WrongArrayLengthV(5),
        }
    }

    open spec fn spec_err_path(v: Value) -> Seq<StepV> {
        match v {
            Value::Array(a) => if a@.len() != 5 {
                Seq::empty()
            } else {
                u32::spec_err_path(a@[spec_first_bad::<u32>(a@, 0)]).push(
                    StepV::IndexV(spec_first_bad::<u32>(a@, 0)),
                ).push(StepV::DefinitionV(DefKind::ArrayDef))
            },
            _ => Seq::empty(),
        }
    }

    fn from_toml(toml: &Value) -> (r: Result<[u32; 5], TomlError>) {
        proof {
            lemma_path_view_empty();
        }
        match toml {
            Value::Array(a) => {
                if a.len() != 5 {
                    Err(TomlError { cause: ErrCause::WrongArrayLength(5), path: Vec::new() })
                } else {
                    match parse_elems::<u32>(a) {
                        Err(e) => Err(e),
                        Ok(xs) => Ok([xs[0], xs[1], xs[2], xs[3], xs[4]]),
                    }
                }
            },
            _ => Err(TomlError { cause: ErrCause::WrongArrayLength(5), path: Vec::new() }),
        }
    }
}


impl FromToml for [u32; 3] {
    /// An array of an exact count of whole numbers.
    open spec fn spec_ok(v: Value, x: [u32; 3]) -> bool {
        match v {
            Value::Array(a) => a@.len() == 3 && forall|i: int|
                0 <= i < 3 ==> #[trigger] u32::spec_ok(a@[i], x@[i]),
            _ => false,
        }
    }

    open spec fn spec_parses(v: Value) -> bool {
        match v {
            Value::Array(a) => a@.len() == 3 && forall|i: int|
                0 <= i < 3 ==> #[trigger] u32::spec_parses(a@[i]),
            _ => false,
        }
    }

    open spec fn spec_err_cause(v: Value) -> CauseV {
        match v {
            Value::Array(a) => if a@.len() != 3 {
                CauseV::WrongArrayLengthV(3)
            } else {
                u32::spec_err_cause(a@[spec_first_bad::<u32>(a@, 0)])
            },
            _ => CauseV::WrongArrayLengthV(3),
        }
    }

    open spec fn spec_err_path(v: Value) -> Seq<StepV> {
        match v {
            Value::Array(a) => if a@.len() != 3 {
                Seq::empty()
            } else {
                u32::spec_err_path(a@[spec_first_bad::<u32>(a@, 0)]).push(
                    StepV::IndexV(spec_first_bad::<u32>(a@, 0)),
                ).push(StepV::DefinitionV(DefKind::ArrayDef))
            },
            _ => Seq::empty(),
        }
    }

    fn from_toml(toml: &Value) -> (r: Result<[u32; 3], TomlError>) {
        proof {
            lemma_path_view_empty();
        }
        match toml {
            Value::Array(a) => {
                if a.len() != 3 {
                    Err(TomlError { cause: ErrCause::WrongArrayLength(3), path: Vec::new() })
                } else {
                    match parse_elems::<u32>(a) {
                        Err(e) => Err(e),
                        Ok(xs) => Ok([xs[0], xs[1], xs[2]]),
                    }
                }
            },
            _ => Err(TomlError { cause: ErrCause::WrongArrayLength(3), path: Vec::new() }),
        }
    }
}

} // verus!
