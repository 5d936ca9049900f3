//! Fixed-point scalar arithmetic.
//!
//! Every real-valued quantity of the renderer (coordinates, radii, light
//! intensities, reflectivities) is a `Fixed`: an `i64` raw value denoting
//! `raw / SCALE`. All operations saturate into `[-RAW_MAX, RAW_MAX]` and
//! truncate toward zero, so rendering never overflows or panics.

use vstd::prelude::*;

verus! {

/// A scalar denotes `raw / SCALE`.
pub const SCALE: i64 = 65536;

/// Largest representable raw value (`i64::MAX`).
pub const RAW_MAX: i64 = 9223372036854775807;

/// Smallest representable raw value; the range is kept symmetric so that
/// negation never overflows.
pub const RAW_MIN: i64 = -9223372036854775807;

/// Absolute value.
pub open spec fn absi(x: int) -> int {
    if x >= 0 {
        x
    } else {
        -x
    }
}

/// Saturate a mathematical result into the representable raw range.
pub open spec fn clip(x: int) -> int {
    if x > RAW_MAX as int {
        RAW_MAX as int
    } else if x < RAW_MIN as int {
        RAW_MIN as int
    } else {
        x
    }
}

/// Division truncating toward zero: the semantics of Rust's `/` on signed
/// integers (spec-mode `/` alone is Euclidean).
pub open spec fn tdiv(a: int, b: int) -> int {
    if (a >= 0) == (b >= 0) {
        absi(a) / absi(b)
    } else {
        -(absi(a) / absi(b))
    }
}

/// Raw-value semantics of saturating addition.
pub open spec fn fx_add(a: int, b: int) -> int {
    clip(a + b)
}

/// Raw-value semantics of saturating subtraction.
pub open spec fn fx_sub(a: int, b: int) -> int {
    clip(a - b)
}

/// Raw-value semantics of saturating negation.
pub open spec fn fx_neg(a: int) -> int {
    clip(-a)
}

/// Raw-value semantics of the product: exact product rescaled, truncated
/// toward zero, then saturated.
pub open spec fn fx_mul(a: int, b: int) -> int {
    clip(tdiv(a * b, SCALE as int))
}

/// Raw-value semantics of the quotient (`b != 0`): exact quotient rescaled,
/// truncated toward zero, then saturated.
pub open spec fn fx_div(a: int, b: int) -> int {
    clip(tdiv(a * SCALE, b))
}

/// `r` is the integer square root of `n`.
pub open spec fn is_isqrt(n: int, r: int) -> bool {
    0 <= r && r * r <= n && n < (r + 1) * (r + 1)
}

/// The integer square root (meaningful for `n >= 0`).
pub closed spec fn isqrt(n: int) -> int {
    choose|r: int| #[trigger] is_isqrt(n, r)
}

/// Raw-value semantics of the square root: non-positive inputs give zero.
pub open spec fn fx_sqrt(a: int) -> int {
    if a <= 0 {
        0
    } else {
        isqrt(a * SCALE)
    }
}

proof fn lemma_isqrt_exists(n: int)
    requires
        n >= 0,
    ensures
        exists|r: int| #[trigger] is_isqrt(n, r),
    decreases n,
{
    if n == 0 {
        assert(is_isqrt(0, 0));
    } else {
        lemma_isqrt_exists(n - 1);
        let r = choose|r: int| #[trigger] is_isqrt(n - 1, r);
        if (r + 1) * (r + 1) <= n {
            assert(n < (r + 2) * (r + 2)) by (nonlinear_arith)
                requires
                    n - 1 < (r + 1) * (r + 1),
                    (r + 1) * (r + 1) <= n,
                    0 <= r,
            ;
            assert(is_isqrt(n, r + 1));
        } else {
            assert(is_isqrt(n, r));
        }
    }
}

pub proof fn lemma_isqrt_unique(n: int, r1: int, r2: int)
    requires
        is_isqrt(n, r1),
        is_isqrt(n, r2),
    ensures
        r1 == r2,
{
    if r1 < r2 {
        assert((r1 + 1) * (r1 + 1) <= r2 * r2) by (nonlinear_arith)
            requires
                0 <= r1 < r2,
        ;
    }
    if r2 < r1 {
        assert((r2 + 1) * (r2 + 1) <= r1 * r1) by (nonlinear_arith)
            requires
                0 <= r2 < r1,
        ;
    }
}

/// A product is bounded by the product of the factors' bounds.
pub proof fn lemma_mul_bound(a: int, b: int, m: int, n: int)
    requires
        absi(a) <= m,
        absi(b) <= n,
    ensures
        absi(a * b) <= m * n,
{
    assert(absi(a * b) <= m * n) by (nonlinear_arith)
        requires
            absi(a) <= m,
            absi(b) <= n,
    ;
}

/// The defining property of `isqrt`.
pub proof fn lemma_isqrt(n: int)
    requires
        n >= 0,
    ensures
        is_isqrt(n, isqrt(n)),
{
    lemma_isqrt_exists(n);
}

/// A saturating, truncating fixed-point scalar.
#[derive(Clone, Copy, PartialEq, Eq, Structural, Debug)]
pub struct Fixed {
    pub raw: i64,
}

/// Saturate an exact `i128` result into the raw range.
fn clamp_raw(x: i128) -> (r: i64)
    ensures
        r as int == clip(x as int),
{
    if x > RAW_MAX as i128 {
        RAW_MAX
    } else if x < RAW_MIN as i128 {
        RAW_MIN
    } else {
        x as i64
    }
}

/// Truncating division on `i128`, computed on unsigned magnitudes.
fn tdiv_i128(a: i128, b: i128) -> (r: i128)
    requires
        b != 0,
        a > i128::MIN,
        b > i128::MIN,
    ensures
        r as int == tdiv(a as int, b as int),
{
    let na: u128 = if a >= 0 {
        a as u128
    } else {
        (-a) as u128
    };
    let da: u128 = if b >= 0 {
        b as u128
    } else {
        (-b) as u128
    };
    let q: u128 = na / da;
    proof {
        assert(q <= na) by (nonlinear_arith)
            requires
                da >= 1,
                q == na / da,
        ;
    }
    if (a >= 0) == (b >= 0) {
        q as i128
    } else {
        -(q as i128)
    }
}

impl Fixed {
    pub fn zero() -> (r: Fixed)
        ensures
            r.raw == 0,
    {
        Fixed { raw: 0 }
    }

    pub fn one() -> (r: Fixed)
        ensures
            r.raw == SCALE,
    {
        Fixed { raw: SCALE }
    }

    pub fn from_raw(raw: i64) -> (r: Fixed)
        ensures
            r.raw == raw,
    {
        Fixed { raw }
    }

    /// The scalar equal to the whole number `i` (saturated).
    pub fn from_int(i: i64) -> (r: Fixed)
        ensures
            r.raw as int == clip(i * SCALE),
    {
        proof {
            lemma_mul_bound(i as int, SCALE as int, 0x8000000000000000, 0x10000);
        }
        Fixed { raw: clamp_raw(i as i128 * SCALE as i128) }
    }

    /// The scalar `num / den`, truncated toward zero.
    pub fn from_ratio(num: i64, den: i64) -> (r: Fixed)
        requires
            den != 0,
        ensures
            r.raw as int == clip(tdiv(num * SCALE, den as int)),
    {
        proof {
            lemma_mul_bound(num as int, SCALE as int, 0x8000000000000000, 0x10000);
        }
        let n: i128 = num as i128 * SCALE as i128;
        Fixed { raw: clamp_raw(tdiv_i128(n, den as i128)) }
    }

    pub fn add(self, o: Fixed) -> (r: Fixed)
        ensures
            r.raw as int == fx_add(self.raw as int, o.raw as int),
    {
        Fixed { raw: clamp_raw(self.raw as i128 + o.raw as i128) }
    }

    pub fn sub(self, o: Fixed) -> (r: Fixed)
        ensures
            r.raw as int == fx_sub(self.raw as int, o.raw as int),
    {
        Fixed { raw: clamp_raw(self.raw as i128 - o.raw as i128) }
    }

    pub fn neg(self) -> (r: Fixed)
        ensures
            r.raw as int == fx_neg(self.raw as int),
    {
        Fixed { raw: clamp_raw(-(self.raw as i128)) }
    }

    pub fn mul(self, o: Fixed) -> (r: Fixed)
        ensures
            r.raw as int == fx_mul(self.raw as int, o.raw as int),
    {
        proof {
            lemma_mul_bound(
                self.raw as int,
                o.raw as int,
                0x8000000000000000,
                0x8000000000000000,
            );
        }
        let p: i128 = self.raw as i128 * o.raw as i128;
        Fixed { raw: clamp_raw(tdiv_i128(p, SCALE as i128)) }
    }

    pub fn div(self, o: Fixed) -> (r: Fixed)
        requires
            o.raw != 0,
        ensures
            r.raw as int == fx_div(self.raw as int, o.raw as int),
    {
        proof {
            lemma_mul_bound(self.raw as int, SCALE as int, 0x8000000000000000, 0x10000);
        }
        let n: i128 = self.raw as i128 * SCALE as i128;
        Fixed { raw: clamp_raw(tdiv_i128(n, o.raw as i128)) }
    }

    /// Division by a whole number, truncated toward zero.
    pub fn div_int(self, k: i64) -> (r: Fixed)
        requires
            k != 0,
        ensures
            r.raw as int == clip(tdiv(self.raw as int, k as int)),
    {
        Fixed { raw: clamp_raw(tdiv_i128(self.raw as i128, k as i128)) }
    }

    /// Whole part, truncated toward zero.
    pub fn trunc(self) -> (r: i64)
        ensures
            r as int == tdiv(self.raw as int, SCALE as int),
    {
        let q: i128 = tdiv_i128(self.raw as i128, SCALE as i128);
        proof {
            assert(absi(self.raw as int) / (SCALE as int) <= absi(self.raw as int)) by (nonlinear_arith)
                requires
                    SCALE as int >= 1,
            ;
        }
        q as i64
    }

    pub fn sqrt(self) -> (r: Fixed)
        ensures
            r.raw as int == fx_sqrt(self.raw as int),
            r.raw >= 0,
    {
        if self.raw <= 0 {
            Fixed { raw: 0 }
        } else {
            let n: u128 = self.raw as u128 * SCALE as u128;
            proof {
                assert((self.raw as int) * (SCALE as int) < 0x100000000000000000000) by (nonlinear_arith)
                    requires
                        0 < self.raw,
                        (self.raw as int) < 0x8000000000000000,
                        SCALE as int == 0x10000,
                ;
            }
            let root = isqrt_u128(n);
            proof {
                lemma_isqrt(n as int);
                lemma_isqrt_unique(n as int, root as int, isqrt(n as int));
                assert(root < 0x10000000000) by (nonlinear_arith)
                    requires
                        root as int * root as int <= n as int,
                        (n as int) < 0x100000000000000000000,
                        root >= 0,
                ;
            }
            Fixed { raw: root as i64 }
        }
    }
}

/// Integer square root by bisection.
fn isqrt_u128(n: u128) -> (r: u128)
    ensures
        is_isqrt(n as int, r as int),
{
    let mut lo: u128 = 0;
    let mut hi: u128 = if n < 0xffffffffffffffff {
        proof {
            assert((n + 1) * (n + 1) > n) by (nonlinear_arith)
                requires
                    n >= 0,
            ;
        }
        n + 1
    } else {
        proof {
            assert(0x10000000000000000 * 0x10000000000000000 > u128::MAX as int);
        }
        0x10000000000000000
    };
    while lo + 1 < hi
        invariant
            lo < hi,
            hi <= 0x10000000000000000,
            lo as int * lo as int <= n as int,
            (n as int) < hi as int * hi as int,
        decreases hi - lo,
    {
        let mid: u128 = lo + (hi - lo) / 2;
        proof {
            assert(lo < mid && mid < hi);
            assert(mid as int * mid as int <= u128::MAX as int) by (nonlinear_arith)
                requires
                    mid < 0x10000000000000000,
        ;
        }
        if mid * mid <= n {
            lo = mid;
        } else {
            hi = mid;
        }
    }
    lo
}

} // verus!
