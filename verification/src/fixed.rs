//! Fixed-point arithmetic on `i64` values that count millionths.
//!
//! Intermediate results are exact; a final result that does not fit an
//! `i64` saturates at the nearest limit.
use vstd::prelude::*;
use vstd::arithmetic::div_mod::lemma_fundamental_div_mod;
use vstd::arithmetic::div_mod::lemma_mod_bound;

verus! {

/// The fixed-point representation of `1.0`.
pub const UNIT: i64 = 1_000_000;

/// `v` clamped to the range of `i64`.
pub open spec fn saturate(v: int) -> int {
    if v < i64::MIN {
        i64::MIN as int
    } else if v > i64::MAX {
        i64::MAX as int
    } else {
        v
    }
}

/// `v` as an `i64`, saturating.
pub open spec fn sat64(v: int) -> i64 {
    saturate(v) as i64
}

/// `v` clamped to `[lo, hi]`; `lo` wins where the range is empty.
pub open spec fn clamp(v: int, lo: int, hi: int) -> int {
    if v < lo || hi < lo {
        lo
    } else if v > hi {
        hi
    } else {
        v
    }
}

/// The magnitude of `v`.
pub open spec fn magnitude(v: int) -> int {
    if v < 0 {
        -v
    } else {
        v
    }
}

/// `v` rounded to the nearest whole number of units, halves upwards.
pub open spec fn round_units(v: int) -> int {
    (v + UNIT / 2) / (UNIT as int)
}

/// Floor division is the unique quotient whose remainder lies in `[0, d)`.
pub proof fn lemma_floor_bounds(x: int, d: int)
    requires
        d > 0,
    ensures
        d * (x / d) <= x < d * (x / d) + d,
{
    lemma_fundamental_div_mod(x, d);
    lemma_mod_bound(x, d);
}

/// A quotient bracketed like a floor is the floor.
pub proof fn lemma_floor_unique(x: int, d: int, q: int)
    requires
        d > 0,
        d * q <= x < d * q + d,
    ensures
        x / d == q,
{
    lemma_floor_bounds(x, d);
    let f = x / d;
    assert(f == q) by (nonlinear_arith)
        requires
            d > 0,
            d * q <= x < d * q + d,
            d * f <= x < d * f + d,
    ;
}

/// Floor division by a positive divisor is monotonic.
pub proof fn lemma_floor_monotonic(x: int, y: int, d: int)
    requires
        d > 0,
        x <= y,
    ensures
        x / d <= y / d,
{
    lemma_floor_bounds(x, d);
    lemma_floor_bounds(y, d);
    let a = x / d;
    let b = y / d;
    assert(a <= b) by (nonlinear_arith)
        requires
            d > 0,
            x <= y,
            d * a <= x,
            y < d * b + d,
    ;
}

/// A product of two bounded factors is bounded by the product of the bounds.
pub proof fn lemma_product_bound(a: int, b: int, m: int, n: int)
    requires
        -m <= a <= m,
        -n <= b <= n,
    ensures
        -(m * n) <= a * b <= m * n,
{
    assert(-(m * n) <= a * b <= m * n) by (nonlinear_arith)
        requires
            -m <= a <= m,
            -n <= b <= n,
    ;
}

/// A floor quotient by a positive divisor lies between zero and the dividend.
pub proof fn lemma_floor_magnitude(x: int, d: int)
    requires
        d > 0,
    ensures
        x >= 0 ==> 0 <= x / d <= x,
        x < 0 ==> x <= x / d < 0,
{
    lemma_floor_bounds(x, d);
    let q = x / d;
    assert(x >= 0 ==> 0 <= q <= x) by (nonlinear_arith)
        requires
            d > 0,
            d * q <= x < d * q + d,
    ;
    assert(x < 0 ==> x <= q < 0) by (nonlinear_arith)
        requires
            d > 0,
            d * q <= x < d * q + d,
    ;
}

/// An `i128` narrowed to `i64`, saturating.
pub fn narrow(v: i128) -> (r: i64)
    ensures
        r == saturate(v as int),
        r == sat64(v as int),
{
    if v < i64::MIN as i128 {
        i64::MIN
    } else if v > i64::MAX as i128 {
        i64::MAX
    } else {
        v as i64
    }
}

/// `a + b`, saturating.
pub fn sat_add(a: i64, b: i64) -> (r: i64)
    ensures
        r == saturate(a + b),
{
    narrow(a as i128 + b as i128)
}

/// `a - b`, saturating.
pub fn sat_sub(a: i64, b: i64) -> (r: i64)
    ensures
        r == saturate(a - b),
{
    narrow(a as i128 - b as i128)
}

/// The floor of `a / d` for a positive divisor.
pub fn floor_div(a: i128, d: i128) -> (q: i128)
    requires
        d > 0,
    ensures
        q == (a as int) / (d as int),
{
    proof {
        lemma_floor_magnitude(a as int, d as int);
    }
    match a.checked_div_euclid(d) {
        Some(q) => q,
        None => 0,
    }
}

/// `v` clamped to `[lo, hi]`; `lo` wins where the range is empty.
pub fn clamp_to(v: i128, lo: i64, hi: i64) -> (r: i64)
    ensures
        r == clamp(v as int, lo as int, hi as int),
{
    if v < lo as i128 || hi < lo {
        lo
    } else if v > hi as i128 {
        hi
    } else {
        v as i64
    }
}

/// The bound at which [`scale_floor`] stops counting: far beyond any `i64`.
pub const FAR: i128 = 0x1_0000_0000_0000_0000_0000_0000;

/// The floor of `a * b / d` for a positive divisor, clamped to `[-FAR, FAR]`.
/// Each factor is a difference of two `i64` values.
pub fn scale_floor(a: i128, b: i128, d: i128) -> (r: i128)
    requires
        -0x1_0000_0000_0000_0000 < a < 0x1_0000_0000_0000_0000,
        -0x1_0000_0000_0000_0000 < b < 0x1_0000_0000_0000_0000,
        0 < d,
    ensures
        r == clamp((a * b) / (d as int), -FAR as int, FAR as int),
{
    let ma: u128 = if a < 0 {
        (-a) as u128
    } else {
        a as u128
    };
    let mb: u128 = if b < 0 {
        (-b) as u128
    } else {
        b as u128
    };
    proof {
        lemma_product_bound(ma as int, mb as int, 0xffff_ffff_ffff_ffff, 0xffff_ffff_ffff_ffff);
        assert(0xffff_ffff_ffff_ffffint * 0xffff_ffff_ffff_ffffint
            == 0xffff_ffff_ffff_fffe_0000_0000_0000_0001int);
        assert(ma * mb >= 0) by (nonlinear_arith)
            requires
                ma >= 0,
                mb >= 0,
        ;
    }
    let m: u128 = ma * mb;
    let dd: u128 = d as u128;
    let q: u128 = m / dd;
    let rem: u128 = m % dd;
    let negative: bool = (a < 0) != (b < 0);
    proof {
        lemma_fundamental_div_mod(m as int, d as int);
        lemma_mod_bound(m as int, d as int);
        lemma_floor_magnitude(m as int, d as int);
        let fa = a as int;
        let fb = b as int;
        let size_a = ma as int;
        let size_b = mb as int;
        let fd = d as int;
        let fq = q as int;
        let p = fa * fb;
        if negative {
            assert(fa * fb == -(size_a * size_b)) by (nonlinear_arith)
                requires
                    (size_a == -fa && size_b == fb) || (size_b == -fb && size_a == fa),
            ;
            if rem == 0 {
                assert(fd * (-fq) == -(fd * fq)) by (nonlinear_arith);
                lemma_floor_unique(p, fd, -fq);
            } else {
                assert(fd * (-fq - 1) == -(fd * fq) - fd) by (nonlinear_arith);
                lemma_floor_unique(p, fd, -fq - 1);
            }
        } else {
            assert(fa * fb == size_a * size_b) by (nonlinear_arith)
                requires
                    (size_a == -fa && size_b == -fb) || (size_a == fa && size_b == fb),
            ;
        }
    }
    if q >= FAR as u128 {
        if negative {
            -FAR
        } else {
            FAR
        }
    } else if negative {
        if rem == 0 {
            -(q as i128)
        } else {
            -(q as i128) - 1
        }
    } else {
        q as i128
    }
}

} // verus!
