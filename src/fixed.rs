//! Fixed-point arithmetic on `i64`, with `SCALE` steps to one world unit.
//! Products and quotients round toward zero.

use vstd::prelude::*;

verus! {

/// Fixed-point steps in one world unit.
pub const SCALE: i64 = 1_000_000;

/// The value is representable as an `i64`.
pub open spec fn fits_i64(v: int) -> bool {
    i64::MIN <= v <= i64::MAX
}

/// Division by a positive divisor, rounding toward zero.
pub open spec fn div_trunc(a: int, d: int) -> int {
    if a >= 0 {
        a / d
    } else {
        -((-a) / d)
    }
}

/// Fixed-point product of `a` and `b`.
pub open spec fn fixed_mul(a: int, b: int) -> int {
    div_trunc(a * b, SCALE as int)
}

/// Fixed-point quotient of `a` by a positive `b`.
pub open spec fn fixed_div(a: int, b: int) -> int {
    div_trunc(a * SCALE, b)
}

/// `v` as an `i64`, when it is representable.
pub open spec fn to_i64(v: int) -> Option<i64> {
    if fits_i64(v) {
        Some(v as i64)
    } else {
        None
    }
}

/// Fixed-point product, or `None` when it leaves `i64`.
pub fn checked_mul_fixed(a: i64, b: i64) -> (r: Option<i64>)
    ensures
        r == to_i64(fixed_mul(a as int, b as int)),
{
    proof {
        assert(-0x4000_0000_0000_0000_0000_0000_0000_0000 <= (a as int) * (b as int)
            <= 0x4000_0000_0000_0000_0000_0000_0000_0000) by (nonlinear_arith)
            requires
                i64::MIN <= a <= i64::MAX,
                i64::MIN <= b <= i64::MAX,
        ;
    }
    let p: i128 = (a as i128) * (b as i128);
    let q: i128 = if p >= 0 {
        p / (SCALE as i128)
    } else {
        -((-p) / (SCALE as i128))
    };
    if q < i64::MIN as i128 || q > i64::MAX as i128 {
        None
    } else {
        Some(q as i64)
    }
}

/// Fixed-point quotient by a positive divisor, or `None` when it leaves `i64`.
pub fn checked_div_fixed(a: i64, b: i64) -> (r: Option<i64>)
    requires
        b > 0,
    ensures
        r == to_i64(fixed_div(a as int, b as int)),
{
    proof {
        assert(-0x4000_0000_0000_0000_0000_0000 <= (a as int) * 1_000_000
            <= 0x4000_0000_0000_0000_0000_0000) by (nonlinear_arith)
            requires
                i64::MIN <= a <= i64::MAX,
        ;
    }
    let p: i128 = (a as i128) * (SCALE as i128);
    let q: i128 = if p >= 0 {
        p / (b as i128)
    } else {
        -((-p) / (b as i128))
    };
    if q < i64::MIN as i128 || q > i64::MAX as i128 {
        None
    } else {
        Some(q as i64)
    }
}

/// Sum, or `None` when it leaves `i64`.
pub fn checked_add(a: i64, b: i64) -> (r: Option<i64>)
    ensures
        r == to_i64(a + b),
{
    let s: i128 = a as i128 + b as i128;
    if s < i64::MIN as i128 || s > i64::MAX as i128 {
        None
    } else {
        Some(s as i64)
    }
}

/// Difference, or `None` when it leaves `i64`.
pub fn checked_sub(a: i64, b: i64) -> (r: Option<i64>)
    ensures
        r == to_i64(a - b),
{
    let s: i128 = a as i128 - b as i128;
    if s < i64::MIN as i128 || s > i64::MAX as i128 {
        None
    } else {
        Some(s as i64)
    }
}

} // verus!
