//! Fixed-point arithmetic in micro-units.
//!
//! A fixed-point value stores `v * SCALE` as an `i64`, so `1.0` is
//! `1_000_000`. Multiplication of two fixed-point values divides the wide
//! product by `SCALE`, rounding toward negative infinity.

use vstd::prelude::*;

verus! {

use vstd::arithmetic::div_mod::{
    lemma_div_is_ordered, lemma_div_multiples_vanish, lemma_div_multiples_vanish_fancy,
    lemma_div_nonincreasing,
    lemma_div_pos_is_pos, lemma_fundamental_div_mod, lemma_fundamental_div_mod_converse_div,
    lemma_mod_bound,
};
use vstd::arithmetic::mul::{lemma_mul_inequality, lemma_mul_nonnegative};

/// Fixed-point scale: the real number 1.0 is stored as `SCALE`.
pub const SCALE: i64 = 1_000_000;

/// Product of two fixed-point values, as exact mathematical result of the
/// implementation: the wide product divided by `SCALE`, rounding down.
pub open spec fn fix_mul(a: int, b: int) -> int {
    (a * b) / (SCALE as int)
}

/// Rounding up `na / b` equals the negation of rounding `-na / b` down,
/// and stays bounded by `na`.
proof fn lemma_neg_div_ceil(na: int, b: int)
    requires
        0 < na,
        0 < b,
    ensures
        (na + b - 1) / b == -((-na) / b),
        (na + b - 1) / b <= na,
{
    let q0 = na / b;
    let r0 = na % b;
    lemma_fundamental_div_mod(na, b);
    lemma_mod_bound(na, b);
    assert(na == b * q0 + r0);
    if r0 == 0 {
        assert(na + b - 1 == q0 * b + (b - 1)) by (nonlinear_arith)
            requires
                na == b * q0 + r0,
                r0 == 0,
        ;
        lemma_fundamental_div_mod_converse_div(na + b - 1, b, q0, b - 1);
        assert(-na == (-q0) * b + 0) by (nonlinear_arith)
            requires
                na == b * q0 + r0,
                r0 == 0,
        ;
        lemma_fundamental_div_mod_converse_div(-na, b, -q0, 0);
    } else {
        assert(na + b - 1 == (q0 + 1) * b + (r0 - 1)) by (nonlinear_arith)
            requires
                na == b * q0 + r0,
        ;
        lemma_fundamental_div_mod_converse_div(na + b - 1, b, q0 + 1, r0 - 1);
        assert(-na == (-(q0 + 1)) * b + (b - r0)) by (nonlinear_arith)
            requires
                na == b * q0 + r0,
        ;
        lemma_fundamental_div_mod_converse_div(-na, b, -(q0 + 1), b - r0);
    }
    assert((na + b - 1) / b <= na) by {
        lemma_mul_nonnegative(na, b - 1);
        assert(na + b - 1 <= b * na + (b - 1)) by (nonlinear_arith)
            requires
                0 < na,
                0 < b,
        ;
        lemma_div_is_ordered(na + b - 1, b * na + (b - 1), b);
        lemma_div_multiples_vanish_fancy(na, b - 1, b);
    }
}

/// Division rounding toward negative infinity (the value of `/` on `int`
/// for a positive divisor).
pub fn div_floor(a: i64, b: i64) -> (q: i64)
    requires
        0 < b,
        i64::MIN < a,
    ensures
        q as int == a as int / b as int,
{
    if a >= 0 {
        proof {
            lemma_div_nonincreasing(a as int, b as int);
            lemma_div_pos_is_pos(a as int, b as int);
        }
        ((a as u64) / (b as u64)) as i64
    } else {
        let na: u64 = (-a) as u64;
        let bu: u64 = b as u64;
        proof {
            lemma_neg_div_ceil(na as int, bu as int);
        }
        let d: u64 = (na + (bu - 1)) / bu;
        -(d as i64)
    }
}

/// A fixed-point product with a factor of magnitude at most one
/// (`|a| <= SCALE`) cannot exceed the other, nonnegative factor in
/// magnitude.
pub proof fn lemma_fix_mul_unit_bound(a: int, b: int)
    requires
        -(SCALE as int) <= a <= SCALE as int,
        0 <= b,
    ensures
        -b <= fix_mul(a, b) <= b,
{
    let s = SCALE as int;
    lemma_mul_inequality(a, s, b);
    lemma_mul_inequality(-s, a, b);
    lemma_div_multiples_vanish(b, s);
    lemma_div_multiples_vanish(-b, s);
    assert(s * b == b * s);
    assert((-s) * b == s * (-b)) by (nonlinear_arith);
    lemma_div_is_ordered(a * b, s * b, s);
    lemma_div_is_ordered(s * (-b), a * b, s);
}

/// A fixed-point product of a nonnegative value with a fraction at most
/// one (`0 <= b <= SCALE`) keeps the sign and cannot grow.
pub proof fn lemma_fix_mul_fraction_bound(a: int, b: int)
    requires
        0 <= a,
        0 <= b <= SCALE as int,
    ensures
        0 <= fix_mul(a, b) <= a,
{
    let s = SCALE as int;
    lemma_mul_nonnegative(a, b);
    lemma_div_pos_is_pos(a * b, s);
    lemma_mul_inequality(b, s, a);
    assert(b * a == a * b && s * a == a * s) by (nonlinear_arith);
    lemma_div_is_ordered(a * b, s * a, s);
    lemma_div_multiples_vanish(a, s);
}

/// A fixed-point product of a nonnegative value with a factor of at most
/// `k` (`0 <= b <= k * SCALE`) grows at most `k`-fold.
pub proof fn lemma_fix_mul_scaled_bound(a: int, b: int, k: int)
    requires
        0 <= a,
        0 <= k,
        0 <= b <= k * (SCALE as int),
    ensures
        0 <= fix_mul(a, b) <= k * a,
{
    let s = SCALE as int;
    lemma_mul_nonnegative(a, b);
    lemma_div_pos_is_pos(a * b, s);
    lemma_mul_inequality(b, k * s, a);
    assert(b * a == a * b && (k * s) * a == s * (k * a)) by (nonlinear_arith);
    lemma_div_is_ordered(a * b, s * (k * a), s);
    lemma_div_multiples_vanish(k * a, s);
}

/// A rate of magnitude at most `c`, integrated over `dt` milliseconds,
/// moves a coordinate by at most `c / 1000` per millisecond.
pub proof fn lemma_step_bound(v: int, dt: int, c: int)
    requires
        -c <= v <= c,
        0 <= dt,
        0 <= c,
        c % 1000 == 0,
    ensures
        -(c / 1000) * dt <= v * dt / 1000 <= (c / 1000) * dt,
{
    let k = c / 1000;
    lemma_fundamental_div_mod(c, 1000);
    lemma_mul_inequality(v, c, dt);
    lemma_mul_inequality(-c, v, dt);
    assert(c * dt == 1000 * (k * dt)) by (nonlinear_arith)
        requires
            c == 1000 * k,
    ;
    assert((-c) * dt == 1000 * (-(k * dt))) by (nonlinear_arith)
        requires
            c == 1000 * k,
    ;
    lemma_div_multiples_vanish(k * dt, 1000);
    lemma_div_multiples_vanish(-(k * dt), 1000);
    lemma_div_is_ordered(v * dt, c * dt, 1000);
    lemma_div_is_ordered((-c) * dt, v * dt, 1000);
    assert(-(k * dt) == (-k) * dt) by (nonlinear_arith);
}

/// Floor division of wide intermediates by a positive divisor.
fn div_floor_wide(a: i128, b: i128) -> (q: i128)
    requires
        0 < b,
        i128::MIN < a,
    ensures
        q as int == a as int / b as int,
        0 <= a ==> 0 <= q <= a,
        a < 0 ==> a <= q <= 0,
{
    if a >= 0 {
        proof {
            lemma_div_nonincreasing(a as int, b as int);
            lemma_div_pos_is_pos(a as int, b as int);
        }
        ((a as u128) / (b as u128)) as i128
    } else {
        let na: u128 = (-a) as u128;
        let bu: u128 = b as u128;
        proof {
            lemma_neg_div_ceil(na as int, bu as int);
        }
        let d: u128 = (na + (bu - 1)) / bu;
        -(d as i128)
    }
}

/// Linearly map `v` from the range `old_start..old_end` to the range
/// `new_start..new_end` (which may be reversed), rounding toward negative
/// infinity.
pub fn map_ranges(v: i64, old_start: i64, old_end: i64, new_start: i64, new_end: i64) -> (r: i64)
    requires
        old_start < old_end,
        -0x4000_0000_0000_0000 <= v - old_start <= 0x4000_0000_0000_0000,
        -0x4000_0000_0000_0000 <= new_end - new_start <= 0x4000_0000_0000_0000,
        i64::MIN <= new_start + (v - old_start) * (new_end - new_start) / (old_end - old_start)
            <= i64::MAX,
    ensures
        r as int == new_start + (v - old_start) * (new_end - new_start) / (old_end - old_start),
{
    let vd: i128 = v as i128 - old_start as i128;
    let nd: i128 = new_end as i128 - new_start as i128;
    proof {
        assert(-0x10000000000000000000000000000000 <= vd * nd
            <= 0x10000000000000000000000000000000) by (nonlinear_arith)
            requires
                -0x4000_0000_0000_0000 <= vd <= 0x4000_0000_0000_0000,
                -0x4000_0000_0000_0000 <= nd <= 0x4000_0000_0000_0000,
        ;
    }
    let num: i128 = vd * nd;
    let den: i128 = old_end as i128 - old_start as i128;
    let q: i128 = div_floor_wide(num, den);
    (new_start as i128 + q) as i64
}

/// Fixed-point multiplication: `a * b / SCALE`, rounding down.
pub fn mul_fixed(a: i64, b: i64) -> (r: i64)
    requires
        i64::MIN < a * b <= i64::MAX,
    ensures
        r as int == fix_mul(a as int, b as int),
{
    let p: i64 = a * b;
    div_floor(p, SCALE)
}

} // verus!
