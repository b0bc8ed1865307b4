//! Saturating fixed-point scalars.
//!
//! A real quantity `x` is stored as the 64-bit integer `x * SCALE`, rounded
//! toward zero.  Every operation clamps its result to `[-FMAX, FMAX]`, so all
//! operations are total: no input can make them overflow or panic.

use vstd::prelude::*;

verus! {

/// Number of stored units per real unit: the stored value `v` stands for the
/// real number `v / SCALE`.
pub const SCALE: i64 = 65536;

/// Largest magnitude a stored value may take; results are clamped to
/// `[-FMAX, FMAX]` so that negation is always exact.
pub const FMAX: i64 = 9223372036854775807;

/// Magnitude of an integer.
pub open spec fn mag(x: int) -> int {
    if x < 0 {
        -x
    } else {
        x
    }
}

/// Clamp an integer to the representable range `[-FMAX, FMAX]`.
pub open spec fn sat64(x: int) -> int {
    if x > FMAX as int {
        FMAX as int
    } else if x < -(FMAX as int) {
        -(FMAX as int)
    } else {
        x
    }
}

/// Division truncating toward zero (the quotient of the magnitudes, carrying
/// the sign of the exact quotient); a zero divisor yields zero.
pub open spec fn tdiv(x: int, d: int) -> int {
    if d == 0 {
        0
    } else if (x < 0) == (d < 0) {
        mag(x) / mag(d)
    } else {
        -(mag(x) / mag(d))
    }
}

/// Saturating sum of two stored values.
pub open spec fn add_s(a: int, b: int) -> int {
    sat64(a + b)
}

/// Saturating difference of two stored values.
pub open spec fn sub_s(a: int, b: int) -> int {
    sat64(a - b)
}

/// Saturating negation of a stored value.
pub open spec fn neg_s(a: int) -> int {
    sat64(-a)
}

/// Fixed-point product: the stored results scale as `(a * b) / SCALE`.
pub open spec fn mul_s(a: int, b: int) -> int {
    sat64(tdiv(a * b, SCALE as int))
}

/// Fixed-point quotient: `(a * SCALE) / b`, zero when `b` is zero.
pub open spec fn div_s(a: int, b: int) -> int {
    if b == 0 {
        0
    } else {
        sat64(tdiv(a * (SCALE as int), b))
    }
}

/// The smaller of two values.
pub open spec fn min_s(a: int, b: int) -> int {
    if a < b {
        a
    } else {
        b
    }
}

/// Floor of the square root of a natural number.
pub open spec fn sqrt_nat(n: nat) -> nat
    decreases n,
{
    if n == 0 {
        0
    } else {
        let r = sqrt_nat((n - 1) as nat);
        if (r + 1) * (r + 1) <= n {
            (r + 1) as nat
        } else {
            r
        }
    }
}

/// Fixed-point square root of a stored value, rounded down; non-positive
/// inputs yield zero.
pub open spec fn sqrt_s(x: int) -> int {
    if x <= 0 {
        0
    } else {
        sqrt_nat((x * (SCALE as int)) as nat) as int
    }
}

/// `sqrt_nat(n)` is the floor of the square root of `n`.
pub proof fn lemma_sqrt_nat_bounds(n: nat)
    ensures
        sqrt_nat(n) * sqrt_nat(n) <= n,
        n < (sqrt_nat(n) + 1) * (sqrt_nat(n) + 1),
    decreases n,
{
    if n == 0 {
        let s = sqrt_nat(n);
        assert(s == 0);
        assert((s + 1) * (s + 1) == 1) by (nonlinear_arith)
            requires
                s == 0,
        ;
    } else {
        let m = (n - 1) as nat;
        lemma_sqrt_nat_bounds(m);
        let r = sqrt_nat(m);
        assert(sqrt_nat(n) == if (r + 1) * (r + 1) <= n {
            (r + 1) as nat
        } else {
            r
        });
        if (r + 1) * (r + 1) <= n {
            assert(sqrt_nat(n) == r + 1);
            assert(n <= (r + 1) * (r + 1)) by {
                assert(m < (r + 1) * (r + 1));
            }
            assert((r + 1) * (r + 1) < (r + 2) * (r + 2)) by (nonlinear_arith)
                requires
                    r >= 0,
            ;
            assert(n < (r + 2) * (r + 2));
            assert(sqrt_nat(n) + 1 == r + 2);
            assert((sqrt_nat(n) + 1) * (sqrt_nat(n) + 1) == (r + 2) * (r + 2)) by (nonlinear_arith)
                requires
                    sqrt_nat(n) + 1 == r + 2,
            ;
        } else {
            assert(sqrt_nat(n) == r);
            assert(r * r <= m);
            assert(n < (r + 1) * (r + 1));
        }
    }
}

/// Any `r` with `r^2 <= n < (r+1)^2` is `sqrt_nat(n)`.
pub proof fn lemma_sqrt_nat_unique(n: nat, r: nat)
    requires
        r * r <= n,
        n < (r + 1) * (r + 1),
    ensures
        r == sqrt_nat(n),
{
    lemma_sqrt_nat_bounds(n);
    let s = sqrt_nat(n);
    if r < s {
        assert((r + 1) * (r + 1) <= s * s) by (nonlinear_arith)
            requires
                r + 1 <= s,
                r >= 0,
        ;
    } else if s < r {
        assert((s + 1) * (s + 1) <= r * r) by (nonlinear_arith)
            requires
                s + 1 <= r,
                s >= 0,
        ;
    }
}

/// The magnitude of a product is the product of the magnitudes, and the sign
/// of a product follows the signs of its factors.
pub proof fn lemma_mag_mul(a: int, b: int)
    ensures
        mag(a * b) == mag(a) * mag(b),
        ((a < 0) == (b < 0)) ==> a * b >= 0,
        ((a < 0) != (b < 0)) ==> a * b <= 0,
{
    if a >= 0 && b >= 0 {
        assert(a * b >= 0 && a * b == mag(a) * mag(b)) by (nonlinear_arith)
            requires
                a >= 0,
                b >= 0,
        ;
    } else if a >= 0 && b < 0 {
        assert(a * b <= 0 && -(a * b) == a * (-b)) by (nonlinear_arith)
            requires
                a >= 0,
                b < 0,
        ;
    } else if a < 0 && b >= 0 {
        assert(a * b <= 0 && -(a * b) == (-a) * b) by (nonlinear_arith)
            requires
                a < 0,
                b >= 0,
        ;
    } else {
        assert(a * b >= 0 && a * b == (-a) * (-b)) by (nonlinear_arith)
            requires
                a < 0,
                b < 0,
        ;
    }
}

/// A fixed-point product of factors in `[0, 1]` stays in `[0, 1]`.
pub proof fn lemma_mul_s_unit(a: int, b: int)
    requires
        0 <= a <= SCALE as int,
        0 <= b <= SCALE as int,
    ensures
        0 <= mul_s(a, b) <= SCALE as int,
{
    assert(0 <= a * b <= (SCALE as int) * (SCALE as int)) by (nonlinear_arith)
        requires
            0 <= a <= SCALE as int,
            0 <= b <= SCALE as int,
    ;
    vstd::arithmetic::div_mod::lemma_div_pos_is_pos(a * b, SCALE as int);
    vstd::arithmetic::div_mod::lemma_div_is_ordered(
        a * b,
        (SCALE as int) * (SCALE as int),
        SCALE as int,
    );
    vstd::arithmetic::div_mod::lemma_div_multiples_vanish(SCALE as int, SCALE as int);
}

/// Truncating division preserves order for a positive divisor.
pub proof fn lemma_tdiv_mono(x1: int, x2: int, d: int)
    requires
        x1 <= x2,
        d > 0,
    ensures
        tdiv(x1, d) <= tdiv(x2, d),
{
    if x1 >= 0 {
        vstd::arithmetic::div_mod::lemma_div_is_ordered(x1, x2, d);
    } else if x2 < 0 {
        vstd::arithmetic::div_mod::lemma_div_is_ordered(-x2, -x1, d);
    } else {
        vstd::arithmetic::div_mod::lemma_div_pos_is_pos(x2, d);
        vstd::arithmetic::div_mod::lemma_div_pos_is_pos(-x1, d);
    }
}

/// Fixed-point division preserves order for a nonnegative divisor.
pub proof fn lemma_div_s_mono(x1: int, x2: int, d: int)
    requires
        x1 <= x2,
        d >= 0,
    ensures
        div_s(x1, d) <= div_s(x2, d),
{
    if d != 0 {
        vstd::arithmetic::mul::lemma_mul_inequality(x1, x2, SCALE as int);
        lemma_tdiv_mono(x1 * (SCALE as int), x2 * (SCALE as int), d);
    }
}

/// Clamp a wide intermediate sum back into the stored range.
fn sat_narrow(v: i128) -> (r: i64)
    ensures
        r as int == sat64(v as int),
{
    if v > 9223372036854775807i128 {
        9223372036854775807i64
    } else if v < -9223372036854775807i128 {
        -9223372036854775807i64
    } else {
        v as i64
    }
}

/// Saturating addition of stored values.
pub fn fadd(a: i64, b: i64) -> (r: i64)
    ensures
        r as int == add_s(a as int, b as int),
{
    sat_narrow(a as i128 + b as i128)
}

/// Saturating subtraction of stored values.
pub fn fsub(a: i64, b: i64) -> (r: i64)
    ensures
        r as int == sub_s(a as int, b as int),
{
    sat_narrow(a as i128 - b as i128)
}

/// Saturating negation of a stored value.
pub fn fneg(a: i64) -> (r: i64)
    ensures
        r as int == neg_s(a as int),
{
    sat_narrow(-(a as i128))
}

/// The smaller of two stored values.
pub fn fmin(a: i64, b: i64) -> (r: i64)
    ensures
        r as int == if (a as int) < (b as int) {
            a as int
        } else {
            b as int
        },
{
    if a < b {
        a
    } else {
        b
    }
}

/// Saturating sum of three stored values, as one clamp over the exact sum.
pub fn fsum3(a: i64, b: i64, c: i64) -> (r: i64)
    ensures
        r as int == sat64(a as int + b as int + c as int),
{
    sat_narrow(a as i128 + b as i128 + c as i128)
}

/// Magnitude of a stored value, widened so that the minimum value needs no
/// special case.
fn mag_wide(a: i64) -> (r: u128)
    ensures
        r as int == mag(a as int),
{
    if a < 0 {
        (-(a as i128)) as u128
    } else {
        a as u128
    }
}

/// Fixed-point multiplication, saturating.
pub fn fmul(a: i64, b: i64) -> (r: i64)
    ensures
        r as int == mul_s(a as int, b as int),
{
    proof {
        lemma_mag_mul(a as int, b as int);
    }
    let neg: bool = (a < 0) != (b < 0);
    let ma: u128 = mag_wide(a);
    let mb: u128 = mag_wide(b);
    assert(ma * mb <= 0x8000000000000000 * 0x8000000000000000) by (nonlinear_arith)
        requires
            0 <= ma <= 0x8000000000000000,
            0 <= mb <= 0x8000000000000000,
    ;
    let p: u128 = ma * mb;
    let q: u128 = p / 65536u128;
    let qc: u128 = if q > 9223372036854775807u128 {
        9223372036854775807u128
    } else {
        q
    };
    if neg {
        (-(qc as i128)) as i64
    } else {
        qc as i64
    }
}

/// Fixed-point division, saturating; a zero divisor yields zero.
pub fn fdiv(a: i64, b: i64) -> (r: i64)
    ensures
        r as int == div_s(a as int, b as int),
{
    if b == 0 {
        return 0;
    }
    proof {
        lemma_mag_mul(a as int, SCALE as int);
    }
    let neg: bool = (a < 0) != (b < 0);
    let ma: u128 = mag_wide(a);
    let mb: u128 = mag_wide(b);
    assert(ma * 65536 <= 0x8000000000000000 * 65536) by (nonlinear_arith)
        requires
            0 <= ma <= 0x8000000000000000,
    ;
    let p: u128 = ma * 65536u128;
    let q: u128 = p / mb;
    let qc: u128 = if q > 9223372036854775807u128 {
        9223372036854775807u128
    } else {
        q
    };
    if neg {
        (-(qc as i128)) as i64
    } else {
        qc as i64
    }
}

/// Fixed-point square root, rounded down; non-positive inputs yield zero.
pub fn fsqrt(x: i64) -> (r: i64)
    ensures
        r as int == sqrt_s(x as int),
{
    if x <= 0 {
        return 0;
    }
    let m: u128 = (x as u128) * 65536u128;
    let mut lo: u128 = 0;
    let mut hi: u128 = 1099511627776u128;
    assert(m < hi * hi) by (nonlinear_arith)
        requires
            m < 1099511627776u128 * 1099511627776u128,
            hi == 1099511627776u128,
    ;
    while lo + 1 < hi
        invariant
            lo * lo <= m,
            m < hi * hi,
            lo < hi <= 1099511627776u128,
        decreases hi - lo,
    {
        let mid: u128 = lo + (hi - lo) / 2;
        assert(mid * mid <= 1099511627776u128 * 1099511627776u128) by (nonlinear_arith)
            requires
                0 <= mid <= 1099511627776u128,
        ;
        if mid * mid <= m {
            lo = mid;
        } else {
            hi = mid;
        }
    }
    proof {
        lemma_sqrt_nat_unique(m as nat, lo as nat);
    }
    lo as i64
}

} // verus!
