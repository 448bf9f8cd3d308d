//! Saturating fixed-point arithmetic.
//!
//! A coordinate is an `i64` holding the real value times [`SCALE`].  Every
//! operation clamps its result into `[-LIM, LIM]`, which keeps all
//! intermediate products inside `i128` and makes each operation total: no
//! input needs to be rejected.  `tdiv` names division that truncates toward
//! zero, which is what the machine division on magnitudes computes.

use vstd::prelude::*;

verus! {

/// One user-space unit, as a raw fixed-point value.
pub const SCALE: i64 = 65536;

/// Largest raw magnitude a coordinate may take (2^46); results are clamped
/// into `[-LIM, LIM]`.
pub const LIM: i64 = 70368744177664;

/// The raw magnitude is within the representable coordinate range.
pub open spec fn fits(v: int) -> bool {
    -(LIM as int) <= v <= LIM as int
}

/// Clamp into `[-LIM, LIM]`.
pub open spec fn sat(v: int) -> int {
    if v > LIM as int {
        LIM as int
    } else if v < -(LIM as int) {
        -(LIM as int)
    } else {
        v
    }
}

/// Bound at which raw products are clamped (2^100): far beyond any product
/// of in-range coordinates, so the clamp never bites for realistic scenes,
/// while keeping sums of two products inside `i128`.
pub const PLIM: i128 = 0x10_0000_0000_0000_0000_0000_0000;

/// Clamp a product into `[-PLIM, PLIM]`.
pub open spec fn satp(v: int) -> int {
    if v > PLIM as int {
        PLIM as int
    } else if v < -(PLIM as int) {
        -(PLIM as int)
    } else {
        v
    }
}

/// Clamp a product into `[-PLIM, PLIM]`.
pub fn satp128(v: i128) -> (r: i128)
    ensures
        r as int == satp(v as int),
        -(PLIM as int) <= r as int <= PLIM as int,
{
    if v > PLIM {
        PLIM
    } else if v < -PLIM {
        -PLIM
    } else {
        v
    }
}

/// Division truncating toward zero (machine semantics), for a positive
/// divisor.
pub open spec fn tdiv(a: int, b: int) -> int
    recommends
        b > 0,
{
    if a >= 0 {
        a / b
    } else {
        -((-a) / b)
    }
}

/// Minimum of two mathematical integers.
pub open spec fn imin(a: int, b: int) -> int {
    if a <= b {
        a
    } else {
        b
    }
}

/// Maximum of two mathematical integers.
pub open spec fn imax(a: int, b: int) -> int {
    if a >= b {
        a
    } else {
        b
    }
}

/// `r` is the integer square root of `n`: the largest `r` with `r * r <= n`.
pub open spec fn is_sqrt(n: int, r: int) -> bool {
    0 <= r && r * r <= n && n < (r + 1) * (r + 1)
}

/// The integer square root of a non-negative `n`.
pub open spec fn sqrt_floor(n: int) -> int {
    choose|r: int| is_sqrt(n, r)
}

/// Two integer square roots of the same number are equal.
pub proof fn lemma_sqrt_unique(n: int, a: int, b: int)
    requires
        is_sqrt(n, a),
        is_sqrt(n, b),
    ensures
        a == b,
{
    if a < b {
        assert(b * b <= n) by (nonlinear_arith)
            requires
                is_sqrt(n, b),
        ;
        assert((a + 1) * (a + 1) <= b * b) by (nonlinear_arith)
            requires
                0 <= a,
                a + 1 <= b,
        ;
        assert(false);
    }
    if b < a {
        assert((b + 1) * (b + 1) <= a * a) by (nonlinear_arith)
            requires
                0 <= b,
                b + 1 <= a,
        ;
        assert(false);
    }
}

/// `|a * b| <= m * n` whenever `|a| <= m` and `|b| <= n`.
pub proof fn lemma_mul_bound(a: int, b: int, m: int, n: int)
    requires
        -m <= a <= m,
        -n <= b <= n,
        0 <= m,
        0 <= n,
    ensures
        -(m * n) <= a * b <= m * n,
{
    assert(-(m * n) <= a * b <= m * n) by (nonlinear_arith)
        requires
            -m <= a <= m,
            -n <= b <= n,
            0 <= m,
            0 <= n,
    ;
}

/// Every non-negative integer has an integer square root; the witness is
/// returned.
pub proof fn lemma_sqrt_exists(n: int) -> (r: int)
    requires
        n >= 0,
    ensures
        is_sqrt(n, r),
    decreases n,
{
    if n == 0 {
        0
    } else {
        let r = lemma_sqrt_exists(n - 1);
        if (r + 1) * (r + 1) <= n {
            assert(n <= (r + 1) * (r + 1)) by (nonlinear_arith)
                requires
                    n - 1 < (r + 1) * (r + 1),
            ;
            assert((r + 2) * (r + 2) > n) by (nonlinear_arith)
                requires
                    n == (r + 1) * (r + 1),
                    r >= 0,
            ;
            assert(is_sqrt(n, r + 1));
            r + 1
        } else {
            assert(r * r <= n);
            assert(n < (r + 1) * (r + 1));
            assert(is_sqrt(n, r));
            r
        }
    }
}

/// The integer square root of a non-negative number is non-negative and
/// squares to at most the number.
pub proof fn lemma_sqrt_floor_props(n: int)
    requires
        n >= 0,
    ensures
        sqrt_floor(n) >= 0,
        sqrt_floor(n) * sqrt_floor(n) <= n,
        is_sqrt(n, sqrt_floor(n)),
{
    let w = lemma_sqrt_exists(n);
    assert(exists|q: int| is_sqrt(n, q));
}

/// Flooring and ceiling to whole units brackets the value and stays inside
/// the coordinate range.
pub proof fn lemma_floor_ceil_bracket(a: int)
    requires
        fits(a),
    ensures
        floor_unit(a) <= a,
        a <= ceil_unit(a),
        -(LIM as int) <= floor_unit(a),
        ceil_unit(a) <= LIM as int,
{
    if a >= 0 {
        assert((a / 65536) * 65536 <= a) by (nonlinear_arith)
            requires
                a >= 0,
        ;
        assert(((a + 65535) / 65536) * 65536 >= a) by (nonlinear_arith)
            requires
                a >= 0,
        ;
        assert(((a + 65535) / 65536) * 65536 <= LIM as int) by (nonlinear_arith)
            requires
                0 <= a <= LIM as int,
                LIM as int == 70368744177664,
        ;
    } else {
        let m = -a;
        assert((((m + 65535) / 65536) * 65536) >= m) by (nonlinear_arith)
            requires
                m >= 0,
        ;
        assert((((m + 65535) / 65536) * 65536) <= LIM as int) by (nonlinear_arith)
            requires
                0 <= m <= LIM as int,
                LIM as int == 70368744177664,
        ;
        assert(((m / 65536) * 65536) <= m) by (nonlinear_arith)
            requires
                m >= 0,
        ;
    }
}

/// Rounding to the nearest whole unit keeps an in-range value in range.
pub proof fn lemma_round_unit_bounds(a: int)
    requires
        fits(a),
    ensures
        -(LIM as int) <= round_unit(a) <= LIM as int,
{
    if a >= 0 {
        assert(((a + 32768) / 65536) * 65536 <= LIM as int) by (nonlinear_arith)
            requires
                0 <= a <= LIM as int,
                LIM as int == 70368744177664,
        ;
        assert(((a + 32768) / 65536) * 65536 >= 0) by (nonlinear_arith)
            requires
                a >= 0,
        ;
    } else {
        let m = -a;
        assert(((m + 32768) / 65536) * 65536 <= LIM as int) by (nonlinear_arith)
            requires
                0 <= m <= LIM as int,
                LIM as int == 70368744177664,
        ;
        assert(((m + 32768) / 65536) * 65536 >= 0) by (nonlinear_arith)
            requires
                m >= 0,
        ;
    }
}

/// Clamp an `i128` into the coordinate range.
pub fn sat128(v: i128) -> (r: i64)
    ensures
        r as int == sat(v as int),
        fits(r as int),
{
    if v > LIM as i128 {
        LIM
    } else if v < -(LIM as i128) {
        -LIM
    } else {
        v as i64
    }
}

/// Product of two `i64` values, exact in `i128`.
pub fn mul128(a: i64, b: i64) -> (r: i128)
    ensures
        r as int == a as int * b as int,
        -0x4000_0000_0000_0000_0000_0000_0000_0000 <= r as int
            <= 0x4000_0000_0000_0000_0000_0000_0000_0000,
{
    proof {
        lemma_mul_bound(a as int, b as int, 0x8000_0000_0000_0000, 0x8000_0000_0000_0000);
    }
    (a as i128) * (b as i128)
}

/// Division of an `i128` by a positive divisor, truncating toward zero.
pub fn tdiv128(a: i128, b: i128) -> (r: i128)
    requires
        b > 0,
        a != i128::MIN,
    ensures
        r as int == tdiv(a as int, b as int),
        -(if a as int >= 0 { a as int } else { -(a as int) }) <= r as int <= (if a as int >= 0 { a as int } else { -(a as int) }),
{
    if a >= 0 {
        let q = (a as u128) / (b as u128);
        proof {
            assert(q as int == a as int / b as int);
            assert(a as int / b as int <= a as int) by (nonlinear_arith)
                requires
                    a as int >= 0,
                    b as int >= 1,
            ;
        }
        q as i128
    } else {
        let m = (-a) as u128;
        let q = m / (b as u128);
        proof {
            assert(q as int == (-(a as int)) / b as int);
            assert((-(a as int)) / b as int <= -(a as int)) by (nonlinear_arith)
                requires
                    (a as int) < 0,
                    b as int >= 1,
            ;
        }
        -(q as i128)
    }
}

/// Saturating addition of raw coordinates.
pub fn fx_add(a: i64, b: i64) -> (r: i64)
    ensures
        r as int == sat(a as int + b as int),
{
    sat128(a as i128 + b as i128)
}

/// Saturating subtraction of raw coordinates.
pub fn fx_sub(a: i64, b: i64) -> (r: i64)
    ensures
        r as int == sat(a as int - b as int),
{
    sat128(a as i128 - b as i128)
}

/// Clamp a raw coordinate into range.
pub fn fx_sat(a: i64) -> (r: i64)
    ensures
        r as int == sat(a as int),
{
    sat128(a as i128)
}

/// The product of two fixed-point values: `sat(a * b / SCALE)`, truncating.
pub open spec fn fxmul(a: int, b: int) -> int {
    sat(tdiv(a * b, SCALE as int))
}

/// Saturating fixed-point multiplication.
pub fn fx_mul(a: i64, b: i64) -> (r: i64)
    ensures
        r as int == fxmul(a as int, b as int),
{
    let p = mul128(a, b);
    let q = tdiv128(p, SCALE as i128);
    sat128(q)
}

/// `sat(a * b / c)`, truncating, for a positive `c`.
pub open spec fn fxmuldiv(a: int, b: int, c: int) -> int
    recommends
        c > 0,
{
    sat(tdiv(a * b, c))
}

/// Saturating multiply-then-divide: `sat(a * b / c)`.
pub fn fx_muldiv(a: i64, b: i64, c: i64) -> (r: i64)
    requires
        c > 0,
    ensures
        r as int == fxmuldiv(a as int, b as int, c as int),
{
    let p = mul128(a, b);
    let q = tdiv128(p, c as i128);
    sat128(q)
}

/// Half of a raw coordinate, truncating toward zero.
pub open spec fn half(a: int) -> int {
    tdiv(a, 2)
}

/// Half of a raw coordinate, truncating toward zero.
pub fn fx_half(a: i64) -> (r: i64)
    ensures
        r as int == half(a as int),
{
    let q = tdiv128(a as i128, 2);
    q as i64
}

/// Smaller of two raw coordinates.
pub fn fx_min(a: i64, b: i64) -> (r: i64)
    ensures
        r as int == imin(a as int, b as int),
{
    if a <= b {
        a
    } else {
        b
    }
}

/// Larger of two raw coordinates.
pub fn fx_max(a: i64, b: i64) -> (r: i64)
    ensures
        r as int == imax(a as int, b as int),
{
    if a >= b {
        a
    } else {
        b
    }
}

/// Largest multiple of `SCALE` that is at most `a` (floor to a whole unit).
pub open spec fn floor_unit(a: int) -> int {
    if a >= 0 {
        (a / SCALE as int) * SCALE as int
    } else {
        -((((-a) + SCALE as int - 1) / SCALE as int) * SCALE as int)
    }
}

/// Smallest multiple of `SCALE` that is at least `a` (ceiling to a whole
/// unit).
pub open spec fn ceil_unit(a: int) -> int {
    if a >= 0 {
        ((a + SCALE as int - 1) / SCALE as int) * SCALE as int
    } else {
        -(((-a) / SCALE as int) * SCALE as int)
    }
}

/// Nearest multiple of `SCALE`, halves rounding away from zero.
pub open spec fn round_unit(a: int) -> int {
    if a >= 0 {
        ((a + SCALE as int / 2) / SCALE as int) * SCALE as int
    } else {
        -((((-a) + SCALE as int / 2) / SCALE as int) * SCALE as int)
    }
}

/// Floor to a whole unit.
pub fn fx_floor(a: i64) -> (r: i64)
    requires
        fits(a as int),
    ensures
        r as int == floor_unit(a as int),
        fits(r as int),
{
    if a >= 0 {
        let u = (a as u64) / (SCALE as u64);
        proof {
            assert(u as int * SCALE as int <= a as int) by (nonlinear_arith)
                requires
                    u as int == a as int / SCALE as int,
                    a as int >= 0,
            ;
        }
        (u * (SCALE as u64)) as i64
    } else {
        let m = ((-a) as u64) + (SCALE as u64) - 1;
        let u = m / (SCALE as u64);
        proof {
            assert(u as int * SCALE as int <= m as int) by (nonlinear_arith)
                requires
                    u as int == m as int / SCALE as int,
                    m as int >= 0,
            ;
        }
        -((u * (SCALE as u64)) as i64)
    }
}

/// Ceiling to a whole unit.
pub fn fx_ceil(a: i64) -> (r: i64)
    requires
        fits(a as int),
    ensures
        r as int == ceil_unit(a as int),
        fits(r as int),
{
    if a >= 0 {
        let m = (a as u64) + (SCALE as u64) - 1;
        let u = m / (SCALE as u64);
        proof {
            assert(u as int * SCALE as int <= m as int) by (nonlinear_arith)
                requires
                    u as int == m as int / SCALE as int,
                    m as int >= 0,
            ;
        }
        (u * (SCALE as u64)) as i64
    } else {
        let u = ((-a) as u64) / (SCALE as u64);
        proof {
            assert(u as int * SCALE as int <= (-(a as int))) by (nonlinear_arith)
                requires
                    u as int == (-(a as int)) / SCALE as int,
                    -(a as int) >= 0,
            ;
        }
        -((u * (SCALE as u64)) as i64)
    }
}

/// Round to the nearest whole unit, halves away from zero.
pub fn fx_round(a: i64) -> (r: i64)
    requires
        fits(a as int),
    ensures
        r as int == round_unit(a as int),
        fits(r as int),
{
    if a >= 0 {
        let m = (a as u64) + (SCALE as u64) / 2;
        let u = m / (SCALE as u64);
        proof {
            assert(u as int * SCALE as int <= m as int) by (nonlinear_arith)
                requires
                    u as int == m as int / SCALE as int,
                    m as int >= 0,
            ;
        }
        (u * (SCALE as u64)) as i64
    } else {
        let m = ((-a) as u64) + (SCALE as u64) / 2;
        let u = m / (SCALE as u64);
        proof {
            assert(u as int * SCALE as int <= m as int) by (nonlinear_arith)
                requires
                    u as int == m as int / SCALE as int,
                    m as int >= 0,
            ;
        }
        -((u * (SCALE as u64)) as i64)
    }
}

/// Integer square root: the largest `r` with `r * r <= n`.
pub fn isqrt(n: u128) -> (r: u64)
    ensures
        is_sqrt(n as int, r as int),
        r as int == sqrt_floor(n as int),
{
    let mut lo: u128 = 0;
    let mut hi: u128 = 0x1_0000_0000_0000_0000;
    proof {
        assert((n as int) < hi as int * hi as int) by (nonlinear_arith)
            requires
                hi as int == 0x1_0000_0000_0000_0000,
                (n as int) < 0x1_0000_0000_0000_0000_0000_0000_0000_0000,
        ;
    }
    while hi - lo > 1
        invariant
            lo < hi <= 0x1_0000_0000_0000_0000,
            lo as int * lo as int <= n as int,
            (n as int) < hi as int * hi as int,
        decreases hi - lo,
    {
        let mid = lo + (hi - lo) / 2;
        proof {
            assert((mid as int * mid as int) < 0x1_0000_0000_0000_0000_0000_0000_0000_0000)
                by (nonlinear_arith)
                requires
                    0 <= mid as int,
                    mid as int <= 0x1_0000_0000_0000_0000 - 1,
            ;
        }
        if mid * mid <= n {
            lo = mid;
        } else {
            hi = mid;
        }
    }
    proof {
        assert(is_sqrt(n as int, lo as int));
        lemma_sqrt_unique(n as int, lo as int, choose|r: int| is_sqrt(n as int, r));
    }
    lo as u64
}

} // verus!
