//! Exact extrema of a cubic Bézier segment, per axis.
//!
//! The tight axis-aligned bounds of a cubic over its parameter range are
//! attained either at the endpoints or where the derivative vanishes.  The
//! derivative is the quadratic `A t^2 + B t + C` (up to a factor 3), whose
//! roots are found with the closed formula over an integer square root;
//! roots inside the parameter range join the endpoints as candidates and the
//! curve is evaluated at each.  A quadratic segment is promoted to a cubic
//! by duplicating its single control point before reaching this module.
//!
//! The parameter runs over raw fixed-point `[0, SCALE]` for `[0, 1]`.

use vstd::prelude::*;

use crate::fx;
use crate::fx::{fits, imax, imin, is_sqrt, lemma_mul_bound, sat, sqrt_floor, tdiv, SCALE};

verus! {

/// Bound on the derivative coefficients fed to the root solver (8 * LIM).
pub const COF: i64 = 562949953421312;

/// `SCALE` cubed, the divisor of the Bernstein evaluation.
pub const SCALE3: i128 = 281474976710656;

/// Leading derivative coefficient `A` of the cubic with control values
/// `c0..c3`.
pub open spec fn qa(c0: int, c1: int, c2: int, c3: int) -> int {
    3 * c1 - 3 * c2 + c3 - c0
}

/// Middle derivative coefficient `B`.
pub open spec fn qb(c0: int, c1: int, c2: int) -> int {
    2 * (c0 - 2 * c1 + c2)
}

/// Constant derivative coefficient `C`.
pub open spec fn qc(c0: int, c1: int) -> int {
    c1 - c0
}

/// Keep a candidate parameter only when it lies in `[0, SCALE]`.
pub open spec fn in_range(t: int) -> Option<int> {
    if 0 <= t <= SCALE as int {
        Some(t)
    } else {
        None
    }
}

/// Raw parameters at which the derivative quadratic `a t^2 + b t + c`
/// vanishes, each kept only when inside the parameter range.  The
/// coefficients are first normalised so the leading one is positive; a
/// degenerate (linear) derivative has at most one root.
#[verifier::opaque]
pub open spec fn root_pair(a: int, b: int, c: int) -> (Option<int>, Option<int>) {
    if a != 0 {
        let a2 = if a > 0 { a } else { -a };
        let b2 = if a > 0 { b } else { -b };
        let c2 = if a > 0 { c } else { -c };
        let disc = b2 * b2 - 4 * a2 * c2;
        if disc >= 0 {
            let r = sqrt_floor(disc);
            (
                in_range(tdiv((-b2 - r) * SCALE as int, 2 * a2)),
                in_range(tdiv((-b2 + r) * SCALE as int, 2 * a2)),
            )
        } else {
            (None, None)
        }
    } else if b != 0 {
        let t = if b > 0 {
            tdiv(-c * SCALE as int, b)
        } else {
            tdiv(c * SCALE as int, -b)
        };
        (in_range(t), None)
    } else {
        (None, None)
    }
}

/// The cubic's value at raw parameter `t`, by the Bernstein form, clamped.
#[verifier::opaque]
pub open spec fn cubic_at(c0: int, c1: int, c2: int, c3: int, t: int) -> int {
    let u = SCALE as int - t;
    sat(
        tdiv(
            u * u * u * c0 + 3 * (u * u * t * c1) + 3 * (u * t * t * c2) + t * t * t * c3,
            SCALE3 as int,
        ),
    )
}

/// Fold an optional root into a running minimum of candidate values.
pub open spec fn opt_min(acc: int, c0: int, c1: int, c2: int, c3: int, o: Option<int>) -> int {
    match o {
        Some(t) => imin(acc, cubic_at(c0, c1, c2, c3, t)),
        None => acc,
    }
}

/// Fold an optional root into a running maximum of candidate values.
pub open spec fn opt_max(acc: int, c0: int, c1: int, c2: int, c3: int, o: Option<int>) -> int {
    match o {
        Some(t) => imax(acc, cubic_at(c0, c1, c2, c3, t)),
        None => acc,
    }
}

/// Least candidate value of the cubic: endpoints and in-range derivative
/// roots.
#[verifier::opaque]
pub open spec fn axis_lo(c0: int, c1: int, c2: int, c3: int) -> int {
    let rp = root_pair(qa(c0, c1, c2, c3), qb(c0, c1, c2), qc(c0, c1));
    opt_min(
        opt_min(
            imin(cubic_at(c0, c1, c2, c3, 0), cubic_at(c0, c1, c2, c3, SCALE as int)),
            c0,
            c1,
            c2,
            c3,
            rp.0,
        ),
        c0,
        c1,
        c2,
        c3,
        rp.1,
    )
}

/// Greatest candidate value of the cubic.
#[verifier::opaque]
pub open spec fn axis_hi(c0: int, c1: int, c2: int, c3: int) -> int {
    let rp = root_pair(qa(c0, c1, c2, c3), qb(c0, c1, c2), qc(c0, c1));
    opt_max(
        opt_max(
            imax(cubic_at(c0, c1, c2, c3, 0), cubic_at(c0, c1, c2, c3, SCALE as int)),
            c0,
            c1,
            c2,
            c3,
            rp.0,
        ),
        c0,
        c1,
        c2,
        c3,
        rp.1,
    )
}

/// Every value the cubic evaluation yields lies in the coordinate range.
pub proof fn lemma_cubic_at_fits(c0: int, c1: int, c2: int, c3: int, t: int)
    ensures
        fits(cubic_at(c0, c1, c2, c3, t)),
{
    reveal(cubic_at);
}

/// The per-axis extrema are ordered and in range.
pub proof fn lemma_axis_extrema_wf(c0: int, c1: int, c2: int, c3: int)
    ensures
        fits(axis_lo(c0, c1, c2, c3)),
        fits(axis_hi(c0, c1, c2, c3)),
        axis_lo(c0, c1, c2, c3) <= axis_hi(c0, c1, c2, c3),
{
    reveal(axis_lo);
    reveal(axis_hi);
    lemma_cubic_at_fits(c0, c1, c2, c3, 0);
    lemma_cubic_at_fits(c0, c1, c2, c3, SCALE as int);
    let rp = root_pair(qa(c0, c1, c2, c3), qb(c0, c1, c2), qc(c0, c1));
    if rp.0 is Some {
        lemma_cubic_at_fits(c0, c1, c2, c3, rp.0.unwrap());
    }
    if rp.1 is Some {
        lemma_cubic_at_fits(c0, c1, c2, c3, rp.1.unwrap());
    }
}

/// Model of an optional raw parameter.
pub open spec fn oi(o: Option<i64>) -> Option<int> {
    match o {
        Some(v) => Some(v as int),
        None => None,
    }
}

/// Evaluate the cubic at a raw parameter in `[0, SCALE]`.
pub fn eval_cubic(c0: i64, c1: i64, c2: i64, c3: i64, t: i64) -> (r: i64)
    requires
        fits(c0 as int),
        fits(c1 as int),
        fits(c2 as int),
        fits(c3 as int),
        0 <= t <= SCALE,
    ensures
        r as int == cubic_at(c0 as int, c1 as int, c2 as int, c3 as int, t as int),
        fits(r as int),
{
    let u: i128 = (SCALE - t) as i128;
    let tt: i128 = t as i128;
    proof {
        reveal(cubic_at);
        lemma_mul_bound(u as int, u as int, 0x10000, 0x10000);
        lemma_mul_bound(u as int, tt as int, 0x10000, 0x10000);
        lemma_mul_bound(tt as int, tt as int, 0x10000, 0x10000);
        lemma_mul_bound(u as int * u as int, u as int, 0x1_0000_0000, 0x10000);
        lemma_mul_bound(u as int * u as int, tt as int, 0x1_0000_0000, 0x10000);
        lemma_mul_bound(u as int * tt as int, tt as int, 0x1_0000_0000, 0x10000);
        lemma_mul_bound(tt as int * tt as int, tt as int, 0x1_0000_0000, 0x10000);
        lemma_mul_bound(
            u as int * u as int * u as int,
            c0 as int,
            0x1_0000_0000_0000,
            0x4000_0000_0000,
        );
        lemma_mul_bound(
            u as int * u as int * tt as int,
            c1 as int,
            0x1_0000_0000_0000,
            0x4000_0000_0000,
        );
        lemma_mul_bound(
            u as int * tt as int * tt as int,
            c2 as int,
            0x1_0000_0000_0000,
            0x4000_0000_0000,
        );
        lemma_mul_bound(
            tt as int * tt as int * tt as int,
            c3 as int,
            0x1_0000_0000_0000,
            0x4000_0000_0000,
        );
    }
    let p0 = u * u * u * (c0 as i128);
    let p1 = 3 * (u * u * tt * (c1 as i128));
    let p2 = 3 * (u * tt * tt * (c2 as i128));
    let p3 = tt * tt * tt * (c3 as i128);
    let q = fx::tdiv128(p0 + p1 + p2 + p3, SCALE3);
    fx::sat128(q)
}

/// Roots of the derivative quadratic inside the parameter range.
pub fn quad_roots(a: i64, b: i64, c: i64) -> (r: (Option<i64>, Option<i64>))
    requires
        -COF <= a <= COF,
        -COF <= b <= COF,
        -COF <= c <= COF,
    ensures
        (oi(r.0), oi(r.1)) == root_pair(a as int, b as int, c as int),
        r.0 is Some ==> 0 <= r.0.unwrap() <= SCALE,
        r.1 is Some ==> 0 <= r.1.unwrap() <= SCALE,
{
    proof {
        reveal(root_pair);
    }
    if a != 0 {
        let a2: i64 = if a > 0 {
            a
        } else {
            -a
        };
        let b2: i64 = if a > 0 {
            b
        } else {
            -b
        };
        let c2: i64 = if a > 0 {
            c
        } else {
            -c
        };
        proof {
            lemma_mul_bound(b2 as int, b2 as int, COF as int, COF as int);
            lemma_mul_bound(a2 as int, c2 as int, COF as int, COF as int);
        }
        let disc: i128 = (b2 as i128) * (b2 as i128) - 4 * ((a2 as i128) * (c2 as i128));
        proof {
            assert(4 * ((a2 as int) * (c2 as int)) == 4 * (a2 as int) * (c2 as int))
                by (nonlinear_arith);
        }
        if disc >= 0 {
            let r = fx::isqrt(disc as u128);
            proof {
                assert((disc as u128) as int == disc as int);
                fx::lemma_sqrt_unique(
                    disc as int,
                    r as int,
                    choose|q: int| is_sqrt(disc as int, q),
                );
                assert((r as int) * (r as int) <= disc as int);
                assert((r as int) * (r as int) < 0x20_0000_0000_0000_0000_0000_0000) by (nonlinear_arith)
                    requires
                        (r as int) * (r as int) <= disc as int,
                        (disc as int) < 0x20_0000_0000_0000_0000_0000_0000,
                ;
                assert((r as int) < 0x10_0000_0000_0000) by (nonlinear_arith)
                    requires
                        (r as int) * (r as int) <= disc as int,
                        (disc as int) < 0x10_0000_0000_0000 * 0x10_0000_0000_0000,
                        r as int >= 0,
                ;
            }
            let t1 = root_div(-(b2 as i128) - (r as i128), a2);
            let t2 = root_div(-(b2 as i128) + (r as i128), a2);
            proof {
                assert(r as int == sqrt_floor(disc as int));
                assert(root_pair(a as int, b as int, c as int) == (
                    in_range(
                        tdiv(
                            (-(b2 as int) - sqrt_floor(disc as int)) * SCALE as int,
                            2 * a2 as int,
                        ),
                    ),
                    in_range(
                        tdiv(
                            (-(b2 as int) + sqrt_floor(disc as int)) * SCALE as int,
                            2 * a2 as int,
                        ),
                    ),
                ));
            }
            (t1, t2)
        } else {
            (None, None)
        }
    } else if b != 0 {
        proof {
            lemma_mul_bound(c as int, SCALE as int, COF as int, 0x10000);
            lemma_mul_bound(-(c as int), SCALE as int, COF as int, 0x10000);
        }
        let t: i128 = if b > 0 {
            fx::tdiv128(-(c as i128) * (SCALE as i128), b as i128)
        } else {
            fx::tdiv128((c as i128) * (SCALE as i128), -(b as i128))
        };
        (range_check(t), None)
    } else {
        (None, None)
    }
}

/// `tdiv(num * SCALE, 2 * a2)` kept only when in the parameter range.
fn root_div(num: i128, a2: i64) -> (r: Option<i64>)
    requires
        0 < a2 <= COF,
        -0x20_0000_0000_0000 <= num <= 0x20_0000_0000_0000,
    ensures
        oi(r) == in_range(tdiv(num as int * SCALE as int, 2 * a2 as int)),
{
    proof {
        lemma_mul_bound(num as int, SCALE as int, 0x20_0000_0000_0000, 0x10000);
    }
    let q = fx::tdiv128(num * (SCALE as i128), 2 * (a2 as i128));
    range_check(q)
}

/// Keep a raw parameter only when it lies in `[0, SCALE]`.
fn range_check(t: i128) -> (r: Option<i64>)
    ensures
        oi(r) == in_range(t as int),
{
    if 0 <= t && t <= SCALE as i128 {
        Some(t as i64)
    } else {
        None
    }
}

/// Tight per-axis bounds of the cubic with control values `c0..c3`: the
/// least and greatest value the curve attains among the endpoints and the
/// in-range roots of its derivative.
pub fn axis_extrema(c0: i64, c1: i64, c2: i64, c3: i64) -> (r: (i64, i64))
    requires
        fits(c0 as int),
        fits(c1 as int),
        fits(c2 as int),
        fits(c3 as int),
    ensures
        r.0 as int == axis_lo(c0 as int, c1 as int, c2 as int, c3 as int),
        r.1 as int == axis_hi(c0 as int, c1 as int, c2 as int, c3 as int),
        fits(r.0 as int),
        fits(r.1 as int),
        r.0 <= r.1,
{
    proof {
        reveal(axis_lo);
        reveal(axis_hi);
    }
    let a: i64 = (3 * ((c1 as i128) - (c2 as i128)) + ((c3 as i128) - (c0 as i128))) as i64;
    let b: i64 = (2 * (((c0 as i128) - 2 * (c1 as i128)) + (c2 as i128))) as i64;
    let c: i64 = c1 - c0;
    let (r1, r2) = quad_roots(a, b, c);
    let e0 = eval_cubic(c0, c1, c2, c3, 0);
    let e1 = eval_cubic(c0, c1, c2, c3, SCALE);
    let mut lo = fx::fx_min(e0, e1);
    let mut hi = fx::fx_max(e0, e1);
    if let Some(t) = r1 {
        let e = eval_cubic(c0, c1, c2, c3, t);
        lo = fx::fx_min(lo, e);
        hi = fx::fx_max(hi, e);
    }
    if let Some(t) = r2 {
        let e = eval_cubic(c0, c1, c2, c3, t);
        lo = fx::fx_min(lo, e);
        hi = fx::fx_max(hi, e);
    }
    (lo, hi)
}

} // verus!
