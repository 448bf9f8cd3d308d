//! Geometric value types: scalars, rectangles, axis-aligned boxes and 2D
//! affine transforms, with their mathematical models.
//!
//! Boxes are handled internally in min/max-corner form ([`Box2`], modelled by
//! the ghost [`GBox`]), and only converted to the public x/y/width/height
//! form ([`BBox`]) at the API boundary, so that the "no content yet"
//! accumulator state is an ordinary `Option` and never leaks.

use vstd::prelude::*;

use crate::fx;
use crate::fx::{fits, imax, imin, sat, satp, tdiv, LIM, SCALE};

verus! {

/// A scene coordinate as a caller supplies it: either a finite fixed-point
/// number or a non-finite marker (the analogue of NaN or an infinity).
///
/// A `Num` whose raw magnitude exceeds [`LIM`] is treated as non-finite by
/// every consumer, so `is_finite` is the single validity test.
#[derive(Clone, Copy, PartialEq, Eq, Structural, Debug)]
pub enum Scalar {
    /// A fixed-point value, scaled by [`SCALE`].
    Num(i64),
    /// Not a representable finite coordinate.
    NonFinite,
}

impl Scalar {
    /// The scalar is a number within the coordinate range.
    pub open spec fn is_finite(self) -> bool {
        match self {
            Scalar::Num(v) => fits(v as int),
            Scalar::NonFinite => false,
        }
    }

    /// The raw fixed-point value of a finite scalar.
    pub open spec fn val(self) -> int {
        match self {
            Scalar::Num(v) => v as int,
            Scalar::NonFinite => 0,
        }
    }

    /// Runtime test matching `is_finite`.
    pub fn finite(&self) -> (b: bool)
        ensures
            b == self.is_finite(),
    {
        match self {
            Scalar::Num(v) => -LIM <= *v && *v <= LIM,
            Scalar::NonFinite => false,
        }
    }

    /// The raw value of a finite scalar, `0` otherwise.
    pub fn raw(&self) -> (r: i64)
        ensures
            r as int == self.val(),
    {
        match self {
            Scalar::Num(v) => *v,
            Scalar::NonFinite => 0,
        }
    }
}

/// An axis-aligned rectangle in x/y/width/height form, the shape used for a
/// tree's view rectangle and for image and text boxes.
#[derive(Clone, Copy, PartialEq, Eq, Structural, Debug)]
pub struct Rect {
    pub x: i64,
    pub y: i64,
    pub w: i64,
    pub h: i64,
}

/// The public bounding-box value: x/y/width/height, each possibly
/// non-finite when caller-supplied.  Boxes returned by the queries always
/// have finite fields and non-negative width and height.
#[derive(Clone, Copy, PartialEq, Eq, Structural, Debug)]
pub struct BBox {
    pub x: Scalar,
    pub y: Scalar,
    pub width: Scalar,
    pub height: Scalar,
}

impl BBox {
    /// All four fields are finite numbers.
    pub open spec fn is_finite(self) -> bool {
        self.x.is_finite() && self.y.is_finite() && self.width.is_finite()
            && self.height.is_finite()
    }

    /// Convenience constructor from raw fixed-point values.
    pub fn from_raw(x: i64, y: i64, w: i64, h: i64) -> (r: BBox)
        ensures
            r == (BBox {
                x: Scalar::Num(x),
                y: Scalar::Num(y),
                width: Scalar::Num(w),
                height: Scalar::Num(h),
            }),
    {
        BBox { x: Scalar::Num(x), y: Scalar::Num(y), width: Scalar::Num(w), height: Scalar::Num(h) }
    }
}

/// Mathematical model of a box: min and max corners as integers.
pub ghost struct GBox {
    pub x0: int,
    pub y0: int,
    pub x1: int,
    pub y1: int,
}

/// The box's corners are in range and ordered.
pub open spec fn wfb(b: GBox) -> bool {
    fits(b.x0) && fits(b.y0) && fits(b.x1) && fits(b.y1) && b.x0 <= b.x1 && b.y0 <= b.y1
}

/// A box in min/max-corner form.
#[derive(Clone, Copy, PartialEq, Eq, Structural, Debug)]
pub struct Box2 {
    pub x0: i64,
    pub y0: i64,
    pub x1: i64,
    pub y1: i64,
}

impl View for Box2 {
    type V = GBox;

    open spec fn view(&self) -> GBox {
        GBox { x0: self.x0 as int, y0: self.y0 as int, x1: self.x1 as int, y1: self.y1 as int }
    }
}

/// Model of an optional box.
pub open spec fn ob(o: Option<Box2>) -> Option<GBox> {
    match o {
        Some(b) => Some(b@),
        None => None,
    }
}

/// Hull of two boxes: component-wise min of the min corners and max of the
/// max corners.
pub open spec fn g_union(a: GBox, b: GBox) -> GBox {
    GBox {
        x0: imin(a.x0, b.x0),
        y0: imin(a.y0, b.y0),
        x1: imax(a.x1, b.x1),
        y1: imax(a.y1, b.y1),
    }
}

/// Strict overlap test: the shared region must have positive area, so boxes
/// that merely touch do not intersect.
pub open spec fn g_intersects(a: GBox, b: GBox) -> bool {
    a.x0 < b.x1 && b.x0 < a.x1 && a.y0 < b.y1 && b.y0 < a.y1
}

/// Intersection, `None` unless the boxes strictly overlap.
pub open spec fn g_inter(a: GBox, b: GBox) -> Option<GBox> {
    if g_intersects(a, b) {
        Some(
            GBox {
                x0: imax(a.x0, b.x0),
                y0: imax(a.y0, b.y0),
                x1: imin(a.x1, b.x1),
                y1: imin(a.y1, b.y1),
            },
        )
    } else {
        None
    }
}

/// Grow a box by `d` on every side, clamped.
pub open spec fn g_inflate(b: GBox, d: int) -> GBox {
    GBox { x0: sat(b.x0 - d), y0: sat(b.y0 - d), x1: sat(b.x1 + d), y1: sat(b.y1 + d) }
}

/// Hull of two boxes.
pub fn box_union(a: &Box2, b: &Box2) -> (r: Box2)
    ensures
        r@ == g_union(a@, b@),
{
    Box2 {
        x0: fx::fx_min(a.x0, b.x0),
        y0: fx::fx_min(a.y0, b.y0),
        x1: fx::fx_max(a.x1, b.x1),
        y1: fx::fx_max(a.y1, b.y1),
    }
}

/// Intersection with the strict-overlap rule.
pub fn box_inter(a: &Box2, b: &Box2) -> (r: Option<Box2>)
    ensures
        ob(r) == g_inter(a@, b@),
{
    if a.x0 < b.x1 && b.x0 < a.x1 && a.y0 < b.y1 && b.y0 < a.y1 {
        Some(
            Box2 {
                x0: fx::fx_max(a.x0, b.x0),
                y0: fx::fx_max(a.y0, b.y0),
                x1: fx::fx_min(a.x1, b.x1),
                y1: fx::fx_min(a.y1, b.y1),
            },
        )
    } else {
        None
    }
}

/// Grow a box by `d` on every side, clamped.
pub fn box_inflate(b: &Box2, d: i64) -> (r: Box2)
    ensures
        r@ == g_inflate(b@, d as int),
{
    Box2 {
        x0: fx::fx_sub(b.x0, d),
        y0: fx::fx_sub(b.y0, d),
        x1: fx::fx_add(b.x1, d),
        y1: fx::fx_add(b.y1, d),
    }
}

/// Corners of a rectangle as a box, clamped into range.
pub open spec fn g_rect(r: Rect) -> GBox {
    GBox {
        x0: sat(r.x as int),
        y0: sat(r.y as int),
        x1: sat(r.x as int + r.w as int),
        y1: sat(r.y as int + r.h as int),
    }
}

/// Corners of a rectangle as a box, clamped into range.
pub fn rect_to_box(r: &Rect) -> (b: Box2)
    ensures
        b@ == g_rect(*r),
{
    Box2 {
        x0: fx::fx_sat(r.x),
        y0: fx::fx_sat(r.y),
        x1: fx::fx_add(r.x, r.w),
        y1: fx::fx_add(r.y, r.h),
    }
}

/// A 2D affine transform in fixed point.  A point maps as
/// `x' = sx*x + kx*y + tx`, `y' = ky*x + sy*y + ty` (values unscaled by
/// [`SCALE`] once per product).
#[derive(Clone, Copy, PartialEq, Eq, Structural, Debug)]
pub struct Transform {
    pub sx: i64,
    pub kx: i64,
    pub ky: i64,
    pub sy: i64,
    pub tx: i64,
    pub ty: i64,
}

impl Transform {
    /// The neutral transform.
    pub open spec fn identity_spec() -> Transform {
        Transform { sx: SCALE, kx: 0, ky: 0, sy: SCALE, tx: 0, ty: 0 }
    }

    /// The neutral transform.
    pub fn identity() -> (t: Transform)
        ensures
            t == Transform::identity_spec(),
    {
        Transform { sx: SCALE, kx: 0, ky: 0, sy: SCALE, tx: 0, ty: 0 }
    }

    /// The transform maps every point to itself.
    pub open spec fn is_identity_spec(self) -> bool {
        self == Transform::identity_spec()
    }

    /// Runtime identity test.
    pub fn is_identity(&self) -> (b: bool)
        ensures
            b == self.is_identity_spec(),
    {
        self.sx == SCALE && self.kx == 0 && self.ky == 0 && self.sy == SCALE && self.tx == 0
            && self.ty == 0
    }
}

/// Mapped x coordinate of a point: `sat((sx*x + kx*y)/SCALE + tx)`, each
/// product clamped at the (far larger) product bound before the sum.
pub open spec fn tf_x(t: Transform, x: int, y: int) -> int {
    sat(tdiv(satp(t.sx as int * x) + satp(t.kx as int * y), SCALE as int) + t.tx as int)
}

/// Mapped y coordinate of a point.
pub open spec fn tf_y(t: Transform, x: int, y: int) -> int {
    sat(tdiv(satp(t.ky as int * x) + satp(t.sy as int * y), SCALE as int) + t.ty as int)
}

/// Map a point through a transform.
pub fn tf_point(t: &Transform, x: i64, y: i64) -> (r: (i64, i64))
    ensures
        r.0 as int == tf_x(*t, x as int, y as int),
        r.1 as int == tf_y(*t, x as int, y as int),
{
    let px = {
        let p1 = fx::satp128(fx::mul128(t.sx, x));
        let p2 = fx::satp128(fx::mul128(t.kx, y));
        let s = fx::tdiv128(p1 + p2, SCALE as i128);
        fx::sat128(s + t.tx as i128)
    };
    let py = {
        let p1 = fx::satp128(fx::mul128(t.ky, x));
        let p2 = fx::satp128(fx::mul128(t.sy, y));
        let s = fx::tdiv128(p1 + p2, SCALE as i128);
        fx::sat128(s + t.ty as i128)
    };
    (px, py)
}

/// Box mapped through a transform: all four corners are mapped and the new
/// axis-aligned min/max taken.
pub open spec fn g_map(t: Transform, b: GBox) -> GBox {
    let ax = tf_x(t, b.x0, b.y0);
    let ay = tf_y(t, b.x0, b.y0);
    let bx = tf_x(t, b.x1, b.y1);
    let by = tf_y(t, b.x1, b.y1);
    let cx = tf_x(t, b.x0, b.y1);
    let cy = tf_y(t, b.x0, b.y1);
    let dx = tf_x(t, b.x1, b.y0);
    let dy = tf_y(t, b.x1, b.y0);
    GBox {
        x0: imin(imin(ax, bx), imin(cx, dx)),
        y0: imin(imin(ay, by), imin(cy, dy)),
        x1: imax(imax(ax, bx), imax(cx, dx)),
        y1: imax(imax(ay, by), imax(cy, dy)),
    }
}

/// Map a box's four corners through a transform and take the new min/max.
pub fn box_map(t: &Transform, b: &Box2) -> (r: Box2)
    ensures
        r@ == g_map(*t, b@),
{
    let (ax, ay) = tf_point(t, b.x0, b.y0);
    let (bx, by) = tf_point(t, b.x1, b.y1);
    let (cx, cy) = tf_point(t, b.x0, b.y1);
    let (dx, dy) = tf_point(t, b.x1, b.y0);
    Box2 {
        x0: fx::fx_min(fx::fx_min(ax, bx), fx::fx_min(cx, dx)),
        y0: fx::fx_min(fx::fx_min(ay, by), fx::fx_min(cy, dy)),
        x1: fx::fx_max(fx::fx_max(ax, bx), fx::fx_max(cx, dx)),
        y1: fx::fx_max(fx::fx_max(ay, by), fx::fx_max(cy, dy)),
    }
}

/// Composition applying `b` first and `a` second (pre-concatenation of `b`
/// onto `a`), the fixed-point analogue of the affine product `a * b`.
pub open spec fn g_concat(a: Transform, b: Transform) -> Transform {
    Transform {
        sx: sat(
            tdiv(satp(a.sx as int * b.sx as int) + satp(a.kx as int * b.ky as int), SCALE as int),
        ) as i64,
        ky: sat(
            tdiv(satp(a.ky as int * b.sx as int) + satp(a.sy as int * b.ky as int), SCALE as int),
        ) as i64,
        kx: sat(
            tdiv(satp(a.sx as int * b.kx as int) + satp(a.kx as int * b.sy as int), SCALE as int),
        ) as i64,
        sy: sat(
            tdiv(satp(a.ky as int * b.kx as int) + satp(a.sy as int * b.sy as int), SCALE as int),
        ) as i64,
        tx: sat(
            tdiv(satp(a.sx as int * b.tx as int) + satp(a.kx as int * b.ty as int), SCALE as int)
                + a.tx as int,
        ) as i64,
        ty: sat(
            tdiv(satp(a.ky as int * b.tx as int) + satp(a.sy as int * b.ty as int), SCALE as int)
                + a.ty as int,
        ) as i64,
    }
}

/// Pre-concatenate `b` onto `a`: the result applies `b` first, then `a`.
pub fn tf_concat(a: &Transform, b: &Transform) -> (r: Transform)
    ensures
        r == g_concat(*a, *b),
{
    let sx = {
        let p1 = fx::satp128(fx::mul128(a.sx, b.sx));
        let p2 = fx::satp128(fx::mul128(a.kx, b.ky));
        fx::sat128(fx::tdiv128(p1 + p2, SCALE as i128))
    };
    let ky = {
        let p1 = fx::satp128(fx::mul128(a.ky, b.sx));
        let p2 = fx::satp128(fx::mul128(a.sy, b.ky));
        fx::sat128(fx::tdiv128(p1 + p2, SCALE as i128))
    };
    let kx = {
        let p1 = fx::satp128(fx::mul128(a.sx, b.kx));
        let p2 = fx::satp128(fx::mul128(a.kx, b.sy));
        fx::sat128(fx::tdiv128(p1 + p2, SCALE as i128))
    };
    let sy = {
        let p1 = fx::satp128(fx::mul128(a.ky, b.kx));
        let p2 = fx::satp128(fx::mul128(a.sy, b.sy));
        fx::sat128(fx::tdiv128(p1 + p2, SCALE as i128))
    };
    let tx = {
        let p1 = fx::satp128(fx::mul128(a.sx, b.tx));
        let p2 = fx::satp128(fx::mul128(a.kx, b.ty));
        let s = fx::tdiv128(p1 + p2, SCALE as i128);
        fx::sat128(s + a.tx as i128)
    };
    let ty = {
        let p1 = fx::satp128(fx::mul128(a.ky, b.tx));
        let p2 = fx::satp128(fx::mul128(a.sy, b.ty));
        let s = fx::tdiv128(p1 + p2, SCALE as i128);
        fx::sat128(s + a.ty as i128)
    };
    Transform { sx, kx, ky, sy, tx, ty }
}

/// Unions and intersections of well-formed boxes are well-formed; mapped and
/// inflated (by a non-negative amount) boxes are well-formed.
pub proof fn lemma_box_ops_wf(a: GBox, b: GBox, t: Transform, d: int)
    ensures
        wfb(a) && wfb(b) ==> wfb(g_union(a, b)),
        wfb(a) && wfb(b) && g_inter(a, b) is Some ==> wfb(g_inter(a, b).unwrap()),
        wfb(g_map(t, a)),
        wfb(a) && d >= 0 ==> wfb(g_inflate(a, d)),
{
}

} // verus!
