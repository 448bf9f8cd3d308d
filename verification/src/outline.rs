//! The path outliner: turns a path's segment stream into an outline of
//! contours, and computes outline bounds with exact curve extrema.
//!
//! Contour splitting follows the stream: `MoveTo` closes off a non-empty
//! running contour, `Close` closes and pushes it, and a trailing non-empty
//! contour is pushed at stream end.  A `LineTo` immediately followed by
//! `Close` whose endpoint lies within one unit (squared distance under
//! `1.0`) of the contour's first point is dropped, so a duplicated closing
//! point cannot corrupt the bounds.  Coordinates are clamped into the
//! coordinate range as they enter the outline.
//!
//! When the path carries an active stroke, the outline bounds are expanded
//! by half the stroke width on every side.  This stands in for the exact
//! stroked-outline bounds (miter joins may poke slightly past it); the
//! bounding contract is approximate there by design.

use vstd::prelude::*;

use crate::curve;
use crate::curve::{axis_hi, axis_lo};
use crate::fx;
use crate::fx::{half, sat, SCALE};
use crate::geom::{g_inflate, g_union, Box2, GBox};
use crate::tree::{invisible, stroke_active, PathNode, Seg};

verus! {

/// One segment of a built contour: an on-curve point, or a curve given by
/// its control points and endpoint (start point is the previous endpoint).
#[derive(Clone, Copy, PartialEq, Eq, Structural, Debug)]
pub enum OutSeg {
    Point(i64, i64),
    /// Control point, then endpoint.
    Quad(i64, i64, i64, i64),
    /// Two control points, then endpoint.
    Cubic(i64, i64, i64, i64, i64, i64),
}

/// Model of a contour: its segments and whether it was closed.
pub ghost struct GContour {
    pub segs: Seq<OutSeg>,
    pub closed: bool,
}

/// One sub-path of an outline.
pub struct Contour {
    pub segs: Vec<OutSeg>,
    pub closed: bool,
}

impl View for Contour {
    type V = GContour;

    open spec fn view(&self) -> GContour {
        GContour { segs: self.segs@, closed: self.closed }
    }
}

/// An ordered set of contours.
pub struct Outline {
    pub contours: Vec<Contour>,
}

impl View for Outline {
    type V = Seq<GContour>;

    open spec fn view(&self) -> Seq<GContour> {
        self.contours@.map_values(|c: Contour| c@)
    }
}

/// Builder state: finished contours and the running one (always open).
pub ghost struct BState {
    pub done: Seq<GContour>,
    pub cur: Seq<OutSeg>,
}

/// First raw position a contour's segment stream holds (the first point
/// pushed, a control point when a curve somehow starts the contour).
pub open spec fn first_pos(segs: Seq<OutSeg>) -> (int, int)
    recommends
        segs.len() > 0,
{
    match segs[0] {
        OutSeg::Point(x, y) => (x as int, y as int),
        OutSeg::Quad(x1, y1, _x, _y) => (x1 as int, y1 as int),
        OutSeg::Cubic(x1, y1, _x2, _y2, _x, _y) => (x1 as int, y1 as int),
    }
}

/// The candidate endpoint lies within a squared distance of one unit of the
/// contour's first point.
pub open spec fn near_first(segs: Seq<OutSeg>, sx: int, sy: int) -> bool
    recommends
        segs.len() > 0,
{
    let f = first_pos(segs);
    (sat(f.0) - sx) * (sat(f.0) - sx) + (sat(f.1) - sy) * (sat(f.1) - sy) < SCALE as int
        * SCALE as int
}

/// Append the running contour to the finished ones if it is non-empty.
pub open spec fn push_open(st: BState) -> Seq<GContour> {
    if st.cur.len() > 0 {
        st.done.push(GContour { segs: st.cur, closed: false })
    } else {
        st.done
    }
}

/// One step of the outline builder.  `next_close` reports whether the
/// following stream segment is `Close`.
pub open spec fn build_step(st: BState, s: Seg, next_close: bool) -> BState {
    match s {
        Seg::MoveTo(x, y) => BState {
            done: push_open(st),
            cur: seq![OutSeg::Point(sat(x as int) as i64, sat(y as int) as i64)],
        },
        Seg::LineTo(x, y) => {
            let sx = sat(x as int);
            let sy = sat(y as int);
            if st.cur.len() > 0 && next_close && near_first(st.cur, sx, sy) {
                st
            } else {
                BState { done: st.done, cur: st.cur.push(OutSeg::Point(sx as i64, sy as i64)) }
            }
        },
        Seg::QuadTo(x1, y1, x, y) => BState {
            done: st.done,
            cur: st.cur.push(
                OutSeg::Quad(
                    sat(x1 as int) as i64,
                    sat(y1 as int) as i64,
                    sat(x as int) as i64,
                    sat(y as int) as i64,
                ),
            ),
        },
        Seg::CubicTo(x1, y1, x2, y2, x, y) => BState {
            done: st.done,
            cur: st.cur.push(
                OutSeg::Cubic(
                    sat(x1 as int) as i64,
                    sat(y1 as int) as i64,
                    sat(x2 as int) as i64,
                    sat(y2 as int) as i64,
                    sat(x as int) as i64,
                    sat(y as int) as i64,
                ),
            ),
        },
        Seg::Close => BState {
            done: if st.cur.len() > 0 {
                st.done.push(GContour { segs: st.cur, closed: true })
            } else {
                st.done
            },
            cur: Seq::empty(),
        },
    }
}

/// Builder state after consuming the first `i` stream segments.
pub open spec fn build_state(segs: Seq<Seg>, i: int) -> BState
    decreases i,
{
    if i <= 0 {
        BState { done: Seq::empty(), cur: Seq::empty() }
    } else {
        build_step(
            build_state(segs, i - 1),
            segs[i - 1],
            i < segs.len() && segs[i] is Close,
        )
    }
}

/// The contours a segment stream builds: all steps, then the trailing
/// non-empty contour.
pub open spec fn build_spec(segs: Seq<Seg>) -> Seq<GContour> {
    push_open(build_state(segs, segs.len() as int))
}

/// First position of a non-empty contour, at runtime.
fn first_pos_exec(segs: &Vec<OutSeg>) -> (r: (i64, i64))
    requires
        segs@.len() > 0,
    ensures
        (r.0 as int, r.1 as int) == first_pos(segs@),
{
    match segs[0] {
        OutSeg::Point(x, y) => (x, y),
        OutSeg::Quad(x1, y1, _x, _y) => (x1, y1),
        OutSeg::Cubic(x1, y1, _x2, _y2, _x, _y) => (x1, y1),
    }
}

/// Build the outline of a segment stream.
pub fn build_outline(data: &Vec<Seg>) -> (o: Outline)
    ensures
        o@ == build_spec(data@),
{
    let n = data.len();
    let mut done: Vec<Contour> = Vec::new();
    let mut cur: Vec<OutSeg> = Vec::new();
    for i in 0..n
        invariant
            n == data@.len(),
            done@.map_values(|c: Contour| c@) == build_state(data@, i as int).done,
            cur@ == build_state(data@, i as int).cur,
    {
        let ghost pre = build_state(data@, i as int);
        let next_close = i + 1 < n && matches!(data[i + 1], Seg::Close);
        proof {
            assert(next_close == (i + 1 < data@.len() && data@[i as int + 1] is Close));
        }
        match data[i] {
            Seg::MoveTo(x, y) => {
                if cur.len() > 0 {
                    let finished = Contour { segs: cur, closed: false };
                    proof {
                        assert(done@.push(finished)
                            .map_values(|c: Contour| c@) =~= done@.map_values(|c: Contour| c@)
                            .push(finished@));
                    }
                    done.push(finished);
                    cur = Vec::new();
                }
                cur.push(OutSeg::Point(fx::fx_sat(x), fx::fx_sat(y)));
                proof {
                    assert(cur@ =~= build_step(
                        pre,
                        data@[i as int],
                        i as int + 1 < data@.len() && data@[i as int + 1] is Close,
                    ).cur);
                }
            },
            Seg::LineTo(x, y) => {
                let sx = fx::fx_sat(x);
                let sy = fx::fx_sat(y);
                let mut drop_point = false;
                if cur.len() > 0 && next_close {
                    let f = first_pos_exec(&cur);
                    let fsx = fx::fx_sat(f.0);
                    let fsy = fx::fx_sat(f.1);
                    let dx = (fsx as i128) - (sx as i128);
                    let dy = (fsy as i128) - (sy as i128);
                    proof {
                        fx::lemma_mul_bound(
                            dx as int,
                            dx as int,
                            0x8000_0000_0000,
                            0x8000_0000_0000,
                        );
                        fx::lemma_mul_bound(
                            dy as int,
                            dy as int,
                            0x8000_0000_0000,
                            0x8000_0000_0000,
                        );
                    }
                    drop_point = dx * dx + dy * dy < (SCALE as i128) * (SCALE as i128);
                }
                if !drop_point {
                    cur.push(OutSeg::Point(sx, sy));
                }
            },
            Seg::QuadTo(x1, y1, x, y) => {
                cur.push(
                    OutSeg::Quad(fx::fx_sat(x1), fx::fx_sat(y1), fx::fx_sat(x), fx::fx_sat(y)),
                );
            },
            Seg::CubicTo(x1, y1, x2, y2, x, y) => {
                cur.push(
                    OutSeg::Cubic(
                        fx::fx_sat(x1),
                        fx::fx_sat(y1),
                        fx::fx_sat(x2),
                        fx::fx_sat(y2),
                        fx::fx_sat(x),
                        fx::fx_sat(y),
                    ),
                );
            },
            Seg::Close => {
                if cur.len() > 0 {
                    let finished = Contour { segs: cur, closed: true };
                    proof {
                        assert(done@.push(finished)
                            .map_values(|c: Contour| c@) =~= done@.map_values(|c: Contour| c@)
                            .push(finished@));
                    }
                    done.push(finished);
                    cur = Vec::new();
                }
                proof {
                    assert(cur@ =~= Seq::<OutSeg>::empty());
                }
            },
        }
    }
    if cur.len() > 0 {
        let finished = Contour { segs: cur, closed: false };
        proof {
            assert(done@.push(finished)
                .map_values(|c: Contour| c@) =~= done@.map_values(|c: Contour| c@)
                .push(finished@));
        }
        done.push(finished);
        Outline { contours: done }
    } else {
        Outline { contours: done }
    }
}

/// The segment's endpoint, clamped.
pub open spec fn seg_end(s: OutSeg) -> (int, int) {
    match s {
        OutSeg::Point(x, y) => (sat(x as int), sat(y as int)),
        OutSeg::Quad(_x1, _y1, x, y) => (sat(x as int), sat(y as int)),
        OutSeg::Cubic(_x1, _y1, _x2, _y2, x, y) => (sat(x as int), sat(y as int)),
    }
}

/// The segment's first position, clamped; a curve's start falls back to its
/// first control point when it opens a contour.
pub open spec fn seg_start(s: OutSeg) -> (int, int) {
    match s {
        OutSeg::Point(x, y) => (sat(x as int), sat(y as int)),
        OutSeg::Quad(x1, y1, _x, _y) => (sat(x1 as int), sat(y1 as int)),
        OutSeg::Cubic(x1, y1, _x2, _y2, _x, _y) => (sat(x1 as int), sat(y1 as int)),
    }
}

/// Tight box of one segment, starting from `prev`: a point is its own box;
/// a curve's box comes from the per-axis extrema, a quadratic promoted to a
/// cubic by duplicating its control point.
pub open spec fn seg_box(prev: (int, int), s: OutSeg) -> GBox {
    match s {
        OutSeg::Point(x, y) => GBox {
            x0: sat(x as int),
            y0: sat(y as int),
            x1: sat(x as int),
            y1: sat(y as int),
        },
        OutSeg::Quad(x1, y1, x, y) => GBox {
            x0: axis_lo(prev.0, sat(x1 as int), sat(x1 as int), sat(x as int)),
            y0: axis_lo(prev.1, sat(y1 as int), sat(y1 as int), sat(y as int)),
            x1: axis_hi(prev.0, sat(x1 as int), sat(x1 as int), sat(x as int)),
            y1: axis_hi(prev.1, sat(y1 as int), sat(y1 as int), sat(y as int)),
        },
        OutSeg::Cubic(x1, y1, x2, y2, x, y) => GBox {
            x0: axis_lo(prev.0, sat(x1 as int), sat(x2 as int), sat(x as int)),
            y0: axis_lo(prev.1, sat(y1 as int), sat(y2 as int), sat(y as int)),
            x1: axis_hi(prev.0, sat(x1 as int), sat(x2 as int), sat(x as int)),
            y1: axis_hi(prev.1, sat(y1 as int), sat(y2 as int), sat(y as int)),
        },
    }
}

/// Fold of a contour's segments: previous endpoint and accumulated box
/// after the first `i` segments.
pub open spec fn cfold(segs: Seq<OutSeg>, i: int) -> ((int, int), Option<GBox>)
    decreases i,
{
    if i <= 0 {
        ((0, 0), None)
    } else {
        let st = cfold(segs, i - 1);
        let prev = if i == 1 {
            seg_start(segs[0])
        } else {
            st.0
        };
        let sb = seg_box(prev, segs[i - 1]);
        let acc = match st.1 {
            None => Some(sb),
            Some(b) => Some(g_union(b, sb)),
        };
        (seg_end(segs[i - 1]), acc)
    }
}

/// Bounds of one contour (`None` only for an empty one).
pub open spec fn contour_box(c: GContour) -> Option<GBox> {
    cfold(c.segs, c.segs.len() as int).1
}

/// Fold of contour bounds over the first `i` contours.
pub open spec fn ofold(cs: Seq<GContour>, i: int) -> Option<GBox>
    decreases i,
{
    if i <= 0 {
        None
    } else {
        let acc = ofold(cs, i - 1);
        match contour_box(cs[i - 1]) {
            None => acc,
            Some(b) => match acc {
                None => Some(b),
                Some(a) => Some(g_union(a, b)),
            },
        }
    }
}

/// Bounds of a whole outline.
pub open spec fn outline_box(cs: Seq<GContour>) -> Option<GBox> {
    ofold(cs, cs.len() as int)
}

/// Bounds of one contour at runtime.
pub fn contour_bounds(c: &Contour) -> (r: Option<Box2>)
    ensures
        crate::geom::ob(r) == contour_box(c@),
{
    let n = c.segs.len();
    let mut acc: Option<Box2> = None;
    let mut prev: (i64, i64) = (0, 0);
    for i in 0..n
        invariant
            n == c.segs@.len(),
            crate::geom::ob(acc) == cfold(c.segs@, i as int).1,
            (prev.0 as int, prev.1 as int) == cfold(c.segs@, i as int).0,
    {
        let p: (i64, i64) = if i == 0 {
            match c.segs[0] {
                OutSeg::Point(x, y) => (fx::fx_sat(x), fx::fx_sat(y)),
                OutSeg::Quad(x1, y1, _x, _y) => (fx::fx_sat(x1), fx::fx_sat(y1)),
                OutSeg::Cubic(x1, y1, _x2, _y2, _x, _y) => (fx::fx_sat(x1), fx::fx_sat(y1)),
            }
        } else {
            prev
        };
        let sb: Box2 = match c.segs[i] {
            OutSeg::Point(x, y) => {
                let cx = fx::fx_sat(x);
                let cy = fx::fx_sat(y);
                Box2 { x0: cx, y0: cy, x1: cx, y1: cy }
            },
            OutSeg::Quad(x1, y1, x, y) => {
                let c1x = fx::fx_sat(x1);
                let c1y = fx::fx_sat(y1);
                let cex = fx::fx_sat(x);
                let cey = fx::fx_sat(y);
                let ex = curve::axis_extrema(p.0, c1x, c1x, cex);
                let ey = curve::axis_extrema(p.1, c1y, c1y, cey);
                Box2 { x0: ex.0, y0: ey.0, x1: ex.1, y1: ey.1 }
            },
            OutSeg::Cubic(x1, y1, x2, y2, x, y) => {
                let c1x = fx::fx_sat(x1);
                let c1y = fx::fx_sat(y1);
                let c2x = fx::fx_sat(x2);
                let c2y = fx::fx_sat(y2);
                let cex = fx::fx_sat(x);
                let cey = fx::fx_sat(y);
                let ex = curve::axis_extrema(p.0, c1x, c2x, cex);
                let ey = curve::axis_extrema(p.1, c1y, c2y, cey);
                Box2 { x0: ex.0, y0: ey.0, x1: ex.1, y1: ey.1 }
            },
        };
        acc = match acc {
            None => Some(sb),
            Some(a) => Some(crate::geom::box_union(&a, &sb)),
        };
        prev = match c.segs[i] {
            OutSeg::Point(x, y) => (fx::fx_sat(x), fx::fx_sat(y)),
            OutSeg::Quad(_x1, _y1, x, y) => (fx::fx_sat(x), fx::fx_sat(y)),
            OutSeg::Cubic(_x1, _y1, _x2, _y2, x, y) => (fx::fx_sat(x), fx::fx_sat(y)),
        };
    }
    acc
}

/// Bounds of a whole outline at runtime.
pub fn outline_bounds(o: &Outline) -> (r: Option<Box2>)
    ensures
        crate::geom::ob(r) == outline_box(o@),
{
    let n = o.contours.len();
    let mut acc: Option<Box2> = None;
    for i in 0..n
        invariant
            n == o.contours@.len(),
            crate::geom::ob(acc) == ofold(o@, i as int),
    {
        proof {
            assert(o@[i as int] == o.contours@[i as int]@);
        }
        let cb = contour_bounds(&o.contours[i]);
        acc = match (acc, cb) {
            (None, None) => None,
            (None, Some(b)) => Some(b),
            (Some(a), None) => Some(a),
            (Some(a), Some(b)) => Some(crate::geom::box_union(&a, &b)),
        };
    }
    acc
}

/// Bounds a path contributes before any transform: `None` when the path is
/// invisible or empty of outline content; otherwise the outline bounds,
/// inflated by half the stroke width when the stroke paints.
pub open spec fn path_box_a(p: PathNode) -> Option<GBox> {
    if invisible(p) {
        None
    } else {
        match outline_box(build_spec(p.data@)) {
            None => None,
            Some(b) => if stroke_active(p) {
                Some(g_inflate(b, half(sat(p.stroke.unwrap().width as int))))
            } else {
                Some(b)
            },
        }
    }
}

/// Any segment box is a well-formed box.
proof fn lemma_seg_box_wf(prev: (int, int), s: OutSeg)
    ensures
        crate::geom::wfb(seg_box(prev, s)),
{
    match s {
        OutSeg::Point(_x, _y) => {},
        OutSeg::Quad(x1, y1, x, y) => {
            curve::lemma_axis_extrema_wf(
                prev.0,
                sat(x1 as int),
                sat(x1 as int),
                sat(x as int),
            );
            curve::lemma_axis_extrema_wf(
                prev.1,
                sat(y1 as int),
                sat(y1 as int),
                sat(y as int),
            );
        },
        OutSeg::Cubic(x1, y1, x2, y2, x, y) => {
            curve::lemma_axis_extrema_wf(
                prev.0,
                sat(x1 as int),
                sat(x2 as int),
                sat(x as int),
            );
            curve::lemma_axis_extrema_wf(
                prev.1,
                sat(y1 as int),
                sat(y2 as int),
                sat(y as int),
            );
        },
    }
}

/// Contour folds only produce well-formed boxes.
proof fn lemma_cfold_wf(segs: Seq<OutSeg>, i: int)
    ensures
        match cfold(segs, i).1 {
            Some(b) => crate::geom::wfb(b),
            None => true,
        },
    decreases i,
{
    if i > 0 {
        lemma_cfold_wf(segs, i - 1);
        let st = cfold(segs, i - 1);
        let prev = if i == 1 {
            seg_start(segs[0])
        } else {
            st.0
        };
        lemma_seg_box_wf(prev, segs[i - 1]);
    }
}

/// Outline folds only produce well-formed boxes.
proof fn lemma_ofold_wf(cs: Seq<GContour>, i: int)
    ensures
        match ofold(cs, i) {
            Some(b) => crate::geom::wfb(b),
            None => true,
        },
    decreases i,
{
    if i > 0 {
        lemma_ofold_wf(cs, i - 1);
        lemma_cfold_wf(cs[i - 1].segs, cs[i - 1].segs.len() as int);
    }
}

/// A path's variant-A box is well-formed whenever the stroke width is
/// non-negative.
pub proof fn lemma_path_box_a_wf(p: PathNode)
    requires
        crate::tree::path_ok(p),
    ensures
        match path_box_a(p) {
            Some(b) => crate::geom::wfb(b),
            None => true,
        },
{
    let cs = build_spec(p.data@);
    lemma_ofold_wf(cs, cs.len() as int);
}

/// Bounds a path contributes before any transform, at runtime.
pub fn path_bounds_a(p: &PathNode) -> (r: Option<Box2>)
    ensures
        crate::geom::ob(r) == path_box_a(*p),
{
    if !crate::tree::has_active_fill(p) && !crate::tree::has_active_stroke(p) {
        return None;
    }
    let ol = build_outline(&p.data);
    match outline_bounds(&ol) {
        None => None,
        Some(b) => {
            if crate::tree::has_active_stroke(p) {
                let w = match &p.stroke {
                    Some(s) => s.width,
                    None => 0,
                };
                let hw = fx::fx_half(fx::fx_sat(w));
                Some(crate::geom::box_inflate(&b, hw))
            } else {
                Some(b)
            }
        },
    }
}

} // verus!
