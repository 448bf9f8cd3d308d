//! The node bounding-box evaluator, in its two variants.
//!
//! Variant A ("inner") answers what is visible within a clipped subtree: a
//! group's children are intersected with the effective clip region (the
//! clip-path's first child's box, else the mask's, else the viewbox), the
//! surviving boxes unioned, the union clamped to the viewbox, and the
//! result mapped through the group's transform.
//!
//! Variant B ("absolute") matches DOM `getBBox` semantics: every path point
//! is mapped through the accumulated absolute transform before extrema are
//! taken, which keeps stroked geometry correct under non-uniform scale; the
//! stroke half-width is then approximated from the transform's determinant.
//! Paths that paint nothing contribute nothing in either variant.

use vstd::prelude::*;

use crate::curve;
use crate::curve::{axis_hi, axis_lo};
use crate::fx;
use crate::fx::{fits, half, imax, imin, sat, satp, sqrt_floor, tdiv, SCALE};
use crate::geom::{
    g_concat, g_inflate, g_inter, g_map, g_rect, g_union, ob, tf_x, tf_y, Box2, GBox, Rect,
    Transform,
};
use crate::outline::{path_box_a, path_bounds_a};
use crate::tree::{invisible, stroke_active, GroupNode, Node, PathNode, Seg};

verus! {

broadcast use vstd::std_specs::vec::group_vec_axioms;

/// The node that stands for a group's effective clip region: the
/// clip-path's first child when there is one, else the mask's first child,
/// else nothing (the viewbox applies).
pub open spec fn clip_sel(g: GroupNode) -> Option<Node> {
    match g.clip_path {
        Some(cp) => if cp.children@.len() > 0 {
            Some(cp.children@[0])
        } else {
            mask_sel(g)
        },
        None => mask_sel(g),
    }
}

/// The mask's first child, if any.
pub open spec fn mask_sel(g: GroupNode) -> Option<Node> {
    match g.mask {
        Some(m) => if m.children@.len() > 0 {
            Some(m.children@[0])
        } else {
            None
        },
        None => None,
    }
}

/// Variant A box of a node, before the parent's transform is applied;
/// `vb` is the scene viewbox the evaluator clamps groups to.
pub open spec fn node_box_a(n: Node, vb: GBox) -> Option<GBox>
    decreases n, 0int,
{
    match n {
        Node::Path(p) => path_box_a(p),
        Node::Image(img) => Some(g_rect(img.view)),
        Node::Text(_) => None,
        Node::Group(g) => {
            let clip = match clip_sel(g) {
                Some(cn) => node_box_a(cn, vb),
                None => Some(vb),
            };
            match clip {
                None => None,
                Some(cb) => match fold_a(g.children@, cb, vb, g.children@.len() as int) {
                    None => None,
                    Some(u) => match g_inter(u, vb) {
                        None => None,
                        Some(inner) => Some(g_map(g.transform, inner)),
                    },
                },
            }
        },
    }
}

/// Union of the first `i` children's variant-A boxes, each intersected
/// with the clip region; children whose box or intersection is absent are
/// skipped.
pub open spec fn fold_a(children: Seq<Node>, clip: GBox, vb: GBox, i: int) -> Option<GBox>
    decreases children, i,
{
    if i <= 0 || i > children.len() {
        None
    } else {
        let prev = fold_a(children, clip, vb, i - 1);
        let clipped = match node_box_a(children[i - 1], vb) {
            Some(b) => g_inter(b, clip),
            None => None,
        };
        match clipped {
            None => prev,
            Some(c) => match prev {
                None => Some(c),
                Some(p) => Some(g_union(c, p)),
            },
        }
    }
}

/// The node standing for the clip region, at runtime.
fn clip_first(g: &GroupNode) -> (r: Option<&Node>)
    ensures
        match r {
            Some(n) => clip_sel(*g) == Some(*n),
            None => clip_sel(*g) is None,
        },
{
    if let Some(cp) = &g.clip_path {
        if cp.children.len() > 0 {
            return Some(&cp.children[0]);
        }
    }
    if let Some(m) = &g.mask {
        if m.children.len() > 0 {
            return Some(&m.children[0]);
        }
    }
    None
}

/// Variant A box of a node, at runtime.
#[verifier::loop_isolation(false)]
pub fn node_bbox_a(n: &Node, vb: &Box2) -> (r: Option<Box2>)
    ensures
        ob(r) == node_box_a(*n, vb@),
    decreases *n,
{
    match n {
        Node::Path(p) => path_bounds_a(p),
        Node::Image(img) => Some(crate::geom::rect_to_box(&img.view)),
        Node::Text(_) => None,
        Node::Group(g) => {
            let clip_box: Option<Box2> = match clip_first(g) {
                Some(cn) => node_bbox_a(cn, vb),
                None => Some(*vb),
            };
            match clip_box {
                None => None,
                Some(cb) => {
                    let k = g.children.len();
                    let mut acc: Option<Box2> = None;
                    for i in 0..k
                        invariant
                            k == g.children@.len(),
                            ob(acc) == fold_a(g.children@, cb@, vb@, i as int),
                    {
                        let cbx = node_bbox_a(&g.children[i], vb);
                        let clipped: Option<Box2> = match cbx {
                            Some(b) => crate::geom::box_inter(&b, &cb),
                            None => None,
                        };
                        acc = match (acc, clipped) {
                            (prev, None) => prev,
                            (None, Some(c)) => Some(c),
                            (Some(p), Some(c)) => Some(crate::geom::box_union(&c, &p)),
                        };
                    }
                    match acc {
                        None => None,
                        Some(u) => match crate::geom::box_inter(&u, vb) {
                            None => None,
                            Some(inner) => Some(crate::geom::box_map(&g.transform, &inner)),
                        },
                    }
                },
            }
        },
    }
}

/// Initial variant-B path state: when the stream opens with `MoveTo`, the
/// mapped first point seeds the running point and box; otherwise both start
/// at the origin.
pub open spec fn pstate0(segs: Seq<Seg>, ts: Transform) -> (int, int, GBox) {
    if segs.len() > 0 {
        match segs[0] {
            Seg::MoveTo(x, y) => {
                let mx = tf_x(ts, x as int, y as int);
                let my = tf_y(ts, x as int, y as int);
                (mx, my, GBox { x0: mx, y0: my, x1: mx, y1: my })
            },
            _ => (0, 0, GBox { x0: 0, y0: 0, x1: 0, y1: 0 }),
        }
    } else {
        (0, 0, GBox { x0: 0, y0: 0, x1: 0, y1: 0 })
    }
}

/// Extend a box to cover a point.
pub open spec fn g_cover(b: GBox, x: int, y: int) -> GBox {
    GBox { x0: imin(b.x0, x), y0: imin(b.y0, y), x1: imax(b.x1, x), y1: imax(b.y1, y) }
}

/// Variant-B path fold: running point and box after the first `i` stream
/// segments, every point mapped through `ts` before extrema are taken.
pub open spec fn pfold(segs: Seq<Seg>, ts: Transform, i: int) -> (int, int, GBox)
    decreases i,
{
    if i <= 0 {
        pstate0(segs, ts)
    } else {
        let st = pfold(segs, ts, i - 1);
        match segs[i - 1] {
            Seg::MoveTo(x, y) => {
                let nx = tf_x(ts, x as int, y as int);
                let ny = tf_y(ts, x as int, y as int);
                (nx, ny, g_cover(st.2, nx, ny))
            },
            Seg::LineTo(x, y) => {
                let nx = tf_x(ts, x as int, y as int);
                let ny = tf_y(ts, x as int, y as int);
                (nx, ny, g_cover(st.2, nx, ny))
            },
            Seg::QuadTo(x1, y1, x, y) => {
                let m1x = tf_x(ts, x1 as int, y1 as int);
                let m1y = tf_y(ts, x1 as int, y1 as int);
                let mex = tf_x(ts, x as int, y as int);
                let mey = tf_y(ts, x as int, y as int);
                let ext = GBox {
                    x0: axis_lo(st.0, m1x, m1x, mex),
                    y0: axis_lo(st.1, m1y, m1y, mey),
                    x1: axis_hi(st.0, m1x, m1x, mex),
                    y1: axis_hi(st.1, m1y, m1y, mey),
                };
                (mex, mey, g_union(st.2, ext))
            },
            Seg::CubicTo(x1, y1, x2, y2, x, y) => {
                let m1x = tf_x(ts, x1 as int, y1 as int);
                let m1y = tf_y(ts, x1 as int, y1 as int);
                let m2x = tf_x(ts, x2 as int, y2 as int);
                let m2y = tf_y(ts, x2 as int, y2 as int);
                let mex = tf_x(ts, x as int, y as int);
                let mey = tf_y(ts, x as int, y as int);
                let ext = GBox {
                    x0: axis_lo(st.0, m1x, m2x, mex),
                    y0: axis_lo(st.1, m1y, m2y, mey),
                    x1: axis_hi(st.0, m1x, m2x, mex),
                    y1: axis_hi(st.1, m1y, m2y, mey),
                };
                (mex, mey, g_union(st.2, ext))
            },
            Seg::Close => st,
        }
    }
}

/// Approximate half stroke width under a transform: half the nominal width
/// for the identity, else the width scaled by the square root of the
/// absolute determinant, halved.  A deliberate approximation.
pub open spec fn stroke_half_b(w: int, ts: Transform) -> int {
    if ts == Transform::identity_spec() {
        half(sat(w))
    } else {
        let det = satp(ts.sx as int * ts.sy as int) - satp(ts.kx as int * ts.ky as int);
        let d = if det >= 0 {
            det
        } else {
            -det
        };
        sat(tdiv(sat(w) * sqrt_floor(d), 2 * SCALE as int))
    }
}

/// Variant B box of a path under an absolute transform: `None` for an
/// empty stream or an invisible path; otherwise the mapped extrema box,
/// inflated by the approximate half stroke width when the stroke paints.
pub open spec fn path_box_b(p: PathNode, ts: Transform) -> Option<GBox> {
    if p.data@.len() == 0 {
        None
    } else if invisible(p) {
        None
    } else {
        let st = pfold(p.data@, ts, p.data@.len() as int);
        if stroke_active(p) {
            Some(g_inflate(st.2, stroke_half_b(p.stroke.unwrap().width as int, ts)))
        } else {
            Some(st.2)
        }
    }
}

/// A rectangle mapped through a transform; kept only when the mapped box
/// still has positive area.
pub open spec fn mapped_rect(r: Rect, ts: Transform) -> Option<GBox> {
    let b = g_map(ts, g_rect(r));
    if b.x0 < b.x1 && b.y0 < b.y1 {
        Some(b)
    } else {
        None
    }
}

/// Variant B box of a node under an accumulated absolute transform.
pub open spec fn node_box_b(n: Node, ts: Transform) -> Option<GBox>
    decreases n, 0int,
{
    match n {
        Node::Path(p) => path_box_b(p, ts),
        Node::Image(img) => mapped_rect(img.view, ts),
        Node::Text(t) => match t.bounding_box {
            Some(r) => mapped_rect(r, ts),
            None => None,
        },
        Node::Group(g) => fold_b(g.children@, ts, g.children@.len() as int),
    }
}

/// Union of the first `i` children's variant-B boxes; a group child
/// composes its own transform onto the accumulated one before descent.
pub open spec fn fold_b(children: Seq<Node>, ts: Transform, i: int) -> Option<GBox>
    decreases children, i,
{
    if i <= 0 || i > children.len() {
        None
    } else {
        let prev = fold_b(children, ts, i - 1);
        let cts = match children[i - 1] {
            Node::Group(cg) => g_concat(ts, cg.transform),
            _ => ts,
        };
        match node_box_b(children[i - 1], cts) {
            None => prev,
            Some(b) => match prev {
                None => Some(b),
                Some(p) => Some(g_union(p, b)),
            },
        }
    }
}

/// The stroke half-width approximation never deflates a box when the
/// nominal width is non-negative.
pub proof fn lemma_stroke_half_nonneg(w: int, ts: Transform)
    requires
        w >= 0,
    ensures
        stroke_half_b(w, ts) >= 0,
{
    if ts != Transform::identity_spec() {
        let det = satp(ts.sx as int * ts.sy as int) - satp(ts.kx as int * ts.ky as int);
        let d = if det >= 0 {
            det
        } else {
            -det
        };
        crate::fx::lemma_sqrt_floor_props(d);
        assert(sat(w) * sqrt_floor(d) >= 0) by (nonlinear_arith)
            requires
                sat(w) >= 0,
                sqrt_floor(d) >= 0,
        ;
    }
}

/// Variant-B path folds only produce well-formed boxes and in-range
/// running points.
proof fn lemma_pfold_wf(segs: Seq<Seg>, ts: Transform, i: int)
    ensures
        crate::geom::wfb(pfold(segs, ts, i).2),
        fits(pfold(segs, ts, i).0),
        fits(pfold(segs, ts, i).1),
    decreases i,
{
    if i > 0 {
        lemma_pfold_wf(segs, ts, i - 1);
        let st = pfold(segs, ts, i - 1);
        match segs[i - 1] {
            Seg::QuadTo(x1, y1, x, y) => {
                let m1x = tf_x(ts, x1 as int, y1 as int);
                let m1y = tf_y(ts, x1 as int, y1 as int);
                let mex = tf_x(ts, x as int, y as int);
                let mey = tf_y(ts, x as int, y as int);
                crate::curve::lemma_axis_extrema_wf(st.0, m1x, m1x, mex);
                crate::curve::lemma_axis_extrema_wf(st.1, m1y, m1y, mey);
            },
            Seg::CubicTo(x1, y1, x2, y2, x, y) => {
                let m1x = tf_x(ts, x1 as int, y1 as int);
                let m1y = tf_y(ts, x1 as int, y1 as int);
                let m2x = tf_x(ts, x2 as int, y2 as int);
                let m2y = tf_y(ts, x2 as int, y2 as int);
                let mex = tf_x(ts, x as int, y as int);
                let mey = tf_y(ts, x as int, y as int);
                crate::curve::lemma_axis_extrema_wf(st.0, m1x, m2x, mex);
                crate::curve::lemma_axis_extrema_wf(st.1, m1y, m2y, mey);
            },
            _ => {},
        }
    }
}

/// Variant-B results are well-formed boxes on well-formed trees.
pub proof fn lemma_node_box_b_wf(n: Node, ts: Transform)
    requires
        crate::tree::node_ok(n),
    ensures
        match node_box_b(n, ts) {
            Some(b) => crate::geom::wfb(b),
            None => true,
        },
    decreases n, 0int,
{
    match n {
        Node::Path(p) => {
            if p.data@.len() > 0 && !invisible(p) {
                lemma_pfold_wf(p.data@, ts, p.data@.len() as int);
                if stroke_active(p) {
                    lemma_stroke_half_nonneg(p.stroke.unwrap().width as int, ts);
                }
            }
        },
        Node::Image(img) => {
            crate::geom::lemma_box_ops_wf(g_rect(img.view), g_rect(img.view), ts, 0);
        },
        Node::Text(t) => {
            if t.bounding_box is Some {
                let r = t.bounding_box.unwrap();
                crate::geom::lemma_box_ops_wf(g_rect(r), g_rect(r), ts, 0);
            }
        },
        Node::Group(g) => {
            lemma_fold_b_wf(g.children@, ts, g.children@.len() as int);
        },
    }
}

/// Variant-B child folds only produce well-formed boxes.
pub proof fn lemma_fold_b_wf(children: Seq<Node>, ts: Transform, i: int)
    requires
        crate::tree::children_ok(children),
    ensures
        match fold_b(children, ts, i) {
            Some(b) => crate::geom::wfb(b),
            None => true,
        },
    decreases children, i,
{
    if i > 0 && i <= children.len() {
        lemma_fold_b_wf(children, ts, i - 1);
        let cts = match children[i - 1] {
            Node::Group(cg) => g_concat(ts, cg.transform),
            _ => ts,
        };
        assert(crate::tree::node_ok(children[i - 1]));
        lemma_node_box_b_wf(children[i - 1], cts);
    }
}

/// Variant-A results are well-formed boxes on well-formed trees and a
/// well-formed viewbox.
pub proof fn lemma_node_box_a_wf(n: Node, vb: GBox)
    requires
        crate::tree::node_ok(n),
        crate::geom::wfb(vb),
    ensures
        match node_box_a(n, vb) {
            Some(b) => crate::geom::wfb(b),
            None => true,
        },
    decreases n, 0int,
{
    match n {
        Node::Path(p) => {
            crate::outline::lemma_path_box_a_wf(p);
        },
        Node::Image(_img) => {},
        Node::Text(_t) => {},
        Node::Group(g) => {
            let clip = match clip_sel(g) {
                Some(cn) => {
                    assert(crate::tree::node_ok(cn));
                    lemma_node_box_a_wf(cn, vb);
                    node_box_a(cn, vb)
                },
                None => Some(vb),
            };
            if clip is Some && crate::geom::wfb(clip.unwrap()) {
                lemma_fold_a_wf(g.children@, clip.unwrap(), vb, g.children@.len() as int);
                match fold_a(g.children@, clip.unwrap(), vb, g.children@.len() as int) {
                    Some(u) => {
                        crate::geom::lemma_box_ops_wf(u, vb, g.transform, 0);
                        if g_inter(u, vb) is Some {
                            crate::geom::lemma_box_ops_wf(
                                g_inter(u, vb).unwrap(),
                                vb,
                                g.transform,
                                0,
                            );
                        }
                    },
                    None => {},
                }
            }
        },
    }
}

/// Variant-A child folds only produce well-formed boxes.
pub proof fn lemma_fold_a_wf(children: Seq<Node>, clip: GBox, vb: GBox, i: int)
    requires
        crate::tree::children_ok(children),
        crate::geom::wfb(clip),
        crate::geom::wfb(vb),
    ensures
        match fold_a(children, clip, vb, i) {
            Some(b) => crate::geom::wfb(b),
            None => true,
        },
    decreases children, i,
{
    if i > 0 && i <= children.len() {
        lemma_fold_a_wf(children, clip, vb, i - 1);
        assert(crate::tree::node_ok(children[i - 1]));
        lemma_node_box_a_wf(children[i - 1], vb);
        match node_box_a(children[i - 1], vb) {
            Some(b) => {
                crate::geom::lemma_box_ops_wf(b, clip, Transform::identity_spec(), 0);
            },
            None => {},
        }
    }
}

/// Approximate half stroke width, at runtime.
pub fn stroke_half_exec(w: i64, ts: &Transform) -> (r: i64)
    ensures
        r as int == stroke_half_b(w as int, *ts),
        fits(r as int),
{
    if ts.is_identity() {
        let h = fx::fx_half(fx::fx_sat(w));
        proof {
            assert(fits(h as int));
        }
        h
    } else {
        let p1 = fx::satp128(fx::mul128(ts.sx, ts.sy));
        let p2 = fx::satp128(fx::mul128(ts.kx, ts.ky));
        let det: i128 = {
            let d = p1 - p2;
            if d >= 0 {
                d
            } else {
                -d
            }
        };
        let root = fx::isqrt(det as u128);
        proof {
            assert((det as u128) as int == det as int);
            fx::lemma_sqrt_unique(
                det as int,
                root as int,
                choose|q: int| crate::fx::is_sqrt(det as int, q),
            );
            assert((root as int) * (root as int) <= det as int);
            assert((root as int) < 0x40_0000_0000_0000) by (nonlinear_arith)
                requires
                    (root as int) * (root as int) <= det as int,
                    (det as int) < 0x40_0000_0000_0000 * 0x40_0000_0000_0000,
                    root as int >= 0,
            ;
            fx::lemma_mul_bound(
                sat(w as int),
                root as int,
                0x4000_0000_0000,
                0x40_0000_0000_0000,
            );
        }
        let ws = fx::fx_sat(w);
        let q = fx::tdiv128((ws as i128) * (root as i128), 2 * (SCALE as i128));
        fx::sat128(q)
    }
}

/// Variant B box of a path, at runtime.
pub fn path_bounds_b(p: &PathNode, ts: &Transform) -> (r: Option<Box2>)
    ensures
        ob(r) == path_box_b(*p, *ts),
{
    let n = p.data.len();
    if n == 0 {
        return None;
    }
    if !crate::tree::has_active_fill(p) && !crate::tree::has_active_stroke(p) {
        return None;
    }
    let mut prev: (i64, i64);
    let mut bx: Box2;
    match p.data[0] {
        Seg::MoveTo(x, y) => {
            let m = crate::geom::tf_point(ts, x, y);
            prev = m;
            bx = Box2 { x0: m.0, y0: m.1, x1: m.0, y1: m.1 };
        },
        _ => {
            prev = (0, 0);
            bx = Box2 { x0: 0, y0: 0, x1: 0, y1: 0 };
        },
    }
    proof {
        assert((prev.0 as int, prev.1 as int, bx@) == pstate0(p.data@, *ts));
    }
    for i in 0..n
        invariant
            n == p.data@.len(),
            n > 0,
            (prev.0 as int, prev.1 as int, bx@) == pfold(p.data@, *ts, i as int),
            fits(prev.0 as int),
            fits(prev.1 as int),
    {
        match p.data[i] {
            Seg::MoveTo(x, y) => {
                let m = crate::geom::tf_point(ts, x, y);
                bx = Box2 {
                    x0: fx::fx_min(bx.x0, m.0),
                    y0: fx::fx_min(bx.y0, m.1),
                    x1: fx::fx_max(bx.x1, m.0),
                    y1: fx::fx_max(bx.y1, m.1),
                };
                prev = m;
            },
            Seg::LineTo(x, y) => {
                let m = crate::geom::tf_point(ts, x, y);
                bx = Box2 {
                    x0: fx::fx_min(bx.x0, m.0),
                    y0: fx::fx_min(bx.y0, m.1),
                    x1: fx::fx_max(bx.x1, m.0),
                    y1: fx::fx_max(bx.y1, m.1),
                };
                prev = m;
            },
            Seg::QuadTo(x1, y1, x, y) => {
                let m1 = crate::geom::tf_point(ts, x1, y1);
                let me = crate::geom::tf_point(ts, x, y);
                let ex = curve::axis_extrema(prev.0, m1.0, m1.0, me.0);
                let ey = curve::axis_extrema(prev.1, m1.1, m1.1, me.1);
                let ext = Box2 { x0: ex.0, y0: ey.0, x1: ex.1, y1: ey.1 };
                bx = crate::geom::box_union(&bx, &ext);
                prev = me;
            },
            Seg::CubicTo(x1, y1, x2, y2, x, y) => {
                let m1 = crate::geom::tf_point(ts, x1, y1);
                let m2 = crate::geom::tf_point(ts, x2, y2);
                let me = crate::geom::tf_point(ts, x, y);
                let ex = curve::axis_extrema(prev.0, m1.0, m2.0, me.0);
                let ey = curve::axis_extrema(prev.1, m1.1, m2.1, me.1);
                let ext = Box2 { x0: ex.0, y0: ey.0, x1: ex.1, y1: ey.1 };
                bx = crate::geom::box_union(&bx, &ext);
                prev = me;
            },
            Seg::Close => {},
        }
    }
    if crate::tree::has_active_stroke(p) {
        let w = match &p.stroke {
            Some(s) => s.width,
            None => 0,
        };
        let hw = stroke_half_exec(w, ts);
        Some(crate::geom::box_inflate(&bx, hw))
    } else {
        Some(bx)
    }
}

/// A rectangle mapped through a transform, at runtime.
pub fn mapped_rect_exec(r: &Rect, ts: &Transform) -> (o: Option<Box2>)
    ensures
        ob(o) == mapped_rect(*r, *ts),
{
    let rb = crate::geom::rect_to_box(r);
    let b = crate::geom::box_map(ts, &rb);
    if b.x0 < b.x1 && b.y0 < b.y1 {
        Some(b)
    } else {
        None
    }
}

/// Variant B box of a node, at runtime.
pub fn node_bbox_b(n: &Node, ts: &Transform) -> (r: Option<Box2>)
    ensures
        ob(r) == node_box_b(*n, *ts),
    decreases *n,
{
    match n {
        Node::Path(p) => path_bounds_b(p, ts),
        Node::Image(img) => mapped_rect_exec(&img.view, ts),
        Node::Text(t) => match &t.bounding_box {
            Some(r0) => mapped_rect_exec(r0, ts),
            None => None,
        },
        Node::Group(g) => group_bounds_b(&g.children, ts),
    }
}

/// Variant B union over a group's (or the root's) children, at runtime.
pub fn group_bounds_b(children: &Vec<Node>, ts: &Transform) -> (r: Option<Box2>)
    ensures
        ob(r) == fold_b(children@, *ts, children@.len() as int),
    decreases children@,
{
    let k = children.len();
    let mut acc: Option<Box2> = None;
    for i in 0..k
        invariant
            k == children@.len(),
            ob(acc) == fold_b(children@, *ts, i as int),
    {
        let child = &children[i];
        let cts: Transform = match child {
            Node::Group(cg) => crate::geom::tf_concat(ts, &cg.transform),
            _ => *ts,
        };
        let cb = node_bbox_b(child, &cts);
        acc = match (acc, cb) {
            (prev, None) => prev,
            (None, Some(b)) => Some(b),
            (Some(p), Some(b)) => Some(crate::geom::box_union(&p, &b)),
        };
    }
    acc
}

} // verus!
