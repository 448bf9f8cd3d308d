//! Laws the library guarantees, stated and proved over the same spec
//! functions the public contracts use.

use vstd::prelude::*;

use crate::bounds::{clip_sel, fold_a, node_box_a, node_box_b};
use crate::crop::{crop_spec, pad_of, resolve_fit, valid_bbox, FitTo, GCrop};
use crate::fx::{half, imax, satp, tdiv, SCALE};
use crate::geom::{g_inter, g_map, g_union, tf_x, tf_y, wfb, BBox, GBox, Scalar, Transform};
use crate::scene::get_bbox_spec;
use crate::scene::Resvg;
use crate::tree::{invisible, GroupNode, Node, PathNode, Tree};

verus! {

/// The identity transform maps every well-formed box to itself.
proof fn lemma_map_identity(b: GBox)
    requires
        wfb(b),
    ensures
        g_map(Transform::identity_spec(), b) == b,
{
    lemma_tf_identity(b.x0, b.y0);
    lemma_tf_identity(b.x0, b.y1);
    lemma_tf_identity(b.x1, b.y0);
    lemma_tf_identity(b.x1, b.y1);
}

/// The identity transform maps every in-range point to itself.
proof fn lemma_tf_identity(x: int, y: int)
    requires
        crate::fx::fits(x),
        crate::fx::fits(y),
    ensures
        tf_x(Transform::identity_spec(), x, y) == x,
        tf_y(Transform::identity_spec(), x, y) == y,
{
    assert(satp(SCALE as int * x) == SCALE as int * x);
    assert(satp(0 * x) == 0);
    assert(satp(0 * y) == 0);
    assert(satp(SCALE as int * y) == SCALE as int * y);
    assert(tdiv(SCALE as int * x, SCALE as int) == x) by {
        if x >= 0 {
            assert((SCALE as int * x) / SCALE as int == x) by (nonlinear_arith)
                requires
                    x >= 0,
            ;
        } else {
            assert((SCALE as int * (-x)) / SCALE as int == -x) by (nonlinear_arith)
                requires
                    -x >= 0,
            ;
        }
    }
    assert(tdiv(SCALE as int * y, SCALE as int) == y) by {
        if y >= 0 {
            assert((SCALE as int * y) / SCALE as int == y) by (nonlinear_arith)
                requires
                    y >= 0,
            ;
        } else {
            assert((SCALE as int * (-y)) / SCALE as int == -y) by (nonlinear_arith)
                requires
                    -y >= 0,
            ;
        }
    }
}

/// A path that paints nothing (no fill and no stroke, or zero opacity on
/// both) contributes no bounding box in either variant.
pub proof fn lemma_invisible_path_absent(p: PathNode, vb: GBox, ts: Transform)
    requires
        invisible(p),
    ensures
        node_box_a(Node::Path(p), vb) is None,
        node_box_b(Node::Path(p), ts) is None,
{
}

/// A group with no clip-path and no mask, carrying the identity transform,
/// whose two children contribute boxes lying (strictly) inside the viewbox,
/// returns exactly the minimal box covering both children.
pub proof fn lemma_group_covers_two_children(g: GroupNode, vb: GBox, b1: GBox, b2: GBox)
    requires
        g.clip_path is None,
        g.mask is None,
        g.transform == Transform::identity_spec(),
        g.children@.len() == 2,
        node_box_a(g.children@[0], vb) == Some(b1),
        node_box_a(g.children@[1], vb) == Some(b2),
        g_inter(b1, vb) == Some(b1),
        g_inter(b2, vb) == Some(b2),
        wfb(b1),
        wfb(b2),
        wfb(vb),
    ensures
        node_box_a(Node::Group(g), vb) == Some(g_union(b1, b2)),
{
    reveal_with_fuel(fold_a, 3);
    assert(fold_a(g.children@, vb, vb, 1) == Some(b1));
    assert(fold_a(g.children@, vb, vb, 2) == Some(g_union(b2, b1)));
    assert(g_inter(g_union(b2, b1), vb) == Some(g_union(b2, b1)));
    lemma_map_identity(g_union(b2, b1));
    assert(g_union(b2, b1) == g_union(b1, b2));
}

/// Every prefix of a group's children folds to nothing when each child's
/// box misses the clip region.
proof fn lemma_fold_all_clipped_out(children: Seq<Node>, clip: GBox, vb: GBox, i: int)
    requires
        forall|j: int|
            0 <= j < children.len() ==> (#[trigger] node_box_a(children[j], vb)) is Some
                ==> g_inter(node_box_a(children[j], vb).unwrap(), clip) is None,
    ensures
        fold_a(children, clip, vb, i) is None,
    decreases i,
{
    if i > 0 && i <= children.len() {
        lemma_fold_all_clipped_out(children, clip, vb, i - 1);
        assert(fold_a(children, clip, vb, i - 1) is None);
        if node_box_a(children[i - 1], vb) is Some {
            assert(g_inter(node_box_a(children[i - 1], vb).unwrap(), clip) is None);
        }
    }
}

/// A group whose content lies entirely outside its effective clip region
/// contributes no bounding box.
pub proof fn lemma_group_outside_clip_absent(g: GroupNode, vb: GBox, cb: GBox)
    requires
        clip_sel(g) is Some,
        node_box_a(clip_sel(g).unwrap(), vb) == Some(cb),
        forall|j: int|
            0 <= j < g.children@.len() ==> (#[trigger] node_box_a(g.children@[j], vb)) is Some
                ==> g_inter(node_box_a(g.children@[j], vb).unwrap(), cb) is None,
    ensures
        node_box_a(Node::Group(g), vb) is None,
{
    lemma_fold_all_clipped_out(g.children@, cb, vb, g.children@.len() as int);
}

/// The absolute bounding box is a pure function of the tree: querying it
/// twice without mutating the tree yields identical results.
pub proof fn lemma_get_bbox_idempotent(first: Resvg, second: Resvg)
    requires
        first.tree == second.tree,
    ensures
        get_bbox_spec(first.tree) == get_bbox_spec(second.tree),
{
}

/// Cropping a valid box with zero padding, no square request and the
/// `Original` policy sets the view rectangle to exactly that box and the
/// size to its width and height.
pub proof fn lemma_crop_original_round_trip(b: BBox)
    requires
        valid_bbox(b),
    ensures
        crop_spec(b, Scalar::Num(0), false, FitTo::Original) == Some(
            GCrop {
                vx: b.x.val(),
                vy: b.y.val(),
                vw: b.width.val(),
                vh: b.height.val(),
                sw: b.width.val(),
                sh: b.height.val(),
                empty: false,
            },
        ),
{
}

/// The square step yields a square of the larger dimension that covers the
/// original box.
pub proof fn lemma_square_covers(x: int, y: int, w: int, h: int)
    requires
        w > 0,
        h > 0,
    ensures
        crate::crop::squared(x, y, w, h).2 == imax(w, h),
        crate::crop::squared(x, y, w, h).3 == imax(w, h),
        crate::crop::squared(x, y, w, h).0 <= x,
        crate::crop::squared(x, y, w, h).1 <= y,
        crate::crop::squared(x, y, w, h).0 + crate::crop::squared(x, y, w, h).2 >= x + w,
        crate::crop::squared(x, y, w, h).1 + crate::crop::squared(x, y, w, h).3 >= y + h,
{
    if w < h {
        assert(0 <= half(h - w) <= h - w);
    } else if h < w {
        assert(0 <= half(w - h) <= w - h);
    }
}

/// When the fit-to policy resolves but padding eats the whole content area
/// on either axis, the crop yields the one-unit placeholder just outside
/// the source box, flagged empty.
pub proof fn lemma_crop_degenerate(b: BBox, padding: Scalar, fit: FitTo)
    requires
        valid_bbox(b),
        !(fit is Original),
        resolve_fit(fit, b.width.val(), b.height.val()) is Some,
        ({
            let t = resolve_fit(fit, b.width.val(), b.height.val()).unwrap();
            imax(t.0 - 2 * pad_of(padding), 0) < SCALE as int || imax(
                t.1 - 2 * pad_of(padding),
                0,
            ) < SCALE as int
        }),
    ensures
        crop_spec(b, padding, false, fit) == Some(
            GCrop {
                vx: b.x.val() + b.width.val(),
                vy: b.y.val() + b.height.val(),
                vw: SCALE as int,
                vh: SCALE as int,
                sw: SCALE as int,
                sh: SCALE as int,
                empty: true,
            },
        ),
{
}

/// A returned inner bounding box always has numeric fields and
/// non-negative width and height: the "no content yet" accumulator can
/// never leak out as a nonsense box.
pub proof fn lemma_inner_bbox_sound(t: Tree)
    requires
        crate::tree::children_ok(t.root.children@),
        t.view_rect.w >= 0,
        t.view_rect.h >= 0,
    ensures
        match crate::scene::inner_bbox_spec(t) {
            Some(bb) => bb.x is Num && bb.y is Num && bb.width is Num && bb.height is Num
                && bb.width.val() >= 0 && bb.height.val() >= 0,
            None => true,
        },
{
    let vr = crate::geom::g_rect(t.view_rect);
    let vb = crate::scene::tree_viewbox(t);
    crate::fx::lemma_round_unit_bounds(crate::fx::sat(t.size_w as int));
    crate::fx::lemma_round_unit_bounds(crate::fx::sat(t.size_h as int));
    crate::bounds::lemma_fold_a_wf(t.root.children@, vr, vb, t.root.children@.len() as int);
    match fold_a(t.root.children@, vr, vb, t.root.children@.len() as int) {
        Some(b) => {
            crate::fx::lemma_floor_ceil_bracket(crate::fx::sat(b.x0));
            crate::fx::lemma_floor_ceil_bracket(crate::fx::sat(b.y0));
            crate::fx::lemma_floor_ceil_bracket(crate::fx::sat(b.x1));
            crate::fx::lemma_floor_ceil_bracket(crate::fx::sat(b.y1));
        },
        None => {},
    }
}

/// A returned absolute bounding box always has numeric fields and
/// non-negative width and height.
pub proof fn lemma_get_bbox_sound(t: Tree)
    requires
        crate::tree::children_ok(t.root.children@),
    ensures
        match get_bbox_spec(t) {
            Some(bb) => bb.x is Num && bb.y is Num && bb.width is Num && bb.height is Num
                && bb.width.val() >= 0 && bb.height.val() >= 0,
            None => true,
        },
{
    crate::bounds::lemma_fold_b_wf(
        t.root.children@,
        t.root.transform,
        t.root.children@.len() as int,
    );
}

/// A crop that does not collapse yields a view rectangle with strictly
/// positive width and height, so it can always stand in for the tree's
/// non-degenerate view rectangle.
pub proof fn lemma_crop_view_positive(b: BBox, padding: Scalar, square: bool, fit: FitTo)
    ensures
        match crop_spec(b, padding, square, fit) {
            Some(c) => !c.empty ==> c.vw > 0 && c.vh > 0,
            None => true,
        },
{
    if valid_bbox(b) {
        let q = if square {
            crate::crop::squared(b.x.val(), b.y.val(), b.width.val(), b.height.val())
        } else {
            (b.x.val(), b.y.val(), b.width.val(), b.height.val())
        };
        let w = q.2;
        let h = q.3;
        if !(fit is Original) && resolve_fit(fit, w, h) is Some {
            let t = resolve_fit(fit, w, h).unwrap();
            let tw = if square {
                imax(t.0, t.1)
            } else {
                t.0
            };
            let th = if square {
                imax(t.0, t.1)
            } else {
                t.1
            };
            let pad = pad_of(padding);
            let cw = imax(tw - 2 * pad, 0);
            let ch = imax(th - 2 * pad, 0);
            if cw >= SCALE as int && ch >= SCALE as int {
                assert(w * tw >= cw) by (nonlinear_arith)
                    requires
                        w >= 1,
                        tw >= cw,
                        cw >= 1,
                ;
                assert(tdiv(w * tw, cw) >= 1) by (nonlinear_arith)
                    requires
                        w * tw >= cw,
                        cw >= 1,
                ;
                assert(h * th >= ch) by (nonlinear_arith)
                    requires
                        h >= 1,
                        th >= ch,
                        ch >= 1,
                ;
                assert(tdiv(h * th, ch) >= 1) by (nonlinear_arith)
                    requires
                        h * th >= ch,
                        ch >= 1,
                ;
            }
        }
    }
}

/// Cropping with a box whose width or height is non-finite or non-positive
/// (or whose position is non-finite) is a no-op signal: the calculator
/// returns nothing and the caller leaves the tree untouched.
pub proof fn lemma_crop_invalid_noop(b: BBox, padding: Scalar, square: bool, fit: FitTo)
    requires
        !valid_bbox(b),
    ensures
        crop_spec(b, padding, square, fit) is None,
{
}

} // verus!
