//! The query surface over a scene: inner and absolute bounding boxes, and
//! the crop-apply step that rewrites the tree's view rectangle and size.

use vstd::prelude::*;

use crate::bounds::{fold_a, fold_b};
use crate::crop::{compute_viewport, crop_spec, FitTo};
use crate::fx;
use crate::fx::{ceil_unit, floor_unit, imax, round_unit, sat};
use crate::geom::{g_rect, BBox, Box2, GBox, Scalar};
use crate::tree::Tree;

verus! {

/// A scene ready for bounding-box queries and cropping: the tree, the
/// caller's fit-to policy, and the skip-render flag a degenerate crop sets.
pub struct Resvg {
    pub tree: Tree,
    pub fit_to: FitTo,
    /// Set when the last crop collapsed to the placeholder: rendering
    /// should be skipped for this pass.
    pub skip_render: bool,
}

/// Rounded declared width, raw.
pub open spec fn rounded_w(t: Tree) -> int {
    round_unit(sat(t.size_w as int))
}

/// Rounded declared height, raw.
pub open spec fn rounded_h(t: Tree) -> int {
    round_unit(sat(t.size_h as int))
}

/// The viewbox groups are clamped to: the origin-anchored box of the
/// rounded declared size (clamped below at zero).
pub open spec fn tree_viewbox(t: Tree) -> GBox {
    GBox { x0: 0, y0: 0, x1: imax(rounded_w(t), 0), y1: imax(rounded_h(t), 0) }
}

/// The inner bounding box: every top-level child's variant-A box clipped
/// to the declared view rectangle, unioned, then snapped outward to whole
/// units (floor the min corner, ceil the max corner).
pub open spec fn inner_bbox_spec(t: Tree) -> Option<BBox> {
    match fold_a(
        t.root.children@,
        g_rect(t.view_rect),
        tree_viewbox(t),
        t.root.children@.len() as int,
    ) {
        None => None,
        Some(b) => {
            let fx0 = floor_unit(sat(b.x0));
            let fy0 = floor_unit(sat(b.y0));
            let cx1 = ceil_unit(sat(b.x1));
            let cy1 = ceil_unit(sat(b.y1));
            Some(
                BBox {
                    x: Scalar::Num(fx0 as i64),
                    y: Scalar::Num(fy0 as i64),
                    width: Scalar::Num((cx1 - fx0) as i64),
                    height: Scalar::Num((cy1 - fy0) as i64),
                },
            )
        },
    }
}

/// The absolute bounding box: the variant-B union over the root's
/// children, starting from the root's own transform, as x/y/width/height.
pub open spec fn get_bbox_spec(t: Tree) -> Option<BBox> {
    match fold_b(t.root.children@, t.root.transform, t.root.children@.len() as int) {
        None => None,
        Some(b) => Some(
            BBox {
                x: Scalar::Num(b.x0 as i64),
                y: Scalar::Num(b.y0 as i64),
                width: Scalar::Num((b.x1 - b.x0) as i64),
                height: Scalar::Num((b.y1 - b.y0) as i64),
            },
        ),
    }
}

impl Resvg {
    /// Wrap a scene tree with the render configuration's fit-to policy.
    pub fn new(tree: Tree, fit_to: FitTo) -> (r: Resvg)
        ensures
            r.tree == tree,
            r.fit_to == fit_to,
            !r.skip_render,
    {
        Resvg { tree, fit_to, skip_render: false }
    }

    /// Declared width, rounded to a whole unit (raw fixed point).
    pub fn width(&self) -> (r: i64)
        ensures
            r as int == rounded_w(self.tree),
    {
        fx::fx_round(fx::fx_sat(self.tree.size_w))
    }

    /// Declared height, rounded to a whole unit (raw fixed point).
    pub fn height(&self) -> (r: i64)
        ensures
            r as int == rounded_h(self.tree),
    {
        fx::fx_round(fx::fx_sat(self.tree.size_h))
    }

    /// The maximum bounding box of all visible elements, clipped to the
    /// declared view rectangle and snapped outward to whole units; `None`
    /// when nothing is visible.
    pub fn inner_bbox(&self) -> (r: Option<BBox>)
        ensures
            r == inner_bbox_spec(self.tree),
    {
        let vr = crate::geom::rect_to_box(&self.tree.view_rect);
        let vbw = fx::fx_max(self.width(), 0);
        let vbh = fx::fx_max(self.height(), 0);
        let vb = Box2 { x0: 0, y0: 0, x1: vbw, y1: vbh };
        proof {
            assert(vb@ == tree_viewbox(self.tree));
        }
        let k = self.tree.root.children.len();
        let mut acc: Option<Box2> = None;
        for i in 0..k
            invariant
                k == self.tree.root.children@.len(),
                crate::geom::ob(acc) == fold_a(
                    self.tree.root.children@,
                    vr@,
                    vb@,
                    i as int,
                ),
                vr@ == g_rect(self.tree.view_rect),
                vb@ == tree_viewbox(self.tree),
        {
            let cbx = crate::bounds::node_bbox_a(&self.tree.root.children[i], &vb);
            let clipped: Option<Box2> = match cbx {
                Some(b) => crate::geom::box_inter(&b, &vr),
                None => None,
            };
            acc = match (acc, clipped) {
                (prev, None) => prev,
                (None, Some(c)) => Some(c),
                (Some(p), Some(c)) => Some(crate::geom::box_union(&c, &p)),
            };
        }
        match acc {
            None => None,
            Some(b) => {
                let fx0 = fx::fx_floor(fx::fx_sat(b.x0));
                let fy0 = fx::fx_floor(fx::fx_sat(b.y0));
                let cx1 = fx::fx_ceil(fx::fx_sat(b.x1));
                let cy1 = fx::fx_ceil(fx::fx_sat(b.y1));
                Some(
                    BBox {
                        x: Scalar::Num(fx0),
                        y: Scalar::Num(fy0),
                        width: Scalar::Num(cx1 - fx0),
                        height: Scalar::Num(cy1 - fy0),
                    },
                )
            },
        }
    }

    /// The maximum bounding box of all visible elements with the absolute
    /// transforms applied first, matching DOM `getBBox` semantics; `None`
    /// when nothing contributes.
    pub fn get_bbox(&self) -> (r: Option<BBox>)
        ensures
            r == get_bbox_spec(self.tree),
    {
        let rb = crate::bounds::group_bounds_b(
            &self.tree.root.children,
            &self.tree.root.transform,
        );
        match rb {
            None => None,
            Some(b) => {
                let w = ((b.x1 as i128) - (b.x0 as i128)) as i64;
                let h = ((b.y1 as i128) - (b.y0 as i128)) as i64;
                Some(
                    BBox {
                        x: Scalar::Num(b.x0),
                        y: Scalar::Num(b.y0),
                        width: Scalar::Num(w),
                        height: Scalar::Num(h),
                    },
                )
            },
        }
    }

    /// Crop the scene to a bounding box: derive the viewport for the given
    /// box, padding and square request under the configured fit-to policy,
    /// and write the view rectangle, size and skip-render flag back.  An
    /// unusable box leaves the scene untouched.
    pub fn crop_by_bbox(&mut self, bbox: &BBox, padding: Scalar, square: bool)
        ensures
            match crop_spec(*bbox, padding, square, old(self).fit_to) {
                None => *final(self) == *old(self),
                Some(c) => {
                    &&& final(self).tree.root == old(self).tree.root
                    &&& final(self).tree.view_rect.x as int == c.vx
                    &&& final(self).tree.view_rect.y as int == c.vy
                    &&& final(self).tree.view_rect.w as int == c.vw
                    &&& final(self).tree.view_rect.h as int == c.vh
                    &&& final(self).tree.size_w as int == c.sw
                    &&& final(self).tree.size_h as int == c.sh
                    &&& final(self).skip_render == c.empty
                    &&& final(self).fit_to == old(self).fit_to
                },
            },
    {
        match compute_viewport(bbox, padding, square, self.fit_to) {
            None => {},
            Some(cr) => {
                self.tree.view_rect = cr.view;
                self.tree.size_w = cr.size_w;
                self.tree.size_h = cr.size_h;
                self.skip_render = cr.empty;
            },
        }
    }
}

} // verus!
