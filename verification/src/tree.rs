//! The scene-tree data model: paths, groups, images and text nodes.
//!
//! A node is a tagged union; a group owns its ordered children together with
//! an optional clip-path and mask sub-tree, whose first child stands for the
//! effective clip or mask region.  All coordinates are raw fixed-point
//! values; transforms sit on groups (leaf nodes carry the identity in this
//! model, as the evaluator never reads one from them).

use vstd::prelude::*;

use crate::geom::{Rect, Transform};

verus! {

/// Stroke line-cap style.
#[derive(Clone, Copy, PartialEq, Eq, Structural, Debug)]
pub enum Cap {
    Butt,
    Round,
    Square,
}

/// A fill paint: only its opacity matters to bounding.
#[derive(Clone, Copy, PartialEq, Eq, Structural, Debug)]
pub struct Fill {
    /// Fixed-point opacity; `0` means fully transparent.
    pub opacity: i64,
}

/// A stroke: width and opacity drive bounding, the cap is carried through
/// for the renderer.
#[derive(Clone, Copy, PartialEq, Eq, Structural, Debug)]
pub struct Stroke {
    /// Fixed-point stroke width.
    pub width: i64,
    /// Fixed-point opacity; `0` means fully transparent.
    pub opacity: i64,
    pub cap: Cap,
}

/// One segment of a path's data stream.
#[derive(Clone, Copy, PartialEq, Eq, Structural, Debug)]
pub enum Seg {
    MoveTo(i64, i64),
    LineTo(i64, i64),
    /// Control point, then endpoint.
    QuadTo(i64, i64, i64, i64),
    /// Two control points, then endpoint.
    CubicTo(i64, i64, i64, i64, i64, i64),
    Close,
}

/// A path node: segment stream plus optional fill and stroke.
pub struct PathNode {
    pub data: Vec<Seg>,
    pub fill: Option<Fill>,
    pub stroke: Option<Stroke>,
}

/// The root of a clip-path or mask sub-tree.
pub struct SubRoot {
    pub children: Vec<Node>,
}

/// A group node: local transform, children, optional clip-path and mask.
pub struct GroupNode {
    pub transform: Transform,
    pub children: Vec<Node>,
    pub clip_path: Option<SubRoot>,
    pub mask: Option<SubRoot>,
}

/// An image node: only its view rectangle matters to bounding.
#[derive(Clone, Copy, PartialEq, Eq, Structural, Debug)]
pub struct ImageNode {
    pub view: Rect,
}

/// A text node: bounding is possible only when a pre-computed box was
/// supplied by the external text-to-path stage.
#[derive(Clone, Copy, PartialEq, Eq, Structural, Debug)]
pub struct TextNode {
    pub bounding_box: Option<Rect>,
}

/// A scene node.
pub enum Node {
    Path(PathNode),
    Group(GroupNode),
    Image(ImageNode),
    Text(TextNode),
}

/// A whole scene: root group, declared view rectangle and declared size.
pub struct Tree {
    pub root: GroupNode,
    /// The declared view rectangle.
    pub view_rect: Rect,
    /// Declared width, raw fixed point.
    pub size_w: i64,
    /// Declared height, raw fixed point.
    pub size_h: i64,
}

/// The path has a fill that paints.
pub open spec fn fill_active(p: PathNode) -> bool {
    match p.fill {
        Some(f) => f.opacity != 0,
        None => false,
    }
}

/// The path has a stroke that paints.
pub open spec fn stroke_active(p: PathNode) -> bool {
    match p.stroke {
        Some(s) => s.opacity != 0,
        None => false,
    }
}

/// Neither fill nor stroke paints: the path leaves no ink.
pub open spec fn invisible(p: PathNode) -> bool {
    !fill_active(p) && !stroke_active(p)
}

/// Stroke width, where present, is non-negative.
pub open spec fn path_ok(p: PathNode) -> bool {
    match p.stroke {
        Some(s) => s.width >= 0,
        None => true,
    }
}

/// The well-formedness a scene provider guarantees: stroke widths and
/// image rectangles are non-negative throughout the subtree.
pub open spec fn node_ok(n: Node) -> bool
    decreases n, 0int,
{
    match n {
        Node::Path(p) => path_ok(p),
        Node::Image(img) => img.view.w >= 0 && img.view.h >= 0,
        Node::Text(_) => true,
        Node::Group(g) => children_ok(g.children@) && (match g.clip_path {
            Some(cp) => children_ok(cp.children@),
            None => true,
        }) && (match g.mask {
            Some(m) => children_ok(m.children@),
            None => true,
        }),
    }
}

/// Every node of the sequence is well-formed.
pub open spec fn children_ok(children: Seq<Node>) -> bool
    decreases children, 1int,
{
    forall|i: int| 0 <= i < children.len() ==> node_ok(#[trigger] children[i])
}

/// Runtime test matching `fill_active`.
pub fn has_active_fill(p: &PathNode) -> (b: bool)
    ensures
        b == fill_active(*p),
{
    match &p.fill {
        Some(f) => f.opacity != 0,
        None => false,
    }
}

/// Runtime test matching `stroke_active`.
pub fn has_active_stroke(p: &PathNode) -> (b: bool)
    ensures
        b == stroke_active(*p),
{
    match &p.stroke {
        Some(s) => s.opacity != 0,
        None => false,
    }
}

} // verus!
