use svg_bbox::bounds::{node_bbox_a, node_bbox_b};
use svg_bbox::geom::Box2;
use svg_bbox::{
    BBox, Cap, Fill, FitTo, GroupNode, ImageNode, Node, PathNode, Rect, Resvg, Scalar, Seg,
    Stroke, SubRoot, TextNode, Transform, Tree, SCALE,
};

fn u(n: i64) -> i64 {
    n * SCALE
}

fn identity() -> Transform {
    Transform { sx: SCALE, kx: 0, ky: 0, sy: SCALE, tx: 0, ty: 0 }
}

fn opaque_fill() -> Option<Fill> {
    Some(Fill { opacity: SCALE })
}

fn rect_path(x: i64, y: i64, w: i64, h: i64) -> PathNode {
    PathNode {
        data: vec![
            Seg::MoveTo(x, y),
            Seg::LineTo(x + w, y),
            Seg::LineTo(x + w, y + h),
            Seg::LineTo(x, y + h),
            Seg::Close,
        ],
        fill: opaque_fill(),
        stroke: None,
    }
}

fn tree_of(children: Vec<Node>) -> Tree {
    Tree {
        root: GroupNode { transform: identity(), children, clip_path: None, mask: None },
        view_rect: Rect { x: 0, y: 0, w: u(100), h: u(100) },
        size_w: u(100),
        size_h: u(100),
    }
}

#[test]
fn invisible_path_yields_no_bbox_in_both_variants() {
    let bare = PathNode { data: rect_path(0, 0, u(10), u(10)).data, fill: None, stroke: None };
    let scene = Resvg::new(tree_of(vec![Node::Path(bare)]), FitTo::Original);
    assert_eq!(scene.inner_bbox(), None);
    assert_eq!(scene.get_bbox(), None);
}

#[test]
fn zero_opacity_fill_and_stroke_yield_no_bbox() {
    let ghosted = PathNode {
        data: rect_path(0, 0, u(10), u(10)).data,
        fill: Some(Fill { opacity: 0 }),
        stroke: Some(Stroke { width: u(2), opacity: 0, cap: Cap::Butt }),
    };
    let scene = Resvg::new(tree_of(vec![Node::Path(ghosted)]), FitTo::Original);
    assert_eq!(scene.inner_bbox(), None);
    assert_eq!(scene.get_bbox(), None);
}

#[test]
fn rectangle_inner_bbox_is_exact() {
    let scene = Resvg::new(
        tree_of(vec![Node::Path(rect_path(u(3), u(4), u(10), u(20)))]),
        FitTo::Original,
    );
    let b = scene.inner_bbox().unwrap();
    assert_eq!(b.x, Scalar::Num(u(3)));
    assert_eq!(b.y, Scalar::Num(u(4)));
    assert_eq!(b.width, Scalar::Num(u(10)));
    assert_eq!(b.height, Scalar::Num(u(20)));
}

#[test]
fn rectangle_get_bbox_is_exact() {
    let scene = Resvg::new(
        tree_of(vec![Node::Path(rect_path(u(3), u(4), u(10), u(20)))]),
        FitTo::Original,
    );
    let b = scene.get_bbox().unwrap();
    assert_eq!(b.x, Scalar::Num(u(3)));
    assert_eq!(b.y, Scalar::Num(u(4)));
    assert_eq!(b.width, Scalar::Num(u(10)));
    assert_eq!(b.height, Scalar::Num(u(20)));
}

#[test]
fn stroked_point_gives_square_of_stroke_width() {
    let dot = PathNode {
        data: vec![Seg::MoveTo(u(5), u(5))],
        fill: None,
        stroke: Some(Stroke { width: u(2), opacity: SCALE, cap: Cap::Round }),
    };
    let scene = Resvg::new(tree_of(vec![Node::Path(dot)]), FitTo::Original);
    let b = scene.inner_bbox().unwrap();
    assert_eq!(b.x, Scalar::Num(u(4)));
    assert_eq!(b.y, Scalar::Num(u(4)));
    assert_eq!(b.width, Scalar::Num(u(2)));
    assert_eq!(b.height, Scalar::Num(u(2)));
}

#[test]
fn group_covers_two_disjoint_children() {
    let g = GroupNode {
        transform: identity(),
        children: vec![
            Node::Path(rect_path(0, 0, u(10), u(10))),
            Node::Path(rect_path(u(20), u(20), u(10), u(10))),
        ],
        clip_path: None,
        mask: None,
    };
    let scene = Resvg::new(tree_of(vec![Node::Group(g)]), FitTo::Original);
    let b = scene.inner_bbox().unwrap();
    assert_eq!(b.x, Scalar::Num(0));
    assert_eq!(b.y, Scalar::Num(0));
    assert_eq!(b.width, Scalar::Num(u(30)));
    assert_eq!(b.height, Scalar::Num(u(30)));
}

#[test]
fn group_content_outside_clip_is_absent() {
    let g = GroupNode {
        transform: identity(),
        children: vec![Node::Path(rect_path(u(50), u(50), u(10), u(10)))],
        clip_path: Some(SubRoot { children: vec![Node::Path(rect_path(0, 0, u(5), u(5)))] }),
        mask: None,
    };
    let scene = Resvg::new(tree_of(vec![Node::Group(g)]), FitTo::Original);
    assert_eq!(scene.inner_bbox(), None);
}

#[test]
fn mask_first_child_clips_when_no_clip_path() {
    let g = GroupNode {
        transform: identity(),
        children: vec![Node::Path(rect_path(0, 0, u(20), u(20)))],
        clip_path: None,
        mask: Some(SubRoot { children: vec![Node::Path(rect_path(0, 0, u(10), u(10)))] }),
    };
    let scene = Resvg::new(tree_of(vec![Node::Group(g)]), FitTo::Original);
    let b = scene.inner_bbox().unwrap();
    assert_eq!(b.width, Scalar::Num(u(10)));
    assert_eq!(b.height, Scalar::Num(u(10)));
}

#[test]
fn get_bbox_twice_is_identical() {
    let scene = Resvg::new(
        tree_of(vec![
            Node::Path(rect_path(u(1), u(2), u(3), u(4))),
            Node::Path(rect_path(u(7), u(8), u(9), u(10))),
        ]),
        FitTo::Original,
    );
    let first = scene.get_bbox();
    let second = scene.get_bbox();
    assert_eq!(first, second);
    assert!(first.is_some());
}

#[test]
fn cubic_extremum_exceeds_endpoints_exactly() {
    // From (0,0) to (0,10) bulging right: the x extremum is 7.5 units at the
    // curve's midpoint, beyond both endpoints.
    let curved = PathNode {
        data: vec![
            Seg::MoveTo(0, 0),
            Seg::CubicTo(u(10), 0, u(10), u(10), 0, u(10)),
        ],
        fill: opaque_fill(),
        stroke: None,
    };
    let scene = Resvg::new(tree_of(vec![Node::Path(curved)]), FitTo::Original);
    let b = scene.get_bbox().unwrap();
    assert_eq!(b.x, Scalar::Num(0));
    assert_eq!(b.y, Scalar::Num(0));
    assert_eq!(b.width, Scalar::Num(u(15) / 2));
    assert_eq!(b.height, Scalar::Num(u(10)));
}

#[test]
fn quadratic_is_promoted_with_duplicated_control() {
    // A quadratic from (0,0) to (10,0) with control (5,10): under the
    // duplicated-control promotion the y control values are (0,10,10,0),
    // whose extremum at the midpoint is 7.5.
    let curved = PathNode {
        data: vec![Seg::MoveTo(0, 0), Seg::QuadTo(u(5), u(10), u(10), 0)],
        fill: opaque_fill(),
        stroke: None,
    };
    let scene = Resvg::new(tree_of(vec![Node::Path(curved)]), FitTo::Original);
    let b = scene.get_bbox().unwrap();
    assert_eq!(b.width, Scalar::Num(u(10)));
    assert_eq!(b.height, Scalar::Num(u(15) / 2));
}

#[test]
fn line_to_near_first_point_before_close_is_dropped() {
    // The final LineTo lands within one unit of the start point (but
    // outside the box so far) and is followed by Close: it must be dropped
    // and not widen the bounds.
    let path = PathNode {
        data: vec![
            Seg::MoveTo(0, 0),
            Seg::LineTo(u(10), 0),
            Seg::LineTo(u(10), u(10)),
            Seg::LineTo(0, u(10)),
            Seg::LineTo(-SCALE / 2, -SCALE / 2),
            Seg::Close,
        ],
        fill: opaque_fill(),
        stroke: None,
    };
    let scene = Resvg::new(tree_of(vec![Node::Path(path)]), FitTo::Original);
    let b = scene.inner_bbox().unwrap();
    assert_eq!(b.width, Scalar::Num(u(10)));
    assert_eq!(b.height, Scalar::Num(u(10)));
}

#[test]
fn stroke_width_scales_with_group_transform_in_get_bbox() {
    let line = PathNode {
        data: vec![Seg::MoveTo(0, 0), Seg::LineTo(u(10), 0)],
        fill: None,
        stroke: Some(Stroke { width: u(2), opacity: SCALE, cap: Cap::Butt }),
    };
    let scaled = GroupNode {
        transform: Transform { sx: 2 * SCALE, kx: 0, ky: 0, sy: 2 * SCALE, tx: 0, ty: 0 },
        children: vec![Node::Path(line)],
        clip_path: None,
        mask: None,
    };
    let scene = Resvg::new(tree_of(vec![Node::Group(scaled)]), FitTo::Original);
    let b = scene.get_bbox().unwrap();
    // Scaled endpoints (0,0)..(20,0), inflated by 2 * 2 / 2 = 2 units.
    assert_eq!(b.x, Scalar::Num(-u(2)));
    assert_eq!(b.y, Scalar::Num(-u(2)));
    assert_eq!(b.width, Scalar::Num(u(24)));
    assert_eq!(b.height, Scalar::Num(u(4)));
}

#[test]
fn image_view_rectangle_bounds() {
    let img = ImageNode { view: Rect { x: u(2), y: u(3), w: u(4), h: u(5) } };
    let scene = Resvg::new(tree_of(vec![Node::Image(img)]), FitTo::Original);
    let b = scene.inner_bbox().unwrap();
    assert_eq!(b.x, Scalar::Num(u(2)));
    assert_eq!(b.y, Scalar::Num(u(3)));
    assert_eq!(b.width, Scalar::Num(u(4)));
    assert_eq!(b.height, Scalar::Num(u(5)));
}

#[test]
fn text_counts_only_with_precomputed_box_and_only_in_get_bbox() {
    let text = TextNode { bounding_box: Some(Rect { x: u(1), y: u(1), w: u(6), h: u(2) }) };
    let scene = Resvg::new(tree_of(vec![Node::Text(text)]), FitTo::Original);
    assert_eq!(scene.inner_bbox(), None);
    let b = scene.get_bbox().unwrap();
    assert_eq!(b.width, Scalar::Num(u(6)));
    assert_eq!(b.height, Scalar::Num(u(2)));

    let bare = TextNode { bounding_box: None };
    let scene2 = Resvg::new(tree_of(vec![Node::Text(bare)]), FitTo::Original);
    assert_eq!(scene2.get_bbox(), None);
}

#[test]
fn empty_tree_reports_nothing() {
    let scene = Resvg::new(tree_of(vec![]), FitTo::Original);
    assert_eq!(scene.inner_bbox(), None);
    assert_eq!(scene.get_bbox(), None);
}

#[test]
fn inner_bbox_clamps_to_view_rectangle() {
    // Content pokes out of the declared view rectangle: the top-level clip
    // trims it.
    let mut t = tree_of(vec![Node::Path(rect_path(u(90), u(90), u(30), u(30)))]);
    t.view_rect = Rect { x: 0, y: 0, w: u(100), h: u(100) };
    let scene = Resvg::new(t, FitTo::Original);
    let b = scene.inner_bbox().unwrap();
    assert_eq!(b.x, Scalar::Num(u(90)));
    assert_eq!(b.width, Scalar::Num(u(10)));
}

#[test]
fn inner_bbox_rounds_outward_to_whole_units() {
    let half_unit = SCALE / 2;
    let p = rect_path(half_unit, half_unit, u(2), u(2));
    let scene = Resvg::new(tree_of(vec![Node::Path(p)]), FitTo::Original);
    let b = scene.inner_bbox().unwrap();
    assert_eq!(b.x, Scalar::Num(0));
    assert_eq!(b.y, Scalar::Num(0));
    assert_eq!(b.width, Scalar::Num(u(3)));
    assert_eq!(b.height, Scalar::Num(u(3)));
}

#[test]
fn node_level_variants_agree_on_plain_rectangle() {
    let n = Node::Path(rect_path(u(1), u(1), u(4), u(4)));
    let vb = Box2 { x0: 0, y0: 0, x1: u(100), y1: u(100) };
    let a = node_bbox_a(&n, &vb).unwrap();
    let b = node_bbox_b(&n, &identity()).unwrap();
    assert_eq!(a, b);
    assert_eq!(a, Box2 { x0: u(1), y0: u(1), x1: u(5), y1: u(5) });
}

#[test]
fn bbox_from_raw_builds_finite_fields() {
    let b = BBox::from_raw(u(1), u(2), u(3), u(4));
    assert_eq!(b.x, Scalar::Num(u(1)));
    assert_eq!(b.height, Scalar::Num(u(4)));
}
