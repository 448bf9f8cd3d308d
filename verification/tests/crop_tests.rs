use svg_bbox::crop::compute_viewport;
use svg_bbox::{
    BBox, Fill, FitTo, GroupNode, Node, PathNode, Rect, Resvg, Scalar, Seg, Tree, SCALE,
};

fn u(n: i64) -> i64 {
    n * SCALE
}

fn small_tree() -> Tree {
    let p = PathNode {
        data: vec![
            Seg::MoveTo(0, 0),
            Seg::LineTo(u(10), 0),
            Seg::LineTo(u(10), u(10)),
            Seg::LineTo(0, u(10)),
            Seg::Close,
        ],
        fill: Some(Fill { opacity: SCALE }),
        stroke: None,
    };
    Tree {
        root: GroupNode {
            transform: svg_bbox::Transform { sx: SCALE, kx: 0, ky: 0, sy: SCALE, tx: 0, ty: 0 },
            children: vec![Node::Path(p)],
            clip_path: None,
            mask: None,
        },
        view_rect: Rect { x: 0, y: 0, w: u(100), h: u(100) },
        size_w: u(100),
        size_h: u(100),
    }
}

#[test]
fn crop_round_trip_with_original_policy() {
    let mut scene = Resvg::new(small_tree(), FitTo::Original);
    let b = BBox::from_raw(u(3), u(4), u(10), u(20));
    scene.crop_by_bbox(&b, Scalar::Num(0), false);
    assert_eq!(scene.tree.view_rect, Rect { x: u(3), y: u(4), w: u(10), h: u(20) });
    assert_eq!(scene.tree.size_w, u(10));
    assert_eq!(scene.tree.size_h, u(20));
    assert!(!scene.skip_render);
}

#[test]
fn crop_after_inner_bbox_round_trips() {
    let mut scene = Resvg::new(small_tree(), FitTo::Original);
    let b = scene.inner_bbox().unwrap();
    scene.crop_by_bbox(&b, Scalar::Num(0), false);
    assert_eq!(scene.tree.view_rect, Rect { x: 0, y: 0, w: u(10), h: u(10) });
    assert_eq!(scene.tree.size_w, u(10));
    assert_eq!(scene.tree.size_h, u(10));
}

#[test]
fn square_crop_expands_and_recenters() {
    let b = BBox::from_raw(0, 0, u(10), u(20));
    let cr = compute_viewport(&b, Scalar::Num(0), true, FitTo::Original).unwrap();
    assert_eq!(cr.view, Rect { x: -u(5), y: 0, w: u(20), h: u(20) });
    assert_eq!(cr.size_w, u(20));
    assert_eq!(cr.size_h, u(20));
    assert!(!cr.empty);
}

#[test]
fn padding_that_eats_the_content_yields_empty_placeholder() {
    let b = BBox::from_raw(0, 0, u(10), u(20));
    let cr = compute_viewport(&b, Scalar::Num(u(5)), false, FitTo::Width(10)).unwrap();
    assert!(cr.empty);
    // One-unit view placed just outside the source box.
    assert_eq!(cr.view, Rect { x: u(10), y: u(20), w: SCALE, h: SCALE });
    assert_eq!(cr.size_w, SCALE);
    assert_eq!(cr.size_h, SCALE);
}

#[test]
fn degenerate_crop_sets_skip_render() {
    let mut scene = Resvg::new(small_tree(), FitTo::Width(10));
    let b = BBox::from_raw(0, 0, u(10), u(20));
    scene.crop_by_bbox(&b, Scalar::Num(u(5)), false);
    assert!(scene.skip_render);
    assert_eq!(scene.tree.view_rect.w, SCALE);
    assert_eq!(scene.tree.view_rect.h, SCALE);
}

#[test]
fn non_finite_bbox_is_a_no_op() {
    let mut scene = Resvg::new(small_tree(), FitTo::Original);
    let before_view = scene.tree.view_rect;
    let (before_w, before_h) = (scene.tree.size_w, scene.tree.size_h);
    let b = BBox {
        x: Scalar::Num(0),
        y: Scalar::Num(0),
        width: Scalar::NonFinite,
        height: Scalar::Num(u(10)),
    };
    scene.crop_by_bbox(&b, Scalar::Num(0), false);
    assert_eq!(scene.tree.view_rect, before_view);
    assert_eq!(scene.tree.size_w, before_w);
    assert_eq!(scene.tree.size_h, before_h);
    assert!(!scene.skip_render);
}

#[test]
fn non_positive_dimensions_are_a_no_op() {
    let mut scene = Resvg::new(small_tree(), FitTo::Original);
    let before_view = scene.tree.view_rect;
    scene.crop_by_bbox(&BBox::from_raw(0, 0, 0, u(10)), Scalar::Num(0), false);
    assert_eq!(scene.tree.view_rect, before_view);
    scene.crop_by_bbox(&BBox::from_raw(0, 0, u(10), -u(5)), Scalar::Num(0), false);
    assert_eq!(scene.tree.view_rect, before_view);
}

#[test]
fn negative_or_non_finite_padding_counts_as_zero() {
    let b = BBox::from_raw(u(3), u(4), u(10), u(20));
    let with_negative = compute_viewport(&b, Scalar::Num(-u(7)), false, FitTo::Original).unwrap();
    let with_non_finite = compute_viewport(&b, Scalar::NonFinite, false, FitTo::Original).unwrap();
    let with_zero = compute_viewport(&b, Scalar::Num(0), false, FitTo::Original).unwrap();
    assert_eq!(with_negative, with_zero);
    assert_eq!(with_non_finite, with_zero);
}

#[test]
fn fit_to_width_scales_view_exactly() {
    // Source (10,10,100,50), padding 5, fit to width 200: target 200x100,
    // content 190x90, view width 100 * 200 / 190, view height 50 * 100 / 90,
    // centered on (60,35).
    let b = BBox::from_raw(u(10), u(10), u(100), u(50));
    let cr = compute_viewport(&b, Scalar::Num(u(5)), false, FitTo::Width(200)).unwrap();
    assert!(!cr.empty);
    let expected_vw: i64 = (u(100) as i128 * u(200) as i128 / u(190) as i128) as i64;
    let expected_vh: i64 = (u(50) as i128 * u(100) as i128 / u(90) as i128) as i64;
    assert_eq!(cr.view.w, expected_vw);
    assert_eq!(cr.view.h, expected_vh);
    // Roughly 105.26 units wide.
    let wf = cr.view.w as f64 / SCALE as f64;
    assert!((wf - 105.2631).abs() < 0.001);
    // Centered on (60, 35).
    assert_eq!(cr.view.x, u(60) - expected_vw / 2);
    assert_eq!(cr.view.y, u(35) - expected_vh / 2);
    assert_eq!(cr.size_w, u(200));
    assert_eq!(cr.size_h, u(100));
}

#[test]
fn unresolvable_fit_falls_back_to_the_raw_box() {
    let b = BBox::from_raw(u(3), u(4), u(10), u(20));
    let cr = compute_viewport(&b, Scalar::Num(u(2)), false, FitTo::Width(0)).unwrap();
    assert_eq!(cr.view, Rect { x: u(3), y: u(4), w: u(10), h: u(20) });
    assert_eq!(cr.size_w, u(10));
    assert_eq!(cr.size_h, u(20));
    assert!(!cr.empty);

    let zoomed_out = compute_viewport(&b, Scalar::Num(0), false, FitTo::Zoom(0)).unwrap();
    assert_eq!(zoomed_out.view, Rect { x: u(3), y: u(4), w: u(10), h: u(20) });
}

#[test]
fn zoom_reports_size_divided_by_scale() {
    // Zoom 2: targets are doubled, the reported size divides them back.
    let b = BBox::from_raw(0, 0, u(10), u(20));
    let cr = compute_viewport(&b, Scalar::Num(0), false, FitTo::Zoom(2 * SCALE)).unwrap();
    assert!(!cr.empty);
    assert_eq!(cr.view.w, u(10));
    assert_eq!(cr.view.h, u(20));
    assert_eq!(cr.size_w, u(10));
    assert_eq!(cr.size_h, u(20));
}

#[test]
fn square_crop_with_height_policy_forces_square_target() {
    let b = BBox::from_raw(0, 0, u(10), u(20));
    // Squared source: 20x20; height 40 resolves to a 40x40 target.
    let cr = compute_viewport(&b, Scalar::Num(0), true, FitTo::Height(40)).unwrap();
    assert_eq!(cr.size_w, u(40));
    assert_eq!(cr.size_h, u(40));
    assert_eq!(cr.view.w, u(20));
    assert_eq!(cr.view.h, u(20));
}

#[test]
fn width_and_height_getters_round_to_whole_units() {
    let mut t = small_tree();
    t.size_w = u(10) + SCALE / 2;
    t.size_h = u(10) + SCALE / 2 - 1;
    let scene = Resvg::new(t, FitTo::Original);
    assert_eq!(scene.width(), u(11));
    assert_eq!(scene.height(), u(10));
}
