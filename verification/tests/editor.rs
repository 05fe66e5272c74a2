use saola_capture::blur::blur_region;
use saola_capture::compose::{
    Annotation, FONT_UNITS, Glyph, TextRasterAlign, TextRasterRequest, TextRun, compose, paint_arrow,
    paint_ellipse_outline, paint_rect_outline, paint_segment_capsule, raster_text, text_request,
};
use saola_capture::editor::{
    BLUR_RADIUS_PX, EditorModel, PIXELATE_BLOCK_PX, redact_pixel_rect,
};
use saola_capture::export::{format_for_path, parse_quality};
use saola_capture::fit::{Extent, FitTransform};
use saola_capture::imaging::{ImageFormat, load_canvas};
use saola_capture::pixmap::Frame;
use saola_capture::raster::blend_pixel;
use saola_capture::redact::pixelate_region;
use saola_capture::shapes::{
    AnnotationColor, Color, ColorPalette, SELECT_TOLERANCE, STEP_BADGE_RADIUS, Shape, StrokeWidth,
    TextSizeScale, TextSizeStop, Tool, near_segment, rect_from_corners, rects_intersect,
    shape_bounds, shape_hit, translate_shape,
};
use saola_capture::units::{Offset, PixelRect, Point, RawPoint, Rect};

fn px(v: f32) -> i32 {
    (v * 256.0).round() as i32
}

fn size_of(v: f32) -> u32 {
    (v * 256.0).round() as u32
}

fn stroke(v: f32) -> u16 {
    (v * 256.0).round() as u16
}

fn pixels(v: i32) -> f64 {
    f64::from(v) / 256.0
}

fn point(x: f32, y: f32) -> Point {
    Point::new(px(x), px(y))
}

fn raw(x: f32, y: f32) -> RawPoint {
    RawPoint::at(point(x, y))
}

fn rect(x: f32, y: f32, w: f32, h: f32) -> Rect {
    Rect {
        x: px(x),
        y: px(y),
        width: size_of(w),
        height: size_of(h),
    }
}

fn fit_of(image: (f32, f32), view: (f32, f32)) -> FitTransform {
    FitTransform::new(
        Extent {
            width: size_of(image.0),
            height: size_of(image.1),
        },
        Extent {
            width: size_of(view.0),
            height: size_of(view.1),
        },
    )
}

fn scale(fit: FitTransform) -> f64 {
    f64::from(fit.num) / f64::from(fit.den)
}

/// The offsets in pixels.
fn offset(fit: FitTransform) -> (f64, f64) {
    let unit = 2.0 * f64::from(fit.den) * 256.0;
    (fit.offset_x as f64 / unit, fit.offset_y as f64 / unit)
}

/// The distance of a point from a segment, in pixels: half of the smallest
/// diameter that reaches the point.
fn distance_to_segment(p: Point, a: Point, b: Point) -> f64 {
    let mut reach: u16 = 0;
    while !near_segment(p.x as i64, p.y as i64, a, b, reach) {
        reach += 1;
    }
    f64::from(reach) / 512.0
}

fn tiny_frame(width: u32, height: u32) -> Frame {
    let pixels = vec![0u8; (width * height * 4) as usize];
    Frame::new(width, height, 120, pixels).expect("valid buffer")
}

fn test_palette() -> ColorPalette {
    ColorPalette {
        terracotta: Color::rgb(0xC6, 0x71, 0x39),
        ink: Color::rgb(0x0C, 0x0A, 0x00),
        ivory: Color::rgb(0xFF, 0xFF, 0xF0),
    }
}

/// A shaped text of one opaque block, ten pixels wide.
fn one_glyph_run() -> TextRun {
    TextRun {
        width: px(10.0),
        top: 0,
        bottom: px(12.0),
        glyphs: vec![Glyph {
            x: 0,
            y: 0,
            width: 10,
            height: 12,
            r: 1,
            g: 2,
            b: 3,
            coverage: 255,
        }],
    }
}

#[test]
fn fit_transform_is_identity_when_sizes_match() {
    let fit = fit_of((100.0, 100.0), (100.0, 100.0));
    assert_eq!(scale(fit), 1.0);
    assert_eq!(offset(fit), (0.0, 0.0));
}

#[test]
fn fit_transform_letterboxes_the_shorter_axis() {
    let fit = fit_of((200.0, 100.0), (100.0, 100.0));
    assert_eq!(scale(fit), 0.5);
    assert_eq!(offset(fit), (0.0, 25.0));
}

#[test]
fn fit_transform_round_trips() {
    let fit = fit_of((640.0, 480.0), (300.0, 500.0));
    let original = point(123.0, 45.0);
    let round_tripped = fit.to_image(fit.to_view(original));
    assert!((pixels(round_tripped.x) - pixels(original.x)).abs() < 0.01);
    assert!((pixels(round_tripped.y) - pixels(original.y)).abs() < 0.01);
}

#[test]
fn fit_transform_degenerate_sizes_do_not_panic() {
    let fit = fit_of((0.0, 100.0), (100.0, 100.0));
    assert_eq!(scale(fit), 1.0);
    let _ = fit.to_image(point(10.0, 10.0));
}

#[test]
fn distance_to_segment_zero_on_the_line() {
    assert_eq!(
        distance_to_segment(point(5.0, 0.0), point(0.0, 0.0), point(10.0, 0.0)),
        0.0
    );
}

#[test]
fn distance_to_segment_perpendicular_offset() {
    let d = distance_to_segment(point(5.0, 3.0), point(0.0, 0.0), point(10.0, 0.0));
    assert!((d - 3.0).abs() < 0.001);
}

#[test]
fn distance_to_segment_clamps_beyond_the_endpoint() {
    let d = distance_to_segment(point(20.0, 0.0), point(0.0, 0.0), point(10.0, 0.0));
    assert!((d - 10.0).abs() < 0.001);
}

#[test]
fn distance_to_segment_handles_a_zero_length_segment() {
    let d = distance_to_segment(point(3.0, 4.0), point(0.0, 0.0), point(0.0, 0.0));
    assert!((d - 5.0).abs() < 0.001);
}

#[test]
fn rect_from_corners_normalizes_every_direction() {
    let expected = rect(10.0, 20.0, 30.0, 40.0);
    assert_eq!(
        rect_from_corners(point(10.0, 20.0), point(40.0, 60.0)),
        expected
    );
    assert_eq!(
        rect_from_corners(point(40.0, 60.0), point(10.0, 20.0)),
        expected
    );
    assert_eq!(
        rect_from_corners(point(40.0, 20.0), point(10.0, 60.0)),
        expected
    );
}

#[test]
fn rects_intersect_detects_overlap_and_disjointness() {
    assert!(rects_intersect(
        rect(0.0, 0.0, 10.0, 10.0),
        rect(5.0, 5.0, 10.0, 10.0)
    ));
    assert!(!rects_intersect(
        rect(0.0, 0.0, 10.0, 10.0),
        rect(20.0, 20.0, 10.0, 10.0)
    ));
}

#[test]
fn shape_bounds_covers_every_variant() {
    assert_eq!(
        shape_bounds(&Shape::Arrow {
            start: point(0.0, 0.0),
            end: point(10.0, 10.0)
        }),
        rect(0.0, 0.0, 10.0, 10.0)
    );
    assert_eq!(
        shape_bounds(&Shape::Rectangle {
            rect: rect(1.0, 2.0, 3.0, 4.0)
        }),
        rect(1.0, 2.0, 3.0, 4.0)
    );
    assert_eq!(
        shape_bounds(&Shape::Freehand {
            points: vec![point(5.0, 5.0), point(0.0, 10.0), point(15.0, 2.0)]
        }),
        rect(0.0, 2.0, 15.0, 8.0)
    );
}

#[test]
fn a_new_model_starts_on_select_with_no_annotations() {
    let model = EditorModel::new(tiny_frame(20, 20));
    assert_eq!(model.tool(), Tool::Select);
    assert!(model.annotations().is_empty());
    assert!(!model.can_undo());
}

#[test]
fn dragging_the_rectangle_tool_adds_one_annotation() {
    let mut model = EditorModel::new(tiny_frame(20, 20));
    model.set_tool(Tool::Rectangle);
    model.pressed(raw(2.0, 2.0));
    model.pointer_moved(raw(10.0, 12.0));
    model.released(raw(10.0, 12.0));

    assert_eq!(model.annotations().len(), 1);
    assert!(model.can_undo());
    match &model.annotations()[0].shape {
        Shape::Rectangle { rect } => {
            assert_eq!(*rect, rect_from_corners(point(2.0, 2.0), point(10.0, 12.0)))
        }
        other => panic!("expected a rectangle, got {other:?}"),
    }
}

#[test]
fn a_tiny_drag_is_discarded_as_a_stray_click() {
    let mut model = EditorModel::new(tiny_frame(20, 20));
    model.set_tool(Tool::Arrow);
    model.pressed(raw(5.0, 5.0));
    model.released(raw(5.5, 5.2));

    assert!(model.annotations().is_empty());
    assert!(!model.can_undo());
}

#[test]
fn a_single_point_freehand_is_discarded() {
    let mut model = EditorModel::new(tiny_frame(20, 20));
    model.set_tool(Tool::Freehand);
    model.pressed(raw(5.0, 5.0));
    model.released(raw(5.0, 5.0));

    assert!(model.annotations().is_empty());
}

#[test]
fn a_real_freehand_drag_commits_a_polyline() {
    let mut model = EditorModel::new(tiny_frame(50, 50));
    model.set_tool(Tool::Freehand);
    model.pressed(raw(0.0, 0.0));
    model.pointer_moved(raw(10.0, 10.0));
    model.pointer_moved(raw(20.0, 0.0));
    model.released(raw(20.0, 0.0));

    assert_eq!(model.annotations().len(), 1);
    match &model.annotations()[0].shape {
        Shape::Freehand { points } => assert!(points.len() >= 2),
        other => panic!("expected freehand, got {other:?}"),
    }
}

#[test]
fn new_shapes_use_the_current_color_and_width() {
    let mut model = EditorModel::new(tiny_frame(20, 20));
    model.set_color(AnnotationColor::Ink);
    model.set_width(StrokeWidth::Thick);
    model.set_tool(Tool::Arrow);
    model.pressed(raw(0.0, 0.0));
    model.released(raw(10.0, 10.0));

    let annotation = &model.annotations()[0];
    assert_eq!(annotation.color, AnnotationColor::Ink);
    assert_eq!(annotation.stroke_width, StrokeWidth::Thick.pixels());
}

#[test]
fn selecting_clicks_a_placed_shape() {
    let mut model = EditorModel::new(tiny_frame(50, 50));
    model.set_tool(Tool::Rectangle);
    model.pressed(raw(5.0, 5.0));
    model.released(raw(20.0, 20.0));
    let id = model.annotations()[0].id;

    model.set_tool(Tool::Select);
    model.pressed(raw(10.0, 10.0));
    model.released(raw(10.0, 10.0));

    assert_eq!(model.selected(), Some(id));
}

#[test]
fn clicking_empty_space_deselects() {
    let mut model = EditorModel::new(tiny_frame(50, 50));
    model.set_tool(Tool::Rectangle);
    model.pressed(raw(5.0, 5.0));
    model.released(raw(20.0, 20.0));

    model.set_tool(Tool::Select);
    model.pressed(raw(10.0, 10.0));
    model.released(raw(10.0, 10.0));
    assert!(model.selected().is_some());

    model.pressed(raw(45.0, 45.0));
    model.released(raw(45.0, 45.0));
    assert_eq!(model.selected(), None);
}

#[test]
fn a_plain_click_to_select_does_not_push_an_undo_entry() {
    let mut model = EditorModel::new(tiny_frame(50, 50));
    model.set_tool(Tool::Rectangle);
    model.pressed(raw(5.0, 5.0));
    model.released(raw(20.0, 20.0));
    let undo_depth_after_draw = model.undo_depth();

    model.set_tool(Tool::Select);
    model.pressed(raw(10.0, 10.0));
    model.released(raw(10.0, 10.0));

    assert_eq!(model.undo_depth(), undo_depth_after_draw);
}

#[test]
fn dragging_a_selected_shape_moves_it_and_pushes_undo() {
    let mut model = EditorModel::new(tiny_frame(50, 50));
    model.set_tool(Tool::Rectangle);
    model.pressed(raw(5.0, 5.0));
    model.released(raw(15.0, 15.0));
    let original_rect = rect_from_corners(point(5.0, 5.0), point(15.0, 15.0));
    let before = model.undo_depth();

    model.set_tool(Tool::Select);
    model.pressed(raw(10.0, 10.0));
    model.pointer_moved(raw(15.0, 12.0));
    model.released(raw(15.0, 12.0));

    assert_eq!(model.undo_depth(), before + 1);
    match &model.annotations()[0].shape {
        Shape::Rectangle { rect } => {
            assert_eq!(rect.x, original_rect.x + px(5.0));
            assert_eq!(rect.y, original_rect.y + px(2.0));
        }
        other => panic!("expected rectangle, got {other:?}"),
    }
}

#[test]
fn deleting_the_selection_removes_it_and_can_be_undone() {
    let mut model = EditorModel::new(tiny_frame(50, 50));
    model.set_tool(Tool::Arrow);
    model.pressed(raw(0.0, 0.0));
    model.released(raw(20.0, 20.0));

    model.set_tool(Tool::Select);
    model.pressed(raw(10.0, 10.0));
    model.released(raw(10.0, 10.0));
    assert_eq!(model.annotations().len(), 1);

    model.delete_selected();
    assert!(model.annotations().is_empty());

    model.undo();
    assert_eq!(model.annotations().len(), 1);
}

#[test]
fn deleting_with_nothing_selected_is_a_no_op() {
    let mut model = EditorModel::new(tiny_frame(20, 20));
    model.delete_selected();
    assert!(!model.can_undo());
}

#[test]
fn undo_then_redo_round_trips() {
    let mut model = EditorModel::new(tiny_frame(30, 30));
    model.set_tool(Tool::Ellipse);
    model.pressed(raw(0.0, 0.0));
    model.released(raw(10.0, 10.0));
    assert_eq!(model.annotations().len(), 1);

    model.undo();
    assert!(model.annotations().is_empty());
    assert!(model.can_redo());

    model.redo();
    assert_eq!(model.annotations().len(), 1);
    assert!(!model.can_redo());
}

#[test]
fn a_new_action_after_undo_clears_the_redo_stack() {
    let mut model = EditorModel::new(tiny_frame(30, 30));
    model.set_tool(Tool::Ellipse);
    model.pressed(raw(0.0, 0.0));
    model.released(raw(10.0, 10.0));
    model.undo();
    assert!(model.can_redo());

    model.set_tool(Tool::Arrow);
    model.pressed(raw(0.0, 0.0));
    model.released(raw(5.0, 5.0));
    assert!(!model.can_redo());
}

#[test]
fn a_crop_drag_then_apply_shrinks_the_canvas_and_translates_annotations() {
    let mut model = EditorModel::new(tiny_frame(100, 100));
    model.set_tool(Tool::Arrow);
    model.pressed(raw(20.0, 20.0));
    model.released(raw(30.0, 30.0));

    model.set_tool(Tool::Crop);
    model.pressed(raw(10.0, 10.0));
    model.pointer_moved(raw(50.0, 50.0));
    model.released(raw(50.0, 50.0));
    assert_eq!(model.pending_crop(), Some(rect(10.0, 10.0, 40.0, 40.0)));

    assert!(model.apply_crop());
    assert_eq!((model.canvas().width(), model.canvas().height()), (40, 40));
    match &model.annotations()[0].shape {
        Shape::Arrow { start, .. } => assert_eq!(*start, point(10.0, 10.0)),
        other => panic!("expected arrow, got {other:?}"),
    }
    assert_eq!(model.pending_crop(), None);
}

#[test]
fn a_shape_entirely_outside_the_crop_is_dropped() {
    let mut model = EditorModel::new(tiny_frame(100, 100));
    model.set_tool(Tool::Arrow);
    model.pressed(raw(90.0, 90.0));
    model.released(raw(99.0, 99.0));

    model.set_tool(Tool::Crop);
    model.pressed(raw(0.0, 0.0));
    model.released(raw(20.0, 20.0));
    model.apply_crop();

    assert!(model.annotations().is_empty());
}

#[test]
fn switching_away_from_crop_discards_the_pending_rectangle() {
    let mut model = EditorModel::new(tiny_frame(100, 100));
    model.set_tool(Tool::Crop);
    model.pressed(raw(10.0, 10.0));
    model.released(raw(50.0, 50.0));
    assert!(model.pending_crop().is_some());

    model.set_tool(Tool::Select);
    assert_eq!(model.pending_crop(), None);
}

#[test]
fn a_tiny_crop_drag_leaves_nothing_pending() {
    let mut model = EditorModel::new(tiny_frame(100, 100));
    model.set_tool(Tool::Crop);
    model.pressed(raw(10.0, 10.0));
    model.released(raw(10.5, 10.2));
    assert_eq!(model.pending_crop(), None);
}

#[test]
fn applying_a_crop_can_be_undone_restoring_the_canvas_size() {
    let mut model = EditorModel::new(tiny_frame(80, 80));
    model.set_tool(Tool::Crop);
    model.pressed(raw(0.0, 0.0));
    model.released(raw(40.0, 40.0));
    model.apply_crop();
    assert_eq!(model.canvas().width(), 40);

    model.undo();
    assert_eq!(model.canvas().width(), 80);
}

#[test]
fn applying_with_nothing_pending_is_a_no_op() {
    let mut model = EditorModel::new(tiny_frame(50, 50));
    model.set_tool(Tool::Crop);
    assert!(!model.apply_crop());
    assert_eq!(model.canvas().width(), 50);
}

#[test]
fn changing_color_repaints_the_current_selection() {
    let mut model = EditorModel::new(tiny_frame(50, 50));
    model.set_tool(Tool::Arrow);
    model.pressed(raw(0.0, 0.0));
    model.released(raw(10.0, 10.0));
    model.set_tool(Tool::Select);
    model.pressed(raw(5.0, 5.0));
    model.released(raw(5.0, 5.0));

    model.set_color(AnnotationColor::Ivory);
    assert_eq!(model.annotations()[0].color, AnnotationColor::Ivory);
    assert_eq!(model.current_color(), AnnotationColor::Ivory);
}

#[test]
fn changing_color_with_nothing_selected_only_sets_the_default() {
    let mut model = EditorModel::new(tiny_frame(50, 50));
    model.set_color(AnnotationColor::Ink);
    assert_eq!(model.current_color(), AnnotationColor::Ink);
}

#[test]
fn blend_pixel_out_of_bounds_is_a_no_op() {
    let mut buf = vec![0u8; 4 * 2 * 2];
    blend_pixel(
        &mut buf,
        2,
        2,
        -1,
        0,
        Color::rgb(255, 0, 0),
    );
    blend_pixel(
        &mut buf,
        2,
        2,
        5,
        5,
        Color::rgb(255, 0, 0),
    );
    assert_eq!(buf, vec![0u8; 16]);
}

#[test]
fn blend_pixel_opaque_color_overwrites() {
    let mut buf = vec![0u8; 4 * 2 * 2];
    blend_pixel(
        &mut buf,
        2,
        2,
        1,
        1,
        Color::rgb(10, 20, 30),
    );
    assert_eq!(&buf[12..16], &[10, 20, 30, 255]);
}

#[test]
fn blend_pixel_translucent_color_mixes_with_the_background() {
    let mut buf = vec![255u8, 255, 255, 255, 0, 0, 0, 0, 0, 0, 0, 0, 0, 0, 0, 0];
    blend_pixel(
        &mut buf,
        2,
        2,
        0,
        0,
        Color::rgba(0, 0, 0, 128),
    );
    assert!(buf[0] > 100 && buf[0] < 155);
}

#[test]
fn paint_segment_capsule_colors_the_line_and_leaves_far_pixels_alone() {
    let (w, h) = (20, 5);
    let mut buf = vec![0u8; (w * h * 4) as usize];
    let color = Color::rgb(200, 100, 50);
    paint_segment_capsule(
        &mut buf,
        w,
        h,
        point(2.0, 2.0),
        point(17.0, 2.0),
        stroke(2.0),
        color,
    );

    let mid_index = (2 * w as usize + 10) * 4;
    assert_eq!(&buf[mid_index..mid_index + 4], &[200, 100, 50, 255]);

    let far_index = 10 * 4;
    assert_eq!(&buf[far_index..far_index + 4], &[0, 0, 0, 0]);
}

#[test]
fn paint_rect_outline_colors_the_border_and_not_the_interior() {
    let (w, h) = (20, 20);
    let mut buf = vec![0u8; (w * h * 4) as usize];
    let color = Color::rgb(255, 0, 0);
    paint_rect_outline(&mut buf, w, h, rect(2.0, 2.0, 16.0, 16.0), color, stroke(2.0));

    let border_index = (3 * w as usize + 3) * 4;
    assert_eq!(&buf[border_index..border_index + 4], &[255, 0, 0, 255]);

    let center_index = (10 * w as usize + 10) * 4;
    assert_eq!(&buf[center_index..center_index + 4], &[0, 0, 0, 0]);
}

#[test]
fn paint_ellipse_outline_rings_and_does_not_fill_the_center() {
    let (w, h) = (30, 30);
    let mut buf = vec![0u8; (w * h * 4) as usize];
    let color = Color::rgb(0, 255, 0);
    paint_ellipse_outline(&mut buf, w, h, rect(5.0, 5.0, 20.0, 20.0), color, stroke(2.0));

    let center_index = (15 * w as usize + 15) * 4;
    assert_eq!(&buf[center_index..center_index + 4], &[0, 0, 0, 0]);

    let top_index = (5 * w as usize + 15) * 4;
    assert_eq!(&buf[top_index..top_index + 4], &[0, 255, 0, 255]);
}

#[test]
fn paint_arrow_colors_the_shaft_and_the_head() {
    let (w, h) = (40, 10);
    let mut buf = vec![0u8; (w * h * 4) as usize];
    let color = Color::rgb(1, 2, 3);
    paint_arrow(
        &mut buf,
        w,
        h,
        point(2.0, 5.0),
        point(35.0, 5.0),
        color,
        stroke(2.0),
    );

    let shaft_index = (5 * w as usize + 5) * 4;
    assert_eq!(&buf[shaft_index..shaft_index + 4], &[1, 2, 3, 255]);

    let head_index = (5 * w as usize + 28) * 4;
    assert_eq!(&buf[head_index..head_index + 4], &[1, 2, 3, 255]);
}

#[test]
fn paint_arrow_degenerate_length_paints_a_dot_not_nothing() {
    let (w, h) = (10, 10);
    let mut buf = vec![0u8; (w * h * 4) as usize];
    let color = Color::rgb(9, 9, 9);
    paint_arrow(
        &mut buf,
        w,
        h,
        point(5.0, 5.0),
        point(5.05, 5.05),
        color,
        stroke(2.0),
    );
    let index = (5 * w as usize + 5) * 4;
    assert_eq!(&buf[index..index + 4], &[9, 9, 9, 255]);
}

#[test]
fn compose_preserves_dimensions_and_paints_annotations() {
    let base = tiny_frame(20, 20);
    let annotations = vec![Annotation {
        id: 0,
        shape: Shape::Rectangle {
            rect: rect(2.0, 2.0, 10.0, 10.0),
        },
        color: AnnotationColor::Terracotta,
        stroke_width: stroke(2.0),
    }];
    let composed = compose(&base, &annotations, test_palette(), &Vec::new());

    assert_eq!((composed.width(), composed.height()), (20, 20));
    let border_index = (2 * 20 + 2) * 4;
    assert_ne!(
        &composed.pixels()[border_index..border_index + 4],
        &[0, 0, 0, 0]
    );
}

#[test]
fn compose_with_no_annotations_matches_the_base_exactly() {
    let base = tiny_frame(10, 10);
    let composed = compose(&base, &Vec::new(), test_palette(), &Vec::new());
    assert_eq!(composed.pixels(), base.pixels());
}

#[test]
fn format_for_path_infers_from_the_extension() {
    assert_eq!(
        format_for_path("/tmp/a.png", ImageFormat::Webp),
        ImageFormat::Png
    );
    assert_eq!(
        format_for_path("/tmp/a.PNG", ImageFormat::Webp),
        ImageFormat::Png
    );
    assert_eq!(
        format_for_path("/tmp/a.webp", ImageFormat::Png),
        ImageFormat::Webp
    );
    assert_eq!(
        format_for_path("/tmp/a", ImageFormat::Png),
        ImageFormat::Png
    );
    assert_eq!(
        format_for_path("/tmp/a.jpg", ImageFormat::Webp),
        ImageFormat::Webp
    );
}

#[test]
fn load_canvas_reports_a_clean_error_for_a_missing_file() {
    let result = load_canvas(
        "/nonexistent/definitely-not-a-file.webp",
        Err("No such file or directory (os error 2)".to_string()),
    );
    assert!(result.is_err());
}

#[test]
fn clicking_the_text_tool_places_an_empty_selected_annotation() {
    let mut model = EditorModel::new(tiny_frame(50, 50));
    model.set_tool(Tool::Text);
    model.pressed(raw(10.0, 12.0));

    assert_eq!(model.annotations().len(), 1);
    let annotation = &model.annotations()[0];
    assert_eq!(model.selected(), Some(annotation.id));
    match &annotation.shape {
        Shape::Text {
            position, content, ..
        } => {
            assert_eq!(*position, point(10.0, 12.0));
            assert!(content.is_empty());
        }
        other => panic!("expected text, got {other:?}"),
    }
    model.released(raw(10.0, 12.0));
    assert_eq!(model.annotations().len(), 1);
}

#[test]
fn selected_text_reports_content_and_size_only_for_a_text_annotation() {
    let mut model = EditorModel::new(tiny_frame(50, 50));
    model.set_tool(Tool::Rectangle);
    model.pressed(raw(2.0, 2.0));
    model.released(raw(10.0, 10.0));
    assert_eq!(
        model.selected_text(),
        None,
        "a selected Rectangle isn't text"
    );

    model.set_tool(Tool::Text);
    model.pressed(raw(5.0, 5.0));
    let (content, size) = model
        .selected_text()
        .expect("a Text annotation is selected");
    assert!(content.is_empty());
    assert_eq!(size, model.current_text_size());
}

#[test]
fn editing_selected_text_content_updates_the_shape_in_place() {
    let mut model = EditorModel::new(tiny_frame(50, 50));
    model.set_tool(Tool::Text);
    model.pressed(raw(5.0, 5.0));
    model.set_selected_text_content("hello".to_string());

    match &model.annotations()[0].shape {
        Shape::Text { content, .. } => assert_eq!(content, "hello"),
        other => panic!("expected text, got {other:?}"),
    }
    assert_eq!(model.undo_depth(), 1);
}

#[test]
fn set_text_size_resizes_the_selection_and_future_placements() {
    let mut model = EditorModel::new(tiny_frame(50, 50));
    model.set_tool(Tool::Text);
    model.pressed(raw(5.0, 5.0));
    model.set_text_size(size_of(40.0));

    match &model.annotations()[0].shape {
        Shape::Text { size, .. } => assert_eq!(*size, size_of(40.0)),
        other => panic!("expected text, got {other:?}"),
    }

    model.pressed(raw(20.0, 20.0));
    match &model.annotations()[1].shape {
        Shape::Text { size, .. } => assert_eq!(*size, size_of(40.0)),
        other => panic!("expected text, got {other:?}"),
    }
}

#[test]
fn set_text_size_clamps_to_a_positive_minimum() {
    let mut model = EditorModel::new(tiny_frame(50, 50));
    model.set_text_size(size_of(-5.0));
    model.set_tool(Tool::Text);
    model.pressed(raw(1.0, 1.0));
    match &model.annotations()[0].shape {
        Shape::Text { size, .. } => assert!(*size >= size_of(1.0)),
        other => panic!("expected text, got {other:?}"),
    }
}

#[test]
fn undoing_a_placed_text_annotation_removes_it() {
    let mut model = EditorModel::new(tiny_frame(50, 50));
    model.set_tool(Tool::Text);
    model.pressed(raw(5.0, 5.0));
    assert_eq!(model.annotations().len(), 1);

    model.undo();
    assert!(model.annotations().is_empty());
}

#[test]
fn text_shape_bounds_hit_and_translate() {
    let shape = Shape::Text {
        position: point(10.0, 10.0),
        content: "hi".to_string(),
        size: size_of(20.0),
    };
    let bounds = shape_bounds(&shape);
    assert_eq!((bounds.x, bounds.y), (px(10.0), px(10.0)));
    assert!(bounds.width > 0 && bounds.height > 0);

    assert!(shape_hit(&shape, point(11.0, 11.0), SELECT_TOLERANCE));
    assert!(!shape_hit(&shape, point(1000.0, 1000.0), SELECT_TOLERANCE));

    let translated = translate_shape(
        &shape,
        Offset {
            dx: px(5.0) as i64,
            dy: px(-5.0) as i64,
        },
    );
    match translated {
        Shape::Text {
            position,
            content,
            size,
        } => {
            assert_eq!(position, point(15.0, 5.0));
            assert_eq!(content, "hi");
            assert_eq!(size, size_of(20.0));
        }
        other => panic!("expected text, got {other:?}"),
    }
}

#[test]
fn step_badges_auto_increment_and_never_reuse_a_number() {
    let mut model = EditorModel::new(tiny_frame(150, 150));
    model.set_tool(Tool::Step);
    model.pressed(raw(5.0, 5.0));
    model.pressed(raw(70.0, 70.0));
    model.pressed(raw(140.0, 140.0));

    let numbers: Vec<u32> = model
        .annotations()
        .iter()
        .map(|a| match a.shape {
            Shape::Step { number, .. } => number,
            _ => panic!("expected step"),
        })
        .collect();
    assert_eq!(numbers, vec![1, 2, 3]);

    model.set_tool(Tool::Select);
    model.pressed(raw(70.0, 70.0));
    model.delete_selected();
    model.set_tool(Tool::Step);
    model.pressed(raw(140.0, 5.0));

    let numbers_after: Vec<u32> = model
        .annotations()
        .iter()
        .map(|a| match a.shape {
            Shape::Step { number, .. } => number,
            _ => panic!("expected step"),
        })
        .collect();
    assert_eq!(numbers_after, vec![1, 3, 4]);
}

#[test]
fn step_shape_bounds_is_centered_on_its_position() {
    let shape = Shape::Step {
        position: point(20.0, 20.0),
        number: 1,
    };
    let bounds = shape_bounds(&shape);
    assert_eq!(bounds.x as i64, px(20.0) as i64 - STEP_BADGE_RADIUS);
    assert_eq!(bounds.y as i64, px(20.0) as i64 - STEP_BADGE_RADIUS);
    assert_eq!(bounds.width as i64, STEP_BADGE_RADIUS * 2);
    assert_eq!(bounds.height as i64, STEP_BADGE_RADIUS * 2);
}

#[test]
fn dragging_the_pixelate_tool_mutates_canvas_pixels_and_pushes_undo() {
    let mut pixels = vec![0u8; 40 * 40 * 4];
    for (i, chunk) in pixels.chunks_mut(4).enumerate() {
        let v = if i % 2 == 0 { 255 } else { 0 };
        chunk.copy_from_slice(&[v, v, v, 255]);
    }
    let checkerboard = Frame::new(40, 40, 120, pixels).expect("valid buffer");
    let mut model = EditorModel::new(checkerboard);
    let before = model.canvas().pixels().to_vec();
    model.set_tool(Tool::Pixelate);
    model.pressed(raw(2.0, 2.0));
    model.pointer_moved(raw(20.0, 20.0));
    let changed = model.released(raw(20.0, 20.0));

    assert!(changed, "a real redaction drag must report a canvas change");
    assert_ne!(model.canvas().pixels(), &before);
    assert!(model.can_undo());

    model.undo();
    assert_eq!(model.canvas().pixels(), &before);
}

#[test]
fn dragging_the_blur_tool_mutates_canvas_pixels_and_pushes_undo() {
    let mut pixels = vec![0u8; 40 * 40 * 4];
    for (i, chunk) in pixels.chunks_mut(4).enumerate() {
        let v = if i % 2 == 0 { 255 } else { 0 };
        chunk.copy_from_slice(&[v, v, v, 255]);
    }
    let checkerboard = Frame::new(40, 40, 120, pixels).expect("valid buffer");
    let mut model = EditorModel::new(checkerboard);
    let before = model.canvas().pixels().to_vec();

    model.set_tool(Tool::Blur);
    model.pressed(raw(2.0, 2.0));
    model.pointer_moved(raw(30.0, 30.0));
    let changed = model.released(raw(30.0, 30.0));

    assert!(changed);
    assert_ne!(model.canvas().pixels(), &before);
    assert!(model.can_undo());
}

#[test]
fn a_tiny_redaction_drag_is_discarded_like_a_stray_click() {
    let mut model = EditorModel::new(tiny_frame(40, 40));
    model.set_tool(Tool::Blur);
    model.pressed(raw(5.0, 5.0));
    let changed = model.released(raw(5.2, 5.1));

    assert!(!changed);
    assert!(!model.can_undo());
}

#[test]
fn released_returns_false_for_every_non_redaction_interaction() {
    let mut model = EditorModel::new(tiny_frame(40, 40));
    model.set_tool(Tool::Rectangle);
    model.pressed(raw(2.0, 2.0));
    assert!(!model.released(raw(20.0, 20.0)));

    model.set_tool(Tool::Crop);
    model.pressed(raw(2.0, 2.0));
    assert!(!model.released(raw(20.0, 20.0)));
}

#[test]
fn redact_pixel_rect_clamps_into_the_canvas() {
    let clamped =
        redact_pixel_rect(rect(-10.0, -10.0, 30.0, 30.0), 20, 20).expect("overlaps the canvas");
    assert_eq!(
        clamped,
        PixelRect {
            x: 0,
            y: 0,
            width: 20,
            height: 20
        }
    );
}

#[test]
fn redact_pixel_rect_rejects_a_rect_entirely_off_canvas() {
    assert_eq!(
        redact_pixel_rect(rect(100.0, 100.0, 10.0, 10.0), 20, 20),
        None
    );
}

#[test]
fn pixelate_region_flattens_a_block_to_its_average() {
    let width = 4u32;
    let height = 2u32;
    let mut buf = vec![0u8; (width * height * 4) as usize];
    let set = |buf: &mut [u8], x: u32, y: u32, v: u8| {
        let i = (y * width + x) as usize * 4;
        buf[i..i + 4].copy_from_slice(&[v, v, v, 255]);
    };
    set(&mut buf, 0, 0, 0);
    set(&mut buf, 1, 0, 255);
    set(&mut buf, 0, 1, 0);
    set(&mut buf, 1, 1, 255);

    pixelate_region(
        &mut buf,
        width,
        height,
        PixelRect {
            x: 0,
            y: 0,
            width: 2,
            height: 2,
        },
        2,
    );

    for y in 0..2 {
        for x in 0..2 {
            let i = (y * width + x) as usize * 4;
            assert_eq!(&buf[i..i + 4], &[127, 127, 127, 255]);
        }
    }
}

#[test]
fn pixelate_region_leaves_a_uniform_region_unchanged() {
    let width = 10u32;
    let height = 10u32;
    let original = vec![[42u8, 10, 200, 255]; (width * height) as usize].concat();
    let mut buf = original.clone();
    pixelate_region(
        &mut buf,
        width,
        height,
        PixelRect {
            x: 1,
            y: 1,
            width: 6,
            height: 6,
        },
        PIXELATE_BLOCK_PX,
    );
    assert_eq!(buf, original);
}

#[test]
fn pixelate_region_only_touches_pixels_inside_the_rect() {
    let width = 10u32;
    let height = 10u32;
    let mut buf: Vec<u8> = (0..(width * height * 4)).map(|i| (i % 251) as u8).collect();
    let before = buf.clone();
    pixelate_region(
        &mut buf,
        width,
        height,
        PixelRect {
            x: 2,
            y: 2,
            width: 3,
            height: 3,
        },
        3,
    );

    for y in 0..height {
        for x in 0..width {
            let inside = (2..5).contains(&x) && (2..5).contains(&y);
            let i = (y * width + x) as usize * 4;
            if !inside {
                assert_eq!(
                    &buf[i..i + 4],
                    &before[i..i + 4],
                    "pixel ({x},{y}) outside the rect changed"
                );
            }
        }
    }
}

#[test]
fn pixelate_region_does_not_panic_on_a_rect_extending_past_the_image() {
    let width = 5u32;
    let height = 5u32;
    let mut buf = vec![7u8; (width * height * 4) as usize];
    pixelate_region(
        &mut buf,
        width,
        height,
        PixelRect {
            x: 3,
            y: 3,
            width: 50,
            height: 50,
        },
        4,
    );
    assert_eq!(buf.len(), (width * height * 4) as usize);
}

#[test]
fn pixelate_region_block_size_zero_does_not_infinite_loop_or_panic() {
    let width = 6u32;
    let height = 6u32;
    let mut buf = vec![3u8; (width * height * 4) as usize];
    pixelate_region(
        &mut buf,
        width,
        height,
        PixelRect {
            x: 0,
            y: 0,
            width: 6,
            height: 6,
        },
        0,
    );
    assert_eq!(buf.len(), (width * height * 4) as usize);
}

#[test]
fn blur_region_leaves_a_uniform_region_unchanged() {
    let width = 20u32;
    let height = 20u32;
    let original = vec![[80u8, 80, 80, 255]; (width * height) as usize].concat();
    let mut buf = original.clone();
    blur_region(
        &mut buf,
        width,
        height,
        PixelRect {
            x: 3,
            y: 3,
            width: 10,
            height: 10,
        },
        BLUR_RADIUS_PX,
    );
    assert_eq!(buf, original);
}

#[test]
fn blur_region_smooths_a_sharp_edge() {
    let width = 40u32;
    let height = 10u32;
    let mut buf = vec![0u8; (width * height * 4) as usize];
    for y in 0..height {
        for x in 0..width {
            let v = if x < width / 2 { 0 } else { 255 };
            let i = (y * width + x) as usize * 4;
            buf[i..i + 4].copy_from_slice(&[v, v, v, 255]);
        }
    }
    blur_region(
        &mut buf,
        width,
        height,
        PixelRect {
            x: 0,
            y: 0,
            width,
            height,
        },
        6,
    );

    let boundary_i = (5 * width + width / 2) as usize * 4;
    let boundary_value = buf[boundary_i];
    assert!(
        boundary_value > 10 && boundary_value < 245,
        "expected a blended gray at the boundary, got {boundary_value}"
    );
}

#[test]
fn blur_region_only_touches_pixels_inside_the_rect() {
    let width = 20u32;
    let height = 20u32;
    let mut buf: Vec<u8> = (0..(width * height * 4)).map(|i| (i % 199) as u8).collect();
    let before = buf.clone();
    blur_region(
        &mut buf,
        width,
        height,
        PixelRect {
            x: 5,
            y: 5,
            width: 4,
            height: 4,
        },
        3,
    );

    for y in 0..height {
        for x in 0..width {
            let inside = (5..9).contains(&x) && (5..9).contains(&y);
            let i = (y * width + x) as usize * 4;
            if !inside {
                assert_eq!(
                    &buf[i..i + 4],
                    &before[i..i + 4],
                    "pixel ({x},{y}) outside the rect changed"
                );
            }
        }
    }
}

#[test]
fn blur_region_does_not_panic_near_every_image_edge() {
    let width = 8u32;
    let height = 8u32;
    let mut buf = vec![99u8; (width * height * 4) as usize];
    blur_region(
        &mut buf,
        width,
        height,
        PixelRect {
            x: 0,
            y: 0,
            width,
            height,
        },
        50,
    );
    assert_eq!(buf.len(), (width * height * 4) as usize);
}

#[test]
fn raster_text_does_not_panic_on_empty_or_degenerate_input() {
    let mut buf = vec![0u8; 20 * 20 * 4];
    let color = test_palette().terracotta;
    let request = |content: &'static str, size_px: f32, position: Point, align: TextRasterAlign| {
        TextRasterRequest {
            content: content.to_string(),
            size_px: u64::from(size_of(size_px)) * FONT_UNITS,
            color,
            position,
            align,
        }
    };
    let run = Some(one_glyph_run());
    let corner = TextRasterAlign::TopLeft;
    raster_text(&mut buf, 20, 20, &request("", 12.0, point(0.0, 0.0), corner), &run);
    raster_text(&mut buf, 20, 20, &request("   ", 12.0, point(0.0, 0.0), corner), &run);
    raster_text(&mut buf, 20, 20, &request("x", 0.0, point(0.0, 0.0), corner), &run);
    raster_text(&mut buf, 20, 20, &request("x", f32::NAN, point(0.0, 0.0), corner), &run);
    raster_text(
        &mut buf,
        20,
        20,
        &request("hi", 12.0, point(-500.0, -500.0), TextRasterAlign::Center),
        &run,
    );
    raster_text(
        &mut buf,
        20,
        20,
        &request("unresolvable-family-xyz", 12.0, point(0.0, 0.0), corner),
        &None,
    );
    assert_eq!(buf, vec![0u8; 20 * 20 * 4]);
}

#[test]
fn text_size_scale_resolves_and_finds_the_nearest_stop() {
    let scale = TextSizeScale {
        small: size_of(12.0),
        medium: size_of(20.0),
        large: size_of(40.0),
    };
    assert_eq!(scale.resolve(TextSizeStop::Small), size_of(12.0));
    assert_eq!(scale.resolve(TextSizeStop::Medium), size_of(20.0));
    assert_eq!(scale.resolve(TextSizeStop::Large), size_of(40.0));

    assert_eq!(scale.nearest(size_of(13.0)), TextSizeStop::Small);
    assert_eq!(scale.nearest(size_of(19.0)), TextSizeStop::Medium);
    assert_eq!(scale.nearest(size_of(41.0)), TextSizeStop::Large);
}

#[test]
fn parse_quality_clamps_and_falls_back_on_garbage() {
    assert_eq!(parse_quality("90", 50), 90);
    assert_eq!(parse_quality(" 100 ", 50), 100);
    assert_eq!(parse_quality("0", 50), 1);
    assert_eq!(parse_quality("99999", 50), 100);
    assert_eq!(parse_quality("not a number", 50), 50);
    assert_eq!(parse_quality("", 50), 50);
    assert_eq!(parse_quality("-5", 50), 50);
}

#[test]
fn a_redaction_stays_on_the_canvas_when_rounded() {
    let half = redact_pixel_rect(rect(0.5, 0.5, 19.5, 19.5), 20, 20).expect("overlaps");
    assert_eq!(
        half,
        PixelRect {
            x: 1,
            y: 1,
            width: 19,
            height: 19
        }
    );
    let corner = redact_pixel_rect(rect(19.75, 19.75, 5.0, 5.0), 20, 20).expect("overlaps");
    assert_eq!(
        corner,
        PixelRect {
            x: 19,
            y: 19,
            width: 1,
            height: 1
        }
    );
}

#[test]
fn undo_takes_back_each_kind_of_change() {
    let mut model = EditorModel::new(tiny_frame(50, 50));
    model.undo();
    assert!(!model.can_undo() && !model.can_redo());

    model.set_tool(Tool::Step);
    model.pressed(raw(10.0, 12.0));
    assert_eq!(model.annotations().len(), 1);
    model.undo();
    assert!(model.annotations().is_empty());
    assert!(model.can_redo() && !model.can_undo());
    assert_eq!(model.selected(), None);
    model.redo();

    model.set_tool(Tool::Pixelate);
    let before = model.canvas().pixels().clone();
    model.pressed(raw(5.0, 5.0));
    model.pointer_moved(raw(30.0, 30.0));
    model.released(raw(30.0, 30.0));
    assert_eq!(model.annotations().len(), 1);
    model.undo();
    assert_eq!(model.canvas().pixels(), &before);
    assert_eq!(model.annotations().len(), 1);
}

#[test]
fn a_badge_is_lettered_in_single_precision() {
    let mut model = EditorModel::new(tiny_frame(50, 50));
    model.set_tool(Tool::Step);
    model.pressed(raw(10.0, 12.0));
    let request = text_request(&model.annotations()[0], test_palette()).expect("a numeral");
    assert_eq!(request.content, "1");
    assert_eq!(request.size_px as f32 / 1_048_576.0, 14.0f32 * 1.05);

    model.set_tool(Tool::Text);
    model.set_text_size(size_of(20.0));
    model.pressed(raw(20.0, 20.0));
    let request = text_request(&model.annotations()[1], test_palette()).expect("a caption");
    assert_eq!(request.size_px as f32 / 1_048_576.0, 20.0);
}
