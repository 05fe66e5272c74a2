use saola_capture::capture::{LogicalRect, OutputInfo, WindowRef, pixel_size};
use saola_capture::overlay::{
    Action, HANDLE_HIT_RADIUS, HEdge, Handle, HitTarget, InputEvent, Message, Overlay,
    PointerShape, ToolbarName, VEdge, clamp_position, clamp_shape, clamp_value, hit_test,
    message_from_event, pointer_shape, resize, scrim_bands, settle_position, settle_shape,
    snap_edges_to_bounds, snap_position_to_edges, snap_to_pixels, toolbar,
};
use saola_capture::units::{Point, RawPoint, Rect};

fn px(v: f32) -> i32 {
    (v * 256.0).round() as i32
}

fn size_of(v: f32) -> u32 {
    (v * 256.0).round() as u32
}

fn whole(v: f32) -> i64 {
    (v * 256.0).round() as i64
}

/// A number as it arrives: one that is not finite is missing.
fn num(v: f32) -> Option<i64> {
    v.is_finite().then_some(whole(if v.is_finite() { v } else { 0.0 }))
}

fn area(x: f32, y: f32, w: f32, h: f32) -> Rect {
    Rect::new(px(x), px(y), whole(w), whole(h))
}

fn point(x: f32, y: f32) -> Point {
    Point::new(px(x), px(y))
}

fn spot(x: f32, y: f32) -> (i64, i64) {
    (whole(x), whole(y))
}

fn raw(x: f32, y: f32) -> RawPoint {
    RawPoint::at(point(x, y))
}

fn bounds() -> Rect {
    area(0.0, 0.0, 800.0, 600.0)
}

/// An output of 825x971 logical pixels, one and a half of its own to each.
fn nested_output() -> OutputInfo {
    OutputInfo {
        name: "winit".to_string(),
        logical: LogicalRect {
            x: 0,
            y: 0,
            width: 825,
            height: 971,
        },
        scale: 180,
        physical_width: 1238,
        physical_height: 1457,
    }
}

fn output_at(x: i32, y: i32) -> OutputInfo {
    OutputInfo {
        name: "DP-2".to_string(),
        logical: LogicalRect {
            x,
            y,
            width: 800,
            height: 600,
        },
        scale: 120,
        physical_width: 800,
        physical_height: 600,
    }
}

fn overlay() -> Overlay {
    Overlay::new(output_at(0, 0), None)
}

#[test]
fn from_corners_normalizes_every_drag_direction() {
    let expected = area(10.0, 20.0, 30.0, 40.0);
    assert_eq!(
        Rect::from_corners(point(10.0, 20.0), point(40.0, 60.0)),
        expected
    );
    assert_eq!(
        Rect::from_corners(point(40.0, 60.0), point(10.0, 20.0)),
        expected,
        "up-and-left"
    );
    assert_eq!(
        Rect::from_corners(point(40.0, 20.0), point(10.0, 60.0)),
        expected,
        "down-and-left"
    );
    assert_eq!(
        Rect::from_corners(point(10.0, 60.0), point(40.0, 20.0)),
        expected,
        "up-and-right"
    );
}

#[test]
fn a_rect_never_has_a_negative_size() {
    let rect = area(10.0, 10.0, -5.0, -5.0);
    assert_eq!((rect.width, rect.height), (0, 0));
}

#[test]
fn contains_includes_the_edges() {
    let rect = area(10.0, 10.0, 20.0, 20.0);
    assert!(rect.contains(point(10.0, 10.0)));
    assert!(rect.contains(point(30.0, 30.0)));
    assert!(rect.contains(point(20.0, 20.0)));
    assert!(!rect.contains(point(9.9, 20.0)));
    assert!(!rect.contains(point(20.0, 30.1)));
}

#[test]
fn clamp_f32_never_panics_on_the_inputs_that_would_trip_std() {
    assert_eq!(clamp_value(num(f32::NAN), num(0.0), num(10.0)), whole(0.0));
    assert_eq!(clamp_value(num(5.0), num(10.0), num(0.0)), whole(10.0), "inverted range");
    assert_eq!(clamp_value(num(5.0), num(f32::NAN), num(10.0)), whole(0.0));
    assert_eq!(clamp_value(num(f32::INFINITY), num(0.0), num(10.0)), whole(0.0));
    assert_eq!(clamp_value(num(-1.0), num(0.0), num(10.0)), whole(0.0));
    assert_eq!(clamp_value(num(11.0), num(0.0), num(10.0)), whole(10.0));
    assert_eq!(clamp_value(num(5.0), num(0.0), num(10.0)), whole(5.0));
}

#[test]
fn every_handle_sits_where_its_name_says() {
    let rect = area(100.0, 200.0, 40.0, 60.0);
    assert_eq!(Handle::TopLeft.center(rect), spot(100.0, 200.0));
    assert_eq!(Handle::Top.center(rect), spot(120.0, 200.0));
    assert_eq!(Handle::TopRight.center(rect), spot(140.0, 200.0));
    assert_eq!(Handle::Right.center(rect), spot(140.0, 230.0));
    assert_eq!(Handle::BottomRight.center(rect), spot(140.0, 260.0));
    assert_eq!(Handle::Bottom.center(rect), spot(120.0, 260.0));
    assert_eq!(Handle::BottomLeft.center(rect), spot(100.0, 260.0));
    assert_eq!(Handle::Left.center(rect), spot(100.0, 230.0));
}

#[test]
fn handle_edges_round_trip_through_from_edges() {
    for handle in Handle::all() {
        let (h, v) = handle.edges();
        assert_eq!(Handle::from_edges(h, v), Some(handle), "{handle:?}");
    }
    assert_eq!(Handle::from_edges(HEdge::Neither, VEdge::Neither), None);
}

#[test]
fn hit_test_finds_every_handle() {
    let rect = area(100.0, 100.0, 200.0, 200.0);
    for handle in Handle::all() {
        let center = handle.center(rect);
        assert_eq!(
            hit_test(Some(rect), Point::new(center.0 as i32, center.1 as i32), HANDLE_HIT_RADIUS),
            HitTarget::Handle(handle),
            "{handle:?}"
        );
    }
}

#[test]
fn hit_test_prefers_a_corner_when_a_tiny_selection_overlaps_its_handles() {
    let rect = area(0.0, 0.0, 10.0, 10.0);
    assert_eq!(
        hit_test(Some(rect), point(0.0, 0.0), HANDLE_HIT_RADIUS),
        HitTarget::Handle(Handle::TopLeft)
    );
}

#[test]
fn hit_test_distinguishes_inside_from_outside() {
    let rect = area(100.0, 100.0, 200.0, 200.0);
    assert_eq!(
        hit_test(Some(rect), point(200.0, 200.0), HANDLE_HIT_RADIUS),
        HitTarget::Inside
    );
    assert_eq!(
        hit_test(Some(rect), point(500.0, 500.0), HANDLE_HIT_RADIUS),
        HitTarget::Outside
    );
}

#[test]
fn hit_test_with_no_selection_always_starts_a_new_drag() {
    assert_eq!(
        hit_test(None, point(0.0, 0.0), HANDLE_HIT_RADIUS),
        HitTarget::Outside
    );
}

#[test]
fn each_handle_moves_exactly_the_edges_it_names() {
    let rect = area(100.0, 100.0, 100.0, 100.0);
    let b = bounds();

    let (out, _) = resize(rect, Handle::Left, raw(50.0, 999.0), b);
    assert_eq!(out, area(50.0, 100.0, 150.0, 100.0));

    let (out, _) = resize(rect, Handle::Right, raw(250.0, 0.0), b);
    assert_eq!(out, area(100.0, 100.0, 150.0, 100.0));

    let (out, _) = resize(rect, Handle::Top, raw(999.0, 50.0), b);
    assert_eq!(out, area(100.0, 50.0, 100.0, 150.0));

    let (out, _) = resize(rect, Handle::Bottom, raw(0.0, 250.0), b);
    assert_eq!(out, area(100.0, 100.0, 100.0, 150.0));

    let (out, _) = resize(rect, Handle::TopLeft, raw(50.0, 50.0), b);
    assert_eq!(out, area(50.0, 50.0, 150.0, 150.0));

    let (out, _) = resize(rect, Handle::TopRight, raw(250.0, 50.0), b);
    assert_eq!(out, area(100.0, 50.0, 150.0, 150.0));

    let (out, _) = resize(rect, Handle::BottomRight, raw(250.0, 250.0), b);
    assert_eq!(out, area(100.0, 100.0, 150.0, 150.0));

    let (out, _) = resize(rect, Handle::BottomLeft, raw(50.0, 250.0), b);
    assert_eq!(out, area(50.0, 100.0, 150.0, 150.0));
}

#[test]
fn resize_keeps_its_handle_while_the_rect_stays_right_side_out() {
    let rect = area(100.0, 100.0, 100.0, 100.0);
    let (_, handle) = resize(rect, Handle::TopLeft, raw(120.0, 120.0), bounds());
    assert_eq!(handle, Handle::TopLeft);
}

#[test]
fn dragging_the_left_edge_past_the_right_flips_the_handle() {
    let rect = area(100.0, 100.0, 100.0, 100.0);
    let (out, handle) = resize(rect, Handle::Left, raw(260.0, 150.0), bounds());
    assert_eq!(out, area(200.0, 100.0, 60.0, 100.0));
    assert_eq!(
        handle,
        Handle::Right,
        "the pointer now holds the right edge"
    );
}

#[test]
fn dragging_the_top_edge_past_the_bottom_flips_the_handle() {
    let rect = area(100.0, 100.0, 100.0, 100.0);
    let (out, handle) = resize(rect, Handle::Top, raw(150.0, 260.0), bounds());
    assert_eq!(out, area(100.0, 200.0, 100.0, 60.0));
    assert_eq!(handle, Handle::Bottom);
}

#[test]
fn dragging_a_corner_past_the_opposite_one_flips_both_axes() {
    let rect = area(100.0, 100.0, 100.0, 100.0);
    let (out, handle) = resize(rect, Handle::TopLeft, raw(260.0, 270.0), bounds());
    assert_eq!(out, area(200.0, 200.0, 60.0, 70.0));
    assert_eq!(handle, Handle::BottomRight);
}

#[test]
fn resize_clamps_the_pointer_to_the_output() {
    let rect = area(100.0, 100.0, 100.0, 100.0);
    let (out, _) = resize(rect, Handle::BottomRight, raw(9000.0, 9000.0), bounds());
    assert_eq!(out, area(100.0, 100.0, 700.0, 500.0));
    let (out, _) = resize(rect, Handle::TopLeft, raw(-9000.0, -9000.0), bounds());
    assert_eq!(out, area(0.0, 0.0, 200.0, 200.0));
}

#[test]
fn clamp_position_slides_without_resizing() {
    let b = bounds();
    assert_eq!(
        clamp_position(area(-50.0, -50.0, 100.0, 100.0), b),
        area(0.0, 0.0, 100.0, 100.0)
    );
    assert_eq!(
        clamp_position(area(780.0, 580.0, 100.0, 100.0), b),
        area(700.0, 500.0, 100.0, 100.0)
    );
}

#[test]
fn clamp_position_pins_a_rect_bigger_than_the_output_to_its_origin() {
    let b = bounds();
    assert_eq!(
        clamp_position(area(-10.0, -10.0, 2000.0, 2000.0), b),
        area(0.0, 0.0, 2000.0, 2000.0)
    );
}

#[test]
fn clamp_shape_trims_instead_of_sliding() {
    let b = bounds();
    assert_eq!(
        clamp_shape(area(-50.0, -50.0, 100.0, 100.0), b),
        area(0.0, 0.0, 50.0, 50.0)
    );
    assert_eq!(
        clamp_shape(area(750.0, 550.0, 100.0, 100.0), b),
        area(750.0, 550.0, 50.0, 50.0)
    );
}

#[test]
fn edges_within_range_snap_flush_to_the_output() {
    let b = bounds();
    let snapped = snap_edges_to_bounds(area(3.0, 5.0, 790.0, 590.0), b, size_of(8.0));
    assert_eq!(snapped, area(0.0, 0.0, 800.0, 600.0));
}

#[test]
fn edges_outside_range_are_left_alone() {
    let b = bounds();
    let rect = area(20.0, 20.0, 100.0, 100.0);
    assert_eq!(snap_edges_to_bounds(rect, b, size_of(8.0)), rect);
}

#[test]
fn only_the_near_edge_snaps() {
    let b = bounds();
    let snapped = snap_edges_to_bounds(area(2.0, 100.0, 100.0, 100.0), b, size_of(8.0));
    assert_eq!(snapped, area(0.0, 100.0, 102.0, 100.0));
}

#[test]
fn position_snapping_preserves_the_size_exactly() {
    let b = bounds();
    let snapped = snap_position_to_edges(area(3.0, 497.0, 100.0, 100.0), b, size_of(8.0));
    assert_eq!(snapped.width, size_of(100.0));
    assert_eq!(snapped.height, size_of(100.0));
    assert_eq!(snapped.x, px(0.0), "left edge snapped flush");
    assert_eq!(snapped.y, px(500.0), "bottom edge snapped flush");
}

#[test]
fn position_snapping_leaves_a_rect_hanging_off_the_edge_to_the_clamp() {
    let b = bounds();
    let rect = area(3.0, 597.0, 100.0, 100.0);
    let snapped = snap_position_to_edges(rect, b, size_of(8.0));
    assert_eq!(snapped.y, px(597.0), "untouched by the snap");
    assert_eq!(
        clamp_position(snapped, b).y,
        px(500.0),
        "the clamp is what fixes it"
    );
}

#[test]
fn pixel_snapping_rounds_each_edge_independently() {
    let first = snap_to_pixels(area(0.4, 0.0, 10.1, 10.0));
    let second = snap_to_pixels(area(10.5, 0.0, 9.9, 10.0));
    assert_eq!((first.x, first.width), (px(0.0), size_of(11.0)));
    assert_eq!((second.x, second.width), (px(11.0), size_of(9.0)));
    assert_eq!(first.right(), second.x as i64, "adjacent, with no seam");
}

#[test]
fn settling_a_shape_always_lands_inside_the_output() {
    let b = bounds();
    for rect in [
        area(-100.0, -100.0, 5000.0, 5000.0),
        area(799.5, 599.5, 10.0, 10.0),
        area(0.0, 0.0, 0.0, 0.0),
    ] {
        let settled = settle_shape(rect, b);
        assert!(settled.x >= b.x, "{settled:?}");
        assert!(settled.y >= b.y, "{settled:?}");
        assert!(settled.right() <= b.right(), "{settled:?}");
        assert!(settled.bottom() <= b.bottom(), "{settled:?}");
    }
}

#[test]
fn settling_a_position_keeps_the_size_and_lands_inside() {
    let b = bounds();
    let settled = settle_position(area(760.4, 30.6, 100.0, 100.0), b);
    assert_eq!((settled.width, settled.height), (size_of(100.0), size_of(100.0)));
    assert_eq!(settled.x, px(700.0), "clamped flush against the right edge");
    assert_eq!(settled.y, px(31.0), "rounded onto the pixel grid");
}

#[test]
fn a_full_create_drag_produces_the_dragged_rectangle() {
    let mut overlay = overlay();
    assert_eq!(
        overlay.update(Message::CursorMoved(raw(100.0, 100.0))),
        Action::Nothing
    );
    overlay.update(Message::Pressed);
    overlay.update(Message::CursorMoved(raw(300.0, 250.0)));
    overlay.update(Message::Released);
    assert_eq!(
        overlay.selection(),
        Some(area(100.0, 100.0, 200.0, 150.0))
    );
}

#[test]
fn a_backwards_drag_produces_the_same_rectangle() {
    let mut overlay = overlay();
    overlay.update(Message::CursorMoved(raw(300.0, 250.0)));
    overlay.update(Message::Pressed);
    overlay.update(Message::CursorMoved(raw(100.0, 100.0)));
    overlay.update(Message::Released);
    assert_eq!(
        overlay.selection(),
        Some(area(100.0, 100.0, 200.0, 150.0))
    );
}

#[test]
fn a_click_with_no_drag_leaves_nothing_selected() {
    let mut overlay = overlay();
    overlay.update(Message::CursorMoved(raw(100.0, 100.0)));
    overlay.update(Message::Pressed);
    overlay.update(Message::CursorMoved(raw(101.0, 101.0)));
    overlay.update(Message::Released);
    assert_eq!(overlay.selection(), None, "a 1x1 rect is a stray click");
}

#[test]
fn a_press_outside_discards_the_old_selection() {
    let mut overlay = overlay();
    overlay.update(Message::CursorMoved(raw(100.0, 100.0)));
    overlay.update(Message::Pressed);
    overlay.update(Message::CursorMoved(raw(200.0, 200.0)));
    overlay.update(Message::Released);
    assert!(overlay.selection().is_some());

    overlay.update(Message::CursorMoved(raw(500.0, 500.0)));
    overlay.update(Message::Pressed);
    assert_eq!(
        overlay.selection(),
        None,
        "cleared the instant the new drag starts"
    );
}

#[test]
fn dragging_the_middle_moves_the_selection() {
    let mut overlay = overlay();
    overlay.update(Message::CursorMoved(raw(100.0, 100.0)));
    overlay.update(Message::Pressed);
    overlay.update(Message::CursorMoved(raw(300.0, 300.0)));
    overlay.update(Message::Released);

    overlay.update(Message::CursorMoved(raw(200.0, 200.0)));
    overlay.update(Message::Pressed);
    overlay.update(Message::CursorMoved(raw(250.0, 230.0)));
    overlay.update(Message::Released);

    assert_eq!(
        overlay.selection(),
        Some(area(150.0, 130.0, 200.0, 200.0))
    );
}

#[test]
fn a_move_that_leaves_the_output_is_clamped_not_resized() {
    let mut overlay = overlay();
    overlay.update(Message::CursorMoved(raw(100.0, 100.0)));
    overlay.update(Message::Pressed);
    overlay.update(Message::CursorMoved(raw(300.0, 300.0)));
    overlay.update(Message::Released);

    overlay.update(Message::CursorMoved(raw(200.0, 200.0)));
    overlay.update(Message::Pressed);
    overlay.update(Message::CursorMoved(raw(9000.0, 9000.0)));
    overlay.update(Message::Released);

    let selection = overlay.selection().expect("still selected");
    assert_eq!((selection.width, selection.height), (size_of(200.0), size_of(200.0)));
    assert_eq!((selection.x, selection.y), (px(600.0), px(400.0)));
}

#[test]
fn grabbing_a_handle_resizes_rather_than_moves() {
    let mut overlay = overlay();
    overlay.update(Message::CursorMoved(raw(100.0, 100.0)));
    overlay.update(Message::Pressed);
    overlay.update(Message::CursorMoved(raw(300.0, 300.0)));
    overlay.update(Message::Released);

    overlay.update(Message::CursorMoved(raw(300.0, 300.0)));
    overlay.update(Message::Pressed);
    overlay.update(Message::CursorMoved(raw(400.0, 350.0)));
    overlay.update(Message::Released);

    assert_eq!(
        overlay.selection(),
        Some(area(100.0, 100.0, 300.0, 250.0))
    );
}

#[test]
fn a_press_with_no_cursor_yet_does_nothing() {
    let mut overlay = overlay();
    overlay.update(Message::Pressed);
    overlay.update(Message::Released);
    assert_eq!(overlay.selection(), None);
}

#[test]
fn a_press_swallowed_by_the_toolbar_changes_nothing() {
    let mut overlay = overlay();
    overlay.update(Message::CursorMoved(raw(100.0, 100.0)));
    overlay.update(Message::Pressed);
    overlay.update(Message::CursorMoved(raw(300.0, 250.0)));
    overlay.update(Message::Released);
    let before = overlay.selection();

    overlay.update(Message::CursorMoved(raw(600.0, 560.0)));
    assert_eq!(overlay.update(Message::ToolbarPressed), Action::Nothing);
    overlay.update(Message::CursorMoved(raw(620.0, 560.0)));
    overlay.update(Message::Released);

    assert_eq!(
        overlay.selection(),
        before,
        "the selection survived a fumbled toolbar click"
    );
}

#[test]
fn escape_cancels() {
    let mut overlay = overlay();
    assert_eq!(overlay.update(Message::Cancel), Action::Cancel);
}

#[test]
fn confirm_without_a_selection_does_nothing() {
    let mut overlay = overlay();
    assert_eq!(overlay.update(Message::Confirm), Action::Nothing);
}

#[test]
fn confirm_reports_the_selection_in_desktop_logical_coordinates() {
    let mut overlay = Overlay::new(output_at(1706, 40), None);
    overlay.update(Message::CursorMoved(raw(100.0, 100.0)));
    overlay.update(Message::Pressed);
    overlay.update(Message::CursorMoved(raw(300.0, 250.0)));
    overlay.update(Message::Released);

    assert_eq!(
        overlay.update(Message::Confirm),
        Action::Confirm(LogicalRect {
            x: 1806,
            y: 140,
            width: 200,
            height: 150,
        })
    );
}

#[test]
fn the_fullscreen_button_confirms_the_whole_output() {
    let mut overlay = Overlay::new(output_at(1706, 40), None);
    assert_eq!(
        overlay.update(Message::SelectFullOutput),
        Action::Confirm(LogicalRect {
            x: 1706,
            y: 40,
            width: 800,
            height: 600,
        })
    );
}

#[test]
fn the_window_button_confirms_the_focused_window() {
    let mut overlay = Overlay::new(output_at(0, 0), Some(WindowRef(7)));
    assert_eq!(
        overlay.update(Message::SelectWindow),
        Action::ConfirmWindow(WindowRef(7))
    );
}

#[test]
fn the_window_button_does_nothing_with_no_focused_window() {
    let mut overlay = overlay();
    assert_eq!(overlay.update(Message::SelectWindow), Action::Nothing);
}

#[test]
fn the_readout_counts_physical_pixels_not_logical_ones() {
    let overlay = Overlay::new(nested_output(), None);
    assert_eq!(
        overlay.readout_size(area(100.0, 100.0, 400.0, 300.0)),
        (600, 450)
    );
}

#[test]
fn the_readout_is_the_logical_size_on_an_unscaled_output() {
    let overlay = overlay();
    assert_eq!(
        overlay.readout_size(area(0.0, 0.0, 320.0, 240.0)),
        (320, 240)
    );
}

#[test]
fn escape_and_enter_map_to_cancel_and_confirm() {
    assert_eq!(
        message_from_event(&InputEvent::EscapePressed, false),
        Some(Message::Cancel)
    );
    assert_eq!(
        message_from_event(&InputEvent::EnterPressed, false),
        Some(Message::Confirm)
    );
    assert_eq!(
        message_from_event(&InputEvent::Other, false),
        None
    );
}

#[test]
fn escape_still_cancels_when_a_widget_captured_the_event() {
    assert_eq!(
        message_from_event(&InputEvent::EscapePressed, true),
        Some(Message::Cancel)
    );
}

#[test]
fn a_press_captured_by_a_toolbar_button_never_starts_a_drag() {
    let press = InputEvent::LeftPressed;
    assert_eq!(message_from_event(&press, false), Some(Message::Pressed));
    assert_eq!(
        message_from_event(&press, true),
        None,
        "the button already handled it"
    );
}

#[test]
fn releases_and_motion_are_always_forwarded() {
    let release = InputEvent::LeftReleased;
    assert_eq!(message_from_event(&release, true), Some(Message::Released));
    let moved = InputEvent::CursorMoved(raw(4.0, 5.0));
    assert_eq!(
        message_from_event(&moved, true),
        Some(Message::CursorMoved(raw(4.0, 5.0)))
    );
}

#[test]
fn other_buttons_and_events_are_ignored() {
    let right = InputEvent::Other;
    assert_eq!(message_from_event(&right, false), None);
    let wheel = InputEvent::Other;
    assert_eq!(message_from_event(&wheel, false), None);
}

fn selecting(from: RawPoint, to: RawPoint) -> Overlay {
    let mut overlay = overlay();
    overlay.update(Message::CursorMoved(from));
    overlay.update(Message::Pressed);
    overlay.update(Message::CursorMoved(to));
    overlay.update(Message::Released);
    overlay
}

#[test]
fn a_coordinate_that_is_no_number_is_the_edge() {
    let nowhere = RawPoint { x: None, y: None };
    let overlay = selecting(raw(100.0, 100.0), nowhere);
    assert_eq!(
        overlay.selection(),
        Some(area(0.0, 0.0, 100.0, 100.0)),
        "dragged to the origin"
    );
}

#[test]
fn the_scrim_leaves_out_exactly_the_selection() {
    let b = bounds();
    let bands = scrim_bands(area(100.0, 50.0, 200.0, 100.0), b);
    assert_eq!(
        bands,
        [
            area(0.0, 0.0, 800.0, 50.0),
            area(0.0, 150.0, 800.0, 450.0),
            area(0.0, 50.0, 100.0, 100.0),
            area(300.0, 50.0, 500.0, 100.0),
        ]
    );
}

#[test]
fn the_toolbar_offers_what_there_is() {
    let names: Vec<ToolbarName> = toolbar(false, false).iter().map(|b| b.name).collect();
    assert_eq!(names.len(), 4);
    let labels: Vec<&str> = names.iter().map(|n| n.label()).collect();
    assert!(labels.contains(&"Capture") && labels.contains(&"Cancel"));
    for button in toolbar(true, true) {
        assert!(button.message.is_some(), "{button:?}");
    }
    let disabled = toolbar(false, false)
        .iter()
        .filter(|b| b.message.is_none())
        .count();
    assert_eq!(disabled, 2, "no selection to capture and no window");
}

#[test]
fn the_pointer_shows_what_a_press_would_do() {
    assert_eq!(pointer_shape(HitTarget::Inside), PointerShape::Grab);
    assert_eq!(pointer_shape(HitTarget::Outside), PointerShape::Crosshair);
    assert_eq!(
        pointer_shape(HitTarget::Handle(Handle::Left)),
        Handle::Left.interaction()
    );
}

#[test]
fn the_readout_says_the_size_in_words() {
    let overlay = overlay();
    assert_eq!(
        overlay.readout_text(area(0.0, 0.0, 320.0, 240.0)),
        "320 × 240"
    );
}

#[test]
fn logical_sizes_become_pixels_edge_by_edge() {
    let output = nested_output();
    let size = |x: i32, width: u32| {
        pixel_size(
            LogicalRect {
                x,
                y: 0,
                width,
                height: 10,
            },
            &output,
        )
    };
    assert_eq!(size(0, 400), Some((600, 15)));
    assert_eq!(size(0, 1), Some((2, 15)));
    assert_eq!(size(1, 1), Some((1, 15)), "the two columns tile three pixels");
}

#[test]
fn the_near_edge_wins_where_both_are_in_reach() {
    let b = area(0.0, 0.0, 800.0, 600.0);
    let snapped = snap_position_to_edges(area(5.0, 100.0, 790.0, 100.0), b, size_of(8.0));
    assert_eq!(snapped, area(0.0, 100.0, 790.0, 100.0));
    let snapped = snap_position_to_edges(area(100.0, 7.0, 100.0, 588.0), b, size_of(8.0));
    assert_eq!(snapped, area(100.0, 0.0, 100.0, 588.0));
}

#[test]
fn neighbours_on_the_pixel_grid_leave_no_seam() {
    for edge in [99.25, 99.5, 99.75, 100.0, 100.125] {
        let left = snap_to_pixels(area(10.5, 20.0, edge - 10.5, 50.0));
        let right = snap_to_pixels(area(edge, 20.0, 77.3, 50.0));
        assert_eq!(left.right(), i64::from(right.x), "{edge}");
        assert_eq!(snap_to_pixels(left), left);
        assert_eq!(snap_to_pixels(right), right);
    }
    let above = snap_to_pixels(area(0.0, 3.25, 10.0, 7.25));
    let below = snap_to_pixels(area(0.0, 10.5, 10.0, 4.0));
    assert_eq!(above.bottom(), i64::from(below.y));
}
