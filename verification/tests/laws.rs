use saola_capture::blur::blur_region;
use saola_capture::clock::{Duration, Instant};
use saola_capture::compose::{Annotation, compose, isqrt};
use saola_capture::countdown::Countdown;
use saola_capture::editor::EditorModel;
use saola_capture::fit::{Extent, FitTransform};
use saola_capture::flash::Flash;
use saola_capture::imaging::thumbnail_handle;
use saola_capture::pixmap::Frame;
use saola_capture::redact::pixelate_region;
use saola_capture::shapes::{
    AnnotationColor, Color, ColorPalette, Shape, Tool, near_segment, translate_shape,
};
use saola_capture::units::{Offset, PixelRect, Point, RawPoint, Rect};

fn pattern(width: u32, height: u32) -> Vec<u8> {
    (0..width * height * 4).map(|i| (i * 7 % 253) as u8).collect()
}

fn whole(width: u32, height: u32) -> PixelRect {
    PixelRect {
        x: 0,
        y: 0,
        width,
        height,
    }
}

#[test]
fn a_mosaic_shows_nothing_but_averages() {
    let mut first = pattern(4, 4);
    let mut second = first.clone();
    // The two left pixels of the first row change places.
    for c in 0..4 {
        second.swap(c, 4 + c);
    }
    assert_ne!(first, second);
    pixelate_region(&mut first, 4, 4, whole(4, 4), 2);
    pixelate_region(&mut second, 4, 4, whole(4, 4), 2);
    assert_eq!(first, second);
}

#[test]
fn a_second_mosaic_changes_nothing() {
    let mut once = pattern(11, 7);
    pixelate_region(&mut once, 11, 7, whole(11, 7), 3);
    let mut twice = once.clone();
    pixelate_region(&mut twice, 11, 7, whole(11, 7), 3);
    assert_eq!(once, twice);
}

#[test]
fn one_tile_can_cover_everything() {
    let mut buf = vec![10, 20, 30, 40, 20, 40, 60, 80];
    pixelate_region(&mut buf, 2, 1, whole(2, 1), u32::MAX);
    assert_eq!(buf, vec![15, 30, 45, 60, 15, 30, 45, 60]);
}

#[test]
fn a_blur_averages_a_window_along_each_axis() {
    // A single bright pixel in a row of five, blurred one pixel wide each way:
    // a third of it in each of three pixels.
    let mut buf = vec![0u8; 5 * 4];
    buf[8..12].copy_from_slice(&[90, 90, 90, 90]);
    blur_region(&mut buf, 5, 1, whole(5, 1), 1);
    let channel: Vec<u8> = buf.chunks(4).map(|p| p[0]).collect();
    assert_eq!(channel, vec![0, 30, 30, 30, 0]);
}

#[test]
fn a_move_and_its_opposite_cancel() {
    let shape = Shape::Freehand {
        points: vec![Point::from_pixels(1, 2), Point::from_pixels(30, -4)],
    };
    let there = translate_shape(&shape, Offset { dx: 700, dy: -900 });
    assert!(!there.same_as(&shape));
    let back = translate_shape(&there, Offset { dx: -700, dy: 900 });
    assert!(back.same_as(&shape));
    assert!(translate_shape(&shape, Offset { dx: 0, dy: 0 }).same_as(&shape));
}

#[test]
fn a_segment_is_as_near_from_either_end() {
    let a = Point::from_pixels(0, 0);
    let b = Point::from_pixels(10, 5);
    for x in -20..40 {
        for y in -20..30 {
            let (px, py) = (x * 100, y * 100);
            assert_eq!(
                near_segment(px, py, a, b, 900),
                near_segment(px, py, b, a, 900),
                "{px} {py}"
            );
        }
    }
}

fn palette() -> ColorPalette {
    ColorPalette {
        terracotta: Color::rgb(1, 1, 1),
        ink: Color::rgb(2, 2, 2),
        ivory: Color::rgb(3, 3, 3),
    }
}

fn outline(id: u64, color: AnnotationColor) -> Annotation {
    Annotation {
        id,
        shape: Shape::Rectangle {
            rect: Rect {
                x: 0,
                y: 0,
                width: 8 * 256,
                height: 8 * 256,
            },
        },
        color,
        stroke_width: 256,
    }
}

#[test]
fn later_annotations_are_painted_over_earlier_ones() {
    let base = Frame::new(8, 8, 120, vec![200; 8 * 8 * 4]).expect("valid buffer");
    let list = vec![
        outline(0, AnnotationColor::Ink),
        outline(1, AnnotationColor::Ivory),
    ];
    let composed = compose(&base, &list, palette(), &Vec::new());
    assert_eq!(composed.pixels()[0..4], [3, 3, 3, 255]);
    assert_eq!(composed.pixels()[(3 * 8 + 3) * 4], 200);
}

#[test]
fn thumbnails_fit_and_keep_a_pixel() {
    for (width, height) in [(1, 1), (500, 1), (1, 500), (97, 96), (96, 97), (640, 481)] {
        let frame = Frame::new(
            width,
            height,
            120,
            vec![9; (width * height * 4) as usize],
        )
        .expect("valid buffer");
        let small = thumbnail_handle(&frame, 96);
        assert!(small.width() >= 1 && small.width() <= 96, "{width}x{height}");
        assert!(small.height() >= 1 && small.height() <= 96, "{width}x{height}");
        assert!(small.pixels().iter().all(|b| *b == 9));
    }
}

#[test]
fn a_countdown_only_runs_down() {
    let start = Instant::from_nanos(0);
    let mut countdown = Countdown::default();
    countdown.trigger(Duration::from_secs(3), start);
    let mut last = u32::MAX;
    for ms in 0..3500 {
        let now = start.after(Duration::from_millis(ms));
        let left = countdown.remaining_secs(now);
        assert!(left <= last);
        assert_eq!(left > 0, countdown.is_active(now));
        last = left;
    }
    assert_eq!(last, 0);
}

#[test]
fn a_flash_only_fades() {
    let start = Instant::from_nanos(0);
    let fade = Duration::from_millis(140);
    let mut flash = Flash::default();
    flash.trigger(start);
    let mut last = u128::MAX;
    for ms in 0..200 {
        let now = start.after(Duration::from_millis(ms));
        let part = flash.opacity(now, fade).part;
        assert!(part <= last);
        assert_eq!(part > 0, flash.is_active(now, fade));
        last = part;
    }
}

#[test]
fn square_roots_are_rounded_down() {
    for n in 0..5000u64 {
        let r = isqrt(u128::from(n));
        assert!(r * r <= n && n < (r + 1) * (r + 1), "{n}");
    }
    assert_eq!(isqrt(0xFFFF_FFFF_FFFF_FFFF), 0xFFFF_FFFF);
}

#[test]
fn an_image_fills_the_view_on_one_axis() {
    let side = |v: u32| v * 256;
    for (w, h, vw, vh) in [(640, 480, 300, 500), (10, 1000, 300, 200), (7, 7, 7, 9)] {
        let fit = FitTransform::new(
            Extent {
                width: side(w),
                height: side(h),
            },
            Extent {
                width: side(vw),
                height: side(vh),
            },
        );
        assert!(fit.offset_x >= 0 && fit.offset_y >= 0);
        assert!(fit.offset_x == 0 || fit.offset_y == 0);
        assert!(fit.scaled(side(w)) <= side(vw) && fit.scaled(side(h)) <= side(vh));
    }
}

#[test]
fn ids_are_never_given_twice() {
    let frame = Frame::new(50, 50, 120, vec![0; 50 * 50 * 4]).expect("valid buffer");
    let mut model = EditorModel::new(frame);
    model.set_tool(Tool::Step);
    let press = |model: &mut EditorModel| -> u64 {
        model.pressed(RawPoint::at(Point::from_pixels(5, 5)));
        model.annotations().last().expect("placed").id
    };
    let first = press(&mut model);
    model.undo();
    let second = press(&mut model);
    model.set_tool(Tool::Select);
    model.delete_selected();
    model.set_tool(Tool::Step);
    let third = press(&mut model);
    assert!(first < second && second < third);
}

#[test]
fn undo_brings_back_what_was_there() {
    let frame = Frame::new(50, 50, 120, pattern(50, 50)).expect("valid buffer");
    let mut model = EditorModel::new(frame.clone());
    model.set_tool(Tool::Crop);
    model.pressed(RawPoint::at(Point::from_pixels(5, 5)));
    model.released(RawPoint::at(Point::from_pixels(25, 20)));
    assert!(model.apply_crop());
    assert!(!model.apply_crop(), "applied once");
    assert_eq!((model.canvas().width(), model.canvas().height()), (20, 15));
    let cropped = model.canvas().pixels().clone();
    model.undo();
    assert_eq!(model.canvas().pixels(), frame.pixels());
    model.redo();
    assert_eq!(model.canvas().pixels(), &cropped);
}

#[test]
fn tiles_of_one_pixel_change_nothing() {
    let buf = pattern(5, 4);
    for block in [0, 1] {
        let mut mosaic = buf.clone();
        pixelate_region(&mut mosaic, 5, 4, whole(5, 4), block);
        assert_eq!(mosaic, buf, "{block}");
    }
}

#[test]
fn a_blurred_part_is_part_of_the_blurred_whole() {
    let buf = pattern(40, 30);
    let mut all = buf.clone();
    blur_region(&mut all, 40, 30, whole(40, 30), 3);
    let part = PixelRect {
        x: 2,
        y: 11,
        width: 25,
        height: 40,
    };
    let mut some = buf.clone();
    blur_region(&mut some, 40, 30, part, 3);
    for y in 0..30u32 {
        for x in 0..40u32 {
            let at = ((y * 40 + x) * 4) as usize;
            let inside = (2..27).contains(&x) && y >= 11;
            let expected = if inside { &all } else { &buf };
            assert_eq!(some[at..at + 4], expected[at..at + 4], "{x} {y}");
        }
    }
}

#[test]
fn a_thumbnail_is_scaled_in_single_precision() {
    let sized = |width: u32, height: u32, max: u32| {
        let pixels = vec![9; (width * height * 4) as usize];
        let frame = Frame::new(width, height, 120, pixels).expect("valid buffer");
        let small = thumbnail_handle(&frame, max);
        (small.width(), small.height())
    };
    // 375 * 0.036 is a little less than 13.5 in single precision.
    assert_eq!(sized(1000, 375, 36), (36, 13));
    for max in [1, 7, 36, 96, 128] {
        for (width, height) in [(1000, 375), (1920, 1080), (333, 777), (4, 3000), (501, 500)] {
            let scale = (max as f32 / width.max(height) as f32).min(1.0);
            let side = |v: u32| ((v as f32 * scale).round() as u32).max(1);
            assert_eq!(
                sized(width, height, max),
                (side(width), side(height)),
                "{width}x{height} at {max}"
            );
        }
    }
}
