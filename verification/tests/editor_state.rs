use saola_capture::canvas::{
    CanvasEvent, CanvasMessage, CanvasPointer, DrawOp, Paint, canvas_message, draw,
    mouse_interaction,
};
use saola_capture::compose::{Annotation, Glyph, TextRun, compose, text_request};
use saola_capture::editor::EditorModel;
use saola_capture::editor_state::{EditorAction, EditorButton, EditorState, Message};
use saola_capture::fit::{Extent, FitTransform};
use saola_capture::imaging::ImageFormat;
use saola_capture::pixmap::Frame;
use saola_capture::shapes::{
    AnnotationColor, Color, ColorPalette, Shape, StrokeWidth, TextSizeScale, TextSizeStop, Tool,
};
use saola_capture::units::{Point, RawPoint, Rect};

fn px(v: f32) -> i32 {
    (v * 256.0).round() as i32
}

fn point(x: f32, y: f32) -> Point {
    Point::new(px(x), px(y))
}

fn raw(x: f32, y: f32) -> RawPoint {
    RawPoint::at(point(x, y))
}

fn palette() -> ColorPalette {
    ColorPalette {
        terracotta: Color::rgb(0xC6, 0x71, 0x39),
        ink: Color::rgb(0x0C, 0x0A, 0x00),
        ivory: Color::rgb(0xFF, 0xFF, 0xF0),
    }
}

fn sizes() -> TextSizeScale {
    TextSizeScale {
        small: 12 * 256,
        medium: 20 * 256,
        large: 40 * 256,
    }
}

fn frame(width: u32, height: u32) -> Frame {
    let pixels = (0..width * height * 4).map(|i| (i % 251) as u8).collect();
    Frame::new(width, height, 120, pixels).expect("valid buffer")
}

fn editor() -> EditorState {
    EditorState::open(
        "/tmp/shot.webp",
        frame(100, 100),
        palette(),
        sizes(),
        ImageFormat::Webp,
        90,
    )
}

fn drawn_rectangle() -> EditorState {
    let mut editor = editor();
    editor.update(Message::ToolSelected(Tool::Rectangle));
    editor.update(Message::Pressed(raw(10.0, 10.0)));
    editor.update(Message::PointerMoved(raw(50.0, 40.0)));
    editor.update(Message::Released(raw(50.0, 40.0)));
    editor
}

#[test]
fn an_editor_opens_ready_to_save_where_the_file_is() {
    let editor = editor();
    assert_eq!(editor.path(), "/tmp/shot.webp");
    assert_eq!(editor.save_as_path(), "/tmp/shot.webp");
    assert_eq!(editor.export_format(), ImageFormat::Webp);
    assert_eq!(editor.export_quality_text(), "90");
    assert_eq!(editor.model().current_text_size(), 20 * 256);
    assert!(!editor.is_busy());
    assert_eq!(editor.feedback(), None);
}

/// A 2x1 image: red, then half-opaque blue.
fn tiny_png() -> Vec<u8> {
    let mut out = Vec::new();
    let pixels: [u8; 8] = [255, 0, 0, 255, 0, 0, 255, 128];
    image::ImageEncoder::write_image(
        image::codecs::png::PngEncoder::new(&mut out),
        &pixels,
        2,
        1,
        image::ExtendedColorType::Rgba8,
    )
    .expect("encodes");
    out
}

fn load(path: &str, read: Result<Vec<u8>, String>) -> Result<EditorState, String> {
    EditorState::load(path, read, palette(), sizes(), ImageFormat::Png, 80)
}

#[test]
fn a_file_is_decoded_by_its_extension() {
    let Ok(editor) = load("/tmp/a.png", Ok(tiny_png())) else {
        panic!("expected an editor");
    };
    let canvas = editor.model().canvas();
    assert_eq!((canvas.width(), canvas.height(), canvas.scale()), (2, 1, 120));
    assert_eq!(canvas.pixels(), &vec![255, 0, 0, 255, 0, 0, 255, 128]);
    assert!(load("/tmp/a.webp", Ok(tiny_png())).is_err(), "not a WebP");
    assert!(load("/tmp/a.png", Ok(vec![1, 2, 3])).is_err());
    match load("/tmp/a.png", Err("gone".to_string())) {
        Err(why) => assert_eq!(why, "gone"),
        Ok(_) => panic!("expected a failure"),
    }
}

#[test]
fn saving_keeps_other_work_out_until_it_is_done() {
    let mut editor = editor();
    editor.update(Message::ExportQualityChanged(" 75 ".to_string()));
    match editor.update(Message::SavePressed) {
        EditorAction::Save(job) => {
            assert_eq!(job.target, "/tmp/shot.webp");
            assert_eq!(job.format, ImageFormat::Webp);
            assert_eq!(job.quality, 75);
        }
        other => panic!("expected a save, got {other:?}"),
    }
    assert!(editor.is_busy());
    assert!(!editor.can_press(EditorButton::Copy));
    assert!(matches!(editor.update(Message::SavePressed), EditorAction::Nothing));
    assert!(matches!(editor.update(Message::CopyPressed), EditorAction::Nothing));
    assert!(matches!(
        editor.update(Message::SaveAndCopyPressed),
        EditorAction::Nothing
    ));
    editor.update(Message::SaveFinished(Ok("/tmp/shot.webp".to_string())));
    assert!(!editor.is_busy());
    assert_eq!(editor.feedback(), Some((true, "Saved: /tmp/shot.webp")));
}

#[test]
fn saving_under_another_name_goes_by_its_extension() {
    let mut editor = editor();
    editor.update(Message::SaveAsPathChanged("  /tmp/other.PNG \n".to_string()));
    match editor.update(Message::SaveAsPressed) {
        EditorAction::Save(job) => {
            assert_eq!(job.target, "/tmp/other.PNG");
            assert_eq!(job.format, ImageFormat::Png);
        }
        other => panic!("expected a save, got {other:?}"),
    }
    editor.update(Message::SaveFinished(Ok("/tmp/other.PNG".to_string())));
    assert_eq!(editor.path(), "/tmp/other.PNG");
    assert_eq!(editor.save_as_path(), "/tmp/other.PNG");
}

#[test]
fn a_blank_name_is_refused() {
    let mut editor = editor();
    editor.update(Message::SaveAsPathChanged(" \t ".to_string()));
    assert!(matches!(
        editor.update(Message::SaveAsPressed),
        EditorAction::Nothing
    ));
    assert!(!editor.is_busy());
    assert_eq!(editor.feedback(), Some((false, "enter a path to save as")));
}

#[test]
fn the_chosen_format_is_for_paths_that_say_nothing() {
    let mut editor = editor();
    editor.update(Message::ExportFormatSelected(ImageFormat::Png));
    editor.update(Message::SaveAsPathChanged("/tmp/plain".to_string()));
    match editor.update(Message::SaveAsPressed) {
        EditorAction::Save(job) => assert_eq!(job.format, ImageFormat::Png),
        other => panic!("expected a save, got {other:?}"),
    }
}

#[test]
fn copying_reports_how_it_went() {
    let mut editor = editor();
    assert!(matches!(editor.update(Message::CopyPressed), EditorAction::Copy));
    editor.update(Message::CopyFinished(Ok(())));
    assert_eq!(editor.feedback(), Some((true, "Copied to the clipboard")));
    editor.update(Message::CopyPressed);
    editor.update(Message::CopyFinished(Err("no clipboard".to_string())));
    assert_eq!(editor.feedback(), Some((false, "no clipboard")));
    assert!(!editor.is_busy());
}

#[test]
fn saving_and_copying_is_one_piece_of_work() {
    let mut editor = editor();
    assert!(matches!(
        editor.update(Message::SaveAndCopyPressed),
        EditorAction::SaveAndCopy(_)
    ));
    editor.update(Message::SaveAndCopyFinished(Ok("/tmp/b.webp".to_string())));
    assert_eq!(editor.feedback(), Some((true, "Saved & copied: /tmp/b.webp")));
    editor.update(Message::SaveAndCopyPressed);
    editor.update(Message::SaveAndCopyFinished(Err("disk full".to_string())));
    assert_eq!(editor.feedback(), Some((false, "disk full")));
    assert_eq!(editor.path(), "/tmp/b.webp");
}

#[test]
fn undo_and_redo_show_the_canvas_anew() {
    let mut editor = drawn_rectangle();
    assert!(editor.can_press(EditorButton::Undo) && !editor.can_press(EditorButton::Redo));
    assert!(matches!(editor.update(Message::Undo), EditorAction::RefreshCanvas));
    assert!(editor.model().annotations().is_empty());
    assert!(editor.can_press(EditorButton::Redo));
    assert!(matches!(editor.update(Message::Redo), EditorAction::RefreshCanvas));
    assert_eq!(editor.model().annotations().len(), 1);
}

#[test]
fn cropping_and_redacting_show_the_canvas_anew() {
    let mut editor = editor();
    assert!(!editor.is_shown(EditorButton::ApplyCrop));
    editor.update(Message::ToolSelected(Tool::Crop));
    assert!(editor.is_shown(EditorButton::ApplyCrop));
    assert!(!editor.can_press(EditorButton::ApplyCrop));
    assert!(matches!(editor.update(Message::ApplyCrop), EditorAction::Nothing));
    editor.update(Message::Pressed(raw(0.0, 0.0)));
    assert!(matches!(
        editor.update(Message::Released(raw(60.0, 60.0))),
        EditorAction::Nothing
    ));
    assert!(editor.can_press(EditorButton::ApplyCrop));
    assert!(matches!(
        editor.update(Message::ApplyCrop),
        EditorAction::RefreshCanvas
    ));
    assert_eq!(editor.model().canvas().width(), 60);

    editor.update(Message::ToolSelected(Tool::Pixelate));
    editor.update(Message::Pressed(raw(5.0, 5.0)));
    assert!(matches!(
        editor.update(Message::Released(raw(40.0, 40.0))),
        EditorAction::RefreshCanvas
    ));
    editor.update(Message::CancelCrop);
    assert_eq!(editor.model().pending_crop(), None);
}

#[test]
fn a_selected_caption_can_be_worded_and_sized() {
    let mut editor = editor();
    assert_eq!(editor.caption(), None);
    editor.update(Message::ToolSelected(Tool::Text));
    editor.update(Message::Pressed(raw(10.0, 10.0)));
    editor.update(Message::TextContentChanged("hello".to_string()));
    editor.update(Message::TextSizeSelected(TextSizeStop::Large));
    assert_eq!(editor.caption(), Some(("hello", TextSizeStop::Large)));
    assert!(editor.can_press(EditorButton::Delete));
    editor.update(Message::DeleteSelected);
    assert_eq!(editor.caption(), None);
}

#[test]
fn color_and_width_go_to_what_is_drawn_next() {
    let mut editor = editor();
    editor.update(Message::ColorSelected(AnnotationColor::Ivory));
    editor.update(Message::WidthSelected(StrokeWidth::Thick));
    editor.update(Message::ToolSelected(Tool::Arrow));
    editor.update(Message::Pressed(raw(0.0, 0.0)));
    editor.update(Message::Released(raw(20.0, 20.0)));
    let annotation = &editor.model().annotations()[0];
    assert_eq!(annotation.color, AnnotationColor::Ivory);
    assert_eq!(annotation.stroke_width, StrokeWidth::Thick.pixels());
}

#[test]
fn buttons_have_their_labels() {
    assert_eq!(EditorButton::SaveAndCopy.label(), "Save & Copy");
    assert_eq!(EditorButton::ApplyCrop.label(), "Apply Crop");
    assert!(EditorButton::Save.is_primary() && !EditorButton::Copy.is_primary());
    assert!(matches!(EditorButton::Delete.message(), Message::DeleteSelected));
    for tool in Tool::all() {
        assert!(!tool.label().is_empty());
    }
    for stop in TextSizeStop::all() {
        assert!(!stop.label().is_empty());
    }
}

fn doubled() -> (FitTransform, Extent) {
    let view = Extent {
        width: 200 * 256,
        height: 200 * 256,
    };
    let image = Extent {
        width: 100 * 256,
        height: 100 * 256,
    };
    (FitTransform::new(image, view), view)
}

fn ops(model: &EditorModel) -> Vec<DrawOp> {
    let (fit, view) = doubled();
    draw(model, fit, view, palette())
}

#[test]
fn annotations_are_drawn_in_the_view() {
    let mut editor = drawn_rectangle();
    editor.update(Message::ToolSelected(Tool::Select));
    editor.update(Message::Pressed(raw(90.0, 90.0)));
    editor.update(Message::Released(raw(90.0, 90.0)));
    match ops(editor.model()).as_slice() {
        [DrawOp::Outline {
            corner,
            size,
            pen,
            dashed,
        }] => {
            assert_eq!(*corner, point(20.0, 20.0));
            assert_eq!((size.width, size.height), (80 * 256, 60 * 256));
            assert_eq!(pen.paint, Paint::Plain(palette().terracotta));
            assert_eq!(pen.width, 2 * StrokeWidth::Medium.pixels() as u32);
            assert!(!dashed);
        }
        other => panic!("expected one outline, got {other:?}"),
    }
}

#[test]
fn a_selected_annotation_is_outlined_and_drawn_where_it_is_moved_to() {
    let mut editor = drawn_rectangle();
    editor.update(Message::ToolSelected(Tool::Select));
    editor.update(Message::Pressed(raw(10.0, 20.0)));
    editor.update(Message::PointerMoved(raw(15.0, 20.0)));
    match ops(editor.model()).as_slice() {
        [DrawOp::Outline { corner, .. }, DrawOp::Outline {
            corner: highlight,
            size,
            pen,
            dashed,
        }] => {
            assert_eq!(*corner, point(30.0, 20.0));
            assert_eq!(*highlight, point(18.0, 8.0));
            assert_eq!((size.width, size.height), (104 * 256, 84 * 256));
            assert_eq!(pen.paint, Paint::Accent);
            assert!(dashed);
        }
        other => panic!("expected an outline and its highlight, got {other:?}"),
    }
}

#[test]
fn a_drag_of_the_crop_tool_dims_all_but_the_region() {
    let mut editor = editor();
    editor.update(Message::ToolSelected(Tool::Crop));
    editor.update(Message::Pressed(raw(0.0, 10.0)));
    editor.update(Message::PointerMoved(raw(50.0, 60.0)));
    let drawn = ops(editor.model());
    let bands: Vec<(i64, i64, i64, i64)> = drawn
        .iter()
        .filter_map(|op| match op {
            DrawOp::Dim(b) => Some((b.x / 256, b.y / 256, b.width / 256, b.height / 256)),
            _ => None,
        })
        .collect();
    assert_eq!(
        bands,
        vec![(0, 0, 200, 20), (0, 120, 200, 80), (100, 20, 100, 100)]
    );
    assert!(matches!(drawn.last(), Some(DrawOp::Outline { dashed: false, .. })));
}

#[test]
fn an_arrow_is_drawn_with_its_head_and_a_badge_with_its_number() {
    let mut editor = editor();
    editor.update(Message::ToolSelected(Tool::Arrow));
    editor.update(Message::Pressed(raw(10.0, 50.0)));
    editor.update(Message::PointerMoved(raw(60.0, 50.0)));
    match ops(editor.model()).as_slice() {
        [DrawOp::Line { from, to, pen }, DrawOp::Triangle { a, b, c, .. }] => {
            assert_eq!((*from, *to), (point(20.0, 100.0), point(120.0, 100.0)));
            assert_eq!((pen.paint, pen.width), (Paint::Accent, 1024));
            assert_eq!(*a, *to);
            assert_eq!((b.x, c.x), (px(104.0), px(104.0)));
            assert_eq!((b.y - c.y).abs(), px(9.6));
        }
        other => panic!("expected an arrow, got {other:?}"),
    }
    let mut editor = drawn_rectangle();
    editor.update(Message::ToolSelected(Tool::Step));
    editor.update(Message::Pressed(raw(80.0, 80.0)));
    let drawn = ops(editor.model());
    assert!(drawn.iter().any(|op| matches!(
        op,
        DrawOp::Disc { radius: 7168, .. }
    )));
    assert!(drawn.iter().any(|op| match op {
        DrawOp::Words {
            content, centered, ..
        } => content == "1" && *centered,
        _ => false,
    }));
}

#[test]
fn input_over_the_canvas_is_taken_to_the_image() {
    let (fit, _) = doubled();
    let at = Some(point(40.0, 60.0));
    let last = Some(point(1.0, 2.0));
    assert_eq!(
        canvas_message(CanvasEvent::CursorMoved, fit, at, last),
        CanvasMessage::PointerMoved(point(20.0, 30.0))
    );
    assert_eq!(
        canvas_message(CanvasEvent::CursorMoved, fit, None, last),
        CanvasMessage::Nothing
    );
    assert_eq!(
        canvas_message(CanvasEvent::LeftPressed, fit, at, None),
        CanvasMessage::Pressed(point(20.0, 30.0))
    );
    assert_eq!(
        canvas_message(CanvasEvent::LeftReleased, fit, None, last),
        CanvasMessage::Released(point(1.0, 2.0)),
        "a drag that left the view still ends"
    );
    assert_eq!(
        canvas_message(CanvasEvent::LeftReleased, fit, None, None),
        CanvasMessage::Nothing
    );
    assert_eq!(
        canvas_message(CanvasEvent::Other, fit, at, last),
        CanvasMessage::Nothing
    );
}

#[test]
fn the_pointer_shows_what_can_be_taken() {
    let mut editor = drawn_rectangle();
    let on = point(10.0, 20.0);
    let off = point(90.0, 90.0);
    assert_eq!(mouse_interaction(editor.model(), on), CanvasPointer::Grab);
    assert_eq!(mouse_interaction(editor.model(), off), CanvasPointer::Plain);
    editor.update(Message::ToolSelected(Tool::Select));
    editor.update(Message::Pressed(raw(10.0, 20.0)));
    assert_eq!(mouse_interaction(editor.model(), off), CanvasPointer::Grabbing);
    editor.update(Message::Released(raw(10.0, 20.0)));
    editor.update(Message::ToolSelected(Tool::Freehand));
    editor.update(Message::Pressed(raw(10.0, 20.0)));
    assert_eq!(mouse_interaction(editor.model(), on), CanvasPointer::Crosshair);
}

#[test]
fn captions_and_badges_are_composed_from_their_shaped_text() {
    let caption = Annotation {
        id: 0,
        shape: Shape::Text {
            position: point(2.0, 3.0),
            content: "x".to_string(),
            size: 12 * 256,
        },
        color: AnnotationColor::Ink,
        stroke_width: 512,
    };
    let outline = Annotation {
        id: 1,
        shape: Shape::Rectangle {
            rect: Rect {
                x: 0,
                y: 0,
                width: 2560,
                height: 2560,
            },
        },
        color: AnnotationColor::Ink,
        stroke_width: 512,
    };
    let request = text_request(&caption, palette()).expect("a caption has a text");
    assert_eq!(request.content, "x");
    assert_eq!(request.color, palette().ink);
    assert!(text_request(&outline, palette()).is_none());

    let base = Frame::new(8, 8, 120, vec![255; 8 * 8 * 4]).expect("valid buffer");
    let run = TextRun {
        width: 256,
        top: 0,
        bottom: 256,
        glyphs: vec![Glyph {
            x: 1,
            y: 1,
            width: 1,
            height: 1,
            r: 10,
            g: 20,
            b: 30,
            coverage: 255,
        }],
    };
    let composed = compose(&base, &vec![caption], palette(), &vec![Some(run)]);
    let changed: Vec<usize> = (0..64)
        .filter(|i| composed.pixels()[i * 4..i * 4 + 4] != [255, 255, 255, 255])
        .collect();
    assert_eq!(changed, vec![4 * 8 + 3], "one pixel right and below the origin");
    assert_eq!(composed.pixels()[35 * 4..36 * 4], [10, 20, 30, 255]);
}

#[test]
fn redacted_pixels_stay_redacted_through_a_crop_and_come_back_with_undo() {
    let mut editor = editor();
    let before = editor.model().canvas().pixels().clone();
    editor.update(Message::ToolSelected(Tool::Pixelate));
    editor.update(Message::Pressed(raw(0.0, 0.0)));
    editor.update(Message::Released(raw(36.0, 36.0)));
    let block = editor.model().canvas().pixels()[0..4].to_vec();
    assert_eq!(editor.model().canvas().pixels()[4..8], block[..]);
    assert_ne!(editor.model().canvas().pixels(), &before);
    editor.update(Message::Undo);
    assert_eq!(editor.model().canvas().pixels(), &before);
}

#[test]
fn a_file_whose_extension_says_nothing_is_not_guessed_at() {
    let why = |path: &str| match load(path, Ok(tiny_png())) {
        Err(why) => why,
        Ok(_) => panic!("{path} was decoded"),
    };
    assert_eq!(
        why("/tmp/a.txt"),
        "The file extension `.\"txt\"` was not recognized as an image format"
    );
    for path in ["/tmp/a", "/tmp/a.", "/tmp/.png"] {
        assert_eq!(why(path), "The image format could not be determined", "{path}");
    }
}
