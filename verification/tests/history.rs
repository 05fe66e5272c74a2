use saola_capture::history::{
    ClipboardImage, DirFile, FileMeta, HistoryEntry, HistoryItem, IndexedFile, OpenAction,
    RecordingFile, build_thumbnail, copy_screenshot, format_bytes, load_library, merge_items,
    open_action, scan_recordings,
};
use saola_capture::library::{
    Action, AnimatedFormat, DeletionStep, HistoryModel, Message, RowAction, RowButton,
    deletion_step,
};
use saola_capture::paths::{containing_dir, extension, file_name, same_path};

fn entry(unix: i64, name: &str, kind: &str, format: &str) -> HistoryEntry {
    HistoryEntry {
        unix,
        path: format!("/tmp/{name}"),
        png_sidecar: None,
        kind: kind.to_string(),
        format: format.to_string(),
        width: 100,
        height: 100,
        scale: 120,
        bytes: 1000,
    }
}

fn recording(unix: i64, name: &str) -> RecordingFile {
    RecordingFile {
        path: format!("/tmp/{name}"),
        unix,
        bytes: 2000,
    }
}

#[test]
fn merge_sorts_newest_first_across_both_kinds() {
    let entries = vec![
        entry(10, "a.webp", "fullscreen", "webp"),
        entry(30, "c.webp", "window", "webp"),
    ];
    let recordings = vec![recording(20, "b.mkv")];

    let merged = merge_items(entries, recordings);
    let names: Vec<String> = merged.iter().map(HistoryItem::file_name).collect();
    assert_eq!(names, vec!["c.webp", "b.mkv", "a.webp"]);
}

#[test]
fn merge_of_two_empty_lists_is_empty() {
    assert_eq!(merge_items(Vec::new(), Vec::new()), Vec::new());
}

#[test]
fn equally_old_items_keep_their_order() {
    let entries = vec![
        entry(10, "a.webp", "fullscreen", "webp"),
        entry(10, "b.webp", "fullscreen", "webp"),
    ];
    let merged = merge_items(entries, vec![recording(10, "c.mkv"), recording(11, "d.mkv")]);
    let names: Vec<String> = merged.iter().map(HistoryItem::file_name).collect();
    assert_eq!(names, vec!["d.mkv", "a.webp", "b.webp", "c.mkv"]);
}

#[test]
fn a_recording_item_reports_itself_as_one() {
    let item = HistoryItem::Recording(recording(1, "clip.mkv"));
    assert!(item.is_recording());
    assert_eq!(item.file_name(), "clip.mkv");
}

#[test]
fn a_screenshot_item_is_not_a_recording() {
    let item = HistoryItem::Screenshot(entry(1, "shot.webp", "region", "webp"));
    assert!(!item.is_recording());
}

#[test]
fn a_screenshot_opens_in_the_editor() {
    let item = HistoryItem::Screenshot(entry(1, "shot.webp", "fullscreen", "webp"));
    assert_eq!(
        open_action(&item),
        OpenAction::Edit("/tmp/shot.webp".to_string())
    );
}

#[test]
fn a_recording_opens_its_containing_directory() {
    let item = HistoryItem::Recording(recording(1, "clip.mkv"));
    assert_eq!(
        open_action(&item),
        OpenAction::OpenDir("/tmp/clip.mkv".to_string())
    );
}

#[test]
fn format_bytes_stays_whole_under_a_kilobyte() {
    assert_eq!(format_bytes(512), "512 B");
}

#[test]
fn format_bytes_shows_one_decimal_above_a_kilobyte() {
    assert_eq!(format_bytes(1536), "1.5 KB");
    assert_eq!(format_bytes(3 * 1024 * 1024), "3.0 MB");
}

#[test]
fn format_bytes_scales_up_to_gigabytes() {
    assert_eq!(format_bytes(2 * 1024 * 1024 * 1024), "2.0 GB");
}

/// The same label by way of floating point.
fn float_label(bytes: u64) -> String {
    const UNITS: [&str; 5] = ["B", "KB", "MB", "GB", "TB"];
    let mut value = bytes as f64;
    let mut unit = 0;
    while value >= 1024.0 && unit < UNITS.len() - 1 {
        value /= 1024.0;
        unit += 1;
    }
    if unit == 0 {
        format!("{bytes} {}", UNITS[unit])
    } else {
        format!("{value:.1} {}", UNITS[unit])
    }
}

#[test]
fn size_labels_agree_with_floating_point() {
    let mut samples: Vec<u64> = vec![
        0,
        1,
        1023,
        1024,
        1025,
        1075,
        1076,
        1126,
        1127,
        1_048_575,
        1_048_576,
        1_073_741_823,
        1_073_741_824,
        (1 << 53) - 1,
        (1 << 53) + 1,
        u64::MAX - 1,
        u64::MAX,
    ];
    let mut v: u64 = 7;
    for _ in 0..4000 {
        v = v.wrapping_mul(6_364_136_223_846_793_005).wrapping_add(1_442_695_040_888_963_407);
        samples.push(v);
        samples.push(v >> 20);
        samples.push(v >> 40);
        samples.push(v >> 50);
        samples.push((v >> 40) * 512);
    }
    for bytes in samples {
        assert_eq!(format_bytes(bytes), float_label(bytes), "{bytes}");
    }
}

fn listed(name: &str, bytes: u64) -> DirFile {
    DirFile {
        path: format!("/home/me/Captures/{name}"),
        meta: Some(FileMeta {
            modified: Some(1000),
            bytes,
        }),
    }
}

#[test]
fn scan_recordings_finds_both_containers_and_ignores_everything_else() {
    let found = scan_recordings(vec![
        listed("Recording_2026-08-08_12-00-00.mkv", 1),
        listed("Recording_2026-08-08_12-05-00.mp4", 2),
        listed("Screenshot_2026-08-08_12-06-00.webp", 1),
        listed("Recording_2026-08-08_12-07-00.txt", 1),
        listed(".Recording_2026-08-08_12-08-00-palette.png", 1),
    ]);
    let mut names: Vec<String> = found
        .iter()
        .map(|file| file_name(&file.path).unwrap())
        .collect();
    names.sort();
    assert_eq!(
        names,
        vec![
            "Recording_2026-08-08_12-00-00.mkv".to_string(),
            "Recording_2026-08-08_12-05-00.mp4".to_string(),
        ]
    );
}

#[test]
fn scan_recordings_on_a_missing_directory_is_empty_not_an_error() {
    assert_eq!(scan_recordings(Vec::new()), Vec::new());
}

#[test]
fn scan_recordings_reports_real_file_sizes() {
    let found = scan_recordings(vec![listed("Recording_2026-08-08_12-00-00.mkv", 12345)]);
    assert_eq!(found.len(), 1);
    assert_eq!(found[0].bytes, 12345);
}

#[test]
fn a_recording_that_cannot_be_examined_is_left_out() {
    let mut file = listed("Recording_1.mkv", 1);
    file.meta = None;
    let mut undated = listed("Recording_2.mkv", 1);
    undated.meta = Some(FileMeta {
        modified: None,
        bytes: 9,
    });
    let found = scan_recordings(vec![file, undated]);
    assert_eq!(found.len(), 1);
    assert_eq!(found[0].unix, 0);
    assert_eq!(found[0].bytes, 9);
}

fn model(items: Vec<HistoryItem>) -> HistoryModel {
    HistoryModel::load(items)
}

fn kept(model: &HistoryModel) -> Vec<String> {
    model.items().iter().map(HistoryItem::file_name).collect()
}

#[test]
fn deleting_a_screenshot_removes_its_png_sidecar_too() {
    let mut shot = entry(1, "Screenshot_2026-08-08_12-00-00.webp", "fullscreen", "webp");
    shot.png_sidecar = Some("/tmp/Screenshot_2026-08-08_12-00-00.png".to_string());
    let primary = shot.path.clone();
    let mut model = model(vec![HistoryItem::Screenshot(shot)]);

    model.update(Message::DeleteRequested(primary.clone()));
    match model.update(Message::DeleteConfirmed(primary.clone())) {
        Action::Delete { path, sidecar } => {
            assert_eq!(path, primary);
            assert_eq!(
                sidecar.as_deref(),
                Some("/tmp/Screenshot_2026-08-08_12-00-00.png")
            );
        }
        other => panic!("expected a deletion, got {other:?}"),
    }
}

#[test]
fn deleting_a_recording_removes_just_its_own_file() {
    let file = recording(1, "Recording_2026-08-08_12-00-00.mkv");
    let path_of = file.path.clone();
    let mut model = model(vec![HistoryItem::Recording(file)]);

    match model.update(Message::DeleteConfirmed(path_of.clone())) {
        Action::Delete { path, sidecar } => {
            assert_eq!(path, path_of);
            assert_eq!(sidecar, None);
        }
        other => panic!("expected a deletion, got {other:?}"),
    }
}

#[test]
fn load_library_filters_out_a_screenshot_whose_file_is_gone() {
    let present = entry(2, "exists.webp", "fullscreen", "webp");
    let gone = entry(1, "gone.webp", "fullscreen", "webp");

    let items = load_library(
        vec![
            IndexedFile {
                entry: gone,
                exists: false,
            },
            IndexedFile {
                entry: present,
                exists: true,
            },
        ],
        Vec::new(),
    );
    assert_eq!(items.len(), 1);
    assert_eq!(items[0].unix(), 2);
}

#[test]
fn a_library_holds_screenshots_and_recordings() {
    let items = load_library(
        vec![IndexedFile {
            entry: entry(500, "shot.webp", "region", "webp"),
            exists: true,
        }],
        vec![listed("Recording_1.mkv", 7), listed("notes.txt", 7)],
    );
    let names: Vec<String> = items.iter().map(HistoryItem::file_name).collect();
    assert_eq!(names, vec!["Recording_1.mkv", "shot.webp"]);
}

fn two_items() -> HistoryModel {
    model(vec![
        HistoryItem::Screenshot(entry(2, "shot.webp", "region", "webp")),
        HistoryItem::Recording(recording(1, "clip.mkv")),
    ])
}

#[test]
fn a_deletion_waits_for_its_confirmation() {
    let mut model = two_items();
    let path = "/tmp/shot.webp".to_string();
    assert!(matches!(
        model.update(Message::DeleteRequested(path.clone())),
        Action::Nothing
    ));
    assert_eq!(model.pending_delete(), Some("/tmp/shot.webp"));
    model.update(Message::DeleteCancelled);
    assert_eq!(model.pending_delete(), None);
    assert_eq!(kept(&model), vec!["shot.webp", "clip.mkv"]);

    model.update(Message::DeleteConfirmed(path.clone()));
    model.update(Message::DeleteFinished(path, Ok(())));
    assert_eq!(kept(&model), vec!["clip.mkv"]);
    assert_eq!(model.feedback(), Some((true, "Deleted")));
}

#[test]
fn a_failed_deletion_keeps_the_item() {
    let mut model = two_items();
    let path = "/tmp/shot.webp".to_string();
    model.update(Message::DeleteConfirmed(path.clone()));
    model.update(Message::DeleteFinished(path, Err("read-only".to_string())));
    assert_eq!(kept(&model).len(), 2);
    assert_eq!(model.feedback(), Some((false, "read-only")));
}

#[test]
fn confirming_what_is_not_there_deletes_nothing() {
    let mut model = two_items();
    assert!(matches!(
        model.update(Message::DeleteConfirmed("/tmp/other".to_string())),
        Action::Nothing
    ));
}

#[test]
fn only_one_export_runs_at_a_time() {
    let mut model = two_items();
    let clip = "/tmp/clip.mkv".to_string();
    assert!(matches!(
        model.update(Message::ExportRequested(clip.clone(), AnimatedFormat::Gif)),
        Action::Export {
            format: AnimatedFormat::Gif,
            ..
        }
    ));
    assert!(matches!(
        model.update(Message::ExportRequested(
            "/tmp/x.mkv".to_string(),
            AnimatedFormat::AnimatedWebp
        )),
        Action::Nothing
    ));
    assert_eq!(model.exporting(), Some("/tmp/clip.mkv"));
    model.update(Message::ExportFinished(
        clip,
        Ok(("/tmp/clip.gif".to_string(), 1536)),
    ));
    assert_eq!(model.exporting(), None);
    assert_eq!(model.feedback(), Some((true, "Exported clip.gif (1.5 KB)")));
}

#[test]
fn a_failed_export_makes_room_for_the_next() {
    let mut model = two_items();
    let clip = "/tmp/clip.mkv".to_string();
    model.update(Message::ExportRequested(clip.clone(), AnimatedFormat::Gif));
    model.update(Message::ExportFinished(clip, Err("no ffmpeg".to_string())));
    assert_eq!(model.exporting(), None);
    assert_eq!(model.feedback(), Some((false, "no ffmpeg")));
}

#[test]
fn recordings_are_not_copied() {
    let mut model = two_items();
    assert!(matches!(
        model.update(Message::CopyRequested("/tmp/clip.mkv".to_string())),
        Action::Nothing
    ));
    assert_eq!(
        model.feedback(),
        Some((false, "Recordings can't be copied to the clipboard"))
    );
    match model.update(Message::CopyRequested("/tmp/shot.webp".to_string())) {
        Action::Copy(path) => assert_eq!(path, "/tmp/shot.webp"),
        other => panic!("expected a copy, got {other:?}"),
    }
    model.update(Message::CopyFinished(Ok(())));
    assert_eq!(model.feedback(), Some((true, "Copied to clipboard")));
}

#[test]
fn items_open_by_their_kind() {
    let mut model = two_items();
    assert!(matches!(
        model.update(Message::OpenRequested("/tmp/shot.webp".to_string())),
        Action::Edit(_)
    ));
    assert!(matches!(
        model.update(Message::OpenRequested("/tmp/clip.mkv".to_string())),
        Action::OpenDir(_)
    ));
    assert!(matches!(
        model.update(Message::OpenRequested("/tmp/other".to_string())),
        Action::Nothing
    ));
    assert!(matches!(
        model.update(Message::ShowInFolderRequested("/tmp/any".to_string())),
        Action::OpenDir(_)
    ));
    assert!(matches!(model.update(Message::Refresh), Action::Reload));
}

#[test]
fn rows_offer_what_can_be_done() {
    let mut model = two_items();
    let labels = |row: Vec<RowButton>| -> Vec<&'static str> {
        row.iter().map(|b| b.label()).collect()
    };
    let shot = HistoryItem::Screenshot(entry(2, "shot.webp", "region", "webp"));
    let clip = HistoryItem::Recording(recording(1, "clip.mkv"));
    assert_eq!(
        labels(model.action_row(&shot)),
        vec!["Open", "Copy", "Show in folder", "Delete"]
    );
    assert_eq!(
        labels(model.action_row(&clip)),
        vec!["Show in folder", "Export GIF", "Export WebP", "Delete"]
    );
    assert!(model.shows_export_note());
    assert_eq!(model.row_meta(&shot), "region · 1000 B");
    assert_eq!(model.row_meta(&clip), "recording · 2.0 KB");

    model.update(Message::DeleteRequested("/tmp/shot.webp".to_string()));
    let actions: Vec<RowAction> = model.action_row(&shot).iter().map(|b| b.action).collect();
    assert_eq!(
        actions,
        vec![RowAction::ConfirmDelete, RowAction::CancelDelete]
    );
    model.update(Message::ExportRequested(
        "/tmp/clip.mkv".to_string(),
        AnimatedFormat::Gif,
    ));
    let row = model.action_row(&clip);
    assert!(!row[1].enabled && !row[2].enabled);
    assert_eq!(row[1].label(), "Exporting…");
}

/// A 2x1 image: red, then half-opaque blue.
fn tiny_png() -> Vec<u8> {
    let mut out = Vec::new();
    let pixels: [u8; 8] = [255, 0, 0, 255, 0, 0, 255, 128];
    image::ImageEncoder::write_image(
        image::codecs::png::PngEncoder::new(&mut out),
        &pixels,
        2,
        1,
        image::ExtendedColorType::Rgba8,
    )
    .expect("encodes");
    out
}

#[test]
fn a_png_is_copied_as_it_is() {
    let bytes = tiny_png();
    match copy_screenshot(&entry(1, "a.png", "region", "png"), bytes.clone()) {
        Ok(ClipboardImage::Ready(out)) => assert_eq!(out, bytes),
        _ => panic!("expected the bytes themselves"),
    }
}

#[test]
fn any_other_format_is_decoded_first() {
    match copy_screenshot(&entry(1, "a.webp", "region", "webp"), tiny_png()) {
        Ok(ClipboardImage::Encode(frame)) => {
            assert_eq!((frame.width(), frame.height(), frame.scale()), (2, 1, 120));
            assert_eq!(frame.pixels(), &vec![255, 0, 0, 255, 0, 0, 255, 128]);
        }
        _ => panic!("expected a frame"),
    }
    let garbage = copy_screenshot(&entry(1, "a.webp", "region", "webp"), vec![1, 2, 3]);
    assert!(garbage.is_err());
}

#[test]
fn a_tile_shows_the_screenshot_and_nothing_of_a_recording() {
    let shot = HistoryItem::Screenshot(entry(1, "a.webp", "region", "webp"));
    let tile = build_thumbnail(&shot, &tiny_png()).expect("decodes");
    assert_eq!((tile.width(), tile.height()), (2, 1));
    assert!(build_thumbnail(&shot, &vec![1, 2, 3]).is_none());
    let clip = HistoryItem::Recording(recording(1, "clip.mkv"));
    assert!(build_thumbnail(&clip, &tiny_png()).is_none());
}

const PATHS: [&str; 26] = [
    "", "/", "//", ".", "..", "./", "../", "/.", "/..", "a", "a/", "/a", "/a/", "a/b", "a//b",
    "a/./b", "./a", "/./a", "a/.", "a/..", "../a", "/tmp/shot.webp", "/tmp/.hidden", "x.tar.gz",
    "/a/b.d/c", "a/b/",
];

#[test]
fn paths_are_taken_apart_as_the_standard_library_does() {
    for path in PATHS {
        let std_path = std::path::Path::new(path);
        assert_eq!(
            file_name(path).as_deref(),
            std_path.file_name().and_then(|n| n.to_str()),
            "{path:?}"
        );
        assert_eq!(
            extension(path).as_deref(),
            std_path.extension().and_then(|n| n.to_str()),
            "{path:?}"
        );
        assert_eq!(
            containing_dir(path),
            std_path.parent().unwrap_or(std_path).to_str().unwrap(),
            "{path:?}"
        );
    }
}

#[test]
fn paths_are_the_same_as_the_standard_library_says() {
    for a in PATHS {
        for b in PATHS {
            assert_eq!(
                same_path(a, b),
                std::path::Path::new(a) == std::path::Path::new(b),
                "{a:?} {b:?}"
            );
        }
    }
}

#[test]
fn an_item_is_found_however_its_path_is_written() {
    let mut model = two_items();
    assert!(matches!(
        model.update(Message::OpenRequested("/tmp/./shot.webp".to_string())),
        Action::Edit(_)
    ));
    model.update(Message::DeleteFinished("/tmp//clip.mkv".to_string(), Ok(())));
    assert_eq!(kept(&model), vec!["shot.webp"]);
}

#[test]
fn loading_the_library_anew_lets_no_second_export_start() {
    let mut model = two_items();
    let clip = "/tmp/clip.mkv".to_string();
    model.update(Message::DeleteRequested("/tmp/shot.webp".to_string()));
    model.update(Message::ExportRequested(clip.clone(), AnimatedFormat::Gif));
    assert!(matches!(model.update(Message::Refresh), Action::Reload));
    model.reload(vec![HistoryItem::Recording(recording(1, "other.mkv"))]);
    assert_eq!(model.exporting(), Some("/tmp/clip.mkv"));
    assert_eq!(model.pending_delete(), None);
    assert_eq!(model.feedback(), None);
    assert_eq!(kept(&model), vec!["other.mkv"]);

    let other = "/tmp/other.mkv".to_string();
    model.update(Message::ExportFinished(other.clone(), Err("odd".to_string())));
    assert!(matches!(
        model.update(Message::ExportRequested(other.clone(), AnimatedFormat::Gif)),
        Action::Nothing
    ));
    model.update(Message::ExportFinished(clip, Err("no".to_string())));
    match model.update(Message::ExportRequested(other, AnimatedFormat::AnimatedWebp)) {
        Action::Export { source, format } => {
            assert_eq!(source, "/tmp/other.mkv");
            assert_eq!(format, AnimatedFormat::AnimatedWebp);
        }
        other => panic!("expected an export, got {other:?}"),
    }
}

#[test]
fn a_sidecar_goes_only_after_its_file() {
    let sidecar = Some("/tmp/a.png".to_string());
    match deletion_step(Err("busy".to_string()), sidecar.clone()) {
        DeletionStep::Report(Err(why)) => assert_eq!(why, "busy"),
        other => panic!("expected the failure, got {other:?}"),
    }
    match deletion_step(Ok(()), sidecar) {
        DeletionStep::RemoveSidecar(path) => assert_eq!(path, "/tmp/a.png"),
        other => panic!("expected the sidecar, got {other:?}"),
    }
    assert!(matches!(
        deletion_step(Ok(()), None),
        DeletionStep::Report(Ok(()))
    ));
}
