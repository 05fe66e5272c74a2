use saola_capture::picker::{PickColorError, PickedColor, extract_rgb, rgb_to_hex};

/// A channel in billionths.
fn channel(v: f64) -> i64 {
    (v * 1e9).round() as i64
}

fn color(r: f64, g: f64, b: f64) -> PickedColor {
    PickedColor {
        r: channel(r),
        g: channel(g),
        b: channel(b),
    }
}

#[test]
fn rgb_to_hex_formats_black_white_and_a_measured_swatch() {
    assert_eq!(rgb_to_hex(color(0.0, 0.0, 0.0)), "#000000");
    assert_eq!(rgb_to_hex(color(1.0, 1.0, 1.0)), "#FFFFFF");
    assert_eq!(rgb_to_hex(color(0.215_686, 0.215_686, 0.215_686)), "#373737");
}

#[test]
fn rgb_to_hex_clamps_out_of_range_noise() {
    assert_eq!(rgb_to_hex(color(-0.01, 1.5, 0.5)), "#00FF80");
}

#[test]
fn rgb_to_hex_rounds_rather_than_truncates() {
    assert_eq!(rgb_to_hex(color(0.5, 0.0, 0.0)), "#800000");
}

#[test]
fn every_byte_has_its_two_digits() {
    for byte in 0..=255u8 {
        let shown = rgb_to_hex(color(f64::from(byte) / 255.0, 0.0, 0.0));
        assert_eq!(shown, format!("#{byte:02X}0000"));
    }
}

#[test]
fn extract_rgb_reads_the_color_key_out_of_the_a_sv_reply() {
    let reply = Some(Ok(color(0.215_686, 0.4, 0.9)));
    let picked = extract_rgb(reply).expect("a well-formed reply decodes");
    assert_eq!(picked, color(0.215_686, 0.4, 0.9));
}

#[test]
fn extract_rgb_reports_a_missing_color_key() {
    let err = extract_rgb(None).expect_err("no \"color\" key at all");
    assert!(matches!(err, PickColorError::MissingColor));
}

#[test]
fn extract_rgb_reports_a_wrong_shaped_color_value() {
    let reply = Some(Err("incorrect type".to_string()));
    let err = extract_rgb(reply).expect_err("a u32 is not a (ddd) structure");
    assert!(matches!(err, PickColorError::Decode(_)));
}

#[test]
fn pick_color_error_messages_are_actionable() {
    let missing = PickColorError::MissingColor.message();
    assert!(missing.contains("PickColor"));
}

#[test]
fn every_failure_to_pick_says_why() {
    let call = PickColorError::Call("no such name".to_string()).message();
    assert!(call.contains("no such name") && call.contains("niri"));
    let decode = PickColorError::Decode("incorrect type".to_string()).message();
    assert!(decode.ends_with("incorrect type"));
}
