use saola_capture::text::{
    decimal, eq_ignore_ascii_case, joined, same_text, starts_with, trimmed,
};

#[test]
fn white_space_is_what_unicode_says() {
    for c in '\0'..=char::MAX {
        let text = format!("{c}x{c}");
        assert_eq!(trimmed(&text), text.trim(), "{c:?}");
    }
}

#[test]
fn trimming_leaves_what_is_between() {
    for text in ["", " ", "\t\n ", "a", " a", "a ", "  a b  ", "\u{3000}x\u{a0}", "a\u{200b}"] {
        assert_eq!(trimmed(text), text.trim(), "{text:?}");
    }
}

#[test]
fn numbers_are_written_in_decimal() {
    for n in [0u64, 7, 10, 99, 100, 12345, u32::MAX as u64, u64::MAX] {
        assert_eq!(decimal(n), n.to_string());
    }
}

#[test]
fn texts_are_joined_and_compared() {
    assert_eq!(joined("Saved: ", "/tmp/ä.png"), "Saved: /tmp/ä.png");
    assert!(same_text("ä", "ä") && !same_text("ä", "a"));
    assert!(starts_with("Recording_1", "Recording_") && !starts_with("Rec", "Recording_"));
    for (a, b) in [("PNG", "png"), ("Ä", "ä"), ("webp", "WeBp"), ("a", "ab"), ("[", "{")] {
        assert_eq!(
            eq_ignore_ascii_case(a, b),
            a.eq_ignore_ascii_case(b),
            "{a} {b}"
        );
    }
}
