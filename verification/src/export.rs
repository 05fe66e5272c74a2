//! Choosing how an edited capture is saved: the format that a path asks for and
//! the quality that was typed.
use vstd::prelude::*;
use vstd::string::*;

use crate::imaging::ImageFormat;
use crate::paths::{extension, extension_of};
use crate::text::{eq_ignore_ascii_case, same_ignoring_case, trimmed, trimmed_text};

verus! {

/// The format that a path's extension asks for, or the default.
pub open spec fn spec_format_for_path(path: Seq<char>, default: ImageFormat) -> ImageFormat {
    match extension_of(path) {
        Some(ext) => if same_ignoring_case(ext, "png"@) {
            ImageFormat::Png
        } else if same_ignoring_case(ext, "webp"@) {
            ImageFormat::Webp
        } else {
            default
        },
        None => default,
    }
}

/// The format that a path's extension asks for, or the default.
pub fn format_for_path(path: &str, default: ImageFormat) -> (r: ImageFormat)
    ensures
        r == spec_format_for_path(path@, default),
{
    match extension(path) {
        Some(ext) => if eq_ignore_ascii_case(ext.as_str(), "png") {
            ImageFormat::Png
        } else if eq_ignore_ascii_case(ext.as_str(), "webp") {
            ImageFormat::Webp
        } else {
            default
        },
        None => default,
    }
}

/// Whether every character is an ASCII digit.
pub open spec fn all_digits(s: Seq<char>) -> bool {
    forall|i: int| 0 <= i < s.len() ==> '0' <= #[trigger] s[i] && s[i] <= '9'
}

/// The number that digits stand for.
pub open spec fn digits_value(s: Seq<char>) -> int
    decreases s.len(),
{
    if s.len() == 0 {
        0
    } else {
        10 * digits_value(s.drop_last()) + (s.last() as int - 48)
    }
}

/// A text without a plus sign in front.
pub open spec fn unsigned_part(s: Seq<char>) -> Seq<char> {
    if s.len() > 0 && s[0] == '+' {
        s.skip(1)
    } else {
        s
    }
}

/// The number that a text stands for: digits, with or without a plus sign in
/// front, of a value that a `u32` can hold.
pub open spec fn number_of(s: Seq<char>) -> Option<u32> {
    let digits = unsigned_part(s);
    if digits.len() == 0 || !all_digits(digits) || digits_value(digits) > u32::MAX {
        None
    } else {
        Some(digits_value(digits) as u32)
    }
}

proof fn lemma_digits_grow(s: Seq<char>, n: int)
    requires
        0 <= n <= s.len(),
        all_digits(s),
    ensures
        0 <= digits_value(s.take(n)) <= digits_value(s),
    decreases s.len() - n,
{
    if n == s.len() {
        assert(s.take(n) =~= s);
        lemma_digits_nonnegative(s);
    } else {
        lemma_digits_grow(s, n + 1);
        assert(s.take(n + 1).drop_last() =~= s.take(n));
        assert(s.take(n + 1).last() == s[n]);
        assert(all_digits(s.take(n)));
        lemma_digits_nonnegative(s.take(n));
    }
}

proof fn lemma_digits_nonnegative(s: Seq<char>)
    requires
        all_digits(s),
    ensures
        digits_value(s) >= 0,
    decreases s.len(),
{
    if s.len() > 0 {
        assert('0' <= s[s.len() - 1]);
        lemma_digits_nonnegative(s.drop_last());
    }
}

fn digit_of(c: char) -> (r: Option<u64>)
    ensures
        match r {
            Some(d) => '0' <= c && c <= '9' && d == c as int - 48,
            None => !('0' <= c && c <= '9'),
        },
{
    match c {
        '0' => Some(0),
        '1' => Some(1),
        '2' => Some(2),
        '3' => Some(3),
        '4' => Some(4),
        '5' => Some(5),
        '6' => Some(6),
        '7' => Some(7),
        '8' => Some(8),
        '9' => Some(9),
        _ => None,
    }
}

/// Reads a number: digits, with or without a plus sign in front.
pub fn parse_number(text: &str) -> (r: Option<u32>)
    ensures
        r == number_of(text@),
{
    let n: usize = text.unicode_len();
    let start: usize = if n > 0 && text.get_char(0) == '+' {
        1
    } else {
        0
    };
    let ghost digits = unsigned_part(text@);
    assert(digits =~= text@.skip(start as int));
    if start == n {
        return None;
    }
    let mut value: u64 = 0;
    let mut i: usize = start;
    assert(digits.take(0) =~= Seq::<char>::empty());
    while i < n
        invariant
            n == text@.len(),
            start <= i <= n,
            start <= 1,
            digits == text@.skip(start as int),
            digits == unsigned_part(text@),
            start < n,
            value == digits_value(digits.take(i - start)),
            value <= u32::MAX,
            all_digits(digits.take(i - start)),
        decreases n - i,
    {
        let c: char = text.get_char(i);
        let ghost upto = digits.take(i + 1 - start);
        proof {
            assert(upto.drop_last() =~= digits.take(i - start));
            assert(upto.last() == c);
            assert(digits[i - start] == c);
        }
        match digit_of(c) {
            None => {
                return None;
            },
            Some(d) => {
                value = 10 * value + d;
                proof {
                    assert forall|k: int| 0 <= k < upto.len() implies '0' <= #[trigger] upto[k]
                        && upto[k] <= '9' by {
                        if k < i - start {
                            assert(upto[k] == digits.take(i - start)[k]);
                        }
                    }
                }
                if value > u32::MAX as u64 {
                    proof {
                        if all_digits(digits) {
                            lemma_digits_grow(digits, i + 1 - start);
                        }
                    }
                    return None;
                }
            },
        }
        i = i + 1;
    }
    assert(digits.take(n - start) =~= digits);
    Some(value as u32)
}

/// A quality that was typed, already freed of white space: a number brought
/// into `1..=100`, or the default where it is none.
pub open spec fn spec_quality(text: Seq<char>, default: u8) -> u8 {
    match number_of(text) {
        Some(v) => if v < 1 {
            1
        } else if v > 100 {
            100
        } else {
            v as u8
        },
        None => default,
    }
}

pub fn quality_of(text: &str, default: u8) -> (r: u8)
    ensures
        r == spec_quality(text@, default),
{
    match parse_number(text) {
        Some(v) => if v < 1 {
            1
        } else if v > 100 {
            100
        } else {
            v as u8
        },
        None => default,
    }
}

/// A quality that was typed, white space around it left out.
pub open spec fn typed_quality(text: Seq<char>, default: u8) -> u8 {
    spec_quality(trimmed_text(text), default)
}

/// A quality that was typed, white space around it left out.
pub fn parse_quality(text: &str, default: u8) -> (r: u8)
    ensures
        r == typed_quality(text@, default),
{
    let bare: String = trimmed(text);
    quality_of(bare.as_str(), default)
}

/// A quality is one of the hundred there are, if the default is.
pub proof fn law_quality_is_in_range(text: Seq<char>, default: u8)
    requires
        1 <= default <= 100,
    ensures
        1 <= spec_quality(text, default) <= 100,
{
}

} // verus!
