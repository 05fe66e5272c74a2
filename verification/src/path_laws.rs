//! What names and extensions are, told by how a path is written.
use vstd::prelude::*;
use vstd::string::*;

use crate::export::{
    all_digits, digits_value, number_of, spec_format_for_path, spec_quality, typed_quality,
    unsigned_part,
};
use crate::imaging::ImageFormat;
use crate::paths::{
    body_end, body_start, containing_dir_of, extension_of, file_name_of, last_dot, lead,
    name_before, same_path_as, segment_start, segments,
};
use crate::text::{
    ascii_lower, decimal_text, law_decimal_reads_back, lemma_decimal_is_solid, same_ignoring_case,
    trimmed_text, white_space,
};

verus! {

/// Whether a text can be one segment of a path: not empty, without a slash, and not the
/// dot that stands for nothing.
pub open spec fn is_segment(name: Seq<char>) -> bool {
    name.len() > 0 && !name.contains('/') && name != seq!['.']
}

/// Whether a text is a segment that names something.
pub open spec fn is_name(name: Seq<char>) -> bool {
    is_segment(name) && name != seq!['.', '.']
}

/// Whether a text is empty or ends in a slash.
pub open spec fn leads_up(base: Seq<char>) -> bool {
    base.len() == 0 || base.last() == '/'
}

proof fn lemma_segment_begins(path: Seq<char>, start: int, end: int)
    requires
        0 <= start <= end <= path.len(),
        start == 0 || path[start - 1] == '/',
        forall|i: int| start <= i < end ==> path[i] != '/',
    ensures
        segment_start(path, end) == start,
    decreases end,
{
    if end > start {
        assert(path[end - 1] != '/');
        lemma_segment_begins(path, start, end - 1);
    }
}

proof fn lemma_last_segment(base: Seq<char>, name: Seq<char>, tail: Seq<char>)
    requires
        leads_up(base),
        is_segment(name),
    ensures
        ({
            let path = base + name + tail;
            let end = (base.len() + name.len()) as int;
            &&& segment_start(path, end) == base.len()
            &&& path.subrange(base.len() as int, end) == name
        }),
{
    let path = base + name + tail;
    let end = (base.len() + name.len()) as int;
    assert forall|i: int| base.len() <= i < end implies path[i] != '/' by {
        assert(path[i] == name[i - base.len()]);
    }
    if base.len() > 0 {
        assert(path[base.len() - 1] == base.last());
    }
    lemma_segment_begins(path, base.len() as int, end);
    assert(path.subrange(base.len() as int, end) =~= name);
}

/// The name of what a path leads to is its last segment, whatever stands before it.
pub proof fn law_the_name_is_the_last_segment(base: Seq<char>, name: Seq<char>)
    requires
        leads_up(base),
        is_segment(name),
    ensures
        is_name(name) ==> file_name_of(base + name) == Some(name),
        !is_name(name) ==> file_name_of(base + name) is None,
{
    lemma_last_segment(base, name, Seq::empty());
    assert(base + name + Seq::<char>::empty() =~= base + name);
}

proof fn lemma_segment_of_prefix(path: Seq<char>, tail: Seq<char>, end: int)
    requires
        0 <= end <= path.len(),
    ensures
        segment_start(path + tail, end) == segment_start(path, end),
        0 <= segment_start(path, end) <= end,
    decreases end,
{
    if end > 0 {
        assert((path + tail)[end - 1] == path[end - 1]);
        lemma_segment_of_prefix(path, tail, end - 1);
    }
}

proof fn lemma_name_of_prefix(path: Seq<char>, tail: Seq<char>, end: int)
    requires
        0 <= end <= path.len(),
    ensures
        name_before(path + tail, end) == name_before(path, end),
    decreases end,
{
    if end > 0 {
        lemma_segment_of_prefix(path, tail, end);
        let start = segment_start(path, end);
        assert((path + tail).subrange(start, end) =~= path.subrange(start, end));
        if start > 0 {
            lemma_name_of_prefix(path, tail, start - 1);
        }
    }
}

/// Slashes at the end of a path, and dots between them, name nothing: the path leads
/// where it did.
pub proof fn law_slashes_at_the_end_name_nothing(path: Seq<char>)
    ensures
        file_name_of(path + seq!['/']) == file_name_of(path),
        file_name_of(path + seq!['/', '.']) == file_name_of(path),
        file_name_of(Seq::empty()) is None,
{
    let n = path.len() as int;
    let one = path + seq!['/'];
    assert(one[n] == '/');
    assert(segment_start(one, n + 1) == n + 1);
    assert(one.subrange(n + 1, n + 1).len() == 0);
    lemma_name_of_prefix(path, seq!['/'], n);
    let two = path + seq!['/', '.'];
    assert(two[n] == '/' && two[n + 1] == '.');
    lemma_segment_begins(two, n + 1, n + 2);
    assert(two.subrange(n + 1, n + 2) =~= seq!['.']);
    lemma_name_of_prefix(path, seq!['/', '.'], n);
}

proof fn lemma_last_dot(name: Seq<char>, dot: int, end: int)
    requires
        -1 <= dot < end <= name.len() || (dot == -1 && end == 0),
        dot >= 0 ==> name[dot] == '.',
        forall|i: int| dot < i < end ==> name[i] != '.',
    ensures
        last_dot(name, end) == dot,
    decreases end,
{
    if end > 0 && end - 1 > dot {
        assert(name[end - 1] != '.');
        lemma_last_dot(name, dot, end - 1);
    }
}

/// The extension is what follows the last dot of the name, unless nothing stands before
/// that dot; a name without a dot has none.
pub proof fn law_the_extension_follows_the_last_dot(
    base: Seq<char>,
    stem: Seq<char>,
    ext: Seq<char>,
)
    requires
        leads_up(base),
        !ext.contains('.'),
        is_name(stem + seq!['.'] + ext),
    ensures
        stem.len() > 0 ==> extension_of(base + (stem + seq!['.'] + ext)) == Some(ext),
        stem.len() == 0 ==> extension_of(base + (stem + seq!['.'] + ext)) is None,
{
    let name = stem + seq!['.'] + ext;
    let dot = stem.len() as int;
    let n = name.len() as int;
    assert(name[dot] == '.');
    assert forall|i: int| dot < i < n implies name[i] != '.' by {
        assert(name[i] == ext[i - dot - 1]);
    }
    lemma_last_dot(name, dot, n);
    assert(name.subrange(dot + 1, n) =~= ext);
    law_the_name_is_the_last_segment(base, name);
}

/// A name without a dot has no extension.
pub proof fn law_a_name_without_a_dot_has_no_extension(base: Seq<char>, name: Seq<char>)
    requires
        leads_up(base),
        is_name(name),
        !name.contains('.'),
    ensures
        extension_of(base + name) is None,
{
    let n = name.len() as int;
    lemma_last_dot(name, -1, n);
    law_the_name_is_the_last_segment(base, name);
}

proof fn lemma_lead(base: Seq<char>, name: Seq<char>, tail: Seq<char>)
    requires
        leads_up(base),
        is_segment(name),
    ensures
        lead(base + name + tail) <= base.len(),
{
    let path = base + name + tail;
    if base.len() == 0 {
        assert(path[0] == name[0]);
        assert(name[0] != '/');
        if name[0] == '.' {
            assert(name.len() > 1) by {
                if name.len() == 1 {
                    assert(name =~= seq!['.']);
                }
            }
            assert(path[1] == name[1]);
            assert(name[1] != '/');
        }
    }
}

proof fn lemma_solid_end(base: Seq<char>, name: Seq<char>, tail: Seq<char>)
    requires
        leads_up(base),
        is_segment(name),
    ensures
        ({
            let path = base + name + tail;
            let end = (base.len() + name.len()) as int;
            &&& lead(path) <= base.len()
            &&& body_start(path, end) == base.len()
            &&& body_end(path, end) == end
        }),
{
    lemma_lead(base, name, tail);
    lemma_last_segment(base, name, tail);
}

/// The directory that a path lies in is the path without its last segment and the slash
/// before it.
pub proof fn law_the_directory_is_all_but_the_last_segment(
    base: Seq<char>,
    dir: Seq<char>,
    name: Seq<char>,
)
    requires
        leads_up(base),
        is_segment(dir),
        is_segment(name),
    ensures
        containing_dir_of(base + dir + seq!['/'] + name) == base + dir,
{
    let path = base + dir + seq!['/'] + name;
    let upper = base + dir + seq!['/'];
    assert(path =~= upper + name + Seq::<char>::empty());
    lemma_solid_end(upper, name, Seq::empty());
    assert(path =~= base + dir + (seq!['/'] + name));
    lemma_solid_end(base, dir, seq!['/'] + name);
    assert(path.subrange(0, (base.len() + dir.len()) as int) =~= base + dir);
}

/// What lies at the root lies in the root, and a bare name lies in the directory that an
/// empty path stands for.
pub proof fn law_a_single_segment_lies_at_the_top(name: Seq<char>)
    requires
        is_segment(name),
    ensures
        containing_dir_of(seq!['/'] + name) == seq!['/'],
        containing_dir_of(name) == Seq::<char>::empty(),
{
    let root = seq!['/'];
    assert(root + name =~= root + name + Seq::<char>::empty());
    lemma_solid_end(root, name, Seq::empty());
    assert((root + name)[0] == '/');
    assert((root + name).subrange(0, 1) =~= root);
    let none = Seq::<char>::empty();
    assert(name =~= none + name + none);
    lemma_solid_end(none, name, none);
    assert(name.subrange(0, 0) =~= none);
}

/// Of two paths into one directory, those are the same that end in the same segment.
pub proof fn law_paths_differ_by_their_last_segment(
    base: Seq<char>,
    dir: Seq<char>,
    a: Seq<char>,
    b: Seq<char>,
)
    requires
        leads_up(base),
        is_segment(dir),
        is_segment(a),
        is_segment(b),
    ensures
        same_path_as(base + dir + seq!['/'] + a, base + dir + seq!['/'] + b) <==> a == b,
{
    let p = base + dir + seq!['/'] + a;
    let q = base + dir + seq!['/'] + b;
    lemma_segments_end(base, dir, a);
    lemma_segments_end(base, dir, b);
    if same_path_as(p, q) {
        assert(segments(p, p.len() as int).last() == segments(q, q.len() as int).last());
    }
}

proof fn lemma_segments_end(base: Seq<char>, dir: Seq<char>, name: Seq<char>)
    requires
        leads_up(base),
        is_segment(dir),
        is_segment(name),
    ensures
        ({
            let path = base + dir + seq!['/'] + name;
            let all = segments(path, path.len() as int);
            all.len() > 0 && all.last() == name
        }),
{
    let path = base + dir + seq!['/'] + name;
    let upper = base + dir + seq!['/'];
    assert(path =~= upper + name + Seq::<char>::empty());
    lemma_solid_end(upper, name, Seq::empty());
    lemma_last_segment(upper, name, Seq::empty());
}

/// A path that ends in a slash is the same path without it.
pub proof fn law_a_slash_at_the_end_changes_no_path(base: Seq<char>, name: Seq<char>)
    requires
        leads_up(base),
        is_segment(name),
    ensures
        same_path_as(base + name + seq!['/'], base + name),
{
    let bare = base + name;
    let path = base + name + seq!['/'];
    let n = bare.len() as int;
    assert(bare =~= base + name + Seq::<char>::empty());
    lemma_solid_end(base, name, Seq::empty());
    lemma_solid_end(base, name, seq!['/']);
    lemma_last_segment(base, name, Seq::empty());
    lemma_last_segment(base, name, seq!['/']);
    assert(path[n] == '/');
    assert(segment_start(path, n + 1) == n + 1);
    assert(path.subrange(n + 1, n + 1).len() == 0);
    assert(body_end(path, n + 1) == n);
    assert(lead(path) == lead(bare)) by {
        assert(path[0] == bare[0]);
        if bare.len() > 1 {
            assert(path[1] == bare[1]);
        } else {
            assert(bare =~= name);
            if bare[0] == '.' {
                assert(name =~= seq!['.']);
            }
        }
    }
    let start = base.len() as int;
    if start > lead(path) {
        assert(path =~= bare + seq!['/']);
        lemma_segments_of_prefix(bare, seq!['/'], start - 1);
    }
    assert(path.subrange(0, lead(path)) =~= bare.subrange(0, lead(bare)));
    assert(path.subrange(start, n) =~= bare.subrange(start, n));
    assert(segments(path, n + 1) =~= segments(bare, n));
}

proof fn lemma_body_of_prefix(path: Seq<char>, tail: Seq<char>, end: int)
    requires
        0 <= end <= path.len(),
        lead(path + tail) == lead(path),
    ensures
        body_end(path + tail, end) == body_end(path, end),
        body_start(path + tail, end) == body_start(path, end),
        body_end(path, end) <= end,
    decreases end,
{
    lemma_segment_of_prefix(path, tail, end);
    if end > lead(path) {
        let start = body_start(path, end);
        assert((path + tail).subrange(start, end) =~= path.subrange(start, end));
        if start > lead(path) {
            lemma_body_of_prefix(path, tail, start - 1);
        }
    }
}

proof fn lemma_segments_of_prefix(path: Seq<char>, tail: Seq<char>, end: int)
    requires
        0 <= end <= path.len(),
        lead(path + tail) == lead(path),
    ensures
        segments(path + tail, end) == segments(path, end),
    decreases end,
{
    lemma_body_of_prefix(path, tail, end);
    let to = body_end(path, end);
    if to > lead(path) {
        lemma_body_of_prefix(path, tail, to);
        lemma_segment_of_prefix(path, tail, to);
        let start = body_start(path, to);
        assert((path + tail).subrange(start, to) =~= path.subrange(start, to));
        if start > lead(path) {
            lemma_segments_of_prefix(path, tail, start - 1);
        }
    }
}

/// Whether two letters are the same but for case.
pub open spec fn same_letter(a: char, b: char) -> bool {
    ||| a == b
    ||| 'A' <= a <= 'Z' && b as int == a as int + 32
    ||| 'A' <= b <= 'Z' && a as int == b as int + 32
}

/// Whether two texts are the same but for the case of their letters.
pub open spec fn same_letters(a: Seq<char>, b: Seq<char>) -> bool {
    a.len() == b.len() && forall|i: int| 0 <= i < a.len() ==> same_letter(#[trigger] a[i], b[i])
}

proof fn lemma_same_letters(a: Seq<char>, b: Seq<char>)
    ensures
        same_ignoring_case(a, b) == same_letters(a, b),
{
    assert forall|x: char, y: char| same_letter(x, y) == (#[trigger] ascii_lower(x)
        == #[trigger] ascii_lower(y)) by {}
    if same_ignoring_case(a, b) {
        assert forall|i: int| 0 <= i < a.len() implies same_letter(#[trigger] a[i], b[i]) by {
            assert(ascii_lower(a[i]) == ascii_lower(b[i]));
        }
    }
    if same_letters(a, b) {
        assert forall|i: int| 0 <= i < a.len() implies ascii_lower(#[trigger] a[i]) == ascii_lower(
            b[i],
        ) by {
            assert(same_letter(a[i], b[i]));
        }
    }
}

/// A path asks for the format that its extension names, in capitals or not; any other
/// path gets the default.
pub proof fn law_the_extension_asks_for_the_format(path: Seq<char>, default: ImageFormat)
    ensures
        ({
            let png = extension_of(path) matches Some(ext) && same_letters(ext, seq!['p', 'n', 'g']);
            let webp = extension_of(path) matches Some(ext) && same_letters(
                ext,
                seq!['w', 'e', 'b', 'p'],
            );
            let asked = spec_format_for_path(path, default);
            &&& png ==> asked is Png
            &&& webp ==> asked is Webp
            &&& !png && !webp ==> asked == default
        }),
{
    reveal_strlit("png");
    reveal_strlit("webp");
    assert("png"@ =~= seq!['p', 'n', 'g']);
    assert("webp"@ =~= seq!['w', 'e', 'b', 'p']);
    if let Some(ext) = extension_of(path) {
        lemma_same_letters(ext, "png"@);
        lemma_same_letters(ext, "webp"@);
    }
}

proof fn lemma_digits(s: Seq<char>)
    ensures
        digits_value(s) == crate::text::number_of(s),
    decreases s.len(),
{
    if s.len() > 0 {
        lemma_digits(s.drop_last());
    }
}

/// A number that was typed, with a plus in front or not, is the quality, brought between
/// one and a hundred; one too large for a `u32` is none.
pub proof fn law_a_typed_number_is_the_quality(n: nat, default: u8)
    ensures
        ({
            let want = if n > u32::MAX {
                default as int
            } else if n < 1 {
                1
            } else if n > 100 {
                100
            } else {
                n as int
            };
            &&& spec_quality(decimal_text(n), default) == want
            &&& spec_quality(seq!['+'] + decimal_text(n), default) == want
        }),
{
    let text = decimal_text(n);
    law_decimal_reads_back(n);
    lemma_digits(text);
    assert(text[0] != '+');
    let signed = seq!['+'] + text;
    assert(signed[0] == '+');
    assert(unsigned_part(signed) =~= text);
    assert(unsigned_part(text) == text);
}

/// A text that holds anything but digits, a plus in front apart, is no quality; nor is
/// one without a digit.
pub proof fn law_other_text_is_no_quality(text: Seq<char>, default: u8, i: int)
    requires
        text.len() == 0 || text == seq!['+'] || (0 <= i < text.len() && !('0' <= text[i] <= '9')
            && !(i == 0 && text[i] == '+')),
    ensures
        spec_quality(text, default) == default,
{
    let digits = unsigned_part(text);
    if text == seq!['+'] {
        assert(text[0] == '+');
        assert(digits.len() == 0);
    } else if text.len() > 0 {
        if text[0] == '+' {
            assert(digits[i - 1] == text[i]);
        } else {
            assert(digits[i] == text[i]);
        }
        assert(!all_digits(digits));
    }
    assert(number_of(text) is None);
}

/// A number is read as it is written, with a plus in front or not, if a `u32` can hold it.
pub proof fn law_a_number_reads_as_it_is_written(n: nat)
    ensures
        n <= u32::MAX ==> number_of(decimal_text(n)) == Some(n as u32) && number_of(
            seq!['+'] + decimal_text(n),
        ) == Some(n as u32),
        n > u32::MAX ==> number_of(decimal_text(n)) is None && number_of(
            seq!['+'] + decimal_text(n),
        ) is None,
{
    let text = decimal_text(n);
    law_decimal_reads_back(n);
    lemma_digits(text);
    assert(text[0] != '+');
    let signed = seq!['+'] + text;
    assert(signed[0] == '+');
    assert(unsigned_part(signed) =~= text);
    assert(unsigned_part(text) == text);
}

/// White space around a quality does not count.
pub proof fn law_space_around_a_quality_does_not_count(n: nat, default: u8, left: char, right: char)
    requires
        white_space(left),
        white_space(right),
    ensures
        typed_quality(decimal_text(n), default) == spec_quality(decimal_text(n), default),
        typed_quality(seq![left] + decimal_text(n) + seq![right], default) == spec_quality(
            decimal_text(n),
            default,
        ),
{
    let text = decimal_text(n);
    lemma_decimal_is_solid(n);
    let wide = seq![left] + text + seq![right];
    let half = text + seq![right];
    law_decimal_reads_back(n);
    assert(wide.first() == left);
    assert(wide.drop_first() =~= half);
    assert(half.first() == text[0]);
    assert('0' <= text[0] <= '9');
    assert(half.last() == right);
    assert(half.drop_last() =~= text);
    reveal_with_fuel(trimmed_text, 3);
}

} // verus!
