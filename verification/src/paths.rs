//! File names and extensions of slash-separated paths, by the rules of
//! `std::path` on Unix.
use vstd::prelude::*;
use vstd::string::*;

use crate::text::same_text;

verus! {

/// Where the last segment of `path[..end]` begins: after the last slash.
pub open spec fn segment_start(path: Seq<char>, end: int) -> int
    decreases end,
{
    if end <= 0 {
        0
    } else if path[end - 1] == '/' {
        end
    } else {
        segment_start(path, end - 1)
    }
}

/// The name at the end of `path[..end]`: its last segment that is neither empty
/// nor `.`, unless that is `..`.
pub open spec fn name_before(path: Seq<char>, end: int) -> Option<Seq<char>>
    decreases end,
{
    if end <= 0 {
        None
    } else {
        let start = segment_start(path, end);
        let segment = path.subrange(start, end);
        if segment.len() == 0 || segment == seq!['.'] {
            if start <= 0 || start > end {
                None
            } else {
                name_before(path, start - 1)
            }
        } else if segment == seq!['.', '.'] {
            None
        } else {
            Some(segment)
        }
    }
}

/// The name of the file or directory that a path leads to, if it names one.
pub open spec fn file_name_of(path: Seq<char>) -> Option<Seq<char>> {
    name_before(path, path.len() as int)
}

/// The place of the last dot in `name[..end]`, or a negative number.
pub open spec fn last_dot(name: Seq<char>, end: int) -> int
    decreases end,
{
    if end <= 0 {
        -1
    } else if name[end - 1] == '.' {
        end - 1
    } else {
        last_dot(name, end - 1)
    }
}

/// What follows the last dot of a file name, unless the dot is its first
/// character.
pub open spec fn name_extension(name: Seq<char>) -> Option<Seq<char>> {
    let dot = last_dot(name, name.len() as int);
    if dot <= 0 {
        None
    } else {
        Some(name.subrange(dot + 1, name.len() as int))
    }
}

/// The extension of the file that a path leads to.
pub open spec fn extension_of(path: Seq<char>) -> Option<Seq<char>> {
    match file_name_of(path) {
        None => None,
        Some(name) => name_extension(name),
    }
}

proof fn lemma_segment_bounds(path: Seq<char>, end: int)
    requires
        0 <= end <= path.len(),
    ensures
        0 <= segment_start(path, end) <= end,
        segment_start(path, end) > 0 ==> path[segment_start(path, end) - 1] == '/',
    decreases end,
{
    if end > 0 && path[end - 1] != '/' {
        lemma_segment_bounds(path, end - 1);
    }
}

fn find_segment_start(path: &str, end: usize) -> (r: usize)
    requires
        end <= path@.len(),
    ensures
        r == segment_start(path@, end as int),
        r <= end,
{
    let mut i: usize = end;
    while i > 0
        invariant
            i <= end <= path@.len(),
            segment_start(path@, end as int) == segment_start(path@, i as int),
        decreases i,
    {
        if path.get_char(i - 1) == '/' {
            return i;
        }
        i = i - 1;
    }
    0
}

/// The name of the file or directory that a path leads to, if it names one.
pub fn file_name(path: &str) -> (r: Option<String>)
    ensures
        match (r, file_name_of(path@)) {
            (Some(a), Some(b)) => a@ == b,
            (None, None) => true,
            _ => false,
        },
{
    let mut end: usize = path.unicode_len();
    while end > 0
        invariant
            end <= path@.len(),
            file_name_of(path@) == name_before(path@, end as int),
        decreases end,
    {
        let start: usize = find_segment_start(path, end);
        let ghost segment = path@.subrange(start as int, end as int);
        let n: usize = end - start;
        let blank: bool = n == 0 || (n == 1 && path.get_char(start) == '.');
        proof {
            if n == 1 && path@[start as int] == '.' {
                assert(segment =~= seq!['.']);
            } else if segment == seq!['.'] {
                assert(segment.len() == 1);
                assert(segment[0] == '.');
            }
            assert(blank == (segment.len() == 0 || segment == seq!['.']));
        }
        if !blank {
            let up: bool = n == 2 && path.get_char(start) == '.' && path.get_char(start + 1) == '.';
            proof {
                if up {
                    assert(segment =~= seq!['.', '.']);
                } else if segment == seq!['.', '.'] {
                    assert(segment[0] == '.' && segment[1] == '.');
                }
            }
            if up {
                return None;
            }
            return Some(path.substring_char(start, end).to_owned());
        }
        if start == 0 {
            return None;
        }
        end = start - 1;
    }
    None
}

/// What follows the last dot of a file name, unless the dot is its first
/// character.
pub fn extension_of_name(name: &str) -> (r: Option<String>)
    ensures
        match (r, name_extension(name@)) {
            (Some(a), Some(b)) => a@ == b,
            (None, None) => true,
            _ => false,
        },
{
    let n: usize = name.unicode_len();
    let mut i: usize = n;
    while i > 0
        invariant
            i <= n,
            n == name@.len(),
            last_dot(name@, n as int) == last_dot(name@, i as int),
        decreases i,
    {
        if name.get_char(i - 1) == '.' {
            if i == 1 {
                return None;
            }
            return Some(name.substring_char(i, n).to_owned());
        }
        i = i - 1;
    }
    None
}

/// The extension of the file that a path leads to.
pub fn extension(path: &str) -> (r: Option<String>)
    ensures
        match (r, extension_of(path@)) {
            (Some(a), Some(b)) => a@ == b,
            (None, None) => true,
            _ => false,
        },
{
    match file_name(path) {
        None => None,
        Some(name) => extension_of_name(name.as_str()),
    }
}

/// How much of a path stands before its first segment: the root, or a leading
/// `.` that is a segment of its own.
pub open spec fn lead(path: Seq<char>) -> int {
    if path.len() > 0 && path[0] == '/' {
        1
    } else if path.len() > 0 && path[0] == '.' && (path.len() == 1 || path[1] == '/') {
        1
    } else {
        0
    }
}

/// Where the last segment of `path[..end]` begins, behind what leads the path.
pub open spec fn body_start(path: Seq<char>, end: int) -> int {
    let start = segment_start(path, end);
    if start < lead(path) {
        lead(path)
    } else {
        start
    }
}

/// Where `path[..end]` ends once the segments at its end that are empty or `.`
/// are dropped.
pub open spec fn body_end(path: Seq<char>, end: int) -> int
    decreases end,
{
    if end <= lead(path) {
        end
    } else {
        let start = body_start(path, end);
        let segment = path.subrange(start, end);
        if segment.len() == 0 || segment == seq!['.'] {
            if start > lead(path) && start <= end {
                body_end(path, start - 1)
            } else {
                lead(path)
            }
        } else {
            end
        }
    }
}

/// How much of a path leads to the directory that its last segment is in, if it
/// has one.
pub open spec fn parent_end(path: Seq<char>) -> Option<int> {
    let end = body_end(path, path.len() as int);
    if end > lead(path) {
        let start = body_start(path, end);
        Some(
            body_end(
                path,
                if start > lead(path) {
                    start - 1
                } else {
                    lead(path)
                },
            ),
        )
    } else if end == 1 && path[0] == '.' {
        Some(0)
    } else {
        None
    }
}

/// The directory that a path lies in; the path itself, where it lies in none.
pub open spec fn containing_dir_of(path: Seq<char>) -> Seq<char> {
    match parent_end(path) {
        Some(end) => path.subrange(0, end),
        None => path,
    }
}

fn find_lead(path: &str) -> (r: usize)
    ensures
        r == lead(path@),
        r <= path@.len(),
{
    let n: usize = path.unicode_len();
    if n > 0 && path.get_char(0) == '/' {
        1
    } else if n > 0 && path.get_char(0) == '.' && (n == 1 || path.get_char(1) == '/') {
        1
    } else {
        0
    }
}

fn find_body_start(path: &str, end: usize, first: usize) -> (r: usize)
    requires
        first <= end <= path@.len(),
        first == lead(path@),
    ensures
        r == body_start(path@, end as int),
        first <= r <= end,
{
    let start: usize = find_segment_start(path, end);
    if start < first {
        first
    } else {
        start
    }
}

fn find_body_end(path: &str, end: usize, first: usize) -> (r: usize)
    requires
        first <= end <= path@.len(),
        first == lead(path@),
    ensures
        r == body_end(path@, end as int),
        first <= r <= end,
{
    let mut e: usize = end;
    while e > first
        invariant
            first <= e <= end <= path@.len(),
            first == lead(path@),
            body_end(path@, end as int) == body_end(path@, e as int),
        decreases e,
    {
        let start: usize = find_body_start(path, e, first);
        let ghost segment = path@.subrange(start as int, e as int);
        let n: usize = e - start;
        let blank: bool = n == 0 || (n == 1 && path.get_char(start) == '.');
        proof {
            if n == 1 && path@[start as int] == '.' {
                assert(segment =~= seq!['.']);
            } else if segment == seq!['.'] {
                assert(segment.len() == 1);
                assert(segment[0] == '.');
            }
            assert(blank == (segment.len() == 0 || segment == seq!['.']));
        }
        if !blank {
            return e;
        }
        if start <= first {
            return first;
        }
        e = start - 1;
    }
    e
}

/// The directory that a path lies in; the path itself, where it lies in none.
pub fn containing_dir(path: &str) -> (r: String)
    ensures
        r@ == containing_dir_of(path@),
{
    let first: usize = find_lead(path);
    let end: usize = find_body_end(path, path.unicode_len(), first);
    if end > first {
        let start: usize = find_body_start(path, end, first);
        let cut: usize = if start > first {
            start - 1
        } else {
            first
        };
        let to: usize = find_body_end(path, cut, first);
        path.substring_char(0, to).to_owned()
    } else if end == 1 && path.get_char(0) == '.' {
        path.substring_char(0, 0).to_owned()
    } else {
        path.to_owned()
    }
}

/// A file name holds no slash and is not empty.
pub proof fn law_file_name_is_one_segment(path: Seq<char>)
    ensures
        file_name_of(path) matches Some(name) ==> name.len() > 0 && forall|i: int|
            0 <= i < name.len() ==> #[trigger] name[i] != '/',
{
    lemma_name_has_no_slash(path, path.len() as int);
}

proof fn lemma_segment_has_no_slash(path: Seq<char>, end: int)
    requires
        0 <= end <= path.len(),
    ensures
        forall|i: int| segment_start(path, end) <= i < end ==> #[trigger] path[i] != '/',
    decreases end,
{
    if end > 0 && path[end - 1] != '/' {
        lemma_segment_has_no_slash(path, end - 1);
    }
}

proof fn lemma_name_has_no_slash(path: Seq<char>, end: int)
    requires
        0 <= end <= path.len(),
    ensures
        name_before(path, end) matches Some(name) ==> name.len() > 0 && forall|i: int|
            0 <= i < name.len() ==> #[trigger] name[i] != '/',
    decreases end,
{
    if end > 0 {
        let start = segment_start(path, end);
        lemma_segment_bounds(path, end);
        lemma_segment_has_no_slash(path, end);
        if start > 0 {
            lemma_name_has_no_slash(path, start - 1);
        }
    }
}

/// There is no slash in an extension.
pub proof fn lemma_extension_has_no_slash(path: Seq<char>)
    ensures
        extension_of(path) matches Some(ext) ==> !ext.contains('/'),
{
    lemma_name_has_no_slash(path, path.len() as int);
    if let Some(name) = file_name_of(path) {
        if let Some(ext) = name_extension(name) {
            lemma_last_dot_bounds(name, name.len() as int);
            let dot = last_dot(name, name.len() as int);
            if ext.contains('/') {
                let k = choose|k: int| 0 <= k < ext.len() && ext[k] == '/';
                assert(name[dot + 1 + k] == '/');
            }
        }
    }
}

proof fn lemma_last_dot_bounds(name: Seq<char>, end: int)
    ensures
        last_dot(name, end) < end || end < 0,
    decreases end,
{
    if end > 0 && name[end - 1] != '.' {
        lemma_last_dot_bounds(name, end - 1);
    }
}

proof fn lemma_body_end(path: Seq<char>, end: int)
    requires
        lead(path) <= end <= path.len(),
    ensures
        lead(path) <= body_end(path, end) <= end,
    decreases end,
{
    if end > lead(path) {
        lemma_segment_bounds(path, end);
        let start = body_start(path, end);
        if start > lead(path) {
            lemma_body_end(path, start - 1);
        }
    }
}

/// The directory that a path lies in is the beginning of the path.
pub proof fn law_containing_dir_is_a_beginning(path: Seq<char>)
    ensures
        containing_dir_of(path).len() <= path.len(),
        containing_dir_of(path) == path.subrange(0, containing_dir_of(path).len() as int),
{
    let end = body_end(path, path.len() as int);
    lemma_body_end(path, path.len() as int);
    if end > lead(path) {
        lemma_segment_bounds(path, end);
        let start = body_start(path, end);
        let cut = if start > lead(path) {
            start - 1
        } else {
            lead(path)
        };
        lemma_body_end(path, cut);
    }
    assert(containing_dir_of(path) =~= path.subrange(0, containing_dir_of(path).len() as int));
}

/// The segments of `path[..end]` behind what leads the path, those that are
/// empty or `.` left out.
pub open spec fn segments(path: Seq<char>, end: int) -> Seq<Seq<char>>
    decreases end,
{
    let to = body_end(path, end);
    if to <= lead(path) || to > end {
        Seq::empty()
    } else {
        let start = body_start(path, to);
        if start < lead(path) || start > to {
            Seq::empty()
        } else if start > lead(path) {
            segments(path, start - 1).push(path.subrange(start, to))
        } else {
            seq![path.subrange(start, to)]
        }
    }
}

/// Whether two paths are the same, segment by segment.
pub open spec fn same_path_as(a: Seq<char>, b: Seq<char>) -> bool {
    &&& a.subrange(0, lead(a)) == b.subrange(0, lead(b))
    &&& segments(a, a.len() as int) == segments(b, b.len() as int)
}

proof fn lemma_push_equal<T>(a: Seq<T>, x: T, b: Seq<T>, y: T)
    ensures
        a.push(x) == b.push(y) <==> a == b && x == y,
{
    if a.push(x) == b.push(y) {
        assert(a =~= a.push(x).drop_last());
        assert(b =~= b.push(y).drop_last());
        assert(a.push(x).last() == x);
        assert(b.push(y).last() == y);
    }
}

/// Where the segment before `start` ends.
fn before_segment(start: usize, first: usize) -> (r: usize)
    requires
        first <= start,
    ensures
        r == (if start > first {
            start - 1
        } else {
            first as int
        }),
{
    if start > first {
        start - 1
    } else {
        first
    }
}

proof fn lemma_segments_step(path: Seq<char>, end: int)
    requires
        lead(path) <= end <= path.len(),
    ensures
        ({
            let to = body_end(path, end);
            let start = body_start(path, to);
            &&& lead(path) <= to <= end
            &&& to <= lead(path) ==> segments(path, end) == Seq::<Seq<char>>::empty()
            &&& to > lead(path) ==> lead(path) <= start <= to && segments(path, end) == segments(
                path,
                if start > lead(path) {
                    start - 1
                } else {
                    lead(path)
                },
            ).push(path.subrange(start, to))
        }),
{
    lemma_body_end(path, end);
    let to = body_end(path, end);
    if to > lead(path) {
        lemma_segment_bounds(path, to);
        let start = body_start(path, to);
        if start <= lead(path) {
            lemma_body_end(path, lead(path));
            assert(segments(path, lead(path)) =~= Seq::<Seq<char>>::empty());
            assert(seq![path.subrange(start, to)] =~= Seq::<Seq<char>>::empty().push(
                path.subrange(start, to),
            ));
        }
    }
}

/// Whether two paths are the same, segment by segment.
pub fn same_path(a: &str, b: &str) -> (r: bool)
    ensures
        r == same_path_as(a@, b@),
{
    let first_a: usize = find_lead(a);
    let first_b: usize = find_lead(b);
    if !same_text(a.substring_char(0, first_a), b.substring_char(0, first_b)) {
        return false;
    }
    let mut end_a: usize = a.unicode_len();
    let mut end_b: usize = b.unicode_len();
    loop
        invariant
            first_a == lead(a@),
            first_b == lead(b@),
            first_a <= end_a <= a@.len(),
            first_b <= end_b <= b@.len(),
            a@.subrange(0, lead(a@)) == b@.subrange(0, lead(b@)),
            same_path_as(a@, b@) == (segments(a@, end_a as int) == segments(b@, end_b as int)),
        decreases end_a,
    {
        let to_a: usize = find_body_end(a, end_a, first_a);
        let to_b: usize = find_body_end(b, end_b, first_b);
        proof {
            lemma_segments_step(a@, end_a as int);
            lemma_segments_step(b@, end_b as int);
        }
        if to_a <= first_a || to_b <= first_b {
            proof {
                assert(to_a <= first_a <==> segments(a@, end_a as int).len() == 0);
                assert(to_b <= first_b <==> segments(b@, end_b as int).len() == 0);
                if to_a <= first_a && to_b <= first_b {
                    assert(segments(a@, end_a as int) =~= segments(b@, end_b as int));
                }
            }
            return to_a <= first_a && to_b <= first_b;
        }
        let start_a: usize = find_body_start(a, to_a, first_a);
        let start_b: usize = find_body_start(b, to_b, first_b);
        let next_a: usize = before_segment(start_a, first_a);
        let next_b: usize = before_segment(start_b, first_b);
        proof {
            lemma_push_equal(
                segments(a@, next_a as int),
                a@.subrange(start_a as int, to_a as int),
                segments(b@, next_b as int),
                b@.subrange(start_b as int, to_b as int),
            );
        }
        if !same_text(a.substring_char(start_a, to_a), b.substring_char(start_b, to_b)) {
            return false;
        }
        end_a = next_a;
        end_b = next_b;
    }
}

/// Being the same is what it should be: every path is the same as itself, and
/// it does not matter which is named first or what stands between.
pub proof fn law_same_paths(a: Seq<char>, b: Seq<char>, c: Seq<char>)
    ensures
        same_path_as(a, a),
        same_path_as(a, b) == same_path_as(b, a),
        same_path_as(a, b) && same_path_as(b, c) ==> same_path_as(a, c),
{
}

} // verus!
