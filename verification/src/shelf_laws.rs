//! What the library of captures holds, and what its rows say, told by the files.
use vstd::prelude::*;
use vstd::string::*;

use crate::history::{
    ClipboardContent, DirFile, HistoryEntry, HistoryItem, IndexedFile, OpenAction, RecordingFile,
    all_items, clipboard_of, law_library_holds_every_item, law_library_is_newest_first,
    newest_first, precision_step, present, recordings_in, round_half_even, row_tile, size_label,
    spec_open_action, tile_of, to_encode, to_precision,
};
use crate::imaging::{Decoding, canvas_of, guessed_image, thumbnail_of};
use crate::path_laws::{
    is_name, law_a_name_without_a_dot_has_no_extension, law_the_extension_follows_the_last_dot,
    law_the_name_is_the_last_segment, leads_up,
};
use crate::paths::extension_of;
use crate::picker::{
    PickColorError, PickedColor, channel_byte, hex_byte, hex_digit, hex_text, spec_extract_rgb,
};
use crate::pixmap::Picture;
use crate::text::{begins_with, decimal_text};

verus! {

/// When an item was taken.
pub open spec fn taken_at(item: HistoryItem) -> i64 {
    match item {
        HistoryItem::Screenshot(entry) => entry.unix,
        HistoryItem::Recording(file) => file.unix,
    }
}

/// An item tells its own file: when it was made, where it is and how large it is.
pub proof fn law_an_item_tells_of_its_file(entry: HistoryEntry, file: RecordingFile)
    ensures
        HistoryItem::Screenshot(entry).spec_unix() == entry.unix,
        HistoryItem::Screenshot(entry).spec_path() == entry.path,
        HistoryItem::Screenshot(entry).spec_bytes() == entry.bytes,
        HistoryItem::Recording(file).spec_unix() == file.unix,
        HistoryItem::Recording(file).spec_path() == file.path,
        HistoryItem::Recording(file).spec_bytes() == file.bytes,
{
}

/// The screenshots that are listed are those of the index whose files are still there, in
/// its order.
pub proof fn law_only_present_screenshots_are_listed(index: Seq<IndexedFile>)
    ensures
        present(index) == index.filter(|f: IndexedFile| f.exists).map_values(
            |f: IndexedFile| f.entry,
        ),
    decreases index.len(),
{
    reveal(Seq::filter);
    let there = |f: IndexedFile| f.exists;
    let entry = |f: IndexedFile| f.entry;
    if index.len() > 0 {
        let rest = index.drop_last();
        law_only_present_screenshots_are_listed(rest);
        if index.last().exists {
            assert(there(index.last()));
            assert(index.filter(there) =~= rest.filter(there).push(index.last()));
            assert(index.filter(there).map_values(entry) =~= rest.filter(there).map_values(
                entry,
            ).push(index.last().entry));
        } else {
            assert(!there(index.last()));
        }
    } else {
        assert(index.filter(there).map_values(entry) =~= Seq::empty());
    }
}

/// The recordings of a folder are those of its parts, in order.
pub proof fn law_recordings_are_listed_in_order(first: Seq<DirFile>, second: Seq<DirFile>)
    ensures
        recordings_in(first + second) == recordings_in(first) + recordings_in(second),
    decreases second.len(),
{
    if second.len() == 0 {
        assert(first + second =~= first);
        assert(recordings_in(first) + recordings_in(second) =~= recordings_in(first));
    } else {
        let rest = second.drop_last();
        law_recordings_are_listed_in_order(first, rest);
        assert((first + second).drop_last() =~= first + rest);
        assert((first + second).last() == second.last());
        assert(recordings_in(first + second) =~= recordings_in(first) + recordings_in(second));
    }
}

/// Whether an extension is one that recordings have.
pub open spec fn of_video(ext: Seq<char>) -> bool {
    ext == seq!['m', 'k', 'v'] || ext == seq!['m', 'p', '4']
}

/// Whether a name begins with `Recording_`.
pub open spec fn is_recording_name(name: Seq<char>) -> bool {
    let start = seq!['R', 'e', 'c', 'o', 'r', 'd', 'i', 'n', 'g', '_'];
    name.len() >= 10 && forall|i: int| 0 <= i < 10 ==> name[i] == #[trigger] start[i]
}

proof fn lemma_recording_name(name: Seq<char>)
    ensures
        is_recording_name(name) == begins_with(
            name,
            seq!['R', 'e', 'c', 'o', 'r', 'd', 'i', 'n', 'g', '_'],
        ),
{
    let start = seq!['R', 'e', 'c', 'o', 'r', 'd', 'i', 'n', 'g', '_'];
    if name.len() >= 10 {
        let front = name.subrange(0, 10);
        if is_recording_name(name) {
            assert(front =~= start);
        }
        if front == start {
            assert forall|i: int| 0 <= i < 10 implies name[i] == #[trigger] start[i] by {
                assert(front[i] == name[i]);
            }
        }
    }
}

/// A file is a recording if its name begins with `Recording_` and ends in `.mkv` or
/// `.mp4`; it is listed with its own path, time and size.
pub proof fn law_a_recording_is_known_by_its_name(
    file: DirFile,
    base: Seq<char>,
    stem: Seq<char>,
    ext: Seq<char>,
)
    requires
        leads_up(base),
        !ext.contains('.'),
        is_name(stem + seq!['.'] + ext),
        file.path@ == base + (stem + seq!['.'] + ext),
        file.meta is Some,
    ensures
        ({
            let meant = stem.len() > 0 && is_recording_name(stem + seq!['.'] + ext) && of_video(
                ext,
            );
            let found = recordings_in(seq![file]);
            let meta = file.meta->0;
            &&& !meant ==> found.len() == 0
            &&& meant ==> found.len() == 1 && found[0].path == file.path && found[0].bytes
                == meta.bytes && found[0].unix == (match meta.modified {
                Some(secs) => if secs <= i64::MAX {
                    secs as int
                } else {
                    0
                },
                None => 0,
            })
        }),
{
    let name = stem + seq!['.'] + ext;
    law_the_name_is_the_last_segment(base, name);
    law_the_extension_follows_the_last_dot(base, stem, ext);
    lemma_literals();
    lemma_recording_name(name);
    assert(seq![file].drop_last() =~= Seq::<DirFile>::empty());
    assert(seq![file].last() == file);
    reveal_with_fuel(recordings_in, 2);
}

proof fn lemma_literals()
    ensures
        "Recording_"@ == seq!['R', 'e', 'c', 'o', 'r', 'd', 'i', 'n', 'g', '_'],
        "mkv"@ == seq!['m', 'k', 'v'],
        "mp4"@ == seq!['m', 'p', '4'],
{
    reveal_strlit("Recording_");
    reveal_strlit("mkv");
    reveal_strlit("mp4");
    assert("Recording_"@ =~= seq!['R', 'e', 'c', 'o', 'r', 'd', 'i', 'n', 'g', '_']);
    assert("mkv"@ =~= seq!['m', 'k', 'v']);
    assert("mp4"@ =~= seq!['m', 'p', '4']);
}

/// A file without an extension, and one of which the folder tells nothing, is no
/// recording.
pub proof fn law_other_files_are_no_recordings(file: DirFile, base: Seq<char>, name: Seq<char>)
    requires
        file.meta is None || (leads_up(base) && is_name(name) && !name.contains('.')
            && file.path@ == base + name),
    ensures
        recordings_in(seq![file]).len() == 0,
{
    if file.meta is Some {
        law_a_name_without_a_dot_has_no_extension(base, name);
    }
    assert(seq![file].drop_last() =~= Seq::<DirFile>::empty());
    assert(seq![file].last() == file);
    reveal_with_fuel(recordings_in, 2);
}

/// The library holds every screenshot and every recording, each once, and no item
/// comes before a newer one.
pub proof fn law_the_library_holds_all_captures(
    entries: Seq<HistoryEntry>,
    recordings: Seq<RecordingFile>,
    i: int,
    j: int,
)
    ensures
        ({
            let all = newest_first(all_items(entries, recordings));
            &&& all.len() == entries.len() + recordings.len()
            &&& 0 <= i < entries.len() ==> all.contains(HistoryItem::Screenshot(entries[i]))
            &&& 0 <= i < recordings.len() ==> all.contains(HistoryItem::Recording(recordings[i]))
            &&& 0 <= i < j < all.len() ==> taken_at(all[i]) >= taken_at(all[j])
        }),
{
    broadcast use vstd::seq_lib::group_to_multiset_ensures;

    let items = all_items(entries, recordings);
    let all = newest_first(items);
    law_library_holds_every_item(items);
    law_library_is_newest_first(items);
    if 0 <= i < entries.len() {
        assert(items[i] == HistoryItem::Screenshot(entries[i]));
        assert(items.contains(items[i]));
        assert(items.to_multiset().count(items[i]) > 0);
    }
    if 0 <= i < recordings.len() {
        let at = entries.len() + i;
        assert(items[at] == HistoryItem::Recording(recordings[i]));
        assert(items.contains(items[at]));
        assert(items.to_multiset().count(items[at]) > 0);
    }
    if 0 <= i < j < all.len() {
        assert(taken_at(all[i]) == all[i].spec_unix());
        assert(taken_at(all[j]) == all[j].spec_unix());
    }
}

/// A screenshot opens in the editor, a recording in its folder, each by its own path.
pub proof fn law_a_row_opens_its_own_file(entry: HistoryEntry, file: RecordingFile)
    ensures
        spec_open_action(HistoryItem::Screenshot(entry)) == OpenAction::Edit(entry.path),
        spec_open_action(HistoryItem::Recording(file)) == OpenAction::OpenDir(file.path),
{
}

/// Whether a decoder gave an image of which every pixel is there.
pub open spec fn is_whole(d: Decoding) -> bool {
    d matches Ok((width, height, pixels)) && pixels.len() == 4 * (width * height)
}

proof fn lemma_whole(width: u32, height: u32)
    ensures
        crate::pixmap::rgba_len(width as int, height as int) == 4 * (width * height),
{
    assert(crate::pixmap::rgba_len(width as int, height as int) == 4 * (width * height))
        by (nonlinear_arith);
}

/// What is put on the clipboard is the image that was decoded, pixel for pixel; where
/// there is none, or not all of it, there is an error and nothing is put there.
pub proof fn law_the_clipboard_gets_the_decoded_image(d: Decoding, scale: u32)
    ensures
        is_whole(d) ==> (to_encode(d, scale) matches Ok(ClipboardContent::Encode(p)) && (d->Ok_0).0
            == p.width && (d->Ok_0).1 == p.height && (d->Ok_0).2 == p.pixels && p.scale == scale),
        !is_whole(d) ==> to_encode(d, scale) is Err,
        d matches Err(why) ==> to_encode(d, scale) == Err::<ClipboardContent, Seq<char>>(why),
{
    if let Ok((width, height, pixels)) = d {
        lemma_whole(width, height);
    }
}

/// A row's tile shows the image that was decoded, at most 96 pixels each way; where
/// there is none it is blank.
pub proof fn law_a_tile_shows_the_decoded_image(d: Decoding, scale: u32)
    ensures
        tile_of(d, scale) is Some <==> is_whole(d),
        is_whole(d) ==> tile_of(d, scale) == Some(
            thumbnail_of(
                Picture {
                    width: (d->Ok_0).0,
                    height: (d->Ok_0).1,
                    scale,
                    pixels: (d->Ok_0).2,
                },
                96,
            ),
        ),
{
    if let Ok((width, height, pixels)) = d {
        lemma_whole(width, height);
    }
}

/// The editor opens with the image of the file, decoded as what its extension says, one
/// pixel to the pixel; where the file cannot be read or decoded, the reason is told.
pub proof fn law_the_editor_opens_what_was_saved(
    path: Seq<char>,
    bytes: Seq<u8>,
    why: Seq<char>,
    ext: Seq<char>,
)
    requires
        extension_of(path) == Some(ext),
    ensures
        canvas_of(path, Err(why)) == Err::<Picture, Seq<char>>(why),
        ({
            let d = crate::imaging::image_as(bytes, ext);
            let opened = canvas_of(path, Ok(bytes));
            &&& is_whole(d) ==> (opened matches Ok(p) && (d->Ok_0).0 == p.width && (d->Ok_0).1
                == p.height && (d->Ok_0).2 == p.pixels && p.scale == 120)
            &&& !is_whole(d) ==> opened is Err
            &&& d matches Err(reason) ==> opened == Err::<Picture, Seq<char>>(reason)
        }),
{
    if let Ok((width, height, pixels)) = crate::imaging::image_as(bytes, ext) {
        lemma_whole(width, height);
    }
}

/// The value of a hexadecimal digit.
pub open spec fn hex_value(c: char) -> int {
    if '0' <= c <= '9' {
        c as int - '0' as int
    } else {
        c as int - 'A' as int + 10
    }
}

/// Whether a character is a hexadecimal digit, in capitals.
pub open spec fn is_hex(c: char) -> bool {
    '0' <= c <= '9' || 'A' <= c <= 'F'
}

/// Whether a byte is what comes nearest to a channel told in billionths of full.
pub open spec fn is_shade(v: int, c: i64) -> bool {
    &&& 0 <= v <= 255
    &&& c <= 0 ==> v == 0
    &&& c >= 1_000_000_000 ==> v == 255
    &&& 0 < c < 1_000_000_000 ==> -500_000_000 <= 1_000_000_000 * v - 255 * c <= 500_000_000
}

proof fn lemma_shade(c: i64)
    ensures
        is_shade(channel_byte(c), c),
{
    if 0 < c < 1_000_000_000 {
        let top = 510 * c + 1_000_000_000;
        assert(2 * c * 255 + crate::picker::FULL_CHANNEL == top);
        assert(channel_byte(c) == top / 2_000_000_000);
    }
}

proof fn lemma_hex_byte(c: i64)
    ensures
        ({
            let pair = hex_byte(channel_byte(c));
            &&& pair.len() == 2
            &&& is_hex(pair[0]) && is_hex(pair[1])
            &&& is_shade(16 * hex_value(pair[0]) + hex_value(pair[1]), c)
        }),
{
    let v = channel_byte(c);
    lemma_shade(c);
    assert(hex_value(hex_digit(v / 16)) == v / 16);
    assert(hex_value(hex_digit(v % 16)) == v % 16);
}

/// A colour is written as a hash and its red, green and blue, in that order: two
/// hexadecimal digits each that stand for the nearest of the shades there are.
pub proof fn law_hex_digits_stand_for_the_colour(color: PickedColor)
    ensures
        ({
            let t = hex_text(color);
            &&& t.len() == 7
            &&& t[0] == '#'
            &&& forall|i: int| 1 <= i < 7 ==> is_hex(#[trigger] t[i])
            &&& is_shade(16 * hex_value(t[1]) + hex_value(t[2]), color.r)
            &&& is_shade(16 * hex_value(t[3]) + hex_value(t[4]), color.g)
            &&& is_shade(16 * hex_value(t[5]) + hex_value(t[6]), color.b)
        }),
{
    reveal_strlit("#");
    lemma_hex_byte(color.r);
    lemma_hex_byte(color.g);
    lemma_hex_byte(color.b);
    let t = hex_text(color);
    let r = hex_byte(channel_byte(color.r));
    let g = hex_byte(channel_byte(color.g));
    let b = hex_byte(channel_byte(color.b));
    assert(t[1] == r[0] && t[2] == r[1] && t[3] == g[0] && t[4] == g[1] && t[5] == b[0] && t[6]
        == b[1]);
}

/// The unit that a size is told in, and how many bytes it stands for: the largest that
/// the size reaches.
pub open spec fn told_in(bytes: u64, unit: Seq<char>, one: int) -> bool {
    ||| (0x400 <= bytes < 0x10_0000 && unit == seq![' ', 'K', 'B'] && one == 0x400)
    ||| (0x10_0000 <= bytes < 0x4000_0000 && unit == seq![' ', 'M', 'B'] && one == 0x10_0000)
    ||| (0x4000_0000 <= bytes < 0x100_0000_0000 && unit == seq![' ', 'G', 'B'] && one
        == 0x4000_0000)
    ||| (bytes >= 0x100_0000_0000 && unit == seq![' ', 'T', 'B'] && one == 0x100_0000_0000)
}

/// A size is told in whole bytes under a kilobyte, else in tenths of the largest unit it
/// reaches, to the nearest tenth; beyond what 53 bits can count, to within ten kilobytes
/// of that.
pub proof fn law_sizes_are_told_to_the_nearest_tenth(bytes: u64) -> (r: (nat, nat, Seq<char>, int))
    ensures
        bytes < 0x400 ==> size_label(bytes) == decimal_text(bytes as nat) + seq![' ', 'B'],
        bytes >= 0x400 ==> {
            let (whole, tenth, unit, one) = r;
            let off = (10 * whole + tenth) * one - 10 * bytes;
            &&& told_in(bytes, unit, one)
            &&& tenth < 10
            &&& size_label(bytes) == decimal_text(whole) + seq!['.'] + decimal_text(tenth) + unit
            &&& bytes < 0x20_0000_0000_0000 ==> -one <= 2 * off <= one
            &&& -one - 20480 <= 2 * off <= one + 20480
        },
{
    reveal_strlit(" B");
    reveal_strlit(" KB");
    reveal_strlit(" MB");
    reveal_strlit(" GB");
    reveal_strlit(" TB");
    reveal_strlit(".");
    assert(" B"@ =~= seq![' ', 'B']);
    assert(" KB"@ =~= seq![' ', 'K', 'B']);
    assert(" MB"@ =~= seq![' ', 'M', 'B']);
    assert(" GB"@ =~= seq![' ', 'G', 'B']);
    assert(" TB"@ =~= seq![' ', 'T', 'B']);
    assert("."@ =~= seq!['.']);
    let n = bytes as int;
    let k = crate::history::size_unit(n);
    let one = crate::history::unit_bytes(k);
    let value = to_precision(n);
    let tenths = round_half_even(10 * value, one);
    lemma_precise(n);
    lemma_half_even(10 * value, one);
    assert((10 * (tenths / 10) + tenths % 10) == tenths);
    assert(one * tenths == tenths * one) by (nonlinear_arith);
    assert(tenths >= 0) by (nonlinear_arith)
        requires
            2 * (one * tenths - 10 * value) >= -one,
            value >= 0,
            one >= 1,
    ;
    ((tenths / 10) as nat, (tenths % 10) as nat, crate::history::unit_name(k), one)
}

proof fn lemma_half_even(n: int, d: int)
    requires
        n >= 0,
        d > 0,
    ensures
        -d <= 2 * (d * round_half_even(n, d) - n) <= d,
{
    vstd::arithmetic::div_mod::lemma_fundamental_div_mod(n, d);
    let q = n / d;
    let r = n % d;
    assert(0 <= r < d);
    assert(d * (q + 1) == d * q + d) by (nonlinear_arith);
}

proof fn lemma_precise(n: int)
    requires
        0 <= n < 0x1_0000_0000_0000_0000,
    ensures
        n < 0x20_0000_0000_0000 ==> to_precision(n) == n,
        -1024 <= to_precision(n) - n <= 1024,
        to_precision(n) >= 0,
{
    let step = precision_step(n);
    reveal_with_fuel(precision_step, 13);
    assert(1 <= step <= 0x800);
    lemma_half_even(n, step);
    let q = round_half_even(n, step);
    assert(step * q == q * step) by (nonlinear_arith);
    assert(q >= 0 && q * step >= 0) by (nonlinear_arith)
        requires
            q == n / step || q == n / step + 1,
            n >= 0,
            step >= 1,
    ;
}

/// A PNG goes to the clipboard byte for byte; any other screenshot is decoded first, at
/// its own scale. A recording has no tile.
pub proof fn law_png_goes_to_the_clipboard_as_it_is(
    entry: HistoryEntry,
    file: RecordingFile,
    bytes: Seq<u8>,
)
    ensures
        entry.format@ == seq!['p', 'n', 'g'] ==> clipboard_of(entry, bytes) == Ok::<
            ClipboardContent,
            Seq<char>,
        >(ClipboardContent::Ready(bytes)),
        entry.format@ != seq!['p', 'n', 'g'] ==> clipboard_of(entry, bytes) == to_encode(
            guessed_image(bytes),
            entry.scale,
        ),
        row_tile(HistoryItem::Screenshot(entry), bytes) == tile_of(
            guessed_image(bytes),
            entry.scale,
        ),
        row_tile(HistoryItem::Recording(file), bytes) is None,
{
    reveal_strlit("png");
    assert("png"@ =~= seq!['p', 'n', 'g']);
}

/// A reply with a colour gives that colour; one without, or with something else in its
/// place, is an error of its own kind.
pub proof fn law_a_reply_gives_its_colour(entry: Option<Result<PickedColor, String>>)
    ensures
        spec_extract_rgb(entry) matches Ok(color) ==> entry == Some(
            Ok::<PickedColor, String>(color),
        ),
        spec_extract_rgb(entry) is Ok <==> (entry matches Some(Ok(_))),
        entry is None ==> spec_extract_rgb(entry) == Err::<PickedColor, PickColorError>(
            PickColorError::MissingColor,
        ),
        entry matches Some(Err(why)) ==> spec_extract_rgb(entry) == Err::<
            PickedColor,
            PickColorError,
        >(PickColorError::Decode(why)),
{
}

} // verus!
