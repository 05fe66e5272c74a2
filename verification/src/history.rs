//! The capture library: saved screenshots and recordings, newest first, and
//! what can be done with them.

use vstd::prelude::*;
use vstd::string::*;

use crate::imaging::{Decoded, Decoding, decode_guessed, decoding, frame_of, framed, guessed_image};
use crate::paths::{extension, extension_of, file_name, file_name_of};
use crate::pixmap::{Frame, Picture};
use crate::text::{begins_with, decimal, decimal_text, same_text, starts_with};

verus! {

/// A saved screenshot, as the index lists it.
#[derive(Debug, PartialEq, Eq)]
pub struct HistoryEntry {
    /// When it was taken, in seconds since the epoch.
    pub unix: i64,
    pub path: String,
    /// The PNG saved beside it, if one was.
    pub png_sidecar: Option<String>,
    pub kind: String,
    pub format: String,
    pub width: u32,
    pub height: u32,
    /// In 120ths.
    pub scale: u32,
    pub bytes: u64,
}

/// A recording found on disk.
#[derive(Debug, PartialEq, Eq)]
pub struct RecordingFile {
    pub path: String,
    /// When it was last written, in seconds since the epoch.
    pub unix: i64,
    pub bytes: u64,
}

/// One row of the library.
#[derive(Debug, PartialEq, Eq)]
pub enum HistoryItem {
    Screenshot(HistoryEntry),
    Recording(RecordingFile),
}

impl HistoryItem {
    pub open spec fn spec_path(self) -> String {
        match self {
            HistoryItem::Screenshot(entry) => entry.path,
            HistoryItem::Recording(file) => file.path,
        }
    }

    pub fn path(&self) -> (r: &String)
        ensures
            *r == self.spec_path(),
    {
        match self {
            HistoryItem::Screenshot(entry) => &entry.path,
            HistoryItem::Recording(file) => &file.path,
        }
    }

    pub open spec fn spec_unix(self) -> i64 {
        match self {
            HistoryItem::Screenshot(entry) => entry.unix,
            HistoryItem::Recording(file) => file.unix,
        }
    }

    pub fn unix(&self) -> (r: i64)
        ensures
            r == self.spec_unix(),
    {
        match self {
            HistoryItem::Screenshot(entry) => entry.unix,
            HistoryItem::Recording(file) => file.unix,
        }
    }

    pub open spec fn spec_bytes(self) -> u64 {
        match self {
            HistoryItem::Screenshot(entry) => entry.bytes,
            HistoryItem::Recording(file) => file.bytes,
        }
    }

    pub fn bytes(&self) -> (r: u64)
        ensures
            r == self.spec_bytes(),
    {
        match self {
            HistoryItem::Screenshot(entry) => entry.bytes,
            HistoryItem::Recording(file) => file.bytes,
        }
    }

    pub fn is_recording(&self) -> (r: bool)
        ensures
            r == (self is Recording),
    {
        match self {
            HistoryItem::Screenshot(_) => false,
            HistoryItem::Recording(_) => true,
        }
    }

    /// The name of the file, or the whole path where it names none.
    pub fn file_name(&self) -> (r: String)
        ensures
            r@ == name_or_path(self.spec_path()@),
    {
        label_of_path(self.path())
    }
}

/// The name of the file that a path leads to, or the path where it names none.
pub open spec fn name_or_path(path: Seq<char>) -> Seq<char> {
    match file_name_of(path) {
        Some(name) => name,
        None => path,
    }
}

/// The name of the file that a path leads to, or the path where it names none.
pub fn label_of_path(path: &String) -> (r: String)
    ensures
        r@ == name_or_path(path@),
{
    match file_name(path.as_str()) {
        Some(name) => name,
        None => path.clone(),
    }
}

/// What opening an item does.
#[derive(Debug, PartialEq, Eq)]
pub enum OpenAction {
    /// Open it in the editor.
    Edit(String),
    /// Show the folder that it is in.
    OpenDir(String),
}

/// A screenshot opens in the editor; a recording's folder is shown.
pub open spec fn spec_open_action(item: HistoryItem) -> OpenAction {
    match item {
        HistoryItem::Screenshot(entry) => OpenAction::Edit(entry.path),
        HistoryItem::Recording(file) => OpenAction::OpenDir(file.path),
    }
}

pub fn open_action(item: &HistoryItem) -> (r: OpenAction)
    ensures
        r == spec_open_action(*item),
{
    match item {
        HistoryItem::Screenshot(entry) => OpenAction::Edit(entry.path.clone()),
        HistoryItem::Recording(file) => OpenAction::OpenDir(file.path.clone()),
    }
}

/// What a directory listing tells of a file.
#[derive(Debug, Clone, Copy, PartialEq, Eq, Structural)]
pub struct FileMeta {
    /// When it was last written, in seconds since the epoch, where that is
    /// known and not before it.
    pub modified: Option<u64>,
    pub bytes: u64,
}

/// One file of a directory listing.
#[derive(Debug)]
pub struct DirFile {
    pub path: String,
    pub meta: Option<FileMeta>,
}

/// What a recording's file name begins with.
pub open spec fn recording_prefix() -> Seq<char> {
    "Recording_"@
}

/// Whether a path is that of a recording: by the beginning of its name and by
/// its extension.
pub open spec fn is_recording_path(path: Seq<char>) -> bool {
    &&& file_name_of(path) matches Some(name)
    &&& begins_with(name, recording_prefix())
    &&& extension_of(path) matches Some(ext)
    &&& (ext == "mkv"@ || ext == "mp4"@)
}

/// A file time as a signed count; zero where there is none or it is too large.
pub open spec fn file_time(modified: Option<u64>) -> i64 {
    match modified {
        Some(secs) => if secs <= i64::MAX {
            secs as i64
        } else {
            0
        },
        None => 0,
    }
}

/// The recording that a file is, if it is one.
pub open spec fn recording_of(file: DirFile) -> Option<RecordingFile> {
    match file.meta {
        Some(meta) => if is_recording_path(file.path@) {
            Some(
                RecordingFile {
                    path: file.path,
                    unix: file_time(meta.modified),
                    bytes: meta.bytes,
                },
            )
        } else {
            None
        },
        None => None,
    }
}

/// The recordings among files, in their order.
pub open spec fn recordings_in(files: Seq<DirFile>) -> Seq<RecordingFile>
    decreases files.len(),
{
    if files.len() == 0 {
        Seq::empty()
    } else {
        match recording_of(files.last()) {
            Some(r) => recordings_in(files.drop_last()).push(r),
            None => recordings_in(files.drop_last()),
        }
    }
}

fn names_a_recording(path: &String) -> (r: bool)
    ensures
        r == is_recording_path(path@),
{
    match file_name(path.as_str()) {
        None => false,
        Some(name) => {
            if !starts_with(name.as_str(), "Recording_") {
                return false;
            }
            match extension(path.as_str()) {
                None => false,
                Some(ext) => same_text(ext.as_str(), "mkv") || same_text(ext.as_str(), "mp4"),
            }
        },
    }
}

/// Picks the recordings out of a directory listing.
pub fn scan_recordings(files: Vec<DirFile>) -> (r: Vec<RecordingFile>)
    ensures
        r@ == recordings_in(files@),
{
    let ghost all = files@;
    let mut rest = files;
    let mut found: Vec<RecordingFile> = Vec::new();
    let mut i: usize = 0;
    let n: usize = rest.len();
    assert(all.take(0) =~= Seq::<DirFile>::empty());
    while i < n
        invariant
            n == all.len(),
            i <= n,
            rest@ == all.skip(i as int),
            found@ == recordings_in(all.take(i as int)),
        decreases n - i,
    {
        let file = rest.remove(0);
        proof {
            assert(file == all[i as int]);
            assert(all.take(i + 1).drop_last() =~= all.take(i as int));
            assert(all.take(i + 1).last() == file);
            assert(all.skip(i as int).remove(0) =~= all.skip(i + 1));
        }
        if let Some(meta) = file.meta {
            if names_a_recording(&file.path) {
                let unix: i64 = match meta.modified {
                    Some(secs) => if secs <= i64::MAX as u64 {
                        secs as i64
                    } else {
                        0
                    },
                    None => 0,
                };
                found.push(RecordingFile { path: file.path, unix, bytes: meta.bytes });
            }
        }
        i = i + 1;
    }
    assert(all.take(n as int) =~= all);
    found
}

/// Where an item goes in a list that runs from the newest to the oldest: after
/// everything that is not older. `n` items are looked at.
pub open spec fn age_index(list: Seq<HistoryItem>, unix: i64, n: int) -> int
    decreases n,
{
    if n <= 0 {
        0
    } else if list[n - 1].spec_unix() >= unix {
        n
    } else {
        age_index(list, unix, n - 1)
    }
}

/// The list with one more item in its place.
pub open spec fn with_item(list: Seq<HistoryItem>, item: HistoryItem) -> Seq<HistoryItem> {
    list.insert(age_index(list, item.spec_unix(), list.len() as int), item)
}

/// The items from the newest to the oldest; of two equally old ones, the one
/// that came first stays first.
pub open spec fn newest_first(items: Seq<HistoryItem>) -> Seq<HistoryItem>
    decreases items.len(),
{
    if items.len() == 0 {
        Seq::empty()
    } else {
        with_item(newest_first(items.drop_last()), items.last())
    }
}

/// The screenshots, and after them the recordings.
pub open spec fn all_items(entries: Seq<HistoryEntry>, recordings: Seq<RecordingFile>) -> Seq<
    HistoryItem,
> {
    entries.map_values(|e: HistoryEntry| HistoryItem::Screenshot(e)) + recordings.map_values(
        |f: RecordingFile| HistoryItem::Recording(f),
    )
}

proof fn lemma_age_bounds(list: Seq<HistoryItem>, unix: i64, n: int)
    requires
        0 <= n <= list.len(),
    ensures
        0 <= age_index(list, unix, n) <= n,
    decreases n,
{
    if n > 0 && list[n - 1].spec_unix() < unix {
        lemma_age_bounds(list, unix, n - 1);
    }
}

fn insert_by_age(list: &mut Vec<HistoryItem>, item: HistoryItem)
    ensures
        final(list)@ == with_item(old(list)@, item),
{
    let unix: i64 = item.unix();
    let ghost start = list@;
    let n: usize = list.len();
    let mut i: usize = n;
    while i > 0
        invariant
            i <= n,
            n == list@.len(),
            list@ == start,
            start == old(list)@,
            unix == item.spec_unix(),
            age_index(start, unix, n as int) == age_index(start, unix, i as int),
        decreases i,
    {
        if list[i - 1].unix() >= unix {
            list.insert(i, item);
            return ;
        }
        i = i - 1;
    }
    list.insert(0, item);
}

/// Merges screenshots and recordings into one list, newest first.
pub fn merge_items(entries: Vec<HistoryEntry>, recordings: Vec<RecordingFile>) -> (r: Vec<
    HistoryItem,
>)
    ensures
        r@ == newest_first(all_items(entries@, recordings@)),
{
    let ghost all = all_items(entries@, recordings@);
    let ghost first = entries@;
    let ghost second = recordings@;
    let mut out: Vec<HistoryItem> = Vec::new();
    let mut rest = entries;
    let n: usize = rest.len();
    let mut i: usize = 0;
    assert(all.take(0) =~= Seq::<HistoryItem>::empty());
    while i < n
        invariant
            n == first.len(),
            i <= n,
            all == all_items(first, second),
            rest@ == first.skip(i as int),
            out@ == newest_first(all.take(i as int)),
        decreases n - i,
    {
        let entry = rest.remove(0);
        proof {
            assert(all[i as int] == HistoryItem::Screenshot(entry));
            assert(all.take(i + 1).drop_last() =~= all.take(i as int));
            assert(all.take(i + 1).last() == all[i as int]);
            assert(first.skip(i as int).remove(0) =~= first.skip(i + 1));
        }
        insert_by_age(&mut out, HistoryItem::Screenshot(entry));
        i = i + 1;
    }
    let mut files = recordings;
    let m: usize = files.len();
    let mut j: usize = 0;
    while j < m
        invariant
            n == first.len(),
            m == second.len(),
            j <= m,
            all == all_items(first, second),
            files@ == second.skip(j as int),
            out@ == newest_first(all.take(n + j)),
        decreases m - j,
    {
        let file = files.remove(0);
        proof {
            assert(all[n + j] == HistoryItem::Recording(file));
            assert(all.take(n + j + 1).drop_last() =~= all.take(n + j));
            assert(all.take(n + j + 1).last() == all[n + j]);
            assert(second.skip(j as int).remove(0) =~= second.skip(j + 1));
        }
        insert_by_age(&mut out, HistoryItem::Recording(file));
        j = j + 1;
    }
    assert(all.take(n + m) =~= all);
    out
}

/// Whether a list runs from the newest to the oldest.
pub open spec fn descending(list: Seq<HistoryItem>) -> bool {
    forall|i: int, j: int|
        0 <= i < j < list.len() ==> (#[trigger] list[i]).spec_unix() >= (
        #[trigger] list[j]).spec_unix()
}

proof fn lemma_insert_keeps_order(list: Seq<HistoryItem>, item: HistoryItem)
    requires
        descending(list),
    ensures
        descending(with_item(list, item)),
{
    let n = list.len() as int;
    let k = age_index(list, item.spec_unix(), n);
    lemma_age_bounds(list, item.spec_unix(), n);
    lemma_age_split(list, item.spec_unix(), n);
    let out = with_item(list, item);
    assert forall|i: int, j: int| 0 <= i < j < out.len() implies (
    #[trigger] out[i]).spec_unix() >= (#[trigger] out[j]).spec_unix() by {
        let a = if i < k {
            i
        } else {
            i - 1
        };
        let b = if j < k {
            j
        } else {
            j - 1
        };
        if i == k {
            assert(out[j] == list[b]);
        } else if j == k {
            assert(out[i] == list[a]);
            if k > 0 {
                assert(a == k - 1 || list[a].spec_unix() >= list[k - 1].spec_unix());
            }
        } else {
            assert(out[i] == list[a]);
            assert(out[j] == list[b]);
        }
    }
}

proof fn lemma_age_split(list: Seq<HistoryItem>, unix: i64, n: int)
    requires
        0 <= n <= list.len(),
    ensures
        ({
            let k = age_index(list, unix, n);
            &&& 0 <= k <= n
            &&& k > 0 ==> list[k - 1].spec_unix() >= unix
            &&& forall|i: int| k <= i < n ==> (#[trigger] list[i]).spec_unix() < unix
        }),
    decreases n,
{
    if n > 0 && list[n - 1].spec_unix() < unix {
        lemma_age_split(list, unix, n - 1);
    }
}

/// The library is sorted: no item comes before a newer one.
pub proof fn law_library_is_newest_first(items: Seq<HistoryItem>)
    ensures
        descending(newest_first(items)),
    decreases items.len(),
{
    if items.len() > 0 {
        law_library_is_newest_first(items.drop_last());
        lemma_insert_keeps_order(newest_first(items.drop_last()), items.last());
    }
}

/// Sorting loses no item and adds none.
pub proof fn law_library_holds_every_item(items: Seq<HistoryItem>)
    ensures
        newest_first(items).to_multiset() == items.to_multiset(),
        newest_first(items).len() == items.len(),
    decreases items.len(),
{
    broadcast use vstd::seq_lib::group_to_multiset_ensures;

    if items.len() > 0 {
        let front = items.drop_last();
        law_library_holds_every_item(front);
        let list = newest_first(front);
        let n = list.len() as int;
        let k = age_index(list, items.last().spec_unix(), n);
        lemma_age_bounds(list, items.last().spec_unix(), n);
        assert(items =~= front.push(items.last()));
        lemma_insert_multiset(list, k, items.last());
    } else {
        assert(newest_first(items) =~= items);
    }
}

proof fn lemma_insert_multiset(list: Seq<HistoryItem>, k: int, item: HistoryItem)
    requires
        0 <= k <= list.len(),
    ensures
        list.insert(k, item).to_multiset() == list.to_multiset().insert(item),
{
    broadcast use vstd::seq_lib::group_to_multiset_ensures;

    let a = list.take(k);
    let b = list.skip(k);
    assert(list.insert(k, item) =~= a.push(item) + b);
    assert(list =~= a + b);
    vstd::seq_lib::lemma_multiset_commutative(a, b);
    vstd::seq_lib::lemma_multiset_commutative(a.push(item), b);
    assert(list.insert(k, item).to_multiset() =~= list.to_multiset().insert(item));
}

/// Of two equally old items, the one that came first stays first.
pub proof fn law_equally_old_items_keep_their_order(
    items: Seq<HistoryItem>,
    later: HistoryItem,
    i: int,
)
    requires
        0 <= i < newest_first(items).len(),
        newest_first(items)[i].spec_unix() == later.spec_unix(),
    ensures
        newest_first(items.push(later))[i] == newest_first(items)[i],
        exists|j: int|
            i < j < newest_first(items.push(later)).len() && #[trigger] newest_first(
                items.push(later),
            )[j] == later,
{
    let more = items.push(later);
    assert(more.drop_last() =~= items);
    let list = newest_first(items);
    let n = list.len() as int;
    lemma_age_split(list, later.spec_unix(), n);
    let k = age_index(list, later.spec_unix(), n);
    assert(i < k);
    assert(newest_first(more) == list.insert(k, later));
    assert(newest_first(more)[k] == later);
}

/// A screenshot of the index, and whether its file is still there.
#[derive(Debug)]
pub struct IndexedFile {
    pub entry: HistoryEntry,
    pub exists: bool,
}

/// The screenshots whose files are still there, in their order.
pub open spec fn present(index: Seq<IndexedFile>) -> Seq<HistoryEntry>
    decreases index.len(),
{
    if index.len() == 0 {
        Seq::empty()
    } else if index.last().exists {
        present(index.drop_last()).push(index.last().entry)
    } else {
        present(index.drop_last())
    }
}

fn keep_present(index: Vec<IndexedFile>) -> (r: Vec<HistoryEntry>)
    ensures
        r@ == present(index@),
{
    let ghost all = index@;
    let mut rest = index;
    let n: usize = rest.len();
    let mut kept: Vec<HistoryEntry> = Vec::new();
    let mut i: usize = 0;
    assert(all.take(0) =~= Seq::<IndexedFile>::empty());
    while i < n
        invariant
            n == all.len(),
            i <= n,
            rest@ == all.skip(i as int),
            kept@ == present(all.take(i as int)),
        decreases n - i,
    {
        let file = rest.remove(0);
        proof {
            assert(file == all[i as int]);
            assert(all.take(i + 1).drop_last() =~= all.take(i as int));
            assert(all.take(i + 1).last() == file);
            assert(all.skip(i as int).remove(0) =~= all.skip(i + 1));
        }
        if file.exists {
            kept.push(file.entry);
        }
        i = i + 1;
    }
    assert(all.take(n as int) =~= all);
    kept
}

/// The library: the screenshots of the index whose files are still there, and
/// the recordings in the folder, newest first.
pub fn load_library(index: Vec<IndexedFile>, folder: Vec<DirFile>) -> (r: Vec<HistoryItem>)
    ensures
        r@ == newest_first(all_items(present(index@), recordings_in(folder@))),
{
    let entries = keep_present(index);
    let recordings = scan_recordings(folder);
    merge_items(entries, recordings)
}

/// What goes to the clipboard: bytes that are a PNG already, or a frame to be
/// encoded as one.
pub enum ClipboardImage {
    Ready(Vec<u8>),
    Encode(Frame),
}

/// What goes to the clipboard, apart from how it is held.
pub enum ClipboardContent {
    Ready(Seq<u8>),
    Encode(Picture),
}

/// A result with a clipboard image, apart from how it is held.
pub open spec fn clipboard_result(r: Result<ClipboardImage, String>) -> Result<
    ClipboardContent,
    Seq<char>,
> {
    match r {
        Ok(ClipboardImage::Ready(bytes)) => Ok(ClipboardContent::Ready(bytes@)),
        Ok(ClipboardImage::Encode(frame)) => Ok(ClipboardContent::Encode(frame@)),
        Err(why) => Err(why@),
    }
}

/// What is reported of a decoded image whose buffer does not match it.
pub open spec fn copy_mismatch() -> Seq<char> {
    "the decoded image's dimensions didn't match its own pixel buffer"@
}

/// What a decoder's result puts on the clipboard.
pub open spec fn to_encode(d: Decoding, scale: u32) -> Result<ClipboardContent, Seq<char>> {
    match framed(d, scale, copy_mismatch()) {
        Ok(picture) => Ok(ClipboardContent::Encode(picture)),
        Err(why) => Err(why),
    }
}

/// What goes to the clipboard for a decoder's result.
pub fn clipboard_from_decoded(decoded: Result<Decoded, String>, scale: u32) -> (r: Result<
    ClipboardImage,
    String,
>)
    ensures
        clipboard_result(r) == to_encode(decoding(decoded), scale),
{
    match frame_of(
        decoded,
        scale,
        "the decoded image's dimensions didn't match its own pixel buffer",
    ) {
        Ok(frame) => Ok(ClipboardImage::Encode(frame)),
        Err(why) => Err(why),
    }
}

/// What goes to the clipboard for a screenshot whose file holds `bytes`.
pub open spec fn clipboard_of(entry: HistoryEntry, bytes: Seq<u8>) -> Result<
    ClipboardContent,
    Seq<char>,
> {
    if entry.format@ == "png"@ {
        Ok(ClipboardContent::Ready(bytes))
    } else {
        to_encode(guessed_image(bytes), entry.scale)
    }
}

/// What goes to the clipboard for a screenshot whose file holds `bytes`: a PNG
/// as it is, anything else decoded to be encoded as one.
pub fn copy_screenshot(entry: &HistoryEntry, bytes: Vec<u8>) -> (r: Result<ClipboardImage, String>)
    ensures
        clipboard_result(r) == clipboard_of(*entry, bytes@),
{
    if same_text(entry.format.as_str(), "png") {
        return Ok(ClipboardImage::Ready(bytes));
    }
    clipboard_from_decoded(decode_guessed(&bytes), entry.scale)
}

/// What a row's tile shows of a decoder's result: the image, small enough for
/// it, or nothing.
pub open spec fn tile_of(d: Decoding, scale: u32) -> Option<Picture> {
    match framed(d, scale, copy_mismatch()) {
        Ok(picture) => Some(crate::imaging::thumbnail_of(picture, THUMBNAIL_MAX_DIM)),
        Err(_) => None,
    }
}

/// The longer side of a row's tile, in pixels.
pub const THUMBNAIL_MAX_DIM: u32 = 96;

/// The tile for a decoder's result.
pub fn tile_from_decoded(decoded: Result<Decoded, String>, scale: u32) -> (r: Option<Frame>)
    ensures
        match (r, tile_of(decoding(decoded), scale)) {
            (Some(frame), Some(picture)) => frame@ == picture,
            (None, None) => true,
            _ => false,
        },
{
    match frame_of(
        decoded,
        scale,
        "the decoded image's dimensions didn't match its own pixel buffer",
    ) {
        Ok(frame) => Some(crate::imaging::thumbnail_handle(&frame, THUMBNAIL_MAX_DIM)),
        Err(_) => None,
    }
}

/// The tile for a row whose file holds `bytes`.
pub open spec fn row_tile(item: HistoryItem, bytes: Seq<u8>) -> Option<Picture> {
    match item {
        HistoryItem::Screenshot(entry) => tile_of(guessed_image(bytes), entry.scale),
        HistoryItem::Recording(_) => None,
    }
}

/// The tile for a row whose file holds `bytes`. A recording has none.
pub fn build_thumbnail(item: &HistoryItem, bytes: &Vec<u8>) -> (r: Option<Frame>)
    ensures
        match (r, row_tile(*item, bytes@)) {
            (Some(frame), Some(picture)) => frame@ == picture,
            (None, None) => true,
            _ => false,
        },
{
    match item {
        HistoryItem::Screenshot(entry) => tile_from_decoded(decode_guessed(bytes), entry.scale),
        HistoryItem::Recording(_) => None,
    }
}

/// `n / d` to the nearest whole number, a tie going to the even one.
pub open spec fn round_half_even(n: int, d: int) -> int {
    let q = n / d;
    let r = n % d;
    if 2 * r > d || (2 * r == d && q % 2 == 1) {
        q + 1
    } else {
        q
    }
}

/// The gap between the numbers that 53 bits of precision leave around `n`.
pub open spec fn precision_step(n: int) -> int
    decreases n,
{
    if n < 0x20_0000_0000_0000 {
        1
    } else {
        2 * precision_step(n / 2)
    }
}

/// `n` to 53 bits of precision.
pub open spec fn to_precision(n: int) -> int {
    round_half_even(n, precision_step(n)) * precision_step(n)
}

/// Which unit a size is given in: bytes, kilobytes and so on, up to terabytes.
pub open spec fn size_unit(bytes: int) -> int {
    if bytes < 0x400 {
        0
    } else if bytes < 0x10_0000 {
        1
    } else if bytes < 0x4000_0000 {
        2
    } else if bytes < 0x100_0000_0000 {
        3
    } else {
        4
    }
}

/// How many bytes one of a unit is.
pub open spec fn unit_bytes(unit: int) -> int {
    if unit <= 0 {
        1
    } else if unit == 1 {
        0x400
    } else if unit == 2 {
        0x10_0000
    } else if unit == 3 {
        0x4000_0000
    } else {
        0x100_0000_0000
    }
}

pub open spec fn unit_name(unit: int) -> Seq<char> {
    if unit <= 0 {
        " B"@
    } else if unit == 1 {
        " KB"@
    } else if unit == 2 {
        " MB"@
    } else if unit == 3 {
        " GB"@
    } else {
        " TB"@
    }
}

/// A size as text: whole bytes under a kilobyte, else one decimal of the
/// largest unit that fits.
pub open spec fn size_label(bytes: u64) -> Seq<char> {
    let unit = size_unit(bytes as int);
    if unit == 0 {
        decimal_text(bytes as nat) + " B"@
    } else {
        let tenths = round_half_even(10 * to_precision(bytes as int), unit_bytes(unit));
        decimal_text((tenths / 10) as nat) + "."@ + decimal_text((tenths % 10) as nat) + unit_name(
            unit,
        )
    }
}

proof fn lemma_step_bounds(n: int)
    requires
        0 <= n < 0x1_0000_0000_0000_0000,
    ensures
        1 <= precision_step(n) <= 0x800,
        precision_step(n) > 1 ==> precision_step(n) * 0x10_0000_0000_0000 <= n,
{
    reveal_with_fuel(precision_step, 13);
}

fn step_of(n: u64) -> (r: u64)
    ensures
        r == precision_step(n as int),
        1 <= r <= 0x800,
    decreases n,
{
    proof {
        lemma_step_bounds(n as int);
    }
    if n < 0x20_0000_0000_0000 {
        1
    } else {
        2 * step_of(n / 2)
    }
}

fn half_even(n: u128, d: u128) -> (r: u128)
    requires
        0 < d <= 0x100_0000_0000,
        n <= 0x100_0000_0000_0000_0000,
    ensures
        r == round_half_even(n as int, d as int),
        r <= n + 1,
{
    let q: u128 = n / d;
    let rem: u128 = n % d;
    assert(q <= n) by (nonlinear_arith)
        requires
            q == n / d,
            d > 0,
            n >= 0,
    ;
    assert(rem < d) by (nonlinear_arith)
        requires
            rem == n % d,
            d > 0,
    ;
    if 2 * rem > d || (2 * rem == d && q % 2 == 1) {
        q + 1
    } else {
        q
    }
}

/// A size as text, as in `1.5 KB`.
pub fn format_bytes(bytes: u64) -> (r: String)
    ensures
        r@ == size_label(bytes),
{
    let (unit, one): (&str, u128) = if bytes < 0x400 {
        (" B", 1)
    } else if bytes < 0x10_0000 {
        (" KB", 0x400)
    } else if bytes < 0x4000_0000 {
        (" MB", 0x10_0000)
    } else if bytes < 0x100_0000_0000 {
        (" GB", 0x4000_0000)
    } else {
        (" TB", 0x100_0000_0000)
    };
    if bytes < 0x400 {
        let mut out: String = decimal(bytes);
        out.append(unit);
        return out;
    }
    let step: u64 = step_of(bytes);
    let q: u128 = half_even(bytes as u128, step as u128);
    proof {
        lemma_quotient_bound(bytes as int, step as int);
        assert(q * step <= 0x2_0000_0000_0000_0000) by (nonlinear_arith)
            requires
                q <= bytes as int / step as int + 1,
                (bytes as int / step as int) * step as int <= bytes,
                0 < step <= 0x800,
                bytes <= 0xffff_ffff_ffff_ffff,
        ;
        assert(q * step >= 0) by (nonlinear_arith)
            requires
                q >= 0,
                step >= 0,
        ;
    }
    let value: u128 = q * step as u128;
    let tenths: u128 = half_even(10 * value, one);
    proof {
        lemma_quotient_bound((10 * value) as int, one as int);
        assert((10 * value) as int / one as int <= 0x500_0000_0000_0000)
            by (nonlinear_arith)
            requires
                0 <= 10 * value <= 0x14_0000_0000_0000_0000,
                one >= 0x400,
        ;
    }
    let mut out: String = decimal((tenths / 10) as u64);
    out.append(".");
    out.append(decimal((tenths % 10) as u64).as_str());
    out.append(unit);
    out
}

proof fn lemma_quotient_bound(n: int, d: int)
    requires
        n >= 0,
        d > 0,
    ensures
        0 <= n / d,
        (n / d) * d <= n,
{
    vstd::arithmetic::div_mod::lemma_fundamental_div_mod(n, d);
    assert(n % d >= 0) by (nonlinear_arith)
        requires
            d > 0,
    ;
    assert((n / d) * d == d * (n / d)) by (nonlinear_arith);
    assert(n / d >= 0) by (nonlinear_arith)
        requires
            n >= 0,
            d > 0,
    ;
}

} // verus!
