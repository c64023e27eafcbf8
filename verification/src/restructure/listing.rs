//! Directory listings and what is picked from them: the directories a scan
//! descends into, the media files it keeps, and the subtitles of a video.

use vstd::prelude::*;
use crate::order::{sorted_texts, sort_strings};
use crate::paths::{extension, file_name, stem, is_hidden, name_start_of, ext_start_of};
use crate::text::{chars_of, same_text, begins_with, slice_of};
use crate::words::rows;
use crate::restructure::operations::texts;

verus! {

/// What a directory entry is, links followed.
#[derive(Clone, Copy, Debug, PartialEq, Eq, Structural)]
pub enum EntryKind {
    File,
    Directory,
    Other,
}

/// One entry of a directory listing, by its full path.
#[derive(Debug)]
pub struct DirEntry {
    pub path: String,
    pub kind: EntryKind,
}

/// A directory entry with its path as a character sequence.
pub struct DirEntryView {
    pub path: Seq<char>,
    pub kind: EntryKind,
}

impl View for DirEntry {
    type V = DirEntryView;

    open spec fn view(&self) -> DirEntryView {
        DirEntryView { path: self.path@, kind: self.kind }
    }
}

/// The views of a listing.
pub open spec fn entry_views(listing: Seq<DirEntry>) -> Seq<DirEntryView> {
    listing.map_values(|e: DirEntry| e@)
}

/// The extensions of video files.
pub open spec fn video_extensions() -> Seq<Seq<char>> {
    seq![".mkv"@, ".mp4"@, ".avi"@, ".mov"@, ".wmv"@, ".flv"@, ".webm"@, ".m4v"@]
}

/// The extensions of subtitle files.
pub open spec fn subtitle_extensions() -> Seq<Seq<char>> {
    seq![".srt"@, ".sub"@, ".ass"@, ".ssa"@, ".vtt"@]
}

/// The extensions of video files.
pub fn video_extension_list() -> (out: Vec<Vec<char>>)
    ensures
        rows(out@) == video_extensions(),
{
    let mut out: Vec<Vec<char>> = Vec::new();
    out.push(chars_of(".mkv"));
    out.push(chars_of(".mp4"));
    out.push(chars_of(".avi"));
    out.push(chars_of(".mov"));
    out.push(chars_of(".wmv"));
    out.push(chars_of(".flv"));
    out.push(chars_of(".webm"));
    out.push(chars_of(".m4v"));
    assert(rows(out@) =~= video_extensions());
    out
}

/// The extensions of subtitle files.
pub fn subtitle_extension_list() -> (out: Vec<Vec<char>>)
    ensures
        rows(out@) == subtitle_extensions(),
{
    let mut out: Vec<Vec<char>> = Vec::new();
    out.push(chars_of(".srt"));
    out.push(chars_of(".sub"));
    out.push(chars_of(".ass"));
    out.push(chars_of(".ssa"));
    out.push(chars_of(".vtt"));
    assert(rows(out@) =~= subtitle_extensions());
    out
}

/// Whether the extension of `path`, case and leading dot included, is one of `extensions`.
pub open spec fn has_extension_in(path: Seq<char>, extensions: Seq<Seq<char>>) -> bool {
    extensions.contains(extension(path))
}

/// A directory that a scan descends into: one that is not hidden.
pub open spec fn is_scanned_directory(entry: DirEntryView) -> bool {
    entry.kind == EntryKind::Directory && !is_hidden(entry.path)
}

/// A file that a scan keeps: one that is not hidden and has one of `extensions`.
pub open spec fn is_scanned_file(entry: DirEntryView, extensions: Seq<Seq<char>>) -> bool {
    entry.kind == EntryKind::File && !is_hidden(entry.path) && has_extension_in(
        entry.path,
        extensions,
    )
}

/// A subtitle of the video at `video`: a file with a subtitle extension whose
/// name begins with the video's stem.
pub open spec fn is_subtitle_of(entry: DirEntryView, video: Seq<char>) -> bool {
    entry.kind == EntryKind::File && file_name(video).len() > 0 && has_extension_in(
        entry.path,
        subtitle_extensions(),
    ) && stem(video).is_prefix_of(file_name(entry.path))
}

/// The paths of those among the first `n` entries that `wanted` accepts, in listing order.
pub open spec fn picked(
    listing: Seq<DirEntryView>,
    wanted: spec_fn(DirEntryView) -> bool,
    n: int,
) -> Seq<Seq<char>>
    decreases n,
{
    if n <= 0 {
        Seq::empty()
    } else if wanted(listing[n - 1]) {
        picked(listing, wanted, n - 1).push(listing[n - 1].path)
    } else {
        picked(listing, wanted, n - 1)
    }
}

/// The directories of a listing that a scan descends into.
pub open spec fn scanned_directories(listing: Seq<DirEntryView>) -> Seq<Seq<char>> {
    picked(listing, |e: DirEntryView| is_scanned_directory(e), listing.len() as int)
}

/// The files of a listing that a scan keeps.
pub open spec fn scanned_files(listing: Seq<DirEntryView>, extensions: Seq<Seq<char>>) -> Seq<
    Seq<char>,
> {
    picked(listing, |e: DirEntryView| is_scanned_file(e, extensions), listing.len() as int)
}

/// The subtitles of the video at `video` among the entries of its directory,
/// in ascending order.
pub open spec fn matching_subtitles(video: Seq<char>, listing: Seq<DirEntryView>) -> Seq<
    Seq<char>,
> {
    sorted_texts(picked(listing, |e: DirEntryView| is_subtitle_of(e, video), listing.len() as int))
}

/// Whether `path` has one of `extensions`.
pub fn extension_among(path: &Vec<char>, extensions: &Vec<Vec<char>>) -> (r: bool)
    ensures
        r == has_extension_in(path@, rows(extensions@)),
{
    let e = ext_start_of(path);
    let ext = slice_of(path, e, path.len());
    let mut i: usize = 0;
    while i < extensions.len()
        invariant
            i <= extensions.len(),
            ext@ == extension(path@),
            forall|j: int| 0 <= j < i ==> rows(extensions@)[j] != ext@,
        decreases extensions.len() - i,
    {
        if same_text(&extensions[i], &ext) {
            assert(rows(extensions@)[i as int] == ext@);
            return true;
        }
        i += 1;
    }
    false
}

fn hidden(path: &Vec<char>) -> (r: bool)
    ensures
        r == is_hidden(path@),
{
    let n = name_start_of(path);
    n < path.len() && path[n] == '.'
}

/// The directories of a listing that a scan descends into.
pub fn directories_to_scan(listing: &Vec<DirEntry>) -> (out: Vec<String>)
    ensures
        texts(out@) == scanned_directories(entry_views(listing@)),
{
    let ghost wanted = |e: DirEntryView| is_scanned_directory(e);
    let ghost views = entry_views(listing@);
    let mut out: Vec<String> = Vec::new();
    let mut i: usize = 0;
    assert(texts(out@) =~= picked(views, wanted, 0));
    while i < listing.len()
        invariant
            i <= listing.len(),
            views == entry_views(listing@),
            wanted == (|e: DirEntryView| is_scanned_directory(e)),
            texts(out@) == picked(views, wanted, i as int),
        decreases listing.len() - i,
    {
        let entry = &listing[i];
        assert(views[i as int] == entry@);
        let keep = match entry.kind {
            EntryKind::Directory => !hidden(&chars_of(entry.path.as_str())),
            _ => false,
        };
        if keep {
            let ghost before = texts(out@);
            out.push(entry.path.clone());
            assert(texts(out@) =~= before.push(entry.path@));
        }
        i += 1;
    }
    out
}

/// The files of a listing that a scan for `extensions` keeps.
pub fn files_to_keep(listing: &Vec<DirEntry>, extensions: &Vec<Vec<char>>) -> (out: Vec<String>)
    ensures
        texts(out@) == scanned_files(entry_views(listing@), rows(extensions@)),
{
    let ghost wanted = |e: DirEntryView| is_scanned_file(e, rows(extensions@));
    let ghost views = entry_views(listing@);
    let mut out: Vec<String> = Vec::new();
    let mut i: usize = 0;
    assert(texts(out@) =~= picked(views, wanted, 0));
    while i < listing.len()
        invariant
            i <= listing.len(),
            views == entry_views(listing@),
            wanted == (|e: DirEntryView| is_scanned_file(e, rows(extensions@))),
            texts(out@) == picked(views, wanted, i as int),
        decreases listing.len() - i,
    {
        let entry = &listing[i];
        assert(views[i as int] == entry@);
        let keep = match entry.kind {
            EntryKind::File => {
                let path = chars_of(entry.path.as_str());
                !hidden(&path) && extension_among(&path, extensions)
            },
            _ => false,
        };
        if keep {
            let ghost before = texts(out@);
            out.push(entry.path.clone());
            assert(texts(out@) =~= before.push(entry.path@));
        }
        i += 1;
    }
    out
}

/// The subtitle files that go with a video, given the listing of the
/// video's directory: in ascending order of their paths.
pub fn find_matching_subtitles(video_path: &str, listing: &Vec<DirEntry>) -> (out: Vec<String>)
    ensures
        texts(out@) == matching_subtitles(video_path@, entry_views(listing@)),
{
    let ghost wanted = |e: DirEntryView| is_subtitle_of(e, video_path@);
    let ghost views = entry_views(listing@);
    let video = chars_of(video_path);
    let n = name_start_of(&video);
    let e = ext_start_of(&video);
    let video_stem = slice_of(&video, n, e);
    let named = n < video.len();
    assert(named == (file_name(video_path@).len() > 0));
    let extensions = subtitle_extension_list();
    let mut found: Vec<String> = Vec::new();
    let mut i: usize = 0;
    assert(texts(found@) =~= picked(views, wanted, 0));
    while i < listing.len()
        invariant
            i <= listing.len(),
            views == entry_views(listing@),
            wanted == (|e: DirEntryView| is_subtitle_of(e, video_path@)),
            video_stem@ == stem(video_path@),
            named == (file_name(video_path@).len() > 0),
            rows(extensions@) == subtitle_extensions(),
            texts(found@) == picked(views, wanted, i as int),
        decreases listing.len() - i,
    {
        let entry = &listing[i];
        assert(views[i as int] == entry@);
        let keep = match entry.kind {
            EntryKind::File => {
                let path = chars_of(entry.path.as_str());
                let start = name_start_of(&path);
                let name = slice_of(&path, start, path.len());
                named && extension_among(&path, &extensions) && begins_with(&name, &video_stem)
            },
            _ => false,
        };
        if keep {
            let ghost before = texts(found@);
            found.push(entry.path.clone());
            assert(texts(found@) =~= before.push(entry.path@));
        }
        i += 1;
    }
    sort_strings(found)
}

/// What is picked from a listing is the path of an entry that is wanted.
pub proof fn lemma_picked_members(
    listing: Seq<DirEntryView>,
    wanted: spec_fn(DirEntryView) -> bool,
    n: int,
    path: Seq<char>,
)
    requires
        n <= listing.len(),
        picked(listing, wanted, n).contains(path),
    ensures
        exists|k: int| 0 <= k < n && wanted(#[trigger] listing[k]) && listing[k].path == path,
    decreases n,
{
    if n > 0 {
        let before = picked(listing, wanted, n - 1);
        let now = picked(listing, wanted, n);
        let j = choose|j: int| 0 <= j < now.len() && now[j] == path;
        if wanted(listing[n - 1]) && j == now.len() - 1 {
        } else {
            assert(before[j] == path);
            lemma_picked_members(listing, wanted, n - 1, path);
        }
    }
}

/// Every entry that is wanted has its path picked.
pub proof fn lemma_wanted_are_picked(
    listing: Seq<DirEntryView>,
    wanted: spec_fn(DirEntryView) -> bool,
    n: int,
    k: int,
)
    requires
        0 <= k < n <= listing.len(),
        wanted(listing[k]),
    ensures
        picked(listing, wanted, n).contains(listing[k].path),
    decreases n,
{
    let now = picked(listing, wanted, n);
    if k == n - 1 {
        assert(now[now.len() - 1] == listing[k].path);
    } else {
        lemma_wanted_are_picked(listing, wanted, n - 1, k);
        let before = picked(listing, wanted, n - 1);
        let j = choose|j: int| 0 <= j < before.len() && before[j] == listing[k].path;
        assert(now[j] == listing[k].path);
    }
}

} // verus!
