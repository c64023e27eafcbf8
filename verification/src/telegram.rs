//! What the chat's side of the pipeline decides without talking to it: how a
//! message is read, and how lists are shown and remembered.

use vstd::prelude::*;
use crate::paths::{file_name, name_start_of};
use crate::text::{chars_of, string_of, same_text, begins_with, slice_of, push_all, push_str, push_decimal, push_signed, decimal, signed_decimal};
use crate::transmission::{Download, DownloadView, Media, download_views, get_media_type_from_path, media_type_of};
use crate::words::{lowered, lower_of, rows, fields, fields_of, signed_value, parse_signed, numeral_value, parse_numeral};
use crate::restructure::operations::{texts, copy_texts};

verus! {

/// How many lists are remembered for replies.
pub const REMEMBERED: usize = 100;

/// The list after `item` was remembered: `item` is its newest entry, and the
/// oldest entry has gone where that made more than 100.
pub open spec fn remembered<T>(list: Seq<T>, item: T) -> Seq<T> {
    if list.len() + 1 > REMEMBERED {
        list.push(item).drop_first()
    } else {
        list.push(item)
    }
}

/// Remembers `item`, and forgets the oldest entry where that makes more than 100.
pub fn remember<T>(list: &mut Vec<T>, item: T)
    ensures
        final(list)@ == remembered(old(list)@, item),
{
    list.push(item);
    if list.len() > REMEMBERED {
        list.remove(0);
        assert(list@ =~= old(list)@.push(item).drop_first());
    }
}

/// The position in a list of `len` entries that the number `index` names,
/// counted from 1; none where the list has no entry of that number.
pub fn checked_index(index: usize, len: usize) -> (r: Option<usize>)
    ensures
        1 <= index <= len ==> r == Some((index - 1) as usize),
        !(1 <= index <= len) ==> r is None,
{
    if index == 0 || index > len {
        None
    } else {
        Some(index - 1)
    }
}

/// The lines of the first `n` files, numbered from 1, each by its file name.
pub open spec fn file_lines(files: Seq<Seq<char>>, n: int) -> Seq<char>
    decreases n,
{
    if n <= 0 {
        Seq::empty()
    } else {
        file_lines(files, n - 1) + decimal(n as nat) + ". "@ + file_name(files[n - 1]) + seq!['\n']
    }
}

/// The list of files as it is shown.
pub open spec fn file_list(files: Seq<Seq<char>>) -> Seq<char> {
    if file_lines(files, files.len() as int).len() == 0 {
        "No files found"@
    } else {
        "Reply with the number to delete (file):\n\n"@ + file_lines(files, files.len() as int)
    }
}

/// Lists files for deletion: the list as it is shown, and the paths that its
/// numbers stand for.
pub fn format_file_list(files: &Vec<String>, _base_path: &str) -> (r: (String, Vec<String>))
    ensures
        r.0@ == file_list(texts(files@)),
        r.1@ == files@,
{
    let mut lines: Vec<char> = Vec::new();
    let mut i: usize = 0;
    assert(lines@ =~= file_lines(texts(files@), 0));
    while i < files.len()
        invariant
            i <= files.len(),
            lines@ == file_lines(texts(files@), i as int),
        decreases files.len() - i,
    {
        let ghost before = lines@;
        let path = chars_of(files[i].as_str());
        let n = name_start_of(&path);
        push_decimal(&mut lines, (i + 1) as u64);
        push_str(&mut lines, ". ");
        push_all(&mut lines, &slice_of(&path, n, path.len()));
        lines.push('\n');
        assert(texts(files@)[i as int] == path@);
        assert(lines@ =~= file_lines(texts(files@), i + 1));
        i += 1;
    }
    let text = if lines.len() == 0 {
        string_of(&chars_of("No files found"))
    } else {
        let mut out = chars_of("Reply with the number to delete (file):\n\n");
        push_all(&mut out, &lines);
        string_of(&out)
    };
    (text, copy_texts(files))
}

/// Whether a download is listed under `filter`: any is without a filter,
/// with one only those of its kind.
pub open spec fn is_listed(
    d: DownloadView,
    filter: Option<Media>,
    tv_path: Seq<char>,
    movie_path: Seq<char>,
) -> bool {
    filter is None || media_type_of(d.download_dir, tv_path, movie_path) == filter
}

/// Those of the first `n` downloads that are listed, in order.
pub open spec fn listed(
    downloads: Seq<DownloadView>,
    filter: Option<Media>,
    tv_path: Seq<char>,
    movie_path: Seq<char>,
    n: int,
) -> Seq<DownloadView>
    decreases n,
{
    if n <= 0 {
        Seq::empty()
    } else if is_listed(downloads[n - 1], filter, tv_path, movie_path) {
        listed(downloads, filter, tv_path, movie_path, n - 1).push(downloads[n - 1])
    } else {
        listed(downloads, filter, tv_path, movie_path, n - 1)
    }
}

/// The label of a kind of media.
pub open spec fn media_label(media: Option<Media>) -> Seq<char> {
    match media {
        Some(Media::TV) => "📺 TV"@,
        Some(Media::Movie) => "🎬 Movie"@,
        None => "📁 Unknown"@,
    }
}

/// The lines of the first `n` of `kept`, numbered from 1:
/// `{number}. {label} - {name} ({percent}%)`.
pub open spec fn download_lines(
    kept: Seq<DownloadView>,
    tv_path: Seq<char>,
    movie_path: Seq<char>,
    n: int,
) -> Seq<char>
    decreases n,
{
    if n <= 0 {
        Seq::empty()
    } else {
        download_lines(kept, tv_path, movie_path, n - 1) + decimal(n as nat) + ". "@ + media_label(
            media_type_of(kept[n - 1].download_dir, tv_path, movie_path),
        ) + " - "@ + kept[n - 1].name + " ("@ + signed_decimal(kept[n - 1].percent as int) + "%)\n"@
    }
}

/// The list of downloads as it is shown.
pub open spec fn download_list(kept: Seq<DownloadView>, tv_path: Seq<char>, movie_path: Seq<char>) -> Seq<
    char,
> {
    if kept.len() == 0 {
        "No downloads found"@
    } else {
        "Reply with the number to delete (torrent):\n\n"@ + download_lines(
            kept,
            tv_path,
            movie_path,
            kept.len() as int,
        )
    }
}

/// Lists downloads for deletion, all of them or those of one kind: the list
/// as it is shown, and the ids that its numbers stand for.
pub fn format_torrent_list(
    downloads: &Vec<Download>,
    filter: Option<Media>,
    tv_path: &str,
    movie_path: &str,
) -> (r: (String, Vec<i64>))
    ensures
        r.0@ == download_list(
            listed(
                download_views(downloads@),
                filter,
                tv_path@,
                movie_path@,
                downloads@.len() as int,
            ),
            tv_path@,
            movie_path@,
        ),
        r.1@ == listed(
            download_views(downloads@),
            filter,
            tv_path@,
            movie_path@,
            downloads@.len() as int,
        ).map_values(|d: DownloadView| d.id),
{
    let ghost views = download_views(downloads@);
    let ghost pick = |d: DownloadView| d.id;
    let mut lines: Vec<char> = Vec::new();
    let mut ids: Vec<i64> = Vec::new();
    let mut i: usize = 0;
    let ghost mut kept: Seq<DownloadView> = Seq::empty();
    assert(kept =~= listed(views, filter, tv_path@, movie_path@, 0));
    assert(ids@ =~= kept.map_values(pick));
    assert(lines@ =~= download_lines(kept, tv_path@, movie_path@, 0));
    while i < downloads.len()
        invariant
            i <= downloads.len(),
            views == download_views(downloads@),
            pick == (|d: DownloadView| d.id),
            kept == listed(views, filter, tv_path@, movie_path@, i as int),
            kept.len() <= i,
            ids@ == kept.map_values(pick),
            lines@ == download_lines(kept, tv_path@, movie_path@, kept.len() as int),
        decreases downloads.len() - i,
    {
        let d = &downloads[i];
        assert(views[i as int] == d@);
        let media = get_media_type_from_path(d.download_dir.as_str(), tv_path, movie_path);
        let show = match filter {
            None => true,
            Some(wanted) => match media {
                Some(found) => found == wanted,
                None => false,
            },
        };
        if show {
            let ghost before = lines@;
            let ghost kept_before = kept;
            push_decimal(&mut lines, (ids.len() + 1) as u64);
            push_str(&mut lines, ". ");
            match media {
                Some(Media::TV) => {
                    push_str(&mut lines, "📺 TV");
                },
                Some(Media::Movie) => {
                    push_str(&mut lines, "🎬 Movie");
                },
                None => {
                    push_str(&mut lines, "📁 Unknown");
                },
            }
            push_str(&mut lines, " - ");
            push_str(&mut lines, d.name.as_str());
            push_str(&mut lines, " (");
            push_signed(&mut lines, d.percent);
            push_str(&mut lines, "%)\n");
            ids.push(d.id);
            proof {
                kept = kept.push(d@);
                assert(ids@ =~= kept.map_values(pick));
                lemma_download_lines_prefix(kept_before, d@, tv_path@, movie_path@, kept_before.len() as int);
                assert(lines@ =~= download_lines(kept, tv_path@, movie_path@, kept.len() as int));
            }
        }
        i += 1;
    }
    let text = if ids.len() == 0 {
        string_of(&chars_of("No downloads found"))
    } else {
        let mut out = chars_of("Reply with the number to delete (torrent):\n\n");
        push_all(&mut out, &lines);
        string_of(&out)
    };
    (text, ids)
}

proof fn lemma_download_lines_prefix(
    kept: Seq<DownloadView>,
    d: DownloadView,
    tv_path: Seq<char>,
    movie_path: Seq<char>,
    n: int,
)
    requires
        n <= kept.len(),
    ensures
        download_lines(kept.push(d), tv_path, movie_path, n) == download_lines(
            kept,
            tv_path,
            movie_path,
            n,
        ),
    decreases n,
{
    if n > 0 {
        lemma_download_lines_prefix(kept, d, tv_path, movie_path, n - 1);
    }
}

/// The chat ids that a setting names: the numbers between its commas. None
/// where a field is no number.
pub open spec fn chat_ids(value: Seq<char>) -> Option<Seq<i64>> {
    let parts = fields(value, ',');
    if forall|i: int| 0 <= i < parts.len() ==> signed_value(#[trigger] parts[i]) is Some {
        Some(parts.map_values(|part: Seq<char>| signed_value(part)->0))
    } else {
        None
    }
}

/// Reads the chat ids of the groups that may use the bot.
pub fn parse_chat_ids(value: &str) -> (r: Option<Vec<i64>>)
    ensures
        match chat_ids(value@) {
            Some(ids) => r is Some && r->0@ == ids,
            None => r is None,
        },
{
    let parts = fields_of(&chars_of(value), ',');
    let ghost read = |part: Seq<char>| signed_value(part)->0;
    let mut ids: Vec<i64> = Vec::new();
    let mut i: usize = 0;
    assert(ids@ =~= rows(parts@).take(0).map_values(read));
    while i < parts.len()
        invariant
            i <= parts.len(),
            rows(parts@) == fields(value@, ','),
            read == (|part: Seq<char>| signed_value(part)->0),
            forall|j: int| 0 <= j < i ==> signed_value(#[trigger] rows(parts@)[j]) is Some,
            ids@ == rows(parts@).take(i as int).map_values(read),
        decreases parts.len() - i,
    {
        assert(rows(parts@)[i as int] == parts@[i as int]@);
        match parse_signed(&parts[i]) {
            Some(id) => {
                ids.push(id);
                assert(ids@ =~= rows(parts@).take(i + 1).map_values(read));
            },
            None => {
                return None;
            },
        }
        i += 1;
    }
    assert(rows(parts@).take(parts@.len() as int) =~= rows(parts@));
    Some(ids)
}

/// What a numbered reply chooses: the number, and the kind of media where
/// the reply forces one.
pub open spec fn reply_choice(prefix: Seq<char>, suffix: Seq<char>) -> Option<(Option<Media>, u16)> {
    let (media, word) = if prefix == "tv"@ {
        (Some(Media::TV), suffix)
    } else if prefix == "movie"@ {
        (Some(Media::Movie), suffix)
    } else {
        (None::<Media>, prefix)
    };
    match numeral_value(word) {
        Some(n) => if n <= u16::MAX {
            Some((media, n as u16))
        } else {
            None
        },
        None => None,
    }
}

/// Reads a reply to a list: `{number}`, `tv {number}` or `movie {number}`,
/// given the first and the last word of the reply.
pub fn read_reply_choice(prefix: &str, suffix: &str) -> (r: Option<(Option<Media>, u16)>)
    ensures
        r == reply_choice(prefix@, suffix@),
{
    let first = chars_of(prefix);
    let (media, word) = if same_text(&first, &chars_of("tv")) {
        (Some(Media::TV), chars_of(suffix))
    } else if same_text(&first, &chars_of("movie")) {
        (Some(Media::Movie), chars_of(suffix))
    } else {
        (None, first)
    };
    match parse_numeral(&word) {
        Some(n) => if n <= 65535 {
            Some((media, n as u16))
        } else {
            None
        },
        None => None,
    }
}

/// The kind of media that a word names, whatever the case of its letters.
pub open spec fn media_named(word: Seq<char>) -> Option<Media> {
    if lowered(word) == "tv"@ {
        Some(Media::TV)
    } else if lowered(word) == "movie"@ {
        Some(Media::Movie)
    } else {
        None
    }
}

/// Reads the kind of media that a command names.
pub fn read_media(word: &str) -> (r: Option<Media>)
    ensures
        r == media_named(word@),
{
    let w = lower_of(&chars_of(word));
    if same_text(&w, &chars_of("tv")) {
        Some(Media::TV)
    } else if same_text(&w, &chars_of("movie")) {
        Some(Media::Movie)
    } else {
        None
    }
}

/// A command of the bot.
#[derive(Clone, Copy, Debug, PartialEq, Eq, Structural)]
pub enum Command {
    TorrentTv,
    TorrentMovie,
    Help,
    Search,
    Status,
    DeleteTorrent,
    DeleteTv,
    DeleteMovie,
    Restructure,
    StopSeed,
    Storage,
}

/// The command that a message's first word names, if it names one.
pub open spec fn command_named(word: Seq<char>) -> Option<Command> {
    if word == "/torrent-tv"@ {
        Some(Command::TorrentTv)
    } else if word == "/torrent-movie"@ {
        Some(Command::TorrentMovie)
    } else if word == "/help"@ {
        Some(Command::Help)
    } else if word == "/search"@ {
        Some(Command::Search)
    } else if word == "/status"@ {
        Some(Command::Status)
    } else if word == "/delete-torrent"@ {
        Some(Command::DeleteTorrent)
    } else if word == "/delete-tv"@ {
        Some(Command::DeleteTv)
    } else if word == "/delete-movie"@ {
        Some(Command::DeleteMovie)
    } else if word == "/restructure"@ {
        Some(Command::Restructure)
    } else if word == "/stop-seed"@ {
        Some(Command::StopSeed)
    } else if word == "/storage"@ {
        Some(Command::Storage)
    } else {
        None
    }
}

/// Reads the command that a message's first word names.
pub fn read_command(word: &str) -> (r: Option<Command>)
    ensures
        r == command_named(word@),
{
    let w = chars_of(word);
    if same_text(&w, &chars_of("/torrent-tv")) {
        Some(Command::TorrentTv)
    } else if same_text(&w, &chars_of("/torrent-movie")) {
        Some(Command::TorrentMovie)
    } else if same_text(&w, &chars_of("/help")) {
        Some(Command::Help)
    } else if same_text(&w, &chars_of("/search")) {
        Some(Command::Search)
    } else if same_text(&w, &chars_of("/status")) {
        Some(Command::Status)
    } else if same_text(&w, &chars_of("/delete-torrent")) {
        Some(Command::DeleteTorrent)
    } else if same_text(&w, &chars_of("/delete-tv")) {
        Some(Command::DeleteTv)
    } else if same_text(&w, &chars_of("/delete-movie")) {
        Some(Command::DeleteMovie)
    } else if same_text(&w, &chars_of("/restructure")) {
        Some(Command::Restructure)
    } else if same_text(&w, &chars_of("/stop-seed")) {
        Some(Command::StopSeed)
    } else if same_text(&w, &chars_of("/storage")) {
        Some(Command::Storage)
    } else {
        None
    }
}

/// Whether a message asks for a title by its page in the movie database:
/// its first or last word is such a page, or its first word is `/imdb`.
pub open spec fn asks_by_imdb(prefix: Seq<char>, suffix: Seq<char>) -> bool {
    "https://www.imdb.com"@.is_prefix_of(prefix) || "https://www.imdb.com"@.is_prefix_of(suffix)
        || prefix == "/imdb"@
}

/// Whether a message asks for a title by its page in the movie database.
pub fn is_imdb_request(prefix: &str, suffix: &str) -> (r: bool)
    ensures
        r == asks_by_imdb(prefix@, suffix@),
{
    let site = chars_of("https://www.imdb.com");
    let first = chars_of(prefix);
    begins_with(&first, &site) || begins_with(&chars_of(suffix), &site) || same_text(
        &first,
        &chars_of("/imdb"),
    )
}

} // verus!
