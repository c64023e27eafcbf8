use media_pipeline::telegram::{
    checked_index, format_file_list, format_torrent_list, is_imdb_request, parse_chat_ids,
    read_command, read_media, read_reply_choice, remember, Command, REMEMBERED,
};
use media_pipeline::transmission::{Download, Media};

#[test]
fn a_list_remembers_its_newest_hundred() {
    let mut list: Vec<u32> = Vec::new();
    for i in 0..100 {
        remember(&mut list, i);
    }
    assert_eq!(list.len(), 100);
    assert_eq!(list[0], 0);
    remember(&mut list, 100);
    assert_eq!(list.len(), 100);
    assert_eq!(list[0], 1);
    assert_eq!(list[99], 100);
    assert_eq!(REMEMBERED, 100);
}

#[test]
fn numbers_count_from_one() {
    assert_eq!(checked_index(1, 3), Some(0));
    assert_eq!(checked_index(3, 3), Some(2));
    assert_eq!(checked_index(0, 3), None);
    assert_eq!(checked_index(4, 3), None);
    assert_eq!(checked_index(1, 0), None);
}

#[test]
fn files_are_listed_by_name_with_their_paths_kept() {
    let files = vec!["/data/tv/Show".to_string(), "/data/tv/b.mkv".to_string()];
    let (text, paths) = format_file_list(&files, "/data/tv");
    assert_eq!(text, "Reply with the number to delete (file):\n\n1. Show\n2. b.mkv\n");
    assert_eq!(paths, files);
}

#[test]
fn an_empty_file_list_says_so() {
    let (text, paths) = format_file_list(&vec![], "/data/tv");
    assert_eq!(text, "No files found");
    assert!(paths.is_empty());
}

fn download(id: i64, name: &str, dir: &str, percent: i64) -> Download {
    Download {
        id,
        name: name.to_string(),
        status: 4,
        percent,
        download_dir: dir.to_string(),
        total_size: 0,
        downloaded_ever: 0,
        uploaded_ever: 0,
    }
}

fn downloads() -> Vec<Download> {
    vec![
        download(11, "Show", "/data/tv", 50),
        download(12, "Heat", "/data/movies", 100),
        download(13, "Misc", "/tmp", 0),
        download(14, "Other", "/data/tv/sub", 7),
    ]
}

#[test]
fn all_downloads_are_listed_without_a_filter() {
    let (text, ids) = format_torrent_list(&downloads(), None, "/data/tv", "/data/movies");
    assert_eq!(
        text,
        "Reply with the number to delete (torrent):\n\n1. 📺 TV - Show (50%)\n2. 🎬 Movie - Heat (100%)\n3. 📁 Unknown - Misc (0%)\n4. 📺 TV - Other (7%)\n"
    );
    assert_eq!(ids, vec![11, 12, 13, 14]);
}

#[test]
fn a_filter_lists_one_kind_and_numbers_it_anew() {
    let (text, ids) = format_torrent_list(&downloads(), Some(Media::TV), "/data/tv", "/data/movies");
    assert_eq!(
        text,
        "Reply with the number to delete (torrent):\n\n1. 📺 TV - Show (50%)\n2. 📺 TV - Other (7%)\n"
    );
    assert_eq!(ids, vec![11, 14]);
    let (text, ids) =
        format_torrent_list(&downloads(), Some(Media::Movie), "/data/tv", "/data/movies");
    assert_eq!(text, "Reply with the number to delete (torrent):\n\n1. 🎬 Movie - Heat (100%)\n");
    assert_eq!(ids, vec![12]);
}

#[test]
fn an_empty_download_list_says_so() {
    let (text, ids) = format_torrent_list(&downloads(), Some(Media::Movie), "/x", "/y");
    assert_eq!(text, "No downloads found");
    assert!(ids.is_empty());
}

#[test]
fn chat_ids_are_read_between_commas() {
    assert_eq!(parse_chat_ids("1,-1001234567890,+3"), Some(vec![1, -1001234567890, 3]));
    assert_eq!(parse_chat_ids("42"), Some(vec![42]));
}

#[test]
fn a_field_that_is_no_number_spoils_the_chat_ids() {
    assert_eq!(parse_chat_ids(""), None);
    assert_eq!(parse_chat_ids("1, 2"), None);
    assert_eq!(parse_chat_ids("1,,2"), None);
    assert_eq!(parse_chat_ids("1,2,"), None);
    assert_eq!(parse_chat_ids("1,abc"), None);
    assert_eq!(parse_chat_ids("9223372036854775808"), None);
}

#[test]
fn a_numbered_reply_may_force_the_kind_of_media() {
    assert_eq!(read_reply_choice("3", "3"), Some((None, 3)));
    assert_eq!(read_reply_choice("tv", "2"), Some((Some(Media::TV), 2)));
    assert_eq!(read_reply_choice("movie", "65535"), Some((Some(Media::Movie), 65535)));
    assert_eq!(read_reply_choice("3", "ignored"), Some((None, 3)));
}

#[test]
fn a_reply_without_number_chooses_nothing() {
    assert_eq!(read_reply_choice("tv", "tv"), None);
    assert_eq!(read_reply_choice("apply", "all"), None);
    assert_eq!(read_reply_choice("65536", "65536"), None);
    assert_eq!(read_reply_choice("TV", "2"), None);
    assert_eq!(read_reply_choice("-1", "-1"), None);
}

#[test]
fn the_kind_of_media_is_read_without_case() {
    assert_eq!(read_media("tv"), Some(Media::TV));
    assert_eq!(read_media("TV"), Some(Media::TV));
    assert_eq!(read_media("Movie"), Some(Media::Movie));
    assert_eq!(read_media("movies"), None);
    assert_eq!(read_media(""), None);
}

#[test]
fn each_command_has_its_word() {
    let commands = [
        ("/torrent-tv", Command::TorrentTv),
        ("/torrent-movie", Command::TorrentMovie),
        ("/help", Command::Help),
        ("/search", Command::Search),
        ("/status", Command::Status),
        ("/delete-torrent", Command::DeleteTorrent),
        ("/delete-tv", Command::DeleteTv),
        ("/delete-movie", Command::DeleteMovie),
        ("/restructure", Command::Restructure),
        ("/stop-seed", Command::StopSeed),
        ("/storage", Command::Storage),
    ];
    for (word, command) in commands {
        assert_eq!(read_command(word), Some(command));
    }
    assert_eq!(read_command("/Help"), None);
    assert_eq!(read_command("help"), None);
    assert_eq!(read_command("/chat-id"), None);
}

#[test]
fn a_page_of_the_movie_database_is_recognized() {
    assert!(is_imdb_request("https://www.imdb.com/title/tt0133093/", "x"));
    assert!(is_imdb_request("see", "https://www.imdb.com/title/tt0133093/"));
    assert!(is_imdb_request("/imdb", "tt0133093"));
    assert!(!is_imdb_request("/search", "imdb"));
    assert!(!is_imdb_request("http://www.imdb.com/", "x"));
}
