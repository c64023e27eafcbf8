use media_pipeline::restructure::listing::{
    directories_to_scan, extension_among, files_to_keep, subtitle_extension_list,
    video_extension_list,
};
use media_pipeline::restructure::{find_matching_subtitles, DirEntry, EntryKind};

fn file(path: &str) -> DirEntry {
    DirEntry { path: path.to_string(), kind: EntryKind::File }
}

fn dir(path: &str) -> DirEntry {
    DirEntry { path: path.to_string(), kind: EntryKind::Directory }
}

fn other(path: &str) -> DirEntry {
    DirEntry { path: path.to_string(), kind: EntryKind::Other }
}

fn strings(v: &[&str]) -> Vec<String> {
    v.iter().map(|s| s.to_string()).collect()
}

fn chars(s: &str) -> Vec<char> {
    s.chars().collect()
}

#[test]
fn the_two_extension_sets_are_fixed() {
    let video: Vec<String> = video_extension_list().iter().map(|e| e.iter().collect()).collect();
    assert_eq!(
        video,
        strings(&[".mkv", ".mp4", ".avi", ".mov", ".wmv", ".flv", ".webm", ".m4v"])
    );
    let subs: Vec<String> = subtitle_extension_list().iter().map(|e| e.iter().collect()).collect();
    assert_eq!(subs, strings(&[".srt", ".sub", ".ass", ".ssa", ".vtt"]));
}

#[test]
fn extensions_match_with_their_case_and_dot() {
    let set = video_extension_list();
    assert!(extension_among(&chars("/a/b.mkv"), &set));
    assert!(!extension_among(&chars("/a/b.MKV"), &set));
    assert!(!extension_among(&chars("/a/mkv"), &set));
    assert!(!extension_among(&chars("/a/b.mkv.txt"), &set));
    assert!(!extension_among(&chars("/a/.mkv"), &set));
}

#[test]
fn a_scan_keeps_video_files_that_are_not_hidden() {
    let listing = vec![
        file("/m/b.mkv"),
        file("/m/.hidden.mkv"),
        file("/m/notes.txt"),
        dir("/m/season.mkv"),
        other("/m/socket.mkv"),
        file("/m/a.mp4"),
    ];
    assert_eq!(
        files_to_keep(&listing, &video_extension_list()),
        strings(&["/m/b.mkv", "/m/a.mp4"])
    );
}

#[test]
fn a_scan_descends_into_directories_that_are_not_hidden() {
    let listing =
        vec![dir("/m/Show"), dir("/m/.trash"), file("/m/file"), other("/m/odd"), dir("/m/Other")];
    assert_eq!(directories_to_scan(&listing), strings(&["/m/Show", "/m/Other"]));
}

#[test]
fn subtitles_match_by_the_stem_of_the_video() {
    let listing = vec![
        file("/m/Show.S01E01.mkv"),
        file("/m/Show.S01E01.srt"),
        file("/m/Show.S01E01.en.srt"),
        file("/m/Show.S01E02.srt"),
        file("/m/Other.S01E01.srt"),
    ];
    assert_eq!(
        find_matching_subtitles("/m/Show.S01E01.mkv", &listing),
        strings(&["/m/Show.S01E01.en.srt", "/m/Show.S01E01.srt"])
    );
}

#[test]
fn subtitles_come_back_in_ascending_order() {
    let listing = vec![file("/m/a.vtt"), file("/m/a.fr.srt"), file("/m/a.ass"), file("/m/a.en.srt")];
    assert_eq!(
        find_matching_subtitles("/m/a.mkv", &listing),
        strings(&["/m/a.ass", "/m/a.en.srt", "/m/a.fr.srt", "/m/a.vtt"])
    );
}

#[test]
fn a_mismatched_stem_is_never_matched() {
    let listing = vec![file("/m/show.s01e01.srt"), file("/m/XShow.S01E01.srt")];
    assert_eq!(find_matching_subtitles("/m/Show.S01E01.mkv", &listing), Vec::<String>::new());
}

#[test]
fn only_files_with_a_subtitle_extension_qualify() {
    let listing = vec![
        file("/m/a.txt"),
        file("/m/a"),
        file("/m/a_notes"),
        file("/m/a.SRT"),
        dir("/m/a.srt.d"),
        dir("/m/a.srt"),
        other("/m/a.sub"),
        file("/m/a.ssa"),
    ];
    assert_eq!(find_matching_subtitles("/m/a.mkv", &listing), strings(&["/m/a.ssa"]));
}

#[test]
fn an_empty_listing_has_no_subtitles() {
    assert_eq!(find_matching_subtitles("/m/a.mkv", &Vec::new()), Vec::<String>::new());
}
