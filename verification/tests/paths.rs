use media_pipeline::paths::{
    dir_prefix_of, extension_of, file_name_of, is_hidden_path, last_two_components_of,
    parent_dir_of, sanitize_filename, stem_of,
};

#[test]
fn sanitize_replaces_each_reserved_character() {
    assert_eq!(sanitize_filename("a/b\\c:d*e?f\"g<h>i|j"), "a-b-c-d-e-f-g-h-i-j");
}

#[test]
fn sanitize_keeps_other_characters() {
    assert_eq!(sanitize_filename("Amélie (2001) - part 1.5"), "Amélie (2001) - part 1.5");
    assert_eq!(sanitize_filename(""), "");
}

#[test]
fn a_path_splits_into_directory_stem_and_extension() {
    let path = "/media/tv/Show.S01E01.mkv";
    assert_eq!(dir_prefix_of(path), "/media/tv/");
    assert_eq!(file_name_of(path), "Show.S01E01.mkv");
    assert_eq!(stem_of(path), "Show.S01E01");
    assert_eq!(extension_of(path), ".mkv");
    assert_eq!(parent_dir_of(path), "/media/tv");
}

#[test]
fn the_parts_of_a_path_give_the_path_again() {
    for path in ["/a/b.c", "plain", "/x/.hidden", "a.b/c", "/", "", "dir/", "a..b", "/a/b.tar.gz"] {
        let joined = format!("{}{}{}", dir_prefix_of(path), stem_of(path), extension_of(path));
        assert_eq!(joined, path);
    }
}

#[test]
fn a_name_without_a_dot_has_no_extension() {
    assert_eq!(extension_of("/media/README"), "");
    assert_eq!(stem_of("/media/README"), "README");
}

#[test]
fn a_leading_dot_begins_no_extension() {
    assert_eq!(extension_of("/home/.bashrc"), "");
    assert_eq!(stem_of("/home/.bashrc"), ".bashrc");
    assert_eq!(extension_of(".profile.bak"), ".bak");
}

#[test]
fn a_dot_in_a_directory_name_is_no_extension() {
    assert_eq!(extension_of("/media/show.s01/episode"), "");
    assert_eq!(file_name_of("/media/show.s01/episode"), "episode");
}

#[test]
fn only_the_last_dot_begins_the_extension() {
    assert_eq!(extension_of("Show.S01E01.en.srt"), ".srt");
    assert_eq!(stem_of("Show.S01E01.en.srt"), "Show.S01E01.en");
}

#[test]
fn parent_of_a_path_directly_under_the_root_is_the_root() {
    assert_eq!(parent_dir_of("/file.mkv"), "/");
    assert_eq!(parent_dir_of("file.mkv"), "");
    assert_eq!(parent_dir_of("a/b/c"), "a/b");
}

#[test]
fn last_two_components_show_file_and_folder() {
    assert_eq!(last_two_components_of("/x/y/z.mkv"), "y/z.mkv");
    assert_eq!(last_two_components_of("/a/b"), "a/b");
    assert_eq!(last_two_components_of("a/b"), "a/b");
    assert_eq!(last_two_components_of("/b"), "/b");
    assert_eq!(last_two_components_of("b"), "b");
    assert_eq!(
        last_two_components_of("/tv/Show/Season 01/Show - S01E01.mkv"),
        "Season 01/Show - S01E01.mkv"
    );
}

#[test]
fn hidden_names_begin_with_a_dot() {
    assert!(is_hidden_path("/media/.cache"));
    assert!(is_hidden_path(".git"));
    assert!(!is_hidden_path("/media/.cache/file"));
    assert!(!is_hidden_path("/media/show"));
    assert!(!is_hidden_path("/media/"));
}
