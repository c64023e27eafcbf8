use media_pipeline::restructure::pathgen::{
    generate_movie_path, generate_tv_path, sort_episodes, PathError,
};
use media_pipeline::restructure::{EpisodeValue, GuessitMetadata};

fn tv(title: &str, season: Option<u32>, episode: EpisodeValue, extension: &str) -> GuessitMetadata {
    GuessitMetadata {
        title: title.to_string(),
        year: None,
        season,
        episode,
        extension: extension.to_string(),
    }
}

fn movie(title: &str, year: Option<i32>, extension: &str) -> GuessitMetadata {
    GuessitMetadata {
        title: title.to_string(),
        year,
        season: None,
        episode: EpisodeValue::Other,
        extension: extension.to_string(),
    }
}

#[test]
fn single_episode_path_has_padded_season_and_episode() {
    let md = tv("Show", Some(1), EpisodeValue::Number(Some(1)), ".mkv");
    assert_eq!(
        generate_tv_path("/base", &md),
        Ok("/base/Show/Season 01/Show - S01E01.mkv".to_string())
    );
}

#[test]
fn single_episode_path_follows_the_pattern_for_many_values() {
    for (season, episode) in [(0u32, 0u64), (1, 9), (9, 10), (12, 34), (100, 250)] {
        for title in ["Show", "The Expanse", "Who: Is/It?"] {
            let md = tv(title, Some(season), EpisodeValue::Number(Some(episode)), ".mp4");
            let t = title.replace([':', '/', '?'], "-");
            let expected = format!(
                "/srv/tv/{t}/Season {s:02}/{t} - S{s:02}E{e:02}.mp4",
                t = t,
                s = season,
                e = episode
            );
            assert_eq!(generate_tv_path("/srv/tv", &md), Ok(expected));
        }
    }
}

#[test]
fn episodes_three_one_two_give_the_tag_in_ascending_order() {
    let md = tv(
        "Show",
        Some(2),
        EpisodeValue::List(vec![Some(3), Some(1), Some(2)]),
        ".mkv",
    );
    assert_eq!(
        generate_tv_path("/base", &md),
        Ok("/base/Show/Season 02/Show - S02E01-E02-E03.mkv".to_string())
    );
}

#[test]
fn repeated_episodes_are_kept_in_the_tag() {
    let md = tv("Show", Some(1), EpisodeValue::List(vec![Some(2), Some(2), Some(1)]), ".avi");
    assert_eq!(
        generate_tv_path("/b", &md),
        Ok("/b/Show/Season 01/Show - S01E01-E02-E02.avi".to_string())
    );
}

#[test]
fn a_missing_season_is_reported() {
    let md = tv("Show", None, EpisodeValue::Number(Some(1)), ".mkv");
    assert_eq!(generate_tv_path("/base", &md), Err(PathError::MissingSeason));
    assert_eq!(PathError::MissingSeason.message(), "TV show missing season number");
}

#[test]
fn missing_episodes_are_reported() {
    for episode in [
        EpisodeValue::Other,
        EpisodeValue::Number(None),
        EpisodeValue::List(vec![]),
        EpisodeValue::List(vec![None, None]),
    ] {
        let md = tv("Show", Some(1), episode, ".mkv");
        assert_eq!(generate_tv_path("/base", &md), Err(PathError::MissingEpisode));
    }
    assert_eq!(PathError::MissingEpisode.message(), "TV show missing episode number");
}

#[test]
fn a_missing_season_comes_before_missing_episodes() {
    let md = tv("Show", None, EpisodeValue::Other, ".mkv");
    assert_eq!(generate_tv_path("/base", &md), Err(PathError::MissingSeason));
}

#[test]
fn movie_path_with_year_repeats_the_folder_name() {
    let md = movie("Heat", Some(1995), ".mkv");
    assert_eq!(
        generate_movie_path("/movies", &md),
        Ok("/movies/Heat (1995)/Heat (1995).mkv".to_string())
    );
}

#[test]
fn movie_path_without_year_uses_the_title_alone() {
    let md = movie("Heat", None, ".mp4");
    assert_eq!(generate_movie_path("/movies", &md), Ok("/movies/Heat/Heat.mp4".to_string()));
}

#[test]
fn movie_titles_are_sanitized() {
    let md = movie("Face/Off: 2", Some(1997), ".avi");
    assert_eq!(
        generate_movie_path("/m", &md),
        Ok("/m/Face-Off- 2 (1997)/Face-Off- 2 (1997).avi".to_string())
    );
}

#[test]
fn a_negative_year_keeps_its_sign() {
    let md = movie("Old", Some(-44), ".mkv");
    assert_eq!(generate_movie_path("/m", &md), Ok("/m/Old (-44)/Old (-44).mkv".to_string()));
}

#[test]
fn equal_metadata_gives_equal_paths() {
    let a = tv("Show", Some(3), EpisodeValue::List(vec![Some(5), Some(4)]), ".mkv");
    let b = a.clone();
    assert_eq!(generate_tv_path("/base", &a), generate_tv_path("/base", &b));
    let m = movie("Heat", Some(1995), ".mkv");
    assert_eq!(generate_movie_path("/base", &m), generate_movie_path("/base", &m.clone()));
}

#[test]
fn episodes_sort_ascending() {
    assert_eq!(sort_episodes(vec![3, 1, 2]), vec![1, 2, 3]);
    assert_eq!(sort_episodes(vec![]), Vec::<u32>::new());
    assert_eq!(sort_episodes(vec![5, 5, 0, u32::MAX, 1]), vec![0, 1, 5, 5, u32::MAX]);
}
