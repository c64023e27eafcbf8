use media_pipeline::restructure::{
    format_restructure_plan, parse_restructure_reply, MoveOperation, RestructurePlan,
};
use media_pipeline::transmission::Media;

const FOOTER: &str = "\nReply with:\n• \"apply all\" - Execute all operations\n• \"apply 1 2 5\" - Execute specific operations\n• \"cancel\" - Cancel restructure\n";

fn video(name: &str, target: &str) -> MoveOperation {
    MoveOperation {
        source_path: format!("/in/{}", name),
        target_path: target.to_string(),
        display_name: name.to_string(),
        is_subtitle: false,
    }
}

fn subtitle(name: &str, target: &str) -> MoveOperation {
    MoveOperation {
        source_path: format!("/in/{}", name),
        target_path: target.to_string(),
        display_name: name.to_string(),
        is_subtitle: true,
    }
}

fn plan(media: Media, operations: Vec<MoveOperation>, unparseable: Vec<String>) -> RestructurePlan {
    RestructurePlan { media_type: media, operations, unparseable_files: unparseable }
}

#[test]
fn an_empty_plan_has_nothing_to_restructure() {
    assert_eq!(
        format_restructure_plan(&plan(Media::TV, vec![], vec![])),
        "✅ Nothing to restructure"
    );
}

#[test]
fn a_tv_plan_lists_videos_with_their_subtitles() {
    let p = plan(
        Media::TV,
        vec![
            video("Show.S01E01.mkv", "/tv/Show/Season 01/Show - S01E01.mkv"),
            subtitle("Show.S01E01.en.srt", "/tv/Show/Season 01/Show - S01E01.en.srt"),
            video("Show.S01E02.mkv", "/tv/Show/Season 01/Show - S01E02.mkv"),
        ],
        vec![],
    );
    let expected = format!(
        "{}{}{}{}",
        "📺 Restructure Plan:\n\n",
        "1. Show.S01E01.mkv\n   → Season 01/Show - S01E01.mkv\n      + Show.S01E01.en.srt\n",
        "2. Show.S01E02.mkv\n   → Season 01/Show - S01E02.mkv\n",
        FOOTER
    );
    assert_eq!(format_restructure_plan(&p), expected);
}

#[test]
fn a_movie_plan_has_its_own_heading() {
    let p = plan(Media::Movie, vec![video("heat.mkv", "/m/Heat (1995)/Heat (1995).mkv")], vec![]);
    let expected = format!(
        "🎬 Restructure Plan:\n\n1. heat.mkv\n   → Heat (1995)/Heat (1995).mkv\n{}",
        FOOTER
    );
    assert_eq!(format_restructure_plan(&p), expected);
}

#[test]
fn unparseable_files_are_named_by_file_name() {
    let p = plan(
        Media::TV,
        vec![],
        vec!["/in/dir/strange.mkv".to_string(), "other.avi".to_string()],
    );
    let expected = format!(
        "📺 Restructure Plan:\n\n\n⚠️ Unparseable files (will be skipped):\n  • strange.mkv\n  • other.avi\n{}",
        FOOTER
    );
    assert_eq!(format_restructure_plan(&p), expected);
}

#[test]
fn the_listing_stops_after_fifty_groups() {
    let mut operations = Vec::new();
    for i in 1..=60 {
        operations.push(video(&format!("v{}.mkv", i), &format!("/tv/S/Season 01/v{}.mkv", i)));
        operations.push(subtitle(&format!("v{}.srt", i), &format!("/tv/S/Season 01/v{}.srt", i)));
    }
    let text = format_restructure_plan(&plan(Media::TV, operations, vec![]));
    let mut expected = String::from("📺 Restructure Plan:\n\n");
    for i in 1..=50 {
        expected.push_str(&format!(
            "{i}. v{i}.mkv\n   → Season 01/v{i}.mkv\n      + v{i}.srt\n",
            i = i
        ));
    }
    expected.push_str("\n... and 20 more operations (showing first 50)\n");
    expected.push_str(FOOTER);
    assert_eq!(text, expected);
}

#[test]
fn exactly_fifty_groups_are_listed_in_full() {
    let mut operations = Vec::new();
    for i in 1..=50 {
        operations.push(video(&format!("v{}.mkv", i), &format!("/tv/S/Season 01/v{}.mkv", i)));
    }
    let text = format_restructure_plan(&plan(Media::TV, operations, vec![]));
    assert!(text.contains("50. v50.mkv\n"));
    assert!(!text.contains("more operations"));
}

#[test]
fn at_most_twenty_unparseable_files_are_named() {
    let files: Vec<String> = (1..=23).map(|i| format!("/in/f{}.mkv", i)).collect();
    let text = format_restructure_plan(&plan(Media::Movie, vec![], files));
    let mut expected = String::from("🎬 Restructure Plan:\n\n\n⚠️ Unparseable files (will be skipped):\n");
    for i in 1..=20 {
        expected.push_str(&format!("  • f{}.mkv\n", i));
    }
    expected.push_str("  ... and 3 more\n");
    expected.push_str(FOOTER);
    assert_eq!(text, expected);
}

#[test]
fn exactly_twenty_unparseable_files_have_no_remainder() {
    let files: Vec<String> = (1..=20).map(|i| format!("/in/f{}.mkv", i)).collect();
    let text = format_restructure_plan(&plan(Media::Movie, vec![], files));
    assert!(text.contains("  • f20.mkv\n"));
    assert!(!text.contains("more\n"));
}

#[test]
fn a_subtitle_before_any_video_is_not_shown() {
    let p = plan(
        Media::TV,
        vec![subtitle("stray.srt", "/tv/x/y/stray.srt"), video("a.mkv", "/tv/x/y/a.mkv")],
        vec![],
    );
    let expected = format!("📺 Restructure Plan:\n\n1. a.mkv\n   → y/a.mkv\n{}", FOOTER);
    assert_eq!(format_restructure_plan(&p), expected);
}

#[test]
fn the_number_shown_selects_the_group_shown() {
    let mut operations = Vec::new();
    for i in 1..=7 {
        operations.push(video(&format!("v{}.mkv", i), &format!("/tv/S/Season 01/v{}.mkv", i)));
        if i % 2 == 0 {
            operations.push(subtitle(&format!("v{}.srt", i), &format!("/tv/S/Season 01/v{}.srt", i)));
        }
    }
    let p = plan(Media::TV, operations, vec![]);
    let text = format_restructure_plan(&p);
    for k in 1..=7 {
        let chosen = parse_restructure_reply(&format!("apply {}", k), &p).unwrap();
        let shown = format!("\n{}. {}\n", k, chosen[0].display_name);
        assert!(text.contains(&shown), "{}", shown);
        for sub in &chosen[1..] {
            assert!(sub.is_subtitle);
            assert!(text.contains(&format!("      + {}\n", sub.display_name)));
        }
    }
}
