use media_pipeline::restructure::reply::{count_groups, select_operations};
use media_pipeline::restructure::{
    interpret_reply, parse_restructure_reply, MoveOperation, ReplyError, RestructurePlan,
};
use media_pipeline::transmission::Media;

fn op(name: &str, subtitle: bool) -> MoveOperation {
    MoveOperation {
        source_path: format!("/in/{}", name),
        target_path: format!("/out/{}", name),
        display_name: name.to_string(),
        is_subtitle: subtitle,
    }
}

/// Five groups: a (1 subtitle), b, c (2 subtitles), d, e.
fn sample_plan() -> RestructurePlan {
    RestructurePlan {
        media_type: Media::TV,
        operations: vec![
            op("a.mkv", false),
            op("a.en.srt", true),
            op("b.mkv", false),
            op("c.mkv", false),
            op("c.fr.srt", true),
            op("c.srt", true),
            op("d.mkv", false),
            op("e.mkv", false),
        ],
        unparseable_files: vec![],
    }
}

fn names(ops: &[MoveOperation]) -> Vec<String> {
    ops.iter().map(|o| o.display_name.clone()).collect()
}

fn strings(v: &[&str]) -> Vec<String> {
    v.iter().map(|s| s.to_string()).collect()
}

fn selected(reply: &str) -> Vec<String> {
    names(&parse_restructure_reply(reply, &sample_plan()).unwrap())
}

#[test]
fn apply_all_selects_everything_in_order() {
    let plan = sample_plan();
    assert_eq!(selected("apply all"), names(&plan.operations));
    assert_eq!(selected("apply"), names(&plan.operations));
    assert_eq!(selected("  Apply ALL \n"), names(&plan.operations));
}

#[test]
fn apply_all_keeps_every_field_of_the_operations() {
    let plan = sample_plan();
    let chosen = parse_restructure_reply("apply all", &plan).unwrap();
    assert_eq!(chosen.len(), plan.operations.len());
    for (a, b) in chosen.iter().zip(plan.operations.iter()) {
        assert_eq!(a.source_path, b.source_path);
        assert_eq!(a.target_path, b.target_path);
        assert_eq!(a.display_name, b.display_name);
        assert_eq!(a.is_subtitle, b.is_subtitle);
    }
}

#[test]
fn cancel_is_read_without_case_or_padding() {
    let plan = sample_plan();
    assert_eq!(
        parse_restructure_reply("CANCEL  ", &plan).unwrap_err(),
        "Restructure cancelled"
    );
    assert!(matches!(interpret_reply("CANCEL  ", &plan), Err(ReplyError::Cancelled)));
    assert!(matches!(interpret_reply("\tcancel", &plan), Err(ReplyError::Cancelled)));
}

#[test]
fn an_index_selects_its_video_and_the_subtitles_after_it() {
    assert_eq!(selected("apply 1"), strings(&["a.mkv", "a.en.srt"]));
    assert_eq!(selected("apply 2"), strings(&["b.mkv"]));
    assert_eq!(selected("apply 3"), strings(&["c.mkv", "c.fr.srt", "c.srt"]));
    assert_eq!(selected("apply 5"), strings(&["e.mkv"]));
}

#[test]
fn duplicate_indices_collapse() {
    assert_eq!(selected("apply 2 2 5"), selected("apply 2 5"));
    assert_eq!(selected("apply 2 2 5"), strings(&["b.mkv", "e.mkv"]));
}

#[test]
fn the_order_of_the_indices_does_not_matter() {
    assert_eq!(selected("apply 5 1 3"), selected("apply 1 3 5"));
    assert_eq!(
        selected("apply 5 1"),
        strings(&["a.mkv", "a.en.srt", "e.mkv"])
    );
}

#[test]
fn index_zero_is_out_of_range() {
    let plan = sample_plan();
    assert!(matches!(
        interpret_reply("apply 0", &plan),
        Err(ReplyError::IndexOutOfRange { index: 0, max: 5 })
    ));
    assert_eq!(
        parse_restructure_reply("apply 0", &plan).unwrap_err(),
        "Index 0 out of range (1-5)"
    );
}

#[test]
fn an_index_beyond_the_groups_is_out_of_range() {
    let plan = sample_plan();
    assert!(matches!(
        interpret_reply("apply 1 6", &plan),
        Err(ReplyError::IndexOutOfRange { index: 6, max: 5 })
    ));
    assert_eq!(
        parse_restructure_reply("apply 2 9 7", &plan).unwrap_err(),
        "Index 7 out of range (1-5)"
    );
    assert_eq!(
        parse_restructure_reply("apply 9 0", &plan).unwrap_err(),
        "Index 0 out of range (1-5)"
    );
}

#[test]
fn subtitles_are_not_counted_as_groups() {
    let plan = sample_plan();
    assert_eq!(count_groups(&plan.operations), 5);
    assert!(parse_restructure_reply("apply 8", &plan).is_err());
}

#[test]
fn a_word_that_is_no_number_is_reported() {
    let plan = sample_plan();
    match interpret_reply("apply 1 two 3", &plan) {
        Err(ReplyError::InvalidIndexToken(word)) => assert_eq!(word, "two"),
        other => panic!("unexpected: {:?}", other),
    }
    assert_eq!(
        parse_restructure_reply("Apply 1 X2", &plan).unwrap_err(),
        "Invalid number: x2"
    );
    assert_eq!(
        parse_restructure_reply("apply -1", &plan).unwrap_err(),
        "Invalid number: -1"
    );
    assert_eq!(
        parse_restructure_reply("apply 1,2", &plan).unwrap_err(),
        "Invalid number: 1,2"
    );
}

#[test]
fn the_first_bad_word_is_the_one_reported() {
    let plan = sample_plan();
    assert_eq!(
        parse_restructure_reply("apply 99 b a", &plan).unwrap_err(),
        "Invalid number: b"
    );
}

#[test]
fn a_number_too_large_for_64_bits_is_no_number() {
    let plan = sample_plan();
    assert_eq!(
        parse_restructure_reply("apply 18446744073709551616", &plan).unwrap_err(),
        "Invalid number: 18446744073709551616"
    );
    assert_eq!(
        parse_restructure_reply("apply 18446744073709551615", &plan).unwrap_err(),
        "Index 18446744073709551615 out of range (1-5)"
    );
}

#[test]
fn a_plus_sign_and_leading_zeros_are_accepted() {
    assert_eq!(selected("apply +2 005"), strings(&["b.mkv", "e.mkv"]));
}

#[test]
fn any_white_space_separates_indices() {
    assert_eq!(selected("apply   1\t2"), strings(&["a.mkv", "a.en.srt", "b.mkv"]));
}

#[test]
fn other_text_is_not_understood() {
    let plan = sample_plan();
    for reply in ["", "yes", "applyall", "apply\t1", "cancel now", "1 2", "please apply 1"] {
        assert!(
            matches!(interpret_reply(reply, &plan), Err(ReplyError::UnrecognizedReply)),
            "{:?}",
            reply
        );
    }
    assert_eq!(
        parse_restructure_reply("what", &plan).unwrap_err(),
        "Invalid reply. Use 'apply all', 'apply 1 2 5', or 'cancel'"
    );
}

#[test]
fn indices_of_an_empty_plan_are_out_of_range() {
    let plan = RestructurePlan { media_type: Media::Movie, operations: vec![], unparseable_files: vec![] };
    assert!(matches!(
        interpret_reply("apply 1", &plan),
        Err(ReplyError::IndexOutOfRange { index: 1, max: 0 })
    ));
    assert_eq!(parse_restructure_reply("apply all", &plan).unwrap().len(), 0);
}

#[test]
fn no_indices_select_nothing() {
    let plan = sample_plan();
    assert!(matches!(
        select_operations(&vec![], &plan.operations),
        Err(ReplyError::EmptySelection)
    ));
    assert_eq!(ReplyError::EmptySelection.message(), "No valid operations selected");
}

#[test]
fn the_plan_is_left_as_it_was() {
    let plan = sample_plan();
    let before = names(&plan.operations);
    let _ = parse_restructure_reply("apply 2", &plan);
    assert_eq!(names(&plan.operations), before);
}
