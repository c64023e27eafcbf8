use media_pipeline::restructure::execute::{CROSS_DEVICE, SHOWN_ERRORS};
use media_pipeline::restructure::{
    summarize_moves, IoOutcome, MoveAction, MoveExecutor, MoveOperation,
};

fn op(name: &str) -> MoveOperation {
    MoveOperation {
        source_path: format!("/in/{}", name),
        target_path: format!("/out/Show/Season 01/{}", name),
        display_name: name.to_string(),
        is_subtitle: false,
    }
}

fn failed(code: Option<i32>, detail: &str) -> IoOutcome {
    IoOutcome::Failed { os_code: code, detail: detail.to_string() }
}

/// Runs the executor; `answer` decides the outcome of each request.
fn run(
    operations: Vec<MoveOperation>,
    answer: &mut dyn FnMut(&MoveAction) -> IoOutcome,
) -> (Result<String, String>, Vec<String>) {
    let mut log = Vec::new();
    let mut executor = MoveExecutor::new(operations);
    loop {
        let action = executor.request();
        if let MoveAction::Finished = action {
            break;
        }
        log.push(match &action {
            MoveAction::CreateDirectories(dir) => format!("mkdir {}", dir),
            MoveAction::Rename { from, to } => format!("rename {} {}", from, to),
            MoveAction::Copy { from, to } => format!("copy {} {}", from, to),
            MoveAction::Remove(path) => format!("remove {}", path),
            MoveAction::Finished => unreachable!(),
        });
        let outcome = answer(&action);
        executor = executor.advance(outcome);
    }
    (executor.report(), log)
}

#[test]
fn each_operation_makes_the_directory_then_renames() {
    let (report, log) = run(vec![op("a.mkv"), op("b.mkv")], &mut |_| IoOutcome::Done);
    assert_eq!(
        log,
        vec![
            "mkdir /out/Show/Season 01",
            "rename /in/a.mkv /out/Show/Season 01/a.mkv",
            "mkdir /out/Show/Season 01",
            "rename /in/b.mkv /out/Show/Season 01/b.mkv",
        ]
    );
    assert_eq!(report, Ok("✅ Restructuring complete!\n• 2/2 files moved".to_string()));
}

#[test]
fn a_missing_source_fails_its_operation_only() {
    let mut answer = |action: &MoveAction| match action {
        MoveAction::Rename { from, .. } if from == "/in/b.mkv" => {
            failed(Some(2), "No such file or directory (os error 2)")
        }
        _ => IoOutcome::Done,
    };
    let (report, log) = run(vec![op("a.mkv"), op("b.mkv"), op("c.mkv")], &mut answer);
    assert_eq!(log.len(), 6);
    assert_eq!(
        report,
        Ok("✅ Restructuring complete!\n• 2/3 files moved\n• 1 errors:\n  - b.mkv: Failed to move - No such file or directory (os error 2)\n".to_string())
    );
}

#[test]
fn a_directory_that_cannot_be_made_skips_the_rename() {
    let mut answer = |action: &MoveAction| match action {
        MoveAction::CreateDirectories(_) => failed(Some(13), "Permission denied"),
        _ => IoOutcome::Done,
    };
    let (report, log) = run(vec![op("a.mkv")], &mut answer);
    assert_eq!(log, vec!["mkdir /out/Show/Season 01"]);
    assert_eq!(
        report,
        Err("✅ Restructuring complete!\n• 0/1 files moved\n• 1 errors:\n  - a.mkv: Failed to create directory - Permission denied\n".to_string())
    );
}

#[test]
fn a_rename_across_devices_falls_back_to_copy_and_remove() {
    let mut answer = |action: &MoveAction| match action {
        MoveAction::Rename { .. } => failed(Some(CROSS_DEVICE), "Invalid cross-device link"),
        _ => IoOutcome::Done,
    };
    let (report, log) = run(vec![op("a.mkv")], &mut answer);
    assert_eq!(
        log,
        vec![
            "mkdir /out/Show/Season 01",
            "rename /in/a.mkv /out/Show/Season 01/a.mkv",
            "copy /in/a.mkv /out/Show/Season 01/a.mkv",
            "remove /in/a.mkv",
        ]
    );
    assert_eq!(report, Ok("✅ Restructuring complete!\n• 1/1 files moved".to_string()));
    assert_eq!(CROSS_DEVICE, 18);
}

#[test]
fn a_failed_copy_is_reported() {
    let mut answer = |action: &MoveAction| match action {
        MoveAction::Rename { .. } => failed(Some(18), "Invalid cross-device link"),
        MoveAction::Copy { .. } => failed(Some(28), "No space left on device"),
        _ => IoOutcome::Done,
    };
    let (report, log) = run(vec![op("a.mkv")], &mut answer);
    assert_eq!(log.len(), 3);
    assert_eq!(
        report,
        Err("✅ Restructuring complete!\n• 0/1 files moved\n• 1 errors:\n  - a.mkv: Failed to copy - No space left on device\n".to_string())
    );
}

#[test]
fn a_copy_whose_source_cannot_be_removed_is_a_failure_of_its_own() {
    let mut answer = |action: &MoveAction| match action {
        MoveAction::Rename { from, .. } if from == "/in/a.mkv" => failed(Some(18), "cross-device"),
        MoveAction::Remove(_) => failed(Some(1), "Operation not permitted"),
        _ => IoOutcome::Done,
    };
    let (report, _) = run(vec![op("a.mkv"), op("b.mkv")], &mut answer);
    assert_eq!(
        report,
        Ok("✅ Restructuring complete!\n• 1/2 files moved\n• 1 errors:\n  - a.mkv: Copied but failed to delete source - Operation not permitted\n".to_string())
    );
}

#[test]
fn a_rename_that_fails_otherwise_is_not_copied() {
    for code in [None, Some(1), Some(2), Some(17)] {
        let mut answer = |action: &MoveAction| match action {
            MoveAction::Rename { .. } => failed(code, "nope"),
            _ => IoOutcome::Done,
        };
        let (report, log) = run(vec![op("a.mkv")], &mut answer);
        assert_eq!(log.len(), 2);
        assert!(report.unwrap_err().contains("a.mkv: Failed to move - nope"));
    }
}

#[test]
fn no_operations_is_a_failure() {
    let (report, log) = run(vec![], &mut |_| IoOutcome::Done);
    assert!(log.is_empty());
    assert_eq!(report, Err("✅ Restructuring complete!\n• 0/0 files moved".to_string()));
}

#[test]
fn at_most_ten_error_lines_are_shown() {
    let operations: Vec<MoveOperation> = (1..=13).map(|i| op(&format!("f{}.mkv", i))).collect();
    let mut answer = |action: &MoveAction| match action {
        MoveAction::Rename { from, .. } if from != "/in/f13.mkv" => failed(None, "gone"),
        _ => IoOutcome::Done,
    };
    let (report, _) = run(operations, &mut answer);
    let mut expected = String::from("✅ Restructuring complete!\n• 1/13 files moved\n• 12 errors:\n");
    for i in 1..=10 {
        expected.push_str(&format!("  - f{}.mkv: Failed to move - gone\n", i));
    }
    expected.push_str("  ... and 2 more errors\n");
    assert_eq!(report, Ok(expected));
    assert_eq!(SHOWN_ERRORS, 10);
}

#[test]
fn exactly_ten_errors_have_no_remainder() {
    let errors: Vec<String> = (1..=10).map(|i| format!("e{}", i)).collect();
    let text = summarize_moves(2, 12, &errors).unwrap();
    assert!(text.ends_with("  - e10\n"));
    assert!(!text.contains("more errors"));
}

#[test]
fn the_report_counts_successes_and_total() {
    assert_eq!(
        summarize_moves(3, 4, &vec!["x: Failed to move - y".to_string()]),
        Ok("✅ Restructuring complete!\n• 3/4 files moved\n• 1 errors:\n  - x: Failed to move - y\n".to_string())
    );
    assert!(summarize_moves(0, 4, &vec![]).is_err());
}

#[test]
fn an_outcome_after_the_end_changes_nothing() {
    let executor = MoveExecutor::new(vec![op("a.mkv")]);
    let executor = executor.advance(IoOutcome::Done).advance(IoOutcome::Done);
    assert!(matches!(executor.request(), MoveAction::Finished));
    let executor = executor.advance(failed(None, "late"));
    assert!(matches!(executor.request(), MoveAction::Finished));
    assert_eq!(executor.report(), Ok("✅ Restructuring complete!\n• 1/1 files moved".to_string()));
}

#[test]
fn a_target_without_directory_asks_for_the_empty_directory() {
    let mut operation = op("a.mkv");
    operation.target_path = "a.mkv".to_string();
    let executor = MoveExecutor::new(vec![operation]);
    match executor.request() {
        MoveAction::CreateDirectories(dir) => assert_eq!(dir, ""),
        other => panic!("unexpected: {:?}", other),
    }
}
