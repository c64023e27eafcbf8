use media_pipeline::restructure::builder::BATCH_SIZE;
use media_pipeline::restructure::{
    BuildAction, BuildEvent, DirEntry, DirectoryError, EntryKind, EpisodeValue, GuessitMetadata,
    IoOutcome, MoveAction, MoveExecutor, MoveOperation, OracleError, PlanBuilder, RestructurePlan,
};
use media_pipeline::transmission::Media;
use std::collections::{BTreeMap, BTreeSet};

/// A file system held in memory: the set of its files and of its directories.
struct Disk {
    files: BTreeSet<String>,
    dirs: BTreeSet<String>,
    unreadable: BTreeSet<String>,
}

fn parent(path: &str) -> String {
    match path.rfind('/') {
        Some(0) => "/".to_string(),
        Some(i) => path[..i].to_string(),
        None => String::new(),
    }
}

impl Disk {
    fn new(files: &[&str]) -> Disk {
        let mut disk =
            Disk { files: BTreeSet::new(), dirs: BTreeSet::new(), unreadable: BTreeSet::new() };
        for f in files {
            disk.add_file(f);
        }
        disk
    }

    fn add_dir(&mut self, path: &str) {
        let mut dir = path.to_string();
        while !dir.is_empty() && self.dirs.insert(dir.clone()) {
            if dir == "/" {
                break;
            }
            dir = parent(&dir);
        }
    }

    fn add_file(&mut self, path: &str) {
        self.files.insert(path.to_string());
        self.add_dir(&parent(path));
    }

    fn holds(&self, path: &str) -> bool {
        self.files.contains(path) || self.dirs.contains(path)
    }

    fn kind(&self, path: &str) -> Option<EntryKind> {
        if self.dirs.contains(path) {
            Some(EntryKind::Directory)
        } else if self.files.contains(path) {
            Some(EntryKind::File)
        } else {
            None
        }
    }

    fn list(&self, dir: &str) -> Option<Vec<DirEntry>> {
        if !self.dirs.contains(dir) || self.unreadable.contains(dir) {
            return None;
        }
        let mut entries = Vec::new();
        for d in self.dirs.iter().rev() {
            if d != "/" && parent(d) == dir {
                entries.push(DirEntry { path: d.clone(), kind: EntryKind::Directory });
            }
        }
        for f in self.files.iter().rev() {
            if parent(f) == dir {
                entries.push(DirEntry { path: f.clone(), kind: EntryKind::File });
            }
        }
        Some(entries)
    }

    fn rename(&mut self, from: &str, to: &str) -> bool {
        if self.files.remove(from) {
            self.add_file(to);
            true
        } else {
            false
        }
    }
}

/// What a run of the builder asked of the outside.
struct Trace {
    batches: Vec<Vec<String>>,
    listed: Vec<String>,
}

fn build(
    media: Media,
    base: &str,
    disk: &Disk,
    oracle: &dyn Fn(&str) -> Result<GuessitMetadata, OracleError>,
) -> (Result<RestructurePlan, DirectoryError>, Trace) {
    let mut trace = Trace { batches: Vec::new(), listed: Vec::new() };
    let mut builder = PlanBuilder::new(media, base);
    let mut steps = 0;
    loop {
        steps += 1;
        assert!(steps < 100_000, "the builder does not come to an end");
        let event = match builder.request() {
            BuildAction::Finished => break,
            BuildAction::Stat(path) => BuildEvent::Kind(disk.kind(&path)),
            BuildAction::List(path) => {
                trace.listed.push(path.clone());
                BuildEvent::Listing(disk.list(&path))
            }
            BuildAction::Infer(files) => {
                let answers = files.iter().map(|f| oracle(f)).collect();
                trace.batches.push(files);
                BuildEvent::Inferred(answers)
            }
            BuildAction::Canonical(path) => {
                BuildEvent::Canonical(if disk.holds(&path) { Some(path) } else { None })
            }
            BuildAction::Exists(path) => BuildEvent::Exists(disk.holds(&path)),
        };
        builder = builder.advance(event);
    }
    assert!(builder.is_finished());
    (builder.into_plan(), trace)
}

fn apply(disk: &mut Disk, operations: Vec<MoveOperation>) -> Result<String, String> {
    let mut executor = MoveExecutor::new(operations);
    loop {
        let outcome = match executor.request() {
            MoveAction::Finished => break,
            MoveAction::CreateDirectories(dir) => {
                disk.add_dir(&dir);
                IoOutcome::Done
            }
            MoveAction::Rename { from, to } => {
                if disk.rename(&from, &to) {
                    IoOutcome::Done
                } else {
                    IoOutcome::Failed { os_code: Some(2), detail: "No such file".to_string() }
                }
            }
            MoveAction::Copy { .. } | MoveAction::Remove(_) => {
                panic!("no copy is asked for on one file system")
            }
        };
        executor = executor.advance(outcome);
    }
    executor.report()
}

fn episode(title: &str, season: u32, number: u64, extension: &str) -> GuessitMetadata {
    GuessitMetadata {
        title: title.to_string(),
        year: None,
        season: Some(season),
        episode: EpisodeValue::Number(Some(number)),
        extension: extension.to_string(),
    }
}

fn extension(path: &str) -> String {
    match path.rfind('.') {
        Some(i) => path[i..].to_string(),
        None => ".mkv".to_string(),
    }
}

/// Reads `Title.SxxEyy.ext` and `Title - SxxEyy.ext`, as the real oracle would.
fn by_name(path: &str) -> Result<GuessitMetadata, OracleError> {
    let name = &path[path.rfind('/').map(|i| i + 1).unwrap_or(0)..];
    let bytes = name.as_bytes();
    for i in 0..bytes.len() {
        if i + 6 <= bytes.len()
            && bytes[i] == b'S'
            && bytes[i + 1].is_ascii_digit()
            && bytes[i + 2].is_ascii_digit()
            && bytes[i + 3] == b'E'
            && bytes[i + 4].is_ascii_digit()
            && bytes[i + 5].is_ascii_digit()
        {
            let season = name[i + 1..i + 3].parse::<u32>().unwrap();
            let number = name[i + 4..i + 6].parse::<u64>().unwrap();
            let title = name[..i].trim_end_matches(|c| c == '.' || c == ' ' || c == '-');
            return Ok(episode(title, season, number, &extension(path)));
        }
    }
    Err(OracleError::OracleParseError("no episode".to_string()))
}

fn summary(plan: &RestructurePlan) -> Vec<(String, String, String, bool)> {
    plan.operations
        .iter()
        .map(|o| {
            (o.source_path.clone(), o.target_path.clone(), o.display_name.clone(), o.is_subtitle)
        })
        .collect()
}

fn row(source: &str, target: &str, name: &str, subtitle: bool) -> (String, String, String, bool) {
    (source.to_string(), target.to_string(), name.to_string(), subtitle)
}

#[test]
fn a_video_and_its_subtitle_are_planned_together() {
    let disk = Disk::new(&["/base/Show.S01E01.mkv", "/base/Show.S01E01.en.srt"]);
    let oracle = |path: &str| Ok(episode("Show", 1, 1, &extension(path)));
    let (plan, _) = build(Media::TV, "/base", &disk, &oracle);
    let plan = plan.unwrap();
    assert_eq!(plan.media_type, Media::TV);
    assert_eq!(
        summary(&plan),
        vec![
            row(
                "/base/Show.S01E01.mkv",
                "/base/Show/Season 01/Show - S01E01.mkv",
                "Show.S01E01.mkv",
                false
            ),
            row(
                "/base/Show.S01E01.en.srt",
                "/base/Show/Season 01/Show - S01E01.en.srt",
                "Show.S01E01.en.srt",
                true
            ),
        ]
    );
    assert!(plan.unparseable_files.is_empty());
}

#[test]
fn a_file_whose_inference_timed_out_is_unparseable() {
    let disk = Disk::new(&["/base/a.S01E01.mkv", "/base/b.S01E02.mkv", "/base/c.S01E03.mkv"]);
    let oracle = |path: &str| {
        if path.ends_with("b.S01E02.mkv") {
            Err(OracleError::OracleTimeout)
        } else {
            by_name(path)
        }
    };
    let (plan, trace) = build(Media::TV, "/base", &disk, &oracle);
    let plan = plan.unwrap();
    assert_eq!(trace.batches.len(), 1);
    assert_eq!(plan.unparseable_files, vec!["/base/b.S01E02.mkv".to_string()]);
    assert_eq!(
        summary(&plan),
        vec![
            row("/base/a.S01E01.mkv", "/base/a/Season 01/a - S01E01.mkv", "a.S01E01.mkv", false),
            row("/base/c.S01E03.mkv", "/base/c/Season 01/c - S01E03.mkv", "c.S01E03.mkv", false),
        ]
    );
}

#[test]
fn every_kind_of_oracle_failure_is_recovered() {
    let disk = Disk::new(&["/b/1.mkv", "/b/2.mkv", "/b/3.mkv", "/b/4.mkv", "/b/5.S01E01.mkv"]);
    let oracle = |path: &str| {
        if path.ends_with("1.mkv") && !path.contains("S01") {
            Err(OracleError::OracleTimeout)
        } else if path.ends_with("2.mkv") {
            Err(OracleError::OracleNotFound)
        } else if path.ends_with("3.mkv") {
            Err(OracleError::OracleExecutionError("guessit failed: x".to_string()))
        } else if path.ends_with("4.mkv") {
            Err(OracleError::OracleParseError("eof".to_string()))
        } else {
            by_name(path)
        }
    };
    let (plan, _) = build(Media::TV, "/b", &disk, &oracle);
    let plan = plan.unwrap();
    assert_eq!(plan.unparseable_files, vec!["/b/1.mkv", "/b/2.mkv", "/b/3.mkv", "/b/4.mkv"]);
    assert_eq!(plan.operations.len(), 1);
}

#[test]
fn a_file_without_season_or_episode_is_unparseable() {
    let disk = Disk::new(&["/b/noseason.mkv", "/b/noepisode.mkv"]);
    let oracle = |path: &str| {
        let mut md = episode("X", 1, 1, ".mkv");
        if path.contains("noseason") {
            md.season = None;
        } else {
            md.episode = EpisodeValue::Other;
        }
        Ok(md)
    };
    let (plan, _) = build(Media::TV, "/b", &disk, &oracle);
    let plan = plan.unwrap();
    assert!(plan.operations.is_empty());
    assert_eq!(plan.unparseable_files, vec!["/b/noepisode.mkv", "/b/noseason.mkv"]);
}

#[test]
fn a_movie_needs_neither_season_nor_episode() {
    let disk = Disk::new(&["/m/heat.1995.mkv"]);
    let oracle = |_: &str| {
        Ok(GuessitMetadata {
            title: "Heat".to_string(),
            year: Some(1995),
            season: None,
            episode: EpisodeValue::Other,
            extension: ".mkv".to_string(),
        })
    };
    let (plan, _) = build(Media::Movie, "/m", &disk, &oracle);
    assert_eq!(
        summary(&plan.unwrap()),
        vec![row("/m/heat.1995.mkv", "/m/Heat (1995)/Heat (1995).mkv", "heat.1995.mkv", false)]
    );
}

#[test]
fn a_second_plan_after_the_moves_is_empty() {
    let mut disk = Disk::new(&[
        "/tv/Show.S01E01.mkv",
        "/tv/Show.S01E01.en.srt",
        "/tv/downloads/Show.S01E02.mkv",
        "/tv/downloads/Other.S02E05.mp4",
    ]);
    let (first, _) = build(Media::TV, "/tv", &disk, &by_name);
    let first = first.unwrap();
    assert_eq!(first.operations.len(), 4);
    assert!(first.unparseable_files.is_empty());
    let report = apply(&mut disk, first.operations).unwrap();
    assert!(report.contains("4/4 files moved"), "{}", report);
    assert!(disk.files.contains("/tv/Show/Season 01/Show - S01E01.mkv"));
    assert!(disk.files.contains("/tv/Show/Season 01/Show - S01E01.en.srt"));
    assert!(disk.files.contains("/tv/Other/Season 02/Other - S02E05.mp4"));
    let (second, _) = build(Media::TV, "/tv", &disk, &by_name);
    let second = second.unwrap();
    assert!(second.operations.is_empty(), "{:?}", second.operations);
    assert!(second.unparseable_files.is_empty());
}

#[test]
fn a_file_at_its_destination_is_passed_over() {
    let disk = Disk::new(&["/tv/Show/Season 01/Show - S01E01.mkv", "/tv/Show.S01E02.mkv"]);
    let (plan, _) = build(Media::TV, "/tv", &disk, &by_name);
    assert_eq!(
        summary(&plan.unwrap()),
        vec![row(
            "/tv/Show.S01E02.mkv",
            "/tv/Show/Season 01/Show - S01E02.mkv",
            "Show.S01E02.mkv",
            false
        )]
    );
}

#[test]
fn a_taken_destination_gives_way_to_a_numbered_one() {
    let disk = Disk::new(&[
        "/tv/new/Show.S01E01.mkv",
        "/tv/new/Show.S01E01.srt",
        "/tv/Show/Season 01/Show - S01E01.mkv",
        "/tv/Show/Season 01/Show - S01E01-1.srt",
    ]);
    let oracle = |path: &str| {
        if path.starts_with("/tv/new/") {
            by_name(path)
        } else {
            Err(OracleError::OracleTimeout)
        }
    };
    let (plan, _) = build(Media::TV, "/tv", &disk, &oracle);
    let plan = plan.unwrap();
    assert_eq!(
        summary(&plan),
        vec![
            row(
                "/tv/new/Show.S01E01.mkv",
                "/tv/Show/Season 01/Show - S01E01-1.mkv",
                "Show.S01E01.mkv",
                false
            ),
            row(
                "/tv/new/Show.S01E01.srt",
                "/tv/Show/Season 01/Show - S01E01-1-1.srt",
                "Show.S01E01.srt",
                true
            ),
        ]
    );
    assert_eq!(plan.unparseable_files, vec!["/tv/Show/Season 01/Show - S01E01.mkv"]);
}

#[test]
fn every_subtitle_follows_a_video() {
    let disk = Disk::new(&[
        "/tv/a/A.S01E01.mkv",
        "/tv/a/A.S01E01.srt",
        "/tv/a/A.S01E01.en.srt",
        "/tv/a/A.S01E02.mkv",
        "/tv/b/B.S01E01.mkv",
        "/tv/b/B.S01E01.fr.ass",
        "/tv/b/stray.srt",
    ]);
    let (plan, _) = build(Media::TV, "/tv", &disk, &by_name);
    let plan = plan.unwrap();
    let shape: Vec<(String, bool)> =
        plan.operations.iter().map(|o| (o.display_name.clone(), o.is_subtitle)).collect();
    assert_eq!(
        shape,
        vec![
            ("A.S01E01.mkv".to_string(), false),
            ("A.S01E01.en.srt".to_string(), true),
            ("A.S01E01.srt".to_string(), true),
            ("A.S01E02.mkv".to_string(), false),
            ("B.S01E01.mkv".to_string(), false),
            ("B.S01E01.fr.ass".to_string(), true),
        ]
    );
    let mut video: Option<&MoveOperation> = None;
    for op in &plan.operations {
        if op.is_subtitle {
            let v = video.expect("a subtitle follows a video");
            assert_eq!(parent(&op.target_path), parent(&v.target_path));
            assert_eq!(parent(&op.source_path), parent(&v.source_path));
        } else {
            video = Some(op);
        }
    }
}

#[test]
fn files_are_inferred_in_batches_of_ten_in_scan_order() {
    let names: Vec<String> = (0..25).map(|i| format!("/tv/d{}/X.S01E{:02}.mkv", i % 3, i)).collect();
    let refs: Vec<&str> = names.iter().map(|s| s.as_str()).collect();
    let disk = Disk::new(&refs);
    let (plan, trace) = build(Media::TV, "/tv", &disk, &by_name);
    let mut sorted = names.clone();
    sorted.sort();
    let sizes: Vec<usize> = trace.batches.iter().map(|b| b.len()).collect();
    assert_eq!(sizes, vec![10, 10, 5]);
    assert_eq!(BATCH_SIZE, 10);
    assert_eq!(trace.batches.concat(), sorted);
    let sources: Vec<String> =
        plan.unwrap().operations.iter().map(|o| o.source_path.clone()).collect();
    assert_eq!(sources, sorted);
}

#[test]
fn hidden_entries_are_not_scanned() {
    let disk = Disk::new(&[
        "/tv/.cache/X.S01E01.mkv",
        "/tv/.X.S01E02.mkv",
        "/tv/sub/X.S01E03.mkv",
        "/tv/sub/notes.txt",
    ]);
    let (plan, trace) = build(Media::TV, "/tv", &disk, &by_name);
    let sources: Vec<String> =
        plan.unwrap().operations.iter().map(|o| o.source_path.clone()).collect();
    assert_eq!(sources, vec!["/tv/sub/X.S01E03.mkv"]);
    assert!(!trace.listed.contains(&"/tv/.cache".to_string()));
}

#[test]
fn an_empty_tree_gives_an_empty_plan_without_asking_the_oracle() {
    let mut disk = Disk::new(&["/tv/readme.txt"]);
    disk.add_dir("/tv/empty");
    let oracle = |_: &str| -> Result<GuessitMetadata, OracleError> { panic!("not asked") };
    let (plan, trace) = build(Media::Movie, "/tv", &disk, &oracle);
    let plan = plan.unwrap();
    assert_eq!(plan.media_type, Media::Movie);
    assert!(plan.operations.is_empty());
    assert!(plan.unparseable_files.is_empty());
    assert!(trace.batches.is_empty());
}

#[test]
fn a_missing_base_fails_the_scan() {
    let disk = Disk::new(&["/tv/a.mkv"]);
    let (plan, _) = build(Media::TV, "/nowhere", &disk, &by_name);
    assert_eq!(plan.unwrap_err(), DirectoryError::Missing);
}

#[test]
fn a_base_that_is_a_file_fails_the_scan() {
    let disk = Disk::new(&["/tv/a.mkv"]);
    let (plan, _) = build(Media::TV, "/tv/a.mkv", &disk, &by_name);
    assert_eq!(plan.unwrap_err(), DirectoryError::NotADirectory);
}

#[test]
fn an_unreadable_directory_fails_the_scan() {
    let mut disk = Disk::new(&["/tv/a/X.S01E01.mkv", "/tv/b/X.S01E02.mkv"]);
    disk.unreadable.insert("/tv/b".to_string());
    let (plan, _) = build(Media::TV, "/tv", &disk, &by_name);
    assert_eq!(plan.unwrap_err(), DirectoryError::Unreadable);
}

#[test]
fn an_answer_of_the_wrong_kind_changes_nothing() {
    let builder = PlanBuilder::new(Media::TV, "/tv");
    let builder = builder.advance(BuildEvent::Exists(true));
    let builder = builder.advance(BuildEvent::Canonical(None));
    let builder = builder.advance(BuildEvent::Inferred(vec![]));
    match builder.request() {
        BuildAction::Stat(path) => assert_eq!(path, "/tv"),
        other => panic!("unexpected: {:?}", other),
    }
    let builder = builder.advance(BuildEvent::Kind(Some(EntryKind::Directory)));
    let builder = builder.advance(BuildEvent::Kind(None));
    match builder.request() {
        BuildAction::List(path) => assert_eq!(path, "/tv"),
        other => panic!("unexpected: {:?}", other),
    }
}

#[test]
fn answers_that_do_not_fit_the_batch_are_asked_again() {
    let builder = PlanBuilder::new(Media::TV, "/tv");
    let builder = builder.advance(BuildEvent::Kind(Some(EntryKind::Directory)));
    let listing = vec![
        DirEntry { path: "/tv/b.S01E01.mkv".to_string(), kind: EntryKind::File },
        DirEntry { path: "/tv/a.S01E01.mkv".to_string(), kind: EntryKind::File },
    ];
    let builder = builder.advance(BuildEvent::Listing(Some(listing)));
    let builder = builder.advance(BuildEvent::Inferred(vec![Err(OracleError::OracleTimeout)]));
    match builder.request() {
        BuildAction::Infer(files) => assert_eq!(files, vec!["/tv/a.S01E01.mkv", "/tv/b.S01E01.mkv"]),
        other => panic!("unexpected: {:?}", other),
    }
}

#[test]
fn an_unreadable_video_directory_has_no_subtitles() {
    let builder = PlanBuilder::new(Media::TV, "/tv");
    let builder = builder.advance(BuildEvent::Kind(Some(EntryKind::Directory)));
    let listing = vec![DirEntry { path: "/tv/a.S01E01.mkv".to_string(), kind: EntryKind::File }];
    let builder = builder.advance(BuildEvent::Listing(Some(listing)));
    let builder = builder.advance(BuildEvent::Inferred(vec![by_name("/tv/a.S01E01.mkv")]));
    let builder = builder.advance(BuildEvent::Canonical(Some("/tv/a.S01E01.mkv".to_string())));
    let builder = builder.advance(BuildEvent::Canonical(None));
    let builder = builder.advance(BuildEvent::Exists(false));
    match builder.request() {
        BuildAction::List(path) => assert_eq!(path, "/tv"),
        other => panic!("unexpected: {:?}", other),
    }
    let builder = builder.advance(BuildEvent::Listing(None));
    assert!(builder.is_finished());
    assert_eq!(builder.into_plan().unwrap().operations.len(), 1);
}

#[test]
fn the_scan_result_does_not_depend_on_listing_order() {
    let mut map: BTreeMap<&str, Vec<&str>> = BTreeMap::new();
    map.insert("forward", vec!["/tv/a.S01E01.mkv", "/tv/b.S01E02.mkv", "/tv/c.S01E03.mkv"]);
    map.insert("backward", vec!["/tv/c.S01E03.mkv", "/tv/b.S01E02.mkv", "/tv/a.S01E01.mkv"]);
    for (_, order) in map {
        let builder = PlanBuilder::new(Media::TV, "/tv");
        let builder = builder.advance(BuildEvent::Kind(Some(EntryKind::Directory)));
        let listing = order
            .iter()
            .map(|p| DirEntry { path: p.to_string(), kind: EntryKind::File })
            .collect();
        let builder = builder.advance(BuildEvent::Listing(Some(listing)));
        match builder.request() {
            BuildAction::Infer(files) => assert_eq!(
                files,
                vec!["/tv/a.S01E01.mkv", "/tv/b.S01E02.mkv", "/tv/c.S01E03.mkv"]
            ),
            other => panic!("unexpected: {:?}", other),
        }
    }
}
