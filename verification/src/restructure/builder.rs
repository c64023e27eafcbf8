//! Building a plan, one outside answer at a time.
//!
//! The builder never touches the file system or the metadata oracle. It says
//! what it needs to know next (`request`), is told the answer (`advance`), and
//! so goes from the scan of the base directory, through the inference of
//! metadata in batches, to the operations of each file: the video first, then
//! its subtitles. Whoever drives it performs the requests and hands the
//! answers back until the request is `Finished`.
//!
//! An answer that does not fit the request changes nothing: the request
//! stands until it is answered.

use vstd::prelude::*;
use crate::order::{sorted_texts, sort_strings};
use crate::paths::{ext_start, ext_start_of, file_name, file_name_of, name_start_of, parent_dir, parent_dir_of, stem};
use crate::text::{chars_of, string_of, push_all, slice_of};
use crate::transmission::Media;
use crate::restructure::collision::{candidate, candidate_path, resolve_collision, resolve_step, Resolution, ResolutionView};
use crate::restructure::listing::{DirEntry, DirEntryView, EntryKind, directories_to_scan, entry_views, files_to_keep, find_matching_subtitles, matching_subtitles, scanned_directories, scanned_files, video_extension_list, video_extensions};
use crate::restructure::metadata::{GuessitMetadata, MetadataView};
use crate::restructure::operations::{MoveOperation, MoveOperationView, PlanView, RestructurePlan, group_of, op_views, texts, videos_among, well_grouped};
use crate::restructure::oracle::OracleError;
use crate::restructure::pairing::{lemma_step_keeps_ties, paired, tied};
use crate::restructure::pathgen::{PathError, generate_movie_path, generate_tv_path, movie_path, tv_path_result};

verus! {

/// How many files are inferred at a time.
pub const BATCH_SIZE: usize = 10;

/// Why a directory tree could not be scanned.
#[derive(Clone, Copy, Debug, PartialEq, Eq, Structural)]
pub enum DirectoryError {
    /// The base directory does not exist.
    Missing,
    /// The base path is no directory.
    NotADirectory,
    /// A directory of the tree could not be read.
    Unreadable,
}

/// A file of the current batch that has a destination.
#[derive(Debug)]
pub struct Job {
    pub source: String,
    pub target: String,
}

/// A `Job` with its paths as character sequences.
pub struct JobView {
    pub source: Seq<char>,
    pub target: Seq<char>,
}

impl View for Job {
    type V = JobView;

    open spec fn view(&self) -> JobView {
        JobView { source: self.source@, target: self.target@ }
    }
}

/// The views of a list of jobs.
pub open spec fn job_views(jobs: Seq<Job>) -> Seq<JobView> {
    jobs.map_values(|j: Job| j@)
}

/// What the builder is waiting for.
#[derive(Debug)]
pub enum Stage {
    /// The kind of the base path.
    Root,
    /// The listing of the directory last in `pending`.
    Scanning,
    /// The metadata of the batch that begins at `next`.
    Inferring,
    /// The canonical path of the current job's source.
    SourceCanonical,
    /// The canonical path of the current job's target; the source's is held.
    TargetCanonical(String),
    /// Whether the name tried at this attempt for the video's target exists.
    VideoProbe(u32),
    /// The listing of the video's directory; the video's destination is held.
    Siblings(String),
    /// Whether the name tried for a subtitle's target exists.
    SubtitleProbe { video_target: String, subtitles: Vec<String>, index: usize, attempt: u32 },
    /// Nothing: the scan failed.
    Failed(DirectoryError),
    /// Nothing: the plan is complete.
    Done,
}

/// A `Stage` with its texts as character sequences.
pub enum StageView {
    Root,
    Scanning,
    Inferring,
    SourceCanonical,
    TargetCanonical(Seq<char>),
    VideoProbe(nat),
    Siblings(Seq<char>),
    SubtitleProbe { video_target: Seq<char>, subtitles: Seq<Seq<char>>, index: nat, attempt: nat },
    Failed(DirectoryError),
    Done,
}

impl View for Stage {
    type V = StageView;

    open spec fn view(&self) -> StageView {
        match *self {
            Stage::Root => StageView::Root,
            Stage::Scanning => StageView::Scanning,
            Stage::Inferring => StageView::Inferring,
            Stage::SourceCanonical => StageView::SourceCanonical,
            Stage::TargetCanonical(source) => StageView::TargetCanonical(source@),
            Stage::VideoProbe(attempt) => StageView::VideoProbe(attempt as nat),
            Stage::Siblings(video_target) => StageView::Siblings(video_target@),
            Stage::SubtitleProbe { video_target, subtitles, index, attempt } =>
                StageView::SubtitleProbe {
                    video_target: video_target@,
                    subtitles: texts(subtitles@),
                    index: index as nat,
                    attempt: attempt as nat,
                },
            Stage::Failed(e) => StageView::Failed(e),
            Stage::Done => StageView::Done,
        }
    }
}

/// The state of a plan under construction.
#[derive(Debug)]
pub struct PlanBuilder {
    pub media: Media,
    pub base: String,
    /// The operations planned so far.
    pub operations: Vec<MoveOperation>,
    /// The files found unplannable so far.
    pub unparseable: Vec<String>,
    /// The directories still to be listed; the last one is listed next.
    pub pending: Vec<String>,
    /// The video files: as found while the scan lasts, in ascending order after it.
    pub files: Vec<String>,
    /// Where in `files` the next batch begins.
    pub next: usize,
    /// The files of the current batch that have a destination, in order.
    pub jobs: Vec<Job>,
    /// The job being worked on.
    pub cursor: usize,
    pub stage: Stage,
}

/// A `PlanBuilder` with its texts as character sequences.
pub struct BuilderView {
    pub media: Media,
    pub base: Seq<char>,
    pub operations: Seq<MoveOperationView>,
    pub unparseable: Seq<Seq<char>>,
    pub pending: Seq<Seq<char>>,
    pub files: Seq<Seq<char>>,
    pub next: nat,
    pub jobs: Seq<JobView>,
    pub cursor: nat,
    pub stage: StageView,
}

impl View for PlanBuilder {
    type V = BuilderView;

    open spec fn view(&self) -> BuilderView {
        BuilderView {
            media: self.media,
            base: self.base@,
            operations: op_views(self.operations@),
            unparseable: texts(self.unparseable@),
            pending: texts(self.pending@),
            files: texts(self.files@),
            next: self.next as nat,
            jobs: job_views(self.jobs@),
            cursor: self.cursor as nat,
            stage: self.stage@,
        }
    }
}

/// What the builder asks of the outside.
#[derive(Debug)]
pub enum BuildAction {
    /// What is at this path: a file, a directory, something else, nothing?
    Stat(String),
    /// What does this directory hold?
    List(String),
    /// What does the oracle say of each of these files? They may be asked
    /// at the same time; the answers come back in the order of the files.
    Infer(Vec<String>),
    /// What is the canonical form of this path?
    Canonical(String),
    /// Does this path exist?
    Exists(String),
    /// Nothing more: the builder has come to its end.
    Finished,
}

/// A `BuildAction` with its texts as character sequences.
pub enum ActionView {
    Stat(Seq<char>),
    List(Seq<char>),
    Infer(Seq<Seq<char>>),
    Canonical(Seq<char>),
    Exists(Seq<char>),
    Finished,
}

impl View for BuildAction {
    type V = ActionView;

    open spec fn view(&self) -> ActionView {
        match *self {
            BuildAction::Stat(path) => ActionView::Stat(path@),
            BuildAction::List(path) => ActionView::List(path@),
            BuildAction::Infer(files) => ActionView::Infer(texts(files@)),
            BuildAction::Canonical(path) => ActionView::Canonical(path@),
            BuildAction::Exists(path) => ActionView::Exists(path@),
            BuildAction::Finished => ActionView::Finished,
        }
    }
}

/// What the outside answers.
#[derive(Debug)]
pub enum BuildEvent {
    /// To `Stat`: the kind of what is there, `None` where nothing is.
    Kind(Option<EntryKind>),
    /// To `List`: the entries, `None` where the directory could not be read.
    Listing(Option<Vec<DirEntry>>),
    /// To `Infer`: one answer for each file, in the order of the files.
    Inferred(Vec<Result<GuessitMetadata, OracleError>>),
    /// To `Canonical`: the canonical path, `None` where there is none.
    Canonical(Option<String>),
    /// To `Exists`.
    Exists(bool),
}

/// What an oracle answer holds for the builder: the metadata, if any.
pub open spec fn answer_view(answer: Result<GuessitMetadata, OracleError>) -> Option<MetadataView> {
    match answer {
        Ok(md) => Some(md@),
        Err(_) => None,
    }
}

/// A `BuildEvent` with its texts as character sequences.
pub enum EventView {
    Kind(Option<EntryKind>),
    Listing(Option<Seq<DirEntryView>>),
    Inferred(Seq<Option<MetadataView>>),
    Canonical(Option<Seq<char>>),
    Exists(bool),
}

impl View for BuildEvent {
    type V = EventView;

    open spec fn view(&self) -> EventView {
        match *self {
            BuildEvent::Kind(kind) => EventView::Kind(kind),
            BuildEvent::Listing(listing) => EventView::Listing(
                match listing {
                    Some(entries) => Some(entry_views(entries@)),
                    None => None,
                },
            ),
            BuildEvent::Inferred(answers) => EventView::Inferred(
                answers@.map_values(|a: Result<GuessitMetadata, OracleError>| answer_view(a)),
            ),
            BuildEvent::Canonical(path) => EventView::Canonical(
                match path {
                    Some(p) => Some(p@),
                    None => None,
                },
            ),
            BuildEvent::Exists(exists) => EventView::Exists(exists),
        }
    }
}

/// The destination of a file with the metadata `md`.
pub open spec fn destination(media: Media, base: Seq<char>, md: MetadataView) -> Result<
    Seq<char>,
    PathError,
> {
    match media {
        Media::TV => tv_path_result(base, md),
        Media::Movie => Ok(movie_path(base, md)),
    }
}

/// Whether the file with this answer gets a destination.
pub open spec fn is_plannable(media: Media, base: Seq<char>, answer: Option<MetadataView>) -> bool {
    answer is Some && destination(media, base, answer->0) is Ok
}

/// The jobs that the first `n` files of a batch give, in order: one for each
/// file whose metadata was inferred and yields a destination.
pub open spec fn planned(
    media: Media,
    base: Seq<char>,
    files: Seq<Seq<char>>,
    answers: Seq<Option<MetadataView>>,
    n: int,
) -> Seq<JobView>
    decreases n,
{
    if n <= 0 {
        Seq::empty()
    } else if is_plannable(media, base, answers[n - 1]) {
        planned(media, base, files, answers, n - 1).push(
            JobView {
                source: files[n - 1],
                target: destination(media, base, answers[n - 1]->0)->Ok_0,
            },
        )
    } else {
        planned(media, base, files, answers, n - 1)
    }
}

/// Those of the first `n` files of a batch that get no destination, in order.
pub open spec fn unplanned(
    media: Media,
    base: Seq<char>,
    files: Seq<Seq<char>>,
    answers: Seq<Option<MetadataView>>,
    n: int,
) -> Seq<Seq<char>>
    decreases n,
{
    if n <= 0 {
        Seq::empty()
    } else if is_plannable(media, base, answers[n - 1]) {
        unplanned(media, base, files, answers, n - 1)
    } else {
        unplanned(media, base, files, answers, n - 1).push(files[n - 1])
    }
}

/// Where the batch that begins at `next` ends.
pub open spec fn batch_end(b: BuilderView) -> nat {
    if b.next + BATCH_SIZE <= b.files.len() {
        b.next + BATCH_SIZE as nat
    } else {
        b.files.len()
    }
}

/// The files of the batch that begins at `next`: the next 10 at most.
pub open spec fn batch(b: BuilderView) -> Seq<Seq<char>> {
    if b.next <= b.files.len() {
        b.files.subrange(b.next as int, batch_end(b) as int)
    } else {
        Seq::empty()
    }
}

/// The job being worked on.
pub open spec fn current_job(b: BuilderView) -> JobView
    recommends
        b.cursor < b.jobs.len(),
{
    b.jobs[b.cursor as int]
}

/// The target first tried for a subtitle: in the directory of its video's
/// destination, the video's new stem, and after it what the subtitle's name
/// has after the video's old stem (`.en.srt`, say).
pub open spec fn subtitle_target(
    video_target: Seq<char>,
    video_source: Seq<char>,
    subtitle: Seq<char>,
) -> Seq<char> {
    video_target.take(ext_start(video_target)) + name_suffix(subtitle, video_source)
}

/// What the name of a subtitle has after the stem of its video; nothing
/// where the name is shorter than the stem.
pub open spec fn name_suffix(subtitle: Seq<char>, video_source: Seq<char>) -> Seq<char> {
    if stem(video_source).len() <= file_name(subtitle).len() {
        file_name(subtitle).skip(stem(video_source).len() as int)
    } else {
        Seq::empty()
    }
}

/// What the builder asks next.
pub open spec fn request_of(b: BuilderView) -> ActionView {
    match b.stage {
        StageView::Root => ActionView::Stat(b.base),
        StageView::Scanning => if b.pending.len() > 0 {
            ActionView::List(b.pending.last())
        } else {
            ActionView::List(b.base)
        },
        StageView::Inferring => ActionView::Infer(batch(b)),
        StageView::Failed(_) => ActionView::Finished,
        StageView::Done => ActionView::Finished,
        _ => if b.cursor >= b.jobs.len() {
            ActionView::Finished
        } else {
            match b.stage {
                StageView::SourceCanonical => ActionView::Canonical(current_job(b).source),
                StageView::TargetCanonical(_) => ActionView::Canonical(current_job(b).target),
                StageView::VideoProbe(attempt) => ActionView::Exists(
                    candidate(current_job(b).target, attempt),
                ),
                StageView::Siblings(_) => ActionView::List(parent_dir(current_job(b).source)),
                StageView::SubtitleProbe { video_target, subtitles, index, attempt } => if index
                    < subtitles.len() {
                    ActionView::Exists(
                        candidate(
                            subtitle_target(
                                video_target,
                                current_job(b).source,
                                subtitles[index as int],
                            ),
                            attempt,
                        ),
                    )
                } else {
                    ActionView::Finished
                },
                _ => ActionView::Finished,
            }
        },
    }
}

/// The builder at the start of the batch at `next`: waiting for its
/// metadata, or done where no file is left.
pub open spec fn begin_batch(b: BuilderView) -> BuilderView {
    BuilderView {
        jobs: Seq::empty(),
        cursor: 0,
        stage: if b.next < b.files.len() {
            StageView::Inferring
        } else {
            StageView::Done
        },
        ..b
    }
}

/// The builder at the start of the job at `cursor`; with no job left, at the
/// start of the next batch.
pub open spec fn start_job(b: BuilderView) -> BuilderView {
    if b.cursor < b.jobs.len() {
        BuilderView { stage: StageView::SourceCanonical, ..b }
    } else {
        begin_batch(b)
    }
}

/// The builder with its current job done.
pub open spec fn next_job(b: BuilderView) -> BuilderView {
    start_job(BuilderView { cursor: b.cursor + 1, ..b })
}

/// The builder at the start of the subtitle at `index`; with no subtitle
/// left, with its current job done.
pub open spec fn start_subtitle(
    b: BuilderView,
    video_target: Seq<char>,
    subtitles: Seq<Seq<char>>,
    index: nat,
) -> BuilderView {
    if index < subtitles.len() {
        BuilderView {
            stage: StageView::SubtitleProbe { video_target, subtitles, index, attempt: 0 },
            ..b
        }
    } else {
        next_job(b)
    }
}

/// After the kind of the base path is known: a directory is scanned,
/// anything else fails the scan.
pub open spec fn after_kind(b: BuilderView, kind: Option<EntryKind>) -> BuilderView {
    match kind {
        None => BuilderView { stage: StageView::Failed(DirectoryError::Missing), ..b },
        Some(EntryKind::Directory) => BuilderView {
            pending: seq![b.base],
            files: Seq::empty(),
            stage: StageView::Scanning,
            ..b
        },
        Some(_) => BuilderView { stage: StageView::Failed(DirectoryError::NotADirectory), ..b },
    }
}

/// `pending` without the directory that was just listed.
pub open spec fn others(pending: Seq<Seq<char>>) -> Seq<Seq<char>> {
    if pending.len() > 0 {
        pending.drop_last()
    } else {
        pending
    }
}

/// After a directory of the tree is listed: its video files are kept and its
/// directories are listed in their turn, hidden entries left aside. With no
/// directory left, the files are put in ascending order and the first batch
/// begins. A directory that could not be read fails the scan.
pub open spec fn after_scan_listing(b: BuilderView, listing: Option<Seq<DirEntryView>>) -> BuilderView {
    match listing {
        None => BuilderView { stage: StageView::Failed(DirectoryError::Unreadable), ..b },
        Some(entries) => {
            let pending = others(b.pending) + scanned_directories(entries);
            let files = b.files + scanned_files(entries, video_extensions());
            if pending.len() > 0 {
                BuilderView { pending, files, ..b }
            } else {
                begin_batch(BuilderView { pending, files: sorted_texts(files), next: 0, ..b })
            }
        },
    }
}

/// After the metadata of a batch arrived: the files without metadata or
/// without a destination are set down as unparseable, the others become the
/// jobs of the batch.
pub open spec fn after_inferred(b: BuilderView, answers: Seq<Option<MetadataView>>) -> BuilderView {
    if answers.len() != batch(b).len() {
        b
    } else {
        start_job(
            BuilderView {
                unparseable: b.unparseable + unplanned(
                    b.media,
                    b.base,
                    batch(b),
                    answers,
                    answers.len() as int,
                ),
                jobs: planned(b.media, b.base, batch(b), answers, answers.len() as int),
                cursor: 0,
                next: batch_end(b),
                ..b
            },
        )
    }
}

/// The canonical path that stands for `path`: the answer, or `path` itself
/// where there is none.
pub open spec fn canonical_or(answer: Option<Seq<char>>, path: Seq<char>) -> Seq<char> {
    match answer {
        Some(p) => p,
        None => path,
    }
}

/// After the source's canonical path is known: the target's is asked.
pub open spec fn after_source_canonical(b: BuilderView, answer: Option<Seq<char>>) -> BuilderView {
    BuilderView {
        stage: StageView::TargetCanonical(canonical_or(answer, current_job(b).source)),
        ..b
    }
}

/// After both canonical paths are known: a file that already lies at its
/// destination is passed over, with no operation and no complaint; for any
/// other a free destination is looked for.
pub open spec fn after_target_canonical(
    b: BuilderView,
    source: Seq<char>,
    answer: Option<Seq<char>>,
) -> BuilderView {
    if source == canonical_or(answer, current_job(b).target) {
        next_job(b)
    } else {
        BuilderView { stage: StageView::VideoProbe(0), ..b }
    }
}

/// The operation that moves a video to `target`.
pub open spec fn video_operation(source: Seq<char>, target: Seq<char>) -> MoveOperationView {
    MoveOperationView {
        source_path: source,
        target_path: target,
        display_name: file_name(source),
        is_subtitle: false,
    }
}

/// The operation that moves a subtitle to `target`.
pub open spec fn subtitle_operation(source: Seq<char>, target: Seq<char>) -> MoveOperationView {
    MoveOperationView {
        source_path: source,
        target_path: target,
        display_name: file_name(source),
        is_subtitle: true,
    }
}

/// After a probe for the video's destination: the next name is tried, or the
/// destination is settled; then the video's operation is planned and its
/// directory is listed for subtitles.
pub open spec fn after_video_probe(b: BuilderView, attempt: nat, exists: bool) -> BuilderView {
    match resolve_step(current_job(b).target, attempt, exists) {
        ResolutionView::Probe { path, attempt: next } => BuilderView {
            stage: StageView::VideoProbe(next),
            ..b
        },
        ResolutionView::Settled(target) => BuilderView {
            operations: b.operations.push(video_operation(current_job(b).source, target)),
            stage: StageView::Siblings(target),
            ..b
        },
    }
}

/// After the video's directory is listed: its subtitles are taken in
/// ascending order. A directory that could not be read has none.
pub open spec fn after_siblings(
    b: BuilderView,
    video_target: Seq<char>,
    listing: Option<Seq<DirEntryView>>,
) -> BuilderView {
    start_subtitle(
        b,
        video_target,
        match listing {
            Some(entries) => matching_subtitles(current_job(b).source, entries),
            None => Seq::empty(),
        },
        0,
    )
}

/// After a probe for a subtitle's destination: the next name is tried, or the
/// destination is settled; then the subtitle's operation is planned, right
/// after those of its video and of the subtitles before it.
pub open spec fn after_subtitle_probe(
    b: BuilderView,
    video_target: Seq<char>,
    subtitles: Seq<Seq<char>>,
    index: nat,
    attempt: nat,
    exists: bool,
) -> BuilderView {
    if index >= subtitles.len() {
        b
    } else {
        match resolve_step(
            subtitle_target(video_target, current_job(b).source, subtitles[index as int]),
            attempt,
            exists,
        ) {
            ResolutionView::Probe { path, attempt: next } => BuilderView {
                stage: StageView::SubtitleProbe { video_target, subtitles, index, attempt: next },
                ..b
            },
            ResolutionView::Settled(target) => start_subtitle(
                BuilderView {
                    operations: b.operations.push(
                        subtitle_operation(subtitles[index as int], target),
                    ),
                    ..b
                },
                video_target,
                subtitles,
                index + 1,
            ),
        }
    }
}

/// The builder after an answer. An answer of another kind than the one asked
/// for leaves it as it is.
pub open spec fn step(b: BuilderView, e: EventView) -> BuilderView {
    match (b.stage, e) {
        (StageView::Root, EventView::Kind(kind)) => after_kind(b, kind),
        (StageView::Scanning, EventView::Listing(listing)) => after_scan_listing(b, listing),
        (StageView::Inferring, EventView::Inferred(answers)) => after_inferred(b, answers),
        (StageView::SourceCanonical, EventView::Canonical(answer)) => if b.cursor < b.jobs.len() {
            after_source_canonical(b, answer)
        } else {
            b
        },
        (StageView::TargetCanonical(source), EventView::Canonical(answer)) => if b.cursor
            < b.jobs.len() {
            after_target_canonical(b, source, answer)
        } else {
            b
        },
        (StageView::VideoProbe(attempt), EventView::Exists(exists)) => if b.cursor < b.jobs.len() {
            after_video_probe(b, attempt, exists)
        } else {
            b
        },
        (StageView::Siblings(video_target), EventView::Listing(listing)) => if b.cursor
            < b.jobs.len() {
            after_siblings(b, video_target, listing)
        } else {
            b
        },
        (
            StageView::SubtitleProbe { video_target, subtitles, index, attempt },
            EventView::Exists(exists),
        ) => if b.cursor < b.jobs.len() {
            after_subtitle_probe(b, video_target, subtitles, index, attempt, exists)
        } else {
            b
        },
        _ => b,
    }
}

/// The builder before anything is known.
pub open spec fn initial(media: Media, base: Seq<char>) -> BuilderView {
    BuilderView {
        media,
        base,
        operations: Seq::empty(),
        unparseable: Seq::empty(),
        pending: Seq::empty(),
        files: Seq::empty(),
        next: 0,
        jobs: Seq::empty(),
        cursor: 0,
        stage: StageView::Root,
    }
}

/// The plan that the builder holds.
pub open spec fn plan_of(b: BuilderView) -> PlanView {
    PlanView { media_type: b.media, operations: b.operations, unparseable_files: b.unparseable }
}

/// What the builder has come to: the plan, or why the scan failed.
pub open spec fn outcome_of(b: BuilderView) -> Result<PlanView, DirectoryError> {
    match b.stage {
        StageView::Failed(e) => Err(e),
        _ => Ok(plan_of(b)),
    }
}

/// The texts of a list grown by one string.
proof fn lemma_texts_push(items: Seq<String>, item: String)
    ensures
        texts(items.push(item)) == texts(items).push(item@),
{
    assert(texts(items.push(item)) =~= texts(items).push(item@));
}

/// The texts of two lists put together.
proof fn lemma_texts_add(a: Seq<String>, b: Seq<String>)
    ensures
        texts(a + b) == texts(a) + texts(b),
{
    assert(texts(a + b) =~= texts(a) + texts(b));
}

/// The destination of a file with the metadata `metadata`.
pub fn destination_of(media: Media, base: &str, metadata: &GuessitMetadata) -> (r: Result<
    String,
    PathError,
>)
    ensures
        match destination(media, base@, metadata@) {
            Ok(path) => r is Ok && r->Ok_0@ == path,
            Err(e) => r == Err::<String, PathError>(e),
        },
{
    match media {
        Media::TV => generate_tv_path(base, metadata),
        Media::Movie => generate_movie_path(base, metadata),
    }
}

impl PlanBuilder {
    /// A builder for the tree under `base_path`, before anything is known.
    pub fn new(media: Media, base_path: &str) -> (b: PlanBuilder)
        ensures
            b@ == initial(media, base_path@),
            grouped(b@),
            tied(b@),
    {
        let b = PlanBuilder {
            media,
            base: string_of(&chars_of(base_path)),
            operations: Vec::new(),
            unparseable: Vec::new(),
            pending: Vec::new(),
            files: Vec::new(),
            next: 0,
            jobs: Vec::new(),
            cursor: 0,
            stage: Stage::Root,
        };
        assert(b@.operations =~= Seq::empty());
        assert(b@.unparseable =~= Seq::empty());
        assert(b@.pending =~= Seq::empty());
        assert(b@.files =~= Seq::empty());
        assert(b@.jobs =~= Seq::empty());
        b
    }

    fn batch_stop(&self) -> (end: usize)
        ensures
            end as nat == batch_end(self@),
            end <= self.files.len(),
            self.next <= self.files.len() ==> self.next <= end,
    {
        if self.next <= self.files.len() && self.files.len() - self.next >= BATCH_SIZE {
            self.next + BATCH_SIZE
        } else {
            self.files.len()
        }
    }

    fn batch_files(&self) -> (out: Vec<String>)
        ensures
            texts(out@) == batch(self@),
    {
        let mut out: Vec<String> = Vec::new();
        if self.next > self.files.len() {
            assert(texts(out@) =~= batch(self@));
            return out;
        }
        let end = self.batch_stop();
        let mut i: usize = self.next;
        assert(texts(out@) =~= self@.files.subrange(self.next as int, i as int));
        while i < end
            invariant
                self.next <= i <= end <= self.files.len(),
                texts(out@) == self@.files.subrange(self.next as int, i as int),
            decreases end - i,
        {
            let ghost before = out@;
            out.push(self.files[i].clone());
            proof {
                lemma_texts_push(before, self.files@[i as int]);
                assert(self@.files.subrange(self.next as int, i as int).push(self@.files[i as int])
                    =~= self@.files.subrange(self.next as int, i + 1));
            }
            i += 1;
        }
        out
    }

    /// What the builder needs to know next.
    pub fn request(&self) -> (a: BuildAction)
        ensures
            a@ == request_of(self@),
    {
        match &self.stage {
            Stage::Root => BuildAction::Stat(self.base.clone()),
            Stage::Scanning => {
                if self.pending.len() > 0 {
                    BuildAction::List(self.pending[self.pending.len() - 1].clone())
                } else {
                    BuildAction::List(self.base.clone())
                }
            },
            Stage::Inferring => BuildAction::Infer(self.batch_files()),
            Stage::Failed(_) => BuildAction::Finished,
            Stage::Done => BuildAction::Finished,
            Stage::SourceCanonical => {
                if self.cursor >= self.jobs.len() {
                    BuildAction::Finished
                } else {
                    BuildAction::Canonical(self.jobs[self.cursor].source.clone())
                }
            },
            Stage::TargetCanonical(_) => {
                if self.cursor >= self.jobs.len() {
                    BuildAction::Finished
                } else {
                    BuildAction::Canonical(self.jobs[self.cursor].target.clone())
                }
            },
            Stage::VideoProbe(attempt) => {
                if self.cursor >= self.jobs.len() {
                    BuildAction::Finished
                } else {
                    BuildAction::Exists(
                        candidate_path(self.jobs[self.cursor].target.as_str(), *attempt),
                    )
                }
            },
            Stage::Siblings(_) => {
                if self.cursor >= self.jobs.len() {
                    BuildAction::Finished
                } else {
                    BuildAction::List(parent_dir_of(self.jobs[self.cursor].source.as_str()))
                }
            },
            Stage::SubtitleProbe { video_target, subtitles, index, attempt } => {
                if self.cursor >= self.jobs.len() || *index >= subtitles.len() {
                    BuildAction::Finished
                } else {
                    let target = subtitle_target_of(
                        video_target.as_str(),
                        self.jobs[self.cursor].source.as_str(),
                        subtitles[*index].as_str(),
                    );
                    BuildAction::Exists(candidate_path(target.as_str(), *attempt))
                }
            },
        }
    }

    /// Whether the builder has come to its end.
    pub fn is_finished(&self) -> (r: bool)
        ensures
            r == (request_of(self@) is Finished),
    {
        match &self.stage {
            Stage::Root => false,
            Stage::Scanning => false,
            Stage::Inferring => false,
            Stage::Failed(_) => true,
            Stage::Done => true,
            Stage::SubtitleProbe { video_target, subtitles, index, attempt } => self.cursor
                >= self.jobs.len() || *index >= subtitles.len(),
            _ => self.cursor >= self.jobs.len(),
        }
    }

    fn begin_batch(self) -> (b: PlanBuilder)
        ensures
            b@ == begin_batch(self@),
    {
        let more = self.next < self.files.len();
        let b = PlanBuilder {
            media: self.media,
            base: self.base,
            operations: self.operations,
            unparseable: self.unparseable,
            pending: self.pending,
            files: self.files,
            next: self.next,
            jobs: Vec::new(),
            cursor: 0,
            stage: if more {
                Stage::Inferring
            } else {
                Stage::Done
            },
        };
        assert(b@.jobs =~= Seq::empty());
        b
    }

    fn start_job(self) -> (b: PlanBuilder)
        ensures
            b@ == start_job(self@),
    {
        if self.cursor < self.jobs.len() {
            PlanBuilder {
                media: self.media,
                base: self.base,
                operations: self.operations,
                unparseable: self.unparseable,
                pending: self.pending,
                files: self.files,
                next: self.next,
                jobs: self.jobs,
                cursor: self.cursor,
                stage: Stage::SourceCanonical,
            }
        } else {
            self.begin_batch()
        }
    }

    fn next_job(self) -> (b: PlanBuilder)
        requires
            self.cursor < self.jobs.len(),
        ensures
            b@ == next_job(self@),
    {
        let b = PlanBuilder {
            media: self.media,
            base: self.base,
            operations: self.operations,
            unparseable: self.unparseable,
            pending: self.pending,
            files: self.files,
            next: self.next,
            jobs: self.jobs,
            cursor: self.cursor + 1,
            stage: self.stage,
        };
        b.start_job()
    }

    fn start_subtitle(self, video_target: String, subtitles: Vec<String>, index: usize) -> (b:
        PlanBuilder)
        requires
            self.cursor < self.jobs.len(),
        ensures
            b@ == start_subtitle(self@, video_target@, texts(subtitles@), index as nat),
    {
        if index < subtitles.len() {
            PlanBuilder {
                media: self.media,
                base: self.base,
                operations: self.operations,
                unparseable: self.unparseable,
                pending: self.pending,
                files: self.files,
                next: self.next,
                jobs: self.jobs,
                cursor: self.cursor,
                stage: Stage::SubtitleProbe { video_target, subtitles, index, attempt: 0 },
            }
        } else {
            self.next_job()
        }
    }

    fn with_stage(self, stage: Stage) -> (b: PlanBuilder)
        ensures
            b@ == (BuilderView { stage: stage@, ..self@ }),
    {
        PlanBuilder {
            media: self.media,
            base: self.base,
            operations: self.operations,
            unparseable: self.unparseable,
            pending: self.pending,
            files: self.files,
            next: self.next,
            jobs: self.jobs,
            cursor: self.cursor,
            stage,
        }
    }

    fn with_operation(self, op: MoveOperation) -> (b: PlanBuilder)
        ensures
            b@ == (BuilderView { operations: self@.operations.push(op@), ..self@ }),
    {
        let mut operations = self.operations;
        let ghost before = operations@;
        operations.push(op);
        assert(op_views(operations@) =~= op_views(before).push(op@));
        PlanBuilder {
            media: self.media,
            base: self.base,
            operations,
            unparseable: self.unparseable,
            pending: self.pending,
            files: self.files,
            next: self.next,
            jobs: self.jobs,
            cursor: self.cursor,
            stage: self.stage,
        }
    }

    fn after_kind(self, kind: Option<EntryKind>) -> (b: PlanBuilder)
        ensures
            b@ == after_kind(self@, kind),
    {
        match kind {
            None => self.with_stage(Stage::Failed(DirectoryError::Missing)),
            Some(EntryKind::Directory) => {
                let mut pending: Vec<String> = Vec::new();
                pending.push(self.base.clone());
                let b = PlanBuilder {
                    media: self.media,
                    base: self.base,
                    operations: self.operations,
                    unparseable: self.unparseable,
                    pending,
                    files: Vec::new(),
                    next: self.next,
                    jobs: self.jobs,
                    cursor: self.cursor,
                    stage: Stage::Scanning,
                };
                assert(b@.pending =~= seq![self@.base]);
                assert(b@.files =~= Seq::empty());
                b
            },
            Some(_) => self.with_stage(Stage::Failed(DirectoryError::NotADirectory)),
        }
    }

    fn after_scan_listing(self, listing: Option<Vec<DirEntry>>) -> (b: PlanBuilder)
        ensures
            b@ == after_scan_listing(
                self@,
                match listing {
                    Some(entries) => Some(entry_views(entries@)),
                    None => None,
                },
            ),
    {
        match listing {
            None => self.with_stage(Stage::Failed(DirectoryError::Unreadable)),
            Some(entries) => {
                let ghost old_pending = self.pending@;
                let ghost old_files = self.files@;
                let mut pending = self.pending;
                pending.pop();
                assert(texts(pending@) =~= others(texts(old_pending)));
                let mut found = directories_to_scan(&entries);
                proof {
                    lemma_texts_add(pending@, found@);
                }
                pending.append(&mut found);
                let mut files = self.files;
                let mut kept = files_to_keep(&entries, &video_extension_list());
                proof {
                    lemma_texts_add(files@, kept@);
                }
                files.append(&mut kept);
                if pending.len() > 0 {
                    PlanBuilder {
                        media: self.media,
                        base: self.base,
                        operations: self.operations,
                        unparseable: self.unparseable,
                        pending,
                        files,
                        next: self.next,
                        jobs: self.jobs,
                        cursor: self.cursor,
                        stage: self.stage,
                    }
                } else {
                    let b = PlanBuilder {
                        media: self.media,
                        base: self.base,
                        operations: self.operations,
                        unparseable: self.unparseable,
                        pending,
                        files: sort_strings(files),
                        next: 0,
                        jobs: self.jobs,
                        cursor: self.cursor,
                        stage: self.stage,
                    };
                    b.begin_batch()
                }
            },
        }
    }

    fn after_inferred(self, answers: Vec<Result<GuessitMetadata, OracleError>>) -> (b: PlanBuilder)
        ensures
            b@ == after_inferred(
                self@,
                answers@.map_values(|a: Result<GuessitMetadata, OracleError>| answer_view(a)),
            ),
    {
        let ghost views = answers@.map_values(
            |a: Result<GuessitMetadata, OracleError>| answer_view(a),
        );
        let files = self.batch_files();
        if answers.len() != files.len() {
            return self;
        }
        let end = self.batch_stop();
        let ghost old_unparseable = self.unparseable@;
        let mut unparseable = self.unparseable;
        let mut jobs: Vec<Job> = Vec::new();
        let mut i: usize = 0;
        assert(job_views(jobs@) =~= planned(self.media, self.base@, texts(files@), views, 0));
        assert(texts(unparseable@) =~= texts(old_unparseable) + unplanned(
            self.media,
            self.base@,
            texts(files@),
            views,
            0,
        ));
        while i < files.len()
            invariant
                i <= files.len(),
                answers.len() == files.len(),
                views == answers@.map_values(
                    |a: Result<GuessitMetadata, OracleError>| answer_view(a),
                ),
                job_views(jobs@) == planned(
                    self.media,
                    self.base@,
                    texts(files@),
                    views,
                    i as int,
                ),
                texts(unparseable@) == texts(old_unparseable) + unplanned(
                    self.media,
                    self.base@,
                    texts(files@),
                    views,
                    i as int,
                ),
            decreases files.len() - i,
        {
            let ghost jobs_before = jobs@;
            let ghost failed_before = unparseable@;
            assert(views[i as int] == answer_view(answers@[i as int]));
            let target = match &answers[i] {
                Ok(md) => match destination_of(self.media, self.base.as_str(), md) {
                    Ok(path) => Some(path),
                    Err(_) => None,
                },
                Err(_) => None,
            };
            match target {
                Some(path) => {
                    let job = Job { source: files[i].clone(), target: path };
                    jobs.push(job);
                    assert(job_views(jobs@) =~= job_views(jobs_before).push(job@));
                },
                None => {
                    unparseable.push(files[i].clone());
                    proof {
                        lemma_texts_push(failed_before, files@[i as int]);
                        assert(texts(unparseable@) =~= texts(old_unparseable) + unplanned(
                            self.media,
                            self.base@,
                            texts(files@),
                            views,
                            i + 1,
                        ));
                    }
                },
            }
            i += 1;
        }
        let b = PlanBuilder {
            media: self.media,
            base: self.base,
            operations: self.operations,
            unparseable,
            pending: self.pending,
            files: self.files,
            next: end,
            jobs,
            cursor: 0,
            stage: self.stage,
        };
        b.start_job()
    }

    fn after_video_probe(self, attempt: u32, exists: bool) -> (b: PlanBuilder)
        requires
            self.cursor < self.jobs.len(),
        ensures
            b@ == after_video_probe(self@, attempt as nat, exists),
    {
        assert(self@.jobs[self.cursor as int] == self.jobs@[self.cursor as int]@);
        match resolve_collision(self.jobs[self.cursor].target.as_str(), attempt, exists) {
            Resolution::Probe { path, attempt: next } => self.with_stage(Stage::VideoProbe(next)),
            Resolution::Settled(target) => {
                let source = self.jobs[self.cursor].source.clone();
                let op = MoveOperation {
                    display_name: file_name_of(source.as_str()),
                    source_path: source,
                    target_path: target,
                    is_subtitle: false,
                };
                let video_target = op.target_path.clone();
                self.with_operation(op).with_stage(Stage::Siblings(video_target))
            },
        }
    }

    fn after_siblings(self, video_target: String, listing: Option<Vec<DirEntry>>) -> (b: PlanBuilder)
        requires
            self.cursor < self.jobs.len(),
        ensures
            b@ == after_siblings(
                self@,
                video_target@,
                match listing {
                    Some(entries) => Some(entry_views(entries@)),
                    None => None,
                },
            ),
    {
        assert(self@.jobs[self.cursor as int] == self.jobs@[self.cursor as int]@);
        let subtitles = match listing {
            Some(entries) => find_matching_subtitles(
                self.jobs[self.cursor].source.as_str(),
                &entries,
            ),
            None => {
                let none: Vec<String> = Vec::new();
                assert(texts(none@) =~= Seq::empty());
                none
            },
        };
        self.start_subtitle(video_target, subtitles, 0)
    }

    /// The builder after a probe for the target of the subtitle at `index`.
    /// The stage is given by the arguments; that of `self` is of no account.
    fn after_subtitle_probe(
        self,
        video_target: String,
        subtitles: Vec<String>,
        index: usize,
        attempt: u32,
        exists: bool,
    ) -> (b: PlanBuilder)
        requires
            self.cursor < self.jobs.len(),
            index < subtitles.len(),
        ensures
            b@ == after_subtitle_probe(
                (BuilderView {
                    stage: StageView::SubtitleProbe {
                        video_target: video_target@,
                        subtitles: texts(subtitles@),
                        index: index as nat,
                        attempt: attempt as nat,
                    },
                    ..self@
                }),
                video_target@,
                texts(subtitles@),
                index as nat,
                attempt as nat,
                exists,
            ),
    {
        let first = subtitle_target_of(
            video_target.as_str(),
            self.jobs[self.cursor].source.as_str(),
            subtitles[index].as_str(),
        );
        assert(texts(subtitles@)[index as int] == subtitles@[index as int]@);
        assert(self@.jobs[self.cursor as int] == self.jobs@[self.cursor as int]@);
        match resolve_collision(first.as_str(), attempt, exists) {
            Resolution::Probe { path, attempt: next } => self.with_stage(
                Stage::SubtitleProbe { video_target, subtitles, index, attempt: next },
            ),
            Resolution::Settled(target) => {
                let source = subtitles[index].clone();
                let op = MoveOperation {
                    display_name: file_name_of(source.as_str()),
                    source_path: source,
                    target_path: target,
                    is_subtitle: true,
                };
                self.with_operation(op).start_subtitle(video_target, subtitles, index + 1)
            },
        }
    }

    /// Takes the answer to the last request.
    pub fn advance(self, event: BuildEvent) -> (b: PlanBuilder)
        ensures
            b@ == step(self@, event@),
            grouped(self@) ==> grouped(b@),
            tied(self@) ==> tied(b@),
    {
        proof {
            if grouped(self@) {
                lemma_step_keeps_grouping(self@, event@);
            }
            if tied(self@) {
                lemma_step_keeps_ties(self@, event@);
            }
        }
        let in_job = self.cursor < self.jobs.len();
        let PlanBuilder {
            media,
            base,
            operations,
            unparseable,
            pending,
            files,
            next,
            jobs,
            cursor,
            stage,
        } = self;
        match stage {
            Stage::Root => {
                let b = PlanBuilder {
                    media, base, operations, unparseable, pending, files, next, jobs, cursor,
                    stage: Stage::Root,
                };
                match event {
                    BuildEvent::Kind(kind) => b.after_kind(kind),
                    _ => b,
                }
            },
            Stage::Scanning => {
                let b = PlanBuilder {
                    media, base, operations, unparseable, pending, files, next, jobs, cursor,
                    stage: Stage::Scanning,
                };
                match event {
                    BuildEvent::Listing(listing) => b.after_scan_listing(listing),
                    _ => b,
                }
            },
            Stage::Inferring => {
                let b = PlanBuilder {
                    media, base, operations, unparseable, pending, files, next, jobs, cursor,
                    stage: Stage::Inferring,
                };
                match event {
                    BuildEvent::Inferred(answers) => b.after_inferred(answers),
                    _ => b,
                }
            },
            Stage::SourceCanonical => {
                let b = PlanBuilder {
                    media, base, operations, unparseable, pending, files, next, jobs, cursor,
                    stage: Stage::SourceCanonical,
                };
                match event {
                    BuildEvent::Canonical(answer) => {
                        if in_job {
                            assert(b@.jobs[b.cursor as int] == b.jobs@[b.cursor as int]@);
                            let source = match answer {
                                Some(path) => path,
                                None => b.jobs[b.cursor].source.clone(),
                            };
                            b.with_stage(Stage::TargetCanonical(source))
                        } else {
                            b
                        }
                    },
                    _ => b,
                }
            },
            Stage::TargetCanonical(source) => {
                match event {
                    BuildEvent::Canonical(answer) => {
                        if in_job {
                            assert(job_views(jobs@)[cursor as int] == jobs@[cursor as int]@);
                            let same = match answer {
                                Some(path) => source == path,
                                None => source == jobs[cursor].target,
                            };
                            let b = PlanBuilder {
                                media, base, operations, unparseable, pending, files, next, jobs,
                                cursor,
                                stage: Stage::TargetCanonical(source),
                            };
                            if same {
                                b.next_job()
                            } else {
                                b.with_stage(Stage::VideoProbe(0))
                            }
                        } else {
                            PlanBuilder {
                                media, base, operations, unparseable, pending, files, next, jobs,
                                cursor,
                                stage: Stage::TargetCanonical(source),
                            }
                        }
                    },
                    _ => PlanBuilder {
                        media, base, operations, unparseable, pending, files, next, jobs, cursor,
                        stage: Stage::TargetCanonical(source),
                    },
                }
            },
            Stage::VideoProbe(attempt) => {
                let b = PlanBuilder {
                    media, base, operations, unparseable, pending, files, next, jobs, cursor,
                    stage: Stage::VideoProbe(attempt),
                };
                match event {
                    BuildEvent::Exists(exists) => {
                        if in_job {
                            b.after_video_probe(attempt, exists)
                        } else {
                            b
                        }
                    },
                    _ => b,
                }
            },
            Stage::Siblings(video_target) => {
                match event {
                    BuildEvent::Listing(listing) => {
                        if in_job {
                            let b = PlanBuilder {
                                media, base, operations, unparseable, pending, files, next, jobs,
                                cursor,
                                stage: Stage::Siblings(video_target.clone()),
                            };
                            b.after_siblings(video_target, listing)
                        } else {
                            PlanBuilder {
                                media, base, operations, unparseable, pending, files, next, jobs,
                                cursor,
                                stage: Stage::Siblings(video_target),
                            }
                        }
                    },
                    _ => PlanBuilder {
                        media, base, operations, unparseable, pending, files, next, jobs, cursor,
                        stage: Stage::Siblings(video_target),
                    },
                }
            },
            Stage::SubtitleProbe { video_target, subtitles, index, attempt } => {
                match event {
                    BuildEvent::Exists(exists) => {
                        if in_job && index < subtitles.len() {
                            let b = PlanBuilder {
                                media, base, operations, unparseable, pending, files, next, jobs,
                                cursor,
                                stage: Stage::Done,
                            };
                            b.after_subtitle_probe(video_target, subtitles, index, attempt, exists)
                        } else {
                            PlanBuilder {
                                media, base, operations, unparseable, pending, files, next, jobs,
                                cursor,
                                stage: Stage::SubtitleProbe { video_target, subtitles, index, attempt },
                            }
                        }
                    },
                    _ => PlanBuilder {
                        media, base, operations, unparseable, pending, files, next, jobs, cursor,
                        stage: Stage::SubtitleProbe { video_target, subtitles, index, attempt },
                    },
                }
            },
            Stage::Failed(e) => PlanBuilder {
                media, base, operations, unparseable, pending, files, next, jobs, cursor,
                stage: Stage::Failed(e),
            },
            Stage::Done => PlanBuilder {
                media, base, operations, unparseable, pending, files, next, jobs, cursor,
                stage: Stage::Done,
            },
        }
    }

    /// The plan that was built, or why the scan failed.
    pub fn into_plan(self) -> (r: Result<RestructurePlan, DirectoryError>)
        ensures
            match outcome_of(self@) {
                Ok(plan) => r is Ok && r->Ok_0@ == plan,
                Err(e) => r == Err::<RestructurePlan, DirectoryError>(e),
            },
            grouped(self@) && r is Ok ==> well_grouped(r->Ok_0@.operations),
            tied(self@) && r is Ok ==> paired(r->Ok_0@.operations),
    {
        match self.stage {
            Stage::Failed(e) => Err(e),
            _ => Ok(
                RestructurePlan {
                    media_type: self.media,
                    operations: self.operations,
                    unparseable_files: self.unparseable,
                },
            ),
        }
    }
}

/// The target first tried for a subtitle of the video that goes from
/// `video_source` to `video_target`.
pub fn subtitle_target_of(video_target: &str, video_source: &str, subtitle: &str) -> (out: String)
    ensures
        out@ == subtitle_target(video_target@, video_source@, subtitle@),
{
    let target = chars_of(video_target);
    let source = chars_of(video_source);
    let sub = chars_of(subtitle);
    let kept = name_start_of(&source);
    let old_stem = ext_start_of(&source) - kept;
    assert(stem(video_source@).len() == old_stem);
    let name = name_start_of(&sub);
    let tail = slice_of(&sub, name, sub.len());
    assert(tail@ =~= file_name(subtitle@));
    let rest = if tail.len() >= old_stem {
        slice_of(&tail, old_stem, tail.len())
    } else {
        Vec::new()
    };
    assert(rest@ =~= name_suffix(subtitle@, video_source@));
    let mut out = slice_of(&target, 0, ext_start_of(&target));
    push_all(&mut out, &rest);
    string_of(&out)
}

/// Whether a video's operation is the last video planned and its subtitles
/// may follow: the stages between the video's operation and the end of its job.
pub open spec fn in_group(b: BuilderView) -> bool {
    b.stage is Siblings || b.stage is SubtitleProbe
}

/// The grouping that every builder keeps: each operation planned so far
/// belongs to a group, and where subtitles may follow, a video was planned.
pub open spec fn grouped(b: BuilderView) -> bool {
    well_grouped(b.operations) && (in_group(b) ==> b.operations.len() > 0)
}

proof fn lemma_videos_among_push(ops: Seq<MoveOperationView>, op: MoveOperationView, n: int)
    requires
        n <= ops.len(),
    ensures
        videos_among(ops.push(op), n) == videos_among(ops, n),
    decreases n,
{
    if n > 0 {
        lemma_videos_among_push(ops, op, n - 1);
    }
}

/// A video may follow any well-grouped operations; a subtitle may follow
/// them where there are any.
pub proof fn lemma_push_keeps_grouping(ops: Seq<MoveOperationView>, op: MoveOperationView)
    requires
        well_grouped(ops),
        op.is_subtitle ==> ops.len() > 0,
    ensures
        well_grouped(ops.push(op)),
{
    let grown = ops.push(op);
    assert forall|i: int| 0 <= i < grown.len() implies #[trigger] group_of(grown, i) >= 1 by {
        if i < ops.len() {
            lemma_videos_among_push(ops, op, i + 1);
            assert(group_of(ops, i) >= 1);
        } else {
            lemma_videos_among_push(ops, op, i);
            if op.is_subtitle {
                assert(group_of(ops, i - 1) >= 1);
            }
        }
    }
}

/// A builder starts grouped.
pub proof fn lemma_initial_is_grouped(media: Media, base: Seq<char>)
    ensures
        grouped(initial(media, base)),
{
}

/// Whatever the answer, a grouped builder stays grouped: in every plan that
/// is built, each subtitle operation follows a video operation, with nothing
/// but subtitles of that video between them.
pub proof fn lemma_step_keeps_grouping(b: BuilderView, e: EventView)
    requires
        grouped(b),
    ensures
        grouped(step(b, e)),
{
    match (b.stage, e) {
        (StageView::VideoProbe(attempt), EventView::Exists(exists)) => {
            if b.cursor < b.jobs.len() {
                match resolve_step(current_job(b).target, attempt, exists) {
                    ResolutionView::Settled(target) => {
                        lemma_push_keeps_grouping(
                            b.operations,
                            video_operation(current_job(b).source, target),
                        );
                    },
                    _ => {},
                }
            }
        },
        (
            StageView::SubtitleProbe { video_target, subtitles, index, attempt },
            EventView::Exists(exists),
        ) => {
            if b.cursor < b.jobs.len() && index < subtitles.len() {
                match resolve_step(
                    subtitle_target(video_target, current_job(b).source, subtitles[index as int]),
                    attempt,
                    exists,
                ) {
                    ResolutionView::Settled(target) => {
                        lemma_push_keeps_grouping(
                            b.operations,
                            subtitle_operation(subtitles[index as int], target),
                        );
                    },
                    _ => {},
                }
            }
        },
        _ => {},
    }
}

/// A file that already lies at its destination is passed over: the answer
/// that shows it adds no operation and no unparseable file.
pub proof fn lemma_placed_file_is_passed_over(b: BuilderView, answer: Option<Seq<char>>)
    requires
        b.stage is TargetCanonical,
        b.cursor < b.jobs.len(),
        b.stage->TargetCanonical_0 == canonical_or(answer, current_job(b).target),
    ensures
        step(b, EventView::Canonical(answer)).operations == b.operations,
        step(b, EventView::Canonical(answer)).unparseable == b.unparseable,
        !(step(b, EventView::Canonical(answer)).stage is VideoProbe),
{
}

/// Every file of a batch becomes a job or is set down as unparseable, never both.
pub proof fn lemma_batch_is_split(
    media: Media,
    base: Seq<char>,
    files: Seq<Seq<char>>,
    answers: Seq<Option<MetadataView>>,
    n: int,
)
    requires
        0 <= n <= files.len(),
        n <= answers.len(),
    ensures
        planned(media, base, files, answers, n).len() + unplanned(
            media,
            base,
            files,
            answers,
            n,
        ).len() == n,
        forall|k: int|
            0 <= k < n && !is_plannable(media, base, #[trigger] answers[k]) ==> unplanned(
                media,
                base,
                files,
                answers,
                n,
            ).contains(files[k]),
        forall|k: int|
            0 <= k < n && is_plannable(media, base, #[trigger] answers[k]) ==> planned(
                media,
                base,
                files,
                answers,
                n,
            ).contains(
                JobView { source: files[k], target: destination(media, base, answers[k]->0)->Ok_0 },
            ),
    decreases n,
{
    if n > 0 {
        lemma_batch_is_split(media, base, files, answers, n - 1);
        let jobs = planned(media, base, files, answers, n);
        let failed = unplanned(media, base, files, answers, n);
        let jobs_before = planned(media, base, files, answers, n - 1);
        let failed_before = unplanned(media, base, files, answers, n - 1);
        assert forall|k: int|
            0 <= k < n && !is_plannable(media, base, #[trigger] answers[k]) implies failed.contains(
            files[k],
        ) by {
            if k == n - 1 {
                assert(failed[failed.len() - 1] == files[k]);
            } else {
                let j = choose|j: int| 0 <= j < failed_before.len() && failed_before[j] == files[k];
                assert(failed[j] == files[k]);
            }
        }
        assert forall|k: int|
            0 <= k < n && is_plannable(media, base, #[trigger] answers[k]) implies jobs.contains(
            JobView { source: files[k], target: destination(media, base, answers[k]->0)->Ok_0 },
        ) by {
            let job = JobView {
                source: files[k],
                target: destination(media, base, answers[k]->0)->Ok_0,
            };
            if k == n - 1 {
                assert(jobs[jobs.len() - 1] == job);
            } else {
                let j = choose|j: int| 0 <= j < jobs_before.len() && jobs_before[j] == job;
                assert(jobs[j] == job);
            }
        }
    }
}

/// A file whose inference failed, or whose metadata yields no destination,
/// is set down as unparseable when the answers of its batch arrive; the
/// answers plan no operation.
pub proof fn lemma_failed_inference_is_unparseable(
    b: BuilderView,
    answers: Seq<Option<MetadataView>>,
    k: int,
)
    requires
        b.stage is Inferring,
        answers.len() == batch(b).len(),
        0 <= k < answers.len(),
        !is_plannable(b.media, b.base, answers[k]),
    ensures
        step(b, EventView::Inferred(answers)).unparseable.contains(batch(b)[k]),
        step(b, EventView::Inferred(answers)).operations == b.operations,
{
    lemma_batch_is_split(b.media, b.base, batch(b), answers, answers.len() as int);
    let failed = unplanned(b.media, b.base, batch(b), answers, answers.len() as int);
    let j = choose|j: int| 0 <= j < failed.len() && failed[j] == batch(b)[k];
    assert((b.unparseable + failed)[b.unparseable.len() + j] == batch(b)[k]);
}

/// What is planned stays planned: an answer may add operations and
/// unparseable files after those that are there, and changes none of them.
pub proof fn lemma_step_only_adds(b: BuilderView, e: EventView)
    ensures
        b.operations.is_prefix_of(step(b, e).operations),
        b.unparseable.is_prefix_of(step(b, e).unparseable),
        step(b, e).media == b.media,
        step(b, e).base == b.base,
{
    let after = step(b, e);
    assert(after.operations == b.operations || after.operations.drop_last() == b.operations);
    assert(after.operations.subrange(0, b.operations.len() as int) =~= b.operations);
    assert(after.unparseable.subrange(0, b.unparseable.len() as int) =~= b.unparseable);
}

} // verus!
