//! What a job plans when every probe is answered from one state of the file
//! system: the video's operation to the first free destination, then one
//! operation for each of its subtitles, each to its own first free
//! destination.
//!
//! The builder takes one answer at a time. Here its steps are followed
//! through a whole job, and shown to end where this description says.

use vstd::prelude::*;
use crate::restructure::builder::{ActionView, BuilderView, EventView, StageView, current_job, next_job, request_of, start_subtitle, step, subtitle_operation, subtitle_target, video_operation};
use crate::restructure::collision::{MAX_ATTEMPTS, candidate, lemma_steps_resolve, resolve_from, resolve_step, resolved, ResolutionView};
use crate::restructure::listing::{DirEntryView, matching_subtitles};
use crate::restructure::operations::MoveOperationView;

verus! {

/// The builder after its probes were answered from the paths of `taken`,
/// for as long as it asked for probes and `fuel` times at most.
pub open spec fn answer_probes(b: BuilderView, taken: Set<Seq<char>>, fuel: nat) -> BuilderView
    decreases fuel,
{
    if fuel == 0 {
        b
    } else {
        match request_of(b) {
            ActionView::Exists(path) => answer_probes(
                step(b, EventView::Exists(taken.contains(path))),
                taken,
                (fuel - 1) as nat,
            ),
            _ => b,
        }
    }
}

/// The operations of the subtitles from `index` on, each to the destination
/// that stands for its target when the paths of `taken` exist.
pub open spec fn subtitle_operations(
    video_target: Seq<char>,
    video_source: Seq<char>,
    subtitles: Seq<Seq<char>>,
    taken: Set<Seq<char>>,
    index: nat,
) -> Seq<MoveOperationView>
    decreases subtitles.len() - index,
{
    if index >= subtitles.len() {
        Seq::empty()
    } else {
        seq![
            subtitle_operation(
                subtitles[index as int],
                resolved(
                    subtitle_target(video_target, video_source, subtitles[index as int]),
                    taken,
                ),
            ),
        ] + subtitle_operations(video_target, video_source, subtitles, taken, index + 1)
    }
}

/// The subtitles of a video, given the listing of its directory, or none
/// where the directory could not be read.
pub open spec fn subtitles_listed(video: Seq<char>, listing: Option<Seq<DirEntryView>>) -> Seq<
    Seq<char>,
> {
    match listing {
        Some(entries) => matching_subtitles(video, entries),
        None => Seq::empty(),
    }
}

/// The operations of one job: that of the video, to the destination that
/// stands for its target, then those of its subtitles.
pub open spec fn job_operations(
    source: Seq<char>,
    target: Seq<char>,
    taken: Set<Seq<char>>,
    listing: Option<Seq<DirEntryView>>,
) -> Seq<MoveOperationView> {
    seq![video_operation(source, resolved(target, taken))] + subtitle_operations(
        resolved(target, taken),
        source,
        subtitles_listed(source, listing),
        taken,
        0,
    )
}

proof fn lemma_video_probes(b: BuilderView, taken: Set<Seq<char>>, attempt: nat, fuel: nat)
    requires
        b.stage == StageView::VideoProbe(attempt),
        b.cursor < b.jobs.len(),
        attempt <= MAX_ATTEMPTS,
        fuel + attempt > MAX_ATTEMPTS,
    ensures
        answer_probes(b, taken, fuel) == (BuilderView {
            operations: b.operations.push(
                video_operation(
                    current_job(b).source,
                    resolve_from(current_job(b).target, taken, attempt),
                ),
            ),
            stage: StageView::Siblings(resolve_from(current_job(b).target, taken, attempt)),
            ..b
        }),
    decreases MAX_ATTEMPTS - attempt,
{
    let target = current_job(b).target;
    let exists = taken.contains(candidate(target, attempt));
    let after = step(b, EventView::Exists(exists));
    match resolve_step(target, attempt, exists) {
        ResolutionView::Probe { path, attempt: next } => {
            lemma_video_probes(after, taken, attempt + 1, (fuel - 1) as nat);
        },
        ResolutionView::Settled(path) => {
            assert(answer_probes(after, taken, (fuel - 1) as nat) == after);
        },
    }
}

proof fn lemma_subtitle_probes(
    b: BuilderView,
    taken: Set<Seq<char>>,
    video_target: Seq<char>,
    subtitles: Seq<Seq<char>>,
    index: nat,
    attempt: nat,
    fuel: nat,
) -> (spent: nat)
    requires
        b.stage == (StageView::SubtitleProbe { video_target, subtitles, index, attempt }),
        b.cursor < b.jobs.len(),
        index < subtitles.len(),
        attempt <= MAX_ATTEMPTS,
        fuel + attempt > MAX_ATTEMPTS,
    ensures
        1 <= spent <= MAX_ATTEMPTS + 1 - attempt,
        answer_probes(b, taken, fuel) == answer_probes(
            start_subtitle(
                BuilderView {
                    operations: b.operations.push(
                        subtitle_operation(
                            subtitles[index as int],
                            resolve_from(
                                subtitle_target(
                                    video_target,
                                    current_job(b).source,
                                    subtitles[index as int],
                                ),
                                taken,
                                attempt,
                            ),
                        ),
                    ),
                    ..b
                },
                video_target,
                subtitles,
                index + 1,
            ),
            taken,
            (fuel - spent) as nat,
        ),
    decreases MAX_ATTEMPTS - attempt,
{
    let first = subtitle_target(video_target, current_job(b).source, subtitles[index as int]);
    let exists = taken.contains(candidate(first, attempt));
    let after = step(b, EventView::Exists(exists));
    match resolve_step(first, attempt, exists) {
        ResolutionView::Probe { path, attempt: next } => {
            let spent = lemma_subtitle_probes(
                after,
                taken,
                video_target,
                subtitles,
                index,
                attempt + 1,
                (fuel - 1) as nat,
            );
            spent + 1
        },
        ResolutionView::Settled(path) => 1,
    }
}

proof fn lemma_all_subtitle_probes(
    b: BuilderView,
    taken: Set<Seq<char>>,
    video_target: Seq<char>,
    subtitles: Seq<Seq<char>>,
    index: nat,
    fuel: nat,
)
    requires
        b.cursor < b.jobs.len(),
        index <= subtitles.len(),
        fuel >= (MAX_ATTEMPTS + 1) * (subtitles.len() - index),
    ensures
        answer_probes(start_subtitle(b, video_target, subtitles, index), taken, fuel) == next_job(
            BuilderView {
                operations: b.operations + subtitle_operations(
                    video_target,
                    current_job(b).source,
                    subtitles,
                    taken,
                    index,
                ),
                ..b
            },
        ),
    decreases subtitles.len() - index,
{
    let source = current_job(b).source;
    let rest = subtitle_operations(video_target, source, subtitles, taken, index);
    if index >= subtitles.len() {
        assert(b.operations + rest =~= b.operations);
        let done = next_job(b);
        assert(!(request_of(done) is Exists));
    } else {
        let begun = start_subtitle(b, video_target, subtitles, index);
        let first = subtitle_target(video_target, source, subtitles[index as int]);
        assert((MAX_ATTEMPTS + 1) * (subtitles.len() - index) == (MAX_ATTEMPTS + 1) * (
        subtitles.len() - (index + 1)) + (MAX_ATTEMPTS + 1)) by (nonlinear_arith)
            requires
                index < subtitles.len(),
        ;
        assert((MAX_ATTEMPTS + 1) * (subtitles.len() - (index + 1)) >= 0) by (nonlinear_arith)
            requires
                index < subtitles.len(),
        ;
        let spent = lemma_subtitle_probes(begun, taken, video_target, subtitles, index, 0, fuel);
        lemma_steps_resolve(first, taken);
        let op = subtitle_operation(subtitles[index as int], resolved(first, taken));
        let with_op = BuilderView { operations: b.operations.push(op), ..b };
        assert(start_subtitle(
            BuilderView { operations: begun.operations.push(op), ..begun },
            video_target,
            subtitles,
            index + 1,
        ) == start_subtitle(with_op, video_target, subtitles, index + 1));
        lemma_all_subtitle_probes(
            with_op,
            taken,
            video_target,
            subtitles,
            index + 1,
            (fuel - spent) as nat,
        );
        assert(b.operations.push(op) + subtitle_operations(
            video_target,
            source,
            subtitles,
            taken,
            index + 1,
        ) =~= b.operations + rest);
    }
}

/// Followed through one job, with every probe answered from the paths of
/// `taken` and the video's directory listed as `listing`, the builder plans
/// the operations of `job_operations` and nothing else, and goes on to the
/// next job.
pub proof fn lemma_job_plans_its_operations(
    b: BuilderView,
    taken: Set<Seq<char>>,
    listing: Option<Seq<DirEntryView>>,
)
    requires
        b.stage == StageView::VideoProbe(0),
        b.cursor < b.jobs.len(),
    ensures
        answer_probes(
            step(
                answer_probes(b, taken, MAX_ATTEMPTS as nat + 1),
                EventView::Listing(listing),
            ),
            taken,
            (MAX_ATTEMPTS + 1) as nat * subtitles_listed(current_job(b).source, listing).len(),
        ) == next_job(
            BuilderView {
                operations: b.operations + job_operations(
                    current_job(b).source,
                    current_job(b).target,
                    taken,
                    listing,
                ),
                ..b
            },
        ),
{
    let source = current_job(b).source;
    let target = current_job(b).target;
    let destination = resolved(target, taken);
    let subtitles = subtitles_listed(source, listing);
    lemma_video_probes(b, taken, 0, MAX_ATTEMPTS as nat + 1);
    lemma_steps_resolve(target, taken);
    let with_video = BuilderView {
        operations: b.operations.push(video_operation(source, destination)),
        stage: StageView::Siblings(destination),
        ..b
    };
    assert(answer_probes(b, taken, MAX_ATTEMPTS as nat + 1) == with_video);
    assert(step(with_video, EventView::Listing(listing)) == start_subtitle(
        with_video,
        destination,
        subtitles,
        0,
    ));
    lemma_all_subtitle_probes(
        with_video,
        taken,
        destination,
        subtitles,
        0,
        (MAX_ATTEMPTS + 1) as nat * subtitles.len(),
    );
    assert(with_video.operations + subtitle_operations(destination, source, subtitles, taken, 0)
        =~= b.operations + job_operations(source, target, taken, listing));
    assert(next_job(
        BuilderView {
            operations: with_video.operations + subtitle_operations(
                destination,
                source,
                subtitles,
                taken,
                0,
            ),
            ..with_video
        },
    ) == next_job(
        BuilderView {
            operations: b.operations + job_operations(source, target, taken, listing),
            ..b
        },
    ));
}

} // verus!
