//! Each subtitle goes with its video: what ties the operations of a group
//! together, and why the builder never plans a subtitle that is not tied.
//!
//! A subtitle's operation belongs to the video that leads its group. It is
//! tied to that video where its target lies in the directory of the video's
//! target and the name of its source begins with the stem of the video's
//! source.

use vstd::prelude::*;
use crate::order::{lemma_text_order_total, text_order};
use crate::paths::{dir_prefix, ext_start, file_name, last_index_of, lemma_last_index_of, name_start, stem};
use crate::text::{decimal};
use crate::restructure::builder::{BuilderView, EventView, StageView, current_job, name_suffix, step, subtitle_operation, subtitle_target, video_operation, initial};
use crate::restructure::collision::{candidate, resolve_step, ResolutionView};
use crate::restructure::listing::{DirEntryView, is_subtitle_of, lemma_picked_members, matching_subtitles, picked};
use crate::restructure::operations::MoveOperationView;
use crate::transmission::Media;

verus! {

/// The position of the video that leads the group of operation `i`: the
/// last video at or before `i`; -1 where there is none.
pub open spec fn leader(ops: Seq<MoveOperationView>, i: int) -> int
    decreases i + 1,
{
    if i < 0 {
        -1
    } else if !ops[i].is_subtitle {
        i
    } else {
        leader(ops, i - 1)
    }
}

/// Whether the subtitle operation `sub` is tied to the video operation `video`.
pub open spec fn accompanies(sub: MoveOperationView, video: MoveOperationView) -> bool {
    dir_prefix(sub.target_path) == dir_prefix(video.target_path) && stem(
        video.source_path,
    ).is_prefix_of(file_name(sub.source_path))
}

/// Whether every subtitle operation has a leading video and is tied to it.
pub open spec fn paired(ops: Seq<MoveOperationView>) -> bool {
    forall|i: int|
        0 <= i < ops.len() && ops[i].is_subtitle ==> 0 <= #[trigger] leader(ops, i) < i
            && !ops[leader(ops, i)].is_subtitle && accompanies(ops[i], ops[leader(ops, i)])
}

/// Whether no character of `s` is a `/`.
pub open spec fn slash_free(s: Seq<char>) -> bool {
    forall|i: int| 0 <= i < s.len() ==> s[i] != '/'
}

/// What the builder knows between a video's operation and the end of its
/// job: the video leads the last group, it is the video of the current job,
/// and the subtitles still to be planned bear its stem.
pub open spec fn holds_video(b: BuilderView) -> bool {
    match b.stage {
        StageView::Siblings(video_target) => leads_last(b, video_target),
        StageView::SubtitleProbe { video_target, subtitles, index, attempt } => leads_last(
            b,
            video_target,
        ) && forall|j: int|
            0 <= j < subtitles.len() ==> stem(current_job(b).source).is_prefix_of(
                file_name(#[trigger] subtitles[j]),
            ),
        _ => true,
    }
}

/// Whether the video that leads the last group is that of the current job,
/// bound for `video_target`.
pub open spec fn leads_last(b: BuilderView, video_target: Seq<char>) -> bool {
    let last = leader(b.operations, b.operations.len() - 1);
    b.cursor < b.jobs.len() && 0 <= last && !b.operations[last].is_subtitle
        && b.operations[last].target_path == video_target && b.operations[last].source_path
        == current_job(b).source
}

/// What every builder keeps: its subtitles are tied to their videos.
pub open spec fn tied(b: BuilderView) -> bool {
    paired(b.operations) && holds_video(b)
}

proof fn lemma_leader_bounds(ops: Seq<MoveOperationView>, i: int)
    requires
        -1 <= i < ops.len(),
    ensures
        -1 <= leader(ops, i) <= i,
        leader(ops, i) >= 0 ==> !ops[leader(ops, i)].is_subtitle,
        i >= 0 && ops[i].is_subtitle ==> leader(ops, i) < i,
    decreases i + 1,
{
    if i >= 0 && ops[i].is_subtitle {
        lemma_leader_bounds(ops, i - 1);
    }
}

proof fn lemma_leader_push(ops: Seq<MoveOperationView>, op: MoveOperationView, i: int)
    requires
        i < ops.len(),
    ensures
        leader(ops.push(op), i) == leader(ops, i),
    decreases i + 1,
{
    if i >= 0 && ops[i].is_subtitle {
        lemma_leader_push(ops, op, i - 1);
    }
}

proof fn lemma_slash_free_tail(a: Seq<char>, b: Seq<char>)
    requires
        slash_free(b),
    ensures
        last_index_of(a + b, '/') == last_index_of(a, '/'),
        dir_prefix(a + b) == dir_prefix(a),
    decreases b.len(),
{
    if b.len() == 0 {
        assert(a + b =~= a);
    } else {
        let whole = a + b;
        assert(whole.last() == b.last());
        assert(whole.drop_last() =~= a + b.drop_last());
        assert(slash_free(b.drop_last())) by {
            assert forall|i: int| 0 <= i < b.drop_last().len() implies b.drop_last()[i] != '/' by {
                assert(b.drop_last()[i] == b[i]);
            }
        }
        lemma_slash_free_tail(a, b.drop_last());
    }
    lemma_last_index_of(a, '/');
    assert((a + b).take(name_start(a)) =~= a.take(name_start(a)));
}

proof fn lemma_decimal_slash_free(n: nat)
    ensures
        slash_free(decimal(n)),
    decreases n,
{
    if n >= 10 {
        lemma_decimal_slash_free(n / 10);
    }
}

proof fn lemma_head_keeps_directory(path: Seq<char>)
    ensures
        dir_prefix(path.take(ext_start(path))) == dir_prefix(path),
        slash_free(path.skip(ext_start(path))),
{
    lemma_last_index_of(path, '/');
    lemma_last_index_of(path, '.');
    let e = ext_start(path);
    assert(path =~= path.take(e) + path.skip(e));
    lemma_slash_free_tail(path.take(e), path.skip(e));
}

/// A numbered name lies in the directory of the name it stands for.
pub proof fn lemma_candidate_keeps_directory(target: Seq<char>, attempt: nat)
    ensures
        dir_prefix(candidate(target, attempt)) == dir_prefix(target),
{
    if attempt > 0 {
        let e = ext_start(target);
        let tail = seq!['-'] + decimal(attempt) + target.skip(e);
        lemma_head_keeps_directory(target);
        lemma_decimal_slash_free(attempt);
        assert(candidate(target, attempt) =~= target.take(e) + tail);
        lemma_slash_free_tail(target.take(e), tail);
    }
}

/// Whatever is found to exist, the destination that a probe settles on lies
/// in the directory of the target.
pub proof fn lemma_settled_keeps_directory(target: Seq<char>, attempt: nat, exists: bool)
    ensures
        resolve_step(target, attempt, exists) matches ResolutionView::Settled(path)
            ==> dir_prefix(path) == dir_prefix(target),
{
    lemma_candidate_keeps_directory(target, attempt);
}

/// The target first tried for a subtitle lies in the directory of its
/// video's destination.
pub proof fn lemma_subtitle_target_keeps_directory(
    video_target: Seq<char>,
    video_source: Seq<char>,
    subtitle: Seq<char>,
)
    ensures
        dir_prefix(subtitle_target(video_target, video_source, subtitle)) == dir_prefix(
            video_target,
        ),
{
    lemma_last_index_of(subtitle, '/');
    lemma_head_keeps_directory(video_target);
    lemma_slash_free_tail(
        video_target.take(ext_start(video_target)),
        name_suffix(subtitle, video_source),
    );
}

/// Every subtitle matched to a video bears the video's stem.
pub proof fn lemma_matching_subtitles_bear_the_stem(video: Seq<char>, listing: Seq<DirEntryView>)
    ensures
        forall|j: int|
            0 <= j < matching_subtitles(video, listing).len() ==> stem(video).is_prefix_of(
                file_name(#[trigger] matching_subtitles(video, listing)[j]),
            ),
{
    let wanted = |e: DirEntryView| is_subtitle_of(e, video);
    let found = picked(listing, wanted, listing.len() as int);
    let sorted = matching_subtitles(video, listing);
    lemma_text_order_total();
    found.lemma_sort_by_ensures(text_order());
    assert forall|j: int| 0 <= j < sorted.len() implies stem(video).is_prefix_of(
        file_name(#[trigger] sorted[j]),
    ) by {
        let path = sorted[j];
        assert(sorted.contains(path));
        assert(found.contains(path));
        lemma_picked_members(listing, wanted, listing.len() as int, path);
    }
}

proof fn lemma_push_video_keeps_pairs(ops: Seq<MoveOperationView>, op: MoveOperationView)
    requires
        paired(ops),
        !op.is_subtitle,
    ensures
        paired(ops.push(op)),
        leader(ops.push(op), ops.len() as int) == ops.len(),
{
    let grown = ops.push(op);
    assert forall|i: int| 0 <= i < grown.len() && grown[i].is_subtitle implies 0 <= #[trigger] leader(
        grown,
        i,
    ) < i && !grown[leader(grown, i)].is_subtitle && accompanies(grown[i], grown[leader(grown, i)]) by {
        lemma_leader_push(ops, op, i);
        assert(0 <= leader(ops, i) < i);
    }
}

proof fn lemma_push_subtitle_keeps_pairs(ops: Seq<MoveOperationView>, op: MoveOperationView)
    requires
        paired(ops),
        op.is_subtitle,
        ops.len() > 0,
        leader(ops, ops.len() - 1) >= 0,
        accompanies(op, ops[leader(ops, ops.len() - 1)]),
    ensures
        paired(ops.push(op)),
        leader(ops.push(op), ops.len() as int) == leader(ops, ops.len() - 1),
{
    let grown = ops.push(op);
    lemma_leader_push(ops, op, ops.len() - 1);
    lemma_leader_bounds(ops, ops.len() - 1);
    assert forall|i: int| 0 <= i < grown.len() && grown[i].is_subtitle implies 0 <= #[trigger] leader(
        grown,
        i,
    ) < i && !grown[leader(grown, i)].is_subtitle && accompanies(grown[i], grown[leader(grown, i)]) by {
        if i < ops.len() {
            lemma_leader_push(ops, op, i);
            assert(0 <= leader(ops, i) < i);
        }
    }
}

/// A builder starts with its subtitles tied, having none.
pub proof fn lemma_initial_is_tied(media: Media, base: Seq<char>)
    ensures
        tied(initial(media, base)),
{
}

/// Whatever the answer, a builder whose subtitles are tied to their videos
/// keeps them tied: every subtitle operation of a built plan follows the
/// operation of its own video, lies in that video's target directory, and
/// bears that video's stem.
pub proof fn lemma_step_keeps_ties(b: BuilderView, e: EventView)
    requires
        tied(b),
    ensures
        tied(step(b, e)),
{
    let after = step(b, e);
    match (b.stage, e) {
        (StageView::VideoProbe(attempt), EventView::Exists(exists)) => {
            if b.cursor < b.jobs.len() {
                match resolve_step(current_job(b).target, attempt, exists) {
                    ResolutionView::Settled(target) => {
                        lemma_push_video_keeps_pairs(
                            b.operations,
                            video_operation(current_job(b).source, target),
                        );
                    },
                    _ => {},
                }
            }
        },
        (StageView::Siblings(video_target), EventView::Listing(listing)) => {
            if b.cursor < b.jobs.len() {
                match listing {
                    Some(entries) => {
                        lemma_matching_subtitles_bear_the_stem(current_job(b).source, entries);
                    },
                    None => {},
                }
            }
        },
        (
            StageView::SubtitleProbe { video_target, subtitles, index, attempt },
            EventView::Exists(exists),
        ) => {
            if b.cursor < b.jobs.len() && index < subtitles.len() {
                let first = subtitle_target(
                    video_target,
                    current_job(b).source,
                    subtitles[index as int],
                );
                match resolve_step(first, attempt, exists) {
                    ResolutionView::Settled(target) => {
                        let op = subtitle_operation(subtitles[index as int], target);
                        lemma_settled_keeps_directory(first, attempt, exists);
                        lemma_subtitle_target_keeps_directory(
                            video_target,
                            current_job(b).source,
                            subtitles[index as int],
                        );
                        lemma_leader_bounds(b.operations, b.operations.len() - 1);
                        lemma_push_subtitle_keeps_pairs(b.operations, op);
                    },
                    _ => {},
                }
            }
        },
        _ => {},
    }
}

} // verus!
