//! Move operations, the plan that lists them, and the groups they form.
//!
//! A plan lists a video's operation first and the operations of its subtitles
//! right after it. The operations of a plan thus fall into groups, numbered
//! from 1 in plan order; the listing shown to the user and the indices of the
//! user's reply both go by these numbers.

use vstd::prelude::*;
pub use crate::text::texts;
use crate::transmission::Media;

verus! {

/// One file to move.
#[derive(Debug)]
pub struct MoveOperation {
    pub source_path: String,
    pub target_path: String,
    pub display_name: String,
    pub is_subtitle: bool,
}

/// A move operation with its texts as character sequences.
pub struct MoveOperationView {
    pub source_path: Seq<char>,
    pub target_path: Seq<char>,
    pub display_name: Seq<char>,
    pub is_subtitle: bool,
}

impl View for MoveOperation {
    type V = MoveOperationView;

    open spec fn view(&self) -> MoveOperationView {
        MoveOperationView {
            source_path: self.source_path@,
            target_path: self.target_path@,
            display_name: self.display_name@,
            is_subtitle: self.is_subtitle,
        }
    }
}

impl Clone for MoveOperation {
    fn clone(&self) -> (r: Self)
        ensures
            r == *self,
    {
        MoveOperation {
            source_path: self.source_path.clone(),
            target_path: self.target_path.clone(),
            display_name: self.display_name.clone(),
            is_subtitle: self.is_subtitle,
        }
    }
}

/// The moves proposed for one directory tree, and the files that could not be planned.
#[derive(Debug)]
pub struct RestructurePlan {
    pub media_type: Media,
    pub operations: Vec<MoveOperation>,
    pub unparseable_files: Vec<String>,
}

/// A plan with its texts as character sequences.
pub struct PlanView {
    pub media_type: Media,
    pub operations: Seq<MoveOperationView>,
    pub unparseable_files: Seq<Seq<char>>,
}

/// The views of a sequence of operations.
pub open spec fn op_views(ops: Seq<MoveOperation>) -> Seq<MoveOperationView> {
    ops.map_values(|op: MoveOperation| op@)
}

impl View for RestructurePlan {
    type V = PlanView;

    open spec fn view(&self) -> PlanView {
        PlanView {
            media_type: self.media_type,
            operations: op_views(self.operations@),
            unparseable_files: texts(self.unparseable_files@),
        }
    }
}

/// A copy of a list of strings.
pub fn copy_texts(items: &Vec<String>) -> (out: Vec<String>)
    ensures
        out@ == items@,
{
    let mut out: Vec<String> = Vec::new();
    let mut i: usize = 0;
    while i < items.len()
        invariant
            i <= items.len(),
            out@ == items@.take(i as int),
        decreases items.len() - i,
    {
        out.push(items[i].clone());
        i += 1;
    }
    assert(items@.take(items@.len() as int) =~= items@);
    out
}

/// A copy of a list of operations.
pub fn copy_operations(ops: &Vec<MoveOperation>) -> (out: Vec<MoveOperation>)
    ensures
        out@ == ops@,
{
    let mut out: Vec<MoveOperation> = Vec::new();
    let mut i: usize = 0;
    while i < ops.len()
        invariant
            i <= ops.len(),
            out@ == ops@.take(i as int),
        decreases ops.len() - i,
    {
        out.push(ops[i].clone());
        i += 1;
    }
    assert(ops@.take(ops@.len() as int) =~= ops@);
    out
}

impl Clone for RestructurePlan {
    fn clone(&self) -> (r: Self)
        ensures
            r.media_type == self.media_type,
            r.operations@ == self.operations@,
            r.unparseable_files@ == self.unparseable_files@,
    {
        RestructurePlan {
            media_type: self.media_type,
            operations: copy_operations(&self.operations),
            unparseable_files: copy_texts(&self.unparseable_files),
        }
    }
}

/// How many of the first `n` operations move a video.
pub open spec fn videos_among(ops: Seq<MoveOperationView>, n: int) -> nat
    decreases n,
{
    if n <= 0 {
        0
    } else if ops[n - 1].is_subtitle {
        videos_among(ops, n - 1)
    } else {
        videos_among(ops, n - 1) + 1
    }
}

/// The number of the group that operation `i` belongs to: that of the last
/// video at or before it, counted from 1. It is 0 for a subtitle that no
/// video precedes.
pub open spec fn group_of(ops: Seq<MoveOperationView>, i: int) -> nat {
    videos_among(ops, i + 1)
}

/// The number of groups of a plan.
pub open spec fn group_count(ops: Seq<MoveOperationView>) -> nat {
    videos_among(ops, ops.len() as int)
}

/// Every operation belongs to a group: no subtitle stands before the first video.
pub open spec fn well_grouped(ops: Seq<MoveOperationView>) -> bool {
    forall|i: int| 0 <= i < ops.len() ==> #[trigger] group_of(ops, i) >= 1
}

/// Group numbers grow along the plan and stay within the number of groups.
pub proof fn lemma_videos_among_monotonic(ops: Seq<MoveOperationView>, m: int, n: int)
    requires
        m <= n,
    ensures
        videos_among(ops, m) <= videos_among(ops, n),
        n >= 0 ==> videos_among(ops, n) <= n,
    decreases n,
{
    if n > 0 {
        if m < n {
            lemma_videos_among_monotonic(ops, m, n - 1);
        } else {
            lemma_videos_among_monotonic(ops, n - 1, n - 1);
        }
    }
}

/// A plan is well grouped exactly when it is empty or begins with a video.
pub proof fn lemma_well_grouped_by_first(ops: Seq<MoveOperationView>)
    ensures
        well_grouped(ops) <==> (ops.len() == 0 || !ops[0].is_subtitle),
{
    if ops.len() > 0 {
        assert(videos_among(ops, 0) == 0);
        if !ops[0].is_subtitle {
            assert(videos_among(ops, 1) == 1);
            assert forall|i: int| 0 <= i < ops.len() implies #[trigger] group_of(ops, i) >= 1 by {
                lemma_videos_among_monotonic(ops, 1, i + 1);
            }
        } else {
            assert(group_of(ops, 0) == 0);
        }
    }
}

} // verus!
