//! Carrying out move operations, one outside answer at a time.
//!
//! The executor never touches the file system. For each operation in turn it
//! asks for the target's directory to be made, then for the rename; where the
//! rename fails because source and target lie on different file systems, it
//! asks for a copy and then for the source's removal. A failure ends the
//! operation it belongs to and no other: the executor goes on with the next
//! operation, and reports at the end.

use vstd::prelude::*;
use crate::paths::{parent_dir, parent_dir_of};
use crate::text::{chars_of, string_of, push_str, push_decimal, decimal};
use crate::restructure::operations::{MoveOperation, MoveOperationView, op_views, texts};

verus! {

/// The error code of the operating system for a rename across file systems.
pub const CROSS_DEVICE: i32 = 18;

/// How many error lines a report shows.
pub const SHOWN_ERRORS: usize = 10;

/// What the executor asks of the outside.
#[derive(Debug)]
pub enum MoveAction {
    /// Make this directory and those above it that are missing.
    CreateDirectories(String),
    /// Rename `from` to `to`.
    Rename { from: String, to: String },
    /// Copy the contents of `from` to `to`.
    Copy { from: String, to: String },
    /// Remove this file.
    Remove(String),
    /// Nothing more: every operation has been dealt with.
    Finished,
}

/// A `MoveAction` with its paths as character sequences.
pub enum MoveActionView {
    CreateDirectories(Seq<char>),
    Rename { from: Seq<char>, to: Seq<char> },
    Copy { from: Seq<char>, to: Seq<char> },
    Remove(Seq<char>),
    Finished,
}

impl View for MoveAction {
    type V = MoveActionView;

    open spec fn view(&self) -> MoveActionView {
        match *self {
            MoveAction::CreateDirectories(path) => MoveActionView::CreateDirectories(path@),
            MoveAction::Rename { from, to } => MoveActionView::Rename { from: from@, to: to@ },
            MoveAction::Copy { from, to } => MoveActionView::Copy { from: from@, to: to@ },
            MoveAction::Remove(path) => MoveActionView::Remove(path@),
            MoveAction::Finished => MoveActionView::Finished,
        }
    }
}

/// How the outside fared with the last request.
#[derive(Debug)]
pub enum IoOutcome {
    Done,
    /// It failed: with this error code of the operating system, if it has
    /// one, and these words.
    Failed { os_code: Option<i32>, detail: String },
}

/// An `IoOutcome` with its text as a character sequence.
pub enum IoOutcomeView {
    Done,
    Failed { os_code: Option<i32>, detail: Seq<char> },
}

impl View for IoOutcome {
    type V = IoOutcomeView;

    open spec fn view(&self) -> IoOutcomeView {
        match *self {
            IoOutcome::Done => IoOutcomeView::Done,
            IoOutcome::Failed { os_code, detail } => IoOutcomeView::Failed {
                os_code,
                detail: detail@,
            },
        }
    }
}

/// What the executor is waiting for, of the current operation.
#[derive(Clone, Copy, Debug, PartialEq, Eq, Structural)]
pub enum MoveStage {
    CreatingDirectories,
    Renaming,
    Copying,
    Removing,
}

/// The state of a batch of moves under way.
#[derive(Debug)]
pub struct MoveExecutor {
    pub operations: Vec<MoveOperation>,
    /// The operation being carried out; those before it are dealt with.
    pub cursor: usize,
    pub stage: MoveStage,
    /// One line for each operation that failed, in order.
    pub errors: Vec<String>,
}

/// A `MoveExecutor` with its texts as character sequences.
pub struct ExecutorView {
    pub operations: Seq<MoveOperationView>,
    pub cursor: nat,
    pub stage: MoveStage,
    pub errors: Seq<Seq<char>>,
}

impl View for MoveExecutor {
    type V = ExecutorView;

    open spec fn view(&self) -> ExecutorView {
        ExecutorView {
            operations: op_views(self.operations@),
            cursor: self.cursor as nat,
            stage: self.stage,
            errors: texts(self.errors@),
        }
    }
}

/// The executor before anything is done.
pub open spec fn initial(operations: Seq<MoveOperationView>) -> ExecutorView {
    ExecutorView {
        operations,
        cursor: 0,
        stage: MoveStage::CreatingDirectories,
        errors: Seq::empty(),
    }
}

/// How many operations succeeded: those dealt with that left no error line.
pub open spec fn moved(x: ExecutorView) -> nat {
    if x.cursor >= x.errors.len() {
        (x.cursor - x.errors.len()) as nat
    } else {
        0
    }
}

/// What the executor asks next.
pub open spec fn request_of(x: ExecutorView) -> MoveActionView {
    if x.cursor >= x.operations.len() {
        MoveActionView::Finished
    } else {
        let op = x.operations[x.cursor as int];
        match x.stage {
            MoveStage::CreatingDirectories => MoveActionView::CreateDirectories(
                parent_dir(op.target_path),
            ),
            MoveStage::Renaming => MoveActionView::Rename {
                from: op.source_path,
                to: op.target_path,
            },
            MoveStage::Copying => MoveActionView::Copy { from: op.source_path, to: op.target_path },
            MoveStage::Removing => MoveActionView::Remove(op.source_path),
        }
    }
}

/// What went wrong at a stage, in words.
pub open spec fn failure_words(stage: MoveStage) -> Seq<char> {
    match stage {
        MoveStage::CreatingDirectories => "Failed to create directory"@,
        MoveStage::Renaming => "Failed to move"@,
        MoveStage::Copying => "Failed to copy"@,
        MoveStage::Removing => "Copied but failed to delete source"@,
    }
}

/// The error line of an operation that failed at `stage`.
pub open spec fn error_line(op: MoveOperationView, stage: MoveStage, detail: Seq<char>) -> Seq<
    char,
> {
    op.display_name + ": "@ + failure_words(stage) + " - "@ + detail
}

/// The executor with its current operation dealt with.
pub open spec fn proceed(x: ExecutorView) -> ExecutorView {
    ExecutorView { cursor: x.cursor + 1, stage: MoveStage::CreatingDirectories, ..x }
}

/// A rename fails across file systems with this error code and no other.
pub open spec fn is_cross_device(os_code: Option<i32>) -> bool {
    os_code == Some(CROSS_DEVICE)
}

/// The executor after an answer. Success leads to the next stage of the
/// operation, or past the operation where it is complete. A failure sets
/// down one error line and leads past the operation; only a rename that
/// failed across file systems leads to the copy instead.
pub open spec fn step(x: ExecutorView, outcome: IoOutcomeView) -> ExecutorView {
    if x.cursor >= x.operations.len() {
        x
    } else {
        match outcome {
            IoOutcomeView::Done => match x.stage {
                MoveStage::CreatingDirectories => ExecutorView { stage: MoveStage::Renaming, ..x },
                MoveStage::Renaming => proceed(x),
                MoveStage::Copying => ExecutorView { stage: MoveStage::Removing, ..x },
                MoveStage::Removing => proceed(x),
            },
            IoOutcomeView::Failed { os_code, detail } => if x.stage == MoveStage::Renaming
                && is_cross_device(os_code) {
                ExecutorView { stage: MoveStage::Copying, ..x }
            } else {
                proceed(
                    ExecutorView {
                        errors: x.errors.push(
                            error_line(x.operations[x.cursor as int], x.stage, detail),
                        ),
                        ..x
                    },
                )
            },
        }
    }
}

/// The first `n` error lines as they are shown.
pub open spec fn shown_errors(errors: Seq<Seq<char>>, n: int) -> Seq<char>
    decreases n,
{
    if n <= 0 {
        Seq::empty()
    } else {
        shown_errors(errors, n - 1) + "  - "@ + errors[n - 1] + seq!['\n']
    }
}

/// The part of a report on the operations that failed: their number, the
/// first 10 error lines, and the count of the others.
pub open spec fn error_section(errors: Seq<Seq<char>>) -> Seq<char> {
    if errors.len() == 0 {
        Seq::empty()
    } else if errors.len() <= SHOWN_ERRORS {
        "\n• "@ + decimal(errors.len()) + " errors:\n"@ + shown_errors(errors, errors.len() as int)
    } else {
        "\n• "@ + decimal(errors.len()) + " errors:\n"@ + shown_errors(
            errors,
            SHOWN_ERRORS as int,
        ) + "  ... and "@ + decimal((errors.len() - SHOWN_ERRORS) as nat) + " more errors\n"@
    }
}

/// The words of a report.
pub open spec fn summary(moved: nat, total: nat, errors: Seq<Seq<char>>) -> Seq<char> {
    "✅ Restructuring complete!\n• "@ + decimal(moved) + seq!['/'] + decimal(total)
        + " files moved"@ + error_section(errors)
}

/// A report: success where at least one file was moved, failure otherwise,
/// with the same words either way.
pub open spec fn report_of(moved: nat, total: nat, errors: Seq<Seq<char>>) -> Result<
    Seq<char>,
    Seq<char>,
> {
    if moved == 0 {
        Err(summary(moved, total, errors))
    } else {
        Ok(summary(moved, total, errors))
    }
}

/// Writes the report on a batch of `total` operations of which `moved`
/// succeeded and the others left the lines of `errors`.
pub fn summarize_moves(moved: usize, total: usize, errors: &Vec<String>) -> (r: Result<
    String,
    String,
>)
    ensures
        match report_of(moved as nat, total as nat, texts(errors@)) {
            Ok(text) => r is Ok && r->Ok_0@ == text,
            Err(text) => r is Err && r->Err_0@ == text,
        },
{
    let mut out = chars_of("✅ Restructuring complete!\n• ");
    push_decimal(&mut out, moved as u64);
    out.push('/');
    push_decimal(&mut out, total as u64);
    push_str(&mut out, " files moved");
    let ghost head = out@;
    if errors.len() > 0 {
        push_str(&mut out, "\n• ");
        push_decimal(&mut out, errors.len() as u64);
        push_str(&mut out, " errors:\n");
        let ghost start = out@;
        let shown: usize = if errors.len() <= SHOWN_ERRORS {
            errors.len()
        } else {
            SHOWN_ERRORS
        };
        let mut i: usize = 0;
        assert(out@ =~= start + shown_errors(texts(errors@), 0));
        while i < shown
            invariant
                i <= shown <= errors.len(),
                out@ == start + shown_errors(texts(errors@), i as int),
            decreases shown - i,
        {
            push_str(&mut out, "  - ");
            push_str(&mut out, errors[i].as_str());
            out.push('\n');
            assert(texts(errors@)[i as int] == errors@[i as int]@);
            assert(out@ =~= start + shown_errors(texts(errors@), i + 1));
            i += 1;
        }
        if errors.len() > SHOWN_ERRORS {
            push_str(&mut out, "  ... and ");
            push_decimal(&mut out, (errors.len() - SHOWN_ERRORS) as u64);
            push_str(&mut out, " more errors\n");
        }
    }
    assert(out@ =~= head + error_section(texts(errors@)));
    assert(out@ =~= summary(moved as nat, total as nat, texts(errors@)));
    if moved == 0 {
        Err(string_of(&out))
    } else {
        Ok(string_of(&out))
    }
}

impl MoveExecutor {
    /// An executor for `operations`, before anything is done.
    pub fn new(operations: Vec<MoveOperation>) -> (x: MoveExecutor)
        ensures
            x@ == initial(op_views(operations@)),
    {
        let x = MoveExecutor {
            operations,
            cursor: 0,
            stage: MoveStage::CreatingDirectories,
            errors: Vec::new(),
        };
        assert(x@.errors =~= Seq::empty());
        x
    }

    /// What is to be done next.
    pub fn request(&self) -> (a: MoveAction)
        ensures
            a@ == request_of(self@),
    {
        if self.cursor >= self.operations.len() {
            return MoveAction::Finished;
        }
        let op = &self.operations[self.cursor];
        assert(self@.operations[self.cursor as int] == op@);
        match self.stage {
            MoveStage::CreatingDirectories => MoveAction::CreateDirectories(
                parent_dir_of(op.target_path.as_str()),
            ),
            MoveStage::Renaming => MoveAction::Rename {
                from: op.source_path.clone(),
                to: op.target_path.clone(),
            },
            MoveStage::Copying => MoveAction::Copy {
                from: op.source_path.clone(),
                to: op.target_path.clone(),
            },
            MoveStage::Removing => MoveAction::Remove(op.source_path.clone()),
        }
    }

    /// Takes the outcome of the last request.
    pub fn advance(self, outcome: IoOutcome) -> (x: MoveExecutor)
        ensures
            x@ == step(self@, outcome@),
    {
        if self.cursor >= self.operations.len() {
            return self;
        }
        assert(self@.operations[self.cursor as int] == self.operations@[self.cursor as int]@);
        match outcome {
            IoOutcome::Done => {
                let (cursor, stage) = match self.stage {
                    MoveStage::CreatingDirectories => (self.cursor, MoveStage::Renaming),
                    MoveStage::Renaming => (self.cursor + 1, MoveStage::CreatingDirectories),
                    MoveStage::Copying => (self.cursor, MoveStage::Removing),
                    MoveStage::Removing => (self.cursor + 1, MoveStage::CreatingDirectories),
                };
                MoveExecutor { operations: self.operations, cursor, stage, errors: self.errors }
            },
            IoOutcome::Failed { os_code, detail } => {
                let cross_device = match os_code {
                    Some(code) => code == CROSS_DEVICE,
                    None => false,
                };
                let renaming = match self.stage {
                    MoveStage::Renaming => true,
                    _ => false,
                };
                if renaming && cross_device {
                    MoveExecutor {
                        operations: self.operations,
                        cursor: self.cursor,
                        stage: MoveStage::Copying,
                        errors: self.errors,
                    }
                } else {
                    let mut line = chars_of(self.operations[self.cursor].display_name.as_str());
                    push_str(&mut line, ": ");
                    match self.stage {
                        MoveStage::CreatingDirectories => {
                            push_str(&mut line, "Failed to create directory");
                        },
                        MoveStage::Renaming => {
                            push_str(&mut line, "Failed to move");
                        },
                        MoveStage::Copying => {
                            push_str(&mut line, "Failed to copy");
                        },
                        MoveStage::Removing => {
                            push_str(&mut line, "Copied but failed to delete source");
                        },
                    }
                    push_str(&mut line, " - ");
                    push_str(&mut line, detail.as_str());
                    let text = string_of(&line);
                    assert(text@ =~= error_line(
                        self@.operations[self.cursor as int],
                        self.stage,
                        detail@,
                    ));
                    let mut errors = self.errors;
                    let ghost before = errors@;
                    errors.push(text);
                    assert(texts(errors@) =~= texts(before).push(text@));
                    MoveExecutor {
                        operations: self.operations,
                        cursor: self.cursor + 1,
                        stage: MoveStage::CreatingDirectories,
                        errors,
                    }
                }
            },
        }
    }

    /// The report on what was done so far.
    pub fn report(&self) -> (r: Result<String, String>)
        ensures
            match report_of(moved(self@), self@.operations.len(), self@.errors) {
                Ok(text) => r is Ok && r->Ok_0@ == text,
                Err(text) => r is Err && r->Err_0@ == text,
            },
    {
        let moved: usize = if self.cursor >= self.errors.len() {
            self.cursor - self.errors.len()
        } else {
            0
        };
        summarize_moves(moved, self.operations.len(), &self.errors)
    }
}

/// Each operation dealt with has succeeded or left one error line.
pub open spec fn accounted(x: ExecutorView) -> bool {
    x.cursor <= x.operations.len() && x.errors.len() <= x.cursor
}

/// An answer deals with one operation at most, and with each operation it
/// deals with it counts one success or sets down one error line: no failure
/// goes unreported, and none stops the operations after it.
pub proof fn lemma_step_accounts(x: ExecutorView, outcome: IoOutcomeView)
    requires
        accounted(x),
    ensures
        accounted(step(x, outcome)),
        step(x, outcome).operations == x.operations,
        step(x, outcome).cursor == x.cursor || step(x, outcome).cursor == x.cursor + 1,
        moved(step(x, outcome)) + step(x, outcome).errors.len() == step(x, outcome).cursor,
        moved(step(x, outcome)) >= moved(x),
        step(x, outcome).errors.len() >= x.errors.len(),
{
}

/// When every operation is dealt with, successes and error lines add up to
/// the number of operations.
pub proof fn lemma_finished_accounts(x: ExecutorView)
    requires
        accounted(x),
        request_of(x) is Finished,
    ensures
        moved(x) + x.errors.len() == x.operations.len(),
{
}

/// How many requests the executor may still make, at most: four for each
/// operation not yet begun, fewer for the one under way.
pub open spec fn requests_left(x: ExecutorView) -> nat {
    if x.cursor >= x.operations.len() {
        0
    } else {
        let begun: nat = match x.stage {
            MoveStage::CreatingDirectories => 0,
            MoveStage::Renaming => 1,
            MoveStage::Copying => 2,
            MoveStage::Removing => 3,
        };
        (4 * (x.operations.len() - x.cursor) - begun) as nat
    }
}

/// Every answer brings the executor nearer to its end: a batch of `n`
/// operations is over after `4 * n` requests at most, whatever fails.
pub proof fn lemma_step_makes_progress(x: ExecutorView, outcome: IoOutcomeView)
    requires
        !(request_of(x) is Finished),
    ensures
        requests_left(step(x, outcome)) < requests_left(x),
{
}

} // verus!
