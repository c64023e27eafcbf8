//! The metadata oracle's side: how one run of the external tool is judged.
//!
//! The tool is run elsewhere, once per file and with a time limit. What it
//! left behind is judged here: whether it answered at all, and what the
//! answer, once decoded, says of the file.

use vstd::prelude::*;
use crate::text::{chars_of, string_of, push_str};
use crate::restructure::metadata::{GuessitMetadata, MetadataView, source_extension, with_source_extension};

verus! {

/// How many seconds the oracle has to answer for one file.
pub const ORACLE_TIMEOUT_SECONDS: u64 = 5;

/// Why the oracle gave no metadata for a file.
#[derive(Debug)]
pub enum OracleError {
    /// The tool did not answer in time.
    OracleTimeout,
    /// The tool is not installed.
    OracleNotFound,
    /// The tool could not be started, or ended with a failure.
    OracleExecutionError(String),
    /// The tool's output could not be decoded.
    OracleParseError(String),
}

/// An `OracleError` with its text as a character sequence.
pub enum OracleErrorView {
    OracleTimeout,
    OracleNotFound,
    OracleExecutionError(Seq<char>),
    OracleParseError(Seq<char>),
}

impl View for OracleError {
    type V = OracleErrorView;

    open spec fn view(&self) -> OracleErrorView {
        match *self {
            OracleError::OracleTimeout => OracleErrorView::OracleTimeout,
            OracleError::OracleNotFound => OracleErrorView::OracleNotFound,
            OracleError::OracleExecutionError(detail) => OracleErrorView::OracleExecutionError(
                detail@,
            ),
            OracleError::OracleParseError(detail) => OracleErrorView::OracleParseError(detail@),
        }
    }
}

impl OracleErrorView {
    /// The words that go with the error.
    pub open spec fn message_text(self) -> Seq<char> {
        match self {
            OracleErrorView::OracleTimeout => "guessit command timed out after 5 seconds"@,
            OracleErrorView::OracleNotFound =>
                "guessit not found. Install with: pip install guessit"@,
            OracleErrorView::OracleExecutionError(detail) => detail,
            OracleErrorView::OracleParseError(detail) => "Failed to parse guessit output: "@
                + detail,
        }
    }
}

impl OracleError {
    /// The words that go with the error.
    pub fn message(&self) -> (out: String)
        ensures
            out@ == self@.message_text(),
    {
        let mut out: Vec<char> = Vec::new();
        match self {
            OracleError::OracleTimeout => {
                push_str(&mut out, "guessit command timed out after 5 seconds");
            },
            OracleError::OracleNotFound => {
                push_str(&mut out, "guessit not found. Install with: pip install guessit");
            },
            OracleError::OracleExecutionError(detail) => {
                push_str(&mut out, detail.as_str());
            },
            OracleError::OracleParseError(detail) => {
                push_str(&mut out, "Failed to parse guessit output: ");
                push_str(&mut out, detail.as_str());
            },
        }
        assert(out@ =~= self@.message_text());
        string_of(&out)
    }
}

/// How one run of the tool ended.
#[derive(Debug)]
pub enum OracleRun {
    /// The time limit passed first.
    TimedOut,
    /// The tool could not be started; `missing` where it is not installed.
    NotStarted { missing: bool, detail: String },
    /// The tool ran to its end.
    Exited { success: bool, stdout: String, stderr: String },
}

/// An `OracleRun` with its texts as character sequences.
pub enum OracleRunView {
    TimedOut,
    NotStarted { missing: bool, detail: Seq<char> },
    Exited { success: bool, stdout: Seq<char>, stderr: Seq<char> },
}

impl View for OracleRun {
    type V = OracleRunView;

    open spec fn view(&self) -> OracleRunView {
        match *self {
            OracleRun::TimedOut => OracleRunView::TimedOut,
            OracleRun::NotStarted { missing, detail } => OracleRunView::NotStarted {
                missing,
                detail: detail@,
            },
            OracleRun::Exited { success, stdout, stderr } => OracleRunView::Exited {
                success,
                stdout: stdout@,
                stderr: stderr@,
            },
        }
    }
}

/// The output that a run left to decode, or why there is none: only a run
/// that ended with success has one.
pub open spec fn run_output(run: OracleRunView) -> Result<Seq<char>, OracleErrorView> {
    match run {
        OracleRunView::TimedOut => Err(OracleErrorView::OracleTimeout),
        OracleRunView::NotStarted { missing, detail } => if missing {
            Err(OracleErrorView::OracleNotFound)
        } else {
            Err(OracleErrorView::OracleExecutionError("Failed to execute guessit: "@ + detail))
        },
        OracleRunView::Exited { success, stdout, stderr } => if success {
            Ok(stdout)
        } else {
            Err(OracleErrorView::OracleExecutionError("guessit failed: "@ + stderr))
        },
    }
}

/// The output that a run of the tool left to decode, or why there is none.
pub fn oracle_output(run: OracleRun) -> (r: Result<String, OracleError>)
    ensures
        match run_output(run@) {
            Ok(text) => r is Ok && r->Ok_0@ == text,
            Err(e) => r is Err && r->Err_0@ == e,
        },
{
    match run {
        OracleRun::TimedOut => Err(OracleError::OracleTimeout),
        OracleRun::NotStarted { missing, detail } => {
            if missing {
                Err(OracleError::OracleNotFound)
            } else {
                let mut text = chars_of("Failed to execute guessit: ");
                push_str(&mut text, detail.as_str());
                Err(OracleError::OracleExecutionError(string_of(&text)))
            }
        },
        OracleRun::Exited { success, stdout, stderr } => {
            if success {
                Ok(stdout)
            } else {
                let mut text = chars_of("guessit failed: ");
                push_str(&mut text, stderr.as_str());
                Err(OracleError::OracleExecutionError(string_of(&text)))
            }
        },
    }
}

/// What the oracle says of the file at `file_path`, given its decoded output
/// or the reason why it could not be decoded. The extension is always that
/// of the file itself, whatever the output held.
pub fn oracle_answer(decoded: Result<GuessitMetadata, String>, file_path: &str) -> (r: Result<
    GuessitMetadata,
    OracleError,
>)
    ensures
        match decoded {
            Ok(md) => r is Ok && r->Ok_0@ == (MetadataView {
                extension: source_extension(file_path@),
                ..md@
            }),
            Err(detail) => r is Err && r->Err_0@ == OracleErrorView::OracleParseError(detail@),
        },
{
    match decoded {
        Ok(md) => Ok(with_source_extension(md, file_path)),
        Err(detail) => Err(OracleError::OracleParseError(detail)),
    }
}

} // verus!
