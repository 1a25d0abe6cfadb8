//! What running a command gave: a finished process, or the reason none finished.

use vstd::prelude::*;

verus! {

/// Why no finished process can be reported.
#[derive(Debug, Clone, Copy, PartialEq, Eq, Structural)]
pub enum FailureKind {
    /// The program does not exist on this host.
    NotFound,
    /// The process could not be started for another reason.
    Spawn,
    /// The process was started and its end could not be observed.
    Wait,
}

/// What an [`ExecError`] stands for.
pub struct ExecErrorView {
    pub kind: FailureKind,
    pub detail: Seq<char>,
}

/// A command that could not be run to its end.
#[derive(Debug, PartialEq, Eq)]
pub struct ExecError {
    pub kind: FailureKind,
    /// The host's own words for what went wrong.
    pub detail: String,
}

impl View for ExecError {
    type V = ExecErrorView;

    open spec fn view(&self) -> ExecErrorView {
        ExecErrorView { kind: self.kind, detail: self.detail@ }
    }
}

impl ExecErrorView {
    /// The error in words: what could not be done, and the host's words for why.
    pub open spec fn message(self) -> Seq<char> {
        match self.kind {
            FailureKind::NotFound => "program not found: "@ + self.detail,
            FailureKind::Spawn => "cannot start the command: "@ + self.detail,
            FailureKind::Wait => "cannot wait for the command: "@ + self.detail,
        }
    }
}

impl ExecError {
    /// The error in words.
    pub fn message(&self) -> (words: String)
        ensures
            words@ == self@.message(),
    {
        let mut words = match self.kind {
            FailureKind::NotFound => "program not found: ".to_owned(),
            FailureKind::Spawn => "cannot start the command: ".to_owned(),
            FailureKind::Wait => "cannot wait for the command: ".to_owned(),
        };
        words.append(self.detail.as_str());
        words
    }
}

impl Clone for ExecError {
    fn clone(&self) -> (copy: Self)
        ensures
            copy@ == self@,
    {
        ExecError { kind: self.kind, detail: self.detail.clone() }
    }
}

/// What an [`ExecutionResult`] stands for.
pub struct ExecutionView {
    pub exit_code: Option<i32>,
    pub stdout: Option<Seq<u8>>,
    pub stderr: Option<Seq<u8>>,
}

impl ExecutionView {
    /// The captured standard output; nothing where none was captured.
    pub open spec fn output(self) -> Seq<u8> {
        match self.stdout {
            Some(bytes) => bytes,
            None => Seq::empty(),
        }
    }
}

/// A process that ran to its end. The exit code is absent where a signal ended it; the
/// two streams are present where they were captured instead of shown.
#[derive(Debug, PartialEq, Eq)]
pub struct ExecutionResult {
    pub exit_code: Option<i32>,
    pub stdout: Option<Vec<u8>>,
    pub stderr: Option<Vec<u8>>,
}

impl View for ExecutionResult {
    type V = ExecutionView;

    open spec fn view(&self) -> ExecutionView {
        ExecutionView {
            exit_code: self.exit_code,
            stdout: match self.stdout {
                Some(bytes) => Some(bytes@),
                None => None,
            },
            stderr: match self.stderr {
                Some(bytes) => Some(bytes@),
                None => None,
            },
        }
    }
}

impl ExecutionResult {
    /// The captured standard output; nothing where none was captured.
    pub fn output(&self) -> (bytes: &[u8])
        ensures
            bytes@ == self@.output(),
    {
        match &self.stdout {
            Some(captured) => captured.as_slice(),
            None => &[],
        }
    }
}

/// What an [`Outcome`] stands for.
pub enum OutcomeView {
    Exited(ExecutionView),
    Failed(ExecErrorView),
}

/// The answer to one launch.
#[derive(Debug, PartialEq, Eq)]
pub enum Outcome {
    /// The process ran to its end, whatever its exit code.
    Exited(ExecutionResult),
    /// No process ran to its end.
    Failed(ExecError),
}

impl DeepView for Outcome {
    type V = OutcomeView;

    open spec fn deep_view(&self) -> OutcomeView {
        self@
    }
}

impl View for Outcome {
    type V = OutcomeView;

    open spec fn view(&self) -> OutcomeView {
        match self {
            Outcome::Exited(result) => OutcomeView::Exited(result@),
            Outcome::Failed(error) => OutcomeView::Failed(error@),
        }
    }
}

} // verus!
