//! How one directory's command ended, and what was captured of it.

use vstd::prelude::*;
use crate::error::ErrorKind;

verus! {

/// The exit code that stands for a failure that has no code of its own: a
/// child that a signal ended, or a command that never ran.
pub const FAILURE_CODE: i32 = 1;

/// How a child process ended.
#[derive(Clone, Copy, Debug, PartialEq, Eq, Structural)]
pub enum ExitStatus {
    /// It reported success.
    Success,
    /// It exited with this code.
    Code(i32),
    /// A signal ended it, so that it has no code.
    Signal,
}

impl ExitStatus {
    /// Whether the child reported success. The code 0 is success too.
    pub open spec fn succeeded(self) -> bool {
        self == ExitStatus::Success || self == ExitStatus::Code(0)
    }

    /// The status of a child that exited with `code`; `None` is the child
    /// that a signal ended.
    pub open spec fn of_code(code: Option<i32>) -> ExitStatus {
        match code {
            Some(c) => if c == 0 {
                ExitStatus::Success
            } else {
                ExitStatus::Code(c)
            },
            None => ExitStatus::Signal,
        }
    }

    /// The status of a child that exited with `code`; `None` is the child
    /// that a signal ended.
    pub fn from_code(code: Option<i32>) -> (status: ExitStatus)
        ensures
            status == ExitStatus::of_code(code),
    {
        match code {
            Some(c) => if c == 0 {
                ExitStatus::Success
            } else {
                ExitStatus::Code(c)
            },
            None => ExitStatus::Signal,
        }
    }

    /// Whether the child reported success.
    pub fn is_success(&self) -> (yes: bool)
        ensures
            yes == self.succeeded(),
    {
        match self {
            ExitStatus::Success => true,
            ExitStatus::Code(c) => *c == 0,
            ExitStatus::Signal => false,
        }
    }
}

/// How the command of one directory ended: with a status where the child
/// ran, with the reason where it did not.
pub type Outcome = Result<ExitStatus, ErrorKind>;

/// Whether the command ran and reported success.
pub open spec fn outcome_succeeded(outcome: Outcome) -> bool {
    match outcome {
        Ok(status) => status.succeeded(),
        Err(_) => false,
    }
}

/// The exit code that the outcome stands for: 0 for success, the child's own
/// code where it has one, and `FAILURE_CODE` for every other failure.
pub open spec fn outcome_code(outcome: Outcome) -> i32 {
    match outcome {
        Ok(ExitStatus::Success) => 0,
        Ok(ExitStatus::Code(c)) => c,
        Ok(ExitStatus::Signal) => FAILURE_CODE,
        Err(_) => FAILURE_CODE,
    }
}

/// What went wrong in the outcome, if anything: `NonZeroExit` for a child
/// that ran and did not report success, else the reason why none ran.
pub open spec fn outcome_error(outcome: Outcome) -> Option<ErrorKind> {
    match outcome {
        Ok(status) => if status.succeeded() {
            None
        } else {
            Some(ErrorKind::NonZeroExit)
        },
        Err(kind) => Some(kind),
    }
}

/// An outcome stands for the exit code 0 exactly if it is a success.
pub proof fn lemma_code_zero_is_success(outcome: Outcome)
    ensures
        outcome_code(outcome) == 0 <==> outcome_succeeded(outcome),
        outcome_error(outcome) is None <==> outcome_succeeded(outcome),
{
}

/// What an execution result holds.
pub ghost struct ResultView {
    /// The directory.
    pub directory: Seq<char>,
    /// How the command ended.
    pub outcome: Outcome,
    /// What the child wrote to its standard output.
    pub stdout: Seq<u8>,
    /// What the child wrote to its standard error.
    pub stderr: Seq<u8>,
}

/// What the command of one directory left behind.
#[derive(Debug)]
pub struct ExecutionResult {
    /// The directory.
    pub directory: String,
    /// How the command ended.
    pub outcome: Outcome,
    /// What the child wrote to its standard output.
    pub stdout: Vec<u8>,
    /// What the child wrote to its standard error.
    pub stderr: Vec<u8>,
}

impl View for ExecutionResult {
    type V = ResultView;

    open spec fn view(&self) -> ResultView {
        ResultView {
            directory: self.directory@,
            outcome: self.outcome,
            stdout: self.stdout@,
            stderr: self.stderr@,
        }
    }
}

impl DeepView for ExecutionResult {
    type V = ResultView;

    open spec fn deep_view(&self) -> ResultView {
        self@
    }
}

impl ExecutionResult {
    /// Whether the command ran and reported success.
    pub fn is_success(&self) -> (yes: bool)
        ensures
            yes == outcome_succeeded(self.outcome),
    {
        match &self.outcome {
            Ok(status) => status.is_success(),
            Err(_) => false,
        }
    }

    /// The exit code that the result stands for.
    pub fn exit_code(&self) -> (code: i32)
        ensures
            code == outcome_code(self.outcome),
    {
        match &self.outcome {
            Ok(ExitStatus::Success) => 0,
            Ok(ExitStatus::Code(c)) => *c,
            Ok(ExitStatus::Signal) => FAILURE_CODE,
            Err(_) => FAILURE_CODE,
        }
    }

    /// What went wrong, if anything.
    pub fn error(&self) -> (kind: Option<ErrorKind>)
        ensures
            kind == outcome_error(self.outcome),
    {
        match &self.outcome {
            Ok(status) => if status.is_success() {
                None
            } else {
                Some(ErrorKind::NonZeroExit)
            },
            Err(kind) => Some(*kind),
        }
    }

    /// Whether the captured standard output is shown. That of a failed
    /// command is not; the captured standard error is shown in any case,
    /// since warnings come on it.
    pub fn shows_stdout(&self) -> (yes: bool)
        ensures
            yes == outcome_succeeded(self.outcome),
    {
        self.is_success()
    }
}

} // verus!
