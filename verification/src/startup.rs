//! What the process knows of itself when it runs, and what it reports when
//! one of its tasks ends.

use vstd::prelude::*;
use vstd::string::*;

verus! {

/// The address under which clients reach the application, without a
/// trailing slash.
#[derive(Debug)]
pub struct ApplicationBaseUrl(pub String);

/// How one of the long-running tasks of the process ended.
#[derive(Debug)]
pub enum TaskExit {
    /// It returned without an error.
    Exited,
    /// It returned the error with this text.
    Failed(String),
    /// It did not run to its end, for the reason with this text.
    Aborted(String),
}

/// How grave a report is.
#[derive(Clone, Copy, Debug, PartialEq, Eq, Structural)]
pub enum Severity {
    Info,
    Error,
}

/// One line for the log: its severity, its text, and the text of the error
/// it reports, if any.
#[derive(Debug)]
pub struct ExitReport {
    pub severity: Severity,
    pub message: String,
    pub error: Option<String>,
}

/// The text of the report on a task's end.
pub open spec fn exit_message(task_name: Seq<char>, outcome: TaskExit) -> Seq<char> {
    match outcome {
        TaskExit::Exited => task_name + " has exited"@,
        TaskExit::Failed(_) => task_name + " failed"@,
        TaskExit::Aborted(_) => task_name + "' task failed to complete"@,
    }
}

/// Reports how a task ended: as information where it exited cleanly, as an
/// error, with the error's text, where it failed or was aborted.
pub fn report_exit(task_name: &str, outcome: TaskExit) -> (report: ExitReport)
    ensures
        report.message@ == exit_message(task_name@, outcome),
        match outcome {
            TaskExit::Exited => report.severity == Severity::Info && report.error is None,
            TaskExit::Failed(e) => report.severity == Severity::Error && report.error == Some(e),
            TaskExit::Aborted(e) => report.severity == Severity::Error && report.error == Some(e),
        },
{
    let mut message = String::from_str(task_name);
    match outcome {
        TaskExit::Exited => {
            message.append(" has exited");
            ExitReport { severity: Severity::Info, message, error: None }
        },
        TaskExit::Failed(e) => {
            message.append(" failed");
            ExitReport { severity: Severity::Error, message, error: Some(e) }
        },
        TaskExit::Aborted(e) => {
            message.append("' task failed to complete");
            ExitReport { severity: Severity::Error, message, error: Some(e) }
        },
    }
}

} // verus!
