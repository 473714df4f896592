//! The program's start-up sequence: import the shell history once, make sure
//! the database has its current shape, install the shell hook, then run the
//! interface.  Each step is carried out outside the library; what comes next
//! and what is logged after each outcome is decided here.
use vstd::prelude::*;

use crate::text::concat_str;
use crate::util::logging::Status;

verus! {

/// A step of the start-up sequence.
#[derive(Debug, Clone, Copy, PartialEq, Eq, Structural)]
pub enum StartupStep {
    /// Ask whether the history was already imported.
    CheckHistory,
    /// Open the database before the import.
    Connect,
    /// Create the history table.
    CreateDb,
    /// Add the `user` column where it is missing.
    EnsureColumn,
    /// Import the shell history.
    ImportHistory,
    /// Open the database again.
    Reconnect,
    /// Add the `user` column where it is missing, on the new connection.
    EnsureColumnAgain,
    /// Install the shell hook.
    Setup,
    /// Find the user's shell.
    DetectShell,
    /// Run the interface.
    RunTui,
    /// The sequence is over.
    Done,
}

/// How a step went: a yes-or-no answer, success, or failure with a message.
pub enum Outcome {
    Answer(bool),
    Done,
    Failed(String),
}

/// A message to print: its kind and its text.
pub struct LogLine {
    pub status: Status,
    pub text: String,
}

/// The mathematical value of an [`Outcome`].
pub enum OutcomeView {
    Answer(bool),
    Done,
    Failed(Seq<char>),
}

impl View for Outcome {
    type V = OutcomeView;

    open spec fn view(&self) -> OutcomeView {
        match self {
            Outcome::Answer(b) => OutcomeView::Answer(*b),
            Outcome::Done => OutcomeView::Done,
            Outcome::Failed(m) => OutcomeView::Failed(m@),
        }
    }
}

/// The step after `step` went as `outcome`, and the message to print (its
/// kind and text), if any.  Without a history yet: connect, create the
/// table, add the column (a failure of either ends the sequence), then
/// import; a failed connection is reported and the import is tried anyway.
/// Then, in every case: connect again and add the column (failures are
/// reported, or pass silently for the connection), install the hook, find the
/// shell, and run the interface, reporting its failure.
pub open spec fn startup_next(step: StartupStep, outcome: OutcomeView) -> (StartupStep, Option<(Status, Seq<char>)>) {
    match step {
        StartupStep::CheckHistory => match outcome {
            OutcomeView::Answer(true) => (StartupStep::Reconnect, None),
            _ => (StartupStep::Connect, None),
        },
        StartupStep::Connect => match outcome {
            OutcomeView::Failed(e) => (
                StartupStep::ImportHistory,
                Some((Status::ERROR, "Failed to establish database connection: "@ + e)),
            ),
            _ => (StartupStep::CreateDb, None),
        },
        StartupStep::CreateDb => match outcome {
            OutcomeView::Failed(e) => (StartupStep::Done, Some((Status::ERROR, "Failed to create database: "@ + e))),
            _ => (StartupStep::EnsureColumn, None),
        },
        StartupStep::EnsureColumn => match outcome {
            OutcomeView::Failed(e) => (StartupStep::Done, Some((Status::ERROR, "Failed to update schema: "@ + e))),
            _ => (StartupStep::ImportHistory, Some((Status::SUCCESS, "Database connection established."@))),
        },
        StartupStep::ImportHistory => match outcome {
            OutcomeView::Failed(e) => (StartupStep::Reconnect, Some((Status::ERROR, "Failed to load history: "@ + e))),
            _ => (StartupStep::Reconnect, None),
        },
        StartupStep::Reconnect => match outcome {
            OutcomeView::Failed(_) => (StartupStep::Setup, None),
            _ => (StartupStep::EnsureColumnAgain, None),
        },
        StartupStep::EnsureColumnAgain => match outcome {
            OutcomeView::Failed(e) => (StartupStep::Setup, Some((Status::ERROR, "Failed to update schema: "@ + e))),
            _ => (StartupStep::Setup, None),
        },
        StartupStep::Setup => (StartupStep::DetectShell, None),
        StartupStep::DetectShell => (StartupStep::RunTui, None),
        StartupStep::RunTui => match outcome {
            OutcomeView::Failed(e) => (StartupStep::Done, Some((Status::ERROR, "TUI failed: "@ + e))),
            _ => (StartupStep::Done, None),
        },
        StartupStep::Done => (StartupStep::Done, None),
    }
}

/// The value of an optional message.
pub open spec fn log_view(l: Option<LogLine>) -> Option<(Status, Seq<char>)> {
    match l {
        Some(x) => Some((x.status, x.text@)),
        None => None,
    }
}

/// A message of kind `status` made of `head` followed by `tail`.
fn log_line(status: Status, head: &str, tail: &str) -> (l: LogLine)
    ensures
        l.status == status,
        l.text@ == head@ + tail@,
{
    LogLine { status, text: concat_str(head, tail) }
}

/// The step after `step` went as `outcome`, and the message to print (see
/// [`startup_next`]).
pub fn next_step(step: StartupStep, outcome: &Outcome) -> (r: (StartupStep, Option<LogLine>))
    ensures
        (r.0, log_view(r.1)) == startup_next(step, outcome@),
{
    match step {
        StartupStep::CheckHistory => match outcome {
            Outcome::Answer(true) => (StartupStep::Reconnect, None),
            _ => (StartupStep::Connect, None),
        },
        StartupStep::Connect => match outcome {
            Outcome::Failed(e) => (
                StartupStep::ImportHistory,
                Some(log_line(Status::ERROR, "Failed to establish database connection: ", e.as_str())),
            ),
            _ => (StartupStep::CreateDb, None),
        },
        StartupStep::CreateDb => match outcome {
            Outcome::Failed(e) => (
                StartupStep::Done,
                Some(log_line(Status::ERROR, "Failed to create database: ", e.as_str())),
            ),
            _ => (StartupStep::EnsureColumn, None),
        },
        StartupStep::EnsureColumn => match outcome {
            Outcome::Failed(e) => (
                StartupStep::Done,
                Some(log_line(Status::ERROR, "Failed to update schema: ", e.as_str())),
            ),
            _ => (
                StartupStep::ImportHistory,
                Some(LogLine { status: Status::SUCCESS, text: "Database connection established.".to_string() }),
            ),
        },
        StartupStep::ImportHistory => match outcome {
            Outcome::Failed(e) => (
                StartupStep::Reconnect,
                Some(log_line(Status::ERROR, "Failed to load history: ", e.as_str())),
            ),
            _ => (StartupStep::Reconnect, None),
        },
        StartupStep::Reconnect => match outcome {
            Outcome::Failed(_) => (StartupStep::Setup, None),
            _ => (StartupStep::EnsureColumnAgain, None),
        },
        StartupStep::EnsureColumnAgain => match outcome {
            Outcome::Failed(e) => (
                StartupStep::Setup,
                Some(log_line(Status::ERROR, "Failed to update schema: ", e.as_str())),
            ),
            _ => (StartupStep::Setup, None),
        },
        StartupStep::Setup => (StartupStep::DetectShell, None),
        StartupStep::DetectShell => (StartupStep::RunTui, None),
        StartupStep::RunTui => match outcome {
            Outcome::Failed(e) => (StartupStep::Done, Some(log_line(Status::ERROR, "TUI failed: ", e.as_str()))),
            _ => (StartupStep::Done, None),
        },
        StartupStep::Done => (StartupStep::Done, None),
    }
}

/// The rank of a step in the sequence; every transition out of a step that
/// is not over moves to a later one.
pub open spec fn step_rank(step: StartupStep) -> int {
    match step {
        StartupStep::CheckHistory => 0,
        StartupStep::Connect => 1,
        StartupStep::CreateDb => 2,
        StartupStep::EnsureColumn => 3,
        StartupStep::ImportHistory => 4,
        StartupStep::Reconnect => 5,
        StartupStep::EnsureColumnAgain => 6,
        StartupStep::Setup => 7,
        StartupStep::DetectShell => 8,
        StartupStep::RunTui => 9,
        StartupStep::Done => 10,
    }
}

/// The start-up sequence always ends: every step other than the last moves
/// to a later one, whatever its outcome.
pub proof fn lemma_startup_progresses(step: StartupStep, outcome: OutcomeView)
    requires
        step != StartupStep::Done,
    ensures
        step_rank(startup_next(step, outcome).0) > step_rank(step),
{
}

/// Once the history has been checked, the interface is reached unless the
/// database cannot be created or given its `user` column before the first
/// import: from the reconnection on, no outcome skips it.
pub proof fn lemma_interface_reached(step: StartupStep, outcome: OutcomeView)
    requires
        step_rank(step) >= 5,
        step != StartupStep::RunTui,
        step != StartupStep::Done,
    ensures
        step_rank(startup_next(step, outcome).0) <= 9,
{
}

} // verus!
