//! The vocabulary shared by every component: what a component asks its driver
//! to do (`Action`), what the driver answers (`Event`), and how a run ends
//! (`Outcome`). The components decide; the driver spawns processes, reads
//! files and talks to the user.

use vstd::prelude::*;
use vstd::utf8::{decode_utf8, valid_utf8};
use crate::text::views;

verus! {

/// A program to run with its arguments, in order.
#[derive(Debug)]
pub struct Invocation {
    pub program: String,
    pub args: Vec<String>,
}

pub struct InvocationView {
    pub program: Seq<char>,
    pub args: Seq<Seq<char>>,
}

impl View for Invocation {
    type V = InvocationView;

    open spec fn view(&self) -> InvocationView {
        InvocationView { program: self.program@, args: views(self.args@) }
    }
}

/// What a finished process left behind, before any decoding.
#[derive(Debug)]
pub struct Captured {
    pub succeeded: bool,
    pub stdout: Vec<u8>,
    pub stderr: Vec<u8>,
}

pub struct CapturedView {
    pub succeeded: bool,
    pub stdout: Seq<u8>,
    pub stderr: Seq<u8>,
}

impl View for Captured {
    type V = CapturedView;

    open spec fn view(&self) -> CapturedView {
        CapturedView { succeeded: self.succeeded, stdout: self.stdout@, stderr: self.stderr@ }
    }
}

/// The result of one invocation, or the aggregate of several: whether it
/// passed, and the output to show where it did not.
#[derive(Debug)]
pub struct RunResult {
    pub succeeded: bool,
    pub stdout: String,
    pub stderr: String,
}

pub struct RunResultView {
    pub succeeded: bool,
    pub stdout: Seq<char>,
    pub stderr: Seq<char>,
}

impl View for RunResult {
    type V = RunResultView;

    open spec fn view(&self) -> RunResultView {
        RunResultView { succeeded: self.succeeded, stdout: self.stdout@, stderr: self.stderr@ }
    }
}

/// A part of the configuration that a request needs and that is not there.
#[derive(Debug, Clone, Copy, PartialEq, Eq, Structural)]
pub enum Missing {
    /// There is no configuration at all.
    Configuration,
    /// No linter is configured.
    Lint,
    /// No tester is configured.
    Test,
}

/// Why a run failed.
#[derive(Debug)]
pub enum Failure {
    /// What was asked for is not configured.
    NotConfigured(Missing),
    /// The named command is not on the search path.
    CommandNotFound(String),
    /// Arguments were configured for the validator, and none is the placeholder.
    MissingPlaceholder,
    /// The command ran and exited with a non-zero status.
    Rejected(RunResult),
    /// The file pattern is not a regular expression that can be compiled.
    InvalidPattern(String),
    /// Output of a process, or the content of a file, is not valid UTF-8.
    Undecodable,
    /// The file at this path could not be read.
    Unreadable(String),
    /// The user gave up correcting a rejected commit message.
    Aborted,
    /// The driver answered with an event that the pending action does not call for.
    Unexpected,
}

pub enum FailureView {
    NotConfigured(Missing),
    CommandNotFound(Seq<char>),
    MissingPlaceholder,
    Rejected(RunResultView),
    InvalidPattern(Seq<char>),
    Undecodable,
    Unreadable(Seq<char>),
    Aborted,
    Unexpected,
}

impl View for Failure {
    type V = FailureView;

    open spec fn view(&self) -> FailureView {
        match self {
            Failure::NotConfigured(missing) => FailureView::NotConfigured(*missing),
            Failure::CommandNotFound(name) => FailureView::CommandNotFound(name@),
            Failure::MissingPlaceholder => FailureView::MissingPlaceholder,
            Failure::Rejected(result) => FailureView::Rejected(result@),
            Failure::InvalidPattern(pattern) => FailureView::InvalidPattern(pattern@),
            Failure::Undecodable => FailureView::Undecodable,
            Failure::Unreadable(path) => FailureView::Unreadable(path@),
            Failure::Aborted => FailureView::Aborted,
            Failure::Unexpected => FailureView::Unexpected,
        }
    }
}

/// How a run ended.
#[derive(Debug)]
pub enum Outcome {
    /// Every enabled stage succeeded; nothing goes to standard output.
    Passed,
    /// The commit message was accepted; this text goes to standard output.
    Message(String),
    /// The run failed; nothing goes to standard output.
    Failed(Failure),
}

pub enum OutcomeView {
    Passed,
    Message(Seq<char>),
    Failed(FailureView),
}

impl View for Outcome {
    type V = OutcomeView;

    open spec fn view(&self) -> OutcomeView {
        match self {
            Outcome::Passed => OutcomeView::Passed,
            Outcome::Message(text) => OutcomeView::Message(text@),
            Outcome::Failed(failure) => OutcomeView::Failed(failure@),
        }
    }
}

impl OutcomeView {
    /// The exit status that the process ends with.
    pub open spec fn exit_code(self) -> int {
        match self {
            OutcomeView::Failed(_) => 1,
            _ => 0,
        }
    }

    /// What the process writes to standard output before it ends.
    pub open spec fn standard_output(self) -> Option<Seq<char>> {
        match self {
            OutcomeView::Message(text) => Some(text),
            _ => None,
        }
    }
}

impl Outcome {
    /// The exit status that the process ends with: 0 unless the run failed.
    pub fn exit_code(&self) -> (code: i32)
        ensures
            code == self@.exit_code(),
    {
        match self {
            Outcome::Failed(_) => 1,
            _ => 0,
        }
    }
}

/// What a component asks its driver to do next.
#[derive(Debug)]
pub enum Action {
    /// Show `notice`, if any, to the user; run the invocation, wait for it to
    /// end, and answer with `Event::Exited`.
    Spawn { invocation: Invocation, notice: Option<String> },
    /// Read the whole file at this path and answer with `Event::Loaded`.
    Read(String),
    /// Show `report` to the user, let them edit `draft`, and answer with
    /// `Event::Edited`.
    Edit { draft: String, report: RunResult },
    /// End the run with this outcome.
    Finish(Outcome),
}

pub enum ActionView {
    Spawn { invocation: InvocationView, notice: Option<Seq<char>> },
    Read(Seq<char>),
    Edit { draft: Seq<char>, report: RunResultView },
    Finish(OutcomeView),
}

/// The view of an optional string.
pub open spec fn option_view(text: Option<String>) -> Option<Seq<char>> {
    match text {
        Some(t) => Some(t@),
        None => None,
    }
}

impl View for Action {
    type V = ActionView;

    open spec fn view(&self) -> ActionView {
        match self {
            Action::Spawn { invocation, notice } => ActionView::Spawn {
                invocation: invocation@,
                notice: option_view(*notice),
            },
            Action::Read(path) => ActionView::Read(path@),
            Action::Edit { draft, report } => ActionView::Edit { draft: draft@, report: report@ },
            Action::Finish(outcome) => ActionView::Finish(outcome@),
        }
    }
}

/// What the driver answers after it has carried out an action.
#[derive(Debug)]
pub enum Event {
    /// The spawned process ended.
    Exited(Captured),
    /// The bytes of the file, or `None` where it could not be read.
    Loaded(Option<Vec<u8>>),
    /// The text that the user left, or `None` where they gave up.
    Edited(Option<String>),
}

pub enum EventView {
    Exited(CapturedView),
    Loaded(Option<Seq<u8>>),
    Edited(Option<Seq<char>>),
}

impl View for Event {
    type V = EventView;

    open spec fn view(&self) -> EventView {
        match self {
            Event::Exited(captured) => EventView::Exited(captured@),
            Event::Loaded(bytes) => EventView::Loaded(
                match bytes {
                    Some(b) => Some(b@),
                    None => None,
                },
            ),
            Event::Edited(text) => EventView::Edited(option_view(*text)),
        }
    }
}

/// Calls `String::from_utf8`, which hands the bytes back as a string exactly
/// when they are valid UTF-8. The contract states that, and that the string
/// then holds the characters that the bytes encode.
#[verifier::external_body]
fn string_from_utf8(bytes: Vec<u8>) -> (text: Option<String>)
    ensures
        text is Some <==> valid_utf8(bytes@),
        text matches Some(t) ==> t@ == decode_utf8(bytes@),
{
    match String::from_utf8(bytes) {
        Ok(t) => Some(t),
        Err(_) => None,
    }
}

/// The text that `bytes` encode, where they are valid UTF-8.
pub open spec fn decoded(bytes: Seq<u8>) -> Option<Seq<char>> {
    if valid_utf8(bytes) {
        Some(decode_utf8(bytes))
    } else {
        None
    }
}

/// Decodes `bytes` as UTF-8.
pub fn decode(bytes: Vec<u8>) -> (text: Result<String, Failure>)
    ensures
        match decoded(bytes@) {
            Some(t) => text matches Ok(s) && s@ == t,
            None => text matches Err(f) && f@ == FailureView::Undecodable,
        },
{
    match string_from_utf8(bytes) {
        Some(t) => Ok(t),
        None => Err(Failure::Undecodable),
    }
}

/// A result that passed and kept no output.
pub open spec fn passed() -> RunResultView {
    RunResultView { succeeded: true, stdout: Seq::empty(), stderr: Seq::empty() }
}

impl CapturedView {
    /// How an ended process is judged. Success goes by the exit status alone
    /// and keeps no output. The output of a failed process is decoded for
    /// showing; where it cannot be, that is the failure.
    pub open spec fn judged(self) -> Result<RunResultView, FailureView> {
        if self.succeeded {
            Ok(passed())
        } else {
            match (decoded(self.stdout), decoded(self.stderr)) {
                (Some(out), Some(err)) => Ok(
                    RunResultView { succeeded: false, stdout: out, stderr: err },
                ),
                _ => Err(FailureView::Undecodable),
            }
        }
    }
}

impl RunResultView {
    /// The outcome of a run whose result this is.
    pub open spec fn outcome(self) -> OutcomeView {
        if self.succeeded {
            OutcomeView::Passed
        } else {
            OutcomeView::Failed(FailureView::Rejected(self))
        }
    }
}

/// The outcome that ends a run once its last process has been judged.
pub open spec fn verdict(judged: Result<RunResultView, FailureView>) -> OutcomeView {
    match judged {
        Ok(result) => result.outcome(),
        Err(failure) => OutcomeView::Failed(failure),
    }
}

impl Captured {
    /// Judges an ended process: see `CapturedView::judged`.
    pub fn judge(self) -> (result: Result<RunResult, Failure>)
        ensures
            match self@.judged() {
                Ok(r) => result matches Ok(got) && got@ == r,
                Err(f) => result matches Err(got) && got@ == f,
            },
    {
        if self.succeeded {
            Ok(RunResult { succeeded: true, stdout: String::new(), stderr: String::new() })
        } else {
            let stdout = match decode(self.stdout) {
                Ok(t) => t,
                Err(f) => {
                    return Err(f);
                },
            };
            let stderr = match decode(self.stderr) {
                Ok(t) => t,
                Err(f) => {
                    return Err(f);
                },
            };
            Ok(RunResult { succeeded: false, stdout, stderr })
        }
    }
}

impl RunResult {
    /// The outcome of a run whose result this is: passed, or rejected with
    /// the output that was captured.
    pub fn outcome(self) -> (outcome: Outcome)
        ensures
            outcome@ == self@.outcome(),
    {
        if self.succeeded {
            Outcome::Passed
        } else {
            Outcome::Failed(Failure::Rejected(self))
        }
    }
}

} // verus!
