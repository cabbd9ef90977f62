//! The linter: runs the configured command on the whole project, or once for
//! each staged file that the file pattern selects.

use vstd::prelude::*;
use crate::config::{Cmd, CmdView};
use crate::pattern::{filter_matching, matching, regex_compiles};
use crate::process::{
    decode, decoded, passed, verdict, Action, ActionView, CapturedView, Event, EventView, Failure,
    FailureView, Invocation, InvocationView, Outcome, OutcomeView, RunResult, RunResultView,
};
use crate::text::{split, split_on, views};

verus! {

/// A lint command, the pattern of the files it is for, and whether it runs
/// once for each staged file that the pattern selects (`single_file`) or once
/// for the whole project.
#[derive(Debug, Clone)]
pub struct Lint {
    pub command: Cmd,
    pub file_ext: String,
    pub single_file: bool,
}

pub struct LintView {
    pub command: CmdView,
    pub file_ext: Seq<char>,
    pub single_file: bool,
}

impl View for Lint {
    type V = LintView;

    open spec fn view(&self) -> LintView {
        LintView {
            command: self.command@,
            file_ext: self.file_ext@,
            single_file: self.single_file,
        }
    }
}

/// Where a run of the linter stands.
#[derive(Debug)]
pub enum LintState {
    /// Waiting to learn whether the command exists.
    Probing,
    /// Waiting for the list of staged files.
    Listing,
    /// Waiting for the one run on the whole project to end.
    Running,
    /// Waiting for the run on one file to end. `pending` holds the files
    /// still to come, `result` the aggregate of the runs that have ended.
    Sweeping { pending: Vec<String>, result: RunResult },
    /// The run has ended.
    Finished,
}

pub enum LintStateView {
    Probing,
    Listing,
    Running,
    Sweeping { pending: Seq<Seq<char>>, result: RunResultView },
    Finished,
}

impl View for LintState {
    type V = LintStateView;

    open spec fn view(&self) -> LintStateView {
        match self {
            LintState::Probing => LintStateView::Probing,
            LintState::Listing => LintStateView::Listing,
            LintState::Running => LintStateView::Running,
            LintState::Sweeping { pending, result } => LintStateView::Sweeping {
                pending: views(pending@),
                result: result@,
            },
            LintState::Finished => LintStateView::Finished,
        }
    }
}

/// The invocation that lists the staged files, one name on each line.
pub open spec fn staged_listing() -> InvocationView {
    InvocationView { program: "git"@, args: seq!["diff"@, "--cached"@, "--name-only"@] }
}

/// The aggregate after one more run: a failed run takes the place of what
/// was there, a passed one leaves it.
pub open spec fn aggregate(so_far: RunResultView, run: RunResultView) -> RunResultView {
    if run.succeeded {
        so_far
    } else {
        run
    }
}

impl LintView {
    /// The files that a run for each file is for: the lines of the list of
    /// staged files that are not empty and that the file pattern matches, in
    /// the order of the list.
    pub open spec fn targets(self, listing: Seq<char>) -> Seq<Seq<char>> {
        matching(self.file_ext, split_on(listing, '\n'))
    }

    /// The invocation for one file: the configured arguments, then the file's
    /// name as the last argument.
    pub open spec fn file_invocation(self, file: Seq<char>) -> InvocationView {
        InvocationView {
            program: self.command.name,
            args: self.command.invocation(Seq::empty()).args.push(file),
        }
    }

    /// The invocation for the whole project: the configured arguments and
    /// nothing else.
    pub open spec fn project_invocation(self) -> InvocationView {
        self.command.invocation(Seq::empty())
    }

    /// How a run starts: by asking whether the command exists.
    pub open spec fn begin(self) -> (LintStateView, ActionView) {
        (
            LintStateView::Probing,
            ActionView::Spawn { invocation: self.command.probe(), notice: None },
        )
    }

    /// Ends the run with `failure`.
    pub open spec fn fail(failure: FailureView) -> (LintStateView, ActionView) {
        (LintStateView::Finished, ActionView::Finish(OutcomeView::Failed(failure)))
    }

    /// The action that starts the run on one file: its name is announced,
    /// then the command is spawned for it.
    pub open spec fn file_action(self, file: Seq<char>) -> ActionView {
        ActionView::Spawn { invocation: self.file_invocation(file), notice: Some(file) }
    }

    /// Goes on to the first of the `pending` files, or ends the run with the
    /// aggregate where none is left.
    pub open spec fn sweep(self, pending: Seq<Seq<char>>, result: RunResultView) -> (
        LintStateView,
        ActionView,
    ) {
        if pending.len() == 0 {
            (LintStateView::Finished, ActionView::Finish(result.outcome()))
        } else {
            (
                LintStateView::Sweeping { pending: pending.drop_first(), result },
                self.file_action(pending[0]),
            )
        }
    }

    /// How a run goes on after `event`.
    pub open spec fn step(self, state: LintStateView, event: EventView) -> (
        LintStateView,
        ActionView,
    ) {
        match (state, event) {
            (LintStateView::Probing, EventView::Exited(probe)) => {
                if !probe.succeeded {
                    Self::fail(FailureView::CommandNotFound(self.command.name))
                } else if self.single_file {
                    (
                        LintStateView::Listing,
                        ActionView::Spawn { invocation: staged_listing(), notice: None },
                    )
                } else {
                    (
                        LintStateView::Running,
                        ActionView::Spawn { invocation: self.project_invocation(), notice: None },
                    )
                }
            },
            (LintStateView::Listing, EventView::Exited(listed)) => {
                match decoded(listed.stdout) {
                    None => Self::fail(FailureView::Undecodable),
                    Some(listing) => {
                        if regex_compiles(self.file_ext) {
                            self.sweep(self.targets(listing), passed())
                        } else {
                            Self::fail(FailureView::InvalidPattern(self.file_ext))
                        }
                    },
                }
            },
            (LintStateView::Running, EventView::Exited(run)) => (
                LintStateView::Finished,
                ActionView::Finish(verdict(run.judged())),
            ),
            (LintStateView::Sweeping { pending, result }, EventView::Exited(run)) => {
                match run.judged() {
                    Ok(judged) => self.sweep(pending, aggregate(result, judged)),
                    Err(failure) => Self::fail(failure),
                }
            },
            _ => Self::fail(FailureView::Unexpected),
        }
    }
}

impl LintView {
    /// The actions with which a run answers `events`, handed to it one after
    /// another from `state` on.
    pub open spec fn answers(self, state: LintStateView, events: Seq<EventView>) -> Seq<
        ActionView,
    >
        decreases events.len(),
    {
        if events.len() == 0 {
            Seq::empty()
        } else {
            seq![self.step(state, events[0]).1] + self.answers(
                self.step(state, events[0]).0,
                events.skip(1),
            )
        }
    }
}

/// The events that report the end of each of `runs`, in order.
pub open spec fn exits(runs: Seq<CapturedView>) -> Seq<EventView> {
    Seq::new(runs.len(), |i: int| EventView::Exited(runs[i]))
}

/// The aggregate of the runs on the files: the result of the last run that
/// failed, or a pass where none did.
pub open spec fn swept(runs: Seq<CapturedView>) -> RunResultView
    decreases runs.len(),
{
    if runs.len() == 0 {
        passed()
    } else if !runs.last().succeeded {
        match runs.last().judged() {
            Ok(result) => result,
            Err(_) => passed(),
        }
    } else {
        swept(runs.drop_last())
    }
}

/// The aggregate passes exactly when every run succeeded, and then it is
/// the plain pass.
pub proof fn lemma_swept_passes(runs: Seq<CapturedView>)
    requires
        forall|i: int| 0 <= i < runs.len() ==> runs[i].judged() is Ok,
    ensures
        swept(runs).succeeded <==> forall|i: int| 0 <= i < runs.len() ==> runs[i].succeeded,
        swept(runs).succeeded ==> swept(runs) == passed(),
    decreases runs.len(),
{
    if runs.len() > 0 {
        let front = runs.drop_last();
        lemma_swept_passes(front);
        if runs.last().succeeded {
            if swept(front).succeeded {
                assert forall|i: int| 0 <= i < runs.len() implies runs[i].succeeded by {
                    if i < front.len() {
                        assert(front[i] == runs[i]);
                    }
                }
            } else {
                let i = choose|i: int| 0 <= i < front.len() && !front[i].succeeded;
                assert(!runs[i].succeeded);
            }
        } else {
            assert(runs[runs.len() - 1].judged() is Ok);
        }
    }
}

/// The aggregate of runs is that of all but the first, unless those all
/// passed: then it is the result of the first.
proof fn lemma_swept_first(runs: Seq<CapturedView>)
    requires
        runs.len() > 0,
        forall|i: int| 0 <= i < runs.len() ==> runs[i].judged() is Ok,
    ensures
        runs[0].judged() matches Ok(first) && swept(runs) == aggregate(
            first,
            swept(runs.skip(1)),
        ),
    decreases runs.len(),
{
    let rest = runs.skip(1);
    if runs.len() == 1 {
        assert(rest =~= Seq::empty());
        assert(runs.drop_last() =~= Seq::empty());
        assert(runs.last() == runs[0]);
    } else {
        let front = runs.drop_last();
        assert(front.skip(1) =~= rest.drop_last());
        assert(rest.last() == runs.last());
        assert(front[0] == runs[0]);
        assert forall|i: int| 0 <= i < front.len() implies front[i].judged() is Ok by {
            assert(front[i] == runs[i]);
        }
        lemma_swept_first(front);
        assert(runs[runs.len() - 1].judged() is Ok);
    }
}

/// A run that has ended spawns nothing more: whatever events follow, it
/// answers each by ending again, as to an event that was not called for.
pub proof fn lemma_ended(lint: LintView, events: Seq<EventView>)
    ensures
        lint.answers(LintStateView::Finished, events).len() == events.len(),
        forall|i: int|
            0 <= i < events.len() ==> lint.answers(LintStateView::Finished, events)[i]
                == ActionView::Finish(OutcomeView::Failed(FailureView::Unexpected)),
    decreases events.len(),
{
    if events.len() > 0 {
        lemma_ended(lint, events.skip(1));
    }
}

/// Where the command is not on the search path, the run ends in answer to
/// the probe, with the failure that names the command and exit status 1, and
/// no process is spawned then or later: the command itself is never run.
pub proof fn lemma_missing_command(lint: LintView, probe: CapturedView, later: Seq<EventView>)
    requires
        !probe.succeeded,
    ensures
        lint.step(lint.begin().0, EventView::Exited(probe)) == LintView::fail(
            FailureView::CommandNotFound(lint.command.name),
        ),
        OutcomeView::Failed(FailureView::CommandNotFound(lint.command.name)).exit_code() == 1,
        forall|i: int|
            0 <= i <= later.len() ==> !(lint.answers(
                lint.begin().0,
                seq![EventView::Exited(probe)] + later,
            )[i] is Spawn),
{
    let events = seq![EventView::Exited(probe)] + later;
    assert(events.skip(1) =~= later);
    lemma_ended(lint, later);
}

/// A linter for the whole project runs its command exactly once, with the
/// configured arguments and no file name added, and passes exactly when that
/// process succeeds. Whatever events follow spawn nothing more.
pub proof fn lemma_project_run(
    lint: LintView,
    probe: CapturedView,
    run: CapturedView,
    later: Seq<EventView>,
)
    requires
        !lint.single_file,
        probe.succeeded,
    ensures
        ({
            let answers = lint.answers(
                lint.begin().0,
                seq![EventView::Exited(probe), EventView::Exited(run)] + later,
            );
            &&& answers.len() == 2 + later.len()
            &&& answers[0] == ActionView::Spawn {
                invocation: lint.project_invocation(),
                notice: None,
            }
            &&& lint.project_invocation().program == lint.command.name
            &&& lint.project_invocation().args == match lint.command.args {
                Some(args) => args,
                None => Seq::empty(),
            }
            &&& answers[1] == ActionView::Finish(verdict(run.judged()))
            &&& verdict(run.judged()) == OutcomeView::Passed <==> run.succeeded
            &&& forall|i: int| 2 <= i < answers.len() ==> !(answers[i] is Spawn)
        }),
{
    let events = seq![EventView::Exited(probe), EventView::Exited(run)] + later;
    let rest = events.skip(1);
    assert(rest.skip(1) =~= later);
    assert(rest[0] == EventView::Exited(run));
    lemma_ended(lint, later);
    assert(lint.answers(LintStateView::Running, rest) == seq![
        ActionView::Finish(verdict(run.judged())),
    ] + lint.answers(LintStateView::Finished, later));
}

/// From the point where `pending` files are still to come: while every run
/// can be judged, the files are taken in order, one run each, and the run
/// ends with the aggregate of what was there and the runs on these files.
pub proof fn lemma_sweep(
    lint: LintView,
    pending: Seq<Seq<char>>,
    result: RunResultView,
    runs: Seq<CapturedView>,
)
    requires
        runs.len() == pending.len(),
        forall|i: int| 0 <= i < runs.len() ==> runs[i].judged() is Ok,
    ensures
        seq![lint.sweep(pending, result).1] + lint.answers(
            lint.sweep(pending, result).0,
            exits(runs),
        ) == Seq::new(pending.len(), |i: int| lint.file_action(pending[i])) + seq![
            ActionView::Finish(aggregate(result, swept(runs)).outcome()),
        ],
    decreases pending.len(),
{
    let spawned = Seq::new(pending.len(), |i: int| lint.file_action(pending[i]));
    let end = seq![ActionView::Finish(aggregate(result, swept(runs)).outcome())];
    let first = lint.sweep(pending, result);
    if pending.len() == 0 {
        assert(exits(runs) =~= Seq::empty());
        assert(seq![first.1] + lint.answers(first.0, exits(runs)) =~= spawned + end);
    } else {
        let rest = pending.drop_first();
        let later = runs.skip(1);
        let judged = runs[0].judged()->Ok_0;
        assert(runs[0].judged() is Ok);
        assert(exits(runs)[0] == EventView::Exited(runs[0]));
        assert(exits(runs).skip(1) =~= exits(later));
        assert forall|i: int| 0 <= i < later.len() implies later[i].judged() is Ok by {
            assert(later[i] == runs[i + 1]);
        }
        lemma_sweep(lint, rest, aggregate(result, judged), later);
        lemma_swept_first(runs);
        lemma_swept_passes(later);
        let second = lint.sweep(rest, aggregate(result, judged));
        assert(lint.step(first.0, exits(runs)[0]) == second);
        assert(lint.answers(first.0, exits(runs)) == seq![second.1] + lint.answers(
            second.0,
            exits(later),
        ));
        let spawned_rest = Seq::new(rest.len(), |i: int| lint.file_action(rest[i]));
        assert(spawned =~= seq![first.1] + spawned_rest);
        assert(aggregate(aggregate(result, judged), swept(later)) == aggregate(
            result,
            swept(runs),
        ));
        assert(seq![first.1] + (spawned_rest + end) =~= spawned + end);
    }
}

/// A linter for single files, whose pattern compiles: the staged files are
/// listed; then the command is run exactly once for each line of the list
/// that is not empty and that the pattern matches, in the order of the list,
/// with the file's name as its last argument, and for no other line; then
/// the run ends. It passes exactly when each of these runs succeeded, and
/// else shows the output of the last that failed. This holds while the list
/// and the output of every failed run are valid UTF-8.
pub proof fn lemma_file_runs(
    lint: LintView,
    probe: CapturedView,
    listed: CapturedView,
    runs: Seq<CapturedView>,
)
    requires
        lint.single_file,
        probe.succeeded,
        regex_compiles(lint.file_ext),
        decoded(listed.stdout) is Some,
        runs.len() == lint.targets(decoded(listed.stdout)->0).len(),
        forall|i: int| 0 <= i < runs.len() ==> runs[i].judged() is Ok,
    ensures
        ({
            let files = lint.targets(decoded(listed.stdout)->0);
            lint.answers(
                lint.begin().0,
                seq![EventView::Exited(probe), EventView::Exited(listed)] + exits(runs),
            ) == seq![ActionView::Spawn { invocation: staged_listing(), notice: None }] + Seq::new(
                files.len(),
                |i: int| lint.file_action(files[i]),
            ) + seq![ActionView::Finish(swept(runs).outcome())]
        }),
        forall|file: Seq<char>| #[trigger]
            lint.file_invocation(file).args.last() == file && lint.file_invocation(
                file,
            ).args.drop_last() == lint.project_invocation().args,
        swept(runs).outcome() == OutcomeView::Passed <==> forall|i: int|
            0 <= i < runs.len() ==> runs[i].succeeded,
{
    let files = lint.targets(decoded(listed.stdout)->0);
    let events = seq![EventView::Exited(probe), EventView::Exited(listed)] + exits(runs);
    let rest = events.skip(1);
    assert(rest[0] == EventView::Exited(listed));
    assert(rest.skip(1) =~= exits(runs));
    lemma_sweep(lint, files, passed(), runs);
    lemma_swept_passes(runs);
    let first = lint.sweep(files, passed());
    assert(lint.step(LintStateView::Listing, rest[0]) == first);
    assert(lint.answers(LintStateView::Listing, rest) == seq![first.1] + lint.answers(
        first.0,
        exits(runs),
    ));
    assert(aggregate(passed(), swept(runs)) == swept(runs));
    assert forall|file: Seq<char>| #[trigger]
        lint.file_invocation(file).args.last() == file && lint.file_invocation(
            file,
        ).args.drop_last() == lint.project_invocation().args by {
        assert(lint.project_invocation().args.push(file).drop_last()
            =~= lint.project_invocation().args);
    }
}

/// Two linters with the same configuration answer the same events with the
/// same actions: a run depends on nothing but the configuration and on what
/// the driver reports.
pub proof fn lemma_same_answers(first: Lint, second: Lint, events: Seq<EventView>)
    requires
        first@ == second@,
    ensures
        first@.begin() == second@.begin(),
        first@.answers(first@.begin().0, events) == second@.answers(second@.begin().0, events),
{
}

impl Lint {
    /// A linter for `command` on the files that `file_ext` matches.
    pub fn init(command: Cmd, file_ext: String, single_file: bool) -> (lint: Lint)
        ensures
            lint.command == command,
            lint.file_ext == file_ext,
            lint.single_file == single_file,
    {
        Lint { command, file_ext, single_file }
    }

    /// The files of `listing` that a run for each file is for, or the failure
    /// where the file pattern does not compile.
    pub fn targets(&self, listing: &str) -> (files: Result<Vec<String>, Failure>)
        ensures
            files is Ok <==> regex_compiles(self@.file_ext),
            files matches Ok(f) ==> views(f@) == self@.targets(listing@),
            files matches Err(e) ==> e@ == FailureView::InvalidPattern(self@.file_ext),
    {
        let lines = split(listing, '\n');
        match filter_matching(self.file_ext.as_str(), &lines) {
            Some(files) => Ok(files),
            None => Err(Failure::InvalidPattern(self.file_ext.clone())),
        }
    }

    /// The invocation for one file.
    pub fn file_invocation(&self, file: &str) -> (invocation: Invocation)
        ensures
            invocation@ == self@.file_invocation(file@),
    {
        let mut invocation = self.command.invoke(Vec::new());
        proof {
            assert(views(Seq::<String>::empty()) =~= Seq::empty());
        }
        let last = file.to_owned();
        proof {
            assert(views(invocation.args@.push(last)) =~= views(invocation.args@).push(file@));
        }
        invocation.args.push(last);
        invocation
    }

    /// Goes on to the first of the `pending` files, or ends the run.
    fn sweep(&self, pending: Vec<String>, result: RunResult) -> (next: (LintState, Action))
        ensures
            (next.0@, next.1@) == self@.sweep(views(pending@), result@),
    {
        let mut pending = pending;
        if pending.len() == 0 {
            (LintState::Finished, Action::Finish(result.outcome()))
        } else {
            let ghost before = pending@;
            let file = pending.remove(0);
            proof {
                assert(views(pending@) =~= views(before).drop_first());
            }
            let invocation = self.file_invocation(file.as_str());
            (LintState::Sweeping { pending, result }, Action::Spawn { invocation, notice: Some(file) })
        }
    }

    /// Starts a run: the state to keep, and the first thing to do.
    pub fn run(&self) -> (started: (LintState, Action))
        ensures
            (started.0@, started.1@) == self@.begin(),
    {
        (LintState::Probing, Action::Spawn { invocation: self.command.check(), notice: None })
    }

    /// Goes on with a run after the driver has carried out the last action:
    /// the state to keep, and the next thing to do.
    pub fn resume(&self, state: LintState, event: Event) -> (next: (LintState, Action))
        ensures
            (next.0@, next.1@) == self@.step(state@, event@),
    {
        match (state, event) {
            (LintState::Probing, Event::Exited(probe)) => {
                if !probe.succeeded {
                    fail(Failure::CommandNotFound(self.command.name.clone()))
                } else if self.single_file {
                    (LintState::Listing, Action::Spawn { invocation: list_staged(), notice: None })
                } else {
                    let invocation = self.command.invoke(Vec::new());
                    proof {
                        assert(views(Seq::<String>::empty()) =~= Seq::empty());
                    }
                    (LintState::Running, Action::Spawn { invocation, notice: None })
                }
            },
            (LintState::Listing, Event::Exited(listed)) => {
                match decode(listed.stdout) {
                    Err(failure) => fail(failure),
                    Ok(listing) => match self.targets(listing.as_str()) {
                        Ok(files) => self.sweep(
                            files,
                            RunResult {
                                succeeded: true,
                                stdout: String::new(),
                                stderr: String::new(),
                            },
                        ),
                        Err(failure) => fail(failure),
                    },
                }
            },
            (LintState::Running, Event::Exited(run)) => {
                let outcome = match run.judge() {
                    Ok(result) => result.outcome(),
                    Err(failure) => Outcome::Failed(failure),
                };
                (LintState::Finished, Action::Finish(outcome))
            },
            (LintState::Sweeping { pending, result }, Event::Exited(run)) => {
                match run.judge() {
                    Ok(judged) => {
                        if judged.succeeded {
                            self.sweep(pending, result)
                        } else {
                            self.sweep(pending, judged)
                        }
                    },
                    Err(failure) => fail(failure),
                }
            },
            _ => fail(Failure::Unexpected),
        }
    }
}

/// Ends the run with `failure`.
fn fail(failure: Failure) -> (next: (LintState, Action))
    ensures
        (next.0@, next.1@) == LintView::fail(failure@),
{
    (LintState::Finished, Action::Finish(Outcome::Failed(failure)))
}

/// The invocation that lists the staged files.
pub fn list_staged() -> (invocation: Invocation)
    ensures
        invocation@ == staged_listing(),
{
    let mut args: Vec<String> = Vec::new();
    args.push("diff".to_owned());
    args.push("--cached".to_owned());
    args.push("--name-only".to_owned());
    proof {
        assert(views(args@) =~= seq!["diff"@, "--cached"@, "--name-only"@]);
    }
    Invocation { program: "git".to_owned(), args }
}

} // verus!
