//! The pre-commit hook: the tester first, then the linter.

use vstd::prelude::*;
use crate::linter::{Lint, LintState, LintStateView, LintView};
use crate::process::{
    verdict, Action, ActionView, CapturedView, Event, EventView, Failure, FailureView, Outcome,
    OutcomeView,
};
use crate::tester::{Test, TestState, TestView};

verus! {

/// What runs before a commit: either stage may be left out.
#[derive(Debug, Clone)]
pub struct PreCommit {
    pub lint: Option<Lint>,
    pub test: Option<Test>,
}

pub struct PreCommitView {
    pub lint: Option<LintView>,
    pub test: Option<TestView>,
}

impl View for PreCommit {
    type V = PreCommitView;

    open spec fn view(&self) -> PreCommitView {
        PreCommitView {
            lint: match self.lint {
                Some(lint) => Some(lint@),
                None => None,
            },
            test: match self.test {
                Some(test) => Some(test@),
                None => None,
            },
        }
    }
}

/// Where a run of the pre-commit hook stands.
#[derive(Debug)]
pub enum PreCommitState {
    /// The tester is running.
    Testing(TestState),
    /// The tester is done or left out, and the linter is running.
    Linting(LintState),
    /// The run has ended.
    Finished,
}

pub enum PreCommitStateView {
    Testing(TestState),
    Linting(LintStateView),
    Finished,
}

impl View for PreCommitState {
    type V = PreCommitStateView;

    open spec fn view(&self) -> PreCommitStateView {
        match self {
            PreCommitState::Testing(state) => PreCommitStateView::Testing(*state),
            PreCommitState::Linting(state) => PreCommitStateView::Linting(state@),
            PreCommitState::Finished => PreCommitStateView::Finished,
        }
    }
}

impl PreCommitView {
    /// Ends the run with `outcome`.
    pub open spec fn finish(outcome: OutcomeView) -> (PreCommitStateView, ActionView) {
        (PreCommitStateView::Finished, ActionView::Finish(outcome))
    }

    /// What comes once the tester has passed or was left out: the linter
    /// starts, or the run passes where there is none.
    pub open spec fn lint_stage(self) -> (PreCommitStateView, ActionView) {
        match self.lint {
            Some(lint) => (PreCommitStateView::Linting(lint.begin().0), lint.begin().1),
            None => Self::finish(OutcomeView::Passed),
        }
    }

    /// How a run starts: with the tester, where there is one.
    pub open spec fn begin(self) -> (PreCommitStateView, ActionView) {
        match self.test {
            Some(test) => (PreCommitStateView::Testing(test.begin().0), test.begin().1),
            None => self.lint_stage(),
        }
    }

    /// How a run goes on after `event`. The stage that is running takes the
    /// event. When the tester passes, the linter comes next; when a stage
    /// fails, the run ends with its failure.
    pub open spec fn step(self, state: PreCommitStateView, event: EventView) -> (
        PreCommitStateView,
        ActionView,
    ) {
        match (state, self.test, self.lint) {
            (PreCommitStateView::Testing(inner), Some(test), _) => {
                match test.step(inner, event).1 {
                    ActionView::Finish(OutcomeView::Passed) => self.lint_stage(),
                    ActionView::Finish(outcome) => Self::finish(outcome),
                    action => (PreCommitStateView::Testing(test.step(inner, event).0), action),
                }
            },
            (PreCommitStateView::Linting(inner), _, Some(lint)) => {
                match lint.step(inner, event).1 {
                    ActionView::Finish(outcome) => Self::finish(outcome),
                    action => (PreCommitStateView::Linting(lint.step(inner, event).0), action),
                }
            },
            _ => Self::finish(OutcomeView::Failed(FailureView::Unexpected)),
        }
    }
}

impl PreCommitView {
    /// The actions with which a run answers `events`, handed to it one after
    /// another from `state` on.
    pub open spec fn answers(self, state: PreCommitStateView, events: Seq<EventView>) -> Seq<
        ActionView,
    >
        decreases events.len(),
    {
        if events.len() == 0 {
            Seq::empty()
        } else {
            seq![self.step(state, events[0]).1] + self.answers(
                self.step(state, events[0]).0,
                events.skip(1),
            )
        }
    }
}

/// A run that has ended spawns nothing more: whatever events follow, it
/// answers each by ending again, as to an event that was not called for.
pub proof fn lemma_ended(hook: PreCommitView, events: Seq<EventView>)
    ensures
        hook.answers(PreCommitStateView::Finished, events).len() == events.len(),
        forall|i: int|
            0 <= i < events.len() ==> hook.answers(PreCommitStateView::Finished, events)[i]
                == ActionView::Finish(OutcomeView::Failed(FailureView::Unexpected)),
    decreases events.len(),
{
    if events.len() > 0 {
        lemma_ended(hook, events.skip(1));
    }
}

/// With neither stage configured there is nothing to do, and that is a pass.
pub proof fn lemma_nothing_to_do(hook: PreCommitView)
    requires
        hook.test is None,
        hook.lint is None,
    ensures
        hook.begin() == PreCommitView::finish(OutcomeView::Passed),
        OutcomeView::Passed.exit_code() == 0,
{
}

/// The tester comes first. A run with a tester starts with the tester's
/// probe; when the test command has passed, the linter's probe comes next,
/// or the run passes where there is no linter.
pub proof fn lemma_tester_first(hook: PreCommitView, probe: CapturedView, run: CapturedView)
    requires
        hook.test is Some,
        probe.succeeded,
        run.succeeded,
    ensures
        hook.answers(hook.begin().0, seq![EventView::Exited(probe), EventView::Exited(run)])
            == seq![
            ActionView::Spawn {
                invocation: hook.test->0.command.invocation(Seq::empty()),
                notice: None,
            },
            hook.lint_stage().1,
        ],
        hook.begin().1 == (ActionView::Spawn {
            invocation: hook.test->0.command.probe(),
            notice: None,
        }),
        hook.lint matches Some(lint) ==> hook.lint_stage().1 == (ActionView::Spawn {
            invocation: lint.command.probe(),
            notice: None,
        }),
        hook.lint is None ==> hook.lint_stage().1 == ActionView::Finish(OutcomeView::Passed),
{
    let events = seq![EventView::Exited(probe), EventView::Exited(run)];
    let rest = events.skip(1);
    assert(rest[0] == EventView::Exited(run));
    assert(rest.skip(1) =~= Seq::empty());
    let test = hook.test->0;
    let running = PreCommitStateView::Testing(TestState::Running);
    assert(hook.step(hook.begin().0, events[0]).0 == running);
    assert(hook.step(running, rest[0]) == hook.lint_stage());
    assert(hook.answers(running, rest) == seq![hook.lint_stage().1] + hook.answers(
        hook.lint_stage().0,
        rest.skip(1),
    ));
    assert(hook.answers(hook.begin().0, events) =~= seq![
        ActionView::Spawn { invocation: test.command.invocation(Seq::empty()), notice: None },
        hook.lint_stage().1,
    ]);
}

/// Where the test command is not on the search path, the run ends in answer
/// to its probe with exit status 1, and no process is spawned then or later:
/// neither the test command nor the linter is run.
pub proof fn lemma_missing_tester(hook: PreCommitView, probe: CapturedView, later: Seq<EventView>)
    requires
        hook.test is Some,
        !probe.succeeded,
    ensures
        hook.step(hook.begin().0, EventView::Exited(probe)) == PreCommitView::finish(
            OutcomeView::Failed(FailureView::CommandNotFound(hook.test->0.command.name)),
        ),
        OutcomeView::Failed(FailureView::CommandNotFound(hook.test->0.command.name)).exit_code()
            == 1,
        forall|i: int|
            0 <= i <= later.len() ==> !(hook.answers(
                hook.begin().0,
                seq![EventView::Exited(probe)] + later,
            )[i] is Spawn),
{
    let events = seq![EventView::Exited(probe)] + later;
    assert(events.skip(1) =~= later);
    lemma_ended(hook, later);
}

/// Where the lint command is not on the search path, the run ends in answer
/// to its probe with exit status 1, and no process is spawned then or later.
pub proof fn lemma_missing_linter(hook: PreCommitView, probe: CapturedView, later: Seq<EventView>)
    requires
        hook.lint is Some,
        !probe.succeeded,
    ensures
        hook.step(hook.lint_stage().0, EventView::Exited(probe)) == PreCommitView::finish(
            OutcomeView::Failed(FailureView::CommandNotFound(hook.lint->0.command.name)),
        ),
        OutcomeView::Failed(FailureView::CommandNotFound(hook.lint->0.command.name)).exit_code()
            == 1,
        forall|i: int|
            0 <= i <= later.len() ==> !(hook.answers(
                hook.lint_stage().0,
                seq![EventView::Exited(probe)] + later,
            )[i] is Spawn),
{
    let events = seq![EventView::Exited(probe)] + later;
    assert(events.skip(1) =~= later);
    lemma_ended(hook, later);
}

/// Where the test command fails, the run ends with its failure and the
/// linter is never started.
pub proof fn lemma_failed_tester(
    hook: PreCommitView,
    probe: CapturedView,
    run: CapturedView,
    later: Seq<EventView>,
)
    requires
        hook.test is Some,
        probe.succeeded,
        !run.succeeded,
    ensures
        ({
            let answers = hook.answers(
                hook.begin().0,
                seq![EventView::Exited(probe), EventView::Exited(run)] + later,
            );
            &&& answers.len() == 2 + later.len()
            &&& answers[1] == ActionView::Finish(verdict(run.judged()))
            &&& verdict(run.judged()).exit_code() == 1
            &&& forall|i: int| 1 <= i < answers.len() ==> !(answers[i] is Spawn)
        }),
{
    let events = seq![EventView::Exited(probe), EventView::Exited(run)] + later;
    let rest = events.skip(1);
    assert(rest[0] == EventView::Exited(run));
    assert(rest.skip(1) =~= later);
    lemma_ended(hook, later);
    let running = PreCommitStateView::Testing(TestState::Running);
    assert(hook.step(hook.begin().0, events[0]).0 == running);
    assert(hook.step(running, rest[0]) == PreCommitView::finish(verdict(run.judged())));
    assert(hook.answers(running, rest) == seq![ActionView::Finish(verdict(run.judged()))]
        + hook.answers(PreCommitStateView::Finished, later));
}

impl PreCommit {
    /// A pre-commit hook with these stages.
    pub fn init(lint: Option<Lint>, test: Option<Test>) -> (hook: PreCommit)
        ensures
            hook.lint == lint,
            hook.test == test,
    {
        PreCommit { lint, test }
    }

    /// Starts the linter, or ends the run as passed where there is none.
    fn lint_stage(&self) -> (next: (PreCommitState, Action))
        ensures
            (next.0@, next.1@) == self@.lint_stage(),
    {
        match &self.lint {
            Some(lint) => {
                let (state, action) = lint.run();
                (PreCommitState::Linting(state), action)
            },
            None => (PreCommitState::Finished, Action::Finish(Outcome::Passed)),
        }
    }

    /// Starts a run: the state to keep, and the first thing to do.
    pub fn run(&self) -> (started: (PreCommitState, Action))
        ensures
            (started.0@, started.1@) == self@.begin(),
    {
        match &self.test {
            Some(test) => {
                let (state, action) = test.run();
                (PreCommitState::Testing(state), action)
            },
            None => self.lint_stage(),
        }
    }

    /// Goes on with a run after the driver has carried out the last action:
    /// the state to keep, and the next thing to do.
    pub fn resume(&self, state: PreCommitState, event: Event) -> (next: (PreCommitState, Action))
        ensures
            (next.0@, next.1@) == self@.step(state@, event@),
    {
        match (state, &self.test, &self.lint) {
            (PreCommitState::Testing(inner), Some(test), _) => {
                let (inner, action) = test.resume(inner, event);
                match action {
                    Action::Finish(Outcome::Passed) => self.lint_stage(),
                    Action::Finish(outcome) => (
                        PreCommitState::Finished,
                        Action::Finish(outcome),
                    ),
                    action => (PreCommitState::Testing(inner), action),
                }
            },
            (PreCommitState::Linting(inner), _, Some(lint)) => {
                let (inner, action) = lint.resume(inner, event);
                match action {
                    Action::Finish(outcome) => (
                        PreCommitState::Finished,
                        Action::Finish(outcome),
                    ),
                    action => (PreCommitState::Linting(inner), action),
                }
            },
            _ => (PreCommitState::Finished, Action::Finish(Outcome::Failed(Failure::Unexpected))),
        }
    }
}

} // verus!
