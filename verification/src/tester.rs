//! The tester: runs the configured test command once.

use vstd::prelude::*;
use crate::config::{Cmd, CmdView};
use crate::process::{
    verdict, Action, ActionView, CapturedView, Event, EventView, Failure, FailureView, Outcome,
    OutcomeView,
};
use crate::text::views;

verus! {

/// A test command.
#[derive(Debug, Clone)]
pub struct Test {
    pub command: Cmd,
}

pub struct TestView {
    pub command: CmdView,
}

impl View for Test {
    type V = TestView;

    open spec fn view(&self) -> TestView {
        TestView { command: self.command@ }
    }
}

/// Where a run of the tester stands.
#[derive(Debug, Clone, Copy, PartialEq, Eq, Structural)]
pub enum TestState {
    /// Waiting to learn whether the command exists.
    Probing,
    /// Waiting for the command to end.
    Running,
    /// The run has ended.
    Finished,
}

impl TestView {
    /// How a run starts: by asking whether the command exists.
    pub open spec fn begin(self) -> (TestState, ActionView) {
        (TestState::Probing, ActionView::Spawn { invocation: self.command.probe(), notice: None })
    }

    /// How a run goes on after `event`. A command that does not exist ends
    /// the run before anything else is spawned. One that exists is run once,
    /// with its configured arguments and nothing added, and the run passes
    /// exactly when that process succeeds.
    pub open spec fn step(self, state: TestState, event: EventView) -> (TestState, ActionView) {
        match (state, event) {
            (TestState::Probing, EventView::Exited(probe)) => {
                if probe.succeeded {
                    (
                        TestState::Running,
                        ActionView::Spawn {
                            invocation: self.command.invocation(Seq::empty()),
                            notice: None,
                        },
                    )
                } else {
                    (
                        TestState::Finished,
                        ActionView::Finish(
                            OutcomeView::Failed(FailureView::CommandNotFound(self.command.name)),
                        ),
                    )
                }
            },
            (TestState::Running, EventView::Exited(run)) => (
                TestState::Finished,
                ActionView::Finish(verdict(run.judged())),
            ),
            _ => (
                TestState::Finished,
                ActionView::Finish(OutcomeView::Failed(FailureView::Unexpected)),
            ),
        }
    }
}

impl TestView {
    /// The actions with which a run answers `events`, handed to it one after
    /// another from `state` on.
    pub open spec fn answers(self, state: TestState, events: Seq<EventView>) -> Seq<ActionView>
        decreases events.len(),
    {
        if events.len() == 0 {
            Seq::empty()
        } else {
            seq![self.step(state, events[0]).1] + self.answers(
                self.step(state, events[0]).0,
                events.skip(1),
            )
        }
    }
}

/// A run that has ended spawns nothing more: whatever events follow, it
/// answers each by ending again, as to an event that was not called for.
pub proof fn lemma_ended(test: TestView, events: Seq<EventView>)
    ensures
        test.answers(TestState::Finished, events).len() == events.len(),
        forall|i: int|
            0 <= i < events.len() ==> test.answers(TestState::Finished, events)[i]
                == ActionView::Finish(OutcomeView::Failed(FailureView::Unexpected)),
    decreases events.len(),
{
    if events.len() > 0 {
        lemma_ended(test, events.skip(1));
    }
}

/// Where the command is not on the search path, the run ends in answer to
/// the probe, with the failure that names the command and exit status 1, and
/// no process is spawned then or later: the command itself is never run.
pub proof fn lemma_missing_command(test: TestView, probe: CapturedView, later: Seq<EventView>)
    requires
        !probe.succeeded,
    ensures
        test.step(test.begin().0, EventView::Exited(probe)) == (
            TestState::Finished,
            ActionView::Finish(
                OutcomeView::Failed(FailureView::CommandNotFound(test.command.name)),
            ),
        ),
        OutcomeView::Failed(FailureView::CommandNotFound(test.command.name)).exit_code() == 1,
        forall|i: int|
            0 <= i <= later.len() ==> !(test.answers(
                test.begin().0,
                seq![EventView::Exited(probe)] + later,
            )[i] is Spawn),
{
    let events = seq![EventView::Exited(probe)] + later;
    assert(events.skip(1) =~= later);
    lemma_ended(test, later);
}

/// Where the command exists, it is run exactly once, with the configured
/// arguments and nothing added, and the run passes exactly when that process
/// succeeds. Whatever events follow spawn nothing more.
pub proof fn lemma_single_run(
    test: TestView,
    probe: CapturedView,
    run: CapturedView,
    later: Seq<EventView>,
)
    requires
        probe.succeeded,
    ensures
        ({
            let answers = test.answers(
                test.begin().0,
                seq![EventView::Exited(probe), EventView::Exited(run)] + later,
            );
            &&& answers.len() == 2 + later.len()
            &&& answers[0] == ActionView::Spawn {
                invocation: test.command.invocation(Seq::empty()),
                notice: None,
            }
            &&& answers[1] == ActionView::Finish(verdict(run.judged()))
            &&& verdict(run.judged()) == OutcomeView::Passed <==> run.succeeded
            &&& forall|i: int| 2 <= i < answers.len() ==> !(answers[i] is Spawn)
        }),
{
    let events = seq![EventView::Exited(probe), EventView::Exited(run)] + later;
    let rest = events.skip(1);
    assert(rest.skip(1) =~= later);
    assert(rest[0] == EventView::Exited(run));
    lemma_ended(test, later);
    assert(test.answers(TestState::Running, rest) == seq![
        ActionView::Finish(verdict(run.judged())),
    ] + test.answers(TestState::Finished, later));
}

/// Two testers with the same configuration answer the same events with the
/// same actions: a run depends on nothing but the configuration and on what
/// the driver reports.
pub proof fn lemma_same_answers(first: Test, second: Test, events: Seq<EventView>)
    requires
        first@ == second@,
    ensures
        first@.begin() == second@.begin(),
        first@.answers(first@.begin().0, events) == second@.answers(second@.begin().0, events),
{
}

impl Test {
    /// A tester for `command`.
    pub fn init(command: Cmd) -> (test: Test)
        ensures
            test.command == command,
    {
        Test { command }
    }

    /// Starts a run: the state to keep, and the first thing to do.
    pub fn run(&self) -> (started: (TestState, Action))
        ensures
            (started.0, started.1@) == self@.begin(),
    {
        (TestState::Probing, Action::Spawn { invocation: self.command.check(), notice: None })
    }

    /// Goes on with a run after the driver has carried out the last action:
    /// the state to keep, and the next thing to do.
    pub fn resume(&self, state: TestState, event: Event) -> (next: (TestState, Action))
        ensures
            (next.0, next.1@) == self@.step(state, event@),
    {
        match (state, event) {
            (TestState::Probing, Event::Exited(probe)) => {
                if probe.succeeded {
                    let invocation = self.command.invoke(Vec::new());
                    proof {
                        assert(views(Seq::<String>::empty()) =~= Seq::empty());
                    }
                    (TestState::Running, Action::Spawn { invocation, notice: None })
                } else {
                    let failure = Failure::CommandNotFound(self.command.name.clone());
                    (TestState::Finished, Action::Finish(Outcome::Failed(failure)))
                }
            },
            (TestState::Running, Event::Exited(run)) => {
                let outcome = match run.judge() {
                    Ok(result) => result.outcome(),
                    Err(failure) => Outcome::Failed(failure),
                };
                (TestState::Finished, Action::Finish(outcome))
            },
            _ => (TestState::Finished, Action::Finish(Outcome::Failed(Failure::Unexpected))),
        }
    }
}

} // verus!
