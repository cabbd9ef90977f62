use fisherman::config::Cmd;
use fisherman::linter::Lint;
use fisherman::pre_commit::{PreCommit, PreCommitState};
use fisherman::process::{Action, Captured, Event, Failure, Outcome};
use fisherman::tester::Test;

fn command(name: &str) -> Cmd {
    Cmd { name: String::from(name), args: None }
}

fn exited(succeeded: bool) -> Event {
    Event::Exited(Captured { succeeded, stdout: Vec::new(), stderr: Vec::new() })
}

fn program(action: &Action) -> (String, Vec<String>) {
    match action {
        Action::Spawn { invocation, .. } => (invocation.program.clone(), invocation.args.clone()),
        other => panic!("unexpected action {:?}", other),
    }
}

fn both() -> PreCommit {
    PreCommit::init(
        Some(Lint::init(command("lint"), String::new(), false)),
        Some(Test::init(command("test"))),
    )
}

#[test]
fn nothing_configured_passes_at_once() {
    let hook = PreCommit::init(None, None);
    let (state, action) = hook.run();
    assert!(matches!(state, PreCommitState::Finished));
    assert!(matches!(action, Action::Finish(Outcome::Passed)));
}

#[test]
fn tester_runs_before_linter() {
    let hook = both();
    let (state, action) = hook.run();
    assert_eq!(program(&action), (String::from("which"), vec![String::from("test")]));
    let (state, action) = hook.resume(state, exited(true));
    assert_eq!(program(&action), (String::from("test"), vec![]));
    let (state, action) = hook.resume(state, exited(true));
    assert!(matches!(state, PreCommitState::Linting(_)));
    assert_eq!(program(&action), (String::from("which"), vec![String::from("lint")]));
    let (state, action) = hook.resume(state, exited(true));
    assert_eq!(program(&action), (String::from("lint"), vec![]));
    let (state, action) = hook.resume(state, exited(true));
    assert!(matches!(state, PreCommitState::Finished));
    assert!(matches!(action, Action::Finish(Outcome::Passed)));
}

#[test]
fn failed_tester_stops_the_hook() {
    let hook = both();
    let (state, _) = hook.run();
    let (state, _) = hook.resume(state, exited(true));
    let (state, action) = hook.resume(state, exited(false));
    assert!(matches!(state, PreCommitState::Finished));
    match action {
        Action::Finish(outcome) => {
            assert_eq!(outcome.exit_code(), 1);
            assert!(matches!(outcome, Outcome::Failed(Failure::Rejected(_))));
        }
        other => panic!("unexpected action {:?}", other),
    }
}

#[test]
fn missing_tester_stops_the_hook() {
    let hook = both();
    let (state, _) = hook.run();
    let (state, action) = hook.resume(state, exited(false));
    assert!(matches!(state, PreCommitState::Finished));
    match action {
        Action::Finish(Outcome::Failed(Failure::CommandNotFound(name))) => {
            assert_eq!(name, "test")
        }
        other => panic!("unexpected action {:?}", other),
    }
}

#[test]
fn linter_alone() {
    let hook = PreCommit::init(Some(Lint::init(command("lint"), String::new(), false)), None);
    let (state, action) = hook.run();
    assert!(matches!(state, PreCommitState::Linting(_)));
    assert_eq!(program(&action), (String::from("which"), vec![String::from("lint")]));
    let (state, action) = hook.resume(state, exited(false));
    assert!(matches!(state, PreCommitState::Finished));
    match action {
        Action::Finish(Outcome::Failed(Failure::CommandNotFound(name))) => {
            assert_eq!(name, "lint")
        }
        other => panic!("unexpected action {:?}", other),
    }
}

#[test]
fn tester_alone() {
    let hook = PreCommit::init(None, Some(Test::init(command("test"))));
    let (state, _) = hook.run();
    let (state, _) = hook.resume(state, exited(true));
    let (state, action) = hook.resume(state, exited(true));
    assert!(matches!(state, PreCommitState::Finished));
    assert!(matches!(action, Action::Finish(Outcome::Passed)));
    let (_, action) = hook.resume(state, exited(true));
    assert!(matches!(action, Action::Finish(Outcome::Failed(Failure::Unexpected))));
}
