use fisherman::config::{Args, Cmd};
use fisherman::process::{Action, Captured, Event, Failure, Outcome};
use fisherman::tester::{Test, TestState};

fn tester(args: Option<Vec<&str>>) -> Test {
    let args = args.map(|a| Args(a.into_iter().map(String::from).collect()));
    Test::init(Cmd { name: String::from("cargo"), args })
}

fn exited(succeeded: bool, stdout: &str, stderr: &str) -> Event {
    Event::Exited(Captured {
        succeeded,
        stdout: stdout.as_bytes().to_vec(),
        stderr: stderr.as_bytes().to_vec(),
    })
}

#[test]
fn init_keeps_the_command() {
    let test = tester(Some(vec!["test"]));
    assert_eq!(test.command.name, "cargo");
    assert_eq!(test.command.args.unwrap().0, vec![String::from("test")]);
}

#[test]
fn tester_probes_then_runs_once() {
    let test = tester(Some(vec!["test", "--quiet"]));
    let (state, action) = test.run();
    assert_eq!(state, TestState::Probing);
    match action {
        Action::Spawn { invocation, notice } => {
            assert_eq!(invocation.program, "which");
            assert_eq!(invocation.args, vec![String::from("cargo")]);
            assert!(notice.is_none());
        }
        other => panic!("unexpected action {:?}", other),
    }
    let (state, action) = test.resume(state, exited(true, "/bin/cargo", ""));
    assert_eq!(state, TestState::Running);
    match action {
        Action::Spawn { invocation, notice } => {
            assert_eq!(invocation.program, "cargo");
            assert_eq!(invocation.args, vec![String::from("test"), String::from("--quiet")]);
            assert!(notice.is_none());
        }
        other => panic!("unexpected action {:?}", other),
    }
    let (state, action) = test.resume(state, exited(true, "ok", ""));
    assert_eq!(state, TestState::Finished);
    match action {
        Action::Finish(outcome) => {
            assert_eq!(outcome.exit_code(), 0);
            assert!(matches!(outcome, Outcome::Passed));
        }
        other => panic!("unexpected action {:?}", other),
    }
}

#[test]
fn tester_without_arguments_runs_bare() {
    let test = tester(None);
    let (state, _) = test.run();
    let (_, action) = test.resume(state, exited(true, "", ""));
    match action {
        Action::Spawn { invocation, .. } => {
            assert_eq!(invocation.program, "cargo");
            assert!(invocation.args.is_empty());
        }
        other => panic!("unexpected action {:?}", other),
    }
}

#[test]
fn missing_tester_ends_the_run() {
    let test = tester(Some(vec!["test"]));
    let (state, _) = test.run();
    let (state, action) = test.resume(state, exited(false, "", ""));
    assert_eq!(state, TestState::Finished);
    match action {
        Action::Finish(outcome) => {
            assert_eq!(outcome.exit_code(), 1);
            match outcome {
                Outcome::Failed(Failure::CommandNotFound(name)) => assert_eq!(name, "cargo"),
                other => panic!("unexpected outcome {:?}", other),
            }
        }
        other => panic!("unexpected action {:?}", other),
    }
}

#[test]
fn failed_tests_are_rejected_with_their_output() {
    let test = tester(None);
    let (state, _) = test.run();
    let (state, _) = test.resume(state, exited(true, "", ""));
    let (_, action) = test.resume(state, exited(false, "1 failed", "panicked"));
    match action {
        Action::Finish(outcome) => {
            assert_eq!(outcome.exit_code(), 1);
            match outcome {
                Outcome::Failed(Failure::Rejected(report)) => {
                    assert_eq!(report.stdout, "1 failed");
                    assert_eq!(report.stderr, "panicked");
                }
                other => panic!("unexpected outcome {:?}", other),
            }
        }
        other => panic!("unexpected action {:?}", other),
    }
}

#[test]
fn rerunning_the_tester_gives_the_same_answers() {
    let run_once = || {
        let test = tester(Some(vec!["test"]));
        let (state, first) = test.run();
        let (state, second) = test.resume(state, exited(true, "", ""));
        let (_, third) = test.resume(state, exited(false, "out", "err"));
        format!("{:?} {:?} {:?}", first, second, third)
    };
    assert_eq!(run_once(), run_once());
}

#[test]
fn tester_rejects_events_it_did_not_ask_for() {
    let test = tester(None);
    let (state, _) = test.run();
    let (state, action) = test.resume(state, Event::Loaded(None));
    assert_eq!(state, TestState::Finished);
    assert!(matches!(action, Action::Finish(Outcome::Failed(Failure::Unexpected))));
}
