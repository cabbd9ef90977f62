use fisherman::config::{Args, Cmd};
use fisherman::linter::{list_staged, Lint, LintState};
use fisherman::process::{Action, Captured, Event, Failure, Outcome};

fn strings(items: &[&str]) -> Vec<String> {
    items.iter().map(|s| String::from(*s)).collect()
}

fn linter(args: Option<&[&str]>, pattern: &str, single_file: bool) -> Lint {
    let args = args.map(|a| Args(strings(a)));
    Lint::init(Cmd { name: String::from("lint"), args }, String::from(pattern), single_file)
}

fn exited(succeeded: bool, stdout: &str, stderr: &str) -> Event {
    Event::Exited(Captured {
        succeeded,
        stdout: stdout.as_bytes().to_vec(),
        stderr: stderr.as_bytes().to_vec(),
    })
}

fn spawned(action: Action) -> (String, Vec<String>, Option<String>) {
    match action {
        Action::Spawn { invocation, notice } => (invocation.program, invocation.args, notice),
        other => panic!("unexpected action {:?}", other),
    }
}

fn finished(action: Action) -> Outcome {
    match action {
        Action::Finish(outcome) => outcome,
        other => panic!("unexpected action {:?}", other),
    }
}

#[test]
fn staged_files_come_from_git() {
    let listing = list_staged();
    assert_eq!(listing.program, "git");
    assert_eq!(listing.args, strings(&["diff", "--cached", "--name-only"]));
}

#[test]
fn targets_are_the_matching_lines() {
    let lint = linter(None, r"\.rs$", true);
    let files = lint.targets("src/a.rs\nREADME.md\n\nsrc/b.rs\n").unwrap();
    assert_eq!(files, strings(&["src/a.rs", "src/b.rs"]));
    assert_eq!(lint.targets("").unwrap(), strings(&[]));
    let all = linter(None, "", true);
    assert_eq!(all.targets("a\n\nb\n").unwrap(), strings(&["a", "b"]));
}

#[test]
fn targets_of_an_invalid_pattern() {
    let lint = linter(None, "(", true);
    match lint.targets("a.rs\n") {
        Err(Failure::InvalidPattern(pattern)) => assert_eq!(pattern, "("),
        other => panic!("unexpected result {:?}", other),
    }
}

#[test]
fn file_invocation_appends_the_file() {
    let lint = linter(Some(&["--fix", "-q"]), ".", true);
    let invocation = lint.file_invocation("src/a.rs");
    assert_eq!(invocation.program, "lint");
    assert_eq!(invocation.args, strings(&["--fix", "-q", "src/a.rs"]));
    let bare = linter(None, ".", true);
    assert_eq!(bare.file_invocation("x").args, strings(&["x"]));
}

#[test]
fn missing_linter_ends_the_run() {
    for single_file in [false, true] {
        let lint = linter(Some(&["-q"]), ".", single_file);
        let (state, action) = lint.run();
        assert!(matches!(state, LintState::Probing));
        assert_eq!(spawned(action), (String::from("which"), strings(&["lint"]), None));
        let (state, action) = lint.resume(state, exited(false, "", "not found"));
        assert!(matches!(state, LintState::Finished));
        let outcome = finished(action);
        assert_eq!(outcome.exit_code(), 1);
        match outcome {
            Outcome::Failed(Failure::CommandNotFound(name)) => assert_eq!(name, "lint"),
            other => panic!("unexpected outcome {:?}", other),
        }
        let (state, action) = lint.resume(state, exited(true, "", ""));
        assert!(matches!(state, LintState::Finished));
        assert!(matches!(finished(action), Outcome::Failed(Failure::Unexpected)));
    }
}

#[test]
fn project_linter_runs_once() {
    let lint = linter(Some(&["--all", "."]), r"\.rs$", false);
    let (state, _) = lint.run();
    let (state, action) = lint.resume(state, exited(true, "/usr/bin/lint", ""));
    assert!(matches!(state, LintState::Running));
    assert_eq!(spawned(action), (String::from("lint"), strings(&["--all", "."]), None));
    let (state, action) = lint.resume(state, exited(true, "fine", ""));
    assert!(matches!(state, LintState::Finished));
    let outcome = finished(action);
    assert_eq!(outcome.exit_code(), 0);
    assert!(matches!(outcome, Outcome::Passed));
}

#[test]
fn project_linter_without_arguments() {
    let lint = linter(None, "", false);
    let (state, _) = lint.run();
    let (state, action) = lint.resume(state, exited(true, "", ""));
    assert_eq!(spawned(action), (String::from("lint"), strings(&[]), None));
    let (_, action) = lint.resume(state, exited(false, "bad", "worse"));
    let outcome = finished(action);
    assert_eq!(outcome.exit_code(), 1);
    match outcome {
        Outcome::Failed(Failure::Rejected(report)) => {
            assert!(!report.succeeded);
            assert_eq!(report.stdout, "bad");
            assert_eq!(report.stderr, "worse");
        }
        other => panic!("unexpected outcome {:?}", other),
    }
}

#[test]
fn file_linter_runs_once_for_each_match_in_order() {
    let lint = linter(Some(&["--check"]), r"\.py$", true);
    let (state, _) = lint.run();
    let (state, action) = lint.resume(state, exited(true, "", ""));
    assert!(matches!(state, LintState::Listing));
    assert_eq!(
        spawned(action),
        (String::from("git"), strings(&["diff", "--cached", "--name-only"]), None)
    );
    let (state, action) = lint.resume(state, exited(true, "b.py\nnotes.txt\n\na.py\nc.py\n", ""));
    assert_eq!(
        spawned(action),
        (String::from("lint"), strings(&["--check", "b.py"]), Some(String::from("b.py")))
    );
    let (state, action) = lint.resume(state, exited(true, "", ""));
    assert_eq!(
        spawned(action),
        (String::from("lint"), strings(&["--check", "a.py"]), Some(String::from("a.py")))
    );
    let (state, action) = lint.resume(state, exited(true, "", ""));
    assert_eq!(
        spawned(action),
        (String::from("lint"), strings(&["--check", "c.py"]), Some(String::from("c.py")))
    );
    let (state, action) = lint.resume(state, exited(true, "", ""));
    assert!(matches!(state, LintState::Finished));
    assert!(matches!(finished(action), Outcome::Passed));
}

#[test]
fn file_linter_keeps_the_last_failure() {
    let lint = linter(None, "", true);
    let (state, _) = lint.run();
    let (state, _) = lint.resume(state, exited(true, "", ""));
    let (state, _) = lint.resume(state, exited(false, "one\ntwo\nthree", ""));
    let (state, action) = lint.resume(state, exited(false, "first out", "first err"));
    assert_eq!(spawned(action).1, strings(&["two"]));
    let (state, action) = lint.resume(state, exited(false, "second out", "second err"));
    assert_eq!(spawned(action).1, strings(&["three"]));
    let (_, action) = lint.resume(state, exited(true, "ignored", "ignored"));
    let outcome = finished(action);
    assert_eq!(outcome.exit_code(), 1);
    match outcome {
        Outcome::Failed(Failure::Rejected(report)) => {
            assert_eq!(report.stdout, "second out");
            assert_eq!(report.stderr, "second err");
        }
        other => panic!("unexpected outcome {:?}", other),
    }
}

#[test]
fn file_linter_with_nothing_staged_passes() {
    let lint = linter(None, r"\.rs$", true);
    let (state, _) = lint.run();
    let (state, _) = lint.resume(state, exited(true, "", ""));
    let (state, action) = lint.resume(state, exited(true, "README.md\n", ""));
    assert!(matches!(state, LintState::Finished));
    assert!(matches!(finished(action), Outcome::Passed));
}

#[test]
fn file_linter_with_an_invalid_pattern_fails() {
    let lint = linter(None, "[", true);
    let (state, _) = lint.run();
    let (state, _) = lint.resume(state, exited(true, "", ""));
    let (_, action) = lint.resume(state, exited(true, "", ""));
    match finished(action) {
        Outcome::Failed(Failure::InvalidPattern(pattern)) => assert_eq!(pattern, "["),
        other => panic!("unexpected outcome {:?}", other),
    }
}

#[test]
fn file_linter_fails_on_names_that_are_not_text() {
    let lint = linter(None, "", true);
    let (state, _) = lint.run();
    let (state, _) = lint.resume(state, exited(true, "", ""));
    let listing =
        Event::Exited(Captured { succeeded: true, stdout: vec![b'a', 0xff, b'\n'], stderr: vec![] });
    let (_, action) = lint.resume(state, listing);
    assert!(matches!(finished(action), Outcome::Failed(Failure::Undecodable)));
}

#[test]
fn linter_rejects_events_it_did_not_ask_for() {
    let lint = linter(None, "", false);
    let (state, _) = lint.run();
    let (state, action) = lint.resume(state, Event::Edited(None));
    assert!(matches!(state, LintState::Finished));
    assert!(matches!(finished(action), Outcome::Failed(Failure::Unexpected)));
}

#[test]
fn rerunning_the_project_linter_gives_the_same_answers() {
    let run_once = || {
        let lint = linter(Some(&["b", "a", "c"]), "", false);
        let (state, first) = lint.run();
        let (state, second) = lint.resume(state, exited(true, "", ""));
        let (_, third) = lint.resume(state, exited(false, "out", "err"));
        format!("{:?} {:?} {:?}", first, second, third)
    };
    assert_eq!(run_once(), run_once());
}

#[test]
fn file_linter_stops_on_output_that_is_not_text() {
    let lint = linter(None, "", true);
    let (state, _) = lint.run();
    let (state, _) = lint.resume(state, exited(true, "", ""));
    let (state, _) = lint.resume(state, exited(true, "one\ntwo", ""));
    let bad = Event::Exited(Captured { succeeded: false, stdout: vec![0xff], stderr: vec![] });
    let (state, action) = lint.resume(state, bad);
    assert!(matches!(state, LintState::Finished));
    assert!(matches!(finished(action), Outcome::Failed(Failure::Undecodable)));
}
