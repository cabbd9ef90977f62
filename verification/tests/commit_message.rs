use fisherman::commit_message::{CommitMessage, CommitState};
use fisherman::config::{Args, Cmd};
use fisherman::process::{Action, Captured, Event, Failure, Outcome};

fn validator(args: Option<Vec<&str>>, retryable: bool) -> CommitMessage {
    let args = args.map(|a| Args(a.into_iter().map(String::from).collect()));
    CommitMessage::init(Cmd { name: String::from("checker"), args }, retryable, None)
}

fn exited(succeeded: bool, stdout: &str, stderr: &str) -> Event {
    Event::Exited(Captured {
        succeeded,
        stdout: stdout.as_bytes().to_vec(),
        stderr: stderr.as_bytes().to_vec(),
    })
}

#[test]
fn test_format_message() {
    let formatted = CommitMessage::format_message("foo\nbar\n#foobar");
    assert_eq!("foo\nbar", formatted)
}

#[test]
fn format_message_drops_indented_comments() {
    let formatted = CommitMessage::format_message("title\n   # note\n\nbody #1\n #");
    assert_eq!("title\n\nbody #1", formatted);
}

#[test]
fn format_message_keeps_text_without_comments() {
    assert_eq!("", CommitMessage::format_message(""));
    assert_eq!("a\n", CommitMessage::format_message("a\n"));
    assert_eq!("", CommitMessage::format_message("# only"));
}

#[test]
fn arguments_default_to_the_message() {
    let v = validator(None, false);
    assert_eq!(v.arguments("fix: typo").unwrap(), vec![String::from("fix: typo")]);
}

#[test]
fn arguments_replace_the_placeholder() {
    let v = validator(Some(vec!["--check", "message", "--strict"]), false);
    assert_eq!(
        v.arguments("fix: typo").unwrap(),
        vec![String::from("--check"), String::from("fix: typo"), String::from("--strict")]
    );
}

#[test]
fn arguments_without_placeholder_are_an_error() {
    let v = validator(Some(vec!["--check"]), false);
    assert!(matches!(v.arguments("x"), Err(Failure::MissingPlaceholder)));
    let v = validator(Some(vec![]), false);
    assert!(matches!(v.arguments("x"), Err(Failure::MissingPlaceholder)));
}

#[test]
fn run_prefers_the_file() {
    let v = validator(None, false);
    let (state, action) = v.run(Some("COMMIT_EDITMSG"), Some("inline"));
    assert!(matches!(state, CommitState::Loading { .. }));
    match action {
        Action::Read(path) => assert_eq!(path, "COMMIT_EDITMSG"),
        other => panic!("unexpected action {:?}", other),
    }
}

#[test]
fn missing_validator_fails_before_any_validation() {
    let v = validator(None, true);
    let (state, action) = v.run(None, Some("msg"));
    match action {
        Action::Spawn { invocation, notice } => {
            assert_eq!(invocation.program, "which");
            assert_eq!(invocation.args, vec![String::from("checker")]);
            assert!(notice.is_none());
        }
        other => panic!("unexpected action {:?}", other),
    }
    let (state, action) = v.resume(state, exited(false, "", ""));
    assert!(matches!(state, CommitState::Finished));
    match action {
        Action::Finish(outcome) => {
            assert_eq!(outcome.exit_code(), 1);
            match outcome {
                Outcome::Failed(Failure::CommandNotFound(name)) => assert_eq!(name, "checker"),
                other => panic!("unexpected outcome {:?}", other),
            }
        }
        other => panic!("unexpected action {:?}", other),
    }
}

#[test]
fn retry_ends_with_the_corrected_message() {
    let v = validator(Some(vec!["-m", "message"]), true);
    let (state, _) = v.run(None, Some("bad"));
    let (state, action) = v.resume(state, exited(true, "", ""));
    match action {
        Action::Spawn { invocation, .. } => {
            assert_eq!(invocation.program, "checker");
            assert_eq!(invocation.args, vec![String::from("-m"), String::from("bad")]);
        }
        other => panic!("unexpected action {:?}", other),
    }
    let (state, action) = v.resume(state, exited(false, "no good", "line 1"));
    match action {
        Action::Edit { draft, report } => {
            assert_eq!(draft, "bad");
            assert!(!report.succeeded);
            assert_eq!(report.stdout, "no good");
            assert_eq!(report.stderr, "line 1");
        }
        other => panic!("unexpected action {:?}", other),
    }
    let (state, action) = v.resume(state, Event::Edited(Some(String::from("feat: good\n# hint"))));
    assert!(matches!(action, Action::Spawn { .. }));
    let (state, action) = v.resume(state, exited(true, "", ""));
    match action {
        Action::Spawn { invocation, .. } => {
            assert_eq!(
                invocation.args,
                vec![String::from("-m"), String::from("feat: good\n# hint")]
            );
        }
        other => panic!("unexpected action {:?}", other),
    }
    let (state, action) = v.resume(state, exited(true, "", ""));
    assert!(matches!(state, CommitState::Finished));
    match action {
        Action::Finish(outcome) => {
            assert_eq!(outcome.exit_code(), 0);
            match outcome {
                Outcome::Message(text) => assert_eq!(text, "feat: good"),
                other => panic!("unexpected outcome {:?}", other),
            }
        }
        other => panic!("unexpected action {:?}", other),
    }
}

#[test]
fn rejection_without_retry_fails() {
    let v = validator(None, false);
    let (state, _) = v.run(None, Some("bad"));
    let (state, _) = v.resume(state, exited(true, "", ""));
    let (_, action) = v.resume(state, exited(false, "out", "err"));
    match action {
        Action::Finish(outcome) => {
            assert_eq!(outcome.exit_code(), 1);
            match outcome {
                Outcome::Failed(Failure::Rejected(report)) => {
                    assert_eq!(report.stdout, "out");
                    assert_eq!(report.stderr, "err");
                }
                other => panic!("unexpected outcome {:?}", other),
            }
        }
        other => panic!("unexpected action {:?}", other),
    }
}

#[test]
fn aborted_edit_fails() {
    let v = validator(None, true);
    let (state, _) = v.run(None, None);
    let (state, _) = v.resume(state, exited(true, "", ""));
    let (state, _) = v.resume(state, exited(false, "", ""));
    let (_, action) = v.resume(state, Event::Edited(None));
    assert!(matches!(action, Action::Finish(Outcome::Failed(Failure::Aborted))));
}

#[test]
fn message_file_is_decoded() {
    let v = validator(None, false);
    let (state, _) = v.run(Some("msg.txt"), None);
    let (state, _) = v.resume(state, Event::Loaded(Some("from file".as_bytes().to_vec())));
    let (_, action) = v.resume(state, exited(true, "", ""));
    match action {
        Action::Spawn { invocation, .. } => {
            assert_eq!(invocation.args, vec![String::from("from file")]);
        }
        other => panic!("unexpected action {:?}", other),
    }
    let (state, _) = v.run(Some("msg.txt"), None);
    let (_, action) = v.resume(state, Event::Loaded(Some(vec![0xff, 0xfe])));
    assert!(matches!(action, Action::Finish(Outcome::Failed(Failure::Undecodable))));
    let (state, _) = v.run(Some("msg.txt"), None);
    let (_, action) = v.resume(state, Event::Loaded(None));
    match action {
        Action::Finish(Outcome::Failed(Failure::Unreadable(path))) => assert_eq!(path, "msg.txt"),
        other => panic!("unexpected action {:?}", other),
    }
}

#[test]
fn format_message_twice_changes_nothing() {
    for text in ["", "a", "# c", "a\n# c\nb", "#\n#", "  # x\ny\n\n", "\n", "a\n\n# c\n\nb\n"] {
        let once = CommitMessage::format_message(text);
        assert_eq!(CommitMessage::format_message(&once), once);
    }
}

#[test]
fn every_placeholder_is_replaced() {
    let v = validator(Some(vec!["message", "-x", "message"]), false);
    assert_eq!(
        v.arguments("m").unwrap(),
        vec![String::from("m"), String::from("-x"), String::from("m")]
    );
    let v = validator(Some(vec!["Message", "message "]), false);
    assert!(matches!(v.arguments("m"), Err(Failure::MissingPlaceholder)));
}

#[test]
fn a_second_rejection_is_offered_for_editing_again() {
    let v = validator(None, true);
    let (state, _) = v.run(None, Some("one"));
    let (state, _) = v.resume(state, exited(true, "", ""));
    let (state, _) = v.resume(state, exited(false, "", ""));
    let (state, _) = v.resume(state, Event::Edited(Some(String::from("two"))));
    let (state, _) = v.resume(state, exited(true, "", ""));
    let (state, action) = v.resume(state, exited(false, "still bad", ""));
    match action {
        Action::Edit { draft, report } => {
            assert_eq!(draft, "two");
            assert_eq!(report.stdout, "still bad");
        }
        other => panic!("unexpected action {:?}", other),
    }
    assert!(matches!(state, CommitState::Editing));
}

#[test]
fn missing_placeholder_is_reported_before_the_validator_runs() {
    let v = validator(Some(vec!["--strict"]), true);
    let (state, _) = v.run(None, Some("msg"));
    let (state, action) = v.resume(state, exited(true, "", ""));
    assert!(matches!(state, CommitState::Finished));
    match action {
        Action::Finish(outcome) => {
            assert_eq!(outcome.exit_code(), 1);
            assert!(matches!(outcome, Outcome::Failed(Failure::MissingPlaceholder)));
        }
        other => panic!("unexpected action {:?}", other),
    }
}

#[test]
fn rejection_that_is_not_text_fails() {
    let v = validator(None, true);
    let (state, _) = v.run(None, Some("msg"));
    let (state, _) = v.resume(state, exited(true, "", ""));
    let bad = Event::Exited(Captured { succeeded: false, stdout: vec![0xff], stderr: vec![] });
    let (_, action) = v.resume(state, bad);
    assert!(matches!(action, Action::Finish(Outcome::Failed(Failure::Undecodable))));
}
