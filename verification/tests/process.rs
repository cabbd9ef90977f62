use fisherman::process::{decode, Captured, Failure, Missing, Outcome, RunResult};

#[test]
fn decode_accepts_utf8_only() {
    assert_eq!(decode(b"plain".to_vec()).unwrap(), "plain");
    assert_eq!(decode("héllo 日本".as_bytes().to_vec()).unwrap(), "héllo 日本");
    assert_eq!(decode(vec![0xe6, 0x97, 0xa5]).unwrap(), "日");
    assert_eq!(decode(Vec::new()).unwrap(), "");
    assert!(matches!(decode(vec![0xff]), Err(Failure::Undecodable)));
    assert!(matches!(decode(vec![0xe6, 0x97]), Err(Failure::Undecodable)));
}

#[test]
fn judge_goes_by_the_exit_status() {
    let ok = Captured { succeeded: true, stdout: vec![0xff], stderr: b"warning".to_vec() };
    let result = ok.judge().unwrap();
    assert!(result.succeeded);
    assert_eq!(result.stdout, "");
    assert_eq!(result.stderr, "");

    let failed = Captured { succeeded: false, stdout: b"out".to_vec(), stderr: b"err".to_vec() };
    let result = failed.judge().unwrap();
    assert!(!result.succeeded);
    assert_eq!(result.stdout, "out");
    assert_eq!(result.stderr, "err");
}

#[test]
fn judge_fails_on_output_that_is_not_text() {
    let bad_out = Captured { succeeded: false, stdout: vec![0xc0], stderr: Vec::new() };
    assert!(matches!(bad_out.judge(), Err(Failure::Undecodable)));
    let bad_err = Captured { succeeded: false, stdout: Vec::new(), stderr: vec![0x80] };
    assert!(matches!(bad_err.judge(), Err(Failure::Undecodable)));
}

#[test]
fn outcome_of_a_result() {
    let passed = RunResult { succeeded: true, stdout: String::new(), stderr: String::new() };
    assert!(matches!(passed.outcome(), Outcome::Passed));
    let failed =
        RunResult { succeeded: false, stdout: String::from("o"), stderr: String::from("e") };
    match failed.outcome() {
        Outcome::Failed(Failure::Rejected(r)) => {
            assert_eq!(r.stdout, "o");
            assert_eq!(r.stderr, "e");
        }
        other => panic!("unexpected outcome {:?}", other),
    }
}

#[test]
fn exit_codes() {
    assert_eq!(Outcome::Passed.exit_code(), 0);
    assert_eq!(Outcome::Message(String::from("m")).exit_code(), 0);
    assert_eq!(Outcome::Failed(Failure::MissingPlaceholder).exit_code(), 1);
    assert_eq!(Outcome::Failed(Failure::Undecodable).exit_code(), 1);
    assert_eq!(Outcome::Failed(Failure::Aborted).exit_code(), 1);
    assert_eq!(Outcome::Failed(Failure::Unexpected).exit_code(), 1);
    assert_eq!(Outcome::Failed(Failure::NotConfigured(Missing::Lint)).exit_code(), 1);
    assert_eq!(Outcome::Failed(Failure::CommandNotFound(String::from("x"))).exit_code(), 1);
    assert_eq!(Outcome::Failed(Failure::InvalidPattern(String::from("("))).exit_code(), 1);
    assert_eq!(Outcome::Failed(Failure::Unreadable(String::from("f"))).exit_code(), 1);
}
