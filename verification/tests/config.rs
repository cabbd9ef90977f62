use fisherman::commit_message::CommitMessage;
use fisherman::config::{fmt_single_parameter, Args, Cmd, Config};
use fisherman::pre_commit::PreCommit;

fn strings(items: &[&str]) -> Vec<String> {
    items.iter().map(|s| String::from(*s)).collect()
}

#[test]
fn command_from_a_line_of_arguments() {
    let cmd = Cmd::init(String::from("eslint"), Some("  --fix   --quiet "));
    assert_eq!(cmd.name, "eslint");
    assert_eq!(cmd.args.unwrap().0, strings(&["--fix", "--quiet"]));
    let cmd = Cmd::init(String::from("eslint"), Some(""));
    assert_eq!(cmd.args.unwrap().0, strings(&[]));
    let cmd = Cmd::init(String::from("eslint"), None);
    assert!(cmd.args.is_none());
}

#[test]
fn check_asks_which() {
    let cmd = Cmd { name: String::from("eslint"), args: Some(Args(strings(&["--fix"]))) };
    let probe = cmd.check();
    assert_eq!(probe.program, "which");
    assert_eq!(probe.args, strings(&["eslint"]));
}

#[test]
fn invoke_uses_configured_arguments_or_the_fallback() {
    let cmd = Cmd { name: String::from("eslint"), args: Some(Args(strings(&["--fix"]))) };
    let invocation = cmd.invoke(strings(&["fallback"]));
    assert_eq!(invocation.program, "eslint");
    assert_eq!(invocation.args, strings(&["--fix"]));
    let cmd = Cmd { name: String::from("eslint"), args: None };
    assert_eq!(cmd.invoke(strings(&["fallback"])).args, strings(&["fallback"]));
    let cmd = Cmd { name: String::from("eslint"), args: Some(Args(Vec::new())) };
    assert_eq!(cmd.invoke(strings(&["fallback"])).args, strings(&[]));
}

#[test]
fn parameters_are_quoted() {
    assert_eq!(fmt_single_parameter("cargo"), "\"cargo\"");
    assert_eq!(fmt_single_parameter(""), "\"\"");
    assert_eq!(fmt_single_parameter("a \"b\""), "\"a \"b\"\"");
}

#[test]
fn apply_writes_a_hook_for_each_configured_kind() {
    let validator =
        CommitMessage::init(Cmd { name: String::from("check"), args: None }, false, None);
    let config = Config::init(
        String::from("/home/me/repo"),
        Some(PreCommit::init(None, None)),
        Some(validator.clone()),
    );
    let hooks = config.apply();
    assert_eq!(hooks.len(), 2);
    assert_eq!(hooks[0].name, "pre-commit");
    assert_eq!(hooks[0].code, "#!/bin/bash\ncd /home/me/repo\nfisherman -c \"$1\"\n");
    assert_eq!(hooks[1].name, "commit-msg");
    assert_eq!(
        hooks[1].code,
        "#!/bin/bash\ncd /home/me/repo\nnew_message=$(fisherman -m $1)\nif [[ $? != 0 ]]; then\nexit 1\nfi\necho $new_message > $1\nexit 0"
    );

    let only_message = Config::init(String::from("/r"), None, Some(validator));
    let hooks = only_message.apply();
    assert_eq!(hooks.len(), 1);
    assert_eq!(hooks[0].name, "commit-msg");

    let nothing = Config::init(String::from("/r"), None, None);
    assert!(nothing.apply().is_empty());
}
