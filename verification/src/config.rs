//! What the user configured: commands with their arguments, and the hooks
//! that use them.

use vstd::prelude::*;
use crate::commit_message::{CommitMessage, CommitMessageView};
use crate::flags::Flags;
use crate::pre_commit::{PreCommit, PreCommitView};
use crate::process::{Invocation, InvocationView};
use crate::text::{copy_all, split_whitespace, views, words};

verus! {

/// The arguments configured for a command, in order.
#[derive(Debug, Clone)]
pub struct Args(pub Vec<String>);

impl View for Args {
    type V = Seq<Seq<char>>;

    open spec fn view(&self) -> Seq<Seq<char>> {
        views(self.0@)
    }
}

/// A named external program, with the arguments to call it with where any
/// were configured.
#[derive(Debug, Clone)]
pub struct Cmd {
    pub name: String,
    pub args: Option<Args>,
}

pub struct CmdView {
    pub name: Seq<char>,
    pub args: Option<Seq<Seq<char>>>,
}

impl View for Cmd {
    type V = CmdView;

    open spec fn view(&self) -> CmdView {
        CmdView {
            name: self.name@,
            args: match self.args {
                Some(args) => Some(args@),
                None => None,
            },
        }
    }
}

impl CmdView {
    /// The invocation that tells whether the command is on the search path:
    /// `which` with the command's name. The command exists exactly when that
    /// process succeeds.
    pub open spec fn probe(self) -> InvocationView {
        InvocationView { program: "which"@, args: seq![self.name] }
    }

    /// The invocation of the command itself: with the configured arguments,
    /// or with `fallback` where none were configured.
    pub open spec fn invocation(self, fallback: Seq<Seq<char>>) -> InvocationView {
        InvocationView {
            program: self.name,
            args: match self.args {
                Some(args) => args,
                None => fallback,
            },
        }
    }
}

impl Cmd {
    /// The command `name`. Where a line of arguments is given, its words are
    /// the arguments; one without words gives an empty list of arguments,
    /// which is not the same as none.
    pub fn init(name: String, args: Option<&str>) -> (command: Cmd)
        ensures
            command@ == (CmdView {
                name: name@,
                args: match args {
                    Some(line) => Some(words(line@)),
                    None => None,
                },
            }),
    {
        let args = match args {
            Some(line) => Some(Args(split_whitespace(line))),
            None => None,
        };
        Cmd { name, args }
    }

    /// The invocation that tells whether the command is on the search path.
    pub fn check(&self) -> (probe: Invocation)
        ensures
            probe@ == self@.probe(),
    {
        let mut args: Vec<String> = Vec::new();
        args.push(self.name.clone());
        proof {
            assert(views(args@) =~= seq![self.name@]);
        }
        Invocation { program: "which".to_owned(), args }
    }

    /// The invocation of the command itself: with the configured arguments,
    /// or with `extra_args` where none were configured.
    pub fn invoke(&self, extra_args: Vec<String>) -> (invocation: Invocation)
        ensures
            invocation@ == self@.invocation(views(extra_args@)),
    {
        let args = match &self.args {
            Some(args) => copy_all(&args.0),
            None => extra_args,
        };
        Invocation { program: self.name.clone(), args }
    }
}

/// `parameter` between double quotes.
pub open spec fn quoted(parameter: Seq<char>) -> Seq<char> {
    seq!['"'] + parameter + seq!['"']
}

/// Writes `parameter` between double quotes, for showing it to the user.
pub fn fmt_single_parameter(parameter: &str) -> (text: String)
    ensures
        text@ == quoted(parameter@),
{
    let mut text = "\"".to_owned();
    text.append(parameter);
    text.append("\"");
    proof {
        reveal_strlit("\"");
        assert("\""@ =~= seq!['"']);
    }
    text
}

/// The whole configuration: where the repository is, and what runs at which
/// hook.
#[derive(Debug, Clone)]
pub struct Config {
    pub root_directory: String,
    pub pre_commit: Option<PreCommit>,
    pub commit_message: Option<CommitMessage>,
}

pub struct ConfigView {
    pub root_directory: Seq<char>,
    pub pre_commit: Option<PreCommitView>,
    pub commit_message: Option<CommitMessageView>,
}

impl View for Config {
    type V = ConfigView;

    open spec fn view(&self) -> ConfigView {
        ConfigView {
            root_directory: self.root_directory@,
            pre_commit: match self.pre_commit {
                Some(hook) => Some(hook@),
                None => None,
            },
            commit_message: match self.commit_message {
                Some(validator) => Some(validator@),
                None => None,
            },
        }
    }
}

/// A git hook to install: the name of the file under the hooks directory,
/// and the shell script that it holds.
#[derive(Debug, Clone)]
pub struct Hook {
    pub name: String,
    pub code: String,
}

pub struct HookView {
    pub name: Seq<char>,
    pub code: Seq<char>,
}

impl View for Hook {
    type V = HookView;

    open spec fn view(&self) -> HookView {
        HookView { name: self.name@, code: self.code@ }
    }
}

/// The script of the pre-commit hook: it goes to the repository and runs
/// the pre-commit stages.
pub open spec fn pre_commit_script(root: Seq<char>) -> Seq<char> {
    "#!/bin/bash\ncd "@ + root + "\nfisherman "@ + Flags::PreCommit.text() + " \"$1\"\n"@
}

/// The script of the commit-msg hook: it goes to the repository, has the
/// message in the file validated, and writes the validated message back.
pub open spec fn commit_msg_script(root: Seq<char>) -> Seq<char> {
    "#!/bin/bash\ncd "@ + root + "\nnew_message=$(fisherman "@ + Flags::CommitMessage.text()
        + " $1)\nif [[ $? != 0 ]]; then\nexit 1\nfi\necho $new_message > $1\nexit 0"@
}

impl ConfigView {
    /// The hooks to install: one for each kind of hook that is configured,
    /// the pre-commit hook first.
    pub open spec fn hooks(self) -> Seq<HookView> {
        let first = if self.pre_commit is Some {
            seq![HookView { name: "pre-commit"@, code: pre_commit_script(self.root_directory) }]
        } else {
            Seq::empty()
        };
        let second = if self.commit_message is Some {
            seq![HookView { name: "commit-msg"@, code: commit_msg_script(self.root_directory) }]
        } else {
            Seq::empty()
        };
        first + second
    }
}

/// The view of each hook of `hooks`, in order.
pub open spec fn hook_views(hooks: Seq<Hook>) -> Seq<HookView> {
    Seq::new(hooks.len(), |i: int| hooks[i]@)
}

impl Config {
    /// A configuration for the repository at `root_directory`.
    pub fn init(
        root_directory: String,
        pre_commit: Option<PreCommit>,
        commit_message: Option<CommitMessage>,
    ) -> (config: Config)
        ensures
            config.root_directory == root_directory,
            config.pre_commit == pre_commit,
            config.commit_message == commit_message,
    {
        Config { root_directory, pre_commit, commit_message }
    }

    /// The hooks to install for this configuration.
    pub fn apply(&self) -> (hooks: Vec<Hook>)
        ensures
            hook_views(hooks@) == self@.hooks(),
    {
        let mut hooks: Vec<Hook> = Vec::new();
        if self.pre_commit.is_some() {
            let mut code = "#!/bin/bash\ncd ".to_owned();
            code.append(self.root_directory.as_str());
            code.append("\nfisherman ");
            code.append(Flags::PreCommit.to_string().as_str());
            code.append(" \"$1\"\n");
            hooks.push(Hook { name: "pre-commit".to_owned(), code });
        }
        let ghost first = hook_views(hooks@);
        if self.commit_message.is_some() {
            let mut code = "#!/bin/bash\ncd ".to_owned();
            code.append(self.root_directory.as_str());
            code.append("\nnew_message=$(fisherman ");
            code.append(Flags::CommitMessage.to_string().as_str());
            code.append(" $1)\nif [[ $? != 0 ]]; then\nexit 1\nfi\necho $new_message > $1\nexit 0");
            let hook = Hook { name: "commit-msg".to_owned(), code };
            proof {
                assert(hook_views(hooks@.push(hook)) =~= first + seq![hook@]);
            }
            hooks.push(hook);
        }
        proof {
            assert(hook_views(hooks@) =~= self@.hooks());
        }
        hooks
    }
}

} // verus!
