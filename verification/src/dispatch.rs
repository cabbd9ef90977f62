//! From the command line to the task: which component a hook point runs.

use vstd::prelude::*;
use crate::commit_message::{CommitMessage, CommitMessageView};
use crate::config::{hook_views, Config, ConfigView, Hook, HookView};
use crate::flags::{lowercase, Flags};
use crate::linter::{Lint, LintView};
use crate::pre_commit::{PreCommit, PreCommitView};
use crate::process::{Failure, FailureView, Missing};
use crate::tester::{Test, TestView};
use crate::text::{join, join_with, views};

verus! {

/// What there is to do.
#[derive(Debug)]
pub enum Task {
    /// Ask the user for a configuration and store it.
    Init,
    /// Run this linter.
    Lint(Lint),
    /// Run this tester.
    Test(Test),
    /// Run these pre-commit stages.
    PreCommit(PreCommit),
    /// Validate the commit message in the file at `path`.
    CommitMessage { validator: CommitMessage, path: String },
    /// Show this configuration.
    ShowConfig(Config),
    /// Install these hooks.
    ApplyHooks(Vec<Hook>),
    /// Nothing: help was asked for.
    Help,
    /// Nothing: the flag is not one that is known.
    Nothing,
    /// Nothing: a commit message came, and no validator is configured.
    Skip,
    /// Report this failure and end with exit status 1.
    Fail(Failure),
}

pub enum TaskView {
    Init,
    Lint(LintView),
    Test(TestView),
    PreCommit(PreCommitView),
    CommitMessage { validator: CommitMessageView, path: Seq<char> },
    ShowConfig(ConfigView),
    ApplyHooks(Seq<HookView>),
    Help,
    Nothing,
    Skip,
    Fail(FailureView),
}

impl View for Task {
    type V = TaskView;

    open spec fn view(&self) -> TaskView {
        match self {
            Task::Init => TaskView::Init,
            Task::Lint(lint) => TaskView::Lint(lint@),
            Task::Test(test) => TaskView::Test(test@),
            Task::PreCommit(hook) => TaskView::PreCommit(hook@),
            Task::CommitMessage { validator, path } => TaskView::CommitMessage {
                validator: validator@,
                path: path@,
            },
            Task::ShowConfig(config) => TaskView::ShowConfig(config@),
            Task::ApplyHooks(hooks) => TaskView::ApplyHooks(hook_views(hooks@)),
            Task::Help => TaskView::Help,
            Task::Nothing => TaskView::Nothing,
            Task::Skip => TaskView::Skip,
            Task::Fail(failure) => TaskView::Fail(failure@),
        }
    }
}

/// The flag on the command line: its second word, the first being the
/// program's own name. A command line without one holds no known flag.
pub open spec fn flag_of(args: Seq<Seq<char>>) -> Flags {
    if args.len() > 1 {
        Flags::spelled(lowercase(args[1]))
    } else {
        Flags::InvalidFlag
    }
}

/// The words of the command line after the flag.
pub open spec fn after_flag(args: Seq<Seq<char>>) -> Seq<Seq<char>> {
    if args.len() >= 2 {
        args.skip(2)
    } else {
        Seq::empty()
    }
}

/// The path of the commit message: the words after the flag, with a space
/// between them.
pub open spec fn message_path(args: Seq<Seq<char>>) -> Seq<char> {
    join_with(after_flag(args), " "@)
}

impl ConfigView {
    /// The pre-commit stages: those configured, or none.
    pub open spec fn stages(self) -> PreCommitView {
        match self.pre_commit {
            Some(hook) => hook,
            None => PreCommitView { lint: None, test: None },
        }
    }

    /// The task for `flag`. A stage that is asked for by name and is not
    /// configured is a failure; a commit message without a validator is
    /// passed over in silence; pre-commit without stages runs nothing.
    pub open spec fn task(self, flag: Flags, args: Seq<Seq<char>>) -> TaskView {
        match flag {
            Flags::Init => TaskView::Init,
            Flags::Lint => match self.stages().lint {
                Some(lint) => TaskView::Lint(lint),
                None => TaskView::Fail(FailureView::NotConfigured(Missing::Lint)),
            },
            Flags::Test => match self.stages().test {
                Some(test) => TaskView::Test(test),
                None => TaskView::Fail(FailureView::NotConfigured(Missing::Test)),
            },
            Flags::PreCommit => TaskView::PreCommit(self.stages()),
            Flags::CommitMessage => match self.commit_message {
                Some(validator) => TaskView::CommitMessage {
                    validator,
                    path: message_path(args),
                },
                None => TaskView::Skip,
            },
            Flags::ShowConfig => TaskView::ShowConfig(self),
            Flags::ApplyHooks => TaskView::ApplyHooks(self.hooks()),
            Flags::Help => TaskView::Help,
            Flags::InvalidFlag => TaskView::Nothing,
        }
    }
}

/// The task for a command line, with the configuration where there is one.
/// Without a flag the configuration is shown, or made where there is none;
/// with a flag and no configuration there is nothing to run.
pub open spec fn dispatched(args: Seq<Seq<char>>, config: Option<ConfigView>) -> TaskView {
    if args.len() == 1 {
        match config {
            Some(c) => TaskView::ShowConfig(c),
            None => TaskView::Init,
        }
    } else {
        match config {
            Some(c) => c.task(flag_of(args), args),
            None => TaskView::Fail(FailureView::NotConfigured(Missing::Configuration)),
        }
    }
}

/// The path of the commit message on the command line.
pub fn path_of(args: &Vec<String>) -> (path: String)
    ensures
        path@ == message_path(views(args@)),
{
    let mut rest: Vec<String> = Vec::new();
    let ghost all = after_flag(views(args@));
    if args.len() < 2 {
        proof {
            assert(views(rest@) =~= all);
        }
        return join(&rest, " ");
    }
    let mut i: usize = 2;
    proof {
        assert(views(rest@) =~= all.take(0));
    }
    while i < args.len()
        invariant
            2 <= i <= args.len(),
            all == views(args@).skip(2),
            rest@.len() == i - 2,
            views(rest@) == all.take(i - 2),
        decreases args.len() - i,
    {
        let word = args[i].clone();
        proof {
            let grown = views(rest@.push(word));
            assert forall|j: int| 0 <= j < i - 1 implies grown[j] == all[j] by {
                if j < i - 2 {
                    assert(views(rest@)[j] == all.take(i - 2)[j]);
                }
            }
            assert(grown =~= all.take(i - 1));
        }
        rest.push(word);
        i = i + 1;
    }
    proof {
        assert(all.take(i - 2) =~= all);
    }
    join(&rest, " ")
}

/// The task for `flag` under `config`.
pub fn route(flag: Flags, args: &Vec<String>, config: Config) -> (task: Task)
    ensures
        task@ == config@.task(flag, views(args@)),
{
    match flag {
        Flags::Init => Task::Init,
        Flags::Lint => match config.pre_commit {
            Some(PreCommit { lint: Some(lint), test: _ }) => Task::Lint(lint),
            _ => Task::Fail(Failure::NotConfigured(Missing::Lint)),
        },
        Flags::Test => match config.pre_commit {
            Some(PreCommit { lint: _, test: Some(test) }) => Task::Test(test),
            _ => Task::Fail(Failure::NotConfigured(Missing::Test)),
        },
        Flags::PreCommit => match config.pre_commit {
            Some(hook) => Task::PreCommit(hook),
            None => Task::PreCommit(PreCommit { lint: None, test: None }),
        },
        Flags::CommitMessage => match config.commit_message {
            Some(validator) => Task::CommitMessage { validator, path: path_of(args) },
            None => Task::Skip,
        },
        Flags::ShowConfig => Task::ShowConfig(config),
        Flags::ApplyHooks => Task::ApplyHooks(config.apply()),
        Flags::Help => Task::Help,
        Flags::InvalidFlag => Task::Nothing,
    }
}

/// The flag on the command line.
pub fn flag(args: &Vec<String>) -> (flag: Flags)
    ensures
        flag == flag_of(views(args@)),
{
    if args.len() > 1 {
        match Flags::from_str(args[1].as_str()) {
            Ok(flag) => flag,
            Err(_) => Flags::InvalidFlag,
        }
    } else {
        Flags::InvalidFlag
    }
}

/// The task for the flag on the command line under `config`.
pub fn execute(args: &Vec<String>, config: Config) -> (task: Task)
    ensures
        task@ == config@.task(flag_of(views(args@)), views(args@)),
{
    route(flag(args), args, config)
}

/// The task for a command line, with the configuration where there is one.
pub fn dispatch(args: &Vec<String>, config: Option<Config>) -> (task: Task)
    ensures
        task@ == dispatched(
            views(args@),
            match config {
                Some(c) => Some(c@),
                None => None,
            },
        ),
{
    if args.len() == 1 {
        match config {
            Some(c) => Task::ShowConfig(c),
            None => Task::Init,
        }
    } else {
        match config {
            Some(c) => execute(args, c),
            None => Task::Fail(Failure::NotConfigured(Missing::Configuration)),
        }
    }
}

} // verus!
