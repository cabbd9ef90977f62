//! The commit-message validator: hands the message to the configured command,
//! lets the user correct a rejected message where that is enabled, and cleans
//! an accepted one of its comment lines.

use vstd::prelude::*;
use crate::config::{Cmd, CmdView};
use crate::process::{
    decode, decoded, option_view, Action, ActionView, CapturedView, Event, EventView, Failure,
    FailureView, Invocation, InvocationView, Outcome, OutcomeView,
};
use crate::text::{
    is_char, is_comment, is_comment_line, join, join_with, lemma_first_index_is,
    lemma_split_join, lemma_split_pieces, split, split_on, views,
};

verus! {

/// A validation command for commit messages, whether a rejected message may
/// be corrected and tried again, and the path of a message template.
#[derive(Debug, Clone)]
pub struct CommitMessage {
    pub validation_command: Cmd,
    pub retryable: bool,
    pub template_path: Option<String>,
}

pub struct CommitMessageView {
    pub validation_command: CmdView,
    pub retryable: bool,
    pub template_path: Option<Seq<char>>,
}

impl View for CommitMessage {
    type V = CommitMessageView;

    open spec fn view(&self) -> CommitMessageView {
        CommitMessageView {
            validation_command: self.validation_command@,
            retryable: self.retryable,
            template_path: option_view(self.template_path),
        }
    }
}

/// The argument that stands for the commit message.
pub open spec fn placeholder() -> Seq<char> {
    "message"@
}

/// `args` with the message in the place of every placeholder.
pub open spec fn substituted(args: Seq<Seq<char>>, message: Seq<char>) -> Seq<Seq<char>> {
    Seq::new(
        args.len(),
        |i: int|
            if args[i] == placeholder() {
                message
            } else {
                args[i]
            },
    )
}

/// The test that holds of the lines that are no comments.
pub open spec fn no_comment() -> spec_fn(Seq<char>) -> bool {
    |line: Seq<char>| !is_comment(line)
}

/// The lines of the message that are no comments, in their order.
pub open spec fn kept_lines(message: Seq<char>) -> Seq<Seq<char>> {
    split_on(message, '\n').filter(no_comment())
}

/// The message without its comment lines: the lines that are no comments,
/// in their order, with a line feed between them.
pub open spec fn cleaned(message: Seq<char>) -> Seq<char> {
    join_with(kept_lines(message), "\n"@)
}

/// A filter keeps all of a sequence whose items all pass it.
proof fn lemma_filter_all(lines: Seq<Seq<char>>, keep: spec_fn(Seq<char>) -> bool)
    requires
        forall|i: int| 0 <= i < lines.len() ==> keep(lines[i]),
    ensures
        lines.filter(keep) == lines,
    decreases lines.len(),
{
    reveal(Seq::filter);
    if lines.len() > 0 {
        lemma_filter_all(lines.drop_last(), keep);
        assert(lines.drop_last().push(lines.last()) =~= lines);
    }
}

/// The cleaned message holds no comment line: where any line is kept, its
/// lines are the kept lines and no others. Cleaning it again changes nothing.
pub proof fn lemma_cleaned(message: Seq<char>)
    ensures
        forall|i: int|
            0 <= i < kept_lines(message).len() ==> !is_comment(#[trigger] kept_lines(message)[i]),
        kept_lines(message).len() > 0 ==> split_on(cleaned(message), '\n') == kept_lines(
            message,
        ),
        cleaned(cleaned(message)) == cleaned(message),
{
    let lines = split_on(message, '\n');
    let kept = kept_lines(message);
    reveal_strlit("\n");
    assert("\n"@ =~= seq!['\n']);
    assert forall|i: int| 0 <= i < kept.len() implies no_comment()(#[trigger] kept[i]) by {
        lines.lemma_filter_pred(no_comment(), i);
    }
    if kept.len() > 0 {
        assert forall|k: int, j: int|
            0 <= k < kept.len() && 0 <= j < kept[k].len() implies #[trigger] kept[k][j]
            != '\n' by {
            assert(kept.contains(kept[k]));
            lines.lemma_filter_contains_rev(no_comment(), kept[k]);
            let at = choose|at: int| 0 <= at < lines.len() && lines[at] == kept[k];
            lemma_split_pieces(message, is_char('\n'));
            assert(!is_char('\n')(lines[at][j]));
        }
        lemma_split_join(kept, '\n');
        lemma_filter_all(kept, no_comment());
    } else {
        let nothing = Seq::<char>::empty();
        assert(cleaned(message) == nothing);
        lemma_first_index_is(nothing, is_char('\n'), 0);
        assert(split_on(nothing, '\n') == seq![nothing]);
        assert(!is_comment(nothing)) by {
            nothing.lemma_filter_len(|c: char| c != ' ');
        }
        lemma_filter_all(seq![nothing], no_comment());
        assert(join_with(seq![nothing], "\n"@) == nothing);
    }
}

impl CommitMessageView {
    /// The arguments that the validator is called with for `message`. Where
    /// none are configured, the message alone. Where some are, the message
    /// takes the place of the placeholder, and a configuration without a
    /// placeholder is an error.
    pub open spec fn arguments(self, message: Seq<char>) -> Result<Seq<Seq<char>>, FailureView> {
        match self.validation_command.args {
            None => Ok(seq![message]),
            Some(args) => {
                if args.contains(placeholder()) {
                    Ok(substituted(args, message))
                } else {
                    Err(FailureView::MissingPlaceholder)
                }
            },
        }
    }
}

/// Where one position of `args` holds the placeholder and no other does, the
/// substituted arguments are `args` with the message at that position.
pub proof fn lemma_substituted_one(args: Seq<Seq<char>>, message: Seq<char>, k: int)
    requires
        0 <= k < args.len(),
        args[k] == placeholder(),
        forall|j: int| 0 <= j < args.len() && j != k ==> args[j] != placeholder(),
    ensures
        substituted(args, message) == args.update(k, message),
{
    assert(substituted(args, message) =~= args.update(k, message));
}

impl CommitMessage {
    /// A validator that calls `validation_command`.
    pub fn init(validation_command: Cmd, retryable: bool, template_path: Option<String>) -> (v:
        CommitMessage)
        ensures
            v.validation_command == validation_command,
            v.retryable == retryable,
            v.template_path == template_path,
    {
        CommitMessage { validation_command, retryable, template_path }
    }

    /// The message without its comment lines.
    pub fn format_message(message: &str) -> (text: String)
        ensures
            text@ == cleaned(message@),
    {
        let lines = split(message, '\n');
        let mut kept: Vec<String> = Vec::new();
        let mut i: usize = 0;
        let ghost keep = no_comment();
        while i < lines.len()
            invariant
                0 <= i <= lines.len(),
                keep == no_comment(),
                views(kept@) == views(lines@).take(i as int).filter(keep),
            decreases lines.len() - i,
        {
            proof {
                reveal(Seq::filter);
                let next = views(lines@).take(i + 1);
                assert(next.drop_last() =~= views(lines@).take(i as int));
                assert(next.last() == lines@[i as int]@);
            }
            if !is_comment_line(lines[i].as_str()) {
                let line = lines[i].clone();
                proof {
                    assert(views(kept@.push(line)) =~= views(kept@).push(line@));
                }
                kept.push(line);
            }
            i = i + 1;
        }
        proof {
            assert(views(lines@).take(i as int) =~= views(lines@));
        }
        join(&kept, "\n")
    }

    /// The arguments that the validator is called with for `message`.
    pub fn arguments(&self, message: &str) -> (args: Result<Vec<String>, Failure>)
        ensures
            match self@.arguments(message@) {
                Ok(a) => args matches Ok(got) && views(got@) == a,
                Err(f) => args matches Err(got) && got@ == f,
            },
    {
        match &self.validation_command.args {
            None => {
                let mut args: Vec<String> = Vec::new();
                args.push(message.to_owned());
                proof {
                    assert(views(args@) =~= seq![message@]);
                }
                Ok(args)
            },
            Some(configured) => {
                let mut args: Vec<String> = Vec::new();
                let mut replaced = false;
                let mut i: usize = 0;
                let slot = "message".to_owned();
                while i < configured.0.len()
                    invariant
                        0 <= i <= configured.0.len(),
                        slot@ == placeholder(),
                        args@.len() == i,
                        views(args@) == substituted(configured@, message@).take(i as int),
                        replaced == configured@.take(i as int).contains(placeholder()),
                    decreases configured.0.len() - i,
                {
                    let is_slot = configured.0[i] == slot;
                    let arg = if is_slot {
                        message.to_owned()
                    } else {
                        configured.0[i].clone()
                    };
                    proof {
                        let all = substituted(configured@, message@);
                        let grown = views(args@.push(arg));
                        assert(configured@[i as int] == configured.0@[i as int]@);
                        assert forall|j: int| 0 <= j < i + 1 implies grown[j] == all[j] by {
                            if j < i {
                                assert(views(args@)[j] == all.take(i as int)[j]);
                            }
                        }
                        assert(grown =~= all.take(i + 1));
                        let head = configured@.take(i as int);
                        let next = configured@.take(i + 1);
                        assert(next =~= head.push(configured@[i as int]));
                        if head.contains(placeholder()) {
                            let k = choose|k: int| 0 <= k < head.len() && head[k] == placeholder();
                            assert(next[k] == placeholder());
                        }
                        if is_slot {
                            assert(next[i as int] == placeholder());
                        }
                    }
                    replaced = replaced || is_slot;
                    args.push(arg);
                    i = i + 1;
                }
                proof {
                    assert(configured@.take(i as int) =~= configured@);
                    assert(substituted(configured@, message@).take(i as int) =~= substituted(
                        configured@,
                        message@,
                    ));
                }
                if replaced {
                    Ok(args)
                } else {
                    Err(Failure::MissingPlaceholder)
                }
            },
        }
    }
}

/// Where a run of the validator stands.
#[derive(Debug)]
pub enum CommitState {
    /// Waiting for the content of the message file at `path`.
    Loading { path: String },
    /// Waiting to learn whether the command exists, `message` in hand.
    Probing { message: String },
    /// Waiting for the validation of `message` to end.
    Validating { message: String },
    /// Waiting for the user to correct a rejected message.
    Editing,
    /// The run has ended.
    Finished,
}

pub enum CommitStateView {
    Loading { path: Seq<char> },
    Probing { message: Seq<char> },
    Validating { message: Seq<char> },
    Editing,
    Finished,
}

impl View for CommitState {
    type V = CommitStateView;

    open spec fn view(&self) -> CommitStateView {
        match self {
            CommitState::Loading { path } => CommitStateView::Loading { path: path@ },
            CommitState::Probing { message } => CommitStateView::Probing { message: message@ },
            CommitState::Validating { message } => CommitStateView::Validating {
                message: message@,
            },
            CommitState::Editing => CommitStateView::Editing,
            CommitState::Finished => CommitStateView::Finished,
        }
    }
}

impl CommitMessageView {
    /// Ends the run with `failure`.
    pub open spec fn fail(failure: FailureView) -> (CommitStateView, ActionView) {
        (CommitStateView::Finished, ActionView::Finish(OutcomeView::Failed(failure)))
    }

    /// With the message in hand, asks whether the command exists.
    pub open spec fn probe(self, message: Seq<char>) -> (CommitStateView, ActionView) {
        (
            CommitStateView::Probing { message },
            ActionView::Spawn { invocation: self.validation_command.probe(), notice: None },
        )
    }

    /// How a run starts. A file path comes before an inline message: the
    /// file is read first. Without a path the inline message is taken, and
    /// without either the empty message.
    pub open spec fn begin(self, path: Option<Seq<char>>, message: Option<Seq<char>>) -> (
        CommitStateView,
        ActionView,
    ) {
        match (path, message) {
            (Some(p), _) => (CommitStateView::Loading { path: p }, ActionView::Read(p)),
            (None, Some(m)) => self.probe(m),
            (None, None) => self.probe(Seq::empty()),
        }
    }

    /// How a run goes on after `event`.
    pub open spec fn step(self, state: CommitStateView, event: EventView) -> (
        CommitStateView,
        ActionView,
    ) {
        match (state, event) {
            (CommitStateView::Loading { path }, EventView::Loaded(content)) => {
                match content {
                    None => Self::fail(FailureView::Unreadable(path)),
                    Some(bytes) => match decoded(bytes) {
                        None => Self::fail(FailureView::Undecodable),
                        Some(message) => self.probe(message),
                    },
                }
            },
            (CommitStateView::Probing { message }, EventView::Exited(probe)) => {
                if !probe.succeeded {
                    Self::fail(FailureView::CommandNotFound(self.validation_command.name))
                } else {
                    match self.arguments(message) {
                        Err(failure) => Self::fail(failure),
                        Ok(args) => (
                            CommitStateView::Validating { message },
                            ActionView::Spawn {
                                invocation: InvocationView {
                                    program: self.validation_command.name,
                                    args,
                                },
                                notice: None,
                            },
                        ),
                    }
                }
            },
            (CommitStateView::Validating { message }, EventView::Exited(run)) => {
                if run.succeeded {
                    (
                        CommitStateView::Finished,
                        ActionView::Finish(OutcomeView::Message(cleaned(message))),
                    )
                } else {
                    match run.judged() {
                        Err(failure) => Self::fail(failure),
                        Ok(report) => {
                            if self.retryable {
                                (
                                    CommitStateView::Editing,
                                    ActionView::Edit { draft: message, report },
                                )
                            } else {
                                Self::fail(FailureView::Rejected(report))
                            }
                        },
                    }
                }
            },
            (CommitStateView::Editing, EventView::Edited(Some(text))) => self.probe(text),
            (CommitStateView::Editing, EventView::Edited(None)) => Self::fail(
                FailureView::Aborted,
            ),
            _ => Self::fail(FailureView::Unexpected),
        }
    }
}

impl CommitMessageView {
    /// The action that hands `message` to the validator.
    pub open spec fn validation(self, message: Seq<char>) -> ActionView
        recommends
            self.arguments(message) is Ok,
    {
        ActionView::Spawn {
            invocation: InvocationView {
                program: self.validation_command.name,
                args: self.arguments(message)->Ok_0,
            },
            notice: None,
        }
    }

    /// The actions with which a run answers `events`, handed to it one after
    /// another from `state` on.
    pub open spec fn answers(self, state: CommitStateView, events: Seq<EventView>) -> Seq<
        ActionView,
    >
        decreases events.len(),
    {
        if events.len() == 0 {
            Seq::empty()
        } else {
            seq![self.step(state, events[0]).1] + self.answers(
                self.step(state, events[0]).0,
                events.skip(1),
            )
        }
    }
}

/// A run that has ended spawns nothing more: whatever events follow, it
/// answers each by ending again, as to an event that was not called for.
pub proof fn lemma_ended(validator: CommitMessageView, events: Seq<EventView>)
    ensures
        validator.answers(CommitStateView::Finished, events).len() == events.len(),
        forall|i: int|
            0 <= i < events.len() ==> validator.answers(CommitStateView::Finished, events)[i]
                == ActionView::Finish(OutcomeView::Failed(FailureView::Unexpected)),
    decreases events.len(),
{
    if events.len() > 0 {
        lemma_ended(validator, events.skip(1));
    }
}

/// Where the command is not on the search path, the run ends in answer to
/// the probe, with the failure that names the command and exit status 1, and
/// no process is spawned then or later: the validator itself is never run.
pub proof fn lemma_missing_command(
    validator: CommitMessageView,
    message: Seq<char>,
    probe: CapturedView,
    later: Seq<EventView>,
)
    requires
        !probe.succeeded,
    ensures
        validator.step(validator.probe(message).0, EventView::Exited(probe))
            == CommitMessageView::fail(
            FailureView::CommandNotFound(validator.validation_command.name),
        ),
        OutcomeView::Failed(
            FailureView::CommandNotFound(validator.validation_command.name),
        ).exit_code() == 1,
        forall|i: int|
            0 <= i <= later.len() ==> !(validator.answers(
                validator.probe(message).0,
                seq![EventView::Exited(probe)] + later,
            )[i] is Spawn),
{
    let events = seq![EventView::Exited(probe)] + later;
    assert(events.skip(1) =~= later);
    lemma_ended(validator, later);
}

/// One attempt on `message`, from the probe on: where the command exists
/// and the arguments can be built, the validator is spawned with them, and
/// what its end leads to is what `step` says of the validating state.
proof fn lemma_attempt(
    validator: CommitMessageView,
    message: Seq<char>,
    probe: CapturedView,
    run: CapturedView,
    later: Seq<EventView>,
)
    requires
        probe.succeeded,
        validator.arguments(message) is Ok,
    ensures
        validator.answers(
            validator.probe(message).0,
            seq![EventView::Exited(probe), EventView::Exited(run)] + later,
        ) == seq![
            validator.validation(message),
            validator.step(CommitStateView::Validating { message }, EventView::Exited(run)).1,
        ] + validator.answers(
            validator.step(CommitStateView::Validating { message }, EventView::Exited(run)).0,
            later,
        ),
{
    let events = seq![EventView::Exited(probe), EventView::Exited(run)] + later;
    let rest = events.skip(1);
    assert(rest[0] == EventView::Exited(run));
    assert(rest.skip(1) =~= later);
    let validating = CommitStateView::Validating { message };
    assert(validator.step(validator.probe(message).0, events[0]) == (
        validating,
        validator.validation(message),
    ));
    assert(validator.answers(validating, rest) == seq![validator.step(validating, rest[0]).1]
        + validator.answers(validator.step(validating, rest[0]).0, later));
    assert(validator.answers(validator.probe(message).0, events) =~= seq![
        validator.validation(message),
        validator.step(validating, EventView::Exited(run)).1,
    ] + validator.answers(validator.step(validating, EventView::Exited(run)).0, later));
}

/// A validator that accepts `message` ends the run with exit status 0 and
/// the cleaned message for standard output.
pub proof fn lemma_accepted(
    validator: CommitMessageView,
    message: Seq<char>,
    probe: CapturedView,
    run: CapturedView,
)
    requires
        probe.succeeded,
        run.succeeded,
        validator.arguments(message) is Ok,
    ensures
        validator.answers(
            validator.probe(message).0,
            seq![EventView::Exited(probe), EventView::Exited(run)],
        ) == seq![
            validator.validation(message),
            ActionView::Finish(OutcomeView::Message(cleaned(message))),
        ],
        OutcomeView::Message(cleaned(message)).exit_code() == 0,
        OutcomeView::Message(cleaned(message)).standard_output() == Some(cleaned(message)),
{
    lemma_attempt(validator, message, probe, run, Seq::empty());
    assert(seq![EventView::Exited(probe), EventView::Exited(run)] + Seq::empty() =~= seq![
        EventView::Exited(probe),
        EventView::Exited(run),
    ]);
}

/// Without retry, a validator that rejects `message` ends the run with exit
/// status 1 and nothing for standard output.
pub proof fn lemma_rejected(
    validator: CommitMessageView,
    message: Seq<char>,
    probe: CapturedView,
    run: CapturedView,
)
    requires
        !validator.retryable,
        probe.succeeded,
        !run.succeeded,
        run.judged() is Ok,
        validator.arguments(message) is Ok,
    ensures
        validator.answers(
            validator.probe(message).0,
            seq![EventView::Exited(probe), EventView::Exited(run)],
        ) == seq![
            validator.validation(message),
            ActionView::Finish(OutcomeView::Failed(FailureView::Rejected(run.judged()->Ok_0))),
        ],
        OutcomeView::Failed(FailureView::Rejected(run.judged()->Ok_0)).exit_code() == 1,
        OutcomeView::Failed(FailureView::Rejected(run.judged()->Ok_0)).standard_output() is None,
{
    lemma_attempt(validator, message, probe, run, Seq::empty());
    assert(seq![EventView::Exited(probe), EventView::Exited(run)] + Seq::empty() =~= seq![
        EventView::Exited(probe),
        EventView::Exited(run),
    ]);
}

/// With retry, a rejected message is offered for editing with the output of
/// the rejection, and the corrected text is then validated as a message that
/// came in new: from the probe on, whatever follows is answered as in a run
/// that started on the corrected text. So a run goes through any number of
/// corrections, and only an accepted message or the user's giving up ends it.
pub proof fn lemma_correction(
    validator: CommitMessageView,
    message: Seq<char>,
    probe: CapturedView,
    rejection: CapturedView,
    correction: Seq<char>,
    later: Seq<EventView>,
)
    requires
        validator.retryable,
        probe.succeeded,
        !rejection.succeeded,
        rejection.judged() is Ok,
        validator.arguments(message) is Ok,
    ensures
        validator.answers(
            validator.probe(message).0,
            seq![
                EventView::Exited(probe),
                EventView::Exited(rejection),
                EventView::Edited(Some(correction)),
            ] + later,
        ) == seq![
            validator.validation(message),
            ActionView::Edit { draft: message, report: rejection.judged()->Ok_0 },
            validator.probe(correction).1,
        ] + validator.answers(validator.probe(correction).0, later),
        validator.begin(None, Some(correction)) == validator.probe(correction),
{
    let tail = seq![EventView::Edited(Some(correction))] + later;
    let events = seq![
        EventView::Exited(probe),
        EventView::Exited(rejection),
        EventView::Edited(Some(correction)),
    ] + later;
    assert(seq![EventView::Exited(probe), EventView::Exited(rejection)] + tail =~= events);
    lemma_attempt(validator, message, probe, rejection, tail);
    assert(tail.skip(1) =~= later);
    assert(validator.answers(CommitStateView::Editing, tail) == seq![
        validator.probe(correction).1,
    ] + validator.answers(validator.probe(correction).0, later));
    assert(validator.answers(validator.probe(message).0, events) =~= seq![
        validator.validation(message),
        ActionView::Edit { draft: message, report: rejection.judged()->Ok_0 },
        validator.probe(correction).1,
    ] + validator.answers(validator.probe(correction).0, later));
}

/// Where the user gives up on a rejected message, the run ends with exit
/// status 1 and nothing for standard output.
pub proof fn lemma_given_up(
    validator: CommitMessageView,
    message: Seq<char>,
    probe: CapturedView,
    rejection: CapturedView,
)
    requires
        validator.retryable,
        probe.succeeded,
        !rejection.succeeded,
        rejection.judged() is Ok,
        validator.arguments(message) is Ok,
    ensures
        validator.answers(
            validator.probe(message).0,
            seq![
                EventView::Exited(probe),
                EventView::Exited(rejection),
                EventView::Edited(None),
            ],
        ) == seq![
            validator.validation(message),
            ActionView::Edit { draft: message, report: rejection.judged()->Ok_0 },
            ActionView::Finish(OutcomeView::Failed(FailureView::Aborted)),
        ],
        OutcomeView::Failed(FailureView::Aborted).exit_code() == 1,
        OutcomeView::Failed(FailureView::Aborted).standard_output() is None,
{
    let tail = seq![EventView::Edited(None)];
    let events = seq![
        EventView::Exited(probe),
        EventView::Exited(rejection),
        EventView::Edited(None),
    ];
    assert(seq![EventView::Exited(probe), EventView::Exited(rejection)] + tail =~= events);
    lemma_attempt(validator, message, probe, rejection, tail);
    assert(tail.skip(1) =~= Seq::<EventView>::empty());
    assert(validator.answers(CommitStateView::Editing, tail) == seq![
        ActionView::Finish(OutcomeView::Failed(FailureView::Aborted)),
    ] + validator.answers(CommitStateView::Finished, tail.skip(1)));
    assert(validator.answers(validator.probe(message).0, events) =~= seq![
        validator.validation(message),
        ActionView::Edit { draft: message, report: rejection.judged()->Ok_0 },
        ActionView::Finish(OutcomeView::Failed(FailureView::Aborted)),
    ]);
}

/// With retry, a validator that rejects `first` and accepts the corrected
/// `second`: the rejected message is offered for editing with the output of
/// the rejection, the whole validation starts over on the corrected text,
/// and the run ends with exit status 0 and the cleaned corrected message for
/// standard output.
pub proof fn lemma_retry(
    validator: CommitMessageView,
    first: Seq<char>,
    second: Seq<char>,
    first_probe: CapturedView,
    rejection: CapturedView,
    second_probe: CapturedView,
    acceptance: CapturedView,
)
    requires
        validator.retryable,
        first_probe.succeeded,
        second_probe.succeeded,
        !rejection.succeeded,
        rejection.judged() is Ok,
        acceptance.succeeded,
        validator.arguments(first) is Ok,
    ensures
        validator.arguments(second) is Ok,
        validator.answers(
            validator.probe(first).0,
            seq![
                EventView::Exited(first_probe),
                EventView::Exited(rejection),
                EventView::Edited(Some(second)),
                EventView::Exited(second_probe),
                EventView::Exited(acceptance),
            ],
        ) == seq![
            validator.validation(first),
            ActionView::Edit { draft: first, report: rejection.judged()->Ok_0 },
            validator.probe(second).1,
            validator.validation(second),
            ActionView::Finish(OutcomeView::Message(cleaned(second))),
        ],
        OutcomeView::Message(cleaned(second)).exit_code() == 0,
        OutcomeView::Message(cleaned(second)).standard_output() == Some(cleaned(second)),
{
    let last = seq![EventView::Exited(second_probe), EventView::Exited(acceptance)];
    let events = seq![
        EventView::Exited(first_probe),
        EventView::Exited(rejection),
        EventView::Edited(Some(second)),
        EventView::Exited(second_probe),
        EventView::Exited(acceptance),
    ];
    assert(seq![
        EventView::Exited(first_probe),
        EventView::Exited(rejection),
        EventView::Edited(Some(second)),
    ] + last =~= events);
    lemma_correction(validator, first, first_probe, rejection, second, last);
    lemma_accepted(validator, second, second_probe, acceptance);
    assert(validator.answers(validator.probe(first).0, events) =~= seq![
        validator.validation(first),
        ActionView::Edit { draft: first, report: rejection.judged()->Ok_0 },
        validator.probe(second).1,
        validator.validation(second),
        ActionView::Finish(OutcomeView::Message(cleaned(second))),
    ]);
}

/// Ends the run with `failure`.
fn fail(failure: Failure) -> (next: (CommitState, Action))
    ensures
        (next.0@, next.1@) == CommitMessageView::fail(failure@),
{
    (CommitState::Finished, Action::Finish(Outcome::Failed(failure)))
}

impl CommitMessage {
    /// With the message in hand, asks whether the command exists.
    fn probe(&self, message: String) -> (next: (CommitState, Action))
        ensures
            (next.0@, next.1@) == self@.probe(message@),
    {
        (
            CommitState::Probing { message },
            Action::Spawn { invocation: self.validation_command.check(), notice: None },
        )
    }

    /// Starts a run on the message in the file at `path`, else on `message`,
    /// else on the empty message: the state to keep, and the first thing to do.
    pub fn run(&self, path: Option<&str>, message: Option<&str>) -> (started: (
        CommitState,
        Action,
    ))
        ensures
            (started.0@, started.1@) == self@.begin(
                match path {
                    Some(p) => Some(p@),
                    None => None,
                },
                match message {
                    Some(m) => Some(m@),
                    None => None,
                },
            ),
    {
        match (path, message) {
            (Some(p), _) => (CommitState::Loading { path: p.to_owned() }, Action::Read(p.to_owned())),
            (None, Some(m)) => self.probe(m.to_owned()),
            (None, None) => self.probe(String::new()),
        }
    }

    /// Goes on with a run after the driver has carried out the last action:
    /// the state to keep, and the next thing to do.
    pub fn resume(&self, state: CommitState, event: Event) -> (next: (CommitState, Action))
        ensures
            (next.0@, next.1@) == self@.step(state@, event@),
    {
        match (state, event) {
            (CommitState::Loading { path }, Event::Loaded(content)) => {
                match content {
                    None => fail(Failure::Unreadable(path)),
                    Some(bytes) => match decode(bytes) {
                        Err(failure) => fail(failure),
                        Ok(message) => self.probe(message),
                    },
                }
            },
            (CommitState::Probing { message }, Event::Exited(probe)) => {
                if !probe.succeeded {
                    fail(Failure::CommandNotFound(self.validation_command.name.clone()))
                } else {
                    match self.arguments(message.as_str()) {
                        Err(failure) => fail(failure),
                        Ok(args) => {
                            let invocation = Invocation {
                                program: self.validation_command.name.clone(),
                                args,
                            };
                            (
                                CommitState::Validating { message },
                                Action::Spawn { invocation, notice: None },
                            )
                        },
                    }
                }
            },
            (CommitState::Validating { message }, Event::Exited(run)) => {
                if run.succeeded {
                    let text = CommitMessage::format_message(message.as_str());
                    (CommitState::Finished, Action::Finish(Outcome::Message(text)))
                } else {
                    match run.judge() {
                        Err(failure) => fail(failure),
                        Ok(report) => {
                            if self.retryable {
                                (CommitState::Editing, Action::Edit { draft: message, report })
                            } else {
                                fail(Failure::Rejected(report))
                            }
                        },
                    }
                }
            },
            (CommitState::Editing, Event::Edited(Some(text))) => self.probe(text),
            (CommitState::Editing, Event::Edited(None)) => fail(Failure::Aborted),
            _ => fail(Failure::Unexpected),
        }
    }
}

} // verus!
