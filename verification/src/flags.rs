//! The command-line flags that say what to do.

use vstd::prelude::*;

verus! {

/// What the command line asks for.
#[derive(Debug, Clone, Copy, PartialEq, Eq, Structural)]
pub enum Flags {
    Init,
    Lint,
    Test,
    PreCommit,
    CommitMessage,
    ApplyHooks,
    InvalidFlag,
    Help,
    ShowConfig,
}

/// What `str::to_lowercase` returns for a string of these characters.
pub uninterp spec fn lowercase(s: Seq<char>) -> Seq<char>;

/// Calls `str::to_lowercase`, which maps each character by the Unicode
/// lower-case rules. The contract only names the result.
#[verifier::external_body]
fn to_lowercase(s: &str) -> (lower: String)
    ensures
        lower@ == lowercase(s@),
{
    s.to_lowercase()
}

/// Tells whether two strings hold the same characters.
fn same(a: &str, b: &str) -> (equal: bool)
    ensures
        equal == (a@ == b@),
{
    a.to_owned() == b.to_owned()
}

/// Reading back what a flag is written as gives the flag.
pub proof fn lemma_text_spelled(flag: Flags)
    ensures
        Flags::spelled(flag.text()) == flag,
{
    reveal_strlit("-i");
    reveal_strlit("--init");
    reveal_strlit("-l");
    reveal_strlit("--lint");
    reveal_strlit("-t");
    reveal_strlit("--test");
    reveal_strlit("-c");
    reveal_strlit("--pre-commit");
    reveal_strlit("-m");
    reveal_strlit("--commit-message");
    reveal_strlit("-a");
    reveal_strlit("--apply-hooks");
    reveal_strlit("-h");
    reveal_strlit("--help");
    reveal_strlit("-s");
    reveal_strlit("--show-config");
    reveal_strlit("INVALID FLAGS");
    let t = flag.text();
    assert("-i"@[1] == 'i' && "-l"@[1] == 'l' && "-t"@[1] == 't' && "-c"@[1] == 'c');
    assert("-m"@[1] == 'm' && "-a"@[1] == 'a' && "-h"@[1] == 'h' && "-s"@[1] == 's');
    assert("INVALID FLAGS"@[1] == 'N');
}

impl Flags {
    /// The flag that `s` spells in lower case, short or long; anything else
    /// is the invalid flag.
    pub open spec fn spelled(s: Seq<char>) -> Flags {
        if s == "-i"@ || s == "--init"@ {
            Flags::Init
        } else if s == "-l"@ || s == "--lint"@ {
            Flags::Lint
        } else if s == "-t"@ || s == "--test"@ {
            Flags::Test
        } else if s == "-c"@ || s == "--pre-commit"@ {
            Flags::PreCommit
        } else if s == "-m"@ || s == "--commit-message"@ {
            Flags::CommitMessage
        } else if s == "-a"@ || s == "--apply-hooks"@ {
            Flags::ApplyHooks
        } else if s == "-h"@ || s == "--help"@ {
            Flags::Help
        } else if s == "-s"@ || s == "--show-config"@ {
            Flags::ShowConfig
        } else {
            Flags::InvalidFlag
        }
    }

    /// How the flag is written on a command line, in its short form.
    pub open spec fn text(self) -> Seq<char> {
        match self {
            Flags::Init => "-i"@,
            Flags::Lint => "-l"@,
            Flags::Test => "-t"@,
            Flags::PreCommit => "-c"@,
            Flags::CommitMessage => "-m"@,
            Flags::ApplyHooks => "-a"@,
            Flags::InvalidFlag => "INVALID FLAGS"@,
            Flags::Help => "-h"@,
            Flags::ShowConfig => "-s"@,
        }
    }

    /// The flag that `s` spells, where `s` is already in lower case.
    pub fn from_lowercase(s: &str) -> (flag: Flags)
        ensures
            flag == Flags::spelled(s@),
    {
        if same(s, "-i") || same(s, "--init") {
            Flags::Init
        } else if same(s, "-l") || same(s, "--lint") {
            Flags::Lint
        } else if same(s, "-t") || same(s, "--test") {
            Flags::Test
        } else if same(s, "-c") || same(s, "--pre-commit") {
            Flags::PreCommit
        } else if same(s, "-m") || same(s, "--commit-message") {
            Flags::CommitMessage
        } else if same(s, "-a") || same(s, "--apply-hooks") {
            Flags::ApplyHooks
        } else if same(s, "-h") || same(s, "--help") {
            Flags::Help
        } else if same(s, "-s") || same(s, "--show-config") {
            Flags::ShowConfig
        } else {
            Flags::InvalidFlag
        }
    }

    /// The flag that `s` spells, whatever the case of its letters. Every
    /// string gives a flag: one that spells none gives the invalid flag.
    pub fn from_str(s: &str) -> (flag: Result<Flags, ()>)
        ensures
            flag == Ok::<Flags, ()>(Flags::spelled(lowercase(s@))),
    {
        let lower = to_lowercase(s);
        Ok(Flags::from_lowercase(lower.as_str()))
    }

    /// How the flag is written on a command line.
    pub fn to_string(&self) -> (text: String)
        ensures
            text@ == self.text(),
    {
        let s = match self {
            Flags::Init => "-i",
            Flags::Lint => "-l",
            Flags::Test => "-t",
            Flags::PreCommit => "-c",
            Flags::CommitMessage => "-m",
            Flags::ApplyHooks => "-a",
            Flags::InvalidFlag => "INVALID FLAGS",
            Flags::Help => "-h",
            Flags::ShowConfig => "-s",
        };
        s.to_owned()
    }
}

} // verus!
