//! Decision logic of a git-hooks manager: which commands to run for a hook,
//! on which inputs, and how their results are judged.

pub mod commit_message;
pub mod config;
pub mod dispatch;
pub mod flags;
pub mod linter;
pub mod pattern;
pub mod pre_commit;
pub mod process;
pub mod tester;
pub mod text;
