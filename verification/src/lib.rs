//! Library side of `wt`, a tool that keeps Git worktrees in a sibling
//! `<repo>.worktrees` directory.
//!
//! - `cli`: the command line.
//! - `session`: the commands `create`, `cleanup` and `get`, as state machines
//!   that ask their caller to answer repository queries and to act on the
//!   file system.
//! - `git`, `unpushed`, `porcelain`: what a repository's answers mean.
//! - `query`: the repository queries, each with the `git` command line whose
//!   meaning it has.
//! - `paths`, `text`, `error`: paths, characters and the error type.
//! - `laws`: properties of the whole, proved over the functions' contracts.
//! - `decisions`: what each command does with each answer it gets.
pub mod error;
pub mod text;
pub mod porcelain;
pub mod paths;
pub mod git;
pub mod query;
pub mod unpushed;
pub mod session;
pub mod cli;
pub mod laws;
pub mod decisions;
