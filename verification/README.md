# wt

`wt` creates, finds and removes Git worktrees kept in a sibling
`<repo>.worktrees` directory (`wt create|cleanup|get [flag] <branch-name>`).

- `src/` is the verified library. The commands are state machines
  (`src/session.rs`): each step takes the answer to the last action (the
  answer to a repository query, or a yes/no from the file system) and decides
  the next action. What each answer means, the command line, the check of a
  branch name (by libgit2, through the `git2` crate), and the reading of
  `git worktree list --porcelain` are verified functions with exact contracts;
  `src/laws.rs` proves properties of the whole (where `create` puts a
  worktree, that `cleanup` without `--force` never removes unsaved work, that
  a listing reads back, ...).
- `app/main.rs` is the program: it answers the repository queries through
  libgit2 (the `git2` crate), touches the file system and prints, as the
  library asks. The `git` program is not needed to run `wt`.
- `tests/` runs the library on concrete inputs.
