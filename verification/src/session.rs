//! The commands `create`, `cleanup` and `get` as state machines: the library
//! decides, the caller runs each requested action and reports back.
use vstd::prelude::*;
use crate::error::Error;
use crate::git::{
    add_worktree, current_branch, failure, git_root, has_uncommitted_changes, is_registered_worktree,
    list_worktrees, remove_worktree, spec_add_worktree, spec_current_branch, spec_git_root,
    spec_has_uncommitted_changes, spec_is_registered_worktree, spec_list_worktrees,
    spec_remove_worktree, spec_validate_branch_name, spec_worktree_for_branch, spec_worktree_path,
    spec_worktrees_root, validate_branch_name, value_result, worktree_for_branch, worktree_path,
    worktrees_root, ErrorView, GitOutput,
};
use crate::paths::{parent, path_eq, path_parent, same_path};
use crate::porcelain::opt_view;
use crate::query::{Query, QueryView};
use crate::text::{join2, join3, same_text};
use crate::unpushed::{has_unpushed_commits, unpushed_step, Progress, ProgressView, UnpushedCheck};

verus! {

/// The command being run, with its flag.
#[derive(Debug, Clone, Copy, PartialEq, Eq)]
pub enum Kind {
    Create { allow_dev_branches: bool },
    Cleanup { force: bool },
    Get,
}

/// What the session waits for.
#[derive(Debug)]
pub enum Stage {
    /// The repository's root directory.
    FindRoot,
    /// `create`: the registered worktrees.
    CreateLookup,
    /// `create`: the branch checked out in the repository.
    CreateCurrentBranch,
    /// `create`: whether the repository has a commit.
    CreateHasCommits,
    /// `create`: whether the destination exists.
    CreateDestination,
    /// `create`: whether the destination's parent directory could be made.
    CreateParent,
    /// `create`: whether the branch exists.
    CreateBranchExists,
    /// `create`: the outcome of adding the worktree.
    CreateAdd { create_branch: bool },
    /// `get`: the registered worktrees.
    GetLookup,
    /// `cleanup`: whether the destination is a directory.
    CleanupIsDir,
    /// `cleanup`: the end of pruning stale worktree records.
    CleanupPrune,
    /// `cleanup`: the registered worktrees.
    CleanupLookup,
    /// `cleanup`: the worktree's status.
    CleanupStatus,
    /// `cleanup`: a step of the unpushed-commits check.
    CleanupUnpushed { check: UnpushedCheck },
    /// `cleanup`: the outcome of removing the worktree.
    CleanupRemove,
    /// `cleanup`: whether the empty directory `parent` could be removed.
    CleanupParents { parent: String },
    /// Nothing: the command has ended.
    Finished,
}

pub enum StageView {
    FindRoot,
    CreateLookup,
    CreateCurrentBranch,
    CreateHasCommits,
    CreateDestination,
    CreateParent,
    CreateBranchExists,
    CreateAdd { create_branch: bool },
    GetLookup,
    CleanupIsDir,
    CleanupPrune,
    CleanupLookup,
    CleanupStatus,
    CleanupUnpushed { check: UnpushedCheck },
    CleanupRemove,
    CleanupParents { parent: Seq<char> },
    Finished,
}

impl View for Stage {
    type V = StageView;

    open spec fn view(&self) -> StageView {
        match self {
            Stage::FindRoot => StageView::FindRoot,
            Stage::CreateLookup => StageView::CreateLookup,
            Stage::CreateCurrentBranch => StageView::CreateCurrentBranch,
            Stage::CreateHasCommits => StageView::CreateHasCommits,
            Stage::CreateDestination => StageView::CreateDestination,
            Stage::CreateParent => StageView::CreateParent,
            Stage::CreateBranchExists => StageView::CreateBranchExists,
            Stage::CreateAdd { create_branch } => StageView::CreateAdd { create_branch: *create_branch },
            Stage::GetLookup => StageView::GetLookup,
            Stage::CleanupIsDir => StageView::CleanupIsDir,
            Stage::CleanupPrune => StageView::CleanupPrune,
            Stage::CleanupLookup => StageView::CleanupLookup,
            Stage::CleanupStatus => StageView::CleanupStatus,
            Stage::CleanupUnpushed { check } => StageView::CleanupUnpushed { check: *check },
            Stage::CleanupRemove => StageView::CleanupRemove,
            Stage::CleanupParents { parent } => StageView::CleanupParents { parent: parent@ },
            Stage::Finished => StageView::Finished,
        }
    }
}

/// A running command: the command, its branch, what it has learned of the
/// repository (empty until known), and what it waits for.
#[derive(Debug)]
pub struct Session {
    pub kind: Kind,
    pub branch: String,
    pub repo: String,
    pub root: String,
    pub destination: String,
    pub stage: Stage,
}

pub struct SessionView {
    pub kind: Kind,
    pub branch: Seq<char>,
    pub repo: Seq<char>,
    pub root: Seq<char>,
    pub destination: Seq<char>,
    pub stage: StageView,
}

impl View for Session {
    type V = SessionView;

    open spec fn view(&self) -> SessionView {
        SessionView {
            kind: self.kind,
            branch: self.branch@,
            repo: self.repo@,
            root: self.root@,
            destination: self.destination@,
            stage: self.stage@,
        }
    }
}

/// What the caller reports after running an action.
#[derive(Debug)]
pub enum Event {
    /// The answer to a query.
    Git(GitOutput),
    /// The yes/no answer to a file-system action.
    Answer(bool),
}

pub enum EventView {
    Git((bool, Seq<u8>)),
    Answer(bool),
}

impl View for Event {
    type V = EventView;

    open spec fn view(&self) -> EventView {
        match self {
            Event::Git(out) => EventView::Git(out@),
            Event::Answer(b) => EventView::Answer(*b),
        }
    }
}

/// How a command ends: a line for standard error, a line for standard
/// output (printed in that order), and its result.
#[derive(Debug)]
pub struct Outcome {
    pub stderr: Option<String>,
    pub stdout: Option<String>,
    pub result: Result<(), Error>,
}

/// What the session asks the caller to do next.
#[derive(Debug)]
pub enum Action {
    /// Answer the query, in the repository or worktree at `dir` when given
    /// (else where the program runs), and report `Event::Git`.
    Git { dir: Option<String>, query: Query },
    /// Report whether the path exists.
    PathExists(String),
    /// Report whether the path is a directory.
    IsDir(String),
    /// Create the directory and its parents; report whether that succeeded.
    CreateDirAll(String),
    /// Remove the (empty) directory; report whether that succeeded.
    RemoveDir(String),
    /// The command has ended.
    Done(Outcome),
}

pub enum ActionView {
    Git { dir: Option<Seq<char>>, query: QueryView },
    PathExists(Seq<char>),
    IsDir(Seq<char>),
    CreateDirAll(Seq<char>),
    RemoveDir(Seq<char>),
    Done { stderr: Option<Seq<char>>, stdout: Option<Seq<char>>, result: Result<(), ErrorView> },
}

impl View for Action {
    type V = ActionView;

    open spec fn view(&self) -> ActionView {
        match self {
            Action::Git { dir, query } => ActionView::Git { dir: opt_view(*dir), query: query@ },
            Action::PathExists(p) => ActionView::PathExists(p@),
            Action::IsDir(p) => ActionView::IsDir(p@),
            Action::CreateDirAll(p) => ActionView::CreateDirAll(p@),
            Action::RemoveDir(p) => ActionView::RemoveDir(p@),
            Action::Done(o) => ActionView::Done {
                stderr: opt_view(o.stderr),
                stdout: opt_view(o.stdout),
                result: value_result(o.result),
            },
        }
    }
}

// ---------------------------------------------------------------------------
// The rules.

pub open spec fn allows_dev_branches(kind: Kind) -> bool {
    kind matches Kind::Create { allow_dev_branches: true }
}

pub open spec fn forced(kind: Kind) -> bool {
    kind matches Kind::Cleanup { force: true }
}

/// Whether a branch is one that worktrees are made from: `main` or `staging`.
pub open spec fn is_base_branch(b: Seq<char>) -> bool {
    b == "main"@ || b == "staging"@
}

/// The command ends with the given output lines and result.
pub open spec fn finish(
    s: SessionView,
    stderr: Option<Seq<char>>,
    stdout: Option<Seq<char>>,
    result: Result<(), ErrorView>,
) -> (SessionView, ActionView) {
    (SessionView { stage: StageView::Finished, ..s }, ActionView::Done { stderr, stdout, result })
}

/// The command ends with the error `e` and prints nothing else.
pub open spec fn fail(s: SessionView, e: ErrorView) -> (SessionView, ActionView) {
    finish(s, None, None, Err(e))
}

/// The command succeeds without printing anything.
pub open spec fn succeed(s: SessionView) -> (SessionView, ActionView) {
    finish(s, None, None, Ok(()))
}

/// The session waits at `stage` for the answer to `query`, run in `dir`.
pub open spec fn ask(s: SessionView, stage: StageView, dir: Option<Seq<char>>, query: QueryView) -> (SessionView, ActionView) {
    (SessionView { stage, ..s }, ActionView::Git { dir, query })
}

/// The first step of a command.
pub open spec fn start_rules(kind: Kind, branch: Seq<char>) -> (SessionView, ActionView) {
    let s = SessionView {
        kind,
        branch,
        repo: seq![],
        root: seq![],
        destination: seq![],
        stage: StageView::FindRoot,
    };
    match spec_validate_branch_name(branch) {
        Err(e) => fail(s, e),
        Ok(_) => ask(s, StageView::FindRoot, None, QueryView::ShowToplevel),
    }
}

/// Once the repository is known: `get` answers at once for `main` and
/// `staging`, and otherwise looks up the worktree; `create` and `cleanup`
/// first place the worktree under the repository's worktrees directory.
pub open spec fn after_root(s: SessionView, repo: Seq<char>) -> (SessionView, ActionView) {
    let s = SessionView { repo, ..s };
    match s.kind {
        Kind::Get => if is_base_branch(s.branch) {
            finish(s, None, Some(repo), Ok(()))
        } else {
            ask(s, StageView::GetLookup, None, QueryView::ListWorktrees)
        },
        _ => match spec_worktrees_root(repo) {
            Err(e) => fail(s, e),
            Ok(root) => {
                let s = SessionView { root, destination: spec_worktree_path(root, s.branch), ..s };
                match s.kind {
                    Kind::Create { .. } => ask(s, StageView::CreateLookup, None, QueryView::ListWorktrees),
                    _ => (SessionView { stage: StageView::CleanupIsDir, ..s }, ActionView::IsDir(s.destination)),
                }
            },
        },
    }
}

/// `create` asks whether the branch exists, to know whether to create it.
pub open spec fn ask_branch_exists(s: SessionView) -> (SessionView, ActionView) {
    ask(s, StageView::CreateBranchExists, Some(s.repo), QueryView::BranchExists { branch: s.branch })
}

/// `cleanup` asks for the worktree to be removed.
pub open spec fn ask_remove(s: SessionView) -> (SessionView, ActionView) {
    ask(
        s,
        StageView::CleanupRemove,
        Some(s.repo),
        QueryView::RemoveWorktree { destination: s.destination, force: forced(s.kind) },
    )
}

/// After a removal, `cleanup` removes the directory `p` when it is not the
/// worktrees directory itself, and so on upwards.
pub open spec fn climb(s: SessionView, p: Option<Seq<char>>) -> (SessionView, ActionView) {
    match p {
        None => succeed(s),
        Some(q) => if path_eq(q, s.root) {
            succeed(s)
        } else {
            (SessionView { stage: StageView::CleanupParents { parent: q }, ..s }, ActionView::RemoveDir(q))
        },
    }
}

/// What the answer to a repository query tells the session.
pub open spec fn git_rules(s: SessionView, out: (bool, Seq<u8>)) -> (SessionView, ActionView) {
    match s.stage {
        StageView::FindRoot => match spec_git_root(out) {
            Err(e) => fail(s, e),
            Ok(repo) => after_root(s, repo),
        },
        StageView::CreateLookup => match spec_list_worktrees(out) {
            Err(e) => fail(s, e),
            Ok(ws) => match spec_worktree_for_branch(ws, s.branch) {
                Some(p) => finish(
                    s,
                    Some("Worktree for branch "@ + s.branch + " already exists."@),
                    Some(p),
                    Ok(()),
                ),
                None => ask(s, StageView::CreateCurrentBranch, Some(s.repo), QueryView::CurrentBranch),
            },
        },
        StageView::CreateCurrentBranch => match spec_current_branch(out) {
            Err(e) => fail(s, e),
            Ok(cur) => if !allows_dev_branches(s.kind) && !is_base_branch(cur) {
                fail(
                    s,
                    failure(
                        "worktrees can only be created from main or staging (currently on "@ + cur
                            + "); pass --allow-dev-branches to override"@,
                    ),
                )
            } else {
                ask(s, StageView::CreateHasCommits, Some(s.repo), QueryView::HasCommits)
            },
        },
        StageView::CreateHasCommits => if !out.0 {
            fail(
                s,
                failure(
                    "repository has no commits yet; create an initial commit before creating a worktree"@,
                ),
            )
        } else {
            (SessionView { stage: StageView::CreateDestination, ..s }, ActionView::PathExists(s.destination))
        },
        StageView::CreateBranchExists => ask(
            s,
            StageView::CreateAdd { create_branch: !out.0 },
            Some(s.repo),
            QueryView::AddWorktree { destination: s.destination, branch: s.branch, create_branch: !out.0 },
        ),
        StageView::CreateAdd { create_branch } => match spec_add_worktree(out, s.branch, create_branch) {
            Err(e) => fail(s, e),
            Ok(_) => finish(s, None, Some(s.destination), Ok(())),
        },
        StageView::GetLookup => match spec_list_worktrees(out) {
            Err(e) => fail(s, e),
            Ok(ws) => match spec_worktree_for_branch(ws, s.branch) {
                Some(p) => finish(s, None, Some(p), Ok(())),
                None => fail(s, ("worktree on branch "@ + s.branch + " not found"@, false)),
            },
        },
        StageView::CleanupPrune => succeed(s),
        StageView::CleanupLookup => match spec_list_worktrees(out) {
            Err(e) => fail(s, e),
            Ok(ws) => if !spec_is_registered_worktree(ws, s.destination) {
                succeed(s)
            } else if forced(s.kind) {
                ask_remove(s)
            } else {
                ask(s, StageView::CleanupStatus, Some(s.destination), QueryView::Status)
            },
        },
        StageView::CleanupStatus => match spec_has_uncommitted_changes(out, s.destination) {
            Err(e) => fail(s, e),
            Ok(dirty) => if dirty {
                fail(s, failure("worktree has uncommitted changes: "@ + s.destination))
            } else {
                ask(
                    s,
                    StageView::CleanupUnpushed { check: UnpushedCheck::Upstream },
                    Some(s.destination),
                    QueryView::Upstream,
                )
            },
        },
        StageView::CleanupUnpushed { check } => match unpushed_step(check, s.destination, out) {
            ProgressView::Ask(c, q) => ask(s, StageView::CleanupUnpushed { check: c }, Some(s.destination), q),
            ProgressView::Answer(Err(e)) => fail(s, e),
            ProgressView::Answer(Ok(unpushed)) => if unpushed {
                fail(s, failure("branch has unpushed commits: "@ + s.branch))
            } else {
                ask_remove(s)
            },
        },
        StageView::CleanupRemove => match spec_remove_worktree(out, s.destination) {
            Err(e) => fail(s, e),
            Ok(_) => climb(s, path_parent(s.destination)),
        },
        _ => (s, ActionView::Done { stderr: None, stdout: None, result: Ok(()) }),
    }
}

/// What a file-system answer tells the session.
pub open spec fn answer_rules(s: SessionView, yes: bool) -> (SessionView, ActionView) {
    match s.stage {
        StageView::CreateDestination => if yes {
            fail(s, failure("destination already exists but is not a registered worktree: "@ + s.destination))
        } else {
            match path_parent(s.destination) {
                Some(p) => (SessionView { stage: StageView::CreateParent, ..s }, ActionView::CreateDirAll(p)),
                None => ask_branch_exists(s),
            }
        },
        StageView::CreateParent => if !yes {
            fail(s, failure("could not create worktree directory"@))
        } else {
            ask_branch_exists(s)
        },
        StageView::CleanupIsDir => if !yes {
            ask(s, StageView::CleanupPrune, Some(s.repo), QueryView::PruneWorktrees)
        } else {
            ask(s, StageView::CleanupLookup, None, QueryView::ListWorktrees)
        },
        StageView::CleanupParents { parent } => if !yes {
            succeed(s)
        } else {
            climb(s, path_parent(parent))
        },
        _ => (s, ActionView::Done { stderr: None, stdout: None, result: Ok(()) }),
    }
}

/// The session's rules: from its state and the caller's report, the next
/// state and action.
pub open spec fn next(s: SessionView, ev: EventView) -> (SessionView, ActionView) {
    match ev {
        EventView::Git(out) => git_rules(s, out),
        EventView::Answer(yes) => answer_rules(s, yes),
    }
}

/// Whether the session waits for the answer to a repository query.
pub open spec fn awaits_git(stage: StageView) -> bool {
    match stage {
        StageView::CreateDestination | StageView::CreateParent | StageView::CleanupIsDir
        | StageView::CleanupParents { .. } | StageView::Finished => false,
        _ => true,
    }
}

/// Whether the session waits for a file-system answer.
pub open spec fn awaits_answer(stage: StageView) -> bool {
    match stage {
        StageView::CreateDestination | StageView::CreateParent | StageView::CleanupIsDir
        | StageView::CleanupParents { .. } => true,
        _ => false,
    }
}

/// Whether `ev` answers what the session asked for.
pub open spec fn fits(s: SessionView, ev: EventView) -> bool {
    match ev {
        EventView::Git(_) => awaits_git(s.stage),
        EventView::Answer(_) => awaits_answer(s.stage),
    }
}

// ---------------------------------------------------------------------------
// The machine.

/// Ends the session with the given output lines and result.
fn end_with(s: Session, stderr: Option<String>, stdout: Option<String>, result: Result<(), Error>) -> (r: (Session, Action))
    ensures
        (r.0@, r.1@) == finish(s@, opt_view(stderr), opt_view(stdout), value_result(result)),
{
    let mut s = s;
    s.stage = Stage::Finished;
    (s, Action::Done(Outcome { stderr, stdout, result }))
}

/// Ends the session with an error.
fn end_err(s: Session, e: Error) -> (r: (Session, Action))
    ensures
        (r.0@, r.1@) == fail(s@, e@),
{
    end_with(s, None, None, Err(e))
}

/// Ends the session successfully, printing nothing.
fn end_ok(s: Session) -> (r: (Session, Action))
    ensures
        (r.0@, r.1@) == succeed(s@),
{
    end_with(s, None, None, Ok(()))
}

/// Waits at `stage` for the answer to `query`, run in `dir`.
fn wait_git(s: Session, stage: Stage, dir: Option<String>, query: Query) -> (r: (Session, Action))
    ensures
        (r.0@, r.1@) == ask(s@, stage@, opt_view(dir), query@),
{
    let mut s = s;
    s.stage = stage;
    (s, Action::Git { dir, query })
}

/// Whether the branch is `main` or `staging`.
pub fn is_base(branch: &str) -> (b: bool)
    ensures
        b == is_base_branch(branch@),
{
    same_text(branch, "main") || same_text(branch, "staging")
}

fn wait_branch_exists(s: Session) -> (r: (Session, Action))
    ensures
        (r.0@, r.1@) == ask_branch_exists(s@),
{
    let dir = s.repo.clone();
    let branch = s.branch.clone();
    wait_git(s, Stage::CreateBranchExists, Some(dir), Query::BranchExists { branch })
}

fn wait_remove(s: Session) -> (r: (Session, Action))
    ensures
        (r.0@, r.1@) == ask_remove(s@),
{
    let dir = s.repo.clone();
    let destination = s.destination.clone();
    let force = match s.kind {
        Kind::Cleanup { force } => force,
        _ => false,
    };
    wait_git(s, Stage::CleanupRemove, Some(dir), Query::RemoveWorktree { destination, force })
}

fn climb_from(s: Session, p: Option<String>) -> (r: (Session, Action))
    ensures
        (r.0@, r.1@) == climb(s@, opt_view(p)),
{
    match p {
        None => end_ok(s),
        Some(q) => {
            if same_path(q.as_str(), s.root.as_str()) {
                end_ok(s)
            } else {
                let mut s = s;
                let target = q.clone();
                s.stage = Stage::CleanupParents { parent: q };
                (s, Action::RemoveDir(target))
            }
        },
    }
}

fn found_root(s: Session, repo: String) -> (r: (Session, Action))
    ensures
        (r.0@, r.1@) == after_root(s@, repo@),
{
    let mut s = s;
    s.repo = repo;
    match s.kind {
        Kind::Get => {
            if is_base(s.branch.as_str()) {
                let out = s.repo.clone();
                end_with(s, None, Some(out), Ok(()))
            } else {
                wait_git(s, Stage::GetLookup, None, Query::ListWorktrees)
            }
        },
        _ => match worktrees_root(s.repo.as_str()) {
            Err(e) => end_err(s, e),
            Ok(root) => {
                s.destination = worktree_path(root.as_str(), s.branch.as_str());
                s.root = root;
                match s.kind {
                    Kind::Create { .. } => wait_git(s, Stage::CreateLookup, None, Query::ListWorktrees),
                    _ => {
                        let d = s.destination.clone();
                        s.stage = Stage::CleanupIsDir;
                        (s, Action::IsDir(d))
                    },
                }
            },
        },
    }
}

fn git_step(s: Session, out: GitOutput) -> (r: (Session, Action))
    requires
        awaits_git(s@.stage),
    ensures
        (r.0@, r.1@) == git_rules(s@, out@),
{
    match s.stage {
        Stage::FindRoot => match git_root(&out) {
            Err(e) => end_err(s, e),
            Ok(repo) => found_root(s, repo),
        },
        Stage::CreateLookup => match list_worktrees(&out) {
            Err(e) => end_err(s, e),
            Ok(ws) => match worktree_for_branch(ws.as_slice(), s.branch.as_str()) {
                Some(p) => {
                    let notice = join3("Worktree for branch ", s.branch.as_str(), " already exists.");
                    end_with(s, Some(notice), Some(p), Ok(()))
                },
                None => {
                    let dir = s.repo.clone();
                    wait_git(s, Stage::CreateCurrentBranch, Some(dir), Query::CurrentBranch)
                },
            },
        },
        Stage::CreateCurrentBranch => match current_branch(&out) {
            Err(e) => end_err(s, e),
            Ok(cur) => {
                let allow = match s.kind {
                    Kind::Create { allow_dev_branches } => allow_dev_branches,
                    _ => false,
                };
                if !allow && !is_base(cur.as_str()) {
                    let m = join3(
                        "worktrees can only be created from main or staging (currently on ",
                        cur.as_str(),
                        "); pass --allow-dev-branches to override",
                    );
                    end_err(s, Error::msg(m))
                } else {
                    let dir = s.repo.clone();
                    wait_git(s, Stage::CreateHasCommits, Some(dir), Query::HasCommits)
                }
            },
        },
        Stage::CreateHasCommits => {
            if !out.success {
                end_err(
                    s,
                    Error::msg(
                        String::from_str(
                            "repository has no commits yet; create an initial commit before creating a worktree",
                        ),
                    ),
                )
            } else {
                let mut s = s;
                let d = s.destination.clone();
                s.stage = Stage::CreateDestination;
                (s, Action::PathExists(d))
            }
        },
        Stage::CreateBranchExists => {
            let create_branch = !out.success;
            let dir = s.repo.clone();
            let destination = s.destination.clone();
            let branch = s.branch.clone();
            wait_git(
                s,
                Stage::CreateAdd { create_branch },
                Some(dir),
                Query::AddWorktree { destination, branch, create_branch },
            )
        },
        Stage::CreateAdd { create_branch } => match add_worktree(&out, s.branch.as_str(), create_branch) {
            Err(e) => end_err(s, e),
            Ok(()) => {
                let d = s.destination.clone();
                end_with(s, None, Some(d), Ok(()))
            },
        },
        Stage::GetLookup => match list_worktrees(&out) {
            Err(e) => end_err(s, e),
            Ok(ws) => match worktree_for_branch(ws.as_slice(), s.branch.as_str()) {
                Some(p) => end_with(s, None, Some(p), Ok(())),
                None => {
                    let m = join3("worktree on branch ", s.branch.as_str(), " not found");
                    end_err(s, Error::raw(m))
                },
            },
        },
        Stage::CleanupPrune => end_ok(s),
        Stage::CleanupLookup => match list_worktrees(&out) {
            Err(e) => end_err(s, e),
            Ok(ws) => {
                if !is_registered_worktree(ws.as_slice(), s.destination.as_str()) {
                    end_ok(s)
                } else if matches!(s.kind, Kind::Cleanup { force: true }) {
                    wait_remove(s)
                } else {
                    let dir = s.destination.clone();
                    wait_git(s, Stage::CleanupStatus, Some(dir), Query::Status)
                }
            },
        },
        Stage::CleanupStatus => match has_uncommitted_changes(&out, s.destination.as_str()) {
            Err(e) => end_err(s, e),
            Ok(dirty) => {
                if dirty {
                    let m = join2("worktree has uncommitted changes: ", s.destination.as_str());
                    end_err(s, Error::msg(m))
                } else {
                    let dir = s.destination.clone();
                    wait_git(
                        s,
                        Stage::CleanupUnpushed { check: UnpushedCheck::Upstream },
                        Some(dir),
                        Query::Upstream,
                    )
                }
            },
        },
        Stage::CleanupUnpushed { check } => match has_unpushed_commits(check, s.destination.as_str(), &out) {
            Progress::Ask(c, q) => {
                let dir = s.destination.clone();
                wait_git(s, Stage::CleanupUnpushed { check: c }, Some(dir), q)
            },
            Progress::Answer(Err(e)) => end_err(s, e),
            Progress::Answer(Ok(unpushed)) => {
                if unpushed {
                    let m = join2("branch has unpushed commits: ", s.branch.as_str());
                    end_err(s, Error::msg(m))
                } else {
                    wait_remove(s)
                }
            },
        },
        Stage::CleanupRemove => match remove_worktree(&out, s.destination.as_str()) {
            Err(e) => end_err(s, e),
            Ok(()) => {
                let p = parent(s.destination.as_str());
                climb_from(s, p)
            },
        },
        _ => (s, Action::Done(Outcome { stderr: None, stdout: None, result: Ok(()) })),
    }
}

fn answer_step(s: Session, yes: bool) -> (r: (Session, Action))
    requires
        awaits_answer(s@.stage),
    ensures
        (r.0@, r.1@) == answer_rules(s@, yes),
{
    match s.stage {
        Stage::CreateDestination => {
            if yes {
                let m = join2(
                    "destination already exists but is not a registered worktree: ",
                    s.destination.as_str(),
                );
                end_err(s, Error::msg(m))
            } else {
                match parent(s.destination.as_str()) {
                    Some(p) => {
                        let mut s = s;
                        s.stage = Stage::CreateParent;
                        (s, Action::CreateDirAll(p))
                    },
                    None => wait_branch_exists(s),
                }
            }
        },
        Stage::CreateParent => {
            if !yes {
                end_err(s, Error::msg(String::from_str("could not create worktree directory")))
            } else {
                wait_branch_exists(s)
            }
        },
        Stage::CleanupIsDir => {
            if !yes {
                let dir = s.repo.clone();
                wait_git(s, Stage::CleanupPrune, Some(dir), Query::PruneWorktrees)
            } else {
                wait_git(s, Stage::CleanupLookup, None, Query::ListWorktrees)
            }
        },
        Stage::CleanupParents { parent: ref dir } => {
            if !yes {
                end_ok(s)
            } else {
                let p = parent(dir.as_str());
                climb_from(s, p)
            }
        },
        _ => (s, Action::Done(Outcome { stderr: None, stdout: None, result: Ok(()) })),
    }
}

impl Session {
    /// Whether the command has ended.
    pub fn is_finished(&self) -> (b: bool)
        ensures
            b == (self@.stage is Finished),
    {
        matches!(self.stage, Stage::Finished)
    }

    /// Takes the report of the last action, and gives the next state and action.
    pub fn step(self, event: Event) -> (r: (Session, Action))
        requires
            fits(self@, event@),
        ensures
            (r.0@, r.1@) == next(self@, event@),
    {
        match event {
            Event::Git(out) => git_step(self, out),
            Event::Answer(yes) => answer_step(self, yes),
        }
    }
}

/// Starts a command on a branch.
pub fn start(kind: Kind, branch: String) -> (r: (Session, Action))
    ensures
        (r.0@, r.1@) == start_rules(kind, branch@),
{
    let s = Session {
        kind,
        branch,
        repo: String::new(),
        root: String::new(),
        destination: String::new(),
        stage: Stage::FindRoot,
    };
    match validate_branch_name(s.branch.as_str()) {
        Err(e) => end_err(s, e),
        Ok(()) => wait_git(s, Stage::FindRoot, None, Query::ShowToplevel),
    }
}

/// Starts `create`: make a worktree for `branch`, from `main` or `staging`
/// unless `allow_dev_branches`.
pub fn create(branch: String, allow_dev_branches: bool) -> (r: (Session, Action))
    ensures
        (r.0@, r.1@) == start_rules(Kind::Create { allow_dev_branches }, branch@),
{
    start(Kind::Create { allow_dev_branches }, branch)
}

/// Starts `cleanup`: remove the worktree of `branch`, refusing to lose
/// uncommitted or unpushed work unless `force`.
pub fn cleanup(branch: String, force: bool) -> (r: (Session, Action))
    ensures
        (r.0@, r.1@) == start_rules(Kind::Cleanup { force }, branch@),
{
    start(Kind::Cleanup { force }, branch)
}

/// Starts `get`: print the path of the worktree of `branch`.
pub fn get(branch: String) -> (r: (Session, Action))
    ensures
        (r.0@, r.1@) == start_rules(Kind::Get, branch@),
{
    start(Kind::Get, branch)
}

} // verus!
