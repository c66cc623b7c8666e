//! Properties of the library as a whole, proved over the rules that the
//! functions' contracts state.
use vstd::prelude::*;
use crate::cli::{is_help, is_option, scan_command_args, spec_parse_args, CommandView};
use crate::git::{
    free_of_path_marks, spec_current_branch, spec_git_root, spec_has_uncommitted_changes, spec_worktree_name,
    spec_worktree_path, spec_worktrees_root,
};
use crate::paths::plain_component;
use crate::porcelain::{
    branch_prefix, empty_listing, flush, lemma_next_newline_at, lemma_next_newline_bounds, lines,
    lines_from, next_newline, read_line, read_lines, spec_parse_worktree_list, strip_cr,
    worktree_prefix, ListingState,
};
use crate::query::QueryView;
use crate::text::starts_with;
use crate::unpushed::{unpushed_step, ProgressView};
use crate::session::{
    awaits_answer, awaits_git, fits, is_base_branch, next, start_rules, ActionView, EventView,
    Kind, SessionView, StageView,
};

verus! {

/// The session waits for exactly the kind of report that its action asks
/// for, and has ended exactly when the action is `Done`.
pub open spec fn agrees(s: SessionView, a: ActionView) -> bool {
    match a {
        ActionView::Git { .. } => awaits_git(s.stage),
        ActionView::Done { .. } => s.stage is Finished,
        _ => awaits_answer(s.stage),
    }
}

/// Every command starts with an action whose report the session accepts, or
/// has already ended.
pub proof fn law_start_agrees(kind: Kind, branch: Seq<char>)
    ensures
        agrees(start_rules(kind, branch).0, start_rules(kind, branch).1),
{
}

/// Whatever report answers the session's action, the next action again
/// agrees with the session's state: a caller that answers each action with
/// the report it asks for never gives the session a report it cannot take.
pub proof fn law_step_agrees(s: SessionView, ev: EventView)
    requires
        fits(s, ev),
    ensures
        agrees(next(s, ev).0, next(s, ev).1),
{
}


/// Stages at which the session knows where the branch's worktree belongs.
pub open spec fn placed_stage(stage: StageView) -> bool {
    match stage {
        StageView::FindRoot | StageView::GetLookup | StageView::Finished => false,
        _ => true,
    }
}

/// The session's worktrees directory is the one of its repository, and its
/// destination is the branch's place there.
pub open spec fn placed(s: SessionView) -> bool {
    &&& spec_worktrees_root(s.repo) == Ok::<Seq<char>, (Seq<char>, bool)>(s.root)
    &&& s.destination == spec_worktree_path(s.root, s.branch)
}

/// The stage belongs to the session's command.
pub open spec fn stage_of_kind(s: SessionView) -> bool {
    match s.stage {
        StageView::CreateLookup | StageView::CreateCurrentBranch | StageView::CreateHasCommits
        | StageView::CreateDestination | StageView::CreateParent | StageView::CreateBranchExists
        | StageView::CreateAdd { .. } => s.kind is Create,
        StageView::GetLookup => s.kind is Get,
        StageView::CleanupIsDir | StageView::CleanupPrune | StageView::CleanupLookup
        | StageView::CleanupStatus | StageView::CleanupUnpushed { .. } | StageView::CleanupRemove
        | StageView::CleanupParents { .. } => s.kind is Cleanup,
        _ => true,
    }
}

/// What holds of every state a session goes through.
pub open spec fn well_formed(s: SessionView) -> bool {
    &&& stage_of_kind(s)
    &&& placed_stage(s.stage) ==> placed(s)
}

/// A session starts well formed.
pub proof fn law_start_well_formed(kind: Kind, branch: Seq<char>)
    ensures
        well_formed(start_rules(kind, branch).0),
{
}

/// Every step keeps a session well formed, and keeps its command and branch.
pub proof fn law_step_well_formed(s: SessionView, ev: EventView)
    requires
        well_formed(s),
    ensures
        well_formed(next(s, ev).0),
        next(s, ev).0.kind == s.kind,
        next(s, ev).0.branch == s.branch,
{
}

/// When `create` ends by printing a path and nothing on standard error, that
/// path is the branch's place in the repository's sibling `.worktrees`
/// directory: `<parent of repo>/<repo name>.worktrees/<branch with / as __>`.
pub proof fn law_create_prints_its_worktree(s: SessionView, ev: EventView, p: Seq<char>)
    requires
        well_formed(s),
        s.kind is Create,
        next(s, ev).1 == (ActionView::Done { stderr: None, stdout: Some(p), result: Ok(()) }),
    ensures
        exists|root: Seq<char>|
            spec_worktrees_root(s.repo) == Ok::<Seq<char>, (Seq<char>, bool)>(root)
                && p == spec_worktree_path(root, s.branch),
{
    assert(placed(s));
    assert(spec_worktrees_root(s.repo) == Ok::<Seq<char>, (Seq<char>, bool)>(s.root));
}


/// The states a session goes through as it takes the reports `evs`: the
/// state before the first report, then the state after each.
pub open spec fn states(s: SessionView, evs: Seq<EventView>) -> Seq<SessionView>
    decreases evs.len(),
{
    if evs.len() == 0 {
        seq![s]
    } else {
        seq![s] + states(next(s, evs[0]).0, evs.drop_first())
    }
}

/// If a session can enter the states `inside` only from inside or by a
/// `mark` step, and a `target` step happens only inside, then before any
/// target step the session was inside already or took a mark step.
proof fn lemma_history(
    s: SessionView,
    evs: Seq<EventView>,
    inside: spec_fn(SessionView) -> bool,
    mark: spec_fn(SessionView, EventView) -> bool,
    target: spec_fn(SessionView, EventView) -> bool,
    i: int,
)
    requires
        forall|x: SessionView, e: EventView| #[trigger] inside(next(x, e).0) ==> inside(x) || mark(x, e),
        forall|x: SessionView, e: EventView| #[trigger] target(x, e) ==> inside(x),
        0 <= i < evs.len(),
        target(states(s, evs)[i], evs[i]),
    ensures
        inside(s) || exists|j: int| 0 <= j < i && #[trigger] mark(states(s, evs)[j], evs[j]),
    decreases i,
{
    let rest = evs.drop_first();
    let s1 = next(s, evs[0]).0;
    assert(states(s, evs) == seq![s] + states(s1, rest));
    lemma_states_kind(s1, rest, 0);
    if i == 0 {
        assert(states(s, evs)[0] == s);
    } else {
        assert(states(s, evs)[i] == states(s1, rest)[i - 1]);
        assert(rest[i - 1] == evs[i]);
        lemma_history(s1, rest, inside, mark, target, i - 1);
        if inside(s1) {
            assert(inside(next(s, evs[0]).0));
            if !inside(s) {
                assert(mark(states(s, evs)[0], evs[0]));
            }
        } else {
            let j = choose|j: int| 0 <= j < i - 1 && #[trigger] mark(states(s1, rest)[j], rest[j]);
            assert(states(s, evs)[j + 1] == states(s1, rest)[j]);
            assert(evs[j + 1] == rest[j]);
            assert(mark(states(s, evs)[j + 1], evs[j + 1]));
        }
    }
}

/// Whether the report is Git's answer that the current branch is `main` or `staging`.
pub open spec fn reports_base_branch(ev: EventView) -> bool {
    ev matches EventView::Git(out) && spec_current_branch(out) matches Ok(cur) && is_base_branch(cur)
}

/// Whether the action asks Git to add a worktree.
pub open spec fn asks_add(a: ActionView) -> bool {
    a matches ActionView::Git { query: QueryView::AddWorktree { .. }, .. }
}

/// Whether the action asks Git to remove a worktree.
pub open spec fn asks_remove(a: ActionView) -> bool {
    a matches ActionView::Git { query: QueryView::RemoveWorktree { .. }, .. }
}

/// Without `--allow-dev-branches`, `create` asks Git to add a worktree only
/// after Git reported that the current branch is `main` or `staging`.
pub proof fn law_create_only_from_base_branches(branch: Seq<char>, evs: Seq<EventView>, i: int)
    requires
        0 <= i < evs.len(),
        asks_add(
            next(states(start_rules(Kind::Create { allow_dev_branches: false }, branch).0, evs)[i], evs[i]).1,
        ),
    ensures
        exists|j: int|
            0 <= j < i && (#[trigger] states(
                start_rules(Kind::Create { allow_dev_branches: false }, branch).0,
                evs,
            )[j]).stage is CreateCurrentBranch && reports_base_branch(evs[j]),
{
    let kind = Kind::Create { allow_dev_branches: false };
    let inside = |x: SessionView|
        x.kind == kind && (x.stage is CreateHasCommits || x.stage is CreateDestination
            || x.stage is CreateParent || x.stage is CreateBranchExists || x.stage is CreateAdd);
    let mark = |x: SessionView, e: EventView| x.stage is CreateCurrentBranch && reports_base_branch(e);
    let target = |x: SessionView, e: EventView| x.kind == kind && asks_add(next(x, e).1);
    let s0 = start_rules(kind, branch).0;
    assert forall|x: SessionView, e: EventView| #[trigger] inside(next(x, e).0) implies inside(x) || mark(x, e) by {
    }
    assert forall|x: SessionView, e: EventView| #[trigger] target(x, e) implies inside(x) by {
    }
    assert(states(s0, evs)[0] == s0) by {
        if evs.len() > 0 {
            assert(states(s0, evs) == seq![s0] + states(next(s0, evs[0]).0, evs.drop_first()));
        }
    }
    lemma_states_kind(s0, evs, i);
    lemma_history(s0, evs, inside, mark, target, i);
    let j = choose|j: int| 0 <= j < i && #[trigger] mark(states(s0, evs)[j], evs[j]);
    assert(states(s0, evs)[j].stage is CreateCurrentBranch && reports_base_branch(evs[j]));
}

/// Every state of a session keeps its command.
proof fn lemma_states_kind(s: SessionView, evs: Seq<EventView>, i: int)
    requires
        0 <= i <= evs.len(),
    ensures
        states(s, evs).len() == evs.len() + 1,
        states(s, evs)[i].kind == s.kind,
    decreases evs.len(),
{
    if evs.len() > 0 {
        let s1 = next(s, evs[0]).0;
        assert(s1.kind == s.kind);
        assert(states(s, evs) == seq![s] + states(s1, evs.drop_first()));
        if i > 0 {
            lemma_states_kind(s1, evs.drop_first(), i - 1);
        } else {
            lemma_states_kind(s1, evs.drop_first(), 0);
        }
    }
}

/// Whether the report is Git's status showing no uncommitted changes in the
/// session's worktree.
pub open spec fn reports_clean(s: SessionView, ev: EventView) -> bool {
    ev matches EventView::Git(out) && spec_has_uncommitted_changes(out, s.destination) == Ok::<bool, (Seq<char>, bool)>(false)
}

/// Without `--force`, `cleanup` asks Git to remove the worktree only after
/// `git status` reported no uncommitted changes, and in the step in which the
/// unpushed-commits check concluded that no commit is unpushed.
pub proof fn law_cleanup_keeps_unsaved_work(branch: Seq<char>, evs: Seq<EventView>, i: int)
    requires
        0 <= i < evs.len(),
        asks_remove(next(states(start_rules(Kind::Cleanup { force: false }, branch).0, evs)[i], evs[i]).1),
    ensures
        ({
            let st = states(start_rules(Kind::Cleanup { force: false }, branch).0, evs);
            &&& st[i].stage matches StageView::CleanupUnpushed { check }
            &&& evs[i] matches EventView::Git(out)
            &&& unpushed_step(check, st[i].destination, out) == ProgressView::Answer(Ok(false))
            &&& exists|j: int| 0 <= j < i && (#[trigger] st[j]).stage is CleanupStatus && reports_clean(st[j], evs[j])
        }),
{
    let kind = Kind::Cleanup { force: false };
    let inside = |x: SessionView| x.kind == kind && x.stage is CleanupUnpushed;
    let mark = |x: SessionView, e: EventView| x.stage is CleanupStatus && reports_clean(x, e);
    let target = |x: SessionView, e: EventView| x.kind == kind && asks_remove(next(x, e).1);
    let s0 = start_rules(kind, branch).0;
    assert forall|x: SessionView, e: EventView| #[trigger] inside(next(x, e).0) implies inside(x) || mark(x, e) by {
    }
    assert forall|x: SessionView, e: EventView| #[trigger] target(x, e) implies inside(x) by {
    }
    lemma_states_kind(s0, evs, i);
    lemma_history(s0, evs, inside, mark, target, i);
    let j = choose|j: int| 0 <= j < i && #[trigger] mark(states(s0, evs)[j], evs[j]);
    assert(states(s0, evs)[j].stage is CleanupStatus);
}


/// A worktree's directory name holds no `/`, so it is one path component.
pub proof fn law_worktree_name_is_one_component(branch: Seq<char>)
    ensures
        !spec_worktree_name(branch).contains('/'),
    decreases branch.len(),
{
    if branch.len() > 0 {
        law_worktree_name_is_one_component(branch.drop_last());
        let prev = spec_worktree_name(branch.drop_last());
        if branch.last() == '/' {
            assert forall|k: int| 0 <= k < prev.len() + 2 implies (prev + seq!['_', '_'])[k] != '/' by {
                if k < prev.len() {
                    assert(prev[k] != '/');
                }
            }
        } else {
            assert forall|k: int| 0 <= k < prev.len() + 1 implies prev.push(branch.last())[k] != '/' by {
                if k < prev.len() {
                    assert(prev[k] != '/');
                }
            }
        }
    }
}

/// A branch name without `/` is its own worktree directory name.
pub proof fn law_worktree_name_keeps_plain_names(branch: Seq<char>)
    requires
        !branch.contains('/'),
    ensures
        spec_worktree_name(branch) == branch,
    decreases branch.len(),
{
    if branch.len() > 0 {
        assert(!branch.drop_last().contains('/')) by {
            if branch.drop_last().contains('/') {
                let k = choose|k: int| 0 <= k < branch.drop_last().len() && branch.drop_last()[k] == '/';
                assert(branch[k] == '/');
            }
        }
        assert(branch.last() != '/') by {
            assert(branch[branch.len() - 1] == branch.last());
        }
        law_worktree_name_keeps_plain_names(branch.drop_last());
        assert(branch.drop_last().push(branch.last()) =~= branch);
    }
}

proof fn lemma_worktree_name_chars(branch: Seq<char>)
    ensures
        spec_worktree_name(branch).len() >= branch.len(),
        forall|c: char| c != '_' && #[trigger] spec_worktree_name(branch).contains(c) ==> branch.contains(c),
        branch.contains('/') ==> spec_worktree_name(branch).contains('_'),
    decreases branch.len(),
{
    if branch.len() > 0 {
        let init = branch.drop_last();
        lemma_worktree_name_chars(init);
        let prev = spec_worktree_name(init);
        let name = spec_worktree_name(branch);
        assert forall|c: char| c != '_' && #[trigger] name.contains(c) implies branch.contains(c) by {
            let k = choose|k: int| 0 <= k < name.len() && name[k] == c;
            if k < prev.len() {
                assert(name[k] == prev[k]);
                assert(prev.contains(c));
                let m = choose|m: int| 0 <= m < init.len() && init[m] == c;
                assert(branch[m] == c);
            } else {
                assert(branch.last() != '/');
                assert(name[k] == branch.last());
                assert(branch[branch.len() - 1] == c);
            }
        }
        if branch.contains('/') {
            if branch.last() == '/' {
                assert(name[prev.len() as int] == '_');
            } else {
                let m = choose|m: int| 0 <= m < branch.len() && branch[m] == '/';
                assert(m < branch.len() - 1) by {
                    assert(branch[branch.len() - 1] == branch.last());
                }
                assert(init[m] == '/');
                assert(init.contains('/'));
                let k = choose|k: int| 0 <= k < prev.len() && prev[k] == '_';
                assert(name[k] == '_');
            }
        }
    }
}

/// The worktree directory name of a branch is one plain path component
/// whenever the branch name is not empty, is not `.` or `..`, and holds no
/// `\` or `:`: so for every name that `validate_branch_name` accepts.
pub proof fn law_worktree_name_is_plain(branch: Seq<char>)
    requires
        branch.len() > 0,
        free_of_path_marks(branch),
    ensures
        plain_component(spec_worktree_name(branch)),
{
    let name = spec_worktree_name(branch);
    lemma_worktree_name_chars(branch);
    law_worktree_name_is_one_component(branch);
    assert(!name.contains('\\'));
    assert(!name.contains(':'));
    reveal_strlit(".");
    reveal_strlit("..");
    if !branch.contains('/') {
        law_worktree_name_keeps_plain_names(branch);
    } else {
        assert(name.contains('_'));
        let k = choose|k: int| 0 <= k < name.len() && name[k] == '_';
        assert(name != "."@) by {
            if name == "."@ {
                assert(name[k] == '.');
            }
        }
        assert(name != ".."@) by {
            if name == ".."@ {
                assert(name[k] == '.');
            }
        }
    }
}

/// `create` takes `--allow-dev-branches` before or after the branch name.
pub proof fn law_create_flag_anywhere(branch: Seq<char>)
    requires
        !is_option(branch),
    ensures
        spec_parse_args(seq!["create"@, "--allow-dev-branches"@, branch]) == spec_parse_args(
            seq!["create"@, branch, "--allow-dev-branches"@],
        ),
        spec_parse_args(seq!["create"@, branch, "--allow-dev-branches"@]) == Ok::<Option<CommandView>, (Seq<char>, bool)>(
            Some(CommandView::Create { allow_dev_branches: true, branch_name: branch }),
        ),
{
    reveal_strlit("create");
    reveal_strlit("--allow-dev-branches");
    reveal_strlit("-h");
    reveal_strlit("--help");
    reveal_strlit("--");
    let a1 = seq!["create"@, "--allow-dev-branches"@, branch];
    let a2 = seq!["create"@, branch, "--allow-dev-branches"@];
    assert(a1.drop_first() =~= seq!["--allow-dev-branches"@, branch]);
    assert(a2.drop_first() =~= seq![branch, "--allow-dev-branches"@]);
    assert(branch != "-h"@ && branch != "--help"@ && branch != "--"@);
    let f = "--allow-dev-branches"@;
    assert(f.len() == 20 && f[0] == '-');
    assert(f != "-h"@ && f != "--help"@ && f != "--"@);
    reveal_with_fuel(crate::cli::scan_command_args, 4);
}

/// `cleanup` takes `--force` before or after the branch name.
pub proof fn law_cleanup_flag_anywhere(branch: Seq<char>)
    requires
        !is_option(branch),
    ensures
        spec_parse_args(seq!["cleanup"@, "--force"@, branch]) == spec_parse_args(
            seq!["cleanup"@, branch, "--force"@],
        ),
        spec_parse_args(seq!["cleanup"@, branch, "--force"@]) == Ok::<Option<CommandView>, (Seq<char>, bool)>(
            Some(CommandView::Cleanup { force: true, branch_name: branch }),
        ),
{
    reveal_strlit("create");
    reveal_strlit("cleanup");
    reveal_strlit("--force");
    reveal_strlit("-h");
    reveal_strlit("--help");
    reveal_strlit("--");
    let a1 = seq!["cleanup"@, "--force"@, branch];
    let a2 = seq!["cleanup"@, branch, "--force"@];
    assert(a1.drop_first() =~= seq!["--force"@, branch]);
    assert(a2.drop_first() =~= seq![branch, "--force"@]);
    assert(branch != "-h"@ && branch != "--help"@ && branch != "--"@);
    assert("cleanup"@[1] != "create"@[1]);
    let f = "--force"@;
    assert(f.len() == 7 && f[0] == '-');
    assert(f != "-h"@ && f != "--help"@ && f != "--"@);
    reveal_with_fuel(crate::cli::scan_command_args, 4);
}


/// With `--force`, `cleanup` never looks for uncommitted or unpushed work:
/// none of its states waits for `git status` or for the unpushed-commits check.
pub proof fn law_forced_cleanup_skips_checks(branch: Seq<char>, evs: Seq<EventView>, i: int)
    requires
        0 <= i < evs.len(),
    ensures
        !(states(start_rules(Kind::Cleanup { force: true }, branch).0, evs)[i].stage is CleanupStatus),
        !(states(start_rules(Kind::Cleanup { force: true }, branch).0, evs)[i].stage is CleanupUnpushed),
{
    let kind = Kind::Cleanup { force: true };
    let inside = |x: SessionView| x.kind == kind && (x.stage is CleanupStatus || x.stage is CleanupUnpushed);
    let mark = |x: SessionView, e: EventView| false;
    let target = |x: SessionView, e: EventView| inside(x);
    let s0 = start_rules(kind, branch).0;
    assert forall|x: SessionView, e: EventView| #[trigger] inside(next(x, e).0) implies inside(x) || mark(x, e) by {
    }
    lemma_states_kind(s0, evs, i);
    if inside(states(s0, evs)[i]) {
        lemma_history(s0, evs, inside, mark, target, i);
    }
}

/// `cleanup` of a branch whose worktree directory does not exist succeeds:
/// it asks Git to prune stale records and ends well, whatever Git answers.
pub proof fn law_cleanup_of_missing_worktree_succeeds(s: SessionView, pruned: EventView)
    requires
        s.stage is CleanupIsDir,
        fits(next(s, EventView::Answer(false)).0, pruned),
    ensures
        next(s, EventView::Answer(false)).1 == (ActionView::Git { dir: Some(s.repo), query: QueryView::PruneWorktrees }),
        next(next(s, EventView::Answer(false)).0, pruned).1 == (ActionView::Done { stderr: None, stdout: None, result: Ok(()) }),
{
}

/// `get main` and `get staging` print the repository's root directory.
pub proof fn law_get_base_branch_prints_repository(s: SessionView, out: (bool, Seq<u8>))
    requires
        s.kind is Get,
        s.stage is FindRoot,
        is_base_branch(s.branch),
        spec_git_root(out) is Ok,
    ensures
        next(s, EventView::Git(out)).1 == (ActionView::Done {
            stderr: None,
            stdout: Some(spec_git_root(out)->Ok_0),
            result: Ok(()),
        }),
{
}

// ---------------------------------------------------------------------------
// `[--flag] <branch-name>` in general.

/// No argument asks for help or is `--`.
pub open spec fn no_help_or_separator(args: Seq<Seq<char>>) -> bool {
    forall|j: int| 0 <= j < args.len() ==> !is_help(#[trigger] args[j]) && args[j] != "--"@
}

/// Every option among `args[i..]` is the allowed flag.
pub open spec fn options_allowed(args: Seq<Seq<char>>, i: int, allowed_flag: Option<Seq<char>>) -> bool {
    forall|j: int| i <= j < args.len() && is_option(#[trigger] args[j]) ==> allowed_flag == Some(args[j])
}

/// Every argument among `args[i..]` is an option.
pub open spec fn all_options(args: Seq<Seq<char>>, i: int) -> bool {
    forall|j: int| i <= j < args.len() ==> is_option(#[trigger] args[j])
}

/// Some argument among `args[i..]` is an option.
pub open spec fn some_option(args: Seq<Seq<char>>, i: int) -> bool {
    exists|j: int| i <= j < args.len() && is_option(#[trigger] args[j])
}

/// `args[k]` is the one argument among `args[i..]` that is not an option.
pub open spec fn only_plain_at(args: Seq<Seq<char>>, i: int, k: int) -> bool {
    &&& i <= k < args.len()
    &&& !is_option(args[k])
    &&& forall|j: int| i <= j < args.len() && j != k ==> is_option(#[trigger] args[j])
}

proof fn lemma_scan_plain(
    args: Seq<Seq<char>>,
    i: int,
    command: Seq<char>,
    allowed_flag: Option<Seq<char>>,
    flag: bool,
    branch: Option<Seq<char>>,
)
    requires
        no_help_or_separator(args),
        0 <= i <= args.len(),
    ensures
        ({
            let r = scan_command_args(args, i, command, allowed_flag, flag, branch);
            &&& r != Ok::<Option<(bool, Seq<char>)>, (Seq<char>, bool)>(None)
            &&& branch is None ==> (r is Ok <==> options_allowed(args, i, allowed_flag)
                && exists|k: int| only_plain_at(args, i, k))
            &&& branch is None ==> forall|k: int| only_plain_at(args, i, k) && options_allowed(args, i, allowed_flag)
                ==> r == Ok::<Option<(bool, Seq<char>)>, (Seq<char>, bool)>(Some((flag || some_option(args, i), args[k])))
            &&& branch matches Some(b) ==> (r is Ok <==> options_allowed(args, i, allowed_flag) && all_options(args, i))
            &&& branch matches Some(b) ==> (options_allowed(args, i, allowed_flag) && all_options(args, i)
                ==> r == Ok::<Option<(bool, Seq<char>)>, (Seq<char>, bool)>(Some((flag || some_option(args, i), b))))
        }),
    decreases args.len() - i,
{
    if i < args.len() {
        let a = args[i];
        assert(!is_help(a) && a != "--"@);
        if is_option(a) {
            assert(some_option(args, i));
            if allowed_flag == Some(a) {
                lemma_scan_plain(args, i + 1, command, allowed_flag, true, branch);
                assert(options_allowed(args, i, allowed_flag) == options_allowed(args, i + 1, allowed_flag)) by {
                    if options_allowed(args, i + 1, allowed_flag) {
                        assert forall|j: int| i <= j < args.len() && is_option(#[trigger] args[j]) implies allowed_flag == Some(args[j]) by {
                            if j > i {
                                assert(allowed_flag == Some(args[j]));
                            }
                        }
                    }
                }
                assert(all_options(args, i) == all_options(args, i + 1));
                let r = scan_command_args(args, i, command, allowed_flag, flag, branch);
                assert(r == scan_command_args(args, i + 1, command, allowed_flag, true, branch));
                if branch is None && r is Ok {
                    let i1 = i + 1;
                    let k = choose|k: int| only_plain_at(args, i1, k);
                    assert(only_plain_at(args, i, k)) by {
                        assert forall|j: int| i <= j < args.len() && j != k implies is_option(#[trigger] args[j]) by {
                            if j > i {
                                assert(is_option(args[j]));
                            }
                        }
                    }
                }
                assert forall|k: int| only_plain_at(args, i, k) <==> only_plain_at(args, i + 1, k) by {
                    if only_plain_at(args, i + 1, k) {
                        assert forall|j: int| i <= j < args.len() && j != k implies is_option(#[trigger] args[j]) by {
                            if j > i {
                                assert(is_option(args[j]));
                            }
                        }
                    }
                }
            } else {
                assert(!options_allowed(args, i, allowed_flag));
                assert(scan_command_args(args, i, command, allowed_flag, flag, branch) is Err);
            }
        } else {
            match branch {
                Some(b) => {
                    assert(!all_options(args, i));
                },
                None => {
                    lemma_scan_plain(args, i + 1, command, allowed_flag, flag, Some(a));
                    assert(options_allowed(args, i, allowed_flag) == options_allowed(args, i + 1, allowed_flag)) by {
                        if options_allowed(args, i + 1, allowed_flag) {
                            assert forall|j: int| i <= j < args.len() && is_option(#[trigger] args[j]) implies allowed_flag == Some(args[j]) by {
                                if j > i {
                                    assert(allowed_flag == Some(args[j]));
                                }
                            }
                        }
                    }
                    assert(some_option(args, i) == some_option(args, i + 1)) by {
                        if some_option(args, i) {
                            let j = choose|j: int| i <= j < args.len() && is_option(#[trigger] args[j]);
                            assert(j != i);
                        }
                    }
                    assert((exists|k: int| only_plain_at(args, i, k)) == all_options(args, i + 1)) by {
                        if all_options(args, i + 1) {
                            assert(only_plain_at(args, i, i));
                        }
                        if exists|k: int| only_plain_at(args, i, k) {
                            let k = choose|k: int| only_plain_at(args, i, k);
                            assert(k == i);
                            assert forall|j: int| i + 1 <= j < args.len() implies is_option(#[trigger] args[j]) by {
                                assert(j != k);
                            }
                        }
                    }
                    assert forall|k: int| only_plain_at(args, i, k) implies k == i by {
                        if k != i {
                            assert(is_option(args[i]));
                        }
                    }
                    let r = scan_command_args(args, i, command, allowed_flag, flag, branch);
                    assert(r == scan_command_args(args, i + 1, command, allowed_flag, flag, Some(a)));
                    assert(r is Ok ==> options_allowed(args, i, allowed_flag));
                },
            }
        }
    }
}

/// Without help or `--` among the arguments, `[--flag] <branch-name>` is read
/// exactly when there is one argument that is not an option and every option
/// is the allowed flag; then it gives that argument, with the flag set when
/// the flag was given. It never reads as a request for help.
pub proof fn law_parse_command_args_plain(args: Seq<Seq<char>>, command: Seq<char>, allowed_flag: Option<Seq<char>>)
    requires
        no_help_or_separator(args),
    ensures
        ({
            let r = scan_command_args(args, 0, command, allowed_flag, false, None);
            &&& r != Ok::<Option<(bool, Seq<char>)>, (Seq<char>, bool)>(None)
            &&& r is Ok <==> options_allowed(args, 0, allowed_flag) && exists|k: int| only_plain_at(args, 0, k)
            &&& forall|k: int| only_plain_at(args, 0, k) && options_allowed(args, 0, allowed_flag)
                ==> r == Ok::<Option<(bool, Seq<char>)>, (Seq<char>, bool)>(Some((some_option(args, 0), args[k])))
        }),
{
    lemma_scan_plain(args, 0, command, allowed_flag, false, None);
}

// ---------------------------------------------------------------------------
// Reading back a listing.

/// Text made of the lines `ls`, each followed by `'\n'`.
pub open spec fn text_of_lines(ls: Seq<Seq<char>>) -> Seq<char>
    decreases ls.len(),
{
    if ls.len() == 0 {
        seq![]
    } else {
        ls[0] + seq!['\n'] + text_of_lines(ls.drop_first())
    }
}

/// The lines Git prints for one worktree: its path, its `HEAD`, its branch
/// when it has one, and an empty line.
pub open spec fn record_lines(w: (Seq<char>, Option<Seq<char>>), head: Seq<char>) -> Seq<Seq<char>> {
    seq![worktree_prefix() + w.0, "HEAD "@ + head] + (match w.1 {
        Some(b) => seq![branch_prefix() + b],
        None => seq![],
    }) + seq![seq![]]
}

/// The lines of a listing of the worktrees `ws` with the heads `heads`.
pub open spec fn listing_lines(ws: Seq<(Seq<char>, Option<Seq<char>>)>, heads: Seq<Seq<char>>) -> Seq<Seq<char>>
    decreases ws.len(),
{
    if ws.len() == 0 || heads.len() == 0 {
        seq![]
    } else {
        record_lines(ws[0], heads[0]) + listing_lines(ws.drop_first(), heads.drop_first())
    }
}

/// The porcelain listing of the worktrees `ws`, with the heads `heads`.
pub open spec fn porcelain_listing(ws: Seq<(Seq<char>, Option<Seq<char>>)>, heads: Seq<Seq<char>>) -> Seq<char> {
    text_of_lines(listing_lines(ws, heads))
}

/// A piece of a line: no line end in it.
pub open spec fn one_line(s: Seq<char>) -> bool {
    !s.contains('\n') && !s.contains('\r')
}

proof fn lemma_next_newline_shift(p: Seq<char>, t: Seq<char>, from: int)
    requires
        0 <= from <= t.len(),
    ensures
        next_newline(p + t, p.len() + from) == p.len() + next_newline(t, from),
    decreases t.len() - from,
{
    if from < t.len() {
        assert((p + t)[p.len() + from] == t[from]);
        if t[from] != '\n' {
            lemma_next_newline_shift(p, t, from + 1);
        }
    }
}

proof fn lemma_lines_shift(p: Seq<char>, t: Seq<char>, from: int)
    requires
        0 <= from,
    ensures
        lines_from(p + t, p.len() + from) == lines_from(t, from),
    decreases t.len() - from,
{
    if from < t.len() {
        let k = next_newline(t, from);
        lemma_next_newline_shift(p, t, from);
        lemma_next_newline_bounds(t, from);
        assert((p + t).subrange(p.len() + from, p.len() + k) =~= t.subrange(from, k));
        if k < t.len() {
            lemma_lines_shift(p, t, k + 1);
        } else {
            assert((p + t).subrange(p.len() + from, (p + t).len() as int) =~= t.subrange(from, t.len() as int));
        }
    }
}

proof fn lemma_lines_first(l: Seq<char>, rest: Seq<char>)
    requires
        one_line(l),
    ensures
        lines(l + seq!['\n'] + rest) == seq![l] + lines(rest),
{
    let p = l + seq!['\n'];
    let t = p + rest;
    assert forall|j: int| 0 <= j < l.len() implies t[j] != '\n' by {
        assert(t[j] == l[j]);
    }
    lemma_next_newline_at(t, 0, l.len() as int);
    assert(t.subrange(0, l.len() as int) =~= l);
    assert(strip_cr(l) == l) by {
        if l.len() > 0 {
            assert(l[l.len() - 1] == l.last());
        }
    }
    lemma_lines_shift(p, rest, 0);
    assert(l + seq!['\n'] + rest == t);
}

proof fn lemma_lines_of_text(ls: Seq<Seq<char>>)
    requires
        forall|i: int| 0 <= i < ls.len() ==> one_line(#[trigger] ls[i]),
    ensures
        lines(text_of_lines(ls)) == ls,
    decreases ls.len(),
{
    if ls.len() > 0 {
        let rest = ls.drop_first();
        assert forall|i: int| 0 <= i < rest.len() implies one_line(#[trigger] rest[i]) by {
            assert(rest[i] == ls[i + 1]);
        }
        lemma_lines_of_text(rest);
        lemma_lines_first(ls[0], text_of_lines(rest));
        assert(seq![ls[0]] + rest =~= ls);
    }
}

proof fn lemma_read_lines_append(st: ListingState, a: Seq<Seq<char>>, b: Seq<Seq<char>>)
    ensures
        read_lines(st, a + b) == read_lines(read_lines(st, a), b),
    decreases a.len(),
{
    if a.len() > 0 {
        assert((a + b).drop_first() =~= a.drop_first() + b);
        assert((a + b)[0] == a[0]);
        lemma_read_lines_append(read_line(st, a[0]), a.drop_first(), b);
    } else {
        assert(a + b =~= b);
    }
}

/// Whether the worktrees and heads can be written one per line.
pub open spec fn writable(ws: Seq<(Seq<char>, Option<Seq<char>>)>, heads: Seq<Seq<char>>) -> bool {
    &&& ws.len() == heads.len()
    &&& forall|i: int| 0 <= i < ws.len() ==> one_line(#[trigger] ws[i].0) && one_line(heads[i])
        && (ws[i].1 matches Some(b) ==> one_line(b))
}

proof fn lemma_one_line_concat(a: Seq<char>, b: Seq<char>)
    requires
        one_line(a),
        one_line(b),
    ensures
        one_line(a + b),
{
    assert forall|c: char| (a + b).contains(c) implies a.contains(c) || b.contains(c) by {
        let k = choose|k: int| 0 <= k < (a + b).len() && (a + b)[k] == c;
        if k < a.len() {
            assert(a[k] == c);
        } else {
            assert(b[k - a.len()] == c);
        }
    }
}

proof fn lemma_record_reads_back(acc: Seq<(Seq<char>, Option<Seq<char>>)>, w: (Seq<char>, Option<Seq<char>>), head: Seq<char>)
    ensures
        read_lines(ListingState { worktrees: acc, path: None, branch: None }, record_lines(w, head))
            == (ListingState { worktrees: acc.push(w), path: None, branch: None }),
{
    reveal_strlit("worktree ");
    reveal_strlit("branch ");
    reveal_strlit("HEAD ");
    let st0 = ListingState { worktrees: acc, path: None, branch: None };
    let l0 = worktree_prefix() + w.0;
    let l1 = "HEAD "@ + head;
    assert(l0.subrange(0, 9) =~= worktree_prefix());
    assert(l0.skip(9) =~= w.0);
    let st1 = read_line(st0, l0);
    assert(st1 == ListingState { worktrees: acc, path: Some(w.0), branch: None });
    assert(l1[0] == 'H');
    assert(!starts_with(l1, worktree_prefix())) by {
        if worktree_prefix().len() <= l1.len() {
            assert(l1.subrange(0, 9)[0] != worktree_prefix()[0]);
        }
    }
    assert(!starts_with(l1, branch_prefix())) by {
        if branch_prefix().len() <= l1.len() {
            assert(l1.subrange(0, 7)[0] != branch_prefix()[0]);
        }
    }
    let st2 = read_line(st1, l1);
    assert(st2 == st1);
    let ls = record_lines(w, head);
    match w.1 {
        Some(b) => {
            let l2 = branch_prefix() + b;
            assert(l2.subrange(0, 7) =~= branch_prefix());
            assert(l2.skip(7) =~= b);
            assert(!starts_with(l2, worktree_prefix())) by {
                if worktree_prefix().len() <= l2.len() {
                    assert(l2.subrange(0, 9)[0] != worktree_prefix()[0]);
                }
            }
            let st3 = read_line(st2, l2);
            assert(st3 == ListingState { worktrees: acc, path: Some(w.0), branch: Some(b) });
            assert(ls =~= seq![l0, l1, l2, seq![]]);
            let st4 = read_line(st3, seq![]);
            assert(st4 == ListingState { worktrees: acc.push(w), path: None, branch: None });
            assert(ls.drop_first() =~= seq![l1, l2, seq![]]);
            assert(ls.drop_first().drop_first() =~= seq![l2, seq![]]);
            assert(ls.drop_first().drop_first().drop_first() =~= seq![seq![]]);
            assert(ls.drop_first().drop_first().drop_first().drop_first() =~= Seq::<Seq<char>>::empty());
            reveal_with_fuel(read_lines, 5);
        },
        None => {
            assert(ls =~= seq![l0, l1, seq![]]);
            let st3 = read_line(st2, seq![]);
            assert(st3 == ListingState { worktrees: acc.push(w), path: None, branch: None });
            assert(ls.drop_first() =~= seq![l1, seq![]]);
            assert(ls.drop_first().drop_first() =~= seq![seq![]]);
            assert(ls.drop_first().drop_first().drop_first() =~= Seq::<Seq<char>>::empty());
            reveal_with_fuel(read_lines, 4);
        },
    }
}

proof fn lemma_listing_reads_back(
    acc: Seq<(Seq<char>, Option<Seq<char>>)>,
    ws: Seq<(Seq<char>, Option<Seq<char>>)>,
    heads: Seq<Seq<char>>,
)
    requires
        ws.len() == heads.len(),
    ensures
        read_lines(ListingState { worktrees: acc, path: None, branch: None }, listing_lines(ws, heads))
            == (ListingState { worktrees: acc + ws, path: None, branch: None }),
    decreases ws.len(),
{
    if ws.len() == 0 {
        assert(acc + ws =~= acc);
    } else {
        let st = ListingState { worktrees: acc, path: None, branch: None };
        lemma_read_lines_append(st, record_lines(ws[0], heads[0]), listing_lines(ws.drop_first(), heads.drop_first()));
        lemma_record_reads_back(acc, ws[0], heads[0]);
        lemma_listing_reads_back(acc.push(ws[0]), ws.drop_first(), heads.drop_first());
        assert(acc.push(ws[0]) + ws.drop_first() =~= acc + ws);
    }
}

proof fn lemma_listing_lines_one_line(ws: Seq<(Seq<char>, Option<Seq<char>>)>, heads: Seq<Seq<char>>)
    requires
        writable(ws, heads),
    ensures
        forall|i: int| 0 <= i < listing_lines(ws, heads).len() ==> one_line(#[trigger] listing_lines(ws, heads)[i]),
    decreases ws.len(),
{
    reveal_strlit("worktree ");
    reveal_strlit("branch ");
    reveal_strlit("HEAD ");
    if ws.len() > 0 {
        let rest_ws = ws.drop_first();
        let rest_heads = heads.drop_first();
        assert(writable(rest_ws, rest_heads)) by {
            assert forall|i: int| 0 <= i < rest_ws.len() implies one_line(#[trigger] rest_ws[i].0) && one_line(rest_heads[i])
                && (rest_ws[i].1 matches Some(b) ==> one_line(b)) by {
                assert(rest_ws[i] == ws[i + 1]);
                assert(rest_heads[i] == heads[i + 1]);
            }
        }
        lemma_listing_lines_one_line(rest_ws, rest_heads);
        assert(one_line(ws[0].0) && one_line(heads[0]));
        assert(one_line(worktree_prefix())) by {
            assert(worktree_prefix() =~= seq!['w', 'o', 'r', 'k', 't', 'r', 'e', 'e', ' ']);
        }
        assert(one_line(branch_prefix())) by {
            assert(branch_prefix() =~= seq!['b', 'r', 'a', 'n', 'c', 'h', ' ']);
        }
        assert(one_line("HEAD "@)) by {
            assert("HEAD "@ =~= seq!['H', 'E', 'A', 'D', ' ']);
        }
        assert(one_line(Seq::<char>::empty()));
        lemma_one_line_concat(worktree_prefix(), ws[0].0);
        lemma_one_line_concat("HEAD "@, heads[0]);
        let r = record_lines(ws[0], heads[0]);
        if let Some(b) = ws[0].1 {
            lemma_one_line_concat(branch_prefix(), b);
        }
        assert forall|i: int| 0 <= i < r.len() implies one_line(#[trigger] r[i]) by {
        }
        let all = listing_lines(ws, heads);
        let tail = listing_lines(rest_ws, rest_heads);
        assert(all == r + tail);
        assert forall|i: int| 0 <= i < all.len() implies one_line(#[trigger] all[i]) by {
            if i < r.len() {
                assert(all[i] == r[i]);
            } else {
                assert(all[i] == tail[i - r.len()]);
            }
        }
    }
}

/// Reading the porcelain listing of worktrees gives back those worktrees, in
/// order, when their paths, heads and branches hold no line ends.
pub proof fn law_listing_reads_back(ws: Seq<(Seq<char>, Option<Seq<char>>)>, heads: Seq<Seq<char>>)
    requires
        writable(ws, heads),
    ensures
        spec_parse_worktree_list(porcelain_listing(ws, heads)) == ws,
{
    lemma_listing_lines_one_line(ws, heads);
    lemma_lines_of_text(listing_lines(ws, heads));
    lemma_listing_reads_back(seq![], ws, heads);
    assert(Seq::<(Seq<char>, Option<Seq<char>>)>::empty() + ws =~= ws);
}


// ---------------------------------------------------------------------------
// What a listing says, in general.

/// The paths named by the `worktree ` lines among `ls`, in order.
pub open spec fn worktree_line_paths(ls: Seq<Seq<char>>) -> Seq<Seq<char>>
    decreases ls.len(),
{
    if ls.len() == 0 {
        seq![]
    } else {
        (if starts_with(ls[0], worktree_prefix()) {
            seq![ls[0].skip(worktree_prefix().len() as int)]
        } else {
            seq![]
        }) + worktree_line_paths(ls.drop_first())
    }
}

/// The paths of the worktrees listed.
pub open spec fn paths_of(ws: Seq<(Seq<char>, Option<Seq<char>>)>) -> Seq<Seq<char>> {
    ws.map_values(|w: (Seq<char>, Option<Seq<char>>)| w.0)
}

/// The paths of the finished worktrees and of the record being read.
pub open spec fn pending_paths(st: ListingState) -> Seq<Seq<char>> {
    paths_of(st.worktrees) + (match st.path {
        Some(p) => seq![p],
        None => seq![],
    })
}

proof fn lemma_flush_keeps_paths(st: ListingState)
    ensures
        pending_paths(flush(st)) == pending_paths(st),
        flush(st).path is None,
{
    if let Some(p) = st.path {
        assert(paths_of(st.worktrees.push((p, st.branch))) =~= paths_of(st.worktrees).push(p));
        assert(pending_paths(flush(st)) =~= pending_paths(st));
    }
}

proof fn lemma_read_lines_paths(st: ListingState, ls: Seq<Seq<char>>)
    ensures
        pending_paths(read_lines(st, ls)) == pending_paths(st) + worktree_line_paths(ls),
    decreases ls.len(),
{
    if ls.len() == 0 {
        assert(pending_paths(st) + worktree_line_paths(ls) =~= pending_paths(st));
    } else {
        let l = ls[0];
        let st1 = read_line(st, l);
        lemma_flush_keeps_paths(st);
        if starts_with(l, worktree_prefix()) {
            let p = l.skip(worktree_prefix().len() as int);
            assert(pending_paths(st1) =~= pending_paths(flush(st)) + seq![p]);
        } else if starts_with(l, branch_prefix()) {
            assert(pending_paths(st1) =~= pending_paths(st));
        } else if l.len() == 0 {
        } else {
        }
        assert(pending_paths(st1) == pending_paths(st) + (if starts_with(l, worktree_prefix()) {
            seq![l.skip(worktree_prefix().len() as int)]
        } else {
            seq![]
        }));
        lemma_read_lines_paths(st1, ls.drop_first());
        assert(pending_paths(st) + worktree_line_paths(ls) =~= pending_paths(st1) + worktree_line_paths(ls.drop_first()));
    }
}

/// The worktrees read from any text are exactly the paths of its `worktree `
/// lines, in order: no other line starts a record, and every such line does.
pub proof fn law_listing_paths_are_worktree_lines(t: Seq<char>)
    ensures
        paths_of(spec_parse_worktree_list(t)) == worktree_line_paths(lines(t)),
{
    let st = read_lines(empty_listing(), lines(t));
    lemma_read_lines_paths(empty_listing(), lines(t));
    lemma_flush_keeps_paths(st);
    assert(pending_paths(empty_listing()) =~= Seq::<Seq<char>>::empty());
    assert(pending_paths(flush(st)) =~= paths_of(flush(st).worktrees));
    assert(Seq::<Seq<char>>::empty() + worktree_line_paths(lines(t)) =~= worktree_line_paths(lines(t)));
}


/// A record of a listing: the path of its `worktree ` line, the lines of its
/// body, and the lines after its end.
pub type ListingRecord = (Seq<char>, Seq<Seq<char>>, Seq<Seq<char>>);

pub open spec fn is_worktree_line(l: Seq<char>) -> bool {
    starts_with(l, worktree_prefix())
}

pub open spec fn is_branch_line(l: Seq<char>) -> bool {
    starts_with(l, branch_prefix())
}

/// A line that neither starts a record nor names a branch.
pub open spec fn is_other_line(l: Seq<char>) -> bool {
    !is_worktree_line(l) && !is_branch_line(l)
}

/// The ref named by the last `branch ` line among `ls`, or `b` when there is none.
pub open spec fn last_branch_or(ls: Seq<Seq<char>>, b: Option<Seq<char>>) -> Option<Seq<char>>
    decreases ls.len(),
{
    if ls.len() == 0 {
        b
    } else {
        last_branch_or(
            ls.drop_first(),
            if is_branch_line(ls[0]) { Some(ls[0].skip(branch_prefix().len() as int)) } else { b },
        )
    }
}

/// A well-formed record: its body lines are not empty and start no record;
/// what follows its end, if anything, is an empty line and then lines that
/// neither start a record nor name a branch.
pub open spec fn well_formed_record(r: ListingRecord) -> bool {
    &&& forall|i: int| 0 <= i < r.1.len() ==> (#[trigger] r.1[i]).len() > 0 && !is_worktree_line(r.1[i])
    &&& r.2.len() > 0 ==> r.2[0].len() == 0
    &&& forall|i: int| 0 <= i < r.2.len() ==> is_other_line(#[trigger] r.2[i])
}

pub open spec fn record_text_lines(r: ListingRecord) -> Seq<Seq<char>> {
    seq![worktree_prefix() + r.0] + r.1 + r.2
}

pub open spec fn records_lines(rs: Seq<ListingRecord>) -> Seq<Seq<char>>
    decreases rs.len(),
{
    if rs.len() == 0 {
        seq![]
    } else {
        record_text_lines(rs[0]) + records_lines(rs.drop_first())
    }
}

/// What each record describes: its path, and the ref of its last `branch ` line.
pub open spec fn described(rs: Seq<ListingRecord>) -> Seq<(Seq<char>, Option<Seq<char>>)> {
    rs.map_values(|r: ListingRecord| (r.0, last_branch_or(r.1, None)))
}

/// No record is being read, or one is.
pub open spec fn orderly(st: ListingState) -> bool {
    st.path is None ==> st.branch is None
}

proof fn lemma_other_lines_keep_closed(acc: Seq<(Seq<char>, Option<Seq<char>>)>, ls: Seq<Seq<char>>)
    requires
        forall|i: int| 0 <= i < ls.len() ==> is_other_line(#[trigger] ls[i]),
    ensures
        read_lines(ListingState { worktrees: acc, path: None, branch: None }, ls)
            == (ListingState { worktrees: acc, path: None, branch: None }),
    decreases ls.len(),
{
    if ls.len() > 0 {
        assert(is_other_line(ls[0]));
        let rest = ls.drop_first();
        assert forall|i: int| 0 <= i < rest.len() implies is_other_line(#[trigger] rest[i]) by {
            assert(rest[i] == ls[i + 1]);
        }
        lemma_other_lines_keep_closed(acc, rest);
    }
}

proof fn lemma_body(acc: Seq<(Seq<char>, Option<Seq<char>>)>, p: Seq<char>, b: Option<Seq<char>>, ls: Seq<Seq<char>>)
    requires
        forall|i: int| 0 <= i < ls.len() ==> (#[trigger] ls[i]).len() > 0 && !is_worktree_line(ls[i]),
    ensures
        read_lines(ListingState { worktrees: acc, path: Some(p), branch: b }, ls)
            == (ListingState { worktrees: acc, path: Some(p), branch: last_branch_or(ls, b) }),
    decreases ls.len(),
{
    if ls.len() > 0 {
        assert(ls[0].len() > 0 && !is_worktree_line(ls[0]));
        let rest = ls.drop_first();
        assert forall|i: int| 0 <= i < rest.len() implies (#[trigger] rest[i]).len() > 0 && !is_worktree_line(rest[i]) by {
            assert(rest[i] == ls[i + 1]);
        }
        let b1 = if is_branch_line(ls[0]) { Some(ls[0].skip(branch_prefix().len() as int)) } else { b };
        lemma_body(acc, p, b1, rest);
    }
}

proof fn lemma_record(st: ListingState, r: ListingRecord)
    requires
        orderly(st),
        well_formed_record(r),
    ensures
        orderly(read_lines(st, record_text_lines(r))),
        flush(read_lines(st, record_text_lines(r))).worktrees
            == flush(st).worktrees.push((r.0, last_branch_or(r.1, None))),
{
    reveal_strlit("worktree ");
    let l0 = worktree_prefix() + r.0;
    assert(l0.subrange(0, 9) =~= worktree_prefix());
    assert(l0.skip(9) =~= r.0);
    let w = flush(st).worktrees;
    let st1 = read_line(st, l0);
    assert(st1 == ListingState { worktrees: w, path: Some(r.0), branch: None });
    lemma_read_lines_append(st, seq![l0], r.1 + r.2);
    assert(seq![l0] + (r.1 + r.2) =~= record_text_lines(r));
    assert(read_lines(st, seq![l0]) == st1) by {
        assert(seq![l0].drop_first() =~= Seq::<Seq<char>>::empty());
        assert(read_lines(st1, Seq::<Seq<char>>::empty()) == st1);
        assert(read_lines(st, seq![l0]) == read_lines(read_line(st, seq![l0][0]), seq![l0].drop_first()));
    }
    lemma_read_lines_append(st1, r.1, r.2);
    lemma_body(w, r.0, None, r.1);
    let st2 = ListingState { worktrees: w, path: Some(r.0), branch: last_branch_or(r.1, None) };
    if r.2.len() == 0 {
        assert(r.2 =~= Seq::<Seq<char>>::empty());
    } else {
        let e = r.2[0];
        assert(e.len() == 0);
        assert(!starts_with(e, worktree_prefix()) && !starts_with(e, branch_prefix()));
        let st3 = read_line(st2, e);
        let closed = ListingState { worktrees: w.push((r.0, last_branch_or(r.1, None))), path: None, branch: None };
        assert(st3 == closed);
        let rest = r.2.drop_first();
        assert forall|i: int| 0 <= i < rest.len() implies is_other_line(#[trigger] rest[i]) by {
            assert(rest[i] == r.2[i + 1]);
        }
        lemma_other_lines_keep_closed(closed.worktrees, rest);
    }
}

proof fn lemma_records(st: ListingState, rs: Seq<ListingRecord>)
    requires
        orderly(st),
        forall|i: int| 0 <= i < rs.len() ==> well_formed_record(#[trigger] rs[i]),
    ensures
        orderly(read_lines(st, records_lines(rs))),
        flush(read_lines(st, records_lines(rs))).worktrees == flush(st).worktrees + described(rs),
    decreases rs.len(),
{
    if rs.len() == 0 {
        assert(flush(st).worktrees + described(rs) =~= flush(st).worktrees);
    } else {
        let rest = rs.drop_first();
        assert(well_formed_record(rs[0]));
        assert forall|i: int| 0 <= i < rest.len() implies well_formed_record(#[trigger] rest[i]) by {
            assert(rest[i] == rs[i + 1]);
        }
        lemma_read_lines_append(st, record_text_lines(rs[0]), records_lines(rest));
        lemma_record(st, rs[0]);
        let st1 = read_lines(st, record_text_lines(rs[0]));
        lemma_records(st1, rest);
        assert(described(rs) =~= seq![(rs[0].0, last_branch_or(rs[0].1, None))] + described(rest));
        assert(flush(st).worktrees.push((rs[0].0, last_branch_or(rs[0].1, None))) + described(rest)
            =~= flush(st).worktrees + described(rs));
    }
}

/// In a well-formed listing (lines that neither start a record nor name a
/// branch, then records each made of a `worktree ` line, a body and what
/// follows its end), each worktree read is the record's path with the ref
/// of the record's last `branch ` line, or no branch when it has none.
pub proof fn law_listing_branch_is_records_last(t: Seq<char>, leading: Seq<Seq<char>>, rs: Seq<ListingRecord>)
    requires
        lines(t) == leading + records_lines(rs),
        forall|i: int| 0 <= i < leading.len() ==> is_other_line(#[trigger] leading[i]),
        forall|i: int| 0 <= i < rs.len() ==> well_formed_record(#[trigger] rs[i]),
    ensures
        spec_parse_worktree_list(t) == described(rs),
{
    let st0 = empty_listing();
    lemma_read_lines_append(st0, leading, records_lines(rs));
    lemma_other_lines_keep_closed(seq![], leading);
    lemma_records(st0, rs);
    assert(Seq::<(Seq<char>, Option<Seq<char>>)>::empty() + described(rs) =~= described(rs));
}


// ---------------------------------------------------------------------------
// Records of a listing, found in its lines.

/// The index of the first `worktree ` line at or after `j`, or the number of
/// lines when there is none.
pub open spec fn next_worktree_line(ls: Seq<Seq<char>>, j: int) -> int
    decreases ls.len() - j,
{
    if j < 0 || j >= ls.len() {
        ls.len() as int
    } else if is_worktree_line(ls[j]) {
        j
    } else {
        next_worktree_line(ls, j + 1)
    }
}

/// Where a record whose body starts at line `j` ends: at the first line at or
/// after `j` that is empty or starts another record, or at the end of the
/// lines.
pub open spec fn record_end(ls: Seq<Seq<char>>, j: int) -> int
    decreases ls.len() - j,
{
    if j < 0 || j >= ls.len() {
        ls.len() as int
    } else if is_worktree_line(ls[j]) || ls[j].len() == 0 {
        j
    } else {
        record_end(ls, j + 1)
    }
}

pub proof fn lemma_next_worktree_line(ls: Seq<Seq<char>>, j: int)
    requires
        0 <= j <= ls.len(),
    ensures
        j <= next_worktree_line(ls, j) <= ls.len(),
        next_worktree_line(ls, j) < ls.len() ==> is_worktree_line(ls[next_worktree_line(ls, j)]),
        forall|m: int| j <= m < next_worktree_line(ls, j) ==> !is_worktree_line(#[trigger] ls[m]),
    decreases ls.len() - j,
{
    if j < ls.len() && !is_worktree_line(ls[j]) {
        lemma_next_worktree_line(ls, j + 1);
    }
}

proof fn lemma_record_end(ls: Seq<Seq<char>>, j: int)
    requires
        0 <= j <= ls.len(),
    ensures
        j <= record_end(ls, j) <= next_worktree_line(ls, j),
        record_end(ls, j) < ls.len()
            ==> is_worktree_line(ls[record_end(ls, j)]) || ls[record_end(ls, j)].len() == 0,
        forall|m: int| j <= m < record_end(ls, j)
            ==> (#[trigger] ls[m]).len() > 0 && !is_worktree_line(ls[m]),
        forall|m: int| j <= m < ls.len() && (is_worktree_line(#[trigger] ls[m]) || ls[m].len() == 0)
            ==> record_end(ls, j) <= m,
    decreases ls.len() - j,
{
    lemma_next_worktree_line(ls, j);
    if j < ls.len() && !(is_worktree_line(ls[j]) || ls[j].len() == 0) {
        lemma_record_end(ls, j + 1);
    }
}

/// The indices of the `worktree ` lines at or after line `j`, in order.
pub open spec fn worktree_lines_from(ls: Seq<Seq<char>>, j: int) -> Seq<int>
    decreases ls.len() - j,
{
    if j < 0 || j >= ls.len() {
        seq![]
    } else {
        let k = next_worktree_line(ls, j);
        proof {
            lemma_next_worktree_line(ls, j);
        }
        if k >= ls.len() {
            seq![]
        } else {
            seq![k] + worktree_lines_from(ls, k + 1)
        }
    }
}

proof fn lemma_worktree_lines_from(ls: Seq<Seq<char>>, j: int)
    requires
        0 <= j <= ls.len(),
    ensures
        forall|i: int| 0 <= i < worktree_lines_from(ls, j).len() ==>
            j <= #[trigger] worktree_lines_from(ls, j)[i] < ls.len()
                && is_worktree_line(ls[worktree_lines_from(ls, j)[i]]),
    decreases ls.len() - j,
{
    if j < ls.len() {
        let k = next_worktree_line(ls, j);
        lemma_next_worktree_line(ls, j);
        if k < ls.len() {
            lemma_worktree_lines_from(ls, k + 1);
            let rest = worktree_lines_from(ls, k + 1);
            assert forall|i: int| 0 <= i < worktree_lines_from(ls, j).len() implies
                j <= #[trigger] worktree_lines_from(ls, j)[i] < ls.len()
                    && is_worktree_line(ls[worktree_lines_from(ls, j)[i]]) by {
                if i > 0 {
                    assert(worktree_lines_from(ls, j)[i] == rest[i - 1]);
                }
            }
        }
    }
}

/// The record that starts at the `worktree ` line `k`: its path, its body up
/// to `record_end`, and the lines after that up to the next `worktree ` line.
pub open spec fn record_at(ls: Seq<Seq<char>>, k: int) -> ListingRecord {
    (
        ls[k].skip(worktree_prefix().len() as int),
        ls.subrange(k + 1, record_end(ls, k + 1)),
        ls.subrange(record_end(ls, k + 1), next_worktree_line(ls, k + 1)),
    )
}

pub open spec fn records_from(ls: Seq<Seq<char>>, j: int) -> Seq<ListingRecord> {
    worktree_lines_from(ls, j).map_values(|k: int| record_at(ls, k))
}

proof fn lemma_records_cover(ls: Seq<Seq<char>>, j: int)
    requires
        0 <= j <= ls.len(),
    ensures
        ls.subrange(next_worktree_line(ls, j), ls.len() as int) == records_lines(records_from(ls, j)),
    decreases ls.len() - j,
{
    reveal_strlit("worktree ");
    lemma_next_worktree_line(ls, j);
    let k = next_worktree_line(ls, j);
    if j == ls.len() {
        assert(records_from(ls, j) =~= Seq::<ListingRecord>::empty());
        assert(ls.subrange(k, ls.len() as int) =~= Seq::<Seq<char>>::empty());
    } else if k == ls.len() {
        assert(worktree_lines_from(ls, j) =~= Seq::<int>::empty());
        assert(records_from(ls, j) =~= Seq::<ListingRecord>::empty());
        assert(ls.subrange(k, ls.len() as int) =~= Seq::<Seq<char>>::empty());
    } else {
        lemma_records_cover(ls, k + 1);
        lemma_record_end(ls, k + 1);
        let rs = records_from(ls, j);
        let rest = records_from(ls, k + 1);
        assert(worktree_lines_from(ls, j) == seq![k] + worktree_lines_from(ls, k + 1));
        assert(rs.drop_first() =~= rest);
        assert(rs[0] == record_at(ls, k));
        let e = record_end(ls, k + 1);
        let n = next_worktree_line(ls, k + 1);
        let l = ls[k];
        assert(starts_with(l, worktree_prefix()));
        assert(worktree_prefix() + l.skip(9) =~= l);
        lemma_next_worktree_line(ls, k + 1);
        assert(k + 1 <= e <= n <= ls.len());
        let r = record_at(ls, k);
        assert(r.0 == l.skip(9));
        assert(r.1 == ls.subrange(k + 1, e));
        assert(r.2 == ls.subrange(e, n));
        assert(record_text_lines(r) == seq![worktree_prefix() + r.0] + r.1 + r.2);
        assert(seq![l] + ls.subrange(k + 1, e) + ls.subrange(e, n) =~= ls.subrange(k, n));
        assert(record_text_lines(r) =~= ls.subrange(k, n));
        assert(ls.subrange(k, n) + ls.subrange(n, ls.len() as int) =~= ls.subrange(k, ls.len() as int));
    }
}

/// Every `branch ` line lies inside a record: some `worktree ` line comes
/// before it with no empty line and no other `worktree ` line between them.
pub open spec fn branches_in_records(ls: Seq<Seq<char>>) -> bool {
    forall|j: int| 0 <= j < ls.len() && #[trigger] is_branch_line(ls[j]) ==>
        exists|k: int| 0 <= k < j && #[trigger] is_worktree_line(ls[k]) && record_end(ls, k + 1) > j
}

proof fn lemma_record_well_formed(ls: Seq<Seq<char>>, k: int)
    requires
        0 <= k < ls.len(),
        is_worktree_line(ls[k]),
        branches_in_records(ls),
    ensures
        well_formed_record(record_at(ls, k)),
{
    lemma_record_end(ls, k + 1);
    lemma_next_worktree_line(ls, k + 1);
    let r = record_at(ls, k);
    let e = record_end(ls, k + 1);
    let n = next_worktree_line(ls, k + 1);
    assert forall|i: int| 0 <= i < r.1.len() implies (#[trigger] r.1[i]).len() > 0 && !is_worktree_line(r.1[i]) by {
        assert(r.1[i] == ls[k + 1 + i]);
    }
    if r.2.len() > 0 {
        assert(r.2[0] == ls[e]);
        assert(!is_worktree_line(ls[e]));
    }
    assert forall|i: int| 0 <= i < r.2.len() implies is_other_line(#[trigger] r.2[i]) by {
        let m = e + i;
        assert(r.2[i] == ls[m]);
        assert(!is_worktree_line(ls[m]));
        if is_branch_line(ls[m]) {
            let k2 = choose|k2: int| 0 <= k2 < m && #[trigger] is_worktree_line(ls[k2]) && record_end(ls, k2 + 1) > m;
            if k2 < k {
                lemma_record_end(ls, k2 + 1);
            } else if k2 > k {
                assert(!is_worktree_line(ls[k2]));
            }
        }
    }
}

/// In any listing whose `branch ` lines all lie inside records, the
/// worktrees read are one for each `worktree ` line, in order: the text after
/// `worktree ` as the path, and as the branch the ref of the last `branch `
/// line of its record (the lines after its `worktree ` line up to the next
/// `worktree ` line, empty line or end of text), or none when the record has
/// no `branch ` line.
pub proof fn law_listing_branch_is_last_in_record(t: Seq<char>)
    requires
        branches_in_records(lines(t)),
    ensures
        spec_parse_worktree_list(t).len() == worktree_lines_from(lines(t), 0).len(),
        forall|i: int| 0 <= i < worktree_lines_from(lines(t), 0).len() ==> #[trigger] spec_parse_worktree_list(t)[i] == (
            lines(t)[worktree_lines_from(lines(t), 0)[i]].skip(worktree_prefix().len() as int),
            last_branch_or(
                lines(t).subrange(
                    worktree_lines_from(lines(t), 0)[i] + 1,
                    record_end(lines(t), worktree_lines_from(lines(t), 0)[i] + 1),
                ),
                None,
            ),
        ),
{
    let ls = lines(t);
    let ps = worktree_lines_from(ls, 0);
    let rs = records_from(ls, 0);
    let p0 = next_worktree_line(ls, 0);
    let leading = ls.subrange(0, p0);
    lemma_next_worktree_line(ls, 0);
    lemma_records_cover(ls, 0);
    lemma_worktree_lines_from(ls, 0);
    assert(ls =~= leading + records_lines(rs));
    assert forall|i: int| 0 <= i < leading.len() implies is_other_line(#[trigger] leading[i]) by {
        assert(leading[i] == ls[i]);
        assert(!is_worktree_line(ls[i]));
        if is_branch_line(ls[i]) {
            let k2 = choose|k2: int| 0 <= k2 < i && #[trigger] is_worktree_line(ls[k2]) && record_end(ls, k2 + 1) > i;
            assert(!is_worktree_line(ls[k2]));
        }
    }
    assert forall|i: int| 0 <= i < rs.len() implies well_formed_record(#[trigger] rs[i]) by {
        assert(rs[i] == record_at(ls, ps[i]));
        lemma_record_well_formed(ls, ps[i]);
    }
    law_listing_branch_is_records_last(t, leading, rs);
    assert forall|i: int| 0 <= i < ps.len() implies #[trigger] spec_parse_worktree_list(t)[i] == (
        ls[ps[i]].skip(worktree_prefix().len() as int),
        last_branch_or(ls.subrange(ps[i] + 1, record_end(ls, ps[i] + 1)), None),
    ) by {
        assert(rs[i] == record_at(ls, ps[i]));
        assert(described(rs)[i] == (rs[i].0, last_branch_or(rs[i].1, None)));
    }
}

} // verus!
