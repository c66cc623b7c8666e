//! Laws on what the commands decide from each answer they get: each is
//! stated over the answer itself and what the command then does.
use vstd::prelude::*;
use vstd::utf8::{decode_utf8, encode_utf8, encode_utf8_decode_utf8, encode_utf8_valid_utf8, valid_utf8};
use crate::cli::{is_option, scan_command_args, spec_parse_args, CommandView};
use crate::git::{
    all_digits, digits_value, failure, is_digit, unsigned_digits, spec_has_uncommitted_changes, spec_list_worktrees, spec_rev_list_count,
    spec_stdout_string, spec_worktree_for_branch, spec_worktree_path, trim_line_ends, ErrorView,
};
use crate::laws::{placed, well_formed};
use crate::query::QueryView;
use crate::session::{forced, next, ActionView, EventView, SessionView, StageView};
use crate::unpushed::{unpushed_step, ProgressView, UnpushedCheck};

verus! {

// ---------------------------------------------------------------------------
// Unpushed commits.

/// Whether the check is waiting for a count of commits.
pub open spec fn is_count_check(c: UnpushedCheck) -> bool {
    c is UpstreamCount || c is RemotesCount || c is ExclusionsCount
}

/// Each count of the unpushed-commits check concludes it: the worktree has
/// unpushed commits exactly when the count of commits that are not on the
/// branches compared against (its upstream, every remote branch, or the
/// local `main` and `staging`) is above zero. A count that cannot be read
/// ends the check with the error that reading it gives.
pub proof fn law_count_decides_unpushed(c: UnpushedCheck, path: Seq<char>, out: (bool, Seq<u8>))
    requires
        is_count_check(c),
    ensures
        match spec_rev_list_count(out, path) {
            Ok(n) => unpushed_step(c, path, out) == ProgressView::Answer(Ok(n > 0)),
            Err(e) => unpushed_step(c, path, out) == ProgressView::Answer(Err(e)),
        },
{
}

/// In `cleanup`, a positive count of commits missing from what the branch is
/// compared against makes the command fail with "branch has unpushed
/// commits", keeping the worktree; a count of zero goes on to remove it.
pub proof fn law_cleanup_count_decides(s: SessionView, out: (bool, Seq<u8>), n: u64)
    requires
        s.stage matches StageView::CleanupUnpushed { check } && is_count_check(check),
        spec_rev_list_count(out, s.destination) == Ok::<u64, ErrorView>(n),
    ensures
        n > 0 ==> next(s, EventView::Git(out)).1 == (ActionView::Done {
            stderr: None,
            stdout: None,
            result: Err(failure("branch has unpushed commits: "@ + s.branch)),
        }),
        n == 0 ==> next(s, EventView::Git(out)).1 == (ActionView::Git {
            dir: Some(s.repo),
            query: QueryView::RemoveWorktree { destination: s.destination, force: forced(s.kind) },
        }),
{
}

/// Whether `ds` is a decimal number that fits in a `u64`, written with
/// digits only.
pub open spec fn decimal_u64(ds: Seq<char>) -> bool {
    &&& ds.len() > 0
    &&& all_digits(ds)
    &&& digits_value(ds) <= u64::MAX
}

proof fn lemma_digits_value_nonnegative(ds: Seq<char>)
    requires
        all_digits(ds),
    ensures
        digits_value(ds) >= 0,
    decreases ds.len(),
{
    if ds.len() > 0 {
        let init = ds.drop_last();
        assert forall|i: int| 0 <= i < init.len() implies is_digit(#[trigger] init[i]) by {
            assert(init[i] == ds[i]);
        }
        lemma_digits_value_nonnegative(init);
        assert(is_digit(ds[ds.len() - 1]));
        assert(ds.last() == ds[ds.len() - 1]);
    }
}

/// When `git rev-list --count` succeeds and prints the decimal number `ds`
/// on a line, each count of the unpushed-commits check concludes that there
/// are unpushed commits exactly when that number is above zero.
pub proof fn law_printed_count_decides_unpushed(c: UnpushedCheck, path: Seq<char>, ds: Seq<char>)
    requires
        is_count_check(c),
        decimal_u64(ds),
    ensures
        unpushed_step(c, path, (true, encode_utf8(ds.push('\n'))))
            == ProgressView::Answer(Ok(digits_value(ds) > 0)),
{
    let cs = ds.push('\n');
    let out = (true, encode_utf8(cs));
    encode_utf8_valid_utf8(cs);
    encode_utf8_decode_utf8(cs);
    assert(is_digit(ds[ds.len() - 1]));
    assert(cs.drop_last() =~= ds);
    assert(trim_line_ends(cs) == trim_line_ends(ds));
    assert(ds.last() == ds[ds.len() - 1]);
    assert(trim_line_ends(ds) == ds);
    assert(is_digit(ds[0]));
    assert(unsigned_digits(ds) == ds);
    assert(spec_rev_list_count(out, path) == Ok::<u64, ErrorView>(digits_value(ds) as u64));
    lemma_digits_value_nonnegative(ds);
    law_count_decides_unpushed(c, path, out);
}

// ---------------------------------------------------------------------------
// Uncommitted changes.

/// Whether some character of `s` is not a line end.
pub open spec fn has_text(s: Seq<char>) -> bool {
    exists|i: int| 0 <= i < s.len() && s[i] != '\n' && s[i] != '\r'
}

proof fn lemma_trim_keeps_text(s: Seq<char>)
    ensures
        trim_line_ends(s).len() > 0 <==> has_text(s),
    decreases s.len(),
{
    if s.len() > 0 && (s.last() == '\n' || s.last() == '\r') {
        let t = s.drop_last();
        lemma_trim_keeps_text(t);
        if has_text(s) {
            let i = choose|i: int| 0 <= i < s.len() && s[i] != '\n' && s[i] != '\r';
            assert(i < s.len() - 1);
            assert(t[i] == s[i]);
        }
        if has_text(t) {
            let i = choose|i: int| 0 <= i < t.len() && t[i] != '\n' && t[i] != '\r';
            assert(s[i] == t[i]);
        }
    } else if s.len() > 0 {
        assert(s[s.len() - 1] == s.last());
    }
}

/// When `git status --porcelain` succeeds with readable output, the worktree
/// has uncommitted changes exactly when that output holds anything but line
/// ends: every entry counts, untracked (`??`) ones too.
pub proof fn law_status_output_means_changes(out: (bool, Seq<u8>), path: Seq<char>)
    requires
        out.0,
        valid_utf8(out.1),
    ensures
        spec_has_uncommitted_changes(out, path) == Ok::<bool, ErrorView>(has_text(decode_utf8(out.1))),
        spec_stdout_string(out) matches Ok(text)
            ==> spec_has_uncommitted_changes(out, path) == Ok::<bool, ErrorView>(text.len() > 0),
{
    lemma_trim_keeps_text(decode_utf8(out.1));
}

/// In `cleanup` without `--force`, a worktree whose status lists anything is
/// kept: the command fails with "worktree has uncommitted changes".
pub proof fn law_cleanup_refuses_changes(s: SessionView, out: (bool, Seq<u8>))
    requires
        s.stage is CleanupStatus,
        out.0,
        valid_utf8(out.1),
        has_text(decode_utf8(out.1)),
    ensures
        next(s, EventView::Git(out)).1 == (ActionView::Done {
            stderr: None,
            stdout: None,
            result: Err(failure("worktree has uncommitted changes: "@ + s.destination)),
        }),
{
    law_status_output_means_changes(out, s.destination);
}

// ---------------------------------------------------------------------------
// Looking a worktree up.

/// `i` is the first entry of `ws` whose branch is the ref of `branch`.
pub open spec fn first_on_branch(ws: Seq<(Seq<char>, Option<Seq<char>>)>, branch: Seq<char>, i: int) -> bool {
    &&& 0 <= i < ws.len()
    &&& ws[i].1 == Some("refs/heads/"@ + branch)
    &&& forall|j: int| 0 <= j < i ==> ws[j].1 != Some("refs/heads/"@ + branch)
}

proof fn lemma_first_on_branch(ws: Seq<(Seq<char>, Option<Seq<char>>)>, branch: Seq<char>)
    ensures
        forall|i: int| first_on_branch(ws, branch, i)
            ==> spec_worktree_for_branch(ws, branch) == Some(#[trigger] ws[i].0),
        (forall|i: int| 0 <= i < ws.len() ==> (#[trigger] ws[i]).1 != Some("refs/heads/"@ + branch))
            ==> spec_worktree_for_branch(ws, branch) is None,
    decreases ws.len(),
{
    if ws.len() > 0 {
        let rest = ws.drop_first();
        lemma_first_on_branch(rest, branch);
        assert forall|i: int| first_on_branch(ws, branch, i)
            implies spec_worktree_for_branch(ws, branch) == Some(#[trigger] ws[i].0) by {
            if i > 0 {
                assert(ws[0].1 != Some("refs/heads/"@ + branch));
                assert(rest[i - 1] == ws[i]);
                assert(first_on_branch(rest, branch, i - 1));
            }
        }
        if forall|i: int| 0 <= i < ws.len() ==> (#[trigger] ws[i]).1 != Some("refs/heads/"@ + branch) {
            assert(ws[0].1 != Some("refs/heads/"@ + branch));
            assert forall|i: int| 0 <= i < rest.len() implies (#[trigger] rest[i]).1 != Some("refs/heads/"@ + branch) by {
                assert(rest[i] == ws[i + 1]);
            }
        }
    }
}

/// `get` prints the path of the first listed worktree (the main one
/// included) that has the branch checked out, and succeeds; when no listed
/// worktree has it, it fails with "worktree on branch <b> not found".
pub proof fn law_get_finds_first_worktree_on_branch(
    s: SessionView,
    out: (bool, Seq<u8>),
    ws: Seq<(Seq<char>, Option<Seq<char>>)>,
)
    requires
        s.stage is GetLookup,
        spec_list_worktrees(out) == Ok::<_, ErrorView>(ws),
    ensures
        forall|i: int| first_on_branch(ws, s.branch, i) ==> next(s, EventView::Git(out)).1 == (ActionView::Done {
            stderr: None,
            stdout: Some(#[trigger] ws[i].0),
            result: Ok(()),
        }),
        (forall|i: int| 0 <= i < ws.len() ==> (#[trigger] ws[i]).1 != Some("refs/heads/"@ + s.branch))
            ==> next(s, EventView::Git(out)).1 == (ActionView::Done {
                stderr: None,
                stdout: None,
                result: Err(("worktree on branch "@ + s.branch + " not found"@, false)),
            }),
{
    lemma_first_on_branch(ws, s.branch);
}

// ---------------------------------------------------------------------------
// Where `create` adds the worktree.

/// Once `create` knows whether the branch exists, it asks to add the
/// worktree at the branch's place `<worktrees dir>/<branch with / as __>`,
/// creating the branch exactly when it does not exist; and when that
/// succeeds, it prints that same place.
pub proof fn law_create_adds_where_it_prints(s: SessionView, exists: (bool, Seq<u8>), added: (bool, Seq<u8>))
    requires
        well_formed(s),
        s.stage is CreateBranchExists,
        added.0,
    ensures
        next(s, EventView::Git(exists)).1 == (ActionView::Git {
            dir: Some(s.repo),
            query: QueryView::AddWorktree {
                destination: spec_worktree_path(s.root, s.branch),
                branch: s.branch,
                create_branch: !exists.0,
            },
        }),
        next(next(s, EventView::Git(exists)).0, EventView::Git(added)).1 == (ActionView::Done {
            stderr: None,
            stdout: Some(spec_worktree_path(s.root, s.branch)),
            result: Ok(()),
        }),
{
    assert(placed(s));
}

// ---------------------------------------------------------------------------
// The command line.

/// Whether `flag` is among `args[i..]`, before any `--`.
pub open spec fn flag_before_separator(args: Seq<Seq<char>>, i: int, flag: Seq<char>) -> bool {
    exists|k: int| i <= k < args.len() && args[k] == flag
        && forall|j: int| i <= j < k ==> args[j] != "--"@
}

proof fn lemma_scan_flag(
    args: Seq<Seq<char>>,
    i: int,
    command: Seq<char>,
    fl: Seq<char>,
    flag: bool,
    branch: Option<Seq<char>>,
)
    requires
        0 <= i <= args.len(),
        is_option(fl),
        fl != "--"@,
    ensures
        scan_command_args(args, i, command, Some(fl), flag, branch) matches Ok(Some((f, _))) ==> (
            f <==> flag || flag_before_separator(args, i, fl)),
    decreases args.len() - i,
{
    if i < args.len() {
        let a = args[i];
        if a != "--"@ && is_option(a) && Some(fl) == Some(a) {
            lemma_scan_flag(args, i + 1, command, fl, true, branch);
            assert(args[i] == fl);
        } else if a != "--"@ && !is_option(a) && branch is None {
            lemma_scan_flag(args, i + 1, command, fl, flag, Some(a));
            if flag_before_separator(args, i, fl) {
                let k = choose|k: int| i <= k < args.len() && args[k] == fl
                    && forall|j: int| i <= j < k ==> args[j] != "--"@;
                assert(k != i);
                assert(flag_before_separator(args, i + 1, fl));
            }
            if flag_before_separator(args, i + 1, fl) {
                let k = choose|k: int| i + 1 <= k < args.len() && args[k] == fl
                    && forall|j: int| i + 1 <= j < k ==> args[j] != "--"@;
                assert(forall|j: int| i <= j < k ==> args[j] != "--"@);
            }
        } else if a == "--"@ {
            if flag_before_separator(args, i, fl) {
                let k = choose|k: int| i <= k < args.len() && args[k] == fl
                    && forall|j: int| i <= j < k ==> args[j] != "--"@;
                assert(k != i);
                assert(args[i] != "--"@);
            }
        }
    }
}

proof fn lemma_flag_shift(args: Seq<Seq<char>>, fl: Seq<char>)
    requires
        args.len() > 0,
    ensures
        flag_before_separator(args, 1, fl) <==> flag_before_separator(args.drop_first(), 0, fl),
{
    let rest = args.drop_first();
    if flag_before_separator(args, 1, fl) {
        let k = choose|k: int| 1 <= k < args.len() && args[k] == fl
            && forall|j: int| 1 <= j < k ==> args[j] != "--"@;
        assert(rest[k - 1] == fl);
        assert forall|j: int| 0 <= j < k - 1 implies rest[j] != "--"@ by {
            assert(rest[j] == args[j + 1]);
        }
    }
    if flag_before_separator(rest, 0, fl) {
        let k = choose|k: int| 0 <= k < rest.len() && rest[k] == fl
            && forall|j: int| 0 <= j < k ==> rest[j] != "--"@;
        assert(args[k + 1] == fl);
        assert forall|j: int| 1 <= j < k + 1 implies args[j] != "--"@ by {
            assert(args[j] == rest[j - 1]);
        }
    }
}

/// Reading `[flag] <b>` where `b` is the only argument and not an option
/// gives `b` without the flag.
proof fn lemma_scan_single(b: Seq<char>, command: Seq<char>, fl: Option<Seq<char>>)
    requires
        !is_option(b),
    ensures
        scan_command_args(seq![b], 0, command, fl, false, None)
            == Ok::<Option<(bool, Seq<char>)>, ErrorView>(Some((false, b))),
{
    reveal_strlit("--");
    reveal_strlit("-h");
    reveal_strlit("--help");
    assert(b != "--"@);
    assert(b != "-h"@);
    assert(b != "--help"@);
    assert(seq![b][0] == b);
    assert(scan_command_args(seq![b], 1, command, fl, false, Some(b))
        == Ok::<Option<(bool, Seq<char>)>, ErrorView>(Some((false, b))));
}

/// `wt create` allows dev branches exactly when `--allow-dev-branches` is
/// given (before any `--`); without it, `create` is refused off `main` and
/// `staging`. So `wt create <b>`, for a branch name `b` that is not an
/// option, reads as `create` of `b` without the flag.
pub proof fn law_create_flag_only_when_given(args: Seq<Seq<char>>)
    requires
        args.len() > 0,
        args[0] == "create"@,
    ensures
        spec_parse_args(args) matches Ok(Some(CommandView::Create { allow_dev_branches, .. }))
            ==> (allow_dev_branches <==> flag_before_separator(args, 1, "--allow-dev-branches"@)),
        forall|b: Seq<char>| !is_option(b) && args == seq!["create"@, b] ==> spec_parse_args(args)
            == Ok::<Option<CommandView>, ErrorView>(Some(CommandView::Create { allow_dev_branches: false, branch_name: b })),
{
    reveal_strlit("--allow-dev-branches");
    reveal_strlit("--");
    let fl = "--allow-dev-branches"@;
    assert(fl.len() != "--"@.len());
    lemma_scan_flag(args.drop_first(), 0, "create"@, fl, false, None);
    lemma_flag_shift(args, fl);
    assert forall|b: Seq<char>| !is_option(b) && args == seq!["create"@, b] implies spec_parse_args(args)
        == Ok::<Option<CommandView>, ErrorView>(Some(CommandView::Create { allow_dev_branches: false, branch_name: b })) by {
        assert(args.drop_first() =~= seq![b]);
        lemma_scan_single(b, "create"@, Some(fl));
    }
}

/// `wt cleanup` is forced exactly when `--force` is given (before any `--`);
/// without it, a worktree with uncommitted or unpushed work is kept. So
/// `wt cleanup <b>`, for a branch name `b` that is not an option, reads as an
/// unforced `cleanup` of `b`.
pub proof fn law_cleanup_force_only_when_given(args: Seq<Seq<char>>)
    requires
        args.len() > 0,
        args[0] == "cleanup"@,
    ensures
        spec_parse_args(args) matches Ok(Some(CommandView::Cleanup { force, .. }))
            ==> (force <==> flag_before_separator(args, 1, "--force"@)),
        forall|b: Seq<char>| !is_option(b) && args == seq!["cleanup"@, b] ==> spec_parse_args(args)
            == Ok::<Option<CommandView>, ErrorView>(Some(CommandView::Cleanup { force: false, branch_name: b })),
{
    reveal_strlit("--force");
    reveal_strlit("--");
    reveal_strlit("create");
    reveal_strlit("cleanup");
    let fl = "--force"@;
    assert(fl.len() != "--"@.len());
    assert("cleanup"@ != "create"@) by {
        assert("cleanup"@[1] != "create"@[1]);
    }
    lemma_scan_flag(args.drop_first(), 0, "cleanup"@, fl, false, None);
    lemma_flag_shift(args, fl);
    assert forall|b: Seq<char>| !is_option(b) && args == seq!["cleanup"@, b] implies spec_parse_args(args)
        == Ok::<Option<CommandView>, ErrorView>(Some(CommandView::Cleanup { force: false, branch_name: b })) by {
        assert(args.drop_first() =~= seq![b]);
        lemma_scan_single(b, "cleanup"@, Some(fl));
    }
}

/// `wt get <b>`, for a branch name `b` that is not an option, reads as `get`
/// of `b`.
pub proof fn law_get_reads_its_branch(b: Seq<char>)
    requires
        !is_option(b),
    ensures
        spec_parse_args(seq!["get"@, b])
            == Ok::<Option<CommandView>, ErrorView>(Some(CommandView::Get { branch_name: b })),
{
    reveal_strlit("get");
    reveal_strlit("create");
    reveal_strlit("cleanup");
    let args = seq!["get"@, b];
    assert("get"@ != "create"@) by {
        assert("get"@.len() != "create"@.len());
    }
    assert("get"@ != "cleanup"@) by {
        assert("get"@.len() != "cleanup"@.len());
    }
    assert(args.drop_first() =~= seq![b]);
    lemma_scan_single(b, "get"@, None);
}

} // verus!
