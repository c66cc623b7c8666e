//! The questions and changes the library puts to a repository. Each is
//! given the meaning of the `git` command line named beside it; the program
//! answers them through libgit2, so the `git` program itself is not needed.
use vstd::prelude::*;
use crate::text::join2;

verus! {

/// One query to a repository, in the repository or worktree given beside it.
#[derive(Debug)]
pub enum Query {
    /// `git rev-parse --show-toplevel`
    ShowToplevel,
    /// `git worktree list --porcelain`
    ListWorktrees,
    /// `git symbolic-ref --quiet --short HEAD`
    CurrentBranch,
    /// `git rev-parse --verify --quiet HEAD^{commit}`
    HasCommits,
    /// `git show-ref --verify --quiet refs/heads/<branch>`
    BranchExists { branch: String },
    /// `git worktree add --quiet ...`, creating the branch or checking it out.
    AddWorktree { destination: String, branch: String, create_branch: bool },
    /// `git worktree remove [--force --force] <destination>`
    RemoveWorktree { destination: String, force: bool },
    /// `git worktree prune`
    PruneWorktrees,
    /// `git status --porcelain --untracked-files=normal`
    Status,
    /// `git rev-parse --abbrev-ref --symbolic-full-name @{upstream}`
    Upstream,
    /// `git for-each-ref --format=%(refname) refs/remotes`
    Remotes,
    /// `git rev-list --count HEAD --not <excluding...> [--remotes]`: the number of
    /// commits of `HEAD` that are on none of `excluding`, nor, with `excluding_remotes`,
    /// on any remote branch.
    RevListCount { excluding: Vec<String>, excluding_remotes: bool },
}

/// A query with its strings taken by their characters.
pub enum QueryView {
    ShowToplevel,
    ListWorktrees,
    CurrentBranch,
    HasCommits,
    BranchExists { branch: Seq<char> },
    AddWorktree { destination: Seq<char>, branch: Seq<char>, create_branch: bool },
    RemoveWorktree { destination: Seq<char>, force: bool },
    PruneWorktrees,
    Status,
    Upstream,
    Remotes,
    RevListCount { excluding: Seq<Seq<char>>, excluding_remotes: bool },
}

/// The characters of each string.
pub open spec fn strings_view(v: Seq<String>) -> Seq<Seq<char>> {
    v.map_values(|s: String| s@)
}

impl View for Query {
    type V = QueryView;

    open spec fn view(&self) -> QueryView {
        match self {
            Query::ShowToplevel => QueryView::ShowToplevel,
            Query::ListWorktrees => QueryView::ListWorktrees,
            Query::CurrentBranch => QueryView::CurrentBranch,
            Query::HasCommits => QueryView::HasCommits,
            Query::BranchExists { branch } => QueryView::BranchExists { branch: branch@ },
            Query::AddWorktree { destination, branch, create_branch } => QueryView::AddWorktree {
                destination: destination@,
                branch: branch@,
                create_branch: *create_branch,
            },
            Query::RemoveWorktree { destination, force } => QueryView::RemoveWorktree {
                destination: destination@,
                force: *force,
            },
            Query::PruneWorktrees => QueryView::PruneWorktrees,
            Query::Status => QueryView::Status,
            Query::Upstream => QueryView::Upstream,
            Query::Remotes => QueryView::Remotes,
            Query::RevListCount { excluding, excluding_remotes } => QueryView::RevListCount {
                excluding: strings_view(excluding@),
                excluding_remotes: *excluding_remotes,
            },
        }
    }
}

/// What each query means: the `git` command line, after `git`, whose output
/// its answer is.
pub open spec fn query_args(q: QueryView) -> Seq<Seq<char>> {
    match q {
        QueryView::ShowToplevel => seq!["rev-parse"@, "--show-toplevel"@],
        QueryView::ListWorktrees => seq!["worktree"@, "list"@, "--porcelain"@],
        QueryView::CurrentBranch => seq!["symbolic-ref"@, "--quiet"@, "--short"@, "HEAD"@],
        QueryView::HasCommits => seq!["rev-parse"@, "--verify"@, "--quiet"@, "HEAD^{commit}"@],
        QueryView::BranchExists { branch } => seq![
            "show-ref"@,
            "--verify"@,
            "--quiet"@,
            "refs/heads/"@ + branch,
        ],
        QueryView::AddWorktree { destination, branch, create_branch } => if create_branch {
            seq!["worktree"@, "add"@, "--quiet"@, "-b"@, branch, destination, "HEAD"@]
        } else {
            seq!["worktree"@, "add"@, "--quiet"@, destination, branch]
        },
        QueryView::RemoveWorktree { destination, force } => if force {
            seq!["worktree"@, "remove"@, "--force"@, "--force"@, destination]
        } else {
            seq!["worktree"@, "remove"@, destination]
        },
        QueryView::PruneWorktrees => seq!["worktree"@, "prune"@],
        QueryView::Status => seq!["status"@, "--porcelain"@, "--untracked-files=normal"@],
        QueryView::Upstream => seq![
            "rev-parse"@,
            "--abbrev-ref"@,
            "--symbolic-full-name"@,
            "@{upstream}"@,
        ],
        QueryView::Remotes => seq!["for-each-ref"@, "--format=%(refname)"@, "refs/remotes"@],
        QueryView::RevListCount { excluding, excluding_remotes } => seq!["rev-list"@, "--count"@, "HEAD"@, "--not"@]
            + excluding + (if excluding_remotes { seq!["--remotes"@] } else { seq![] }),
    }
}

/// Whether the reason of a failure is shown to the user for this query.
pub open spec fn query_shows_stderr(q: QueryView) -> bool {
    match q {
        QueryView::AddWorktree { .. } | QueryView::RemoveWorktree { .. } => true,
        _ => false,
    }
}

fn push_str(v: &mut Vec<String>, s: &str)
    ensures
        strings_view(final(v)@) == strings_view(old(v)@).push(s@),
{
    v.push(String::from_str(s));
    proof {
        assert(strings_view(v@) =~= strings_view(old(v)@).push(s@));
    }
}

fn strings(items: &[&str]) -> (v: Vec<String>)
    ensures
        strings_view(v@) == items@.map_values(|s: &str| s@),
{
    let mut v: Vec<String> = Vec::new();
    let mut i: usize = 0;
    while i < items.len()
        invariant
            i <= items@.len(),
            strings_view(v@) == items@.subrange(0, i as int).map_values(|s: &str| s@),
        decreases items@.len() - i,
    {
        push_str(&mut v, items[i]);
        proof {
            assert(items@.subrange(0, i + 1).map_values(|s: &str| s@) =~= items@.subrange(
                0,
                i as int,
            ).map_values(|s: &str| s@).push(items@[i as int]@));
        }
        i = i + 1;
    }
    proof {
        assert(items@.subrange(0, items@.len() as int) =~= items@);
    }
    v
}

/// The `git` command line, after `git`, whose output a query's answer is.
pub fn git_args(query: &Query) -> (args: Vec<String>)
    ensures
        strings_view(args@) == query_args(query@),
{
    let v = match query {
        Query::ShowToplevel => strings(&["rev-parse", "--show-toplevel"]),
        Query::ListWorktrees => strings(&["worktree", "list", "--porcelain"]),
        Query::CurrentBranch => strings(&["symbolic-ref", "--quiet", "--short", "HEAD"]),
        Query::HasCommits => strings(&["rev-parse", "--verify", "--quiet", "HEAD^{commit}"]),
        Query::BranchExists { branch } => {
            let r = join2("refs/heads/", branch.as_str());
            strings(&["show-ref", "--verify", "--quiet", r.as_str()])
        },
        Query::AddWorktree { destination, branch, create_branch } => if *create_branch {
            strings(
                &["worktree", "add", "--quiet", "-b", branch.as_str(), destination.as_str(), "HEAD"],
            )
        } else {
            strings(&["worktree", "add", "--quiet", destination.as_str(), branch.as_str()])
        },
        Query::RemoveWorktree { destination, force } => if *force {
            strings(&["worktree", "remove", "--force", "--force", destination.as_str()])
        } else {
            strings(&["worktree", "remove", destination.as_str()])
        },
        Query::PruneWorktrees => strings(&["worktree", "prune"]),
        Query::Status => strings(&["status", "--porcelain", "--untracked-files=normal"]),
        Query::Upstream => strings(
            &["rev-parse", "--abbrev-ref", "--symbolic-full-name", "@{upstream}"],
        ),
        Query::Remotes => strings(&["for-each-ref", "--format=%(refname)", "refs/remotes"]),
        Query::RevListCount { excluding, excluding_remotes } => {
            let mut v = strings(&["rev-list", "--count", "HEAD", "--not"]);
            let mut i: usize = 0;
            while i < excluding.len()
                invariant
                    i <= excluding@.len(),
                    strings_view(v@) == seq!["rev-list"@, "--count"@, "HEAD"@, "--not"@] + strings_view(
                        excluding@.subrange(0, i as int),
                    ),
                decreases excluding@.len() - i,
            {
                push_str(&mut v, excluding[i].as_str());
                proof {
                    assert(strings_view(excluding@.subrange(0, i + 1)) =~= strings_view(
                        excluding@.subrange(0, i as int),
                    ).push(excluding@[i as int]@));
                }
                i = i + 1;
            }
            proof {
                assert(excluding@.subrange(0, excluding@.len() as int) =~= excluding@);
            }
            if *excluding_remotes {
                push_str(&mut v, "--remotes");
            }
            v
        },
    };
    proof {
        assert(strings_view(v@) =~= query_args(query@));
    }
    v
}

/// Whether the reason of a failure is shown to the user for this query.
pub fn shows_stderr(query: &Query) -> (b: bool)
    ensures
        b == query_shows_stderr(query@),
{
    match query {
        Query::AddWorktree { .. } | Query::RemoveWorktree { .. } => true,
        _ => false,
    }
}

} // verus!
