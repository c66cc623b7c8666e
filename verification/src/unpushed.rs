//! Deciding whether a worktree holds commits that exist nowhere else, one
//! repository answer at a time.
use vstd::prelude::*;
use crate::error::Error;
use crate::git::{
    failure, rev_list_count, spec_rev_list_count, spec_stdout_string, stdout_string, value_result,
    ErrorView, GitOutput,
};
use crate::query::{Query, QueryView, strings_view};
use crate::text::join2;

verus! {

/// Which answer the check is waiting for.
#[derive(Debug, Clone, Copy, PartialEq, Eq)]
pub enum UnpushedCheck {
    /// `git rev-parse ... @{upstream}`: does the branch track an upstream?
    Upstream,
    /// The count of commits not on the upstream.
    UpstreamCount,
    /// `git for-each-ref ... refs/remotes`: are there remote branches?
    Remotes,
    /// The count of commits on no remote branch.
    RemotesCount,
    /// Does a local `main` exist?
    MainExists,
    /// Does a local `staging` exist? (`main` tells whether `main` does.)
    StagingExists { main: bool },
    /// The count of commits on neither `main` nor `staging`.
    ExclusionsCount,
}

/// What the check does after an answer: ask the next query, or conclude.
#[derive(Debug)]
pub enum Progress {
    Ask(UnpushedCheck, Query),
    Answer(Result<bool, Error>),
}

pub enum ProgressView {
    Ask(UnpushedCheck, QueryView),
    Answer(Result<bool, ErrorView>),
}

impl View for Progress {
    type V = ProgressView;

    open spec fn view(&self) -> ProgressView {
        match self {
            Progress::Ask(c, q) => ProgressView::Ask(*c, q@),
            Progress::Answer(r) => ProgressView::Answer(value_result(*r)),
        }
    }
}

/// The refs of the local base branches that exist, in the order `main`, `staging`.
pub open spec fn base_exclusions(main: bool, staging: bool) -> Seq<Seq<char>> {
    (if main { seq!["refs/heads/main"@] } else { seq![] }) + (if staging {
        seq!["refs/heads/staging"@]
    } else {
        seq![]
    })
}

/// A count query concludes: are there commits (is the count above zero)?
pub open spec fn count_answer(out: (bool, Seq<u8>), path: Seq<char>) -> ProgressView {
    match spec_rev_list_count(out, path) {
        Err(e) => ProgressView::Answer(Err(e)),
        Ok(n) => ProgressView::Answer(Ok(n > 0)),
    }
}

/// The rules of the check. The worktree's commits count as pushed when none
/// is missing from its upstream; without an upstream, when none is missing
/// from every remote branch; without remote branches, when none is missing
/// from the local `main` and `staging` that exist; and with neither of those,
/// they count as unpushed.
pub open spec fn unpushed_step(check: UnpushedCheck, path: Seq<char>, out: (bool, Seq<u8>)) -> ProgressView {
    match check {
        UnpushedCheck::Upstream => if out.0 {
            match spec_stdout_string(out) {
                Err(e) => ProgressView::Answer(Err(e)),
                Ok(name) => ProgressView::Ask(
                    UnpushedCheck::UpstreamCount,
                    QueryView::RevListCount { excluding: seq![name], excluding_remotes: false },
                ),
            }
        } else {
            ProgressView::Ask(UnpushedCheck::Remotes, QueryView::Remotes)
        },
        UnpushedCheck::Remotes => if !out.0 {
            ProgressView::Answer(Err(failure("failed to inspect remotes in "@ + path)))
        } else {
            match spec_stdout_string(out) {
                Err(e) => ProgressView::Answer(Err(e)),
                Ok(text) => if text.len() > 0 {
                    ProgressView::Ask(
                        UnpushedCheck::RemotesCount,
                        QueryView::RevListCount { excluding: seq![], excluding_remotes: true },
                    )
                } else {
                    ProgressView::Ask(UnpushedCheck::MainExists, QueryView::BranchExists { branch: "main"@ })
                },
            }
        },
        UnpushedCheck::MainExists => ProgressView::Ask(
            UnpushedCheck::StagingExists { main: out.0 },
            QueryView::BranchExists { branch: "staging"@ },
        ),
        UnpushedCheck::StagingExists { main } => {
            let excl = base_exclusions(main, out.0);
            if excl.len() == 0 {
                ProgressView::Answer(Ok(true))
            } else {
                ProgressView::Ask(
                    UnpushedCheck::ExclusionsCount,
                    QueryView::RevListCount { excluding: excl, excluding_remotes: false },
                )
            }
        },
        UnpushedCheck::UpstreamCount | UnpushedCheck::RemotesCount | UnpushedCheck::ExclusionsCount =>
            count_answer(out, path),
    }
}

/// The first query of the check.
pub open spec fn unpushed_start() -> (UnpushedCheck, QueryView) {
    (UnpushedCheck::Upstream, QueryView::Upstream)
}

fn one_string(s: String) -> (v: Vec<String>)
    ensures
        strings_view(v@) == seq![s@],
{
    let mut v: Vec<String> = Vec::new();
    v.push(s);
    proof {
        assert(strings_view(v@) =~= seq![s@]);
    }
    v
}

/// Takes the answer to the query the check was waiting for, in the worktree
/// at `path`, and says what comes next (see `unpushed_step`).
pub fn has_unpushed_commits(check: UnpushedCheck, path: &str, output: &GitOutput) -> (p: Progress)
    ensures
        p@ == unpushed_step(check, path@, output@),
{
    match check {
        UnpushedCheck::Upstream => {
            if output.success {
                match stdout_string(output) {
                    Err(e) => Progress::Answer(Err(e)),
                    Ok(name) => Progress::Ask(
                        UnpushedCheck::UpstreamCount,
                        Query::RevListCount { excluding: one_string(name), excluding_remotes: false },
                    ),
                }
            } else {
                Progress::Ask(UnpushedCheck::Remotes, Query::Remotes)
            }
        },
        UnpushedCheck::Remotes => {
            if !output.success {
                return Progress::Answer(Err(Error::msg(join2("failed to inspect remotes in ", path))));
            }
            match stdout_string(output) {
                Err(e) => Progress::Answer(Err(e)),
                Ok(text) => {
                    if text.as_str().unicode_len() > 0 {
                        let excluding: Vec<String> = Vec::new();
                        proof {
                            assert(strings_view(excluding@) =~= Seq::<Seq<char>>::empty());
                        }
                        Progress::Ask(UnpushedCheck::RemotesCount, Query::RevListCount { excluding, excluding_remotes: true })
                    } else {
                        Progress::Ask(
                            UnpushedCheck::MainExists,
                            Query::BranchExists { branch: String::from_str("main") },
                        )
                    }
                },
            }
        },
        UnpushedCheck::MainExists => Progress::Ask(
            UnpushedCheck::StagingExists { main: output.success },
            Query::BranchExists { branch: String::from_str("staging") },
        ),
        UnpushedCheck::StagingExists { main } => {
            let mut excluding: Vec<String> = Vec::new();
            if main {
                excluding.push(String::from_str("refs/heads/main"));
            }
            if output.success {
                excluding.push(String::from_str("refs/heads/staging"));
            }
            proof {
                assert(strings_view(excluding@) =~= base_exclusions(main, output.success));
            }
            if !main && !output.success {
                Progress::Answer(Ok(true))
            } else {
                Progress::Ask(UnpushedCheck::ExclusionsCount, Query::RevListCount { excluding, excluding_remotes: false })
            }
        },
        UnpushedCheck::UpstreamCount | UnpushedCheck::RemotesCount | UnpushedCheck::ExclusionsCount => {
            match rev_list_count(output, path) {
                Err(e) => Progress::Answer(Err(e)),
                Ok(n) => Progress::Answer(Ok(n > 0)),
            }
        },
    }
}

} // verus!
