//! Reading the output of `git worktree list --porcelain`.
use vstd::prelude::*;
use crate::text::{chars_of, has_prefix, starts_with, string_of_range};

verus! {

/// A worktree as Git lists it: its path and, when it has one, its branch ref.
#[derive(Debug, Clone, PartialEq, Eq)]
pub struct Worktree {
    pub path: String,
    pub branch: Option<String>,
}

/// The view of an optional string.
pub open spec fn opt_view(o: Option<String>) -> Option<Seq<char>> {
    match o {
        Some(s) => Some(s@),
        None => None,
    }
}

impl View for Worktree {
    type V = (Seq<char>, Option<Seq<char>>);

    open spec fn view(&self) -> (Seq<char>, Option<Seq<char>>) {
        (self.path@, opt_view(self.branch))
    }
}

/// The views of a list of worktrees.
pub open spec fn worktrees_view(ws: Seq<Worktree>) -> Seq<(Seq<char>, Option<Seq<char>>)> {
    ws.map_values(|w: Worktree| w@)
}

// ---------------------------------------------------------------------------
// Lines, as `str::lines` splits them.

/// Index of the first `'\n'` at or after `from`, or the length when there is none.
pub open spec fn next_newline(t: Seq<char>, from: int) -> int
    decreases t.len() - from,
{
    if from < 0 || from >= t.len() {
        t.len() as int
    } else if t[from] == '\n' {
        from
    } else {
        next_newline(t, from + 1)
    }
}

/// A line taken before a `'\n'` loses one trailing `'\r'`.
pub open spec fn strip_cr(l: Seq<char>) -> Seq<char> {
    if l.len() > 0 && l.last() == '\r' {
        l.drop_last()
    } else {
        l
    }
}

/// The lines of `t` from position `from` on: split after each `'\n'`, with
/// the line ending (`"\n"` or `"\r\n"`) removed; a last line without a
/// line ending is kept as it is, and nothing follows a final `'\n'`.
pub open spec fn lines_from(t: Seq<char>, from: int) -> Seq<Seq<char>>
    decreases t.len() - from,
{
    if from < 0 || from >= t.len() {
        seq![]
    } else {
        let k = next_newline(t, from);
        proof {
            lemma_next_newline_bounds(t, from);
        }
        if k < t.len() {
            seq![strip_cr(t.subrange(from, k))] + lines_from(t, k + 1)
        } else {
            seq![t.subrange(from, t.len() as int)]
        }
    }
}

/// The lines of `t`.
pub open spec fn lines(t: Seq<char>) -> Seq<Seq<char>> {
    lines_from(t, 0)
}

pub proof fn lemma_next_newline_bounds(t: Seq<char>, from: int)
    requires
        0 <= from < t.len(),
    ensures
        from <= next_newline(t, from) <= t.len(),
    decreases t.len() - from,
{
    if t[from] != '\n' {
        if from + 1 < t.len() {
            lemma_next_newline_bounds(t, from + 1);
        } else {
            assert(next_newline(t, from + 1) == t.len());
        }
    }
}

pub proof fn lemma_next_newline_at(t: Seq<char>, from: int, i: int)
    requires
        0 <= from <= i <= t.len(),
        i == t.len() || t[i] == '\n',
        forall|j: int| from <= j < i ==> t[j] != '\n',
    ensures
        next_newline(t, from) == i,
    decreases i - from,
{
    if from < i {
        lemma_next_newline_at(t, from + 1, i);
    }
}

// ---------------------------------------------------------------------------
// The listing itself.

/// What has been read so far: the finished worktrees, and the path and branch
/// of the record being read.
pub struct ListingState {
    pub worktrees: Seq<(Seq<char>, Option<Seq<char>>)>,
    pub path: Option<Seq<char>>,
    pub branch: Option<Seq<char>>,
}

pub open spec fn worktree_prefix() -> Seq<char> {
    "worktree "@
}

pub open spec fn branch_prefix() -> Seq<char> {
    "branch "@
}

/// Ends the record being read: when it has a path, it becomes a worktree and
/// both path and branch are cleared; without a path nothing changes.
pub open spec fn flush(st: ListingState) -> ListingState {
    match st.path {
        Some(p) => ListingState {
            worktrees: st.worktrees.push((p, st.branch)),
            path: None,
            branch: None,
        },
        None => st,
    }
}

/// Reads one line: `worktree <path>` starts a record, `branch <ref>` sets the
/// branch, an empty line ends the record, and any other line is skipped.
pub open spec fn read_line(st: ListingState, l: Seq<char>) -> ListingState {
    if starts_with(l, worktree_prefix()) {
        ListingState { path: Some(l.skip(worktree_prefix().len() as int)), ..flush(st) }
    } else if starts_with(l, branch_prefix()) {
        ListingState { branch: Some(l.skip(branch_prefix().len() as int)), ..st }
    } else if l.len() == 0 {
        flush(st)
    } else {
        st
    }
}

/// Reads the lines `ls` in order, from the state `st`.
pub open spec fn read_lines(st: ListingState, ls: Seq<Seq<char>>) -> ListingState
    decreases ls.len(),
{
    if ls.len() == 0 {
        st
    } else {
        read_lines(read_line(st, ls[0]), ls.drop_first())
    }
}

pub open spec fn empty_listing() -> ListingState {
    ListingState { worktrees: seq![], path: None, branch: None }
}

/// The worktrees that a porcelain listing `t` describes, in the order listed.
pub open spec fn spec_parse_worktree_list(t: Seq<char>) -> Seq<(Seq<char>, Option<Seq<char>>)> {
    flush(read_lines(empty_listing(), lines(t))).worktrees
}

/// The state that the exec variables stand for.
pub open spec fn state_of(
    worktrees: Seq<Worktree>,
    path: Option<String>,
    branch: Option<String>,
) -> ListingState {
    ListingState { worktrees: worktrees_view(worktrees), path: opt_view(path), branch: opt_view(branch) }
}

/// Ends the record being read (see `flush`).
pub fn flush_worktree(
    worktrees: &mut Vec<Worktree>,
    current_path: &mut Option<String>,
    current_branch: &mut Option<String>,
)
    ensures
        state_of(final(worktrees)@, *final(current_path), *final(current_branch))
            == flush(state_of(old(worktrees)@, *old(current_path), *old(current_branch))),
{
    if let Some(path) = current_path.take() {
        let branch = current_branch.take();
        worktrees.push(Worktree { path, branch });
        proof {
            assert(worktrees_view(worktrees@) =~= worktrees_view(old(worktrees)@).push(
                (path@, opt_view(branch)),
            ));
        }
    }
}

/// Reads one line (see `read_line`).
fn read_listing_line(
    line: &[char],
    worktree: &[char],
    branch: &[char],
    worktrees: &mut Vec<Worktree>,
    current_path: &mut Option<String>,
    current_branch: &mut Option<String>,
)
    requires
        worktree@ == worktree_prefix(),
        branch@ == branch_prefix(),
    ensures
        state_of(final(worktrees)@, *final(current_path), *final(current_branch))
            == read_line(state_of(old(worktrees)@, *old(current_path), *old(current_branch)), line@),
{
    if has_prefix(line, worktree) {
        flush_worktree(worktrees, current_path, current_branch);
        *current_path = Some(string_of_range(line, worktree.len(), line.len()));
    } else if has_prefix(line, branch) {
        *current_branch = Some(string_of_range(line, branch.len(), line.len()));
    } else if line.len() == 0 {
        flush_worktree(worktrees, current_path, current_branch);
    }
}

/// The worktrees of a `git worktree list --porcelain` listing, in order.
pub fn parse_worktree_list(text: &str) -> (ws: Vec<Worktree>)
    ensures
        worktrees_view(ws@) == spec_parse_worktree_list(text@),
{
    let cs = chars_of(text);
    let worktree = chars_of("worktree ");
    let branch = chars_of("branch ");
    let ghost t = text@;
    let mut worktrees: Vec<Worktree> = Vec::new();
    let mut current_path: Option<String> = None;
    let mut current_branch: Option<String> = None;
    let n = cs.len();
    let mut start: usize = 0;
    let mut i: usize = 0;
    proof {
        assert(worktrees_view(worktrees@) =~= seq![]);
    }
    while i < n
        invariant
            cs@ == t,
            n == t.len(),
            worktree@ == worktree_prefix(),
            branch@ == branch_prefix(),
            start <= i <= n,
            forall|j: int| start <= j < i ==> t[j] != '\n',
            read_lines(empty_listing(), lines(t)) == read_lines(
                state_of(worktrees@, current_path, current_branch),
                lines_from(t, start as int),
            ),
        decreases n - i,
    {
        if cs[i] == '\n' {
            let mut end = i;
            if end > start && cs[end - 1] == '\r' {
                end = end - 1;
            }
            let line = vstd::slice::slice_subrange(cs.as_slice(), start, end);
            proof {
                lemma_next_newline_at(t, start as int, i as int);
                assert(strip_cr(t.subrange(start as int, i as int)) =~= line@);
                assert(lines_from(t, start as int) =~= seq![line@] + lines_from(t, i + 1));
                assert((seq![line@] + lines_from(t, i + 1)).drop_first() =~= lines_from(t, i + 1));
            }
            read_listing_line(
                line,
                worktree.as_slice(),
                branch.as_slice(),
                &mut worktrees,
                &mut current_path,
                &mut current_branch,
            );
            start = i + 1;
        }
        i = i + 1;
    }
    if start < n {
        let line = vstd::slice::slice_subrange(cs.as_slice(), start, n);
        proof {
            lemma_next_newline_at(t, start as int, n as int);
            assert(lines_from(t, start as int) =~= seq![line@]);
            assert(seq![line@].drop_first() =~= Seq::<Seq<char>>::empty());
        }
        let ghost before = state_of(worktrees@, current_path, current_branch);
        read_listing_line(
            line,
            worktree.as_slice(),
            branch.as_slice(),
            &mut worktrees,
            &mut current_path,
            &mut current_branch,
        );
        proof {
            assert(read_lines(before, seq![line@]) == read_lines(
                read_line(before, line@),
                seq![line@].drop_first(),
            ));
            assert(read_lines(read_line(before, line@), Seq::<Seq<char>>::empty())
                == read_line(before, line@));
        }
    } else {
        proof {
            assert(lines_from(t, start as int) =~= Seq::<Seq<char>>::empty());
        }
    }
    proof {
        assert(read_lines(empty_listing(), lines(t)) == state_of(worktrees@, current_path, current_branch));
    }
    flush_worktree(&mut worktrees, &mut current_path, &mut current_branch);
    worktrees
}

} // verus!
