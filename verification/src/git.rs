//! What the library makes of a repository's answers: each function here
//! takes the answer to one query (see `query`) and decides what it means.
use vstd::prelude::*;
use vstd::utf8::{decode_utf8, valid_utf8};
use crate::error::Error;
use crate::paths::{
    file_name, parent, path_eq, path_file_name, path_parent, path_push, plain_component, push, same_path,
};
use crate::porcelain::{opt_view, parse_worktree_list, spec_parse_worktree_list, worktrees_view, Worktree};
use crate::text::{chars_of, join2, push_char, string_of_range};

verus! {

/// A repository's answer to one query, as the library reads it: whether the
/// query succeeded, and its text, in the form that the standard output of
/// the `git` command line of the same meaning has.
#[derive(Debug)]
pub struct GitOutput {
    pub success: bool,
    pub stdout: Vec<u8>,
}

impl View for GitOutput {
    type V = (bool, Seq<u8>);

    open spec fn view(&self) -> (bool, Seq<u8>) {
        (self.success, self.stdout@)
    }
}

/// An error as a value: its message and whether it carries the `wt: ` prefix.
pub type ErrorView = (Seq<char>, bool);

/// The usual error: shown behind the `wt: ` prefix.
pub open spec fn failure(message: Seq<char>) -> ErrorView {
    (message, true)
}

/// The view of a result that carries a string.
pub open spec fn text_result(r: Result<String, Error>) -> Result<Seq<char>, ErrorView> {
    match r {
        Ok(s) => Ok(s@),
        Err(e) => Err(e@),
    }
}

/// The view of a result that carries a plain value.
pub open spec fn value_result<T>(r: Result<T, Error>) -> Result<T, ErrorView> {
    match r {
        Ok(v) => Ok(v),
        Err(e) => Err(e@),
    }
}

/// std's `str::from_utf8`: `Some` exactly when the bytes are valid UTF-8, and
/// then the characters they encode.
#[verifier::external_body]
fn utf8_text(bytes: &[u8]) -> (r: Option<String>)
    ensures
        r is Some <==> valid_utf8(bytes@),
        r matches Some(s) ==> s@ == decode_utf8(bytes@),
{
    std::str::from_utf8(bytes).ok().map(|s| s.to_string())
}

/// `s` without its trailing `'\n'` and `'\r'` characters.
pub open spec fn trim_line_ends(s: Seq<char>) -> Seq<char>
    decreases s.len(),
{
    if s.len() > 0 && (s.last() == '\n' || s.last() == '\r') {
        trim_line_ends(s.drop_last())
    } else {
        s
    }
}

/// The text of Git's standard output, without trailing line ends.
pub open spec fn spec_stdout_string(out: (bool, Seq<u8>)) -> Result<Seq<char>, ErrorView> {
    if valid_utf8(out.1) {
        Ok(trim_line_ends(decode_utf8(out.1)))
    } else {
        Err(failure("git produced non-UTF-8 output"@))
    }
}

proof fn lemma_trim_prefix(s: Seq<char>, k: int)
    requires
        0 <= k <= s.len(),
        forall|j: int| k <= j < s.len() ==> s[j] == '\n' || s[j] == '\r',
        k == 0 || (s[k - 1] != '\n' && s[k - 1] != '\r'),
    ensures
        trim_line_ends(s) == s.subrange(0, k),
    decreases s.len(),
{
    if s.len() > k {
        lemma_trim_prefix(s.drop_last(), k);
        assert(s.drop_last().subrange(0, k) =~= s.subrange(0, k));
    } else {
        assert(s.subrange(0, k) =~= s);
    }
}

/// Git's standard output as text, without trailing line ends.
pub fn stdout_string(output: &GitOutput) -> (r: Result<String, Error>)
    ensures
        text_result(r) == spec_stdout_string(output@),
{
    match utf8_text(output.stdout.as_slice()) {
        None => Err(Error::msg(String::from_str("git produced non-UTF-8 output"))),
        Some(text) => {
            let cs = chars_of(text.as_str());
            let mut k = cs.len();
            while k > 0 && (cs[k - 1] == '\n' || cs[k - 1] == '\r')
                invariant
                    k <= cs@.len(),
                    forall|j: int| k <= j < cs@.len() ==> cs@[j] == '\n' || cs@[j] == '\r',
                decreases k,
            {
                k = k - 1;
            }
            proof {
                lemma_trim_prefix(cs@, k as int);
            }
            Ok(string_of_range(cs.as_slice(), 0, k))
        }
    }
}

// ---------------------------------------------------------------------------
// Repository and branch checks.

/// What libgit2's `git_branch_name_is_valid` says of a name, through
/// `git2::Branch::name_is_valid`: `None` when the call fails (a name holding
/// a NUL character cannot be handed to libgit2).
pub uninterp spec fn libgit2_branch_name_valid(name: Seq<char>) -> Option<bool>;

/// Whether a name holds none of the characters and forms that libgit2 never
/// accepts in a branch name and that matter to the library: `:` and `\`
/// (refused in every ref name), and the names `.` and `..` (a ref name
/// component may not start with `.`).
pub open spec fn free_of_path_marks(name: Seq<char>) -> bool {
    &&& !name.contains(':')
    &&& !name.contains('\\')
    &&& name != "."@
    &&& name != ".."@
}

/// `git2::Branch::name_is_valid`, with its error turned into `None`. The
/// contract names the result, and adds only what libgit2's ref-name check
/// (`ensure_segment_validity` and `is_valid_ref_char` in `refs.c`) shows: a
/// name it finds valid is free of the marks of `free_of_path_marks`. It says
/// nothing of the other rules.
#[verifier::external_body]
fn branch_name_is_valid(name: &str) -> (r: Option<bool>)
    ensures
        r == libgit2_branch_name_valid(name@),
        r == Some(true) ==> free_of_path_marks(name@),
{
    git2::Branch::name_is_valid(name).ok()
}

/// Whether a branch name is acceptable: it must not be empty, and libgit2
/// must find it a valid branch name.
pub open spec fn spec_validate_branch_name(branch: Seq<char>) -> Result<(), ErrorView> {
    if branch.len() == 0 {
        Err(failure("a branch name is required"@))
    } else if libgit2_branch_name_valid(branch) != Some(true) {
        Err(failure("invalid branch name: "@ + branch))
    } else {
        Ok(())
    }
}

/// Checks a branch name: it must not be empty, and libgit2 must accept it.
pub fn validate_branch_name(branch: &str) -> (r: Result<(), Error>)
    ensures
        value_result(r) == spec_validate_branch_name(branch@),
        r is Ok ==> branch@.len() > 0 && free_of_path_marks(branch@),
{
    if branch.unicode_len() == 0 {
        return Err(Error::msg(String::from_str("a branch name is required")));
    }
    match branch_name_is_valid(branch) {
        Some(true) => Ok(()),
        _ => Err(Error::msg(join2("invalid branch name: ", branch))),
    }
}

/// What `git rev-parse --show-toplevel` says of the repository's root.
pub open spec fn spec_git_root(out: (bool, Seq<u8>)) -> Result<Seq<char>, ErrorView> {
    if !out.0 {
        Err(failure("the current directory is not inside a Git worktree"@))
    } else {
        spec_stdout_string(out)
    }
}

/// The root directory of the repository, from `git rev-parse --show-toplevel`.
pub fn git_root(output: &GitOutput) -> (r: Result<String, Error>)
    ensures
        text_result(r) == spec_git_root(output@),
{
    if !output.success {
        return Err(Error::msg(String::from_str("the current directory is not inside a Git worktree")));
    }
    stdout_string(output)
}

/// What `git symbolic-ref --quiet --short HEAD` says of the current branch.
pub open spec fn spec_current_branch(out: (bool, Seq<u8>)) -> Result<Seq<char>, ErrorView> {
    if !out.0 {
        Err(failure("the current worktree has a detached HEAD"@))
    } else {
        spec_stdout_string(out)
    }
}

/// The branch checked out in the repository, from `git symbolic-ref`.
pub fn current_branch(output: &GitOutput) -> (r: Result<String, Error>)
    ensures
        text_result(r) == spec_current_branch(output@),
{
    if !output.success {
        return Err(Error::msg(String::from_str("the current worktree has a detached HEAD")));
    }
    stdout_string(output)
}

/// Whether the repository has a commit: `git rev-parse --verify HEAD^{commit}` succeeded.
pub fn has_commits(output: &GitOutput) -> (b: bool)
    ensures
        b == output.success,
{
    output.success
}

/// Whether the branch exists: `git show-ref --verify refs/heads/<branch>` succeeded.
pub fn branch_exists(output: &GitOutput) -> (b: bool)
    ensures
        b == output.success,
{
    output.success
}

// ---------------------------------------------------------------------------
// Where worktrees live.

/// The directory name of a branch's worktree: each `/` becomes `__`.
pub open spec fn spec_worktree_name(branch: Seq<char>) -> Seq<char>
    decreases branch.len(),
{
    if branch.len() == 0 {
        seq![]
    } else if branch.last() == '/' {
        spec_worktree_name(branch.drop_last()) + seq!['_', '_']
    } else {
        spec_worktree_name(branch.drop_last()).push(branch.last())
    }
}

/// The directory name of a branch's worktree: `feature/login` becomes `feature__login`.
pub fn worktree_name(branch: &str) -> (name: String)
    ensures
        name@ == spec_worktree_name(branch@),
{
    let cs = chars_of(branch);
    let mut name = String::new();
    let mut i: usize = 0;
    while i < cs.len()
        invariant
            cs@ == branch@,
            i <= cs@.len(),
            name@ == spec_worktree_name(cs@.subrange(0, i as int)),
        decreases cs@.len() - i,
    {
        proof {
            assert(cs@.subrange(0, i + 1).drop_last() =~= cs@.subrange(0, i as int));
        }
        if cs[i] == '/' {
            push_char(&mut name, '_');
            push_char(&mut name, '_');
        } else {
            push_char(&mut name, cs[i]);
        }
        i = i + 1;
    }
    proof {
        assert(cs@.subrange(0, cs@.len() as int) =~= cs@);
    }
    name
}

/// The sibling directory that holds a repository's worktrees:
/// `<parent of repo>/<name of repo>.worktrees`.
pub open spec fn spec_worktrees_root(repo: Seq<char>) -> Result<Seq<char>, ErrorView> {
    match path_file_name(repo) {
        None => Err(failure("could not determine repository name from "@ + repo)),
        Some(name) => match path_parent(repo) {
            None => Err(failure("could not determine parent directory of "@ + repo)),
            Some(dir) => Ok(path_push(dir, name + ".worktrees"@)),
        },
    }
}

/// `p` is the entry `name` directly inside the directory `dir`: its name is
/// `name` and its parent equals `dir`.
pub open spec fn entry_of(p: Seq<char>, dir: Seq<char>, name: Seq<char>) -> bool {
    &&& path_file_name(p) == Some(name)
    &&& path_parent(p) is Some
    &&& path_eq(path_parent(p)->0, dir)
}

/// Whether the final component of `repo` holds neither `\\` nor `:`, which
/// on Windows would make a separator or a drive prefix of it.
pub open spec fn name_without_prefix_marks(repo: Seq<char>) -> bool {
    path_file_name(repo) matches Some(n) ==> !n.contains('\\') && !n.contains(':')
}

/// `root` is the directory beside the repository `repo` named after it with
/// `.worktrees` appended: its parent equals the repository's parent, its name
/// is the repository's name followed by `.worktrees`, and so it is not the
/// repository itself. (Parents are compared by `Path`'s `==`.)
pub open spec fn beside_repository(root: Seq<char>, repo: Seq<char>) -> bool {
    &&& path_file_name(repo) is Some
    &&& path_parent(repo) is Some
    &&& entry_of(root, path_parent(repo)->0, path_file_name(repo)->0 + ".worktrees"@)
    &&& root != repo
}

proof fn lemma_worktrees_dir_name_is_plain(n: Seq<char>)
    requires
        !n.contains('/'),
        !n.contains('\\'),
        !n.contains(':'),
    ensures
        plain_component(n + ".worktrees"@),
{
    reveal_strlit(".worktrees");
    reveal_strlit(".");
    reveal_strlit("..");
    let t = ".worktrees"@;
    let s = n + t;
    assert(s.len() == n.len() + 10);
    assert forall|c: char| c == '/' || c == '\\' || c == ':' implies !s.contains(c) by {
        if s.contains(c) {
            let i = choose|i: int| 0 <= i < s.len() && s[i] == c;
            if i < n.len() {
                assert(n[i] == c);
                assert(n.contains(c));
            } else {
                let k = i - n.len();
                assert(t[k] == c);
                assert(false);
            }
        }
    }
    assert(s != "."@);
    assert(s != ".."@);
}

/// The directory that holds the worktrees of the repository at `repo`. Where
/// the repository's name is one plain component, the result is the sibling
/// directory that `beside_repository` describes.
pub fn worktrees_root(repo: &str) -> (r: Result<String, Error>)
    ensures
        text_result(r) == spec_worktrees_root(repo@),
        name_without_prefix_marks(repo@) ==> (r matches Ok(root) ==> beside_repository(root@, repo@)),
{
    let name = match file_name(repo) {
        None => {
            return Err(Error::msg(join2("could not determine repository name from ", repo)));
        },
        Some(name) => name,
    };
    let dir = match parent(repo) {
        None => {
            return Err(Error::msg(join2("could not determine parent directory of ", repo)));
        },
        Some(dir) => dir,
    };
    let dir_name = join2(name.as_str(), ".worktrees");
    proof {
        if name_without_prefix_marks(repo@) {
            lemma_worktrees_dir_name_is_plain(name@);
        }
    }
    let root = push(dir.as_str(), dir_name.as_str());
    proof {
        reveal_strlit(".worktrees");
        assert(dir_name@.len() == name@.len() + 10);
    }
    Ok(root)
}

/// Where the worktree of `branch` lives under the worktrees directory `root`.
pub open spec fn spec_worktree_path(root: Seq<char>, branch: Seq<char>) -> Seq<char> {
    path_push(root, spec_worktree_name(branch))
}

/// Where the worktree of `branch` lives under the worktrees directory `root`.
/// Where the branch's directory name is one plain component (as it is for
/// every branch name that Git accepts), that is the entry of that name
/// directly inside `root`.
pub fn worktree_path(root: &str, branch: &str) -> (p: String)
    ensures
        p@ == spec_worktree_path(root@, branch@),
        plain_component(spec_worktree_name(branch@)) ==> entry_of(p@, root@, spec_worktree_name(branch@)),
{
    let name = worktree_name(branch);
    push(root, name.as_str())
}

// ---------------------------------------------------------------------------
// Registered worktrees.

/// What `git worktree list --porcelain` says of the registered worktrees.
pub open spec fn spec_list_worktrees(out: (bool, Seq<u8>)) -> Result<Seq<(Seq<char>, Option<Seq<char>>)>, ErrorView> {
    if !out.0 {
        Err(failure("failed to list git worktrees"@))
    } else {
        match spec_stdout_string(out) {
            Err(e) => Err(e),
            Ok(text) => Ok(spec_parse_worktree_list(text)),
        }
    }
}

/// The registered worktrees, from `git worktree list --porcelain`.
pub fn list_worktrees(output: &GitOutput) -> (r: Result<Vec<Worktree>, Error>)
    ensures
        match r {
            Ok(ws) => spec_list_worktrees(output@) == Ok::<_, ErrorView>(worktrees_view(ws@)),
            Err(e) => spec_list_worktrees(output@) == Err::<Seq<(Seq<char>, Option<Seq<char>>)>, _>(e@),
        },
{
    if !output.success {
        return Err(Error::msg(String::from_str("failed to list git worktrees")));
    }
    let text = stdout_string(output)?;
    Ok(parse_worktree_list(text.as_str()))
}

/// The ref that names a local branch: `refs/heads/<branch>`.
pub open spec fn branch_ref(branch: Seq<char>) -> Seq<char> {
    "refs/heads/"@ + branch
}

/// The path of the first worktree in `ws` whose branch is `branch`.
pub open spec fn spec_worktree_for_branch(
    ws: Seq<(Seq<char>, Option<Seq<char>>)>,
    branch: Seq<char>,
) -> Option<Seq<char>>
    decreases ws.len(),
{
    if ws.len() == 0 {
        None
    } else if ws[0].1 == Some(branch_ref(branch)) {
        Some(ws[0].0)
    } else {
        spec_worktree_for_branch(ws.drop_first(), branch)
    }
}

proof fn lemma_worktree_for_branch_skip(ws: Seq<(Seq<char>, Option<Seq<char>>)>, branch: Seq<char>, i: int)
    requires
        0 <= i <= ws.len(),
        forall|j: int| 0 <= j < i ==> ws[j].1 != Some(branch_ref(branch)),
    ensures
        spec_worktree_for_branch(ws, branch) == spec_worktree_for_branch(ws.subrange(i, ws.len() as int), branch),
    decreases i,
{
    if i > 0 {
        lemma_worktree_for_branch_skip(ws.drop_first(), branch, i - 1);
        assert(ws.drop_first().subrange(i - 1, ws.drop_first().len() as int) =~= ws.subrange(i, ws.len() as int));
    } else {
        assert(ws.subrange(0, ws.len() as int) =~= ws);
    }
}

/// Whether a worktree's branch is the ref of `branch` (given as characters).
fn is_branch(w: &Worktree, wanted: &str) -> (b: bool)
    ensures
        b == (opt_view(w.branch) == Some(wanted@)),
{
    match &w.branch {
        None => false,
        Some(b) => {
            let mine = String::from_str(b.as_str());
            let other = String::from_str(wanted);
            mine == other
        },
    }
}

/// The path of the worktree that has `branch` checked out, if one does.
pub fn worktree_for_branch(worktrees: &[Worktree], branch: &str) -> (r: Option<String>)
    ensures
        opt_view(r) == spec_worktree_for_branch(worktrees_view(worktrees@), branch@),
{
    let wanted = join2("refs/heads/", branch);
    let ghost ws = worktrees_view(worktrees@);
    let mut i: usize = 0;
    while i < worktrees.len()
        invariant
            ws == worktrees_view(worktrees@),
            wanted@ == branch_ref(branch@),
            i <= worktrees@.len(),
            forall|j: int| 0 <= j < i ==> ws[j].1 != Some(branch_ref(branch@)),
        decreases worktrees@.len() - i,
    {
        if is_branch(&worktrees[i], wanted.as_str()) {
            proof {
                lemma_worktree_for_branch_skip(ws, branch@, i as int);
            }
            return Some(worktrees[i].path.clone());
        }
        i = i + 1;
    }
    proof {
        lemma_worktree_for_branch_skip(ws, branch@, i as int);
    }
    None
}

/// Whether some worktree in `ws` is at `path` (by `Path`'s equality).
pub open spec fn spec_is_registered_worktree(ws: Seq<(Seq<char>, Option<Seq<char>>)>, path: Seq<char>) -> bool {
    exists|i: int| 0 <= i < ws.len() && path_eq(ws[i].0, path)
}

/// Whether `path` is one of the registered worktrees.
pub fn is_registered_worktree(worktrees: &[Worktree], path: &str) -> (b: bool)
    ensures
        b == spec_is_registered_worktree(worktrees_view(worktrees@), path@),
{
    let ghost ws = worktrees_view(worktrees@);
    let mut i: usize = 0;
    while i < worktrees.len()
        invariant
            ws == worktrees_view(worktrees@),
            i <= worktrees@.len(),
            forall|j: int| 0 <= j < i ==> !path_eq(#[trigger] ws[j].0, path@),
        decreases worktrees@.len() - i,
    {
        if same_path(worktrees[i].path.as_str(), path) {
            assert(path_eq(ws[i as int].0, path@));
            return true;
        }
        i = i + 1;
    }
    false
}

// ---------------------------------------------------------------------------
// Adding and removing worktrees.

/// What the outcome of `git worktree add` means.
pub open spec fn spec_add_worktree(out: (bool, Seq<u8>), branch: Seq<char>, create_branch: bool) -> Result<(), ErrorView> {
    if out.0 {
        Ok(())
    } else if create_branch {
        Err(failure("failed to create worktree and branch "@ + branch))
    } else {
        Err(failure("failed to create worktree for existing branch "@ + branch))
    }
}

/// Whether `git worktree add` made the worktree of `branch`; `create_branch`
/// tells whether it was asked to create the branch too.
pub fn add_worktree(output: &GitOutput, branch: &str, create_branch: bool) -> (r: Result<(), Error>)
    ensures
        value_result(r) == spec_add_worktree(output@, branch@, create_branch),
{
    if !output.success {
        if create_branch {
            return Err(Error::msg(join2("failed to create worktree and branch ", branch)));
        }
        return Err(Error::msg(join2("failed to create worktree for existing branch ", branch)));
    }
    Ok(())
}

/// What the outcome of `git worktree remove` means.
pub open spec fn spec_remove_worktree(out: (bool, Seq<u8>), destination: Seq<char>) -> Result<(), ErrorView> {
    if out.0 {
        Ok(())
    } else {
        Err(failure("failed to remove worktree: "@ + destination))
    }
}

/// Whether `git worktree remove` removed the worktree at `destination`.
pub fn remove_worktree(output: &GitOutput, destination: &str) -> (r: Result<(), Error>)
    ensures
        value_result(r) == spec_remove_worktree(output@, destination@),
{
    if !output.success {
        return Err(Error::msg(join2("failed to remove worktree: ", destination)));
    }
    Ok(())
}

// ---------------------------------------------------------------------------
// Work that a removal would lose.

/// What `git status --porcelain` says of uncommitted changes in the worktree at `path`.
pub open spec fn spec_has_uncommitted_changes(out: (bool, Seq<u8>), path: Seq<char>) -> Result<bool, ErrorView> {
    if !out.0 {
        Err(failure("failed to inspect worktree: "@ + path))
    } else {
        match spec_stdout_string(out) {
            Err(e) => Err(e),
            Ok(text) => Ok(text.len() > 0),
        }
    }
}

/// Whether the worktree at `path` has uncommitted changes: `git status
/// --porcelain` printed something.
pub fn has_uncommitted_changes(output: &GitOutput, path: &str) -> (r: Result<bool, Error>)
    ensures
        value_result(r) == spec_has_uncommitted_changes(output@, path@),
{
    if !output.success {
        return Err(Error::msg(join2("failed to inspect worktree: ", path)));
    }
    let text = stdout_string(output)?;
    Ok(text.as_str().unicode_len() > 0)
}

/// The value of a decimal digit.
pub open spec fn digit_value(c: char) -> int {
    c as int - '0' as int
}

pub open spec fn is_digit(c: char) -> bool {
    '0' <= c && c <= '9'
}

/// The number that the decimal digits `ds` write.
pub open spec fn digits_value(ds: Seq<char>) -> int
    decreases ds.len(),
{
    if ds.len() == 0 {
        0
    } else {
        digits_value(ds.drop_last()) * 10 + digit_value(ds.last())
    }
}

/// `s` without one leading `+`.
pub open spec fn unsigned_digits(s: Seq<char>) -> Seq<char> {
    if s.len() > 0 && s[0] == '+' {
        s.drop_first()
    } else {
        s
    }
}

/// Whether every character of `ds` is a decimal digit.
pub open spec fn all_digits(ds: Seq<char>) -> bool {
    forall|i: int| 0 <= i < ds.len() ==> is_digit(#[trigger] ds[i])
}

/// How `u64`'s `FromStr` reads `s`: an optional `+`, then at least one
/// decimal digit and nothing else, for a value that fits in a `u64`.
pub open spec fn spec_parse_u64(s: Seq<char>) -> Option<u64> {
    let ds = unsigned_digits(s);
    if ds.len() > 0 && all_digits(ds) && digits_value(ds) <= u64::MAX {
        Some(digits_value(ds) as u64)
    } else {
        None
    }
}

proof fn lemma_digits_value_grows(ds: Seq<char>, i: int)
    requires
        0 <= i <= ds.len(),
        forall|j: int| 0 <= j < ds.len() ==> is_digit(#[trigger] ds[j]),
    ensures
        0 <= digits_value(ds.subrange(0, i)) <= digits_value(ds),
    decreases ds.len(),
{
    if ds.len() > 0 {
        if i < ds.len() {
            lemma_digits_value_grows(ds.drop_last(), i);
            assert(ds.drop_last().subrange(0, i) =~= ds.subrange(0, i));
        } else {
            assert(ds.subrange(0, i) =~= ds);
            lemma_digits_value_grows(ds.drop_last(), i - 1);
            assert(ds.drop_last().subrange(0, i - 1) =~= ds.drop_last());
        }
    } else {
        assert(ds.subrange(0, i) =~= ds);
    }
}

/// Reads a count as `u64`'s `FromStr` does.
pub fn parse_count(s: &str) -> (r: Option<u64>)
    ensures
        r == spec_parse_u64(s@),
{
    let cs = chars_of(s);
    let start: usize = if cs.len() > 0 && cs[0] == '+' { 1 } else { 0 };
    let ghost ds = cs@.subrange(start as int, cs@.len() as int);
    proof {
        if start == 1 {
            assert(ds =~= s@.drop_first());
        } else {
            assert(ds =~= s@);
        }
    }
    if start >= cs.len() {
        return None;
    }
    let mut value: u64 = 0;
    let mut i: usize = start;
    while i < cs.len()
        invariant
            cs@ == s@,
            start <= i <= cs@.len(),
            ds == cs@.subrange(start as int, cs@.len() as int),
            ds == unsigned_digits(s@),
            forall|j: int| 0 <= j < i - start ==> is_digit(#[trigger] ds[j]),
            value == digits_value(ds.subrange(0, i - start)),
        decreases cs@.len() - i,
    {
        let c = cs[i];
        if !('0' <= c && c <= '9') {
            assert(!is_digit(ds[i - start]));
            return None;
        }
        let d: u64 = if c == '0' { 0 } else if c == '1' { 1 } else if c == '2' { 2 } else if c == '3' {
            3
        } else if c == '4' { 4 } else if c == '5' { 5 } else if c == '6' { 6 } else if c == '7' {
            7
        } else if c == '8' { 8 } else { 9 };
        proof {
            assert(ds.subrange(0, i + 1 - start).drop_last() =~= ds.subrange(0, i - start));
            assert(ds[i - start] == c);
        }
        let next = match value.checked_mul(10) {
            None => None,
            Some(v) => v.checked_add(d),
        };
        match next {
            None => {
                proof {
                    if all_digits(ds) {
                        lemma_digits_value_grows(ds, i + 1 - start);
                    }
                }
                return None;
            },
            Some(v) => {
                value = v;
            },
        }
        i = i + 1;
    }
    proof {
        assert(ds.subrange(0, ds.len() as int) =~= ds);
    }
    Some(value)
}

/// What `git rev-list --count` says: the number it printed.
pub open spec fn spec_rev_list_count(out: (bool, Seq<u8>), path: Seq<char>) -> Result<u64, ErrorView> {
    if !out.0 {
        Err(failure("failed to inspect commits in "@ + path))
    } else {
        match spec_stdout_string(out) {
            Err(e) => Err(e),
            Ok(text) => match spec_parse_u64(text) {
                None => Err(failure("git rev-list returned a non-numeric count"@)),
                Some(n) => Ok(n),
            },
        }
    }
}

/// The count printed by `git rev-list --count`, run in the worktree at `path`.
pub fn rev_list_count(output: &GitOutput, path: &str) -> (r: Result<u64, Error>)
    ensures
        value_result(r) == spec_rev_list_count(output@, path@),
{
    if !output.success {
        return Err(Error::msg(join2("failed to inspect commits in ", path)));
    }
    let text = stdout_string(output)?;
    match parse_count(text.as_str()) {
        None => Err(Error::msg(String::from_str("git rev-list returned a non-numeric count"))),
        Some(n) => Ok(n),
    }
}

} // verus!
