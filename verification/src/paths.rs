//! Paths, held as UTF-8 strings; the path arithmetic itself is std's.
use vstd::prelude::*;
use crate::porcelain::opt_view;

verus! {

/// What `Path::file_name` gives for the path `p`.
pub uninterp spec fn path_file_name(p: Seq<char>) -> Option<Seq<char>>;

/// What `Path::parent` gives for the path `p`.
pub uninterp spec fn path_parent(p: Seq<char>) -> Option<Seq<char>>;

/// The path that `PathBuf::push` makes of `base` and `tail`.
pub uninterp spec fn path_push(base: Seq<char>, tail: Seq<char>) -> Seq<char>;

/// Whether `Path`'s `==` holds between `a` and `b` (it compares components).
pub uninterp spec fn path_eq(a: Seq<char>, b: Seq<char>) -> bool;

/// A single plain path component: not empty, not `.` or `..`, and holding
/// no `/`, nor the `\` and `:` that could make a separator or a prefix on
/// Windows.
pub open spec fn plain_component(s: Seq<char>) -> bool {
    &&& s.len() > 0
    &&& s != "."@
    &&& s != ".."@
    &&& !s.contains('/')
    &&& !s.contains('\\')
    &&& !s.contains(':')
}

/// std's `Path::file_name`, on a path given as a string. The name of a
/// UTF-8 path is UTF-8, so the conversion back to a `String` loses nothing.
/// The contract names the result and adds only what the documentation
/// gives: it is the path's final component, so it holds no `/`.
#[verifier::external_body]
pub(crate) fn file_name(path: &str) -> (r: Option<String>)
    ensures
        opt_view(r) == path_file_name(path@),
        r matches Some(n) ==> !n@.contains('/'),
{
    std::path::Path::new(path).file_name().map(|n| n.to_string_lossy().into_owned())
}

/// std's `Path::parent`, on a path given as a string. The contract names the
/// result and says nothing more of it.
#[verifier::external_body]
pub(crate) fn parent(path: &str) -> (r: Option<String>)
    ensures
        opt_view(r) == path_parent(path@),
{
    std::path::Path::new(path).parent().map(|p| p.to_string_lossy().into_owned())
}

/// std's `PathBuf::push`, which `Path::join` is documented to perform on a
/// copy. The contract names the result, and adds what std's documentation of
/// `push`, `file_name` and `parent` gives when `tail` is one plain component:
/// that component becomes the final one, so `file_name` gives it back and
/// `parent` gives a path equal (by `Path`'s `==`) to `base`. It says nothing
/// of other tails.
#[verifier::external_body]
pub(crate) fn push(base: &str, tail: &str) -> (r: String)
    ensures
        r@ == path_push(base@, tail@),
        plain_component(tail@) ==> path_file_name(r@) == Some(tail@),
        plain_component(tail@) ==> path_parent(r@) is Some,
        plain_component(tail@) ==> path_eq(path_parent(r@)->0, base@),
{
    let mut p = std::path::PathBuf::from(base);
    p.push(tail);
    p.to_string_lossy().into_owned()
}

/// std's `==` on `Path`. The contract names the result and says nothing more
/// of it.
#[verifier::external_body]
pub(crate) fn same_path(a: &str, b: &str) -> (r: bool)
    ensures
        r == path_eq(a@, b@),
{
    std::path::Path::new(a) == std::path::Path::new(b)
}

} // verus!
