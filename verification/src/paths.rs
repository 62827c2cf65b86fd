//! Paths as `std::path` forms them on Unix. The program locates its files
//! through `HOME` and writes paths with '/', and it is built for Unix
//! targets only: the contracts below state what `std::path` does there (on
//! Windows, for one, "/x" is not absolute and '\\' also separates).

use vstd::prelude::*;

verus! {

/// The path `Path::join` forms from `base` and `rel`.
pub uninterp spec fn joined_path(base: Seq<char>, rel: Seq<char>) -> Seq<char>;

/// `Path::new(base).join(rel)`, as a string. The documentation of
/// `Path::join` and `PathBuf::push` states that an absolute `rel` (on Unix,
/// one that starts with '/') replaces `base`, and that a relative `rel` is
/// adjoined after a separator; the contract states the latter only where
/// `base` is non-empty and does not already end with '/'. Other cases are
/// left to the name.
#[verifier::external_body]
pub(crate) fn path_join(base: &str, rel: &str) -> (r: String)
    ensures
        r@ == joined_path(base@, rel@),
        rel@.len() > 0 && rel@[0] == '/' ==> r@ == rel@,
        base@.len() > 0 && base@.last() != '/' && rel@.len() > 0 && rel@[0] != '/' ==> r@
            == base@ + seq!['/'] + rel@,
{
    std::path::Path::new(base).join(rel).to_string_lossy().into_owned()
}

/// Whether a path is absolute: on Unix, whether it starts with '/'.
pub open spec fn absolute(p: Seq<char>) -> bool {
    p.len() > 0 && p[0] == '/'
}

/// `Path::is_absolute`. Its documentation states that on Unix a path is
/// absolute exactly when it has a root, which is when it begins with '/'.
/// This contract is Unix's, the only kind of target this library is for.
#[verifier::external_body]
pub(crate) fn path_is_absolute(p: &str) -> (r: bool)
    ensures
        r == absolute(p@),
{
    std::path::Path::new(p).is_absolute()
}

/// A path segment: non-empty, without '/'.
pub open spec fn segment(s: Seq<char>) -> bool {
    s.len() > 0 && forall|i: int| 0 <= i < s.len() ==> s[i] != '/'
}

/// What follows the last '/' of a path (all of it when it has none).
pub open spec fn last_segment(p: Seq<char>) -> Seq<char>
    decreases p.len(),
{
    if p.len() == 0 || p.last() == '/' {
        Seq::empty()
    } else {
        last_segment(p.drop_last()).push(p.last())
    }
}

/// The number of components `Path::components` yields for a path.
pub uninterp spec fn component_count(p: Seq<char>) -> nat;

/// `Path::new(p).components().count()`. The documentation of
/// `Path::components` states that a path splits at its separators, that
/// empty parts and "." other than at the start are dropped, and that a "."
/// at the start is kept. So a single segment is one component, and two
/// segments joined by '/', the second not ".", are two. The count of other
/// paths is left to the name.
#[verifier::external_body]
pub(crate) fn path_component_count(p: &str) -> (r: usize)
    ensures
        r as nat == component_count(p@),
        segment(p@) ==> r == 1,
        p@.len() > last_segment(p@).len() + 1 && segment(last_segment(p@)) && last_segment(p@) != seq!['.']
            && segment(p@.take(p@.len() - last_segment(p@).len() - 1)) ==> r == 2,
{
    std::path::Path::new(p).components().count()
}

/// The final component `Path::file_name` yields for a path, as a string;
/// empty where it yields none.
pub uninterp spec fn final_component(p: Seq<char>) -> Seq<char>;

/// `Path::new(p).file_name()` as a string, or "" where it yields none. The
/// documentation of `Path::file_name` states that it yields the final
/// component when that is a normal name: so for a path that does not end
/// in '/' and whose last segment is neither "." nor "..", it is that last
/// segment. Other cases are left to the name.
#[verifier::external_body]
pub(crate) fn path_file_name(p: &str) -> (r: String)
    ensures
        r@ == final_component(p@),
        last_segment(p@).len() > 0 && last_segment(p@) != seq!['.'] && last_segment(p@) != seq!['.', '.'] ==> r@
            == last_segment(p@),
{
    match std::path::Path::new(p).file_name() {
        Some(n) => n.to_string_lossy().into_owned(),
        None => String::new(),
    }
}

} // verus!
