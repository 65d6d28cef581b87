//! Slash-separated file system paths held as text.
use vstd::prelude::*;

use crate::text::{push_char, push_str, string_views, to_owned_string};

verus! {

/// The path `base` extended by the relative path `name`: a separator goes
/// between them unless `base` is empty or already ends with one.
pub open spec fn join_spec(base: Seq<char>, name: Seq<char>) -> Seq<char> {
    if base.len() == 0 {
        name
    } else if base.last() == '/' {
        base + name
    } else {
        base + seq!['/'] + name
    }
}

/// A relative path that `join_spec` appends as it stands.
pub open spec fn is_relative_name(name: Seq<char>) -> bool {
    name.len() > 0 && name[0] != '/'
}

/// The path `base` extended by the relative path `name`, as `Path::join` does
/// for such a name: a separator goes between them unless `base` is empty or
/// already ends with one.
pub(crate) fn path_join(base: &str, name: &str) -> (r: String)
    requires
        is_relative_name(name@),
    ensures
        r@ == join_spec(base@, name@),
{
    let n = base.unicode_len();
    let mut r = to_owned_string(base);
    if n > 0 && base.get_char(n - 1) != '/' {
        push_char(&mut r, '/');
    }
    push_str(&mut r, name);
    r
}

/// What `Path::parent` gives for a path: the path without its final component.
pub uninterp spec fn path_parent(path: Seq<char>) -> Option<Seq<char>>;

/// `Path::parent`: the path without its final component, or `None` when the path
/// ends in a root or is empty. Its result is named by `path_parent`; the component
/// rules behind it are not restated here.
#[verifier::external_body]
pub(crate) fn parent_of(path: &str) -> (r: Option<String>)
    ensures
        match r {
            Some(p) => path_parent(path@) == Some(p@),
            None => path_parent(path@) == None::<Seq<char>>,
        },
{
    match std::path::Path::new(path).parent() {
        Some(parent) => Some(parent.to_string_lossy().into_owned()),
        None => None,
    }
}

/// Whether a path is absolute: on Unix, whether it starts with the root `/`.
pub fn is_absolute(path: &str) -> (b: bool)
    ensures
        b == (path@.len() > 0 && path@[0] == '/'),
{
    let n = path.unicode_len();
    n > 0 && path.get_char(0) == '/'
}

/// What `Path`'s `==` gives for two paths (it compares their components).
pub uninterp spec fn path_equiv(a: Seq<char>, b: Seq<char>) -> bool;

/// What `Path`'s `<` gives for two paths (it compares their components).
pub uninterp spec fn path_before(a: Seq<char>, b: Seq<char>) -> bool;

/// `Path == Path`: whether two paths have the same components. Its result is
/// named by `path_equiv`; the only fact stated is that a path equals itself.
#[verifier::external_body]
pub(crate) fn paths_equal(a: &str, b: &str) -> (r: bool)
    ensures
        r == path_equiv(a@, b@),
        a@ == b@ ==> r,
{
    std::path::Path::new(a) == std::path::Path::new(b)
}

/// `Path < Path`: whether the first path sorts before the second by components.
/// Its result is named by `path_before`.
#[verifier::external_body]
pub(crate) fn path_less(a: &str, b: &str) -> (r: bool)
    ensures
        r == path_before(a@, b@),
{
    std::path::Path::new(a) < std::path::Path::new(b)
}

/// `<[PathBuf]>::sort`: per its documentation, the same paths reordered into
/// ascending order (`Path`'s order, which compares components). Stated here:
/// the texts are the same multiset, and no path sorts before an earlier one.
#[verifier::external_body]
pub(crate) fn sort_paths(paths: Vec<String>) -> (r: Vec<String>)
    ensures
        string_views(r@).to_multiset() == string_views(paths@).to_multiset(),
        forall|a: int, b: int| 0 <= a < b < r@.len() ==> !path_before((#[trigger] r@[b])@, (#[trigger] r@[a])@),
{
    let mut sorted: Vec<std::path::PathBuf> = paths.into_iter().map(std::path::PathBuf::from).collect();
    sorted.sort();
    sorted.into_iter().map(|p| p.to_string_lossy().into_owned()).collect()
}

} // verus!
