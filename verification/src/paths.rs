//! Path components, as the standard library's `Path` reads them.
use vstd::prelude::*;

verus! {

/// What `Path::file_name` gives for a path: its final component, if any.
pub uninterp spec fn file_name_of(p: Seq<char>) -> Option<Seq<char>>;

/// What `Path::extension` gives for a path: the text after the last '.' of the
/// file name, if any.
pub uninterp spec fn extension_of(p: Seq<char>) -> Option<Seq<char>>;

/// What `Path::parent` gives for a path.
pub uninterp spec fn parent_of(p: Seq<char>) -> Option<Seq<char>>;

/// `std::path::Path::file_name`, read back as text (the input is UTF-8, so the
/// conversion loses nothing). The result is named, not stated.
#[verifier::external_body]
pub fn file_name(p: &str) -> (r: Option<String>)
    ensures
        r is Some <==> file_name_of(p@) is Some,
        r is Some ==> r.unwrap()@ == file_name_of(p@).unwrap(),
{
    std::path::Path::new(p).file_name().map(|n| n.to_string_lossy().into_owned())
}

/// `std::path::Path::extension`, read back as text. The result is named, not stated.
#[verifier::external_body]
pub fn extension(p: &str) -> (r: Option<String>)
    ensures
        r is Some <==> extension_of(p@) is Some,
        r is Some ==> r.unwrap()@ == extension_of(p@).unwrap(),
{
    std::path::Path::new(p).extension().map(|e| e.to_string_lossy().into_owned())
}

/// `std::path::Path::parent`, read back as text. The result is named, not stated.
#[verifier::external_body]
pub fn parent(p: &str) -> (r: Option<String>)
    ensures
        r is Some <==> parent_of(p@) is Some,
        r is Some ==> r.unwrap()@ == parent_of(p@).unwrap(),
{
    std::path::Path::new(p).parent().map(|d| d.to_string_lossy().into_owned())
}

/// What `Path::strip_prefix` gives: the path relative to `base` when `base`
/// is a leading run of its components.
pub uninterp spec fn strip_prefix_of(p: Seq<char>, base: Seq<char>) -> Option<Seq<char>>;

/// `std::path::Path::strip_prefix`, read back as text. The result is named,
/// not stated.
#[verifier::external_body]
pub fn strip_prefix(p: &str, base: &str) -> (r: Option<String>)
    ensures
        r is Some <==> strip_prefix_of(p@, base@) is Some,
        r is Some ==> r.unwrap()@ == strip_prefix_of(p@, base@).unwrap(),
{
    std::path::Path::new(p).strip_prefix(base).ok().map(|r| r.to_string_lossy().into_owned())
}

/// What `Path::join` gives for a directory and a name: the name pushed onto
/// the directory as one more component.
pub uninterp spec fn joined_of(dir: Seq<char>, name: Seq<char>) -> Seq<char>;

/// `std::path::Path::join`, read back as text. The result is named, not stated.
#[verifier::external_body]
pub fn join(dir: &str, name: &str) -> (r: String)
    ensures
        r@ == joined_of(dir@, name@),
{
    std::path::Path::new(dir).join(name).to_string_lossy().into_owned()
}

/// What `==` on two `Path`s gives: whether their components are equal.
pub uninterp spec fn same_path_of(a: Seq<char>, b: Seq<char>) -> bool;

/// `==` on `std::path::Path`. The result is named, not stated.
#[verifier::external_body]
pub fn same_path(a: &str, b: &str) -> (r: bool)
    ensures
        r == same_path_of(a@, b@),
{
    std::path::Path::new(a) == std::path::Path::new(b)
}

/// What `Path::starts_with` gives: whether `base` is a leading run of the
/// path's components.
pub uninterp spec fn starts_with_of(p: Seq<char>, base: Seq<char>) -> bool;

/// `std::path::Path::starts_with`, which its documentation says considers
/// whole components only: whether the base's components lead the path's.
#[verifier::external_body]
pub fn starts_with(p: &str, base: &str) -> (r: bool)
    ensures
        r == starts_with_of(p@, base@),
        r == (components_of(base@).len() <= components_of(p@).len() && components_of(p@).take(
            components_of(base@).len() as int,
        ) == components_of(base@)),
{
    std::path::Path::new(p).starts_with(base)
}

/// What `Path::components` gives, each component read back as text.
pub uninterp spec fn components_of(p: Seq<char>) -> Seq<Seq<char>>;

/// `std::path::Path::components`, each component read back as text. The
/// result is named, not stated.
#[verifier::external_body]
pub fn components(p: &str) -> (r: Vec<String>)
    ensures
        r@.map_values(|c: String| c@) == components_of(p@),
{
    std::path::Path::new(p).components().map(|c| c.as_os_str().to_string_lossy().into_owned()).collect()
}

/// What `<` on two `Path`s gives: the order of their components.
pub uninterp spec fn path_lt_of(a: Seq<char>, b: Seq<char>) -> bool;

/// `sort` on a list of `std::path::PathBuf`s, read back as text. The result
/// holds the same paths, none before one that orders (by `Path`'s `<`) before
/// it. The sort is stable; that is not stated here.
#[verifier::external_body]
pub fn sort_paths(paths: Vec<String>) -> (r: Vec<String>)
    ensures
        r@.map_values(|s: String| s@).to_multiset() == paths@.map_values(|s: String| s@).to_multiset(),
        forall|i: int, j: int| 0 <= i < j < r@.len() ==> !path_lt_of(#[trigger] r@[j]@, #[trigger] r@[i]@),
{
    let mut v: Vec<std::path::PathBuf> = paths.into_iter().map(std::path::PathBuf::from).collect();
    v.sort();
    v.into_iter().map(|p| p.to_string_lossy().into_owned()).collect()
}

} // verus!
