//! File system paths, handled as text. The component-wise operations are
//! `std::path`'s; the checks that read the disk say nothing of their result.
use vstd::prelude::*;

verus! {

/// Whether `p` lies under `base`, component by component
/// (`std::path::Path::starts_with`).
pub uninterp spec fn path_within(p: Seq<char>, base: Seq<char>) -> bool;

/// `base` joined with `rel` (`std::path::Path::join`).
pub uninterp spec fn joined(base: Seq<char>, rel: Seq<char>) -> Seq<char>;

/// The last component of `p` (`std::path::Path::file_name`).
pub uninterp spec fn file_name_of(p: Seq<char>) -> Option<Seq<char>>;

/// The last component of `p` without its extension (`std::path::Path::file_stem`).
pub uninterp spec fn file_stem_of(p: Seq<char>) -> Option<Seq<char>>;

/// The extension of `p` (`std::path::Path::extension`).
pub uninterp spec fn extension_of(p: Seq<char>) -> Option<Seq<char>>;

/// `p` without its last component (`std::path::Path::parent`).
pub uninterp spec fn parent_of(p: Seq<char>) -> Option<Seq<char>>;

/// Whether `a` orders before `b` (`<` of `std::path::Path`, component by
/// component).
pub uninterp spec fn path_before(a: Seq<char>, b: Seq<char>) -> bool;

/// Whether `a` and `b` name the same path (`==` of `std::path::Path`,
/// component by component).
pub uninterp spec fn same_path(a: Seq<char>, b: Seq<char>) -> bool;

/// `p` relative to `base` (`std::path::Path::strip_prefix`).
pub uninterp spec fn stripped(p: Seq<char>, base: Seq<char>) -> Option<Seq<char>>;

/// `Path::new(p).starts_with(base)`.
/// Claims: the result is the one [`path_within`] names.
#[verifier::external_body]
pub(crate) fn path_starts_with(p: &str, base: &str) -> (r: bool)
    ensures
        r == path_within(p@, base@),
{
    std::path::Path::new(p).starts_with(base)
}

/// `Path::new(base).join(rel)`, as text.
/// Claims: the result is the one [`joined`] names.
#[verifier::external_body]
pub(crate) fn path_join(base: &str, rel: &str) -> (r: String)
    ensures
        r@ == joined(base@, rel@),
{
    std::path::Path::new(base).join(rel).to_string_lossy().into_owned()
}

/// `Path::new(p).file_name()`, as text.
/// Claims: the result is the one [`file_name_of`] names.
#[verifier::external_body]
pub(crate) fn path_file_name(p: &str) -> (r: Option<String>)
    ensures
        match r {
            Some(n) => file_name_of(p@) == Some(n@),
            None => file_name_of(p@) is None,
        },
{
    std::path::Path::new(p).file_name().map(|n| n.to_string_lossy().into_owned())
}

/// `Path::new(p).file_stem()`, as text.
/// Claims: the result is the one [`file_stem_of`] names.
#[verifier::external_body]
pub(crate) fn path_file_stem(p: &str) -> (r: Option<String>)
    ensures
        match r {
            Some(n) => file_stem_of(p@) == Some(n@),
            None => file_stem_of(p@) is None,
        },
{
    std::path::Path::new(p).file_stem().map(|n| n.to_string_lossy().into_owned())
}

/// `Path::new(p).extension()`, as text.
/// Claims: the result is the one [`extension_of`] names.
#[verifier::external_body]
pub(crate) fn path_extension(p: &str) -> (r: Option<String>)
    ensures
        match r {
            Some(n) => extension_of(p@) == Some(n@),
            None => extension_of(p@) is None,
        },
{
    std::path::Path::new(p).extension().map(|n| n.to_string_lossy().into_owned())
}

/// `Path::new(p).parent()`, as text.
/// Claims: the result is the one [`parent_of`] names, and a parent is
/// shorter than the path (it is the path without its last component).
#[verifier::external_body]
pub(crate) fn path_parent(p: &str) -> (r: Option<String>)
    ensures
        match r {
            Some(q) => parent_of(p@) == Some(q@) && q@.len() < p@.len(),
            None => parent_of(p@) is None,
        },
{
    std::path::Path::new(p).parent().map(|q| q.to_string_lossy().into_owned())
}

/// `Path::new(p).strip_prefix(base)`, as text.
/// Claims: the result is the one [`stripped`] names.
#[verifier::external_body]
pub(crate) fn path_strip_prefix(p: &str, base: &str) -> (r: Option<String>)
    ensures
        match r {
            Some(q) => stripped(p@, base@) == Some(q@),
            None => stripped(p@, base@) is None,
        },
{
    match std::path::Path::new(p).strip_prefix(base) {
        Ok(q) => Some(q.to_string_lossy().into_owned()),
        Err(_) => None,
    }
}

/// `Path::new(a) < Path::new(b)`.
/// Claims: the result is the one [`path_before`] names, and, as `Ord for
/// Path` is a total order, two order facts about it: when `a` orders
/// before `b`, `b` does not order before `a`; when it does not, anything
/// `a` orders before, `b` orders before too.
#[verifier::external_body]
pub(crate) fn path_lt(a: &str, b: &str) -> (r: bool)
    ensures
        r == path_before(a@, b@),
        r ==> !path_before(b@, a@),
        !r ==> forall|z: Seq<char>| #[trigger] path_before(a@, z) ==> path_before(b@, z),
{
    std::path::Path::new(a) < std::path::Path::new(b)
}

/// `Path::new(a) == Path::new(b)`.
/// Claims: the result is the one [`same_path`] names.
#[verifier::external_body]
pub(crate) fn path_eq(a: &str, b: &str) -> (r: bool)
    ensures
        r == same_path(a@, b@),
{
    std::path::Path::new(a) == std::path::Path::new(b)
}

/// `Path::new(p).is_file()`. Reads the disk: nothing is stated of the result.
#[verifier::external_body]
pub(crate) fn path_is_file(p: &str) -> bool {
    std::path::Path::new(p).is_file()
}

/// `Path::new(p).exists()`. Reads the disk: nothing is stated of the result.
#[verifier::external_body]
pub(crate) fn path_exists(p: &str) -> bool {
    std::path::Path::new(p).exists()
}

/// `Path::new(p).is_dir()`. Reads the disk: nothing is stated of the result.
#[verifier::external_body]
pub(crate) fn path_is_dir(p: &str) -> bool {
    std::path::Path::new(p).is_dir()
}

/// `Path::new(p).canonicalize()`, as text, keeping only the error's message.
/// Reads the disk: nothing is stated of the result.
#[verifier::external_body]
pub(crate) fn canonicalize(p: &str) -> Result<String, String> {
    match std::path::Path::new(p).canonicalize() {
        Ok(c) => Ok(c.to_string_lossy().into_owned()),
        Err(e) => Err(e.to_string()),
    }
}

/// `dirs::home_dir()`, as text. Depends on the environment: nothing is
/// stated of the result.
#[verifier::external_body]
pub(crate) fn home_dir() -> Option<String> {
    dirs::home_dir().map(|h| h.to_string_lossy().into_owned())
}

} // verus!
