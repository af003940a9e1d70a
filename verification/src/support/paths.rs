//! Filesystem-path arithmetic on text, as `std::path` does it. The named
//! results are those of the target the library is built for: on Unix
//! targets `/` separates the components of a path.

use vstd::prelude::*;

verus! {

/// The parent that `std::path::Path::parent` gives for a path written as
/// text, if it has one.
pub uninterp spec fn path_parent_of(path: Seq<char>) -> Option<Seq<char>>;

/// The path that `std::path::Path::join` makes of a base and a further part.
pub uninterp spec fn path_join_of(base: Seq<char>, part: Seq<char>) -> Seq<char>;

/// `std::path::Path::parent` of `path`, as text.
#[verifier::external_body]
pub(crate) fn path_parent(path: &str) -> (r: Option<String>)
    ensures
        match r {
            Some(p) => path_parent_of(path@) == Some(p@),
            None => path_parent_of(path@) is None,
        },
{
    std::path::Path::new(path).parent().map(|p| p.to_string_lossy().into_owned())
}

/// `std::path::Path::join` of `base` and `part`, as text.
#[verifier::external_body]
pub(crate) fn path_join(base: &str, part: &str) -> (r: String)
    ensures
        r@ == path_join_of(base@, part@),
{
    std::path::Path::new(base).join(part).to_string_lossy().into_owned()
}

} // verus!

verus! {

/// The final component of a path that `std::path::Path::file_name` gives,
/// if it has one.
pub uninterp spec fn path_file_name_of(path: Seq<char>) -> Option<Seq<char>>;

/// The file name without its extension that `std::path::Path::file_stem`
/// gives, if there is one.
pub uninterp spec fn path_stem_of(path: Seq<char>) -> Option<Seq<char>>;

/// The extension that `std::path::Path::extension` gives, if there is one.
pub uninterp spec fn path_extension_of(path: Seq<char>) -> Option<Seq<char>>;

/// `std::path::Path::file_name` of `path`, as text.
#[verifier::external_body]
pub(crate) fn path_file_name(path: &str) -> (r: Option<String>)
    ensures
        r is Some == path_file_name_of(path@) is Some,
        r matches Some(n) ==> path_file_name_of(path@) == Some(n@),
{
    std::path::Path::new(path).file_name().map(|n| n.to_string_lossy().into_owned())
}

/// `std::path::Path::file_stem` of `path`, as text.
#[verifier::external_body]
pub(crate) fn path_file_stem(path: &str) -> (r: Option<String>)
    ensures
        r is Some == path_stem_of(path@) is Some,
        r matches Some(n) ==> path_stem_of(path@) == Some(n@),
{
    std::path::Path::new(path).file_stem().map(|n| n.to_string_lossy().into_owned())
}

/// `std::path::Path::extension` of `path`, as text.
#[verifier::external_body]
pub(crate) fn path_extension(path: &str) -> (r: Option<String>)
    ensures
        r is Some == path_extension_of(path@) is Some,
        r matches Some(n) ==> path_extension_of(path@) == Some(n@),
{
    std::path::Path::new(path).extension().map(|n| n.to_string_lossy().into_owned())
}

} // verus!
