//! What the library takes from `std::path` about a path written as text.
//! `Path` follows the platform's rules on components, separators and dots;
//! those rules are not restated here, so each result is named, as a
//! function of the path text alone.

use vstd::prelude::*;

verus! {

/// What `Path::strip_prefix(base)` leaves of `path`, if `base` is a prefix of it.
pub uninterp spec fn path_strip_prefix(path: Seq<char>, base: Seq<char>) -> Option<Seq<char>>;

/// What `Path::extension` gives for `path`.
pub uninterp spec fn path_extension(path: Seq<char>) -> Option<Seq<char>>;

/// What `Path::file_name` gives for `path`.
pub uninterp spec fn path_file_name(path: Seq<char>) -> Option<Seq<char>>;

/// What `Path::file_stem` gives for `path`.
pub uninterp spec fn path_file_stem(path: Seq<char>) -> Option<Seq<char>>;

/// What `Path::parent` gives for `path`.
pub uninterp spec fn path_parent(path: Seq<char>) -> Option<Seq<char>>;

/// Calls `std::path::Path::strip_prefix`: the part of `path` that follows the
/// components of `base`, or `None` where `base` is not a prefix of `path`.
/// The contract claims that the result is the named one, and that the rest is
/// shorter than `path` when `base` is not empty (it is the part of `path`
/// after at least one component).
#[verifier::external_body]
pub(crate) fn strip_path_prefix(path: &str, base: &str) -> (r: Option<String>)
    ensures
        r matches Some(rest) ==> path_strip_prefix(path@, base@) == Some(rest@),
        r matches Some(rest) ==> (base@.len() > 0 ==> rest@.len() < path@.len()),
        r is None ==> path_strip_prefix(path@, base@) is None,
{
    match std::path::Path::new(path).strip_prefix(base) {
        Ok(rest) => Some(rest.to_string_lossy().into_owned()),
        Err(_) => None,
    }
}

/// Calls `std::path::Path::extension`: the part of the file name after its
/// last dot, if the file name has one that does not start it. The contract
/// claims only that the result is the named one.
#[verifier::external_body]
pub(crate) fn extension(path: &str) -> (r: Option<String>)
    ensures
        r matches Some(e) ==> path_extension(path@) == Some(e@),
        r is None ==> path_extension(path@) is None,
{
    match std::path::Path::new(path).extension() {
        Some(e) => Some(e.to_string_lossy().into_owned()),
        None => None,
    }
}

/// Calls `std::path::Path::file_name`: the last component of `path` unless it
/// is `..`. The contract claims that the result is the named one, and, as the
/// documentation of `Path::extension` says the extension is taken from the
/// file name, that there is a file name wherever there is an extension.
#[verifier::external_body]
pub(crate) fn file_name(path: &str) -> (r: Option<String>)
    ensures
        r matches Some(f) ==> path_file_name(path@) == Some(f@),
        r is None ==> path_file_name(path@) is None,
        path_extension(path@) is Some ==> r is Some,
{
    match std::path::Path::new(path).file_name() {
        Some(f) => Some(f.to_string_lossy().into_owned()),
        None => None,
    }
}


/// Calls `std::path::Path::file_stem`: the file name without its extension.
/// The contract claims only that the result is the named one.
#[verifier::external_body]
pub(crate) fn file_stem(path: &str) -> (r: Option<String>)
    ensures
        r matches Some(f) ==> path_file_stem(path@) == Some(f@),
        r is None ==> path_file_stem(path@) is None,
{
    match std::path::Path::new(path).file_stem() {
        Some(f) => Some(f.to_string_lossy().into_owned()),
        None => None,
    }
}

/// Calls `std::path::Path::parent`: the path without its last component.
/// The contract claims only that the result is the named one.
#[verifier::external_body]
pub(crate) fn parent(path: &str) -> (r: Option<String>)
    ensures
        r matches Some(p) ==> path_parent(path@) == Some(p@),
        r is None ==> path_parent(path@) is None,
{
    match std::path::Path::new(path).parent() {
        Some(p) => Some(p.to_string_lossy().into_owned()),
        None => None,
    }
}

} // verus!
