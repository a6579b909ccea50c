//! The paths of files.
use vstd::prelude::*;

verus! {

/// The path of a file.
#[verifier::external_type_specification]
#[verifier::external_body]
pub struct ExPathBuf(std::path::PathBuf);

/// The text that `std::path::Path::display` shows for a path.
pub uninterp spec fn path_text(path: std::path::PathBuf) -> Seq<char>;

/// Calls `std::path::Path::display` and takes what it shows.
///
/// The text depends on the path alone. Which text it is is not said.
#[verifier::external_body]
pub(crate) fn shown_path(path: &std::path::PathBuf) -> (r: String)
    ensures
        r@ == path_text(*path),
{
    path.display().to_string()
}

/// `std::path::PathBuf::clone`: the copy is the same path.
pub assume_specification[ <std::path::PathBuf as Clone>::clone ](path: &std::path::PathBuf) -> (r:
    std::path::PathBuf)
    ensures
        r == *path,
;

} // verus!
