//! Upward search for a project file, shared with the application search.
//! Copying the project's static folder lives with the binary, which owns
//! all filesystem traversal.

use vstd::prelude::*;
use crate::application::spec_search_dirs;

verus! {

/// Probes `directory/target`, then each parent directory in turn, and
/// hands back the first present path; the result, if any, is one of the
/// candidate paths of the search.
pub fn search_in_directory(directory: String, target_file_with_extension: &str) -> (r: Option<
    String,
>)
    ensures
        r matches Some(p) ==> spec_search_dirs(directory@, target_file_with_extension@).contains(
            p@,
        ),
{
    crate::application::search_in_directory(directory, target_file_with_extension)
}

/// Searches for `target_file_with_extension` in the starting directory
/// and each of its parents; the result, if any, is one of the search's
/// candidate paths.
pub fn in_parent_directories(starting_directory: &str, target_file_with_extension: &str) -> (r:
    Option<String>)
    ensures
        r matches Some(p) ==> spec_search_dirs(
            starting_directory@,
            target_file_with_extension@,
        ).contains(p@),
{
    crate::application::in_parent_directories(starting_directory, target_file_with_extension)
}

} // verus!
