//! Upward search for an application file: starting from a directory, the
//! target file name is probed there and in each parent directory in turn.
//! Only the filesystem probe itself is outside the verified logic.

use vstd::prelude::*;
use crate::paths::last_index_of;
use crate::paths::lemma_last_index_of_bounds;

verus! {

/// One step up: the directory without its final component, following the
/// usual path rules — `a/b` to `a`, `/a` to `/`, `a` to the empty
/// directory, and no parent above the root or the empty directory.
pub open spec fn spec_parent_dir(d: Seq<char>) -> Option<Seq<char>> {
    if d.len() == 0 || d == seq!['/'] {
        None
    } else {
        let ls = last_index_of(d, '/');
        if ls == -1 {
            Some(Seq::empty())
        } else if ls == 0 {
            Some(seq!['/'])
        } else {
            Some(d.take(ls))
        }
    }
}

/// Every path the search may probe: the target joined to the starting
/// directory and to each of its parents, nearest first.
pub open spec fn spec_search_dirs(dir: Seq<char>, target: Seq<char>) -> Seq<Seq<char>>
    decreases dir.len(),
{
    let here = dir + seq!['/'] + target;
    match spec_parent_dir(dir) {
        Some(parent) => {
            if parent.len() < dir.len() {
                seq![here] + spec_search_dirs(parent, target)
            } else {
                seq![here]
            }
        },
        None => seq![here],
    }
}

pub proof fn lemma_parent_dir_shrinks(d: Seq<char>)
    ensures
        spec_parent_dir(d) matches Some(p) ==> p.len() < d.len(),
{
    if d.len() != 0 && d != seq!['/'] {
        lemma_last_index_of_bounds(d, '/');
        let ls = last_index_of(d, '/');
        if ls == 0 && d.len() == 1 {
            assert(d =~= seq!['/']);
        }
    }
}

/// Relies on `std::path::Path::exists`: whether a filesystem entry is
/// present at the path right now.  Nothing is promised of the answer; it
/// depends on the machine's disk.
#[verifier::external_body]
fn path_exists(path: &str) -> bool {
    std::path::Path::new(path).exists()
}

/// Probes `directory/target`, then each parent directory in turn, and
/// hands back the first present path; the result, if any, is one of the
/// candidate paths of the search.
pub fn search_in_directory(directory: String, target_file_with_extension: &str) -> (r: Option<
    String,
>)
    ensures
        r matches Some(p) ==> spec_search_dirs(directory@, target_file_with_extension@).contains(
            p@,
        ),
    decreases directory@.len(),
{
    let mut candidate = directory.clone();
    candidate.append("/");
    candidate.append(target_file_with_extension);
    proof {
        reveal_strlit("/");
        assert("/"@ =~= seq!['/']);
        assert(candidate@ == directory@ + seq!['/'] + target_file_with_extension@);
    }
    if path_exists(candidate.as_str()) {
        proof {
            assert(spec_search_dirs(directory@, target_file_with_extension@)[0] == candidate@);
        }
        Some(candidate)
    } else {
        match parent_dir(&directory) {
            Some(parent) => {
                proof {
                    lemma_parent_dir_shrinks(directory@);
                }
                let ghost pd = parent@;
                let r = search_in_directory(parent, target_file_with_extension);
                proof {
                    match r {
                        Some(ref p) => {
                            let inner = spec_search_dirs(pd, target_file_with_extension@);
                            let outer = spec_search_dirs(
                                directory@,
                                target_file_with_extension@,
                            );
                            assert(inner.contains(p@));
                            let w = choose|w: int| 0 <= w < inner.len() && inner[w] == p@;
                            assert(outer[w + 1] == inner[w]);
                        },
                        None => {},
                    }
                }
                r
            },
            None => None,
        }
    }
}

/// Computes the parent directory, as `spec_parent_dir` describes it.
fn parent_dir(directory: &String) -> (r: Option<String>)
    ensures
        match r {
            Some(p) => spec_parent_dir(directory@) == Some(p@),
            None => spec_parent_dir(directory@) is None,
        },
{
    let d = directory.as_str();
    let len = d.unicode_len();
    if len == 0 {
        return None;
    }
    if len == 1 && d.get_char(0) == '/' {
        proof {
            assert(d@ =~= seq!['/']);
        }
        return None;
    }
    proof {
        assert(d@ != seq!['/']);
        lemma_last_index_of_bounds(d@, '/');
    }
    match crate::paths::str_last_index_of(d, '/') {
        None => {
            let empty = String::new();
            proof {
                assert(empty@ =~= Seq::<char>::empty());
            }
            Some(empty)
        },
        Some(0) => {
            let r = "/".to_owned();
            proof {
                reveal_strlit("/");
                assert(r@ =~= seq!['/']);
            }
            Some(r)
        },
        Some(ls) => {
            let r = d.substring_char(0, ls).to_owned();
            proof {
                assert(r@ =~= d@.take(ls as int));
            }
            Some(r)
        },
    }
}

/// Searches for `target_file_with_extension` in the starting directory
/// and each of its parents; the result, if any, is one of the search's
/// candidate paths.
pub fn in_parent_directories(starting_directory: &str, target_file_with_extension: &str) -> (r:
    Option<String>)
    ensures
        r matches Some(p) ==> spec_search_dirs(
            starting_directory@,
            target_file_with_extension@,
        ).contains(p@),
{
    search_in_directory(starting_directory.to_owned(), target_file_with_extension)
}

} // verus!
