//! Logical-path splitting and the hash-bearing published filename:
//! `assets/application.js` becomes `assets/application-<hash>.js`, with
//! every directory segment and the extension preserved.

use vstd::prelude::*;
use crate::errors::BundleError;

verus! {

/// The index of the last occurrence of `c` in `s`, or `-1` when `s` has
/// none.
pub open spec fn last_index_of(s: Seq<char>, c: char) -> int
    decreases s.len(),
{
    if s.len() == 0 {
        -1
    } else if s.last() == c {
        s.len() - 1
    } else {
        last_index_of(s.drop_last(), c)
    }
}

pub proof fn lemma_last_index_of_bounds(s: Seq<char>, c: char)
    ensures
        -1 <= last_index_of(s, c) < s.len(),
        last_index_of(s, c) >= 0 ==> s[last_index_of(s, c)] == c,
        forall|i: int| last_index_of(s, c) < i < s.len() ==> s[i] != c,
    decreases s.len(),
{
    if s.len() > 0 && s.last() != c {
        lemma_last_index_of_bounds(s.drop_last(), c);
        assert forall|i: int| last_index_of(s, c) < i < s.len() implies s[i] != c by {
            if i < s.len() - 1 {
                assert(s[i] == s.drop_last()[i]);
            }
        }
    }
}

pub proof fn lemma_last_index_of_characterize(s: Seq<char>, c: char, k: int)
    requires
        0 <= k < s.len(),
        s[k] == c,
        forall|i: int| k < i < s.len() ==> s[i] != c,
    ensures
        last_index_of(s, c) == k,
    decreases s.len(),
{
    if k < s.len() - 1 {
        assert(s.last() != c);
        assert(forall|i: int| k < i < s.len() - 1 ==> s.drop_last()[i] == s[i]);
        lemma_last_index_of_characterize(s.drop_last(), c, k);
    }
}

/// Where the final filename of `p` begins: one past the last slash.
pub open spec fn filename_start(p: Seq<char>) -> int {
    last_index_of(p, '/') + 1
}

/// The path's final segment has a stem and a single non-empty extension:
/// its last dot lies strictly inside the segment, with at least one
/// character on each side.  Dot-files such as `.gitignore` and
/// extensionless names are rejected.
pub open spec fn path_has_extension(p: Seq<char>) -> bool {
    let d = last_index_of(p, '.');
    filename_start(p) < d < p.len() - 1
}

/// The extension of `p`, without the dot; meaningful only when
/// `path_has_extension(p)` holds.
pub open spec fn extension_of(p: Seq<char>) -> Seq<char> {
    p.skip(last_index_of(p, '.') + 1)
}

/// The published path: `h` is spliced in between the stem and the
/// extension of the final segment, separated by a dash.
pub open spec fn spec_splice_hash(p: Seq<char>, h: Seq<char>) -> Seq<char> {
    let d = last_index_of(p, '.');
    p.take(d) + seq!['-'] + h + p.skip(d)
}

/// Finds the last occurrence of `c` in `s`.
pub fn str_last_index_of(s: &str, c: char) -> (r: Option<usize>)
    ensures
        r matches Some(i) ==> i == last_index_of(s@, c) && i < s@.len(),
        r is None ==> last_index_of(s@, c) == -1,
{
    let len = s.unicode_len();
    let mut j: usize = len;
    proof {
        assert(s@.take(len as int) =~= s@);
    }
    while j > 0
        invariant
            0 <= j <= len,
            len == s@.len(),
            last_index_of(s@, c) == last_index_of(s@.take(j as int), c),
        decreases j,
    {
        let ghost prefix = s@.take(j as int);
        proof {
            assert(prefix.drop_last() =~= s@.take(j - 1));
            assert(prefix.last() == s@[j - 1]);
        }
        if s.get_char(j - 1) == c {
            return Some(j - 1);
        }
        j -= 1;
    }
    proof {
        assert(s@.take(0) =~= Seq::<char>::empty());
    }
    None
}

/// Splices `hash` into `path` right before the extension of its final
/// segment.  A path without an extension is a hard error: the hashed
/// naming scheme is undefined for it.
pub fn splice_hash(path: &str, hash: &str) -> (r: Result<String, BundleError>)
    ensures
        r is Ok <==> path_has_extension(path@),
        r matches Ok(p) ==> p@ == spec_splice_hash(path@, hash@),
        r matches Err(e) ==> e matches BundleError::MissingExtension(q) && q@ == path@,
{
    proof {
        lemma_last_index_of_bounds(path@, '.');
        lemma_last_index_of_bounds(path@, '/');
    }
    let len = path.unicode_len();
    let dot = str_last_index_of(path, '.');
    let slash = str_last_index_of(path, '/');
    let filename_from: usize = match slash {
        Some(i) => i + 1,
        None => 0,
    };
    match dot {
        Some(d) if filename_from < d && d < len - 1 => {
            let mut out = path.substring_char(0, d).to_owned();
            out.append("-");
            out.append(hash);
            out.append(path.substring_char(d, len));
            proof {
                reveal_strlit("-");
                assert("-"@ =~= seq!['-']);
                assert(path@.subrange(0, d as int) =~= path@.take(d as int));
                assert(path@.subrange(d as int, len as int) =~= path@.skip(d as int));
                assert(out@ =~= spec_splice_hash(path@, hash@));
            }
            Ok(out)
        },
        _ => {
            Err(BundleError::MissingExtension(path.to_owned()))
        },
    }
}

/// One value for one input: any two results of splicing the same hash into
/// the same path are the same published path.
pub proof fn lemma_splice_hash_deterministic(
    p: Seq<char>,
    h: Seq<char>,
    r1: Seq<char>,
    r2: Seq<char>,
)
    requires
        r1 == spec_splice_hash(p, h),
        r2 == spec_splice_hash(p, h),
    ensures
        r1 == r2,
{
}

/// Distinct digests of equal width give distinct published paths for the
/// same logical path, so changed content can never hide behind a stale
/// published file.
pub proof fn lemma_splice_hash_differentiates(p: Seq<char>, h1: Seq<char>, h2: Seq<char>)
    requires
        path_has_extension(p),
        h1.len() == h2.len(),
        h1 != h2,
    ensures
        spec_splice_hash(p, h1) != spec_splice_hash(p, h2),
{
    lemma_last_index_of_bounds(p, '.');
    lemma_last_index_of_bounds(p, '/');
    let d = last_index_of(p, '.');
    let s1 = spec_splice_hash(p, h1);
    let s2 = spec_splice_hash(p, h2);
    if s1 == s2 {
        assert forall|i: int| 0 <= i < h1.len() implies h1[i] == h2[i] by {
            assert(s1[d + 1 + i] == h1[i]);
            assert(s2[d + 1 + i] == h2[i]);
        }
        assert(h1 =~= h2);
    }
}

/// The extension survives hashing: the published path again has a single
/// extension, and it is the logical path's one.  The digest text is
/// assumed free of dots and slashes, as a hexadecimal digest is.
pub proof fn lemma_splice_hash_preserves_extension(p: Seq<char>, h: Seq<char>)
    requires
        path_has_extension(p),
        forall|i: int| 0 <= i < h.len() ==> h[i] != '.' && h[i] != '/',
    ensures
        path_has_extension(spec_splice_hash(p, h)),
        extension_of(spec_splice_hash(p, h)) == extension_of(p),
{
    lemma_last_index_of_bounds(p, '.');
    lemma_last_index_of_bounds(p, '/');
    let d = last_index_of(p, '.');
    let s = spec_splice_hash(p, h);
    let sd = d + 1 + h.len();
    assert(s[sd] == p[d]);
    assert forall|i: int| sd < i < s.len() implies s[i] != '.' by {
        assert(s[i] == p[i - 1 - h.len()]);
    }
    lemma_last_index_of_characterize(s, '.', sd);
    assert(extension_of(s) =~= extension_of(p));
    assert forall|i: int| d <= i < s.len() implies s[i] != '/' by {
        if i == d {
            assert(s[i] == '-');
        } else if i < sd {
            assert(s[i] == h[i - d - 1]);
        } else {
            assert(s[i] == p[i - 1 - h.len()]);
        }
    }
    lemma_last_index_of_bounds(s, '/');
    assert(last_index_of(s, '/') < d);
}

/// Every directory segment of the logical path is carried over unchanged,
/// in order: through its last slash the published path is identical to the
/// logical path.
pub proof fn lemma_splice_hash_preserves_directories(p: Seq<char>, h: Seq<char>)
    requires
        path_has_extension(p),
    ensures
        spec_splice_hash(p, h).take(filename_start(p)) == p.take(filename_start(p)),
{
    lemma_last_index_of_bounds(p, '.');
    lemma_last_index_of_bounds(p, '/');
    assert(spec_splice_hash(p, h).take(filename_start(p)) =~= p.take(filename_start(p)));
}

} // verus!
