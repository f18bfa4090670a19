//! Content-addressed filenames: an MD5 digest of the staged text is
//! spliced into the logical path.  The digest defends against stale
//! caches, not tampering, so a non-cryptographic hash is deliberate.

use vstd::prelude::*;
use crate::errors::BundleError;
use crate::paths::path_has_extension;
use crate::paths::spec_splice_hash;
use crate::paths::splice_hash;

verus! {

/// `c` is a lower-case hexadecimal digit.
pub open spec fn is_lower_hex_digit(c: char) -> bool {
    ('0' <= c && c <= '9') || ('a' <= c && c <= 'f')
}

/// The hexadecimal MD5 digest of a text, as `md5::compute` derives it:
/// a function of the content alone, the same in every process.
pub uninterp spec fn md5_hex_of(content: Seq<char>) -> Seq<char>;

/// Relies on `md5::compute` and the `LowerHex` rendering of its digest:
/// sixteen bytes, written as two lower-case hexadecimal digits each, a
/// function of the input bytes alone.
#[verifier::external_body]
fn md5_hex(content: &str) -> (r: String)
    ensures
        r@ == md5_hex_of(content@),
        r@.len() == 32,
        forall|i: int| 0 <= i < r@.len() ==> is_lower_hex_digit(r@[i]),
{
    format!("{:x}", md5::compute(content.as_bytes()))
}

/// The published path of a logical path with the given staged content.
pub open spec fn spec_derive_published_path(path: Seq<char>, content: Seq<char>) -> Seq<char> {
    spec_splice_hash(path, md5_hex_of(content))
}

/// Derives the hash-bearing published filename for one staged asset.
/// Succeeds exactly on paths whose final segment has an extension.
pub fn derive_published_path(logical_path: &str, content: &str) -> (r: Result<
    String,
    BundleError,
>)
    ensures
        r is Ok <==> path_has_extension(logical_path@),
        r matches Ok(p) ==> p@ == spec_derive_published_path(logical_path@, content@),
        r matches Err(e) ==> e matches BundleError::MissingExtension(q) && q@ == logical_path@,
{
    let hash = md5_hex(content);
    splice_hash(logical_path, hash.as_str())
}

/// Publishing is reproducible: for one `(logical_path, content)` pair every
/// derivation, in any process, names the same published path.
pub proof fn lemma_derive_published_path_deterministic(
    path: Seq<char>,
    content: Seq<char>,
    r1: Seq<char>,
    r2: Seq<char>,
)
    requires
        r1 == spec_derive_published_path(path, content),
        r2 == spec_derive_published_path(path, content),
    ensures
        r1 == r2,
{
}

} // verus!
