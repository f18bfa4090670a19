//! Asset reference extraction from HTML entry points: the `select` crate
//! walks the parsed document, and the verified filter keeps the same-origin,
//! internal references in document order.

use vstd::prelude::*;
use crate::strutil::starts_with_ci;
use crate::strutil::str_starts_with_ci;

verus! {

pub open spec fn http_prefix() -> Seq<char> {
    seq!['h', 't', 't', 'p', ':', '/', '/']
}

pub open spec fn https_prefix() -> Seq<char> {
    seq!['h', 't', 't', 'p', 's', ':', '/', '/']
}

pub open spec fn scheme_relative_prefix() -> Seq<char> {
    seq!['/', '/']
}

pub open spec fn http_localhost_prefix() -> Seq<char> {
    seq!['h', 't', 't', 'p', ':', '/', '/', 'l', 'o', 'c', 'a', 'l', 'h', 'o', 's', 't']
}

pub open spec fn https_localhost_prefix() -> Seq<char> {
    seq!['h', 't', 't', 'p', 's', ':', '/', '/', 'l', 'o', 'c', 'a', 'l', 'h', 'o', 's', 't']
}

/// A reference leaves the build's own origin when it starts with `http://`,
/// `https://` or `//` (ASCII-case-insensitively), except for the two
/// `localhost` schemes, which point at the local dev server.  Every string
/// with one of the three prefixes also starts with an optional scheme
/// followed by `//`, so no separate pattern test is needed.
pub open spec fn is_external_uri(s: Seq<char>) -> bool {
    (starts_with_ci(s, http_prefix()) || starts_with_ci(s, https_prefix()) || starts_with_ci(
        s,
        scheme_relative_prefix(),
    )) && !starts_with_ci(s, http_localhost_prefix()) && !starts_with_ci(
        s,
        https_localhost_prefix(),
    )
}

/// Decides whether an HTML reference points outside the application.
pub fn uri_is_external(reference: &str) -> (r: bool)
    ensures
        r == is_external_uri(reference@),
{
    proof {
        reveal_strlit("http://");
        reveal_strlit("https://");
        reveal_strlit("//");
        reveal_strlit("http://localhost");
        reveal_strlit("https://localhost");
        assert("http://"@ =~= http_prefix());
        assert("https://"@ =~= https_prefix());
        assert("//"@ =~= scheme_relative_prefix());
        assert("http://localhost"@ =~= http_localhost_prefix());
        assert("https://localhost"@ =~= https_localhost_prefix());
    }
    (str_starts_with_ci(reference, "http://") || str_starts_with_ci(reference, "https://")
        || str_starts_with_ci(reference, "//")) && !str_starts_with_ci(
        reference,
        "http://localhost",
    ) && !str_starts_with_ci(reference, "https://localhost")
}

/// The references kept for publishing: non-empty and internal, in their
/// original order, duplicates preserved.
pub open spec fn keep_internal(refs: Seq<String>) -> Seq<String> {
    refs.filter(|x: String| x@.len() != 0 && !is_external_uri(x@))
}

/// Keeps the non-empty, internal references of `refs`, in order.
pub fn find_internal_assets(refs: &Vec<String>) -> (r: Vec<String>)
    ensures
        r@ == keep_internal(refs@),
{
    let ghost pred = |x: String| x@.len() != 0 && !is_external_uri(x@);
    let mut res: Vec<String> = Vec::new();
    let mut i: usize = 0;
    proof {
        reveal(Seq::filter);
        assert(refs@.take(0) =~= Seq::<String>::empty());
        assert(res@ =~= refs@.take(0).filter(pred));
    }
    while i < refs.len()
        invariant
            0 <= i <= refs@.len(),
            res@ == refs@.take(i as int).filter(pred),
            pred == (|x: String| x@.len() != 0 && !is_external_uri(x@)),
        decreases refs@.len() - i,
    {
        let reference = &refs[i];
        if !reference.as_str().is_empty() && !uri_is_external(reference.as_str()) {
            res.push(reference.clone());
        }
        i += 1;
        proof {
            reveal(Seq::filter);
            let prefix = refs@.take(i as int);
            assert(prefix.drop_last() =~= refs@.take(i - 1));
            assert(prefix.last() == refs@[i - 1]);
        }
    }
    proof {
        assert(refs@.take(refs@.len() as int) =~= refs@);
    }
    res
}

/// What `select` reads out of the document: the `src` attribute of each
/// `<script>` element, in document order, the empty string standing where
/// the attribute is absent.
pub uninterp spec fn script_srcs_of(html: Seq<char>) -> Seq<String>;

/// The `href` attribute of each `<link>` element, in document order, the
/// empty string standing where the attribute is absent.
pub uninterp spec fn link_hrefs_of(html: Seq<char>) -> Seq<String>;

/// Relies on `select`: `Document::from` parses the HTML text and
/// `find(Name("script"))` yields the script elements in document order;
/// `attr("src")` reads the attribute.  The result depends on the text alone.
#[verifier::external_body]
fn script_srcs(html: &str) -> (r: Vec<String>)
    ensures
        r@ == script_srcs_of(html@),
{
    select::document::Document::from(html)
        .find(select::predicate::Name("script"))
        .map(|node| String::from(node.attr("src").unwrap_or("")))
        .collect()
}

/// Relies on `select`: as `script_srcs`, for the `<link>` elements and their
/// `href` attribute.  The result depends on the text alone.
#[verifier::external_body]
fn link_hrefs(html: &str) -> (r: Vec<String>)
    ensures
        r@ == link_hrefs_of(html@),
{
    select::document::Document::from(html)
        .find(select::predicate::Name("link"))
        .map(|node| String::from(node.attr("href").unwrap_or("")))
        .collect()
}

/// Extracts the internal script and stylesheet references of an HTML
/// document, each list in document order.
pub fn find_internal_assets_from_html(html: &str) -> (r: (Vec<String>, Vec<String>))
    ensures
        r.0@ == keep_internal(script_srcs_of(html@)),
        r.1@ == keep_internal(link_hrefs_of(html@)),
{
    let scripts = script_srcs(html);
    let links = link_hrefs(html);
    (find_internal_assets(&scripts), find_internal_assets(&links))
}

} // verus!
