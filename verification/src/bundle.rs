//! The bundle orchestrator's computational core.  Given the HTML entry
//! points and the staged assets as plain values, it discovers the build
//! file set, derives the hashed filenames, rewrites every entry point,
//! and produces the write plan, the manifest and its JSON document.
//! The surrounding binary owns the filesystem: it stages the inputs,
//! resets the output directory and performs the planned writes.

use vstd::prelude::*;
use crate::errors::BundleError;
use crate::html_file::keep_internal;
use crate::html_file::script_srcs_of;
use crate::html_file::link_hrefs_of;
use crate::html_file::find_internal_assets_from_html;
use crate::manifest::view_pairs;
use crate::manifest::spec_lookup;
use crate::manifest::lex_lt;
use crate::strutil::str_lex_le;
use crate::strutil::str_eq;

verus! {

/// One HTML document to be rewritten and published: where it was staged,
/// where it is published to, and its staged text.
pub struct HTMLEntryPoint {
    pub source_path: String,
    pub target_path: String,
    pub content: String,
}

/// The character sequences behind a vector of strings.
pub open spec fn view_strs(s: Seq<String>) -> Seq<Seq<char>> {
    s.map_values(|x: String| x@)
}

/// The internal references one entry point contributes: its scripts first,
/// then its stylesheets, in document order.
pub open spec fn entry_refs(content: Seq<char>) -> Seq<String> {
    keep_internal(script_srcs_of(content)) + keep_internal(link_hrefs_of(content))
}

/// The references of all entry points, in entry order.
pub open spec fn all_refs(entries: Seq<HTMLEntryPoint>) -> Seq<String>
    decreases entries.len(),
{
    if entries.len() == 0 {
        Seq::empty()
    } else {
        all_refs(entries.drop_last()) + entry_refs(entries.last().content@)
    }
}

/// Ordered insertion of one path, dropping duplicates.
pub open spec fn spec_insert_sorted(s: Seq<Seq<char>>, x: Seq<char>) -> Seq<Seq<char>>
    decreases s.len(),
{
    if s.len() == 0 {
        seq![x]
    } else if lex_lt(x, s[0]) {
        seq![x] + s
    } else if x == s[0] {
        s
    } else {
        seq![s[0]] + spec_insert_sorted(s.skip(1), x)
    }
}

/// The build file set: every discovered reference, sorted, without
/// duplicates.
pub open spec fn spec_sort_dedup_from(acc: Seq<Seq<char>>, refs: Seq<Seq<char>>) -> Seq<Seq<char>>
    decreases refs.len(),
{
    if refs.len() == 0 {
        acc
    } else {
        spec_sort_dedup_from(spec_insert_sorted(acc, refs[0]), refs.skip(1))
    }
}

pub open spec fn spec_sort_dedup(refs: Seq<Seq<char>>) -> Seq<Seq<char>> {
    spec_sort_dedup_from(Seq::empty(), refs)
}

/// The build files one HTML document contributes: its internal script
/// references followed by its internal stylesheet references, in
/// document order.
pub fn get_build_files_from_html(html: &str) -> (r: Vec<String>)
    ensures
        r@ == entry_refs(html@),
{
    let (scripts, links) = find_internal_assets_from_html(html);
    let mut refs = scripts;
    let ghost scripts_view = refs@;
    let mut k: usize = 0;
    while k < links.len()
        invariant
            0 <= k <= links@.len(),
            refs@ == scripts_view + links@.take(k as int),
        decreases links@.len() - k,
    {
        refs.push(links[k].clone());
        k += 1;
        proof {
            assert(scripts_view + links@.take(k as int) =~= (scripts_view + links@.take(k - 1))
                .push(links@[k - 1]));
        }
    }
    proof {
        assert(links@.take(links@.len() as int) =~= links@);
    }
    refs
}

/// Collects the internal references of every entry point, in order.
fn collect_refs(entries: &Vec<HTMLEntryPoint>) -> (r: Vec<String>)
    ensures
        r@ == all_refs(entries@),
{
    let mut refs: Vec<String> = Vec::new();
    let mut i: usize = 0;
    proof {
        assert(entries@.take(0) =~= Seq::<HTMLEntryPoint>::empty());
        assert(refs@ =~= all_refs(entries@.take(0)));
    }
    while i < entries.len()
        invariant
            0 <= i <= entries@.len(),
            refs@ == all_refs(entries@.take(i as int)),
        decreases entries@.len() - i,
    {
        let from_entry = get_build_files_from_html(entries[i].content.as_str());
        let ghost before = refs@;
        let mut j: usize = 0;
        while j < from_entry.len()
            invariant
                0 <= j <= from_entry@.len(),
                refs@ == before + from_entry@.take(j as int),
            decreases from_entry@.len() - j,
        {
            refs.push(from_entry[j].clone());
            j += 1;
            proof {
                assert(before + from_entry@.take(j as int) =~= (before + from_entry@.take(j - 1))
                    .push(from_entry@[j - 1]));
            }
        }
        i += 1;
        proof {
            assert(from_entry@.take(from_entry@.len() as int) =~= from_entry@);
            let prefix = entries@.take(i as int);
            assert(prefix.drop_last() =~= entries@.take(i - 1));
            assert(prefix.last() == entries@[i - 1]);
            assert(refs@ =~= all_refs(entries@.take(i - 1)) + entry_refs(
                entries@[i - 1].content@,
            ));
        }
    }
    proof {
        assert(entries@.take(entries@.len() as int) =~= entries@);
    }
    refs
}

proof fn lemma_insert_sorted_skip(s: Seq<Seq<char>>, x: Seq<char>, pos: int)
    requires
        0 <= pos <= s.len(),
        forall|i: int| 0 <= i < pos ==> lex_lt(#[trigger] s[i], x),
    ensures
        spec_insert_sorted(s, x) == s.take(pos) + spec_insert_sorted(s.skip(pos), x),
    decreases pos,
{
    if pos == 0 {
        assert(s.take(0) =~= Seq::<Seq<char>>::empty());
        assert(s.skip(0) =~= s);
        assert(s.take(0) + spec_insert_sorted(s, x) =~= spec_insert_sorted(s, x));
    } else {
        assert(lex_lt(s[0], x));
        crate::strutil::lemma_lex_total(x, s[0]);
        lemma_insert_sorted_skip(s.skip(1), x, pos - 1);
        assert(s.skip(1).take(pos - 1) =~= s.take(pos).skip(1));
        assert(s.skip(1).skip(pos - 1) =~= s.skip(pos));
        assert(seq![s[0]] + (s.take(pos).skip(1) + spec_insert_sorted(s.skip(pos), x)) =~= s.take(
            pos,
        ) + spec_insert_sorted(s.skip(pos), x));
    }
}

/// Finds where a path belongs among the sorted files: past every strictly
/// smaller one.
fn find_sorted_pos(files: &Vec<String>, x: &str) -> (pos: usize)
    ensures
        0 <= pos <= files@.len(),
        forall|i: int| 0 <= i < pos ==> lex_lt(#[trigger] view_strs(files@)[i], x@),
        pos < files@.len() ==> !lex_lt(view_strs(files@)[pos as int], x@),
{
    let mut pos: usize = 0;
    while pos < files.len()
        invariant
            0 <= pos <= files@.len(),
            forall|i: int| 0 <= i < pos ==> lex_lt(#[trigger] view_strs(files@)[i], x@),
        decreases files@.len() - pos,
    {
        let below = str_lex_le(files[pos].as_str(), x) && !str_eq(files[pos].as_str(), x);
        if !below {
            return pos;
        }
        pos += 1;
    }
    pos
}

/// Inserts one path into the sorted file list, dropping a duplicate.
fn insert_sorted(files: &mut Vec<String>, x: String)
    ensures
        view_strs(final(files)@) == spec_insert_sorted(view_strs(old(files)@), x@),
{
    let ghost s = view_strs(files@);
    let pos = find_sorted_pos(files, x.as_str());
    proof {
        lemma_insert_sorted_skip(s, x@, pos as int);
        if pos < s.len() {
            crate::strutil::lemma_lex_total(x@, s[pos as int]);
        }
    }
    let ghost tail = s.skip(pos as int);
    if pos < files.len() && str_eq(files[pos].as_str(), x.as_str()) {
        proof {
            assert(tail[0] == s[pos as int]);
            assert(spec_insert_sorted(tail, x@) == tail);
            assert(view_strs(files@) =~= s.take(pos as int) + tail);
        }
    } else {
        proof {
            if pos < s.len() {
                assert(tail[0] == s[pos as int]);
                assert(lex_lt(x@, tail[0]));
                assert(spec_insert_sorted(tail, x@) == seq![x@] + tail);
            } else {
                assert(tail =~= Seq::<Seq<char>>::empty());
                assert(spec_insert_sorted(tail, x@) == seq![x@]);
            }
        }
        files.insert(pos, x);
        proof {
            assert(view_strs(files@) =~= s.take(pos as int) + (seq![x@] + tail));
        }
    }
}

/// Sorts the discovered references and removes duplicates, yielding the
/// build file set.
fn sort_dedup_files(refs: &Vec<String>) -> (r: Vec<String>)
    ensures
        view_strs(r@) == spec_sort_dedup(view_strs(refs@)),
{
    let ghost rs = view_strs(refs@);
    let mut files: Vec<String> = Vec::new();
    let mut i: usize = 0;
    proof {
        assert(view_strs(files@) =~= Seq::<Seq<char>>::empty());
        assert(rs.skip(0) =~= rs);
    }
    while i < refs.len()
        invariant
            0 <= i <= refs@.len(),
            rs == view_strs(refs@),
            spec_sort_dedup_from(view_strs(files@), rs.skip(i as int)) == spec_sort_dedup(rs),
        decreases refs@.len() - i,
    {
        let ghost tail = rs.skip(i as int);
        proof {
            assert(tail[0] == rs[i as int]);
            assert(tail.skip(1) =~= rs.skip(i + 1));
        }
        insert_sorted(&mut files, refs[i].clone());
        i += 1;
    }
    proof {
        assert(rs.skip(rs.len() as int) =~= Seq::<Seq<char>>::empty());
    }
    files
}

/// Looks up the staged content of a logical path: the first pair holding
/// the key.
fn assoc_get<'a>(staged: &'a Vec<(String, String)>, key: &str) -> (r: Option<&'a String>)
    ensures
        match r {
            Some(v) => spec_lookup(view_pairs(staged@), key@) == Some(v@),
            None => spec_lookup(view_pairs(staged@), key@) is None,
        },
{
    let mut i: usize = 0;
    proof {
        assert(view_pairs(staged@).skip(0) =~= view_pairs(staged@));
    }
    while i < staged.len()
        invariant
            0 <= i <= staged@.len(),
            spec_lookup(view_pairs(staged@), key@) == spec_lookup(
                view_pairs(staged@).skip(i as int),
                key@,
            ),
        decreases staged@.len() - i,
    {
        let ghost tail = view_pairs(staged@).skip(i as int);
        proof {
            assert(tail[0] == view_pairs(staged@)[i as int]);
            assert(tail.skip(1) =~= view_pairs(staged@).skip(i + 1));
        }
        if str_eq(staged[i].0.as_str(), key) {
            return Some(&staged[i].1);
        }
        i += 1;
    }
    proof {
        assert(view_pairs(staged@).skip(staged@.len() as int) =~= Seq::<
            (Seq<char>, Seq<char>),
        >::empty());
    }
    None
}

/// The staged text recorded for `f`.
pub open spec fn content_of(staged: Seq<(Seq<char>, Seq<char>)>, f: Seq<char>) -> Seq<char> {
    spec_lookup(staged, f).unwrap()
}

/// The published path of `f` given its staged content.
pub open spec fn published_of(staged: Seq<(Seq<char>, Seq<char>)>, f: Seq<char>) -> Seq<char> {
    crate::content_hash::spec_derive_published_path(f, content_of(staged, f))
}

/// Logical path to published path, one pair per build file.
pub open spec fn spec_hashed_pairs(
    files: Seq<Seq<char>>,
    staged: Seq<(Seq<char>, Seq<char>)>,
) -> Seq<(Seq<char>, Seq<char>)> {
    files.map_values(|f: Seq<char>| (f, published_of(staged, f)))
}

/// Published path to verbatim staged content, one pair per build file.
pub open spec fn spec_asset_writes(
    files: Seq<Seq<char>>,
    staged: Seq<(Seq<char>, Seq<char>)>,
) -> Seq<(Seq<char>, Seq<char>)> {
    files.map_values(|f: Seq<char>| (published_of(staged, f), content_of(staged, f)))
}

/// Every logical path occurrence in the text replaced by its published
/// path, pair by pair in the given order.
pub open spec fn rewrite_refs(content: Seq<char>, hashed: Seq<(Seq<char>, Seq<char>)>) -> Seq<char>
    decreases hashed.len(),
{
    if hashed.len() == 0 {
        content
    } else {
        rewrite_refs(
            crate::strutil::spec_replace_all(content, hashed[0].0, hashed[0].1),
            hashed.skip(1),
        )
    }
}

/// The rewritten text of every entry point, at its target path, all
/// rewritten with the same hashed map.
pub open spec fn spec_html_writes(
    entries: Seq<HTMLEntryPoint>,
    hashed: Seq<(Seq<char>, Seq<char>)>,
) -> Seq<(Seq<char>, Seq<char>)> {
    entries.map_values(|e: HTMLEntryPoint| (e.target_path@, rewrite_refs(e.content@, hashed)))
}

/// The first build file with no staged content, if any.
pub open spec fn first_missing(
    files: Seq<Seq<char>>,
    staged: Seq<(Seq<char>, Seq<char>)>,
) -> Option<Seq<char>>
    decreases files.len(),
{
    if files.len() == 0 {
        None
    } else if spec_lookup(staged, files[0]) is None {
        Some(files[0])
    } else {
        first_missing(files.skip(1), staged)
    }
}

/// The first build file without a file extension, if any.
pub open spec fn first_no_ext(files: Seq<Seq<char>>) -> Option<Seq<char>>
    decreases files.len(),
{
    if files.len() == 0 {
        None
    } else if !crate::paths::path_has_extension(files[0]) {
        Some(files[0])
    } else {
        first_no_ext(files.skip(1))
    }
}

/// The first published path equal to an earlier one, scanning from `j`.
pub open spec fn first_dup_from(s: Seq<Seq<char>>, j: int) -> Option<Seq<char>>
    decreases s.len() - j,
{
    if j < 0 || j >= s.len() {
        None
    } else if exists|i: int| 0 <= i < j && s[i] == s[j] {
        Some(s[j])
    } else {
        first_dup_from(s, j + 1)
    }
}

/// The build file set after discovery.
pub open spec fn spec_build_files(entries: Seq<HTMLEntryPoint>) -> Seq<Seq<char>> {
    spec_sort_dedup(view_strs(all_refs(entries)))
}

/// Everything the publish stage writes, together with the manifest.
/// `html_writes` and `asset_writes` pair an output path with the text to
/// put there; `manifest_json` is the serialized `assetMap.json` document.
#[derive(Debug)]
pub struct BundlePlan {
    pub build_files: Vec<String>,
    pub html_writes: Vec<(String, String)>,
    pub asset_writes: Vec<(String, String)>,
    pub manifest: crate::manifest::AssetManifest,
    pub manifest_json: String,
}

/// Computes the whole publish plan: discovers the build file set from the
/// entry points, derives each file's hashed published name, rewrites every
/// entry point with the same map, and builds the manifest and its JSON
/// document.  Fails on the first missing staged file, then on the first
/// extensionless path, then on the first published-path collision.
#[verifier::loop_isolation(false)]
pub fn plan_bundle(entries: &Vec<HTMLEntryPoint>, staged: &Vec<(String, String)>) -> (r: Result<
    BundlePlan,
    BundleError,
>)
    ensures
        ({
            let sv = view_pairs(staged@);
            let files = spec_build_files(entries@);
            let pubs = files.map_values(|f: Seq<char>| published_of(sv, f));
            &&& (r is Ok <==> first_missing(files, sv) is None && first_no_ext(files) is None
                && first_dup_from(pubs, 0) is None)
            &&& (r matches Ok(plan) ==> {
                let hashed = spec_hashed_pairs(files, sv);
                &&& view_strs(plan.build_files@) == files
                &&& view_pairs(plan.asset_writes@) == spec_asset_writes(files, sv)
                &&& view_pairs(plan.html_writes@) == spec_html_writes(entries@, hashed)
                &&& plan.manifest.view_entries() == crate::manifest::spec_manifest_entries(hashed)
                &&& plan.manifest_json@ == crate::manifest::spec_manifest_json(
                    plan.manifest.view_entries(),
                )
            })
            &&& (r matches Err(e) ==> {
                &&& (e matches BundleError::StagingRead(p) ==> Some(p@) == first_missing(
                    files,
                    sv,
                ))
                &&& (e matches BundleError::MissingExtension(p) ==> first_missing(files, sv)
                    is None && Some(p@) == first_no_ext(files))
                &&& (e matches BundleError::HashCollision(p) ==> first_missing(files, sv) is None
                    && first_no_ext(files) is None && Some(p@) == first_dup_from(pubs, 0))
                &&& (e is StagingRead || e is MissingExtension || e is HashCollision)
            })
        }),
{
    let ghost sv = view_pairs(staged@);
    let refs = collect_refs(entries);
    let files = sort_dedup_files(&refs);
    let ghost fs = view_strs(files@);
    proof {
        assert(fs == spec_build_files(entries@));
    }

    // read every staged content, stopping at the first missing file
    let mut contents: Vec<String> = Vec::new();
    let mut i: usize = 0;
    proof {
        assert(fs.skip(0) =~= fs);
    }
    while i < files.len()
        invariant
            0 <= i <= files@.len(),
            fs == view_strs(files@),
            sv == view_pairs(staged@),
            contents@.len() == i,
            forall|j: int|
                0 <= j < i ==> spec_lookup(sv, fs[j]) == Some(#[trigger] contents@[j]@),
            first_missing(fs, sv) == first_missing(fs.skip(i as int), sv),
        decreases files@.len() - i,
    {
        let ghost tail = fs.skip(i as int);
        proof {
            assert(tail[0] == fs[i as int]);
            assert(tail.skip(1) =~= fs.skip(i + 1));
        }
        match assoc_get(staged, files[i].as_str()) {
            Some(c) => {
                contents.push(c.clone());
            },
            None => {
                proof {
                    assert(first_missing(fs, sv) == Some(fs[i as int]));
                }
                return Err(BundleError::StagingRead(files[i].clone()));
            },
        }
        i += 1;
    }
    proof {
        assert(fs.skip(fs.len() as int) =~= Seq::<Seq<char>>::empty());
        assert(first_missing(fs, sv) is None);
    }

    // derive the hashed published name of every build file
    let mut hashed: Vec<(String, String)> = Vec::new();
    let mut asset_writes: Vec<(String, String)> = Vec::new();
    let mut i: usize = 0;
    proof {
        assert(fs.skip(0) =~= fs);
        assert(fs.take(0) =~= Seq::<Seq<char>>::empty());
        assert(view_pairs(hashed@) =~= spec_hashed_pairs(fs.take(0), sv));
        assert(view_pairs(asset_writes@) =~= spec_asset_writes(fs.take(0), sv));
    }
    while i < files.len()
        invariant
            0 <= i <= files@.len(),
            fs == view_strs(files@),
            sv == view_pairs(staged@),
            contents@.len() == files@.len(),
            forall|j: int|
                0 <= j < files@.len() ==> spec_lookup(sv, fs[j]) == Some(
                    #[trigger] contents@[j]@,
                ),
            view_pairs(hashed@) == spec_hashed_pairs(fs.take(i as int), sv),
            view_pairs(asset_writes@) == spec_asset_writes(fs.take(i as int), sv),
            first_no_ext(fs) == first_no_ext(fs.skip(i as int)),
        decreases files@.len() - i,
    {
        let ghost tail = fs.skip(i as int);
        proof {
            assert(tail[0] == fs[i as int]);
            assert(tail.skip(1) =~= fs.skip(i + 1));
        }
        match crate::content_hash::derive_published_path(
            files[i].as_str(),
            contents[i].as_str(),
        ) {
            Ok(published) => {
                proof {
                    assert(spec_lookup(sv, fs[i as int]) == Some(contents@[i as int]@));
                    assert(content_of(sv, fs[i as int]) == contents@[i as int]@);
                    assert(published@ == published_of(sv, fs[i as int]));
                }
                let ghost old_hashed = hashed@;
                let ghost old_writes = asset_writes@;
                asset_writes.push((published.clone(), contents[i].clone()));
                hashed.push((files[i].clone(), published));
                i += 1;
                proof {
                    let t = fs.take(i as int);
                    let m_new = view_pairs(hashed@);
                    let m_spec = spec_hashed_pairs(t, sv);
                    assert forall|q: int| 0 <= q < i implies m_new[q] == m_spec[q] by {
                        assert(t[q] == fs[q]);
                        if q < i - 1 {
                            assert(hashed@[q] == old_hashed[q]);
                            assert(view_pairs(old_hashed)[q] == spec_hashed_pairs(
                                fs.take(i - 1),
                                sv,
                            )[q]);
                        }
                    }
                    assert(m_new =~= m_spec);
                    let w_new = view_pairs(asset_writes@);
                    let w_spec = spec_asset_writes(t, sv);
                    assert forall|q: int| 0 <= q < i implies w_new[q] == w_spec[q] by {
                        assert(t[q] == fs[q]);
                        if q < i - 1 {
                            assert(asset_writes@[q] == old_writes[q]);
                            assert(view_pairs(old_writes)[q] == spec_asset_writes(
                                fs.take(i - 1),
                                sv,
                            )[q]);
                        }
                    }
                    assert(w_new =~= w_spec);
                }
            },
            Err(e) => {
                proof {
                    assert(first_no_ext(fs) == Some(fs[i as int]));
                }
                return Err(e);
            },
        }
    }
    proof {
        assert(fs.take(fs.len() as int) =~= fs);
        assert(fs.skip(fs.len() as int) =~= Seq::<Seq<char>>::empty());
        assert(first_no_ext(fs) is None);
    }
    let ghost hv = view_pairs(hashed@);
    let ghost pubs = fs.map_values(|f: Seq<char>| published_of(sv, f));
    proof {
        assert(hv == spec_hashed_pairs(fs, sv));
        assert(pubs.len() == hv.len());
        assert(forall|j: int| 0 <= j < hv.len() ==> hv[j].1 == #[trigger] pubs[j]);
    }

    // a differently-hashed file must never overwrite another at the same
    // published path
    let mut j: usize = 0;
    while j < hashed.len()
        invariant
            0 <= j <= hashed@.len(),
            hv == view_pairs(hashed@),
            pubs.len() == hv.len(),
            forall|k: int| 0 <= k < hv.len() ==> hv[k].1 == #[trigger] pubs[k],
            first_dup_from(pubs, 0) == first_dup_from(pubs, j as int),
        decreases hashed@.len() - j,
    {
        let mut k: usize = 0;
        while k < j
            invariant
                0 <= k <= j < hashed@.len(),
                hv == view_pairs(hashed@),
                pubs.len() == hv.len(),
                forall|q: int| 0 <= q < hv.len() ==> hv[q].1 == #[trigger] pubs[q],
                forall|q: int| 0 <= q < k ==> pubs[q] != pubs[j as int],
            decreases j - k,
        {
            if str_eq(hashed[k].1.as_str(), hashed[j].1.as_str()) {
                proof {
                    assert(pubs[k as int] == pubs[j as int]);
                    assert(first_dup_from(pubs, j as int) == Some(pubs[j as int]));
                }
                return Err(BundleError::HashCollision(hashed[j].1.clone()));
            }
            k += 1;
        }
        j += 1;
        proof {
            assert(!(exists|q: int| 0 <= q < j - 1 && #[trigger] pubs[q] == pubs[j - 1]));
            assert(first_dup_from(pubs, j - 1) == first_dup_from(pubs, j as int));
        }
    }
    proof {
        assert(first_dup_from(pubs, hv.len() as int) is None);
        assert(first_dup_from(pubs, 0) is None);
    }

    // rewrite every entry point with the same hashed map
    let mut html_writes: Vec<(String, String)> = Vec::new();
    let mut i: usize = 0;
    proof {
        assert(entries@.take(0) =~= Seq::<HTMLEntryPoint>::empty());
        assert(view_pairs(html_writes@) =~= spec_html_writes(entries@.take(0), hv));
    }
    while i < entries.len()
        invariant
            0 <= i <= entries@.len(),
            hv == view_pairs(hashed@),
            view_pairs(html_writes@) == spec_html_writes(entries@.take(i as int), hv),
        decreases entries@.len() - i,
    {
        let mut text = entries[i].content.clone();
        let mut k: usize = 0;
        proof {
            assert(hv.skip(0) =~= hv);
        }
        while k < hashed.len()
            invariant
                0 <= k <= hashed@.len(),
                hv == view_pairs(hashed@),
                rewrite_refs(text@, hv.skip(k as int)) == rewrite_refs(
                    entries@[i as int].content@,
                    hv,
                ),
                i < entries@.len(),
            decreases hashed@.len() - k,
        {
            let ghost tail = hv.skip(k as int);
            proof {
                assert(tail[0] == hv[k as int]);
                assert(tail.skip(1) =~= hv.skip(k + 1));
            }
            text = crate::strutil::replace_all(
                text.as_str(),
                hashed[k].0.as_str(),
                hashed[k].1.as_str(),
            );
            k += 1;
        }
        proof {
            assert(hv.skip(hv.len() as int) =~= Seq::<(Seq<char>, Seq<char>)>::empty());
            assert(text@ == rewrite_refs(entries@[i as int].content@, hv));
        }
        let ghost old_html = html_writes@;
        html_writes.push((entries[i].target_path.clone(), text));
        i += 1;
        proof {
            let t = entries@.take(i as int);
            let m_new = view_pairs(html_writes@);
            let m_spec = spec_html_writes(t, hv);
            assert forall|q: int| 0 <= q < i implies m_new[q] == m_spec[q] by {
                assert(t[q] == entries@[q]);
                if q < i - 1 {
                    assert(html_writes@[q] == old_html[q]);
                    assert(view_pairs(old_html)[q] == spec_html_writes(
                        entries@.take(i - 1),
                        hv,
                    )[q]);
                }
            }
            assert(m_new =~= m_spec);
        }
    }
    proof {
        assert(entries@.take(entries@.len() as int) =~= entries@);
    }

    // aggregate the manifest and its document
    let manifest = crate::manifest::build_manifest(&hashed);
    let manifest_json = crate::manifest::manifest_to_json(&manifest);
    Ok(
        BundlePlan {
            build_files: files,
            html_writes,
            asset_writes,
            manifest,
            manifest_json,
        },
    )
}

/// Paths strictly ascend: sorted, and therefore free of duplicates.
pub open spec fn sorted_files(s: Seq<Seq<char>>) -> bool {
    forall|i: int, j: int| 0 <= i < j < s.len() ==> lex_lt(#[trigger] s[i], #[trigger] s[j])
}

proof fn lemma_insert_sorted_keeps_order(s: Seq<Seq<char>>, x: Seq<char>)
    requires
        sorted_files(s),
    ensures
        sorted_files(spec_insert_sorted(s, x)),
    decreases s.len(),
{
    let out = spec_insert_sorted(s, x);
    if s.len() == 0 {
    } else if lex_lt(x, s[0]) {
        assert forall|i: int, j: int| 0 <= i < j < out.len() implies lex_lt(
            #[trigger] out[i],
            #[trigger] out[j],
        ) by {
            if i == 0 {
                assert(out[j] == s[j - 1]);
                if j > 1 {
                    crate::strutil::lemma_lex_lt_trans(x, s[0], s[j - 1]);
                }
            } else {
                assert(out[i] == s[i - 1] && out[j] == s[j - 1]);
            }
        }
    } else if x == s[0] {
    } else {
        assert(forall|i: int, j: int|
            0 <= i < j < s.skip(1).len() ==> lex_lt(
                #[trigger] s.skip(1)[i],
                #[trigger] s.skip(1)[j],
            ));
        lemma_insert_sorted_keeps_order(s.skip(1), x);
        let inner = spec_insert_sorted(s.skip(1), x);
        crate::strutil::lemma_lex_total(x, s[0]);
        assert(lex_lt(s[0], x));
        assert forall|i: int, j: int| 0 <= i < j < out.len() implies lex_lt(
            #[trigger] out[i],
            #[trigger] out[j],
        ) by {
            if i == 0 {
                assert(out[j] == inner[j - 1]);
                lemma_insert_sorted_members(s.skip(1), x, j - 1);
                if inner[j - 1] != x {
                    let w = choose|w: int|
                        0 <= w < s.skip(1).len() && s.skip(1)[w] == inner[j - 1];
                    assert(s[w + 1] == inner[j - 1]);
                    assert(lex_lt(s[0], s[w + 1]));
                }
            } else {
                assert(out[i] == inner[i - 1] && out[j] == inner[j - 1]);
            }
        }
    }
}

proof fn lemma_insert_sorted_members(s: Seq<Seq<char>>, x: Seq<char>, idx: int)
    requires
        0 <= idx < spec_insert_sorted(s, x).len(),
    ensures
        spec_insert_sorted(s, x)[idx] == x || s.contains(spec_insert_sorted(s, x)[idx]),
    decreases s.len(),
{
    let out = spec_insert_sorted(s, x);
    if s.len() == 0 {
    } else if lex_lt(x, s[0]) {
        if idx > 0 {
            assert(out[idx] == s[idx - 1]);
        }
    } else if x == s[0] {
        assert(s.contains(s[idx]));
    } else {
        if idx == 0 {
            assert(s.contains(s[0]));
        } else {
            lemma_insert_sorted_members(s.skip(1), x, idx - 1);
            let inner = spec_insert_sorted(s.skip(1), x);
            assert(out[idx] == inner[idx - 1]);
            if inner[idx - 1] != x {
                let w = choose|w: int| 0 <= w < s.skip(1).len() && s.skip(1)[w] == inner[idx - 1];
                assert(s[w + 1] == inner[idx - 1]);
                assert(s.contains(s[w + 1]));
            }
        }
    }
}

proof fn lemma_sort_dedup_from_sorted(acc: Seq<Seq<char>>, refs: Seq<Seq<char>>)
    requires
        sorted_files(acc),
    ensures
        sorted_files(spec_sort_dedup_from(acc, refs)),
    decreases refs.len(),
{
    if refs.len() > 0 {
        lemma_insert_sorted_keeps_order(acc, refs[0]);
        lemma_sort_dedup_from_sorted(spec_insert_sorted(acc, refs[0]), refs.skip(1));
    }
}

/// The build file set ascends strictly, whatever was discovered: the
/// sorted, deduplicated union that drives hashing and publishing.
pub proof fn lemma_build_files_sorted(entries: Seq<HTMLEntryPoint>)
    ensures
        sorted_files(spec_build_files(entries)),
{
    assert(sorted_files(Seq::empty()));
    lemma_sort_dedup_from_sorted(Seq::empty(), view_strs(all_refs(entries)));
}

/// The test-runner page is bundled only outside production builds and
/// only when testing is active.
pub open spec fn spec_should_build_tests(environment: Seq<char>, testing: bool) -> bool {
    testing && environment != "production"@
}

/// Builds the entry point list for one bundle: the main application shell
/// always, the test-runner page only when testing is active outside
/// production, and the documentation shell only when that feature is on.
pub fn collect_entry_points(
    main: HTMLEntryPoint,
    tests: HTMLEntryPoint,
    documentation: HTMLEntryPoint,
    environment: &str,
    testing: bool,
    documentation_enabled: bool,
) -> (r: Vec<HTMLEntryPoint>)
    ensures
        r@ == seq![main] + (if spec_should_build_tests(environment@, testing) {
            seq![tests]
        } else {
            Seq::empty()
        }) + (if documentation_enabled {
            seq![documentation]
        } else {
            Seq::empty()
        }),
{
    let ghost gmain = main;
    let ghost gtests = tests;
    let ghost gdocs = documentation;
    let mut entries: Vec<HTMLEntryPoint> = Vec::new();
    entries.push(main);
    let include_tests = testing && !crate::strutil::str_eq(environment, "production");
    proof {
        assert(include_tests == spec_should_build_tests(environment@, testing));
    }
    if include_tests {
        entries.push(tests);
    }
    if documentation_enabled {
        entries.push(documentation);
    }
    proof {
        if include_tests && documentation_enabled {
            assert(entries@ =~= seq![gmain] + seq![gtests] + seq![gdocs]);
        } else if include_tests {
            assert(entries@ =~= seq![gmain] + seq![gtests] + Seq::<HTMLEntryPoint>::empty());
        } else if documentation_enabled {
            assert(entries@ =~= seq![gmain] + Seq::<HTMLEntryPoint>::empty() + seq![gdocs]);
        } else {
            assert(entries@ =~= seq![gmain] + Seq::<HTMLEntryPoint>::empty() + Seq::<
                HTMLEntryPoint,
            >::empty());
        }
    }
    entries
}

/// Referential completeness: every published path that the rewrite stage
/// substitutes into an entry point is the path of an asset write of the
/// same plan, so the rewritten HTML only ever names files the publish
/// stage creates.
pub proof fn lemma_referential_completeness(
    files: Seq<Seq<char>>,
    staged: Seq<(Seq<char>, Seq<char>)>,
)
    ensures
        spec_asset_writes(files, staged).len() == files.len(),
        spec_hashed_pairs(files, staged).len() == files.len(),
        forall|j: int|
            0 <= j < files.len() ==> (#[trigger] spec_asset_writes(files, staged)[j]).0
                == spec_hashed_pairs(files, staged)[j].1,
{
}

proof fn lemma_insert_pair_membership(
    s: Seq<(Seq<char>, Seq<char>)>,
    k: Seq<char>,
    v: Seq<char>,
    idx: int,
)
    requires
        0 <= idx < crate::manifest::spec_insert_pair(s, k, v).len(),
    ensures
        crate::manifest::spec_insert_pair(s, k, v)[idx] == (k, v) || s.contains(
            crate::manifest::spec_insert_pair(s, k, v)[idx],
        ),
    decreases s.len(),
{
    let out = crate::manifest::spec_insert_pair(s, k, v);
    if s.len() == 0 {
    } else if lex_lt(k, s[0].0) {
        if idx > 0 {
            assert(out[idx] == s[idx - 1]);
        }
    } else if k == s[0].0 {
        if idx > 0 {
            assert(out[idx] == s.skip(1)[idx - 1]);
            assert(s.contains(s[idx]));
        }
    } else {
        if idx > 0 {
            lemma_insert_pair_membership(s.skip(1), k, v, idx - 1);
            let inner = crate::manifest::spec_insert_pair(s.skip(1), k, v);
            assert(out[idx] == inner[idx - 1]);
            if inner[idx - 1] != (k, v) {
                let w = choose|w: int| 0 <= w < s.skip(1).len() && s.skip(1)[w] == inner[idx - 1];
                assert(s[w + 1] == inner[idx - 1]);
                assert(s.contains(s[w + 1]));
            }
        } else {
            assert(out[0] == s[0]);
            assert(s.contains(s[0]));
        }
    }
}

proof fn lemma_insert_all_membership(
    acc: Seq<(Seq<char>, Seq<char>)>,
    pairs: Seq<(Seq<char>, Seq<char>)>,
    idx: int,
)
    requires
        0 <= idx < crate::manifest::spec_insert_all(acc, pairs).len(),
    ensures
        acc.contains(crate::manifest::spec_insert_all(acc, pairs)[idx]) || exists|j: int|
            0 <= j < pairs.len() && crate::manifest::spec_insert_all(acc, pairs)[idx] == (
                crate::manifest::spec_strip_slash(#[trigger] pairs[j].0),
                crate::manifest::spec_strip_slash(pairs[j].1),
            ),
    decreases pairs.len(),
{
    if pairs.len() > 0 {
        let k = crate::manifest::spec_strip_slash(pairs[0].0);
        let v = crate::manifest::spec_strip_slash(pairs[0].1);
        let acc2 = crate::manifest::spec_insert_pair(acc, k, v);
        let out = crate::manifest::spec_insert_all(acc, pairs);
        lemma_insert_all_membership(acc2, pairs.skip(1), idx);
        if acc2.contains(out[idx]) {
            let w = choose|w: int| 0 <= w < acc2.len() && acc2[w] == out[idx];
            lemma_insert_pair_membership(acc, k, v, w);
            if acc2[w] == (k, v) {
                assert(out[idx] == (
                    crate::manifest::spec_strip_slash(pairs[0].0),
                    crate::manifest::spec_strip_slash(pairs[0].1),
                ));
            }
        } else {
            let j = choose|j: int|
                0 <= j < pairs.skip(1).len() && crate::manifest::spec_insert_all(
                    acc2,
                    pairs.skip(1),
                )[idx] == (
                    crate::manifest::spec_strip_slash(#[trigger] pairs.skip(1)[j].0),
                    crate::manifest::spec_strip_slash(pairs.skip(1)[j].1),
                );
            assert(pairs.skip(1)[j] == pairs[j + 1]);
        }
    }
}

/// Manifest closure: every manifest entry but the self-referential one
/// records a build file together with its published path, and that
/// published path is written by the plan with exactly the staged content
/// whose digest it carries.
pub proof fn lemma_manifest_closure(files: Seq<Seq<char>>, staged: Seq<(Seq<char>, Seq<char>)>)
    ensures
        ({
            let m = crate::manifest::spec_manifest_entries(spec_hashed_pairs(files, staged));
            forall|idx: int|
                0 <= idx < m.len() && (#[trigger] m[idx]).0
                    != crate::manifest::asset_map_key() ==> exists|j: int|
                    0 <= j < files.len() && m[idx] == (
                        crate::manifest::spec_strip_slash(files[j]),
                        crate::manifest::spec_strip_slash(published_of(staged, files[j])),
                    ) && spec_asset_writes(files, staged)[j] == (
                        published_of(staged, files[j]),
                        content_of(staged, files[j]),
                    ) && published_of(staged, files[j]) == crate::paths::spec_splice_hash(
                        files[j],
                        crate::content_hash::md5_hex_of(content_of(staged, files[j])),
                    )
        }),
{
    let hashed = spec_hashed_pairs(files, staged);
    let inner = crate::manifest::spec_insert_all(Seq::empty(), hashed);
    let m = crate::manifest::spec_manifest_entries(hashed);
    assert forall|idx: int|
        0 <= idx < m.len() && (#[trigger] m[idx]).0
            != crate::manifest::asset_map_key() implies exists|j: int|
        0 <= j < files.len() && m[idx] == (
            crate::manifest::spec_strip_slash(files[j]),
            crate::manifest::spec_strip_slash(published_of(staged, files[j])),
        ) && spec_asset_writes(files, staged)[j] == (
            published_of(staged, files[j]),
            content_of(staged, files[j]),
        ) && published_of(staged, files[j]) == crate::paths::spec_splice_hash(
            files[j],
            crate::content_hash::md5_hex_of(content_of(staged, files[j])),
        ) by {
        lemma_insert_pair_membership(
            inner,
            crate::manifest::asset_map_key(),
            crate::manifest::asset_map_key(),
            idx,
        );
        assert(m[idx] != (crate::manifest::asset_map_key(), crate::manifest::asset_map_key()));
        assert(inner.contains(m[idx]));
        let w = choose|w: int| 0 <= w < inner.len() && inner[w] == m[idx];
        lemma_insert_all_membership(Seq::empty(), hashed, w);
        let j = choose|j: int|
            0 <= j < hashed.len() && inner[w] == (
                crate::manifest::spec_strip_slash(#[trigger] hashed[j].0),
                crate::manifest::spec_strip_slash(hashed[j].1),
            );
        assert(hashed[j] == (files[j], published_of(staged, files[j])));
        assert(spec_asset_writes(files, staged)[j] == (
            published_of(staged, files[j]),
            content_of(staged, files[j]),
        ));
    }
}

proof fn lemma_all_refs_congruent(e1: Seq<HTMLEntryPoint>, e2: Seq<HTMLEntryPoint>)
    requires
        e1.len() == e2.len(),
        forall|i: int| 0 <= i < e1.len() ==> (#[trigger] e1[i]).content@ == e2[i].content@,
    ensures
        all_refs(e1) == all_refs(e2),
    decreases e1.len(),
{
    if e1.len() > 0 {
        lemma_all_refs_congruent(e1.drop_last(), e2.drop_last());
        assert(e1.last().content@ == e2.last().content@);
    }
}

/// Idempotent republish: two runs over byte-identical entry points and
/// staged inputs plan byte-identical outputs — the same build file set,
/// the same published names and contents, the same rewritten HTML and the
/// same manifest document.
pub proof fn lemma_idempotent_republish(
    e1: Seq<HTMLEntryPoint>,
    e2: Seq<HTMLEntryPoint>,
    staged: Seq<(Seq<char>, Seq<char>)>,
)
    requires
        e1.len() == e2.len(),
        forall|i: int| 0 <= i < e1.len() ==> (#[trigger] e1[i]).content@ == e2[i].content@,
        forall|i: int| 0 <= i < e1.len() ==> (#[trigger] e1[i]).target_path@ == e2[i].target_path@,
    ensures
        spec_build_files(e1) == spec_build_files(e2),
        spec_asset_writes(spec_build_files(e1), staged) == spec_asset_writes(
            spec_build_files(e2),
            staged,
        ),
        spec_html_writes(e1, spec_hashed_pairs(spec_build_files(e1), staged)) == spec_html_writes(
            e2,
            spec_hashed_pairs(spec_build_files(e2), staged),
        ),
        crate::manifest::spec_manifest_entries(spec_hashed_pairs(spec_build_files(e1), staged))
            == crate::manifest::spec_manifest_entries(
            spec_hashed_pairs(spec_build_files(e2), staged),
        ),
{
    lemma_all_refs_congruent(e1, e2);
    let hashed = spec_hashed_pairs(spec_build_files(e1), staged);
    assert(spec_html_writes(e1, hashed) =~= spec_html_writes(e2, hashed));
}

} // verus!
