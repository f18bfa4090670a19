//! Injected file trees: a nested name-to-content map is flattened into
//! slash-joined paths, and flat maps are narrowed by file extension.

use vstd::prelude::*;
use vstd::utf8::valid_utf8;
use vstd::utf8::decode_utf8;
use crate::manifest::view_pairs;
use crate::strutil::ends_with;
use crate::strutil::str_ends_with;

verus! {

/// One entry of an injected file tree: file content bytes, or a nested
/// directory of further entries.
pub enum KeyValue {
    Content(Vec<u8>),
    Directory(Vec<(String, KeyValue)>),
}

/// Path segments joined by `/`.
pub open spec fn spec_join(parts: Seq<Seq<char>>) -> Seq<char>
    decreases parts.len(),
{
    if parts.len() == 0 {
        Seq::empty()
    } else if parts.len() == 1 {
        parts[0]
    } else {
        spec_join(parts.drop_last()) + seq!['/'] + parts.last()
    }
}

/// Every content leaf under the entries holds valid UTF-8.
pub open spec fn all_content_utf8(m: Seq<(String, KeyValue)>) -> bool
    decreases m, 0int,
{
    if m.len() == 0 {
        true
    } else {
        (match m[0].1 {
            KeyValue::Content(bytes) => valid_utf8(bytes@),
            KeyValue::Directory(sub) => all_content_utf8(sub@),
        }) && all_content_utf8(m.skip(1))
    }
}

/// The flattened tree: every content leaf under its slash-joined path,
/// depth first, in entry order.
pub open spec fn spec_flatten(
    m: Seq<(String, KeyValue)>,
    parents: Seq<Seq<char>>,
) -> Seq<(Seq<char>, Seq<char>)>
    decreases m, 0int,
{
    if m.len() == 0 {
        Seq::empty()
    } else {
        (match m[0].1 {
            KeyValue::Content(bytes) => seq![
                (spec_join(parents.push(m[0].0@)), decode_utf8(bytes@)),
            ],
            KeyValue::Directory(sub) => spec_flatten(sub@, parents.push(m[0].0@)),
        }) + spec_flatten(m.skip(1), parents)
    }
}

/// Relies on `String::from_utf8`: succeeds exactly on valid UTF-8 and
/// decodes it.
#[verifier::external_body]
fn utf8_to_string(bytes: &Vec<u8>) -> (r: Option<String>)
    ensures
        r matches Some(s) ==> valid_utf8(bytes@) && s@ == decode_utf8(bytes@),
        r is None ==> !valid_utf8(bytes@),
{
    String::from_utf8(bytes.clone()).ok()
}

/// Joins path segments with `/`.
fn join_slash(parts: &Vec<String>) -> (r: String)
    ensures
        r@ == spec_join(crate::bundle::view_strs(parts@)),
{
    let ghost ps = crate::bundle::view_strs(parts@);
    let mut out = String::new();
    let mut i: usize = 0;
    proof {
        assert(ps.take(0) =~= Seq::<Seq<char>>::empty());
        assert(out@ =~= spec_join(ps.take(0)));
    }
    while i < parts.len()
        invariant
            0 <= i <= parts@.len(),
            ps == crate::bundle::view_strs(parts@),
            out@ == spec_join(ps.take(i as int)),
        decreases parts@.len() - i,
    {
        if i > 0 {
            out.append("/");
        }
        out.append(parts[i].as_str());
        i += 1;
        proof {
            reveal_strlit("/");
            assert("/"@ =~= seq!['/']);
            let t = ps.take(i as int);
            assert(t.drop_last() =~= ps.take(i - 1));
            assert(t.last() == ps[i - 1]);
            assert(out@ =~= spec_join(t));
        }
    }
    proof {
        assert(ps.take(ps.len() as int) =~= ps);
    }
    out
}

fn clone_push(parents: &Vec<String>, key: &String) -> (r: Vec<String>)
    ensures
        crate::bundle::view_strs(r@) == crate::bundle::view_strs(parents@).push(key@),
{
    let mut out: Vec<String> = Vec::new();
    let mut i: usize = 0;
    proof {
        assert(crate::bundle::view_strs(out@) =~= crate::bundle::view_strs(
            parents@,
        ).take(0));
    }
    while i < parents.len()
        invariant
            0 <= i <= parents@.len(),
            crate::bundle::view_strs(out@) == crate::bundle::view_strs(parents@).take(i as int),
        decreases parents@.len() - i,
    {
        let ghost prev = out@;
        out.push(parents[i].clone());
        i += 1;
        proof {
            let lhs = crate::bundle::view_strs(out@);
            let rhs = crate::bundle::view_strs(parents@).take(i as int);
            assert(out@.drop_last() =~= prev);
            assert(prev.len() == crate::bundle::view_strs(prev).len());
            assert(crate::bundle::view_strs(prev).len() == i - 1);
            assert(out@.len() == i);
            assert(lhs.len() == i);
            assert(rhs.len() == i);
            assert forall|q: int| 0 <= q < i implies lhs[q] == rhs[q] by {
                assert(lhs[q] == out@[q]@);
                assert(rhs[q] == parents@[q]@);
                if q < i - 1 {
                    assert(out@[q] == prev[q]);
                    assert(crate::bundle::view_strs(prev)[q] == prev[q]@);
                    assert(crate::bundle::view_strs(parents@).take(i - 1)[q] == parents@[q]@);
                }
            }
            assert(lhs =~= rhs);
        }
    }
    out.push(key.clone());
    proof {
        assert(crate::bundle::view_strs(parents@).take(parents@.len() as int)
            =~= crate::bundle::view_strs(parents@));
        assert(crate::bundle::view_strs(out@) =~= crate::bundle::view_strs(parents@).push(key@));
    }
    out
}

fn flatten_from(
    m: &Vec<(String, KeyValue)>,
    from: usize,
    parents: &Vec<String>,
) -> (r: Vec<(String, String)>)
    requires
        from <= m@.len(),
        all_content_utf8(m@.skip(from as int)),
    ensures
        view_pairs(r@) == spec_flatten(
            m@.skip(from as int),
            crate::bundle::view_strs(parents@),
        ),
    decreases m@, 0int, m@.len() - from,
{
    let ghost tail = m@.skip(from as int);
    if from >= m.len() {
        let r: Vec<(String, String)> = Vec::new();
        proof {
            assert(tail.len() == 0);
            assert(view_pairs(r@) =~= spec_flatten(tail, crate::bundle::view_strs(parents@)));
        }
        return r;
    }
    proof {
        assert(tail[0] == m@[from as int]);
        assert(tail.skip(1) =~= m@.skip(from + 1));
    }
    let with_key = clone_push(parents, &m[from].0);
    let mut head: Vec<(String, String)> = match &m[from].1 {
        KeyValue::Content(bytes) => {
            match utf8_to_string(bytes) {
                Some(content) => {
                    let path = join_slash(&with_key);
                    let mut one: Vec<(String, String)> = Vec::new();
                    one.push((path, content));
                    proof {
                        assert(view_pairs(one@) =~= seq![
                            (
                                spec_join(
                                    crate::bundle::view_strs(parents@).push(
                                        m@[from as int].0@,
                                    ),
                                ),
                                decode_utf8(bytes@),
                            ),
                        ]);
                    }
                    one
                },
                None => {
                    proof {
                        assert(false);
                    }
                    Vec::new()
                },
            }
        },
        KeyValue::Directory(sub) => {
            proof {
                assert(sub@.skip(0) =~= sub@);
            }
            flatten_from(sub, 0, &with_key)
        },
    };
    let rest = flatten_from(m, from + 1, parents);
    let ghost ghead = view_pairs(head@);
    let mut out = head;
    let mut i: usize = 0;
    while i < rest.len()
        invariant
            0 <= i <= rest@.len(),
            view_pairs(out@) == ghead + view_pairs(rest@).take(i as int),
        decreases rest@.len() - i,
    {
        let ghost prev = out@;
        out.push((rest[i].0.clone(), rest[i].1.clone()));
        i += 1;
        proof {
            let lhs = view_pairs(out@);
            let rhs = ghead + view_pairs(rest@).take(i as int);
            assert(out@.drop_last() =~= prev);
            assert(view_pairs(prev).len() == prev.len());
            assert(view_pairs(prev).len() == ghead.len() + i - 1);
            assert(out@.len() == ghead.len() + i);
            assert(lhs.len() == ghead.len() + i);
            assert(rhs.len() == ghead.len() + i);
            assert forall|q: int| 0 <= q < lhs.len() implies lhs[q] == rhs[q] by {
                assert(lhs[q] == (out@[q].0@, out@[q].1@));
                if q < lhs.len() - 1 {
                    assert(out@[q] == prev[q]);
                    assert(view_pairs(prev)[q] == (prev[q].0@, prev[q].1@));
                    assert(view_pairs(prev)[q] == (ghead + view_pairs(rest@).take(i - 1))[q]);
                } else {
                    assert(view_pairs(rest@)[i - 1] == (rest@[i - 1].0@, rest@[i - 1].1@));
                }
            }
            assert(lhs =~= rhs);
        }
    }
    proof {
        assert(view_pairs(rest@).take(rest@.len() as int) =~= view_pairs(rest@));
        assert(view_pairs(out@) =~= spec_flatten(tail, crate::bundle::view_strs(parents@)));
    }
    out
}

/// Flattens a nested file tree into slash-joined paths with decoded
/// content, depth first, in entry order.  Every leaf must hold UTF-8
/// text.
pub fn flatten_fs_hashmap(
    fs_hashmap: Vec<(String, KeyValue)>,
    parent_folders: Vec<String>,
) -> (r: Vec<(String, String)>)
    requires
        all_content_utf8(fs_hashmap@),
    ensures
        view_pairs(r@) == spec_flatten(
            fs_hashmap@,
            crate::bundle::view_strs(parent_folders@),
        ),
{
    proof {
        assert(fs_hashmap@.skip(0) =~= fs_hashmap@);
    }
    flatten_from(&fs_hashmap, 0, &parent_folders)
}

/// The key ends with one of the given extensions.
pub open spec fn matches_any_ext(key: Seq<char>, extensions: Seq<&str>) -> bool {
    exists|i: int| 0 <= i < extensions.len() && ends_with(key, extensions[i]@)
}

fn key_matches(key: &str, extensions: &Vec<&str>) -> (r: bool)
    ensures
        r == matches_any_ext(key@, extensions@),
{
    let mut i: usize = 0;
    while i < extensions.len()
        invariant
            0 <= i <= extensions@.len(),
            forall|j: int| 0 <= j < i ==> !ends_with(key@, (#[trigger] extensions@[j])@),
        decreases extensions@.len() - i,
    {
        if str_ends_with(key, extensions[i]) {
            return true;
        }
        i += 1;
    }
    false
}

/// Keeps the entries whose key ends with one of the extensions, in
/// order.
pub fn lookup_for_extensions(
    hashmap: Vec<(String, String)>,
    extensions: Vec<&str>,
) -> (r: Vec<(String, String)>)
    ensures
        ({
            let exts = extensions@;
            r@ == hashmap@.filter(
                (|p: (String, String)| matches_any_ext(p.0@, exts)),
            )
        }),
{
    let ghost exts = extensions@;
    let ghost pred = |p: (String, String)| matches_any_ext(p.0@, exts);
    let mut out: Vec<(String, String)> = Vec::new();
    let mut i: usize = 0;
    proof {
        reveal(Seq::filter);
        assert(hashmap@.take(0) =~= Seq::<(String, String)>::empty());
        assert(out@ =~= hashmap@.take(0).filter(pred));
    }
    while i < hashmap.len()
        invariant
            0 <= i <= hashmap@.len(),
            exts == extensions@,
            pred == (|p: (String, String)| matches_any_ext(p.0@, exts)),
            out@ == hashmap@.take(i as int).filter(pred),
        decreases hashmap@.len() - i,
    {
        if key_matches(hashmap[i].0.as_str(), &extensions) {
            out.push((hashmap[i].0.clone(), hashmap[i].1.clone()));
        }
        i += 1;
        proof {
            reveal(Seq::filter);
            let prefix = hashmap@.take(i as int);
            assert(prefix.drop_last() =~= hashmap@.take(i - 1));
            assert(prefix.last() == hashmap@[i - 1]);
        }
    }
    proof {
        assert(hashmap@.take(hashmap@.len() as int) =~= hashmap@);
    }
    out
}

/// Keeps the entries whose key ends with one of the extensions and
/// passes the given test.  Everything kept comes from the input and
/// matches an extension; which of those entries the test keeps is the
/// caller's closure's affair.
pub fn lookup_for_extensions_and_predicate<F: Fn(&str) -> bool>(
    hashmap: Vec<(String, String)>,
    extensions: Vec<&str>,
    predicate: F,
) -> (r: Vec<(String, String)>)
    requires
        forall|k: &str| #[trigger] predicate.requires((k,)),
    ensures
        forall|i: int|
            0 <= i < r@.len() ==> matches_any_ext((#[trigger] r@[i]).0@, extensions@)
                && hashmap@.contains(r@[i]),
{
    let mut out: Vec<(String, String)> = Vec::new();
    let mut i: usize = 0;
    while i < hashmap.len()
        invariant
            0 <= i <= hashmap@.len(),
            forall|k: &str| #[trigger] predicate.requires((k,)),
            forall|j: int|
                0 <= j < out@.len() ==> matches_any_ext((#[trigger] out@[j]).0@, extensions@)
                    && hashmap@.contains(out@[j]),
        decreases hashmap@.len() - i,
    {
        if key_matches(hashmap[i].0.as_str(), &extensions) && predicate(hashmap[i].0.as_str()) {
            out.push((hashmap[i].0.clone(), hashmap[i].1.clone()));
            proof {
                assert(out@.last() == hashmap@[i as int]);
                assert(hashmap@.contains(hashmap@[i as int]));
            }
        }
        i += 1;
    }
    out
}

} // verus!
