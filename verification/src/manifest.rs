//! The asset manifest: an ordered mapping from logical path to published
//! path, normalized to root-relative form, closed by the well-known
//! self-referential entry, and serialized as the `assetMap.json` document.

use vstd::prelude::*;
use crate::strutil::lex_le;
use crate::strutil::str_lex_le;
use crate::strutil::str_eq;

verus! {

/// Strict lexicographic order.
pub open spec fn lex_lt(a: Seq<char>, b: Seq<char>) -> bool {
    lex_le(a, b) && a != b
}

/// The character sequences behind a vector of string pairs.
pub open spec fn view_pairs(s: Seq<(String, String)>) -> Seq<(Seq<char>, Seq<char>)> {
    s.map_values(|p: (String, String)| (p.0@, p.1@))
}

/// `s` without a single leading slash, if it has one.
pub open spec fn spec_strip_slash(s: Seq<char>) -> Seq<char> {
    if s.len() > 0 && s[0] == '/' {
        s.skip(1)
    } else {
        s
    }
}

/// Removes one leading slash, normalizing a path to root-relative form.
pub fn strip_leading_slash(s: &str) -> (r: String)
    ensures
        r@ == spec_strip_slash(s@),
{
    let len = s.unicode_len();
    if len > 0 && s.get_char(0) == '/' {
        let r = s.substring_char(1, len).to_owned();
        proof {
            assert(r@ =~= s@.skip(1));
        }
        r
    } else {
        s.to_owned()
    }
}

/// The manifest's own logical path, which maps to itself: the manifest
/// never hashes its own file.
pub open spec fn asset_map_key() -> Seq<char> {
    seq![
        'a', 's', 's', 'e', 't', 's', '/', 'a', 's', 's', 'e', 't', 'M', 'a', 'p', '.', 'j', 's',
        'o', 'n',
    ]
}

/// Entry insertion into a key-ordered pair sequence: the new pair lands
/// before the first key not below it, replacing an equal key.
pub open spec fn spec_insert_pair(
    s: Seq<(Seq<char>, Seq<char>)>,
    k: Seq<char>,
    v: Seq<char>,
) -> Seq<(Seq<char>, Seq<char>)>
    decreases s.len(),
{
    if s.len() == 0 {
        seq![(k, v)]
    } else if lex_lt(k, s[0].0) {
        seq![(k, v)] + s
    } else if k == s[0].0 {
        seq![(k, v)] + s.skip(1)
    } else {
        seq![s[0]] + spec_insert_pair(s.skip(1), k, v)
    }
}

/// The entries after inserting every normalized pair, in order.
pub open spec fn spec_insert_all(
    acc: Seq<(Seq<char>, Seq<char>)>,
    pairs: Seq<(Seq<char>, Seq<char>)>,
) -> Seq<(Seq<char>, Seq<char>)>
    decreases pairs.len(),
{
    if pairs.len() == 0 {
        acc
    } else {
        spec_insert_all(
            spec_insert_pair(
                acc,
                spec_strip_slash(pairs[0].0),
                spec_strip_slash(pairs[0].1),
            ),
            pairs.skip(1),
        )
    }
}

/// The complete manifest contents for the given hashed-filename pairs.
pub open spec fn spec_manifest_entries(pairs: Seq<(Seq<char>, Seq<char>)>) -> Seq<
    (Seq<char>, Seq<char>),
> {
    spec_insert_pair(spec_insert_all(Seq::empty(), pairs), asset_map_key(), asset_map_key())
}

/// The value of the first entry holding `k`.
pub open spec fn spec_lookup(s: Seq<(Seq<char>, Seq<char>)>, k: Seq<char>) -> Option<Seq<char>>
    decreases s.len(),
{
    if s.len() == 0 {
        None
    } else if s[0].0 == k {
        Some(s[0].1)
    } else {
        spec_lookup(s.skip(1), k)
    }
}

/// The ordered logical-path to published-path mapping handed to the SSR
/// host and serialized as `assetMap.json`.
#[derive(Debug)]
pub struct AssetManifest {
    pub entries: Vec<(String, String)>,
}

impl AssetManifest {
    /// The abstract contents: key and value character sequences, in order.
    pub open spec fn view_entries(&self) -> Seq<(Seq<char>, Seq<char>)> {
        view_pairs(self.entries@)
    }

    /// The published path recorded for `k`.
    pub open spec fn spec_get(&self, k: Seq<char>) -> Option<Seq<char>> {
        spec_lookup(self.view_entries(), k)
    }

    /// Looks up the published path of a logical path.
    pub fn get(&self, key: &str) -> (r: Option<&String>)
        ensures
            match r {
                Some(v) => self.spec_get(key@) == Some(v@),
                None => self.spec_get(key@) is None,
            },
    {
        let mut i: usize = 0;
        proof {
            assert(self.view_entries().skip(0) =~= self.view_entries());
        }
        while i < self.entries.len()
            invariant
                0 <= i <= self.entries@.len(),
                spec_lookup(self.view_entries(), key@) == spec_lookup(
                    self.view_entries().skip(i as int),
                    key@,
                ),
            decreases self.entries@.len() - i,
        {
            let ghost tail = self.view_entries().skip(i as int);
            proof {
                assert(tail[0] == self.view_entries()[i as int]);
                assert(tail.skip(1) =~= self.view_entries().skip(i + 1));
            }
            if str_eq(self.entries[i].0.as_str(), key) {
                return Some(&self.entries[i].1);
            }
            i += 1;
        }
        proof {
            assert(self.view_entries().skip(i as int) =~= Seq::<(Seq<char>, Seq<char>)>::empty());
        }
        None
    }
}

proof fn lemma_insert_pair_skip(
    s: Seq<(Seq<char>, Seq<char>)>,
    k: Seq<char>,
    v: Seq<char>,
    pos: int,
)
    requires
        0 <= pos <= s.len(),
        forall|i: int| 0 <= i < pos ==> lex_lt(#[trigger] s[i].0, k),
    ensures
        spec_insert_pair(s, k, v) == s.take(pos) + spec_insert_pair(s.skip(pos), k, v),
    decreases pos,
{
    if pos == 0 {
        assert(s.take(0) =~= Seq::<(Seq<char>, Seq<char>)>::empty());
        assert(s.skip(0) =~= s);
        assert(s.take(0) + spec_insert_pair(s, k, v) =~= spec_insert_pair(s, k, v));
    } else {
        assert(s.len() > 0);
        assert(lex_lt(s[0].0, k));
        crate::strutil::lemma_lex_total(k, s[0].0);
        assert(!lex_lt(k, s[0].0) && k != s[0].0);
        lemma_insert_pair_skip(s.skip(1), k, v, pos - 1);
        assert(s.skip(1).take(pos - 1) =~= s.take(pos).skip(1));
        assert(s.skip(1).skip(pos - 1) =~= s.skip(pos));
        assert(seq![s[0]] + (s.take(pos).skip(1) + spec_insert_pair(s.skip(pos), k, v)) =~= s.take(
            pos,
        ) + spec_insert_pair(s.skip(pos), k, v));
    }
}

/// Finds where a key belongs: past every strictly smaller key.
fn find_insert_pos(entries: &Vec<(String, String)>, k: &str) -> (pos: usize)
    ensures
        0 <= pos <= entries@.len(),
        forall|i: int| 0 <= i < pos ==> lex_lt(#[trigger] view_pairs(entries@)[i].0, k@),
        pos < entries@.len() ==> !lex_lt(view_pairs(entries@)[pos as int].0, k@),
{
    let mut pos: usize = 0;
    while pos < entries.len()
        invariant
            0 <= pos <= entries@.len(),
            forall|i: int| 0 <= i < pos ==> lex_lt(#[trigger] view_pairs(entries@)[i].0, k@),
        decreases entries@.len() - pos,
    {
        let below = str_lex_le(entries[pos].0.as_str(), k) && !str_eq(entries[pos].0.as_str(), k);
        if !below {
            return pos;
        }
        pos += 1;
    }
    pos
}

/// Inserts one normalized pair into the ordered entry list.
fn insert_pair(entries: &mut Vec<(String, String)>, k: String, v: String)
    ensures
        view_pairs(final(entries)@) == spec_insert_pair(view_pairs(old(entries)@), k@, v@),
{
    let ghost s = view_pairs(entries@);
    let pos = find_insert_pos(entries, k.as_str());
    proof {
        lemma_insert_pair_skip(s, k@, v@, pos as int);
        if pos < s.len() {
            crate::strutil::lemma_lex_total(k@, s[pos as int].0);
        }
    }
    let ghost tail = s.skip(pos as int);
    if pos < entries.len() && str_eq(entries[pos].0.as_str(), k.as_str()) {
        entries.set(pos, (k, v));
        proof {
            assert(tail[0].0 == s[pos as int].0);
            assert(spec_insert_pair(tail, k@, v@) == seq![(k@, v@)] + tail.skip(1));
            assert(view_pairs(entries@) =~= s.take(pos as int) + (seq![(k@, v@)] + tail.skip(1)));
        }
    } else {
        proof {
            if pos < s.len() {
                assert(tail[0].0 == s[pos as int].0);
                assert(lex_lt(k@, tail[0].0));
                assert(spec_insert_pair(tail, k@, v@) == seq![(k@, v@)] + tail);
            } else {
                assert(tail =~= Seq::<(Seq<char>, Seq<char>)>::empty());
                assert(spec_insert_pair(tail, k@, v@) == seq![(k@, v@)]);
            }
        }
        entries.insert(pos, (k, v));
        proof {
            assert(view_pairs(entries@) =~= s.take(pos as int) + (seq![(k@, v@)] + tail));
        }
    }
}

/// Builds the asset manifest from the hashed-filename pairs: one leading
/// slash is stripped from each key and value, the entries are kept in
/// ascending key order, and the self-referential `assetMap.json` entry is
/// appended last.
pub fn build_manifest(pairs: &Vec<(String, String)>) -> (r: AssetManifest)
    ensures
        r.view_entries() == spec_manifest_entries(view_pairs(pairs@)),
{
    let ghost ps = view_pairs(pairs@);
    let mut entries: Vec<(String, String)> = Vec::new();
    let mut i: usize = 0;
    proof {
        assert(view_pairs(entries@) =~= Seq::<(Seq<char>, Seq<char>)>::empty());
        assert(ps.skip(0) =~= ps);
    }
    while i < pairs.len()
        invariant
            0 <= i <= pairs@.len(),
            ps == view_pairs(pairs@),
            spec_insert_all(view_pairs(entries@), ps.skip(i as int)) == spec_insert_all(
                Seq::empty(),
                ps,
            ),
        decreases pairs@.len() - i,
    {
        let ghost tail = ps.skip(i as int);
        proof {
            assert(tail[0] == ps[i as int]);
            assert(tail.skip(1) =~= ps.skip(i + 1));
        }
        let key = strip_leading_slash(pairs[i].0.as_str());
        let value = strip_leading_slash(pairs[i].1.as_str());
        insert_pair(&mut entries, key, value);
        i += 1;
    }
    proof {
        assert(ps.skip(ps.len() as int) =~= Seq::<(Seq<char>, Seq<char>)>::empty());
    }
    let self_key = asset_map_literal();
    let self_value = asset_map_literal();
    let mut manifest = AssetManifest { entries };
    insert_pair(&mut manifest.entries, self_key, self_value);
    manifest
}

/// The opening of the manifest document, up to the `assets` object.
pub open spec fn manifest_head() -> Seq<char> {
    seq!['{', '\n', ' ', ' ', '"', 'a', 's', 's', 'e', 't', 's', '"', ':', ' ']
}

/// The closing of the manifest document: the reserved `prepend` field,
/// currently always empty, and the outer brace.
pub open spec fn manifest_tail() -> Seq<char> {
    seq![
        ',', '\n', ' ', ' ', '"', 'p', 'r', 'e', 'p', 'e', 'n', 'd', '"', ':', ' ', '"', '"', '\n',
        '}',
    ]
}

/// One indented `"key": "value"` member line.
pub open spec fn entry_line(k: Seq<char>, v: Seq<char>) -> Seq<char> {
    seq![' ', ' ', ' ', ' '] + crate::json::json_quoted(k) + seq![':', ' ']
        + crate::json::json_quoted(v)
}

/// The member lines of the `assets` object, joined by `,` and newline.
pub open spec fn entry_lines(s: Seq<(Seq<char>, Seq<char>)>) -> Seq<char>
    decreases s.len(),
{
    if s.len() == 0 {
        Seq::empty()
    } else if s.len() == 1 {
        entry_line(s[0].0, s[0].1)
    } else {
        entry_lines(s.drop_last()) + seq![',', '\n'] + entry_line(s.last().0, s.last().1)
    }
}

/// The complete pretty-printed `assetMap.json` document for the given
/// entries.
pub open spec fn spec_manifest_json(s: Seq<(Seq<char>, Seq<char>)>) -> Seq<char> {
    if s.len() == 0 {
        manifest_head() + seq!['{', '}'] + manifest_tail()
    } else {
        manifest_head() + seq!['{', '\n'] + entry_lines(s) + seq!['\n', ' ', ' ', '}']
            + manifest_tail()
    }
}

/// Serializes the manifest as the pretty-printed `assetMap.json` document:
/// the `assets` object holds every entry in stored order, and `prepend` is
/// the reserved, currently empty, string.
pub fn manifest_to_json(m: &AssetManifest) -> (r: String)
    ensures
        r@ == spec_manifest_json(m.view_entries()),
{
    let ghost s = m.view_entries();
    let mut out = "{\n  \"assets\": ".to_owned();
    proof {
        reveal_strlit("{\n  \"assets\": ");
        assert(out@ =~= manifest_head());
    }
    if m.entries.len() == 0 {
        out.append("{}");
        proof {
            reveal_strlit("{}");
            assert(out@ =~= manifest_head() + seq!['{', '}']);
        }
    } else {
        out.append("{\n");
        proof {
            reveal_strlit("{\n");
            assert(out@ =~= manifest_head() + seq!['{', '\n']);
        }
        let mut i: usize = 0;
        while i < m.entries.len()
            invariant
                0 <= i <= m.entries@.len(),
                s == m.view_entries(),
                i > 0 ==> out@ == manifest_head() + seq!['{', '\n'] + entry_lines(
                    s.take(i as int),
                ),
                i == 0 ==> out@ == manifest_head() + seq!['{', '\n'],
            decreases m.entries@.len() - i,
        {
            if i > 0 {
                out.append(",\n");
                proof {
                    reveal_strlit(",\n");
                }
            }
            out.append("    ");
            let qk = crate::json::json_quote(m.entries[i].0.as_str());
            out.append(qk.as_str());
            out.append(": ");
            let qv = crate::json::json_quote(m.entries[i].1.as_str());
            out.append(qv.as_str());
            i += 1;
            proof {
                reveal_strlit("    ");
                reveal_strlit(": ");
                let prefix = s.take(i as int);
                assert(prefix.drop_last() =~= s.take(i - 1));
                assert(prefix.last() == s[i - 1]);
                assert(s[i - 1].0 == m.entries@[i - 1].0@);
                assert(s[i - 1].1 == m.entries@[i - 1].1@);
                if i == 1 {
                    assert(out@ =~= manifest_head() + seq!['{', '\n'] + entry_lines(prefix));
                } else {
                    assert(out@ =~= manifest_head() + seq!['{', '\n'] + entry_lines(prefix));
                }
            }
        }
        proof {
            assert(s.take(s.len() as int) =~= s);
        }
        out.append("\n  }");
        proof {
            reveal_strlit("\n  }");
            assert("\n  }"@ =~= seq!['\n', ' ', ' ', '}']);
        }
    }
    out.append(",\n  \"prepend\": \"\"\n}");
    proof {
        reveal_strlit(",\n  \"prepend\": \"\"\n}");
        assert(",\n  \"prepend\": \"\"\n}"@ =~= manifest_tail());
        assert(out@ =~= spec_manifest_json(s));
    }
    out
}

/// Keys strictly ascend: sorted, and therefore unique.
pub open spec fn sorted_keys(s: Seq<(Seq<char>, Seq<char>)>) -> bool {
    forall|i: int, j: int| 0 <= i < j < s.len() ==> lex_lt((#[trigger] s[i]).0, (#[trigger] s[j]).0)
}

proof fn lemma_insert_pair_sorted(s: Seq<(Seq<char>, Seq<char>)>, k: Seq<char>, v: Seq<char>)
    requires
        sorted_keys(s),
    ensures
        sorted_keys(spec_insert_pair(s, k, v)),
    decreases s.len(),
{
    let out = spec_insert_pair(s, k, v);
    if s.len() == 0 {
    } else if lex_lt(k, s[0].0) {
        assert forall|i: int, j: int| 0 <= i < j < out.len() implies lex_lt(
            (#[trigger] out[i]).0,
            (#[trigger] out[j]).0,
        ) by {
            if i == 0 {
                assert(out[j] == s[j - 1]);
                if j > 1 {
                    crate::strutil::lemma_lex_lt_trans(k, s[0].0, s[j - 1].0);
                }
            } else {
                assert(out[i] == s[i - 1] && out[j] == s[j - 1]);
            }
        }
    } else if k == s[0].0 {
        assert forall|i: int, j: int| 0 <= i < j < out.len() implies lex_lt(
            (#[trigger] out[i]).0,
            (#[trigger] out[j]).0,
        ) by {
            if i == 0 {
                assert(out[j] == s.skip(1)[j - 1]);
                assert(out[j] == s[j]);
            } else {
                assert(out[i] == s[i] && out[j] == s[j]);
            }
        }
    } else {
        assert(forall|i: int, j: int|
            0 <= i < j < s.skip(1).len() ==> lex_lt(
                (#[trigger] s.skip(1)[i]).0,
                (#[trigger] s.skip(1)[j]).0,
            ));
        lemma_insert_pair_sorted(s.skip(1), k, v);
        let inner = spec_insert_pair(s.skip(1), k, v);
        crate::strutil::lemma_lex_total(k, s[0].0);
        assert(lex_lt(s[0].0, k));
        assert forall|i: int, j: int| 0 <= i < j < out.len() implies lex_lt(
            (#[trigger] out[i]).0,
            (#[trigger] out[j]).0,
        ) by {
            if i == 0 {
                assert(out[j] == inner[j - 1]);
                lemma_insert_pair_keys(s.skip(1), k, v, j - 1);
                if inner[j - 1].0 == k {
                } else {
                    let w = choose|w: int|
                        0 <= w < s.skip(1).len() && s.skip(1)[w] == inner[j - 1];
                    assert(s[w + 1] == inner[j - 1]);
                    assert(lex_lt(s[0].0, s[w + 1].0));
                }
            } else {
                assert(out[i] == inner[i - 1] && out[j] == inner[j - 1]);
            }
        }
    }
}

proof fn lemma_insert_pair_keys(s: Seq<(Seq<char>, Seq<char>)>, k: Seq<char>, v: Seq<char>, idx: int)
    requires
        0 <= idx < spec_insert_pair(s, k, v).len(),
    ensures
        spec_insert_pair(s, k, v)[idx].0 == k || s.contains(spec_insert_pair(s, k, v)[idx]),
    decreases s.len(),
{
    let out = spec_insert_pair(s, k, v);
    if s.len() == 0 {
    } else if lex_lt(k, s[0].0) {
        if idx > 0 {
            assert(out[idx] == s[idx - 1]);
        }
    } else if k == s[0].0 {
        if idx > 0 {
            assert(out[idx] == s.skip(1)[idx - 1]);
            assert(s.contains(s[idx]));
        }
    } else {
        if idx == 0 {
            assert(s.contains(s[0]));
        } else {
            lemma_insert_pair_keys(s.skip(1), k, v, idx - 1);
            let inner = spec_insert_pair(s.skip(1), k, v);
            assert(out[idx] == inner[idx - 1]);
            if inner[idx - 1].0 != k {
                let w = choose|w: int| 0 <= w < s.skip(1).len() && s.skip(1)[w] == inner[idx - 1];
                assert(s[w + 1] == inner[idx - 1]);
                assert(s.contains(s[w + 1]));
            }
        }
    }
}

proof fn lemma_insert_all_sorted(
    acc: Seq<(Seq<char>, Seq<char>)>,
    pairs: Seq<(Seq<char>, Seq<char>)>,
)
    requires
        sorted_keys(acc),
    ensures
        sorted_keys(spec_insert_all(acc, pairs)),
    decreases pairs.len(),
{
    if pairs.len() > 0 {
        lemma_insert_pair_sorted(
            acc,
            spec_strip_slash(pairs[0].0),
            spec_strip_slash(pairs[0].1),
        );
        lemma_insert_all_sorted(
            spec_insert_pair(acc, spec_strip_slash(pairs[0].0), spec_strip_slash(pairs[0].1)),
            pairs.skip(1),
        );
    }
}

/// The manifest's keys ascend strictly, whatever pairs it was built from:
/// its serialization is reproducible, and each key appears once.
pub proof fn lemma_manifest_sorted(pairs: Seq<(Seq<char>, Seq<char>)>)
    ensures
        sorted_keys(spec_manifest_entries(pairs)),
{
    assert(sorted_keys(Seq::empty()));
    lemma_insert_all_sorted(Seq::empty(), pairs);
    lemma_insert_pair_sorted(
        spec_insert_all(Seq::empty(), pairs),
        asset_map_key(),
        asset_map_key(),
    );
}

/// The manifest's own path as a string value.
pub fn asset_map_literal() -> (r: String)
    ensures
        r@ == asset_map_key(),
{
    let r = "assets/assetMap.json".to_owned();
    proof {
        reveal_strlit("assets/assetMap.json");
        assert(r@ =~= asset_map_key());
    }
    r
}

} // verus!
