//! Small verified string helpers shared by the bundling pipeline:
//! case-insensitive prefix tests, suffix tests, equality, lexicographic
//! ordering, global substring replacement and decimal formatting.

use vstd::prelude::*;

verus! {

/// The code point of `c` after ASCII lower-casing; characters outside
/// `'A'..='Z'` are unchanged.
pub open spec fn lower_code(c: char) -> int {
    if 'A' <= c && c <= 'Z' {
        c as int + 32
    } else {
        c as int
    }
}

/// `s` starts with `p` when compared ASCII-case-insensitively;
/// `p` is expected to hold no upper-case ASCII letter.
pub open spec fn starts_with_ci(s: Seq<char>, p: Seq<char>) -> bool {
    s.len() >= p.len() && forall|i: int| 0 <= i < p.len() ==> lower_code(s[i]) == #[trigger] p[i] as int
}

/// ASCII-case-insensitive prefix test.
pub fn str_starts_with_ci(s: &str, p: &str) -> (r: bool)
    ensures
        r == starts_with_ci(s@, p@),
{
    let s_len = s.unicode_len();
    let p_len = p.unicode_len();
    if s_len < p_len {
        return false;
    }
    let mut i: usize = 0;
    while i < p_len
        invariant
            0 <= i <= p_len,
            p_len == p@.len(),
            p_len <= s_len == s@.len(),
            forall|j: int| 0 <= j < i ==> lower_code(s@[j]) == #[trigger] p@[j] as int,
        decreases p_len - i,
    {
        let sc = s.get_char(i) as u32;
        let pc = p.get_char(i) as u32;
        let lowered: u32 = if 65 <= sc && sc <= 90 {
            sc + 32
        } else {
            sc
        };
        if lowered != pc {
            return false;
        }
        i += 1;
    }
    true
}

/// `s` ends with `p`.
pub open spec fn ends_with(s: Seq<char>, p: Seq<char>) -> bool {
    s.len() >= p.len() && s.skip(s.len() - p.len()) == p
}

/// Suffix test.
pub fn str_ends_with(s: &str, p: &str) -> (r: bool)
    ensures
        r == ends_with(s@, p@),
{
    let s_len = s.unicode_len();
    let p_len = p.unicode_len();
    if s_len < p_len {
        proof {
            assert(!ends_with(s@, p@));
        }
        return false;
    }
    let offset = s_len - p_len;
    let mut i: usize = 0;
    while i < p_len
        invariant
            0 <= i <= p_len,
            p_len == p@.len(),
            p_len <= s_len == s@.len(),
            offset == s_len - p_len,
            forall|j: int| 0 <= j < i ==> s@[offset + j] == #[trigger] p@[j],
        decreases p_len - i,
    {
        if s.get_char(offset + i) != p.get_char(i) {
            proof {
                assert(s@.skip(s@.len() - p@.len())[i as int] != p@[i as int]);
            }
            return false;
        }
        i += 1;
    }
    proof {
        assert(s@.skip(s@.len() - p@.len()) =~= p@);
    }
    true
}

/// String equality on the character sequences.
pub fn str_eq(a: &str, b: &str) -> (r: bool)
    ensures
        r == (a@ == b@),
{
    let a_len = a.unicode_len();
    let b_len = b.unicode_len();
    if a_len != b_len {
        return false;
    }
    let mut i: usize = 0;
    while i < a_len
        invariant
            0 <= i <= a_len,
            a_len == a@.len() == b@.len(),
            forall|j: int| 0 <= j < i ==> a@[j] == #[trigger] b@[j],
        decreases a_len - i,
    {
        if a.get_char(i) != b.get_char(i) {
            return false;
        }
        i += 1;
    }
    proof {
        assert(a@ =~= b@);
    }
    true
}

/// `h` holds `n` at position `i`.
pub open spec fn matches_at(h: Seq<char>, n: Seq<char>, i: int) -> bool {
    0 <= i && i + n.len() <= h.len() && h.subrange(i, i + n.len()) == n
}

/// Substring test at a fixed position.
fn str_matches_at(h: &str, n: &str, i: usize) -> (r: bool)
    requires
        i + n@.len() <= h@.len(),
    ensures
        r == matches_at(h@, n@, i as int),
{
    let h_len = h.unicode_len();
    let n_len = n.unicode_len();
    let mut j: usize = 0;
    while j < n_len
        invariant
            0 <= j <= n_len,
            n_len == n@.len(),
            h_len == h@.len(),
            i + n_len <= h_len,
            forall|k: int| 0 <= k < j ==> h@[i + k] == #[trigger] n@[k],
        decreases n_len - j,
    {
        if h.get_char(i + j) != n.get_char(j) {
            proof {
                assert(h@.subrange(i as int, i + n@.len())[j as int] != n@[j as int]);
            }
            return false;
        }
        j += 1;
    }
    proof {
        assert(h@.subrange(i as int, i + n@.len()) =~= n@);
    }
    true
}

/// The result of replacing, left to right, every non-overlapping occurrence
/// of `n` in `h` by `rep`.  With an empty `n` the text is unchanged.
pub open spec fn spec_replace_all(h: Seq<char>, n: Seq<char>, rep: Seq<char>) -> Seq<char>
    decreases h.len(),
{
    if n.len() == 0 || h.len() < n.len() {
        h
    } else if h.subrange(0, n.len() as int) == n {
        rep + spec_replace_all(h.skip(n.len() as int), n, rep)
    } else {
        seq![h[0]] + spec_replace_all(h.skip(1), n, rep)
    }
}

/// Replaces every non-overlapping occurrence of `n` in `h` by `rep`,
/// scanning from the left, exactly as `spec_replace_all` describes.
pub fn replace_all(h: &str, n: &str, rep: &str) -> (r: String)
    ensures
        r@ == spec_replace_all(h@, n@, rep@),
{
    let h_len = h.unicode_len();
    let n_len = n.unicode_len();
    if n_len == 0 {
        return h.to_owned();
    }
    let mut res = String::new();
    let mut i: usize = 0;
    proof {
        assert(h@.skip(0) =~= h@);
        assert(res@ + spec_replace_all(h@, n@, rep@) =~= spec_replace_all(h@, n@, rep@));
    }
    while i < h_len
        invariant
            1 <= n_len == n@.len(),
            h_len == h@.len(),
            0 <= i <= h_len,
            spec_replace_all(h@, n@, rep@) == res@ + spec_replace_all(
                h@.skip(i as int),
                n@,
                rep@,
            ),
        decreases h_len - i,
    {
        let ghost tail = h@.skip(i as int);
        let ghost old_res = res@;
        if n_len <= h_len - i && str_matches_at(h, n, i) {
            proof {
                assert(tail.subrange(0, n@.len() as int) =~= h@.subrange(
                    i as int,
                    i + n@.len(),
                ));
                assert(tail.skip(n@.len() as int) =~= h@.skip(i + n@.len()));
            }
            res.append(rep);
            i += n_len;
            proof {
                let spec_tail = spec_replace_all(h@.skip(i as int), n@, rep@);
                assert(spec_replace_all(tail, n@, rep@) == rep@ + spec_tail);
                assert((old_res + rep@) + spec_tail =~= old_res + (rep@ + spec_tail));
            }
        } else {
            let piece = h.substring_char(i, i + 1);
            proof {
                if i + n_len <= h_len {
                    assert(tail.subrange(0, n@.len() as int) =~= h@.subrange(
                        i as int,
                        i + n@.len(),
                    ));
                    assert(tail.subrange(0, n@.len() as int) != n@);
                } else {
                    assert(tail.len() < n@.len());
                }
                assert(tail.skip(1) =~= h@.skip(i + 1));
                assert(piece@ =~= seq![h@[i as int]]);
                if tail.len() < n@.len() {
                    assert(spec_replace_all(tail, n@, rep@) == tail);
                    assert(spec_replace_all(h@.skip(i + 1), n@, rep@) == h@.skip(i + 1));
                    assert(tail =~= seq![h@[i as int]] + h@.skip(i + 1));
                }
            }
            res.append(piece);
            i += 1;
            proof {
                let c = h@[i - 1];
                let spec_tail = spec_replace_all(h@.skip(i as int), n@, rep@);
                assert(spec_replace_all(tail, n@, rep@) == seq![c] + spec_tail);
                assert((old_res + seq![c]) + spec_tail =~= old_res + (seq![c] + spec_tail));
            }
        }
        proof {
            assert(spec_replace_all(h@, n@, rep@) == res@ + spec_replace_all(
                h@.skip(i as int),
                n@,
                rep@,
            ));
        }
    }
    proof {
        assert(h@.skip(h@.len() as int) =~= Seq::<char>::empty());
        assert(spec_replace_all(Seq::<char>::empty(), n@, rep@) == Seq::<char>::empty());
        assert(res@ + Seq::<char>::empty() =~= res@);
    }
    res
}

/// Lexicographic order on character sequences, by code point.
pub open spec fn lex_le(a: Seq<char>, b: Seq<char>) -> bool
    decreases a.len(),
{
    if a.len() == 0 {
        true
    } else if b.len() == 0 {
        false
    } else if (a[0] as int) < (b[0] as int) {
        true
    } else if (a[0] as int) > (b[0] as int) {
        false
    } else {
        lex_le(a.skip(1), b.skip(1))
    }
}

/// `lex_le` is a total order: two sequences below one another are equal,
/// and any two are comparable.
pub proof fn lemma_lex_total(a: Seq<char>, b: Seq<char>)
    ensures
        lex_le(a, b) || lex_le(b, a),
        (lex_le(a, b) && lex_le(b, a)) ==> a == b,
    decreases a.len(),
{
    if a.len() == 0 {
        if lex_le(b, a) {
            assert(a =~= b);
        }
    } else if b.len() == 0 {
    } else if a[0] as int == b[0] as int {
        assert(a[0] == b[0]);
        lemma_lex_total(a.skip(1), b.skip(1));
        if lex_le(a, b) && lex_le(b, a) {
            assert(a.skip(1) == b.skip(1));
            assert(a =~= seq![a[0]] + a.skip(1));
            assert(b =~= seq![b[0]] + b.skip(1));
        }
    }
}

/// The order is transitive.
pub proof fn lemma_lex_trans(a: Seq<char>, b: Seq<char>, c: Seq<char>)
    requires
        lex_le(a, b),
        lex_le(b, c),
    ensures
        lex_le(a, c),
    decreases a.len(),
{
    if a.len() == 0 {
    } else {
        assert(b.len() > 0);
        assert(c.len() > 0);
        if (a[0] as int) == (b[0] as int) && (b[0] as int) == (c[0] as int) {
            lemma_lex_trans(a.skip(1), b.skip(1), c.skip(1));
        }
    }
}

/// Strict transitivity: strictly below twice is strictly below.
pub proof fn lemma_lex_lt_trans(a: Seq<char>, b: Seq<char>, c: Seq<char>)
    requires
        lex_le(a, b),
        a != b,
        lex_le(b, c),
        b != c,
    ensures
        lex_le(a, c),
        a != c,
{
    lemma_lex_trans(a, b, c);
    if a == c {
        lemma_lex_total(a, b);
    }
}

/// Lexicographic comparison, `a <= b`.
pub fn str_lex_le(a: &str, b: &str) -> (r: bool)
    ensures
        r == lex_le(a@, b@),
    decreases a@.len(),
{
    let a_len = a.unicode_len();
    let b_len = b.unicode_len();
    if a_len == 0 {
        return true;
    }
    if b_len == 0 {
        return false;
    }
    let ca = a.get_char(0) as u32;
    let cb = b.get_char(0) as u32;
    if ca < cb {
        true
    } else if ca > cb {
        false
    } else {
        let a_rest = a.substring_char(1, a_len);
        let b_rest = b.substring_char(1, b_len);
        proof {
            assert(a_rest@ =~= a@.skip(1));
            assert(b_rest@ =~= b@.skip(1));
        }
        str_lex_le(a_rest, b_rest)
    }
}

} // verus!
