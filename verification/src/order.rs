//! The order on names: lexicographic on UTF-8 bytes, which is the order that
//! `str` and `String` compare by.

use vstd::prelude::*;
use vstd::utf8::*;

verus! {

/// `a` comes strictly before `b` when both are compared from index `i` on.
pub open spec fn lex_lt_from(a: Seq<u8>, b: Seq<u8>, i: int) -> bool
    decreases a.len() - i,
{
    if i < 0 || i >= a.len() {
        0 <= i < b.len()
    } else if i >= b.len() {
        false
    } else if a[i] < b[i] {
        true
    } else if a[i] > b[i] {
        false
    } else {
        lex_lt_from(a, b, i + 1)
    }
}

/// Strict lexicographic order on byte sequences.
pub open spec fn lex_lt(a: Seq<u8>, b: Seq<u8>) -> bool {
    lex_lt_from(a, b, 0)
}

/// Strict order on names: their UTF-8 bytes compared lexicographically.
pub open spec fn name_lt(a: Seq<char>, b: Seq<char>) -> bool {
    lex_lt(encode_utf8(a), encode_utf8(b))
}

/// Names in strictly increasing order (so each occurs once).
pub open spec fn strictly_sorted(s: Seq<Seq<char>>) -> bool {
    forall|i: int, j: int| 0 <= i < j < s.len() ==> name_lt(#[trigger] s[i], #[trigger] s[j])
}

/// The names held by a sequence of strings.
pub open spec fn string_views(v: Seq<String>) -> Seq<Seq<char>> {
    v.map_values(|s: String| s@)
}

proof fn lemma_lex_from_irreflexive(a: Seq<u8>, i: int)
    requires
        0 <= i,
    ensures
        !lex_lt_from(a, a, i),
    decreases a.len() - i,
{
    if i < a.len() {
        lemma_lex_from_irreflexive(a, i + 1);
    }
}

proof fn lemma_lex_from_asym(a: Seq<u8>, b: Seq<u8>, i: int)
    requires
        0 <= i,
    ensures
        !(lex_lt_from(a, b, i) && lex_lt_from(b, a, i)),
    decreases a.len() - i,
{
    if i < a.len() && i < b.len() && a[i] == b[i] {
        lemma_lex_from_asym(a, b, i + 1);
    }
}

proof fn lemma_lex_from_trans(a: Seq<u8>, b: Seq<u8>, c: Seq<u8>, i: int)
    requires
        0 <= i,
        lex_lt_from(a, b, i),
        lex_lt_from(b, c, i),
    ensures
        lex_lt_from(a, c, i),
    decreases a.len() - i,
{
    if i < a.len() && i < b.len() && i < c.len() && a[i] == b[i] && b[i] == c[i] {
        lemma_lex_from_trans(a, b, c, i + 1);
    }
}

proof fn lemma_lex_from_total(a: Seq<u8>, b: Seq<u8>, i: int)
    requires
        0 <= i <= a.len(),
        i <= b.len(),
        a.subrange(0, i) == b.subrange(0, i),
        a != b,
    ensures
        lex_lt_from(a, b, i) || lex_lt_from(b, a, i),
    decreases a.len() - i,
{
    if i < a.len() && i < b.len() && a[i] == b[i] {
        assert(a.subrange(0, i + 1) =~= a.subrange(0, i).push(a[i]));
        assert(b.subrange(0, i + 1) =~= b.subrange(0, i).push(b[i]));
        lemma_lex_from_total(a, b, i + 1);
    } else if i == a.len() && i == b.len() {
        assert(a =~= a.subrange(0, i));
        assert(b =~= b.subrange(0, i));
    }
}

/// `name_lt` is irreflexive.
pub proof fn lemma_name_lt_irreflexive(a: Seq<char>)
    ensures
        !name_lt(a, a),
{
    lemma_lex_from_irreflexive(encode_utf8(a), 0);
}

/// `name_lt` is asymmetric.
pub proof fn lemma_name_lt_asym(a: Seq<char>, b: Seq<char>)
    ensures
        !(name_lt(a, b) && name_lt(b, a)),
{
    lemma_lex_from_asym(encode_utf8(a), encode_utf8(b), 0);
}

/// `name_lt` is transitive.
pub proof fn lemma_name_lt_trans(a: Seq<char>, b: Seq<char>, c: Seq<char>)
    requires
        name_lt(a, b),
        name_lt(b, c),
    ensures
        name_lt(a, c),
{
    lemma_lex_from_trans(encode_utf8(a), encode_utf8(b), encode_utf8(c), 0);
}

/// Two different names are ordered one way or the other.
pub proof fn lemma_name_lt_total(a: Seq<char>, b: Seq<char>)
    requires
        a != b,
    ensures
        name_lt(a, b) || name_lt(b, a),
{
    encode_utf8_decode_utf8(a);
    encode_utf8_decode_utf8(b);
    let ea = encode_utf8(a);
    let eb = encode_utf8(b);
    assert(ea != eb);
    assert(ea.subrange(0, 0) =~= eb.subrange(0, 0));
    lemma_lex_from_total(ea, eb, 0);
}

/// Compares two byte strings lexicographically.
pub fn bytes_lt(a: &[u8], b: &[u8]) -> (r: bool)
    ensures
        r == lex_lt(a@, b@),
{
    let mut i: usize = 0;
    while i < a.len() && i < b.len()
        invariant
            i <= a@.len(),
            i <= b@.len(),
            lex_lt_from(a@, b@, 0) == lex_lt_from(a@, b@, i as int),
        decreases a@.len() - i,
    {
        if a[i] < b[i] {
            return true;
        } else if a[i] > b[i] {
            return false;
        }
        i = i + 1;
    }
    i < b.len()
}

/// Whether name `a` comes strictly before name `b`.
pub fn str_lt(a: &str, b: &str) -> (r: bool)
    ensures
        r == name_lt(a@, b@),
{
    bytes_lt(a.as_bytes(), b.as_bytes())
}

/// Whether two strings hold the same name.
pub fn str_eq(a: &str, b: &str) -> (r: bool)
    ensures
        r == (a@ == b@),
{
    let ab = a.as_bytes();
    let bb = b.as_bytes();
    proof {
        encode_utf8_decode_utf8(a@);
        encode_utf8_decode_utf8(b@);
    }
    if ab.len() != bb.len() {
        return false;
    }
    let mut i: usize = 0;
    while i < ab.len()
        invariant
            ab@.len() == bb@.len(),
            ab@ == encode_utf8(a@),
            bb@ == encode_utf8(b@),
            i <= ab@.len(),
            forall|k: int| 0 <= k < i ==> ab@[k] == bb@[k],
        decreases ab@.len() - i,
    {
        if ab[i] != bb[i] {
            assert(ab@[i as int] != bb@[i as int]);
            return false;
        }
        i = i + 1;
    }
    assert(ab@ =~= bb@);
    true
}

/// The names of `v`, each once, in increasing order.
pub fn sorted_unique(v: &Vec<String>) -> (r: Vec<String>)
    ensures
        strictly_sorted(string_views(r@)),
        string_views(r@).to_set() == string_views(v@).to_set(),
{
    let mut r: Vec<String> = Vec::new();
    let mut i: usize = 0;
    while i < v.len()
        invariant
            i <= v@.len(),
            strictly_sorted(string_views(r@)),
            string_views(r@).to_set() == string_views(v@.take(i as int)).to_set(),
        decreases v@.len() - i,
    {
        let s = &v[i];
        let mut p: usize = 0;
        while p < r.len() && str_lt(r[p].as_str(), s.as_str())
            invariant
                p <= r@.len(),
                forall|k: int| 0 <= k < p ==> name_lt(#[trigger] string_views(r@)[k], s@),
            decreases r@.len() - p,
        {
            p = p + 1;
        }
        let ghost old_r = string_views(r@);
        proof {
            assert(v@.take(i + 1) =~= v@.take(i as int).push(v@[i as int]));
            assert(string_views(v@.take(i + 1)) =~= string_views(v@.take(i as int)).push(s@));
            string_views(v@.take(i as int)).lemma_push_to_set_commute(s@);
        }
        if p < r.len() && str_eq(r[p].as_str(), s.as_str()) {
            proof {
                assert(old_r.contains(s@)) by { assert(old_r[p as int] == s@); }
                assert(string_views(v@.take(i + 1)).to_set() =~= old_r.to_set().insert(s@));
                assert(old_r.to_set().insert(s@) =~= old_r.to_set());
            }
        } else {
            proof {
                if p < r@.len() {
                    lemma_name_lt_total(old_r[p as int], s@);
                    assert(name_lt(s@, old_r[p as int]));
                    assert forall|k: int| p <= k < old_r.len() implies name_lt(s@, #[trigger] old_r[k]) by {
                        if k > p {
                            lemma_name_lt_trans(s@, old_r[p as int], old_r[k]);
                        }
                    }
                }
            }
            r.insert(p, s.clone());
            proof {
                let nr = string_views(r@);
                assert(nr =~= old_r.insert(p as int, s@));
                assert forall|a: int, b: int| 0 <= a < b < nr.len() implies name_lt(#[trigger] nr[a], #[trigger] nr[b]) by {
                    if b < p {
                    } else if a < p && b == p {
                    } else if a < p && b > p {
                        assert(name_lt(s@, old_r[b - 1]));
                        lemma_name_lt_trans(old_r[a], s@, old_r[b - 1]);
                    } else if a == p {
                        assert(name_lt(s@, old_r[b - 1]));
                    } else {
                    }
                }
                assert(nr.to_set() =~= old_r.to_set().insert(s@)) by {
                    assert forall|x| nr.to_set().contains(x) implies old_r.to_set().insert(s@).contains(x) by {
                        let k = choose|k: int| 0 <= k < nr.len() && nr[k] == x;
                        if k < p { assert(old_r[k] == x); } else if k > p { assert(old_r[k - 1] == x); }
                    }
                    assert forall|x| old_r.to_set().insert(s@).contains(x) implies nr.to_set().contains(x) by {
                        if x == s@ {
                            assert(nr[p as int] == x);
                        } else {
                            let k = choose|k: int| 0 <= k < old_r.len() && old_r[k] == x;
                            if k < p { assert(nr[k] == x); } else { assert(nr[k + 1] == x); }
                        }
                    }
                }
            }
        }
        i = i + 1;
    }
    assert(v@.take(i as int) =~= v@);
    r
}

/// Appends a copy of a string.
pub fn push_string(out: &mut Vec<String>, s: &String)
    ensures
        string_views(final(out)@) == string_views(old(out)@).push(s@),
{
    out.push(s.clone());
    assert(string_views(final(out)@) =~= string_views(old(out)@).push(s@));
}

/// Appends copies of strings.
pub fn append_strings(out: &mut Vec<String>, src: &Vec<String>)
    ensures
        string_views(final(out)@) == string_views(old(out)@) + string_views(src@),
{
    let ghost before = string_views(out@);
    let mut j: usize = 0;
    while j < src.len()
        invariant
            j <= src@.len(),
            string_views(out@) == before + string_views(src@).take(j as int),
        decreases src@.len() - j,
    {
        push_string(out, &src[j]);
        j = j + 1;
        assert(string_views(out@) =~= before + string_views(src@).take(j as int));
    }
    assert(string_views(src@).take(j as int) =~= string_views(src@));
}

} // verus!
