//! Ordering index results by path does not depend on the order in which the
//! index reported them.
use crate::font_match::{bytes_lt, insert_sorted, path_lt, sorted_by_path, FontView};
use vstd::multiset::Multiset;
use vstd::prelude::*;
use vstd::seq_lib::{to_multiset_build, to_multiset_contains, to_multiset_insert, to_multiset_len, to_multiset_remove};
use vstd::utf8::{encode_utf8, encode_utf8_decode_utf8};

verus! {

/// Whether no font of `s` comes strictly before an earlier one by path.
pub open spec fn is_sorted_by_path(s: Seq<FontView>) -> bool {
    forall|i: int, j: int| 0 <= i < j < s.len() ==> !path_lt(#[trigger] s[j], #[trigger] s[i])
}

/// Whether no two different fonts of `s` have the same path.
pub open spec fn has_distinct_paths(s: Seq<FontView>) -> bool {
    forall|i: int, j: int| 0 <= i < j < s.len() ==> (#[trigger] s[i]).0 != (#[trigger] s[j]).0
}

/// Whether two different fonts of `m` never have the same path.
pub open spec fn paths_identify(m: Multiset<FontView>) -> bool {
    forall|u: FontView, v: FontView|
        m.contains(u) && m.contains(v) && u != v ==> (#[trigger] encode_utf8(u.0)) != (
        #[trigger] encode_utf8(v.0))
}

proof fn lemma_bytes_lt_irreflexive(a: Seq<u8>)
    ensures
        !bytes_lt(a, a),
    decreases a.len(),
{
    if a.len() > 0 {
        lemma_bytes_lt_irreflexive(a.drop_first());
    }
}

proof fn lemma_bytes_lt_asymmetric(a: Seq<u8>, b: Seq<u8>)
    ensures
        bytes_lt(a, b) ==> !bytes_lt(b, a),
    decreases a.len(),
{
    if a.len() > 0 && b.len() > 0 && a[0] == b[0] {
        lemma_bytes_lt_asymmetric(a.drop_first(), b.drop_first());
    }
}

proof fn lemma_bytes_lt_total(a: Seq<u8>, b: Seq<u8>)
    ensures
        a != b ==> bytes_lt(a, b) || bytes_lt(b, a),
    decreases a.len(),
{
    if a.len() == 0 && b.len() == 0 {
        assert(a =~= b);
    } else if a.len() > 0 && b.len() > 0 && a[0] == b[0] {
        lemma_bytes_lt_total(a.drop_first(), b.drop_first());
        if a.drop_first() == b.drop_first() {
            assert(a.drop_first().len() == b.drop_first().len());
            assert(a.len() == b.len());
            assert forall|i: int| 0 <= i < a.len() implies a[i] == b[i] by {
                if i > 0 {
                    assert(a[i] == a.drop_first()[i - 1]);
                    assert(b[i] == b.drop_first()[i - 1]);
                }
            }
            assert(a =~= b);
        }
    }
}

proof fn lemma_bytes_lt_transitive(a: Seq<u8>, b: Seq<u8>, c: Seq<u8>)
    requires
        bytes_lt(a, b),
        bytes_lt(b, c),
    ensures
        bytes_lt(a, c),
    decreases a.len(),
{
    if a.len() > 0 && b.len() > 0 && c.len() > 0 && a[0] == b[0] && b[0] == c[0] {
        lemma_bytes_lt_transitive(a.drop_first(), b.drop_first(), c.drop_first());
    }
}

proof fn lemma_cons_to_multiset(x: FontView, s: Seq<FontView>)
    ensures
        (seq![x] + s).to_multiset() == s.to_multiset().insert(x),
{
    assert(seq![x] + s =~= s.insert(0, x));
    to_multiset_insert(s, 0, x);
}

proof fn lemma_insert_sorted_keeps_order(s: Seq<FontView>, x: FontView)
    requires
        is_sorted_by_path(s),
    ensures
        is_sorted_by_path(insert_sorted(s, x)),
        insert_sorted(s, x).to_multiset() == s.to_multiset().insert(x),
    decreases s.len(),
{
    let r = insert_sorted(s, x);
    if s.len() == 0 {
        assert(r =~= seq![x]);
        lemma_cons_to_multiset(x, s);
        assert(seq![x] + s =~= seq![x]);
    } else if path_lt(x, s[0]) {
        lemma_cons_to_multiset(x, s);
        assert forall|i: int, j: int| 0 <= i < j < r.len() implies !path_lt(
            #[trigger] r[j],
            #[trigger] r[i],
        ) by {
            if i == 0 {
                let e = s[j - 1];
                assert(r[j] == e);
                if path_lt(e, x) {
                    lemma_bytes_lt_transitive(encode_utf8(e.0), encode_utf8(x.0), encode_utf8(s[0].0));
                    if j - 1 == 0 {
                        lemma_bytes_lt_irreflexive(encode_utf8(e.0));
                    }
                }
            } else {
                assert(r[i] == s[i - 1] && r[j] == s[j - 1]);
            }
        }
    } else {
        let d = s.drop_first();
        assert(forall|i: int, j: int| 0 <= i < j < d.len() ==> d[i] == s[i + 1] && d[j] == s[j + 1]);
        lemma_insert_sorted_keeps_order(d, x);
        let ri = insert_sorted(d, x);
        assert(r == seq![s[0]] + ri);
        lemma_cons_to_multiset(s[0], ri);
        lemma_cons_to_multiset(s[0], d);
        assert(seq![s[0]] + d =~= s);
        assert(ri.to_multiset().insert(s[0]) =~= s.to_multiset().insert(x));
        assert forall|i: int, j: int| 0 <= i < j < r.len() implies !path_lt(
            #[trigger] r[j],
            #[trigger] r[i],
        ) by {
            if i == 0 {
                let e = ri[j - 1];
                assert(r[j] == e);
                to_multiset_contains(ri, e);
                assert(ri.contains(e));
                assert(ri.to_multiset().count(e) > 0);
                if e != x {
                    assert(d.to_multiset().count(e) > 0);
                    to_multiset_contains(d, e);
                    let k = choose|k: int| 0 <= k < d.len() && d[k] == e;
                    assert(s[k + 1] == e);
                }
            } else {
                assert(r[i] == ri[i - 1] && r[j] == ri[j - 1]);
            }
        }
    }
}

proof fn lemma_sorted_by_path_is_sorted_permutation(s: Seq<FontView>)
    ensures
        is_sorted_by_path(sorted_by_path(s)),
        sorted_by_path(s).to_multiset() == s.to_multiset(),
    decreases s.len(),
{
    if s.len() == 0 {
        assert(sorted_by_path(s) =~= s);
    } else {
        let init = s.drop_last();
        lemma_sorted_by_path_is_sorted_permutation(init);
        lemma_insert_sorted_keeps_order(sorted_by_path(init), s.last());
        assert(init.push(s.last()) =~= s);
        to_multiset_build(init, s.last());
    }
}

proof fn lemma_sorted_permutations_are_equal(s: Seq<FontView>, t: Seq<FontView>)
    requires
        is_sorted_by_path(s),
        is_sorted_by_path(t),
        s.to_multiset() == t.to_multiset(),
        paths_identify(s.to_multiset()),
    ensures
        s == t,
    decreases s.len(),
{
    to_multiset_len(s);
    to_multiset_len(t);
    if s.len() == 0 {
        assert(s =~= t);
    } else {
        let s0 = s[0];
        let t0 = t[0];
        to_multiset_contains(s, t0);
        to_multiset_contains(t, t0);
        to_multiset_contains(s, s0);
        to_multiset_contains(t, s0);
        assert(t.contains(t0));
        assert(s.contains(s0));
        if s0 != t0 {
            let k = choose|k: int| 0 <= k < s.len() && s[k] == t0;
            let m = choose|m: int| 0 <= m < t.len() && t[m] == s0;
            assert(k != 0 && m != 0);
            assert(!path_lt(s[k], s[0]));
            assert(!path_lt(t[m], t[0]));
            assert(encode_utf8(s0.0) != encode_utf8(t0.0));
            lemma_bytes_lt_total(encode_utf8(s0.0), encode_utf8(t0.0));
            assert(false);
        }
        let s1 = s.drop_first();
        let t1 = t.drop_first();
        assert(s.remove(0) =~= s1);
        assert(t.remove(0) =~= t1);
        to_multiset_remove(s, 0);
        to_multiset_remove(t, 0);
        assert(forall|i: int, j: int| 0 <= i < j < s1.len() ==> s1[i] == s[i + 1] && s1[j] == s[j + 1]);
        assert(forall|i: int, j: int| 0 <= i < j < t1.len() ==> t1[i] == t[i + 1] && t1[j] == t[j + 1]);
        assert forall|u: FontView, v: FontView|
            s1.to_multiset().contains(u) && s1.to_multiset().contains(v) && u != v implies (
            #[trigger] encode_utf8(u.0)) != (#[trigger] encode_utf8(v.0)) by {
            assert(s.to_multiset().contains(u) && s.to_multiset().contains(v));
        }
        lemma_sorted_permutations_are_equal(s1, t1);
        assert forall|i: int| 0 <= i < s.len() implies s[i] == t[i] by {
            if i > 0 {
                assert(s[i] == s1[i - 1]);
                assert(t[i] == t1[i - 1]);
            }
        }
        assert(s =~= t);
    }
}

/// Ordering by path does not depend on the order of the input: two lists
/// that hold the same fonts, with no path given twice, are ordered into the
/// same list. So the index strategy returns the same candidates in the same
/// order however the index orders what it reports.
pub proof fn lemma_index_order_is_deterministic(a: Seq<FontView>, b: Seq<FontView>)
    requires
        a.to_multiset() == b.to_multiset(),
        has_distinct_paths(a),
    ensures
        sorted_by_path(a) == sorted_by_path(b),
{
    lemma_sorted_by_path_is_sorted_permutation(a);
    lemma_sorted_by_path_is_sorted_permutation(b);
    assert forall|u: FontView, v: FontView|
        a.to_multiset().contains(u) && a.to_multiset().contains(v) && u != v implies (
        #[trigger] encode_utf8(u.0)) != (#[trigger] encode_utf8(v.0)) by {
        to_multiset_contains(a, u);
        to_multiset_contains(a, v);
        let i = choose|i: int| 0 <= i < a.len() && a[i] == u;
        let j = choose|j: int| 0 <= j < a.len() && a[j] == v;
        encode_utf8_decode_utf8(u.0);
        encode_utf8_decode_utf8(v.0);
        if i < j {
            assert(a[i].0 != a[j].0);
        } else if j < i {
            assert(a[j].0 != a[i].0);
        }
    }
    lemma_sorted_permutations_are_equal(sorted_by_path(a), sorted_by_path(b));
}

} // verus!
