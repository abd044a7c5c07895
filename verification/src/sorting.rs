//! Stable sorting of named items by name, and the facts that make an
//! interface hash independent of declaration order.

use vstd::prelude::*;
use crate::interfaces::{LLMRenderable, RenderModel, TypedModel, TypedObject};
use crate::order::{lemma_name_lt_asym, lemma_name_lt_irreflexive, lemma_name_lt_total, lemma_name_lt_trans, name_lt, str_lt};

verus! {

/// Inserts `x` after every item whose name is not greater than its own.
pub open spec fn insert_typed(t: Seq<TypedModel>, x: TypedModel) -> Seq<TypedModel>
    decreases t.len(),
{
    if t.len() == 0 {
        seq![x]
    } else if name_lt(x.name, t[0].name) {
        seq![x] + t
    } else {
        seq![t[0]] + insert_typed(t.drop_first(), x)
    }
}

/// Stable insertion sort by name.
pub open spec fn sort_typed(s: Seq<TypedModel>) -> Seq<TypedModel>
    decreases s.len(),
{
    if s.len() == 0 {
        Seq::empty()
    } else {
        insert_typed(sort_typed(s.drop_last()), s.last())
    }
}

/// The typed models of a sequence of references.
pub open spec fn typed_models<T: TypedObject>(v: Seq<&T>) -> Seq<TypedModel>
    decreases v.len(),
{
    if v.len() == 0 {
        Seq::empty()
    } else {
        typed_models(v.drop_last()).push(v.last().typed_model())
    }
}

/// The rendering models of a sequence of references.
pub open spec fn render_models<T: LLMRenderable>(v: Seq<&T>) -> Seq<RenderModel>
    decreases v.len(),
{
    if v.len() == 0 {
        Seq::empty()
    } else {
        render_models(v.drop_last()).push(v.last().render_model())
    }
}

/// `insert_typed` on references.
pub open spec fn insert_refs<'a, T: TypedObject>(t: Seq<&'a T>, x: &'a T) -> Seq<&'a T>
    decreases t.len(),
{
    if t.len() == 0 {
        seq![x]
    } else if name_lt(x.typed_model().name, t[0].typed_model().name) {
        seq![x] + t
    } else {
        seq![t[0]] + insert_refs(t.drop_first(), x)
    }
}

/// `sort_typed` on references.
pub open spec fn sort_refs<'a, T: TypedObject>(s: Seq<&'a T>) -> Seq<&'a T>
    decreases s.len(),
{
    if s.len() == 0 {
        Seq::empty()
    } else {
        insert_refs(sort_refs(s.drop_last()), s.last())
    }
}

/// Sorted by name, equal names allowed.
pub open spec fn sorted_by_name(s: Seq<TypedModel>) -> bool {
    forall|i: int, j: int| 0 <= i < j < s.len() ==> !name_lt(#[trigger] s[j].name, #[trigger] s[i].name)
}

/// No two items share a name.
pub open spec fn distinct_names(s: Seq<TypedModel>) -> bool {
    forall|i: int, j: int| 0 <= i < s.len() && 0 <= j < s.len() && i != j ==> #[trigger] s[i].name != #[trigger] s[j].name
}

pub proof fn lemma_typed_models_len<T: TypedObject>(v: Seq<&T>)
    ensures
        typed_models(v).len() == v.len(),
        forall|i: int| 0 <= i < v.len() ==> #[trigger] typed_models(v)[i] == v[i].typed_model(),
    decreases v.len(),
{
    if v.len() > 0 {
        lemma_typed_models_len(v.drop_last());
    }
}

proof fn lemma_insert_refs_is_insert<'a, T: TypedObject>(t: Seq<&'a T>, x: &'a T, p: int)
    requires
        0 <= p <= t.len(),
        forall|k: int| 0 <= k < p ==> !name_lt(x.typed_model().name, #[trigger] t[k].typed_model().name),
        p < t.len() ==> name_lt(x.typed_model().name, t[p].typed_model().name),
    ensures
        insert_refs(t, x) == t.insert(p, x),
    decreases t.len(),
{
    if t.len() == 0 {
        assert(t.insert(p, x) =~= seq![x]);
    } else if p == 0 {
        assert(t.insert(p, x) =~= seq![x] + t);
    } else {
        let r = t.drop_first();
        assert forall|k: int| 0 <= k < p - 1 implies !name_lt(x.typed_model().name, #[trigger] r[k].typed_model().name) by {
            assert(r[k] == t[k + 1]);
        }
        lemma_insert_refs_is_insert(r, x, p - 1);
        assert(t.insert(p, x) =~= seq![t[0]] + r.insert(p - 1, x));
    }
}

proof fn lemma_insert_typed_models<'a, T: TypedObject>(t: Seq<&'a T>, x: &'a T)
    ensures
        typed_models(insert_refs(t, x)) == insert_typed(typed_models(t), x.typed_model()),
    decreases t.len(),
{
    lemma_typed_models_len(t);
    lemma_typed_models_len(insert_refs(t, x));
    if t.len() == 0 {
        assert(typed_models(insert_refs(t, x)) =~= insert_typed(typed_models(t), x.typed_model()));
    } else if name_lt(x.typed_model().name, t[0].typed_model().name) {
        assert(typed_models(insert_refs(t, x)) =~= insert_typed(typed_models(t), x.typed_model()));
    } else {
        lemma_insert_typed_models(t.drop_first(), x);
        lemma_typed_models_len(t.drop_first());
        lemma_typed_models_len(insert_refs(t.drop_first(), x));
        assert(typed_models(t).drop_first() =~= typed_models(t.drop_first()));
        assert(typed_models(insert_refs(t, x)) =~= insert_typed(typed_models(t), x.typed_model()));
    }
}

/// Sorting references and then taking their models is sorting the models.
pub proof fn lemma_sort_refs_models<'a, T: TypedObject>(s: Seq<&'a T>)
    ensures
        typed_models(sort_refs(s)) == sort_typed(typed_models(s)),
    decreases s.len(),
{
    if s.len() > 0 {
        lemma_sort_refs_models(s.drop_last());
        lemma_insert_typed_models(sort_refs(s.drop_last()), s.last());
        lemma_typed_models_len(s);
        lemma_typed_models_len(s.drop_last());
        assert(typed_models(s).drop_last() =~= typed_models(s.drop_last()));
    }
}

proof fn lemma_insert_typed_len_multiset(t: Seq<TypedModel>, x: TypedModel)
    ensures
        insert_typed(t, x).len() == t.len() + 1,
        insert_typed(t, x).to_multiset() == t.to_multiset().insert(x),
    decreases t.len(),
{
    broadcast use vstd::seq_lib::group_to_multiset_ensures;
    if t.len() == 0 {
        assert(seq![x] =~= Seq::<TypedModel>::empty().push(x));
    } else if name_lt(x.name, t[0].name) {
        assert(seq![x] + t =~= t.insert(0, x));
        vstd::seq_lib::to_multiset_insert(t, 0, x);
    } else {
        lemma_insert_typed_len_multiset(t.drop_first(), x);
        let rest = insert_typed(t.drop_first(), x);
        assert(seq![t[0]] + rest =~= rest.insert(0, t[0]));
        vstd::seq_lib::to_multiset_insert(rest, 0, t[0]);
        assert(t =~= t.drop_first().insert(0, t[0]));
        vstd::seq_lib::to_multiset_insert(t.drop_first(), 0, t[0]);
    }
}

/// Sorting keeps the items.
pub proof fn lemma_sort_typed_multiset(s: Seq<TypedModel>)
    ensures
        sort_typed(s).len() == s.len(),
        sort_typed(s).to_multiset() == s.to_multiset(),
    decreases s.len(),
{
    broadcast use vstd::seq_lib::group_to_multiset_ensures;
    if s.len() > 0 {
        lemma_sort_typed_multiset(s.drop_last());
        lemma_insert_typed_len_multiset(sort_typed(s.drop_last()), s.last());
        assert(s =~= s.drop_last().push(s.last()));
    }
}

proof fn lemma_insert_typed_sorted(t: Seq<TypedModel>, x: TypedModel)
    requires
        sorted_by_name(t),
    ensures
        sorted_by_name(insert_typed(t, x)),
        forall|k: int| 0 <= k < insert_typed(t, x).len() ==> (#[trigger] insert_typed(t, x)[k] == x || t.contains(insert_typed(t, x)[k])),
    decreases t.len(),
{
    lemma_insert_typed_len_multiset(t, x);
    if t.len() == 0 {
    } else if name_lt(x.name, t[0].name) {
        let r = seq![x] + t;
        assert forall|i: int, j: int| 0 <= i < j < r.len() implies !name_lt(#[trigger] r[j].name, #[trigger] r[i].name) by {
            if i == 0 {
                if name_lt(r[j].name, x.name) {
                    if j - 1 > 0 {
                        if t[j - 1].name == t[0].name {
                        } else {
                            lemma_name_lt_total(t[j - 1].name, t[0].name);
                            lemma_name_lt_trans(x.name, t[0].name, t[j - 1].name);
                        }
                    }
                    lemma_name_lt_asym(r[j].name, x.name);
                    if t[j - 1].name == t[0].name {
                        lemma_name_lt_asym(x.name, t[0].name);
                    }
                }
            }
        }
        assert forall|k: int| 0 <= k < r.len() implies (#[trigger] r[k] == x || t.contains(r[k])) by {
            if k > 0 { assert(r[k] == t[k - 1]); }
        }
    } else {
        let d = t.drop_first();
        assert(sorted_by_name(d)) by {
            assert forall|i: int, j: int| 0 <= i < j < d.len() implies !name_lt(#[trigger] d[j].name, #[trigger] d[i].name) by {
                assert(d[i] == t[i + 1] && d[j] == t[j + 1]);
            }
        }
        lemma_insert_typed_sorted(d, x);
        let rest = insert_typed(d, x);
        let r = seq![t[0]] + rest;
        assert forall|k: int| 0 <= k < r.len() implies (#[trigger] r[k] == x || t.contains(r[k])) by {
            if k > 0 {
                assert(r[k] == rest[k - 1]);
                if rest[k - 1] != x {
                    let m = choose|m: int| 0 <= m < d.len() && d[m] == rest[k - 1];
                    assert(t[m + 1] == d[m]);
                }
            } else {
                assert(t[0] == r[0]);
            }
        }
        assert forall|i: int, j: int| 0 <= i < j < r.len() implies !name_lt(#[trigger] r[j].name, #[trigger] r[i].name) by {
            if i == 0 {
                assert(r[j] == rest[j - 1]);
                if rest[j - 1] == x {
                } else {
                    let m = choose|m: int| 0 <= m < d.len() && d[m] == rest[j - 1];
                    assert(t[m + 1] == d[m]);
                }
            } else {
                assert(r[i] == rest[i - 1] && r[j] == rest[j - 1]);
            }
        }
    }
}

/// Insertion sort sorts.
pub proof fn lemma_sort_typed_sorted(s: Seq<TypedModel>)
    ensures
        sorted_by_name(sort_typed(s)),
    decreases s.len(),
{
    if s.len() > 0 {
        lemma_sort_typed_sorted(s.drop_last());
        lemma_insert_typed_sorted(sort_typed(s.drop_last()), s.last());
    }
}

/// Two sequences that hold the same items, no two with one name, sorted by
/// name, are equal.
pub proof fn lemma_sorted_unique(a: Seq<TypedModel>, b: Seq<TypedModel>)
    requires
        sorted_by_name(a),
        sorted_by_name(b),
        distinct_names(a),
        a.to_multiset() == b.to_multiset(),
    ensures
        a == b,
    decreases a.len(),
{
    broadcast use vstd::seq_lib::group_to_multiset_ensures;
    vstd::seq_lib::to_multiset_len(a);
    vstd::seq_lib::to_multiset_len(b);
    assert(a.len() == b.len());
    if a.len() > 0 {
        assert(b.contains(a[0])) by {
            assert(a.to_multiset().count(a[0]) > 0);
        }
        assert(a.contains(b[0])) by {
            assert(b.to_multiset().count(b[0]) > 0);
        }
        let j = choose|j: int| 0 <= j < b.len() && b[j] == a[0];
        let k = choose|k: int| 0 <= k < a.len() && a[k] == b[0];
        if k != 0 {
            assert(a[0].name != a[k].name);
            if j != 0 {
                // a[0] < a[k] = b[0] <= b[j] = a[0]
                lemma_name_lt_total(a[0].name, a[k].name);
                assert(!name_lt(b[j].name, b[0].name));
            }
            assert(false);
        }
        assert(a[0] == b[0]);
        let a1 = a.drop_first();
        let b1 = b.drop_first();
        assert(a =~= a1.insert(0, a[0]));
        assert(b =~= b1.insert(0, b[0]));
        vstd::seq_lib::to_multiset_insert(a1, 0, a[0]);
        vstd::seq_lib::to_multiset_insert(b1, 0, b[0]);
        assert(a1.to_multiset() =~= b1.to_multiset()) by {
            assert(a1.to_multiset() =~= a.to_multiset().remove(a[0]));
            assert(b1.to_multiset() =~= b.to_multiset().remove(b[0]));
        }
        assert(sorted_by_name(a1)) by {
            assert forall|i: int, j: int| 0 <= i < j < a1.len() implies !name_lt(#[trigger] a1[j].name, #[trigger] a1[i].name) by {
                assert(a1[i] == a[i + 1] && a1[j] == a[j + 1]);
            }
        }
        assert(sorted_by_name(b1)) by {
            assert forall|i: int, j: int| 0 <= i < j < b1.len() implies !name_lt(#[trigger] b1[j].name, #[trigger] b1[i].name) by {
                assert(b1[i] == b[i + 1] && b1[j] == b[j + 1]);
            }
        }
        assert(distinct_names(a1)) by {
            assert forall|i: int, j: int| 0 <= i < a1.len() && 0 <= j < a1.len() && i != j implies #[trigger] a1[i].name != #[trigger] a1[j].name by {
                assert(a1[i] == a[i + 1] && a1[j] == a[j + 1]);
            }
        }
        lemma_sorted_unique(a1, b1);
        assert(a =~= b);
    }
}

/// Sequences with the same items, no two with one name, sort to the same
/// sequence.
pub proof fn lemma_sort_permutation(a: Seq<TypedModel>, b: Seq<TypedModel>)
    requires
        distinct_names(a),
        a.to_multiset() == b.to_multiset(),
    ensures
        sort_typed(a) == sort_typed(b),
{
    broadcast use vstd::seq_lib::group_to_multiset_ensures;
    lemma_sort_typed_multiset(a);
    lemma_sort_typed_multiset(b);
    lemma_sort_typed_sorted(a);
    lemma_sort_typed_sorted(b);
    let sa = sort_typed(a);
    assert(distinct_names(sa)) by {
        assert forall|i: int, j: int| 0 <= i < sa.len() && 0 <= j < sa.len() && i != j implies #[trigger] sa[i].name != #[trigger] sa[j].name by {
            assert(a.contains(sa[i])) by { assert(sa.to_multiset().count(sa[i]) > 0); }
            assert(a.contains(sa[j])) by { assert(sa.to_multiset().count(sa[j]) > 0); }
            let p = choose|p: int| 0 <= p < a.len() && a[p] == sa[i];
            let q = choose|q: int| 0 <= q < a.len() && a[q] == sa[j];
            if p == q {
                // the same item twice in `sa` would be counted twice
                assert(sa[i] == sa[j]);
                assert(sa.to_multiset().count(sa[i]) >= 2) by {
                    lemma_count_two(sa, i, j);
                }
                assert(a.to_multiset().count(a[p]) == 1) by {
                    lemma_count_one(a, p);
                }
            }
        }
    }
    lemma_sorted_unique(sa, sort_typed(b));
}

proof fn lemma_count_two(s: Seq<TypedModel>, i: int, j: int)
    requires
        0 <= i < s.len(),
        0 <= j < s.len(),
        i != j,
        s[i] == s[j],
    ensures
        s.to_multiset().count(s[i]) >= 2,
    decreases s.len(),
{
    broadcast use vstd::seq_lib::group_to_multiset_ensures;
    let last = s.len() - 1;
    assert(s =~= s.drop_last().push(s.last()));
    if i == last || j == last {
        let other = if i == last { j } else { i };
        assert(s.drop_last()[other] == s[i]);
        assert(s.drop_last().to_multiset().count(s[i]) >= 1) by {
            assert(s.drop_last().contains(s[i]));
        }
    } else {
        lemma_count_two(s.drop_last(), i, j);
    }
}

proof fn lemma_count_one(s: Seq<TypedModel>, p: int)
    requires
        0 <= p < s.len(),
        distinct_names(s),
    ensures
        s.to_multiset().count(s[p]) == 1,
    decreases s.len(),
{
    broadcast use vstd::seq_lib::group_to_multiset_ensures;
    let d = s.drop_last();
    assert(s =~= d.push(s.last()));
    assert(distinct_names(d)) by {
        assert forall|i: int, j: int| 0 <= i < d.len() && 0 <= j < d.len() && i != j implies #[trigger] d[i].name != #[trigger] d[j].name by {
            assert(d[i] == s[i] && d[j] == s[j]);
        }
    }
    if p == s.len() - 1 {
        assert(!d.contains(s[p])) by {
            if d.contains(s[p]) {
                let m = choose|m: int| 0 <= m < d.len() && d[m] == s[p];
                assert(s[m].name == s[p].name);
            }
        }
        assert(d.to_multiset().count(s[p]) == 0);
    } else {
        lemma_count_one(d, p);
        assert(d[p] == s[p]);
        assert(s.last() != s[p]) by {
            assert(s[s.len() - 1].name != s[p].name);
        }
    }
}

/// Sorts references by name, stably.
pub fn sort_by_name<'a, T: TypedObject>(v: &Vec<&'a T>) -> (r: Vec<&'a T>)
    ensures
        r@ == sort_refs(v@),
{
    let mut r: Vec<&'a T> = Vec::new();
    let mut i: usize = 0;
    while i < v.len()
        invariant
            i <= v@.len(),
            r@ == sort_refs(v@.take(i as int)),
        decreases v@.len() - i,
    {
        let x: &'a T = v[i];
        let xname = x.name();
        let mut p: usize = 0;
        while p < r.len() && !str_lt(xname, r[p].name())
            invariant
                p <= r@.len(),
                xname@ == x.typed_model().name,
                forall|k: int| 0 <= k < p ==> !name_lt(x.typed_model().name, #[trigger] r@[k].typed_model().name),
            decreases r@.len() - p,
        {
            p = p + 1;
        }
        proof {
            lemma_insert_refs_is_insert(r@, x, p as int);
            assert(v@.take(i + 1).drop_last() =~= v@.take(i as int));
        }
        r.insert(p, x);
        i = i + 1;
    }
    assert(v@.take(i as int) =~= v@);
    r
}

} // verus!
