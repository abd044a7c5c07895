//! Reachability in the graph whose nodes are definition names and whose
//! edges go from a definition to each name it depends on.

use vstd::prelude::*;
use crate::order::{
    lemma_name_lt_asym, lemma_name_lt_irreflexive, lemma_name_lt_total, lemma_name_lt_trans, name_lt,
    strictly_sorted,
};

verus! {

/// A graph: each node that has an entry, with the nodes it points to.
pub type Graph = Map<Seq<char>, Set<Seq<char>>>;

/// A walk of one step or more along the edges.
pub open spec fn is_walk(g: Graph, p: Seq<Seq<char>>) -> bool {
    &&& p.len() >= 2
    &&& forall|i: int| 0 <= i < p.len() - 1 ==> #[trigger] g.dom().contains(p[i]) && g[p[i]].contains(p[i + 1])
}

/// `b` can be reached from `a` in one step or more.
pub open spec fn reaches(g: Graph, a: Seq<char>, b: Seq<char>) -> bool {
    exists|p: Seq<Seq<char>>| #[trigger] is_walk(g, p) && p[0] == a && p.last() == b
}

/// Everything reachable from `a` in one step or more.
pub open spec fn reach_set(g: Graph, a: Seq<char>) -> Set<Seq<char>> {
    Set::new(|b: Seq<char>| reaches(g, a, b))
}

/// `a` and everything reachable from it have an entry in the graph.
pub open spec fn closed_from(g: Graph, a: Seq<char>) -> bool {
    &&& g.dom().contains(a)
    &&& forall|b: Seq<char>| reaches(g, a, b) ==> g.dom().contains(b)
}

/// One edge is a walk.
pub proof fn lemma_edge_reaches(g: Graph, a: Seq<char>, b: Seq<char>)
    requires
        g.dom().contains(a),
        g[a].contains(b),
    ensures
        reaches(g, a, b),
{
    let p = seq![a, b];
    assert(is_walk(g, p));
}

/// A walk extended by an edge is a walk.
pub proof fn lemma_reaches_step(g: Graph, a: Seq<char>, b: Seq<char>, c: Seq<char>)
    requires
        reaches(g, a, b),
        g.dom().contains(b),
        g[b].contains(c),
    ensures
        reaches(g, a, c),
{
    let p = choose|p: Seq<Seq<char>>| #[trigger] is_walk(g, p) && p[0] == a && p.last() == b;
    let q = p.push(c);
    assert forall|i: int| 0 <= i < q.len() - 1 implies #[trigger] g.dom().contains(q[i]) && g[q[i]].contains(q[i + 1]) by {
        if i < p.len() - 1 {
            assert(q[i] == p[i] && q[i + 1] == p[i + 1]);
        } else {
            assert(q[i] == b && q[i + 1] == c);
        }
    }
    assert(is_walk(g, q));
}

/// If every node of `done` has its successors in `s`, `a` is in `done`, and
/// `s` is within `done`, then everything reachable from `a` is in `s`.
pub proof fn lemma_closure_complete(g: Graph, a: Seq<char>, s: Set<Seq<char>>, done: Set<Seq<char>>, b: Seq<char>)
    requires
        done.contains(a),
        s.subset_of(done),
        forall|x: Seq<char>| #[trigger] done.contains(x) ==> g.dom().contains(x) && g[x].subset_of(s),
        reaches(g, a, b),
    ensures
        s.contains(b),
{
    let p = choose|p: Seq<Seq<char>>| #[trigger] is_walk(g, p) && p[0] == a && p.last() == b;
    lemma_walk_in(g, p, s, done, p.len() - 1);
}

proof fn lemma_walk_in(g: Graph, p: Seq<Seq<char>>, s: Set<Seq<char>>, done: Set<Seq<char>>, i: int)
    requires
        is_walk(g, p),
        1 <= i < p.len(),
        done.contains(p[0]),
        s.subset_of(done),
        forall|x: Seq<char>| #[trigger] done.contains(x) ==> g.dom().contains(x) && g[x].subset_of(s),
    ensures
        s.contains(p[i]),
    decreases i,
{
    if i > 1 {
        lemma_walk_in(g, p, s, done, i - 1);
    }
    assert(g.dom().contains(p[i - 1]) && g[p[i - 1]].contains(p[i]));
    assert(done.contains(p[i - 1]));
}

/// The names of a finite set, in increasing order.
pub open spec fn sorted_names(s: Set<Seq<char>>) -> Seq<Seq<char>> {
    choose|q: Seq<Seq<char>>| strictly_sorted(q) && q.to_set() == s
}

/// A strictly sorted sequence is determined by its set of elements.
pub proof fn lemma_strictly_sorted_unique(a: Seq<Seq<char>>, b: Seq<Seq<char>>)
    requires
        strictly_sorted(a),
        strictly_sorted(b),
        a.to_set() == b.to_set(),
    ensures
        a == b,
    decreases a.len(),
{
    if a.len() == 0 {
        if b.len() > 0 {
            assert(b.to_set().contains(b[0]));
            assert(!a.to_set().contains(b[0]));
        }
        assert(a =~= b);
    } else if b.len() == 0 {
        assert(a.to_set().contains(a[0]));
    } else {
        assert(b.to_set().contains(a[0]));
        assert(a.to_set().contains(b[0]));
        let j = choose|j: int| 0 <= j < b.len() && b[j] == a[0];
        let k = choose|k: int| 0 <= k < a.len() && a[k] == b[0];
        if j != 0 {
            // b[0] < b[j] = a[0], and a[0] <= a[k] = b[0]
            if k != 0 {
                lemma_name_lt_asym(a[0], a[k]);
            } else {
                lemma_name_lt_irreflexive(a[0]);
            }
            assert(false);
        }
        let a1 = a.drop_first();
        let b1 = b.drop_first();
        assert(strictly_sorted(a1)) by {
            assert forall|i: int, j: int| 0 <= i < j < a1.len() implies name_lt(#[trigger] a1[i], #[trigger] a1[j]) by {
                assert(a1[i] == a[i + 1] && a1[j] == a[j + 1]);
            }
        }
        assert(strictly_sorted(b1)) by {
            assert forall|i: int, j: int| 0 <= i < j < b1.len() implies name_lt(#[trigger] b1[i], #[trigger] b1[j]) by {
                assert(b1[i] == b[i + 1] && b1[j] == b[j + 1]);
            }
        }
        assert(a1.to_set() =~= b1.to_set()) by {
            assert forall|x| a1.to_set().contains(x) implies b1.to_set().contains(x) by {
                let i = choose|i: int| 0 <= i < a1.len() && a1[i] == x;
                assert(a[i + 1] == x);
                lemma_name_lt_irreflexive(a[0]);
                assert(x != a[0]);
                assert(b.to_set().contains(x));
                let m = choose|m: int| 0 <= m < b.len() && b[m] == x;
                assert(m != 0);
                assert(b1[m - 1] == x);
            }
            assert forall|x| b1.to_set().contains(x) implies a1.to_set().contains(x) by {
                let i = choose|i: int| 0 <= i < b1.len() && b1[i] == x;
                assert(b[i + 1] == x);
                lemma_name_lt_irreflexive(b[0]);
                assert(x != b[0]);
                assert(a.to_set().contains(x));
                let m = choose|m: int| 0 <= m < a.len() && a[m] == x;
                assert(m != 0);
                assert(a1[m - 1] == x);
            }
        }
        lemma_strictly_sorted_unique(a1, b1);
        assert(b[0] == a[0]);
        assert(a =~= a1.insert(0, a[0]));
        assert(b =~= b1.insert(0, b[0]));
    }
}

/// A strictly sorted sequence is the sorted sequence of its set.
pub proof fn lemma_sorted_names(q: Seq<Seq<char>>)
    requires
        strictly_sorted(q),
    ensures
        sorted_names(q.to_set()) == q,
{
    let s = q.to_set();
    assert(exists|r: Seq<Seq<char>>| strictly_sorted(r) && r.to_set() == s);
    let r = sorted_names(s);
    lemma_strictly_sorted_unique(r, q);
}

proof fn lemma_walk_step(g: Graph, p: Seq<Seq<char>>, i: int)
    requires
        is_walk(g, p),
        0 <= i < p.len() - 1,
    ensures
        g.dom().contains(p[i]),
        g[p[i]].contains(p[i + 1]),
{
    assert(g.dom().contains(p[i]) && g[p[i]].contains(p[i + 1]));
}

/// Following a walk and then another from where it ended is a walk.
pub proof fn lemma_reaches_trans(g: Graph, a: Seq<char>, b: Seq<char>, c: Seq<char>)
    requires
        reaches(g, a, b),
        reaches(g, b, c),
    ensures
        reaches(g, a, c),
{
    let p = choose|p: Seq<Seq<char>>| #[trigger] is_walk(g, p) && p[0] == a && p.last() == b;
    let q = choose|q: Seq<Seq<char>>| #[trigger] is_walk(g, q) && q[0] == b && q.last() == c;
    let r = p + q.drop_first();
    lemma_walk_step(g, q, 0);
    assert forall|i: int| 0 <= i < r.len() - 1 implies #[trigger] g.dom().contains(r[i]) && g[r[i]].contains(r[i + 1]) by {
        if i < p.len() - 1 {
            assert(r[i] == p[i] && r[i + 1] == p[i + 1]);
        } else if i == p.len() - 1 {
            assert(r[i] == q[0]);
            assert(r[i + 1] == q[1]);
            assert(g.dom().contains(q[0]) && g[q[0]].contains(q[1]));
        } else {
            let k = i - p.len() + 1;
            assert(r[i] == q[k] && r[i + 1] == q[k + 1]);
            assert(g.dom().contains(q[k]) && g[q[k]].contains(q[k + 1]));
        }
    }
    assert(is_walk(g, r));
    assert(r.last() == c);
}

/// What is reachable from a node whose reachable nodes all have entries lies
/// within the graph's nodes.
pub proof fn lemma_reach_within(g: Graph, a: Seq<char>)
    requires
        closed_from(g, a),
    ensures
        reach_set(g, a).subset_of(g.dom()),
{
}

proof fn lemma_to_seq_no_duplicates(s: Set<Seq<char>>)
    requires
        s.finite(),
    ensures
        s.to_seq().no_duplicates(),
        s.to_seq().to_set() == s,
    decreases s.len(),
{
    s.lemma_to_seq_to_set_id();
    if s.len() > 0 {
        let x = s.choose();
        let rest = s.remove(x);
        lemma_to_seq_no_duplicates(rest);
        let q = s.to_seq();
        assert(q == seq![x] + rest.to_seq());
        assert forall|i: int, j: int| 0 <= i < q.len() && 0 <= j < q.len() && i != j implies q[i] != q[j] by {
            if i > 0 && j > 0 {
                assert(q[i] == rest.to_seq()[i - 1] && q[j] == rest.to_seq()[j - 1]);
            } else if i == 0 {
                assert(rest.to_seq().to_set().contains(q[j]));
            } else {
                assert(rest.to_seq().to_set().contains(q[i]));
            }
        }
    }
}

/// Every finite set of names has its names in increasing order.
pub proof fn lemma_sorted_names_exist(s: Set<Seq<char>>)
    requires
        s.finite(),
    ensures
        strictly_sorted(sorted_names(s)),
        sorted_names(s).to_set() == s,
{
    broadcast use vstd::seq_lib::group_to_multiset_ensures;
    let leq = |x: Seq<char>, y: Seq<char>| !name_lt(y, x);
    assert(vstd::relations::total_ordering(leq)) by {
        assert forall|x: Seq<char>| #[trigger] leq(x, x) by {
            lemma_name_lt_irreflexive(x);
        }
        assert forall|x: Seq<char>, y: Seq<char>| #[trigger] leq(x, y) && #[trigger] leq(y, x) implies x == y by {
            if x != y {
                lemma_name_lt_total(x, y);
            }
        }
        assert forall|x: Seq<char>, y: Seq<char>, z: Seq<char>| #[trigger] leq(x, y) && #[trigger] leq(y, z) implies leq(x, z) by {
            if name_lt(z, x) {
                if x == y {
                } else {
                    lemma_name_lt_total(x, y);
                    lemma_name_lt_trans(z, x, y);
                }
            }
        }
        assert forall|x: Seq<char>, y: Seq<char>| #[trigger] leq(x, y) || #[trigger] leq(y, x) by {
            lemma_name_lt_asym(x, y);
        }
    }
    lemma_to_seq_no_duplicates(s);
    let q0 = s.to_seq();
    let q = q0.sort_by(leq);
    q0.lemma_sort_by_ensures(leq);
    q0.lemma_multiset_has_no_duplicates();
    q.lemma_multiset_has_no_duplicates_conv();
    assert(strictly_sorted(q)) by {
        assert forall|i: int, j: int| 0 <= i < j < q.len() implies name_lt(#[trigger] q[i], #[trigger] q[j]) by {
            assert(leq(q[i], q[j]));
            lemma_name_lt_total(q[i], q[j]);
        }
    }
    assert(q.to_set() =~= s) by {
        assert forall|x| q.to_set().contains(x) <==> s.contains(x) by {
            assert(q.contains(x) <==> q.to_multiset().count(x) > 0);
            assert(q0.contains(x) <==> q0.to_multiset().count(x) > 0);
            assert(q0.to_set().contains(x) <==> q0.contains(x));
        }
    }
    assert(exists|r: Seq<Seq<char>>| strictly_sorted(r) && r.to_set() == s);
}

/// The test that keeps names not in `seen`.
pub open spec fn unseen(seen: Set<Seq<char>>) -> spec_fn(Seq<char>) -> bool {
    |d: Seq<char>| !seen.contains(d)
}

/// The nodes `x` points to that are not in `seen`, in increasing order.
pub open spec fn fresh_deps(g: Graph, x: Seq<char>, seen: Set<Seq<char>>) -> Seq<Seq<char>> {
    sorted_names(g[x]).filter(unseen(seen))
}

/// A search with a stack: take the last node; stop at the first node that
/// has no entry, which is the result; otherwise push each node it points to
/// that was not seen yet, in increasing order, mark those seen, and go on.
/// At most `fuel` nodes are taken.
pub open spec fn first_missing(g: Graph, stack: Seq<Seq<char>>, seen: Set<Seq<char>>, fuel: nat) -> Option<Seq<char>>
    decreases fuel,
{
    if fuel == 0 || stack.len() == 0 {
        None
    } else if !g.dom().contains(stack.last()) {
        Some(stack.last())
    } else {
        let fresh = fresh_deps(g, stack.last(), seen);
        first_missing(g, stack.drop_last() + fresh, seen + fresh.to_set(), (fuel - 1) as nat)
    }
}

/// The stack search from `a`, with nothing seen at first, stops at `n`.
pub open spec fn search_stops_at(g: Graph, a: Seq<char>, n: Seq<char>) -> bool {
    exists|f: nat| #[trigger] first_missing(g, seq![a], Set::empty(), f) == Some(n)
}

/// Once the stack search stops, more steps do not change where.
pub proof fn lemma_first_missing_fuel(g: Graph, stack: Seq<Seq<char>>, seen: Set<Seq<char>>, f1: nat, f2: nat)
    requires
        f1 <= f2,
        first_missing(g, stack, seen, f1) is Some,
    ensures
        first_missing(g, stack, seen, f2) == first_missing(g, stack, seen, f1),
    decreases f1,
{
    if g.dom().contains(stack.last()) {
        let fresh = fresh_deps(g, stack.last(), seen);
        lemma_first_missing_fuel(g, stack.drop_last() + fresh, seen + fresh.to_set(), (f1 - 1) as nat, (f2 - 1) as nat);
    }
}

/// The stack search stops at one node at most.
pub proof fn lemma_search_stops_once(g: Graph, a: Seq<char>, n1: Seq<char>, n2: Seq<char>)
    requires
        search_stops_at(g, a, n1),
        search_stops_at(g, a, n2),
    ensures
        n1 == n2,
{
    let f1 = choose|f: nat| #[trigger] first_missing(g, seq![a], Set::empty(), f) == Some(n1);
    let f2 = choose|f: nat| #[trigger] first_missing(g, seq![a], Set::empty(), f) == Some(n2);
    if f1 <= f2 {
        lemma_first_missing_fuel(g, seq![a], Set::empty(), f1, f2);
    } else {
        lemma_first_missing_fuel(g, seq![a], Set::empty(), f2, f1);
    }
}

/// Where every node points only into `u`, everything reachable is in `u`.
pub proof fn lemma_reach_in(g: Graph, a: Seq<char>, u: Set<Seq<char>>)
    requires
        forall|x: Seq<char>| #[trigger] g.dom().contains(x) ==> g[x].subset_of(u),
    ensures
        reach_set(g, a).subset_of(u),
{
    assert forall|b: Seq<char>| reach_set(g, a).contains(b) implies u.contains(b) by {
        let p = choose|p: Seq<Seq<char>>| #[trigger] is_walk(g, p) && p[0] == a && p.last() == b;
        lemma_walk_step(g, p, p.len() - 2);
        assert(g[p[p.len() - 2]].contains(p[p.len() - 1]));
    }
}

} // verus!
