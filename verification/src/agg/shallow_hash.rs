//! The shallow hashes of all top-level definitions, and the transitive
//! dependencies of each.

use vstd::prelude::*;
use crate::digest::{digest, sip_digest};
use crate::encode::{enc_str, enc_u64, push_str, push_u64};
use crate::graph::{
    closed_from, first_missing, fresh_deps, lemma_closure_complete, lemma_edge_reaches, lemma_reach_in,
    lemma_reaches_step, lemma_sorted_names, reach_set, reaches, search_stops_at, sorted_names, unseen, Graph,
};
use crate::interfaces::ShallowSignature;
use crate::order::{lemma_name_lt_irreflexive, name_lt, sorted_unique, str_eq, strictly_sorted, string_views};

verus! {

/// Why a signature could not be made.
#[derive(Debug)]
pub enum HashError {
    /// A definition depends on a name that nothing defines.
    DependencyNotFound(String),
}

/// Which of a definition's dependencies to follow.
#[derive(Clone, Copy, Debug, PartialEq, Eq, Structural)]
pub enum DepKind {
    Interface,
    Implementation,
}

/// `n` has no entry, is `name` or something `name` reaches, and is the
/// first such name that the stack search from `name` meets.
pub open spec fn missing_from(t: Map<Seq<char>, ShallowModel>, kind: DepKind, name: Seq<char>, n: Seq<char>) -> bool {
    &&& !dep_graph(t, kind).dom().contains(n)
    &&& (n == name || reaches(dep_graph(t, kind), name, n))
    &&& search_stops_at(dep_graph(t, kind), name, n)
}

/// The hashes and direct dependencies of one definition.
pub struct ShallowHash {
    interface_hash: u64,
    implementation_hash: u64,
    interface_dependencies: Vec<String>,
    implementation_dependencies: Vec<String>,
}

/// Model of a shallow hash.
pub struct ShallowModel {
    pub iface: u64,
    pub imp: u64,
    pub iface_deps: Set<Seq<char>>,
    pub impl_deps: Set<Seq<char>>,
}

/// What a definition's shallow hash holds.
pub open spec fn signature_model<T: ShallowSignature>(s: T) -> ShallowModel {
    ShallowModel {
        iface: sip_digest(s.interface_bytes()),
        imp: sip_digest(s.implementation_bytes()),
        iface_deps: s.interface_deps(),
        impl_deps: s.implementation_deps(),
    }
}

impl ShallowHash {
    /// Each list of dependencies is strictly sorted by name.
    #[verifier::type_invariant]
    spec fn sorted_deps(self) -> bool {
        &&& strictly_sorted(string_views(self.interface_dependencies@))
        &&& strictly_sorted(string_views(self.implementation_dependencies@))
    }

    pub closed spec fn model(&self) -> ShallowModel {
        ShallowModel {
            iface: self.interface_hash,
            imp: self.implementation_hash,
            iface_deps: string_views(self.interface_dependencies@).to_set(),
            impl_deps: string_views(self.implementation_dependencies@).to_set(),
        }
    }

    /// The digests of a definition's interface and implementation, and its
    /// direct dependencies, sorted.
    pub fn new<T: ShallowSignature>(signature: T) -> (r: Self)
        ensures
            r.model() == signature_model(signature),
    {
        let iface = signature.shallow_interface_hash();
        let imp = signature.shallow_implementation_hash();
        ShallowHash {
            interface_hash: digest(iface.as_slice()),
            implementation_hash: digest(imp.as_slice()),
            interface_dependencies: signature.interface_dependencies(),
            implementation_dependencies: signature.implementation_dependencies(),
        }
    }
}

/// The dependencies of the given kind.
pub open spec fn deps_of(m: ShallowModel, kind: DepKind) -> Set<Seq<char>> {
    match kind {
        DepKind::Interface => m.iface_deps,
        DepKind::Implementation => m.impl_deps,
    }
}

/// The table as a map from names; a later entry of a name replaces an
/// earlier one.
pub open spec fn table_of(ms: Seq<(Seq<char>, ShallowModel)>) -> Map<Seq<char>, ShallowModel>
    decreases ms.len(),
{
    if ms.len() == 0 {
        Map::empty()
    } else {
        table_of(ms.drop_last()).insert(ms.last().0, ms.last().1)
    }
}

/// The graph of dependencies of one kind.
pub open spec fn dep_graph(t: Map<Seq<char>, ShallowModel>, kind: DepKind) -> Graph {
    Map::new(|n: Seq<char>| t.dom().contains(n), |n: Seq<char>| deps_of(t[n], kind))
}

pub open spec fn entries_model(es: Seq<(String, ShallowHash)>) -> Seq<(Seq<char>, ShallowModel)> {
    Seq::new(es.len(), |i: int| (es[i].0@, es[i].1.model()))
}

/// Every name that any entry depends on, of either kind.
spec fn universe(es: Seq<(String, ShallowHash)>) -> Seq<Seq<char>>
    decreases es.len(),
{
    if es.len() == 0 {
        Seq::empty()
    } else {
        universe(es.drop_last()) + string_views(es.last().1.interface_dependencies@) + string_views(
            es.last().1.implementation_dependencies@,
        )
    }
}

/// The shallow hashes of all top-level definitions.
pub struct AllTops {
    all_shallow_hashes: Vec<(String, ShallowHash)>,
}

proof fn lemma_table_last(ms: Seq<(Seq<char>, ShallowModel)>, n: Seq<char>, j: int)
    requires
        0 <= j < ms.len(),
        ms[j].0 == n,
        forall|k: int| j < k < ms.len() ==> #[trigger] ms[k].0 != n,
    ensures
        table_of(ms).dom().contains(n),
        table_of(ms)[n] == ms[j].1,
    decreases ms.len(),
{
    if j < ms.len() - 1 {
        lemma_table_last(ms.drop_last(), n, j);
    }
}

proof fn lemma_table_absent(ms: Seq<(Seq<char>, ShallowModel)>, n: Seq<char>)
    requires
        forall|k: int| 0 <= k < ms.len() ==> #[trigger] ms[k].0 != n,
    ensures
        !table_of(ms).dom().contains(n),
    decreases ms.len(),
{
    if ms.len() > 0 {
        lemma_table_absent(ms.drop_last(), n);
    }
}

proof fn lemma_universe_contains(es: Seq<(String, ShallowHash)>, j: int)
    requires
        0 <= j < es.len(),
    ensures
        string_views(es[j].1.interface_dependencies@).to_set().subset_of(universe(es).to_set()),
        string_views(es[j].1.implementation_dependencies@).to_set().subset_of(universe(es).to_set()),
    decreases es.len(),
{
    let u = universe(es);
    if j < es.len() - 1 {
        lemma_universe_contains(es.drop_last(), j);
        let u0 = universe(es.drop_last());
        assert forall|x| u0.to_set().contains(x) implies u.to_set().contains(x) by {
            let i = choose|i: int| 0 <= i < u0.len() && u0[i] == x;
            assert(u[i] == x);
        }
        assert(es.drop_last()[j] == es[j]);
    } else {
        let u0 = universe(es.drop_last());
        let a = string_views(es[j].1.interface_dependencies@);
        let b = string_views(es[j].1.implementation_dependencies@);
        assert forall|x| a.to_set().contains(x) implies u.to_set().contains(x) by {
            let i = choose|i: int| 0 <= i < a.len() && a[i] == x;
            assert(u[u0.len() + i] == x);
        }
        assert forall|x| b.to_set().contains(x) implies u.to_set().contains(x) by {
            let i = choose|i: int| 0 <= i < b.len() && b[i] == x;
            assert(u[u0.len() + a.len() + i] == x);
        }
    }
}

proof fn lemma_table_deps_in_universe(es: Seq<(String, ShallowHash)>, n: Seq<char>, kind: DepKind)
    requires
        table_of(entries_model(es)).dom().contains(n),
    ensures
        deps_of(table_of(entries_model(es))[n], kind).subset_of(universe(es).to_set()),
    decreases es.len(),
{
    let ms = entries_model(es);
    let j = es.len() - 1;
    assert(ms.drop_last() =~= entries_model(es.drop_last()));
    if ms.last().0 == n {
        lemma_universe_contains(es, j);
    } else {
        lemma_table_deps_in_universe(es.drop_last(), n, kind);
        let u0 = universe(es.drop_last());
        let u = universe(es);
        assert forall|x| u0.to_set().contains(x) implies u.to_set().contains(x) by {
            let i = choose|i: int| 0 <= i < u0.len() && u0[i] == x;
            assert(u[i] == x);
        }
    }
}

/// Taking one more dependency `ds[j]`: it is new exactly when it was not
/// seen before the dependencies were taken, and then it joins the new ones.
proof fn lemma_fresh_step(ds: Seq<Seq<char>>, j: int, sv0: Seq<Seq<char>>)
    requires
        strictly_sorted(ds),
        0 <= j < ds.len(),
    ensures
        ds.take(j + 1).filter(unseen(sv0.to_set())) == if sv0.to_set().contains(ds[j]) {
            ds.take(j).filter(unseen(sv0.to_set()))
        } else {
            ds.take(j).filter(unseen(sv0.to_set())).push(ds[j])
        },
        (sv0 + ds.take(j).filter(unseen(sv0.to_set()))).contains(ds[j]) <==> sv0.to_set().contains(ds[j]),
{
    let p = unseen(sv0.to_set());
    let f = ds.take(j).filter(p);
    assert(ds.take(j + 1) =~= ds.take(j).push(ds[j]));
    ds.take(j).lemma_filter_push(ds[j], p);
    if (sv0 + f).contains(ds[j]) {
        let k = choose|k: int| 0 <= k < (sv0 + f).len() && (sv0 + f)[k] == ds[j];
        if k >= sv0.len() {
            assert(f.contains(ds[j]));
            ds.take(j).lemma_filter_contains_rev(p, ds[j]);
            let m = choose|m: int| 0 <= m < j && ds.take(j)[m] == ds[j];
            assert(name_lt(ds[m], ds[j]));
            lemma_name_lt_irreflexive(ds[j]);
        } else {
            assert(sv0.contains(ds[j]));
        }
    }
    if sv0.to_set().contains(ds[j]) {
        assert(sv0.contains(ds[j]));
        let k = choose|k: int| 0 <= k < sv0.len() && sv0[k] == ds[j];
        assert((sv0 + f)[k] == ds[j]);
    }
}

/// Names that are all reached, each once, are no more than the names
/// reached.
proof fn lemma_seen_bound(g: Graph, a: Seq<char>, seen: Seq<Seq<char>>)
    requires
        reach_set(g, a).finite(),
        seen.no_duplicates(),
        forall|x: Seq<char>| seen.contains(x) ==> reaches(g, a, x),
    ensures
        seen.len() <= reach_set(g, a).len(),
{
    seen.unique_seq_to_set();
    assert(seen.to_set().subset_of(reach_set(g, a))) by {
        assert forall|x| seen.to_set().contains(x) implies reach_set(g, a).contains(x) by {
            assert(seen.contains(x));
        }
    }
    vstd::set_lib::lemma_len_subset(seen.to_set(), reach_set(g, a));
}

/// Whether a list of strings holds a name.
fn contains_name(v: &Vec<String>, s: &String) -> (r: bool)
    ensures
        r == string_views(v@).contains(s@),
{
    let mut i: usize = 0;
    while i < v.len()
        invariant
            i <= v@.len(),
            forall|k: int| 0 <= k < i ==> #[trigger] string_views(v@)[k] != s@,
        decreases v@.len() - i,
    {
        if v[i] == *s {
            assert(string_views(v@)[i as int] == s@);
            return true;
        }
        i = i + 1;
    }
    false
}

/// The definition's own digest of the given kind.
pub open spec fn own_hash(m: ShallowModel, kind: DepKind) -> u64 {
    match kind {
        DepKind::Interface => m.iface,
        DepKind::Implementation => m.imp,
    }
}

/// Each dependency's name and own digest, one after the other.
pub open spec fn dep_hash_list(t: Map<Seq<char>, ShallowModel>, deps: Seq<Seq<char>>, kind: DepKind) -> Seq<u8>
    decreases deps.len(),
{
    if deps.len() == 0 {
        Seq::empty()
    } else {
        dep_hash_list(t, deps.drop_last(), kind) + enc_str(deps.last()) + enc_u64(own_hash(t[deps.last()], kind))
    }
}

/// The transitive dependencies of a name, in increasing order.
pub open spec fn all_deps(t: Map<Seq<char>, ShallowModel>, name: Seq<char>, kind: DepKind) -> Seq<Seq<char>> {
    sorted_names(reach_set(dep_graph(t, kind), name))
}

/// What a definition's full hash is the digest of: its own digest, then the
/// name and own digest of everything it depends on, in order of name.
pub open spec fn full_hash_bytes(t: Map<Seq<char>, ShallowModel>, name: Seq<char>, kind: DepKind) -> Seq<u8> {
    enc_u64(own_hash(t[name], kind)) + dep_hash_list(t, all_deps(t, name, kind), kind)
}

/// A definition's hash of the given kind, which changes when the definition
/// or anything it depends on changes.
pub open spec fn full_hash(t: Map<Seq<char>, ShallowModel>, name: Seq<char>, kind: DepKind) -> u64 {
    sip_digest(full_hash_bytes(t, name, kind))
}

impl AllTops {
    /// The shallow hash of each name.
    pub closed spec fn table(&self) -> Map<Seq<char>, ShallowModel> {
        table_of(entries_model(self.all_shallow_hashes@))
    }

    /// The entries, in order of insertion.
    pub closed spec fn entries(&self) -> Seq<(Seq<char>, ShallowModel)> {
        entries_model(self.all_shallow_hashes@)
    }

    /// A table from entries, each given in order; a later one of a name
    /// replaces an earlier one.
    pub fn from_entries(entries: Vec<(String, ShallowHash)>) -> (r: Self)
        ensures
            r.entries() == entries_model(entries@),
            r.table() == table_of(r.entries()),
    {
        AllTops { all_shallow_hashes: entries }
    }

    /// The number of entries.
    pub fn len(&self) -> (r: usize)
        ensures
            r == self.entries().len(),
    {
        self.all_shallow_hashes.len()
    }

    /// The name of the `k`-th entry.
    pub fn name_at(&self, k: usize) -> (r: &str)
        requires
            k < self.entries().len(),
        ensures
            r@ == self.entries()[k as int].0,
    {
        self.all_shallow_hashes[k].0.as_str()
    }

    /// The entry of a name, the last one made for it.
    fn lookup(&self, name: &str) -> (r: Option<&ShallowHash>)
        ensures
            match r {
                Some(h) => self.table().dom().contains(name@) && h.model() == self.table()[name@]
                    && exists|j: int| 0 <= j < self.all_shallow_hashes@.len() && self.all_shallow_hashes@[j].1 == *h,
                None => !self.table().dom().contains(name@),
            },
    {
        let ghost ms = entries_model(self.all_shallow_hashes@);
        let mut i: usize = self.all_shallow_hashes.len();
        while i > 0
            invariant
                i <= self.all_shallow_hashes@.len(),
                ms == entries_model(self.all_shallow_hashes@),
                forall|k: int| i <= k < ms.len() ==> #[trigger] ms[k].0 != name@,
            decreases i,
        {
            i = i - 1;
            let entry = &self.all_shallow_hashes[i];
            if str_eq(entry.0.as_str(), name) {
                proof {
                    lemma_table_last(ms, name@, i as int);
                }
                return Some(&entry.1);
            }
            assert(ms[i as int].0 != name@);
        }
        proof {
            lemma_table_absent(ms, name@);
        }
        None
    }

    fn fn_find_dependencies(&self, name: &str, kind: DepKind) -> (r: Option<&Vec<String>>)
        ensures
            match r {
                Some(v) => dep_graph(self.table(), kind).dom().contains(name@)
                    && string_views(v@).to_set() == dep_graph(self.table(), kind)[name@]
                    && string_views(v@).to_set().subset_of(universe(self.all_shallow_hashes@).to_set()),
                None => !dep_graph(self.table(), kind).dom().contains(name@),
            },
            r matches Some(v) ==> strictly_sorted(string_views(v@)),
    {
        match self.lookup(name) {
            Some(h) => {
                proof {
                    use_type_invariant(h);
                    let j = choose|j: int| 0 <= j < self.all_shallow_hashes@.len() && self.all_shallow_hashes@[j].1 == *h;
                    lemma_universe_contains(self.all_shallow_hashes@, j);
                }
                match kind {
                    DepKind::Interface => Some(&h.interface_dependencies),
                    DepKind::Implementation => Some(&h.implementation_dependencies),
                }
            },
            None => None,
        }
    }

    /// The interface dependencies recorded for a name.
    pub fn fn_find_dependencies_interface(&self, name: &str) -> (r: Option<&Vec<String>>)
        ensures
            match r {
                Some(v) => self.table().dom().contains(name@) && string_views(v@).to_set() == self.table()[name@].iface_deps,
                None => !self.table().dom().contains(name@),
            },
    {
        self.fn_find_dependencies(name, DepKind::Interface)
    }

    /// The implementation dependencies recorded for a name.
    pub fn fn_find_dependencies_implementation(&self, name: &str) -> (r: Option<&Vec<String>>)
        ensures
            match r {
                Some(v) => self.table().dom().contains(name@) && string_views(v@).to_set() == self.table()[name@].impl_deps,
                None => !self.table().dom().contains(name@),
            },
    {
        self.fn_find_dependencies(name, DepKind::Implementation)
    }

    /// Everything `name` depends on, directly or not, following dependencies
    /// of the given kind: each name once, in increasing order.  A name that
    /// depends on itself through a cycle is among its own dependencies.  Fails
    /// when `name`, or something it depends on, has no entry.
    ///
    /// The search keeps a stack, from which it takes the last name and looks
    /// up its entry; it stops at the first name without one.  The second
    /// part of the result counts the lookups: one more than the number of
    /// names reached, at most.
    pub fn find_dependencies(&self, name: &str, kind: DepKind) -> (r: (Result<Vec<String>, HashError>, Ghost<nat>))
        ensures
            reach_set(dep_graph(self.table(), kind), name@).finite(),
            match r.0 {
                Ok(v) => closed_from(dep_graph(self.table(), kind), name@)
                    && string_views(v@) == sorted_names(reach_set(dep_graph(self.table(), kind), name@))
                    && strictly_sorted(string_views(v@))
                    && string_views(v@).to_set() == reach_set(dep_graph(self.table(), kind), name@)
                    && r.1@ == 1 + reach_set(dep_graph(self.table(), kind), name@).len(),
                Err(HashError::DependencyNotFound(n)) => !closed_from(dep_graph(self.table(), kind), name@)
                    && missing_from(self.table(), kind, name@, n@)
                    && r.1@ <= 1 + reach_set(dep_graph(self.table(), kind), name@).len(),
            },
    {
        let ghost g = dep_graph(self.table(), kind);
        let ghost a = name@;
        let ghost u = universe(self.all_shallow_hashes@);
        let mut seen: Vec<String> = Vec::new();
        let mut queue: Vec<String> = Vec::new();
        queue.push(name.to_owned());
        let ghost mut done: Set<Seq<char>> = Set::empty();
        let ghost mut steps: nat = 0;
        proof {
            vstd::seq_lib::seq_to_set_is_finite(u);
            assert(string_views(queue@) =~= seq![name@]);
            assert(string_views(queue@)[0] == a);
            assert forall|x: Seq<char>| #[trigger] g.dom().contains(x) implies g[x].subset_of(u.to_set()) by {
                lemma_table_deps_in_universe(self.all_shallow_hashes@, x, kind);
            }
            lemma_reach_in(g, a, u.to_set());
            vstd::set_lib::lemma_set_subset_finite(u.to_set(), reach_set(g, a));
            assert(string_views(seen@).to_set() =~= Set::<Seq<char>>::empty());
        }
        while queue.len() > 0
            invariant
                g == dep_graph(self.table(), kind),
                u == universe(self.all_shallow_hashes@),
                a == name@,
                u.to_set().finite(),
                string_views(seen@).no_duplicates(),
                string_views(seen@).to_set().subset_of(u.to_set()),
                forall|x: Seq<char>| string_views(seen@).contains(x) ==> reaches(g, a, x),
                forall|x: Seq<char>| string_views(queue@).contains(x) ==> x == a || string_views(seen@).contains(x),
                forall|x: Seq<char>| #[trigger] done.contains(x) ==> g.dom().contains(x) && g[x].subset_of(string_views(seen@).to_set()),
                forall|x: Seq<char>| string_views(seen@).contains(x) ==> string_views(queue@).contains(x) || done.contains(x),
                string_views(queue@).contains(a) || done.contains(a),
                reach_set(g, a).finite(),
                steps + string_views(queue@).len() == 1 + string_views(seen@).len(),
                forall|f: nat| #[trigger] first_missing(g, string_views(queue@), string_views(seen@).to_set(), f)
                    == first_missing(g, seq![a], Set::empty(), f + steps),
            decreases u.to_set().len() - string_views(seen@).len(), queue@.len(),
        {
            proof {
                string_views(seen@).unique_seq_to_set();
                vstd::set_lib::lemma_len_subset(string_views(seen@).to_set(), u.to_set());
            }
            let ghost queue_before = string_views(queue@);
            let ghost seen_before = string_views(seen@);
            let x = queue.pop().unwrap();
            let ghost s0 = seen_before.to_set();
            let ghost qv0 = string_views(queue@);
            let ghost prev_steps = steps;
            proof {
                steps = steps + 1;
                assert(queue_before == string_views(queue@).push(x@));
                assert(queue_before.contains(x@)) by {
                    assert(queue_before[queue_before.len() - 1] == x@);
                }
            }
            let deps = match self.fn_find_dependencies(x.as_str(), kind) {
                Some(d) => d,
                None => {
                    proof {
                        if x@ != a {
                            assert(string_views(seen@).contains(x@));
                        }
                        assert(queue_before.last() == x@);
                        assert(first_missing(g, queue_before, s0, 1) == Some(x@));
                        assert(first_missing(g, seq![a], Set::empty(), 1 + (steps - 1) as nat) == Some(x@));
                        assert(search_stops_at(g, a, x@));
                        lemma_seen_bound(g, a, seen_before);
                    }
                    return (Err(HashError::DependencyNotFound(x)), Ghost(steps));
                },
            };
            proof {
                if x@ != a {
                    assert(string_views(seen@).contains(x@));
                }
                assert forall|y: Seq<char>| string_views(queue@).contains(y) implies y == a || string_views(seen@).contains(y) by {
                    let k = choose|k: int| 0 <= k < string_views(queue@).len() && string_views(queue@)[k] == y;
                    assert(queue_before[k] == y);
                    assert(queue_before.contains(y));
                }
            }
            let ghost ds = string_views(deps@);
            proof {
                assert(queue_before.drop_last() =~= qv0);
                assert forall|f: nat| #[trigger] first_missing(g, queue_before, s0, f)
                    == first_missing(g, seq![a], Set::empty(), f + prev_steps) by {
                    assert(queue_before =~= string_views(queue@).push(x@));
                }
                lemma_sorted_names(ds);
                assert(ds.take(0).filter(unseen(s0)) =~= Seq::<Seq<char>>::empty());
                assert(string_views(seen@) =~= seen_before + ds.take(0).filter(unseen(s0)));
                assert(string_views(queue@) =~= qv0 + ds.take(0).filter(unseen(s0)));
            }
            let mut j: usize = 0;
            while j < deps.len()
                invariant
                    ds == string_views(deps@),
                    strictly_sorted(ds),
                    s0 == seen_before.to_set(),
                    string_views(seen@) == seen_before + ds.take(j as int).filter(unseen(s0)),
                    string_views(queue@) == qv0 + ds.take(j as int).filter(unseen(s0)),
                    steps == prev_steps + 1,
                    prev_steps + queue_before.len() == 1 + seen_before.len(),
                    queue_before.len() > 0,
                    queue_before.last() == x@,
                    queue_before.drop_last() == qv0,
                    reach_set(g, a).finite(),
                    forall|f: nat| #[trigger] first_missing(g, queue_before, s0, f)
                        == first_missing(g, seq![a], Set::empty(), f + prev_steps),
                    g == dep_graph(self.table(), kind),
                    u == universe(self.all_shallow_hashes@),
                    a == name@,
                    u.to_set().finite(),
                    g.dom().contains(x@),
                    string_views(deps@).to_set() == g[x@],
                    string_views(deps@).to_set().subset_of(u.to_set()),
                    x@ == a || reaches(g, a, x@),
                    j <= deps@.len(),
                    string_views(seen@).no_duplicates(),
                    string_views(seen@).to_set().subset_of(u.to_set()),
                    forall|y: Seq<char>| seen_before.contains(y) ==> string_views(seen@).contains(y),
                    forall|k: int| 0 <= k < j ==> string_views(seen@).contains(#[trigger] string_views(deps@)[k]),
                    forall|y: Seq<char>| string_views(seen@).contains(y) ==> reaches(g, a, y),
                    forall|y: Seq<char>| string_views(queue@).contains(y) ==> y == a || string_views(seen@).contains(y),
                    forall|y: Seq<char>| string_views(seen@).contains(y) ==> string_views(queue@).contains(y) || done.contains(y) || y == x@,
                    string_views(seen@).len() >= seen_before.len(),
                    string_views(seen@).len() == seen_before.len() ==> string_views(queue@).len() + 1 == queue_before.len(),
                    forall|y: Seq<char>| queue_before.contains(y) && y != x@ ==> string_views(queue@).contains(y),
                decreases deps@.len() - j,
            {
                let d = &deps[j];
                assert(string_views(deps@)[j as int] == d@);
                proof {
                    lemma_fresh_step(ds, j as int, seen_before);
                }
                if !contains_name(&seen, d) {
                    proof {
                        assert(g[x@].contains(d@)) by {
                            assert(string_views(deps@).to_set().contains(d@));
                        }
                        if x@ == a {
                            lemma_edge_reaches(g, a, d@);
                        } else {
                            lemma_reaches_step(g, a, x@, d@);
                        }
                        assert(u.to_set().contains(d@)) by {
                            assert(string_views(deps@).to_set().contains(d@));
                        }
                    }
                    let ghost sv = string_views(seen@);
                    let ghost qv = string_views(queue@);
                    seen.push(d.clone());
                    queue.push(d.clone());
                    proof {
                        assert(string_views(seen@) =~= sv.push(d@));
                        assert(string_views(queue@) =~= qv.push(d@));
                        assert(string_views(seen@) =~= seen_before + ds.take(j + 1).filter(unseen(s0)));
                        assert(string_views(queue@) =~= qv0 + ds.take(j + 1).filter(unseen(s0)));
                        assert forall|y: Seq<char>| string_views(seen@).contains(y) implies reaches(g, a, y) by {
                            if y != d@ {
                                let k = choose|k: int| 0 <= k < string_views(seen@).len() && string_views(seen@)[k] == y;
                                assert(sv[k] == y);
                            }
                        }
                        assert forall|y: Seq<char>| seen_before.contains(y) implies string_views(seen@).contains(y) by {
                            let k = choose|k: int| 0 <= k < sv.len() && sv[k] == y;
                            assert(string_views(seen@)[k] == y);
                        }
                        assert forall|k: int| 0 <= k < j + 1 implies string_views(seen@).contains(#[trigger] string_views(deps@)[k]) by {
                            if k < j {
                                let m = choose|m: int| 0 <= m < sv.len() && sv[m] == string_views(deps@)[k];
                                assert(string_views(seen@)[m] == sv[m]);
                            } else {
                                assert(string_views(seen@)[sv.len() as int] == d@);
                            }
                        }
                        assert forall|y: Seq<char>| string_views(queue@).contains(y) implies y == a || string_views(seen@).contains(y) by {
                            if y != d@ {
                                let k = choose|k: int| 0 <= k < string_views(queue@).len() && string_views(queue@)[k] == y;
                                assert(qv[k] == y);
                                assert(qv.contains(y));
                                if y != a {
                                    assert(sv.contains(y));
                                    let m = choose|m: int| 0 <= m < sv.len() && sv[m] == y;
                                    assert(string_views(seen@)[m] == y);
                                }
                            } else {
                                assert(string_views(seen@)[sv.len() as int] == d@);
                            }
                        }
                        assert forall|y: Seq<char>| string_views(seen@).contains(y) implies string_views(queue@).contains(y) || done.contains(y) || y == x@ by {
                            if y == d@ {
                                assert(string_views(queue@)[qv.len() as int] == d@);
                            } else {
                                let k = choose|k: int| 0 <= k < string_views(seen@).len() && string_views(seen@)[k] == y;
                                assert(sv[k] == y);
                                if qv.contains(y) {
                                    let m = choose|m: int| 0 <= m < qv.len() && qv[m] == y;
                                    assert(string_views(queue@)[m] == y);
                                }
                            }
                        }
                        assert forall|y: Seq<char>| queue_before.contains(y) && y != x@ implies string_views(queue@).contains(y) by {
                            let m = choose|m: int| 0 <= m < qv.len() && qv[m] == y;
                            assert(string_views(queue@)[m] == y);
                        }
                        assert(string_views(seen@).to_set().subset_of(u.to_set())) by {
                            assert forall|y| string_views(seen@).to_set().contains(y) implies u.to_set().contains(y) by {
                                if y != d@ {
                                    let k = choose|k: int| 0 <= k < string_views(seen@).len() && string_views(seen@)[k] == y;
                                    assert(sv[k] == y);
                                    assert(sv.to_set().contains(y));
                                }
                            }
                        }
                    }
                }
                j = j + 1;
            }
            proof {
                let sv = string_views(seen@);
                let fresh = fresh_deps(g, x@, s0);
                assert(ds.take(j as int) =~= ds);
                assert(sorted_names(g[x@]) == ds);
                assert(fresh == ds.filter(unseen(s0)));
                assert(sv == seen_before + fresh);
                vstd::seq_lib::seq_to_set_distributes_over_add(seen_before, fresh);
                assert(sv.to_set() =~= s0 + fresh.to_set());
                assert(queue_before.drop_last() =~= qv0);
                assert forall|f: nat| #[trigger] first_missing(g, string_views(queue@), sv.to_set(), f)
                    == first_missing(g, seq![a], Set::empty(), f + steps) by {
                    assert(first_missing(g, queue_before, s0, f + 1) == first_missing(g, qv0 + fresh, s0 + fresh.to_set(), f));
                }
                assert(g[x@].subset_of(sv.to_set())) by {
                    assert forall|y| g[x@].contains(y) implies sv.to_set().contains(y) by {
                        assert(string_views(deps@).to_set().contains(y));
                        let k = choose|k: int| 0 <= k < string_views(deps@).len() && string_views(deps@)[k] == y;
                        assert(sv.contains(string_views(deps@)[k]));
                    }
                }
                let old_done = done;
                done = done.insert(x@);
                assert forall|y: Seq<char>| #[trigger] done.contains(y) implies g.dom().contains(y) && g[y].subset_of(sv.to_set()) by {
                    if y != x@ {
                        assert(old_done.contains(y));
                        assert(g[y].subset_of(seen_before.to_set()));
                        assert forall|z| g[y].contains(z) implies sv.to_set().contains(z) by {
                            assert(seen_before.to_set().contains(z));
                            assert(seen_before.contains(z));
                        }
                    }
                }
                if sv.len() == seen_before.len() {
                    assert(string_views(queue@).len() + 1 == queue_before.len());
                }
                if !string_views(queue@).contains(a) {
                    if a != x@ {
                        assert(queue_before.contains(a) ==> string_views(queue@).contains(a));
                    }
                }
                sv.unique_seq_to_set();
                vstd::set_lib::lemma_len_subset(sv.to_set(), u.to_set());
            }
        }
        proof {
            let sv = string_views(seen@);
            assert(string_views(queue@).len() == 0);
            assert(done.contains(a));
            assert(sv.to_set().subset_of(done)) by {
                assert forall|y| sv.to_set().contains(y) implies done.contains(y) by {
                    assert(sv.contains(y));
                }
            }
            assert forall|b: Seq<char>| reaches(g, a, b) implies sv.to_set().contains(b) by {
                lemma_closure_complete(g, a, sv.to_set(), done, b);
            }
            assert(reach_set(g, a) =~= sv.to_set()) by {
                assert forall|b| sv.to_set().contains(b) implies reach_set(g, a).contains(b) by {
                    assert(sv.contains(b));
                }
            }
            assert(closed_from(g, a)) by {
                assert forall|b: Seq<char>| reaches(g, a, b) implies g.dom().contains(b) by {
                    lemma_closure_complete(g, a, sv.to_set(), done, b);
                    assert(done.contains(b));
                }
            }
        }
        let sorted = sorted_unique(&seen);
        proof {
            lemma_sorted_names(string_views(sorted@));
            string_views(seen@).unique_seq_to_set();
        }
        (Ok(sorted), Ghost(steps))
    }

    /// A definition's full hash of the given kind; fails as
    /// `find_dependencies` does.
    pub fn hash(&self, name: &str, kind: DepKind) -> (r: Result<u64, HashError>)
        ensures
            match r {
                Ok(h) => closed_from(dep_graph(self.table(), kind), name@) && h == full_hash(self.table(), name@, kind),
                Err(HashError::DependencyNotFound(n)) => !closed_from(dep_graph(self.table(), kind), name@)
                    && missing_from(self.table(), kind, name@, n@),
            },
    {
        let deps = match self.find_dependencies(name, kind).0 {
            Ok(d) => d,
            Err(e) => return Err(e),
        };
        let ghost t = self.table();
        let ghost g = dep_graph(t, kind);
        let mut out: Vec<u8> = Vec::new();
        let own = match self.lookup(name) {
            Some(h) => h,
            None => return Err(HashError::DependencyNotFound(name.to_owned())),
        };
        let own_value = match kind {
            DepKind::Interface => own.interface_hash,
            DepKind::Implementation => own.implementation_hash,
        };
        push_u64(&mut out, own_value);
        let ghost head = out@;
        let ghost dv = string_views(deps@);
        let mut i: usize = 0;
        while i < deps.len()
            invariant
                t == self.table(),
                g == dep_graph(t, kind),
                closed_from(g, name@),
                dv == string_views(deps@),
                dv == all_deps(t, name@, kind),
                dv.to_set() == reach_set(g, name@),
                i <= deps@.len(),
                out@ == head + dep_hash_list(t, dv.take(i as int), kind),
            decreases deps@.len() - i,
        {
            let d = &deps[i];
            assert(dv[i as int] == d@);
            assert(reach_set(g, name@).contains(d@)) by {
                assert(dv.to_set().contains(d@));
            }
            let h = match self.lookup(d.as_str()) {
                Some(h) => h,
                None => return Err(HashError::DependencyNotFound(d.clone())),
            };
            push_str(&mut out, d.as_str());
            let v = match kind {
                DepKind::Interface => h.interface_hash,
                DepKind::Implementation => h.implementation_hash,
            };
            push_u64(&mut out, v);
            proof {
                assert(dv.take(i + 1).drop_last() =~= dv.take(i as int));
                assert(dv.take(i + 1).last() == d@);
            }
            i = i + 1;
            assert(out@ =~= head + dep_hash_list(t, dv.take(i as int), kind));
        }
        assert(dv.take(i as int) =~= dv);
        Ok(digest(out.as_slice()))
    }

    /// The full interface hash of a name.
    pub fn hash_interface(&self, name: &str) -> (r: Result<u64, HashError>)
        ensures
            match r {
                Ok(h) => closed_from(dep_graph(self.table(), DepKind::Interface), name@)
                    && h == full_hash(self.table(), name@, DepKind::Interface),
                Err(HashError::DependencyNotFound(n)) => !closed_from(dep_graph(self.table(), DepKind::Interface), name@)
                    && missing_from(self.table(), DepKind::Interface, name@, n@),
            },
    {
        self.hash(name, DepKind::Interface)
    }

    /// The full implementation hash of a name.
    pub fn hash_implementation(&self, name: &str) -> (r: Result<u64, HashError>)
        ensures
            match r {
                Ok(h) => closed_from(dep_graph(self.table(), DepKind::Implementation), name@)
                    && h == full_hash(self.table(), name@, DepKind::Implementation),
                Err(HashError::DependencyNotFound(n)) => !closed_from(dep_graph(self.table(), DepKind::Implementation), name@)
                    && missing_from(self.table(), DepKind::Implementation, name@, n@),
            },
    {
        self.hash(name, DepKind::Implementation)
    }

    /// Everything a name's interface depends on, directly or not.
    pub fn find_interface_dependencies(&self, name: &str) -> (r: Result<Vec<String>, HashError>)
        ensures
            match r {
                Ok(v) => closed_from(dep_graph(self.table(), DepKind::Interface), name@)
                    && string_views(v@) == all_deps(self.table(), name@, DepKind::Interface),
                Err(HashError::DependencyNotFound(n)) => !closed_from(dep_graph(self.table(), DepKind::Interface), name@)
                    && missing_from(self.table(), DepKind::Interface, name@, n@),
            },
    {
        self.find_dependencies(name, DepKind::Interface).0
    }

    /// Everything a name's implementation depends on, directly or not.
    pub fn find_implementation_dependencies(&self, name: &str) -> (r: Result<Vec<String>, HashError>)
        ensures
            match r {
                Ok(v) => closed_from(dep_graph(self.table(), DepKind::Implementation), name@)
                    && string_views(v@) == all_deps(self.table(), name@, DepKind::Implementation),
                Err(HashError::DependencyNotFound(n)) => !closed_from(dep_graph(self.table(), DepKind::Implementation), name@)
                    && missing_from(self.table(), DepKind::Implementation, name@, n@),
            },
    {
        self.find_dependencies(name, DepKind::Implementation).0
    }

    /// The dependencies a signature lists: those of the implementation.
    pub fn get_dependencies(&self, name: &str) -> (r: Result<Vec<String>, HashError>)
        ensures
            match r {
                Ok(v) => closed_from(dep_graph(self.table(), DepKind::Implementation), name@)
                    && string_views(v@) == all_deps(self.table(), name@, DepKind::Implementation),
                Err(HashError::DependencyNotFound(n)) => !closed_from(dep_graph(self.table(), DepKind::Implementation), name@)
                    && missing_from(self.table(), DepKind::Implementation, name@, n@),
            },
    {
        self.find_dependencies(name, DepKind::Implementation).0
    }
}

} // verus!
