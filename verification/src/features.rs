//! Features of dependencies: which features a package offers, and which ones the enabled
//! features turn on in their turn.

use vstd::prelude::*;

use crate::text::{has_char, has_prefix, seq_lt, str_eq, str_lt};
use crate::toml::{opt_view, path_view};

verus! {

/// Failed to fetch features for a dependency.
#[derive(Debug, Clone, Copy, PartialEq, Eq, Structural)]
pub enum FetchFeaturesError {
    /// A cargo-metadata error occurred while fetching features.
    MetadataFetchError,
    /// The dependency is not in the metadata.
    NotFound,
    /// The root project is not in the metadata.
    RootNotFound,
    /// The resolution graph is not available.
    ResolutionNotFound,
}

pub type FeatureEntries = Seq<(Seq<char>, Seq<Seq<char>>)>;

/// The value stored under `k`: that of the first entry with that key.
pub open spec fn lookup(es: FeatureEntries, k: Seq<char>) -> Option<Seq<Seq<char>>>
    decreases es.len(),
{
    if es.len() == 0 {
        None
    } else if es[0].0 == k {
        Some(es[0].1)
    } else {
        lookup(es.drop_first(), k)
    }
}

/// The entries seen as a map from feature name to what it lists.
pub open spec fn entries_map(es: FeatureEntries) -> Map<Seq<char>, Seq<Seq<char>>> {
    Map::new(|k: Seq<char>| lookup(es, k) is Some, |k: Seq<char>| lookup(es, k)->0)
}

/// The keys stand in strictly increasing order.
pub open spec fn sorted_keys(es: FeatureEntries) -> bool {
    forall|i: int| 0 <= i < es.len() - 1 ==> seq_lt(#[trigger] es[i].0, es[i + 1].0)
}

pub proof fn lemma_seq_lt_irreflexive(a: Seq<char>)
    ensures
        !seq_lt(a, a),
    decreases a.len(),
{
    if a.len() > 0 {
        lemma_seq_lt_irreflexive(a.drop_first());
    }
}

pub proof fn lemma_seq_lt_total(a: Seq<char>, b: Seq<char>)
    requires
        a != b,
    ensures
        seq_lt(a, b) || seq_lt(b, a),
    decreases a.len(),
{
    if a.len() > 0 && b.len() > 0 && a[0] == b[0] {
        if a.drop_first() == b.drop_first() {
            assert(a =~= seq![a[0]] + a.drop_first());
            assert(b =~= seq![b[0]] + b.drop_first());
        }
        lemma_seq_lt_total(a.drop_first(), b.drop_first());
    } else if a.len() > 0 && b.len() > 0 {
        assert((a[0] as int) != (b[0] as int));
    } else if a.len() == 0 && b.len() == 0 {
        assert(a =~= b);
    }
}

proof fn lemma_lookup_insert(es: FeatureEntries, i: int, k: Seq<char>, v: Seq<Seq<char>>, x: Seq<char>)
    requires
        0 <= i <= es.len(),
        forall|j: int| 0 <= j < i ==> es[j].0 != k,
    ensures
        lookup(es.insert(i, (k, v)), x) == if x == k {
            Some(v)
        } else {
            lookup(es, x)
        },
    decreases i,
{
    let e2 = es.insert(i, (k, v));
    if i > 0 {
        assert(e2[0] == es[0]);
        assert(e2.drop_first() =~= es.drop_first().insert(i - 1, (k, v)));
        lemma_lookup_insert(es.drop_first(), i - 1, k, v, x);
    } else {
        assert(e2.drop_first() =~= es);
    }
}

proof fn lemma_lookup_update(es: FeatureEntries, i: int, k: Seq<char>, v: Seq<Seq<char>>, x: Seq<char>)
    requires
        0 <= i < es.len(),
        es[i].0 == k,
        forall|j: int| 0 <= j < i ==> es[j].0 != k,
    ensures
        lookup(es.update(i, (k, v)), x) == if x == k {
            Some(v)
        } else {
            lookup(es, x)
        },
    decreases i,
{
    let e2 = es.update(i, (k, v));
    if i > 0 {
        assert(e2[0] == es[0]);
        assert(e2.drop_first() =~= es.drop_first().update(i - 1, (k, v)));
        lemma_lookup_update(es.drop_first(), i - 1, k, v, x);
    } else {
        assert(e2.drop_first() =~= es.drop_first());
    }
}

proof fn lemma_lookup_index(es: FeatureEntries, i: int, k: Seq<char>)
    requires
        0 <= i < es.len(),
        es[i].0 == k,
        forall|j: int| 0 <= j < i ==> es[j].0 != k,
    ensures
        lookup(es, k) == Some(es[i].1),
    decreases i,
{
    if i > 0 {
        lemma_lookup_index(es.drop_first(), i - 1, k);
    }
}

proof fn lemma_lookup_absent(es: FeatureEntries, k: Seq<char>)
    requires
        forall|j: int| 0 <= j < es.len() ==> es[j].0 != k,
    ensures
        lookup(es, k) is None,
    decreases es.len(),
{
    if es.len() > 0 {
        lemma_lookup_absent(es.drop_first(), k);
    }
}

proof fn lemma_sorted_update(es: FeatureEntries, i: int, nv: (Seq<char>, Seq<Seq<char>>))
    requires
        sorted_keys(es),
        0 <= i < es.len(),
        es[i].0 == nv.0,
    ensures
        sorted_keys(es.update(i, nv)),
{
    let e2 = es.update(i, nv);
    assert forall|j: int| 0 <= j < e2.len() - 1 implies seq_lt(#[trigger] e2[j].0, e2[j + 1].0) by {
        assert(e2[j].0 == es[j].0 && e2[j + 1].0 == es[j + 1].0);
    }
}

proof fn lemma_sorted_insert(es: FeatureEntries, i: int, nv: (Seq<char>, Seq<Seq<char>>))
    requires
        sorted_keys(es),
        0 <= i <= es.len(),
        forall|j: int| 0 <= j < i ==> seq_lt(#[trigger] es[j].0, nv.0),
        i < es.len() ==> seq_lt(nv.0, es[i].0),
    ensures
        sorted_keys(es.insert(i, nv)),
{
    let e2 = es.insert(i, nv);
    assert forall|j: int| 0 <= j < e2.len() - 1 implies seq_lt(#[trigger] e2[j].0, e2[j + 1].0) by {
        if j < i - 1 {
            assert(e2[j] == es[j] && e2[j + 1] == es[j + 1]);
        } else if j == i - 1 {
            assert(e2[j] == es[j] && e2[j + 1] == nv);
        } else if j == i {
            assert(e2[j] == nv && e2[j + 1] == es[i]);
        } else {
            assert(e2[j] == es[j - 1] && e2[j + 1] == es[j]);
        }
    }
}

/// A map from feature names to lists of names, kept in the order of its keys.
#[derive(Debug)]
pub struct FeaturesList {
    entries: Vec<(String, Vec<String>)>,
}

pub open spec fn entry_view(e: (String, Vec<String>)) -> (Seq<char>, Seq<Seq<char>>) {
    (e.0@, path_view(e.1@))
}

impl View for FeaturesList {
    type V = FeatureEntries;

    closed spec fn view(&self) -> FeatureEntries {
        self.entries@.map_values(|e: (String, Vec<String>)| entry_view(e))
    }
}

pub type FeaturesGraph = FeaturesList;

fn copy_strings(v: &Vec<String>) -> (r: Vec<String>)
    ensures
        path_view(r@) == path_view(v@),
{
    let mut r: Vec<String> = Vec::new();
    let mut i: usize = 0;
    while i < v.len()
        invariant
            i <= v.len(),
            path_view(r@) == path_view(v@).subrange(0, i as int),
        decreases v.len() - i,
    {
        let ghost before = r@;
        let s = v[i].clone();
        r.push(s);
        proof {
            assert(r@ == before.push(s));
            assert(path_view(r@) =~= path_view(before).push(s@));
            assert(path_view(v@).subrange(0, i + 1) =~= path_view(v@).subrange(0, i as int).push(v@[i as int]@));
        }
        i = i + 1;
    }
    proof {
        assert(path_view(v@).subrange(0, v@.len() as int) =~= path_view(v@));
    }
    r
}

impl FeaturesList {
    #[verifier::type_invariant]
    spec fn well_formed(self) -> bool {
        sorted_keys(self@)
    }

    /// The map of the list.
    pub open spec fn map(&self) -> Map<Seq<char>, Seq<Seq<char>>> {
        entries_map(self@)
    }

    /// An empty map.
    pub fn new() -> (r: FeaturesList)
        ensures
            r@ == Seq::<(Seq<char>, Seq<Seq<char>>)>::empty(),
    {
        let r = FeaturesList { entries: Vec::new() };
        assert(r@ =~= Seq::<(Seq<char>, Seq<Seq<char>>)>::empty());
        r
    }

    pub fn len(&self) -> (r: usize)
        ensures
            r == self@.len(),
    {
        self.entries.len()
    }

    /// The entries, in the order of their keys.
    pub fn entries(&self) -> (r: &Vec<(String, Vec<String>)>)
        ensures
            r@.map_values(|e: (String, Vec<String>)| entry_view(e)) == self@,
            sorted_keys(self@),
    {
        proof {
            use_type_invariant(self);
        }
        &self.entries
    }

    /// What the map stores under `key` (`BTreeMap::get`).
    pub fn get(&self, key: &str) -> (r: Option<&Vec<String>>)
        ensures
            match r {
                Some(v) => lookup(self@, key@) == Some(path_view(v@)),
                None => lookup(self@, key@) is None,
            },
    {
        let ghost es = self@;
        let mut i: usize = 0;
        while i < self.entries.len()
            invariant
                i <= self.entries.len(),
                es == self@,
                forall|j: int| 0 <= j < i ==> es[j].0 != key@,
            decreases self.entries.len() - i,
        {
            if str_eq(self.entries[i].0.as_str(), key) {
                proof {
                    assert(es[i as int] == entry_view(self.entries@[i as int]));
                    lemma_lookup_index(es, i as int, key@);
                }
                return Some(&self.entries[i].1);
            }
            proof {
                assert(es[i as int] == entry_view(self.entries@[i as int]));
            }
            i = i + 1;
        }
        proof {
            lemma_lookup_absent(es, key@);
        }
        None
    }

    /// The place of `key` among the keys: the first key that is not below it, and whether it is `key`.
    fn search(&self, key: &str) -> (r: (usize, bool))
        ensures
            r.0 <= self@.len(),
            forall|j: int| 0 <= j < r.0 ==> seq_lt(#[trigger] self@[j].0, key@) && self@[j].0 != key@,
            r.1 == (r.0 < self@.len() && self@[r.0 as int].0 == key@),
            !r.1 && r.0 < self@.len() ==> seq_lt(key@, self@[r.0 as int].0),
            sorted_keys(self@),
    {
        proof {
            use_type_invariant(self);
        }
        let ghost es = self@;
        let mut i: usize = 0;
        while i < self.entries.len() && str_lt(self.entries[i].0.as_str(), key)
            invariant
                i <= self.entries.len(),
                es == self@,
                forall|j: int| 0 <= j < i ==> seq_lt(#[trigger] es[j].0, key@),
            decreases self.entries.len() - i,
        {
            proof {
                assert(es[i as int] == entry_view(self.entries@[i as int]));
            }
            i = i + 1;
        }
        proof {
            assert forall|j: int| 0 <= j < i implies es[j].0 != key@ by {
                if es[j].0 == key@ {
                    lemma_seq_lt_irreflexive(key@);
                }
            }
        }
        if i < self.entries.len() {
            proof {
                assert(es[i as int] == entry_view(self.entries@[i as int]));
            }
            let found = str_eq(self.entries[i].0.as_str(), key);
            proof {
                if !found {
                    lemma_seq_lt_total(es[i as int].0, key@);
                }
            }
            (i, found)
        } else {
            (i, false)
        }
    }

    /// Stores `value` under `key`, in place of what was stored there (`BTreeMap::insert`).
    pub fn insert(&mut self, key: String, value: Vec<String>)
        ensures
            forall|x: Seq<char>| #[trigger] lookup(final(self)@, x) == if x == key@ {
                Some(path_view(value@))
            } else {
                lookup(old(self)@, x)
            },
    {
        let ghost es = self@;
        let (i, found) = self.search(key.as_str());
        let ghost nv = (key@, path_view(value@));
        let mut entries: Vec<(String, Vec<String>)> = Vec::new();
        std::mem::swap(&mut entries, &mut self.entries);
        proof {
            assert(entries@.map_values(|e: (String, Vec<String>)| entry_view(e)) == es);
        }
        if found {
            entries.set(i, (key, value));
            proof {
                lemma_sorted_update(es, i as int, nv);
                assert(entries@.map_values(|e: (String, Vec<String>)| entry_view(e)) =~= es.update(i as int, nv));
            }
        } else {
            entries.insert(i, (key, value));
            proof {
                lemma_sorted_insert(es, i as int, nv);
                assert(entries@.map_values(|e: (String, Vec<String>)| entry_view(e)) =~= es.insert(i as int, nv));
            }
        }
        self.entries = entries;
        proof {
            assert forall|x: Seq<char>| #[trigger] lookup(self@, x) == if x == nv.0 {
                Some(nv.1)
            } else {
                lookup(es, x)
            } by {
                if found {
                    lemma_lookup_update(es, i as int, nv.0, nv.1, x);
                } else {
                    lemma_lookup_insert(es, i as int, nv.0, nv.1, x);
                }
            }
        }
    }

    /// A copy of the map.
    pub fn duplicate(&self) -> (r: FeaturesList)
        ensures
            r@ == self@,
    {
        proof {
            use_type_invariant(self);
        }
        let mut entries: Vec<(String, Vec<String>)> = Vec::new();
        let mut i: usize = 0;
        while i < self.entries.len()
            invariant
                i <= self.entries.len(),
                entries@.map_values(|e: (String, Vec<String>)| entry_view(e)) == self@.subrange(0, i as int),
            decreases self.entries.len() - i,
        {
            let e = (self.entries[i].0.clone(), copy_strings(&self.entries[i].1));
            let ghost before = entries@;
            entries.push(e);
            proof {
                assert(entry_view(e) == self@[i as int]);
                assert(entries@ == before.push(e));
                assert(entries@.map_values(|e: (String, Vec<String>)| entry_view(e)) =~= before.map_values(
                    |e: (String, Vec<String>)| entry_view(e),
                ).push(entry_view(e)));
                assert(entries@.map_values(|e: (String, Vec<String>)| entry_view(e)) =~= self@.subrange(
                    0,
                    i + 1,
                ));
            }
            i = i + 1;
        }
        proof {
            assert(self@.subrange(0, self@.len() as int) =~= self@);
        }
        FeaturesList { entries }
    }
}

/// Whether a listed item names a feature: not `dep:<name>`, and no `<dep>/<feature>`.
pub open spec fn keeps_dep(d: Seq<char>) -> bool {
    !("dep:"@.len() <= d.len() && d.subrange(0, "dep:"@.len() as int) == "dep:"@) && !d.contains('/')
}

/// The items of `ds` that name features, in order.
pub open spec fn kept_deps(ds: Seq<Seq<char>>) -> Seq<Seq<char>>
    decreases ds.len(),
{
    if ds.len() == 0 {
        Seq::empty()
    } else if keeps_dep(ds.last()) {
        kept_deps(ds.drop_last()).push(ds.last())
    } else {
        kept_deps(ds.drop_last())
    }
}

/// The state of the walk over the features that enabled features imply.
pub struct ImplyState {
    /// For each feature, the chain of features through which it is implied (empty: not implied).
    pub graph: Map<Seq<char>, Seq<Seq<char>>>,
    /// The chain of features that leads to the feature being expanded.
    pub chain: Seq<Seq<char>>,
    /// The features still to expand, each with the length of the chain it was found at.
    pub stack: Seq<(Seq<char>, nat)>,
    /// The features expanded so far.
    pub visited: Set<Seq<char>>,
    /// Whether the walk has stopped.
    pub done: bool,
}

/// `g` with every feature of `ds` mapped to `c`.
pub open spec fn assign_chain(g: Map<Seq<char>, Seq<Seq<char>>>, ds: Seq<Seq<char>>, c: Seq<Seq<char>>) -> Map<
    Seq<char>,
    Seq<Seq<char>>,
> {
    Map::new(|k: Seq<char>| g.contains_key(k) || ds.contains(k), |k: Seq<char>| if ds.contains(k) { c } else { g[k] })
}

pub open spec fn push_deps(stack: Seq<(Seq<char>, nat)>, ds: Seq<Seq<char>>, n: nat) -> Seq<(Seq<char>, nat)> {
    stack + ds.map_values(|d: Seq<char>| (d, n))
}

/// One step of the walk: take the last feature off the stack; stop where the stack is empty,
/// where the feature was expanded before, or where it is no feature of the package; else
/// cut the chain back to the feature's length, extend it by the feature, map each feature
/// that it lists to that chain, and put those features on the stack.
pub open spec fn imply_step(f: Map<Seq<char>, Seq<Seq<char>>>, s: ImplyState) -> ImplyState {
    if s.done {
        s
    } else if s.stack.len() == 0 {
        ImplyState { graph: s.graph, chain: s.chain, stack: s.stack, visited: s.visited, done: true }
    } else {
        let feat = s.stack.last().0;
        let len = s.stack.last().1;
        let rest = s.stack.drop_last();
        if s.visited.contains(feat) {
            ImplyState { graph: s.graph, chain: s.chain, stack: rest, visited: s.visited, done: true }
        } else if !f.contains_key(feat) {
            ImplyState { graph: s.graph, chain: s.chain, stack: rest, visited: s.visited.insert(feat), done: true }
        } else {
            let chain = (if len <= s.chain.len() {
                s.chain.take(len as int)
            } else {
                s.chain
            }).push(feat);
            let deps = kept_deps(f[feat]);
            ImplyState {
                graph: assign_chain(s.graph, deps, chain),
                chain,
                stack: push_deps(rest, deps, chain.len()),
                visited: s.visited.insert(feat),
                done: false,
            }
        }
    }
}

pub open spec fn imply_run(f: Map<Seq<char>, Seq<Seq<char>>>, s: ImplyState, fuel: nat) -> ImplyState
    decreases fuel,
{
    if fuel == 0 || s.done {
        s
    } else {
        imply_run(f, imply_step(f, s), (fuel - 1) as nat)
    }
}

pub open spec fn initial_stack(enabled: Seq<Seq<char>>, default_enabled: bool) -> Seq<(Seq<char>, nat)> {
    enabled.map_values(|e: Seq<char>| (e, 0nat)) + if default_enabled {
        seq![("default"@, 0nat)]
    } else {
        Seq::empty()
    }
}

pub open spec fn initial_imply_state(es: FeatureEntries, enabled: Seq<Seq<char>>, default_enabled: bool) -> ImplyState {
    ImplyState {
        graph: Map::new(|k: Seq<char>| lookup(es, k) is Some, |k: Seq<char>| Seq::empty()),
        chain: Seq::empty(),
        stack: initial_stack(enabled, default_enabled),
        visited: Set::empty(),
        done: false,
    }
}

/// For each feature of the package (and each feature reached), the chain of features
/// through which the enabled features, and `default` where default features are on, imply it.
pub open spec fn implied_graph(es: FeatureEntries, enabled: Seq<Seq<char>>, default_enabled: bool) -> Map<
    Seq<char>,
    Seq<Seq<char>>,
> {
    imply_run(entries_map(es), initial_imply_state(es, enabled, default_enabled), (es.len() + 1) as nat).graph
}

proof fn lemma_run_done(f: Map<Seq<char>, Seq<Seq<char>>>, s: ImplyState, fuel: nat)
    requires
        s.done,
    ensures
        imply_run(f, s, fuel) == s,
{
}

proof fn lemma_lookup_some_index(es: FeatureEntries, k: Seq<char>)
    requires
        lookup(es, k) is Some,
    ensures
        exists|i: int| 0 <= i < es.len() && es[i].0 == k,
    decreases es.len(),
{
    if es[0].0 != k {
        lemma_lookup_some_index(es.drop_first(), k);
        let i = choose|i: int| 0 <= i < es.len() - 1 && es.drop_first()[i].0 == k;
        assert(es[i + 1].0 == k);
    }
}

/// The features of the map are no more than its entries.
proof fn lemma_dom_bound(es: FeatureEntries, visited: Set<Seq<char>>)
    requires
        visited.subset_of(entries_map(es).dom()),
    ensures
        visited.finite(),
        visited.len() <= es.len(),
{
    let keys = es.map_values(|e: (Seq<char>, Seq<Seq<char>>)| e.0);
    assert forall|k: Seq<char>| visited.contains(k) implies keys.to_set().contains(k) by {
        lemma_lookup_some_index(es, k);
        let i = choose|i: int| 0 <= i < es.len() && es[i].0 == k;
        assert(keys[i] == k);
    }
    broadcast use vstd::seq_lib::seq_to_set_is_finite;
    vstd::set_lib::lemma_len_subset(visited, keys.to_set());
    keys.lemma_cardinality_of_set();
}

proof fn lemma_run_keeps_keys(f: Map<Seq<char>, Seq<Seq<char>>>, s: ImplyState, fuel: nat, k: Seq<char>)
    requires
        s.graph.contains_key(k),
    ensures
        imply_run(f, s, fuel).graph.contains_key(k),
    decreases fuel,
{
    if fuel > 0 && !s.done {
        lemma_run_keeps_keys(f, imply_step(f, s), (fuel - 1) as nat, k);
    }
}

/// Every feature of the package has an entry in the graph of implied features.
pub proof fn law_every_feature_has_an_entry(
    es: FeatureEntries,
    enabled: Seq<Seq<char>>,
    default_enabled: bool,
    k: Seq<char>,
)
    requires
        lookup(es, k) is Some,
    ensures
        implied_graph(es, enabled, default_enabled).contains_key(k),
{
    lemma_run_keeps_keys(
        entries_map(es),
        initial_imply_state(es, enabled, default_enabled),
        (es.len() + 1) as nat,
        k,
    );
}

/// With no feature enabled and default features off, no feature is implied: each has an
/// empty chain.
pub proof fn law_nothing_enabled_implies_nothing(es: FeatureEntries)
    ensures
        implied_graph(es, Seq::empty(), false) == Map::new(
            |k: Seq<char>| lookup(es, k) is Some,
            |k: Seq<char>| Seq::<Seq<char>>::empty(),
        ),
{
    let s = initial_imply_state(es, Seq::empty(), false);
    assert(s.stack =~= Seq::<(Seq<char>, nat)>::empty());
    let t = imply_step(entries_map(es), s);
    assert(t.done);
    lemma_run_done(entries_map(es), t, es.len() as nat);
}

/// The features that the walk starts from: the enabled ones, and `default` where default
/// features are on.
pub open spec fn is_root(enabled: Seq<Seq<char>>, default_enabled: bool, k: Seq<char>) -> bool {
    enabled.contains(k) || (default_enabled && k == "default"@)
}

/// What every state of the walk keeps: each chain, the current one and those in the graph,
/// starts at a root, and each feature put on the stack with no chain before it is a root.
pub open spec fn rooted(s: ImplyState, enabled: Seq<Seq<char>>, default_enabled: bool) -> bool {
    &&& forall|k: Seq<char>|
        #![trigger s.graph[k]]
        s.graph.contains_key(k) && s.graph[k].len() > 0 ==> is_root(enabled, default_enabled, s.graph[k][0])
    &&& s.chain.len() > 0 ==> is_root(enabled, default_enabled, s.chain[0])
    &&& forall|i: int|
        #![trigger s.stack[i]]
        0 <= i < s.stack.len() && s.stack[i].1 == 0 ==> is_root(enabled, default_enabled, s.stack[i].0)
    &&& s.chain.len() == 0 ==> forall|i: int| #![trigger s.stack[i]] 0 <= i < s.stack.len() ==> s.stack[i].1 == 0
}

proof fn lemma_step_rooted(f: Map<Seq<char>, Seq<Seq<char>>>, s: ImplyState, enabled: Seq<Seq<char>>, default_enabled: bool)
    requires
        rooted(s, enabled, default_enabled),
    ensures
        rooted(imply_step(f, s), enabled, default_enabled),
{
    if !s.done && s.stack.len() > 0 {
        let feat = s.stack.last().0;
        let len = s.stack.last().1;
        let rest = s.stack.drop_last();
        if !s.visited.contains(feat) && f.contains_key(feat) {
            let chain = (if len <= s.chain.len() {
                s.chain.take(len as int)
            } else {
                s.chain
            }).push(feat);
            assert(s.stack[s.stack.len() - 1] == (feat, len));
            assert(is_root(enabled, default_enabled, chain[0])) by {
                if len == 0 {
                    assert(chain[0] == feat);
                } else if s.chain.len() == 0 {
                    assert(false);
                } else {
                    assert(chain[0] == s.chain[0]);
                }
            }
            let deps = kept_deps(f[feat]);
            let t = imply_step(f, s);
            assert(t.stack == push_deps(rest, deps, chain.len()));
            assert forall|i: int| #![trigger t.stack[i]] 0 <= i < t.stack.len() && t.stack[i].1 == 0 implies is_root(
                enabled,
                default_enabled,
                t.stack[i].0,
            ) by {
                if i < rest.len() {
                    assert(t.stack[i] == s.stack[i]);
                } else {
                    assert(t.stack[i].1 == chain.len());
                }
            }
        } else {
            let t = imply_step(f, s);
            assert forall|i: int| #![trigger t.stack[i]] 0 <= i < t.stack.len() implies t.stack[i] == s.stack[i] by {}
        }
    }
}

proof fn lemma_run_rooted(
    f: Map<Seq<char>, Seq<Seq<char>>>,
    s: ImplyState,
    fuel: nat,
    enabled: Seq<Seq<char>>,
    default_enabled: bool,
)
    requires
        rooted(s, enabled, default_enabled),
    ensures
        rooted(imply_run(f, s, fuel), enabled, default_enabled),
    decreases fuel,
{
    if fuel > 0 && !s.done {
        lemma_step_rooted(f, s, enabled, default_enabled);
        lemma_run_rooted(f, imply_step(f, s), (fuel - 1) as nat, enabled, default_enabled);
    }
}

/// A feature is only ever implied through a chain that starts at an enabled feature, or at
/// `default` where default features are on.
pub proof fn law_chains_start_at_enabled_features(
    es: FeatureEntries,
    enabled: Seq<Seq<char>>,
    default_enabled: bool,
    k: Seq<char>,
)
    requires
        implied_graph(es, enabled, default_enabled).contains_key(k),
        implied_graph(es, enabled, default_enabled)[k].len() > 0,
    ensures
        is_root(enabled, default_enabled, implied_graph(es, enabled, default_enabled)[k][0]),
{
    let s = initial_imply_state(es, enabled, default_enabled);
    assert forall|i: int| #![trigger s.stack[i]] 0 <= i < s.stack.len() implies s.stack[i].1 == 0 && is_root(
        enabled,
        default_enabled,
        s.stack[i].0,
    ) by {
        if i < enabled.len() {
            assert(s.stack[i] == (enabled[i], 0nat));
        } else {
            assert(s.stack[i] == ("default"@, 0nat));
        }
    }
    lemma_run_rooted(entries_map(es), s, (es.len() + 1) as nat, enabled, default_enabled);
}

/// Whether `c` is a path of implications among the features `f`: each feature of `c` is one
/// of `f`, and each lists the next one among the features it names.
pub open spec fn is_implication_path(f: Map<Seq<char>, Seq<Seq<char>>>, c: Seq<Seq<char>>) -> bool {
    &&& forall|i: int| #![trigger c[i]] 0 <= i < c.len() ==> f.contains_key(c[i])
    &&& forall|i: int| #![trigger c[i]] 0 <= i < c.len() - 1 ==> kept_deps(f[c[i]]).contains(c[i + 1])
}

/// What every state of the walk keeps of the links between features: the current chain is
/// a path of implications; each feature with a chain in the graph is listed by the last
/// feature of that chain, and the graph holds a feature beyond those of `f` only with a
/// chain; the stack's chain lengths never decrease towards its top, and a feature on it
/// found at a chain length is listed by the feature at that place of the current chain.
pub open spec fn linked(f: Map<Seq<char>, Seq<Seq<char>>>, s: ImplyState) -> bool {
    &&& is_implication_path(f, s.chain)
    &&& forall|k: Seq<char>|
        #![trigger s.graph[k]]
        s.graph.contains_key(k) && s.graph[k].len() > 0 ==> is_implication_path(f, s.graph[k]) && kept_deps(
            f[s.graph[k].last()],
        ).contains(k)
    &&& forall|k: Seq<char>| #![trigger s.graph.contains_key(k)]
        s.graph.contains_key(k) ==> f.contains_key(k) || s.graph[k].len() > 0
    &&& forall|i: int, j: int|
        #![trigger s.stack[i], s.stack[j]]
        0 <= i < j < s.stack.len() ==> s.stack[i].1 <= s.stack[j].1
    &&& forall|i: int|
        #![trigger s.stack[i]]
        0 <= i < s.stack.len() && s.stack[i].1 > 0 ==> s.stack[i].1 <= s.chain.len() && kept_deps(
            f[s.chain[s.stack[i].1 - 1]],
        ).contains(s.stack[i].0)
}

proof fn lemma_kept_deps_contains(ds: Seq<Seq<char>>, k: Seq<char>)
    requires
        kept_deps(ds).contains(k),
    ensures
        ds.contains(k),
        keeps_dep(k),
    decreases ds.len(),
{
    if ds.len() > 0 {
        let prev = ds.drop_last();
        if keeps_dep(ds.last()) && k == ds.last() {
            assert(ds[ds.len() - 1] == k);
        } else {
            if keeps_dep(ds.last()) {
                let i = choose|i: int| 0 <= i < kept_deps(ds).len() && kept_deps(ds)[i] == k;
                assert(i < kept_deps(prev).len());
                assert(kept_deps(prev)[i] == k);
            }
            lemma_kept_deps_contains(prev, k);
            let j = choose|j: int| 0 <= j < prev.len() && prev[j] == k;
            assert(ds[j] == k);
        }
    }
}

proof fn lemma_step_linked(f: Map<Seq<char>, Seq<Seq<char>>>, s: ImplyState)
    requires
        linked(f, s),
    ensures
        linked(f, imply_step(f, s)),
{
    let t = imply_step(f, s);
    if !s.done && s.stack.len() > 0 {
        let feat = s.stack.last().0;
        let len = s.stack.last().1;
        let rest = s.stack.drop_last();
        assert(s.stack[s.stack.len() - 1] == (feat, len));
        assert forall|i: int| #![trigger rest[i]] 0 <= i < rest.len() implies rest[i] == s.stack[i] && rest[i].1
            <= len by {
            assert(s.stack[i].1 <= s.stack[s.stack.len() - 1].1);
        }
        if !s.visited.contains(feat) && f.contains_key(feat) {
            let base = if len <= s.chain.len() {
                s.chain.take(len as int)
            } else {
                s.chain
            };
            let chain = base.push(feat);
            let deps = kept_deps(f[feat]);
            assert(len <= s.chain.len());
            assert(base == s.chain.take(len as int));
            assert forall|i: int| #![trigger chain[i]] 0 <= i < len implies chain[i] == s.chain[i] by {}
            assert(chain[len as int] == feat);
            assert(is_implication_path(f, chain)) by {
                assert forall|i: int| #![trigger chain[i]] 0 <= i < chain.len() - 1 implies kept_deps(
                    f[chain[i]],
                ).contains(chain[i + 1]) by {
                    if i + 1 < len {
                        assert(s.chain[i] == chain[i] && s.chain[i + 1] == chain[i + 1]);
                    } else {
                        assert(i == len - 1);
                        assert(chain[i] == s.chain[len - 1]);
                    }
                }
                assert forall|i: int| #![trigger chain[i]] 0 <= i < chain.len() implies f.contains_key(chain[i]) by {
                    if i < len {
                        assert(s.chain[i] == chain[i]);
                    }
                }
            }
            assert(t.graph == assign_chain(s.graph, deps, chain));
            assert(t.chain == chain);
            assert(t.stack == push_deps(rest, deps, chain.len()));
            assert forall|k: Seq<char>| #![trigger t.graph[k]] t.graph.contains_key(k) && t.graph[k].len()
                > 0 implies is_implication_path(f, t.graph[k]) && kept_deps(f[t.graph[k].last()]).contains(k) by {
                if deps.contains(k) {
                    assert(t.graph[k] == chain);
                    assert(chain.last() == feat);
                } else {
                    assert(t.graph[k] == s.graph[k]);
                }
            }
            assert forall|k: Seq<char>| #![trigger t.graph.contains_key(k)] t.graph.contains_key(k) implies f.contains_key(k)
                || t.graph[k].len() > 0 by {
                if deps.contains(k) {
                    assert(t.graph[k] == chain);
                } else {
                    assert(s.graph.contains_key(k));
                }
            }
            assert forall|i: int, j: int| #![trigger t.stack[i], t.stack[j]] 0 <= i < j < t.stack.len() implies t.stack[i].1
                <= t.stack[j].1 by {
                if j < rest.len() {
                    assert(t.stack[i] == rest[i] && t.stack[j] == rest[j]);
                    assert(s.stack[i].1 <= s.stack[j].1);
                } else if i < rest.len() {
                    assert(t.stack[i] == rest[i]);
                    assert(t.stack[j].1 == chain.len());
                } else {
                    assert(t.stack[i].1 == chain.len() && t.stack[j].1 == chain.len());
                }
            }
            assert forall|i: int| #![trigger t.stack[i]] 0 <= i < t.stack.len() && t.stack[i].1 > 0 implies t.stack[i].1
                <= t.chain.len() && kept_deps(f[t.chain[t.stack[i].1 - 1]]).contains(t.stack[i].0) by {
                if i < rest.len() {
                    assert(t.stack[i] == rest[i]);
                    assert(rest[i] == s.stack[i]);
                    assert(chain[s.stack[i].1 - 1] == s.chain[s.stack[i].1 - 1]);
                } else {
                    let d = i - rest.len();
                    assert(t.stack[i] == (deps[d], chain.len()));
                    assert(chain[chain.len() - 1] == feat);
                    assert(deps.contains(deps[d]));
                }
            }
        } else {
            assert forall|i: int| #![trigger t.stack[i]] 0 <= i < t.stack.len() implies t.stack[i] == s.stack[i] by {}
            assert forall|i: int, j: int| #![trigger t.stack[i], t.stack[j]] 0 <= i < j < t.stack.len() implies t.stack[i].1
                <= t.stack[j].1 by {
                assert(t.stack[i] == s.stack[i] && t.stack[j] == s.stack[j]);
            }
        }
    }
}

proof fn lemma_run_linked(f: Map<Seq<char>, Seq<Seq<char>>>, s: ImplyState, fuel: nat)
    requires
        linked(f, s),
    ensures
        linked(f, imply_run(f, s, fuel)),
    decreases fuel,
{
    if fuel > 0 && !s.done {
        lemma_step_linked(f, s);
        lemma_run_linked(f, imply_step(f, s), (fuel - 1) as nat);
    }
}

/// A feature with a chain in the graph of implied features is reached by a path of
/// implications from a root: the chain starts at an enabled feature (or `default`, where
/// default features are on), each feature of the chain is a feature of the package that
/// lists the next, and the last one lists the feature, which names a feature (neither
/// `dep:<name>` nor `<dep>/<feature>`). A feature that the graph holds beyond those of the
/// package always has such a chain, so it comes from some feature's list.
pub proof fn law_chains_are_implication_paths(
    es: FeatureEntries,
    enabled: Seq<Seq<char>>,
    default_enabled: bool,
    k: Seq<char>,
)
    requires
        implied_graph(es, enabled, default_enabled).contains_key(k),
    ensures
        lookup(es, k) is None ==> implied_graph(es, enabled, default_enabled)[k].len() > 0,
        ({
            let c = implied_graph(es, enabled, default_enabled)[k];
            let f = entries_map(es);
            c.len() > 0 ==> {
                &&& is_root(enabled, default_enabled, c[0])
                &&& forall|i: int| #![trigger c[i]] 0 <= i < c.len() ==> f.contains_key(c[i])
                &&& forall|i: int|
                    #![trigger c[i]]
                    0 <= i < c.len() - 1 ==> f[c[i]].contains(c[i + 1]) && keeps_dep(c[i + 1])
                &&& f[c.last()].contains(k)
                &&& keeps_dep(k)
            }
        }),
{
    let f = entries_map(es);
    let s = initial_imply_state(es, enabled, default_enabled);
    assert forall|i: int| #![trigger s.stack[i]] 0 <= i < s.stack.len() implies s.stack[i].1 == 0 by {
        if i < enabled.len() {
            assert(s.stack[i] == (enabled[i], 0nat));
        } else {
            assert(s.stack[i] == ("default"@, 0nat));
        }
    }
    assert(linked(f, s));
    lemma_run_linked(f, s, (es.len() + 1) as nat);
    let t = imply_run(f, s, (es.len() + 1) as nat);
    let g = implied_graph(es, enabled, default_enabled);
    assert(t.graph == g);
    let c = g[k];
    assert(t.graph.contains_key(k));
    assert(f.contains_key(k) <==> lookup(es, k) is Some);
    if c.len() > 0 {
        assert(is_implication_path(f, t.graph[k]));
        assert(kept_deps(f[c.last()]).contains(k));
        law_chains_start_at_enabled_features(es, enabled, default_enabled, k);
        lemma_kept_deps_contains(f[c.last()], k);
        assert forall|i: int| #![trigger c[i]] 0 <= i < c.len() - 1 implies f[c[i]].contains(c[i + 1]) && keeps_dep(
            c[i + 1],
        ) by {
            lemma_kept_deps_contains(f[c[i]], c[i + 1]);
        }
    }
}

pub open spec fn stack_view(st: Seq<(String, usize)>) -> Seq<(Seq<char>, nat)> {
    st.map_values(|e: (String, usize)| (e.0@, e.1 as nat))
}

pub open spec fn visited_view(v: Seq<String>) -> Set<Seq<char>> {
    path_view(v).to_set()
}

fn keeps_feature(d: &str) -> (r: bool)
    ensures
        r == keeps_dep(d@),
{
    !has_prefix(d, "dep:") && !has_char(d, '/')
}

/// Maps each feature that `deps` lists to `chain`, and puts it on the stack with the chain's length.
fn assign_deps(graph: &mut FeaturesList, stack: &mut Vec<(String, usize)>, deps: &Vec<String>, chain: &Vec<String>)
    ensures
        entries_map(final(graph)@) == assign_chain(entries_map(old(graph)@), kept_deps(path_view(deps@)), path_view(chain@)),
        stack_view(final(stack)@) == push_deps(stack_view(old(stack)@), kept_deps(path_view(deps@)), chain@.len() as nat),
{
    let ghost g0 = entries_map(graph@);
    let ghost s0 = stack_view(stack@);
    let ghost dv = path_view(deps@);
    let ghost cv = path_view(chain@);
    let mut j: usize = 0;
    while j < deps.len()
        invariant
            j <= deps.len(),
            dv == path_view(deps@),
            cv == path_view(chain@),
            entries_map(graph@) == assign_chain(g0, kept_deps(dv.subrange(0, j as int)), cv),
            stack_view(stack@) == push_deps(s0, kept_deps(dv.subrange(0, j as int)), chain@.len() as nat),
        decreases deps.len() - j,
    {
        proof {
            assert(dv.subrange(0, j + 1).drop_last() =~= dv.subrange(0, j as int));
            assert(dv.subrange(0, j + 1).last() == deps@[j as int]@);
        }
        let d = deps[j].as_str();
        if keeps_feature(d) {
            let ghost gb = graph@;
            let ghost sb = stack@;
            let ghost kd = kept_deps(dv.subrange(0, j as int));
            graph.insert(String::from_str(d), copy_strings(chain));
            stack.push((String::from_str(d), chain.len()));
            proof {
                let gm = entries_map(gb);
                assert(gm == assign_chain(g0, kd, cv));
                assert forall|x: Seq<char>| #[trigger] entries_map(graph@).contains_key(x) == assign_chain(g0, kd.push(d@), cv).contains_key(x) && (entries_map(graph@).contains_key(x) ==> entries_map(graph@)[x] == assign_chain(g0, kd.push(d@), cv)[x]) by {
                    assert(lookup(graph@, x) == if x == d@ { Some(cv) } else { lookup(gb, x) });
                    assert(gm.contains_key(x) == (lookup(gb, x) is Some));
                    assert(kd.push(d@).contains(x) == (kd.contains(x) || x == d@)) by {
                        if kd.push(d@).contains(x) {
                            let i = choose|i: int| 0 <= i < kd.push(d@).len() && kd.push(d@)[i] == x;
                            if i < kd.len() {
                                assert(kd[i] == x);
                            }
                        }
                        if kd.contains(x) {
                            let i = choose|i: int| 0 <= i < kd.len() && kd[i] == x;
                            assert(kd.push(d@)[i] == x);
                        }
                        if x == d@ {
                            assert(kd.push(d@)[kd.len() as int] == x);
                        }
                    }
                    if x != d@ && gm.contains_key(x) {
                        assert(gm[x] == lookup(gb, x)->0);
                    }
                }
                assert(entries_map(graph@) =~= assign_chain(g0, kd.push(d@), cv));
                assert(stack_view(stack@) =~= push_deps(s0, kd.push(d@), chain@.len() as nat)) by {
                    assert(stack_view(stack@) =~= stack_view(sb).push((d@, chain@.len() as nat)));
                }
            }
        }
        j = j + 1;
    }
    proof {
        assert(dv.subrange(0, deps@.len() as int) =~= dv);
    }
}

/// For each feature of the package, and each feature reached, the chain of features through
/// which the enabled features (and `default`, where default features are on) imply it; the
/// walk stops at the first feature that it meets a second time or that the package lacks.
pub fn create_implied_graph(features: &FeaturesList, enabled: &Vec<String>, default_enabled: bool) -> (r: FeaturesGraph)
    ensures
        entries_map(r@) == implied_graph(features@, path_view(enabled@), default_enabled),
{
    let ghost es = features@;
    let ghost fm = entries_map(es);
    let ghost fuel: nat = (es.len() + 1) as nat;
    let ghost init = initial_imply_state(es, path_view(enabled@), default_enabled);
    let mut graph = FeaturesList::new();
    let entries = features.entries();
    let mut i: usize = 0;
    while i < entries.len()
        invariant
            i <= entries.len(),
            entries@.map_values(|e: (String, Vec<String>)| entry_view(e)) == es,
            entries_map(graph@) == Map::new(
                |k: Seq<char>| lookup(es.subrange(0, i as int), k) is Some,
                |k: Seq<char>| Seq::<Seq<char>>::empty(),
            ),
        decreases entries.len() - i,
    {
        let ghost gb = graph@;
        graph.insert(entries[i].0.clone(), Vec::new());
        proof {
            assert(es[i as int] == entry_view(entries@[i as int]));
            let key = es[i as int].0;
            let gm = entries_map(gb);
            assert forall|x: Seq<char>| #[trigger] entries_map(graph@).contains_key(x) == (lookup(es.subrange(0, i + 1), x) is Some) && (entries_map(graph@).contains_key(x) ==> entries_map(graph@)[x] == Seq::<Seq<char>>::empty()) by {
                assert(lookup(graph@, x) == if x == key { Some(Seq::<Seq<char>>::empty()) } else { lookup(gb, x) });
                lemma_lookup_prefix(es, i as int, x);
                assert(gm.contains_key(x) == (lookup(gb, x) is Some));
                if x != key && gm.contains_key(x) {
                    assert(gm[x] == lookup(gb, x)->0);
                }
            }
            assert(entries_map(graph@) =~= Map::new(
                |k: Seq<char>| lookup(es.subrange(0, i + 1), k) is Some,
                |k: Seq<char>| Seq::<Seq<char>>::empty(),
            ));
        }
        i = i + 1;
    }
    proof {
        assert(es.subrange(0, es.len() as int) =~= es);
    }
    let mut chain: Vec<String> = Vec::new();
    let mut stack: Vec<(String, usize)> = Vec::new();
    let mut j: usize = 0;
    while j < enabled.len()
        invariant
            j <= enabled.len(),
            stack_view(stack@) == path_view(enabled@).subrange(0, j as int).map_values(|e: Seq<char>| (e, 0nat)),
        decreases enabled.len() - j,
    {
        let ghost sb = stack@;
        stack.push((enabled[j].clone(), 0));
        proof {
            assert(stack_view(stack@) =~= stack_view(sb).push((enabled@[j as int]@, 0nat)));
            assert(path_view(enabled@).subrange(0, j + 1) =~= path_view(enabled@).subrange(0, j as int).push(enabled@[j as int]@));
            assert(stack_view(stack@) =~= path_view(enabled@).subrange(0, j + 1).map_values(|e: Seq<char>| (e, 0nat)));
        }
        j = j + 1;
    }
    if default_enabled {
        stack.push((String::from_str("default"), 0));
    }
    proof {
        assert(path_view(enabled@).subrange(0, enabled@.len() as int) =~= path_view(enabled@));
        assert(stack_view(stack@) =~= initial_stack(path_view(enabled@), default_enabled));
        assert(path_view(chain@) =~= Seq::<Seq<char>>::empty());
    }
    let mut visited: Vec<String> = Vec::new();
    let ghost mut k: nat = 0;
    proof {
        assert(visited_view(visited@) =~= Set::<Seq<char>>::empty());
    }
    loop
        invariant_except_break
            imply_run(fm, init, fuel) == imply_run(
                fm,
                ImplyState {
                    graph: entries_map(graph@),
                    chain: path_view(chain@),
                    stack: stack_view(stack@),
                    visited: visited_view(visited@),
                    done: false,
                },
                (fuel - k) as nat,
            ),
            visited_view(visited@).finite(),
            visited_view(visited@).len() == k,
            visited_view(visited@).subset_of(fm.dom()),
            k < fuel,
        invariant
            es == features@,
            fm == entries_map(es),
            fuel == es.len() + 1,
        ensures
            entries_map(graph@) == imply_run(fm, init, fuel).graph,
        decreases fuel - k,
    {
        let ghost cur = ImplyState {
            graph: entries_map(graph@),
            chain: path_view(chain@),
            stack: stack_view(stack@),
            visited: visited_view(visited@),
            done: false,
        };
        proof {
            assert(imply_run(fm, cur, (fuel - k) as nat) == imply_run(fm, imply_step(fm, cur), (fuel - k - 1) as nat));
        }
        let top = stack.pop();
        let (feature, len) = match top {
            None => {
                proof {
                    lemma_run_done(fm, imply_step(fm, cur), (fuel - k - 1) as nat);
                }
                break;
            },
            Some(t) => t,
        };
        proof {
            assert(entries_map(graph@) == cur.graph);
        }
        proof {
            assert(stack_view(stack@) =~= cur.stack.drop_last());
            assert(cur.stack.last() == (feature@, len as nat));
        }
        if crate::manifest::dependency::contains_string(&visited, feature.as_str()) {
            proof {
                assert(cur.visited.contains(feature@));
                lemma_run_done(fm, imply_step(fm, cur), (fuel - k - 1) as nat);
            }
            break;
        }
        let ghost vb = visited@;
        visited.push(feature.clone());
        proof {
            assert(path_view(visited@) =~= path_view(vb).push(feature@));
            path_view(vb).lemma_push_to_set_commute(feature@);
            assert(visited_view(visited@) =~= cur.visited.insert(feature@));
        }
        let deps = match features.get(feature.as_str()) {
            None => {
                proof {
                    lemma_run_done(fm, imply_step(fm, cur), (fuel - k - 1) as nat);
                }
                break;
            },
            Some(d) => d,
        };
        chain.truncate(len);
        chain.push(feature);
        proof {
            let c0 = cur.chain;
            assert(path_view(chain@) =~= (if len as nat <= c0.len() {
                c0.take(len as int)
            } else {
                c0
            }).push(feature@));
        }
        assign_deps(&mut graph, &mut stack, deps, &chain);
        proof {
            let nxt = imply_step(fm, cur);
            assert(entries_map(graph@) == nxt.graph);
            assert(stack_view(stack@) == nxt.stack);
            assert(visited_view(visited@) == nxt.visited);
            vstd::set::axiom_set_insert_len(cur.visited, feature@);
            k = k + 1;
            lemma_dom_bound(es, visited_view(visited@));
        }
    }
    graph
}

proof fn lemma_lookup_prefix(es: FeatureEntries, i: int, k: Seq<char>)
    requires
        0 <= i < es.len(),
    ensures
        (lookup(es.subrange(0, i + 1), k) is Some) == (k == es[i].0 || lookup(es.subrange(0, i), k) is Some),
    decreases i,
{
    let a = es.subrange(0, i + 1);
    let b = es.subrange(0, i);
    assert(a[0] == es[0]);
    if i > 0 {
        assert(b[0] == es[0]);
        assert(a.drop_first() =~= es.drop_first().subrange(0, i));
        assert(b.drop_first() =~= es.drop_first().subrange(0, i - 1));
        assert(es.drop_first()[i - 1] == es[i]);
        lemma_lookup_prefix(es.drop_first(), i - 1, k);
    } else {
        assert(a.drop_first() =~= Seq::<(Seq<char>, Seq<Seq<char>>)>::empty());
        assert(b =~= Seq::<(Seq<char>, Seq<Seq<char>>)>::empty());
    }
}

pub open spec fn opt_index(r: Option<usize>) -> Option<int> {
    match r {
        Some(i) => Some(i as int),
        None => None,
    }
}

/// A dependency of a package, as cargo's metadata lists it.
#[derive(Debug)]
pub struct MetadataDependency {
    pub name: String,
    pub rename: Option<String>,
}

/// A package of the metadata: its id, name, dependencies and features.
#[derive(Debug)]
pub struct MetadataPackage {
    pub id: String,
    pub name: String,
    pub dependencies: Vec<MetadataDependency>,
    pub features: FeaturesList,
}

/// A node of the resolved dependency graph.
#[derive(Debug)]
pub struct ResolveNode {
    pub id: String,
    pub dependencies: Vec<String>,
}

/// The resolved dependency graph.
#[derive(Debug)]
pub struct Resolve {
    pub nodes: Vec<ResolveNode>,
    pub root: Option<String>,
}

/// What `cargo metadata` says of the workspace, as far as features are looked up in it.
#[derive(Debug)]
pub struct Metadata {
    pub packages: Vec<MetadataPackage>,
    pub resolve: Option<Resolve>,
}

/// The first index of `s` whose element `p` holds of.
pub open spec fn first_where<T>(s: Seq<T>, p: spec_fn(T) -> bool) -> Option<int>
    decreases s.len(),
{
    if s.len() == 0 {
        None
    } else if p(s[0]) {
        Some(0)
    } else {
        match first_where(s.drop_first(), p) {
            Some(i) => Some(i + 1),
            None => None,
        }
    }
}

pub proof fn lemma_first_where<T>(s: Seq<T>, p: spec_fn(T) -> bool, i: int)
    requires
        0 <= i <= s.len(),
        forall|j: int| 0 <= j < i ==> !p(#[trigger] s[j]),
    ensures
        i < s.len() && p(s[i]) ==> first_where(s, p) == Some(i),
        i == s.len() ==> first_where(s, p) is None,
    decreases i,
{
    if i > 0 {
        assert forall|j: int| 0 <= j < i - 1 implies !p(#[trigger] s.drop_first()[j]) by {
            assert(s.drop_first()[j] == s[j + 1]);
        }
        lemma_first_where(s.drop_first(), p, i - 1);
        assert(!p(s[0]));
    }
}

pub proof fn lemma_first_where_some<T>(s: Seq<T>, p: spec_fn(T) -> bool)
    requires
        first_where(s, p) is Some,
    ensures
        0 <= first_where(s, p)->0 < s.len(),
        p(s[first_where(s, p)->0]),
        forall|j: int| 0 <= j < first_where(s, p)->0 ==> !p(#[trigger] s[j]),
    decreases s.len(),
{
    if !p(s[0]) {
        lemma_first_where_some(s.drop_first(), p);
        let i = first_where(s.drop_first(), p)->0;
        assert forall|j: int| 0 <= j < i + 1 implies !p(#[trigger] s[j]) by {
            if j > 0 {
                assert(s[j] == s.drop_first()[j - 1]);
            }
        }
    }
}

pub open spec fn package_is(p: MetadataPackage, id: Seq<char>, name: Seq<char>) -> bool {
    p.id@ == id && p.name@ == name
}

pub open spec fn resolves_to(packages: Seq<MetadataPackage>, id: Seq<char>, name: Seq<char>) -> bool {
    first_where(packages, |p: MetadataPackage| package_is(p, id, name)) is Some
}

/// The first package among those that `node` depends on whose name is `dep_name`.
pub open spec fn node_feature_package(
    packages: Seq<MetadataPackage>,
    node: ResolveNode,
    dep_name: Seq<char>,
) -> Result<int, FetchFeaturesError> {
    match first_where(node.dependencies@, |id: String| resolves_to(packages, id@, dep_name)) {
        None => Err(FetchFeaturesError::NotFound),
        Some(k) => Ok(
            first_where(packages, |p: MetadataPackage| package_is(p, node.dependencies@[k]@, dep_name))->0,
        ),
    }
}

/// The package that the metadata resolves for the dependency named `name` of the root
/// package, found step by step the way `fetch_features` looks for it.
pub open spec fn feature_package(md: Metadata, name: Seq<char>) -> Result<int, FetchFeaturesError> {
    match md.resolve {
        None => Err(FetchFeaturesError::ResolutionNotFound),
        Some(res) => match res.root {
            None => Err(FetchFeaturesError::RootNotFound),
            Some(root) => match first_where(md.packages@, |p: MetadataPackage| p.id@ == root@) {
                None => Err(FetchFeaturesError::RootNotFound),
                Some(ri) => {
                    let rp = md.packages@[ri];
                    match first_where(
                        rp.dependencies@,
                        |d: MetadataDependency| opt_view(d.rename) == Some(name) || d.name@ == name,
                    ) {
                        None => Err(FetchFeaturesError::NotFound),
                        Some(di) => {
                            let dep = rp.dependencies@[di];
                            match first_where(res.nodes@, |n: ResolveNode| n.id@ == rp.id@) {
                                None => Err(FetchFeaturesError::RootNotFound),
                                Some(ni) => node_feature_package(md.packages@, res.nodes@[ni], dep.name@),
                            }
                        },
                    }
                },
            },
        },
    }
}

fn find_package_by_id(packages: &Vec<MetadataPackage>, id: &str) -> (r: Option<usize>)
    ensures
        opt_index(r) == first_where(packages@, |p: MetadataPackage| p.id@ == id@),
{
    let mut i: usize = 0;
    while i < packages.len()
        invariant
            i <= packages.len(),
            forall|j: int| 0 <= j < i ==> packages@[j].id@ != id@,
        decreases packages.len() - i,
    {
        if str_eq(packages[i].id.as_str(), id) {
            proof {
                lemma_first_where(packages@, |p: MetadataPackage| p.id@ == id@, i as int);
            }
            return Some(i);
        }
        i = i + 1;
    }
    proof {
        lemma_first_where(packages@, |p: MetadataPackage| p.id@ == id@, i as int);
    }
    None
}

fn find_package_by_id_and_name(packages: &Vec<MetadataPackage>, id: &str, name: &str) -> (r: Option<usize>)
    ensures
        opt_index(r) == first_where(packages@, |p: MetadataPackage| package_is(p, id@, name@)),
{
    let mut i: usize = 0;
    while i < packages.len()
        invariant
            i <= packages.len(),
            forall|j: int| 0 <= j < i ==> !(packages@[j].id@ == id@ && packages@[j].name@ == name@),
        decreases packages.len() - i,
    {
        if str_eq(packages[i].id.as_str(), id) && str_eq(packages[i].name.as_str(), name) {
            proof {
                lemma_first_where(packages@, |p: MetadataPackage| package_is(p, id@, name@), i as int);
            }
            return Some(i);
        }
        i = i + 1;
    }
    proof {
        lemma_first_where(packages@, |p: MetadataPackage| package_is(p, id@, name@), i as int);
    }
    None
}

fn find_dependency(deps: &Vec<MetadataDependency>, name: &str) -> (r: Option<usize>)
    ensures
        opt_index(r) == first_where(
            deps@,
            |d: MetadataDependency| opt_view(d.rename) == Some(name@) || d.name@ == name@,
        ),
{
    let mut i: usize = 0;
    while i < deps.len()
        invariant
            i <= deps.len(),
            forall|j: int| 0 <= j < i ==> !(opt_view(deps@[j].rename) == Some(name@) || deps@[j].name@ == name@),
        decreases deps.len() - i,
    {
        let renamed = match &deps[i].rename {
            Some(r) => str_eq(r.as_str(), name),
            None => false,
        };
        if renamed || str_eq(deps[i].name.as_str(), name) {
            proof {
                lemma_first_where(deps@, |d: MetadataDependency| opt_view(d.rename) == Some(name@) || d.name@ == name@, i as int);
            }
            return Some(i);
        }
        i = i + 1;
    }
    proof {
        lemma_first_where(deps@, |d: MetadataDependency| opt_view(d.rename) == Some(name@) || d.name@ == name@, i as int);
    }
    None
}

fn find_node(nodes: &Vec<ResolveNode>, id: &str) -> (r: Option<usize>)
    ensures
        opt_index(r) == first_where(nodes@, |n: ResolveNode| n.id@ == id@),
{
    let mut i: usize = 0;
    while i < nodes.len()
        invariant
            i <= nodes.len(),
            forall|j: int| 0 <= j < i ==> nodes@[j].id@ != id@,
        decreases nodes.len() - i,
    {
        if str_eq(nodes[i].id.as_str(), id) {
            proof {
                lemma_first_where(nodes@, |n: ResolveNode| n.id@ == id@, i as int);
            }
            return Some(i);
        }
        i = i + 1;
    }
    proof {
        lemma_first_where(nodes@, |n: ResolveNode| n.id@ == id@, i as int);
    }
    None
}

/// The features of the package that the dependency named `name` of the root package
/// resolves to.
pub fn fetch_features<'a>(metadata: &'a Metadata, name: &str) -> (r: Result<&'a FeaturesList, FetchFeaturesError>)
    ensures
        match feature_package(*metadata, name@) {
            Ok(i) => r matches Ok(f) && f@ == metadata.packages@[i].features@,
            Err(e) => r matches Err(e2) && e2 == e,
        },
{
    let resolve = match &metadata.resolve {
        Some(r) => r,
        None => {
            return Err(FetchFeaturesError::ResolutionNotFound);
        },
    };
    let root = match &resolve.root {
        Some(r) => r,
        None => {
            return Err(FetchFeaturesError::RootNotFound);
        },
    };
    let ri = match find_package_by_id(&metadata.packages, root.as_str()) {
        Some(i) => i,
        None => {
            return Err(FetchFeaturesError::RootNotFound);
        },
    };
    proof {
        lemma_first_where_some(metadata.packages@, |p: MetadataPackage| p.id@ == root@);
    }
    let root_package = &metadata.packages[ri];
    let di = match find_dependency(&root_package.dependencies, name) {
        Some(i) => i,
        None => {
            return Err(FetchFeaturesError::NotFound);
        },
    };
    proof {
        lemma_first_where_some(
            root_package.dependencies@,
            |d: MetadataDependency| opt_view(d.rename) == Some(name@) || d.name@ == name@,
        );
    }
    let dep_name = root_package.dependencies[di].name.as_str();
    let ni = match find_node(&resolve.nodes, root_package.id.as_str()) {
        Some(i) => i,
        None => {
            return Err(FetchFeaturesError::RootNotFound);
        },
    };
    proof {
        lemma_first_where_some(resolve.nodes@, |n: ResolveNode| n.id@ == root_package.id@);
    }
    let node = &resolve.nodes[ni];
    assert(feature_package(*metadata, name@) == node_feature_package(metadata.packages@, *node, dep_name@));
    let mut k: usize = 0;
    while k < node.dependencies.len()
        invariant
            k <= node.dependencies.len(),
            forall|j: int| 0 <= j < k ==> !resolves_to(metadata.packages@, node.dependencies@[j]@, dep_name@),
            feature_package(*metadata, name@) == node_feature_package(metadata.packages@, *node, dep_name@),
        decreases node.dependencies.len() - k,
    {
        let id = node.dependencies[k].as_str();
        let found = find_package_by_id_and_name(&metadata.packages, id, dep_name);
        proof {
            assert((|p: MetadataPackage| package_is(p, id@, dep_name@)) =~= (|p: MetadataPackage| package_is(
                p,
                node.dependencies@[k as int]@,
                dep_name@,
            )));
        }
        match found {
            Some(pi) => {
                proof {
                    lemma_first_where_some(
                        metadata.packages@,
                        |p: MetadataPackage| package_is(p, node.dependencies@[k as int]@, dep_name@),
                    );
                    lemma_first_where(
                        node.dependencies@,
                        |id: String| resolves_to(metadata.packages@, id@, dep_name@),
                        k as int,
                    );
                }
                return Ok(&metadata.packages[pi].features);
            },
            None => {},
        }
        k = k + 1;
    }
    proof {
        lemma_first_where(node.dependencies@, |id: String| resolves_to(metadata.packages@, id@, dep_name@), k as int);
    }
    Err(FetchFeaturesError::NotFound)
}

} // verus!
