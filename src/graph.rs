//! The dependency graph: vertices labelled `"<name> - <version>"`, interned
//! one per label by a `NodeStore`, and directed unlabelled edges.

use vstd::prelude::*;
use vstd::string::StringExecFns;

verus! {

#[verifier::external_type_specification]
#[verifier::external_body]
#[verifier::reject_recursive_types(N)]
#[verifier::reject_recursive_types(E)]
#[verifier::reject_recursive_types(Ty)]
#[verifier::reject_recursive_types(Ix)]
pub struct ExGraph<N, E, Ty, Ix>(petgraph::Graph<N, E, Ty, Ix>);

#[verifier::external_type_specification]
#[verifier::external_body]
pub struct ExDirected(petgraph::Directed);

/// The graph type that traversals fill: vertices carry their label.
pub type DepGraph = petgraph::Graph<String, ()>;

/// The labels of the vertices of `g`, by index.
pub uninterp spec fn graph_labels(g: DepGraph) -> Seq<Seq<char>>;

/// The edges of `g` as (source, target) vertex indices, in insertion order.
pub uninterp spec fn graph_edges(g: DepGraph) -> Seq<(int, int)>;

/// The DOT source that petgraph writes for a graph with these vertex labels
/// and edges, edges left unlabelled.
pub uninterp spec fn dot_of(labels: Seq<Seq<char>>, edges: Seq<(int, int)>) -> Seq<char>;

/// Largest number of vertices, and of edges, that a `DepGraph` holds
/// (petgraph's default index type is `u32`, and its maximum value is reserved).
pub const GRAPH_CAPACITY: usize = 0xffff_fffe;

/// Relies on petgraph::Graph::new: the graph starts without vertices or edges.
#[verifier::external_body]
pub fn new_graph() -> (g: DepGraph)
    ensures
        graph_labels(g) == Seq::<Seq<char>>::empty(),
        graph_edges(g) == Seq::<(int, int)>::empty(),
{
    petgraph::Graph::new()
}

/// Relies on petgraph::Graph::add_node: appends a vertex and returns its index,
/// panicking only when the index type is exhausted.
#[verifier::external_body]
pub(crate) fn add_vertex(g: &mut DepGraph, label: String) -> (r: usize)
    requires
        graph_labels(*old(g)).len() < GRAPH_CAPACITY,
    ensures
        r == graph_labels(*old(g)).len(),
        graph_labels(*final(g)) == graph_labels(*old(g)).push(label@),
        graph_edges(*final(g)) == graph_edges(*old(g)),
{
    g.add_node(label).index()
}

/// Relies on petgraph::Graph::contains_edge: whether an edge from `a` to `b`
/// is present (indices are narrowed to `u32`, hence the bounds).
#[verifier::external_body]
pub(crate) fn has_edge(g: &DepGraph, a: usize, b: usize) -> (r: bool)
    requires
        a < graph_labels(*g).len(),
        b < graph_labels(*g).len(),
        graph_labels(*g).len() <= GRAPH_CAPACITY,
    ensures
        r == graph_edges(*g).contains((a as int, b as int)),
{
    g.contains_edge(petgraph::graph::NodeIndex::new(a), petgraph::graph::NodeIndex::new(b))
}

/// Relies on petgraph::Graph::update_edge: appends an edge from `a` to `b`
/// unless one is present; panics only on an index out of range or an
/// exhausted edge index type.
#[verifier::external_body]
pub(crate) fn update_edge(g: &mut DepGraph, a: usize, b: usize)
    requires
        a < graph_labels(*old(g)).len(),
        b < graph_labels(*old(g)).len(),
        graph_labels(*old(g)).len() <= GRAPH_CAPACITY,
        graph_edges(*old(g)).len() < GRAPH_CAPACITY,
    ensures
        graph_labels(*final(g)) == graph_labels(*old(g)),
        graph_edges(*old(g)).contains((a as int, b as int)) ==> graph_edges(*final(g)) == graph_edges(
            *old(g),
        ),
        !graph_edges(*old(g)).contains((a as int, b as int)) ==> graph_edges(*final(g))
            == graph_edges(*old(g)).push((a as int, b as int)),
{
    g.update_edge(petgraph::graph::NodeIndex::new(a), petgraph::graph::NodeIndex::new(b), ());
}

/// Relies on petgraph::Graph::edge_count: the number of edges.
#[verifier::external_body]
pub(crate) fn edge_count(g: &DepGraph) -> (r: usize)
    ensures
        r == graph_edges(*g).len(),
{
    g.edge_count()
}

/// Relies on petgraph::Graph::raw_edges: the edges in insertion order, each
/// read as (source, target) indices.
#[verifier::external_body]
pub(crate) fn edge_list(g: &DepGraph) -> (r: Vec<(usize, usize)>)
    ensures
        r@.map_values(|e: (usize, usize)| (e.0 as int, e.1 as int)) == graph_edges(*g),
{
    g.raw_edges().iter().map(|e| (e.source().index(), e.target().index())).collect()
}

/// Relies on petgraph::dot::Dot with Config::EdgeNoLabel, written through
/// its `Debug` impl: the DOT source of the graph.
#[verifier::external_body]
pub fn dot_source(g: &DepGraph) -> (r: String)
    ensures
        r@ == dot_of(graph_labels(*g), graph_edges(*g)),
{
    format!("{:?}", petgraph::dot::Dot::with_config(g, &[petgraph::dot::Config::EdgeNoLabel]))
}

/// The label of the vertex for version `version` of crate `name`.
pub open spec fn label_of(name: Seq<char>, version: Seq<char>) -> Seq<char> {
    name + " - "@ + version
}

/// The canonical key of a (crate, version) pair: `"<name> - <version>"`.
pub fn node_name(name: &str, version: &str) -> (r: String)
    ensures
        r@ == label_of(name@, version@),
{
    proof {
        reveal_strlit(" - ");
    }
    let mut s = String::from_str(name);
    s.append(" - ");
    s.append(version);
    s
}

/// No key occurs twice in `ks`.
pub open spec fn distinct(ks: Seq<Seq<char>>) -> bool {
    forall|i: int, j: int| 0 <= i < j < ks.len() ==> ks[i] != ks[j]
}

/// The keys after interning `k` into `ks`: unchanged where `k` is present,
/// else `k` appended.
pub open spec fn interned(ks: Seq<Seq<char>>, k: Seq<char>) -> Seq<Seq<char>> {
    if ks.contains(k) {
        ks
    } else {
        ks.push(k)
    }
}

/// Interns vertex labels: one vertex of the graph per distinct key, the
/// vertex at index `i` carrying the `i`-th key.
pub struct NodeStore {
    keys: Vec<String>,
}

impl NodeStore {
    /// The interned keys, by vertex index.
    pub closed spec fn keys(&self) -> Seq<Seq<char>> {
        self.keys@.map_values(|k: String| k@)
    }

    /// The store describes `g` exactly, one vertex per distinct key.
    pub open spec fn wf(&self, g: DepGraph) -> bool {
        &&& graph_labels(g) == self.keys()
        &&& distinct(self.keys())
    }

    pub fn new() -> (r: NodeStore)
        ensures
            r.keys() == Seq::<Seq<char>>::empty(),
    {
        let r = NodeStore { keys: Vec::new() };
        assert(r.keys() =~= Seq::<Seq<char>>::empty());
        r
    }

    /// Number of interned keys.
    pub fn len(&self) -> (r: usize)
        ensures
            r == self.keys().len(),
    {
        self.keys.len()
    }

    /// The interned keys, by vertex index.
    pub fn labels(&self) -> (r: Vec<String>)
        ensures
            r@.map_values(|k: String| k@) == self.keys(),
    {
        self.keys.clone()
    }

    /// Index of `key` among the interned keys, if present.
    fn find(&self, key: &String) -> (r: Option<usize>)
        ensures
            r matches Some(i) ==> i < self.keys().len() && self.keys()[i as int] == key@,
            r is None ==> !self.keys().contains(key@),
    {
        let mut i: usize = 0;
        while i < self.keys.len()
            invariant
                i <= self.keys@.len(),
                forall|j: int| 0 <= j < i ==> self.keys()[j] != key@,
            decreases self.keys@.len() - i,
        {
            if self.keys[i] == *key {
                return Some(i);
            }
            i = i + 1;
        }
        None
    }

    /// The vertex labelled `key`, added to `graph` first if there is none.
    pub fn get(&mut self, key: String, graph: &mut DepGraph) -> (r: usize)
        requires
            old(self).wf(*old(graph)),
            old(self).keys().len() < GRAPH_CAPACITY || old(self).keys().contains(key@),
        ensures
            final(self).wf(*final(graph)),
            final(self).keys() == interned(old(self).keys(), key@),
            r < final(self).keys().len(),
            final(self).keys()[r as int] == key@,
            graph_edges(*final(graph)) == graph_edges(*old(graph)),
    {
        match self.find(&key) {
            Some(i) => i,
            None => {
                let ghost ks = self.keys();
                let i = add_vertex(graph, key.clone());
                self.keys.push(key);
                assert(self.keys() =~= ks.push(key@));
                i
            },
        }
    }
}

/// Interning a key a second time changes nothing and finds the vertex of the
/// first time: the result of interning stays free of repeats, and in it the
/// key stands at one index only.
pub proof fn lemma_intern_idempotent(ks: Seq<Seq<char>>, k: Seq<char>)
    requires
        distinct(ks),
    ensures
        interned(interned(ks, k), k) == interned(ks, k),
        distinct(interned(ks, k)),
        interned(ks, k).contains(k),
        forall|i: int, j: int|
            0 <= i < interned(ks, k).len() && 0 <= j < interned(ks, k).len() && interned(ks, k)[i] == k
                && interned(ks, k)[j] == k ==> i == j,
{
    if !ks.contains(k) {
        assert(ks.push(k)[ks.len() as int] == k);
        assert(ks.push(k).contains(k));
    }
}

} // verus!
