//! The depth-first traversal that builds the dependency graph, written as a
//! state machine: each step consumes one answer of the registry and names the
//! next query, so that whoever holds the registry drives the loop.

use vstd::prelude::*;
use vstd::string::StringExecFns;
use crate::graph::{
    DepGraph, NodeStore, GRAPH_CAPACITY, distinct, interned, graph_edges, label_of, new_graph,
    node_name, has_edge, update_edge, dot_source, dot_of, edge_count, edge_list,
};
use crate::version::{
    ResolveError, fetch_compatible_version, fetch_latest_version, admitted, parseable, greatest,
    requirement_parses,
};

verus! {

/// How a dependency is declared.
#[derive(Clone, Copy, Debug, PartialEq, Eq, Structural)]
pub enum DependencyKind {
    Normal,
    Build,
    Dev,
}

/// A direct dependency declaration as the registry lists it.
pub struct Dependency {
    pub name: String,
    pub requirement: String,
    pub kind: DependencyKind,
}

/// A crate being expanded: its vertex, its accepted dependencies as
/// (name, requirement), and how many of them are done.
struct Frame {
    node: usize,
    name: String,
    version: String,
    deps: Vec<(String, String)>,
    next: usize,
}

/// What a traversal knows of a crate that it is expanding.
pub ghost struct FrameView {
    pub node: int,
    pub name: Seq<char>,
    pub version: Seq<char>,
    pub deps: Seq<(Seq<char>, Seq<char>)>,
    pub next: int,
}

impl Frame {
    spec fn view(&self) -> FrameView {
        FrameView {
            node: self.node as int,
            name: self.name@,
            version: self.version@,
            deps: self.deps@.map_values(|d: (String, String)| (d.0@, d.1@)),
            next: self.next as int,
        }
    }
}

/// What a traversal waits for.
#[derive(Clone, Copy, Debug, PartialEq, Eq, Structural)]
pub enum Phase {
    /// The versions of the root crate.
    RootVersions,
    /// The dependencies of the crate on top of the stack.
    Dependencies,
    /// The versions of the next dependency of the crate on top of the stack.
    Versions,
    /// Nothing: the graph is complete.
    Done,
    /// Nothing: a version could not be resolved.
    Failed,
}

/// What the traversal asks for next, or how it ended.
#[derive(Debug)]
pub enum Step {
    /// List the registered versions of crate `name`.
    FetchVersions { name: String },
    /// List the direct dependencies of crate `name` at `version`.
    FetchDependencies { name: String, version: String },
    /// The graph is complete.
    Done,
    /// The traversal stopped on an error; the graph is not to be used.
    Failed { error: ResolveError },
}

/// The accepted dependencies of `deps`, as (name, requirement), in order.
pub open spec fn accepted(kinds: Seq<DependencyKind>, deps: Seq<Dependency>) -> Seq<(Seq<char>, Seq<char>)>
    decreases deps.len(),
{
    if deps.len() == 0 {
        Seq::empty()
    } else {
        let rest = accepted(kinds, deps.drop_last());
        let d = deps.last();
        if kinds.contains(d.kind) {
            rest.push((d.name@, d.requirement@))
        } else {
            rest
        }
    }
}

/// The stack once the crates whose dependencies are all done are left.
pub open spec fn settled(fs: Seq<FrameView>) -> Seq<FrameView>
    decreases fs.len(),
{
    if fs.len() > 0 && fs.last().next >= fs.last().deps.len() {
        settled(fs.drop_last())
    } else {
        fs
    }
}

/// Whether a crate at depth `depth` lies beyond the bound and is not expanded.
pub open spec fn pruned(max_depth: Option<u64>, depth: int) -> bool {
    max_depth matches Some(m) && depth >= m
}

/// The phase that follows a stack that has settled.
pub open spec fn phase_after(fs: Seq<FrameView>) -> Phase {
    if fs.len() == 0 {
        Phase::Done
    } else {
        Phase::Versions
    }
}

/// The stack after a crate (at depth `fs.len()`) is entered: unchanged but
/// settled where the depth bound prunes it, else with the crate pushed.
pub open spec fn entered(
    fs: Seq<FrameView>,
    max_depth: Option<u64>,
    node: int,
    name: Seq<char>,
    version: Seq<char>,
) -> Seq<FrameView> {
    if pruned(max_depth, fs.len() as int) {
        settled(fs)
    } else {
        fs.push(FrameView { node, name, version, deps: Seq::empty(), next: 0 })
    }
}

/// The phase after a crate is entered.
pub open spec fn phase_entered(fs: Seq<FrameView>, max_depth: Option<u64>) -> Phase {
    if pruned(max_depth, fs.len() as int) {
        phase_after(settled(fs))
    } else {
        Phase::Dependencies
    }
}

/// The index of `k` in `ks`, where it occurs.
pub open spec fn index_of(ks: Seq<Seq<char>>, k: Seq<char>) -> int {
    choose|i: int| 0 <= i < ks.len() && ks[i] == k
}

/// No edge occurs twice.
pub open spec fn no_multi_edges(es: Seq<(int, int)>) -> bool {
    forall|i: int, j: int| 0 <= i < j < es.len() ==> es[i] != es[j]
}

/// One run of the graph construction: the graph, its vertex store, the stack
/// of crates being expanded, and what it waits for.
pub struct Traversal {
    graph: DepGraph,
    store: NodeStore,
    stack: Vec<Frame>,
    root: String,
    max_depth: Option<u64>,
    kinds: Vec<DependencyKind>,
    phase: Phase,
}

impl Traversal {
    /// Vertex labels, by index.
    pub closed spec fn nodes(&self) -> Seq<Seq<char>> {
        self.store.keys()
    }

    /// Edges as (source, target), in insertion order.
    pub closed spec fn edges(&self) -> Seq<(int, int)> {
        graph_edges(self.graph)
    }

    /// The crates being expanded, the root first.
    pub closed spec fn frames(&self) -> Seq<FrameView> {
        self.stack@.map_values(|f: Frame| f.view())
    }

    pub closed spec fn phase(&self) -> Phase {
        self.phase
    }

    pub closed spec fn root(&self) -> Seq<char> {
        self.root@
    }

    pub closed spec fn max_depth(&self) -> Option<u64> {
        self.max_depth
    }

    pub closed spec fn kinds(&self) -> Seq<DependencyKind> {
        self.kinds@
    }

    /// The traversal's invariant.
    pub closed spec fn wf(&self) -> bool {
        &&& self.wf_core()
        &&& self.phase == Phase::RootVersions ==> self.frames().len() == 0 && self.nodes().len() == 0
            && self.edges().len() == 0
        &&& self.phase == Phase::Dependencies ==> self.frames().len() > 0
            && self.frames().last().deps.len() == 0
        &&& self.phase == Phase::Versions ==> self.frames().len() > 0
            && self.frames().last().next < self.frames().last().deps.len()
        &&& self.phase == Phase::Done ==> self.frames().len() == 0
    }

    /// The invariant of the graph and the stack, whatever the phase.
    closed spec fn wf_core(&self) -> bool {
        &&& self.store.wf(self.graph)
        &&& no_multi_edges(self.edges())
        &&& forall|i: int|
            0 <= i < self.edges().len() ==> 0 <= #[trigger] self.edges()[i].0 < self.nodes().len()
                && 0 <= self.edges()[i].1 < self.nodes().len()
        &&& forall|i: int|
            0 <= i < self.frames().len() ==> {
                let f = #[trigger] self.frames()[i];
                &&& 0 <= f.node < self.nodes().len()
                &&& self.nodes()[f.node] == label_of(f.name, f.version)
                &&& 0 <= f.next <= f.deps.len()
                &&& !pruned(self.max_depth, i)
            }
    }

    /// Room is left in the graph for one more step.
    pub open spec fn has_room(&self) -> bool {
        self.nodes().len() < GRAPH_CAPACITY && self.edges().len() < GRAPH_CAPACITY
    }

    /// `s` is the request that goes with the current phase.
    pub open spec fn announces(&self, s: Step) -> bool {
        match self.phase() {
            Phase::RootVersions => s matches Step::FetchVersions { name } && name@ == self.root(),
            Phase::Versions => s matches Step::FetchVersions { name } && name@
                == self.frames().last().deps[self.frames().last().next].0,
            Phase::Dependencies => s matches Step::FetchDependencies { name, version } && name@
                == self.frames().last().name && version@ == self.frames().last().version,
            Phase::Done => s is Done,
            Phase::Failed => s is Failed,
        }
    }

    /// A traversal from crate `root`, expanding crates at depths below
    /// `max_depth` (all, where there is none), following the dependencies of
    /// the kinds in `kinds`.
    pub fn new(root: &str, max_depth: Option<u64>, kinds: Vec<DependencyKind>) -> (r: Traversal)
        ensures
            r.wf(),
            r.phase() == Phase::RootVersions,
            r.root() == root@,
            r.max_depth() == max_depth,
            r.kinds() == kinds@,
            r.nodes().len() == 0,
            r.edges().len() == 0,
            r.frames().len() == 0,
    {
        let r = Traversal {
            graph: new_graph(),
            store: NodeStore::new(),
            stack: Vec::new(),
            root: String::from_str(root),
            max_depth,
            kinds,
            phase: Phase::RootVersions,
        };
        assert(r.frames() =~= Seq::<FrameView>::empty());
        r
    }

    /// The first request: the versions of the root crate.
    pub fn start(&self) -> (r: Step)
        requires
            self.phase() == Phase::RootVersions,
        ensures
            self.announces(r),
    {
        Step::FetchVersions { name: self.root.clone() }
    }

    /// Number of vertices so far.
    pub fn node_count(&self) -> (r: usize)
        requires
            self.wf(),
        ensures
            r == self.nodes().len(),
    {
        self.store.len()
    }

    /// Leaves the crates whose dependencies are all done, then asks for the
    /// versions of the next dependency, or ends.
    fn settle(&mut self) -> (r: Step)
        requires
            old(self).wf_core(),
        ensures
            final(self).wf(),
            final(self).announces(r),
            final(self).frames() == settled(old(self).frames()),
            final(self).phase() == phase_after(settled(old(self).frames())),
            final(self).nodes() == old(self).nodes(),
            final(self).edges() == old(self).edges(),
            same_config(*old(self), *final(self)),
    {
        let ghost target = settled(self.frames());
        let ghost start = *self;
        loop
            invariant
                self.wf_core(),
                settled(self.frames()) == target,
                self.nodes() == start.nodes(),
                self.edges() == start.edges(),
                same_config(start, *self),
            ensures
                self.wf_core(),
                settled(self.frames()) == target,
                self.nodes() == start.nodes(),
                self.edges() == start.edges(),
                same_config(start, *self),
                self.frames().len() == 0 || self.frames().last().next < self.frames().last().deps.len(),
            decreases self.stack@.len(),
        {
            let n = self.stack.len();
            if n == 0 {
                break;
            }
            if self.stack[n - 1].next < self.stack[n - 1].deps.len() {
                assert(self.frames().last() == self.stack@[n - 1].view());
                break;
            }
            let ghost fs = self.frames();
            self.stack.pop();
            assert(self.frames() =~= fs.drop_last());
        }
        let n = self.stack.len();
        assert(n > 0 ==> self.frames().last() == self.stack@[n - 1].view());
        if n == 0 {
            self.phase = Phase::Done;
            Step::Done
        } else {
            self.phase = Phase::Versions;
            let k = self.stack[n - 1].next;
            Step::FetchVersions { name: self.stack[n - 1].deps[k].0.clone() }
        }
    }

    /// Enters crate `name` at `version` one level below the top of the stack:
    /// pruned where the depth bound says so, else its vertex is interned and
    /// its dependencies are asked for.
    fn enter(&mut self, name: String, version: String) -> (r: Step)
        requires
            old(self).wf_core(),
            old(self).nodes().len() < GRAPH_CAPACITY || old(self).nodes().contains(
                label_of(name@, version@),
            ),
        ensures
            final(self).wf(),
            final(self).announces(r),
            same_config(*old(self), *final(self)),
            final(self).edges() == old(self).edges(),
            final(self).nodes() == if pruned(old(self).max_depth(), old(self).frames().len() as int) {
                old(self).nodes()
            } else {
                interned(old(self).nodes(), label_of(name@, version@))
            },
            final(self).frames() == entered(
                old(self).frames(),
                old(self).max_depth(),
                index_of(final(self).nodes(), label_of(name@, version@)),
                name@,
                version@,
            ),
            final(self).phase() == phase_entered(old(self).frames(), old(self).max_depth()),
    {
        let depth = self.stack.len();
        match self.max_depth {
            Some(m) => {
                if depth as u64 >= m {
                    return self.settle();
                }
            },
            None => {},
        }
        let key = node_name(name.as_str(), version.as_str());
        let node = self.store.get(key, &mut self.graph);
        proof {
            lemma_index_of(self.nodes(), label_of(name@, version@), node as int);
        }
        let ghost fs = self.frames();
        let step = Step::FetchDependencies { name: name.clone(), version: version.clone() };
        let frame = Frame { node, name, version, deps: Vec::new(), next: 0 };
        assert(frame.view().deps =~= Seq::<(Seq<char>, Seq<char>)>::empty());
        self.stack.push(frame);
        assert(self.frames() =~= fs.push(frame.view()));
        self.phase = Phase::Dependencies;
        step
    }

    /// Takes the dependencies of the crate on top of the stack (the registry's
    /// answer to `FetchDependencies`): those of an accepted kind become its
    /// work list, and the traversal moves on to the first of them.
    pub fn supply_dependencies(&mut self, deps: Vec<Dependency>) -> (r: Step)
        requires
            old(self).wf(),
            old(self).phase() == Phase::Dependencies,
        ensures
            final(self).wf(),
            final(self).announces(r),
            same_config(*old(self), *final(self)),
            dependencies_step(*old(self), *final(self), deps@),
    {
        let ghost kinds = self.kinds@;
        let mut list: Vec<(String, String)> = Vec::new();
        let mut i: usize = 0;
        while i < deps.len()
            invariant
                i <= deps@.len(),
                kinds == self.kinds@,
                list@.map_values(|d: (String, String)| (d.0@, d.1@)) == accepted(
                    kinds,
                    deps@.subrange(0, i as int),
                ),
            decreases deps@.len() - i,
        {
            proof {
                assert(deps@.subrange(0, i as int + 1).drop_last() =~= deps@.subrange(0, i as int));
            }
            let d = &deps[i];
            if accepts(&self.kinds, d.kind) {
                list.push((d.name.clone(), d.requirement.clone()));
            }
            assert(list@.map_values(|d: (String, String)| (d.0@, d.1@)) =~= accepted(
                kinds,
                deps@.subrange(0, i as int + 1),
            ));
            i = i + 1;
        }
        assert(deps@.subrange(0, deps@.len() as int) =~= deps@);
        let ghost fs = self.frames();
        let mut top = self.stack.pop().unwrap();
        top.deps = list;
        top.next = 0;
        self.stack.push(top);
        assert(self.frames() =~= with_deps(fs, accepted(kinds, deps@)));
        self.settle()
    }

    /// Takes the registered versions of the crate asked for (the registry's
    /// answer to `FetchVersions`). For the root, its greatest version is
    /// entered. For a dependency, the greatest version that its requirement
    /// admits is interned; unless the edge to it is already present, the edge
    /// is added and that version is entered. A version that cannot be
    /// resolved ends the traversal.
    pub fn supply_versions(&mut self, versions: Vec<String>) -> (r: Step)
        requires
            old(self).wf(),
            old(self).has_room(),
            old(self).phase() == Phase::RootVersions || old(self).phase() == Phase::Versions,
        ensures
            final(self).wf(),
            final(self).announces(r),
            same_config(*old(self), *final(self)),
            old(self).phase() == Phase::RootVersions ==> root_step(
                *old(self),
                *final(self),
                versions@.map_values(|s: String| s@),
                r,
            ),
            old(self).phase() == Phase::Versions ==> dependency_step(
                *old(self),
                *final(self),
                versions@.map_values(|s: String| s@),
                r,
            ),
    {
        if self.phase == Phase::RootVersions {
            match fetch_latest_version(self.root.as_str(), &versions) {
                Err(e) => {
                    self.phase = Phase::Failed;
                    Step::Failed { error: e }
                },
                Ok(v) => {
                    let name = self.root.clone();
                    let ghost old_frames = self.frames();
                    let r = self.enter(name, v);
                    proof {
                        assert(old_frames =~= Seq::<FrameView>::empty());
                        assert(settled(old_frames) == old_frames);
                        if !pruned(self.max_depth, 0) {
                            let key = label_of(self.root@, v@);
                            assert(self.nodes() =~= seq![key]);
                            lemma_index_of(self.nodes(), key, 0);
                            assert(self.frames() =~= seq![
                                FrameView { node: 0, name: self.root@, version: v@, deps: Seq::empty(), next: 0 },
                            ]);
                        }
                    }
                    r
                },
            }
        } else {
            let ghost a = *self;
            let n = self.stack.len();
            let k = self.stack[n - 1].next;
            assert(self.frames().last() == self.stack@[n - 1].view());
            let dep_name = self.stack[n - 1].deps[k].0.clone();
            let req = self.stack[n - 1].deps[k].1.clone();
            match fetch_compatible_version(dep_name.as_str(), req.as_str(), &versions) {
                Err(e) => {
                    self.phase = Phase::Failed;
                    Step::Failed { error: e }
                },
                Ok(v) => {
                    let key = node_name(dep_name.as_str(), v.as_str());
                    let d = self.store.get(key, &mut self.graph);
                    proof {
                        lemma_index_of(self.nodes(), label_of(dep_name@, v@), d as int);
                        crate::graph::lemma_intern_idempotent(a.nodes(), label_of(dep_name@, v@));
                    }
                    let this_node = self.stack[n - 1].node;
                    let ghost fs = self.frames();
                    let mut top = self.stack.pop().unwrap();
                    assert(top.view() == fs.last());
                    let m = top.deps.len();
                    assert(top.next < m);
                    top.next = top.next + 1;
                    self.stack.push(top);
                    assert(self.frames() =~= advanced(fs));
                    if has_edge(&self.graph, this_node, d) {
                        self.settle()
                    } else {
                        update_edge(&mut self.graph, this_node, d);
                        self.enter(dep_name, v)
                    }
                },
            }
        }
    }

    /// Whether the graph has room for one more step.
    pub fn room_left(&self) -> (r: bool)
        requires
            self.wf(),
        ensures
            r == self.has_room(),
    {
        self.store.len() < GRAPH_CAPACITY && edge_count(&self.graph) < GRAPH_CAPACITY
    }

    /// The vertex labels, by index.
    pub fn labels(&self) -> (r: Vec<String>)
        requires
            self.wf(),
        ensures
            r@.map_values(|k: String| k@) == self.nodes(),
    {
        self.store.labels()
    }

    /// The edges as (source, target) vertex indices, in insertion order.
    pub fn edge_list(&self) -> (r: Vec<(usize, usize)>)
        ensures
            r@.map_values(|e: (usize, usize)| (e.0 as int, e.1 as int)) == self.edges(),
    {
        edge_list(&self.graph)
    }

    /// The graph as DOT source: each vertex labelled `"<name> - <version>"`,
    /// edges unlabelled, both in the order they were added.
    pub fn to_dot(&self) -> (r: String)
        requires
            self.wf(),
        ensures
            r@ == dot_of(self.nodes(), self.edges()),
    {
        dot_source(&self.graph)
    }

    /// What the traversal waits for.
    pub fn phase_now(&self) -> (r: Phase)
        ensures
            r == self.phase(),
    {
        self.phase
    }
}

/// The stack with the dependency list of its top crate set to `ds`.
pub open spec fn with_deps(fs: Seq<FrameView>, ds: Seq<(Seq<char>, Seq<char>)>) -> Seq<FrameView> {
    let t = fs.last();
    fs.update(fs.len() - 1, FrameView { node: t.node, name: t.name, version: t.version, deps: ds, next: 0 })
}

/// The stack with the next dependency of its top crate taken up.
pub open spec fn advanced(fs: Seq<FrameView>) -> Seq<FrameView> {
    let t = fs.last();
    fs.update(
        fs.len() - 1,
        FrameView { node: t.node, name: t.name, version: t.version, deps: t.deps, next: t.next + 1 },
    )
}

/// What the dependency list `deps` of the crate on top of the stack does to
/// a traversal `a`, giving `b`.
pub open spec fn dependencies_step(a: Traversal, b: Traversal, deps: Seq<Dependency>) -> bool {
    let fs = settled(with_deps(a.frames(), accepted(a.kinds(), deps)));
    &&& b.nodes() == a.nodes()
    &&& b.edges() == a.edges()
    &&& b.frames() == fs
    &&& b.phase() == phase_after(fs)
}

/// What the versions `vs` of the root crate do to a traversal `a`, giving
/// `b` and the step `r`.
pub open spec fn root_step(a: Traversal, b: Traversal, vs: Seq<Seq<char>>, r: Step) -> bool {
    let p = parseable(vs);
    if p.len() == 0 {
        &&& b.phase() == Phase::Failed
        &&& b.nodes() == a.nodes()
        &&& b.edges() == a.edges()
        &&& r matches Step::Failed { error: ResolveError::UnknownCrate { name } }
        &&& name@ == a.root()
    } else {
        let v = greatest(p);
        &&& b.edges() == a.edges()
        &&& if pruned(a.max_depth(), 0) {
            &&& b.nodes() == a.nodes()
            &&& b.frames() == Seq::<FrameView>::empty()
            &&& b.phase() == Phase::Done
        } else {
            &&& b.nodes() == seq![label_of(a.root(), v)]
            &&& b.frames() == seq![
                FrameView { node: 0, name: a.root(), version: v, deps: Seq::empty(), next: 0 },
            ]
            &&& b.phase() == Phase::Dependencies
        }
    }
}

/// What the versions `vs` of the next dependency of the crate on top of the
/// stack do to a traversal `a`, giving `b` and the step `r`.
pub open spec fn dependency_step(a: Traversal, b: Traversal, vs: Seq<Seq<char>>, r: Step) -> bool {
    let top = a.frames().last();
    let dep = top.deps[top.next];
    let adm = admitted(dep.1, vs);
    if !requirement_parses(dep.1) || adm.len() == 0 {
        &&& b.phase() == Phase::Failed
        &&& b.nodes() == a.nodes()
        &&& b.edges() == a.edges()
        &&& !requirement_parses(dep.1) ==> (r matches Step::Failed {
            error: ResolveError::RequirementParse { requirement },
        } && requirement@ == dep.1)
        &&& requirement_parses(dep.1) ==> (r matches Step::Failed {
            error: ResolveError::NoMatchingVersion { name, requirement },
        } && name@ == dep.0 && requirement@ == dep.1)
    } else {
        let v = greatest(adm);
        let key = label_of(dep.0, v);
        let d = index_of(interned(a.nodes(), key), key);
        let fs = advanced(a.frames());
        &&& b.nodes() == interned(a.nodes(), key)
        &&& if a.edges().contains((top.node, d)) {
            &&& b.edges() == a.edges()
            &&& b.frames() == settled(fs)
            &&& b.phase() == phase_after(settled(fs))
        } else {
            &&& b.edges() == a.edges().push((top.node, d))
            &&& b.frames() == entered(fs, a.max_depth(), d, dep.0, v)
            &&& b.phase() == phase_entered(fs, a.max_depth())
        }
    }
}

/// Whether `kinds` holds `k`.
fn accepts(kinds: &Vec<DependencyKind>, k: DependencyKind) -> (r: bool)
    ensures
        r == kinds@.contains(k),
{
    let mut i: usize = 0;
    while i < kinds.len()
        invariant
            i <= kinds@.len(),
            forall|j: int| 0 <= j < i ==> kinds@[j] != k,
        decreases kinds@.len() - i,
    {
        if kinds[i] == k {
            return true;
        }
        i = i + 1;
    }
    false
}

/// A root crate without accepted dependencies gives exactly one vertex, its
/// own, and no edge: from a fresh traversal `t0`, the root's versions `vs`
/// lead to `t1`, and a dependency list `deps` of which no entry is accepted
/// leads to `t2`, which is done.
pub proof fn lemma_leaf_root(
    t0: Traversal,
    t1: Traversal,
    t2: Traversal,
    vs: Seq<Seq<char>>,
    r1: Step,
    deps: Seq<Dependency>,
)
    requires
        t0.wf(),
        t0.phase() == Phase::RootVersions,
        root_step(t0, t1, vs, r1),
        t1.phase() == Phase::Dependencies,
        same_config(t0, t1),
        dependencies_step(t1, t2, deps),
        accepted(t1.kinds(), deps).len() == 0,
    ensures
        t2.nodes() == seq![label_of(t0.root(), greatest(parseable(vs)))],
        t2.edges().len() == 0,
        t2.phase() == Phase::Done,
{
    let fs = with_deps(t1.frames(), accepted(t1.kinds(), deps));
    assert(fs.drop_last() =~= Seq::<FrameView>::empty());
    assert(settled(fs) == settled(fs.drop_last()));
}

/// In every state of a traversal each vertex label occurs once, no edge
/// occurs twice, every edge joins two vertices, and no crate at or below the
/// depth bound is being expanded.
pub proof fn lemma_traversal_invariants(t: Traversal)
    requires
        t.wf(),
    ensures
        distinct(t.nodes()),
        no_multi_edges(t.edges()),
        forall|i: int|
            0 <= i < t.edges().len() ==> 0 <= #[trigger] t.edges()[i].0 < t.nodes().len() && 0
                <= t.edges()[i].1 < t.nodes().len(),
        t.max_depth() matches Some(m) ==> t.frames().len() <= m,
{
    if t.max_depth() is Some && t.frames().len() > 0 {
        let i = t.frames().len() - 1;
        let f = t.frames()[i];
        assert(!pruned(t.max_depth(), i));
    }
}

/// The configuration of a traversal is the same in `a` and `b`.
pub open spec fn same_config(a: Traversal, b: Traversal) -> bool {
    &&& a.root() == b.root()
    &&& a.max_depth() == b.max_depth()
    &&& a.kinds() == b.kinds()
}

proof fn lemma_index_of(ks: Seq<Seq<char>>, k: Seq<char>, r: int)
    requires
        distinct(ks),
        0 <= r < ks.len(),
        ks[r] == k,
    ensures
        index_of(ks, k) == r,
{
    let i = index_of(ks, k);
    assert(0 <= i < ks.len() && ks[i] == k);
    if i < r {
        assert(ks[i] != ks[r]);
    } else if r < i {
        assert(ks[r] != ks[i]);
    }
}

} // verus!
