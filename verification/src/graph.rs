//! Model of a resolved dependency graph as the materialization layer
//! consumes it: nodes with a package identity, an optional flag, declared
//! binaries, and edges to direct dependencies.
//! The graph is read-only for the duration of an install operation.

use vstd::prelude::*;

verus! {

/// A package identity: name plus resolved version.
pub struct PackageId {
    pub name: String,
    pub version: String,
}

pub struct PkgIdView {
    pub name: Seq<char>,
    pub version: Seq<char>,
}

impl View for PackageId {
    type V = PkgIdView;

    open spec fn view(&self) -> PkgIdView {
        PkgIdView { name: self.name@, version: self.version@ }
    }
}

impl PackageId {
    /// Two identities are the same package at the same resolved version.
    pub fn same_as(&self, other: &PackageId) -> (r: bool)
        ensures
            r == (self@ == other@),
    {
        let r = self.name == other.name && self.version == other.version;
        proof {
            if r {
                assert(self@ == other@);
            }
        }
        r
    }

    pub fn duplicate(&self) -> (r: PackageId)
        ensures
            r@ == self@,
    {
        PackageId { name: self.name.clone(), version: self.version.clone() }
    }
}

/// One declared executable entry point: the name the entry point is linked
/// under, and the file it forwards to, relative to the package directory.
pub struct Bin {
    pub name: String,
    pub file: String,
}

pub struct BinView {
    pub name: Seq<char>,
    pub file: Seq<char>,
}

impl View for Bin {
    type V = BinView;

    open spec fn view(&self) -> BinView {
        BinView { name: self.name@, file: self.file@ }
    }
}

/// One resolved package occurrence in the graph.
pub struct Node {
    pub id: PackageId,
    /// A failure attributable to an optional node never fails the overall
    /// operation.
    pub optional: bool,
    pub bins: Vec<Bin>,
    /// Indices of this node's direct dependencies.
    pub deps: Vec<usize>,
}

pub struct NodeView {
    pub id: PkgIdView,
    pub optional: bool,
    pub bins: Seq<BinView>,
    pub deps: Seq<usize>,
}

impl View for Node {
    type V = NodeView;

    open spec fn view(&self) -> NodeView {
        NodeView {
            id: self.id@,
            optional: self.optional,
            bins: self.bins@.map_values(|b: Bin| b@),
            deps: self.deps@,
        }
    }
}

/// A resolved dependency graph with one designated root node.
pub struct Graph {
    pub nodes: Vec<Node>,
    pub root: usize,
}

pub struct GraphView {
    pub nodes: Seq<NodeView>,
    pub root: int,
}

impl View for Graph {
    type V = GraphView;

    open spec fn view(&self) -> GraphView {
        GraphView { nodes: self.nodes@.map_values(|n: Node| n@), root: self.root as int }
    }
}

/// Index of the first node, scanning upward from `j`, that lists `i` among
/// its direct dependencies; the length of the node sequence when none does.
pub open spec fn first_dependent_from(g: GraphView, i: usize, j: int) -> int
    decreases g.nodes.len() - j,
{
    if j < 0 || j >= g.nodes.len() {
        g.nodes.len() as int
    } else if g.nodes[j].deps.contains(i) {
        j
    } else {
        first_dependent_from(g, i, j + 1)
    }
}

/// The first dependent of node `i`: the lowest-index node with an edge to it.
pub open spec fn first_dependent(g: GraphView, i: usize) -> int {
    first_dependent_from(g, i, 0)
}

impl GraphView {
    /// Graph well-formedness: the root and every edge are in range, and the
    /// placement relation is acyclic and total: every non-root node has a
    /// dependent that precedes it in index order, so nesting a node under
    /// its first dependent always bottoms out.
    pub open spec fn wf(self) -> bool {
        &&& 0 <= self.root < self.nodes.len()
        &&& forall|j: int, k: int|
            0 <= j < self.nodes.len() && 0 <= k < self.nodes[j].deps.len()
                ==> (#[trigger] self.nodes[j].deps[k]) < self.nodes.len()
        &&& forall|i: usize|
            0 <= i < self.nodes.len() && i != self.root ==> #[trigger] first_dependent(self, i)
                < i
    }
}

proof fn lemma_first_dependent_found(g: GraphView, i: usize, j: int, f: int)
    requires
        0 <= j <= f < g.nodes.len(),
        g.nodes[f].deps.contains(i),
        forall|k: int| j <= k < f ==> !(#[trigger] g.nodes[k].deps).contains(i),
    ensures
        first_dependent_from(g, i, j) <= f,
    decreases f - j,
{
    if j < f {
        lemma_first_dependent_found(g, i, j + 1, f);
    }
}

proof fn lemma_first_dependent_none(g: GraphView, i: usize, j: int)
    requires
        0 <= j <= g.nodes.len(),
        forall|k: int| j <= k < g.nodes.len() ==> !(#[trigger] g.nodes[k].deps).contains(i),
    ensures
        first_dependent_from(g, i, j) == g.nodes.len(),
    decreases g.nodes.len() - j,
{
    if j < g.nodes.len() {
        lemma_first_dependent_none(g, i, j + 1);
    }
}

proof fn lemma_first_dependent_ge(g: GraphView, i: usize, j: int)
    requires
        0 <= j <= g.nodes.len(),
    ensures
        j <= first_dependent_from(g, i, j) <= g.nodes.len(),
    decreases g.nodes.len() - j,
{
    if j < g.nodes.len() && !g.nodes[j].deps.contains(i) {
        lemma_first_dependent_ge(g, i, j + 1);
    }
}

proof fn lemma_first_dependent_at_least(g: GraphView, i: usize, j: int, f: int)
    requires
        0 <= j <= f <= g.nodes.len(),
        forall|k: int| j <= k < f ==> !(#[trigger] g.nodes[k].deps).contains(i),
    ensures
        first_dependent_from(g, i, j) >= f,
    decreases f - j,
{
    if j < f {
        lemma_first_dependent_at_least(g, i, j + 1, f);
    } else {
        lemma_first_dependent_ge(g, i, j);
    }
}

impl Node {
    /// Whether this node lists `i` among its direct dependencies.
    pub fn depends_on(&self, i: usize) -> (r: bool)
        ensures
            r == self@.deps.contains(i),
    {
        let mut k: usize = 0;
        while k < self.deps.len()
            invariant
                0 <= k <= self.deps.len(),
                forall|m: int| 0 <= m < k ==> self.deps@[m] != i,
            decreases self.deps.len() - k,
        {
            if self.deps[k] == i {
                return true;
            }
            k += 1;
        }
        false
    }
}

impl Graph {
    /// The first dependent of node `i`, or the node count when no node
    /// depends on `i`.
    pub fn find_first_dependent(&self, i: usize) -> (r: usize)
        ensures
            r == first_dependent(self@, i),
    {
        let n = self.nodes.len();
        let mut j: usize = 0;
        while j < n
            invariant
                0 <= j <= n,
                n == self@.nodes.len(),
                forall|k: int| 0 <= k < j ==> !(#[trigger] self@.nodes[k].deps).contains(i),
            decreases n - j,
        {
            if self.nodes[j].depends_on(i) {
                proof {
                    lemma_first_dependent_found(self@, i, 0, j as int);
                    lemma_first_dependent_at_least(self@, i, 0, j as int);
                }
                return j;
            }
            j += 1;
        }
        proof {
            lemma_first_dependent_none(self@, i, 0);
        }
        n
    }

    /// Executable check of graph well-formedness, so an unverified caller
    /// can establish `wf` before asking for a layout.
    pub fn well_formed(&self) -> (r: bool)
        ensures
            r == self@.wf(),
    {
        let n = self.nodes.len();
        if !(self.root < n) {
            return false;
        }
        let mut j: usize = 0;
        while j < n
            invariant
                0 <= j <= n,
                n == self@.nodes.len(),
                forall|jj: int, k: int|
                    0 <= jj < j && 0 <= k < self@.nodes[jj].deps.len() ==> (#[trigger] self@.nodes[jj].deps[k])
                        < n,
            decreases n - j,
        {
            let node = &self.nodes[j];
            let mut k: usize = 0;
            while k < node.deps.len()
                invariant
                    0 <= k <= node.deps.len(),
                    n == self@.nodes.len(),
                    0 <= j < n,
                    node == &self.nodes[j as int],
                    forall|m: int| 0 <= m < k ==> (#[trigger] node@.deps[m]) < n,
                decreases node.deps.len() - k,
            {
                if !(node.deps[k] < n) {
                    proof {
                        assert(self@.nodes[j as int] == node@);
                        assert(!(self@.nodes[j as int].deps[k as int] < n));
                        assert(!self@.wf());
                    }
                    return false;
                }
                k += 1;
            }
            j += 1;
        }
        let mut i: usize = 0;
        while i < n
            invariant
                0 <= i <= n,
                n == self@.nodes.len(),
                0 <= self@.root < n,
                forall|jj: int, k: int|
                    0 <= jj < n && 0 <= k < self@.nodes[jj].deps.len() ==> (#[trigger] self@.nodes[jj].deps[k])
                        < n,
                forall|ii: usize|
                    0 <= ii < i && ii != self@.root ==> #[trigger] first_dependent(self@, ii) < ii,
            decreases n - i,
        {
            if i != self.root {
                let f = self.find_first_dependent(i);
                if !(f < i) {
                    proof {
                        assert(!(first_dependent(self@, i) < i));
                        assert(!self@.wf());
                    }
                    return false;
                }
            }
            i += 1;
        }
        true
    }
}

} // verus!
