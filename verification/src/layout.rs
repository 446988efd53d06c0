//! Placement layouts: the mapping from graph nodes to on-disk directories.
//!
//! Two strategies exist. *Isolated* gives every resolved package identity
//! exactly one content-addressed directory, regardless of how many nodes
//! carry that identity. *Hoisted* places packages as high as possible in a
//! single shared tree, deduplicating by name and version, and falls back to
//! nesting under the node's first dependent when another version of the same
//! name already owns the top-level slot. Placement is processed in ascending
//! node-index order, so the layout is a pure function of the graph and the
//! install root: repeated runs over the same graph give the same layout.

use vstd::prelude::*;
use vstd::string::StringExecFns;

use crate::graph::{first_dependent, Graph, GraphView};

verus! {

/// The two placement strategies that own an on-disk tree.
#[derive(Clone, Copy, PartialEq, Eq, Structural)]
pub enum Strategy {
    Isolated,
    Hoisted,
}

/// `dir`'s package-holding subdirectory entry for `name`.
pub open spec fn subdir(dir: Seq<char>, name: Seq<char>) -> Seq<char> {
    dir + "/node_modules/"@ + name
}

/// The content-addressed store directory for one package identity under the
/// isolated strategy.
pub open spec fn store_dir(rootdir: Seq<char>, name: Seq<char>, version: Seq<char>) -> Seq<
    char,
> {
    rootdir + "/node_modules/.store/"@ + name + "@"@ + version
}

/// Index of the first non-root node, scanning upward from `j`, whose package
/// name is `name`; the node count when there is none.
pub open spec fn first_named_from(g: GraphView, name: Seq<char>, j: int) -> int
    decreases g.nodes.len() - j,
{
    if j < 0 || j >= g.nodes.len() {
        g.nodes.len() as int
    } else if j != g.root && g.nodes[j].id.name == name {
        j
    } else {
        first_named_from(g, name, j + 1)
    }
}

/// The first non-root node bearing `name`: the owner of the top-level slot
/// for that name under the hoisted strategy.
pub open spec fn first_named(g: GraphView, name: Seq<char>) -> int {
    first_named_from(g, name, 0)
}

/// The hoisted directory of node `i`: the root node maps to the install root
/// itself; a node whose name's top-level slot is free or holds the same
/// version maps to the shared top level; a conflicting version nests under
/// the directory of its first dependent.
pub open spec fn hoisted_dir(g: GraphView, rootdir: Seq<char>, i: int) -> Seq<char>
    decreases i,
{
    if i == g.root {
        rootdir
    } else {
        let name = g.nodes[i].id.name;
        let f = first_named(g, name);
        if f == i || g.nodes[f].id.version == g.nodes[i].id.version {
            subdir(rootdir, name)
        } else {
            let p = first_dependent(g, i as usize);
            if 0 <= p < i {
                subdir(hoisted_dir(g, rootdir, p), name)
            } else {
                subdir(rootdir, name)
            }
        }
    }
}

/// The isolated directory of node `i`: the root node maps to the install
/// root itself; every other node maps to the store directory of its
/// identity.
pub open spec fn isolated_dir(g: GraphView, rootdir: Seq<char>, i: int) -> Seq<char> {
    if i == g.root {
        rootdir
    } else {
        store_dir(rootdir, g.nodes[i].id.name, g.nodes[i].id.version)
    }
}

/// The directory a strategy assigns to node `i`.
pub open spec fn package_dir_spec(st: Strategy, g: GraphView, rootdir: Seq<char>, i: int) -> Seq<
    char,
> {
    match st {
        Strategy::Isolated => isolated_dir(g, rootdir, i),
        Strategy::Hoisted => hoisted_dir(g, rootdir, i),
    }
}

/// The whole layout: one directory per node, in node order.
pub open spec fn layout_spec(st: Strategy, g: GraphView, rootdir: Seq<char>) -> Seq<Seq<char>> {
    Seq::new(g.nodes.len(), |i: int| package_dir_spec(st, g, rootdir, i))
}

/// Isolated uniqueness: any two nodes carrying the same resolved package
/// identity are assigned the same physical directory by the isolated
/// strategy, so disk usage scales with distinct identities, not with edges.
pub proof fn lemma_isolated_uniqueness(g: GraphView, rootdir: Seq<char>, a: int, b: int)
    requires
        0 <= a < g.nodes.len(),
        0 <= b < g.nodes.len(),
        a != g.root,
        b != g.root,
        g.nodes[a].id.name == g.nodes[b].id.name,
        g.nodes[a].id.version == g.nodes[b].id.version,
    ensures
        isolated_dir(g, rootdir, a) == isolated_dir(g, rootdir, b),
{
}

/// Hoisted determinism: the layout is a function of the graph's structure
/// and the install root alone. Two structurally identical graphs receive
/// identical layouts, nesting decisions included.
pub proof fn lemma_hoisted_deterministic(g1: GraphView, g2: GraphView, rootdir: Seq<char>)
    requires
        g1 == g2,
    ensures
        layout_spec(Strategy::Hoisted, g1, rootdir) == layout_spec(Strategy::Hoisted, g2, rootdir),
{
}

proof fn lemma_first_named_found(g: GraphView, name: Seq<char>, j: int, f: int)
    requires
        0 <= j <= f < g.nodes.len(),
        f != g.root,
        g.nodes[f].id.name == name,
    ensures
        first_named_from(g, name, j) <= f,
    decreases f - j,
{
    if j < f {
        lemma_first_named_found(g, name, j + 1, f);
    }
}

proof fn lemma_first_named_ge(g: GraphView, name: Seq<char>, j: int)
    requires
        0 <= j <= g.nodes.len(),
    ensures
        j <= first_named_from(g, name, j) <= g.nodes.len(),
    decreases g.nodes.len() - j,
{
    if j < g.nodes.len() && !(j != g.root && g.nodes[j].id.name == name) {
        lemma_first_named_ge(g, name, j + 1);
    }
}

proof fn lemma_first_named_at_least(g: GraphView, name: Seq<char>, j: int, f: int)
    requires
        0 <= j <= f <= g.nodes.len(),
        forall|k: int|
            j <= k < f ==> k == g.root || (#[trigger] g.nodes[k].id.name) != name,
    ensures
        first_named_from(g, name, j) >= f,
    decreases f - j,
{
    if j < f {
        lemma_first_named_at_least(g, name, j + 1, f);
    } else {
        lemma_first_named_ge(g, name, j);
    }
}

/// `dir`'s package-holding subdirectory entry for `name`, executable form.
pub fn join_subdir(dir: &String, name: &String) -> (r: String)
    ensures
        r@ == subdir(dir@, name@),
{
    dir.clone().concat("/node_modules/").concat(name.as_str())
}

impl Graph {
    /// The first non-root node bearing `name`, or the node count when no
    /// node does.
    pub fn find_first_named(&self, name: &String) -> (r: usize)
        ensures
            r == first_named(self@, name@),
    {
        let n = self.nodes.len();
        let mut j: usize = 0;
        while j < n
            invariant
                0 <= j <= n,
                n == self@.nodes.len(),
                forall|k: int|
                    0 <= k < j ==> k == self@.root || (#[trigger] self@.nodes[k].id.name) != name@,
            decreases n - j,
        {
            if j != self.root && self.nodes[j].id.name == *name {
                proof {
                    lemma_first_named_found(self@, name@, 0, j as int);
                    lemma_first_named_at_least(self@, name@, 0, j as int);
                }
                return j;
            }
            j += 1;
        }
        proof {
            lemma_first_named_at_least(self@, name@, 0, n as int);
            lemma_first_named_ge(self@, name@, 0);
        }
        n
    }
}

/// Compute the full layout of a graph under a strategy: one directory per
/// node, in node order, with the root node mapped to the install root
/// itself.
pub fn layout_dirs(st: Strategy, g: &Graph, rootdir: &String) -> (l: Vec<String>)
    requires
        g@.wf(),
    ensures
        l@.len() == g@.nodes.len(),
        forall|i: int|
            0 <= i < l@.len() ==> (#[trigger] l@[i])@ == package_dir_spec(st, g@, rootdir@, i),
{
    let n = g.nodes.len();
    let mut l: Vec<String> = Vec::new();
    let mut i: usize = 0;
    while i < n
        invariant
            0 <= i <= n,
            n == g@.nodes.len(),
            g@.wf(),
            l@.len() == i,
            forall|k: int|
                0 <= k < i ==> (#[trigger] l@[k])@ == package_dir_spec(st, g@, rootdir@, k),
        decreases n - i,
    {
        if i == g.root {
            l.push(rootdir.clone());
        } else {
            match st {
                Strategy::Isolated => {
                    let d = rootdir.clone().concat("/node_modules/.store/").concat(
                        g.nodes[i].id.name.as_str(),
                    ).concat("@").concat(g.nodes[i].id.version.as_str());
                    l.push(d);
                },
                Strategy::Hoisted => {
                    let f = g.find_first_named(&g.nodes[i].id.name);
                    proof {
                        lemma_first_named_found(g@, g@.nodes[i as int].id.name, 0, i as int);
                    }
                    if f == i || g.nodes[f].id.version == g.nodes[i].id.version {
                        l.push(join_subdir(rootdir, &g.nodes[i].id.name));
                    } else {
                        let p = g.find_first_dependent(i);
                        proof {
                            assert(first_dependent(g@, i) < i);
                        }
                        let d = join_subdir(&l[p], &g.nodes[i].id.name);
                        l.push(d);
                    }
                },
            }
        }
        i += 1;
    }
    l
}

/// The directory a strategy assigns to one node. Pure and total over the
/// graph's nodes.
pub fn package_dir(st: Strategy, g: &Graph, rootdir: &String, idx: usize) -> (r: String)
    requires
        g@.wf(),
        idx < g@.nodes.len(),
    ensures
        r@ == package_dir_spec(st, g@, rootdir@, idx as int),
{
    let l = layout_dirs(st, g, rootdir);
    l[idx].clone()
}

/// One per-dependent indirection entry of the isolated layout: the
/// dependent reaches one of its direct dependencies through a link `at`
/// inside its own tree, pointing to the dependency's physical directory
/// `to`.
pub struct DepLink {
    pub at: String,
    pub to: String,
}

#[verifier::ext_equal]
pub struct DepLinkView {
    pub at: Seq<char>,
    pub to: Seq<char>,
}

impl View for DepLink {
    type V = DepLinkView;

    open spec fn view(&self) -> DepLinkView {
        DepLinkView { at: self.at@, to: self.to@ }
    }
}

/// The indirection entries of dependent `j` under the isolated strategy:
/// one link per direct dependency, inside `j`'s own directory, named after
/// the dependency, pointing to the dependency's content-addressed store
/// directory.
pub open spec fn dep_links_spec(g: GraphView, rootdir: Seq<char>, j: int) -> Seq<DepLinkView> {
    Seq::new(
        g.nodes[j].deps.len(),
        |m: int|
            DepLinkView {
                at: subdir(
                    isolated_dir(g, rootdir, j),
                    g.nodes[g.nodes[j].deps[m] as int].id.name,
                ),
                to: isolated_dir(g, rootdir, g.nodes[j].deps[m] as int),
            },
    )
}

/// No phantom access under the isolated strategy: a dependent's view of its
/// tree holds one link per declared direct dependency and nothing else, so
/// a package can never resolve a dependency it does not declare.
pub proof fn lemma_isolated_no_phantom(g: GraphView, rootdir: Seq<char>, j: int, m: int)
    requires
        0 <= j < g.nodes.len(),
        0 <= m < dep_links_spec(g, rootdir, j).len(),
    ensures
        dep_links_spec(g, rootdir, j).len() == g.nodes[j].deps.len(),
        dep_links_spec(g, rootdir, j)[m].at == subdir(
            isolated_dir(g, rootdir, j),
            g.nodes[g.nodes[j].deps[m] as int].id.name,
        ),
        dep_links_spec(g, rootdir, j)[m].to == isolated_dir(
            g,
            rootdir,
            g.nodes[j].deps[m] as int,
        ),
{
}

/// The per-dependent indirection links of node `j` under the isolated
/// strategy, executable form.
pub fn isolated_dep_links(g: &Graph, rootdir: &String, j: usize) -> (links: Vec<DepLink>)
    requires
        g@.wf(),
        j < g@.nodes.len(),
    ensures
        links@.map_values(|l: DepLink| l@) == dep_links_spec(g@, rootdir@, j as int),
{
    let l = layout_dirs(Strategy::Isolated, g, rootdir);
    let ghost entries = dep_links_spec(g@, rootdir@, j as int);
    let nd = g.nodes[j].deps.len();
    let mut links: Vec<DepLink> = Vec::new();
    let mut m: usize = 0;
    while m < nd
        invariant
            0 <= m <= nd,
            g@.wf(),
            j < g@.nodes.len(),
            nd == g@.nodes[j as int].deps.len(),
            l@.len() == g@.nodes.len(),
            forall|k: int|
                0 <= k < l@.len() ==> (#[trigger] l@[k])@ == package_dir_spec(
                    Strategy::Isolated,
                    g@,
                    rootdir@,
                    k,
                ),
            entries == dep_links_spec(g@, rootdir@, j as int),
            links@.len() == m,
            links@.map_values(|l: DepLink| l@) =~~= entries.subrange(0, m as int),
        decreases nd - m,
    {
        let d = g.nodes[j].deps[m];
        proof {
            assert(g@.nodes[j as int].deps[m as int] < g@.nodes.len());
        }
        let at = join_subdir(&l[j], &g.nodes[d].id.name);
        let to = l[d].clone();
        let entry = DepLink { at, to };
        proof {
            assert(entry@ =~~= entries[m as int]);
        }
        let ghost pre = links@;
        links.push(entry);
        proof {
            assert(links@ == pre.push(entry));
            let f = |l: DepLink| l@;
            let rhs = entries.subrange(0, m as int + 1);
            assert forall|idx: int| 0 <= idx < links@.len() implies #[trigger] links@.map_values(
                f,
            )[idx] =~~= rhs[idx] by {
                assert(links@.map_values(f)[idx] == f(links@[idx]));
                if idx < pre.len() {
                    assert(links@[idx] == pre[idx]);
                    assert(pre.map_values(f)[idx] == f(pre[idx]));
                    assert(entries.subrange(0, m as int)[idx] == entries[idx]);
                    assert(rhs[idx] == entries[idx]);
                } else {
                    assert(links@[idx] == entry);
                    assert(rhs[idx] == entries[m as int]);
                }
            }
            assert(links@.map_values(f) =~~= rhs);
        }
        m += 1;
    }
    proof {
        assert(entries.subrange(0, nd as int) =~~= entries);
    }
    links
}

} // verus!
