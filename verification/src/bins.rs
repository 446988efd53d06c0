//! Bin linking: one executable entry point per package-declared binary.
//!
//! The plan computed here lists every link to create: under the hoisted
//! strategy all entry points live in the single shared bin directory at the
//! flattened level; under the isolated strategy each dependent gets a bin
//! directory scoped to its own direct dependencies. Links are created from a
//! relative path so the install tree stays relocatable.

use vstd::prelude::*;
use vstd::string::StringExecFns;

use crate::graph::{Graph, GraphView};
use crate::layout::{layout_dirs, package_dir_spec, subdir, Strategy};
use crate::scripts::LinkerError;

verus! {

/// One executable entry point to create: a link at `target` (inside
/// `bin_dir`) forwarding to the file `source` of the providing package —
/// the node `owner`, to which a creation failure is attributed.
pub struct BinLink {
    pub owner: usize,
    pub source: String,
    pub bin_dir: String,
    pub target: String,
}

#[verifier::ext_equal]
pub struct BinLinkView {
    pub owner: usize,
    pub source: Seq<char>,
    pub bin_dir: Seq<char>,
    pub target: Seq<char>,
}

impl View for BinLink {
    type V = BinLinkView;

    open spec fn view(&self) -> BinLinkView {
        BinLinkView {
            owner: self.owner,
            source: self.source@,
            bin_dir: self.bin_dir@,
            target: self.target@,
        }
    }
}

/// The shared bin directory of the tree rooted at `dir`.
pub open spec fn bin_dir_spec(dir: Seq<char>) -> Seq<char> {
    subdir(dir, ".bin"@)
}

/// The entry point node `i`'s `k`-th declared binary gets in `bin_dir`.
pub open spec fn bin_link_spec(
    st: Strategy,
    g: GraphView,
    rootdir: Seq<char>,
    i: int,
    k: int,
    bin_dir: Seq<char>,
) -> BinLinkView {
    BinLinkView {
        owner: i as usize,
        source: package_dir_spec(st, g, rootdir, i) + "/"@ + g.nodes[i].bins[k].file,
        bin_dir: bin_dir,
        target: bin_dir + "/"@ + g.nodes[i].bins[k].name,
    }
}

/// All entry points node `i` contributes to `bin_dir`, in declaration order.
pub open spec fn node_bin_links(
    st: Strategy,
    g: GraphView,
    rootdir: Seq<char>,
    i: int,
    bin_dir: Seq<char>,
) -> Seq<BinLinkView> {
    Seq::new(g.nodes[i].bins.len(), |k: int| bin_link_spec(st, g, rootdir, i, k, bin_dir))
}

/// The hoisted plan over the first `i` nodes: every non-root node's binaries
/// are linked into the single shared bin directory, in node order.
pub open spec fn hoisted_bin_plan(g: GraphView, rootdir: Seq<char>, i: int) -> Seq<BinLinkView>
    decreases i,
{
    if i <= 0 {
        Seq::empty()
    } else if i - 1 == g.root {
        hoisted_bin_plan(g, rootdir, i - 1)
    } else {
        hoisted_bin_plan(g, rootdir, i - 1) + node_bin_links(
            Strategy::Hoisted,
            g,
            rootdir,
            i - 1,
            bin_dir_spec(rootdir),
        )
    }
}

/// The isolated plan of dependent `j` over its first `m` edges: each direct
/// dependency's binaries are linked into `j`'s own bin directory.
pub open spec fn dependent_bin_plan(g: GraphView, rootdir: Seq<char>, j: int, m: int) -> Seq<
    BinLinkView,
>
    decreases m,
{
    if m <= 0 {
        Seq::empty()
    } else {
        dependent_bin_plan(g, rootdir, j, m - 1) + node_bin_links(
            Strategy::Isolated,
            g,
            rootdir,
            g.nodes[j].deps[m - 1] as int,
            bin_dir_spec(package_dir_spec(Strategy::Isolated, g, rootdir, j)),
        )
    }
}

/// The isolated plan over the first `j` dependents.
pub open spec fn isolated_bin_plan(g: GraphView, rootdir: Seq<char>, j: int) -> Seq<BinLinkView>
    decreases j,
{
    if j <= 0 {
        Seq::empty()
    } else {
        isolated_bin_plan(g, rootdir, j - 1) + dependent_bin_plan(
            g,
            rootdir,
            j - 1,
            g.nodes[j - 1].deps.len() as int,
        )
    }
}

/// The plan a strategy prescribes for the whole graph.
pub open spec fn bin_plan_spec(st: Strategy, g: GraphView, rootdir: Seq<char>) -> Seq<BinLinkView> {
    match st {
        Strategy::Hoisted => hoisted_bin_plan(g, rootdir, g.nodes.len() as int),
        Strategy::Isolated => isolated_bin_plan(g, rootdir, g.nodes.len() as int),
    }
}

/// The number of binaries the first `i` non-root nodes declare.
pub open spec fn total_bins(g: GraphView, i: int) -> int
    decreases i,
{
    if i <= 0 {
        0
    } else if i - 1 == g.root {
        total_bins(g, i - 1)
    } else {
        total_bins(g, i - 1) + g.nodes[i - 1].bins.len()
    }
}

/// Completeness of the hoisted plan: a graph whose non-root nodes declare
/// `B` binaries in total yields exactly `B` entry points, one per declared
/// binary, all in the shared bin directory.
pub proof fn lemma_hoisted_plan_complete(g: GraphView, rootdir: Seq<char>, i: int)
    requires
        0 <= i,
    ensures
        hoisted_bin_plan(g, rootdir, i).len() == total_bins(g, i),
    decreases i,
{
    if i > 0 {
        lemma_hoisted_plan_complete(g, rootdir, i - 1);
    }
}

fn push_node_links(
    st: Strategy,
    g: &Graph,
    rootdir: &String,
    i: usize,
    pkg_dir: &String,
    bin_dir: &String,
    plan: &mut Vec<BinLink>,
)
    requires
        g@.wf(),
        i < g@.nodes.len(),
        pkg_dir@ == package_dir_spec(st, g@, rootdir@, i as int),
    ensures
        final(plan)@.len() == old(plan)@.len() + g@.nodes[i as int].bins.len(),
        final(plan)@.map_values(|b: BinLink| b@) == old(plan)@.map_values(|b: BinLink| b@)
            + node_bin_links(st, g@, rootdir@, i as int, bin_dir@),
{
    let ghost base = plan@;
    let ghost links = node_bin_links(st, g@, rootdir@, i as int, bin_dir@);
    let nb = g.nodes[i].bins.len();
    let mut k: usize = 0;
    while k < nb
        invariant
            0 <= k <= nb,
            g@.wf(),
            i < g@.nodes.len(),
            nb == g@.nodes[i as int].bins.len(),
            pkg_dir@ == package_dir_spec(st, g@, rootdir@, i as int),
            links == node_bin_links(st, g@, rootdir@, i as int, bin_dir@),
            plan@.map_values(|b: BinLink| b@) =~~= base.map_values(|b: BinLink| b@)
                + links.subrange(0, k as int),
            plan@.len() == base.len() + k,
        decreases nb - k,
    {
        let b = &g.nodes[i].bins[k];
        let source = pkg_dir.clone().concat("/").concat(b.file.as_str());
        let target = bin_dir.clone().concat("/").concat(b.name.as_str());
        let link = BinLink { owner: i, source, bin_dir: bin_dir.clone(), target };
        proof {
            assert(link@ =~~= links[k as int]);
        }
        let ghost pre = plan@;
        plan.push(link);
        proof {
            assert(plan@ == pre.push(link));
            let f = |b: BinLink| b@;
            let rhs = base.map_values(f) + links.subrange(0, k as int + 1);
            assert forall|idx: int| 0 <= idx < plan@.len() implies #[trigger] plan@.map_values(
                f,
            )[idx] =~~= rhs[idx] by {
                assert(plan@.map_values(f)[idx] == f(plan@[idx]));
                if idx < pre.len() {
                    assert(plan@[idx] == pre[idx]);
                    assert(pre.map_values(f)[idx] == f(pre[idx]));
                    if idx >= base.len() {
                        assert(links.subrange(0, k as int)[idx - base.len()] == links[idx
                            - base.len()]);
                        assert(links.subrange(0, k as int + 1)[idx - base.len()] == links[idx
                            - base.len()]);
                    }
                } else {
                    assert(plan@[idx] == link);
                    assert(rhs[idx] == links.subrange(0, k as int + 1)[k as int]);
                    assert(links.subrange(0, k as int + 1)[k as int] == links[k as int]);
                }
            }
            assert(plan@.map_values(f) =~~= rhs);
        }
        k += 1;
    }
    proof {
        assert(links.subrange(0, nb as int) =~~= links);
    }
}

/// Compute the full bin-link plan of a graph under a strategy.
pub fn bin_link_plan(st: Strategy, g: &Graph, rootdir: &String) -> (plan: Vec<BinLink>)
    requires
        g@.wf(),
    ensures
        plan@.map_values(|b: BinLink| b@) == bin_plan_spec(st, g@, rootdir@),
{
    let l = layout_dirs(st, g, rootdir);
    let n = g.nodes.len();
    let mut plan: Vec<BinLink> = Vec::new();
    match st {
        Strategy::Hoisted => {
            let shared = join_bin_dir(rootdir);
            let mut i: usize = 0;
            while i < n
                invariant
                    0 <= i <= n,
                    n == g@.nodes.len(),
                    g@.wf(),
                    l@.len() == n,
                    forall|kk: int|
                        0 <= kk < n ==> (#[trigger] l@[kk])@ == package_dir_spec(
                            Strategy::Hoisted,
                            g@,
                            rootdir@,
                            kk,
                        ),
                    shared@ == bin_dir_spec(rootdir@),
                    plan@.map_values(|b: BinLink| b@) =~~= hoisted_bin_plan(g@, rootdir@, i as int),
                decreases n - i,
            {
                if i != g.root {
                    push_node_links(Strategy::Hoisted, g, rootdir, i, &l[i], &shared, &mut plan);
                }
                i += 1;
            }
        },
        Strategy::Isolated => {
            let mut j: usize = 0;
            while j < n
                invariant
                    0 <= j <= n,
                    n == g@.nodes.len(),
                    g@.wf(),
                    l@.len() == n,
                    forall|kk: int|
                        0 <= kk < n ==> (#[trigger] l@[kk])@ == package_dir_spec(
                            Strategy::Isolated,
                            g@,
                            rootdir@,
                            kk,
                        ),
                    plan@.map_values(|b: BinLink| b@) =~~= isolated_bin_plan(g@, rootdir@, j as int),
                decreases n - j,
            {
                let own_bins = join_bin_dir(&l[j]);
                let nd = g.nodes[j].deps.len();
                let mut m: usize = 0;
                while m < nd
                    invariant
                        0 <= m <= nd,
                        0 <= j < n,
                        n == g@.nodes.len(),
                        g@.wf(),
                        l@.len() == n,
                        nd == g@.nodes[j as int].deps.len(),
                        forall|kk: int|
                            0 <= kk < n ==> (#[trigger] l@[kk])@ == package_dir_spec(
                                Strategy::Isolated,
                                g@,
                                rootdir@,
                                kk,
                            ),
                        own_bins@ == bin_dir_spec(
                            package_dir_spec(Strategy::Isolated, g@, rootdir@, j as int),
                        ),
                        plan@.map_values(|b: BinLink| b@) =~~= isolated_bin_plan(
                            g@,
                            rootdir@,
                            j as int,
                        ) + dependent_bin_plan(g@, rootdir@, j as int, m as int),
                    decreases nd - m,
                {
                    let d = g.nodes[j].deps[m];
                    proof {
                        assert(g@.nodes[j as int].deps[m as int] < n);
                    }
                    push_node_links(Strategy::Isolated, g, rootdir, d, &l[d], &own_bins, &mut plan);
                    m += 1;
                }
                j += 1;
            }
        },
    }
    proof {
        assert(plan@.map_values(|b: BinLink| b@) =~~= bin_plan_spec(st, g@, rootdir@));
    }
    plan
}

/// The names of the binaries the first `i` non-root nodes declare, in node
/// and declaration order.
pub open spec fn all_bin_names(g: GraphView, i: int) -> Seq<Seq<char>>
    decreases i,
{
    if i <= 0 {
        Seq::empty()
    } else if i - 1 == g.root {
        all_bin_names(g, i - 1)
    } else {
        all_bin_names(g, i - 1) + Seq::new(
            g.nodes[i - 1].bins.len(),
            |k: int| g.nodes[i - 1].bins[k].name,
        )
    }
}

proof fn lemma_seq_prepend_cancel(a: Seq<char>, x: Seq<char>, y: Seq<char>)
    requires
        a + x == a + y,
    ensures
        x == y,
{
    assert((a + x).len() == a.len() + x.len());
    assert((a + y).len() == a.len() + y.len());
    assert(x.len() == y.len());
    assert forall|idx: int| 0 <= idx < x.len() implies x[idx] == y[idx] by {
        assert((a + x)[a.len() + idx] == x[idx]);
        assert((a + y)[a.len() + idx] == y[idx]);
    }
    assert(x =~= y);
}

/// Each hoisted plan entry's target is the shared bin directory entry of
/// the matching declared name, in order.
proof fn lemma_hoisted_plan_targets(g: GraphView, rootdir: Seq<char>, i: int)
    requires
        0 <= i,
    ensures
        hoisted_bin_plan(g, rootdir, i).len() == all_bin_names(g, i).len(),
        forall|p: int|
            0 <= p < hoisted_bin_plan(g, rootdir, i).len() ==> (#[trigger] hoisted_bin_plan(
                g,
                rootdir,
                i,
            )[p]).target == bin_dir_spec(rootdir) + "/"@ + all_bin_names(g, i)[p],
    decreases i,
{
    if i > 0 {
        lemma_hoisted_plan_targets(g, rootdir, i - 1);
        if i - 1 != g.root {
            let prev = hoisted_bin_plan(g, rootdir, i - 1);
            let cur = hoisted_bin_plan(g, rootdir, i);
            let links = node_bin_links(Strategy::Hoisted, g, rootdir, i - 1, bin_dir_spec(rootdir));
            let prev_names = all_bin_names(g, i - 1);
            let cur_names = all_bin_names(g, i);
            assert forall|p: int| 0 <= p < cur.len() implies (#[trigger] cur[p]).target
                == bin_dir_spec(rootdir) + "/"@ + cur_names[p] by {
                if p < prev.len() {
                    assert(cur[p] == prev[p]);
                    assert(cur_names[p] == prev_names[p]);
                    assert(prev[p].target == bin_dir_spec(rootdir) + "/"@ + prev_names[p]);
                } else {
                    assert(cur[p] == links[p - prev.len()]);
                    assert(cur_names[p] == g.nodes[i - 1].bins[p - prev.len()].name);
                }
            }
        }
    }
}

/// Completeness of the entry points themselves: when the non-root nodes'
/// declared binary names are pairwise distinct, the hoisted plan's targets
/// are pairwise distinct too — the plan creates exactly one entry point per
/// declared binary, with no two colliding on a path.
pub proof fn lemma_hoisted_plan_targets_distinct(g: GraphView, rootdir: Seq<char>, i: int)
    requires
        0 <= i,
        all_bin_names(g, i).no_duplicates(),
    ensures
        forall|p: int, q: int|
            0 <= p < q < hoisted_bin_plan(g, rootdir, i).len() ==> (#[trigger] hoisted_bin_plan(
                g,
                rootdir,
                i,
            )[p]).target != (#[trigger] hoisted_bin_plan(g, rootdir, i)[q]).target,
{
    lemma_hoisted_plan_targets(g, rootdir, i);
    let plan = hoisted_bin_plan(g, rootdir, i);
    let names = all_bin_names(g, i);
    assert forall|p: int, q: int| 0 <= p < q < plan.len() implies (#[trigger] plan[p]).target
        != (#[trigger] plan[q]).target by {
        if plan[p].target == plan[q].target {
            lemma_seq_prepend_cancel(bin_dir_spec(rootdir) + "/"@, names[p], names[q]);
            assert(names[p] == names[q]);
            assert(false);
        }
    }
}


/// What the process observed creating one planned entry point.
#[derive(Clone, Copy, PartialEq, Eq, Structural, Debug)]
pub enum BinLinkOutcome {
    /// The link or shim was created.
    Linked,
    /// Creation failed — source metadata unreadable, permission change
    /// refused, the target already exists, or the link itself could not be
    /// made.
    Failed,
}

/// The result of creating the first `k` planned entry points, given each
/// one's observed outcome: the first failure aborts with a typed error
/// naming the owning node. A broken bin link breaks the consuming project's
/// tooling, so a failure is never ignored or downgraded, optional owner or
/// not.
pub open spec fn fold_bin_links_spec(
    plan: Seq<BinLinkView>,
    outcomes: Seq<BinLinkOutcome>,
    k: int,
) -> Result<(), LinkerError>
    decreases k,
{
    if k <= 0 {
        Ok(())
    } else {
        match fold_bin_links_spec(plan, outcomes, k - 1) {
            Err(e) => Err(e),
            Ok(()) => match outcomes[k - 1] {
                BinLinkOutcome::Linked => Ok(()),
                BinLinkOutcome::Failed => Err(LinkerError::BinLink { node: plan[k - 1].owner }),
            },
        }
    }
}

proof fn lemma_fold_bin_links_fatal_persists(
    plan: Seq<BinLinkView>,
    outcomes: Seq<BinLinkOutcome>,
    k: int,
    m: int,
    e: LinkerError,
)
    requires
        0 <= k <= m,
        fold_bin_links_spec(plan, outcomes, k) == Err::<(), LinkerError>(e),
    ensures
        fold_bin_links_spec(plan, outcomes, m) == Err::<(), LinkerError>(e),
    decreases m - k,
{
    if k < m {
        lemma_fold_bin_links_fatal_persists(plan, outcomes, k, m - 1, e);
    }
}

/// Bin linking succeeds if and only if every planned entry point was
/// created: a single failed link always fails the phase.
pub proof fn lemma_fold_bin_links_ok(plan: Seq<BinLinkView>, outcomes: Seq<BinLinkOutcome>, k: int)
    requires
        0 <= k,
    ensures
        fold_bin_links_spec(plan, outcomes, k) is Ok <==> forall|m: int|
            0 <= m < k ==> (#[trigger] outcomes[m]) == BinLinkOutcome::Linked,
    decreases k,
{
    if k > 0 {
        lemma_fold_bin_links_ok(plan, outcomes, k - 1);
    }
}

/// Fold the creation outcomes of a bin-link plan into the phase result,
/// aborting at the first entry point that could not be created.
pub fn fold_bin_links(plan: &Vec<BinLink>, outcomes: &Vec<BinLinkOutcome>) -> (r: Result<
    (),
    LinkerError,
>)
    requires
        plan@.len() == outcomes@.len(),
    ensures
        r == fold_bin_links_spec(
            plan@.map_values(|b: BinLink| b@),
            outcomes@,
            plan@.len() as int,
        ),
{
    let ghost pv = plan@.map_values(|b: BinLink| b@);
    let n = plan.len();
    let mut k: usize = 0;
    while k < n
        invariant
            0 <= k <= n,
            n == plan@.len(),
            n == outcomes@.len(),
            pv == plan@.map_values(|b: BinLink| b@),
            pv.len() == n,
            fold_bin_links_spec(pv, outcomes@, k as int) == Ok::<(), LinkerError>(()),
        decreases n - k,
    {
        if let BinLinkOutcome::Failed = outcomes[k] {
            let e = LinkerError::BinLink { node: plan[k].owner };
            proof {
                assert(pv[k as int].owner == plan@[k as int].owner);
                assert(fold_bin_links_spec(pv, outcomes@, k + 1) == Err::<(), LinkerError>(e));
                lemma_fold_bin_links_fatal_persists(pv, outcomes@, k + 1, n as int, e);
            }
            return Err(e);
        }
        k += 1;
    }
    Ok(())
}

/// The shared bin directory under `dir`, executable form.
pub fn join_bin_dir(dir: &String) -> (r: String)
    ensures
        r@ == bin_dir_spec(dir@),
{
    dir.clone().concat("/node_modules/").concat(".bin")
}

/// What `pathdiff::diff_paths` returns for a path and a base directory: a
/// pure function of the two paths alone.
pub uninterp spec fn rel_path_of(path: Seq<char>, base: Seq<char>) -> Option<Seq<char>>;

/// Relies on pathdiff::diff_paths: constructs the relative path from `base`
/// to `path`, a deterministic function of its two arguments.
#[verifier::external_body]
fn diff_paths(path: &str, base: &str) -> (r: Option<String>)
    ensures
        rel_path_of(path@, base@) == (match r {
            Some(s) => Some(s@),
            None => None::<Seq<char>>,
        }),
{
    match pathdiff::diff_paths(path, base) {
        Some(p) => p.to_str().map(|s| s.to_string()),
        None => None,
    }
}

/// The relative path a bin link is created from: from the bin directory that
/// holds the entry point to the source executable. Linking relatively keeps
/// the install tree relocatable. `None` when the two paths cannot be related
/// (one absolute, one relative): the caller must surface that as a link
/// failure, never ignore it.
pub fn bin_link_relative_source(link: &BinLink) -> (r: Option<String>)
    ensures
        rel_path_of(link.source@, link.bin_dir@) == (match r {
            Some(s) => Some(s@),
            None => None::<Seq<char>>,
        }),
{
    diff_paths(link.source.as_str(), link.bin_dir.as_str())
}

} // verus!
