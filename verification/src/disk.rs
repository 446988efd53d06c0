//! A plain model of the on-disk package tree: the set of package directories
//! that currently exist, together with the two operations that converge it
//! to a graph — extraction (create every missing package directory) and
//! pruning (remove every directory no node of the graph maps to).
//!
//! Partial failure is never rolled back, so extraction must be idempotent:
//! a directory already present is skipped, and a second run over the same
//! graph places nothing.

use vstd::prelude::*;

use crate::graph::{Graph, GraphView};
use crate::layout::{layout_dirs, package_dir_spec, Strategy};
use crate::scripts::{LinkerError, StepVerdict};

verus! {

/// The on-disk package directories, each recorded once. A directory stands
/// in the record only when its content counts as present: when validation
/// is enabled, a directory whose content failed re-verification is left out
/// by the process that builds the record, and extraction then places it
/// again.
pub struct DiskTree {
    pub dirs: Vec<String>,
}

impl View for DiskTree {
    type V = Seq<Seq<char>>;

    open spec fn view(&self) -> Seq<Seq<char>> {
        self.dirs@.map_values(|s: String| s@)
    }
}

impl DiskTree {
    /// Each directory is recorded at most once.
    pub open spec fn wf(self) -> bool {
        self@.no_duplicates()
    }

    pub fn new() -> (r: DiskTree)
        ensures
            r@ =~= Seq::<Seq<char>>::empty(),
            r.wf(),
    {
        DiskTree { dirs: Vec::new() }
    }

    /// Whether directory `d` exists in this tree.
    pub fn contains_dir(&self, d: &String) -> (r: bool)
        ensures
            r == self@.contains(d@),
    {
        let mut k: usize = 0;
        while k < self.dirs.len()
            invariant
                0 <= k <= self.dirs.len(),
                self@.len() == self.dirs.len(),
                forall|m: int| 0 <= m < k ==> (#[trigger] self@[m]) != d@,
            decreases self.dirs.len() - k,
        {
            if self.dirs[k] == *d {
                proof {
                    assert(self@[k as int] == d@);
                }
                return true;
            }
            k += 1;
        }
        false
    }

    /// Record a directory that was just created.
    pub fn add_dir(&mut self, d: String)
        requires
            old(self).wf(),
            !old(self)@.contains(d@),
        ensures
            final(self).wf(),
            final(self)@ =~= old(self)@.push(d@),
    {
        self.dirs.push(d);
    }
}

/// The on-disk state and pending-rebuild trace of extracting the first `i`
/// nodes, starting from the directories in `s0`: every non-root node whose
/// directory is missing is placed (its directory is added and the node
/// becomes pending, in node order); a node whose directory already exists is
/// skipped.
pub open spec fn extract_state(
    st: Strategy,
    g: GraphView,
    rootdir: Seq<char>,
    i: int,
    s0: Set<Seq<char>>,
) -> (Set<Seq<char>>, Seq<usize>)
    decreases i,
{
    if i <= 0 {
        (s0, Seq::empty())
    } else {
        let prev = extract_state(st, g, rootdir, i - 1, s0);
        if i - 1 == g.root {
            prev
        } else {
            let d = package_dir_spec(st, g, rootdir, i - 1);
            if prev.0.contains(d) {
                prev
            } else {
                (prev.0.insert(d), prev.1.push((i - 1) as usize))
            }
        }
    }
}

/// The set of directories present on disk.
pub open spec fn dir_set(disk: Seq<Seq<char>>) -> Set<Seq<char>> {
    Set::new(|d: Seq<char>| disk.contains(d))
}

/// Extraction covers the layout: after processing all nodes, every non-root
/// node's directory is present, and the state only ever grows by layout
/// directories.
pub proof fn lemma_extract_covers(
    st: Strategy,
    g: GraphView,
    rootdir: Seq<char>,
    i: int,
    s0: Set<Seq<char>>,
)
    requires
        0 <= i <= g.nodes.len(),
    ensures
        forall|d: Seq<char>|
            s0.contains(d) ==> #[trigger] extract_state(st, g, rootdir, i, s0).0.contains(d),
        forall|k: int|
            0 <= k < i && k != g.root ==> extract_state(st, g, rootdir, i, s0).0.contains(
                #[trigger] package_dir_spec(st, g, rootdir, k),
            ),
    decreases i,
{
    if i == 0 {
        assert(extract_state(st, g, rootdir, 0, s0).0 == s0);
    } else {
        lemma_extract_covers(st, g, rootdir, i - 1, s0);
        let prev = extract_state(st, g, rootdir, i - 1, s0);
        let cur = extract_state(st, g, rootdir, i, s0);
        assert forall|d: Seq<char>| s0.contains(d) implies cur.0.contains(d) by {
            assert(prev.0.contains(d));
        }
        assert forall|k: int| 0 <= k < i && k != g.root implies cur.0.contains(
            #[trigger] package_dir_spec(st, g, rootdir, k),
        ) by {
            if k < i - 1 {
                assert(prev.0.contains(package_dir_spec(st, g, rootdir, k)));
            }
        }
    }
}

/// Appending one directory to the record adds exactly it to the set.
proof fn lemma_dir_set_push(s: Seq<Seq<char>>, d: Seq<char>)
    ensures
        dir_set(s.push(d)) =~= dir_set(s).insert(d),
{
    assert forall|x: Seq<char>| dir_set(s.push(d)).contains(x) implies dir_set(s).insert(
        d,
    ).contains(x) by {
        let j = choose|j: int| 0 <= j < s.push(d).len() && s.push(d)[j] == x;
        if j < s.len() {
            assert(s[j] == x);
        }
    }
    assert forall|x: Seq<char>| dir_set(s).insert(d).contains(x) implies dir_set(
        s.push(d),
    ).contains(x) by {
        if x == d {
            assert(s.push(d)[s.len() as int] == x);
        } else {
            let j = choose|j: int| 0 <= j < s.len() && s[j] == x;
            assert(s.push(d)[j] == x);
        }
    }
}

/// Idempotence: extracting a graph whose layout is already fully present
/// places nothing — no directory is added and no node becomes pending.
pub proof fn lemma_extract_idempotent(
    st: Strategy,
    g: GraphView,
    rootdir: Seq<char>,
    i: int,
    s0: Set<Seq<char>>,
)
    requires
        0 <= i <= g.nodes.len(),
        forall|k: int|
            0 <= k < g.nodes.len() && k != g.root ==> s0.contains(
                #[trigger] package_dir_spec(st, g, rootdir, k),
            ),
    ensures
        extract_state(st, g, rootdir, i, s0).0 =~= s0,
        extract_state(st, g, rootdir, i, s0).1 =~= Seq::<usize>::empty(),
    decreases i,
{
    if i > 0 {
        lemma_extract_idempotent(st, g, rootdir, i - 1, s0);
    }
}

/// Idempotence of a repeated extraction: running extract a second time,
/// starting from the tree the first run converged to, adds no directory and
/// makes no node pending — zero placements.
pub proof fn lemma_extract_twice(
    st: Strategy,
    g: GraphView,
    rootdir: Seq<char>,
    s0: Set<Seq<char>>,
)
    ensures
        extract_state(
            st,
            g,
            rootdir,
            g.nodes.len() as int,
            extract_state(st, g, rootdir, g.nodes.len() as int, s0).0,
        ).1 =~= Seq::<usize>::empty(),
        extract_state(
            st,
            g,
            rootdir,
            g.nodes.len() as int,
            extract_state(st, g, rootdir, g.nodes.len() as int, s0).0,
        ).0 =~= extract_state(st, g, rootdir, g.nodes.len() as int, s0).0,
{
    let n = g.nodes.len() as int;
    lemma_extract_covers(st, g, rootdir, n, s0);
    lemma_extract_idempotent(st, g, rootdir, n, extract_state(st, g, rootdir, n, s0).0);
}

/// Extraction marks each node pending at most once, only non-root nodes, in
/// ascending order: the pending-rebuild additions form a set.
pub proof fn lemma_extract_placed_distinct(
    st: Strategy,
    g: GraphView,
    rootdir: Seq<char>,
    i: int,
    s0: Set<Seq<char>>,
)
    requires
        0 <= i <= usize::MAX,
    ensures
        forall|m: int|
            0 <= m < extract_state(st, g, rootdir, i, s0).1.len()
                ==> (#[trigger] extract_state(st, g, rootdir, i, s0).1[m]) < i
                && extract_state(st, g, rootdir, i, s0).1[m] != g.root,
        extract_state(st, g, rootdir, i, s0).1.no_duplicates(),
    decreases i,
{
    if i > 0 {
        lemma_extract_placed_distinct(st, g, rootdir, i - 1, s0);
        let prev = extract_state(st, g, rootdir, i - 1, s0);
        let cur = extract_state(st, g, rootdir, i, s0);
        if i - 1 == g.root || prev.0.contains(package_dir_spec(st, g, rootdir, i - 1)) {
            assert(cur == prev);
            assert forall|m: int| 0 <= m < cur.1.len() implies (#[trigger] cur.1[m]) < i
                && cur.1[m] != g.root by {
                assert(prev.1[m] < i - 1 && prev.1[m] != g.root);
            }
            assert(cur.1.no_duplicates());
        } else {
            assert(cur.1 == prev.1.push((i - 1) as usize));
            assert forall|m: int| 0 <= m < cur.1.len() implies (#[trigger] cur.1[m]) < i
                && cur.1[m] != g.root by {
                if m < prev.1.len() {
                    assert(prev.1[m] < i - 1 && prev.1[m] != g.root);
                    assert(cur.1[m] == prev.1[m]);
                } else {
                    assert(cur.1[m] == (i - 1) as usize);
                }
            }
            assert forall|p: int, q: int|
                0 <= p < cur.1.len() && 0 <= q < cur.1.len() && p != q implies cur.1[p]
                != cur.1[q] by {
                if p < prev.1.len() && q < prev.1.len() {
                    assert(prev.1[p] != prev.1[q]);
                } else if p < prev.1.len() {
                    assert(prev.1[p] < i - 1);
                    assert(cur.1[q] == (i - 1) as usize);
                } else {
                    assert(prev.1[q] < i - 1);
                    assert(cur.1[p] == (i - 1) as usize);
                }
            }
            assert(cur.1.no_duplicates());
        }
    }
}

/// Materialize a graph: create every non-root package directory the layout
/// assigns that is not already present, in node order. Returns the indices
/// of the nodes actually placed, in order — exactly the nodes that must be
/// added to the pending-rebuild set.
pub fn extract_dirs(st: Strategy, g: &Graph, rootdir: &String, disk: &mut DiskTree) -> (placed:
    Vec<usize>)
    requires
        g@.wf(),
        old(disk).wf(),
    ensures
        final(disk).wf(),
        dir_set(final(disk)@) =~= extract_state(
            st,
            g@,
            rootdir@,
            g@.nodes.len() as int,
            dir_set(old(disk)@),
        ).0,
        placed@ == extract_state(
            st,
            g@,
            rootdir@,
            g@.nodes.len() as int,
            dir_set(old(disk)@),
        ).1,
        final(disk)@.len() == old(disk)@.len() + placed@.len(),
{
    let l = layout_dirs(st, g, rootdir);
    let n = g.nodes.len();
    let mut placed: Vec<usize> = Vec::new();
    let ghost s0 = dir_set(old(disk)@);
    let mut i: usize = 0;
    while i < n
        invariant
            0 <= i <= n,
            n == g@.nodes.len(),
            g@.wf(),
            l@.len() == n,
            forall|k: int|
                0 <= k < n ==> (#[trigger] l@[k])@ == package_dir_spec(st, g@, rootdir@, k),
            disk.wf(),
            dir_set(disk@) =~= extract_state(st, g@, rootdir@, i as int, s0).0,
            placed@ == extract_state(st, g@, rootdir@, i as int, s0).1,
            disk@.len() == old(disk)@.len() + placed@.len(),
            s0 == dir_set(old(disk)@),
        decreases n - i,
    {
        if i != g.root {
            if !disk.contains_dir(&l[i]) {
                let ghost before = disk@;
                proof {
                    assert(!dir_set(before).contains(l@[i as int]@));
                }
                disk.add_dir(l[i].clone());
                placed.push(i);
                proof {
                    lemma_dir_set_push(before, l@[i as int]@);
                    assert(dir_set(disk@) =~= extract_state(
                        st,
                        g@,
                        rootdir@,
                        i + 1 as int,
                        s0,
                    ).0);
                }
            }
        }
        i += 1;
    }
    placed
}


/// What the process observed materializing one freshly extracted node's
/// contents into its directory.
#[derive(Clone, Copy, PartialEq, Eq, Structural, Debug)]
pub enum PlacementOutcome {
    /// The contents were materialized, by whichever method the preference
    /// order selected.
    Placed,
    /// No viable placement method succeeded: copy-on-write clone, hard link
    /// and full copy all failed.
    Failed,
}

/// The verdict one node's placement outcome produces: a failure is
/// swallowed for an optional node — the operation proceeds as if that step
/// trivially succeeded — and fatal for a required one, carrying the node
/// the failure is attributable to.
pub open spec fn placement_step_spec(node: usize, optional: bool, o: PlacementOutcome) -> StepVerdict {
    match o {
        PlacementOutcome::Placed => StepVerdict::Proceed,
        PlacementOutcome::Failed => if optional {
            StepVerdict::Swallowed
        } else {
            StepVerdict::Fatal(LinkerError::Placement { node })
        },
    }
}

/// The verdict for one node's placement, executable form.
pub fn placement_step(node: usize, optional: bool, o: PlacementOutcome) -> (v: StepVerdict)
    ensures
        v == placement_step_spec(node, optional, o),
{
    match o {
        PlacementOutcome::Placed => StepVerdict::Proceed,
        PlacementOutcome::Failed => if optional {
            StepVerdict::Swallowed
        } else {
            StepVerdict::Fatal(LinkerError::Placement { node })
        },
    }
}

/// The result of materializing the first `k` placed nodes, given each one's
/// observed outcome: the first fatal verdict aborts the phase with its
/// error; swallowed optional failures proceed. Directories already placed
/// stay on disk — there is no rollback, and a later run skips them.
pub open spec fn fold_placements_spec(
    g: GraphView,
    placed: Seq<usize>,
    outcomes: Seq<PlacementOutcome>,
    k: int,
) -> Result<(), LinkerError>
    decreases k,
{
    if k <= 0 {
        Ok(())
    } else {
        match fold_placements_spec(g, placed, outcomes, k - 1) {
            Err(e) => Err(e),
            Ok(()) => match placement_step_spec(
                placed[k - 1],
                g.nodes[placed[k - 1] as int].optional,
                outcomes[k - 1],
            ) {
                StepVerdict::Fatal(e) => Err(e),
                _ => Ok(()),
            },
        }
    }
}

proof fn lemma_fold_placements_fatal_persists(
    g: GraphView,
    placed: Seq<usize>,
    outcomes: Seq<PlacementOutcome>,
    k: int,
    m: int,
    e: LinkerError,
)
    requires
        0 <= k <= m,
        fold_placements_spec(g, placed, outcomes, k) == Err::<(), LinkerError>(e),
    ensures
        fold_placements_spec(g, placed, outcomes, m) == Err::<(), LinkerError>(e),
    decreases m - k,
{
    if k < m {
        lemma_fold_placements_fatal_persists(g, placed, outcomes, k, m - 1, e);
    }
}

/// A placement pass succeeds if and only if every required node was placed:
/// optional placement failures alone never fail the phase; one required
/// failure always does.
pub proof fn lemma_fold_placements_ok(
    g: GraphView,
    placed: Seq<usize>,
    outcomes: Seq<PlacementOutcome>,
    k: int,
)
    requires
        0 <= k,
    ensures
        fold_placements_spec(g, placed, outcomes, k) is Ok <==> forall|m: int|
            0 <= m < k ==> !(#[trigger] placement_step_spec(
                placed[m],
                g.nodes[placed[m] as int].optional,
                outcomes[m],
            ) is Fatal),
    decreases k,
{
    if k > 0 {
        lemma_fold_placements_ok(g, placed, outcomes, k - 1);
    }
}

/// Fold the placement outcomes of the nodes `extract_dirs` placed into the
/// phase result, aborting at the first required node whose contents could
/// not be materialized.
pub fn fold_placements(g: &Graph, placed: &Vec<usize>, outcomes: &Vec<PlacementOutcome>) -> (r:
    Result<(), LinkerError>)
    requires
        placed@.len() == outcomes@.len(),
        forall|m: int| 0 <= m < placed@.len() ==> (#[trigger] placed@[m]) < g@.nodes.len(),
    ensures
        r == fold_placements_spec(g@, placed@, outcomes@, placed@.len() as int),
{
    let n = placed.len();
    let mut k: usize = 0;
    while k < n
        invariant
            0 <= k <= n,
            n == placed@.len(),
            n == outcomes@.len(),
            forall|m: int| 0 <= m < n ==> (#[trigger] placed@[m]) < g@.nodes.len(),
            fold_placements_spec(g@, placed@, outcomes@, k as int) == Ok::<(), LinkerError>(()),
        decreases n - k,
    {
        let idx = placed[k];
        let v = placement_step(idx, g.nodes[idx].optional, outcomes[k]);
        if let StepVerdict::Fatal(e) = v {
            proof {
                assert(fold_placements_spec(g@, placed@, outcomes@, k + 1) == Err::<
                    (),
                    LinkerError,
                >(e));
                lemma_fold_placements_fatal_persists(g@, placed@, outcomes@, k + 1, n as int, e);
            }
            return Err(e);
        }
        k += 1;
    }
    Ok(())
}

/// Whether some non-root node of the graph maps to directory `d`.
pub open spec fn maps_to_node(st: Strategy, g: GraphView, rootdir: Seq<char>, d: Seq<char>) -> bool {
    exists|i: int|
        0 <= i < g.nodes.len() && i != g.root && package_dir_spec(st, g, rootdir, i) == d
}

/// `maps_to_node` as a predicate on directories, for filtering.
pub open spec fn maps_pred(st: Strategy, g: GraphView, rootdir: Seq<char>) -> spec_fn(
    Seq<char>,
) -> bool {
    |d: Seq<char>| maps_to_node(st, g, rootdir, d)
}

/// Whether directory `d` matches the layout entry of some non-root node.
fn matches_some_node(g: &Graph, l: &Vec<String>, d: &String) -> (r: bool)
    requires
        l@.len() == g@.nodes.len(),
    ensures
        r == exists|i: int|
            0 <= i < g@.nodes.len() && i != g@.root && (#[trigger] l@[i])@ == d@,
{
    let n = g.nodes.len();
    let mut i: usize = 0;
    while i < n
        invariant
            0 <= i <= n,
            n == g@.nodes.len(),
            l@.len() == n,
            forall|k: int| 0 <= k < i ==> k == g@.root || (#[trigger] l@[k])@ != d@,
        decreases n - i,
    {
        if i != g.root && l[i] == *d {
            proof {
                assert(0 <= i < g@.nodes.len() && i != g@.root && (l@[i as int])@ == d@);
            }
            return true;
        }
        i += 1;
    }
    false
}

proof fn lemma_filter_no_duplicates<A>(s: Seq<A>, pred: spec_fn(A) -> bool)
    requires
        s.no_duplicates(),
    ensures
        s.filter(pred).no_duplicates(),
    decreases s.len(),
{
    reveal(Seq::filter);
    if s.len() > 0 {
        let butlast = s.drop_last();
        assert(butlast.no_duplicates());
        lemma_filter_no_duplicates(butlast, pred);
        if pred(s.last()) {
            if butlast.contains(s.last()) {
                let j = choose|j: int| 0 <= j < butlast.len() && butlast[j] == s.last();
                assert(s[j] == s[s.len() - 1]);
                assert(false);
            }
            if butlast.filter(pred).contains(s.last()) {
                butlast.lemma_filter_contains_rev(pred, s.last());
                assert(false);
            }
        }
    }
}

/// Remove from disk every directory no node of the graph maps to. Returns
/// the number of directories removed. A directory survives if and only if it
/// was present and some node maps to it.
pub fn prune_dirs(st: Strategy, g: &Graph, rootdir: &String, disk: &mut DiskTree) -> (removed:
    usize)
    requires
        g@.wf(),
        old(disk).wf(),
    ensures
        final(disk).wf(),
        final(disk)@ == old(disk)@.filter(maps_pred(st, g@, rootdir@)),
        forall|d: Seq<char>|
            #[trigger] final(disk)@.contains(d) <==> old(disk)@.contains(d) && maps_to_node(
                st,
                g@,
                rootdir@,
                d,
            ),
        removed + final(disk)@.len() == old(disk)@.len(),
{
    let l = layout_dirs(st, g, rootdir);
    let ghost pred = maps_pred(st, g@, rootdir@);
    let mut kept: Vec<String> = Vec::new();
    let mut removed: usize = 0;
    let m = disk.dirs.len();
    let mut k: usize = 0;
    while k < m
        invariant
            0 <= k <= m,
            m == disk.dirs.len(),
            disk.wf(),
            disk == old(disk),
            l@.len() == g@.nodes.len(),
            forall|kk: int|
                0 <= kk < g@.nodes.len() ==> (#[trigger] l@[kk])@ == package_dir_spec(
                    st,
                    g@,
                    rootdir@,
                    kk,
                ),
            pred == maps_pred(st, g@, rootdir@),
            kept@.map_values(|s: String| s@) == disk@.subrange(0, k as int).filter(pred),
            removed + kept@.len() == k,
        decreases m - k,
    {
        let d = &disk.dirs[k];
        proof {
            assert(disk@.subrange(0, k + 1 as int).drop_last() =~= disk@.subrange(0, k as int));
            assert(disk@.subrange(0, k + 1 as int).last() == d@);
            reveal(Seq::filter);
        }
        if matches_some_node(g, &l, d) {
            proof {
                let i = choose|i: int|
                    0 <= i < g@.nodes.len() && i != g@.root && (#[trigger] l@[i])@ == d@;
                assert(package_dir_spec(st, g@, rootdir@, i) == d@);
                assert(maps_to_node(st, g@, rootdir@, d@));
                assert(pred(d@));
            }
            kept.push(d.clone());
            proof {
                assert(kept@.map_values(|s: String| s@) =~= disk@.subrange(0, k + 1 as int).filter(
                    pred,
                ));
            }
        } else {
            proof {
                if maps_to_node(st, g@, rootdir@, d@) {
                    let i = choose|i: int|
                        0 <= i < g@.nodes.len() && i != g@.root && package_dir_spec(
                            st,
                            g@,
                            rootdir@,
                            i,
                        ) == d@;
                    assert((l@[i])@ == d@);
                }
                assert(!pred(d@));
                assert(kept@.map_values(|s: String| s@) =~= disk@.subrange(0, k + 1 as int).filter(
                    pred,
                ));
            }
            removed += 1;
        }
        k += 1;
    }
    proof {
        assert(disk@.subrange(0, m as int) =~= disk@);
        lemma_filter_no_duplicates(disk@, pred);
        let fs = disk@.filter(pred);
        assert forall|d: Seq<char>| fs.contains(d) implies disk@.contains(d) && pred(d) by {
            disk@.lemma_filter_contains_rev(pred, d);
            let j = choose|j: int| 0 <= j < fs.len() && fs[j] == d;
            disk@.lemma_filter_pred(pred, j);
        }
        assert forall|d: Seq<char>| disk@.contains(d) && pred(d) implies fs.contains(d) by {
            let i = choose|i: int| 0 <= i < disk@.len() && disk@[i] == d;
            disk@.lemma_filter_contains(pred, i);
        }
    }
    disk.dirs = kept;
    removed
}

} // verus!
