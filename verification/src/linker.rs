//! The linker facade: one instance per install operation, configured once,
//! dispatching `extract`, `prune`, `link_bins` and the lifecycle-script
//! phases to the configured placement strategy. A third, inert kind exists
//! for targets where linking is unsupported: all of its operations are
//! successful no-ops.

use vstd::prelude::*;

use crate::bins::{bin_link_plan, bin_plan_spec, BinLink};
use crate::disk::{extract_dirs, extract_state, dir_set, maps_pred, prune_dirs, DiskTree};
use crate::graph::Graph;
use crate::layout::{package_dir, package_dir_spec, Strategy};
use crate::scripts::{run_event, run_event_spec, LinkerError, ScriptOutcome};

verus! {

/// Configuration of one install operation: constructed once, read-only
/// afterward. Progress and script-output callbacks are observational only
/// and live with the driving process, never here, so their presence cannot
/// change results.
pub struct LinkerOptions {
    /// Bound on concurrent filesystem placement and pruning work.
    pub concurrency: usize,
    /// Bound on concurrently running lifecycle scripts.
    pub script_concurrency: usize,
    /// Shared content cache location, when one is configured.
    pub cache: Option<String>,
    /// Prefer a full copy over copy-on-write cloning or hard links.
    pub prefer_copy: bool,
    /// Re-verify content of already-present package directories.
    pub validate: bool,
    /// The install root directory.
    pub root: String,
}

/// The three placement-strategy preferences for materializing one package,
/// in degrading order.
#[derive(Clone, Copy, PartialEq, Eq, Structural, Debug)]
pub enum PlacementMethod {
    /// Copy-on-write clone.
    Reflink,
    /// Hard link against the immutable shared cache.
    HardLink,
    /// Full copy: the always-safe fallback.
    Copy,
}

/// The method extraction uses for one package, given what the probe and the
/// configuration established.
pub open spec fn placement_method_spec(
    prefer_copy: bool,
    reflink_supported: bool,
    has_cache: bool,
    same_device: bool,
) -> PlacementMethod {
    if prefer_copy {
        PlacementMethod::Copy
    } else if reflink_supported {
        PlacementMethod::Reflink
    } else if has_cache && same_device {
        PlacementMethod::HardLink
    } else {
        PlacementMethod::Copy
    }
}

/// Choose how a package's contents are materialized: a forced copy wins;
/// otherwise copy-on-write when the probe verified it; otherwise a hard
/// link when an immutable shared cache exists on the same device; otherwise
/// a full copy.
pub fn choose_placement_method(
    prefer_copy: bool,
    reflink_supported: bool,
    has_cache: bool,
    same_device: bool,
) -> (m: PlacementMethod)
    ensures
        m == placement_method_spec(prefer_copy, reflink_supported, has_cache, same_device),
{
    if prefer_copy {
        PlacementMethod::Copy
    } else if reflink_supported {
        PlacementMethod::Reflink
    } else if has_cache && same_device {
        PlacementMethod::HardLink
    } else {
        PlacementMethod::Copy
    }
}

/// One linker per install operation: the configured strategy (none for the
/// inert kind), its options, and the pending-rebuild set of nodes placed by
/// extraction and awaiting lifecycle scripts.
pub struct Linker {
    /// The placement strategy, or `None` for the inert no-op linker.
    pub kind: Option<Strategy>,
    pub opts: LinkerOptions,
    /// Indices of nodes placed by extraction, in placement order, each at
    /// most once, awaiting lifecycle-script execution.
    pub pending_rebuild: Vec<usize>,
}

impl Linker {
    /// A linker that isolates every package version in one content-addressed
    /// directory.
    pub fn isolated(opts: LinkerOptions) -> (r: Linker)
        ensures
            r.kind == Some(Strategy::Isolated),
            r.opts == opts,
            r.pending_rebuild@ =~= Seq::<usize>::empty(),
    {
        Linker { kind: Some(Strategy::Isolated), opts, pending_rebuild: Vec::new() }
    }

    /// A linker that hoists packages into a single shared flattened tree.
    pub fn hoisted(opts: LinkerOptions) -> (r: Linker)
        ensures
            r.kind == Some(Strategy::Hoisted),
            r.opts == opts,
            r.pending_rebuild@ =~= Seq::<usize>::empty(),
    {
        Linker { kind: Some(Strategy::Hoisted), opts, pending_rebuild: Vec::new() }
    }

    /// The inert linker: every operation is a successful no-op.
    pub fn null() -> (r: Linker)
        ensures
            r.kind is None,
            r.pending_rebuild@ =~= Seq::<usize>::empty(),
    {
        Linker {
            kind: None,
            opts: LinkerOptions {
                concurrency: 1,
                script_concurrency: 1,
                cache: None,
                prefer_copy: false,
                validate: false,
                root: String::new(),
            },
            pending_rebuild: Vec::new(),
        }
    }

    /// Materialize every graph node not yet present at its target location,
    /// adding each freshly placed node to the pending-rebuild set. Returns
    /// the number of packages placed; an already-converged tree reports
    /// zero. The inert kind places nothing.
    pub fn extract(&mut self, g: &Graph, disk: &mut DiskTree) -> (count: usize)
        requires
            g@.wf(),
            old(disk).wf(),
        ensures
            final(disk).wf(),
            final(self).kind == old(self).kind,
            final(self).opts == old(self).opts,
            old(self).kind is None ==> count == 0 && final(disk)@ == old(disk)@
                && final(self).pending_rebuild@ == old(self).pending_rebuild@,
            old(self).kind matches Some(st) ==> {
                &&& dir_set(final(disk)@) == extract_state(
                    st,
                    g@,
                    old(self).opts.root@,
                    g@.nodes.len() as int,
                    dir_set(old(disk)@),
                ).0
                &&& final(self).pending_rebuild@ == old(self).pending_rebuild@ + extract_state(
                    st,
                    g@,
                    old(self).opts.root@,
                    g@.nodes.len() as int,
                    dir_set(old(disk)@),
                ).1
                &&& count == extract_state(
                    st,
                    g@,
                    old(self).opts.root@,
                    g@.nodes.len() as int,
                    dir_set(old(disk)@),
                ).1.len()
            },
    {
        match self.kind {
            None => 0,
            Some(st) => {
                let mut placed = extract_dirs(st, g, &self.opts.root, disk);
                let count = placed.len();
                self.pending_rebuild.append(&mut placed);
                count
            },
        }
    }

    /// Remove every on-disk package directory no node of the graph maps to.
    /// Returns the number of directories removed: a directory survives if
    /// and only if some node maps to it. The inert kind removes nothing.
    pub fn prune(&self, g: &Graph, disk: &mut DiskTree) -> (count: usize)
        requires
            g@.wf(),
            old(disk).wf(),
        ensures
            final(disk).wf(),
            self.kind is None ==> count == 0 && final(disk)@ == old(disk)@,
            self.kind matches Some(st) ==> {
                &&& final(disk)@ == old(disk)@.filter(maps_pred(st, g@, self.opts.root@))
                &&& count + final(disk)@.len() == old(disk)@.len()
            },
    {
        match self.kind {
            None => 0,
            Some(st) => prune_dirs(st, g, &self.opts.root, disk),
        }
    }

    /// The bin-link plan for the graph: one entry per executable entry
    /// point the strategy prescribes. The inert kind links nothing.
    pub fn link_bins(&self, g: &Graph) -> (plan: Vec<BinLink>)
        requires
            g@.wf(),
        ensures
            self.kind is None ==> plan@.len() == 0,
            self.kind matches Some(st) ==> plan@.map_values(|b: BinLink| b@) == bin_plan_spec(
                st,
                g@,
                self.opts.root@,
            ),
    {
        match self.kind {
            None => Vec::new(),
            Some(st) => bin_link_plan(st, g, &self.opts.root),
        }
    }

    /// The directory the configured strategy assigns to node `idx`; the
    /// inert kind assigns none.
    pub fn package_dir(&self, g: &Graph, idx: usize) -> (r: Option<String>)
        requires
            g@.wf(),
            idx < g@.nodes.len(),
        ensures
            self.kind is None ==> r is None,
            self.kind matches Some(st) ==> (r matches Some(d) && d@ == package_dir_spec(
                st,
                g@,
                self.opts.root@,
                idx as int,
            )),
    {
        match self.kind {
            None => None,
            Some(st) => Some(package_dir(st, g, &self.opts.root, idx)),
        }
    }

    /// Run one lifecycle event over the pending-rebuild set, given the
    /// outcome the process observed for each pending node, aborting at the
    /// first fatal verdict. The inert kind always succeeds.
    pub fn run_scripts(&self, g: &Graph, outcomes: &Vec<ScriptOutcome>) -> (r: Result<
        (),
        LinkerError,
    >)
        requires
            self.kind is Some ==> outcomes@.len() == self.pending_rebuild@.len(),
            forall|m: int|
                0 <= m < self.pending_rebuild@.len() ==> (#[trigger] self.pending_rebuild@[m])
                    < g@.nodes.len(),
        ensures
            self.kind is None ==> r is Ok,
            self.kind is Some ==> r == run_event_spec(
                g@,
                self.pending_rebuild@,
                outcomes@,
                self.pending_rebuild@.len() as int,
            ),
    {
        match self.kind {
            None => Ok(()),
            Some(_) => run_event(g, &self.pending_rebuild, outcomes),
        }
    }

    /// The result a full rebuild reports, given the result of each phase
    /// that would run: the strict `preinstall` → link bins → `install` →
    /// `postinstall` order, the first failing phase's error surfacing, and
    /// every script phase skipped when scripts are ignored. The inert kind
    /// always succeeds. The driving process runs the phases one by one with
    /// `first_phase` and `next_phase`, which stop at the first failure.
    pub fn rebuild(
        &self,
        ignore_scripts: bool,
        preinstall: Result<(), LinkerError>,
        bins: Result<(), LinkerError>,
        install: Result<(), LinkerError>,
        postinstall: Result<(), LinkerError>,
    ) -> (r: Result<(), LinkerError>)
        ensures
            self.kind is None ==> r is Ok,
            self.kind is Some ==> r == rebuild_spec(
                ignore_scripts,
                preinstall,
                bins,
                install,
                postinstall,
            ),
    {
        match self.kind {
            None => Ok(()),
            Some(_) => rebuild_verdict(ignore_scripts, preinstall, bins, install, postinstall),
        }
    }
}

/// The lifecycle phases `rebuild` sequences, in order.
#[derive(Clone, Copy, PartialEq, Eq, Structural, Debug)]
pub enum Phase {
    Preinstall,
    LinkBins,
    Install,
    Postinstall,
}

/// The phase a rebuild starts with: bins must exist before `install` and
/// `postinstall` scripts run, but `preinstall` precedes bin linking — unless
/// scripts are ignored, in which case only bin linking happens.
pub open spec fn first_phase_spec(ignore_scripts: bool) -> Phase {
    if ignore_scripts {
        Phase::LinkBins
    } else {
        Phase::Preinstall
    }
}

/// The phase after `current`: the strict `preinstall` → link bins →
/// `install` → `postinstall` sequence, cut short the moment a phase fails,
/// and skipping every script phase when scripts are ignored.
pub open spec fn next_phase_spec(current: Phase, ok: bool, ignore_scripts: bool) -> Option<Phase> {
    if !ok {
        None
    } else {
        match current {
            Phase::Preinstall => Some(Phase::LinkBins),
            Phase::LinkBins => if ignore_scripts {
                None
            } else {
                Some(Phase::Install)
            },
            Phase::Install => Some(Phase::Postinstall),
            Phase::Postinstall => None,
        }
    }
}

/// The phase a rebuild starts with, executable form.
pub fn first_phase(ignore_scripts: bool) -> (p: Phase)
    ensures
        p == first_phase_spec(ignore_scripts),
{
    if ignore_scripts {
        Phase::LinkBins
    } else {
        Phase::Preinstall
    }
}

/// The phase to run after `current` finished with `ok`, or `None` when the
/// rebuild is over — because the sequence completed or because the phase
/// failed, in which case no later phase may start.
pub fn next_phase(current: Phase, ok: bool, ignore_scripts: bool) -> (p: Option<Phase>)
    ensures
        p == next_phase_spec(current, ok, ignore_scripts),
{
    if !ok {
        None
    } else {
        match current {
            Phase::Preinstall => Some(Phase::LinkBins),
            Phase::LinkBins => if ignore_scripts {
                None
            } else {
                Some(Phase::Install)
            },
            Phase::Install => Some(Phase::Postinstall),
            Phase::Postinstall => None,
        }
    }
}

/// A failed phase prevents every phase not yet started, whatever the phase
/// and configuration.
pub proof fn lemma_failed_phase_stops_rebuild(current: Phase, ignore_scripts: bool)
    ensures
        next_phase_spec(current, false, ignore_scripts) is None,
{
}

/// The overall result a rebuild reports, given the result of each phase
/// that would run: the first failing phase's error, in the strict phase
/// order, with script phases skipped entirely when scripts are ignored.
pub open spec fn rebuild_spec(
    ignore_scripts: bool,
    preinstall: Result<(), LinkerError>,
    bins: Result<(), LinkerError>,
    install: Result<(), LinkerError>,
    postinstall: Result<(), LinkerError>,
) -> Result<(), LinkerError> {
    if ignore_scripts {
        bins
    } else if preinstall is Err {
        preinstall
    } else if bins is Err {
        bins
    } else if install is Err {
        install
    } else {
        postinstall
    }
}

/// Fold the per-phase results of a rebuild into the result the caller
/// sees, executable form.
pub fn rebuild_verdict(
    ignore_scripts: bool,
    preinstall: Result<(), LinkerError>,
    bins: Result<(), LinkerError>,
    install: Result<(), LinkerError>,
    postinstall: Result<(), LinkerError>,
) -> (r: Result<(), LinkerError>)
    ensures
        r == rebuild_spec(ignore_scripts, preinstall, bins, install, postinstall),
{
    if ignore_scripts {
        bins
    } else if preinstall.is_err() {
        preinstall
    } else if bins.is_err() {
        bins
    } else if install.is_err() {
        install
    } else {
        postinstall
    }
}

} // verus!
