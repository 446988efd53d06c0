//! Script orchestration decisions: which verdict each pending node's
//! lifecycle-script outcome produces, and what the whole event run returns.
//!
//! The surrounding process reads each pending package's build manifest,
//! spawns the declared script, and drains its output; what it observes per
//! node is reported here as a `ScriptOutcome`. The decisions — a failing
//! optional node is swallowed, a failing required node aborts the event, a
//! pending package whose directory vanished is always fatal — are verified
//! here for every possible sequence of outcomes.

use vstd::prelude::*;

use crate::graph::{Graph, GraphView};

verus! {

/// Errors of the materialization layer, each identifying the node the
/// failure is attributable to.
#[derive(Clone, Copy, PartialEq, Eq, Structural, Debug)]
pub enum LinkerError {
    /// The package's build manifest could not be read or parsed at the
    /// package's directory.
    BuildManifestRead { node: usize },
    /// A pending package's directory no longer exists — it was pruned
    /// between extraction and rebuild, so the phases ran on inconsistent
    /// graph snapshots.
    PackageDirVanished { node: usize },
    /// The lifecycle script could not be spawned.
    ScriptSpawn { node: usize },
    /// The lifecycle script terminated abnormally or with a non-zero exit.
    ScriptExit { node: usize },
    /// No placement method succeeded for the package's contents:
    /// copy-on-write clone, hard link and full copy all failed.
    Placement { node: usize },
    /// An executable entry point could not be created.
    BinLink { node: usize },
}

/// What the process observed for one pending node and one lifecycle event.
#[derive(Clone, Copy, PartialEq, Eq, Structural, Debug)]
pub enum ScriptOutcome {
    /// The build manifest declares no script for this event: trivially
    /// successful.
    NoScript,
    /// The script ran and exited cleanly.
    Success,
    /// The pending package's directory no longer exists: it was pruned
    /// after extraction, a sequencing bug of the caller.
    PackageDirMissing,
    /// The build manifest could not be read or parsed at the package's
    /// directory.
    ManifestUnreadable,
    /// The script could not be spawned.
    SpawnFailed,
    /// The script exited non-zero or terminated abnormally.
    ExitFailure,
}

/// The verdict for one node: continue, continue but record a swallowed
/// optional failure, or abort the event.
#[derive(Clone, Copy, PartialEq, Eq, Structural, Debug)]
pub enum StepVerdict {
    Proceed,
    Swallowed,
    Fatal(LinkerError),
}

/// The verdict one node's outcome produces. A vanished package directory is
/// fatal whether or not the node is optional: it means extraction, pruning
/// and rebuild ran on inconsistent graph snapshots, and must surface rather
/// than be skipped. An unreadable manifest, a spawn failure or an exit
/// failure is swallowed for an optional node and fatal for a required one;
/// anything else proceeds.
pub open spec fn script_step_spec(node: usize, optional: bool, o: ScriptOutcome) -> StepVerdict {
    match o {
        ScriptOutcome::NoScript => StepVerdict::Proceed,
        ScriptOutcome::Success => StepVerdict::Proceed,
        ScriptOutcome::PackageDirMissing => StepVerdict::Fatal(
            LinkerError::PackageDirVanished { node },
        ),
        ScriptOutcome::ManifestUnreadable => if optional {
            StepVerdict::Swallowed
        } else {
            StepVerdict::Fatal(LinkerError::BuildManifestRead { node })
        },
        ScriptOutcome::SpawnFailed => if optional {
            StepVerdict::Swallowed
        } else {
            StepVerdict::Fatal(LinkerError::ScriptSpawn { node })
        },
        ScriptOutcome::ExitFailure => if optional {
            StepVerdict::Swallowed
        } else {
            StepVerdict::Fatal(LinkerError::ScriptExit { node })
        },
    }
}

/// The verdict for one node, executable form.
pub fn script_step(node: usize, optional: bool, o: ScriptOutcome) -> (v: StepVerdict)
    ensures
        v == script_step_spec(node, optional, o),
{
    match o {
        ScriptOutcome::NoScript => StepVerdict::Proceed,
        ScriptOutcome::Success => StepVerdict::Proceed,
        ScriptOutcome::PackageDirMissing => StepVerdict::Fatal(
            LinkerError::PackageDirVanished { node },
        ),
        ScriptOutcome::ManifestUnreadable => if optional {
            StepVerdict::Swallowed
        } else {
            StepVerdict::Fatal(LinkerError::BuildManifestRead { node })
        },
        ScriptOutcome::SpawnFailed => if optional {
            StepVerdict::Swallowed
        } else {
            StepVerdict::Fatal(LinkerError::ScriptSpawn { node })
        },
        ScriptOutcome::ExitFailure => if optional {
            StepVerdict::Swallowed
        } else {
            StepVerdict::Fatal(LinkerError::ScriptExit { node })
        },
    }
}

/// Optional fault isolation, per node: any failure attributable to the node
/// itself — unreadable manifest, spawn failure, exit failure — is swallowed
/// when the node is optional and fatal when it is required. A vanished
/// package directory is a sequencing bug of the caller, not a failure of
/// the node, and is fatal either way.
pub proof fn lemma_optional_fault_isolation(node: usize, o: ScriptOutcome)
    requires
        o == ScriptOutcome::ManifestUnreadable || o == ScriptOutcome::SpawnFailed || o
            == ScriptOutcome::ExitFailure,
    ensures
        script_step_spec(node, true, o) == StepVerdict::Swallowed,
        script_step_spec(node, false, o) matches StepVerdict::Fatal(_),
        script_step_spec(node, true, ScriptOutcome::PackageDirMissing) matches StepVerdict::Fatal(
            _,
        ),
{
}

/// The result of running one lifecycle event over the first `k` pending
/// nodes, given each node's observed outcome: the first fatal verdict
/// aborts the event with its error; swallowed and successful nodes proceed.
pub open spec fn run_event_spec(
    g: GraphView,
    pending: Seq<usize>,
    outcomes: Seq<ScriptOutcome>,
    k: int,
) -> Result<(), LinkerError>
    decreases k,
{
    if k <= 0 {
        Ok(())
    } else {
        match run_event_spec(g, pending, outcomes, k - 1) {
            Err(e) => Err(e),
            Ok(()) => match script_step_spec(
                pending[k - 1],
                g.nodes[pending[k - 1] as int].optional,
                outcomes[k - 1],
            ) {
                StepVerdict::Fatal(e) => Err(e),
                _ => Ok(()),
            },
        }
    }
}

proof fn lemma_run_event_fatal_persists(
    g: GraphView,
    pending: Seq<usize>,
    outcomes: Seq<ScriptOutcome>,
    k: int,
    m: int,
    e: LinkerError,
)
    requires
        0 <= k <= m,
        run_event_spec(g, pending, outcomes, k) == Err::<(), LinkerError>(e),
    ensures
        run_event_spec(g, pending, outcomes, m) == Err::<(), LinkerError>(e),
    decreases m - k,
{
    if k < m {
        lemma_run_event_fatal_persists(g, pending, outcomes, k, m - 1, e);
    }
}

/// An event run succeeds if and only if no step verdict is fatal:
/// optional failures alone never fail the event; one required failure
/// always does.
pub proof fn lemma_run_event_ok(
    g: GraphView,
    pending: Seq<usize>,
    outcomes: Seq<ScriptOutcome>,
    k: int,
)
    requires
        0 <= k,
    ensures
        run_event_spec(g, pending, outcomes, k) is Ok <==> forall|m: int|
            0 <= m < k ==> !(#[trigger] script_step_spec(
                pending[m],
                g.nodes[pending[m] as int].optional,
                outcomes[m],
            ) is Fatal),
    decreases k,
{
    if k > 0 {
        lemma_run_event_ok(g, pending, outcomes, k - 1);
    }
}

/// Run one lifecycle event over the pending nodes, given each node's
/// observed outcome, aborting at the first fatal verdict.
pub fn run_event(g: &Graph, pending: &Vec<usize>, outcomes: &Vec<ScriptOutcome>) -> (r: Result<
    (),
    LinkerError,
>)
    requires
        pending@.len() == outcomes@.len(),
        forall|m: int| 0 <= m < pending@.len() ==> (#[trigger] pending@[m]) < g@.nodes.len(),
    ensures
        r == run_event_spec(g@, pending@, outcomes@, pending@.len() as int),
{
    let n = pending.len();
    let mut k: usize = 0;
    while k < n
        invariant
            0 <= k <= n,
            n == pending@.len(),
            n == outcomes@.len(),
            forall|m: int| 0 <= m < n ==> (#[trigger] pending@[m]) < g@.nodes.len(),
            run_event_spec(g@, pending@, outcomes@, k as int) == Ok::<(), LinkerError>(()),
        decreases n - k,
    {
        let idx = pending[k];
        let v = script_step(idx, g.nodes[idx].optional, outcomes[k]);
        if let StepVerdict::Fatal(e) = v {
            proof {
                assert(run_event_spec(g@, pending@, outcomes@, k + 1) == Err::<(), LinkerError>(e));
                lemma_run_event_fatal_persists(g@, pending@, outcomes@, k + 1, n as int, e);
            }
            return Err(e);
        }
        k += 1;
    }
    Ok(())
}

} // verus!
