use node_linker::bins::{bin_link_plan, bin_link_relative_source, fold_bin_links, BinLink, BinLinkOutcome};
use node_linker::disk::{fold_placements, DiskTree, PlacementOutcome};
use node_linker::graph::{Bin, Graph, Node, PackageId};
use node_linker::layout::{package_dir, Strategy};
use node_linker::linker::{
    choose_placement_method, first_phase, next_phase, rebuild_verdict, Linker, LinkerOptions,
    Phase, PlacementMethod,
};
use node_linker::reflink_probe_verdict;
use node_linker::scripts::{run_event, script_step, LinkerError, ScriptOutcome, StepVerdict};

fn node(name: &str, version: &str, optional: bool, bins: Vec<(&str, &str)>, deps: Vec<usize>) -> Node {
    Node {
        id: PackageId { name: String::from(name), version: String::from(version) },
        optional,
        bins: bins
            .into_iter()
            .map(|(n, f)| Bin { name: String::from(n), file: String::from(f) })
            .collect(),
        deps,
    }
}

/// root -> a@1, root -> b@1, b -> a@2 (conflicting version), a@2 -> a@1 dup.
fn sample_graph() -> Graph {
    Graph {
        nodes: vec![
            node("root", "1.0.0", false, vec![], vec![1, 2]),
            node("a", "1.0.0", false, vec![], vec![]),
            node("b", "1.0.0", false, vec![("b", "cli.js")], vec![3]),
            node("a", "2.0.0", false, vec![], vec![4]),
            node("a", "1.0.0", false, vec![], vec![]),
        ],
        root: 0,
    }
}

fn opts(root: &str) -> LinkerOptions {
    LinkerOptions {
        concurrency: 4,
        script_concurrency: 2,
        cache: None,
        prefer_copy: false,
        validate: false,
        root: String::from(root),
    }
}

#[test]
fn probe_verdict_requires_every_step() {
    assert!(reflink_probe_verdict(true, true, true, true));
    assert!(!reflink_probe_verdict(true, true, true, false));
    assert!(!reflink_probe_verdict(false, true, true, true));
    assert!(!reflink_probe_verdict(true, false, true, true));
    assert!(!reflink_probe_verdict(true, true, false, true));
}

#[test]
fn placement_method_preference_order() {
    assert_eq!(choose_placement_method(true, true, true, true), PlacementMethod::Copy);
    assert_eq!(choose_placement_method(false, true, false, false), PlacementMethod::Reflink);
    assert_eq!(choose_placement_method(false, false, true, true), PlacementMethod::HardLink);
    assert_eq!(choose_placement_method(false, false, true, false), PlacementMethod::Copy);
    assert_eq!(choose_placement_method(false, false, false, true), PlacementMethod::Copy);
}

#[test]
fn well_formed_sample_graph() {
    assert!(sample_graph().well_formed());
}

#[test]
fn well_formed_rejects_edge_out_of_range() {
    let g = Graph { nodes: vec![node("root", "1.0.0", false, vec![], vec![7])], root: 0 };
    assert!(!g.well_formed());
}

#[test]
fn well_formed_rejects_node_without_earlier_dependent() {
    // Node 1 has no dependent at all, so placement cannot bottom out.
    let g = Graph {
        nodes: vec![
            node("root", "1.0.0", false, vec![], vec![]),
            node("a", "1.0.0", false, vec![], vec![]),
        ],
        root: 0,
    };
    assert!(!g.well_formed());
}

#[test]
fn depends_on_and_first_dependent() {
    let g = sample_graph();
    assert!(g.nodes[0].depends_on(1));
    assert!(!g.nodes[0].depends_on(3));
    assert_eq!(g.find_first_dependent(3), 2);
    assert_eq!(g.find_first_dependent(1), 0);
    // Nothing depends on the root: the scan reports the node count.
    assert_eq!(g.find_first_dependent(0), 5);
}

#[test]
fn hoisted_layout_places_first_version_on_top_and_nests_conflicts() {
    let g = sample_graph();
    let root = String::from("/r");
    assert_eq!(package_dir(Strategy::Hoisted, &g, &root, 0), "/r");
    assert_eq!(package_dir(Strategy::Hoisted, &g, &root, 1), "/r/node_modules/a");
    assert_eq!(package_dir(Strategy::Hoisted, &g, &root, 2), "/r/node_modules/b");
    // a@2 conflicts with the hoisted a@1 and nests under its first dependent b.
    assert_eq!(
        package_dir(Strategy::Hoisted, &g, &root, 3),
        "/r/node_modules/b/node_modules/a"
    );
    // a@1 again: deduplicated to the shared top-level directory.
    assert_eq!(package_dir(Strategy::Hoisted, &g, &root, 4), "/r/node_modules/a");
}

#[test]
fn hoisted_layout_is_deterministic() {
    let root = String::from("/r");
    let first: Vec<String> =
        (0..5).map(|i| package_dir(Strategy::Hoisted, &sample_graph(), &root, i)).collect();
    let second: Vec<String> =
        (0..5).map(|i| package_dir(Strategy::Hoisted, &sample_graph(), &root, i)).collect();
    assert_eq!(first, second);
}

#[test]
fn isolated_layout_is_content_addressed() {
    let g = sample_graph();
    let root = String::from("/r");
    assert_eq!(package_dir(Strategy::Isolated, &g, &root, 0), "/r");
    assert_eq!(
        package_dir(Strategy::Isolated, &g, &root, 1),
        "/r/node_modules/.store/a@1.0.0"
    );
    assert_eq!(
        package_dir(Strategy::Isolated, &g, &root, 3),
        "/r/node_modules/.store/a@2.0.0"
    );
    // Same identity, same physical directory.
    assert_eq!(
        package_dir(Strategy::Isolated, &g, &root, 4),
        package_dir(Strategy::Isolated, &g, &root, 1)
    );
}

#[test]
fn extract_is_idempotent() {
    let g = sample_graph();
    let mut lk = Linker::hoisted(opts("/r"));
    let mut disk = DiskTree::new();
    // Node 4 carries a@1.0.0 again and deduplicates onto node 1's hoisted
    // directory, so only three placements happen.
    let first = lk.extract(&g, &mut disk);
    assert_eq!(first, 3);
    assert_eq!(lk.pending_rebuild, vec![1, 2, 3]);
    let second = lk.extract(&g, &mut disk);
    assert_eq!(second, 0);
    assert_eq!(lk.pending_rebuild, vec![1, 2, 3]);
}

#[test]
fn extract_isolated_deduplicates_identities() {
    let g = sample_graph();
    let mut lk = Linker::isolated(opts("/r"));
    let mut disk = DiskTree::new();
    // a@1 occurs twice but occupies one store directory.
    assert_eq!(lk.extract(&g, &mut disk), 3);
    assert_eq!(lk.pending_rebuild, vec![1, 2, 3]);
}

#[test]
fn extract_null_is_a_no_op() {
    let g = sample_graph();
    let mut lk = Linker::null();
    let mut disk = DiskTree::new();
    assert_eq!(lk.extract(&g, &mut disk), 0);
    assert!(lk.pending_rebuild.is_empty());
    assert!(!disk.contains_dir(&String::from("/r/node_modules/a")));
}

#[test]
fn prune_keeps_exactly_mapped_directories() {
    let g = sample_graph();
    let lk = Linker::hoisted(opts("/r"));
    let mut disk = DiskTree::new();
    disk.add_dir(String::from("/r/node_modules/a"));
    disk.add_dir(String::from("/r/node_modules/zombie"));
    disk.add_dir(String::from("/r/node_modules/b/node_modules/a"));
    let removed = lk.prune(&g, &mut disk);
    assert_eq!(removed, 1);
    assert!(disk.contains_dir(&String::from("/r/node_modules/a")));
    assert!(disk.contains_dir(&String::from("/r/node_modules/b/node_modules/a")));
    assert!(!disk.contains_dir(&String::from("/r/node_modules/zombie")));
}

#[test]
fn prune_null_removes_nothing() {
    let g = sample_graph();
    let lk = Linker::null();
    let mut disk = DiskTree::new();
    disk.add_dir(String::from("/anything"));
    assert_eq!(lk.prune(&g, &mut disk), 0);
    assert!(disk.contains_dir(&String::from("/anything")));
}

#[test]
fn hoisted_bin_plan_links_into_shared_bin_dir() {
    let g = sample_graph();
    let plan = bin_link_plan(Strategy::Hoisted, &g, &String::from("/r"));
    assert_eq!(plan.len(), 1);
    assert_eq!(plan[0].owner, 2);
    assert_eq!(plan[0].source, "/r/node_modules/b/cli.js");
    assert_eq!(plan[0].bin_dir, "/r/node_modules/.bin");
    assert_eq!(plan[0].target, "/r/node_modules/.bin/b");
}

#[test]
fn isolated_bin_plan_links_per_dependent() {
    let g = sample_graph();
    let plan = bin_link_plan(Strategy::Isolated, &g, &String::from("/r"));
    // Only the root depends on b, the only package declaring a binary.
    assert_eq!(plan.len(), 1);
    assert_eq!(plan[0].owner, 2);
    assert_eq!(plan[0].source, "/r/node_modules/.store/b@1.0.0/cli.js");
    assert_eq!(plan[0].bin_dir, "/r/node_modules/.bin");
    assert_eq!(plan[0].target, "/r/node_modules/.bin/b");
}

#[test]
fn bin_links_are_relative_to_their_bin_dir() {
    let link = BinLink {
        owner: 2,
        source: String::from("/r/node_modules/.store/b@1.0.0/cli.js"),
        bin_dir: String::from("/r/node_modules/.bin"),
        target: String::from("/r/node_modules/.bin/b"),
    };
    let rel = bin_link_relative_source(&link).unwrap();
    assert_eq!(rel, "../.store/b@1.0.0/cli.js");
}

#[test]
fn bin_link_relative_source_rejects_unrelatable_paths() {
    let link = BinLink {
        owner: 1,
        source: String::from("relative/cli.js"),
        bin_dir: String::from("/abs/.bin"),
        target: String::from("/abs/.bin/b"),
    };
    assert!(bin_link_relative_source(&link).is_none());
}

#[test]
fn script_step_verdicts() {
    assert_eq!(script_step(4, false, ScriptOutcome::NoScript), StepVerdict::Proceed);
    assert_eq!(script_step(4, true, ScriptOutcome::Success), StepVerdict::Proceed);
    assert_eq!(
        script_step(4, true, ScriptOutcome::ExitFailure),
        StepVerdict::Swallowed
    );
    assert_eq!(
        script_step(4, true, ScriptOutcome::SpawnFailed),
        StepVerdict::Swallowed
    );
    assert_eq!(
        script_step(4, false, ScriptOutcome::ExitFailure),
        StepVerdict::Fatal(LinkerError::ScriptExit { node: 4 })
    );
    assert_eq!(
        script_step(4, false, ScriptOutcome::SpawnFailed),
        StepVerdict::Fatal(LinkerError::ScriptSpawn { node: 4 })
    );
    // An unreadable manifest is a failure of the node itself: swallowed
    // when optional, fatal when required.
    assert_eq!(
        script_step(4, true, ScriptOutcome::ManifestUnreadable),
        StepVerdict::Swallowed
    );
    assert_eq!(
        script_step(4, false, ScriptOutcome::ManifestUnreadable),
        StepVerdict::Fatal(LinkerError::BuildManifestRead { node: 4 })
    );
    // A vanished package directory is a sequencing bug of the caller and is
    // fatal whether or not the node is optional.
    assert_eq!(
        script_step(4, true, ScriptOutcome::PackageDirMissing),
        StepVerdict::Fatal(LinkerError::PackageDirVanished { node: 4 })
    );
    assert_eq!(
        script_step(4, false, ScriptOutcome::PackageDirMissing),
        StepVerdict::Fatal(LinkerError::PackageDirVanished { node: 4 })
    );
}

/// root -> a (optional, broken postinstall), root -> b (valid install
/// script declaring one binary "b").
fn optional_failure_graph() -> Graph {
    Graph {
        nodes: vec![
            node("root", "1.0.0", false, vec![], vec![1, 2]),
            node("a", "1.0.0", true, vec![], vec![]),
            node("b", "1.0.0", false, vec![("b", "cli.js")], vec![]),
        ],
        root: 0,
    }
}

#[test]
fn rebuild_succeeds_despite_optional_script_failure() {
    let g = optional_failure_graph();
    let mut lk = Linker::hoisted(opts("/r"));
    let mut disk = DiskTree::new();
    assert_eq!(lk.extract(&g, &mut disk), 2);

    // preinstall: neither package declares one.
    let pre = lk.run_scripts(&g, &vec![ScriptOutcome::NoScript, ScriptOutcome::NoScript]);
    assert_eq!(pre, Ok(()));

    // The binary "b" is linked.
    let plan = lk.link_bins(&g);
    assert_eq!(plan.len(), 1);
    assert_eq!(plan[0].target, "/r/node_modules/.bin/b");

    // install: b's script succeeds.
    let install = lk.run_scripts(&g, &vec![ScriptOutcome::NoScript, ScriptOutcome::Success]);
    assert_eq!(install, Ok(()));

    // postinstall: a's script exits non-zero, but a is optional.
    let post = lk.run_scripts(&g, &vec![ScriptOutcome::ExitFailure, ScriptOutcome::NoScript]);
    assert_eq!(post, Ok(()));

    assert_eq!(rebuild_verdict(false, pre, Ok(()), install, post), Ok(()));
}

#[test]
fn rebuild_fails_on_required_script_failure() {
    let g = optional_failure_graph();
    let mut lk = Linker::hoisted(opts("/r"));
    let mut disk = DiskTree::new();
    lk.extract(&g, &mut disk);

    // b (node 2, required) fails its install script.
    let install = lk.run_scripts(&g, &vec![ScriptOutcome::NoScript, ScriptOutcome::ExitFailure]);
    assert_eq!(install, Err(LinkerError::ScriptExit { node: 2 }));
    assert_eq!(
        rebuild_verdict(false, Ok(()), Ok(()), install, Ok(())),
        Err(LinkerError::ScriptExit { node: 2 })
    );
}

#[test]
fn run_event_reports_first_fatal_error() {
    let g = sample_graph();
    let pending = vec![1, 2];
    let outcomes = vec![ScriptOutcome::SpawnFailed, ScriptOutcome::ExitFailure];
    assert_eq!(
        run_event(&g, &pending, &outcomes),
        Err(LinkerError::ScriptSpawn { node: 1 })
    );
}

#[test]
fn run_scripts_null_always_succeeds() {
    let g = sample_graph();
    let lk = Linker::null();
    assert_eq!(lk.run_scripts(&g, &vec![]), Ok(()));
}

#[test]
fn phase_sequence_with_scripts() {
    assert_eq!(first_phase(false), Phase::Preinstall);
    assert_eq!(next_phase(Phase::Preinstall, true, false), Some(Phase::LinkBins));
    assert_eq!(next_phase(Phase::LinkBins, true, false), Some(Phase::Install));
    assert_eq!(next_phase(Phase::Install, true, false), Some(Phase::Postinstall));
    assert_eq!(next_phase(Phase::Postinstall, true, false), None);
}

#[test]
fn phase_sequence_without_scripts() {
    assert_eq!(first_phase(true), Phase::LinkBins);
    assert_eq!(next_phase(Phase::LinkBins, true, true), None);
}

#[test]
fn failed_phase_stops_the_rebuild() {
    assert_eq!(next_phase(Phase::Preinstall, false, false), None);
    assert_eq!(next_phase(Phase::LinkBins, false, false), None);
    assert_eq!(next_phase(Phase::Install, false, false), None);
}

#[test]
fn rebuild_verdict_ignores_script_results_when_asked() {
    let fail = Err(LinkerError::ScriptExit { node: 1 });
    assert_eq!(rebuild_verdict(true, fail, Ok(()), fail, fail), Ok(()));
    assert_eq!(
        rebuild_verdict(true, Ok(()), Err(LinkerError::BinLink { node: 2 }), Ok(()), Ok(())),
        Err(LinkerError::BinLink { node: 2 })
    );
}

#[test]
fn rebuild_verdict_reports_first_failing_phase() {
    let pre = Err(LinkerError::ScriptExit { node: 1 });
    let post = Err(LinkerError::ScriptExit { node: 2 });
    assert_eq!(rebuild_verdict(false, pre, Ok(()), Ok(()), post), pre);
    assert_eq!(rebuild_verdict(false, Ok(()), Ok(()), Ok(()), post), post);
}

#[test]
fn package_id_same_as_and_duplicate() {
    let a1 = PackageId { name: String::from("a"), version: String::from("1.0.0") };
    let a2 = PackageId { name: String::from("a"), version: String::from("2.0.0") };
    let b = PackageId { name: String::from("b"), version: String::from("1.0.0") };
    assert!(a1.same_as(&a1.duplicate()));
    assert!(!a1.same_as(&a2));
    assert!(!a1.same_as(&b));
}

#[test]
fn disk_tree_membership() {
    let mut disk = DiskTree::new();
    let d = String::from("/r/node_modules/a");
    assert!(!disk.contains_dir(&d));
    disk.add_dir(d.clone());
    assert!(disk.contains_dir(&d));
    assert!(!disk.contains_dir(&String::from("/r/node_modules/b")));
}

#[test]
fn linker_package_dir_dispatch() {
    let g = sample_graph();
    let hoisted = Linker::hoisted(opts("/r"));
    let isolated = Linker::isolated(opts("/r"));
    let null = Linker::null();
    assert_eq!(hoisted.package_dir(&g, 1), Some(String::from("/r/node_modules/a")));
    assert_eq!(
        isolated.package_dir(&g, 1),
        Some(String::from("/r/node_modules/.store/a@1.0.0"))
    );
    assert_eq!(null.package_dir(&g, 1), None);
}

#[test]
fn isolated_dep_links_cover_exactly_declared_dependencies() {
    let g = sample_graph();
    let root = String::from("/r");
    // The root reaches a@1 and b through links in its own tree.
    let links = node_linker::layout::isolated_dep_links(&g, &root, 0);
    assert_eq!(links.len(), 2);
    assert_eq!(links[0].at, "/r/node_modules/a");
    assert_eq!(links[0].to, "/r/node_modules/.store/a@1.0.0");
    assert_eq!(links[1].at, "/r/node_modules/b");
    assert_eq!(links[1].to, "/r/node_modules/.store/b@1.0.0");
    // b reaches only its own declared dependency a@2, through its own tree.
    let links = node_linker::layout::isolated_dep_links(&g, &root, 2);
    assert_eq!(links.len(), 1);
    assert_eq!(links[0].at, "/r/node_modules/.store/b@1.0.0/node_modules/a");
    assert_eq!(links[0].to, "/r/node_modules/.store/a@2.0.0");
    // a@1 declares no dependencies: its view holds nothing.
    assert!(node_linker::layout::isolated_dep_links(&g, &root, 1).is_empty());
}

#[test]
fn placement_fold_swallows_optional_failures() {
    // Node 1 is optional in this graph.
    let g = optional_failure_graph();
    let placed = vec![1, 2];
    let ok = fold_placements(
        &g,
        &placed,
        &vec![PlacementOutcome::Failed, PlacementOutcome::Placed],
    );
    assert_eq!(ok, Ok(()));
    // A required node that cannot be placed fails the phase, named.
    let err = fold_placements(
        &g,
        &placed,
        &vec![PlacementOutcome::Placed, PlacementOutcome::Failed],
    );
    assert_eq!(err, Err(LinkerError::Placement { node: 2 }));
}

#[test]
fn placement_fold_reports_first_required_failure() {
    let g = sample_graph();
    let placed = vec![1, 2, 3];
    let err = fold_placements(
        &g,
        &placed,
        &vec![PlacementOutcome::Failed, PlacementOutcome::Failed, PlacementOutcome::Placed],
    );
    assert_eq!(err, Err(LinkerError::Placement { node: 1 }));
}

#[test]
fn bin_link_fold_never_ignores_a_failure() {
    let g = optional_failure_graph();
    let plan = bin_link_plan(Strategy::Hoisted, &g, &String::from("/r"));
    assert_eq!(plan.len(), 1);
    assert_eq!(fold_bin_links(&plan, &vec![BinLinkOutcome::Linked]), Ok(()));
    // Even though b's owner could be optional in some graph, a failed bin
    // link is never downgraded: it aborts with the owning node named.
    assert_eq!(
        fold_bin_links(&plan, &vec![BinLinkOutcome::Failed]),
        Err(LinkerError::BinLink { node: 2 })
    );
}

#[test]
fn event_succeeds_despite_optional_manifest_failure() {
    // An optional node whose manifest cannot be read is swallowed; the
    // event still succeeds for everyone else.
    let g = optional_failure_graph();
    let pending = vec![1, 2];
    assert_eq!(
        run_event(&g, &pending, &vec![ScriptOutcome::ManifestUnreadable, ScriptOutcome::Success]),
        Ok(())
    );
    // The same failure on the required node 2 aborts the event.
    assert_eq!(
        run_event(&g, &pending, &vec![ScriptOutcome::NoScript, ScriptOutcome::ManifestUnreadable]),
        Err(LinkerError::BuildManifestRead { node: 2 })
    );
    // A vanished directory is fatal even for the optional node 1.
    assert_eq!(
        run_event(&g, &pending, &vec![ScriptOutcome::PackageDirMissing, ScriptOutcome::Success]),
        Err(LinkerError::PackageDirVanished { node: 1 })
    );
}
