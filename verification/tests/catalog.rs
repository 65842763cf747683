//! Loading, routing, pinning, listing and unloading of package versions.

use aion::clock::{TimeSpan, Timestamp};
use aion::content_hash::ContentHash;
use aion::engine::reload::{
    modules_to_unregister, settle_unload, unload_workflow_version, unregister_failure,
    unregister_unloaded_modules, UnloadCheck, UnloadPhase, UnloadReply,
};
use aion::error::{EngineError, PinHolder, StoreError};
use aion::event::{
    ContentType, Event, EventEnvelope, PackageVersion, Payload, TerminalOutcome, WorkflowStatus,
};
use aion::ids::{RunId, WorkflowId};
use aion::lifecycle::continue_as_new::{
    admit_continue_as_new, continued_outcome, replacement_start, ContinueAsNewRequest,
    ContinuePhase,
};
use aion::lifecycle::start::resolve_start;
use aion::loader::catalog::catalog_load::{
    entry_not_exported, package_renames, LoadStart, LoadStep, PackageLoad,
};
use aion::loader::catalog::WorkflowCatalog;
use aion::loader::load::{LoadOutcome, StagedLoad};
use aion::loader::persistence::{
    persist_deployed_package, reload_persisted_package, restore_persisted_routes, DeployPhase,
    PackageRecord, PackageRoute, ReloadDecision, ReloadPhase, ReloadReply, ReloadRun,
};
use aion::loader::{package_version_of, parse_package_version};
use aion::package::{
    deployed_name, BeamModule, Manifest, ManifestDigest, ManifestVersion, Package, WorkflowEntry,
};
use aion::registry::{Registry, Residency, WorkflowHandle};

fn hash(byte: u8) -> ContentHash {
    ContentHash::from_bytes([byte; 32])
}

fn at(secs: i64) -> Timestamp {
    Timestamp { secs, nanos: 0 }
}

fn beam(name: &str, bytes: Vec<u8>) -> BeamModule {
    BeamModule { name: name.to_owned(), bytes }
}

fn manifest(entry_module: &str) -> Manifest {
    Manifest {
        entry_module: entry_module.to_owned(),
        entry_function: "run".to_owned(),
        timeout: Some(TimeSpan::from_secs(30)),
        version: ManifestVersion { text: String::from("placeholder") },
        additional_workflows: Vec::new(),
    }
}

fn package(entry_module: &str, version: u8) -> Package {
    Package {
        manifest: manifest(entry_module),
        beams: vec![
            beam("workflow/support", vec![4, 5, 6]),
            beam(entry_module, vec![1, 2, version]),
        ],
        content_hash: hash(version),
        commits_to_timeouts: false,
    }
}

fn multi_entry_package() -> Package {
    Package {
        manifest: Manifest {
            entry_module: "aion_fixture_workflow".to_owned(),
            entry_function: "complete".to_owned(),
            timeout: Some(TimeSpan::from_secs(30)),
            version: ManifestVersion { text: String::from("placeholder") },
            additional_workflows: vec![WorkflowEntry {
                workflow_type: "awl_distribute_items_0".to_owned(),
                entry_module: "aion_fixture_workflow".to_owned(),
                entry_function: "child_complete".to_owned(),
                timeout: Some(TimeSpan::from_secs(10)),
            }],
        },
        beams: vec![beam("aion_fixture_workflow", vec![7, 7, 7])],
        content_hash: hash(9),
        commits_to_timeouts: false,
    }
}

fn digest(text: &str) -> Result<ManifestDigest, String> {
    Ok(ManifestDigest { text: text.to_owned() })
}

/// What a load did to the runtime.
#[derive(Default)]
struct Trace {
    registered: Vec<String>,
    rolled_back: Vec<String>,
    verified: Vec<(String, String)>,
}

/// Drives a load with a runtime that answers as given.
fn load_with(
    catalog: &mut WorkflowCatalog,
    package: &Package,
    digest: Result<ManifestDigest, String>,
    publish_routes: bool,
    trace: &mut Trace,
    register: impl Fn(&str) -> Result<(), EngineError>,
    verify: impl Fn(&str, &str) -> Result<(), EngineError>,
) -> Result<LoadOutcome, EngineError> {
    let staged = StagedLoad::new(package, digest)?;
    let mut load: PackageLoad = match catalog.begin_load(&staged, publish_routes)? {
        LoadStart::Resident(outcome) => return Ok(outcome),
        LoadStart::Stage(load) => load,
    };
    loop {
        let reply = match load.step(&staged) {
            LoadStep::Register { module } => {
                let name = staged.modules[module].deployed_name.clone();
                trace.registered.push(name.clone());
                register(&name)
            }
            LoadStep::Verify { entry } => {
                let workflow = &staged.workflows[entry];
                let module = workflow.deployed_entry_module.clone();
                let function = workflow.entry_function.clone();
                trace.verified.push((module.clone(), function.clone()));
                verify(&module, &function)
            }
            LoadStep::RollBack { module } => {
                trace.rolled_back.push(staged.modules[module].deployed_name.clone());
                Ok(())
            }
            LoadStep::Commit => {
                let loaded_at = at(1_700_000_000 + catalog.workflows().len() as i64);
                return Ok(catalog.commit_load(&staged, load, publish_routes, loaded_at));
            }
            LoadStep::Refuse => return Err(load.into_error()),
        };
        load = load.advance(&staged, reply);
    }
}

fn load_plain(
    catalog: &mut WorkflowCatalog,
    package: &Package,
) -> Result<LoadOutcome, EngineError> {
    load_with(catalog, package, digest("d"), true, &mut Trace::default(), |_| Ok(()), |_, _| Ok(()))
}

fn load_counting(
    catalog: &mut WorkflowCatalog,
    package: &Package,
    trace: &mut Trace,
) -> Result<LoadOutcome, EngineError> {
    load_with(catalog, package, digest("d"), true, trace, |_| Ok(()), |_, _| Ok(()))
}

fn routed_version_of(catalog: &WorkflowCatalog, workflow_type: &str) -> Option<ContentHash> {
    catalog.routed(workflow_type).map(|workflow| *workflow.version())
}

#[test]
fn registers_every_package_derived_deployed_module() -> Result<(), EngineError> {
    let package = package("workflow/order", 3);
    let mut catalog = WorkflowCatalog::new();
    let mut trace = Trace::default();
    let outcome = load_counting(&mut catalog, &package, &mut trace)?;
    assert!(outcome.freshly_loaded, "first load must be fresh");
    assert!(outcome.route_changed, "first load must take the route");
    assert_eq!(
        trace.registered,
        vec![
            deployed_name("workflow/support", &hash(3)),
            deployed_name("workflow/order", &hash(3)),
        ]
    );
    for name in &trace.registered {
        assert!(catalog.has_registered_module(name));
    }
    assert_eq!(outcome.record.workflow_type(), "workflow/order");
    Ok(())
}

#[test]
fn records_deployed_entry_function_and_routes_to_it() -> Result<(), EngineError> {
    let package = package("workflow/order", 3);
    let mut catalog = WorkflowCatalog::new();
    let record = load_plain(&mut catalog, &package)?.record;
    assert_eq!(record.workflow_type(), "workflow/order");
    assert_eq!(record.deployed_entry_module(), deployed_name("workflow/order", &hash(3)));
    assert_eq!(record.entry_function(), "run");
    assert_eq!(record.version(), &hash(3));
    assert_eq!(record.declared_timeout(), None);
    assert_eq!(catalog.routed("workflow/order").as_ref(), Some(&record));
    assert_eq!(catalog.get("workflow/order", &hash(3)), Some(record));
    assert_eq!(
        catalog.routed_version("workflow/order"),
        Some(PackageVersion::new("03".repeat(32)))
    );
    Ok(())
}

#[test]
fn retains_two_versions_and_routes_to_the_last_loaded() -> Result<(), EngineError> {
    let mut catalog = WorkflowCatalog::new();
    let first = load_plain(&mut catalog, &package("workflow/order", 3))?.record;
    let second = load_plain(&mut catalog, &package("workflow/order", 4))?.record;
    assert_ne!(first.deployed_entry_module(), second.deployed_entry_module());
    assert!(catalog.has_registered_module(first.deployed_entry_module()));
    assert!(catalog.has_registered_module(second.deployed_entry_module()));
    assert_eq!(catalog.get("workflow/order", &hash(3)), Some(first));
    assert_eq!(catalog.get("workflow/order", &hash(4)).as_ref(), Some(&second));
    assert_eq!(catalog.workflows().len(), 2);
    assert_eq!(catalog.routed("workflow/order"), Some(second));
    Ok(())
}

#[test]
fn identical_reload_is_idempotent_and_reload_re_routes() -> Result<(), EngineError> {
    let first = package("workflow/order", 3);
    let second = package("workflow/order", 4);
    let mut catalog = WorkflowCatalog::new();
    let mut trace = Trace::default();
    let first_outcome = load_counting(&mut catalog, &first, &mut trace)?;
    assert!(first_outcome.freshly_loaded);
    assert!(first_outcome.route_changed);
    let after_first = trace.registered.len();
    let again = load_counting(&mut catalog, &first, &mut trace)?;
    assert_eq!(first_outcome.record, again.record);
    assert!(!again.freshly_loaded, "re-load must report idempotence");
    assert!(!again.route_changed, "re-loading the route-active hash is a full no-op");
    assert_eq!(trace.registered.len(), after_first, "re-load must register nothing");
    assert_eq!(catalog.workflows().len(), 1);

    load_counting(&mut catalog, &second, &mut trace)?;
    assert_eq!(routed_version_of(&catalog, "workflow/order"), Some(hash(4)));
    let before = trace.registered.len();
    let re_deployed = load_counting(&mut catalog, &first, &mut trace)?;
    assert_eq!(re_deployed.record, first_outcome.record);
    assert!(!re_deployed.freshly_loaded, "re-deploy of a resident hash registers nothing");
    assert!(re_deployed.route_changed, "re-deploying a rolled-back hash must re-point the route");
    assert_eq!(trace.registered.len(), before);
    assert_eq!(routed_version_of(&catalog, "workflow/order"), Some(hash(3)));
    Ok(())
}

#[test]
fn missing_entry_module_returns_load_error() {
    let mut missing = package("workflow/order", 3);
    missing.manifest.entry_module = String::from("workflow/missing");
    let mut catalog = WorkflowCatalog::new();
    let result = load_plain(&mut catalog, &missing);
    assert!(
        matches!(&result, Err(EngineError::Load { reason }) if reason.contains("workflow/missing")),
        "missing entry should fail with EngineError::Load"
    );
    assert_eq!(catalog.workflows().len(), 0);
    assert!(!catalog.has_registered_module(&deployed_name("workflow/missing", &hash(3))));
}

#[test]
fn collision_from_different_hash_fails_before_registration() -> Result<(), EngineError> {
    let first = package("workflow/order", 3);
    let colliding = deployed_name("workflow/order", &hash(3));
    let mut catalog = WorkflowCatalog::new();
    catalog.note_registered_module(&colliding, hash(4))?;
    let mut trace = Trace::default();
    let result = load_counting(&mut catalog, &first, &mut trace);
    let expected_hash = hash(3).text();
    assert!(
        matches!(&result, Err(EngineError::Load { reason })
            if reason.contains(&colliding) && reason.contains(&expected_hash)),
        "different hash collision should fail with EngineError::Load: {result:?}"
    );
    assert!(trace.registered.is_empty());
    assert_eq!(catalog.workflows().len(), 0);
    Ok(())
}

#[test]
fn runtime_failure_does_not_commit_catalog_state() {
    let package = package("workflow/order", 3);
    let mut catalog = WorkflowCatalog::new();
    let result = load_with(
        &mut catalog,
        &package,
        digest("d"),
        true,
        &mut Trace::default(),
        |_| Err(EngineError::Runtime { reason: "boom".to_owned() }),
        |_, _| Ok(()),
    );
    assert!(
        matches!(&result, Err(EngineError::Load { reason }) if reason.contains("boom")),
        "runtime failure should fail load with EngineError::Load"
    );
    assert_eq!(catalog.workflows().len(), 0);
    assert_eq!(catalog.routed("workflow/order"), None);
    for module in ["workflow/support", "workflow/order"] {
        assert!(!catalog.has_registered_module(&deployed_name(module, &hash(3))));
    }
}

#[test]
fn entry_verification_failure_rolls_back_every_registration() {
    let package = package("workflow/order", 3);
    let mut catalog = WorkflowCatalog::new();
    let mut trace = Trace::default();
    let result = load_with(
        &mut catalog,
        &package,
        digest("d"),
        true,
        &mut trace,
        |_| Ok(()),
        |entry, function| Err(entry_not_exported(entry, function)),
    );
    assert!(
        matches!(&result, Err(EngineError::Load { reason })
            if reason.contains("entry verification failed") && reason.contains("does not export")),
        "entry verification must fail the load: {result:?}"
    );
    assert_eq!(
        trace.rolled_back,
        vec![
            deployed_name("workflow/order", &hash(3)),
            deployed_name("workflow/support", &hash(3)),
        ]
    );
    assert_eq!(catalog.workflows().len(), 0);
    assert_eq!(catalog.routed("workflow/order"), None);
}

#[test]
fn start_pins_are_held_until_dropped() -> Result<(), EngineError> {
    let mut catalog = WorkflowCatalog::new();
    let version = *load_plain(&mut catalog, &package("workflow/order", 3))?.record.version();
    assert!(!catalog.has_pinned_starts("workflow/order", &version));
    let Some(routed) = catalog.resolve_routed("workflow/order") else {
        panic!("routed resolution missing");
    };
    let Some(exact) = catalog.resolve_exact("workflow/order", &version) else {
        panic!("exact resolution missing");
    };
    assert_eq!(routed.workflow(), exact.workflow());
    assert!(catalog.has_pinned_starts("workflow/order", &version));
    catalog.release(routed);
    assert!(
        catalog.has_pinned_starts("workflow/order", &version),
        "the second pin must keep the version pinned"
    );
    catalog.release(exact);
    assert!(!catalog.has_pinned_starts("workflow/order", &version));
    Ok(())
}

#[test]
fn versions_listing_reports_route_flags_sorted() -> Result<(), EngineError> {
    let mut catalog = WorkflowCatalog::new();
    load_plain(&mut catalog, &package("workflow/order", 3))?;
    load_plain(&mut catalog, &package("workflow/order", 4))?;
    let versions = catalog.versions();
    assert_eq!(versions.len(), 2);
    assert!(versions.iter().all(|info| info.workflow_type == "workflow/order"));
    assert_eq!(versions.iter().filter(|info| info.route_active).count(), 1);
    let Some(routed) = versions.iter().find(|info| info.route_active) else {
        panic!("no route-active version");
    };
    assert_eq!(routed.content_hash, hash(4));
    assert_eq!(versions[0].content_hash, hash(3));
    Ok(())
}

#[test]
fn route_version_re_points_and_rejects_unknown_hashes() -> Result<(), EngineError> {
    let mut catalog = WorkflowCatalog::new();
    let first = load_plain(&mut catalog, &package("workflow/order", 3))?.record;
    load_plain(&mut catalog, &package("workflow/order", 4))?;
    catalog.route_version("workflow/order", &hash(3))?;
    assert_eq!(catalog.routed("workflow/order"), Some(first));
    let unknown = hash(7);
    let result = catalog.route_version("workflow/order", &unknown);
    assert!(
        matches!(&result, Err(EngineError::UnknownVersion { workflow_type, version, loaded })
            if workflow_type == "workflow/order"
                && version == &unknown
                && loaded.contains(&hash(3).text())),
        "unknown route target must fail typed naming the loaded set: {result:?}"
    );
    Ok(())
}

#[test]
fn swap_out_refuses_routed_package_and_restore_round_trips() -> Result<(), EngineError> {
    let mut catalog = WorkflowCatalog::new();
    let first = load_plain(&mut catalog, &package("workflow/order", 3))?.record;
    load_plain(&mut catalog, &package("workflow/order", 4))?;
    let routed = catalog.swap_out_package("workflow/order", &hash(4));
    assert!(
        matches!(&routed, Err(EngineError::RouteActive { workflow_type, version })
            if workflow_type == "workflow/order" && version == &hash(4)),
        "swapping out the routed version must be refused: {routed:?}"
    );
    let removed = catalog.swap_out_package("workflow/order", &hash(3))?;
    assert_eq!(catalog.get("workflow/order", &hash(3)), None);
    assert!(!catalog.has_registered_module(first.deployed_entry_module()));
    catalog.restore_package(removed);
    assert!(catalog.has_registered_module(first.deployed_entry_module()));
    assert_eq!(catalog.get("workflow/order", &hash(3)), Some(first));
    Ok(())
}

#[test]
fn same_hash_different_manifest_reload_is_refused_typed() -> Result<(), EngineError> {
    let original = package("workflow/order", 3);
    let mut diverged = package("workflow/order", 3);
    diverged.manifest.entry_function = "start".to_owned();
    let mut catalog = WorkflowCatalog::new();
    let resident = load_plain(&mut catalog, &original)?;
    let result = load_with(
        &mut catalog,
        &diverged,
        digest("other"),
        true,
        &mut Trace::default(),
        |_| Ok(()),
        |_, _| Ok(()),
    );
    assert!(
        matches!(&result, Err(EngineError::ManifestMismatch { workflow_type, version, .. })
            if workflow_type == "workflow/order" && version == &hash(3)),
        "diverged-manifest re-load must be refused typed: {result:?}"
    );
    assert_eq!(catalog.workflows().len(), 1);
    assert_eq!(catalog.routed("workflow/order"), Some(resident.record));
    assert!(!load_plain(&mut catalog, &original)?.freshly_loaded);
    Ok(())
}

#[test]
fn multi_entry_package_registers_and_routes_atomically() -> Result<(), EngineError> {
    let package = multi_entry_package();
    let mut catalog = WorkflowCatalog::new();
    let mut trace = Trace::default();
    load_counting(&mut catalog, &package, &mut trace)?;
    let Some(parent) = catalog.get("aion_fixture_workflow", &hash(9)) else {
        panic!("parent entry was not registered");
    };
    let Some(child) = catalog.get("awl_distribute_items_0", &hash(9)) else {
        panic!("child entry was not registered");
    };
    assert_eq!(parent.version(), child.version());
    assert_eq!(parent.deployed_entry_module(), child.deployed_entry_module());
    assert_eq!(child.entry_function(), "child_complete");
    assert_eq!(trace.verified.len(), 2);
    assert!(catalog.routed("aion_fixture_workflow").is_some());
    assert!(catalog.routed("awl_distribute_items_0").is_some());
    Ok(())
}

#[test]
fn secondary_entry_verification_failure_commits_no_routes() {
    let package = multi_entry_package();
    let mut catalog = WorkflowCatalog::new();
    let result = load_with(
        &mut catalog,
        &package,
        digest("d"),
        true,
        &mut Trace::default(),
        |_| Ok(()),
        |_, function| {
            if function == "child_complete" {
                Err(EngineError::Load { reason: "missing child".to_owned() })
            } else {
                Ok(())
            }
        },
    );
    assert!(result.is_err());
    assert!(catalog.workflows().is_empty());
}

#[test]
fn swapping_out_one_member_removes_and_restores_the_whole_archive_group(
) -> Result<(), EngineError> {
    let package = multi_entry_package();
    let mut catalog = WorkflowCatalog::new();
    load_with(
        &mut catalog,
        &package,
        digest("d"),
        false,
        &mut Trace::default(),
        |_| Ok(()),
        |_, _| Ok(()),
    )?;
    let removed = catalog.swap_out_package("aion_fixture_workflow", &hash(9))?;
    assert_eq!(removed.entries.len(), 2);
    assert!(catalog.get("aion_fixture_workflow", &hash(9)).is_none());
    assert!(catalog.get("awl_distribute_items_0", &hash(9)).is_none());
    assert_eq!(catalog.versions().len(), 0);
    catalog.restore_package(removed);
    assert_eq!(catalog.versions().len(), 2);
    assert!(catalog.get("awl_distribute_items_0", &hash(9)).is_some());
    Ok(())
}

#[test]
fn staged_group_is_not_resolvable_until_durable_publication() -> Result<(), EngineError> {
    let package = multi_entry_package();
    let mut catalog = WorkflowCatalog::new();
    let outcome = load_with(
        &mut catalog,
        &package,
        digest("d"),
        false,
        &mut Trace::default(),
        |_| Ok(()),
        |_, _| Ok(()),
    )?;
    assert!(outcome.freshly_loaded);
    assert!(catalog.routed("aion_fixture_workflow").is_none());
    assert!(catalog.routed("awl_distribute_items_0").is_none());
    assert!(
        catalog.resolve_routed("aion_fixture_workflow").is_none(),
        "a racing start must not resolve a staged, not-yet-durable hash"
    );
    catalog.publish_package_routes("aion_fixture_workflow", &hash(9))?;
    assert_eq!(routed_version_of(&catalog, "aion_fixture_workflow"), Some(hash(9)));
    assert_eq!(routed_version_of(&catalog, "awl_distribute_items_0"), Some(hash(9)));
    assert!(catalog.publish_package_routes("aion_fixture_workflow", &hash(1)).is_err());
    Ok(())
}

fn timed_package(primary: u64, additional: u64, explicit: bool) -> Package {
    Package {
        manifest: Manifest {
            entry_module: "workflow/order".to_owned(),
            entry_function: "run".to_owned(),
            timeout: Some(TimeSpan::from_secs(primary)),
            version: ManifestVersion { text: String::from("unstamped") },
            additional_workflows: vec![WorkflowEntry {
                workflow_type: "order_child".to_owned(),
                entry_module: "workflow/order".to_owned(),
                entry_function: "order_child_run".to_owned(),
                timeout: Some(TimeSpan::from_secs(additional)),
            }],
        },
        beams: vec![beam("workflow/order", vec![1, 2, 3])],
        content_hash: hash(if explicit { 2 } else { 1 }),
        commits_to_timeouts: explicit,
    }
}

#[test]
fn legacy_identity_with_additional_timeout_arms_no_entry() {
    let package = timed_package(3_600, 3_600, false);
    assert!(!package.has_declared_timeout());
    assert_eq!(package.declared_timeout(), None);
    assert_eq!(
        package.declared_entry_timeout(Some(TimeSpan::from_secs(3_600))),
        None,
        "an additional entry under a legacy identity is unarmed"
    );
}

#[test]
fn per_entry_identity_authenticates_primary_and_additional() -> Result<(), EngineError> {
    let package = timed_package(60, 30, true);
    assert!(package.has_declared_timeout());
    assert_eq!(package.declared_timeout(), Some(TimeSpan::from_secs(60)));
    assert_eq!(
        package.declared_entry_timeout(Some(TimeSpan::from_secs(30))),
        Some(TimeSpan::from_secs(30)),
        "an authenticated additional entry arms its own value"
    );
    let mut catalog = WorkflowCatalog::new();
    load_plain(&mut catalog, &package)?;
    let timeout_of = |name: &str| catalog.get(name, &hash(2)).and_then(|w| w.declared_timeout());
    assert_eq!(timeout_of("workflow/order"), Some(TimeSpan::from_secs(60)));
    assert_eq!(timeout_of("order_child"), Some(TimeSpan::from_secs(30)));
    Ok(())
}

#[test]
fn timeout_only_redeploy_loads_as_a_new_version() -> Result<(), EngineError> {
    let mut original = timed_package(3_600, 1, false);
    let mut edited = timed_package(7_200, 1, true);
    original.manifest.additional_workflows.clear();
    edited.manifest.additional_workflows.clear();
    assert_eq!(original.beams, edited.beams);
    assert_ne!(original.content_hash, edited.content_hash);
    let mut catalog = WorkflowCatalog::new();
    assert!(load_plain(&mut catalog, &original)?.freshly_loaded);
    assert!(load_plain(&mut catalog, &edited)?.freshly_loaded);
    assert_eq!(catalog.workflows().len(), 2);
    assert_eq!(routed_version_of(&catalog, "workflow/order"), Some(edited.content_hash));
    Ok(())
}

#[test]
fn an_unusable_digest_refuses_the_package() {
    let mut catalog = WorkflowCatalog::new();
    let result = load_with(
        &mut catalog,
        &package("workflow/order", 3),
        Err(String::from("not canonical")),
        true,
        &mut Trace::default(),
        |_| Ok(()),
        |_, _| Ok(()),
    );
    assert!(matches!(result, Err(EngineError::Package { .. })));
}

#[test]
fn native_modules_are_not_renamed() {
    let package = package("workflow/order", 3);
    let natives = vec![String::from("workflow/support")];
    assert_eq!(
        package_renames(&package, &natives),
        vec![(String::from("workflow/order"), deployed_name("workflow/order", &hash(3)))]
    );
}

#[test]
fn a_start_resolves_and_pins_its_version() -> Result<(), EngineError> {
    let mut catalog = WorkflowCatalog::new();
    load_plain(&mut catalog, &package("workflow/order", 3))?;
    load_plain(&mut catalog, &package("workflow/order", 4))?;
    let routed = resolve_start(&mut catalog, "workflow/order", &None)?;
    assert_eq!(routed.workflow().version(), &hash(4));
    let exact = resolve_start(&mut catalog, "workflow/order", &Some(hash(3)))?;
    assert_eq!(exact.workflow().version(), &hash(3));
    assert!(catalog.has_pinned_starts("workflow/order", &hash(3)));
    assert_eq!(
        resolve_start(&mut catalog, "workflow/unknown", &None).err(),
        Some(EngineError::WorkflowNotFound { workflow_type: String::from("workflow/unknown") })
    );
    Ok(())
}

#[test]
fn versions_read_back_from_their_durable_form() -> Result<(), EngineError> {
    let version = package_version_of(&hash(0xab));
    assert_eq!(version.text, "ab".repeat(32));
    assert_eq!(parse_package_version("workflow/order", &version)?, hash(0xab));
    let malformed = PackageVersion::new("AB".repeat(32));
    let result = parse_package_version("workflow/order", &malformed);
    assert!(matches!(&result, Err(EngineError::Load { reason })
        if reason.contains("workflow/order") && reason.contains(&malformed.text)));
    Ok(())
}

fn handle(status: WorkflowStatus) -> WorkflowHandle {
    WorkflowHandle {
        workflow_id: WorkflowId::new(1),
        run_id: RunId::new(2),
        pid: 3,
        workflow_type: String::from("workflow/order"),
        namespace: String::from("default"),
        loaded_version: hash(3),
        cached_status: status,
        residency: Residency::Resident,
    }
}

fn pinned_by(result: Result<impl Sized, EngineError>) -> Option<PinHolder> {
    match result {
        Err(EngineError::VersionPinned { pinned_by, .. }) => Some(pinned_by),
        _ => None,
    }
}

#[test]
fn a_pinned_version_is_put_back_untouched() -> Result<(), EngineError> {
    let mut catalog = WorkflowCatalog::new();
    load_plain(&mut catalog, &package("workflow/order", 3))?;
    load_plain(&mut catalog, &package("workflow/order", 4))?;
    let mut registry = Registry::new();
    let unload = |catalog: &mut WorkflowCatalog, registry: &Registry| {
        unload_workflow_version(catalog, registry, "workflow/order", &hash(3))
    };
    let Some(pin) = catalog.resolve_exact("workflow/order", &hash(3)) else {
        panic!("the version is loaded");
    };
    assert_eq!(pinned_by(unload(&mut catalog, &registry)), Some(PinHolder::InFlightStart));
    assert!(catalog.is_loaded("workflow/order", &hash(3)));
    catalog.release(pin);
    registry.insert(handle(WorkflowStatus::Running));
    assert_eq!(
        pinned_by(unload(&mut catalog, &registry)),
        Some(PinHolder::LiveRun { workflow_id: WorkflowId::new(1), run_id: RunId::new(2) })
    );
    assert!(catalog.is_loaded("workflow/order", &hash(3)));
    assert!(catalog.has_registered_module(&deployed_name("workflow/order", &hash(3))));
    registry.insert(handle(WorkflowStatus::Completed));
    let removed = unload(&mut catalog, &registry)?;
    assert_eq!(removed.version, hash(3));
    assert!(!catalog.is_loaded("workflow/order", &hash(3)));
    assert!(matches!(
        unload(&mut catalog, &registry),
        Err(EngineError::UnknownVersion { .. })
    ));
    assert!(matches!(
        unload_workflow_version(&mut catalog, &registry, "workflow/order", &hash(4)),
        Err(EngineError::RouteActive { .. })
    ));
    Ok(())
}

fn envelope() -> EventEnvelope {
    EventEnvelope { seq: 1, recorded_at: at(0), workflow_id: WorkflowId::new(50) }
}

fn started(version: u8) -> Event {
    Event::WorkflowStarted {
        envelope: envelope(),
        workflow_type: String::from("workflow/order"),
        input: Payload::new(ContentType::Json, b"{}".to_vec()),
        run_id: RunId::new(1),
        parent_run_id: None,
        package_version: PackageVersion::new(hash(version).text()),
    }
}

fn child(id: u128, version: u8) -> Event {
    Event::ChildWorkflowStarted {
        envelope: envelope(),
        child_workflow_id: WorkflowId::new(id),
        workflow_type: String::from("workflow/order"),
        input: Payload::new(ContentType::Json, b"{}".to_vec()),
        package_version: PackageVersion::new(hash(version).text()),
    }
}

#[test]
fn recoverable_runs_and_recorded_children_pin_a_version() {
    let begin = || {
        UnloadCheck::verify_unload_unpinned(
            "workflow/order",
            &hash(3),
            Ok(vec![WorkflowId::new(50), WorkflowId::new(51)]),
        )
    };
    let check = begin().advance(UnloadReply::History(vec![started(3)]));
    let UnloadPhase::Refused(error) = check.phase else {
        panic!("the latest run is pinned to the version");
    };
    assert_eq!(
        error.message(),
        format!(
            "cannot unload workflow `workflow/order` version `{}`: {}",
            hash(3).text(),
            PinHolder::RecoverableRun { workflow_id: WorkflowId::new(50) }.message()
        )
    );

    // An earlier run on the version pins nothing once a later run is on another.
    let check = begin().advance(UnloadReply::History(vec![started(3), started(4)]));
    assert_eq!((check.next, &check.phase), (1, &UnloadPhase::Read));

    let parent = vec![started(4), child(60, 3), child(61, 4), child(62, 3)];
    let check = begin().advance(UnloadReply::History(parent));
    assert_eq!(check.phase, UnloadPhase::ReadChild);
    assert_eq!(check.children, vec![WorkflowId::new(60), WorkflowId::new(62)]);
    let check = check.advance(UnloadReply::History(vec![started(3)]));
    let check = check.advance(UnloadReply::History(Vec::new()));
    assert_eq!(
        pinned_by(match check.phase {
            UnloadPhase::Refused(error) => Err::<(), EngineError>(error),
            phase => panic!("a child that never started pins the version: {phase:?}"),
        }),
        Some(PinHolder::RecordedChild {
            child_workflow_id: WorkflowId::new(62),
            recorded_by: WorkflowId::new(50),
        })
    );
}

#[test]
fn a_version_that_nothing_pins_is_unloaded() {
    let check = UnloadCheck::verify_unload_unpinned("workflow/order", &hash(3), Ok(Vec::new()));
    assert_eq!(check.phase, UnloadPhase::Unpinned);
    let check = UnloadCheck::verify_unload_unpinned(
        "workflow/order",
        &hash(3),
        Ok(vec![WorkflowId::new(50)]),
    );
    let check = check.advance(UnloadReply::History(vec![started(4), child(60, 3)]));
    let check = check.advance(UnloadReply::History(vec![started(3)]));
    assert_eq!(check.phase, UnloadPhase::Unpinned);
    let check = UnloadCheck::verify_unload_unpinned(
        "workflow/order",
        &hash(3),
        Ok(vec![WorkflowId::new(50)]),
    );
    let check = check.advance(UnloadReply::Failed(EngineError::ShuttingDown));
    assert_eq!(check.phase, UnloadPhase::Refused(EngineError::ShuttingDown));
}

#[test]
fn a_refused_unload_puts_the_version_back() -> Result<(), EngineError> {
    let registry = Registry::new();
    let mut catalog = WorkflowCatalog::new();
    load_plain(&mut catalog, &package("workflow/order", 3))?;
    load_plain(&mut catalog, &package("workflow/order", 4))?;
    let listing = catalog.versions();
    let modules = [
        deployed_name("workflow/order", &hash(3)),
        deployed_name("workflow/support", &hash(3)),
    ];
    let unlisted = EngineError::Store(StoreError::Backend(String::from("down")));
    let checks = vec![
        UnloadCheck::verify_unload_unpinned("workflow/order", &hash(3), Err(unlisted)),
        UnloadCheck::verify_unload_unpinned(
            "workflow/order",
            &hash(3),
            Ok(vec![WorkflowId::new(50)]),
        )
        .advance(UnloadReply::History(vec![started(3)])),
    ];
    for check in checks {
        let UnloadPhase::Refused(error) = &check.phase else {
            panic!("the unload is refused");
        };
        let refusal = error.message();
        let removed =
            unload_workflow_version(&mut catalog, &registry, "workflow/order", &hash(3))?;
        assert!(!catalog.is_loaded("workflow/order", &hash(3)));
        // Starts of other versions go on meanwhile.
        let pinned = resolve_start(&mut catalog, "workflow/order", &None)?;
        let settled = settle_unload(&mut catalog, removed, check);
        assert_eq!(settled.map(|_| ()).map_err(|error| error.message()), Err(refusal));
        assert!(catalog.has_pinned_starts("workflow/order", &hash(4)));
        catalog.release(pinned);
        assert_eq!(catalog.versions(), listing);
        for name in &modules {
            assert!(catalog.has_registered_module(name));
        }
    }
    let check = UnloadCheck::verify_unload_unpinned("workflow/order", &hash(3), Ok(Vec::new()));
    let removed = unload_workflow_version(&mut catalog, &registry, "workflow/order", &hash(3))?;
    let removed = settle_unload(&mut catalog, removed, check)?;
    assert_eq!(removed.version, hash(3));
    assert_eq!(removed.modules.len(), 2);
    assert!(!catalog.is_loaded("workflow/order", &hash(3)));
    Ok(())
}

#[test]
fn unregistration_skips_host_modules_and_names_failures() {
    let names = vec![String::from("host$aa"), String::from("order$aa"), String::from("plain")];
    let natives = vec![String::from("host")];
    assert_eq!(
        modules_to_unregister(&names, &natives),
        vec![String::from("order$aa"), String::from("plain")]
    );
    assert_eq!(unregister_unloaded_modules("order", &hash(3), &Vec::new()), Ok(()));
    let failures =
        vec![unregister_failure("order$aa", "busy"), unregister_failure("plain", "gone")];
    assert_eq!(
        unregister_unloaded_modules("order", &hash(3), &failures),
        Err(EngineError::Runtime {
            reason: format!(
                "workflow `order` version `{}` was removed from the catalog but module unregistration failed for order$aa: busy, plain: gone",
                hash(3).text()
            ),
        })
    );
}

#[test]
fn stored_deploys_come_back_under_their_own_key() -> Result<(), EngineError> {
    let original = package("workflow/order", 3);
    let record = persist_deployed_package(&original, Ok(vec![1, 2]), at(5))?;
    assert_eq!(record.workflow_type, "workflow/order");
    assert_eq!(record.content_hash, hash(3).text());
    assert_eq!(record.archive, vec![1, 2]);
    assert_eq!(reload_persisted_package(&record, Some(&original)), ReloadDecision::Load);
    assert_eq!(
        reload_persisted_package(&record, Some(&package("workflow/order", 4))),
        ReloadDecision::SkipForeignArchive
    );
    assert_eq!(reload_persisted_package(&record, None), ReloadDecision::SkipInvalidArchive);
    let failed = persist_deployed_package(&original, Err(String::from("full")), at(5));
    assert!(matches!(failed, Err(EngineError::Load { reason }) if reason.ends_with("full")));
    Ok(())
}

#[test]
fn stored_routes_take_effect_where_they_name_a_loaded_version() -> Result<(), EngineError> {
    let mut catalog = WorkflowCatalog::new();
    load_plain(&mut catalog, &package("workflow/order", 3))?;
    load_plain(&mut catalog, &package("workflow/order", 4))?;
    let route = |content_hash: String| PackageRoute {
        workflow_type: String::from("workflow/order"),
        content_hash,
    };
    restore_persisted_routes(&mut catalog, &vec![route(hash(3).text())]);
    assert_eq!(routed_version_of(&catalog, "workflow/order"), Some(hash(3)));
    restore_persisted_routes(
        &mut catalog,
        &vec![route(hash(9).text()), route(String::from("garbage"))],
    );
    assert_eq!(routed_version_of(&catalog, "workflow/order"), Some(hash(3)));
    Ok(())
}

fn continuing(workflow_type: Option<&str>) -> ContinueAsNewRequest {
    ContinueAsNewRequest {
        input: Payload::new(ContentType::Json, b"\"next\"".to_vec()),
        workflow_type: workflow_type.map(String::from),
    }
}

#[test]
fn an_unregistered_run_is_named_by_its_key() {
    let (id, run) = (WorkflowId::new(1), RunId::new(2));
    let result =
        admit_continue_as_new(None, &WorkflowCatalog::new(), &id, &run, &continuing(None));
    assert_eq!(
        result,
        Err(EngineError::WorkflowNotFound {
            workflow_type: format!("{}/{}", id.text(), run.text()),
        })
    );
}

#[test]
fn a_replacement_resolves_the_version_of_its_run() -> Result<(), EngineError> {
    let mut catalog = WorkflowCatalog::new();
    load_plain(&mut catalog, &package("workflow/order", 3))?;
    load_plain(&mut catalog, &package("workflow/order", 4))?;
    let active = handle(WorkflowStatus::Running);
    let request = continuing(None);
    admit_continue_as_new(
        Some(&active),
        &catalog,
        &active.workflow_id,
        &active.run_id,
        &request,
    )?;
    let start = replacement_start(&active, &request);
    assert_eq!(start.workflow_type, "workflow/order");
    assert_eq!(start.input, request.input);
    assert_eq!(start.options.workflow_id, Some(active.workflow_id));
    assert_eq!(start.options.parent_run_id, Some(active.run_id));
    let pinned =
        resolve_start(&mut catalog, &start.workflow_type, &start.options.loaded_version)?;
    assert_eq!(
        pinned.workflow().version(),
        &hash(3),
        "replacement must use the old run's loaded version, not latest"
    );
    assert_eq!(
        continued_outcome(&active.run_id, &request),
        TerminalOutcome::ContinuedAsNew {
            input: request.input.clone(),
            workflow_type: None,
            parent_run_id: active.run_id,
        }
    );
    let mut phase = ContinuePhase::Record;
    for expected in [
        ContinuePhase::StartReplacement,
        ContinuePhase::Notify,
        ContinuePhase::Deregister,
        ContinuePhase::Continued,
    ] {
        phase = phase.advance(Ok(()));
        assert_eq!(phase, expected);
    }
    Ok(())
}

#[test]
fn a_version_that_was_unloaded_cannot_be_continued() {
    let active = handle(WorkflowStatus::Running);
    assert_eq!(
        admit_continue_as_new(
            Some(&active),
            &WorkflowCatalog::new(),
            &active.workflow_id,
            &active.run_id,
            &continuing(None),
        ),
        Err(EngineError::WorkflowNotFound { workflow_type: String::from("workflow/order") })
    );
    assert_eq!(
        ContinuePhase::StartReplacement.advance(Err(EngineError::ShuttingDown)),
        ContinuePhase::Failed(EngineError::ShuttingDown)
    );
}

#[test]
fn unexported_entry_function_fails_the_runtime_load() {
    let mut package = package("aion_fixture_workflow", 3);
    package.manifest.entry_function = String::from("not_exported");
    let mut catalog = WorkflowCatalog::new();
    let result = load_with(
        &mut catalog,
        &package,
        digest("d"),
        true,
        &mut Trace::default(),
        |_| Ok(()),
        |entry, function| Err(entry_not_exported(entry, function)),
    );
    assert!(
        matches!(&result, Err(EngineError::Load { reason }) if reason.contains("not_exported")),
        "unexported entry function must fail the load: {result:?}"
    );
    assert_eq!(catalog.workflows().len(), 0);
    assert!(!catalog
        .has_registered_module(&deployed_name("aion_fixture_workflow", &hash(3))));
}

/// Reloads stored rows, whose archives hold what is given.
fn reload(
    catalog: &mut WorkflowCatalog,
    rows: Vec<PackageRecord>,
    archives: Vec<Option<Package>>,
    routes: Vec<PackageRoute>,
) -> (ReloadRun, Vec<String>) {
    let mut archives = archives.into_iter();
    let mut rows = Some(rows);
    let mut steps = Vec::new();
    let mut run = ReloadRun::reload_persisted_packages();
    loop {
        let reply = match &run.phase {
            ReloadPhase::List => ReloadReply::Rows(rows.take().unwrap_or_default()),
            ReloadPhase::Read => ReloadReply::Archive(archives.next().flatten()),
            ReloadPhase::Load(package) => {
                steps.push(format!("load {}", package.content_hash.text()));
                ReloadReply::Loaded(load_plain(catalog, package).map(|_| ()))
            }
            ReloadPhase::RestoreRoutes => {
                steps.push(String::from("routes"));
                run = run.restore_routes(catalog, &routes);
                continue;
            }
            ReloadPhase::Reloaded | ReloadPhase::Failed(_) => return (run, steps),
        };
        run = run.advance(reply);
    }
}

fn row(version: u8) -> PackageRecord {
    PackageRecord {
        workflow_type: String::from("workflow/order"),
        content_hash: hash(version).text(),
        archive: vec![version],
        deployed_at: at(i64::from(version)),
    }
}

#[test]
fn one_bad_row_stops_no_other_and_routes_come_last() -> Result<(), EngineError> {
    let mut catalog = WorkflowCatalog::new();
    let mut entryless = package("workflow/order", 4);
    entryless.beams.retain(|beam| beam.name != "workflow/order");
    let rows = vec![row(1), row(2), row(3), row(4), row(5)];
    let archives = vec![
        None,
        Some(package("workflow/order", 9)),
        Some(package("workflow/order", 3)),
        Some(entryless),
        Some(package("workflow/order", 5)),
    ];
    let routes = vec![PackageRoute {
        workflow_type: String::from("workflow/order"),
        content_hash: hash(3).text(),
    }];
    let (run, steps) = reload(&mut catalog, rows, archives, routes);
    assert_eq!(run.phase, ReloadPhase::Reloaded);
    assert_eq!(
        steps,
        vec![
            format!("load {}", hash(3).text()),
            format!("load {}", hash(4).text()),
            format!("load {}", hash(5).text()),
            String::from("routes"),
        ]
    );
    assert!(catalog.is_loaded("workflow/order", &hash(3)));
    assert!(!catalog.is_loaded("workflow/order", &hash(4)));
    assert!(catalog.is_loaded("workflow/order", &hash(5)));
    assert_eq!(
        routed_version_of(&catalog, "workflow/order"),
        Some(hash(3)),
        "a stored rollback overrides the last deploy"
    );
    // An explicit source, loaded after the reload, takes the route over.
    load_plain(&mut catalog, &package("workflow/order", 6))?;
    assert_eq!(routed_version_of(&catalog, "workflow/order"), Some(hash(6)));
    Ok(())
}

#[test]
fn a_reload_fails_only_with_its_listings() {
    let down = || EngineError::Store(StoreError::Backend(String::from("down")));
    let run = ReloadRun::reload_persisted_packages().advance(ReloadReply::Failed(down()));
    assert_eq!(run.phase, ReloadPhase::Failed(down()));
    let run = ReloadRun::reload_persisted_packages().advance(ReloadReply::Rows(vec![row(3)]));
    assert_eq!(run.phase, ReloadPhase::Read);
    let mut catalog = WorkflowCatalog::new();
    let run = run.restore_routes(&mut catalog, &Vec::new());
    assert_eq!(run.phase, ReloadPhase::Read, "routes wait for the last row");
    let run = run
        .advance(ReloadReply::Archive(Some(package("workflow/order", 3))))
        .advance(ReloadReply::Loaded(Err(down())));
    assert_eq!(run.phase, ReloadPhase::RestoreRoutes);
    assert_eq!(run.advance(ReloadReply::Failed(down())).phase, ReloadPhase::Failed(down()));
}

#[test]
fn a_deploy_is_stored_before_it_is_published() {
    let down = || EngineError::Store(StoreError::Backend(String::from("down")));
    let stored = DeployPhase::Stage.advance(Ok(true));
    assert_eq!(stored, DeployPhase::Store { fresh: true });
    assert_eq!(stored.advance(Err(down())), DeployPhase::RollBack(down()));
    assert_eq!(DeployPhase::RollBack(down()).advance(Ok(false)), DeployPhase::Failed(down()));
    let resident = DeployPhase::Stage.advance(Ok(false));
    assert_eq!(resident.advance(Err(down())), DeployPhase::Failed(down()));
    let published = DeployPhase::Stage.advance(Ok(false)).advance(Ok(false));
    assert_eq!(published, DeployPhase::Publish);
    assert_eq!(published.advance(Ok(false)), DeployPhase::Deployed);
    assert_eq!(DeployPhase::Stage.advance(Err(down())), DeployPhase::Failed(down()));
    assert_eq!(DeployPhase::Publish.advance(Err(down())), DeployPhase::Failed(down()));
}
