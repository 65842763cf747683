//! What a caller configures, and the order in which an engine is put together.

use aion::clock::TimeSpan;
use aion::content_hash::ContentHash;
use aion::engine::builder::{
    package_load_failed, BuildPhase, BuildRun, EngineBuilder, VisibilityChoice,
    WorkflowPackageSource,
};
use aion::engine::delegated::{
    DeferredEventPublisher, DeferredQueryService, EventFilter, SignalDeliveryConfig,
};
use aion::engine::seams::{EventStreaming, PublisherSeam, QuerySeam, SignalSeam};
use aion::error::EngineError;
use aion::event::WorkflowStatus;
use aion::ids::{RunId, WorkflowId};
use aion::registry::{Residency, WorkflowHandle};

fn configured() -> EngineBuilder {
    EngineBuilder::new().store().in_memory_visibility()
}

fn begin(builder: EngineBuilder) -> BuildRun {
    match builder.build() {
        Ok(run) => run,
        Err(error) => panic!("the configuration is complete: {error:?}"),
    }
}

/// Drives a construction whose every step succeeds, and lists the steps.
fn steps(mut run: BuildRun) -> Vec<BuildPhase> {
    let mut seen = Vec::new();
    loop {
        match run.phase {
            BuildPhase::Built | BuildPhase::Failed(_) => return seen,
            _ => {}
        }
        let next = run.advance(Ok(()));
        seen.push(match &next.phase {
            BuildPhase::StartRuntime => BuildPhase::StartRuntime,
            BuildPhase::InstallNatives => BuildPhase::InstallNatives,
            BuildPhase::ReloadPackages => BuildPhase::ReloadPackages,
            BuildPhase::LoadSource => BuildPhase::LoadSource,
            BuildPhase::InstallBridges => BuildPhase::InstallBridges,
            BuildPhase::AssembleSeams => BuildPhase::AssembleSeams,
            BuildPhase::InstallSignalBridge => BuildPhase::InstallSignalBridge,
            BuildPhase::InstallChildBridge => BuildPhase::InstallChildBridge,
            BuildPhase::RecoverWorkflows => BuildPhase::RecoverWorkflows,
            BuildPhase::RecoverTimers => BuildPhase::RecoverTimers,
            BuildPhase::SpawnReconciliation => BuildPhase::SpawnReconciliation,
            BuildPhase::CatchUpCoordinator => BuildPhase::CatchUpCoordinator,
            BuildPhase::RecoverSchedules => BuildPhase::RecoverSchedules,
            BuildPhase::Built => BuildPhase::Built,
            other => panic!("unexpected phase {other:?}"),
        });
        run = next;
    }
}

#[test]
fn query_timeout_is_only_set_by_caller() {
    assert_eq!(EngineBuilder::new().configured_query_timeout(), None);
    assert_eq!(
        EngineBuilder::new().query_timeout(TimeSpan::from_secs(3)).configured_query_timeout(),
        Some(TimeSpan::from_secs(3))
    );
}

#[test]
fn scheduler_threads_are_only_set_by_caller() {
    assert_eq!(EngineBuilder::new().scheduler_thread_count(), None);
    assert_eq!(EngineBuilder::new().scheduler_threads(4).scheduler_thread_count(), Some(4));
}

#[test]
fn visibility_reconciliation_interval_is_only_set_by_caller() {
    let interval = TimeSpan::from_millis(250);
    assert_eq!(EngineBuilder::new().configured_visibility_reconciliation_interval(), None);
    assert_eq!(
        EngineBuilder::new()
            .visibility_reconciliation_interval(interval)
            .configured_visibility_reconciliation_interval(),
        Some(interval)
    );
}

#[test]
fn build_without_store_returns_missing_store() {
    assert!(matches!(EngineBuilder::new().build(), Err(EngineError::MissingStore)));
    assert!(matches!(EngineBuilder::default().build(), Err(EngineError::MissingStore)));
}

#[test]
fn build_without_visibility_store_returns_missing_visibility_store() {
    let run = begin(EngineBuilder::new().store());
    assert_eq!(run.phase, BuildPhase::WrapStore);
    assert_eq!(
        run.advance(Ok(())).phase,
        BuildPhase::Failed(EngineError::MissingVisibilityStore)
    );
}

#[test]
fn in_memory_visibility_allows_build_without_visibility_store() {
    assert_eq!(steps(begin(configured())).last(), Some(&BuildPhase::Built));
    let supplied = EngineBuilder::new().store().visibility_store();
    assert_eq!(supplied.visibility_store, VisibilityChoice::Supplied);
    assert_eq!(steps(begin(supplied)).last(), Some(&BuildPhase::Built));
}

#[test]
fn event_streaming_conflicts_with_explicit_event_publisher() {
    let result = configured().event_publisher().event_streaming(8).build();
    assert!(matches!(result, Err(EngineError::ConflictingEventPublisher)));
    let run = begin(configured().event_streaming(8));
    assert_eq!(run.streaming, EventStreaming::Publishing { capacity: 8 });
    assert_eq!(run.seams.publisher, PublisherSeam::Broadcast);
    let run = begin(configured().event_publisher());
    assert_eq!(run.streaming, EventStreaming::Plain);
    assert_eq!(run.seams.publisher, PublisherSeam::Configured);
}

#[test]
fn without_event_streaming_subscriptions_stay_on_deferred_empty_stream() {
    let run = begin(configured());
    assert_eq!(run.seams.publisher, PublisherSeam::Configured);
    assert!(DeferredEventPublisher.subscribe(EventFilter::default()).is_empty());
}

#[test]
fn query_timeout_installs_the_concrete_query_seam() {
    let timeout = TimeSpan::from_millis(250);
    let run = begin(configured().query_timeout(timeout));
    assert_eq!(run.seams.query, QuerySeam::Concrete { timeout });
    let run = begin(configured().query_timeout(timeout).query_service());
    assert_eq!(run.seams.query, QuerySeam::Configured);
}

#[test]
fn without_query_timeout_the_query_seam_stays_deferred() {
    let run = begin(configured());
    assert_eq!(run.seams.query, QuerySeam::Configured);
    let target = WorkflowHandle {
        workflow_id: WorkflowId::new(1),
        run_id: RunId::new(2),
        pid: 3,
        workflow_type: String::from("checkout"),
        namespace: String::from("default"),
        loaded_version: ContentHash::from_bytes([2; 32]),
        cached_status: WorkflowStatus::Running,
        residency: Residency::Resident,
    };
    let result = DeferredQueryService.query(&target, String::from("state"));
    assert!(matches!(
        result,
        Err(EngineError::Runtime { reason }) if reason.contains("not configured")
    ));
}

#[test]
fn a_signal_router_drops_a_configured_factory() {
    let run = begin(configured().signal_router_factory());
    assert_eq!(run.seams.signal, SignalSeam::Factory);
    let run = begin(configured().signal_router_factory().signal_router());
    assert_eq!(run.seams.signal, SignalSeam::Configured);
}

#[test]
fn an_engine_is_built_in_order() {
    let builder = configured()
        .load_workflows(WorkflowPackageSource::Path(String::from("a.aion")))
        .load_workflow_sources(vec![WorkflowPackageSource::Path(String::from("b.aion"))])
        .visibility_reconciliation_interval(TimeSpan::from_secs(5));
    assert_eq!(
        steps(begin(builder)),
        vec![
            BuildPhase::StartRuntime,
            BuildPhase::InstallNatives,
            BuildPhase::ReloadPackages,
            BuildPhase::LoadSource,
            BuildPhase::LoadSource,
            BuildPhase::InstallBridges,
            BuildPhase::AssembleSeams,
            BuildPhase::InstallSignalBridge,
            BuildPhase::InstallChildBridge,
            BuildPhase::RecoverWorkflows,
            BuildPhase::RecoverTimers,
            BuildPhase::SpawnReconciliation,
            BuildPhase::CatchUpCoordinator,
            BuildPhase::RecoverSchedules,
            BuildPhase::Built,
        ]
    );
    let plain = steps(begin(configured()));
    assert!(!plain.contains(&BuildPhase::SpawnReconciliation));
    assert!(!plain.contains(&BuildPhase::LoadSource));
    assert!(plain.contains(&BuildPhase::ReloadPackages), "stored packages always come back");
}

#[test]
fn a_failing_step_ends_the_construction() {
    let run = begin(configured()).advance(Ok(())).advance(Err(EngineError::NifRegistration {
        reason: String::from("host:zero/0"),
    }));
    assert_eq!(
        run.phase,
        BuildPhase::Failed(EngineError::NifRegistration { reason: String::from("host:zero/0") })
    );
    assert_eq!(
        run.advance(Ok(())).phase,
        BuildPhase::Failed(EngineError::NifRegistration { reason: String::from("host:zero/0") })
    );
}

#[test]
fn a_package_path_is_named_in_its_load_failure() {
    assert_eq!(
        package_load_failed("counter.aion", "no such file"),
        EngineError::Load {
            reason: String::from("failed to load workflow package `counter.aion`: no such file"),
        }
    );
}

#[test]
fn a_delivery_policy_is_kept() {
    let policy = SignalDeliveryConfig {
        ready_timeout: TimeSpan::from_millis(10),
        initial_backoff: TimeSpan::from_millis(1),
        max_backoff: TimeSpan::from_millis(5),
        max_enqueue_attempts: 3,
    };
    assert_eq!(EngineBuilder::new().signal_delivery, None);
    assert_eq!(EngineBuilder::new().signal_delivery(policy).signal_delivery, Some(policy));
}
