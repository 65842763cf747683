//! Startup recovery and the crash-window repair sweeps.

use aion::clock::Timestamp;
use aion::content_hash::ContentHash;
use aion::engine::api_schedule::{schedule_coordinator_run_id, schedule_coordinator_workflow_id};
use aion::engine::startup::{
    coordinator_input_failed, namespace_from_history, recovered_handle,
    seed_schedule_coordinator_history, started_run_id, started_workflow_type,
    timer_recovery_failed, timer_recovery_unavailable, RecoveredResident, RecoveryPhase,
    RecoveryRun, RegistrationPhase, RegistrationRun, RepopulatePhase, RepopulateReply,
    RepopulateRun,
};
use aion::engine::startup_sweeps::{
    child_start, is_orphaned_terminal_deadline, recorded_children, successor_start, sweep_horizon,
    ChildSweep, ChildSweepPhase, DeadlineSweep, DeadlineSweepPhase, DeadlineSweepReply,
    SuccessorSweep, SuccessorSweepPhase, SweepReply, SweepScope, TimerRow,
};
use aion::error::{DurabilityError, EngineError, StoreError};
use aion::event::{
    ContentType, Event, EventEnvelope, PackageVersion, Payload, SearchAttribute,
    SearchAttributeValue, TimerCancelCause, WorkflowError, WorkflowStatus,
};
use aion::ids::{deadline_timer_id, RunId, TimerId, WorkflowId};
use aion::lifecycle::pause::PausedRuns;
use aion::lifecycle::reopen::ActiveWorkflowRecovery;
use aion::registry::Residency;
use aion::time::outstanding_deadline_timer;

fn id() -> WorkflowId {
    WorkflowId::new(41)
}

fn now() -> Timestamp {
    Timestamp { secs: 1_700_000_000, nanos: 0 }
}

fn envelope(seq: u64) -> EventEnvelope {
    EventEnvelope { seq, recorded_at: now(), workflow_id: id() }
}

fn payload(label: &str) -> Payload {
    Payload::new(ContentType::Json, label.as_bytes().to_vec())
}

fn started(seq: u64, run: u128, parent: Option<u128>) -> Event {
    Event::WorkflowStarted {
        envelope: envelope(seq),
        workflow_type: String::from("checkout"),
        input: payload("in"),
        run_id: RunId::new(run),
        parent_run_id: parent.map(RunId::new),
        package_version: PackageVersion::new("a".repeat(64)),
    }
}

fn failed(seq: u64) -> Event {
    Event::WorkflowFailed {
        envelope: envelope(seq),
        error: WorkflowError { message: String::from("boom"), details: None },
    }
}

fn continued(seq: u64, run: u128, workflow_type: Option<&str>) -> Event {
    Event::WorkflowContinuedAsNew {
        envelope: envelope(seq),
        input: payload("next"),
        workflow_type: workflow_type.map(String::from),
        parent_run_id: RunId::new(run),
    }
}

fn deadline_started(seq: u64, run: u128) -> Event {
    Event::TimerStarted {
        envelope: envelope(seq),
        timer_id: deadline_timer_id(&RunId::new(run)),
        fire_at: now(),
    }
}

fn child(seq: u64, child: u128, version: &str) -> Event {
    Event::ChildWorkflowStarted {
        envelope: envelope(seq),
        child_workflow_id: WorkflowId::new(child),
        workflow_type: String::from("ship"),
        input: payload("child"),
        package_version: PackageVersion::new(String::from(version)),
    }
}

fn runtime(reason: &str) -> EngineError {
    EngineError::Runtime { reason: String::from(reason) }
}

#[test]
fn never_spawned_children_are_started_as_recorded() {
    let version = "0b".repeat(32);
    let history = vec![
        started(1, 1, None),
        child(2, 60, &version),
        child(3, 61, &version),
        child(4, 62, &version),
        Event::ChildWorkflowCompleted {
            envelope: envelope(5),
            child_workflow_id: WorkflowId::new(61),
            result: payload("done"),
        },
    ];
    let children = recorded_children(&history, &RunId::new(1));
    assert_eq!(
        children.iter().map(|child| child.child_workflow_id).collect::<Vec<_>>(),
        vec![WorkflowId::new(60), WorkflowId::new(62)]
    );
    let sweep = ChildSweep::sweep_recorded_children(&history, &RunId::new(1));
    assert_eq!(sweep.phase, ChildSweepPhase::Read);
    // The first child has a history: its own recovery owns it.
    let sweep = sweep.advance(SweepReply::History(vec![started(1, 9, None)]));
    assert_eq!((sweep.next, &sweep.phase), (1, &ChildSweepPhase::Read));
    let sweep = sweep.advance(SweepReply::History(Vec::new()));
    let ChildSweepPhase::Start(start) = &sweep.phase else {
        panic!("a child without a history is started");
    };
    assert_eq!(start.workflow_type, "ship");
    assert_eq!(start.input, payload("child"));
    assert_eq!(start.options.workflow_id, Some(WorkflowId::new(62)));
    assert_eq!(start.options.loaded_version, Some(ContentHash::from_bytes([0x0b; 32])));
    assert_eq!(sweep.advance(SweepReply::Started).phase, ChildSweepPhase::Swept);
}

#[test]
fn a_child_with_an_unreadable_version_fails_the_sweep() {
    let history = vec![started(1, 1, None), child(2, 60, "latest")];
    let children = recorded_children(&history, &RunId::new(1));
    assert!(matches!(child_start(&children[0], &[]), Err(EngineError::Load { .. })));
    let sweep = ChildSweep::sweep_recorded_children(&history, &RunId::new(1))
        .advance(SweepReply::History(Vec::new()));
    assert!(matches!(sweep.phase, ChildSweepPhase::Failed(EngineError::Load { .. })));
    let empty = ChildSweep::sweep_recorded_children(&[], &RunId::new(1));
    assert_eq!(empty.phase, ChildSweepPhase::Swept);
}

#[test]
fn a_lost_successor_is_started_under_the_recorded_chain() -> Result<(), EngineError> {
    let history = vec![started(1, 1, None), continued(2, 1, None)];
    let Some(start) = successor_start(&id(), &history)? else {
        panic!("the successor is missing");
    };
    assert_eq!(start.workflow_type, "checkout");
    assert_eq!(start.input, payload("next"));
    assert_eq!(start.options.workflow_id, Some(id()));
    assert_eq!(start.options.parent_run_id, Some(RunId::new(1)));
    let renamed = vec![started(1, 1, None), continued(2, 1, Some("other"))];
    assert_eq!(
        successor_start(&id(), &renamed)?.map(|start| start.workflow_type),
        Some(String::from("other"))
    );
    assert_eq!(successor_start(&id(), &[started(1, 1, None)])?, None);
    let done = vec![started(1, 1, None), continued(2, 1, None), started(3, 2, Some(1))];
    assert_eq!(successor_start(&id(), &done)?, None);
    assert_eq!(
        successor_start(&id(), &[continued(2, 1, None)]),
        Err(EngineError::Load {
            reason: String::from(
                "workflow `00000000-0000-0000-0000-000000000029` continued from run `00000000-0000-0000-0000-000000000001` but that run has no WorkflowStarted event in durable history"
            ),
        })
    );
    Ok(())
}

#[test]
fn sweep_start_race_lost_to_the_exit_monitor_is_benign() {
    let stranded = vec![started(1, 1, None), continued(2, 1, None)];
    let repaired = vec![started(1, 1, None), continued(2, 1, None), started(3, 2, Some(1))];
    let sweep = SuccessorSweep::sweep_continued_as_new_replacements(vec![id()])
        .advance(SweepReply::History(stranded));
    assert!(matches!(sweep.phase, SuccessorSweepPhase::Start { .. }));
    let sweep = sweep.advance(SweepReply::Failed(conflict()));
    let sweep = sweep.advance(SweepReply::History(repaired));
    assert_eq!(sweep.phase, SuccessorSweepPhase::Swept);
}

#[test]
fn sweep_start_failure_without_a_successor_still_fails() {
    let stranded = || vec![started(1, 1, None), continued(2, 1, None)];
    let sweep = SuccessorSweep::sweep_continued_as_new_replacements(vec![id()])
        .advance(SweepReply::History(stranded()))
        .advance(SweepReply::Failed(EngineError::WorkflowNotFound {
            workflow_type: String::from("checkout"),
        }))
        .advance(SweepReply::History(stranded()));
    assert!(matches!(
        sweep.phase,
        SuccessorSweepPhase::Failed(EngineError::WorkflowNotFound { .. })
    ));
}

#[test]
fn sweeps_over_starts_move_on_workflow_by_workflow() {
    let sweep =
        SuccessorSweep::sweep_continued_as_new_replacements(vec![id(), WorkflowId::new(42)]);
    let sweep = sweep.advance(SweepReply::History(vec![started(1, 1, None)]));
    assert_eq!((sweep.next, &sweep.phase), (1, &SuccessorSweepPhase::Read));
    let sweep = sweep.advance(SweepReply::Failed(EngineError::ShuttingDown));
    assert_eq!(sweep.phase, SuccessorSweepPhase::Failed(EngineError::ShuttingDown));
}

fn row(run: u128) -> TimerRow {
    TimerRow { workflow_id: id(), timer_id: deadline_timer_id(&RunId::new(run)) }
}

fn orphan() -> Vec<Event> {
    vec![started(1, 1, None), deadline_started(2, 1), failed(3)]
}

fn conflict() -> EngineError {
    EngineError::Durability(DurabilityError::Store(StoreError::SequenceConflict {
        reason: String::from("head moved"),
    }))
}

#[test]
fn a_lost_append_to_a_reopened_run_is_benign() {
    let mut reopened = orphan();
    reopened.push(Event::WorkflowReopened {
        envelope: envelope(4),
        run_id: RunId::new(1),
        reopened: Vec::new(),
    });
    let sweep =
        DeadlineSweep::sweep_uncancelled_terminal_deadlines(&vec![row(1)], SweepScope::Adoption)
            .advance(DeadlineSweepReply::Live(false))
            .advance(DeadlineSweepReply::History(orphan()));
    assert_eq!(sweep.phase, DeadlineSweepPhase::Retire { head: 3 });
    let sweep = sweep.advance(DeadlineSweepReply::Failed(conflict()));
    assert_eq!(sweep.phase, DeadlineSweepPhase::Reread(conflict()));
    assert!(outstanding_deadline_timer(&reopened, &RunId::new(1)).is_some());
    let sweep = sweep.advance(DeadlineSweepReply::History(reopened));
    assert_eq!(sweep.phase, DeadlineSweepPhase::Swept);
}

#[test]
fn a_retired_deadline_is_no_longer_orphaned() {
    let sweep =
        DeadlineSweep::sweep_uncancelled_terminal_deadlines(&vec![row(1)], SweepScope::Adoption)
            .advance(DeadlineSweepReply::Live(false))
            .advance(DeadlineSweepReply::History(orphan()))
            .advance(DeadlineSweepReply::Retired);
    assert_eq!(sweep.phase, DeadlineSweepPhase::Swept);
    let mut repaired = orphan();
    repaired.push(Event::TimerCancelled {
        envelope: envelope(4),
        timer_id: deadline_timer_id(&RunId::new(1)),
        cause: TimerCancelCause::CancelTeardown,
    });
    assert!(is_orphaned_terminal_deadline(&orphan(), &RunId::new(1)));
    assert!(!is_orphaned_terminal_deadline(&repaired, &RunId::new(1)));
}

#[test]
fn a_lost_append_to_a_still_orphaned_run_is_surfaced() {
    let sweep =
        DeadlineSweep::sweep_uncancelled_terminal_deadlines(&vec![row(1)], SweepScope::ColdBoot)
            .advance(DeadlineSweepReply::Live(false))
            .advance(DeadlineSweepReply::History(orphan()))
            .advance(DeadlineSweepReply::Failed(conflict()))
            .advance(DeadlineSweepReply::History(orphan()));
    assert_eq!(sweep.phase, DeadlineSweepPhase::Failed(conflict()));
    let other =
        DeadlineSweep::sweep_uncancelled_terminal_deadlines(&vec![row(1)], SweepScope::ColdBoot)
            .advance(DeadlineSweepReply::Live(false))
            .advance(DeadlineSweepReply::History(orphan()))
            .advance(DeadlineSweepReply::Failed(runtime("disk")));
    assert_eq!(other.phase, DeadlineSweepPhase::Failed(runtime("disk")));
}

#[test]
fn live_and_timed_out_deadlines_are_left_alone() {
    let timed_out = vec![
        started(1, 1, None),
        deadline_started(2, 1),
        Event::WorkflowTimedOut { envelope: envelope(3), timeout: String::from("workflow") },
    ];
    let running = vec![started(1, 1, None), deadline_started(2, 1)];
    for history in [timed_out, running] {
        assert!(!is_orphaned_terminal_deadline(&history, &RunId::new(1)));
        let sweep = DeadlineSweep::sweep_uncancelled_terminal_deadlines(
            &vec![row(1)],
            SweepScope::ColdBoot,
        )
        .advance(DeadlineSweepReply::Live(false))
        .advance(DeadlineSweepReply::History(history));
        assert_eq!(sweep.phase, DeadlineSweepPhase::Swept);
    }
}

#[test]
fn an_adoption_passes_over_live_candidates() {
    let rows = vec![
        TimerRow { workflow_id: id(), timer_id: TimerId::named("nap") },
        row(1),
        row(2),
    ];
    let sweep = DeadlineSweep::sweep_uncancelled_terminal_deadlines(&rows, SweepScope::Adoption);
    assert_eq!(sweep.candidates.len(), 2, "only deadlines are candidates");
    let sweep = sweep.advance(DeadlineSweepReply::Live(true));
    assert_eq!((sweep.next, &sweep.phase), (1, &DeadlineSweepPhase::CheckLive));
    let sweep = sweep.advance(DeadlineSweepReply::Live(false));
    assert_eq!(sweep.phase, DeadlineSweepPhase::Read);
}

#[test]
fn a_cold_boot_breach_names_the_workflow() {
    let sweep =
        DeadlineSweep::sweep_uncancelled_terminal_deadlines(&vec![row(1)], SweepScope::ColdBoot)
            .advance(DeadlineSweepReply::Live(true));
    assert_eq!(
        sweep.phase,
        DeadlineSweepPhase::Failed(runtime(
            "terminal-deadline sweep found a live registered handle for workflow 00000000-0000-0000-0000-000000000029 on cold boot, which must run before repopulation: the sweep ordering invariant is broken"
        ))
    );
}

#[test]
fn the_sweep_looks_ten_thousand_years_ahead() {
    assert_eq!(
        sweep_horizon(now()),
        Timestamp { secs: now().secs + 3_652_500 * 86_400, nanos: 0 }
    );
    let last = Timestamp { secs: 8_210_266_876_799, nanos: 5 };
    assert_eq!(sweep_horizon(last), last);
}

#[test]
fn a_recovery_goes_step_by_step() {
    let mut run = RecoveryRun::recover_active_workflows_on_startup(true);
    let mut phases = Vec::new();
    while run.phase != RecoveryPhase::Recovered {
        phases.push(format!("{:?}", run.phase));
        run = match run.phase {
            RecoveryPhase::RebuildHolds => run.rebuild_holds(&mut PausedRuns::new(), &Vec::new()),
            _ => run.advance(Ok(())),
        };
    }
    assert_eq!(run.scope, SweepScope::ColdBoot);
    assert_eq!(
        phases,
        vec![
            "SeedCoordinator",
            "RebuildHolds",
            "ReconcileVisibility",
            "SweepDeadlines",
            "Repopulate",
            "SweepSuccessors",
        ]
    );
}

#[test]
fn an_adoption_seeds_nothing_and_stops_at_a_failure() {
    let run = RecoveryRun::recover_adopted_shards();
    assert_eq!(run.phase, RecoveryPhase::RebuildHolds, "a survivor seeds nothing");
    let run = run.rebuild_holds(&mut PausedRuns::new(), &Vec::new()).advance(Ok(()));
    assert_eq!((run.scope, &run.phase), (SweepScope::Adoption, &RecoveryPhase::SweepDeadlines));
    let run = run.advance(Err(runtime("store")));
    assert_eq!(run.phase, RecoveryPhase::Failed(runtime("store")));
    assert_eq!(
        RecoveryRun::recover_active_workflows_on_startup(false).phase,
        RecoveryPhase::RebuildHolds
    );
}

#[test]
fn holds_are_rebuilt_at_startup_and_widened_at_adoption() {
    let [stale, first, second] = [1, 2, 3].map(WorkflowId::new);
    let mut held = PausedRuns::new();
    held.insert(stale);
    let run = RecoveryRun::recover_active_workflows_on_startup(false)
        .rebuild_holds(&mut held, &vec![first]);
    assert_eq!(run.phase, RecoveryPhase::ReconcileVisibility);
    assert_eq!(held.snapshot(), vec![first], "a cold boot holds what is durably paused");
    let run = run.rebuild_holds(&mut held, &vec![second]);
    assert_eq!(held.snapshot(), vec![first], "the holds are rebuilt once");
    assert_eq!(run.phase, RecoveryPhase::ReconcileVisibility);

    let run = RecoveryRun::recover_adopted_shards().rebuild_holds(&mut held, &vec![second]);
    assert_eq!(run.phase, RecoveryPhase::ReconcileVisibility);
    assert_eq!(held.snapshot(), vec![first, second], "an adoption drops no hold");

    let unlisted = RecoveryRun::recover_adopted_shards().advance(Ok(()));
    assert_eq!(unlisted.phase, RecoveryPhase::RebuildHolds, "nothing goes on without a listing");
    assert_eq!(
        unlisted.advance(Err(runtime("store"))).phase,
        RecoveryPhase::Failed(runtime("store"))
    );
}

fn namespace_update(seq: u64, attributes: Vec<SearchAttribute>) -> Event {
    Event::SearchAttributesUpdated { envelope: envelope(seq), workflow_id: id(), attributes }
}

fn attribute(name: &str, value: SearchAttributeValue) -> SearchAttribute {
    SearchAttribute { name: String::from(name), value }
}

#[test]
fn the_namespace_comes_from_the_first_attribute_that_sets_it() {
    assert_eq!(namespace_from_history(&[started(1, 1, None)]), "default");
    let text = |value: &str| SearchAttributeValue::String(String::from(value));
    let history = vec![
        started(1, 1, None),
        namespace_update(2, vec![attribute("customer", text("acme"))]),
        namespace_update(3, vec![attribute("aion.namespace", SearchAttributeValue::Int(4)),
             attribute("aion.namespace", SearchAttributeValue::Other(String::from("true")))]),
        namespace_update(4, vec![attribute("aion.namespace", text("tenant-a"))]),
        namespace_update(5, vec![attribute("aion.namespace", text("tenant-b"))]),
    ];
    assert_eq!(namespace_from_history(&history), "tenant-a");
}

#[test]
fn recovery_reads_the_first_start() -> Result<(), EngineError> {
    let history = vec![started(1, 1, None), started(3, 2, Some(1))];
    assert_eq!(started_workflow_type(&id(), &history)?, "checkout");
    assert_eq!(started_run_id(&id(), &history)?, RunId::new(1));
    let coordinator = schedule_coordinator_workflow_id();
    assert_eq!(started_workflow_type(&coordinator, &[])?, "aion.schedule_coordinator");
    assert_eq!(started_run_id(&coordinator, &[])?, schedule_coordinator_run_id());
    assert_eq!(
        started_workflow_type(&id(), &[]),
        Err(EngineError::Load {
            reason: String::from(
                "active workflow `00000000-0000-0000-0000-000000000029` has no WorkflowStarted event in durable history"
            ),
        })
    );
    assert_eq!(
        started_run_id(&id(), &[]),
        Err(EngineError::Load {
            reason: String::from(
                "active workflow `00000000-0000-0000-0000-000000000029` has no WorkflowStarted run id in durable history"
            ),
        })
    );
    Ok(())
}

#[test]
fn empty_store_builds_coordinator_history_without_registry_or_supervision() {
    let version = || PackageVersion::new("b".repeat(64));
    let Some(record) = seed_schedule_coordinator_history(&[], payload("{}"), version()) else {
        panic!("an empty history is seeded");
    };
    assert_eq!(record.workflow_type, "aion.schedule_coordinator");
    assert_eq!(record.run_id, schedule_coordinator_run_id());
    assert_eq!(record.parent_run_id, None);
    assert_eq!(record.input, payload("{}"));
    assert_eq!(record.package_version, version());
    assert_eq!(
        seed_schedule_coordinator_history(&[started(1, 1, None)], payload("{}"), version()),
        None
    );
}

#[test]
fn repopulation_passes_over_what_it_must_not_respawn() {
    let paused = vec![
        started(1, 1, None),
        Event::WorkflowPaused {
            envelope: envelope(2),
            run_id: RunId::new(1),
            reason: None,
            operator: None,
        },
    ];
    let run = RepopulateRun::new(vec![id(), id(), id(), id(), id()]);
    let run = run.advance(RepopulateReply::Live);
    assert_eq!((run.next, &run.phase), (1, &RepopulatePhase::Inspect));
    let run = run.advance(RepopulateReply::History(vec![started(1, 1, None), failed(2)]));
    assert_eq!((run.next, &run.phase), (2, &RepopulatePhase::Inspect));
    let run = run.advance(RepopulateReply::History(paused));
    assert_eq!((run.next, &run.phase), (3, &RepopulatePhase::Inspect));

    // A workflow that fails its own recovery stops no other.
    let run = run.advance(RepopulateReply::History(vec![started(1, 1, None)]));
    assert_eq!(
        run.phase,
        RepopulatePhase::Supervise { workflow_type: String::from("checkout") }
    );
    let run = run.advance(RepopulateReply::Done);
    assert_eq!(run.phase, RepopulatePhase::Recover { workflow_type: String::from("checkout") });
    let run = run.advance(RepopulateReply::Recovered(Err(runtime("version missing"))));
    assert_eq!((run.next, &run.phase), (4, &RepopulatePhase::Inspect));

    let run = run
        .advance(RepopulateReply::History(vec![started(7, 1, None)]))
        .advance(RepopulateReply::Done)
        .advance(RepopulateReply::Recovered(Ok(ActiveWorkflowRecovery::Resident {
            run_id: RunId::new(1),
            loaded_version: ContentHash::from_bytes([5; 32]),
            pid: 77,
        })));
    let RepopulatePhase::Register(resident) = &run.phase else {
        panic!("a recovered workflow is registered");
    };
    assert_eq!(resident.history_head, 7);
    assert_eq!(resident.pid, 77);
    let handle = recovered_handle(resident, &run.history);
    assert_eq!(handle.namespace, "default");
    assert_eq!(handle.cached_status, WorkflowStatus::Running);
    assert_eq!(handle.residency, Residency::Resident);
    assert_eq!(run.advance(RepopulateReply::Done).phase, RepopulatePhase::Repopulated);
}

#[test]
fn repopulation_reconciles_the_coordinator_and_stops_on_malformed_histories() {
    let coordinator = schedule_coordinator_workflow_id();
    let run = RepopulateRun::new(vec![coordinator])
        .advance(RepopulateReply::History(Vec::new()))
        .advance(RepopulateReply::Done);
    assert_eq!(
        run.phase,
        RepopulatePhase::Reconcile { run_id: schedule_coordinator_run_id() }
    );
    assert_eq!(run.advance(RepopulateReply::Done).phase, RepopulatePhase::Repopulated);
    let run = RepopulateRun::new(vec![id()]).advance(RepopulateReply::History(Vec::new()));
    assert!(matches!(run.phase, RepopulatePhase::Failed(EngineError::Load { .. })));
    assert_eq!(RepopulateRun::new(Vec::new()).phase, RepopulatePhase::Repopulated);
}

#[test]
fn a_recovered_resident_is_registered_step_by_step() {
    let resident = RecoveredResident {
        workflow_id: id(),
        workflow_type: String::from("checkout"),
        history_head: 1,
        projected_status: WorkflowStatus::Running,
        run_id: RunId::new(1),
        loaded_version: ContentHash::from_bytes([7; 32]),
        pid: 9,
    };
    assert_eq!(recovered_handle(&resident, &[started(1, 1, None)]).pid, 9);
    let mut run = RegistrationRun::new();
    for expected in [
        RegistrationPhase::Reconcile,
        RegistrationPhase::Place,
        RegistrationPhase::InstallMonitor,
        RegistrationPhase::SweepChildren,
        RegistrationPhase::Registered,
    ] {
        run = run.advance(Ok(()));
        assert_eq!(run.phase, expected);
    }
    assert!(run.monitored);
}

#[test]
fn recovered_reconcile_failure_after_publication_runs_observed_abort() {
    let run = RegistrationRun::new().advance(Ok(())).advance(Err(runtime("forced reconcile")));
    assert_eq!(run.phase, RegistrationPhase::RemoveEntry(runtime("forced reconcile")));
    let run = run.advance(Ok(()));
    assert_eq!(run.phase, RegistrationPhase::Abort(runtime("forced reconcile")));
    assert_eq!(run.advance(Ok(())).phase, RegistrationPhase::Failed(runtime("forced reconcile")));
    let run = RegistrationRun::new()
        .advance(Err(runtime("insert")))
        .advance(Err(runtime("remove")))
        .advance(Err(runtime("abort")));
    assert_eq!(run.phase, RegistrationPhase::Failed(runtime("abort")));
    assert!(run.removal_tried && run.abort_tried && !run.monitored);
}

#[test]
fn recovered_monitor_installation_failure_drains_retained_completion() {
    let run = RegistrationRun::new()
        .advance(Ok(()))
        .advance(Ok(()))
        .advance(Ok(()))
        .advance(Err(runtime("forced test failure")));
    assert_eq!(run.phase, RegistrationPhase::RemoveEntry(runtime("forced test failure")));
    let run = run.advance(Ok(()));
    assert_eq!(run.phase, RegistrationPhase::Failed(runtime("forced test failure")));
    assert!(run.removal_tried && !run.abort_tried);
}

#[test]
fn recovery_failures_are_reported_with_their_cause() {
    assert_eq!(
        timer_recovery_unavailable("gone"),
        runtime("timer recovery service unavailable: gone")
    );
    assert_eq!(timer_recovery_failed("late"), runtime("timer recovery failed: late"));
    assert_eq!(
        coordinator_input_failed("bad"),
        EngineError::Load {
            reason: String::from("failed to build schedule coordinator input payload: bad"),
        }
    );
}
