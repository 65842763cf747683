//! Reopen validation, activity selection, and timer rearming.

use aion::clock::Timestamp;
use aion::content_hash::ContentHash;
use aion::error::EngineError;
use aion::event::{
    ActivityError, ContentType, Event, EventEnvelope, PackageVersion, Payload, TimerCancelCause,
    WorkflowError, WorkflowStatus,
};
use aion::ids::{ActivityId, RunId, TimerId, WorkflowId};
use aion::lifecycle::reopen::{
    late_fire_failed, rearm_failed, rearmable_timers, reopen, reopened_failed_activities,
    respawned_handle, respawned_process, started_workflow_type, timer_service_unavailable,
    validate_and_compute_reopened, ActiveWorkflowRecovery, RearmTimer, RespawnPhase,
    RespawnedProcess, RespawnRun,
};
use aion::registry::{Registry, Residency, WorkflowHandle};

const NAME: &str = "workflow 00000000-0000-0000-0000-000000000001 run 00000000-0000-0000-0000-000000000001";

fn wf() -> WorkflowId {
    WorkflowId::new(1)
}

fn run() -> RunId {
    RunId::new(1)
}

fn now() -> Timestamp {
    Timestamp { secs: 1_700_000_000, nanos: 0 }
}

fn envelope(seq: u64) -> EventEnvelope {
    EventEnvelope { seq, recorded_at: now(), workflow_id: wf() }
}

fn payload() -> Payload {
    Payload::new(ContentType::Json, b"null".to_vec())
}

fn started() -> Event {
    Event::WorkflowStarted {
        envelope: envelope(1),
        workflow_type: String::from("stacked_dev"),
        input: payload(),
        run_id: run(),
        parent_run_id: None,
        package_version: PackageVersion::new("a".repeat(64)),
    }
}

fn scheduled(seq: u64, ordinal: u64) -> Event {
    Event::ActivityScheduled {
        envelope: envelope(seq),
        activity_id: ActivityId::from_sequence_position(ordinal),
        activity_type: String::from("dev_review"),
        input: payload(),
        task_queue: String::from("default"),
        node: None,
    }
}

fn activity_failed(seq: u64, ordinal: u64) -> Event {
    Event::ActivityFailed {
        envelope: envelope(seq),
        activity_id: ActivityId::from_sequence_position(ordinal),
        error: ActivityError { terminal: true, message: String::from("boom"), details: None },
        attempt: 1,
    }
}

fn workflow_failed(seq: u64) -> Event {
    Event::WorkflowFailed {
        envelope: envelope(seq),
        error: WorkflowError { message: String::from("failed"), details: None },
    }
}

#[test]
fn failed_run_computes_the_terminally_failed_step() -> Result<(), EngineError> {
    let segment = vec![started(), scheduled(2, 0), activity_failed(3, 0), workflow_failed(4)];
    let reopened = validate_and_compute_reopened(&wf(), &run(), &segment)?;
    assert_eq!(reopened, vec![ActivityId::from_sequence_position(0)]);
    Ok(())
}

#[test]
fn in_flight_activity_is_never_reopened() -> Result<(), EngineError> {
    let segment = vec![
        started(),
        scheduled(2, 0),
        activity_failed(3, 0),
        scheduled(4, 1),
        workflow_failed(5),
    ];
    let reopened = validate_and_compute_reopened(&wf(), &run(), &segment)?;
    assert_eq!(
        reopened,
        vec![ActivityId::from_sequence_position(0)],
        "only the terminally-failed step is reopened; the in-flight sibling is not"
    );
    Ok(())
}

#[test]
fn failed_then_succeeded_step_is_not_reopened() {
    let segment = vec![
        started(),
        scheduled(2, 0),
        activity_failed(3, 0),
        Event::ActivityCompleted {
            envelope: envelope(4),
            activity_id: ActivityId::from_sequence_position(0),
            result: payload(),
            attempt: 2,
        },
        workflow_failed(5),
    ];
    assert!(
        reopened_failed_activities(&segment).is_empty(),
        "a step that recovered before the failure is not re-driven"
    );
}

#[test]
fn concurrent_fan_out_reopens_every_failed_key() {
    let segment = vec![
        started(),
        scheduled(2, 0),
        scheduled(3, 1),
        activity_failed(4, 0),
        activity_failed(5, 1),
        workflow_failed(6),
    ];
    assert_eq!(
        reopened_failed_activities(&segment),
        vec![ActivityId::from_sequence_position(0), ActivityId::from_sequence_position(1)]
    );
}

#[test]
fn reopened_activities_stand_in_ascending_order_once() {
    let segment = vec![
        started(),
        activity_failed(2, 7),
        activity_failed(3, 2),
        activity_failed(4, 7),
        activity_failed(5, 4),
        Event::ActivityCancelled {
            envelope: envelope(6),
            activity_id: ActivityId::from_sequence_position(4),
        },
        workflow_failed(7),
    ];
    assert_eq!(
        reopened_failed_activities(&segment),
        vec![ActivityId::from_sequence_position(2), ActivityId::from_sequence_position(7)]
    );
}

#[test]
fn cancelled_run_reopens_with_an_empty_set() -> Result<(), EngineError> {
    let segment = vec![
        started(),
        scheduled(2, 0),
        Event::WorkflowCancelled { envelope: envelope(3), reason: String::from("operator stop") },
    ];
    let reopened = validate_and_compute_reopened(&wf(), &run(), &segment)?;
    assert!(reopened.is_empty(), "a cancel records no terminal activity failure to re-drive");
    Ok(())
}

#[test]
fn completed_run_is_rejected_as_invalid_state() {
    let segment =
        vec![started(), Event::WorkflowCompleted { envelope: envelope(2), result: payload() }];
    assert_eq!(
        validate_and_compute_reopened(&wf(), &run(), &segment),
        Err(EngineError::InvalidState {
            reason: format!(
                "{NAME} is terminal for a non-reopenable reason (Completed); only Failed and Cancelled are reopenable"
            ),
        })
    );
}

#[test]
fn timed_out_run_is_rejected_as_invalid_state() {
    let segment = vec![
        started(),
        Event::WorkflowTimedOut { envelope: envelope(2), timeout: String::from("execution") },
    ];
    assert!(matches!(
        validate_and_compute_reopened(&wf(), &run(), &segment),
        Err(EngineError::InvalidState { .. })
    ));
}

#[test]
fn running_run_is_rejected_as_invalid_state() {
    let segment = vec![started(), scheduled(2, 0)];
    assert_eq!(
        validate_and_compute_reopened(&wf(), &run(), &segment),
        Err(EngineError::InvalidState {
            reason: format!("{NAME} is Running, not a reopenable terminal (Failed or Cancelled)"),
        })
    );
}

fn timer_started(seq: u64, timer_id: &TimerId, fire_at_offset: i64) -> Event {
    Event::TimerStarted {
        envelope: envelope(seq),
        timer_id: timer_id.clone(),
        fire_at: Timestamp { secs: now().secs + fire_at_offset, nanos: 0 },
    }
}

fn timer_cancelled(seq: u64, timer_id: &TimerId, cause: TimerCancelCause) -> Event {
    Event::TimerCancelled { envelope: envelope(seq), timer_id: timer_id.clone(), cause }
}

fn workflow_cancelled(seq: u64) -> Event {
    Event::WorkflowCancelled { envelope: envelope(seq), reason: String::from("operator stop") }
}

#[test]
fn teardown_cancelled_timer_is_rearmed_with_a_restart_marker() {
    let named = TimerId::anonymous(1);
    let segment = vec![
        started(),
        timer_started(2, &named, 3600),
        timer_cancelled(3, &named, TimerCancelCause::CancelTeardown),
        workflow_cancelled(4),
    ];
    let rearm = rearmable_timers(&segment);
    assert_eq!(rearm.len(), 1);
    assert_eq!(rearm[0].timer_id, named);
    assert!(
        rearm[0].needs_restart_marker,
        "a teardown-cancelled timer needs a fresh TimerStarted to be live again"
    );
}

#[test]
fn workflow_intent_cancellation_is_never_resurrected() {
    let named = TimerId::anonymous(1);
    let segment = vec![
        started(),
        timer_started(2, &named, 3600),
        timer_cancelled(3, &named, TimerCancelCause::WorkflowIntent),
        workflow_cancelled(4),
    ];
    assert!(
        rearmable_timers(&segment).is_empty(),
        "a timer the workflow retired is a settled business fact"
    );
}

#[test]
fn fired_timer_is_not_rearmed() {
    let named = TimerId::anonymous(1);
    let segment = vec![
        started(),
        timer_started(2, &named, -5),
        Event::TimerFired { envelope: envelope(3), timer_id: named.clone() },
        workflow_cancelled(4),
    ];
    assert!(rearmable_timers(&segment).is_empty());
}

#[test]
fn outstanding_timer_rearms_without_touching_history() {
    let named = TimerId::anonymous(1);
    let segment = vec![started(), timer_started(2, &named, 3600), workflow_failed(3)];
    let rearm = rearmable_timers(&segment);
    assert_eq!(rearm.len(), 1);
    assert!(
        !rearm[0].needs_restart_marker,
        "an outstanding timer must not gain a duplicate TimerStarted"
    );
}

#[test]
fn rearm_keeps_the_original_fire_at_and_covers_multiple_timers() {
    let deadline = TimerId::anonymous(1);
    let scope = TimerId::anonymous(2);
    let expected_deadline = Timestamp { secs: now().secs + 120, nanos: 7 };
    let segment = vec![
        started(),
        Event::TimerStarted {
            envelope: envelope(2),
            timer_id: deadline.clone(),
            fire_at: expected_deadline,
        },
        timer_started(3, &scope, 120),
        timer_cancelled(4, &deadline, TimerCancelCause::CancelTeardown),
        timer_cancelled(5, &scope, TimerCancelCause::CancelTeardown),
        workflow_cancelled(6),
    ];
    let rearm = rearmable_timers(&segment);
    assert_eq!(rearm.len(), 2, "both teardown-cancelled timers re-arm");
    let recovered =
        rearm.iter().find(|timer| timer.timer_id == deadline).map(|timer| timer.fire_at);
    assert_eq!(recovered, Some(expected_deadline), "reopen never moves a business deadline");
}

#[test]
fn a_reopened_run_that_reterminated_reopens_from_the_new_failure() {
    let segment = vec![
        started(),
        scheduled(2, 0),
        activity_failed(3, 0),
        workflow_failed(4),
        Event::WorkflowReopened {
            envelope: envelope(5),
            run_id: run(),
            reopened: vec![ActivityId::from_sequence_position(0)],
        },
        scheduled(6, 1),
        activity_failed(7, 1),
        workflow_failed(8),
    ];
    let reopened = validate_and_compute_reopened(&wf(), &run(), &segment);
    assert!(
        matches!(
            reopened.as_deref(),
            Ok([id]) if *id == ActivityId::from_sequence_position(1)
        ),
        "only the current lease's failed step is reopened, not the superseded one: {reopened:?}"
    );
}

fn handle(status: WorkflowStatus) -> WorkflowHandle {
    WorkflowHandle {
        workflow_id: wf(),
        run_id: run(),
        pid: 5,
        workflow_type: String::from("stacked_dev"),
        namespace: String::from("default"),
        loaded_version: ContentHash::from_bytes([1; 32]),
        cached_status: status,
        residency: Residency::Suspended,
    }
}

#[test]
fn a_reopen_is_decided_by_history_and_then_by_the_handle() -> Result<(), EngineError> {
    let history = vec![
        started(),
        timer_started(2, &TimerId::anonymous(1), 60),
        activity_failed(3, 4),
        workflow_failed(4),
    ];
    let plan = reopen(&history, None, &wf(), &run())?;
    assert_eq!(plan.reopened, vec![ActivityId::from_sequence_position(4)]);
    assert_eq!(plan.rearm.len(), 1);
    assert!(!plan.remove_leftover);
    let plan = reopen(&history, Some(&handle(WorkflowStatus::Failed)), &wf(), &run())?;
    assert!(plan.remove_leftover);
    assert_eq!(
        reopen(&history, Some(&handle(WorkflowStatus::Running)), &wf(), &run()),
        Err(EngineError::InvalidState {
            reason: format!("{NAME} was already reopened and is Running (concurrent reopen)"),
        })
    );
    assert!(matches!(
        reopen(&history, None, &wf(), &RunId::new(2)),
        Err(EngineError::WorkflowNotFound { .. })
    ));
    assert!(matches!(
        reopen(&[], None, &wf(), &run()),
        Err(EngineError::WorkflowNotFound { .. })
    ));
    Ok(())
}

fn timer(number: u64, offset: i64, needs_restart_marker: bool) -> RearmTimer {
    RearmTimer {
        timer_id: TimerId::anonymous(number),
        fire_at: Timestamp { secs: now().secs + offset, nanos: 0 },
        needs_restart_marker,
    }
}

#[test]
fn a_run_comes_back_with_its_timers_in_order() {
    let run = RespawnRun::new(
        vec![timer(0, 60, false), timer(1, -60, true), timer(2, 60, true)],
        true,
        Timestamp { secs: 0, nanos: 0 },
    );
    let mut phases = Vec::new();
    let mut run = run;
    loop {
        phases.push(match &run.phase {
            RespawnPhase::RecordMarker => "marker".to_owned(),
            RespawnPhase::RestartTimer { timer } => format!("restart {timer}"),
            RespawnPhase::ReleaseHold => "release".to_owned(),
            RespawnPhase::Respawn => "respawn".to_owned(),
            RespawnPhase::AwaitPark => "park".to_owned(),
            RespawnPhase::Schedule { timer } => format!("schedule {timer}"),
            RespawnPhase::Persist { timer } => format!("persist {timer}"),
            RespawnPhase::Fire { timer } => format!("fire {timer}"),
            RespawnPhase::Respawned => "back".to_owned(),
            RespawnPhase::Failed(error) => panic!("nothing failed: {error:?}"),
        });
        if run.phase == RespawnPhase::Respawned {
            break;
        }
        run = run.advance(Ok(()), now());
    }
    assert_eq!(
        phases,
        vec![
            "marker",
            "restart 1",
            "restart 2",
            "release",
            "respawn",
            "park",
            "schedule 0",
            "persist 1",
            "fire 1",
            "schedule 2",
            "back",
        ]
    );
}

#[test]
fn a_run_without_timers_is_back_once_it_is_respawned() {
    let run = RespawnRun::new(Vec::new(), false, now());
    let run = run.advance(Ok(()), now());
    assert_eq!(run.phase, RespawnPhase::Respawn);
    assert_eq!(run.advance(Ok(()), now()).phase, RespawnPhase::Respawned);
    let refused = RespawnRun::new(Vec::new(), false, now()).advance(Err(EngineError::ShuttingDown), now());
    assert_eq!(refused.phase, RespawnPhase::Failed(EngineError::ShuttingDown));
}

#[test]
fn a_respawn_needs_a_start_and_no_coordinator() -> Result<(), EngineError> {
    assert_eq!(started_workflow_type(&wf(), &[started()])?, "stacked_dev");
    assert_eq!(
        started_workflow_type(&wf(), &[]),
        Err(EngineError::Load {
            reason: String::from(
                "workflow 00000000-0000-0000-0000-000000000001 has no WorkflowStarted event to reopen from"
            ),
        })
    );
    let version = ContentHash::from_bytes([2; 32]);
    assert_eq!(
        respawned_process(
            &wf(),
            &run(),
            ActiveWorkflowRecovery::Resident { run_id: run(), loaded_version: version, pid: 8 }
        )?,
        RespawnedProcess { run_id: run(), loaded_version: version, pid: 8 }
    );
    assert_eq!(
        respawned_process(
            &wf(),
            &run(),
            ActiveWorkflowRecovery::ScheduleCoordinator { run_id: run() }
        ),
        Err(EngineError::InvalidState {
            reason: format!("{NAME} is the schedule coordinator, not reopenable"),
        })
    );
    let mut registry = Registry::new();
    assert_eq!(
        respawned_handle(&registry, &wf(), &run()),
        Err(EngineError::Runtime { reason: format!("reopened {NAME} was not registered") })
    );
    registry.insert(handle(WorkflowStatus::Running));
    assert_eq!(respawned_handle(&registry, &wf(), &run())?.pid, 5);
    Ok(())
}

#[test]
fn rearm_failures_name_the_timer_and_the_workflow() {
    let id = "00000000-0000-0000-0000-000000000001";
    assert_eq!(
        timer_service_unavailable(&wf(), "gone"),
        EngineError::Runtime {
            reason: format!("timer service unavailable while reopening {id}: gone"),
        }
    );
    assert_eq!(
        rearm_failed(&wf(), "nap", "full"),
        EngineError::Runtime {
            reason: format!("failed to re-arm timer nap for reopened workflow {id}: full"),
        }
    );
    assert_eq!(
        late_fire_failed(&wf(), "nap", "full"),
        EngineError::Runtime {
            reason: format!("failed to fire past-due timer nap for reopened workflow {id}: full"),
        }
    );
}
