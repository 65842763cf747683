//! Durable operator pause and resume.

use aion::clock::Timestamp;
use aion::content_hash::ContentHash;
use aion::error::EngineError;
use aion::event::{
    ContentType, Event, EventEnvelope, PackageVersion, Payload, TimerCancelCause, WorkflowStatus,
};
use aion::history::status_from_events;
use aion::ids::{RunId, TimerId, WorkflowId};
use aion::lifecycle::pause::{
    check_paused, check_running, pause, resume, status_name, HoldPhase, PausedRuns, ResumeDecision,
};
use aion::registry::{Residency, WorkflowHandle};

const NAME: &str = "workflow 00000000-0000-0000-0000-000000000001 run 00000000-0000-0000-0000-000000000002";

fn id() -> WorkflowId {
    WorkflowId::new(1)
}

fn run() -> RunId {
    RunId::new(2)
}

fn envelope(seq: u64) -> EventEnvelope {
    EventEnvelope { seq, recorded_at: Timestamp { secs: 5, nanos: 0 }, workflow_id: id() }
}

fn started() -> Event {
    Event::WorkflowStarted {
        envelope: envelope(1),
        workflow_type: String::from("checkout"),
        input: Payload::new(ContentType::Json, b"{}".to_vec()),
        run_id: run(),
        parent_run_id: None,
        package_version: PackageVersion::new("a".repeat(64)),
    }
}

fn paused(seq: u64) -> Event {
    Event::WorkflowPaused {
        envelope: envelope(seq),
        run_id: run(),
        reason: Some(String::from("maintenance")),
        operator: None,
    }
}

fn resumed(seq: u64) -> Event {
    Event::WorkflowResumed { envelope: envelope(seq), run_id: run(), operator: None }
}

fn handle() -> WorkflowHandle {
    WorkflowHandle {
        workflow_id: id(),
        run_id: run(),
        pid: 3,
        workflow_type: String::from("checkout"),
        namespace: String::from("default"),
        loaded_version: ContentHash::from_bytes([1; 32]),
        cached_status: WorkflowStatus::Running,
        residency: Residency::Resident,
    }
}

#[test]
fn the_held_set_follows_the_durable_projection() {
    let mut held = PausedRuns::new();
    assert!(held.snapshot().is_empty());
    held.insert(WorkflowId::new(1));
    held.insert(WorkflowId::new(1));
    assert_eq!(held.snapshot(), vec![WorkflowId::new(1)]);
    held.extend(&vec![WorkflowId::new(2), WorkflowId::new(1)]);
    assert_eq!(held.snapshot().len(), 2);
    assert!(held.contains(&WorkflowId::new(2)));
    held.remove(&WorkflowId::new(1));
    assert_eq!(held.snapshot(), vec![WorkflowId::new(2)]);
    held.remove(&WorkflowId::new(9));
    held.replace_all(&vec![WorkflowId::new(7), WorkflowId::new(8), WorkflowId::new(7)]);
    assert_eq!(held.snapshot().len(), 2);
    assert!(!held.contains(&WorkflowId::new(2)));
}

#[test]
fn only_a_running_run_can_be_paused() {
    let history = vec![started()];
    assert_eq!(pause(&history, Some(&handle()), &id(), &run()), Ok(handle()));
    assert!(matches!(
        pause(&history, None, &id(), &run()),
        Err(EngineError::WorkflowNotFound { .. })
    ));
    assert!(matches!(
        pause(&history, Some(&handle()), &id(), &RunId::new(9)),
        Err(EngineError::WorkflowNotFound { .. })
    ));
    assert_eq!(
        pause(&[started(), paused(2)], Some(&handle()), &id(), &run()),
        Err(EngineError::InvalidState {
            reason: format!("{NAME} is Paused, not Running; only a Running run can be paused"),
        })
    );
    assert!(check_running(&history, &id(), &run()).is_ok());
    assert!(check_running(&[started(), paused(2)], &id(), &run()).is_err());
}

#[test]
fn only_a_paused_run_can_be_resumed() {
    let history = vec![started(), paused(2)];
    assert_eq!(
        resume(&history, Some(&handle()), &id(), &run()),
        Ok(ResumeDecision::Resident(handle()))
    );
    assert_eq!(
        resume(&[started()], None, &id(), &run()),
        Err(EngineError::InvalidState {
            reason: format!("{NAME} is Running, not Paused; only a Paused run can be resumed"),
        })
    );
    assert!(matches!(
        resume(&[], None, &id(), &run()),
        Err(EngineError::WorkflowNotFound { .. })
    ));
    assert!(check_paused(&history, &id(), &run()).is_ok());
}

#[test]
fn a_run_that_crashed_while_paused_gets_its_timers_back() {
    let history = vec![
        started(),
        Event::TimerStarted {
            envelope: envelope(2),
            timer_id: TimerId::anonymous(1),
            fire_at: Timestamp { secs: 50, nanos: 0 },
        },
        Event::TimerStarted {
            envelope: envelope(3),
            timer_id: TimerId::anonymous(2),
            fire_at: Timestamp { secs: 60, nanos: 0 },
        },
        Event::TimerCancelled {
            envelope: envelope(4),
            timer_id: TimerId::anonymous(2),
            cause: TimerCancelCause::WorkflowIntent,
        },
        paused(5),
    ];
    let Ok(ResumeDecision::Respawn { rearm }) = resume(&history, None, &id(), &run()) else {
        panic!("a run without a process is respawned");
    };
    assert_eq!(rearm.len(), 1);
    assert_eq!(rearm[0].timer_id, TimerId::anonymous(1));
    assert_eq!(rearm[0].fire_at, Timestamp { secs: 50, nanos: 0 });
}

#[test]
fn pausing_and_resuming_move_the_projected_status() {
    let mut history = vec![started()];
    assert_eq!(status_from_events(&history), WorkflowStatus::Running);
    history.push(paused(2));
    assert_eq!(status_from_events(&history), WorkflowStatus::Paused);
    history.push(resumed(3));
    assert_eq!(status_from_events(&history), WorkflowStatus::Running);
    history.push(paused(4));
    history.push(Event::WorkflowCancelled {
        envelope: envelope(5),
        reason: String::from("stop"),
    });
    assert_eq!(status_from_events(&history), WorkflowStatus::Cancelled);
}

#[test]
fn a_hold_is_set_only_after_it_is_recorded() {
    let phase = HoldPhase::Recheck.advance(Ok(()));
    assert_eq!(phase, HoldPhase::Record);
    let phase = phase.advance(Ok(()));
    assert_eq!(phase, HoldPhase::SetHold);
    assert_eq!(phase.advance(Ok(())), HoldPhase::Made);
    assert_eq!(
        HoldPhase::Record.advance(Err(EngineError::ShuttingDown)),
        HoldPhase::Failed(EngineError::ShuttingDown)
    );
}

#[test]
fn every_status_has_a_name() {
    let names: Vec<&str> = [
        WorkflowStatus::Running,
        WorkflowStatus::Completed,
        WorkflowStatus::Failed,
        WorkflowStatus::Cancelled,
        WorkflowStatus::TimedOut,
        WorkflowStatus::ContinuedAsNew,
        WorkflowStatus::Paused,
    ]
    .into_iter()
    .map(status_name)
    .collect();
    assert_eq!(
        names,
        vec!["Running", "Completed", "Failed", "Cancelled", "TimedOut", "ContinuedAsNew", "Paused"]
    );
}
