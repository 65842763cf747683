//! Suspend and resume residency transitions.

use aion::clock::Timestamp;
use aion::content_hash::ContentHash;
use aion::error::EngineError;
use aion::event::{ContentType, Event, EventEnvelope, PackageVersion, Payload, WorkflowStatus};
use aion::ids::{RunId, WorkflowId};
use aion::lifecycle::transition::{resume, suspend};
use aion::registry::{Registry, Residency, WorkflowHandle};

fn handle(workflow_id: WorkflowId, run_id: RunId, status: WorkflowStatus) -> WorkflowHandle {
    WorkflowHandle {
        workflow_id,
        run_id,
        pid: 42,
        workflow_type: "checkout".to_owned(),
        namespace: String::from("default"),
        loaded_version: ContentHash::from_bytes([3; 32]),
        cached_status: status,
        residency: Residency::Resident,
    }
}

fn started(workflow_id: &WorkflowId) -> Event {
    Event::WorkflowStarted {
        envelope: EventEnvelope {
            seq: 1,
            recorded_at: Timestamp { secs: 1_700_000_000, nanos: 0 },
            workflow_id: *workflow_id,
        },
        workflow_type: String::from("checkout"),
        input: Payload::new(ContentType::Json, b"{\"label\":\"input\"}".to_vec()),
        run_id: RunId::new(1),
        parent_run_id: None,
        package_version: PackageVersion::new("a".repeat(64)),
    }
}

fn insert_running_handle(registry: &mut Registry) -> (WorkflowId, RunId) {
    let workflow_id = WorkflowId::new(0x77);
    let run_id = RunId::new(0x88);
    registry.insert(handle(workflow_id, run_id, WorkflowStatus::Running));
    (workflow_id, run_id)
}

#[test]
fn suspend_keeps_running_handle_present_with_suspended_residency() {
    let mut registry = Registry::new();
    let (workflow_id, run_id) = insert_running_handle(&mut registry);
    let Ok(suspended) = suspend(&mut registry, &workflow_id, &run_id) else {
        panic!("a registered run can be suspended");
    };
    assert_eq!(suspended.residency, Residency::Suspended);
    assert_eq!(suspended.cached_status, WorkflowStatus::Running);
    assert_eq!(
        registry.get(&workflow_id, &run_id).map(|handle| (handle.residency, handle.cached_status)),
        Some((Residency::Suspended, WorkflowStatus::Running))
    );
}

#[test]
fn reconcile_after_suspend_preserves_suspended_residency() {
    let mut registry = Registry::new();
    let (workflow_id, run_id) = insert_running_handle(&mut registry);
    assert!(suspend(&mut registry, &workflow_id, &run_id).is_ok());
    let events = vec![started(&workflow_id)];
    let reconciled = registry.reconcile(&workflow_id, &run_id, &events);
    assert_eq!(
        reconciled.map(|handle| (handle.residency, handle.cached_status)),
        Some((Residency::Suspended, WorkflowStatus::Running))
    );
    assert_eq!(
        registry.get(&workflow_id, &run_id).map(|handle| handle.residency),
        Some(Residency::Suspended)
    );
}

#[test]
fn resume_returns_suspended_handle_to_resident_without_status_change() {
    let mut registry = Registry::new();
    let (workflow_id, run_id) = insert_running_handle(&mut registry);
    assert!(suspend(&mut registry, &workflow_id, &run_id).is_ok());
    let Ok(resumed) = resume(&mut registry, &workflow_id, &run_id) else {
        panic!("a registered run can be resumed");
    };
    assert_eq!(resumed.residency, Residency::Resident);
    assert_eq!(resumed.cached_status, WorkflowStatus::Running);
    assert_eq!(
        registry.get(&workflow_id, &run_id).map(|handle| handle.residency),
        Some(Residency::Resident)
    );
}

#[test]
fn resume_is_idempotent_for_already_resident_handle() {
    let mut registry = Registry::new();
    let (workflow_id, run_id) = insert_running_handle(&mut registry);
    let Ok(resumed) = resume(&mut registry, &workflow_id, &run_id) else {
        panic!("a registered run can be resumed");
    };
    assert_eq!(resumed.residency, Residency::Resident);
    assert_eq!(resumed.cached_status, WorkflowStatus::Running);
}

#[test]
fn suspend_missing_handle_returns_workflow_not_found() {
    let mut registry = Registry::new();
    assert!(matches!(
        suspend(&mut registry, &WorkflowId::new(1), &RunId::new(2)),
        Err(EngineError::WorkflowNotFound { .. })
    ));
}

#[test]
fn resume_missing_handle_returns_workflow_not_found() {
    let mut registry = Registry::new();
    assert_eq!(
        resume(&mut registry, &WorkflowId::new(1), &RunId::new(2)),
        Err(EngineError::WorkflowNotFound {
            workflow_type: String::from(
                "00000000-0000-0000-0000-000000000001/00000000-0000-0000-0000-000000000002"
            ),
        })
    );
}

#[test]
fn the_live_run_of_a_workflow_is_the_one_that_has_not_ended() {
    let mut registry = Registry::new();
    let workflow_id = WorkflowId::new(5);
    registry.insert(handle(workflow_id, RunId::new(1), WorkflowStatus::Completed));
    assert_eq!(registry.live_run(&workflow_id), None);
    registry.insert(handle(workflow_id, RunId::new(2), WorkflowStatus::Running));
    assert_eq!(registry.live_run(&workflow_id).map(|handle| handle.run_id), Some(RunId::new(2)));
    assert_eq!(registry.first_of(&workflow_id).map(|handle| handle.run_id), Some(RunId::new(1)));
    assert_eq!(registry.list().len(), 2);
    assert!(registry.remove(&workflow_id, &RunId::new(2)).is_some());
    assert!(registry.remove(&workflow_id, &RunId::new(2)).is_none());
    assert_eq!(registry.live_run(&workflow_id), None);
}
