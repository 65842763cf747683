//! The service seam.

use std::cell::RefCell;

use aion::content_hash::ContentHash;
use aion::engine::seam_handle::{EngineSeam, SeamSide};
use aion::engine_seam::{
    ChildWorkflowSpawnMode, ChildWorkflowSpawnRequest, ChildWorkflowSpawnResult, EngineHandle,
    EngineSeamError, TimerWheelEntry, WorkflowMailboxMessage, WorkflowProcessHandle,
    WorkflowResidency,
};
use aion::clock::Timestamp;
use aion::event::{ContentType, Event, EventEnvelope, Payload, WorkflowStatus};
use aion::ids::{RunId, TimerId, WorkflowId};
use aion::registry::{Registry, Residency, WorkflowHandle};

/// A seam that records what it is asked and can be made to fail.
struct FakeEngineHandle {
    residency: RefCell<Vec<(WorkflowId, WorkflowResidency)>>,
    delivery_responses: RefCell<Vec<Result<(), EngineSeamError>>>,
    delivered: RefCell<Vec<(WorkflowProcessHandle, WorkflowMailboxMessage)>>,
    operations: RefCell<Vec<String>>,
}

impl FakeEngineHandle {
    fn new() -> Self {
        Self {
            residency: RefCell::new(Vec::new()),
            delivery_responses: RefCell::new(Vec::new()),
            delivered: RefCell::new(Vec::new()),
            operations: RefCell::new(Vec::new()),
        }
    }
}

impl EngineHandle for FakeEngineHandle {
    fn resolve_workflow(
        &self,
        workflow_id: &WorkflowId,
    ) -> Result<WorkflowResidency, EngineSeamError> {
        for (id, residency) in self.residency.borrow().iter() {
            if id == workflow_id {
                return Ok(*residency);
            }
        }
        Ok(WorkflowResidency::Unknown)
    }

    fn deliver_workflow_message(
        &self,
        process: WorkflowProcessHandle,
        message: WorkflowMailboxMessage,
    ) -> Result<(), EngineSeamError> {
        if let Some(response) = self.delivery_responses.borrow_mut().pop() {
            response?;
        }
        self.operations.borrow_mut().push(String::from("deliver"));
        self.delivered.borrow_mut().push((process, message));
        Ok(())
    }

    fn spawn_child_workflow(
        &self,
        _request: ChildWorkflowSpawnRequest,
    ) -> Result<ChildWorkflowSpawnResult, EngineSeamError> {
        Err(EngineSeamError::ChildSpawn { reason: String::from("not faked") })
    }

    fn terminate_linked_child_workflow(
        &self,
        _parent_workflow_id: &WorkflowId,
        _child_process: WorkflowProcessHandle,
        _correlation: u64,
    ) -> Result<(), EngineSeamError> {
        Ok(())
    }

    fn terminate_linked_activity(
        &self,
        _parent_workflow_id: &WorkflowId,
        _activity_process: u64,
        _correlation: u64,
    ) -> Result<(), EngineSeamError> {
        Ok(())
    }

    fn arm_timer(&self, _entry: TimerWheelEntry) -> Result<(), EngineSeamError> {
        Ok(())
    }

    fn disarm_timer(
        &self,
        _process: WorkflowProcessHandle,
        _timer_id: &TimerId,
    ) -> Result<(), EngineSeamError> {
        Ok(())
    }

    fn record_workflow_event(
        &self,
        _workflow_id: &WorkflowId,
        _event: Event,
    ) -> Result<(), EngineSeamError> {
        Ok(())
    }
}

fn wake() -> WorkflowMailboxMessage {
    WorkflowMailboxMessage::SignalReceived {
        name: "wake".to_owned(),
        payload: Payload::new(ContentType::Json, b"null".to_vec()),
    }
}

#[test]
fn fake_captures_delivered_message_for_resident_workflow() -> Result<(), EngineSeamError> {
    let engine = FakeEngineHandle::new();
    let workflow_id = WorkflowId::new(1);
    let process = WorkflowProcessHandle::new(42);
    engine.residency.borrow_mut().push((workflow_id, WorkflowResidency::Resident(process)));
    let resolved = engine.resolve_workflow(&workflow_id)?;
    assert_eq!(resolved, WorkflowResidency::Resident(process));
    engine.deliver_workflow_message(process, wake())?;
    assert_eq!(*engine.delivered.borrow(), vec![(process, wake())]);
    assert_eq!(process.pid(), 42);
    Ok(())
}

#[test]
fn fake_can_inject_delivery_failure() {
    let engine = FakeEngineHandle::new();
    let process = WorkflowProcessHandle::new(43);
    engine
        .delivery_responses
        .borrow_mut()
        .push(Err(EngineSeamError::Delivery { reason: "mailbox unavailable".to_owned() }));
    let error = engine.deliver_workflow_message(process, wake()).err();
    assert!(matches!(error, Some(EngineSeamError::Delivery { .. })));
    assert!(engine.delivered.borrow().is_empty());
    assert!(engine.operations.borrow().is_empty());
}

fn handle(run: u128, residency: Residency) -> WorkflowHandle {
    WorkflowHandle {
        workflow_id: WorkflowId::new(1),
        run_id: RunId::new(run),
        pid: 42,
        workflow_type: "checkout".to_owned(),
        namespace: String::from("default"),
        loaded_version: ContentHash::from_bytes([3; 32]),
        cached_status: WorkflowStatus::Running,
        residency,
    }
}

#[test]
fn a_workflow_resolves_by_its_registered_residency() {
    let mut registry = Registry::new();
    let seam = EngineSeam { side: SeamSide::Engine, registry: &registry };
    assert_eq!(seam.resolve_workflow(&WorkflowId::new(1)), WorkflowResidency::Unknown);
    registry.insert(handle(1, Residency::Resident));
    let seam = EngineSeam { side: SeamSide::Engine, registry: &registry };
    assert_eq!(
        seam.resolve_workflow(&WorkflowId::new(1)),
        WorkflowResidency::Resident(WorkflowProcessHandle::new(42))
    );
    assert_eq!(seam.resolve_workflow(&WorkflowId::new(2)), WorkflowResidency::Unknown);
    registry.insert(handle(1, Residency::Suspended));
    let seam = EngineSeam { side: SeamSide::Engine, registry: &registry };
    assert_eq!(seam.resolve_workflow(&WorkflowId::new(1)), WorkflowResidency::NonResident);
}

#[test]
fn only_recorded_signals_are_delivered_through_the_seam() {
    let registry = Registry::new();
    let process = WorkflowProcessHandle::new(9);
    let engine = EngineSeam { side: SeamSide::Engine, registry: &registry };
    let handoff = EngineSeam { side: SeamSide::ResumeHandoff, registry: &registry };
    assert_eq!(engine.deliver_workflow_message(process, &wake(), "wake"), Ok(9));
    let query = WorkflowMailboxMessage::Query {
        name: String::from("state"),
        payload: Payload::new(ContentType::Json, b"null".to_vec()),
    };
    assert_eq!(
        engine.deliver_workflow_message(process, &query, "Query"),
        Err(EngineSeamError::Delivery {
            reason: String::from("unsupported workflow mailbox message: Query"),
        })
    );
    assert_eq!(
        handoff.deliver_workflow_message(process, &query, "Query"),
        Err(EngineSeamError::Delivery {
            reason: String::from("unsupported resume handoff message: Query"),
        })
    );
}

#[test]
fn unwired_operations_are_refused() {
    let registry = Registry::new();
    let process = WorkflowProcessHandle::new(9);
    let engine = EngineSeam { side: SeamSide::Engine, registry: &registry };
    let handoff = EngineSeam { side: SeamSide::ResumeHandoff, registry: &registry };
    let request = || ChildWorkflowSpawnRequest {
        parent_workflow_id: WorkflowId::new(1),
        workflow_type: String::from("child"),
        input: Payload::new(ContentType::Json, b"null".to_vec()),
        run_id: RunId::new(2),
        mode: ChildWorkflowSpawnMode::Linked,
    };
    let entry = || TimerWheelEntry {
        process,
        timer_id: TimerId::anonymous(1),
        fire_at: Timestamp { secs: 0, nanos: 0 },
    };
    let event = || Event::WorkflowCancelled {
        envelope: EventEnvelope {
            seq: 1,
            recorded_at: Timestamp { secs: 0, nanos: 0 },
            workflow_id: WorkflowId::new(1),
        },
        reason: String::from("stop"),
    };
    let refused = |side: &EngineSeam| {
        let mut reasons = Vec::new();
        for error in [
            side.spawn_child_workflow(request()).map(|_| ()),
            side.terminate_linked_child_workflow(&WorkflowId::new(1), process, 1),
            side.terminate_linked_activity(&WorkflowId::new(1), 4, 1),
            side.arm_timer(entry()),
            side.disarm_timer(process, &TimerId::anonymous(1)),
            side.record_workflow_event(&WorkflowId::new(1), event()),
        ] {
            match error {
                Err(error) => reasons.push(error.message()),
                Ok(()) => panic!("nothing is wired here"),
            }
        }
        reasons
    };
    assert_eq!(
        refused(&engine),
        vec![
            "child workflow spawn failed: engine handle child spawning is not wired here",
            "linked child termination failed: engine handle child termination is not wired here",
            "linked child termination failed: engine handle activity termination is not wired here",
            "timer wheel operation failed: engine handle timer arming is not wired here",
            "timer wheel operation failed: engine handle timer disarming is not wired here",
            "workflow recorder failed: engine handle event recording is not wired here",
        ]
    );
    assert_eq!(
        refused(&handoff),
        vec![
            "child workflow spawn failed: start resume handoff cannot spawn child workflows",
            "linked child termination failed: start resume handoff cannot terminate child workflows",
            "linked child termination failed: start resume handoff cannot terminate activities",
            "timer wheel operation failed: start resume handoff cannot arm timers",
            "timer wheel operation failed: start resume handoff cannot disarm timers",
            "workflow recorder failed: start resume handoff cannot record workflow events",
        ]
    );
}

#[test]
fn seam_errors_name_their_workflow() {
    let workflow_id = WorkflowId::new(1);
    let name = "00000000-0000-0000-0000-000000000001";
    assert_eq!(
        EngineSeamError::NonResident { workflow_id }.message(),
        format!("workflow {name} is not resident")
    );
    assert_eq!(
        EngineSeamError::Terminal { workflow_id }.message(),
        format!("workflow {name} is terminal")
    );
    assert_eq!(
        EngineSeamError::UnknownWorkflow { workflow_id }.message(),
        format!("workflow {name} is unknown")
    );
    assert_eq!(
        EngineSeamError::Delivery { reason: String::from("full") }.message(),
        "mailbox delivery failed: full"
    );
}
