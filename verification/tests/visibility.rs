//! The visibility projection.

use aion::clock::Timestamp;
use aion::error::EngineError;
use aion::event::{
    ContentType, Event, EventEnvelope, PackageVersion, Payload, SearchAttribute,
    SearchAttributeValue, WorkflowError, WorkflowStatus,
};
use aion::ids::{RunId, TimerId, WorkflowId};
use aion::lifecycle::visibility::{
    reconcile_visibility, search_attributes_from_events, started_projection, started_run_id,
    terminal_recorded_at, visibility_record_from_history, FailureProjection, VisibilityRecord,
};

fn envelope(workflow_id: &WorkflowId, seq: u64) -> EventEnvelope {
    EventEnvelope {
        seq,
        recorded_at: Timestamp { secs: 1_767_225_600 + seq as i64, nanos: 0 },
        workflow_id: *workflow_id,
    }
}

fn payload() -> Payload {
    Payload::new(ContentType::Json, b"{}".to_vec())
}

fn workflow_started(workflow_id: &WorkflowId, run_id: &RunId) -> Event {
    Event::WorkflowStarted {
        envelope: envelope(workflow_id, 1),
        workflow_type: String::from("order_processing"),
        input: payload(),
        run_id: *run_id,
        parent_run_id: None,
        package_version: PackageVersion::new("a".repeat(64)),
    }
}

fn no_failure() -> FailureProjection {
    FailureProjection { failed_step: None, failure_reason: None }
}

fn attribute(name: &str, value: SearchAttributeValue) -> SearchAttribute {
    SearchAttribute { name: String::from(name), value }
}

fn text(value: &str) -> SearchAttributeValue {
    SearchAttributeValue::String(String::from(value))
}

#[test]
fn started_projection_extracts_fields_from_workflow_started() -> Result<(), EngineError> {
    let wf_id = WorkflowId::new(11);
    let run_id = RunId::new(12);
    let history = vec![workflow_started(&wf_id, &run_id)];
    let (projected_id, projected_type, projected_time) = started_projection(&history)?;
    assert_eq!(projected_id, wf_id);
    assert_eq!(projected_type, "order_processing");
    assert_eq!(projected_time, envelope(&wf_id, 1).recorded_at);
    assert_eq!(started_run_id(&history)?, run_id);
    Ok(())
}

#[test]
fn started_projection_returns_load_error_for_empty_history() {
    let result = started_projection(&[]);
    assert!(matches!(result, Err(EngineError::Load { .. })), "expected Load error, got {result:?}");
}

#[test]
fn started_projection_returns_load_error_when_no_started_event() {
    let wf_id = WorkflowId::new(11);
    let history =
        vec![Event::WorkflowCompleted { envelope: envelope(&wf_id, 1), result: payload() }];
    assert_eq!(
        started_projection(&history),
        Err(EngineError::Load {
            reason: String::from(
                "workflow history has no WorkflowStarted event for visibility projection"
            ),
        })
    );
}

#[test]
fn terminal_recorded_at_returns_completed_timestamp() {
    let wf_id = WorkflowId::new(11);
    let env = envelope(&wf_id, 2);
    let expected = env.recorded_at;
    let history = vec![Event::WorkflowCompleted { envelope: env, result: payload() }];
    assert_eq!(terminal_recorded_at(&history), Some(expected));
}

#[test]
fn terminal_recorded_at_returns_failed_timestamp() {
    let wf_id = WorkflowId::new(11);
    let env = envelope(&wf_id, 2);
    let expected = env.recorded_at;
    let history = vec![Event::WorkflowFailed {
        envelope: env,
        error: WorkflowError { message: String::from("boom"), details: None },
    }];
    assert_eq!(terminal_recorded_at(&history), Some(expected));
}

#[test]
fn terminal_recorded_at_returns_cancelled_timestamp() {
    let wf_id = WorkflowId::new(11);
    let env = envelope(&wf_id, 2);
    let expected = env.recorded_at;
    let history =
        vec![Event::WorkflowCancelled { envelope: env, reason: String::from("user request") }];
    assert_eq!(terminal_recorded_at(&history), Some(expected));
}

#[test]
fn terminal_recorded_at_returns_timed_out_timestamp() {
    let wf_id = WorkflowId::new(11);
    let env = envelope(&wf_id, 2);
    let expected = env.recorded_at;
    let history = vec![Event::WorkflowTimedOut {
        envelope: env,
        timeout: String::from("workflow_execution"),
    }];
    assert_eq!(terminal_recorded_at(&history), Some(expected));
}

#[test]
fn terminal_recorded_at_returns_continued_as_new_timestamp() {
    let wf_id = WorkflowId::new(11);
    let env = envelope(&wf_id, 2);
    let expected = env.recorded_at;
    let history = vec![Event::WorkflowContinuedAsNew {
        envelope: env,
        input: payload(),
        workflow_type: None,
        parent_run_id: RunId::new(13),
    }];
    assert_eq!(terminal_recorded_at(&history), Some(expected));
}

#[test]
fn terminal_recorded_at_returns_none_for_non_terminal_history() {
    let history = vec![workflow_started(&WorkflowId::new(11), &RunId::new(12))];
    assert_eq!(terminal_recorded_at(&history), None);
}

#[test]
fn terminal_recorded_at_finds_terminal_after_interleaved_non_terminal_events() {
    let wf_id = WorkflowId::new(11);
    let terminal_env = envelope(&wf_id, 4);
    let expected = terminal_env.recorded_at;
    let history = vec![
        workflow_started(&wf_id, &RunId::new(12)),
        Event::SignalReceived {
            envelope: envelope(&wf_id, 2),
            name: String::from("wake"),
            payload: payload(),
        },
        Event::TimerFired { envelope: envelope(&wf_id, 3), timer_id: TimerId::named("t1") },
        Event::WorkflowCompleted { envelope: terminal_env, result: payload() },
    ];
    assert_eq!(terminal_recorded_at(&history), Some(expected));
}

#[test]
fn search_attributes_collects_from_multiple_updates() {
    let wf_id = WorkflowId::new(11);
    let history = vec![
        Event::SearchAttributesUpdated {
            envelope: envelope(&wf_id, 2),
            workflow_id: wf_id,
            attributes: vec![attribute("customer", text("acme"))],
        },
        Event::SearchAttributesUpdated {
            envelope: envelope(&wf_id, 3),
            workflow_id: wf_id,
            attributes: vec![
                attribute("priority", SearchAttributeValue::Int(5)),
                attribute("customer", text("globex")),
            ],
        },
    ];
    let result = search_attributes_from_events(&history);
    assert_eq!(result.len(), 2);
    assert_eq!(result.get(&String::from("customer")), Some(&text("globex")));
    assert_eq!(result.get(&String::from("priority")), Some(&SearchAttributeValue::Int(5)));
}

#[test]
fn search_attributes_returns_empty_when_no_updates() {
    let history = vec![workflow_started(&WorkflowId::new(11), &RunId::new(12))];
    assert_eq!(search_attributes_from_events(&history).len(), 0);
}

#[test]
fn visibility_record_from_history_projects_running_workflow() -> Result<(), EngineError> {
    let wf_id = WorkflowId::new(11);
    let run_id = RunId::new(12);
    let history = vec![workflow_started(&wf_id, &run_id)];
    let record = visibility_record_from_history(&history, &run_id, no_failure())?;
    assert_eq!(record.workflow_id, wf_id);
    assert_eq!(record.run_id, run_id);
    assert_eq!(record.workflow_type, "order_processing");
    assert_eq!(record.status, WorkflowStatus::Running);
    assert!(record.close_time.is_none());
    assert_eq!(record.search_attributes.len(), 0);
    Ok(())
}

fn completed_history(wf_id: &WorkflowId, run_id: &RunId) -> Vec<Event> {
    vec![
        workflow_started(wf_id, run_id),
        Event::SearchAttributesUpdated {
            envelope: envelope(wf_id, 2),
            workflow_id: *wf_id,
            attributes: vec![attribute("region", text("eu-west-1"))],
        },
        Event::WorkflowCompleted { envelope: envelope(wf_id, 3), result: payload() },
    ]
}

#[test]
fn visibility_record_from_history_projects_completed_workflow_with_attributes(
) -> Result<(), EngineError> {
    let wf_id = WorkflowId::new(11);
    let run_id = RunId::new(12);
    let history = completed_history(&wf_id, &run_id);
    let expected_close = envelope(&wf_id, 3).recorded_at;
    let record = visibility_record_from_history(&history, &run_id, no_failure())?;
    assert_eq!(record.status, WorkflowStatus::Completed);
    assert_eq!(record.close_time, Some(expected_close));
    assert_eq!(record.search_attributes.get(&String::from("region")), Some(&text("eu-west-1")));
    Ok(())
}

#[test]
fn a_reopened_workflow_has_no_close_time() {
    let wf_id = WorkflowId::new(11);
    let run_id = RunId::new(12);
    let mut history = completed_history(&wf_id, &run_id);
    history.push(Event::WorkflowReopened {
        envelope: envelope(&wf_id, 4),
        run_id,
        reopened: Vec::new(),
    });
    assert_eq!(terminal_recorded_at(&history), None);
}

#[test]
fn startup_reconciliation_backfills_completed_visibility() -> Result<(), EngineError> {
    let wf_id = WorkflowId::new(11);
    let run_id = RunId::new(12);
    let history = completed_history(&wf_id, &run_id);
    let mut rows: Vec<VisibilityRecord> = Vec::new();
    let Some(record) = reconcile_visibility(&rows, &history, no_failure())? else {
        panic!("a missing row is rewritten");
    };
    assert_eq!(record.status, WorkflowStatus::Completed);
    assert!(record.close_time.is_some());
    rows.push(record);
    assert!(
        reconcile_visibility(&rows, &history, no_failure())?.is_none(),
        "a row that agrees with history is left alone"
    );
    let failure = FailureProjection {
        failed_step: Some(String::from("charge")),
        failure_reason: Some(String::from("declined")),
    };
    let Some(record) = reconcile_visibility(&rows, &history, failure)? else {
        panic!("a row that differs from history is rewritten");
    };
    assert_eq!(record.failure.failed_step, Some(String::from("charge")));
    Ok(())
}

#[test]
fn a_history_without_a_start_cannot_be_reconciled() {
    let result = reconcile_visibility(&Vec::new(), &[], no_failure());
    assert!(matches!(result, Err(EngineError::Load { .. })));
}
