//! Process exits, terminal transitions and continue-as-new.

use aion::clock::Timestamp;
use aion::content_hash::ContentHash;
use aion::error::EngineError;
use aion::event::{
    ContentType, Event, EventEnvelope, PackageVersion, Payload, TerminalOutcome, WorkflowStatus,
};
use aion::ids::{ActivityId, RunId, WorkflowId};
use aion::lifecycle::completion::{
    decide_exit, reconcile_terminal_registry, start_continuation_replacement,
    terminal_outcome_from_history, ExitDecision, ExitPhase, ExitRun, WorkflowProcessOutcome,
};
use aion::lifecycle::continue_as_new::{
    continued_outcome, guard_continue_as_new, guard_no_pending_work, replacement_start,
    ContinueAsNewRequest,
};
use aion::lifecycle::terminate::{
    cancel, complete, TerminatePhase, TerminateRun, TerminateWorkflowContext,
};
use aion::registry::{Registry, Residency, WorkflowHandle};

fn payload(label: &str) -> Payload {
    Payload::new(ContentType::Json, format!("{{\"label\":\"{label}\"}}").into_bytes())
}

fn id() -> WorkflowId {
    WorkflowId::new(21)
}

fn envelope(seq: u64) -> EventEnvelope {
    EventEnvelope {
        seq,
        recorded_at: Timestamp { secs: 1_700_000_000, nanos: 0 },
        workflow_id: id(),
    }
}

fn started(seq: u64, run: u128, parent: Option<u128>) -> Event {
    Event::WorkflowStarted {
        envelope: envelope(seq),
        workflow_type: "checkout".to_owned(),
        input: payload("input"),
        run_id: RunId::new(run),
        parent_run_id: parent.map(RunId::new),
        package_version: PackageVersion::new("a".repeat(64)),
    }
}

fn handle() -> WorkflowHandle {
    WorkflowHandle {
        workflow_id: id(),
        run_id: RunId::new(1),
        pid: 5,
        workflow_type: String::from("checkout"),
        namespace: String::from("tenant"),
        loaded_version: ContentHash::from_bytes([1; 32]),
        cached_status: WorkflowStatus::Running,
        residency: Residency::Resident,
    }
}

fn registered() -> Registry {
    let mut registry = Registry::new();
    registry.insert(handle());
    registry
}

#[test]
fn terminal_outcome_is_scoped_to_requested_run_segment() {
    let old_run_id = RunId::new(1);
    let new_run_id = RunId::new(2);
    let events = vec![
        started(1, 1, None),
        Event::WorkflowContinuedAsNew {
            envelope: envelope(2),
            input: payload("next"),
            workflow_type: None,
            parent_run_id: old_run_id,
        },
        started(3, 2, Some(1)),
        Event::WorkflowCompleted { envelope: envelope(4), result: payload("done") },
    ];
    assert_eq!(
        terminal_outcome_from_history(&events, &old_run_id),
        Some(TerminalOutcome::ContinuedAsNew {
            input: payload("next"),
            workflow_type: None,
            parent_run_id: old_run_id,
        })
    );
    assert_eq!(
        terminal_outcome_from_history(&events, &new_run_id),
        Some(TerminalOutcome::Completed(payload("done")))
    );
}

#[test]
fn an_exit_goes_step_by_step() {
    let history = vec![started(1, 1, None)];
    let exit = Ok(WorkflowProcessOutcome::Completed(payload("result")));
    let decision = decide_exit(&history, &RunId::new(1), exit);
    assert_eq!(decision, ExitDecision::Record(TerminalOutcome::Completed(payload("result"))));
    let run = ExitRun::begin(decision);
    assert_eq!(run.phase, ExitPhase::Record(TerminalOutcome::Completed(payload("result"))));
    let run = run.advance(Ok(()));
    assert_eq!(run.phase, ExitPhase::Notify(TerminalOutcome::Completed(payload("result"))));
    let run = run.advance(Ok(()));
    assert!(run.notified && run.durable);
    assert_eq!(run.phase, ExitPhase::UpsertVisibility);
    let run = run.advance(Ok(()));
    assert_eq!(run.phase, ExitPhase::Reconcile);
    assert_eq!(run.advance(Ok(())).phase, ExitPhase::Handled);

    let mut registry = registered();
    let mut history = history;
    history.push(Event::WorkflowCompleted { envelope: envelope(2), result: payload("result") });
    reconcile_terminal_registry(&mut registry, &id(), &RunId::new(1), &history);
    assert_eq!(
        registry.get(&id(), &RunId::new(1)).map(|handle| (handle.cached_status, handle.residency)),
        Some((WorkflowStatus::Completed, Residency::Suspended))
    );
}

#[test]
fn a_failing_monitor_fails_the_run() {
    let decision = decide_exit(
        &[started(1, 1, None)],
        &RunId::new(1),
        Err(EngineError::Runtime { reason: String::from("lost") }),
    );
    let ExitDecision::Record(TerminalOutcome::Failed(failure)) = decision else {
        panic!("a failing monitor fails the run");
    };
    assert!(failure.message.starts_with("workflow process monitor failed: "));
    assert!(failure.message.ends_with("lost"));
}

#[test]
fn an_exit_after_a_recorded_terminal_records_nothing() {
    let history = vec![
        started(1, 1, None),
        Event::WorkflowCancelled { envelope: envelope(2), reason: String::from("stop") },
    ];
    let decision = decide_exit(
        &history,
        &RunId::new(1),
        Ok(WorkflowProcessOutcome::Completed(payload("late"))),
    );
    assert_eq!(decision, ExitDecision::Existing(TerminalOutcome::Cancelled(String::from("stop"))));
    let run = ExitRun::begin(decision).advance(Ok(()));
    assert_eq!(run.phase, ExitPhase::Reconcile);
    assert_eq!(run.advance(Ok(())).phase, ExitPhase::Handled);
}

#[test]
fn a_continued_run_starts_its_replacement_once() {
    let mut history = vec![
        started(1, 1, None),
        Event::WorkflowContinuedAsNew {
            envelope: envelope(2),
            input: payload("next"),
            workflow_type: None,
            parent_run_id: RunId::new(1),
        },
    ];
    let Some(start) = start_continuation_replacement(
        &history,
        &handle(),
        payload("next"),
        None,
        RunId::new(1),
    ) else {
        panic!("the successor has not started");
    };
    assert_eq!(start.workflow_type, "checkout");
    assert_eq!(start.options.workflow_id, Some(id()));
    assert_eq!(start.options.parent_run_id, Some(RunId::new(1)));
    assert_eq!(start.options.namespace, Some(String::from("tenant")));
    assert_eq!(start.options.loaded_version, None);
    history.push(started(3, 2, Some(1)));
    assert_eq!(
        start_continuation_replacement(&history, &handle(), payload("next"), None, RunId::new(1)),
        None
    );
}

fn drive(mut run: TerminateRun) -> Vec<TerminatePhase> {
    let mut seen = Vec::new();
    loop {
        let next = match run.phase {
            TerminatePhase::Ended => return seen,
            TerminatePhase::Recheck => run.recheck(&[started(1, 1, None)]),
            _ => run.advance(Ok(())),
        };
        seen.push(match &next.phase {
            TerminatePhase::Record => TerminatePhase::Record,
            TerminatePhase::Kill => TerminatePhase::Kill,
            TerminatePhase::UpsertVisibility => TerminatePhase::UpsertVisibility,
            TerminatePhase::Notify => TerminatePhase::Notify,
            TerminatePhase::Deregister => TerminatePhase::Deregister,
            TerminatePhase::Ended => TerminatePhase::Ended,
            other => panic!("unexpected phase {other:?}"),
        });
        run = next;
    }
}

#[test]
fn a_completion_records_then_announces_then_deregisters() -> Result<(), EngineError> {
    let registry = registered();
    let run = complete(
        TerminateWorkflowContext { registry: &registry },
        &id(),
        &RunId::new(1),
        payload("result"),
    )?;
    assert_eq!(run.outcome, TerminalOutcome::Completed(payload("result")));
    assert_eq!(run.phase, TerminatePhase::Record);
    assert_eq!(
        drive(run),
        vec![TerminatePhase::Notify, TerminatePhase::Deregister, TerminatePhase::Ended]
    );
    Ok(())
}

#[test]
fn a_cancellation_records_before_it_kills() -> Result<(), EngineError> {
    let registry = registered();
    let run = cancel(
        TerminateWorkflowContext { registry: &registry },
        &id(),
        &RunId::new(1),
        String::from("caller requested cancellation"),
    )?;
    assert_eq!(
        run.outcome,
        TerminalOutcome::Cancelled(String::from("caller requested cancellation"))
    );
    assert_eq!(
        drive(run),
        vec![
            TerminatePhase::Record,
            TerminatePhase::Kill,
            TerminatePhase::UpsertVisibility,
            TerminatePhase::Notify,
            TerminatePhase::Deregister,
            TerminatePhase::Ended,
        ]
    );
    Ok(())
}

#[test]
fn cancel_loses_to_a_recorded_terminal() -> Result<(), EngineError> {
    let registry = registered();
    let run = cancel(
        TerminateWorkflowContext { registry: &registry },
        &id(),
        &RunId::new(1),
        String::from("late"),
    )?;
    let history = vec![
        started(1, 1, None),
        Event::WorkflowCompleted { envelope: envelope(2), result: payload("done") },
    ];
    assert_eq!(run.recheck(&history).phase, TerminatePhase::Lost);
    Ok(())
}

#[test]
fn a_pending_activity_is_named() {
    let history = vec![
        started(1, 1, None),
        Event::ActivityScheduled {
            envelope: envelope(2),
            activity_id: ActivityId::from_sequence_position(0),
            activity_type: String::from("charge"),
            input: payload("x"),
            task_queue: String::from("default"),
            node: None,
        },
    ];
    let Err(error) = guard_continue_as_new(&history, &id(), &RunId::new(1)) else {
        panic!("a pending activity keeps the run from continuing");
    };
    assert!(error.message().contains("pending work exists: 1 activities"));
    assert!(guard_no_pending_work(&history).is_err());
    assert!(guard_no_pending_work(&[started(1, 1, None)]).is_ok());
}

#[test]
fn a_pending_child_is_named() {
    let history = vec![
        started(1, 1, None),
        Event::ChildWorkflowStarted {
            envelope: envelope(2),
            child_workflow_id: WorkflowId::new(33),
            workflow_type: String::from("child"),
            input: payload("x"),
            package_version: PackageVersion::new("a".repeat(64)),
        },
    ];
    let Err(error) = guard_no_pending_work(&history) else {
        panic!("a pending child keeps the run from continuing");
    };
    assert!(error.message().contains("pending work exists: 0 activities"));
    assert!(error.message().contains("00000000-0000-0000-0000-000000000021"));
}

#[test]
fn a_replacement_keeps_the_workflow_and_its_namespace() {
    let request = ContinueAsNewRequest {
        input: payload("next"),
        workflow_type: Some(String::from("checkout")),
    };
    let start = replacement_start(&handle(), &request);
    assert_eq!(start.workflow_type, "checkout");
    assert_eq!(start.input, payload("next"));
    assert_eq!(start.options.workflow_id, Some(id()));
    assert_eq!(start.options.parent_run_id, Some(RunId::new(1)));
    assert_eq!(
        continued_outcome(&RunId::new(1), &request),
        TerminalOutcome::ContinuedAsNew {
            input: payload("next"),
            workflow_type: Some(String::from("checkout")),
            parent_run_id: RunId::new(1),
        }
    );
}
