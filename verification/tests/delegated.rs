//! Signals, queries, subscriptions and awaited results.

use aion::clock::{TimeSpan, Timestamp};
use aion::content_hash::ContentHash;
use aion::engine::delegated::{
    event_family, run_has_terminal_history, BirthPoll, BirthWindow, DeferredQueryService,
    DeferredSignalRouter, EventFamily, EventFilter, EventStreamLagged, SignalDeliveryConfig,
    TargetPhase, TargetReply, TargetRun,
};
use aion::error::{EngineError, QueryError, SignalRouterError};
use aion::event::{
    ContentType, Event, EventEnvelope, PackageVersion, Payload, SearchAttributeValue,
    WorkflowStatus,
};
use aion::ids::{RunId, ScheduleId, TimerId, WorkflowId};
use aion::registry::{Residency, WorkflowHandle};

fn id() -> WorkflowId {
    WorkflowId::new(61)
}

fn run_id() -> RunId {
    RunId::new(62)
}

fn payload(label: &str) -> Payload {
    Payload::new(ContentType::Json, label.as_bytes().to_vec())
}

fn envelope(workflow_id: WorkflowId) -> EventEnvelope {
    EventEnvelope { seq: 1, recorded_at: Timestamp { secs: 5, nanos: 0 }, workflow_id }
}

fn started() -> Event {
    Event::WorkflowStarted {
        envelope: envelope(id()),
        workflow_type: "checkout".to_owned(),
        input: payload("input"),
        run_id: run_id(),
        parent_run_id: None,
        package_version: PackageVersion::new("a".repeat(64)),
    }
}

fn completed() -> Event {
    Event::WorkflowCompleted { envelope: envelope(id()), result: payload("result") }
}

fn handle() -> WorkflowHandle {
    WorkflowHandle {
        workflow_id: id(),
        run_id: run_id(),
        pid: 7,
        workflow_type: "checkout".to_owned(),
        namespace: String::from("default"),
        loaded_version: ContentHash::from_bytes([1; 32]),
        cached_status: WorkflowStatus::Running,
        residency: Residency::Resident,
    }
}

fn policy() -> SignalDeliveryConfig {
    SignalDeliveryConfig {
        ready_timeout: TimeSpan::from_millis(20),
        initial_backoff: TimeSpan::from_millis(2),
        max_backoff: TimeSpan::from_millis(7),
        max_enqueue_attempts: 3,
    }
}

fn looked(found: Option<WorkflowHandle>, elapsed: u64) -> TargetReply {
    TargetReply::Looked { found, elapsed: TimeSpan::from_millis(elapsed) }
}

/// Resolves a request for a run, given what the registry and the store hold.
fn resolve(
    target: TargetRun,
    registered: Option<WorkflowHandle>,
    history: Vec<Event>,
) -> Result<WorkflowHandle, EngineError> {
    let mut target = target;
    loop {
        let reply = match &target.phase {
            TargetPhase::Lookup | TargetPhase::AwaitHandle(_) => looked(registered.clone(), 60),
            TargetPhase::ReadHistory => TargetReply::History(history.clone()),
            TargetPhase::Delegate(_) | TargetPhase::Refused(_) => break,
        };
        target = target.advance(reply);
    }
    match target.phase {
        TargetPhase::Delegate(handle) => Ok(handle),
        TargetPhase::Refused(error) => Err(error),
        other => panic!("the request has not ended: {other:?}"),
    }
}

#[test]
fn signal_delegates_to_router_and_unknown_returns_not_found() -> Result<(), EngineError> {
    let mut calls = Vec::new();
    let mut signal = |target, registered, history, name: &str, payload: Payload| {
        let handle = resolve(target, registered, history)?;
        calls.push((handle.pid, name.to_owned(), payload));
        Ok::<(), EngineError>(())
    };
    let target = TargetRun::signal(&id(), &run_id(), policy());
    signal(target, Some(handle()), vec![started()], "approve", payload("signal"))?;
    let target = TargetRun::signal(&WorkflowId::new(1), &RunId::new(2), policy());
    let unknown = signal(target, None, Vec::new(), "approve", payload("unknown"));
    assert!(matches!(unknown, Err(EngineError::WorkflowNotFound { .. })));
    assert_eq!(calls, vec![(handle().pid, "approve".to_owned(), payload("signal"))]);
    Ok(())
}

#[test]
fn signal_to_a_terminal_run_is_refused_typed() {
    let target = TargetRun::signal(&id(), &run_id(), policy())
        .advance(looked(None, 0))
        .advance(TargetReply::History(vec![started(), completed()]));
    assert_eq!(
        target.phase,
        TargetPhase::Refused(EngineError::SignalRouter(SignalRouterError::Terminal {
            workflow_id: id(),
            run_id: run_id(),
        }))
    );
}

#[test]
fn query_terminal_run_is_not_running_and_unknown_is_not_found() {
    let target = TargetRun::query(&id(), &run_id(), policy())
        .advance(looked(None, 0))
        .advance(TargetReply::History(vec![started(), completed()]));
    assert_eq!(
        target.phase,
        TargetPhase::Refused(EngineError::Query(QueryError::NotRunning(id())))
    );
    let target = TargetRun::query(&WorkflowId::new(1), &RunId::new(2), policy())
        .advance(looked(None, 0))
        .advance(TargetReply::History(Vec::new()));
    assert!(matches!(
        target.phase,
        TargetPhase::Refused(EngineError::WorkflowNotFound { .. })
    ));
}

#[test]
fn query_delegates_to_service_and_returns_payload() -> Result<(), EngineError> {
    let mut calls = Vec::new();
    let reply = payload("reply");
    let mut query = |target, registered, history, name: &str| {
        let handle = resolve(target, registered, history)?;
        calls.push((handle.pid, name.to_owned()));
        Ok::<Payload, EngineError>(reply.clone())
    };
    let target = TargetRun::query(&id(), &run_id(), policy());
    let returned = query(target, Some(handle()), vec![started()], "state")?;
    assert_eq!(returned, payload("reply"));
    assert_eq!(calls, vec![(handle().pid, "state".to_owned())]);
    Ok(())
}

#[test]
fn signal_inside_the_registration_birth_window_waits_for_the_handle() {
    let target = TargetRun::signal(&id(), &run_id(), policy())
        .advance(looked(None, 0))
        .advance(TargetReply::History(vec![started()]));
    assert!(matches!(target.phase, TargetPhase::AwaitHandle(_)));
    let target = target.advance(looked(None, 0)).advance(looked(None, 2));
    assert!(matches!(target.phase, TargetPhase::AwaitHandle(_)));
    let target = target.advance(looked(Some(handle()), 15));
    assert_eq!(target.phase, TargetPhase::Delegate(handle()));
}

#[test]
fn signal_for_a_started_run_with_no_handle_fails_typed_after_the_budget() {
    let waiting = || {
        TargetRun::signal(&id(), &run_id(), policy())
            .advance(looked(None, 0))
            .advance(TargetReply::History(vec![started()]))
    };
    assert!(matches!(
        waiting().advance(looked(None, 59)).phase,
        TargetPhase::AwaitHandle(_)
    ));
    assert!(matches!(
        waiting().advance(looked(None, 60)).phase,
        TargetPhase::Refused(EngineError::WorkflowNotFound { .. })
    ));
    assert_eq!(
        waiting().advance(looked(Some(handle()), 60)).phase,
        TargetPhase::Delegate(handle())
    );
}

#[test]
fn pauses_double_up_to_the_longest() {
    let mut window = BirthWindow::new(policy());
    assert_eq!(window.budget, TimeSpan::from_millis(60));
    let mut pauses = Vec::new();
    for _ in 0..4 {
        match window.poll(None, TimeSpan::from_millis(0)) {
            BirthPoll::Pause { pause, window: later } => {
                pauses.push(pause);
                window = later;
            }
            other => panic!("the budget lasts: {other:?}"),
        }
    }
    assert_eq!(
        pauses,
        vec![
            TimeSpan::from_millis(2),
            TimeSpan::from_millis(4),
            TimeSpan::from_millis(7),
            TimeSpan::from_millis(7),
        ]
    );
    let once = SignalDeliveryConfig { max_enqueue_attempts: 0, ..policy() };
    assert_eq!(BirthWindow::new(once).budget, TimeSpan::from_millis(20));
}

#[test]
fn a_reopened_run_is_not_terminal() {
    let mut history = vec![started(), completed()];
    assert!(run_has_terminal_history(&history, &run_id()));
    assert!(!run_has_terminal_history(&history, &RunId::new(1)));
    history.push(Event::WorkflowReopened {
        envelope: envelope(id()),
        run_id: run_id(),
        reopened: Vec::new(),
    });
    assert!(!run_has_terminal_history(&history, &run_id()));
}

#[test]
fn subscribe_delegates_to_publisher_stream_with_filter() {
    let matching = Event::SignalReceived {
        envelope: envelope(id()),
        name: "approved".to_owned(),
        payload: payload("signal"),
    };
    let filtered = Event::WorkflowStarted {
        envelope: envelope(WorkflowId::new(9)),
        workflow_type: "checkout".to_owned(),
        input: payload("input"),
        run_id: RunId::new(1),
        parent_run_id: None,
        package_version: PackageVersion::new("a".repeat(64)),
    };
    let filter =
        EventFilter { workflow_id: Some(id()), run: None, family: Some(EventFamily::Signal) };
    let events: Vec<&Event> =
        [&matching, &filtered].into_iter().filter(|event| filter.matches(event)).collect();
    assert_eq!(events, vec![&matching]);
    assert!(EventFilter::default().matches(&filtered));
    let other_family = EventFilter { family: Some(EventFamily::Timer), ..filter };
    assert!(!other_family.matches(&matching));
}

#[test]
fn every_event_belongs_to_one_family() {
    let schedule_id = ScheduleId::new(3);
    let cases = vec![
        (started(), EventFamily::Workflow),
        (completed(), EventFamily::Workflow),
        (
            Event::WorkflowPaused {
                envelope: envelope(id()),
                run_id: run_id(),
                reason: None,
                operator: None,
            },
            EventFamily::Workflow,
        ),
        (
            Event::SearchAttributesUpdated {
                envelope: envelope(id()),
                workflow_id: id(),
                attributes: vec![aion::event::SearchAttribute {
                    name: String::from("n"),
                    value: SearchAttributeValue::Int(1),
                }],
            },
            EventFamily::Workflow,
        ),
        (
            Event::ActivityStarted {
                envelope: envelope(id()),
                activity_id: aion::ids::ActivityId::from_sequence_position(1),
            },
            EventFamily::Activity,
        ),
        (
            Event::TimerFired { envelope: envelope(id()), timer_id: TimerId::anonymous(1) },
            EventFamily::Timer,
        ),
        (
            Event::WithTimeoutCompleted {
                envelope: envelope(id()),
                timer_id: TimerId::anonymous(1),
            },
            EventFamily::Timer,
        ),
        (
            Event::SignalSent {
                envelope: envelope(id()),
                target_workflow_id: id(),
                name: String::from("s"),
            },
            EventFamily::Signal,
        ),
        (
            Event::ChildWorkflowCompleted {
                envelope: envelope(id()),
                child_workflow_id: id(),
                result: payload("r"),
            },
            EventFamily::ChildWorkflow,
        ),
        (
            Event::ScheduleDeleted { envelope: envelope(id()), schedule_id },
            EventFamily::Schedule,
        ),
    ];
    for (event, family) in cases {
        assert_eq!(event_family(&event), family, "{event:?}");
    }
}

#[test]
fn a_lagging_subscriber_learns_how_many_events_it_missed() {
    assert_eq!(
        EventStreamLagged { skipped: 120 }.message(),
        "event subscription lagged behind the live stream and skipped 120 events"
    );
    assert_eq!(
        EventStreamLagged { skipped: 0 }.message(),
        "event subscription lagged behind the live stream and skipped 0 events"
    );
}

#[test]
fn deferred_seams_say_that_they_are_not_configured() {
    assert_eq!(
        DeferredSignalRouter.route(&handle(), String::from("approve"), payload("p")),
        Err(EngineError::Runtime {
            reason: String::from("signal routing seam is not configured"),
        })
    );
    assert_eq!(
        DeferredQueryService.query(&handle(), String::from("state")),
        Err(EngineError::Runtime {
            reason: String::from("query service seam is not configured"),
        })
    );
}
