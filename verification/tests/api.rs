//! Results, cancellation, listing, adoption, shutdown and schedules of a live engine.

use aion::clock::{TimeSpan, Timestamp};
use aion::content_hash::ContentHash;
use aion::engine::api::{
    catchup_schedule_coordinator, list_workflows, outcome_to_result, start_options, AdoptPhase,
    CancelPhase, CancelReply, CancelRun, ResultPhase, ResultReply, ResultRun, ShutdownPhase,
    WorkflowSummary,
};
use aion::engine::api_schedule::{
    describe_schedule, ensure_schedule_exists, list_schedules, schedule_coordinator_workflow_id,
    schedule_event_envelope, start_scheduled_workflow, ScheduleChange, ScheduleChangePhase,
    ScheduleChangeRun, ScheduleState,
};
use aion::engine::delegated::SignalDeliveryConfig;
use aion::engine::shutdown_gate::{ShutdownGate, ShutdownState};
use aion::error::EngineError;
use aion::event::{
    ContentType, Event, EventEnvelope, PackageVersion, Payload, TerminalOutcome, WorkflowStatus,
};
use aion::ids::{RunId, ScheduleId, TimerId, WorkflowId};
use aion::registry::{Residency, WorkflowHandle};

fn id() -> WorkflowId {
    WorkflowId::new(71)
}

fn payload(label: &str) -> Payload {
    Payload::new(ContentType::Json, label.as_bytes().to_vec())
}

fn envelope(seq: u64) -> EventEnvelope {
    EventEnvelope { seq, recorded_at: Timestamp { secs: 5, nanos: 0 }, workflow_id: id() }
}

fn started(seq: u64, run: u128) -> Event {
    Event::WorkflowStarted {
        envelope: envelope(seq),
        workflow_type: "checkout".to_owned(),
        input: payload("input"),
        run_id: RunId::new(run),
        parent_run_id: None,
        package_version: PackageVersion::new("a".repeat(64)),
    }
}

fn completed(seq: u64) -> Event {
    Event::WorkflowCompleted { envelope: envelope(seq), result: payload("result") }
}

fn handle() -> WorkflowHandle {
    WorkflowHandle {
        workflow_id: id(),
        run_id: RunId::new(1),
        pid: 7,
        workflow_type: "checkout".to_owned(),
        namespace: String::from("default"),
        loaded_version: ContentHash::from_bytes([1; 32]),
        cached_status: WorkflowStatus::Running,
        residency: Residency::Resident,
    }
}

fn request() -> ResultRun {
    ResultRun::result(
        &id(),
        &RunId::new(1),
        SignalDeliveryConfig {
            ready_timeout: TimeSpan::from_millis(20),
            initial_backoff: TimeSpan::from_millis(2),
            max_backoff: TimeSpan::from_millis(7),
            max_enqueue_attempts: 1,
        },
    )
}

fn looked(found: Option<WorkflowHandle>, elapsed: u64) -> ResultReply {
    ResultReply::Looked { found, elapsed: TimeSpan::from_millis(elapsed) }
}

#[test]
fn results_come_from_history_or_from_an_announcement() {
    let run = request().advance(ResultReply::History(vec![started(1, 1), completed(2)]));
    assert_eq!(run.phase, ResultPhase::Ended(Ok(payload("result"))));
    let run = request()
        .advance(ResultReply::History(vec![started(1, 1)]))
        .advance(looked(Some(handle()), 0))
        .advance(ResultReply::Outcome(TerminalOutcome::Completed(payload("later"))));
    assert_eq!(run.phase, ResultPhase::Ended(Ok(payload("later"))));
}

#[test]
fn result_of_another_run_is_not_taken_for_this_one() {
    let run = request().advance(ResultReply::History(vec![started(1, 2), completed(2)]));
    assert_eq!(run.phase, ResultPhase::Lookup { started: false });
}

#[test]
fn result_waits_for_a_started_run_and_rereads_when_its_channel_closes() {
    let waiting = request()
        .advance(ResultReply::History(vec![started(1, 1)]))
        .advance(looked(None, 0));
    assert!(matches!(waiting.phase, ResultPhase::AwaitHandle(_)));
    let spent = request()
        .advance(ResultReply::History(vec![started(1, 1)]))
        .advance(looked(None, 0))
        .advance(looked(None, 20));
    assert!(matches!(spent.phase, ResultPhase::Refused(EngineError::WorkflowNotFound { .. })));
    let closed = || {
        request()
            .advance(ResultReply::History(vec![started(1, 1)]))
            .advance(looked(Some(handle()), 0))
            .advance(ResultReply::Closed)
    };
    assert_eq!(closed().phase, ResultPhase::Reread);
    assert_eq!(
        closed().advance(ResultReply::History(vec![started(1, 1), completed(2)])).phase,
        ResultPhase::Ended(Ok(payload("result")))
    );
    assert_eq!(
        closed().advance(ResultReply::History(vec![started(1, 1)])).phase,
        ResultPhase::Refused(EngineError::Runtime {
            reason: String::from(
                "completion channel closed before workflow `00000000-0000-0000-0000-000000000047/00000000-0000-0000-0000-000000000001` finished"
            ),
        })
    );
}

#[test]
fn outcomes_are_told_as_results() {
    let message = |outcome| match outcome_to_result(outcome) {
        Err(error) => error.message,
        Ok(payload) => panic!("no result is expected: {payload:?}"),
    };
    assert_eq!(
        message(TerminalOutcome::Cancelled(String::from("stop"))),
        "workflow cancelled: stop"
    );
    assert_eq!(
        message(TerminalOutcome::TimedOut(String::from("workflow"))),
        "workflow timed out: workflow"
    );
    assert_eq!(
        message(TerminalOutcome::ContinuedAsNew {
            input: payload("next"),
            workflow_type: None,
            parent_run_id: RunId::new(1),
        }),
        "workflow continued as new from run 00000000-0000-0000-0000-000000000001"
    );
}

fn timer_started(seq: u64, timer: u64) -> Event {
    Event::TimerStarted {
        envelope: envelope(seq),
        timer_id: TimerId::anonymous(timer),
        fire_at: Timestamp { secs: 9, nanos: 0 },
    }
}

#[test]
fn timers_are_retired_in_the_order_of_their_starts() {
    let history = vec![started(1, 1), timer_started(2, 0), timer_started(3, 1)];
    let run = CancelRun::cancel_inflight_timers().advance(CancelReply::History(history));
    assert_eq!(run.timers, vec![TimerId::anonymous(0), TimerId::anonymous(1)]);
    assert_eq!(run.phase, CancelPhase::RetireTimer { timer: 0 });
    let run = run.advance(CancelReply::Settled);
    assert_eq!(run.phase, CancelPhase::RetireTimer { timer: 1 });
    assert_eq!(run.advance(CancelReply::Settled).phase, CancelPhase::Transition);
}

#[test]
fn timers_are_retired_before_the_transition() {
    let history = vec![started(1, 1), timer_started(2, 0)];
    let run = CancelRun::cancel_inflight_timers().advance(CancelReply::History(history));
    assert_eq!(run.phase, CancelPhase::RetireTimer { timer: 0 });
    assert_eq!(run.advance(CancelReply::Settled).phase, CancelPhase::Transition);
    let unread = CancelRun::cancel_inflight_timers().advance(CancelReply::Settled);
    assert_eq!(unread.phase, CancelPhase::Transition, "timer cleanup never fails a cancel");
}

fn summary(workflow: u128, secs: i64, status: WorkflowStatus) -> WorkflowSummary {
    WorkflowSummary {
        workflow_id: WorkflowId::new(workflow),
        workflow_type: String::from("checkout"),
        status,
        started_at: Timestamp { secs, nanos: 0 },
    }
}

#[test]
fn listings_are_ordered_and_prefer_the_live_summary() {
    let stored = vec![
        summary(3, 30, WorkflowStatus::Running),
        summary(1, 10, WorkflowStatus::Completed),
        summary(2, 10, WorkflowStatus::Failed),
    ];
    let live = vec![summary(3, 30, WorkflowStatus::Paused), summary(4, 5, WorkflowStatus::Running)];
    assert_eq!(
        list_workflows(&stored, &live),
        vec![
            summary(4, 5, WorkflowStatus::Running),
            summary(1, 10, WorkflowStatus::Completed),
            summary(2, 10, WorkflowStatus::Failed),
            summary(3, 30, WorkflowStatus::Paused),
        ]
    );
    assert!(list_workflows(&Vec::new(), &Vec::new()).is_empty());
}

#[test]
fn a_coordinator_resumes_after_what_it_recorded() {
    assert_eq!(catchup_schedule_coordinator(&[]), None);
    assert_eq!(catchup_schedule_coordinator(&[started(1, 1), completed(2)]), Some(2));
}

#[test]
fn a_callers_start_is_fresh() {
    let options =
        start_options(String::from("tenant"), Vec::new(), Some(id()), Some(String::from("key")));
    assert_eq!(options.namespace, Some(String::from("tenant")));
    assert_eq!(options.workflow_id, Some(id()));
    assert_eq!(options.routing_key, Some(String::from("key")));
    assert_eq!(options.parent_run_id, None);
    assert_eq!(options.loaded_version, None);
}

#[test]
fn shards_are_fenced_before_they_are_recovered() {
    let phase = AdoptPhase::Fence.advance(Ok(()));
    assert_eq!(phase, AdoptPhase::Recover);
    assert_eq!(phase.advance(Ok(())).advance(Ok(())), AdoptPhase::Adopted);
    assert_eq!(
        AdoptPhase::Fence.advance(Err(EngineError::ShuttingDown)),
        AdoptPhase::Failed(EngineError::ShuttingDown)
    );
}

#[test]
fn an_operation_in_flight_delays_the_shutdown() {
    let mut gate = ShutdownGate::new();
    assert_eq!(gate.begin_start(), Ok(()));
    assert!(!gate.close_and_wait(), "an operation is in flight");
    assert_eq!(gate.begin_start(), Err(EngineError::ShuttingDown));
    assert_eq!(gate.begin_operation(), Err(EngineError::ShuttingDown));
    assert!(gate.finish_operation(), "the last operation wakes the shutdown");
    assert!(gate.close_and_wait());
    assert_eq!(gate.state(), ShutdownState { shutting_down: true, active_operations: 0 });
}

#[test]
fn a_shutdown_goes_step_by_step() {
    let mut gate = ShutdownGate::new();
    assert!(gate.close_and_wait());
    assert!(gate.close_and_wait());
    let mut phase = ShutdownPhase::StopReconciliation;
    for expected in [
        ShutdownPhase::CloseGate,
        ShutdownPhase::StopRuntime,
        ShutdownPhase::StopChildTasks,
        ShutdownPhase::ShutDown,
        ShutdownPhase::ShutDown,
    ] {
        phase = phase.advance(Ok(()));
        assert_eq!(phase, expected);
    }
}

fn state(schedule: u128, next: Option<i64>, is_deleted: bool) -> ScheduleState {
    ScheduleState {
        schedule_id: ScheduleId::new(schedule),
        next_trigger_at: next.map(|secs| Timestamp { secs, nanos: 0 }),
        is_deleted,
    }
}

#[test]
fn schedules_are_listed_by_their_next_trigger() {
    let states = vec![
        state(1, Some(30), false),
        state(2, Some(20), true),
        state(3, Some(10), false),
        state(4, None, false),
        state(0, Some(30), false),
    ];
    assert_eq!(
        list_schedules(&states),
        vec![
            state(4, None, false),
            state(3, Some(10), false),
            state(0, Some(30), false),
            state(1, Some(30), false),
        ]
    );
    assert_eq!(describe_schedule(&states, &ScheduleId::new(3)), Ok(state(3, Some(10), false)));
    assert_eq!(
        describe_schedule(&states, &ScheduleId::new(2)),
        Err(EngineError::ScheduleNotFound { schedule_id: ScheduleId::new(2) })
    );
    assert_eq!(ensure_schedule_exists(&states, &ScheduleId::new(1)), Ok(()));
}

fn begun(
    gate: &mut ShutdownGate,
    states: &Vec<ScheduleState>,
    change: ScheduleChange,
) -> ScheduleChangeRun {
    match ScheduleChangeRun::begin(gate, states, ScheduleId::new(1), change) {
        Ok(run) => run,
        Err(error) => panic!("the engine is open: {error:?}"),
    }
}

#[test]
fn schedule_changes_are_recorded_then_rechecked_then_applied() {
    let states = vec![state(1, Some(30), false)];
    let schedule_id = ScheduleId::new(1);
    let mut gate = ShutdownGate::new();
    let run = begun(&mut gate, &states, ScheduleChange::Resume);
    assert_eq!(
        run.event(Timestamp { secs: 8, nanos: 0 }),
        Event::ScheduleResumed {
            envelope: schedule_event_envelope(Timestamp { secs: 8, nanos: 0 }),
            schedule_id,
        }
    );
    let run = run.advance(Ok(()));
    assert_eq!(run.phase, ScheduleChangePhase::Recheck);
    let run = run.recheck(&states).advance(Ok(()));
    assert_eq!(run.phase, ScheduleChangePhase::Arm);
    assert_eq!(run.advance(Ok(())).phase, ScheduleChangePhase::Changed);

    let paused = begun(&mut gate, &states, ScheduleChange::Pause)
        .advance(Ok(()))
        .recheck(&states)
        .advance(Ok(()));
    assert_eq!(paused.phase, ScheduleChangePhase::Changed, "a pause arms nothing");
    let gone = begun(&mut gate, &states, ScheduleChange::Delete)
        .advance(Ok(()))
        .recheck(&Vec::new());
    assert_eq!(
        gone.phase,
        ScheduleChangePhase::Failed(EngineError::ScheduleNotFound { schedule_id })
    );
    let unknown = begun(&mut gate, &Vec::new(), ScheduleChange::Update(payload("daily")));
    assert_eq!(
        unknown.phase,
        ScheduleChangePhase::Failed(EngineError::ScheduleNotFound { schedule_id })
    );
    assert_eq!(gate.state().active_operations, 4);
}

#[test]
fn a_configuration_is_recorded_as_it_was_given() {
    let at = Timestamp { secs: 8, nanos: 0 };
    let schedule_id = ScheduleId::new(1);
    let envelope = schedule_event_envelope(at);
    let mut gate = ShutdownGate::new();
    let hourly = payload("hourly");
    let Ok(run) = ScheduleChangeRun::create_schedule(&mut gate, schedule_id, hourly.clone())
    else {
        panic!("the engine is open");
    };
    assert_eq!(run.event(at), Event::ScheduleCreated { envelope, schedule_id, config: hourly });
    let created = run.advance(Ok(()));
    assert_eq!(created.phase, ScheduleChangePhase::Apply);
    assert_eq!(created.advance(Ok(())).phase, ScheduleChangePhase::Arm);

    let states = vec![state(1, Some(30), false)];
    let daily = payload("daily");
    let run = begun(&mut gate, &states, ScheduleChange::Update(daily.clone()));
    assert_eq!(run.event(at), Event::ScheduleUpdated { envelope, schedule_id, config: daily });
    let run = run.advance(Ok(())).recheck(&states).advance(Ok(()));
    assert_eq!(run.phase, ScheduleChangePhase::Arm, "an update arms the schedule anew");
}

#[test]
fn scheduled_workflows_start_fresh() {
    let start = start_scheduled_workflow("checkout", payload("scheduled"), Vec::new());
    assert_eq!(start.workflow_type, "checkout");
    assert_eq!(start.options.workflow_id, None);
    assert_eq!(start.options.namespace, None);
    assert_eq!(
        schedule_coordinator_workflow_id().text(),
        "00000000-a10a-0000-0000-000000000004"
    );
}
