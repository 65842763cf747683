//! Elapsed workflow deadlines, driven against an in-memory history.

use aion::clock::Timestamp;
use aion::content_hash::ContentHash;
use aion::error::{EngineError, StoreError};
use aion::event::{
    ContentType, Event, EventEnvelope, PackageVersion, Payload, TerminalOutcome, TimerCancelCause,
    WorkflowStatus,
};
use aion::history::status_from_events;
use aion::ids::{deadline_timer_id, RunId, TimerId, WorkflowId};
use aion::lifecycle::deadline::{
    deadline_verdict, DeadlinePhase, DeadlineReply, DeadlineVerdict, WorkflowDeadlineHandler,
};
use aion::lifecycle::terminate::{cancel, TerminatePhase, TerminateWorkflowContext};
use aion::registry::{Registry, Residency, WorkflowHandle};
use aion::time::{
    live_timers_in_active_segment, outstanding_deadline_timer, WORKFLOW_TIMEOUT_DESCRIPTOR,
};

struct TimedRun {
    history: Vec<Event>,
    registry: Registry,
    notified: Vec<TerminalOutcome>,
    killed: usize,
}

fn id() -> WorkflowId {
    WorkflowId::new(31)
}

fn run_id() -> RunId {
    RunId::new(32)
}

impl TimedRun {
    fn new() -> Self {
        let mut run = Self {
            history: Vec::new(),
            registry: Registry::new(),
            notified: Vec::new(),
            killed: 0,
        };
        let envelope = run.envelope();
        run.history.push(Event::WorkflowStarted {
            envelope,
            workflow_type: "sleeper".to_owned(),
            input: Payload::new(ContentType::Json, b"{}".to_vec()),
            run_id: run_id(),
            parent_run_id: None,
            package_version: PackageVersion::new("a".repeat(64)),
        });
        run.registry.insert(WorkflowHandle {
            workflow_id: id(),
            run_id: run_id(),
            pid: 4,
            workflow_type: "sleeper".to_owned(),
            namespace: String::from("default"),
            loaded_version: ContentHash::from_bytes([7; 32]),
            cached_status: WorkflowStatus::Running,
            residency: Residency::Resident,
        });
        run
    }

    fn envelope(&self) -> EventEnvelope {
        EventEnvelope {
            seq: self.history.len() as u64 + 1,
            recorded_at: Timestamp { secs: 1_700_000_000, nanos: 0 },
            workflow_id: id(),
        }
    }

    fn start_timer(&mut self, timer_id: TimerId) {
        let envelope = self.envelope();
        let fire_at = envelope.recorded_at;
        self.history.push(Event::TimerStarted { envelope, timer_id, fire_at });
    }

    fn arm_deadline(&mut self) {
        self.start_timer(deadline_timer_id(&run_id()));
    }

    fn cancel_timer(&mut self, timer_id: TimerId, cause: TimerCancelCause) {
        let envelope = self.envelope();
        self.history.push(Event::TimerCancelled { envelope, timer_id, cause });
    }

    fn record_completed(&mut self) {
        let envelope = self.envelope();
        let result = Payload::new(ContentType::Json, b"\"done\"".to_vec());
        self.history.push(Event::WorkflowCompleted { envelope, result });
    }

    fn record_timed_out(&mut self) {
        let envelope = self.envelope();
        self.history.push(Event::WorkflowTimedOut {
            envelope,
            timeout: WORKFLOW_TIMEOUT_DESCRIPTOR.to_owned(),
        });
    }

    fn record_cancelled(&mut self, reason: String) {
        let envelope = self.envelope();
        self.history.push(Event::WorkflowCancelled { envelope, reason });
    }

    /// Performs every step that an elapsed deadline asks for.
    fn on_deadline_elapsed(&mut self, visibility_fails: bool) -> Result<(), EngineError> {
        let mut run =
            WorkflowDeadlineHandler::new(&self.registry).drive_timed_out(id(), run_id());
        loop {
            let reply = match &run.phase {
                DeadlinePhase::Recheck | DeadlinePhase::ListTimers => {
                    DeadlineReply::History(self.history.clone())
                }
                DeadlinePhase::Record => {
                    assert_eq!(run.outcome(), TerminalOutcome::TimedOut(String::from("workflow")));
                    self.record_timed_out();
                    DeadlineReply::Done
                }
                DeadlinePhase::Kill => {
                    self.killed += 1;
                    DeadlineReply::Failed(EngineError::Runtime {
                        reason: String::from("already exited"),
                    })
                }
                DeadlinePhase::UpsertVisibility => {
                    if visibility_fails {
                        DeadlineReply::Failed(EngineError::Store(StoreError::Backend(
                            String::from("forced visibility failure"),
                        )))
                    } else {
                        DeadlineReply::Done
                    }
                }
                DeadlinePhase::RetireTimer { timer } => {
                    let timer_id = run.timers[*timer].clone();
                    self.cancel_timer(timer_id, TimerCancelCause::CancelTeardown);
                    DeadlineReply::Done
                }
                DeadlinePhase::Notify => {
                    self.notified.push(run.outcome());
                    DeadlineReply::Done
                }
                DeadlinePhase::Deregister => {
                    assert!(self.registry.remove(&id(), &run_id()).is_some());
                    DeadlineReply::Done
                }
                DeadlinePhase::TornDown | DeadlinePhase::Lost => return Ok(()),
                DeadlinePhase::Failed(_) => break,
            };
            run = run.advance(reply);
        }
        match run.phase {
            DeadlinePhase::Failed(error) => Err(error),
            phase => panic!("unexpected end {phase:?}"),
        }
    }

    fn count_timed_out(&self) -> usize {
        self.history.iter().filter(|event| matches!(event, Event::WorkflowTimedOut { .. })).count()
    }

    fn registered(&self) -> bool {
        self.registry.get(&id(), &run_id()).is_some()
    }
}

#[test]
fn deadline_records_timed_out_and_tears_down() {
    let mut run = TimedRun::new();
    run.arm_deadline();
    assert_eq!(run.on_deadline_elapsed(false), Ok(()));
    assert_eq!(run.count_timed_out(), 1);
    assert!(run.history.iter().any(|event| matches!(
        event,
        Event::WorkflowTimedOut { timeout, .. } if timeout == "workflow"
    )));
    assert_eq!(status_from_events(&run.history), WorkflowStatus::TimedOut);
    assert_eq!(run.notified, vec![TerminalOutcome::TimedOut(String::from("workflow"))]);
    assert!(!run.registered());
    assert_eq!(run.killed, 1);
}

#[test]
fn deadline_loses_to_an_already_recorded_terminal() {
    let mut run = TimedRun::new();
    run.record_completed();
    assert_eq!(run.on_deadline_elapsed(false), Ok(()));
    assert_eq!(run.count_timed_out(), 0);
    assert_eq!(status_from_events(&run.history), WorkflowStatus::Completed);
}

#[test]
fn deadline_for_deregistered_run_is_a_noop() {
    let mut run = TimedRun::new();
    run.arm_deadline();
    assert!(run.registry.remove(&id(), &run_id()).is_some());
    assert_eq!(run.on_deadline_elapsed(false), Ok(()));
    assert_eq!(run.count_timed_out(), 0);
}

#[test]
fn teardown_failure_preserves_retry_anchors_then_resumes() {
    let mut run = TimedRun::new();
    run.arm_deadline();
    assert!(
        run.on_deadline_elapsed(true).is_err(),
        "an incomplete teardown must be propagated, not swallowed"
    );
    assert_eq!(run.count_timed_out(), 1, "the terminal is recorded once");
    assert!(
        outstanding_deadline_timer(&run.history, &run_id()).is_some(),
        "the deadline stays live as the resume anchor"
    );
    assert!(run.registered(), "the run stays registered as the second resume anchor");
    assert_eq!(run.on_deadline_elapsed(false), Ok(()));
    assert_eq!(run.count_timed_out(), 1, "resuming records no second terminal");
    assert_eq!(
        outstanding_deadline_timer(&run.history, &run_id()),
        None,
        "the resumed teardown finally retires the deadline"
    );
    assert!(!run.registered(), "the resumed teardown deregisters the run");
}

#[test]
fn timeout_teardown_retires_the_runs_active_timers() {
    let mut run = TimedRun::new();
    run.arm_deadline();
    run.start_timer(TimerId::named("nap"));
    assert_eq!(run.on_deadline_elapsed(false), Ok(()));
    assert_eq!(run.count_timed_out(), 1);
    assert!(live_timers_in_active_segment(&run.history).is_empty());
    let mut cancelled = Vec::new();
    for event in &run.history {
        if let Event::TimerCancelled { timer_id, .. } = event {
            cancelled.push(timer_id.clone());
        }
    }
    assert_eq!(
        cancelled,
        vec![TimerId::named("nap"), deadline_timer_id(&run_id())],
        "the parked sleep is retired, and the deadline after it"
    );
    assert!(!run.registered());
}

#[test]
fn retired_deadline_loses_before_any_workflow_terminal() {
    let mut run = TimedRun::new();
    run.arm_deadline();
    run.cancel_timer(deadline_timer_id(&run_id()), TimerCancelCause::WorkflowIntent);
    assert_eq!(run.on_deadline_elapsed(false), Ok(()));
    assert_eq!(run.count_timed_out(), 0, "a retired deadline never times the run out");
}

#[test]
fn re_fire_after_recorded_timeout_resumes_teardown_without_a_second_terminal() {
    let mut run = TimedRun::new();
    run.arm_deadline();
    run.record_timed_out();
    assert!(run.registered());
    assert_eq!(run.on_deadline_elapsed(false), Ok(()));
    assert_eq!(run.count_timed_out(), 1);
    assert!(!run.registered(), "resumed teardown deregisters the run");
}

#[test]
fn deadline_and_cancel_race_records_exactly_one_terminal() {
    for deadline_first in [true, false] {
        let mut run = TimedRun::new();
        run.arm_deadline();
        let transition = cancel(
            TerminateWorkflowContext { registry: &run.registry },
            &id(),
            &run_id(),
            String::from("operator cancel"),
        );
        let Ok(transition) = transition else {
            panic!("the run is registered");
        };
        if deadline_first {
            assert_eq!(run.on_deadline_elapsed(false), Ok(()));
            assert_eq!(transition.recheck(&run.history).phase, TerminatePhase::Lost);
        } else {
            assert_eq!(transition.recheck(&run.history).phase, TerminatePhase::Record);
            run.record_cancelled(String::from("operator cancel"));
            assert_eq!(run.on_deadline_elapsed(false), Ok(()));
        }
        let terminals = run
            .history
            .iter()
            .filter(|event| {
                matches!(
                    event,
                    Event::WorkflowTimedOut { .. } | Event::WorkflowCancelled { .. }
                )
            })
            .count();
        assert_eq!(terminals, 1, "exactly one terminal wins");
    }
}

#[test]
fn the_verdict_on_a_deadline_follows_the_history() {
    let mut run = TimedRun::new();
    assert_eq!(deadline_verdict(&run.history, &run_id()), DeadlineVerdict::Lost);
    run.arm_deadline();
    assert_eq!(deadline_verdict(&run.history, &run_id()), DeadlineVerdict::TimesOut);
    assert_eq!(deadline_verdict(&run.history, &RunId::new(99)), DeadlineVerdict::Lost);
    run.record_timed_out();
    assert_eq!(deadline_verdict(&run.history, &run_id()), DeadlineVerdict::ResumesTeardown);
}
