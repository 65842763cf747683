//! Workflow starts, clock arithmetic, identifiers and error texts.

use aion::clock::{after_span, SpanError, TimeSpan, Timestamp};
use aion::content_hash::ContentHash;
use aion::error::{
    from_schedule_evaluator_error, DurabilityError, EngineError, PinHolder, QueryError,
    ScheduleEvaluatorError, SignalRouterError, StoreError,
};
use aion::ids::{RunId, ScheduleId, WorkflowId};
use aion::lifecycle::start::{
    deadline_fire_at, initial_head, AbortOutcome, AttachOutcome, StartPhase, StartReply, StartRun,
    StartWorkflowOptions,
};

fn now() -> Timestamp {
    Timestamp { secs: 1_700_000_000, nanos: 500_000_000 }
}

fn runtime(reason: &str) -> EngineError {
    EngineError::Runtime { reason: String::from(reason) }
}

/// A start whose process has been spawned and registered.
fn published(timeout: Option<TimeSpan>) -> StartRun {
    let mut run = StartRun::new(now(), timeout);
    loop {
        let reply = match &run.phase {
            StartPhase::Spawn => StartReply::Spawned(42),
            StartPhase::ArmDeadline { .. } | StartPhase::InstallMonitor => return run,
            _ => StartReply::Done,
        };
        run = run.advance(reply);
    }
}

#[test]
fn a_start_goes_step_by_step() {
    let mut run = StartRun::new(now(), None);
    let mut phases = Vec::new();
    loop {
        phases.push(format!("{:?}", run.phase));
        let reply = match &run.phase {
            StartPhase::Started => break,
            StartPhase::Spawn => StartReply::Spawned(42),
            _ => StartReply::Done,
        };
        run = run.advance(reply);
    }
    assert_eq!(
        phases,
        vec![
            "RecordStarted",
            "UpsertVisibility",
            "EnsureSupervisor",
            "Spawn",
            "Place",
            "Publish",
            "InstallMonitor",
            "DeliverSignals",
            "Started",
        ]
    );
    assert!(run.facts.published && run.facts.monitored);
    assert_eq!(run.facts.pid, Some(42));
}

#[test]
fn a_declared_timeout_is_recorded_and_armed() {
    let run = StartRun::new(now(), Some(TimeSpan::from_millis(1_500))).advance(StartReply::Done);
    let fire_at = Timestamp { secs: 1_700_000_002, nanos: 0 };
    assert_eq!(run.phase, StartPhase::RecordDeadline { fire_at });
    let run = published(Some(TimeSpan::from_millis(1_500)));
    assert_eq!(run.phase, StartPhase::ArmDeadline { fire_at });
    let run = run.advance(StartReply::Done);
    assert!(run.facts.deadline_armed);
}

#[test]
fn a_start_whose_monitor_fails_is_retracted() {
    let run = published(None).advance(StartReply::Failed(runtime("monitor")));
    assert_eq!(run.phase, StartPhase::AbortPublished { cause: runtime("monitor") });
    let run = run.advance(StartReply::Aborted(AbortOutcome::Terminated));
    assert_eq!(run.phase, StartPhase::RetractPublication { cause: runtime("monitor") });
    let run = run.advance(StartReply::Done);
    assert_eq!(run.phase, StartPhase::Failed(runtime("monitor")));
    assert!(run.facts.terminated && !run.facts.published);
}

#[test]
fn a_process_that_cannot_be_aborted_stays_registered() {
    let run = published(None)
        .advance(StartReply::Failed(runtime("monitor")))
        .advance(StartReply::Aborted(AbortOutcome::NotSubmitted(runtime("queue full"))));
    assert_eq!(run.phase, StartPhase::RetainWithMonitor { cause: runtime("monitor") });
    let run = run.advance(StartReply::Done);
    assert_eq!(run.phase, StartPhase::Failed(runtime("monitor")));
    assert!(run.facts.published && run.facts.monitored && !run.facts.terminated);
    let pending = published(None)
        .advance(StartReply::Failed(runtime("monitor")))
        .advance(StartReply::Aborted(AbortOutcome::TimedOut(runtime("slow"))))
        .advance(StartReply::Attached(AttachOutcome::Attached));
    assert_eq!(pending.phase, StartPhase::Failed(runtime("monitor")));
    assert!(pending.facts.abort_pending);
}

#[test]
fn an_unregistered_process_is_aborted() {
    let run = StartRun::new(now(), None)
        .advance(StartReply::Done)
        .advance(StartReply::Done)
        .advance(StartReply::Done)
        .advance(StartReply::Spawned(9))
        .advance(StartReply::Failed(runtime("place")));
    assert_eq!(run.phase, StartPhase::AbortUnpublished { cause: runtime("place") });
    let run = run.advance(StartReply::Aborted(AbortOutcome::Terminated));
    assert_eq!(run.phase, StartPhase::Failed(runtime("place")));
    assert!(run.facts.terminated);
}

#[test]
fn a_fresh_workflow_starts_from_an_empty_history() {
    assert_eq!(initial_head(false, &[]), 0);
    assert_eq!(initial_head(true, &[]), 0);
    let options = StartWorkflowOptions::default();
    assert_eq!(options.workflow_id, None);
    assert!(options.search_attributes.is_empty());
}

#[test]
fn deadlines_lie_a_timeout_after_the_start() {
    assert_eq!(
        deadline_fire_at(now(), TimeSpan::from_secs(3_600)),
        Ok(Timestamp { secs: 1_700_003_600, nanos: 500_000_000 })
    );
    assert_eq!(
        deadline_fire_at(now(), TimeSpan::from_secs(u64::MAX)),
        Err(runtime(
            "declared workflow timeout is out of range: Source duration value is out of range for the target type"
        ))
    );
    assert_eq!(
        deadline_fire_at(now(), TimeSpan::from_secs(9_000_000_000_000)),
        Err(runtime("declared workflow timeout overflowed the deadline fire time"))
    );
}

#[test]
fn instants_move_by_spans() {
    let epoch = Timestamp { secs: 0, nanos: 0 };
    assert_eq!(
        after_span(epoch, TimeSpan { secs: 1, nanos: 1 }),
        Ok(Timestamp { secs: 1, nanos: 1 })
    );
    assert_eq!(
        after_span(Timestamp { secs: -1, nanos: 999_999_999 }, TimeSpan { secs: 0, nanos: 1 }),
        Ok(epoch)
    );
    assert!(matches!(
        after_span(epoch, TimeSpan::from_secs(u64::MAX)),
        Err(SpanError::OutOfRange(_))
    ));
    assert!(Timestamp { secs: 0, nanos: 1 }.is_after(&epoch));
    assert!(!epoch.is_after(&epoch));
}

#[test]
fn spans_multiply_up_to_the_longest() {
    assert_eq!(TimeSpan::from_millis(400).saturating_mul(3), TimeSpan::from_millis(1_200));
    assert_eq!(TimeSpan::from_secs(7).saturating_mul(0), TimeSpan::from_secs(0));
    let longest = TimeSpan { secs: u64::MAX, nanos: 999_999_999 };
    assert_eq!(longest.saturating_mul(2), longest);
    assert_eq!(TimeSpan::from_secs(u64::MAX).saturating_mul(u32::MAX), longest);
    assert!(longest.exceeds(&TimeSpan::from_secs(u64::MAX)));
    assert!(!longest.exceeds(&longest));
}

#[test]
fn identifiers_have_their_canonical_text() {
    assert_eq!(
        WorkflowId::new(0xfedc_ba98_7654_3210_0123_4567_89ab_cdef).text(),
        "fedcba98-7654-3210-0123-456789abcdef"
    );
    assert_eq!(RunId::new(0).text(), "00000000-0000-0000-0000-000000000000");
    let random = uuid::Uuid::new_v4();
    assert_eq!(ScheduleId::new(random.as_u128()).text(), random.to_string());
}

#[test]
fn content_hashes_read_back_from_their_text() {
    let hash = ContentHash::from_bytes([0x5a; 32]);
    assert_eq!(hash.text(), "5a".repeat(32));
    assert_eq!(ContentHash::parse(&hash.text()), Some(hash));
    assert_eq!(ContentHash::parse("5a"), None);
    assert_eq!(ContentHash::parse(&"5A".repeat(32)), None);
    assert_eq!(ContentHash::parse(&"zz".repeat(32)), None);
    assert!(!hash.same(&ContentHash::from_bytes([0x5b; 32])));
}

#[test]
fn errors_describe_themselves() {
    let version = ContentHash::from_bytes([1; 32]);
    let id = WorkflowId::new(1);
    let run_id = RunId::new(2);
    assert_eq!(EngineError::MissingStore.message(), "engine store is required");
    assert_eq!(EngineError::ShuttingDown.message(), "engine is shutting down");
    assert_eq!(runtime("x").message(), "runtime error: x");
    assert_eq!(
        EngineError::UnknownVersion {
            workflow_type: String::from("order"),
            version,
            loaded: String::from("none"),
        }
        .message(),
        format!(
            "workflow `order` version `{}` is not loaded (loaded versions: none)",
            version.text()
        )
    );
    assert_eq!(
        EngineError::CleanupExecutorShutdownTimedOut { timeout_millis: 1_250 }.message(),
        "process cleanup executor did not stop within 1250ms"
    );
    assert_eq!(
        EngineError::Gate3BifReplacementMissing {
            module: String::from("erlang"),
            function: String::from("spawn"),
            arity: 3,
        }
        .message(),
        "required Gate-3 BIF `erlang:spawn/3` was missing during runtime startup"
    );
    assert_eq!(
        EngineError::WorkflowNotFound { workflow_type: String::from("order") }.message(),
        "workflow `order` was not found"
    );
    let texts = [
        EngineError::Store(StoreError::NotOwner {
            shard: 7,
            reason: String::from("shard 7 has moved"),
        }).message(),
        EngineError::Durability(DurabilityError::Store(StoreError::Backend(String::from("down"))))
            .message(),
        EngineError::Query(QueryError::UnknownQuery {
            name: String::from("state"),
            reason: String::from("no query `state`"),
        })
        .message(),
        EngineError::SignalRouter(SignalRouterError::Terminal { workflow_id: id, run_id })
            .message(),
        PinHolder::LiveRun { workflow_id: id, run_id }.message(),
    ];
    assert_eq!(texts[0], "store error: shard 7 has moved");
    assert!(texts[1].starts_with("durability error: ") && texts[1].contains("down"));
    assert_eq!(texts[2], "query error: no query `state`");
    assert!(texts[3].starts_with("signal router error: ") && texts[3].contains(&id.text()));
    assert!(texts[4].contains(&id.text()) && texts[4].contains(&run_id.text()));
}

#[test]
fn evaluator_errors_become_engine_errors() {
    let schedule_id = ScheduleId::new(3);
    assert_eq!(
        from_schedule_evaluator_error(ScheduleEvaluatorError::ScheduleNotFound { schedule_id }),
        EngineError::ScheduleNotFound { schedule_id }
    );
    assert_eq!(
        from_schedule_evaluator_error(ScheduleEvaluatorError::Other {
            reason: String::from("bad cron"),
        }),
        EngineError::Schedule { reason: String::from("bad cron") }
    );
}
