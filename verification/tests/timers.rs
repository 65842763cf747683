//! Durable timers and run deadlines as histories show them.

use aion::clock::Timestamp;
use aion::event::{ContentType, Event, EventEnvelope, PackageVersion, Payload, TimerCancelCause};
use aion::ids::{deadline_run_id, deadline_timer_id, RunId, TimerId, WorkflowId};
use aion::time::{live_timers_in_active_segment, outstanding_deadline_timer};

fn envelope(workflow_id: &WorkflowId, seq: u64) -> EventEnvelope {
    EventEnvelope {
        seq,
        recorded_at: Timestamp { secs: 1_700_000_000, nanos: 0 },
        workflow_id: *workflow_id,
    }
}

fn started_run(workflow_id: &WorkflowId, seq: u64, run: u128) -> Event {
    Event::WorkflowStarted {
        envelope: envelope(workflow_id, seq),
        workflow_type: String::from("checkout"),
        input: Payload::new(ContentType::Json, b"{}".to_vec()),
        run_id: RunId::new(run),
        parent_run_id: None,
        package_version: PackageVersion::new("a".repeat(64)),
    }
}

fn started_event(workflow_id: &WorkflowId, seq: u64) -> Event {
    started_run(workflow_id, seq, u128::from(seq) + 100)
}

fn timer_started_event(workflow_id: &WorkflowId, seq: u64, timer_id: &TimerId) -> Event {
    Event::TimerStarted {
        envelope: envelope(workflow_id, seq),
        timer_id: timer_id.clone(),
        fire_at: Timestamp { secs: 1_700_000_500, nanos: 0 },
    }
}

fn timer_fired_event(workflow_id: &WorkflowId, seq: u64, timer_id: &TimerId) -> Event {
    Event::TimerFired { envelope: envelope(workflow_id, seq), timer_id: timer_id.clone() }
}

fn timer_cancelled_event(workflow_id: &WorkflowId, seq: u64, timer_id: &TimerId) -> Event {
    Event::TimerCancelled {
        envelope: envelope(workflow_id, seq),
        timer_id: timer_id.clone(),
        cause: TimerCancelCause::WorkflowIntent,
    }
}

#[test]
fn live_timers_lists_started_and_unterminated() {
    let workflow_id = WorkflowId::new(7);
    let first = TimerId::anonymous(0);
    let second = TimerId::anonymous(1);
    let history = vec![
        started_event(&workflow_id, 0),
        timer_started_event(&workflow_id, 1, &first),
        timer_started_event(&workflow_id, 2, &second),
    ];
    assert_eq!(
        live_timers_in_active_segment(&history),
        vec![first, second],
        "both started, unterminated timers should be live, in start order"
    );
}

#[test]
fn live_timers_excludes_fired_and_cancelled() {
    let workflow_id = WorkflowId::new(7);
    let fired = TimerId::anonymous(0);
    let cancelled = TimerId::anonymous(1);
    let live = TimerId::anonymous(2);
    let history = vec![
        started_event(&workflow_id, 0),
        timer_started_event(&workflow_id, 1, &fired),
        timer_started_event(&workflow_id, 2, &cancelled),
        timer_started_event(&workflow_id, 3, &live),
        timer_fired_event(&workflow_id, 4, &fired),
        timer_cancelled_event(&workflow_id, 5, &cancelled),
    ];
    assert_eq!(
        live_timers_in_active_segment(&history),
        vec![live],
        "only the timer with no terminal event remains live"
    );
}

#[test]
fn live_timers_dedups_repeated_start() {
    let workflow_id = WorkflowId::new(7);
    let timer = TimerId::anonymous(0);
    let history = vec![
        started_event(&workflow_id, 0),
        timer_started_event(&workflow_id, 1, &timer),
        timer_started_event(&workflow_id, 2, &timer),
    ];
    assert_eq!(live_timers_in_active_segment(&history), vec![timer]);
}

#[test]
fn live_timers_scopes_to_active_run_segment() {
    let workflow_id = WorkflowId::new(7);
    let prior_run = TimerId::anonymous(0);
    let current_run = TimerId::anonymous(0);
    let history = vec![
        started_event(&workflow_id, 0),
        timer_started_event(&workflow_id, 1, &prior_run),
        started_event(&workflow_id, 2),
        timer_started_event(&workflow_id, 3, &current_run),
    ];
    assert_eq!(
        live_timers_in_active_segment(&history),
        vec![current_run],
        "only timers from the latest WorkflowStarted segment are live"
    );
}

#[test]
fn live_timers_empty_history_is_empty() {
    assert!(live_timers_in_active_segment(&[]).is_empty());
}

#[test]
fn a_timer_of_an_earlier_run_is_not_live() {
    let workflow_id = WorkflowId::new(7);
    let timer = TimerId::named("nap");
    let history = vec![
        started_event(&workflow_id, 0),
        timer_started_event(&workflow_id, 1, &timer),
        started_event(&workflow_id, 2),
    ];
    assert!(live_timers_in_active_segment(&history).is_empty());
}

#[test]
fn a_restarted_timer_is_live_again() {
    let workflow_id = WorkflowId::new(7);
    let timer = TimerId::anonymous(3);
    let history = vec![
        started_event(&workflow_id, 0),
        timer_started_event(&workflow_id, 1, &timer),
        timer_cancelled_event(&workflow_id, 2, &timer),
        timer_started_event(&workflow_id, 3, &timer),
    ];
    assert_eq!(live_timers_in_active_segment(&history), vec![timer]);
}

#[test]
fn deadline_timers_carry_their_run() {
    let run = RunId::new(0x0123_4567_89ab_cdef_0123_4567_89ab_cdef);
    let timer = deadline_timer_id(&run);
    assert_eq!(timer, TimerId::named("deadline:01234567-89ab-cdef-0123-456789abcdef"));
    assert_eq!(deadline_run_id(&timer), Some(run));
    assert_eq!(deadline_run_id(&TimerId::named("deadline:")), None);
    assert_eq!(deadline_run_id(&TimerId::named("deadline:not-a-run")), None);
    assert_eq!(deadline_run_id(&TimerId::named("nap")), None);
    assert_eq!(deadline_run_id(&TimerId::anonymous(4)), None);
}

#[test]
fn a_deadline_is_outstanding_until_it_is_retired() {
    let workflow_id = WorkflowId::new(7);
    let run = RunId::new(9);
    let timer = deadline_timer_id(&run);
    let mut history = vec![started_run(&workflow_id, 1, 9)];
    assert_eq!(outstanding_deadline_timer(&history, &run), None);
    history.push(timer_started_event(&workflow_id, 2, &timer));
    assert_eq!(outstanding_deadline_timer(&history, &run), Some(deadline_timer_id(&run)));
    assert_eq!(outstanding_deadline_timer(&history, &RunId::new(10)), None);
    history.push(timer_cancelled_event(&workflow_id, 3, &timer));
    assert_eq!(outstanding_deadline_timer(&history, &run), None);
}
