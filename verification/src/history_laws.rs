//! What projections of histories say, event by event and as a whole.

use vstd::prelude::*;

use crate::event::{ended, envelope_of, Event, TerminalOutcome, WorkflowStatus};
use crate::history::{
    active_segment, begins, begins_run, ends_run, head_of, last_where, lease_terminal,
    lemma_first_where_is, lemma_last_where, lemma_last_where_is,
    opening_a_lease_supersedes_the_terminal, opens_lease, other_events_keep_the_terminal,
    recording_a_terminal_ends_the_lease, run_outcome, run_started, segment_of, status_of,
    successor_started_in,
};
use crate::ids::RunId;

verus! {

/// Each event moves the projected status in its own way: a terminal event to its own
/// status, a start or a reopen back to running, a pause and a resume between running and
/// paused where the run has not ended, and every other event not at all. An empty history
/// is running.
pub proof fn each_event_moves_the_status_in_its_own_way(events: Seq<Event>, event: Event)
    ensures
        status_of(Seq::<Event>::empty()) == WorkflowStatus::Running,
        ({
            let before = status_of(events);
            let open = before == WorkflowStatus::Running || before == WorkflowStatus::Paused;
            let after = status_of(events.push(event));
            &&& event is WorkflowCompleted ==> after == WorkflowStatus::Completed
            &&& event is WorkflowFailed ==> after == WorkflowStatus::Failed
            &&& event is WorkflowCancelled ==> after == WorkflowStatus::Cancelled
            &&& event is WorkflowTimedOut ==> after == WorkflowStatus::TimedOut
            &&& event is WorkflowContinuedAsNew ==> after == WorkflowStatus::ContinuedAsNew
            &&& event is WorkflowStarted || event is WorkflowReopened ==> after
                == WorkflowStatus::Running
            &&& event is WorkflowPaused && open ==> after == WorkflowStatus::Paused
            &&& event is WorkflowResumed && open ==> after == WorkflowStatus::Running
            &&& (event is WorkflowPaused || event is WorkflowResumed) && !open ==> after == before
            &&& !(event is WorkflowCompleted || event is WorkflowFailed || event
                is WorkflowCancelled || event is WorkflowTimedOut || event
                is WorkflowContinuedAsNew || event is WorkflowStarted || event is WorkflowReopened
                || event is WorkflowPaused || event is WorkflowResumed) ==> after == before
        }),
{
    let longer = events.push(event);
    let bears = |event: Event|
        opens_lease(event) || event is WorkflowPaused || event is WorkflowResumed;
    let marks = |event: Event| opens_lease(event) || ends_run(event);
    lemma_last_where_is(Seq::<Event>::empty(), bears, -1);
    lemma_last_where_is(Seq::<Event>::empty(), marks, -1);
    assert(longer[events.len() as int] == event);
    if opens_lease(event) {
        opening_a_lease_supersedes_the_terminal(events, event);
    } else if ends_run(event) {
        recording_a_terminal_ends_the_lease(events, event);
    } else {
        other_events_keep_the_terminal(events, event);
        if bears(event) {
            lemma_last_where_is(longer, bears, events.len() as int);
        } else {
            lemma_last_where(events, bears);
            let mark = last_where(events, bears);
            assert forall|j: int| mark < j < longer.len() implies !bears(#[trigger] longer[j]) by {
                if j < events.len() {
                    assert(longer[j] == events[j]);
                    assert(!bears(events[j]));
                }
            }
            if mark >= 0 {
                assert(longer[mark] == events[mark]);
            }
            lemma_last_where_is(longer, bears, mark);
        }
    }
}

/// A status is terminal exactly when it is neither running nor paused.
pub proof fn only_running_and_paused_are_open(status: WorkflowStatus)
    ensures
        ended(status) <==> status == WorkflowStatus::Completed || status == WorkflowStatus::Failed
            || status == WorkflowStatus::Cancelled || status == WorkflowStatus::TimedOut || status
            == WorkflowStatus::ContinuedAsNew,
{
}

/// The events from one position to another are those of a run: it starts at the first, has
/// not started before, and the next run, where there is one, starts at the second.
pub open spec fn spans(history: Seq<Event>, run: RunId, start: int, end: int) -> bool {
    &&& 0 <= start < end <= history.len()
    &&& history[start] matches Event::WorkflowStarted { run_id, .. } && run_id == run
    &&& forall|i: int|
        0 <= i < start ==> !((#[trigger] history[i]) matches Event::WorkflowStarted { run_id, .. }
            && run_id == run)
    &&& forall|i: int| start < i < end ==> !((#[trigger] history[i]) is WorkflowStarted)
    &&& end < history.len() ==> history[end] is WorkflowStarted
}

/// A run's segment goes from its start up to the next start, and a run that never started
/// has none.
pub proof fn a_run_owns_what_lies_between_its_start_and_the_next(
    history: Seq<Event>,
    run: RunId,
    start: int,
    end: int,
)
    ensures
        spans(history, run, start, end) ==> segment_of(history, run) == history.subrange(
            start,
            end,
        ),
        (forall|i: int|
            0 <= i < history.len() ==> !((#[trigger] history[i]) matches Event::WorkflowStarted {
                run_id,
                ..
            } && run_id == run)) ==> segment_of(history, run) == Seq::<Event>::empty(),
{
    let begins_it = |event: Event| begins(event, run);
    let begins_any = |event: Event| begins_run(event);
    if spans(history, run, start, end) {
        lemma_first_where_is(history, begins_it, start);
        let rest = history.skip(start + 1);
        assert forall|j: int| 0 <= j < end - start - 1 implies !begins_any(#[trigger] rest[j]) by {
            assert(rest[j] == history[start + 1 + j]);
        }
        if end < history.len() {
            assert(rest[end - start - 1] == history[end]);
        }
        lemma_first_where_is(rest, begins_any, end - start - 1);
    }
    if forall|i: int|
        0 <= i < history.len() ==> !((#[trigger] history[i]) matches Event::WorkflowStarted {
            run_id,
            ..
        } && run_id == run) {
        lemma_first_where_is(history, begins_it, history.len() as int);
    }
}

/// The event ends a run or opens an ended one again.
pub open spec fn turns(event: Event) -> bool {
    event is WorkflowCompleted || event is WorkflowFailed || event is WorkflowCancelled || event
        is WorkflowTimedOut || event is WorkflowContinuedAsNew || event is WorkflowReopened
}

/// Where the last event of a segment that ends or reopens it lies, its terminal is that
/// event, unless it reopens.
proof fn lemma_segment_terminal(
    history: Seq<Event>,
    run: RunId,
    start: int,
    end: int,
    turn: int,
)
    requires
        spans(history, run, start, end),
        start <= turn < end,
        turn > start ==> turns(history[turn]),
        forall|i: int| turn < i < end ==> !turns(#[trigger] history[i]),
    ensures
        lease_terminal(segment_of(history, run)) == if turn == start || history[turn]
            is WorkflowReopened {
            None
        } else {
            Some(history[turn])
        },
{
    a_run_owns_what_lies_between_its_start_and_the_next(history, run, start, end);
    let segment = history.subrange(start, end);
    let marks = |event: Event| opens_lease(event) || ends_run(event);
    assert(segment[turn - start] == history[turn]);
    assert forall|j: int| turn - start < j < segment.len() implies !marks(#[trigger] segment[j]) by {
        assert(segment[j] == history[start + j]);
    }
    lemma_last_where_is(segment, marks, turn - start);
}

/// A run has the outcome of the last event that ends it, with everything that the event
/// carries, unless the run was reopened since. A continuation is the end of the run that it
/// names only. Events outside of the run's segment do not matter.
pub proof fn a_run_has_the_outcome_that_was_recorded_last(
    history: Seq<Event>,
    run: RunId,
    start: int,
    end: int,
    turn: int,
)
    requires
        spans(history, run, start, end),
        start < turn < end,
        turns(history[turn]),
        forall|i: int| turn < i < end ==> !turns(#[trigger] history[i]),
    ensures
        match history[turn] {
            Event::WorkflowCompleted { result, .. } => run_outcome(history, run) == Some(
                TerminalOutcome::Completed(result),
            ),
            Event::WorkflowFailed { error, .. } => run_outcome(history, run) == Some(
                TerminalOutcome::Failed(error),
            ),
            Event::WorkflowCancelled { reason, .. } => run_outcome(history, run) == Some(
                TerminalOutcome::Cancelled(reason),
            ),
            Event::WorkflowTimedOut { timeout, .. } => run_outcome(history, run) == Some(
                TerminalOutcome::TimedOut(timeout),
            ),
            Event::WorkflowContinuedAsNew { input, workflow_type, parent_run_id, .. } => {
                if parent_run_id == run {
                    run_outcome(history, run) == Some(
                        TerminalOutcome::ContinuedAsNew { input, workflow_type, parent_run_id },
                    )
                } else {
                    run_outcome(history, run) is None
                }
            },
            _ => run_outcome(history, run) is None,
        },
{
    lemma_segment_terminal(history, run, start, end, turn);
}

/// A run that nothing has ended has no outcome, and neither has one that never started.
pub proof fn an_open_run_has_no_outcome(history: Seq<Event>, run: RunId, start: int, end: int)
    ensures
        spans(history, run, start, end) && (forall|i: int|
            start < i < end ==> !turns(#[trigger] history[i])) ==> run_outcome(history, run)
            is None,
        (forall|i: int|
            0 <= i < history.len() ==> !((#[trigger] history[i]) matches Event::WorkflowStarted {
                run_id,
                ..
            } && run_id == run)) ==> run_outcome(history, run) is None,
{
    a_run_owns_what_lies_between_its_start_and_the_next(history, run, start, end);
    if spans(history, run, start, end) && (forall|i: int|
        start < i < end ==> !turns(#[trigger] history[i])) {
        lemma_segment_terminal(history, run, start, end, start);
    }
    let marks = |event: Event| opens_lease(event) || ends_run(event);
    lemma_last_where_is(Seq::<Event>::empty(), marks, -1);
}

/// The active segment is what follows the latest start, whichever run it began, and the
/// whole history where no run has started.
pub proof fn the_active_segment_follows_the_latest_start(
    before: Seq<Event>,
    start: Event,
    after: Seq<Event>,
)
    requires
        forall|i: int| 0 <= i < after.len() ==> !((#[trigger] after[i]) is WorkflowStarted),
    ensures
        start is WorkflowStarted ==> active_segment(before.push(start) + after) == after,
        active_segment(after) == after,
{
    let begins_any = |event: Event| begins_run(event);
    let history = before.push(start) + after;
    if start is WorkflowStarted {
        assert(history[before.len() as int] == start);
        assert forall|j: int| before.len() < j < history.len() implies !begins_any(
            #[trigger] history[j],
        ) by {
            assert(history[j] == after[j - before.len() - 1]);
        }
        lemma_last_where_is(history, begins_any, before.len() as int);
        assert(active_segment(history) =~= after);
    }
    lemma_last_where_is(after, begins_any, -1);
    assert(active_segment(after) =~= after);
}

/// A run has started exactly when its start is recorded, and a successor of it exactly when
/// a start is recorded that names it as its parent.
pub proof fn starts_are_what_is_recorded(history: Seq<Event>, run: RunId)
    ensures
        run_started(history, run) <==> exists|i: int|
            0 <= i < history.len() && ((#[trigger] history[i]) matches Event::WorkflowStarted {
                run_id,
                ..
            } && run_id == run),
        successor_started_in(history, run) <==> exists|i: int|
            0 <= i < history.len() && ((#[trigger] history[i]) matches Event::WorkflowStarted {
                parent_run_id,
                ..
            } && parent_run_id == Some(run)),
{
}

/// The head of a history is its greatest sequence number: no event lies beyond it, and it
/// is zero or that of an event.
pub proof fn the_head_is_the_greatest_sequence_number(history: Seq<Event>)
    ensures
        head_of(history) >= 0,
        forall|i: int|
            0 <= i < history.len() ==> envelope_of(#[trigger] history[i]).seq <= head_of(history),
        head_of(history) == 0 || exists|i: int|
            0 <= i < history.len() && envelope_of(#[trigger] history[i]).seq == head_of(history),
    decreases history.len(),
{
    if history.len() > 0 {
        let shorter = history.drop_last();
        the_head_is_the_greatest_sequence_number(shorter);
        assert forall|i: int| 0 <= i < history.len() implies envelope_of(#[trigger] history[i]).seq
            <= head_of(history) by {
            if i < shorter.len() {
                assert(shorter[i] == history[i]);
            }
        }
        if head_of(history) != 0 {
            if envelope_of(history.last()).seq == head_of(history) {
                assert(history[history.len() - 1] == history.last());
            } else {
                let i = choose|i: int|
                    0 <= i < shorter.len() && envelope_of(#[trigger] shorter[i]).seq == head_of(
                        shorter,
                    );
                assert(history[i] == shorter[i]);
            }
        }
    }
}

/// An event carries the envelope that it was recorded with, whatever its kind.
pub proof fn an_event_carries_its_own_envelope(event: Event)
    ensures
        event matches Event::WorkflowStarted { envelope, .. } ==> envelope_of(event) == envelope,
        event matches Event::WorkflowCompleted { envelope, .. } ==> envelope_of(event) == envelope,
        event matches Event::WorkflowFailed { envelope, .. } ==> envelope_of(event) == envelope,
        event matches Event::WorkflowCancelled { envelope, .. } ==> envelope_of(event) == envelope,
        event matches Event::WorkflowTimedOut { envelope, .. } ==> envelope_of(event) == envelope,
        event matches Event::WorkflowContinuedAsNew { envelope, .. } ==> envelope_of(event)
            == envelope,
        event matches Event::WorkflowReopened { envelope, .. } ==> envelope_of(event) == envelope,
        event matches Event::WorkflowPaused { envelope, .. } ==> envelope_of(event) == envelope,
        event matches Event::WorkflowResumed { envelope, .. } ==> envelope_of(event) == envelope,
        event matches Event::SearchAttributesUpdated { envelope, .. } ==> envelope_of(event)
            == envelope,
        event matches Event::ActivityScheduled { envelope, .. } ==> envelope_of(event) == envelope,
        event matches Event::ActivityStarted { envelope, .. } ==> envelope_of(event) == envelope,
        event matches Event::ActivityCompleted { envelope, .. } ==> envelope_of(event) == envelope,
        event matches Event::ActivityFailed { envelope, .. } ==> envelope_of(event) == envelope,
        event matches Event::ActivityCancelled { envelope, .. } ==> envelope_of(event) == envelope,
        event matches Event::TimerStarted { envelope, .. } ==> envelope_of(event) == envelope,
        event matches Event::TimerFired { envelope, .. } ==> envelope_of(event) == envelope,
        event matches Event::TimerCancelled { envelope, .. } ==> envelope_of(event) == envelope,
        event matches Event::WithTimeoutCompleted { envelope, .. } ==> envelope_of(event)
            == envelope,
        event matches Event::SignalReceived { envelope, .. } ==> envelope_of(event) == envelope,
        event matches Event::SignalSent { envelope, .. } ==> envelope_of(event) == envelope,
        event matches Event::ChildWorkflowStarted { envelope, .. } ==> envelope_of(event)
            == envelope,
        event matches Event::ChildWorkflowCompleted { envelope, .. } ==> envelope_of(event)
            == envelope,
        event matches Event::ChildWorkflowFailed { envelope, .. } ==> envelope_of(event)
            == envelope,
        event matches Event::ChildWorkflowCancelled { envelope, .. } ==> envelope_of(event)
            == envelope,
        event matches Event::ScheduleCreated { envelope, .. } ==> envelope_of(event) == envelope,
        event matches Event::ScheduleUpdated { envelope, .. } ==> envelope_of(event) == envelope,
        event matches Event::SchedulePaused { envelope, .. } ==> envelope_of(event) == envelope,
        event matches Event::ScheduleResumed { envelope, .. } ==> envelope_of(event) == envelope,
        event matches Event::ScheduleDeleted { envelope, .. } ==> envelope_of(event) == envelope,
        event matches Event::ScheduleTriggered { envelope, .. } ==> envelope_of(event) == envelope,
{
}

} // verus!
