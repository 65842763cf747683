//! What a reopened run gets back, told from the events of its segment.

use vstd::prelude::*;

use crate::clock::{earlier, Timestamp};
use crate::error::EngineError;
use crate::event::{Event, TimerCancelCause, WorkflowStatus};
use crate::history::{
    lemma_last_where_is, opens_lease, segment_of, status_is_terminal_exactly_when_the_lease_ended,
    status_of,
};
use crate::ids::{ActivityId, RunId, TimerKey};
use crate::lifecycle::reopen::{
    ascending, current_lease, failed_for_good, first_started_type, next_restart, rearm_plan,
    rearm_views, rearms_among, reopenable, started_timers, timers_come_back_by_their_last_event,
    trace_of, RearmTimer, RearmView, RespawnPhase, RespawnRun, TimerTrace,
};
use crate::time::lemma_push_contains;

verus! {

/// The event starts the timer.
pub open spec fn starts(event: Event, key: TimerKey) -> bool {
    event matches Event::TimerStarted { timer_id, .. } && timer_id@ == key
}

/// The event cancels the timer, for whatever cause.
pub open spec fn cancels(event: Event, key: TimerKey) -> bool {
    event matches Event::TimerCancelled { timer_id, .. } && timer_id@ == key
}

/// The event settles the timer for good: it fires, or the workflow retires it.
pub open spec fn settles(event: Event, key: TimerKey) -> bool {
    ||| event matches Event::TimerFired { timer_id, .. } && timer_id@ == key
    ||| event matches Event::TimerCancelled { timer_id, cause, .. } && timer_id@ == key && cause
        == TimerCancelCause::WorkflowIntent
}

/// The timer was last started at a position, and nothing after it settles it.
pub open spec fn unsettled_since(segment: Seq<Event>, key: TimerKey, start: int) -> bool {
    &&& 0 <= start < segment.len()
    &&& starts(segment[start], key)
    &&& forall|j: int| start < j < segment.len() ==> !starts(#[trigger] segment[j], key)
    &&& forall|j: int| start < j < segment.len() ==> !settles(#[trigger] segment[j], key)
}

/// The timer is cancelled after a position.
pub open spec fn cancelled_since(segment: Seq<Event>, key: TimerKey, start: int) -> bool {
    exists|j: int| start < j < segment.len() && cancels(#[trigger] segment[j], key)
}

/// What is shown of a timer, told from its last start and from what came after it.
proof fn lemma_trace_by_last_start(segment: Seq<Event>, key: TimerKey, start: int)
    ensures
        unsettled_since(segment, key, start) ==> trace_of(segment, key) == Some(
            TimerTrace {
                fire_at: segment[start]->fire_at,
                torn_down: cancelled_since(segment, key, start),
            },
        ),
    decreases segment.len(),
{
    if unsettled_since(segment, key, start) {
        let last = segment.len() - 1;
        let shorter = segment.drop_last();
        if start == last {
            assert(!cancelled_since(segment, key, start));
        } else {
            assert(shorter[start] == segment[start]);
            assert forall|j: int| start < j < shorter.len() implies !starts(
                #[trigger] shorter[j],
                key,
            ) && !settles(shorter[j], key) by {
                assert(shorter[j] == segment[j]);
            }
            assert(unsettled_since(shorter, key, start));
            lemma_trace_by_last_start(shorter, key, start);
            assert(!starts(segment[last], key) && !settles(segment[last], key));
            if cancelled_since(shorter, key, start) {
                let j = choose|j: int|
                    start < j < shorter.len() && cancels(#[trigger] shorter[j], key);
                assert(cancels(segment[j], key));
            }
            if cancels(segment[last], key) {
                assert(cancelled_since(segment, key, start));
            } else if cancelled_since(segment, key, start) {
                let j = choose|j: int|
                    start < j < segment.len() && cancels(#[trigger] segment[j], key);
                assert(cancels(shorter[j], key));
            }
        }
    }
}

/// A timer of which anything is shown has a last start that nothing settles.
proof fn lemma_traced_is_unsettled(segment: Seq<Event>, key: TimerKey) -> (start: int)
    requires
        trace_of(segment, key) is Some,
    ensures
        unsettled_since(segment, key, start),
    decreases segment.len(),
{
    let last = segment.len() - 1;
    if starts(segment[last], key) {
        last
    } else {
        let shorter = segment.drop_last();
        let start = lemma_traced_is_unsettled(shorter, key);
        assert(segment[start] == shorter[start]);
        assert forall|j: int| start < j < segment.len() implies !starts(#[trigger] segment[j], key)
            && !settles(segment[j], key) by {
            if j < last {
                assert(segment[j] == shorter[j]);
            }
        }
        start
    }
}

/// A timer that was started and that nothing after its last start settled comes back: at
/// the instant of that start, and with a fresh start to be recorded exactly where the
/// teardown cancelled it.
pub proof fn an_unsettled_timer_comes_back_at_its_own_instant(
    segment: Seq<Event>,
    key: TimerKey,
    start: int,
) -> (position: int)
    requires
        unsettled_since(segment, key, start),
    ensures
        0 <= position < rearm_plan(segment).len(),
        rearm_plan(segment)[position] == (RearmView {
            key,
            fire_at: segment[start]->fire_at,
            needs_restart_marker: cancelled_since(segment, key, start),
        }),
{
    lemma_trace_by_last_start(segment, key, start);
    timers_come_back_by_their_last_event(segment, key);
    let plan = rearm_plan(segment);
    let position = choose|i: int| 0 <= i < plan.len() && (#[trigger] plan[i]).key == key;
    assert(plan[position].key == key);
    position
}

/// No other timer comes back: what comes back was started in the segment, and since its
/// last start it has neither fired nor been retired by the workflow.
pub proof fn only_unsettled_timers_come_back(segment: Seq<Event>, position: int) -> (start: int)
    requires
        0 <= position < rearm_plan(segment).len(),
    ensures
        unsettled_since(segment, rearm_plan(segment)[position].key, start),
        rearm_plan(segment)[position].fire_at == segment[start]->fire_at,
        rearm_plan(segment)[position].needs_restart_marker == cancelled_since(
            segment,
            rearm_plan(segment)[position].key,
            start,
        ),
{
    let key = rearm_plan(segment)[position].key;
    timers_come_back_by_their_last_event(segment, key);
    let start = lemma_traced_is_unsettled(segment, key);
    lemma_trace_by_last_start(segment, key, start);
    start
}

/// Traces that agree give the same plan over the same timers.
proof fn lemma_same_traces(a: Seq<Event>, b: Seq<Event>, order: Seq<TimerKey>)
    requires
        forall|key: TimerKey| #[trigger] trace_of(a, key) == trace_of(b, key),
    ensures
        rearms_among(a, order) == rearms_among(b, order),
    decreases order.len(),
{
    if order.len() > 0 {
        lemma_same_traces(a, b, order.drop_last());
        assert(trace_of(a, order.last()) == trace_of(b, order.last()));
    }
}

/// An event that neither starts, fires nor cancels a timer leaves what comes back as it is.
pub proof fn other_events_keep_what_comes_back(segment: Seq<Event>, event: Event)
    requires
        !(event is TimerStarted),
        !(event is TimerFired),
        !(event is TimerCancelled),
    ensures
        rearm_plan(segment.push(event)) == rearm_plan(segment),
        forall|key: TimerKey| #[trigger]
            trace_of(segment.push(event), key) == trace_of(segment, key),
{
    let longer = segment.push(event);
    assert(longer.drop_last() =~= segment);
    assert(longer.last() == event);
    assert forall|key: TimerKey| #[trigger] trace_of(longer, key) == trace_of(segment, key) by {}
    lemma_same_traces(longer, segment, started_timers(segment));
}

/// A timer was first started before another one was.
pub open spec fn first_started_before(segment: Seq<Event>, a: TimerKey, b: TimerKey) -> bool {
    exists|i: int|
        {
            &&& 0 <= i < segment.len()
            &&& #[trigger] starts(segment[i], a)
            &&& forall|j: int| 0 <= j <= i ==> !starts(#[trigger] segment[j], b)
        }
}

/// Started timers stand in the order of their first starts, each once.
proof fn lemma_started_in_order(segment: Seq<Event>)
    ensures
        forall|p: int, q: int|
            0 <= p < q < started_timers(segment).len() ==> first_started_before(
                segment,
                #[trigger] started_timers(segment)[p],
                #[trigger] started_timers(segment)[q],
            ),
        forall|key: TimerKey|
            started_timers(segment).contains(key) <==> exists|i: int|
                0 <= i < segment.len() && #[trigger] starts(segment[i], key),
    decreases segment.len(),
{
    if segment.len() > 0 {
        let shorter = segment.drop_last();
        let last = segment.len() - 1;
        let before = started_timers(shorter);
        let all = started_timers(segment);
        lemma_started_in_order(shorter);
        assert forall|key: TimerKey|
            all.contains(key) <==> exists|i: int|
                0 <= i < segment.len() && #[trigger] starts(segment[i], key) by {
            assert(before.contains(key) <==> exists|i: int|
                0 <= i < shorter.len() && #[trigger] starts(shorter[i], key));
            match segment.last() {
                Event::TimerStarted { timer_id, .. } => {
                    lemma_push_contains(before, timer_id@, key);
                },
                _ => {},
            }
            if exists|i: int| 0 <= i < shorter.len() && #[trigger] starts(shorter[i], key) {
                let i = choose|i: int|
                    0 <= i < shorter.len() && #[trigger] starts(shorter[i], key);
                assert(starts(segment[i], key));
            }
            if exists|i: int| 0 <= i < segment.len() && #[trigger] starts(segment[i], key) {
                let i = choose|i: int|
                    0 <= i < segment.len() && #[trigger] starts(segment[i], key);
                if i < last {
                    assert(starts(shorter[i], key));
                }
            }
            if starts(segment.last(), key) {
                assert(starts(segment[last], key));
            }
        }
        assert forall|p: int, q: int| 0 <= p < q < all.len() implies first_started_before(
            segment,
            #[trigger] all[p],
            #[trigger] all[q],
        ) by {
            assert(all[p] == before[p]);
            if q < before.len() {
                assert(first_started_before(shorter, before[p], before[q]));
                let i = choose|i: int|
                    {
                        &&& 0 <= i < shorter.len()
                        &&& #[trigger] starts(shorter[i], before[p])
                        &&& forall|j: int| 0 <= j <= i ==> !starts(#[trigger] shorter[j], before[q])
                    };
                assert(starts(segment[i], before[p]));
                assert forall|j: int| 0 <= j <= i implies !starts(
                    #[trigger] segment[j],
                    before[q],
                ) by {
                    assert(segment[j] == shorter[j]);
                }
            } else {
                assert(before.contains(before[p]));
                let i = choose|i: int|
                    0 <= i < shorter.len() && #[trigger] starts(shorter[i], before[p]);
                assert(starts(segment[i], all[p]));
                assert(!before.contains(all[q]));
                assert forall|j: int| 0 <= j <= i implies !starts(#[trigger] segment[j], all[q]) by {
                    assert(segment[j] == shorter[j]);
                    if starts(shorter[j], all[q]) {
                        assert(before.contains(all[q]));
                    }
                }
            }
        }
    }
}

/// What comes back of a list stands in its order.
proof fn lemma_plan_keeps_order(segment: Seq<Event>, order: Seq<TimerKey>)
    ensures
        forall|p: int|
            0 <= p < rearms_among(segment, order).len() ==> order.contains(
                (#[trigger] rearms_among(segment, order)[p]).key,
            ),
        forall|p: int, q: int|
            0 <= p < q < rearms_among(segment, order).len() ==> stand_in_order(
                order,
                (#[trigger] rearms_among(segment, order)[p]).key,
                (#[trigger] rearms_among(segment, order)[q]).key,
            ),
    decreases order.len(),
{
    if order.len() > 0 {
        let shorter = order.drop_last();
        let before = rearms_among(segment, shorter);
        let all = rearms_among(segment, order);
        lemma_plan_keeps_order(segment, shorter);
        assert(order =~= shorter.push(order.last()));
        assert forall|p: int| 0 <= p < all.len() implies order.contains(
            (#[trigger] all[p]).key,
        ) by {
            if p < before.len() {
                assert(all[p] == before[p]);
                assert(shorter.contains(before[p].key));
            }
            lemma_push_contains(shorter, order.last(), all[p].key);
        }
        assert forall|p: int, q: int| 0 <= p < q < all.len() implies stand_in_order(
            order,
            (#[trigger] all[p]).key,
            (#[trigger] all[q]).key,
        ) by {
            assert(all[p] == before[p]);
            if q < before.len() {
                assert(all[q] == before[q]);
                assert(stand_in_order(shorter, before[p].key, before[q].key));
                let (u, v) = choose|u: int, v: int|
                    0 <= u < v < shorter.len() && #[trigger] shorter[u] == before[p].key
                        && #[trigger] shorter[v] == before[q].key;
                assert(order[u] == shorter[u] && order[v] == shorter[v]);
            } else {
                assert(shorter.contains(before[p].key));
                let u = choose|u: int| 0 <= u < shorter.len() && shorter[u] == before[p].key;
                assert(order[u] == all[p].key);
                assert(order[order.len() - 1] == all[q].key);
            }
        }
    }
}

/// One key stands somewhere before another.
spec fn stand_in_order(order: Seq<TimerKey>, a: TimerKey, b: TimerKey) -> bool {
    exists|u: int, v: int|
        0 <= u < v < order.len() && #[trigger] order[u] == a && #[trigger] order[v] == b
}

/// Timers come back each once, in the order in which they were first started.
pub proof fn timers_come_back_in_the_order_of_their_first_starts(
    segment: Seq<Event>,
    p: int,
    q: int,
)
    requires
        0 <= p < q < rearm_plan(segment).len(),
    ensures
        rearm_plan(segment)[p].key != rearm_plan(segment)[q].key,
        first_started_before(segment, rearm_plan(segment)[p].key, rearm_plan(segment)[q].key),
{
    let order = started_timers(segment);
    let plan = rearm_plan(segment);
    lemma_plan_keeps_order(segment, order);
    lemma_started_in_order(segment);
    assert(stand_in_order(order, plan[p].key, plan[q].key));
    let (u, v) = choose|u: int, v: int|
        0 <= u < v < order.len() && #[trigger] order[u] == plan[p].key && #[trigger] order[v]
            == plan[q].key;
    assert(first_started_before(segment, order[u], order[v]));
    let i = choose|i: int|
        {
            &&& 0 <= i < segment.len()
            &&& #[trigger] starts(segment[i], order[u])
            &&& forall|j: int| 0 <= j <= i ==> !starts(#[trigger] segment[j], order[v])
        };
    assert(!starts(segment[i], order[v]));
}

/// The activities that are driven anew are those that failed since the run was last started
/// or reopened, and that neither completed nor were cancelled since then.
pub proof fn failed_activities_of_the_current_lease_are_driven_anew(
    segment: Seq<Event>,
    opened: int,
    id: ActivityId,
)
    requires
        -1 <= opened < segment.len(),
        opened >= 0 ==> segment[opened] is WorkflowStarted || segment[opened] is WorkflowReopened,
        forall|j: int|
            opened < j < segment.len() ==> !((#[trigger] segment[j]) is WorkflowStarted)
                && !(segment[j] is WorkflowReopened),
    ensures
        failed_for_good(segment, id) <==> {
            &&& exists|i: int|
                opened < i < segment.len() && ((#[trigger] segment[i]) matches Event::ActivityFailed {
                    activity_id,
                    ..
                } && activity_id == id)
            &&& forall|i: int|
                opened < i < segment.len() ==> !((#[trigger] segment[i]) matches
                    Event::ActivityCompleted { activity_id, .. } && activity_id == id)
                    && !(segment[i] matches Event::ActivityCancelled { activity_id, .. }
                    && activity_id == id)
        },
{
    let opens = |event: Event| opens_lease(event);
    lemma_last_where_is(segment, opens, opened);
    let lease = current_lease(segment);
    assert(lease == segment.skip(opened + 1));
    assert forall|i: int| opened < i < segment.len() implies lease[i - opened - 1]
        == #[trigger] segment[i] by {}
    assert forall|k: int| 0 <= k < lease.len() implies #[trigger] lease[k] == segment[opened + 1
        + k] by {}
    if failed_for_good(segment, id) {
        let k = choose|k: int|
            0 <= k < lease.len() && crate::lifecycle::reopen::fails_activity(
                #[trigger] lease[k],
                id,
            );
        assert(segment[opened + 1 + k] == lease[k]);
        assert forall|i: int| opened < i < segment.len() implies !((#[trigger] segment[i]) matches
            Event::ActivityCompleted { activity_id, .. } && activity_id == id)
            && !(segment[i] matches Event::ActivityCancelled { activity_id, .. } && activity_id
            == id) by {
            assert(lease[i - opened - 1] == segment[i]);
            assert(!crate::lifecycle::reopen::absolves_activity(lease[i - opened - 1], id));
        }
    }
    if (exists|i: int|
        opened < i < segment.len() && ((#[trigger] segment[i]) matches Event::ActivityFailed {
            activity_id,
            ..
        } && activity_id == id)) {
        let i = choose|i: int|
            opened < i < segment.len() && ((#[trigger] segment[i]) matches Event::ActivityFailed {
                activity_id,
                ..
            } && activity_id == id);
        assert(crate::lifecycle::reopen::fails_activity(lease[i - opened - 1], id));
    }
}

/// Exactly the runs that failed or were cancelled can be reopened.
pub proof fn failed_and_cancelled_runs_can_be_reopened(history: Seq<Event>, run: RunId)
    ensures
        reopenable(history, run) <==> {
            ||| status_of(segment_of(history, run)) == WorkflowStatus::Failed
            ||| status_of(segment_of(history, run)) == WorkflowStatus::Cancelled
        },
{
    status_is_terminal_exactly_when_the_lease_ended(segment_of(history, run));
}

/// A run comes back as the type that its history started with.
pub proof fn the_first_start_names_the_type(history: Seq<Event>, start: int)
    requires
        0 <= start <= history.len(),
        start < history.len() ==> history[start] is WorkflowStarted,
        forall|j: int| 0 <= j < start ==> !((#[trigger] history[j]) is WorkflowStarted),
    ensures
        start < history.len() ==> (history[start] matches Event::WorkflowStarted {
            workflow_type,
            ..
        } && first_started_type(history) == Some(workflow_type)),
        start == history.len() ==> first_started_type(history) is None,
{
    crate::history::lemma_first_where_is(
        history,
        |event: Event| crate::history::begins_run(event),
        start,
    );
}

/// Where the next timer that needs a fresh start lies.
proof fn lemma_next_restart_needs_it(rearm: Seq<RearmTimer>, from: int)
    ensures
        next_restart(rearm, from) >= from,
        from <= next_restart(rearm, from) < rearm.len() ==> rearm[next_restart(
            rearm,
            from,
        )].needs_restart_marker,
    decreases rearm.len() - from,
{
    if from < rearm.len() && !rearm[from].needs_restart_marker {
        lemma_next_restart_needs_it(rearm, from + 1);
    }
}

/// How a run comes back, step by step: only a timer that the teardown cancelled gets a
/// fresh start; a hold is released exactly where there is one, and before the process
/// comes back; a timer that lies ahead of the instant at which the process waits is
/// scheduled, and one that does not has its row put back before it fires; and a failing
/// step ends the respawn with its own error.
pub proof fn each_timer_comes_back_by_its_own_instant(
    run: RespawnRun,
    reply: Result<(), EngineError>,
    at: Timestamp,
)
    requires
        run.fits(),
        run.rearm@.len() <= usize::MAX,
    ensures
        ({
            let next = run.next(reply, at);
            &&& next.rearm == run.rearm
            &&& next.releases_hold == run.releases_hold
            &&& next.now == if run.phase is AwaitPark {
                at
            } else {
                run.now
            }
            &&& next.phase matches RespawnPhase::RestartTimer { timer } ==> timer
                < run.rearm@.len() && (next.phase != run.phase
                ==> run.rearm@[timer as int].needs_restart_marker)
            &&& next.phase is ReleaseHold && !(run.phase is ReleaseHold) ==> run.releases_hold
            &&& (run.phase is RecordMarker || run.phase is RestartTimer) && next.phase is Respawn
                ==> !run.releases_hold
            &&& next.phase matches RespawnPhase::Schedule { timer } ==> earlier(
                next.now,
                run.rearm@[timer as int].fire_at,
            )
            &&& next.phase matches RespawnPhase::Persist { timer } ==> !earlier(
                next.now,
                run.rearm@[timer as int].fire_at,
            )
            &&& next.phase matches RespawnPhase::Fire { timer } ==> run.phase
                == RespawnPhase::Persist { timer }
            &&& !(run.phase is ReleaseHold) && !(run.phase is Respawned) && !(run.phase is Failed)
                ==> (reply matches Err(error) ==> next.phase == RespawnPhase::Failed(error))
            &&& reply is Ok && next.phase is Failed ==> run.phase == next.phase
        }),
{
    lemma_next_restart_needs_it(run.rearm@, 0);
    match run.phase {
        RespawnPhase::RestartTimer { timer } => {
            lemma_next_restart_needs_it(run.rearm@, timer + 1);
        },
        _ => {},
    }
}

/// Activities are driven anew in the order of their positions, each once.
pub proof fn activities_are_driven_anew_in_order(ids: Seq<ActivityId>, i: int, j: int)
    requires
        ascending(ids),
        0 <= i < j < ids.len(),
    ensures
        ids[i].sequence_position < ids[j].sequence_position,
        ids[i] != ids[j],
{
}

/// A timer that comes back is the planned one, at the planned instant.
pub proof fn a_timer_comes_back_as_planned(timers: Seq<RearmTimer>, i: int)
    requires
        0 <= i < timers.len(),
    ensures
        rearm_views(timers).len() == timers.len(),
        rearm_views(timers)[i] == (RearmView {
            key: timers[i].timer_id@,
            fire_at: timers[i].fire_at,
            needs_restart_marker: timers[i].needs_restart_marker,
        }),
{
}

/// No timer that needs a fresh start lies between a position and the next that is found.
proof fn lemma_next_restart_skips_none(rearm: Seq<RearmTimer>, from: int)
    requires
        0 <= from <= rearm.len(),
    ensures
        from <= next_restart(rearm, from) <= rearm.len(),
        forall|j: int|
            from <= j < next_restart(rearm, from) ==> !(#[trigger] rearm[j]).needs_restart_marker,
    decreases rearm.len() - from,
{
    if from < rearm.len() && !rearm[from].needs_restart_marker {
        lemma_next_restart_skips_none(rearm, from + 1);
    }
}

/// A respawn leaves no timer out: the fresh starts come one after the other, in the plan's
/// order and with none passed over; the process comes back only after the last of them; and
/// then every timer comes back, one after the other from the first to the last.
pub proof fn a_respawn_leaves_no_timer_out(
    run: RespawnRun,
    reply: Result<(), EngineError>,
    at: Timestamp,
    from: int,
)
    requires
        run.fits(),
        run.rearm@.len() <= usize::MAX,
        reply is Ok,
        from == match run.phase {
            RespawnPhase::RestartTimer { timer } => timer + 1,
            RespawnPhase::Schedule { timer } => timer + 1,
            RespawnPhase::Fire { timer } => timer + 1,
            _ => 0,
        },
    ensures
        ({
            let next = run.next(reply, at);
            let count = run.rearm@.len();
            &&& run.phase is RecordMarker || run.phase is RestartTimer ==> match next.phase {
                RespawnPhase::RestartTimer { timer } => {
                    &&& from <= timer < count
                    &&& run.rearm@[timer as int].needs_restart_marker
                    &&& forall|j: int|
                        from <= j < timer ==> !(#[trigger] run.rearm@[j]).needs_restart_marker
                },
                RespawnPhase::ReleaseHold => {
                    &&& run.releases_hold
                    &&& forall|j: int|
                        from <= j < count ==> !(#[trigger] run.rearm@[j]).needs_restart_marker
                },
                RespawnPhase::Respawn => {
                    &&& !run.releases_hold
                    &&& forall|j: int|
                        from <= j < count ==> !(#[trigger] run.rearm@[j]).needs_restart_marker
                },
                _ => false,
            }
            &&& run.phase is ReleaseHold ==> next.phase is Respawn
            &&& run.phase is Respawn ==> if count == 0 {
                next.phase is Respawned
            } else {
                next.phase is AwaitPark
            }
            &&& run.phase is AwaitPark || run.phase is Schedule || run.phase is Fire
                ==> match next.phase {
                RespawnPhase::Schedule { timer } => timer == from < count,
                RespawnPhase::Persist { timer } => timer == from < count,
                RespawnPhase::Respawned => from >= count,
                _ => false,
            }
            &&& (run.phase matches RespawnPhase::Persist { timer } ==> next.phase == (
            RespawnPhase::Fire { timer }))
            &&& run.phase is Respawned || run.phase is Failed ==> next.phase == run.phase
        }),
{
    assert(run.rearm.len() == run.rearm@.len());
    if run.phase is RecordMarker || run.phase is RestartTimer {
        lemma_next_restart_skips_none(run.rearm@, from);
        lemma_next_restart_needs_it(run.rearm@, from);
    }
}

} // verus!
