//! Reopen lifecycle operation: re-drive a terminal-Failed or terminal-Cancelled
//! workflow from where it left off.
//!
//! Reopen turns a run whose current-lease terminal is `WorkflowFailed` or
//! `WorkflowCancelled` back into a running one. A `WorkflowReopened` event supersedes
//! the terminal in the status projection, and the same run is respawned, so that replay
//! returns every recorded result and only the reopened or in-flight steps run again.
//!
//! Durable timers come back with the run: the run segment is scanned, the last event of
//! each timer deciding. A timer retired by the cancel teardown is re-armed at its
//! original instant, one still outstanding is re-armed without touching history, and
//! one that fired or that the workflow retired is never resurrected.

use vstd::prelude::*;
use vstd::string::*;

use crate::clock::{earlier, Timestamp};
use crate::content_hash::ContentHash;
use crate::error::{
    is_invalid_state, is_load_error, is_run_not_found, is_runtime_error, load_error,
    workflow_not_found, EngineError,
};
use crate::event::{ended, Event, TimerCancelCause, WorkflowStatus};
use crate::history::{
    begins_run, current_lease_terminal, first_where, last_where, latest_run, lease_terminal,
    lemma_first_where_is, lemma_last_where_is, lemma_latest_segment, on_hold,
    opening_a_lease_supersedes_the_terminal, opens_lease, run_segment, segment_of,
    status_from_events, status_of,
};
use crate::ids::{uuid_text, ActivityId, RunId, TimerId, TimerKey, WorkflowId};
use crate::lifecycle::pause::{status_name, status_text};
use crate::registry::{Registry, RunKey, WorkflowHandle};
use crate::text::{concat2, concat3, concat4, concat5, concat6};
use crate::time::{holds_timer, keys, lemma_push_contains};

verus! {

/// A durable timer a reopened or resumed run must get back.
#[derive(Debug, PartialEq, Eq)]
pub struct RearmTimer {
    /// The timer.
    pub timer_id: TimerId,
    /// The original deadline. Reopening never extends a business deadline; one already in
    /// the past fires immediately after respawn.
    pub fire_at: Timestamp,
    /// True when the cancel teardown recorded `TimerCancelled` for this timer, so a fresh
    /// `TimerStarted` must be appended to make it live again.
    pub needs_restart_marker: bool,
}

/// What a segment shows of a timer that is to come back.
pub struct TimerTrace {
    /// When it is due.
    pub fire_at: Timestamp,
    /// It was retired by the cancel teardown.
    pub torn_down: bool,
}

/// What a segment shows of a timer, its last event deciding: nothing where it never
/// started, fired, or was retired by the workflow.
pub open spec fn trace_of(segment: Seq<Event>, key: TimerKey) -> Option<TimerTrace>
    decreases segment.len(),
{
    if segment.len() == 0 {
        None
    } else {
        let before = trace_of(segment.drop_last(), key);
        match segment.last() {
            Event::TimerStarted { timer_id, fire_at, .. } => if timer_id@ == key {
                Some(TimerTrace { fire_at, torn_down: false })
            } else {
                before
            },
            Event::TimerFired { timer_id, .. } => if timer_id@ == key {
                None
            } else {
                before
            },
            Event::TimerCancelled { timer_id, cause, .. } => if timer_id@ == key {
                match (cause, before) {
                    (TimerCancelCause::CancelTeardown, Some(trace)) => Some(
                        TimerTrace { torn_down: true, ..trace },
                    ),
                    _ => None,
                }
            } else {
                before
            },
            _ => before,
        }
    }
}

/// The timers that a segment starts, each once, in the order of their first start.
pub open spec fn started_timers(segment: Seq<Event>) -> Seq<TimerKey>
    decreases segment.len(),
{
    if segment.len() == 0 {
        Seq::empty()
    } else {
        let before = started_timers(segment.drop_last());
        match segment.last() {
            Event::TimerStarted { timer_id, .. } => if before.contains(timer_id@) {
                before
            } else {
                before.push(timer_id@)
            },
            _ => before,
        }
    }
}

/// A timer that comes back, by key.
pub struct RearmView {
    /// The timer.
    pub key: TimerKey,
    /// When it is due.
    pub fire_at: Timestamp,
    /// A fresh start has to be recorded.
    pub needs_restart_marker: bool,
}

impl View for RearmTimer {
    type V = RearmView;

    open spec fn view(&self) -> RearmView {
        RearmView {
            key: self.timer_id@,
            fire_at: self.fire_at,
            needs_restart_marker: self.needs_restart_marker,
        }
    }
}

/// The timers among the given ones that come back, in their order.
pub open spec fn rearms_among(segment: Seq<Event>, order: Seq<TimerKey>) -> Seq<RearmView>
    decreases order.len(),
{
    if order.len() == 0 {
        Seq::empty()
    } else {
        let before = rearms_among(segment, order.drop_last());
        match trace_of(segment, order.last()) {
            Some(trace) => before.push(
                RearmView {
                    key: order.last(),
                    fire_at: trace.fire_at,
                    needs_restart_marker: trace.torn_down,
                },
            ),
            None => before,
        }
    }
}

/// The timers of a segment that come back, in the order of their first start.
pub open spec fn rearm_plan(segment: Seq<Event>) -> Seq<RearmView> {
    rearms_among(segment, started_timers(segment))
}

/// The views of timers that come back.
pub open spec fn rearm_views(timers: Seq<RearmTimer>) -> Seq<RearmView> {
    timers.map_values(|timer: RearmTimer| timer@)
}

/// The last event of a timer in a segment that settles it for good, or starts it.
fn trace_timer(segment: &[Event], timer: &TimerId) -> (trace: Option<(Timestamp, bool)>)
    ensures
        match trace {
            Some((fire_at, torn_down)) => trace_of(segment@, timer@) == Some(
                TimerTrace { fire_at, torn_down },
            ),
            None => trace_of(segment@, timer@) is None,
        },
{
    let mut trace: Option<(Timestamp, bool)> = None;
    let mut i: usize = 0;
    while i < segment.len()
        invariant
            0 <= i <= segment@.len(),
            match trace {
                Some((fire_at, torn_down)) => trace_of(segment@.take(i as int), timer@) == Some(
                    TimerTrace { fire_at, torn_down },
                ),
                None => trace_of(segment@.take(i as int), timer@) is None,
            },
        decreases segment.len() - i,
    {
        proof {
            assert(segment@.take(i + 1).drop_last() =~= segment@.take(i as int));
            assert(segment@.take(i + 1).last() == segment@[i as int]);
        }
        match &segment[i] {
            Event::TimerStarted { timer_id, fire_at, .. } => {
                if timer_id.same(timer) {
                    trace = Some((*fire_at, false));
                }
            },
            Event::TimerFired { timer_id, .. } => {
                if timer_id.same(timer) {
                    trace = None;
                }
            },
            Event::TimerCancelled { timer_id, cause, .. } => {
                if timer_id.same(timer) {
                    trace =
                    match (cause, trace) {
                        (TimerCancelCause::CancelTeardown, Some((fire_at, _))) => Some(
                            (fire_at, true),
                        ),
                        _ => None,
                    };
                }
            },
            _ => {},
        }
        i = i + 1;
    }
    proof {
        assert(segment@.take(i as int) =~= segment@);
    }
    trace
}

/// The timers that a segment starts, in the order of their first start.
fn timers_started(segment: &[Event]) -> (order: Vec<TimerId>)
    ensures
        keys(order@) == started_timers(segment@),
{
    let mut order: Vec<TimerId> = Vec::new();
    let mut i: usize = 0;
    proof {
        assert(keys(order@) =~= Seq::empty());
        assert(segment@.take(0) =~= Seq::empty());
    }
    while i < segment.len()
        invariant
            0 <= i <= segment@.len(),
            keys(order@) == started_timers(segment@.take(i as int)),
        decreases segment.len() - i,
    {
        proof {
            assert(segment@.take(i + 1).drop_last() =~= segment@.take(i as int));
            assert(segment@.take(i + 1).last() == segment@[i as int]);
        }
        match &segment[i] {
            Event::TimerStarted { timer_id, .. } => {
                if !holds_timer(&order, timer_id) {
                    let ghost listed = order@;
                    order.push(timer_id.clone());
                    proof {
                        assert(keys(order@) =~= keys(listed).push(timer_id@));
                    }
                }
            },
            _ => {},
        }
        i = i + 1;
    }
    proof {
        assert(segment@.take(i as int) =~= segment@);
    }
    order
}

/// The run segment's timers that reopen must re-arm, the last event of each deciding:
///
/// * `TimerStarted`: outstanding at the terminal; re-armed without touching history.
/// * `TimerCancelled` by the cancel teardown: a fresh `TimerStarted` is needed.
/// * `TimerFired` or `TimerCancelled` by the workflow: never resurrected.
pub fn rearmable_timers(segment: &[Event]) -> (timers: Vec<RearmTimer>)
    ensures
        rearm_views(timers@) == rearm_plan(segment@),
{
    let order = timers_started(segment);
    let ghost names = keys(order@);
    let mut timers: Vec<RearmTimer> = Vec::new();
    let mut i: usize = 0;
    proof {
        assert(rearm_views(timers@) =~= Seq::empty());
        assert(names.take(0) =~= Seq::empty());
    }
    while i < order.len()
        invariant
            0 <= i <= order@.len(),
            names == keys(order@),
            rearm_views(timers@) == rearms_among(segment@, names.take(i as int)),
        decreases order.len() - i,
    {
        proof {
            assert(names.take(i + 1).drop_last() =~= names.take(i as int));
            assert(names.take(i + 1).last() == order@[i as int]@);
        }
        match trace_timer(segment, &order[i]) {
            Some((fire_at, torn_down)) => {
                let ghost listed = timers@;
                let timer = RearmTimer {
                    timer_id: order[i].clone(),
                    fire_at,
                    needs_restart_marker: torn_down,
                };
                let ghost entry = timer@;
                timers.push(timer);
                proof {
                    assert(rearm_views(timers@) =~= rearm_views(listed).push(entry));
                }
            },
            None => {},
        }
        i = i + 1;
    }
    proof {
        assert(names.take(i as int) =~= names);
    }
    timers
}

/// A timer that a segment shows anything of was started in it.
proof fn lemma_traced_is_started(segment: Seq<Event>, key: TimerKey)
    ensures
        trace_of(segment, key) is Some ==> started_timers(segment).contains(key),
    decreases segment.len(),
{
    if segment.len() > 0 {
        lemma_traced_is_started(segment.drop_last(), key);
        match segment.last() {
            Event::TimerStarted { timer_id, .. } => {
                lemma_push_contains(started_timers(segment.drop_last()), timer_id@, key);
            },
            _ => {},
        }
    }
}

/// Which timers come back of a list.
proof fn lemma_rearms_among(segment: Seq<Event>, order: Seq<TimerKey>, key: TimerKey)
    ensures
        (exists|i: int|
            0 <= i < rearms_among(segment, order).len() && (#[trigger] rearms_among(
                segment,
                order,
            )[i]).key == key) <==> (order.contains(key) && trace_of(segment, key) is Some),
        forall|i: int|
            0 <= i < rearms_among(segment, order).len() ==> trace_of(
                segment,
                (#[trigger] rearms_among(segment, order)[i]).key,
            ) == Some(
                TimerTrace {
                    fire_at: rearms_among(segment, order)[i].fire_at,
                    torn_down: rearms_among(segment, order)[i].needs_restart_marker,
                },
            ),
    decreases order.len(),
{
    if order.len() > 0 {
        let shorter = order.drop_last();
        let before = rearms_among(segment, shorter);
        let all = rearms_among(segment, order);
        lemma_rearms_among(segment, shorter, key);
        assert(order =~= shorter.push(order.last()));
        lemma_push_contains(shorter, order.last(), key);
        if trace_of(segment, order.last()) is Some {
            assert(all.len() == before.len() + 1);
            assert forall|i: int| 0 <= i < before.len() implies #[trigger] all[i] == before[i] by {}
            if order.last() == key {
                assert(all[before.len() as int].key == key);
            }
            if exists|i: int| 0 <= i < before.len() && (#[trigger] before[i]).key == key {
                let i = choose|i: int| 0 <= i < before.len() && (#[trigger] before[i]).key == key;
                assert(all[i].key == key);
            }
            if exists|i: int| 0 <= i < all.len() && (#[trigger] all[i]).key == key {
                let i = choose|i: int| 0 <= i < all.len() && (#[trigger] all[i]).key == key;
                if i < before.len() {
                    assert(before[i].key == key);
                }
            }
        }
    }
}

/// A timer comes back exactly when its last event in the segment started it or was the
/// cancel teardown, and then at its original instant.
pub proof fn timers_come_back_by_their_last_event(segment: Seq<Event>, key: TimerKey)
    ensures
        (exists|i: int|
            0 <= i < rearm_plan(segment).len() && (#[trigger] rearm_plan(segment)[i]).key == key)
            <==> trace_of(segment, key) is Some,
        forall|i: int|
            0 <= i < rearm_plan(segment).len() && (#[trigger] rearm_plan(segment)[i]).key == key
                ==> trace_of(segment, key) == Some(
                TimerTrace {
                    fire_at: rearm_plan(segment)[i].fire_at,
                    torn_down: rearm_plan(segment)[i].needs_restart_marker,
                },
            ),
{
    lemma_rearms_among(segment, started_timers(segment), key);
    lemma_traced_is_started(segment, key);
}

/// Firing a timer, or the workflow retiring it, settles it: it does not come back, and
/// other timers are not affected.
pub proof fn settled_timers_never_come_back(segment: Seq<Event>, event: Event, key: TimerKey)
    requires
        match event {
            Event::TimerFired { .. } => true,
            Event::TimerCancelled { cause, .. } => cause == TimerCancelCause::WorkflowIntent,
            _ => false,
        },
    ensures
        ({
            let settled = match event {
                Event::TimerFired { timer_id, .. } => timer_id@,
                Event::TimerCancelled { timer_id, .. } => timer_id@,
                _ => arbitrary(),
            };
            trace_of(segment.push(event), key) == if key == settled {
                None
            } else {
                trace_of(segment, key)
            }
        }),
{
    assert(segment.push(event).drop_last() =~= segment);
}

/// Recording the restart of a torn-down timer, at its original instant, makes it an
/// outstanding one that is due when it was before.
pub proof fn restarting_keeps_the_original_instant(
    segment: Seq<Event>,
    event: Event,
    trace: TimerTrace,
)
    requires
        event is TimerStarted,
        trace_of(segment, event->TimerStarted_timer_id@) == Some(trace),
        event->fire_at == trace.fire_at,
    ensures
        trace_of(segment.push(event), event->TimerStarted_timer_id@) == Some(
            TimerTrace { fire_at: trace.fire_at, torn_down: false },
        ),
{
    assert(segment.push(event).drop_last() =~= segment);
}

/// The events of the current lease: those after the last start or reopen.
pub open spec fn current_lease(segment: Seq<Event>) -> Seq<Event> {
    segment.skip(last_where(segment, |event: Event| opens_lease(event)) + 1)
}

/// The event fails the activity.
pub open spec fn fails_activity(event: Event, id: ActivityId) -> bool {
    event matches Event::ActivityFailed { activity_id, .. } && activity_id == id
}

/// The event settles the activity without a failure.
pub open spec fn absolves_activity(event: Event, id: ActivityId) -> bool {
    match event {
        Event::ActivityCompleted { activity_id, .. } => activity_id == id,
        Event::ActivityCancelled { activity_id, .. } => activity_id == id,
        _ => false,
    }
}

/// An activity failed in the current lease and was not settled otherwise in it.
pub open spec fn failed_for_good(segment: Seq<Event>, id: ActivityId) -> bool {
    let lease = current_lease(segment);
    &&& exists|i: int| 0 <= i < lease.len() && fails_activity(#[trigger] lease[i], id)
    &&& forall|i: int| 0 <= i < lease.len() ==> !absolves_activity(#[trigger] lease[i], id)
}

/// Activities stand in ascending order of their positions, each once.
pub open spec fn ascending(ids: Seq<ActivityId>) -> bool {
    forall|i: int, j: int|
        0 <= i < j < ids.len() ==> (#[trigger] ids[i]).sequence_position < (
        #[trigger] ids[j]).sequence_position
}

/// Whether a lease settles an activity without a failure.
fn is_absolved(lease: &[Event], id: ActivityId) -> (absolved: bool)
    ensures
        absolved == exists|i: int| 0 <= i < lease@.len() && absolves_activity(
            #[trigger] lease@[i],
            id,
        ),
{
    let mut i: usize = 0;
    while i < lease.len()
        invariant
            0 <= i <= lease@.len(),
            forall|j: int| 0 <= j < i ==> !absolves_activity(#[trigger] lease@[j], id),
        decreases lease.len() - i,
    {
        let absolves = match &lease[i] {
            Event::ActivityCompleted { activity_id, .. } => *activity_id == id,
            Event::ActivityCancelled { activity_id, .. } => *activity_id == id,
            _ => false,
        };
        if absolves {
            assert(absolves_activity(lease@[i as int], id));
            return true;
        }
        i = i + 1;
    }
    false
}

/// Puts an activity in its place among ascending ones, unless it is there.
fn insert_ascending(ids: &mut Vec<ActivityId>, id: ActivityId)
    requires
        ascending(old(ids)@),
    ensures
        ascending(final(ids)@),
        forall|other: ActivityId| #[trigger]
            final(ids)@.contains(other) <==> (old(ids)@.contains(other) || other == id),
{
    let ghost before = ids@;
    let mut at: usize = 0;
    while at < ids.len() && ids[at].sequence_position < id.sequence_position
        invariant
            ids@ == before,
            0 <= at <= ids@.len(),
            forall|j: int|
                0 <= j < at ==> (#[trigger] ids@[j]).sequence_position < id.sequence_position,
        decreases ids.len() - at,
    {
        at = at + 1;
    }
    if at < ids.len() && ids[at].sequence_position == id.sequence_position {
        proof {
            assert(before[at as int] == id);
        }
        return ;
    }
    ids.insert(at, id);
    proof {
        let after = ids@;
        assert forall|i: int, j: int| 0 <= i < j < after.len() implies (
        #[trigger] after[i]).sequence_position < (#[trigger] after[j]).sequence_position by {
            if j < at {
                assert(after[i] == before[i] && after[j] == before[j]);
            } else if j == at {
                assert(after[i] == before[i]);
            } else if i < at {
                assert(after[i] == before[i] && after[j] == before[j - 1]);
            } else if i == at {
                assert(after[j] == before[j - 1]);
                if j - 1 > at {
                    assert(before[at as int].sequence_position < before[j - 1].sequence_position);
                }
            } else {
                assert(after[i] == before[i - 1] && after[j] == before[j - 1]);
            }
        }
        assert forall|other: ActivityId| #[trigger]
            after.contains(other) <==> (before.contains(other) || other == id) by {
            if before.contains(other) {
                let k = choose|k: int| 0 <= k < before.len() && before[k] == other;
                assert(after[if k < at { k } else { k + 1 }] == other);
            }
            if other == id {
                assert(after[at as int] == other);
            }
            if after.contains(other) && other != id {
                let k = choose|k: int| 0 <= k < after.len() && after[k] == other;
                assert(before[if k < at { k } else { k - 1 }] == other);
            }
        }
    }
}

/// The activities that ended in a terminal failure in the current lease with no
/// successful or cancelled attempt: exactly the steps to drive anew, in ascending order
/// of their positions. A merely in-flight activity is never listed.
pub fn reopened_failed_activities(segment: &[Event]) -> (ids: Vec<ActivityId>)
    ensures
        ascending(ids@),
        forall|id: ActivityId| #[trigger] ids@.contains(id) <==> failed_for_good(segment@, id),
{
    let ghost opens = |event: Event| opens_lease(event);
    let mut start: usize = segment.len();
    while start > 0 && !matches!(&segment[start - 1], Event::WorkflowStarted { .. } | Event::WorkflowReopened { .. })
        invariant
            0 <= start <= segment@.len(),
            forall|j: int| start <= j < segment@.len() ==> !opens_lease(#[trigger] segment@[j]),
        decreases start,
    {
        start = start - 1;
    }
    proof {
        lemma_last_where_is(segment@, opens, start - 1);
        assert(current_lease(segment@) =~= segment@.subrange(start as int, segment@.len() as int));
    }
    let lease = vstd::slice::slice_subrange(segment, start, segment.len());
    assert(lease@ == current_lease(segment@));
    let mut ids: Vec<ActivityId> = Vec::new();
    let mut i: usize = 0;
    while i < lease.len()
        invariant
            0 <= i <= lease@.len(),
            ascending(ids@),
            forall|id: ActivityId| #[trigger]
                ids@.contains(id) <==> ((exists|j: int|
                    0 <= j < i && fails_activity(#[trigger] lease@[j], id)) && (forall|j: int|
                    0 <= j < lease@.len() ==> !absolves_activity(#[trigger] lease@[j], id))),
        decreases lease.len() - i,
    {
        let ghost before = ids@;
        match &lease[i] {
            Event::ActivityFailed { activity_id, .. } => {
                let id = *activity_id;
                assert(fails_activity(lease@[i as int], id));
                if !is_absolved(lease, id) {
                    insert_ascending(&mut ids, id);
                }
                proof {
                    assert forall|other: ActivityId| #[trigger]
                        ids@.contains(other) <==> ((exists|j: int|
                            0 <= j < i + 1 && fails_activity(#[trigger] lease@[j], other)) && (
                        forall|j: int|
                            0 <= j < lease@.len() ==> !absolves_activity(
                                #[trigger] lease@[j],
                                other,
                            ))) by {
                        assert(before.contains(other) <==> ((exists|j: int|
                            0 <= j < i && fails_activity(#[trigger] lease@[j], other)) && (forall|
                            j: int,
                        |
                            0 <= j < lease@.len() ==> !absolves_activity(
                                #[trigger] lease@[j],
                                other,
                            ))));
                        if exists|j: int|
                            0 <= j < i + 1 && fails_activity(#[trigger] lease@[j], other) {
                            let j = choose|j: int|
                                0 <= j < i + 1 && fails_activity(#[trigger] lease@[j], other);
                            if j == i {
                                assert(other == id);
                            }
                        }
                        if exists|j: int| 0 <= j < i && fails_activity(#[trigger] lease@[j], other) {
                            let j = choose|j: int|
                                0 <= j < i && fails_activity(#[trigger] lease@[j], other);
                            assert(fails_activity(lease@[j], other));
                        }
                    }
                }
            },
            _ => {
                proof {
                    assert forall|other: ActivityId|
                        (exists|j: int| 0 <= j < i + 1 && fails_activity(#[trigger] lease@[j], other))
                            <==> #[trigger] before.contains(other) || (exists|j: int|
                            0 <= j < i && fails_activity(#[trigger] lease@[j], other)) by {
                        if exists|j: int|
                            0 <= j < i + 1 && fails_activity(#[trigger] lease@[j], other) {
                            let j = choose|j: int|
                                0 <= j < i + 1 && fails_activity(#[trigger] lease@[j], other);
                            assert(j < i);
                        }
                    }
                }
            },
        }
        i = i + 1;
    }
    ids
}

/// The name of the status that a terminal event projects.
pub open spec fn terminal_name(event: Event) -> Seq<char> {
    match event {
        Event::WorkflowCompleted { .. } => "Completed"@,
        Event::WorkflowTimedOut { .. } => "TimedOut"@,
        Event::WorkflowContinuedAsNew { .. } => "ContinuedAsNew"@,
        Event::WorkflowFailed { .. } => "Failed"@,
        Event::WorkflowCancelled { .. } => "Cancelled"@,
        _ => "non-terminal"@,
    }
}

/// The name of the status that a terminal event projects.
pub fn terminal_status_name(event: &Event) -> (name: &'static str)
    ensures
        name@ == terminal_name(*event),
{
    match event {
        Event::WorkflowCompleted { .. } => "Completed",
        Event::WorkflowTimedOut { .. } => "TimedOut",
        Event::WorkflowContinuedAsNew { .. } => "ContinuedAsNew",
        Event::WorkflowFailed { .. } => "Failed",
        Event::WorkflowCancelled { .. } => "Cancelled",
        _ => "non-terminal",
    }
}

/// A run is named in a rejection.
pub open spec fn run_subject(id: WorkflowId, run: RunId) -> Seq<char> {
    "workflow "@ + uuid_text(id.value) + " run "@ + uuid_text(run.value)
}

/// Why a run in some state cannot be reopened.
pub open spec fn not_reopenable_text(id: WorkflowId, run: RunId, segment: Seq<Event>) -> Seq<char> {
    match lease_terminal(segment) {
        Some(event) => run_subject(id, run) + " is terminal for a non-reopenable reason ("@
            + terminal_name(event) + "); only Failed and Cancelled are reopenable"@,
        None => run_subject(id, run) + " is "@ + status_text(status_of(segment))
            + ", not a reopenable terminal (Failed or Cancelled)"@,
    }
}

/// Names a run in a rejection.
pub fn run_subject_text(id: &WorkflowId, run: &RunId) -> (text: String)
    ensures
        text@ == run_subject(*id, *run),
{
    concat4("workflow ", id.text().as_str(), " run ", run.text().as_str())
}

/// Validates the reopen precondition and computes the activities to drive anew.
///
/// A run that failed drives its failed activities anew; one that was cancelled has none.
///
/// # Errors
///
/// [`EngineError::InvalidState`], naming the actual status, in every other state.
pub fn validate_and_compute_reopened(id: &WorkflowId, run: &RunId, segment: &[Event]) -> (result:
    Result<Vec<ActivityId>, EngineError>)
    ensures
        match lease_terminal(segment@) {
            Some(Event::WorkflowFailed { .. }) => {
                &&& result matches Ok(ids)
                &&& ascending(ids@)
                &&& forall|activity: ActivityId| #[trigger]
                    ids@.contains(activity) <==> failed_for_good(segment@, activity)
            },
            Some(Event::WorkflowCancelled { .. }) => result matches Ok(ids) && ids@.len() == 0,
            _ => result matches Err(error) && is_invalid_state(
                error,
                not_reopenable_text(*id, *run, segment@),
            ),
        },
{
    match current_lease_terminal(segment) {
        Some(Event::WorkflowFailed { .. }) => Ok(reopened_failed_activities(segment)),
        Some(Event::WorkflowCancelled { .. }) => Ok(Vec::new()),
        Some(other) => Err(
            EngineError::InvalidState {
                reason: concat4(
                    run_subject_text(id, run).as_str(),
                    " is terminal for a non-reopenable reason (",
                    terminal_status_name(other),
                    "); only Failed and Cancelled are reopenable",
                ),
            },
        ),
        None => Err(
            EngineError::InvalidState {
                reason: concat4(
                    run_subject_text(id, run).as_str(),
                    " is ",
                    status_name(status_from_events(segment)),
                    ", not a reopenable terminal (Failed or Cancelled)",
                ),
            },
        ),
    }
}

/// What a reopen records and brings back.
#[derive(Debug, PartialEq, Eq)]
pub struct ReopenPlan {
    /// Activities that are driven anew.
    pub reopened: Vec<ActivityId>,
    /// Timers that come back.
    pub rearm: Vec<RearmTimer>,
    /// A handle left behind by the ended run is to be removed from the registry.
    pub remove_leftover: bool,
}

/// A run can be reopened.
pub open spec fn reopenable(history: Seq<Event>, run: RunId) -> bool {
    match lease_terminal(segment_of(history, run)) {
        Some(Event::WorkflowFailed { .. }) => true,
        Some(Event::WorkflowCancelled { .. }) => true,
        _ => false,
    }
}

/// Decides a reopen: against history first, so that a rejection names the run's true
/// state, and then against a registered handle. A handle whose cached status is terminal
/// is a leftover; any other means that a concurrent reopen is driving the run.
///
/// # Errors
///
/// [`EngineError::WorkflowNotFound`] when no history exists for the run, and
/// [`EngineError::InvalidState`] when the run is not terminal for a reopenable reason or
/// was reopened concurrently.
pub fn reopen(history: &[Event], handle: Option<&WorkflowHandle>, id: &WorkflowId, run: &RunId) -> (
    result: Result<ReopenPlan, EngineError>)
    ensures
        ({
            let segment = segment_of(history@, *run);
            if segment.len() == 0 {
                result matches Err(error) && is_run_not_found(error, *id, *run)
            } else if !reopenable(history@, *run) {
                result matches Err(error) && is_invalid_state(
                    error,
                    not_reopenable_text(*id, *run, segment),
                )
            } else if handle is Some && !ended(handle->Some_0.cached_status) {
                result matches Err(error) && is_invalid_state(
                    error,
                    run_subject(*id, *run)
                        + " was already reopened and is Running (concurrent reopen)"@,
                )
            } else {
                &&& result matches Ok(plan)
                &&& ascending(plan.reopened@)
                &&& forall|activity: ActivityId| #[trigger]
                    plan.reopened@.contains(activity) <==> lease_terminal(
                        segment,
                    )->Some_0 is WorkflowFailed && failed_for_good(segment, activity)
                &&& rearm_views(plan.rearm@) == rearm_plan(segment)
                &&& plan.remove_leftover == (handle is Some)
            }
        }),
{
    let segment = run_segment(history, run);
    if segment.len() == 0 {
        return Err(workflow_not_found(id, run));
    }
    let reopened = match validate_and_compute_reopened(id, run, segment) {
        Ok(reopened) => reopened,
        Err(error) => {
            return Err(error);
        },
    };
    match handle {
        Some(existing) => {
            if !existing.cached_status.is_terminal() {
                return Err(
                    EngineError::InvalidState {
                        reason: concat2(
                            run_subject_text(id, run).as_str(),
                            " was already reopened and is Running (concurrent reopen)",
                        ),
                    },
                );
            }
        },
        None => {},
    }
    Ok(
        ReopenPlan {
            reopened,
            rearm: rearmable_timers(segment),
            remove_leftover: handle.is_some(),
        },
    )
}

/// Recording a reopen sets the run running again, so that a second reopen is refused.
pub proof fn a_reopened_run_is_running(history: Seq<Event>, event: Event, run: RunId)
    requires
        latest_run(history, run),
        event is WorkflowReopened,
    ensures
        status_of(segment_of(history.push(event), run)) == WorkflowStatus::Running,
        !reopenable(history.push(event), run),
{
    let segment = segment_of(history, run);
    let longer = segment.push(event);
    lemma_latest_segment(history, event, run);
    opening_a_lease_supersedes_the_terminal(segment, event);
    let bears = |event: Event|
        opens_lease(event) || event is WorkflowPaused || event is WorkflowResumed;
    assert(longer[segment.len() as int] == event);
    lemma_last_where_is(longer, bears, segment.len() as int);
    assert(!on_hold(longer));
}

/// How a recovered run came back.
#[derive(Debug, PartialEq, Eq)]
pub enum ActiveWorkflowRecovery {
    /// A process drives it.
    Resident {
        /// The run.
        run_id: RunId,
        /// Package version that it executes on.
        loaded_version: ContentHash,
        /// Its process.
        pid: u64,
    },
    /// It is the schedule coordinator, which has no process.
    ScheduleCoordinator {
        /// The run.
        run_id: RunId,
    },
}

/// The workflow type that a history starts with.
pub open spec fn first_started_type(history: Seq<Event>) -> Option<String> {
    let start = first_where(history, |event: Event| begins_run(event));
    if start < history.len() {
        Some(history[start]->WorkflowStarted_workflow_type)
    } else {
        None
    }
}

/// The workflow type that a run is respawned with.
///
/// # Errors
///
/// [`EngineError::Load`] when the history holds no start.
pub fn started_workflow_type(id: &WorkflowId, history: &[Event]) -> (result: Result<
    String,
    EngineError,
>)
    ensures
        match result {
            Ok(workflow_type) => first_started_type(history@) == Some(workflow_type),
            Err(error) => first_started_type(history@) is None && is_load_error(
                error,
                "workflow "@ + uuid_text(id.value)
                    + " has no WorkflowStarted event to reopen from"@,
            ),
        },
{
    match find_started_type(history) {
        Some(workflow_type) => Ok(workflow_type),
        None => Err(
            load_error(
                concat3(
                    "workflow ",
                    id.text().as_str(),
                    " has no WorkflowStarted event to reopen from",
                ),
            ),
        ),
    }
}

/// The workflow type that a history starts with.
pub fn find_started_type(history: &[Event]) -> (workflow_type: Option<String>)
    ensures
        workflow_type == first_started_type(history@),
{
    let ghost begins = |event: Event| begins_run(event);
    let mut i: usize = 0;
    while i < history.len()
        invariant
            0 <= i <= history@.len(),
            begins == (|event: Event| begins_run(event)),
            forall|j: int|
                0 <= j < i ==> !begins_run(#[trigger] history@[j]),
        decreases history.len() - i,
    {
        match &history[i] {
            Event::WorkflowStarted { workflow_type, .. } => {
                proof {
                    lemma_first_where_is(history@, begins, i as int);
                }
                return Some(workflow_type.clone());
            },
            _ => {},
        }
        i = i + 1;
    }
    proof {
        lemma_first_where_is(history@, begins, history@.len() as int);
    }
    None
}

/// A process brought back for a run.
#[derive(Clone, Copy, Debug, PartialEq, Eq)]
pub struct RespawnedProcess {
    /// The run.
    pub run_id: RunId,
    /// Package version that it executes on.
    pub loaded_version: ContentHash,
    /// Its process.
    pub pid: u64,
}

/// The process that was brought back for a run.
///
/// # Errors
///
/// [`EngineError::InvalidState`] when the run is the schedule coordinator.
pub fn respawned_process(id: &WorkflowId, run: &RunId, recovered: ActiveWorkflowRecovery) -> (result:
    Result<RespawnedProcess, EngineError>)
    ensures
        match recovered {
            ActiveWorkflowRecovery::Resident { run_id, loaded_version, pid } => result matches Ok(
                process,
            ) && process == (RespawnedProcess { run_id, loaded_version, pid }),
            ActiveWorkflowRecovery::ScheduleCoordinator { .. } => result matches Err(error)
                && is_invalid_state(
                error,
                run_subject(*id, *run) + " is the schedule coordinator, not reopenable"@,
            ),
        },
{
    match recovered {
        ActiveWorkflowRecovery::Resident { run_id, loaded_version, pid } => Ok(
            RespawnedProcess { run_id, loaded_version, pid },
        ),
        ActiveWorkflowRecovery::ScheduleCoordinator { .. } => Err(
            EngineError::InvalidState {
                reason: concat2(
                    run_subject_text(id, run).as_str(),
                    " is the schedule coordinator, not reopenable",
                ),
            },
        ),
    }
}

/// The handle of a run that was brought back, as the registry has it.
///
/// # Errors
///
/// [`EngineError::Runtime`] when the run was not registered.
pub fn respawned_handle(registry: &Registry, id: &WorkflowId, run: &RunId) -> (result: Result<
    WorkflowHandle,
    EngineError,
>)
    requires
        registry.wf(),
    ensures
        ({
            let key = RunKey { workflow_id: *id, run_id: *run };
            match result {
                Ok(handle) => registry@.contains_key(key) && handle == registry@[key],
                Err(error) => !registry@.contains_key(key) && is_runtime_error(
                    error,
                    "reopened workflow "@ + uuid_text(id.value) + " run "@ + uuid_text(run.value)
                        + " was not registered"@,
                ),
            }
        }),
{
    match registry.get(id, run) {
        Some(handle) => Ok(handle),
        None => Err(
            EngineError::Runtime {
                reason: concat5(
                    "reopened workflow ",
                    id.text().as_str(),
                    " run ",
                    run.text().as_str(),
                    " was not registered",
                ),
            },
        ),
    }
}

/// How a timer comes back.
#[derive(Clone, Copy, Debug, PartialEq, Eq, Structural)]
pub enum RearmAction {
    /// Its durable row and its wheel entry are put back.
    Schedule,
    /// It is due: its durable row is put back, and then it fires.
    PersistAndFire,
}

/// How a timer comes back at some instant: one that is due fires.
pub fn rearm_action(timer: &RearmTimer, now: &Timestamp) -> (action: RearmAction)
    ensures
        action == if earlier(*now, timer.fire_at) {
            RearmAction::Schedule
        } else {
            RearmAction::PersistAndFire
        },
{
    if timer.fire_at.is_after(now) {
        RearmAction::Schedule
    } else {
        RearmAction::PersistAndFire
    }
}

/// The step of a respawn to perform next, or how it ended.
#[derive(Debug, PartialEq, Eq)]
pub enum RespawnPhase {
    /// Record the marker (`WorkflowReopened` or `WorkflowResumed`) that opens the lease.
    RecordMarker,
    /// Record a fresh start of the timer.
    RestartTimer {
        /// Position among the timers that come back.
        timer: usize,
    },
    /// Release the dispatch hold.
    ReleaseHold,
    /// Read the history again and respawn and register the run.
    Respawn,
    /// Wait until the process waits for a timer or a message.
    AwaitPark,
    /// Put back the timer's row and wheel entry.
    Schedule {
        /// Position among the timers that come back.
        timer: usize,
    },
    /// Put back the timer's row.
    Persist {
        /// Position among the timers that come back.
        timer: usize,
    },
    /// Fire the timer.
    Fire {
        /// Position among the timers that come back.
        timer: usize,
    },
    /// The run is back.
    Respawned,
    /// The respawn failed.
    Failed(EngineError),
}

/// A run on its way back.
#[derive(Debug, PartialEq, Eq)]
pub struct RespawnRun {
    /// The timers that come back.
    pub rearm: Vec<RearmTimer>,
    /// A dispatch hold is to be released.
    pub releases_hold: bool,
    /// The instant that decides which timers are due, once the process waits.
    pub now: Timestamp,
    /// The step to perform next, or how the respawn ended.
    pub phase: RespawnPhase,
}

/// The first timer at or after a position that needs a fresh start, or their number.
pub open spec fn next_restart(rearm: Seq<RearmTimer>, from: int) -> int
    decreases rearm.len() - from,
{
    if from >= rearm.len() || rearm[from].needs_restart_marker {
        from
    } else {
        next_restart(rearm, from + 1)
    }
}

impl RespawnRun {
    /// The positions of the phases are those of timers.
    pub open spec fn fits(self) -> bool {
        match self.phase {
            RespawnPhase::RestartTimer { timer } => timer < self.rearm@.len(),
            RespawnPhase::Schedule { timer } => timer < self.rearm@.len(),
            RespawnPhase::Persist { timer } => timer < self.rearm@.len(),
            RespawnPhase::Fire { timer } => timer < self.rearm@.len(),
            _ => true,
        }
    }

    /// The phase that follows the restarts up to a position.
    pub open spec fn restarting(self, from: int) -> RespawnPhase {
        let next = next_restart(self.rearm@, from);
        if next < self.rearm@.len() {
            RespawnPhase::RestartTimer { timer: next as usize }
        } else if self.releases_hold {
            RespawnPhase::ReleaseHold
        } else {
            RespawnPhase::Respawn
        }
    }

    /// The phase that brings back the timers from a position on.
    pub open spec fn rearming(self, from: int) -> RespawnPhase {
        if from >= self.rearm@.len() {
            RespawnPhase::Respawned
        } else if earlier(self.now, self.rearm@[from].fire_at) {
            RespawnPhase::Schedule { timer: from as usize }
        } else {
            RespawnPhase::Persist { timer: from as usize }
        }
    }

    /// The phase after a step: the marker is recorded first, then the restarts, then the
    /// run is respawned, and only then do its timers come back; one that is due has its
    /// row before it fires.
    pub open spec fn after(self, reply: Result<(), EngineError>) -> RespawnPhase {
        match (self.phase, reply) {
            (RespawnPhase::RecordMarker, Ok(_)) => self.restarting(0),
            (RespawnPhase::RestartTimer { timer }, Ok(_)) => self.restarting(timer + 1),
            (RespawnPhase::ReleaseHold, _) => RespawnPhase::Respawn,
            (RespawnPhase::Respawn, Ok(_)) => if self.rearm@.len() == 0 {
                RespawnPhase::Respawned
            } else {
                RespawnPhase::AwaitPark
            },
            (RespawnPhase::AwaitPark, Ok(_)) => self.rearming(0),
            (RespawnPhase::Schedule { timer }, Ok(_)) => self.rearming(timer + 1),
            (RespawnPhase::Persist { timer }, Ok(_)) => RespawnPhase::Fire { timer },
            (RespawnPhase::Fire { timer }, Ok(_)) => self.rearming(timer + 1),
            (RespawnPhase::RecordMarker, Err(error))
            | (RespawnPhase::RestartTimer { .. }, Err(error))
            | (RespawnPhase::Respawn, Err(error))
            | (RespawnPhase::AwaitPark, Err(error))
            | (RespawnPhase::Schedule { .. }, Err(error))
            | (RespawnPhase::Persist { .. }, Err(error))
            | (RespawnPhase::Fire { .. }, Err(error)) => RespawnPhase::Failed(error),
            (phase, _) => phase,
        }
    }

    /// A run about to come back.
    pub fn new(rearm: Vec<RearmTimer>, releases_hold: bool, now: Timestamp) -> (run: Self)
        ensures
            run == (RespawnRun { rearm, releases_hold, now, phase: RespawnPhase::RecordMarker }),
            run.fits(),
    {
        RespawnRun { rearm, releases_hold, now, phase: RespawnPhase::RecordMarker }
    }

    /// The phase that follows the restarts up to a position.
    fn next_restart_phase(rearm: &Vec<RearmTimer>, releases_hold: bool, from: usize) -> (phase:
        RespawnPhase)
        requires
            from <= rearm@.len(),
        ensures
            ({
                let next = next_restart(rearm@, from as int);
                phase == if next < rearm@.len() {
                    RespawnPhase::RestartTimer { timer: next as usize }
                } else if releases_hold {
                    RespawnPhase::ReleaseHold
                } else {
                    RespawnPhase::Respawn
                }
            }),
    {
        let mut i: usize = from;
        while i < rearm.len() && !rearm[i].needs_restart_marker
            invariant
                from <= i <= rearm@.len(),
                next_restart(rearm@, from as int) == next_restart(rearm@, i as int),
            decreases rearm.len() - i,
        {
            i = i + 1;
        }
        if i < rearm.len() {
            RespawnPhase::RestartTimer { timer: i }
        } else if releases_hold {
            RespawnPhase::ReleaseHold
        } else {
            RespawnPhase::Respawn
        }
    }

    /// The phase that brings back the timers from a position on.
    fn next_rearm_phase(rearm: &Vec<RearmTimer>, now: &Timestamp, from: usize) -> (phase:
        RespawnPhase)
        ensures
            phase == if from >= rearm@.len() {
                RespawnPhase::Respawned
            } else if earlier(*now, rearm@[from as int].fire_at) {
                RespawnPhase::Schedule { timer: from }
            } else {
                RespawnPhase::Persist { timer: from }
            },
    {
        if from >= rearm.len() {
            RespawnPhase::Respawned
        } else {
            match rearm_action(&rearm[from], now) {
                RearmAction::Schedule => RespawnPhase::Schedule { timer: from },
                RearmAction::PersistAndFire => RespawnPhase::Persist { timer: from },
            }
        }
    }

    /// The run with its clock read: once the process waits, and not again.
    pub open spec fn at(self, now: Timestamp) -> RespawnRun {
        if self.phase is AwaitPark {
            RespawnRun { now, ..self }
        } else {
            self
        }
    }

    /// The run after a step that ended at some instant.
    pub open spec fn next(self, reply: Result<(), EngineError>, now: Timestamp) -> RespawnRun {
        RespawnRun { phase: self.at(now).after(reply), ..self.at(now) }
    }

    /// Takes in what came of a step, and when.
    pub fn advance(self, reply: Result<(), EngineError>, now: Timestamp) -> (run: Self)
        requires
            self.fits(),
        ensures
            run == self.next(reply, now),
            run.fits(),
    {
        let RespawnRun { rearm, releases_hold, now: read, phase } = self;
        let now = if matches!(&phase, RespawnPhase::AwaitPark) {
            now
        } else {
            read
        };
        let count: usize = rearm.len();
        proof {
            lemma_next_restart(rearm@, 0);
            match phase {
                RespawnPhase::RestartTimer { timer } => {
                    lemma_next_restart(rearm@, timer + 1);
                },
                _ => {},
            }
        }
        let phase = match (phase, reply) {
            (RespawnPhase::RecordMarker, Ok(())) => Self::next_restart_phase(
                &rearm,
                releases_hold,
                0,
            ),
            (RespawnPhase::RestartTimer { timer }, Ok(())) => Self::next_restart_phase(
                &rearm,
                releases_hold,
                timer + 1,
            ),
            (RespawnPhase::ReleaseHold, _) => RespawnPhase::Respawn,
            (RespawnPhase::Respawn, Ok(())) => {
                if count == 0 {
                    RespawnPhase::Respawned
                } else {
                    RespawnPhase::AwaitPark
                }
            },
            (RespawnPhase::AwaitPark, Ok(())) => Self::next_rearm_phase(&rearm, &now, 0),
            (RespawnPhase::Schedule { timer }, Ok(())) => Self::next_rearm_phase(
                &rearm,
                &now,
                timer + 1,
            ),
            (RespawnPhase::Persist { timer }, Ok(())) => RespawnPhase::Fire { timer },
            (RespawnPhase::Fire { timer }, Ok(())) => Self::next_rearm_phase(
                &rearm,
                &now,
                timer + 1,
            ),
            (RespawnPhase::RecordMarker, Err(error)) => RespawnPhase::Failed(error),
            (RespawnPhase::RestartTimer { .. }, Err(error)) => RespawnPhase::Failed(error),
            (RespawnPhase::Respawn, Err(error)) => RespawnPhase::Failed(error),
            (RespawnPhase::AwaitPark, Err(error)) => RespawnPhase::Failed(error),
            (RespawnPhase::Schedule { .. }, Err(error)) => RespawnPhase::Failed(error),
            (RespawnPhase::Persist { .. }, Err(error)) => RespawnPhase::Failed(error),
            (RespawnPhase::Fire { .. }, Err(error)) => RespawnPhase::Failed(error),
            (phase, _) => phase,
        };
        RespawnRun { rearm, releases_hold, now, phase }
    }
}

/// The timer service is missing while a run comes back.
pub fn timer_service_unavailable(id: &WorkflowId, error: &str) -> (failure: EngineError)
    ensures
        is_runtime_error(
            failure,
            "timer service unavailable while reopening "@ + uuid_text(id.value) + ": "@ + error@,
        ),
{
    EngineError::Runtime {
        reason: concat4(
            "timer service unavailable while reopening ",
            id.text().as_str(),
            ": ",
            error,
        ),
    }
}

/// A timer, given by its name, could not be armed again.
pub fn rearm_failed(id: &WorkflowId, timer: &str, error: &str) -> (failure: EngineError)
    ensures
        is_runtime_error(
            failure,
            "failed to re-arm timer "@ + timer@ + " for reopened workflow "@ + uuid_text(id.value)
                + ": "@ + error@,
        ),
{
    EngineError::Runtime {
        reason: concat6(
            "failed to re-arm timer ",
            timer,
            " for reopened workflow ",
            id.text().as_str(),
            ": ",
            error,
        ),
    }
}

/// A timer, given by its name, that was past due could not be fired.
pub fn late_fire_failed(id: &WorkflowId, timer: &str, error: &str) -> (failure: EngineError)
    ensures
        is_runtime_error(
            failure,
            "failed to fire past-due timer "@ + timer@ + " for reopened workflow "@ + uuid_text(
                id.value,
            ) + ": "@ + error@,
        ),
{
    EngineError::Runtime {
        reason: concat6(
            "failed to fire past-due timer ",
            timer,
            " for reopened workflow ",
            id.text().as_str(),
            ": ",
            error,
        ),
    }
}

/// A course of a respawn: each run follows from the one before it by a reply.
pub open spec fn respawn_course(
    runs: Seq<RespawnRun>,
    replies: Seq<Result<(), EngineError>>,
    instants: Seq<Timestamp>,
) -> bool {
    &&& runs.len() == replies.len() + 1
    &&& instants.len() == replies.len()
    &&& runs[0].phase is RecordMarker
    &&& forall|i: int|
        0 <= i < replies.len() ==> runs[i + 1] == runs[i].next(#[trigger] replies[i], instants[i])
}

/// A step of a course was performed with success.
pub open spec fn performed(
    runs: Seq<RespawnRun>,
    replies: Seq<Result<(), EngineError>>,
    phase: RespawnPhase,
) -> bool {
    exists|i: int|
        0 <= i < replies.len() && (#[trigger] runs[i]).phase == phase && replies[i] is Ok
}

/// How many of the timers have been passed by the restarts.
pub open spec fn restarts_passed(run: RespawnRun) -> int {
    match run.phase {
        RespawnPhase::RecordMarker => 0,
        RespawnPhase::RestartTimer { timer } => timer as int,
        RespawnPhase::Failed(_) => 0,
        _ => run.rearm@.len() as int,
    }
}

/// How many of the timers have come back.
pub open spec fn timers_back(run: RespawnRun) -> int {
    match run.phase {
        RespawnPhase::Schedule { timer } => timer as int,
        RespawnPhase::Persist { timer } => timer as int,
        RespawnPhase::Fire { timer } => timer as int,
        RespawnPhase::Respawned => run.rearm@.len() as int,
        _ => 0,
    }
}

/// No timer between a position and the next restart needs one.
proof fn lemma_none_skipped(rearm: Seq<RearmTimer>, from: int)
    requires
        0 <= from <= rearm.len(),
    ensures
        forall|i: int|
            from <= i < next_restart(rearm, from) ==> !(#[trigger] rearm[i]).needs_restart_marker,
        next_restart(rearm, from) < rearm.len() ==> rearm[next_restart(
            rearm,
            from,
        )].needs_restart_marker,
    decreases rearm.len() - from,
{
    if from < rearm.len() && !rearm[from].needs_restart_marker {
        lemma_none_skipped(rearm, from + 1);
    }
}

/// What a course has behind it: the timers, the restarts that it passed, the respawn
/// where it is past it, and the timers that came back.
pub open spec fn behind(
    runs: Seq<RespawnRun>,
    replies: Seq<Result<(), EngineError>>,
) -> bool {
    let last = runs.last();
    &&& last.rearm == runs[0].rearm
    &&& last.fits()
    &&& last.rearm@.len() <= usize::MAX
    &&& !(last.phase is RecordMarker) && !(last.phase is Failed) ==> performed(
        runs,
        replies,
        RespawnPhase::RecordMarker,
    )
    &&& forall|i: int|
        0 <= i < restarts_passed(last) && (#[trigger] last.rearm@[i]).needs_restart_marker
            ==> performed(runs, replies, RespawnPhase::RestartTimer { timer: i as usize })
    &&& (last.phase is AwaitPark || last.phase is Schedule || last.phase is Persist
        || last.phase is Fire || last.phase is Respawned) ==> performed(
        runs,
        replies,
        RespawnPhase::Respawn,
    )
    &&& last.phase matches RespawnPhase::Fire { timer } ==> performed(
        runs,
        replies,
        RespawnPhase::Persist { timer },
    )
    &&& forall|i: int|
        0 <= i < timers_back(last) && 0 <= i < last.rearm@.len() ==> #[trigger] came_back(
            runs,
            replies,
            i as usize,
        )
}

/// A timer came back: its row and wheel entry were put back, or its row was put back
/// and it fired.
pub open spec fn came_back(
    runs: Seq<RespawnRun>,
    replies: Seq<Result<(), EngineError>>,
    timer: usize,
) -> bool {
    ||| performed(runs, replies, RespawnPhase::Schedule { timer })
    ||| performed(runs, replies, RespawnPhase::Persist { timer }) && performed(
        runs,
        replies,
        RespawnPhase::Fire { timer },
    )
}

/// A longer course has performed what a shorter one has.
proof fn lemma_still_performed(
    runs: Seq<RespawnRun>,
    replies: Seq<Result<(), EngineError>>,
    phase: RespawnPhase,
)
    requires
        replies.len() > 0,
        runs.len() == replies.len() + 1,
    ensures
        performed(runs.drop_last(), replies.drop_last(), phase) ==> performed(runs, replies, phase),
        runs[replies.len() - 1].phase == phase && replies.last() is Ok ==> performed(
            runs,
            replies,
            phase,
        ),
{
    if performed(runs.drop_last(), replies.drop_last(), phase) {
        let i = choose|i: int|
            0 <= i < replies.drop_last().len() && (#[trigger] runs.drop_last()[i]).phase == phase
                && replies.drop_last()[i] is Ok;
        assert(runs[i].phase == phase && replies[i] is Ok);
    }
    if runs[replies.len() - 1].phase == phase && replies.last() is Ok {
        assert(replies[replies.len() - 1] is Ok);
    }
}

/// Every course has behind it what its phase stands for.
proof fn lemma_behind(
    runs: Seq<RespawnRun>,
    replies: Seq<Result<(), EngineError>>,
    instants: Seq<Timestamp>,
)
    requires
        respawn_course(runs, replies, instants),
        runs[0].rearm@.len() <= usize::MAX,
    ensures
        behind(runs, replies),
    decreases replies.len(),
{
    if replies.len() > 0 {
        let n = replies.len() - 1;
        let sruns = runs.drop_last();
        let sreplies = replies.drop_last();
        let sinstants = instants.drop_last();
        assert(sruns.len() == sreplies.len() + 1);
        assert forall|i: int| 0 <= i < sreplies.len() implies sruns[i + 1] == sruns[i].next(
            #[trigger] sreplies[i],
            sinstants[i],
        ) by {
            assert(sreplies[i] == replies[i]);
            assert(runs[i] == sruns[i] && runs[i + 1] == sruns[i + 1]);
        }
        lemma_behind(sruns, sreplies, sinstants);
        let prior = runs[n];
        let last = runs.last();
        assert(prior == sruns.last());
        assert(last == prior.next(replies[n], instants[n]));
        let rearm = prior.rearm@;
        lemma_next_restart(rearm, 0);
        lemma_none_skipped(rearm, 0);
        match prior.phase {
            RespawnPhase::RestartTimer { timer } => {
                lemma_next_restart(rearm, timer + 1);
                lemma_none_skipped(rearm, timer + 1);
            },
            _ => {},
        }
        lemma_still_performed(runs, replies, RespawnPhase::RecordMarker);
        lemma_still_performed(runs, replies, RespawnPhase::Respawn);
        lemma_still_performed(runs, replies, prior.phase);
        assert forall|i: int|
            0 <= i < restarts_passed(last) && (
            #[trigger] last.rearm@[i]).needs_restart_marker implies performed(
            runs,
            replies,
            RespawnPhase::RestartTimer { timer: i as usize },
        ) by {
            lemma_still_performed(runs, replies, RespawnPhase::RestartTimer { timer: i as usize });
            assert(rearm[i].needs_restart_marker);
        }
        assert forall|i: int|
            0 <= i < timers_back(last) && 0 <= i < last.rearm@.len() implies #[trigger] came_back(
            runs,
            replies,
            i as usize,
        ) by {
            lemma_still_performed(runs, replies, RespawnPhase::Schedule { timer: i as usize });
            lemma_still_performed(runs, replies, RespawnPhase::Persist { timer: i as usize });
            lemma_still_performed(runs, replies, RespawnPhase::Fire { timer: i as usize });
            if i < timers_back(prior) {
                assert(came_back(sruns, sreplies, i as usize));
            }
        }
    }
}

/// A run that is back has its marker recorded and was respawned, every torn-down timer
/// was started afresh, and every timer came back: one that fired had its row put back.
pub proof fn a_respawned_run_has_its_timers_back(
    runs: Seq<RespawnRun>,
    replies: Seq<Result<(), EngineError>>,
    instants: Seq<Timestamp>,
)
    requires
        respawn_course(runs, replies, instants),
        runs[0].rearm@.len() <= usize::MAX,
        runs.last().phase is Respawned,
    ensures
        performed(runs, replies, RespawnPhase::RecordMarker),
        performed(runs, replies, RespawnPhase::Respawn),
        forall|i: int|
            0 <= i < runs[0].rearm@.len() ==> #[trigger] came_back(runs, replies, i as usize),
        forall|i: int|
            0 <= i < runs[0].rearm@.len() && (#[trigger] runs[0].rearm@[i]).needs_restart_marker
                ==> performed(runs, replies, RespawnPhase::RestartTimer { timer: i as usize }),
{
    lemma_behind(runs, replies, instants);
}

/// No timer comes back, and none fires, before the run is respawned.
pub proof fn timers_come_back_only_to_a_respawned_run(
    runs: Seq<RespawnRun>,
    replies: Seq<Result<(), EngineError>>,
    instants: Seq<Timestamp>,
)
    requires
        respawn_course(runs, replies, instants),
        runs[0].rearm@.len() <= usize::MAX,
        runs.last().phase is Schedule || runs.last().phase is Persist || runs.last().phase is Fire,
    ensures
        performed(runs, replies, RespawnPhase::Respawn),
        runs.last().phase matches RespawnPhase::Fire { timer } ==> performed(
            runs,
            replies,
            RespawnPhase::Persist { timer },
        ),
{
    lemma_behind(runs, replies, instants);
}

/// Where the next restart lies.
proof fn lemma_next_restart(rearm: Seq<RearmTimer>, from: int)
    requires
        0 <= from <= rearm.len(),
    ensures
        from <= next_restart(rearm, from) <= rearm.len(),
    decreases rearm.len() - from,
{
    if from < rearm.len() && !rearm[from].needs_restart_marker {
        lemma_next_restart(rearm, from + 1);
    }
}

} // verus!
