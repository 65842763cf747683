//! Durable timers as a history shows them: which are live, and which run's
//! deadline is outstanding.

use vstd::prelude::*;

use crate::event::Event;
use crate::history::{
    active_segment, begins_run, lemma_last_where_is,
};
use crate::ids::{deadline_key, deadline_timer_id, uuid_text, RunId, TimerId, TimerKey};

verus! {

/// What a timed-out run records as the timeout that elapsed.
pub const WORKFLOW_TIMEOUT_DESCRIPTOR: &'static str = "workflow";

/// The event starts the timer.
pub open spec fn starts_timer(event: Event, key: TimerKey) -> bool {
    event matches Event::TimerStarted { timer_id, .. } && timer_id@ == key
}

/// The event ends the timer: it fired or was cancelled.
pub open spec fn ends_timer(event: Event, key: TimerKey) -> bool {
    match event {
        Event::TimerFired { timer_id, .. } => timer_id@ == key,
        Event::TimerCancelled { timer_id, .. } => timer_id@ == key,
        _ => false,
    }
}

/// The timer is live: it was started and has not ended since.
pub open spec fn timer_live(events: Seq<Event>, key: TimerKey) -> bool {
    exists|i: int|
        0 <= i < events.len() && starts_timer(#[trigger] events[i], key) && (forall|j: int|
            i < j < events.len() ==> !ends_timer(#[trigger] events[j], key))
}

/// A sequence of keys with every occurrence of one key left out.
pub open spec fn without(keys: Seq<TimerKey>, key: TimerKey) -> Seq<TimerKey>
    decreases keys.len(),
{
    if keys.len() == 0 {
        Seq::empty()
    } else if keys.last() == key {
        without(keys.drop_last(), key)
    } else {
        without(keys.drop_last(), key).push(keys.last())
    }
}

/// The live timers of a sequence of events, each once, in the order in which they
/// became live.
pub open spec fn live_timers(events: Seq<Event>) -> Seq<TimerKey>
    decreases events.len(),
{
    if events.len() == 0 {
        Seq::empty()
    } else {
        let before = live_timers(events.drop_last());
        match events.last() {
            Event::TimerStarted { timer_id, .. } => if before.contains(timer_id@) {
                before
            } else {
                before.push(timer_id@)
            },
            Event::TimerFired { timer_id, .. } => without(before, timer_id@),
            Event::TimerCancelled { timer_id, .. } => without(before, timer_id@),
            _ => before,
        }
    }
}

/// The keys of a sequence of timers.
pub open spec fn keys(timers: Seq<TimerId>) -> Seq<TimerKey> {
    timers.map_values(|timer: TimerId| timer@)
}

/// A run's deadline is outstanding: its timer is live.
pub open spec fn deadline_outstanding(events: Seq<Event>, run: RunId) -> bool {
    timer_live(events, deadline_key(run))
}

/// What remains after a key is left out: the other keys, in their order.
pub proof fn lemma_without(all: Seq<TimerKey>, key: TimerKey)
    ensures
        forall|k: TimerKey|
            without(all, key).contains(k) <==> (all.contains(k) && k != key),
        all.no_duplicates() ==> without(all, key).no_duplicates(),
    decreases all.len(),
{
    if all.len() > 0 {
        let shorter = all.drop_last();
        lemma_without(shorter, key);
        let rest = without(shorter, key);
        let result = without(all, key);
        assert(all =~= shorter.push(all.last()));
        assert forall|k: TimerKey| result.contains(k) <==> (all.contains(k) && k != key) by {
            assert(all.contains(k) <==> (shorter.contains(k) || k == all.last())) by {
                lemma_push_contains(shorter, all.last(), k);
            }
            if all.last() != key {
                lemma_push_contains(rest, all.last(), k);
            }
        }
        if all.no_duplicates() {
            assert(shorter.no_duplicates());
            if all.last() != key {
                assert(!shorter.contains(all.last()));
                assert(!rest.contains(all.last()));
            }
        }
    }
}

/// Membership after a key is appended.
pub proof fn lemma_push_contains(all: Seq<TimerKey>, last: TimerKey, key: TimerKey)
    ensures
        all.push(last).contains(key) <==> (all.contains(key) || key == last),
{
    let longer = all.push(last);
    if all.contains(key) {
        let i = choose|i: int| 0 <= i < all.len() && all[i] == key;
        assert(longer[i] == key);
    }
    if key == last {
        assert(longer[all.len() as int] == key);
    }
    if longer.contains(key) && key != last {
        let i = choose|i: int| 0 <= i < longer.len() && longer[i] == key;
        assert(all[i] == key);
    }
}

/// What one more event does to a timer's liveness.
pub proof fn lemma_timer_live_step(events: Seq<Event>, key: TimerKey)
    requires
        events.len() > 0,
    ensures
        timer_live(events, key) == if starts_timer(events.last(), key) {
            true
        } else if ends_timer(events.last(), key) {
            false
        } else {
            timer_live(events.drop_last(), key)
        },
{
    let before = events.drop_last();
    let last = events.len() - 1;
    if starts_timer(events.last(), key) {
        assert(starts_timer(events[last], key));
    } else if ends_timer(events.last(), key) {
        assert(ends_timer(events[last], key));
    } else {
        if timer_live(before, key) {
            let i = choose|i: int|
                0 <= i < before.len() && starts_timer(#[trigger] before[i], key) && (forall|j: int|
                    i < j < before.len() ==> !ends_timer(#[trigger] before[j], key));
            assert(events[i] == before[i]);
            assert forall|j: int| i < j < events.len() implies !ends_timer(
                #[trigger] events[j],
                key,
            ) by {
                if j < last {
                    assert(events[j] == before[j]);
                }
            }
        }
        if timer_live(events, key) {
            let i = choose|i: int|
                0 <= i < events.len() && starts_timer(#[trigger] events[i], key) && (forall|j: int|
                    i < j < events.len() ==> !ends_timer(#[trigger] events[j], key));
            assert(before[i] == events[i]);
            assert forall|j: int| i < j < before.len() implies !ends_timer(
                #[trigger] before[j],
                key,
            ) by {
                assert(events[j] == before[j]);
            }
        }
    }
}

/// The live timers are exactly those that were started and have not ended since,
/// and each is listed once.
pub proof fn live_timers_are_started_and_not_ended(events: Seq<Event>)
    ensures
        live_timers(events).no_duplicates(),
        forall|key: TimerKey| live_timers(events).contains(key) <==> timer_live(events, key),
    decreases events.len(),
{
    if events.len() > 0 {
        let shorter = events.drop_last();
        live_timers_are_started_and_not_ended(shorter);
        let before = live_timers(shorter);
        match events.last() {
            Event::TimerFired { timer_id, .. } => {
                lemma_without(before, timer_id@);
            },
            Event::TimerCancelled { timer_id, .. } => {
                lemma_without(before, timer_id@);
            },
            _ => {},
        }
        assert forall|key: TimerKey| live_timers(events).contains(key) <==> timer_live(
            events,
            key,
        ) by {
            lemma_timer_live_step(events, key);
            assert(before.contains(key) <==> timer_live(shorter, key));
            match events.last() {
                Event::TimerStarted { timer_id, .. } => {
                    lemma_push_contains(before, timer_id@, key);
                },
                Event::TimerFired { timer_id, .. } => {
                    assert(live_timers(events) == without(before, timer_id@));
                },
                Event::TimerCancelled { timer_id, .. } => {
                    assert(live_timers(events) == without(before, timer_id@));
                },
                _ => {},
            }
        }
    }
}

/// Whether a list of timers holds one.
pub fn holds_timer(timers: &Vec<TimerId>, timer: &TimerId) -> (holds: bool)
    ensures
        holds == keys(timers@).contains(timer@),
{
    let mut i: usize = 0;
    while i < timers.len()
        invariant
            0 <= i <= timers.len(),
            forall|j: int| 0 <= j < i ==> #[trigger] timers@[j]@ != timer@,
        decreases timers.len() - i,
    {
        if timers[i].same(timer) {
            proof {
                assert(keys(timers@)[i as int] == timer@);
            }
            return true;
        }
        i = i + 1;
    }
    proof {
        if keys(timers@).contains(timer@) {
            let j = choose|j: int| 0 <= j < keys(timers@).len() && keys(timers@)[j] == timer@;
            assert(timers@[j]@ == timer@);
        }
    }
    false
}

/// A list of timers with one left out.
pub fn leave_out(timers: &Vec<TimerId>, timer: &TimerId) -> (rest: Vec<TimerId>)
    ensures
        keys(rest@) == without(keys(timers@), timer@),
{
    let mut rest: Vec<TimerId> = Vec::new();
    let mut i: usize = 0;
    proof {
        assert(keys(timers@).take(0) =~= Seq::empty());
        assert(keys(rest@) =~= Seq::empty());
    }
    while i < timers.len()
        invariant
            0 <= i <= timers.len(),
            keys(rest@) == without(keys(timers@).take(i as int), timer@),
        decreases timers.len() - i,
    {
        let ghost longer = keys(timers@).take(i + 1);
        proof {
            assert(longer.drop_last() =~= keys(timers@).take(i as int));
            assert(longer.last() == timers@[i as int]@);
        }
        if !timers[i].same(timer) {
            let ghost old_rest = rest@;
            rest.push(timers[i].clone());
            proof {
                assert(keys(rest@) =~= keys(old_rest).push(timers@[i as int]@));
            }
        }
        i = i + 1;
    }
    proof {
        assert(keys(timers@).take(i as int) =~= keys(timers@));
    }
    rest
}

/// The live timers of a sequence of events.
pub fn live_timers_in(events: &[Event]) -> (timers: Vec<TimerId>)
    ensures
        keys(timers@) == live_timers(events@),
{
    let mut timers: Vec<TimerId> = Vec::new();
    let mut i: usize = 0;
    proof {
        assert(keys(timers@) =~= Seq::empty());
        assert(events@.take(0) =~= Seq::empty());
    }
    while i < events.len()
        invariant
            0 <= i <= events@.len(),
            keys(timers@) == live_timers(events@.take(i as int)),
        decreases events.len() - i,
    {
        proof {
            assert(events@.take(i + 1).drop_last() =~= events@.take(i as int));
            assert(events@.take(i + 1).last() == events@[i as int]);
        }
        match &events[i] {
            Event::TimerStarted { timer_id, .. } => {
                if !holds_timer(&timers, timer_id) {
                    let ghost old_timers = timers@;
                    timers.push(timer_id.clone());
                    proof {
                        assert(keys(timers@) =~= keys(old_timers).push(timer_id@));
                    }
                }
            },
            Event::TimerFired { timer_id, .. } => {
                timers = leave_out(&timers, timer_id);
            },
            Event::TimerCancelled { timer_id, .. } => {
                timers = leave_out(&timers, timer_id);
            },
            _ => {},
        }
        i = i + 1;
    }
    proof {
        assert(events@.take(i as int) =~= events@);
    }
    timers
}

/// The timers of the active run that were started and neither fired nor were
/// cancelled since, in the order in which they became live.
///
/// Timers of an earlier run of the same history are not listed.
pub fn live_timers_in_active_segment(history: &[Event]) -> (timers: Vec<TimerId>)
    ensures
        keys(timers@) == live_timers(active_segment(history@)),
{
    let ghost starts = |event: Event| begins_run(event);
    let mut start: usize = history.len();
    while start > 0 && !matches!(&history[start - 1], Event::WorkflowStarted { .. })
        invariant
            0 <= start <= history@.len(),
            forall|j: int| start <= j < history@.len() ==> !begins_run(#[trigger] history@[j]),
        decreases start,
    {
        start = start - 1;
    }
    proof {
        lemma_last_where_is(history@, starts, start - 1);
        assert(active_segment(history@) =~= history@.subrange(start as int, history@.len() as int));
    }
    live_timers_in(vstd::slice::slice_subrange(history, start, history.len()))
}

/// The timer that carries a run's deadline, where it is still live.
pub fn outstanding_deadline_timer(history: &[Event], run: &RunId) -> (timer: Option<TimerId>)
    ensures
        match timer {
            Some(timer) => deadline_outstanding(history@, *run) && timer@ == deadline_key(*run),
            None => !deadline_outstanding(history@, *run),
        },
{
    let deadline = deadline_timer_id(run);
    let timers = live_timers_in(history);
    proof {
        live_timers_are_started_and_not_ended(history@);
    }
    if holds_timer(&timers, &deadline) {
        Some(deadline)
    } else {
        None
    }
}

/// Leaving a key out keeps the others, in their order.
pub proof fn lemma_without_filters(
    all: Seq<TimerKey>,
    key: TimerKey,
    others: spec_fn(TimerKey) -> bool,
)
    requires
        forall|k: TimerKey| #[trigger] others(k) <==> k != key,
    ensures
        without(all, key) == all.filter(others),
    decreases all.len(),
{
    reveal(Seq::filter);
    if all.len() > 0 {
        lemma_without_filters(all.drop_last(), key, others);
    } else {
        assert(without(all, key) =~= all);
    }
}

/// Each event moves the live timers in its own way: a start puts its timer behind the
/// others, unless it is live; a fire or a cancellation, for whatever cause, takes its timer
/// out and leaves the others in their order; and every other event changes nothing.
pub proof fn each_event_moves_the_live_timers_in_its_own_way(events: Seq<Event>, event: Event)
    ensures
        live_timers(Seq::<Event>::empty()) == Seq::<TimerKey>::empty(),
        ({
            let before = live_timers(events);
            let after = live_timers(events.push(event));
            match event {
                Event::TimerStarted { timer_id, .. } => if before.contains(timer_id@) {
                    after == before
                } else {
                    after == before.push(timer_id@)
                },
                Event::TimerFired { timer_id, .. } => after == before.filter(
                    |key: TimerKey| key != timer_id@,
                ),
                Event::TimerCancelled { timer_id, .. } => after == before.filter(
                    |key: TimerKey| key != timer_id@,
                ),
                _ => after == before,
            }
        }),
{
    let longer = events.push(event);
    assert(longer.drop_last() =~= events);
    assert(longer.last() == event);
    match event {
        Event::TimerFired { timer_id, .. } => {
            let others = |key: TimerKey| key != timer_id@;
            lemma_without_filters(live_timers(events), timer_id@, others);
        },
        Event::TimerCancelled { timer_id, .. } => {
            let others = |key: TimerKey| key != timer_id@;
            lemma_without_filters(live_timers(events), timer_id@, others);
        },
        _ => {},
    }
}

/// A timer is live from its start to its next fire or cancellation.
pub proof fn a_timer_is_live_until_it_fires_or_is_cancelled(
    events: Seq<Event>,
    event: Event,
    key: TimerKey,
)
    ensures
        !timer_live(Seq::<Event>::empty(), key),
        event matches Event::TimerStarted { timer_id, .. } && timer_id@ == key ==> timer_live(
            events.push(event),
            key,
        ),
        event matches Event::TimerFired { timer_id, .. } && timer_id@ == key ==> !timer_live(
            events.push(event),
            key,
        ),
        event matches Event::TimerCancelled { timer_id, .. } && timer_id@ == key ==> !timer_live(
            events.push(event),
            key,
        ),
        !(event matches Event::TimerStarted { timer_id, .. } && timer_id@ == key) && !(event
            matches Event::TimerFired { timer_id, .. } && timer_id@ == key) && !(event matches
            Event::TimerCancelled { timer_id, .. } && timer_id@ == key) ==> timer_live(
            events.push(event),
            key,
        ) == timer_live(events, key),
{
    assert(events.push(event).drop_last() =~= events);
    lemma_timer_live_step(events.push(event), key);
}

/// A run's deadline is carried by the timer that is named after the run, and is outstanding
/// as long as that timer is live.
pub proof fn a_deadline_is_outstanding_while_its_timer_is_live(events: Seq<Event>, run: RunId)
    ensures
        deadline_outstanding(events, run) <==> timer_live(
            events,
            TimerKey::Named("deadline:"@ + uuid_text(run.value)),
        ),
{
}

} // verus!
