//! Projections of durable histories: run segments, terminal events and status.

use vstd::prelude::*;
use vstd::slice::slice_subrange;

use crate::event::{clone_optional_text, ended, envelope_of, Event, TerminalOutcome, WorkflowStatus};
use crate::ids::RunId;

verus! {

/// The first position whose event has a property, or the length where none has.
pub open spec fn first_where(events: Seq<Event>, property: spec_fn(Event) -> bool) -> int
    decreases events.len(),
{
    if events.len() == 0 || property(events[0]) {
        0
    } else {
        1 + first_where(events.skip(1), property)
    }
}

/// The last position whose event has a property, or -1 where none has.
pub open spec fn last_where(events: Seq<Event>, property: spec_fn(Event) -> bool) -> int
    decreases events.len(),
{
    if events.len() == 0 {
        -1
    } else if property(events.last()) {
        events.len() - 1
    } else {
        last_where(events.drop_last(), property)
    }
}

/// The event begins a run.
pub open spec fn begins_run(event: Event) -> bool {
    event is WorkflowStarted
}

/// The event begins the given run.
pub open spec fn begins(event: Event, run: RunId) -> bool {
    event matches Event::WorkflowStarted { run_id, .. } && run_id == run
}

/// The event ends a run.
pub open spec fn ends_run(event: Event) -> bool {
    ||| event is WorkflowCompleted
    ||| event is WorkflowFailed
    ||| event is WorkflowCancelled
    ||| event is WorkflowTimedOut
    ||| event is WorkflowContinuedAsNew
}

/// The event opens a lease: it begins a run or opens a terminal one again.
pub open spec fn opens_lease(event: Event) -> bool {
    event is WorkflowStarted || event is WorkflowReopened
}

/// The events of one run: from its start to the start of the next run, and none
/// where the run never started.
pub open spec fn segment_of(events: Seq<Event>, run: RunId) -> Seq<Event> {
    let start = first_where(events, |event: Event| begins(event, run));
    if start == events.len() {
        Seq::empty()
    } else {
        let length = 1 + first_where(events.skip(start + 1), |event: Event| begins_run(event));
        events.subrange(start, start + length)
    }
}

/// The events after the most recent start, or all of them where there is none.
pub open spec fn active_segment(events: Seq<Event>) -> Seq<Event> {
    events.skip(last_where(events, |event: Event| begins_run(event)) + 1)
}

/// The terminal event of the current lease: the most recent event that opens a
/// lease or ends a run, where it ends one.
pub open spec fn lease_terminal(events: Seq<Event>) -> Option<Event> {
    let mark = last_where(events, |event: Event| opens_lease(event) || ends_run(event));
    if mark >= 0 && ends_run(events[mark]) {
        Some(events[mark])
    } else {
        None
    }
}

/// The status that a terminal event projects.
pub open spec fn terminal_status(event: Event) -> WorkflowStatus {
    match event {
        Event::WorkflowCompleted { .. } => WorkflowStatus::Completed,
        Event::WorkflowFailed { .. } => WorkflowStatus::Failed,
        Event::WorkflowCancelled { .. } => WorkflowStatus::Cancelled,
        Event::WorkflowTimedOut { .. } => WorkflowStatus::TimedOut,
        Event::WorkflowContinuedAsNew { .. } => WorkflowStatus::ContinuedAsNew,
        _ => WorkflowStatus::Running,
    }
}

/// The dispatch hold is in place: the most recent event that opens a lease,
/// pauses or resumes is a pause.
pub open spec fn on_hold(events: Seq<Event>) -> bool {
    let mark = last_where(
        events,
        |event: Event| opens_lease(event) || event is WorkflowPaused || event is WorkflowResumed,
    );
    mark >= 0 && events[mark] is WorkflowPaused
}

/// The status that a history projects.
pub open spec fn status_of(events: Seq<Event>) -> WorkflowStatus {
    match lease_terminal(events) {
        Some(event) => terminal_status(event),
        None => if on_hold(events) {
            WorkflowStatus::Paused
        } else {
            WorkflowStatus::Running
        },
    }
}

/// How the run that a terminal event ends has ended.
pub open spec fn outcome_of(event: Event) -> Option<TerminalOutcome> {
    match event {
        Event::WorkflowCompleted { result, .. } => Some(TerminalOutcome::Completed(result)),
        Event::WorkflowFailed { error, .. } => Some(TerminalOutcome::Failed(error)),
        Event::WorkflowCancelled { reason, .. } => Some(TerminalOutcome::Cancelled(reason)),
        Event::WorkflowTimedOut { timeout, .. } => Some(TerminalOutcome::TimedOut(timeout)),
        Event::WorkflowContinuedAsNew { input, workflow_type, parent_run_id, .. } => Some(
            TerminalOutcome::ContinuedAsNew { input, workflow_type, parent_run_id },
        ),
        _ => None,
    }
}

/// How a run has ended according to a history, if it has. A continuation that
/// names another run is not this run's end.
pub open spec fn run_outcome(events: Seq<Event>, run: RunId) -> Option<TerminalOutcome> {
    match lease_terminal(segment_of(events, run)) {
        Some(Event::WorkflowContinuedAsNew { parent_run_id, .. }) if parent_run_id != run => None,
        Some(event) => outcome_of(event),
        None => None,
    }
}

/// The run has started according to a history.
pub open spec fn run_started(events: Seq<Event>, run: RunId) -> bool {
    exists|i: int| 0 <= i < events.len() && begins(#[trigger] events[i], run)
}

/// A run that continues the given one has started.
pub open spec fn successor_started_in(events: Seq<Event>, run: RunId) -> bool {
    exists|i: int| 0 <= i < events.len() && continues(#[trigger] events[i], run)
}

/// The event begins a run that continues the given one.
pub open spec fn continues(event: Event, run: RunId) -> bool {
    event matches Event::WorkflowStarted { parent_run_id, .. } && parent_run_id == Some(run)
}

/// Where the first position with a property lies.
pub proof fn lemma_first_where(events: Seq<Event>, property: spec_fn(Event) -> bool)
    ensures
        0 <= first_where(events, property) <= events.len(),
        first_where(events, property) < events.len() ==> property(
            events[first_where(events, property)],
        ),
        forall|j: int|
            0 <= j < first_where(events, property) ==> !property(#[trigger] events[j]),
    decreases events.len(),
{
    if events.len() > 0 && !property(events[0]) {
        let rest = events.skip(1);
        lemma_first_where(rest, property);
        assert forall|j: int| 0 <= j < first_where(events, property) implies !property(
            #[trigger] events[j],
        ) by {
            if j > 0 {
                assert(events[j] == rest[j - 1]);
            }
        }
    }
}

/// A position with a property before which none has it is the first.
pub proof fn lemma_first_where_is(
    events: Seq<Event>,
    property: spec_fn(Event) -> bool,
    position: int,
)
    requires
        0 <= position <= events.len(),
        position < events.len() ==> property(events[position]),
        forall|j: int| 0 <= j < position ==> !property(#[trigger] events[j]),
    ensures
        first_where(events, property) == position,
{
    lemma_first_where(events, property);
    let found = first_where(events, property);
    if found < position {
        assert(!property(events[found]));
    }
}

/// Where the last position with a property lies.
pub proof fn lemma_last_where(events: Seq<Event>, property: spec_fn(Event) -> bool)
    ensures
        -1 <= last_where(events, property) < events.len(),
        last_where(events, property) >= 0 ==> property(events[last_where(events, property)]),
        forall|j: int|
            last_where(events, property) < j < events.len() ==> !property(#[trigger] events[j]),
    decreases events.len(),
{
    if events.len() > 0 && !property(events.last()) {
        let rest = events.drop_last();
        lemma_last_where(rest, property);
        assert forall|j: int| last_where(events, property) < j < events.len() implies !property(
            #[trigger] events[j],
        ) by {
            if j < events.len() - 1 {
                assert(events[j] == rest[j]);
            }
        }
    }
}

/// A position with a property after which none has it is the last.
pub proof fn lemma_last_where_is(
    events: Seq<Event>,
    property: spec_fn(Event) -> bool,
    position: int,
)
    requires
        -1 <= position < events.len(),
        position >= 0 ==> property(events[position]),
        forall|j: int| position < j < events.len() ==> !property(#[trigger] events[j]),
    ensures
        last_where(events, property) == position,
{
    lemma_last_where(events, property);
    let found = last_where(events, property);
    if found > position {
        assert(!property(events[found]));
    }
}

/// Whether an event ends a run.
pub fn is_terminal_event(event: &Event) -> (terminal: bool)
    ensures
        terminal == ends_run(*event),
{
    match event {
        Event::WorkflowCompleted { .. }
        | Event::WorkflowFailed { .. }
        | Event::WorkflowCancelled { .. }
        | Event::WorkflowTimedOut { .. }
        | Event::WorkflowContinuedAsNew { .. } => true,
        _ => false,
    }
}

/// Whether an event begins the given run.
pub fn starts_run(event: &Event, run: &RunId) -> (starts: bool)
    ensures
        starts == begins(*event, *run),
{
    match event {
        Event::WorkflowStarted { run_id, .. } => *run_id == *run,
        _ => false,
    }
}

/// The events of one run.
pub fn run_segment<'a>(events: &'a [Event], run: &RunId) -> (segment: &'a [Event])
    ensures
        segment@ == segment_of(events@, *run),
{
    let ghost begins_this = |event: Event| begins(event, *run);
    let ghost begins_any = |event: Event| begins_run(event);
    let mut start: usize = 0;
    while start < events.len() && !starts_run(&events[start], run)
        invariant
            0 <= start <= events@.len(),
            forall|j: int| 0 <= j < start ==> !begins(#[trigger] events@[j], *run),
        decreases events.len() - start,
    {
        start = start + 1;
    }
    proof {
        lemma_first_where_is(events@, begins_this, start as int);
    }
    if start == events.len() {
        let empty = slice_subrange(events, 0, 0);
        assert(empty@ =~= Seq::<Event>::empty());
        return empty;
    }
    let ghost rest = events@.skip(start + 1);
    let mut end: usize = start + 1;
    while end < events.len() && !matches!(&events[end], Event::WorkflowStarted { .. })
        invariant
            start < end <= events@.len(),
            rest == events@.skip(start + 1),
            forall|j: int| 0 <= j < end - start - 1 ==> !begins_run(#[trigger] rest[j]),
        decreases events.len() - end,
    {
        assert(rest[end - start - 1] == events@[end as int]);
        end = end + 1;
    }
    proof {
        if end < events@.len() {
            assert(rest[end - start - 1] == events@[end as int]);
        }
        lemma_first_where_is(rest, begins_any, end - start - 1);
    }
    slice_subrange(events, start, end)
}

/// The terminal event of the current lease.
///
/// A reopen, or the start of a later run, supersedes an earlier terminal event.
pub fn current_lease_terminal(events: &[Event]) -> (terminal: Option<&Event>)
    ensures
        match terminal {
            Some(event) => lease_terminal(events@) == Some(*event),
            None => lease_terminal(events@) is None,
        },
{
    let ghost marks = |event: Event| opens_lease(event) || ends_run(event);
    let mut i: usize = events.len();
    while i > 0
        invariant
            0 <= i <= events@.len(),
            marks == (|event: Event| opens_lease(event) || ends_run(event)),
            forall|j: int| i <= j < events@.len() ==> !marks(#[trigger] events@[j]),
        decreases i,
    {
        i = i - 1;
        match &events[i] {
            Event::WorkflowStarted { .. } | Event::WorkflowReopened { .. } => {
                proof {
                    lemma_last_where_is(events@, marks, i as int);
                }
                return None;
            },
            event => {
                if is_terminal_event(event) {
                    proof {
                        lemma_last_where_is(events@, marks, i as int);
                    }
                    return Some(event);
                }
            },
        }
    }
    proof {
        lemma_last_where_is(events@, marks, -1);
    }
    None
}

/// Whether the dispatch hold is in place.
fn is_on_hold(events: &[Event]) -> (hold: bool)
    ensures
        hold == on_hold(events@),
{
    let ghost marks = |event: Event|
        opens_lease(event) || event is WorkflowPaused || event is WorkflowResumed;
    let mut i: usize = events.len();
    while i > 0
        invariant
            0 <= i <= events@.len(),
            marks == (|event: Event|
                opens_lease(event) || event is WorkflowPaused || event is WorkflowResumed),
            forall|j: int| i <= j < events@.len() ==> !marks(#[trigger] events@[j]),
        decreases i,
    {
        i = i - 1;
        match &events[i] {
            Event::WorkflowStarted { .. }
            | Event::WorkflowReopened { .. }
            | Event::WorkflowResumed { .. } => {
                proof {
                    lemma_last_where_is(events@, marks, i as int);
                }
                return false;
            },
            Event::WorkflowPaused { .. } => {
                proof {
                    lemma_last_where_is(events@, marks, i as int);
                }
                return true;
            },
            _ => {},
        }
    }
    proof {
        lemma_last_where_is(events@, marks, -1);
    }
    false
}

/// The status that a history projects.
pub fn status_from_events(events: &[Event]) -> (status: WorkflowStatus)
    ensures
        status == status_of(events@),
{
    match current_lease_terminal(events) {
        Some(Event::WorkflowCompleted { .. }) => WorkflowStatus::Completed,
        Some(Event::WorkflowFailed { .. }) => WorkflowStatus::Failed,
        Some(Event::WorkflowCancelled { .. }) => WorkflowStatus::Cancelled,
        Some(Event::WorkflowTimedOut { .. }) => WorkflowStatus::TimedOut,
        Some(Event::WorkflowContinuedAsNew { .. }) => WorkflowStatus::ContinuedAsNew,
        Some(_) => WorkflowStatus::Running,
        None => {
            if is_on_hold(events) {
                WorkflowStatus::Paused
            } else {
                WorkflowStatus::Running
            }
        },
    }
}

/// How the run that a terminal event ends has ended.
pub fn terminal_outcome(event: &Event) -> (outcome: Option<TerminalOutcome>)
    ensures
        outcome == outcome_of(*event),
{
    match event {
        Event::WorkflowCompleted { result, .. } => Some(TerminalOutcome::Completed(result.clone())),
        Event::WorkflowFailed { error, .. } => Some(TerminalOutcome::Failed(error.clone())),
        Event::WorkflowCancelled { reason, .. } => Some(TerminalOutcome::Cancelled(reason.clone())),
        Event::WorkflowTimedOut { timeout, .. } => Some(TerminalOutcome::TimedOut(timeout.clone())),
        Event::WorkflowContinuedAsNew { input, workflow_type, parent_run_id, .. } => {
            Some(
                TerminalOutcome::ContinuedAsNew {
                    input: input.clone(),
                    workflow_type: clone_optional_text(workflow_type),
                    parent_run_id: *parent_run_id,
                },
            )
        },
        _ => None,
    }
}

/// Whether a run has started according to a history.
pub fn has_started(events: &[Event], run: &RunId) -> (started: bool)
    ensures
        started == run_started(events@, *run),
{
    let mut i: usize = 0;
    while i < events.len()
        invariant
            0 <= i <= events@.len(),
            forall|j: int| 0 <= j < i ==> !begins(#[trigger] events@[j], *run),
        decreases events.len() - i,
    {
        if starts_run(&events[i], run) {
            return true;
        }
        i = i + 1;
    }
    false
}

/// Whether a run that continues the given one has started.
pub fn successor_started(events: &[Event], run: &RunId) -> (started: bool)
    ensures
        started == successor_started_in(events@, *run),
{
    let mut i: usize = 0;
    while i < events.len()
        invariant
            0 <= i <= events@.len(),
            forall|j: int| 0 <= j < i ==> !continues(#[trigger] events@[j], *run),
        decreases events.len() - i,
    {
        match &events[i] {
            Event::WorkflowStarted { parent_run_id: Some(existing), .. } => {
                if *existing == *run {
                    assert(continues(events@[i as int], *run));
                    return true;
                }
            },
            _ => {},
        }
        i = i + 1;
    }
    false
}

/// The sequence number at the head of a history: the greatest recorded one, or
/// zero for an empty history.
pub open spec fn head_of(events: Seq<Event>) -> int
    decreases events.len(),
{
    if events.len() == 0 {
        0
    } else {
        let before = head_of(events.drop_last());
        let seq = envelope_of(events.last()).seq as int;
        if seq > before {
            seq
        } else {
            before
        }
    }
}

/// The greatest sequence number of a history.
pub fn history_head(events: &[Event]) -> (head: u64)
    ensures
        head == head_of(events@),
{
    let mut head: u64 = 0;
    let mut i: usize = 0;
    while i < events.len()
        invariant
            0 <= i <= events@.len(),
            head == head_of(events@.take(i as int)),
        decreases events.len() - i,
    {
        let seq: u64 = events[i].envelope().seq;
        proof {
            assert(events@.take(i + 1).drop_last() =~= events@.take(i as int));
        }
        if seq > head {
            head = seq;
        }
        i = i + 1;
    }
    proof {
        assert(events@.take(i as int) =~= events@);
    }
    head
}

/// The sequence number of the last event, or zero for an empty history.
pub fn last_sequence(events: &[Event]) -> (seq: u64)
    ensures
        events@.len() == 0 ==> seq == 0,
        events@.len() > 0 ==> seq == envelope_of(events@.last()).seq,
{
    if events.len() == 0 {
        0
    } else {
        events[events.len() - 1].envelope().seq
    }
}

/// A run that a history shows as ended has the status that its end projects, and
/// a status is terminal exactly where the current lease has a terminal event.
pub proof fn status_is_terminal_exactly_when_the_lease_ended(events: Seq<Event>)
    ensures
        ended(status_of(events)) <==> lease_terminal(events) is Some,
        lease_terminal(events) matches Some(event) ==> status_of(events) == terminal_status(event),
{
}

/// Recording a reopen, or the start of a run, leaves the history without a
/// terminal event and projects it as running.
pub proof fn opening_a_lease_supersedes_the_terminal(events: Seq<Event>, event: Event)
    requires
        opens_lease(event),
    ensures
        lease_terminal(events.push(event)) is None,
        status_of(events.push(event)) == WorkflowStatus::Running,
{
    let longer = events.push(event);
    let marks = |event: Event| opens_lease(event) || ends_run(event);
    let holds = |event: Event|
        opens_lease(event) || event is WorkflowPaused || event is WorkflowResumed;
    lemma_last_where_is(longer, marks, events.len() as int);
    lemma_last_where_is(longer, holds, events.len() as int);
}

/// Recording a terminal event makes it the terminal of the current lease.
pub proof fn recording_a_terminal_ends_the_lease(events: Seq<Event>, event: Event)
    requires
        ends_run(event),
    ensures
        lease_terminal(events.push(event)) == Some(event),
        status_of(events.push(event)) == terminal_status(event),
{
    let longer = events.push(event);
    let marks = |event: Event| opens_lease(event) || ends_run(event);
    lemma_last_where_is(longer, marks, events.len() as int);
}

/// An event that neither opens a lease nor ends a run leaves the terminal event
/// of the current lease as it was.
pub proof fn other_events_keep_the_terminal(events: Seq<Event>, event: Event)
    requires
        !opens_lease(event),
        !ends_run(event),
    ensures
        lease_terminal(events.push(event)) == lease_terminal(events),
{
    let longer = events.push(event);
    let marks = |event: Event| opens_lease(event) || ends_run(event);
    lemma_last_where(events, marks);
    assert forall|j: int| last_where(events, marks) < j < longer.len() implies !marks(
        #[trigger] longer[j],
    ) by {
        if j < events.len() {
            assert(longer[j] == events[j]);
        }
    }
    lemma_last_where_is(longer, marks, last_where(events, marks));
}

/// The run is the last one of its history.
pub open spec fn latest_run(history: Seq<Event>, run: RunId) -> bool {
    let start = first_where(history, |event: Event| begins(event, run));
    &&& start < history.len()
    &&& forall|i: int| start < i < history.len() ==> !begins_run(#[trigger] history[i])
}

/// An event that begins no run lengthens the segment of the latest one.
pub proof fn lemma_latest_segment(history: Seq<Event>, event: Event, run: RunId)
    requires
        latest_run(history, run),
        !begins_run(event),
    ensures
        segment_of(history.push(event), run) == segment_of(history, run).push(event),
{
    let begins_it = |event: Event| begins(event, run);
    let begins_any = |event: Event| begins_run(event);
    let longer = history.push(event);
    let start = first_where(history, begins_it);
    lemma_first_where(history, begins_it);
    assert forall|j: int| 0 <= j < start implies !begins_it(#[trigger] longer[j]) by {
        assert(longer[j] == history[j]);
        assert(!begins_it(history[j]));
    }
    assert(longer[start] == history[start]);
    lemma_first_where_is(longer, begins_it, start);
    let rest = history.skip(start + 1);
    let longer_rest = longer.skip(start + 1);
    assert forall|j: int| 0 <= j < rest.len() implies !begins_any(#[trigger] rest[j]) by {
        assert(rest[j] == history[start + 1 + j]);
    }
    lemma_first_where_is(rest, begins_any, rest.len() as int);
    assert forall|j: int| 0 <= j < longer_rest.len() implies !begins_any(
        #[trigger] longer_rest[j],
    ) by {
        assert(longer_rest[j] == longer[start + 1 + j]);
        if start + 1 + j < history.len() {
            assert(longer[start + 1 + j] == history[start + 1 + j]);
        }
    }
    lemma_first_where_is(longer_rest, begins_any, longer_rest.len() as int);
    assert(segment_of(longer, run) =~= segment_of(history, run).push(event));
}

} // verus!
