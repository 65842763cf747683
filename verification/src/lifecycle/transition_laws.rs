//! What ends, continues, holds and resumes a run, step by step.

use vstd::prelude::*;

use crate::error::EngineError;
use crate::error_laws::names_missing_run;
use crate::event::{Event, TerminalOutcome, WorkflowStatus};
use crate::history::{run_outcome, segment_of};
use crate::ids::{deadline_key, ActivityId, RunId, TimerKey, WorkflowId};
use crate::lifecycle::completion::{
    continuation_type, exit_outcome, ExitDecision, ExitPhase, ExitRun, WorkflowProcessOutcome,
};
use crate::lifecycle::continue_as_new::{
    activity_pending, activity_texts, admits_continuation, child_pending, lists_pending_activities,
    lists_pending_children, may_continue, pending_work_text, workflow_texts, ContinueAsNewRequest,
    ContinuePhase,
};
use crate::lifecycle::deadline::{
    teardown_order, verdict_on, DeadlinePhase, DeadlineReply, DeadlineRun, DeadlineVerdict,
};
use crate::lifecycle::pause::HoldPhase;
use crate::lifecycle::terminate::{begins_transition, TerminatePhase, TerminateRun};
use crate::lifecycle::transition::residency_replaced;
use crate::loader::catalog::CatalogView;
use crate::registry::{has_live_run, key_of, Residency, RunKey, WorkflowHandle};
use crate::text::{decimal, joined};
use crate::time::{
    deadline_outstanding, keys, lemma_without, live_timers, live_timers_are_started_and_not_ended,
};

verus! {

/// A process exit records what the process ended with: its own result or its own error, and
/// a failure that says so where the monitor itself failed.
pub proof fn an_exit_records_what_the_process_ended_with(
    exit: Result<WorkflowProcessOutcome, EngineError>,
    outcome: TerminalOutcome,
)
    requires
        exit_outcome(exit, outcome),
    ensures
        (exit matches Ok(WorkflowProcessOutcome::Completed(result)) ==> outcome
            == TerminalOutcome::Completed(result)),
        (exit matches Ok(WorkflowProcessOutcome::Failed(error)) ==> outcome
            == TerminalOutcome::Failed(error)),
        (exit matches Err(error) ==> (outcome matches TerminalOutcome::Failed(failure)
            && failure.message@ == "workflow process monitor failed: "@ + error.describes()
            && failure.details is None)),
{
}

/// An exit announces the outcome that it recorded, or the one that was there before, and
/// nothing else. The run that continues another is started exactly where that one had
/// continued as new before the exit, from what was recorded then. A failing step ends the
/// exit with its own error, except for the announcement, which cannot fail it.
pub proof fn an_exit_announces_what_is_durable(decision: ExitDecision)
    ensures
        ({
            let run = ExitRun::begun(decision);
            &&& (decision matches ExitDecision::Record(outcome) ==> {
                &&& run.phase == ExitPhase::Record(outcome)
                &&& !run.durable
                &&& run.after(Ok(())).phase == ExitPhase::Notify(outcome)
                &&& run.after(Ok(())).durable
                &&& forall|announced: Result<(), EngineError>|
                    #![auto]
                    run.after(Ok(())).after(announced).phase is UpsertVisibility && run.after(
                        Ok(()),
                    ).after(announced).notified
                &&& run.after(Ok(())).after(Ok(())).after(Ok(())).phase is Reconcile
                &&& run.after(Ok(())).after(Ok(())).after(Ok(())).after(Ok(())).phase is Handled
            })
            &&& (decision matches ExitDecision::Existing(outcome) ==> {
                &&& run.phase == ExitPhase::Notify(outcome)
                &&& run.durable
                &&& forall|announced: Result<(), EngineError>|
                    #![auto]
                    run.after(announced).phase is Reconcile && run.after(announced).notified
                &&& (outcome matches TerminalOutcome::ContinuedAsNew {
                    input,
                    workflow_type,
                    parent_run_id,
                } ==> run.after(Ok(())).after(Ok(())).phase == (ExitPhase::StartReplacement {
                    input,
                    workflow_type,
                    parent_run_id,
                }))
                &&& !(outcome is ContinuedAsNew) ==> run.after(Ok(())).after(Ok(())).phase
                    is Handled
            })
        }),
{
}

/// A failing step ends an exit with its own error, and an exit that is over stays so.
pub proof fn a_failing_step_ends_an_exit(run: ExitRun, reply: Result<(), EngineError>)
    ensures
        (reply matches Err(error) ==> (run.phase is Record || run.phase is UpsertVisibility
            || run.phase is Reconcile || run.phase is StartReplacement ==> run.after(reply).phase
            == ExitPhase::Failed(error))),
        run.phase is Handled || run.phase is Failed ==> run.after(reply) == run,
        run.phase is StartReplacement && reply is Ok ==> run.after(reply).phase is Handled,
        run.after(reply).follow_up == run.follow_up,
        run.after(reply).durable <==> run.durable || (run.phase is Record && reply is Ok),
        run.after(reply).notified <==> run.notified || run.phase is Notify,
{
}

/// A run that continues another has the type that was asked for, and that of the other one
/// where none was.
pub proof fn a_continuation_keeps_its_type_unless_asked(
    asked: Option<String>,
    handle: WorkflowHandle,
)
    ensures
        (asked matches Some(workflow_type) ==> continuation_type(asked, handle) == workflow_type@),
        asked is None ==> continuation_type(asked, handle) == handle.workflow_type@,
{
}

/// An activity is pending from its scheduling or its start until it completes, fails or is
/// cancelled, and no other event changes that.
pub proof fn an_activity_is_pending_until_it_is_settled(
    events: Seq<Event>,
    event: Event,
    id: ActivityId,
)
    ensures
        !activity_pending(Seq::<Event>::empty(), id),
        ({
            let opens = (event matches Event::ActivityScheduled { activity_id, .. } && activity_id
                == id) || (event matches Event::ActivityStarted { activity_id, .. } && activity_id
                == id);
            let settles = (event matches Event::ActivityCompleted { activity_id, .. }
                && activity_id == id) || (event matches Event::ActivityFailed { activity_id, .. }
                && activity_id == id) || (event matches Event::ActivityCancelled {
                activity_id,
                ..
            } && activity_id == id);
            activity_pending(events.push(event), id) == (opens || (activity_pending(events, id)
                && !settles))
        }),
{
    let longer = events.push(event);
    let last = events.len() as int;
    assert(longer[last] == event);
    if crate::lifecycle::continue_as_new::opens_activity(event, id) {
        assert(crate::lifecycle::continue_as_new::opens_activity(longer[last], id));
    } else {
        if activity_pending(events, id) && !crate::lifecycle::continue_as_new::settles_activity(
            event,
            id,
        ) {
            let i = choose|i: int|
                0 <= i < events.len() && crate::lifecycle::continue_as_new::opens_activity(
                    #[trigger] events[i],
                    id,
                ) && (forall|j: int|
                    i < j < events.len()
                        ==> !crate::lifecycle::continue_as_new::settles_activity(
                        #[trigger] events[j],
                        id,
                    ));
            assert(longer[i] == events[i]);
            assert forall|j: int| i < j < longer.len() implies
                !crate::lifecycle::continue_as_new::settles_activity(#[trigger] longer[j], id) by {
                if j < last {
                    assert(longer[j] == events[j]);
                }
            }
        }
        if activity_pending(longer, id) {
            let i = choose|i: int|
                0 <= i < longer.len() && crate::lifecycle::continue_as_new::opens_activity(
                    #[trigger] longer[i],
                    id,
                ) && (forall|j: int|
                    i < j < longer.len()
                        ==> !crate::lifecycle::continue_as_new::settles_activity(
                        #[trigger] longer[j],
                        id,
                    ));
            assert(i < last);
            assert(events[i] == longer[i]);
            assert(!crate::lifecycle::continue_as_new::settles_activity(longer[last], id));
            assert forall|j: int| i < j < events.len() implies
                !crate::lifecycle::continue_as_new::settles_activity(#[trigger] events[j], id) by {
                assert(longer[j] == events[j]);
            }
        }
    }
}

/// A child is pending from its recording until its completion, failure or cancellation is
/// reported, and no other event changes that.
pub proof fn a_child_is_pending_until_its_end_is_reported(
    events: Seq<Event>,
    event: Event,
    id: WorkflowId,
)
    ensures
        !child_pending(Seq::<Event>::empty(), id),
        ({
            let opens = event matches Event::ChildWorkflowStarted { child_workflow_id, .. }
                && child_workflow_id == id;
            let settles = (event matches Event::ChildWorkflowCompleted { child_workflow_id, .. }
                && child_workflow_id == id) || (event matches Event::ChildWorkflowFailed {
                child_workflow_id,
                ..
            } && child_workflow_id == id) || (event matches Event::ChildWorkflowCancelled {
                child_workflow_id,
                ..
            } && child_workflow_id == id);
            child_pending(events.push(event), id) == (opens || (child_pending(events, id)
                && !settles))
        }),
{
    let longer = events.push(event);
    let last = events.len() as int;
    assert(longer[last] == event);
    if crate::lifecycle::continue_as_new::opens_child(event, id) {
        assert(crate::lifecycle::continue_as_new::opens_child(longer[last], id));
    } else {
        if child_pending(events, id) && !crate::lifecycle::continue_as_new::settles_child(
            event,
            id,
        ) {
            let i = choose|i: int|
                0 <= i < events.len() && crate::lifecycle::continue_as_new::opens_child(
                    #[trigger] events[i],
                    id,
                ) && (forall|j: int|
                    i < j < events.len() ==> !crate::lifecycle::continue_as_new::settles_child(
                        #[trigger] events[j],
                        id,
                    ));
            assert(longer[i] == events[i]);
            assert forall|j: int| i < j < longer.len() implies
                !crate::lifecycle::continue_as_new::settles_child(#[trigger] longer[j], id) by {
                if j < last {
                    assert(longer[j] == events[j]);
                }
            }
        }
        if child_pending(longer, id) {
            let i = choose|i: int|
                0 <= i < longer.len() && crate::lifecycle::continue_as_new::opens_child(
                    #[trigger] longer[i],
                    id,
                ) && (forall|j: int|
                    i < j < longer.len() ==> !crate::lifecycle::continue_as_new::settles_child(
                        #[trigger] longer[j],
                        id,
                    ));
            assert(i < last);
            assert(events[i] == longer[i]);
            assert(!crate::lifecycle::continue_as_new::settles_child(longer[last], id));
            assert forall|j: int| i < j < events.len() implies
                !crate::lifecycle::continue_as_new::settles_child(#[trigger] events[j], id) by {
                assert(longer[j] == events[j]);
            }
        }
    }
}

/// A continuation is recorded only for a run that has not ended and that leaves nothing
/// pending: one activity or one child that is not settled keeps it from continuing.
pub proof fn nothing_pending_is_left_behind(
    events: Seq<Event>,
    run: RunId,
    activity: ActivityId,
    child: WorkflowId,
)
    ensures
        run_outcome(events, run) is Some ==> !may_continue(events, run),
        activity_pending(events, activity) ==> !may_continue(events, run),
        child_pending(events, child) ==> !may_continue(events, run),
        run_outcome(events, run) is None && (forall|id: ActivityId|
            !#[trigger] activity_pending(events, id)) && (forall|id: WorkflowId|
            !#[trigger] child_pending(events, id)) ==> may_continue(events, run),
{
}

/// A continuation is admitted exactly for a registered run that asks for its own type, or
/// for none, while the version that it executes on is loaded. A run that is not registered
/// and a version that is not loaded are not found, and another type is a runtime error.
pub proof fn a_continuation_stays_with_its_type_and_version(
    handle: Option<WorkflowHandle>,
    catalog: CatalogView,
    id: WorkflowId,
    run: RunId,
    request: ContinueAsNewRequest,
    result: Result<(), EngineError>,
)
    requires
        admits_continuation(handle, catalog, id, run, request, result),
    ensures
        result is Ok <==> (handle matches Some(live) && (request.workflow_type matches Some(asked)
            ==> asked@ == live.workflow_type@) && catalog.by_version.contains_key(
            (live.workflow_type@, live.loaded_version),
        )),
        handle is None ==> (result matches Err(error) && names_missing_run(error, id, run)),
        (handle matches Some(live) ==> (request.workflow_type matches Some(asked) ==> (asked@
            != live.workflow_type@ ==> (result matches Err(error) && error is Runtime)))),
        (handle matches Some(live) ==> ((request.workflow_type matches Some(asked) ==> asked@
            == live.workflow_type@) && !catalog.by_version.contains_key(
            (live.workflow_type@, live.loaded_version),
        ) ==> (result matches Err(EngineError::WorkflowNotFound { workflow_type })
            && workflow_type@ == live.workflow_type@))),
{
}

/// Each step of a continuation follows only on the success of the one before it, except
/// that an announcement cannot fail it; a failing step ends it with its own error.
pub proof fn a_continuation_takes_its_steps_in_order(
    phase: ContinuePhase,
    reply: Result<(), EngineError>,
)
    ensures
        ({
            let next = phase.after(reply);
            let moved = next != phase;
            &&& moved && next is StartReplacement ==> phase is Record && reply is Ok
            &&& moved && next is Notify ==> phase is StartReplacement && reply is Ok
            &&& moved && next is Deregister ==> phase is Notify
            &&& moved && next is Continued ==> phase is Deregister && reply is Ok
            &&& reply is Ok && !(phase is Continued) && !(phase is Failed) ==> moved && !(next
                is Failed)
            &&& (reply matches Err(error) ==> (phase is Record || phase is StartReplacement || phase
                is Deregister ==> next == ContinuePhase::Failed(error)))
            &&& phase is Notify ==> next is Deregister
            &&& phase is Continued || phase is Failed ==> !moved
        }),
{
}

/// A transition begins on the handle that is registered for exactly that run, with the
/// outcome and the first step that were asked for, and a run that is not registered is not
/// found.
pub proof fn a_transition_begins_on_the_registered_run(
    registry: Map<RunKey, WorkflowHandle>,
    id: WorkflowId,
    run: RunId,
    outcome: TerminalOutcome,
    phase: TerminatePhase,
    result: Result<TerminateRun, EngineError>,
)
    requires
        begins_transition(registry, id, run, outcome, phase, result),
    ensures
        result is Ok <==> registry.contains_key((RunKey { workflow_id: id, run_id: run })),
        (result matches Ok(transition) ==> transition.handle == registry[RunKey {
            workflow_id: id,
            run_id: run,
        }] && transition.outcome == outcome && transition.phase == phase),
        (result matches Err(error) ==> names_missing_run(error, id, run)),
{
}

/// A run ends by one record: a cancellation is made only of a run that has not ended, and
/// kills the process after the record and before the announcement; a completion or a
/// failure kills nothing. A failing step ends the transition with its own error, except
/// that an announcement cannot fail it.
pub proof fn a_run_is_ended_step_by_step(
    run: TerminateRun,
    history: Seq<Event>,
    reply: Result<(), EngineError>,
)
    ensures
        run.phase is Recheck ==> (run.rechecked(history) is Lost <==> run_outcome(
            history,
            run.handle.run_id,
        ) is Some) && (run.rechecked(history) is Record <==> run_outcome(
            history,
            run.handle.run_id,
        ) is None),
        !(run.phase is Recheck) ==> run.rechecked(history) == run.phase,
        ({
            let next = run.after(reply);
            let moved = next != run.phase;
            &&& moved && next is Kill ==> run.phase is Record && reply is Ok && run.outcome
                is Cancelled
            &&& moved && next is UpsertVisibility ==> run.phase is Kill && reply is Ok
            &&& moved && next is Notify ==> reply is Ok && (run.phase is UpsertVisibility || (
            run.phase is Record && !(run.outcome is Cancelled)))
            &&& moved && next is Deregister ==> run.phase is Notify
            &&& moved && next is Ended ==> run.phase is Deregister && reply is Ok
            &&& reply is Ok && (run.phase is Record || run.phase is Kill || run.phase
                is UpsertVisibility || run.phase is Notify || run.phase is Deregister) ==> moved
                && !(next is Failed)
            &&& (reply matches Err(error) ==> (run.phase is Recheck || run.phase is Record
                || run.phase is Kill || run.phase is UpsertVisibility || run.phase is Deregister
                ==> next == TerminatePhase::Failed(error)))
            &&& run.phase is Notify ==> next is Deregister
            &&& run.phase is Ended || run.phase is Lost || run.phase is Failed ==> !moved
            &&& !(next is Lost) || run.phase is Lost
        }),
{
}

/// An elapsed deadline times a run out only while the run is open and the deadline is
/// outstanding; a timeout that was recorded before has its teardown resumed; and any other
/// end, or a retired deadline, makes the deadline lose.
pub proof fn a_deadline_times_out_only_an_open_run(history: Seq<Event>, run: RunId)
    ensures
        verdict_on(history, run) == DeadlineVerdict::TimesOut <==> run_outcome(history, run) is None
            && deadline_outstanding(history, run),
        verdict_on(history, run) == DeadlineVerdict::ResumesTeardown <==> (run_outcome(
            history,
            run,
        ) matches Some(outcome) && outcome is TimedOut),
{
}

/// A teardown retires each live timer of the run once, in the order in which they became
/// live, except that the run's own deadline comes last.
pub proof fn a_teardown_keeps_the_order_of_the_timers(history: Seq<Event>, run: RunId)
    ensures
        teardown_order(history, run).no_duplicates(),
        ({
            let live = live_timers(segment_of(history, run));
            let others = live.filter(|key: TimerKey| key != deadline_key(run));
            teardown_order(history, run) == if live.contains(deadline_key(run)) {
                others.push(deadline_key(run))
            } else {
                live
            }
        }),
{
    let live = live_timers(segment_of(history, run));
    let deadline = deadline_key(run);
    let others = |key: TimerKey| key != deadline_key(run);
    live_timers_are_started_and_not_ended(segment_of(history, run));
    lemma_without(live, deadline);
    crate::time::lemma_without_filters(live, deadline, others);
    let rest = crate::time::without(live, deadline);
    assert(!rest.contains(deadline));
    assert(rest.push(deadline).no_duplicates());
}

/// Each step of a deadline follows only on the one before it. A failing kill or announcement
/// does not keep the run from being torn down; every other failure ends the attempt with
/// its own error, and a later fire resumes it.
pub proof fn a_deadline_takes_its_steps_in_order(
    run: DeadlineRun,
    reply: DeadlineReply,
    next: DeadlineRun,
)
    requires
        run.goes_to(reply, next),
        run.timers@.len() <= usize::MAX,
        run.fits(),
    ensures
        next.workflow_id == run.workflow_id,
        next.run_id == run.run_id,
        ({
            let moved = next.phase != run.phase;
            &&& moved && next.phase is Record ==> run.phase is Recheck && reply is History
            &&& moved && next.phase is Kill ==> (run.phase is Record && reply is Done) || (run.phase
                is Recheck && reply is History)
            &&& moved && next.phase is UpsertVisibility ==> run.phase is Kill
            &&& moved && next.phase is ListTimers ==> run.phase is UpsertVisibility && reply is Done
            &&& moved && next.phase is Notify ==> (run.phase is ListTimers && reply is History
                && next.timers@.len() == 0) || ((run.phase matches DeadlinePhase::RetireTimer {
                timer,
            } && timer + 1 == run.timers@.len()) && reply is Done)
            &&& moved && next.phase is Deregister ==> run.phase is Notify
            &&& moved && next.phase is TornDown ==> run.phase is Deregister && reply is Done
            &&& (next.phase matches DeadlinePhase::RetireTimer { timer } ==> (moved ==> {
                ||| run.phase is ListTimers && reply is History && timer == 0
                ||| (run.phase matches DeadlinePhase::RetireTimer { timer: before } && timer
                    == before + 1) && reply is Done
            }))
            &&& (reply matches DeadlineReply::Failed(error) ==> (run.phase is Recheck || run.phase
                is Record || run.phase is UpsertVisibility || run.phase is ListTimers || run.phase
                is RetireTimer || run.phase is Deregister ==> next.phase == DeadlinePhase::Failed(
                error,
            )))
            &&& (reply matches DeadlineReply::History(history) ==> (run.phase is Recheck ==> {
                let outcome = run_outcome(history@, run.run_id);
                let open = outcome is None && deadline_outstanding(history@, run.run_id);
                let timed_out = outcome matches Some(ended) && ended is TimedOut;
                &&& next.timers == run.timers
                &&& open ==> next.phase is Record
                &&& timed_out ==> next.phase is Kill
                &&& !open && !timed_out ==> next.phase is Lost
            }))
            &&& (reply matches DeadlineReply::History(history) ==> (run.phase is ListTimers ==> keys(
                next.timers@,
            ) == teardown_order(history@, run.run_id) && moved))
            &&& !(run.phase is ListTimers) ==> next.timers == run.timers
            &&& reply is Done && (run.phase is Record || run.phase is Kill || run.phase
                is UpsertVisibility || run.phase is RetireTimer || run.phase is Notify || run.phase
                is Deregister) ==> moved && !(next.phase is Failed) && !(next.phase is Lost)
            &&& reply is Failed && run.phase is Kill ==> next.phase is UpsertVisibility
            &&& reply is Failed && run.phase is Notify ==> next.phase is Deregister
            &&& run.phase is TornDown || run.phase is Lost || run.phase is Failed ==> !moved
        }),
{
}

/// A hold is set or released only after the event is recorded, and the event is recorded
/// only after the status was checked again; a hold that cannot be set does not undo what is
/// recorded.
pub proof fn a_hold_follows_its_record(phase: HoldPhase, reply: Result<(), EngineError>)
    ensures
        ({
            let next = phase.after(reply);
            let moved = next != phase;
            &&& moved && next is Record ==> phase is Recheck && reply is Ok
            &&& moved && next is SetHold ==> phase is Record && reply is Ok
            &&& moved && next is Made ==> phase is SetHold
            &&& phase is SetHold ==> next is Made
            &&& reply is Ok && (phase is Recheck || phase is Record) ==> moved && !(next is Failed)
            &&& (reply matches Err(error) ==> (phase is Recheck || phase is Record ==> next
                == HoldPhase::Failed(error)))
            &&& phase is Made || phase is Failed ==> !moved
        }),
{
}

/// Suspending or resuming a registered run changes its residency and nothing else of it, and
/// leaves every other run as it was; a run that is not registered is not found, and nothing
/// changes.
pub proof fn only_the_residency_of_one_run_changes(
    before: Map<RunKey, WorkflowHandle>,
    after: Map<RunKey, WorkflowHandle>,
    id: WorkflowId,
    run: RunId,
    residency: Residency,
    result: Result<WorkflowHandle, EngineError>,
    other: RunKey,
)
    requires
        residency_replaced(before, after, id, run, residency, result),
        other != (RunKey { workflow_id: id, run_id: run }),
    ensures
        ({
            let key = RunKey { workflow_id: id, run_id: run };
            &&& result is Ok <==> before.contains_key(key)
            &&& after.contains_key(other) == before.contains_key(other)
            &&& before.contains_key(other) ==> after[other] == before[other]
            &&& after.contains_key(key) == before.contains_key(key)
            &&& before.contains_key(key) ==> {
                &&& result == Ok::<WorkflowHandle, EngineError>(after[key])
                &&& after[key].residency == residency
                &&& after[key].workflow_id == before[key].workflow_id
                &&& after[key].run_id == before[key].run_id
                &&& after[key].pid == before[key].pid
                &&& after[key].workflow_type == before[key].workflow_type
                &&& after[key].namespace == before[key].namespace
                &&& after[key].loaded_version == before[key].loaded_version
                &&& after[key].cached_status == before[key].cached_status
            }
            &&& (result matches Err(error) ==> names_missing_run(error, id, run) && after == before)
        }),
{
}

/// A workflow has a live run exactly where a handle of it is registered whose status is
/// running or paused.
pub proof fn a_live_run_is_running_or_paused(
    handles: Map<RunKey, WorkflowHandle>,
    id: WorkflowId,
    handle: WorkflowHandle,
)
    ensures
        key_of(handle) == (RunKey { workflow_id: handle.workflow_id, run_id: handle.run_id }),
        has_live_run(handles, id) <==> exists|key: RunKey| #[trigger]
            handles.contains_key(key) && key.workflow_id == id && (handles[key].cached_status
                == WorkflowStatus::Running || handles[key].cached_status
                == WorkflowStatus::Paused),
{
    if has_live_run(handles, id) {
        let key = choose|key: RunKey| #[trigger]
            handles.contains_key(key) && key.workflow_id == id && !crate::event::ended(
                handles[key].cached_status,
            );
        assert(handles.contains_key(key));
    }
}

/// A refused continuation tells how much is pending: each pending activity and each pending
/// child is listed once, and nothing else is.
pub proof fn a_refused_continuation_tells_what_is_pending(
    events: Seq<Event>,
    activities: Seq<ActivityId>,
    children: Seq<WorkflowId>,
    activity: ActivityId,
    child: WorkflowId,
)
    requires
        lists_pending_activities(events, activities),
        lists_pending_children(events, children),
    ensures
        activities.contains(activity) <==> activity_pending(events, activity),
        children.contains(child) <==> child_pending(events, child),
        activities.no_duplicates(),
        children.no_duplicates(),
        exists|listed: Seq<char>, named: Seq<char>|
            #![trigger listed + named]
            pending_work_text(activities, children)
                == "cannot continue as new while pending work exists: "@ + decimal(activities.len())
                + " activities ({"@ + listed + "}), "@ + decimal(children.len())
                + " child workflows ({"@ + named + "})"@,
{
    let listed = joined(activity_texts(activities), ", "@);
    let named = joined(workflow_texts(children), ", "@);
    let both = listed + named;
    assert(pending_work_text(activities, children)
        == "cannot continue as new while pending work exists: "@ + decimal(activities.len())
        + " activities ({"@ + listed + "}), "@ + decimal(children.len()) + " child workflows ({"@
        + named + "})"@);
}

} // verus!
