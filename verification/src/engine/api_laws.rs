//! What callers of a live engine are told, and what is done for them.

use vstd::prelude::*;
use vstd::utf8::encode_utf8;

use crate::clock::{earlier, endless};
use crate::engine::api::{
    by_workflow, cancel_answers, gated, lists_each_once, live_summaries_win, tells, AdoptPhase, CancelReply,
    CancelRun, ResultPhase, ResultReply, ResultRun, ShutdownPhase, WorkflowSummary,
};
use crate::engine::delegated::{
    ended_target, family_of, next_pause, EventFamily, EventFilter, SignalDeliveryConfig,
    TargetPhase, TargetReply, TargetRequest, TargetRun,
};
use crate::engine::fence::{
    fence_trace, fresh_plan, AdoptionPlan, AdoptionView, FenceAsk, FencePhase, FenceReply,
    FenceStep,
};
use crate::engine::seam_handle::answers;
use crate::engine::shutdown_gate::{admits, gate_after, GateEvent, ShutdownState};
use crate::engine_seam::WorkflowResidency;
use crate::error::{EngineError, QueryError, SignalRouterError};
use crate::error_laws::names_missing_run;
use crate::event::{envelope_of, Event, Payload, TerminalOutcome, WorkflowError};
use crate::history::{active_segment, lease_terminal, run_outcome, run_started, segment_of};
use crate::ids::{uuid_text, RunId, TimerKey, WorkflowId};
use crate::registry::{Residency, WorkflowHandle};
use crate::sort::{in_order, Ordered};
use crate::text::{bytes_less, text_less};
use crate::time::{keys, live_timers_are_started_and_not_ended, timer_live};

verus! {

/// An operation is let in exactly as long as shutdown has not begun, and one that is let in
/// counts until it has finished: letting one in and finishing one leaves the barrier as it
/// was, and a shutdown has drained only when none is left.
pub proof fn operations_are_counted_in_and_out(
    before: ShutdownState,
    after: ShutdownState,
    result: Result<(), EngineError>,
    refusal: Option<EngineError>,
)
    requires
        before.active_operations < usize::MAX,
    ensures
        admits(before, after, result) ==> (result is Ok <==> !before.shutting_down),
        admits(before, after, result) && result is Ok ==> after.active_operations
            == before.active_operations + 1 && after.shutting_down == before.shutting_down
            && gate_after(after, GateEvent::Finish) == before,
        admits(before, after, result) && result is Err ==> after == before && result == Err::<
            (),
            EngineError,
        >(EngineError::ShuttingDown),
        gated(before, after, refusal) ==> (refusal is None <==> !before.shutting_down),
        gated(before, after, refusal) && refusal is None ==> after.active_operations
            == before.active_operations + 1 && after.shutting_down == before.shutting_down
            && gate_after(after, GateEvent::Finish) == before,
        gated(before, after, refusal) && refusal is Some ==> after == before && refusal == Some(
            EngineError::ShuttingDown,
        ),
        gate_after(before, GateEvent::Close).shutting_down,
        gate_after(before, GateEvent::Close).active_operations == before.active_operations,
        before.active_operations == 0 ==> gate_after(before, GateEvent::Finish) == before,
{
}

/// A caller is told the result of a run that completed and an error for every other end:
/// the run's own error where it failed, and otherwise one that says what happened and why.
pub proof fn a_caller_is_told_how_the_run_ended(
    outcome: TerminalOutcome,
    result: Result<Payload, WorkflowError>,
)
    requires
        tells(outcome, result),
    ensures
        result is Ok <==> outcome is Completed,
        (outcome matches TerminalOutcome::Completed(payload) ==> result == Ok::<
            Payload,
            WorkflowError,
        >(payload)),
        (outcome matches TerminalOutcome::Failed(error) ==> result == Err::<Payload, WorkflowError>(
            error,
        )),
        (outcome matches TerminalOutcome::Cancelled(reason) ==> (result matches Err(error)
            && error.message@ == "workflow cancelled: "@ + reason@ && error.details is None)),
        (outcome matches TerminalOutcome::TimedOut(timeout) ==> (result matches Err(error)
            && error.message@ == "workflow timed out: "@ + timeout@ && error.details is None)),
        (outcome matches TerminalOutcome::ContinuedAsNew { parent_run_id, .. } ==> (result matches
            Err(error) && error.message@ == "workflow continued as new from run "@ + uuid_text(
            parent_run_id.value,
        ) && error.details is None)),
{
}

/// A run that has ended durably is answered from its history. One that has not is looked up:
/// a registered one is awaited, one that is durably started is waited for as long as the
/// policy persists, and any other is not found. What is announced is what the caller is
/// told, and an announcement that never comes is answered from the history, or with a
/// runtime error where that shows no end.
pub proof fn a_result_comes_from_history_or_from_the_announcement(
    request: ResultRun,
    reply: ResultReply,
    after: ResultRun,
)
    requires
        request.goes_to(reply, after),
    ensures
        after.workflow_id == request.workflow_id,
        after.run_id == request.run_id,
        after.policy == request.policy,
        (reply matches ResultReply::History(history) ==> {
            &&& (run_outcome(history@, request.run_id) matches Some(outcome) ==> (request.phase
                is ReadHistory || request.phase is Reread ==> (after.phase matches
                ResultPhase::Ended(result) && tells(outcome, result))))
            &&& run_outcome(history@, request.run_id) is None && request.phase is ReadHistory
                ==> after.phase == (ResultPhase::Lookup {
                started: run_started(history@, request.run_id),
            })
            &&& run_outcome(history@, request.run_id) is None && request.phase is Reread ==> (
            after.phase matches ResultPhase::Refused(EngineError::Runtime { reason }) && reason@
                == "completion channel closed before workflow `"@ + (uuid_text(
                request.workflow_id.value,
            ) + "/"@ + uuid_text(request.run_id.value)) + "` finished"@)
        }),
        (reply matches ResultReply::Looked { found, elapsed } ==> {
            &&& (found matches Some(handle) ==> (request.phase is Lookup || request.phase
                is AwaitHandle ==> after.phase == ResultPhase::AwaitOutcome(handle)))
            &&& (found is None ==> (request.phase matches ResultPhase::Lookup { started } ==> {
                &&& started ==> (after.phase matches ResultPhase::AwaitHandle(window)
                    && window.budget.nanoseconds() == request.policy.persistence()
                    && window.backoff == request.policy.initial_backoff && window.max_backoff
                    == request.policy.max_backoff)
                &&& !started ==> (after.phase matches ResultPhase::Refused(error)
                    && names_missing_run(error, request.workflow_id, request.run_id))
            }))
            &&& (found is None ==> (request.phase matches ResultPhase::AwaitHandle(window) ==> {
                &&& elapsed.nanoseconds() < window.budget.nanoseconds() ==> (after.phase matches
                    ResultPhase::AwaitHandle(later) && later.budget == window.budget
                    && later.max_backoff == window.max_backoff && later.backoff.nanoseconds()
                    == next_pause(
                    window.backoff.nanoseconds(),
                    window.max_backoff.nanoseconds(),
                ))
                &&& elapsed.nanoseconds() >= window.budget.nanoseconds() ==> (after.phase matches
                    ResultPhase::Refused(error) && names_missing_run(
                    error,
                    request.workflow_id,
                    request.run_id,
                ))
            }))
        }),
        (reply matches ResultReply::Outcome(outcome) ==> (request.phase is AwaitOutcome ==> (
        after.phase matches ResultPhase::Ended(result) && tells(outcome, result)))),
        reply is Closed && request.phase is AwaitOutcome ==> after.phase is Reread,
        (reply matches ResultReply::Failed(error) ==> (request.phase is ReadHistory || request.phase
            is Lookup || request.phase is AwaitHandle || request.phase is Reread ==> after.phase
            == ResultPhase::Refused(error))),
        request.phase is Ended || request.phase is Refused ==> after.phase == request.phase,
{
}

/// As long as shutdown has not begun, every call for a cancellation is let in, and begins with
/// the timers in flight and none of them listed yet.
pub proof fn an_open_engine_begins_every_cancellation(
    before: ShutdownState,
    after: ShutdownState,
    result: Result<CancelRun, EngineError>,
)
    requires
        !before.shutting_down,
        before.active_operations < usize::MAX,
        cancel_answers(before, after, result),
    ensures
        result matches Ok(run) && run.timers@.len() == 0 && run.phase is ListTimers,
        !after.shutting_down,
        after.active_operations == before.active_operations + 1,
{
}

/// A cancellation retires exactly the timers of the active run that are live, each once, and
/// none where the history cannot be read.
pub proof fn a_cancellation_retires_the_live_timers(
    run: CancelRun,
    history: Vec<Event>,
    after: CancelRun,
    key: TimerKey,
)
    requires
        run.phase is ListTimers,
        run.goes_to(CancelReply::History(history), after),
    ensures
        keys(after.timers@).contains(key) <==> timer_live(active_segment(history@), key),
        keys(after.timers@).no_duplicates(),
        after.phase is Transition <==> after.timers@.len() == 0,
{
    live_timers_are_started_and_not_ended(active_segment(history@));
}

/// What is kept of summaries: the last one of each workflow.
proof fn lemma_by_workflow(summaries: Seq<WorkflowSummary>, id: WorkflowId)
    ensures
        by_workflow(summaries).contains_key(id) <==> exists|i: int|
            0 <= i < summaries.len() && (#[trigger] summaries[i]).workflow_id == id,
        by_workflow(summaries).contains_key(id) ==> exists|i: int|
            0 <= i < summaries.len() && #[trigger] summaries[i] == by_workflow(summaries)[id],
    decreases summaries.len(),
{
    if summaries.len() > 0 {
        let shorter = summaries.drop_last();
        let last = summaries.len() - 1;
        lemma_by_workflow(shorter, id);
        assert(summaries[last] == summaries.last());
        if exists|i: int| 0 <= i < shorter.len() && (#[trigger] shorter[i]).workflow_id == id {
            let i = choose|i: int|
                0 <= i < shorter.len() && (#[trigger] shorter[i]).workflow_id == id;
            assert(summaries[i].workflow_id == id);
        }
        if exists|i: int| 0 <= i < summaries.len() && (#[trigger] summaries[i]).workflow_id == id {
            let i = choose|i: int|
                0 <= i < summaries.len() && (#[trigger] summaries[i]).workflow_id == id;
            if i < last {
                assert(shorter[i].workflow_id == id);
            }
        }
        if by_workflow(shorter).contains_key(id) && summaries.last().workflow_id != id {
            let i = choose|i: int|
                0 <= i < shorter.len() && #[trigger] shorter[i] == by_workflow(shorter)[id];
            assert(summaries[i] == by_workflow(summaries)[id]);
        }
    }
}

/// A listing shows each workflow that is stored or live, and no other, exactly once.
pub proof fn a_listing_shows_every_workflow_once(
    stored: Seq<WorkflowSummary>,
    live: Seq<WorkflowSummary>,
    listed: Seq<WorkflowSummary>,
    id: WorkflowId,
)
    requires
        lists_each_once(listed, by_workflow(stored + live)),
    ensures
        (exists|i: int| 0 <= i < listed.len() && (#[trigger] listed[i]).workflow_id == id) <==> (
        exists|k: int| 0 <= k < stored.len() && (#[trigger] stored[k]).workflow_id == id) || (
        exists|k: int| 0 <= k < live.len() && (#[trigger] live[k]).workflow_id == id),
        forall|i: int, j: int|
            0 <= i < j < listed.len() ==> (#[trigger] listed[i]).workflow_id != (
            #[trigger] listed[j]).workflow_id,
{
    let all = stored + live;
    lemma_by_workflow(all, id);
    if exists|i: int| 0 <= i < listed.len() && (#[trigger] listed[i]).workflow_id == id {
        let i = choose|i: int| 0 <= i < listed.len() && (#[trigger] listed[i]).workflow_id == id;
        assert(by_workflow(all).contains_key(listed[i].workflow_id));
        let k = choose|k: int| 0 <= k < all.len() && (#[trigger] all[k]).workflow_id == id;
        if k < stored.len() {
            assert(stored[k].workflow_id == id);
        } else {
            assert(live[k - stored.len()].workflow_id == id);
        }
    }
    if exists|k: int| 0 <= k < stored.len() && (#[trigger] stored[k]).workflow_id == id {
        let k = choose|k: int| 0 <= k < stored.len() && (#[trigger] stored[k]).workflow_id == id;
        assert(all[k].workflow_id == id);
    }
    if exists|k: int| 0 <= k < live.len() && (#[trigger] live[k]).workflow_id == id {
        let k = choose|k: int| 0 <= k < live.len() && (#[trigger] live[k]).workflow_id == id;
        assert(all[stored.len() + k].workflow_id == id);
    }
}

/// What a listing shows is what was stored or live, and a workflow that is live is shown as
/// it is live.
pub proof fn a_listing_shows_what_was_given(
    stored: Seq<WorkflowSummary>,
    live: Seq<WorkflowSummary>,
    listed: Seq<WorkflowSummary>,
    i: int,
    k: int,
)
    requires
        lists_each_once(listed, by_workflow(stored + live)),
        0 <= i < listed.len(),
    ensures
        stored.contains(listed[i]) || live.contains(listed[i]),
        0 <= k < live.len() && listed[i].workflow_id == live[k].workflow_id && (forall|m: int|
            k < m < live.len() ==> (#[trigger] live[m]).workflow_id != live[k].workflow_id)
            ==> listed[i] == live[k],
{
    let all = stored + live;
    lemma_by_workflow(all, listed[i].workflow_id);
    let p = choose|p: int|
        0 <= p < all.len() && #[trigger] all[p] == by_workflow(all)[listed[i].workflow_id];
    if p < stored.len() {
        assert(stored[p] == listed[i]);
    } else {
        assert(live[p - stored.len()] == listed[i]);
    }
    if 0 <= k < live.len() && listed[i].workflow_id == live[k].workflow_id && (forall|m: int|
        k < m < live.len() ==> (#[trigger] live[m]).workflow_id != live[k].workflow_id) {
        live_summaries_win(stored, live, k);
    }
}

/// In a listing an earlier start comes before a later one, and workflows that started
/// together stand in the order of their identifiers' texts.
pub proof fn workflows_are_listed_by_their_start(listed: Seq<WorkflowSummary>, i: int, j: int)
    requires
        in_order(listed),
        0 <= i < j < listed.len(),
    ensures
        !earlier(listed[j].started_at, listed[i].started_at),
        listed[i].started_at == listed[j].started_at ==> !text_less(
            uuid_text(listed[j].workflow_id.value),
            uuid_text(listed[i].workflow_id.value),
        ),
{
    assert(listed[i].may_precede(&listed[j]));
}

/// Texts are ordered by the first byte in which they differ, and one that is the beginning
/// of another comes before it.
pub proof fn texts_are_ordered_by_their_first_difference(a: Seq<u8>, b: Seq<u8>, at: int)
    requires
        0 <= at <= a.len(),
        at <= b.len(),
        forall|i: int| 0 <= i < at ==> a[i] == b[i],
        at < a.len() && at < b.len() ==> a[at] != b[at],
    ensures
        bytes_less(a, b) <==> at < b.len() && (at == a.len() || a[at] < b[at]),
    decreases at,
{
    if at > 0 {
        assert(a[0] == b[0]);
        let (s, t) = (a.skip(1), b.skip(1));
        assert forall|i: int| 0 <= i < at - 1 implies s[i] == t[i] by {
            assert(a[i + 1] == b[i + 1]);
        }
        texts_are_ordered_by_their_first_difference(s, t, at - 1);
    }
}

/// One text comes before another as its bytes do.
pub proof fn texts_are_ordered_by_their_bytes(a: Seq<char>, b: Seq<char>)
    ensures
        text_less(a, b) <==> bytes_less(encode_utf8(a), encode_utf8(b)),
{
}

/// Shards are recovered only after the fence, and timers only after the shards' workflows;
/// a failing step ends the adoption with its own error.
pub proof fn an_adoption_takes_its_steps_in_order(
    phase: AdoptPhase,
    reply: Result<(), EngineError>,
)
    ensures
        ({
            let next = phase.after(reply);
            let moved = next != phase;
            &&& moved && next is Recover ==> phase is Fence && reply is Ok
            &&& moved && next is RecoverTimers ==> phase is Recover && reply is Ok
            &&& moved && next is Adopted ==> phase is RecoverTimers && reply is Ok
            &&& reply is Ok && !(phase is Adopted) && !(phase is Failed) ==> moved && !(next
                is Failed)
            &&& (reply matches Err(error) ==> (!(phase is Adopted) && !(phase is Failed) ==> next
                == AdoptPhase::Failed(error)))
            &&& phase is Adopted || phase is Failed ==> !moved
        }),
{
}

/// A shutdown stops reconciliation, waits for what is in flight, stops the runtime and then
/// what is left of child tasks. Only the wait and the runtime can fail it, each with its own
/// error.
pub proof fn a_shutdown_takes_its_steps_in_order(
    phase: ShutdownPhase,
    reply: Result<(), EngineError>,
)
    ensures
        ({
            let next = phase.after(reply);
            let moved = next != phase;
            &&& phase is StopReconciliation ==> next is CloseGate
            &&& phase is StopChildTasks ==> next is ShutDown
            &&& moved && next is StopRuntime ==> phase is CloseGate && reply is Ok
            &&& moved && next is StopChildTasks ==> phase is StopRuntime && reply is Ok
            &&& moved && next is ShutDown ==> phase is StopChildTasks
            &&& reply is Ok && (phase is CloseGate || phase is StopRuntime) ==> moved && !(next
                is Failed)
            &&& (reply matches Err(error) ==> (phase is CloseGate || phase is StopRuntime ==> next
                == ShutdownPhase::Failed(error)))
            &&& phase is ShutDown || phase is Failed ==> !moved
        }),
{
}

/// Each event belongs to the family of what it is about.
pub proof fn an_event_belongs_to_the_family_of_its_subject(event: Event)
    ensures
        family_of(event) == EventFamily::Activity <==> event is ActivityScheduled || event
            is ActivityStarted || event is ActivityCompleted || event is ActivityFailed || event
            is ActivityCancelled,
        family_of(event) == EventFamily::Timer <==> event is TimerStarted || event is TimerFired
            || event is TimerCancelled || event is WithTimeoutCompleted,
        family_of(event) == EventFamily::Signal <==> event is SignalReceived || event
            is SignalSent,
        family_of(event) == EventFamily::ChildWorkflow <==> event is ChildWorkflowStarted || event
            is ChildWorkflowCompleted || event is ChildWorkflowFailed || event
            is ChildWorkflowCancelled,
        family_of(event) == EventFamily::Schedule <==> event is ScheduleCreated || event
            is ScheduleUpdated || event is SchedulePaused || event is ScheduleResumed || event
            is ScheduleDeleted || event is ScheduleTriggered,
        family_of(event) == EventFamily::Workflow <==> event is WorkflowStarted || event
            is WorkflowCompleted || event is WorkflowFailed || event is WorkflowCancelled || event
            is WorkflowTimedOut || event is WorkflowContinuedAsNew || event is WorkflowReopened
            || event is WorkflowPaused || event is WorkflowResumed || event
            is SearchAttributesUpdated,
{
}

/// A subscriber gets an event exactly where it belongs to the workflow and to the family
/// that were asked for, each of which is any where none was asked for.
pub proof fn a_subscriber_gets_what_it_asked_for(filter: EventFilter, event: Event)
    ensures
        filter.workflow_id is None && filter.family is None ==> filter.admits(event),
        (filter.workflow_id matches Some(id) ==> (filter.admits(event) ==> envelope_of(
            event,
        ).workflow_id == id)),
        (filter.family matches Some(family) ==> (filter.admits(event) ==> family_of(event)
            == family)),
        (filter.workflow_id is None || filter.workflow_id == Some(envelope_of(event).workflow_id))
            && (filter.family is None || filter.family == Some(family_of(event)))
            ==> filter.admits(event),
{
}

/// A run that has ended answers a signal as terminal, with both of its identifiers, and a
/// query as not running.
pub proof fn an_ended_run_answers_by_what_was_asked(
    request: TargetRequest,
    id: WorkflowId,
    run: RunId,
)
    ensures
        request is Signal ==> ended_target(request, id, run) == EngineError::SignalRouter(
            (SignalRouterError::Terminal { workflow_id: id, run_id: run }),
        ),
        request is Query ==> ended_target(request, id, run) == EngineError::Query(
            QueryError::NotRunning(id),
        ),
{
}

/// A request goes to the handle that is registered for the run. A run that is not
/// registered is answered from its history: one that has ended is refused as such, one that
/// never started is not found, and one that is durably started is waited for as long as
/// the policy persists, and then not found.
pub proof fn a_request_reaches_the_registered_run(
    target: TargetRun,
    reply: TargetReply,
    after: TargetRun,
)
    requires
        target.goes_to(reply, after),
    ensures
        after.request == target.request,
        after.workflow_id == target.workflow_id,
        after.run_id == target.run_id,
        after.policy == target.policy,
        (reply matches TargetReply::Looked { found, elapsed } ==> {
            &&& (found matches Some(handle) ==> (target.phase is Lookup || target.phase
                is AwaitHandle ==> after.phase == TargetPhase::Delegate(handle)))
            &&& found is None && target.phase is Lookup ==> after.phase is ReadHistory
            &&& (found is None ==> (target.phase matches TargetPhase::AwaitHandle(window) ==> {
                &&& elapsed.nanoseconds() < window.budget.nanoseconds() ==> (after.phase matches
                    TargetPhase::AwaitHandle(later) && later.budget == window.budget
                    && later.max_backoff == window.max_backoff && later.backoff.nanoseconds()
                    == next_pause(
                    window.backoff.nanoseconds(),
                    window.max_backoff.nanoseconds(),
                ))
                &&& elapsed.nanoseconds() >= window.budget.nanoseconds() ==> (after.phase matches
                    TargetPhase::Refused(error) && names_missing_run(
                    error,
                    target.workflow_id,
                    target.run_id,
                ))
            }))
        }),
        (reply matches TargetReply::History(history) ==> (target.phase is ReadHistory ==> {
            let ended = lease_terminal(segment_of(history@, target.run_id)) is Some;
            let started = run_started(history@, target.run_id);
            &&& ended ==> after.phase == TargetPhase::Refused(
                ended_target(target.request, target.workflow_id, target.run_id),
            )
            &&& !ended && !started ==> (after.phase matches TargetPhase::Refused(error)
                && names_missing_run(error, target.workflow_id, target.run_id))
            &&& !ended && started ==> (after.phase matches TargetPhase::AwaitHandle(window)
                && window.budget.nanoseconds() == target.policy.persistence() && window.backoff
                == target.policy.initial_backoff && window.max_backoff
                == target.policy.max_backoff)
        })),
        (reply matches TargetReply::Failed(error) ==> (target.phase is Lookup || target.phase
            is ReadHistory || target.phase is AwaitHandle ==> after.phase == TargetPhase::Refused(
            error,
        ))),
        target.phase is Delegate || target.phase is Refused ==> after.phase == target.phase,
{
}

/// A policy persists for as many of its timeouts as it makes attempts, and for one where it
/// makes none; and each pause is twice as long as the one before it, up to the longest.
pub proof fn a_policy_persists_for_all_of_its_attempts(
    policy: SignalDeliveryConfig,
    pause: int,
    longest: int,
)
    requires
        policy.wf(),
        0 <= pause,
        0 <= longest <= endless(),
    ensures
        policy.max_enqueue_attempts == 0 ==> policy.persistence()
            == policy.ready_timeout.nanoseconds(),
        policy.max_enqueue_attempts > 0 && policy.ready_timeout.nanoseconds()
            * policy.max_enqueue_attempts <= endless() ==> policy.persistence()
            == policy.ready_timeout.nanoseconds() * policy.max_enqueue_attempts,
        policy.max_enqueue_attempts > 0 && policy.ready_timeout.nanoseconds()
            * policy.max_enqueue_attempts > endless() ==> policy.persistence() == endless(),
        pause * 2 <= longest ==> next_pause(pause, longest) == pause * 2,
        pause * 2 > longest ==> next_pause(pause, longest) == longest,
{
}

/// A registered workflow is answered with its process where it is resident, and as not
/// resident otherwise.
pub proof fn a_resident_workflow_answers_with_its_process(
    handle: WorkflowHandle,
    residency: WorkflowResidency,
)
    requires
        answers(handle, residency),
    ensures
        handle.residency == Residency::Resident <==> residency is Resident,
        (residency matches WorkflowResidency::Resident(process) ==> process.process()
            == handle.pid),
        handle.residency == Residency::Suspended <==> residency is NonResident,
{
}

/// What an answer does to an adoption: a shard that wins its election is published next;
/// one that is published has passed the fence, in its turn; one that another node owns is
/// dropped, and the next shard is taken; any other store failure aborts the adoption with
/// its own error; and a shard that passed the fence survives exactly where it is still
/// owned.
pub proof fn each_shard_is_decided_by_its_own_answers(plan: AdoptionView, reply: FenceReply)
    requires
        plan.fits(),
    ensures
        ({
            let next = plan.after(reply);
            let shard = plan.shards[plan.fenced];
            &&& next.shards == plan.shards
            &&& plan.phase is Acquiring ==> plan.asks() == FenceAsk::Acquire(shard)
            &&& plan.phase is Publishing ==> plan.asks() == FenceAsk::Publish(shard)
            &&& plan.phase is Asserting ==> plan.asks() == FenceAsk::IsCurrentOwner(
                plan.committed[plan.asserted],
            )
            &&& plan.phase is Extending ==> plan.asks() == FenceAsk::Extend(plan.survivors)
            &&& plan.phase is Planned ==> plan.asks() == FenceAsk::Recover(plan.survivors)
            &&& plan.phase is Aborted ==> plan.asks() == FenceAsk::Abort
            &&& (reply matches FenceReply::Fence(Ok(_)) ==> {
                &&& plan.phase is Acquiring ==> next == (AdoptionView {
                    phase: FencePhase::Publishing,
                    ..plan
                })
                &&& plan.phase is Publishing ==> next.committed == plan.committed.push(shard)
                    && next.fenced == plan.fenced + 1 && !(next.phase is Aborted)
            })
            &&& (reply matches FenceReply::Fence(Err(error)) ==> (plan.phase is Acquiring
                || plan.phase is Publishing ==> {
                &&& next.committed == plan.committed
                &&& next.survivors == plan.survivors
                &&& error is NotOwner ==> next.fenced == plan.fenced + 1 && !(next.phase is Aborted)
                &&& !(error is NotOwner) ==> next.phase == FencePhase::Aborted(error)
            }))
            &&& (reply matches FenceReply::Owner(owner) ==> (plan.phase is Asserting ==> {
                &&& next.asserted == plan.asserted + 1
                &&& next.survivors == if owner {
                    plan.survivors.push(plan.committed[plan.asserted])
                } else {
                    plan.survivors
                }
            }))
            &&& (plan.phase is Acquiring || plan.phase is Publishing) && next.fenced
                > plan.fenced ==> {
                &&& next.phase is Acquiring <==> next.fenced < plan.shards.len()
                &&& next.phase is Asserting <==> next.fenced == plan.shards.len()
                    && next.committed.len() > 0
                &&& next.phase is Extending <==> next.fenced == plan.shards.len()
                    && next.committed.len() == 0
            }
            &&& plan.phase is Asserting && next.asserted > plan.asserted ==> {
                &&& next.phase is Asserting <==> next.asserted < plan.committed.len()
                &&& next.phase is Extending <==> next.asserted == plan.committed.len()
            }
            &&& plan.phase is Extending ==> (next.phase is Planned <==> reply is Extended)
            &&& plan.phase is Planned || plan.phase is Aborted ==> next == plan
        }),
{
}

/// The states that a plan has reached fit it.
proof fn lemma_trace_fits(plans: Seq<AdoptionView>, replies: Seq<FenceReply>, n: int)
    requires
        fence_trace(plans, replies),
        0 <= n < plans.len(),
    ensures
        plans[n].fits(),
        plans[n].shards == plans[0].shards,
    decreases n,
{
    if n > 0 {
        lemma_trace_fits(plans, replies, n - 1);
        assert(plans[n] == plans[n - 1].after(replies[n - 1]));
        each_shard_is_decided_by_its_own_answers(plans[n - 1], replies[n - 1]);
    }
}

/// What has passed the fence, and what has survived, is not lost again.
proof fn lemma_passed_stays(
    plans: Seq<AdoptionView>,
    replies: Seq<FenceReply>,
    earlier: int,
    later: int,
    shard: usize,
)
    requires
        fence_trace(plans, replies),
        0 <= earlier <= later < plans.len(),
    ensures
        plans[earlier].survivors.contains(shard) ==> plans[later].survivors.contains(shard),
    decreases later - earlier,
{
    if earlier < later {
        lemma_passed_stays(plans, replies, earlier, later - 1, shard);
        lemma_trace_fits(plans, replies, later - 1);
        let prior = plans[later - 1];
        assert(plans[later] == prior.after(replies[later - 1]));
        if prior.survivors.contains(shard) {
            let i = choose|i: int| 0 <= i < prior.survivors.len() && prior.survivors[i] == shard;
            assert(plans[later].survivors[i] == shard);
        }
    }
}

/// A shard that was confirmed as owned is among those for which the scope is widened and
/// which are recovered: none that survived the fence is left behind.
pub proof fn every_confirmed_shard_is_recovered(
    plans: Seq<AdoptionView>,
    replies: Seq<FenceReply>,
    asked: int,
    n: int,
    shard: usize,
)
    requires
        fence_trace(plans, replies),
        0 <= asked < n < plans.len(),
        plans[asked].phase is Asserting,
        plans[asked].asks() == FenceAsk::IsCurrentOwner(shard),
        replies[asked] == FenceReply::Owner(true),
        plans[n].phase is Extending || plans[n].phase is Planned,
    ensures
        plans[n].survivors.contains(shard),
        plans[n].asks() == FenceAsk::Extend(plans[n].survivors) || plans[n].asks()
            == FenceAsk::Recover(plans[n].survivors),
{
    let plan = plans[asked];
    assert(plans[asked + 1] == plan.after(replies[asked]));
    assert(plans[asked + 1].survivors == plan.survivors.push(shard));
    assert(plans[asked + 1].survivors[plan.survivors.len() as int] == shard);
    lemma_passed_stays(plans, replies, asked + 1, n, shard);
}

/// Before the scope is widened, every shard was asked for its election, and every one that
/// passed the fence was asked for its ownership.
pub proof fn every_shard_is_asked_before_the_scope_is_widened(
    plans: Seq<AdoptionView>,
    replies: Seq<FenceReply>,
    n: int,
)
    requires
        fence_trace(plans, replies),
        0 <= n < plans.len(),
        plans[n].phase is Extending || plans[n].phase is Planned,
    ensures
        plans[n].fenced == plans[0].shards.len(),
        plans[n].asserted == plans[n].committed.len(),
{
    lemma_trace_fits(plans, replies, n);
}

/// A fresh plan has asked nothing: it begins with the election of the first shard, and with
/// an empty widening where there is none to adopt.
pub proof fn a_fresh_plan_begins_with_the_first_election(shards: Seq<usize>)
    ensures
        ({
            let plan = fresh_plan(shards);
            &&& plan.shards == shards
            &&& plan.committed.len() == 0
            &&& plan.survivors.len() == 0
            &&& shards.len() > 0 ==> plan.asks() == FenceAsk::Acquire(shards[0])
            &&& shards.len() == 0 ==> plan.asks() == FenceAsk::Extend(Seq::<usize>::empty())
        }),
{
}

/// What a plan asks, and what it holds, is what its steps and its fields say.
pub proof fn a_plan_asks_what_its_step_says(plan: AdoptionPlan, step: FenceStep)
    ensures
        (step matches FenceStep::Acquire(shard) ==> step@ == FenceAsk::Acquire(shard)),
        (step matches FenceStep::Publish(shard) ==> step@ == FenceAsk::Publish(shard)),
        (step matches FenceStep::IsCurrentOwner(shard) ==> step@ == FenceAsk::IsCurrentOwner(
            shard,
        )),
        (step matches FenceStep::Extend(shards) ==> step@ == FenceAsk::Extend(shards@)),
        (step matches FenceStep::Recover(shards) ==> step@ == FenceAsk::Recover(shards@)),
        step is Abort <==> step@ is Abort,
        plan@.shards == plan.shards@,
        plan@.committed == plan.committed@,
        plan@.survivors == plan.survivors@,
        plan@.phase == plan.phase,
{
}

} // verus!
