//! What errors and refusals tell.

use vstd::prelude::*;
use vstd::string::*;

use crate::content_hash::hash_text;
use crate::error::{
    is_invalid_state, is_load_error, is_run_not_found, is_runtime_error, run_name, schedule_error,
    DurabilityError, EngineError, PinHolder, QueryError, ScheduleEvaluatorError, SignalRouterError,
    StoreError,
};
use crate::event::{Event, WorkflowStatus};
use crate::history::{lease_terminal, status_of};
use crate::ids::{uuid_text, RunId, TimerId, WorkflowId};
use crate::lifecycle::pause::{not_pausable_text, not_resumable_text, status_text};
use crate::lifecycle::reopen::{not_reopenable_text, run_subject, terminal_name};
use crate::text::{decimal, digits, joined};

verus! {

/// The error says that a run was not found, and names its workflow and the run itself.
pub open spec fn names_missing_run(error: EngineError, id: WorkflowId, run: RunId) -> bool {
    error matches EngineError::WorkflowNotFound { workflow_type } && workflow_type@ == uuid_text(
        id.value,
    ) + "/"@ + uuid_text(run.value)
}

/// A run that is not found is named by its workflow and by itself, and every other refusal
/// carries its text as it is.
pub proof fn a_refusal_names_what_it_refuses(
    error: EngineError,
    id: WorkflowId,
    run: RunId,
    text: Seq<char>,
)
    ensures
        is_run_not_found(error, id, run) <==> names_missing_run(error, id, run),
        run_name(id, run) == uuid_text(id.value) + "/"@ + uuid_text(run.value),
        is_load_error(error, text) <==> (error matches EngineError::Load { reason } && reason@
            == text),
        is_runtime_error(error, text) <==> (error matches EngineError::Runtime { reason } && reason@
            == text),
        is_invalid_state(error, text) <==> (error matches EngineError::InvalidState { reason }
            && reason@ == text),
{
}

/// An error that carries a reason, a name or another error tells it in full.
pub proof fn an_error_tells_what_it_carries(error: EngineError)
    ensures
        (error matches EngineError::Load { reason } ==> error.describes()
            == "workflow package load failed: "@ + reason@),
        (error matches EngineError::Runtime { reason } ==> error.describes() == "runtime error: "@
            + reason@),
        (error matches EngineError::InvalidState { reason } ==> error.describes()
            == "invalid workflow state: "@ + reason@),
        (error matches EngineError::Schedule { reason } ==> error.describes()
            == "schedule error: "@ + reason@),
        (error matches EngineError::Package { reason } ==> error.describes() == "package error: "@
            + reason@),
        (error matches EngineError::EventStreaming { reason } ==> error.describes()
            == "event streaming setup failed: "@ + reason@),
        (error matches EngineError::NifRegistration { reason } ==> error.describes()
            == "NIF registration failed: "@ + reason@),
        (error matches EngineError::Store(inner) ==> error.describes() == "store error: "@
            + inner.describes()),
        (error matches EngineError::Durability(inner) ==> error.describes()
            == "durability error: "@ + inner.describes()),
        (error matches EngineError::SignalRouter(inner) ==> error.describes()
            == "signal router error: "@ + inner.describes()),
        (error matches EngineError::Query(inner) ==> error.describes() == "query error: "@
            + inner.describes()),
        (error matches EngineError::WorkflowNotFound { workflow_type } ==> error.describes()
            == "workflow `"@ + workflow_type@ + "` was not found"@),
        (error matches EngineError::ScheduleNotFound { schedule_id } ==> error.describes()
            == "schedule `"@ + uuid_text(schedule_id.value) + "` was not found"@),
        (error matches EngineError::UnknownVersion { workflow_type, version, loaded }
            ==> error.describes() == "workflow `"@ + workflow_type@ + "` version `"@ + hash_text(
            version,
        ) + "` is not loaded (loaded versions: "@ + loaded@ + ")"@),
        (error matches EngineError::RouteActive { workflow_type, version } ==> error.describes()
            == "cannot unload workflow `"@ + workflow_type@ + "` version `"@ + hash_text(version)
            + "`: it is the route-active version; route another version first"@),
        (error matches EngineError::ProcessExitDrainerSpawn { reason } ==> error.describes()
            == "process exit drainer could not start: "@ + reason@),
{
}

/// What a store, a durable record, a query or a signal router reports is told as it was
/// reported, and what they refuse names the workflow.
pub proof fn an_outer_error_tells_the_inner_one(
    store: StoreError,
    durability: DurabilityError,
    query: QueryError,
    router: SignalRouterError,
)
    ensures
        (store matches StoreError::NotOwner { reason, .. } ==> store.describes() == reason@),
        (store matches StoreError::SequenceConflict { reason } ==> store.describes() == reason@),
        (store matches StoreError::Backend(reason) ==> store.describes() == reason@),
        (durability matches DurabilityError::Store(inner) ==> durability.describes()
            == inner.describes()),
        (durability matches DurabilityError::Other { reason } ==> durability.describes() == reason@),
        (query matches QueryError::UnknownQuery { reason, .. } ==> query.describes() == reason@),
        (query matches QueryError::Other { reason } ==> query.describes() == reason@),
        (query matches QueryError::NotRunning(id) ==> query.describes() == "workflow "@ + uuid_text(
            id.value,
        ) + " is not running"@),
        (router matches SignalRouterError::Terminal { workflow_id, run_id } ==> router.describes()
            == "workflow "@ + uuid_text(workflow_id.value) + "/"@ + uuid_text(run_id.value)
            + " is terminal"@),
        (router matches SignalRouterError::Handoff { reason } ==> router.describes()
            == "signal resume handoff failed: "@ + reason@),
{
    match router {
        SignalRouterError::Terminal { workflow_id, run_id } => {
            assert(router.describes() =~= "workflow "@ + uuid_text(workflow_id.value) + "/"@
                + uuid_text(run_id.value) + " is terminal"@);
        },
        _ => {},
    }
}

/// What pins a version is named with all of its identifiers.
pub proof fn a_pin_names_its_holder(holder: PinHolder)
    ensures
        (holder matches PinHolder::LiveRun { workflow_id, run_id } ==> holder.describes()
            == "live run `"@ + run_name(workflow_id, run_id) + "` is pinned to it"@),
        (holder matches PinHolder::RecoverableRun { workflow_id } ==> holder.describes()
            == "recoverable run `"@ + uuid_text(workflow_id.value) + "` is pinned to it"@),
        (holder matches PinHolder::RecordedChild { child_workflow_id, recorded_by }
            ==> holder.describes() == "child `"@ + uuid_text(child_workflow_id.value)
            + "` recorded by `"@ + uuid_text(recorded_by.value)
            + "` is pinned to it and has not started"@),
{
}

/// A schedule that an evaluator does not find is not found by that identifier, and every
/// other failure of it keeps its reason.
pub proof fn an_evaluators_error_keeps_what_it_says(error: ScheduleEvaluatorError)
    ensures
        (error matches ScheduleEvaluatorError::ScheduleNotFound { schedule_id } ==> schedule_error(
            error,
        ) == (EngineError::ScheduleNotFound { schedule_id })),
        (error matches ScheduleEvaluatorError::Other { reason } ==> schedule_error(error)
            == (EngineError::Schedule { reason })),
{
}

/// Each status has a name of its own.
pub proof fn statuses_have_names_of_their_own(a: WorkflowStatus, b: WorkflowStatus)
    requires
        status_text(a) == status_text(b),
    ensures
        a == b,
{
    reveal_strlit("Running");
    reveal_strlit("Completed");
    reveal_strlit("Failed");
    reveal_strlit("Cancelled");
    reveal_strlit("TimedOut");
    reveal_strlit("ContinuedAsNew");
    reveal_strlit("Paused");
    let (s, t) = (status_text(a), status_text(b));
    assert(s.len() == t.len());
    assert(s[0] == t[0] && s[1] == t[1]);
}

/// A refused pause, resume or reopen names the run and the status that it truly has.
pub proof fn a_refused_transition_names_the_true_status(
    id: WorkflowId,
    run: RunId,
    status: WorkflowStatus,
    segment: Seq<Event>,
)
    ensures
        run_subject(id, run) == "workflow "@ + uuid_text(id.value) + " run "@ + uuid_text(
            run.value,
        ),
        not_pausable_text(id, run, status) == run_subject(id, run) + " is "@ + status_text(status)
            + ", not Running; only a Running run can be paused"@,
        not_resumable_text(id, run, status) == run_subject(id, run) + " is "@ + status_text(status)
            + ", not Paused; only a Paused run can be resumed"@,
        lease_terminal(segment) is None ==> not_reopenable_text(id, run, segment) == run_subject(
            id,
            run,
        ) + " is "@ + status_text(status_of(segment))
            + ", not a reopenable terminal (Failed or Cancelled)"@,
        lease_terminal(segment) is Some ==> not_reopenable_text(id, run, segment) == run_subject(
            id,
            run,
        ) + " is terminal for a non-reopenable reason ("@ + status_text(status_of(segment))
            + "); only Failed and Cancelled are reopenable"@,
{
    if lease_terminal(segment) is Some {
        let terminal = lease_terminal(segment)->Some_0;
        crate::history::lemma_last_where(
            segment,
            |event: Event|
                crate::history::opens_lease(event) || crate::history::ends_run(event),
        );
        assert(terminal_name(terminal) == status_text(crate::history::terminal_status(terminal)));
    }
}

/// Timers are told apart by their kind and by their number or name.
pub proof fn timers_are_told_apart(a: TimerId, b: TimerId)
    requires
        a@ == b@,
    ensures
        (a matches TimerId::Anonymous(number) ==> b == TimerId::Anonymous(number)),
        (a matches TimerId::Named(name) ==> (b matches TimerId::Named(other) && other@ == name@)),
{
}

/// The number that a decimal text stands for.
pub open spec fn decimal_value(text: Seq<char>) -> int
    decreases text.len(),
{
    if text.len() == 0 {
        0
    } else {
        decimal_value(text.drop_last()) * 10 + (text.last() as u32 - '0' as u32)
    }
}

/// A number is written so that it reads as itself.
pub proof fn a_number_reads_as_itself(n: nat)
    ensures
        decimal_value(decimal(n)) == n,
        decimal(n).len() > 0,
    decreases n,
{
    let last = (n % 10) as int;
    assert(digits()[last] as u32 - '0' as u32 == last);
    if n < 10 {
        assert(decimal(n).drop_last() =~= Seq::<char>::empty());
        assert(decimal_value(Seq::<char>::empty()) == 0);
        assert(decimal(n).last() == digits()[n as int]);
    } else {
        a_number_reads_as_itself(n / 10);
        assert(decimal(n).drop_last() =~= decimal(n / 10));
    }
}

/// Joined texts stand in their order with the separator between neighbours.
pub proof fn joined_texts_stand_in_order(
    parts: Seq<Seq<char>>,
    part: Seq<char>,
    separator: Seq<char>,
)
    ensures
        joined(Seq::<Seq<char>>::empty(), separator) == Seq::<char>::empty(),
        parts.len() == 0 ==> joined(parts.push(part), separator) == part,
        parts.len() > 0 ==> joined(parts.push(part), separator) == joined(parts, separator)
            + separator + part,
{
    assert(parts.push(part).drop_last() =~= parts);
    assert(parts.push(part).last() == part);
}

} // verus!
