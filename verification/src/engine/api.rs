//! Start, cancel, result, list, adoption and shutdown decisions of a live engine.

use vstd::prelude::*;
use vstd::string::*;
use vstd::utf8::encode_utf8;

use crate::clock::{earlier, TimeSpan, Timestamp};
use crate::engine::delegated::{next_pause, BirthPoll, BirthWindow, SignalDeliveryConfig};
use crate::engine::shutdown_gate::{
    a_closed_gate_only_drains, gate_after_all, GateEvent, ShutdownGate, ShutdownState,
};
use crate::error::{
    is_run_not_found, is_runtime_error, run_name, run_name_text, workflow_not_found, EngineError,
};
use crate::event::{
    Event, Payload, SearchAttribute, TerminalOutcome, WorkflowError, WorkflowStatus,
};
use crate::history::{active_segment, has_started, run_outcome, run_started};
use crate::ids::{uuid_text, RunId, TimerId, WorkflowId};
use crate::lifecycle::completion::{terminal_outcome_from_history, PlannedStart};
use crate::lifecycle::continue_as_new::{
    admit_continue_as_new, admits_continuation, ContinueAsNewRequest, ContinuePhase,
};
use crate::lifecycle::start::StartWorkflowOptions;
use crate::loader::catalog::WorkflowCatalog;
use crate::registry::WorkflowHandle;
use crate::sort::{in_order, lemma_bytes_order, sort, Ordered};
use crate::table::{lemma_entry_map, position_of, Table, TableKey};
use crate::text::{comes_before, concat2, concat3, text_less};
use crate::time::{keys, live_timers, live_timers_in_active_segment};

verus! {

/// The position that the schedule coordinator's recorder resumes at, where its history
/// holds anything.
pub fn catchup_schedule_coordinator(history: &[Event]) -> (head: Option<u64>)
    ensures
        match head {
            Some(head) => head == history@.len() && history@.len() > 0,
            None => history@.len() == 0,
        },
{
    let count: usize = history.len();
    if count > 0 {
        Some(count as u64)
    } else {
        None
    }
}

/// How a fresh workflow is started on behalf of a caller.
pub fn start_options(
    namespace: String,
    search_attributes: Vec<SearchAttribute>,
    workflow_id: Option<WorkflowId>,
    routing_key: Option<String>,
) -> (options: StartWorkflowOptions)
    ensures
        options == (StartWorkflowOptions {
            workflow_id,
            routing_key,
            parent_run_id: None,
            loaded_version: None,
            search_attributes,
            namespace: Some(namespace),
        }),
{
    StartWorkflowOptions {
        workflow_id,
        routing_key,
        parent_run_id: None,
        loaded_version: None,
        search_attributes,
        namespace: Some(namespace),
    }
}

/// What an operation that passes the barrier is answered: once shutdown has begun it is
/// refused and the barrier is left as it is; otherwise it is counted in, and goes on.
pub open spec fn gated(
    before: ShutdownState,
    after: ShutdownState,
    refusal: Option<EngineError>,
) -> bool {
    if before.shutting_down {
        after == before && refusal == Some(EngineError::ShuttingDown)
    } else {
        &&& refusal is None
        &&& after == (ShutdownState {
            active_operations: (before.active_operations + 1) as usize,
            ..before
        })
    }
}

/// The error of a result, where it is one.
pub open spec fn refusal_of<T>(result: Result<T, EngineError>) -> Option<EngineError> {
    match result {
        Ok(_) => None,
        Err(error) => Some(error),
    }
}

/// Begins to start a loaded workflow type on behalf of a caller, under an identifier of
/// its own.
///
/// # Errors
///
/// [`EngineError::ShuttingDown`] once shutdown has begun; nothing is started then.
pub fn start_workflow(
    gate: &mut ShutdownGate,
    workflow_type: &str,
    input: Payload,
    search_attributes: Vec<SearchAttribute>,
    namespace: String,
) -> (result: Result<PlannedStart, EngineError>)
    requires
        old(gate)@.shutting_down || old(gate)@.active_operations < usize::MAX,
    ensures
        gated(old(gate)@, final(gate)@, refusal_of(result)),
        result matches Ok(start) ==> {
            &&& start.workflow_type@ == workflow_type@
            &&& start.input == input
            &&& start.options == (StartWorkflowOptions {
                workflow_id: None,
                routing_key: None,
                parent_run_id: None,
                loaded_version: None,
                search_attributes,
                namespace: Some(namespace),
            })
        },
{
    start_workflow_with_id(gate, workflow_type, input, search_attributes, namespace, None, None)
}

/// Begins to start a loaded workflow type on behalf of a caller, which may choose the
/// workflow's identifier and a routing key.
///
/// # Errors
///
/// [`EngineError::ShuttingDown`] once shutdown has begun; nothing is started then.
pub fn start_workflow_with_id(
    gate: &mut ShutdownGate,
    workflow_type: &str,
    input: Payload,
    search_attributes: Vec<SearchAttribute>,
    namespace: String,
    workflow_id: Option<WorkflowId>,
    routing_key: Option<String>,
) -> (result: Result<PlannedStart, EngineError>)
    requires
        old(gate)@.shutting_down || old(gate)@.active_operations < usize::MAX,
    ensures
        gated(old(gate)@, final(gate)@, refusal_of(result)),
        result matches Ok(start) ==> {
            &&& start.workflow_type@ == workflow_type@
            &&& start.input == input
            &&& start.options == (StartWorkflowOptions {
                workflow_id,
                routing_key,
                parent_run_id: None,
                loaded_version: None,
                search_attributes,
                namespace: Some(namespace),
            })
        },
{
    match gate.begin_start() {
        Ok(()) => Ok(
            PlannedStart {
                workflow_type: workflow_type.to_owned(),
                input,
                options: start_options(namespace, search_attributes, workflow_id, routing_key),
            },
        ),
        Err(error) => Err(error),
    }
}

/// Begins to continue a live run as a new run under the same workflow.
///
/// # Errors
///
/// [`EngineError::ShuttingDown`] once shutdown has begun, and the refusal of
/// [`admit_continue_as_new`]; a refused continuation is counted out again.
pub fn continue_as_new(
    gate: &mut ShutdownGate,
    handle: Option<&WorkflowHandle>,
    catalog: &WorkflowCatalog,
    id: &WorkflowId,
    run: &RunId,
    request: &ContinueAsNewRequest,
) -> (result: Result<ContinuePhase, EngineError>)
    requires
        old(gate)@.shutting_down || old(gate)@.active_operations < usize::MAX,
        catalog.wf(),
    ensures
        if old(gate)@.shutting_down {
            &&& final(gate)@ == old(gate)@
            &&& result == Err::<ContinuePhase, EngineError>(EngineError::ShuttingDown)
        } else {
            let registered = match handle {
                Some(handle) => Some(*handle),
                None => None,
            };
            match result {
                Ok(phase) => {
                    &&& phase is Record
                    &&& admits_continuation(registered, catalog@, *id, *run, *request, Ok(()))
                    &&& final(gate)@.active_operations == old(gate)@.active_operations + 1
                    &&& !final(gate)@.shutting_down
                },
                Err(error) => {
                    &&& admits_continuation(registered, catalog@, *id, *run, *request, Err(error))
                    &&& final(gate)@ == old(gate)@
                },
            }
        },
{
    match gate.begin_operation() {
        Ok(()) => {},
        Err(error) => {
            return Err(error);
        },
    }
    match admit_continue_as_new(handle, catalog, id, run, request) {
        Ok(()) => Ok(ContinuePhase::Record),
        Err(error) => {
            let _idle = gate.finish_operation();
            Err(error)
        },
    }
}

/// What a caller is told of how a run ended.
pub open spec fn tells(
    outcome: TerminalOutcome,
    result: Result<Payload, WorkflowError>,
) -> bool {
    match outcome {
        TerminalOutcome::Completed(payload) => result == Ok::<Payload, WorkflowError>(payload),
        TerminalOutcome::Failed(error) => result == Err::<Payload, WorkflowError>(error),
        TerminalOutcome::Cancelled(reason) => result matches Err(error) && error.details is None
            && error.message@ == "workflow cancelled: "@ + reason@,
        TerminalOutcome::TimedOut(timeout) => result matches Err(error) && error.details is None
            && error.message@ == "workflow timed out: "@ + timeout@,
        TerminalOutcome::ContinuedAsNew { parent_run_id, .. } => result matches Err(error)
            && error.details is None && error.message@ == "workflow continued as new from run "@
            + uuid_text(parent_run_id.value),
    }
}

/// What a caller is told of how a run ended.
pub fn outcome_to_result(outcome: TerminalOutcome) -> (result: Result<Payload, WorkflowError>)
    ensures
        tells(outcome, result),
{
    match outcome {
        TerminalOutcome::Completed(payload) => Ok(payload),
        TerminalOutcome::Failed(error) => Err(error),
        TerminalOutcome::Cancelled(reason) => Err(
            WorkflowError {
                message: concat2("workflow cancelled: ", reason.as_str()),
                details: None,
            },
        ),
        TerminalOutcome::TimedOut(timeout) => Err(
            WorkflowError {
                message: concat2("workflow timed out: ", timeout.as_str()),
                details: None,
            },
        ),
        TerminalOutcome::ContinuedAsNew { parent_run_id, .. } => Err(
            WorkflowError {
                message: concat2(
                    "workflow continued as new from run ",
                    parent_run_id.text().as_str(),
                ),
                details: None,
            },
        ),
    }
}

/// The step of an awaited result to perform next, or how it ended.
#[derive(Debug, PartialEq, Eq)]
pub enum ResultPhase {
    /// Read the workflow's history.
    ReadHistory,
    /// Look the run up in the registry.
    Lookup {
        /// The run is durably started.
        started: bool,
    },
    /// Poll the registry, and pause before the next poll.
    AwaitHandle(BirthWindow),
    /// Wait for the run's outcome to be notified.
    AwaitOutcome(WorkflowHandle),
    /// The notifier is gone: read the history again.
    Reread,
    /// The run has ended, and this is what the caller is told.
    Ended(Result<Payload, WorkflowError>),
    /// The request is refused.
    Refused(EngineError),
}

/// What came of a step of an awaited result.
#[derive(Debug, PartialEq, Eq)]
pub enum ResultReply {
    /// The history was read.
    History(Vec<Event>),
    /// The registry was asked, and this long the request has waited for the handle.
    Looked {
        /// The handle, where there is one.
        found: Option<WorkflowHandle>,
        /// Time since the wait began.
        elapsed: TimeSpan,
    },
    /// The outcome was notified.
    Outcome(TerminalOutcome),
    /// The notifier is gone.
    Closed,
    /// The step failed.
    Failed(EngineError),
}

/// A request for the result of a run.
#[derive(Debug, PartialEq, Eq)]
pub struct ResultRun {
    /// The workflow.
    pub workflow_id: WorkflowId,
    /// The run.
    pub run_id: RunId,
    /// Policy of the wait for the handle.
    pub policy: SignalDeliveryConfig,
    /// The step to perform next, or how the request ended.
    pub phase: ResultPhase,
}

impl ResultRun {
    /// The spans are well formed.
    pub open spec fn wf(self) -> bool {
        &&& self.policy.wf()
        &&& self.phase matches ResultPhase::AwaitHandle(window) ==> window.wf()
    }

    /// The request is refused because there is no such run.
    pub open spec fn not_found(self, after: ResultRun) -> bool {
        &&& after.phase matches ResultPhase::Refused(error)
        &&& is_run_not_found(error, self.workflow_id, self.run_id)
    }

    /// The request ends with what an outcome tells.
    pub open spec fn ends(self, outcome: TerminalOutcome, after: ResultRun) -> bool {
        &&& after.phase matches ResultPhase::Ended(result)
        &&& tells(outcome, result)
    }

    /// What a step leads to. A run that ended is answered from its history; a live one
    /// is waited for.
    pub open spec fn goes_to(self, reply: ResultReply, after: ResultRun) -> bool {
        &&& after == (ResultRun { phase: after.phase, ..self })
        &&& match (self.phase, reply) {
            (ResultPhase::ReadHistory, ResultReply::History(history)) => match run_outcome(
                history@,
                self.run_id,
            ) {
                Some(outcome) => self.ends(outcome, after),
                None => after.phase == ResultPhase::Lookup {
                    started: run_started(history@, self.run_id),
                },
            },
            (ResultPhase::Lookup { started }, ResultReply::Looked { found, .. }) => match found {
                Some(handle) => after.phase == ResultPhase::AwaitOutcome(handle),
                None => if started {
                    &&& after.phase matches ResultPhase::AwaitHandle(window)
                    &&& window.budget.nanoseconds() == self.policy.persistence()
                    &&& window.backoff == self.policy.initial_backoff
                    &&& window.max_backoff == self.policy.max_backoff
                } else {
                    self.not_found(after)
                },
            },
            (ResultPhase::AwaitHandle(window), ResultReply::Looked { found, elapsed }) => {
                match found {
                    Some(handle) => after.phase == ResultPhase::AwaitOutcome(handle),
                    None => if elapsed.nanoseconds() >= window.budget.nanoseconds() {
                        self.not_found(after)
                    } else {
                        &&& after.phase matches ResultPhase::AwaitHandle(later)
                        &&& later.budget == window.budget
                        &&& later.max_backoff == window.max_backoff
                        &&& later.backoff.nanoseconds() == next_pause(
                            window.backoff.nanoseconds(),
                            window.max_backoff.nanoseconds(),
                        )
                    },
                }
            },
            (ResultPhase::AwaitOutcome(_), ResultReply::Outcome(outcome)) => self.ends(
                outcome,
                after,
            ),
            (ResultPhase::AwaitOutcome(_), ResultReply::Closed) => after.phase is Reread,
            (ResultPhase::Reread, ResultReply::History(history)) => match run_outcome(
                history@,
                self.run_id,
            ) {
                Some(outcome) => self.ends(outcome, after),
                None => after.phase matches ResultPhase::Refused(error) && is_runtime_error(
                    error,
                    "completion channel closed before workflow `"@ + run_name(
                        self.workflow_id,
                        self.run_id,
                    ) + "` finished"@,
                ),
            },
            (ResultPhase::ReadHistory, ResultReply::Failed(error))
            | (ResultPhase::Lookup { .. }, ResultReply::Failed(error))
            | (ResultPhase::AwaitHandle(_), ResultReply::Failed(error))
            | (ResultPhase::Reread, ResultReply::Failed(error)) => after.phase
                == ResultPhase::Refused(error),
            _ => after.phase == self.phase,
        }
    }

    /// Begins to await a run's terminal result.
    pub fn result(id: &WorkflowId, run: &RunId, policy: SignalDeliveryConfig) -> (request: Self)
        ensures
            request == (ResultRun {
                workflow_id: *id,
                run_id: *run,
                policy,
                phase: ResultPhase::ReadHistory,
            }),
    {
        ResultRun { workflow_id: *id, run_id: *run, policy, phase: ResultPhase::ReadHistory }
    }

    /// Takes in what came of a step.
    pub fn advance(self, reply: ResultReply) -> (after: Self)
        requires
            self.wf(),
        ensures
            self.goes_to(reply, after),
            after.wf(),
    {
        let ResultRun { workflow_id, run_id, policy, phase } = self;
        let phase = match (phase, reply) {
            (ResultPhase::ReadHistory, ResultReply::History(history)) => {
                match terminal_outcome_from_history(history.as_slice(), &run_id) {
                    Some(outcome) => ResultPhase::Ended(outcome_to_result(outcome)),
                    None => ResultPhase::Lookup {
                        started: has_started(history.as_slice(), &run_id),
                    },
                }
            },
            (ResultPhase::Lookup { started }, ResultReply::Looked { found, .. }) => {
                match found {
                    Some(handle) => ResultPhase::AwaitOutcome(handle),
                    None => {
                        if started {
                            ResultPhase::AwaitHandle(BirthWindow::new(policy))
                        } else {
                            ResultPhase::Refused(workflow_not_found(&workflow_id, &run_id))
                        }
                    },
                }
            },
            (ResultPhase::AwaitHandle(window), ResultReply::Looked { found, elapsed }) => {
                match window.poll(found, elapsed) {
                    BirthPoll::Found(handle) => ResultPhase::AwaitOutcome(handle),
                    BirthPoll::Spent => ResultPhase::Refused(
                        workflow_not_found(&workflow_id, &run_id),
                    ),
                    BirthPoll::Pause { window, .. } => ResultPhase::AwaitHandle(window),
                }
            },
            (ResultPhase::AwaitOutcome(_), ResultReply::Outcome(outcome)) => ResultPhase::Ended(
                outcome_to_result(outcome),
            ),
            (ResultPhase::AwaitOutcome(_), ResultReply::Closed) => ResultPhase::Reread,
            (ResultPhase::Reread, ResultReply::History(history)) => {
                match terminal_outcome_from_history(history.as_slice(), &run_id) {
                    Some(outcome) => ResultPhase::Ended(outcome_to_result(outcome)),
                    None => ResultPhase::Refused(
                        EngineError::Runtime {
                            reason: concat3(
                                "completion channel closed before workflow `",
                                run_name_text(&workflow_id, &run_id).as_str(),
                                "` finished",
                            ),
                        },
                    ),
                }
            },
            (ResultPhase::ReadHistory, ResultReply::Failed(error)) => ResultPhase::Refused(error),
            (ResultPhase::Lookup { .. }, ResultReply::Failed(error)) => ResultPhase::Refused(error),
            (ResultPhase::AwaitHandle(_), ResultReply::Failed(error)) => ResultPhase::Refused(
                error,
            ),
            (ResultPhase::Reread, ResultReply::Failed(error)) => ResultPhase::Refused(error),
            (phase, _) => phase,
        };
        ResultRun { workflow_id, run_id, policy, phase }
    }
}

/// The step of a cancellation to perform next.
#[derive(Clone, Copy, Debug, PartialEq, Eq, Structural)]
pub enum CancelPhase {
    /// Read the history for the timers in flight.
    ListTimers,
    /// Retire the timer.
    RetireTimer {
        /// Position among the timers in flight.
        timer: usize,
    },
    /// Perform the cancel transition.
    Transition,
}

/// What came of a step of a cancellation.
#[derive(Debug, PartialEq, Eq)]
pub enum CancelReply {
    /// The history was read.
    History(Vec<Event>),
    /// The step was performed, or it failed: recovery skips an orphaned timer.
    Settled,
}

/// A cancellation on its way to the cancel transition. The run's in-flight durable timers
/// are retired first, while the run is still registered, so that none is orphaned.
#[derive(Debug, PartialEq, Eq)]
pub struct CancelRun {
    /// The timers in flight, once they are listed.
    pub timers: Vec<TimerId>,
    /// The step to perform next.
    pub phase: CancelPhase,
}

/// The phase that retires the timers from a position on.
pub open spec fn cancelling(count: nat, from: int) -> CancelPhase {
    if from < count {
        CancelPhase::RetireTimer { timer: from as usize }
    } else {
        CancelPhase::Transition
    }
}

impl CancelRun {
    /// The position of the phase is that of a timer.
    pub open spec fn fits(self) -> bool {
        self.phase matches CancelPhase::RetireTimer { timer } ==> timer < self.timers@.len()
    }

    /// What a step leads to. No failure keeps the run from being cancelled.
    pub open spec fn goes_to(self, reply: CancelReply, after: CancelRun) -> bool {
        match (self.phase, reply) {
            (CancelPhase::ListTimers, CancelReply::History(history)) => {
                &&& keys(after.timers@) == live_timers(active_segment(history@))
                &&& after.phase == cancelling(after.timers@.len(), 0)
            },
            (CancelPhase::ListTimers, CancelReply::Settled) => {
                &&& after.timers == self.timers
                &&& after.phase == CancelPhase::Transition
            },
            (CancelPhase::RetireTimer { timer }, CancelReply::Settled) => {
                &&& after.timers == self.timers
                &&& after.phase == cancelling(self.timers@.len(), timer + 1)
            },
            _ => after == self,
        }
    }

    /// Begins to cancel a live run, whichever it is: its timers in flight are retired
    /// before the cancel transition.
    ///
    /// # Errors
    ///
    /// [`EngineError::ShuttingDown`] once shutdown has begun; no step is performed then,
    /// and so nothing is recorded.
    pub fn cancel(gate: &mut ShutdownGate) -> (result: Result<Self, EngineError>)
        requires
            old(gate)@.shutting_down || old(gate)@.active_operations < usize::MAX,
        ensures
            cancel_answers(old(gate)@, final(gate)@, result),
            result matches Ok(run) ==> run.fits(),
    {
        match gate.begin_operation() {
            Ok(()) => Ok(Self::cancel_inflight_timers()),
            Err(error) => Err(error),
        }
    }

    /// Begins to retire the timers in flight.
    pub fn cancel_inflight_timers() -> (run: Self)
        ensures
            run.timers@.len() == 0,
            run.phase == CancelPhase::ListTimers,
            run.fits(),
    {
        CancelRun { timers: Vec::new(), phase: CancelPhase::ListTimers }
    }

    /// Takes in what came of a step.
    pub fn advance(self, reply: CancelReply) -> (after: Self)
        requires
            self.fits(),
        ensures
            self.goes_to(reply, after),
            after.fits(),
    {
        let CancelRun { timers, phase } = self;
        let count: usize = timers.len();
        match (phase, reply) {
            (CancelPhase::ListTimers, CancelReply::History(history)) => {
                let timers = live_timers_in_active_segment(history.as_slice());
                let phase = if timers.len() > 0 {
                    CancelPhase::RetireTimer { timer: 0 }
                } else {
                    CancelPhase::Transition
                };
                CancelRun { timers, phase }
            },
            (CancelPhase::ListTimers, CancelReply::Settled) => CancelRun {
                timers,
                phase: CancelPhase::Transition,
            },
            (CancelPhase::RetireTimer { timer }, CancelReply::Settled) => {
                let phase = if timer + 1 < count {
                    CancelPhase::RetireTimer { timer: timer + 1 }
                } else {
                    CancelPhase::Transition
                };
                CancelRun { timers, phase }
            },
            (phase, _) => CancelRun { timers, phase },
        }
    }
}

/// What a call for a cancellation is answered: a refusal, or a cancellation whose first
/// step is to list the timers in flight.
pub open spec fn cancel_answers(
    before: ShutdownState,
    after: ShutdownState,
    result: Result<CancelRun, EngineError>,
) -> bool {
    &&& gated(before, after, refusal_of(result))
    &&& result matches Ok(run) ==> run.timers@.len() == 0 && run.phase == CancelPhase::ListTimers
}

/// Once the engine is shut down, every call for a cancellation is answered with
/// [`EngineError::ShuttingDown`], whatever happens at the barrier in between: there is no
/// cancellation that could record anything, and the barrier is left as it is.
pub proof fn a_shut_down_engine_cancels_nothing(
    closed: ShutdownState,
    events: Seq<GateEvent>,
    after: ShutdownState,
    result: Result<CancelRun, EngineError>,
)
    requires
        closed.shutting_down,
        cancel_answers(gate_after_all(closed, events), after, result),
    ensures
        result == Err::<CancelRun, EngineError>(EngineError::ShuttingDown),
        after == gate_after_all(closed, events),
{
    a_closed_gate_only_drains(closed, events);
}

/// A course of a cancellation: each follows from the one before it by a reply.
pub open spec fn cancel_course(runs: Seq<CancelRun>, replies: Seq<CancelReply>) -> bool {
    &&& runs.len() == replies.len() + 1
    &&& runs[0].phase is ListTimers
    &&& runs[0].timers@.len() == 0
    &&& forall|i: int|
        0 <= i < replies.len() ==> runs[i].goes_to(#[trigger] replies[i], runs[i + 1])
}

/// Before some point of a course, the retirement of a timer was tried.
pub open spec fn retirement_tried(runs: Seq<CancelRun>, timer: int, point: int) -> bool {
    exists|k: int|
        0 <= k < point && (#[trigger] runs[k]).phase == CancelPhase::RetireTimer {
            timer: timer as usize,
        }
}

/// Timers are retired before the run is cancelled: where a cancellation reaches its
/// transition, the retirement of every timer that was found in flight has been tried.
pub proof fn timers_are_retired_before_the_transition(
    runs: Seq<CancelRun>,
    replies: Seq<CancelReply>,
    point: int,
)
    requires
        cancel_course(runs, replies),
        0 <= point < runs.len(),
        forall|i: int| 0 <= i < runs.len() ==> (#[trigger] runs[i]).timers@.len() <= usize::MAX,
    ensures
        runs[point].phase is ListTimers ==> runs[point].timers@.len() == 0,
        runs[point].phase is Transition ==> forall|timer: int|
            0 <= timer < runs[point].timers@.len() ==> #[trigger] retirement_tried(
                runs,
                timer,
                point,
            ),
        runs[point].phase matches CancelPhase::RetireTimer { timer: at } ==> at
            < runs[point].timers@.len() && forall|timer: int|
            0 <= timer < at ==> #[trigger] retirement_tried(runs, timer, point),
    decreases point,
{
    if point > 0 {
        timers_are_retired_before_the_transition(runs, replies, point - 1);
        let prior = runs[point - 1];
        let last = runs[point];
        assert(prior.goes_to(replies[point - 1], last));
        assert(last.timers@.len() <= usize::MAX);
        assert forall|timer: int| #[trigger] retirement_tried(runs, timer, point - 1) implies
            retirement_tried(runs, timer, point) by {
            let k = choose|k: int|
                0 <= k < point - 1 && (#[trigger] runs[k]).phase == CancelPhase::RetireTimer {
                    timer: timer as usize,
                };
            assert(runs[k].phase is RetireTimer);
        }
        match prior.phase {
            CancelPhase::RetireTimer { timer: at } => {
                assert(runs[point - 1].phase is RetireTimer);
                assert(retirement_tried(runs, at as int, point));
                assert forall|timer: int|
                    0 <= timer < at + 1 implies #[trigger] retirement_tried(runs, timer, point) by {
                    if timer < at {
                        assert(retirement_tried(runs, timer, point - 1));
                    }
                }
            },
            CancelPhase::Transition => {
                assert(last.phase == prior.phase);
                assert forall|timer: int|
                    0 <= timer < last.timers@.len() implies #[trigger] retirement_tried(
                    runs,
                    timer,
                    point,
                ) by {
                    assert(retirement_tried(runs, timer, point - 1));
                }
            },
            _ => {},
        }
    }
}

/// What the engine lists of a workflow.
#[derive(Debug, PartialEq, Eq)]
pub struct WorkflowSummary {
    /// The workflow.
    pub workflow_id: WorkflowId,
    /// Logical workflow type.
    pub workflow_type: String,
    /// Projected status.
    pub status: WorkflowStatus,
    /// When it started.
    pub started_at: Timestamp,
}

impl Clone for WorkflowSummary {
    fn clone(&self) -> (copy: Self)
        ensures
            copy == *self,
    {
        WorkflowSummary {
            workflow_id: self.workflow_id,
            workflow_type: self.workflow_type.clone(),
            status: self.status,
            started_at: self.started_at,
        }
    }
}

/// One summary is listed strictly before another: by its start, then by the text of its
/// identifier.
pub open spec fn summary_before(a: WorkflowSummary, b: WorkflowSummary) -> bool {
    if earlier(a.started_at, b.started_at) {
        true
    } else if earlier(b.started_at, a.started_at) {
        false
    } else {
        text_less(uuid_text(a.workflow_id.value), uuid_text(b.workflow_id.value))
    }
}

impl Ordered for WorkflowSummary {
    open spec fn may_precede(&self, other: &Self) -> bool {
        !summary_before(*other, *self)
    }

    proof fn order_is_total(a: &Self, b: &Self) {
        let (ta, tb) = (
            encode_utf8(uuid_text(a.workflow_id.value)),
            encode_utf8(uuid_text(b.workflow_id.value)),
        );
        lemma_bytes_order(ta, tb, tb);
    }

    proof fn order_is_transitive(a: &Self, b: &Self, c: &Self) {
        let (ta, tb, tc) = (
            encode_utf8(uuid_text(a.workflow_id.value)),
            encode_utf8(uuid_text(b.workflow_id.value)),
            encode_utf8(uuid_text(c.workflow_id.value)),
        );
        lemma_bytes_order(ta, tb, tc);
    }

    fn precedes(&self, other: &Self) -> (precedes: bool) {
        if self.started_at.is_after(&other.started_at) {
            false
        } else if other.started_at.is_after(&self.started_at) {
            true
        } else {
            let own = self.workflow_id.text();
            let theirs = other.workflow_id.text();
            !comes_before(theirs.as_str(), own.as_str())
        }
    }
}

impl View for WorkflowId {
    type V = WorkflowId;

    open spec fn view(&self) -> WorkflowId {
        *self
    }
}

impl TableKey for WorkflowId {
    fn same(&self, other: &Self) -> (same: bool) {
        *self == *other
    }
}

/// The summaries by workflow, a later one replacing an earlier one.
pub open spec fn by_workflow(summaries: Seq<WorkflowSummary>) -> Map<WorkflowId, WorkflowSummary>
    decreases summaries.len(),
{
    if summaries.len() == 0 {
        Map::empty()
    } else {
        by_workflow(summaries.drop_last()).insert(summaries.last().workflow_id, summaries.last())
    }
}

/// A listing shows every workflow of a map once.
pub open spec fn lists_each_once(
    listed: Seq<WorkflowSummary>,
    all: Map<WorkflowId, WorkflowSummary>,
) -> bool {
    &&& forall|i: int|
        0 <= i < listed.len() ==> all.contains_key((#[trigger] listed[i]).workflow_id)
            && all[listed[i].workflow_id] == listed[i]
    &&& forall|id: WorkflowId| #[trigger]
        all.contains_key(id) ==> exists|i: int|
            0 <= i < listed.len() && (#[trigger] listed[i]).workflow_id == id
    &&& forall|i: int, j: int|
        0 <= i < j < listed.len() ==> (#[trigger] listed[i]).workflow_id != (
        #[trigger] listed[j]).workflow_id
}

/// A rearranged listing shows the same workflows.
proof fn lemma_rearranged(
    before: Seq<WorkflowSummary>,
    after: Seq<WorkflowSummary>,
    all: Map<WorkflowId, WorkflowSummary>,
)
    requires
        lists_each_once(before, all),
        after.to_multiset() == before.to_multiset(),
    ensures
        lists_each_once(after, all),
{
    before.to_multiset_ensures();
    after.to_multiset_ensures();
    assert(before.no_duplicates()) by {
        assert forall|i: int, j: int| 0 <= i < j < before.len() implies before[i] != before[j] by {
            assert(before[i].workflow_id != before[j].workflow_id);
        }
    }
    before.lemma_multiset_has_no_duplicates();
    after.lemma_multiset_has_no_duplicates_conv();
    assert forall|i: int| 0 <= i < after.len() implies all.contains_key(
        (#[trigger] after[i]).workflow_id,
    ) && all[after[i].workflow_id] == after[i] by {
        assert(after.contains(after[i]));
        assert(before.to_multiset().count(after[i]) > 0);
        assert(before.contains(after[i]));
        let m = choose|m: int| 0 <= m < before.len() && before[m] == after[i];
        assert(all.contains_key(before[m].workflow_id));
    }
    assert forall|id: WorkflowId| #[trigger] all.contains_key(id) implies exists|i: int|
        0 <= i < after.len() && (#[trigger] after[i]).workflow_id == id by {
        let m = choose|m: int| 0 <= m < before.len() && (#[trigger] before[m]).workflow_id == id;
        assert(before.contains(before[m]));
        assert(after.to_multiset().count(before[m]) > 0);
        assert(after.contains(before[m]));
        let i = choose|i: int| 0 <= i < after.len() && after[i] == before[m];
        assert(after[i].workflow_id == id);
    }
    assert forall|i: int, j: int| 0 <= i < j < after.len() implies (#[trigger] after[i]).workflow_id
        != (#[trigger] after[j]).workflow_id by {
        if after[i].workflow_id == after[j].workflow_id {
            assert(after[i] == all[after[i].workflow_id]);
            assert(after[j] == all[after[j].workflow_id]);
            assert(after[i] == after[j]);
        }
    }
}

/// Puts summaries in a table, a later one replacing an earlier one.
fn collect(table: &mut Table<WorkflowId, WorkflowSummary>, summaries: &Vec<WorkflowSummary>)
    requires
        old(table).wf(),
    ensures
        final(table).wf(),
        forall|before: Seq<WorkflowSummary>|
            old(table)@ == #[trigger] by_workflow(before) ==> final(table)@ == by_workflow(
                before + summaries@,
            ),
{
    let ghost base = table@;
    let mut i: usize = 0;
    proof {
        assert forall|before: Seq<WorkflowSummary>|
            base == #[trigger] by_workflow(before) implies table@ == by_workflow(
            before + summaries@.take(0),
        ) by {
            assert(before + summaries@.take(0) =~= before);
        }
    }
    while i < summaries.len()
        invariant
            table.wf(),
            0 <= i <= summaries@.len(),
            forall|before: Seq<WorkflowSummary>|
                base == #[trigger] by_workflow(before) ==> table@ == by_workflow(
                    before + summaries@.take(i as int),
                ),
        decreases summaries.len() - i,
    {
        let summary = summaries[i].clone();
        let ghost held = table@;
        table.insert(summary.workflow_id, summary);
        proof {
            assert forall|before: Seq<WorkflowSummary>|
                base == #[trigger] by_workflow(before) implies table@ == by_workflow(
                before + summaries@.take(i + 1),
            ) by {
                let longer = before + summaries@.take(i + 1);
                assert(longer.drop_last() =~= before + summaries@.take(i as int));
                assert(longer.last() == summaries@[i as int]);
                assert(held == by_workflow(before + summaries@.take(i as int)));
            }
        }
        i = i + 1;
    }
    proof {
        assert(summaries@.take(i as int) =~= summaries@);
    }
}

/// Lists stored and live workflow summaries: each workflow once, a live one in place of
/// its stored projection, sorted by start and then by identifier.
///
/// The given summaries are those that match the caller's filter.
pub fn list_workflows(stored: &Vec<WorkflowSummary>, live: &Vec<WorkflowSummary>) -> (listed: Vec<
    WorkflowSummary,
>)
    ensures
        in_order(listed@),
        lists_each_once(listed@, by_workflow(stored@ + live@)),
{
    let mut table: Table<WorkflowId, WorkflowSummary> = Table::new();
    proof {
        assert(table@ =~= by_workflow(Seq::empty()));
    }
    collect(&mut table, stored);
    proof {
        assert(Seq::<WorkflowSummary>::empty() + stored@ =~= stored@);
    }
    collect(&mut table, live);
    let ghost all = by_workflow(stored@ + live@);
    let ghost entries = table.entries();
    proof {
        assert(table@ == all);
        lemma_entry_map(entries);
        lemma_keyed(stored@ + live@);
    }
    let mut values: Vec<WorkflowSummary> = Vec::new();
    let mut i: usize = 0;
    while i < table.len()
        invariant
            table.wf(),
            entries == table.entries(),
            0 <= i <= entries.len(),
            values@.len() == i,
            forall|j: int| 0 <= j < i ==> #[trigger] values@[j] == entries[j].1,
        decreases entries.len() - i,
    {
        values.push(table.entry(i).1.clone());
        i = i + 1;
    }
    proof {
        assert forall|j: int| 0 <= j < values@.len() implies all.contains_key(
            (#[trigger] values@[j]).workflow_id,
        ) && all[values@[j].workflow_id] == values@[j] && values@[j].workflow_id
            == entries[j].0@ by {
            assert(table@.contains_key(entries[j].0@));
            assert(all[entries[j].0@] == entries[j].1);
        }
        assert forall|id: WorkflowId| #[trigger] all.contains_key(id) implies exists|j: int|
            0 <= j < values@.len() && (#[trigger] values@[j]).workflow_id == id by {
            let p = position_of(entries, id);
            assert(entries[p].0@ == id);
            assert(values@[p].workflow_id == id);
        }
        assert forall|j: int, k: int| 0 <= j < k < values@.len() implies (
        #[trigger] values@[j]).workflow_id != (#[trigger] values@[k]).workflow_id by {
            assert(entries[j].0@ != entries[k].0@);
        }
    }
    let ghost unsorted = values@;
    let listed = sort(values);
    proof {
        lemma_rearranged(unsorted, listed@, all);
    }
    listed
}

/// Each workflow is kept under its own identifier.
proof fn lemma_keyed(summaries: Seq<WorkflowSummary>)
    ensures
        forall|id: WorkflowId| #[trigger]
            by_workflow(summaries).contains_key(id) ==> by_workflow(summaries)[id].workflow_id
                == id,
    decreases summaries.len(),
{
    if summaries.len() > 0 {
        lemma_keyed(summaries.drop_last());
    }
}

/// A workflow that is listed live is shown as it is live, whatever the store projects.
pub proof fn live_summaries_win(
    stored: Seq<WorkflowSummary>,
    live: Seq<WorkflowSummary>,
    i: int,
)
    requires
        0 <= i < live.len(),
        forall|j: int|
            i < j < live.len() ==> (#[trigger] live[j]).workflow_id != live[i].workflow_id,
    ensures
        by_workflow(stored + live).contains_key(live[i].workflow_id),
        by_workflow(stored + live)[live[i].workflow_id] == live[i],
    decreases live.len(),
{
    let all = stored + live;
    assert(all.last() == live.last());
    assert(all.drop_last() =~= stored + live.drop_last());
    if i < live.len() - 1 {
        let shorter = live.drop_last();
        assert forall|j: int| i < j < shorter.len() implies (#[trigger] shorter[j]).workflow_id
            != shorter[i].workflow_id by {
            assert(shorter[j] == live[j]);
        }
        live_summaries_win(stored, shorter, i);
        assert(live[live.len() - 1].workflow_id != live[i].workflow_id);
    }
}

/// The step of a shard adoption to perform next, or how it ended.
#[derive(Debug, PartialEq, Eq)]
pub enum AdoptPhase {
    /// Drive the double-adoption fence.
    Fence,
    /// Bring back the workflows of the shards that survived it.
    Recover,
    /// Recover timers.
    RecoverTimers,
    /// The shards are adopted.
    Adopted,
    /// The adoption failed.
    Failed(EngineError),
}

impl AdoptPhase {
    /// The phase after a step: nothing is recovered before the fence.
    pub open spec fn after(self, reply: Result<(), EngineError>) -> AdoptPhase {
        match (self, reply) {
            (AdoptPhase::Fence, Ok(_)) => AdoptPhase::Recover,
            (AdoptPhase::Recover, Ok(_)) => AdoptPhase::RecoverTimers,
            (AdoptPhase::RecoverTimers, Ok(_)) => AdoptPhase::Adopted,
            (AdoptPhase::Fence, Err(error))
            | (AdoptPhase::Recover, Err(error))
            | (AdoptPhase::RecoverTimers, Err(error)) => AdoptPhase::Failed(error),
            (phase, _) => phase,
        }
    }

    /// Begins to adopt shards.
    ///
    /// # Errors
    ///
    /// [`EngineError::ShuttingDown`] once shutdown has begun; no shard is fenced then.
    pub fn adopt_shards(gate: &mut ShutdownGate) -> (result: Result<Self, EngineError>)
        requires
            old(gate)@.shutting_down || old(gate)@.active_operations < usize::MAX,
        ensures
            gated(old(gate)@, final(gate)@, refusal_of(result)),
            result matches Ok(phase) ==> phase is Fence,
    {
        match gate.begin_start() {
            Ok(()) => Ok(AdoptPhase::Fence),
            Err(error) => Err(error),
        }
    }

    /// Takes in what came of a step.
    pub fn advance(self, reply: Result<(), EngineError>) -> (phase: Self)
        ensures
            phase == self.after(reply),
    {
        match (self, reply) {
            (AdoptPhase::Fence, Ok(())) => AdoptPhase::Recover,
            (AdoptPhase::Recover, Ok(())) => AdoptPhase::RecoverTimers,
            (AdoptPhase::RecoverTimers, Ok(())) => AdoptPhase::Adopted,
            (AdoptPhase::Fence, Err(error)) => AdoptPhase::Failed(error),
            (AdoptPhase::Recover, Err(error)) => AdoptPhase::Failed(error),
            (AdoptPhase::RecoverTimers, Err(error)) => AdoptPhase::Failed(error),
            (phase, _) => phase,
        }
    }
}

/// The step of a shutdown to perform next, or how it ended.
#[derive(Debug, PartialEq, Eq)]
pub enum ShutdownPhase {
    /// Stop the periodic visibility reconciliation.
    StopReconciliation,
    /// Close the shutdown barrier and wait until operations in flight have finished.
    CloseGate,
    /// Stop the runtime.
    StopRuntime,
    /// Abort and await the engine-side child tasks.
    StopChildTasks,
    /// The engine is shut down.
    ShutDown,
    /// The shutdown failed.
    Failed(EngineError),
}

impl ShutdownPhase {
    /// The phase after a step: the runtime is stopped only once the barrier has drained,
    /// and child tasks only once the runtime can arm no new one.
    pub open spec fn after(self, reply: Result<(), EngineError>) -> ShutdownPhase {
        match (self, reply) {
            (ShutdownPhase::StopReconciliation, _) => ShutdownPhase::CloseGate,
            (ShutdownPhase::CloseGate, Ok(_)) => ShutdownPhase::StopRuntime,
            (ShutdownPhase::StopRuntime, Ok(_)) => ShutdownPhase::StopChildTasks,
            (ShutdownPhase::StopChildTasks, _) => ShutdownPhase::ShutDown,
            (ShutdownPhase::CloseGate, Err(error)) | (ShutdownPhase::StopRuntime, Err(error)) => {
                ShutdownPhase::Failed(error)
            },
            (phase, _) => phase,
        }
    }

    /// Takes in what came of a step.
    pub fn advance(self, reply: Result<(), EngineError>) -> (phase: Self)
        ensures
            phase == self.after(reply),
    {
        match (self, reply) {
            (ShutdownPhase::StopReconciliation, _) => ShutdownPhase::CloseGate,
            (ShutdownPhase::CloseGate, Ok(())) => ShutdownPhase::StopRuntime,
            (ShutdownPhase::StopRuntime, Ok(())) => ShutdownPhase::StopChildTasks,
            (ShutdownPhase::StopChildTasks, _) => ShutdownPhase::ShutDown,
            (ShutdownPhase::CloseGate, Err(error)) => ShutdownPhase::Failed(error),
            (ShutdownPhase::StopRuntime, Err(error)) => ShutdownPhase::Failed(error),
            (phase, _) => phase,
        }
    }
}

/// A course of a shutdown: each phase follows from the one before it by a reply.
pub open spec fn shutdown_course(
    phases: Seq<ShutdownPhase>,
    replies: Seq<Result<(), EngineError>>,
) -> bool {
    &&& phases.len() == replies.len() + 1
    &&& phases[0] is StopReconciliation
    &&& forall|i: int|
        0 <= i < replies.len() ==> phases[i + 1] == phases[i].after(#[trigger] replies[i])
}

/// Before some point of a shutdown, the step of a phase succeeded.
pub open spec fn stopped_before(
    phases: Seq<ShutdownPhase>,
    replies: Seq<Result<(), EngineError>>,
    phase: ShutdownPhase,
    point: int,
) -> bool {
    exists|i: int| 0 <= i < point && phases[i] == phase && (#[trigger] replies[i]) is Ok
}

/// What a shutdown has behind it at some point.
proof fn lemma_shut_down_in_order(
    phases: Seq<ShutdownPhase>,
    replies: Seq<Result<(), EngineError>>,
    point: int,
)
    requires
        shutdown_course(phases, replies),
        0 <= point <= replies.len(),
    ensures
        phases[point] is StopRuntime || phases[point] is StopChildTasks || phases[point] is ShutDown
            ==> stopped_before(phases, replies, ShutdownPhase::CloseGate, point),
        phases[point] is StopChildTasks || phases[point] is ShutDown ==> stopped_before(
            phases,
            replies,
            ShutdownPhase::StopRuntime,
            point,
        ),
    decreases point,
{
    if point > 0 {
        let before = point - 1;
        lemma_shut_down_in_order(phases, replies, before);
        assert(phases[before + 1] == phases[before].after(replies[before]));
    }
}

/// The runtime is stopped only after the operations in flight have finished, and child
/// tasks are stopped only after the runtime, which could arm new ones.
pub proof fn the_runtime_outlives_operations_in_flight(
    phases: Seq<ShutdownPhase>,
    replies: Seq<Result<(), EngineError>>,
)
    requires
        shutdown_course(phases, replies),
    ensures
        phases.last() is StopRuntime ==> stopped_before(
            phases,
            replies,
            ShutdownPhase::CloseGate,
            replies.len() as int,
        ),
        phases.last() is StopChildTasks || phases.last() is ShutDown ==> stopped_before(
            phases,
            replies,
            ShutdownPhase::StopRuntime,
            replies.len() as int,
        ),
{
    lemma_shut_down_in_order(phases, replies, replies.len() as int);
}

} // verus!
