//! Complete, fail and cancel transitions.

use vstd::prelude::*;

use crate::error::{is_run_not_found, workflow_not_found, EngineError};
use crate::event::{Event, Payload, TerminalOutcome, WorkflowError};
use crate::history::run_outcome;
use crate::ids::{RunId, WorkflowId};
use crate::lifecycle::completion::terminal_outcome_from_history;
use crate::registry::{Registry, RunKey, WorkflowHandle};

verus! {

/// What a terminal transition reads of the engine.
pub struct TerminateWorkflowContext<'a> {
    /// Active execution registry keyed by workflow/run identifiers.
    pub registry: &'a Registry,
}

/// The step of a terminal transition to perform next, or how it ended.
#[derive(Debug, PartialEq, Eq)]
pub enum TerminatePhase {
    /// Take the run's recorder and read its history again.
    Recheck,
    /// Record the terminal event under the recorder lock.
    Record,
    /// Kill the run's process, and with it its linked children.
    Kill,
    /// Bring the visibility projection up to date.
    UpsertVisibility,
    /// Notify everyone who awaits the run's outcome.
    Notify,
    /// Remove the run from the registry.
    Deregister,
    /// The run has ended.
    Ended,
    /// The transition lost: the run had ended before.
    Lost,
    /// The transition failed.
    Failed(EngineError),
}

/// A terminal transition on its way.
#[derive(Debug, PartialEq, Eq)]
pub struct TerminateRun {
    /// The run that ends.
    pub handle: WorkflowHandle,
    /// How it ends.
    pub outcome: TerminalOutcome,
    /// The step to perform next, or how the transition ended.
    pub phase: TerminatePhase,
}

/// The registered handle of a run.
///
/// # Errors
///
/// [`EngineError::WorkflowNotFound`] when the `(workflow, run)` pair is not registered.
pub fn registered_handle(registry: &Registry, id: &WorkflowId, run: &RunId) -> (result: Result<
    WorkflowHandle,
    EngineError,
>)
    requires
        registry.wf(),
    ensures
        ({
            let key = RunKey { workflow_id: *id, run_id: *run };
            match result {
                Ok(handle) => registry@.contains_key(key) && handle == registry@[key],
                Err(error) => !registry@.contains_key(key) && is_run_not_found(error, *id, *run),
            }
        }),
{
    match registry.get(id, run) {
        Some(handle) => Ok(handle),
        None => Err(workflow_not_found(id, run)),
    }
}

/// A transition begins on the registered handle, or the run is not found.
pub open spec fn begins_transition(
    registry: Map<RunKey, WorkflowHandle>,
    id: WorkflowId,
    run: RunId,
    outcome: TerminalOutcome,
    phase: TerminatePhase,
    result: Result<TerminateRun, EngineError>,
) -> bool {
    let key = RunKey { workflow_id: id, run_id: run };
    match result {
        Ok(transition) => {
            &&& registry.contains_key(key)
            &&& transition == (TerminateRun { handle: registry[key], outcome, phase })
        },
        Err(error) => !registry.contains_key(key) && is_run_not_found(error, id, run),
    }
}

/// Completes a live workflow run with its terminal result payload.
///
/// # Errors
///
/// [`EngineError::WorkflowNotFound`] when the `(workflow, run)` pair is not registered.
pub fn complete(
    context: TerminateWorkflowContext,
    id: &WorkflowId,
    run: &RunId,
    result: Payload,
) -> (transition: Result<TerminateRun, EngineError>)
    requires
        context.registry.wf(),
    ensures
        begins_transition(
            context.registry@,
            *id,
            *run,
            TerminalOutcome::Completed(result),
            TerminatePhase::Record,
            transition,
        ),
{
    match registered_handle(context.registry, id, run) {
        Ok(handle) => Ok(
            TerminateRun {
                handle,
                outcome: TerminalOutcome::Completed(result),
                phase: TerminatePhase::Record,
            },
        ),
        Err(error) => Err(error),
    }
}

/// Fails a live workflow run with its terminal workflow error.
///
/// # Errors
///
/// [`EngineError::WorkflowNotFound`] when the `(workflow, run)` pair is not registered.
pub fn fail(
    context: TerminateWorkflowContext,
    id: &WorkflowId,
    run: &RunId,
    error: WorkflowError,
) -> (transition: Result<TerminateRun, EngineError>)
    requires
        context.registry.wf(),
    ensures
        begins_transition(
            context.registry@,
            *id,
            *run,
            TerminalOutcome::Failed(error),
            TerminatePhase::Record,
            transition,
        ),
{
    match registered_handle(context.registry, id, run) {
        Ok(handle) => Ok(
            TerminateRun {
                handle,
                outcome: TerminalOutcome::Failed(error),
                phase: TerminatePhase::Record,
            },
        ),
        Err(error) => Err(error),
    }
}

/// Cancels a live workflow run; killing its process tears down any linked activity
/// children.
///
/// # Errors
///
/// [`EngineError::WorkflowNotFound`] when the `(workflow, run)` pair is not registered.
pub fn cancel(
    context: TerminateWorkflowContext,
    id: &WorkflowId,
    run: &RunId,
    reason: String,
) -> (transition: Result<TerminateRun, EngineError>)
    requires
        context.registry.wf(),
    ensures
        begins_transition(
            context.registry@,
            *id,
            *run,
            TerminalOutcome::Cancelled(reason),
            TerminatePhase::Recheck,
            transition,
        ),
{
    match registered_handle(context.registry, id, run) {
        Ok(handle) => Ok(
            TerminateRun {
                handle,
                outcome: TerminalOutcome::Cancelled(reason),
                phase: TerminatePhase::Recheck,
            },
        ),
        Err(error) => Err(error),
    }
}

impl TerminateRun {
    /// A cancellation under the recorder lock: it goes on only where the run has not
    /// ended.
    pub open spec fn rechecked(self, history: Seq<Event>) -> TerminatePhase {
        if self.phase is Recheck {
            if run_outcome(history, self.handle.run_id) is Some {
                TerminatePhase::Lost
            } else {
                TerminatePhase::Record
            }
        } else {
            self.phase
        }
    }

    /// The phase after a step. A cancellation kills the process and refreshes the
    /// projection between the record and the notification.
    pub open spec fn after(self, reply: Result<(), EngineError>) -> TerminatePhase {
        match (self.phase, reply) {
            (TerminatePhase::Record, Ok(_)) => if self.outcome is Cancelled {
                TerminatePhase::Kill
            } else {
                TerminatePhase::Notify
            },
            (TerminatePhase::Kill, Ok(_)) => TerminatePhase::UpsertVisibility,
            (TerminatePhase::UpsertVisibility, Ok(_)) => TerminatePhase::Notify,
            (TerminatePhase::Notify, _) => TerminatePhase::Deregister,
            (TerminatePhase::Deregister, Ok(_)) => TerminatePhase::Ended,
            (TerminatePhase::Recheck, Err(error))
            | (TerminatePhase::Record, Err(error))
            | (TerminatePhase::Kill, Err(error))
            | (TerminatePhase::UpsertVisibility, Err(error))
            | (TerminatePhase::Deregister, Err(error)) => TerminatePhase::Failed(error),
            (phase, _) => phase,
        }
    }

    /// Takes in the history as it is under the recorder lock. The lock has to be held
    /// until the terminal event is recorded, so that a run ends only once.
    pub fn recheck(self, history: &[Event]) -> (transition: Self)
        ensures
            transition == (TerminateRun { phase: self.rechecked(history@), ..self }),
    {
        let TerminateRun { handle, outcome, phase } = self;
        let phase = match phase {
            TerminatePhase::Recheck => {
                match terminal_outcome_from_history(history, &handle.run_id) {
                    Some(_) => TerminatePhase::Lost,
                    None => TerminatePhase::Record,
                }
            },
            phase => phase,
        };
        TerminateRun { handle, outcome, phase }
    }

    /// Takes in what came of a step.
    pub fn advance(self, reply: Result<(), EngineError>) -> (transition: Self)
        ensures
            transition == (TerminateRun { phase: self.after(reply), ..self }),
    {
        let TerminateRun { handle, outcome, phase } = self;
        let phase = match (phase, reply) {
            (TerminatePhase::Record, Ok(())) => {
                match &outcome {
                    TerminalOutcome::Cancelled(_) => TerminatePhase::Kill,
                    _ => TerminatePhase::Notify,
                }
            },
            (TerminatePhase::Kill, Ok(())) => TerminatePhase::UpsertVisibility,
            (TerminatePhase::UpsertVisibility, Ok(())) => TerminatePhase::Notify,
            (TerminatePhase::Notify, _) => TerminatePhase::Deregister,
            (TerminatePhase::Deregister, Ok(())) => TerminatePhase::Ended,
            (TerminatePhase::Recheck, Err(error)) => TerminatePhase::Failed(error),
            (TerminatePhase::Record, Err(error)) => TerminatePhase::Failed(error),
            (TerminatePhase::Kill, Err(error)) => TerminatePhase::Failed(error),
            (TerminatePhase::UpsertVisibility, Err(error)) => TerminatePhase::Failed(error),
            (TerminatePhase::Deregister, Err(error)) => TerminatePhase::Failed(error),
            (phase, _) => phase,
        };
        TerminateRun { handle, outcome, phase }
    }
}

/// What a transition takes in.
pub enum TerminateStep {
    /// The history, read again under the recorder lock.
    Rechecked(Seq<Event>),
    /// What came of a step.
    Performed(Result<(), EngineError>),
}

impl TerminateRun {
    /// The transition after it has taken something in.
    pub open spec fn stepped(self, step: TerminateStep) -> TerminateRun {
        match step {
            TerminateStep::Rechecked(history) => TerminateRun {
                phase: self.rechecked(history),
                ..self
            },
            TerminateStep::Performed(reply) => TerminateRun { phase: self.after(reply), ..self },
        }
    }
}

/// A course of a transition: each follows from the one before it by a step.
pub open spec fn terminate_course(runs: Seq<TerminateRun>, steps: Seq<TerminateStep>) -> bool {
    &&& runs.len() == steps.len() + 1
    &&& runs[0].phase is Recheck || runs[0].phase is Record
    &&& forall|i: int|
        0 <= i < steps.len() ==> runs[i + 1] == runs[i].stepped(#[trigger] steps[i])
}

/// Before some point of a course, a step that began in a phase was performed.
pub open spec fn performed_before(
    runs: Seq<TerminateRun>,
    steps: Seq<TerminateStep>,
    phase: TerminatePhase,
    point: int,
) -> bool {
    exists|i: int|
        0 <= i < point && runs[i].phase == phase && (#[trigger] steps[i]) is Performed
            && (phase is Record ==> steps[i]->Performed_0 is Ok)
}

/// What a course has behind it at some point.
proof fn lemma_ended_in_order(runs: Seq<TerminateRun>, steps: Seq<TerminateStep>, point: int)
    requires
        terminate_course(runs, steps),
        0 <= point <= steps.len(),
    ensures
        runs[point].phase is Kill || runs[point].phase is UpsertVisibility || runs[point].phase
            is Notify || runs[point].phase is Deregister || runs[point].phase is Ended
            ==> performed_before(runs, steps, TerminatePhase::Record, point),
        runs[point].phase is Deregister || runs[point].phase is Ended ==> performed_before(
            runs,
            steps,
            TerminatePhase::Notify,
            point,
        ),
    decreases point,
{
    if point > 0 {
        let before = point - 1;
        lemma_ended_in_order(runs, steps, before);
        assert(runs[before + 1] == runs[before].stepped(steps[before]));
    }
}

/// A run is announced as ended only after its terminal event is recorded, and it is let
/// go only after it was announced.
pub proof fn a_run_is_let_go_only_after_it_ended(
    runs: Seq<TerminateRun>,
    steps: Seq<TerminateStep>,
)
    requires
        terminate_course(runs, steps),
    ensures
        runs.last().phase is Notify || runs.last().phase is Deregister || runs.last().phase is Ended
            ==> performed_before(runs, steps, TerminatePhase::Record, steps.len() as int),
        runs.last().phase is Deregister || runs.last().phase is Ended ==> performed_before(
            runs,
            steps,
            TerminatePhase::Notify,
            steps.len() as int,
        ),
{
    lemma_ended_in_order(runs, steps, steps.len() as int);
}

} // verus!
