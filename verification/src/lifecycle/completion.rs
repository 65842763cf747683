//! Process-exit completion handling.

use vstd::prelude::*;
use vstd::string::*;

use crate::error::EngineError;
use crate::event::{clone_optional_text, Event, Payload, TerminalOutcome, WorkflowError};
use crate::history::{
    current_lease_terminal, run_outcome, run_segment, segment_of, status_of, successor_started,
    successor_started_in, terminal_outcome,
};
use crate::ids::{RunId, WorkflowId};
use crate::lifecycle::start::StartWorkflowOptions;
use crate::registry::{Registry, Residency, RunKey, WorkflowHandle};
use crate::text::concat2;

verus! {

/// How a workflow process ended.
#[derive(Debug, PartialEq, Eq)]
pub enum WorkflowProcessOutcome {
    /// With a result.
    Completed(Payload),
    /// With an error.
    Failed(WorkflowError),
}

/// How a run has ended according to durable history, if it has.
///
/// A reopen after a terminal event supersedes it, so a reopened run reports no
/// outcome until it ends again.
pub fn terminal_outcome_from_history(events: &[Event], run_id: &RunId) -> (outcome: Option<
    TerminalOutcome,
>)
    ensures
        outcome == run_outcome(events@, *run_id),
{
    match current_lease_terminal(run_segment(events, run_id)) {
        Some(event) => {
            match event {
                Event::WorkflowContinuedAsNew { parent_run_id, .. } => {
                    if *parent_run_id == *run_id {
                        terminal_outcome(event)
                    } else {
                        None
                    }
                },
                _ => terminal_outcome(event),
            }
        },
        None => None,
    }
}

/// What a process exit makes of a run.
#[derive(Debug, PartialEq, Eq)]
pub enum ExitDecision {
    /// The run had already ended.
    Existing(TerminalOutcome),
    /// The run ends now, and this is to be recorded.
    Record(TerminalOutcome),
}

/// The outcome that a process exit records: its own, or a failure of its monitor.
pub open spec fn exit_outcome(
    exit: Result<WorkflowProcessOutcome, EngineError>,
    outcome: TerminalOutcome,
) -> bool {
    match exit {
        Ok(WorkflowProcessOutcome::Completed(result)) => outcome == TerminalOutcome::Completed(
            result,
        ),
        Ok(WorkflowProcessOutcome::Failed(error)) => outcome == TerminalOutcome::Failed(error),
        Err(error) => {
            &&& outcome matches TerminalOutcome::Failed(failure)
            &&& failure.message@ == "workflow process monitor failed: "@ + error.describes()
            &&& failure.details is None
        },
    }
}

/// Decides what a process exit records. To be asked under the run's recorder lock, with
/// the history as it is then: a concurrent transition records through the same
/// recorder, and a run ends only once.
pub fn decide_exit(
    history: &[Event],
    run_id: &RunId,
    exit: Result<WorkflowProcessOutcome, EngineError>,
) -> (decision: ExitDecision)
    ensures
        match run_outcome(history@, *run_id) {
            Some(existing) => decision == ExitDecision::Existing(existing),
            None => decision matches ExitDecision::Record(outcome) && exit_outcome(exit, outcome),
        },
{
    match terminal_outcome_from_history(history, run_id) {
        Some(existing) => ExitDecision::Existing(existing),
        None => {
            match exit {
                Ok(WorkflowProcessOutcome::Completed(result)) => ExitDecision::Record(
                    TerminalOutcome::Completed(result),
                ),
                Ok(WorkflowProcessOutcome::Failed(error)) => ExitDecision::Record(
                    TerminalOutcome::Failed(error),
                ),
                Err(error) => ExitDecision::Record(
                    TerminalOutcome::Failed(
                        WorkflowError {
                            message: concat2(
                                "workflow process monitor failed: ",
                                error.message().as_str(),
                            ),
                            details: None,
                        },
                    ),
                ),
            }
        },
    }
}

/// The step of an exit to perform next, or how it ended.
#[derive(Debug, PartialEq, Eq)]
pub enum ExitPhase {
    /// Record the outcome through the run's recorder.
    Record(TerminalOutcome),
    /// Notify everyone who awaits the run's outcome.
    Notify(TerminalOutcome),
    /// Bring the visibility projection up to date.
    UpsertVisibility,
    /// Bring the registered status in line with history and suspend residency.
    Reconcile,
    /// Start the run that continues this one, unless it has started.
    StartReplacement {
        /// Input of the replacement.
        input: Payload,
        /// Workflow type of the replacement, where it was given.
        workflow_type: Option<String>,
        /// The run that ended.
        parent_run_id: RunId,
    },
    /// The exit is handled.
    Handled,
    /// Handling the exit failed.
    Failed(EngineError),
}

/// What is still to be done for a run that had already continued as new.
#[derive(Debug, PartialEq, Eq)]
pub enum ExitFollowUp {
    /// The outcome was recorded by this exit.
    Recorded,
    /// The outcome was there before; nothing continues the run.
    Existing,
    /// The outcome was there before: the run continued as new.
    Continued {
        /// Input of the replacement.
        input: Payload,
        /// Workflow type of the replacement, where it was given.
        workflow_type: Option<String>,
        /// The run that ended.
        parent_run_id: RunId,
    },
}

/// An exit on its way.
#[derive(Debug, PartialEq, Eq)]
pub struct ExitRun {
    /// What follows once the outcome is notified.
    pub follow_up: ExitFollowUp,
    /// The outcome of the run is durable.
    pub durable: bool,
    /// Awaiters have been notified.
    pub notified: bool,
    /// The step to perform next, or how the exit ended.
    pub phase: ExitPhase,
}

/// What follows an outcome that was there before.
pub open spec fn existing_follow_up(outcome: TerminalOutcome) -> ExitFollowUp {
    match outcome {
        TerminalOutcome::ContinuedAsNew { input, workflow_type, parent_run_id } => {
            ExitFollowUp::Continued { input, workflow_type, parent_run_id }
        },
        _ => ExitFollowUp::Existing,
    }
}

impl ExitRun {
    /// An exit that has been decided.
    pub open spec fn begun(decision: ExitDecision) -> ExitRun {
        match decision {
            ExitDecision::Existing(outcome) => ExitRun {
                follow_up: existing_follow_up(outcome),
                durable: true,
                notified: false,
                phase: ExitPhase::Notify(outcome),
            },
            ExitDecision::Record(outcome) => ExitRun {
                follow_up: ExitFollowUp::Recorded,
                durable: false,
                notified: false,
                phase: ExitPhase::Record(outcome),
            },
        }
    }

    /// The exit after a step.
    pub open spec fn after(self, reply: Result<(), EngineError>) -> ExitRun {
        match (self.phase, reply) {
            (ExitPhase::Record(outcome), Ok(_)) => ExitRun {
                durable: true,
                phase: ExitPhase::Notify(outcome),
                ..self
            },
            (ExitPhase::Notify(_), _) => ExitRun {
                notified: true,
                phase: match self.follow_up {
                    ExitFollowUp::Recorded => ExitPhase::UpsertVisibility,
                    _ => ExitPhase::Reconcile,
                },
                ..self
            },
            (ExitPhase::UpsertVisibility, Ok(_)) => ExitRun { phase: ExitPhase::Reconcile, ..self },
            (ExitPhase::Reconcile, Ok(_)) => ExitRun {
                phase: match self.follow_up {
                    ExitFollowUp::Continued { input, workflow_type, parent_run_id } => {
                        ExitPhase::StartReplacement { input, workflow_type, parent_run_id }
                    },
                    _ => ExitPhase::Handled,
                },
                ..self
            },
            (ExitPhase::StartReplacement { .. }, Ok(_)) => ExitRun {
                phase: ExitPhase::Handled,
                ..self
            },
            (ExitPhase::Record(_), Err(error))
            | (ExitPhase::UpsertVisibility, Err(error))
            | (ExitPhase::Reconcile, Err(error))
            | (ExitPhase::StartReplacement { .. }, Err(error)) => ExitRun {
                phase: ExitPhase::Failed(error),
                ..self
            },
            (ExitPhase::Handled, _) => self,
            (ExitPhase::Failed(_), _) => self,
        }
    }

    /// The exit after a sequence of steps.
    pub open spec fn after_all(self, replies: Seq<Result<(), EngineError>>) -> ExitRun
        decreases replies.len(),
    {
        if replies.len() == 0 {
            self
        } else {
            self.after_all(replies.drop_last()).after(replies.last())
        }
    }

    /// Begins to handle an exit that has been decided.
    pub fn begin(decision: ExitDecision) -> (run: Self)
        ensures
            run == Self::begun(decision),
    {
        match decision {
            ExitDecision::Existing(outcome) => {
                let follow_up = match &outcome {
                    TerminalOutcome::ContinuedAsNew { input, workflow_type, parent_run_id } => {
                        ExitFollowUp::Continued {
                            input: input.clone(),
                            workflow_type: clone_optional_text(workflow_type),
                            parent_run_id: *parent_run_id,
                        }
                    },
                    _ => ExitFollowUp::Existing,
                };
                ExitRun {
                    follow_up,
                    durable: true,
                    notified: false,
                    phase: ExitPhase::Notify(outcome),
                }
            },
            ExitDecision::Record(outcome) => ExitRun {
                follow_up: ExitFollowUp::Recorded,
                durable: false,
                notified: false,
                phase: ExitPhase::Record(outcome),
            },
        }
    }

    /// Takes in what came of a step. Awaiters are notified as soon as the outcome is
    /// durable, before anything that can still fail.
    pub fn advance(self, reply: Result<(), EngineError>) -> (run: Self)
        ensures
            run == self.after(reply),
    {
        let ExitRun { follow_up, durable, notified, phase } = self;
        match (phase, reply) {
            (ExitPhase::Record(outcome), Ok(())) => ExitRun {
                follow_up,
                durable: true,
                notified,
                phase: ExitPhase::Notify(outcome),
            },
            (ExitPhase::Notify(_), _) => {
                let phase = match &follow_up {
                    ExitFollowUp::Recorded => ExitPhase::UpsertVisibility,
                    _ => ExitPhase::Reconcile,
                };
                ExitRun { follow_up, durable, notified: true, phase }
            },
            (ExitPhase::UpsertVisibility, Ok(())) => ExitRun {
                follow_up,
                durable,
                notified,
                phase: ExitPhase::Reconcile,
            },
            (ExitPhase::Reconcile, Ok(())) => {
                let phase = match &follow_up {
                    ExitFollowUp::Continued { input, workflow_type, parent_run_id } => {
                        ExitPhase::StartReplacement {
                            input: input.clone(),
                            workflow_type: clone_optional_text(workflow_type),
                            parent_run_id: *parent_run_id,
                        }
                    },
                    _ => ExitPhase::Handled,
                };
                ExitRun { follow_up, durable, notified, phase }
            },
            (ExitPhase::StartReplacement { .. }, Ok(())) => ExitRun {
                follow_up,
                durable,
                notified,
                phase: ExitPhase::Handled,
            },
            (ExitPhase::Record(_), Err(error)) => ExitRun {
                follow_up,
                durable,
                notified,
                phase: ExitPhase::Failed(error),
            },
            (ExitPhase::UpsertVisibility, Err(error)) => ExitRun {
                follow_up,
                durable,
                notified,
                phase: ExitPhase::Failed(error),
            },
            (ExitPhase::Reconcile, Err(error)) => ExitRun {
                follow_up,
                durable,
                notified,
                phase: ExitPhase::Failed(error),
            },
            (ExitPhase::StartReplacement { .. }, Err(error)) => ExitRun {
                follow_up,
                durable,
                notified,
                phase: ExitPhase::Failed(error),
            },
            (phase, _) => ExitRun { follow_up, durable, notified, phase },
        }
    }
}

/// However the handling of an exit ends, awaiters have been notified exactly where the
/// outcome of the run is durable.
pub proof fn a_durable_outcome_is_always_notified(
    decision: ExitDecision,
    replies: Seq<Result<(), EngineError>>,
)
    ensures
        ({
            let run = ExitRun::begun(decision).after_all(replies);
            &&& run.phase is Handled ==> run.durable && run.notified
            &&& run.phase is Failed ==> run.durable == run.notified
        }),
{
    lemma_notified(decision, replies);
}

/// What holds of an exit in every state that it reaches.
proof fn lemma_notified(decision: ExitDecision, replies: Seq<Result<(), EngineError>>)
    ensures
        ({
            let run = ExitRun::begun(decision).after_all(replies);
            match run.phase {
                ExitPhase::Record(_) => !run.durable && !run.notified,
                ExitPhase::Notify(_) => run.durable && !run.notified,
                ExitPhase::Failed(_) => run.durable == run.notified,
                _ => run.durable && run.notified,
            }
        }),
    decreases replies.len(),
{
    if replies.len() > 0 {
        lemma_notified(decision, replies.drop_last());
    }
}

/// Brings the registered status of a run that ended in line with its history and suspends
/// its residency. Where the run is not registered, nothing changes.
pub fn reconcile_terminal_registry(
    registry: &mut Registry,
    id: &WorkflowId,
    run: &RunId,
    history: &[Event],
)
    requires
        old(registry).wf(),
    ensures
        final(registry).wf(),
        ({
            let key = RunKey { workflow_id: *id, run_id: *run };
            if old(registry)@.contains_key(key) {
                final(registry)@ == old(registry)@.insert(
                    key,
                    WorkflowHandle {
                        cached_status: status_of(segment_of(history@, *run)),
                        residency: Residency::Suspended,
                        ..old(registry)@[key]
                    },
                )
            } else {
                final(registry)@ == old(registry)@
            }
        }),
{
    let ghost before = registry@;
    let ghost key = RunKey { workflow_id: *id, run_id: *run };
    let reconciled = registry.reconcile(id, run, history);
    let suspended = registry.replace_residency(id, run, Residency::Suspended);
    proof {
        if before.contains_key(key) {
            assert(registry@ =~= before.insert(
                key,
                WorkflowHandle {
                    cached_status: status_of(segment_of(history@, *run)),
                    residency: Residency::Suspended,
                    ..before[key]
                },
            ));
        }
    }
}

/// What starts a run.
#[derive(Debug, PartialEq, Eq)]
pub struct PlannedStart {
    /// Workflow type to start.
    pub workflow_type: String,
    /// Input of the run.
    pub input: Payload,
    /// How the run is started.
    pub options: StartWorkflowOptions,
}

/// The workflow type of a continuation: the given one, or that of the run.
pub open spec fn continuation_type(
    workflow_type: Option<String>,
    handle: WorkflowHandle,
) -> Seq<char> {
    match workflow_type {
        Some(workflow_type) => workflow_type@,
        None => handle.workflow_type@,
    }
}

/// What starts the replacement of a run that continued as new, unless it has started.
///
/// The replacement keeps the workflow's identifier and namespace, resolves the routed
/// version, and takes over the recorded search attributes.
pub fn start_continuation_replacement(
    history: &[Event],
    handle: &WorkflowHandle,
    input: Payload,
    workflow_type: Option<String>,
    parent_run_id: RunId,
) -> (start: Option<PlannedStart>)
    ensures
        match start {
            None => successor_started_in(history@, parent_run_id),
            Some(start) => {
                &&& !successor_started_in(history@, parent_run_id)
                &&& start.workflow_type@ == continuation_type(workflow_type, *handle)
                &&& start.input == input
                &&& start.options.workflow_id == Some(handle.workflow_id)
                &&& start.options.routing_key is None
                &&& start.options.parent_run_id == Some(parent_run_id)
                &&& start.options.loaded_version is None
                &&& start.options.search_attributes@.len() == 0
                &&& start.options.namespace == Some(handle.namespace)
            },
        },
{
    if successor_started(history, &parent_run_id) {
        return None;
    }
    let workflow_type = match workflow_type {
        Some(workflow_type) => workflow_type,
        None => handle.workflow_type.clone(),
    };
    Some(
        PlannedStart {
            workflow_type,
            input,
            options: StartWorkflowOptions {
                workflow_id: Some(handle.workflow_id),
                routing_key: None,
                parent_run_id: Some(parent_run_id),
                loaded_version: None,
                search_attributes: Vec::new(),
                namespace: Some(handle.namespace.clone()),
            },
        },
    )
}

} // verus!
