//! Engine-facing seam for time, signal, query, child, and concurrency services.
//!
//! The services consume the seam to resolve workflow residency, deliver
//! already-recorded observations to mailboxes, request linked child workflow starts,
//! arm timer-wheel entries, and route asynchronous-arrival events through the target
//! workflow's single recorder.

use vstd::prelude::*;
use vstd::string::*;

use crate::clock::Timestamp;
use crate::event::{Event, Payload, WorkflowError};
use crate::ids::{uuid_text, RunId, TimerId, WorkflowId};
use crate::text::{concat2, concat3};

verus! {

/// Narrow live-process handle used by services after residency is resolved.
///
/// The wrapper exposes only an opaque process identifier.
#[derive(Clone, Copy, Debug, PartialEq, Eq, Hash, Structural)]
pub struct WorkflowProcessHandle {
    pid: u64,
}

impl WorkflowProcessHandle {
    /// The process identifier of the handle.
    pub closed spec fn process(self) -> u64 {
        self.pid
    }

    /// Creates a workflow process handle from an opaque process identifier.
    pub fn new(pid: u64) -> (handle: Self)
        ensures
            handle.process() == pid,
    {
        WorkflowProcessHandle { pid }
    }

    /// Returns the opaque process identifier backing this handle.
    pub fn pid(self) -> (pid: u64)
        ensures
            pid == self.process(),
    {
        self.pid
    }

    /// A handle is determined by its process identifier.
    pub proof fn handles_are_their_process(a: WorkflowProcessHandle, b: WorkflowProcessHandle)
        requires
            a.process() == b.process(),
        ensures
            a == b,
    {
    }
}

/// The answer when a logical workflow is resolved to a live process.
#[derive(Clone, Copy, Debug, PartialEq, Eq, Structural)]
pub enum WorkflowResidency {
    /// The workflow is currently resident and can receive mailbox messages.
    Resident(WorkflowProcessHandle),
    /// The workflow exists durably but has no live process at the moment.
    NonResident,
    /// The workflow is terminal and should not receive live interactions.
    Terminal,
    /// There is no durable or live workflow for the requested identifier.
    Unknown,
}

/// Message kinds that may be delivered to a workflow process mailbox.
#[allow(inconsistent_fields)]
#[derive(Debug, PartialEq, Eq)]
pub enum WorkflowMailboxMessage {
    /// A durable timer fired and has been recorded.
    TimerFired {
        /// Timer that fired.
        timer_id: TimerId,
        /// Deterministic fire timestamp carried for correlation.
        fire_at: Timestamp,
    },
    /// A durable signal arrived and has been recorded.
    SignalReceived {
        /// Signal name selected by the sender.
        name: String,
        /// Opaque signal payload.
        payload: Payload,
    },
    /// A read-only query request. Query dispatch records no event.
    Query {
        /// Query name selected by the caller.
        name: String,
        /// Opaque query input payload.
        payload: Payload,
    },
    /// A linked child workflow completed successfully and has been recorded.
    ChildWorkflowCompleted {
        /// Child workflow that produced the result.
        child_workflow_id: WorkflowId,
        /// Spawn correlation token used by collectors.
        correlation: u64,
        /// Opaque child result payload.
        result: Payload,
    },
    /// A linked child workflow failed terminally and has been recorded.
    ChildWorkflowFailed {
        /// Child workflow that failed.
        child_workflow_id: WorkflowId,
        /// Spawn correlation token used by collectors.
        correlation: u64,
        /// Terminal child workflow failure.
        error: WorkflowError,
    },
    /// A linked child workflow was cancelled and has been recorded.
    ChildWorkflowCancelled {
        /// Child workflow that was cancelled.
        child_workflow_id: WorkflowId,
        /// Spawn correlation token used by collectors.
        correlation: u64,
    },
}

/// Parent/child process relationship requested for a child workflow spawn.
#[derive(Clone, Copy, Debug, PartialEq, Eq, Structural)]
pub enum ChildWorkflowSpawnMode {
    /// Link the child to the parent so parent cancellation propagates as an exit signal.
    Linked,
    /// Detach the child from blocking await semantics and monitor it for terminal exits.
    DetachedMonitor,
}

/// Request to spawn a child workflow under a parent process.
#[derive(Debug, PartialEq, Eq)]
pub struct ChildWorkflowSpawnRequest {
    /// Parent workflow whose process owns the link.
    pub parent_workflow_id: WorkflowId,
    /// Child workflow type selected by the parent workflow.
    pub workflow_type: String,
    /// Opaque child workflow input payload.
    pub input: Payload,
    /// Concrete run identifier requested for the child execution.
    pub run_id: RunId,
    /// Relationship to establish between parent and child processes.
    pub mode: ChildWorkflowSpawnMode,
}

/// The result of starting a linked child workflow execution.
#[derive(Clone, Copy, Debug, PartialEq, Eq)]
pub struct ChildWorkflowSpawnResult {
    /// Logical child workflow identifier.
    pub child_workflow_id: WorkflowId,
    /// Live process handle for the linked child execution.
    pub child_process: WorkflowProcessHandle,
}

/// Timer-wheel entry requested for a live workflow process.
#[derive(Debug, PartialEq, Eq)]
pub struct TimerWheelEntry {
    /// Workflow process that should receive the timer fire path.
    pub process: WorkflowProcessHandle,
    /// Timer selected by workflow code or assigned by the engine.
    pub timer_id: TimerId,
    /// Instant at which the wheel should fire.
    pub fire_at: Timestamp,
}

/// Errors returned by the engine seam.
#[allow(inconsistent_fields)]
#[derive(Debug, PartialEq, Eq)]
pub enum EngineSeamError {
    /// The target workflow has no current live process.
    NonResident {
        /// Workflow that had no current live process.
        workflow_id: WorkflowId,
    },
    /// The target workflow is terminal.
    Terminal {
        /// Terminal workflow identifier.
        workflow_id: WorkflowId,
    },
    /// The target workflow is unknown.
    UnknownWorkflow {
        /// Unknown workflow identifier.
        workflow_id: WorkflowId,
    },
    /// A mailbox message could not be delivered.
    Delivery {
        /// Human-readable delivery failure reason.
        reason: String,
    },
    /// A linked child workflow could not be spawned.
    ChildSpawn {
        /// Human-readable child-spawn failure reason.
        reason: String,
    },
    /// The timer wheel could not be armed or disarmed.
    TimerWheel {
        /// Human-readable timer-wheel failure reason.
        reason: String,
    },
    /// A linked child process could not be terminated.
    ChildTermination {
        /// Human-readable child termination failure reason.
        reason: String,
    },
    /// The single recorder path could not record the event.
    Recorder {
        /// Human-readable recorder failure reason.
        reason: String,
    },
}

impl EngineSeamError {
    /// The text that describes the error.
    pub open spec fn describes(self) -> Seq<char> {
        match self {
            EngineSeamError::NonResident { workflow_id } => "workflow "@ + uuid_text(
                workflow_id.value,
            ) + " is not resident"@,
            EngineSeamError::Terminal { workflow_id } => "workflow "@ + uuid_text(workflow_id.value)
                + " is terminal"@,
            EngineSeamError::UnknownWorkflow { workflow_id } => "workflow "@ + uuid_text(
                workflow_id.value,
            ) + " is unknown"@,
            EngineSeamError::Delivery { reason } => "mailbox delivery failed: "@ + reason@,
            EngineSeamError::ChildSpawn { reason } => "child workflow spawn failed: "@ + reason@,
            EngineSeamError::TimerWheel { reason } => "timer wheel operation failed: "@ + reason@,
            EngineSeamError::ChildTermination { reason } => "linked child termination failed: "@
                + reason@,
            EngineSeamError::Recorder { reason } => "workflow recorder failed: "@ + reason@,
        }
    }

    /// Renders the error.
    pub fn message(&self) -> (text: String)
        ensures
            text@ == self.describes(),
    {
        match self {
            EngineSeamError::NonResident { workflow_id } => concat3(
                "workflow ",
                workflow_id.text().as_str(),
                " is not resident",
            ),
            EngineSeamError::Terminal { workflow_id } => concat3(
                "workflow ",
                workflow_id.text().as_str(),
                " is terminal",
            ),
            EngineSeamError::UnknownWorkflow { workflow_id } => concat3(
                "workflow ",
                workflow_id.text().as_str(),
                " is unknown",
            ),
            EngineSeamError::Delivery { reason } => concat2(
                "mailbox delivery failed: ",
                reason.as_str(),
            ),
            EngineSeamError::ChildSpawn { reason } => concat2(
                "child workflow spawn failed: ",
                reason.as_str(),
            ),
            EngineSeamError::TimerWheel { reason } => concat2(
                "timer wheel operation failed: ",
                reason.as_str(),
            ),
            EngineSeamError::ChildTermination { reason } => concat2(
                "linked child termination failed: ",
                reason.as_str(),
            ),
            EngineSeamError::Recorder { reason } => concat2(
                "workflow recorder failed: ",
                reason.as_str(),
            ),
        }
    }
}

/// Engine-facing capabilities consumed by services.
///
/// The trait exposes no operation that starts, supervises, tears down, or loads
/// top-level workflow processes. [`EngineHandle::record_workflow_event`] routes
/// asynchronous-arrival events through the target workflow's single recorder.
pub trait EngineHandle {
    /// Resolves a workflow identifier to its current residency state.
    fn resolve_workflow(&self, workflow_id: &WorkflowId) -> Result<
        WorkflowResidency,
        EngineSeamError,
    >;

    /// Delivers a message to a resident workflow process mailbox.
    fn deliver_workflow_message(
        &self,
        process: WorkflowProcessHandle,
        message: WorkflowMailboxMessage,
    ) -> Result<(), EngineSeamError>;

    /// Requests a child workflow execution linked to the parent process.
    fn spawn_child_workflow(&self, request: ChildWorkflowSpawnRequest) -> Result<
        ChildWorkflowSpawnResult,
        EngineSeamError,
    >;

    /// Terminates a linked child workflow process.
    fn terminate_linked_child_workflow(
        &self,
        parent_workflow_id: &WorkflowId,
        child_process: WorkflowProcessHandle,
        correlation: u64,
    ) -> Result<(), EngineSeamError>;

    /// Terminates a linked in-VM activity process.
    fn terminate_linked_activity(
        &self,
        parent_workflow_id: &WorkflowId,
        activity_process: u64,
        correlation: u64,
    ) -> Result<(), EngineSeamError>;

    /// Arms a timer-wheel entry for a resident workflow process.
    fn arm_timer(&self, entry: TimerWheelEntry) -> Result<(), EngineSeamError>;

    /// Disarms a timer-wheel entry for a resident workflow process.
    fn disarm_timer(&self, process: WorkflowProcessHandle, timer_id: &TimerId) -> Result<
        (),
        EngineSeamError,
    >;

    /// Records an event through the target workflow's single recorder.
    fn record_workflow_event(&self, workflow_id: &WorkflowId, event: Event) -> Result<
        (),
        EngineSeamError,
    >;
}

} // verus!
