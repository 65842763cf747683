//! Durable workflow history: payloads, errors and the events that record them.

use std::sync::Arc;

use vstd::prelude::*;

use crate::clock::Timestamp;
use crate::ids::{ActivityId, RunId, ScheduleId, TimerId, WorkflowId};

verus! {

/// How the bytes of a payload are encoded.
#[derive(Clone, Copy, Debug, PartialEq, Eq, Hash, Structural)]
pub enum ContentType {
    /// JSON text.
    Json,
    /// Bytes that only the sender and the receiver interpret.
    Binary,
}

/// Opaque data carried between the engine and workflow code.
#[derive(Debug, PartialEq, Eq)]
pub struct Payload {
    /// Encoding of the bytes.
    pub content_type: ContentType,
    /// The bytes, shared between copies of the payload.
    pub bytes: Arc<Vec<u8>>,
}

/// Shares bytes with `std::sync::Arc::clone`.
///
/// Not proved: that the new pointer refers to the same bytes as the old one.
#[verifier::external_body]
fn share_bytes(bytes: &Arc<Vec<u8>>) -> (shared: Arc<Vec<u8>>)
    ensures
        shared == *bytes,
{
    Arc::clone(bytes)
}

impl Payload {
    /// Wraps encoded bytes.
    pub fn new(content_type: ContentType, bytes: Vec<u8>) -> (payload: Self)
        ensures
            payload.content_type == content_type,
            payload.bytes == bytes,
    {
        Payload { content_type, bytes: Arc::new(bytes) }
    }
}

impl Clone for Payload {
    fn clone(&self) -> (copy: Self)
        ensures
            copy == *self,
    {
        Payload { content_type: self.content_type, bytes: share_bytes(&self.bytes) }
    }
}

/// Copies an optional payload.
pub fn clone_optional_payload(payload: &Option<Payload>) -> (copy: Option<Payload>)
    ensures
        copy == *payload,
{
    match payload {
        Some(payload) => Some(payload.clone()),
        None => None,
    }
}

/// Copies an optional text.
pub fn clone_optional_text(text: &Option<String>) -> (copy: Option<String>)
    ensures
        copy == *text,
{
    match text {
        Some(text) => Some(text.clone()),
        None => None,
    }
}

/// Terminal failure of a workflow.
#[derive(Debug, PartialEq, Eq)]
pub struct WorkflowError {
    /// Human-readable description.
    pub message: String,
    /// Structured details, where there are any.
    pub details: Option<Payload>,
}

impl Clone for WorkflowError {
    fn clone(&self) -> (copy: Self)
        ensures
            copy == *self,
    {
        WorkflowError {
            message: self.message.clone(),
            details: clone_optional_payload(&self.details),
        }
    }
}

/// Failure of one attempt of an activity.
#[derive(Debug, PartialEq, Eq, Clone)]
pub struct ActivityError {
    /// Whether the failure ends the activity.
    pub terminal: bool,
    /// Human-readable description.
    pub message: String,
    /// Structured details, where there are any.
    pub details: Option<Payload>,
}

/// Durable textual form of a package version.
#[derive(Debug, PartialEq, Eq, Hash)]
pub struct PackageVersion {
    /// The recorded text.
    pub text: String,
}

impl PackageVersion {
    /// Wraps a recorded version text.
    pub fn new(text: String) -> (version: Self)
        ensures
            version.text == text,
    {
        PackageVersion { text }
    }
}

impl Clone for PackageVersion {
    fn clone(&self) -> (copy: Self)
        ensures
            copy == *self,
    {
        PackageVersion { text: self.text.clone() }
    }
}

/// Value of a search attribute.
#[derive(Debug, PartialEq, Eq)]
pub enum SearchAttributeValue {
    /// A text.
    String(String),
    /// A whole number.
    Int(i64),
    /// A value of another kind, encoded.
    Other(String),
}

impl Clone for SearchAttributeValue {
    fn clone(&self) -> (copy: Self)
        ensures
            copy == *self,
    {
        match self {
            SearchAttributeValue::String(text) => SearchAttributeValue::String(text.clone()),
            SearchAttributeValue::Int(number) => SearchAttributeValue::Int(*number),
            SearchAttributeValue::Other(encoded) => SearchAttributeValue::Other(encoded.clone()),
        }
    }
}

/// A named search attribute.
#[derive(Debug, PartialEq, Eq)]
pub struct SearchAttribute {
    /// Name of the attribute.
    pub name: String,
    /// Its value.
    pub value: SearchAttributeValue,
}

impl Clone for SearchAttribute {
    fn clone(&self) -> (copy: Self)
        ensures
            copy == *self,
    {
        SearchAttribute { name: self.name.clone(), value: self.value.clone() }
    }
}

/// What every recorded event carries.
#[derive(Clone, Copy, Debug, PartialEq, Eq, Structural)]
pub struct EventEnvelope {
    /// Position of the event in the workflow's history.
    pub seq: u64,
    /// When the event was recorded.
    pub recorded_at: Timestamp,
    /// The workflow whose history holds the event.
    pub workflow_id: WorkflowId,
}

/// Why a timer was cancelled.
#[derive(Clone, Copy, Debug, PartialEq, Eq, Structural)]
pub enum TimerCancelCause {
    /// The workflow retired the timer.
    WorkflowIntent,
    /// The engine retired the timer while cancelling the run.
    CancelTeardown,
}

/// One event of a workflow's durable history.
#[allow(inconsistent_fields)]
#[derive(Debug, PartialEq, Eq, Clone)]
pub enum Event {
    /// A run began.
    WorkflowStarted {
        /// Common fields.
        envelope: EventEnvelope,
        /// Logical workflow type.
        workflow_type: String,
        /// Input of the run.
        input: Payload,
        /// The run that began.
        run_id: RunId,
        /// The run that it continues, where it continues one.
        parent_run_id: Option<RunId>,
        /// Version of the package that the run is pinned to.
        package_version: PackageVersion,
    },
    /// The run ended with a result.
    WorkflowCompleted {
        /// Common fields.
        envelope: EventEnvelope,
        /// Result of the run.
        result: Payload,
    },
    /// The run ended with an error.
    WorkflowFailed {
        /// Common fields.
        envelope: EventEnvelope,
        /// The error.
        error: WorkflowError,
    },
    /// The run was cancelled.
    WorkflowCancelled {
        /// Common fields.
        envelope: EventEnvelope,
        /// Reason given by the caller.
        reason: String,
    },
    /// The run passed its deadline.
    WorkflowTimedOut {
        /// Common fields.
        envelope: EventEnvelope,
        /// Which timeout elapsed.
        timeout: String,
    },
    /// The run ended by continuing as a new one.
    WorkflowContinuedAsNew {
        /// Common fields.
        envelope: EventEnvelope,
        /// Input of the replacement run.
        input: Payload,
        /// Workflow type of the replacement, where it was given.
        workflow_type: Option<String>,
        /// The run that ended.
        parent_run_id: RunId,
    },
    /// A terminal run was opened again.
    WorkflowReopened {
        /// Common fields.
        envelope: EventEnvelope,
        /// The run.
        run_id: RunId,
        /// Activities that are driven anew.
        reopened: Vec<ActivityId>,
    },
    /// New activity dispatch was put on hold.
    WorkflowPaused {
        /// Common fields.
        envelope: EventEnvelope,
        /// The run.
        run_id: RunId,
        /// Reason given by the operator.
        reason: Option<String>,
        /// Who asked for the pause.
        operator: Option<String>,
    },
    /// The hold was released.
    WorkflowResumed {
        /// Common fields.
        envelope: EventEnvelope,
        /// The run.
        run_id: RunId,
        /// Who asked for the resume.
        operator: Option<String>,
    },
    /// Search attributes were set.
    SearchAttributesUpdated {
        /// Common fields.
        envelope: EventEnvelope,
        /// The workflow.
        workflow_id: WorkflowId,
        /// The attributes that were set.
        attributes: Vec<SearchAttribute>,
    },
    /// An activity was scheduled.
    ActivityScheduled {
        /// Common fields.
        envelope: EventEnvelope,
        /// The activity.
        activity_id: ActivityId,
        /// Logical activity type.
        activity_type: String,
        /// Input of the activity.
        input: Payload,
        /// Queue that serves it.
        task_queue: String,
        /// Node that it is bound to, where it is bound to one.
        node: Option<String>,
    },
    /// An attempt of an activity began.
    ActivityStarted {
        /// Common fields.
        envelope: EventEnvelope,
        /// The activity.
        activity_id: ActivityId,
    },
    /// An activity completed.
    ActivityCompleted {
        /// Common fields.
        envelope: EventEnvelope,
        /// The activity.
        activity_id: ActivityId,
        /// Result of the activity.
        result: Payload,
        /// Which attempt completed.
        attempt: u32,
    },
    /// An activity failed.
    ActivityFailed {
        /// Common fields.
        envelope: EventEnvelope,
        /// The activity.
        activity_id: ActivityId,
        /// The failure.
        error: ActivityError,
        /// Which attempt failed.
        attempt: u32,
    },
    /// An activity was cancelled.
    ActivityCancelled {
        /// Common fields.
        envelope: EventEnvelope,
        /// The activity.
        activity_id: ActivityId,
    },
    /// A timer was started.
    TimerStarted {
        /// Common fields.
        envelope: EventEnvelope,
        /// The timer.
        timer_id: TimerId,
        /// When it is due.
        fire_at: Timestamp,
    },
    /// A timer fired.
    TimerFired {
        /// Common fields.
        envelope: EventEnvelope,
        /// The timer.
        timer_id: TimerId,
    },
    /// A timer was cancelled.
    TimerCancelled {
        /// Common fields.
        envelope: EventEnvelope,
        /// The timer.
        timer_id: TimerId,
        /// Why.
        cause: TimerCancelCause,
    },
    /// A bounded operation ended before its timer.
    WithTimeoutCompleted {
        /// Common fields.
        envelope: EventEnvelope,
        /// The bounding timer.
        timer_id: TimerId,
    },
    /// A signal arrived.
    SignalReceived {
        /// Common fields.
        envelope: EventEnvelope,
        /// Name of the signal.
        name: String,
        /// Its payload.
        payload: Payload,
    },
    /// A signal was sent to another workflow.
    SignalSent {
        /// Common fields.
        envelope: EventEnvelope,
        /// The workflow that it was sent to.
        target_workflow_id: WorkflowId,
        /// Name of the signal.
        name: String,
    },
    /// A child workflow was recorded, to be started.
    ChildWorkflowStarted {
        /// Common fields.
        envelope: EventEnvelope,
        /// The child.
        child_workflow_id: WorkflowId,
        /// Its workflow type.
        workflow_type: String,
        /// Its input.
        input: Payload,
        /// Version of the package that the child is pinned to.
        package_version: PackageVersion,
    },
    /// A child workflow completed.
    ChildWorkflowCompleted {
        /// Common fields.
        envelope: EventEnvelope,
        /// The child.
        child_workflow_id: WorkflowId,
        /// Its result.
        result: Payload,
    },
    /// A child workflow failed.
    ChildWorkflowFailed {
        /// Common fields.
        envelope: EventEnvelope,
        /// The child.
        child_workflow_id: WorkflowId,
        /// Its error.
        error: WorkflowError,
    },
    /// A child workflow was cancelled.
    ChildWorkflowCancelled {
        /// Common fields.
        envelope: EventEnvelope,
        /// The child.
        child_workflow_id: WorkflowId,
    },
    /// A schedule was created.
    ScheduleCreated {
        /// Common fields.
        envelope: EventEnvelope,
        /// The schedule.
        schedule_id: ScheduleId,
        /// Its encoded configuration.
        config: Payload,
    },
    /// A schedule was changed.
    ScheduleUpdated {
        /// Common fields.
        envelope: EventEnvelope,
        /// The schedule.
        schedule_id: ScheduleId,
        /// Its new encoded configuration.
        config: Payload,
    },
    /// A schedule was paused.
    SchedulePaused {
        /// Common fields.
        envelope: EventEnvelope,
        /// The schedule.
        schedule_id: ScheduleId,
    },
    /// A schedule was resumed.
    ScheduleResumed {
        /// Common fields.
        envelope: EventEnvelope,
        /// The schedule.
        schedule_id: ScheduleId,
    },
    /// A schedule was deleted.
    ScheduleDeleted {
        /// Common fields.
        envelope: EventEnvelope,
        /// The schedule.
        schedule_id: ScheduleId,
    },
    /// A schedule started a workflow.
    ScheduleTriggered {
        /// Common fields.
        envelope: EventEnvelope,
        /// The schedule.
        schedule_id: ScheduleId,
        /// The workflow that it started.
        workflow_id: WorkflowId,
        /// The run that it started.
        run_id: RunId,
    },
}

/// The common fields of an event.
pub open spec fn envelope_of(event: Event) -> EventEnvelope {
    match event {
        Event::WorkflowStarted { envelope, .. } => envelope,
        Event::WorkflowCompleted { envelope, .. } => envelope,
        Event::WorkflowFailed { envelope, .. } => envelope,
        Event::WorkflowCancelled { envelope, .. } => envelope,
        Event::WorkflowTimedOut { envelope, .. } => envelope,
        Event::WorkflowContinuedAsNew { envelope, .. } => envelope,
        Event::WorkflowReopened { envelope, .. } => envelope,
        Event::WorkflowPaused { envelope, .. } => envelope,
        Event::WorkflowResumed { envelope, .. } => envelope,
        Event::SearchAttributesUpdated { envelope, .. } => envelope,
        Event::ActivityScheduled { envelope, .. } => envelope,
        Event::ActivityStarted { envelope, .. } => envelope,
        Event::ActivityCompleted { envelope, .. } => envelope,
        Event::ActivityFailed { envelope, .. } => envelope,
        Event::ActivityCancelled { envelope, .. } => envelope,
        Event::TimerStarted { envelope, .. } => envelope,
        Event::TimerFired { envelope, .. } => envelope,
        Event::TimerCancelled { envelope, .. } => envelope,
        Event::WithTimeoutCompleted { envelope, .. } => envelope,
        Event::SignalReceived { envelope, .. } => envelope,
        Event::SignalSent { envelope, .. } => envelope,
        Event::ChildWorkflowStarted { envelope, .. } => envelope,
        Event::ChildWorkflowCompleted { envelope, .. } => envelope,
        Event::ChildWorkflowFailed { envelope, .. } => envelope,
        Event::ChildWorkflowCancelled { envelope, .. } => envelope,
        Event::ScheduleCreated { envelope, .. } => envelope,
        Event::ScheduleUpdated { envelope, .. } => envelope,
        Event::SchedulePaused { envelope, .. } => envelope,
        Event::ScheduleResumed { envelope, .. } => envelope,
        Event::ScheduleDeleted { envelope, .. } => envelope,
        Event::ScheduleTriggered { envelope, .. } => envelope,
    }
}

impl Event {
    /// The common fields of the event.
    pub fn envelope(&self) -> (envelope: EventEnvelope)
        ensures
            envelope == envelope_of(*self),
    {
        match self {
            Event::WorkflowStarted { envelope, .. } => *envelope,
            Event::WorkflowCompleted { envelope, .. } => *envelope,
            Event::WorkflowFailed { envelope, .. } => *envelope,
            Event::WorkflowCancelled { envelope, .. } => *envelope,
            Event::WorkflowTimedOut { envelope, .. } => *envelope,
            Event::WorkflowContinuedAsNew { envelope, .. } => *envelope,
            Event::WorkflowReopened { envelope, .. } => *envelope,
            Event::WorkflowPaused { envelope, .. } => *envelope,
            Event::WorkflowResumed { envelope, .. } => *envelope,
            Event::SearchAttributesUpdated { envelope, .. } => *envelope,
            Event::ActivityScheduled { envelope, .. } => *envelope,
            Event::ActivityStarted { envelope, .. } => *envelope,
            Event::ActivityCompleted { envelope, .. } => *envelope,
            Event::ActivityFailed { envelope, .. } => *envelope,
            Event::ActivityCancelled { envelope, .. } => *envelope,
            Event::TimerStarted { envelope, .. } => *envelope,
            Event::TimerFired { envelope, .. } => *envelope,
            Event::TimerCancelled { envelope, .. } => *envelope,
            Event::WithTimeoutCompleted { envelope, .. } => *envelope,
            Event::SignalReceived { envelope, .. } => *envelope,
            Event::SignalSent { envelope, .. } => *envelope,
            Event::ChildWorkflowStarted { envelope, .. } => *envelope,
            Event::ChildWorkflowCompleted { envelope, .. } => *envelope,
            Event::ChildWorkflowFailed { envelope, .. } => *envelope,
            Event::ChildWorkflowCancelled { envelope, .. } => *envelope,
            Event::ScheduleCreated { envelope, .. } => *envelope,
            Event::ScheduleUpdated { envelope, .. } => *envelope,
            Event::SchedulePaused { envelope, .. } => *envelope,
            Event::ScheduleResumed { envelope, .. } => *envelope,
            Event::ScheduleDeleted { envelope, .. } => *envelope,
            Event::ScheduleTriggered { envelope, .. } => *envelope,
        }
    }
}

/// Projected status of a workflow.
#[derive(Clone, Copy, Debug, PartialEq, Eq, Hash, Structural)]
pub enum WorkflowStatus {
    /// Executing, or waiting for something durable.
    Running,
    /// Ended with a result.
    Completed,
    /// Ended with an error.
    Failed,
    /// Ended by cancellation.
    Cancelled,
    /// Ended by its deadline.
    TimedOut,
    /// Ended by continuing as a new run.
    ContinuedAsNew,
    /// Dispatch of new activities is on hold.
    Paused,
}

/// A run in this status has ended.
pub open spec fn ended(status: WorkflowStatus) -> bool {
    !(status is Running) && !(status is Paused)
}

impl WorkflowStatus {
    /// Whether a run in this status has ended.
    pub fn is_terminal(&self) -> (terminal: bool)
        ensures
            terminal == ended(*self),
    {
        match self {
            WorkflowStatus::Running => false,
            WorkflowStatus::Paused => false,
            _ => true,
        }
    }
}

/// How a run ended.
#[derive(Debug, PartialEq, Eq)]
pub enum TerminalOutcome {
    /// With a result.
    Completed(Payload),
    /// With an error.
    Failed(WorkflowError),
    /// By cancellation, for a reason.
    Cancelled(String),
    /// By the named timeout.
    TimedOut(String),
    /// By continuing as a new run.
    ContinuedAsNew {
        /// Input of the replacement run.
        input: Payload,
        /// Workflow type of the replacement, where it was given.
        workflow_type: Option<String>,
        /// The run that ended.
        parent_run_id: RunId,
    },
}

impl Clone for TerminalOutcome {
    fn clone(&self) -> (copy: Self)
        ensures
            copy == *self,
    {
        match self {
            TerminalOutcome::Completed(result) => TerminalOutcome::Completed(result.clone()),
            TerminalOutcome::Failed(error) => TerminalOutcome::Failed(error.clone()),
            TerminalOutcome::Cancelled(reason) => TerminalOutcome::Cancelled(reason.clone()),
            TerminalOutcome::TimedOut(timeout) => TerminalOutcome::TimedOut(timeout.clone()),
            TerminalOutcome::ContinuedAsNew { input, workflow_type, parent_run_id } => {
                TerminalOutcome::ContinuedAsNew {
                    input: input.clone(),
                    workflow_type: clone_optional_text(workflow_type),
                    parent_run_id: *parent_run_id,
                }
            },
        }
    }
}

} // verus!
