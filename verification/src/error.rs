//! Engine error taxonomy.

use vstd::prelude::*;
use vstd::string::*;

use crate::content_hash::{hash_text, ContentHash};
use crate::ids::{uuid_text, RunId, ScheduleId, WorkflowId};
use crate::text::{concat2, concat3, concat5, concat7, concat9, decimal, decimal_text};

verus! {

/// What the event store reports when it cannot serve a request.
#[derive(Debug, PartialEq, Eq)]
pub enum StoreError {
    /// This node does not own the shard.
    NotOwner {
        /// The shard.
        shard: usize,
        /// Human-readable description, as the store gives it.
        reason: String,
    },
    /// Another writer advanced the workflow's history first.
    SequenceConflict {
        /// Human-readable description.
        reason: String,
    },
    /// The store's backend failed.
    Backend(String),
}

/// What the durable recorder reports when it cannot record or replay.
#[derive(Debug, PartialEq, Eq)]
pub enum DurabilityError {
    /// The store refused the append.
    Store(StoreError),
    /// Anything else.
    Other {
        /// Human-readable description.
        reason: String,
    },
}

/// What a live query reports when it cannot be answered.
#[derive(Debug, PartialEq, Eq)]
pub enum QueryError {
    /// The workflow has ended.
    NotRunning(WorkflowId),
    /// The workflow has no handler of that name.
    UnknownQuery {
        /// Name of the query.
        name: String,
        /// Human-readable description, as the query service gives it.
        reason: String,
    },
    /// Anything else.
    Other {
        /// Human-readable description.
        reason: String,
    },
}

/// Errors returned by the embedded workflow engine.
#[allow(inconsistent_fields)]
#[derive(Debug, PartialEq, Eq)]
pub enum EngineError {
    /// The builder was asked to construct an engine without an event store.
    MissingStore,
    /// The builder was asked to construct an engine without a visibility store.
    MissingVisibilityStore,
    /// A workflow package failed to load or validate for engine registration.
    Load {
        /// Human-readable load failure reason.
        reason: String,
    },
    /// A route or unload targeted a `(workflow type, version)` that is not loaded.
    UnknownVersion {
        /// Logical workflow type requested by the caller.
        workflow_type: String,
        /// Content-hash version requested by the caller.
        version: ContentHash,
        /// Comma-separated loaded versions of the type, or `none`.
        loaded: String,
    },
    /// An unload was refused because something still pins the version.
    VersionPinned {
        /// Logical workflow type targeted by the unload.
        workflow_type: String,
        /// Content-hash version targeted by the unload.
        version: ContentHash,
        /// What pins the version, naming the concrete holder.
        pinned_by: PinHolder,
    },
    /// An unload was refused because the version is route-active for its type.
    RouteActive {
        /// Logical workflow type targeted by the unload.
        workflow_type: String,
        /// Content-hash version targeted by the unload.
        version: ContentHash,
    },
    /// An idempotent re-load presented the resident content hash with a
    /// different manifest. The content hash covers the canonical beam set only,
    /// so this is the wrong-deploy tripwire: the resident version is retained
    /// untouched and the incoming archive is refused.
    ManifestMismatch {
        /// Logical workflow type targeted by the load.
        workflow_type: String,
        /// Content-hash version shared by both archives.
        version: ContentHash,
        /// Canonical digest of the resident manifest.
        resident_digest: String,
        /// Canonical digest of the incoming manifest.
        incoming_digest: String,
    },
    /// The builder was given both `event_streaming` and an explicit event-publisher seam.
    ConflictingEventPublisher,
    /// Live event streaming setup failed.
    EventStreaming {
        /// Human-readable failure reason.
        reason: String,
    },
    /// The configured event store returned an error.
    Store(StoreError),
    /// The durability recorder or replay path returned an error.
    Durability(DurabilityError),
    /// A package operation returned an error.
    Package {
        /// Human-readable failure reason.
        reason: String,
    },
    /// The embedded runtime returned an error.
    Runtime {
        /// Human-readable runtime failure reason.
        reason: String,
    },
    /// A native function required for tracked local fun spawns was not registered.
    Gate3BifReplacementMissing {
        /// Native module containing the required function.
        module: String,
        /// Required native function.
        function: String,
        /// Required native function arity.
        arity: u8,
    },
    /// The runtime-owned cleanup executor's ownership state was poisoned.
    CleanupExecutorPoisoned,
    /// The runtime cleanup worker did not stop within the configured bound.
    CleanupExecutorShutdownTimedOut {
        /// Configured shutdown observation bound in milliseconds.
        timeout_millis: u128,
    },
    /// The process-exit registry lifecycle lock was poisoned.
    ProcessExitRegistryPoisoned,
    /// A process exit record's installation/abort ownership gate was poisoned.
    ProcessExitOwnershipPoisoned {
        /// Process whose monitor/abort ownership could not be serialized.
        process_id: u64,
    },
    /// A process exit record's fan-out state was poisoned.
    ProcessExitStatePoisoned {
        /// Process whose cached exit state could not be accessed.
        process_id: u64,
    },
    /// The scheduler's one exit-event subscription was already claimed.
    ProcessExitSubscriptionUnavailable,
    /// The singleton process-exit drainer could not be spawned.
    ProcessExitDrainerSpawn {
        /// Operating-system thread creation failure.
        reason: String,
    },
    /// The singleton process-exit drainer's ownership lock was poisoned.
    ProcessExitDrainerPoisoned,
    /// An exit event was published without the promised durable outcome.
    ProcessExitOutcomeMissingAfterEvent {
        /// Process named by the contract-breaking event.
        process_id: u64,
    },
    /// The exit-event publisher disconnected while the runtime still owned it.
    ProcessExitEventStreamDisconnected,
    /// The process-exit drainer did not stop within the configured bound.
    ProcessExitDrainerShutdownTimedOut {
        /// Configured shutdown observation bound in milliseconds.
        timeout_millis: u128,
    },
    /// The process-exit drainer thread panicked.
    ProcessExitDrainerPanicked,
    /// The process-exit callback dispatcher's ownership state was poisoned.
    ProcessExitCallbackDispatcherPoisoned,
    /// The process-exit callback dispatcher had already stopped.
    ProcessExitCallbackDispatcherUnavailable,
    /// The process-exit callback dispatcher did not stop within its configured bound.
    ProcessExitCallbackDispatcherShutdownTimedOut {
        /// Configured shutdown observation bound in milliseconds.
        timeout_millis: u128,
    },
    /// A retired process generation cannot accept another outcome consumer.
    ProcessExitAlreadyTerminal {
        /// Process generation whose heavyweight exit record was retired.
        process_id: u64,
    },
    /// A workflow's activity-delivery synchronization lock was poisoned.
    ActivityDeliveryPoisoned {
        /// Workflow process whose scoped delivery lock was poisoned.
        process_id: u64,
    },
    /// The active workflow registry lock was poisoned.
    RegistryPoisoned,
    /// The workflow catalog lock was poisoned.
    CatalogPoisoned,
    /// A precondition on the target workflow's current state was not met.
    InvalidState {
        /// Human-readable precondition-failure reason naming the actual status.
        reason: String,
    },
    /// The engine is already shutting down and no new work is accepted.
    ShuttingDown,
    /// No live, durable, or loaded workflow was found for the request.
    WorkflowNotFound {
        /// Logical workflow type requested by the caller.
        workflow_type: String,
    },
    /// No durable schedule was found for the request.
    ScheduleNotFound {
        /// Schedule identifier requested by the caller.
        schedule_id: ScheduleId,
    },
    /// Schedule trigger, projection, or evaluator side effect failed.
    Schedule {
        /// Human-readable schedule failure reason.
        reason: String,
    },
    /// Native implemented function registration failed.
    NifRegistration {
        /// Human-readable registration failure reason.
        reason: String,
    },
    /// Signal routing failed after the target was resolved.
    SignalRouter(SignalRouterError),
    /// Live workflow query dispatch failed after the target was resolved.
    Query(QueryError),
}

/// What pins a workflow version against unload, naming the concrete holder.
#[allow(inconsistent_fields)]
#[derive(Clone, Copy, Debug, PartialEq, Eq, Structural)]
pub enum PinHolder {
    /// A start resolved this version but has not yet registered a handle.
    InFlightStart,
    /// A live, non-terminal run executes on this version.
    LiveRun {
        /// Pinning workflow id.
        workflow_id: WorkflowId,
        /// Pinning run id.
        run_id: RunId,
    },
    /// A recoverable instance in the store is pinned to this version.
    RecoverableRun {
        /// Pinning workflow id.
        workflow_id: WorkflowId,
    },
    /// A recorded-but-never-started child is pinned to this version.
    RecordedChild {
        /// Child workflow id pinned to the version.
        child_workflow_id: WorkflowId,
        /// Parent workflow whose history records the child.
        recorded_by: WorkflowId,
    },
}

/// Errors surfaced by the signal routing boundary.
#[allow(inconsistent_fields)]
#[derive(Debug, PartialEq, Eq)]
pub enum SignalRouterError {
    /// The target workflow is terminal and cannot receive new signals.
    Terminal {
        /// Target workflow id.
        workflow_id: WorkflowId,
        /// Target run id.
        run_id: RunId,
    },
    /// The router could not defer a recorded non-resident signal.
    Handoff {
        /// Human-readable handoff failure reason.
        reason: String,
    },
    /// The signal was durably recorded but could not be delivered to the live mailbox.
    DeliveryFailed {
        /// Target workflow id.
        workflow_id: WorkflowId,
        /// Target run id.
        run_id: RunId,
        /// Embedded runtime process identifier selected for delivery.
        process_id: u64,
        /// Signal name that was recorded and attempted.
        signal_name: String,
        /// Human-readable delivery failure reason.
        reason: String,
    },
}

/// What the schedule evaluator reports when it cannot evaluate.
#[derive(Debug, PartialEq, Eq)]
pub enum ScheduleEvaluatorError {
    /// The evaluator knows no such schedule.
    ScheduleNotFound {
        /// The schedule asked for.
        schedule_id: ScheduleId,
    },
    /// A cron expression or another part of a schedule is invalid, or a side
    /// effect of the evaluation failed.
    Other {
        /// Human-readable description.
        reason: String,
    },
}

/// A run named by its workflow and run identifiers.
pub open spec fn run_name(id: WorkflowId, run: RunId) -> Seq<char> {
    uuid_text(id.value) + "/"@ + uuid_text(run.value)
}

/// A run named by its workflow and run identifiers.
pub fn run_name_text(id: &WorkflowId, run: &RunId) -> (text: String)
    ensures
        text@ == run_name(*id, *run),
{
    concat3(id.text().as_str(), "/", run.text().as_str())
}

/// The error that reports a run as not found.
pub open spec fn is_run_not_found(error: EngineError, id: WorkflowId, run: RunId) -> bool {
    error matches EngineError::WorkflowNotFound { workflow_type } && workflow_type@ == run_name(
        id,
        run,
    )
}

/// Reports a run as not found.
pub fn workflow_not_found(id: &WorkflowId, run: &RunId) -> (error: EngineError)
    ensures
        is_run_not_found(error, *id, *run),
{
    EngineError::WorkflowNotFound { workflow_type: run_name_text(id, run) }
}

/// The error is a load failure with the given reason.
pub open spec fn is_load_error(error: EngineError, text: Seq<char>) -> bool {
    error matches EngineError::Load { reason } && reason@ == text
}

/// Reports a load failure.
pub fn load_error(reason: String) -> (error: EngineError)
    ensures
        is_load_error(error, reason@),
{
    EngineError::Load { reason }
}

/// The error is a runtime failure with the given reason.
pub open spec fn is_runtime_error(error: EngineError, text: Seq<char>) -> bool {
    error matches EngineError::Runtime { reason } && reason@ == text
}

/// The error is an unmet precondition with the given reason.
pub open spec fn is_invalid_state(error: EngineError, text: Seq<char>) -> bool {
    error matches EngineError::InvalidState { reason } && reason@ == text
}

impl StoreError {
    /// The text that describes the error.
    pub open spec fn describes(self) -> Seq<char> {
        match self {
            StoreError::NotOwner { reason, .. } => reason@,
            StoreError::SequenceConflict { reason } => reason@,
            StoreError::Backend(reason) => reason@,
        }
    }

    /// Renders the error.
    pub fn message(&self) -> (text: String)
        ensures
            text@ == self.describes(),
    {
        match self {
            StoreError::NotOwner { reason, .. } => reason.clone(),
            StoreError::SequenceConflict { reason } => reason.clone(),
            StoreError::Backend(reason) => reason.clone(),
        }
    }
}

impl DurabilityError {
    /// The text that describes the error.
    pub open spec fn describes(self) -> Seq<char> {
        match self {
            DurabilityError::Store(error) => error.describes(),
            DurabilityError::Other { reason } => reason@,
        }
    }

    /// Renders the error.
    pub fn message(&self) -> (text: String)
        ensures
            text@ == self.describes(),
    {
        match self {
            DurabilityError::Store(error) => error.message(),
            DurabilityError::Other { reason } => reason.clone(),
        }
    }
}

impl QueryError {
    /// The text that describes the error.
    pub open spec fn describes(self) -> Seq<char> {
        match self {
            QueryError::NotRunning(id) => "workflow "@ + uuid_text(id.value) + " is not running"@,
            QueryError::UnknownQuery { reason, .. } => reason@,
            QueryError::Other { reason } => reason@,
        }
    }

    /// Renders the error.
    pub fn message(&self) -> (text: String)
        ensures
            text@ == self.describes(),
    {
        match self {
            QueryError::NotRunning(id) => concat3("workflow ", id.text().as_str(), " is not running"),
            QueryError::UnknownQuery { reason, .. } => reason.clone(),
            QueryError::Other { reason } => reason.clone(),
        }
    }
}

impl PinHolder {
    /// The text that names the holder.
    pub open spec fn describes(self) -> Seq<char> {
        match self {
            PinHolder::InFlightStart => "an in-flight start is pinned to it"@,
            PinHolder::LiveRun { workflow_id, run_id } => "live run `"@ + run_name(
                workflow_id,
                run_id,
            ) + "` is pinned to it"@,
            PinHolder::RecoverableRun { workflow_id } => "recoverable run `"@ + uuid_text(
                workflow_id.value,
            ) + "` is pinned to it"@,
            PinHolder::RecordedChild { child_workflow_id, recorded_by } => "child `"@ + uuid_text(
                child_workflow_id.value,
            ) + "` recorded by `"@ + uuid_text(recorded_by.value)
                + "` is pinned to it and has not started"@,
        }
    }

    /// Names the holder.
    pub fn message(&self) -> (text: String)
        ensures
            text@ == self.describes(),
    {
        match self {
            PinHolder::InFlightStart => "an in-flight start is pinned to it".to_owned(),
            PinHolder::LiveRun { workflow_id, run_id } => concat3(
                "live run `",
                run_name_text(workflow_id, run_id).as_str(),
                "` is pinned to it",
            ),
            PinHolder::RecoverableRun { workflow_id } => concat3(
                "recoverable run `",
                workflow_id.text().as_str(),
                "` is pinned to it",
            ),
            PinHolder::RecordedChild { child_workflow_id, recorded_by } => concat5(
                "child `",
                child_workflow_id.text().as_str(),
                "` recorded by `",
                recorded_by.text().as_str(),
                "` is pinned to it and has not started",
            ),
        }
    }
}

impl SignalRouterError {
    /// The text that describes the error.
    pub open spec fn describes(self) -> Seq<char> {
        match self {
            SignalRouterError::Terminal { workflow_id, run_id } => "workflow "@ + run_name(
                workflow_id,
                run_id,
            ) + " is terminal"@,
            SignalRouterError::Handoff { reason } => "signal resume handoff failed: "@ + reason@,
            SignalRouterError::DeliveryFailed {
                workflow_id,
                run_id,
                process_id,
                signal_name,
                reason,
            } => "signal `"@ + signal_name@ + "` for workflow "@ + run_name(workflow_id, run_id)
                + " could not be delivered to process "@ + decimal(process_id as nat) + ": "@
                + reason@ + ""@,
        }
    }

    /// Renders the error.
    pub fn message(&self) -> (text: String)
        ensures
            text@ == self.describes(),
    {
        match self {
            SignalRouterError::Terminal { workflow_id, run_id } => concat3(
                "workflow ",
                run_name_text(workflow_id, run_id).as_str(),
                " is terminal",
            ),
            SignalRouterError::Handoff { reason } => concat2(
                "signal resume handoff failed: ",
                reason.as_str(),
            ),
            SignalRouterError::DeliveryFailed {
                workflow_id,
                run_id,
                process_id,
                signal_name,
                reason,
            } => concat9(
                "signal `",
                signal_name.as_str(),
                "` for workflow ",
                run_name_text(workflow_id, run_id).as_str(),
                " could not be delivered to process ",
                decimal_text(*process_id as u128).as_str(),
                ": ",
                reason.as_str(),
                "",
            ),
        }
    }
}

/// The engine error that a schedule evaluator error becomes.
pub open spec fn schedule_error(error: ScheduleEvaluatorError) -> EngineError {
    match error {
        ScheduleEvaluatorError::ScheduleNotFound { schedule_id } => EngineError::ScheduleNotFound {
            schedule_id,
        },
        ScheduleEvaluatorError::Other { reason } => EngineError::Schedule { reason },
    }
}

/// Turns a schedule evaluator error into an engine error.
pub fn from_schedule_evaluator_error(error: ScheduleEvaluatorError) -> (engine_error: EngineError)
    ensures
        engine_error == schedule_error(error),
{
    match error {
        ScheduleEvaluatorError::ScheduleNotFound { schedule_id } => EngineError::ScheduleNotFound {
            schedule_id,
        },
        ScheduleEvaluatorError::Other { reason } => EngineError::Schedule { reason },
    }
}

impl EngineError {
    /// The text that describes the error.
    pub open spec fn describes(self) -> Seq<char> {
        match self {
            EngineError::MissingStore => "engine store is required"@,
            EngineError::MissingVisibilityStore => "engine visibility store is required; call EngineBuilder::visibility_store() or EngineBuilder::in_memory_visibility()"@,
            EngineError::Load { reason } => "workflow package load failed: "@ + reason@,
            EngineError::UnknownVersion { workflow_type, version, loaded } => "workflow `"@ + workflow_type@ + "` version `"@ + hash_text(version) + "` is not loaded (loaded versions: "@ + loaded@ + ")"@,
            EngineError::VersionPinned { workflow_type, version, pinned_by } => "cannot unload workflow `"@ + workflow_type@ + "` version `"@ + hash_text(version) + "`: "@ + pinned_by.describes() + ""@,
            EngineError::RouteActive { workflow_type, version } => "cannot unload workflow `"@ + workflow_type@ + "` version `"@ + hash_text(version) + "`: it is the route-active version; route another version first"@,
            EngineError::ManifestMismatch { workflow_type, version, resident_digest, incoming_digest } => "workflow `"@ + workflow_type@ + "` version `"@ + hash_text(version) + "` is already loaded with a different manifest (resident digest "@ + resident_digest@ + ", incoming digest "@ + incoming_digest@ + "); the content hash covers beams only — rebuild the archive so its manifest matches the resident version, or change the beam set"@,
            EngineError::ConflictingEventPublisher => "conflicting event publisher configuration: EngineBuilder::event_streaming installs the broadcast publisher and cannot be combined with EngineBuilder::event_publisher"@,
            EngineError::EventStreaming { reason } => "event streaming setup failed: "@ + reason@,
            EngineError::Store(error) => "store error: "@ + error.describes(),
            EngineError::Durability(error) => "durability error: "@ + error.describes(),
            EngineError::Package { reason } => "package error: "@ + reason@,
            EngineError::Runtime { reason } => "runtime error: "@ + reason@,
            EngineError::Gate3BifReplacementMissing { module, function, arity } => "required Gate-3 BIF `"@ + module@ + ":"@ + function@ + "/"@ + decimal(arity as nat) + "` was missing during runtime startup"@,
            EngineError::CleanupExecutorPoisoned => "process cleanup executor state was poisoned"@,
            EngineError::CleanupExecutorShutdownTimedOut { timeout_millis } => "process cleanup executor did not stop within "@ + decimal(timeout_millis as nat) + "ms"@,
            EngineError::ProcessExitRegistryPoisoned => "process exit registry lifecycle state was poisoned"@,
            EngineError::ProcessExitOwnershipPoisoned { process_id } => "process exit ownership gate for process "@ + decimal(process_id as nat) + " was poisoned"@,
            EngineError::ProcessExitStatePoisoned { process_id } => "process exit outcome state for process "@ + decimal(process_id as nat) + " was poisoned"@,
            EngineError::ProcessExitSubscriptionUnavailable => "beamr process exit-event subscription is already owned"@,
            EngineError::ProcessExitDrainerSpawn { reason } => "process exit drainer could not start: "@ + reason@,
            EngineError::ProcessExitDrainerPoisoned => "process exit drainer state was poisoned"@,
            EngineError::ProcessExitOutcomeMissingAfterEvent { process_id } => "process "@ + decimal(process_id as nat) + " exit event had no takeable outcome"@,
            EngineError::ProcessExitEventStreamDisconnected => "beamr process exit-event publisher disconnected"@,
            EngineError::ProcessExitDrainerShutdownTimedOut { timeout_millis } => "process exit drainer did not stop within "@ + decimal(timeout_millis as nat) + "ms"@,
            EngineError::ProcessExitDrainerPanicked => "process exit drainer terminated unexpectedly"@,
            EngineError::ProcessExitCallbackDispatcherPoisoned => "process exit callback dispatcher state was poisoned"@,
            EngineError::ProcessExitCallbackDispatcherUnavailable => "process exit callback dispatcher is unavailable"@,
            EngineError::ProcessExitCallbackDispatcherShutdownTimedOut { timeout_millis } => "process exit callback dispatcher did not stop within "@ + decimal(timeout_millis as nat) + "ms"@,
            EngineError::ProcessExitAlreadyTerminal { process_id } => "process "@ + decimal(process_id as nat) + " already reached its terminal runtime outcome"@,
            EngineError::ActivityDeliveryPoisoned { process_id } => "activity delivery lock for process "@ + decimal(process_id as nat) + " was poisoned"@,
            EngineError::RegistryPoisoned => "active workflow registry lock was poisoned"@,
            EngineError::CatalogPoisoned => "workflow catalog lock was poisoned"@,
            EngineError::InvalidState { reason } => "invalid workflow state: "@ + reason@,
            EngineError::ShuttingDown => "engine is shutting down"@,
            EngineError::WorkflowNotFound { workflow_type } => "workflow `"@ + workflow_type@ + "` was not found"@,
            EngineError::ScheduleNotFound { schedule_id } => "schedule `"@ + uuid_text(schedule_id.value) + "` was not found"@,
            EngineError::Schedule { reason } => "schedule error: "@ + reason@,
            EngineError::NifRegistration { reason } => "NIF registration failed: "@ + reason@,
            EngineError::SignalRouter(error) => "signal router error: "@ + error.describes(),
            EngineError::Query(error) => "query error: "@ + error.describes(),
        }
    }

    /// Renders the error.
    pub fn message(&self) -> (text: String)
        ensures
            text@ == self.describes(),
    {
        match self {
            EngineError::MissingStore => {
                "engine store is required".to_owned()
            },
            EngineError::MissingVisibilityStore => {
                "engine visibility store is required; call EngineBuilder::visibility_store() or EngineBuilder::in_memory_visibility()".to_owned()
            },
            EngineError::Load { reason } => concat2(
                "workflow package load failed: ",
                reason.as_str(),
            ),
            EngineError::UnknownVersion { workflow_type, version, loaded } => concat7(
                "workflow `",
                workflow_type.as_str(),
                "` version `",
                version.text().as_str(),
                "` is not loaded (loaded versions: ",
                loaded.as_str(),
                ")",
            ),
            EngineError::VersionPinned { workflow_type, version, pinned_by } => concat7(
                "cannot unload workflow `",
                workflow_type.as_str(),
                "` version `",
                version.text().as_str(),
                "`: ",
                pinned_by.message().as_str(),
                "",
            ),
            EngineError::RouteActive { workflow_type, version } => concat5(
                "cannot unload workflow `",
                workflow_type.as_str(),
                "` version `",
                version.text().as_str(),
                "`: it is the route-active version; route another version first",
            ),
            EngineError::ManifestMismatch { workflow_type, version, resident_digest, incoming_digest } => concat9(
                "workflow `",
                workflow_type.as_str(),
                "` version `",
                version.text().as_str(),
                "` is already loaded with a different manifest (resident digest ",
                resident_digest.as_str(),
                ", incoming digest ",
                incoming_digest.as_str(),
                "); the content hash covers beams only — rebuild the archive so its manifest matches the resident version, or change the beam set",
            ),
            EngineError::ConflictingEventPublisher => {
                "conflicting event publisher configuration: EngineBuilder::event_streaming installs the broadcast publisher and cannot be combined with EngineBuilder::event_publisher".to_owned()
            },
            EngineError::EventStreaming { reason } => concat2(
                "event streaming setup failed: ",
                reason.as_str(),
            ),
            EngineError::Store(error) => concat2(
                "store error: ",
                error.message().as_str(),
            ),
            EngineError::Durability(error) => concat2(
                "durability error: ",
                error.message().as_str(),
            ),
            EngineError::Package { reason } => concat2(
                "package error: ",
                reason.as_str(),
            ),
            EngineError::Runtime { reason } => concat2(
                "runtime error: ",
                reason.as_str(),
            ),
            EngineError::Gate3BifReplacementMissing { module, function, arity } => concat7(
                "required Gate-3 BIF `",
                module.as_str(),
                ":",
                function.as_str(),
                "/",
                decimal_text(*arity as u128).as_str(),
                "` was missing during runtime startup",
            ),
            EngineError::CleanupExecutorPoisoned => {
                "process cleanup executor state was poisoned".to_owned()
            },
            EngineError::CleanupExecutorShutdownTimedOut { timeout_millis } => concat3(
                "process cleanup executor did not stop within ",
                decimal_text(*timeout_millis as u128).as_str(),
                "ms",
            ),
            EngineError::ProcessExitRegistryPoisoned => {
                "process exit registry lifecycle state was poisoned".to_owned()
            },
            EngineError::ProcessExitOwnershipPoisoned { process_id } => concat3(
                "process exit ownership gate for process ",
                decimal_text(*process_id as u128).as_str(),
                " was poisoned",
            ),
            EngineError::ProcessExitStatePoisoned { process_id } => concat3(
                "process exit outcome state for process ",
                decimal_text(*process_id as u128).as_str(),
                " was poisoned",
            ),
            EngineError::ProcessExitSubscriptionUnavailable => {
                "beamr process exit-event subscription is already owned".to_owned()
            },
            EngineError::ProcessExitDrainerSpawn { reason } => concat2(
                "process exit drainer could not start: ",
                reason.as_str(),
            ),
            EngineError::ProcessExitDrainerPoisoned => {
                "process exit drainer state was poisoned".to_owned()
            },
            EngineError::ProcessExitOutcomeMissingAfterEvent { process_id } => concat3(
                "process ",
                decimal_text(*process_id as u128).as_str(),
                " exit event had no takeable outcome",
            ),
            EngineError::ProcessExitEventStreamDisconnected => {
                "beamr process exit-event publisher disconnected".to_owned()
            },
            EngineError::ProcessExitDrainerShutdownTimedOut { timeout_millis } => concat3(
                "process exit drainer did not stop within ",
                decimal_text(*timeout_millis as u128).as_str(),
                "ms",
            ),
            EngineError::ProcessExitDrainerPanicked => {
                "process exit drainer terminated unexpectedly".to_owned()
            },
            EngineError::ProcessExitCallbackDispatcherPoisoned => {
                "process exit callback dispatcher state was poisoned".to_owned()
            },
            EngineError::ProcessExitCallbackDispatcherUnavailable => {
                "process exit callback dispatcher is unavailable".to_owned()
            },
            EngineError::ProcessExitCallbackDispatcherShutdownTimedOut { timeout_millis } => concat3(
                "process exit callback dispatcher did not stop within ",
                decimal_text(*timeout_millis as u128).as_str(),
                "ms",
            ),
            EngineError::ProcessExitAlreadyTerminal { process_id } => concat3(
                "process ",
                decimal_text(*process_id as u128).as_str(),
                " already reached its terminal runtime outcome",
            ),
            EngineError::ActivityDeliveryPoisoned { process_id } => concat3(
                "activity delivery lock for process ",
                decimal_text(*process_id as u128).as_str(),
                " was poisoned",
            ),
            EngineError::RegistryPoisoned => {
                "active workflow registry lock was poisoned".to_owned()
            },
            EngineError::CatalogPoisoned => {
                "workflow catalog lock was poisoned".to_owned()
            },
            EngineError::InvalidState { reason } => concat2(
                "invalid workflow state: ",
                reason.as_str(),
            ),
            EngineError::ShuttingDown => {
                "engine is shutting down".to_owned()
            },
            EngineError::WorkflowNotFound { workflow_type } => concat3(
                "workflow `",
                workflow_type.as_str(),
                "` was not found",
            ),
            EngineError::ScheduleNotFound { schedule_id } => concat3(
                "schedule `",
                schedule_id.text().as_str(),
                "` was not found",
            ),
            EngineError::Schedule { reason } => concat2(
                "schedule error: ",
                reason.as_str(),
            ),
            EngineError::NifRegistration { reason } => concat2(
                "NIF registration failed: ",
                reason.as_str(),
            ),
            EngineError::SignalRouter(error) => concat2(
                "signal router error: ",
                error.message().as_str(),
            ),
            EngineError::Query(error) => concat2(
                "query error: ",
                error.message().as_str(),
            ),
        }
    }
}

} // verus!
