//! Start path: record `WorkflowStarted`, spawn, and register.
//!
//! A start is driven step by step. [`StartRun`] names the step to perform next and
//! takes in what came of it; every failure after the process was spawned leads
//! through an abort, so that no live process is left that nothing owns.

use vstd::prelude::*;
use vstd::string::*;

use crate::clock::{after_span, longest_span, span_out_of_range_text, SpanError, TimeSpan, Timestamp};
use crate::clock::{LATEST_SECOND, NANOS_PER_SECOND};
use crate::content_hash::{hash_text, ContentHash};
use crate::error::{is_runtime_error, EngineError};
use crate::event::{Event, PackageVersion, Payload, SearchAttribute, WorkflowStatus};
use crate::history::{head_of, history_head};
use crate::ids::{RunId, WorkflowId};
use crate::loader::catalog::{
    pin_count, pins_one_more, routed_entry, CatalogView, PinnedWorkflow, WorkflowCatalog,
};
use crate::loader::load::LoadedWorkflow;
use crate::loader::package_version_of;
use crate::registry::{Residency, WorkflowHandle};
use crate::text::concat2;

verus! {

/// Optional identifiers used by internal start callers such as continue-as-new.
#[derive(Debug, PartialEq, Eq)]
pub struct StartWorkflowOptions {
    /// Existing workflow identifier to reuse; omitted for a fresh workflow.
    pub workflow_id: Option<WorkflowId>,
    /// Caller-chosen key that steers a fresh workflow to a shard.
    pub routing_key: Option<String>,
    /// Parent run that continued into this run, when applicable.
    pub parent_run_id: Option<RunId>,
    /// Exact loaded package version to spawn; omitted to use the routed version.
    pub loaded_version: Option<ContentHash>,
    /// Initial search attributes recorded atomically with `WorkflowStarted`.
    pub search_attributes: Vec<SearchAttribute>,
    /// Namespace that owns this workflow execution; defaults to `default`.
    pub namespace: Option<String>,
}

impl Default for StartWorkflowOptions {
    fn default() -> (options: Self)
        ensures
            options.workflow_id is None,
            options.routing_key is None,
            options.parent_run_id is None,
            options.loaded_version is None,
            options.search_attributes@.len() == 0,
            options.namespace is None,
    {
        StartWorkflowOptions {
            workflow_id: None,
            routing_key: None,
            parent_run_id: None,
            loaded_version: None,
            search_attributes: Vec::new(),
            namespace: None,
        }
    }
}

/// What is recorded when a run starts.
#[derive(Debug, PartialEq, Eq)]
pub struct WorkflowStartRecord {
    /// Logical workflow type.
    pub workflow_type: String,
    /// Input of the run.
    pub input: Payload,
    /// The run.
    pub run_id: RunId,
    /// The run that it continues, where it continues one.
    pub parent_run_id: Option<RunId>,
    /// Version of the package that the run is pinned to.
    pub package_version: PackageVersion,
}

/// How an abort of a process that nothing monitors ended.
#[derive(Debug, PartialEq, Eq)]
pub enum AbortOutcome {
    /// The process is terminated, and that was observed.
    Terminated,
    /// The process is terminated, but cleaning up after it failed.
    CleanupFailed(EngineError),
    /// The abort is still in flight and will terminate the process.
    TimedOut(EngineError),
    /// No abort could be submitted: the process is live.
    NotSubmitted(EngineError),
    /// Whether the process is live cannot be told.
    Degraded(EngineError),
}

/// How attaching the retraction to an abort in flight ended.
#[derive(Clone, Copy, Debug, PartialEq, Eq, Structural)]
pub enum AttachOutcome {
    /// The abort will retract the registration when it has terminated the process.
    Attached,
    /// There is no abort in flight any more: the process is terminated.
    NoJob,
    /// The retraction could not be attached.
    Failed,
}

/// What came of a step of a start.
#[derive(Debug, PartialEq, Eq)]
pub enum StartReply {
    /// The step was performed.
    Done,
    /// The process was spawned.
    Spawned(u64),
    /// The step failed.
    Failed(EngineError),
    /// The abort ended.
    Aborted(AbortOutcome),
    /// The attachment ended.
    Attached(AttachOutcome),
}

/// What holds of a start so far.
#[derive(Clone, Copy, Debug, PartialEq, Eq, Structural)]
pub struct StartFacts {
    /// `WorkflowStarted` is recorded.
    pub started_recorded: bool,
    /// When the recorded deadline is due, where one is recorded.
    pub deadline: Option<Timestamp>,
    /// The deadline is armed.
    pub deadline_armed: bool,
    /// The process that was spawned.
    pub pid: Option<u64>,
    /// The registry owns the run.
    pub published: bool,
    /// A completion monitor watches the process.
    pub monitored: bool,
    /// The process is terminated.
    pub terminated: bool,
    /// An abort in flight will terminate the process and retract the registration.
    pub abort_pending: bool,
    /// An abort of the process failed, and its error is what the start reports.
    pub abort_failed: bool,
}

/// The step to perform next, or how the start ended.
#[derive(Debug, PartialEq, Eq)]
pub enum StartPhase {
    /// Record `WorkflowStarted` with the initial search attributes.
    RecordStarted,
    /// Record the start of the deadline timer.
    RecordDeadline {
        /// When the deadline is due.
        fire_at: Timestamp,
    },
    /// Bring the visibility projection up to date.
    UpsertVisibility,
    /// Make sure that the workflow type has a supervisor.
    EnsureSupervisor,
    /// Spawn the workflow process.
    Spawn,
    /// Place the process under its supervisor.
    Place,
    /// Register the run.
    Publish,
    /// Arm the recorded deadline.
    ArmDeadline {
        /// When the deadline is due.
        fire_at: Timestamp,
    },
    /// Install the completion monitor.
    InstallMonitor,
    /// Deliver signals that were deferred until the run became resident.
    DeliverSignals,
    /// Remove what a failed registration may have left.
    RetractPartial {
        /// Why the start failed.
        cause: EngineError,
    },
    /// Abort a process that is not registered.
    AbortUnpublished {
        /// Why the start failed.
        cause: EngineError,
    },
    /// Abort a process that is registered.
    AbortPublished {
        /// Why the start failed.
        cause: EngineError,
    },
    /// Attach the retraction of the registration to the abort in flight.
    AttachFinalizer {
        /// Why the start failed.
        cause: EngineError,
    },
    /// Remove the registration of a process that is terminated.
    RetractPublication {
        /// Why the start failed.
        cause: EngineError,
    },
    /// Install a completion monitor for a process that could not be aborted.
    RetainWithMonitor {
        /// Why the start failed.
        cause: EngineError,
    },
    /// The run has started.
    Started,
    /// The start failed.
    Failed(EngineError),
}

/// A start on its way.
#[derive(Debug, PartialEq, Eq)]
pub struct StartRun {
    /// The one clock reading of the start.
    pub started_at: Timestamp,
    /// The declared timeout of the workflow.
    pub declared_timeout: Option<TimeSpan>,
    /// What holds so far.
    pub facts: StartFacts,
    /// The step to perform next, or how the start ended.
    pub phase: StartPhase,
}

/// The instant at which a deadline is due, or why it has none.
pub open spec fn deadline_result(
    started_at: Timestamp,
    timeout: TimeSpan,
    result: Result<Timestamp, EngineError>,
) -> bool {
    match result {
        Ok(fire_at) => {
            &&& timeout.nanoseconds() <= longest_span()
            &&& fire_at.wf()
            &&& fire_at.nanoseconds() == started_at.nanoseconds() + timeout.nanoseconds()
        },
        Err(error) => if timeout.nanoseconds() > longest_span() {
            is_runtime_error(
                error,
                "declared workflow timeout is out of range: "@ + span_out_of_range_text(),
            )
        } else {
            &&& started_at.nanoseconds() + timeout.nanoseconds() >= (LATEST_SECOND + 1)
                * NANOS_PER_SECOND
            &&& is_runtime_error(
                error,
                "declared workflow timeout overflowed the deadline fire time"@,
            )
        },
    }
}

/// The deadline fire time for a run started at `started_at` with `timeout`.
///
/// It is derived from the same instant that `WorkflowStarted` records, never from a
/// second clock reading.
///
/// # Errors
///
/// [`EngineError::Runtime`] when the timeout is out of range or the deadline lies
/// outside the calendar.
pub fn deadline_fire_at(started_at: Timestamp, timeout: TimeSpan) -> (result: Result<
    Timestamp,
    EngineError,
>)
    requires
        started_at.wf(),
        timeout.wf(),
    ensures
        deadline_result(started_at, timeout, result),
{
    match after_span(started_at, timeout) {
        Ok(fire_at) => Ok(fire_at),
        Err(SpanError::OutOfRange(reason)) => Err(
            EngineError::Runtime {
                reason: concat2("declared workflow timeout is out of range: ", reason.as_str()),
            },
        ),
        Err(SpanError::Overflow) => Err(
            EngineError::Runtime {
                reason: "declared workflow timeout overflowed the deadline fire time".to_owned(),
            },
        ),
    }
}

/// The workflow that a start resolves: the exact version where one is asked for, and
/// the routed one otherwise.
pub open spec fn start_resolves(
    catalog: CatalogView,
    workflow_type: Seq<char>,
    loaded_version: Option<ContentHash>,
) -> Option<LoadedWorkflow> {
    match loaded_version {
        Some(version) => if catalog.by_version.contains_key((workflow_type, version)) {
            Some(catalog.by_version[(workflow_type, version)].workflow)
        } else {
            None
        },
        None => match routed_entry(catalog, workflow_type) {
            Some(entry) => Some(entry.workflow),
            None => None,
        },
    }
}

/// The version that a start resolves can be pinned once more.
pub open spec fn can_pin(
    catalog: CatalogView,
    workflow_type: Seq<char>,
    loaded_version: Option<ContentHash>,
) -> bool {
    start_resolves(catalog, workflow_type, loaded_version) matches Some(workflow) ==> pin_count(
        catalog.pins,
        (workflow@.workflow_type, workflow@.version),
    ) < usize::MAX
}

/// Whether the version that a start resolves can be pinned once more.
pub fn has_pin_room(
    catalog: &WorkflowCatalog,
    workflow_type: &str,
    loaded_version: &Option<ContentHash>,
) -> (room: bool)
    requires
        catalog.wf(),
    ensures
        room == can_pin(catalog@, workflow_type@, *loaded_version),
{
    let resolved = match loaded_version {
        Some(version) => catalog.get(workflow_type, version),
        None => catalog.routed(workflow_type),
    };
    match resolved {
        Some(workflow) => catalog.pinned_starts_of(workflow.workflow_type(), workflow.version())
            < usize::MAX,
        None => true,
    }
}

/// Resolves the workflow that a start runs, holding its version against unload.
///
/// # Errors
///
/// [`EngineError::WorkflowNotFound`] when the type, or the asked-for version of it, is
/// not loaded; nothing has then been recorded and the catalog is unchanged.
pub fn resolve_start(
    catalog: &mut WorkflowCatalog,
    workflow_type: &str,
    loaded_version: &Option<ContentHash>,
) -> (result: Result<PinnedWorkflow, EngineError>)
    requires
        old(catalog).wf(),
        can_pin(old(catalog)@, workflow_type@, *loaded_version),
    ensures
        final(catalog).wf(),
        match result {
            Ok(pinned) => {
                &&& start_resolves(old(catalog)@, workflow_type@, *loaded_version) == Some(
                    pinned.pinned(),
                )
                &&& pinned.key().0 == workflow_type@
                &&& loaded_version matches Some(version) ==> pinned.key().1 == version
                &&& pins_one_more(old(catalog)@, final(catalog)@, pinned.key())
            },
            Err(error) => {
                &&& start_resolves(old(catalog)@, workflow_type@, *loaded_version) is None
                &&& error matches EngineError::WorkflowNotFound { workflow_type: missing }
                    && missing@ == workflow_type@
                &&& final(catalog)@ == old(catalog)@
            },
        },
{
    proof {
        catalog.entries_are_kept_under_their_own_key();
    }
    let resolved = match loaded_version {
        Some(version) => catalog.resolve_exact(workflow_type, version),
        None => catalog.resolve_routed(workflow_type),
    };
    match resolved {
        Some(pinned) => Ok(pinned),
        None => Err(
            EngineError::WorkflowNotFound { workflow_type: workflow_type.to_owned() },
        ),
    }
}

/// The head at which a start appends: that of the existing history where the workflow
/// identifier was supplied, and zero for a fresh workflow.
pub fn initial_head(supplied_workflow_id: bool, history: &[Event]) -> (head: u64)
    ensures
        head == if supplied_workflow_id {
            head_of(history@)
        } else {
            0
        },
{
    if supplied_workflow_id {
        history_head(history)
    } else {
        0
    }
}

/// What is recorded when a run of a resolved workflow starts.
pub fn start_record(
    workflow_type: &str,
    input: Payload,
    run_id: RunId,
    parent_run_id: Option<RunId>,
    workflow: &LoadedWorkflow,
) -> (record: WorkflowStartRecord)
    ensures
        record.workflow_type@ == workflow_type@,
        record.input == input,
        record.run_id == run_id,
        record.parent_run_id == parent_run_id,
        record.package_version.text@ == hash_text(workflow@.version),
{
    WorkflowStartRecord {
        workflow_type: workflow_type.to_owned(),
        input,
        run_id,
        parent_run_id,
        package_version: package_version_of(workflow.version()),
    }
}

/// The namespace of a run: the one asked for, or `default`.
pub open spec fn namespace_or_default(namespace: Option<String>) -> Seq<char> {
    match namespace {
        Some(namespace) => namespace@,
        None => "default"@,
    }
}

/// The handle under which a started run is registered.
pub fn started_handle(
    workflow_id: WorkflowId,
    run_id: RunId,
    pid: u64,
    workflow: &LoadedWorkflow,
    namespace: Option<String>,
) -> (handle: WorkflowHandle)
    ensures
        handle.workflow_id == workflow_id,
        handle.run_id == run_id,
        handle.pid == pid,
        handle.workflow_type@ == workflow@.workflow_type,
        handle.namespace@ == namespace_or_default(namespace),
        namespace matches Some(asked) ==> handle.namespace@ == asked@,
        namespace is None ==> handle.namespace@ == "default"@,
        handle.loaded_version == workflow@.version,
        handle.cached_status == WorkflowStatus::Running,
        handle.residency == Residency::Resident,
{
    WorkflowHandle {
        workflow_id,
        run_id,
        pid,
        workflow_type: workflow.workflow_type().to_owned(),
        namespace: match namespace {
            Some(namespace) => namespace,
            None => "default".to_owned(),
        },
        loaded_version: *workflow.version(),
        cached_status: WorkflowStatus::Running,
        residency: Residency::Resident,
    }
}

/// Nothing holds of a start that has not begun.
pub open spec fn no_facts() -> StartFacts {
    StartFacts {
        started_recorded: false,
        deadline: None,
        deadline_armed: false,
        pid: None,
        published: false,
        monitored: false,
        terminated: false,
        abort_pending: false,
        abort_failed: false,
    }
}

impl StartRun {
    /// The clock reading and the declared timeout are well-formed.
    pub open spec fn wf(self) -> bool {
        &&& self.started_at.wf()
        &&& self.declared_timeout matches Some(timeout) ==> timeout.wf()
    }

    /// The start goes on to a phase, with the facts as given.
    pub open spec fn moved(self, facts: StartFacts, phase: StartPhase) -> StartRun {
        StartRun { facts, phase, ..self }
    }

    /// How a start goes on when a step has been answered. An answer that does not fit
    /// the step leaves the start as it is.
    pub open spec fn goes_to(self, reply: StartReply, after: StartRun) -> bool {
        let facts = self.facts;
        match (self.phase, reply) {
            (StartPhase::RecordStarted, StartReply::Done) => {
                let recorded = StartFacts { started_recorded: true, ..facts };
                match self.declared_timeout {
                    None => after == self.moved(recorded, StartPhase::UpsertVisibility),
                    Some(timeout) => match after.phase {
                        StartPhase::RecordDeadline { fire_at } => {
                            &&& deadline_result(self.started_at, timeout, Ok(fire_at))
                            &&& after == self.moved(
                                recorded,
                                StartPhase::RecordDeadline { fire_at },
                            )
                        },
                        StartPhase::Failed(error) => {
                            &&& deadline_result(self.started_at, timeout, Err(error))
                            &&& after == self.moved(recorded, StartPhase::Failed(error))
                        },
                        _ => false,
                    },
                }
            },
            (StartPhase::RecordDeadline { fire_at }, StartReply::Done) => after == self.moved(
                StartFacts { deadline: Some(fire_at), ..facts },
                StartPhase::UpsertVisibility,
            ),
            (StartPhase::UpsertVisibility, StartReply::Done) => after == self.moved(
                facts,
                StartPhase::EnsureSupervisor,
            ),
            (StartPhase::EnsureSupervisor, StartReply::Done) => after == self.moved(
                facts,
                StartPhase::Spawn,
            ),
            (StartPhase::Spawn, StartReply::Spawned(pid)) => after == self.moved(
                StartFacts { pid: Some(pid), ..facts },
                StartPhase::Place,
            ),
            (StartPhase::RecordStarted, StartReply::Failed(error))
            | (StartPhase::RecordDeadline { .. }, StartReply::Failed(error))
            | (StartPhase::UpsertVisibility, StartReply::Failed(error))
            | (StartPhase::EnsureSupervisor, StartReply::Failed(error))
            | (StartPhase::Spawn, StartReply::Failed(error)) => after == self.moved(
                facts,
                StartPhase::Failed(error),
            ),
            (StartPhase::Place, StartReply::Done) => after == self.moved(facts, StartPhase::Publish),
            (StartPhase::Place, StartReply::Failed(cause)) => after == self.moved(
                facts,
                StartPhase::AbortUnpublished { cause },
            ),
            (StartPhase::Publish, StartReply::Done) => after == self.moved(
                StartFacts { published: true, ..facts },
                match facts.deadline {
                    Some(fire_at) => StartPhase::ArmDeadline { fire_at },
                    None => StartPhase::InstallMonitor,
                },
            ),
            (StartPhase::Publish, StartReply::Failed(cause)) => after == self.moved(
                facts,
                StartPhase::RetractPartial { cause },
            ),
            (StartPhase::RetractPartial { cause }, StartReply::Done)
            | (StartPhase::RetractPartial { cause }, StartReply::Failed(_)) => after == self.moved(
                facts,
                StartPhase::AbortUnpublished { cause },
            ),
            (StartPhase::AbortUnpublished { cause }, StartReply::Aborted(outcome)) => match outcome {
                AbortOutcome::Terminated => after == self.moved(
                    StartFacts { terminated: true, ..facts },
                    StartPhase::Failed(cause),
                ),
                AbortOutcome::CleanupFailed(error) => after == self.moved(
                    StartFacts { terminated: true, abort_failed: true, ..facts },
                    StartPhase::Failed(error),
                ),
                AbortOutcome::TimedOut(error)
                | AbortOutcome::NotSubmitted(error)
                | AbortOutcome::Degraded(error) => after == self.moved(
                    StartFacts { abort_failed: true, ..facts },
                    StartPhase::Failed(error),
                ),
            },
            (StartPhase::ArmDeadline { .. }, StartReply::Done) => after == self.moved(
                StartFacts { deadline_armed: true, ..facts },
                StartPhase::InstallMonitor,
            ),
            (StartPhase::InstallMonitor, StartReply::Done) => after == self.moved(
                StartFacts { monitored: true, ..facts },
                StartPhase::DeliverSignals,
            ),
            (StartPhase::ArmDeadline { .. }, StartReply::Failed(cause))
            | (StartPhase::InstallMonitor, StartReply::Failed(cause)) => after == self.moved(
                facts,
                StartPhase::AbortPublished { cause },
            ),
            (StartPhase::DeliverSignals, StartReply::Done)
            | (StartPhase::DeliverSignals, StartReply::Failed(_)) => after == self.moved(
                facts,
                StartPhase::Started,
            ),
            (StartPhase::AbortPublished { cause }, StartReply::Aborted(outcome)) => match outcome {
                AbortOutcome::Terminated | AbortOutcome::CleanupFailed(_) => after == self.moved(
                    StartFacts { terminated: true, ..facts },
                    StartPhase::RetractPublication { cause },
                ),
                AbortOutcome::TimedOut(_) => after == self.moved(
                    facts,
                    StartPhase::AttachFinalizer { cause },
                ),
                AbortOutcome::NotSubmitted(_) => after == self.moved(
                    facts,
                    StartPhase::RetainWithMonitor { cause },
                ),
                AbortOutcome::Degraded(_) => after == self.moved(facts, StartPhase::Failed(cause)),
            },
            (StartPhase::AttachFinalizer { cause }, StartReply::Attached(outcome)) => match outcome {
                AttachOutcome::Attached => after == self.moved(
                    StartFacts { abort_pending: true, ..facts },
                    StartPhase::Failed(cause),
                ),
                AttachOutcome::NoJob => after == self.moved(
                    StartFacts { terminated: true, ..facts },
                    StartPhase::RetractPublication { cause },
                ),
                AttachOutcome::Failed => after == self.moved(facts, StartPhase::Failed(cause)),
            },
            (StartPhase::RetractPublication { cause }, StartReply::Done) => after == self.moved(
                StartFacts { published: false, ..facts },
                StartPhase::Failed(cause),
            ),
            (StartPhase::RetractPublication { cause }, StartReply::Failed(_)) => after
                == self.moved(facts, StartPhase::Failed(cause)),
            (StartPhase::RetainWithMonitor { cause }, StartReply::Done) => after == self.moved(
                StartFacts { monitored: true, ..facts },
                StartPhase::Failed(cause),
            ),
            (StartPhase::RetainWithMonitor { cause }, StartReply::Failed(_)) => after == self.moved(
                facts,
                StartPhase::Failed(cause),
            ),
            _ => after == self,
        }
    }

    /// A start about to record `WorkflowStarted`.
    pub fn new(started_at: Timestamp, declared_timeout: Option<TimeSpan>) -> (run: Self)
        ensures
            run.started_at == started_at,
            run.declared_timeout == declared_timeout,
            run.facts == no_facts(),
            run.phase is RecordStarted,
    {
        StartRun {
            started_at,
            declared_timeout,
            facts: StartFacts {
                started_recorded: false,
                deadline: None,
                deadline_armed: false,
                pid: None,
                published: false,
                monitored: false,
                terminated: false,
                abort_pending: false,
                abort_failed: false,
            },
            phase: StartPhase::RecordStarted,
        }
    }

    /// Takes in what came of the step that the start asked for.
    pub fn advance(self, reply: StartReply) -> (after: Self)
        requires
            self.wf(),
        ensures
            self.goes_to(reply, after),
            after.wf(),
    {
        let StartRun { started_at, declared_timeout, facts, phase } = self;
        let mut facts = facts;
        let phase = match (phase, reply) {
            (StartPhase::RecordStarted, StartReply::Done) => {
                facts.started_recorded = true;
                match declared_timeout {
                    None => StartPhase::UpsertVisibility,
                    Some(timeout) => match deadline_fire_at(started_at, timeout) {
                        Ok(fire_at) => StartPhase::RecordDeadline { fire_at },
                        Err(error) => StartPhase::Failed(error),
                    },
                }
            },
            (StartPhase::RecordDeadline { fire_at }, StartReply::Done) => {
                facts.deadline = Some(fire_at);
                StartPhase::UpsertVisibility
            },
            (StartPhase::UpsertVisibility, StartReply::Done) => StartPhase::EnsureSupervisor,
            (StartPhase::EnsureSupervisor, StartReply::Done) => StartPhase::Spawn,
            (StartPhase::Spawn, StartReply::Spawned(pid)) => {
                facts.pid = Some(pid);
                StartPhase::Place
            },
            (StartPhase::RecordStarted, StartReply::Failed(error)) => StartPhase::Failed(error),
            (StartPhase::RecordDeadline { .. }, StartReply::Failed(error)) => {
                StartPhase::Failed(error)
            },
            (StartPhase::UpsertVisibility, StartReply::Failed(error)) => StartPhase::Failed(error),
            (StartPhase::EnsureSupervisor, StartReply::Failed(error)) => StartPhase::Failed(error),
            (StartPhase::Spawn, StartReply::Failed(error)) => StartPhase::Failed(error),
            (StartPhase::Place, StartReply::Done) => StartPhase::Publish,
            (StartPhase::Place, StartReply::Failed(cause)) => StartPhase::AbortUnpublished { cause },
            (StartPhase::Publish, StartReply::Done) => {
                facts.published = true;
                match facts.deadline {
                    Some(fire_at) => StartPhase::ArmDeadline { fire_at },
                    None => StartPhase::InstallMonitor,
                }
            },
            (StartPhase::Publish, StartReply::Failed(cause)) => StartPhase::RetractPartial { cause },
            (StartPhase::RetractPartial { cause }, StartReply::Done) => {
                StartPhase::AbortUnpublished { cause }
            },
            (StartPhase::RetractPartial { cause }, StartReply::Failed(_)) => {
                StartPhase::AbortUnpublished { cause }
            },
            (StartPhase::AbortUnpublished { cause }, StartReply::Aborted(outcome)) => {
                match outcome {
                    AbortOutcome::Terminated => {
                        facts.terminated = true;
                        StartPhase::Failed(cause)
                    },
                    AbortOutcome::CleanupFailed(error) => {
                        facts.terminated = true;
                        facts.abort_failed = true;
                        StartPhase::Failed(error)
                    },
                    AbortOutcome::TimedOut(error) => {
                        facts.abort_failed = true;
                        StartPhase::Failed(error)
                    },
                    AbortOutcome::NotSubmitted(error) => {
                        facts.abort_failed = true;
                        StartPhase::Failed(error)
                    },
                    AbortOutcome::Degraded(error) => {
                        facts.abort_failed = true;
                        StartPhase::Failed(error)
                    },
                }
            },
            (StartPhase::ArmDeadline { .. }, StartReply::Done) => {
                facts.deadline_armed = true;
                StartPhase::InstallMonitor
            },
            (StartPhase::InstallMonitor, StartReply::Done) => {
                facts.monitored = true;
                StartPhase::DeliverSignals
            },
            (StartPhase::ArmDeadline { .. }, StartReply::Failed(cause)) => {
                StartPhase::AbortPublished { cause }
            },
            (StartPhase::InstallMonitor, StartReply::Failed(cause)) => {
                StartPhase::AbortPublished { cause }
            },
            (StartPhase::DeliverSignals, StartReply::Done) => StartPhase::Started,
            (StartPhase::DeliverSignals, StartReply::Failed(_)) => StartPhase::Started,
            (StartPhase::AbortPublished { cause }, StartReply::Aborted(outcome)) => {
                match outcome {
                    AbortOutcome::Terminated => {
                        facts.terminated = true;
                        StartPhase::RetractPublication { cause }
                    },
                    AbortOutcome::CleanupFailed(_) => {
                        facts.terminated = true;
                        StartPhase::RetractPublication { cause }
                    },
                    AbortOutcome::TimedOut(_) => StartPhase::AttachFinalizer { cause },
                    AbortOutcome::NotSubmitted(_) => StartPhase::RetainWithMonitor { cause },
                    AbortOutcome::Degraded(_) => StartPhase::Failed(cause),
                }
            },
            (StartPhase::AttachFinalizer { cause }, StartReply::Attached(outcome)) => {
                match outcome {
                    AttachOutcome::Attached => {
                        facts.abort_pending = true;
                        StartPhase::Failed(cause)
                    },
                    AttachOutcome::NoJob => {
                        facts.terminated = true;
                        StartPhase::RetractPublication { cause }
                    },
                    AttachOutcome::Failed => StartPhase::Failed(cause),
                }
            },
            (StartPhase::RetractPublication { cause }, StartReply::Done) => {
                facts.published = false;
                StartPhase::Failed(cause)
            },
            (StartPhase::RetractPublication { cause }, StartReply::Failed(_)) => {
                StartPhase::Failed(cause)
            },
            (StartPhase::RetainWithMonitor { cause }, StartReply::Done) => {
                facts.monitored = true;
                StartPhase::Failed(cause)
            },
            (StartPhase::RetainWithMonitor { cause }, StartReply::Failed(_)) => {
                StartPhase::Failed(cause)
            },
            (phase, _) => phase,
        };
        StartRun { started_at, declared_timeout, facts, phase }
    }
}

/// A start that has not begun.
pub open spec fn unbegun(run: StartRun) -> bool {
    run.wf() && run.facts == no_facts() && run.phase is RecordStarted
}

/// The states that a start goes through, from its beginning, as its steps are
/// answered.
pub open spec fn start_trace(runs: Seq<StartRun>, replies: Seq<StartReply>) -> bool {
    &&& runs.len() == replies.len() + 1
    &&& unbegun(runs[0])
    &&& forall|i: int|
        0 <= i < replies.len() ==> (#[trigger] runs[i]).goes_to(replies[i], runs[i + 1])
}

/// What is recorded of a deadline once it has been decided: one exactly where a timeout
/// is declared, due that long after the start.
pub open spec fn deadline_settled(run: StartRun) -> bool {
    match (run.declared_timeout, run.facts.deadline) {
        (None, None) => true,
        (Some(timeout), Some(fire_at)) => deadline_result(run.started_at, timeout, Ok(fire_at)),
        _ => false,
    }
}

/// What holds of a start in every state that it reaches.
spec fn consistent(run: StartRun) -> bool {
    let facts = run.facts;
    match run.phase {
        StartPhase::RecordStarted => facts == no_facts(),
        StartPhase::RecordDeadline { fire_at } => {
            &&& facts == (StartFacts { started_recorded: true, ..no_facts() })
            &&& run.declared_timeout matches Some(timeout) && deadline_result(
                run.started_at,
                timeout,
                Ok(fire_at),
            )
        },
        StartPhase::UpsertVisibility | StartPhase::EnsureSupervisor | StartPhase::Spawn => {
            &&& facts == (StartFacts {
                started_recorded: true,
                deadline: facts.deadline,
                ..no_facts()
            })
            &&& deadline_settled(run)
        },
        StartPhase::Place
        | StartPhase::Publish
        | StartPhase::RetractPartial { .. }
        | StartPhase::AbortUnpublished { .. } => {
            &&& facts == (StartFacts {
                started_recorded: true,
                deadline: facts.deadline,
                pid: facts.pid,
                ..no_facts()
            })
            &&& facts.pid is Some
            &&& deadline_settled(run)
        },
        StartPhase::ArmDeadline { .. } => {
            &&& facts.started_recorded && facts.pid is Some && facts.published
            &&& !facts.terminated && !facts.monitored
            &&& facts.deadline is Some
            &&& deadline_settled(run)
        },
        StartPhase::InstallMonitor => {
            &&& facts.started_recorded && facts.pid is Some && facts.published
            &&& !facts.terminated && !facts.monitored
            &&& deadline_settled(run)
            &&& facts.deadline is Some <==> facts.deadline_armed
        },
        StartPhase::DeliverSignals | StartPhase::Started => {
            &&& facts.started_recorded && facts.pid is Some && facts.published
            &&& !facts.terminated && facts.monitored
            &&& deadline_settled(run)
            &&& facts.deadline is Some <==> facts.deadline_armed
        },
        StartPhase::AbortPublished { .. }
        | StartPhase::AttachFinalizer { .. }
        | StartPhase::RetainWithMonitor { .. } => {
            &&& facts.started_recorded && facts.pid is Some && facts.published
            &&& !facts.terminated
            &&& deadline_settled(run)
        },
        StartPhase::RetractPublication { .. } => {
            &&& facts.started_recorded && facts.pid is Some && facts.published
            &&& facts.terminated
            &&& deadline_settled(run)
        },
        StartPhase::Failed(_) => {
            &&& facts.pid is Some ==> facts.started_recorded && deadline_settled(run) && (
            facts.terminated || facts.published || facts.abort_failed)
            &&& facts.published ==> facts.pid is Some
        },
    }
}

/// A step keeps a start consistent.
proof fn lemma_step(run: StartRun, reply: StartReply, after: StartRun)
    requires
        run.wf(),
        consistent(run),
        run.goes_to(reply, after),
    ensures
        after.wf(),
        consistent(after),
{
}

/// Every state of a start is consistent.
proof fn lemma_trace(runs: Seq<StartRun>, replies: Seq<StartReply>)
    requires
        start_trace(runs, replies),
    ensures
        runs.last().wf(),
        consistent(runs.last()),
    decreases replies.len(),
{
    if replies.len() > 0 {
        let earlier_runs = runs.drop_last();
        let earlier_replies = replies.drop_last();
        assert forall|i: int| 0 <= i < earlier_replies.len() implies (
        #[trigger] earlier_runs[i]).goes_to(earlier_replies[i], earlier_runs[i + 1]) by {
            assert(runs[i].goes_to(replies[i], runs[i + 1]));
        }
        lemma_trace(earlier_runs, earlier_replies);
        let n = replies.len() - 1;
        assert(runs[n].goes_to(replies[n], runs[n + 1]));
        lemma_step(runs[n], replies[n], runs[n + 1]);
    }
}

/// A process is spawned only after the start is recorded, and after its deadline is
/// recorded where the workflow declares a timeout.
pub proof fn a_process_is_spawned_only_after_the_start_is_recorded(
    runs: Seq<StartRun>,
    replies: Seq<StartReply>,
)
    requires
        start_trace(runs, replies),
        runs.last().facts.pid is Some,
    ensures
        runs.last().facts.started_recorded,
        deadline_settled(runs.last()),
{
    lemma_trace(runs, replies);
}

/// A failed start leaves no unowned process: what it spawned is terminated, or still
/// registered, or the start reports the failure of the abort itself.
pub proof fn a_failed_start_leaves_no_unowned_process(
    runs: Seq<StartRun>,
    replies: Seq<StartReply>,
)
    requires
        start_trace(runs, replies),
        runs.last().phase is Failed,
        runs.last().facts.pid is Some,
    ensures
        runs.last().facts.terminated || runs.last().facts.published
            || runs.last().facts.abort_failed,
{
    lemma_trace(runs, replies);
}

/// A registration is given up only after the process was seen to be terminated.
pub proof fn ownership_is_given_up_only_after_termination(
    runs: Seq<StartRun>,
    replies: Seq<StartReply>,
    i: int,
)
    requires
        start_trace(runs, replies),
        0 <= i < replies.len(),
        runs[i].facts.published,
        !runs[i + 1].facts.published,
    ensures
        runs[i].facts.terminated,
{
    let earlier_runs = runs.take(i + 1);
    let earlier_replies = replies.take(i);
    assert forall|k: int| 0 <= k < earlier_replies.len() implies (
    #[trigger] earlier_runs[k]).goes_to(earlier_replies[k], earlier_runs[k + 1]) by {
        assert(runs[k].goes_to(replies[k], runs[k + 1]));
    }
    lemma_trace(earlier_runs, earlier_replies);
    assert(runs[i].goes_to(replies[i], runs[i + 1]));
}

/// A run that has started is recorded, registered and monitored, and its deadline is
/// armed exactly where the workflow declares a timeout.
pub proof fn a_started_run_is_registered_and_its_deadline_armed(
    runs: Seq<StartRun>,
    replies: Seq<StartReply>,
)
    requires
        start_trace(runs, replies),
        runs.last().phase is Started,
    ensures
        runs.last().facts.started_recorded,
        runs.last().facts.pid is Some,
        runs.last().facts.published,
        runs.last().facts.monitored,
        deadline_settled(runs.last()),
        runs.last().declared_timeout is Some <==> runs.last().facts.deadline_armed,
{
    lemma_trace(runs, replies);
}

/// A run belongs to the namespace that it was started in, and only one that was started in
/// none belongs to `default`: starts in different namespaces are registered in different
/// ones.
pub proof fn a_run_belongs_to_the_namespace_it_was_started_in(
    asked: Option<String>,
    other: Option<String>,
)
    ensures
        asked matches Some(namespace) ==> namespace_or_default(asked) == namespace@,
        asked is None ==> namespace_or_default(asked) == "default"@,
        asked is Some && other is Some && asked->Some_0@ != other->Some_0@ ==> namespace_or_default(
            asked,
        ) != namespace_or_default(other),
{
}

/// A start that asks for a version runs on exactly that version, whatever is routed, and
/// one that asks for none runs on the version that its type is routed at. Nothing else is
/// ever resolved.
pub proof fn a_start_runs_on_the_version_it_asks_for_or_the_routed_one(
    catalog: CatalogView,
    rerouted: CatalogView,
    workflow_type: Seq<char>,
    version: ContentHash,
)
    requires
        rerouted.by_version == catalog.by_version,
    ensures
        start_resolves(catalog, workflow_type, Some(version)) == start_resolves(
            rerouted,
            workflow_type,
            Some(version),
        ),
        start_resolves(catalog, workflow_type, Some(version)) is Some
            <==> catalog.by_version.contains_key((workflow_type, version)),
        start_resolves(catalog, workflow_type, Some(version)) matches Some(workflow) ==> workflow
            == catalog.by_version[(workflow_type, version)].workflow,
        catalog.routed.contains_key(workflow_type) ==> start_resolves(catalog, workflow_type, None)
            == start_resolves(catalog, workflow_type, Some(catalog.routed[workflow_type])),
        !catalog.routed.contains_key(workflow_type) ==> start_resolves(catalog, workflow_type, None)
            is None,
{
}

/// A version has room for a pin as long as it is pinned less often than can be counted, and
/// a start that resolves nothing takes none.
pub proof fn only_a_full_count_leaves_no_room_for_a_pin(
    catalog: CatalogView,
    workflow_type: Seq<char>,
    asked: Option<ContentHash>,
)
    ensures
        start_resolves(catalog, workflow_type, asked) is None ==> can_pin(
            catalog,
            workflow_type,
            asked,
        ),
        start_resolves(catalog, workflow_type, asked) matches Some(workflow) ==> {
            let key = (workflow@.workflow_type, workflow@.version);
            can_pin(catalog, workflow_type, asked) <==> !(catalog.pins.contains_key(key)
                && catalog.pins[key] == usize::MAX)
        },
{
}

/// A deadline is due exactly its timeout after the start, and is refused only where the
/// timeout is out of range or the calendar ends before it.
pub proof fn a_deadline_is_due_its_timeout_after_the_start(
    started_at: Timestamp,
    timeout: TimeSpan,
    result: Result<Timestamp, EngineError>,
)
    requires
        deadline_result(started_at, timeout, result),
    ensures
        result matches Ok(fire_at) ==> fire_at.wf() && fire_at.nanoseconds()
            - started_at.nanoseconds() == timeout.nanoseconds() && timeout.nanoseconds()
            <= longest_span(),
        result is Err ==> timeout.nanoseconds() > longest_span() || started_at.nanoseconds()
            + timeout.nanoseconds() >= (LATEST_SECOND + 1) * NANOS_PER_SECOND,
        result matches Err(error) ==> error is Runtime,
{
}

/// What is known of a start becomes so only by the step that makes it so: the start is
/// recorded by its record, the process is the one that was spawned, the run is registered
/// by its publication and given up by its retraction alone, and the process counts as
/// terminated only where an abort ended it.
pub proof fn what_is_known_of_a_start_was_brought_about(
    run: StartRun,
    reply: StartReply,
    after: StartRun,
)
    requires
        run.goes_to(reply, after),
    ensures
        after.started_at == run.started_at,
        after.declared_timeout == run.declared_timeout,
        after.facts.started_recorded <==> run.facts.started_recorded || (run.phase is RecordStarted
            && reply is Done),
        after.facts.deadline == match (run.phase, reply) {
            (StartPhase::RecordDeadline { fire_at }, StartReply::Done) => Some(fire_at),
            _ => run.facts.deadline,
        },
        after.facts.deadline_armed <==> run.facts.deadline_armed || (run.phase is ArmDeadline
            && reply is Done),
        after.facts.pid == match (run.phase, reply) {
            (StartPhase::Spawn, StartReply::Spawned(pid)) => Some(pid),
            _ => run.facts.pid,
        },
        after.facts.published <==> (run.facts.published && !(run.phase is RetractPublication
            && reply is Done)) || (run.phase is Publish && reply is Done),
        after.facts.monitored <==> run.facts.monitored || ((run.phase is InstallMonitor || run.phase
            is RetainWithMonitor) && reply is Done),
        after.facts.terminated <==> {
            ||| run.facts.terminated
            ||| (run.phase is AbortUnpublished || run.phase is AbortPublished) && (reply matches
                StartReply::Aborted(outcome) && (outcome is Terminated || outcome is CleanupFailed))
            ||| run.phase is AttachFinalizer && (reply matches StartReply::Attached(outcome)
                && outcome is NoJob)
        },
        after.facts.abort_pending <==> run.facts.abort_pending || (run.phase is AttachFinalizer && (
        reply matches StartReply::Attached(outcome) && outcome is Attached)),
        after.facts.abort_failed <==> run.facts.abort_failed || (run.phase is AbortUnpublished && (
        reply matches StartReply::Aborted(outcome) && !(outcome is Terminated))),
{
}

/// Each step of a start follows only on the success of the one before it; a deadline is
/// recorded and armed exactly where the workflow declares a timeout, at the recorded
/// instant; and signals that cannot be delivered do not undo the start.
pub proof fn a_start_takes_its_steps_in_order(run: StartRun, reply: StartReply, after: StartRun)
    requires
        run.goes_to(reply, after),
        after.phase != run.phase,
    ensures
        after.phase is RecordDeadline ==> run.phase is RecordStarted && reply is Done
            && run.declared_timeout is Some,
        after.phase is UpsertVisibility ==> reply is Done && (run.phase is RecordDeadline || (
        run.phase is RecordStarted && run.declared_timeout is None)),
        after.phase is EnsureSupervisor ==> run.phase is UpsertVisibility && reply is Done,
        after.phase is Spawn ==> run.phase is EnsureSupervisor && reply is Done,
        after.phase is Place ==> run.phase is Spawn && reply is Spawned,
        after.phase is Publish ==> run.phase is Place && reply is Done,
        after.phase matches StartPhase::ArmDeadline { fire_at } ==> run.phase is Publish && reply
            is Done && run.facts.deadline == Some(fire_at),
        after.phase is InstallMonitor ==> reply is Done && (run.phase is ArmDeadline || (run.phase
            is Publish && run.facts.deadline is None)),
        after.phase is DeliverSignals ==> run.phase is InstallMonitor && reply is Done,
        after.phase is Started ==> run.phase is DeliverSignals,
        run.phase is DeliverSignals ==> after.phase is Started,
{
}

/// The error that a failing step reports is not lost: before a process was spawned it ends
/// the start, and afterwards it is what the start ends with once the process is dealt with,
/// unless the abort of an unregistered process itself fails.
pub proof fn a_failed_start_reports_what_failed(run: StartRun, error: EngineError, after: StartRun)
    requires
        run.goes_to(StartReply::Failed(error), after),
    ensures
        run.phase is RecordStarted || run.phase is RecordDeadline || run.phase is UpsertVisibility
            || run.phase is EnsureSupervisor || run.phase is Spawn ==> after.phase
            == StartPhase::Failed(error),
        run.phase is Place ==> after.phase == (StartPhase::AbortUnpublished { cause: error }),
        run.phase is Publish ==> after.phase == (StartPhase::RetractPartial { cause: error }),
        run.phase is ArmDeadline || run.phase is InstallMonitor ==> after.phase
            == (StartPhase::AbortPublished { cause: error }),
        run.phase matches StartPhase::RetractPartial { cause } ==> (after.phase
            == (StartPhase::AbortUnpublished { cause })),
        run.phase matches StartPhase::RetractPublication { cause } ==> (after.phase
            == StartPhase::Failed(cause)),
        run.phase matches StartPhase::RetainWithMonitor { cause } ==> after.phase
            == StartPhase::Failed(cause),
{
}

/// How a registered process is let go of depends on how its abort ended: one that is gone
/// is retracted, one whose abort is still in flight has its retraction attached to it, one
/// that could not be aborted is monitored, and one of which nothing is known stays
/// registered. The start fails with its own cause in each case.
pub proof fn a_registered_process_is_let_go_by_how_its_abort_ended(
    run: StartRun,
    outcome: AbortOutcome,
    after: StartRun,
)
    requires
        run.phase is AbortPublished,
        run.goes_to(StartReply::Aborted(outcome), after),
    ensures
        run.phase matches StartPhase::AbortPublished { cause } ==> after.phase == match outcome {
            AbortOutcome::Terminated => StartPhase::RetractPublication { cause },
            AbortOutcome::CleanupFailed(_) => StartPhase::RetractPublication { cause },
            AbortOutcome::TimedOut(_) => StartPhase::AttachFinalizer { cause },
            AbortOutcome::NotSubmitted(_) => StartPhase::RetainWithMonitor { cause },
            AbortOutcome::Degraded(_) => StartPhase::Failed(cause),
        },
        after.facts.published == run.facts.published,
{
}

/// Nothing is known of a start before it begins.
pub proof fn nothing_is_known_of_a_start_before_it_begins()
    ensures
        ({
            let facts = no_facts();
            &&& !facts.started_recorded
            &&& facts.deadline is None
            &&& !facts.deadline_armed
            &&& facts.pid is None
            &&& !facts.published
            &&& !facts.monitored
            &&& !facts.terminated
            &&& !facts.abort_pending
            &&& !facts.abort_failed
        }),
{
}

/// A start goes on whenever its step has been done: it never stands still, and it is not undone
/// by a success. Only a declared timeout that leads to no instant ends it then.
pub proof fn a_start_goes_on_when_its_step_is_done(run: StartRun, after: StartRun, pid: u64)
    ensures
        run.phase is RecordStarted && run.declared_timeout is None && run.goes_to(
            StartReply::Done,
            after,
        ) ==> after.phase is UpsertVisibility,
        run.phase is RecordStarted && run.declared_timeout is Some && run.goes_to(
            StartReply::Done,
            after,
        ) ==> after.phase is RecordDeadline || after.phase is Failed,
        run.phase is RecordDeadline && run.goes_to(StartReply::Done, after) ==> after.phase
            is UpsertVisibility,
        run.phase is UpsertVisibility && run.goes_to(StartReply::Done, after) ==> after.phase
            is EnsureSupervisor,
        run.phase is EnsureSupervisor && run.goes_to(StartReply::Done, after) ==> after.phase
            is Spawn,
        run.phase is Spawn && run.goes_to(StartReply::Spawned(pid), after) ==> after.phase is Place,
        run.phase is Place && run.goes_to(StartReply::Done, after) ==> after.phase is Publish,
        run.phase is Publish && run.goes_to(StartReply::Done, after) ==> (
        if run.facts.deadline is Some {
            after.phase is ArmDeadline
        } else {
            after.phase is InstallMonitor
        }),
        run.phase is ArmDeadline && run.goes_to(StartReply::Done, after) ==> after.phase
            is InstallMonitor,
        run.phase is InstallMonitor && run.goes_to(StartReply::Done, after) ==> after.phase
            is DeliverSignals,
        run.phase is DeliverSignals && run.goes_to(StartReply::Done, after) ==> after.phase
            is Started,
{
}

} // verus!
