//! Startup recovery: schedule coordinator bootstrap, active-workflow repopulation and
//! the registration of recovered residents.

use vstd::prelude::*;
use vstd::string::*;

use crate::content_hash::ContentHash;
use crate::engine::api_schedule::{
    schedule_coordinator_run_id, schedule_coordinator_workflow_id,
    schedule_coordinator_workflow_type, COORDINATOR_RUN, COORDINATOR_WORKFLOW,
};
use crate::engine::startup_sweeps::SweepScope;
use crate::error::{is_load_error, is_runtime_error, load_error, EngineError};
use crate::event::{
    ended, envelope_of, Event, PackageVersion, Payload, SearchAttribute, SearchAttributeValue,
    WorkflowStatus,
};
use crate::history::{
    begins_run, first_where, last_sequence, lemma_first_where_is, status_from_events, status_of,
};
use crate::ids::{uuid_text, RunId, WorkflowId};
use crate::lifecycle::pause::PausedRuns;
use crate::lifecycle::reopen::{find_started_type, first_started_type, ActiveWorkflowRecovery};
use crate::lifecycle::start::WorkflowStartRecord;
use crate::registry::{Residency, WorkflowHandle};
use crate::text::{concat2, concat3};

verus! {

/// The timer service is missing when timers are recovered.
pub fn timer_recovery_unavailable(error: &str) -> (failure: EngineError)
    ensures
        is_runtime_error(failure, "timer recovery service unavailable: "@ + error@),
{
    EngineError::Runtime { reason: concat2("timer recovery service unavailable: ", error) }
}

/// The recovery of timers failed.
pub fn timer_recovery_failed(error: &str) -> (failure: EngineError)
    ensures
        is_runtime_error(failure, "timer recovery failed: "@ + error@),
{
    EngineError::Runtime { reason: concat2("timer recovery failed: ", error) }
}

/// The input of the schedule coordinator could not be built.
pub fn coordinator_input_failed(error: &str) -> (failure: EngineError)
    ensures
        is_load_error(
            failure,
            "failed to build schedule coordinator input payload: "@ + error@,
        ),
{
    load_error(concat2("failed to build schedule coordinator input payload: ", error))
}

/// The value that the last attribute of some name has, where there is one.
pub open spec fn attribute_named(attributes: Seq<SearchAttribute>, name: Seq<char>) -> Option<
    SearchAttributeValue,
>
    decreases attributes.len(),
{
    if attributes.len() == 0 {
        None
    } else if attributes.last().name@ == name {
        Some(attributes.last().value)
    } else {
        attribute_named(attributes.drop_last(), name)
    }
}

/// The namespace that an event sets, if it sets one.
pub open spec fn namespace_set_by(event: Event) -> Option<String> {
    match event {
        Event::SearchAttributesUpdated { attributes, .. } => match attribute_named(
            attributes@,
            "aion.namespace"@,
        ) {
            Some(SearchAttributeValue::String(namespace)) => Some(namespace),
            _ => None,
        },
        _ => None,
    }
}

/// The namespace that a history shows: the first one set, or the default.
pub open spec fn namespace_of(history: Seq<Event>) -> Seq<char>
    decreases history.len(),
{
    if history.len() == 0 {
        "default"@
    } else {
        match namespace_set_by(history[0]) {
            Some(namespace) => namespace@,
            None => namespace_of(history.skip(1)),
        }
    }
}

/// The namespace attribute among some attributes.
fn find_namespace(attributes: &Vec<SearchAttribute>) -> (namespace: Option<String>)
    ensures
        namespace == match attribute_named(attributes@, "aion.namespace"@) {
            Some(SearchAttributeValue::String(namespace)) => Some(namespace),
            _ => None,
        },
{
    let name = "aion.namespace".to_owned();
    let mut i: usize = attributes.len();
    proof {
        assert(attributes@.take(i as int) =~= attributes@);
    }
    while i > 0
        invariant
            name@ == "aion.namespace"@,
            0 <= i <= attributes@.len(),
            attribute_named(attributes@, "aion.namespace"@) == attribute_named(
                attributes@.take(i as int),
                "aion.namespace"@,
            ),
        decreases i,
    {
        proof {
            assert(attributes@.take(i as int).drop_last() =~= attributes@.take(i - 1));
            assert(attributes@.take(i as int).last() == attributes@[i - 1]);
        }
        let attribute = &attributes[i - 1];
        if attribute.name == name {
            return match &attribute.value {
                SearchAttributeValue::String(namespace) => Some(namespace.clone()),
                SearchAttributeValue::Int(_) | SearchAttributeValue::Other(_) => None,
            };
        }
        i = i - 1;
    }
    None
}

/// The namespace recorded in the workflow's search attributes.
///
/// The `aion.namespace` attribute is set at workflow start and carried through child
/// inheritance. Falls back to `default` when no namespace attribute is recorded.
pub fn namespace_from_history(history: &[Event]) -> (namespace: String)
    ensures
        namespace@ == namespace_of(history@),
{
    let mut i: usize = 0;
    proof {
        assert(history@.skip(0) =~= history@);
    }
    while i < history.len()
        invariant
            0 <= i <= history@.len(),
            namespace_of(history@) == namespace_of(history@.skip(i as int)),
        decreases history.len() - i,
    {
        proof {
            assert(history@.skip(i as int)[0] == history@[i as int]);
            assert(history@.skip(i as int).skip(1) =~= history@.skip(i + 1));
        }
        match &history[i] {
            Event::SearchAttributesUpdated { attributes, .. } => {
                match find_namespace(attributes) {
                    Some(namespace) => {
                        return namespace;
                    },
                    None => {},
                }
            },
            _ => {},
        }
        i = i + 1;
    }
    "default".to_owned()
}

/// The workflow type that an active workflow is recovered with.
pub open spec fn recovered_type(id: WorkflowId, history: Seq<Event>) -> Option<Seq<char>> {
    match first_started_type(history) {
        Some(workflow_type) => Some(workflow_type@),
        None => if id.value == COORDINATOR_WORKFLOW {
            Some("aion.schedule_coordinator"@)
        } else {
            None
        },
    }
}

/// Why a workflow without a start cannot be recovered.
pub open spec fn no_start_text(id: WorkflowId) -> Seq<char> {
    "active workflow `"@ + uuid_text(id.value)
        + "` has no WorkflowStarted event in durable history"@
}

/// Why a workflow without a started run cannot be recovered.
pub open spec fn no_run_text(id: WorkflowId) -> Seq<char> {
    "active workflow `"@ + uuid_text(id.value)
        + "` has no WorkflowStarted run id in durable history"@
}

/// The workflow type that an active workflow is recovered with.
///
/// # Errors
///
/// [`EngineError::Load`] when the history has no start and the workflow is not the
/// schedule coordinator.
pub fn started_workflow_type(workflow_id: &WorkflowId, history: &[Event]) -> (result: Result<
    String,
    EngineError,
>)
    ensures
        match result {
            Ok(workflow_type) => recovered_type(*workflow_id, history@) == Some(workflow_type@),
            Err(error) => recovered_type(*workflow_id, history@) is None && is_load_error(
                error,
                no_start_text(*workflow_id),
            ),
        },
{
    match find_started_type(history) {
        Some(workflow_type) => {
            return Ok(workflow_type);
        },
        None => {},
    }
    if *workflow_id == schedule_coordinator_workflow_id() {
        return Ok(schedule_coordinator_workflow_type().to_owned());
    }
    Err(
        load_error(
            concat3(
                "active workflow `",
                workflow_id.text().as_str(),
                "` has no WorkflowStarted event in durable history",
            ),
        ),
    )
}

/// The run that an active workflow is recovered as.
pub open spec fn recovered_run(id: WorkflowId, history: Seq<Event>) -> Option<RunId> {
    let start = first_where(history, |event: Event| begins_run(event));
    if start < history.len() {
        Some(history[start]->WorkflowStarted_run_id)
    } else if id.value == COORDINATOR_WORKFLOW {
        Some(RunId { value: COORDINATOR_RUN })
    } else {
        None
    }
}

/// The run that an active workflow is recovered as.
///
/// # Errors
///
/// [`EngineError::Load`] when the history has no start and the workflow is not the
/// schedule coordinator.
pub fn started_run_id(workflow_id: &WorkflowId, history: &[Event]) -> (result: Result<
    RunId,
    EngineError,
>)
    ensures
        match result {
            Ok(run_id) => recovered_run(*workflow_id, history@) == Some(run_id),
            Err(error) => recovered_run(*workflow_id, history@) is None && is_load_error(
                error,
                no_run_text(*workflow_id),
            ),
        },
{
    let ghost begins = |event: Event| begins_run(event);
    let mut i: usize = 0;
    while i < history.len()
        invariant
            0 <= i <= history@.len(),
            begins == (|event: Event| begins_run(event)),
            forall|j: int| 0 <= j < i ==> !begins_run(#[trigger] history@[j]),
        decreases history.len() - i,
    {
        match &history[i] {
            Event::WorkflowStarted { run_id, .. } => {
                proof {
                    lemma_first_where_is(history@, begins, i as int);
                }
                return Ok(*run_id);
            },
            _ => {},
        }
        i = i + 1;
    }
    proof {
        lemma_first_where_is(history@, begins, history@.len() as int);
    }
    if *workflow_id == schedule_coordinator_workflow_id() {
        return Ok(schedule_coordinator_run_id());
    }
    Err(
        load_error(
            concat3(
                "active workflow `",
                workflow_id.text().as_str(),
                "` has no WorkflowStarted run id in durable history",
            ),
        ),
    )
}

/// What the schedule coordinator's history starts with, where it has to be seeded:
/// only an empty history is.
pub fn seed_schedule_coordinator_history(
    history: &[Event],
    input: Payload,
    package_version: PackageVersion,
) -> (record: Option<WorkflowStartRecord>)
    ensures
        match record {
            Some(record) => {
                &&& history@.len() == 0
                &&& record.workflow_type@ == "aion.schedule_coordinator"@
                &&& record.input == input
                &&& record.run_id.value == COORDINATOR_RUN
                &&& record.parent_run_id is None
                &&& record.package_version == package_version
            },
            None => history@.len() != 0,
        },
{
    if history.len() != 0 {
        return None;
    }
    Some(
        WorkflowStartRecord {
            workflow_type: schedule_coordinator_workflow_type().to_owned(),
            input,
            run_id: schedule_coordinator_run_id(),
            parent_run_id: None,
            package_version,
        },
    )
}

/// A workflow is the schedule coordinator.
pub open spec fn coordinates_schedules(id: WorkflowId, workflow_type: Seq<char>) -> bool {
    id.value == COORDINATOR_WORKFLOW && workflow_type == "aion.schedule_coordinator"@
}

/// What recovers an active workflow.
#[derive(Debug, PartialEq, Eq)]
pub enum RecoveryRoute {
    /// It is the schedule coordinator and needs no process.
    Settled(ActiveWorkflowRecovery),
    /// Its process has to be brought back.
    Respawn,
}

/// Decides what recovers an active workflow.
///
/// # Errors
///
/// [`EngineError::Load`] when the schedule coordinator's history names no run.
pub fn recover_active_workflow(
    workflow_id: &WorkflowId,
    workflow_type: &str,
    history: &[Event],
) -> (result: Result<RecoveryRoute, EngineError>)
    ensures
        if coordinates_schedules(*workflow_id, workflow_type@) {
            &&& recovered_run(*workflow_id, history@) is Some
            &&& result == Ok::<RecoveryRoute, EngineError>(
                RecoveryRoute::Settled(
                    ActiveWorkflowRecovery::ScheduleCoordinator {
                        run_id: recovered_run(*workflow_id, history@)->Some_0,
                    },
                ),
            )
        } else {
            result == Ok::<RecoveryRoute, EngineError>(RecoveryRoute::Respawn)
        },
{
    if *workflow_id == schedule_coordinator_workflow_id() && workflow_type.to_owned()
        == schedule_coordinator_workflow_type().to_owned() {
        return match started_run_id(workflow_id, history) {
            Ok(run_id) => Ok(
                RecoveryRoute::Settled(ActiveWorkflowRecovery::ScheduleCoordinator { run_id }),
            ),
            Err(error) => Err(error),
        };
    }
    Ok(RecoveryRoute::Respawn)
}

/// One resident workflow whose process was brought back, ready for registration.
#[derive(Debug, PartialEq, Eq)]
pub struct RecoveredResident {
    /// The workflow.
    pub workflow_id: WorkflowId,
    /// Its workflow type.
    pub workflow_type: String,
    /// Position that its recorder continues from.
    pub history_head: u64,
    /// Its projected status.
    pub projected_status: WorkflowStatus,
    /// The run.
    pub run_id: RunId,
    /// Package version that it executes on.
    pub loaded_version: ContentHash,
    /// Its process.
    pub pid: u64,
}

/// The handle that a recovered resident is registered with.
pub fn recovered_handle(resident: &RecoveredResident, history: &[Event]) -> (handle: WorkflowHandle)
    ensures
        handle.workflow_id == resident.workflow_id,
        handle.run_id == resident.run_id,
        handle.pid == resident.pid,
        handle.workflow_type == resident.workflow_type,
        handle.namespace@ == namespace_of(history@),
        handle.loaded_version == resident.loaded_version,
        handle.cached_status == resident.projected_status,
        handle.residency == Residency::Resident,
{
    WorkflowHandle {
        workflow_id: resident.workflow_id,
        run_id: resident.run_id,
        pid: resident.pid,
        workflow_type: resident.workflow_type.clone(),
        namespace: namespace_from_history(history),
        loaded_version: resident.loaded_version,
        cached_status: resident.projected_status,
        residency: Residency::Resident,
    }
}

/// The step of a repopulation to perform next, or how it ended.
#[derive(Debug, PartialEq, Eq)]
pub enum RepopulatePhase {
    /// Look the workflow up in the registry, and read its history unless it is live.
    Inspect,
    /// Make sure that its type has a supervisor.
    Supervise {
        /// Its workflow type.
        workflow_type: String,
    },
    /// Bring its process back.
    Recover {
        /// Its workflow type.
        workflow_type: String,
    },
    /// Register the resident.
    Register(RecoveredResident),
    /// Bring the registered status of the schedule coordinator in line with history.
    Reconcile {
        /// The run.
        run_id: RunId,
    },
    /// Every active workflow has been seen.
    Repopulated,
    /// The repopulation failed.
    Failed(EngineError),
}

/// What came of a step of a repopulation.
#[derive(Debug, PartialEq, Eq)]
pub enum RepopulateReply {
    /// The workflow is live.
    Live,
    /// The workflow is not live, and this is its history.
    History(Vec<Event>),
    /// The step was performed.
    Done,
    /// The attempt to bring the process back ended.
    Recovered(Result<ActiveWorkflowRecovery, EngineError>),
    /// The step failed.
    Failed(EngineError),
}

/// A repopulation on its way.
#[derive(Debug, PartialEq, Eq)]
pub struct RepopulateRun {
    /// The workflows that the store lists as active.
    pub active: Vec<WorkflowId>,
    /// The workflow that is looked at.
    pub next: usize,
    /// Its history, once it is read.
    pub history: Vec<Event>,
    /// The step to perform next, or how the repopulation ended.
    pub phase: RepopulatePhase,
}

/// A workflow is not respawned: it has ended, or it waits for an operator.
pub open spec fn left_alone(history: Seq<Event>) -> bool {
    ended(status_of(history)) || status_of(history) == WorkflowStatus::Paused
}

impl RepopulateRun {
    /// A workflow is looked at as long as the repopulation goes on; one that is past
    /// inspection has a running history.
    pub open spec fn fits(self) -> bool {
        match self.phase {
            RepopulatePhase::Repopulated | RepopulatePhase::Failed(_) => true,
            RepopulatePhase::Inspect => self.next < self.active@.len(),
            RepopulatePhase::Supervise { workflow_type }
            | RepopulatePhase::Recover { workflow_type } => {
                &&& self.next < self.active@.len()
                &&& recovered_type(self.active@[self.next as int], self.history@) == Some(
                    workflow_type@,
                )
                &&& status_of(self.history@) == WorkflowStatus::Running
            },
            RepopulatePhase::Register(resident) => {
                &&& self.next < self.active@.len()
                &&& resident.workflow_id == self.active@[self.next as int]
                &&& resident.projected_status == WorkflowStatus::Running
                &&& status_of(self.history@) == WorkflowStatus::Running
            },
            RepopulatePhase::Reconcile { .. } => {
                &&& self.next < self.active@.len()
                &&& status_of(self.history@) == WorkflowStatus::Running
            },
        }
    }

    /// The repopulation goes on to the next workflow.
    pub open spec fn moves_on(self, after: RepopulateRun) -> bool {
        &&& after.active == self.active
        &&& after.next == self.next + 1
        &&& after.phase == if self.next + 1 < self.active@.len() {
            RepopulatePhase::Inspect
        } else {
            RepopulatePhase::Repopulated
        }
    }

    /// The repopulation stays with its workflow.
    pub open spec fn stays(self, after: RepopulateRun) -> bool {
        after.active == self.active && after.next == self.next
    }

    /// What a step leads to. A live, ended or paused workflow is passed over, and so is
    /// one whose own recovery fails; every other failure ends the repopulation.
    pub open spec fn goes_to(self, reply: RepopulateReply, after: RepopulateRun) -> bool {
        let id = self.active@[self.next as int];
        match (self.phase, reply) {
            (RepopulatePhase::Inspect, RepopulateReply::Live) => self.moves_on(after),
            (RepopulatePhase::Inspect, RepopulateReply::History(history)) => match recovered_type(
                id,
                history@,
            ) {
                None => {
                    &&& self.stays(after)
                    &&& after.phase matches RepopulatePhase::Failed(error)
                    &&& is_load_error(error, no_start_text(id))
                },
                Some(workflow_type) => if left_alone(history@) {
                    self.moves_on(after)
                } else {
                    &&& self.stays(after)
                    &&& after.history == history
                    &&& after.phase matches RepopulatePhase::Supervise { workflow_type: found }
                    &&& found@ == workflow_type
                },
            },
            (
                RepopulatePhase::Supervise { workflow_type },
                RepopulateReply::Done,
            ) => {
                &&& self.stays(after)
                &&& after.history == self.history
                &&& if coordinates_schedules(id, workflow_type@) {
                    after.phase == RepopulatePhase::Reconcile {
                        run_id: recovered_run(id, self.history@)->Some_0,
                    }
                } else {
                    after.phase == RepopulatePhase::Recover { workflow_type }
                }
            },
            (RepopulatePhase::Recover { .. }, RepopulateReply::Recovered(Err(_))) => {
                self.moves_on(after)
            },
            (
                RepopulatePhase::Recover { workflow_type },
                RepopulateReply::Recovered(
                    Ok(ActiveWorkflowRecovery::Resident { run_id, loaded_version, pid }),
                ),
            ) => {
                &&& self.stays(after)
                &&& after.history == self.history
                &&& after.phase == RepopulatePhase::Register(
                    RecoveredResident {
                        workflow_id: id,
                        workflow_type,
                        history_head: if self.history@.len() == 0 {
                            0
                        } else {
                            envelope_of(self.history@.last()).seq
                        },
                        projected_status: status_of(self.history@),
                        run_id,
                        loaded_version,
                        pid,
                    },
                )
            },
            (
                RepopulatePhase::Recover { .. },
                RepopulateReply::Recovered(
                    Ok(ActiveWorkflowRecovery::ScheduleCoordinator { run_id }),
                ),
            ) => {
                &&& self.stays(after)
                &&& after.history == self.history
                &&& after.phase == RepopulatePhase::Reconcile { run_id }
            },
            (RepopulatePhase::Register(_), RepopulateReply::Done) => self.moves_on(after),
            (RepopulatePhase::Reconcile { .. }, RepopulateReply::Done) => self.moves_on(after),
            (RepopulatePhase::Inspect, RepopulateReply::Failed(error))
            | (RepopulatePhase::Supervise { .. }, RepopulateReply::Failed(error))
            | (RepopulatePhase::Register(_), RepopulateReply::Failed(error))
            | (RepopulatePhase::Reconcile { .. }, RepopulateReply::Failed(error)) => {
                &&& self.stays(after)
                &&& after.phase == RepopulatePhase::Failed(error)
            },
            _ => after == self,
        }
    }

    /// A repopulation over the workflows that the store lists as active.
    pub fn new(active: Vec<WorkflowId>) -> (run: Self)
        ensures
            run.active == active,
            run.next == 0,
            run.phase == if active@.len() > 0 {
                RepopulatePhase::Inspect
            } else {
                RepopulatePhase::Repopulated
            },
            run.fits(),
    {
        let phase = if active.len() > 0 {
            RepopulatePhase::Inspect
        } else {
            RepopulatePhase::Repopulated
        };
        RepopulateRun { active, next: 0, history: Vec::new(), phase }
    }

    /// Goes on to the next workflow.
    fn move_on(active: Vec<WorkflowId>, next: usize) -> (run: Self)
        requires
            next < active@.len(),
        ensures
            run.active == active,
            run.next == next + 1,
            run.phase == if next + 1 < active@.len() {
                RepopulatePhase::Inspect
            } else {
                RepopulatePhase::Repopulated
            },
            run.fits(),
    {
        let count: usize = active.len();
        let phase = if next + 1 < count {
            RepopulatePhase::Inspect
        } else {
            RepopulatePhase::Repopulated
        };
        RepopulateRun { active, next: next + 1, history: Vec::new(), phase }
    }

    /// Takes in what came of a step.
    pub fn advance(self, reply: RepopulateReply) -> (after: Self)
        requires
            self.fits(),
        ensures
            self.goes_to(reply, after),
            after.fits(),
    {
        let RepopulateRun { active, next, history, phase } = self;
        match (phase, reply) {
            (RepopulatePhase::Inspect, RepopulateReply::Live) => Self::move_on(active, next),
            (RepopulatePhase::Inspect, RepopulateReply::History(history)) => {
                match started_workflow_type(&active[next], history.as_slice()) {
                    Err(error) => RepopulateRun {
                        active,
                        next,
                        history,
                        phase: RepopulatePhase::Failed(error),
                    },
                    Ok(workflow_type) => {
                        let status = status_from_events(history.as_slice());
                        if status.is_terminal() || status == WorkflowStatus::Paused {
                            return Self::move_on(active, next);
                        }
                        RepopulateRun {
                            active,
                            next,
                            history,
                            phase: RepopulatePhase::Supervise { workflow_type },
                        }
                    },
                }
            },
            (RepopulatePhase::Supervise { workflow_type }, RepopulateReply::Done) => {
                let route = recover_active_workflow(
                    &active[next],
                    workflow_type.as_str(),
                    history.as_slice(),
                );
                let phase = match route {
                    Ok(
                        RecoveryRoute::Settled(ActiveWorkflowRecovery::ScheduleCoordinator { run_id }),
                    ) => RepopulatePhase::Reconcile { run_id },
                    _ => RepopulatePhase::Recover { workflow_type },
                };
                RepopulateRun { active, next, history, phase }
            },
            (RepopulatePhase::Recover { .. }, RepopulateReply::Recovered(Err(_))) => Self::move_on(
                active,
                next,
            ),
            (
                RepopulatePhase::Recover { workflow_type },
                RepopulateReply::Recovered(
                    Ok(ActiveWorkflowRecovery::Resident { run_id, loaded_version, pid }),
                ),
            ) => {
                let resident = RecoveredResident {
                    workflow_id: active[next],
                    workflow_type,
                    history_head: last_sequence(history.as_slice()),
                    projected_status: status_from_events(history.as_slice()),
                    run_id,
                    loaded_version,
                    pid,
                };
                RepopulateRun { active, next, history, phase: RepopulatePhase::Register(resident) }
            },
            (
                RepopulatePhase::Recover { .. },
                RepopulateReply::Recovered(
                    Ok(ActiveWorkflowRecovery::ScheduleCoordinator { run_id }),
                ),
            ) => RepopulateRun {
                active,
                next,
                history,
                phase: RepopulatePhase::Reconcile { run_id },
            },
            (RepopulatePhase::Register(_), RepopulateReply::Done) => Self::move_on(active, next),
            (RepopulatePhase::Reconcile { .. }, RepopulateReply::Done) => Self::move_on(
                active,
                next,
            ),
            (RepopulatePhase::Inspect, RepopulateReply::Failed(error)) => RepopulateRun {
                active,
                next,
                history,
                phase: RepopulatePhase::Failed(error),
            },
            (RepopulatePhase::Supervise { .. }, RepopulateReply::Failed(error)) => RepopulateRun {
                active,
                next,
                history,
                phase: RepopulatePhase::Failed(error),
            },
            (RepopulatePhase::Register(_), RepopulateReply::Failed(error)) => RepopulateRun {
                active,
                next,
                history,
                phase: RepopulatePhase::Failed(error),
            },
            (RepopulatePhase::Reconcile { .. }, RepopulateReply::Failed(error)) => RepopulateRun {
                active,
                next,
                history,
                phase: RepopulatePhase::Failed(error),
            },
            (phase, _) => RepopulateRun { active, next, history, phase },
        }
    }
}

/// A course of a repopulation: each run follows from the one before it by a reply.
pub open spec fn repopulate_course(
    runs: Seq<RepopulateRun>,
    replies: Seq<RepopulateReply>,
) -> bool {
    &&& runs.len() == replies.len() + 1
    &&& runs[0].fits()
    &&& !(runs[0].phase is Register)
    &&& forall|i: int|
        0 <= i < replies.len() ==> runs[i].goes_to(#[trigger] replies[i], runs[i + 1])
}

/// Every run of a course fits.
proof fn lemma_course_fits(runs: Seq<RepopulateRun>, replies: Seq<RepopulateReply>, i: int)
    requires
        repopulate_course(runs, replies),
        0 <= i < runs.len(),
    ensures
        runs[i].fits(),
    decreases i,
{
    if i > 0 {
        lemma_course_fits(runs, replies, i - 1);
        assert(runs[i - 1].goes_to(replies[i - 1], runs[i]));
    }
}

/// Only a workflow whose history shows it running is ever registered: one that ended, or
/// that an operator paused while the recovery was under way, is not respawned.
pub proof fn only_running_workflows_are_respawned(
    runs: Seq<RepopulateRun>,
    replies: Seq<RepopulateReply>,
)
    requires
        repopulate_course(runs, replies),
        runs.last().phase is Recover || runs.last().phase is Register,
    ensures
        status_of(runs.last().history@) == WorkflowStatus::Running,
{
    lemma_course_fits(runs, replies, runs.len() - 1);
}

/// A workflow that fails its own recovery is passed over: the repopulation goes on with
/// the next workflow, or ends in success where it was the last.
pub proof fn one_failed_recovery_stops_no_other(
    run: RepopulateRun,
    error: EngineError,
    after: RepopulateRun,
)
    requires
        run.phase is Recover,
        run.goes_to(RepopulateReply::Recovered(Err(error)), after),
    ensures
        after.active == run.active,
        after.next == run.next + 1,
        after.phase is Inspect || after.phase is Repopulated,
{
}

/// The step of a registration to perform next, or how it ended.
#[derive(Debug, PartialEq, Eq)]
pub enum RegistrationPhase {
    /// Put the handle in the registry.
    Insert,
    /// Bring its cached status in line with history.
    Reconcile,
    /// Place the process under the supervisor of its type.
    Place,
    /// Watch the process for its completion.
    InstallMonitor,
    /// Start recorded children that were never spawned.
    SweepChildren,
    /// Take the handle out of the registry again.
    RemoveEntry(EngineError),
    /// Abort the process, which nothing monitors.
    Abort(EngineError),
    /// The resident is registered.
    Registered,
    /// The registration failed.
    Failed(EngineError),
}

/// The registration of a recovered resident on its way.
#[derive(Debug, PartialEq, Eq)]
pub struct RegistrationRun {
    /// A completion monitor watches the process.
    pub monitored: bool,
    /// A monitor was asked for.
    pub monitor_tried: bool,
    /// The removal of the registry entry was performed.
    pub removal_tried: bool,
    /// The abort of the process was performed.
    pub abort_tried: bool,
    /// The step to perform next, or how the registration ended.
    pub phase: RegistrationPhase,
}

impl RegistrationRun {
    /// The registration after a step. A failure before the monitor takes the handle out
    /// of the registry and aborts the process, and a failing abort is what is reported;
    /// a failure of the monitor's installation takes the handle out.
    pub open spec fn after(self, reply: Result<(), EngineError>) -> RegistrationRun {
        match (self.phase, reply) {
            (RegistrationPhase::Insert, Ok(_)) => RegistrationRun {
                phase: RegistrationPhase::Reconcile,
                ..self
            },
            (RegistrationPhase::Reconcile, Ok(_)) => RegistrationRun {
                phase: RegistrationPhase::Place,
                ..self
            },
            (RegistrationPhase::Place, Ok(_)) => RegistrationRun {
                phase: RegistrationPhase::InstallMonitor,
                ..self
            },
            (RegistrationPhase::InstallMonitor, Ok(_)) => RegistrationRun {
                monitored: true,
                monitor_tried: true,
                phase: RegistrationPhase::SweepChildren,
                ..self
            },
            (RegistrationPhase::SweepChildren, Ok(_)) => RegistrationRun {
                phase: RegistrationPhase::Registered,
                ..self
            },
            (RegistrationPhase::Insert, Err(cause))
            | (RegistrationPhase::Reconcile, Err(cause))
            | (RegistrationPhase::Place, Err(cause)) => RegistrationRun {
                phase: RegistrationPhase::RemoveEntry(cause),
                ..self
            },
            (RegistrationPhase::InstallMonitor, Err(cause)) => RegistrationRun {
                monitor_tried: true,
                phase: RegistrationPhase::RemoveEntry(cause),
                ..self
            },
            (RegistrationPhase::SweepChildren, Err(error)) => RegistrationRun {
                phase: RegistrationPhase::Failed(error),
                ..self
            },
            (RegistrationPhase::RemoveEntry(cause), _) => RegistrationRun {
                removal_tried: true,
                phase: if self.monitor_tried {
                    RegistrationPhase::Failed(cause)
                } else {
                    RegistrationPhase::Abort(cause)
                },
                ..self
            },
            (RegistrationPhase::Abort(cause), Ok(_)) => RegistrationRun {
                abort_tried: true,
                phase: RegistrationPhase::Failed(cause),
                ..self
            },
            (RegistrationPhase::Abort(_), Err(error)) => RegistrationRun {
                abort_tried: true,
                phase: RegistrationPhase::Failed(error),
                ..self
            },
            (_, _) => self,
        }
    }

    /// The registration after a number of steps.
    pub open spec fn after_all(self, replies: Seq<Result<(), EngineError>>) -> RegistrationRun
        decreases replies.len(),
    {
        if replies.len() == 0 {
            self
        } else {
            self.after_all(replies.drop_last()).after(replies.last())
        }
    }

    /// A registration about to begin.
    pub open spec fn begun() -> RegistrationRun {
        RegistrationRun {
            monitored: false,
            monitor_tried: false,
            removal_tried: false,
            abort_tried: false,
            phase: RegistrationPhase::Insert,
        }
    }

    /// A registration about to begin.
    pub fn new() -> (run: Self)
        ensures
            run == Self::begun(),
    {
        RegistrationRun {
            monitored: false,
            monitor_tried: false,
            removal_tried: false,
            abort_tried: false,
            phase: RegistrationPhase::Insert,
        }
    }

    /// Takes in what came of a step.
    pub fn advance(self, reply: Result<(), EngineError>) -> (run: Self)
        ensures
            run == self.after(reply),
    {
        let RegistrationRun { monitored, monitor_tried, removal_tried, abort_tried, phase } = self;
        let installs = matches!(&phase, RegistrationPhase::InstallMonitor);
        let removes = matches!(&phase, RegistrationPhase::RemoveEntry(_));
        let aborts = matches!(&phase, RegistrationPhase::Abort(_));
        let installed = installs && reply.is_ok();
        let phase = match (phase, reply) {
            (RegistrationPhase::Insert, Ok(())) => RegistrationPhase::Reconcile,
            (RegistrationPhase::Reconcile, Ok(())) => RegistrationPhase::Place,
            (RegistrationPhase::Place, Ok(())) => RegistrationPhase::InstallMonitor,
            (RegistrationPhase::InstallMonitor, Ok(())) => RegistrationPhase::SweepChildren,
            (RegistrationPhase::SweepChildren, Ok(())) => RegistrationPhase::Registered,
            (RegistrationPhase::Insert, Err(cause)) => RegistrationPhase::RemoveEntry(cause),
            (RegistrationPhase::Reconcile, Err(cause)) => RegistrationPhase::RemoveEntry(cause),
            (RegistrationPhase::Place, Err(cause)) => RegistrationPhase::RemoveEntry(cause),
            (RegistrationPhase::InstallMonitor, Err(cause)) => RegistrationPhase::RemoveEntry(
                cause,
            ),
            (RegistrationPhase::SweepChildren, Err(error)) => RegistrationPhase::Failed(error),
            (RegistrationPhase::RemoveEntry(cause), _) => {
                if monitor_tried {
                    RegistrationPhase::Failed(cause)
                } else {
                    RegistrationPhase::Abort(cause)
                }
            },
            (RegistrationPhase::Abort(cause), Ok(())) => RegistrationPhase::Failed(cause),
            (RegistrationPhase::Abort(_), Err(error)) => RegistrationPhase::Failed(error),
            (phase, _) => phase,
        };
        RegistrationRun {
            monitored: monitored || installed,
            monitor_tried: monitor_tried || installs,
            removal_tried: removal_tried || removes,
            abort_tried: abort_tried || aborts,
            phase,
        }
    }
}

/// What holds of every registration on its way.
pub open spec fn registration_sound(run: RegistrationRun) -> bool {
    &&& run.monitored ==> run.monitor_tried
    &&& match run.phase {
        RegistrationPhase::Insert
        | RegistrationPhase::Reconcile
        | RegistrationPhase::Place
        | RegistrationPhase::InstallMonitor => !run.monitor_tried,
        RegistrationPhase::SweepChildren | RegistrationPhase::Registered => run.monitored,
        RegistrationPhase::RemoveEntry(_) => !run.monitored,
        RegistrationPhase::Abort(_) => !run.monitor_tried && run.removal_tried,
        RegistrationPhase::Failed(_) => run.monitored || (run.removal_tried && (run.monitor_tried
            || run.abort_tried)),
    }
}

/// Every registration on its way is sound.
proof fn lemma_registration_sound(replies: Seq<Result<(), EngineError>>)
    ensures
        registration_sound(RegistrationRun::begun().after_all(replies)),
    decreases replies.len(),
{
    if replies.len() > 0 {
        lemma_registration_sound(replies.drop_last());
    }
}

/// A registered resident is monitored, and a registration that failed without a monitor
/// was rolled back: the handle was taken out of the registry, and a process for which no
/// monitor was even asked for was aborted.
pub proof fn a_failed_registration_is_rolled_back(replies: Seq<Result<(), EngineError>>)
    ensures
        ({
            let run = RegistrationRun::begun().after_all(replies);
            &&& run.phase is Registered ==> run.monitored
            &&& run.phase is Failed && !run.monitored ==> run.removal_tried && (run.monitor_tried
                || run.abort_tried)
        }),
{
    lemma_registration_sound(replies);
}

/// The step of a recovery to perform next, or how it ended.
#[derive(Debug, PartialEq, Eq)]
pub enum RecoveryPhase {
    /// Seed the schedule coordinator's history where it is empty.
    SeedCoordinator,
    /// List the workflows that are durably paused and rebuild the set of held workflows
    /// from them, with [`RecoveryRun::rebuild_holds`].
    RebuildHolds,
    /// Bring the visibility projection in line with history.
    ReconcileVisibility,
    /// Retire deadlines left behind terminals.
    SweepDeadlines,
    /// Bring active workflows back.
    Repopulate,
    /// Start successors that were lost.
    SweepSuccessors,
    /// The recovery is complete.
    Recovered,
    /// The recovery failed.
    Failed(EngineError),
}

/// A recovery on its way.
#[derive(Debug, PartialEq, Eq)]
pub struct RecoveryRun {
    /// Whether it runs at cold boot or at live shard adoption.
    pub scope: SweepScope,
    /// The step to perform next, or how the recovery ended.
    pub phase: RecoveryPhase,
}

impl RecoveryRun {
    /// The recovery at engine startup. Only a node that bootstraps the schedule
    /// coordinator seeds its history.
    pub fn recover_active_workflows_on_startup(bootstrap_schedule_coordinator: bool) -> (run: Self)
        ensures
            run.scope == SweepScope::ColdBoot,
            run.phase == if bootstrap_schedule_coordinator {
                RecoveryPhase::SeedCoordinator
            } else {
                RecoveryPhase::RebuildHolds
            },
    {
        let phase = if bootstrap_schedule_coordinator {
            RecoveryPhase::SeedCoordinator
        } else {
            RecoveryPhase::RebuildHolds
        };
        RecoveryRun { scope: SweepScope::ColdBoot, phase }
    }

    /// The recovery of shards that a live engine has adopted: a survivor never seeds the
    /// schedule coordinator.
    pub fn recover_adopted_shards() -> (run: Self)
        ensures
            run == (RecoveryRun {
                scope: SweepScope::Adoption,
                phase: RecoveryPhase::RebuildHolds,
            }),
    {
        RecoveryRun { scope: SweepScope::Adoption, phase: RecoveryPhase::RebuildHolds }
    }

    /// The recovery after a step: the set of held workflows is rebuilt first, and
    /// deadlines are swept before any workflow is brought back and before any successor is
    /// started.
    pub open spec fn after(self, step: RecoveryStep) -> RecoveryRun {
        let phase = match (self.phase, step) {
            (RecoveryPhase::RebuildHolds, RecoveryStep::Listed(_)) => {
                RecoveryPhase::ReconcileVisibility
            },
            (phase, RecoveryStep::Listed(_)) => phase,
            (phase, RecoveryStep::Performed(Ok(_))) => match phase {
                RecoveryPhase::SeedCoordinator => RecoveryPhase::RebuildHolds,
                RecoveryPhase::ReconcileVisibility => RecoveryPhase::SweepDeadlines,
                RecoveryPhase::SweepDeadlines => RecoveryPhase::Repopulate,
                RecoveryPhase::Repopulate => RecoveryPhase::SweepSuccessors,
                RecoveryPhase::SweepSuccessors => RecoveryPhase::Recovered,
                phase => phase,
            },
            (phase, RecoveryStep::Performed(Err(error))) => match phase {
                RecoveryPhase::Recovered | RecoveryPhase::Failed(_) => phase,
                _ => RecoveryPhase::Failed(error),
            },
        };
        RecoveryRun { phase, ..self }
    }

    /// The held workflows after a step: a cold boot holds exactly what is durably paused,
    /// and an adoption adds it to what is held.
    pub open spec fn holds_after(self, step: RecoveryStep, held: Set<WorkflowId>) -> Set<
        WorkflowId,
    > {
        match (self.phase, step) {
            (RecoveryPhase::RebuildHolds, RecoveryStep::Listed(listed)) => match self.scope {
                SweepScope::ColdBoot => listed.to_set(),
                SweepScope::Adoption => held.union(listed.to_set()),
            },
            _ => held,
        }
    }

    /// Takes in the workflows that the store lists as paused, and rebuilds the set of held
    /// workflows from them. In another phase nothing changes.
    pub fn rebuild_holds(self, paused: &mut PausedRuns, listed: &Vec<WorkflowId>) -> (run: Self)
        requires
            old(paused).wf(),
        ensures
            run == self.after(RecoveryStep::Listed(listed@)),
            final(paused).wf(),
            final(paused)@ == self.holds_after(RecoveryStep::Listed(listed@), old(paused)@),
    {
        let phase = match self.phase {
            RecoveryPhase::RebuildHolds => {
                match self.scope {
                    SweepScope::ColdBoot => paused.replace_all(listed),
                    SweepScope::Adoption => paused.extend(listed),
                }
                RecoveryPhase::ReconcileVisibility
            },
            phase => phase,
        };
        RecoveryRun { scope: self.scope, phase }
    }

    /// Takes in what came of a step. The holds are rebuilt only by
    /// [`RecoveryRun::rebuild_holds`]; here the listing can only fail.
    pub fn advance(self, reply: Result<(), EngineError>) -> (run: Self)
        ensures
            run == self.after(RecoveryStep::Performed(reply)),
    {
        let phase = match (self.phase, reply) {
            (RecoveryPhase::SeedCoordinator, Ok(())) => RecoveryPhase::RebuildHolds,
            (RecoveryPhase::ReconcileVisibility, Ok(())) => RecoveryPhase::SweepDeadlines,
            (RecoveryPhase::SweepDeadlines, Ok(())) => RecoveryPhase::Repopulate,
            (RecoveryPhase::Repopulate, Ok(())) => RecoveryPhase::SweepSuccessors,
            (RecoveryPhase::SweepSuccessors, Ok(())) => RecoveryPhase::Recovered,
            (RecoveryPhase::Recovered, _) => RecoveryPhase::Recovered,
            (RecoveryPhase::Failed(error), _) => RecoveryPhase::Failed(error),
            (_, Err(error)) => RecoveryPhase::Failed(error),
            (phase, Ok(())) => phase,
        };
        RecoveryRun { scope: self.scope, phase }
    }
}

/// What a recovery takes in.
pub enum RecoveryStep {
    /// The workflows that the store lists as paused.
    Listed(Seq<WorkflowId>),
    /// What came of a step.
    Performed(Result<(), EngineError>),
}

/// A course of a recovery: each run follows from the one before it by a step.
pub open spec fn recovery_course(runs: Seq<RecoveryRun>, steps: Seq<RecoveryStep>) -> bool {
    &&& runs.len() == steps.len() + 1
    &&& runs[0].phase is SeedCoordinator || runs[0].phase is RebuildHolds
    &&& forall|i: int|
        0 <= i < steps.len() ==> runs[i + 1] == runs[i].after(#[trigger] steps[i])
}

/// A step of a recovery was performed with success before some point of its course.
pub open spec fn recovery_performed(
    runs: Seq<RecoveryRun>,
    steps: Seq<RecoveryStep>,
    phase: RecoveryPhase,
    point: int,
) -> bool {
    exists|i: int|
        0 <= i < point && (#[trigger] runs[i]).phase == phase && (steps[i] matches
            RecoveryStep::Performed(reply) && reply is Ok)
}

/// No workflow is brought back and no successor is started before the deadlines left
/// behind terminals have been swept, and the sweep never changes its scope.
pub proof fn deadlines_are_swept_before_any_recorder_exists(
    runs: Seq<RecoveryRun>,
    steps: Seq<RecoveryStep>,
    point: int,
)
    requires
        recovery_course(runs, steps),
        0 <= point < runs.len(),
    ensures
        runs[point].phase is Repopulate || runs[point].phase is SweepSuccessors
            || runs[point].phase is Recovered ==> recovery_performed(
            runs,
            steps,
            RecoveryPhase::SweepDeadlines,
            point,
        ),
        runs[point].scope == runs[0].scope,
    decreases point,
{
    if point > 0 {
        deadlines_are_swept_before_any_recorder_exists(runs, steps, point - 1);
        let prior = runs[point - 1];
        assert(runs[point] == prior.after(steps[point - 1]));
        if recovery_performed(runs, steps, RecoveryPhase::SweepDeadlines, point - 1) {
            let i = choose|i: int|
                0 <= i < point - 1 && (#[trigger] runs[i]).phase == RecoveryPhase::SweepDeadlines
                    && (steps[i] matches RecoveryStep::Performed(reply) && reply is Ok);
            assert(runs[i].phase == RecoveryPhase::SweepDeadlines);
        }
    }
}

/// The set of held workflows has not been rebuilt yet, or the recovery failed.
pub open spec fn before_holds(phase: RecoveryPhase) -> bool {
    phase is SeedCoordinator || phase is RebuildHolds || phase is Failed
}

/// The held workflows as they are before each step of a recovery and at its end, where
/// nothing but the recovery changes them.
pub open spec fn holds_course(
    runs: Seq<RecoveryRun>,
    steps: Seq<RecoveryStep>,
    held: Seq<Set<WorkflowId>>,
) -> bool {
    &&& recovery_course(runs, steps)
    &&& held.len() == runs.len()
    &&& forall|i: int|
        0 <= i < steps.len() ==> held[i + 1] == runs[i].holds_after(#[trigger] steps[i], held[i])
}

/// Before some point of a course, the held workflows were rebuilt from what the store
/// listed: at a cold boot they are what was listed, and at an adoption what was listed and
/// what was held before.
pub open spec fn holds_rebuilt(
    runs: Seq<RecoveryRun>,
    steps: Seq<RecoveryStep>,
    held: Seq<Set<WorkflowId>>,
    point: int,
) -> bool {
    exists|i: int|
        {
            &&& 0 <= i < point
            &&& runs[i].phase is RebuildHolds
            &&& #[trigger] steps[i] matches RecoveryStep::Listed(listed)
            &&& held[point] == match runs[0].scope {
                SweepScope::ColdBoot => listed.to_set(),
                SweepScope::Adoption => held[0].union(listed.to_set()),
            }
        }
}

/// A run that was paused before a crash stays held: before visibility is reconciled, and
/// so before any deadline is swept and any workflow brought back, the set of held workflows
/// is rebuilt from the durable list. At a cold boot it equals that list; at an adoption it
/// contains it, and loses nothing that was held. Until then it is as it was.
pub proof fn holds_are_rebuilt_before_anything_is_recovered(
    runs: Seq<RecoveryRun>,
    steps: Seq<RecoveryStep>,
    held: Seq<Set<WorkflowId>>,
    point: int,
)
    requires
        holds_course(runs, steps, held),
        0 <= point < runs.len(),
    ensures
        before_holds(runs[point].phase) || holds_rebuilt(runs, steps, held, point),
        held[point] == held[0] || holds_rebuilt(runs, steps, held, point),
    decreases point,
{
    if point > 0 {
        holds_are_rebuilt_before_anything_is_recovered(runs, steps, held, point - 1);
        deadlines_are_swept_before_any_recorder_exists(runs, steps, point - 1);
        let prior = runs[point - 1];
        let step = steps[point - 1];
        assert(runs[point] == prior.after(step));
        assert(held[point] == prior.holds_after(step, held[point - 1]));
        if holds_rebuilt(runs, steps, held, point - 1) {
            lemma_holds_are_rebuilt_once(runs, steps, held, point - 1);
            let i = choose|i: int|
                {
                    &&& 0 <= i < point - 1
                    &&& runs[i].phase is RebuildHolds
                    &&& #[trigger] steps[i] matches RecoveryStep::Listed(listed)
                    &&& held[point - 1] == match runs[0].scope {
                        SweepScope::ColdBoot => listed.to_set(),
                        SweepScope::Adoption => held[0].union(listed.to_set()),
                    }
                };
            assert(steps[i] is Listed);
        }
    }
}

/// Once the held workflows are rebuilt, the recovery does not come back to that step.
proof fn lemma_holds_are_rebuilt_once(
    runs: Seq<RecoveryRun>,
    steps: Seq<RecoveryStep>,
    held: Seq<Set<WorkflowId>>,
    point: int,
)
    requires
        holds_course(runs, steps, held),
        0 <= point < runs.len(),
        holds_rebuilt(runs, steps, held, point),
    ensures
        !(runs[point].phase is SeedCoordinator) && !(runs[point].phase is RebuildHolds),
{
    let i = choose|i: int|
        {
            &&& 0 <= i < point
            &&& runs[i].phase is RebuildHolds
            &&& #[trigger] steps[i] matches RecoveryStep::Listed(listed)
            &&& held[point] == match runs[0].scope {
                SweepScope::ColdBoot => listed.to_set(),
                SweepScope::Adoption => held[0].union(listed.to_set()),
            }
        };
    assert(runs[i + 1] == runs[i].after(steps[i]));
    lemma_past_the_holds(runs, steps, i + 1, point);
}

/// What is past the rebuild of the holds stays past it.
proof fn lemma_past_the_holds(
    runs: Seq<RecoveryRun>,
    steps: Seq<RecoveryStep>,
    earlier: int,
    later: int,
)
    requires
        recovery_course(runs, steps),
        0 <= earlier <= later < runs.len(),
        !(runs[earlier].phase is SeedCoordinator) && !(runs[earlier].phase is RebuildHolds),
    ensures
        !(runs[later].phase is SeedCoordinator) && !(runs[later].phase is RebuildHolds),
    decreases later - earlier,
{
    if earlier < later {
        lemma_past_the_holds(runs, steps, earlier, later - 1);
        assert(runs[later] == runs[later - 1].after(steps[later - 1]));
    }
}

} // verus!
