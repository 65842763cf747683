//! Durable-schedule surface: create, update, pause, resume and delete, listing and
//! description, and the schedule coordinator's identity.

use vstd::prelude::*;
use vstd::string::*;
use vstd::utf8::encode_utf8;

use crate::clock::{earlier, Timestamp};
use crate::engine::api::{gated, refusal_of};
use crate::engine::shutdown_gate::ShutdownGate;
use crate::error::EngineError;
use crate::event::{Event, EventEnvelope, Payload, SearchAttribute};
use crate::ids::{uuid_text, RunId, ScheduleId, WorkflowId};
use crate::lifecycle::completion::PlannedStart;
use crate::lifecycle::start::StartWorkflowOptions;
use crate::sort::{in_order, lemma_bytes_order, sort, Ordered};
use crate::text::{comes_before, text_less};

verus! {

/// The identifier of the schedule coordinator's workflow.
pub const COORDINATOR_WORKFLOW: u128 = 0x0000_0000_a10a_0000_0000_0000_0000_0004;

/// The identifier of the schedule coordinator's run.
pub const COORDINATOR_RUN: u128 = 0x0000_0000_a10a_0000_0000_0000_0000_0005;

/// Workflow history used for durable schedule events and timer ownership.
pub fn schedule_coordinator_workflow_id() -> (id: WorkflowId)
    ensures
        id.value == COORDINATOR_WORKFLOW,
{
    WorkflowId::new(COORDINATOR_WORKFLOW)
}

/// Run of the schedule coordinator.
pub fn schedule_coordinator_run_id() -> (id: RunId)
    ensures
        id.value == COORDINATOR_RUN,
{
    RunId::new(COORDINATOR_RUN)
}

/// Workflow type of the schedule coordinator.
pub fn schedule_coordinator_workflow_type() -> (text: &'static str)
    ensures
        text@ == "aion.schedule_coordinator"@,
{
    "aion.schedule_coordinator"
}

/// The envelope of a schedule event that is applied to projected state: it carries no
/// position of its own.
pub fn schedule_event_envelope(recorded_at: Timestamp) -> (envelope: EventEnvelope)
    ensures
        envelope.seq == 0,
        envelope.recorded_at == recorded_at,
        envelope.workflow_id.value == COORDINATOR_WORKFLOW,
{
    EventEnvelope { seq: 0, recorded_at, workflow_id: schedule_coordinator_workflow_id() }
}

/// What the engine reads of a schedule's projected state.
#[derive(Clone, Copy, Debug, PartialEq, Eq, Structural)]
pub struct ScheduleState {
    /// The schedule.
    pub schedule_id: ScheduleId,
    /// When it triggers next, where it does.
    pub next_trigger_at: Option<Timestamp>,
    /// The schedule was deleted.
    pub is_deleted: bool,
}

/// One trigger instant comes strictly before another; none comes before any.
pub open spec fn triggers_before(a: Option<Timestamp>, b: Option<Timestamp>) -> bool {
    match (a, b) {
        (None, Some(_)) => true,
        (Some(left), Some(right)) => earlier(left, right),
        _ => false,
    }
}

/// One schedule is listed strictly before another: by its next trigger, then by the
/// text of its identifier.
pub open spec fn schedule_before(a: ScheduleState, b: ScheduleState) -> bool {
    if triggers_before(a.next_trigger_at, b.next_trigger_at) {
        true
    } else if triggers_before(b.next_trigger_at, a.next_trigger_at) {
        false
    } else {
        text_less(uuid_text(a.schedule_id.value), uuid_text(b.schedule_id.value))
    }
}

impl Ordered for ScheduleState {
    open spec fn may_precede(&self, other: &Self) -> bool {
        !schedule_before(*other, *self)
    }

    proof fn order_is_total(a: &Self, b: &Self) {
        let (ta, tb) = (
            encode_utf8(uuid_text(a.schedule_id.value)),
            encode_utf8(uuid_text(b.schedule_id.value)),
        );
        lemma_bytes_order(ta, tb, tb);
    }

    proof fn order_is_transitive(a: &Self, b: &Self, c: &Self) {
        let (ta, tb, tc) = (
            encode_utf8(uuid_text(a.schedule_id.value)),
            encode_utf8(uuid_text(b.schedule_id.value)),
            encode_utf8(uuid_text(c.schedule_id.value)),
        );
        lemma_bytes_order(ta, tb, tc);
    }

    fn precedes(&self, other: &Self) -> (precedes: bool) {
        let others_first = match (&other.next_trigger_at, &self.next_trigger_at) {
            (None, Some(_)) => true,
            (Some(theirs), Some(own)) => own.is_after(theirs),
            _ => false,
        };
        let own_first = match (&self.next_trigger_at, &other.next_trigger_at) {
            (None, Some(_)) => true,
            (Some(own), Some(theirs)) => theirs.is_after(own),
            _ => false,
        };
        if others_first {
            false
        } else if own_first {
            true
        } else {
            let own = self.schedule_id.text();
            let theirs = other.schedule_id.text();
            !comes_before(theirs.as_str(), own.as_str())
        }
    }
}

/// The schedules that were not deleted, in their order.
pub open spec fn undeleted(states: Seq<ScheduleState>) -> Seq<ScheduleState>
    decreases states.len(),
{
    if states.len() == 0 {
        Seq::empty()
    } else if states.last().is_deleted {
        undeleted(states.drop_last())
    } else {
        undeleted(states.drop_last()).push(states.last())
    }
}

/// Lists all non-deleted schedules of projected state, by their next trigger and then
/// by identifier.
pub fn list_schedules(states: &Vec<ScheduleState>) -> (listed: Vec<ScheduleState>)
    ensures
        in_order(listed@),
        listed@.to_multiset() == undeleted(states@).to_multiset(),
        listed@.len() == undeleted(states@).len(),
{
    let mut kept: Vec<ScheduleState> = Vec::new();
    let mut i: usize = 0;
    while i < states.len()
        invariant
            0 <= i <= states@.len(),
            kept@ == undeleted(states@.take(i as int)),
        decreases states.len() - i,
    {
        proof {
            assert(states@.take(i + 1).drop_last() =~= states@.take(i as int));
        }
        if !states[i].is_deleted {
            kept.push(states[i]);
        }
        i = i + 1;
    }
    proof {
        assert(states@.take(i as int) =~= states@);
    }
    sort(kept)
}

/// A schedule exists: some state is its own and is not deleted.
pub open spec fn schedule_exists(states: Seq<ScheduleState>, schedule_id: ScheduleId) -> bool {
    exists|i: int| 0 <= i < states.len() && schedule_is(#[trigger] states[i], schedule_id)
}

/// A state is that of an existing schedule.
pub open spec fn schedule_is(state: ScheduleState, schedule_id: ScheduleId) -> bool {
    state.schedule_id == schedule_id && !state.is_deleted
}

/// Describes one non-deleted schedule.
///
/// # Errors
///
/// [`EngineError::ScheduleNotFound`] for absent or deleted schedules.
pub fn describe_schedule(states: &Vec<ScheduleState>, schedule_id: &ScheduleId) -> (result: Result<
    ScheduleState,
    EngineError,
>)
    ensures
        match result {
            Ok(state) => states@.contains(state) && schedule_is(state, *schedule_id),
            Err(error) => !schedule_exists(states@, *schedule_id) && error
                == (EngineError::ScheduleNotFound { schedule_id: *schedule_id }),
        },
{
    let mut i: usize = 0;
    while i < states.len()
        invariant
            0 <= i <= states@.len(),
            forall|j: int| 0 <= j < i ==> !schedule_is(#[trigger] states@[j], *schedule_id),
        decreases states.len() - i,
    {
        if states[i].schedule_id == *schedule_id && !states[i].is_deleted {
            return Ok(states[i]);
        }
        i = i + 1;
    }
    Err(EngineError::ScheduleNotFound { schedule_id: *schedule_id })
}

/// Fails unless a schedule exists.
///
/// # Errors
///
/// [`EngineError::ScheduleNotFound`] for absent or deleted schedules.
pub fn ensure_schedule_exists(states: &Vec<ScheduleState>, schedule_id: &ScheduleId) -> (result:
    Result<(), EngineError>)
    ensures
        match result {
            Ok(()) => schedule_exists(states@, *schedule_id),
            Err(error) => !schedule_exists(states@, *schedule_id) && error
                == (EngineError::ScheduleNotFound { schedule_id: *schedule_id }),
        },
{
    match describe_schedule(states, schedule_id) {
        Ok(state) => {
            proof {
                let i = choose|i: int| 0 <= i < states@.len() && states@[i] == state;
                assert(schedule_is(states@[i], *schedule_id));
            }
            Ok(())
        },
        Err(error) => Err(error),
    }
}

/// A change to the schedules.
#[derive(Debug, PartialEq, Eq)]
pub enum ScheduleChange {
    /// A schedule is created with an encoded configuration.
    Create(Payload),
    /// Its configuration is replaced by another one.
    Update(Payload),
    /// It is paused.
    Pause,
    /// It is resumed.
    Resume,
    /// It is deleted.
    Delete,
}

/// A change leaves the schedule to be armed anew: it was created, updated or resumed.
pub open spec fn rearms(change: ScheduleChange) -> bool {
    change is Create || change is Update || change is Resume
}

/// The step of a schedule change to perform next, or how it ended.
#[derive(Debug, PartialEq, Eq)]
pub enum ScheduleChangePhase {
    /// Record the event.
    Record,
    /// Look the schedule up again: it may be gone by now.
    Recheck,
    /// Apply the event to the projected state.
    Apply,
    /// Arm the schedule's next timer.
    Arm,
    /// The change is made.
    Changed,
    /// The change failed.
    Failed(EngineError),
}

/// A change to a schedule on its way.
#[derive(Debug, PartialEq, Eq)]
pub struct ScheduleChangeRun {
    /// The change.
    pub change: ScheduleChange,
    /// The schedule.
    pub schedule_id: ScheduleId,
    /// The step to perform next, or how the change ended.
    pub phase: ScheduleChangePhase,
}

/// The event that records a change.
pub open spec fn change_event(
    change: ScheduleChange,
    schedule_id: ScheduleId,
    recorded_at: Timestamp,
) -> Event {
    let envelope = EventEnvelope {
        seq: 0,
        recorded_at,
        workflow_id: WorkflowId { value: COORDINATOR_WORKFLOW },
    };
    match change {
        ScheduleChange::Create(config) => Event::ScheduleCreated { envelope, schedule_id, config },
        ScheduleChange::Update(config) => Event::ScheduleUpdated { envelope, schedule_id, config },
        ScheduleChange::Pause => Event::SchedulePaused { envelope, schedule_id },
        ScheduleChange::Resume => Event::ScheduleResumed { envelope, schedule_id },
        ScheduleChange::Delete => Event::ScheduleDeleted { envelope, schedule_id },
    }
}

impl ScheduleChangeRun {
    /// Begins to create a schedule with an encoded configuration.
    ///
    /// # Errors
    ///
    /// [`EngineError::ShuttingDown`] once shutdown has begun; nothing is recorded then.
    pub fn create_schedule(
        gate: &mut ShutdownGate,
        schedule_id: ScheduleId,
        config: Payload,
    ) -> (result: Result<Self, EngineError>)
        requires
            old(gate)@.shutting_down || old(gate)@.active_operations < usize::MAX,
        ensures
            gated(old(gate)@, final(gate)@, refusal_of(result)),
            result matches Ok(run) ==> run == (ScheduleChangeRun {
                change: ScheduleChange::Create(config),
                schedule_id,
                phase: ScheduleChangePhase::Record,
            }),
    {
        match gate.begin_start() {
            Ok(()) => Ok(
                ScheduleChangeRun {
                    change: ScheduleChange::Create(config),
                    schedule_id,
                    phase: ScheduleChangePhase::Record,
                },
            ),
            Err(error) => Err(error),
        }
    }

    /// Begins a change to an existing schedule. The operation is counted in also where the
    /// schedule is not there, and the run then ends at once.
    ///
    /// # Errors
    ///
    /// [`EngineError::ShuttingDown`] once shutdown has begun; nothing is recorded then.
    pub fn begin(
        gate: &mut ShutdownGate,
        states: &Vec<ScheduleState>,
        schedule_id: ScheduleId,
        change: ScheduleChange,
    ) -> (result: Result<Self, EngineError>)
        requires
            old(gate)@.shutting_down || old(gate)@.active_operations < usize::MAX,
        ensures
            gated(old(gate)@, final(gate)@, refusal_of(result)),
            result matches Ok(run) ==> {
                &&& run.change == change
                &&& run.schedule_id == schedule_id
                &&& if schedule_exists(states@, schedule_id) {
                    run.phase is Record
                } else {
                    run.phase == ScheduleChangePhase::Failed(
                        EngineError::ScheduleNotFound { schedule_id },
                    )
                }
            },
    {
        match gate.begin_operation() {
            Ok(()) => {},
            Err(error) => return Err(error),
        }
        let phase = match ensure_schedule_exists(states, &schedule_id) {
            Ok(()) => ScheduleChangePhase::Record,
            Err(error) => ScheduleChangePhase::Failed(error),
        };
        Ok(ScheduleChangeRun { change, schedule_id, phase })
    }

    /// The event that records the change.
    pub fn event(&self, recorded_at: Timestamp) -> (event: Event)
        ensures
            event == change_event(self.change, self.schedule_id, recorded_at),
    {
        let envelope = schedule_event_envelope(recorded_at);
        let schedule_id = self.schedule_id;
        match &self.change {
            ScheduleChange::Create(config) => Event::ScheduleCreated {
                envelope,
                schedule_id,
                config: config.clone(),
            },
            ScheduleChange::Update(config) => Event::ScheduleUpdated {
                envelope,
                schedule_id,
                config: config.clone(),
            },
            ScheduleChange::Pause => Event::SchedulePaused { envelope, schedule_id },
            ScheduleChange::Resume => Event::ScheduleResumed { envelope, schedule_id },
            ScheduleChange::Delete => Event::ScheduleDeleted { envelope, schedule_id },
        }
    }

    /// The phase after the schedule was looked up again: a change is applied only to a
    /// schedule that is still there.
    pub open spec fn rechecked(self, states: Seq<ScheduleState>) -> ScheduleChangePhase {
        if self.phase is Recheck {
            if schedule_exists(states, self.schedule_id) {
                ScheduleChangePhase::Apply
            } else {
                ScheduleChangePhase::Failed(
                    EngineError::ScheduleNotFound { schedule_id: self.schedule_id },
                )
            }
        } else {
            self.phase
        }
    }

    /// Looks the schedule up again.
    pub fn recheck(self, states: &Vec<ScheduleState>) -> (run: Self)
        ensures
            run == (ScheduleChangeRun { phase: self.rechecked(states@), ..self }),
    {
        let ScheduleChangeRun { change, schedule_id, phase } = self;
        let phase = match phase {
            ScheduleChangePhase::Recheck => {
                match ensure_schedule_exists(states, &schedule_id) {
                    Ok(()) => ScheduleChangePhase::Apply,
                    Err(error) => ScheduleChangePhase::Failed(error),
                }
            },
            phase => phase,
        };
        ScheduleChangeRun { change, schedule_id, phase }
    }

    /// The phase after a step: recording comes before applying, and a pause or a
    /// deletion does not arm the schedule.
    pub open spec fn after(self, reply: Result<(), EngineError>) -> ScheduleChangePhase {
        match (self.phase, reply) {
            (ScheduleChangePhase::Record, Ok(())) => if self.change is Create {
                ScheduleChangePhase::Apply
            } else {
                ScheduleChangePhase::Recheck
            },
            (ScheduleChangePhase::Apply, Ok(())) => if rearms(self.change) {
                ScheduleChangePhase::Arm
            } else {
                ScheduleChangePhase::Changed
            },
            (ScheduleChangePhase::Arm, Ok(())) => ScheduleChangePhase::Changed,
            (ScheduleChangePhase::Record, Err(error))
            | (ScheduleChangePhase::Apply, Err(error))
            | (ScheduleChangePhase::Arm, Err(error)) => ScheduleChangePhase::Failed(error),
            (phase, _) => phase,
        }
    }

    /// Takes in what came of a step.
    pub fn advance(self, reply: Result<(), EngineError>) -> (run: Self)
        ensures
            run == (ScheduleChangeRun { phase: self.after(reply), ..self }),
    {
        let ScheduleChangeRun { change, schedule_id, phase } = self;
        let phase = match (phase, reply) {
            (ScheduleChangePhase::Record, Ok(())) => {
                match &change {
                    ScheduleChange::Create(_) => ScheduleChangePhase::Apply,
                    _ => ScheduleChangePhase::Recheck,
                }
            },
            (ScheduleChangePhase::Apply, Ok(())) => {
                let arms = match &change {
                    ScheduleChange::Create(_)
                    | ScheduleChange::Update(_)
                    | ScheduleChange::Resume => true,
                    ScheduleChange::Pause | ScheduleChange::Delete => false,
                };
                if arms {
                    ScheduleChangePhase::Arm
                } else {
                    ScheduleChangePhase::Changed
                }
            },
            (ScheduleChangePhase::Arm, Ok(())) => ScheduleChangePhase::Changed,
            (ScheduleChangePhase::Record, Err(error)) => ScheduleChangePhase::Failed(error),
            (ScheduleChangePhase::Apply, Err(error)) => ScheduleChangePhase::Failed(error),
            (ScheduleChangePhase::Arm, Err(error)) => ScheduleChangePhase::Failed(error),
            (phase, _) => phase,
        };
        ScheduleChangeRun { change, schedule_id, phase }
    }
}

/// How a scheduled workflow is started: as a fresh one, with the schedule's attributes.
pub fn start_scheduled_workflow(
    workflow_type: &str,
    input: Payload,
    search_attributes: Vec<SearchAttribute>,
) -> (start: PlannedStart)
    ensures
        start.workflow_type@ == workflow_type@,
        start.input == input,
        start.options == (StartWorkflowOptions {
            workflow_id: None,
            routing_key: None,
            parent_run_id: None,
            loaded_version: None,
            search_attributes,
            namespace: None,
        }),
{
    PlannedStart {
        workflow_type: workflow_type.to_owned(),
        input,
        options: StartWorkflowOptions {
            workflow_id: None,
            routing_key: None,
            parent_run_id: None,
            loaded_version: None,
            search_attributes,
            namespace: None,
        },
    }
}

/// Each kind of change records its own kind of event, for the schedule that was named and
/// with the configuration that was given: no other change records it. It is recorded in
/// the schedule coordinator's history, at the given instant.
pub proof fn each_change_records_its_own_event(
    change: ScheduleChange,
    schedule_id: ScheduleId,
    recorded_at: Timestamp,
)
    ensures
        ({
            let event = change_event(change, schedule_id, recorded_at);
            &&& event is ScheduleCreated <==> change is Create
            &&& event is ScheduleUpdated <==> change is Update
            &&& event is SchedulePaused <==> change is Pause
            &&& event is ScheduleResumed <==> change is Resume
            &&& event is ScheduleDeleted <==> change is Delete
            &&& event matches Event::ScheduleCreated { envelope, schedule_id: named, config } ==> {
                &&& named == schedule_id
                &&& change == ScheduleChange::Create(config)
                &&& envelope.recorded_at == recorded_at
                &&& envelope.workflow_id.value == COORDINATOR_WORKFLOW
                &&& envelope.seq == 0
            }
            &&& event matches Event::ScheduleUpdated { envelope, schedule_id: named, config } ==> {
                &&& named == schedule_id
                &&& change == ScheduleChange::Update(config)
                &&& envelope.recorded_at == recorded_at
                &&& envelope.workflow_id.value == COORDINATOR_WORKFLOW
                &&& envelope.seq == 0
            }
            &&& event matches Event::SchedulePaused { envelope, schedule_id: named } ==> {
                &&& named == schedule_id
                &&& envelope.recorded_at == recorded_at
                &&& envelope.workflow_id.value == COORDINATOR_WORKFLOW
                &&& envelope.seq == 0
            }
            &&& event matches Event::ScheduleResumed { envelope, schedule_id: named } ==> {
                &&& named == schedule_id
                &&& envelope.recorded_at == recorded_at
                &&& envelope.workflow_id.value == COORDINATOR_WORKFLOW
                &&& envelope.seq == 0
            }
            &&& event matches Event::ScheduleDeleted { envelope, schedule_id: named } ==> {
                &&& named == schedule_id
                &&& envelope.recorded_at == recorded_at
                &&& envelope.workflow_id.value == COORDINATOR_WORKFLOW
                &&& envelope.seq == 0
            }
        }),
{
}

/// A change is recorded before it is applied. Only a created schedule is applied without
/// being looked up again, and a schedule is armed exactly where it was created, updated or
/// resumed: a paused or deleted one never is. A failing step ends the change with its own
/// error.
pub proof fn a_change_takes_its_steps_in_order(
    run: ScheduleChangeRun,
    reply: Result<(), EngineError>,
)
    ensures
        ({
            let next = run.after(reply);
            let moved = next != run.phase;
            &&& moved && next is Recheck ==> run.phase is Record && reply is Ok && !(run.change
                is Create)
            &&& moved && next is Apply ==> run.phase is Record && reply is Ok && run.change
                is Create
            &&& moved && next is Arm ==> run.phase is Apply && reply is Ok && !(run.change is Pause)
                && !(run.change is Delete)
            &&& moved && next is Changed ==> reply is Ok && (run.phase is Arm || (run.phase is Apply
                && (run.change is Pause || run.change is Delete)))
            &&& reply is Ok && (run.phase is Record || run.phase is Apply || run.phase is Arm)
                ==> moved && !(next is Failed)
            &&& (reply matches Err(error) ==> (run.phase is Record || run.phase is Apply || run.phase
                is Arm ==> next == ScheduleChangePhase::Failed(error)))
            &&& run.phase is Changed || run.phase is Failed || run.phase is Recheck ==> !moved
        }),
{
}

/// A schedule is there exactly where some state is its own and is not deleted, and a change
/// that was recorded is applied only to a schedule that is still there.
pub proof fn a_deleted_schedule_is_gone(
    states: Seq<ScheduleState>,
    schedule_id: ScheduleId,
    run: ScheduleChangeRun,
)
    ensures
        schedule_exists(states, schedule_id) <==> exists|i: int|
            0 <= i < states.len() && (#[trigger] states[i]).schedule_id == schedule_id
                && !states[i].is_deleted,
        run.phase is Recheck && run.schedule_id == schedule_id ==> (if (exists|i: int|
            0 <= i < states.len() && (#[trigger] states[i]).schedule_id == schedule_id
                && !states[i].is_deleted) {
            run.rechecked(states) is Apply
        } else {
            run.rechecked(states) == ScheduleChangePhase::Failed(
                EngineError::ScheduleNotFound { schedule_id },
            )
        }),
        !(run.phase is Recheck) ==> run.rechecked(states) == run.phase,
{
    if exists|i: int|
        0 <= i < states.len() && (#[trigger] states[i]).schedule_id == schedule_id
            && !states[i].is_deleted {
        let i = choose|i: int|
            0 <= i < states.len() && (#[trigger] states[i]).schedule_id == schedule_id
                && !states[i].is_deleted;
        assert(schedule_is(states[i], schedule_id));
    }
}

/// The schedules that are listed are those that are not deleted, as often as they occur.
pub proof fn only_deleted_schedules_are_left_out(states: Seq<ScheduleState>)
    ensures
        undeleted(states) == states.filter(|state: ScheduleState| !state.is_deleted),
    decreases states.len(),
{
    reveal(Seq::filter);
    if states.len() > 0 {
        only_deleted_schedules_are_left_out(states.drop_last());
    } else {
        assert(undeleted(states) =~= states);
    }
}

/// Schedules are listed by their next trigger: those without one come first, an earlier
/// one comes before a later one, and those that trigger together stand in the order of
/// their identifiers' texts.
pub proof fn schedules_are_listed_by_their_next_trigger(
    listed: Seq<ScheduleState>,
    i: int,
    j: int,
)
    requires
        in_order(listed),
        0 <= i < j < listed.len(),
    ensures
        listed[j].next_trigger_at is None ==> listed[i].next_trigger_at is None,
        listed[i].next_trigger_at matches Some(first) ==> (listed[j].next_trigger_at matches Some(
            second,
        ) && !earlier(second, first)),
        listed[i].next_trigger_at == listed[j].next_trigger_at ==> !text_less(
            uuid_text(listed[j].schedule_id.value),
            uuid_text(listed[i].schedule_id.value),
        ),
{
    assert(listed[i].may_precede(&listed[j]));
}

} // verus!
