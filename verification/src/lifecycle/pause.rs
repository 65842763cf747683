//! Durable operator pause/resume.
//!
//! Pause holds new activity dispatch for a live, non-terminal run while keeping every
//! durable record path alive. The resident process is not torn down: the hold lives at
//! outbox claim time, and release is resume plus the existing sweep.

use vstd::prelude::*;
use vstd::string::*;

use crate::error::{is_invalid_state, is_run_not_found, workflow_not_found, EngineError};
use crate::event::{ended, Event, WorkflowStatus};
use crate::history::{
    lemma_last_where_is, on_hold, opens_lease, other_events_keep_the_terminal, run_segment,
    segment_of, status_from_events, status_is_terminal_exactly_when_the_lease_ended, status_of,
};
use crate::ids::{RunId, WorkflowId};
use crate::lifecycle::reopen::{
    rearm_plan, rearm_views, rearmable_timers, run_subject, run_subject_text, RearmTimer,
};
use crate::registry::WorkflowHandle;
use crate::text::concat4;

verus! {

/// The workflows whose outbox dispatch is held because their run is durably `Paused`.
///
/// It is rebuilt from durable state at startup and at shard adoption: a cache of the
/// durable projection, never the source of truth.
#[derive(Debug, PartialEq, Eq)]
pub struct PausedRuns {
    held: Vec<WorkflowId>,
}

impl View for PausedRuns {
    type V = Set<WorkflowId>;

    closed spec fn view(&self) -> Set<WorkflowId> {
        self.held@.to_set()
    }
}

impl PausedRuns {
    /// Each held workflow is listed once.
    pub closed spec fn wf(&self) -> bool {
        self.held@.no_duplicates()
    }

    /// Nothing is held.
    pub fn new() -> (paused: Self)
        ensures
            paused.wf(),
            paused@ == Set::<WorkflowId>::empty(),
    {
        let paused = PausedRuns { held: Vec::new() };
        assert(paused@ =~= Set::<WorkflowId>::empty());
        paused
    }

    /// Where a workflow stands.
    fn position(&self, workflow_id: &WorkflowId) -> (position: Option<usize>)
        ensures
            match position {
                Some(i) => i < self.held@.len() && self.held@[i as int] == *workflow_id,
                None => !self.held@.contains(*workflow_id),
            },
    {
        let mut i: usize = 0;
        while i < self.held.len()
            invariant
                0 <= i <= self.held@.len(),
                forall|j: int| 0 <= j < i ==> self.held@[j] != *workflow_id,
            decreases self.held.len() - i,
        {
            if self.held[i] == *workflow_id {
                return Some(i);
            }
            i = i + 1;
        }
        None
    }

    /// Whether a workflow is held.
    pub fn contains(&self, workflow_id: &WorkflowId) -> (held: bool)
        ensures
            held == self@.contains(*workflow_id),
    {
        match self.position(workflow_id) {
            Some(i) => {
                assert(self.held@.contains(*workflow_id));
                true
            },
            None => false,
        }
    }

    /// Marks `workflow_id` held (paused).
    pub fn insert(&mut self, workflow_id: WorkflowId)
        requires
            old(self).wf(),
        ensures
            final(self).wf(),
            final(self)@ == old(self)@.insert(workflow_id),
    {
        let ghost before = self.held@;
        match self.position(&workflow_id) {
            Some(i) => {
                assert(before.contains(workflow_id));
                assert(self@.insert(workflow_id) =~= self@);
            },
            None => {
                self.held.push(workflow_id);
                proof {
                    assert forall|id: WorkflowId|
                        self.held@.contains(id) <==> (before.contains(id) || id == workflow_id) by {
                        if before.contains(id) {
                            let k = choose|k: int| 0 <= k < before.len() && before[k] == id;
                            assert(self.held@[k] == id);
                        }
                        if id == workflow_id {
                            assert(self.held@[before.len() as int] == id);
                        }
                        if self.held@.contains(id) && id != workflow_id {
                            let k = choose|k: int|
                                0 <= k < self.held@.len() && self.held@[k] == id;
                            assert(before[k] == id);
                        }
                    }
                    assert(self@ =~= before.to_set().insert(workflow_id));
                }
            },
        }
    }

    /// Releases `workflow_id` from the hold (resumed or cancelled).
    pub fn remove(&mut self, workflow_id: &WorkflowId)
        requires
            old(self).wf(),
        ensures
            final(self).wf(),
            final(self)@ == old(self)@.remove(*workflow_id),
    {
        let ghost before = self.held@;
        match self.position(workflow_id) {
            Some(i) => {
                let released = self.held.remove(i);
                proof {
                    let after = self.held@;
                    assert forall|id: WorkflowId|
                        after.contains(id) <==> (before.contains(id) && id != *workflow_id) by {
                        if after.contains(id) {
                            let k = choose|k: int| 0 <= k < after.len() && after[k] == id;
                            assert(before[if k < i { k } else { k + 1 }] == id);
                        }
                        if before.contains(id) && id != *workflow_id {
                            let k = choose|k: int| 0 <= k < before.len() && before[k] == id;
                            assert(after[if k < i { k } else { k - 1 }] == id);
                        }
                    }
                    assert(self@ =~= before.to_set().remove(*workflow_id));
                }
            },
            None => {
                assert(self@.remove(*workflow_id) =~= self@);
            },
        }
    }

    /// Returns a point-in-time snapshot of the held set for a claim exclusion: each held
    /// workflow once.
    pub fn snapshot(&self) -> (held: Vec<WorkflowId>)
        requires
            self.wf(),
        ensures
            held@.to_set() == self@,
            held@.no_duplicates(),
    {
        let mut held: Vec<WorkflowId> = Vec::new();
        let mut i: usize = 0;
        while i < self.held.len()
            invariant
                0 <= i <= self.held@.len(),
                held@ == self.held@.take(i as int),
            decreases self.held.len() - i,
        {
            held.push(self.held[i]);
            proof {
                assert(held@ =~= self.held@.take(i + 1));
            }
            i = i + 1;
        }
        proof {
            assert(self.held@.take(i as int) =~= self.held@);
        }
        held
    }

    /// Merges additional paused ids into the held set: shard adoption widens the set
    /// without dropping already-held runs from other shards.
    pub fn extend(&mut self, workflow_ids: &Vec<WorkflowId>)
        requires
            old(self).wf(),
        ensures
            final(self).wf(),
            final(self)@ == old(self)@.union(workflow_ids@.to_set()),
    {
        let ghost before = self@;
        let mut i: usize = 0;
        proof {
            assert(before.union(workflow_ids@.take(0).to_set()) =~= before);
        }
        while i < workflow_ids.len()
            invariant
                self.wf(),
                0 <= i <= workflow_ids@.len(),
                self@ == before.union(workflow_ids@.take(i as int).to_set()),
            decreases workflow_ids.len() - i,
        {
            self.insert(workflow_ids[i]);
            proof {
                let shorter = workflow_ids@.take(i as int);
                let longer = workflow_ids@.take(i + 1);
                let added = workflow_ids@[i as int];
                assert forall|id: WorkflowId|
                    longer.contains(id) <==> (shorter.contains(id) || id == added) by {
                    if shorter.contains(id) {
                        let k = choose|k: int| 0 <= k < shorter.len() && shorter[k] == id;
                        assert(longer[k] == id);
                    }
                    if id == added {
                        assert(longer[i as int] == id);
                    }
                    if longer.contains(id) && id != added {
                        let k = choose|k: int| 0 <= k < longer.len() && longer[k] == id;
                        assert(shorter[k] == id);
                    }
                }
                assert(self@ =~= before.union(longer.to_set()));
            }
            i = i + 1;
        }
        proof {
            assert(workflow_ids@.take(i as int) =~= workflow_ids@);
        }
    }

    /// Replaces the entire held set from the durable projection.
    pub fn replace_all(&mut self, workflow_ids: &Vec<WorkflowId>)
        ensures
            final(self).wf(),
            final(self)@ == workflow_ids@.to_set(),
    {
        let mut fresh = PausedRuns::new();
        fresh.extend(workflow_ids);
        proof {
            assert(fresh@ =~= workflow_ids@.to_set());
        }
        *self = fresh;
    }
}

/// The name of a status.
pub open spec fn status_text(status: WorkflowStatus) -> Seq<char> {
    match status {
        WorkflowStatus::Running => "Running"@,
        WorkflowStatus::Completed => "Completed"@,
        WorkflowStatus::Failed => "Failed"@,
        WorkflowStatus::Cancelled => "Cancelled"@,
        WorkflowStatus::TimedOut => "TimedOut"@,
        WorkflowStatus::ContinuedAsNew => "ContinuedAsNew"@,
        WorkflowStatus::Paused => "Paused"@,
    }
}

/// The name of a status.
pub fn status_name(status: WorkflowStatus) -> (name: &'static str)
    ensures
        name@ == status_text(status),
{
    match status {
        WorkflowStatus::Running => "Running",
        WorkflowStatus::Completed => "Completed",
        WorkflowStatus::Failed => "Failed",
        WorkflowStatus::Cancelled => "Cancelled",
        WorkflowStatus::TimedOut => "TimedOut",
        WorkflowStatus::ContinuedAsNew => "ContinuedAsNew",
        WorkflowStatus::Paused => "Paused",
    }
}

/// Why a run that is not running cannot be paused.
pub open spec fn not_pausable_text(id: WorkflowId, run: RunId, status: WorkflowStatus) -> Seq<char> {
    run_subject(id, run) + " is "@ + status_text(status)
        + ", not Running; only a Running run can be paused"@
}

/// Why a run that is not paused cannot be resumed.
pub open spec fn not_resumable_text(id: WorkflowId, run: RunId, status: WorkflowStatus) -> Seq<
    char,
> {
    run_subject(id, run) + " is "@ + status_text(status)
        + ", not Paused; only a Paused run can be resumed"@
}

/// Decides, under the run's recorder lock, whether a pause may still be recorded.
///
/// # Errors
///
/// [`EngineError::InvalidState`], naming the actual status, unless the run is running.
pub fn check_running(history: &[Event], id: &WorkflowId, run: &RunId) -> (result: Result<
    (),
    EngineError,
>)
    ensures
        ({
            let status = status_of(segment_of(history@, *run));
            match result {
                Ok(()) => status == WorkflowStatus::Running,
                Err(error) => status != WorkflowStatus::Running && is_invalid_state(
                    error,
                    not_pausable_text(*id, *run, status),
                ),
            }
        }),
{
    let status = status_from_events(run_segment(history, run));
    if status != WorkflowStatus::Running {
        return Err(
            EngineError::InvalidState {
                reason: concat4(
                    run_subject_text(id, run).as_str(),
                    " is ",
                    status_name(status),
                    ", not Running; only a Running run can be paused",
                ),
            },
        );
    }
    Ok(())
}

/// Decides, under the run's recorder lock, whether a resume may still be recorded.
///
/// # Errors
///
/// [`EngineError::InvalidState`], naming the actual status, unless the run is paused.
pub fn check_paused(history: &[Event], id: &WorkflowId, run: &RunId) -> (result: Result<
    (),
    EngineError,
>)
    ensures
        ({
            let status = status_of(segment_of(history@, *run));
            match result {
                Ok(()) => status == WorkflowStatus::Paused,
                Err(error) => status != WorkflowStatus::Paused && is_invalid_state(
                    error,
                    not_resumable_text(*id, *run, status),
                ),
            }
        }),
{
    let status = status_from_events(run_segment(history, run));
    if status != WorkflowStatus::Paused {
        return Err(
            EngineError::InvalidState {
                reason: concat4(
                    run_subject_text(id, run).as_str(),
                    " is ",
                    status_name(status),
                    ", not Paused; only a Paused run can be resumed",
                ),
            },
        );
    }
    Ok(())
}

/// Decides a pause: against history first, so that a rejection names the run's true
/// state, and then against the registry, because a running run is resident.
///
/// # Errors
///
/// [`EngineError::WorkflowNotFound`] when the run has no history or no handle, and
/// [`EngineError::InvalidState`], naming the actual status, when it is not `Running`.
pub fn pause(
    history: &[Event],
    handle: Option<&WorkflowHandle>,
    id: &WorkflowId,
    run: &RunId,
) -> (result: Result<WorkflowHandle, EngineError>)
    ensures
        ({
            let segment = segment_of(history@, *run);
            let status = status_of(segment);
            if segment.len() == 0 {
                result matches Err(error) && is_run_not_found(error, *id, *run)
            } else if status != WorkflowStatus::Running {
                result matches Err(error) && is_invalid_state(
                    error,
                    not_pausable_text(*id, *run, status),
                )
            } else if handle is None {
                result matches Err(error) && is_run_not_found(error, *id, *run)
            } else {
                result matches Ok(paused) && paused == *handle->Some_0
            }
        }),
{
    if run_segment(history, run).len() == 0 {
        return Err(workflow_not_found(id, run));
    }
    match check_running(history, id, run) {
        Ok(()) => {},
        Err(error) => {
            return Err(error);
        },
    }
    match handle {
        Some(handle) => Ok(handle.clone()),
        None => Err(workflow_not_found(id, run)),
    }
}

/// How a paused run is resumed.
#[derive(Debug, PartialEq, Eq)]
pub enum ResumeDecision {
    /// Its process is alive: the resume is recorded through its own recorder.
    Resident(WorkflowHandle),
    /// It lost its process while paused: it is respawned, and its timers come back.
    Respawn {
        /// Timers that come back.
        rearm: Vec<RearmTimer>,
    },
}

/// Decides a resume.
///
/// # Errors
///
/// [`EngineError::WorkflowNotFound`] when the run has no history, and
/// [`EngineError::InvalidState`], naming the actual status, when it is not `Paused`.
pub fn resume(
    history: &[Event],
    handle: Option<&WorkflowHandle>,
    id: &WorkflowId,
    run: &RunId,
) -> (result: Result<ResumeDecision, EngineError>)
    ensures
        ({
            let segment = segment_of(history@, *run);
            let status = status_of(segment);
            if segment.len() == 0 {
                result matches Err(error) && is_run_not_found(error, *id, *run)
            } else if status != WorkflowStatus::Paused {
                result matches Err(error) && is_invalid_state(
                    error,
                    not_resumable_text(*id, *run, status),
                )
            } else {
                match handle {
                    Some(handle) => result matches Ok(ResumeDecision::Resident(resumed)) && resumed
                        == *handle,
                    None => result matches Ok(ResumeDecision::Respawn { rearm }) && rearm_views(
                        rearm@,
                    ) == rearm_plan(segment),
                }
            }
        }),
{
    let segment = run_segment(history, run);
    if segment.len() == 0 {
        return Err(workflow_not_found(id, run));
    }
    match check_paused(history, id, run) {
        Ok(()) => {},
        Err(error) => {
            return Err(error);
        },
    }
    match handle {
        Some(handle) => Ok(ResumeDecision::Resident(handle.clone())),
        None => Ok(ResumeDecision::Respawn { rearm: rearmable_timers(segment) }),
    }
}

/// The step of a pause, or of the resume of a resident run, to perform next.
#[derive(Debug, PartialEq, Eq)]
pub enum HoldPhase {
    /// Take the run's recorder and check its status again.
    Recheck,
    /// Record the event under the recorder lock.
    Record,
    /// Place or release the dispatch hold.
    SetHold,
    /// The pause or resume is made.
    Made,
    /// The pause or resume was refused or failed.
    Failed(EngineError),
}

impl HoldPhase {
    /// The phase after a step: the hold follows the record, never the other way round.
    pub open spec fn after(self, reply: Result<(), EngineError>) -> HoldPhase {
        match (self, reply) {
            (HoldPhase::Recheck, Ok(_)) => HoldPhase::Record,
            (HoldPhase::Record, Ok(_)) => HoldPhase::SetHold,
            (HoldPhase::SetHold, _) => HoldPhase::Made,
            (HoldPhase::Recheck, Err(error)) | (HoldPhase::Record, Err(error)) => {
                HoldPhase::Failed(error)
            },
            (phase, _) => phase,
        }
    }

    /// Takes in what came of a step.
    pub fn advance(self, reply: Result<(), EngineError>) -> (phase: Self)
        ensures
            phase == self.after(reply),
    {
        match (self, reply) {
            (HoldPhase::Recheck, Ok(())) => HoldPhase::Record,
            (HoldPhase::Record, Ok(())) => HoldPhase::SetHold,
            (HoldPhase::SetHold, _) => HoldPhase::Made,
            (HoldPhase::Recheck, Err(error)) => HoldPhase::Failed(error),
            (HoldPhase::Record, Err(error)) => HoldPhase::Failed(error),
            (phase, _) => phase,
        }
    }
}

/// The event is the most recent one that bears on the hold.
proof fn lemma_hold(events: Seq<Event>, event: Event)
    requires
        event is WorkflowPaused || event is WorkflowResumed,
    ensures
        on_hold(events.push(event)) == (event is WorkflowPaused),
{
    let bears = |event: Event|
        opens_lease(event) || event is WorkflowPaused || event is WorkflowResumed;
    let longer = events.push(event);
    assert(longer[events.len() as int] == event);
    lemma_last_where_is(longer, bears, events.len() as int);
}

/// Recording a pause holds a running run, and recording a resume sets a paused one
/// running again; neither undoes a terminal.
pub proof fn pausing_and_resuming_move_the_status(events: Seq<Event>, event: Event)
    requires
        event is WorkflowPaused || event is WorkflowResumed,
    ensures
        status_of(events.push(event)) == if ended(status_of(events)) {
            status_of(events)
        } else if event is WorkflowPaused {
            WorkflowStatus::Paused
        } else {
            WorkflowStatus::Running
        },
{
    lemma_hold(events, event);
    other_events_keep_the_terminal(events, event);
    status_is_terminal_exactly_when_the_lease_ended(events);
}

} // verus!
