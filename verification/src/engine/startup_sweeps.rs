//! Crash-window repair sweeps run by startup recovery: recorded-but-never-spawned
//! children, continue-as-new successors whose start was lost between the terminal record
//! and the successor's `WorkflowStarted`, and deadlines left uncancelled behind a
//! terminal.

use vstd::prelude::*;
use vstd::string::*;

use crate::clock::{after_span, Timestamp, TimeSpan, LATEST_SECOND, NANOS_PER_SECOND};
use crate::content_hash::{hash_text, ContentHash};
use crate::error::{
    is_load_error, is_runtime_error, load_error, DurabilityError, EngineError, StoreError,
};
use crate::event::{Event, PackageVersion, Payload, TerminalOutcome};
use crate::history::{
    begins, continues, first_where, head_of, history_head, last_where, latest_run, lease_terminal,
    lemma_first_where_is, lemma_last_where, lemma_last_where_is, lemma_latest_segment,
    opening_a_lease_supersedes_the_terminal, run_outcome, run_segment, segment_of,
    successor_started, successor_started_in,
};
use crate::ids::{deadline_key, deadline_run, deadline_run_id, uuid_text, RunId, TimerId, WorkflowId};
use crate::lifecycle::completion::{terminal_outcome_from_history, PlannedStart};
use crate::lifecycle::start::StartWorkflowOptions;
use crate::loader::{malformed_version_text, parse_package_version};
use crate::registry::RunKey;
use crate::text::{concat3, concat5};
use crate::time::{
    deadline_outstanding, ends_timer, lemma_timer_live_step, outstanding_deadline_timer,
};

verus! {

/// Whether a deadline sweep runs at cold boot or at live shard adoption.
#[derive(Clone, Copy, Debug, PartialEq, Eq, Structural)]
pub enum SweepScope {
    /// Cold boot before repopulation: no candidate may have a live handle.
    ColdBoot,
    /// Live adoption before the acquired shards' workflows are repopulated: an
    /// already-owned resident workflow legitimately has a live handle and is out of
    /// scope.
    Adoption,
}

/// A child as its parent recorded it.
#[derive(Debug, PartialEq, Eq)]
pub struct RecordedChild {
    /// The child.
    pub child_workflow_id: WorkflowId,
    /// Its workflow type.
    pub workflow_type: String,
    /// Its input.
    pub input: Payload,
    /// Version of the package that it is pinned to.
    pub package_version: PackageVersion,
}

/// The event tells the parent how the child ended: it completed, failed or was cancelled.
pub open spec fn reports_end_of(event: Event, child: WorkflowId) -> bool {
    match event {
        Event::ChildWorkflowCompleted { child_workflow_id, .. } => child_workflow_id == child,
        Event::ChildWorkflowFailed { child_workflow_id, .. } => child_workflow_id == child,
        Event::ChildWorkflowCancelled { child_workflow_id, .. } => child_workflow_id == child,
        _ => false,
    }
}

/// Some event tells the parent how the child ended.
pub open spec fn end_reported(segment: Seq<Event>, child: WorkflowId) -> bool {
    exists|i: int| 0 <= i < segment.len() && reports_end_of(#[trigger] segment[i], child)
}

/// The children that some events of a segment record and whose end the segment does not
/// report, in the order in which they were recorded.
pub open spec fn open_children(events: Seq<Event>, segment: Seq<Event>) -> Seq<RecordedChild>
    decreases events.len(),
{
    if events.len() == 0 {
        Seq::empty()
    } else {
        let before = open_children(events.drop_last(), segment);
        match events.last() {
            Event::ChildWorkflowStarted {
                child_workflow_id,
                workflow_type,
                input,
                package_version,
                ..
            } => if end_reported(segment, child_workflow_id) {
                before
            } else {
                before.push(
                    RecordedChild { child_workflow_id, workflow_type, input, package_version },
                )
            },
            _ => before,
        }
    }
}

/// Whether a segment reports the end of a child.
fn has_parent_side_terminal(segment: &[Event], child: &WorkflowId) -> (reported: bool)
    ensures
        reported == end_reported(segment@, *child),
{
    let mut i: usize = 0;
    while i < segment.len()
        invariant
            0 <= i <= segment@.len(),
            forall|j: int| 0 <= j < i ==> !reports_end_of(#[trigger] segment@[j], *child),
        decreases segment.len() - i,
    {
        let reports = match &segment[i] {
            Event::ChildWorkflowCompleted { child_workflow_id, .. } => *child_workflow_id == *child,
            Event::ChildWorkflowFailed { child_workflow_id, .. } => *child_workflow_id == *child,
            Event::ChildWorkflowCancelled { child_workflow_id, .. } => *child_workflow_id == *child,
            _ => false,
        };
        if reports {
            assert(reports_end_of(segment@[i as int], *child));
            return true;
        }
        i = i + 1;
    }
    false
}

/// The children that a parent's run recorded and whose end it has not been told.
pub fn recorded_children(parent_history: &[Event], parent_run_id: &RunId) -> (children: Vec<
    RecordedChild,
>)
    ensures
        children@ == open_children(
            segment_of(parent_history@, *parent_run_id),
            segment_of(parent_history@, *parent_run_id),
        ),
{
    let segment = run_segment(parent_history, parent_run_id);
    let mut children: Vec<RecordedChild> = Vec::new();
    let mut i: usize = 0;
    proof {
        assert(segment@.take(0) =~= Seq::empty());
    }
    while i < segment.len()
        invariant
            0 <= i <= segment@.len(),
            children@ == open_children(segment@.take(i as int), segment@),
        decreases segment.len() - i,
    {
        proof {
            assert(segment@.take(i + 1).drop_last() =~= segment@.take(i as int));
            assert(segment@.take(i + 1).last() == segment@[i as int]);
        }
        match &segment[i] {
            Event::ChildWorkflowStarted {
                child_workflow_id,
                workflow_type,
                input,
                package_version,
                ..
            } => {
                if !has_parent_side_terminal(segment, child_workflow_id) {
                    children.push(
                        RecordedChild {
                            child_workflow_id: *child_workflow_id,
                            workflow_type: workflow_type.clone(),
                            input: input.clone(),
                            package_version: package_version.clone(),
                        },
                    );
                }
            },
            _ => {},
        }
        i = i + 1;
    }
    proof {
        assert(segment@.take(i as int) =~= segment@);
    }
    children
}

/// A start brings up a recorded child: under the recorded identity, type and input, and
/// on exactly the recorded version.
pub open spec fn starts_child(start: PlannedStart, child: RecordedChild) -> bool {
    &&& start.workflow_type == child.workflow_type
    &&& start.input == child.input
    &&& start.options.workflow_id == Some(child.child_workflow_id)
    &&& start.options.routing_key is None
    &&& start.options.parent_run_id is None
    &&& start.options.loaded_version matches Some(version)
    &&& hash_text(version) == child.package_version.text@
    &&& start.options.search_attributes@.len() == 0
    &&& start.options.namespace is None
}

/// The recorded version of a child can be read.
pub open spec fn version_readable(child: RecordedChild) -> bool {
    exists|hash: ContentHash| child.package_version.text@ == #[trigger] hash_text(hash)
}

/// What starts a recorded child that was never spawned. A child with a history exists:
/// its own recovery owns it.
///
/// # Errors
///
/// [`EngineError::Load`] when the recorded version is not a canonical content hash.
pub fn child_start(child: &RecordedChild, child_history: &[Event]) -> (result: Result<
    Option<PlannedStart>,
    EngineError,
>)
    ensures
        if child_history@.len() > 0 {
            result matches Ok(None)
        } else if version_readable(*child) {
            result matches Ok(Some(start)) && starts_child(start, *child)
        } else {
            result matches Err(error) && is_load_error(
                error,
                malformed_version_text(child.workflow_type@, child.package_version.text@),
            )
        },
{
    if child_history.len() > 0 {
        return Ok(None);
    }
    match parse_package_version(child.workflow_type.as_str(), &child.package_version) {
        Ok(version) => {
            assert(version_readable(*child));
            Ok(
                Some(
                    PlannedStart {
                        workflow_type: child.workflow_type.clone(),
                        input: child.input.clone(),
                        options: StartWorkflowOptions {
                            workflow_id: Some(child.child_workflow_id),
                            routing_key: None,
                            parent_run_id: None,
                            loaded_version: Some(version),
                            search_attributes: Vec::new(),
                            namespace: None,
                        },
                    },
                ),
            )
        },
        Err(error) => Err(error),
    }
}

/// What came of a step of a sweep over starts.
#[derive(Debug, PartialEq, Eq)]
pub enum SweepReply {
    /// The history was read.
    History(Vec<Event>),
    /// The start was performed.
    Started,
    /// The step failed.
    Failed(EngineError),
}

/// The step of a child sweep to perform next, or how it ended.
#[derive(Debug, PartialEq, Eq)]
pub enum ChildSweepPhase {
    /// Read the child's history.
    Read,
    /// Start the child.
    Start(PlannedStart),
    /// Every recorded child has been seen.
    Swept,
    /// The sweep failed.
    Failed(EngineError),
}

/// A sweep over the recorded children of a recovered parent.
#[derive(Debug, PartialEq, Eq)]
pub struct ChildSweep {
    /// The children whose end the parent has not been told.
    pub children: Vec<RecordedChild>,
    /// The child that is looked at.
    pub next: usize,
    /// The step to perform next, or how the sweep ended.
    pub phase: ChildSweepPhase,
}

impl ChildSweep {
    /// A child is looked at as long as the sweep goes on.
    pub open spec fn fits(self) -> bool {
        self.phase is Read || self.phase is Start ==> self.next < self.children@.len()
    }

    /// The sweep goes on to the next child.
    pub open spec fn moves_on(self, after: ChildSweep) -> bool {
        &&& after.children == self.children
        &&& after.next == self.next + 1
        &&& after.phase == if self.next + 1 < self.children@.len() {
            ChildSweepPhase::Read
        } else {
            ChildSweepPhase::Swept
        }
    }

    /// What a step leads to.
    pub open spec fn goes_to(self, reply: SweepReply, after: ChildSweep) -> bool {
        let child = self.children@[self.next as int];
        match (self.phase, reply) {
            (ChildSweepPhase::Read, SweepReply::History(history)) => if history@.len() > 0 {
                self.moves_on(after)
            } else {
                &&& after.children == self.children
                &&& after.next == self.next
                &&& if version_readable(child) {
                    after.phase matches ChildSweepPhase::Start(start) && starts_child(start, child)
                } else {
                    after.phase matches ChildSweepPhase::Failed(error) && is_load_error(
                        error,
                        malformed_version_text(child.workflow_type@, child.package_version.text@),
                    )
                }
            },
            (ChildSweepPhase::Start(_), SweepReply::Started) => self.moves_on(after),
            (ChildSweepPhase::Read, SweepReply::Failed(error))
            | (ChildSweepPhase::Start(_), SweepReply::Failed(error)) => {
                &&& after.children == self.children
                &&& after.next == self.next
                &&& after.phase == ChildSweepPhase::Failed(error)
            },
            _ => after == self,
        }
    }

    /// Begins to start every recorded-but-never-spawned child of a recovered parent.
    pub fn sweep_recorded_children(parent_history: &[Event], parent_run_id: &RunId) -> (sweep: Self)
        ensures
            sweep.children@ == open_children(
                segment_of(parent_history@, *parent_run_id),
                segment_of(parent_history@, *parent_run_id),
            ),
            sweep.next == 0,
            sweep.phase == if sweep.children@.len() > 0 {
                ChildSweepPhase::Read
            } else {
                ChildSweepPhase::Swept
            },
            sweep.fits(),
    {
        let children = recorded_children(parent_history, parent_run_id);
        let phase = if children.len() > 0 {
            ChildSweepPhase::Read
        } else {
            ChildSweepPhase::Swept
        };
        ChildSweep { children, next: 0, phase }
    }

    /// Goes on to the next child.
    fn move_on(children: Vec<RecordedChild>, next: usize) -> (sweep: Self)
        requires
            next < children@.len(),
        ensures
            sweep.children == children,
            sweep.next == next + 1,
            sweep.phase == if next + 1 < children@.len() {
                ChildSweepPhase::Read
            } else {
                ChildSweepPhase::Swept
            },
    {
        let count: usize = children.len();
        let phase = if next + 1 < count {
            ChildSweepPhase::Read
        } else {
            ChildSweepPhase::Swept
        };
        ChildSweep { children, next: next + 1, phase }
    }

    /// Takes in what came of a step.
    pub fn advance(self, reply: SweepReply) -> (after: Self)
        requires
            self.fits(),
        ensures
            self.goes_to(reply, after),
            after.fits(),
    {
        let ChildSweep { children, next, phase } = self;
        match (phase, reply) {
            (ChildSweepPhase::Read, SweepReply::History(history)) => {
                match child_start(&children[next], history.as_slice()) {
                    Ok(None) => Self::move_on(children, next),
                    Ok(Some(start)) => ChildSweep {
                        children,
                        next,
                        phase: ChildSweepPhase::Start(start),
                    },
                    Err(error) => ChildSweep {
                        children,
                        next,
                        phase: ChildSweepPhase::Failed(error),
                    },
                }
            },
            (ChildSweepPhase::Start(_), SweepReply::Started) => Self::move_on(children, next),
            (ChildSweepPhase::Read, SweepReply::Failed(error)) => ChildSweep {
                children,
                next,
                phase: ChildSweepPhase::Failed(error),
            },
            (ChildSweepPhase::Start(_), SweepReply::Failed(error)) => ChildSweep {
                children,
                next,
                phase: ChildSweepPhase::Failed(error),
            },
            (phase, _) => ChildSweep { children, next, phase },
        }
    }
}

/// A course of a child sweep: each follows from the one before it by a reply.
pub open spec fn child_sweep_course(sweeps: Seq<ChildSweep>, replies: Seq<SweepReply>) -> bool {
    &&& sweeps.len() == replies.len() + 1
    &&& sweeps[0].next == 0
    &&& sweeps[0].fits()
    &&& sweeps[0].phase is Read || (sweeps[0].phase is Swept && sweeps[0].children@.len() == 0)
    &&& forall|i: int|
        0 <= i < replies.len() ==> sweeps[i].goes_to(#[trigger] replies[i], sweeps[i + 1])
}

/// Before some point of a course, a child was found to exist or was started.
pub open spec fn child_brought_up(
    sweeps: Seq<ChildSweep>,
    replies: Seq<SweepReply>,
    child: int,
    point: int,
) -> bool {
    exists|k: int|
        0 <= k < point && (#[trigger] sweeps[k]).next == child && match (
            sweeps[k].phase,
            replies[k],
        ) {
            (ChildSweepPhase::Read, SweepReply::History(history)) => history@.len() > 0,
            (ChildSweepPhase::Start(start), SweepReply::Started) => starts_child(
                start,
                sweeps[0].children@[child],
            ),
            _ => false,
        }
}

/// What a child sweep has behind it at some point.
proof fn lemma_children_brought_up(
    sweeps: Seq<ChildSweep>,
    replies: Seq<SweepReply>,
    point: int,
)
    requires
        child_sweep_course(sweeps, replies),
        0 <= point < sweeps.len(),
    ensures
        sweeps[point].children == sweeps[0].children,
        sweeps[point].phase is Swept ==> sweeps[point].next == sweeps[0].children@.len(),
        sweeps[point].phase is Read || sweeps[point].phase is Start ==> sweeps[point].next
            < sweeps[0].children@.len(),
        sweeps[point].phase matches ChildSweepPhase::Start(start) ==> starts_child(
            start,
            sweeps[0].children@[sweeps[point].next as int],
        ),
        forall|child: int|
            0 <= child < sweeps[point].next ==> #[trigger] child_brought_up(
                sweeps,
                replies,
                child,
                point,
            ),
    decreases point,
{
    if point > 0 {
        lemma_children_brought_up(sweeps, replies, point - 1);
        let prior = sweeps[point - 1];
        let last = sweeps[point];
        assert(prior.goes_to(replies[point - 1], last));
        assert forall|child: int| 0 <= child < last.next implies #[trigger] child_brought_up(
            sweeps,
            replies,
            child,
            point,
        ) by {
            if child < prior.next {
                assert(child_brought_up(sweeps, replies, child, point - 1));
                let k = choose|k: int|
                    0 <= k < point - 1 && (#[trigger] sweeps[k]).next == child && match (
                        sweeps[k].phase,
                        replies[k],
                    ) {
                        (ChildSweepPhase::Read, SweepReply::History(history)) => history@.len() > 0,
                        (ChildSweepPhase::Start(start), SweepReply::Started) => starts_child(
                            start,
                            sweeps[0].children@[child],
                        ),
                        _ => false,
                    };
                assert(sweeps[k].next == child);
            } else {
                assert(sweeps[point - 1].next == child);
            }
        }
    }
}

/// A sweep that ends well leaves no recorded child behind: each one whose end the parent
/// has not been told was found to have a history, or was started as it was recorded.
pub proof fn a_swept_parent_has_every_child_brought_up(
    sweeps: Seq<ChildSweep>,
    replies: Seq<SweepReply>,
)
    requires
        child_sweep_course(sweeps, replies),
        sweeps.last().phase is Swept,
    ensures
        forall|child: int|
            0 <= child < sweeps[0].children@.len() ==> #[trigger] child_brought_up(
                sweeps,
                replies,
                child,
                replies.len() as int,
            ),
{
    lemma_children_brought_up(sweeps, replies, replies.len() as int);
}

/// The most recent rotation of a history, if it has one.
pub open spec fn last_rotation(history: Seq<Event>) -> Option<Event> {
    let mark = last_where(history, |event: Event| event is WorkflowContinuedAsNew);
    if mark >= 0 {
        Some(history[mark])
    } else {
        None
    }
}

/// The workflow type that a run started with.
pub open spec fn type_of_run(history: Seq<Event>, run: RunId) -> Option<String> {
    let start = first_where(history, |event: Event| begins(event, run));
    if start < history.len() {
        Some(history[start]->WorkflowStarted_workflow_type)
    } else {
        None
    }
}

/// Why a run without a start has no successor.
pub open spec fn no_continued_start_text(id: WorkflowId, run: RunId) -> Seq<char> {
    "workflow `"@ + uuid_text(id.value) + "` continued from run `"@ + uuid_text(run.value)
        + "` but that run has no WorkflowStarted event in durable history"@
}

/// Workflow type of the run that recorded the continue-as-new terminal.
///
/// # Errors
///
/// [`EngineError::Load`] when the history does not show that run's start.
pub fn continued_run_workflow_type(
    workflow_id: &WorkflowId,
    history: &[Event],
    continued_run_id: &RunId,
) -> (result: Result<String, EngineError>)
    ensures
        match result {
            Ok(workflow_type) => type_of_run(history@, *continued_run_id) == Some(workflow_type),
            Err(error) => type_of_run(history@, *continued_run_id) is None && is_load_error(
                error,
                no_continued_start_text(*workflow_id, *continued_run_id),
            ),
        },
{
    let ghost begins_it = |event: Event| begins(event, *continued_run_id);
    let mut i: usize = 0;
    while i < history.len()
        invariant
            0 <= i <= history@.len(),
            begins_it == (|event: Event| begins(event, *continued_run_id)),
            forall|j: int| 0 <= j < i ==> !begins(#[trigger] history@[j], *continued_run_id),
        decreases history.len() - i,
    {
        match &history[i] {
            Event::WorkflowStarted { run_id, workflow_type, .. } => {
                if *run_id == *continued_run_id {
                    proof {
                        lemma_first_where_is(history@, begins_it, i as int);
                    }
                    return Ok(workflow_type.clone());
                }
            },
            _ => {},
        }
        i = i + 1;
    }
    proof {
        lemma_first_where_is(history@, begins_it, history@.len() as int);
    }
    Err(
        load_error(
            concat5(
                "workflow `",
                workflow_id.text().as_str(),
                "` continued from run `",
                continued_run_id.text().as_str(),
                "` but that run has no WorkflowStarted event in durable history",
            ),
        ),
    )
}

/// The workflow type of a successor: the given one, or that of the continued run.
pub open spec fn successor_type(history: Seq<Event>, rotation: Event) -> Option<Seq<char>> {
    match rotation->WorkflowContinuedAsNew_workflow_type {
        Some(workflow_type) => Some(workflow_type@),
        None => match type_of_run(history, rotation->WorkflowContinuedAsNew_parent_run_id) {
            Some(workflow_type) => Some(workflow_type@),
            None => None,
        },
    }
}

/// A successor of the most recent rotation is missing.
pub open spec fn successor_missing(history: Seq<Event>) -> bool {
    match last_rotation(history) {
        Some(rotation) => !successor_started_in(
            history,
            rotation->WorkflowContinuedAsNew_parent_run_id,
        ),
        None => false,
    }
}

/// A start brings up the successor of a rotation: under the recorded identity, input and
/// run chain.
pub open spec fn starts_successor(
    start: PlannedStart,
    id: WorkflowId,
    history: Seq<Event>,
) -> bool {
    &&& last_rotation(history) matches Some(rotation)
    &&& successor_type(history, rotation) == Some(start.workflow_type@)
    &&& start.input == rotation->WorkflowContinuedAsNew_input
    &&& start.options.workflow_id == Some(id)
    &&& start.options.routing_key is None
    &&& start.options.parent_run_id == Some(rotation->WorkflowContinuedAsNew_parent_run_id)
    &&& start.options.loaded_version is None
    &&& start.options.search_attributes@.len() == 0
    &&& start.options.namespace is None
}

/// The most recent rotation of a history.
fn find_last_rotation(history: &[Event]) -> (rotation: Option<usize>)
    ensures
        match rotation {
            Some(i) => i < history@.len() && last_rotation(history@) == Some(history@[i as int])
                && history@[i as int] is WorkflowContinuedAsNew,
            None => last_rotation(history@) is None,
        },
{
    let ghost rotates = |event: Event| event is WorkflowContinuedAsNew;
    let mut i: usize = history.len();
    while i > 0 && !matches!(&history[i - 1], Event::WorkflowContinuedAsNew { .. })
        invariant
            0 <= i <= history@.len(),
            forall|j: int|
                i <= j < history@.len() ==> !((#[trigger] history@[j]) is WorkflowContinuedAsNew),
        decreases i,
    {
        i = i - 1;
    }
    proof {
        lemma_last_where_is(history@, rotates, i - 1);
    }
    if i > 0 {
        Some(i - 1)
    } else {
        None
    }
}

/// What starts the recorded-but-never-started successor of a workflow's most recent
/// rotation, where it is missing.
///
/// # Errors
///
/// [`EngineError::Load`] when the rotation names no type and the history does not show
/// the continued run's start.
pub fn successor_start(workflow_id: &WorkflowId, history: &[Event]) -> (result: Result<
    Option<PlannedStart>,
    EngineError,
>)
    ensures
        if !successor_missing(history@) {
            result matches Ok(None)
        } else {
            let rotation = last_rotation(history@)->Some_0;
            if successor_type(history@, rotation) is Some {
                result matches Ok(Some(start)) && starts_successor(start, *workflow_id, history@)
            } else {
                result matches Err(error) && is_load_error(
                    error,
                    no_continued_start_text(
                        *workflow_id,
                        rotation->WorkflowContinuedAsNew_parent_run_id,
                    ),
                )
            }
        },
{
    let at = match find_last_rotation(history) {
        Some(at) => at,
        None => {
            return Ok(None);
        },
    };
    match &history[at] {
        Event::WorkflowContinuedAsNew { input, workflow_type, parent_run_id, .. } => {
            if successor_started(history, parent_run_id) {
                return Ok(None);
            }
            let workflow_type = match workflow_type {
                Some(workflow_type) => workflow_type.clone(),
                None => {
                    match continued_run_workflow_type(workflow_id, history, parent_run_id) {
                        Ok(workflow_type) => workflow_type,
                        Err(error) => {
                            return Err(error);
                        },
                    }
                },
            };
            Ok(
                Some(
                    PlannedStart {
                        workflow_type,
                        input: input.clone(),
                        options: StartWorkflowOptions {
                            workflow_id: Some(*workflow_id),
                            routing_key: None,
                            parent_run_id: Some(*parent_run_id),
                            loaded_version: None,
                            search_attributes: Vec::new(),
                            namespace: None,
                        },
                    },
                ),
            )
        },
        _ => Ok(None),
    }
}

/// Once the successor's start is recorded it is missing no more: a repaired workflow is
/// never repaired again.
pub proof fn a_started_successor_is_missing_no_more(history: Seq<Event>, event: Event)
    requires
        last_rotation(history) is Some,
        continues(event, last_rotation(history)->Some_0->WorkflowContinuedAsNew_parent_run_id),
    ensures
        !successor_missing(history.push(event)),
{
    let rotates = |event: Event| event is WorkflowContinuedAsNew;
    let longer = history.push(event);
    let mark = last_where(history, rotates);
    lemma_last_where(history, rotates);
    assert(longer[history.len() as int] == event);
    assert forall|j: int| mark < j < longer.len() implies !rotates(#[trigger] longer[j]) by {
        if j < history.len() {
            assert(longer[j] == history[j]);
            assert(!rotates(history[j]));
        }
    }
    assert(longer[mark] == history[mark]);
    lemma_last_where_is(longer, rotates, mark);
    assert(continues(
        longer[history.len() as int],
        last_rotation(longer)->Some_0->WorkflowContinuedAsNew_parent_run_id,
    ));
}

/// The step of a successor sweep to perform next, or how it ended.
#[derive(Debug, PartialEq, Eq)]
pub enum SuccessorSweepPhase {
    /// Read the workflow's history.
    Read,
    /// Start the successor.
    Start {
        /// How it is started.
        start: PlannedStart,
        /// The run that it continues.
        continued_run_id: RunId,
    },
    /// The start failed: read the history again, because the exit monitor may have
    /// started the same successor first.
    Reread {
        /// The run that the successor continues.
        continued_run_id: RunId,
        /// How the start failed.
        error: EngineError,
    },
    /// Every stranded workflow has been seen.
    Swept,
    /// The sweep failed.
    Failed(EngineError),
}

/// A sweep over the workflows whose latest run continued as new.
#[derive(Debug, PartialEq, Eq)]
pub struct SuccessorSweep {
    /// The workflows that project as continued.
    pub stranded: Vec<WorkflowId>,
    /// The workflow that is looked at.
    pub next: usize,
    /// The step to perform next, or how the sweep ended.
    pub phase: SuccessorSweepPhase,
}

impl SuccessorSweep {
    /// A workflow is looked at as long as the sweep goes on.
    pub open spec fn fits(self) -> bool {
        self.phase is Read || self.phase is Start || self.phase is Reread ==> self.next
            < self.stranded@.len()
    }

    /// The sweep goes on to the next workflow.
    pub open spec fn moves_on(self, after: SuccessorSweep) -> bool {
        &&& after.stranded == self.stranded
        &&& after.next == self.next + 1
        &&& after.phase == if self.next + 1 < self.stranded@.len() {
            SuccessorSweepPhase::Read
        } else {
            SuccessorSweepPhase::Swept
        }
    }

    /// The sweep fails.
    pub open spec fn fails(self, error: EngineError, after: SuccessorSweep) -> bool {
        &&& after.stranded == self.stranded
        &&& after.next == self.next
        &&& after.phase == SuccessorSweepPhase::Failed(error)
    }

    /// What a step leads to. A failed start is benign exactly when the successor is
    /// durable by then.
    pub open spec fn goes_to(self, reply: SweepReply, after: SuccessorSweep) -> bool {
        let id = self.stranded@[self.next as int];
        match (self.phase, reply) {
            (SuccessorSweepPhase::Read, SweepReply::History(history)) => if !successor_missing(
                history@,
            ) {
                self.moves_on(after)
            } else {
                let rotation = last_rotation(history@)->Some_0;
                let run = rotation->WorkflowContinuedAsNew_parent_run_id;
                &&& after.stranded == self.stranded
                &&& after.next == self.next
                &&& if successor_type(history@, rotation) is Some {
                    &&& after.phase matches SuccessorSweepPhase::Start { start, continued_run_id }
                    &&& continued_run_id == run
                    &&& starts_successor(start, id, history@)
                } else {
                    after.phase matches SuccessorSweepPhase::Failed(error) && is_load_error(
                        error,
                        no_continued_start_text(id, run),
                    )
                }
            },
            (SuccessorSweepPhase::Start { .. }, SweepReply::Started) => self.moves_on(after),
            (
                SuccessorSweepPhase::Start { continued_run_id, .. },
                SweepReply::Failed(error),
            ) => {
                &&& after.stranded == self.stranded
                &&& after.next == self.next
                &&& after.phase == SuccessorSweepPhase::Reread { continued_run_id, error }
            },
            (
                SuccessorSweepPhase::Reread { continued_run_id, error },
                SweepReply::History(history),
            ) => if successor_started_in(history@, continued_run_id) {
                self.moves_on(after)
            } else {
                self.fails(error, after)
            },
            (SuccessorSweepPhase::Read, SweepReply::Failed(error)) => self.fails(error, after),
            (SuccessorSweepPhase::Reread { .. }, SweepReply::Failed(error)) => self.fails(
                error,
                after,
            ),
            _ => after == self,
        }
    }

    /// Begins to start the lost successor of every workflow that projects as continued.
    pub fn sweep_continued_as_new_replacements(stranded: Vec<WorkflowId>) -> (sweep: Self)
        ensures
            sweep.stranded == stranded,
            sweep.next == 0,
            sweep.phase == if stranded@.len() > 0 {
                SuccessorSweepPhase::Read
            } else {
                SuccessorSweepPhase::Swept
            },
            sweep.fits(),
    {
        let phase = if stranded.len() > 0 {
            SuccessorSweepPhase::Read
        } else {
            SuccessorSweepPhase::Swept
        };
        SuccessorSweep { stranded, next: 0, phase }
    }

    /// Goes on to the next workflow.
    fn move_on(stranded: Vec<WorkflowId>, next: usize) -> (sweep: Self)
        requires
            next < stranded@.len(),
        ensures
            sweep.stranded == stranded,
            sweep.next == next + 1,
            sweep.phase == if next + 1 < stranded@.len() {
                SuccessorSweepPhase::Read
            } else {
                SuccessorSweepPhase::Swept
            },
    {
        let count: usize = stranded.len();
        let phase = if next + 1 < count {
            SuccessorSweepPhase::Read
        } else {
            SuccessorSweepPhase::Swept
        };
        SuccessorSweep { stranded, next: next + 1, phase }
    }

    /// Takes in what came of a step.
    pub fn advance(self, reply: SweepReply) -> (after: Self)
        requires
            self.fits(),
        ensures
            self.goes_to(reply, after),
            after.fits(),
    {
        let SuccessorSweep { stranded, next, phase } = self;
        match (phase, reply) {
            (SuccessorSweepPhase::Read, SweepReply::History(history)) => {
                match successor_start(&stranded[next], history.as_slice()) {
                    Ok(None) => Self::move_on(stranded, next),
                    Ok(Some(start)) => {
                        let phase = match start.options.parent_run_id {
                            Some(continued_run_id) => SuccessorSweepPhase::Start {
                                start,
                                continued_run_id,
                            },
                            None => SuccessorSweepPhase::Swept,
                        };
                        SuccessorSweep { stranded, next, phase }
                    },
                    Err(error) => SuccessorSweep {
                        stranded,
                        next,
                        phase: SuccessorSweepPhase::Failed(error),
                    },
                }
            },
            (SuccessorSweepPhase::Start { .. }, SweepReply::Started) => Self::move_on(
                stranded,
                next,
            ),
            (SuccessorSweepPhase::Start { continued_run_id, .. }, SweepReply::Failed(error)) => {
                SuccessorSweep {
                    stranded,
                    next,
                    phase: SuccessorSweepPhase::Reread { continued_run_id, error },
                }
            },
            (
                SuccessorSweepPhase::Reread { continued_run_id, error },
                SweepReply::History(history),
            ) => {
                if successor_started(history.as_slice(), &continued_run_id) {
                    return Self::move_on(stranded, next);
                }
                SuccessorSweep { stranded, next, phase: SuccessorSweepPhase::Failed(error) }
            },
            (SuccessorSweepPhase::Read, SweepReply::Failed(error)) => SuccessorSweep {
                stranded,
                next,
                phase: SuccessorSweepPhase::Failed(error),
            },
            (SuccessorSweepPhase::Reread { .. }, SweepReply::Failed(error)) => SuccessorSweep {
                stranded,
                next,
                phase: SuccessorSweepPhase::Failed(error),
            },
            (phase, _) => SuccessorSweep { stranded, next, phase },
        }
    }
}

/// A course of a successor sweep: each follows from the one before it by a reply.
pub open spec fn successor_sweep_course(
    sweeps: Seq<SuccessorSweep>,
    replies: Seq<SweepReply>,
) -> bool {
    &&& sweeps.len() == replies.len() + 1
    &&& sweeps[0].next == 0
    &&& sweeps[0].fits()
    &&& sweeps[0].phase is Read || (sweeps[0].phase is Swept && sweeps[0].stranded@.len() == 0)
    &&& forall|i: int|
        0 <= i < replies.len() ==> sweeps[i].goes_to(#[trigger] replies[i], sweeps[i + 1])
}

/// A step left a workflow with no successor missing: none was missing, it was started,
/// or another start of it was found durable.
pub open spec fn unstrands(phase: SuccessorSweepPhase, reply: SweepReply) -> bool {
    match (phase, reply) {
        (SuccessorSweepPhase::Read, SweepReply::History(history)) => !successor_missing(history@),
        (SuccessorSweepPhase::Start { .. }, SweepReply::Started) => true,
        (
            SuccessorSweepPhase::Reread { continued_run_id, .. },
            SweepReply::History(history),
        ) => successor_started_in(history@, continued_run_id),
        _ => false,
    }
}

/// Before some point of a course, a workflow was left with no successor missing.
pub open spec fn unstranded(
    sweeps: Seq<SuccessorSweep>,
    replies: Seq<SweepReply>,
    workflow: int,
    point: int,
) -> bool {
    exists|k: int|
        0 <= k < point && (#[trigger] sweeps[k]).next == workflow && unstrands(
            sweeps[k].phase,
            replies[k],
        )
}

/// What a successor sweep has behind it at some point.
proof fn lemma_unstranded(sweeps: Seq<SuccessorSweep>, replies: Seq<SweepReply>, point: int)
    requires
        successor_sweep_course(sweeps, replies),
        0 <= point < sweeps.len(),
    ensures
        sweeps[point].stranded == sweeps[0].stranded,
        sweeps[point].phase is Swept ==> sweeps[point].next == sweeps[0].stranded@.len(),
        forall|workflow: int|
            0 <= workflow < sweeps[point].next ==> #[trigger] unstranded(
                sweeps,
                replies,
                workflow,
                point,
            ),
        sweeps[point].phase is Read || sweeps[point].phase is Start || sweeps[point].phase is Reread
            ==> sweeps[point].next < sweeps[0].stranded@.len(),
    decreases point,
{
    if point > 0 {
        lemma_unstranded(sweeps, replies, point - 1);
        let prior = sweeps[point - 1];
        let last = sweeps[point];
        assert(prior.goes_to(replies[point - 1], last));
        assert forall|workflow: int| 0 <= workflow < last.next implies #[trigger] unstranded(
            sweeps,
            replies,
            workflow,
            point,
        ) by {
            if workflow < prior.next {
                assert(unstranded(sweeps, replies, workflow, point - 1));
                let k = choose|k: int|
                    0 <= k < point - 1 && (#[trigger] sweeps[k]).next == workflow && unstrands(
                        sweeps[k].phase,
                        replies[k],
                    );
                assert(sweeps[k].next == workflow);
            } else {
                assert(sweeps[point - 1].next == workflow);
                assert(unstrands(prior.phase, replies[point - 1]));
            }
        }
    }
}

/// A sweep that ends well leaves no listed workflow without the successor of its latest
/// rotation.
pub proof fn a_successor_sweep_strands_no_workflow(
    sweeps: Seq<SuccessorSweep>,
    replies: Seq<SweepReply>,
)
    requires
        successor_sweep_course(sweeps, replies),
        sweeps.last().phase is Swept,
    ensures
        forall|workflow: int|
            0 <= workflow < sweeps[0].stranded@.len() ==> #[trigger] unstranded(
                sweeps,
                replies,
                workflow,
                replies.len() as int,
            ),
{
    lemma_unstranded(sweeps, replies, replies.len() as int);
}

/// A durable timer row.
#[derive(Debug, PartialEq, Eq)]
pub struct TimerRow {
    /// The workflow.
    pub workflow_id: WorkflowId,
    /// The timer.
    pub timer_id: TimerId,
}

/// Days ahead of now up to which timer rows are candidates of a deadline sweep.
pub const SWEEP_HORIZON_DAYS: u64 = 3_652_500;

/// Up to when timer rows are candidates of a deadline sweep: far ahead of now, or now
/// where that is past the end of the calendar.
pub fn sweep_horizon(now: Timestamp) -> (horizon: Timestamp)
    requires
        now.wf(),
    ensures
        ({
            let ahead = now.nanoseconds() + SWEEP_HORIZON_DAYS * 86_400 * NANOS_PER_SECOND;
            if ahead < (LATEST_SECOND + 1) * NANOS_PER_SECOND {
                horizon.wf() && horizon.nanoseconds() == ahead
            } else {
                horizon == now
            }
        }),
{
    let span = TimeSpan::from_secs(315_576_000_000);
    match after_span(now, span) {
        Ok(horizon) => horizon,
        Err(_) => now,
    }
}

/// The deadlines among timer rows, in their order.
pub open spec fn deadlines_among(rows: Seq<TimerRow>) -> Seq<RunKey>
    decreases rows.len(),
{
    if rows.len() == 0 {
        Seq::empty()
    } else {
        let before = deadlines_among(rows.drop_last());
        match deadline_run(rows.last().timer_id@) {
            Some(run_id) => before.push(RunKey { workflow_id: rows.last().workflow_id, run_id }),
            None => before,
        }
    }
}

/// The deadlines among timer rows.
pub fn deadline_candidates(rows: &Vec<TimerRow>) -> (candidates: Vec<RunKey>)
    ensures
        candidates@ == deadlines_among(rows@),
{
    let mut candidates: Vec<RunKey> = Vec::new();
    let mut i: usize = 0;
    proof {
        assert(rows@.take(0) =~= Seq::empty());
    }
    while i < rows.len()
        invariant
            0 <= i <= rows@.len(),
            candidates@ == deadlines_among(rows@.take(i as int)),
        decreases rows.len() - i,
    {
        proof {
            assert(rows@.take(i + 1).drop_last() =~= rows@.take(i as int));
            assert(rows@.take(i + 1).last() == rows@[i as int]);
        }
        match deadline_run_id(&rows[i].timer_id) {
            Some(run_id) => {
                candidates.push(RunKey { workflow_id: rows[i].workflow_id, run_id });
            },
            None => {},
        }
        i = i + 1;
    }
    proof {
        assert(rows@.take(i as int) =~= rows@);
    }
    candidates
}

/// A run's history shows a terminal other than a timeout with a still-outstanding
/// deadline.
pub open spec fn orphaned(history: Seq<Event>, run: RunId) -> bool {
    &&& deadline_outstanding(history, run)
    &&& run_outcome(history, run) matches Some(outcome)
    &&& !(outcome is TimedOut)
}

/// Whether a run's history shows a terminal other than a timeout with a
/// still-outstanding deadline: the crash window that the sweep repairs.
pub fn is_orphaned_terminal_deadline(history: &[Event], run_id: &RunId) -> (is_orphaned: bool)
    ensures
        is_orphaned == orphaned(history@, *run_id),
{
    if outstanding_deadline_timer(history, run_id).is_none() {
        return false;
    }
    match terminal_outcome_from_history(history, run_id) {
        Some(TerminalOutcome::TimedOut(_)) => false,
        Some(_) => true,
        None => false,
    }
}

/// Retiring the deadline repairs the run: it is an orphan no more, and the repair is not
/// made again.
pub proof fn retiring_the_deadline_repairs_the_run(history: Seq<Event>, event: Event, run: RunId)
    requires
        event is TimerCancelled,
        event->TimerCancelled_timer_id@ == deadline_key(run),
    ensures
        !orphaned(history.push(event), run),
{
    let longer = history.push(event);
    assert(longer.last() == event);
    assert(ends_timer(longer.last(), deadline_key(run)));
    lemma_timer_live_step(longer, deadline_key(run));
}

/// A concurrent reopen of the latest run makes the repair inapplicable: the run is an
/// orphan no more, and its deadline, where it was outstanding, still is.
pub proof fn reopening_makes_the_repair_inapplicable(
    history: Seq<Event>,
    event: Event,
    run: RunId,
)
    requires
        latest_run(history, run),
        event is WorkflowReopened,
    ensures
        !orphaned(history.push(event), run),
        deadline_outstanding(history, run) ==> deadline_outstanding(history.push(event), run),
{
    let longer = history.push(event);
    lemma_latest_segment(history, event, run);
    opening_a_lease_supersedes_the_terminal(segment_of(history, run), event);
    assert(lease_terminal(segment_of(longer, run)) is None);
    assert(longer.last() == event);
    assert(longer.drop_last() =~= history);
    lemma_timer_live_step(longer, deadline_key(run));
}

/// The step of a deadline sweep to perform next, or how it ended.
#[derive(Debug, PartialEq, Eq)]
pub enum DeadlineSweepPhase {
    /// Look the workflow up in the registry.
    CheckLive,
    /// Read the workflow's history.
    Read,
    /// Retire the deadline through a recorder of its own, as an optimistic writer.
    Retire {
        /// Position that the recorder continues from.
        head: u64,
    },
    /// Another writer was first: read the history again.
    Reread(EngineError),
    /// Every candidate has been seen.
    Swept,
    /// The sweep failed.
    Failed(EngineError),
}

/// What came of a step of a deadline sweep.
#[derive(Debug, PartialEq, Eq)]
pub enum DeadlineSweepReply {
    /// Whether the workflow has a live registered handle.
    Live(bool),
    /// The history was read.
    History(Vec<Event>),
    /// The deadline was retired.
    Retired,
    /// The step failed.
    Failed(EngineError),
}

/// A sweep over deadlines left uncancelled behind a terminal.
#[derive(Debug, PartialEq, Eq)]
pub struct DeadlineSweep {
    /// Whether it runs at cold boot or at live shard adoption.
    pub scope: SweepScope,
    /// The runs whose deadlines have a durable row.
    pub candidates: Vec<RunKey>,
    /// The candidate that is looked at.
    pub next: usize,
    /// The step to perform next, or how the sweep ended.
    pub phase: DeadlineSweepPhase,
}

/// Why a live handle stops a sweep at cold boot.
pub open spec fn live_at_boot_text(id: WorkflowId) -> Seq<char> {
    "terminal-deadline sweep found a live registered handle for workflow "@ + uuid_text(id.value)
        + " on cold boot, which must run before repopulation: the sweep ordering invariant is broken"@
}

/// The store refused an append because another writer was first.
pub open spec fn lost_the_head(error: EngineError) -> bool {
    error matches EngineError::Durability(DurabilityError::Store(
        StoreError::SequenceConflict { .. },
    ))
}

impl DeadlineSweep {
    /// A candidate is looked at as long as the sweep goes on.
    pub open spec fn fits(self) -> bool {
        self.phase is Swept || self.phase is Failed || self.next < self.candidates@.len()
    }

    /// The sweep goes on to the next candidate.
    pub open spec fn moves_on(self, after: DeadlineSweep) -> bool {
        &&& after.scope == self.scope
        &&& after.candidates == self.candidates
        &&& after.next == self.next + 1
        &&& after.phase == if self.next + 1 < self.candidates@.len() {
            DeadlineSweepPhase::CheckLive
        } else {
            DeadlineSweepPhase::Swept
        }
    }

    /// The sweep stays with its candidate.
    pub open spec fn stays(self, phase: DeadlineSweepPhase, after: DeadlineSweep) -> bool {
        after == (DeadlineSweep { phase, ..self })
    }

    /// What a step leads to. A lost append is arbitrated by the whole repair predicate:
    /// where the run is an orphan no more, there is nothing to repair.
    pub open spec fn goes_to(self, reply: DeadlineSweepReply, after: DeadlineSweep) -> bool {
        let candidate = self.candidates@[self.next as int];
        match (self.phase, reply) {
            (DeadlineSweepPhase::CheckLive, DeadlineSweepReply::Live(live)) => if !live {
                self.stays(DeadlineSweepPhase::Read, after)
            } else if self.scope == SweepScope::ColdBoot {
                &&& after.scope == self.scope
                &&& after.candidates == self.candidates
                &&& after.next == self.next
                &&& after.phase matches DeadlineSweepPhase::Failed(error)
                &&& is_runtime_error(error, live_at_boot_text(candidate.workflow_id))
            } else {
                self.moves_on(after)
            },
            (DeadlineSweepPhase::Read, DeadlineSweepReply::History(history)) => if orphaned(
                history@,
                candidate.run_id,
            ) {
                &&& after.scope == self.scope
                &&& after.candidates == self.candidates
                &&& after.next == self.next
                &&& after.phase matches DeadlineSweepPhase::Retire { head }
                &&& head == head_of(history@)
            } else {
                self.moves_on(after)
            },
            (DeadlineSweepPhase::Retire { .. }, DeadlineSweepReply::Retired) => self.moves_on(
                after,
            ),
            (DeadlineSweepPhase::Retire { .. }, DeadlineSweepReply::Failed(error)) => self.stays(
                if lost_the_head(error) {
                    DeadlineSweepPhase::Reread(error)
                } else {
                    DeadlineSweepPhase::Failed(error)
                },
                after,
            ),
            (DeadlineSweepPhase::Reread(error), DeadlineSweepReply::History(history)) => {
                if orphaned(history@, candidate.run_id) {
                    self.stays(DeadlineSweepPhase::Failed(error), after)
                } else {
                    self.moves_on(after)
                }
            },
            (DeadlineSweepPhase::CheckLive, DeadlineSweepReply::Failed(error))
            | (DeadlineSweepPhase::Read, DeadlineSweepReply::Failed(error))
            | (DeadlineSweepPhase::Reread(_), DeadlineSweepReply::Failed(error)) => self.stays(
                DeadlineSweepPhase::Failed(error),
                after,
            ),
            _ => after == self,
        }
    }

    /// Begins to retire every declared-timeout deadline left uncancelled behind a
    /// terminal other than a timeout.
    pub fn sweep_uncancelled_terminal_deadlines(rows: &Vec<TimerRow>, scope: SweepScope) -> (sweep:
        Self)
        ensures
            sweep.scope == scope,
            sweep.candidates@ == deadlines_among(rows@),
            sweep.next == 0,
            sweep.phase == if sweep.candidates@.len() > 0 {
                DeadlineSweepPhase::CheckLive
            } else {
                DeadlineSweepPhase::Swept
            },
            sweep.fits(),
    {
        let candidates = deadline_candidates(rows);
        let phase = if candidates.len() > 0 {
            DeadlineSweepPhase::CheckLive
        } else {
            DeadlineSweepPhase::Swept
        };
        DeadlineSweep { scope, candidates, next: 0, phase }
    }

    /// Goes on to the next candidate.
    fn move_on(scope: SweepScope, candidates: Vec<RunKey>, next: usize) -> (sweep: Self)
        requires
            next < candidates@.len(),
        ensures
            sweep.scope == scope,
            sweep.candidates == candidates,
            sweep.next == next + 1,
            sweep.phase == if next + 1 < candidates@.len() {
                DeadlineSweepPhase::CheckLive
            } else {
                DeadlineSweepPhase::Swept
            },
    {
        let count: usize = candidates.len();
        let phase = if next + 1 < count {
            DeadlineSweepPhase::CheckLive
        } else {
            DeadlineSweepPhase::Swept
        };
        DeadlineSweep { scope, candidates, next: next + 1, phase }
    }

    /// Takes in what came of a step.
    pub fn advance(self, reply: DeadlineSweepReply) -> (after: Self)
        requires
            self.fits(),
        ensures
            self.goes_to(reply, after),
            after.fits(),
    {
        let DeadlineSweep { scope, candidates, next, phase } = self;
        let phase = match (phase, reply) {
            (DeadlineSweepPhase::CheckLive, DeadlineSweepReply::Live(live)) => {
                if !live {
                    DeadlineSweepPhase::Read
                } else {
                    match scope {
                        SweepScope::ColdBoot => DeadlineSweepPhase::Failed(
                            EngineError::Runtime {
                                reason: concat3(
                                    "terminal-deadline sweep found a live registered handle for workflow ",
                                    candidates[next].workflow_id.text().as_str(),
                                    " on cold boot, which must run before repopulation: the sweep ordering invariant is broken",
                                ),
                            },
                        ),
                        SweepScope::Adoption => {
                            return Self::move_on(scope, candidates, next);
                        },
                    }
                }
            },
            (DeadlineSweepPhase::Read, DeadlineSweepReply::History(history)) => {
                if !is_orphaned_terminal_deadline(history.as_slice(), &candidates[next].run_id) {
                    return Self::move_on(scope, candidates, next);
                }
                DeadlineSweepPhase::Retire { head: history_head(history.as_slice()) }
            },
            (DeadlineSweepPhase::Retire { .. }, DeadlineSweepReply::Retired) => {
                return Self::move_on(scope, candidates, next);
            },
            (DeadlineSweepPhase::Retire { .. }, DeadlineSweepReply::Failed(error)) => {
                let lost = matches!(
                    &error,
                    EngineError::Durability(DurabilityError::Store(StoreError::SequenceConflict { .. }))
                );
                if lost {
                    DeadlineSweepPhase::Reread(error)
                } else {
                    DeadlineSweepPhase::Failed(error)
                }
            },
            (DeadlineSweepPhase::Reread(error), DeadlineSweepReply::History(history)) => {
                if !is_orphaned_terminal_deadline(history.as_slice(), &candidates[next].run_id) {
                    return Self::move_on(scope, candidates, next);
                }
                DeadlineSweepPhase::Failed(error)
            },
            (DeadlineSweepPhase::CheckLive, DeadlineSweepReply::Failed(error)) => {
                DeadlineSweepPhase::Failed(error)
            },
            (DeadlineSweepPhase::Read, DeadlineSweepReply::Failed(error)) => {
                DeadlineSweepPhase::Failed(error)
            },
            (DeadlineSweepPhase::Reread(_), DeadlineSweepReply::Failed(error)) => {
                DeadlineSweepPhase::Failed(error)
            },
            (phase, _) => phase,
        };
        DeadlineSweep { scope, candidates, next, phase }
    }
}

/// A course of a deadline sweep: each follows from the one before it by a reply.
pub open spec fn deadline_sweep_course(
    sweeps: Seq<DeadlineSweep>,
    replies: Seq<DeadlineSweepReply>,
) -> bool {
    &&& sweeps.len() == replies.len() + 1
    &&& sweeps[0].next == 0
    &&& sweeps[0].fits()
    &&& sweeps[0].phase is CheckLive || (sweeps[0].phase is Swept && sweeps[0].candidates@.len()
        == 0)
    &&& forall|i: int|
        0 <= i < replies.len() ==> sweeps[i].goes_to(#[trigger] replies[i], sweeps[i + 1])
}

/// A step left a candidate repaired: its deadline was retired, it was found not to be an
/// orphan, or a live engine that adopts shards found it in its own hands.
pub open spec fn repairs(sweep: DeadlineSweep, reply: DeadlineSweepReply) -> bool {
    match (sweep.phase, reply) {
        (DeadlineSweepPhase::CheckLive, DeadlineSweepReply::Live(live)) => live && sweep.scope
            == SweepScope::Adoption,
        (DeadlineSweepPhase::Read, DeadlineSweepReply::History(history)) => !orphaned(
            history@,
            sweep.candidates@[sweep.next as int].run_id,
        ),
        (DeadlineSweepPhase::Retire { .. }, DeadlineSweepReply::Retired) => true,
        (DeadlineSweepPhase::Reread(_), DeadlineSweepReply::History(history)) => !orphaned(
            history@,
            sweep.candidates@[sweep.next as int].run_id,
        ),
        _ => false,
    }
}

/// Before some point of a course, a candidate was repaired.
pub open spec fn repaired(
    sweeps: Seq<DeadlineSweep>,
    replies: Seq<DeadlineSweepReply>,
    candidate: int,
    point: int,
) -> bool {
    exists|k: int|
        0 <= k < point && (#[trigger] sweeps[k]).next == candidate && repairs(sweeps[k], replies[k])
}

/// What a deadline sweep has behind it at some point.
proof fn lemma_repaired(
    sweeps: Seq<DeadlineSweep>,
    replies: Seq<DeadlineSweepReply>,
    point: int,
)
    requires
        deadline_sweep_course(sweeps, replies),
        0 <= point < sweeps.len(),
    ensures
        sweeps[point].candidates == sweeps[0].candidates,
        sweeps[point].phase is Swept ==> sweeps[point].next == sweeps[0].candidates@.len(),
        sweeps[point].phase is Swept || sweeps[point].phase is Failed || sweeps[point].next
            < sweeps[0].candidates@.len(),
        forall|candidate: int|
            0 <= candidate < sweeps[point].next ==> #[trigger] repaired(
                sweeps,
                replies,
                candidate,
                point,
            ),
    decreases point,
{
    if point > 0 {
        lemma_repaired(sweeps, replies, point - 1);
        let prior = sweeps[point - 1];
        let last = sweeps[point];
        assert(prior.goes_to(replies[point - 1], last));
        assert forall|candidate: int| 0 <= candidate < last.next implies #[trigger] repaired(
            sweeps,
            replies,
            candidate,
            point,
        ) by {
            if candidate < prior.next {
                assert(repaired(sweeps, replies, candidate, point - 1));
                let k = choose|k: int|
                    0 <= k < point - 1 && (#[trigger] sweeps[k]).next == candidate && repairs(
                        sweeps[k],
                        replies[k],
                    );
                assert(sweeps[k].next == candidate);
            } else {
                assert(sweeps[point - 1].next == candidate);
                assert(repairs(prior, replies[point - 1]));
            }
        }
    }
}

/// A sweep that ends well leaves no candidate with an orphaned deadline, apart from the
/// workflows that a live adopter already owns.
pub proof fn a_deadline_sweep_leaves_no_orphan(
    sweeps: Seq<DeadlineSweep>,
    replies: Seq<DeadlineSweepReply>,
)
    requires
        deadline_sweep_course(sweeps, replies),
        sweeps.last().phase is Swept,
    ensures
        forall|candidate: int|
            0 <= candidate < sweeps[0].candidates@.len() ==> #[trigger] repaired(
                sweeps,
                replies,
                candidate,
                replies.len() as int,
            ),
{
    lemma_repaired(sweeps, replies, replies.len() as int);
}

} // verus!
