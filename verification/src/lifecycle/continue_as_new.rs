//! Continue-as-new lifecycle transition.

use vstd::prelude::*;
use vstd::string::*;

use crate::error::{is_run_not_found, is_runtime_error, workflow_not_found, EngineError};
use crate::event::{clone_optional_text, Event, Payload, TerminalOutcome};
use crate::history::run_outcome;
use crate::ids::{uuid_text, ActivityId, RunId, WorkflowId};
use crate::lifecycle::completion::{
    continuation_type, terminal_outcome_from_history, PlannedStart,
};
use crate::lifecycle::start::StartWorkflowOptions;
use crate::loader::catalog::{CatalogView, WorkflowCatalog};
use crate::registry::WorkflowHandle;
use crate::text::{concat4, concat5, concat9, count_text, decimal, decimal_text, join, joined, texts};

verus! {

/// Request payload carried into the replacement run.
#[derive(Debug, PartialEq, Eq)]
pub struct ContinueAsNewRequest {
    /// Opaque workflow input payload for the replacement run.
    pub input: Payload,
    /// Optional workflow type override for the replacement run.
    pub workflow_type: Option<String>,
}

/// The event opens the activity: it is scheduled or an attempt begins.
pub open spec fn opens_activity(event: Event, id: ActivityId) -> bool {
    match event {
        Event::ActivityScheduled { activity_id, .. } => activity_id == id,
        Event::ActivityStarted { activity_id, .. } => activity_id == id,
        _ => false,
    }
}

/// The event settles the activity.
pub open spec fn settles_activity(event: Event, id: ActivityId) -> bool {
    match event {
        Event::ActivityCompleted { activity_id, .. } => activity_id == id,
        Event::ActivityFailed { activity_id, .. } => activity_id == id,
        Event::ActivityCancelled { activity_id, .. } => activity_id == id,
        _ => false,
    }
}

/// The event opens the child.
pub open spec fn opens_child(event: Event, id: WorkflowId) -> bool {
    event matches Event::ChildWorkflowStarted { child_workflow_id, .. } && child_workflow_id == id
}

/// The event settles the child.
pub open spec fn settles_child(event: Event, id: WorkflowId) -> bool {
    match event {
        Event::ChildWorkflowCompleted { child_workflow_id, .. } => child_workflow_id == id,
        Event::ChildWorkflowFailed { child_workflow_id, .. } => child_workflow_id == id,
        Event::ChildWorkflowCancelled { child_workflow_id, .. } => child_workflow_id == id,
        _ => false,
    }
}

/// An activity is pending: it was opened and has not been settled since.
pub open spec fn activity_pending(events: Seq<Event>, id: ActivityId) -> bool {
    exists|i: int|
        0 <= i < events.len() && opens_activity(#[trigger] events[i], id) && (forall|j: int|
            i < j < events.len() ==> !settles_activity(#[trigger] events[j], id))
}

/// A child is pending: it was opened and has not been settled since.
pub open spec fn child_pending(events: Seq<Event>, id: WorkflowId) -> bool {
    exists|i: int|
        0 <= i < events.len() && opens_child(#[trigger] events[i], id) && (forall|j: int|
            i < j < events.len() ==> !settles_child(#[trigger] events[j], id))
}

/// A list holds exactly the pending activities, each once.
pub open spec fn lists_pending_activities(events: Seq<Event>, ids: Seq<ActivityId>) -> bool {
    &&& ids.no_duplicates()
    &&& forall|id: ActivityId| #[trigger] ids.contains(id) <==> activity_pending(events, id)
}

/// A list holds exactly the pending children, each once.
pub open spec fn lists_pending_children(events: Seq<Event>, ids: Seq<WorkflowId>) -> bool {
    &&& ids.no_duplicates()
    &&& forall|id: WorkflowId| #[trigger] ids.contains(id) <==> child_pending(events, id)
}

/// What one more event does to an activity.
proof fn lemma_activity_step(events: Seq<Event>, id: ActivityId)
    requires
        events.len() > 0,
    ensures
        activity_pending(events, id) == if opens_activity(events.last(), id) {
            true
        } else if settles_activity(events.last(), id) {
            false
        } else {
            activity_pending(events.drop_last(), id)
        },
{
    let before = events.drop_last();
    let last = events.len() - 1;
    if opens_activity(events.last(), id) {
        assert(opens_activity(events[last], id));
    } else if settles_activity(events.last(), id) {
        assert(settles_activity(events[last], id));
    } else {
        if activity_pending(before, id) {
            let i = choose|i: int|
                0 <= i < before.len() && opens_activity(#[trigger] before[i], id) && (forall|j: int|
                    i < j < before.len() ==> !settles_activity(#[trigger] before[j], id));
            assert(events[i] == before[i]);
            assert forall|j: int| i < j < events.len() implies !settles_activity(
                #[trigger] events[j],
                id,
            ) by {
                if j < last {
                    assert(events[j] == before[j]);
                }
            }
        }
        if activity_pending(events, id) {
            let i = choose|i: int|
                0 <= i < events.len() && opens_activity(#[trigger] events[i], id) && (forall|j: int|
                    i < j < events.len() ==> !settles_activity(#[trigger] events[j], id));
            assert(before[i] == events[i]);
            assert forall|j: int| i < j < before.len() implies !settles_activity(
                #[trigger] before[j],
                id,
            ) by {
                assert(events[j] == before[j]);
            }
        }
    }
}

/// What one more event does to a child.
proof fn lemma_child_step(events: Seq<Event>, id: WorkflowId)
    requires
        events.len() > 0,
    ensures
        child_pending(events, id) == if opens_child(events.last(), id) {
            true
        } else if settles_child(events.last(), id) {
            false
        } else {
            child_pending(events.drop_last(), id)
        },
{
    let before = events.drop_last();
    let last = events.len() - 1;
    if opens_child(events.last(), id) {
        assert(opens_child(events[last], id));
    } else if settles_child(events.last(), id) {
        assert(settles_child(events[last], id));
    } else {
        if child_pending(before, id) {
            let i = choose|i: int|
                0 <= i < before.len() && opens_child(#[trigger] before[i], id) && (forall|j: int|
                    i < j < before.len() ==> !settles_child(#[trigger] before[j], id));
            assert(events[i] == before[i]);
            assert forall|j: int| i < j < events.len() implies !settles_child(
                #[trigger] events[j],
                id,
            ) by {
                if j < last {
                    assert(events[j] == before[j]);
                }
            }
        }
        if child_pending(events, id) {
            let i = choose|i: int|
                0 <= i < events.len() && opens_child(#[trigger] events[i], id) && (forall|j: int|
                    i < j < events.len() ==> !settles_child(#[trigger] events[j], id));
            assert(before[i] == events[i]);
            assert forall|j: int| i < j < before.len() implies !settles_child(
                #[trigger] before[j],
                id,
            ) by {
                assert(events[j] == before[j]);
            }
        }
    }
}

/// Where an activity stands in a list.
fn position_of_activity(ids: &Vec<ActivityId>, id: ActivityId) -> (position: Option<usize>)
    ensures
        match position {
            Some(i) => i < ids@.len() && ids@[i as int] == id,
            None => !ids@.contains(id),
        },
{
    let mut i: usize = 0;
    while i < ids.len()
        invariant
            0 <= i <= ids@.len(),
            forall|j: int| 0 <= j < i ==> ids@[j] != id,
        decreases ids.len() - i,
    {
        if ids[i] == id {
            return Some(i);
        }
        i = i + 1;
    }
    None
}

/// Where a workflow stands in a list.
fn position_of_workflow(ids: &Vec<WorkflowId>, id: WorkflowId) -> (position: Option<usize>)
    ensures
        match position {
            Some(i) => i < ids@.len() && ids@[i as int] == id,
            None => !ids@.contains(id),
        },
{
    let mut i: usize = 0;
    while i < ids.len()
        invariant
            0 <= i <= ids@.len(),
            forall|j: int| 0 <= j < i ==> ids@[j] != id,
        decreases ids.len() - i,
    {
        if ids[i] == id {
            return Some(i);
        }
        i = i + 1;
    }
    None
}

/// Membership after one occurrence of a value in a list without repetitions is removed.
proof fn lemma_remove_distinct<T>(ids: Seq<T>, i: int)
    requires
        ids.no_duplicates(),
        0 <= i < ids.len(),
    ensures
        ids.remove(i).no_duplicates(),
        forall|id: T| #[trigger] ids.remove(i).contains(id) <==> (ids.contains(id) && id != ids[i]),
{
    let rest = ids.remove(i);
    assert forall|id: T| #[trigger] rest.contains(id) <==> (ids.contains(id) && id != ids[i]) by {
        if rest.contains(id) {
            let k = choose|k: int| 0 <= k < rest.len() && rest[k] == id;
            assert(ids[if k < i { k } else { k + 1 }] == id);
        }
        if ids.contains(id) && id != ids[i] {
            let k = choose|k: int| 0 <= k < ids.len() && ids[k] == id;
            assert(rest[if k < i { k } else { k - 1 }] == id);
        }
    }
}

/// Membership after a value is appended.
proof fn lemma_push_distinct<T>(ids: Seq<T>, last: T)
    ensures
        ids.no_duplicates() && !ids.contains(last) ==> ids.push(last).no_duplicates(),
        forall|id: T| #[trigger] ids.push(last).contains(id) <==> (ids.contains(id) || id == last),
{
    let longer = ids.push(last);
    assert forall|id: T| #[trigger] longer.contains(id) <==> (ids.contains(id) || id == last) by {
        if ids.contains(id) {
            let k = choose|k: int| 0 <= k < ids.len() && ids[k] == id;
            assert(longer[k] == id);
        }
        if id == last {
            assert(longer[ids.len() as int] == id);
        }
        if longer.contains(id) && id != last {
            let k = choose|k: int| 0 <= k < longer.len() && longer[k] == id;
            assert(ids[k] == id);
        }
    }
}

/// The pending activities of a history.
fn pending_activities(events: &[Event]) -> (ids: Vec<ActivityId>)
    ensures
        lists_pending_activities(events@, ids@),
{
    let mut ids: Vec<ActivityId> = Vec::new();
    let mut i: usize = 0;
    while i < events.len()
        invariant
            0 <= i <= events@.len(),
            lists_pending_activities(events@.take(i as int), ids@),
        decreases events.len() - i,
    {
        let ghost longer = events@.take(i + 1);
        let ghost listed = ids@;
        proof {
            assert(longer.drop_last() =~= events@.take(i as int));
            assert(longer.last() == events@[i as int]);
        }
        match &events[i] {
            Event::ActivityScheduled { activity_id, .. }
            | Event::ActivityStarted { activity_id, .. } => {
                match position_of_activity(&ids, *activity_id) {
                    Some(_) => {},
                    None => {
                        ids.push(*activity_id);
                    },
                }
                proof {
                    lemma_push_distinct(listed, *activity_id);
                    assert forall|id: ActivityId| #[trigger]
                        ids@.contains(id) <==> activity_pending(longer, id) by {
                        lemma_activity_step(longer, id);
                        assert(listed.contains(id) <==> activity_pending(
                            events@.take(i as int),
                            id,
                        ));
                    }
                }
            },
            Event::ActivityCompleted { activity_id, .. }
            | Event::ActivityFailed { activity_id, .. }
            | Event::ActivityCancelled { activity_id, .. } => {
                match position_of_activity(&ids, *activity_id) {
                    Some(p) => {
                        let settled = ids.remove(p);
                        proof {
                            lemma_remove_distinct(listed, p as int);
                        }
                    },
                    None => {},
                }
                proof {
                    assert forall|id: ActivityId| #[trigger]
                        ids@.contains(id) <==> activity_pending(longer, id) by {
                        lemma_activity_step(longer, id);
                        assert(listed.contains(id) <==> activity_pending(
                            events@.take(i as int),
                            id,
                        ));
                    }
                }
            },
            _ => {
                proof {
                    assert forall|id: ActivityId| #[trigger]
                        ids@.contains(id) <==> activity_pending(longer, id) by {
                        lemma_activity_step(longer, id);
                    }
                }
            },
        }
        i = i + 1;
    }
    proof {
        assert(events@.take(i as int) =~= events@);
    }
    ids
}

/// The pending children of a history.
fn pending_children(events: &[Event]) -> (ids: Vec<WorkflowId>)
    ensures
        lists_pending_children(events@, ids@),
{
    let mut ids: Vec<WorkflowId> = Vec::new();
    let mut i: usize = 0;
    while i < events.len()
        invariant
            0 <= i <= events@.len(),
            lists_pending_children(events@.take(i as int), ids@),
        decreases events.len() - i,
    {
        let ghost longer = events@.take(i + 1);
        let ghost listed = ids@;
        proof {
            assert(longer.drop_last() =~= events@.take(i as int));
            assert(longer.last() == events@[i as int]);
        }
        match &events[i] {
            Event::ChildWorkflowStarted { child_workflow_id, .. } => {
                match position_of_workflow(&ids, *child_workflow_id) {
                    Some(_) => {},
                    None => {
                        ids.push(*child_workflow_id);
                    },
                }
                proof {
                    lemma_push_distinct(listed, *child_workflow_id);
                    assert forall|id: WorkflowId| #[trigger]
                        ids@.contains(id) <==> child_pending(longer, id) by {
                        lemma_child_step(longer, id);
                        assert(listed.contains(id) <==> child_pending(
                            events@.take(i as int),
                            id,
                        ));
                    }
                }
            },
            Event::ChildWorkflowCompleted { child_workflow_id, .. }
            | Event::ChildWorkflowFailed { child_workflow_id, .. }
            | Event::ChildWorkflowCancelled { child_workflow_id, .. } => {
                match position_of_workflow(&ids, *child_workflow_id) {
                    Some(p) => {
                        let settled = ids.remove(p);
                        proof {
                            lemma_remove_distinct(listed, p as int);
                        }
                    },
                    None => {},
                }
                proof {
                    assert forall|id: WorkflowId| #[trigger]
                        ids@.contains(id) <==> child_pending(longer, id) by {
                        lemma_child_step(longer, id);
                        assert(listed.contains(id) <==> child_pending(
                            events@.take(i as int),
                            id,
                        ));
                    }
                }
            },
            _ => {
                proof {
                    assert forall|id: WorkflowId| #[trigger]
                        ids@.contains(id) <==> child_pending(longer, id) by {
                        lemma_child_step(longer, id);
                    }
                }
            },
        }
        i = i + 1;
    }
    proof {
        assert(events@.take(i as int) =~= events@);
    }
    ids
}

/// The texts of activities, by their positions in the command sequence.
pub open spec fn activity_texts(ids: Seq<ActivityId>) -> Seq<Seq<char>> {
    ids.map_values(|id: ActivityId| decimal(id.sequence_position as nat))
}

/// The texts of workflows, by their identifiers.
pub open spec fn workflow_texts(ids: Seq<WorkflowId>) -> Seq<Seq<char>> {
    ids.map_values(|id: WorkflowId| uuid_text(id.value))
}

/// Why a run with pending work cannot continue as new.
pub open spec fn pending_work_text(
    activities: Seq<ActivityId>,
    children: Seq<WorkflowId>,
) -> Seq<char> {
    "cannot continue as new while pending work exists: "@ + decimal(activities.len())
        + " activities ({"@ + joined(activity_texts(activities), ", "@) + "}), "@ + decimal(
        children.len(),
    ) + " child workflows ({"@ + joined(workflow_texts(children), ", "@) + "})"@
}

/// Fails while a history holds pending activities or children.
///
/// # Errors
///
/// [`EngineError::Runtime`] counting and naming the pending work.
pub fn guard_no_pending_work(events: &[Event]) -> (result: Result<(), EngineError>)
    ensures
        match result {
            Ok(()) => {
                &&& forall|id: ActivityId| !#[trigger] activity_pending(events@, id)
                &&& forall|id: WorkflowId| !#[trigger] child_pending(events@, id)
            },
            Err(error) => {
                &&& (exists|id: ActivityId| #[trigger] activity_pending(events@, id)) || (exists|
                    id: WorkflowId,
                | #[trigger] child_pending(events@, id))
                &&& exists|activities: Seq<ActivityId>, children: Seq<WorkflowId>| #[trigger]
                    lists_pending_activities(events@, activities)
                        && #[trigger] lists_pending_children(events@, children)
                        && is_runtime_error(error, pending_work_text(activities, children))
            },
        },
{
    let activities = pending_activities(events);
    let children = pending_children(events);
    if activities.len() == 0 && children.len() == 0 {
        proof {
            assert forall|id: ActivityId| !#[trigger] activity_pending(events@, id) by {
                assert(!activities@.contains(id));
            }
            assert forall|id: WorkflowId| !#[trigger] child_pending(events@, id) by {
                assert(!children@.contains(id));
            }
        }
        return Ok(());
    }
    proof {
        if activities@.len() > 0 {
            assert(activities@.contains(activities@[0]));
            assert(activity_pending(events@, activities@[0]));
        } else {
            assert(children@.contains(children@[0]));
            assert(child_pending(events@, children@[0]));
        }
    }
    let mut activity_parts: Vec<String> = Vec::new();
    let mut i: usize = 0;
    while i < activities.len()
        invariant
            0 <= i <= activities@.len(),
            activity_parts@.len() == i,
            forall|j: int|
                0 <= j < i ==> (#[trigger] activity_parts@[j])@ == decimal(
                    activities@[j].sequence_position as nat,
                ),
        decreases activities.len() - i,
    {
        activity_parts.push(decimal_text(activities[i].sequence_position as u128));
        i = i + 1;
    }
    let mut child_parts: Vec<String> = Vec::new();
    let mut k: usize = 0;
    while k < children.len()
        invariant
            0 <= k <= children@.len(),
            child_parts@.len() == k,
            forall|j: int|
                0 <= j < k ==> (#[trigger] child_parts@[j])@ == uuid_text(children@[j].value),
        decreases children.len() - k,
    {
        child_parts.push(children[k].text());
        k = k + 1;
    }
    proof {
        assert(texts(activity_parts@) =~= activity_texts(activities@));
        assert(texts(child_parts@) =~= workflow_texts(children@));
    }
    let reason = concat9(
        "cannot continue as new while pending work exists: ",
        count_text(activities.len()).as_str(),
        " activities ({",
        join(&activity_parts, ", ").as_str(),
        "}), ",
        count_text(children.len()).as_str(),
        " child workflows ({",
        join(&child_parts, ", ").as_str(),
        "})",
    );
    assert(is_runtime_error(
        EngineError::Runtime { reason },
        pending_work_text(activities@, children@),
    ));
    Err(EngineError::Runtime { reason })
}

/// Whether a continuation may be recorded: the run is live, it restarts its own type, and
/// the version that it runs on is still loaded.
pub open spec fn admits_continuation(
    handle: Option<WorkflowHandle>,
    catalog: CatalogView,
    id: WorkflowId,
    run: RunId,
    request: ContinueAsNewRequest,
    result: Result<(), EngineError>,
) -> bool {
    match handle {
        None => result matches Err(error) && is_run_not_found(error, id, run),
        Some(handle) => {
            let requested = continuation_type(request.workflow_type, handle);
            if requested != handle.workflow_type@ {
                result matches Err(error) && is_runtime_error(
                    error,
                    "continue_as_new must restart the same workflow type: current="@
                        + handle.workflow_type@ + ", requested="@ + requested,
                )
            } else if !catalog.by_version.contains_key((requested, handle.loaded_version)) {
                result matches Err(EngineError::WorkflowNotFound { workflow_type })
                    && workflow_type@ == requested
            } else {
                result is Ok
            }
        },
    }
}

/// Admits a continuation: the run is registered, the replacement has the same workflow
/// type, and the version that the run executes on is loaded.
///
/// # Errors
///
/// [`EngineError::WorkflowNotFound`] when the `(workflow, run)` pair is not registered or
/// the version is not loaded, and [`EngineError::Runtime`] when another workflow type is
/// requested.
pub fn admit_continue_as_new(
    handle: Option<&WorkflowHandle>,
    catalog: &WorkflowCatalog,
    id: &WorkflowId,
    run: &RunId,
    request: &ContinueAsNewRequest,
) -> (result: Result<(), EngineError>)
    requires
        catalog.wf(),
    ensures
        admits_continuation(
            (match handle {
                Some(handle) => Some(*handle),
                None => None,
            }),
            catalog@,
            *id,
            *run,
            *request,
            result,
        ),
{
    match handle {
        None => Err(workflow_not_found(id, run)),
        Some(handle) => {
            let workflow_type: &String = match &request.workflow_type {
                Some(workflow_type) => workflow_type,
                None => &handle.workflow_type,
            };
            if *workflow_type != handle.workflow_type {
                return Err(
                    EngineError::Runtime {
                        reason: concat4(
                            "continue_as_new must restart the same workflow type: current=",
                            handle.workflow_type.as_str(),
                            ", requested=",
                            workflow_type.as_str(),
                        ),
                    },
                );
            }
            if !catalog.is_loaded(workflow_type.as_str(), &handle.loaded_version) {
                return Err(
                    EngineError::WorkflowNotFound { workflow_type: workflow_type.clone() },
                );
            }
            Ok(())
        },
    }
}

/// A run may record its continuation: it has not ended and no work is pending.
pub open spec fn may_continue(events: Seq<Event>, run: RunId) -> bool {
    &&& run_outcome(events, run) is None
    &&& forall|id: ActivityId| !#[trigger] activity_pending(events, id)
    &&& forall|id: WorkflowId| !#[trigger] child_pending(events, id)
}

/// Decides, under the run's recorder lock, whether the continuation may be recorded.
///
/// # Errors
///
/// [`EngineError::Runtime`] when the run has ended or work is pending.
pub fn guard_continue_as_new(history: &[Event], id: &WorkflowId, run: &RunId) -> (result: Result<
    (),
    EngineError,
>)
    ensures
        result is Ok <==> may_continue(history@, *run),
        result matches Err(error) ==> if run_outcome(history@, *run) is Some {
            is_runtime_error(
                error,
                "continue_as_new rejected: workflow "@ + uuid_text(id.value) + " run "@ + uuid_text(
                    run.value,
                ) + " already recorded a terminal event"@,
            )
        } else {
            exists|activities: Seq<ActivityId>, children: Seq<WorkflowId>| #[trigger]
                lists_pending_activities(history@, activities)
                    && #[trigger] lists_pending_children(history@, children) && is_runtime_error(
                    error,
                    pending_work_text(activities, children),
                )
        },
{
    match terminal_outcome_from_history(history, run) {
        Some(_) => Err(
            EngineError::Runtime {
                reason: concat5(
                    "continue_as_new rejected: workflow ",
                    id.text().as_str(),
                    " run ",
                    run.text().as_str(),
                    " already recorded a terminal event",
                ),
            },
        ),
        None => guard_no_pending_work(history),
    }
}

/// What starts the replacement of an admitted continuation: the same workflow, on the
/// version that the run executes on.
pub fn replacement_start(handle: &WorkflowHandle, request: &ContinueAsNewRequest) -> (start:
    PlannedStart)
    ensures
        start.workflow_type@ == continuation_type(request.workflow_type, *handle),
        start.input == request.input,
        start.options.workflow_id == Some(handle.workflow_id),
        start.options.routing_key is None,
        start.options.parent_run_id == Some(handle.run_id),
        start.options.loaded_version == Some(handle.loaded_version),
        start.options.search_attributes@.len() == 0,
        start.options.namespace == Some(handle.namespace),
{
    PlannedStart {
        workflow_type: match &request.workflow_type {
            Some(workflow_type) => workflow_type.clone(),
            None => handle.workflow_type.clone(),
        },
        input: request.input.clone(),
        options: StartWorkflowOptions {
            workflow_id: Some(handle.workflow_id),
            routing_key: None,
            parent_run_id: Some(handle.run_id),
            loaded_version: Some(handle.loaded_version),
            search_attributes: Vec::new(),
            namespace: Some(handle.namespace.clone()),
        },
    }
}

/// The outcome that awaiters of the run are notified of.
pub fn continued_outcome(run: &RunId, request: &ContinueAsNewRequest) -> (outcome: TerminalOutcome)
    ensures
        outcome == (TerminalOutcome::ContinuedAsNew {
            input: request.input,
            workflow_type: request.workflow_type,
            parent_run_id: *run,
        }),
{
    TerminalOutcome::ContinuedAsNew {
        input: request.input.clone(),
        workflow_type: clone_optional_text(&request.workflow_type),
        parent_run_id: *run,
    }
}

/// The step of a continuation to perform next, or how it ended.
#[derive(Debug, PartialEq, Eq)]
pub enum ContinuePhase {
    /// Record `WorkflowContinuedAsNew` under the recorder lock.
    Record,
    /// Start the replacement run.
    StartReplacement,
    /// Notify everyone who awaits the run's outcome.
    Notify,
    /// Remove the run from the registry.
    Deregister,
    /// The replacement runs.
    Continued,
    /// The continuation failed.
    Failed(EngineError),
}

impl ContinuePhase {
    /// The phase after a step: the run is recorded as continued before its replacement
    /// starts, and let go only after the replacement has started.
    pub open spec fn after(self, reply: Result<(), EngineError>) -> ContinuePhase {
        match (self, reply) {
            (ContinuePhase::Record, Ok(_)) => ContinuePhase::StartReplacement,
            (ContinuePhase::StartReplacement, Ok(_)) => ContinuePhase::Notify,
            (ContinuePhase::Notify, _) => ContinuePhase::Deregister,
            (ContinuePhase::Deregister, Ok(_)) => ContinuePhase::Continued,
            (ContinuePhase::Record, Err(error))
            | (ContinuePhase::StartReplacement, Err(error))
            | (ContinuePhase::Deregister, Err(error)) => ContinuePhase::Failed(error),
            (phase, _) => phase,
        }
    }

    /// Takes in what came of a step.
    pub fn advance(self, reply: Result<(), EngineError>) -> (phase: Self)
        ensures
            phase == self.after(reply),
    {
        match (self, reply) {
            (ContinuePhase::Record, Ok(())) => ContinuePhase::StartReplacement,
            (ContinuePhase::StartReplacement, Ok(())) => ContinuePhase::Notify,
            (ContinuePhase::Notify, _) => ContinuePhase::Deregister,
            (ContinuePhase::Deregister, Ok(())) => ContinuePhase::Continued,
            (ContinuePhase::Record, Err(error)) => ContinuePhase::Failed(error),
            (ContinuePhase::StartReplacement, Err(error)) => ContinuePhase::Failed(error),
            (ContinuePhase::Deregister, Err(error)) => ContinuePhase::Failed(error),
            (phase, _) => phase,
        }
    }
}

/// A course of a continuation: each phase follows from the one before it by a reply.
pub open spec fn continue_course(
    phases: Seq<ContinuePhase>,
    replies: Seq<Result<(), EngineError>>,
) -> bool {
    &&& phases.len() == replies.len() + 1
    &&& phases[0] is Record
    &&& forall|i: int|
        0 <= i < replies.len() ==> phases[i + 1] == phases[i].after(#[trigger] replies[i])
}

/// Before some point of a course, the step of a phase succeeded.
pub open spec fn succeeded_before(
    phases: Seq<ContinuePhase>,
    replies: Seq<Result<(), EngineError>>,
    phase: ContinuePhase,
    point: int,
) -> bool {
    exists|i: int| 0 <= i < point && phases[i] == phase && (#[trigger] replies[i]) is Ok
}

/// What a course has behind it at some point.
proof fn lemma_continued_in_order(
    phases: Seq<ContinuePhase>,
    replies: Seq<Result<(), EngineError>>,
    point: int,
)
    requires
        continue_course(phases, replies),
        0 <= point <= replies.len(),
    ensures
        !(phases[point] is Record || phases[point] is Failed) ==> succeeded_before(
            phases,
            replies,
            ContinuePhase::Record,
            point,
        ),
        phases[point] is Notify || phases[point] is Deregister || phases[point] is Continued
            ==> succeeded_before(phases, replies, ContinuePhase::StartReplacement, point),
    decreases point,
{
    if point > 0 {
        let before = point - 1;
        lemma_continued_in_order(phases, replies, before);
        assert(phases[before + 1] == phases[before].after(replies[before]));
    }
}

/// The replacement starts only after the run is recorded as continued, and the run is
/// announced and let go only after the replacement has started.
pub proof fn a_run_is_let_go_only_after_its_replacement_started(
    phases: Seq<ContinuePhase>,
    replies: Seq<Result<(), EngineError>>,
)
    requires
        continue_course(phases, replies),
    ensures
        phases.last() is StartReplacement ==> succeeded_before(
            phases,
            replies,
            ContinuePhase::Record,
            replies.len() as int,
        ),
        phases.last() is Notify || phases.last() is Deregister || phases.last() is Continued
            ==> succeeded_before(
            phases,
            replies,
            ContinuePhase::StartReplacement,
            replies.len() as int,
        ),
{
    lemma_continued_in_order(phases, replies, replies.len() as int);
}

} // verus!
