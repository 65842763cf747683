//! What a repair after a crash starts and retires, told from the events of histories.

use vstd::prelude::*;

use crate::content_hash::{canonical_text_determines_the_hash, hash_text, ContentHash};
use crate::engine::startup_sweeps::{
    deadlines_among, end_reported, last_rotation, live_at_boot_text, lost_the_head,
    no_continued_start_text, open_children, orphaned, starts_child, starts_successor,
    successor_missing, successor_type, type_of_run, version_readable, ChildSweep, ChildSweepPhase,
    DeadlineSweep, DeadlineSweepPhase, DeadlineSweepReply, RecordedChild, SuccessorSweep,
    SuccessorSweepPhase, SweepReply, SweepScope, TimerRow,
};
use crate::error::{DurabilityError, EngineError, StoreError};
use crate::event::Event;
use crate::history::{
    begins, head_of, lemma_first_where, lemma_first_where_is, lemma_last_where_is, run_outcome,
    successor_started_in,
};
use crate::ids::{deadline_run, parsed_uuid, RunId, TimerKey, WorkflowId};
use crate::lifecycle::completion::PlannedStart;
use crate::loader::malformed_version_text;
use crate::registry::RunKey;
use crate::time::deadline_outstanding;

verus! {

/// Some event of a segment tells how a child ended: that it completed, failed or was
/// cancelled.
pub open spec fn told_the_end_of(segment: Seq<Event>, child: WorkflowId) -> bool {
    exists|i: int|
        0 <= i < segment.len() && ({
            ||| (#[trigger] segment[i]) matches Event::ChildWorkflowCompleted {
                child_workflow_id,
                ..
            } && child_workflow_id == child
            ||| segment[i] matches Event::ChildWorkflowFailed { child_workflow_id, .. }
                && child_workflow_id == child
            ||| segment[i] matches Event::ChildWorkflowCancelled { child_workflow_id, .. }
                && child_workflow_id == child
        })
}

/// An end is reported by the events that tell it.
proof fn lemma_end_reported(segment: Seq<Event>, child: WorkflowId)
    ensures
        end_reported(segment, child) <==> told_the_end_of(segment, child),
{
    if end_reported(segment, child) {
        let i = choose|i: int|
            0 <= i < segment.len() && crate::engine::startup_sweeps::reports_end_of(
                #[trigger] segment[i],
                child,
            );
        assert(told_the_end_of(segment, child));
    }
    if told_the_end_of(segment, child) {
        let i = choose|i: int|
            0 <= i < segment.len() && ({
                ||| (#[trigger] segment[i]) matches Event::ChildWorkflowCompleted {
                    child_workflow_id,
                    ..
                } && child_workflow_id == child
                ||| segment[i] matches Event::ChildWorkflowFailed { child_workflow_id, .. }
                    && child_workflow_id == child
                ||| segment[i] matches Event::ChildWorkflowCancelled { child_workflow_id, .. }
                    && child_workflow_id == child
            });
        assert(crate::engine::startup_sweeps::reports_end_of(segment[i], child));
    }
}

/// A recorded child is open, as it was recorded and behind those recorded before it, unless
/// the segment tells its end; and no other event adds a child.
pub proof fn a_recorded_child_is_open_until_its_end_is_told(
    events: Seq<Event>,
    event: Event,
    segment: Seq<Event>,
)
    ensures
        open_children(Seq::<Event>::empty(), segment) == Seq::<RecordedChild>::empty(),
        match event {
            Event::ChildWorkflowStarted {
                child_workflow_id,
                workflow_type,
                input,
                package_version,
                ..
            } => if told_the_end_of(segment, child_workflow_id) {
                open_children(events.push(event), segment) == open_children(events, segment)
            } else {
                open_children(events.push(event), segment) == open_children(events, segment).push(
                    RecordedChild { child_workflow_id, workflow_type, input, package_version },
                )
            },
            _ => open_children(events.push(event), segment) == open_children(events, segment),
        },
{
    assert(events.push(event).drop_last() =~= events);
    assert(events.push(event).last() == event);
    match event {
        Event::ChildWorkflowStarted { child_workflow_id, .. } => {
            lemma_end_reported(segment, child_workflow_id);
        },
        _ => {},
    }
}

/// Every child that is recorded and whose end is not told is open, wherever it stands.
pub proof fn no_recorded_child_is_forgotten(
    events: Seq<Event>,
    segment: Seq<Event>,
    at: int,
) -> (position: int)
    requires
        0 <= at < events.len(),
        events[at] is ChildWorkflowStarted,
        !told_the_end_of(segment, events[at]->ChildWorkflowStarted_child_workflow_id),
    ensures
        0 <= position < open_children(events, segment).len(),
        events[at] matches Event::ChildWorkflowStarted {
            child_workflow_id,
            workflow_type,
            input,
            package_version,
            ..
        } && open_children(events, segment)[position] == (RecordedChild {
            child_workflow_id,
            workflow_type,
            input,
            package_version,
        }),
    decreases events.len(),
{
    let last = events.len() - 1;
    let shorter = events.drop_last();
    lemma_end_reported(segment, events[at]->ChildWorkflowStarted_child_workflow_id);
    if at == last {
        open_children(shorter, segment).len() as int
    } else {
        assert(shorter[at] == events[at]);
        let position = no_recorded_child_is_forgotten(shorter, segment, at);
        assert(open_children(events, segment)[position] == open_children(
            shorter,
            segment,
        )[position]);
        position
    }
}

/// A recorded child is started under its recorded identity, with its recorded type and
/// input, and on exactly its recorded version.
pub proof fn a_recorded_child_starts_as_it_was_recorded(
    start: PlannedStart,
    child: RecordedChild,
    version: ContentHash,
)
    requires
        starts_child(start, child),
        hash_text(version) == child.package_version.text@,
    ensures
        start.options.workflow_id == Some(child.child_workflow_id),
        start.workflow_type == child.workflow_type,
        start.input == child.input,
        start.options.loaded_version == Some(version),
        start.options.parent_run_id is None,
        start.options.namespace is None,
        start.options.routing_key is None,
        start.options.search_attributes@.len() == 0,
        version_readable(child),
{
    canonical_text_determines_the_hash(start.options.loaded_version->Some_0, version);
}

/// A child sweep goes on past a child that exists and past one that it has started; one that
/// has no history is started, and a failing step ends the sweep with its own error.
pub proof fn a_child_without_a_history_is_started(
    sweep: ChildSweep,
    reply: SweepReply,
    after: ChildSweep,
)
    requires
        sweep.fits(),
        sweep.goes_to(reply, after),
    ensures
        after.children == sweep.children,
        (reply matches SweepReply::History(history) ==> (sweep.phase is Read ==> {
            let child = sweep.children@[sweep.next as int];
            &&& history@.len() > 0 ==> after.next == sweep.next + 1
            &&& history@.len() == 0 && version_readable(child) ==> (after.phase matches
                ChildSweepPhase::Start(start) && starts_child(start, child)) && after.next
                == sweep.next
            &&& history@.len() == 0 && !version_readable(child) ==> (after.phase matches
                ChildSweepPhase::Failed(EngineError::Load { reason }) && reason@
                == malformed_version_text(child.workflow_type@, child.package_version.text@))
                && after.next == sweep.next
        })),
        reply is Started && sweep.phase is Start ==> after.next == sweep.next + 1,
        (reply matches SweepReply::Failed(error) ==> (sweep.phase is Read || sweep.phase is Start
            ==> after.phase == ChildSweepPhase::Failed(error))),
        after.next == sweep.next + 1 ==> (after.phase is Read <==> sweep.next + 1
            < sweep.children@.len()) && (after.phase is Swept <==> sweep.next + 1
            >= sweep.children@.len()),
        sweep.phase is Swept || sweep.phase is Failed ==> after == sweep,
{
}

/// The rotation that counts is the latest one that is recorded.
pub proof fn the_latest_rotation_counts(history: Seq<Event>, rotation: int)
    requires
        -1 <= rotation < history.len(),
        rotation >= 0 ==> history[rotation] is WorkflowContinuedAsNew,
        forall|j: int|
            rotation < j < history.len() ==> !((#[trigger] history[j]) is WorkflowContinuedAsNew),
    ensures
        rotation >= 0 ==> last_rotation(history) == Some(history[rotation]),
        rotation < 0 ==> last_rotation(history) is None && !successor_missing(history),
        rotation >= 0 ==> (history[rotation] matches Event::WorkflowContinuedAsNew {
            parent_run_id,
            ..
        } && (successor_missing(history) <==> !successor_started_in(history, parent_run_id))),
{
    lemma_last_where_is(history, |event: Event| event is WorkflowContinuedAsNew, rotation);
}

/// A lost successor is started as the rotation recorded it: as the same workflow, with the
/// recorded input, as a continuation of the recorded run, and with the recorded type or,
/// where none is, the type that the continued run was started with. It runs on the routed
/// version.
pub proof fn a_lost_successor_starts_as_it_was_recorded(
    start: PlannedStart,
    id: WorkflowId,
    history: Seq<Event>,
    rotation: int,
    continued: int,
)
    requires
        starts_successor(start, id, history),
        0 <= rotation < history.len(),
        history[rotation] is WorkflowContinuedAsNew,
        forall|j: int|
            rotation < j < history.len() ==> !((#[trigger] history[j]) is WorkflowContinuedAsNew),
        0 <= continued < history.len(),
        history[continued] matches Event::WorkflowStarted { run_id, .. } && run_id
            == history[rotation]->WorkflowContinuedAsNew_parent_run_id,
        forall|j: int|
            0 <= j < continued ==> !((#[trigger] history[j]) matches Event::WorkflowStarted {
                run_id,
                ..
            } && run_id == history[rotation]->WorkflowContinuedAsNew_parent_run_id),
    ensures
        start.options.workflow_id == Some(id),
        start.options.loaded_version is None,
        start.options.routing_key is None,
        start.options.namespace is None,
        start.options.search_attributes@.len() == 0,
        (history[rotation] matches Event::WorkflowContinuedAsNew {
            input,
            workflow_type,
            parent_run_id,
            ..
        } ==> {
            &&& start.input == input
            &&& start.options.parent_run_id == Some(parent_run_id)
            &&& (workflow_type matches Some(given) ==> start.workflow_type@ == given@)
            &&& workflow_type is None ==> start.workflow_type@
                == history[continued]->WorkflowStarted_workflow_type@
        }),
{
    the_latest_rotation_counts(history, rotation);
    let run = history[rotation]->WorkflowContinuedAsNew_parent_run_id;
    lemma_first_where_is(history, |event: Event| begins(event, run), continued);
}

/// A successor has the type that the rotation gives, and otherwise that of the continued
/// run, where the history shows its start.
pub proof fn a_successor_has_the_type_of_its_rotation(
    history: Seq<Event>,
    rotation: Event,
    run: RunId,
)
    requires
        rotation is WorkflowContinuedAsNew,
        rotation->WorkflowContinuedAsNew_parent_run_id == run,
    ensures
        (rotation->WorkflowContinuedAsNew_workflow_type matches Some(given) ==> successor_type(
            history,
            rotation,
        ) == Some(given@)),
        rotation->WorkflowContinuedAsNew_workflow_type is None ==> (type_of_run(history, run)
            matches Some(started) ==> successor_type(history, rotation) == Some(started@)),
        rotation->WorkflowContinuedAsNew_workflow_type is None && type_of_run(history, run) is None
            ==> successor_type(history, rotation) is None,
{
}

/// A successor sweep goes on past a workflow that misses no successor and past one whose
/// successor it has started; a start that fails is benign exactly where the successor is
/// durable by then, and otherwise ends the sweep with its own error.
pub proof fn a_missing_successor_is_started(
    sweep: SuccessorSweep,
    reply: SweepReply,
    after: SuccessorSweep,
)
    requires
        sweep.fits(),
        sweep.goes_to(reply, after),
    ensures
        after.stranded == sweep.stranded,
        (reply matches SweepReply::History(history) ==> (sweep.phase is Read ==> {
            let id = sweep.stranded@[sweep.next as int];
            &&& !successor_missing(history@) ==> after.next == sweep.next + 1
            &&& successor_missing(history@) ==> after.next == sweep.next && match after.phase {
                SuccessorSweepPhase::Start { start, continued_run_id } => starts_successor(
                    start,
                    id,
                    history@,
                ) && start.options.parent_run_id == Some(continued_run_id),
                SuccessorSweepPhase::Failed(error) => (last_rotation(history@) matches Some(
                    rotation,
                ) && successor_type(history@, rotation) is None && (error matches
                    EngineError::Load { reason } && reason@ == no_continued_start_text(
                    id,
                    rotation->WorkflowContinuedAsNew_parent_run_id,
                ))),
                _ => false,
            }
        })),
        reply is Started && sweep.phase is Start ==> after.next == sweep.next + 1,
        (reply matches SweepReply::Failed(error) ==> {
            &&& sweep.phase is Start ==> (after.phase matches SuccessorSweepPhase::Reread {
                error: failed,
                ..
            } && failed == error)
            &&& sweep.phase is Read || sweep.phase is Reread ==> after.phase
                == SuccessorSweepPhase::Failed(error)
        }),
        (sweep.phase matches SuccessorSweepPhase::Reread { continued_run_id, error } ==> (reply
            matches SweepReply::History(history) ==> {
            &&& successor_started_in(history@, continued_run_id) ==> after.next == sweep.next + 1
            &&& !successor_started_in(history@, continued_run_id) ==> after.phase
                == SuccessorSweepPhase::Failed(error)
        })),
        after.next == sweep.next + 1 ==> (after.phase is Read <==> sweep.next + 1
            < sweep.stranded@.len()) && (after.phase is Swept <==> sweep.next + 1
            >= sweep.stranded@.len()),
        sweep.phase is Swept || sweep.phase is Failed ==> after == sweep,
{
}

/// A timer row is a candidate exactly where its timer has a deadline's name with a readable
/// run in it, and then for that run of the row's workflow; rows keep their order.
pub proof fn only_deadlines_are_candidates(rows: Seq<TimerRow>, row: TimerRow)
    ensures
        deadlines_among(Seq::<TimerRow>::empty()) == Seq::<RunKey>::empty(),
        deadlines_among(rows.push(row)) == match deadline_run(row.timer_id@) {
            Some(run_id) => deadlines_among(rows).push(
                (RunKey { workflow_id: row.workflow_id, run_id }),
            ),
            None => deadlines_among(rows),
        },
{
    assert(rows.push(row).drop_last() =~= rows);
    assert(rows.push(row).last() == row);
}

/// A timer is a run's deadline exactly where it is named `deadline:` and the run.
pub proof fn a_deadline_is_known_by_its_name(key: TimerKey, text: Seq<char>, number: u64)
    ensures
        deadline_run(TimerKey::Anonymous(number)) is None,
        (deadline_run(key) matches Some(run) ==> (key matches TimerKey::Named(name) && exists|
            rest: Seq<char>,
        |
            name == "deadline:"@ + rest && #[trigger] parsed_uuid(rest) == Some(run.value))),
        deadline_run(TimerKey::Named("deadline:"@ + text)) == match parsed_uuid(text) {
            Some(value) => Some((RunId { value })),
            None => None,
        },
{
    let prefix = "deadline:"@;
    let whole = prefix + text;
    assert(whole.take(prefix.len() as int) =~= prefix);
    assert(whole.skip(prefix.len() as int) =~= text);
    match key {
        TimerKey::Named(name) => {
            if deadline_run(key) is Some {
                let rest = name.skip(prefix.len() as int);
                assert(name =~= prefix + rest);
                assert(parsed_uuid(rest) is Some);
            }
        },
        _ => {},
    }
}

/// A deadline is an orphan exactly where it is still outstanding although its run has ended,
/// unless the run timed out: that teardown has an owner.
pub proof fn an_orphan_is_a_deadline_behind_another_end(history: Seq<Event>, run: RunId)
    ensures
        !deadline_outstanding(history, run) ==> !orphaned(history, run),
        run_outcome(history, run) is None ==> !orphaned(history, run),
        (run_outcome(history, run) matches Some(outcome) ==> (deadline_outstanding(history, run)
            ==> (orphaned(history, run) <==> !(outcome is TimedOut)))),
{
}

/// A deadline sweep retires exactly the orphans, at the head of the history that it read. A
/// live candidate stops a sweep at cold boot and is passed over at an adoption; an append
/// that lost to another writer is benign exactly where the deadline is an orphan no more;
/// and every other failure ends the sweep with its own error.
pub proof fn exactly_the_orphans_are_retired(
    sweep: DeadlineSweep,
    reply: DeadlineSweepReply,
    after: DeadlineSweep,
)
    requires
        sweep.fits(),
        sweep.goes_to(reply, after),
    ensures
        after.scope == sweep.scope,
        after.candidates == sweep.candidates,
        (reply matches DeadlineSweepReply::Live(live) ==> (sweep.phase is CheckLive ==> {
            &&& !live ==> after.phase is Read && after.next == sweep.next
            &&& live && sweep.scope == SweepScope::Adoption ==> after.next == sweep.next + 1
            &&& live && sweep.scope == SweepScope::ColdBoot ==> (after.phase matches
                DeadlineSweepPhase::Failed(EngineError::Runtime { reason }) && reason@
                == live_at_boot_text(sweep.candidates@[sweep.next as int].workflow_id))
        })),
        (reply matches DeadlineSweepReply::History(history) ==> {
            let run = sweep.candidates@[sweep.next as int].run_id;
            &&& sweep.phase is Read && orphaned(history@, run) ==> (after.phase matches
                DeadlineSweepPhase::Retire { head } && head == head_of(history@)) && after.next
                == sweep.next
            &&& sweep.phase is Read && !orphaned(history@, run) ==> after.next == sweep.next + 1
            &&& (sweep.phase matches DeadlineSweepPhase::Reread(error) ==> {
                &&& orphaned(history@, run) ==> after.phase == DeadlineSweepPhase::Failed(error)
                &&& !orphaned(history@, run) ==> after.next == sweep.next + 1
            })
        }),
        reply is Retired && sweep.phase is Retire ==> after.next == sweep.next + 1,
        (reply matches DeadlineSweepReply::Failed(error) ==> {
            let conflict = error matches EngineError::Durability(
                DurabilityError::Store(StoreError::SequenceConflict { .. }),
            );
            &&& sweep.phase is Retire && conflict ==> after.phase == DeadlineSweepPhase::Reread(
                error,
            )
            &&& sweep.phase is Retire && !conflict ==> after.phase == DeadlineSweepPhase::Failed(
                error,
            )
            &&& sweep.phase is CheckLive || sweep.phase is Read || sweep.phase is Reread
                ==> after.phase == DeadlineSweepPhase::Failed(error)
            &&& lost_the_head(error) == conflict
        }),
        after.next == sweep.next + 1 ==> (after.phase is CheckLive <==> sweep.next + 1
            < sweep.candidates@.len()) && (after.phase is Swept <==> sweep.next + 1
            >= sweep.candidates@.len()),
        sweep.phase is Swept || sweep.phase is Failed ==> after == sweep,
{
}

/// A run has the type of its first recorded start, and none where the history shows no start
/// of it, whatever other runs have started.
pub proof fn a_run_has_the_type_that_it_started_with(history: Seq<Event>, run: RunId, at: int)
    ensures
        0 <= at < history.len() ==> (history[at] matches Event::WorkflowStarted {
            run_id,
            workflow_type,
            ..
        } ==> (run_id == run && (forall|j: int|
            0 <= j < at ==> !((#[trigger] history[j]) matches Event::WorkflowStarted {
                run_id: other,
                ..
            } && other == run)) ==> type_of_run(history, run) == Some(workflow_type))),
        (forall|j: int|
            0 <= j < history.len() ==> !((#[trigger] history[j]) matches Event::WorkflowStarted {
                run_id: other,
                ..
            } && other == run)) ==> type_of_run(history, run) is None,
{
    let starts = |event: Event| begins(event, run);
    lemma_first_where(history, starts);
    if 0 <= at < history.len() && starts(history[at]) && (forall|j: int|
        0 <= j < at ==> !((#[trigger] history[j]) matches Event::WorkflowStarted {
            run_id: other,
            ..
        } && other == run)) {
        lemma_first_where_is(history, starts, at);
    }
}

} // verus!
