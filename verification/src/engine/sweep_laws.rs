//! What the sweeps over starts do to the histories that a store holds.

use vstd::prelude::*;

use crate::engine::startup_sweeps::{
    child_sweep_course, end_reported, last_rotation, open_children, starts_child,
    starts_successor, successor_missing, successor_sweep_course, ChildSweep, ChildSweepPhase,
    RecordedChild, SuccessorSweep, SuccessorSweepPhase, SweepReply,
};
use crate::event::{Event, WorkflowStatus};
use crate::history::{continues, last_where, lemma_last_where, lemma_last_where_is, status_of};
use crate::ids::WorkflowId;
use crate::lifecycle::completion::PlannedStart;

verus! {

/// What a store holds of a workflow.
pub open spec fn history_in(store: Map<WorkflowId, Seq<Event>>, id: WorkflowId) -> Seq<Event> {
    if store.contains_key(id) {
        store[id]
    } else {
        Seq::empty()
    }
}

/// What a start leaves in a history: `WorkflowStarted` as the start says, and after it
/// nothing that begins or rotates a run.
pub open spec fn records_start(records: Seq<Event>, start: PlannedStart, id: WorkflowId) -> bool {
    &&& records.len() > 0
    &&& records[0] matches Event::WorkflowStarted {
        envelope,
        workflow_type,
        input,
        parent_run_id,
        ..
    }
    &&& envelope.workflow_id == id
    &&& workflow_type@ == start.workflow_type@
    &&& input == start.input
    &&& parent_run_id == start.options.parent_run_id
    &&& forall|i: int|
        0 < i < records.len() ==> !((#[trigger] records[i]) is WorkflowStarted) && !(
        records[i] is WorkflowContinuedAsNew)
}

/// A start is recorded in a store.
pub open spec fn start_recorded(
    start: PlannedStart,
    id: WorkflowId,
    before: Map<WorkflowId, Seq<Event>>,
    after: Map<WorkflowId, Seq<Event>>,
) -> bool {
    exists|records: Seq<Event>| #[trigger]
        records_start(records, start, id) && after == before.insert(
            id,
            history_in(before, id) + records,
        )
}

/// A step of a sweep is performed on a store: a read gives what the store holds, a start
/// that is performed is recorded, and one that fails is recorded or leaves no trace.
pub open spec fn performed_on(
    sweep: SuccessorSweep,
    reply: SweepReply,
    before: Map<WorkflowId, Seq<Event>>,
    after: Map<WorkflowId, Seq<Event>>,
) -> bool {
    let id = sweep.stranded@[sweep.next as int];
    match (sweep.phase, reply) {
        (SuccessorSweepPhase::Read, SweepReply::History(history)) => {
            &&& history@ == history_in(before, id)
            &&& after == before
        },
        (SuccessorSweepPhase::Reread { .. }, SweepReply::History(history)) => {
            &&& history@ == history_in(before, id)
            &&& after == before
        },
        (SuccessorSweepPhase::Start { start, .. }, SweepReply::Started) => start_recorded(
            start,
            id,
            before,
            after,
        ),
        (SuccessorSweepPhase::Start { start, .. }, SweepReply::Failed(_)) => after == before
            || start_recorded(start, id, before, after),
        _ => after == before,
    }
}

/// A sweep is performed on a store, which is given as it is before each step and at the
/// end.
pub open spec fn sweep_on(
    sweeps: Seq<SuccessorSweep>,
    replies: Seq<SweepReply>,
    stores: Seq<Map<WorkflowId, Seq<Event>>>,
) -> bool {
    &&& successor_sweep_course(sweeps, replies)
    &&& stores.len() == sweeps.len()
    &&& forall|i: int|
        0 <= i < replies.len() ==> performed_on(
            sweeps[i],
            #[trigger] replies[i],
            stores[i],
            stores[i + 1],
        )
}

/// The workflows of a sweep are those that a store projects as continued.
pub open spec fn lists_continued(
    store: Map<WorkflowId, Seq<Event>>,
    stranded: Seq<WorkflowId>,
) -> bool {
    forall|id: WorkflowId| #[trigger]
        stranded.contains(id) <==> status_of(history_in(store, id))
            == WorkflowStatus::ContinuedAsNew
}

/// A history is another one with one start of the successor of its latest rotation.
pub open spec fn repaired(before: Seq<Event>, after: Seq<Event>, id: WorkflowId) -> bool {
    exists|start: PlannedStart, records: Seq<Event>|
        #![trigger records_start(records, start, id)]
        records_start(records, start, id) && starts_successor(start, id, before) && after == before
            + records
}

/// A repaired history misses no successor.
proof fn lemma_repaired(before: Seq<Event>, after: Seq<Event>, id: WorkflowId)
    requires
        repaired(before, after, id),
    ensures
        !successor_missing(after),
{
    let (start, records) = choose|start: PlannedStart, records: Seq<Event>|
        #![trigger records_start(records, start, id)]
        records_start(records, start, id) && starts_successor(start, id, before) && after == before
            + records;
    let rotates = |event: Event| event is WorkflowContinuedAsNew;
    let mark = last_where(before, rotates);
    lemma_last_where(before, rotates);
    assert(after[before.len() as int] == records[0]);
    assert forall|j: int| mark < j < after.len() implies !rotates(#[trigger] after[j]) by {
        if j < before.len() {
            assert(after[j] == before[j]);
            assert(!rotates(before[j]));
        } else {
            assert(after[j] == records[j - before.len()]);
        }
    }
    assert(after[mark] == before[mark]);
    lemma_last_where_is(after, rotates, mark);
    assert(continues(
        after[before.len() as int],
        last_rotation(after)->Some_0->WorkflowContinuedAsNew_parent_run_id,
    ));
}

/// A workflow's history is as it was, or the sweep has repaired it.
pub open spec fn kept_or_repaired(
    first: Map<WorkflowId, Seq<Event>>,
    now: Map<WorkflowId, Seq<Event>>,
    stranded: Seq<WorkflowId>,
    id: WorkflowId,
) -> bool {
    ||| history_in(now, id) == history_in(first, id)
    ||| {
        &&& stranded.contains(id)
        &&& successor_missing(history_in(first, id))
        &&& repaired(history_in(first, id), history_in(now, id), id)
    }
}

/// What a start that a sweep asks for does to a store.
proof fn lemma_start_recorded(
    start: PlannedStart,
    id: WorkflowId,
    before: Map<WorkflowId, Seq<Event>>,
    after: Map<WorkflowId, Seq<Event>>,
)
    requires
        start_recorded(start, id, before, after),
        starts_successor(start, id, history_in(before, id)),
    ensures
        repaired(history_in(before, id), history_in(after, id), id),
        !successor_missing(history_in(after, id)),
        forall|other: WorkflowId|
            other != id ==> #[trigger] history_in(after, other) == history_in(before, other),
{
    let records = choose|records: Seq<Event>| #[trigger]
        records_start(records, start, id) && after == before.insert(
            id,
            history_in(before, id) + records,
        );
    assert(records_start(records, start, id));
    assert(history_in(after, id) == history_in(before, id) + records);
    lemma_repaired(history_in(before, id), history_in(after, id), id);
}

/// What a sweep has done to the store at some point.
proof fn lemma_sweep_on(
    sweeps: Seq<SuccessorSweep>,
    replies: Seq<SweepReply>,
    stores: Seq<Map<WorkflowId, Seq<Event>>>,
    point: int,
)
    requires
        sweep_on(sweeps, replies, stores),
        0 <= point < sweeps.len(),
    ensures
        sweeps[point].stranded == sweeps[0].stranded,
        sweeps[point].next <= sweeps[0].stranded@.len(),
        sweeps[point].phase is Swept ==> sweeps[point].next == sweeps[0].stranded@.len(),
        sweeps[point].phase is Read || sweeps[point].phase is Start || sweeps[point].phase is Reread
            ==> sweeps[point].next < sweeps[0].stranded@.len(),
        forall|id: WorkflowId| #[trigger]
            kept_or_repaired(stores[0], stores[point], sweeps[0].stranded@, id),
        forall|i: int|
            0 <= i < sweeps[point].next ==> !successor_missing(
                history_in(stores[point], #[trigger] sweeps[0].stranded@[i]),
            ),
        sweeps[point].phase matches SuccessorSweepPhase::Start { start, continued_run_id } ==> {
            let id = sweeps[0].stranded@[sweeps[point].next as int];
            let history = history_in(stores[point], id);
            &&& history == history_in(stores[0], id)
            &&& successor_missing(history)
            &&& starts_successor(start, id, history)
            &&& continued_run_id == last_rotation(
                history,
            )->Some_0->WorkflowContinuedAsNew_parent_run_id
        },
        sweeps[point].phase matches SuccessorSweepPhase::Reread { continued_run_id, .. } ==> {
            let id = sweeps[0].stranded@[sweeps[point].next as int];
            let history = history_in(stores[0], id);
            &&& successor_missing(history)
            &&& continued_run_id == last_rotation(
                history,
            )->Some_0->WorkflowContinuedAsNew_parent_run_id
        },
    decreases point,
{
    if point > 0 {
        let before = point - 1;
        lemma_sweep_on(sweeps, replies, stores, before);
        let prior = sweeps[before];
        let reply = replies[before];
        let id = sweeps[0].stranded@[prior.next as int];
        assert(prior.goes_to(reply, sweeps[before + 1]));
        assert(performed_on(prior, reply, stores[before], stores[before + 1]));
        assert(kept_or_repaired(stores[0], stores[before], sweeps[0].stranded@, id));
        if prior.phase is Read || prior.phase is Start || prior.phase is Reread {
            assert(sweeps[0].stranded@.contains(id));
        }
        if repaired(history_in(stores[0], id), history_in(stores[before], id), id) {
            lemma_repaired(history_in(stores[0], id), history_in(stores[before], id), id);
        }
        if stores[point] != stores[before] {
            let start = prior.phase->start;
            lemma_start_recorded(start, id, stores[before], stores[point]);
            assert forall|other: WorkflowId| #[trigger]
                kept_or_repaired(stores[0], stores[point], sweeps[0].stranded@, other) by {
                assert(kept_or_repaired(stores[0], stores[before], sweeps[0].stranded@, other));
            }
            assert forall|i: int| 0 <= i < sweeps[point].next implies !successor_missing(
                history_in(stores[point], #[trigger] sweeps[0].stranded@[i]),
            ) by {
                if sweeps[0].stranded@[i] != id {
                    assert(i < prior.next);
                }
            }
        }
    }
}

/// A successor sweep that ends well repairs each listed workflow that misses its
/// successor with exactly one start, as the rotation recorded it, and appends nothing to
/// any other history. After it no listed workflow misses its successor.
pub proof fn a_successor_sweep_repairs_each_workflow_once(
    sweeps: Seq<SuccessorSweep>,
    replies: Seq<SweepReply>,
    stores: Seq<Map<WorkflowId, Seq<Event>>>,
    id: WorkflowId,
)
    requires
        sweep_on(sweeps, replies, stores),
        sweeps.last().phase is Swept,
    ensures
        if sweeps[0].stranded@.contains(id) && successor_missing(history_in(stores[0], id)) {
            repaired(history_in(stores[0], id), history_in(stores.last(), id), id)
        } else {
            history_in(stores.last(), id) == history_in(stores[0], id)
        },
        sweeps[0].stranded@.contains(id) ==> !successor_missing(history_in(stores.last(), id)),
{
    let end = replies.len() as int;
    lemma_sweep_on(sweeps, replies, stores, end);
    assert(kept_or_repaired(stores[0], stores[end], sweeps[0].stranded@, id));
    if sweeps[0].stranded@.contains(id) {
        let i = choose|i: int|
            0 <= i < sweeps[0].stranded@.len() && sweeps[0].stranded@[i] == id;
        assert(!successor_missing(history_in(stores[end], sweeps[0].stranded@[i])));
    }
}

/// A sweep over workflows that miss no successor asks for no start.
proof fn lemma_nothing_to_repair(
    sweeps: Seq<SuccessorSweep>,
    replies: Seq<SweepReply>,
    stores: Seq<Map<WorkflowId, Seq<Event>>>,
    point: int,
)
    requires
        sweep_on(sweeps, replies, stores),
        forall|i: int|
            0 <= i < sweeps[0].stranded@.len() ==> !successor_missing(
                history_in(stores[0], #[trigger] sweeps[0].stranded@[i]),
            ),
        0 <= point < sweeps.len(),
    ensures
        !(sweeps[point].phase is Start),
        !(sweeps[point].phase is Reread),
        stores[point] == stores[0],
    decreases point,
{
    if point > 0 {
        let before = point - 1;
        lemma_nothing_to_repair(sweeps, replies, stores, before);
        lemma_sweep_on(sweeps, replies, stores, before);
        assert(sweeps[before].goes_to(replies[before], sweeps[before + 1]));
        assert(performed_on(sweeps[before], replies[before], stores[before], stores[before + 1]));
        if sweeps[before].phase is Read {
            let id = sweeps[0].stranded@[sweeps[before].next as int];
            assert(!successor_missing(history_in(stores[0], id)));
        }
    }
}

/// Sweeping is idempotent: where a sweep over the workflows that project as continued has
/// ended well, a second one over what the store then holds starts nothing and leaves the
/// store as it is.
pub proof fn a_second_successor_sweep_starts_nothing(
    sweeps: Seq<SuccessorSweep>,
    replies: Seq<SweepReply>,
    stores: Seq<Map<WorkflowId, Seq<Event>>>,
    later_sweeps: Seq<SuccessorSweep>,
    later_replies: Seq<SweepReply>,
    later_stores: Seq<Map<WorkflowId, Seq<Event>>>,
)
    requires
        sweep_on(sweeps, replies, stores),
        sweeps.last().phase is Swept,
        lists_continued(stores[0], sweeps[0].stranded@),
        sweep_on(later_sweeps, later_replies, later_stores),
        later_stores[0] == stores.last(),
        lists_continued(later_stores[0], later_sweeps[0].stranded@),
    ensures
        forall|i: int| 0 <= i < later_sweeps.len() ==> !((#[trigger] later_sweeps[i]).phase is Start),
        later_stores.last() == later_stores[0],
{
    let listed = later_sweeps[0].stranded@;
    assert forall|i: int| 0 <= i < listed.len() implies !successor_missing(
        history_in(later_stores[0], #[trigger] listed[i]),
    ) by {
        let id = listed[i];
        assert(listed.contains(id));
        a_successor_sweep_repairs_each_workflow_once(sweeps, replies, stores, id);
        assert(sweeps[0].stranded@.contains(id));
    }
    assert forall|i: int| 0 <= i < later_sweeps.len() implies !((
    #[trigger] later_sweeps[i]).phase is Start) by {
        lemma_nothing_to_repair(later_sweeps, later_replies, later_stores, i);
    }
    lemma_nothing_to_repair(
        later_sweeps,
        later_replies,
        later_stores,
        later_replies.len() as int,
    );
}

/// Every child that a sweep looks at was recorded in the parent's segment, and nothing in
/// the segment reports its end: a child that completed, failed or was cancelled is never
/// started.
pub proof fn settled_children_are_never_started(events: Seq<Event>, segment: Seq<Event>, i: int)
    requires
        0 <= i < open_children(events, segment).len(),
    ensures
        !end_reported(segment, open_children(events, segment)[i].child_workflow_id),
        exists|j: int|
            0 <= j < events.len() && (#[trigger] events[j]) is ChildWorkflowStarted
                && events[j]->ChildWorkflowStarted_child_workflow_id == open_children(
                events,
                segment,
            )[i].child_workflow_id,
    decreases events.len(),
{
    let before = open_children(events.drop_last(), segment);
    if i < before.len() {
        settled_children_are_never_started(events.drop_last(), segment, i);
        let j = choose|j: int|
            0 <= j < events.len() - 1 && (#[trigger] events.drop_last()[j]) is ChildWorkflowStarted
                && events.drop_last()[j]->ChildWorkflowStarted_child_workflow_id
                == before[i].child_workflow_id;
        assert(events[j] == events.drop_last()[j]);
    } else {
        assert(events[events.len() - 1] is ChildWorkflowStarted);
    }
}

/// A step of a child sweep is performed on a store.
pub open spec fn child_step_on(
    sweep: ChildSweep,
    reply: SweepReply,
    before: Map<WorkflowId, Seq<Event>>,
    after: Map<WorkflowId, Seq<Event>>,
) -> bool {
    let id = sweep.children@[sweep.next as int].child_workflow_id;
    match (sweep.phase, reply) {
        (ChildSweepPhase::Read, SweepReply::History(history)) => {
            &&& history@ == history_in(before, id)
            &&& after == before
        },
        (ChildSweepPhase::Start(start), SweepReply::Started) => start_recorded(
            start,
            id,
            before,
            after,
        ),
        (ChildSweepPhase::Start(start), SweepReply::Failed(_)) => after == before
            || start_recorded(start, id, before, after),
        _ => after == before,
    }
}

/// A child sweep is performed on a store, which is given as it is before each step and at
/// the end.
pub open spec fn child_sweep_on(
    sweeps: Seq<ChildSweep>,
    replies: Seq<SweepReply>,
    stores: Seq<Map<WorkflowId, Seq<Event>>>,
) -> bool {
    &&& child_sweep_course(sweeps, replies)
    &&& stores.len() == sweeps.len()
    &&& forall|i: int|
        0 <= i < replies.len() ==> child_step_on(
            sweeps[i],
            #[trigger] replies[i],
            stores[i],
            stores[i + 1],
        )
}

/// A recorded child was started, once and as it was recorded.
pub open spec fn started_as_recorded(
    children: Seq<RecordedChild>,
    history: Seq<Event>,
    id: WorkflowId,
) -> bool {
    exists|i: int, start: PlannedStart|
        #![trigger records_start(history, start, id), children[i]]
        0 <= i < children.len() && children[i].child_workflow_id == id && starts_child(
            start,
            children[i],
        ) && records_start(history, start, id)
}

/// A workflow's history is as it was, or it was empty and now holds one start of a
/// recorded child.
pub open spec fn kept_or_started(
    first: Map<WorkflowId, Seq<Event>>,
    now: Map<WorkflowId, Seq<Event>>,
    children: Seq<RecordedChild>,
    id: WorkflowId,
) -> bool {
    ||| history_in(now, id) == history_in(first, id)
    ||| {
        &&& history_in(first, id).len() == 0
        &&& started_as_recorded(children, history_in(now, id), id)
    }
}

/// What a child sweep has done to the store at some point.
proof fn lemma_child_sweep_on(
    sweeps: Seq<ChildSweep>,
    replies: Seq<SweepReply>,
    stores: Seq<Map<WorkflowId, Seq<Event>>>,
    point: int,
)
    requires
        child_sweep_on(sweeps, replies, stores),
        0 <= point < sweeps.len(),
    ensures
        sweeps[point].children == sweeps[0].children,
        sweeps[point].next <= sweeps[0].children@.len(),
        sweeps[point].phase is Swept ==> sweeps[point].next == sweeps[0].children@.len(),
        sweeps[point].phase is Read || sweeps[point].phase is Start ==> sweeps[point].next
            < sweeps[0].children@.len(),
        sweeps[point].phase matches ChildSweepPhase::Start(start) ==> {
            let child = sweeps[0].children@[sweeps[point].next as int];
            &&& starts_child(start, child)
            &&& history_in(stores[point], child.child_workflow_id).len() == 0
        },
        forall|id: WorkflowId| #[trigger]
            kept_or_started(stores[0], stores[point], sweeps[0].children@, id),
        forall|i: int|
            0 <= i < sweeps[point].next ==> history_in(
                stores[point],
                (#[trigger] sweeps[0].children@[i]).child_workflow_id,
            ).len() > 0,
    decreases point,
{
    if point > 0 {
        let before = point - 1;
        lemma_child_sweep_on(sweeps, replies, stores, before);
        let prior = sweeps[before];
        let children = sweeps[0].children@;
        let id = children[prior.next as int].child_workflow_id;
        assert(prior.goes_to(replies[before], sweeps[before + 1]));
        assert(child_step_on(prior, replies[before], stores[before], stores[before + 1]));
        if stores[point] != stores[before] {
            let start = prior.phase->Start_0;
            let records = choose|records: Seq<Event>| #[trigger]
                records_start(records, start, id) && stores[point] == stores[before].insert(
                    id,
                    history_in(stores[before], id) + records,
                );
            assert(history_in(stores[before], id) + records =~= records);
            assert(history_in(stores[point], id) == records);
            assert(kept_or_started(stores[0], stores[before], children, id));
            assert(records_start(history_in(stores[point], id), start, id));
            assert(children[prior.next as int].child_workflow_id == id);
            assert(started_as_recorded(children, history_in(stores[point], id), id));
            assert forall|other: WorkflowId| #[trigger]
                kept_or_started(stores[0], stores[point], children, other) by {
                assert(kept_or_started(stores[0], stores[before], children, other));
                if other != id {
                    assert(history_in(stores[point], other) == history_in(stores[before], other));
                }
            }
            assert forall|i: int| 0 <= i < sweeps[point].next implies history_in(
                stores[point],
                (#[trigger] children[i]).child_workflow_id,
            ).len() > 0 by {
                if children[i].child_workflow_id != id {
                    assert(i < prior.next);
                }
            }
        }
    }
}

/// A child sweep that ends well leaves every recorded child whose end is not reported
/// with a history: one that had none holds exactly one start, as it was recorded. Nothing
/// is appended to any other history.
pub proof fn a_child_sweep_starts_each_child_once(
    sweeps: Seq<ChildSweep>,
    replies: Seq<SweepReply>,
    stores: Seq<Map<WorkflowId, Seq<Event>>>,
    id: WorkflowId,
)
    requires
        child_sweep_on(sweeps, replies, stores),
        sweeps.last().phase is Swept,
    ensures
        if history_in(stores[0], id).len() == 0 && exists|i: int|
            0 <= i < sweeps[0].children@.len() && (
            #[trigger] sweeps[0].children@[i]).child_workflow_id == id {
            started_as_recorded(sweeps[0].children@, history_in(stores.last(), id), id)
        } else {
            history_in(stores.last(), id) == history_in(stores[0], id)
        },
{
    let end = replies.len() as int;
    let children = sweeps[0].children@;
    lemma_child_sweep_on(sweeps, replies, stores, end);
    assert(kept_or_started(stores[0], stores[end], children, id));
    if exists|i: int| 0 <= i < children.len() && (#[trigger] children[i]).child_workflow_id == id {
        let i = choose|i: int|
            0 <= i < children.len() && (#[trigger] children[i]).child_workflow_id == id;
        assert(history_in(stores[end], children[i].child_workflow_id).len() > 0);
    }
    if started_as_recorded(children, history_in(stores[end], id), id) {
        let (i, start) = choose|i: int, start: PlannedStart|
            #![trigger records_start(history_in(stores[end], id), start, id), children[i]]
            0 <= i < children.len() && children[i].child_workflow_id == id && starts_child(
                start,
                children[i],
            ) && records_start(history_in(stores[end], id), start, id);
        assert(children[i].child_workflow_id == id);
    }
}

/// A child sweep over children that all have histories asks for no start.
proof fn lemma_every_child_exists(
    sweeps: Seq<ChildSweep>,
    replies: Seq<SweepReply>,
    stores: Seq<Map<WorkflowId, Seq<Event>>>,
    point: int,
)
    requires
        child_sweep_on(sweeps, replies, stores),
        forall|i: int|
            0 <= i < sweeps[0].children@.len() ==> history_in(
                stores[0],
                (#[trigger] sweeps[0].children@[i]).child_workflow_id,
            ).len() > 0,
        0 <= point < sweeps.len(),
    ensures
        !(sweeps[point].phase is Start),
        stores[point] == stores[0],
    decreases point,
{
    if point > 0 {
        let before = point - 1;
        lemma_every_child_exists(sweeps, replies, stores, before);
        lemma_child_sweep_on(sweeps, replies, stores, before);
        assert(sweeps[before].goes_to(replies[before], sweeps[before + 1]));
        assert(child_step_on(sweeps[before], replies[before], stores[before], stores[before + 1]));
        if sweeps[before].phase is Read {
            let child = sweeps[0].children@[sweeps[before].next as int];
            assert(history_in(stores[0], child.child_workflow_id).len() > 0);
        }
    }
}

/// Child sweeps are idempotent: where the sweep of a parent has ended well, a second one
/// over the same children starts nothing and leaves the store as it is.
pub proof fn a_second_child_sweep_starts_nothing(
    sweeps: Seq<ChildSweep>,
    replies: Seq<SweepReply>,
    stores: Seq<Map<WorkflowId, Seq<Event>>>,
    later_sweeps: Seq<ChildSweep>,
    later_replies: Seq<SweepReply>,
    later_stores: Seq<Map<WorkflowId, Seq<Event>>>,
)
    requires
        child_sweep_on(sweeps, replies, stores),
        sweeps.last().phase is Swept,
        child_sweep_on(later_sweeps, later_replies, later_stores),
        later_stores[0] == stores.last(),
        later_sweeps[0].children@ == sweeps[0].children@,
    ensures
        forall|i: int| 0 <= i < later_sweeps.len() ==> !((#[trigger] later_sweeps[i]).phase is Start),
        later_stores.last() == later_stores[0],
{
    lemma_child_sweep_on(sweeps, replies, stores, replies.len() as int);
    assert forall|i: int| 0 <= i < later_sweeps.len() implies !((
    #[trigger] later_sweeps[i]).phase is Start) by {
        lemma_every_child_exists(later_sweeps, later_replies, later_stores, i);
    }
    lemma_every_child_exists(
        later_sweeps,
        later_replies,
        later_stores,
        later_replies.len() as int,
    );
}

} // verus!
