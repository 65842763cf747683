//! What a visibility row shows, told from the events of its history.

use vstd::prelude::*;

use crate::event::{Event, SearchAttribute, SearchAttributeValue};
use crate::history::{begins_run, ends_run, lemma_first_where_is, opens_lease, status_of};
use crate::history::lemma_last_where_is;
use crate::history_laws::{an_event_carries_its_own_envelope, turns};
use crate::ids::{RunId, WorkflowId};
use crate::lifecycle::visibility::{
    attributes_of, attributes_set, closed_at, first_start, optional_text, row_of, visibility_of,
    AttributeView, FailureProjection, VisibilityRecord,
};

verus! {

/// What one update does to a name: its last attribute of that name sets it, and without one
/// the name is as it was.
proof fn lemma_attributes_set(
    base: Map<Seq<char>, AttributeView>,
    attributes: Seq<SearchAttribute>,
    name: Seq<char>,
    at: int,
)
    ensures
        0 <= at < attributes.len() && attributes[at].name@ == name && (forall|m: int|
            at < m < attributes.len() ==> (#[trigger] attributes[m]).name@ != name)
            ==> attributes_set(base, attributes).contains_key(name) && attributes_set(
            base,
            attributes,
        )[name] == attributes[at].value@,
        (forall|m: int| 0 <= m < attributes.len() ==> (#[trigger] attributes[m]).name@ != name)
            ==> {
            &&& attributes_set(base, attributes).contains_key(name) == base.contains_key(name)
            &&& base.contains_key(name) ==> attributes_set(base, attributes)[name] == base[name]
        },
    decreases attributes.len(),
{
    if attributes.len() > 0 {
        let shorter = attributes.drop_last();
        lemma_attributes_set(base, shorter, name, at);
        let last = attributes.len() - 1;
        assert(attributes[last] == attributes.last());
        assert forall|m: int| 0 <= m < shorter.len() implies #[trigger] shorter[m]
            == attributes[m] by {}
    }
}

/// The event is an update that lists a name.
pub open spec fn names(event: Event, name: Seq<char>) -> bool {
    event matches Event::SearchAttributesUpdated { attributes, .. } && exists|m: int|
        0 <= m < attributes@.len() && (#[trigger] attributes@[m]).name@ == name
}

/// An event that does not list a name leaves what is projected of it as it was: only an
/// update changes the projection, and only at the names that it lists.
pub proof fn an_update_changes_only_the_names_it_lists(
    history: Seq<Event>,
    event: Event,
    name: Seq<char>,
)
    requires
        !names(event, name),
    ensures
        attributes_of(history.push(event)).contains_key(name) == attributes_of(
            history,
        ).contains_key(name),
        attributes_of(history).contains_key(name) ==> attributes_of(history.push(event))[name]
            == attributes_of(history)[name],
{
    assert(history.push(event).drop_last() =~= history);
    assert(history.push(event).last() == event);
    match event {
        Event::SearchAttributesUpdated { attributes, .. } => {
            assert forall|m: int| 0 <= m < attributes@.len() implies (
            #[trigger] attributes@[m]).name@ != name by {}
            lemma_attributes_set(attributes_of(history), attributes@, name, 0);
        },
        _ => {},
    }
}

/// An attribute that some update sets, and that no later attribute names, is projected with
/// the value that was set, whatever else was recorded before or after it.
pub proof fn the_value_that_was_set_last_is_projected(
    history: Seq<Event>,
    update: int,
    at: int,
    name: Seq<char>,
)
    requires
        0 <= update < history.len(),
        history[update] is SearchAttributesUpdated,
        0 <= at < history[update]->attributes@.len(),
        history[update]->attributes@[at].name@ == name,
        forall|m: int|
            at < m < history[update]->attributes@.len() ==> (
            #[trigger] history[update]->attributes@[m]).name@ != name,
        forall|j: int| update < j < history.len() ==> !names(#[trigger] history[j], name),
    ensures
        attributes_of(history).contains_key(name),
        attributes_of(history)[name] == history[update]->attributes@[at].value@,
    decreases history.len(),
{
    let last = history.len() - 1;
    let shorter = history.drop_last();
    assert(history =~= shorter.push(history.last()));
    if update == last {
        lemma_attributes_set(
            attributes_of(shorter),
            history[update]->attributes@,
            name,
            at,
        );
    } else {
        assert(shorter[update] == history[update]);
        assert forall|j: int| update < j < shorter.len() implies !names(
            #[trigger] shorter[j],
            name,
        ) by {
            assert(shorter[j] == history[j]);
        }
        the_value_that_was_set_last_is_projected(shorter, update, at, name);
        assert(!names(history[last], name));
        an_update_changes_only_the_names_it_lists(shorter, history.last(), name);
    }
}

/// A name that no update lists is not projected.
pub proof fn a_name_that_was_never_set_is_not_projected(history: Seq<Event>, name: Seq<char>)
    requires
        forall|j: int| 0 <= j < history.len() ==> !names(#[trigger] history[j], name),
    ensures
        !attributes_of(history).contains_key(name),
    decreases history.len(),
{
    if history.len() > 0 {
        let shorter = history.drop_last();
        assert(history =~= shorter.push(history.last()));
        assert forall|j: int| 0 <= j < shorter.len() implies !names(#[trigger] shorter[j], name) by {
            assert(shorter[j] == history[j]);
        }
        a_name_that_was_never_set_is_not_projected(shorter, name);
        assert(!names(history[history.len() - 1], name));
        an_update_changes_only_the_names_it_lists(shorter, history.last(), name);
    }
}

/// A row shows the workflow, the type and the start instant of the first start of its
/// history, the status and the attributes that the history projects, and of the run and its
/// failure what was given. A history without a start has no row.
pub proof fn a_row_shows_the_first_start(
    history: Seq<Event>,
    run: RunId,
    failure: FailureProjection,
    start: int,
)
    requires
        0 <= start <= history.len(),
        start < history.len() ==> history[start] is WorkflowStarted,
        forall|j: int| 0 <= j < start ==> !((#[trigger] history[j]) is WorkflowStarted),
    ensures
        start == history.len() ==> first_start(history) is None,
        start < history.len() ==> {
            let row = visibility_of(history, run, failure);
            &&& first_start(history) == Some(history[start])
            &&& history[start] matches Event::WorkflowStarted { envelope, workflow_type, .. }
            &&& row.workflow_id == envelope.workflow_id
            &&& row.workflow_type == workflow_type@
            &&& row.start_time == envelope.recorded_at
            &&& row.run_id == run
            &&& row.status == status_of(history)
            &&& row.search_attributes == attributes_of(history)
            &&& row.close_time == closed_at(history)
            &&& row.failed_step == optional_text(failure.failed_step)
            &&& row.failure_reason == optional_text(failure.failure_reason)
        },
{
    lemma_first_where_is(history, |event: Event| begins_run(event), start);
    if start < history.len() {
        an_event_carries_its_own_envelope(history[start]);
    }
}

/// A history was closed when its last terminal event was recorded, unless a start or a
/// reopen came after it.
pub proof fn a_row_closes_with_its_last_terminal(history: Seq<Event>, turn: int)
    requires
        -1 <= turn < history.len(),
        turn >= 0 ==> turns(history[turn]) || history[turn] is WorkflowStarted,
        forall|i: int|
            turn < i < history.len() ==> !turns(#[trigger] history[i]) && !(history[i]
                is WorkflowStarted),
    ensures
        turn < 0 ==> closed_at(history) is None,
        turn >= 0 ==> match history[turn] {
            Event::WorkflowCompleted { envelope, .. } => closed_at(history) == Some(
                envelope.recorded_at,
            ),
            Event::WorkflowFailed { envelope, .. } => closed_at(history) == Some(
                envelope.recorded_at,
            ),
            Event::WorkflowCancelled { envelope, .. } => closed_at(history) == Some(
                envelope.recorded_at,
            ),
            Event::WorkflowTimedOut { envelope, .. } => closed_at(history) == Some(
                envelope.recorded_at,
            ),
            Event::WorkflowContinuedAsNew { envelope, .. } => closed_at(history) == Some(
                envelope.recorded_at,
            ),
            _ => closed_at(history) is None,
        },
{
    let marks = |event: Event| opens_lease(event) || ends_run(event);
    lemma_last_where_is(history, marks, turn);
    if turn >= 0 {
        an_event_carries_its_own_envelope(history[turn]);
    }
}

/// Attribute values are told apart by their kind and by what they hold.
pub proof fn attribute_values_are_told_apart(a: SearchAttributeValue, b: SearchAttributeValue)
    requires
        a@ == b@,
    ensures
        a matches SearchAttributeValue::String(text) ==> (b matches SearchAttributeValue::String(
            other,
        ) && other@ == text@),
        a matches SearchAttributeValue::Int(number) ==> b == SearchAttributeValue::Int(number),
        a matches SearchAttributeValue::Other(text) ==> (b matches SearchAttributeValue::Other(
            other,
        ) && other@ == text@),
{
}

/// Rows that differ in anything that they show are told apart.
pub proof fn rows_that_differ_are_told_apart(
    a: VisibilityRecord,
    b: VisibilityRecord,
    name: Seq<char>,
)
    requires
        a@ == b@,
    ensures
        a.workflow_id == b.workflow_id,
        a.run_id == b.run_id,
        a.workflow_type@ == b.workflow_type@,
        a.status == b.status,
        a.start_time == b.start_time,
        a.close_time == b.close_time,
        a.failure.failed_step matches Some(step) ==> (b.failure.failed_step matches Some(other)
            && other@ == step@),
        a.failure.failed_step is None ==> b.failure.failed_step is None,
        a.failure.failure_reason matches Some(reason) ==> (b.failure.failure_reason matches Some(
            other,
        ) && other@ == reason@),
        a.failure.failure_reason is None ==> b.failure.failure_reason is None,
        a.search_attributes@.contains_key(name) == b.search_attributes@.contains_key(name),
        a.search_attributes@.contains_key(name) ==> a.search_attributes@[name]@
            == b.search_attributes@[name]@,
{
    let (shown, other) = (a@.search_attributes, b@.search_attributes);
    assert(shown.contains_key(name) == a.search_attributes@.contains_key(name));
    assert(other.contains_key(name) == b.search_attributes@.contains_key(name));
    if shown.contains_key(name) {
        assert(shown[name] == a.search_attributes@[name]@);
        assert(other[name] == b.search_attributes@[name]@);
    }
}

/// The row that counts for a run is the last one listed for it, and there is none where
/// none is listed.
pub proof fn the_last_row_of_a_run_counts(
    rows: Seq<VisibilityRecord>,
    id: WorkflowId,
    run: RunId,
    at: int,
)
    requires
        -1 <= at < rows.len(),
        at >= 0 ==> rows[at].workflow_id == id && rows[at].run_id == run,
        forall|j: int|
            at < j < rows.len() ==> !((#[trigger] rows[j]).workflow_id == id && rows[j].run_id
                == run),
    ensures
        at >= 0 ==> row_of(rows, id, run) == Some(rows[at]@),
        at < 0 ==> row_of(rows, id, run) is None,
    decreases rows.len(),
{
    if rows.len() > 0 && at < rows.len() - 1 {
        let shorter = rows.drop_last();
        assert forall|j: int| at < j < shorter.len() implies !((
        #[trigger] shorter[j]).workflow_id == id && shorter[j].run_id == run) by {
            assert(shorter[j] == rows[j]);
        }
        the_last_row_of_a_run_counts(shorter, id, run, at);
        assert(rows[rows.len() - 1] == rows.last());
    }
}

} // verus!
