//! Visibility projection of workflow lifecycle state.

use vstd::prelude::*;
use vstd::string::*;

use crate::clock::Timestamp;
use crate::error::{is_load_error, load_error, EngineError};
use crate::event::{
    ended, envelope_of, Event, SearchAttribute, SearchAttributeValue, WorkflowStatus,
};
use crate::history::{
    begins_run, current_lease_terminal, first_where, lease_terminal, lemma_first_where_is,
    status_from_events, status_is_terminal_exactly_when_the_lease_ended, status_of,
};
use crate::ids::{RunId, WorkflowId};
use crate::table::{lemma_entry_map, position_of, Table};

verus! {

/// What a failed history shows of its failure.
#[derive(Debug, PartialEq, Eq)]
pub struct FailureProjection {
    /// The step that failed, where one did.
    pub failed_step: Option<String>,
    /// Why, where it is known.
    pub failure_reason: Option<String>,
}

/// The visibility row of a workflow execution.
#[derive(Debug)]
pub struct VisibilityRecord {
    /// The workflow.
    pub workflow_id: WorkflowId,
    /// The run.
    pub run_id: RunId,
    /// Logical workflow type.
    pub workflow_type: String,
    /// Projected status.
    pub status: WorkflowStatus,
    /// When the workflow started.
    pub start_time: Timestamp,
    /// When its current lease ended, where it has.
    pub close_time: Option<Timestamp>,
    /// What is shown of its failure.
    pub failure: FailureProjection,
    /// Its search attributes.
    pub search_attributes: Table<String, SearchAttributeValue>,
}

/// The value of a search attribute.
pub enum AttributeView {
    /// A text.
    Text(Seq<char>),
    /// A whole number.
    Number(i64),
    /// A value of another kind, encoded.
    Other(Seq<char>),
}

impl View for SearchAttributeValue {
    type V = AttributeView;

    open spec fn view(&self) -> AttributeView {
        match self {
            SearchAttributeValue::String(text) => AttributeView::Text(text@),
            SearchAttributeValue::Int(number) => AttributeView::Number(*number),
            SearchAttributeValue::Other(encoded) => AttributeView::Other(encoded@),
        }
    }
}

/// The text of an optional string.
pub open spec fn optional_text(text: Option<String>) -> Option<Seq<char>> {
    match text {
        Some(text) => Some(text@),
        None => None,
    }
}

/// What a visibility row says.
pub struct VisibilityView {
    /// The workflow.
    pub workflow_id: WorkflowId,
    /// The run.
    pub run_id: RunId,
    /// Logical workflow type.
    pub workflow_type: Seq<char>,
    /// Projected status.
    pub status: WorkflowStatus,
    /// When the workflow started.
    pub start_time: Timestamp,
    /// When its current lease ended, where it has.
    pub close_time: Option<Timestamp>,
    /// The step that failed, where one did.
    pub failed_step: Option<Seq<char>>,
    /// Why, where it is known.
    pub failure_reason: Option<Seq<char>>,
    /// Its search attributes.
    pub search_attributes: Map<Seq<char>, AttributeView>,
}

/// The attributes of a table.
pub open spec fn attribute_views(attributes: Map<Seq<char>, SearchAttributeValue>) -> Map<
    Seq<char>,
    AttributeView,
> {
    attributes.map_values(|value: SearchAttributeValue| value@)
}

impl View for VisibilityRecord {
    type V = VisibilityView;

    open spec fn view(&self) -> VisibilityView {
        VisibilityView {
            workflow_id: self.workflow_id,
            run_id: self.run_id,
            workflow_type: self.workflow_type@,
            status: self.status,
            start_time: self.start_time,
            close_time: self.close_time,
            failed_step: optional_text(self.failure.failed_step),
            failure_reason: optional_text(self.failure.failure_reason),
            search_attributes: attribute_views(self.search_attributes@),
        }
    }
}

/// The start that a history projects from, if it has one.
pub open spec fn first_start(history: Seq<Event>) -> Option<Event> {
    let start = first_where(history, |event: Event| begins_run(event));
    if start < history.len() {
        Some(history[start])
    } else {
        None
    }
}

/// What a history without a start is answered.
pub open spec fn unprojectable_text() -> Seq<char> {
    "workflow history has no WorkflowStarted event for visibility projection"@
}

/// The first start of a history.
fn find_first_start(history: &[Event]) -> (start: Option<usize>)
    ensures
        match start {
            Some(i) => i < history@.len() && first_start(history@) == Some(history@[i as int])
                && begins_run(history@[i as int]),
            None => first_start(history@) is None,
        },
{
    let ghost begins = |event: Event| begins_run(event);
    let mut i: usize = 0;
    while i < history.len()
        invariant
            0 <= i <= history@.len(),
            begins == (|event: Event| begins_run(event)),
            forall|j: int| 0 <= j < i ==> !begins_run(#[trigger] history@[j]),
        decreases history.len() - i,
    {
        if matches!(&history[i], Event::WorkflowStarted { .. }) {
            proof {
                lemma_first_where_is(history@, begins, i as int);
            }
            return Some(i);
        }
        i = i + 1;
    }
    proof {
        lemma_first_where_is(history@, begins, history@.len() as int);
    }
    None
}

/// The workflow, its type and its start, as a history projects them.
///
/// # Errors
///
/// [`EngineError::Load`] when the history has no `WorkflowStarted` event.
pub fn started_projection(history: &[Event]) -> (result: Result<
    (WorkflowId, String, Timestamp),
    EngineError,
>)
    ensures
        match first_start(history@) {
            Some(start) => result matches Ok((workflow_id, workflow_type, start_time))
                && workflow_id == envelope_of(start).workflow_id && workflow_type
                == start->WorkflowStarted_workflow_type && start_time == envelope_of(
                start,
            ).recorded_at,
            None => result matches Err(error) && is_load_error(error, unprojectable_text()),
        },
{
    if let Some(i) = find_first_start(history) {
        match &history[i] {
            Event::WorkflowStarted { envelope, workflow_type, .. } => {
                return Ok((envelope.workflow_id, workflow_type.clone(), envelope.recorded_at));
            },
            _ => {},
        }
    }
    Err(
        load_error(
            "workflow history has no WorkflowStarted event for visibility projection".to_owned(),
        ),
    )
}

/// The run that a history starts with.
///
/// # Errors
///
/// [`EngineError::Load`] when the history has no `WorkflowStarted` event.
pub fn started_run_id(history: &[Event]) -> (result: Result<RunId, EngineError>)
    ensures
        match first_start(history@) {
            Some(start) => result == Ok::<RunId, EngineError>(start->WorkflowStarted_run_id),
            None => result matches Err(error) && is_load_error(error, unprojectable_text()),
        },
{
    if let Some(i) = find_first_start(history) {
        match &history[i] {
            Event::WorkflowStarted { run_id, .. } => {
                return Ok(*run_id);
            },
            _ => {},
        }
    }
    Err(
        load_error(
            "workflow history has no WorkflowStarted event for visibility projection".to_owned(),
        ),
    )
}

/// When the current lease ended.
pub open spec fn closed_at(history: Seq<Event>) -> Option<Timestamp> {
    match lease_terminal(history) {
        Some(event) => Some(envelope_of(event).recorded_at),
        None => None,
    }
}

/// When the current lease ended. A reopened workflow has no close time.
pub fn terminal_recorded_at(history: &[Event]) -> (at: Option<Timestamp>)
    ensures
        at == closed_at(history@),
{
    match current_lease_terminal(history) {
        Some(event) => Some(event.envelope().recorded_at),
        None => None,
    }
}

/// Attributes set on top of others, in their order.
pub open spec fn attributes_set(
    base: Map<Seq<char>, AttributeView>,
    attributes: Seq<SearchAttribute>,
) -> Map<Seq<char>, AttributeView>
    decreases attributes.len(),
{
    if attributes.len() == 0 {
        base
    } else {
        attributes_set(base, attributes.drop_last()).insert(
            attributes.last().name@,
            attributes.last().value@,
        )
    }
}

/// The search attributes that a history projects: a later update wins.
pub open spec fn attributes_of(history: Seq<Event>) -> Map<Seq<char>, AttributeView>
    decreases history.len(),
{
    if history.len() == 0 {
        Map::empty()
    } else {
        let before = attributes_of(history.drop_last());
        match history.last() {
            Event::SearchAttributesUpdated { attributes, .. } => attributes_set(before, attributes@),
            _ => before,
        }
    }
}

/// Sets attributes on top of those in a table.
fn set_attributes(
    table: &mut Table<String, SearchAttributeValue>,
    attributes: &Vec<SearchAttribute>,
)
    requires
        old(table).wf(),
    ensures
        final(table).wf(),
        attribute_views(final(table)@) == attributes_set(
            attribute_views(old(table)@),
            attributes@,
        ),
{
    let ghost base = attribute_views(table@);
    let mut i: usize = 0;
    proof {
        assert(attributes@.take(0) =~= Seq::empty());
    }
    while i < attributes.len()
        invariant
            table.wf(),
            0 <= i <= attributes@.len(),
            attribute_views(table@) == attributes_set(base, attributes@.take(i as int)),
        decreases attributes.len() - i,
    {
        let ghost before = table@;
        proof {
            assert(attributes@.take(i + 1).drop_last() =~= attributes@.take(i as int));
            assert(attributes@.take(i + 1).last() == attributes@[i as int]);
        }
        table.insert(attributes[i].name.clone(), attributes[i].value.clone());
        proof {
            assert(attribute_views(table@) =~= attribute_views(before).insert(
                attributes@[i as int].name@,
                attributes@[i as int].value@,
            ));
        }
        i = i + 1;
    }
    proof {
        assert(attributes@.take(i as int) =~= attributes@);
    }
}

/// The search attributes that a history projects: a later update wins.
pub fn search_attributes_from_events(history: &[Event]) -> (attributes: Table<
    String,
    SearchAttributeValue,
>)
    ensures
        attributes.wf(),
        attribute_views(attributes@) == attributes_of(history@),
{
    let mut table: Table<String, SearchAttributeValue> = Table::new();
    let mut i: usize = 0;
    proof {
        assert(history@.take(0) =~= Seq::empty());
        assert(attribute_views(table@) =~= Map::empty());
    }
    while i < history.len()
        invariant
            table.wf(),
            0 <= i <= history@.len(),
            attribute_views(table@) == attributes_of(history@.take(i as int)),
        decreases history.len() - i,
    {
        proof {
            assert(history@.take(i + 1).drop_last() =~= history@.take(i as int));
            assert(history@.take(i + 1).last() == history@[i as int]);
        }
        match &history[i] {
            Event::SearchAttributesUpdated { attributes, .. } => {
                set_attributes(&mut table, attributes);
            },
            _ => {},
        }
        i = i + 1;
    }
    proof {
        assert(history@.take(i as int) =~= history@);
    }
    table
}

/// What a history says of a run in the visibility projection.
pub open spec fn visibility_of(
    history: Seq<Event>,
    run: RunId,
    failure: FailureProjection,
) -> VisibilityView
    recommends
        first_start(history) is Some,
{
    let start = first_start(history)->Some_0;
    VisibilityView {
        workflow_id: envelope_of(start).workflow_id,
        run_id: run,
        workflow_type: start->WorkflowStarted_workflow_type@,
        status: status_of(history),
        start_time: envelope_of(start).recorded_at,
        close_time: closed_at(history),
        failed_step: optional_text(failure.failed_step),
        failure_reason: optional_text(failure.failure_reason),
        search_attributes: attributes_of(history),
    }
}

/// The visibility row of a run, rebuilt from its history and from what is shown of its
/// failure.
///
/// # Errors
///
/// [`EngineError::Load`] when the history has no `WorkflowStarted` event.
pub fn visibility_record_from_history(
    history: &[Event],
    run_id: &RunId,
    failure: FailureProjection,
) -> (result: Result<VisibilityRecord, EngineError>)
    ensures
        match result {
            Ok(record) => first_start(history@) is Some && record@ == visibility_of(
                history@,
                *run_id,
                failure,
            ) && record.search_attributes.wf(),
            Err(error) => first_start(history@) is None && is_load_error(
                error,
                unprojectable_text(),
            ),
        },
{
    match started_projection(history) {
        Ok((workflow_id, workflow_type, start_time)) => Ok(
            VisibilityRecord {
                workflow_id,
                run_id: *run_id,
                workflow_type,
                status: status_from_events(history),
                start_time,
                close_time: terminal_recorded_at(history),
                failure,
                search_attributes: search_attributes_from_events(history),
            },
        ),
        Err(error) => Err(error),
    }
}

/// A run is shown as closed exactly when its status is terminal.
pub proof fn closed_exactly_when_terminal(
    history: Seq<Event>,
    run: RunId,
    failure: FailureProjection,
)
    ensures
        ({
            let row = visibility_of(history, run, failure);
            row.close_time is Some <==> ended(row.status)
        }),
{
    status_is_terminal_exactly_when_the_lease_ended(history);
}

/// Whether two optional texts are the same.
fn same_optional_text(a: &Option<String>, b: &Option<String>) -> (same: bool)
    ensures
        same == (optional_text(*a) == optional_text(*b)),
{
    match (a, b) {
        (Some(a), Some(b)) => *a == *b,
        (None, None) => true,
        _ => false,
    }
}

/// Whether two attribute values are the same.
fn same_value(a: &SearchAttributeValue, b: &SearchAttributeValue) -> (same: bool)
    ensures
        same == (a@ == b@),
{
    match (a, b) {
        (SearchAttributeValue::String(a), SearchAttributeValue::String(b)) => *a == *b,
        (SearchAttributeValue::Int(a), SearchAttributeValue::Int(b)) => *a == *b,
        (SearchAttributeValue::Other(a), SearchAttributeValue::Other(b)) => *a == *b,
        _ => false,
    }
}

/// Every attribute of one map is in another with the same value.
pub open spec fn within(
    a: Map<Seq<char>, SearchAttributeValue>,
    b: Map<Seq<char>, SearchAttributeValue>,
) -> bool {
    forall|name: Seq<char>| #[trigger]
        a.contains_key(name) ==> b.contains_key(name) && a[name]@ == b[name]@
}

/// Whether every attribute of one table is in another with the same value.
fn holds_attributes(
    a: &Table<String, SearchAttributeValue>,
    b: &Table<String, SearchAttributeValue>,
) -> (holds: bool)
    requires
        a.wf(),
        b.wf(),
    ensures
        holds == within(a@, b@),
{
    proof {
        lemma_entry_map(a.entries());
    }
    let mut i: usize = 0;
    while i < a.len()
        invariant
            a.wf(),
            b.wf(),
            0 <= i <= a.entries().len(),
            forall|j: int|
                0 <= j < a.entries().len() ==> a@.contains_key((#[trigger] a.entries()[j]).0@)
                    && a@[a.entries()[j].0@] == a.entries()[j].1,
            forall|j: int|
                0 <= j < i ==> b@.contains_key((#[trigger] a.entries()[j]).0@)
                    && a.entries()[j].1@ == b@[a.entries()[j].0@]@,
        decreases a.entries().len() - i,
    {
        let entry = a.entry(i);
        let matching = match b.get(&entry.0) {
            Some(value) => same_value(&entry.1, value),
            None => false,
        };
        if !matching {
            assert(a@.contains_key(a.entries()[i as int].0@));
            return false;
        }
        i = i + 1;
    }
    proof {
        assert forall|name: Seq<char>| #[trigger] a@.contains_key(name) implies b@.contains_key(
            name,
        ) && a@[name]@ == b@[name]@ by {
            let p = position_of(a.entries(), name);
            assert(a.entries()[p].0@ == name);
        }
    }
    true
}

impl VisibilityRecord {
    /// Whether two rows say the same.
    pub fn same(&self, other: &VisibilityRecord) -> (same: bool)
        requires
            self.search_attributes.wf(),
            other.search_attributes.wf(),
        ensures
            same == (self@ == other@),
    {
        let attributes = holds_attributes(&self.search_attributes, &other.search_attributes)
            && holds_attributes(&other.search_attributes, &self.search_attributes);
        proof {
            let a = self.search_attributes@;
            let b = other.search_attributes@;
            if attributes {
                assert(attribute_views(a) =~= attribute_views(b)) by {
                    assert forall|name: Seq<char>| a.contains_key(name) <==> b.contains_key(
                        name,
                    ) by {}
                    assert forall|name: Seq<char>| a.contains_key(name) implies a[name]@
                        == b[name]@ by {}
                }
            }
            if attribute_views(a) == attribute_views(b) {
                assert forall|name: Seq<char>| #[trigger] a.contains_key(name) implies b.contains_key(
                    name,
                ) && a[name]@ == b[name]@ by {
                    assert(attribute_views(a).contains_key(name));
                    assert(attribute_views(a)[name] == attribute_views(b)[name]);
                }
                assert forall|name: Seq<char>| #[trigger] b.contains_key(name) implies a.contains_key(
                    name,
                ) && b[name]@ == a[name]@ by {
                    assert(attribute_views(b).contains_key(name));
                    assert(attribute_views(a)[name] == attribute_views(b)[name]);
                }
            }
        }
        let close_times = match (&self.close_time, &other.close_time) {
            (Some(a), Some(b)) => *a == *b,
            (None, None) => true,
            _ => false,
        };
        self.workflow_id == other.workflow_id && self.run_id == other.run_id && self.workflow_type
            == other.workflow_type && self.status == other.status && self.start_time
            == other.start_time && close_times && same_optional_text(
            &self.failure.failed_step,
            &other.failure.failed_step,
        ) && same_optional_text(&self.failure.failure_reason, &other.failure.failure_reason)
            && attributes
    }
}

/// The row that a visibility store holds for a run: the last one listed.
pub open spec fn row_of(rows: Seq<VisibilityRecord>, id: WorkflowId, run: RunId) -> Option<
    VisibilityView,
>
    decreases rows.len(),
{
    if rows.len() == 0 {
        None
    } else if rows.last().workflow_id == id && rows.last().run_id == run {
        Some(rows.last()@)
    } else {
        row_of(rows.drop_last(), id, run)
    }
}

/// Every row's attributes are well formed.
pub open spec fn rows_wf(rows: Seq<VisibilityRecord>) -> bool {
    forall|i: int| 0 <= i < rows.len() ==> (#[trigger] rows[i]).search_attributes.wf()
}

/// Whether the rows already show a record.
fn shows(rows: &Vec<VisibilityRecord>, record: &VisibilityRecord) -> (shown: bool)
    requires
        rows_wf(rows@),
        record.search_attributes.wf(),
    ensures
        shown == (row_of(rows@, record.workflow_id, record.run_id) == Some(record@)),
{
    let mut i: usize = rows.len();
    proof {
        assert(rows@.take(i as int) =~= rows@);
    }
    while i > 0
        invariant
            rows_wf(rows@),
            record.search_attributes.wf(),
            0 <= i <= rows@.len(),
            row_of(rows@, record.workflow_id, record.run_id) == row_of(
                rows@.take(i as int),
                record.workflow_id,
                record.run_id,
            ),
        decreases i,
    {
        proof {
            assert(rows@.take(i as int).drop_last() =~= rows@.take(i - 1));
            assert(rows@.take(i as int).last() == rows@[i - 1]);
        }
        let row = &rows[i - 1];
        if row.workflow_id == record.workflow_id && row.run_id == record.run_id {
            return row.same(record);
        }
        i = i - 1;
    }
    false
}

/// Decides whether the visibility row of a workflow has to be rewritten: only where it
/// differs from what authoritative history projects.
///
/// # Errors
///
/// [`EngineError::Load`] when the history has no `WorkflowStarted` event.
pub fn reconcile_visibility(
    rows: &Vec<VisibilityRecord>,
    history: &[Event],
    failure: FailureProjection,
) -> (result: Result<Option<VisibilityRecord>, EngineError>)
    requires
        rows_wf(rows@),
    ensures
        match first_start(history@) {
            Some(start) => {
                let run = start->WorkflowStarted_run_id;
                let projected = visibility_of(history@, run, failure);
                &&& result matches Ok(rewritten)
                &&& match rewritten {
                    Some(record) => record@ == projected && row_of(
                        rows@,
                        projected.workflow_id,
                        run,
                    ) != Some(projected),
                    None => row_of(rows@, projected.workflow_id, run) == Some(projected),
                }
            },
            None => result matches Err(error) && is_load_error(error, unprojectable_text()),
        },
{
    let run_id = match started_run_id(history) {
        Ok(run_id) => run_id,
        Err(error) => {
            return Err(error);
        },
    };
    match visibility_record_from_history(history, &run_id, failure) {
        Ok(record) => {
            if shows(rows, &record) {
                Ok(None)
            } else {
                Ok(Some(record))
            }
        },
        Err(error) => Err(error),
    }
}

/// A row that was rewritten is up to date: the same history does not have it rewritten
/// again.
pub proof fn a_rewritten_row_is_up_to_date(rows: Seq<VisibilityRecord>, record: VisibilityRecord)
    ensures
        row_of(rows.push(record), record.workflow_id, record.run_id) == Some(record@),
{
    assert(rows.push(record).last() == record);
}

} // verus!
