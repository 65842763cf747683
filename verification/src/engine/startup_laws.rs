//! What recovery makes of a history: identity, type and namespace of what comes back.

use vstd::prelude::*;

use crate::content_hash::ContentHash;
use crate::engine::api_schedule::{COORDINATOR_RUN, COORDINATOR_WORKFLOW};
use crate::engine::startup::{
    attribute_named, coordinates_schedules, namespace_of, namespace_set_by, recovered_run,
    recovered_type, RecoveryPhase, RecoveryRun, RecoveryStep, RegistrationPhase, RegistrationRun,
    RepopulatePhase, RepopulateReply, RepopulateRun,
};
use crate::error::EngineError;
use crate::event::{envelope_of, Event, SearchAttribute, SearchAttributeValue, WorkflowStatus};
use crate::history::{begins_run, lemma_first_where_is, status_of};
use crate::ids::{RunId, WorkflowId};
use crate::lifecycle::reopen::ActiveWorkflowRecovery;
use crate::lifecycle::reopen_laws::the_first_start_names_the_type;

verus! {

/// The last attribute of some name decides, wherever it stands.
proof fn lemma_attribute_named(attributes: Seq<SearchAttribute>, name: Seq<char>, at: int)
    ensures
        0 <= at < attributes.len() && attributes[at].name@ == name && (forall|m: int|
            at < m < attributes.len() ==> (#[trigger] attributes[m]).name@ != name)
            ==> attribute_named(attributes, name) == Some(attributes[at].value),
        (forall|m: int| 0 <= m < attributes.len() ==> (#[trigger] attributes[m]).name@ != name)
            ==> attribute_named(attributes, name) is None,
    decreases attributes.len(),
{
    if attributes.len() > 0 {
        let shorter = attributes.drop_last();
        lemma_attribute_named(shorter, name, at);
        let last = attributes.len() - 1;
        assert(attributes[last] == attributes.last());
        assert forall|m: int| 0 <= m < shorter.len() implies #[trigger] shorter[m]
            == attributes[m] by {}
    }
}

/// What an attribute has for a value decides nothing about another one: where an attribute
/// of another name is put among some, each name keeps its value.
pub proof fn other_attributes_do_not_matter(
    before: Seq<SearchAttribute>,
    other: SearchAttribute,
    after: Seq<SearchAttribute>,
    name: Seq<char>,
)
    requires
        other.name@ != name,
    ensures
        attribute_named(before.push(other) + after, name) == attribute_named(before + after, name),
    decreases after.len(),
{
    let with = before.push(other) + after;
    let without = before + after;
    if after.len() == 0 {
        assert(with =~= before.push(other));
        assert(without =~= before);
        assert(before.push(other).drop_last() =~= before);
    } else {
        other_attributes_do_not_matter(before, other, after.drop_last(), name);
        assert(with.drop_last() =~= before.push(other) + after.drop_last());
        assert(without.drop_last() =~= before + after.drop_last());
        assert(with.last() == after.last());
        assert(without.last() == after.last());
    }
}

/// The event records a text under the namespace's name.
pub open spec fn records_namespace(event: Event) -> bool {
    event matches Event::SearchAttributesUpdated { attributes, .. } && exists|m: int|
        0 <= m < attributes@.len() && (#[trigger] attributes@[m]).name@ == "aion.namespace"@
            && attributes@[m].value is String
}

/// An event that records no text under the namespace's name sets no namespace.
proof fn lemma_sets_no_namespace(event: Event)
    requires
        !records_namespace(event),
    ensures
        namespace_set_by(event) is None,
{
    match event {
        Event::SearchAttributesUpdated { attributes, .. } => {
            let name = "aion.namespace"@;
            if attribute_named(attributes@, name) is Some {
                let at = lemma_attribute_is_there(attributes@, name);
                assert(attributes@[at].name@ == name);
            }
        },
        _ => {},
    }
}

/// A value that is found belongs to an attribute of the name.
proof fn lemma_attribute_is_there(attributes: Seq<SearchAttribute>, name: Seq<char>) -> (at: int)
    requires
        attribute_named(attributes, name) is Some,
    ensures
        0 <= at < attributes.len(),
        attributes[at].name@ == name,
        attribute_named(attributes, name) == Some(attributes[at].value),
    decreases attributes.len(),
{
    if attributes.last().name@ == name {
        attributes.len() - 1
    } else {
        let at = lemma_attribute_is_there(attributes.drop_last(), name);
        assert(attributes[at] == attributes.drop_last()[at]);
        at
    }
}

/// A history shows the first namespace that was recorded in it: the text of the attribute
/// `aion.namespace`, wherever that stands among the attributes of its update and whatever
/// other attributes are recorded.
pub proof fn the_first_recorded_namespace_is_the_workflows(
    history: Seq<Event>,
    update: int,
    at: int,
)
    requires
        0 <= update < history.len(),
        forall|j: int| 0 <= j < update ==> !records_namespace(#[trigger] history[j]),
        history[update] is SearchAttributesUpdated,
        0 <= at < history[update]->attributes@.len(),
        history[update]->attributes@[at].name@ == "aion.namespace"@,
        history[update]->attributes@[at].value is String,
        forall|m: int|
            at < m < history[update]->attributes@.len() ==> (
            #[trigger] history[update]->attributes@[m]).name@ != "aion.namespace"@,
    ensures
        history[update]->attributes@[at].value matches SearchAttributeValue::String(namespace)
            && namespace_of(history) == namespace@,
    decreases history.len(),
{
    if update == 0 {
        lemma_attribute_named(history[0]->attributes@, "aion.namespace"@, at);
    } else {
        lemma_sets_no_namespace(history[0]);
        let rest = history.skip(1);
        assert(rest[update - 1] == history[update]);
        assert forall|j: int| 0 <= j < update - 1 implies !records_namespace(
            #[trigger] rest[j],
        ) by {
            assert(rest[j] == history[j + 1]);
        }
        the_first_recorded_namespace_is_the_workflows(rest, update - 1, at);
    }
}

/// A history in which no namespace was recorded shows `default`.
pub proof fn without_a_recorded_namespace_it_is_default(history: Seq<Event>)
    requires
        forall|j: int| 0 <= j < history.len() ==> !records_namespace(#[trigger] history[j]),
    ensures
        namespace_of(history) == "default"@,
    decreases history.len(),
{
    if history.len() > 0 {
        lemma_sets_no_namespace(history[0]);
        let rest = history.skip(1);
        assert forall|j: int| 0 <= j < rest.len() implies !records_namespace(#[trigger] rest[j]) by {
            assert(rest[j] == history[j + 1]);
        }
        without_a_recorded_namespace_it_is_default(rest);
    }
}

/// An active workflow is recovered as the type and the run that its first start recorded.
/// Without a start, the schedule coordinator has its own type and run, and every other
/// workflow has none.
pub proof fn the_first_start_gives_type_and_run(id: WorkflowId, history: Seq<Event>, start: int)
    requires
        0 <= start <= history.len(),
        start < history.len() ==> history[start] is WorkflowStarted,
        forall|j: int| 0 <= j < start ==> !((#[trigger] history[j]) is WorkflowStarted),
    ensures
        start < history.len() ==> (history[start] matches Event::WorkflowStarted {
            workflow_type,
            run_id,
            ..
        } && recovered_type(id, history) == Some(workflow_type@) && recovered_run(id, history)
            == Some(run_id)),
        start == history.len() && id.value == COORDINATOR_WORKFLOW ==> recovered_type(id, history)
            == Some("aion.schedule_coordinator"@) && recovered_run(id, history) == Some(
            RunId { value: COORDINATOR_RUN },
        ),
        start == history.len() && id.value != COORDINATOR_WORKFLOW ==> recovered_type(id, history)
            is None && recovered_run(id, history) is None,
{
    the_first_start_names_the_type(history, start);
    lemma_first_where_is(history, |event: Event| begins_run(event), start);
}

/// A workflow that is not live and whose history is running comes back under its recorded
/// identity: it is supervised and respawned as the type of its first start, and what is
/// registered is that workflow with the run, the version and the process that came back,
/// continuing after its last event.
pub proof fn a_running_workflow_comes_back_under_its_identity(
    seen: RepopulateRun,
    history: Vec<Event>,
    supervised: RepopulateRun,
    recovering: RepopulateRun,
    registering: RepopulateRun,
    start: int,
    run_id: RunId,
    loaded_version: ContentHash,
    pid: u64,
)
    requires
        seen.phase is Inspect,
        seen.next < seen.active@.len(),
        seen.active@[seen.next as int].value != COORDINATOR_WORKFLOW,
        0 <= start < history@.len(),
        history@[start] is WorkflowStarted,
        forall|j: int| 0 <= j < start ==> !((#[trigger] history@[j]) is WorkflowStarted),
        status_of(history@) == WorkflowStatus::Running,
        seen.goes_to(RepopulateReply::History(history), supervised),
        supervised.goes_to(RepopulateReply::Done, recovering),
        recovering.goes_to(
            RepopulateReply::Recovered(
                Ok(ActiveWorkflowRecovery::Resident { run_id, loaded_version, pid }),
            ),
            registering,
        ),
    ensures
        supervised.phase matches RepopulatePhase::Supervise { workflow_type: named } && named@
            == history@[start]->WorkflowStarted_workflow_type@,
        recovering.phase matches RepopulatePhase::Recover { workflow_type: named } && named@
            == history@[start]->WorkflowStarted_workflow_type@,
        registering.phase matches RepopulatePhase::Register(resident) && {
            &&& resident.workflow_id == seen.active@[seen.next as int]
            &&& resident.workflow_type@ == history@[start]->WorkflowStarted_workflow_type@
            &&& resident.run_id == run_id
            &&& resident.loaded_version == loaded_version
            &&& resident.pid == pid
            &&& resident.projected_status == WorkflowStatus::Running
            &&& resident.history_head == envelope_of(history@.last()).seq
        },
        registering.history == history,
        registering.active == seen.active,
        registering.next == seen.next,
{
    the_first_start_gives_type_and_run(seen.active@[seen.next as int], history@, start);
}

/// A workflow that is live, that has ended or that an operator has paused is passed over,
/// and the next one is looked at. One that has neither is never passed over on inspection.
pub proof fn only_live_ended_and_paused_workflows_are_passed_over(
    seen: RepopulateRun,
    reply: RepopulateReply,
    after: RepopulateRun,
)
    requires
        seen.phase is Inspect,
        seen.next < seen.active@.len(),
        seen.active@.len() <= usize::MAX,
        seen.goes_to(reply, after),
    ensures
        reply is Live ==> after.next == seen.next + 1,
        reply matches RepopulateReply::History(history) ==> {
            let id = seen.active@[seen.next as int];
            let status = status_of(history@);
            if recovered_type(id, history@) is None {
                after.next == seen.next && after.phase is Failed
            } else {
                after.next == seen.next + 1 <==> status != WorkflowStatus::Running
            }
        },
        reply matches RepopulateReply::Failed(error) ==> after.phase == RepopulatePhase::Failed(
            error,
        ),
        after.next == seen.next + 1 ==> after.phase == if seen.next + 1 < seen.active@.len() {
            RepopulatePhase::Inspect
        } else {
            RepopulatePhase::Repopulated
        },
        after.active == seen.active,
{
}

/// Each step of a registration follows only on the success of the one before it: the handle
/// is in the registry and in line with history before the process is placed, the process is
/// placed before it is monitored, and children are swept for a monitored process only. The
/// error that is reported is the one that stopped the registration, or that of the abort.
pub proof fn a_registration_takes_its_steps_in_order(
    run: RegistrationRun,
    reply: Result<(), EngineError>,
)
    ensures
        ({
            let next = run.after(reply);
            let moved = next.phase != run.phase;
            &&& moved && next.phase is Reconcile ==> run.phase is Insert && reply is Ok
            &&& moved && next.phase is Place ==> run.phase is Reconcile && reply is Ok
            &&& moved && next.phase is InstallMonitor ==> run.phase is Place && reply is Ok
            &&& moved && next.phase is SweepChildren ==> run.phase is InstallMonitor && reply
                is Ok && next.monitored
            &&& moved && next.phase is Registered ==> run.phase is SweepChildren && reply is Ok
            &&& reply is Ok && (run.phase is Insert || run.phase is Reconcile || run.phase is Place
                || run.phase is InstallMonitor || run.phase is SweepChildren) ==> moved && !(
            next.phase is Failed) && !(next.phase is RemoveEntry) && !(next.phase is Abort)
            &&& (reply matches Err(error) ==> {
                &&& run.phase is Insert || run.phase is Reconcile || run.phase is Place || run.phase
                    is InstallMonitor ==> next.phase == RegistrationPhase::RemoveEntry(error)
                &&& run.phase is SweepChildren || run.phase is Abort ==> next.phase
                    == RegistrationPhase::Failed(error)
            })
            &&& (run.phase matches RegistrationPhase::RemoveEntry(cause) ==> {
                ||| next.phase == RegistrationPhase::Abort(cause) && !run.monitor_tried
                ||| next.phase == RegistrationPhase::Failed(cause) && run.monitor_tried
            })
            &&& (run.phase matches RegistrationPhase::Abort(cause) ==> (reply is Ok ==> next.phase
                == RegistrationPhase::Failed(cause)))
            &&& run.phase is Registered || run.phase is Failed ==> next == run
            &&& next.monitored == (run.monitored || run.phase is InstallMonitor && reply is Ok)
            &&& next.monitor_tried == (run.monitor_tried || run.phase is InstallMonitor)
            &&& next.removal_tried == (run.removal_tried || run.phase is RemoveEntry)
            &&& next.abort_tried == (run.abort_tried || run.phase is Abort)
        }),
{
}

/// Each step of a recovery follows only on the success of the one before it, and a failing
/// step ends it with its own error.
pub proof fn a_recovery_takes_its_steps_in_order(run: RecoveryRun, step: RecoveryStep)
    ensures
        ({
            let next = run.after(step);
            let moved = next.phase != run.phase;
            let done = step matches RecoveryStep::Performed(reply) && reply is Ok;
            &&& next.scope == run.scope
            &&& moved && next.phase is RebuildHolds ==> run.phase is SeedCoordinator && done
            &&& moved && next.phase is ReconcileVisibility ==> run.phase is RebuildHolds && step
                is Listed
            &&& moved && next.phase is SweepDeadlines ==> run.phase is ReconcileVisibility && done
            &&& moved && next.phase is Repopulate ==> run.phase is SweepDeadlines && done
            &&& moved && next.phase is SweepSuccessors ==> run.phase is Repopulate && done
            &&& moved && next.phase is Recovered ==> run.phase is SweepSuccessors && done
            &&& done && !(run.phase is RebuildHolds) && !(run.phase is Recovered) && !(run.phase
                is Failed) ==> moved && !(next.phase is Failed)
            &&& run.phase is RebuildHolds && step is Listed ==> next.phase is ReconcileVisibility
            &&& !(run.phase is Recovered) && !(run.phase is Failed) ==> (step matches
                RecoveryStep::Performed(Err(error)) ==> next.phase == RecoveryPhase::Failed(error))
            &&& run.phase is Recovered || run.phase is Failed ==> next == run
        }),
{
}

/// The schedule coordinator is known by its identifier and its type together: no other
/// workflow is taken for it.
pub proof fn the_coordinator_is_known_by_identifier_and_type(
    id: WorkflowId,
    workflow_type: Seq<char>,
)
    ensures
        coordinates_schedules(id, workflow_type) <==> id.value == COORDINATOR_WORKFLOW
            && workflow_type == "aion.schedule_coordinator"@,
{
}

/// A registration begins with the registry, and nothing has been done for it before.
pub proof fn a_registration_begins_with_the_registry()
    ensures
        RegistrationRun::begun().phase is Insert,
        !RegistrationRun::begun().monitored,
        !RegistrationRun::begun().monitor_tried,
        !RegistrationRun::begun().removal_tried,
        !RegistrationRun::begun().abort_tried,
{
}

} // verus!
