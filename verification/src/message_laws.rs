//! The words in which errors and refusals are told.

use vstd::prelude::*;

use crate::clock::{longest_span, TimeSpan, Timestamp};
use crate::content_hash::{hash_text, ContentHash};
use crate::engine::delegated::EventStreamLagged;
use crate::engine::seam_handle::{refusal, unsupported, SeamOperation, SeamSide};
use crate::engine::startup::{no_run_text, no_start_text};
use crate::engine::startup_sweeps::{live_at_boot_text, no_continued_start_text};
use crate::engine_seam::EngineSeamError;
use crate::error::{EngineError, PinHolder, SignalRouterError};
use crate::event::{Event, WorkflowStatus};
use crate::ids::{uuid_text, RunId, WorkflowId};
use crate::lifecycle::continue_as_new::{admits_continuation, ContinueAsNewRequest};
use crate::lifecycle::pause::status_text;
use crate::lifecycle::reopen::terminal_name;
use crate::lifecycle::start::deadline_result;
use crate::lifecycle::visibility::unprojectable_text;
use crate::loader::catalog::catalog_load::{
    name_taken, refuses_package, resident_count, LoadView, PhaseView,
};
use crate::loader::catalog::catalog_unload::{
    holds_group, member_missing, refuses_group, refuses_swap, routes,
};
use crate::loader::catalog::{module_taken_text, CatalogView, GroupView};
use crate::loader::load::{manifest_entries, rollback_text, unsound_entry_text, StagedLoad};
use crate::loader::malformed_version_text;
use crate::package::Package;
use crate::registry::WorkflowHandle;
use crate::text::{decimal, joined};

verus! {

/// An error without a reason of its own has a fixed text, with the numbers and the names that
/// it carries.
pub proof fn an_engine_error_has_a_text_of_its_own(error: EngineError)
    ensures
        error is MissingStore ==> error.describes() == "engine store is required"@,
        error is MissingVisibilityStore ==> error.describes()
            == "engine visibility store is required; call EngineBuilder::visibility_store() or EngineBuilder::in_memory_visibility()"@,
        error is ConflictingEventPublisher ==> error.describes()
            == "conflicting event publisher configuration: EngineBuilder::event_streaming installs the broadcast publisher and cannot be combined with EngineBuilder::event_publisher"@,
        error is RegistryPoisoned ==> error.describes()
            == "active workflow registry lock was poisoned"@,
        error is CatalogPoisoned ==> error.describes() == "workflow catalog lock was poisoned"@,
        error is ShuttingDown ==> error.describes() == "engine is shutting down"@,
        (error matches EngineError::Gate3BifReplacementMissing { module, function, arity }
            ==> error.describes() == "required Gate-3 BIF `"@ + module@ + ":"@ + function@ + "/"@
            + decimal(arity as nat) + "` was missing during runtime startup"@),
        (error matches EngineError::ActivityDeliveryPoisoned { process_id } ==> error.describes()
            == "activity delivery lock for process "@ + decimal(process_id as nat)
            + " was poisoned"@),
        (error matches EngineError::VersionPinned { workflow_type, version, pinned_by }
            ==> error.describes() == "cannot unload workflow `"@ + workflow_type@ + "` version `"@
            + hash_text(version) + "`: "@ + pinned_by.describes()),
        (error matches EngineError::ManifestMismatch {
            workflow_type,
            version,
            resident_digest,
            incoming_digest,
        } ==> error.describes() == "workflow `"@ + workflow_type@ + "` version `"@ + hash_text(
            version,
        ) + "` is already loaded with a different manifest (resident digest "@ + resident_digest@
            + ", incoming digest "@ + incoming_digest@
            + "); the content hash covers beams only — rebuild the archive so its manifest matches the resident version, or change the beam set"@),
{
    reveal_strlit("");
    if error is VersionPinned {
        let told = "cannot unload workflow `"@ + error->VersionPinned_workflow_type@
            + "` version `"@ + hash_text(error->VersionPinned_version) + "`: "@
            + error->VersionPinned_pinned_by.describes();
        assert(told + ""@ =~= told);
    }
}

/// What goes wrong with the exits of processes is told with the process and with the time
/// that was waited.
pub proof fn a_process_error_has_a_text_of_its_own(error: EngineError)
    ensures
        error is CleanupExecutorPoisoned ==> error.describes()
            == "process cleanup executor state was poisoned"@,
        (error matches EngineError::CleanupExecutorShutdownTimedOut { timeout_millis }
            ==> error.describes() == "process cleanup executor did not stop within "@ + decimal(
            timeout_millis as nat,
        ) + "ms"@),
        error is ProcessExitRegistryPoisoned ==> error.describes()
            == "process exit registry lifecycle state was poisoned"@,
        (error matches EngineError::ProcessExitOwnershipPoisoned { process_id }
            ==> error.describes() == "process exit ownership gate for process "@ + decimal(
            process_id as nat,
        ) + " was poisoned"@),
        (error matches EngineError::ProcessExitStatePoisoned { process_id } ==> error.describes()
            == "process exit outcome state for process "@ + decimal(process_id as nat)
            + " was poisoned"@),
        error is ProcessExitSubscriptionUnavailable ==> error.describes()
            == "beamr process exit-event subscription is already owned"@,
        error is ProcessExitDrainerPoisoned ==> error.describes()
            == "process exit drainer state was poisoned"@,
        (error matches EngineError::ProcessExitOutcomeMissingAfterEvent { process_id }
            ==> error.describes() == "process "@ + decimal(process_id as nat)
            + " exit event had no takeable outcome"@),
        error is ProcessExitEventStreamDisconnected ==> error.describes()
            == "beamr process exit-event publisher disconnected"@,
        (error matches EngineError::ProcessExitDrainerShutdownTimedOut { timeout_millis }
            ==> error.describes() == "process exit drainer did not stop within "@ + decimal(
            timeout_millis as nat,
        ) + "ms"@),
        error is ProcessExitDrainerPanicked ==> error.describes()
            == "process exit drainer terminated unexpectedly"@,
        error is ProcessExitCallbackDispatcherPoisoned ==> error.describes()
            == "process exit callback dispatcher state was poisoned"@,
        error is ProcessExitCallbackDispatcherUnavailable ==> error.describes()
            == "process exit callback dispatcher is unavailable"@,
        (error matches EngineError::ProcessExitCallbackDispatcherShutdownTimedOut { timeout_millis }
            ==> error.describes() == "process exit callback dispatcher did not stop within "@
            + decimal(timeout_millis as nat) + "ms"@),
        (error matches EngineError::ProcessExitAlreadyTerminal { process_id } ==> error.describes()
            == "process "@ + decimal(process_id as nat)
            + " already reached its terminal runtime outcome"@),
{
}

/// A signal that could not be delivered is told with everything that it was about, and a start
/// that pins a version is told as such.
pub proof fn an_undelivered_signal_is_told_in_full(
    router: SignalRouterError,
    holder: PinHolder,
    lag: EventStreamLagged,
)
    ensures
        (router matches SignalRouterError::DeliveryFailed {
            workflow_id,
            run_id,
            process_id,
            signal_name,
            reason,
        } ==> router.describes() == "signal `"@ + signal_name@ + "` for workflow "@ + (uuid_text(
            workflow_id.value,
        ) + "/"@ + uuid_text(run_id.value)) + " could not be delivered to process "@ + decimal(
            process_id as nat,
        ) + ": "@ + reason@),
        holder is InFlightStart ==> holder.describes() == "an in-flight start is pinned to it"@,
        lag.describes() == "event subscription lagged behind the live stream and skipped "@
            + decimal(lag.skipped as nat) + " events"@,
{
    reveal_strlit("");
    if let SignalRouterError::DeliveryFailed {
        workflow_id,
        run_id,
        process_id,
        signal_name,
        reason,
    } = router {
        let told = "signal `"@ + signal_name@ + "` for workflow "@ + (uuid_text(workflow_id.value)
            + "/"@ + uuid_text(run_id.value)) + " could not be delivered to process "@ + decimal(
            process_id as nat,
        ) + ": "@ + reason@;
        assert(told + ""@ =~= told);
    }
}

/// What crosses the seam and fails is told with its workflow or with its reason.
pub proof fn a_seam_error_tells_what_it_carries(error: EngineSeamError)
    ensures
        (error matches EngineSeamError::NonResident { workflow_id } ==> error.describes()
            == "workflow "@ + uuid_text(workflow_id.value) + " is not resident"@),
        (error matches EngineSeamError::Terminal { workflow_id } ==> error.describes()
            == "workflow "@ + uuid_text(workflow_id.value) + " is terminal"@),
        (error matches EngineSeamError::UnknownWorkflow { workflow_id } ==> error.describes()
            == "workflow "@ + uuid_text(workflow_id.value) + " is unknown"@),
        (error matches EngineSeamError::Delivery { reason } ==> error.describes()
            == "mailbox delivery failed: "@ + reason@),
        (error matches EngineSeamError::ChildSpawn { reason } ==> error.describes()
            == "child workflow spawn failed: "@ + reason@),
        (error matches EngineSeamError::TimerWheel { reason } ==> error.describes()
            == "timer wheel operation failed: "@ + reason@),
        (error matches EngineSeamError::ChildTermination { reason } ==> error.describes()
            == "linked child termination failed: "@ + reason@),
        (error matches EngineSeamError::Recorder { reason } ==> error.describes()
            == "workflow recorder failed: "@ + reason@),
{
}

/// Each side of the seam refuses each operation that it is not made for in its own words.
pub proof fn each_side_refuses_each_operation_in_its_own_words(
    side: SeamSide,
    operation: SeamOperation,
)
    ensures
        side is Engine ==> refusal(side, operation) == "engine handle "@ + (match operation {
            SeamOperation::SpawnChild => "child spawning"@,
            SeamOperation::TerminateChild => "child termination"@,
            SeamOperation::TerminateActivity => "activity termination"@,
            SeamOperation::ArmTimer => "timer arming"@,
            SeamOperation::DisarmTimer => "timer disarming"@,
            SeamOperation::RecordEvent => "event recording"@,
        }) + " is not wired here"@,
        side is ResumeHandoff ==> refusal(side, operation) == "start resume handoff cannot "@ + (
        match operation {
            SeamOperation::SpawnChild => "spawn child workflows"@,
            SeamOperation::TerminateChild => "terminate child workflows"@,
            SeamOperation::TerminateActivity => "terminate activities"@,
            SeamOperation::ArmTimer => "arm timers"@,
            SeamOperation::DisarmTimer => "disarm timers"@,
            SeamOperation::RecordEvent => "record workflow events"@,
        }),
        unsupported(SeamSide::Engine) == "unsupported workflow mailbox message: "@,
        unsupported(SeamSide::ResumeHandoff) == "unsupported resume handoff message: "@,
{
    reveal_strlit("engine handle ");
    reveal_strlit("child spawning");
    reveal_strlit("child termination");
    reveal_strlit("activity termination");
    reveal_strlit("timer arming");
    reveal_strlit("timer disarming");
    reveal_strlit("event recording");
    reveal_strlit(" is not wired here");
    reveal_strlit("start resume handoff cannot ");
    reveal_strlit("spawn child workflows");
    reveal_strlit("terminate child workflows");
    reveal_strlit("terminate activities");
    reveal_strlit("arm timers");
    reveal_strlit("disarm timers");
    reveal_strlit("record workflow events");
    reveal_strlit("engine handle child spawning is not wired here");
    reveal_strlit("engine handle child termination is not wired here");
    reveal_strlit("engine handle activity termination is not wired here");
    reveal_strlit("engine handle timer arming is not wired here");
    reveal_strlit("engine handle timer disarming is not wired here");
    reveal_strlit("engine handle event recording is not wired here");
    reveal_strlit("start resume handoff cannot spawn child workflows");
    reveal_strlit("start resume handoff cannot terminate child workflows");
    reveal_strlit("start resume handoff cannot terminate activities");
    reveal_strlit("start resume handoff cannot arm timers");
    reveal_strlit("start resume handoff cannot disarm timers");
    reveal_strlit("start resume handoff cannot record workflow events");
}

/// What a history lacks is told with the workflow, and with the run or the version at fault.
pub proof fn what_a_history_lacks_is_told_with_its_workflow(
    id: WorkflowId,
    run: RunId,
    workflow_type: Seq<char>,
    version: Seq<char>,
)
    ensures
        no_start_text(id) == "active workflow `"@ + uuid_text(id.value)
            + "` has no WorkflowStarted event in durable history"@,
        no_run_text(id) == "active workflow `"@ + uuid_text(id.value)
            + "` has no WorkflowStarted run id in durable history"@,
        no_continued_start_text(id, run) == "workflow `"@ + uuid_text(id.value)
            + "` continued from run `"@ + uuid_text(run.value)
            + "` but that run has no WorkflowStarted event in durable history"@,
        live_at_boot_text(id)
            == "terminal-deadline sweep found a live registered handle for workflow "@ + uuid_text(
            id.value,
        )
            + " on cold boot, which must run before repopulation: the sweep ordering invariant is broken"@,
        unprojectable_text()
            == "workflow history has no WorkflowStarted event for visibility projection"@,
        malformed_version_text(workflow_type, version) == "workflow `"@ + workflow_type
            + "` recorded package version `"@ + version
            + "` that is not a canonical content hash: expected 64 lower-case hexadecimal digits"@,
{
}

/// A status, and the event that brings it, is told by its name.
pub proof fn a_status_is_told_by_its_name(event: Event)
    ensures
        status_text(WorkflowStatus::Running) == "Running"@,
        status_text(WorkflowStatus::Completed) == "Completed"@,
        status_text(WorkflowStatus::Failed) == "Failed"@,
        status_text(WorkflowStatus::Cancelled) == "Cancelled"@,
        status_text(WorkflowStatus::TimedOut) == "TimedOut"@,
        status_text(WorkflowStatus::ContinuedAsNew) == "ContinuedAsNew"@,
        status_text(WorkflowStatus::Paused) == "Paused"@,
        event is WorkflowCompleted ==> terminal_name(event) == "Completed"@,
        event is WorkflowTimedOut ==> terminal_name(event) == "TimedOut"@,
        event is WorkflowContinuedAsNew ==> terminal_name(event) == "ContinuedAsNew"@,
        event is WorkflowFailed ==> terminal_name(event) == "Failed"@,
        event is WorkflowCancelled ==> terminal_name(event) == "Cancelled"@,
{
}

/// A continuation under another type is refused with both types.
pub proof fn a_continuation_of_another_type_is_refused_with_both(
    handle: WorkflowHandle,
    catalog: CatalogView,
    id: WorkflowId,
    run: RunId,
    request: ContinueAsNewRequest,
    result: Result<(), EngineError>,
    requested: String,
)
    requires
        admits_continuation(Some(handle), catalog, id, run, request, result),
        request.workflow_type == Some(requested),
        requested@ != handle.workflow_type@,
    ensures
        result matches Err(EngineError::Runtime { reason }) && reason@
            == "continue_as_new must restart the same workflow type: current="@
            + handle.workflow_type@ + ", requested="@ + requested@,
{
}

/// A deadline that cannot be told as an instant says which of the two is at fault: the
/// timeout itself, or the instant that it leads to.
pub proof fn an_impossible_deadline_says_what_is_at_fault(
    started_at: Timestamp,
    timeout: TimeSpan,
    error: EngineError,
)
    requires
        deadline_result(started_at, timeout, Err::<Timestamp, EngineError>(error)),
    ensures
        error matches EngineError::Runtime { reason } && reason@ == if timeout.nanoseconds()
            > longest_span() {
            "declared workflow timeout is out of range: "@
                + "Source duration value is out of range for the target type"@
        } else {
            "declared workflow timeout overflowed the deadline fire time"@
        },
{
}

/// The first module that another package has registered is named with both packages, and a
/// package that is loaded in part tells how much of it is.
pub proof fn a_refused_package_tells_what_stands_in_its_way(
    catalog: CatalogView,
    staged: StagedLoad,
    error: EngineError,
    name: Seq<char>,
)
    requires
        refuses_package(catalog, staged, error),
    ensures
        module_taken_text(catalog, name, staged.version) == "deployed module `"@ + name
            + "` is already registered for content hash `"@ + hash_text(catalog.modules[name])
            + "`, not `"@ + hash_text(staged.version) + "`"@,
        (error matches EngineError::Load { reason } ==> {
            let resident = resident_count(catalog, staged, staged.workflows@.len());
            ||| exists|i: int|
                0 <= i < staged.modules@.len() && #[trigger] name_taken(catalog, staged, i) && (
                forall|j: int| 0 <= j < i ==> !#[trigger] name_taken(catalog, staged, j))
                    && reason@ == "deployed module `"@ + staged.modules@[i].deployed_name@
                    + "` is already registered for content hash `"@ + hash_text(
                    catalog.modules[staged.modules@[i].deployed_name@],
                ) + "`, not `"@ + hash_text(staged.version) + "`"@
            ||| reason@ == "package version `"@ + hash_text(staged.version)
                + "` is only partially registered ("@ + decimal(resident) + "/"@ + decimal(
                staged.workflows@.len(),
            ) + " workflow entries)"@
        }),
{
    if exists|i: int|
        0 <= i < staged.modules@.len() && #[trigger] name_taken(catalog, staged, i) {
        let i = choose|i: int|
            {
                &&& 0 <= i < staged.modules@.len()
                &&& #[trigger] name_taken(catalog, staged, i)
                &&& forall|j: int| 0 <= j < i ==> !#[trigger] name_taken(catalog, staged, j)
            };
    }
}

/// A version that cannot be swapped out tells what of its package is missing: the group
/// itself, or a member of it that is not loaded or that an earlier member repeats.
pub proof fn a_refused_swap_tells_what_is_missing(
    catalog: CatalogView,
    workflow_type: Seq<char>,
    version: ContentHash,
    error: EngineError,
)
    requires
        refuses_swap(catalog, workflow_type, version, error),
    ensures
        (error matches EngineError::Load { reason } ==> {
            ||| reason@ == "package group for workflow `"@ + workflow_type + "` version `"@
                + hash_text(version) + "` is missing"@
            ||| exists|key: (Seq<char>, ContentHash), i: int|
                #[trigger] holds_group(catalog, key, workflow_type, version) && 0 <= i
                    < catalog.groups[key].members.len() && (!catalog.by_version.contains_key(
                    (#[trigger] catalog.groups[key].members[i], version),
                ) || exists|j: int|
                    0 <= j < i && #[trigger] catalog.groups[key].members[j]
                        == catalog.groups[key].members[i]) && reason@ == "package group `"@ + hash_text(version)
                    + "` is partially registered: missing `"@ + catalog.groups[key].members[i]
                    + "`"@
        }),
        (error matches EngineError::RouteActive { workflow_type: active, version: at } ==> at
            == version && routes(catalog, active@, version)),
{
    if catalog.by_version.contains_key((workflow_type, version)) && exists|
        key: (Seq<char>, ContentHash),
    | #[trigger] holds_group(catalog, key, workflow_type, version) {
        let key = choose|key: (Seq<char>, ContentHash)|
            #[trigger] holds_group(catalog, key, workflow_type, version) && refuses_group(
                catalog,
                catalog.groups[key],
                version,
                error,
            );
        let members = catalog.groups[key].members;
        if error is Load {
            let i = choose|i: int|
                0 <= i < members.len() && #[trigger] member_missing(catalog, members, version, i)
                    && error->Load_reason@ == "package group `"@ + hash_text(version)
                    + "` is partially registered: missing `"@ + members[i] + "`"@;
            assert(!catalog.by_version.contains_key((members[i], version)) || exists|j: int|
                0 <= j < i && #[trigger] members[j] == members[i]);
        }
    }
}

/// An entry that cannot be staged is told by what is wrong with it: its type was declared
/// before, or its module is not in the package.
pub proof fn an_unsound_entry_tells_what_is_wrong(package: Package, i: int)
    requires
        0 <= i < manifest_entries(package.manifest).len(),
    ensures
        ({
            let entries = manifest_entries(package.manifest);
            let repeated = exists|j: int|
                0 <= j < i && (#[trigger] entries[j]).workflow_type == entries[i].workflow_type;
            &&& repeated ==> unsound_entry_text(package, i)
                == "package declares workflow type `"@ + entries[i].workflow_type
                + "` more than once"@
            &&& !repeated ==> unsound_entry_text(package, i) == "manifest entry module `"@
                + entries[i].entry_module + "` for workflow `"@ + entries[i].workflow_type
                + "` is absent from package beams"@
        }),
{
}

/// A load that is given up says which module or entry it failed on and why, and what could not
/// be unwound is added at its end, in the order in which it was tried.
pub proof fn a_load_that_is_given_up_says_why(
    load: LoadView,
    staged: StagedLoad,
    error: Seq<char>,
)
    requires
        load.fits(staged),
    ensures
        ({
            let next = load.after(staged, Some(error)).phase;
            let module = staged.modules@[load.pending[load.registered] as int].deployed_name@;
            let told = match load.phase {
                PhaseView::Verifying(entry) => "entry verification failed for workflow `"@
                    + staged.workflows@[entry].workflow_type@ + "`: "@ + error,
                _ => "runtime rejected deployed module `"@ + module + "` after "@ + decimal(
                    load.registered as nat,
                ) + " staged registrations: "@ + error,
            };
            load.phase is Registering || load.phase is Verifying ==> {
                &&& load.registered == 0 ==> next == PhaseView::Failed(told)
                &&& load.registered > 0 ==> next == (PhaseView::RollingBack {
                    remaining: load.registered,
                    failures: Seq::empty(),
                    reason: told,
                })
            }
        }),
        (load.phase matches PhaseView::RollingBack { remaining, failures, reason } ==> {
            let module = staged.modules@[load.pending[remaining - 1] as int].deployed_name@;
            let failed = failures.push(module + ": "@ + error);
            &&& remaining == 1 ==> {
                &&& load.after(staged, Some(error)).phase == PhaseView::Failed(
                    reason + ("; rollback failed for "@ + joined(failed, ", "@)),
                )
                &&& failures.len() == 0 ==> load.after(staged, None).phase == PhaseView::Failed(
                    reason,
                )
            }
            &&& remaining > 1 ==> {
                &&& load.after(staged, Some(error)).phase == (PhaseView::RollingBack {
                    remaining: remaining - 1,
                    failures: failed,
                    reason,
                })
                &&& load.after(staged, None).phase == (PhaseView::RollingBack {
                    remaining: remaining - 1,
                    failures,
                    reason,
                })
            }
        }),
        rollback_text(Seq::<Seq<char>>::empty()) == Seq::<char>::empty(),
{
    if let PhaseView::RollingBack { reason, .. } = load.phase {
        assert(reason + Seq::<char>::empty() =~= reason);
    }
}

/// A group is refused for its first member that is routed to, and otherwise for its first
/// member that is missing.
pub proof fn a_group_is_refused_for_the_first_member_at_fault(
    catalog: CatalogView,
    group: GroupView,
    version: ContentHash,
    error: EngineError,
    i: int,
)
    requires
        refuses_group(catalog, group, version, error),
        0 <= i < group.members.len(),
    ensures
        routes(catalog, group.members[i], version) && (forall|j: int|
            0 <= j < i ==> !routes(catalog, #[trigger] group.members[j], version)) ==> (
        error matches EngineError::RouteActive { workflow_type, version: active }
            && workflow_type@ == group.members[i] && active == version),
        (forall|j: int|
            0 <= j < group.members.len() ==> !routes(
                catalog,
                #[trigger] group.members[j],
                version,
            )) && member_missing(catalog, group.members, version, i) && (forall|j: int|
            0 <= j < i ==> !#[trigger] member_missing(catalog, group.members, version, j)) ==> (
        error matches EngineError::Load { reason } && reason@ == "package group `"@ + hash_text(
            version,
        ) + "` is partially registered: missing `"@ + group.members[i] + "`"@),
{
}

} // verus!
