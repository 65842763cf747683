//! Registry-only suspend/resume residency transitions.
//!
//! This module owns only the active-registry residency flip for a workflow run.
//! Suspending and resuming never change the projected status: a suspended workflow
//! remains `Running` according to its events.

use vstd::prelude::*;

use crate::error::{is_run_not_found, workflow_not_found, EngineError};
use crate::ids::{RunId, WorkflowId};
use crate::registry::{Registry, Residency, RunKey, WorkflowHandle};

verus! {

/// The residency of a run is replaced, and nothing else; or the run is not found.
pub open spec fn residency_replaced(
    before: Map<RunKey, WorkflowHandle>,
    after: Map<RunKey, WorkflowHandle>,
    id: WorkflowId,
    run: RunId,
    residency: Residency,
    result: Result<WorkflowHandle, EngineError>,
) -> bool {
    let key = RunKey { workflow_id: id, run_id: run };
    match result {
        Ok(handle) => {
            &&& before.contains_key(key)
            &&& handle == (WorkflowHandle { residency, ..before[key] })
            &&& after == before.insert(key, handle)
        },
        Err(error) => {
            &&& !before.contains_key(key)
            &&& is_run_not_found(error, id, run)
            &&& after == before
        },
    }
}

/// Suspends an active workflow run in the registry without removing it.
///
/// # Errors
///
/// [`EngineError::WorkflowNotFound`] if the workflow run is absent.
pub fn suspend(registry: &mut Registry, id: &WorkflowId, run: &RunId) -> (result: Result<
    WorkflowHandle,
    EngineError,
>)
    requires
        old(registry).wf(),
    ensures
        final(registry).wf(),
        residency_replaced(
            old(registry)@,
            final(registry)@,
            *id,
            *run,
            Residency::Suspended,
            result,
        ),
{
    replace_residency(registry, id, run, Residency::Suspended)
}

/// Resumes an active workflow run in the registry.
///
/// Calling this for an already-resident handle is idempotent. Projected status is not
/// read or changed.
///
/// # Errors
///
/// [`EngineError::WorkflowNotFound`] if the workflow run is absent.
pub fn resume(registry: &mut Registry, id: &WorkflowId, run: &RunId) -> (result: Result<
    WorkflowHandle,
    EngineError,
>)
    requires
        old(registry).wf(),
    ensures
        final(registry).wf(),
        residency_replaced(
            old(registry)@,
            final(registry)@,
            *id,
            *run,
            Residency::Resident,
            result,
        ),
{
    replace_residency(registry, id, run, Residency::Resident)
}

/// Replaces the residency of a run.
fn replace_residency(
    registry: &mut Registry,
    id: &WorkflowId,
    run: &RunId,
    residency: Residency,
) -> (result: Result<WorkflowHandle, EngineError>)
    requires
        old(registry).wf(),
    ensures
        final(registry).wf(),
        residency_replaced(old(registry)@, final(registry)@, *id, *run, residency, result),
{
    match registry.replace_residency(id, run, residency) {
        Some(handle) => Ok(handle),
        None => Err(workflow_not_found(id, run)),
    }
}

/// Resuming undoes suspending: a run that was resident is registered as it was, and its
/// status was the same throughout.
pub proof fn resuming_undoes_suspending(
    before: Map<RunKey, WorkflowHandle>,
    between: Map<RunKey, WorkflowHandle>,
    after: Map<RunKey, WorkflowHandle>,
    id: WorkflowId,
    run: RunId,
    suspended: Result<WorkflowHandle, EngineError>,
    resumed: Result<WorkflowHandle, EngineError>,
)
    requires
        before.contains_key(RunKey { workflow_id: id, run_id: run }),
        before[RunKey { workflow_id: id, run_id: run }].residency == Residency::Resident,
        residency_replaced(before, between, id, run, Residency::Suspended, suspended),
        residency_replaced(between, after, id, run, Residency::Resident, resumed),
    ensures
        after == before,
        between[RunKey { workflow_id: id, run_id: run }].cached_status == before[RunKey {
            workflow_id: id,
            run_id: run,
        }].cached_status,
{
    assert(after =~= before);
}

/// Resuming a run that is resident changes nothing.
pub proof fn resuming_a_resident_run_changes_nothing(
    before: Map<RunKey, WorkflowHandle>,
    after: Map<RunKey, WorkflowHandle>,
    id: WorkflowId,
    run: RunId,
    result: Result<WorkflowHandle, EngineError>,
)
    requires
        before.contains_key(RunKey { workflow_id: id, run_id: run }),
        before[RunKey { workflow_id: id, run_id: run }].residency == Residency::Resident,
        residency_replaced(before, after, id, run, Residency::Resident, result),
    ensures
        after == before,
{
    assert(after =~= before);
}

} // verus!
