//! Runtime package seam: unloading a workflow version after verifying that nothing pins
//! it.
//!
//! The version is swapped out of the catalog first, so that no new resolution can produce
//! it, and put back where a check finds a pin.

use vstd::prelude::*;
use vstd::string::*;

use crate::content_hash::{hash_text, ContentHash};
use crate::error::{is_runtime_error, EngineError, PinHolder};
use crate::event::{ended, Event, WorkflowStatus};
use crate::history::{begins_run, last_where, lemma_last_where_is};
use crate::ids::WorkflowId;
use crate::loader::catalog::catalog_load::{is_native_module, native};
use crate::loader::catalog::catalog_unload::{
    holds_group, refuses_swap, restored, restoring_undoes_swapping_out, swapped_out, swaps_out,
    takes_out, RemovedPackage,
};
use crate::loader::catalog::{pin_count, under_primary, CatalogView, WorkflowCatalog};
use crate::registry::{key_of, Registry, RunKey, WorkflowHandle};
use crate::text::{concat3, concat6, join, joined, texts};

verus! {

/// The error names what pins a version.
pub open spec fn is_pinned(
    error: EngineError,
    workflow_type: Seq<char>,
    version: ContentHash,
    holder: PinHolder,
) -> bool {
    error matches EngineError::VersionPinned { workflow_type: named, version: at, pinned_by }
        && named@ == workflow_type && at == version && pinned_by == holder
}

/// Names what pins a version.
fn version_pinned(workflow_type: &str, version: &ContentHash, holder: PinHolder) -> (error:
    EngineError)
    ensures
        is_pinned(error, workflow_type@, *version, holder),
{
    EngineError::VersionPinned {
        workflow_type: workflow_type.to_owned(),
        version: *version,
        pinned_by: holder,
    }
}

/// A registered run executes on a version and has not ended.
pub open spec fn runs_on(
    handle: WorkflowHandle,
    workflow_type: Seq<char>,
    version: ContentHash,
) -> bool {
    &&& handle.workflow_type@ == workflow_type
    &&& handle.loaded_version == version
    &&& !ended(handle.cached_status)
}

/// Some registered run executes on a version and has not ended.
pub open spec fn live_run_on(
    registry: Map<RunKey, WorkflowHandle>,
    workflow_type: Seq<char>,
    version: ContentHash,
) -> bool {
    exists|key: RunKey| #[trigger]
        registry.contains_key(key) && runs_on(registry[key], workflow_type, version)
}

/// Checks that neither a start in flight nor a registered run pins a version.
///
/// # Errors
///
/// [`EngineError::VersionPinned`], naming the start in flight or a live run.
pub fn verify_unpinned_here(
    catalog: &WorkflowCatalog,
    registry: &Registry,
    workflow_type: &str,
    version: &ContentHash,
) -> (result: Result<(), EngineError>)
    requires
        catalog.wf(),
        registry.wf(),
    ensures
        ({
            let pinned = pin_count(catalog@.pins, (workflow_type@, *version)) > 0;
            match result {
                Ok(()) => !pinned && !live_run_on(registry@, workflow_type@, *version),
                Err(error) => pinned_here(
                    catalog@,
                    registry@,
                    workflow_type@,
                    *version,
                    error,
                ) && (pinned || live_run_on(registry@, workflow_type@, *version)),
            }
        }),
{
    if catalog.has_pinned_starts(workflow_type, version) {
        return Err(version_pinned(workflow_type, version, PinHolder::InFlightStart));
    }
    let wanted = workflow_type.to_owned();
    let handles = registry.list();
    proof {
        registry.lemma_listing();
    }
    let mut i: usize = 0;
    while i < handles.len()
        invariant
            registry.wf(),
            handles@ == registry.listing(),
            wanted@ == workflow_type@,
            pin_count(catalog@.pins, (workflow_type@, *version)) == 0,
            forall|j: int|
                0 <= j < registry.listing().len() ==> registry@.contains_key(
                    key_of(#[trigger] registry.listing()[j]),
                ) && registry@[key_of(registry.listing()[j])] == registry.listing()[j],
            0 <= i <= handles@.len(),
            forall|j: int|
                0 <= j < i ==> !runs_on(#[trigger] handles@[j], workflow_type@, *version),
        decreases handles.len() - i,
    {
        let handle = &handles[i];
        if handle.workflow_type == wanted && handle.loaded_version.same(version)
            && !handle.cached_status.is_terminal() {
            proof {
                assert(registry.listing()[i as int] == *handle);
                assert(registry@.contains_key(key_of(*handle)));
            }
            return Err(
                version_pinned(
                    workflow_type,
                    version,
                    PinHolder::LiveRun { workflow_id: handle.workflow_id, run_id: handle.run_id },
                ),
            );
        }
        i = i + 1;
    }
    proof {
        if live_run_on(registry@, workflow_type@, *version) {
            let key = choose|key: RunKey| #[trigger]
                registry@.contains_key(key) && runs_on(registry@[key], workflow_type@, *version);
            let k = choose|k: int|
                0 <= k < registry.listing().len() && #[trigger] registry.listing()[k]
                    == registry@[key];
            assert(!runs_on(handles@[k], workflow_type@, *version));
        }
    }
    Ok(())
}

/// The error names what pins a version in this engine: a start in flight, or else a live
/// run.
pub open spec fn pinned_here(
    catalog: CatalogView,
    registry: Map<RunKey, WorkflowHandle>,
    workflow_type: Seq<char>,
    version: ContentHash,
    error: EngineError,
) -> bool {
    if pin_count(catalog.pins, (workflow_type, version)) > 0 {
        is_pinned(error, workflow_type, version, PinHolder::InFlightStart)
    } else {
        exists|key: RunKey| #[trigger]
            registry.contains_key(key) && runs_on(registry[key], workflow_type, version)
                && is_pinned(
                error,
                workflow_type,
                version,
                PinHolder::LiveRun { workflow_id: key.workflow_id, run_id: key.run_id },
            )
    }
}

/// Begins to unload a workflow version: swaps its archive group out of the catalog, so
/// that no new resolution can produce it, and checks that nothing in this engine pins it.
/// A pinned version is put back.
///
/// # Errors
///
/// The refusal of [`WorkflowCatalog::swap_out_package`], or
/// [`EngineError::VersionPinned`], naming the start in flight or a live run. The catalog
/// is then as it was.
pub fn unload_workflow_version(
    catalog: &mut WorkflowCatalog,
    registry: &Registry,
    workflow_type: &str,
    version: &ContentHash,
) -> (result: Result<RemovedPackage, EngineError>)
    requires
        old(catalog).wf(),
        registry.wf(),
    ensures
        final(catalog).wf(),
        ({
            let before = old(catalog)@;
            let unpinned = pin_count(before.pins, (workflow_type@, *version)) == 0 && !live_run_on(
                registry@,
                workflow_type@,
                *version,
            );
            match result {
                Ok(removed) => unpinned && removed.wf() && swaps_out(
                    before,
                    workflow_type@,
                    *version,
                    removed,
                    final(catalog)@,
                ),
                Err(error) => {
                    &&& final(catalog)@ == before
                    &&& refuses_swap(before, workflow_type@, *version, error) || (!unpinned
                        && pinned_here(before, registry@, workflow_type@, *version, error))
                },
            }
        }),
{
    let ghost before = catalog@;
    proof {
        catalog.groups_are_kept_under_their_primary();
    }
    let removed = match catalog.swap_out_package(workflow_type, version) {
        Ok(removed) => removed,
        Err(error) => {
            return Err(error);
        },
    };
    let ghost taken = removed;
    match verify_unpinned_here(catalog, registry, workflow_type, version) {
        Ok(()) => Ok(removed),
        Err(error) => {
            catalog.restore_package(removed);
            proof {
                let key = choose|key: (Seq<char>, ContentHash)|
                    {
                        let group = before.groups[key];
                        &&& #[trigger] holds_group(before, key, workflow_type@, *version)
                        &&& takes_out(
                            before,
                            group,
                            *version,
                            taken,
                        )
                        &&& restored(
                            swapped_out(
                                before,
                                group,
                                *version,
                            ),
                            taken,
                        ) == catalog@
                    };
                assert(before.groups.contains_key(key));
                restoring_undoes_swapping_out(before, key, workflow_type@, *version, taken);
                if pin_count(before.pins, (workflow_type@, *version)) == 0 {
                    let holder = choose|holder: RunKey| #[trigger]
                        registry@.contains_key(holder) && runs_on(
                            registry@[holder],
                            workflow_type@,
                            *version,
                        ) && is_pinned(
                            error,
                            workflow_type@,
                            *version,
                            PinHolder::LiveRun {
                                workflow_id: holder.workflow_id,
                                run_id: holder.run_id,
                            },
                        );
                    assert(registry@.contains_key(holder));
                }
            }
            Err(error)
        },
    }
}

/// The latest run of a history is pinned to a version.
pub open spec fn latest_run_pins(
    history: Seq<Event>,
    workflow_type: Seq<char>,
    version: ContentHash,
) -> bool {
    let start = last_where(history, |event: Event| begins_run(event));
    &&& start >= 0
    &&& history[start]->WorkflowStarted_workflow_type@ == workflow_type
    &&& history[start]->WorkflowStarted_package_version.text@ == hash_text(version)
}

/// Whether the latest run of a history is pinned to a version.
pub fn current_run_pin(history: &[Event], workflow_type: &str, version: &ContentHash) -> (pins: bool)
    ensures
        pins == latest_run_pins(history@, workflow_type@, *version),
{
    let ghost begins = |event: Event| begins_run(event);
    let wanted = workflow_type.to_owned();
    let recorded = version.text();
    let mut i: usize = history.len();
    while i > 0
        invariant
            0 <= i <= history@.len(),
            begins == (|event: Event| begins_run(event)),
            wanted@ == workflow_type@,
            recorded@ == hash_text(*version),
            forall|j: int| i <= j < history@.len() ==> !begins_run(#[trigger] history@[j]),
        decreases i,
    {
        match &history[i - 1] {
            Event::WorkflowStarted { workflow_type, package_version, .. } => {
                proof {
                    lemma_last_where_is(history@, begins, i - 1);
                }
                return *workflow_type == wanted && package_version.text == recorded;
            },
            _ => {},
        }
        i = i - 1;
    }
    proof {
        lemma_last_where_is(history@, begins, -1);
    }
    false
}

/// The event records a child on a version.
pub open spec fn records_child_on(
    event: Event,
    workflow_type: Seq<char>,
    version: ContentHash,
) -> bool {
    event matches Event::ChildWorkflowStarted { workflow_type: child_type, package_version, .. }
        && child_type@ == workflow_type && package_version.text@ == hash_text(version)
}

/// The children that a history records on a version, in their order.
pub open spec fn children_on(
    history: Seq<Event>,
    workflow_type: Seq<char>,
    version: ContentHash,
) -> Seq<WorkflowId>
    decreases history.len(),
{
    if history.len() == 0 {
        Seq::empty()
    } else {
        let before = children_on(history.drop_last(), workflow_type, version);
        if records_child_on(history.last(), workflow_type, version) {
            before.push(history.last()->ChildWorkflowStarted_child_workflow_id)
        } else {
            before
        }
    }
}

/// The children that a history records on a version.
pub fn recorded_children_on(
    history: &[Event],
    workflow_type: &str,
    version: &ContentHash,
) -> (children: Vec<WorkflowId>)
    ensures
        children@ == children_on(history@, workflow_type@, *version),
{
    let wanted = workflow_type.to_owned();
    let recorded = version.text();
    let mut children: Vec<WorkflowId> = Vec::new();
    let mut i: usize = 0;
    proof {
        assert(history@.take(0) =~= Seq::empty());
    }
    while i < history.len()
        invariant
            0 <= i <= history@.len(),
            wanted@ == workflow_type@,
            recorded@ == hash_text(*version),
            children@ == children_on(history@.take(i as int), workflow_type@, *version),
        decreases history.len() - i,
    {
        proof {
            assert(history@.take(i + 1).drop_last() =~= history@.take(i as int));
            assert(history@.take(i + 1).last() == history@[i as int]);
        }
        match &history[i] {
            Event::ChildWorkflowStarted { child_workflow_id, workflow_type, package_version, .. } => {
                if *workflow_type == wanted && package_version.text == recorded {
                    children.push(*child_workflow_id);
                }
            },
            _ => {},
        }
        i = i + 1;
    }
    proof {
        assert(history@.take(i as int) =~= history@);
    }
    children
}

/// The step of an unload check to perform next, or how it ended.
#[derive(Debug, PartialEq, Eq)]
pub enum UnloadPhase {
    /// Read the history of the active workflow.
    Read,
    /// Read the history of the recorded child.
    ReadChild,
    /// Nothing pins the version.
    Unpinned,
    /// The version is pinned, or a step failed: it is put back.
    Refused(EngineError),
}

/// What came of a step of an unload check.
#[derive(Debug, PartialEq, Eq)]
pub enum UnloadReply {
    /// The history was read.
    History(Vec<Event>),
    /// The step failed.
    Failed(EngineError),
}

/// A check whether a recoverable instance in the store pins a version.
#[derive(Debug, PartialEq, Eq)]
pub struct UnloadCheck {
    /// Workflow type of the version.
    pub workflow_type: String,
    /// The version.
    pub version: ContentHash,
    /// The workflows that the store lists as active.
    pub active: Vec<WorkflowId>,
    /// The workflow that is looked at.
    pub next: usize,
    /// Children that it records on the version.
    pub children: Vec<WorkflowId>,
    /// The child that is looked at.
    pub child: usize,
    /// The step to perform next, or how the check ended.
    pub phase: UnloadPhase,
}

impl UnloadCheck {
    /// A workflow, and maybe a child, is looked at as long as the check goes on.
    pub open spec fn fits(self) -> bool {
        match self.phase {
            UnloadPhase::Read => self.next < self.active@.len(),
            UnloadPhase::ReadChild => self.next < self.active@.len() && self.child
                < self.children@.len(),
            _ => true,
        }
    }

    /// What is checked stays the same.
    pub open spec fn same_check(self, after: UnloadCheck) -> bool {
        &&& after.workflow_type == self.workflow_type
        &&& after.version == self.version
        &&& after.active == self.active
    }

    /// The check goes on to the next workflow.
    pub open spec fn moves_on(self, after: UnloadCheck) -> bool {
        &&& self.same_check(after)
        &&& after.next == self.next + 1
        &&& after.phase == if self.next + 1 < self.active@.len() {
            UnloadPhase::Read
        } else {
            UnloadPhase::Unpinned
        }
    }

    /// The check ends with the version pinned.
    pub open spec fn finds(self, holder: PinHolder, after: UnloadCheck) -> bool {
        &&& self.same_check(after)
        &&& after.next == self.next
        &&& after.phase matches UnloadPhase::Refused(error)
        &&& is_pinned(error, self.workflow_type@, self.version, holder)
    }

    /// What a step leads to.
    pub open spec fn goes_to(self, reply: UnloadReply, after: UnloadCheck) -> bool {
        let id = self.active@[self.next as int];
        match (self.phase, reply) {
            (UnloadPhase::Read, UnloadReply::History(history)) => if latest_run_pins(
                history@,
                self.workflow_type@,
                self.version,
            ) {
                self.finds(PinHolder::RecoverableRun { workflow_id: id }, after)
            } else if children_on(history@, self.workflow_type@, self.version).len() == 0 {
                self.moves_on(after)
            } else {
                &&& self.same_check(after)
                &&& after.next == self.next
                &&& after.children@ == children_on(history@, self.workflow_type@, self.version)
                &&& after.child == 0
                &&& after.phase is ReadChild
            },
            (UnloadPhase::ReadChild, UnloadReply::History(history)) => if history@.len() == 0 {
                self.finds(
                    PinHolder::RecordedChild {
                        child_workflow_id: self.children@[self.child as int],
                        recorded_by: id,
                    },
                    after,
                )
            } else if self.child + 1 < self.children@.len() {
                after == (UnloadCheck { child: (self.child + 1) as usize, ..self })
            } else {
                self.moves_on(after)
            },
            (UnloadPhase::Read, UnloadReply::Failed(error))
            | (UnloadPhase::ReadChild, UnloadReply::Failed(error)) => {
                &&& self.same_check(after)
                &&& after.next == self.next
                &&& after.phase == UnloadPhase::Refused(error)
            },
            _ => after == self,
        }
    }

    /// Begins to check the workflows that the store lists as active.
    pub fn verify_unload_unpinned(
        workflow_type: &str,
        version: &ContentHash,
        active: Result<Vec<WorkflowId>, EngineError>,
    ) -> (check: Self)
        ensures
            check.workflow_type@ == workflow_type@,
            check.version == *version,
            check.next == 0,
            match active {
                Ok(active) => check.active == active && check.phase == if active@.len() > 0 {
                    UnloadPhase::Read
                } else {
                    UnloadPhase::Unpinned
                },
                Err(error) => check.active@.len() == 0 && check.phase == UnloadPhase::Refused(
                    error,
                ),
            },
            check.fits(),
    {
        let (active, phase) = match active {
            Ok(active) => {
                let phase = if active.len() > 0 {
                    UnloadPhase::Read
                } else {
                    UnloadPhase::Unpinned
                };
                (active, phase)
            },
            Err(error) => (Vec::new(), UnloadPhase::Refused(error)),
        };
        UnloadCheck {
            workflow_type: workflow_type.to_owned(),
            version: *version,
            active,
            next: 0,
            children: Vec::new(),
            child: 0,
            phase,
        }
    }

    /// Takes in what came of a step.
    pub fn advance(self, reply: UnloadReply) -> (after: Self)
        requires
            self.fits(),
        ensures
            self.goes_to(reply, after),
            after.fits(),
    {
        let mut check = self;
        let count: usize = check.active.len();
        let recorded: usize = check.children.len();
        let mut passed = false;
        match (&check.phase, reply) {
            (UnloadPhase::Read, UnloadReply::History(history)) => {
                let id = check.active[check.next];
                if current_run_pin(
                    history.as_slice(),
                    check.workflow_type.as_str(),
                    &check.version,
                ) {
                    check.phase =
                    UnloadPhase::Refused(
                        version_pinned(
                            check.workflow_type.as_str(),
                            &check.version,
                            PinHolder::RecoverableRun { workflow_id: id },
                        ),
                    );
                    return check;
                }
                let children = recorded_children_on(
                    history.as_slice(),
                    check.workflow_type.as_str(),
                    &check.version,
                );
                if children.len() == 0 {
                    passed = true;
                } else {
                    check.children = children;
                    check.child = 0;
                    check.phase = UnloadPhase::ReadChild;
                }
            },
            (UnloadPhase::ReadChild, UnloadReply::History(history)) => {
                if history.len() == 0 {
                    let holder = PinHolder::RecordedChild {
                        child_workflow_id: check.children[check.child],
                        recorded_by: check.active[check.next],
                    };
                    check.phase =
                    UnloadPhase::Refused(
                        version_pinned(check.workflow_type.as_str(), &check.version, holder),
                    );
                    return check;
                }
                if check.child + 1 < recorded {
                    check.child = check.child + 1;
                } else {
                    passed = true;
                }
            },
            (UnloadPhase::Read, UnloadReply::Failed(error)) => {
                check.phase = UnloadPhase::Refused(error);
            },
            (UnloadPhase::ReadChild, UnloadReply::Failed(error)) => {
                check.phase = UnloadPhase::Refused(error);
            },
            _ => {},
        }
        if passed {
            check.phase =
            if check.next + 1 < count {
                UnloadPhase::Read
            } else {
                UnloadPhase::Unpinned
            };
            check.next = check.next + 1;
        }
        check
    }
}

/// A course of an unload check: each follows from the one before it by a reply.
pub open spec fn unload_course(checks: Seq<UnloadCheck>, replies: Seq<UnloadReply>) -> bool {
    &&& checks.len() == replies.len() + 1
    &&& checks[0].next == 0
    &&& checks[0].fits()
    &&& checks[0].phase is Read || (checks[0].phase is Unpinned && checks[0].active@.len() == 0)
        || checks[0].phase is Refused
    &&& forall|i: int|
        0 <= i < replies.len() ==> checks[i].goes_to(#[trigger] replies[i], checks[i + 1])
}

/// Before some point of a course, a recorded child was found to have a history.
pub open spec fn child_exists(
    checks: Seq<UnloadCheck>,
    replies: Seq<UnloadReply>,
    workflow: int,
    child: WorkflowId,
    point: int,
) -> bool {
    exists|m: int|
        {
            &&& 0 <= m < point
            &&& (#[trigger] checks[m]).next == workflow
            &&& checks[m].phase is ReadChild
            &&& checks[m].children@[checks[m].child as int] == child
            &&& replies[m] matches UnloadReply::History(history)
            &&& history@.len() > 0
        }
}

/// Before some point of a course, a workflow was read and its latest run found not to be
/// pinned to the version; the children among the first so many that it records on the
/// version were found to have a history.
pub open spec fn workflow_cleared(
    checks: Seq<UnloadCheck>,
    replies: Seq<UnloadReply>,
    workflow: int,
    count: int,
    point: int,
) -> bool {
    exists|k: int|
        {
            &&& 0 <= k < point
            &&& (#[trigger] checks[k]).next == workflow
            &&& checks[k].phase is Read
            &&& replies[k] matches UnloadReply::History(history)
            &&& reads_clear(checks, replies, workflow, history@, count, point)
        }
}

/// A history that was read shows no pin, and its children so far have histories.
pub open spec fn reads_clear(
    checks: Seq<UnloadCheck>,
    replies: Seq<UnloadReply>,
    workflow: int,
    history: Seq<Event>,
    count: int,
    point: int,
) -> bool {
    let workflow_type = checks[0].workflow_type@;
    let version = checks[0].version;
    let children = children_on(history, workflow_type, version);
    &&& !latest_run_pins(history, workflow_type, version)
    &&& count < 0 ==> forall|c: int|
        0 <= c < children.len() ==> child_exists(
            checks,
            replies,
            workflow,
            #[trigger] children[c],
            point,
        )
    &&& count >= 0 ==> checks[point].children@ == children && forall|c: int|
        0 <= c < count ==> child_exists(
            checks,
            replies,
            workflow,
            #[trigger] children[c],
            point,
        )
}

/// What a longer course knows of a child.
proof fn lemma_child_still_exists(
    checks: Seq<UnloadCheck>,
    replies: Seq<UnloadReply>,
    workflow: int,
    child: WorkflowId,
    point: int,
)
    requires
        child_exists(checks, replies, workflow, child, point),
    ensures
        child_exists(checks, replies, workflow, child, point + 1),
{
    let m = choose|m: int|
        {
            &&& 0 <= m < point
            &&& (#[trigger] checks[m]).next == workflow
            &&& checks[m].phase is ReadChild
            &&& checks[m].children@[checks[m].child as int] == child
            &&& replies[m] matches UnloadReply::History(history)
            &&& history@.len() > 0
        };
    assert(checks[m].next == workflow);
}

/// A workflow that is cleared stays so.
proof fn lemma_still_cleared(
    checks: Seq<UnloadCheck>,
    replies: Seq<UnloadReply>,
    workflow: int,
    point: int,
)
    requires
        workflow_cleared(checks, replies, workflow, -1, point),
    ensures
        workflow_cleared(checks, replies, workflow, -1, point + 1),
{
    let k = choose|k: int|
        {
            &&& 0 <= k < point
            &&& (#[trigger] checks[k]).next == workflow
            &&& checks[k].phase is Read
            &&& replies[k] matches UnloadReply::History(history)
            &&& reads_clear(checks, replies, workflow, history@, -1, point)
        };
    let history = replies[k]->History_0;
    let children = children_on(history@, checks[0].workflow_type@, checks[0].version);
    assert forall|c: int| 0 <= c < children.len() implies child_exists(
        checks,
        replies,
        workflow,
        #[trigger] children[c],
        point + 1,
    ) by {
        lemma_child_still_exists(checks, replies, workflow, children[c], point);
    }
    assert(reads_clear(checks, replies, workflow, history@, -1, point + 1));
    assert(checks[k].next == workflow);
}

/// What an unload check has behind it at some point.
proof fn lemma_cleared(checks: Seq<UnloadCheck>, replies: Seq<UnloadReply>, point: int)
    requires
        unload_course(checks, replies),
        0 <= point < checks.len(),
    ensures
        checks[0].same_check(checks[point]),
        checks[point].fits(),
        checks[point].phase is Unpinned ==> checks[point].next == checks[0].active@.len(),
        forall|workflow: int|
            0 <= workflow < checks[point].next ==> #[trigger] workflow_cleared(
                checks,
                replies,
                workflow,
                -1,
                point,
            ),
        checks[point].phase is ReadChild ==> workflow_cleared(
            checks,
            replies,
            checks[point].next as int,
            checks[point].child as int,
            point,
        ),
    decreases point,
{
    if point > 0 {
        lemma_cleared(checks, replies, point - 1);
        let prior = checks[point - 1];
        let last = checks[point];
        let reply = replies[point - 1];
        assert(prior.goes_to(reply, last));
        let workflow = prior.next as int;
        match (prior.phase, reply) {
            (UnloadPhase::Read, UnloadReply::History(history)) => {
                assert(checks[point - 1].next == workflow);
                if last.phase is ReadChild {
                    assert(reads_clear(checks, replies, workflow, history@, 0, point));
                }
                if last.next == prior.next + 1 {
                    assert(reads_clear(checks, replies, workflow, history@, -1, point));
                }
            },
            (UnloadPhase::ReadChild, UnloadReply::History(found)) => {
                assert(workflow_cleared(checks, replies, workflow, prior.child as int, point - 1));
                let k = choose|k: int|
                    {
                        &&& 0 <= k < point - 1
                        &&& (#[trigger] checks[k]).next == workflow
                        &&& checks[k].phase is Read
                        &&& replies[k] matches UnloadReply::History(history)
                        &&& reads_clear(
                            checks,
                            replies,
                            workflow,
                            history@,
                            prior.child as int,
                            point - 1,
                        )
                    };
                let history = replies[k]->History_0;
                let children = children_on(history@, checks[0].workflow_type@, checks[0].version);
                assert(prior.children@ == children);
                if found@.len() > 0 {
                    assert(child_exists(
                        checks,
                        replies,
                        workflow,
                        children[prior.child as int],
                        point,
                    )) by {
                        assert(checks[point - 1].next == workflow);
                    }
                    assert forall|c: int| 0 <= c < prior.child + 1 implies child_exists(
                        checks,
                        replies,
                        workflow,
                        #[trigger] children[c],
                        point,
                    ) by {
                        if c < prior.child {
                            lemma_child_still_exists(
                                checks,
                                replies,
                                workflow,
                                children[c],
                                point - 1,
                            );
                        }
                    }
                    if last.phase is ReadChild && last.next == prior.next {
                        assert(reads_clear(
                            checks,
                            replies,
                            workflow,
                            history@,
                            prior.child + 1,
                            point,
                        ));
                        assert(checks[k].next == workflow);
                    } else {
                        assert(reads_clear(checks, replies, workflow, history@, -1, point));
                        assert(checks[k].next == workflow);
                    }
                }
            },
            _ => {},
        }
        assert forall|other: int| 0 <= other < last.next implies #[trigger] workflow_cleared(
            checks,
            replies,
            other,
            -1,
            point,
        ) by {
            if other < prior.next {
                lemma_still_cleared(checks, replies, other, point - 1);
            }
        }
    }
}

/// A version that passes the check is pinned by no active workflow: each one's latest run
/// was read and found on another version, and every child that it records on the version
/// was found to have a history of its own.
pub proof fn an_unpinned_version_is_held_by_no_active_workflow(
    checks: Seq<UnloadCheck>,
    replies: Seq<UnloadReply>,
)
    requires
        unload_course(checks, replies),
        checks.last().phase is Unpinned,
    ensures
        forall|workflow: int|
            0 <= workflow < checks[0].active@.len() ==> #[trigger] workflow_cleared(
                checks,
                replies,
                workflow,
                -1,
                replies.len() as int,
            ),
{
    lemma_cleared(checks, replies, replies.len() as int);
}

/// The catalog is what is left of another one after a group was swapped out of it, but for
/// the pins: between the swap and the end of the check starts take and release pins, and
/// nothing else changes the catalog.
pub open spec fn left_by_swap(
    before: CatalogView,
    workflow_type: Seq<char>,
    version: ContentHash,
    removed: RemovedPackage,
    now: CatalogView,
) -> bool {
    &&& under_primary(before.groups)
    &&& swaps_out(
        before,
        workflow_type,
        version,
        removed,
        CatalogView { pins: before.pins, ..now },
    )
}

/// Ends the unload of a version that was swapped out, as the check of the stored instances
/// came out: an unpinned version stays out, and what was removed with it is handed on; a
/// refused one is put back.
///
/// # Errors
///
/// The refusal of the check. The catalog is then as it was before the swap.
pub fn settle_unload(
    catalog: &mut WorkflowCatalog,
    removed: RemovedPackage,
    check: UnloadCheck,
) -> (result: Result<RemovedPackage, EngineError>)
    requires
        old(catalog).wf(),
        removed.wf(),
        check.phase is Unpinned || check.phase is Refused,
    ensures
        final(catalog).wf(),
        match check.phase {
            UnloadPhase::Refused(error) => {
                &&& result == Err::<RemovedPackage, EngineError>(error)
                &&& final(catalog)@ == restored(old(catalog)@, removed)
                &&& forall|before: CatalogView, workflow_type: Seq<char>, version: ContentHash|
                    #[trigger] left_by_swap(before, workflow_type, version, removed, old(catalog)@)
                        ==> final(catalog)@ == (CatalogView { pins: old(catalog)@.pins, ..before })
            },
            _ => {
                &&& result == Ok::<RemovedPackage, EngineError>(removed)
                &&& final(catalog)@ == old(catalog)@
            },
        },
{
    match check.phase {
        UnloadPhase::Refused(error) => {
            proof {
                assert forall|before: CatalogView, workflow_type: Seq<char>, version: ContentHash|
                    #[trigger] left_by_swap(
                        before,
                        workflow_type,
                        version,
                        removed,
                        catalog@,
                    ) implies restored(catalog@, removed) == (CatalogView {
                    pins: catalog@.pins,
                    ..before
                }) by {
                    a_refused_unload_leaves_the_catalog_as_it_was(
                        before,
                        workflow_type,
                        version,
                        removed,
                        catalog@,
                    );
                }
            }
            catalog.restore_package(removed);
            Err(error)
        },
        _ => Ok(removed),
    }
}

/// A refused unload leaves the catalog untouched: what [`unload_workflow_version`] swapped
/// out is put back entirely, whatever starts have pinned and released meanwhile.
pub proof fn a_refused_unload_leaves_the_catalog_as_it_was(
    before: CatalogView,
    workflow_type: Seq<char>,
    version: ContentHash,
    removed: RemovedPackage,
    now: CatalogView,
)
    requires
        left_by_swap(before, workflow_type, version, removed, now),
    ensures
        restored(now, removed) == (CatalogView { pins: now.pins, ..before }),
{
    let out = CatalogView { pins: before.pins, ..now };
    let key = choose|key: (Seq<char>, ContentHash)|
        {
            let group = before.groups[key];
            &&& #[trigger] holds_group(before, key, workflow_type, version)
            &&& takes_out(before, group, version, removed)
            &&& out == swapped_out(before, group, version)
        };
    assert(before.groups.contains_key(key));
    restoring_undoes_swapping_out(before, key, workflow_type, version, removed);
    assert(restored(out, removed) == before);
}

/// The deployed modules among some that are unregistered: host modules were never
/// registered.
pub open spec fn unregistrable(names: Seq<Seq<char>>, native_modules: Seq<Seq<char>>) -> Seq<
    Seq<char>,
>
    decreases names.len(),
{
    if names.len() == 0 {
        Seq::empty()
    } else {
        let before = unregistrable(names.drop_last(), native_modules);
        if native(names.last(), native_modules) {
            before
        } else {
            before.push(names.last())
        }
    }
}

/// The deployed modules of a removed version that are unregistered from the runtime,
/// skipping host modules that were never registered.
pub fn modules_to_unregister(names: &Vec<String>, native_modules: &Vec<String>) -> (modules: Vec<
    String,
>)
    ensures
        texts(modules@) == unregistrable(texts(names@), texts(native_modules@)),
{
    let mut modules: Vec<String> = Vec::new();
    let ghost all = texts(names@);
    let mut i: usize = 0;
    proof {
        assert(all.take(0) =~= Seq::empty());
        assert(texts(modules@) =~= Seq::empty());
    }
    while i < names.len()
        invariant
            0 <= i <= names@.len(),
            all == texts(names@),
            texts(modules@) == unregistrable(all.take(i as int), texts(native_modules@)),
        decreases names.len() - i,
    {
        proof {
            assert(all.take(i + 1).drop_last() =~= all.take(i as int));
            assert(all.take(i + 1).last() == names@[i as int]@);
        }
        if !is_native_module(names[i].as_str(), native_modules) {
            let ghost listed = modules@;
            modules.push(names[i].clone());
            proof {
                assert(texts(modules@) =~= texts(listed).push(names@[i as int]@));
            }
        }
        i = i + 1;
    }
    proof {
        assert(all.take(i as int) =~= all);
    }
    modules
}

/// How a failed unregistration is reported.
pub fn unregister_failure(module: &str, error: &str) -> (text: String)
    ensures
        text@ == module@ + ": "@ + error@,
{
    concat3(module, ": ", error)
}

/// The outcome of unregistering the modules of a removed version. The catalog commit
/// stands either way.
///
/// # Errors
///
/// [`EngineError::Runtime`], naming every failure, when one failed.
pub fn unregister_unloaded_modules(
    workflow_type: &str,
    version: &ContentHash,
    failures: &Vec<String>,
) -> (result: Result<(), EngineError>)
    ensures
        match result {
            Ok(()) => failures@.len() == 0,
            Err(error) => failures@.len() > 0 && is_runtime_error(
                error,
                "workflow `"@ + workflow_type@ + "` version `"@ + hash_text(*version)
                    + "` was removed from the catalog but module unregistration failed for "@
                    + joined(texts(failures@), ", "@),
            ),
        },
{
    if failures.len() == 0 {
        Ok(())
    } else {
        Err(
            EngineError::Runtime {
                reason: concat6(
                    "workflow `",
                    workflow_type,
                    "` version `",
                    version.text().as_str(),
                    "` was removed from the catalog but module unregistration failed for ",
                    join(failures, ", ").as_str(),
                ),
            },
        )
    }
}

/// The latest run of a history pins a version exactly where its own start recorded the type
/// and the version, whatever earlier runs executed on.
pub proof fn the_latest_run_pins_its_own_version(
    history: Seq<Event>,
    workflow_type: Seq<char>,
    version: ContentHash,
    start: int,
)
    requires
        -1 <= start < history.len(),
        start >= 0 ==> history[start] is WorkflowStarted,
        forall|j: int| start < j < history.len() ==> !((#[trigger] history[j]) is WorkflowStarted),
    ensures
        start < 0 ==> !latest_run_pins(history, workflow_type, version),
        start >= 0 ==> (history[start] matches Event::WorkflowStarted {
            workflow_type: started,
            package_version,
            ..
        } && (latest_run_pins(history, workflow_type, version) <==> started@ == workflow_type
            && package_version.text@ == hash_text(version))),
{
    lemma_last_where_is(history, |event: Event| begins_run(event), start);
}

/// A history records a child on a version exactly where one of its events does: with the
/// child's type and on that version.
pub proof fn children_pin_the_version_they_are_recorded_on(
    history: Seq<Event>,
    workflow_type: Seq<char>,
    version: ContentHash,
    child: WorkflowId,
)
    ensures
        children_on(history, workflow_type, version).contains(child) <==> exists|i: int|
            0 <= i < history.len() && ((#[trigger] history[i]) matches Event::ChildWorkflowStarted {
                child_workflow_id,
                workflow_type: recorded,
                package_version,
                ..
            } && child_workflow_id == child && recorded@ == workflow_type && package_version.text@
                == hash_text(version)),
    decreases history.len(),
{
    if history.len() > 0 {
        let shorter = history.drop_last();
        let last = history.len() - 1;
        children_pin_the_version_they_are_recorded_on(shorter, workflow_type, version, child);
        let found = children_on(shorter, workflow_type, version);
        let all = children_on(history, workflow_type, version);
        assert(history[last] == history.last());
        assert forall|i: int| 0 <= i < shorter.len() implies #[trigger] shorter[i]
            == history[i] by {}
        if found.contains(child) {
            let p = choose|p: int| 0 <= p < found.len() && found[p] == child;
            assert(all[p] == child);
        }
        if records_child_on(history.last(), workflow_type, version) {
            assert(all[found.len() as int]
                == history.last()->ChildWorkflowStarted_child_workflow_id);
            if all.contains(child) {
                let p = choose|p: int| 0 <= p < all.len() && all[p] == child;
                if p < found.len() {
                    assert(found[p] == child);
                }
            }
        }
        if exists|i: int|
            0 <= i < shorter.len() && ((#[trigger] shorter[i]) matches
                Event::ChildWorkflowStarted {
                child_workflow_id,
                workflow_type: recorded,
                package_version,
                ..
            } && child_workflow_id == child && recorded@ == workflow_type && package_version.text@
                == hash_text(version)) {
            let i = choose|i: int|
                0 <= i < shorter.len() && ((#[trigger] shorter[i]) matches
                    Event::ChildWorkflowStarted {
                    child_workflow_id,
                    workflow_type: recorded,
                    package_version,
                    ..
                } && child_workflow_id == child && recorded@ == workflow_type
                    && package_version.text@ == hash_text(version));
            assert(history[i] == shorter[i]);
        }
        if exists|i: int|
            0 <= i < history.len() && ((#[trigger] history[i]) matches
                Event::ChildWorkflowStarted {
                child_workflow_id,
                workflow_type: recorded,
                package_version,
                ..
            } && child_workflow_id == child && recorded@ == workflow_type && package_version.text@
                == hash_text(version)) {
            let i = choose|i: int|
                0 <= i < history.len() && ((#[trigger] history[i]) matches
                    Event::ChildWorkflowStarted {
                    child_workflow_id,
                    workflow_type: recorded,
                    package_version,
                    ..
                } && child_workflow_id == child && recorded@ == workflow_type
                    && package_version.text@ == hash_text(version));
            if i < last {
                assert(shorter[i] == history[i]);
            }
        }
    }
}

/// A registered run pins a version exactly where it executes on it, as that type, and is
/// running or paused; and a pin is named with its type, its version and its holder.
pub proof fn a_live_run_pins_the_version_it_executes_on(
    registry: Map<RunKey, WorkflowHandle>,
    workflow_type: Seq<char>,
    version: ContentHash,
    error: EngineError,
    holder: PinHolder,
)
    ensures
        live_run_on(registry, workflow_type, version) <==> exists|key: RunKey| #[trigger]
            registry.contains_key(key) && registry[key].workflow_type@ == workflow_type
                && registry[key].loaded_version == version && (registry[key].cached_status
                == WorkflowStatus::Running || registry[key].cached_status
                == WorkflowStatus::Paused),
        is_pinned(error, workflow_type, version, holder) <==> (error matches
            EngineError::VersionPinned { workflow_type: named, version: at, pinned_by } && named@
            == workflow_type && at == version && pinned_by == holder),
{
    if live_run_on(registry, workflow_type, version) {
        let key = choose|key: RunKey| #[trigger]
            registry.contains_key(key) && runs_on(registry[key], workflow_type, version);
        assert(registry.contains_key(key));
    }
    if exists|key: RunKey| #[trigger]
        registry.contains_key(key) && registry[key].workflow_type@ == workflow_type
            && registry[key].loaded_version == version && (registry[key].cached_status
            == WorkflowStatus::Running || registry[key].cached_status == WorkflowStatus::Paused) {
        let key = choose|key: RunKey| #[trigger]
            registry.contains_key(key) && registry[key].workflow_type@ == workflow_type
                && registry[key].loaded_version == version && (registry[key].cached_status
                == WorkflowStatus::Running || registry[key].cached_status
                == WorkflowStatus::Paused);
        assert(runs_on(registry[key], workflow_type, version));
    }
}

/// An unload check refuses for the first stored instance that pins the version: a workflow
/// whose latest run is on it, or a child that was recorded on it and has no history. It
/// passes over every other one, and a failing read refuses the unload with its own error.
pub proof fn the_first_stored_pin_refuses_the_unload(
    check: UnloadCheck,
    reply: UnloadReply,
    after: UnloadCheck,
)
    requires
        check.fits(),
        check.goes_to(reply, after),
    ensures
        after.workflow_type == check.workflow_type,
        after.version == check.version,
        after.active == check.active,
        (reply matches UnloadReply::History(history) ==> {
            let id = check.active@[check.next as int];
            let pinned = latest_run_pins(history@, check.workflow_type@, check.version);
            let children = children_on(history@, check.workflow_type@, check.version);
            &&& check.phase is Read && pinned ==> (after.phase matches UnloadPhase::Refused(error)
                && is_pinned(
                error,
                check.workflow_type@,
                check.version,
                (PinHolder::RecoverableRun { workflow_id: id }),
            ))
            &&& check.phase is Read && !pinned && children.len() == 0 ==> after.next == check.next
                + 1
            &&& check.phase is Read && !pinned && children.len() > 0 ==> after.phase is ReadChild
                && after.children@ == children && after.child == 0 && after.next == check.next
            &&& check.phase is ReadChild && history@.len() == 0 ==> (after.phase matches
                UnloadPhase::Refused(error) && is_pinned(
                error,
                check.workflow_type@,
                check.version,
                (PinHolder::RecordedChild {
                    child_workflow_id: check.children@[check.child as int],
                    recorded_by: id,
                }),
            ))
            &&& check.phase is ReadChild && history@.len() > 0 && check.child + 1
                < check.children@.len() ==> after.phase is ReadChild && after.child == check.child
                + 1 && after.next == check.next && after.children == check.children
            &&& check.phase is ReadChild && history@.len() > 0 && check.child + 1
                == check.children@.len() ==> after.next == check.next + 1
        }),
        (reply matches UnloadReply::Failed(error) ==> (check.phase is Read || check.phase
            is ReadChild ==> after.phase == UnloadPhase::Refused(error))),
        after.next == check.next + 1 ==> (after.phase is Read <==> check.next + 1
            < check.active@.len()) && (after.phase is Unpinned <==> check.next + 1
            >= check.active@.len()),
        check.phase is Unpinned || check.phase is Refused ==> after == check,
{
    assert(check.children.len() == check.children@.len());
}

/// The modules that are unregistered are those of the removed version that the runtime does
/// not provide itself, in their order.
pub proof fn native_modules_stay_registered(
    names: Seq<Seq<char>>,
    native_modules: Seq<Seq<char>>,
)
    ensures
        unregistrable(names, native_modules) == names.filter(
            |name: Seq<char>| !native(name, native_modules),
        ),
    decreases names.len(),
{
    reveal(Seq::filter);
    if names.len() > 0 {
        native_modules_stay_registered(names.drop_last(), native_modules);
    } else {
        assert(unregistrable(names, native_modules) =~= names);
    }
}

/// A start in flight is named as what pins a version before any live run is, and a live run
/// that is named is one that executes on it.
pub proof fn a_start_in_flight_is_named_first(
    catalog: CatalogView,
    registry: Map<RunKey, WorkflowHandle>,
    workflow_type: Seq<char>,
    version: ContentHash,
    error: EngineError,
)
    requires
        pinned_here(catalog, registry, workflow_type, version, error),
    ensures
        pin_count(catalog.pins, (workflow_type, version)) > 0 ==> is_pinned(
            error,
            workflow_type,
            version,
            PinHolder::InFlightStart,
        ),
        pin_count(catalog.pins, (workflow_type, version)) == 0 ==> exists|key: RunKey| #[trigger]
            registry.contains_key(key) && registry[key].workflow_type@ == workflow_type
                && registry[key].loaded_version == version && is_pinned(
                error,
                workflow_type,
                version,
                (PinHolder::LiveRun { workflow_id: key.workflow_id, run_id: key.run_id }),
            ),
{
    if pin_count(catalog.pins, (workflow_type, version)) == 0 {
        let key = choose|key: RunKey| #[trigger]
            registry.contains_key(key) && runs_on(registry[key], workflow_type, version)
                && is_pinned(
                error,
                workflow_type,
                version,
                PinHolder::LiveRun { workflow_id: key.workflow_id, run_id: key.run_id },
            );
        assert(registry.contains_key(key));
    }
}

} // verus!
