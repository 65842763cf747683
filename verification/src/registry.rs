//! Active workflow registry and handle residency tracking.

use vstd::prelude::*;

use crate::content_hash::ContentHash;
use crate::event::{ended, Event, WorkflowStatus};
use crate::history::{run_segment, segment_of, status_from_events, status_of};
use crate::ids::{RunId, WorkflowId};
use crate::table::{lemma_entry_map, position_of, Table, TableKey};

verus! {

/// Whether a run has a live process in this engine.
#[derive(Clone, Copy, Debug, PartialEq, Eq, Hash, Structural)]
pub enum Residency {
    /// A live process drives the run.
    Resident,
    /// The run waits durably without one.
    Suspended,
}

/// A workflow and one of its runs.
#[derive(Clone, Copy, Debug, PartialEq, Eq, Hash, Structural)]
pub struct RunKey {
    /// The workflow.
    pub workflow_id: WorkflowId,
    /// The run.
    pub run_id: RunId,
}

impl View for RunKey {
    type V = RunKey;

    open spec fn view(&self) -> RunKey {
        *self
    }
}

impl TableKey for RunKey {
    fn same(&self, other: &Self) -> (same: bool) {
        *self == *other
    }
}

/// A registered workflow run.
#[derive(Debug, PartialEq, Eq)]
pub struct WorkflowHandle {
    /// The workflow.
    pub workflow_id: WorkflowId,
    /// The run.
    pub run_id: RunId,
    /// Process that drives the run.
    pub pid: u64,
    /// Logical workflow type.
    pub workflow_type: String,
    /// Namespace that the run belongs to.
    pub namespace: String,
    /// Package version that the run executes on.
    pub loaded_version: ContentHash,
    /// Status as last projected from history.
    pub cached_status: WorkflowStatus,
    /// Whether a live process drives the run.
    pub residency: Residency,
}

impl Clone for WorkflowHandle {
    fn clone(&self) -> (copy: Self)
        ensures
            copy == *self,
    {
        WorkflowHandle {
            workflow_id: self.workflow_id,
            run_id: self.run_id,
            pid: self.pid,
            workflow_type: self.workflow_type.clone(),
            namespace: self.namespace.clone(),
            loaded_version: self.loaded_version,
            cached_status: self.cached_status,
            residency: self.residency,
        }
    }
}

/// The key under which a handle is registered.
pub open spec fn key_of(handle: WorkflowHandle) -> RunKey {
    RunKey { workflow_id: handle.workflow_id, run_id: handle.run_id }
}

/// Active executions, by workflow and run.
pub struct Registry {
    handles: Table<RunKey, WorkflowHandle>,
}

impl View for Registry {
    type V = Map<RunKey, WorkflowHandle>;

    closed spec fn view(&self) -> Map<RunKey, WorkflowHandle> {
        self.handles@
    }
}

/// A handle of the workflow is registered whose run has not ended.
pub open spec fn has_live_run(handles: Map<RunKey, WorkflowHandle>, id: WorkflowId) -> bool {
    exists|key: RunKey| #[trigger]
        handles.contains_key(key) && key.workflow_id == id && !ended(handles[key].cached_status)
}

impl Registry {
    /// Every handle is registered under its own key.
    pub closed spec fn wf(&self) -> bool {
        &&& self.handles.wf()
        &&& forall|key: RunKey| #[trigger]
            self.handles@.contains_key(key) ==> key_of(self.handles@[key]) == key
    }

    /// An empty registry.
    pub fn new() -> (registry: Self)
        ensures
            registry.wf(),
            registry@ == Map::<RunKey, WorkflowHandle>::empty(),
    {
        Registry { handles: Table::new() }
    }

    /// Every registered handle stands under its own key.
    pub proof fn handles_stand_under_their_own_key(&self)
        requires
            self.wf(),
        ensures
            forall|key: RunKey| #[trigger] self@.contains_key(key) ==> key_of(self@[key]) == key,
    {
    }

    /// Registers a handle, replacing the one of the same run.
    pub fn insert(&mut self, handle: WorkflowHandle)
        requires
            old(self).wf(),
        ensures
            final(self).wf(),
            final(self)@ == old(self)@.insert(key_of(handle), handle),
    {
        let key = RunKey { workflow_id: handle.workflow_id, run_id: handle.run_id };
        self.handles.insert(key, handle);
    }

    /// The handle of a run.
    pub fn get(&self, id: &WorkflowId, run: &RunId) -> (handle: Option<WorkflowHandle>)
        requires
            self.wf(),
        ensures
            ({
                let key = RunKey { workflow_id: *id, run_id: *run };
                match handle {
                    Some(handle) => self@.contains_key(key) && handle == self@[key],
                    None => !self@.contains_key(key),
                }
            }),
    {
        match self.handles.get(&RunKey { workflow_id: *id, run_id: *run }) {
            Some(handle) => Some(handle.clone()),
            None => None,
        }
    }

    /// Removes the handle of a run.
    pub fn remove(&mut self, id: &WorkflowId, run: &RunId) -> (handle: Option<WorkflowHandle>)
        requires
            old(self).wf(),
        ensures
            final(self).wf(),
            ({
                let key = RunKey { workflow_id: *id, run_id: *run };
                &&& final(self)@ == old(self)@.remove(key)
                &&& match handle {
                    Some(handle) => old(self)@.contains_key(key) && handle == old(self)@[key],
                    None => !old(self)@.contains_key(key),
                }
            }),
    {
        self.handles.remove(&RunKey { workflow_id: *id, run_id: *run })
    }

    /// Changes the residency of a run without removing it.
    pub fn replace_residency(&mut self, id: &WorkflowId, run: &RunId, residency: Residency) -> (handle:
        Option<WorkflowHandle>)
        requires
            old(self).wf(),
        ensures
            final(self).wf(),
            ({
                let key = RunKey { workflow_id: *id, run_id: *run };
                match handle {
                    Some(handle) => {
                        &&& old(self)@.contains_key(key)
                        &&& handle == (WorkflowHandle { residency, ..old(self)@[key] })
                        &&& final(self)@ == old(self)@.insert(key, handle)
                    },
                    None => !old(self)@.contains_key(key) && final(self)@ == old(self)@,
                }
            }),
    {
        match self.get(id, run) {
            Some(handle) => {
                let mut changed = handle;
                changed.residency = residency;
                self.insert(changed.clone());
                Some(changed)
            },
            None => None,
        }
    }

    /// Brings the cached status of a run in line with durable history; residency stays
    /// as it is.
    pub fn reconcile(&mut self, id: &WorkflowId, run: &RunId, events: &[Event]) -> (handle: Option<
        WorkflowHandle,
    >)
        requires
            old(self).wf(),
        ensures
            final(self).wf(),
            ({
                let key = RunKey { workflow_id: *id, run_id: *run };
                match handle {
                    Some(handle) => {
                        &&& old(self)@.contains_key(key)
                        &&& handle == (WorkflowHandle {
                            cached_status: status_of(segment_of(events@, *run)),
                            ..old(self)@[key]
                        })
                        &&& final(self)@ == old(self)@.insert(key, handle)
                    },
                    None => !old(self)@.contains_key(key) && final(self)@ == old(self)@,
                }
            }),
    {
        match self.get(id, run) {
            Some(handle) => {
                let mut changed = handle;
                changed.cached_status = status_from_events(run_segment(events, run));
                self.insert(changed.clone());
                Some(changed)
            },
            None => None,
        }
    }

    /// The registered handles, in the order of registration.
    pub closed spec fn listing(&self) -> Seq<WorkflowHandle> {
        self.handles.entries().map_values(|entry: (RunKey, WorkflowHandle)| entry.1)
    }

    /// The listing holds each registered handle once.
    pub proof fn lemma_listing(&self)
        requires
            self.wf(),
        ensures
            forall|i: int|
                0 <= i < self.listing().len() ==> self@.contains_key(
                    key_of(#[trigger] self.listing()[i]),
                ) && self@[key_of(self.listing()[i])] == self.listing()[i],
            forall|key: RunKey| #[trigger]
                self@.contains_key(key) ==> exists|i: int|
                    0 <= i < self.listing().len() && #[trigger] self.listing()[i] == self@[key],
            forall|i: int, j: int|
                0 <= i < j < self.listing().len() ==> key_of(#[trigger] self.listing()[i])
                    != key_of(#[trigger] self.listing()[j]),
    {
        let entries = self.handles.entries();
        lemma_entry_map(entries);
        assert forall|i: int| 0 <= i < self.listing().len() implies self@.contains_key(
            key_of(#[trigger] self.listing()[i]),
        ) && self@[key_of(self.listing()[i])] == self.listing()[i] by {
            assert(self.handles@.contains_key(entries[i].0@));
            assert(entries[i].0@ == key_of(entries[i].1));
        }
        assert forall|key: RunKey| #[trigger] self@.contains_key(key) implies exists|i: int|
            0 <= i < self.listing().len() && #[trigger] self.listing()[i] == self@[key] by {
            let p = position_of(entries, key);
            assert(entries[p].0@ == key);
            assert(self.listing()[p] == self@[key]);
        }
        assert forall|i: int, j: int| 0 <= i < j < self.listing().len() implies key_of(
            #[trigger] self.listing()[i],
        ) != key_of(#[trigger] self.listing()[j]) by {
            assert(self.handles@.contains_key(entries[i].0@));
            assert(self.handles@.contains_key(entries[j].0@));
            assert(entries[i].0@ != entries[j].0@);
        }
    }

    /// Every registered handle.
    pub fn list(&self) -> (handles: Vec<WorkflowHandle>)
        ensures
            handles@ == self.listing(),
    {
        let mut handles: Vec<WorkflowHandle> = Vec::new();
        let mut i: usize = 0;
        while i < self.handles.len()
            invariant
                0 <= i <= self.handles.entries().len(),
                handles@.len() == i,
                forall|j: int|
                    0 <= j < i ==> #[trigger] handles@[j] == self.handles.entries()[j].1,
            decreases self.handles.entries().len() - i,
        {
            handles.push(self.handles.entry(i).1.clone());
            i = i + 1;
        }
        assert(handles@ =~= self.listing());
        handles
    }

    /// A handle of the workflow whose run has not ended, if one is registered.
    pub fn live_run(&self, id: &WorkflowId) -> (handle: Option<WorkflowHandle>)
        requires
            self.wf(),
        ensures
            match handle {
                Some(handle) => {
                    &&& self@.contains_key(key_of(handle))
                    &&& self@[key_of(handle)] == handle
                    &&& handle.workflow_id == *id
                    &&& !ended(handle.cached_status)
                },
                None => !has_live_run(self@, *id),
            },
    {
        let handles = self.list();
        proof {
            self.lemma_listing();
        }
        let mut i: usize = 0;
        while i < handles.len()
            invariant
                self.wf(),
                handles@ == self.listing(),
                0 <= i <= handles@.len(),
                forall|j: int|
                    0 <= j < i ==> !((#[trigger] handles@[j]).workflow_id == *id && !ended(
                        handles@[j].cached_status,
                    )),
            decreases handles.len() - i,
        {
            if handles[i].workflow_id == *id && !handles[i].cached_status.is_terminal() {
                proof {
                    self.lemma_listing();
                    assert(handles@[i as int] == self.listing()[i as int]);
                }
                return Some(handles[i].clone());
            }
            i = i + 1;
        }
        proof {
            if has_live_run(self@, *id) {
                let key = choose|key: RunKey| #[trigger]
                    self@.contains_key(key) && key.workflow_id == *id && !ended(
                        self@[key].cached_status,
                    );
                assert(key_of(self@[key]) == key);
                let i = choose|i: int|
                    0 <= i < self.listing().len() && #[trigger] self.listing()[i] == self@[key];
                assert(handles@[i].workflow_id == *id);
            }
        }
        None
    }

    /// The first registered handle of a workflow.
    pub fn first_of(&self, id: &WorkflowId) -> (handle: Option<WorkflowHandle>)
        requires
            self.wf(),
        ensures
            match handle {
                Some(handle) => exists|i: int|
                    {
                        &&& 0 <= i < self.listing().len()
                        &&& #[trigger] self.listing()[i] == handle
                        &&& handle.workflow_id == *id
                        &&& forall|j: int|
                            0 <= j < i ==> (#[trigger] self.listing()[j]).workflow_id != *id
                    },
                None => forall|key: RunKey| #[trigger]
                    self@.contains_key(key) ==> key.workflow_id != *id,
            },
    {
        let handles = self.list();
        let mut i: usize = 0;
        while i < handles.len()
            invariant
                handles@ == self.listing(),
                0 <= i <= handles@.len(),
                forall|j: int| 0 <= j < i ==> (#[trigger] handles@[j]).workflow_id != *id,
            decreases handles.len() - i,
        {
            if handles[i].workflow_id == *id {
                proof {
                    assert(self.listing()[i as int] == handles@[i as int]);
                }
                return Some(handles[i].clone());
            }
            i = i + 1;
        }
        proof {
            self.lemma_listing();
            assert forall|key: RunKey| #[trigger] self@.contains_key(key) implies key.workflow_id
                != *id by {
                assert(key_of(self@[key]) == key);
                let k = choose|k: int|
                    0 <= k < self.listing().len() && #[trigger] self.listing()[k] == self@[key];
                assert(handles@[k].workflow_id != *id);
            }
        }
        None
    }
}

} // verus!
