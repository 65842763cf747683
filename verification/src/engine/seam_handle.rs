//! The engine's own side of the service seam: workflow residency resolution and mailbox
//! delivery, with the remaining operations routed through dedicated bridges.

use vstd::prelude::*;
use vstd::string::*;

use crate::engine_seam::{
    ChildWorkflowSpawnRequest, ChildWorkflowSpawnResult, EngineSeamError, TimerWheelEntry,
    WorkflowMailboxMessage, WorkflowProcessHandle, WorkflowResidency,
};
use crate::event::Event;
use crate::ids::{TimerId, WorkflowId};
use crate::registry::{key_of, Registry, Residency, RunKey, WorkflowHandle};
use crate::text::concat2;

verus! {

/// Which side of the engine answers.
#[derive(Clone, Copy, Debug, PartialEq, Eq, Structural)]
pub enum SeamSide {
    /// A live engine.
    Engine,
    /// The handoff of deferred signals to a run that has just become resident.
    ResumeHandoff,
}

/// An operation that is not performed through this seam.
#[derive(Clone, Copy, Debug, PartialEq, Eq, Structural)]
pub enum SeamOperation {
    /// Spawning a child workflow.
    SpawnChild,
    /// Terminating a linked child workflow.
    TerminateChild,
    /// Terminating a linked activity.
    TerminateActivity,
    /// Arming a timer.
    ArmTimer,
    /// Disarming a timer.
    DisarmTimer,
    /// Recording an event.
    RecordEvent,
}

/// Why an operation is refused.
pub open spec fn refusal(side: SeamSide, operation: SeamOperation) -> Seq<char> {
    match (side, operation) {
        (SeamSide::Engine, SeamOperation::SpawnChild) => {
            "engine handle child spawning is not wired here"@
        },
        (SeamSide::Engine, SeamOperation::TerminateChild) => {
            "engine handle child termination is not wired here"@
        },
        (SeamSide::Engine, SeamOperation::TerminateActivity) => {
            "engine handle activity termination is not wired here"@
        },
        (SeamSide::Engine, SeamOperation::ArmTimer) => {
            "engine handle timer arming is not wired here"@
        },
        (SeamSide::Engine, SeamOperation::DisarmTimer) => {
            "engine handle timer disarming is not wired here"@
        },
        (SeamSide::Engine, SeamOperation::RecordEvent) => {
            "engine handle event recording is not wired here"@
        },
        (SeamSide::ResumeHandoff, SeamOperation::SpawnChild) => {
            "start resume handoff cannot spawn child workflows"@
        },
        (SeamSide::ResumeHandoff, SeamOperation::TerminateChild) => {
            "start resume handoff cannot terminate child workflows"@
        },
        (SeamSide::ResumeHandoff, SeamOperation::TerminateActivity) => {
            "start resume handoff cannot terminate activities"@
        },
        (SeamSide::ResumeHandoff, SeamOperation::ArmTimer) => {
            "start resume handoff cannot arm timers"@
        },
        (SeamSide::ResumeHandoff, SeamOperation::DisarmTimer) => {
            "start resume handoff cannot disarm timers"@
        },
        (SeamSide::ResumeHandoff, SeamOperation::RecordEvent) => {
            "start resume handoff cannot record workflow events"@
        },
    }
}

/// Why an operation is refused.
fn refusal_text(side: SeamSide, operation: SeamOperation) -> (text: String)
    ensures
        text@ == refusal(side, operation),
{
    let text = match (side, operation) {
        (SeamSide::Engine, SeamOperation::SpawnChild) => {
            "engine handle child spawning is not wired here"
        },
        (SeamSide::Engine, SeamOperation::TerminateChild) => {
            "engine handle child termination is not wired here"
        },
        (SeamSide::Engine, SeamOperation::TerminateActivity) => {
            "engine handle activity termination is not wired here"
        },
        (SeamSide::Engine, SeamOperation::ArmTimer) => {
            "engine handle timer arming is not wired here"
        },
        (SeamSide::Engine, SeamOperation::DisarmTimer) => {
            "engine handle timer disarming is not wired here"
        },
        (SeamSide::Engine, SeamOperation::RecordEvent) => {
            "engine handle event recording is not wired here"
        },
        (SeamSide::ResumeHandoff, SeamOperation::SpawnChild) => {
            "start resume handoff cannot spawn child workflows"
        },
        (SeamSide::ResumeHandoff, SeamOperation::TerminateChild) => {
            "start resume handoff cannot terminate child workflows"
        },
        (SeamSide::ResumeHandoff, SeamOperation::TerminateActivity) => {
            "start resume handoff cannot terminate activities"
        },
        (SeamSide::ResumeHandoff, SeamOperation::ArmTimer) => {
            "start resume handoff cannot arm timers"
        },
        (SeamSide::ResumeHandoff, SeamOperation::DisarmTimer) => {
            "start resume handoff cannot disarm timers"
        },
        (SeamSide::ResumeHandoff, SeamOperation::RecordEvent) => {
            "start resume handoff cannot record workflow events"
        },
    };
    text.to_owned()
}

/// What an unsupported message is reported with.
pub open spec fn unsupported(side: SeamSide) -> Seq<char> {
    match side {
        SeamSide::Engine => "unsupported workflow mailbox message: "@,
        SeamSide::ResumeHandoff => "unsupported resume handoff message: "@,
    }
}

/// The engine as the services see it.
pub struct EngineSeam<'a> {
    /// Which side of the engine answers.
    pub side: SeamSide,
    /// Active execution registry.
    pub registry: &'a Registry,
}

/// A registered handle of a workflow answers for its residency.
pub open spec fn answers(handle: WorkflowHandle, residency: WorkflowResidency) -> bool {
    if handle.residency == Residency::Resident {
        residency matches WorkflowResidency::Resident(process) && process.process() == handle.pid
    } else {
        residency is NonResident
    }
}

impl<'a> EngineSeam<'a> {
    /// Resolves a workflow: to the process of a registered resident run, to a workflow
    /// without one, or to an unknown workflow.
    pub fn resolve_workflow(&self, workflow_id: &WorkflowId) -> (residency: WorkflowResidency)
        requires
            self.registry.wf(),
        ensures
            residency is Unknown <==> forall|key: RunKey| #[trigger]
                self.registry@.contains_key(key) ==> key.workflow_id != *workflow_id,
            !(residency is Unknown) ==> exists|key: RunKey| #[trigger]
                self.registry@.contains_key(key) && key.workflow_id == *workflow_id && answers(
                    self.registry@[key],
                    residency,
                ),
    {
        match self.registry.first_of(workflow_id) {
            Some(handle) => {
                proof {
                    self.registry.lemma_listing();
                    let i = choose|i: int|
                        0 <= i < self.registry.listing().len() && #[trigger] self.registry.listing()[i]
                            == handle;
                    assert(self.registry@.contains_key(key_of(self.registry.listing()[i])));
                }
                match handle.residency {
                    Residency::Resident => WorkflowResidency::Resident(
                        WorkflowProcessHandle::new(handle.pid),
                    ),
                    Residency::Suspended => WorkflowResidency::NonResident,
                }
            },
            None => WorkflowResidency::Unknown,
        }
    }

    /// The process to which a mailbox message is delivered: only a recorded signal is
    /// delivered through this seam. `rendered` is the message as it is reported.
    ///
    /// # Errors
    ///
    /// [`EngineSeamError::Delivery`] for every other message.
    pub fn deliver_workflow_message(
        &self,
        process: WorkflowProcessHandle,
        message: &WorkflowMailboxMessage,
        rendered: &str,
    ) -> (result: Result<u64, EngineSeamError>)
        ensures
            if *message is SignalReceived {
                result == Ok::<u64, EngineSeamError>(process.process())
            } else {
                &&& result matches Err(EngineSeamError::Delivery { reason })
                &&& reason@ == unsupported(self.side) + rendered@
            },
    {
        match message {
            WorkflowMailboxMessage::SignalReceived { .. } => Ok(process.pid()),
            _ => {
                let prefix = match self.side {
                    SeamSide::Engine => "unsupported workflow mailbox message: ",
                    SeamSide::ResumeHandoff => "unsupported resume handoff message: ",
                };
                Err(EngineSeamError::Delivery { reason: concat2(prefix, rendered) })
            },
        }
    }

    /// Refuses to spawn a child.
    ///
    /// # Errors
    ///
    /// Always [`EngineSeamError::ChildSpawn`].
    pub fn spawn_child_workflow(&self, request: ChildWorkflowSpawnRequest) -> (result: Result<
        ChildWorkflowSpawnResult,
        EngineSeamError,
    >)
        ensures
            result matches Err(EngineSeamError::ChildSpawn { reason }) && reason@
                == refusal(self.side, SeamOperation::SpawnChild),
    {
        Err(
            EngineSeamError::ChildSpawn {
                reason: refusal_text(self.side, SeamOperation::SpawnChild),
            },
        )
    }

    /// Refuses to terminate a linked child.
    ///
    /// # Errors
    ///
    /// Always [`EngineSeamError::ChildTermination`].
    pub fn terminate_linked_child_workflow(
        &self,
        parent_workflow_id: &WorkflowId,
        child_process: WorkflowProcessHandle,
        correlation: u64,
    ) -> (result: Result<(), EngineSeamError>)
        ensures
            result matches Err(EngineSeamError::ChildTermination { reason }) && reason@
                == refusal(self.side, SeamOperation::TerminateChild),
    {
        Err(
            EngineSeamError::ChildTermination {
                reason: refusal_text(self.side, SeamOperation::TerminateChild),
            },
        )
    }

    /// Refuses to terminate a linked activity.
    ///
    /// # Errors
    ///
    /// Always [`EngineSeamError::ChildTermination`].
    pub fn terminate_linked_activity(
        &self,
        parent_workflow_id: &WorkflowId,
        activity_process: u64,
        correlation: u64,
    ) -> (result: Result<(), EngineSeamError>)
        ensures
            result matches Err(EngineSeamError::ChildTermination { reason }) && reason@
                == refusal(self.side, SeamOperation::TerminateActivity),
    {
        Err(
            EngineSeamError::ChildTermination {
                reason: refusal_text(self.side, SeamOperation::TerminateActivity),
            },
        )
    }

    /// Refuses to arm a timer.
    ///
    /// # Errors
    ///
    /// Always [`EngineSeamError::TimerWheel`].
    pub fn arm_timer(&self, entry: TimerWheelEntry) -> (result: Result<(), EngineSeamError>)
        ensures
            result matches Err(EngineSeamError::TimerWheel { reason }) && reason@
                == refusal(self.side, SeamOperation::ArmTimer),
    {
        Err(
            EngineSeamError::TimerWheel {
                reason: refusal_text(self.side, SeamOperation::ArmTimer),
            },
        )
    }

    /// Refuses to disarm a timer.
    ///
    /// # Errors
    ///
    /// Always [`EngineSeamError::TimerWheel`].
    pub fn disarm_timer(&self, process: WorkflowProcessHandle, timer_id: &TimerId) -> (result: Result<
        (),
        EngineSeamError,
    >)
        ensures
            result matches Err(EngineSeamError::TimerWheel { reason }) && reason@
                == refusal(self.side, SeamOperation::DisarmTimer),
    {
        Err(
            EngineSeamError::TimerWheel {
                reason: refusal_text(self.side, SeamOperation::DisarmTimer),
            },
        )
    }

    /// Refuses to record an event.
    ///
    /// # Errors
    ///
    /// Always [`EngineSeamError::Recorder`].
    pub fn record_workflow_event(&self, workflow_id: &WorkflowId, event: Event) -> (result: Result<
        (),
        EngineSeamError,
    >)
        ensures
            result matches Err(EngineSeamError::Recorder { reason }) && reason@
                == refusal(self.side, SeamOperation::RecordEvent),
    {
        Err(
            EngineSeamError::Recorder {
                reason: refusal_text(self.side, SeamOperation::RecordEvent),
            },
        )
    }
}

} // verus!
