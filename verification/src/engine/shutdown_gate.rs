//! Engine shutdown gating: lifecycle operations are counted in, shutdown closes the
//! barrier and waits for the count to drain before tearing the runtime down.

use vstd::prelude::*;

use crate::error::EngineError;

verus! {

/// What the barrier has let in.
#[derive(Clone, Copy, Debug, PartialEq, Eq, Structural)]
pub struct ShutdownState {
    /// Shutdown has begun.
    pub shutting_down: bool,
    /// Operations that were let in and have not finished.
    pub active_operations: usize,
}

/// The barrier that lifecycle operations pass.
#[derive(Debug, PartialEq, Eq)]
pub struct ShutdownGate {
    state: ShutdownState,
}

/// An operation is let in: it is counted unless shutdown has begun.
pub open spec fn admits(
    before: ShutdownState,
    after: ShutdownState,
    result: Result<(), EngineError>,
) -> bool {
    if before.shutting_down {
        after == before && result == Err::<(), EngineError>(EngineError::ShuttingDown)
    } else {
        &&& result == Ok::<(), EngineError>(())
        &&& after == (ShutdownState {
            active_operations: (before.active_operations + 1) as usize,
            ..before
        })
    }
}

impl View for ShutdownGate {
    type V = ShutdownState;

    closed spec fn view(&self) -> ShutdownState {
        self.state
    }
}

impl ShutdownGate {
    /// An open barrier that nothing has passed.
    pub fn new() -> (gate: Self)
        ensures
            gate@ == (ShutdownState { shutting_down: false, active_operations: 0 }),
    {
        ShutdownGate { state: ShutdownState { shutting_down: false, active_operations: 0 } }
    }

    /// What the barrier has let in.
    pub fn state(&self) -> (state: ShutdownState)
        ensures
            state == self@,
    {
        self.state
    }

    /// Lets a workflow start in.
    ///
    /// # Errors
    ///
    /// [`EngineError::ShuttingDown`] once shutdown has begun.
    pub fn begin_start(&mut self) -> (result: Result<(), EngineError>)
        requires
            old(self)@.shutting_down || old(self)@.active_operations < usize::MAX,
        ensures
            admits(old(self)@, final(self)@, result),
    {
        self.enter()
    }

    /// Lets another lifecycle operation in.
    ///
    /// # Errors
    ///
    /// [`EngineError::ShuttingDown`] once shutdown has begun.
    pub fn begin_operation(&mut self) -> (result: Result<(), EngineError>)
        requires
            old(self)@.shutting_down || old(self)@.active_operations < usize::MAX,
        ensures
            admits(old(self)@, final(self)@, result),
    {
        self.enter()
    }

    /// Counts an operation in unless shutdown has begun.
    fn enter(&mut self) -> (result: Result<(), EngineError>)
        requires
            old(self)@.shutting_down || old(self)@.active_operations < usize::MAX,
        ensures
            admits(old(self)@, final(self)@, result),
    {
        if self.state.shutting_down {
            return Err(EngineError::ShuttingDown);
        }
        self.state.active_operations = self.state.active_operations + 1;
        Ok(())
    }

    /// Counts a finished operation out. Returns whether the barrier is idle, so that a
    /// waiting shutdown is to be woken.
    pub fn finish_operation(&mut self) -> (idle: bool)
        ensures
            final(self)@ == (ShutdownState {
                active_operations: if old(self)@.active_operations > 0 {
                    (old(self)@.active_operations - 1) as usize
                } else {
                    0
                },
                ..old(self)@
            }),
            idle == (final(self)@.active_operations == 0),
    {
        if self.state.active_operations > 0 {
            self.state.active_operations = self.state.active_operations - 1;
        }
        self.state.active_operations == 0
    }

    /// Closes the barrier. Returns whether shutdown may go on; it has to wait otherwise
    /// until the last operation finishes.
    pub fn close_and_wait(&mut self) -> (drained: bool)
        ensures
            final(self)@ == (ShutdownState { shutting_down: true, ..old(self)@ }),
            drained == (old(self)@.active_operations == 0),
    {
        self.state.shutting_down = true;
        self.state.active_operations == 0
    }
}

/// What happens at the barrier.
pub enum GateEvent {
    /// An operation asks to be let in.
    Enter,
    /// An operation that was let in finishes.
    Finish,
    /// Shutdown begins.
    Close,
}

/// The barrier after an event.
pub open spec fn gate_after(state: ShutdownState, event: GateEvent) -> ShutdownState {
    match event {
        GateEvent::Enter => if state.shutting_down {
            state
        } else {
            ShutdownState { active_operations: (state.active_operations + 1) as usize, ..state }
        },
        GateEvent::Finish => if state.active_operations > 0 {
            ShutdownState { active_operations: (state.active_operations - 1) as usize, ..state }
        } else {
            state
        },
        GateEvent::Close => ShutdownState { shutting_down: true, ..state },
    }
}

/// The barrier after a sequence of events.
pub open spec fn gate_after_all(state: ShutdownState, events: Seq<GateEvent>) -> ShutdownState
    decreases events.len(),
{
    if events.len() == 0 {
        state
    } else {
        gate_after(gate_after_all(state, events.drop_last()), events.last())
    }
}

/// Once shutdown has begun the barrier stays closed and its count never grows.
pub proof fn a_closed_gate_only_drains(state: ShutdownState, events: Seq<GateEvent>)
    requires
        state.shutting_down,
    ensures
        gate_after_all(state, events).shutting_down,
        gate_after_all(state, events).active_operations <= state.active_operations,
    decreases events.len(),
{
    if events.len() > 0 {
        a_closed_gate_only_drains(state, events.drop_last());
    }
}

/// Once shutdown has begun every operation is refused, whatever happens at the barrier
/// in between, and a refusal leaves the barrier as it is.
pub proof fn a_closed_gate_refuses_every_operation(
    state: ShutdownState,
    events: Seq<GateEvent>,
    after: ShutdownState,
    result: Result<(), EngineError>,
)
    requires
        state.shutting_down,
        admits(gate_after_all(state, events), after, result),
    ensures
        result == Err::<(), EngineError>(EngineError::ShuttingDown),
        after == gate_after_all(state, events),
{
    a_closed_gate_only_drains(state, events);
}

/// Once shutdown has begun, one finish for each operation that was let in drains the
/// barrier.
pub proof fn finishing_every_operation_drains_the_gate(
    state: ShutdownState,
    events: Seq<GateEvent>,
)
    requires
        state.shutting_down,
        forall|i: int| 0 <= i < events.len() ==> (#[trigger] events[i]) is Finish,
        events.len() == state.active_operations,
    ensures
        gate_after_all(state, events) == (ShutdownState { active_operations: 0, ..state }),
{
    lemma_finishes(state, events);
}

/// The count after some finishes.
proof fn lemma_finishes(state: ShutdownState, events: Seq<GateEvent>)
    requires
        forall|i: int| 0 <= i < events.len() ==> (#[trigger] events[i]) is Finish,
        events.len() <= state.active_operations,
    ensures
        gate_after_all(state, events) == (ShutdownState {
            active_operations: (state.active_operations - events.len()) as usize,
            ..state
        }),
    decreases events.len(),
{
    if events.len() > 0 {
        let shorter = events.drop_last();
        assert forall|i: int| 0 <= i < shorter.len() implies (#[trigger] shorter[i]) is Finish by {
            assert(shorter[i] == events[i]);
        }
        lemma_finishes(state, shorter);
        assert(events[events.len() - 1] is Finish);
    }
}

} // verus!
