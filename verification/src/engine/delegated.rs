//! The signal, query and subscription surface: event filters, the deferred seams, and how
//! a signal or a query finds its target run.

use vstd::prelude::*;
use vstd::string::*;

use crate::clock::{endless, TimeSpan};
use crate::error::{
    is_run_not_found, is_runtime_error, workflow_not_found, EngineError, QueryError,
    SignalRouterError,
};
use crate::event::{envelope_of, Event, Payload};
use crate::history::{
    current_lease_terminal, has_started, lease_terminal, run_segment, run_started, segment_of,
};
use crate::ids::{RunId, WorkflowId};
use crate::registry::WorkflowHandle;
use crate::text::{concat3, decimal, decimal_text};

verus! {

/// Coarse event families for live subscription filtering.
#[derive(Clone, Copy, Debug, PartialEq, Eq, Structural)]
pub enum EventFamily {
    /// Workflow lifecycle events.
    Workflow,
    /// Activity scheduling and completion events.
    Activity,
    /// Timer events.
    Timer,
    /// Signal delivery events.
    Signal,
    /// Child-workflow lifecycle events.
    ChildWorkflow,
    /// Schedule lifecycle and trigger events.
    Schedule,
}

/// The family of an event.
pub open spec fn family_of(event: Event) -> EventFamily {
    match event {
        Event::ActivityScheduled { .. }
        | Event::ActivityStarted { .. }
        | Event::ActivityCompleted { .. }
        | Event::ActivityFailed { .. }
        | Event::ActivityCancelled { .. } => EventFamily::Activity,
        Event::TimerStarted { .. }
        | Event::TimerFired { .. }
        | Event::TimerCancelled { .. }
        | Event::WithTimeoutCompleted { .. } => EventFamily::Timer,
        Event::SignalReceived { .. } | Event::SignalSent { .. } => EventFamily::Signal,
        Event::ChildWorkflowStarted { .. }
        | Event::ChildWorkflowCompleted { .. }
        | Event::ChildWorkflowFailed { .. }
        | Event::ChildWorkflowCancelled { .. } => EventFamily::ChildWorkflow,
        Event::ScheduleCreated { .. }
        | Event::ScheduleUpdated { .. }
        | Event::SchedulePaused { .. }
        | Event::ScheduleResumed { .. }
        | Event::ScheduleDeleted { .. }
        | Event::ScheduleTriggered { .. } => EventFamily::Schedule,
        _ => EventFamily::Workflow,
    }
}

/// The family of an event.
pub fn event_family(event: &Event) -> (family: EventFamily)
    ensures
        family == family_of(*event),
{
    match event {
        Event::WorkflowStarted { .. }
        | Event::WorkflowCompleted { .. }
        | Event::WorkflowFailed { .. }
        | Event::WorkflowCancelled { .. }
        | Event::WorkflowTimedOut { .. }
        | Event::WorkflowContinuedAsNew { .. }
        | Event::WorkflowReopened { .. }
        | Event::WorkflowPaused { .. }
        | Event::WorkflowResumed { .. }
        | Event::SearchAttributesUpdated { .. } => EventFamily::Workflow,
        Event::ActivityScheduled { .. }
        | Event::ActivityStarted { .. }
        | Event::ActivityCompleted { .. }
        | Event::ActivityFailed { .. }
        | Event::ActivityCancelled { .. } => EventFamily::Activity,
        Event::TimerStarted { .. }
        | Event::TimerFired { .. }
        | Event::TimerCancelled { .. }
        | Event::WithTimeoutCompleted { .. } => EventFamily::Timer,
        Event::SignalReceived { .. } | Event::SignalSent { .. } => EventFamily::Signal,
        Event::ChildWorkflowStarted { .. }
        | Event::ChildWorkflowCompleted { .. }
        | Event::ChildWorkflowFailed { .. }
        | Event::ChildWorkflowCancelled { .. } => EventFamily::ChildWorkflow,
        Event::ScheduleCreated { .. }
        | Event::ScheduleUpdated { .. }
        | Event::SchedulePaused { .. }
        | Event::ScheduleResumed { .. }
        | Event::ScheduleDeleted { .. }
        | Event::ScheduleTriggered { .. } => EventFamily::Schedule,
    }
}

/// Live-event subscription filter.
///
/// The `run` field is part of the contract even though events do not carry run
/// metadata; a publisher that knows run residency can apply it.
#[derive(Clone, Copy, Debug, PartialEq, Eq, Structural)]
pub struct EventFilter {
    /// Match events for this workflow execution.
    pub workflow_id: Option<WorkflowId>,
    /// Match events for this run when the publisher has run metadata.
    pub run: Option<RunId>,
    /// Match events belonging to this event family.
    pub family: Option<EventFamily>,
}

impl Default for EventFilter {
    fn default() -> (filter: Self)
        ensures
            filter == (EventFilter { workflow_id: None, run: None, family: None }),
    {
        EventFilter { workflow_id: None, run: None, family: None }
    }
}

impl EventFilter {
    /// An event satisfies the constraints that are visible on it.
    pub open spec fn admits(self, event: Event) -> bool {
        &&& self.workflow_id matches Some(workflow_id) ==> envelope_of(event).workflow_id
            == workflow_id
        &&& self.family matches Some(family) ==> family_of(event) == family
    }

    /// Whether an event satisfies the constraints that are visible on it. Run filtering
    /// is not decided here.
    pub fn matches(&self, event: &Event) -> (admitted: bool)
        ensures
            admitted == self.admits(*event),
    {
        let workflow = match self.workflow_id {
            Some(workflow_id) => event.envelope().workflow_id == workflow_id,
            None => true,
        };
        let family = match self.family {
            Some(family) => event_family(event) == family,
            None => true,
        };
        workflow && family
    }
}

/// A filter without constraints admits every event, and a constraint only narrows it.
pub proof fn filters_only_narrow(filter: EventFilter, event: Event)
    ensures
        (EventFilter { workflow_id: None, run: None, family: None }).admits(event),
        filter.admits(event) ==> (EventFilter { workflow_id: None, ..filter }).admits(event),
        filter.admits(event) ==> (EventFilter { family: None, ..filter }).admits(event),
        filter.admits(event) <==> (EventFilter { run: None, ..filter }).admits(event),
{
}

/// A live subscription fell behind the publisher and skipped events.
///
/// Publishers yield this as a stream item and then continue with subsequent live events,
/// so the consumer always learns exactly how many events it missed.
#[derive(Clone, Copy, Debug, PartialEq, Eq, Structural)]
pub struct EventStreamLagged {
    /// Number of events the subscriber missed.
    pub skipped: u64,
}

impl EventStreamLagged {
    /// The text that reports the lag.
    pub open spec fn describes(self) -> Seq<char> {
        "event subscription lagged behind the live stream and skipped "@ + decimal(
            self.skipped as nat,
        ) + " events"@
    }

    /// The text that reports the lag.
    pub fn message(&self) -> (text: String)
        ensures
            text@ == self.describes(),
    {
        concat3(
            "event subscription lagged behind the live stream and skipped ",
            decimal_text(self.skipped as u128).as_str(),
            " events",
        )
    }
}

/// Deferred signal seam used until a concrete router is installed.
#[derive(Debug, Default)]
pub struct DeferredSignalRouter;

impl DeferredSignalRouter {
    /// Refuses a signal: nothing routes it.
    pub fn route(&self, target: &WorkflowHandle, name: String, payload: Payload) -> (result: Result<
        (),
        EngineError,
    >)
        ensures
            result matches Err(error) && is_runtime_error(
                error,
                "signal routing seam is not configured"@,
            ),
    {
        Err(EngineError::Runtime { reason: "signal routing seam is not configured".to_owned() })
    }
}

/// Deferred query seam used until a concrete service is installed.
#[derive(Debug, Default)]
pub struct DeferredQueryService;

impl DeferredQueryService {
    /// Refuses a query: nothing answers it.
    pub fn query(&self, target: &WorkflowHandle, name: String) -> (result: Result<
        Payload,
        EngineError,
    >)
        ensures
            result matches Err(error) && is_runtime_error(
                error,
                "query service seam is not configured"@,
            ),
    {
        Err(EngineError::Runtime { reason: "query service seam is not configured".to_owned() })
    }
}

/// Deferred publisher seam used until a concrete publisher is installed.
#[derive(Debug, Default)]
pub struct DeferredEventPublisher;

impl DeferredEventPublisher {
    /// What a subscription yields: nothing.
    pub fn subscribe(&self, filter: EventFilter) -> (items: Vec<Result<Event, EventStreamLagged>>)
        ensures
            items@.len() == 0,
    {
        Vec::new()
    }
}

/// Whether a run's current lease ended. A reopened run is not treated as ended: it can
/// receive signals and complete again.
pub fn run_has_terminal_history(history: &[Event], run: &RunId) -> (terminal: bool)
    ensures
        terminal == (lease_terminal(segment_of(history@, *run)) is Some),
{
    current_lease_terminal(run_segment(history, run)).is_some()
}

/// What asks for a live run.
#[derive(Clone, Copy, Debug, PartialEq, Eq, Structural)]
pub enum TargetRequest {
    /// A signal.
    Signal,
    /// A query.
    Query,
}

/// What a request for a run that has ended is answered.
pub open spec fn ended_target(
    request: TargetRequest,
    id: WorkflowId,
    run: RunId,
) -> EngineError {
    match request {
        TargetRequest::Signal => EngineError::SignalRouter(
            SignalRouterError::Terminal { workflow_id: id, run_id: run },
        ),
        TargetRequest::Query => EngineError::Query(QueryError::NotRunning(id)),
    }
}

/// Decides what becomes of a request for a run that is not registered: a run that ended
/// and one that never started are refused; any other is in the window between its
/// durable start and its registration, and is waited for.
///
/// # Errors
///
/// The refusal of an ended run, or [`EngineError::WorkflowNotFound`] when the run never
/// started.
pub fn resolve_unregistered(
    request: TargetRequest,
    id: &WorkflowId,
    run: &RunId,
    history: &[Event],
) -> (result: Result<(), EngineError>)
    ensures
        if lease_terminal(segment_of(history@, *run)) is Some {
            result == Err::<(), EngineError>(ended_target(request, *id, *run))
        } else if !run_started(history@, *run) {
            result matches Err(error) && is_run_not_found(error, *id, *run)
        } else {
            result is Ok
        },
{
    if run_has_terminal_history(history, run) {
        return match request {
            TargetRequest::Signal => Err(
                EngineError::SignalRouter(
                    SignalRouterError::Terminal { workflow_id: *id, run_id: *run },
                ),
            ),
            TargetRequest::Query => Err(EngineError::Query(QueryError::NotRunning(*id))),
        };
    }
    if !has_started(history, run) {
        return Err(workflow_not_found(id, run));
    }
    Ok(())
}

/// Readiness and retry policy of signal delivery.
#[derive(Clone, Copy, Debug, PartialEq, Eq, Structural)]
pub struct SignalDeliveryConfig {
    /// How long one attempt waits.
    pub ready_timeout: TimeSpan,
    /// First pause between polls.
    pub initial_backoff: TimeSpan,
    /// Longest pause between polls.
    pub max_backoff: TimeSpan,
    /// Number of attempts.
    pub max_enqueue_attempts: u32,
}

impl SignalDeliveryConfig {
    /// The spans are well formed.
    pub open spec fn wf(self) -> bool {
        &&& self.ready_timeout.wf()
        &&& self.initial_backoff.wf()
        &&& self.max_backoff.wf()
    }

    /// How long the policy persists in all, in nanoseconds: every attempt waits for its
    /// whole timeout, and there is at least one.
    pub open spec fn persistence(self) -> int {
        let attempts = if self.max_enqueue_attempts == 0 {
            1
        } else {
            self.max_enqueue_attempts as int
        };
        let whole = self.ready_timeout.nanoseconds() * attempts;
        if whole <= endless() {
            whole
        } else {
            endless()
        }
    }
}

/// Waits for the handle of a run that is durably started to be registered.
#[derive(Clone, Copy, Debug, PartialEq, Eq, Structural)]
pub struct BirthWindow {
    /// How long to wait in all.
    pub budget: TimeSpan,
    /// Pause before the next poll.
    pub backoff: TimeSpan,
    /// Longest pause between polls.
    pub max_backoff: TimeSpan,
}

/// What a poll of the registry leads to.
#[derive(Debug, PartialEq, Eq)]
pub enum BirthPoll {
    /// The handle is there.
    Found(WorkflowHandle),
    /// The budget is spent: the run has no live handle.
    Spent,
    /// Pause, and poll again.
    Pause {
        /// How long.
        pause: TimeSpan,
        /// The window as it goes on.
        window: BirthWindow,
    },
}

/// The pause after one, in nanoseconds: twice as long, up to the longest.
pub open spec fn next_pause(pause: int, longest: int) -> int {
    let doubled = if pause * 2 <= endless() {
        pause * 2
    } else {
        endless()
    };
    if doubled > longest {
        longest
    } else {
        doubled
    }
}

impl BirthWindow {
    /// The spans are well formed.
    pub open spec fn wf(self) -> bool {
        self.budget.wf() && self.backoff.wf() && self.max_backoff.wf()
    }

    /// A window under a delivery policy.
    pub fn new(policy: SignalDeliveryConfig) -> (window: Self)
        requires
            policy.wf(),
        ensures
            window.wf(),
            window.budget.nanoseconds() == policy.persistence(),
            window.backoff == policy.initial_backoff,
            window.max_backoff == policy.max_backoff,
    {
        let attempts: u32 = if policy.max_enqueue_attempts == 0 {
            1
        } else {
            policy.max_enqueue_attempts
        };
        BirthWindow {
            budget: policy.ready_timeout.saturating_mul(attempts),
            backoff: policy.initial_backoff,
            max_backoff: policy.max_backoff,
        }
    }

    /// What a poll leads to, after some time has passed since the window was opened. A
    /// handle that is there is found even when the budget is spent.
    pub fn poll(self, found: Option<WorkflowHandle>, elapsed: TimeSpan) -> (poll: BirthPoll)
        requires
            self.wf(),
        ensures
            match found {
                Some(handle) => poll == BirthPoll::Found(handle),
                None => if elapsed.nanoseconds() >= self.budget.nanoseconds() {
                    poll is Spent
                } else {
                    &&& poll matches BirthPoll::Pause { pause, window }
                    &&& pause == self.backoff
                    &&& window.wf()
                    &&& window.budget == self.budget
                    &&& window.max_backoff == self.max_backoff
                    &&& window.backoff.nanoseconds() == next_pause(
                        self.backoff.nanoseconds(),
                        self.max_backoff.nanoseconds(),
                    )
                },
            },
    {
        match found {
            Some(handle) => BirthPoll::Found(handle),
            None => {
                if !self.budget.exceeds(&elapsed) {
                    return BirthPoll::Spent;
                }
                let doubled = self.backoff.saturating_mul(2);
                let backoff = if doubled.exceeds(&self.max_backoff) {
                    self.max_backoff
                } else {
                    doubled
                };
                BirthPoll::Pause {
                    pause: self.backoff,
                    window: BirthWindow {
                        budget: self.budget,
                        backoff,
                        max_backoff: self.max_backoff,
                    },
                }
            },
        }
    }
}

/// The pause before some poll of a window that opens with a given one, in nanoseconds.
pub open spec fn pause_before(first: int, longest: int, poll: nat) -> int
    decreases poll,
{
    if poll == 0 {
        first
    } else {
        next_pause(pause_before(first, longest, (poll - 1) as nat), longest)
    }
}

/// No pause but the first is longer than the longest, and no pause is shorter than the
/// one before it where the policy allows it.
pub proof fn pauses_grow_up_to_the_longest(first: int, longest: int, poll: nat)
    requires
        0 <= first <= longest <= endless(),
    ensures
        pause_before(first, longest, poll) <= pause_before(first, longest, poll + 1) <= longest,
    decreases poll,
{
    if poll > 0 {
        pauses_grow_up_to_the_longest(first, longest, (poll - 1) as nat);
        lemma_pause_is_not_negative(first, longest, poll);
    }
}

/// A pause is never negative.
proof fn lemma_pause_is_not_negative(first: int, longest: int, poll: nat)
    requires
        0 <= first <= longest <= endless(),
    ensures
        0 <= pause_before(first, longest, poll) <= longest,
    decreases poll,
{
    if poll > 0 {
        lemma_pause_is_not_negative(first, longest, (poll - 1) as nat);
    }
}

/// The step of a target resolution to perform next, or how it ended.
#[derive(Debug, PartialEq, Eq)]
pub enum TargetPhase {
    /// Look the run up in the registry.
    Lookup,
    /// Read the workflow's history.
    ReadHistory,
    /// Poll the registry, and pause before the next poll.
    AwaitHandle(BirthWindow),
    /// Hand the request to the seam, with this handle.
    Delegate(WorkflowHandle),
    /// The request is refused.
    Refused(EngineError),
}

/// What came of a step of a target resolution.
#[derive(Debug, PartialEq, Eq)]
pub enum TargetReply {
    /// The registry was asked, and this long the resolution has waited for the handle.
    Looked {
        /// The handle, where there is one.
        found: Option<WorkflowHandle>,
        /// Time since the wait began.
        elapsed: TimeSpan,
    },
    /// The history was read.
    History(Vec<Event>),
    /// The step failed.
    Failed(EngineError),
}

/// A request on its way to a live run.
#[derive(Debug, PartialEq, Eq)]
pub struct TargetRun {
    /// What asks for the run.
    pub request: TargetRequest,
    /// The workflow.
    pub workflow_id: WorkflowId,
    /// The run.
    pub run_id: RunId,
    /// Policy of the wait for the handle.
    pub policy: SignalDeliveryConfig,
    /// The step to perform next, or how the resolution ended.
    pub phase: TargetPhase,
}

impl TargetRun {
    /// The spans are well formed.
    pub open spec fn wf(self) -> bool {
        &&& self.policy.wf()
        &&& self.phase matches TargetPhase::AwaitHandle(window) ==> window.wf()
    }

    /// The run after a step, but for its phase.
    pub open spec fn same_request(self, after: TargetRun) -> bool {
        after == (TargetRun { phase: after.phase, ..self })
    }

    /// The request is refused because there is no such live run.
    pub open spec fn not_found(self, after: TargetRun) -> bool {
        &&& after.phase matches TargetPhase::Refused(error)
        &&& is_run_not_found(error, self.workflow_id, self.run_id)
    }

    /// What a step leads to.
    pub open spec fn goes_to(self, reply: TargetReply, after: TargetRun) -> bool {
        &&& self.same_request(after)
        &&& match (self.phase, reply) {
            (TargetPhase::Lookup, TargetReply::Looked { found, .. }) => match found {
                Some(handle) => after.phase == TargetPhase::Delegate(handle),
                None => after.phase is ReadHistory,
            },
            (TargetPhase::ReadHistory, TargetReply::History(history)) => if lease_terminal(
                segment_of(history@, self.run_id),
            ) is Some {
                after.phase == TargetPhase::Refused(
                    ended_target(self.request, self.workflow_id, self.run_id),
                )
            } else if !run_started(history@, self.run_id) {
                self.not_found(after)
            } else {
                &&& after.phase matches TargetPhase::AwaitHandle(window)
                &&& window.budget.nanoseconds() == self.policy.persistence()
                &&& window.backoff == self.policy.initial_backoff
                &&& window.max_backoff == self.policy.max_backoff
            },
            (TargetPhase::AwaitHandle(window), TargetReply::Looked { found, elapsed }) => {
                match found {
                    Some(handle) => after.phase == TargetPhase::Delegate(handle),
                    None => if elapsed.nanoseconds() >= window.budget.nanoseconds() {
                        self.not_found(after)
                    } else {
                        &&& after.phase matches TargetPhase::AwaitHandle(later)
                        &&& later.budget == window.budget
                        &&& later.max_backoff == window.max_backoff
                        &&& later.backoff.nanoseconds() == next_pause(
                            window.backoff.nanoseconds(),
                            window.max_backoff.nanoseconds(),
                        )
                    },
                }
            },
            (TargetPhase::Lookup, TargetReply::Failed(error))
            | (TargetPhase::ReadHistory, TargetReply::Failed(error))
            | (TargetPhase::AwaitHandle(_), TargetReply::Failed(error)) => after.phase
                == TargetPhase::Refused(error),
            _ => after.phase == self.phase,
        }
    }

    /// Begins to route a signal to a run.
    pub fn signal(id: &WorkflowId, run: &RunId, policy: SignalDeliveryConfig) -> (target: Self)
        ensures
            target == (TargetRun {
                request: TargetRequest::Signal,
                workflow_id: *id,
                run_id: *run,
                policy,
                phase: TargetPhase::Lookup,
            }),
    {
        TargetRun {
            request: TargetRequest::Signal,
            workflow_id: *id,
            run_id: *run,
            policy,
            phase: TargetPhase::Lookup,
        }
    }

    /// Begins to dispatch a query to a run.
    pub fn query(id: &WorkflowId, run: &RunId, policy: SignalDeliveryConfig) -> (target: Self)
        ensures
            target == (TargetRun {
                request: TargetRequest::Query,
                workflow_id: *id,
                run_id: *run,
                policy,
                phase: TargetPhase::Lookup,
            }),
    {
        TargetRun {
            request: TargetRequest::Query,
            workflow_id: *id,
            run_id: *run,
            policy,
            phase: TargetPhase::Lookup,
        }
    }

    /// Takes in what came of a step.
    pub fn advance(self, reply: TargetReply) -> (after: Self)
        requires
            self.wf(),
        ensures
            self.goes_to(reply, after),
            after.wf(),
    {
        let TargetRun { request, workflow_id, run_id, policy, phase } = self;
        let phase = match (phase, reply) {
            (TargetPhase::Lookup, TargetReply::Looked { found, .. }) => {
                match found {
                    Some(handle) => TargetPhase::Delegate(handle),
                    None => TargetPhase::ReadHistory,
                }
            },
            (TargetPhase::ReadHistory, TargetReply::History(history)) => {
                match resolve_unregistered(request, &workflow_id, &run_id, history.as_slice()) {
                    Ok(()) => TargetPhase::AwaitHandle(BirthWindow::new(policy)),
                    Err(error) => TargetPhase::Refused(error),
                }
            },
            (TargetPhase::AwaitHandle(window), TargetReply::Looked { found, elapsed }) => {
                match window.poll(found, elapsed) {
                    BirthPoll::Found(handle) => TargetPhase::Delegate(handle),
                    BirthPoll::Spent => TargetPhase::Refused(
                        workflow_not_found(&workflow_id, &run_id),
                    ),
                    BirthPoll::Pause { window, .. } => TargetPhase::AwaitHandle(window),
                }
            },
            (TargetPhase::Lookup, TargetReply::Failed(error)) => TargetPhase::Refused(error),
            (TargetPhase::ReadHistory, TargetReply::Failed(error)) => TargetPhase::Refused(error),
            (TargetPhase::AwaitHandle(_), TargetReply::Failed(error)) => TargetPhase::Refused(
                error,
            ),
            (phase, _) => phase,
        };
        TargetRun { request, workflow_id, run_id, policy, phase }
    }
}

/// A run that is durably started and has not ended is never refused while its budget
/// lasts: its handle is waited for.
pub proof fn a_started_run_is_waited_for(
    target: TargetRun,
    reply: TargetReply,
    after: TargetRun,
)
    requires
        target.goes_to(reply, after),
        match (target.phase, reply) {
            (TargetPhase::ReadHistory, TargetReply::History(history)) => {
                &&& run_started(history@, target.run_id)
                &&& lease_terminal(segment_of(history@, target.run_id)) is None
            },
            (TargetPhase::AwaitHandle(window), TargetReply::Looked { elapsed, .. }) => {
                elapsed.nanoseconds() < window.budget.nanoseconds()
            },
            _ => false,
        },
    ensures
        !(after.phase is Refused),
{
}

} // verus!
