//! Drives an elapsed workflow deadline to a `WorkflowTimedOut` terminal.
//!
//! The terminal is recorded under the run's recorder lock, with a re-check so that the
//! deadline loses cleanly to a concurrent completion. Then the run is torn down: its
//! process is killed, visibility is refreshed, its timers are retired, awaiters are
//! notified, and the run is deregistered. The deadline timer is the last one to be
//! retired, so that a teardown which fails half-way can be resumed by a later fire.

use vstd::prelude::*;

use crate::error::EngineError;
use crate::event::{Event, TerminalOutcome};
use crate::history::{
    ends_run, latest_run, lemma_latest_segment, recording_a_terminal_ends_the_lease, run_outcome,
    run_segment, segment_of,
};
use crate::ids::{deadline_key, deadline_timer_id, RunId, TimerId, TimerKey, WorkflowId};
use crate::lifecycle::completion::terminal_outcome_from_history;
use crate::lifecycle::terminate::TerminateRun;
use crate::registry::{Registry, RunKey};
use crate::time::{
    deadline_outstanding, holds_timer, keys, leave_out, lemma_push_contains, lemma_without,
    live_timers, live_timers_are_started_and_not_ended, live_timers_in,
    outstanding_deadline_timer, timer_live, without, WORKFLOW_TIMEOUT_DESCRIPTOR,
};

verus! {

/// What an elapsed deadline means for its run.
#[derive(Clone, Copy, Debug, PartialEq, Eq, Structural)]
pub enum DeadlineVerdict {
    /// The run ended otherwise, or the deadline was retired: nothing is recorded.
    Lost,
    /// The run is still open: the timeout is to be recorded.
    TimesOut,
    /// The timeout was recorded before: the interrupted teardown goes on.
    ResumesTeardown,
}

/// What an elapsed deadline means for its run, by its history.
pub open spec fn verdict_on(history: Seq<Event>, run: RunId) -> DeadlineVerdict {
    match run_outcome(history, run) {
        Some(TerminalOutcome::TimedOut(_)) => DeadlineVerdict::ResumesTeardown,
        Some(_) => DeadlineVerdict::Lost,
        None => if deadline_outstanding(history, run) {
            DeadlineVerdict::TimesOut
        } else {
            DeadlineVerdict::Lost
        },
    }
}

/// Decides what an elapsed deadline means for its run. To be asked under the run's
/// recorder lock, which is held until the timeout is recorded: a run ends only once.
pub fn deadline_verdict(history: &[Event], run: &RunId) -> (verdict: DeadlineVerdict)
    ensures
        verdict == verdict_on(history@, *run),
{
    match terminal_outcome_from_history(history, run) {
        Some(TerminalOutcome::TimedOut(_)) => DeadlineVerdict::ResumesTeardown,
        Some(_) => DeadlineVerdict::Lost,
        None => {
            match outstanding_deadline_timer(history, run) {
                Some(_) => DeadlineVerdict::TimesOut,
                None => DeadlineVerdict::Lost,
            }
        },
    }
}

/// The live timers of a run in the order in which a teardown retires them: the deadline
/// comes last.
pub open spec fn teardown_order(history: Seq<Event>, run: RunId) -> Seq<TimerKey> {
    let live = live_timers(segment_of(history, run));
    if live.contains(deadline_key(run)) {
        without(live, deadline_key(run)).push(deadline_key(run))
    } else {
        live
    }
}

/// The live timers of a run in the order in which a teardown retires them.
pub fn timers_to_retire(history: &[Event], run: &RunId) -> (timers: Vec<TimerId>)
    ensures
        keys(timers@) == teardown_order(history@, *run),
{
    let live = live_timers_in(run_segment(history, run));
    let deadline = deadline_timer_id(run);
    if holds_timer(&live, &deadline) {
        let mut timers = leave_out(&live, &deadline);
        let ghost others = timers@;
        let ghost key = deadline@;
        timers.push(deadline);
        proof {
            assert(keys(timers@) =~= keys(others).push(key));
        }
        timers
    } else {
        live
    }
}

/// A teardown retires exactly the live timers of the run, and no other timer after its
/// deadline.
pub proof fn teardown_retires_the_live_timers(history: Seq<Event>, run: RunId, key: TimerKey)
    ensures
        teardown_order(history, run).contains(key) <==> timer_live(segment_of(history, run), key),
        timer_live(segment_of(history, run), deadline_key(run)) ==> teardown_order(
            history,
            run,
        ).last() == deadline_key(run),
{
    let live = live_timers(segment_of(history, run));
    live_timers_are_started_and_not_ended(segment_of(history, run));
    lemma_without(live, deadline_key(run));
    lemma_push_contains(without(live, deadline_key(run)), deadline_key(run), key);
}

/// The step of a deadline to perform next, or how it ended.
#[derive(Debug, PartialEq, Eq)]
pub enum DeadlinePhase {
    /// Take the run's recorder and read its history.
    Recheck,
    /// Record the timeout under the recorder lock.
    Record,
    /// Kill the run's process.
    Kill,
    /// Bring the visibility projection up to date.
    UpsertVisibility,
    /// Read the history for the timers to retire.
    ListTimers,
    /// Retire the timer.
    RetireTimer {
        /// Position among the timers to retire.
        timer: usize,
    },
    /// Notify everyone who awaits the run's outcome that it timed out.
    Notify,
    /// Remove the run from the registry.
    Deregister,
    /// The run timed out and is torn down.
    TornDown,
    /// The deadline lost.
    Lost,
    /// A step failed; a later fire resumes the teardown.
    Failed(EngineError),
}

/// What came of a step.
#[derive(Debug, PartialEq, Eq)]
pub enum DeadlineReply {
    /// The history was read.
    History(Vec<Event>),
    /// The step was performed.
    Done,
    /// The step failed.
    Failed(EngineError),
}

/// An elapsed deadline on its way.
#[derive(Debug, PartialEq, Eq)]
pub struct DeadlineRun {
    /// The workflow.
    pub workflow_id: WorkflowId,
    /// The run whose deadline elapsed.
    pub run_id: RunId,
    /// The timers to retire, once they are listed.
    pub timers: Vec<TimerId>,
    /// The step to perform next, or how the deadline ended.
    pub phase: DeadlinePhase,
}

/// Begins the handling of elapsed deadlines.
pub struct WorkflowDeadlineHandler<'a> {
    /// Active execution registry keyed by workflow/run identifiers.
    pub registry: &'a Registry,
}

impl<'a> WorkflowDeadlineHandler<'a> {
    /// A handler over a registry.
    pub fn new(registry: &'a Registry) -> (handler: Self)
        ensures
            handler.registry == registry,
    {
        WorkflowDeadlineHandler { registry }
    }

    /// Begins to drive a run whose deadline elapsed to its timeout. A run that left the
    /// registry has ended: its deadline lost.
    pub fn drive_timed_out(&self, workflow_id: WorkflowId, run_id: RunId) -> (run: DeadlineRun)
        requires
            self.registry.wf(),
        ensures
            run.workflow_id == workflow_id,
            run.run_id == run_id,
            run.timers@.len() == 0,
            run.phase == if self.registry@.contains_key(RunKey { workflow_id, run_id }) {
                DeadlinePhase::Recheck
            } else {
                DeadlinePhase::Lost
            },
    {
        let phase = match self.registry.get(&workflow_id, &run_id) {
            Some(_) => DeadlinePhase::Recheck,
            None => DeadlinePhase::Lost,
        };
        DeadlineRun { workflow_id, run_id, timers: Vec::new(), phase }
    }
}

/// The phase that retires the timers from a position on.
pub open spec fn retiring(count: nat, from: int) -> DeadlinePhase {
    if from < count {
        DeadlinePhase::RetireTimer { timer: from as usize }
    } else {
        DeadlinePhase::Notify
    }
}

impl DeadlineRun {
    /// The position of the phase is that of a timer.
    pub open spec fn fits(self) -> bool {
        self.phase matches DeadlinePhase::RetireTimer { timer } ==> timer < self.timers@.len()
    }

    /// What a step leads to. A process that is gone is as good as killed; any other
    /// failure stops the teardown before the run is deregistered.
    pub open spec fn goes_to(self, reply: DeadlineReply, next: DeadlineRun) -> bool {
        &&& next.workflow_id == self.workflow_id
        &&& next.run_id == self.run_id
        &&& match (self.phase, reply) {
            (DeadlinePhase::Recheck, DeadlineReply::History(history)) => {
                &&& next.timers == self.timers
                &&& next.phase == match verdict_on(history@, self.run_id) {
                    DeadlineVerdict::Lost => DeadlinePhase::Lost,
                    DeadlineVerdict::TimesOut => DeadlinePhase::Record,
                    DeadlineVerdict::ResumesTeardown => DeadlinePhase::Kill,
                }
            },
            (DeadlinePhase::ListTimers, DeadlineReply::History(history)) => {
                &&& keys(next.timers@) == teardown_order(history@, self.run_id)
                &&& next.phase == retiring(next.timers@.len(), 0)
            },
            _ => {
                &&& next.timers == self.timers
                &&& next.phase == self.after(reply)
            },
        }
    }

    /// The phase after a step that needs no history.
    pub open spec fn after(self, reply: DeadlineReply) -> DeadlinePhase {
        match (self.phase, reply) {
            (DeadlinePhase::Record, DeadlineReply::Done) => DeadlinePhase::Kill,
            (DeadlinePhase::Kill, DeadlineReply::Done) => DeadlinePhase::UpsertVisibility,
            (DeadlinePhase::Kill, DeadlineReply::Failed(_)) => DeadlinePhase::UpsertVisibility,
            (DeadlinePhase::UpsertVisibility, DeadlineReply::Done) => DeadlinePhase::ListTimers,
            (DeadlinePhase::RetireTimer { timer }, DeadlineReply::Done) => retiring(
                self.timers@.len(),
                timer + 1,
            ),
            (DeadlinePhase::Notify, DeadlineReply::Done) => DeadlinePhase::Deregister,
            (DeadlinePhase::Notify, DeadlineReply::Failed(_)) => DeadlinePhase::Deregister,
            (DeadlinePhase::Deregister, DeadlineReply::Done) => DeadlinePhase::TornDown,
            (DeadlinePhase::Recheck, DeadlineReply::Failed(error))
            | (DeadlinePhase::Record, DeadlineReply::Failed(error))
            | (DeadlinePhase::UpsertVisibility, DeadlineReply::Failed(error))
            | (DeadlinePhase::ListTimers, DeadlineReply::Failed(error))
            | (DeadlinePhase::RetireTimer { .. }, DeadlineReply::Failed(error))
            | (DeadlinePhase::Deregister, DeadlineReply::Failed(error)) => DeadlinePhase::Failed(
                error,
            ),
            (phase, _) => phase,
        }
    }

    /// The outcome that the run ends with: it is recorded, and later announced, as it is.
    pub fn outcome(&self) -> (outcome: TerminalOutcome)
        ensures
            outcome matches TerminalOutcome::TimedOut(timeout) && timeout@
                == WORKFLOW_TIMEOUT_DESCRIPTOR@,
    {
        TerminalOutcome::TimedOut(WORKFLOW_TIMEOUT_DESCRIPTOR.to_owned())
    }

    /// Takes in what came of a step.
    pub fn advance(self, reply: DeadlineReply) -> (next: Self)
        requires
            self.fits(),
        ensures
            self.goes_to(reply, next),
            next.fits(),
    {
        let DeadlineRun { workflow_id, run_id, mut timers, phase } = self;
        let count: usize = timers.len();
        let phase = match (phase, reply) {
            (DeadlinePhase::Recheck, DeadlineReply::History(history)) => {
                match deadline_verdict(history.as_slice(), &run_id) {
                    DeadlineVerdict::Lost => DeadlinePhase::Lost,
                    DeadlineVerdict::TimesOut => DeadlinePhase::Record,
                    DeadlineVerdict::ResumesTeardown => DeadlinePhase::Kill,
                }
            },
            (DeadlinePhase::ListTimers, DeadlineReply::History(history)) => {
                timers = timers_to_retire(history.as_slice(), &run_id);
                if timers.len() > 0 {
                    DeadlinePhase::RetireTimer { timer: 0 }
                } else {
                    DeadlinePhase::Notify
                }
            },
            (DeadlinePhase::Record, DeadlineReply::Done) => DeadlinePhase::Kill,
            (DeadlinePhase::Kill, DeadlineReply::Done) => DeadlinePhase::UpsertVisibility,
            (DeadlinePhase::Kill, DeadlineReply::Failed(_)) => DeadlinePhase::UpsertVisibility,
            (DeadlinePhase::UpsertVisibility, DeadlineReply::Done) => DeadlinePhase::ListTimers,
            (DeadlinePhase::RetireTimer { timer }, DeadlineReply::Done) => {
                if timer + 1 < count {
                    DeadlinePhase::RetireTimer { timer: timer + 1 }
                } else {
                    DeadlinePhase::Notify
                }
            },
            (DeadlinePhase::Notify, DeadlineReply::Done) => DeadlinePhase::Deregister,
            (DeadlinePhase::Notify, DeadlineReply::Failed(_)) => DeadlinePhase::Deregister,
            (DeadlinePhase::Deregister, DeadlineReply::Done) => DeadlinePhase::TornDown,
            (DeadlinePhase::Recheck, DeadlineReply::Failed(error)) => DeadlinePhase::Failed(error),
            (DeadlinePhase::Record, DeadlineReply::Failed(error)) => DeadlinePhase::Failed(error),
            (DeadlinePhase::UpsertVisibility, DeadlineReply::Failed(error)) => {
                DeadlinePhase::Failed(error)
            },
            (DeadlinePhase::ListTimers, DeadlineReply::Failed(error)) => DeadlinePhase::Failed(
                error,
            ),
            (DeadlinePhase::RetireTimer { .. }, DeadlineReply::Failed(error)) => {
                DeadlinePhase::Failed(error)
            },
            (DeadlinePhase::Deregister, DeadlineReply::Failed(error)) => DeadlinePhase::Failed(
                error,
            ),
            (phase, _) => phase,
        };
        DeadlineRun { workflow_id, run_id, timers, phase }
    }
}

/// A course of a deadline: each run follows from the one before it by a reply.
pub open spec fn deadline_course(runs: Seq<DeadlineRun>, replies: Seq<DeadlineReply>) -> bool {
    &&& runs.len() == replies.len() + 1
    &&& runs[0].phase is Recheck || runs[0].phase is Lost
    &&& forall|i: int|
        0 <= i < replies.len() ==> runs[i].goes_to(#[trigger] replies[i], runs[i + 1])
}

/// A step of a course was performed.
pub open spec fn stepped(
    runs: Seq<DeadlineRun>,
    replies: Seq<DeadlineReply>,
    phase: DeadlinePhase,
) -> bool {
    exists|i: int|
        0 <= i < replies.len() && (#[trigger] runs[i]).phase == phase && replies[i] is Done
}

/// How many timers have been retired.
pub open spec fn retired(run: DeadlineRun) -> int {
    match run.phase {
        DeadlinePhase::RetireTimer { timer } => timer as int,
        DeadlinePhase::Notify | DeadlinePhase::Deregister | DeadlinePhase::TornDown => {
            run.timers@.len() as int
        },
        _ => 0,
    }
}

/// What a course has behind it.
pub open spec fn torn_down_so_far(runs: Seq<DeadlineRun>, replies: Seq<DeadlineReply>) -> bool {
    let last = runs.last();
    &&& last.timers@.len() <= usize::MAX
    &&& last.fits()
    &&& (last.phase is ListTimers || last.phase is RetireTimer || last.phase is Notify
        || last.phase is Deregister || last.phase is TornDown) ==> stepped(
        runs,
        replies,
        DeadlinePhase::UpsertVisibility,
    )
    &&& last.phase is TornDown ==> stepped(runs, replies, DeadlinePhase::Deregister)
    &&& forall|i: int|
        0 <= i < retired(last) ==> #[trigger] timer_retired(runs, replies, i as usize)
}

/// A timer was retired.
pub open spec fn timer_retired(
    runs: Seq<DeadlineRun>,
    replies: Seq<DeadlineReply>,
    timer: usize,
) -> bool {
    stepped(runs, replies, DeadlinePhase::RetireTimer { timer })
}

/// A longer course has performed what a shorter one has.
proof fn lemma_still_stepped(
    runs: Seq<DeadlineRun>,
    replies: Seq<DeadlineReply>,
    phase: DeadlinePhase,
)
    requires
        replies.len() > 0,
        runs.len() == replies.len() + 1,
    ensures
        stepped(runs.drop_last(), replies.drop_last(), phase) ==> stepped(runs, replies, phase),
        runs[replies.len() - 1].phase == phase && replies.last() is Done ==> stepped(
            runs,
            replies,
            phase,
        ),
{
    if stepped(runs.drop_last(), replies.drop_last(), phase) {
        let i = choose|i: int|
            0 <= i < replies.drop_last().len() && (#[trigger] runs.drop_last()[i]).phase == phase
                && replies.drop_last()[i] is Done;
        assert(runs[i].phase == phase && replies[i] is Done);
    }
    if runs[replies.len() - 1].phase == phase && replies.last() is Done {
        assert(replies[replies.len() - 1] is Done);
    }
}

/// Every course has behind it what its phase stands for.
proof fn lemma_torn_down_so_far(runs: Seq<DeadlineRun>, replies: Seq<DeadlineReply>)
    requires
        deadline_course(runs, replies),
        forall|i: int| 0 <= i < runs.len() ==> (#[trigger] runs[i]).timers@.len() <= usize::MAX,
    ensures
        torn_down_so_far(runs, replies),
    decreases replies.len(),
{
    if replies.len() > 0 {
        let n = replies.len() - 1;
        let sruns = runs.drop_last();
        let sreplies = replies.drop_last();
        assert forall|i: int| 0 <= i < sreplies.len() implies sruns[i].goes_to(
            #[trigger] sreplies[i],
            sruns[i + 1],
        ) by {
            assert(sreplies[i] == replies[i]);
            assert(runs[i] == sruns[i] && runs[i + 1] == sruns[i + 1]);
        }
        assert forall|i: int| 0 <= i < sruns.len() implies (#[trigger] sruns[i]).timers@.len()
            <= usize::MAX by {
            assert(runs[i] == sruns[i]);
        }
        lemma_torn_down_so_far(sruns, sreplies);
        let prior = runs[n];
        let last = runs.last();
        assert(prior == sruns.last());
        assert(last == runs[n + 1]);
        assert(prior.goes_to(replies[n], last));
        lemma_still_stepped(runs, replies, DeadlinePhase::UpsertVisibility);
        lemma_still_stepped(runs, replies, DeadlinePhase::Deregister);
        assert forall|i: int| 0 <= i < retired(last) implies #[trigger] timer_retired(
            runs,
            replies,
            i as usize,
        ) by {
            lemma_still_stepped(runs, replies, DeadlinePhase::RetireTimer { timer: i as usize });
            if i < retired(prior) {
                assert(timer_retired(sruns, sreplies, i as usize));
            }
        }
    } else {
        assert(runs.last() == runs[0]);
    }
}

/// A run is deregistered only after visibility was refreshed and every one of its live
/// timers, the deadline included, was retired: a teardown that fails before keeps both
/// the registered run and the live deadline to resume from.
pub proof fn a_run_stays_registered_until_it_is_torn_down(
    runs: Seq<DeadlineRun>,
    replies: Seq<DeadlineReply>,
)
    requires
        deadline_course(runs, replies),
        forall|i: int| 0 <= i < runs.len() ==> (#[trigger] runs[i]).timers@.len() <= usize::MAX,
        runs.last().phase is Deregister || runs.last().phase is TornDown,
    ensures
        stepped(runs, replies, DeadlinePhase::UpsertVisibility),
        forall|i: int|
            0 <= i < runs.last().timers@.len() ==> #[trigger] timer_retired(
                runs,
                replies,
                i as usize,
            ),
{
    lemma_torn_down_so_far(runs, replies);
}

/// A deadline records its timeout only for a run that has not ended and whose deadline
/// is outstanding; a timeout that is recorded already is not recorded again.
pub proof fn a_deadline_ends_only_an_open_run(run: DeadlineRun, history: Vec<Event>, next: DeadlineRun)
    requires
        run.phase is Recheck,
        run.goes_to(DeadlineReply::History(history), next),
    ensures
        next.phase is Record <==> run_outcome(history@, run.run_id) is None
            && deadline_outstanding(history@, run.run_id),
        run_outcome(history@, run.run_id) matches Some(outcome) ==> (next.phase is Kill
            <==> outcome is TimedOut),
{
}

/// One terminal wins: once any terminal event of a run is recorded, an elapsed deadline
/// records no timeout and a cancellation that rechecks is lost. Because both recheck
/// under the recorder lock, whichever comes second leaves the first one standing.
pub proof fn the_first_terminal_wins(
    history: Seq<Event>,
    event: Event,
    run: RunId,
    cancellation: TerminateRun,
)
    requires
        latest_run(history, run),
        ends_run(event),
        event matches Event::WorkflowContinuedAsNew { parent_run_id, .. } ==> parent_run_id == run,
        cancellation.phase is Recheck,
        cancellation.handle.run_id == run,
    ensures
        run_outcome(history.push(event), run) is Some,
        verdict_on(history.push(event), run) != DeadlineVerdict::TimesOut,
        cancellation.rechecked(history.push(event)) is Lost,
{
    lemma_latest_segment(history, event, run);
    recording_a_terminal_ends_the_lease(segment_of(history, run), event);
}

} // verus!
