//! Whole engine operations, performed on a store, a registry and a runtime in memory.

use aion::clock::{TimeSpan, Timestamp};
use aion::content_hash::ContentHash;
use aion::engine::api::{
    continue_as_new, list_workflows, start_workflow, AdoptPhase, CancelPhase, CancelReply,
    CancelRun, ResultPhase, ResultReply, ResultRun, ShutdownPhase, WorkflowSummary,
};
use aion::engine::api_schedule::{ScheduleChange, ScheduleChangePhase, ScheduleChangeRun};
use aion::engine::delegated::SignalDeliveryConfig;
use aion::engine::shutdown_gate::{ShutdownGate, ShutdownState};
use aion::engine::startup::{RecoveryPhase, RecoveryRun};
use aion::engine::startup_sweeps::{
    sweep_horizon, ChildSweep, ChildSweepPhase, DeadlineSweep, DeadlineSweepPhase,
    DeadlineSweepReply, SuccessorSweep, SuccessorSweepPhase, SweepReply, SweepScope, TimerRow,
};
use aion::error::{DurabilityError, EngineError, StoreError};
use aion::event::{
    ContentType, Event, EventEnvelope, PackageVersion, Payload, SearchAttribute,
    SearchAttributeValue, TerminalOutcome, TimerCancelCause, WorkflowError, WorkflowStatus,
};
use aion::history::{last_sequence, status_from_events};
use aion::ids::{deadline_timer_id, ActivityId, RunId, ScheduleId, TimerId, WorkflowId};
use aion::lifecycle::completion::{
    decide_exit, reconcile_terminal_registry, start_continuation_replacement, ExitPhase, ExitRun,
    PlannedStart, WorkflowProcessOutcome,
};
use aion::lifecycle::continue_as_new::{
    continued_outcome, guard_continue_as_new, replacement_start, ContinueAsNewRequest,
    ContinuePhase,
};
use aion::lifecycle::pause::PausedRuns;
use aion::lifecycle::start::{
    has_pin_room, initial_head, resolve_start, start_record, started_handle, AbortOutcome,
    AttachOutcome, StartPhase, StartReply, StartRun, StartWorkflowOptions,
};
use aion::lifecycle::terminate::{
    self, TerminatePhase, TerminateRun, TerminateWorkflowContext,
};
use aion::lifecycle::visibility::{
    visibility_record_from_history, FailureProjection, VisibilityRecord,
};
use aion::loader::catalog::catalog_load::{LoadStart, LoadStep};
use aion::loader::catalog::WorkflowCatalog;
use aion::loader::load::{LoadedWorkflow, StagedLoad};
use aion::package::{BeamModule, Manifest, ManifestDigest, ManifestVersion, Package};
use aion::registry::{Registry, Residency, WorkflowHandle};
use aion::time::outstanding_deadline_timer;

fn now() -> Timestamp {
    Timestamp { secs: 1_700_000_000, nanos: 0 }
}

fn payload(label: &str) -> Payload {
    Payload::new(ContentType::Json, format!("{{\"label\":\"{label}\"}}").into_bytes())
}

fn workflow_error(message: &str) -> WorkflowError {
    WorkflowError { message: String::from(message), details: None }
}

fn runtime_error(reason: &str) -> EngineError {
    EngineError::Runtime { reason: String::from(reason) }
}

/// What the runtime does wrong.
#[derive(Default)]
struct Faults {
    spawn: Option<&'static str>,
    monitor: Option<&'static str>,
    abort: bool,
    attributes: Option<&'static str>,
}

/// An engine with everything around it.
struct World {
    catalog: WorkflowCatalog,
    registry: Registry,
    held: PausedRuns,
    gate: ShutdownGate,
    histories: Vec<(WorkflowId, Vec<Event>)>,
    /// Where the recorder of each run continues from.
    recorders: Vec<(RunId, u64)>,
    timer_rows: Vec<(TimerRow, Timestamp)>,
    visible: Vec<VisibilityRecord>,
    announced: Vec<(RunId, TerminalOutcome)>,
    placed: Vec<u64>,
    monitored: Vec<u64>,
    live_processes: Vec<u64>,
    starts: usize,
    faults: Faults,
    next: u64,
}

fn package(workflow_type: &str, version: u8) -> Package {
    Package {
        manifest: Manifest {
            entry_module: workflow_type.to_owned(),
            entry_function: "run".to_owned(),
            timeout: None,
            version: ManifestVersion { text: String::from("v") },
            additional_workflows: Vec::new(),
        },
        beams: vec![BeamModule { name: workflow_type.to_owned(), bytes: vec![version] }],
        content_hash: ContentHash::from_bytes([version; 32]),
        commits_to_timeouts: false,
    }
}

fn load(catalog: &mut WorkflowCatalog, package: &Package) -> Result<(), EngineError> {
    let staged = StagedLoad::new(package, Ok(ManifestDigest { text: String::from("d") }))?;
    let mut load = match catalog.begin_load(&staged, true)? {
        LoadStart::Resident(_) => return Ok(()),
        LoadStart::Stage(load) => load,
    };
    loop {
        match load.step(&staged) {
            LoadStep::Commit => {
                catalog.commit_load(&staged, load, true, now());
                return Ok(());
            }
            LoadStep::Refuse => return Err(load.into_error()),
            _ => load = load.advance(&staged, Ok(())),
        }
    }
}

fn options() -> StartWorkflowOptions {
    StartWorkflowOptions::default()
}

fn copy(start: &PlannedStart) -> PlannedStart {
    PlannedStart {
        workflow_type: start.workflow_type.clone(),
        input: start.input.clone(),
        options: StartWorkflowOptions {
            workflow_id: start.options.workflow_id,
            routing_key: start.options.routing_key.clone(),
            parent_run_id: start.options.parent_run_id,
            loaded_version: start.options.loaded_version,
            search_attributes: start.options.search_attributes.clone(),
            namespace: start.options.namespace.clone(),
        },
    }
}

fn ended(envelope: EventEnvelope, outcome: TerminalOutcome) -> Event {
    match outcome {
        TerminalOutcome::Completed(result) => Event::WorkflowCompleted { envelope, result },
        TerminalOutcome::Failed(error) => Event::WorkflowFailed { envelope, error },
        TerminalOutcome::Cancelled(reason) => Event::WorkflowCancelled { envelope, reason },
        TerminalOutcome::TimedOut(timeout) => Event::WorkflowTimedOut { envelope, timeout },
        TerminalOutcome::ContinuedAsNew { input, workflow_type, parent_run_id } => {
            Event::WorkflowContinuedAsNew { envelope, input, workflow_type, parent_run_id }
        }
    }
}

fn settled(result: Result<(), EngineError>) -> StartReply {
    match result {
        Ok(()) => StartReply::Done,
        Err(error) => StartReply::Failed(error),
    }
}

impl World {
    /// An engine that has nothing loaded.
    fn empty() -> Self {
        World {
            catalog: WorkflowCatalog::new(),
            registry: Registry::new(),
            held: PausedRuns::new(),
            gate: ShutdownGate::new(),
            histories: Vec::new(),
            recorders: Vec::new(),
            timer_rows: Vec::new(),
            visible: Vec::new(),
            announced: Vec::new(),
            placed: Vec::new(),
            monitored: Vec::new(),
            live_processes: Vec::new(),
            starts: 0,
            faults: Faults::default(),
            next: 100,
        }
    }

    /// An engine that has `checkout` loaded.
    fn new() -> Result<Self, EngineError> {
        let mut world = World::empty();
        load(&mut world.catalog, &package("checkout", 3))?;
        Ok(world)
    }

    fn fresh(&mut self) -> u64 {
        self.next += 1;
        self.next
    }

    fn history(&self, id: &WorkflowId) -> Vec<Event> {
        match self.histories.iter().find(|(known, _)| known == id) {
            Some((_, history)) => history.clone(),
            None => Vec::new(),
        }
    }

    /// Appends one event behind the expected head.
    fn append(
        &mut self,
        id: &WorkflowId,
        expected: u64,
        event: impl FnOnce(EventEnvelope) -> Event,
    ) -> Result<u64, EngineError> {
        if last_sequence(&self.history(id)) != expected {
            return Err(EngineError::Durability(DurabilityError::Store(
                StoreError::SequenceConflict { reason: format!("expected {expected}") },
            )));
        }
        let seq = expected + 1;
        let event = event(EventEnvelope { seq, recorded_at: now(), workflow_id: *id });
        match self.histories.iter_mut().find(|(known, _)| known == id) {
            Some((_, history)) => history.push(event),
            None => self.histories.push((*id, vec![event])),
        }
        Ok(seq)
    }

    /// Appends one event through the recorder of a run.
    fn record(
        &mut self,
        id: &WorkflowId,
        run: &RunId,
        event: impl FnOnce(EventEnvelope) -> Event,
    ) -> Result<(), EngineError> {
        let Some(position) = self.recorders.iter().position(|(known, _)| known == run) else {
            return Err(runtime_error("no recorder"));
        };
        let head = self.append(id, self.recorders[position].1, event)?;
        self.recorders[position].1 = head;
        Ok(())
    }

    fn upsert_visibility(&mut self, id: &WorkflowId, run: &RunId) -> Result<(), EngineError> {
        let failure = FailureProjection { failed_step: None, failure_reason: None };
        let record = visibility_record_from_history(&self.history(id), run, failure)?;
        self.visible.retain(|row| row.workflow_id != *id);
        self.visible.push(record);
        Ok(())
    }

    fn outcomes_of(&self, run: &RunId) -> Vec<TerminalOutcome> {
        self.announced
            .iter()
            .filter(|(ended, _)| ended == run)
            .map(|(_, outcome)| outcome.clone())
            .collect()
    }

    fn start_planned(&mut self, start: PlannedStart) -> Result<WorkflowHandle, EngineError> {
        assert!(has_pin_room(&self.catalog, &start.workflow_type, &start.options.loaded_version));
        let pinned =
            resolve_start(&mut self.catalog, &start.workflow_type, &start.options.loaded_version)?;
        let workflow = pinned.workflow().clone();
        assert!(self.catalog.has_pinned_starts(&start.workflow_type, workflow.version()));
        let started = self.start_resolved(&workflow, start);
        self.catalog.release(pinned);
        started
    }

    fn start_resolved(
        &mut self,
        workflow: &LoadedWorkflow,
        start: PlannedStart,
    ) -> Result<WorkflowHandle, EngineError> {
        self.starts += 1;
        let PlannedStart { workflow_type, input, options } = start;
        let supplied = options.workflow_id;
        let id = supplied.unwrap_or(WorkflowId::new(u128::from(self.fresh())));
        let run_id = RunId::new(u128::from(self.fresh()));
        let head = initial_head(supplied.is_some(), &self.history(&id));
        self.recorders.push((run_id, head));
        let mut handle: Option<WorkflowHandle> = None;
        let mut run = StartRun::new(now(), workflow.declared_timeout());
        loop {
            let pid = handle.as_ref().map(|handle| handle.pid).unwrap_or(0);
            let reply = match &run.phase {
                StartPhase::RecordStarted if self.faults.attributes.is_some() => {
                    let reason = String::from(self.faults.attributes.unwrap_or_default());
                    let refused = DurabilityError::Other { reason };
                    StartReply::Failed(EngineError::Durability(refused))
                }
                StartPhase::RecordStarted => {
                    let parent = options.parent_run_id;
                    let record =
                        start_record(&workflow_type, input.clone(), run_id, parent, workflow);
                    let recorded = self.record(&id, &run_id, |envelope| Event::WorkflowStarted {
                        envelope,
                        workflow_type: record.workflow_type,
                        input: record.input,
                        run_id: record.run_id,
                        parent_run_id: record.parent_run_id,
                        package_version: record.package_version,
                    });
                    let attributes = options.search_attributes.clone();
                    settled(if recorded.is_err() || attributes.is_empty() {
                        recorded
                    } else {
                        self.record(&id, &run_id, |envelope| Event::SearchAttributesUpdated {
                            envelope,
                            workflow_id: id,
                            attributes,
                        })
                    })
                }
                StartPhase::RecordDeadline { fire_at } => {
                    let fire_at = *fire_at;
                    settled(self.record(&id, &run_id, |envelope| Event::TimerStarted {
                        envelope,
                        timer_id: deadline_timer_id(&run_id),
                        fire_at,
                    }))
                }
                StartPhase::UpsertVisibility => settled(self.upsert_visibility(&id, &run_id)),
                StartPhase::EnsureSupervisor | StartPhase::DeliverSignals => StartReply::Done,
                StartPhase::Spawn => match self.faults.spawn {
                    Some(reason) => StartReply::Failed(runtime_error(reason)),
                    None => {
                        let pid = self.fresh();
                        self.live_processes.push(pid);
                        let namespace = options.namespace.clone();
                        handle = Some(started_handle(id, run_id, pid, workflow, namespace));
                        StartReply::Spawned(pid)
                    }
                },
                StartPhase::Place => {
                    self.placed.push(pid);
                    StartReply::Done
                }
                StartPhase::Publish => {
                    self.registry.insert(handle.clone().expect("a process"));
                    StartReply::Done
                }
                StartPhase::ArmDeadline { fire_at } => {
                    let timer_id = deadline_timer_id(&run_id);
                    self.timer_rows.push((TimerRow { workflow_id: id, timer_id }, *fire_at));
                    StartReply::Done
                }
                StartPhase::InstallMonitor | StartPhase::RetainWithMonitor { .. } => {
                    match self.faults.monitor.take() {
                        Some(reason) => StartReply::Failed(runtime_error(reason)),
                        None => {
                            self.monitored.push(pid);
                            StartReply::Done
                        }
                    }
                }
                StartPhase::RetractPartial { .. } | StartPhase::RetractPublication { .. } => {
                    self.registry.remove(&id, &run_id);
                    StartReply::Done
                }
                StartPhase::AbortUnpublished { .. } | StartPhase::AbortPublished { .. } => {
                    if self.faults.abort {
                        StartReply::Aborted(AbortOutcome::NotSubmitted(runtime_error(
                            "cleanup executor is unavailable",
                        )))
                    } else {
                        self.live_processes.retain(|live| *live != pid);
                        StartReply::Aborted(AbortOutcome::Terminated)
                    }
                }
                StartPhase::AttachFinalizer { .. } => StartReply::Attached(AttachOutcome::NoJob),
                StartPhase::Started | StartPhase::Failed(_) => break,
            };
            run = run.advance(reply);
        }
        match run.phase {
            StartPhase::Failed(error) => Err(error),
            _ => Ok(handle.expect("a process")),
        }
    }

    fn start_workflow(
        &mut self,
        workflow_type: &str,
        input: Payload,
        attributes: Vec<SearchAttribute>,
        namespace: &str,
    ) -> Result<WorkflowHandle, EngineError> {
        let start = start_workflow(
            &mut self.gate,
            workflow_type,
            input,
            attributes,
            String::from(namespace),
        )?;
        let started = self.start_planned(start);
        self.gate.finish_operation();
        started
    }

    fn checkout(&mut self) -> Result<WorkflowHandle, EngineError> {
        self.start_workflow("checkout", payload("input"), Vec::new(), "default")
    }

    fn terminate(&mut self, transition: TerminateRun) -> Result<(), EngineError> {
        let (id, run_id) = (transition.handle.workflow_id, transition.handle.run_id);
        let mut run = transition;
        loop {
            let reply = match &run.phase {
                TerminatePhase::Recheck => {
                    run = run.recheck(&self.history(&id));
                    continue;
                }
                TerminatePhase::Record => {
                    let outcome = run.outcome.clone();
                    self.record(&id, &run_id, |envelope| ended(envelope, outcome))
                }
                TerminatePhase::Kill => {
                    let pid = run.handle.pid;
                    self.live_processes.retain(|live| *live != pid);
                    Ok(())
                }
                TerminatePhase::UpsertVisibility => self.upsert_visibility(&id, &run_id),
                TerminatePhase::Notify => {
                    self.announced.push((run_id, run.outcome.clone()));
                    Ok(())
                }
                TerminatePhase::Deregister => {
                    self.registry.remove(&id, &run_id);
                    Ok(())
                }
                TerminatePhase::Ended | TerminatePhase::Lost | TerminatePhase::Failed(_) => break,
            };
            run = run.advance(reply);
        }
        match run.phase {
            TerminatePhase::Failed(error) => Err(error),
            _ => Ok(()),
        }
    }

    fn complete(&mut self, handle: &WorkflowHandle, result: Payload) -> Result<(), EngineError> {
        let context = TerminateWorkflowContext { registry: &self.registry };
        let run = terminate::complete(context, &handle.workflow_id, &handle.run_id, result)?;
        self.terminate(run)
    }

    fn fail(&mut self, handle: &WorkflowHandle, error: WorkflowError) -> Result<(), EngineError> {
        let context = TerminateWorkflowContext { registry: &self.registry };
        let run = terminate::fail(context, &handle.workflow_id, &handle.run_id, error)?;
        self.terminate(run)
    }

    fn cancel(&mut self, id: &WorkflowId, run: &RunId, reason: &str) -> Result<(), EngineError> {
        let mut timers = CancelRun::cancel(&mut self.gate)?;
        loop {
            let reply = match timers.phase {
                CancelPhase::ListTimers => CancelReply::History(self.history(id)),
                CancelPhase::RetireTimer { timer } => {
                    let timer_id = timers.timers[timer].clone();
                    let cause = TimerCancelCause::CancelTeardown;
                    self.record(id, run, |envelope| Event::TimerCancelled {
                        envelope,
                        timer_id,
                        cause,
                    })?;
                    CancelReply::Settled
                }
                CancelPhase::Transition => break,
            };
            timers = timers.advance(reply);
        }
        let context = TerminateWorkflowContext { registry: &self.registry };
        let cancelled = match terminate::cancel(context, id, run, String::from(reason)) {
            Ok(transition) => self.terminate(transition),
            Err(error) => Err(error),
        };
        self.gate.finish_operation();
        cancelled
    }

    fn exit(
        &mut self,
        handle: &WorkflowHandle,
        exit: Result<WorkflowProcessOutcome, EngineError>,
    ) -> Result<(), EngineError> {
        let (id, run_id) = (handle.workflow_id, handle.run_id);
        let mut run = ExitRun::begin(decide_exit(&self.history(&id), &run_id, exit));
        loop {
            let reply = match &run.phase {
                ExitPhase::Record(outcome) => {
                    let outcome = outcome.clone();
                    self.record(&id, &run_id, |envelope| ended(envelope, outcome))
                }
                ExitPhase::Notify(outcome) => {
                    self.announced.push((run_id, outcome.clone()));
                    Ok(())
                }
                ExitPhase::UpsertVisibility => self.upsert_visibility(&id, &run_id),
                ExitPhase::Reconcile => {
                    let history = self.history(&id);
                    reconcile_terminal_registry(&mut self.registry, &id, &run_id, &history);
                    Ok(())
                }
                ExitPhase::StartReplacement { input, workflow_type, parent_run_id } => {
                    match start_continuation_replacement(
                        &self.history(&id),
                        handle,
                        input.clone(),
                        workflow_type.clone(),
                        *parent_run_id,
                    ) {
                        Some(start) => self.start_planned(start).map(|_| ()),
                        None => Ok(()),
                    }
                }
                ExitPhase::Handled | ExitPhase::Failed(_) => break,
            };
            run = run.advance(reply);
        }
        match run.phase {
            ExitPhase::Failed(error) => Err(error),
            _ => Ok(()),
        }
    }

    fn continue_as_new(
        &mut self,
        id: &WorkflowId,
        run: &RunId,
        request: ContinueAsNewRequest,
    ) -> Result<WorkflowHandle, EngineError> {
        let found = self.registry.get(id, run);
        let begun =
            continue_as_new(&mut self.gate, found.as_ref(), &self.catalog, id, run, &request);
        let mut phase = begun?;
        let handle = found.expect("an admitted run is registered");
        let mut replacement = None;
        loop {
            let reply = match &phase {
                ContinuePhase::Record => {
                    match guard_continue_as_new(&self.history(id), id, run) {
                        Ok(()) => {
                            let outcome = continued_outcome(run, &request);
                            self.record(id, run, |envelope| ended(envelope, outcome))
                        }
                        Err(error) => Err(error),
                    }
                }
                ContinuePhase::StartReplacement => {
                    match self.start_planned(replacement_start(&handle, &request)) {
                        Ok(started) => {
                            replacement = Some(started);
                            Ok(())
                        }
                        Err(error) => Err(error),
                    }
                }
                ContinuePhase::Notify => {
                    self.announced.push((*run, continued_outcome(run, &request)));
                    Ok(())
                }
                ContinuePhase::Deregister => {
                    self.registry.remove(id, run);
                    Ok(())
                }
                ContinuePhase::Continued | ContinuePhase::Failed(_) => break,
            };
            phase = phase.advance(reply);
        }
        self.gate.finish_operation();
        match phase {
            ContinuePhase::Failed(error) => Err(error),
            _ => Ok(replacement.expect("a replacement")),
        }
    }

    fn result(
        &self,
        id: &WorkflowId,
        run: &RunId,
    ) -> Result<Result<Payload, WorkflowError>, EngineError> {
        let policy = SignalDeliveryConfig {
            ready_timeout: TimeSpan::from_millis(20),
            initial_backoff: TimeSpan::from_millis(2),
            max_backoff: TimeSpan::from_millis(7),
            max_enqueue_attempts: 1,
        };
        let mut request = ResultRun::result(id, run, policy);
        loop {
            let reply = match &request.phase {
                ResultPhase::ReadHistory | ResultPhase::Reread => {
                    ResultReply::History(self.history(id))
                }
                ResultPhase::Lookup { .. } | ResultPhase::AwaitHandle(_) => ResultReply::Looked {
                    found: self.registry.get(id, run),
                    elapsed: TimeSpan::from_millis(20),
                },
                ResultPhase::AwaitOutcome(_) => match self.outcomes_of(run).pop() {
                    Some(outcome) => ResultReply::Outcome(outcome),
                    None => ResultReply::Closed,
                },
                ResultPhase::Ended(_) | ResultPhase::Refused(_) => break,
            };
            request = request.advance(reply);
        }
        match request.phase {
            ResultPhase::Ended(result) => Ok(result),
            ResultPhase::Refused(error) => Err(error),
            other => panic!("the request has not ended: {other:?}"),
        }
    }

    /// Summary of a workflow whose status is asked for.
    fn summary(&self, id: &WorkflowId, status: Option<WorkflowStatus>) -> Option<WorkflowSummary> {
        let history = self.history(id);
        let Some(Event::WorkflowStarted { envelope, workflow_type, .. }) = history.first() else {
            return None;
        };
        let projected = status_from_events(&history);
        if status.is_some_and(|asked| asked != projected) {
            return None;
        }
        Some(WorkflowSummary {
            workflow_id: *id,
            workflow_type: workflow_type.clone(),
            status: projected,
            started_at: envelope.recorded_at,
        })
    }

    fn list_workflows(&self, status: Option<WorkflowStatus>) -> Vec<WorkflowSummary> {
        let stored: Vec<_> =
            self.histories.iter().filter_map(|(id, _)| self.summary(id, status)).collect();
        let live: Vec<_> = self
            .registry
            .list()
            .iter()
            .filter_map(|handle| self.summary(&handle.workflow_id, status))
            .collect();
        list_workflows(&stored, &live)
    }

    fn shutdown(&mut self) -> Result<(), EngineError> {
        let mut phase = ShutdownPhase::StopReconciliation;
        loop {
            let reply = match &phase {
                ShutdownPhase::CloseGate => {
                    assert!(self.gate.close_and_wait(), "no operation is in flight");
                    Ok(())
                }
                ShutdownPhase::StopRuntime => {
                    self.live_processes.clear();
                    Ok(())
                }
                ShutdownPhase::ShutDown => return Ok(()),
                ShutdownPhase::Failed(_) => break,
                _ => Ok(()),
            };
            phase = phase.advance(reply);
        }
        match phase {
            ShutdownPhase::Failed(error) => Err(error),
            _ => Ok(()),
        }
    }

    /// Retires orphaned deadlines. Before the first append, `intrude` may write.
    fn sweep_deadlines_with(
        &mut self,
        scope: SweepScope,
        intrude: Option<&dyn Fn(&mut World, u64)>,
    ) -> Result<(), EngineError> {
        let horizon = sweep_horizon(now());
        let rows: Vec<TimerRow> = self
            .timer_rows
            .iter()
            .filter(|(_, fire_at)| !fire_at.is_after(&horizon))
            .map(|(row, _)| TimerRow {
                workflow_id: row.workflow_id,
                timer_id: row.timer_id.clone(),
            })
            .collect();
        let mut intrude = intrude;
        let mut sweep = DeadlineSweep::sweep_uncancelled_terminal_deadlines(&rows, scope);
        loop {
            let reply = match &sweep.phase {
                DeadlineSweepPhase::CheckLive => {
                    let id = sweep.candidates[sweep.next].workflow_id;
                    DeadlineSweepReply::Live(self.registry.live_run(&id).is_some())
                }
                DeadlineSweepPhase::Read | DeadlineSweepPhase::Reread(_) => {
                    let id = sweep.candidates[sweep.next].workflow_id;
                    DeadlineSweepReply::History(self.history(&id))
                }
                DeadlineSweepPhase::Retire { head } => {
                    let head = *head;
                    let candidate = sweep.candidates[sweep.next];
                    if let Some(intrude) = intrude.take() {
                        intrude(self, head);
                    }
                    let retired = self.append(&candidate.workflow_id, head, |envelope| {
                        Event::TimerCancelled {
                            envelope,
                            timer_id: deadline_timer_id(&candidate.run_id),
                            cause: TimerCancelCause::CancelTeardown,
                        }
                    });
                    match retired {
                        Ok(_) => DeadlineSweepReply::Retired,
                        Err(error) => DeadlineSweepReply::Failed(error),
                    }
                }
                DeadlineSweepPhase::Swept | DeadlineSweepPhase::Failed(_) => break,
            };
            sweep = sweep.advance(reply);
        }
        match sweep.phase {
            DeadlineSweepPhase::Failed(error) => Err(error),
            _ => Ok(()),
        }
    }

    fn sweep_deadlines(&mut self, scope: SweepScope) -> Result<(), EngineError> {
        self.sweep_deadlines_with(scope, None)
    }

    /// The workflows whose histories project a status.
    fn with_status(&self, status: WorkflowStatus) -> Vec<WorkflowId> {
        self.histories
            .iter()
            .filter(|(_, history)| status_from_events(history) == status)
            .map(|(id, _)| *id)
            .collect()
    }

    fn sweep_successors(&mut self) -> Result<(), EngineError> {
        let stranded = self.with_status(WorkflowStatus::ContinuedAsNew);
        let mut sweep = SuccessorSweep::sweep_continued_as_new_replacements(stranded);
        loop {
            let reply = match &sweep.phase {
                SuccessorSweepPhase::Read | SuccessorSweepPhase::Reread { .. } => {
                    SweepReply::History(self.history(&sweep.stranded[sweep.next]))
                }
                SuccessorSweepPhase::Start { start, .. } => match self.start_planned(copy(start)) {
                    Ok(_) => SweepReply::Started,
                    Err(error) => SweepReply::Failed(error),
                },
                SuccessorSweepPhase::Swept | SuccessorSweepPhase::Failed(_) => break,
            };
            sweep = sweep.advance(reply);
        }
        match sweep.phase {
            SuccessorSweepPhase::Failed(error) => Err(error),
            _ => Ok(()),
        }
    }

    fn sweep_children(&mut self, parent: &WorkflowId, run: &RunId) -> Result<(), EngineError> {
        let mut sweep = ChildSweep::sweep_recorded_children(&self.history(parent), run);
        loop {
            let reply = match &sweep.phase {
                ChildSweepPhase::Read => {
                    SweepReply::History(self.history(&sweep.children[sweep.next].child_workflow_id))
                }
                ChildSweepPhase::Start(start) => match self.start_planned(copy(start)) {
                    Ok(_) => SweepReply::Started,
                    Err(error) => SweepReply::Failed(error),
                },
                ChildSweepPhase::Swept | ChildSweepPhase::Failed(_) => break,
            };
            sweep = sweep.advance(reply);
        }
        match sweep.phase {
            ChildSweepPhase::Failed(error) => Err(error),
            _ => Ok(()),
        }
    }

    /// Recovers an engine that has no active workflow to respawn.
    fn recover(&mut self, recovery: RecoveryRun) -> Result<(), EngineError> {
        let mut run = recovery;
        loop {
            let reply = match &run.phase {
                RecoveryPhase::RebuildHolds => {
                    let listed = self.with_status(WorkflowStatus::Paused);
                    run = run.rebuild_holds(&mut self.held, &listed);
                    continue;
                }
                RecoveryPhase::SweepDeadlines => self.sweep_deadlines(run.scope),
                RecoveryPhase::SweepSuccessors => self.sweep_successors(),
                RecoveryPhase::Recovered | RecoveryPhase::Failed(_) => break,
                _ => Ok(()),
            };
            run = run.advance(reply);
        }
        match run.phase {
            RecoveryPhase::Failed(error) => Err(error),
            _ => Ok(()),
        }
    }

    /// Seeds a history with a start and a deadline timer, which has a durable row, and ends
    /// it. The deadline is never cancelled.
    fn seed_with_deadline(
        &mut self,
        workflow_type: &str,
        id: WorkflowId,
        run_id: RunId,
        fire_at: Timestamp,
        outcome: TerminalOutcome,
    ) -> Result<(), EngineError> {
        self.recorders.push((run_id, 0));
        self.record(&id, &run_id, |envelope| Event::WorkflowStarted {
            envelope,
            workflow_type: String::from(workflow_type),
            input: Payload::new(ContentType::Json, b"{}".to_vec()),
            run_id,
            parent_run_id: None,
            package_version: PackageVersion::new("a".repeat(64)),
        })?;
        let timer_id = deadline_timer_id(&run_id);
        self.record(&id, &run_id, |envelope| Event::TimerStarted { envelope, timer_id, fire_at })?;
        self.record(&id, &run_id, |envelope| ended(envelope, outcome))?;
        let timer_id = deadline_timer_id(&run_id);
        self.timer_rows.push((TimerRow { workflow_id: id, timer_id }, fire_at));
        Ok(())
    }

    fn deadline_is_outstanding(&self, id: &WorkflowId, run: &RunId) -> bool {
        outstanding_deadline_timer(&self.history(id), run).is_some()
    }

    /// Registers a live handle of a run.
    fn register(&mut self, id: WorkflowId, run_id: RunId) {
        self.registry.insert(WorkflowHandle {
            workflow_id: id,
            run_id,
            pid: 1,
            workflow_type: String::from("checkout"),
            namespace: String::from("default"),
            loaded_version: ContentHash::from_bytes([9; 32]),
            cached_status: WorkflowStatus::Running,
            residency: Residency::Resident,
        });
    }
}

fn timer_started(envelope: EventEnvelope, timer_id: TimerId, hours: i64) -> Event {
    let fire_at = Timestamp { secs: now().secs + 3_600 * hours, nanos: 0 };
    Event::TimerStarted { envelope, timer_id, fire_at }
}

#[test]
fn unknown_workflow_type_returns_not_found_and_appends_nothing() {
    let mut world = World::empty();
    let result = world.checkout();
    assert!(matches!(
        result,
        Err(EngineError::WorkflowNotFound { workflow_type }) if workflow_type == "checkout"
    ));
    assert!(world.histories.is_empty());
    assert!(world.registry.list().is_empty());
}

#[test]
fn recorder_append_happens_before_spawn_failure() -> Result<(), EngineError> {
    let mut world = World::new()?;
    world.faults.spawn = Some("module is not registered");
    let result = world.checkout();
    assert_eq!(result, Err(runtime_error("module is not registered")));
    assert_eq!(world.histories.len(), 1);
    let (id, history) = &world.histories[0];
    match history.as_slice() {
        [Event::WorkflowStarted { envelope, workflow_type, input, parent_run_id: None, .. }] => {
            assert_eq!(envelope.seq, 1);
            assert_eq!(&envelope.workflow_id, id);
            assert_eq!(workflow_type, "checkout");
            assert_eq!(input, &payload("input"));
        }
        other => panic!("expected WorkflowStarted, found {other:?}"),
    }
    assert!(world.registry.list().is_empty());
    assert!(!world.catalog.has_pinned_starts("checkout", &ContentHash::from_bytes([3; 32])));
    Ok(())
}

#[test]
fn start_with_attributes_records_started_then_attributes_before_spawn() -> Result<(), EngineError>
{
    let mut world = World::new()?;
    world.faults.spawn = Some("stop before the process");
    let attributes = vec![SearchAttribute {
        name: String::from("aion.namespace"),
        value: SearchAttributeValue::String(String::from("tenant-a")),
    }];
    let result =
        world.start_workflow("checkout", payload("input"), attributes.clone(), "default");
    assert!(result.is_err(), "everything below happened before the spawn");
    let (_, history) = &world.histories[0];
    match history.as_slice() {
        [
            Event::WorkflowStarted { .. },
            Event::SearchAttributesUpdated { attributes: recorded, .. },
        ] => {
            assert_eq!(recorded, &attributes);
        }
        other => panic!("expected started then attributes, found {other:?}"),
    }
    assert_eq!(world.visible.len(), 1);
    assert_eq!(
        world.visible[0].search_attributes.get(&String::from("aion.namespace")),
        Some(&SearchAttributeValue::String(String::from("tenant-a")))
    );
    Ok(())
}

#[test]
fn start_with_unregistered_attribute_fails_without_append_or_spawn() -> Result<(), EngineError> {
    let mut world = World::new()?;
    world.faults.attributes = Some("search attribute `aion.namespace` is not registered");
    let attributes = vec![SearchAttribute {
        name: String::from("aion.namespace"),
        value: SearchAttributeValue::String(String::from("tenant-a")),
    }];
    let result = world.start_workflow("checkout", payload("input"), attributes, "default");
    assert!(matches!(result, Err(EngineError::Durability(_))));
    assert!(world.histories.is_empty());
    assert!(world.registry.list().is_empty());
    assert!(world.live_processes.is_empty());
    Ok(())
}

#[test]
fn successful_start_appends_spawns_places_registers_and_returns_handle() -> Result<(), EngineError>
{
    let mut world = World::new()?;
    let handle = world.checkout()?;
    assert_eq!(handle.workflow_type, "checkout");
    assert_eq!(handle.loaded_version, ContentHash::from_bytes([3; 32]));
    assert_eq!(handle.cached_status, WorkflowStatus::Running);
    assert_eq!(handle.residency, Residency::Resident);
    assert!(world.outcomes_of(&handle.run_id).is_empty());
    assert_eq!(world.live_processes, vec![handle.pid]);
    assert_eq!(world.placed, vec![handle.pid]);
    assert_eq!(world.monitored, vec![handle.pid]);
    assert_eq!(
        world.registry.get(&handle.workflow_id, &handle.run_id),
        Some(handle.clone())
    );
    assert_eq!(world.histories.len(), 1);
    match world.history(&handle.workflow_id).as_slice() {
        [
            Event::WorkflowStarted {
                envelope,
                workflow_type,
                input,
                run_id,
                parent_run_id: None,
                ..
            },
        ] => {
            assert_eq!(envelope.seq, 1);
            assert_eq!(envelope.workflow_id, handle.workflow_id);
            assert_eq!(workflow_type, "checkout");
            assert_eq!(input, &payload("input"));
            assert_eq!(run_id, &handle.run_id);
        }
        other => panic!("expected WorkflowStarted, found {other:?}"),
    }
    Ok(())
}

#[test]
fn normal_start_monitor_failure_retracts_publication_and_observes_abort()
-> Result<(), EngineError> {
    let mut world = World::empty();
    load(&mut world.catalog, &package("monitor-failure", 3))?;
    world.faults.monitor = Some("forced test failure");
    let result =
        world.start_workflow("monitor-failure", payload("input"), Vec::new(), "default");
    let Err(error) = result else {
        panic!("forced normal-start monitor failure returned a handle");
    };
    assert!(error.message().contains("forced test failure"));
    assert_eq!(world.placed.len(), 1, "the process was there");
    assert!(world.registry.list().is_empty());
    assert!(world.live_processes.is_empty());
    Ok(())
}

#[test]
fn failed_start_with_unabortable_process_retains_ownership_not_orphan() -> Result<(), EngineError>
{
    let mut world = World::empty();
    load(&mut world.catalog, &package("retain-on-abort-failure", 3))?;
    world.faults.monitor = Some("forced test failure");
    world.faults.abort = true;
    let result =
        world.start_workflow("retain-on-abort-failure", payload("input"), Vec::new(), "default");
    assert!(matches!(result, Err(EngineError::Runtime { .. })));
    let retained = world.registry.list();
    assert_eq!(retained.len(), 1);
    assert_eq!(world.live_processes, vec![retained[0].pid]);
    assert_eq!(world.monitored, vec![retained[0].pid]);
    Ok(())
}

#[test]
fn start_with_existing_workflow_id_resumes_history_sequence() -> Result<(), EngineError> {
    let mut world = World::new()?;
    let id = WorkflowId::new(71);
    let parent_run_id = RunId::new(72);
    world.append(&id, 0, |envelope| Event::WorkflowStarted {
        envelope,
        workflow_type: String::from("checkout"),
        input: payload("first"),
        run_id: RunId::new(1),
        parent_run_id: None,
        package_version: PackageVersion::new("a".repeat(64)),
    })?;
    world.append(&id, 1, |envelope| Event::WorkflowContinuedAsNew {
        envelope,
        input: payload("second"),
        workflow_type: None,
        parent_run_id,
    })?;
    assert_eq!(initial_head(true, &world.history(&id)), 2);
    let handle = world.start_planned(PlannedStart {
        workflow_type: String::from("checkout"),
        input: payload("second"),
        options: StartWorkflowOptions {
            workflow_id: Some(id),
            parent_run_id: Some(parent_run_id),
            ..options()
        },
    })?;
    assert_eq!(handle.workflow_id, id);
    let history = world.history(&id);
    assert_eq!(history.len(), 3);
    match &history[2] {
        Event::WorkflowStarted { envelope, workflow_type, parent_run_id: started_parent, .. } => {
            assert_eq!(envelope.seq, 3);
            assert_eq!(workflow_type, "checkout");
            assert_eq!(started_parent, &Some(parent_run_id));
        }
        other => panic!("expected replacement WorkflowStarted, found {other:?}"),
    }
    Ok(())
}

#[test]
fn start_then_cancel_records_started_then_cancelled() -> Result<(), EngineError> {
    let mut world = World::new()?;
    let handle = world.checkout()?;
    world.cancel(&handle.workflow_id, &handle.run_id, "caller requested cancellation")?;
    match world.history(&handle.workflow_id).as_slice() {
        [Event::WorkflowStarted { .. }, Event::WorkflowCancelled { reason, .. }] => {
            assert_eq!(reason, "caller requested cancellation");
        }
        other => panic!("expected started then cancelled, found {other:?}"),
    }
    Ok(())
}

#[test]
fn cancel_records_timer_cancelled_before_workflow_cancelled() -> Result<(), EngineError> {
    let mut world = World::new()?;
    let handle = world.checkout()?;
    let (id, run) = (handle.workflow_id, handle.run_id);
    let timer_id = TimerId::anonymous(0);
    world.record(&id, &run, |envelope| timer_started(envelope, TimerId::anonymous(0), 1))?;
    world.cancel(&id, &run, "caller requested cancellation")?;
    match world.history(&id).as_slice() {
        [
            Event::WorkflowStarted { .. },
            Event::TimerStarted { timer_id: started, .. },
            Event::TimerCancelled { timer_id: cancelled, .. },
            Event::WorkflowCancelled { reason, .. },
        ] => {
            assert_eq!(started, &timer_id);
            assert_eq!(cancelled, &timer_id, "the live timer must be cancelled");
            assert_eq!(reason, "caller requested cancellation");
        }
        other => panic!("expected started, timer, its cancel and the cancel, found {other:?}"),
    }
    Ok(())
}

#[test]
fn cancel_cancels_multiple_live_timers() -> Result<(), EngineError> {
    let mut world = World::new()?;
    let handle = world.checkout()?;
    let (id, run) = (handle.workflow_id, handle.run_id);
    let (first, second) = (TimerId::anonymous(0), TimerId::anonymous(1));
    world.record(&id, &run, |envelope| timer_started(envelope, TimerId::anonymous(0), 1))?;
    world.record(&id, &run, |envelope| timer_started(envelope, TimerId::anonymous(1), 1))?;
    world.cancel(&id, &run, "stop")?;
    match world.history(&id).as_slice() {
        [
            Event::WorkflowStarted { .. },
            Event::TimerStarted { timer_id: started_first, .. },
            Event::TimerStarted { timer_id: started_second, .. },
            Event::TimerCancelled { timer_id: cancelled_first, .. },
            Event::TimerCancelled { timer_id: cancelled_second, .. },
            Event::WorkflowCancelled { .. },
        ] => {
            assert_eq!(started_first, &first);
            assert_eq!(started_second, &second);
            assert_eq!(cancelled_first, &first, "first live timer cancelled first");
            assert_eq!(cancelled_second, &second, "second live timer cancelled second");
        }
        other => panic!("expected two timer-cancels before workflow-cancel, found {other:?}"),
    }
    Ok(())
}

#[test]
fn result_returns_completed_payload() -> Result<(), EngineError> {
    let mut world = World::new()?;
    let handle = world.checkout()?;
    world.complete(&handle, payload("result"))?;
    assert_eq!(world.result(&handle.workflow_id, &handle.run_id)?, Ok(payload("result")));
    Ok(())
}

#[test]
fn result_returns_failed_workflow_error() -> Result<(), EngineError> {
    let mut world = World::new()?;
    let handle = world.checkout()?;
    let error = workflow_error("workflow failed");
    world.fail(&handle, error.clone())?;
    assert_eq!(world.result(&handle.workflow_id, &handle.run_id)?, Err(error));
    Ok(())
}

#[test]
fn result_unknown_workflow_returns_not_found() -> Result<(), EngineError> {
    let world = World::new()?;
    let result = world.result(&WorkflowId::new(5), &RunId::new(6));
    assert!(matches!(result, Err(EngineError::WorkflowNotFound { .. })));
    Ok(())
}

#[test]
fn list_workflows_merges_live_and_terminal_without_duplicates() -> Result<(), EngineError> {
    let mut world = World::new()?;
    let running = world.checkout()?;
    let completed = world.checkout()?;
    world.complete(&completed, payload("result"))?;
    let summaries = world.list_workflows(None);
    assert_eq!(summaries.len(), 2);
    assert!(summaries.iter().any(|summary| {
        summary.workflow_id == running.workflow_id && summary.status == WorkflowStatus::Running
    }));
    assert!(summaries.iter().any(|summary| {
        summary.workflow_id == completed.workflow_id && summary.status == WorkflowStatus::Completed
    }));
    let completed_only = world.list_workflows(Some(WorkflowStatus::Completed));
    assert_eq!(completed_only.len(), 1);
    assert_eq!(completed_only[0].workflow_id, completed.workflow_id);
    Ok(())
}

fn shut_down_world() -> Result<(World, WorkflowHandle), EngineError> {
    let mut world = World::new()?;
    let handle = world.checkout()?;
    world.complete(&handle, payload("result"))?;
    world.shutdown()?;
    Ok((world, handle))
}

#[test]
fn shutdown_rejects_subsequent_starts() -> Result<(), EngineError> {
    let (mut world, _) = shut_down_world()?;
    let result =
        world.start_workflow("checkout", payload("after-shutdown"), Vec::new(), "default");
    assert_eq!(result, Err(EngineError::ShuttingDown));
    assert_eq!(world.histories.len(), 1, "nothing was recorded");
    Ok(())
}

#[test]
fn shutdown_is_idempotent() -> Result<(), EngineError> {
    let (mut world, _) = shut_down_world()?;
    let second = world.shutdown();
    assert!(second.is_ok(), "double shutdown should succeed; got {second:?}");
    Ok(())
}

#[test]
fn shutdown_rejects_schedule_creation() -> Result<(), EngineError> {
    let (mut world, _) = shut_down_world()?;
    let config = Payload::new(
        ContentType::Json,
        b"{\"trigger\":{\"interval\":60},\"workflow_type\":\"checkout\"}".to_vec(),
    );
    let result = ScheduleChangeRun::create_schedule(&mut world.gate, ScheduleId::new(4), config);
    assert_eq!(result, Err(EngineError::ShuttingDown));
    Ok(())
}

#[test]
fn shutdown_rejects_every_other_operation() -> Result<(), EngineError> {
    let mut world = World::new()?;
    let handle = world.checkout()?;
    let (id, run) = (handle.workflow_id, handle.run_id);
    world.shutdown()?;
    let closed = ShutdownState { shutting_down: true, active_operations: 0 };
    let history = world.history(&id);
    assert_eq!(world.cancel(&id, &run, "stop"), Err(EngineError::ShuttingDown));
    let request = ContinueAsNewRequest { input: payload("next"), workflow_type: None };
    assert_eq!(world.continue_as_new(&id, &run, request), Err(EngineError::ShuttingDown));
    assert_eq!(AdoptPhase::adopt_shards(&mut world.gate), Err(EngineError::ShuttingDown));
    let change = ScheduleChange::Pause;
    let schedule_id = ScheduleId::new(4);
    assert_eq!(
        ScheduleChangeRun::begin(&mut world.gate, &Vec::new(), schedule_id, change),
        Err(EngineError::ShuttingDown)
    );
    assert_eq!(world.gate.state(), closed);
    assert_eq!(world.history(&id), history, "nothing was recorded");
    assert_eq!(world.registry.get(&id, &run), Some(handle));
    Ok(())
}

#[test]
fn operations_are_counted_in_and_out() -> Result<(), EngineError> {
    let mut world = World::new()?;
    let handle = world.checkout()?;
    let idle = ShutdownState { shutting_down: false, active_operations: 0 };
    assert_eq!(world.gate.state(), idle);
    let unknown = ContinueAsNewRequest { input: payload("next"), workflow_type: None };
    assert!(world.continue_as_new(&WorkflowId::new(9), &RunId::new(9), unknown).is_err());
    assert_eq!(world.gate.state(), idle, "a refused continuation has finished");
    let request = ContinueAsNewRequest { input: payload("next"), workflow_type: None };
    world.continue_as_new(&handle.workflow_id, &handle.run_id, request)?;
    assert_eq!(world.gate.state(), idle);
    assert_eq!(AdoptPhase::adopt_shards(&mut world.gate), Ok(AdoptPhase::Fence));
    let change = ScheduleChange::Pause;
    let schedule_id = ScheduleId::new(4);
    let Ok(run) = ScheduleChangeRun::begin(&mut world.gate, &Vec::new(), schedule_id, change)
    else {
        panic!("the engine is open");
    };
    assert_eq!(
        run.phase,
        ScheduleChangePhase::Failed(EngineError::ScheduleNotFound { schedule_id })
    );
    assert_eq!(world.gate.state().active_operations, 2);
    Ok(())
}

#[test]
fn normal_exit_records_completed_reconciles_and_notifies() -> Result<(), EngineError> {
    let mut world = World::new()?;
    let handle = world.checkout()?;
    let (id, run) = (handle.workflow_id, handle.run_id);
    world.exit(&handle, Ok(WorkflowProcessOutcome::Completed(payload("result"))))?;
    assert_eq!(world.outcomes_of(&run), vec![TerminalOutcome::Completed(payload("result"))]);
    let Some(registered) = world.registry.get(&id, &run) else {
        panic!("missing registered handle");
    };
    assert_eq!(registered.cached_status, WorkflowStatus::Completed);
    assert_eq!(registered.residency, Residency::Suspended);
    match world.history(&id).as_slice() {
        [Event::WorkflowStarted { .. }, Event::WorkflowCompleted { result, .. }] => {
            assert_eq!(result, &payload("result"));
        }
        other => panic!("expected started then completed, found {other:?}"),
    }
    Ok(())
}

#[test]
fn abnormal_exit_records_failed_reconciles_and_notifies() -> Result<(), EngineError> {
    let mut world = World::new()?;
    let handle = world.checkout()?;
    let (id, run) = (handle.workflow_id, handle.run_id);
    let error = workflow_error("process crashed: error");
    world.exit(&handle, Ok(WorkflowProcessOutcome::Failed(error.clone())))?;
    assert_eq!(world.outcomes_of(&run), vec![TerminalOutcome::Failed(error.clone())]);
    let Some(registered) = world.registry.get(&id, &run) else {
        panic!("missing registered handle");
    };
    assert_eq!(registered.cached_status, WorkflowStatus::Failed);
    assert_eq!(registered.residency, Residency::Suspended);
    match world.history(&id).as_slice() {
        [Event::WorkflowStarted { .. }, Event::WorkflowFailed { error: recorded, .. }] => {
            assert_eq!(recorded, &error);
        }
        other => panic!("expected started then failed, found {other:?}"),
    }
    Ok(())
}

#[test]
fn an_exit_after_a_recorded_continuation_starts_its_successor_once() -> Result<(), EngineError> {
    let mut world = World::new()?;
    let handle = world.checkout()?;
    let (id, run) = (handle.workflow_id, handle.run_id);
    let outcome = TerminalOutcome::ContinuedAsNew {
        input: payload("next"),
        workflow_type: None,
        parent_run_id: run,
    };
    let recorded = outcome.clone();
    world.record(&id, &run, |envelope| ended(envelope, recorded))?;
    for _ in 0..2 {
        world.exit(&handle, Ok(WorkflowProcessOutcome::Completed(payload("late"))))?;
        assert_eq!(world.starts, 2, "the start of the run and that of its successor");
    }
    assert_eq!(world.outcomes_of(&run), vec![outcome.clone(), outcome]);
    match world.history(&id).as_slice() {
        [
            Event::WorkflowStarted { .. },
            Event::WorkflowContinuedAsNew { .. },
            Event::WorkflowStarted { input, parent_run_id, .. },
        ] => {
            assert_eq!(input, &payload("next"));
            assert_eq!(parent_run_id, &Some(run));
        }
        other => panic!("expected one successor, found {other:?}"),
    }
    Ok(())
}

#[test]
fn complete_records_notifies_and_deregisters() -> Result<(), EngineError> {
    let mut world = World::new()?;
    let handle = world.checkout()?;
    let (id, run) = (handle.workflow_id, handle.run_id);
    world.complete(&handle, payload("result"))?;
    assert_eq!(world.outcomes_of(&run), vec![TerminalOutcome::Completed(payload("result"))]);
    assert_eq!(world.registry.get(&id, &run), None);
    match world.history(&id).as_slice() {
        [Event::WorkflowStarted { .. }, Event::WorkflowCompleted { envelope, result }] => {
            assert_eq!(envelope.seq, 2);
            assert_eq!(result, &payload("result"));
        }
        other => panic!("expected started then completed, found {other:?}"),
    }
    Ok(())
}

#[test]
fn fail_records_notifies_and_deregisters() -> Result<(), EngineError> {
    let mut world = World::new()?;
    let handle = world.checkout()?;
    let (id, run) = (handle.workflow_id, handle.run_id);
    let error = workflow_error("workflow failed");
    world.fail(&handle, error.clone())?;
    assert_eq!(world.outcomes_of(&run), vec![TerminalOutcome::Failed(error.clone())]);
    assert_eq!(world.registry.get(&id, &run), None);
    match world.history(&id).as_slice() {
        [Event::WorkflowStarted { .. }, Event::WorkflowFailed { envelope, error: recorded }] => {
            assert_eq!(envelope.seq, 2);
            assert_eq!(recorded, &error);
        }
        other => panic!("expected started then failed, found {other:?}"),
    }
    Ok(())
}

#[test]
fn cancel_kills_linked_children_records_notifies_and_deregisters() -> Result<(), EngineError> {
    let mut world = World::new()?;
    let handle = world.checkout()?;
    let (id, run) = (handle.workflow_id, handle.run_id);
    let reason = "caller requested cancellation";
    world.cancel(&id, &run, reason)?;
    assert!(world.live_processes.is_empty(), "the process is killed, and what is linked to it");
    assert_eq!(
        world.outcomes_of(&run),
        vec![TerminalOutcome::Cancelled(String::from(reason))]
    );
    assert_eq!(world.registry.get(&id, &run), None);
    match world.history(&id).as_slice() {
        [
            Event::WorkflowStarted { .. },
            Event::WorkflowCancelled { envelope, reason: recorded },
        ] => {
            assert_eq!(envelope.seq, 2);
            assert_eq!(recorded, reason);
        }
        other => panic!("expected started then cancelled, found {other:?}"),
    }
    Ok(())
}

#[test]
fn cancel_unknown_workflow_returns_not_found() -> Result<(), EngineError> {
    let mut world = World::new()?;
    let result = world.cancel(&WorkflowId::new(5), &RunId::new(6), "missing workflow");
    assert!(matches!(result, Err(EngineError::WorkflowNotFound { .. })));
    assert!(world.histories.is_empty());
    Ok(())
}

/// Continues a run that must not be continued, and returns why it was refused.
fn refused_continuation(world: &mut World, handle: &WorkflowHandle) -> String {
    let (id, run) = (handle.workflow_id, handle.run_id);
    let history = world.history(&id);
    let request = ContinueAsNewRequest { input: payload("next"), workflow_type: None };
    let result = world.continue_as_new(&id, &run, request);
    assert_eq!(world.history(&id), history, "nothing was recorded");
    assert_eq!(world.registry.get(&id, &run), Some(handle.clone()));
    match result {
        Err(EngineError::Runtime { reason }) => reason,
        other => panic!("expected a runtime error, found {other:?}"),
    }
}

#[test]
fn pending_activity_rejects_without_terminal_event() -> Result<(), EngineError> {
    let mut world = World::new()?;
    let handle = world.checkout()?;
    world.record(&handle.workflow_id, &handle.run_id, |envelope| Event::ActivityScheduled {
        envelope,
        activity_id: ActivityId::from_sequence_position(2),
        activity_type: String::from("charge-card"),
        input: payload("activity"),
        task_queue: String::from("default"),
        node: None,
    })?;
    assert!(refused_continuation(&mut world, &handle).contains("pending work"));
    Ok(())
}

#[test]
fn pending_child_rejects_without_terminal_event() -> Result<(), EngineError> {
    let mut world = World::new()?;
    let handle = world.checkout()?;
    world.record(&handle.workflow_id, &handle.run_id, |envelope| Event::ChildWorkflowStarted {
        envelope,
        child_workflow_id: WorkflowId::new(33),
        workflow_type: String::from("fulfillment"),
        input: payload("child"),
        package_version: PackageVersion::new("a".repeat(64)),
    })?;
    assert!(refused_continuation(&mut world, &handle).contains("pending work"));
    Ok(())
}

#[test]
fn recorded_terminal_rejects_continue_without_second_terminal_event() -> Result<(), EngineError> {
    let mut world = World::new()?;
    let handle = world.checkout()?;
    world.record(&handle.workflow_id, &handle.run_id, |envelope| Event::WorkflowCancelled {
        envelope,
        reason: String::from("caller requested cancellation"),
    })?;
    let reason = refused_continuation(&mut world, &handle);
    assert!(reason.contains("already recorded a terminal event"));
    assert!(matches!(
        world.history(&handle.workflow_id).as_slice(),
        [Event::WorkflowStarted { .. }, Event::WorkflowCancelled { .. }]
    ));
    Ok(())
}

/// An engine with two versions of `checkout`, of which the first drives a run, and with
/// `fulfillment`.
fn two_versions() -> Result<(World, WorkflowHandle), EngineError> {
    let mut world = World::new()?;
    let handle = world.checkout()?;
    load(&mut world.catalog, &package("checkout", 4))?;
    load(&mut world.catalog, &package("fulfillment", 5))?;
    Ok((world, handle))
}

#[test]
fn success_records_notifies_deregisters_and_starts_new_run() -> Result<(), EngineError> {
    let (mut world, handle) = two_versions()?;
    let (id, run) = (handle.workflow_id, handle.run_id);
    let request = ContinueAsNewRequest { input: payload("next"), workflow_type: None };
    let replacement = world.continue_as_new(&id, &run, request)?;
    assert_eq!(replacement.workflow_id, id);
    assert_ne!(replacement.run_id, run);
    assert_eq!(replacement.workflow_type, "checkout");
    assert_eq!(
        replacement.loaded_version,
        ContentHash::from_bytes([3; 32]),
        "replacement must use the old run's loaded version, not latest"
    );
    assert_eq!(world.registry.get(&id, &run), None);
    assert_eq!(world.registry.get(&id, &replacement.run_id), Some(replacement.clone()));
    assert_eq!(
        world.outcomes_of(&run),
        vec![TerminalOutcome::ContinuedAsNew {
            input: payload("next"),
            workflow_type: None,
            parent_run_id: run,
        }]
    );
    match world.history(&id).as_slice() {
        [
            Event::WorkflowStarted { .. },
            Event::WorkflowContinuedAsNew {
                input: continued_input,
                workflow_type,
                parent_run_id,
                ..
            },
            Event::WorkflowStarted {
                input: started_input,
                workflow_type: started_type,
                run_id: started_run_id,
                parent_run_id: started_parent,
                ..
            },
        ] => {
            assert_eq!(continued_input, &payload("next"));
            assert_eq!(workflow_type, &None);
            assert_eq!(parent_run_id, &run);
            assert_eq!(started_input, &payload("next"));
            assert_eq!(started_type, "checkout");
            assert_eq!(started_run_id, &replacement.run_id);
            assert_eq!(started_parent, &Some(run));
        }
        other => panic!("expected continue-as-new history, found {other:?}"),
    }
    Ok(())
}

#[test]
fn different_replacement_type_rejects_before_terminal_mutation() -> Result<(), EngineError> {
    let (mut world, handle) = two_versions()?;
    let (id, run) = (handle.workflow_id, handle.run_id);
    let result = world.continue_as_new(
        &id,
        &run,
        ContinueAsNewRequest {
            input: payload("next"),
            workflow_type: Some(String::from("fulfillment")),
        },
    );
    assert!(matches!(
        result,
        Err(EngineError::Runtime { reason })
            if reason.contains("must restart the same workflow type")
    ));
    assert!(matches!(
        world.history(&id).as_slice(),
        [Event::WorkflowStarted { workflow_type, .. }] if workflow_type == "checkout"
    ));
    assert_eq!(world.registry.get(&id, &run), Some(handle));
    Ok(())
}

#[test]
fn continue_as_new_unknown_workflow_returns_not_found() -> Result<(), EngineError> {
    let mut world = World::new()?;
    let request = ContinueAsNewRequest { input: payload("next"), workflow_type: None };
    let result = world.continue_as_new(&WorkflowId::new(5), &RunId::new(6), request);
    assert!(matches!(result, Err(EngineError::WorkflowNotFound { .. })));
    Ok(())
}

fn done() -> TerminalOutcome {
    TerminalOutcome::Completed(payload("done"))
}

fn failed() -> TerminalOutcome {
    TerminalOutcome::Failed(workflow_error("boom"))
}

#[test]
fn startup_sweep_retires_non_timeout_terminal_deadlines_but_skips_timed_out()
-> Result<(), EngineError> {
    let mut world = World::new()?;
    let (completed_id, completed_run) = (WorkflowId::new(1), RunId::new(11));
    world.seed_with_deadline("sweeper", completed_id, completed_run, now(), done())?;
    let (timed_out_id, timed_out_run) = (WorkflowId::new(2), RunId::new(12));
    let timed_out = TerminalOutcome::TimedOut(String::from("workflow"));
    world.seed_with_deadline("sweeper", timed_out_id, timed_out_run, now(), timed_out)?;
    assert!(world.deadline_is_outstanding(&completed_id, &completed_run));
    world.sweep_deadlines(SweepScope::ColdBoot)?;
    assert!(!world.deadline_is_outstanding(&completed_id, &completed_run));
    assert!(world.deadline_is_outstanding(&timed_out_id, &timed_out_run));
    let repaired = world.histories.clone();
    world.sweep_deadlines(SweepScope::ColdBoot)?;
    assert_eq!(world.histories, repaired, "a second sweep has nothing to repair");
    Ok(())
}

#[test]
fn adoption_repairs_orphaned_future_dated_terminal_deadline() -> Result<(), EngineError> {
    let mut world = World::new()?;
    let (id, run) = (WorkflowId::new(1), RunId::new(11));
    let future = Timestamp { secs: now().secs + 3_600, nanos: 0 };
    world.seed_with_deadline("checkout", id, run, future, done())?;
    assert!(future.is_after(&now()));
    world.recover(RecoveryRun::recover_adopted_shards())?;
    assert!(!world.deadline_is_outstanding(&id, &run));
    Ok(())
}

#[test]
fn cold_boot_repairs_predecessor_deadline_before_starting_the_successor() -> Result<(), EngineError>
{
    let mut world = World::new()?;
    let (id, predecessor) = (WorkflowId::new(1), RunId::new(11));
    let continued = TerminalOutcome::ContinuedAsNew {
        input: payload("next"),
        workflow_type: None,
        parent_run_id: predecessor,
    };
    world.seed_with_deadline("checkout", id, predecessor, now(), continued)?;
    world.recover(RecoveryRun::recover_active_workflows_on_startup(false))?;
    assert!(!world.deadline_is_outstanding(&id, &predecessor));
    let Some(successor) = world.registry.live_run(&id) else {
        panic!("the continue-as-new successor was not started");
    };
    assert_ne!(successor.run_id, predecessor, "a fresh successor run started");
    world.record(&id, &successor.run_id, |envelope| {
        ended(envelope, TerminalOutcome::Completed(payload("succeeded")))
    })?;
    assert_eq!(world.history(&id).len(), 6);
    Ok(())
}

#[test]
fn adoption_sweep_repairs_acquired_but_skips_owned_resident() -> Result<(), EngineError> {
    let mut world = World::new()?;
    let (acquired_id, acquired_run) = (WorkflowId::new(1), RunId::new(11));
    world.seed_with_deadline("sweeper", acquired_id, acquired_run, now(), done())?;
    let (owned_id, owned_run) = (WorkflowId::new(2), RunId::new(12));
    world.seed_with_deadline("sweeper", owned_id, owned_run, now(), done())?;
    world.register(owned_id, owned_run);
    world.sweep_deadlines(SweepScope::Adoption)?;
    assert!(!world.deadline_is_outstanding(&acquired_id, &acquired_run));
    assert!(world.deadline_is_outstanding(&owned_id, &owned_run));
    Ok(())
}

#[test]
fn cold_boot_sweep_errors_on_a_live_handle_ordering_breach() -> Result<(), EngineError> {
    let mut world = World::new()?;
    let (id, run) = (WorkflowId::new(1), RunId::new(11));
    world.seed_with_deadline("sweeper", id, run, now(), done())?;
    world.register(id, run);
    let result = world.sweep_deadlines(SweepScope::ColdBoot);
    assert!(matches!(result, Err(EngineError::Runtime { .. })));
    assert!(world.deadline_is_outstanding(&id, &run), "nothing is written around the handle");
    Ok(())
}

#[test]
fn adoption_sweep_yields_to_a_concurrent_reopen_without_aborting() -> Result<(), EngineError> {
    let mut world = World::new()?;
    let (id, run_id) = (WorkflowId::new(1), RunId::new(11));
    world.seed_with_deadline("checkout", id, run_id, now(), failed())?;
    let reopen = |world: &mut World, head: u64| {
        let appended = world.append(&id, head, |envelope| Event::WorkflowReopened {
            envelope,
            run_id,
            reopened: Vec::new(),
        });
        assert!(appended.is_ok());
    };
    world.sweep_deadlines_with(SweepScope::Adoption, Some(&reopen))?;
    let history = world.history(&id);
    assert!(history.iter().any(|event| matches!(event, Event::WorkflowReopened { .. })));
    assert!(world.deadline_is_outstanding(&id, &run_id));
    world.append(&id, last_sequence(&history), |envelope| ended(envelope, done()))?;
    Ok(())
}

#[test]
fn adoption_sweep_repairs_the_candidate_without_a_concurrent_writer() -> Result<(), EngineError> {
    let mut world = World::new()?;
    let (id, run) = (WorkflowId::new(1), RunId::new(11));
    world.seed_with_deadline("checkout", id, run, now(), failed())?;
    world.sweep_deadlines(SweepScope::Adoption)?;
    assert!(!world.deadline_is_outstanding(&id, &run));
    Ok(())
}

#[test]
fn cancelled_workflow_leaves_no_orphan_for_recovery() -> Result<(), EngineError> {
    let mut world = World::new()?;
    let handle = world.checkout()?;
    let (id, run) = (handle.workflow_id, handle.run_id);
    world.record(&id, &run, |envelope| timer_started(envelope, TimerId::anonymous(0), -1))?;
    let row = TimerRow { workflow_id: id, timer_id: TimerId::anonymous(0) };
    world.timer_rows.push((row, Timestamp { secs: now().secs - 3_600, nanos: 0 }));
    world.cancel(&id, &run, "stop")?;
    let history = world.history(&id);
    world.recover(RecoveryRun::recover_active_workflows_on_startup(false))?;
    assert_eq!(world.history(&id), history, "recovery finds nothing to repair");
    assert!(!history.iter().any(|event| matches!(event, Event::TimerFired { .. })));
    assert!(history.iter().any(|event| matches!(event, Event::TimerCancelled { .. })));
    assert!(aion::time::live_timers_in_active_segment(&history).is_empty());
    Ok(())
}

#[test]
fn a_run_paused_before_a_crash_stays_held() -> Result<(), EngineError> {
    let mut world = World::new()?;
    let paused = world.checkout()?;
    let running = world.checkout()?;
    let run_id = paused.run_id;
    world.record(&paused.workflow_id, &run_id, |envelope| Event::WorkflowPaused {
        envelope,
        run_id,
        reason: None,
        operator: None,
    })?;
    world.registry = Registry::new();
    world.recover(RecoveryRun::recover_active_workflows_on_startup(false))?;
    assert!(world.held.contains(&paused.workflow_id));
    assert!(!world.held.contains(&running.workflow_id));
    let elsewhere = WorkflowId::new(7);
    world.held.insert(elsewhere);
    world.recover(RecoveryRun::recover_adopted_shards())?;
    assert!(world.held.contains(&paused.workflow_id) && world.held.contains(&elsewhere));
    Ok(())
}

#[test]
fn a_second_successor_sweep_starts_nothing() -> Result<(), EngineError> {
    let mut world = World::new()?;
    for (workflow, run) in [(1, 11), (2, 12)] {
        let continued = TerminalOutcome::ContinuedAsNew {
            input: payload("next"),
            workflow_type: None,
            parent_run_id: RunId::new(run),
        };
        let id = WorkflowId::new(workflow);
        world.seed_with_deadline("checkout", id, RunId::new(run), now(), continued)?;
    }
    world.sweep_successors()?;
    assert_eq!(world.starts, 2);
    let repaired = world.histories.clone();
    world.sweep_successors()?;
    assert_eq!(world.starts, 2);
    assert_eq!(world.histories, repaired);
    Ok(())
}

/// A run whose history says that it started children 60 and 61, and then `ending`.
fn parent_of_two(
    ending: impl FnOnce(EventEnvelope) -> Event,
) -> Result<(World, WorkflowHandle), EngineError> {
    let mut world = World::new()?;
    let handle = world.checkout()?;
    for child in [60, 61] {
        world.record(&handle.workflow_id, &handle.run_id, |envelope| {
            Event::ChildWorkflowStarted {
                envelope,
                child_workflow_id: WorkflowId::new(child),
                workflow_type: String::from("checkout"),
                input: payload("child"),
                package_version: PackageVersion::new("03".repeat(32)),
            }
        })?;
    }
    world.record(&handle.workflow_id, &handle.run_id, ending)?;
    world.starts = 0;
    Ok((world, handle))
}

#[test]
fn a_child_sweep_starts_each_unreported_child_once() -> Result<(), EngineError> {
    let (mut world, parent) = parent_of_two(|envelope| Event::ChildWorkflowFailed {
        envelope,
        child_workflow_id: WorkflowId::new(61),
        error: workflow_error("boom"),
    })?;
    world.sweep_children(&parent.workflow_id, &parent.run_id)?;
    assert_eq!(world.starts, 1);
    match world.history(&WorkflowId::new(60)).as_slice() {
        [Event::WorkflowStarted { input, package_version, .. }] => {
            assert_eq!(input, &payload("child"));
            assert_eq!(package_version, &PackageVersion::new("03".repeat(32)));
        }
        other => panic!("expected the child's start, found {other:?}"),
    }
    assert!(world.history(&WorkflowId::new(61)).is_empty());
    world.sweep_children(&parent.workflow_id, &parent.run_id)?;
    assert_eq!(world.starts, 1, "a second sweep starts nothing");
    Ok(())
}

#[test]
fn a_child_whose_cancellation_is_recorded_is_never_started() -> Result<(), EngineError> {
    let cancelled = |child: u128| {
        move |envelope| Event::ChildWorkflowCancelled {
            envelope,
            child_workflow_id: WorkflowId::new(child),
        }
    };
    let (mut world, parent) = parent_of_two(cancelled(60))?;
    world.record(&parent.workflow_id, &parent.run_id, cancelled(61))?;
    let history = world.history(&parent.workflow_id);
    let sweep = ChildSweep::sweep_recorded_children(&history, &parent.run_id);
    assert_eq!(sweep.phase, ChildSweepPhase::Swept);
    assert!(sweep.children.is_empty());
    world.sweep_children(&parent.workflow_id, &parent.run_id)?;
    assert_eq!(world.starts, 0);
    assert!(world.history(&WorkflowId::new(60)).is_empty());
    assert!(world.history(&WorkflowId::new(61)).is_empty());
    Ok(())
}

#[test]
fn a_declared_timeout_is_armed_and_retired_with_a_cancellation() -> Result<(), EngineError> {
    let mut world = World::empty();
    let mut timed = package("checkout", 3);
    timed.manifest.timeout = Some(TimeSpan::from_secs(30));
    timed.commits_to_timeouts = true;
    load(&mut world.catalog, &timed)?;
    let handle = world.checkout()?;
    let (id, run) = (handle.workflow_id, handle.run_id);
    assert_eq!(world.timer_rows.len(), 1);
    assert_eq!(world.timer_rows[0].1, Timestamp { secs: now().secs + 30, nanos: 0 });
    assert!(world.deadline_is_outstanding(&id, &run));
    world.cancel(&id, &run, "stop")?;
    assert!(!world.deadline_is_outstanding(&id, &run));
    Ok(())
}

#[test]
fn a_started_record_holds_the_pinned_version() -> Result<(), EngineError> {
    let (mut world, _) = two_versions()?;
    let latest = world.checkout()?;
    assert_eq!(latest.loaded_version, ContentHash::from_bytes([4; 32]));
    match world.history(&latest.workflow_id).as_slice() {
        [Event::WorkflowStarted { package_version, .. }] => {
            assert_eq!(package_version, &PackageVersion::new("04".repeat(32)));
        }
        other => panic!("expected WorkflowStarted, found {other:?}"),
    }
    let version = ContentHash::from_bytes([4; 32]);
    assert!(has_pin_room(&world.catalog, "checkout", &None));
    assert!(has_pin_room(&world.catalog, "unknown", &Some(version)));
    Ok(())
}
