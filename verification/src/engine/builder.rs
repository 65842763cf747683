//! Engine construction: what a caller configures, and the order in which an engine is
//! put together.

use vstd::prelude::*;
use vstd::string::*;

use crate::clock::TimeSpan;
use crate::engine::delegated::SignalDeliveryConfig;
use crate::engine::seams::{
    assemble_delegated_seams, wrap_event_streaming, EventStreaming, PublisherSeam, QuerySeam,
    SeamAssembly, SeamPlan, SignalSeam,
};
use crate::error::{is_load_error, load_error, EngineError};
use crate::package::Package;
use crate::text::concat4;

verus! {

/// Source of a workflow package to load while an engine is built.
#[derive(Debug, PartialEq, Eq)]
pub enum WorkflowPackageSource {
    /// Load a package from this archive path.
    Path(String),
    /// Use an already-loaded package value.
    Package(Box<Package>),
}

/// A package could not be loaded from its path.
pub fn package_load_failed(path: &str, error: &str) -> (failure: EngineError)
    ensures
        is_load_error(
            failure,
            "failed to load workflow package `"@ + path@ + "`: "@ + error@,
        ),
{
    load_error(concat4("failed to load workflow package `", path, "`: ", error))
}

/// Where visibility projections go.
#[derive(Clone, Copy, Debug, PartialEq, Eq, Structural)]
pub enum VisibilityChoice {
    /// The caller has not said.
    Unset,
    /// The caller supplies a store.
    Supplied,
    /// An ephemeral in-memory store.
    InMemory,
}

/// Builder for the embedded, transport-agnostic workflow engine.
///
/// It keeps what decides how an engine is put together; the stores, seams and native
/// functions themselves stay with the caller.
#[derive(Debug, PartialEq, Eq)]
pub struct EngineBuilder {
    /// An event store was supplied.
    pub store: bool,
    /// Where visibility projections go.
    pub visibility_store: VisibilityChoice,
    /// Number of scheduler threads, where the caller set one.
    pub scheduler_threads: Option<usize>,
    /// Readiness and retry policy of signal delivery, where the caller set one.
    pub signal_delivery: Option<SignalDeliveryConfig>,
    /// Packages to load.
    pub workflow_sources: Vec<WorkflowPackageSource>,
    /// A signal-router factory is configured.
    pub signal_router_factory: bool,
    /// Interval of the periodic visibility reconciliation, where the caller set one.
    pub visibility_reconciliation_interval: Option<TimeSpan>,
    /// Capacity of the event broadcast, where the caller asked for streaming.
    pub event_streaming_capacity: Option<usize>,
    /// The event-publisher seam was set explicitly.
    pub event_publisher_overridden: bool,
    /// Query reply timeout, where the caller set one.
    pub query_timeout: Option<TimeSpan>,
    /// The query seam was set explicitly.
    pub query_service_overridden: bool,
}

impl Default for EngineBuilder {
    fn default() -> (builder: Self)
        ensures
            builder.is_blank(),
    {
        EngineBuilder::new()
    }
}

impl EngineBuilder {
    /// Nothing is configured.
    pub open spec fn is_blank(self) -> bool {
        &&& !self.store
        &&& self.visibility_store == VisibilityChoice::Unset
        &&& self.scheduler_threads is None
        &&& self.signal_delivery is None
        &&& self.workflow_sources@.len() == 0
        &&& !self.signal_router_factory
        &&& self.visibility_reconciliation_interval is None
        &&& self.event_streaming_capacity is None
        &&& !self.event_publisher_overridden
        &&& self.query_timeout is None
        &&& !self.query_service_overridden
    }

    /// Creates a builder with nothing configured.
    pub fn new() -> (builder: Self)
        ensures
            builder.is_blank(),
    {
        EngineBuilder {
            store: false,
            visibility_store: VisibilityChoice::Unset,
            scheduler_threads: None,
            signal_delivery: None,
            workflow_sources: Vec::new(),
            signal_router_factory: false,
            visibility_reconciliation_interval: None,
            event_streaming_capacity: None,
            event_publisher_overridden: false,
            query_timeout: None,
            query_service_overridden: false,
        }
    }

    /// Records the caller-supplied workflow query reply timeout. There is no default.
    pub fn query_timeout(self, timeout: TimeSpan) -> (builder: Self)
        ensures
            builder == (EngineBuilder { query_timeout: Some(timeout), ..self }),
    {
        EngineBuilder { query_timeout: Some(timeout), ..self }
    }

    /// Inspects the configured workflow query reply timeout.
    pub fn configured_query_timeout(&self) -> (timeout: Option<TimeSpan>)
        ensures
            timeout == self.query_timeout,
    {
        self.query_timeout
    }

    /// Opts in to live event streaming with a broadcast capacity.
    pub fn event_streaming(self, capacity: usize) -> (builder: Self)
        requires
            capacity > 0,
        ensures
            builder == (EngineBuilder { event_streaming_capacity: Some(capacity), ..self }),
    {
        EngineBuilder { event_streaming_capacity: Some(capacity), ..self }
    }

    /// Notes that the caller supplies the event store.
    pub fn store(self) -> (builder: Self)
        ensures
            builder == (EngineBuilder { store: true, ..self }),
    {
        EngineBuilder { store: true, ..self }
    }

    /// Notes that the caller supplies the visibility store.
    pub fn visibility_store(self) -> (builder: Self)
        ensures
            builder == (EngineBuilder { visibility_store: VisibilityChoice::Supplied, ..self }),
    {
        EngineBuilder { visibility_store: VisibilityChoice::Supplied, ..self }
    }

    /// Explicitly opts in to an ephemeral in-memory visibility store.
    pub fn in_memory_visibility(self) -> (builder: Self)
        ensures
            builder == (EngineBuilder { visibility_store: VisibilityChoice::InMemory, ..self }),
    {
        EngineBuilder { visibility_store: VisibilityChoice::InMemory, ..self }
    }

    /// Records the caller-supplied scheduler thread count.
    pub fn scheduler_threads(self, threads: usize) -> (builder: Self)
        ensures
            builder == (EngineBuilder { scheduler_threads: Some(threads), ..self }),
    {
        EngineBuilder { scheduler_threads: Some(threads), ..self }
    }

    /// Inspects the configured scheduler thread count.
    pub fn scheduler_thread_count(&self) -> (threads: Option<usize>)
        ensures
            threads == self.scheduler_threads,
    {
        self.scheduler_threads
    }

    /// Records the caller-supplied periodic visibility reconciliation interval.
    pub fn visibility_reconciliation_interval(self, interval: TimeSpan) -> (builder: Self)
        ensures
            builder == (EngineBuilder {
                visibility_reconciliation_interval: Some(interval),
                ..self
            }),
    {
        EngineBuilder { visibility_reconciliation_interval: Some(interval), ..self }
    }

    /// Inspects the configured periodic visibility reconciliation interval.
    pub fn configured_visibility_reconciliation_interval(&self) -> (interval: Option<TimeSpan>)
        ensures
            interval == self.visibility_reconciliation_interval,
    {
        self.visibility_reconciliation_interval
    }

    /// Records the caller-supplied signal delivery policy.
    pub fn signal_delivery(self, signal_delivery: SignalDeliveryConfig) -> (builder: Self)
        ensures
            builder == (EngineBuilder { signal_delivery: Some(signal_delivery), ..self }),
    {
        EngineBuilder { signal_delivery: Some(signal_delivery), ..self }
    }

    /// Adds one workflow package source.
    pub fn load_workflows(self, source: WorkflowPackageSource) -> (builder: Self)
        ensures
            builder == (EngineBuilder { workflow_sources: builder.workflow_sources, ..self }),
            builder.workflow_sources@ == self.workflow_sources@.push(source),
    {
        let mut builder = self;
        builder.workflow_sources.push(source);
        builder
    }

    /// Adds many workflow package sources.
    pub fn load_workflow_sources(self, sources: Vec<WorkflowPackageSource>) -> (builder: Self)
        ensures
            builder == (EngineBuilder { workflow_sources: builder.workflow_sources, ..self }),
            builder.workflow_sources@ == self.workflow_sources@ + sources@,
    {
        let mut builder = self;
        let mut sources = sources;
        builder.workflow_sources.append(&mut sources);
        builder
    }

    /// Notes that the signal-routing seam was set explicitly, which drops a configured
    /// factory.
    pub fn signal_router(self) -> (builder: Self)
        ensures
            builder == (EngineBuilder { signal_router_factory: false, ..self }),
    {
        EngineBuilder { signal_router_factory: false, ..self }
    }

    /// Notes that a factory of the signal-routing seam is configured.
    pub fn signal_router_factory(self) -> (builder: Self)
        ensures
            builder == (EngineBuilder { signal_router_factory: true, ..self }),
    {
        EngineBuilder { signal_router_factory: true, ..self }
    }

    /// Notes that the query-dispatch seam was set explicitly.
    pub fn query_service(self) -> (builder: Self)
        ensures
            builder == (EngineBuilder { query_service_overridden: true, ..self }),
    {
        EngineBuilder { query_service_overridden: true, ..self }
    }

    /// Notes that the event-publisher seam was set explicitly.
    pub fn event_publisher(self) -> (builder: Self)
        ensures
            builder == (EngineBuilder { event_publisher_overridden: true, ..self }),
    {
        EngineBuilder { event_publisher_overridden: true, ..self }
    }

    /// How the event store is used, where the configuration is consistent.
    pub open spec fn streaming(self) -> EventStreaming {
        match self.event_streaming_capacity {
            Some(capacity) => EventStreaming::Publishing { capacity },
            None => EventStreaming::Plain,
        }
    }

    /// Begins to construct the live engine.
    ///
    /// # Errors
    ///
    /// [`EngineError::MissingStore`] without an event store, and
    /// [`EngineError::ConflictingEventPublisher`] when streaming is asked for beside an
    /// explicit publisher.
    pub fn build(self) -> (result: Result<BuildRun, EngineError>)
        ensures
            if !self.store {
                result matches Err(EngineError::MissingStore)
            } else if self.event_streaming_capacity is Some && self.event_publisher_overridden {
                result matches Err(EngineError::ConflictingEventPublisher)
            } else {
                &&& result matches Ok(run)
                &&& run.visibility == self.visibility_store
                &&& run.reconciliation == self.visibility_reconciliation_interval
                &&& run.sources == self.workflow_sources
                &&& run.loaded == 0
                &&& run.streaming == self.streaming()
                &&& run.phase == BuildPhase::WrapStore
                &&& run.seams == (SeamPlan {
                    signal: if self.signal_router_factory {
                        SignalSeam::Factory
                    } else {
                        SignalSeam::Configured
                    },
                    query: match self.query_timeout {
                        Some(timeout) if !self.query_service_overridden => {
                            QuerySeam::Concrete { timeout }
                        },
                        _ => QuerySeam::Configured,
                    },
                    publisher: if self.event_streaming_capacity is Some {
                        PublisherSeam::Broadcast
                    } else {
                        PublisherSeam::Configured
                    },
                })
            },
    {
        if !self.store {
            return Err(EngineError::MissingStore);
        }
        let streaming = match wrap_event_streaming(
            self.event_streaming_capacity,
            self.event_publisher_overridden,
        ) {
            Ok(streaming) => streaming,
            Err(error) => {
                return Err(error);
            },
        };
        let seams = assemble_delegated_seams(
            SeamAssembly {
                signal_router_factory: self.signal_router_factory,
                streaming,
                query_timeout: self.query_timeout,
                query_service_overridden: self.query_service_overridden,
            },
        );
        Ok(
            BuildRun {
                visibility: self.visibility_store,
                reconciliation: self.visibility_reconciliation_interval,
                sources: self.workflow_sources,
                loaded: 0,
                streaming,
                seams,
                phase: BuildPhase::WrapStore,
            },
        )
    }
}

/// The step of a construction to perform next, or how it ended.
#[derive(Debug, PartialEq, Eq)]
pub enum BuildPhase {
    /// Wrap the store for event streaming where that is asked for, before anything
    /// captures it.
    WrapStore,
    /// Start the runtime.
    StartRuntime,
    /// Install the engine's and the host's native functions.
    InstallNatives,
    /// Load the packages that earlier deploys have stored, and restore the stored routes.
    /// A package that is loaded after this takes its types' routes over.
    ReloadPackages,
    /// Load the next package.
    LoadSource,
    /// Install the runtime context and the timer, context and query bridges.
    InstallBridges,
    /// Assemble the seams.
    AssembleSeams,
    /// Install the signal bridge.
    InstallSignalBridge,
    /// Install the child bridge.
    InstallChildBridge,
    /// Recover active workflows.
    RecoverWorkflows,
    /// Recover timers.
    RecoverTimers,
    /// Spawn the periodic visibility reconciliation.
    SpawnReconciliation,
    /// Advance the schedule coordinator's recorder to its history.
    CatchUpCoordinator,
    /// Recover schedules.
    RecoverSchedules,
    /// The engine is live.
    Built,
    /// The construction failed.
    Failed(EngineError),
}

/// The construction of an engine on its way.
#[derive(Debug, PartialEq, Eq)]
pub struct BuildRun {
    /// Where visibility projections go.
    pub visibility: VisibilityChoice,
    /// Interval of the periodic visibility reconciliation, where there is one.
    pub reconciliation: Option<TimeSpan>,
    /// Packages to load.
    pub sources: Vec<WorkflowPackageSource>,
    /// How many of them are loaded.
    pub loaded: usize,
    /// How the event store is used.
    pub streaming: EventStreaming,
    /// The final seams.
    pub seams: SeamPlan,
    /// The step to perform next, or how the construction ended.
    pub phase: BuildPhase,
}

impl BuildRun {
    /// A package is left to load as long as packages are loaded.
    pub open spec fn fits(self) -> bool {
        &&& self.loaded <= self.sources@.len()
        &&& self.phase is LoadSource ==> self.loaded < self.sources@.len()
    }

    /// The construction in another phase.
    pub open spec fn moved(self, phase: BuildPhase) -> BuildRun {
        BuildRun { phase, ..self }
    }

    /// The phase that loads the packages from a position on.
    pub open spec fn loading(self, from: int) -> BuildPhase {
        if from < self.sources@.len() {
            BuildPhase::LoadSource
        } else {
            BuildPhase::InstallBridges
        }
    }

    /// The construction after a step. Every failure ends it.
    pub open spec fn after(self, reply: Result<(), EngineError>) -> BuildRun {
        match (self.phase, reply) {
            (BuildPhase::Built, _) | (BuildPhase::Failed(_), _) => self,
            (_, Err(error)) => self.moved(BuildPhase::Failed(error)),
            (BuildPhase::WrapStore, Ok(_)) => self.moved(
                if self.visibility == VisibilityChoice::Unset {
                    BuildPhase::Failed(EngineError::MissingVisibilityStore)
                } else {
                    BuildPhase::StartRuntime
                },
            ),
            (BuildPhase::StartRuntime, Ok(_)) => self.moved(BuildPhase::InstallNatives),
            (BuildPhase::InstallNatives, Ok(_)) => self.moved(BuildPhase::ReloadPackages),
            (BuildPhase::ReloadPackages, Ok(_)) => self.moved(self.loading(self.loaded as int)),
            (BuildPhase::LoadSource, Ok(_)) => BuildRun {
                loaded: (self.loaded + 1) as usize,
                phase: self.loading(self.loaded + 1),
                ..self
            },
            (BuildPhase::InstallBridges, Ok(_)) => self.moved(BuildPhase::AssembleSeams),
            (BuildPhase::AssembleSeams, Ok(_)) => self.moved(BuildPhase::InstallSignalBridge),
            (BuildPhase::InstallSignalBridge, Ok(_)) => self.moved(BuildPhase::InstallChildBridge),
            (BuildPhase::InstallChildBridge, Ok(_)) => self.moved(BuildPhase::RecoverWorkflows),
            (BuildPhase::RecoverWorkflows, Ok(_)) => self.moved(BuildPhase::RecoverTimers),
            (BuildPhase::RecoverTimers, Ok(_)) => self.moved(
                if self.reconciliation is Some {
                    BuildPhase::SpawnReconciliation
                } else {
                    BuildPhase::CatchUpCoordinator
                },
            ),
            (BuildPhase::SpawnReconciliation, Ok(_)) => self.moved(BuildPhase::CatchUpCoordinator),
            (BuildPhase::CatchUpCoordinator, Ok(_)) => self.moved(BuildPhase::RecoverSchedules),
            (BuildPhase::RecoverSchedules, Ok(_)) => self.moved(BuildPhase::Built),
        }
    }

    /// Takes in what came of a step.
    pub fn advance(self, reply: Result<(), EngineError>) -> (run: Self)
        requires
            self.fits(),
        ensures
            run == self.after(reply),
            run.fits(),
    {
        let BuildRun { visibility, reconciliation, sources, loaded, streaming, seams, phase } = self;
        let count: usize = sources.len();
        let mut now_loaded: usize = loaded;
        let phase = match (phase, reply) {
            (BuildPhase::Built, _) => BuildPhase::Built,
            (BuildPhase::Failed(error), _) => BuildPhase::Failed(error),
            (_, Err(error)) => BuildPhase::Failed(error),
            (BuildPhase::WrapStore, Ok(())) => {
                match visibility {
                    VisibilityChoice::Unset => BuildPhase::Failed(
                        EngineError::MissingVisibilityStore,
                    ),
                    _ => BuildPhase::StartRuntime,
                }
            },
            (BuildPhase::StartRuntime, Ok(())) => BuildPhase::InstallNatives,
            (BuildPhase::InstallNatives, Ok(())) => BuildPhase::ReloadPackages,
            (BuildPhase::ReloadPackages, Ok(())) => {
                if loaded < count {
                    BuildPhase::LoadSource
                } else {
                    BuildPhase::InstallBridges
                }
            },
            (BuildPhase::LoadSource, Ok(())) => {
                now_loaded = loaded + 1;
                if loaded + 1 < count {
                    BuildPhase::LoadSource
                } else {
                    BuildPhase::InstallBridges
                }
            },
            (BuildPhase::InstallBridges, Ok(())) => BuildPhase::AssembleSeams,
            (BuildPhase::AssembleSeams, Ok(())) => BuildPhase::InstallSignalBridge,
            (BuildPhase::InstallSignalBridge, Ok(())) => BuildPhase::InstallChildBridge,
            (BuildPhase::InstallChildBridge, Ok(())) => BuildPhase::RecoverWorkflows,
            (BuildPhase::RecoverWorkflows, Ok(())) => BuildPhase::RecoverTimers,
            (BuildPhase::RecoverTimers, Ok(())) => {
                match reconciliation {
                    Some(_) => BuildPhase::SpawnReconciliation,
                    None => BuildPhase::CatchUpCoordinator,
                }
            },
            (BuildPhase::SpawnReconciliation, Ok(())) => BuildPhase::CatchUpCoordinator,
            (BuildPhase::CatchUpCoordinator, Ok(())) => BuildPhase::RecoverSchedules,
            (BuildPhase::RecoverSchedules, Ok(())) => BuildPhase::Built,
        };
        BuildRun {
            visibility,
            reconciliation,
            sources,
            loaded: now_loaded,
            streaming,
            seams,
            phase,
        }
    }
}

/// A course of a construction: each follows from the one before it by a reply.
pub open spec fn build_course(
    runs: Seq<BuildRun>,
    replies: Seq<Result<(), EngineError>>,
) -> bool {
    &&& runs.len() == replies.len() + 1
    &&& runs[0].phase is WrapStore
    &&& runs[0].loaded == 0
    &&& forall|i: int|
        0 <= i < replies.len() ==> runs[i + 1] == runs[i].after(#[trigger] replies[i])
}

/// Before some point of a course, a step was performed with success.
pub open spec fn built_before(
    runs: Seq<BuildRun>,
    replies: Seq<Result<(), EngineError>>,
    phase: BuildPhase,
    point: int,
) -> bool {
    exists|k: int| 0 <= k < point && (#[trigger] runs[k]).phase == phase && replies[k] is Ok
}

/// The construction recovers workflows or is past that.
pub open spec fn recovers(phase: BuildPhase) -> bool {
    phase is RecoverWorkflows || phase is RecoverTimers || phase is SpawnReconciliation
        || phase is CatchUpCoordinator || phase is RecoverSchedules || phase is Built
}

/// What was performed stays performed.
proof fn lemma_built_before(
    runs: Seq<BuildRun>,
    replies: Seq<Result<(), EngineError>>,
    phase: BuildPhase,
    point: int,
)
    requires
        point >= 0,
    ensures
        built_before(runs, replies, phase, point) ==> built_before(
            runs,
            replies,
            phase,
            point + 1,
        ),
        runs[point].phase == phase && replies[point] is Ok ==> built_before(
            runs,
            replies,
            phase,
            point + 1,
        ),
{
    if built_before(runs, replies, phase, point) {
        let k = choose|k: int|
            0 <= k < point && (#[trigger] runs[k]).phase == phase && replies[k] is Ok;
        assert(runs[k].phase == phase);
    }
}

/// Every bridge is installed before the first workflow can be brought back: a recovered
/// process replays at once, and replay reaches the signal, child, timer and query bridges.
pub proof fn bridges_are_installed_before_recovery(
    runs: Seq<BuildRun>,
    replies: Seq<Result<(), EngineError>>,
    point: int,
)
    requires
        build_course(runs, replies),
        0 <= point < runs.len(),
    ensures
        runs[point].phase is AssembleSeams || runs[point].phase is InstallSignalBridge
            || runs[point].phase is InstallChildBridge || recovers(runs[point].phase)
            ==> built_before(runs, replies, BuildPhase::InstallBridges, point),
        runs[point].phase is InstallChildBridge || recovers(runs[point].phase) ==> built_before(
            runs,
            replies,
            BuildPhase::InstallSignalBridge,
            point,
        ),
        recovers(runs[point].phase) ==> built_before(
            runs,
            replies,
            BuildPhase::InstallChildBridge,
            point,
        ),
    decreases point,
{
    if point > 0 {
        bridges_are_installed_before_recovery(runs, replies, point - 1);
        assert(runs[point] == runs[point - 1].after(replies[point - 1]));
        lemma_built_before(runs, replies, BuildPhase::InstallBridges, point - 1);
        lemma_built_before(runs, replies, BuildPhase::InstallSignalBridge, point - 1);
        lemma_built_before(runs, replies, BuildPhase::InstallChildBridge, point - 1);
    }
}

/// The construction loads configured packages or is past that.
pub open spec fn loads_sources(phase: BuildPhase) -> bool {
    phase is LoadSource || phase is InstallBridges || phase is AssembleSeams || phase
        is InstallSignalBridge || phase is InstallChildBridge || recovers(phase)
}

/// Stored packages are reloaded, and stored routes restored, before the first configured
/// package is loaded and before any workflow is brought back: an explicit source takes the
/// route of its type over, and recovery finds every stored version that a run is pinned
/// to.
pub proof fn stored_packages_are_reloaded_before_sources_and_recovery(
    runs: Seq<BuildRun>,
    replies: Seq<Result<(), EngineError>>,
    point: int,
)
    requires
        build_course(runs, replies),
        0 <= point < runs.len(),
    ensures
        loads_sources(runs[point].phase) ==> built_before(
            runs,
            replies,
            BuildPhase::ReloadPackages,
            point,
        ),
    decreases point,
{
    if point > 0 {
        stored_packages_are_reloaded_before_sources_and_recovery(runs, replies, point - 1);
        assert(runs[point] == runs[point - 1].after(replies[point - 1]));
        lemma_built_before(runs, replies, BuildPhase::ReloadPackages, point - 1);
    }
}

/// Once a configured package is loaded, the stored ones are not reloaded any more.
pub proof fn no_stored_route_overrides_a_source(
    runs: Seq<BuildRun>,
    replies: Seq<Result<(), EngineError>>,
    earlier: int,
    later: int,
)
    requires
        build_course(runs, replies),
        0 <= earlier <= later < runs.len(),
        loads_sources(runs[earlier].phase),
    ensures
        !(runs[later].phase is ReloadPackages),
        loads_sources(runs[later].phase) || runs[later].phase is Failed,
    decreases later - earlier,
{
    if earlier < later {
        no_stored_route_overrides_a_source(runs, replies, earlier, later - 1);
        assert(runs[later] == runs[later - 1].after(replies[later - 1]));
    }
}

/// A live engine has loaded every configured package and knows where visibility
/// projections go.
pub proof fn a_built_engine_has_loaded_every_package(
    runs: Seq<BuildRun>,
    replies: Seq<Result<(), EngineError>>,
    point: int,
)
    requires
        build_course(runs, replies),
        0 <= point < runs.len(),
        runs[0].sources@.len() <= usize::MAX,
    ensures
        runs[point].sources == runs[0].sources,
        runs[point].visibility == runs[0].visibility,
        runs[point].fits(),
        !(runs[point].phase is WrapStore) && !(runs[point].phase is Failed)
            ==> runs[0].visibility != VisibilityChoice::Unset,
        runs[point].phase is WrapStore || runs[point].phase is StartRuntime
            || runs[point].phase is InstallNatives || runs[point].phase is ReloadPackages
            || runs[point].phase is LoadSource || runs[point].phase is Failed
            || runs[point].loaded == runs[0].sources@.len(),
        runs[point].phase is WrapStore || runs[point].phase is StartRuntime
            || runs[point].phase is InstallNatives || runs[point].phase is ReloadPackages
            ==> runs[point].loaded == 0,
    decreases point,
{
    if point > 0 {
        a_built_engine_has_loaded_every_package(runs, replies, point - 1);
        assert(runs[point] == runs[point - 1].after(replies[point - 1]));
    }
}

/// Each step of a construction follows only on the success of the one before it; a
/// visibility store is asked for before the runtime is started; periodic reconciliation is
/// spawned exactly where an interval was configured; and a failing step ends the
/// construction with its own error.
pub proof fn a_construction_takes_its_steps_in_order(
    run: BuildRun,
    reply: Result<(), EngineError>,
)
    requires
        run.fits(),
    ensures
        ({
            let next = run.after(reply);
            let moved = next.phase != run.phase || next.loaded != run.loaded;
            &&& next.sources == run.sources
            &&& next.seams == run.seams
            &&& next.streaming == run.streaming
            &&& next.visibility == run.visibility
            &&& next.reconciliation == run.reconciliation
            &&& moved && next.phase is StartRuntime ==> run.phase is WrapStore && reply is Ok
                && run.visibility != VisibilityChoice::Unset
            &&& run.phase is WrapStore && reply is Ok && run.visibility == VisibilityChoice::Unset
                ==> next.phase == BuildPhase::Failed(EngineError::MissingVisibilityStore)
            &&& moved && next.phase is InstallNatives ==> run.phase is StartRuntime && reply is Ok
            &&& moved && next.phase is ReloadPackages ==> run.phase is InstallNatives && reply is Ok
            &&& moved && next.phase is LoadSource ==> reply is Ok && (run.phase is ReloadPackages
                || (run.phase is LoadSource && next.loaded == run.loaded + 1)) && next.loaded
                < run.sources@.len()
            &&& moved && next.phase is InstallBridges ==> reply is Ok && next.loaded
                == run.sources@.len() && (run.phase is ReloadPackages || run.phase is LoadSource)
            &&& moved && next.phase is AssembleSeams ==> run.phase is InstallBridges && reply is Ok
            &&& moved && next.phase is InstallSignalBridge ==> run.phase is AssembleSeams && reply
                is Ok
            &&& moved && next.phase is InstallChildBridge ==> run.phase is InstallSignalBridge
                && reply is Ok
            &&& moved && next.phase is RecoverWorkflows ==> run.phase is InstallChildBridge && reply
                is Ok
            &&& moved && next.phase is RecoverTimers ==> run.phase is RecoverWorkflows && reply is Ok
            &&& moved && next.phase is SpawnReconciliation ==> run.phase is RecoverTimers && reply
                is Ok && run.reconciliation is Some
            &&& moved && next.phase is CatchUpCoordinator ==> reply is Ok && (run.phase
                is SpawnReconciliation || (run.phase is RecoverTimers && run.reconciliation
                is None))
            &&& moved && next.phase is RecoverSchedules ==> run.phase is CatchUpCoordinator && reply
                is Ok
            &&& moved && next.phase is Built ==> run.phase is RecoverSchedules && reply is Ok
            &&& reply is Ok && !(run.phase is Built) && !(run.phase is Failed) ==> moved && (
            next.phase is Failed ==> run.phase is WrapStore && run.visibility
                == VisibilityChoice::Unset)
            &&& (reply matches Err(error) ==> (!(run.phase is Built) && !(run.phase is Failed)
                ==> next.phase == BuildPhase::Failed(error)))
            &&& run.phase is Built || run.phase is Failed ==> next == run
        }),
{
    assert(run.sources.len() == run.sources@.len());
}

/// Events are streamed exactly where a capacity was configured, and with that capacity.
pub proof fn events_are_streamed_where_a_capacity_was_configured(builder: EngineBuilder)
    ensures
        (builder.event_streaming_capacity matches Some(configured) ==> (builder.streaming() matches
            EventStreaming::Publishing { capacity } && capacity == configured)),
        builder.event_streaming_capacity is None ==> builder.streaming() is Plain,
{
}

/// A builder begins with nothing configured.
pub proof fn a_builder_begins_with_nothing_configured(builder: EngineBuilder)
    requires
        builder.is_blank(),
    ensures
        !builder.store,
        builder.visibility_store == VisibilityChoice::Unset,
        builder.scheduler_threads is None,
        builder.signal_delivery is None,
        builder.workflow_sources@.len() == 0,
        !builder.signal_router_factory,
        builder.visibility_reconciliation_interval is None,
        builder.event_streaming_capacity is None,
        !builder.event_publisher_overridden,
        builder.query_timeout is None,
        !builder.query_service_overridden,
{
}

} // verus!
