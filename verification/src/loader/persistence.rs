//! Durable persistence for runtime-deployed packages.
//!
//! A run is pinned to the package version recorded when it started, so the deployed
//! archive itself is part of the durability promise. This module decides both
//! directions of it: what is stored for a deploy and when its routes are published, and
//! which stored rows and route pointers take effect when they are read back.

use vstd::prelude::*;
use vstd::string::*;

use crate::clock::Timestamp;
use crate::content_hash::{canonical_text_determines_the_hash, hash_text, ContentHash};
use crate::error::{is_load_error, load_error, EngineError};
use crate::loader::catalog::{CatalogView, WorkflowCatalog};
use crate::package::Package;
use crate::text::{concat2, concat5};

verus! {

/// A stored deploy.
#[derive(Debug, PartialEq, Eq)]
pub struct PackageRecord {
    /// Primary workflow type of the package.
    pub workflow_type: String,
    /// Text of the package's content hash.
    pub content_hash: String,
    /// The package's archive.
    pub archive: Vec<u8>,
    /// When the package was deployed.
    pub deployed_at: Timestamp,
}

/// A stored route pointer.
#[derive(Debug, PartialEq, Eq)]
pub struct PackageRoute {
    /// The workflow type.
    pub workflow_type: String,
    /// Text of the content hash that its route points at.
    pub content_hash: String,
}

/// What becomes of a stored deploy when it is read back.
#[derive(Clone, Copy, Debug, PartialEq, Eq, Structural)]
pub enum ReloadDecision {
    /// Load the package into the catalog.
    Load,
    /// Skip the row: its archive does not validate.
    SkipInvalidArchive,
    /// Skip the row: its archive is not the package that its key names.
    SkipForeignArchive,
}

/// The key under which a package is stored names it.
pub open spec fn keyed_by(package: Package, workflow_type: Seq<char>, content_hash: Seq<char>) -> bool {
    hash_text(package.content_hash) == content_hash && package.manifest.entry_module@
        == workflow_type
}

/// The row that is stored for a deploy.
///
/// `archive` is the package's canonical archive, or why it could not be serialised.
///
/// # Errors
///
/// [`EngineError::Load`] when the package could not be serialised.
pub fn persist_deployed_package(
    package: &Package,
    archive: Result<Vec<u8>, String>,
    deployed_at: Timestamp,
) -> (record: Result<PackageRecord, EngineError>)
    ensures
        match record {
            Ok(record) => {
                &&& archive is Ok
                &&& record.archive == archive->Ok_0
                &&& record.deployed_at == deployed_at
                &&& keyed_by(*package, record.workflow_type@, record.content_hash@)
            },
            Err(error) => {
                &&& archive is Err
                &&& is_load_error(
                    error,
                    "failed to serialise deployed package `"@ + package.manifest.entry_module@
                        + "` version `"@ + hash_text(package.content_hash)
                        + "` for persistence: "@ + archive->Err_0@,
                )
            },
        },
{
    let content_hash = package.content_hash.text();
    match archive {
        Ok(archive) => Ok(
            PackageRecord {
                workflow_type: package.manifest.entry_module.clone(),
                content_hash,
                archive,
                deployed_at,
            },
        ),
        Err(reason) => {
            let head = concat5(
                "failed to serialise deployed package `",
                package.manifest.entry_module.as_str(),
                "` version `",
                content_hash.as_str(),
                "` for persistence: ",
            );
            Err(load_error(concat2(head.as_str(), reason.as_str())))
        },
    }
}

/// What becomes of a stored deploy, given what its archive holds.
pub open spec fn decided(record: PackageRecord, package: Option<Package>) -> ReloadDecision {
    match package {
        None => ReloadDecision::SkipInvalidArchive,
        Some(package) => if keyed_by(package, record.workflow_type@, record.content_hash@) {
            ReloadDecision::Load
        } else {
            ReloadDecision::SkipForeignArchive
        },
    }
}

/// Decides what becomes of a stored deploy. `package` is what its archive holds, where
/// the archive validates.
///
/// One row that fails to validate is skipped, so that it cannot keep the other
/// deploys from coming back.
pub fn reload_persisted_package(record: &PackageRecord, package: Option<&Package>) -> (decision:
    ReloadDecision)
    ensures
        decision == decided(
            *record,
            match package {
                Some(package) => Some(*package),
                None => None,
            },
        ),
{
    match package {
        None => ReloadDecision::SkipInvalidArchive,
        Some(package) => {
            if package.content_hash.text() == record.content_hash && package.manifest.entry_module
                == record.workflow_type {
                ReloadDecision::Load
            } else {
                ReloadDecision::SkipForeignArchive
            }
        },
    }
}

/// A stored deploy comes back exactly as the package that was stored: the row of one
/// package takes in no package of another type or version.
pub proof fn a_stored_deploy_comes_back_as_itself(
    stored: Package,
    read: Package,
    workflow_type: Seq<char>,
    content_hash: Seq<char>,
)
    requires
        keyed_by(stored, workflow_type, content_hash),
    ensures
        keyed_by(read, workflow_type, content_hash) <==> read.content_hash == stored.content_hash
            && read.manifest.entry_module@ == stored.manifest.entry_module@,
{
    if keyed_by(read, workflow_type, content_hash) {
        canonical_text_determines_the_hash(read.content_hash, stored.content_hash);
    }
}

/// A stored route pointer names a loaded version.
pub open spec fn route_applies(
    catalog: CatalogView,
    route: PackageRoute,
    version: ContentHash,
) -> bool {
    route.content_hash@ == hash_text(version) && catalog.by_version.contains_key(
        (route.workflow_type@, version),
    )
}

/// The routes after stored pointers are applied in order: a pointer that is malformed
/// or names a version that is not loaded changes nothing.
pub open spec fn routes_restored(
    catalog: CatalogView,
    routes: Seq<PackageRoute>,
) -> Map<Seq<char>, ContentHash>
    decreases routes.len(),
{
    if routes.len() == 0 {
        catalog.routed
    } else {
        let before = routes_restored(catalog, routes.drop_last());
        let route = routes.last();
        if exists|version: ContentHash| route_applies(catalog, route, version) {
            before.insert(
                route.workflow_type@,
                choose|version: ContentHash| route_applies(catalog, route, version),
            )
        } else {
            before
        }
    }
}

/// Re-points each type's route at its persisted pointer, after all persisted packages
/// have reloaded.
///
/// Pointers that are malformed or name a version that is not loaded are skipped: the
/// affected type keeps the route committed by its own reloads.
pub fn restore_persisted_routes(catalog: &mut WorkflowCatalog, routes: &Vec<PackageRoute>)
    requires
        old(catalog).wf(),
    ensures
        final(catalog).wf(),
        final(catalog)@ == (CatalogView {
            routed: routes_restored(old(catalog)@, routes@),
            ..old(catalog)@
        }),
{
    let ghost before = catalog@;
    let mut i: usize = 0;
    while i < routes.len()
        invariant
            catalog.wf(),
            0 <= i <= routes@.len(),
            before == old(catalog)@,
            catalog@ == (CatalogView {
                routed: routes_restored(before, routes@.take(i as int)),
                ..before
            }),
        decreases routes.len() - i,
    {
        let route = &routes[i];
        proof {
            assert(routes@.take(i + 1).drop_last() =~= routes@.take(i as int));
            assert(routes@.take(i + 1).last() == *route);
        }
        match ContentHash::parse(route.content_hash.as_str()) {
            Some(version) => {
                proof {
                    assert forall|other: ContentHash| route_applies(before, *route, other) implies
                        other == version by {
                        canonical_text_determines_the_hash(other, version);
                    }
                    if before.by_version.contains_key((route.workflow_type@, version)) {
                        assert(route_applies(before, *route, version));
                    }
                }
                match catalog.route_version(route.workflow_type.as_str(), &version) {
                    Ok(()) => {},
                    Err(_) => {},
                }
            },
            None => {
                proof {
                    assert forall|other: ContentHash| !route_applies(before, *route, other) by {}
                }
            },
        }
        i = i + 1;
    }
    proof {
        assert(routes@.take(i as int) =~= routes@);
    }
}

/// The step of a reload to perform next, or how it ended.
#[derive(Debug, PartialEq, Eq)]
pub enum ReloadPhase {
    /// List the stored deploys.
    List,
    /// Read the archive of the row.
    Read,
    /// Load the package that the row holds into the catalog.
    Load(Package),
    /// List the stored route pointers and restore them, with
    /// [`ReloadRun::restore_routes`].
    RestoreRoutes,
    /// The stored deploys are back.
    Reloaded,
    /// The stored deploys or route pointers could not be listed.
    Failed(EngineError),
}

/// What came of a step of a reload.
#[derive(Debug, PartialEq, Eq)]
pub enum ReloadReply {
    /// The stored deploys, in the order in which they were deployed.
    Rows(Vec<PackageRecord>),
    /// What the archive of the row holds, where it validates.
    Archive(Option<Package>),
    /// How the load of the row's package ended.
    Loaded(Result<(), EngineError>),
    /// The store could not be read.
    Failed(EngineError),
}

/// A reload of the stored deploys on its way.
#[derive(Debug, PartialEq, Eq)]
pub struct ReloadRun {
    /// The stored deploys, once they are listed.
    pub rows: Vec<PackageRecord>,
    /// The row that is looked at.
    pub next: usize,
    /// The step to perform next, or how the reload ended.
    pub phase: ReloadPhase,
}

impl ReloadRun {
    /// A row is looked at as long as rows are read and loaded.
    pub open spec fn fits(self) -> bool {
        self.phase is Read || self.phase is Load ==> self.next < self.rows@.len()
    }

    /// The phase that reads the rows from a position on. Routes come after the last row.
    pub open spec fn reading(rows: Seq<PackageRecord>, from: int) -> ReloadPhase {
        if from < rows.len() {
            ReloadPhase::Read
        } else {
            ReloadPhase::RestoreRoutes
        }
    }

    /// The reload at the row after the one that is looked at.
    pub open spec fn moved_on(self) -> ReloadRun {
        ReloadRun {
            next: (self.next + 1) as usize,
            phase: Self::reading(self.rows@, self.next + 1),
            ..self
        }
    }

    /// The reload after a step. A row that is skipped, or whose package fails to load,
    /// gives way to the next one.
    pub open spec fn after(self, reply: ReloadReply) -> ReloadRun {
        match (self.phase, reply) {
            (ReloadPhase::List, ReloadReply::Rows(rows)) => ReloadRun {
                rows,
                next: 0,
                phase: Self::reading(rows@, 0),
            },
            (ReloadPhase::Read, ReloadReply::Archive(package)) => if decided(
                self.rows@[self.next as int],
                package,
            ) is Load {
                ReloadRun { phase: ReloadPhase::Load(package->Some_0), ..self }
            } else {
                self.moved_on()
            },
            (ReloadPhase::Load(_), ReloadReply::Loaded(_)) => self.moved_on(),
            (ReloadPhase::List, ReloadReply::Failed(error))
            | (ReloadPhase::RestoreRoutes, ReloadReply::Failed(error)) => ReloadRun {
                phase: ReloadPhase::Failed(error),
                ..self
            },
            _ => self,
        }
    }

    /// A reload about to list the stored deploys.
    pub fn reload_persisted_packages() -> (run: Self)
        ensures
            run.fits(),
            run.rows@ == Seq::<PackageRecord>::empty(),
            run.next == 0,
            run.phase is List,
    {
        ReloadRun { rows: Vec::new(), next: 0, phase: ReloadPhase::List }
    }

    /// Takes in what came of a step. What does not answer the step changes nothing.
    pub fn advance(self, reply: ReloadReply) -> (after: Self)
        requires
            self.fits(),
        ensures
            after == self.after(reply),
            after.fits(),
    {
        let ReloadRun { rows, next, phase } = self;
        match (phase, reply) {
            (ReloadPhase::List, ReloadReply::Rows(rows)) => {
                let phase = if rows.len() > 0 {
                    ReloadPhase::Read
                } else {
                    ReloadPhase::RestoreRoutes
                };
                ReloadRun { rows, next: 0, phase }
            },
            (ReloadPhase::Read, ReloadReply::Archive(package)) => {
                let decision = reload_persisted_package(&rows[next], package.as_ref());
                match (decision, package) {
                    (ReloadDecision::Load, Some(package)) => ReloadRun {
                        rows,
                        next,
                        phase: ReloadPhase::Load(package),
                    },
                    (_, _) => Self::pass_row(rows, next),
                }
            },
            (ReloadPhase::Load(_), ReloadReply::Loaded(_)) => Self::pass_row(rows, next),
            (ReloadPhase::List, ReloadReply::Failed(error)) => ReloadRun {
                rows,
                next,
                phase: ReloadPhase::Failed(error),
            },
            (ReloadPhase::RestoreRoutes, ReloadReply::Failed(error)) => ReloadRun {
                rows,
                next,
                phase: ReloadPhase::Failed(error),
            },
            (phase, _) => ReloadRun { rows, next, phase },
        }
    }

    /// Leaves a row behind.
    fn pass_row(rows: Vec<PackageRecord>, next: usize) -> (after: Self)
        requires
            next < rows@.len(),
        ensures
            after.rows == rows,
            after.next == next + 1,
            after.phase == Self::reading(rows@, next + 1),
    {
        let count: usize = rows.len();
        let phase = if next + 1 < count {
            ReloadPhase::Read
        } else {
            ReloadPhase::RestoreRoutes
        };
        ReloadRun { rows, next: next + 1, phase }
    }

    /// The catalog after stored route pointers were taken in.
    pub open spec fn routed_by(
        self,
        catalog: CatalogView,
        routes: Seq<PackageRoute>,
    ) -> CatalogView {
        if self.phase is RestoreRoutes {
            CatalogView { routed: routes_restored(catalog, routes), ..catalog }
        } else {
            catalog
        }
    }

    /// The reload after stored route pointers were taken in.
    pub open spec fn after_routes(self) -> ReloadRun {
        if self.phase is RestoreRoutes {
            ReloadRun { phase: ReloadPhase::Reloaded, ..self }
        } else {
            self
        }
    }

    /// Takes in the stored route pointers and restores them, once every row has been seen.
    /// Before that nothing changes.
    pub fn restore_routes(
        self,
        catalog: &mut WorkflowCatalog,
        routes: &Vec<PackageRoute>,
    ) -> (after: Self)
        requires
            old(catalog).wf(),
        ensures
            final(catalog).wf(),
            final(catalog)@ == self.routed_by(old(catalog)@, routes@),
            after == self.after_routes(),
    {
        let ReloadRun { rows, next, phase } = self;
        let phase = match phase {
            ReloadPhase::RestoreRoutes => {
                restore_persisted_routes(catalog, routes);
                ReloadPhase::Reloaded
            },
            phase => phase,
        };
        ReloadRun { rows, next, phase }
    }
}

/// What a reload takes in.
pub enum ReloadStep {
    /// What came of a step.
    Replied(ReloadReply),
    /// The stored route pointers.
    Routed(Seq<PackageRoute>),
}

impl ReloadRun {
    /// The reload after it has taken something in.
    pub open spec fn stepped(self, step: ReloadStep) -> ReloadRun {
        match step {
            ReloadStep::Replied(reply) => self.after(reply),
            ReloadStep::Routed(_) => self.after_routes(),
        }
    }
}

/// A course of a reload: each follows from the one before it by a step.
pub open spec fn reload_course(runs: Seq<ReloadRun>, steps: Seq<ReloadStep>) -> bool {
    &&& runs.len() == steps.len() + 1
    &&& runs[0].phase is List
    &&& forall|i: int|
        0 <= i < steps.len() ==> runs[i + 1] == runs[i].stepped(#[trigger] steps[i])
}

/// The archive of a row was read at some step.
pub open spec fn reads_row(
    runs: Seq<ReloadRun>,
    steps: Seq<ReloadStep>,
    row: int,
    at: int,
) -> bool {
    &&& runs[at].phase is Read
    &&& runs[at].next == row
    &&& steps[at] matches ReloadStep::Replied(ReloadReply::Archive(_))
}

/// A row was read before some point of a course, and a package that is to be loaded was
/// handed to the loader.
pub open spec fn row_served(
    runs: Seq<ReloadRun>,
    steps: Seq<ReloadStep>,
    row: int,
    point: int,
) -> bool {
    exists|at: int|
        {
            &&& 0 <= at < point
            &&& #[trigger] reads_row(runs, steps, row, at)
            &&& ({
                let package = steps[at]->Replied_0->Archive_0;
                decided(runs[at].rows@[row], package) is Load ==> {
                    &&& runs[at + 1].phase == ReloadPhase::Load(package->Some_0)
                    &&& runs[at + 1].next == row
                }
            })
        }
}

/// What a reload has behind it at some point of its course.
proof fn lemma_rows_served(runs: Seq<ReloadRun>, steps: Seq<ReloadStep>, point: int)
    requires
        reload_course(runs, steps),
        0 <= point < runs.len(),
    ensures
        runs[point].fits(),
        runs[point].phase is List || runs[point].phase is Failed || runs[point].next
            <= runs[point].rows@.len(),
        runs[point].phase is RestoreRoutes || runs[point].phase is Reloaded ==> runs[point].next
            == runs[point].rows@.len(),
        !(runs[point].phase is List) && !(runs[point].phase is Failed) ==> forall|row: int|
            0 <= row < runs[point].next ==> #[trigger] row_served(runs, steps, row, point),
        runs[point].phase matches ReloadPhase::Load(package) ==> {
            &&& row_served(runs, steps, runs[point].next as int, point)
            &&& keyed_by(
                package,
                runs[point].rows@[runs[point].next as int].workflow_type@,
                runs[point].rows@[runs[point].next as int].content_hash@,
            )
        },
        forall|i: int|
            0 <= i < point && !((#[trigger] runs[i]).phase is List) ==> !(runs[point].phase is List)
                && runs[i].rows == runs[point].rows,
    decreases point,
{
    if point > 0 {
        lemma_rows_served(runs, steps, point - 1);
        let prior = runs[point - 1];
        assert(runs[point] == prior.stepped(steps[point - 1]));
        assert(prior.rows.len() == prior.rows@.len());
        if prior.phase is Read && steps[point - 1] matches ReloadStep::Replied(
            ReloadReply::Archive(_),
        ) {
            assert(reads_row(runs, steps, prior.next as int, point - 1));
            assert(row_served(runs, steps, prior.next as int, point));
        }
        assert forall|row: int| row_served(runs, steps, row, point - 1) implies row_served(
            runs,
            steps,
            row,
            point,
        ) by {
            let at = choose|at: int|
                {
                    &&& 0 <= at < point - 1
                    &&& #[trigger] reads_row(runs, steps, row, at)
                    &&& ({
                        let package = steps[at]->Replied_0->Archive_0;
                        decided(runs[at].rows@[row], package) is Load ==> {
                            &&& runs[at + 1].phase == ReloadPhase::Load(package->Some_0)
                            &&& runs[at + 1].next == row
                        }
                    })
                };
            assert(reads_row(runs, steps, row, at));
        }
    }
}

/// One bad row stops no other: once the rows are through, each of them has been read, and
/// each whose package is the one that its key names was handed to the loader, whatever
/// became of the others.
pub proof fn every_sound_row_is_handed_to_the_loader(
    runs: Seq<ReloadRun>,
    steps: Seq<ReloadStep>,
    point: int,
    row: int,
)
    requires
        reload_course(runs, steps),
        0 <= point < runs.len(),
        runs[point].phase is RestoreRoutes || runs[point].phase is Reloaded,
        0 <= row < runs[point].rows@.len(),
    ensures
        row_served(runs, steps, row, point),
        forall|at: int|
            0 <= at < point && #[trigger] reads_row(runs, steps, row, at) ==> runs[at].rows
                == runs[point].rows,
{
    lemma_rows_served(runs, steps, point);
}

/// Nothing else is handed to the loader: a package that is loaded is the one that the key
/// of its row names.
pub proof fn only_sound_rows_are_handed_to_the_loader(
    runs: Seq<ReloadRun>,
    steps: Seq<ReloadStep>,
    point: int,
)
    requires
        reload_course(runs, steps),
        0 <= point < runs.len(),
    ensures
        runs[point].phase matches ReloadPhase::Load(package) ==> {
            let row = runs[point].rows@[runs[point].next as int];
            runs[point].next < runs[point].rows@.len() && keyed_by(
                package,
                row.workflow_type@,
                row.content_hash@,
            )
        },
{
    lemma_rows_served(runs, steps, point);
}

/// Stored route pointers change the catalog only after the last row has been seen, so that
/// no load overrides them: in every other phase the catalog keeps its routes.
pub proof fn routes_are_restored_after_the_last_row(
    runs: Seq<ReloadRun>,
    steps: Seq<ReloadStep>,
    point: int,
    catalog: CatalogView,
    routes: Seq<PackageRoute>,
)
    requires
        reload_course(runs, steps),
        0 <= point < runs.len(),
        runs[point].routed_by(catalog, routes) != catalog,
    ensures
        runs[point].next == runs[point].rows@.len(),
        forall|row: int|
            0 <= row < runs[point].rows@.len() ==> #[trigger] row_served(runs, steps, row, point),
{
    lemma_rows_served(runs, steps, point);
}

/// No row is read or loaded once routes are being restored, and a failed load fails no
/// reload: only the store's own listings can.
pub proof fn only_listings_fail_a_reload(run: ReloadRun, step: ReloadStep)
    requires
        run.fits(),
        !(run.phase is Failed),
    ensures
        run.stepped(step).phase is Failed ==> run.phase is List || run.phase is RestoreRoutes,
        run.phase is RestoreRoutes || run.phase is Reloaded ==> !(run.stepped(step).phase is Read)
            && !(run.stepped(step).phase is Load),
{
}

/// The step of a deploy to perform next, or how it ended.
#[derive(Debug, PartialEq, Eq)]
pub enum DeployPhase {
    /// Load the package into the catalog without publishing its routes.
    Stage,
    /// Store the package with the route pointers of its types.
    Store {
        /// The package was not loaded before.
        fresh: bool,
    },
    /// Take the freshly staged package out again: it could not be stored.
    RollBack(EngineError),
    /// Publish the routes of the package.
    Publish,
    /// The package is deployed.
    Deployed,
    /// The deploy failed.
    Failed(EngineError),
}

impl DeployPhase {
    /// The phase after a step; the reply to a staging says whether it registered the
    /// package. Routes are published only once the package is stored, and a fresh package
    /// that cannot be stored is taken out again.
    pub open spec fn after(self, reply: Result<bool, EngineError>) -> DeployPhase {
        match (self, reply) {
            (DeployPhase::Stage, Ok(fresh)) => DeployPhase::Store { fresh },
            (DeployPhase::Store { .. }, Ok(_)) => DeployPhase::Publish,
            (DeployPhase::Store { fresh: true }, Err(error)) => DeployPhase::RollBack(error),
            (DeployPhase::RollBack(error), _) => DeployPhase::Failed(error),
            (DeployPhase::Publish, Ok(_)) => DeployPhase::Deployed,
            (DeployPhase::Stage, Err(error))
            | (DeployPhase::Store { fresh: false }, Err(error))
            | (DeployPhase::Publish, Err(error)) => DeployPhase::Failed(error),
            (phase, _) => phase,
        }
    }

    /// Takes in what came of a step; of a staging, whether it registered the package.
    pub fn advance(self, reply: Result<bool, EngineError>) -> (phase: Self)
        ensures
            phase == self.after(reply),
    {
        match (self, reply) {
            (DeployPhase::Stage, Ok(fresh)) => DeployPhase::Store { fresh },
            (DeployPhase::Store { .. }, Ok(_)) => DeployPhase::Publish,
            (DeployPhase::Store { fresh }, Err(error)) => {
                if fresh {
                    DeployPhase::RollBack(error)
                } else {
                    DeployPhase::Failed(error)
                }
            },
            (DeployPhase::RollBack(error), _) => DeployPhase::Failed(error),
            (DeployPhase::Publish, Ok(_)) => DeployPhase::Deployed,
            (DeployPhase::Stage, Err(error)) => DeployPhase::Failed(error),
            (DeployPhase::Publish, Err(error)) => DeployPhase::Failed(error),
            (phase, _) => phase,
        }
    }
}

/// A course of a deploy: each phase follows from the one before it by a reply.
pub open spec fn deploy_course(
    phases: Seq<DeployPhase>,
    replies: Seq<Result<bool, EngineError>>,
) -> bool {
    &&& phases.len() == replies.len() + 1
    &&& phases[0] is Stage
    &&& forall|i: int|
        0 <= i < replies.len() ==> phases[i + 1] == phases[i].after(#[trigger] replies[i])
}

/// Before some point of a course, the package was stored.
pub open spec fn stored_before(
    phases: Seq<DeployPhase>,
    replies: Seq<Result<bool, EngineError>>,
    point: int,
) -> bool {
    exists|i: int| 0 <= i < point && phases[i] is Store && (#[trigger] replies[i]) is Ok
}

/// Durability leads the catalog's pointer: the routes of a deploy are published only after
/// the package is stored.
pub proof fn routes_are_published_only_once_stored(
    phases: Seq<DeployPhase>,
    replies: Seq<Result<bool, EngineError>>,
    point: int,
)
    requires
        deploy_course(phases, replies),
        0 <= point < phases.len(),
    ensures
        phases[point] is Publish || phases[point] is Deployed ==> stored_before(
            phases,
            replies,
            point,
        ),
    decreases point,
{
    if point > 0 {
        routes_are_published_only_once_stored(phases, replies, point - 1);
        assert(phases[point] == phases[point - 1].after(replies[point - 1]));
        if stored_before(phases, replies, point - 1) {
            let i = choose|i: int|
                0 <= i < point - 1 && phases[i] is Store && (#[trigger] replies[i]) is Ok;
            assert(replies[i] is Ok);
        }
    }
}

/// A package that this deploy registered and that could not be stored is taken out again,
/// and the deploy fails with the store's error; one that was there before stays.
pub proof fn a_fresh_package_that_is_not_stored_is_taken_out(
    fresh: bool,
    error: EngineError,
    reply: Result<bool, EngineError>,
)
    ensures
        ({
            let refused = DeployPhase::Store { fresh }.after(Err(error));
            if fresh {
                refused == DeployPhase::RollBack(error) && refused.after(reply)
                    == DeployPhase::Failed(error)
            } else {
                refused == DeployPhase::Failed(error)
            }
        }),
{
}

/// Once every row has been seen, the stored pointers are restored and nothing else changes:
/// the reload is then over. Before and after that they change nothing.
pub proof fn pointers_are_restored_once(
    run: ReloadRun,
    catalog: CatalogView,
    routes: Seq<PackageRoute>,
)
    ensures
        run.phase is RestoreRoutes ==> {
            let after = run.routed_by(catalog, routes);
            &&& after.routed == routes_restored(catalog, routes)
            &&& after.by_version == catalog.by_version
            &&& after.modules == catalog.modules
            &&& after.groups == catalog.groups
            &&& after.pins == catalog.pins
            &&& run.after_routes().phase is Reloaded
        },
        !(run.phase is RestoreRoutes) ==> run.routed_by(catalog, routes) == catalog
            && run.after_routes() == run,
        run.after_routes().rows == run.rows,
        run.after_routes().next == run.next,
{
}

/// A reload reads the rows as they were listed, one after the other, and is through with
/// them after the last; a failing listing ends it with its own error.
pub proof fn a_reload_goes_row_by_row(run: ReloadRun, reply: ReloadReply)
    requires
        run.fits(),
    ensures
        ({
            let next = run.after(reply);
            &&& (reply matches ReloadReply::Rows(rows) ==> (run.phase is List ==> next.rows == rows
                && next.next == 0 && (next.phase is Read <==> rows@.len() > 0) && (next.phase
                is RestoreRoutes <==> rows@.len() == 0)))
            &&& (reply matches ReloadReply::Archive(package) ==> (run.phase is Read ==> {
                let record = run.rows@[run.next as int];
                let own = package matches Some(held) && hash_text(held.content_hash)
                    == record.content_hash@ && held.manifest.entry_module@
                    == record.workflow_type@;
                &&& next.rows == run.rows
                &&& own ==> (next.phase matches ReloadPhase::Load(handed) && Some(handed)
                    == package) && next.next == run.next
                &&& !own ==> next.next == run.next + 1
            }))
            &&& run.phase is Load && reply is Loaded ==> next.next == run.next + 1 && next.rows
                == run.rows
            &&& next.next == run.next + 1 && !(run.phase is List) ==> (next.phase is Read
                <==> run.next + 1 < run.rows@.len()) && (next.phase is RestoreRoutes <==> run.next
                + 1 >= run.rows@.len())
            &&& (reply matches ReloadReply::Failed(error) ==> (run.phase is List || run.phase
                is RestoreRoutes ==> next.phase == ReloadPhase::Failed(error)))
            &&& run.phase is Reloaded || run.phase is Failed ==> next == run
        }),
{
    assert(run.rows.len() == run.rows@.len());
}

/// Each step of a deploy follows only on the success of the one before it, and a failing one
/// ends it with its own error.
pub proof fn a_deploy_takes_its_steps_in_order(
    phase: DeployPhase,
    reply: Result<bool, EngineError>,
)
    ensures
        ({
            let next = phase.after(reply);
            let moved = next != phase;
            &&& (next matches DeployPhase::Store { fresh } ==> (moved ==> phase is Stage && reply
                == Ok::<bool, EngineError>(fresh)))
            &&& moved && next is Publish ==> phase is Store && reply is Ok
            &&& moved && next is Deployed ==> phase is Publish && reply is Ok
            &&& reply is Ok && (phase is Stage || phase is Store || phase is Publish) ==> moved
                && !(next is Failed) && !(next is RollBack)
            &&& (reply matches Err(error) ==> (phase is Stage || phase is Publish ==> next
                == DeployPhase::Failed(error)))
            &&& phase is Deployed || phase is Failed ==> !moved
        }),
{
}

} // verus!
