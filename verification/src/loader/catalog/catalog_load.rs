//! Package module staging, verification, and route publication.
//!
//! A load runs in three parts. [`WorkflowCatalog::begin_load`] decides, against the
//! catalog alone, whether the package is refused, already resident, or to be
//! staged. A [`PackageLoad`] then says which module to register, which entry to
//! verify or which module to roll back next, and takes in what came of it.
//! [`WorkflowCatalog::commit_load`] enters a verified package in the catalog. The
//! catalog must not change between the first part and the last.

use vstd::prelude::*;
use vstd::string::*;

use crate::clock::Timestamp;
use crate::content_hash::{hash_text, ContentHash};
use crate::error::{is_load_error, load_error, EngineError};
use crate::loader::catalog::catalog_unload::{clone_texts, holds_text, lemma_take_contains, routes};
use crate::loader::catalog::{
    module_taken, module_taken_error, module_taken_text, CatalogEntry, CatalogView, GroupView,
    PackageGroup, VersionKey, WorkflowCatalog,
};
use crate::loader::load::{
    rollback_registered, rollback_text, LoadOutcome, LoadedWorkflow, StagedLoad,
};
use crate::package::{deployed, deployed_name, Package};
use crate::text::{
    before, before_dollar, concat2, concat3, concat4, concat5, concat7, count_text, decimal, texts,
};

verus! {

/// What a load asks for next.
#[derive(Clone, Copy, Debug, PartialEq, Eq, Structural)]
pub enum LoadStep {
    /// Register the module of the staged package.
    Register {
        /// Position among the staged modules.
        module: usize,
    },
    /// Verify the entry of the staged package.
    Verify {
        /// Position among the staged workflows.
        entry: usize,
    },
    /// Unregister the module of the staged package.
    RollBack {
        /// Position among the staged modules.
        module: usize,
    },
    /// Enter the package in the catalog.
    Commit,
    /// Report the failure: every registration has been unwound as far as it could be.
    Refuse,
}

/// How far a load has come.
#[derive(Debug, PartialEq, Eq)]
pub enum LoadPhase {
    /// Registering modules, one after another.
    Registering,
    /// Verifying entries, one after another.
    Verifying {
        /// The entry to verify next.
        entry: usize,
    },
    /// Unwinding registrations, the last one first.
    RollingBack {
        /// Registrations that are still to be unwound.
        remaining: usize,
        /// Rollbacks that failed.
        failures: Vec<String>,
        /// Why the load was given up.
        reason: String,
    },
    /// Every module is registered and every entry verified.
    Verified,
    /// The load was given up and unwound.
    Failed {
        /// Why, with the rollbacks that failed.
        reason: String,
    },
}

/// A package on its way into the runtime.
#[derive(Debug, PartialEq, Eq)]
pub struct PackageLoad {
    /// Staged modules that the runtime does not hold yet, in the package's order.
    pub pending: Vec<usize>,
    /// How many of them are registered.
    pub registered: usize,
    /// How far the load has come.
    pub phase: LoadPhase,
}

/// How far a load has come, in terms of texts.
pub enum PhaseView {
    /// Registering modules.
    Registering,
    /// Verifying the given entry.
    Verifying(int),
    /// Unwinding registrations.
    RollingBack {
        /// Registrations that are still to be unwound.
        remaining: int,
        /// Rollbacks that failed.
        failures: Seq<Seq<char>>,
        /// Why the load was given up.
        reason: Seq<char>,
    },
    /// Registered and verified.
    Verified,
    /// Given up and unwound, for a reason.
    Failed(Seq<char>),
}

/// What a load says.
pub struct LoadView {
    /// Staged modules that the runtime does not hold yet.
    pub pending: Seq<usize>,
    /// How many of them are registered.
    pub registered: int,
    /// How far the load has come.
    pub phase: PhaseView,
}

impl View for PackageLoad {
    type V = LoadView;

    open spec fn view(&self) -> LoadView {
        LoadView {
            pending: self.pending@,
            registered: self.registered as int,
            phase: match self.phase {
                LoadPhase::Registering => PhaseView::Registering,
                LoadPhase::Verifying { entry } => PhaseView::Verifying(entry as int),
                LoadPhase::RollingBack { remaining, failures, reason } => PhaseView::RollingBack {
                    remaining: remaining as int,
                    failures: texts(failures@),
                    reason: reason@,
                },
                LoadPhase::Verified => PhaseView::Verified,
                LoadPhase::Failed { reason } => PhaseView::Failed(reason@),
            },
        }
    }
}

/// What came of a step: nothing to report, or the text of an error.
pub open spec fn reply_of(reply: Result<(), EngineError>) -> Option<Seq<char>> {
    match reply {
        Ok(()) => None,
        Err(error) => Some(error.describes()),
    }
}

impl LoadView {
    /// The load fits the staged package and its own phase.
    pub open spec fn fits(self, staged: StagedLoad) -> bool {
        &&& 0 <= self.registered <= self.pending.len()
        &&& forall|i: int|
            0 <= i < self.pending.len() ==> (#[trigger] self.pending[i]) < staged.modules@.len()
        &&& match self.phase {
            PhaseView::Registering => self.registered < self.pending.len(),
            PhaseView::Verifying(entry) => {
                &&& self.registered == self.pending.len()
                &&& 0 <= entry < staged.workflows@.len()
            },
            PhaseView::RollingBack { remaining, .. } => 0 < remaining <= self.registered,
            PhaseView::Verified => self.registered == self.pending.len(),
            PhaseView::Failed(_) => true,
        }
    }

    /// The name of a pending module.
    pub open spec fn pending_name(self, staged: StagedLoad, i: int) -> Seq<char> {
        staged.modules@[self.pending[i] as int].deployed_name@
    }

    /// The load given up for a reason: what was registered is to be unwound.
    pub open spec fn given_up(self, reason: Seq<char>) -> LoadView {
        LoadView {
            phase: if self.registered == 0 {
                PhaseView::Failed(reason)
            } else {
                PhaseView::RollingBack { remaining: self.registered, failures: Seq::empty(), reason }
            },
            ..self
        }
    }

    /// What the load asks for.
    pub open spec fn asks(self) -> LoadStep {
        match self.phase {
            PhaseView::Registering => LoadStep::Register { module: self.pending[self.registered] },
            PhaseView::Verifying(entry) => LoadStep::Verify { entry: entry as usize },
            PhaseView::RollingBack { remaining, .. } => LoadStep::RollBack {
                module: self.pending[remaining - 1],
            },
            PhaseView::Verified => LoadStep::Commit,
            PhaseView::Failed(_) => LoadStep::Refuse,
        }
    }

    /// The load after what it asked for came back.
    pub open spec fn after(self, staged: StagedLoad, reply: Option<Seq<char>>) -> LoadView {
        match (self.phase, reply) {
            (PhaseView::Registering, None) => LoadView {
                registered: self.registered + 1,
                phase: if self.registered + 1 == self.pending.len() {
                    PhaseView::Verifying(0)
                } else {
                    PhaseView::Registering
                },
                ..self
            },
            (PhaseView::Registering, Some(error)) => self.given_up(
                "runtime rejected deployed module `"@ + self.pending_name(staged, self.registered)
                    + "` after "@ + decimal(self.registered as nat) + " staged registrations: "@
                    + error,
            ),
            (PhaseView::Verifying(entry), None) => LoadView {
                phase: if entry + 1 == staged.workflows@.len() {
                    PhaseView::Verified
                } else {
                    PhaseView::Verifying(entry + 1)
                },
                ..self
            },
            (PhaseView::Verifying(entry), Some(error)) => self.given_up(
                "entry verification failed for workflow `"@
                    + staged.workflows@[entry].workflow_type@ + "`: "@ + error,
            ),
            (PhaseView::RollingBack { remaining, failures, reason }, _) => {
                let failed = match reply {
                    None => failures,
                    Some(error) => failures.push(
                        self.pending_name(staged, remaining - 1) + ": "@ + error,
                    ),
                };
                LoadView {
                    phase: if remaining == 1 {
                        PhaseView::Failed(reason + rollback_text(failed))
                    } else {
                        PhaseView::RollingBack { remaining: remaining - 1, failures: failed, reason }
                    },
                    ..self
                }
            },
            (PhaseView::Verified, _) => self,
            (PhaseView::Failed(_), _) => self,
        }
    }

    /// The load after a sequence of replies.
    pub open spec fn after_all(self, staged: StagedLoad, replies: Seq<Option<Seq<char>>>) -> LoadView
        decreases replies.len(),
    {
        if replies.len() == 0 {
            self
        } else {
            self.after_all(staged, replies.drop_last()).after(staged, replies.last())
        }
    }
}

impl PackageLoad {
    /// What the load asks for next.
    pub fn step(&self, staged: &StagedLoad) -> (step: LoadStep)
        requires
            self@.fits(*staged),
        ensures
            step == self@.asks(),
    {
        match &self.phase {
            LoadPhase::Registering => LoadStep::Register { module: self.pending[self.registered] },
            LoadPhase::Verifying { entry } => LoadStep::Verify { entry: *entry },
            LoadPhase::RollingBack { remaining, .. } => LoadStep::RollBack {
                module: self.pending[*remaining - 1],
            },
            LoadPhase::Verified => LoadStep::Commit,
            LoadPhase::Failed { .. } => LoadStep::Refuse,
        }
    }

    /// Gives the load up.
    fn give_up(self, reason: String) -> (load: Self)
        ensures
            load@ == self@.given_up(reason@),
    {
        let PackageLoad { pending, registered, phase: _ } = self;
        let phase = if registered == 0 {
            LoadPhase::Failed { reason }
        } else {
            LoadPhase::RollingBack { remaining: registered, failures: Vec::new(), reason }
        };
        let load = PackageLoad { pending, registered, phase };
        proof {
            if registered > 0 {
                assert(load@.phase->failures =~= Seq::empty());
            }
        }
        load
    }

    /// Takes in what came of the step that the load asked for.
    ///
    /// A module that the runtime rejects, or an entry that does not verify, makes the
    /// load unwind every registration it made, the last one first, and then fail.
    pub fn advance(self, staged: &StagedLoad, reply: Result<(), EngineError>) -> (load: Self)
        requires
            staged.wf(),
            self@.fits(*staged),
        ensures
            load@ == self@.after(*staged, reply_of(reply)),
            load@.fits(*staged),
    {
        let PackageLoad { pending, registered, phase } = self;
        let pending_count: usize = pending.len();
        let entry_count: usize = staged.workflows.len();
        match phase {
            LoadPhase::Registering => {
                match reply {
                    Ok(()) => {
                        let registered: usize = registered + 1;
                        let phase = if registered == pending_count {
                            LoadPhase::Verifying { entry: 0 }
                        } else {
                            LoadPhase::Registering
                        };
                        PackageLoad { pending, registered, phase }
                    },
                    Err(error) => {
                        let reason = concat7(
                            "runtime rejected deployed module `",
                            staged.modules[pending[registered]].deployed_name.as_str(),
                            "` after ",
                            count_text(registered).as_str(),
                            " staged registrations: ",
                            error.message().as_str(),
                            "",
                        );
                        proof {
                            let full = "runtime rejected deployed module `"@
                                + staged.modules@[pending@[registered as int] as int].deployed_name@
                                + "` after "@ + decimal(registered as nat)
                                + " staged registrations: "@ + error.describes();
                            reveal_strlit("");
                            assert(reason@ =~= full);
                        }
                        PackageLoad { pending, registered, phase: LoadPhase::Registering }.give_up(
                            reason,
                        )
                    },
                }
            },
            LoadPhase::Verifying { entry } => {
                match reply {
                    Ok(()) => {
                        let phase = if entry + 1 == entry_count {
                            LoadPhase::Verified
                        } else {
                            LoadPhase::Verifying { entry: entry + 1 }
                        };
                        PackageLoad { pending, registered, phase }
                    },
                    Err(error) => {
                        let reason = concat4(
                            "entry verification failed for workflow `",
                            staged.workflows[entry].workflow_type.as_str(),
                            "`: ",
                            error.message().as_str(),
                        );
                        PackageLoad { pending, registered, phase: LoadPhase::Verifying { entry } }
                            .give_up(reason)
                    },
                }
            },
            LoadPhase::RollingBack { remaining, failures, reason } => {
                let mut failures = failures;
                let ghost listed = failures@;
                match reply {
                    Ok(()) => {},
                    Err(error) => {
                        let text = concat3(
                            staged.modules[pending[remaining - 1]].deployed_name.as_str(),
                            ": ",
                            error.message().as_str(),
                        );
                        failures.push(text);
                        assert(texts(failures@) =~= texts(listed).push(text@));
                    },
                }
                let phase = if remaining == 1 {
                    LoadPhase::Failed {
                        reason: concat2(reason.as_str(), rollback_registered(&failures).as_str()),
                    }
                } else {
                    LoadPhase::RollingBack { remaining: remaining - 1, failures, reason }
                };
                PackageLoad { pending, registered, phase }
            },
            LoadPhase::Verified => PackageLoad { pending, registered, phase: LoadPhase::Verified },
            LoadPhase::Failed { reason } => {
                PackageLoad { pending, registered, phase: LoadPhase::Failed { reason } }
            },
        }
    }

    /// The error that a failed load is reported with.
    pub fn into_error(self) -> (error: EngineError)
        requires
            self@.phase is Failed,
        ensures
            is_load_error(error, self@.phase->Failed_0),
    {
        match self.phase {
            LoadPhase::Failed { reason } => load_error(reason),
            _ => {
                assert(false);
                load_error(String::new())
            },
        }
    }
}

/// What the catalog makes of a staged package before anything is registered.
#[derive(Debug, PartialEq, Eq)]
pub enum LoadStart {
    /// The version is resident: nothing is to be registered.
    Resident(LoadOutcome),
    /// The version is new: its modules are to be registered and verified.
    Stage(PackageLoad),
}

/// The workflow types of a staged package.
pub open spec fn staged_types(staged: StagedLoad) -> Seq<Seq<char>> {
    Seq::new(staged.workflows@.len(), |i: int| staged.workflows@[i].workflow_type@)
}

/// The deployed names of a staged package's modules.
pub open spec fn staged_names(staged: StagedLoad) -> Seq<Seq<char>> {
    Seq::new(staged.modules@.len(), |i: int| staged.modules@[i].deployed_name@)
}

/// A staged module's name belongs to another version.
pub open spec fn name_taken(catalog: CatalogView, staged: StagedLoad, i: int) -> bool {
    module_taken(catalog, staged_names(staged)[i], staged.version)
}

/// No staged module's name belongs to another version.
pub open spec fn names_free(catalog: CatalogView, staged: StagedLoad) -> bool {
    forall|i: int| 0 <= i < staged.modules@.len() ==> !#[trigger] name_taken(catalog, staged, i)
}

/// A staged workflow is resident at the staged version.
pub open spec fn is_resident(catalog: CatalogView, staged: StagedLoad, i: int) -> bool {
    catalog.by_version.contains_key((staged_types(staged)[i], staged.version))
}

/// How many of the first staged workflows are resident.
pub open spec fn resident_count(catalog: CatalogView, staged: StagedLoad, n: nat) -> nat
    decreases n,
{
    if n == 0 {
        0
    } else {
        let before = resident_count(catalog, staged, (n - 1) as nat);
        if is_resident(catalog, staged, n - 1) {
            before + 1
        } else {
            before
        }
    }
}

/// The resident entry of a staged workflow.
pub open spec fn resident_entry(catalog: CatalogView, staged: StagedLoad, i: int) -> CatalogEntry {
    catalog.by_version[(staged_types(staged)[i], staged.version)]
}

/// A resident entry was loaded with another manifest.
pub open spec fn manifest_differs(catalog: CatalogView, staged: StagedLoad, i: int) -> bool {
    resident_entry(catalog, staged, i).manifest_digest.text@ != staged.manifest_digest.text@
}

/// Some staged workflow is not routed at the staged version.
pub open spec fn moves_a_route(catalog: CatalogView, staged: StagedLoad) -> bool {
    exists|i: int|
        0 <= i < staged.workflows@.len() && !routes(
            catalog,
            #[trigger] staged_types(staged)[i],
            staged.version,
        )
}

/// Routes with types pointed at a version.
pub open spec fn with_routes(
    routed: Map<Seq<char>, ContentHash>,
    types: Seq<Seq<char>>,
    version: ContentHash,
) -> Map<Seq<char>, ContentHash> {
    Map::new(
        |name: Seq<char>| routed.contains_key(name) || types.contains(name),
        |name: Seq<char>|
            if types.contains(name) {
                version
            } else {
                routed[name]
            },
    )
}

/// The catalog with the staged workflows routed at the staged version.
pub open spec fn routed_at(catalog: CatalogView, staged: StagedLoad) -> CatalogView {
    CatalogView {
        routed: with_routes(catalog.routed, staged_types(staged), staged.version),
        ..catalog
    }
}

/// The first staged modules whose names the catalog has not committed.
pub open spec fn unregistered(catalog: CatalogView, staged: StagedLoad, n: nat) -> Seq<usize>
    decreases n,
{
    if n == 0 {
        Seq::empty()
    } else {
        let before = unregistered(catalog, staged, (n - 1) as nat);
        if catalog.modules.contains_key(staged_names(staged)[n - 1]) {
            before
        } else {
            before.push((n - 1) as usize)
        }
    }
}

/// A load that has registered nothing yet.
pub open spec fn fresh_load(catalog: CatalogView, staged: StagedLoad) -> LoadView {
    let pending = unregistered(catalog, staged, staged.modules@.len());
    LoadView {
        pending,
        registered: 0,
        phase: if pending.len() == 0 {
            PhaseView::Verifying(0)
        } else {
            PhaseView::Registering
        },
    }
}

/// Why a staged package is refused before anything is registered.
pub open spec fn refuses_package(
    catalog: CatalogView,
    staged: StagedLoad,
    error: EngineError,
) -> bool {
    let count = staged.workflows@.len();
    let resident = resident_count(catalog, staged, count);
    ||| exists|i: int|
        {
            &&& 0 <= i < staged.modules@.len()
            &&& #[trigger] name_taken(catalog, staged, i)
            &&& forall|j: int| 0 <= j < i ==> !#[trigger] name_taken(catalog, staged, j)
            &&& is_load_error(
                error,
                module_taken_text(catalog, staged_names(staged)[i], staged.version),
            )
        }
    ||| {
        &&& names_free(catalog, staged)
        &&& 0 < resident < count
        &&& is_load_error(
            error,
            "package version `"@ + hash_text(staged.version) + "` is only partially registered ("@
                + decimal(resident) + "/"@ + decimal(count) + " workflow entries)"@,
        )
    }
    ||| {
        &&& names_free(catalog, staged)
        &&& resident == count
        &&& exists|i: int| 0 <= i < count && #[trigger] manifest_differs(catalog, staged, i)
        &&& error matches EngineError::ManifestMismatch {
            workflow_type,
            version,
            resident_digest,
            incoming_digest,
        }
        &&& workflow_type@ == resident_entry(catalog, staged, 0).workflow@.workflow_type
        &&& version == staged.version
        &&& resident_digest@ == resident_entry(catalog, staged, 0).manifest_digest.text@
        &&& incoming_digest@ == staged.manifest_digest.text@
    }
}

/// The entry that a committed load makes of a staged workflow.
pub open spec fn committed_entry(
    staged: StagedLoad,
    i: int,
    loaded_at: Timestamp,
) -> CatalogEntry {
    CatalogEntry {
        workflow: staged.record_of(i),
        manifest_version: staged.manifest_version,
        manifest_digest: staged.manifest_digest,
        loaded_at,
    }
}

/// The loaded versions with the first staged workflows entered.
pub open spec fn with_entries(
    by_version: Map<(Seq<char>, ContentHash), CatalogEntry>,
    staged: StagedLoad,
    n: nat,
    loaded_at: Timestamp,
) -> Map<(Seq<char>, ContentHash), CatalogEntry>
    decreases n,
{
    if n == 0 {
        by_version
    } else {
        with_entries(by_version, staged, (n - 1) as nat, loaded_at).insert(
            (staged_types(staged)[n - 1], staged.version),
            committed_entry(staged, n - 1, loaded_at),
        )
    }
}

/// The deployed modules with names committed to a version where they were free.
pub open spec fn with_new_modules(
    modules: Map<Seq<char>, ContentHash>,
    names: Seq<Seq<char>>,
    version: ContentHash,
) -> Map<Seq<char>, ContentHash> {
    Map::new(
        |name: Seq<char>| modules.contains_key(name) || names.contains(name),
        |name: Seq<char>|
            if modules.contains_key(name) {
                modules[name]
            } else {
                version
            },
    )
}

/// The catalog with a staged package entered; its routes are published or not.
pub open spec fn committed(
    catalog: CatalogView,
    staged: StagedLoad,
    publish_routes: bool,
    loaded_at: Timestamp,
) -> CatalogView {
    CatalogView {
        by_version: with_entries(
            catalog.by_version,
            staged,
            staged.workflows@.len(),
            loaded_at,
        ),
        modules: with_new_modules(catalog.modules, staged_names(staged), staged.version),
        groups: catalog.groups.insert(
            (staged.primary_workflow_type@, staged.version),
            GroupView {
                primary: staged.primary_workflow_type@,
                members: staged_types(staged),
            },
        ),
        routed: if publish_routes {
            with_routes(catalog.routed, staged_types(staged), staged.version)
        } else {
            catalog.routed
        },
        ..catalog
    }
}

/// The resident count is bounded, and full only where every workflow is resident.
proof fn lemma_resident_count(catalog: CatalogView, staged: StagedLoad, n: nat)
    ensures
        resident_count(catalog, staged, n) <= n,
        resident_count(catalog, staged, n) == n <==> (forall|i: int|
            0 <= i < n ==> #[trigger] is_resident(catalog, staged, i)),
        resident_count(catalog, staged, n) == 0 <==> (forall|i: int|
            0 <= i < n ==> !#[trigger] is_resident(catalog, staged, i)),
    decreases n,
{
    if n > 0 {
        lemma_resident_count(catalog, staged, (n - 1) as nat);
        if resident_count(catalog, staged, n) == n {
            assert forall|i: int| 0 <= i < n implies #[trigger] is_resident(catalog, staged, i) by {
            }
        }
        if forall|i: int| 0 <= i < n ==> #[trigger] is_resident(catalog, staged, i) {
            assert(is_resident(catalog, staged, n - 1));
            assert forall|i: int| 0 <= i < n - 1 implies #[trigger] is_resident(
                catalog,
                staged,
                i,
            ) by {}
        }
        if resident_count(catalog, staged, n) == 0 {
            assert forall|i: int| 0 <= i < n implies !#[trigger] is_resident(catalog, staged, i) by {
            }
        }
        if forall|i: int| 0 <= i < n ==> !#[trigger] is_resident(catalog, staged, i) {
            assert(!is_resident(catalog, staged, n - 1));
            assert forall|i: int| 0 <= i < n - 1 implies !#[trigger] is_resident(
                catalog,
                staged,
                i,
            ) by {}
        }
    }
}

/// The pending modules are staged ones.
proof fn lemma_unregistered(catalog: CatalogView, staged: StagedLoad, n: nat)
    requires
        n <= staged.modules@.len(),
        staged.modules@.len() <= usize::MAX,
    ensures
        unregistered(catalog, staged, n).len() <= n,
        forall|i: int|
            0 <= i < unregistered(catalog, staged, n).len() ==> (#[trigger] unregistered(
                catalog,
                staged,
                n,
            )[i]) < n,
    decreases n,
{
    if n > 0 {
        lemma_unregistered(catalog, staged, (n - 1) as nat);
    }
}

impl WorkflowCatalog {
    /// The first staged module whose name belongs to another version.
    fn validate_staged_module_names(&self, staged: &StagedLoad) -> (result: Result<
        (),
        EngineError,
    >)
        requires
            self.wf(),
        ensures
            match result {
                Ok(()) => names_free(self@, *staged),
                Err(error) => exists|i: int|
                    {
                        &&& 0 <= i < staged.modules@.len()
                        &&& #[trigger] name_taken(self@, *staged, i)
                        &&& forall|j: int| 0 <= j < i ==> !#[trigger] name_taken(self@, *staged, j)
                        &&& is_load_error(
                            error,
                            module_taken_text(self@, staged_names(*staged)[i], staged.version),
                        )
                    },
            },
    {
        let mut i: usize = 0;
        while i < staged.modules.len()
            invariant
                self.wf(),
                0 <= i <= staged.modules@.len(),
                forall|j: int| 0 <= j < i ==> !#[trigger] name_taken(self@, *staged, j),
            decreases staged.modules.len() - i,
        {
            let name = &staged.modules[i].deployed_name;
            assert(staged_names(*staged)[i as int] == name@);
            match self.registered_modules.get(name) {
                Some(existing) => {
                    if !existing.same(&staged.version) {
                        assert(name_taken(self@, *staged, i as int));
                        return Err(module_taken_error(name.as_str(), existing, &staged.version));
                    }
                },
                None => {},
            }
            i = i + 1;
        }
        Ok(())
    }

    /// How many staged workflows are resident.
    fn count_resident(&self, staged: &StagedLoad) -> (count: usize)
        requires
            self.wf(),
        ensures
            count == resident_count(self@, *staged, staged.workflows@.len()),
            count <= staged.workflows@.len(),
    {
        let mut count: usize = 0;
        let mut i: usize = 0;
        while i < staged.workflows.len()
            invariant
                self.wf(),
                0 <= i <= staged.workflows@.len(),
                count <= i,
                count == resident_count(self@, *staged, i as nat),
            decreases staged.workflows.len() - i,
        {
            assert(staged_types(*staged)[i as int] == staged.workflows@[i as int].workflow_type@);
            if self.is_loaded(staged.workflows[i].workflow_type.as_str(), &staged.version) {
                count = count + 1;
            }
            i = i + 1;
        }
        count
    }

    /// Whether some resident workflow was loaded with another manifest.
    fn has_other_manifest(&self, staged: &StagedLoad) -> (differs: bool)
        requires
            self.wf(),
            forall|i: int|
                0 <= i < staged.workflows@.len() ==> #[trigger] is_resident(self@, *staged, i),
        ensures
            differs == exists|i: int|
                0 <= i < staged.workflows@.len() && #[trigger] manifest_differs(self@, *staged, i),
    {
        let mut i: usize = 0;
        while i < staged.workflows.len()
            invariant
                self.wf(),
                0 <= i <= staged.workflows@.len(),
                forall|j: int|
                    0 <= j < staged.workflows@.len() ==> #[trigger] is_resident(self@, *staged, j),
                forall|j: int| 0 <= j < i ==> !#[trigger] manifest_differs(self@, *staged, j),
            decreases staged.workflows.len() - i,
        {
            let key = VersionKey::new(
                staged.workflows[i].workflow_type.as_str(),
                &staged.version,
            );
            assert(staged_types(*staged)[i as int] == staged.workflows@[i as int].workflow_type@);
            assert(is_resident(self@, *staged, i as int));
            match self.by_version.get(&key) {
                Some(entry) => {
                    if entry.manifest_digest.text != staged.manifest_digest.text {
                        assert(manifest_differs(self@, *staged, i as int));
                        return true;
                    }
                },
                None => {},
            }
            i = i + 1;
        }
        false
    }

    /// Whether some staged workflow is not routed at the staged version.
    fn route_would_change(&self, staged: &StagedLoad) -> (changes: bool)
        requires
            self.wf(),
        ensures
            changes == moves_a_route(self@, *staged),
    {
        let mut i: usize = 0;
        while i < staged.workflows.len()
            invariant
                self.wf(),
                0 <= i <= staged.workflows@.len(),
                forall|j: int|
                    0 <= j < i ==> routes(
                        self@,
                        #[trigger] staged_types(*staged)[j],
                        staged.version,
                    ),
            decreases staged.workflows.len() - i,
        {
            assert(staged_types(*staged)[i as int] == staged.workflows@[i as int].workflow_type@);
            let routed_here = match self.routed.get(&staged.workflows[i].workflow_type) {
                Some(active) => active.same(&staged.version),
                None => false,
            };
            if !routed_here {
                return true;
            }
            i = i + 1;
        }
        false
    }

    /// Points workflow types at a version.
    fn route_all(&mut self, types: &Vec<String>, version: &ContentHash)
        requires
            old(self).wf(),
        ensures
            final(self).wf(),
            final(self)@ == (CatalogView {
                routed: with_routes(old(self)@.routed, texts(types@), *version),
                ..old(self)@
            }),
    {
        let ghost before = self@;
        let ghost names = texts(types@);
        let mut i: usize = 0;
        proof {
            assert(before.routed =~= with_routes(before.routed, names.take(0), *version));
        }
        while i < types.len()
            invariant
                self.wf(),
                0 <= i <= types@.len(),
                before == old(self)@,
                names == texts(types@),
                self@ == (CatalogView {
                    routed: with_routes(before.routed, names.take(i as int), *version),
                    ..before
                }),
            decreases types.len() - i,
        {
            self.routed.insert(types[i].clone(), *version);
            proof {
                assert(names[i as int] == types@[i as int]@);
                let listed = with_routes(before.routed, names.take(i as int), *version);
                let longer = with_routes(before.routed, names.take(i + 1), *version);
                assert forall|name: Seq<char>| longer.contains_key(name) implies longer[name]
                    == self@.routed[name] && self@.routed.contains_key(name) by {
                    lemma_take_contains(names, i as int, name);
                }
                assert forall|name: Seq<char>| self@.routed.contains_key(name) implies
                    longer.contains_key(name) by {
                    lemma_take_contains(names, i as int, name);
                }
                assert(self@.routed =~= longer);
            }
            i = i + 1;
        }
        proof {
            assert(names.take(i as int) =~= names);
        }
    }

    /// The workflow types of a staged package.
    fn types_of(staged: &StagedLoad) -> (types: Vec<String>)
        ensures
            texts(types@) == staged_types(*staged),
    {
        let mut types: Vec<String> = Vec::new();
        let mut i: usize = 0;
        while i < staged.workflows.len()
            invariant
                0 <= i <= staged.workflows@.len(),
                types@.len() == i,
                forall|j: int|
                    0 <= j < i ==> (#[trigger] types@[j])@ == staged.workflows@[j].workflow_type@,
            decreases staged.workflows.len() - i,
        {
            types.push(staged.workflows[i].workflow_type.clone());
            i = i + 1;
        }
        assert(texts(types@) =~= staged_types(*staged));
        types
    }

    /// The staged modules whose names the catalog has not committed.
    fn pending_modules(&self, staged: &StagedLoad) -> (pending: Vec<usize>)
        requires
            self.wf(),
        ensures
            pending@ == unregistered(self@, *staged, staged.modules@.len()),
    {
        let mut pending: Vec<usize> = Vec::new();
        let mut i: usize = 0;
        while i < staged.modules.len()
            invariant
                self.wf(),
                0 <= i <= staged.modules@.len(),
                pending@ == unregistered(self@, *staged, i as nat),
            decreases staged.modules.len() - i,
        {
            assert(staged_names(*staged)[i as int] == staged.modules@[i as int].deployed_name@);
            if !self.registered_modules.contains_key(&staged.modules[i].deployed_name) {
                pending.push(i);
            }
            i = i + 1;
        }
        pending
    }

    /// Answers a load of a version that is already resident.
    fn resolve_existing_load(&mut self, staged: &StagedLoad, publish_routes: bool) -> (result:
        Result<Option<LoadOutcome>, EngineError>)
        requires
            old(self).wf(),
            staged.wf(),
            names_free(old(self)@, *staged),
        ensures
            final(self).wf(),
            match result {
                Ok(None) => {
                    &&& resident_count(old(self)@, *staged, staged.workflows@.len()) == 0
                    &&& final(self)@ == old(self)@
                },
                Ok(Some(outcome)) => {
                    &&& resident_count(old(self)@, *staged, staged.workflows@.len())
                        == staged.workflows@.len()
                    &&& forall|i: int|
                        0 <= i < staged.workflows@.len() ==> !#[trigger] manifest_differs(
                            old(self)@,
                            *staged,
                            i,
                        )
                    &&& outcome.record == resident_entry(old(self)@, *staged, 0).workflow
                    &&& !outcome.freshly_loaded
                    &&& outcome.route_changed == moves_a_route(old(self)@, *staged)
                    &&& final(self)@ == if publish_routes && outcome.route_changed {
                        routed_at(old(self)@, *staged)
                    } else {
                        old(self)@
                    }
                },
                Err(error) => {
                    &&& refuses_package(old(self)@, *staged, error)
                    &&& final(self)@ == old(self)@
                },
            },
    {
        let resident = self.count_resident(staged);
        proof {
            lemma_resident_count(self@, *staged, staged.workflows@.len());
        }
        if resident == 0 {
            return Ok(None);
        }
        if resident != staged.workflows.len() {
            return Err(
                load_error(
                    concat7(
                        "package version `",
                        staged.version.text().as_str(),
                        "` is only partially registered (",
                        count_text(resident).as_str(),
                        "/",
                        count_text(staged.workflows.len()).as_str(),
                        " workflow entries)",
                    ),
                ),
            );
        }
        let first_key = VersionKey::new(
            staged.workflows[0].workflow_type.as_str(),
            &staged.version,
        );
        assert(is_resident(self@, *staged, 0));
        assert(staged_types(*staged)[0] == staged.workflows@[0].workflow_type@);
        let differs = self.has_other_manifest(staged);
        let (record, digest): (LoadedWorkflow, String) = match self.by_version.get(&first_key) {
            Some(entry) => (entry.workflow.clone(), entry.manifest_digest.text.clone()),
            None => {
                assert(false);
                return Ok(None);
            },
        };
        // The content hash covers beams only: a re-load with another manifest is not
        // the resident package.
        if differs {
            return Err(
                EngineError::ManifestMismatch {
                    workflow_type: record.workflow_type().to_owned(),
                    version: staged.version,
                    resident_digest: digest,
                    incoming_digest: staged.manifest_digest.text.clone(),
                },
            );
        }
        let route_changed = self.route_would_change(staged);
        if publish_routes && route_changed {
            let types = Self::types_of(staged);
            self.route_all(&types, &staged.version);
        }
        Ok(Some(LoadOutcome { record, freshly_loaded: false, route_changed }))
    }

    /// Decides what becomes of a staged package before anything is registered.
    ///
    /// Re-loading an already-loaded hash registers nothing and answers with the
    /// existing record, but still re-points the route at it where routes are to be
    /// published; loading the currently-routed hash changes nothing.
    ///
    /// # Errors
    ///
    /// [`EngineError::Load`] when a module name belongs to another version or only part
    /// of the package is resident, and [`EngineError::ManifestMismatch`] when the
    /// resident version was loaded with another manifest. The catalog is then
    /// unchanged.
    pub fn begin_load(&mut self, staged: &StagedLoad, publish_routes: bool) -> (result: Result<
        LoadStart,
        EngineError,
    >)
        requires
            old(self).wf(),
            staged.wf(),
        ensures
            final(self).wf(),
            match result {
                Ok(LoadStart::Resident(outcome)) => {
                    &&& names_free(old(self)@, *staged)
                    &&& forall|i: int|
                        0 <= i < staged.workflows@.len() ==> #[trigger] is_resident(
                            old(self)@,
                            *staged,
                            i,
                        )
                    &&& forall|i: int|
                        0 <= i < staged.workflows@.len() ==> !#[trigger] manifest_differs(
                            old(self)@,
                            *staged,
                            i,
                        )
                    &&& outcome.record == resident_entry(old(self)@, *staged, 0).workflow
                    &&& !outcome.freshly_loaded
                    &&& outcome.route_changed == moves_a_route(old(self)@, *staged)
                    &&& final(self)@ == if publish_routes && outcome.route_changed {
                        routed_at(old(self)@, *staged)
                    } else {
                        old(self)@
                    }
                },
                Ok(LoadStart::Stage(load)) => {
                    &&& names_free(old(self)@, *staged)
                    &&& forall|i: int|
                        0 <= i < staged.workflows@.len() ==> !#[trigger] is_resident(
                            old(self)@,
                            *staged,
                            i,
                        )
                    &&& load@ == fresh_load(old(self)@, *staged)
                    &&& load@.fits(*staged)
                    &&& final(self)@ == old(self)@
                },
                Err(error) => {
                    &&& refuses_package(old(self)@, *staged, error)
                    &&& final(self)@ == old(self)@
                },
            },
    {
        match self.validate_staged_module_names(staged) {
            Ok(()) => {},
            Err(error) => {
                return Err(error);
            },
        }
        proof {
            lemma_resident_count(self@, *staged, staged.workflows@.len());
        }
        match self.resolve_existing_load(staged, publish_routes) {
            Err(error) => Err(error),
            Ok(Some(outcome)) => Ok(LoadStart::Resident(outcome)),
            Ok(None) => {
                let pending = self.pending_modules(staged);
                let phase = if pending.len() == 0 {
                    LoadPhase::Verifying { entry: 0 }
                } else {
                    LoadPhase::Registering
                };
                let module_count: usize = staged.modules.len();
                proof {
                    lemma_unregistered(self@, *staged, module_count as nat);
                }
                Ok(LoadStart::Stage(PackageLoad { pending, registered: 0, phase }))
            },
        }
    }

    /// Enters a verified package in the catalog; new starts resolve it where its routes
    /// are published.
    pub fn commit_load(
        &mut self,
        staged: &StagedLoad,
        load: PackageLoad,
        publish_routes: bool,
        loaded_at: Timestamp,
    ) -> (outcome: LoadOutcome)
        requires
            old(self).wf(),
            staged.wf(),
            load@.phase is Verified,
        ensures
            final(self).wf(),
            final(self)@ == committed(old(self)@, *staged, publish_routes, loaded_at),
            outcome.record == staged.record_of(0),
            outcome.record@ == staged.record_view(0),
            outcome.freshly_loaded,
            outcome.route_changed == moves_a_route(old(self)@, *staged),
    {
        let ghost before = self@;
        let route_changed = self.route_would_change(staged);
        let ghost names = staged_names(*staged);
        let mut i: usize = 0;
        proof {
            assert(before.modules =~= with_new_modules(
                before.modules,
                names.take(0),
                staged.version,
            ));
        }
        while i < staged.modules.len()
            invariant
                self.wf(),
                0 <= i <= staged.modules@.len(),
                before == old(self)@,
                names == staged_names(*staged),
                self.package_groups == old(self).package_groups,
                self@ == (CatalogView {
                    modules: with_new_modules(
                        before.modules,
                        names.take(i as int),
                        staged.version,
                    ),
                    ..before
                }),
            decreases staged.modules.len() - i,
        {
            let name = &staged.modules[i].deployed_name;
            assert(names[i as int] == name@);
            let ghost listed = with_new_modules(before.modules, names.take(i as int), staged.version);
            if !self.registered_modules.contains_key(name) {
                self.registered_modules.insert(name.clone(), staged.version);
            }
            proof {
                let longer = with_new_modules(before.modules, names.take(i + 1), staged.version);
                assert forall|n: Seq<char>| longer.contains_key(n) implies longer[n]
                    == self@.modules[n] && self@.modules.contains_key(n) by {
                    lemma_take_contains(names, i as int, n);
                }
                assert forall|n: Seq<char>| self@.modules.contains_key(n) implies
                    longer.contains_key(n) by {
                    lemma_take_contains(names, i as int, n);
                }
                assert(self@.modules =~= longer);
            }
            i = i + 1;
        }
        proof {
            assert(names.take(i as int) =~= names);
        }
        let ghost modules_done = self@;
        let mut k: usize = 0;
        while k < staged.workflows.len()
            invariant
                self.wf(),
                0 <= k <= staged.workflows@.len(),
                before == old(self)@,
                self.package_groups == old(self).package_groups,
                modules_done == (CatalogView {
                    modules: with_new_modules(
                        before.modules,
                        staged_names(*staged),
                        staged.version,
                    ),
                    ..before
                }),
                self@ == (CatalogView {
                    by_version: with_entries(before.by_version, *staged, k as nat, loaded_at),
                    ..modules_done
                }),
            decreases staged.workflows.len() - k,
        {
            let key = VersionKey::new(
                staged.workflows[k].workflow_type.as_str(),
                &staged.version,
            );
            assert(staged_types(*staged)[k as int] == staged.workflows@[k as int].workflow_type@);
            let entry = CatalogEntry {
                workflow: staged.record(k),
                manifest_version: staged.manifest_version.clone(),
                manifest_digest: staged.manifest_digest.clone(),
                loaded_at,
            };
            self.by_version.insert(key, entry);
            k = k + 1;
        }
        let group_key = VersionKey::new(staged.primary_workflow_type.as_str(), &staged.version);
        let group = PackageGroup {
            primary_workflow_type: staged.primary_workflow_type.clone(),
            workflow_types: Self::types_of(staged),
        };
        let ghost group_view = group@;
        self.package_groups.insert(group_key, group);
        proof {
            assert(self@.groups =~= before.groups.insert(
                (staged.primary_workflow_type@, staged.version),
                group_view,
            ));
        }
        if publish_routes {
            let types = Self::types_of(staged);
            self.route_all(&types, &staged.version);
        }
        LoadOutcome { record: staged.record(0), freshly_loaded: true, route_changed }
    }

    /// Publishes every route of a previously staged package group.
    ///
    /// # Errors
    ///
    /// [`EngineError::Load`] when the group is not loaded or one of its workflows is
    /// missing; no route is then changed.
    pub fn publish_package_routes(
        &mut self,
        primary_workflow_type: &str,
        version: &ContentHash,
    ) -> (result: Result<(), EngineError>)
        requires
            old(self).wf(),
        ensures
            final(self).wf(),
            ({
                let key = (primary_workflow_type@, *version);
                let group = old(self)@.groups[key];
                match result {
                    Ok(()) => {
                        &&& old(self)@.groups.contains_key(key)
                        &&& forall|i: int|
                            0 <= i < group.members.len() ==> old(self)@.by_version.contains_key(
                                (#[trigger] group.members[i], *version),
                            )
                        &&& final(self)@ == (CatalogView {
                            routed: with_routes(old(self)@.routed, group.members, *version),
                            ..old(self)@
                        })
                    },
                    Err(error) => {
                        &&& final(self)@ == old(self)@
                        &&& if !old(self)@.groups.contains_key(key) {
                            is_load_error(
                                error,
                                "staged package group `"@ + hash_text(*version)
                                    + "` is not loaded"@,
                            )
                        } else {
                            exists|i: int|
                                {
                                    &&& 0 <= i < group.members.len()
                                    &&& !old(self)@.by_version.contains_key(
                                        (#[trigger] group.members[i], *version),
                                    )
                                    &&& forall|j: int|
                                        0 <= j < i ==> old(self)@.by_version.contains_key(
                                            (#[trigger] group.members[j], *version),
                                        )
                                    &&& is_load_error(
                                        error,
                                        "staged package group `"@ + hash_text(*version)
                                            + "` is missing workflow `"@ + group.members[i] + "`"@,
                                    )
                                }
                        }
                    },
                }
            }),
    {
        let ghost before = self@;
        let key = VersionKey::new(primary_workflow_type, version);
        let members = match self.package_groups.get(&key) {
            Some(group) => clone_texts(&group.workflow_types),
            None => {
                return Err(
                    load_error(
                        concat3(
                            "staged package group `",
                            version.text().as_str(),
                            "` is not loaded",
                        ),
                    ),
                );
            },
        };
        let ghost group = before.groups[key@];
        assert(texts(members@) == group.members);
        let mut i: usize = 0;
        while i < members.len()
            invariant
                self == old(self),
                self.wf(),
                before == self@,
                0 <= i <= members@.len(),
                before.groups.contains_key((primary_workflow_type@, *version)),
                group == before.groups[(primary_workflow_type@, *version)],
                texts(members@) == group.members,
                forall|j: int|
                    0 <= j < i ==> before.by_version.contains_key(
                        (#[trigger] group.members[j], *version),
                    ),
            decreases members.len() - i,
        {
            assert(group.members[i as int] == members@[i as int]@);
            if !self.is_loaded(members[i].as_str(), version) {
                return Err(
                    load_error(
                        concat5(
                            "staged package group `",
                            version.text().as_str(),
                            "` is missing workflow `",
                            members[i].as_str(),
                            "`",
                        ),
                    ),
                );
            }
            i = i + 1;
        }
        self.route_all(&members, version);
        Ok(())
    }
}

/// A module is provided by the runtime itself: its name up to the first `$` is that
/// of a native module.
pub open spec fn native(name: Seq<char>, native_modules: Seq<Seq<char>>) -> bool {
    native_modules.contains(before(name, '$'))
}

/// Whether a module is provided by the runtime itself, so that neither its
/// registration nor its rollback reaches the runtime.
pub fn is_native_module(name: &str, native_modules: &Vec<String>) -> (is_native: bool)
    ensures
        is_native == native(name@, texts(native_modules@)),
{
    holds_text(native_modules, &before_dollar(name).to_owned())
}

/// The names that a package's modules are renamed from and to, among its first
/// modules: those that no native module has.
pub open spec fn renames(package: Package, native_modules: Seq<Seq<char>>, n: nat) -> Seq<
    (Seq<char>, Seq<char>),
>
    decreases n,
{
    if n == 0 {
        Seq::empty()
    } else {
        let before = renames(package, native_modules, (n - 1) as nat);
        let name = package.beams@[n - 1].name@;
        if native_modules.contains(name) {
            before
        } else {
            before.push((name, deployed(name, package.content_hash)))
        }
    }
}

/// The renames that registering a package's modules applies.
pub fn package_renames(package: &Package, native_modules: &Vec<String>) -> (pairs: Vec<
    (String, String),
>)
    ensures
        pairs@.map_values(|pair: (String, String)| (pair.0@, pair.1@)) == renames(
            *package,
            texts(native_modules@),
            package.beams@.len(),
        ),
{
    let mut pairs: Vec<(String, String)> = Vec::new();
    let mut i: usize = 0;
    let ghost text_of = |pair: (String, String)| (pair.0@, pair.1@);
    proof {
        assert(pairs@.map_values(text_of) =~= Seq::empty());
    }
    while i < package.beams.len()
        invariant
            0 <= i <= package.beams@.len(),
            text_of == (|pair: (String, String)| (pair.0@, pair.1@)),
            pairs@.map_values(text_of) == renames(*package, texts(native_modules@), i as nat),
        decreases package.beams.len() - i,
    {
        let name = &package.beams[i].name;
        if !holds_text(native_modules, name) {
            let ghost listed = pairs@;
            let pair = (name.clone(), deployed_name(name.as_str(), &package.content_hash));
            let ghost entry = text_of(pair);
            pairs.push(pair);
            proof {
                assert(pairs@.map_values(text_of) =~= listed.map_values(text_of).push(entry));
            }
        }
        i = i + 1;
    }
    pairs
}

/// Reports an entry function that the deployed entry module does not export.
pub fn entry_not_exported(entry_module: &str, entry_function: &str) -> (error: EngineError)
    ensures
        is_load_error(
            error,
            "deployed entry module `"@ + entry_module@ + "` does not export entry function `"@
                + entry_function@ + "`"@,
        ),
{
    load_error(
        concat5(
            "deployed entry module `",
            entry_module,
            "` does not export entry function `",
            entry_function,
            "`",
        ),
    )
}

} // verus!
