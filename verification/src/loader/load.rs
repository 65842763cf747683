//! Package staging: validated load units shared by the workflow catalog.

use vstd::prelude::*;
use vstd::string::*;

use crate::clock::TimeSpan;
use crate::content_hash::ContentHash;
use crate::error::{is_load_error, load_error, EngineError};
use crate::package::{
    deployed, deployed_name, has_module, Manifest, ManifestDigest, ManifestVersion, Package,
};
use crate::text::{concat2, concat3, concat5, join, joined, texts};

verus! {

/// Outcome of one package load, computed inside the catalog mutation lock.
///
/// `freshly_loaded` distinguishes a real registration from an idempotent
/// re-load of a resident hash; `route_changed` reports whether the call
/// re-pointed routing (false means the hash was already route-active and the
/// load was a full no-op).
#[derive(Debug, PartialEq, Eq)]
pub struct LoadOutcome {
    /// The loaded (or already-resident) workflow record.
    pub record: LoadedWorkflow,
    /// True when this call registered the version; false on idempotent re-load.
    pub freshly_loaded: bool,
    /// True when this call re-pointed the type's route at the version.
    pub route_changed: bool,
}

/// Workflow package entrypoint registered in the embedded runtime.
#[derive(Debug, PartialEq, Eq)]
pub struct LoadedWorkflow {
    /// Logical workflow type.
    pub(crate) workflow_type: String,
    /// Namespaced module name to spawn.
    pub(crate) deployed_entry_module: String,
    /// Exported function to spawn.
    pub(crate) entry_function: String,
    /// Content hash of the package version.
    pub(crate) version: ContentHash,
    /// Timeout that arms a deadline.
    pub(crate) declared_timeout: Option<TimeSpan>,
}

/// What a loaded-workflow record holds.
pub struct LoadedWorkflowView {
    /// Logical workflow type.
    pub workflow_type: Seq<char>,
    /// Namespaced module name to spawn.
    pub deployed_entry_module: Seq<char>,
    /// Exported function to spawn.
    pub entry_function: Seq<char>,
    /// Content hash of the package version.
    pub version: ContentHash,
    /// Timeout that arms a deadline.
    pub declared_timeout: Option<TimeSpan>,
}

impl View for LoadedWorkflow {
    type V = LoadedWorkflowView;

    closed spec fn view(&self) -> LoadedWorkflowView {
        LoadedWorkflowView {
            workflow_type: self.workflow_type@,
            deployed_entry_module: self.deployed_entry_module@,
            entry_function: self.entry_function@,
            version: self.version,
            declared_timeout: self.declared_timeout,
        }
    }
}

impl Clone for LoadedWorkflow {
    fn clone(&self) -> (copy: Self)
        ensures
            copy == *self,
    {
        LoadedWorkflow {
            workflow_type: self.workflow_type.clone(),
            deployed_entry_module: self.deployed_entry_module.clone(),
            entry_function: self.entry_function.clone(),
            version: self.version,
            declared_timeout: self.declared_timeout,
        }
    }
}

impl LoadedWorkflow {
    /// Assembles a loaded-workflow record from already-validated parts.
    ///
    /// `declared_timeout` is the entry's explicitly authored workflow timeout, or
    /// `None` when the package's identity does not commit to one. It is the sole
    /// input the start path consults to decide whether to arm a deadline.
    pub fn from_parts(
        workflow_type: String,
        deployed_entry_module: String,
        entry_function: String,
        version: ContentHash,
        declared_timeout: Option<TimeSpan>,
    ) -> (record: Self)
        ensures
            record@ == (LoadedWorkflowView {
                workflow_type: workflow_type@,
                deployed_entry_module: deployed_entry_module@,
                entry_function: entry_function@,
                version,
                declared_timeout,
            }),
    {
        LoadedWorkflow {
            workflow_type,
            deployed_entry_module,
            entry_function,
            version,
            declared_timeout,
        }
    }

    /// Logical workflow type from the package manifest entry module.
    pub fn workflow_type(&self) -> (text: &str)
        ensures
            text@ == self@.workflow_type,
    {
        self.workflow_type.as_str()
    }

    /// Namespaced module name to spawn for this package version.
    pub fn deployed_entry_module(&self) -> (text: &str)
        ensures
            text@ == self@.deployed_entry_module,
    {
        self.deployed_entry_module.as_str()
    }

    /// Exported function to spawn for this package version.
    pub fn entry_function(&self) -> (text: &str)
        ensures
            text@ == self@.entry_function,
    {
        self.entry_function.as_str()
    }

    /// Content-hash version identifying this package.
    pub fn version(&self) -> (version: &ContentHash)
        ensures
            *version == self@.version,
    {
        &self.version
    }

    /// The entry's explicitly authored workflow timeout, or `None`.
    ///
    /// The start path arms a deadline exactly when this is `Some`.
    pub fn declared_timeout(&self) -> (timeout: Option<TimeSpan>)
        ensures
            timeout == self@.declared_timeout,
    {
        self.declared_timeout
    }
}

/// One workflow entry staged from a package manifest.
#[derive(Debug, PartialEq, Eq)]
pub struct StagedWorkflow {
    /// Logical workflow type.
    pub workflow_type: String,
    /// Namespaced module name to spawn.
    pub deployed_entry_module: String,
    /// Exported function to spawn.
    pub entry_function: String,
    /// Timeout that arms a deadline.
    pub declared_timeout: Option<TimeSpan>,
}

/// One deployable module of a staged package.
#[derive(Debug, PartialEq, Eq)]
pub struct StagedModule<'a> {
    /// Name under which the module is deployed.
    pub deployed_name: String,
    /// Compiled code.
    pub bytes: &'a Vec<u8>,
}

/// One package validated and decomposed into deployable module units.
#[derive(Debug, PartialEq, Eq)]
pub struct StagedLoad<'a> {
    /// Primary workflow type, which names the archive group.
    pub primary_workflow_type: String,
    /// The workflow entries, the primary one first.
    pub workflows: Vec<StagedWorkflow>,
    /// Author-declared version label.
    pub manifest_version: ManifestVersion,
    /// Canonical digest of the manifest.
    pub manifest_digest: ManifestDigest,
    /// Content hash of the package version.
    pub version: ContentHash,
    /// The modules to deploy, in the package's order.
    pub modules: Vec<StagedModule<'a>>,
}

/// What a manifest says of one workflow entry.
pub struct EntryView {
    /// Logical workflow type.
    pub workflow_type: Seq<char>,
    /// Module that holds the entry function.
    pub entry_module: Seq<char>,
    /// Function that runs the workflow.
    pub entry_function: Seq<char>,
    /// Timeout that the manifest carries.
    pub timeout: Option<TimeSpan>,
}

/// The workflow entries of a manifest: the primary one, then the additional ones.
pub open spec fn manifest_entries(manifest: Manifest) -> Seq<EntryView> {
    Seq::new(
        1 + manifest.additional_workflows@.len(),
        |i: int|
            if i == 0 {
                EntryView {
                    workflow_type: manifest.entry_module@,
                    entry_module: manifest.entry_module@,
                    entry_function: manifest.entry_function@,
                    timeout: manifest.timeout,
                }
            } else {
                let entry = manifest.additional_workflows@[i - 1];
                EntryView {
                    workflow_type: entry.workflow_type@,
                    entry_module: entry.entry_module@,
                    entry_function: entry.entry_function@,
                    timeout: entry.timeout,
                }
            },
    )
}

/// An earlier entry declares the same workflow type.
pub open spec fn entry_repeats(entries: Seq<EntryView>, i: int) -> bool {
    exists|j: int| 0 <= j < i && (#[trigger] entries[j]).workflow_type == entries[i].workflow_type
}

/// An entry can be staged: its type is new and its module is in the package.
pub open spec fn entry_is_sound(package: Package, i: int) -> bool {
    let entries = manifest_entries(package.manifest);
    !entry_repeats(entries, i) && has_module(package.beams@, entries[i].entry_module)
}

/// Why an entry cannot be staged.
pub open spec fn unsound_entry_text(package: Package, i: int) -> Seq<char> {
    let entries = manifest_entries(package.manifest);
    if entry_repeats(entries, i) {
        "package declares workflow type `"@ + entries[i].workflow_type + "` more than once"@
    } else {
        "manifest entry module `"@ + entries[i].entry_module + "` for workflow `"@
            + entries[i].workflow_type + "` is absent from package beams"@
    }
}

/// What staging makes of an entry.
pub open spec fn staged_entry(package: Package, i: int, staged: StagedWorkflow) -> bool {
    let entry = manifest_entries(package.manifest)[i];
    &&& staged.workflow_type@ == entry.workflow_type
    &&& staged.deployed_entry_module@ == deployed(entry.entry_module, package.content_hash)
    &&& staged.entry_function@ == entry.entry_function
    &&& staged.declared_timeout == package.arming(entry.timeout)
}

/// What staging makes of a whole package.
pub open spec fn stages(package: Package, digest: ManifestDigest, staged: StagedLoad) -> bool {
    &&& staged.primary_workflow_type@ == package.manifest.entry_module@
    &&& staged.workflows@.len() == manifest_entries(package.manifest).len()
    &&& forall|i: int|
        0 <= i < staged.workflows@.len() ==> staged_entry(
            package,
            i,
            #[trigger] staged.workflows@[i],
        )
    &&& staged.manifest_version == package.manifest.version
    &&& staged.manifest_digest == digest
    &&& staged.version == package.content_hash
    &&& staged.modules@.len() == package.beams@.len()
    &&& forall|i: int|
        0 <= i < staged.modules@.len() ==> (#[trigger] staged.modules@[i]).deployed_name@
            == deployed(package.beams@[i].name@, package.content_hash)
            && staged.modules@[i].bytes == package.beams@[i].bytes
}

impl<'a> StagedLoad<'a> {
    /// The staged package is usable by the catalog: its first workflow is the primary
    /// one, and no two workflows have the same type.
    pub open spec fn wf(&self) -> bool {
        &&& self.workflows@.len() > 0
        &&& self.workflows@[0].workflow_type@ == self.primary_workflow_type@
        &&& forall|i: int, j: int|
            0 <= i < j < self.workflows@.len() ==> (#[trigger] self.workflows@[i]).workflow_type@
                != (#[trigger] self.workflows@[j]).workflow_type@
    }

    /// Whether a workflow type is already staged.
    fn is_staged(workflows: &Vec<StagedWorkflow>, workflow_type: &String) -> (staged: bool)
        ensures
            staged == exists|j: int|
                0 <= j < workflows@.len() && (#[trigger] workflows@[j]).workflow_type@
                    == workflow_type@,
    {
        let mut i: usize = 0;
        while i < workflows.len()
            invariant
                0 <= i <= workflows@.len(),
                forall|j: int|
                    0 <= j < i ==> (#[trigger] workflows@[j]).workflow_type@ != workflow_type@,
            decreases workflows.len() - i,
        {
            if workflows[i].workflow_type == *workflow_type {
                return true;
            }
            i = i + 1;
        }
        false
    }

    /// Validates a package and decomposes it into deployable units.
    ///
    /// `digest` is the canonical digest of the package's manifest, or why it could
    /// not be computed.
    ///
    /// # Errors
    ///
    /// [`EngineError::Load`] for the first entry that repeats a workflow type or
    /// whose module is not in the package, and [`EngineError::Package`] where the
    /// entries are sound and the digest is missing.
    pub fn new(package: &'a Package, digest: Result<ManifestDigest, String>) -> (staged: Result<
        Self,
        EngineError,
    >)
        requires
            package.manifest.additional_workflows@.len() < usize::MAX,
        ensures
            match staged {
                Ok(staged) => {
                    &&& forall|i: int|
                        0 <= i < manifest_entries(package.manifest).len()
                            ==> #[trigger] entry_is_sound(*package, i)
                    &&& digest is Ok
                    &&& stages(*package, digest->Ok_0, staged)
                    &&& staged.wf()
                },
                Err(error) => {
                    ||| exists|i: int|
                        0 <= i < manifest_entries(package.manifest).len()
                            && !(#[trigger] entry_is_sound(*package, i)) && (forall|j: int|
                            0 <= j < i ==> #[trigger] entry_is_sound(*package, j))
                            && is_load_error(error, unsound_entry_text(*package, i))
                    ||| {
                        &&& forall|i: int|
                            0 <= i < manifest_entries(package.manifest).len()
                                ==> #[trigger] entry_is_sound(*package, i)
                        &&& digest matches Err(reason) && error == EngineError::Package { reason }
                    }
                },
            },
    {
        let manifest = &package.manifest;
        let ghost entries = manifest_entries(package.manifest);
        let mut workflows: Vec<StagedWorkflow> = Vec::new();
        let count: usize = 1 + manifest.additional_workflows.len();
        let mut i: usize = 0;
        while i < count
            invariant
                0 <= i <= count,
                count == entries.len(),
                count == 1 + manifest.additional_workflows@.len(),
                entries == manifest_entries(package.manifest),
                manifest == &package.manifest,
                workflows@.len() == i,
                forall|j: int|
                    0 <= j < i ==> staged_entry(*package, j, #[trigger] workflows@[j]),
                forall|j: int| 0 <= j < i ==> #[trigger] entry_is_sound(*package, j),
            decreases count - i,
        {
            let (workflow_type, entry_module, entry_function, entry_timeout): (
                &String,
                &String,
                &String,
                Option<TimeSpan>,
            ) = if i == 0 {
                (
                    &manifest.entry_module,
                    &manifest.entry_module,
                    &manifest.entry_function,
                    manifest.timeout,
                )
            } else {
                let entry = &manifest.additional_workflows[i - 1];
                (&entry.workflow_type, &entry.entry_module, &entry.entry_function, entry.timeout)
            };
            proof {
                assert(entries[i as int].workflow_type == workflow_type@);
                assert(entries[i as int].entry_module == entry_module@);
                assert forall|j: int| 0 <= j < i implies (#[trigger] workflows@[j]).workflow_type@
                    == entries[j].workflow_type by {
                    assert(staged_entry(*package, j, workflows@[j]));
                }
            }
            let repeated = Self::is_staged(&workflows, workflow_type);
            proof {
                if repeated {
                    let j = choose|j: int|
                        0 <= j < workflows@.len() && (#[trigger] workflows@[j]).workflow_type@
                            == workflow_type@;
                    assert(entries[j].workflow_type == entries[i as int].workflow_type);
                    assert(entry_repeats(entries, i as int));
                } else if entry_repeats(entries, i as int) {
                    let j = choose|j: int|
                        0 <= j < i && (#[trigger] entries[j]).workflow_type
                            == entries[i as int].workflow_type;
                    assert(workflows@[j].workflow_type@ == workflow_type@);
                }
            }
            if repeated {
                proof {
                    assert(!entry_is_sound(*package, i as int));
                }
                return Err(
                    load_error(
                        concat3(
                            "package declares workflow type `",
                            workflow_type.as_str(),
                            "` more than once",
                        ),
                    ),
                );
            }
            if !package.holds_module(entry_module) {
                proof {
                    assert(!entry_is_sound(*package, i as int));
                }
                return Err(
                    load_error(
                        concat5(
                            "manifest entry module `",
                            entry_module.as_str(),
                            "` for workflow `",
                            workflow_type.as_str(),
                            "` is absent from package beams",
                        ),
                    ),
                );
            }
            let ghost before = workflows@;
            workflows.push(
                StagedWorkflow {
                    workflow_type: workflow_type.clone(),
                    deployed_entry_module: deployed_name(
                        entry_module.as_str(),
                        &package.content_hash,
                    ),
                    entry_function: entry_function.clone(),
                    declared_timeout: package.declared_entry_timeout(entry_timeout),
                },
            );
            proof {
                assert forall|j: int| 0 <= j < i + 1 implies staged_entry(
                    *package,
                    j,
                    #[trigger] workflows@[j],
                ) by {
                    if j < i {
                        assert(workflows@[j] == before[j]);
                    }
                }
            }
            i = i + 1;
        }
        let mut modules: Vec<StagedModule<'a>> = Vec::new();
        let mut k: usize = 0;
        while k < package.beams.len()
            invariant
                0 <= k <= package.beams@.len(),
                modules@.len() == k,
                forall|j: int|
                    0 <= j < k ==> (#[trigger] modules@[j]).deployed_name@ == deployed(
                        package.beams@[j].name@,
                        package.content_hash,
                    ) && modules@[j].bytes == package.beams@[j].bytes,
            decreases package.beams.len() - k,
        {
            let beam = &package.beams[k];
            modules.push(
                StagedModule {
                    deployed_name: deployed_name(beam.name.as_str(), &package.content_hash),
                    bytes: &beam.bytes,
                },
            );
            k = k + 1;
        }
        match digest {
            Err(reason) => Err(EngineError::Package { reason }),
            Ok(digest) => {
                let staged = StagedLoad {
                    primary_workflow_type: manifest.entry_module.clone(),
                    workflows,
                    manifest_version: manifest.version.clone(),
                    manifest_digest: digest,
                    version: package.content_hash,
                    modules,
                };
                proof {
                    assert(staged_entry(*package, 0, staged.workflows@[0]));
                    assert forall|a: int, b: int| 0 <= a < b < staged.workflows@.len() implies (
                    #[trigger] staged.workflows@[a]).workflow_type@ != (
                    #[trigger] staged.workflows@[b]).workflow_type@ by {
                        assert(entry_is_sound(*package, b));
                        assert(staged_entry(*package, a, staged.workflows@[a]));
                        assert(staged_entry(*package, b, staged.workflows@[b]));
                        assert(entries[a].workflow_type != entries[b].workflow_type);
                    }
                }
                Ok(staged)
            },
        }
    }

    /// What the loaded-workflow record of an entry holds.
    pub open spec fn record_view(&self, i: int) -> LoadedWorkflowView {
        LoadedWorkflowView {
            workflow_type: self.workflows@[i].workflow_type@,
            deployed_entry_module: self.workflows@[i].deployed_entry_module@,
            entry_function: self.workflows@[i].entry_function@,
            version: self.version,
            declared_timeout: self.workflows@[i].declared_timeout,
        }
    }

    /// The loaded-workflow record of an entry.
    pub closed spec fn record_of(&self, i: int) -> LoadedWorkflow {
        LoadedWorkflow {
            workflow_type: self.workflows@[i].workflow_type,
            deployed_entry_module: self.workflows@[i].deployed_entry_module,
            entry_function: self.workflows@[i].entry_function,
            version: self.version,
            declared_timeout: self.workflows@[i].declared_timeout,
        }
    }

    /// The loaded-workflow record of an entry.
    pub fn record(&self, i: usize) -> (record: LoadedWorkflow)
        requires
            i < self.workflows@.len(),
        ensures
            record == self.record_of(i as int),
            record@ == self.record_view(i as int),
    {
        let entry = &self.workflows[i];
        LoadedWorkflow {
            workflow_type: entry.workflow_type.clone(),
            deployed_entry_module: entry.deployed_entry_module.clone(),
            entry_function: entry.entry_function.clone(),
            version: self.version,
            declared_timeout: entry.declared_timeout,
        }
    }

    /// Loaded-workflow records this package commits atomically.
    pub fn records(&self) -> (records: Vec<LoadedWorkflow>)
        ensures
            records@.len() == self.workflows@.len(),
            forall|i: int|
                0 <= i < records@.len() ==> #[trigger] records@[i] == self.record_of(i)
                    && records@[i]@ == self.record_view(i),
    {
        let mut records: Vec<LoadedWorkflow> = Vec::new();
        let mut i: usize = 0;
        while i < self.workflows.len()
            invariant
                0 <= i <= self.workflows@.len(),
                records@.len() == i,
                forall|j: int|
                    0 <= j < i ==> #[trigger] records@[j] == self.record_of(j) && records@[j]@
                        == self.record_view(j),
            decreases self.workflows.len() - i,
        {
            records.push(self.record(i));
            i = i + 1;
        }
        records
    }
}

/// What is said of rollbacks that failed: nothing where every registration was
/// unwound cleanly.
pub open spec fn rollback_text(failures: Seq<Seq<char>>) -> Seq<char> {
    if failures.len() == 0 {
        Seq::empty()
    } else {
        "; rollback failed for "@ + joined(failures, ", "@)
    }
}

/// Describes the rollbacks that failed after a load step was given up.
///
/// The text is empty when every registration was unwound cleanly.
pub fn rollback_registered(failures: &Vec<String>) -> (text: String)
    ensures
        text@ == rollback_text(texts(failures@)),
{
    if failures.len() == 0 {
        String::new()
    } else {
        concat2("; rollback failed for ", join(failures, ", ").as_str())
    }
}

impl<'a> StagedLoad<'a> {
    /// The record of a staged entry is of that entry: its type, its deployed module, its
    /// function and its timeout, on the version of the package.
    pub proof fn a_record_is_that_of_its_entry(&self, i: int)
        ensures
            self.record_of(i)@ == (LoadedWorkflowView {
                workflow_type: self.workflows@[i].workflow_type@,
                deployed_entry_module: self.workflows@[i].deployed_entry_module@,
                entry_function: self.workflows@[i].entry_function@,
                version: self.version,
                declared_timeout: self.workflows@[i].declared_timeout,
            }),
            self.record_view(i) == self.record_of(i)@,
    {
    }
}

} // verus!
