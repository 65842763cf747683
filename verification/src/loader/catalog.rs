//! Workflow package catalog.
//!
//! The catalog is the single routing authority for loaded workflow packages. A
//! mutation is decided in full before anything is changed, so a refused one
//! leaves the catalog as it was; in-flight runs keep the version they already
//! resolved, because loads never unregister anything.

use vstd::prelude::*;
use vstd::string::*;

use crate::clock::Timestamp;
use crate::content_hash::{canonical_text_determines_the_hash, hash_text, ContentHash};
use crate::error::{is_load_error, load_error, EngineError};
use crate::event::PackageVersion;
use crate::loader::load::LoadedWorkflow;
use crate::loader::package_version_of;
use crate::package::{ManifestDigest, ManifestVersion};
use crate::sort::{lemma_sorted_strings, sort_texts, sorted_texts};
use crate::table::{lemma_entry_map, position_of, Table, TableKey};
use crate::text::{concat7, join, joined, texts};

/// Staging, verifying and publishing packages.
pub mod catalog_load;
/// What every catalog operation keeps.
pub mod catalog_laws;
/// Listing the loaded versions.
pub mod catalog_listing;
/// Unloading a version and putting it back.
pub mod catalog_unload;

verus! {

impl TableKey for String {
    fn same(&self, other: &Self) -> (same: bool) {
        *self == *other
    }
}

/// A workflow type at a package version.
#[derive(Debug, PartialEq, Eq)]
pub struct VersionKey {
    /// Logical workflow type.
    pub workflow_type: String,
    /// Content hash of the package version.
    pub version: ContentHash,
}

impl View for VersionKey {
    type V = (Seq<char>, ContentHash);

    open spec fn view(&self) -> (Seq<char>, ContentHash) {
        (self.workflow_type@, self.version)
    }
}

impl TableKey for VersionKey {
    fn same(&self, other: &Self) -> (same: bool) {
        self.workflow_type == other.workflow_type && self.version.same(&other.version)
    }
}

impl VersionKey {
    /// The key of a workflow type at a version.
    pub fn new(workflow_type: &str, version: &ContentHash) -> (key: Self)
        ensures
            key@ == (workflow_type@, *version),
    {
        VersionKey { workflow_type: workflow_type.to_owned(), version: *version }
    }
}

/// The workflows that one archive implements.
#[derive(Debug, PartialEq, Eq)]
pub struct PackageGroup {
    /// Primary workflow type, under which the group is kept.
    pub primary_workflow_type: String,
    /// Every workflow type of the archive.
    pub workflow_types: Vec<String>,
}

/// What a group of workflows says.
pub struct GroupView {
    /// Primary workflow type.
    pub primary: Seq<char>,
    /// Every workflow type of the archive.
    pub members: Seq<Seq<char>>,
}

impl View for PackageGroup {
    type V = GroupView;

    open spec fn view(&self) -> GroupView {
        GroupView { primary: self.primary_workflow_type@, members: texts(self.workflow_types@) }
    }
}

/// One loaded package version retained by the catalog.
#[derive(Debug, PartialEq, Eq)]
pub struct CatalogEntry {
    /// The loaded workflow.
    pub workflow: LoadedWorkflow,
    /// Author-declared version label of the manifest.
    pub manifest_version: ManifestVersion,
    /// Canonical digest of the manifest this version was loaded with. The content
    /// hash covers beams only, so this digest is what detects a re-load of the
    /// same hash with another manifest.
    pub manifest_digest: ManifestDigest,
    /// When this version was loaded.
    pub loaded_at: Timestamp,
}

/// What the catalog holds.
pub struct CatalogView {
    /// The loaded versions.
    pub by_version: Map<(Seq<char>, ContentHash), CatalogEntry>,
    /// The version that new starts of each type resolve.
    pub routed: Map<Seq<char>, ContentHash>,
    /// The version that each deployed module belongs to.
    pub modules: Map<Seq<char>, ContentHash>,
    /// The archives, by primary workflow type and version.
    pub groups: Map<(Seq<char>, ContentHash), GroupView>,
    /// How many starts hold each version.
    pub pins: Map<(Seq<char>, ContentHash), usize>,
}

/// Workflow package catalog.
pub struct WorkflowCatalog {
    /// The loaded versions.
    pub(crate) by_version: Table<VersionKey, CatalogEntry>,
    /// Explicit route pointer per workflow type.
    pub(crate) routed: Table<String, ContentHash>,
    /// Deployed-module collision index over every loaded version.
    pub(crate) registered_modules: Table<String, ContentHash>,
    /// Archive membership, kept independently from shared modules.
    pub(crate) package_groups: Table<VersionKey, PackageGroup>,
    /// Starts that resolved a version but have not yet registered a handle.
    pub(crate) pinned_starts: Table<VersionKey, usize>,
}

impl View for WorkflowCatalog {
    type V = CatalogView;

    closed spec fn view(&self) -> CatalogView {
        CatalogView {
            by_version: self.by_version@,
            routed: self.routed@,
            modules: self.registered_modules@,
            groups: self.package_groups@.map_values(|group: PackageGroup| group@),
            pins: self.pinned_starts@,
        }
    }
}

/// A resolved workflow that holds its in-flight start pin.
///
/// The pin keeps the resolved version visible to unload verification until the
/// start has registered a handle, or failed, and the pin is released.
#[derive(Debug, PartialEq, Eq)]
pub struct PinnedWorkflow {
    pub(crate) workflow: LoadedWorkflow,
}

impl PinnedWorkflow {
    /// The workflow that the pin holds.
    pub closed spec fn pinned(&self) -> LoadedWorkflow {
        self.workflow
    }

    /// The version that the pin holds.
    pub open spec fn key(&self) -> (Seq<char>, ContentHash) {
        (self.pinned()@.workflow_type, self.pinned()@.version)
    }

    /// The resolved workflow record.
    pub fn workflow(&self) -> (workflow: &LoadedWorkflow)
        ensures
            *workflow == self.pinned(),
    {
        &self.workflow
    }
}

/// The entry that new starts of a type resolve, if there is one.
pub open spec fn routed_entry(catalog: CatalogView, workflow_type: Seq<char>) -> Option<
    CatalogEntry,
> {
    if catalog.routed.contains_key(workflow_type) && catalog.by_version.contains_key(
        (workflow_type, catalog.routed[workflow_type]),
    ) {
        Some(catalog.by_version[(workflow_type, catalog.routed[workflow_type])])
    } else {
        None
    }
}

/// The number of starts that hold a version.
pub open spec fn pin_count(
    pins: Map<(Seq<char>, ContentHash), usize>,
    key: (Seq<char>, ContentHash),
) -> int {
    if pins.contains_key(key) {
        pins[key] as int
    } else {
        0
    }
}

/// A type's loaded versions, as the texts of their hashes: some listing that holds
/// each loaded version of the type once, in the order of the texts.
pub open spec fn lists_versions(
    by_version: Map<(Seq<char>, ContentHash), CatalogEntry>,
    workflow_type: Seq<char>,
    listing: Seq<Seq<char>>,
) -> bool {
    &&& sorted_texts(listing)
    &&& listing.no_duplicates()
    &&& forall|version: ContentHash|
        by_version.contains_key((workflow_type, version)) <==> listing.contains(
            #[trigger] hash_text(version),
        )
    &&& forall|text: Seq<char>| #[trigger]
        listing.contains(text) ==> exists|version: ContentHash| text == #[trigger] hash_text(version)
}

/// How a listing of versions is rendered.
pub open spec fn version_listing(listing: Seq<Seq<char>>) -> Seq<char> {
    if listing.len() == 0 {
        "none"@
    } else {
        joined(listing, ", "@)
    }
}

/// The error reports a version as not loaded and names those that are.
pub open spec fn is_unknown_version(
    error: EngineError,
    catalog: CatalogView,
    workflow_type: Seq<char>,
    version: ContentHash,
) -> bool {
    &&& error matches EngineError::UnknownVersion {
        workflow_type: named,
        version: asked,
        loaded,
    }
    &&& named@ == workflow_type
    &&& asked == version
    &&& exists|listing: Seq<Seq<char>>| #[trigger]
        lists_versions(catalog.by_version, workflow_type, listing) && loaded@ == version_listing(
            listing,
        )
}

/// Every group is kept under its own primary type.
pub open spec fn under_primary(groups: Map<(Seq<char>, ContentHash), GroupView>) -> bool {
    forall|key: (Seq<char>, ContentHash)| #[trigger]
        groups.contains_key(key) ==> key.0 == groups[key].primary
}

/// Every entry is kept under the type and the version of its workflow.
pub open spec fn under_own_key(by_version: Map<(Seq<char>, ContentHash), CatalogEntry>) -> bool {
    forall|key: (Seq<char>, ContentHash)| #[trigger]
        by_version.contains_key(key) ==> key == (
            by_version[key].workflow@.workflow_type,
            by_version[key].workflow@.version,
        )
}

impl WorkflowCatalog {
    /// Every entry of a well-formed catalog is kept under the type and the version of its
    /// workflow, so that a start pins the version that it asked for.
    pub proof fn entries_are_kept_under_their_own_key(&self)
        requires
            self.wf(),
        ensures
            under_own_key(self@.by_version),
    {
    }

    /// Every group of a well-formed catalog is kept under its own primary type.
    pub proof fn groups_are_kept_under_their_primary(&self)
        requires
            self.wf(),
        ensures
            under_primary(self@.groups),
    {
    }

    /// The catalog's tables hold no key twice, groups are kept under their primary
    /// types, and entries under their own types and versions.
    pub closed spec fn wf(&self) -> bool {
        &&& under_primary(self@.groups)
        &&& under_own_key(self@.by_version)
        &&& self.by_version.wf()
        &&& self.routed.wf()
        &&& self.registered_modules.wf()
        &&& self.package_groups.wf()
        &&& self.pinned_starts.wf()
    }

    /// Creates an empty catalog.
    pub fn new() -> (catalog: Self)
        ensures
            catalog.wf(),
            catalog@.by_version == Map::<(Seq<char>, ContentHash), CatalogEntry>::empty(),
            catalog@.routed == Map::<Seq<char>, ContentHash>::empty(),
            catalog@.modules == Map::<Seq<char>, ContentHash>::empty(),
            catalog@.groups == Map::<(Seq<char>, ContentHash), GroupView>::empty(),
            catalog@.pins == Map::<(Seq<char>, ContentHash), usize>::empty(),
    {
        let catalog = WorkflowCatalog {
            by_version: Table::new(),
            routed: Table::new(),
            registered_modules: Table::new(),
            package_groups: Table::new(),
            pinned_starts: Table::new(),
        };
        assert(catalog@.groups =~= Map::empty());
        catalog
    }

    /// Workflow currently routed for `workflow_type`, without a start pin.
    pub fn routed(&self, workflow_type: &str) -> (workflow: Option<LoadedWorkflow>)
        requires
            self.wf(),
        ensures
            match workflow {
                Some(workflow) => routed_entry(self@, workflow_type@) matches Some(entry) && workflow
                    == entry.workflow,
                None => routed_entry(self@, workflow_type@) is None,
            },
    {
        match self.routed.get(&workflow_type.to_owned()) {
            Some(version) => {
                match self.by_version.get(&VersionKey::new(workflow_type, version)) {
                    Some(entry) => Some(entry.workflow.clone()),
                    None => None,
                }
            },
            None => None,
        }
    }

    /// Durable textual version currently routed for `workflow_type`.
    pub fn routed_version(&self, workflow_type: &str) -> (version: Option<PackageVersion>)
        requires
            self.wf(),
        ensures
            match version {
                Some(version) => routed_entry(self@, workflow_type@) matches Some(entry)
                    && version.text@ == hash_text(entry.workflow@.version),
                None => routed_entry(self@, workflow_type@) is None,
            },
    {
        match self.routed(workflow_type) {
            Some(workflow) => Some(package_version_of(workflow.version())),
            None => None,
        }
    }

    /// Exact `(type, version)` lookup, without a start pin.
    pub fn get(&self, workflow_type: &str, version: &ContentHash) -> (workflow: Option<
        LoadedWorkflow,
    >)
        requires
            self.wf(),
        ensures
            match workflow {
                Some(workflow) => self@.by_version.contains_key((workflow_type@, *version))
                    && workflow == self@.by_version[(workflow_type@, *version)].workflow,
                None => !self@.by_version.contains_key((workflow_type@, *version)),
            },
    {
        match self.by_version.get(&VersionKey::new(workflow_type, version)) {
            Some(entry) => Some(entry.workflow.clone()),
            None => None,
        }
    }

    /// Whether a version of a type is loaded.
    pub fn is_loaded(&self, workflow_type: &str, version: &ContentHash) -> (loaded: bool)
        requires
            self.wf(),
        ensures
            loaded == self@.by_version.contains_key((workflow_type@, *version)),
    {
        self.by_version.contains_key(&VersionKey::new(workflow_type, version))
    }

    /// The keys of the loaded versions, in the order in which they were loaded.
    pub closed spec fn loaded_keys(&self) -> Seq<(Seq<char>, ContentHash)> {
        self.by_version.entries().map_values(|entry: (VersionKey, CatalogEntry)| entry.0@)
    }

    /// Every retained loaded workflow record, each once.
    pub fn workflows(&self) -> (workflows: Vec<LoadedWorkflow>)
        requires
            self.wf(),
        ensures
            workflows@.len() == self.loaded_keys().len(),
            self.loaded_keys().no_duplicates(),
            forall|key: (Seq<char>, ContentHash)|
                self@.by_version.contains_key(key) <==> #[trigger] self.loaded_keys().contains(key),
            forall|i: int|
                0 <= i < workflows@.len() ==> #[trigger] workflows@[i]
                    == self@.by_version[self.loaded_keys()[i]].workflow,
    {
        let mut workflows: Vec<LoadedWorkflow> = Vec::new();
        proof {
            self.lemma_loaded_keys();
            lemma_entry_map(self.by_version.entries());
        }
        let mut i: usize = 0;
        while i < self.by_version.len()
            invariant
                0 <= i <= self.by_version.entries().len(),
                workflows@.len() == i,
                forall|j: int|
                    0 <= j < i ==> #[trigger] workflows@[j]
                        == self.by_version.entries()[j].1.workflow,
            decreases self.by_version.entries().len() - i,
        {
            let entry = self.by_version.entry(i);
            workflows.push(entry.1.workflow.clone());
            i = i + 1;
        }
        workflows
    }

    /// The keys of the loaded versions are those of the table.
    proof fn lemma_loaded_keys(&self)
        requires
            self.wf(),
        ensures
            self.loaded_keys().no_duplicates(),
            forall|key: (Seq<char>, ContentHash)|
                self@.by_version.contains_key(key) <==> #[trigger] self.loaded_keys().contains(key),
    {
        let entries = self.by_version.entries();
        let loaded = self.loaded_keys();
        lemma_entry_map(entries);
        assert forall|key: (Seq<char>, ContentHash)|
            self@.by_version.contains_key(key) <==> #[trigger] loaded.contains(key) by {
            if self@.by_version.contains_key(key) {
                let p = position_of(entries, key);
                assert(loaded[p] == key);
            }
            if loaded.contains(key) {
                let i = choose|i: int| 0 <= i < loaded.len() && loaded[i] == key;
                assert(entries[i].0@ == key);
            }
        }
        assert forall|i: int, j: int| 0 <= i < j < loaded.len() implies loaded[i] != loaded[j] by {
            assert(entries[i].0@ != entries[j].0@);
        }
    }

    /// The loaded versions of a type, rendered for an error.
    fn loaded_versions_of(&self, workflow_type: &str) -> (text: String)
        requires
            self.wf(),
        ensures
            exists|listing: Seq<Seq<char>>| #[trigger]
                lists_versions(self@.by_version, workflow_type@, listing) && text@
                    == version_listing(listing),
    {
        let mut versions: Vec<String> = Vec::new();
        let wanted = workflow_type.to_owned();
        let ghost entries = self.by_version.entries();
        let mut i: usize = 0;
        while i < self.by_version.len()
            invariant
                self.wf(),
                entries == self.by_version.entries(),
                0 <= i <= entries.len(),
                wanted@ == workflow_type@,
                texts(versions@).no_duplicates(),
                forall|j: int|
                    0 <= j < i && (#[trigger] entries[j]).0.workflow_type@ == workflow_type@
                        ==> texts(versions@).contains(hash_text(entries[j].0.version)),
                forall|k: int|
                    0 <= k < versions@.len() ==> is_version_among(
                        entries,
                        i as int,
                        workflow_type@,
                        (#[trigger] versions@[k])@,
                    ),
            decreases entries.len() - i,
        {
            let key = &self.by_version.entry(i).0;
            proof {
                assert forall|k: int| 0 <= k < versions@.len() implies is_version_among(
                    entries,
                    i + 1,
                    workflow_type@,
                    (#[trigger] versions@[k])@,
                ) by {
                    let j = choose|j: int|
                        0 <= j < i && (#[trigger] entries[j]).0.workflow_type@ == workflow_type@
                            && versions@[k]@ == hash_text(entries[j].0.version);
                    assert(entries[j].0.workflow_type@ == workflow_type@);
                }
            }
            if key.workflow_type == wanted {
                let ghost before = versions@;
                let text = key.version.text();
                versions.push(text);
                proof {
                    assert(texts(versions@) =~= texts(before).push(text@));
                    assert forall|k: int| 0 <= k < before.len() implies (#[trigger] texts(
                        before,
                    )[k]) != text@ by {
                        let j = choose|j: int|
                            0 <= j < i && (#[trigger] entries[j]).0.workflow_type@ == workflow_type@
                                && before[k]@ == hash_text(entries[j].0.version);
                        if before[k]@ == text@ {
                            canonical_text_determines_the_hash(
                                entries[j].0.version,
                                key.version,
                            );
                            assert(entries[j].0@ == entries[i as int].0@);
                        }
                    }
                    assert(texts(versions@)[before.len() as int] == text@);
                    assert forall|j: int|
                        0 <= j < i + 1 && (#[trigger] entries[j]).0.workflow_type@
                            == workflow_type@ implies texts(versions@).contains(
                        hash_text(entries[j].0.version),
                    ) by {
                        if j < i {
                            let k = choose|k: int|
                                0 <= k < texts(before).len() && texts(before)[k] == hash_text(
                                    entries[j].0.version,
                                );
                            assert(texts(versions@)[k] == hash_text(entries[j].0.version));
                        }
                    }
                    assert forall|k: int| 0 <= k < versions@.len() implies is_version_among(
                        entries,
                        i + 1,
                        workflow_type@,
                        (#[trigger] versions@[k])@,
                    ) by {
                        if k < before.len() {
                            assert(versions@[k] == before[k]);
                        } else {
                            assert(entries[i as int].0.workflow_type@ == workflow_type@);
                        }
                    }
                }
            }
            i = i + 1;
        }
        let ghost unsorted = versions@;
        let versions = sort_texts(versions);
        proof {
            let listing = texts(versions@);
            lemma_sorted_strings(unsorted, versions@);
            lemma_entry_map(entries);
            assert forall|version: ContentHash|
                self@.by_version.contains_key((workflow_type@, version)) <==> listing.contains(
                    #[trigger] hash_text(version),
                ) by {
                let key = (workflow_type@, version);
                if self@.by_version.contains_key(key) {
                    let p = position_of(entries, key);
                    assert(entries[p].0.workflow_type@ == workflow_type@);
                    assert(texts(unsorted).contains(hash_text(version)));
                }
                if listing.contains(hash_text(version)) {
                    assert(texts(unsorted).contains(hash_text(version)));
                    let k = choose|k: int|
                        0 <= k < texts(unsorted).len() && texts(unsorted)[k] == hash_text(version);
                    assert(unsorted[k]@ == hash_text(version));
                    let j = choose|j: int|
                        0 <= j < entries.len() && (#[trigger] entries[j]).0.workflow_type@
                            == workflow_type@ && unsorted[k]@ == hash_text(entries[j].0.version);
                    canonical_text_determines_the_hash(
                        entries[j].0.version,
                        version,
                    );
                    assert(entries[j].0@ == key);
                }
            }
            assert forall|text: Seq<char>| #[trigger] listing.contains(text) implies exists|
                version: ContentHash,
            | text == #[trigger] hash_text(version) by {
                assert(texts(unsorted).contains(text));
                let k = choose|k: int| 0 <= k < texts(unsorted).len() && texts(unsorted)[k] == text;
                assert(unsorted[k]@ == text);
                let j = choose|j: int|
                    0 <= j < entries.len() && (#[trigger] entries[j]).0.workflow_type@
                        == workflow_type@ && unsorted[k]@ == hash_text(entries[j].0.version);
                assert(text == hash_text(entries[j].0.version));
            }
            assert(lists_versions(self@.by_version, workflow_type@, listing));
        }
        if versions.len() == 0 {
            "none".to_owned()
        } else {
            join(&versions, ", ")
        }
    }

    /// Resolves the routed version of `workflow_type`, holding a start pin.
    pub fn resolve_routed(&mut self, workflow_type: &str) -> (pinned: Option<PinnedWorkflow>)
        requires
            old(self).wf(),
            routed_entry(old(self)@, workflow_type@) is Some ==> pin_count(
                old(self)@.pins,
                (workflow_type@, old(self)@.routed[workflow_type@]),
            ) < usize::MAX,
        ensures
            final(self).wf(),
            match pinned {
                Some(pinned) => {
                    &&& routed_entry(old(self)@, workflow_type@) matches Some(entry)
                    &&& pinned.pinned() == entry.workflow
                    &&& pinned.key() == (workflow_type@, old(self)@.routed[workflow_type@])
                    &&& pins_one_more(old(self)@, final(self)@, pinned.key())
                },
                None => {
                    &&& routed_entry(old(self)@, workflow_type@) is None
                    &&& final(self)@ == old(self)@
                },
            },
    {
        match self.routed(workflow_type) {
            Some(workflow) => Some(self.pin(workflow)),
            None => None,
        }
    }

    /// Resolves an exact `(type, version)`, holding a start pin.
    pub fn resolve_exact(&mut self, workflow_type: &str, version: &ContentHash) -> (pinned: Option<
        PinnedWorkflow,
    >)
        requires
            old(self).wf(),
            old(self)@.by_version.contains_key((workflow_type@, *version)) ==> pin_count(
                old(self)@.pins,
                (workflow_type@, *version),
            ) < usize::MAX,
        ensures
            final(self).wf(),
            match pinned {
                Some(pinned) => {
                    &&& old(self)@.by_version.contains_key((workflow_type@, *version))
                    &&& pinned.pinned() == old(self)@.by_version[(workflow_type@, *version)].workflow
                    &&& pinned.key() == (workflow_type@, *version)
                    &&& pins_one_more(old(self)@, final(self)@, pinned.key())
                },
                None => {
                    &&& !old(self)@.by_version.contains_key((workflow_type@, *version))
                    &&& final(self)@ == old(self)@
                },
            },
    {
        match self.get(workflow_type, version) {
            Some(workflow) => Some(self.pin(workflow)),
            None => None,
        }
    }

    /// Takes a start pin on a resolved workflow.
    fn pin(&mut self, workflow: LoadedWorkflow) -> (pinned: PinnedWorkflow)
        requires
            old(self).wf(),
            pin_count(old(self)@.pins, (workflow@.workflow_type, workflow@.version)) < usize::MAX,
        ensures
            final(self).wf(),
            pinned.pinned() == workflow,
            pins_one_more(old(self)@, final(self)@, pinned.key()),
    {
        let key = VersionKey::new(workflow.workflow_type(), workflow.version());
        let held: usize = match self.pinned_starts.get(&key) {
            Some(count) => *count,
            None => 0,
        };
        assert(held == pin_count(self@.pins, key@));
        self.pinned_starts.insert(key, held + 1);
        PinnedWorkflow { workflow }
    }

    /// Releases a start pin.
    pub fn release(&mut self, pinned: PinnedWorkflow)
        requires
            old(self).wf(),
        ensures
            final(self).wf(),
            pins_one_fewer(old(self)@, final(self)@, pinned.key()),
    {
        let key = VersionKey::new(pinned.workflow.workflow_type(), pinned.workflow.version());
        let held: usize = match self.pinned_starts.get(&key) {
            Some(count) => *count,
            None => {
                assert(self@.pins.remove(key@) =~= self@.pins);
                return ;
            },
        };
        if held <= 1 {
            let released = self.pinned_starts.remove(&key);
        } else {
            self.pinned_starts.insert(key, held - 1);
        }
    }

    /// How many in-flight starts currently pin `(type, version)`.
    pub(crate) fn pinned_starts_of(&self, workflow_type: &str, version: &ContentHash) -> (count:
        usize)
        requires
            self.wf(),
        ensures
            count == pin_count(self@.pins, (workflow_type@, *version)),
    {
        match self.pinned_starts.get(&VersionKey::new(workflow_type, version)) {
            Some(count) => *count,
            None => 0,
        }
    }

    /// Whether any in-flight start currently pins `(type, version)`.
    pub fn has_pinned_starts(&self, workflow_type: &str, version: &ContentHash) -> (pinned: bool)
        requires
            self.wf(),
        ensures
            pinned == (pin_count(self@.pins, (workflow_type@, *version)) > 0),
    {
        self.pinned_starts_of(workflow_type, version) > 0
    }

    /// Re-points the route for `workflow_type` at an already-loaded version.
    ///
    /// # Errors
    ///
    /// [`EngineError::UnknownVersion`] naming the loaded set when the version is not
    /// loaded; the catalog is then unchanged.
    pub fn route_version(&mut self, workflow_type: &str, version: &ContentHash) -> (result: Result<
        (),
        EngineError,
    >)
        requires
            old(self).wf(),
        ensures
            final(self).wf(),
            match result {
                Ok(()) => {
                    &&& old(self)@.by_version.contains_key((workflow_type@, *version))
                    &&& final(self)@ == (CatalogView {
                        routed: old(self)@.routed.insert(workflow_type@, *version),
                        ..old(self)@
                    })
                },
                Err(error) => {
                    &&& !old(self)@.by_version.contains_key((workflow_type@, *version))
                    &&& is_unknown_version(error, old(self)@, workflow_type@, *version)
                    &&& final(self)@ == old(self)@
                },
            },
    {
        if !self.is_loaded(workflow_type, version) {
            return Err(self.unknown_version(workflow_type, version));
        }
        self.routed.insert(workflow_type.to_owned(), *version);
        Ok(())
    }

    /// Reports a version as not loaded.
    fn unknown_version(&self, workflow_type: &str, version: &ContentHash) -> (error: EngineError)
        requires
            self.wf(),
        ensures
            is_unknown_version(error, self@, workflow_type@, *version),
    {
        EngineError::UnknownVersion {
            workflow_type: workflow_type.to_owned(),
            version: *version,
            loaded: self.loaded_versions_of(workflow_type),
        }
    }

    /// Whether the catalog has committed a deployed module name.
    pub fn has_registered_module(&self, deployed_name: &str) -> (registered: bool)
        requires
            self.wf(),
        ensures
            registered == self@.modules.contains_key(deployed_name@),
    {
        self.registered_modules.contains_key(&deployed_name.to_owned())
    }

    /// Commits a deployed module name to a version.
    ///
    /// # Errors
    ///
    /// [`EngineError::Load`] when the name is already committed to another version;
    /// the catalog is then unchanged.
    pub fn note_registered_module(&mut self, deployed_name: &str, version: ContentHash) -> (result:
        Result<(), EngineError>)
        requires
            old(self).wf(),
        ensures
            final(self).wf(),
            match result {
                Ok(()) => {
                    &&& !module_taken(old(self)@, deployed_name@, version)
                    &&& final(self)@ == (CatalogView {
                        modules: old(self)@.modules.insert(deployed_name@, version),
                        ..old(self)@
                    })
                },
                Err(error) => {
                    &&& module_taken(old(self)@, deployed_name@, version)
                    &&& is_load_error(
                        error,
                        module_taken_text(old(self)@, deployed_name@, version),
                    )
                    &&& final(self)@ == old(self)@
                },
            },
    {
        let name = deployed_name.to_owned();
        match self.registered_modules.get(&name) {
            Some(existing) => {
                if existing.same(&version) {
                    assert(self@.modules.insert(deployed_name@, version) =~= self@.modules);
                    Ok(())
                } else {
                    Err(module_taken_error(deployed_name, existing, &version))
                }
            },
            None => {
                self.registered_modules.insert(name, version);
                Ok(())
            },
        }
    }
}

/// A text is that of a version of the type among the first entries of a table.
spec fn is_version_among(
    entries: Seq<(VersionKey, CatalogEntry)>,
    count: int,
    workflow_type: Seq<char>,
    text: Seq<char>,
) -> bool {
    exists|j: int|
        0 <= j < count && (#[trigger] entries[j]).0.workflow_type@ == workflow_type && text
            == hash_text(entries[j].0.version)
}

/// One start more holds a version, and nothing else has changed.
pub open spec fn pins_one_more(
    before: CatalogView,
    after: CatalogView,
    key: (Seq<char>, ContentHash),
) -> bool {
    &&& after.pins == before.pins.insert(key, (pin_count(before.pins, key) + 1) as usize)
    &&& after == (CatalogView { pins: after.pins, ..before })
}

/// One start fewer holds a version, and nothing else has changed; a version that no
/// start holds is left without a count.
pub open spec fn pins_one_fewer(
    before: CatalogView,
    after: CatalogView,
    key: (Seq<char>, ContentHash),
) -> bool {
    &&& after.pins == if pin_count(before.pins, key) <= 1 {
        before.pins.remove(key)
    } else {
        before.pins.insert(key, (pin_count(before.pins, key) - 1) as usize)
    }
    &&& after == (CatalogView { pins: after.pins, ..before })
}

/// A deployed module name belongs to another version.
pub open spec fn module_taken(catalog: CatalogView, name: Seq<char>, version: ContentHash) -> bool {
    catalog.modules.contains_key(name) && catalog.modules[name] != version
}

/// Why a deployed module name is refused to a version.
pub open spec fn module_taken_text(
    catalog: CatalogView,
    name: Seq<char>,
    version: ContentHash,
) -> Seq<char> {
    "deployed module `"@ + name + "` is already registered for content hash `"@ + hash_text(
        catalog.modules[name],
    ) + "`, not `"@ + hash_text(version) + "`"@
}

/// Reports a deployed module name as belonging to another version.
pub(crate) fn module_taken_error(
    name: &str,
    existing: &ContentHash,
    version: &ContentHash,
) -> (error: EngineError)
    ensures
        is_load_error(
            error,
            "deployed module `"@ + name@ + "` is already registered for content hash `"@
                + hash_text(*existing) + "`, not `"@ + hash_text(*version) + "`"@,
        ),
{
    load_error(
        concat7(
            "deployed module `",
            name,
            "` is already registered for content hash `",
            existing.text().as_str(),
            "`, not `",
            version.text().as_str(),
            "`",
        ),
    )
}

/// A pin that is taken and released leaves the catalog as it was, where no stale
/// zero count stood under its key.
pub proof fn releasing_a_pin_undoes_taking_it(
    before: CatalogView,
    held: CatalogView,
    after: CatalogView,
    key: (Seq<char>, ContentHash),
)
    requires
        before.pins.contains_key(key) ==> before.pins[key] > 0,
        pin_count(before.pins, key) < usize::MAX,
        pins_one_more(before, held, key),
        pins_one_fewer(held, after, key),
    ensures
        pin_count(held.pins, key) > 0,
        after == before,
{
    assert(after.pins =~= before.pins);
}

} // verus!
